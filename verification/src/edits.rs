//! What edits do to the themes: what they set is set, and nothing else changes.

use vstd::prelude::*;
use crate::color::Color;
use crate::editor::{self, EditorModel};
use crate::fallback;
use crate::panels::{self, ShownModel};
use crate::reconcile::Plugins;
use crate::records::{self, MetaModel, RecordModel};
use crate::schema::PropModel;
use crate::storage::{self, ThemeData, DEFAULT_SIZE_KEY};
use crate::textmap;
use crate::text;
use crate::token_theme::TokenModel;

verus! {

/// Whether an edit left every theme but the edited one as it was, and of that one the name, the parent
/// and the tokens.
pub open spec fn only_components_differ(before: EditorModel, after: EditorModel) -> bool {
    &&& after.current == before.current
    &&& after.themes.len() == before.themes.len()
    &&& forall|j: int|
        0 <= j < before.themes.len() && j != before.current ==> #[trigger] after.themes[j] == before.themes[j]
    &&& after.theme().meta == before.theme().meta
    &&& after.theme().tokens == before.theme().tokens
    &&& after.theme().token_overrides == before.theme().token_overrides
}

/// A value that a row of the variant panel is given is what the theme has for the row's variant, state and
/// property, where it differs from what the property would inherit. No other component changes, nor does
/// any other theme.
pub proof fn edited_variant_holds_value(
    e: EditorModel,
    plugins: Plugins,
    key: Seq<char>,
    variant: Seq<char>,
    state: Seq<char>,
    def: PropModel,
    shown: ShownModel,
    other: Seq<char>,
)
    requires
        e.is_open(),
        e.data(key) is Some,
        e.data(key)->Some_0.variant_props.dom().contains(variant),
        e.data(key)->Some_0.variant_props[variant].dom().contains(state),
        e.data(key)->Some_0.becomes_override(
            variant,
            state,
            def.name,
            panels::row_value(def.prop_type, shown),
        ),
        !editor::holds(
            e.variant_value(key, variant, state, def.name),
            panels::row_value(def.prop_type, shown),
        ),
    ensures
        ({
            let after = e.variant_changed(plugins, key, Some((variant, state, def)), shown);
            &&& after.variant_value(key, variant, state, def.name) == Some(panels::row_value(def.prop_type, shown))
            &&& only_components_differ(e, after)
            &&& other != key ==> after.data(other) == e.data(other)
        }),
{
    let d = e.data(key)->Some_0;
    let v = panels::row_value(def.prop_type, shown);
    storage::set_variant_value_is_read(d, variant, state, def.name, v);
    let set = d.variant_set(variant, state, def.name, v);
    assert(storage::variant_value(set.variant_props, variant, state, def.name) == Some(v));
}

/// A value that a row of the size panel is given is what the theme has for the row's size and property;
/// what was given to a concrete size reaches no other component, and no other theme changes.
pub proof fn edited_size_holds_value(
    e: EditorModel,
    key: Seq<char>,
    component: Seq<char>,
    size: Seq<char>,
    def: PropModel,
    shown: ShownModel,
    other: Seq<char>,
)
    requires
        e.is_open(),
        e.data(key) is Some,
        e.data(key)->Some_0.size_props.dom().contains(size),
        size != DEFAULT_SIZE_KEY@,
        !editor::holds(e.size_value(key, size, def.name), panels::row_value(def.prop_type, shown)),
    ensures
        ({
            let after = e.size_changed(key, Some((component, size, def)), shown);
            &&& after.size_value(key, size, def.name) == Some(panels::row_value(def.prop_type, shown))
            &&& after.data(key) is Some && storage::size_flagged(
                after.data(key)->Some_0.size_overrides,
                size,
                def.name,
            )
            &&& only_components_differ(e, after)
            &&& other != key ==> after.data(other) == e.data(other)
        }),
{
    let v = panels::row_value(def.prop_type, shown);
    let d = e.data(key)->Some_0;
    let set = d.size_imported(size, def.name, v);
    assert(textmap::at2(set.size_props, size, def.name) == Some(v));
}

/// A color that is set changes no other color of the scheme, nothing of the other scheme, no other theme
/// and nothing else of the edited one.
pub proof fn set_color_sets_nothing_else(
    e: EditorModel,
    token: Seq<char>,
    c: Color,
    is_dark: bool,
    other: Seq<char>,
    j: int,
)
    requires
        e.is_open(),
        other != token,
        0 <= j < e.themes.len(),
        j != e.current,
    ensures
        ({
            let after = e.color_changed(token, c, is_dark);
            let (was, is) = (e.theme().tokens, after.theme().tokens);
            &&& editor::named_color(editor::scheme(is, is_dark), other) == editor::named_color(
                editor::scheme(was, is_dark),
                other,
            )
            &&& editor::scheme(is, !is_dark) == editor::scheme(was, !is_dark)
            &&& is == (TokenModel { light: is.light, dark: is.dark, ..was })
            &&& after.theme().component_themes == e.theme().component_themes
            &&& after.theme().meta == e.theme().meta
            &&& after.themes[j] == e.themes[j]
        }),
{
    reveal_strlit("primary");
    reveal_strlit("primary-pressed");
    reveal_strlit("secondary");
    reveal_strlit("danger");
    reveal_strlit("surface");
    reveal_strlit("background");
    reveal_strlit("text");
    reveal_strlit("text-muted");
}

/// Choosing another theme keeps what the panel shows in the theme that was edited, and changes no other.
pub proof fn left_theme_keeps_shown_tokens(e: EditorModel, index: int, shown: TokenModel, j: int)
    requires
        e.is_open(),
        index != e.current,
        0 <= j < e.themes.len(),
        j != e.current,
    ensures
        e.switched(index, shown).current == index,
        e.switched(index, shown).themes[e.current].tokens == shown,
        e.switched(index, shown).themes[e.current].component_themes == e.theme().component_themes,
        e.switched(index, shown).themes[j] == e.themes[j],
        e.switched(index, shown).undo == e.undo,
{
}

/// A parent that is accepted is the parent of the edited theme; without one the theme owns every token.
/// A theme that comes with the library, and a choice that would make a circle, change nothing.
pub proof fn accepted_parent_is_the_parent(e: EditorModel, choice: Seq<char>)
    requires
        e.is_open(),
    ensures
        ({
            let after = e.parent_changed(choice);
            let name = text::trim(choice);
            let parent = if name.len() == 0 || name == "None"@ {
                None
            } else {
                Some(name)
            };
            let refused = e.theme().meta.is_builtin || (parent matches Some(n) && records::would_cycle(
                e.themes,
                e.current,
                n,
            ));
            &&& refused ==> after == e
            &&& !refused ==> after.theme().meta.parent_name == parent
            &&& after.theme().meta.name == e.theme().meta.name
            &&& after.theme().tokens == e.theme().tokens
            &&& after.theme().component_themes == e.theme().component_themes
            &&& after != e && parent is None ==> after.theme().token_overrides
                == crate::token_theme::every_token_key()
            &&& after != e && parent is Some ==> after.theme().token_overrides == e.theme().token_overrides
        }),
{
}

/// A theme that is given a name has it, those that had it as a parent still have, and every other name
/// stays.
pub proof fn renamed_theme_has_name(e: EditorModel, name: Seq<char>, j: int)
    requires
        e.is_open(),
        !e.theme().meta.is_builtin,
        name.len() > 0,
        0 <= j < e.themes.len(),
    ensures
        ({
            let after = e.name_changed(name);
            &&& after.theme().meta.name == name
            &&& j != e.current ==> after.themes[j].meta.name == e.themes[j].meta.name
            &&& e.theme().meta.name != name && e.themes[j].meta.parent_name == Some(e.theme().meta.name)
                ==> after.themes[j].meta.parent_name == Some(name)
            &&& e.themes[j].meta.parent_name != Some(e.theme().meta.name) ==> after.themes[j].meta.parent_name
                == e.themes[j].meta.parent_name
            &&& after.themes[j].tokens == e.themes[j].tokens
            &&& after.themes[j].component_themes == e.themes[j].component_themes
        }),
{
}

/// A theme that is loaded is edited with what it holds, as one that does not come with the library, in
/// place of the one that was edited; it goes by its own name where it has one.
pub proof fn loaded_theme_is_edited(e: EditorModel, theme: RecordModel, stem: Option<Seq<char>>, j: int)
    requires
        e.is_open(),
        0 <= j < e.themes.len(),
        j != e.current,
    ensures
        ({
            let after = e.loaded(theme, stem);
            &&& after.current == e.current
            &&& after.theme().tokens == theme.tokens
            &&& after.theme().token_overrides == theme.token_overrides
            &&& after.theme().component_themes == theme.component_themes
            &&& after.theme().meta.parent_name == theme.meta.parent_name
            &&& !after.theme().meta.is_builtin
            &&& text::trim(theme.meta.name).len() > 0 && theme.meta.name != editor::WORKING_THEME_NAME@
                ==> after.theme().meta.name == theme.meta.name
            &&& after.themes[j] == e.themes[j]
        }),
{
}

/// A base that is added is the parent of the edited theme, where the edited theme has another name; it
/// holds what was loaded, extends nothing, and no theme that was there is lost.
pub proof fn added_base_is_the_parent(e: EditorModel, theme: RecordModel, stem: Option<Seq<char>>, j: int)
    requires
        e.is_open(),
        0 <= j < e.themes.len(),
        j != e.current,
        e.theme().meta.name != editor::free_name(
            e.themes,
            e.current,
            editor::base_name(theme.meta.name, stem),
        ),
    ensures
        ({
            let after = e.based_on(theme, stem);
            let base = after.themes[e.themes.len() as int];
            &&& after.themes.len() == e.themes.len() + 1
            &&& records::parent_record(after.themes, after.current) == Some(base)
            &&& base.tokens == theme.tokens
            &&& base.component_themes == theme.component_themes
            &&& base.meta.parent_name is None
            &&& after.themes[j] == e.themes[j]
            &&& after.theme().tokens == e.theme().tokens
            &&& after.theme().component_themes == e.theme().component_themes
        }),
{
    let name = editor::free_name(e.themes, e.current, editor::base_name(theme.meta.name, stem));
    editor::added_base_has_own_name(e.themes, e.current, editor::base_name(theme.meta.name, stem));
    let after = e.based_on(theme, stem);
    let n = e.themes.len() as int;
    assert(after.themes[n].meta.name == name);
    assert forall|k: int| 0 <= k < after.themes.len() && k != n implies (#[trigger] after.themes[k]).meta.name
        != after.themes[n].meta.name by {
        assert(after.themes[k].meta.name == e.themes[k].meta.name);
        if k != e.current {
            assert(!editor::taken(e.themes, e.current, name));
        }
    }
    records::index_of_only(after.themes, n);
}

/// A theme that is reset is reset to its parent where it has one, else to the base theme, and never to
/// itself; it keeps its name, and with a parent it owns nothing.
pub proof fn reset_theme_takes_after_parent(themes: Seq<RecordModel>, i: int, p: int, baseline: RecordModel, key: Seq<char>)
    requires
        0 <= i < themes.len(),
        p != i,
    ensures
        records::parent_index(themes, i) == Some(p) ==> records::baseline_index(themes, i) == Some(p),
        records::baseline_index(themes, i) != Some(i),
        records::reset_to(themes[i].meta, baseline).meta == themes[i].meta,
        records::reset_to(themes[i].meta, baseline).tokens == baseline.tokens,
        themes[i].meta.parent_name is Some ==> records::reset_to(themes[i].meta, baseline).token_overrides
            == Set::<Seq<char>>::empty(),
        themes[i].meta.parent_name is None ==> records::reset_to(themes[i].meta, baseline).token_overrides
            == crate::token_theme::every_token_key(),
        baseline.component_themes.dom().contains(key) ==> ({
            let was = baseline.component_themes[key];
            let is = records::reset_to(themes[i].meta, baseline).component_themes[key];
            is.variant_props == was.variant_props && is.size_props == was.size_props
        }),
{
}

proof fn lemma_choices(themes: Seq<RecordModel>, current: Seq<char>, parent: Option<Seq<char>>)
    ensures
        ({
            let (options, selected) = records::parent_choices(themes, current, parent);
            &&& options.len() > 0
            &&& options[0] == "None"@
            &&& 0 <= selected < options.len()
            &&& selected > 0 ==> parent == Some(options[selected])
            &&& forall|k: int| 0 < k < options.len() ==> #[trigger] options[k] != current
            &&& forall|i: int|
                0 <= i < themes.len() && (#[trigger] themes[i]).meta.name != current ==> options.contains(
                    themes[i].meta.name,
                ) && (parent == Some(themes[i].meta.name) ==> selected > 0)
        }),
    decreases themes.len(),
{
    if themes.len() > 0 {
        let front = themes.drop_last();
        lemma_choices(front, current, parent);
        let (before, was) = records::parent_choices(front, current, parent);
        let (options, selected) = records::parent_choices(themes, current, parent);
        assert(options[0] == before[0]);
        assert forall|k: int| 0 < k < options.len() implies #[trigger] options[k] != current by {
            if k < before.len() {
                assert(options[k] == before[k]);
            }
        }
        assert forall|i: int| 0 <= i < themes.len() && (#[trigger] themes[i]).meta.name != current implies options.contains(
            themes[i].meta.name,
        ) && (parent == Some(themes[i].meta.name) ==> selected > 0) by {
            if i < front.len() {
                assert(front[i] == themes[i]);
                let k = choose|k: int| 0 <= k < before.len() && before[k] == themes[i].meta.name;
                assert(options[k] == before[k]);
            } else {
                assert(options[options.len() - 1] == themes[i].meta.name);
            }
        }
        if selected > 0 && selected < before.len() {
            assert(options[selected] == before[selected]);
        }
    }
}

/// The parents that are offered are none and every other theme; the one that is selected is the theme's
/// parent where that is there, and none where it has no parent.
pub proof fn every_other_theme_is_offered(themes: Seq<RecordModel>, current: Seq<char>, parent: Option<Seq<char>>, i: int)
    requires
        0 <= i < themes.len(),
    ensures
        ({
            let (options, selected) = records::parent_choices(themes, current, parent);
            &&& options[0] == "None"@
            &&& themes[i].meta.name != current ==> options.contains(themes[i].meta.name)
            &&& forall|k: int| 0 < k < options.len() ==> #[trigger] options[k] != current
            &&& parent is None ==> selected == 0
            &&& parent == Some(themes[i].meta.name) && themes[i].meta.name != current ==> 0 < selected < options.len()
                && parent == Some(options[selected])
        }),
{
    lemma_choices(themes, current, parent);
}

/// The theme that is found by a name has the name and is the first that has; where none is found, none
/// has.
pub proof fn found_theme_is_the_first(themes: Seq<RecordModel>, name: Seq<char>)
    ensures
        match records::index_by_name(themes, name) {
            Some(i) => 0 <= i < themes.len() && themes[i].meta.name == name && forall|j: int|
                0 <= j < i ==> (#[trigger] themes[j]).meta.name != name,
            None => forall|j: int| 0 <= j < themes.len() ==> (#[trigger] themes[j]).meta.name != name,
        },
    decreases themes.len(),
{
    if themes.len() > 0 {
        let front = themes.drop_last();
        found_theme_is_the_first(front, name);
        assert(themes[themes.len() - 1] == themes.last());
        match records::index_by_name(themes, name) {
            Some(i) => {
                assert forall|j: int| 0 <= j < i implies (#[trigger] themes[j]).meta.name != name by {
                    assert(front[j] == themes[j]);
                }
                if i < front.len() {
                    assert(front[i] == themes[i]);
                }
            },
            None => {
                assert forall|j: int| 0 <= j < themes.len() implies (#[trigger] themes[j]).meta.name != name by {
                    if j < front.len() {
                        assert(front[j] == themes[j]);
                    }
                }
            },
        }
    }
}

/// A row of the variant panel stands for the variant, state and property at its places; an index behind
/// the end of a list stands for nothing.
pub proof fn row_stands_for_its_place(
    plugins: Plugins,
    key: Seq<char>,
    variant: int,
    state: int,
    prop: int,
    size: int,
)
    requires
        plugins.dom().contains(key),
    ensures
        ({
            let p = plugins[key];
            let target = editor::variant_target(plugins, key, variant, state, prop);
            &&& 0 <= variant < p.variants.len() && 0 <= state < p.states.len() && 0 <= prop < p.variant_props.len()
                ==> target == Some((p.variants[variant], p.states[state], p.variant_props[prop]))
            &&& variant >= p.variants.len() ==> target is None
            &&& !(0 <= state < p.states.len()) ==> target is None
            &&& !(0 <= prop < p.variant_props.len()) ==> target is None
        }),
        ({
            let p = plugins[key];
            let target = editor::size_target(plugins, key, size, prop);
            &&& 0 <= size < panels::size_list(p.sizes).len() && 0 <= prop < p.size_props.len() ==> target == Some(
                (p.component, panels::size_list(p.sizes)[size].1, p.size_props[prop]),
            )
            &&& size >= panels::size_list(p.sizes).len() ==> target is None
            &&& !(0 <= prop < p.size_props.len()) ==> target is None
        }),
{
}

/// Saving under a name gives the edited theme the name, and changes nothing else of it and no other.
pub proof fn saved_theme_has_name(e: EditorModel, name: Seq<char>, j: int)
    requires
        e.is_open(),
        0 <= j < e.themes.len(),
        j != e.current,
    ensures
        e.saved_as(name).theme() == (RecordModel {
            meta: MetaModel { name, ..e.theme().meta },
            ..e.theme()
        }),
        e.saved_as(name).themes[j] == e.themes[j],
        e.saved_as(name).undo == e.undo,
        e.saved_as(name).current == e.current,
{
}

/// A value that a row of the variant panel is given is marked as the theme's own where it does not match
/// what the property falls back to, and is not where it does.
pub proof fn edited_variant_is_marked(
    e: EditorModel,
    plugins: Plugins,
    key: Seq<char>,
    variant: Seq<char>,
    state: Seq<char>,
    def: PropModel,
    shown: ShownModel,
)
    requires
        e.is_open(),
        e.data(key) is Some,
        !editor::holds(
            e.variant_value(key, variant, state, def.name),
            panels::row_value(def.prop_type, shown),
        ),
    ensures
        ({
            let after = e.variant_changed(plugins, key, Some((variant, state, def)), shown);
            let set = e.data(key)->Some_0.variant_set(
                variant,
                state,
                def.name,
                panels::row_value(def.prop_type, shown),
            );
            let under = fallback::fallback(
                set,
                e.parent_data(key),
                fallback::parent_data(plugins, e.theme().component_themes.insert(key, set), set),
                variant,
                state,
                def.name,
            );
            let held = storage::variant_value(set.variant_props, variant, state, def.name);
            under is Some && held is Some ==> {
                let flagged = storage::variant_flagged(
                    after.data(key)->Some_0.variant_overrides,
                    variant,
                    state,
                    def.name,
                );
                flagged <==> !fallback::values_match(held->Some_0, under->Some_0)
            }
        }),
{
}

} // verus!
