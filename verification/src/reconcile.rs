//! Brings the components of a theme in line with the components that they extend.

use vstd::prelude::*;
use crate::chain;
use crate::fallback::{self, component_parent_data, property_value_matches, variant_prop_fallback_value};
use crate::loader::BuiltinComponentSpec;
use crate::records::{self, RecordModel, ThemeMeta, ThemeRecord};
use crate::schema::{self, PluginDefinition, PluginModel};
use crate::storage::{
    self, cascade_default_to_children, ComponentThemeData, PropertyValue, ThemeData, DEFAULT_SIZE_KEY,
};
use crate::text::owned;
use crate::textmap::{self, Duplicate, TextMap, TextSet};
use crate::token_theme::{all_token_override_keys, token_store_from_theme, TokenModel, TokenTheme};
use crate::value::Value;

verus! {

/// Components by key.
pub type Themes = Map<Seq<char>, ThemeData>;

/// Plugins by key.
pub type Plugins = Map<Seq<char>, PluginModel>;

// ---------------------------------------------------------------------------------------------
// Common sizes
// ---------------------------------------------------------------------------------------------
/// The themes with some Common values of a component passed on to those that follow it.
pub open spec fn row_cascaded(
    themes: Themes,
    component: Seq<char>,
    props: Map<Seq<char>, Value>,
    keys: Seq<Seq<char>>,
) -> Themes
    decreases keys.len(),
{
    if keys.len() == 0 {
        themes
    } else {
        storage::cascaded_default(
            row_cascaded(themes, component, props, keys.drop_last()),
            component,
            keys.last(),
            props[keys.last()],
        )
    }
}

/// The themes with the Common values that components had at first passed on to those that follow
/// them.
pub open spec fn rows_cascaded(themes: Themes, at_first: Themes, plugins: Plugins, keys: Seq<Seq<char>>) -> Themes
    decreases keys.len(),
{
    if keys.len() == 0 {
        themes
    } else {
        let before = rows_cascaded(themes, at_first, plugins, keys.drop_last());
        let key = keys.last();
        if at_first.dom().contains(key) && at_first[key].size_props.dom().contains(DEFAULT_SIZE_KEY@) {
            let row = at_first[key].size_props[DEFAULT_SIZE_KEY@];
            row_cascaded(before, plugins[key].component, row, textmap::sorted_keys(row))
        } else {
            before
        }
    }
}

/// The themes with every component's Common values passed on to those that follow it.
pub open spec fn all_cascaded(themes: Themes, plugins: Plugins) -> Themes {
    rows_cascaded(themes, themes, plugins, textmap::sorted_keys(plugins))
}

fn cascade_row(themes: &mut TextMap<ComponentThemeData>, component: &str, row: &TextMap<PropertyValue>)
    ensures
        final(themes)@ == row_cascaded(
            old(themes)@,
            component@,
            row@,
            textmap::sorted_keys(row@),
        ),
{
    let n: usize = row.len();
    let ghost keys = textmap::sorted_keys(row@);
    let ghost start = themes@;
    for i in 0..n
        invariant
            keys == textmap::sorted_keys(row@),
            n == keys.len(),
            themes@ == row_cascaded(start, component@, row@, keys.take(i as int)),
    {
        proof {
            assert(keys.take(i + 1).drop_last() =~= keys.take(i as int));
            assert(keys.take(i + 1).last() == keys[i as int]);
        }
        cascade_default_to_children(themes, component, row.key_at(i).as_str(), row.value_at(i));
    }
    assert(keys.take(n as int) =~= keys);
}

/// Passes every component's Common values on to those that follow it.
pub fn cascade_component_parent_size_values(
    component_plugins: &TextMap<PluginDefinition>,
    component_themes: &mut TextMap<ComponentThemeData>,
)
    ensures
        final(component_themes)@ == all_cascaded(old(component_themes)@, component_plugins@),
{
    let at_first = component_themes.duplicate();
    let n: usize = component_plugins.len();
    let ghost keys = textmap::sorted_keys(component_plugins@);
    for i in 0..n
        invariant
            keys == textmap::sorted_keys(component_plugins@),
            n == keys.len(),
            component_themes@ == rows_cascaded(
                at_first@,
                at_first@,
                component_plugins@,
                keys.take(i as int),
            ),
    {
        proof {
            assert(keys.take(i + 1).drop_last() =~= keys.take(i as int));
            assert(keys.take(i + 1).last() == keys[i as int]);
        }
        if let Some(data) = at_first.get(component_plugins.key_at(i).as_str()) {
            if let Some(row) = data.size_props.get(DEFAULT_SIZE_KEY) {
                cascade_row(component_themes, component_plugins.value_at(i).component.as_str(), row);
            }
        }
    }
    assert(keys.take(n as int) =~= keys);
}

// ---------------------------------------------------------------------------------------------
// Marks of Common sizes
// ---------------------------------------------------------------------------------------------
/// A component whose Common values no longer follow the parent's where they do not match them.
pub open spec fn size_marks_reconciled(d: ThemeData, parent: Option<ThemeData>) -> ThemeData {
    match parent {
        Some(p) => ThemeData {
            parent_overrides: Set::new(
                |prop: Seq<char>|
                    if d.base(prop) is Some && p.base(prop) is Some {
                        !fallback::values_match(d.base(prop)->Some_0, p.base(prop)->Some_0)
                    } else {
                        d.parent_overrides.contains(prop)
                    },
            ),
            ..d
        },
        None => d,
    }
}

/// The themes with the marks of Common values in line with the parents'.
pub open spec fn all_size_marks_reconciled(themes: Themes, plugins: Plugins) -> Themes {
    Map::new(
        |k: Seq<char>| themes.dom().contains(k),
        |k: Seq<char>| size_marks_reconciled(themes[k], fallback::parent_data(plugins, themes, themes[k])),
    )
}

fn reconcile_size_marks(data: &ComponentThemeData, parent: Option<&ComponentThemeData>) -> (r: ComponentThemeData)
    ensures
        r@ == size_marks_reconciled(data@, schema::option_view(parent)),
{
    let mut out = data.duplicate();
    if let Some(p) = parent {
        if let Some(row) = data.size_props.get(DEFAULT_SIZE_KEY) {
            let n: usize = row.len();
            let ghost keys = textmap::sorted_keys(row@);
            let ghost goal = size_marks_reconciled(data@, Some(p@));
            for i in 0..n
                invariant
                    keys == textmap::sorted_keys(row@),
                    n == keys.len(),
                    textmap::lists(keys, row@.dom()),
                    data@.size_props.dom().contains(DEFAULT_SIZE_KEY@),
                    row@ == data@.size_props[DEFAULT_SIZE_KEY@],
                    goal == size_marks_reconciled(data@, Some(p@)),
                    out@ == (ThemeData { parent_overrides: out@.parent_overrides, ..data@ }),
                    forall|prop: Seq<char>| #[trigger]
                        out@.parent_overrides.contains(prop) == (if keys.take(i as int).contains(prop) {
                            goal.parent_overrides.contains(prop)
                        } else {
                            data@.parent_overrides.contains(prop)
                        }),
            {
                proof {
                    textmap::take_step(keys, i as int);
                }
                let prop = row.key_at(i).as_str();
                if let Some(v) = p.size_props.get2(DEFAULT_SIZE_KEY, prop) {
                    if !property_value_matches(row.value_at(i), v) {
                        out.mark_parent_override(prop);
                    } else {
                        out.parent_overrides.remove(prop);
                    }
                }
            }
            proof {
                assert(keys.take(n as int) =~= keys);
                assert(out@.parent_overrides =~= goal.parent_overrides);
            }
        } else {
            assert(out@.parent_overrides =~= size_marks_reconciled(data@, Some(p@)).parent_overrides);
        }
    }
    out
}

/// Marks the Common values that do not match the parents', and unmarks those that do.
pub fn reconcile_component_parent_size_overrides(
    component_plugins: &TextMap<PluginDefinition>,
    component_themes: &mut TextMap<ComponentThemeData>,
)
    ensures
        final(component_themes)@ == all_size_marks_reconciled(
            old(component_themes)@,
            component_plugins@,
        ),
{
    let next = {
        let all = &*component_themes;
        all.map_values(
            |key: &String, data: &ComponentThemeData| -> (u: ComponentThemeData)
                ensures
                    u@ == size_marks_reconciled(
                        data@,
                        fallback::parent_data(component_plugins@, all@, data@),
                    )
                { reconcile_size_marks(data, component_parent_data(component_plugins, all, data)) },
        )
    };
    assert(next@ =~= all_size_marks_reconciled(component_themes@, component_plugins@));
    *component_themes = next;
}

// ---------------------------------------------------------------------------------------------
// Variants
// ---------------------------------------------------------------------------------------------
/// What a variant's marked value is replaced by: what it falls back to, where it matches that.
pub open spec fn replaced_by(
    d: ThemeData,
    parent: ThemeData,
    variant: Seq<char>,
    state: Seq<char>,
    prop: Seq<char>,
) -> Option<Value> {
    match (
        storage::variant_value(d.variant_props, variant, state, prop),
        fallback::fallback(d, None, Some(parent), variant, state, prop),
    ) {
        (Some(v), Some(f)) => if storage::variant_flagged(d.variant_overrides, variant, state, prop)
            && fallback::values_match(v, f) {
            Some(f)
        } else {
            None
        },
        _ => None,
    }
}

/// The values of a variant in a state, with what they fall back to in place of marked ones that
/// match it.
pub open spec fn props_reconciled(d: ThemeData, parent: ThemeData, variant: Seq<char>, state: Seq<char>) -> Map<
    Seq<char>,
    Value,
> {
    let props = d.variant_props[variant][state];
    Map::new(
        |p: Seq<char>| props.dom().contains(p),
        |p: Seq<char>|
            match replaced_by(d, parent, variant, state, p) {
                Some(f) => f,
                None => props[p],
            },
    )
}

/// A component whose marked values are no overrides any more where they match what they fall back to.
pub open spec fn variants_reconciled(d: ThemeData, parent: Option<ThemeData>) -> ThemeData {
    match parent {
        Some(p) => ThemeData {
            variant_props: Map::new(
                |v: Seq<char>| d.variant_props.dom().contains(v),
                |v: Seq<char>|
                    Map::new(
                        |s: Seq<char>| d.variant_props[v].dom().contains(s),
                        |s: Seq<char>| props_reconciled(d, p, v, s),
                    ),
            ),
            variant_overrides: Map::new(
                |v: Seq<char>| d.variant_overrides.dom().contains(v),
                |v: Seq<char>|
                    Map::new(
                        |s: Seq<char>| d.variant_overrides[v].dom().contains(s),
                        |s: Seq<char>|
                            d.variant_overrides[v][s].filter(
                                |prop: Seq<char>| replaced_by(d, p, v, s, prop) is None,
                            ),
                    ),
            ),
            ..d
        },
        None => d,
    }
}

/// The themes with the marks of variants in line with the parents'.
pub open spec fn all_variants_reconciled(themes: Themes, plugins: Plugins) -> Themes {
    Map::new(
        |k: Seq<char>| themes.dom().contains(k),
        |k: Seq<char>| variants_reconciled(themes[k], fallback::parent_data(plugins, themes, themes[k])),
    )
}

fn replacement(
    data: &ComponentThemeData,
    parent: &ComponentThemeData,
    variant: &str,
    state: &str,
    prop: &str,
) -> (r: Option<PropertyValue>)
    ensures
        storage::found(r) == replaced_by(data@, parent@, variant@, state@, prop@),
{
    if !data.variant_prop_is_overridden(variant, state, prop) {
        return None;
    }
    let value = match data.variant_props.get(variant) {
        Some(states) => states.get2(state, prop),
        None => None,
    };
    match value {
        Some(v) => match variant_prop_fallback_value(data, None, Some(parent), variant, state, prop) {
            Some(f) => if property_value_matches(v, &f) {
                Some(f)
            } else {
                None
            },
            None => None,
        },
        None => None,
    }
}

fn reconcile_props(
    data: &ComponentThemeData,
    parent: &ComponentThemeData,
    variant: &str,
    state: &str,
    props: &TextMap<PropertyValue>,
) -> (r: TextMap<PropertyValue>)
    ensures
        props@ == data@.variant_props[variant@][state@] ==> r@ == props_reconciled(
            data@,
            parent@,
            variant@,
            state@,
        ),
{
    let r = props.map_values(
        |prop: &String, v: &PropertyValue| -> (u: PropertyValue)
            ensures
                u@ == (match replaced_by(data@, parent@, variant@, state@, prop@) {
                    Some(f) => f,
                    None => v@,
                })
            {
                match replacement(data, parent, variant, state, prop.as_str()) {
                    Some(f) => f,
                    None => v.duplicate(),
                }
            },
    );
    proof {
        if props@ == data@.variant_props[variant@][state@] {
            assert(r@ =~= props_reconciled(data@, parent@, variant@, state@));
        }
    }
    r
}

fn reconcile_states(
    data: &ComponentThemeData,
    parent: &ComponentThemeData,
    variant: &str,
    states: &TextMap<TextMap<PropertyValue>>,
) -> (r: TextMap<TextMap<PropertyValue>>)
    ensures
        states@ == data@.variant_props[variant@] ==> r@ == Map::new(
            |s: Seq<char>| data@.variant_props[variant@].dom().contains(s),
            |s: Seq<char>| props_reconciled(data@, parent@, variant@, s),
        ),
{
    let r = states.map_values(
        |state: &String, props: &TextMap<PropertyValue>| -> (u: TextMap<PropertyValue>)
            ensures
                props@ == data@.variant_props[variant@][state@] ==> u@ == props_reconciled(
                    data@,
                    parent@,
                    variant@,
                    state@,
                )
            { reconcile_props(data, parent, variant, state.as_str(), props) },
    );
    proof {
        if states@ == data@.variant_props[variant@] {
            assert(r@ =~= Map::new(
                |s: Seq<char>| data@.variant_props[variant@].dom().contains(s),
                |s: Seq<char>| props_reconciled(data@, parent@, variant@, s),
            ));
        }
    }
    r
}

fn reconcile_marks(
    data: &ComponentThemeData,
    parent: &ComponentThemeData,
    variant: &str,
    states: &TextMap<TextSet>,
) -> (r: TextMap<TextSet>)
    ensures
        r@ == Map::new(
            |s: Seq<char>| states@.dom().contains(s),
            |s: Seq<char>|
                states@[s].filter(
                    |prop: Seq<char>| replaced_by(data@, parent@, variant@, s, prop) is None,
                ),
        ),
{
    let r = states.map_values(
        |state: &String, props: &TextSet| -> (u: TextSet)
            ensures
                u@ == props@.filter(
                    |prop: Seq<char>| replaced_by(data@, parent@, variant@, state@, prop) is None,
                )
            {
                props.filtered(
                    |prop: &String| -> (b: bool)
                        ensures
                            b == (replaced_by(data@, parent@, variant@, state@, prop@) is None)
                        { replacement(data, parent, variant, state.as_str(), prop.as_str()).is_none() },
                    Ghost(|prop: Seq<char>| replaced_by(data@, parent@, variant@, state@, prop) is None),
                )
            },
    );
    assert(r@ =~= Map::new(
        |s: Seq<char>| states@.dom().contains(s),
        |s: Seq<char>|
            states@[s].filter(|prop: Seq<char>| replaced_by(data@, parent@, variant@, s, prop) is None),
    ));
    r
}

fn reconcile_variants(data: &ComponentThemeData, parent: Option<&ComponentThemeData>) -> (r: ComponentThemeData)
    ensures
        r@ == variants_reconciled(data@, schema::option_view(parent)),
{
    let mut out = data.duplicate();
    if let Some(p) = parent {
        let ghost goal = variants_reconciled(data@, Some(p@));
        out.variant_props = data.variant_props.map_values(
            |variant: &String, states: &TextMap<TextMap<PropertyValue>>| -> (u: TextMap<
                TextMap<PropertyValue>,
            >)
                ensures
                    states@ == data@.variant_props[variant@] ==> u@ == Map::new(
                        |s: Seq<char>| data@.variant_props[variant@].dom().contains(s),
                        |s: Seq<char>| props_reconciled(data@, p@, variant@, s),
                    )
                { reconcile_states(data, p, variant.as_str(), states) },
        );
        assert(out.variant_props@ =~= goal.variant_props);
        out.variant_overrides = data.variant_overrides.map_values(
            |variant: &String, states: &TextMap<TextSet>| -> (u: TextMap<TextSet>)
                ensures
                    u@ == Map::new(
                        |s: Seq<char>| states@.dom().contains(s),
                        |s: Seq<char>|
                            states@[s].filter(
                                |prop: Seq<char>| replaced_by(data@, p@, variant@, s, prop) is None,
                            ),
                    )
                { reconcile_marks(data, p, variant.as_str(), states) },
        );
        proof {
            assert forall|v: Seq<char>| #[trigger] goal.variant_overrides.dom().contains(v) implies
                out.variant_overrides@[v] == goal.variant_overrides[v] by {
                assert(data@.variant_overrides.dom().contains(v));
                assert(out.variant_overrides@[v] =~= goal.variant_overrides[v]);
            }
            assert(out.variant_overrides@ =~= goal.variant_overrides);
        }
    }
    out
}

/// Takes the marks from variants' values that match what they fall back to.
pub fn reconcile_component_parent_variant_overrides(
    component_plugins: &TextMap<PluginDefinition>,
    component_themes: &mut TextMap<ComponentThemeData>,
)
    ensures
        final(component_themes)@ == all_variants_reconciled(
            old(component_themes)@,
            component_plugins@,
        ),
{
    let next = {
        let all = &*component_themes;
        all.map_values(
            |key: &String, data: &ComponentThemeData| -> (u: ComponentThemeData)
                ensures
                    u@ == variants_reconciled(
                        data@,
                        fallback::parent_data(component_plugins@, all@, data@),
                    )
                { reconcile_variants(data, component_parent_data(component_plugins, all, data)) },
        )
    };
    assert(next@ =~= all_variants_reconciled(component_themes@, component_plugins@));
    *component_themes = next;
}

/// The themes in line with the components that they extend.
pub open spec fn reconciled(themes: Themes, plugins: Plugins) -> Themes {
    all_variants_reconciled(
        all_size_marks_reconciled(all_cascaded(themes, plugins), plugins),
        plugins,
    )
}

/// Brings the components of a theme in line with the components that they extend.
pub fn reconcile_theme_component_parent_overrides(
    component_plugins: &TextMap<PluginDefinition>,
    record: &mut ThemeRecord,
)
    ensures
        final(record)@ == (RecordModel {
            component_themes: reconciled(old(record)@.component_themes, component_plugins@),
            ..old(record)@
        }),
{
    cascade_component_parent_size_values(component_plugins, &mut record.component_themes);
    reconcile_component_parent_size_overrides(component_plugins, &mut record.component_themes);
    reconcile_component_parent_variant_overrides(component_plugins, &mut record.component_themes);
}

// ---------------------------------------------------------------------------------------------
// New themes
// ---------------------------------------------------------------------------------------------
/// Components with their plugins: key and definition.
pub open spec fn loaded_views(loaded: Seq<(BuiltinComponentSpec, PluginDefinition)>) -> Seq<
    (Seq<char>, PluginModel),
> {
    Seq::new(loaded.len(), |i: int| (loaded[i].0@.0, loaded[i].1@))
}

/// Plugins by key; of two with one key the later one counts.
pub open spec fn plugins_by_key(loaded: Seq<(Seq<char>, PluginModel)>) -> Plugins
    decreases loaded.len(),
{
    if loaded.len() == 0 {
        Map::empty()
    } else {
        plugins_by_key(loaded.drop_last()).insert(loaded.last().0, loaded.last().1)
    }
}

/// Plugins by key.
pub fn component_plugin_map(loaded_plugins: &Vec<(BuiltinComponentSpec, PluginDefinition)>) -> (r: TextMap<
    PluginDefinition,
>)
    ensures
        r@ == plugins_by_key(loaded_views(loaded_plugins@)),
{
    let mut out: TextMap<PluginDefinition> = TextMap::new();
    let ghost all = loaded_views(loaded_plugins@);
    for i in 0..loaded_plugins.len()
        invariant
            all == loaded_views(loaded_plugins@),
            out@ == plugins_by_key(all.take(i as int)),
    {
        proof {
            assert(all.take(i + 1).drop_last() =~= all.take(i as int));
            assert(all.take(i + 1).last() == all[i as int]);
        }
        out.insert(owned(loaded_plugins[i].0.key), loaded_plugins[i].1.duplicate());
    }
    assert(all.take(loaded_plugins@.len() as int) =~= all);
    out
}

/// The data of components as their plugins declare them.
pub open spec fn declared_themes(loaded: Seq<(Seq<char>, PluginModel)>) -> Themes
    decreases loaded.len(),
{
    if loaded.len() == 0 {
        Map::empty()
    } else {
        declared_themes(loaded.drop_last()).insert(
            loaded.last().0,
            storage::seeded_data(loaded.last().1),
        )
    }
}

/// The data of components as their plugins declare them.
pub fn build_component_theme_store(
    loaded_plugins: &Vec<(BuiltinComponentSpec, PluginDefinition)>,
    tokens: &TokenTheme,
) -> (r: TextMap<ComponentThemeData>)
    ensures
        r@ == declared_themes(loaded_views(loaded_plugins@)),
{
    let store = token_store_from_theme(tokens);
    let mut out: TextMap<ComponentThemeData> = TextMap::new();
    let ghost all = loaded_views(loaded_plugins@);
    for i in 0..loaded_plugins.len()
        invariant
            all == loaded_views(loaded_plugins@),
            out@ == declared_themes(all.take(i as int)),
    {
        proof {
            assert(all.take(i + 1).drop_last() =~= all.take(i as int));
            assert(all.take(i + 1).last() == all[i as int]);
        }
        out.insert(
            owned(loaded_plugins[i].0.key),
            ComponentThemeData::from_plugin(&loaded_plugins[i].1, &store),
        );
    }
    assert(all.take(loaded_plugins@.len() as int) =~= all);
    out
}

/// A new theme.
pub open spec fn new_record(
    name: Seq<char>,
    is_builtin: bool,
    parent: Option<Seq<char>>,
    tokens: TokenModel,
    loaded: Seq<(Seq<char>, PluginModel)>,
) -> RecordModel {
    RecordModel {
        meta: records::MetaModel { name, is_builtin, parent_name: parent },
        tokens,
        token_overrides: records::initial_overrides(parent),
        component_themes: reconciled(declared_themes(loaded), plugins_by_key(loaded)),
    }
}

/// A new theme, with the data that its components' plugins declare.
pub fn build_theme_record(
    name: &str,
    is_builtin: bool,
    parent_name: Option<&str>,
    tokens: TokenTheme,
    loaded_plugins: &Vec<(BuiltinComponentSpec, PluginDefinition)>,
) -> (r: ThemeRecord)
    ensures
        r@ == new_record(
            name@,
            is_builtin,
            schema::option_view(parent_name),
            tokens@,
            loaded_views(loaded_plugins@),
        ),
{
    let parent: Option<String> = match parent_name {
        Some(p) => Some(owned(p)),
        None => None,
    };
    let plugins = component_plugin_map(loaded_plugins);
    let overrides = if parent.is_none() {
        all_token_override_keys()
    } else {
        TextSet::new()
    };
    let mut record = ThemeRecord {
        meta: ThemeMeta { name: owned(name), is_builtin, parent_name: parent },
        component_themes: build_component_theme_store(loaded_plugins, &tokens),
        token_overrides: overrides,
        tokens,
    };
    reconcile_theme_component_parent_overrides(&plugins, &mut record);
    record
}

// ---------------------------------------------------------------------------------------------
// Laws
// ---------------------------------------------------------------------------------------------
/// After the marks of Common values have been brought in line, a value that the component shares
/// with its parent is marked where the two do not match, and nowhere else.
pub proof fn size_mark_means_difference(d: ThemeData, parent: ThemeData, prop: Seq<char>, v: Value, w: Value)
    requires
        d.base(prop) == Some(v),
        parent.base(prop) == Some(w),
    ensures
        size_marks_reconciled(d, Some(parent)).parent_overrides.contains(prop) <==> !fallback::values_match(
            v,
            w,
        ),
{
}

/// Bringing the marks of Common values in line twice is the same as once.
pub proof fn size_marks_reconcile_once(d: ThemeData, parent: Option<ThemeData>)
    ensures
        size_marks_reconciled(size_marks_reconciled(d, parent), parent) == size_marks_reconciled(d, parent),
{
    if let Some(p) = parent {
        let once = size_marks_reconciled(d, parent);
        let twice = size_marks_reconciled(once, parent);
        assert forall|prop: Seq<char>| once.parent_overrides.contains(prop)
            == #[trigger] twice.parent_overrides.contains(prop) by {
            assert(once.base(prop) == d.base(prop));
        }
        assert(twice.parent_overrides =~= once.parent_overrides);
    }
}

/// A component without a parent is left as it is.
pub proof fn parentless_stays(themes: Themes, plugins: Plugins, key: Seq<char>)
    requires
        themes.dom().contains(key),
        themes[key].parent_key is None,
    ensures
        reconciled(themes, plugins).dom().contains(key),
        reconciled(themes, plugins)[key] == themes[key],
{
    lemma_rows_leave(themes, themes, plugins, textmap::sorted_keys(plugins), key);
}

proof fn lemma_rows_leave(themes: Themes, at_first: Themes, plugins: Plugins, keys: Seq<Seq<char>>, key: Seq<char>)
    requires
        themes.dom().contains(key),
        themes[key].parent_key is None,
    ensures
        rows_cascaded(themes, at_first, plugins, keys).dom().contains(key),
        rows_cascaded(themes, at_first, plugins, keys)[key] == themes[key],
    decreases keys.len(),
{
    if keys.len() > 0 {
        lemma_rows_leave(themes, at_first, plugins, keys.drop_last(), key);
        let before = rows_cascaded(themes, at_first, plugins, keys.drop_last());
        let row = at_first[keys.last()].size_props[DEFAULT_SIZE_KEY@];
        lemma_row_leaves(before, plugins[keys.last()].component, row, textmap::sorted_keys(row), key);
    }
}

proof fn lemma_row_leaves(
    themes: Themes,
    component: Seq<char>,
    props: Map<Seq<char>, Value>,
    keys: Seq<Seq<char>>,
    key: Seq<char>,
)
    requires
        themes.dom().contains(key),
        themes[key].parent_key is None,
    ensures
        row_cascaded(themes, component, props, keys).dom().contains(key),
        row_cascaded(themes, component, props, keys)[key] == themes[key],
    decreases keys.len(),
{
    if keys.len() > 0 {
        lemma_row_leaves(themes, component, props, keys.drop_last(), key);
        let before = row_cascaded(themes, component, props, keys.drop_last());
        let next = storage::followed_key(before, keys.last());
        assert(!storage::descends(before, keys.last(), key, component)) by {
            assert(chain::walk(next, key, 0) == Some(key));
            assert(chain::stops_after(next, key, 0));
            assert forall|n: nat| !#[trigger] storage::takes_after(
                before,
                keys.last(),
                key,
                n,
                component,
            ) by {
                if n > 0 {
                    chain::walk_past_end(next, key, 0, n);
                }
            }
        }
    }
}

/// Whether a property's value for a size does not follow the components that are extended: the
/// Common value is marked as not following the parent's, or the size does not follow the Common one.
pub open spec fn stands_alone(d: ThemeData, size: Seq<char>, prop: Seq<char>) -> bool {
    d.parent_overrides.contains(prop) || (size != DEFAULT_SIZE_KEY@ && !d.follows(size, prop))
}

/// What passing Common values on leaves of a component: everything but values of sizes; of these,
/// those that stand alone; and of the others, that they have the Common value or their own.
pub open spec fn passed_on(d: ThemeData, e: ThemeData, size: Seq<char>, prop: Seq<char>) -> bool {
    let was = textmap::at2(d.size_props, size, prop);
    let is = textmap::at2(e.size_props, size, prop);
    &&& e == ThemeData { size_props: e.size_props, ..d }
    &&& e.size_props.dom() == d.size_props.dom()
    &&& stands_alone(d, size, prop) ==> is == was
    &&& d.size_props.dom().contains(DEFAULT_SIZE_KEY@) ==> is == was || is == e.base(prop)
    &&& d.size_props.dom().contains(DEFAULT_SIZE_KEY@) && was is Some && was == d.base(prop) && d.follows(
        size,
        prop,
    ) ==> is == e.base(prop)
    &&& was is Some ==> is is Some
}

proof fn lemma_cascade_passes_on(
    d: ThemeData,
    themes: Themes,
    component: Seq<char>,
    p: Seq<char>,
    v: Value,
    key: Seq<char>,
    size: Seq<char>,
    prop: Seq<char>,
)
    requires
        themes.dom().contains(key),
        passed_on(d, themes[key], size, prop),
    ensures
        storage::cascaded_default(themes, component, p, v).dom().contains(key),
        passed_on(d, storage::cascaded_default(themes, component, p, v)[key], size, prop),
{
    let before = themes[key];
    let after = storage::cascaded_default(themes, component, p, v)[key];
    if before.parent_overrides.contains(p) {
        storage::overriding_child_is_not_reached(themes, component, p, v, key);
    } else if storage::descends(themes, p, key, component) {
        assert(after == before.size_default_set(p, v));
        assert(after.size_props.dom() =~= before.size_props.dom());
        if before.size_props.dom().contains(size) {
            if size == DEFAULT_SIZE_KEY@ || before.follows(size, p) {
                assert(after.size_props[size] == before.size_props[size].insert(p, v));
            } else {
                assert(after.size_props[size] == before.size_props[size]);
            }
        }
        if before.size_props.dom().contains(DEFAULT_SIZE_KEY@) {
            assert(after.size_props[DEFAULT_SIZE_KEY@] == before.size_props[DEFAULT_SIZE_KEY@].insert(p, v));
        }
    }
}

proof fn lemma_row_passes_on(
    d: ThemeData,
    themes: Themes,
    component: Seq<char>,
    props: Map<Seq<char>, Value>,
    keys: Seq<Seq<char>>,
    key: Seq<char>,
    size: Seq<char>,
    prop: Seq<char>,
)
    requires
        themes.dom().contains(key),
        passed_on(d, themes[key], size, prop),
    ensures
        row_cascaded(themes, component, props, keys).dom().contains(key),
        passed_on(d, row_cascaded(themes, component, props, keys)[key], size, prop),
    decreases keys.len(),
{
    if keys.len() > 0 {
        lemma_row_passes_on(d, themes, component, props, keys.drop_last(), key, size, prop);
        lemma_cascade_passes_on(
            d,
            row_cascaded(themes, component, props, keys.drop_last()),
            component,
            keys.last(),
            props[keys.last()],
            key,
            size,
            prop,
        );
    }
}

proof fn lemma_rows_pass_on(
    d: ThemeData,
    themes: Themes,
    at_first: Themes,
    plugins: Plugins,
    keys: Seq<Seq<char>>,
    key: Seq<char>,
    size: Seq<char>,
    prop: Seq<char>,
)
    requires
        themes.dom().contains(key),
        passed_on(d, themes[key], size, prop),
    ensures
        rows_cascaded(themes, at_first, plugins, keys).dom().contains(key),
        passed_on(d, rows_cascaded(themes, at_first, plugins, keys)[key], size, prop),
    decreases keys.len(),
{
    if keys.len() > 0 {
        lemma_rows_pass_on(d, themes, at_first, plugins, keys.drop_last(), key, size, prop);
        let before = rows_cascaded(themes, at_first, plugins, keys.drop_last());
        let row = at_first[keys.last()].size_props[DEFAULT_SIZE_KEY@];
        lemma_row_passes_on(
            d,
            before,
            plugins[keys.last()].component,
            row,
            textmap::sorted_keys(row),
            key,
            size,
            prop,
        );
    }
}

/// When the components of a theme are brought in line, a size's value that stands alone stays as it
/// is; any other stays as it is or becomes the Common one. The marks of sizes stay.
pub proof fn own_size_stays(themes: Themes, plugins: Plugins, key: Seq<char>, size: Seq<char>, prop: Seq<char>)
    requires
        themes.dom().contains(key),
        themes[key].size_props.dom().contains(DEFAULT_SIZE_KEY@),
    ensures
        reconciled(themes, plugins).dom().contains(key),
        ({
            let d = themes[key];
            let e = reconciled(themes, plugins)[key];
            let was = textmap::at2(d.size_props, size, prop);
            let is = textmap::at2(e.size_props, size, prop);
            &&& e.size_overrides == d.size_overrides
            &&& stands_alone(d, size, prop) ==> is == was
            &&& is == was || is == e.base(prop)
            &&& was is Some ==> is is Some
            &&& was is Some && was == d.base(prop) && d.follows(size, prop) ==> is == e.base(prop)
        }),
{
    let d = themes[key];
    lemma_rows_pass_on(d, themes, themes, plugins, textmap::sorted_keys(plugins), key, size, prop);
}

/// When the components of a theme are brought in line, a variant's value stays as it is, unless it is
/// marked and matches what it falls back to: then it becomes that, and its mark goes.
pub proof fn own_variant_stays(
    themes: Themes,
    plugins: Plugins,
    key: Seq<char>,
    variant: Seq<char>,
    state: Seq<char>,
    prop: Seq<char>,
)
    requires
        themes.dom().contains(key),
        storage::variant_value(themes[key].variant_props, variant, state, prop) is Some,
    ensures
        reconciled(themes, plugins).dom().contains(key),
        ({
            let d = themes[key];
            let e = reconciled(themes, plugins)[key];
            let was = storage::variant_value(d.variant_props, variant, state, prop);
            let is = storage::variant_value(e.variant_props, variant, state, prop);
            let marked = storage::variant_flagged(d.variant_overrides, variant, state, prop);
            &&& is is Some
            &&& is == was || (marked && fallback::values_match(was->Some_0, is->Some_0))
            &&& storage::variant_flagged(e.variant_overrides, variant, state, prop) ==> marked && is == was
        }),
{
    let d = themes[key];
    lemma_rows_pass_on(d, themes, themes, plugins, textmap::sorted_keys(plugins), key, DEFAULT_SIZE_KEY@, prop);
    let cascaded = all_cascaded(themes, plugins);
    let marked = all_size_marks_reconciled(cascaded, plugins);
    let parent = fallback::parent_data(plugins, marked, marked[key]);
    assert(marked[key].variant_props == d.variant_props);
    assert(marked[key].variant_overrides == d.variant_overrides);
    let e = reconciled(themes, plugins)[key];
    assert(e == variants_reconciled(marked[key], parent));
    if let Some(p) = parent {
        assert(e.variant_props[variant][state] == props_reconciled(marked[key], p, variant, state));
    }
}

/// A marked value that matches what it falls back to gives way to it and loses its mark; one that does
/// not match stays, and stays marked.
pub proof fn matching_override_gives_way(
    d: ThemeData,
    parent: ThemeData,
    variant: Seq<char>,
    state: Seq<char>,
    prop: Seq<char>,
    v: Value,
    f: Value,
)
    requires
        storage::variant_value(d.variant_props, variant, state, prop) == Some(v),
        storage::variant_flagged(d.variant_overrides, variant, state, prop),
        fallback::fallback(d, None, Some(parent), variant, state, prop) == Some(f),
    ensures
        ({
            let e = variants_reconciled(d, Some(parent));
            if fallback::values_match(v, f) {
                &&& storage::variant_value(e.variant_props, variant, state, prop) == Some(f)
                &&& !storage::variant_flagged(e.variant_overrides, variant, state, prop)
            } else {
                &&& storage::variant_value(e.variant_props, variant, state, prop) == Some(v)
                &&& storage::variant_flagged(e.variant_overrides, variant, state, prop)
            }
        }),
{
}

/// Reconciling variants leaves the sizes and the marks of Common values as they are, sets nothing that
/// was not set, and marks nothing that was not marked.
pub proof fn reconciling_variants_adds_nothing(
    d: ThemeData,
    parent: Option<ThemeData>,
    variant: Seq<char>,
    state: Seq<char>,
    prop: Seq<char>,
)
    ensures
        ({
            let e = variants_reconciled(d, parent);
            &&& e.size_props == d.size_props
            &&& e.parent_overrides == d.parent_overrides
            &&& storage::variant_value(e.variant_props, variant, state, prop) is Some <==> storage::variant_value(
                d.variant_props,
                variant,
                state,
                prop,
            ) is Some
            &&& storage::variant_flagged(e.variant_overrides, variant, state, prop) ==> storage::variant_flagged(
                d.variant_overrides,
                variant,
                state,
                prop,
            )
        }),
{
}

/// Of the plugins that were loaded under a key the last one counts, and no key is made up.
pub proof fn last_loaded_plugin_counts(loaded: Seq<(Seq<char>, PluginModel)>, i: int)
    requires
        0 <= i < loaded.len(),
        forall|j: int| i < j < loaded.len() ==> (#[trigger] loaded[j]).0 != loaded[i].0,
    ensures
        plugins_by_key(loaded).dom().contains(loaded[i].0),
        plugins_by_key(loaded)[loaded[i].0] == loaded[i].1,
        declared_themes(loaded).dom().contains(loaded[i].0),
        declared_themes(loaded)[loaded[i].0] == storage::seeded_data(loaded[i].1),
    decreases loaded.len(),
{
    if i < loaded.len() - 1 {
        let front = loaded.drop_last();
        assert(front[i] == loaded[i]);
        assert(loaded[loaded.len() - 1] == loaded.last());
        assert forall|j: int| i < j < front.len() implies (#[trigger] front[j]).0 != front[i].0 by {
            assert(front[j] == loaded[j]);
        }
        last_loaded_plugin_counts(front, i);
    }
}

/// A component of which no plugin was loaded is neither among the plugins nor among the themes.
pub proof fn unloaded_plugin_is_missing(loaded: Seq<(Seq<char>, PluginModel)>, key: Seq<char>)
    requires
        forall|j: int| 0 <= j < loaded.len() ==> (#[trigger] loaded[j]).0 != key,
    ensures
        !plugins_by_key(loaded).dom().contains(key),
        !declared_themes(loaded).dom().contains(key),
    decreases loaded.len(),
{
    if loaded.len() > 0 {
        let front = loaded.drop_last();
        assert forall|j: int| 0 <= j < front.len() implies (#[trigger] front[j]).0 != key by {
            assert(front[j] == loaded[j]);
        }
        assert(loaded[loaded.len() - 1] == loaded.last());
        unloaded_plugin_is_missing(front, key);
    }
}

} // verus!
