//! Plugin definitions: the built-in components, how older definitions are brought up to date, and
//! how one component inherits another's definition.

use vstd::prelude::*;
use crate::schema::{self, DefaultModel, DefaultValue, PluginDefinition, PluginModel, PropDefaults, PropDefinition, PropModel, Raw, Real, TokenOrValue};
use crate::slint_gen::has_text;
use crate::storage::{self, find_prop};
use crate::text::{self, owned, text_eq};
use crate::textmap::{self, duplicate_all, filter_all, map_all, Duplicate, TextMap};

verus! {

// ---------------------------------------------------------------------------------------------
// Built-in components and paths
// ---------------------------------------------------------------------------------------------
/// A component that comes with the library.
#[derive(Clone, Copy, Debug)]
pub struct BuiltinComponentSpec {
    pub key: &'static str,
    pub component: &'static str,
    pub source_file: &'static str,
}

impl View for BuiltinComponentSpec {
    type V = (Seq<char>, Seq<char>, Seq<char>);

    open spec fn view(&self) -> (Seq<char>, Seq<char>, Seq<char>) {
        (self.key@, self.component@, self.source_file@)
    }
}

/// The components that come with the library: key, component name and source file.
pub open spec fn builtin_specs() -> Seq<(Seq<char>, Seq<char>, Seq<char>)> {
    seq![
        ("button"@, "Button"@, "button.slint"@),
        ("icon_button"@, "IconButton"@, "icon_button.slint"@),
        ("icon"@, "Icon"@, "icon.slint"@),
        ("chip"@, "Chip"@, "chip.slint"@),
        ("input"@, "Input"@, "input.slint"@),
        ("search"@, "Search"@, "search.slint"@),
        ("dropdown"@, "Dropdown"@, "dropdown.slint"@),
        ("checkbox"@, "Checkbox"@, "checkbox.slint"@),
        ("radio"@, "Radio"@, "radio.slint"@),
        ("radio_group"@, "RadioGroup"@, "radio_group.slint"@),
        ("switch"@, "Switch"@, "switch.slint"@),
        ("tabs"@, "Tabs"@, "tabs.slint"@),
        ("slide_to_confirm"@, "SlideToConfirm"@, "slide_to_confirm.slint"@),
        ("link"@, "Link"@, "link.slint"@),
        ("slider"@, "Slider"@, "slider.slint"@),
        ("textarea"@, "TextArea"@, "textarea.slint"@),
        ("card"@, "Card"@, "card.slint"@),
        ("menu"@, "Menu"@, "menu.slint"@),
        ("menu_item"@, "MenuItem"@, "menu_item.slint"@),
        ("accordion"@, "Accordion"@, "accordion.slint"@),
        ("image"@, "Image"@, "image_view.slint"@),
        ("divider"@, "Divider"@, "divider.slint"@),
        ("dialog"@, "Dialog"@, "dialog.slint"@),
        ("sheet"@, "Sheet"@, "sheet.slint"@),
        ("toast"@, "Toast"@, "toast.slint"@),
        ("progress_bar"@, "ProgressBar"@, "progress_bar.slint"@),
        ("spinner"@, "Spinner"@, "spinner.slint"@),
    ]
}

fn builtin(key: &'static str, component: &'static str, source_file: &'static str) -> (r: BuiltinComponentSpec)
    ensures
        r@ == (key@, component@, source_file@),
{
    BuiltinComponentSpec { key, component, source_file }
}

/// The components that come with the library.
pub fn builtin_component_specs() -> (r: Vec<BuiltinComponentSpec>)
    ensures
        textmap::views(r@) == builtin_specs(),
{
    let r = vec![
        builtin("button", "Button", "button.slint"),
        builtin("icon_button", "IconButton", "icon_button.slint"),
        builtin("icon", "Icon", "icon.slint"),
        builtin("chip", "Chip", "chip.slint"),
        builtin("input", "Input", "input.slint"),
        builtin("search", "Search", "search.slint"),
        builtin("dropdown", "Dropdown", "dropdown.slint"),
        builtin("checkbox", "Checkbox", "checkbox.slint"),
        builtin("radio", "Radio", "radio.slint"),
        builtin("radio_group", "RadioGroup", "radio_group.slint"),
        builtin("switch", "Switch", "switch.slint"),
        builtin("tabs", "Tabs", "tabs.slint"),
        builtin("slide_to_confirm", "SlideToConfirm", "slide_to_confirm.slint"),
        builtin("link", "Link", "link.slint"),
        builtin("slider", "Slider", "slider.slint"),
        builtin("textarea", "TextArea", "textarea.slint"),
        builtin("card", "Card", "card.slint"),
        builtin("menu", "Menu", "menu.slint"),
        builtin("menu_item", "MenuItem", "menu_item.slint"),
        builtin("accordion", "Accordion", "accordion.slint"),
        builtin("image", "Image", "image_view.slint"),
        builtin("divider", "Divider", "divider.slint"),
        builtin("dialog", "Dialog", "dialog.slint"),
        builtin("sheet", "Sheet", "sheet.slint"),
        builtin("toast", "Toast", "toast.slint"),
        builtin("progress_bar", "ProgressBar", "progress_bar.slint"),
        builtin("spinner", "Spinner", "spinner.slint"),
    ];
    assert(textmap::views(r@) =~= builtin_specs());
    r
}

/// A path with a part put behind it.
pub open spec fn path_with(base: Seq<char>, part: Seq<char>) -> Seq<char> {
    if base.len() == 0 || base.last() == '/' {
        base + part
    } else {
        base + "/"@ + part
    }
}

fn join_path(base: &str, part: &str) -> (r: String)
    ensures
        r@ == path_with(base@, part@),
{
    let chars = text::to_chars(base);
    let mut out = owned(base);
    if chars.len() > 0 && chars[chars.len() - 1] != '/' {
        out.push_str("/");
    }
    out.push_str(part);
    out
}

/// Where the theme editor keeps its data: below the home directory, or below the current one where
/// there is no home directory.
pub open spec fn editor_path(home: Option<Seq<char>>) -> Seq<char> {
    path_with(
        path_with(
            match home {
                Some(h) => h,
                None => "."@,
            },
            ".foundation"@,
        ),
        "theme-editor"@,
    )
}

/// Get the base path for theme editor data
pub fn get_theme_editor_path(home: Option<&str>) -> (r: String)
    ensures
        r@ == editor_path(schema::option_view(home)),
{
    let base = match home {
        Some(h) => h,
        None => ".",
    };
    join_path(join_path(base, ".foundation").as_str(), "theme-editor")
}

/// Get the plugins directory path
pub fn get_plugins_path(home: Option<&str>) -> (r: String)
    ensures
        r@ == path_with(editor_path(schema::option_view(home)), "plugins"@),
{
    join_path(get_theme_editor_path(home).as_str(), "plugins")
}

/// Get the tokens file path
pub fn get_tokens_path(home: Option<&str>) -> (r: String)
    ensures
        r@ == path_with(editor_path(schema::option_view(home)), "tokens.json"@),
{
    join_path(get_theme_editor_path(home).as_str(), "tokens.json")
}

// ---------------------------------------------------------------------------------------------
// Renames
// ---------------------------------------------------------------------------------------------
/// The defaults of a property by variant or size.
pub type Defaults = Map<Seq<char>, DefaultModel>;

/// A list with one name in place of another.
pub open spec fn renamed(list: Seq<Seq<char>>, from: Seq<char>, to: Seq<char>) -> Seq<Seq<char>> {
    Seq::new(
        list.len(),
        |i: int|
            if list[i] == from {
                to
            } else {
                list[i]
            },
    )
}

/// A map with the entry of one key moved to another, unless that one is taken.
pub open spec fn key_moved(m: Defaults, from: Seq<char>, to: Seq<char>) -> Defaults {
    if !m.dom().contains(from) {
        m
    } else if m.remove(from).dom().contains(to) {
        m.remove(from)
    } else {
        m.remove(from).insert(to, m[from])
    }
}

/// A default without what it says for a state.
pub open spec fn without_state(d: DefaultModel, state: Seq<char>) -> DefaultModel {
    match d {
        DefaultModel::Nested(m) => DefaultModel::Nested(m.remove(state)),
        DefaultModel::Direct(_) => d,
    }
}

/// A property without the names of older files.
pub open spec fn current_prop(p: PropModel) -> PropModel {
    let moved = key_moved(p.defaults, "outline"@, "tertiary"@);
    PropModel {
        defaults: Map::new(
            |k: Seq<char>| moved.dom().contains(k),
            |k: Seq<char>| without_state(moved[k], "loading"@),
        ),
        ..p
    }
}

/// A plugin without the names of older files: the variant `outline` is `tertiary`, and there is no
/// state `loading`.
pub open spec fn current_names(p: PluginModel) -> PluginModel {
    PluginModel {
        states: p.states.filter(|s: Seq<char>| s != "loading"@),
        variants: renamed(p.variants, "outline"@, "tertiary"@),
        variant_props: Seq::new(p.variant_props.len(), |i: int| current_prop(p.variant_props[i])),
        ..p
    }
}

fn rename_all(list: &Vec<String>, from: &str, to: &str) -> (r: Vec<String>)
    ensures
        textmap::views(r@) == renamed(textmap::views(list@), from@, to@),
{
    let r = map_all(
        list,
        |s: &String| -> (t: String)
            ensures
                t@ == (if s@ == from@ {
                    to@
                } else {
                    s@
                })
        {
            if text_eq(s.as_str(), from) {
                owned(to)
            } else {
                s.clone()
            }
        },
    );
    assert(textmap::views(r@) =~= renamed(textmap::views(list@), from@, to@));
    r
}

fn move_key(m: &TextMap<DefaultValue>, from: &str, to: &str) -> (r: TextMap<DefaultValue>)
    ensures
        r@ == key_moved(m@, from@, to@),
{
    let mut r = m.duplicate();
    if let Some(d) = m.get(from) {
        r.remove(from);
        if !r.contains_key(to) {
            r.insert(owned(to), d.duplicate());
        }
    }
    r
}

fn with_defaults(prop: &PropDefinition, values: TextMap<DefaultValue>) -> (r: PropDefinition)
    ensures
        r@ == (PropModel { defaults: values@, ..prop@ }),
{
    let mut r = prop.duplicate();
    r.defaults = PropDefaults { values };
    r
}

fn drop_state(d: &DefaultValue, state: &str) -> (r: DefaultValue)
    ensures
        r@ == without_state(d@, state@),
{
    match d {
        DefaultValue::Nested(m) => {
            let mut n = m.duplicate();
            n.remove(state);
            DefaultValue::Nested(n)
        },
        DefaultValue::Direct(v) => DefaultValue::Direct(v.duplicate()),
    }
}

fn current_prop_of(prop: &PropDefinition) -> (r: PropDefinition)
    ensures
        r@ == current_prop(prop@),
{
    let moved = move_key(&prop.defaults.values, "outline", "tertiary");
    let values = moved.map_values(
        |_variant: &String, d: &DefaultValue| -> (u: DefaultValue)
            ensures
                u@ == without_state(d@, "loading"@)
        { drop_state(d, "loading") },
    );
    assert(values@ =~= current_prop(prop@).defaults);
    with_defaults(prop, values)
}

fn map_props<F: Fn(&PropDefinition) -> PropDefinition>(
    props: &Vec<PropDefinition>,
    f: F,
    Ghost(g): Ghost<spec_fn(PropModel) -> PropModel>,
) -> (r: Vec<PropDefinition>)
    requires
        forall|d: &PropDefinition| f.requires((d,)),
        forall|d: &PropDefinition, v: PropDefinition| #[trigger] f.ensures((d,), v) ==> v@ == g(d@),
    ensures
        textmap::views(r@) == Seq::new(props@.len(), |i: int| g(textmap::views(props@)[i])),
        r@.len() == props@.len(),
{
    let r = map_all(props, f);
    assert(textmap::views(r@) =~= Seq::new(props@.len(), |i: int| g(textmap::views(props@)[i]))) by {
        assert forall|i: int| 0 <= i < props@.len() implies #[trigger] textmap::views(r@)[i] == g(
            textmap::views(props@)[i],
        ) by {
            assert(f.ensures((&props@[i],), r@[i]));
        }
    }
    r
}

/// Normalize legacy names from older plugin files.
pub fn normalize_legacy_variant_names(plugin: PluginDefinition) -> (r: PluginDefinition)
    ensures
        r@ == current_names(plugin@),
{
    let states = filter_all(
        &plugin.states,
        |s: &String| -> (b: bool)
            ensures
                b == (s@ != "loading"@)
        { !text_eq(s.as_str(), "loading") },
        Ghost(|s: Seq<char>| s != "loading"@),
    );
    let variants = rename_all(&plugin.variants, "outline", "tertiary");
    let variant_props = map_props(
        &plugin.variant_props,
        |p: &PropDefinition| -> (u: PropDefinition)
            ensures
                u@ == current_prop(p@)
        { current_prop_of(p) },
        Ghost(|p: PropModel| current_prop(p)),
    );
    let r = PluginDefinition { states, variants, variant_props, ..plugin };
    assert(r@ =~= current_names(plugin@));
    r
}

/// The `tabs` plugin under its current component name.
pub open spec fn current_component(name: Seq<char>, p: PluginModel, default: Option<PluginModel>) -> PluginModel {
    if name == "tabs"@ && p.component == "SegmentedControl"@ {
        match default {
            Some(d) => PluginModel {
                component: d.component,
                variants: d.variants,
                states: d.states,
                variant_props: d.variant_props,
                ..p
            },
            None => PluginModel { component: "Tabs"@, ..p },
        }
    } else {
        p
    }
}

fn normalize_legacy_component_renames(
    name: &str,
    plugin: PluginDefinition,
    default_plugin: Option<&PluginDefinition>,
) -> (r: PluginDefinition)
    ensures
        r@ == current_component(name@, plugin@, schema::option_view(default_plugin)),
{
    if text_eq(name, "tabs") && text_eq(plugin.component.as_str(), "SegmentedControl") {
        match default_plugin {
            Some(d) => PluginDefinition {
                component: d.component.clone(),
                variants: duplicate_all(&d.variants),
                states: duplicate_all(&d.states),
                variant_props: duplicate_all(&d.variant_props),
                ..plugin
            },
            None => PluginDefinition { component: owned("Tabs"), ..plugin },
        }
    } else {
        plugin
    }
}

// ---------------------------------------------------------------------------------------------
// Components whose variants changed
// ---------------------------------------------------------------------------------------------
/// Defaults with those that are missing for some variants taken from others.
pub open spec fn filled(m: Defaults, from: Defaults, variants: Seq<Seq<char>>) -> Defaults {
    Map::new(
        |k: Seq<char>| m.dom().contains(k) || (variants.contains(k) && from.dom().contains(k)),
        |k: Seq<char>|
            if m.dom().contains(k) {
                m[k]
            } else {
                from[k]
            },
    )
}

/// Defaults for some variants only.
pub open spec fn for_variants(m: Defaults, variants: Seq<Seq<char>>) -> Defaults {
    textmap::only_keys(m, |k: Seq<char>| variants.contains(k))
}

fn fill_missing(
    m: &TextMap<DefaultValue>,
    from: &TextMap<DefaultValue>,
    variants: &Vec<String>,
) -> (r: TextMap<DefaultValue>)
    ensures
        r@ == filled(m@, from@, textmap::views(variants@)),
{
    let mut r = m.duplicate();
    let ghost all = textmap::views(variants@);
    assert(r@ =~= filled(m@, from@, all.take(0)));
    for i in 0..variants.len()
        invariant
            all == textmap::views(variants@),
            r@ == filled(m@, from@, all.take(i as int)),
    {
        proof {
            textmap::take_step(all, i as int);
        }
        if let Some(d) = from.get(variants[i].as_str()) {
            if !r.contains_key(variants[i].as_str()) {
                r.insert(variants[i].clone(), d.duplicate());
            }
        }
        assert(r@ =~= filled(m@, from@, all.take(i + 1)));
    }
    assert(all.take(variants@.len() as int) =~= all);
    r
}

/// Properties with what the default plugin's properties of the same names add to their defaults;
/// of several properties with one name the first is completed.
pub open spec fn completed_props(
    props: Seq<PropModel>,
    defaults: Seq<PropModel>,
    variants: Seq<Seq<char>>,
    only_these: bool,
    append: bool,
) -> Seq<PropModel>
    decreases defaults.len(),
{
    if defaults.len() == 0 {
        props
    } else {
        let front = completed_props(props, defaults.drop_last(), variants, only_these, append);
        let d = defaults.last();
        let i = storage::prop_index(front, d.name);
        if i < front.len() {
            let own = if only_these {
                for_variants(front[i].defaults, variants)
            } else {
                front[i].defaults
            };
            front.update(i, PropModel { defaults: filled(own, d.defaults, variants), ..front[i] })
        } else if append {
            front.push(d)
        } else {
            front
        }
    }
}

fn complete_props(
    props: Vec<PropDefinition>,
    defaults: &Vec<PropDefinition>,
    variants: &Vec<String>,
    only_these: bool,
    append: bool,
) -> (r: Vec<PropDefinition>)
    ensures
        textmap::views(r@) == completed_props(
            textmap::views(props@),
            textmap::views(defaults@),
            textmap::views(variants@),
            only_these,
            append,
        ),
{
    let ghost start = textmap::views(props@);
    let ghost all = textmap::views(defaults@);
    let mut out = props;
    for k in 0..defaults.len()
        invariant
            all == textmap::views(defaults@),
            textmap::views(out@) == completed_props(
                start,
                all.take(k as int),
                textmap::views(variants@),
                only_these,
                append,
            ),
    {
        let ghost before = textmap::views(out@);
        proof {
            assert(all.take(k + 1).drop_last() =~= all.take(k as int));
            assert(all.take(k + 1).last() == all[k as int]);
        }
        let d = &defaults[k];
        match find_prop(&out, d.name.as_str()) {
            Some(i) => {
                let own = if only_these {
                    out[i].defaults.values.filter_keys(
                        |key: &String| -> (b: bool)
                            ensures
                                b == textmap::views(variants@).contains(key@)
                        { has_text(variants, key.as_str()) },
                        Ghost(|key: Seq<char>| textmap::views(variants@).contains(key)),
                    )
                } else {
                    out[i].defaults.values.duplicate()
                };
                let values = fill_missing(&own, &d.defaults.values, variants);
                let completed = with_defaults(&out[i], values);
                proof {
                    if only_these {
                        assert(own@ =~= for_variants(
                            before[i as int].defaults,
                            textmap::views(variants@),
                        ));
                    }
                }
                out[i] = completed;
                assert(textmap::views(out@) =~= before.update(i as int, completed@));
            },
            None => {
                if append {
                    out.push(d.duplicate());
                    assert(textmap::views(out@) =~= before.push(d@));
                }
            },
        }
    }
    assert(all.take(defaults@.len() as int) =~= all);
    out
}

/// Whether each name of a list that is in another stays.
pub open spec fn common_names(list: Seq<Seq<char>>, other: Seq<Seq<char>>) -> Seq<Seq<char>> {
    list.filter(|v: Seq<char>| other.contains(v))
}

fn keep_common(list: &Vec<String>, other: &Vec<String>) -> (r: Vec<String>)
    ensures
        textmap::views(r@) == common_names(textmap::views(list@), textmap::views(other@)),
{
    filter_all(
        list,
        |v: &String| -> (b: bool)
            ensures
                b == textmap::views(other@).contains(v@)
        { has_text(other, v.as_str()) },
        Ghost(|v: Seq<char>| textmap::views(other@).contains(v)),
    )
}

/// A property without the default of a variant.
pub open spec fn without_variant(p: PropModel, variant: Seq<char>) -> PropModel {
    PropModel { defaults: p.defaults.remove(variant), ..p }
}

/// The `textarea` plugin with the current variants.
pub open spec fn current_textarea(name: Seq<char>, p: PluginModel, default: Option<PluginModel>) -> PluginModel {
    match default {
        Some(d) => if name == "textarea"@ {
            PluginModel {
                variants: common_names(
                    d.variants,
                    renamed(p.variants, "underlined"@, "faded"@),
                ),
                variant_props: completed_props(
                    Seq::new(
                        p.variant_props.len(),
                        |i: int| without_variant(p.variant_props[i], "underlined"@),
                    ),
                    d.variant_props,
                    d.variants,
                    true,
                    false,
                ),
                ..p
            }
        } else {
            p
        },
        None => p,
    }
}

fn normalize_legacy_textarea_plugin(
    name: &str,
    plugin: PluginDefinition,
    default_plugin: Option<&PluginDefinition>,
) -> (r: PluginDefinition)
    ensures
        r@ == current_textarea(name@, plugin@, schema::option_view(default_plugin)),
{
    if !text_eq(name, "textarea") {
        return plugin;
    }
    let d = match default_plugin {
        Some(d) => d,
        None => {
            return plugin;
        },
    };
    let present = rename_all(&plugin.variants, "underlined", "faded");
    let variants = keep_common(&d.variants, &present);
    let props = map_props(
        &plugin.variant_props,
        |p: &PropDefinition| -> (u: PropDefinition)
            ensures
                u@ == without_variant(p@, "underlined"@)
        {
            let mut values = p.defaults.values.duplicate();
            values.remove("underlined");
            with_defaults(p, values)
        },
        Ghost(|p: PropModel| without_variant(p, "underlined"@)),
    );
    assert(textmap::views(props@) =~= Seq::new(
        plugin@.variant_props.len(),
        |i: int| without_variant(plugin@.variant_props[i], "underlined"@),
    ));
    let variant_props = complete_props(props, &d.variant_props, &d.variants, true, false);
    PluginDefinition { variants, variant_props, ..plugin }
}

/// The `progress_bar` plugin with the current variants and properties.
pub open spec fn current_progress_bar(
    name: Seq<char>,
    p: PluginModel,
    default: Option<PluginModel>,
) -> PluginModel {
    if name == "progress_bar"@ {
        let props = Seq::new(
            p.variant_props.len(),
            |i: int|
                PropModel {
                    defaults: key_moved(p.variant_props[i].defaults, "neutral"@, "default"@),
                    ..p.variant_props[i]
                },
        );
        match default {
            Some(d) => PluginModel {
                variants: d.variants,
                variant_props: completed_props(props, d.variant_props, d.variants, false, true),
                ..p
            },
            None => PluginModel {
                variants: renamed(p.variants, "neutral"@, "default"@),
                variant_props: props,
                ..p
            },
        }
    } else {
        p
    }
}

fn normalize_legacy_progress_bar_plugin(
    name: &str,
    plugin: PluginDefinition,
    default_plugin: Option<&PluginDefinition>,
) -> (r: PluginDefinition)
    ensures
        r@ == current_progress_bar(name@, plugin@, schema::option_view(default_plugin)),
{
    if !text_eq(name, "progress_bar") {
        return plugin;
    }
    let props = map_props(
        &plugin.variant_props,
        |p: &PropDefinition| -> (u: PropDefinition)
            ensures
                u@ == (PropModel {
                    defaults: key_moved(p@.defaults, "neutral"@, "default"@),
                    ..p@
                })
        { with_defaults(p, move_key(&p.defaults.values, "neutral", "default")) },
        Ghost(
            |p: PropModel|
                PropModel { defaults: key_moved(p.defaults, "neutral"@, "default"@), ..p },
        ),
    );
    assert(textmap::views(props@) =~= Seq::new(
        plugin@.variant_props.len(),
        |i: int|
            PropModel {
                defaults: key_moved(plugin@.variant_props[i].defaults, "neutral"@, "default"@),
                ..plugin@.variant_props[i]
            },
    ));
    match default_plugin {
        Some(d) => {
            let variant_props = complete_props(props, &d.variant_props, &d.variants, false, true);
            PluginDefinition { variants: duplicate_all(&d.variants), variant_props, ..plugin }
        },
        None => PluginDefinition {
            variants: rename_all(&plugin.variants, "neutral", "default"),
            variant_props: props,
            ..plugin
        },
    }
}

// ---------------------------------------------------------------------------------------------
// The current schema
// ---------------------------------------------------------------------------------------------
/// The default of the first key in ascending order.
pub open spec fn any_default(m: Defaults) -> Option<DefaultModel> {
    if m.dom() == Set::<Seq<char>>::empty() {
        None
    } else {
        Some(m[textmap::sorted_keys(m)[0]])
    }
}

fn first_value(m: &TextMap<DefaultValue>) -> (r: Option<&DefaultValue>)
    ensures
        schema::option_view(r) == any_default(m@),
{
    if m.is_empty() {
        None
    } else {
        let n: usize = m.len();
        proof {
            if n == 0 {
                assert(m@.dom() =~= Set::<Seq<char>>::empty());
            }
        }
        Some(m.value_at(0))
    }
}

/// The default of the name at the same place of a list of the same length.
pub open spec fn default_by_place(
    m: Defaults,
    names: Seq<Seq<char>>,
    targets: Seq<Seq<char>>,
    i: int,
) -> Option<DefaultModel> {
    if names.len() == targets.len() {
        schema::entry(m, names[i])
    } else {
        None
    }
}

/// What an older definition's default for the variant at a place becomes: its own default, else
/// that of the variant at the same place, else any of them, else that of the current schema.
pub open spec fn migrated_variant(
    local: Defaults,
    old_variants: Seq<Seq<char>>,
    fallback: Defaults,
    targets: Seq<Seq<char>>,
    i: int,
) -> Option<DefaultModel> {
    schema::or_else(
        schema::entry(local, targets[i]),
        schema::or_else(
            default_by_place(local, old_variants, targets, i),
            schema::or_else(any_default(local), schema::entry(fallback, targets[i])),
        ),
    )
}

/// The defaults of the first `n` variants of the current schema.
pub open spec fn migrated_variants(
    local: Defaults,
    old_variants: Seq<Seq<char>>,
    fallback: Defaults,
    targets: Seq<Seq<char>>,
    n: int,
) -> Defaults
    decreases n,
{
    if n <= 0 {
        Map::empty()
    } else {
        let front = migrated_variants(local, old_variants, fallback, targets, n - 1);
        match migrated_variant(local, old_variants, fallback, targets, n - 1) {
            Some(d) => front.insert(targets[n - 1], d),
            None => front,
        }
    }
}

/// The defaults, or where there are none those of the current schema.
pub open spec fn or_schema(m: Defaults, fallback: Defaults) -> Defaults {
    if m.dom() == Set::<Seq<char>>::empty() {
        fallback
    } else {
        m
    }
}

fn or_first<'a>(a: Option<&'a DefaultValue>, b: Option<&'a DefaultValue>) -> (r: Option<
    &'a DefaultValue,
>)
    ensures
        schema::option_view(r) == schema::or_else(schema::option_view(a), schema::option_view(b)),
{
    match a {
        Some(x) => Some(x),
        None => b,
    }
}

fn by_place<'a>(
    m: &'a TextMap<DefaultValue>,
    names: &Vec<String>,
    targets: &Vec<String>,
    i: usize,
) -> (r: Option<&'a DefaultValue>)
    requires
        i < targets@.len(),
    ensures
        schema::option_view(r) == default_by_place(
            m@,
            textmap::views(names@),
            textmap::views(targets@),
            i as int,
        ),
{
    if names.len() == targets.len() {
        m.get(names[i].as_str())
    } else {
        None
    }
}

fn migrate_variant_defaults(
    local: &TextMap<DefaultValue>,
    old_variants: &Vec<String>,
    fallback: &TextMap<DefaultValue>,
    targets: &Vec<String>,
) -> (r: TextMap<DefaultValue>)
    ensures
        r@ == or_schema(
            migrated_variants(
                local@,
                textmap::views(old_variants@),
                fallback@,
                textmap::views(targets@),
                targets@.len() as int,
            ),
            fallback@,
        ),
{
    let mut out: TextMap<DefaultValue> = TextMap::new();
    for i in 0..targets.len()
        invariant
            out@ == migrated_variants(
                local@,
                textmap::views(old_variants@),
                fallback@,
                textmap::views(targets@),
                i as int,
            ),
    {
        let found = or_first(
            local.get(targets[i].as_str()),
            or_first(
                by_place(local, old_variants, targets, i),
                or_first(first_value(local), fallback.get(targets[i].as_str())),
            ),
        );
        if let Some(d) = found {
            out.insert(targets[i].clone(), d.duplicate());
        }
    }
    if out.is_empty() {
        fallback.duplicate()
    } else {
        out
    }
}

/// The alternative name of a size.
pub open spec fn size_alias(size: Seq<char>) -> Option<Seq<char>> {
    if size == "sm"@ {
        Some("small"@)
    } else if size == "md"@ {
        Some("medium"@)
    } else if size == "lg"@ {
        Some("large"@)
    } else if size == "small"@ {
        Some("sm"@)
    } else if size == "medium"@ {
        Some("md"@)
    } else if size == "large"@ {
        Some("lg"@)
    } else {
        None
    }
}

/// The alternative name of a size.
pub fn size_aliases(size: &str) -> (r: Option<&'static str>)
    ensures
        schema::option_view(r) == size_alias(size@),
{
    if text_eq(size, "sm") {
        Some("small")
    } else if text_eq(size, "md") {
        Some("medium")
    } else if text_eq(size, "lg") {
        Some("large")
    } else if text_eq(size, "small") {
        Some("sm")
    } else if text_eq(size, "medium") {
        Some("md")
    } else if text_eq(size, "large") {
        Some("lg")
    } else {
        None
    }
}

/// What an older definition's default for the size at a place becomes: its own default; for the size
/// `default` that of the middle size; that of its alternative name; that of the size at the same
/// place; that of the one old size; any of them; that of the current schema.
pub open spec fn migrated_size(
    local: Defaults,
    old_sizes: Seq<Seq<char>>,
    fallback: Defaults,
    targets: Seq<Seq<char>>,
    i: int,
) -> Option<DefaultModel> {
    let size = targets[i];
    let middle = if size == "default"@ {
        schema::or_else(schema::entry(local, "md"@), schema::entry(local, "medium"@))
    } else {
        None
    };
    let by_alias = match size_alias(size) {
        Some(a) => schema::entry(local, a),
        None => None,
    };
    let only_old = if old_sizes.len() == 1 {
        schema::entry(local, old_sizes[0])
    } else {
        None
    };
    schema::or_else(
        schema::entry(local, size),
        schema::or_else(
            middle,
            schema::or_else(
                by_alias,
                schema::or_else(
                    default_by_place(local, old_sizes, targets, i),
                    schema::or_else(
                        only_old,
                        schema::or_else(any_default(local), schema::entry(fallback, size)),
                    ),
                ),
            ),
        ),
    )
}

/// The defaults of the first `n` sizes of the current schema.
pub open spec fn migrated_sizes(
    local: Defaults,
    old_sizes: Seq<Seq<char>>,
    fallback: Defaults,
    targets: Seq<Seq<char>>,
    n: int,
) -> Defaults
    decreases n,
{
    if n <= 0 {
        Map::empty()
    } else {
        let front = migrated_sizes(local, old_sizes, fallback, targets, n - 1);
        match migrated_size(local, old_sizes, fallback, targets, n - 1) {
            Some(d) => front.insert(targets[n - 1], d),
            None => front,
        }
    }
}

/// Whether the one size of a definition is called `default`.
pub open spec fn default_size_axis(sizes: Seq<Seq<char>>) -> bool {
    sizes.len() == 1 && sizes[0] == "default"@
}

/// What an older definition's size defaults become. A definition with a `default` base keeps that
/// base and the sizes it declares: a size that it does not declare inherits the base. Where `default`
/// is the one size of the definition, its default is no base: it goes to every size.
pub open spec fn migrated_size_defaults(
    local: Defaults,
    old_sizes: Seq<Seq<char>>,
    fallback: Defaults,
    targets: Seq<Seq<char>>,
) -> Defaults {
    if local.dom().contains("default"@) && !default_size_axis(old_sizes) {
        textmap::only_keys(local, |k: Seq<char>| k == "default"@ || targets.contains(k))
    } else {
        or_schema(
            migrated_sizes(local, old_sizes, fallback, targets, targets.len() as int),
            fallback,
        )
    }
}

fn migrate_size_value<'a>(
    local: &'a TextMap<DefaultValue>,
    old_sizes: &Vec<String>,
    fallback: &'a TextMap<DefaultValue>,
    targets: &Vec<String>,
    i: usize,
) -> (r: Option<&'a DefaultValue>)
    requires
        i < targets@.len(),
    ensures
        schema::option_view(r) == migrated_size(
            local@,
            textmap::views(old_sizes@),
            fallback@,
            textmap::views(targets@),
            i as int,
        ),
{
    let size = targets[i].as_str();
    let middle = if text_eq(size, "default") {
        or_first(local.get("md"), local.get("medium"))
    } else {
        None
    };
    let by_alias = match size_aliases(size) {
        Some(a) => local.get(a),
        None => None,
    };
    let only_old = if old_sizes.len() == 1 {
        local.get(old_sizes[0].as_str())
    } else {
        None
    };
    or_first(
        local.get(size),
        or_first(
            middle,
            or_first(
                by_alias,
                or_first(
                    by_place(local, old_sizes, targets, i),
                    or_first(only_old, or_first(first_value(local), fallback.get(size))),
                ),
            ),
        ),
    )
}

fn migrate_size_defaults(
    local: &TextMap<DefaultValue>,
    old_sizes: &Vec<String>,
    fallback: &TextMap<DefaultValue>,
    targets: &Vec<String>,
) -> (r: TextMap<DefaultValue>)
    ensures
        r@ == migrated_size_defaults(
            local@,
            textmap::views(old_sizes@),
            fallback@,
            textmap::views(targets@),
        ),
{
    let default_axis = old_sizes.len() == 1 && text_eq(old_sizes[0].as_str(), "default");
    if local.contains_key("default") && !default_axis {
        return local.filter_keys(
            |k: &String| -> (b: bool)
                ensures
                    b == (k@ == "default"@ || textmap::views(targets@).contains(k@))
            { text_eq(k.as_str(), "default") || has_text(targets, k.as_str()) },
            Ghost(|k: Seq<char>| k == "default"@ || textmap::views(targets@).contains(k)),
        );
    }
    let mut out: TextMap<DefaultValue> = TextMap::new();
    for i in 0..targets.len()
        invariant
            out@ == migrated_sizes(
                local@,
                textmap::views(old_sizes@),
                fallback@,
                textmap::views(targets@),
                i as int,
            ),
    {
        if let Some(d) = migrate_size_value(local, old_sizes, fallback, targets, i) {
            out.insert(targets[i].clone(), d.duplicate());
        }
    }
    if out.is_empty() {
        fallback.duplicate()
    } else {
        out
    }
}

/// The properties of the current schema, with what an older definition's variant properties of the
/// same names say.
pub open spec fn migrated_variant_props(
    local: Seq<PropModel>,
    old_variants: Seq<Seq<char>>,
    defaults: Seq<PropModel>,
    targets: Seq<Seq<char>>,
) -> Seq<PropModel> {
    Seq::new(
        defaults.len(),
        |i: int|
            match storage::first_prop(local, defaults[i].name) {
                Some(p) => PropModel {
                    defaults: or_schema(
                        migrated_variants(
                            p.defaults,
                            old_variants,
                            defaults[i].defaults,
                            targets,
                            targets.len() as int,
                        ),
                        defaults[i].defaults,
                    ),
                    ..defaults[i]
                },
                None => defaults[i],
            },
    )
}

/// The properties of the current schema, with what an older definition's size properties of the same
/// names say.
pub open spec fn migrated_size_props(
    local: Seq<PropModel>,
    old_sizes: Seq<Seq<char>>,
    defaults: Seq<PropModel>,
    targets: Seq<Seq<char>>,
) -> Seq<PropModel> {
    Seq::new(
        defaults.len(),
        |i: int|
            match storage::first_prop(local, defaults[i].name) {
                Some(p) => PropModel {
                    defaults: migrated_size_defaults(
                        p.defaults,
                        old_sizes,
                        defaults[i].defaults,
                        targets,
                    ),
                    ..defaults[i]
                },
                None => defaults[i],
            },
    )
}

fn merge_variant_props(
    local: &Vec<PropDefinition>,
    old_variants: &Vec<String>,
    defaults: &Vec<PropDefinition>,
    targets: &Vec<String>,
) -> (r: Vec<PropDefinition>)
    ensures
        textmap::views(r@) == migrated_variant_props(
            textmap::views(local@),
            textmap::views(old_variants@),
            textmap::views(defaults@),
            textmap::views(targets@),
        ),
{
    let ghost goal = migrated_variant_props(
        textmap::views(local@),
        textmap::views(old_variants@),
        textmap::views(defaults@),
        textmap::views(targets@),
    );
    let mut out: Vec<PropDefinition> = Vec::new();
    for i in 0..defaults.len()
        invariant
            goal == migrated_variant_props(
                textmap::views(local@),
                textmap::views(old_variants@),
                textmap::views(defaults@),
                textmap::views(targets@),
            ),
            out@.len() == i,
            forall|j: int| 0 <= j < i ==> (#[trigger] out@[j])@ == goal[j],
    {
        let d = &defaults[i];
        assert(textmap::views(defaults@)[i as int] == d@);
        match find_prop(local, d.name.as_str()) {
            Some(k) => {
                let values = migrate_variant_defaults(
                    &local[k].defaults.values,
                    old_variants,
                    &d.defaults.values,
                    targets,
                );
                out.push(with_defaults(d, values));
            },
            None => {
                out.push(d.duplicate());
            },
        }
    }
    assert(textmap::views(out@) =~= goal);
    out
}

fn merge_size_props(
    local: &Vec<PropDefinition>,
    old_sizes: &Vec<String>,
    defaults: &Vec<PropDefinition>,
    targets: &Vec<String>,
) -> (r: Vec<PropDefinition>)
    ensures
        textmap::views(r@) == migrated_size_props(
            textmap::views(local@),
            textmap::views(old_sizes@),
            textmap::views(defaults@),
            textmap::views(targets@),
        ),
{
    let ghost goal = migrated_size_props(
        textmap::views(local@),
        textmap::views(old_sizes@),
        textmap::views(defaults@),
        textmap::views(targets@),
    );
    let mut out: Vec<PropDefinition> = Vec::new();
    for i in 0..defaults.len()
        invariant
            goal == migrated_size_props(
                textmap::views(local@),
                textmap::views(old_sizes@),
                textmap::views(defaults@),
                textmap::views(targets@),
            ),
            out@.len() == i,
            forall|j: int| 0 <= j < i ==> (#[trigger] out@[j])@ == goal[j],
    {
        let d = &defaults[i];
        assert(textmap::views(defaults@)[i as int] == d@);
        match find_prop(local, d.name.as_str()) {
            Some(k) => {
                let values = migrate_size_defaults(
                    &local[k].defaults.values,
                    old_sizes,
                    &d.defaults.values,
                    targets,
                );
                out.push(with_defaults(d, values));
            },
            None => {
                out.push(d.duplicate());
            },
        }
    }
    assert(textmap::views(out@) =~= goal);
    out
}

/// A plugin with the variants and variant properties of the current schema. A schema that extends
/// another component's, or that declares none, is no reference.
pub open spec fn current_variant_schema(p: PluginModel, d: PluginModel) -> PluginModel {
    if d.extends is Some || d.variants.len() == 0 || d.variant_props.len() == 0 {
        p
    } else {
        PluginModel {
            variants: d.variants,
            variant_props: migrated_variant_props(
                p.variant_props,
                p.variants,
                d.variant_props,
                d.variants,
            ),
            ..p
        }
    }
}

/// A plugin with the sizes and size properties of the current schema.
pub open spec fn current_size_schema(p: PluginModel, d: PluginModel) -> PluginModel {
    if d.extends is Some || d.size_props.len() == 0 || d.sizes.len() == 0 {
        p
    } else {
        PluginModel {
            sizes: d.sizes,
            size_props: migrated_size_props(p.size_props, p.sizes, d.size_props, d.sizes),
            ..p
        }
    }
}

fn normalize_plugin_variant_schema(plugin: PluginDefinition, default_plugin: &PluginDefinition) -> (r:
    PluginDefinition)
    ensures
        r@ == current_variant_schema(plugin@, default_plugin@),
{
    if default_plugin.extends.is_some() || default_plugin.variants.len() == 0
        || default_plugin.variant_props.len() == 0 {
        return plugin;
    }
    let variant_props = merge_variant_props(
        &plugin.variant_props,
        &plugin.variants,
        &default_plugin.variant_props,
        &default_plugin.variants,
    );
    PluginDefinition { variants: duplicate_all(&default_plugin.variants), variant_props, ..plugin }
}

fn normalize_plugin_size_schema(plugin: PluginDefinition, default_plugin: &PluginDefinition) -> (r:
    PluginDefinition)
    ensures
        r@ == current_size_schema(plugin@, default_plugin@),
{
    if default_plugin.extends.is_some() || default_plugin.size_props.len() == 0
        || default_plugin.sizes.len() == 0 {
        return plugin;
    }
    let size_props = merge_size_props(
        &plugin.size_props,
        &plugin.sizes,
        &default_plugin.size_props,
        &default_plugin.sizes,
    );
    PluginDefinition { sizes: duplicate_all(&default_plugin.sizes), size_props, ..plugin }
}

/// The value that stands in for a state that a default says nothing about: that of the normal state,
/// else of the pressed one, else any.
pub open spec fn state_filler(m: Map<Seq<char>, Raw>) -> Raw {
    if m.dom().contains("normal"@) {
        m["normal"@]
    } else if m.dom().contains("pressed"@) {
        m["pressed"@]
    } else {
        m[textmap::sorted_keys(m)[0]]
    }
}

/// A default for exactly the given states.
pub open spec fn for_states(d: DefaultModel, states: Seq<Seq<char>>) -> DefaultModel {
    match d {
        DefaultModel::Nested(m) => DefaultModel::Nested(
            Map::new(
                |s: Seq<char>| m.dom() != Set::<Seq<char>>::empty() && states.contains(s),
                |s: Seq<char>|
                    if m.dom().contains(s) {
                        m[s]
                    } else {
                        state_filler(m)
                    },
            ),
        ),
        DefaultModel::Direct(_) => d,
    }
}

/// A property with defaults for exactly the given states.
pub open spec fn prop_for_states(p: PropModel, states: Seq<Seq<char>>) -> PropModel {
    PropModel {
        defaults: Map::new(
            |k: Seq<char>| p.defaults.dom().contains(k),
            |k: Seq<char>| for_states(p.defaults[k], states),
        ),
        ..p
    }
}

/// A plugin with the states of the current schema.
pub open spec fn current_states(p: PluginModel, default: Option<PluginModel>) -> PluginModel {
    match default {
        Some(d) => if d.extends is Some || d.states.len() == 0 {
            p
        } else {
            PluginModel {
                states: d.states,
                variant_props: Seq::new(
                    p.variant_props.len(),
                    |i: int| prop_for_states(p.variant_props[i], d.states),
                ),
                ..p
            }
        },
        None => p,
    }
}

fn fill_states(m: &TextMap<TokenOrValue>, states: &Vec<String>) -> (r: TextMap<TokenOrValue>)
    ensures
        DefaultModel::Nested(r@) == for_states(
            DefaultModel::Nested(m@),
            textmap::views(states@),
        ),
{
    let ghost goal = for_states(DefaultModel::Nested(m@), textmap::views(states@))->Nested_0;
    if m.is_empty() {
        let none: TextMap<TokenOrValue> = TextMap::new();
        assert(none@ =~= goal);
        return none;
    }
    let n: usize = m.len();
    proof {
        if n == 0 {
            assert(m@.dom() =~= Set::<Seq<char>>::empty());
        }
    }
    let filler = match m.get("normal") {
        Some(v) => v,
        None => match m.get("pressed") {
            Some(v) => v,
            None => m.value_at(0),
        },
    };
    let r = TextMap::keyed(
        states,
        |s: &String| -> (v: TokenOrValue)
            ensures
                v@ == (if m@.dom().contains(s@) {
                    m@[s@]
                } else {
                    filler@
                })
        {
            match m.get(s.as_str()) {
                Some(v) => v.duplicate(),
                None => filler.duplicate(),
            }
        },
    );
    assert(r@ =~= goal);
    r
}

fn default_for_states(d: &DefaultValue, states: &Vec<String>) -> (r: DefaultValue)
    ensures
        r@ == for_states(d@, textmap::views(states@)),
{
    match d {
        DefaultValue::Nested(m) => DefaultValue::Nested(fill_states(m, states)),
        DefaultValue::Direct(v) => DefaultValue::Direct(v.duplicate()),
    }
}

fn prop_with_states(p: &PropDefinition, states: &Vec<String>) -> (r: PropDefinition)
    ensures
        r@ == prop_for_states(p@, textmap::views(states@)),
{
    let values = p.defaults.values.map_values(
        |_k: &String, d: &DefaultValue| -> (u: DefaultValue)
            ensures
                u@ == for_states(d@, textmap::views(states@))
        { default_for_states(d, states) },
    );
    assert(values@ =~= prop_for_states(p@, textmap::views(states@)).defaults);
    with_defaults(p, values)
}

fn normalize_plugin_states_against_default(
    plugin: PluginDefinition,
    default_plugin: Option<&PluginDefinition>,
) -> (r: PluginDefinition)
    ensures
        r@ == current_states(plugin@, schema::option_view(default_plugin)),
{
    let d = match default_plugin {
        Some(d) => d,
        None => {
            return plugin;
        },
    };
    if d.extends.is_some() || d.states.len() == 0 {
        return plugin;
    }
    let variant_props = map_props(
        &plugin.variant_props,
        |p: &PropDefinition| -> (u: PropDefinition)
            ensures
                u@ == prop_for_states(p@, d@.states)
        { prop_with_states(p, &d.states) },
        Ghost(|p: PropModel| prop_for_states(p, d@.states)),
    );
    let r = PluginDefinition { states: duplicate_all(&d.states), variant_props, ..plugin };
    assert(r@ =~= current_states(plugin@, Some(d@)));
    r
}

// ---------------------------------------------------------------------------------------------
// Size defaults that were shipped
// ---------------------------------------------------------------------------------------------
/// A direct default of a whole number.
pub open spec fn whole_default(n: i32) -> DefaultModel {
    DefaultModel::Direct(Raw::Float(schema::whole_real(n)))
}

/// Whether a default is the number that is given.
pub open spec fn is_number(d: DefaultModel, n: i32) -> bool {
    match d {
        DefaultModel::Direct(Raw::Float(f)) => f.integral && f.whole == n,
        _ => false,
    }
}

/// The defaults for the three sizes.
pub open spec fn three_sizes(small: i32, middle: i32, large: i32) -> Defaults {
    Map::<Seq<char>, DefaultModel>::empty().insert("sm"@, whole_default(small)).insert(
        "md"@,
        whole_default(middle),
    ).insert("lg"@, whole_default(large))
}

/// Whether the defaults are exactly those numbers for the three sizes.
pub open spec fn are_three_sizes(m: Defaults, small: i32, middle: i32, large: i32) -> bool {
    &&& m.dom() == set!["sm"@, "md"@, "lg"@]
    &&& is_number(m["sm"@], small)
    &&& is_number(m["md"@], middle)
    &&& is_number(m["lg"@], large)
}

/// Properties with the defaults of the first one of a name replaced, where they are as they were
/// shipped.
pub open spec fn sizes_rewritten(
    props: Seq<PropModel>,
    name: Seq<char>,
    from: (i32, i32, i32),
    to: (i32, i32, i32),
) -> Seq<PropModel> {
    let i = storage::prop_index(props, name);
    if i < props.len() && are_three_sizes(props[i].defaults, from.0, from.1, from.2) {
        props.update(i, PropModel { defaults: three_sizes(to.0, to.1, to.2), ..props[i] })
    } else {
        props
    }
}

fn number_is(m: &TextMap<DefaultValue>, size: &str, n: i32) -> (r: bool)
    ensures
        r == (m@.dom().contains(size@) && is_number(m@[size@], n)),
{
    match m.get(size) {
        Some(DefaultValue::Direct(TokenOrValue::Float(f))) => f.integral && f.whole == n as i64,
        _ => false,
    }
}

fn whole_size(n: i32) -> (r: DefaultValue)
    ensures
        r@ == whole_default(n),
{
    DefaultValue::Direct(TokenOrValue::Float(Real::from_whole(n)))
}

fn float_size_defaults(small: i32, middle: i32, large: i32) -> (r: TextMap<DefaultValue>)
    ensures
        r@ == three_sizes(small, middle, large),
{
    let mut m: TextMap<DefaultValue> = TextMap::new();
    m.insert(owned("sm"), whole_size(small));
    m.insert(owned("md"), whole_size(middle));
    m.insert(owned("lg"), whole_size(large));
    m
}

fn only_these_keys(m: &TextMap<DefaultValue>, a: &str, b: &str, c: &str) -> (r: bool)
    ensures
        r ==> (forall|k: Seq<char>| #[trigger] m@.dom().contains(k) ==> k == a@ || k == b@ || k == c@),
        !r ==> (exists|k: Seq<char>| #[trigger] m@.dom().contains(k) && k != a@ && k != b@ && k != c@),
{
    let n: usize = m.len();
    let ghost names = textmap::sorted_keys(m@);
    for i in 0..n
        invariant
            names == textmap::sorted_keys(m@),
            n == names.len(),
            textmap::lists(names, m@.dom()),
            forall|j: int| 0 <= j < i ==> (#[trigger] names[j]) == a@ || names[j] == b@ || names[j] == c@,
    {
        let key = m.key_at(i);
        if !text_eq(key.as_str(), a) && !text_eq(key.as_str(), b) && !text_eq(key.as_str(), c) {
            return false;
        }
    }
    assert forall|k: Seq<char>| #[trigger] m@.dom().contains(k) implies k == a@ || k == b@ || k == c@ by {
        assert(names.contains(k));
        let j = names.index_of(k);
        assert(names[j] == k);
    }
    true
}

fn rewrite_float_size_prop_if_exact_match(
    props: Vec<PropDefinition>,
    name: &str,
    from: (i32, i32, i32),
    to: (i32, i32, i32),
) -> (r: Vec<PropDefinition>)
    ensures
        textmap::views(r@) == sizes_rewritten(textmap::views(props@), name@, from, to),
{
    let mut out = props;
    let ghost before = textmap::views(out@);
    if let Some(i) = find_prop(&out, name) {
        let m = &out[i].defaults.values;
        let same = number_is(m, "sm", from.0) && number_is(m, "md", from.1) && number_is(
            m,
            "lg",
            from.2,
        ) && only_these_keys(m, "sm", "md", "lg");
        proof {
            if same {
                assert(m@.dom() =~= set!["sm"@, "md"@, "lg"@]);
            }
        }
        if same {
            let next = with_defaults(&out[i], float_size_defaults(to.0, to.1, to.2));
            out[i] = next;
            assert(textmap::views(out@) =~= before.update(i as int, next@));
        }
    }
    out
}

/// Properties with the defaults of the first one of a name taken from the current schema.
pub open spec fn defaults_taken(props: Seq<PropModel>, name: Seq<char>, default: Option<PluginModel>) -> Seq<
    PropModel,
> {
    let i = storage::prop_index(props, name);
    match default {
        Some(d) => match storage::first_prop(d.size_props, name) {
            Some(p) => if i < props.len() {
                props.update(i, PropModel { defaults: p.defaults, ..props[i] })
            } else {
                props
            },
            None => props,
        },
        None => props,
    }
}

fn take_defaults(props: Vec<PropDefinition>, name: &str, default_plugin: Option<&PluginDefinition>) -> (r:
    Vec<PropDefinition>)
    ensures
        textmap::views(r@) == defaults_taken(
            textmap::views(props@),
            name@,
            schema::option_view(default_plugin),
        ),
{
    let mut out = props;
    let ghost before = textmap::views(out@);
    if let Some(d) = default_plugin {
        if let Some(k) = find_prop(&d.size_props, name) {
            if let Some(i) = find_prop(&out, name) {
                let next = with_defaults(&out[i], d.size_props[k].defaults.values.duplicate());
                out[i] = next;
                assert(textmap::views(out@) =~= before.update(i as int, next@));
            }
        }
    }
    out
}

/// A default for the normal state only.
pub open spec fn normal_only(d: DefaultModel) -> DefaultModel {
    match d {
        DefaultModel::Nested(m) => DefaultModel::Nested(
            textmap::only_keys(m, |s: Seq<char>| s == "normal"@),
        ),
        DefaultModel::Direct(_) => d,
    }
}

/// A property for the normal state only.
pub open spec fn prop_normal_only(p: PropModel) -> PropModel {
    PropModel {
        defaults: Map::new(
            |k: Seq<char>| p.defaults.dom().contains(k),
            |k: Seq<char>| normal_only(p.defaults[k]),
        ),
        ..p
    }
}

fn prop_of_normal(p: &PropDefinition) -> (r: PropDefinition)
    ensures
        r@ == prop_normal_only(p@),
{
    let values = p.defaults.values.map_values(
        |_k: &String, d: &DefaultValue| -> (u: DefaultValue)
            ensures
                u@ == normal_only(d@)
        {
            match d {
                DefaultValue::Nested(m) => DefaultValue::Nested(
                    m.filter_keys(
                        |s: &String| -> (b: bool)
                            ensures
                                b == (s@ == "normal"@)
                        { text_eq(s.as_str(), "normal") },
                        Ghost(|s: Seq<char>| s == "normal"@),
                    ),
                ),
                DefaultValue::Direct(v) => DefaultValue::Direct(v.duplicate()),
            }
        },
    );
    assert(values@ =~= prop_normal_only(p@).defaults);
    with_defaults(p, values)
}

/// The properties with one of some names.
pub open spec fn props_named(props: Seq<PropModel>, a: Seq<char>, b: Seq<char>) -> Seq<PropModel> {
    props.filter(|p: PropModel| p.name == a || p.name == b)
}

/// The `image` frame height as it is now, where it is as it was shipped.
pub open spec fn frame_rewritten(props: Seq<PropModel>) -> Seq<PropModel> {
    let i = storage::prop_index(props, "frame-height"@);
    if i < props.len() && props[i].defaults.dom() == set!["default"@] && is_number(
        props[i].defaults["default"@],
        220,
    ) {
        props.update(
            i,
            PropModel {
                defaults: Map::<Seq<char>, DefaultModel>::empty().insert(
                    "default"@,
                    whole_default(192),
                ),
                ..props[i]
            },
        )
    } else {
        props
    }
}

/// The size properties of some components with defaults that were shipped replaced by current ones.
pub open spec fn current_sizes(name: Seq<char>, props: Seq<PropModel>, default: Option<PluginModel>) -> Seq<
    PropModel,
> {
    if name == "icon_button"@ {
        sizes_rewritten(props, "control-size"@, (32, 40, 48), (36, 44, 52))
    } else if name == "link"@ {
        sizes_rewritten(props, "row-height"@, (28, 32, 36), (36, 44, 52))
    } else if name == "switch"@ {
        sizes_rewritten(
            sizes_rewritten(
                sizes_rewritten(props, "track-width"@, (32, 40, 48), (36, 44, 52)),
                "track-height"@,
                (18, 22, 26),
                (20, 24, 28),
            ),
            "knob-size"@,
            (14, 18, 22),
            (16, 20, 24),
        )
    } else if name == "radio"@ || name == "checkbox"@ {
        defaults_taken(props, "control-size"@, default)
    } else if name == "slider"@ {
        sizes_rewritten(props, "thumb-size"@, (16, 20, 24), (8, 12, 16))
    } else if name == "slide_to_confirm"@ {
        sizes_rewritten(props, "control-height"@, (44, 52, 60), (36, 44, 52))
    } else if name == "accordion"@ {
        sizes_rewritten(props, "header-height"@, (44, 52, 60), (36, 44, 52))
    } else if name == "image"@ {
        frame_rewritten(props_named(props, "frame-width"@, "frame-height"@))
    } else {
        props
    }
}

/// The component definitions that differ from those once shipped by more than their schema: `icon`
/// has the normal state only, `slider` no focus ring, `image` a frame and nothing else.
pub open spec fn current_shipped(name: Seq<char>, p: PluginModel, default: Option<PluginModel>) -> PluginModel {
    let q = PluginModel { size_props: current_sizes(name, p.size_props, default), ..p };
    if name == "icon"@ {
        PluginModel {
            states: seq!["normal"@],
            variant_props: Seq::new(
                p.variant_props.len(),
                |i: int| prop_normal_only(p.variant_props[i]),
            ),
            ..q
        }
    } else if name == "slider"@ {
        PluginModel {
            variant_props: p.variant_props.filter(
                |prop: PropModel| prop.name != "focus-ring-color"@,
            ),
            ..q
        }
    } else if name == "image"@ {
        PluginModel {
            variants: seq!["default"@],
            states: seq!["normal"@],
            sizes: seq!["default"@],
            variant_props: Seq::empty(),
            ..q
        }
    } else {
        q
    }
}

fn rewrite_frame(props: Vec<PropDefinition>) -> (r: Vec<PropDefinition>)
    ensures
        textmap::views(r@) == frame_rewritten(textmap::views(props@)),
{
    let mut out = props;
    let ghost before = textmap::views(out@);
    if let Some(i) = find_prop(&out, "frame-height") {
        let m = &out[i].defaults.values;
        let same = number_is(m, "default", 220) && only_these_keys(
            m,
            "default",
            "default",
            "default",
        );
        proof {
            if same {
                assert(m@.dom() =~= set!["default"@]);
            }
        }
        if same {
            let mut values: TextMap<DefaultValue> = TextMap::new();
            values.insert(owned("default"), whole_size(192));
            let next = with_defaults(&out[i], values);
            out[i] = next;
            assert(textmap::views(out@) =~= before.update(i as int, next@));
        }
    }
    out
}

fn update_sizes(name: &str, props: Vec<PropDefinition>, default_plugin: Option<&PluginDefinition>) -> (r: Vec<
    PropDefinition,
>)
    ensures
        textmap::views(r@) == current_sizes(
            name@,
            textmap::views(props@),
            schema::option_view(default_plugin),
        ),
{
    if text_eq(name, "icon_button") {
        rewrite_float_size_prop_if_exact_match(props, "control-size", (32, 40, 48), (36, 44, 52))
    } else if text_eq(name, "link") {
        rewrite_float_size_prop_if_exact_match(props, "row-height", (28, 32, 36), (36, 44, 52))
    } else if text_eq(name, "switch") {
        let a = rewrite_float_size_prop_if_exact_match(
            props,
            "track-width",
            (32, 40, 48),
            (36, 44, 52),
        );
        let b = rewrite_float_size_prop_if_exact_match(
            a,
            "track-height",
            (18, 22, 26),
            (20, 24, 28),
        );
        rewrite_float_size_prop_if_exact_match(b, "knob-size", (14, 18, 22), (16, 20, 24))
    } else if text_eq(name, "radio") || text_eq(name, "checkbox") {
        take_defaults(props, "control-size", default_plugin)
    } else if text_eq(name, "slider") {
        rewrite_float_size_prop_if_exact_match(props, "thumb-size", (16, 20, 24), (8, 12, 16))
    } else if text_eq(name, "slide_to_confirm") {
        rewrite_float_size_prop_if_exact_match(props, "control-height", (44, 52, 60), (36, 44, 52))
    } else if text_eq(name, "accordion") {
        rewrite_float_size_prop_if_exact_match(props, "header-height", (44, 52, 60), (36, 44, 52))
    } else if text_eq(name, "image") {
        let framed = filter_all(
            &props,
            |p: &PropDefinition| -> (b: bool)
                ensures
                    b == (p@.name == "frame-width"@ || p@.name == "frame-height"@)
            {
                text_eq(p.name.as_str(), "frame-width") || text_eq(
                    p.name.as_str(),
                    "frame-height",
                )
            },
            Ghost(|p: PropModel| p.name == "frame-width"@ || p.name == "frame-height"@),
        );
        rewrite_frame(framed)
    } else {
        props
    }
}

fn one_name(name: &str) -> (r: Vec<String>)
    ensures
        textmap::views(r@) == seq![name@],
{
    let r = vec![owned(name)];
    assert(textmap::views(r@) =~= seq![name@]);
    r
}

fn normalize_legacy_shipped_size_defaults(
    name: &str,
    plugin: PluginDefinition,
    default_plugin: Option<&PluginDefinition>,
) -> (r: PluginDefinition)
    ensures
        r@ == current_shipped(name@, plugin@, schema::option_view(default_plugin)),
{
    let size_props = update_sizes(name, duplicate_all(&plugin.size_props), default_plugin);
    if text_eq(name, "icon") {
        let variant_props = map_props(
            &plugin.variant_props,
            |p: &PropDefinition| -> (u: PropDefinition)
                ensures
                    u@ == prop_normal_only(p@)
            { prop_of_normal(p) },
            Ghost(|p: PropModel| prop_normal_only(p)),
        );
        let r = PluginDefinition { states: one_name("normal"), variant_props, size_props, ..plugin };
        assert(r@ =~= current_shipped(name@, plugin@, schema::option_view(default_plugin)));
        r
    } else if text_eq(name, "slider") {
        let variant_props = filter_all(
            &plugin.variant_props,
            |p: &PropDefinition| -> (b: bool)
                ensures
                    b == (p@.name != "focus-ring-color"@)
            { !text_eq(p.name.as_str(), "focus-ring-color") },
            Ghost(|p: PropModel| p.name != "focus-ring-color"@),
        );
        PluginDefinition { variant_props, size_props, ..plugin }
    } else if text_eq(name, "image") {
        let none: Vec<PropDefinition> = Vec::new();
        assert(textmap::views(none@) =~= Seq::<PropModel>::empty());
        PluginDefinition {
            variants: one_name("default"),
            states: one_name("normal"),
            sizes: one_name("default"),
            variant_props: none,
            size_props,
            ..plugin
        }
    } else {
        PluginDefinition { size_props, ..plugin }
    }
}

/// The properties without those whose name an earlier one has.
pub open spec fn unique_props(props: Seq<PropModel>) -> Seq<PropModel>
    decreases props.len(),
{
    if props.len() == 0 {
        Seq::empty()
    } else {
        let front = unique_props(props.drop_last());
        if storage::prop_index(front, props.last().name) < front.len() {
            front
        } else {
            front.push(props.last())
        }
    }
}

/// No two properties have one name.
pub proof fn unique_props_differ(props: Seq<PropModel>, i: int, j: int)
    requires
        0 <= i < j < unique_props(props).len(),
    ensures
        unique_props(props)[i].name != unique_props(props)[j].name,
    decreases props.len(),
{
    let front = unique_props(props.drop_last());
    storage::prop_index_is(front, props.last().name);
    if j < front.len() {
        unique_props_differ(props.drop_last(), i, j);
    }
}

/// The first property of every name stays.
pub proof fn unique_props_keep_first(props: Seq<PropModel>, name: Seq<char>)
    ensures
        storage::first_prop(unique_props(props), name) == storage::first_prop(props, name),
    decreases props.len(),
{
    if props.len() > 0 {
        let front = unique_props(props.drop_last());
        unique_props_keep_first(props.drop_last(), name);
        storage::prop_index_is(front, props.last().name);
        storage::prop_index_is(front, name);
        storage::prop_index_is(props.drop_last(), name);
        if storage::prop_index(front, props.last().name) >= front.len() {
            assert(front.push(props.last()).drop_last() =~= front);
        }
    }
}

fn dedupe(props: &Vec<PropDefinition>) -> (r: Vec<PropDefinition>)
    ensures
        textmap::views(r@) == unique_props(textmap::views(props@)),
{
    let mut out: Vec<PropDefinition> = Vec::new();
    let ghost all = textmap::views(props@);
    assert(textmap::views(out@) =~= Seq::<PropModel>::empty());
    for i in 0..props.len()
        invariant
            all == textmap::views(props@),
            textmap::views(out@) == unique_props(all.take(i as int)),
    {
        proof {
            assert(all.take(i + 1).drop_last() =~= all.take(i as int));
            assert(all.take(i + 1).last() == all[i as int]);
        }
        if find_prop(&out, props[i].name.as_str()).is_none() {
            let ghost before = textmap::views(out@);
            out.push(props[i].duplicate());
            assert(textmap::views(out@) =~= before.push(all[i as int]));
        }
    }
    assert(all.take(props@.len() as int) =~= all);
    out
}

/// A plugin without properties of the same name.
pub open spec fn deduped(p: PluginModel) -> PluginModel {
    PluginModel {
        variant_props: unique_props(p.variant_props),
        size_props: unique_props(p.size_props),
        ..p
    }
}

fn dedupe_plugin_props(plugin: PluginDefinition) -> (r: PluginDefinition)
    ensures
        r@ == deduped(plugin@),
{
    PluginDefinition {
        variant_props: dedupe(&plugin.variant_props),
        size_props: dedupe(&plugin.size_props),
        ..plugin
    }
}

/// A plugin brought up to date with the current definition of the component, where there is one.
pub open spec fn up_to_date(name: Seq<char>, p: PluginModel, default: Option<PluginModel>) -> PluginModel {
    let d = match default {
        Some(x) => Some(current_names(x)),
        None => None,
    };
    let p = current_names(p);
    let p = current_component(name, p, d);
    let p = current_textarea(name, p, d);
    let p = current_progress_bar(name, p, d);
    let p = match d {
        Some(x) => current_size_schema(current_variant_schema(p, x), x),
        None => p,
    };
    let p = current_states(p, d);
    let p = current_shipped(name, p, d);
    deduped(p)
}

/// Brings a plugin definition up to date. `default_plugin` is the definition of the component that
/// comes with the library.
pub fn normalize_plugin_definition(
    name: &str,
    plugin: PluginDefinition,
    default_plugin: Option<&PluginDefinition>,
) -> (r: PluginDefinition)
    ensures
        r@ == up_to_date(name@, plugin@, schema::option_view(default_plugin)),
{
    let current: Option<PluginDefinition> = match default_plugin {
        Some(d) => Some(normalize_legacy_variant_names(d.duplicate())),
        None => None,
    };
    let d: Option<&PluginDefinition> = match &current {
        Some(x) => Some(x),
        None => None,
    };
    let plugin = normalize_legacy_variant_names(plugin);
    let plugin = normalize_legacy_component_renames(name, plugin, d);
    let plugin = normalize_legacy_textarea_plugin(name, plugin, d);
    let plugin = normalize_legacy_progress_bar_plugin(name, plugin, d);
    let plugin = match d {
        Some(x) => normalize_plugin_size_schema(normalize_plugin_variant_schema(plugin, x), x),
        None => plugin,
    };
    let plugin = normalize_plugin_states_against_default(plugin, d);
    let plugin = normalize_legacy_shipped_size_defaults(name, plugin, d);
    dedupe_plugin_props(plugin)
}

/// A definition that only extends another component is no schema reference: what is brought up to
/// date beside it keeps its variants, states, sizes and properties.
pub proof fn extending_default_is_no_reference(p: PluginModel, d: PluginModel)
    requires
        d.extends is Some,
    ensures
        current_variant_schema(p, d) == p,
        current_size_schema(p, d) == p,
        current_states(p, Some(d)) == p,
{
}

/// A definition that is brought up to date has no two variant properties, and no two size
/// properties, of one name.
pub proof fn up_to_date_names_differ(
    name: Seq<char>,
    p: PluginModel,
    default: Option<PluginModel>,
    i: int,
    j: int,
)
    requires
        0 <= i < j,
    ensures
        j < up_to_date(name, p, default).variant_props.len() ==> up_to_date(
            name,
            p,
            default,
        ).variant_props[i].name != up_to_date(name, p, default).variant_props[j].name,
        j < up_to_date(name, p, default).size_props.len() ==> up_to_date(
            name,
            p,
            default,
        ).size_props[i].name != up_to_date(name, p, default).size_props[j].name,
{
    let d = match default {
        Some(x) => Some(current_names(x)),
        None => None,
    };
    let q = current_progress_bar(
        name,
        current_textarea(name, current_component(name, current_names(p), d), d),
        d,
    );
    let q = match d {
        Some(x) => current_size_schema(current_variant_schema(q, x), x),
        None => q,
    };
    let q = current_shipped(name, current_states(q, d), d);
    if j < unique_props(q.variant_props).len() {
        unique_props_differ(q.variant_props, i, j);
    }
    if j < unique_props(q.size_props).len() {
        unique_props_differ(q.size_props, i, j);
    }
}

/// A part is put behind a path with exactly one slash between them, and a path in front of it stays.
pub proof fn path_parts_are_apart(base: Seq<char>, part: Seq<char>)
    ensures
        base.len() > 0 && base.last() != '/' ==> path_with(base, part) == base + seq!['/'] + part,
        base.len() > 0 && base.last() == '/' ==> path_with(base, part) == base.drop_last() + seq!['/'] + part,
        base.len() == 0 ==> path_with(base, part) == part,
        editor_path(Some(base)) == path_with(path_with(base, ".foundation"@), "theme-editor"@),
{
    reveal_strlit("/");
    assert("/"@ =~= seq!['/']);
    if base.len() > 0 && base.last() == '/' {
        assert(path_with(base, part) =~= base.drop_last() + seq!['/'] + part);
    }
    if base.len() == 0 {
        assert(path_with(base, part) =~= part);
    }
}

/// Properties that are completed stay in their places, each with its name and with the defaults that it
/// had for the variants that count. One that the component lacks is added only where that is asked for.
pub proof fn completed_props_keep_own(
    props: Seq<PropModel>,
    defaults: Seq<PropModel>,
    variants: Seq<Seq<char>>,
    only_these: bool,
    append: bool,
    i: int,
    k: Seq<char>,
)
    requires
        0 <= i < props.len(),
    ensures
        ({
            let r = completed_props(props, defaults, variants, only_these, append);
            &&& r.len() >= props.len()
            &&& !append ==> r.len() == props.len()
            &&& r[i].name == props[i].name
            &&& (!only_these || variants.contains(k)) && props[i].defaults.dom().contains(k)
                ==> r[i].defaults.dom().contains(k) && r[i].defaults[k] == props[i].defaults[k]
        }),
    decreases defaults.len(),
{
    if defaults.len() > 0 {
        completed_props_keep_own(props, defaults.drop_last(), variants, only_these, append, i, k);
        let front = completed_props(props, defaults.drop_last(), variants, only_these, append);
        storage::prop_index_is(front, defaults.last().name);
    }
}

/// Every property of the default definition is there where properties are added, whether the component
/// had it or not.
pub proof fn lacking_props_are_added(
    props: Seq<PropModel>,
    defaults: Seq<PropModel>,
    variants: Seq<Seq<char>>,
    only_these: bool,
    j: int,
) -> (i: int)
    requires
        0 <= j < defaults.len(),
    ensures
        0 <= i < completed_props(props, defaults, variants, only_these, true).len(),
        completed_props(props, defaults, variants, only_these, true)[i].name == defaults[j].name,
    decreases defaults.len(),
{
    let front = completed_props(props, defaults.drop_last(), variants, only_these, true);
    let at = storage::prop_index(front, defaults.last().name);
    storage::prop_index_is(front, defaults.last().name);
    if j == defaults.len() - 1 {
        at
    } else {
        assert(defaults.drop_last()[j] == defaults[j]);
        lacking_props_are_added(props, defaults.drop_last(), variants, only_these, j)
    }
}

/// Defaults that are filled keep each that is there; one that a listed variant lacks is taken from the
/// others, and none comes to a variant that is not listed.
pub proof fn lacking_defaults_are_taken(m: Defaults, from: Defaults, variants: Seq<Seq<char>>, k: Seq<char>)
    ensures
        m.dom().contains(k) ==> filled(m, from, variants).dom().contains(k) && filled(m, from, variants)[k]
            == m[k],
        !m.dom().contains(k) && variants.contains(k) && from.dom().contains(k) ==> filled(
            m,
            from,
            variants,
        ).dom().contains(k) && filled(m, from, variants)[k] == from[k],
        !m.dom().contains(k) && !(variants.contains(k) && from.dom().contains(k)) ==> !filled(
            m,
            from,
            variants,
        ).dom().contains(k),
{
}

} // verus!
