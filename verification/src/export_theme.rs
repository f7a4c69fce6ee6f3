//! Themes of the editor as themes of the component library.

use vstd::prelude::*;
use crate::records::{RecordModel, ThemeRecord};
use crate::storage::{ComponentThemeData, PropertyValue, ThemeData, NORMAL_STATE_KEY};
use crate::style::{self, normalize_prop_name, set_style_prop, Style, StyleProps, ThemeValue};
use crate::text::{self, owned, text_eq, trimmed};
use crate::textmap::{self, Duplicate, TextMap};
use crate::theme::{Component, ComponentTheme, Theme, ThemeModel, Variant, VariantTheme};
use crate::token_theme::editor_tokens_to_export_tokens;
use crate::value::Value;

verus! {

/// The kind of values that a style property takes.
#[derive(Clone, Copy, Debug, PartialEq, Eq, Structural)]
pub enum ExportStylePropKind {
    Color,
    Float,
    Int,
    String,
    Other,
}

/// The kind of values that a style property takes.
pub open spec fn prop_kind(name: Seq<char>) -> ExportStylePropKind {
    if name == "background"@ || name == "foreground"@ || name == "border_color"@ {
        ExportStylePropKind::Color
    } else if name == "border_width"@ || name == "border_radius"@ || name == "padding_horizontal"@ || name
        == "padding_vertical"@ || name == "min_height"@ || name == "min_width"@ || name == "font_size"@ || name
        == "icon_size"@ || name == "opacity"@ || name == "touch_expansion"@ {
        ExportStylePropKind::Float
    } else if name == "font_weight"@ {
        ExportStylePropKind::Int
    } else if name == "font_family"@ {
        ExportStylePropKind::String
    } else {
        ExportStylePropKind::Other
    }
}

/// The kind of values that a style property takes.
pub fn export_style_prop_kind(prop_name: &str) -> (r: ExportStylePropKind)
    ensures
        r == prop_kind(style::normal_name(prop_name@)),
{
    let name = normalize_prop_name(prop_name);
    let n = name.as_str();
    if text_eq(n, "background") || text_eq(n, "foreground") || text_eq(n, "border_color") {
        ExportStylePropKind::Color
    } else if text_eq(n, "border_width") || text_eq(n, "border_radius") || text_eq(n, "padding_horizontal")
        || text_eq(n, "padding_vertical") || text_eq(n, "min_height") || text_eq(n, "min_width") || text_eq(
        n,
        "font_size",
    ) || text_eq(n, "icon_size") || text_eq(n, "opacity") || text_eq(n, "touch_expansion") {
        ExportStylePropKind::Float
    } else if text_eq(n, "font_weight") {
        ExportStylePropKind::Int
    } else if text_eq(n, "font_family") {
        ExportStylePropKind::String
    } else {
        ExportStylePropKind::Other
    }
}

/// The token that an older or editor-side token key stands for.
pub open spec fn export_key(key: Seq<char>) -> Seq<char> {
    if key == "color.primary-pressed"@ || key == "color.primary_pressed"@ {
        "color.primary.dark"@
    } else if key == "color.primary-hover"@ || key == "color.primary_hover"@ {
        "color.primary.light"@
    } else if key == "color.text"@ {
        "color.foreground"@
    } else if key == "color.text-muted"@ || key == "color.text_muted"@ {
        "color.muted"@
    } else {
        key
    }
}

/// The token that an older or editor-side token key stands for.
pub fn normalize_export_token_key(key: &str) -> (r: &str)
    ensures
        r@ == export_key(key@),
{
    if text_eq(key, "color.primary-pressed") || text_eq(key, "color.primary_pressed") {
        "color.primary.dark"
    } else if text_eq(key, "color.primary-hover") || text_eq(key, "color.primary_hover") {
        "color.primary.light"
    } else if text_eq(key, "color.text") {
        "color.foreground"
    } else if text_eq(key, "color.text-muted") || text_eq(key, "color.text_muted") {
        "color.muted"
    } else {
        key
    }
}

/// Whether a value goes into a style: one of the property's kind, a number for either kind of number,
/// but no blank font family. A token reference always does.
pub open spec fn goes_into_style(name: Seq<char>, v: Value) -> bool {
    match (prop_kind(name), v) {
        (_, Value::Ref(_)) => true,
        (ExportStylePropKind::Color, Value::Color(_)) => true,
        (ExportStylePropKind::Float, Value::Float(_)) => true,
        (ExportStylePropKind::Float, Value::Int(_)) => true,
        (ExportStylePropKind::Int, Value::Int(_)) => true,
        (ExportStylePropKind::Int, Value::Float(_)) => true,
        (ExportStylePropKind::String, Value::Text(s)) => text::trim(s).len() > 0,
        (ExportStylePropKind::Other, _) => true,
        _ => false,
    }
}

/// A style with a property of the editor. A value that does not go into it is left out.
pub open spec fn styled(s: Style, prop: Seq<char>, v: Value) -> Style {
    let name = style::normal_name(prop);
    if goes_into_style(name, v) {
        match v {
            Value::Ref(key) => style::with_prop(s, name, Value::Ref(export_key(key))),
            _ => style::with_prop(s, name, v),
        }
    } else {
        s
    }
}

fn theme_value(value: &PropertyValue) -> (r: ThemeValue)
    ensures
        r@ == (match value@ {
            Value::Ref(key) => Value::Ref(export_key(key)),
            v => v,
        }),
{
    match value {
        PropertyValue::Token(key) => ThemeValue::TokenRef(owned(normalize_export_token_key(key.as_str()))),
        PropertyValue::Color(c) => ThemeValue::Color(*c),
        PropertyValue::Float(f) => ThemeValue::Float(*f),
        PropertyValue::Int(n) => ThemeValue::Int(*n),
        PropertyValue::Bool(b) => ThemeValue::Bool(*b),
        PropertyValue::String(s) => ThemeValue::String(s.clone()),
    }
}

fn is_blank(s: &str) -> (r: bool)
    ensures
        r == (text::trim(s@).len() == 0),
{
    let t = trimmed(s);
    proof {
        reveal_strlit("");
        assert(t@.len() == 0 ==> t@ =~= ""@);
    }
    text_eq(t.as_str(), "")
}

proof fn lemma_kinds_accept(name: Seq<char>, v: Value)
    requires
        goes_into_style(name, v),
    ensures
        style::accepts(name, v),
{
    reveal_strlit("font_family");
    reveal_strlit("font_weight");
    reveal_strlit("font_size");
    reveal_strlit("icon_size");
    reveal_strlit("opacity");
    reveal_strlit("touch_expansion");
    assert("font_family"@.len() == 11 && "font_weight"@.len() == 11 && "font_size"@.len() == 9
        && "icon_size"@.len() == 9 && "opacity"@.len() == 7 && "touch_expansion"@.len() == 15);
    assert("font_family"@[5] != "font_weight"@[5]);
}

/// Sets a property of the editor in a style.
pub fn apply_property_value_to_export_style(style: &mut StyleProps, prop_name: &str, value: &PropertyValue)
    ensures
        final(style)@ == styled(old(style)@, prop_name@, value@),
{
    let applies = match (export_style_prop_kind(prop_name), value) {
        (_, PropertyValue::Token(_)) => true,
        (ExportStylePropKind::Color, PropertyValue::Color(_)) => true,
        (ExportStylePropKind::Float, PropertyValue::Float(_)) => true,
        (ExportStylePropKind::Float, PropertyValue::Int(_)) => true,
        (ExportStylePropKind::Int, PropertyValue::Int(_)) => true,
        (ExportStylePropKind::Int, PropertyValue::Float(_)) => true,
        (ExportStylePropKind::String, PropertyValue::String(s)) => !is_blank(s.as_str()),
        (ExportStylePropKind::Other, _) => true,
        _ => false,
    };
    if applies {
        proof {
            lemma_kinds_accept(style::normal_name(prop_name@), value@);
        }
        set_style_prop(style, prop_name, theme_value(value));
    }
}

/// The style of properties.
pub open spec fn style_of(props: Map<Seq<char>, Value>, keys: Seq<Seq<char>>) -> Style
    decreases keys.len(),
{
    if keys.len() == 0 {
        style::empty_style()
    } else {
        styled(style_of(props, keys.drop_last()), keys.last(), props[keys.last()])
    }
}

/// The style of properties.
pub open spec fn props_style(props: Map<Seq<char>, Value>) -> Style {
    style_of(props, textmap::sorted_keys(props))
}

fn make_style(props: &TextMap<PropertyValue>) -> (r: StyleProps)
    ensures
        r@ == props_style(props@),
{
    let mut out = StyleProps::new();
    let n: usize = props.len();
    let ghost keys = textmap::sorted_keys(props@);
    for i in 0..n
        invariant
            keys == textmap::sorted_keys(props@),
            n == keys.len(),
            out@ == style_of(props@, keys.take(i as int)),
    {
        proof {
            assert(keys.take(i + 1).drop_last() =~= keys.take(i as int));
            assert(keys.take(i + 1).last() == keys[i as int]);
        }
        apply_property_value_to_export_style(&mut out, props.key_at(i).as_str(), props.value_at(i));
    }
    assert(keys.take(n as int) =~= keys);
    out
}

/// The styles of properties.
pub open spec fn styles(m: Map<Seq<char>, Map<Seq<char>, Value>>) -> Map<Seq<char>, Style> {
    Map::new(|k: Seq<char>| m.dom().contains(k), |k: Seq<char>| props_style(m[k]))
}

/// A variant of a component: its normal state is the default, its other states are states.
pub open spec fn export_variant(states: Map<Seq<char>, Map<Seq<char>, Value>>, sizes: Map<Seq<char>, Style>) -> Variant {
    Variant {
        default: if states.dom().contains(NORMAL_STATE_KEY@) {
            props_style(states[NORMAL_STATE_KEY@])
        } else {
            style::empty_style()
        },
        sizes,
        states: styles(states).remove(NORMAL_STATE_KEY@),
    }
}

/// A component: every variant has all sizes.
pub open spec fn export_component(d: ThemeData) -> Component {
    Component {
        base: style::empty_style(),
        variants: Map::new(
            |v: Seq<char>| d.variant_props.dom().contains(v),
            |v: Seq<char>| export_variant(d.variant_props[v], styles(d.size_props)),
        ),
    }
}

fn make_styles(m: &TextMap<TextMap<PropertyValue>>) -> (r: TextMap<StyleProps>)
    ensures
        r@ == styles(m@),
{
    let r = m.map_values(
        |k: &String, props: &TextMap<PropertyValue>| -> (u: StyleProps)
            ensures
                u@ == props_style(props@)
            { make_style(props) },
    );
    assert(r@ =~= styles(m@));
    r
}

fn make_variant(states: &TextMap<TextMap<PropertyValue>>, sizes: &TextMap<StyleProps>) -> (r: VariantTheme)
    ensures
        r@ == export_variant(states@, sizes@),
{
    let default = match states.get(NORMAL_STATE_KEY) {
        Some(props) => make_style(props),
        None => StyleProps::new(),
    };
    let mut others = make_styles(states);
    others.remove(NORMAL_STATE_KEY);
    VariantTheme { default, sizes: sizes.duplicate(), states: others }
}

/// A component of the editor as one of the component library.
pub fn component_theme_data_to_export_component(data: &ComponentThemeData) -> (r: ComponentTheme)
    ensures
        r@ == export_component(data@),
{
    let sizes = make_styles(&data.size_props);
    let variants = data.variant_props.map_values(
        |k: &String, states: &TextMap<TextMap<PropertyValue>>| -> (u: VariantTheme)
            ensures
                u@ == export_variant(states@, sizes@)
            { make_variant(states, &sizes) },
    );
    assert(variants@ =~= export_component(data@).variants);
    ComponentTheme { base: StyleProps::new(), variants }
}

/// A theme of the editor as one of the component library.
pub open spec fn export_model(record: RecordModel) -> ThemeModel {
    ThemeModel {
        tokens: record.tokens.exported(),
        components: Map::new(
            |k: Seq<char>| record.component_themes.dom().contains(k),
            |k: Seq<char>| export_component(record.component_themes[k]),
        ),
    }
}

/// A theme of the editor as one of the component library.
pub fn theme_record_to_export_theme(record: &ThemeRecord) -> (r: Theme)
    ensures
        r@ == export_model(record@),
{
    let components = record.component_themes.map_values(
        |k: &String, d: &ComponentThemeData| -> (u: ComponentTheme)
            ensures
                u@ == export_component(d@)
            { component_theme_data_to_export_component(d) },
    );
    assert(components@ =~= export_model(record@).components);
    Theme { tokens: editor_tokens_to_export_tokens(&record.tokens), components }
}

} // verus!
