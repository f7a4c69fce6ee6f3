//! What the editor's panels list and show of a component, and what a row stands for.

use vstd::prelude::*;
use crate::color::Color;
use crate::fallback::{
    self, component_parent_data, size_prop_is_overridden_for_ui, variant_prop_is_overridden_for_ui,
};
use crate::live::{resolve_property_value_from_app, PanelModel, TokenPanel};
use crate::scalar::{self, Scalar};
use crate::schema::{self, PluginDefinition, PluginModel, PropDefinition, PropModel};
use crate::storage::{self, ComponentThemeData, PropertyValue, ThemeData, DEFAULT_SIZE_KEY};
use crate::style;
use crate::text::{self, capitalize, owned, text_eq};
use crate::textmap::{self, map_all, TextMap};
use crate::value::Value;

verus! {

// ---------------------------------------------------------------------------------------------
// Rows
// ---------------------------------------------------------------------------------------------
/// What a row shows of a property's value, in every form that a row can have.
#[derive(Debug, PartialEq)]
pub struct ShownValue {
    pub color_value: Color,
    pub float_value: Scalar,
    pub int_value: i32,
    pub bool_value: bool,
    pub string_value: String,
    pub is_overridden: bool,
    /// The token that the row refers to, where it shows one.
    pub token: Option<String>,
}

/// The model of what a row shows.
#[verifier::ext_equal]
pub struct ShownModel {
    pub color_value: Color,
    pub float_value: Scalar,
    pub int_value: int,
    pub bool_value: bool,
    pub string_value: Seq<char>,
    pub is_overridden: bool,
    pub token: Option<Seq<char>>,
}

impl View for ShownValue {
    type V = ShownModel;

    open spec fn view(&self) -> ShownModel {
        ShownModel {
            color_value: self.color_value,
            float_value: self.float_value,
            int_value: self.int_value as int,
            bool_value: self.bool_value,
            string_value: self.string_value@,
            is_overridden: self.is_overridden,
            token: style::text_view(self.token),
        }
    }
}

/// A value in every form that a row can have; black, zero, false or no text where it has not that
/// form.
pub open spec fn shown_as(v: Value, is_overridden: bool, token: Option<Seq<char>>) -> ShownModel {
    ShownModel {
        color_value: match v {
            Value::Color(c) => c,
            _ => Color { r: 0, g: 0, b: 0, a: 255 },
        },
        float_value: match storage::value_float(v) {
            Some(f) => f,
            None => Scalar { bits: 0 },
        },
        int_value: match storage::value_int(v) {
            Some(i) => i,
            None => 0,
        },
        bool_value: v == Value::Bool(true),
        string_value: match v {
            Value::Text(s) => s,
            _ => Seq::empty(),
        },
        is_overridden,
        token,
    }
}

fn make_property_value_data(value: &PropertyValue, is_overridden: bool, token: Option<String>) -> (r: ShownValue)
    ensures
        r@ == shown_as(value@, is_overridden, style::text_view(token)),
{
    ShownValue {
        color_value: match value.as_color() {
            Some(c) => c,
            None => Color::rgb(0, 0, 0),
        },
        float_value: match value.as_float() {
            Some(f) => f,
            None => Scalar::zero(),
        },
        int_value: match value.as_int() {
            Some(i) => i,
            None => 0,
        },
        bool_value: match value {
            PropertyValue::Bool(b) => *b,
            _ => false,
        },
        string_value: match value {
            PropertyValue::String(s) => s.clone(),
            _ => String::new(),
        },
        is_overridden,
        token,
    }
}

/// What a row shows: the value itself, or that of the token that it refers to.
pub open spec fn row(panel: PanelModel, v: Value, is_overridden: bool) -> ShownModel {
    match v {
        Value::Ref(key) => shown_as(panel.shown(v), is_overridden, Some(key)),
        _ => shown_as(v, is_overridden, None),
    }
}

/// What a row shows of a value.
pub fn property_value_to_slint_with_override(panel: &TokenPanel, value: &PropertyValue, is_overridden: bool) -> (r:
    ShownValue)
    ensures
        r@ == row(panel@, value@, is_overridden),
{
    match value.token_key() {
        Some(key) => {
            let resolved = resolve_property_value_from_app(panel, value);
            make_property_value_data(&resolved, is_overridden, Some(owned(key)))
        },
        None => make_property_value_data(value, is_overridden, None),
    }
}

/// The row of a property that has no value: transparent, zero, false and no text.
pub open spec fn empty_row() -> ShownModel {
    ShownModel {
        color_value: Color { r: 0, g: 0, b: 0, a: 0 },
        float_value: Scalar { bits: 0 },
        int_value: 0,
        bool_value: false,
        string_value: Seq::empty(),
        is_overridden: false,
        token: None,
    }
}

/// The row of a property that has no value.
pub fn default_property_value_data() -> (r: ShownValue)
    ensures
        r@ == empty_row(),
{
    ShownValue {
        color_value: Color::rgba(0, 0, 0, 0),
        float_value: Scalar::zero(),
        int_value: 0,
        bool_value: false,
        string_value: String::new(),
        is_overridden: false,
        token: None,
    }
}

/// What a preview uses for a value, where there is one.
pub open spec fn preview(panel: PanelModel, v: Option<Value>) -> ShownModel {
    match v {
        Some(v) => row(panel, v, true),
        None => empty_row(),
    }
}

/// What a preview uses for a variant's property.
pub fn preview_variant_property_value(
    panel: &TokenPanel,
    component_themes: &TextMap<ComponentThemeData>,
    component_key: &str,
    variant: &str,
    state: &str,
    prop_name: &str,
) -> (r: ShownValue)
    ensures
        r@ == preview(
            panel@,
            match schema::entry(component_themes@, component_key@) {
                Some(d) => storage::variant_value(d.variant_props, variant@, state@, prop_name@),
                None => None,
            },
        ),
{
    match component_themes.get(component_key) {
        Some(data) => match data.variant_props.get2(variant, state) {
            Some(props) => match props.get(prop_name) {
                Some(value) => property_value_to_slint_with_override(panel, value, true),
                None => default_property_value_data(),
            },
            None => default_property_value_data(),
        },
        None => default_property_value_data(),
    }
}

/// What a preview uses for a size's property.
pub fn preview_size_property_value(
    panel: &TokenPanel,
    component_themes: &TextMap<ComponentThemeData>,
    component_key: &str,
    size: &str,
    prop_name: &str,
) -> (r: ShownValue)
    ensures
        r@ == preview(
            panel@,
            match schema::entry(component_themes@, component_key@) {
                Some(d) => textmap::at2(d.size_props, size@, prop_name@),
                None => None,
            },
        ),
{
    match component_themes.get(component_key) {
        Some(data) => match data.size_props.get2(size, prop_name) {
            Some(value) => property_value_to_slint_with_override(panel, value, true),
            None => default_property_value_data(),
        },
        None => default_property_value_data(),
    }
}

// ---------------------------------------------------------------------------------------------
// Values from rows
// ---------------------------------------------------------------------------------------------
/// The value that a row stands for, by the type of its property. A row of type `bool` refers to no
/// token.
pub open spec fn row_value(prop_type: Seq<char>, shown: ShownModel) -> Value {
    if prop_type == "bool"@ {
        Value::Bool(shown.bool_value)
    } else {
        match shown.token {
            Some(key) => Value::Ref(key),
            None => if prop_type == "color"@ {
                Value::Color(shown.color_value)
            } else if prop_type == "int"@ {
                Value::Int(shown.int_value as i32)
            } else if prop_type == "string"@ {
                Value::Text(shown.string_value)
            } else {
                Value::Float(shown.float_value)
            },
        }
    }
}

/// The value that a row stands for.
pub fn property_value_from_ui(prop_def: &PropDefinition, value: &ShownValue) -> (r: PropertyValue)
    ensures
        r@ == row_value(prop_def@.prop_type, value@),
{
    let kind = prop_def.prop_type.as_str();
    if text_eq(kind, "bool") {
        return PropertyValue::Bool(value.bool_value);
    }
    if let Some(key) = &value.token {
        return PropertyValue::Token(key.clone());
    }
    if text_eq(kind, "color") {
        PropertyValue::Color(value.color_value)
    } else if text_eq(kind, "int") {
        PropertyValue::Int(value.int_value)
    } else if text_eq(kind, "string") {
        PropertyValue::String(value.string_value.clone())
    } else {
        PropertyValue::Float(value.float_value)
    }
}

/// Which tokens a row of a type offers.
#[derive(Clone, Copy, Debug, PartialEq, Eq, Structural)]
pub enum TokenChoice {
    Color,
    Number,
    Font,
    Nothing,
}

/// Which tokens a row of a type offers.
pub open spec fn offered(prop_type: Seq<char>) -> TokenChoice {
    if prop_type == "color"@ {
        TokenChoice::Color
    } else if prop_type == "bool"@ {
        TokenChoice::Nothing
    } else if prop_type == "string"@ {
        TokenChoice::Font
    } else {
        TokenChoice::Number
    }
}

/// Which tokens a row of a type offers.
pub fn offered_tokens(prop_type: &str) -> (r: TokenChoice)
    ensures
        r == offered(prop_type@),
{
    if text_eq(prop_type, "color") {
        TokenChoice::Color
    } else if text_eq(prop_type, "bool") {
        TokenChoice::Nothing
    } else if text_eq(prop_type, "string") {
        TokenChoice::Font
    } else {
        TokenChoice::Number
    }
}

// ---------------------------------------------------------------------------------------------
// Values of a component
// ---------------------------------------------------------------------------------------------
/// The values that the data hold for a state of a variant, in the order of its definitions.
pub open spec fn state_values(data: ThemeData, variant: Seq<char>, state: Seq<char>) -> Seq<Value> {
    if data.variant_props.dom().contains(variant) && data.variant_props[variant].dom().contains(state) {
        storage::listed_values(data.variant_prop_defs, data.variant_props[variant][state])
    } else {
        Seq::empty()
    }
}

/// The values that the data hold for a size, in the order of its definitions.
pub open spec fn size_values(data: ThemeData, size: Seq<char>) -> Seq<Value> {
    if data.size_props.dom().contains(size) {
        storage::listed_values(data.size_prop_defs, data.size_props[size])
    } else {
        Seq::empty()
    }
}

/// The rows of values that belong to properties one by one.
pub open spec fn rows(
    panel: PanelModel,
    props: Seq<PropModel>,
    values: Seq<Value>,
    overridden: spec_fn(Seq<char>, Value) -> bool,
) -> Seq<ShownModel> {
    Seq::new(
        if props.len() <= values.len() {
            props.len()
        } else {
            values.len()
        },
        |i: int| row(panel, values[i], overridden(props[i].name, values[i])),
    )
}

/// Whether a variant's value is shown as overridden.
pub open spec fn variant_mark(
    data: ThemeData,
    theme_parent: Option<ThemeData>,
    component_parent: Option<ThemeData>,
    variant: Seq<char>,
    state: Seq<char>,
) -> spec_fn(Seq<char>, Value) -> bool {
    |prop: Seq<char>, v: Value|
        fallback::shown_overridden(data, theme_parent, component_parent, variant, state, prop, v)
}

/// Whether a size's value is shown as overridden.
pub open spec fn size_mark(
    data: ThemeData,
    theme_parent: Option<ThemeData>,
    component_parent: Option<ThemeData>,
    size: Seq<char>,
) -> spec_fn(Seq<char>, Value) -> bool {
    |prop: Seq<char>, v: Value|
        fallback::shown_size_overridden(data, theme_parent, component_parent, size, prop, v)
}

/// The rows of a variant: those of its states, one after the other.
pub open spec fn variant_rows(
    panel: PanelModel,
    props: Seq<PropModel>,
    states: Seq<Seq<char>>,
    data: ThemeData,
    theme_parent: Option<ThemeData>,
    component_parent: Option<ThemeData>,
    variant: Seq<char>,
) -> Seq<ShownModel>
    decreases states.len(),
{
    if states.len() == 0 {
        Seq::empty()
    } else {
        variant_rows(panel, props, states.drop_last(), data, theme_parent, component_parent, variant) + rows(
            panel,
            props,
            state_values(data, variant, states.last()),
            variant_mark(data, theme_parent, component_parent, variant, states.last()),
        )
    }
}

/// The rows of a variant, state by state.
pub fn update_generic_variant_values_with_parent(
    panel: &TokenPanel,
    plugin: &PluginDefinition,
    data: &ComponentThemeData,
    theme_parent_data: Option<&ComponentThemeData>,
    component_parent_data: Option<&ComponentThemeData>,
    variant: &str,
) -> (r: Vec<ShownValue>)
    ensures
        textmap::views(r@) == variant_rows(
            panel@,
            plugin@.variant_props,
            plugin@.states,
            data@,
            schema::option_view(theme_parent_data),
            schema::option_view(component_parent_data),
            variant@,
        ),
{
    let mut out: Vec<ShownValue> = Vec::new();
    let ghost states = plugin@.states;
    let ghost props = plugin@.variant_props;
    let ghost tp = schema::option_view(theme_parent_data);
    let ghost cp = schema::option_view(component_parent_data);
    let n: usize = plugin.states.len();
    assert(textmap::views(out@) =~= variant_rows(panel@, props, states.take(0), data@, tp, cp, variant@));
    for s in 0..n
        invariant
            n == plugin.states@.len(),
            states == plugin@.states,
            props == plugin@.variant_props,
            tp == schema::option_view(theme_parent_data),
            cp == schema::option_view(component_parent_data),
            textmap::views(out@) == variant_rows(panel@, props, states.take(s as int), data@, tp, cp, variant@),
    {
        let state = plugin.states[s].as_str();
        let values = data.get_variant_state_values(variant, state);
        let ghost before = textmap::views(out@);
        let ghost mark = variant_mark(data@, tp, cp, variant@, state@);
        let ghost list = textmap::views(values@);
        let count: usize = if plugin.variant_props.len() <= values.len() {
            plugin.variant_props.len()
        } else {
            values.len()
        };
        for i in 0..count
            invariant
                count <= plugin.variant_props@.len(),
                count <= values@.len(),
                props == plugin@.variant_props,
                tp == schema::option_view(theme_parent_data),
                cp == schema::option_view(component_parent_data),
                list == textmap::views(values@),
                count == rows(panel@, props, list, mark).len(),
                mark == variant_mark(data@, tp, cp, variant@, state@),
                textmap::views(out@) == before + rows(panel@, props, list, mark).take(i as int),
        {
            let value = &values[i];
            assert(list[i as int] == value@);
            assert(props[i as int] == plugin.variant_props@[i as int]@);
            let is_overridden = variant_prop_is_overridden_for_ui(
                data,
                theme_parent_data,
                component_parent_data,
                variant,
                state,
                plugin.variant_props[i].name.as_str(),
                value,
            );
            let ghost held = textmap::views(out@);
            out.push(property_value_to_slint_with_override(panel, value, is_overridden));
            assert(textmap::views(out@) =~= held.push(rows(panel@, props, list, mark)[i as int]));
            assert(textmap::views(out@) =~= before + rows(panel@, props, list, mark).take(i + 1));
        }
        proof {
            let all = rows(panel@, props, list, mark);
            assert(all.take(count as int) =~= all);
            assert(states.take(s + 1).drop_last() =~= states.take(s as int));
            assert(states.take(s + 1).last() == states[s as int]);
            assert(list == state_values(data@, variant@, state@));
        }
    }
    assert(states.take(n as int) =~= states);
    out
}

/// The rows of a size.
pub open spec fn size_rows(
    panel: PanelModel,
    props: Seq<PropModel>,
    data: ThemeData,
    theme_parent: Option<ThemeData>,
    component_parent: Option<ThemeData>,
    size: Seq<char>,
) -> Seq<ShownModel> {
    rows(panel, props, size_values(data, size), size_mark(data, theme_parent, component_parent, size))
}

/// The rows of a size.
pub fn update_generic_size_values_with_parent(
    panel: &TokenPanel,
    plugin: &PluginDefinition,
    data: &ComponentThemeData,
    theme_parent_data: Option<&ComponentThemeData>,
    component_parent_data: Option<&ComponentThemeData>,
    size: &str,
) -> (r: Vec<ShownValue>)
    ensures
        textmap::views(r@) == size_rows(
            panel@,
            plugin@.size_props,
            data@,
            schema::option_view(theme_parent_data),
            schema::option_view(component_parent_data),
            size@,
        ),
{
    let mut out: Vec<ShownValue> = Vec::new();
    let ghost props = plugin@.size_props;
    let ghost tp = schema::option_view(theme_parent_data);
    let ghost cp = schema::option_view(component_parent_data);
    let values = data.get_size_values(size);
    let ghost mark = size_mark(data@, tp, cp, size@);
    let ghost list = textmap::views(values@);
    let count: usize = if plugin.size_props.len() <= values.len() {
        plugin.size_props.len()
    } else {
        values.len()
    };
    assert(textmap::views(out@) =~= rows(panel@, props, list, mark).take(0));
    for i in 0..count
        invariant
            count <= plugin.size_props@.len(),
            count <= values@.len(),
            props == plugin@.size_props,
            tp == schema::option_view(theme_parent_data),
            cp == schema::option_view(component_parent_data),
            list == textmap::views(values@),
            count == rows(panel@, props, list, mark).len(),
            mark == size_mark(data@, tp, cp, size@),
            textmap::views(out@) == rows(panel@, props, list, mark).take(i as int),
    {
        let value = &values[i];
        assert(list[i as int] == value@);
        assert(props[i as int] == plugin.size_props@[i as int]@);
        let is_overridden = size_prop_is_overridden_for_ui(
            data,
            theme_parent_data,
            component_parent_data,
            size,
            plugin.size_props[i].name.as_str(),
            value,
        );
        let ghost held = textmap::views(out@);
        out.push(property_value_to_slint_with_override(panel, value, is_overridden));
        assert(textmap::views(out@) =~= held.push(rows(panel@, props, list, mark)[i as int]));
        assert(textmap::views(out@) =~= rows(panel@, props, list, mark).take(i + 1));
    }
    assert(rows(panel@, props, list, mark).take(count as int) =~= rows(panel@, props, list, mark));
    assert(list == size_values(data@, size@));
    out
}

// ---------------------------------------------------------------------------------------------
// Lists
// ---------------------------------------------------------------------------------------------
/// An entry of a list: what it is called and what it stands for.
#[derive(Debug, PartialEq)]
pub struct NamedKey {
    pub name: String,
    pub key: String,
}

impl View for NamedKey {
    type V = (Seq<char>, Seq<char>);

    open spec fn view(&self) -> (Seq<char>, Seq<char>) {
        (self.name@, self.key@)
    }
}

/// Keys with what they are called: the key with its first character in upper case.
pub open spec fn named(keys: Seq<Seq<char>>) -> Seq<(Seq<char>, Seq<char>)> {
    Seq::new(keys.len(), |i: int| (text::capitalized(keys[i]), keys[i]))
}

fn named_keys(keys: &Vec<String>) -> (r: Vec<NamedKey>)
    ensures
        textmap::views(r@) == named(textmap::views(keys@)),
{
    let r = map_all(
        keys,
        |key: &String| -> (e: NamedKey)
            ensures
                e@ == (text::capitalized(key@), key@)
            { NamedKey { name: capitalize(key.as_str()), key: key.clone() } },
    );
    assert(textmap::views(r@) =~= named(textmap::views(keys@)));
    r
}

/// The variants of a plugin.
pub fn populate_variant_list(plugin: &PluginDefinition) -> (r: Vec<NamedKey>)
    ensures
        textmap::views(r@) == named(plugin@.variants),
{
    named_keys(&plugin.variants)
}

/// The states of a plugin.
pub fn populate_state_list(plugin: &PluginDefinition) -> (r: Vec<NamedKey>)
    ensures
        textmap::views(r@) == named(plugin@.states),
{
    named_keys(&plugin.states)
}

/// The sizes of a plugin: the Common one, then the concrete ones.
pub open spec fn size_list(sizes: Seq<Seq<char>>) -> Seq<(Seq<char>, Seq<char>)> {
    seq![("Common"@, DEFAULT_SIZE_KEY@)] + named(sizes)
}

/// The sizes of a plugin: the Common one, then the concrete ones.
pub fn populate_size_list(plugin: &PluginDefinition) -> (r: Vec<NamedKey>)
    ensures
        textmap::views(r@) == size_list(plugin@.sizes),
{
    let mut out: Vec<NamedKey> = Vec::new();
    out.push(NamedKey { name: owned("Common"), key: owned(DEFAULT_SIZE_KEY) });
    let mut concrete = named_keys(&plugin.sizes);
    let ghost rest = textmap::views(concrete@);
    out.append(&mut concrete);
    assert(textmap::views(out@) =~= seq![("Common"@, DEFAULT_SIZE_KEY@)] + rest);
    out
}

/// What a list says of a property.
#[derive(Debug, PartialEq)]
pub struct PropertyDef {
    pub name: String,
    pub display_name: String,
    pub prop_type: String,
    pub min_value: Scalar,
    pub max_value: Scalar,
    pub step: Scalar,
}

/// The model of what a list says of a property.
#[verifier::ext_equal]
pub struct DefModel {
    pub name: Seq<char>,
    pub display_name: Seq<char>,
    pub prop_type: Seq<char>,
    pub min_value: Scalar,
    pub max_value: Scalar,
    pub step: Scalar,
}

impl View for PropertyDef {
    type V = DefModel;

    open spec fn view(&self) -> DefModel {
        DefModel {
            name: self.name@,
            display_name: self.display_name@,
            prop_type: self.prop_type@,
            min_value: self.min_value,
            max_value: self.max_value,
            step: self.step,
        }
    }
}

/// What a list says of a property; a property without a range goes from 0 to 100 in steps of 1.
pub open spec fn listed_def(p: PropModel) -> DefModel {
    DefModel {
        name: p.name,
        display_name: match p.display_name {
            Some(n) => n,
            None => p.name,
        },
        prop_type: p.prop_type,
        min_value: match p.min {
            Some(v) => v,
            None => scalar::int_scalar(0),
        },
        max_value: match p.max {
            Some(v) => v,
            None => scalar::int_scalar(100),
        },
        step: match p.step {
            Some(v) => v,
            None => scalar::int_scalar(1),
        },
    }
}

fn listed_defs(props: &Vec<PropDefinition>) -> (r: Vec<PropertyDef>)
    ensures
        textmap::views(r@) == textmap::views(props@).map_values(|p: PropModel| listed_def(p)),
{
    let r = map_all(
        props,
        |p: &PropDefinition| -> (d: PropertyDef)
            ensures
                d@ == listed_def(p@)
            {
                PropertyDef {
                    name: p.name.clone(),
                    display_name: owned(p.display_name()),
                    prop_type: p.prop_type.clone(),
                    min_value: p.min_value(),
                    max_value: p.max_value(),
                    step: p.step_value(),
                }
            },
    );
    assert(textmap::views(r@) =~= textmap::views(props@).map_values(|p: PropModel| listed_def(p)));
    r
}

/// The properties that vary by variant and state.
pub fn populate_variant_prop_defs(plugin: &PluginDefinition) -> (r: Vec<PropertyDef>)
    ensures
        textmap::views(r@) == plugin@.variant_props.map_values(|p: PropModel| listed_def(p)),
{
    listed_defs(&plugin.variant_props)
}

/// The properties that vary by size.
pub fn populate_size_prop_defs(plugin: &PluginDefinition) -> (r: Vec<PropertyDef>)
    ensures
        textmap::views(r@) == plugin@.size_props.map_values(|p: PropModel| listed_def(p)),
{
    listed_defs(&plugin.size_props)
}

/// The size that an index of the size list stands for: the Common one at the front.
pub open spec fn size_at(sizes: Seq<Seq<char>>, ui_index: int) -> Option<Seq<char>> {
    if ui_index <= 0 {
        Some(DEFAULT_SIZE_KEY@)
    } else if ui_index <= sizes.len() {
        Some(sizes[ui_index - 1])
    } else {
        None
    }
}

/// The size that an index of the size list stands for.
pub fn ui_size_index_to_key<'a>(plugin: &'a PluginDefinition, ui_index: i32) -> (r: Option<&'a str>)
    ensures
        schema::option_view(r) == size_at(plugin@.sizes, ui_index as int),
{
    if ui_index <= 0 {
        Some(DEFAULT_SIZE_KEY)
    } else {
        let i: u64 = (ui_index - 1) as u64;
        if i < plugin.sizes.len() as u64 {
            assert(plugin@.sizes[i as int] == plugin.sizes@[i as int]@);
            Some(plugin.sizes[i as usize].as_str())
        } else {
            None
        }
    }
}

// ---------------------------------------------------------------------------------------------
// Selection
// ---------------------------------------------------------------------------------------------
/// The selected variant, size and state of a component, as indices of their lists.
pub type Selection = (i32, i32, i32);

/// A selected index, held within a list of some length.
pub open spec fn within(index: int, len: int) -> int {
    let last = if len > 0 {
        len - 1
    } else {
        0
    };
    if index < 0 {
        0
    } else if index < last {
        index
    } else {
        last
    }
}

fn held_within(index: i32, len: usize) -> (r: usize)
    ensures
        r == within(index as int, len as int),
{
    let last: usize = if len > 0 {
        len - 1
    } else {
        0
    };
    if index < 0 {
        0
    } else if (index as u64) < last as u64 {
        index as usize
    } else {
        last
    }
}

/// What is selected when another component is shown: what was when it was shown last.
pub open spec fn recalled(
    selections: Map<Seq<char>, Selection>,
    current: Selection,
    old_key: Seq<char>,
    new_key: Seq<char>,
) -> (Map<Seq<char>, Selection>, Selection) {
    let after = if old_key != new_key {
        selections.insert(old_key, current)
    } else {
        selections
    };
    (
        after,
        if after.dom().contains(new_key) {
            after[new_key]
        } else {
            (0, 0, 0)
        },
    )
}

/// Remembers what is selected of the component that was shown, and says what to select of the one
/// that is.
pub fn remember_component_selection(
    selections: &mut TextMap<Selection>,
    current: Selection,
    old_key: &str,
    new_key: &str,
) -> (r: Selection)
    ensures
        (final(selections)@, r) == recalled(old(selections)@, current, old_key@, new_key@),
{
    if !text_eq(old_key, new_key) {
        selections.insert(owned(old_key), current);
    }
    match selections.get(new_key) {
        Some(s) => *s,
        None => (0, 0, 0),
    }
}

// ---------------------------------------------------------------------------------------------
// A component in the panels
// ---------------------------------------------------------------------------------------------
/// What the panels show of a component: what is selected, held within its lists, and the rows of
/// the selected variant and size.
#[derive(Debug, PartialEq)]
pub struct ComponentPanel {
    pub variant_index: usize,
    pub size_index: usize,
    pub state_index: usize,
    pub variant_values: Vec<ShownValue>,
    pub size_values: Vec<ShownValue>,
    pub has_parent: bool,
}

/// The model of what the panels show of a component.
#[verifier::ext_equal]
pub struct ComponentPanelModel {
    pub variant_index: int,
    pub size_index: int,
    pub state_index: int,
    pub variant_values: Seq<ShownModel>,
    pub size_values: Seq<ShownModel>,
    pub has_parent: bool,
}

impl View for ComponentPanel {
    type V = ComponentPanelModel;

    open spec fn view(&self) -> ComponentPanelModel {
        ComponentPanelModel {
            variant_index: self.variant_index as int,
            size_index: self.size_index as int,
            state_index: self.state_index as int,
            variant_values: textmap::views(self.variant_values@),
            size_values: textmap::views(self.size_values@),
            has_parent: self.has_parent,
        }
    }
}

/// What the panels show of a component.
pub open spec fn component_panel(
    panel: PanelModel,
    plugin: PluginModel,
    data: ThemeData,
    theme_parent: Option<ThemeData>,
    component_parent: Option<ThemeData>,
    selection: Selection,
) -> ComponentPanelModel {
    let v = within(selection.0 as int, plugin.variants.len() as int);
    let s = within(selection.1 as int, (plugin.sizes.len() + 1) as int);
    ComponentPanelModel {
        variant_index: v,
        size_index: s,
        state_index: within(selection.2 as int, plugin.states.len() as int),
        variant_values: if v < plugin.variants.len() {
            variant_rows(
                panel,
                plugin.variant_props,
                plugin.states,
                data,
                theme_parent,
                component_parent,
                plugin.variants[v],
            )
        } else {
            Seq::empty()
        },
        size_values: size_rows(
            panel,
            plugin.size_props,
            data,
            theme_parent,
            component_parent,
            size_at(plugin.sizes, s)->Some_0,
        ),
        has_parent: data.parent_key is Some,
    }
}

/// What the panels show of a component, where the theme has it and there is a plugin for it.
pub open spec fn loaded_panel(
    panel: PanelModel,
    component_key: Seq<char>,
    plugins: Map<Seq<char>, PluginModel>,
    themes: Map<Seq<char>, ThemeData>,
    parent_themes: Option<Map<Seq<char>, ThemeData>>,
    selection: Selection,
) -> Option<ComponentPanelModel> {
    if plugins.dom().contains(component_key) && themes.dom().contains(component_key) {
        Some(
            component_panel(
                panel,
                plugins[component_key],
                themes[component_key],
                match parent_themes {
                    Some(t) => schema::entry(t, component_key),
                    None => None,
                },
                fallback::parent_data(plugins, themes, themes[component_key]),
                selection,
            ),
        )
    } else {
        None
    }
}

/// What the panels show of a component.
pub fn load_theme_editor_component_with_parent(
    panel: &TokenPanel,
    component_key: &str,
    component_plugins: &TextMap<PluginDefinition>,
    component_themes: &TextMap<ComponentThemeData>,
    parent_component_themes: Option<&TextMap<ComponentThemeData>>,
    selection: Selection,
) -> (r: Option<ComponentPanel>)
    ensures
        (match r {
            Some(p) => Some(p@),
            None => None,
        }) == loaded_panel(
            panel@,
            component_key@,
            component_plugins@,
            component_themes@,
            schema::option_view(parent_component_themes),
            selection,
        ),
{
    let plugin = match component_plugins.get(component_key) {
        Some(p) => p,
        None => {
            return None;
        },
    };
    let data = match component_themes.get(component_key) {
        Some(d) => d,
        None => {
            return None;
        },
    };
    let theme_parent = match parent_component_themes {
        Some(t) => t.get(component_key),
        None => None,
    };
    let component_parent = component_parent_data(component_plugins, component_themes, data);
    let variant_index: usize = held_within(selection.0, plugin.variants.len());
    let last: usize = plugin.sizes.len();
    let size_index: usize = if selection.1 < 0 {
        0
    } else if (selection.1 as u64) < last as u64 {
        selection.1 as usize
    } else {
        last
    };
    let state_index: usize = held_within(selection.2, plugin.states.len());
    let variant_values = if variant_index < plugin.variants.len() {
        assert(plugin@.variants[variant_index as int] == plugin.variants@[variant_index as int]@);
        update_generic_variant_values_with_parent(
            panel,
            plugin,
            data,
            theme_parent,
            component_parent,
            plugin.variants[variant_index].as_str(),
        )
    } else {
        let none: Vec<ShownValue> = Vec::new();
        assert(textmap::views(none@) =~= Seq::<ShownModel>::empty());
        none
    };
    let size: &str = if size_index == 0 {
        DEFAULT_SIZE_KEY
    } else {
        assert(plugin@.sizes[size_index - 1] == plugin.sizes@[size_index - 1]@);
        plugin.sizes[size_index - 1].as_str()
    };
    let size_values = update_generic_size_values_with_parent(
        panel,
        plugin,
        data,
        theme_parent,
        component_parent,
        size,
    );
    let has_parent = data.parent_key.is_some();
    Some(ComponentPanel { variant_index, size_index, state_index, variant_values, size_values, has_parent })
}

// ---------------------------------------------------------------------------------------------
// Sidebar
// ---------------------------------------------------------------------------------------------
/// The components of the sidebar, category by category, each with its place in its category.
pub open spec fn sidebar(category: int, component: int) -> Option<Seq<char>> {
    let names: Seq<Seq<char>> = if category == 0 {
        seq!["button"@, "icon_button"@, "chip"@, "input"@, "search"@, "dropdown"@, "checkbox"@, "radio"@, "switch"@, "tabs"@, "slide_to_confirm"@, "link"@, "slider"@, "textarea"@, "radio_group"@, "icon"@]
    } else if category == 1 {
        seq!["card"@, "menu"@, "menu_item"@, "accordion"@, "image"@, "divider"@]
    } else if category == 2 {
        seq!["dialog"@, "sheet"@, "toast"@]
    } else if category == 3 {
        seq!["progress_bar"@, "spinner"@]
    } else {
        Seq::empty()
    };
    if 0 <= component < names.len() {
        Some(names[component])
    } else {
        None
    }
}

/// The component at a place of the sidebar.
pub fn sidebar_component_key(category: i32, component: i32) -> (r: Option<&'static str>)
    ensures
        schema::option_view(r) == sidebar(category as int, component as int),
{
    let names: Vec<&'static str> = if category == 0 {
        vec!["button", "icon_button", "chip", "input", "search", "dropdown", "checkbox", "radio", "switch", "tabs", "slide_to_confirm", "link", "slider", "textarea", "radio_group", "icon"]
    } else if category == 1 {
        vec!["card", "menu", "menu_item", "accordion", "image", "divider"]
    } else if category == 2 {
        vec!["dialog", "sheet", "toast"]
    } else if category == 3 {
        vec!["progress_bar", "spinner"]
    } else {
        Vec::new()
    };
    if 0 <= component && (component as u64) < names.len() as u64 {
        Some(names[component as usize])
    } else {
        None
    }
}

// ---------------------------------------------------------------------------------------------
// Laws
// ---------------------------------------------------------------------------------------------
/// Whether a value is one that a row of a type stands for.
pub open spec fn row_fits(prop_type: Seq<char>, v: Value) -> bool {
    match v {
        Value::Bool(_) => prop_type == "bool"@,
        Value::Color(_) => prop_type == "color"@,
        Value::Int(_) => prop_type == "int"@,
        Value::Text(_) => prop_type == "string"@,
        Value::Float(_) => prop_type != "bool"@ && prop_type != "color"@ && prop_type != "int"@ && prop_type
            != "string"@,
        Value::Ref(_) => prop_type != "bool"@,
    }
}

/// What a row shows of a value of its type stands for that very value.
pub proof fn shown_value_comes_back(panel: PanelModel, prop_type: Seq<char>, v: Value, is_overridden: bool)
    requires
        row_fits(prop_type, v),
    ensures
        row_value(prop_type, row(panel, v, is_overridden)) == v,
{
    reveal_strlit("bool");
    reveal_strlit("color");
    reveal_strlit("int");
    reveal_strlit("string");
    assert("color"@.len() == 5 && "bool"@.len() == 4 && "int"@.len() == 3 && "string"@.len() == 6);
}

/// What was selected of a component is selected again when it is shown again.
pub proof fn selection_comes_back(
    selections: Map<Seq<char>, Selection>,
    chosen: Selection,
    elsewhere: Selection,
    key: Seq<char>,
    other: Seq<char>,
)
    requires
        key != other,
    ensures
        recalled(recalled(selections, chosen, key, other).0, elsewhere, other, key).1 == chosen,
{
}

/// The place in the sidebar of a component, by its length and its first two characters.
spec fn place(s: Seq<char>) -> (int, int) {
    if s.len() == 6 && s[0] == 'b' && s[1] == 'u' {
        (0, 0)
    } else if s.len() == 11 && s[0] == 'i' && s[1] == 'c' {
        (0, 1)
    } else if s.len() == 4 && s[0] == 'c' && s[1] == 'h' {
        (0, 2)
    } else if s.len() == 5 && s[0] == 'i' && s[1] == 'n' {
        (0, 3)
    } else if s.len() == 6 && s[0] == 's' && s[1] == 'e' {
        (0, 4)
    } else if s.len() == 8 && s[0] == 'd' && s[1] == 'r' {
        (0, 5)
    } else if s.len() == 8 && s[0] == 'c' && s[1] == 'h' {
        (0, 6)
    } else if s.len() == 5 && s[0] == 'r' && s[1] == 'a' {
        (0, 7)
    } else if s.len() == 6 && s[0] == 's' && s[1] == 'w' {
        (0, 8)
    } else if s.len() == 4 && s[0] == 't' && s[1] == 'a' {
        (0, 9)
    } else if s.len() == 16 && s[0] == 's' && s[1] == 'l' {
        (0, 10)
    } else if s.len() == 4 && s[0] == 'l' && s[1] == 'i' {
        (0, 11)
    } else if s.len() == 6 && s[0] == 's' && s[1] == 'l' {
        (0, 12)
    } else if s.len() == 8 && s[0] == 't' && s[1] == 'e' {
        (0, 13)
    } else if s.len() == 11 && s[0] == 'r' && s[1] == 'a' {
        (0, 14)
    } else if s.len() == 4 && s[0] == 'i' && s[1] == 'c' {
        (0, 15)
    } else if s.len() == 4 && s[0] == 'c' && s[1] == 'a' {
        (1, 0)
    } else if s.len() == 4 && s[0] == 'm' && s[1] == 'e' {
        (1, 1)
    } else if s.len() == 9 && s[0] == 'm' && s[1] == 'e' {
        (1, 2)
    } else if s.len() == 9 && s[0] == 'a' && s[1] == 'c' {
        (1, 3)
    } else if s.len() == 5 && s[0] == 'i' && s[1] == 'm' {
        (1, 4)
    } else if s.len() == 7 && s[0] == 'd' && s[1] == 'i' {
        (1, 5)
    } else if s.len() == 6 && s[0] == 'd' && s[1] == 'i' {
        (2, 0)
    } else if s.len() == 5 && s[0] == 's' && s[1] == 'h' {
        (2, 1)
    } else if s.len() == 5 && s[0] == 't' && s[1] == 'o' {
        (2, 2)
    } else if s.len() == 12 && s[0] == 'p' && s[1] == 'r' {
        (3, 0)
    } else if s.len() == 7 && s[0] == 's' && s[1] == 'p' {
        (3, 1)
    } else {
        (-1, -1)
    }
}

proof fn lemma_place(c: int, i: int)
    requires
        sidebar(c, i) is Some,
    ensures
        place(sidebar(c, i)->Some_0) == (c, i),
{
    reveal_strlit("button");
    assert(place("button"@) == (0int, 0int));
    reveal_strlit("icon_button");
    assert(place("icon_button"@) == (0int, 1int));
    reveal_strlit("chip");
    assert(place("chip"@) == (0int, 2int));
    reveal_strlit("input");
    assert(place("input"@) == (0int, 3int));
    reveal_strlit("search");
    assert(place("search"@) == (0int, 4int));
    reveal_strlit("dropdown");
    assert(place("dropdown"@) == (0int, 5int));
    reveal_strlit("checkbox");
    assert(place("checkbox"@) == (0int, 6int));
    reveal_strlit("radio");
    assert(place("radio"@) == (0int, 7int));
    reveal_strlit("switch");
    assert(place("switch"@) == (0int, 8int));
    reveal_strlit("tabs");
    assert(place("tabs"@) == (0int, 9int));
    reveal_strlit("slide_to_confirm");
    assert(place("slide_to_confirm"@) == (0int, 10int));
    reveal_strlit("link");
    assert(place("link"@) == (0int, 11int));
    reveal_strlit("slider");
    assert(place("slider"@) == (0int, 12int));
    reveal_strlit("textarea");
    assert(place("textarea"@) == (0int, 13int));
    reveal_strlit("radio_group");
    assert(place("radio_group"@) == (0int, 14int));
    reveal_strlit("icon");
    assert(place("icon"@) == (0int, 15int));
    reveal_strlit("card");
    assert(place("card"@) == (1int, 0int));
    reveal_strlit("menu");
    assert(place("menu"@) == (1int, 1int));
    reveal_strlit("menu_item");
    assert(place("menu_item"@) == (1int, 2int));
    reveal_strlit("accordion");
    assert(place("accordion"@) == (1int, 3int));
    reveal_strlit("image");
    assert(place("image"@) == (1int, 4int));
    reveal_strlit("divider");
    assert(place("divider"@) == (1int, 5int));
    reveal_strlit("dialog");
    assert(place("dialog"@) == (2int, 0int));
    reveal_strlit("sheet");
    assert(place("sheet"@) == (2int, 1int));
    reveal_strlit("toast");
    assert(place("toast"@) == (2int, 2int));
    reveal_strlit("progress_bar");
    assert(place("progress_bar"@) == (3int, 0int));
    reveal_strlit("spinner");
    assert(place("spinner"@) == (3int, 1int));
}

/// No component stands at two places of the sidebar.
pub proof fn sidebar_places_differ(c: int, i: int, d: int, j: int)
    requires
        sidebar(c, i) is Some,
        sidebar(c, i) == sidebar(d, j),
    ensures
        c == d && i == j,
{
    lemma_place(c, i);
    lemma_place(d, j);
}

/// An index of the size list stands for the size that is listed there, and one past it for none.
pub proof fn listed_size_is_selected(sizes: Seq<Seq<char>>, i: int)
    ensures
        0 <= i < size_list(sizes).len() ==> size_at(sizes, i) == Some(size_list(sizes)[i].1),
        i >= size_list(sizes).len() ==> size_at(sizes, i) is None,
        size_list(sizes).len() == sizes.len() + 1,
{
}

/// An index that is held within a list stands for an entry of it, and is kept where it did already.
pub proof fn held_index_is_within(index: int, len: int)
    requires
        len > 0,
    ensures
        0 <= within(index, len) < len,
        0 <= index < len ==> within(index, len) == index,
        index < 0 ==> within(index, len) == 0,
        index >= len ==> within(index, len) == len - 1,
{
}

/// The row of a size's property shows the value that the data hold for it, marked where it is shown as
/// overridden, at the property's place.
pub proof fn size_row_shows_held_value(
    panel: PanelModel,
    data: ThemeData,
    theme_parent: Option<ThemeData>,
    component_parent: Option<ThemeData>,
    size: Seq<char>,
    i: int,
    v: Value,
)
    requires
        0 <= i < data.size_prop_defs.len(),
        textmap::at2(data.size_props, size, data.size_prop_defs[i].name) == Some(v),
    ensures
        ({
            let all = size_rows(panel, data.size_prop_defs, data, theme_parent, component_parent, size);
            &&& all.len() == data.size_prop_defs.len()
            &&& all[i].is_overridden == fallback::shown_size_overridden(
                data,
                theme_parent,
                component_parent,
                size,
                data.size_prop_defs[i].name,
                v,
            )
            &&& v matches Value::Ref(key) ==> all[i].token == Some(key)
            &&& !(v is Ref) ==> all[i].token is None
            &&& v matches Value::Color(c) ==> all[i].color_value == c
            &&& v matches Value::Float(f) ==> all[i].float_value == f
            &&& v matches Value::Int(n) ==> all[i].int_value == n
            &&& v matches Value::Text(s) ==> all[i].string_value == s
            &&& v matches Value::Bool(b) ==> all[i].bool_value == b
        }),
{
}

proof fn lemma_variant_rows(
    panel: PanelModel,
    data: ThemeData,
    theme_parent: Option<ThemeData>,
    component_parent: Option<ThemeData>,
    variant: Seq<char>,
    states: Seq<Seq<char>>,
    k: int,
    i: int,
)
    requires
        0 <= k < states.len(),
        0 <= i < data.variant_prop_defs.len(),
        data.variant_props.dom().contains(variant),
        forall|j: int| 0 <= j < states.len() ==> data.variant_props[variant].dom().contains(#[trigger] states[j]),
    ensures
        ({
            let props = data.variant_prop_defs;
            let all = variant_rows(panel, props, states, data, theme_parent, component_parent, variant);
            &&& all.len() == states.len() * props.len()
            &&& 0 <= k * props.len() + i < all.len()
            &&& all[k * props.len() + i] == rows(
                panel,
                props,
                state_values(data, variant, states[k]),
                variant_mark(data, theme_parent, component_parent, variant, states[k]),
            )[i]
        }),
    decreases states.len(),
{
    let props = data.variant_prop_defs;
    let n = props.len() as int;
    let front = states.drop_last();
    let before = variant_rows(panel, props, front, data, theme_parent, component_parent, variant);
    let last = rows(
        panel,
        props,
        state_values(data, variant, states.last()),
        variant_mark(data, theme_parent, component_parent, variant, states.last()),
    );
    let all = variant_rows(panel, props, states, data, theme_parent, component_parent, variant);
    assert(data.variant_props[variant].dom().contains(states[states.len() - 1]));
    assert(last.len() == n);
    assert forall|j: int| 0 <= j < front.len() implies data.variant_props[variant].dom().contains(
        #[trigger] front[j],
    ) by {
        assert(front[j] == states[j]);
    }
    if front.len() > 0 {
        let m = if k < front.len() {
            k
        } else {
            0
        };
        lemma_variant_rows(panel, data, theme_parent, component_parent, variant, front, m, i);
    } else {
        assert(before.len() == 0);
        assert(0 * n == 0) by (nonlinear_arith);
    }
    let s = states.len() as int;
    assert(s * n == (s - 1) * n + n) by (nonlinear_arith);
    if k < front.len() {
        assert(front[k] == states[k]);
        assert(all[k * n + i] == before[k * n + i]);
    } else {
        assert(k == s - 1);
        assert(all[k * n + i] == last[i]);
    }
    assert(0 <= k * n) by (nonlinear_arith)
        requires
            0 <= k,
            0 <= n,
    ;
    assert(k * n + i < s * n) by (nonlinear_arith)
        requires
            0 <= k < s,
            0 <= i < n,
    ;
}

/// The rows of a variant go state by state, and in a state property by property: the row of a state and a
/// property shows the value that the data hold there, marked where it is shown as overridden.
pub proof fn variant_row_shows_held_value(
    panel: PanelModel,
    data: ThemeData,
    theme_parent: Option<ThemeData>,
    component_parent: Option<ThemeData>,
    variant: Seq<char>,
    states: Seq<Seq<char>>,
    k: int,
    i: int,
    v: Value,
)
    requires
        0 <= k < states.len(),
        0 <= i < data.variant_prop_defs.len(),
        data.variant_props.dom().contains(variant),
        forall|j: int| 0 <= j < states.len() ==> data.variant_props[variant].dom().contains(#[trigger] states[j]),
        storage::variant_value(data.variant_props, variant, states[k], data.variant_prop_defs[i].name) == Some(v),
    ensures
        ({
            let n = data.variant_prop_defs.len();
            let all = variant_rows(
                panel,
                data.variant_prop_defs,
                states,
                data,
                theme_parent,
                component_parent,
                variant,
            );
            let shown = all[k * n + i];
            &&& all.len() == states.len() * n
            &&& shown.is_overridden == fallback::shown_overridden(
                data,
                theme_parent,
                component_parent,
                variant,
                states[k],
                data.variant_prop_defs[i].name,
                v,
            )
            &&& v matches Value::Ref(key) ==> shown.token == Some(key)
            &&& !(v is Ref) ==> shown.token is None
            &&& v matches Value::Color(c) ==> shown.color_value == c
            &&& v matches Value::Float(f) ==> shown.float_value == f
            &&& v matches Value::Int(x) ==> shown.int_value == x
            &&& v matches Value::Text(s) ==> shown.string_value == s
            &&& v matches Value::Bool(b) ==> shown.bool_value == b
        }),
{
    lemma_variant_rows(panel, data, theme_parent, component_parent, variant, states, k, i);
}

/// What is offered to a row is what its type can refer to.
pub proof fn offered_tokens_fit(prop_type: Seq<char>)
    ensures
        offered(prop_type) is Color <==> prop_type == "color"@,
        offered(prop_type) is Nothing <==> prop_type == "bool"@,
        offered(prop_type) is Font <==> prop_type == "string"@,
{
    reveal_strlit("color");
    reveal_strlit("bool");
    reveal_strlit("string");
    assert("color"@.len() == 5 && "bool"@.len() == 4 && "string"@.len() == 6);
}

/// A listed property goes by its own name and type, and by its own range where it has one.
pub proof fn listed_property_is_its_own(p: PropModel)
    ensures
        listed_def(p).name == p.name,
        listed_def(p).prop_type == p.prop_type,
        p.display_name matches Some(n) ==> listed_def(p).display_name == n,
        p.display_name is None ==> listed_def(p).display_name == p.name,
        p.min matches Some(x) ==> listed_def(p).min_value == x,
        p.max matches Some(x) ==> listed_def(p).max_value == x,
        p.step matches Some(x) ==> listed_def(p).step == x,
{
}

/// The panels of a component stand at entries of its lists, show the rows of the selected variant and of
/// the selected size, and are there where the component has a definition and data.
pub proof fn panel_shows_selection(
    panel: PanelModel,
    key: Seq<char>,
    plugins: Map<Seq<char>, PluginModel>,
    themes: Map<Seq<char>, ThemeData>,
    parent_themes: Option<Map<Seq<char>, ThemeData>>,
    selection: Selection,
)
    ensures
        loaded_panel(panel, key, plugins, themes, parent_themes, selection) is Some <==> plugins.dom().contains(key)
            && themes.dom().contains(key),
        loaded_panel(panel, key, plugins, themes, parent_themes, selection) matches Some(m) ==> {
            let plugin = plugins[key];
            let theme_parent = match parent_themes {
                Some(t) => if t.dom().contains(key) {
                    Some(t[key])
                } else {
                    None
                },
                None => None,
            };
            let component_parent = fallback::parent_data(plugins, themes, themes[key]);
            &&& plugin.variants.len() > 0 ==> 0 <= m.variant_index < plugin.variants.len() && m.variant_values
                == variant_rows(
                panel,
                plugin.variant_props,
                plugin.states,
                themes[key],
                theme_parent,
                component_parent,
                plugin.variants[m.variant_index],
            )
            &&& plugin.variants.len() == 0 ==> m.variant_values.len() == 0
            &&& 0 <= m.size_index <= plugin.sizes.len()
            &&& m.size_index > 0 ==> m.size_values == size_rows(
                panel,
                plugin.size_props,
                themes[key],
                theme_parent,
                component_parent,
                plugin.sizes[m.size_index - 1],
            )
            &&& m.size_index == 0 ==> m.size_values == size_rows(
                panel,
                plugin.size_props,
                themes[key],
                theme_parent,
                component_parent,
                DEFAULT_SIZE_KEY@,
            )
            &&& m.has_parent <==> themes[key].parent_key is Some
            &&& 0 <= selection.0 < plugin.variants.len() ==> m.variant_index == selection.0
            &&& 0 <= selection.1 <= plugin.sizes.len() ==> m.size_index == selection.1
            &&& 0 <= selection.2 < plugin.states.len() ==> m.state_index == selection.2
        },
{
}

/// A preview shows a value as it is, and what has no value as transparent, zero, false and empty.
pub proof fn preview_shows_value(panel: PanelModel, v: Value)
    ensures
        v matches Value::Color(c) ==> preview(panel, Some(v)).color_value == c,
        v matches Value::Float(f) ==> preview(panel, Some(v)).float_value == f,
        v matches Value::Int(n) ==> preview(panel, Some(v)).int_value == n,
        v matches Value::Bool(b) ==> preview(panel, Some(v)).bool_value == b,
        v matches Value::Text(s) ==> preview(panel, Some(v)).string_value == s,
        v matches Value::Ref(key) ==> text::has_prefix(key, "color."@) && panel.color(key) is Some ==> preview(
            panel,
            Some(v),
        ).color_value == panel.color(key)->Some_0,
        preview(panel, None).color_value.a == 0,
        !preview(panel, None).bool_value,
        preview(panel, None).string_value.len() == 0,
        preview(panel, None).int_value == 0,
{
}

} // verus!
