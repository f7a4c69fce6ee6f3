//! The theme data of components in theme files.

use vstd::prelude::*;
use crate::color::{self, color_hex, parse_hex_color};
use crate::fallback::{self, component_parent_data, property_value_matches, variant_prop_fallback_value};
use crate::json::{self, fill, json_float, json_int, Json, JsonModel, JsonObject, ObjectModel};
use crate::schema::{self, PluginDefinition, PluginModel, PropDefinition, PropModel};
use crate::storage::{
    self, normalize_size_key, serialize_size_key, ComponentThemeData, PropertyValue, ThemeData,
    DEFAULT_SIZE_KEY,
};
use crate::text::{self, contains_text, owned, starts_with, text_eq};
use crate::textmap::{self, TextMap};
use crate::value::Value;

verus! {

// ---------------------------------------------------------------------------------------------
// Values
// ---------------------------------------------------------------------------------------------
/// How a value is written.
pub open spec fn value_json(v: Value) -> JsonModel {
    match v {
        Value::Ref(t) => JsonModel::Text(t),
        Value::Color(c) => JsonModel::Text(color::hash_hex_of(c)),
        Value::Float(f) => json::float_json(f),
        Value::Int(n) => json::int_json(n),
        Value::Bool(b) => JsonModel::Bool(b),
        Value::Text(s) => JsonModel::Text(s),
    }
}

/// Writes a value.
pub fn property_value_to_json(value: &PropertyValue) -> (r: Json)
    ensures
        r@ == value_json(value@),
{
    match value {
        PropertyValue::Token(key) => Json::String(key.clone()),
        PropertyValue::Color(c) => Json::String(color_hex(*c)),
        PropertyValue::Float(number) => json_float(*number),
        PropertyValue::Int(number) => json_int(*number),
        PropertyValue::Bool(flag) => Json::Bool(*flag),
        PropertyValue::String(s) => Json::String(s.clone()),
    }
}

/// Whether a text names a token: it has a dot, and is no hex color.
pub open spec fn names_token(s: Seq<char>) -> bool {
    text::text_contains(s, "."@) && !text::has_prefix(s, "#"@)
}

fn is_token_name(s: &str) -> (r: bool)
    ensures
        r == names_token(s@),
{
    contains_text(s, ".") && !starts_with(s, "#")
}

/// The reference that a text is, where it names a token.
pub open spec fn token_in(j: JsonModel) -> Option<Value> {
    match j {
        JsonModel::Text(s) => if names_token(s) {
            Some(Value::Ref(s))
        } else {
            None
        },
        _ => None,
    }
}

/// The value that a file gives for a property of a type; `None` where it gives none of that type.
pub open spec fn json_value(j: JsonModel, prop_type: Seq<char>) -> Option<Value> {
    if prop_type == "color"@ {
        match j {
            JsonModel::Text(s) => if names_token(s) {
                Some(Value::Ref(s))
            } else {
                Some(Value::Color(color::color_or_missing(s)))
            },
            _ => None,
        }
    } else if prop_type == "int"@ {
        match j {
            JsonModel::Number(n) => Some(
                Value::Int(
                    match n.long {
                        Some(i) => i as i32,
                        None => n.int,
                    },
                ),
            ),
            _ => token_in(j),
        }
    } else if prop_type == "bool"@ {
        match j {
            JsonModel::Bool(b) => Some(Value::Bool(b)),
            _ => None,
        }
    } else if prop_type == "string"@ {
        match j {
            JsonModel::Text(s) => if text::text_contains(s, "."@) {
                Some(Value::Ref(s))
            } else {
                Some(Value::Text(s))
            },
            _ => None,
        }
    } else {
        match j {
            JsonModel::Number(n) => Some(Value::Float(n.single)),
            _ => token_in(j),
        }
    }
}

fn parse_token(value: &Json) -> (r: Option<PropertyValue>)
    ensures
        storage::found(r) == token_in(value@),
{
    match value {
        Json::String(s) => if is_token_name(s.as_str()) {
            Some(PropertyValue::Token(s.clone()))
        } else {
            None
        },
        _ => None,
    }
}

/// The value that a file gives for a property of a type.
pub fn property_value_from_json(value: &Json, prop_type: &str) -> (r: Option<PropertyValue>)
    ensures
        storage::found(r) == json_value(value@, prop_type@),
{
    if text_eq(prop_type, "color") {
        match value {
            Json::String(s) => if is_token_name(s.as_str()) {
                Some(PropertyValue::Token(s.clone()))
            } else {
                Some(PropertyValue::Color(parse_hex_color(s.as_str())))
            },
            _ => None,
        }
    } else if text_eq(prop_type, "int") {
        match value {
            Json::Number(n) => Some(
                PropertyValue::Int(
                    match n.long {
                        Some(i) =>
                            #[verifier::truncate]
                            (i as i32),
                        None => n.int,
                    },
                ),
            ),
            _ => parse_token(value),
        }
    } else if text_eq(prop_type, "bool") {
        match value {
            Json::Bool(b) => Some(PropertyValue::Bool(*b)),
            _ => None,
        }
    } else if text_eq(prop_type, "string") {
        match value {
            Json::String(s) => if contains_text(s.as_str(), ".") {
                Some(PropertyValue::Token(s.clone()))
            } else {
                Some(PropertyValue::String(s.clone()))
            },
            _ => None,
        }
    } else {
        match value {
            Json::Number(n) => Some(PropertyValue::Float(n.single)),
            _ => parse_token(value),
        }
    }
}

/// Whether a value is one of a property's type, and written as such.
pub open spec fn fits(v: Value, prop_type: Seq<char>) -> bool {
    match v {
        Value::Color(_) => prop_type == "color"@,
        Value::Int(_) => prop_type == "int"@,
        Value::Bool(_) => prop_type == "bool"@,
        Value::Text(s) => prop_type == "string"@ && !text::text_contains(s, "."@),
        Value::Float(f) => f.finite() && prop_type != "color"@ && prop_type != "int"@ && prop_type != "bool"@
            && prop_type != "string"@,
        Value::Ref(s) => prop_type != "bool"@ && (names_token(s) || (prop_type == "string"@
            && text::text_contains(s, "."@))),
    }
}

/// A value that fits a property's type is read as it was written.
pub proof fn written_value_is_read(v: Value, prop_type: Seq<char>)
    requires
        fits(v, prop_type),
    ensures
        json_value(value_json(v), prop_type) == Some(v),
{
    reveal_strlit("color");
    reveal_strlit("int");
    reveal_strlit("bool");
    reveal_strlit("string");
    assert("color"@.len() == 5 && "int"@.len() == 3 && "bool"@.len() == 4 && "string"@.len() == 6);
    match v {
        Value::Color(c) => {
            color::loose_hex_round_trip(c);
            reveal_strlit("#");
            let s = color::hash_hex_of(c);
            assert(s.take(1) =~= "#"@);
        },
        Value::Int(n) => {
            assert((n as i64) as i32 == n);
        },
        _ => {},
    }
}

// ---------------------------------------------------------------------------------------------
// Writing everything
// ---------------------------------------------------------------------------------------------
/// What is written of properties.
pub open spec fn props_json(props: Map<Seq<char>, Value>) -> ObjectModel {
    json::chosen(props, |k: Seq<char>, v: Value| Some(value_json(v)))
}

/// What is written of a variant.
pub open spec fn states_json(states: Map<Seq<char>, Map<Seq<char>, Value>>) -> ObjectModel {
    json::chosen(
        states,
        |k: Seq<char>, props: Map<Seq<char>, Value>| Some(JsonModel::Object(props_json(props))),
    )
}

/// What is written of sizes: the Common one has another name in files.
pub open spec fn sizes_in_file(keys: Seq<Seq<char>>, f: spec_fn(Seq<char>) -> Option<JsonModel>) -> ObjectModel
    decreases keys.len(),
{
    if keys.len() == 0 {
        Map::empty()
    } else {
        let before = sizes_in_file(keys.drop_last(), f);
        match f(keys.last()) {
            Some(j) => before.insert(storage::size_key_in_file(keys.last()), j),
            None => before,
        }
    }
}

/// What is written of a component.
pub open spec fn component_json(d: ThemeData) -> ObjectModel {
    Map::<Seq<char>, JsonModel>::empty().insert(
        "variantProps"@,
        JsonModel::Object(
            json::chosen(
                d.variant_props,
                |k: Seq<char>, states: Map<Seq<char>, Map<Seq<char>, Value>>|
                    Some(JsonModel::Object(states_json(states))),
            ),
        ),
    ).insert(
        "sizeProps"@,
        JsonModel::Object(
            sizes_in_file(
                textmap::sorted_keys(d.size_props),
                |k: Seq<char>| Some(JsonModel::Object(props_json(d.size_props[k]))),
            ),
        ),
    )
}

fn write_props(props: &TextMap<PropertyValue>) -> (r: JsonObject)
    ensures
        r@ == props_json(props@),
{
    JsonObject::from_map(
        props,
        |k: &String, v: &PropertyValue| -> (j: Option<Json>)
            ensures
                json::owned_view(j) == Some(value_json(v@))
            { Some(property_value_to_json(v)) },
        Ghost(|k: Seq<char>, v: Value| Some(value_json(v))),
    )
}

fn write_states(states: &TextMap<TextMap<PropertyValue>>) -> (r: JsonObject)
    ensures
        r@ == states_json(states@),
{
    JsonObject::from_map(
        states,
        |k: &String, props: &TextMap<PropertyValue>| -> (j: Option<Json>)
            ensures
                json::owned_view(j) == Some(JsonModel::Object(props_json(props@)))
            { Some(Json::Object(write_props(props))) },
        Ghost(|k: Seq<char>, props: Map<Seq<char>, Value>| Some(JsonModel::Object(props_json(props)))),
    )
}

/// Writes all of a component.
pub fn export_component_theme_json(data: &ComponentThemeData) -> (r: Json)
    ensures
        r@ == JsonModel::Object(component_json(data@)),
{
    let variants = JsonObject::from_map(
        &data.variant_props,
        |k: &String, states: &TextMap<TextMap<PropertyValue>>| -> (j: Option<Json>)
            ensures
                json::owned_view(j) == Some(JsonModel::Object(states_json(states@)))
            { Some(Json::Object(write_states(states))) },
        Ghost(
            |k: Seq<char>, states: Map<Seq<char>, Map<Seq<char>, Value>>|
                Some(JsonModel::Object(states_json(states))),
        ),
    );
    let mut sizes = JsonObject::new();
    let n: usize = data.size_props.len();
    let ghost keys = textmap::sorted_keys(data@.size_props);
    let ghost f = |k: Seq<char>| Some(JsonModel::Object(props_json(data@.size_props[k])));
    for i in 0..n
        invariant
            keys == textmap::sorted_keys(data.size_props@),
            n == keys.len(),
            f == |k: Seq<char>| Some(JsonModel::Object(props_json(data@.size_props[k]))),
            sizes@ == sizes_in_file(keys.take(i as int), f),
    {
        proof {
            assert(keys.take(i + 1).drop_last() =~= keys.take(i as int));
            assert(keys.take(i + 1).last() == keys[i as int]);
        }
        let key = serialize_size_key(data.size_props.key_at(i).as_str());
        sizes.insert(owned(key), Json::Object(write_props(data.size_props.value_at(i))));
    }
    assert(keys.take(n as int) =~= keys);
    let mut out = JsonObject::new();
    out.insert(owned("variantProps"), Json::Object(variants));
    out.insert(owned("sizeProps"), Json::Object(sizes));
    Json::Object(out)
}

// ---------------------------------------------------------------------------------------------
// Writing what is not inherited
// ---------------------------------------------------------------------------------------------
/// Whether a variant's value is written: it does not match what it falls back to, or it is marked
/// and there is nothing to fall back to.
pub open spec fn writes_variant(
    d: ThemeData,
    parent: Option<ThemeData>,
    component_parent: Option<ThemeData>,
    variant: Seq<char>,
    state: Seq<char>,
    prop: Seq<char>,
    v: Value,
) -> bool {
    match fallback::fallback(d, parent, component_parent, variant, state, prop) {
        Some(f) => !fallback::values_match(v, f),
        None => storage::variant_flagged(d.variant_overrides, variant, state, prop),
    }
}

/// What the Common value of a property is compared with: the parent component's, or else the parent
/// theme's.
pub open spec fn base_to_match(
    parent: Option<ThemeData>,
    component_parent: Option<ThemeData>,
    prop: Seq<char>,
) -> Option<Value> {
    schema::or_else(
        fallback::parent_base(component_parent, prop),
        fallback::parent_base(parent, prop),
    )
}

/// Whether a size's value is written: a Common one where it does not match the parents', any other
/// where it is marked.
pub open spec fn writes_size(
    d: ThemeData,
    parent: Option<ThemeData>,
    component_parent: Option<ThemeData>,
    size: Seq<char>,
    prop: Seq<char>,
    v: Value,
) -> bool {
    let base = base_to_match(parent, component_parent, prop);
    if size == DEFAULT_SIZE_KEY@ && base is Some {
        !fallback::values_match(v, base->Some_0)
    } else {
        storage::size_flagged(d.size_overrides, size, prop)
    }
}

/// What is written of the properties of a variant in a state.
pub open spec fn props_patch(
    d: ThemeData,
    parent: Option<ThemeData>,
    component_parent: Option<ThemeData>,
    variant: Seq<char>,
    state: Seq<char>,
    props: Map<Seq<char>, Value>,
) -> ObjectModel {
    json::chosen(
        props,
        |prop: Seq<char>, v: Value|
            if writes_variant(d, parent, component_parent, variant, state, prop, v) {
                Some(value_json(v))
            } else {
                None
            },
    )
}

/// What is written of a variant.
pub open spec fn states_patch(
    d: ThemeData,
    parent: Option<ThemeData>,
    component_parent: Option<ThemeData>,
    variant: Seq<char>,
    states: Map<Seq<char>, Map<Seq<char>, Value>>,
) -> ObjectModel {
    json::chosen(
        states,
        |state: Seq<char>, props: Map<Seq<char>, Value>|
            json::filled(props_patch(d, parent, component_parent, variant, state, props)),
    )
}

/// What is written of the variants.
pub open spec fn variants_patch(d: ThemeData, parent: Option<ThemeData>, component_parent: Option<ThemeData>) -> ObjectModel {
    json::chosen(
        d.variant_props,
        |variant: Seq<char>, states: Map<Seq<char>, Map<Seq<char>, Value>>|
            json::filled(states_patch(d, parent, component_parent, variant, states)),
    )
}

/// What is written of a size.
pub open spec fn size_patch(
    d: ThemeData,
    parent: Option<ThemeData>,
    component_parent: Option<ThemeData>,
    size: Seq<char>,
) -> ObjectModel {
    json::chosen(
        d.size_props[size],
        |prop: Seq<char>, v: Value|
            if writes_size(d, parent, component_parent, size, prop, v) {
                Some(value_json(v))
            } else {
                None
            },
    )
}

/// What is written of the sizes.
pub open spec fn sizes_patch(d: ThemeData, parent: Option<ThemeData>, component_parent: Option<ThemeData>) -> ObjectModel {
    sizes_in_file(
        textmap::sorted_keys(d.size_props),
        |size: Seq<char>| json::filled(size_patch(d, parent, component_parent, size)),
    )
}

/// An object with a key, where there is a value for it.
pub open spec fn with_key(m: ObjectModel, key: Seq<char>, v: Option<JsonModel>) -> ObjectModel {
    match v {
        Some(j) => m.insert(key, j),
        None => m,
    }
}

fn insert_some(m: &mut JsonObject, key: &str, v: Option<Json>)
    ensures
        final(m)@ == with_key(old(m)@, key@, json::owned_view(v)),
{
    if let Some(j) = v {
        m.insert(owned(key), j);
    }
}

/// What is written of a component against its parents: what is not inherited.
pub open spec fn component_patch(d: ThemeData, parent: Option<ThemeData>, component_parent: Option<ThemeData>) -> ObjectModel {
    with_key(
        with_key(
            Map::empty(),
            "variantProps"@,
            json::filled(variants_patch(d, parent, component_parent)),
        ),
        "sizeProps"@,
        json::filled(sizes_patch(d, parent, component_parent)),
    )
}

fn is_variant_written(
    data: &ComponentThemeData,
    parent: Option<&ComponentThemeData>,
    component_parent: Option<&ComponentThemeData>,
    variant: &str,
    state: &str,
    prop_name: &str,
    value: &PropertyValue,
) -> (r: bool)
    ensures
        r == writes_variant(
            data@,
            schema::option_view(parent),
            schema::option_view(component_parent),
            variant@,
            state@,
            prop_name@,
            value@,
        ),
{
    match variant_prop_fallback_value(data, parent, component_parent, variant, state, prop_name) {
        Some(f) => !property_value_matches(value, &f),
        None => data.variant_prop_is_overridden(variant, state, prop_name),
    }
}

fn is_size_written(
    data: &ComponentThemeData,
    parent: Option<&ComponentThemeData>,
    component_parent: Option<&ComponentThemeData>,
    size: &str,
    prop_name: &str,
    value: &PropertyValue,
) -> (r: bool)
    ensures
        r == writes_size(
            data@,
            schema::option_view(parent),
            schema::option_view(component_parent),
            size@,
            prop_name@,
            value@,
        ),
{
    if text_eq(size, DEFAULT_SIZE_KEY) {
        let from_component = match component_parent {
            Some(d) => d.size_props.get2(DEFAULT_SIZE_KEY, prop_name),
            None => None,
        };
        let base = match from_component {
            Some(v) => Some(v),
            None => match parent {
                Some(d) => d.size_props.get2(DEFAULT_SIZE_KEY, prop_name),
                None => None,
            },
        };
        if let Some(b) = base {
            return !property_value_matches(value, b);
        }
    }
    data.size_prop_is_overridden(size, prop_name)
}

fn write_props_patch(
    data: &ComponentThemeData,
    parent: Option<&ComponentThemeData>,
    component_parent: Option<&ComponentThemeData>,
    variant: &str,
    state: &str,
    props: &TextMap<PropertyValue>,
) -> (r: JsonObject)
    ensures
        r@ == props_patch(
            data@,
            schema::option_view(parent),
            schema::option_view(component_parent),
            variant@,
            state@,
            props@,
        ),
{
    let ghost p = schema::option_view(parent);
    let ghost c = schema::option_view(component_parent);
    let r = JsonObject::from_map(
        props,
        |prop: &String, v: &PropertyValue| -> (j: Option<Json>)
            ensures
                json::owned_view(j) == (if writes_variant(data@, p, c, variant@, state@, prop@, v@) {
                    Some(value_json(v@))
                } else {
                    None
                })
            {
                if is_variant_written(data, parent, component_parent, variant, state, prop.as_str(), v) {
                    Some(property_value_to_json(v))
                } else {
                    None
                }
            },
        Ghost(
            |prop: Seq<char>, v: Value|
                if writes_variant(data@, p, c, variant@, state@, prop, v) {
                    Some(value_json(v))
                } else {
                    None
                },
        ),
    );
    assert(r@ =~= props_patch(data@, p, c, variant@, state@, props@));
    r
}

fn write_states_patch(
    data: &ComponentThemeData,
    parent: Option<&ComponentThemeData>,
    component_parent: Option<&ComponentThemeData>,
    variant: &str,
    states: &TextMap<TextMap<PropertyValue>>,
) -> (r: JsonObject)
    ensures
        r@ == states_patch(
            data@,
            schema::option_view(parent),
            schema::option_view(component_parent),
            variant@,
            states@,
        ),
{
    let ghost p = schema::option_view(parent);
    let ghost c = schema::option_view(component_parent);
    let r = JsonObject::from_map(
        states,
        |state: &String, props: &TextMap<PropertyValue>| -> (j: Option<Json>)
            ensures
                json::owned_view(j) == json::filled(props_patch(data@, p, c, variant@, state@, props@))
            { fill(write_props_patch(data, parent, component_parent, variant, state.as_str(), props)) },
        Ghost(
            |state: Seq<char>, props: Map<Seq<char>, Value>|
                json::filled(props_patch(data@, p, c, variant@, state, props)),
        ),
    );
    assert(r@ =~= states_patch(data@, p, c, variant@, states@));
    r
}

fn write_size_patch(
    data: &ComponentThemeData,
    parent: Option<&ComponentThemeData>,
    component_parent: Option<&ComponentThemeData>,
    size: &str,
    props: &TextMap<PropertyValue>,
) -> (r: JsonObject)
    requires
        props@ == data@.size_props[size@],
    ensures
        r@ == size_patch(
            data@,
            schema::option_view(parent),
            schema::option_view(component_parent),
            size@,
        ),
{
    let ghost p = schema::option_view(parent);
    let ghost c = schema::option_view(component_parent);
    let r = JsonObject::from_map(
        props,
        |prop: &String, v: &PropertyValue| -> (j: Option<Json>)
            ensures
                json::owned_view(j) == (if writes_size(data@, p, c, size@, prop@, v@) {
                    Some(value_json(v@))
                } else {
                    None
                })
            {
                if is_size_written(data, parent, component_parent, size, prop.as_str(), v) {
                    Some(property_value_to_json(v))
                } else {
                    None
                }
            },
        Ghost(
            |prop: Seq<char>, v: Value|
                if writes_size(data@, p, c, size@, prop, v) {
                    Some(value_json(v))
                } else {
                    None
                },
        ),
    );
    assert(r@ =~= size_patch(data@, p, c, size@));
    r
}

/// Writes what a component does not inherit; `None` where that is nothing.
pub fn export_component_theme_json_patch(
    data: &ComponentThemeData,
    parent: Option<&ComponentThemeData>,
    component_parent: Option<&ComponentThemeData>,
) -> (r: Option<Json>)
    ensures
        json::owned_view(r) == json::filled(
            component_patch(data@, schema::option_view(parent), schema::option_view(component_parent)),
        ),
{
    let ghost p = schema::option_view(parent);
    let ghost c = schema::option_view(component_parent);
    let variants = JsonObject::from_map(
        &data.variant_props,
        |variant: &String, states: &TextMap<TextMap<PropertyValue>>| -> (j: Option<Json>)
            ensures
                json::owned_view(j) == json::filled(states_patch(data@, p, c, variant@, states@))
            { fill(write_states_patch(data, parent, component_parent, variant.as_str(), states)) },
        Ghost(
            |variant: Seq<char>, states: Map<Seq<char>, Map<Seq<char>, Value>>|
                json::filled(states_patch(data@, p, c, variant, states)),
        ),
    );
    assert(variants@ =~= variants_patch(data@, p, c));
    let mut sizes = JsonObject::new();
    let n: usize = data.size_props.len();
    let ghost keys = textmap::sorted_keys(data@.size_props);
    let ghost f = |size: Seq<char>| json::filled(size_patch(data@, p, c, size));
    for i in 0..n
        invariant
            keys == textmap::sorted_keys(data.size_props@),
            n == keys.len(),
            p == schema::option_view(parent),
            c == schema::option_view(component_parent),
            f == |size: Seq<char>| json::filled(size_patch(data@, p, c, size)),
            sizes@ == sizes_in_file(keys.take(i as int), f),
    {
        proof {
            assert(keys.take(i + 1).drop_last() =~= keys.take(i as int));
            assert(keys.take(i + 1).last() == keys[i as int]);
        }
        let key = data.size_props.key_at(i).as_str();
        let props = write_size_patch(data, parent, component_parent, key, data.size_props.value_at(i));
        insert_some(&mut sizes, serialize_size_key(key), fill(props));
    }
    assert(keys.take(n as int) =~= keys);
    let mut out = JsonObject::new();
    insert_some(&mut out, "variantProps", fill(variants));
    insert_some(&mut out, "sizeProps", fill(sizes));
    fill(out)
}

/// What is written of the components of a theme against those of its parent.
pub open spec fn components_patch(
    plugins: Map<Seq<char>, PluginModel>,
    themes: Map<Seq<char>, ThemeData>,
    parent: Option<Map<Seq<char>, ThemeData>>,
) -> ObjectModel {
    json::chosen(
        themes,
        |key: Seq<char>, d: ThemeData|
            json::filled(
                component_patch(d, parent_component(parent, key), fallback::parent_data(plugins, themes, d)),
            ),
    )
}

/// The data of a component in the parent theme.
pub open spec fn parent_component(parent: Option<Map<Seq<char>, ThemeData>>, key: Seq<char>) -> Option<ThemeData> {
    match parent {
        Some(p) => schema::entry(p, key),
        None => None,
    }
}

/// Writes what the components of a theme do not inherit.
pub fn export_components_json_patch(
    component_themes: &TextMap<ComponentThemeData>,
    parent: Option<&TextMap<ComponentThemeData>>,
    component_plugins: &TextMap<PluginDefinition>,
) -> (r: Option<Json>)
    ensures
        json::owned_view(r) == json::filled(
            components_patch(component_plugins@, component_themes@, schema::option_view(parent)),
        ),
{
    let ghost p = schema::option_view(parent);
    let components = JsonObject::from_map(
        component_themes,
        |key: &String, d: &ComponentThemeData| -> (j: Option<Json>)
            ensures
                json::owned_view(j) == json::filled(
                    component_patch(
                        d@,
                        parent_component(p, key@),
                        fallback::parent_data(component_plugins@, component_themes@, d@),
                    ),
                )
            {
                let inherited = match parent {
                    Some(themes) => themes.get(key.as_str()),
                    None => None,
                };
                export_component_theme_json_patch(
                    d,
                    inherited,
                    component_parent_data(component_plugins, component_themes, d),
                )
            },
        Ghost(
            |key: Seq<char>, d: ThemeData|
                json::filled(
                    component_patch(
                        d,
                        parent_component(p, key),
                        fallback::parent_data(component_plugins@, component_themes@, d),
                    ),
                ),
        ),
    );
    assert(components@ =~= components_patch(component_plugins@, component_themes@, p));
    fill(components)
}

// ---------------------------------------------------------------------------------------------
// Reading
// ---------------------------------------------------------------------------------------------
/// What a file gives for a property, where it is one of the declared ones.
pub open spec fn declared_value(defs: Seq<PropModel>, prop: Seq<char>, j: JsonModel) -> Option<Value> {
    match storage::last_prop(defs, prop) {
        Some(def) => json_value(j, def.prop_type),
        None => None,
    }
}

fn read_declared(defs: &Vec<PropDefinition>, prop: &str, value: &Json) -> (r: Option<PropertyValue>)
    ensures
        storage::found(r) == declared_value(textmap::views(defs@), prop@, value@),
{
    let ghost all = textmap::views(defs@);
    let mut i: usize = defs.len();
    assert(all.take(i as int) =~= all);
    while i > 0
        invariant
            i <= defs@.len(),
            all == textmap::views(defs@),
            storage::last_prop(all, prop@) == storage::last_prop(all.take(i as int), prop@),
        decreases i,
    {
        proof {
            assert(all.take(i as int).drop_last() =~= all.take(i - 1));
            assert(all.take(i as int).last() == all[i - 1]);
        }
        if text_eq(defs[i - 1].name.as_str(), prop) {
            return property_value_from_json(value, defs[i - 1].prop_type.as_str());
        }
        i = i - 1;
    }
    None
}

/// The data with the properties of a variant in a state that a file gives.
pub open spec fn props_read(
    d: ThemeData,
    defs: Seq<PropModel>,
    variant: Seq<char>,
    state: Seq<char>,
    o: ObjectModel,
    keys: Seq<Seq<char>>,
) -> ThemeData
    decreases keys.len(),
{
    if keys.len() == 0 {
        d
    } else {
        let before = props_read(d, defs, variant, state, o, keys.drop_last());
        match declared_value(defs, keys.last(), o[keys.last()]) {
            Some(v) => before.variant_set(variant, state, keys.last(), v),
            None => before,
        }
    }
}

/// The data with the states of a variant that a file gives. States that the variant does not have,
/// and what is no object, are passed over.
pub open spec fn states_read(
    d: ThemeData,
    defs: Seq<PropModel>,
    variant: Seq<char>,
    o: ObjectModel,
    keys: Seq<Seq<char>>,
) -> ThemeData
    decreases keys.len(),
{
    if keys.len() == 0 {
        d
    } else {
        let before = states_read(d, defs, variant, o, keys.drop_last());
        match json::object_of(Some(o[keys.last()])) {
            Some(props) => if before.variant_props.dom().contains(variant)
                && before.variant_props[variant].dom().contains(keys.last()) {
                props_read(before, defs, variant, keys.last(), props, textmap::sorted_keys(props))
            } else {
                before
            },
            None => before,
        }
    }
}

/// The data with the variants that a file gives.
pub open spec fn variants_read(d: ThemeData, defs: Seq<PropModel>, o: ObjectModel, keys: Seq<Seq<char>>) -> ThemeData
    decreases keys.len(),
{
    if keys.len() == 0 {
        d
    } else {
        let before = variants_read(d, defs, o, keys.drop_last());
        match json::object_of(Some(o[keys.last()])) {
            Some(states) => states_read(before, defs, keys.last(), states, textmap::sorted_keys(states)),
            None => before,
        }
    }
}

/// The data with the properties of a size that a file gives.
pub open spec fn size_props_read(
    d: ThemeData,
    defs: Seq<PropModel>,
    size: Seq<char>,
    o: ObjectModel,
    keys: Seq<Seq<char>>,
) -> ThemeData
    decreases keys.len(),
{
    if keys.len() == 0 {
        d
    } else {
        let before = size_props_read(d, defs, size, o, keys.drop_last());
        match declared_value(defs, keys.last(), o[keys.last()]) {
            Some(v) => before.size_imported(size, keys.last(), v),
            None => before,
        }
    }
}

/// The data with the sizes that a file gives. Sizes that the component does not have, and what is no
/// object, are passed over.
pub open spec fn sizes_read(d: ThemeData, defs: Seq<PropModel>, o: ObjectModel, keys: Seq<Seq<char>>) -> ThemeData
    decreases keys.len(),
{
    if keys.len() == 0 {
        d
    } else {
        let before = sizes_read(d, defs, o, keys.drop_last());
        let size = storage::size_key_in_memory(keys.last());
        match json::object_of(Some(o[keys.last()])) {
            Some(props) => if before.size_props.dom().contains(size) {
                size_props_read(before, defs, size, props, textmap::sorted_keys(props))
            } else {
                before
            },
            None => before,
        }
    }
}

/// The data with what a file gives.
pub open spec fn component_read(d: ThemeData, plugin: PluginModel, j: JsonModel) -> ThemeData {
    let d = match json::object_of(json::at(j, "variantProps"@)) {
        Some(o) => variants_read(d, plugin.variant_props, o, textmap::sorted_keys(o)),
        None => d,
    };
    match json::object_of(json::at(j, "sizeProps"@)) {
        Some(o) => sizes_read(d, plugin.size_props, o, textmap::sorted_keys(o)),
        None => d,
    }
}

fn read_props(
    data: &mut ComponentThemeData,
    defs: &Vec<PropDefinition>,
    variant: &str,
    state: &str,
    o: &JsonObject,
)
    ensures
        final(data)@ == props_read(
            old(data)@,
            textmap::views(defs@),
            variant@,
            state@,
            o@,
            textmap::sorted_keys(o@),
        ),
{
    let n: usize = o.len();
    let ghost keys = textmap::sorted_keys(o@);
    let ghost start = data@;
    for i in 0..n
        invariant
            keys == textmap::sorted_keys(o@),
            n == keys.len(),
            data@ == props_read(start, textmap::views(defs@), variant@, state@, o@, keys.take(i as int)),
    {
        proof {
            assert(keys.take(i + 1).drop_last() =~= keys.take(i as int));
            assert(keys.take(i + 1).last() == keys[i as int]);
        }
        let key = o.key_at(i);
        if let Some(v) = read_declared(defs, key.as_str(), o.value_at(i)) {
            data.set_variant_import_override(variant, state, key.as_str(), v);
        }
    }
    assert(keys.take(n as int) =~= keys);
}

fn read_states(data: &mut ComponentThemeData, defs: &Vec<PropDefinition>, variant: &str, o: &JsonObject)
    ensures
        final(data)@ == states_read(
            old(data)@,
            textmap::views(defs@),
            variant@,
            o@,
            textmap::sorted_keys(o@),
        ),
{
    let n: usize = o.len();
    let ghost keys = textmap::sorted_keys(o@);
    let ghost start = data@;
    for i in 0..n
        invariant
            keys == textmap::sorted_keys(o@),
            n == keys.len(),
            data@ == states_read(start, textmap::views(defs@), variant@, o@, keys.take(i as int)),
    {
        proof {
            assert(keys.take(i + 1).drop_last() =~= keys.take(i as int));
            assert(keys.take(i + 1).last() == keys[i as int]);
        }
        let state = o.key_at(i);
        if let Json::Object(props) = o.value_at(i) {
            if data.variant_props.get2(variant, state.as_str()).is_some() {
                read_props(data, defs, variant, state.as_str(), props);
            }
        }
    }
    assert(keys.take(n as int) =~= keys);
}

proof fn lemma_missing_variant(
    d: ThemeData,
    defs: Seq<PropModel>,
    variant: Seq<char>,
    o: ObjectModel,
    keys: Seq<Seq<char>>,
)
    requires
        !d.variant_props.dom().contains(variant),
    ensures
        states_read(d, defs, variant, o, keys) == d,
    decreases keys.len(),
{
    if keys.len() > 0 {
        lemma_missing_variant(d, defs, variant, o, keys.drop_last());
    }
}

fn read_variants(data: &mut ComponentThemeData, defs: &Vec<PropDefinition>, o: &JsonObject)
    ensures
        final(data)@ == variants_read(
            old(data)@,
            textmap::views(defs@),
            o@,
            textmap::sorted_keys(o@),
        ),
{
    let n: usize = o.len();
    let ghost keys = textmap::sorted_keys(o@);
    let ghost start = data@;
    for i in 0..n
        invariant
            keys == textmap::sorted_keys(o@),
            n == keys.len(),
            data@ == variants_read(start, textmap::views(defs@), o@, keys.take(i as int)),
    {
        proof {
            assert(keys.take(i + 1).drop_last() =~= keys.take(i as int));
            assert(keys.take(i + 1).last() == keys[i as int]);
        }
        let variant = o.key_at(i);
        if let Json::Object(states) = o.value_at(i) {
            if data.variant_props.contains_key(variant.as_str()) {
                read_states(data, defs, variant.as_str(), states);
            } else {
                proof {
                    lemma_missing_variant(
                        data@,
                        textmap::views(defs@),
                        variant@,
                        states@,
                        textmap::sorted_keys(states@),
                    );
                }
            }
        }
    }
    assert(keys.take(n as int) =~= keys);
}

fn read_size_props(data: &mut ComponentThemeData, defs: &Vec<PropDefinition>, size: &str, o: &JsonObject)
    ensures
        final(data)@ == size_props_read(
            old(data)@,
            textmap::views(defs@),
            size@,
            o@,
            textmap::sorted_keys(o@),
        ),
{
    let n: usize = o.len();
    let ghost keys = textmap::sorted_keys(o@);
    let ghost start = data@;
    for i in 0..n
        invariant
            keys == textmap::sorted_keys(o@),
            n == keys.len(),
            data@ == size_props_read(start, textmap::views(defs@), size@, o@, keys.take(i as int)),
    {
        proof {
            assert(keys.take(i + 1).drop_last() =~= keys.take(i as int));
            assert(keys.take(i + 1).last() == keys[i as int]);
        }
        let key = o.key_at(i);
        if let Some(v) = read_declared(defs, key.as_str(), o.value_at(i)) {
            data.set_size_import_override(size, key.as_str(), v);
        }
    }
    assert(keys.take(n as int) =~= keys);
}

fn read_sizes(data: &mut ComponentThemeData, defs: &Vec<PropDefinition>, o: &JsonObject)
    ensures
        final(data)@ == sizes_read(old(data)@, textmap::views(defs@), o@, textmap::sorted_keys(o@)),
{
    let n: usize = o.len();
    let ghost keys = textmap::sorted_keys(o@);
    let ghost start = data@;
    for i in 0..n
        invariant
            keys == textmap::sorted_keys(o@),
            n == keys.len(),
            data@ == sizes_read(start, textmap::views(defs@), o@, keys.take(i as int)),
    {
        proof {
            assert(keys.take(i + 1).drop_last() =~= keys.take(i as int));
            assert(keys.take(i + 1).last() == keys[i as int]);
        }
        let size = normalize_size_key(o.key_at(i).as_str());
        if let Json::Object(props) = o.value_at(i) {
            if data.size_props.contains_key(size) {
                read_size_props(data, defs, size, props);
            }
        }
    }
    assert(keys.take(n as int) =~= keys);
}

/// Takes over what a file gives for a component.
pub fn import_component_theme_json(data: &mut ComponentThemeData, plugin: &PluginDefinition, value: &Json)
    ensures
        final(data)@ == component_read(old(data)@, plugin@, value@),
{
    if let Some(v) = value.get("variantProps") {
        if let Some(o) = v.as_object() {
            read_variants(data, &plugin.variant_props, o);
        }
    }
    if let Some(v) = value.get("sizeProps") {
        if let Some(o) = v.as_object() {
            read_sizes(data, &plugin.size_props, o);
        }
    }
}

// ---------------------------------------------------------------------------------------------
// Laws
// ---------------------------------------------------------------------------------------------
/// A variant's value that matches what it falls back to is not written.
pub proof fn inherited_variant_is_not_written(
    d: ThemeData,
    parent: Option<ThemeData>,
    component_parent: Option<ThemeData>,
    variant: Seq<char>,
    state: Seq<char>,
    prop: Seq<char>,
    v: Value,
    f: Value,
)
    requires
        storage::variant_value(d.variant_props, variant, state, prop) == Some(v),
        fallback::fallback(d, parent, component_parent, variant, state, prop) == Some(f),
        fallback::values_match(v, f),
    ensures
        !props_patch(
            d,
            parent,
            component_parent,
            variant,
            state,
            d.variant_props[variant][state],
        ).dom().contains(prop),
{
    let props = d.variant_props[variant][state];
    let made = |prop: Seq<char>, v: Value|
        if writes_variant(d, parent, component_parent, variant, state, prop, v) {
            Some(value_json(v))
        } else {
            None
        };
    assert(props_patch(d, parent, component_parent, variant, state, props) == json::chosen(props, made));
    json::chosen_key(props, made, prop);
    assert(made(prop, props[prop]) is None);
}

/// A variant's value that does not match what it falls back to is written, under its variant, state
/// and property.
pub proof fn overridden_variant_is_written(
    d: ThemeData,
    parent: Option<ThemeData>,
    component_parent: Option<ThemeData>,
    variant: Seq<char>,
    state: Seq<char>,
    prop: Seq<char>,
    v: Value,
)
    requires
        storage::variant_value(d.variant_props, variant, state, prop) == Some(v),
        writes_variant(d, parent, component_parent, variant, state, prop, v),
    ensures
        ({
            let file = Some(JsonModel::Object(component_patch(d, parent, component_parent)));
            let variants = json::at(file->Some_0, "variantProps"@);
            let states = json::at(variants->Some_0, variant);
            let props = json::at(states->Some_0, state);
            &&& variants is Some
            &&& states is Some
            &&& props is Some
            &&& json::at(props->Some_0, prop) == Some(value_json(v))
        }),
{
    let states = d.variant_props[variant];
    let p = props_patch(d, parent, component_parent, variant, state, states[state]);
    assert(p.dom().contains(prop));
    let s = states_patch(d, parent, component_parent, variant, states);
    assert(s.dom().contains(state));
    let all = variants_patch(d, parent, component_parent);
    assert(all.dom().contains(variant));
    part_names_differ();
}

/// The parts of what is written of a component have different names.
pub proof fn part_names_differ()
    ensures
        "variantProps"@ != "sizeProps"@,
{
    reveal_strlit("variantProps");
    reveal_strlit("sizeProps");
    assert("variantProps"@.len() == 12 && "sizeProps"@.len() == 9);
}

/// A component that holds what its parents hold, and marks nothing, writes nothing of its Common
/// sizes.
pub proof fn inherited_base_is_not_written(
    d: ThemeData,
    parent: Option<ThemeData>,
    component_parent: Option<ThemeData>,
    prop: Seq<char>,
    v: Value,
)
    requires
        d.base(prop) == Some(v),
        base_to_match(parent, component_parent, prop) is Some,
        fallback::values_match(v, base_to_match(parent, component_parent, prop)->Some_0),
    ensures
        !size_patch(d, parent, component_parent, DEFAULT_SIZE_KEY@).dom().contains(prop),
{
    let props = d.size_props[DEFAULT_SIZE_KEY@];
    let made = |prop: Seq<char>, v: Value|
        if writes_size(d, parent, component_parent, DEFAULT_SIZE_KEY@, prop, v) {
            Some(value_json(v))
        } else {
            None
        };
    assert(size_patch(d, parent, component_parent, DEFAULT_SIZE_KEY@) == json::chosen(props, made));
    json::chosen_key(props, made, prop);
    assert(made(prop, props[prop]) is None);
}

/// A file that gives nothing leaves a component as it is.
pub proof fn empty_file_changes_nothing(d: ThemeData, plugin: PluginModel)
    ensures
        component_read(d, plugin, JsonModel::Object(Map::empty())) == d,
{
}

/// Of a size's property its value is written where it is marked; of the Common size where it does not match
/// what the parent component has, or else the parent theme, and only where neither has anything by its mark.
pub proof fn size_is_written_where_it_differs(
    d: ThemeData,
    parent: Option<ThemeData>,
    component_parent: Option<ThemeData>,
    size: Seq<char>,
    prop: Seq<char>,
    v: Value,
)
    requires
        textmap::at2(d.size_props, size, prop) == Some(v),
    ensures
        ({
            let o = size_patch(d, parent, component_parent, size);
            let of_component = match component_parent {
                Some(p) => p.base(prop),
                None => None,
            };
            let of_theme = match parent {
                Some(p) => p.base(prop),
                None => None,
            };
            let marked = storage::size_flagged(d.size_overrides, size, prop);
            &&& size != DEFAULT_SIZE_KEY@ ==> (o.dom().contains(prop) <==> marked)
            &&& size == DEFAULT_SIZE_KEY@ ==> match (of_component, of_theme) {
                (Some(w), _) => o.dom().contains(prop) <==> !fallback::values_match(v, w),
                (None, Some(w)) => o.dom().contains(prop) <==> !fallback::values_match(v, w),
                (None, None) => o.dom().contains(prop) <==> marked,
            }
            &&& o.dom().contains(prop) ==> o[prop] == value_json(v)
        }),
{
    let props = d.size_props[size];
    let made = |prop: Seq<char>, v: Value|
        if writes_size(d, parent, component_parent, size, prop, v) {
            Some(value_json(v))
        } else {
            None
        };
    assert(size_patch(d, parent, component_parent, size) == json::chosen(props, made));
    json::chosen_key(props, made, prop);
    assert(props.dom().contains(prop) && props[prop] == v);
    assert(made(prop, v) is Some <==> writes_size(d, parent, component_parent, size, prop, v));
    let o = json::chosen(props, made);
    assert(o.dom().contains(prop) <==> writes_size(d, parent, component_parent, size, prop, v));
    assert(o.dom().contains(prop) ==> o[prop] == made(prop, props[prop])->Some_0);
}

/// Of a variant's property its value is written where it does not match what it falls back to, and by its
/// mark where there is nothing to fall back to.
pub proof fn variant_is_written_where_it_differs(
    d: ThemeData,
    parent: Option<ThemeData>,
    component_parent: Option<ThemeData>,
    variant: Seq<char>,
    state: Seq<char>,
    prop: Seq<char>,
    v: Value,
)
    requires
        storage::variant_value(d.variant_props, variant, state, prop) == Some(v),
    ensures
        ({
            let o = props_patch(
                d,
                parent,
                component_parent,
                variant,
                state,
                d.variant_props[variant][state],
            );
            &&& match fallback::fallback(d, parent, component_parent, variant, state, prop) {
                Some(f) => o.dom().contains(prop) <==> !fallback::values_match(v, f),
                None => o.dom().contains(prop) <==> storage::variant_flagged(
                    d.variant_overrides,
                    variant,
                    state,
                    prop,
                ),
            }
            &&& o.dom().contains(prop) ==> o[prop] == value_json(v)
        }),
{
    let props = d.variant_props[variant][state];
    let made = |prop: Seq<char>, v: Value|
        if writes_variant(d, parent, component_parent, variant, state, prop, v) {
            Some(value_json(v))
        } else {
            None
        };
    assert(props_patch(d, parent, component_parent, variant, state, props) == json::chosen(props, made));
    json::chosen_key(props, made, prop);
    assert(props.dom().contains(prop) && props[prop] == v);
    let writes = writes_variant(d, parent, component_parent, variant, state, prop, v);
    assert(made(prop, v) is Some <==> writes);
    let o = json::chosen(props, made);
    assert(o.dom().contains(prop) <==> writes);
    assert(o.dom().contains(prop) ==> o[prop] == made(prop, props[prop])->Some_0);
}

} // verus!
