use theme_editor::color::Color;
use theme_editor::scalar::Scalar;
use theme_editor::schema::{DefaultValue, PluginDefinition, PropDefaults, PropDefinition, Real, TokenOrValue};
use theme_editor::storage::{
    cascade_default_to_children, default_for_type, is_common_size_key, normalize_size_key, resolve_token_or_value,
    serialize_size_key, ComponentThemeData, PropertyValue, DEFAULT_SIZE_KEY,
};
use theme_editor::store::TokenStore;
use theme_editor::textmap::TextMap;

fn f(value: f32) -> Scalar {
    Scalar { bits: value.to_bits() }
}

fn double(value: f64) -> Real {
    Real { single: f(value as f32), whole: value as i64, integral: value.fract() == 0.0, text: format!("{value}") }
}

fn token_or_value(value: &serde_json::Value) -> TokenOrValue {
    match value {
        serde_json::Value::String(s) => TokenOrValue::String(s.clone()),
        serde_json::Value::Number(n) => TokenOrValue::Float(double(n.as_f64().unwrap())),
        serde_json::Value::Bool(b) => TokenOrValue::Bool(*b),
        other => panic!("no token or value: {other}"),
    }
}

fn texts(value: Option<&serde_json::Value>) -> Vec<String> {
    value
        .and_then(|v| v.as_array())
        .map(|list| list.iter().map(|v| v.as_str().unwrap().to_string()).collect())
        .unwrap_or_default()
}

fn defaults(value: Option<&serde_json::Value>) -> PropDefaults {
    let mut out = PropDefaults::default();
    if let Some(map) = value.and_then(|v| v.as_object()) {
        for (key, entry) in map {
            let made = match entry.as_object() {
                Some(states) => {
                    let mut nested = TextMap::new();
                    for (state, v) in states {
                        nested.insert(state.clone(), token_or_value(v));
                    }
                    DefaultValue::Nested(nested)
                }
                None => DefaultValue::Direct(token_or_value(entry)),
            };
            out.values.insert(key.clone(), made);
        }
    }
    out
}

fn props(value: Option<&serde_json::Value>) -> Vec<PropDefinition> {
    let list = match value.and_then(|v| v.as_array()) {
        Some(list) => list,
        None => return Vec::new(),
    };
    list.iter()
        .map(|p| PropDefinition {
            name: p["name"].as_str().unwrap().to_string(),
            display_name: p.get("displayName").and_then(|v| v.as_str()).map(str::to_string),
            prop_type: p["type"].as_str().unwrap().to_string(),
            min: p.get("min").and_then(|v| v.as_f64()).map(|v| f(v as f32)),
            max: p.get("max").and_then(|v| v.as_f64()).map(|v| f(v as f32)),
            step: p.get("step").and_then(|v| v.as_f64()).map(|v| f(v as f32)),
            defaults: defaults(p.get("defaults")),
        })
        .collect()
}

fn plugin(text: &str) -> PluginDefinition {
    let v: serde_json::Value = serde_json::from_str(text).unwrap();
    PluginDefinition {
        component: v["component"].as_str().unwrap().to_string(),
        extends: v.get("extends").and_then(|e| e.as_str()).map(str::to_string),
        parent_key: None,
        variants: texts(v.get("variants")),
        states: texts(v.get("states")),
        sizes: texts(v.get("sizes")),
        variant_props: props(v.get("variantProps")),
        size_props: props(v.get("sizeProps")),
    }
}

fn size_float(data: &ComponentThemeData, size: &str, prop: &str) -> Option<Scalar> {
    data.size_props.get2(size, prop).and_then(|v| v.as_float())
}

fn value<'a>(data: &'a ComponentThemeData, variant: &str, state: &str, prop: &str) -> &'a PropertyValue {
    data.variant_props.get(variant).unwrap().get2(state, prop).unwrap()
}

fn token(key: &str) -> PropertyValue {
    PropertyValue::Token(key.to_string())
}

const SIZED: &str = r##"{
    "component": "Test",
    "variants": ["default"],
    "states": ["normal"],
    "sizes": ["sm", "md", "lg"],
    "sizeProps": [
        { "name": "border-radius", "type": "float",
          "defaults": { "default": 8.0, "lg": 12.0 } }
    ]
}"##;

const BUTTON: &str = r##"{
    "component": "Button",
    "variants": ["primary", "secondary"],
    "states": ["normal", "focused", "pressed", "disabled"],
    "sizes": ["sm", "md", "lg"],
    "variantProps": [
        { "name": "background", "type": "color", "defaults": {
            "primary": { "normal": "color.primary", "focused": "color.primary",
                         "pressed": "color.primary.dark", "disabled": "color.primary" },
            "secondary": { "normal": "color.secondary", "focused": "color.secondary",
                           "pressed": "color.secondary.dark", "disabled": "color.secondary" } } },
        { "name": "foreground", "type": "color", "defaults": {
            "primary": { "normal": "color.background", "focused": "color.background",
                         "pressed": "color.background", "disabled": "color.background" },
            "secondary": { "normal": "color.foreground", "focused": "color.foreground",
                           "pressed": "color.foreground", "disabled": "color.foreground" } } },
        { "name": "borderColor", "type": "color", "defaults": {
            "primary": { "normal": "color.transparent", "focused": "color.primary.light",
                         "pressed": "color.transparent", "disabled": "color.transparent" },
            "secondary": { "normal": "color.transparent", "focused": "color.primary.light",
                           "pressed": "color.transparent", "disabled": "color.transparent" } } },
        { "name": "opacity", "type": "float", "min": 0, "max": 1, "step": 0.05, "defaults": {
            "primary": { "normal": 1.0, "focused": 1.0, "pressed": 1.0, "disabled": 0.5 },
            "secondary": { "normal": 1.0, "focused": 1.0, "pressed": 1.0, "disabled": 0.5 } } }
    ],
    "sizeProps": [
        { "name": "height", "type": "float", "min": 0, "max": 96, "step": 1,
          "defaults": { "sm": 36.0, "md": 44.0, "lg": 52.0 } },
        { "name": "fontFamily", "type": "string",
          "defaults": { "sm": "font.primary", "md": "font.primary", "lg": "font.primary" } }
    ]
}"##;

#[test]
fn size_default_base_applies_to_unspecified_sizes() {
    let data = ComponentThemeData::from_plugin(&plugin(SIZED), &TokenStore::default());

    assert_eq!(size_float(&data, "sm", "border-radius"), Some(f(8.0)));
    assert_eq!(size_float(&data, "md", "border-radius"), Some(f(8.0)));
    assert_eq!(size_float(&data, "lg", "border-radius"), Some(f(12.0)));
}

#[test]
fn default_key_seeds_virtual_default_size_and_marks_per_size_overrides() {
    let data = ComponentThemeData::from_plugin(&plugin(SIZED), &TokenStore::default());

    assert_eq!(size_float(&data, DEFAULT_SIZE_KEY, "border-radius"), Some(f(8.0)));
    assert!(!data.size_prop_is_overridden("sm", "border-radius"));
    assert!(!data.size_prop_is_overridden("md", "border-radius"));
    assert!(data.size_prop_is_overridden("lg", "border-radius"));
}

#[test]
fn first_variant_is_common_variant_for_override_tracking() {
    let plugin = plugin(BUTTON);
    let data = ComponentThemeData::from_plugin(&plugin, &TokenStore::default());

    assert_eq!(data.common_variant_key(), Some("primary"));
    for prop in &plugin.variant_props {
        assert!(
            !data.variant_prop_is_overridden("primary", "normal", &prop.name),
            "primary/normal/{} should be the common baseline",
            prop.name
        );
    }

    assert!(data.variant_prop_is_overridden("secondary", "normal", "background"));
    assert!(!data.variant_prop_is_overridden("secondary", "normal", "borderColor"));
    assert!(!data.variant_prop_is_overridden("primary", "focused", "background"));
    assert!(data.variant_prop_is_overridden("primary", "focused", "borderColor"));
    assert!(data.variant_prop_is_overridden("primary", "pressed", "background"));
    assert!(!data.variant_prop_is_overridden("primary", "disabled", "background"));
    assert!(data.variant_prop_is_overridden("primary", "disabled", "opacity"));
}

#[test]
fn state_overrides_reset_to_normal_and_inheriting_states_follow_normal() {
    let mut data = ComponentThemeData::from_plugin(&plugin(BUTTON), &TokenStore::default());

    assert!(data.variant_prop_is_overridden("primary", "focused", "borderColor"));
    data.clear_variant_override("primary", "focused", "borderColor");
    assert!(!data.variant_prop_is_overridden("primary", "focused", "borderColor"));
    assert_eq!(
        value(&data, "primary", "focused", "borderColor"),
        value(&data, "primary", "normal", "borderColor")
    );

    data.set_variant_override("primary", "normal", "background", token("color.danger"));
    assert_eq!(value(&data, "primary", "focused", "background"), &token("color.danger"));
    assert_eq!(value(&data, "primary", "disabled", "background"), &token("color.danger"));
    assert_eq!(value(&data, "primary", "pressed", "background"), &token("color.primary.dark"));
    assert_eq!(value(&data, "secondary", "normal", "background"), &token("color.secondary"));
}

#[test]
fn editing_default_cascades_to_inheriting_sizes_only() {
    let mut data = ComponentThemeData::from_plugin(&plugin(SIZED), &TokenStore::default());

    data.set_size_default("border-radius", PropertyValue::Float(f(20.0)));
    assert_eq!(size_float(&data, DEFAULT_SIZE_KEY, "border-radius"), Some(f(20.0)));
    assert_eq!(size_float(&data, "sm", "border-radius"), Some(f(20.0)));
    assert_eq!(size_float(&data, "md", "border-radius"), Some(f(20.0)));
    assert_eq!(size_float(&data, "lg", "border-radius"), Some(f(12.0)));
}

#[test]
fn set_and_clear_size_override_reinherits_from_default() {
    let text = r##"{
        "component": "Test",
        "variants": ["default"],
        "states": ["normal"],
        "sizes": ["sm", "md"],
        "sizeProps": [
            { "name": "border-radius", "type": "float",
              "defaults": { "default": 8.0 } }
        ]
    }"##;
    let mut data = ComponentThemeData::from_plugin(&plugin(text), &TokenStore::default());

    assert!(!data.size_prop_is_overridden("sm", "border-radius"));
    data.set_size_override("sm", "border-radius", PropertyValue::Float(f(16.0)));
    assert!(data.size_prop_is_overridden("sm", "border-radius"));
    assert_eq!(size_float(&data, "sm", "border-radius"), Some(f(16.0)));
    data.set_size_default("border-radius", PropertyValue::Float(f(4.0)));
    assert_eq!(size_float(&data, "sm", "border-radius"), Some(f(16.0)));
    assert_eq!(size_float(&data, "md", "border-radius"), Some(f(4.0)));
    data.clear_size_override("sm", "border-radius");
    assert!(!data.size_prop_is_overridden("sm", "border-radius"));
    assert_eq!(size_float(&data, "sm", "border-radius"), Some(f(4.0)));
}

const PARENT: &str = r##"{
    "component": "Input",
    "variants": ["default"],
    "states": ["normal"],
    "sizes": ["sm", "md", "lg"],
    "sizeProps": [
        { "name": "border-radius", "type": "float",
          "defaults": { "sm": 4.0, "md": 8.0, "lg": 12.0 } }
    ]
}"##;

fn input_and_search() -> TextMap<ComponentThemeData> {
    let mut child = plugin(PARENT);
    child.component = "Search".to_string();
    child.parent_key = Some("Input".to_string());
    let parent = plugin(PARENT);
    let tokens = TokenStore::default();
    let mut themes = TextMap::new();
    themes.insert("input".to_string(), ComponentThemeData::from_plugin(&parent, &tokens));
    themes.insert("search".to_string(), ComponentThemeData::from_plugin(&child, &tokens));
    themes
}

#[test]
fn cross_component_cascade_updates_inheriting_child_default() {
    let mut themes = input_and_search();

    assert_eq!(size_float(themes.get("input").unwrap(), DEFAULT_SIZE_KEY, "border-radius"), Some(f(8.0)));
    assert_eq!(size_float(themes.get("search").unwrap(), DEFAULT_SIZE_KEY, "border-radius"), Some(f(8.0)));

    themes.slot_mut("input").set_size_default("border-radius", PropertyValue::Float(f(20.0)));
    cascade_default_to_children(&mut themes, "Input", "border-radius", &PropertyValue::Float(f(20.0)));

    assert_eq!(size_float(themes.get("search").unwrap(), DEFAULT_SIZE_KEY, "border-radius"), Some(f(20.0)));
}

#[test]
fn cascades_go_on_to_those_that_follow_a_follower() {
    let mut themes = input_and_search();
    let mut field = themes.get("search").unwrap().clone();
    field.parent_key = Some("Search".to_string());
    themes.insert("field".to_string(), field);

    cascade_default_to_children(&mut themes, "Input", "border-radius", &PropertyValue::Float(f(20.0)));
    assert_eq!(size_float(themes.get("field").unwrap(), DEFAULT_SIZE_KEY, "border-radius"), Some(f(20.0)));

    themes.slot_mut("search").mark_parent_override("border-radius");
    cascade_default_to_children(&mut themes, "Input", "border-radius", &PropertyValue::Float(f(30.0)));
    assert_eq!(size_float(themes.get("search").unwrap(), DEFAULT_SIZE_KEY, "border-radius"), Some(f(20.0)));
    assert_eq!(size_float(themes.get("field").unwrap(), DEFAULT_SIZE_KEY, "border-radius"), Some(f(20.0)));
}

fn follower(parent: Option<&str>) -> ComponentThemeData {
    let mut plugin = plugin(PARENT);
    plugin.component = "X".to_string();
    plugin.parent_key = parent.map(str::to_string);
    ComponentThemeData::from_plugin(&plugin, &TokenStore::default())
}

#[test]
fn chains_of_parents_are_walked_by_name() {
    let mut themes = TextMap::new();
    themes.insert("c".to_string(), follower(None));
    themes.insert("b".to_string(), follower(Some("C")));
    themes.insert("a".to_string(), follower(Some("B")));
    cascade_default_to_children(&mut themes, "C", "border-radius", &PropertyValue::Float(f(20.0)));
    assert_eq!(size_float(themes.get("a").unwrap(), DEFAULT_SIZE_KEY, "border-radius"), Some(f(20.0)));
    assert_eq!(size_float(themes.get("b").unwrap(), DEFAULT_SIZE_KEY, "border-radius"), Some(f(20.0)));
    assert_eq!(themes.get("c").unwrap(), &follower(None));

    let mut themes = TextMap::new();
    themes.insert("icon_button".to_string(), follower(Some("Button")));
    themes.insert("textarea".to_string(), follower(Some("IconButton")));
    themes.insert("field".to_string(), follower(Some("TextArea")));
    themes.insert("other".to_string(), follower(Some("Elsewhere")));
    cascade_default_to_children(&mut themes, "Button", "border-radius", &PropertyValue::Float(f(20.0)));
    for key in ["icon_button", "textarea", "field"] {
        assert_eq!(size_float(themes.get(key).unwrap(), DEFAULT_SIZE_KEY, "border-radius"), Some(f(20.0)), "{key}");
    }
    assert_eq!(themes.get("other").unwrap(), &follower(Some("Elsewhere")));
}

#[test]
fn circles_of_parents_are_left() {
    let mut themes = TextMap::new();
    themes.insert("a".to_string(), follower(Some("B")));
    themes.insert("b".to_string(), follower(Some("A")));
    cascade_default_to_children(&mut themes, "C", "border-radius", &PropertyValue::Float(f(20.0)));
    assert_eq!(themes.get("a").unwrap(), &follower(Some("B")));
    cascade_default_to_children(&mut themes, "A", "border-radius", &PropertyValue::Float(f(20.0)));
    for key in ["a", "b"] {
        assert_eq!(size_float(themes.get(key).unwrap(), DEFAULT_SIZE_KEY, "border-radius"), Some(f(20.0)), "{key}");
    }
}

#[test]
fn sizes_start_with_the_common_value_or_a_mark() {
    let text = r##"{
        "component": "Test",
        "variants": ["default"],
        "states": ["normal"],
        "sizes": ["sm", "md", "lg"],
        "sizeProps": [
            { "name": "height", "type": "float", "defaults": { "md": 40.0 } },
            { "name": "gap", "type": "float", "defaults": { "sm": 2.0, "lg": 2.0 } },
            { "name": "inset", "type": "float", "defaults": { "sm": { "normal": 3.0 }, "md": 5.0, "lg": 6.0 } },
            { "name": "font", "type": "string" }
        ]
    }"##;
    let data = ComponentThemeData::from_plugin(&plugin(text), &TokenStore::default());
    for size in ["sm", "md", "lg"] {
        for prop in ["height", "gap", "inset", "font"] {
            let own = data.size_props.get2(size, prop).unwrap();
            let common = data.size_props.get2(DEFAULT_SIZE_KEY, prop).unwrap();
            assert!(data.size_prop_is_overridden(size, prop) || own == common, "{size} {prop}");
        }
    }
    assert_eq!(size_float(&data, "sm", "height"), Some(f(40.0)));
    assert_eq!(size_float(&data, "md", "gap"), Some(f(2.0)));
    assert_eq!(size_float(&data, "sm", "inset"), Some(f(5.0)));
    assert!(data.size_prop_is_overridden("lg", "inset"));
    assert!(!data.size_prop_is_overridden("sm", "inset"));

    let text = r##"{
        "component": "Test",
        "variants": ["default"],
        "states": ["normal"],
        "sizes": ["default", "sm", "lg"],
        "sizeProps": [
            { "name": "height", "type": "float", "defaults": { "common": 1.0, "default": 2.0, "lg": 3.0 } },
            { "name": "gap", "type": "float", "defaults": { "default": 4.0 } }
        ]
    }"##;
    let data = ComponentThemeData::from_plugin(&plugin(text), &TokenStore::default());
    assert_eq!(size_float(&data, DEFAULT_SIZE_KEY, "height"), Some(f(1.0)));
    assert_eq!(size_float(&data, "sm", "height"), Some(f(1.0)));
    assert_eq!(size_float(&data, "lg", "height"), Some(f(3.0)));
    assert!(!data.size_prop_is_overridden("sm", "height"));
    assert!(data.size_prop_is_overridden("lg", "height"));
    assert!(!data.size_prop_is_overridden(DEFAULT_SIZE_KEY, "height"));
    assert_eq!(size_float(&data, DEFAULT_SIZE_KEY, "gap"), Some(f(4.0)));
    assert_eq!(size_float(&data, "sm", "gap"), Some(f(4.0)));
}

#[test]
fn a_size_that_was_set_to_the_common_value_keeps_it() {
    let mut data = ComponentThemeData::from_plugin(&plugin(SIZED), &TokenStore::default());
    data.set_size_override("sm", "border-radius", PropertyValue::Float(f(8.0)));
    assert!(data.size_prop_is_overridden("sm", "border-radius"));
    data.set_size_default("border-radius", PropertyValue::Float(f(20.0)));
    assert_eq!(size_float(&data, "sm", "border-radius"), Some(f(8.0)));
    assert_eq!(size_float(&data, "md", "border-radius"), Some(f(20.0)));
}

#[test]
fn locally_overridden_child_default_ignores_parent_cascade() {
    let mut themes = input_and_search();

    themes.slot_mut("search").set_size_default("border-radius", PropertyValue::Float(f(40.0)));
    themes.slot_mut("search").mark_parent_override("border-radius");

    themes.slot_mut("input").set_size_default("border-radius", PropertyValue::Float(f(20.0)));
    cascade_default_to_children(&mut themes, "Input", "border-radius", &PropertyValue::Float(f(20.0)));

    assert_eq!(size_float(themes.get("search").unwrap(), DEFAULT_SIZE_KEY, "border-radius"), Some(f(40.0)));

    let parent_value =
        themes.get("input").unwrap().size_props.get2(DEFAULT_SIZE_KEY, "border-radius").unwrap().clone();
    themes.slot_mut("search").clear_parent_override("border-radius", parent_value);
    assert!(!themes.get("search").unwrap().parent_prop_is_overridden("border-radius"));
    assert_eq!(size_float(themes.get("search").unwrap(), DEFAULT_SIZE_KEY, "border-radius"), Some(f(20.0)));
}

#[test]
fn sequential_clear_size_override_does_not_re_add_other_props() {
    let text = r##"{
        "component": "Input",
        "variants": ["default"],
        "states": ["normal"],
        "sizes": ["sm", "md", "lg"],
        "sizeProps": [
            { "name": "border-width", "type": "float",
              "defaults": { "sm": 1.0, "md": 1.0, "lg": 1.0 } },
            { "name": "border-radius", "type": "float",
              "defaults": { "sm": 4.0, "md": 8.0, "lg": 12.0 } },
            { "name": "padding-horizontal", "type": "float",
              "defaults": { "sm": 8.0, "md": 12.0, "lg": 16.0 } },
            { "name": "field-height", "type": "float",
              "defaults": { "sm": 32.0, "md": 40.0, "lg": 48.0 } },
            { "name": "font-size", "type": "float",
              "defaults": { "sm": 12.0, "md": 14.0, "lg": 16.0 } },
            { "name": "font-family", "type": "string",
              "defaults": { "sm": "font.primary", "md": "font.primary", "lg": "font.primary" } }
        ]
    }"##;
    let mut child = plugin(text);
    child.component = "Search".to_string();
    child.parent_key = Some("Input".to_string());

    let mut data = ComponentThemeData::from_plugin(&child, &TokenStore::default());

    let lg = data.size_overrides.get("lg").unwrap();
    assert_eq!(lg.len(), 4);
    assert!(lg.contains("border-radius"));
    assert!(lg.contains("padding-horizontal"));
    assert!(lg.contains("field-height"));
    assert!(lg.contains("font-size"));

    for name in ["border-radius", "padding-horizontal", "field-height", "font-size"] {
        data.clear_size_override("lg", name);
        assert!(!data.size_overrides.get("lg").unwrap().contains(name), "{} should be removed", name);
    }
    assert_eq!(data.size_overrides.get("lg").unwrap().len(), 0);

    data.clear_size_override("lg", "border-width");
    assert_eq!(data.size_overrides.get("lg").unwrap().len(), 0);
}

#[test]
fn per_size_only_defaults_still_work() {
    let text = r##"{
        "component": "Test",
        "variants": ["default"],
        "states": ["normal"],
        "sizes": ["sm", "md", "lg"],
        "sizeProps": [
            { "name": "font-size", "type": "float",
              "defaults": { "sm": 14.0, "md": 16.0, "lg": 18.0 } }
        ]
    }"##;
    let data = ComponentThemeData::from_plugin(&plugin(text), &TokenStore::default());

    assert_eq!(size_float(&data, "sm", "font-size"), Some(f(14.0)));
    assert_eq!(size_float(&data, "md", "font-size"), Some(f(16.0)));
    assert_eq!(size_float(&data, "lg", "font-size"), Some(f(18.0)));
}

#[test]
fn cleared_common_values_go_back_to_the_schema() {
    let mut data = ComponentThemeData::from_plugin(&plugin(BUTTON), &TokenStore::default());
    let store = TokenStore::default();
    data.set_variant_default("normal", "background", token("color.danger"));
    assert_eq!(value(&data, "primary", "focused", "background"), &token("color.danger"));
    data.clear_variant_default("normal", "background", &store);
    assert_eq!(value(&data, "primary", "normal", "background"), &token("color.primary"));
    assert_eq!(value(&data, "primary", "focused", "background"), &token("color.primary"));
    data.set_size_default("height", PropertyValue::Float(f(1.0)));
    data.clear_size_default("height", &store);
    assert_eq!(size_float(&data, DEFAULT_SIZE_KEY, "height"), Some(f(44.0)));
}

#[test]
fn values_are_read_in_the_order_of_the_definitions() {
    let data = ComponentThemeData::from_plugin(&plugin(BUTTON), &TokenStore::default());
    assert_eq!(
        data.get_variant_state_values("secondary", "disabled"),
        vec![
            token("color.secondary"),
            token("color.foreground"),
            token("color.transparent"),
            PropertyValue::Float(f(0.5)),
        ]
    );
    assert_eq!(data.get_size_values("lg"), vec![PropertyValue::Float(f(52.0)), token("font.primary")]);
    assert!(data.get_size_values("xl").is_empty());
}

#[test]
fn common_size_has_another_key_in_files() {
    assert!(is_common_size_key("common"));
    assert!(is_common_size_key("default"));
    assert!(!is_common_size_key("sm"));
    assert_eq!(normalize_size_key("common"), DEFAULT_SIZE_KEY);
    assert_eq!(serialize_size_key(DEFAULT_SIZE_KEY), "common");
    assert_eq!(serialize_size_key(normalize_size_key("md")), "md");
}

#[test]
fn default_values_are_read_by_type() {
    assert_eq!(default_for_type("color"), PropertyValue::Color(Color::rgb(128, 128, 128)));
    assert_eq!(default_for_type("bool"), PropertyValue::Bool(false));
    assert_eq!(default_for_type("other"), PropertyValue::Float(f(0.0)));
    let text = |s: &str| TokenOrValue::String(s.to_string());
    assert_eq!(resolve_token_or_value(&text("#ff0000"), "color"), PropertyValue::Color(Color::rgb(255, 0, 0)));
    assert_eq!(resolve_token_or_value(&text("nonsense"), "color"), PropertyValue::Color(Color::rgb(0, 0, 0)));
    assert_eq!(resolve_token_or_value(&text("color.primary"), "color"), token("color.primary"));
}
