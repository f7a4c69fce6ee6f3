use theme_editor::color::parse_loose_hex;
use theme_editor::scalar::Scalar;
use theme_editor::schema::{
    ComponentOverrides, DefaultValue, PluginDefinition, PropDefaults, PropDefinition, Real, TokenOrValue,
};
use theme_editor::slint_gen::{component_theme_slint, emit_value, fmt_num, kebab, variant_enums};
use theme_editor::store::{TokenStore, TokenValue};
use theme_editor::textmap::TextMap;

fn f(value: f32) -> Scalar {
    Scalar { bits: value.to_bits() }
}

fn double(value: f64) -> Real {
    Real { single: f(value as f32), whole: value as i64, integral: value.fract() == 0.0, text: format!("{value}") }
}

fn token_or_value(value: &serde_json::Value) -> TokenOrValue {
    match value {
        serde_json::Value::String(s) => TokenOrValue::String(s.clone()),
        serde_json::Value::Number(n) => TokenOrValue::Float(double(n.as_f64().unwrap())),
        serde_json::Value::Bool(b) => TokenOrValue::Bool(*b),
        other => panic!("no token or value: {other}"),
    }
}

fn texts(value: Option<&serde_json::Value>) -> Vec<String> {
    value
        .and_then(|v| v.as_array())
        .map(|list| list.iter().map(|v| v.as_str().unwrap().to_string()).collect())
        .unwrap_or_default()
}

fn defaults(value: Option<&serde_json::Value>) -> PropDefaults {
    let mut out = PropDefaults::default();
    if let Some(map) = value.and_then(|v| v.as_object()) {
        for (key, entry) in map {
            let made = match entry.as_object() {
                Some(states) => {
                    let mut nested = TextMap::new();
                    for (state, v) in states {
                        nested.insert(state.clone(), token_or_value(v));
                    }
                    DefaultValue::Nested(nested)
                }
                None => DefaultValue::Direct(token_or_value(entry)),
            };
            out.values.insert(key.clone(), made);
        }
    }
    out
}

fn props(value: Option<&serde_json::Value>) -> Vec<PropDefinition> {
    let list = match value.and_then(|v| v.as_array()) {
        Some(list) => list,
        None => return Vec::new(),
    };
    list.iter()
        .map(|p| PropDefinition {
            name: p["name"].as_str().unwrap().to_string(),
            display_name: p.get("displayName").and_then(|v| v.as_str()).map(str::to_string),
            prop_type: p["type"].as_str().unwrap().to_string(),
            min: p.get("min").and_then(|v| v.as_f64()).map(|v| f(v as f32)),
            max: p.get("max").and_then(|v| v.as_f64()).map(|v| f(v as f32)),
            step: p.get("step").and_then(|v| v.as_f64()).map(|v| f(v as f32)),
            defaults: defaults(p.get("defaults")),
        })
        .collect()
}

fn plugin(text: &str) -> PluginDefinition {
    let v: serde_json::Value = serde_json::from_str(text).unwrap();
    PluginDefinition {
        component: v["component"].as_str().unwrap().to_string(),
        extends: v.get("extends").and_then(|e| e.as_str()).map(str::to_string),
        parent_key: None,
        variants: texts(v.get("variants")),
        states: texts(v.get("states")),
        sizes: texts(v.get("sizes")),
        variant_props: props(v.get("variantProps")),
        size_props: props(v.get("sizeProps")),
    }
}

fn overrides(text: &str) -> ComponentOverrides {
    let v: serde_json::Value = serde_json::from_str(text).unwrap();
    let mut out = ComponentOverrides::default();
    if let Some(variants) = v.get("variantProps").and_then(|v| v.as_object()) {
        for (variant, states) in variants {
            let mut by_state = TextMap::new();
            for (state, entries) in states.as_object().unwrap() {
                let mut by_prop = TextMap::new();
                for (prop, value) in entries.as_object().unwrap() {
                    by_prop.insert(prop.clone(), token_or_value(value));
                }
                by_state.insert(state.clone(), by_prop);
            }
            out.variant_props.insert(variant.clone(), by_state);
        }
    }
    if let Some(sizes) = v.get("sizeProps").and_then(|v| v.as_object()) {
        for (size, entries) in sizes {
            let mut by_prop = TextMap::new();
            for (prop, value) in entries.as_object().unwrap() {
                by_prop.insert(prop.clone(), token_or_value(value));
            }
            out.size_props.insert(size.clone(), by_prop);
        }
    }
    out
}

#[test]
fn test_parse_plugin() {
    let plugin = plugin(
        r##"{
        "component": "Button",
        "variants": ["primary", "secondary"],
        "states": ["normal", "pressed"],
        "sizes": ["small", "medium"],
        "variantProps": [
            {
                "name": "background",
                "type": "color",
                "defaults": {
                    "primary": { "normal": "color.primary", "pressed": "#ff0000" },
                    "secondary": { "normal": "#cccccc", "pressed": "#aaaaaa" }
                }
            }
        ],
        "sizeProps": [
            {
                "name": "fontSize",
                "type": "float",
                "min": 8,
                "max": 32,
                "step": 1,
                "defaults": {
                    "small": "fontSize.sm",
                    "medium": 16
                }
            }
        ]
    }"##,
    );
    assert_eq!(plugin.component, "Button");
    assert_eq!(plugin.variants.len(), 2);
    assert_eq!(plugin.states.len(), 2);
    assert_eq!(plugin.sizes.len(), 2);
    assert_eq!(plugin.variant_props.len(), 1);
    assert_eq!(plugin.size_props.len(), 1);
    assert_eq!(plugin.size_props[0].min_value(), f(8.0));
    assert_eq!(plugin.variant_props[0].max_value(), f(100.0));
    assert_eq!(plugin.variant_props[0].display_name(), "background");
}

#[test]
fn override_inlines_literal_over_token_base() {
    let plugin = plugin(
        r##"{
            "component": "Button",
            "variants": ["primary"],
            "states": ["normal", "pressed"],
            "sizes": ["sm", "md", "lg"],
            "variantProps": [
                { "name": "background", "type": "color",
                  "defaults": { "primary": { "normal": "color.primary", "pressed": "color.primary.dark" } } }
            ],
            "sizeProps": []
        }"##,
    );

    let overrides =
        overrides(r##"{ "variantProps": { "primary": { "normal": { "background": "#ef4444" } } } }"##);

    let out = component_theme_slint("button", &plugin, Some(&overrides), "@ui/theme.slint").unwrap();
    assert!(out.contains("background: #ef4444,"), "missing override literal:\n{out}");
    assert_eq!(
        out.matches("background: #ef4444,").count(),
        1,
        "identical states should be deduplicated:\n{out}"
    );
    assert!(
        out.contains("public pure function style(v: ButtonVariant, st: ButtonState)"),
        "missing immutable style lookup:\n{out}"
    );
    assert!(!out.contains("in-out property"), "immutable themes must not expose mutable properties:\n{out}");
    assert!(!out.contains("return self."), "lookup must return values directly:\n{out}");
    assert!(out.contains("from \"@ui/theme.slint\""), "missing @ui import:\n{out}");
}

#[test]
fn imported_extra_states_fall_back_to_the_selected_variants_normal_style() {
    let plugin = plugin(
        r##"{
            "component": "Button",
            "variants": ["primary", "secondary"],
            "states": ["normal", "pressed"],
            "sizes": [],
            "variantProps": [
                { "name": "background", "type": "color",
                  "defaults": {
                    "primary": { "normal": "#111111", "pressed": "#222222" },
                    "secondary": { "normal": "#333333", "pressed": "#444444" }
                  } }
            ],
            "sizeProps": []
        }"##,
    );

    let out = component_theme_slint("button", &plugin, None, "@ui/theme.slint").unwrap();

    let primary_branch = out
        .split_once("if v == ButtonVariant.primary {")
        .and_then(|(_, rest)| rest.split_once("\n        }\n"))
        .map(|(branch, _)| branch)
        .expect("primary variant branch");
    assert!(primary_branch.contains("background: #222222,"), "missing primary pressed style:\n{out}");
    assert!(primary_branch.contains("background: #111111,"), "missing primary normal fallback:\n{out}");
    assert!(!primary_branch.contains("#333333"), "primary branch used secondary fallback:\n{out}");
    assert!(!out.contains("ButtonState.loading"), "undefined imported states should use fall-through:\n{out}");
}

#[test]
fn schema_defaults_are_legacy_fallbacks_when_theme_value_is_missing() {
    let plugin = plugin(
        r##"{
            "component": "Button",
            "variants": ["primary"],
            "states": ["normal", "pressed"],
            "sizes": [],
            "variantProps": [
                { "name": "background", "type": "color",
                  "defaults": { "primary": { "normal": "color.primary", "pressed": "color.primary.dark" } } }
            ],
            "sizeProps": []
        }"##,
    );

    let out = component_theme_slint("button", &plugin, None, "@ui/theme.slint").unwrap();

    assert!(out.contains("background: Theme.color-primary,"), "missing normal schema fallback:\n{out}");
    assert!(out.contains("background: Theme.color-primary-dark,"), "missing pressed schema fallback:\n{out}");
}

#[test]
fn common_size_override_is_the_serialized_base_key() {
    let plugin = plugin(
        r##"{
            "component": "Input",
            "variants": [],
            "states": [],
            "sizes": ["sm", "md"],
            "variantProps": [],
            "sizeProps": [
                { "name": "field-height", "type": "float",
                  "defaults": { "default": 40.0 } }
            ]
        }"##,
    );

    let overrides = overrides(
        r##"{
            "sizeProps": {
                "common": { "field-height": 44.0 },
                "sm": { "field-height": 36.0 }
            }
        }"##,
    );

    let out = component_theme_slint("input", &plugin, Some(&overrides), "@ui/theme.slint").unwrap();

    assert!(out.contains("public pure function size(s: ControlSize)"));
    assert!(!out.contains("property <InputSizeProps>"));
    assert!(out.contains("field-height: 36px,"));
    assert!(out.contains("field-height: 44px,"));
}

#[test]
fn a_component_without_properties_has_no_theme_file() {
    let bare = plugin(r##"{ "component": "Card", "variants": ["default"], "states": ["normal"] }"##);
    assert_eq!(component_theme_slint("card", &bare, None, "theme.slint"), None);
}

#[test]
fn values_are_written_by_type() {
    assert_eq!(kebab("fontSize"), "font-size");
    assert_eq!(fmt_num(&double(12.0)), "12");
    assert_eq!(fmt_num(&double(0.5)), "0.5");
    assert_eq!(fmt_num(&double(-3.25)), "-3.25");
    let text = |s: &str| TokenOrValue::String(s.to_string());
    assert_eq!(emit_value("length", &TokenOrValue::Float(double(12.5))), "12.5px");
    assert_eq!(emit_value("color", &text("color.primary")), "Theme.color-primary");
    assert_eq!(emit_value("color", &text("#010203")), "#010203");
    assert_eq!(emit_value("length", &text("nowhere.md")), "0px /* TODO unmapped token: nowhere.md */");
    assert_eq!(variant_enums("button"), Some(("ButtonVariant", "ButtonState")));
    assert_eq!(variant_enums("nothing"), None);
}

#[test]
fn test_resolve_token() {
    let store = TokenStore::default_tokens();

    assert!(store.resolve_color("color.primary").is_some());
    assert_eq!(store.resolve_float("spacing.md"), Some(f(12.0)));
    assert_eq!(store.resolve_float("radius.default"), Some(f(24.0)));
    assert_eq!(store.resolve_int("fontWeight.medium"), Some(500));
}

#[test]
fn test_parse_hex() {
    let color = parse_loose_hex("#ff0000").unwrap();
    assert_eq!(color.r, 255);
    assert_eq!(color.g, 0);
    assert_eq!(color.b, 0);

    let color2 = parse_loose_hex("00ff00").unwrap();
    assert_eq!(color2.g, 255);

    let color3 = parse_loose_hex("#f00").unwrap();
    assert_eq!(color3.r, 255);

    let color4 = parse_loose_hex("#231f201a").unwrap();
    assert_eq!(color4.r, 0x23);
    assert_eq!(color4.g, 0x1f);
    assert_eq!(color4.b, 0x20);
    assert_eq!(color4.a, 0x1a);
}

#[test]
fn circular_aliases_resolve_to_nothing() {
    let mut store = TokenStore::default();
    let mut radius = TextMap::new();
    radius.insert("a".to_string(), TokenValue::String("radius.b".to_string()));
    radius.insert("b".to_string(), TokenValue::String("radius.a".to_string()));
    store.categories.insert("radius".to_string(), radius);
    assert_eq!(store.resolve_float("radius.a"), None);
    assert_eq!(store.resolve_resolved("radius.a"), None);
    assert!(store.resolve("radius.a").is_some());
    assert!(store.resolve("radius.c").is_none());
}
