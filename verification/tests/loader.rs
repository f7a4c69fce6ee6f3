use theme_editor::generate::{auto_generate_plugin, humanize_prop_name, parse_themeable_property, SourceText};
use theme_editor::inherit::{apply_inheritance, resolve_extends_chain};
use theme_editor::loader::{
    get_plugins_path, get_theme_editor_path, get_tokens_path, normalize_legacy_variant_names,
    normalize_plugin_definition, BuiltinComponentSpec,
};
use theme_editor::plugin_files::{
    default_tokens_json, plugin_origin, plugin_repair, settle_plugins, too_large_error, PluginOrigin, PluginRepair,
};
use theme_editor::scalar::Scalar;
use theme_editor::schema::{DefaultValue, PluginDefinition, PropDefaults, PropDefinition, Real, TokenOrValue};
use theme_editor::storage::ComponentThemeData;
use theme_editor::store::{Measure, TokenStore, TokenValue};
use theme_editor::textmap::TextMap;

fn f(value: f32) -> Scalar {
    Scalar { bits: value.to_bits() }
}

fn double(value: f64) -> Real {
    Real { single: f(value as f32), whole: value as i64, integral: value.fract() == 0.0, text: format!("{value}") }
}

fn token_or_value(value: &serde_json::Value) -> TokenOrValue {
    match value {
        serde_json::Value::String(s) => TokenOrValue::String(s.clone()),
        serde_json::Value::Number(n) => TokenOrValue::Float(double(n.as_f64().unwrap())),
        serde_json::Value::Bool(b) => TokenOrValue::Bool(*b),
        other => panic!("no token or value: {other}"),
    }
}

fn texts(value: Option<&serde_json::Value>) -> Vec<String> {
    value
        .and_then(|v| v.as_array())
        .map(|list| list.iter().map(|v| v.as_str().unwrap().to_string()).collect())
        .unwrap_or_default()
}

fn defaults(value: Option<&serde_json::Value>) -> PropDefaults {
    let mut out = PropDefaults::default();
    if let Some(map) = value.and_then(|v| v.as_object()) {
        for (key, entry) in map {
            let made = match entry.as_object() {
                Some(states) => {
                    let mut nested = TextMap::new();
                    for (state, v) in states {
                        nested.insert(state.clone(), token_or_value(v));
                    }
                    DefaultValue::Nested(nested)
                }
                None => DefaultValue::Direct(token_or_value(entry)),
            };
            out.values.insert(key.clone(), made);
        }
    }
    out
}

fn props(value: Option<&serde_json::Value>) -> Vec<PropDefinition> {
    let list = match value.and_then(|v| v.as_array()) {
        Some(list) => list,
        None => return Vec::new(),
    };
    list.iter()
        .map(|p| PropDefinition {
            name: p["name"].as_str().unwrap().to_string(),
            display_name: p.get("displayName").and_then(|v| v.as_str()).map(str::to_string),
            prop_type: p["type"].as_str().unwrap().to_string(),
            min: p.get("min").and_then(|v| v.as_f64()).map(|v| f(v as f32)),
            max: p.get("max").and_then(|v| v.as_f64()).map(|v| f(v as f32)),
            step: p.get("step").and_then(|v| v.as_f64()).map(|v| f(v as f32)),
            defaults: defaults(p.get("defaults")),
        })
        .collect()
}

fn plugin(text: &str) -> PluginDefinition {
    let v: serde_json::Value = serde_json::from_str(text).unwrap();
    PluginDefinition {
        component: v["component"].as_str().unwrap().to_string(),
        extends: v.get("extends").and_then(|e| e.as_str()).map(str::to_string),
        parent_key: None,
        variants: texts(v.get("variants")),
        states: texts(v.get("states")),
        sizes: texts(v.get("sizes")),
        variant_props: props(v.get("variantProps")),
        size_props: props(v.get("sizeProps")),
    }
}

fn nested(states: &[(&str, &str)]) -> DefaultValue {
    let mut out = TextMap::new();
    for (state, value) in states {
        out.insert(state.to_string(), TokenOrValue::String(value.to_string()));
    }
    DefaultValue::Nested(out)
}

fn variant_state_defaults(values: &[(&str, &[(&str, &str)])]) -> PropDefaults {
    let mut out = PropDefaults::default();
    for (variant, states) in values {
        out.values.insert(variant.to_string(), nested(states));
    }
    out
}

fn float_size_defaults(values: &[(&str, f64)]) -> PropDefaults {
    let mut out = PropDefaults::default();
    for (size, value) in values {
        out.values.insert(size.to_string(), direct(*value));
    }
    out
}

fn direct(value: f64) -> DefaultValue {
    DefaultValue::Direct(TokenOrValue::Float(double(value)))
}

fn names(list: &[&str]) -> Vec<String> {
    list.iter().map(|s| s.to_string()).collect()
}

fn color_prop(name: &str, display: &str, defaults: PropDefaults) -> PropDefinition {
    PropDefinition {
        name: name.to_string(),
        display_name: Some(display.to_string()),
        prop_type: "color".to_string(),
        min: None,
        max: None,
        step: None,
        defaults,
    }
}

fn float_prop(name: &str, display: &str, max: f32, defaults: PropDefaults) -> PropDefinition {
    PropDefinition {
        name: name.to_string(),
        display_name: Some(display.to_string()),
        prop_type: "float".to_string(),
        min: Some(f(0.0)),
        max: Some(f(max)),
        step: Some(f(1.0)),
        defaults,
    }
}

fn definition(
    component: &str,
    variants: &[&str],
    states: &[&str],
    sizes: &[&str],
    variant_props: Vec<PropDefinition>,
    size_props: Vec<PropDefinition>,
) -> PluginDefinition {
    PluginDefinition {
        extends: None,
        parent_key: None,
        component: component.to_string(),
        variants: names(variants),
        states: names(states),
        sizes: names(sizes),
        variant_props,
        size_props,
    }
}

fn has(props: &[PropDefinition], name: &str) -> bool {
    props.iter().any(|p| p.name == name)
}

fn find<'a>(props: &'a [PropDefinition], name: &str) -> &'a PropDefinition {
    props.iter().find(|p| p.name == name).unwrap()
}

fn make_parent() -> PluginDefinition {
    plugin(
        r##"{
        "component": "Input",
        "variants": ["default"],
        "states": ["normal", "focused", "disabled"],
        "sizes": ["sm", "md", "lg"],
        "variantProps": [
            { "name": "background", "type": "color",
              "defaults": { "default": { "normal": "color.surface" } } },
            { "name": "borderColor", "type": "color",
              "defaults": { "default": { "normal": "color.border" } } }
        ],
        "sizeProps": [
            { "name": "borderRadius", "type": "float",
              "defaults": { "default": 8.0 } }
        ]
    }"##,
    )
}

#[test]
fn pure_extends_inherits_all_props_and_lists() {
    let child = plugin(r##"{ "component": "Search", "extends": "Input" }"##);
    assert_eq!(child.extends.as_deref(), Some("Input"));
    let mut by_name = TextMap::new();
    by_name.insert("Input".to_string(), make_parent());
    let resolved = resolve_extends_chain(child, &by_name).unwrap();
    assert!(resolved.extends.is_none());
    assert_eq!(resolved.component, "Search");
    assert_eq!(resolved.variants, vec!["default"]);
    assert_eq!(resolved.states, vec!["normal", "focused", "disabled"]);
    assert_eq!(resolved.sizes, vec!["sm", "md", "lg"]);
    assert_eq!(resolved.variant_props.len(), 2);
    assert_eq!(resolved.variant_props[0].name, "background");
    assert_eq!(resolved.size_props.len(), 1);
    assert_eq!(resolved.parent_key.as_deref(), Some("Input"));
}

#[test]
fn child_overrides_a_prop_by_name_and_adds_new_ones() {
    let child = plugin(
        r##"{
        "component": "Dropdown",
        "extends": "Input",
        "sizeProps": [
            { "name": "borderRadius", "type": "float",
              "defaults": { "default": 12.0 } },
            { "name": "chevronSize", "type": "float",
              "defaults": { "default": 16.0 } }
        ]
    }"##,
    );
    let mut by_name = TextMap::new();
    by_name.insert("Input".to_string(), make_parent());
    let resolved = resolve_extends_chain(child, &by_name).unwrap();
    assert_eq!(resolved.size_props.len(), 2);
    let radius = find(&resolved.size_props, "borderRadius");
    assert_eq!(
        radius.defaults.values.get("default").unwrap().get_direct(),
        Some(&TokenOrValue::Float(double(12.0)))
    );
    assert!(has(&resolved.size_props, "chevronSize"));
    assert_eq!(resolved.variant_props.len(), 2);
}

const INPUT: &str = r##"{
    "component": "Input",
    "variants": ["default"],
    "states": ["normal", "focused", "disabled"],
    "sizes": ["sm", "md", "lg"],
    "variantProps": [
        { "name": "background", "type": "color", "defaults": {
            "default": { "normal": "color.surface", "focused": "color.surface", "disabled": "color.surface" } } },
        { "name": "border-color", "type": "color", "defaults": {
            "default": { "normal": "color.border", "focused": "color.primary", "disabled": "color.border" } } }
    ],
    "sizeProps": [
        { "name": "border-width", "type": "float", "defaults": { "sm": 1.0, "md": 1.0, "lg": 1.0 } },
        { "name": "border-radius", "type": "float", "defaults": { "sm": 4.0, "md": 8.0, "lg": 12.0 } },
        { "name": "field-height", "type": "float", "defaults": { "sm": 36.0, "md": 44.0, "lg": 52.0 } }
    ]
}"##;

const SEARCH: &str = r##"{ "component": "Search", "extends": "Input" }"##;

fn input_and_search() -> Vec<(BuiltinComponentSpec, PluginDefinition)> {
    vec![
        (BuiltinComponentSpec { key: "input", component: "Input", source_file: "input.slint" }, plugin(INPUT)),
        (
            BuiltinComponentSpec { key: "search", component: "Search", source_file: "search.slint" },
            plugin(SEARCH),
        ),
    ]
}

fn shipped() -> TextMap<PluginDefinition> {
    let mut out = TextMap::new();
    out.insert("input".to_string(), plugin(INPUT));
    out.insert("search".to_string(), plugin(SEARCH));
    out
}

#[test]
fn full_pipeline_preserves_inherited_data_through_normalize() {
    let normalized = settle_plugins(input_and_search(), &shipped()).unwrap();
    let (_, search) = normalized.iter().find(|(s, _)| s.key == "search").unwrap();
    let (_, input) = normalized.iter().find(|(s, _)| s.key == "input").unwrap();
    assert!(!search.variants.is_empty(), "Search lost its variants");
    assert!(!search.states.is_empty(), "Search lost its states");
    assert!(!search.sizes.is_empty(), "Search lost its sizes");
    assert!(!search.variant_props.is_empty(), "Search lost its variantProps after normalize");
    assert!(!search.size_props.is_empty(), "Search lost its sizeProps after normalize");
    assert_eq!(search.variants, input.variants);
    assert_eq!(search.states, input.states);
    assert_eq!(search.sizes, input.sizes);
    assert_eq!(search.variant_props.len(), input.variant_props.len());
    assert_eq!(search.size_props.len(), input.size_props.len());
}

#[test]
fn loaded_search_themedata_marks_per_size_props_as_overrides() {
    let normalized = settle_plugins(input_and_search(), &shipped()).unwrap();
    let (_, search_plugin) = normalized.iter().find(|(s, _)| s.key == "search").unwrap();
    assert!(!search_plugin.size_props.is_empty(), "Search should have inherited Input's size_props");
    let data = ComponentThemeData::from_plugin(search_plugin, &TokenStore::default());
    for size in &search_plugin.sizes {
        assert!(data.size_overrides.get(size).is_some());
    }
    assert!(data.size_overrides.get("lg").unwrap().contains("border-radius"));
}

#[test]
fn real_search_plugin_extends_input_fully() {
    let resolved = apply_inheritance(input_and_search()).unwrap();
    let (_, input_plugin) = resolved.iter().find(|(s, _)| s.key == "input").unwrap();
    let (_, search_plugin) = resolved.iter().find(|(s, _)| s.key == "search").unwrap();
    assert!(search_plugin.extends.is_none(), "extends should be resolved");
    assert_eq!(search_plugin.component, "Search");
    assert_eq!(search_plugin.variant_props.len(), input_plugin.variant_props.len());
    assert_eq!(search_plugin.size_props.len(), input_plugin.size_props.len());
    assert_eq!(search_plugin.variants, input_plugin.variants);
    assert_eq!(search_plugin.states, input_plugin.states);
    assert_eq!(search_plugin.sizes, input_plugin.sizes);
}

#[test]
fn extends_unknown_parent_errors() {
    let child = plugin(r##"{ "component": "Foo", "extends": "Nonexistent" }"##);
    let err = resolve_extends_chain(child, &TextMap::new()).unwrap_err();
    assert!(err.contains("unknown plugin"), "got {err}");
}

#[test]
fn extends_cycle_errors() {
    let mut by_name = TextMap::new();
    by_name.insert("A".to_string(), plugin(r##"{ "component": "A", "extends": "B" }"##));
    by_name.insert("B".to_string(), plugin(r##"{ "component": "B", "extends": "A" }"##));
    let err = resolve_extends_chain(by_name.get("A").unwrap().clone(), &by_name).unwrap_err();
    assert!(err.contains("cycle"), "got {err}");
}

#[test]
fn test_normalize_plugin_definition_migrates_default_size_axis() {
    let old = definition(
        "Input",
        &["default", "filled", "outlined"],
        &["normal", "focused", "disabled"],
        &["default"],
        Vec::new(),
        vec![float_prop("field-height", "Field Height", 128.0, float_size_defaults(&[("default", 44.0)]))],
    );

    let normalized = normalize_plugin_definition("input", old, Some(&plugin(INPUT)));
    assert_eq!(normalized.sizes, vec!["sm", "md", "lg"]);

    let field_height = find(&normalized.size_props, "field-height");
    assert_eq!(field_height.defaults.values.get("sm"), Some(&direct(44.0)));
    assert_eq!(field_height.defaults.values.get("md"), Some(&direct(44.0)));
    assert_eq!(field_height.defaults.values.get("lg"), Some(&direct(44.0)));
}

#[test]
fn sizes_without_a_default_of_their_own_keep_following_the_base() {
    let sparse = definition(
        "Input",
        &["default"],
        &["normal", "focused", "disabled"],
        &["sm", "md", "lg"],
        Vec::new(),
        vec![float_prop("field-height", "Field Height", 128.0, float_size_defaults(&[("default", 44.0), ("lg", 60.0)]))],
    );

    let normalized = normalize_plugin_definition("input", sparse, Some(&plugin(INPUT)));
    let values = &find(&normalized.size_props, "field-height").defaults.values;
    assert_eq!(values.get("default"), Some(&direct(44.0)));
    assert_eq!(values.get("sm"), None);
    assert_eq!(values.get("md"), None);
    assert_eq!(values.get("lg"), Some(&direct(60.0)));
}

#[test]
fn test_normalize_plugin_definition_collapses_card_sizes_to_default_using_md() {
    let shipped = definition(
        "Card",
        &["default"],
        &["normal"],
        &["default"],
        Vec::new(),
        vec![float_prop("card-padding", "Card Padding", 128.0, float_size_defaults(&[("default", 24.0)]))],
    );
    let old = definition(
        "Card",
        &["default"],
        &["normal"],
        &["sm", "md", "lg"],
        Vec::new(),
        vec![float_prop(
            "card-padding",
            "Card Padding",
            128.0,
            float_size_defaults(&[("sm", 12.0), ("md", 16.0), ("lg", 20.0)]),
        )],
    );

    let normalized = normalize_plugin_definition("card", old, Some(&shipped));
    assert_eq!(normalized.sizes, vec!["default"]);
    assert_eq!(
        find(&normalized.size_props, "card-padding").defaults.values.get("default"),
        Some(&direct(16.0))
    );
}

#[test]
fn test_normalize_plugin_definition_collapses_image_to_width_and_height_only() {
    let shipped = definition(
        "Image",
        &["default"],
        &["normal"],
        &["default"],
        Vec::new(),
        vec![
            float_prop("frame-width", "Frame Width", 512.0, float_size_defaults(&[("default", 256.0)])),
            float_prop("frame-height", "Frame Height", 512.0, float_size_defaults(&[("default", 192.0)])),
        ],
    );
    let old = definition(
        "Image",
        &["default"],
        &["normal", "focused"],
        &["sm", "md", "lg"],
        Vec::new(),
        vec![
            float_prop(
                "font-size",
                "Font Size",
                64.0,
                float_size_defaults(&[("sm", 14.0), ("md", 16.0), ("lg", 18.0)]),
            ),
            float_prop(
                "frame-height",
                "Frame Height",
                512.0,
                float_size_defaults(&[("sm", 180.0), ("md", 220.0), ("lg", 280.0)]),
            ),
        ],
    );

    let normalized = normalize_plugin_definition("image", old, Some(&shipped));
    assert_eq!(normalized.states, vec!["normal"]);
    assert_eq!(normalized.sizes, vec!["default"]);
    assert_eq!(normalized.variant_props.len(), 0);
    assert_eq!(normalized.size_props.len(), 2);
    assert!(has(&normalized.size_props, "frame-width"));
    assert!(has(&normalized.size_props, "frame-height"));
    assert_eq!(
        find(&normalized.size_props, "frame-height").defaults.values.get("default"),
        Some(&direct(192.0))
    );
}

#[test]
fn test_normalize_plugin_definition_removes_loading_state() {
    let shipped = definition(
        "Button",
        &["primary"],
        &["normal", "disabled"],
        &["sm", "md", "lg"],
        vec![color_prop(
            "background",
            "Background",
            variant_state_defaults(&[("primary", &[("normal", "color.primary"), ("disabled", "color.primary")])]),
        )],
        Vec::new(),
    );
    let old = definition(
        "Button",
        &["primary"],
        &["normal", "loading", "disabled"],
        &["small"],
        vec![color_prop(
            "background",
            "Background",
            variant_state_defaults(&[("primary", &[("normal", "color.primary"), ("loading", "color.primary.light")])]),
        )],
        Vec::new(),
    );

    let normalized = normalize_plugin_definition("button", old, Some(&shipped));
    assert!(!normalized.states.iter().any(|state| state == "loading"));

    match find(&normalized.variant_props, "background").defaults.values.get("primary").unwrap() {
        DefaultValue::Nested(states) => assert!(!states.contains_key("loading")),
        DefaultValue::Direct(_) => panic!("expected nested defaults"),
    }
}

#[test]
fn test_normalize_legacy_variant_names_does_not_invent_focused_state() {
    let old = definition(
        "Spinner",
        &["primary"],
        &["normal"],
        &["md"],
        vec![color_prop(
            "accent-color-override",
            "Accent",
            variant_state_defaults(&[("primary", &[("normal", "color.primary")])]),
        )],
        Vec::new(),
    );

    let normalized = normalize_legacy_variant_names(old);
    assert_eq!(normalized.states, vec!["normal".to_string()]);

    match find(&normalized.variant_props, "accent-color-override").defaults.values.get("primary").unwrap() {
        DefaultValue::Nested(states) => {
            assert_eq!(states.len(), 1);
            assert!(states.contains_key("normal"));
            assert!(!states.contains_key("focused"));
        }
        DefaultValue::Direct(_) => panic!("expected nested defaults"),
    }
}

#[test]
fn test_normalize_plugin_definition_removes_slider_focus_ring_prop() {
    let track = || {
        color_prop(
            "track-color",
            "Track Color",
            variant_state_defaults(&[(
                "default",
                &[("normal", "color.secondary"), ("focused", "color.secondary"), ("disabled", "color.border")],
            )]),
        )
    };
    let shipped = definition(
        "Slider",
        &["default"],
        &["normal", "focused", "disabled"],
        &["sm", "md", "lg"],
        vec![track()],
        Vec::new(),
    );
    let old = definition(
        "Slider",
        &["default"],
        &["normal", "focused", "disabled"],
        &["sm", "md", "lg"],
        vec![
            track(),
            color_prop(
                "focus-ring-color",
                "Focus Ring",
                variant_state_defaults(&[(
                    "default",
                    &[
                        ("normal", "color.transparent"),
                        ("focused", "color.primary.light"),
                        ("disabled", "color.transparent"),
                    ],
                )]),
            ),
        ],
        Vec::new(),
    );

    let normalized = normalize_plugin_definition("slider", old, Some(&shipped));
    assert!(!has(&normalized.variant_props, "focus-ring-color"));
    assert!(has(&normalized.variant_props, "track-color"));
}

#[test]
fn test_normalize_plugin_definition_removes_icon_focused_state() {
    let shipped = definition(
        "Icon",
        &["default"],
        &["normal"],
        &["sm", "md", "lg"],
        vec![color_prop(
            "icon-color",
            "Color",
            variant_state_defaults(&[("default", &[("normal", "color.foreground")])]),
        )],
        Vec::new(),
    );
    let old = definition(
        "Icon",
        &["default"],
        &["normal", "focused"],
        &["sm", "md", "lg"],
        vec![color_prop(
            "icon-color",
            "Color",
            variant_state_defaults(&[("default", &[("normal", "color.foreground"), ("focused", "color.primary")])]),
        )],
        Vec::new(),
    );

    let normalized = normalize_plugin_definition("icon", old, Some(&shipped));
    assert_eq!(normalized.states, vec!["normal".to_string()]);

    match find(&normalized.variant_props, "icon-color").defaults.values.get("default").unwrap() {
        DefaultValue::Nested(states) => {
            assert_eq!(states.len(), 1);
            assert!(states.contains_key("normal"));
            assert!(!states.contains_key("focused"));
        }
        DefaultValue::Direct(_) => panic!("expected nested defaults"),
    }
}

#[test]
fn test_normalize_plugin_definition_updates_legacy_shipped_size_defaults() {
    let row = |sm: f64, md: f64, lg: f64| {
        definition(
            "Link",
            &["default"],
            &["normal", "disabled"],
            &["sm", "md", "lg"],
            Vec::new(),
            vec![float_prop(
                "row-height",
                "Row Height",
                128.0,
                float_size_defaults(&[("sm", sm), ("md", md), ("lg", lg)]),
            )],
        )
    };

    let normalized = normalize_plugin_definition("link", row(28.0, 32.0, 36.0), Some(&row(36.0, 44.0, 52.0)));
    let row_height = find(&normalized.size_props, "row-height");

    assert_eq!(row_height.defaults.values.get("sm"), Some(&direct(36.0)));
    assert_eq!(row_height.defaults.values.get("md"), Some(&direct(44.0)));
    assert_eq!(row_height.defaults.values.get("lg"), Some(&direct(52.0)));
}

#[test]
fn test_normalize_plugin_definition_removes_legacy_chip_height_controls() {
    let variants = ["filled", "outlined", "soft"];
    let states = ["normal", "focused", "pressed", "disabled"];
    let shipped = definition(
        "Chip",
        &variants,
        &states,
        &["sm", "md", "lg"],
        Vec::new(),
        vec![float_prop(
            "padding-vertical",
            "Padding Vertical",
            64.0,
            float_size_defaults(&[("sm", 4.0), ("md", 6.0), ("lg", 8.0)]),
        )],
    );
    let old = definition(
        "Chip",
        &variants,
        &states,
        &["sm", "md", "lg"],
        Vec::new(),
        vec![
            float_prop(
                "chip-height",
                "Chip Height",
                160.0,
                float_size_defaults(&[("sm", 24.0), ("md", 28.0), ("lg", 32.0)]),
            ),
            float_prop(
                "row-height",
                "Row Height",
                160.0,
                float_size_defaults(&[("sm", 36.0), ("md", 44.0), ("lg", 52.0)]),
            ),
        ],
    );

    let normalized = normalize_plugin_definition("chip", old, Some(&shipped));

    assert!(has(&normalized.size_props, "padding-vertical"));
    assert!(!has(&normalized.size_props, "chip-height"));
    assert!(!has(&normalized.size_props, "row-height"));
}

#[test]
fn test_normalize_plugin_definition_migrates_progress_bar_variants_and_props() {
    let shipped = definition(
        "ProgressBar",
        &["default", "secondary", "success", "warning", "danger"],
        &["normal"],
        &["sm", "md", "lg"],
        vec![
            color_prop(
                "track-color",
                "Track Color",
                variant_state_defaults(&[
                    ("default", &[("normal", "color.secondary")]),
                    ("secondary", &[("normal", "color.secondary")]),
                    ("success", &[("normal", "color.secondary")]),
                    ("warning", &[("normal", "color.secondary")]),
                    ("danger", &[("normal", "color.secondary")]),
                ]),
            ),
            color_prop(
                "label-color",
                "Label Color",
                variant_state_defaults(&[("default", &[("normal", "color.foreground")])]),
            ),
        ],
        Vec::new(),
    );
    let old = definition(
        "ProgressBar",
        &["primary", "neutral", "success", "warning", "danger"],
        &["normal"],
        &["sm", "md", "lg"],
        vec![
            color_prop(
                "track-color",
                "Track Color",
                variant_state_defaults(&[
                    ("primary", &[("normal", "color.secondary")]),
                    ("neutral", &[("normal", "color.secondary")]),
                ]),
            ),
            color_prop(
                "stripe-color",
                "Stripe Color",
                variant_state_defaults(&[("primary", &[("normal", "#ffffff4d")])]),
            ),
        ],
        Vec::new(),
    );

    let normalized = normalize_plugin_definition("progress_bar", old, Some(&shipped));
    assert!(normalized.variants.iter().any(|variant| variant == "default"));
    assert!(normalized.variants.iter().any(|variant| variant == "secondary"));
    assert!(!normalized.variants.iter().any(|variant| variant == "neutral"));
    assert!(has(&normalized.variant_props, "label-color"));
    assert!(!has(&normalized.variant_props, "stripe-color"));

    let track_color = find(&normalized.variant_props, "track-color");
    assert!(track_color.defaults.values.contains_key("default"));
    assert!(track_color.defaults.values.contains_key("secondary"));
}

#[test]
fn test_normalize_plugin_definition_removes_textarea_underlined_variant() {
    let same = |token: &'static str| [("normal", token), ("focused", token), ("disabled", token)];
    let secondary = same("color.secondary");
    let surface = same("color.surface");
    let transparent = same("color.transparent");
    let shipped = definition(
        "TextArea",
        &["flat", "bordered", "faded"],
        &["normal", "focused", "disabled"],
        &["sm", "md", "lg"],
        vec![color_prop(
            "background",
            "Background",
            variant_state_defaults(&[("flat", &secondary), ("bordered", &surface), ("faded", &secondary)]),
        )],
        Vec::new(),
    );
    let old = definition(
        "TextArea",
        &["flat", "bordered", "faded", "underlined"],
        &["normal", "focused", "disabled"],
        &["sm", "md", "lg"],
        vec![color_prop(
            "background",
            "Background",
            variant_state_defaults(&[
                ("flat", &secondary),
                ("bordered", &surface),
                ("faded", &secondary),
                ("underlined", &transparent),
            ]),
        )],
        Vec::new(),
    );

    let normalized = normalize_plugin_definition("textarea", old, Some(&shipped));
    assert_eq!(normalized.variants, names(&["flat", "bordered", "faded"]));
    assert!(!find(&normalized.variant_props, "background").defaults.values.contains_key("underlined"));
}

#[test]
fn test_normalize_plugin_definition_dedupes_duplicate_props() {
    let height = || {
        float_prop(
            "control-height",
            "Control Height",
            160.0,
            float_size_defaults(&[("sm", 36.0), ("md", 44.0), ("lg", 52.0)]),
        )
    };
    let variants = ["solid", "bordered", "light", "underlined"];
    let states = ["normal", "focused", "pressed", "disabled"];
    let shipped = definition("Tabs", &variants, &states, &["sm", "md", "lg"], vec![], vec![height()]);
    let old = definition("Tabs", &variants, &states, &["sm", "md", "lg"], vec![], vec![height(), height()]);

    let normalized = normalize_plugin_definition("tabs", old, Some(&shipped));

    assert_eq!(normalized.size_props.iter().filter(|prop| prop.name == "control-height").count(), 1);
}

#[test]
fn large_files_are_not_read() {
    assert_eq!(plugin_origin(Some(1_048_576), false), PluginOrigin::File);
    assert_eq!(plugin_origin(Some(1_048_577), true), PluginOrigin::TooLarge);
    assert_eq!(plugin_origin(None, true), PluginOrigin::Default);
    assert_eq!(plugin_origin(None, false), PluginOrigin::Missing);
    assert_eq!(
        too_large_error("button", "/tmp/button.json", 2_000_000),
        "Plugin button at /tmp/button.json is 2000000 bytes (limit 1048576); refusing to load"
    );
}

#[test]
fn mangled_definitions_are_restored() {
    let empty = definition("Search", &[], &[], &["sm"], vec![], vec![]);
    assert_eq!(plugin_repair("search", empty, true, None), PluginRepair::Restore);
    match plugin_repair("search", plugin(SEARCH), true, None) {
        PluginRepair::Update(p) => assert_eq!(p.extends.as_deref(), Some("Input")),
        PluginRepair::Restore => panic!("a definition that extends another is whole"),
    }
}

#[test]
fn paths_hang_below_the_home_directory() {
    assert_eq!(get_theme_editor_path(Some("/home/a")), "/home/a/.foundation/theme-editor");
    assert_eq!(get_plugins_path(Some("/home/a")), "/home/a/.foundation/theme-editor/plugins");
    assert_eq!(get_tokens_path(None), "./.foundation/theme-editor/tokens.json");
}

#[test]
fn definitions_are_made_from_component_sources() {
    let content = "import { ControlSize } from \"types.slint\";
export enum ChipVariant {
    filled,
    outlined,
}
export component Chip {
    in property <ChipVariant> variant: ChipVariant.filled;
    in property <ControlSize> size: ControlSize.md;
    in property <color> background: #ffffff;
    in property <length> border-radius: 8px;
    in property <bool> disabled;
}
";
    let mut sources = TextMap::new();
    sources.insert(
        "types.slint".to_string(),
        SourceText::Read("export enum ControlSize {\n    sm,\n    md,\n}\n".to_string()),
    );
    let spec = BuiltinComponentSpec { key: "chip", component: "Chip", source_file: "chip.slint" };
    let made = auto_generate_plugin(&spec, content, &sources).unwrap();
    assert_eq!(made.component, "Chip");
    assert_eq!(made.states, names(&["normal", "disabled"]));
    assert_eq!(made.variants, names(&["filled", "outlined"]));
    assert_eq!(made.sizes, names(&["sm", "md"]));
    assert!(has(&made.variant_props, "background"));
    assert!(has(&made.size_props, "border-radius"));
    assert_eq!(humanize_prop_name("border-radius"), "Border Radius");

    let mut broken = TextMap::new();
    broken.insert("types.slint".to_string(), SourceText::Failed("gone".to_string()));
    assert_eq!(auto_generate_plugin(&spec, content, &broken), Err("gone".to_string()));
}

fn token_store(text: &str) -> TokenStore {
    let value: serde_json::Value = serde_json::from_str(text).unwrap();
    let mut out = TokenStore::default();
    for (category, entries) in value.as_object().unwrap() {
        let mut tokens = TextMap::new();
        for (key, entry) in entries.as_object().unwrap() {
            let token = match entry {
                serde_json::Value::String(s) => TokenValue::String(s.clone()),
                serde_json::Value::Bool(b) => TokenValue::Bool(*b),
                other => {
                    let number = other.as_f64().unwrap();
                    TokenValue::Number(Measure { single: f(number as f32), int: number as i32 })
                }
            };
            tokens.insert(key.clone(), token);
        }
        out.categories.insert(category.clone(), tokens);
    }
    out
}

#[test]
fn test_default_tokens_parses() {
    let tokens = token_store(&default_tokens_json());
    assert!(tokens.resolve("color.primary").is_some());
    assert!(tokens.resolve("color.muted").is_some());
    assert!(tokens.resolve("color.border").is_some());
    assert!(tokens.resolve("color.success").is_some());
    assert!(tokens.resolve("color.warning").is_some());
    assert!(tokens.resolve("spacing.md").is_some());
}

#[test]
fn property_lines_may_be_indented() {
    for line in [
        "in property <length> border-radius: 4px;",
        "    in property <length> border-radius: 4px;",
        "\tin-out property < length > border-radius;  ",
    ] {
        let property = parse_themeable_property(line).unwrap();
        assert_eq!(property.declared_type, "length", "{line}");
        assert_eq!(property.name.trim_end_matches(';'), "border-radius", "{line}");
    }
    assert!(parse_themeable_property("  out property <length> border-radius;").is_none());
    assert!(parse_themeable_property("  in property <bool> border-radius;").is_none());
    assert!(parse_themeable_property("  in property <length> elsewhere;").is_none());
}
