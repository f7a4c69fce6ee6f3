use theme_editor::color::{color_hex, Color};
use theme_editor::component_json::{export_component_theme_json, import_component_theme_json};
use theme_editor::export_theme::apply_property_value_to_export_style;
use theme_editor::fallback::{
    component_parent_data, size_prop_is_overridden_for_ui, variant_prop_is_overridden_for_ui,
};
use theme_editor::json::{Json, JsonObject};
use theme_editor::json_text::json_from_text;
use theme_editor::literals::ExportLiteral;
use theme_editor::live::{resolve_export_literal_against_store, resolve_property_value_from_store};
use theme_editor::loader::BuiltinComponentSpec;
use theme_editor::plugin_files::settle_plugins;
use theme_editor::reconcile::{build_theme_record, component_plugin_map};
use theme_editor::record_json::{
    export_theme_record_json, export_theme_record_text, import_theme_record_json, import_theme_record_text,
    load_builtin_theme_records, load_builtin_theme_texts, read_theme_sources, ThemeSource, ThemeText,
};
use theme_editor::records::{
    clear_component_override_ownership, color_token_override_path, is_base_theme_name, normalize_theme_identifier,
    parent_theme_options, ThemeMeta, ThemeRecord, BASE_THEME_NAME,
};
use theme_editor::rust_export::generate_theme_rust_export;
use theme_editor::scalar::Scalar;
use theme_editor::schema::{DefaultValue, PluginDefinition, PropDefaults, PropDefinition, Real, TokenOrValue};
use theme_editor::storage::{ComponentThemeData, PropertyValue, DEFAULT_SIZE_KEY};
use theme_editor::store::{Measure, TokenStore, TokenValue};
use theme_editor::style::StyleProps;
use theme_editor::textmap::TextMap;
use theme_editor::theme_source::theme_function_name;
use theme_editor::token_theme::{
    all_token_override_keys, collect_token_override_keys, export_token_theme_json, import_token_theme_json,
    token_store_from_theme, unknown_token_keys, BorderWidths, FontWeights, Palette, Radii, SizeScale, Spacing,
    TokenTheme, Typography,
};
use theme_editor::validate::validate_theme_record_for_save;

fn f(value: f32) -> Scalar {
    Scalar { bits: value.to_bits() }
}

fn json(text: &str) -> Json {
    json_from_text(text).unwrap()
}

fn double(value: f64) -> Real {
    Real { single: f(value as f32), whole: value as i64, integral: value.fract() == 0.0, text: format!("{value}") }
}

fn token_or_value(value: &serde_json::Value) -> TokenOrValue {
    match value {
        serde_json::Value::String(s) => TokenOrValue::String(s.clone()),
        serde_json::Value::Number(n) => TokenOrValue::Float(double(n.as_f64().unwrap())),
        serde_json::Value::Bool(b) => TokenOrValue::Bool(*b),
        other => panic!("no token or value: {other}"),
    }
}

fn texts(value: Option<&serde_json::Value>) -> Vec<String> {
    value
        .and_then(|v| v.as_array())
        .map(|list| list.iter().map(|v| v.as_str().unwrap().to_string()).collect())
        .unwrap_or_default()
}

fn defaults(value: Option<&serde_json::Value>) -> PropDefaults {
    let mut out = PropDefaults::default();
    if let Some(map) = value.and_then(|v| v.as_object()) {
        for (key, entry) in map {
            let made = match entry.as_object() {
                Some(states) => {
                    let mut nested = TextMap::new();
                    for (state, v) in states {
                        nested.insert(state.clone(), token_or_value(v));
                    }
                    DefaultValue::Nested(nested)
                }
                None => DefaultValue::Direct(token_or_value(entry)),
            };
            out.values.insert(key.clone(), made);
        }
    }
    out
}

fn props(value: Option<&serde_json::Value>) -> Vec<PropDefinition> {
    let list = match value.and_then(|v| v.as_array()) {
        Some(list) => list,
        None => return Vec::new(),
    };
    list.iter()
        .map(|p| PropDefinition {
            name: p["name"].as_str().unwrap().to_string(),
            display_name: p.get("displayName").and_then(|v| v.as_str()).map(str::to_string),
            prop_type: p["type"].as_str().unwrap().to_string(),
            min: p.get("min").and_then(|v| v.as_f64()).map(|v| f(v as f32)),
            max: p.get("max").and_then(|v| v.as_f64()).map(|v| f(v as f32)),
            step: p.get("step").and_then(|v| v.as_f64()).map(|v| f(v as f32)),
            defaults: defaults(p.get("defaults")),
        })
        .collect()
}

fn plugin(text: &str) -> PluginDefinition {
    let v: serde_json::Value = serde_json::from_str(text).unwrap();
    PluginDefinition {
        component: v["component"].as_str().unwrap().to_string(),
        extends: v.get("extends").and_then(|e| e.as_str()).map(str::to_string),
        parent_key: None,
        variants: texts(v.get("variants")),
        states: texts(v.get("states")),
        sizes: texts(v.get("sizes")),
        variant_props: props(v.get("variantProps")),
        size_props: props(v.get("sizeProps")),
    }
}

const BUTTON: &str = r##"{
    "component": "Button",
    "variants": ["primary", "secondary"],
    "states": ["normal", "focused", "pressed", "disabled"],
    "sizes": ["sm", "md", "lg"],
    "variantProps": [
        { "name": "background", "type": "color", "defaults": {
            "primary": { "normal": "color.primary", "focused": "color.primary",
                         "pressed": "color.primary.dark", "disabled": "color.primary" },
            "secondary": { "normal": "color.secondary", "focused": "color.secondary",
                           "pressed": "color.secondary.dark", "disabled": "color.secondary" } } },
        { "name": "foreground", "type": "color", "defaults": {
            "primary": { "normal": "color.background", "focused": "color.background",
                         "pressed": "color.background", "disabled": "color.background" },
            "secondary": { "normal": "color.foreground", "focused": "color.foreground",
                           "pressed": "color.foreground", "disabled": "color.foreground" } } },
        { "name": "borderColor", "type": "color", "defaults": {
            "primary": { "normal": "color.transparent", "focused": "color.primary.light",
                         "pressed": "color.transparent", "disabled": "color.transparent" },
            "secondary": { "normal": "color.transparent", "focused": "color.primary.light",
                           "pressed": "color.transparent", "disabled": "color.transparent" } } },
        { "name": "opacity", "type": "float", "min": 0, "max": 1, "step": 0.05, "defaults": {
            "primary": { "normal": 1.0, "focused": 1.0, "pressed": 1.0, "disabled": 0.5 },
            "secondary": { "normal": 1.0, "focused": 1.0, "pressed": 1.0, "disabled": 0.5 } } }
    ],
    "sizeProps": [
        { "name": "height", "type": "float", "min": 0, "max": 96, "step": 1,
          "defaults": { "sm": 36.0, "md": 44.0, "lg": 52.0 } },
        { "name": "fontFamily", "type": "string",
          "defaults": { "sm": "font.primary", "md": "font.primary", "lg": "font.primary" } }
    ]
}"##;

fn token(key: &str) -> PropertyValue {
    PropertyValue::Token(key.to_string())
}

fn value<'a>(data: &'a ComponentThemeData, variant: &str, state: &str, prop: &str) -> &'a PropertyValue {
    data.variant_props.get(variant).unwrap().get2(state, prop).unwrap()
}

fn size_value<'a>(data: &'a ComponentThemeData, size: &str, prop: &str) -> &'a PropertyValue {
    data.size_props.get2(size, prop).unwrap()
}

fn at<'a>(value: &'a Json, path: &[&str]) -> Option<&'a Json> {
    let mut current = value;
    for key in path {
        current = current.get(key)?;
    }
    Some(current)
}

fn text_at<'a>(value: &'a Json, path: &[&str]) -> Option<&'a str> {
    at(value, path).and_then(|v| v.as_str())
}

fn single_at(value: &Json, path: &[&str]) -> Option<Scalar> {
    at(value, path).and_then(|v| v.as_number()).map(|n| n.single)
}

fn palette(base: u8) -> Palette {
    Palette {
        primary: Color::rgb(base, 1, 2),
        primary_pressed: Color::rgb(base, 3, 4),
        secondary: Color::rgb(base, 5, 6),
        danger: Color::rgb(base, 7, 8),
        surface: Color::rgb(base, 9, 10),
        background: Color::rgb(base, 11, 12),
        text: Color::rgb(base, 13, 14),
        text_muted: Color::rgba(base, 15, 16, 17),
    }
}

fn scale(sm: f32, md: f32, lg: f32) -> SizeScale {
    SizeScale { sm: f(sm), md: f(md), lg: f(lg) }
}

fn base_tokens() -> TokenTheme {
    TokenTheme {
        light: palette(200),
        dark: palette(20),
        spacing: Spacing { xs: f(4.0), sm: f(8.0), md: f(12.0), lg: f(16.0), xl: f(24.0) },
        control_size: scale(36.0, 44.0, 52.0),
        choice_control_size: scale(20.0, 24.0, 28.0),
        switch_size: scale(24.0, 28.0, 32.0),
        icon_size: scale(16.0, 20.0, 24.0),
        border_width: BorderWidths { none: f(0.0), sm: f(1.0), focus: f(2.0) },
        control_radius: scale(12.0, 16.0, 20.0),
        control_padding_inline: scale(14.0, 16.0, 20.0),
        typography: Typography {
            size_xs: f(18.0),
            size_caption: f(19.0),
            size_sm: f(20.0),
            size_md: f(22.0),
            size_lg: f(24.0),
            size_helper: f(17.5),
            primary: "Montserrat".to_string(),
            secondary: "Inter".to_string(),
            tertiary: "Georgia".to_string(),
        },
        font_weight: FontWeights { normal: 400, medium: 500, semibold: 600, bold: 700 },
        radius: Radii { sm: f(8.0), md: f(16.0), lg: f(24.0), full: f(999.0), default_key: "lg".to_string() },
    }
}

type Loaded = Vec<(BuiltinComponentSpec, PluginDefinition)>;

fn base_record(plugins: &Loaded) -> ThemeRecord {
    build_theme_record(BASE_THEME_NAME, true, None, base_tokens(), plugins)
}

fn child_record(name: &str, parent: &str, tokens: TokenTheme) -> ThemeRecord {
    build_theme_record(name, false, Some(parent), tokens, &Vec::new())
}

fn app_theme(base: &ThemeRecord) -> ThemeRecord {
    let mut child = base.clone();
    child.meta = ThemeMeta {
        name: "App Theme".to_string(),
        is_builtin: false,
        parent_name: Some(BASE_THEME_NAME.to_string()),
    };
    clear_component_override_ownership(&mut child);
    child
}

fn button_plugins() -> Loaded {
    let spec = BuiltinComponentSpec { key: "button", component: "Button", source_file: "button.slint" };
    vec![(spec, plugin(BUTTON))]
}

fn complete_base_json(plugins: &Loaded) -> Json {
    let record = base_record(plugins);
    let mut components = JsonObject::new();
    for i in 0..record.component_themes.len() {
        components.insert(
            record.component_themes.key_at(i).clone(),
            export_component_theme_json(record.component_themes.value_at(i)),
        );
    }
    let mut out = JsonObject::new();
    out.insert("id".to_string(), Json::String("base_theme".to_string()));
    out.insert("name".to_string(), Json::String("Base Theme".to_string()));
    out.insert("tokens".to_string(), export_token_theme_json(&base_tokens()));
    out.insert("components".to_string(), Json::Object(components));
    Json::Object(out)
}

#[test]
fn json_color_format_preserves_alpha() {
    assert_eq!(color_hex(Color::rgba(0x11, 0x22, 0x33, 0x80)), "#11223380");
    assert_eq!(color_hex(Color::rgb(0x11, 0x22, 0x33)), "#112233");
}

#[test]
fn export_resolution_follows_token_aliases() {
    let mut tokens = TokenStore::default();
    let mut radius = TextMap::new();
    radius.insert("default".to_string(), TokenValue::String("radius.md".to_string()));
    radius.insert("md".to_string(), TokenValue::Number(Measure { single: f(8.0), int: 8 }));
    tokens.categories.insert("radius".to_string(), radius);

    match resolve_property_value_from_store(&tokens, &token("radius.default")) {
        Some(PropertyValue::Int(value)) => assert_eq!(value, 8),
        Some(PropertyValue::Float(value)) => assert_eq!(value, f(8.0)),
        other => panic!("expected numeric value, got {other:?}"),
    }
}

#[test]
fn export_resolution_maps_legacy_color_aliases() {
    let mut tokens = TokenStore::default();
    let mut color = TextMap::new();
    color.insert("primary.dark".to_string(), TokenValue::String("#112233".to_string()));
    color.insert("muted".to_string(), TokenValue::String("#445566".to_string()));
    tokens.categories.insert("color".to_string(), color);

    assert_eq!(
        resolve_property_value_from_store(&tokens, &token("color.primary-pressed")),
        Some(PropertyValue::Color(Color::rgb(0x11, 0x22, 0x33)))
    );
    assert_eq!(
        resolve_property_value_from_store(&tokens, &token("color.text-muted")),
        Some(PropertyValue::Color(Color::rgb(0x44, 0x55, 0x66)))
    );
    assert_eq!(
        resolve_export_literal_against_store(&tokens, &ExportLiteral::TokenRef("color.text-muted".to_string())),
        Some(PropertyValue::Color(Color::rgb(0x44, 0x55, 0x66)))
    );
    assert_eq!(
        resolve_export_literal_against_store(&tokens, &ExportLiteral::Int(3)),
        Some(PropertyValue::Int(3))
    );
}

#[test]
fn export_preserves_token_refs_for_standard_props() {
    let mut style = StyleProps::new();

    apply_property_value_to_export_style(&mut style, "border-color", &token("color.primary-pressed"));
    apply_property_value_to_export_style(&mut style, "font-family", &PropertyValue::String(String::new()));

    assert!(style.border_color.is_none());
    assert_eq!(style.token_refs.get("border_color").map(String::as_str), Some("color.primary.dark"));
    assert!(style.font_family.is_none());
}

#[test]
fn rust_export_uses_theme_named_entrypoint() {
    let theme = child_record("Example Theme", BASE_THEME_NAME, base_tokens());
    let base_theme = base_record(&Vec::new());

    let rust_code = generate_theme_rust_export(&vec![base_theme, theme], 1).unwrap();

    assert!(rust_code.contains("pub fn example_theme() -> Theme"));
    assert!(!rust_code.contains("theme_example_theme()"));
    assert!(!rust_code.contains("pub fn exported_theme() -> Theme"));
    assert!(rust_code.contains("use ui2::themes::base_theme::base_theme;"));
    assert!(rust_code.contains("extends base_theme();"));
    assert!(!rust_code.contains("pub fn theme_base_theme() -> Theme"));
}

#[test]
fn rust_export_for_base_theme_uses_direct_name() {
    let rust_code = generate_theme_rust_export(&vec![base_record(&Vec::new())], 0).unwrap();

    assert!(rust_code.contains("pub fn base_theme() -> Theme"));
    assert!(!rust_code.contains("theme_base_theme"));
    assert!(!rust_code.contains("use ui2::themes::base_theme::base_theme;"));
    assert!(!rust_code.contains("extends base_theme();"));
    assert_eq!(generate_theme_rust_export(&vec![base_record(&Vec::new())], 1), None);
}

#[test]
fn rust_export_inlines_custom_ancestors_with_unprefixed_private_names() {
    let base_theme = base_record(&Vec::new());
    let parent_theme = child_record("Parent Theme", BASE_THEME_NAME, base_tokens());
    let child_theme = child_record("Child Theme", "Parent Theme", base_tokens());

    let rust_code = generate_theme_rust_export(&vec![base_theme, parent_theme, child_theme], 2).unwrap();

    assert!(rust_code.contains("pub fn child_theme() -> Theme"));
    assert!(rust_code.contains("fn parent_theme() -> Theme"));
    assert!(!rust_code.contains("theme_parent_theme"));
    assert!(!rust_code.contains("theme_child_theme"));
    assert!(rust_code.contains("use ui2::themes::base_theme::base_theme;"));
    assert!(rust_code.contains("extends parent_theme();"));
    assert!(rust_code.contains("extends base_theme();"));
    let parent_at = rust_code.find("fn parent_theme() -> Theme").unwrap();
    let child_at = rust_code.find("pub fn child_theme() -> Theme").unwrap();
    assert!(parent_at < child_at);
}

#[test]
fn rust_export_sanitizes_theme_names_without_theme_prefix() {
    let theme = child_record("Solarized Dark!!!", BASE_THEME_NAME, base_tokens());
    let rust_code = generate_theme_rust_export(&vec![base_record(&Vec::new()), theme], 1).unwrap();

    assert!(rust_code.contains("pub fn solarized_dark() -> Theme"));
    assert!(!rust_code.contains("theme_solarized_dark"));
}

#[test]
fn rust_export_keeps_button_size_styles_token_driven() {
    let mut custom_tokens = base_tokens();
    custom_tokens.typography.primary = "Verdana".to_string();
    custom_tokens.typography.secondary = "Trebuchet MS".to_string();
    custom_tokens.typography.tertiary = "Georgia".to_string();

    let theme = child_record("My Custom Theme", BASE_THEME_NAME, custom_tokens);
    let rust_code = generate_theme_rust_export(&vec![base_record(&Vec::new()), theme], 1).unwrap();

    assert!(rust_code.contains("tokens {"));
    assert!(rust_code.contains("light {"));
    assert!(rust_code.contains("\"font.primary\" = \"Verdana\";"));
    assert!(!rust_code.contains("\"font_family\" = \"Verdana\";"));
    assert!(!rust_code.contains("\"font_size\" = "));
    assert!(!rust_code.contains("\"padding_horizontal\" = "));
    assert!(!rust_code.contains("\"padding_vertical\" = "));
    assert!(!rust_code.contains("\"border_radius\" = "));
}

#[test]
fn rust_export_escapes_texts() {
    let mut tokens = base_tokens();
    tokens.typography.primary = "A\"B\\C\n\u{1}".to_string();
    let theme = child_record("Odd", BASE_THEME_NAME, tokens);
    let rust_code = generate_theme_rust_export(&vec![base_record(&Vec::new()), theme], 1).unwrap();
    assert!(rust_code.contains("\"font.primary\" = \"A\\\"B\\\\C\\n\\u0001\";"), "{rust_code}");
}

#[test]
fn json_export_uses_normalized_parent_and_elides_matching_values() {
    let mut child_tokens = base_tokens();
    child_tokens.typography.primary = "Verdana".to_string();
    let child_theme = child_record("Example Theme", BASE_THEME_NAME, child_tokens);

    let json = export_theme_record_json(&vec![base_record(&Vec::new()), child_theme], 1, &TextMap::new());

    assert_eq!(text_at(&json, &["parent"]), Some("base_theme"));
    assert_eq!(text_at(&json, &["id"]), Some("example_theme"));

    let tokens = at(&json, &["tokens"]).expect("export should contain token overrides");
    assert!(tokens.get("colors").is_none());
    assert!(tokens.get("spacing").is_none());
    assert!(tokens.get("radius").is_none());
    assert_eq!(text_at(tokens, &["typography", "font-primary"]), Some("Verdana"));
    assert_eq!(tokens.get("typography").and_then(|t| t.as_object()).map(|t| t.len()), Some(1));
    assert!(json.get("components").is_none());
}

#[test]
fn json_import_resolves_normalized_parent_ids_and_applies_patches() {
    let base_theme = base_record(&Vec::new());
    let imported = import_theme_record_json(
        &json(
            r##"{
            "id": "example_theme",
            "name": "Example Theme",
            "parent": "base_theme",
            "tokens": { "typography": { "font-primary": "Verdana" } }
        }"##,
        ),
        &Vec::new(),
        &vec![base_theme.clone()],
        &base_tokens(),
    )
    .expect("import should succeed");

    assert_eq!(imported.meta.parent_name.as_deref(), Some(BASE_THEME_NAME));
    assert_eq!(imported.tokens.typography.primary, "Verdana");
    assert_eq!(imported.tokens.typography.secondary, base_theme.tokens.typography.secondary);
}

#[test]
fn imported_token_presence_is_exported_as_override_even_when_value_matches_parent() {
    let base_theme = base_record(&Vec::new());
    let imported = import_theme_record_json(
        &json(
            r##"{
            "id": "example_theme",
            "name": "Example Theme",
            "parent": "base_theme",
            "tokens": { "typography": { "font-primary": "Montserrat" } }
        }"##,
        ),
        &Vec::new(),
        &vec![base_theme.clone()],
        &base_tokens(),
    )
    .expect("import should succeed");

    assert!(imported.token_overrides.contains("typography.font-primary"));
    let exported = export_theme_record_json(&vec![base_theme, imported], 1, &TextMap::new());
    assert_eq!(text_at(&exported, &["tokens", "typography", "font-primary"]), Some("Montserrat"));
}

#[test]
fn newer_files_are_refused() {
    let err = import_theme_record_json(&json(r##"{ "version": 2 }"##), &Vec::new(), &Vec::new(), &base_tokens())
        .unwrap_err();
    assert_eq!(
        err,
        "Theme export schema version 2 is newer than supported version 1; update the theme editor to import this file"
    );
    for version in ["\"2\"", "\"1\"", "0", "1.5", "-1", "null", "{}", "[1]", "true"] {
        let file = json(&format!("{{ \"version\": {version}, \"name\": \"App\" }}"));
        assert_eq!(
            import_theme_record_json(&file, &Vec::new(), &Vec::new(), &base_tokens()),
            Err("Theme export schema version is unknown; the supported version is 1".to_string()),
            "{version}"
        );
    }
    let refused = |version: &str| {
        let file = json(&format!("{{ \"version\": {version} }}"));
        import_theme_record_json(&file, &Vec::new(), &Vec::new(), &base_tokens()).unwrap_err()
    };
    assert!(refused("2.0").starts_with("Theme export schema version 2 is newer than supported version 1;"));
    assert!(refused("1e40").starts_with("Theme export schema version is unknown;"));
    assert!(refused("1.00000001").starts_with("Theme export schema version is unknown;"));
    for text in [
        r##"{ "version": 1, "name": "App" }"##,
        r##"{ "version": 1.0, "name": "App" }"##,
        r##"{ "name": "App" }"##,
    ] {
        let read = import_theme_record_json(&json(text), &Vec::new(), &Vec::new(), &base_tokens()).unwrap();
        assert_eq!(read.meta.name, "App");
    }
    let none: Vec<ThemeSource> = Vec::new();
    assert_eq!(
        load_builtin_theme_records(&none, &Vec::new(), &base_tokens()),
        Err("no built-in theme-editor themes found".to_string())
    );
}

#[test]
fn component_json_reads_legacy_default_and_writes_common_size_key() {
    let plugin = plugin(
        r##"{
            "component": "Test",
            "variants": ["default"],
            "states": ["normal"],
            "sizes": ["sm", "md"],
            "sizeProps": [
                { "name": "border-radius", "type": "float",
                  "defaults": { "default": 8.0 } }
            ]
        }"##,
    );
    let mut data = ComponentThemeData::from_plugin(&plugin, &TokenStore::default());

    import_component_theme_json(
        &mut data,
        &plugin,
        &json(r##"{ "sizeProps": { "default": { "border-radius": 12.0 } } }"##),
    );

    assert_eq!(size_value(&data, DEFAULT_SIZE_KEY, "border-radius").as_float(), Some(f(12.0)));

    let exported = export_component_theme_json(&data);
    assert!(at(&exported, &["sizeProps", "common"]).is_some());
    assert!(at(&exported, &["sizeProps", "default"]).is_none());
}

#[test]
fn base_save_validation_requires_root_token_ownership() {
    let mut base = base_record(&Vec::new());
    let component_plugins = TextMap::new();
    let validation = validate_theme_record_for_save(&base, &component_plugins);
    assert!(validation.is_ok(), "unexpected incomplete Base Theme values: {validation:?}");

    base.token_overrides.remove("spacing.md");
    let missing = validate_theme_record_for_save(&base, &component_plugins)
        .expect_err("root base should require all tokens");
    assert!(missing.iter().any(|item| item == "token spacing.md"));

    let child = child_record("App Theme", BASE_THEME_NAME, base_tokens());
    assert!(
        validate_theme_record_for_save(&child, &component_plugins).is_ok(),
        "app themes can save sparse overrides"
    );
}

#[test]
fn base_save_validation_requires_resolved_component_values() {
    let plugins = button_plugins();
    let component_plugins = component_plugin_map(&plugins);
    let mut base =
        import_theme_record_json(&complete_base_json(&plugins), &plugins, &Vec::new(), &base_tokens()).unwrap();
    let validation = validate_theme_record_for_save(&base, &component_plugins);
    assert!(validation.is_ok(), "unexpected incomplete Base Theme values: {validation:?}");

    base.component_themes
        .slot_mut("button")
        .variant_props
        .slot_mut("primary")
        .slot_mut("normal")
        .remove("background");

    let missing = validate_theme_record_for_save(&base, &component_plugins)
        .expect_err("root base should require component values");
    assert!(missing.iter().any(|item| item == "component button variant primary/normal property background"));
}

#[test]
fn incomplete_base_draft_round_trips_without_schema_defaults() {
    let plugins = button_plugins();
    let component_plugins = component_plugin_map(&plugins);
    let draft = json(
        r##"{
        "id": "base_theme",
        "name": "Base Theme",
        "tokens": { "colors": { "light": { "primary": "#123456" } } },
        "components": {
            "button": { "variantProps": { "primary": { "normal": { "background": "#654321" } } } }
        }
    }"##,
    );

    let record = import_theme_record_json(&draft, &plugins, &Vec::new(), &base_tokens()).unwrap();
    let missing = validate_theme_record_for_save(&record, &component_plugins)
        .expect_err("an incomplete Base Theme must keep showing a warning");
    assert!(missing.iter().any(|item| item == "token spacing.md"));
    assert!(missing.iter().any(|item| item == "component button variant primary/normal property foreground"));

    let exported = export_theme_record_json(&vec![record], 0, &component_plugins);
    assert_eq!(text_at(&exported, &["tokens", "colors", "light", "primary"]), Some("#123456"));
    assert!(at(&exported, &["tokens", "spacing", "md"]).is_none());
    let normal = ["components", "button", "variantProps", "primary", "normal"];
    assert_eq!(at(&exported, &normal).and_then(|n| n.get("background")).and_then(|v| v.as_str()), Some("#654321"));
    assert!(at(&exported, &normal).unwrap().get("foreground").is_none());
    assert!(at(&exported, &["components", "button", "sizeProps"]).is_none());
}

#[test]
fn parent_selector_options_include_none_and_select_base_parent() {
    let base = base_record(&Vec::new());
    let child = child_record("App Theme", BASE_THEME_NAME, base_tokens());

    let (options, selected) = parent_theme_options(&vec![base.clone(), child], 1);
    assert_eq!(options, vec!["None".to_string(), BASE_THEME_NAME.to_string()]);
    assert_eq!(selected, 1);

    let (options, selected) = parent_theme_options(&vec![base], 0);
    assert_eq!(options, vec!["None".to_string()]);
    assert_eq!(selected, 0);
}

#[test]
fn variant_reset_icon_model_uses_base_only_for_root_and_local_chain_for_rest() {
    let plugins = button_plugins();
    let base = base_record(&plugins);
    let mut child = app_theme(&base);

    let base_data = base.component_themes.get("button").unwrap();
    let shown = |data: &ComponentThemeData, parent: Option<&ComponentThemeData>, variant: &str, state: &str| {
        variant_prop_is_overridden_for_ui(
            data,
            parent,
            None,
            variant,
            state,
            "background",
            value(data, variant, state, "background"),
        )
    };
    let child_data = child.component_themes.get("button").unwrap();
    assert!(shown(base_data, None, "primary", "normal"));
    assert!(!shown(child_data, Some(base_data), "primary", "normal"));
    assert!(!shown(child_data, Some(base_data), "secondary", "normal"));
    assert!(!shown(child_data, Some(base_data), "primary", "focused"));

    let child_data = child.component_themes.slot_mut("button");
    child_data.set_variant_override("primary", "normal", "background", token("color.danger"));
    assert!(shown(child_data, Some(base_data), "primary", "normal"));
    assert!(!shown(child_data, Some(base_data), "secondary", "normal"));

    child_data.set_variant_override("secondary", "normal", "background", token("color.secondary"));
    assert!(shown(child_data, Some(base_data), "secondary", "normal"));
}

const SIZED: &str = r##"{
    "component": "Test",
    "variants": ["default"],
    "states": ["normal"],
    "sizes": ["sm", "md"],
    "sizeProps": [
        { "name": "height", "type": "float",
          "defaults": { "default": 8.0, "sm": 6.0, "md": 8.0 } }
    ]
}"##;

fn sized_plugins() -> Loaded {
    vec![(BuiltinComponentSpec { key: "test", component: "Test", source_file: "test.slint" }, plugin(SIZED))]
}

#[test]
fn size_reset_icon_model_uses_common_as_concrete_size_baseline() {
    let plugins = sized_plugins();
    let mut base = base_record(&plugins);
    let token_store = token_store_from_theme(&base.tokens);
    let shown = |data: &ComponentThemeData, parent: Option<&ComponentThemeData>, size: &str| {
        size_prop_is_overridden_for_ui(data, parent, None, size, "height", size_value(data, size, "height"))
    };
    assert!(shown(base.component_themes.get("test").unwrap(), None, DEFAULT_SIZE_KEY));
    {
        let base_data = base.component_themes.slot_mut("test");
        base_data.set_size_default("height", PropertyValue::Float(f(10.0)));
        assert_eq!(size_value(base_data, DEFAULT_SIZE_KEY, "height").as_float(), Some(f(10.0)));
        base_data.clear_size_default("height", &token_store);
        assert_eq!(size_value(base_data, DEFAULT_SIZE_KEY, "height").as_float(), Some(f(8.0)));
        assert!(
            shown(base_data, None, DEFAULT_SIZE_KEY),
            "Base/None Common size props remain overrides of the empty base"
        );
    }
    let mut child = app_theme(&base);

    let base_data = base.component_themes.get("test").unwrap();
    assert!(!shown(child.component_themes.get("test").unwrap(), Some(base_data), DEFAULT_SIZE_KEY));

    let child_data = child.component_themes.slot_mut("test");
    child_data.set_size_default("height", PropertyValue::Float(f(10.0)));
    assert!(shown(child_data, Some(base_data), DEFAULT_SIZE_KEY));
    assert!(!shown(child_data, Some(base_data), "sm"));

    child_data.set_size_override("sm", "height", PropertyValue::Float(f(6.0)));
    assert!(shown(child_data, Some(base_data), "sm"));
}

const INPUT: &str = r##"{
    "component": "Input",
    "variants": ["default"],
    "states": ["normal", "focused", "disabled"],
    "sizes": ["sm", "md", "lg"],
    "variantProps": [
        { "name": "background", "type": "color", "defaults": {
            "default": { "normal": "color.surface", "focused": "color.surface", "disabled": "color.surface" } } },
        { "name": "border-color", "type": "color", "defaults": {
            "default": { "normal": "color.border", "focused": "color.primary", "disabled": "color.border" } } }
    ],
    "sizeProps": [
        { "name": "border-width", "type": "float", "defaults": { "sm": 1.0, "md": 1.0, "lg": 1.0 } }
    ]
}"##;

fn extending_plugins() -> Loaded {
    let spec = |key, component, source_file| BuiltinComponentSpec { key, component, source_file };
    let raw = vec![
        (spec("input", "Input", "input.slint"), plugin(INPUT)),
        (spec("search", "Search", "search.slint"), plugin(r##"{ "component": "Search", "extends": "Input" }"##)),
        (
            spec("dropdown", "Dropdown", "dropdown.slint"),
            plugin(
                r##"{ "component": "Dropdown", "extends": "Input", "sizeProps": [
                    { "name": "control-height", "type": "float", "defaults": {
                        "sm": "controlSize.sm", "md": "controlSize.md", "lg": "controlSize.lg" } } ] }"##,
            ),
        ),
    ];
    settle_plugins(raw, &TextMap::new()).unwrap()
}

#[test]
fn component_child_reset_icons_distinguish_inherited_and_child_only_props() {
    let plugins = extending_plugins();
    let component_plugins = component_plugin_map(&plugins);
    let mut base = base_record(&plugins);
    let variant_shown = |record: &ThemeRecord, state: &str, prop: &str| {
        let data = record.component_themes.get("search").unwrap();
        let parent = component_parent_data(&component_plugins, &record.component_themes, data);
        assert!(parent.is_some());
        variant_prop_is_overridden_for_ui(
            data,
            None,
            parent,
            "default",
            state,
            prop,
            value(data, "default", state, prop),
        )
    };
    let size_shown = |record: &ThemeRecord, theme_parent: Option<&ComponentThemeData>, prop: &str| {
        let data = record.component_themes.get("dropdown").unwrap();
        let parent = component_parent_data(&component_plugins, &record.component_themes, data);
        assert!(parent.is_some());
        size_prop_is_overridden_for_ui(
            data,
            theme_parent,
            parent,
            DEFAULT_SIZE_KEY,
            prop,
            size_value(data, DEFAULT_SIZE_KEY, prop),
        )
    };

    assert_eq!(
        value(base.component_themes.get("input").unwrap(), "default", "normal", "background"),
        &token("color.surface")
    );
    assert!(!variant_shown(&base, "normal", "background"));
    assert!(!variant_shown(&base, "focused", "border-color"));

    let base_json = export_theme_record_json(&vec![base.clone()], 0, &component_plugins);
    assert!(
        at(&base_json, &["components", "search", "variantProps", "default", "focused", "border-color"]).is_none(),
        "Search should not serialize inherited Input focused border-color"
    );

    base.component_themes.slot_mut("search").set_variant_default("normal", "background", token("color.danger"));
    assert!(variant_shown(&base, "normal", "background"));

    base.component_themes.slot_mut("search").set_variant_default("normal", "border-color", token("color.danger"));
    assert_eq!(
        value(base.component_themes.get("search").unwrap(), "default", "focused", "border-color"),
        &token("color.danger"),
        "Search Focused should follow Search Normal once Normal is locally overridden"
    );
    assert!(!variant_shown(&base, "focused", "border-color"));

    assert!(!size_shown(&base, None, "border-width"));
    assert!(size_shown(&base, None, "control-height"));

    base.component_themes
        .slot_mut("dropdown")
        .set_size_default("border-width", PropertyValue::Float(f(4.0)));
    base.component_themes.slot_mut("dropdown").mark_parent_override("border-width");
    assert!(size_shown(&base, None, "border-width"));

    let app = app_theme(&base);
    assert!(!size_shown(&app, base.component_themes.get("dropdown"), "control-height"));
}

#[test]
fn component_child_import_and_export_elide_inherited_common_size_values() {
    let plugins = extending_plugins();
    let component_plugins = component_plugin_map(&plugins);

    let imported = import_theme_record_json(
        &json(
            r##"{
            "id": "base_theme",
            "name": "Base Theme",
            "components": {
                "search": {
                    "variantProps": { "default": { "focused": { "border-color": "color.primary" } } },
                    "sizeProps": { "common": { "border-width": 1.0 } }
                },
                "dropdown": {
                    "sizeProps": { "common": { "border-width": 1.0, "control-height": "controlSize.md" } }
                }
            }
        }"##,
        ),
        &plugins,
        &Vec::new(),
        &base_tokens(),
    )
    .expect("base theme import should succeed");

    let search = imported.component_themes.get("search").unwrap();
    assert!(!search.parent_prop_is_overridden("border-width"));
    assert!(!search.variant_prop_is_overridden("default", "focused", "border-color"));
    let dropdown = imported.component_themes.get("dropdown").unwrap();
    assert!(!dropdown.parent_prop_is_overridden("border-width"));

    let exported = export_theme_record_json(&vec![imported.clone()], 0, &component_plugins);
    assert!(at(&exported, &["components", "search", "sizeProps", "common", "border-width"]).is_none());
    assert!(
        at(&exported, &["components", "search", "variantProps", "default", "focused", "border-color"]).is_none()
    );
    assert!(at(&exported, &["components", "dropdown", "sizeProps", "common", "border-width"]).is_none());
    assert_eq!(
        text_at(&exported, &["components", "dropdown", "sizeProps", "common", "control-height"]),
        Some("controlSize.md")
    );
}

#[test]
fn base_export_includes_common_component_values_but_child_export_elides_inherited_values() {
    let plugins = button_plugins();
    let component_plugins = component_plugin_map(&plugins);
    let mut base =
        import_theme_record_json(&complete_base_json(&plugins), &plugins, &Vec::new(), &base_tokens()).unwrap();
    base.meta.is_builtin = true;

    let base_json = export_theme_record_json(&vec![base.clone()], 0, &component_plugins);
    assert_eq!(text_at(&base_json, &["id"]), Some("base_theme"));
    assert_eq!(text_at(&base_json, &["name"]), Some(BASE_THEME_NAME));
    assert!(base_json.get("parent").is_none());
    assert_eq!(text_at(&base_json, &["tokens", "colors", "light", "transparent"]), Some("#00000000"));
    assert_eq!(
        at(&base_json, &["tokens", "fontWeight", "medium"]).and_then(|v| v.as_number()).and_then(|n| n.long),
        Some(500)
    );
    let variants = at(&base_json, &["components", "button", "variantProps"]).unwrap();
    assert_eq!(text_at(variants, &["primary", "normal", "background"]), Some("color.primary"));
    assert!(at(variants, &["primary", "focused", "background"]).is_none());
    assert_eq!(text_at(variants, &["primary", "focused", "borderColor"]), Some("color.primary.light"));
    assert_eq!(text_at(variants, &["secondary", "normal", "background"]), Some("color.secondary"));
    assert!(at(variants, &["secondary", "focused", "background"]).is_none());
    assert!(at(&base_json, &["components", "button", "sizeProps", "common"]).is_some());

    let mut child = app_theme(&base);
    let inherited_json = export_theme_record_json(&vec![base.clone(), child.clone()], 1, &component_plugins);
    assert_eq!(text_at(&inherited_json, &["parent"]), Some("base_theme"));
    assert!(
        inherited_json.get("components").is_none(),
        "unchanged app theme should not emit inherited component values"
    );

    child.component_themes.slot_mut("button").set_variant_override(
        "primary",
        "normal",
        "background",
        token("color.danger"),
    );
    let changed_json = export_theme_record_json(&vec![base, child], 1, &component_plugins);
    let variants = at(&changed_json, &["components", "button", "variantProps"]).unwrap();
    assert_eq!(text_at(variants, &["primary", "normal", "background"]), Some("color.danger"));
    assert!(at(variants, &["primary", "focused", "background"]).is_none());
    assert!(at(variants, &["secondary", "normal", "background"]).is_none());
}

#[test]
fn child_size_export_compares_concrete_sizes_to_common_not_parent_size() {
    let plugins = sized_plugins();
    let component_plugins = component_plugin_map(&plugins);
    let base = base_record(&plugins);
    let mut child = app_theme(&base);

    let data = child.component_themes.slot_mut("test");
    data.set_size_default("height", PropertyValue::Float(f(10.0)));
    data.set_size_override("sm", "height", PropertyValue::Float(f(6.0)));

    let json = export_theme_record_json(&vec![base, child], 1, &component_plugins);
    assert_eq!(single_at(&json, &["components", "test", "sizeProps", "common", "height"]), Some(f(10.0)));
    assert_eq!(single_at(&json, &["components", "test", "sizeProps", "sm", "height"]), Some(f(6.0)));
}

#[test]
fn a_saved_theme_is_loaded_with_its_tokens_and_values() {
    let plugins = button_plugins();
    let component_plugins = component_plugin_map(&plugins);
    let base = base_record(&plugins);
    let mut child = app_theme(&base);
    child.meta.name = "Night".to_string();
    child.tokens.light.primary = Color::rgba(1, 2, 3, 4);
    child.tokens.spacing.xs = f(3.5);
    child.token_overrides.insert("spacing.xs".to_string());
    child.component_themes.slot_mut("button").set_variant_override(
        "secondary",
        "pressed",
        "background",
        PropertyValue::Color(Color::rgb(9, 8, 7)),
    );
    child.component_themes.slot_mut("button").set_size_override("lg", "height", PropertyValue::Float(f(60.0)));
    let written = export_theme_record_json(&vec![base.clone(), child.clone()], 1, &component_plugins);
    let read = import_theme_record_json(&written, &plugins, &vec![base], &base_tokens()).unwrap();
    assert_eq!(read.meta.name, "Night");
    assert_eq!(read.meta.parent_name.as_deref(), Some(BASE_THEME_NAME));
    assert_eq!(read.tokens, child.tokens);
    let data = read.component_themes.get("button").unwrap();
    assert_eq!(value(data, "secondary", "pressed", "background"), &PropertyValue::Color(Color::rgb(9, 8, 7)));
    assert_eq!(size_value(data, "lg", "height").as_float(), Some(f(60.0)));
    assert_eq!(size_value(data, "sm", "height").as_float(), Some(f(36.0)));
}

#[test]
fn builtin_themes_are_sorted_and_named() {
    let sources = vec![
        ThemeSource {
            file_stem: Some("b".to_string()),
            value: json(r##"{ "id": "b", "name": "Bee", "parent": "base_theme", "sort_order": 2 }"##),
        },
        ThemeSource {
            file_stem: Some("a".to_string()),
            value: json(r##"{ "id": "base_theme", "name": "Base Theme", "sort_order": 1 }"##),
        },
    ];
    let records = load_builtin_theme_records(&sources, &Vec::new(), &base_tokens()).unwrap();
    let names: Vec<&str> = records.iter().map(|r| r.meta.name.as_str()).collect();
    assert_eq!(names, vec!["Base Theme", "Bee"]);
    assert_eq!(records[1].meta.parent_name.as_deref(), Some("Base Theme"));
    assert!(records.iter().all(|r| r.meta.is_builtin));
}

#[test]
fn theme_texts_that_are_no_json_are_passed_over() {
    let theme_text = |stem: &str, text: &str| ThemeText { file_stem: Some(stem.to_string()), text: text.to_string() };
    let texts = vec![
        theme_text("broken", "{ \"name\": "),
        theme_text("child", r##"{ "name": "Child", "parent": "base_theme", "sort_order": 2 }"##),
        theme_text("base_theme", r##"{ "name": "Base Theme", "sort_order": 1 }"##),
        theme_text("empty", ""),
    ];
    let sources = read_theme_sources(&texts);
    let stems: Vec<Option<&str>> = sources.iter().map(|source| source.file_stem.as_deref()).collect();
    assert_eq!(stems, vec![Some("child"), Some("base_theme")]);
    let broken = vec![theme_text("broken", "[")];
    let seeds = vec![theme_text("seed", r##"{ "name": "Seed" }"##)];
    let records = load_builtin_theme_texts(&texts, &seeds, &Vec::new(), &base_tokens()).unwrap();
    let names: Vec<&str> = records.iter().map(|record| record.meta.name.as_str()).collect();
    assert_eq!(names, vec!["Base Theme", "Child"]);
    let records = load_builtin_theme_texts(&broken, &seeds, &Vec::new(), &base_tokens()).unwrap();
    assert_eq!(records[0].meta.name, "Seed");
    assert_eq!(
        load_builtin_theme_texts(&Vec::new(), &broken, &Vec::new(), &base_tokens()),
        Err("no built-in theme-editor themes found".to_string())
    );
}

#[test]
fn theme_texts_are_read_back() {
    let loaded = button_plugins();
    let plugins = component_plugin_map(&loaded);
    let mut theme = build_theme_record("App Theme", false, None, base_tokens(), &loaded);
    theme.tokens.spacing.md = f(0.1);
    theme.tokens.spacing.lg = f(1.0e-3);
    theme.token_overrides = all_token_override_keys();
    let themes = vec![theme];
    let text = export_theme_record_text(&themes, 0, &plugins);
    assert!(text.contains("\"version\": 1"));
    assert!(text.contains("0.10000000149011612"));
    assert_eq!(json(&text), export_theme_record_json(&themes, 0, &plugins));
    let read = import_theme_record_text(&text, &loaded, &Vec::new(), &base_tokens()).unwrap();
    assert_eq!(read.meta.name, "App Theme");
    assert_eq!(read.tokens, themes[0].tokens);
    let err = import_theme_record_text("{", &loaded, &Vec::new(), &base_tokens()).unwrap_err();
    assert_eq!(err, serde_json::from_str::<serde_json::Value>("{").unwrap_err().to_string());
}

#[test]
fn names_become_identifiers() {
    assert_eq!(normalize_theme_identifier("  My Theme -- 2!"), "my_theme_2");
    assert_eq!(normalize_theme_identifier("my_theme_2"), "my_theme_2");
    assert_eq!(normalize_theme_identifier("2 Tone_"), "_2_tone");
    assert_eq!(normalize_theme_identifier("--"), "theme");
    assert!(is_base_theme_name("Base Theme"));
    assert!(is_base_theme_name("Default Theme"));
    assert!(!is_base_theme_name("App Theme"));
    assert_eq!(color_token_override_path("text-muted", true), Some("colors.dark.text-muted".to_string()));
    assert_eq!(color_token_override_path("nothing", false), None);
}

#[test]
fn every_token_has_a_key() {
    let keys = all_token_override_keys();
    assert!(keys.contains("radius.default"));
    assert!(keys.contains("colors.light.transparent"));
    let all = export_token_theme_json(&base_tokens());
    let given = collect_token_override_keys(&all);
    assert_eq!(given, keys);
    let warnings = unknown_token_keys(&json(r##"{ "spacing": { "huge": 1 }, "other": {} }"##));
    assert_eq!(
        warnings,
        vec![
            "warning: ignoring unknown token-theme key 'other'".to_string(),
            "warning: ignoring unknown token-theme key 'spacing.huge'".to_string(),
        ]
    );
}

#[test]
fn tokens_are_read_as_they_were_written() {
    let mut read = base_tokens();
    read.light = palette(1);
    read.spacing.md = f(1.0);
    read.radius.default_key = "sm".to_string();
    import_token_theme_json(&mut read, &export_token_theme_json(&base_tokens()));
    assert_eq!(read, base_tokens());
    assert!(read.same(&base_tokens()));
    read.font_weight.bold = 900;
    assert!(!read.same(&base_tokens()));
}

#[test]
fn a_theme_without_a_parent_is_written_whole() {
    let mut root = build_theme_record("Solo", false, None, base_tokens(), &Vec::new());
    root.tokens.dark.surface = Color::rgba(4, 3, 2, 1);
    root.tokens.radius.default_key = "sm".to_string();
    root.token_overrides = all_token_override_keys();
    let written = export_theme_record_json(&vec![root.clone()], 0, &TextMap::new());
    assert_eq!(written.get("tokens"), Some(&export_token_theme_json(&root.tokens)));
    let read = import_theme_record_json(&written, &Vec::new(), &Vec::new(), &base_tokens()).unwrap();
    assert_eq!(read.meta.name, "Solo");
    assert_eq!(read.meta.parent_name, None);
    assert_eq!(read.tokens, root.tokens);
    assert_eq!(read.token_overrides, all_token_override_keys());
}

#[test]
fn extending_components_are_read_as_they_were_written() {
    let plugins = extending_plugins();
    let component_plugins = component_plugin_map(&plugins);
    let base = base_record(&plugins);
    let mut child = app_theme(&base);
    let dropdown = child.component_themes.slot_mut("dropdown");
    dropdown.set_size_import_override(DEFAULT_SIZE_KEY, "border-width", PropertyValue::Float(f(4.0)));
    dropdown.set_size_import_override("lg", "border-width", PropertyValue::Float(f(6.0)));
    child.component_themes.slot_mut("search").set_variant_override(
        "default",
        "focused",
        "background",
        token("color.danger"),
    );
    let written = export_theme_record_json(&vec![base.clone(), child], 1, &component_plugins);
    let read = import_theme_record_json(&written, &plugins, &vec![base], &base_tokens()).unwrap();
    let dropdown = read.component_themes.get("dropdown").unwrap();
    assert_eq!(size_value(dropdown, DEFAULT_SIZE_KEY, "border-width").as_float(), Some(f(4.0)));
    assert_eq!(size_value(dropdown, "sm", "border-width").as_float(), Some(f(4.0)));
    assert_eq!(size_value(dropdown, "lg", "border-width").as_float(), Some(f(6.0)));
    let search = read.component_themes.get("search").unwrap();
    assert_eq!(value(search, "default", "focused", "background"), &token("color.danger"));
    assert_eq!(value(search, "default", "normal", "background"), &token("color.surface"));
    let input = read.component_themes.get("input").unwrap();
    assert_eq!(size_value(input, DEFAULT_SIZE_KEY, "border-width").as_float(), Some(f(1.0)));
}

#[test]
fn function_names_are_identifiers() {
    assert_eq!(theme_function_name("9 Lives!"), "_9_lives");
    assert_eq!(theme_function_name("--"), "theme_export");
    assert_eq!(theme_function_name(""), "theme_export");
    assert_eq!(theme_function_name("Énorme 2"), "norme_2");
    assert_eq!(theme_function_name(&"a".repeat(200)), "a".repeat(96));
}
