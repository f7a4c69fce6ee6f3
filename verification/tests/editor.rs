use theme_editor::color::Color;
use theme_editor::editor::{Editor, WORKING_THEME_NAME};
use theme_editor::icons::IconRegistry;
use theme_editor::json::Json;
use theme_editor::json_text::json_from_text;
use theme_editor::live::{
    current_semantic_palette, init_theme_global_tokens, resolve_color_token_from_app, resolve_font_token_from_app,
    resolve_number_token_from_app, TokenPanel,
};
use theme_editor::loader::{builtin_component_specs, BuiltinComponentSpec};
use theme_editor::panels::{
    default_property_value_data, load_theme_editor_component_with_parent, offered_tokens,
    populate_size_list, populate_size_prop_defs, populate_state_list, populate_variant_list,
    populate_variant_prop_defs, preview_size_property_value, preview_variant_property_value,
    property_value_from_ui, property_value_to_slint_with_override, remember_component_selection,
    sidebar_component_key, ui_size_index_to_key, update_generic_size_values_with_parent,
    update_generic_variant_values_with_parent, ShownValue, TokenChoice,
};
use theme_editor::reconcile::{build_theme_record, component_plugin_map};
use theme_editor::records::{ThemeRecord, BASE_THEME_NAME};
use theme_editor::scalar::Scalar;
use theme_editor::schema::{DefaultValue, PluginDefinition, PropDefaults, PropDefinition, Real, TokenOrValue};
use theme_editor::storage::{PropertyValue, DEFAULT_SIZE_KEY};
use theme_editor::textmap::TextMap;
use theme_editor::token_theme::{
    all_token_override_keys, BorderWidths, FontWeights, Palette, Radii, SizeScale, Spacing, TokenTheme, Typography,
};

fn f(value: f32) -> Scalar {
    Scalar { bits: value.to_bits() }
}

fn json(text: &str) -> Json {
    json_from_text(text).unwrap()
}

fn double(value: f64) -> Real {
    Real { single: f(value as f32), whole: value as i64, integral: value.fract() == 0.0, text: format!("{value}") }
}

fn token_or_value(value: &serde_json::Value) -> TokenOrValue {
    match value {
        serde_json::Value::String(s) => TokenOrValue::String(s.clone()),
        serde_json::Value::Number(n) => TokenOrValue::Float(double(n.as_f64().unwrap())),
        serde_json::Value::Bool(b) => TokenOrValue::Bool(*b),
        other => panic!("no token or value: {other}"),
    }
}

fn texts(value: Option<&serde_json::Value>) -> Vec<String> {
    value
        .and_then(|v| v.as_array())
        .map(|list| list.iter().map(|v| v.as_str().unwrap().to_string()).collect())
        .unwrap_or_default()
}

fn defaults(value: Option<&serde_json::Value>) -> PropDefaults {
    let mut out = PropDefaults::default();
    if let Some(map) = value.and_then(|v| v.as_object()) {
        for (key, entry) in map {
            let made = match entry.as_object() {
                Some(states) => {
                    let mut nested = TextMap::new();
                    for (state, v) in states {
                        nested.insert(state.clone(), token_or_value(v));
                    }
                    DefaultValue::Nested(nested)
                }
                None => DefaultValue::Direct(token_or_value(entry)),
            };
            out.values.insert(key.clone(), made);
        }
    }
    out
}

fn props(value: Option<&serde_json::Value>) -> Vec<PropDefinition> {
    let list = match value.and_then(|v| v.as_array()) {
        Some(list) => list,
        None => return Vec::new(),
    };
    list.iter()
        .map(|p| PropDefinition {
            name: p["name"].as_str().unwrap().to_string(),
            display_name: p.get("displayName").and_then(|v| v.as_str()).map(str::to_string),
            prop_type: p["type"].as_str().unwrap().to_string(),
            min: p.get("min").and_then(|v| v.as_f64()).map(|v| f(v as f32)),
            max: p.get("max").and_then(|v| v.as_f64()).map(|v| f(v as f32)),
            step: p.get("step").and_then(|v| v.as_f64()).map(|v| f(v as f32)),
            defaults: defaults(p.get("defaults")),
        })
        .collect()
}

fn plugin(text: &str) -> PluginDefinition {
    let v: serde_json::Value = serde_json::from_str(text).unwrap();
    PluginDefinition {
        component: v["component"].as_str().unwrap().to_string(),
        extends: v.get("extends").and_then(|e| e.as_str()).map(str::to_string),
        parent_key: None,
        variants: texts(v.get("variants")),
        states: texts(v.get("states")),
        sizes: texts(v.get("sizes")),
        variant_props: props(v.get("variantProps")),
        size_props: props(v.get("sizeProps")),
    }
}

const BUTTON: &str = r##"{
    "component": "Button",
    "variants": ["primary", "secondary"],
    "states": ["normal", "focused", "pressed", "disabled"],
    "sizes": ["sm", "md", "lg"],
    "variantProps": [
        { "name": "background", "type": "color", "defaults": {
            "primary": { "normal": "color.primary", "focused": "color.primary",
                         "pressed": "color.primary.dark", "disabled": "color.primary" },
            "secondary": { "normal": "color.secondary", "focused": "color.secondary",
                           "pressed": "color.secondary.dark", "disabled": "color.secondary" } } },
        { "name": "foreground", "type": "color", "defaults": {
            "primary": { "normal": "color.background", "focused": "color.background",
                         "pressed": "color.background", "disabled": "color.background" },
            "secondary": { "normal": "color.foreground", "focused": "color.foreground",
                           "pressed": "color.foreground", "disabled": "color.foreground" } } },
        { "name": "borderColor", "type": "color", "defaults": {
            "primary": { "normal": "color.transparent", "focused": "color.primary.light",
                         "pressed": "color.transparent", "disabled": "color.transparent" },
            "secondary": { "normal": "color.transparent", "focused": "color.primary.light",
                           "pressed": "color.transparent", "disabled": "color.transparent" } } },
        { "name": "opacity", "type": "float", "min": 0, "max": 1, "step": 0.05, "defaults": {
            "primary": { "normal": 1.0, "focused": 1.0, "pressed": 1.0, "disabled": 0.5 },
            "secondary": { "normal": 1.0, "focused": 1.0, "pressed": 1.0, "disabled": 0.5 } } }
    ],
    "sizeProps": [
        { "name": "height", "type": "float", "min": 0, "max": 96, "step": 1,
          "defaults": { "sm": 36.0, "md": 44.0, "lg": 52.0 } },
        { "name": "fontFamily", "type": "string",
          "defaults": { "sm": "font.primary", "md": "font.primary", "lg": "font.primary" } }
    ]
}"##;

fn palette(base: u8) -> Palette {
    Palette {
        primary: Color::rgb(base, 1, 2),
        primary_pressed: Color::rgb(base, 3, 4),
        secondary: Color::rgb(base, 5, 6),
        danger: Color::rgb(base, 7, 8),
        surface: Color::rgb(base, 9, 10),
        background: Color::rgb(base, 11, 12),
        text: Color::rgb(base, 13, 14),
        text_muted: Color::rgba(base, 15, 16, 17),
    }
}

fn scale(sm: f32, md: f32, lg: f32) -> SizeScale {
    SizeScale { sm: f(sm), md: f(md), lg: f(lg) }
}

fn base_tokens() -> TokenTheme {
    TokenTheme {
        light: palette(200),
        dark: palette(20),
        spacing: Spacing { xs: f(4.0), sm: f(8.0), md: f(12.0), lg: f(16.0), xl: f(24.0) },
        control_size: scale(36.0, 44.0, 52.0),
        choice_control_size: scale(20.0, 24.0, 28.0),
        switch_size: scale(24.0, 28.0, 32.0),
        icon_size: scale(16.0, 20.0, 24.0),
        border_width: BorderWidths { none: f(0.0), sm: f(1.0), focus: f(2.0) },
        control_radius: scale(12.0, 16.0, 20.0),
        control_padding_inline: scale(14.0, 16.0, 20.0),
        typography: Typography {
            size_xs: f(18.0),
            size_caption: f(19.0),
            size_sm: f(20.0),
            size_md: f(22.0),
            size_lg: f(24.0),
            size_helper: f(17.5),
            primary: "Montserrat".to_string(),
            secondary: "Inter".to_string(),
            tertiary: "Georgia".to_string(),
        },
        font_weight: FontWeights { normal: 400, medium: 500, semibold: 600, bold: 700 },
        radius: Radii { sm: f(8.0), md: f(16.0), lg: f(24.0), full: f(999.0), default_key: "lg".to_string() },
    }
}

type Loaded = Vec<(BuiltinComponentSpec, PluginDefinition)>;

fn button_plugins() -> Loaded {
    let spec = BuiltinComponentSpec { key: "button", component: "Button", source_file: "button.slint" };
    vec![(spec, plugin(BUTTON))]
}

fn base_record() -> ThemeRecord {
    build_theme_record(BASE_THEME_NAME, true, None, base_tokens(), &button_plugins())
}

fn started() -> Editor {
    Editor::start(&vec![base_record()], &button_plugins(), &base_tokens())
}

fn panel() -> TokenPanel {
    TokenPanel { tokens: base_tokens(), is_dark: false, radius_default_index: 2 }
}

fn names(editor: &Editor) -> Vec<&str> {
    editor.themes.iter().map(|t| t.meta.name.as_str()).collect()
}

fn shown_color(color: Color) -> ShownValue {
    property_value_to_slint_with_override(&panel(), &PropertyValue::Color(color), true)
}

fn background<'a>(theme: &'a ThemeRecord, variant: &str, state: &str) -> &'a PropertyValue {
    theme.component_themes.get("button").unwrap().variant_props.get(variant).unwrap().get2(state, "background").unwrap()
}

fn height<'a>(theme: &'a ThemeRecord, size: &str) -> &'a PropertyValue {
    theme.component_themes.get("button").unwrap().size_props.get2(size, "height").unwrap()
}

#[test]
fn the_editor_starts_with_a_copy_of_the_base_theme() {
    let editor = started();
    assert_eq!(names(&editor), vec![BASE_THEME_NAME, WORKING_THEME_NAME]);
    assert_eq!(editor.current, 1);
    let working = &editor.themes[1];
    assert_eq!(working.meta.parent_name.as_deref(), Some(BASE_THEME_NAME));
    assert!(!working.meta.is_builtin);
    assert_eq!(working.tokens, base_tokens());
    assert_eq!(working.token_overrides.len(), 0);
    assert!(!editor.can_undo());
    assert!(!editor.can_redo());

    let without = Editor::start(&Vec::new(), &button_plugins(), &base_tokens());
    assert_eq!(names(&without), vec![BASE_THEME_NAME, WORKING_THEME_NAME]);
    assert!(without.themes[0].meta.is_builtin);
}

#[test]
fn undo_takes_an_edit_back_and_redo_makes_it_again() {
    let plugins = component_plugin_map(&button_plugins());
    let mut editor = started();
    let red = Color::rgb(250, 1, 2);
    editor.variant_prop_changed(&plugins, "button", 1, 0, 0, &shown_color(red));
    assert_eq!(background(&editor.themes[1], "secondary", "normal"), &PropertyValue::Color(red));
    assert_eq!(background(&editor.themes[1], "secondary", "focused"), &PropertyValue::Color(red));
    assert_eq!(background(&editor.themes[0], "secondary", "normal"), &PropertyValue::Token("color.secondary".to_string()));
    assert!(editor.can_undo());

    editor.undo_theme_edit();
    assert_eq!(editor, {
        let mut untouched = started();
        untouched.redo = editor_redo(&editor);
        untouched
    });
    assert!(editor.can_redo());
    editor.redo_theme_edit();
    assert_eq!(background(&editor.themes[1], "secondary", "normal"), &PropertyValue::Color(red));
    assert!(!editor.can_redo());

    editor.clear_variant_override(&plugins, "button", 1, 0, 0);
    assert_eq!(
        background(&editor.themes[1], "secondary", "normal"),
        &PropertyValue::Token("color.secondary".to_string())
    );
}

fn editor_redo(editor: &Editor) -> Vec<theme_editor::editor::ThemeEditSnapshot> {
    editor
        .redo
        .iter()
        .map(|s| theme_editor::editor::ThemeEditSnapshot { themes: s.themes.clone() })
        .collect()
}

#[test]
fn sizes_are_edited_and_reset() {
    let plugins = component_plugin_map(&button_plugins());
    let mut editor = started();
    let tall = property_value_to_slint_with_override(&panel(), &PropertyValue::Float(f(80.0)), true);
    editor.size_prop_changed(&plugins, "button", 1, 0, &tall);
    assert_eq!(height(&editor.themes[1], "sm").as_float(), Some(f(80.0)));
    assert_eq!(height(&editor.themes[1], "md").as_float(), Some(f(44.0)));
    editor.clear_size_override(&plugins, "button", 1, 0);
    assert_eq!(height(&editor.themes[1], "sm"), height(&editor.themes[1], DEFAULT_SIZE_KEY));
    assert_eq!(height(&editor.themes[1], "sm").as_float(), Some(f(44.0)));
    let before = editor.undo.len();
    editor.size_prop_changed(&plugins, "nothing", 1, 0, &tall);
    editor.size_prop_changed(&plugins, "button", 9, 0, &tall);
    editor.size_prop_changed(&plugins, "button", 1, -1, &tall);
    assert_eq!(editor.undo.len(), before);
}

#[test]
fn edited_colors_are_owned() {
    let mut editor = started();
    let blue = Color::rgb(3, 4, 250);
    editor.token_value_changed("text-muted", blue, true);
    assert_eq!(editor.themes[1].tokens.dark.text_muted, blue);
    assert_eq!(editor.themes[1].tokens.light, base_tokens().light);
    assert!(editor.themes[1].token_overrides.contains("colors.dark.text-muted"));
    let steps = editor.undo.len();
    editor.token_value_changed("text-muted", blue, true);
    assert_eq!(editor.undo.len(), steps);

    let mut tokens = editor.themes[1].tokens.clone();
    editor.theme_tokens_edited(tokens.clone());
    assert_eq!(editor.undo.len(), steps);
    tokens.spacing.md = f(13.0);
    editor.theme_tokens_edited(tokens.clone());
    assert_eq!(editor.undo.len(), steps + 1);
    assert_eq!(editor.themes[1].tokens, tokens);
}

#[test]
fn parents_are_chosen_but_make_no_circle() {
    let mut editor = started();
    let child = build_theme_record("Child", false, Some(WORKING_THEME_NAME), base_tokens(), &button_plugins());
    editor.themes.push(child);
    editor.theme_parent_changed("Child");
    assert_eq!(editor.themes[1].meta.parent_name.as_deref(), Some(BASE_THEME_NAME));
    assert!(!editor.can_undo());
    editor.theme_parent_changed(" None ");
    assert_eq!(editor.themes[1].meta.parent_name, None);
    assert_eq!(editor.themes[1].token_overrides, all_token_override_keys());
    editor.undo_theme_edit();
    assert_eq!(editor.themes[1].meta.parent_name.as_deref(), Some(BASE_THEME_NAME));

    editor.theme_changed(0, base_tokens());
    editor.theme_parent_changed("Child");
    assert_eq!(editor.themes[0].meta.parent_name, None);
}

#[test]
fn renamed_themes_stay_parents() {
    let mut editor = started();
    editor.themes.push(build_theme_record("Child", false, Some(WORKING_THEME_NAME), base_tokens(), &Vec::new()));
    editor.rename_theme("Night");
    assert_eq!(names(&editor), vec![BASE_THEME_NAME, "Night", "Child"]);
    assert_eq!(editor.themes[2].meta.parent_name.as_deref(), Some("Night"));
    editor.rename_theme("");
    editor.rename_theme("Night");
    assert_eq!(editor.undo.len(), 1);
    editor.theme_changed(0, base_tokens());
    editor.rename_theme("Other");
    assert_eq!(names(&editor)[0], BASE_THEME_NAME);
    editor.theme_changed(1, base_tokens());
    editor.saved_in("night_theme");
    assert_eq!(names(&editor)[1], "night_theme");
}

#[test]
fn new_themes_start_from_their_parent() {
    let mut editor = started();
    let mut tokens = base_tokens();
    tokens.spacing.md = f(99.0);
    editor.theme_tokens_edited(tokens);
    editor.rename_theme("Mine");
    editor.new_theme();
    assert_eq!(names(&editor), vec![BASE_THEME_NAME, WORKING_THEME_NAME]);
    assert_eq!(editor.themes[1].tokens, base_tokens());
    editor.undo_theme_edit();
    assert_eq!(names(&editor), vec![BASE_THEME_NAME, "Mine"]);
    assert_eq!(editor.themes[1].tokens.spacing.md, f(99.0));
}

#[test]
fn added_bases_get_names_of_their_own() {
    let mut editor = started();
    let file = json(r##"{ "name": "Base Theme" }"##);
    editor.base_json(&file, None, &button_plugins(), &base_tokens()).unwrap();
    assert_eq!(names(&editor), vec![BASE_THEME_NAME, WORKING_THEME_NAME, "Base Theme 2"]);
    assert_eq!(editor.themes[1].meta.parent_name.as_deref(), Some("Base Theme 2"));
    assert_eq!(editor.themes[2].meta.parent_name, None);
    editor.base_json(&file, None, &button_plugins(), &base_tokens()).unwrap();
    assert_eq!(names(&editor)[3], "Base Theme 3");
    editor.base_json(&file, Some("stem"), &button_plugins(), &base_tokens()).unwrap();
    assert_eq!(names(&editor)[4], "stem");
}

#[test]
fn files_are_loaded_in_place_of_the_edited_theme() {
    let mut editor = started();
    let file = json(r##"{ "name": "Loaded", "parent": "base_theme", "tokens": { "spacing": { "md": 21.0 } } }"##);
    editor.import_json(&file, Some("stem"), &button_plugins(), &base_tokens()).unwrap();
    assert_eq!(names(&editor), vec![BASE_THEME_NAME, "Loaded"]);
    assert_eq!(editor.themes[1].tokens.spacing.md, f(21.0));
    assert_eq!(editor.themes[1].tokens.spacing.lg, base_tokens().spacing.lg);
    assert!(editor.can_undo());

    let mut fresh = started();
    fresh.open_json(&file, Some("stem"), &button_plugins(), &base_tokens()).unwrap();
    assert_eq!(names(&fresh)[1], "Loaded");
    assert!(!fresh.can_undo());

    let newer = json(r##"{ "version": 7 }"##);
    let before = names(&editor).len();
    assert!(editor.import_json(&newer, None, &button_plugins(), &base_tokens()).is_err());
    assert_eq!(names(&editor).len(), before);
}

#[test]
fn texts_are_loaded_like_the_values_they_hold() {
    let text = r##"{ "name": "Loaded", "parent": "base_theme", "tokens": { "spacing": { "md": 21.25 } } }"##;
    let mut by_text = started();
    let mut by_value = started();
    by_text.import_text(text, Some("stem"), &button_plugins(), &base_tokens()).unwrap();
    by_value.import_json(&json(text), Some("stem"), &button_plugins(), &base_tokens()).unwrap();
    assert_eq!(by_text.themes, by_value.themes);
    assert_eq!(by_text.themes[1].tokens.spacing.md, f(21.25));

    let mut opened = started();
    opened.open_text(text, None, &button_plugins(), &base_tokens()).unwrap();
    assert!(!opened.can_undo());
    assert_eq!(opened.themes, by_value.themes);
    by_text.base_text(r##"{ "name": "Ground" }"##, None, &button_plugins(), &base_tokens()).unwrap();
    assert_eq!(by_text.themes[by_text.current].meta.parent_name.as_deref(), Some("Ground"));

    for broken in ["", "{", "{} {}", "{ \"name\": NaN }", "nothing"] {
        let err = serde_json::from_str::<serde_json::Value>(broken).unwrap_err().to_string();
        let mut editor = started();
        assert_eq!(editor.import_text(broken, None, &button_plugins(), &base_tokens()), Err(err.clone()));
        assert_eq!(editor.open_text(broken, None, &button_plugins(), &base_tokens()), Err(err.clone()));
        assert_eq!(editor.base_text(broken, None, &button_plugins(), &base_tokens()), Err(err));
        assert_eq!(editor.themes, started().themes);
        assert!(!editor.can_undo());
    }
    let mut editor = started();
    assert!(editor.import_text("{ \"version\": 3 }", None, &button_plugins(), &base_tokens()).is_err());
    assert_eq!(editor.themes, started().themes);
}

#[test]
fn rows_give_back_what_they_show() {
    let values = [
        ("color", PropertyValue::Color(Color::rgba(1, 2, 3, 4))),
        ("float", PropertyValue::Float(f(2.5))),
        ("int", PropertyValue::Int(-7)),
        ("bool", PropertyValue::Bool(true)),
        ("string", PropertyValue::String("Inter".to_string())),
        ("color", PropertyValue::Token("color.primary".to_string())),
        ("float", PropertyValue::Token("spacing.md".to_string())),
        ("string", PropertyValue::Token("font.primary".to_string())),
    ];
    for (kind, value) in values {
        let definition = PropDefinition {
            name: "p".to_string(),
            display_name: None,
            prop_type: kind.to_string(),
            min: None,
            max: None,
            step: None,
            defaults: PropDefaults::default(),
        };
        let shown = property_value_to_slint_with_override(&panel(), &value, true);
        assert!(shown.is_overridden);
        assert_eq!(property_value_from_ui(&definition, &shown), value);
    }
    let token = PropertyValue::Token("color.primary".to_string());
    let shown = property_value_to_slint_with_override(&panel(), &token, false);
    assert_eq!(shown.color_value, base_tokens().light.primary);
    let empty = default_property_value_data();
    assert_eq!(empty.token, None);
    assert_eq!(empty.float_value, f(0.0));
    assert_eq!(offered_tokens("color"), TokenChoice::Color);
    assert_eq!(offered_tokens("bool"), TokenChoice::Nothing);
    assert_eq!(offered_tokens("string"), TokenChoice::Font);
    assert_eq!(offered_tokens("int"), TokenChoice::Number);
}

#[test]
fn panels_list_what_a_plugin_declares() {
    let plugin = plugin(BUTTON);
    let variants = populate_variant_list(&plugin);
    assert_eq!(variants[0].name, "Primary");
    assert_eq!(variants[0].key, "primary");
    assert_eq!(populate_state_list(&plugin).len(), 4);
    assert_eq!(populate_size_list(&plugin)[0].key, DEFAULT_SIZE_KEY);
    assert_eq!(populate_size_list(&plugin).len(), 4);
    let defs = populate_variant_prop_defs(&plugin);
    assert_eq!(defs[0].max_value, f(100.0));
    assert_eq!(defs[0].step, f(1.0));
    assert_eq!(defs[3].max_value, f(1.0));
    assert_eq!(populate_size_prop_defs(&plugin)[0].max_value, f(96.0));
    assert_eq!(ui_size_index_to_key(&plugin, 0), Some(DEFAULT_SIZE_KEY));
    assert_eq!(ui_size_index_to_key(&plugin, 3), Some("lg"));
    assert_eq!(ui_size_index_to_key(&plugin, 4), None);
}

#[test]
fn panels_show_the_values_of_every_state() {
    let loaded = button_plugins();
    let plugins = component_plugin_map(&loaded);
    let base = base_record();
    let data = base.component_themes.get("button").unwrap();
    let rows = update_generic_variant_values_with_parent(&panel(), &loaded[0].1, data, None, None, "primary");
    assert_eq!(rows.len(), 16);
    assert_eq!(rows[0].token.as_deref(), Some("color.primary"));
    assert_eq!(rows[0].color_value, base_tokens().light.primary);
    let sizes = update_generic_size_values_with_parent(&panel(), &loaded[0].1, data, None, None, "lg");
    assert_eq!(sizes.len(), 2);
    assert_eq!(sizes[0].float_value, f(52.0));

    let shown = load_theme_editor_component_with_parent(
        &panel(),
        "button",
        &plugins,
        &base.component_themes,
        None,
        (9, -1, 2),
    )
    .unwrap();
    assert_eq!((shown.variant_index, shown.size_index, shown.state_index), (1, 0, 2));
    assert!(!shown.has_parent);
    assert_eq!(
        load_theme_editor_component_with_parent(&panel(), "x", &plugins, &base.component_themes, None, (0, 0, 0)),
        None
    );

    let preview = preview_variant_property_value(
        &panel(),
        &base.component_themes,
        "button",
        "primary",
        "pressed",
        "background",
    );
    assert_eq!(preview.color_value, base_tokens().light.primary_pressed);
    let size = preview_size_property_value(&panel(), &base.component_themes, "button", "md", "height");
    assert_eq!(size.float_value, f(44.0));
    let none = preview_size_property_value(&panel(), &base.component_themes, "button", "md", "nothing");
    assert_eq!(none, default_property_value_data());
}

#[test]
fn selections_come_back() {
    let mut selections = TextMap::new();
    assert_eq!(remember_component_selection(&mut selections, (1, 2, 3), "button", "input"), (0, 0, 0));
    assert_eq!(remember_component_selection(&mut selections, (4, 5, 6), "input", "button"), (1, 2, 3));
    assert_eq!(remember_component_selection(&mut selections, (0, 0, 1), "button", "input"), (4, 5, 6));
}

#[test]
fn the_sidebar_has_every_component_once() {
    let mut seen: Vec<&str> = Vec::new();
    for category in -1..6 {
        for component in -1..20 {
            if let Some(key) = sidebar_component_key(category, component) {
                assert!(!seen.contains(&key));
                seen.push(key);
            }
        }
    }
    let specs = builtin_component_specs();
    assert_eq!(seen.len(), specs.len());
    assert!(specs.iter().all(|s| seen.contains(&s.key)));
    assert_eq!(sidebar_component_key(0, 0), Some("button"));
    assert_eq!(sidebar_component_key(3, 1), Some("spinner"));
}

#[test]
fn icons_are_found_by_name() {
    let registry = IconRegistry::from_names(
        ["Arrow-Left", "arrow-right", "Home", "Home"].iter().map(|s| s.to_string()).collect(),
    );
    assert_eq!(registry.filter(" ARROW "), vec!["Arrow-Left", "arrow-right"]);
    assert_eq!(registry.filter(""), vec!["none", "Arrow-Left", "arrow-right", "Home", "Home"]);
    assert!(registry.filter("zzz").is_empty());
    assert_eq!(registry.image("arrow-right"), Some(1));
    assert_eq!(registry.image("Home"), Some(3));
    assert_eq!(registry.image("home"), None);
    assert_eq!(registry.image("none"), None);
    assert_eq!(registry.image(""), None);
}

#[test]
fn tokens_are_resolved_for_the_shown_scheme() {
    let mut panel = panel();
    assert_eq!(resolve_color_token_from_app(&panel, "color.primary"), Some(base_tokens().light.primary));
    panel.is_dark = true;
    assert_eq!(resolve_color_token_from_app(&panel, "color.primary"), Some(base_tokens().dark.primary));
    assert_eq!(resolve_number_token_from_app(&panel, "spacing.lg"), Some(f(16.0)));
    assert_eq!(resolve_font_token_from_app(&panel, "font.primary"), Some("Montserrat".to_string()));
    assert_eq!(resolve_number_token_from_app(&panel, "nothing.lg"), None);
    let palette = current_semantic_palette(&panel);
    assert!(palette.is_dark);
    assert_eq!(palette.primary, base_tokens().dark.primary);
    let tokens = init_theme_global_tokens(&panel, &base_tokens());
    assert!(tokens.iter().any(|t| t.value == PropertyValue::String("Montserrat".to_string())));
}
