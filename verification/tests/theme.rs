use theme_editor::color::Color;
use theme_editor::defaults::{create_default_theme, create_schema_fallback_tokens};
use theme_editor::scalar::Scalar;
use theme_editor::style::{color, set_style_prop, token_ref, StyleProps, StyleValue, ThemeValue};
use theme_editor::theme::{
    component_mut, is_known_state_key, set_token, size_style_mut, split_token_path, state_style_mut, variant_mut,
    ComponentKey, ComponentState, ComponentTheme, Theme, ThemedComponent, VariantTheme,
};
use theme_editor::tokens::{ColorScheme, ThemeTokens, TokenSet, TokenValue};

fn f(value: f32) -> Scalar {
    Scalar { bits: value.to_bits() }
}

fn hex(value: &str) -> ThemeValue {
    ThemeValue::Color(color(value))
}

fn float(value: f32) -> ThemeValue {
    ThemeValue::Float(f(value))
}

fn text(value: &str) -> ThemeValue {
    ThemeValue::String(value.to_string())
}

fn reference(path: &str) -> ThemeValue {
    ThemeValue::TokenRef(token_ref(path).as_str().to_string())
}

#[test]
fn test_style_props_merge() {
    let mut base = StyleProps {
        background: Some(Color::rgb(255, 0, 0)),
        foreground: Some(Color::rgb(255, 255, 255)),
        border_radius: Some(f(8.0)),
        font_family: Some("Arial".to_string()),
        ..StyleProps::new()
    };

    let override_props = StyleProps {
        background: Some(Color::rgb(0, 255, 0)),
        font_size: Some(f(16.0)),
        ..StyleProps::new()
    };

    base.merge(&override_props);

    assert_eq!(base.background, Some(Color::rgb(0, 255, 0)));
    assert_eq!(base.foreground, Some(Color::rgb(255, 255, 255)));
    assert_eq!(base.font_size, Some(f(16.0)));
    assert_eq!(base.border_radius, Some(f(8.0)));
    assert_eq!(base.font_family.as_deref(), Some("Arial"));
}

#[test]
fn test_theme_resolve_style() {
    let mut theme = Theme::new();

    let mut button = ComponentTheme::new();
    button.base = StyleProps { border_radius: Some(f(16.0)), font_weight: Some(500), ..StyleProps::new() };

    let mut primary = VariantTheme::new();
    primary.default = StyleProps {
        background: Some(Color::rgb(26, 154, 154)),
        foreground: Some(Color::rgb(255, 255, 255)),
        ..StyleProps::new()
    };

    primary.sizes.insert(
        "sm".to_string(),
        StyleProps {
            font_size: Some(f(14.0)),
            padding_horizontal: Some(f(12.0)),
            min_height: Some(f(36.0)),
            ..StyleProps::new()
        },
    );
    primary.sizes.insert(
        "md".to_string(),
        StyleProps {
            font_size: Some(f(16.0)),
            padding_horizontal: Some(f(16.0)),
            min_height: Some(f(44.0)),
            ..StyleProps::new()
        },
    );

    primary.states.insert("disabled".to_string(), StyleProps { opacity: Some(f(0.5)), ..StyleProps::new() });

    button.variants.insert("primary".to_string(), primary);
    theme.components.insert("button".to_string(), button);

    let style = theme.resolve_style("button", "primary", Some("md"), ComponentState::Default);
    assert_eq!(style.background, Some(Color::rgb(26, 154, 154)));
    assert_eq!(style.foreground, Some(Color::rgb(255, 255, 255)));
    assert_eq!(style.border_radius, Some(f(16.0)));
    assert_eq!(style.font_weight, Some(500));
    assert_eq!(style.font_size, Some(f(16.0)));
    assert_eq!(style.padding_horizontal, Some(f(16.0)));
    assert_eq!(style.min_height, Some(f(44.0)));
    assert_eq!(style.opacity, None);

    let disabled_style = theme.resolve_style("button", "primary", Some("md"), ComponentState::Disabled);
    assert_eq!(disabled_style.opacity, Some(f(0.5)));
    assert_eq!(disabled_style.background, Some(Color::rgb(26, 154, 154)));
}

#[test]
fn test_theme_inheritance_merges_tokens_and_components() {
    let mut parent = Theme::new();
    set_token(&mut parent, ColorScheme::Light, "color.primary", hex("#112233"));
    set_token(&mut parent, ColorScheme::Dark, "color.primary", hex("#223344"));

    {
        let component = component_mut(&mut parent, "button");
        let variant = variant_mut(component, "primary");
        set_style_prop(&mut variant.default, "background", hex("#112233"));
        set_style_prop(size_style_mut(variant, "sm"), "font_size", float(14.0));
    }

    let mut child = Theme::new();
    set_token(&mut child, ColorScheme::Light, "color.primary", hex("#abcdef"));
    {
        let component = component_mut(&mut child, "button");
        let variant = variant_mut(component, "primary");
        set_style_prop(&mut variant.default, "foreground", hex("#ffffff"));
        set_style_prop(state_style_mut(variant, "pressed"), "opacity", float(0.72));
    }

    let merged = child.with_parent(&parent);

    assert_eq!(merged.tokens.light.get_color("color", "primary"), Some(color("#abcdef")));
    assert_eq!(merged.tokens.dark.get_color("color", "primary"), Some(color("#abcdef")));

    let default_style = merged.resolve_style_for_state_key("button", "primary", Some("sm"), "normal");
    assert_eq!(default_style.background, Some(color("#112233")));
    assert_eq!(default_style.foreground, Some(color("#ffffff")));
    assert_eq!(default_style.font_size, Some(f(14.0)));

    let pressed_style = merged.resolve_style_for_state_key("button", "primary", Some("sm"), "pressed");
    assert_eq!(pressed_style.opacity, Some(f(0.72)));
}

#[test]
fn test_style_props_resolve_token_refs_by_scheme() {
    let mut theme = Theme::new();
    set_token(&mut theme, ColorScheme::Light, "color.primary", hex("#112233"));
    set_token(&mut theme, ColorScheme::Dark, "color.primary", hex("#abcdef"));
    set_token(&mut theme, ColorScheme::Light, "font.primary", text("Arial"));
    set_token(&mut theme, ColorScheme::Dark, "font.primary", text("Verdana"));
    set_token(&mut theme, ColorScheme::Light, "fontSize.md", float(16.0));
    set_token(&mut theme, ColorScheme::Dark, "fontSize.md", float(18.0));

    let component = component_mut(&mut theme, "button");
    let variant = variant_mut(component, "primary");
    set_style_prop(&mut variant.default, "background", reference("color.primary"));
    set_style_prop(size_style_mut(variant, "md"), "font_family", reference("font.primary"));
    set_style_prop(size_style_mut(variant, "md"), "font_size", reference("fontSize.md"));

    let light =
        theme.get_component_style("button", "primary", Some("md"), ComponentState::Default, ColorScheme::Light);
    assert_eq!(light.background, Some(color("#112233")));
    assert_eq!(light.font_family.as_deref(), Some("Arial"));
    assert_eq!(light.font_size, Some(f(16.0)));

    let dark =
        theme.get_component_style("button", "primary", Some("md"), ComponentState::Default, ColorScheme::Dark);
    assert_eq!(dark.background, Some(color("#abcdef")));
    assert_eq!(dark.font_family.as_deref(), Some("Verdana"));
    assert_eq!(dark.font_size, Some(f(18.0)));
}

fn parent_theme() -> Theme {
    let mut theme = Theme::new();
    set_token(&mut theme, ColorScheme::Light, "color.primary", hex("#102030"));
    set_token(&mut theme, ColorScheme::Light, "fontSize.sm", float(14.0));
    let component = component_mut(&mut theme, "button");
    let variant = variant_mut(component, "primary");
    set_style_prop(&mut variant.default, "background", hex("#102030"));
    set_style_prop(size_style_mut(variant, "sm"), "font_size", reference("fontSize.sm"));
    theme
}

fn child_theme() -> Theme {
    let mut theme = parent_theme();
    set_token(&mut theme, ColorScheme::Dark, "color.primary", hex("#abcdef"));
    let component = component_mut(&mut theme, "button");
    let variant = variant_mut(component, "primary");
    set_style_prop(state_style_mut(variant, "pressed"), "opacity", float(0.4));
    theme
}

#[test]
fn test_define_theme_macro_supports_extends() {
    let theme = child_theme();
    assert_eq!(theme.tokens.light.get_color("color", "primary"), Some(color("#102030")));
    assert_eq!(theme.tokens.dark.get_color("color", "primary"), Some(color("#abcdef")));

    let default_style =
        theme.get_component_style("button", "primary", Some("sm"), ComponentState::Default, ColorScheme::Light);
    assert_eq!(default_style.background, Some(color("#102030")));
    assert_eq!(default_style.font_size, Some(f(14.0)));

    let pressed_style =
        theme.get_component_style_by_state_key("button", "primary", Some("sm"), "pressed", ColorScheme::Light);
    assert_eq!(pressed_style.opacity, Some(f(0.4)));
}

#[test]
fn test_default_tokens() {
    let tokens = create_schema_fallback_tokens();

    let primary = tokens.light.get_color("color", "primary").unwrap();
    assert_eq!(primary.r, 0x00);
    assert_eq!(primary.g, 0x9D);
    assert_eq!(primary.b, 0xB9);

    let primary_dark = tokens.dark.get_color("color", "primary").unwrap();
    assert_eq!(primary_dark.r, 0x33);
    assert_eq!(primary_dark.g, 0xB1);
    assert_eq!(primary_dark.b, 0xC7);

    assert_eq!(tokens.light.get_float("radius", "md"), Some(f(16.0)));
    assert_eq!(tokens.light.get_float("radius", "default"), Some(f(24.0)));

    assert_eq!(tokens.light.get_float("fontSize", "xs"), Some(f(18.0)));
    assert_eq!(tokens.light.get_float("fontSize", "sm"), Some(f(20.0)));
    assert_eq!(tokens.light.get_float("fontSize", "md"), Some(f(22.0)));
    assert_eq!(tokens.light.get_float("fontSize", "lg"), Some(f(24.0)));
    assert_eq!(tokens.light.get_float("fontSize", "xl"), Some(f(26.0)));

    assert_eq!(tokens.light.get_string("font", "primary"), Some("Montserrat"));

    assert_eq!(tokens.light.get_int("fontWeight", "medium"), Some(500));
}

#[test]
fn default_tokens_have_dark_light_parity() {
    let tokens = create_schema_fallback_tokens();
    let diff = tokens.parity_diff();
    assert!(diff.is_empty(), "token parity violations between light and dark: {diff:?}");
}

#[derive(Copy, Clone)]
enum TestVariant {
    Primary,
}

impl ComponentKey for TestVariant {
    fn key(self) -> &'static str {
        match self {
            TestVariant::Primary => "primary",
        }
    }
}

#[derive(Copy, Clone)]
enum TestSize {
    Md,
}

impl ComponentKey for TestSize {
    fn key(self) -> &'static str {
        match self {
            TestSize::Md => "md",
        }
    }
}

struct ButtonTestComponent;

impl ThemedComponent for ButtonTestComponent {
    const NAME: &'static str = "button";
    type Variant = TestVariant;
    type Size = TestSize;
    type State = ComponentState;
}

#[test]
fn typed_resolve_returns_same_style_as_string_resolve() {
    let theme = create_default_theme();
    let typed = theme.resolve::<ButtonTestComponent>(
        TestVariant::Primary,
        Some(TestSize::Md),
        ComponentState::Default,
        ColorScheme::Light,
    );
    let stringly = theme.resolve_style_for_state_key_with_scheme(
        "button",
        "primary",
        Some("md"),
        "default",
        ColorScheme::Light,
    );
    assert_eq!(typed, stringly);
    assert!(typed.background.is_some());
    let light = theme.resolve_light::<ButtonTestComponent>(
        TestVariant::Primary,
        Some(TestSize::Md),
        ComponentState::Default,
    );
    assert_eq!(light, typed);
}

#[test]
fn what_a_theme_lacks_has_the_empty_style() {
    let mut theme = Theme::new();
    let component = component_mut(&mut theme, "button");
    component.base.opacity = Some(f(0.5));
    variant_mut(component, "primary").default.opacity = Some(f(0.25));
    let resolved = |component: &str, variant: &str, size: Option<&str>, state: &str| {
        theme.resolve_style_for_state_key_with_scheme(component, variant, size, state, ColorScheme::Dark)
    };
    assert_eq!(resolved("button", "primary", None, "default").opacity, Some(f(0.25)));
    assert_eq!(resolved("button", "primary", Some("huge"), "elsewhere").opacity, Some(f(0.25)));
    assert_eq!(resolved("button", "secondary", None, "default"), StyleProps::new());
    assert_eq!(resolved("slider", "primary", None, "default"), StyleProps::new());
}

#[test]
fn the_nearest_style_counts() {
    let mut theme = Theme::new();
    set_token(&mut theme, ColorScheme::Light, "radius.md", float(9.0));
    let component = component_mut(&mut theme, "button");
    set_style_prop(&mut component.base, "opacity", float(0.1));
    set_style_prop(&mut component.base, "min-height", float(1.0));
    set_style_prop(&mut component.base, "min-width", float(1.0));
    set_style_prop(&mut component.base, "border-radius", float(1.0));
    let variant = variant_mut(component, "primary");
    set_style_prop(&mut variant.default, "min-height", float(2.0));
    set_style_prop(&mut variant.default, "min-width", float(2.0));
    set_style_prop(&mut variant.default, "border-radius", reference("radius.md"));
    set_style_prop(size_style_mut(variant, "lg"), "min-width", float(3.0));
    set_style_prop(size_style_mut(variant, "lg"), "icon-size", float(3.0));
    set_style_prop(state_style_mut(variant, "pressed"), "icon-size", float(4.0));
    let resolved = |size: Option<&str>, state: &str| {
        theme.resolve_style_for_state_key_with_scheme("button", "primary", size, state, ColorScheme::Light)
    };
    let pressed = resolved(Some("lg"), "pressed");
    assert_eq!(pressed.opacity, Some(f(0.1)));
    assert_eq!(pressed.min_height, Some(f(2.0)));
    assert_eq!(pressed.min_width, Some(f(3.0)));
    assert_eq!(pressed.icon_size, Some(f(4.0)));
    assert_eq!(pressed.border_radius, Some(f(9.0)));
    assert_eq!(resolved(Some("lg"), "normal").icon_size, Some(f(3.0)));
    assert_eq!(resolved(None, "pressed").min_width, Some(f(2.0)));
    assert_eq!(resolved(None, "normal").icon_size, None);
}

#[test]
fn missing_dark_token_is_a_disparity() {
    let mut tokens = ThemeTokens::new();
    tokens.light.set("color", "primary", TokenValue::Color(Color::rgb(1, 2, 3)));
    let diff = tokens.parity_diff();
    assert_eq!(diff.len(), 1);
    assert_eq!(diff[0].0, "color");
    assert_eq!(diff[0].1, "primary");
    assert_eq!(diff[0].2, "missing-in-dark");

    tokens.dark.set("color", "accent", TokenValue::Color(Color::rgb(1, 2, 3)));
    tokens.dark.set("radius", "md", TokenValue::Float(f(2.0)));
    let diff = tokens.parity_diff();
    assert_eq!(diff.len(), 3);
    assert!(diff.contains(&("radius".to_string(), "md".to_string(), "missing-in-light")));
    assert!(diff.contains(&("color".to_string(), "accent".to_string(), "missing-in-light")));
}

#[test]
fn references_are_followed_and_circles_are_not() {
    let mut set = TokenSet::new();
    set.set("radius", "md", TokenValue::Float(f(16.0)));
    set.set("radius", "default", TokenValue::Ref("radius.md".to_string()));
    set.set("radius", "short", TokenValue::Ref(" md ".to_string()));
    set.set("radius", "a", TokenValue::Ref("radius.b".to_string()));
    set.set("radius", "b", TokenValue::Ref("radius.a".to_string()));
    set.set("radius", "blank", TokenValue::Ref("  ".to_string()));
    assert_eq!(set.get_float("radius", "default"), Some(f(16.0)));
    assert_eq!(set.get_float("radius", "short"), Some(f(16.0)));
    assert_eq!(set.get_float("radius", "a"), None);
    assert_eq!(set.get_float("radius", "blank"), None);
    assert_eq!(set.resolve_reference("default", Some("radius")), Some(&TokenValue::Float(f(16.0))));
    assert_eq!(set.resolve_reference("default", None), None);
    assert_eq!(set.resolve_reference("radius.default", None), Some(&TokenValue::Float(f(16.0))));
}

#[test]
fn token_paths_split_at_the_first_dot() {
    assert_eq!(split_token_path("color.primary.dark"), ("color".to_string(), "primary.dark".to_string()));
}

#[test]
fn a_later_style_replaces_a_reference_and_a_reference_a_value() {
    let mut base = StyleProps::new();
    set_style_prop(&mut base, "Font-Size", reference("fontSize.md"));
    assert_eq!(base.token_refs.get("font_size").map(String::as_str), Some("fontSize.md"));
    let mut over = StyleProps::new();
    set_style_prop(&mut over, "font-size", float(12.0));
    let merged = base.merged_with(&over);
    assert_eq!(merged.font_size, Some(f(12.0)));
    assert!(merged.token_refs.get("font_size").is_none());
    let back = merged.merged_with(&base);
    assert_eq!(back.font_size, None);
    assert_eq!(back.token_refs.get("font_size").map(String::as_str), Some("fontSize.md"));
}

#[test]
fn other_properties_are_kept_as_extra_values() {
    let mut style = StyleProps::new();
    set_style_prop(&mut style, "Focus-Ring", hex("#010203"));
    set_style_prop(&mut style, "label", text("x"));
    assert_eq!(style.get_extra_color("focus_ring"), Some(Color::rgb(1, 2, 3)));
    assert_eq!(style.extra.get("label"), Some(&StyleValue::String("x".to_string())));
    assert_eq!(style.get_extra_float("label"), None);
}

#[test]
fn merging_is_associative_and_idempotent_on_an_example() {
    let mut a = StyleProps::new();
    set_style_prop(&mut a, "background", hex("#111111"));
    set_style_prop(&mut a, "opacity", float(0.5));
    let mut b = StyleProps::new();
    set_style_prop(&mut b, "background", reference("color.primary"));
    let mut c = StyleProps::new();
    set_style_prop(&mut c, "opacity", reference("opacity.low"));
    assert_eq!(a.merged_with(&b).merged_with(&c), a.merged_with(&b.merged_with(&c)));
    assert_eq!(a.merged_with(&b).merged_with(&b), a.merged_with(&b));
}

#[test]
fn states_have_known_keys() {
    assert_eq!(ComponentState::Default.key(), "default");
    assert_eq!(ComponentState::Disabled.key(), "disabled");
    assert!(is_known_state_key("pressed"));
    assert!(!is_known_state_key("loading-ish"));
}
