//! The default tokens and the default theme.

use vstd::prelude::*;
use crate::cascade::{self, Setting};
use crate::color::{self, Color};
use crate::scalar::{self, Scalar};
use crate::style::{self, set_style_prop, Style, StyleProps, ThemeValue};
use crate::text::owned;
use crate::textmap::TextMap;
use crate::theme::{Component, ComponentTheme, Theme, ThemeModel, Variant, VariantTheme};
use crate::tokens::{self, SchemeTokens, ThemeTokens, TokenSet, TokenValue, Tokens};
use crate::value::Value;

verus! {

/// The token set with a color token set.
pub open spec fn with_color(t: Tokens, key: Seq<char>, r: u8, g: u8, b: u8, a: u8) -> Tokens {
    tokens::stored(t, "color"@, key, Value::Color(Color { r, g, b, a }))
}

/// The token set with a token set to a whole number, as a float.
pub open spec fn with_number(t: Tokens, category: Seq<char>, key: Seq<char>, n: int) -> Tokens {
    tokens::stored(t, category, key, Value::Float(scalar::int_scalar(n)))
}

/// The token set with a token set to the float of a bit pattern.
pub open spec fn with_bits(t: Tokens, category: Seq<char>, key: Seq<char>, bits: u32) -> Tokens {
    tokens::stored(t, category, key, Value::Float(Scalar { bits }))
}

/// The token set with the colors of the light scheme.
pub open spec fn with_light_colors(t: Tokens) -> Tokens {
    let t = with_color(t, "primary"@, 0, 157, 185, 255);
    let t = with_color(t, "primary.light"@, 51, 177, 199, 255);
    let t = with_color(t, "primary.dark"@, 0, 111, 131, 255);
    let t = with_color(t, "secondary"@, 213, 212, 213, 255);
    let t = with_color(t, "secondary.dark"@, 227, 226, 226, 255);
    let t = with_color(t, "background"@, 255, 255, 255, 255);
    let t = with_color(t, "surface"@, 255, 255, 255, 255);
    let t = with_color(t, "foreground"@, 35, 31, 32, 255);
    let t = with_color(t, "foreground.light"@, 35, 31, 32, 25);
    let t = with_color(t, "muted"@, 149, 147, 148, 255);
    let t = with_color(t, "border"@, 213, 212, 213, 255);
    let t = with_color(t, "danger"@, 255, 51, 51, 255);
    let t = with_color(t, "danger.light"@, 255, 92, 92, 255);
    let t = with_color(t, "danger.dark"@, 181, 36, 36, 255);
    let t = with_color(t, "warning"@, 217, 119, 6, 255);
    let t = with_color(t, "success"@, 22, 163, 74, 255);
    let t = with_color(t, "info"@, 37, 99, 235, 255);
    let t = with_color(t, "transparent"@, 0, 0, 0, 0);
    let t = with_color(t, "white"@, 255, 255, 255, 255);
    t
}

/// The token set with the colors of the dark scheme.
pub open spec fn with_dark_colors(t: Tokens) -> Tokens {
    let t = with_color(t, "primary"@, 51, 177, 199, 255);
    let t = with_color(t, "primary.light"@, 84, 189, 208, 255);
    let t = with_color(t, "primary.dark"@, 138, 210, 223, 255);
    let t = with_color(t, "secondary"@, 90, 89, 90, 255);
    let t = with_color(t, "secondary.dark"@, 90, 89, 90, 255);
    let t = with_color(t, "background"@, 35, 31, 32, 255);
    let t = with_color(t, "surface"@, 35, 31, 32, 255);
    let t = with_color(t, "foreground"@, 255, 255, 255, 255);
    let t = with_color(t, "foreground.light"@, 255, 255, 255, 25);
    let t = with_color(t, "muted"@, 149, 147, 148, 255);
    let t = with_color(t, "border"@, 69, 68, 68, 255);
    let t = with_color(t, "danger"@, 255, 51, 51, 255);
    let t = with_color(t, "danger.light"@, 255, 92, 92, 255);
    let t = with_color(t, "danger.dark"@, 255, 118, 118, 255);
    let t = with_color(t, "warning"@, 245, 158, 11, 255);
    let t = with_color(t, "success"@, 34, 197, 94, 255);
    let t = with_color(t, "info"@, 59, 130, 246, 255);
    let t = with_color(t, "transparent"@, 0, 0, 0, 0);
    let t = with_color(t, "white"@, 255, 255, 255, 255);
    t
}

/// The token set with the tokens that the schemes share: sizes, fonts and effects.
pub open spec fn with_scales(t: Tokens) -> Tokens {
    let t = with_number(t, "radius"@, "none"@, 0);
    let t = with_number(t, "radius"@, "sm"@, 8);
    let t = with_number(t, "radius"@, "md"@, 16);
    let t = tokens::stored(t, "radius"@, "default"@, Value::Ref("radius.lg"@));
    let t = with_number(t, "radius"@, "lg"@, 24);
    let t = with_number(t, "radius"@, "xl"@, 32);
    let t = with_number(t, "radius"@, "full"@, 9999);
    let t = with_number(t, "borderWidth"@, "none"@, 0);
    let t = with_number(t, "borderWidth"@, "thin"@, 1);
    let t = with_number(t, "borderWidth"@, "medium"@, 2);
    let t = with_number(t, "borderWidth"@, "thick"@, 3);
    let t = with_number(t, "spacing"@, "xs"@, 4);
    let t = with_number(t, "spacing"@, "sm"@, 8);
    let t = with_number(t, "spacing"@, "md"@, 12);
    let t = with_number(t, "spacing"@, "lg"@, 16);
    let t = with_number(t, "spacing"@, "xl"@, 24);
    let t = with_number(t, "spacing"@, "2xl"@, 32);
    let t = with_number(t, "controlSize"@, "sm"@, 48);
    let t = with_number(t, "controlSize"@, "md"@, 56);
    let t = with_number(t, "controlSize"@, "lg"@, 64);
    let t = with_number(t, "iconSize"@, "sm"@, 20);
    let t = with_number(t, "iconSize"@, "md"@, 24);
    let t = with_number(t, "iconSize"@, "lg"@, 28);
    let t = with_number(t, "controlRadius"@, "sm"@, 20);
    let t = with_number(t, "controlRadius"@, "md"@, 24);
    let t = with_number(t, "controlRadius"@, "lg"@, 28);
    let t = with_number(t, "controlPaddingInline"@, "sm"@, 14);
    let t = with_number(t, "controlPaddingInline"@, "md"@, 16);
    let t = with_number(t, "controlPaddingInline"@, "lg"@, 20);
    let t = with_number(t, "fontSize"@, "xs"@, 18);
    let t = with_number(t, "fontSize"@, "sm"@, 20);
    let t = with_number(t, "fontSize"@, "md"@, 22);
    let t = with_number(t, "fontSize"@, "lg"@, 24);
    let t = with_number(t, "fontSize"@, "xl"@, 26);
    let t = with_number(t, "fontSize"@, "2xl"@, 32);
    let t = tokens::stored(t, "font"@, "primary"@, Value::Text("Montserrat"@));
    let t = tokens::stored(t, "font"@, "secondary"@, Value::Text("Montserrat"@));
    let t = tokens::stored(t, "font"@, "tertiary"@, Value::Text("Montserrat"@));
    let t = tokens::stored(t, "fontWeight"@, "normal"@, Value::Int(400));
    let t = tokens::stored(t, "fontWeight"@, "medium"@, Value::Int(500));
    let t = tokens::stored(t, "fontWeight"@, "bold"@, Value::Int(700));
    let t = with_bits(t, "lineHeight"@, "tight"@, 0x3F99999A);
    let t = with_bits(t, "lineHeight"@, "normal"@, 0x3FC00000);
    let t = with_bits(t, "lineHeight"@, "loose"@, 0x3FE00000);
    let t = with_bits(t, "opacity"@, "disabled"@, 0x3F000000);
    let t = with_number(t, "transition"@, "fast"@, 100);
    let t = with_number(t, "transition"@, "normal"@, 200);
    let t = with_number(t, "transition"@, "slow"@, 300);
    t
}

/// The fallback tokens of both schemes.
pub open spec fn fallback_tokens() -> SchemeTokens {
    SchemeTokens {
        light: with_scales(with_light_colors(Map::empty())),
        dark: with_scales(with_dark_colors(Map::empty())),
    }
}

fn set_color(tokens: &mut TokenSet, key: &str, r: u8, g: u8, b: u8, a: u8)
    ensures
        final(tokens)@ == with_color(old(tokens)@, key@, r, g, b, a),
{
    tokens.set("color", key, TokenValue::Color(Color::rgba(r, g, b, a)));
}

fn set_number(tokens: &mut TokenSet, category: &str, key: &str, n: i32)
    ensures
        final(tokens)@ == with_number(old(tokens)@, category@, key@, n as int),
{
    tokens.set(category, key, TokenValue::Float(Scalar::from_int(n)));
}

fn set_bits(tokens: &mut TokenSet, category: &str, key: &str, bits: u32)
    ensures
        final(tokens)@ == with_bits(old(tokens)@, category@, key@, bits),
{
    tokens.set(category, key, TokenValue::Float(Scalar { bits }));
}

/// Sets the tokens that the schemes share.
fn set_scales(tokens: &mut TokenSet)
    ensures
        final(tokens)@ == with_scales(old(tokens)@),
{
    set_number(tokens, "radius", "none", 0);
    set_number(tokens, "radius", "sm", 8);
    set_number(tokens, "radius", "md", 16);
    tokens.set("radius", "default", TokenValue::Ref(owned("radius.lg")));
    set_number(tokens, "radius", "lg", 24);
    set_number(tokens, "radius", "xl", 32);
    set_number(tokens, "radius", "full", 9999);
    set_number(tokens, "borderWidth", "none", 0);
    set_number(tokens, "borderWidth", "thin", 1);
    set_number(tokens, "borderWidth", "medium", 2);
    set_number(tokens, "borderWidth", "thick", 3);
    set_number(tokens, "spacing", "xs", 4);
    set_number(tokens, "spacing", "sm", 8);
    set_number(tokens, "spacing", "md", 12);
    set_number(tokens, "spacing", "lg", 16);
    set_number(tokens, "spacing", "xl", 24);
    set_number(tokens, "spacing", "2xl", 32);
    set_number(tokens, "controlSize", "sm", 48);
    set_number(tokens, "controlSize", "md", 56);
    set_number(tokens, "controlSize", "lg", 64);
    set_number(tokens, "iconSize", "sm", 20);
    set_number(tokens, "iconSize", "md", 24);
    set_number(tokens, "iconSize", "lg", 28);
    set_number(tokens, "controlRadius", "sm", 20);
    set_number(tokens, "controlRadius", "md", 24);
    set_number(tokens, "controlRadius", "lg", 28);
    set_number(tokens, "controlPaddingInline", "sm", 14);
    set_number(tokens, "controlPaddingInline", "md", 16);
    set_number(tokens, "controlPaddingInline", "lg", 20);
    set_number(tokens, "fontSize", "xs", 18);
    set_number(tokens, "fontSize", "sm", 20);
    set_number(tokens, "fontSize", "md", 22);
    set_number(tokens, "fontSize", "lg", 24);
    set_number(tokens, "fontSize", "xl", 26);
    set_number(tokens, "fontSize", "2xl", 32);
    tokens.set("font", "primary", TokenValue::String(owned("Montserrat")));
    tokens.set("font", "secondary", TokenValue::String(owned("Montserrat")));
    tokens.set("font", "tertiary", TokenValue::String(owned("Montserrat")));
    tokens.set("fontWeight", "normal", TokenValue::Int(400));
    tokens.set("fontWeight", "medium", TokenValue::Int(500));
    tokens.set("fontWeight", "bold", TokenValue::Int(700));
    set_bits(tokens, "lineHeight", "tight", 0x3F99999A);
    set_bits(tokens, "lineHeight", "normal", 0x3FC00000);
    set_bits(tokens, "lineHeight", "loose", 0x3FE00000);
    set_bits(tokens, "opacity", "disabled", 0x3F000000);
    set_number(tokens, "transition", "fast", 100);
    set_number(tokens, "transition", "normal", 200);
    set_number(tokens, "transition", "slow", 300);
}

/// The fallback tokens of the light scheme.
fn create_light_tokens() -> (r: TokenSet)
    ensures
        r@ == fallback_tokens().light,
{
    let mut tokens = TokenSet::new();
    set_color(&mut tokens, "primary", 0, 157, 185, 255);
    set_color(&mut tokens, "primary.light", 51, 177, 199, 255);
    set_color(&mut tokens, "primary.dark", 0, 111, 131, 255);
    set_color(&mut tokens, "secondary", 213, 212, 213, 255);
    set_color(&mut tokens, "secondary.dark", 227, 226, 226, 255);
    set_color(&mut tokens, "background", 255, 255, 255, 255);
    set_color(&mut tokens, "surface", 255, 255, 255, 255);
    set_color(&mut tokens, "foreground", 35, 31, 32, 255);
    set_color(&mut tokens, "foreground.light", 35, 31, 32, 25);
    set_color(&mut tokens, "muted", 149, 147, 148, 255);
    set_color(&mut tokens, "border", 213, 212, 213, 255);
    set_color(&mut tokens, "danger", 255, 51, 51, 255);
    set_color(&mut tokens, "danger.light", 255, 92, 92, 255);
    set_color(&mut tokens, "danger.dark", 181, 36, 36, 255);
    set_color(&mut tokens, "warning", 217, 119, 6, 255);
    set_color(&mut tokens, "success", 22, 163, 74, 255);
    set_color(&mut tokens, "info", 37, 99, 235, 255);
    set_color(&mut tokens, "transparent", 0, 0, 0, 0);
    set_color(&mut tokens, "white", 255, 255, 255, 255);
    set_scales(&mut tokens);
    tokens
}

/// The fallback tokens of the dark scheme.
fn create_dark_tokens() -> (r: TokenSet)
    ensures
        r@ == fallback_tokens().dark,
{
    let mut tokens = TokenSet::new();
    set_color(&mut tokens, "primary", 51, 177, 199, 255);
    set_color(&mut tokens, "primary.light", 84, 189, 208, 255);
    set_color(&mut tokens, "primary.dark", 138, 210, 223, 255);
    set_color(&mut tokens, "secondary", 90, 89, 90, 255);
    set_color(&mut tokens, "secondary.dark", 90, 89, 90, 255);
    set_color(&mut tokens, "background", 35, 31, 32, 255);
    set_color(&mut tokens, "surface", 35, 31, 32, 255);
    set_color(&mut tokens, "foreground", 255, 255, 255, 255);
    set_color(&mut tokens, "foreground.light", 255, 255, 255, 25);
    set_color(&mut tokens, "muted", 149, 147, 148, 255);
    set_color(&mut tokens, "border", 69, 68, 68, 255);
    set_color(&mut tokens, "danger", 255, 51, 51, 255);
    set_color(&mut tokens, "danger.light", 255, 92, 92, 255);
    set_color(&mut tokens, "danger.dark", 255, 118, 118, 255);
    set_color(&mut tokens, "warning", 245, 158, 11, 255);
    set_color(&mut tokens, "success", 34, 197, 94, 255);
    set_color(&mut tokens, "info", 59, 130, 246, 255);
    set_color(&mut tokens, "transparent", 0, 0, 0, 0);
    set_color(&mut tokens, "white", 255, 255, 255, 255);
    set_scales(&mut tokens);
    tokens
}

/// Create schema fallback tokens with light and dark schemes.
pub fn create_schema_fallback_tokens() -> (r: ThemeTokens)
    ensures
        r@ == fallback_tokens(),
{
    ThemeTokens { light: create_light_tokens(), dark: create_dark_tokens() }
}

/// A style with a property set to a token reference.
pub open spec fn with_ref(s: Style, name: Seq<char>, path: Seq<char>) -> Style {
    style::with_prop(s, name, Value::Ref(path))
}

/// A style with a numeric property set to a whole number.
pub open spec fn with_whole(s: Style, name: Seq<char>, n: int) -> Style {
    style::with_prop(s, name, Value::Float(scalar::int_scalar(n)))
}

/// The style that all buttons share.
pub open spec fn button_base() -> Style {
    let s = with_ref(style::empty_style(), "font_weight"@, "fontWeight.medium"@);
    let s = with_whole(s, "border_width"@, 0);
    let s = with_whole(s, "opacity"@, 1);
    with_whole(s, "touch_expansion"@, 4)
}

/// A style with background and foreground tokens.
pub open spec fn button_face(background: Seq<char>, foreground: Seq<char>) -> Style {
    with_ref(with_ref(style::empty_style(), "background"@, background), "foreground"@, foreground)
}

/// The style of a focused button: a border two wide.
pub open spec fn button_focus(border: Seq<char>) -> Style {
    with_whole(with_ref(style::empty_style(), "border_color"@, border), "border_width"@, 2)
}

/// The styles of a button's states.
pub open spec fn button_states(focus_border: Seq<char>, pressed: Value) -> Map<Seq<char>, Style> {
    Map::<Seq<char>, Style>::empty().insert("focused"@, button_focus(focus_border)).insert(
        "pressed"@,
        style::with_prop(style::empty_style(), "background"@, pressed),
    ).insert("disabled"@, with_ref(style::empty_style(), "opacity"@, "opacity.disabled"@))
}

/// The style of one button size.
pub open spec fn button_size(
    font_size: Seq<char>,
    padding_h: Seq<char>,
    padding_v: Seq<char>,
    icon: Value,
    min_height: int,
) -> Style {
    let s = with_ref(style::empty_style(), "font_family"@, "font.primary"@);
    let s = with_ref(s, "font_size"@, font_size);
    let s = with_ref(s, "padding_horizontal"@, padding_h);
    let s = with_ref(s, "padding_vertical"@, padding_v);
    let s = style::with_prop(s, "icon_size"@, icon);
    let s = with_whole(s, "min_height"@, min_height);
    with_ref(s, "border_radius"@, "radius.default"@)
}

/// The styles of the button sizes.
pub open spec fn button_sizes() -> Map<Seq<char>, Style> {
    Map::<Seq<char>, Style>::empty().insert(
        "sm"@,
        button_size("fontSize.sm"@, "spacing.md"@, "spacing.xs"@, Value::Ref("spacing.lg"@), 52),
    ).insert(
        "md"@,
        button_size(
            "fontSize.md"@,
            "spacing.lg"@,
            "spacing.sm"@,
            Value::Float(scalar::int_scalar(24)),
            60,
        ),
    ).insert(
        "lg"@,
        button_size("fontSize.lg"@, "spacing.xl"@, "spacing.md"@, Value::Ref("spacing.xl"@), 68),
    )
}

/// One button variant.
pub open spec fn button_variant(face: Style, focus_border: Seq<char>, pressed: Value) -> Variant {
    Variant { default: face, sizes: button_sizes(), states: button_states(focus_border, pressed) }
}

/// The default style of the tertiary button: an outline.
pub open spec fn tertiary_face() -> Style {
    with_whole(
        with_ref(
            button_face("color.transparent"@, "color.primary"@),
            "border_color"@,
            "color.primary"@,
        ),
        "border_width"@,
        2,
    )
}

/// The button component. Two pressed backgrounds are tints of the theme's primary and foreground
/// colors.
pub open spec fn button_component(primary: Color, foreground: Color) -> Component {
    Component {
        base: button_base(),
        variants: Map::<Seq<char>, Variant>::empty().insert(
            "primary"@,
            button_variant(
                button_face("color.primary"@, "color.white"@),
                "color.primary.light"@,
                Value::Ref("color.primary.dark"@),
            ),
        ).insert(
            "secondary"@,
            button_variant(
                button_face("color.secondary"@, "color.foreground"@),
                "color.primary"@,
                Value::Ref("color.secondary.dark"@),
            ),
        ).insert(
            "danger"@,
            button_variant(
                button_face("color.danger"@, "color.white"@),
                "color.danger.light"@,
                Value::Ref("color.danger.dark"@),
            ),
        ).insert(
            "ghost"@,
            button_variant(
                button_face("color.transparent"@, "color.foreground"@),
                "color.primary"@,
                Value::Color(color::faded(foreground, 10)),
            ),
        ).insert(
            "tertiary"@,
            button_variant(
                tertiary_face(),
                "color.primary"@,
                Value::Color(color::faded(primary, 20)),
            ),
        ),
    }
}

/// A color token of a scheme, or a fallback where it does not resolve to a color.
pub open spec fn color_or(t: Tokens, key: Seq<char>, fallback: Color) -> Color {
    match tokens::resolved(t, "color"@, key) {
        Some(Value::Color(c)) => c,
        _ => fallback,
    }
}

fn put_ref(s: &mut StyleProps, name: &str, path: &str)
    requires
        style::normal_name(name@) == name@,
    ensures
        final(s)@ == with_ref(old(s)@, name@, path@),
{
    set_style_prop(s, name, ThemeValue::TokenRef(owned(path)));
}

fn put_whole(s: &mut StyleProps, name: &str, n: i32)
    requires
        style::normal_name(name@) == name@,
        style::accepts(name@, Value::Float(scalar::int_scalar(n as int))),
    ensures
        final(s)@ == with_whole(old(s)@, name@, n as int),
{
    set_style_prop(s, name, ThemeValue::Float(Scalar::from_int(n)));
}

fn face(background: &str, foreground: &str) -> (r: StyleProps)
    ensures
        r@ == button_face(background@, foreground@),
{
    proof {
        style::standard_names_normal();
    }
    let mut s = StyleProps::new();
    put_ref(&mut s, "background", background);
    put_ref(&mut s, "foreground", foreground);
    s
}

fn base_style() -> (r: StyleProps)
    ensures
        r@ == button_base(),
{
    proof {
        style::standard_names_normal();
        style::standard_names_differ();
    }
    let mut s = StyleProps::new();
    put_ref(&mut s, "font_weight", "fontWeight.medium");
    put_whole(&mut s, "border_width", 0);
    put_whole(&mut s, "opacity", 1);
    put_whole(&mut s, "touch_expansion", 4);
    s
}

fn states(focus_border: &str, pressed: ThemeValue) -> (r: TextMap<StyleProps>)
    requires
        style::accepts("background"@, pressed@),
    ensures
        r@ == button_states(focus_border@, pressed@),
{
    proof {
        style::standard_names_normal();
        style::standard_names_differ();
    }
    let mut focused = StyleProps::new();
    put_ref(&mut focused, "border_color", focus_border);
    put_whole(&mut focused, "border_width", 2);
    let mut pressed_style = StyleProps::new();
    set_style_prop(&mut pressed_style, "background", pressed);
    let mut disabled = StyleProps::new();
    put_ref(&mut disabled, "opacity", "opacity.disabled");
    let mut out: TextMap<StyleProps> = TextMap::new();
    out.insert(owned("focused"), focused);
    out.insert(owned("pressed"), pressed_style);
    out.insert(owned("disabled"), disabled);
    out
}

fn size(
    font_size: &str,
    padding_h: &str,
    padding_v: &str,
    icon: ThemeValue,
    min_height: i32,
) -> (r: StyleProps)
    requires
        style::accepts("icon_size"@, icon@),
    ensures
        r@ == button_size(font_size@, padding_h@, padding_v@, icon@, min_height as int),
{
    proof {
        style::standard_names_normal();
        style::standard_names_differ();
    }
    let mut s = StyleProps::new();
    put_ref(&mut s, "font_family", "font.primary");
    put_ref(&mut s, "font_size", font_size);
    put_ref(&mut s, "padding_horizontal", padding_h);
    put_ref(&mut s, "padding_vertical", padding_v);
    set_style_prop(&mut s, "icon_size", icon);
    put_whole(&mut s, "min_height", min_height);
    put_ref(&mut s, "border_radius", "radius.default");
    s
}

fn sizes() -> (r: TextMap<StyleProps>)
    ensures
        r@ == button_sizes(),
{
    proof {
        style::standard_names_differ();
    }
    let mut out: TextMap<StyleProps> = TextMap::new();
    out.insert(
        owned("sm"),
        size(
            "fontSize.sm",
            "spacing.md",
            "spacing.xs",
            ThemeValue::TokenRef(owned("spacing.lg")),
            52,
        ),
    );
    out.insert(
        owned("md"),
        size(
            "fontSize.md",
            "spacing.lg",
            "spacing.sm",
            ThemeValue::Float(Scalar::from_int(24)),
            60,
        ),
    );
    out.insert(
        owned("lg"),
        size(
            "fontSize.lg",
            "spacing.xl",
            "spacing.md",
            ThemeValue::TokenRef(owned("spacing.xl")),
            68,
        ),
    );
    out
}

fn variant(face: StyleProps, focus_border: &str, pressed: ThemeValue) -> (r: VariantTheme)
    requires
        style::accepts("background"@, pressed@),
    ensures
        r@ == button_variant(face@, focus_border@, pressed@),
{
    VariantTheme { default: face, sizes: sizes(), states: states(focus_border, pressed) }
}

/// Adds the button component to a theme.
pub fn add_button_theme(theme: &mut Theme)
    ensures
        final(theme)@ == (ThemeModel {
            components: old(theme)@.components.insert(
                "button"@,
                button_component(
                    color_or(
                        old(theme)@.tokens.light,
                        "primary"@,
                        color::opaque(26, 154, 154),
                    ),
                    color_or(
                        old(theme)@.tokens.light,
                        "foreground"@,
                        color::opaque(26, 26, 26),
                    ),
                ),
            ),
            ..old(theme)@
        }),
{
    proof {
        style::standard_names_normal();
        style::standard_names_differ();
    }
    let primary = match theme.tokens.light.get_color("color", "primary") {
        Some(c) => c,
        None => Color::rgb(26, 154, 154),
    };
    let foreground = match theme.tokens.light.get_color("color", "foreground") {
        Some(c) => c,
        None => Color::rgb(26, 26, 26),
    };
    let mut variants: TextMap<VariantTheme> = TextMap::new();
    variants.insert(
        owned("primary"),
        variant(
            face("color.primary", "color.white"),
            "color.primary.light",
            ThemeValue::TokenRef(owned("color.primary.dark")),
        ),
    );
    variants.insert(
        owned("secondary"),
        variant(
            face("color.secondary", "color.foreground"),
            "color.primary",
            ThemeValue::TokenRef(owned("color.secondary.dark")),
        ),
    );
    variants.insert(
        owned("danger"),
        variant(
            face("color.danger", "color.white"),
            "color.danger.light",
            ThemeValue::TokenRef(owned("color.danger.dark")),
        ),
    );
    variants.insert(
        owned("ghost"),
        variant(
            face("color.transparent", "color.foreground"),
            "color.primary",
            ThemeValue::Color(foreground.with_alpha_percent(10)),
        ),
    );
    let mut outline = face("color.transparent", "color.primary");
    put_ref(&mut outline, "border_color", "color.primary");
    put_whole(&mut outline, "border_width", 2);
    variants.insert(
        owned("tertiary"),
        variant(outline, "color.primary", ThemeValue::Color(primary.with_alpha_percent(20))),
    );
    theme.components.insert(
        owned("button"),
        ComponentTheme { base: base_style(), variants },
    );
}

/// Create the default theme with all component styles
pub fn create_default_theme() -> (r: Theme)
    ensures
        r@.tokens == fallback_tokens(),
        r@.components == Map::<Seq<char>, Component>::empty().insert(
            "button"@,
            button_component(
                color_or(fallback_tokens().light, "primary"@, color::opaque(26, 154, 154)),
                color_or(fallback_tokens().light, "foreground"@, color::opaque(26, 26, 26)),
            ),
        ),
{
    let mut theme = Theme { tokens: create_schema_fallback_tokens(), components: TextMap::new() };
    add_button_theme(&mut theme);
    theme
}

// ---------------------------------------------------------------------------------------------
// Laws
// ---------------------------------------------------------------------------------------------
proof fn lemma_part_names()
    ensures
        "focused"@ != "pressed"@,
        "focused"@ != "disabled"@,
        "pressed"@ != "disabled"@,
{
    reveal_strlit("focused");
    assert("focused"@.len() == 7);
    reveal_strlit("pressed");
    assert("pressed"@.len() == 7);
    reveal_strlit("disabled");
    assert("disabled"@.len() == 8);
    assert("focused"@[0] != "pressed"@[0]);
}

proof fn lemma_size_names()
    ensures
        "sm"@ != "md"@,
        "sm"@ != "lg"@,
        "md"@ != "lg"@,
{
    reveal_strlit("sm");
    assert("sm"@.len() == 2);
    reveal_strlit("md");
    assert("md"@.len() == 2);
    reveal_strlit("lg");
    assert("lg"@.len() == 2);
    assert("sm"@[0] != "md"@[0]);
    assert("sm"@[0] != "lg"@[0]);
    assert("md"@[0] != "lg"@[0]);
}

proof fn lemma_variant_names()
    ensures
        "primary"@ != "secondary"@,
        "primary"@ != "danger"@,
        "primary"@ != "ghost"@,
        "primary"@ != "tertiary"@,
        "secondary"@ != "danger"@,
        "secondary"@ != "ghost"@,
        "secondary"@ != "tertiary"@,
        "danger"@ != "ghost"@,
        "danger"@ != "tertiary"@,
        "ghost"@ != "tertiary"@,
{
    reveal_strlit("primary");
    assert("primary"@.len() == 7);
    reveal_strlit("secondary");
    assert("secondary"@.len() == 9);
    reveal_strlit("danger");
    assert("danger"@.len() == 6);
    reveal_strlit("ghost");
    assert("ghost"@.len() == 5);
    reveal_strlit("tertiary");
    assert("tertiary"@.len() == 8);
}

proof fn lemma_style_names()
    ensures
        "background"@ != "foreground"@,
        "background"@ != "border_color"@,
        "background"@ != "border_width"@,
        "background"@ != "opacity"@,
        "foreground"@ != "border_color"@,
        "foreground"@ != "border_width"@,
        "foreground"@ != "opacity"@,
        "border_color"@ != "border_width"@,
        "border_color"@ != "opacity"@,
        "border_width"@ != "opacity"@,
{
    reveal_strlit("background");
    assert("background"@.len() == 10);
    reveal_strlit("foreground");
    assert("foreground"@.len() == 10);
    reveal_strlit("border_color");
    assert("border_color"@.len() == 12);
    reveal_strlit("border_width");
    assert("border_width"@.len() == 12);
    reveal_strlit("opacity");
    assert("opacity"@.len() == 7);
    assert("background"@[0] != "foreground"@[0]);
    assert("border_color"@[7] != "border_width"@[7]);
}

/// A button variant has a focused, a pressed and a disabled state and three sizes; pressed it has the
/// background that it was given, focused a border of the color that it was given, disabled the opacity of
/// what is disabled, and otherwise the face that it was given.
pub proof fn button_variant_shows_its_states(face: Style, focus_border: Seq<char>, pressed: Value)
    requires
        pressed is Color || pressed is Ref,
    ensures
        ({
            let v = button_variant(face, focus_border, pressed);
            &&& v.default == face
            &&& v.states.dom() == set!["focused"@, "pressed"@, "disabled"@]
            &&& v.sizes.dom() == set!["sm"@, "md"@, "lg"@]
            &&& cascade::setting(v.states["focused"@], "border_color"@) == Some(Setting::Referred(focus_border))
            &&& pressed matches Value::Ref(path) ==> cascade::setting(v.states["pressed"@], "background"@) == Some(
                Setting::Referred(path),
            )
            &&& pressed is Color ==> cascade::setting(v.states["pressed"@], "background"@) == Some(
                Setting::Given(pressed),
            )
            &&& cascade::setting(v.states["disabled"@], "opacity"@) == Some(Setting::Referred("opacity.disabled"@))
        }),
{
    lemma_part_names();
    lemma_size_names();
    lemma_style_names();
    let v = button_variant(face, focus_border, pressed);
    assert(v.states.dom() =~= set!["focused"@, "pressed"@, "disabled"@]);
    assert(v.sizes.dom() =~= set!["sm"@, "md"@, "lg"@]);
    let none = style::empty_style();
    let bordered = with_ref(none, "border_color"@, focus_border);
    cascade::set_property_is_set(none, "border_color"@, Value::Ref(focus_border), "border_color"@);
    cascade::set_property_is_set(
        bordered,
        "border_width"@,
        Value::Float(scalar::int_scalar(2)),
        "border_color"@,
    );
    cascade::set_property_is_set(none, "background"@, pressed, "background"@);
    cascade::set_property_is_set(none, "opacity"@, Value::Ref("opacity.disabled"@), "opacity"@);
}

/// Pressed, the outlined button is tinted with the primary color and the bare one with the foreground
/// color: the channels are those of the color, the opacity a fifth and a tenth.
pub proof fn pressed_tints_are_of_given_colors(primary: Color, foreground: Color)
    ensures
        ({
            let c = button_component(primary, foreground);
            &&& c.variants.dom() == set!["primary"@, "secondary"@, "danger"@, "ghost"@, "tertiary"@]
            &&& cascade::setting(c.variants["ghost"@].states["pressed"@], "background"@) == Some(
                Setting::Given(Value::Color(Color { a: 25, ..foreground })),
            )
            &&& cascade::setting(c.variants["tertiary"@].states["pressed"@], "background"@) == Some(
                Setting::Given(Value::Color(Color { a: 51, ..primary })),
            )
        }),
{
    lemma_variant_names();
    let c = button_component(primary, foreground);
    assert(c.variants.dom() =~= set!["primary"@, "secondary"@, "danger"@, "ghost"@, "tertiary"@]);
    button_variant_shows_its_states(
        button_face("color.transparent"@, "color.foreground"@),
        "color.primary"@,
        Value::Color(color::faded(foreground, 10)),
    );
    button_variant_shows_its_states(
        tertiary_face(),
        "color.primary"@,
        Value::Color(color::faded(primary, 20)),
    );
    color::fading_sets_opacity(foreground, 10);
    color::fading_sets_opacity(primary, 20);
}

/// A button's face has the background and the foreground that it was given.
pub proof fn face_has_given_tokens(background: Seq<char>, foreground: Seq<char>)
    ensures
        cascade::setting(button_face(background, foreground), "background"@) == Some(Setting::Referred(background)),
        cascade::setting(button_face(background, foreground), "foreground"@) == Some(Setting::Referred(foreground)),
        cascade::setting(button_face(background, foreground), "border_color"@) is None,
{
    lemma_style_names();
    let none = style::empty_style();
    let s = with_ref(none, "background"@, background);
    cascade::set_property_is_set(none, "background"@, Value::Ref(background), "background"@);
    cascade::set_property_is_set(none, "background"@, Value::Ref(background), "border_color"@);
    cascade::set_property_is_set(s, "foreground"@, Value::Ref(foreground), "background"@);
    cascade::set_property_is_set(s, "foreground"@, Value::Ref(foreground), "foreground"@);
    cascade::set_property_is_set(s, "foreground"@, Value::Ref(foreground), "border_color"@);
}

} // verus!
