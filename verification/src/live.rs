//! The values that the open token panel shows and that previews use.

use vstd::prelude::*;
use crate::color::{self, Color};
use crate::export_theme::{self, normalize_export_token_key};
use crate::literals::ExportLiteral;
use crate::scalar::{self, Scalar};
use crate::storage::{self, PropertyValue};
use crate::store::{self, Store, TokenStore};
use crate::style;
use crate::text::{self, owned, starts_with, text_eq};
use crate::textmap::{self, Duplicate};
use crate::token_theme::{token_store_from_theme, Palette, TokenModel, TokenTheme};
use crate::value::Value;

verus! {

/// The open token panel: the tokens that it shows, the scheme, and which radius is the default.
pub struct TokenPanel {
    pub tokens: TokenTheme,
    pub is_dark: bool,
    pub radius_default_index: i32,
}

/// The model of the token panel.
#[verifier::ext_equal]
pub struct PanelModel {
    pub tokens: TokenModel,
    pub is_dark: bool,
    pub radius_default_index: i32,
}

impl View for TokenPanel {
    type V = PanelModel;

    open spec fn view(&self) -> PanelModel {
        PanelModel {
            tokens: self.tokens@,
            is_dark: self.is_dark,
            radius_default_index: self.radius_default_index,
        }
    }
}

// ---------------------------------------------------------------------------------------------
// Tokens of the panel
// ---------------------------------------------------------------------------------------------
impl PanelModel {
    /// The colors of the scheme.
    pub open spec fn palette(self) -> Palette {
        if self.is_dark {
            self.tokens.dark
        } else {
            self.tokens.light
        }
    }

    /// The default radius.
    pub open spec fn default_radius(self) -> Scalar {
        if self.radius_default_index == 0 {
            self.tokens.radius.sm
        } else if self.radius_default_index == 1 {
            self.tokens.radius.md
        } else if self.radius_default_index == 2 {
            self.tokens.radius.lg
        } else {
            self.tokens.radius.full
        }
    }

    /// The number that the panel shows for a token; font weights and the middle radius are not
    /// shown.
    pub open spec fn number(self, key: Seq<char>) -> Option<Scalar> {
        let t = self.tokens;
        if key == "fontSize.xs"@ {
            Some(t.typography.size_xs)
        } else if key == "fontSize.caption"@ {
            Some(t.typography.size_caption)
        } else if key == "fontSize.sm"@ {
            Some(t.typography.size_sm)
        } else if key == "fontSize.md"@ {
            Some(t.typography.size_md)
        } else if key == "fontSize.lg"@ {
            Some(t.typography.size_lg)
        } else if key == "fontSize.helper"@ {
            Some(t.typography.size_helper)
        } else if key == "borderWidth.none"@ {
            Some(t.border_width.none)
        } else if key == "borderWidth.sm"@ {
            Some(t.border_width.sm)
        } else if key == "borderWidth.focus"@ {
            Some(t.border_width.focus)
        } else if key == "spacing.xs"@ {
            Some(t.spacing.xs)
        } else if key == "spacing.sm"@ {
            Some(t.spacing.sm)
        } else if key == "spacing.md"@ {
            Some(t.spacing.md)
        } else if key == "spacing.lg"@ {
            Some(t.spacing.lg)
        } else if key == "spacing.xl"@ {
            Some(t.spacing.xl)
        } else if key == "radius.sm"@ {
            Some(t.radius.sm)
        } else if key == "radius.default"@ {
            Some(self.default_radius())
        } else if key == "radius.lg"@ {
            Some(t.radius.lg)
        } else if key == "radius.full"@ {
            Some(t.radius.full)
        } else if key == "controlSize.sm"@ {
            Some(t.control_size.sm)
        } else if key == "controlSize.md"@ {
            Some(t.control_size.md)
        } else if key == "controlSize.lg"@ {
            Some(t.control_size.lg)
        } else if key == "choiceControlSize.sm"@ {
            Some(t.choice_control_size.sm)
        } else if key == "choiceControlSize.md"@ {
            Some(t.choice_control_size.md)
        } else if key == "choiceControlSize.lg"@ {
            Some(t.choice_control_size.lg)
        } else if key == "switchSize.sm"@ {
            Some(t.switch_size.sm)
        } else if key == "switchSize.md"@ {
            Some(t.switch_size.md)
        } else if key == "switchSize.lg"@ {
            Some(t.switch_size.lg)
        } else if key == "iconSize.sm"@ {
            Some(t.icon_size.sm)
        } else if key == "iconSize.md"@ {
            Some(t.icon_size.md)
        } else if key == "iconSize.lg"@ {
            Some(t.icon_size.lg)
        } else if key == "controlRadius.sm"@ {
            Some(t.control_radius.sm)
        } else if key == "controlRadius.md"@ {
            Some(t.control_radius.md)
        } else if key == "controlRadius.lg"@ {
            Some(t.control_radius.lg)
        } else if key == "controlPaddingInline.sm"@ {
            Some(t.control_padding_inline.sm)
        } else if key == "controlPaddingInline.md"@ {
            Some(t.control_padding_inline.md)
        } else if key == "controlPaddingInline.lg"@ {
            Some(t.control_padding_inline.lg)
        } else {
            None
        }
    }

    /// The font family that the panel shows for a token.
    pub open spec fn font(self, key: Seq<char>) -> Option<Seq<char>> {
        if key == "font.primary"@ {
            Some(self.tokens.typography.primary)
        } else if key == "font.secondary"@ {
            Some(self.tokens.typography.secondary)
        } else if key == "font.tertiary"@ {
            Some(self.tokens.typography.tertiary)
        } else {
            None
        }
    }

    /// The color that the panel shows for a token, some of them made of others.
    pub open spec fn color(self, key: Seq<char>) -> Option<Color> {
        let p = self.palette();
        let dark = self.is_dark;
        if key == "color.primary"@ {
            Some(p.primary)
        } else if key == "color.primary.light"@ {
            Some(color::lighter(p.primary, if dark { 12 } else { 8 }))
        } else if key == "color.primary.dark"@ || key == "color.primary-pressed"@ {
            Some(p.primary_pressed)
        } else if key == "color.secondary"@ {
            Some(p.secondary)
        } else if key == "color.secondary.dark"@ {
            Some(if dark { color::lighter(p.secondary, 14) } else { color::darker(p.secondary, 10) })
        } else if key == "color.danger"@ {
            Some(p.danger)
        } else if key == "color.danger.light"@ {
            Some(color::lighter(p.danger, if dark { 8 } else { 10 }))
        } else if key == "color.danger.dark"@ {
            Some(color::darker(p.danger, 12))
        } else if key == "color.foreground"@ {
            Some(p.text)
        } else if key == "color.foreground.light"@ {
            Some(color::faded(p.text, 10))
        } else if key == "color.surface"@ {
            Some(p.surface)
        } else if key == "color.background"@ {
            Some(p.background)
        } else if key == "color.muted"@ || key == "color.text-muted"@ {
            Some(p.text_muted)
        } else if key == "color.border"@ {
            Some(border_color(p, dark))
        } else if key == "color.transparent"@ {
            Some((Color { r: 0, g: 0, b: 0, a: 0 }))
        } else if key == "color.white"@ {
            Some(color::opaque(255, 255, 255))
        } else if key == "color.success"@ {
            Some(if dark { color::opaque(74, 222, 128) } else { color::opaque(21, 128, 61) })
        } else if key == "color.warning"@ {
            Some(if dark { color::opaque(251, 191, 36) } else { color::opaque(180, 83, 9) })
        } else {
            None
        }
    }

    /// The value that a preview uses: that of the token, where it is one; where the panel does not
    /// show that token, the text color, an empty text or zero.
    pub open spec fn shown(self, v: Value) -> Value {
        match v {
            Value::Ref(key) => if text::has_prefix(key, "color."@) {
                Value::Color(
                    match self.color(key) {
                        Some(c) => c,
                        None => self.palette().text,
                    },
                )
            } else if text::has_prefix(key, "font."@) {
                Value::Text(
                    match self.font(key) {
                        Some(s) => s,
                        None => Seq::empty(),
                    },
                )
            } else {
                Value::Float(
                    match self.number(key) {
                        Some(n) => n,
                        None => Scalar { bits: 0 },
                    },
                )
            },
            _ => v,
        }
    }
}

/// The color of borders: that of secondary elements, in the light scheme darker.
pub open spec fn border_color(p: Palette, is_dark: bool) -> Color {
    if is_dark {
        p.secondary
    } else {
        color::darker(p.secondary, 8)
    }
}

fn make_border_color(p: Palette, is_dark: bool) -> (r: Color)
    ensures
        r == border_color(p, is_dark),
{
    if is_dark {
        p.secondary
    } else {
        p.secondary.darken_percent(8)
    }
}

impl TokenPanel {
    fn current_palette(&self) -> (r: Palette)
        ensures
            r == self@.palette(),
    {
        if self.is_dark {
            self.tokens.dark
        } else {
            self.tokens.light
        }
    }

    fn current_default_radius(&self) -> (r: Scalar)
        ensures
            r == self@.default_radius(),
    {
        if self.radius_default_index == 0 {
            self.tokens.radius.sm
        } else if self.radius_default_index == 1 {
            self.tokens.radius.md
        } else if self.radius_default_index == 2 {
            self.tokens.radius.lg
        } else {
            self.tokens.radius.full
        }
    }
}

/// The number that the panel shows for a token.
pub fn resolve_number_token_from_app(panel: &TokenPanel, key: &str) -> (r: Option<Scalar>)
    ensures
        r == panel@.number(key@),
{
    let t = &panel.tokens;
    if text_eq(key, "fontSize.xs") {
        Some(t.typography.size_xs)
    } else if text_eq(key, "fontSize.caption") {
        Some(t.typography.size_caption)
    } else if text_eq(key, "fontSize.sm") {
        Some(t.typography.size_sm)
    } else if text_eq(key, "fontSize.md") {
        Some(t.typography.size_md)
    } else if text_eq(key, "fontSize.lg") {
        Some(t.typography.size_lg)
    } else if text_eq(key, "fontSize.helper") {
        Some(t.typography.size_helper)
    } else if text_eq(key, "borderWidth.none") {
        Some(t.border_width.none)
    } else if text_eq(key, "borderWidth.sm") {
        Some(t.border_width.sm)
    } else if text_eq(key, "borderWidth.focus") {
        Some(t.border_width.focus)
    } else if text_eq(key, "spacing.xs") {
        Some(t.spacing.xs)
    } else if text_eq(key, "spacing.sm") {
        Some(t.spacing.sm)
    } else if text_eq(key, "spacing.md") {
        Some(t.spacing.md)
    } else if text_eq(key, "spacing.lg") {
        Some(t.spacing.lg)
    } else if text_eq(key, "spacing.xl") {
        Some(t.spacing.xl)
    } else if text_eq(key, "radius.sm") {
        Some(t.radius.sm)
    } else if text_eq(key, "radius.default") {
        Some(panel.current_default_radius())
    } else if text_eq(key, "radius.lg") {
        Some(t.radius.lg)
    } else if text_eq(key, "radius.full") {
        Some(t.radius.full)
    } else if text_eq(key, "controlSize.sm") {
        Some(t.control_size.sm)
    } else if text_eq(key, "controlSize.md") {
        Some(t.control_size.md)
    } else if text_eq(key, "controlSize.lg") {
        Some(t.control_size.lg)
    } else if text_eq(key, "choiceControlSize.sm") {
        Some(t.choice_control_size.sm)
    } else if text_eq(key, "choiceControlSize.md") {
        Some(t.choice_control_size.md)
    } else if text_eq(key, "choiceControlSize.lg") {
        Some(t.choice_control_size.lg)
    } else if text_eq(key, "switchSize.sm") {
        Some(t.switch_size.sm)
    } else if text_eq(key, "switchSize.md") {
        Some(t.switch_size.md)
    } else if text_eq(key, "switchSize.lg") {
        Some(t.switch_size.lg)
    } else if text_eq(key, "iconSize.sm") {
        Some(t.icon_size.sm)
    } else if text_eq(key, "iconSize.md") {
        Some(t.icon_size.md)
    } else if text_eq(key, "iconSize.lg") {
        Some(t.icon_size.lg)
    } else if text_eq(key, "controlRadius.sm") {
        Some(t.control_radius.sm)
    } else if text_eq(key, "controlRadius.md") {
        Some(t.control_radius.md)
    } else if text_eq(key, "controlRadius.lg") {
        Some(t.control_radius.lg)
    } else if text_eq(key, "controlPaddingInline.sm") {
        Some(t.control_padding_inline.sm)
    } else if text_eq(key, "controlPaddingInline.md") {
        Some(t.control_padding_inline.md)
    } else if text_eq(key, "controlPaddingInline.lg") {
        Some(t.control_padding_inline.lg)
    } else {
        None
    }
}

/// The font family that the panel shows for a token.
pub fn resolve_font_token_from_app(panel: &TokenPanel, key: &str) -> (r: Option<String>)
    ensures
        style::text_view(r) == panel@.font(key@),
{
    if text_eq(key, "font.primary") {
        Some(panel.tokens.typography.primary.clone())
    } else if text_eq(key, "font.secondary") {
        Some(panel.tokens.typography.secondary.clone())
    } else if text_eq(key, "font.tertiary") {
        Some(panel.tokens.typography.tertiary.clone())
    } else {
        None
    }
}

/// The color that the panel shows for a token.
pub fn resolve_color_token_from_app(panel: &TokenPanel, key: &str) -> (r: Option<Color>)
    ensures
        r == panel@.color(key@),
{
    let p = panel.current_palette();
    let dark = panel.is_dark;
    if text_eq(key, "color.primary") {
        Some(p.primary)
    } else if text_eq(key, "color.primary.light") {
        Some(p.primary.lighten_percent(if dark { 12 } else { 8 }))
    } else if text_eq(key, "color.primary.dark") || text_eq(key, "color.primary-pressed") {
        Some(p.primary_pressed)
    } else if text_eq(key, "color.secondary") {
        Some(p.secondary)
    } else if text_eq(key, "color.secondary.dark") {
        Some(if dark { p.secondary.lighten_percent(14) } else { p.secondary.darken_percent(10) })
    } else if text_eq(key, "color.danger") {
        Some(p.danger)
    } else if text_eq(key, "color.danger.light") {
        Some(p.danger.lighten_percent(if dark { 8 } else { 10 }))
    } else if text_eq(key, "color.danger.dark") {
        Some(p.danger.darken_percent(12))
    } else if text_eq(key, "color.foreground") {
        Some(p.text)
    } else if text_eq(key, "color.foreground.light") {
        Some(p.text.with_alpha_percent(10))
    } else if text_eq(key, "color.surface") {
        Some(p.surface)
    } else if text_eq(key, "color.background") {
        Some(p.background)
    } else if text_eq(key, "color.muted") || text_eq(key, "color.text-muted") {
        Some(p.text_muted)
    } else if text_eq(key, "color.border") {
        Some(make_border_color(p, dark))
    } else if text_eq(key, "color.transparent") {
        Some(Color::rgba(0, 0, 0, 0))
    } else if text_eq(key, "color.white") {
        Some(Color::rgb(255, 255, 255))
    } else if text_eq(key, "color.success") {
        Some(if dark { Color::rgb(74, 222, 128) } else { Color::rgb(21, 128, 61) })
    } else if text_eq(key, "color.warning") {
        Some(if dark { Color::rgb(251, 191, 36) } else { Color::rgb(180, 83, 9) })
    } else {
        None
    }
}

/// The value that a preview uses.
pub fn resolve_property_value_from_app(panel: &TokenPanel, value: &PropertyValue) -> (r: PropertyValue)
    ensures
        r@ == panel@.shown(value@),
{
    match value {
        PropertyValue::Token(key) => {
            let k = key.as_str();
            if starts_with(k, "color.") {
                PropertyValue::Color(
                    match resolve_color_token_from_app(panel, k) {
                        Some(c) => c,
                        None => panel.current_palette().text,
                    },
                )
            } else if starts_with(k, "font.") {
                proof {
                    reveal_strlit("");
                    assert(""@ =~= Seq::<char>::empty());
                }
                PropertyValue::String(
                    match resolve_font_token_from_app(panel, k) {
                        Some(s) => s,
                        None => owned(""),
                    },
                )
            } else {
                PropertyValue::Float(
                    match resolve_number_token_from_app(panel, k) {
                        Some(n) => n,
                        None => Scalar::zero(),
                    },
                )
            }
        },
        _ => value.duplicate(),
    }
}

// ---------------------------------------------------------------------------------------------
// Tokens of a store
// ---------------------------------------------------------------------------------------------
/// What a token of the editor is in a store.
pub open spec fn in_store(t: Store, key: Seq<char>) -> Option<store::Token> {
    store::followed(t, export_theme::export_key(key))
}

/// The number that a store has for a token.
pub open spec fn store_number(t: Store, key: Seq<char>) -> Option<Scalar> {
    match in_store(t, key) {
        Some(v) => store::token_float(v),
        None => None,
    }
}

/// The text that a store has for a token.
pub open spec fn store_font(t: Store, key: Seq<char>) -> Option<Seq<char>> {
    match in_store(t, key) {
        Some(v) => store::token_text(v),
        None => None,
    }
}

/// The color that a store has for a token.
pub open spec fn store_color(t: Store, key: Seq<char>) -> Option<Color> {
    match in_store(t, key) {
        Some(v) => store::token_color(v),
        None => None,
    }
}

/// The number that a store has for a token.
pub fn resolve_number_token_from_store(tokens: &TokenStore, key: &str) -> (r: Option<Scalar>)
    ensures
        r == store_number(tokens@, key@),
{
    tokens.resolve_float(normalize_export_token_key(key))
}

/// The text that a store has for a token.
pub fn resolve_font_token_from_store(tokens: &TokenStore, key: &str) -> (r: Option<String>)
    ensures
        style::text_view(r) == store_font(tokens@, key@),
{
    match tokens.resolve_string(normalize_export_token_key(key)) {
        Some(s) => Some(owned(s)),
        None => None,
    }
}

/// The color that a store has for a token.
pub fn resolve_color_token_from_store(tokens: &TokenStore, key: &str) -> (r: Option<Color>)
    ensures
        r == store_color(tokens@, key@),
{
    tokens.resolve_color(normalize_export_token_key(key))
}

/// What a value stands for in a store: a token for the first of color, flag, integer, number and
/// text that it is, anything else for itself.
pub open spec fn store_value(t: Store, v: Value) -> Option<Value> {
    match v {
        Value::Ref(key) => match in_store(t, key) {
            Some(token) => if store::token_color(token) is Some {
                Some(Value::Color(store::token_color(token)->Some_0))
            } else if store::token_bool(token) is Some {
                Some(Value::Bool(store::token_bool(token)->Some_0))
            } else if store::token_int(token) is Some {
                Some(Value::Int(store::token_int(token)->Some_0))
            } else if store::token_float(token) is Some {
                Some(Value::Float(store::token_float(token)->Some_0))
            } else if store::token_text(token) is Some {
                Some(Value::Text(store::token_text(token)->Some_0))
            } else {
                None
            },
            None => None,
        },
        _ => Some(v),
    }
}

/// What a value stands for in a store.
pub fn resolve_property_value_from_store(tokens: &TokenStore, value: &PropertyValue) -> (r: Option<PropertyValue>)
    ensures
        storage::found(r) == store_value(tokens@, value@),
{
    match value {
        PropertyValue::Token(key) => {
            let k = normalize_export_token_key(key.as_str());
            if let Some(c) = tokens.resolve_color(k) {
                Some(PropertyValue::Color(c))
            } else if let Some(b) = tokens.resolve_bool(k) {
                Some(PropertyValue::Bool(b))
            } else if let Some(n) = tokens.resolve_int(k) {
                Some(PropertyValue::Int(n))
            } else if let Some(f) = tokens.resolve_float(k) {
                Some(PropertyValue::Float(f))
            } else if let Some(s) = tokens.resolve_string(k) {
                Some(PropertyValue::String(owned(s)))
            } else {
                None
            }
        },
        _ => Some(value.duplicate()),
    }
}

/// What a value in the source of a theme stands for in a store.
pub fn resolve_export_literal_against_store(tokens: &TokenStore, literal: &ExportLiteral) -> (r: Option<PropertyValue>)
    ensures
        storage::found(r) == store_value(tokens@, literal@),
{
    match literal {
        ExportLiteral::Color(c) => Some(PropertyValue::Color(*c)),
        ExportLiteral::Float(f) => Some(PropertyValue::Float(*f)),
        ExportLiteral::Int(n) => Some(PropertyValue::Int(*n)),
        ExportLiteral::Bool(b) => Some(PropertyValue::Bool(*b)),
        ExportLiteral::String(s) => Some(PropertyValue::String(s.clone())),
        ExportLiteral::TokenRef(path) => resolve_property_value_from_store(
            tokens,
            &PropertyValue::Token(path.clone()),
        ),
    }
}

// ---------------------------------------------------------------------------------------------
// The shared theme values
// ---------------------------------------------------------------------------------------------
/// What a shared theme value is.
#[derive(Clone, Copy, Debug, PartialEq, Eq, Structural)]
pub enum GlobalKind {
    Font,
    Number,
    Weight,
    Color,
}

/// The tokens that all components share, with what they are.
pub open spec fn global_table() -> Seq<(Seq<char>, GlobalKind)> {
    seq![
        ("font.primary"@, GlobalKind::Font),
        ("font.secondary"@, GlobalKind::Font),
        ("font.tertiary"@, GlobalKind::Font),
        ("fontSize.xs"@, GlobalKind::Number),
        ("fontSize.caption"@, GlobalKind::Number),
        ("fontSize.helper"@, GlobalKind::Number),
        ("fontSize.sm"@, GlobalKind::Number),
        ("fontSize.md"@, GlobalKind::Number),
        ("fontSize.lg"@, GlobalKind::Number),
        ("fontWeight.normal"@, GlobalKind::Weight),
        ("fontWeight.medium"@, GlobalKind::Weight),
        ("fontWeight.semibold"@, GlobalKind::Weight),
        ("fontWeight.bold"@, GlobalKind::Weight),
        ("borderWidth.none"@, GlobalKind::Number),
        ("borderWidth.sm"@, GlobalKind::Number),
        ("borderWidth.focus"@, GlobalKind::Number),
        ("controlSize.sm"@, GlobalKind::Number),
        ("controlSize.md"@, GlobalKind::Number),
        ("controlSize.lg"@, GlobalKind::Number),
        ("choiceControlSize.sm"@, GlobalKind::Number),
        ("choiceControlSize.md"@, GlobalKind::Number),
        ("choiceControlSize.lg"@, GlobalKind::Number),
        ("switchSize.sm"@, GlobalKind::Number),
        ("switchSize.md"@, GlobalKind::Number),
        ("switchSize.lg"@, GlobalKind::Number),
        ("iconSize.sm"@, GlobalKind::Number),
        ("iconSize.md"@, GlobalKind::Number),
        ("iconSize.lg"@, GlobalKind::Number),
        ("radius.sm"@, GlobalKind::Number),
        ("radius.md"@, GlobalKind::Number),
        ("radius.lg"@, GlobalKind::Number),
        ("radius.default"@, GlobalKind::Number),
        ("radius.full"@, GlobalKind::Number),
        ("controlRadius.sm"@, GlobalKind::Number),
        ("controlRadius.md"@, GlobalKind::Number),
        ("controlRadius.lg"@, GlobalKind::Number),
        ("controlPaddingInline.sm"@, GlobalKind::Number),
        ("controlPaddingInline.md"@, GlobalKind::Number),
        ("controlPaddingInline.lg"@, GlobalKind::Number),
        ("spacing.xs"@, GlobalKind::Number),
        ("spacing.sm"@, GlobalKind::Number),
        ("spacing.md"@, GlobalKind::Number),
        ("spacing.lg"@, GlobalKind::Number),
        ("spacing.xl"@, GlobalKind::Number),
        ("color.primary"@, GlobalKind::Color),
        ("color.primary.light"@, GlobalKind::Color),
        ("color.primary.dark"@, GlobalKind::Color),
        ("color.secondary"@, GlobalKind::Color),
        ("color.secondary.dark"@, GlobalKind::Color),
        ("color.foreground"@, GlobalKind::Color),
        ("color.foreground.light"@, GlobalKind::Color),
        ("color.muted"@, GlobalKind::Color),
        ("color.border"@, GlobalKind::Color),
        ("color.surface"@, GlobalKind::Color),
        ("color.background"@, GlobalKind::Color),
        ("color.danger"@, GlobalKind::Color),
        ("color.danger.light"@, GlobalKind::Color),
        ("color.danger.dark"@, GlobalKind::Color),
        ("color.success"@, GlobalKind::Color),
        ("color.warning"@, GlobalKind::Color),
        ("color.info"@, GlobalKind::Color),
        ("color.white"@, GlobalKind::Color),
        ("color.transparent"@, GlobalKind::Color),
    ]
}

/// The value of a shared token: that of the panel, or else that of the theme.
pub open spec fn global_value(panel: PanelModel, t: Store, key: Seq<char>, kind: GlobalKind) -> Option<Value> {
    match kind {
        GlobalKind::Font => match panel.font(key) {
            Some(s) => Some(Value::Text(s)),
            None => match store_font(t, key) {
                Some(s) => Some(Value::Text(s)),
                None => None,
            },
        },
        GlobalKind::Color => match panel.color(key) {
            Some(c) => Some(Value::Color(c)),
            None => match store_color(t, key) {
                Some(c) => Some(Value::Color(c)),
                None => None,
            },
        },
        _ => {
            let n = match panel.number(key) {
                Some(n) => Some(n),
                None => store_number(t, key),
            };
            match n {
                Some(x) => Some(
                    if kind == GlobalKind::Weight {
                        Value::Int(scalar::truncated(x) as i32)
                    } else {
                        Value::Float(x)
                    },
                ),
                None => None,
            }
        },
    }
}

/// The shared values of tokens; a token that neither the panel nor the theme has is left out.
pub open spec fn global_values(panel: PanelModel, t: Store, table: Seq<(Seq<char>, GlobalKind)>) -> Seq<
    (Seq<char>, Value),
>
    decreases table.len(),
{
    if table.len() == 0 {
        Seq::empty()
    } else {
        let before = global_values(panel, t, table.drop_last());
        let (key, kind) = table.last();
        match global_value(panel, t, key, kind) {
            Some(v) => before.push((key, v)),
            None => before,
        }
    }
}

/// A shared token.
#[derive(Clone, Copy, Debug)]
pub struct GlobalToken {
    pub key: &'static str,
    pub kind: GlobalKind,
}

impl View for GlobalToken {
    type V = (Seq<char>, GlobalKind);

    open spec fn view(&self) -> (Seq<char>, GlobalKind) {
        (self.key@, self.kind)
    }
}

/// A shared value.
pub struct GlobalEntry {
    pub key: &'static str,
    pub value: PropertyValue,
}

impl View for GlobalEntry {
    type V = (Seq<char>, Value);

    open spec fn view(&self) -> (Seq<char>, Value) {
        (self.key@, self.value@)
    }
}

fn shared(key: &'static str, kind: GlobalKind) -> (r: GlobalToken)
    ensures
        r@ == (key@, kind),
{
    GlobalToken { key, kind }
}

fn global_tokens() -> (r: Vec<GlobalToken>)
    ensures
        textmap::views(r@) == global_table(),
{
    let r = vec![
        shared("font.primary", GlobalKind::Font),
        shared("font.secondary", GlobalKind::Font),
        shared("font.tertiary", GlobalKind::Font),
        shared("fontSize.xs", GlobalKind::Number),
        shared("fontSize.caption", GlobalKind::Number),
        shared("fontSize.helper", GlobalKind::Number),
        shared("fontSize.sm", GlobalKind::Number),
        shared("fontSize.md", GlobalKind::Number),
        shared("fontSize.lg", GlobalKind::Number),
        shared("fontWeight.normal", GlobalKind::Weight),
        shared("fontWeight.medium", GlobalKind::Weight),
        shared("fontWeight.semibold", GlobalKind::Weight),
        shared("fontWeight.bold", GlobalKind::Weight),
        shared("borderWidth.none", GlobalKind::Number),
        shared("borderWidth.sm", GlobalKind::Number),
        shared("borderWidth.focus", GlobalKind::Number),
        shared("controlSize.sm", GlobalKind::Number),
        shared("controlSize.md", GlobalKind::Number),
        shared("controlSize.lg", GlobalKind::Number),
        shared("choiceControlSize.sm", GlobalKind::Number),
        shared("choiceControlSize.md", GlobalKind::Number),
        shared("choiceControlSize.lg", GlobalKind::Number),
        shared("switchSize.sm", GlobalKind::Number),
        shared("switchSize.md", GlobalKind::Number),
        shared("switchSize.lg", GlobalKind::Number),
        shared("iconSize.sm", GlobalKind::Number),
        shared("iconSize.md", GlobalKind::Number),
        shared("iconSize.lg", GlobalKind::Number),
        shared("radius.sm", GlobalKind::Number),
        shared("radius.md", GlobalKind::Number),
        shared("radius.lg", GlobalKind::Number),
        shared("radius.default", GlobalKind::Number),
        shared("radius.full", GlobalKind::Number),
        shared("controlRadius.sm", GlobalKind::Number),
        shared("controlRadius.md", GlobalKind::Number),
        shared("controlRadius.lg", GlobalKind::Number),
        shared("controlPaddingInline.sm", GlobalKind::Number),
        shared("controlPaddingInline.md", GlobalKind::Number),
        shared("controlPaddingInline.lg", GlobalKind::Number),
        shared("spacing.xs", GlobalKind::Number),
        shared("spacing.sm", GlobalKind::Number),
        shared("spacing.md", GlobalKind::Number),
        shared("spacing.lg", GlobalKind::Number),
        shared("spacing.xl", GlobalKind::Number),
        shared("color.primary", GlobalKind::Color),
        shared("color.primary.light", GlobalKind::Color),
        shared("color.primary.dark", GlobalKind::Color),
        shared("color.secondary", GlobalKind::Color),
        shared("color.secondary.dark", GlobalKind::Color),
        shared("color.foreground", GlobalKind::Color),
        shared("color.foreground.light", GlobalKind::Color),
        shared("color.muted", GlobalKind::Color),
        shared("color.border", GlobalKind::Color),
        shared("color.surface", GlobalKind::Color),
        shared("color.background", GlobalKind::Color),
        shared("color.danger", GlobalKind::Color),
        shared("color.danger.light", GlobalKind::Color),
        shared("color.danger.dark", GlobalKind::Color),
        shared("color.success", GlobalKind::Color),
        shared("color.warning", GlobalKind::Color),
        shared("color.info", GlobalKind::Color),
        shared("color.white", GlobalKind::Color),
        shared("color.transparent", GlobalKind::Color),
    ];
    assert(textmap::views(r@) =~= global_table());
    r
}

fn find_global(panel: &TokenPanel, tokens: &TokenStore, key: &str, kind: GlobalKind) -> (r: Option<PropertyValue>)
    ensures
        storage::found(r) == global_value(panel@, tokens@, key@, kind),
{
    match kind {
        GlobalKind::Font => {
            let s = match resolve_font_token_from_app(panel, key) {
                Some(s) => Some(s),
                None => resolve_font_token_from_store(tokens, key),
            };
            match s {
                Some(s) => Some(PropertyValue::String(s)),
                None => None,
            }
        },
        GlobalKind::Color => {
            let c = match resolve_color_token_from_app(panel, key) {
                Some(c) => Some(c),
                None => resolve_color_token_from_store(tokens, key),
            };
            match c {
                Some(c) => Some(PropertyValue::Color(c)),
                None => None,
            }
        },
        _ => {
            let n = match resolve_number_token_from_app(panel, key) {
                Some(n) => Some(n),
                None => resolve_number_token_from_store(tokens, key),
            };
            match n {
                Some(x) => Some(
                    if kind == GlobalKind::Weight {
                        PropertyValue::Int(x.to_int())
                    } else {
                        PropertyValue::Float(x)
                    },
                ),
                None => None,
            }
        },
    }
}

/// The values of the tokens that all components share.
pub fn init_theme_global_tokens(panel: &TokenPanel, tokens: &TokenTheme) -> (r: Vec<GlobalEntry>)
    ensures
        textmap::views(r@) == global_values(panel@, tokens@.in_store(), global_table()),
{
    let store = token_store_from_theme(tokens);
    let table = global_tokens();
    let ghost all = global_table();
    let mut out: Vec<GlobalEntry> = Vec::new();
    assert(textmap::views(out@) =~= global_values(panel@, store@, all.take(0)));
    for i in 0..table.len()
        invariant
            all == textmap::views(table@),
            textmap::views(out@) == global_values(panel@, store@, all.take(i as int)),
    {
        proof {
            assert(all.take(i + 1).drop_last() =~= all.take(i as int));
            assert(all.take(i + 1).last() == all[i as int]);
        }
        let key = table[i].key;
        if let Some(value) = find_global(panel, &store, key, table[i].kind) {
            let ghost before = textmap::views(out@);
            let entry = GlobalEntry { key, value };
            out.push(entry);
            assert(textmap::views(out@) =~= before.push(entry@));
        }
    }
    assert(all.take(table@.len() as int) =~= all);
    out
}

/// The colors that the theme panel itself is drawn with.
#[derive(Clone, Copy, Debug, PartialEq, Eq, Structural)]
pub struct SemanticPalette {
    pub is_dark: bool,
    pub primary: Color,
    pub primary_pressed: Color,
    pub secondary: Color,
    pub secondary_pressed: Color,
    pub danger: Color,
    pub surface: Color,
    pub background: Color,
    pub foreground: Color,
    pub muted: Color,
    pub border: Color,
}

/// The colors that the theme panel itself is drawn with.
pub open spec fn semantic_palette(panel: PanelModel) -> SemanticPalette {
    let p = panel.palette();
    SemanticPalette {
        is_dark: panel.is_dark,
        primary: p.primary,
        primary_pressed: p.primary_pressed,
        secondary: p.secondary,
        secondary_pressed: if panel.is_dark {
            color::lighter(p.secondary, 14)
        } else {
            color::darker(p.secondary, 10)
        },
        danger: p.danger,
        surface: p.surface,
        background: p.background,
        foreground: p.text,
        muted: p.text_muted,
        border: border_color(p, panel.is_dark),
    }
}

/// The colors that the theme panel itself is drawn with.
pub fn current_semantic_palette(panel: &TokenPanel) -> (r: SemanticPalette)
    ensures
        r == semantic_palette(panel@),
{
    let p = panel.current_palette();
    SemanticPalette {
        is_dark: panel.is_dark,
        primary: p.primary,
        primary_pressed: p.primary_pressed,
        secondary: p.secondary,
        secondary_pressed: if panel.is_dark {
            p.secondary.lighten_percent(14)
        } else {
            p.secondary.darken_percent(10)
        },
        danger: p.danger,
        surface: p.surface,
        background: p.background,
        foreground: p.text,
        muted: p.text_muted,
        border: make_border_color(p, panel.is_dark),
    }
}

// ---------------------------------------------------------------------------------------------
// Laws
// ---------------------------------------------------------------------------------------------
/// A preview never uses a reference.
pub proof fn shown_value_is_no_reference(panel: PanelModel, v: Value)
    ensures
        !(panel.shown(v) is Ref),
{
}

/// Showing a shown value changes nothing.
pub proof fn shown_value_stays(panel: PanelModel, v: Value)
    ensures
        panel.shown(panel.shown(v)) == panel.shown(v),
{
}

/// A value that is no reference stands for itself in a store. A reference stands for what the store
/// holds for it: a color where it is written as one, else a truth value, a number or a text.
pub proof fn reference_stands_for_held_token(t: Store, key: Seq<char>, v: Value, token: store::Token)
    requires
        store::followed(t, export_theme::export_key(key)) == Some(token),
    ensures
        !(v is Ref) ==> store_value(t, v) == Some(v),
        token matches store::Token::Text(s) ==> crate::color::color_of_loose_hex(s) is Some ==> store_value(
            t,
            Value::Ref(key),
        ) == Some(Value::Color(crate::color::color_of_loose_hex(s)->Some_0)),
        token matches store::Token::Text(s) ==> crate::color::color_of_loose_hex(s) is None ==> store_value(
            t,
            Value::Ref(key),
        ) == Some(Value::Text(s)),
        token matches store::Token::Bool(b) ==> store_value(t, Value::Ref(key)) == Some(Value::Bool(b)),
        token matches store::Token::Number(n) ==> store_value(t, Value::Ref(key)) == Some(Value::Int(n.int))
            && store_number(t, key) == Some(n.single),
{
}

/// A color that a store holds in hexadecimal digits is what every way to read it gives.
pub proof fn held_color_is_resolved(t: Store, key: Seq<char>, c: Color)
    requires
        store::followed(t, export_theme::export_key(key)) == Some(
            store::Token::Text(crate::color::hash_hex_of(c)),
        ),
    ensures
        store_color(t, key) == Some(c),
        store_value(t, Value::Ref(key)) == Some(Value::Color(c)),
        store_number(t, key) is None,
{
    crate::color::loose_hex_round_trip(c);
}

} // verus!
