//! Style properties: merging, token references and their resolution.

use vstd::prelude::*;
use crate::color::{self, Color};
use crate::scalar::{self, Scalar};
use crate::text::{self, owned, replaced_char, text_eq, to_lower, trimmed};
use crate::textmap::{self, Duplicate, TextMap};
use crate::tokens::{self, TokenSet, TokenValue, Tokens};
use crate::value::Value;

verus! {

/// A resolved style value that can be any supported type.
#[derive(Debug, PartialEq)]
pub enum StyleValue {
    Color(Color),
    Float(Scalar),
    Int(i32),
    Bool(bool),
    String(String),
}

impl View for StyleValue {
    type V = Value;

    open spec fn view(&self) -> Value {
        match *self {
            StyleValue::Color(c) => Value::Color(c),
            StyleValue::Float(f) => Value::Float(f),
            StyleValue::Int(i) => Value::Int(i),
            StyleValue::Bool(b) => Value::Bool(b),
            StyleValue::String(s) => Value::Text(s@),
        }
    }
}

impl Duplicate for StyleValue {
    fn duplicate(&self) -> (r: Self) {
        match self {
            StyleValue::Color(c) => StyleValue::Color(*c),
            StyleValue::Float(f) => StyleValue::Float(*f),
            StyleValue::Int(i) => StyleValue::Int(*i),
            StyleValue::Bool(b) => StyleValue::Bool(*b),
            StyleValue::String(s) => StyleValue::String(s.clone()),
        }
    }
}

impl Clone for StyleValue {
    fn clone(&self) -> (r: Self)
        ensures
            r@ == self@,
    {
        self.duplicate()
    }
}

/// Style properties contain resolved native values. Standard fields can also carry token references
/// in `token_refs`, which are resolved when a consumer asks for a scheme-specific component style.
#[derive(Debug, PartialEq)]
pub struct StyleProps {
    pub background: Option<Color>,
    pub foreground: Option<Color>,
    pub border_color: Option<Color>,
    pub border_width: Option<Scalar>,
    pub border_radius: Option<Scalar>,
    pub padding_horizontal: Option<Scalar>,
    pub padding_vertical: Option<Scalar>,
    pub min_height: Option<Scalar>,
    pub min_width: Option<Scalar>,
    pub font_family: Option<String>,
    pub font_size: Option<Scalar>,
    pub font_weight: Option<i32>,
    pub icon_size: Option<Scalar>,
    pub opacity: Option<Scalar>,
    pub touch_expansion: Option<Scalar>,
    /// Component-specific props (e.g., track-background for Toggle).
    pub extra: TextMap<StyleValue>,
    /// Raw token references keyed by normalized property name.
    pub token_refs: TextMap<String>,
}

/// The model of style properties.
#[verifier::ext_equal]
pub struct Style {
    pub background: Option<Color>,
    pub foreground: Option<Color>,
    pub border_color: Option<Color>,
    pub border_width: Option<Scalar>,
    pub border_radius: Option<Scalar>,
    pub padding_horizontal: Option<Scalar>,
    pub padding_vertical: Option<Scalar>,
    pub min_height: Option<Scalar>,
    pub min_width: Option<Scalar>,
    pub font_family: Option<Seq<char>>,
    pub font_size: Option<Scalar>,
    pub font_weight: Option<i32>,
    pub icon_size: Option<Scalar>,
    pub opacity: Option<Scalar>,
    pub touch_expansion: Option<Scalar>,
    pub extra: Map<Seq<char>, Value>,
    pub token_refs: Map<Seq<char>, Seq<char>>,
}

/// The view of an optional text.
pub open spec fn text_view(s: Option<String>) -> Option<Seq<char>> {
    match s {
        Some(t) => Some(t@),
        None => None,
    }
}

impl View for StyleProps {
    type V = Style;

    open spec fn view(&self) -> Style {
        Style {
            background: self.background,
            foreground: self.foreground,
            border_color: self.border_color,
            border_width: self.border_width,
            border_radius: self.border_radius,
            padding_horizontal: self.padding_horizontal,
            padding_vertical: self.padding_vertical,
            min_height: self.min_height,
            min_width: self.min_width,
            font_family: text_view(self.font_family),
            font_size: self.font_size,
            font_weight: self.font_weight,
            icon_size: self.icon_size,
            opacity: self.opacity,
            touch_expansion: self.touch_expansion,
            extra: self.extra@,
            token_refs: self.token_refs@,
        }
    }
}

/// A copy of an optional text.
pub fn copy_text(s: &Option<String>) -> (r: Option<String>)
    ensures
        text_view(r) == text_view(*s),
{
    match s {
        Some(t) => Some(t.clone()),
        None => None,
    }
}

impl Duplicate for StyleProps {
    fn duplicate(&self) -> (r: Self) {
        StyleProps {
            background: self.background,
            foreground: self.foreground,
            border_color: self.border_color,
            border_width: self.border_width,
            border_radius: self.border_radius,
            padding_horizontal: self.padding_horizontal,
            padding_vertical: self.padding_vertical,
            min_height: self.min_height,
            min_width: self.min_width,
            font_family: copy_text(&self.font_family),
            font_size: self.font_size,
            font_weight: self.font_weight,
            icon_size: self.icon_size,
            opacity: self.opacity,
            touch_expansion: self.touch_expansion,
            extra: self.extra.duplicate(),
            token_refs: self.token_refs.duplicate(),
        }
    }
}

impl Clone for StyleProps {
    fn clone(&self) -> (r: Self)
        ensures
            r@ == self@,
    {
        self.duplicate()
    }
}

/// The style that sets nothing.
pub open spec fn empty_style() -> Style {
    Style {
        background: None,
        foreground: None,
        border_color: None,
        border_width: None,
        border_radius: None,
        padding_horizontal: None,
        padding_vertical: None,
        min_height: None,
        min_width: None,
        font_family: None,
        font_size: None,
        font_weight: None,
        icon_size: None,
        opacity: None,
        touch_expansion: None,
        extra: Map::empty(),
        token_refs: Map::empty(),
    }
}

/// The names of the standard properties.
#[verifier::opaque]
pub open spec fn is_standard(k: Seq<char>) -> bool {
    ||| k == "background"@
    ||| k == "foreground"@
    ||| k == "border_color"@
    ||| k == "border_width"@
    ||| k == "border_radius"@
    ||| k == "padding_horizontal"@
    ||| k == "padding_vertical"@
    ||| k == "min_height"@
    ||| k == "min_width"@
    ||| k == "font_family"@
    ||| k == "font_size"@
    ||| k == "font_weight"@
    ||| k == "icon_size"@
    ||| k == "opacity"@
    ||| k == "touch_expansion"@
}

/// Whether a style gives a standard property a value of its own.
#[verifier::opaque]
pub open spec fn has_standard_value(s: Style, k: Seq<char>) -> bool {
    ||| k == "background"@ && s.background is Some
    ||| k == "foreground"@ && s.foreground is Some
    ||| k == "border_color"@ && s.border_color is Some
    ||| k == "border_width"@ && s.border_width is Some
    ||| k == "border_radius"@ && s.border_radius is Some
    ||| k == "padding_horizontal"@ && s.padding_horizontal is Some
    ||| k == "padding_vertical"@ && s.padding_vertical is Some
    ||| k == "min_height"@ && s.min_height is Some
    ||| k == "min_width"@ && s.min_width is Some
    ||| k == "font_family"@ && s.font_family is Some
    ||| k == "font_size"@ && s.font_size is Some
    ||| k == "font_weight"@ && s.font_weight is Some
    ||| k == "icon_size"@ && s.icon_size is Some
    ||| k == "opacity"@ && s.opacity is Some
    ||| k == "touch_expansion"@ && s.touch_expansion is Some
}

/// A standard field after a merge: cleared by the other style's token reference, else replaced by
/// the other style's value, else kept.
pub open spec fn merged_field<T>(field: Option<T>, other: Option<T>, by_reference: bool) -> Option<T> {
    if by_reference {
        None
    } else if other is Some {
        other
    } else {
        field
    }
}

/// Whether a merge decides the extra property `k` by the other style.
pub open spec fn sets_extra(other: Style, k: Seq<char>) -> bool {
    other.extra.dom().contains(k) || (other.token_refs.dom().contains(k) && !is_standard(k))
}

/// The extra properties after a merge.
pub open spec fn merged_extra(s: Style, other: Style) -> Map<Seq<char>, Value> {
    Map::new(
        |k: Seq<char>|
            if sets_extra(other, k) {
                !other.token_refs.dom().contains(k)
            } else {
                s.extra.dom().contains(k)
            },
        |k: Seq<char>|
            if sets_extra(other, k) {
                other.extra[k]
            } else {
                s.extra[k]
            },
    )
}

/// The token references after a merge: the other style's, and those of the first style for which the
/// other one has no value.
pub open spec fn merged_refs(s: Style, other: Style) -> Map<Seq<char>, Seq<char>> {
    Map::new(
        |k: Seq<char>|
            other.token_refs.dom().contains(k) || (s.token_refs.dom().contains(k)
                && !has_standard_value(other, k) && !other.extra.dom().contains(k)),
        |k: Seq<char>|
            if other.token_refs.dom().contains(k) {
                other.token_refs[k]
            } else {
                s.token_refs[k]
            },
    )
}

/// The style `s` with what `other` sets put over it.
pub open spec fn merged(s: Style, other: Style) -> Style {
    Style {
        background: merged_field(s.background, other.background, other.token_refs.dom().contains("background"@)),
        foreground: merged_field(s.foreground, other.foreground, other.token_refs.dom().contains("foreground"@)),
        border_color: merged_field(s.border_color, other.border_color, other.token_refs.dom().contains("border_color"@)),
        border_width: merged_field(s.border_width, other.border_width, other.token_refs.dom().contains("border_width"@)),
        border_radius: merged_field(s.border_radius, other.border_radius, other.token_refs.dom().contains("border_radius"@)),
        padding_horizontal: merged_field(s.padding_horizontal, other.padding_horizontal, other.token_refs.dom().contains("padding_horizontal"@)),
        padding_vertical: merged_field(s.padding_vertical, other.padding_vertical, other.token_refs.dom().contains("padding_vertical"@)),
        min_height: merged_field(s.min_height, other.min_height, other.token_refs.dom().contains("min_height"@)),
        min_width: merged_field(s.min_width, other.min_width, other.token_refs.dom().contains("min_width"@)),
        font_family: merged_field(s.font_family, other.font_family, other.token_refs.dom().contains("font_family"@)),
        font_size: merged_field(s.font_size, other.font_size, other.token_refs.dom().contains("font_size"@)),
        font_weight: merged_field(s.font_weight, other.font_weight, other.token_refs.dom().contains("font_weight"@)),
        icon_size: merged_field(s.icon_size, other.icon_size, other.token_refs.dom().contains("icon_size"@)),
        opacity: merged_field(s.opacity, other.opacity, other.token_refs.dom().contains("opacity"@)),
        touch_expansion: merged_field(s.touch_expansion, other.touch_expansion, other.token_refs.dom().contains("touch_expansion"@)),
        extra: merged_extra(s, other),
        token_refs: merged_refs(s, other),
    }
}

/// The names of the standard properties are different texts.
pub proof fn standard_names_differ()
    ensures
        "background"@ != "foreground"@,
        "background"@ != "border_color"@,
        "background"@ != "border_width"@,
        "background"@ != "border_radius"@,
        "background"@ != "padding_horizontal"@,
        "background"@ != "padding_vertical"@,
        "background"@ != "min_height"@,
        "background"@ != "min_width"@,
        "background"@ != "font_family"@,
        "background"@ != "font_size"@,
        "background"@ != "font_weight"@,
        "background"@ != "icon_size"@,
        "background"@ != "opacity"@,
        "background"@ != "touch_expansion"@,
        "foreground"@ != "border_color"@,
        "foreground"@ != "border_width"@,
        "foreground"@ != "border_radius"@,
        "foreground"@ != "padding_horizontal"@,
        "foreground"@ != "padding_vertical"@,
        "foreground"@ != "min_height"@,
        "foreground"@ != "min_width"@,
        "foreground"@ != "font_family"@,
        "foreground"@ != "font_size"@,
        "foreground"@ != "font_weight"@,
        "foreground"@ != "icon_size"@,
        "foreground"@ != "opacity"@,
        "foreground"@ != "touch_expansion"@,
        "border_color"@ != "border_width"@,
        "border_color"@ != "border_radius"@,
        "border_color"@ != "padding_horizontal"@,
        "border_color"@ != "padding_vertical"@,
        "border_color"@ != "min_height"@,
        "border_color"@ != "min_width"@,
        "border_color"@ != "font_family"@,
        "border_color"@ != "font_size"@,
        "border_color"@ != "font_weight"@,
        "border_color"@ != "icon_size"@,
        "border_color"@ != "opacity"@,
        "border_color"@ != "touch_expansion"@,
        "border_width"@ != "border_radius"@,
        "border_width"@ != "padding_horizontal"@,
        "border_width"@ != "padding_vertical"@,
        "border_width"@ != "min_height"@,
        "border_width"@ != "min_width"@,
        "border_width"@ != "font_family"@,
        "border_width"@ != "font_size"@,
        "border_width"@ != "font_weight"@,
        "border_width"@ != "icon_size"@,
        "border_width"@ != "opacity"@,
        "border_width"@ != "touch_expansion"@,
        "border_radius"@ != "padding_horizontal"@,
        "border_radius"@ != "padding_vertical"@,
        "border_radius"@ != "min_height"@,
        "border_radius"@ != "min_width"@,
        "border_radius"@ != "font_family"@,
        "border_radius"@ != "font_size"@,
        "border_radius"@ != "font_weight"@,
        "border_radius"@ != "icon_size"@,
        "border_radius"@ != "opacity"@,
        "border_radius"@ != "touch_expansion"@,
        "padding_horizontal"@ != "padding_vertical"@,
        "padding_horizontal"@ != "min_height"@,
        "padding_horizontal"@ != "min_width"@,
        "padding_horizontal"@ != "font_family"@,
        "padding_horizontal"@ != "font_size"@,
        "padding_horizontal"@ != "font_weight"@,
        "padding_horizontal"@ != "icon_size"@,
        "padding_horizontal"@ != "opacity"@,
        "padding_horizontal"@ != "touch_expansion"@,
        "padding_vertical"@ != "min_height"@,
        "padding_vertical"@ != "min_width"@,
        "padding_vertical"@ != "font_family"@,
        "padding_vertical"@ != "font_size"@,
        "padding_vertical"@ != "font_weight"@,
        "padding_vertical"@ != "icon_size"@,
        "padding_vertical"@ != "opacity"@,
        "padding_vertical"@ != "touch_expansion"@,
        "min_height"@ != "min_width"@,
        "min_height"@ != "font_family"@,
        "min_height"@ != "font_size"@,
        "min_height"@ != "font_weight"@,
        "min_height"@ != "icon_size"@,
        "min_height"@ != "opacity"@,
        "min_height"@ != "touch_expansion"@,
        "min_width"@ != "font_family"@,
        "min_width"@ != "font_size"@,
        "min_width"@ != "font_weight"@,
        "min_width"@ != "icon_size"@,
        "min_width"@ != "opacity"@,
        "min_width"@ != "touch_expansion"@,
        "font_family"@ != "font_size"@,
        "font_family"@ != "font_weight"@,
        "font_family"@ != "icon_size"@,
        "font_family"@ != "opacity"@,
        "font_family"@ != "touch_expansion"@,
        "font_size"@ != "font_weight"@,
        "font_size"@ != "icon_size"@,
        "font_size"@ != "opacity"@,
        "font_size"@ != "touch_expansion"@,
        "font_weight"@ != "icon_size"@,
        "font_weight"@ != "opacity"@,
        "font_weight"@ != "touch_expansion"@,
        "icon_size"@ != "opacity"@,
        "icon_size"@ != "touch_expansion"@,
        "opacity"@ != "touch_expansion"@,
{
    reveal_strlit("background");
    assert("background"@.len() == 10);
    reveal_strlit("foreground");
    assert("foreground"@.len() == 10);
    reveal_strlit("border_color");
    assert("border_color"@.len() == 12);
    reveal_strlit("border_width");
    assert("border_width"@.len() == 12);
    reveal_strlit("border_radius");
    assert("border_radius"@.len() == 13);
    reveal_strlit("padding_horizontal");
    assert("padding_horizontal"@.len() == 18);
    reveal_strlit("padding_vertical");
    assert("padding_vertical"@.len() == 16);
    reveal_strlit("min_height");
    assert("min_height"@.len() == 10);
    reveal_strlit("min_width");
    assert("min_width"@.len() == 9);
    reveal_strlit("font_family");
    assert("font_family"@.len() == 11);
    reveal_strlit("font_size");
    assert("font_size"@.len() == 9);
    reveal_strlit("font_weight");
    assert("font_weight"@.len() == 11);
    reveal_strlit("icon_size");
    assert("icon_size"@.len() == 9);
    reveal_strlit("opacity");
    assert("opacity"@.len() == 7);
    reveal_strlit("touch_expansion");
    assert("touch_expansion"@.len() == 15);
    assert("background"@[0] != "foreground"@[0]);
    assert("background"@[0] != "min_height"@[0]);
    assert("foreground"@[0] != "min_height"@[0]);
    assert("border_color"@[7] != "border_width"@[7]);
    assert("min_width"@[0] != "font_size"@[0]);
    assert("min_width"@[0] != "icon_size"@[0]);
    assert("font_family"@[5] != "font_weight"@[5]);
    assert("font_size"@[0] != "icon_size"@[0]);
}

/// Merges one standard property of a copied type.
fn merge_copy_prop<T: Copy>(
    field: &mut Option<T>,
    key: &str,
    other_value: Option<T>,
    other_token_refs: &TextMap<String>,
)
    ensures
        *final(field) == merged_field(
            *old(field),
            other_value,
            other_token_refs@.dom().contains(key@),
        ),
{
    if other_token_refs.contains_key(key) {
        *field = None;
    } else if other_value.is_some() {
        *field = other_value;
    }
}

/// Merges one standard property that is a text.
fn merge_string_prop(
    field: &mut Option<String>,
    key: &str,
    other_value: &Option<String>,
    other_token_refs: &TextMap<String>,
)
    ensures
        text_view(*final(field)) == merged_field(
            text_view(*old(field)),
            text_view(*other_value),
            other_token_refs@.dom().contains(key@),
        ),
{
    if other_token_refs.contains_key(key) {
        *field = None;
    } else if other_value.is_some() {
        *field = copy_text(other_value);
    }
}

/// Whether a name is that of a standard property.
pub fn is_standard_prop(prop_name: &str) -> (r: bool)
    ensures
        r == is_standard(prop_name@),
{
    proof {
        reveal(is_standard);
    }
    text_eq(prop_name, "background")
        || text_eq(prop_name, "foreground")
        || text_eq(prop_name, "border_color")
        || text_eq(prop_name, "border_width")
        || text_eq(prop_name, "border_radius")
        || text_eq(prop_name, "padding_horizontal")
        || text_eq(prop_name, "padding_vertical")
        || text_eq(prop_name, "min_height")
        || text_eq(prop_name, "min_width")
        || text_eq(prop_name, "font_family")
        || text_eq(prop_name, "font_size")
        || text_eq(prop_name, "font_weight")
        || text_eq(prop_name, "icon_size")
        || text_eq(prop_name, "opacity")
        || text_eq(prop_name, "touch_expansion")
}

/// Whether a style gives a standard property a value of its own.
fn standard_value_set(style: &StyleProps, prop_name: &str) -> (r: bool)
    ensures
        r == has_standard_value(style@, prop_name@),
{
    proof {
        reveal(has_standard_value);
    }
    (style.background.is_some() && text_eq(prop_name, "background"))
        || (style.foreground.is_some() && text_eq(prop_name, "foreground"))
        || (style.border_color.is_some() && text_eq(prop_name, "border_color"))
        || (style.border_width.is_some() && text_eq(prop_name, "border_width"))
        || (style.border_radius.is_some() && text_eq(prop_name, "border_radius"))
        || (style.padding_horizontal.is_some() && text_eq(prop_name, "padding_horizontal"))
        || (style.padding_vertical.is_some() && text_eq(prop_name, "padding_vertical"))
        || (style.min_height.is_some() && text_eq(prop_name, "min_height"))
        || (style.min_width.is_some() && text_eq(prop_name, "min_width"))
        || (style.font_family.is_some() && text_eq(prop_name, "font_family"))
        || (style.font_size.is_some() && text_eq(prop_name, "font_size"))
        || (style.font_weight.is_some() && text_eq(prop_name, "font_weight"))
        || (style.icon_size.is_some() && text_eq(prop_name, "icon_size"))
        || (style.opacity.is_some() && text_eq(prop_name, "opacity"))
        || (style.touch_expansion.is_some() && text_eq(prop_name, "touch_expansion"))
}

impl StyleProps {
    /// A style that sets nothing.
    pub fn new() -> (r: Self)
        ensures
            r@ == empty_style(),
    {
        StyleProps {
            background: None,
            foreground: None,
            border_color: None,
            border_width: None,
            border_radius: None,
            padding_horizontal: None,
            padding_vertical: None,
            min_height: None,
            min_width: None,
            font_family: None,
            font_size: None,
            font_weight: None,
            icon_size: None,
            opacity: None,
            touch_expansion: None,
            extra: TextMap::new(),
            token_refs: TextMap::new(),
        }
    }

    /// Merge another StyleProps into this one.
    /// Values from `other` override values in `self` if they are Some.
    pub fn merge(&mut self, other: &StyleProps)
        ensures
            final(self)@ == merged(old(self)@, other@),
    {
        let ghost s0 = self@;
        let ghost o = other@;
        merge_copy_prop(
            &mut self.background,
            "background",
            other.background,
            &other.token_refs,
        );
        merge_copy_prop(
            &mut self.foreground,
            "foreground",
            other.foreground,
            &other.token_refs,
        );
        merge_copy_prop(
            &mut self.border_color,
            "border_color",
            other.border_color,
            &other.token_refs,
        );
        merge_copy_prop(
            &mut self.border_width,
            "border_width",
            other.border_width,
            &other.token_refs,
        );
        merge_copy_prop(
            &mut self.border_radius,
            "border_radius",
            other.border_radius,
            &other.token_refs,
        );
        merge_copy_prop(
            &mut self.padding_horizontal,
            "padding_horizontal",
            other.padding_horizontal,
            &other.token_refs,
        );
        merge_copy_prop(
            &mut self.padding_vertical,
            "padding_vertical",
            other.padding_vertical,
            &other.token_refs,
        );
        merge_copy_prop(
            &mut self.min_height,
            "min_height",
            other.min_height,
            &other.token_refs,
        );
        merge_copy_prop(
            &mut self.min_width,
            "min_width",
            other.min_width,
            &other.token_refs,
        );
        merge_string_prop(
            &mut self.font_family,
            "font_family",
            &other.font_family,
            &other.token_refs,
        );
        merge_copy_prop(
            &mut self.font_size,
            "font_size",
            other.font_size,
            &other.token_refs,
        );
        merge_copy_prop(
            &mut self.font_weight,
            "font_weight",
            other.font_weight,
            &other.token_refs,
        );
        merge_copy_prop(
            &mut self.icon_size,
            "icon_size",
            other.icon_size,
            &other.token_refs,
        );
        merge_copy_prop(
            &mut self.opacity,
            "opacity",
            other.opacity,
            &other.token_refs,
        );
        merge_copy_prop(
            &mut self.touch_expansion,
            "touch_expansion",
            other.touch_expansion,
            &other.token_refs,
        );
        self.merge_token_refs(other);
        self.drop_referenced_extra(other);
        self.merge_extra_values(other);
        proof {
            assert(self.extra@ =~= merged_extra(s0, o));
            assert(self.token_refs@ =~= merged_refs(s0, o));
        }
    }

    /// Keeps the references that the other style does not override and takes over its own.
    fn merge_token_refs(&mut self, other: &StyleProps)
        ensures
            final(self)@ == (Style { token_refs: merged_refs(old(self)@, other@), ..old(self)@ }),
    {
        let mut kept: TextMap<String> = TextMap::new();
        let n: usize = self.token_refs.len();
        let ghost refs = self@.token_refs;
        let ghost names = textmap::sorted_keys(refs);
        for i in 0..n
            invariant
                refs == self@.token_refs,
                names == textmap::sorted_keys(refs),
                n == names.len(),
                textmap::lists(names, refs.dom()),
                forall|k: Seq<char>| #[trigger]
                    kept@.dom().contains(k) <==> names.take(i as int).contains(k)
                        && !has_standard_value(other@, k) && !other@.extra.dom().contains(k),
                forall|k: Seq<char>| #[trigger] kept@.dom().contains(k) ==> kept@[k] == refs[k],
        {
            let key = self.token_refs.key_at(i);
            proof {
                textmap::take_step(names, i as int);
            }
            if !standard_value_set(other, key.as_str()) && !other.extra.contains_key(key.as_str()) {
                let path = self.token_refs.value_at(i);
                kept.insert(key.clone(), path.clone());
            }
        }
        kept.extend_from(&other.token_refs);
        proof {
            assert(names.take(n as int) =~= names);
            assert(kept@ =~= merged_refs(self@, other@));
        }
        self.token_refs = kept;
    }

    /// Drops the extra properties that the other style sets by reference.
    fn drop_referenced_extra(&mut self, other: &StyleProps)
        ensures
            final(self)@ == (Style { extra: final(self)@.extra, ..old(self)@ }),
            forall|k: Seq<char>| #[trigger]
                final(self)@.extra.dom().contains(k) <==> old(self)@.extra.dom().contains(k) && !(
                other@.token_refs.dom().contains(k) && !is_standard(k)),
            forall|k: Seq<char>| #[trigger]
                final(self)@.extra.dom().contains(k) ==> final(self)@.extra[k] == old(self)@.extra[k],
    {
        let n: usize = other.token_refs.len();
        let ghost s0 = self@;
        let ghost refs = other@.token_refs;
        let ghost names = textmap::sorted_keys(refs);
        for i in 0..n
            invariant
                refs == other@.token_refs,
                names == textmap::sorted_keys(refs),
                n == names.len(),
                textmap::lists(names, refs.dom()),
                self@ == (Style { extra: self@.extra, ..s0 }),
                forall|k: Seq<char>| #[trigger]
                    self@.extra.dom().contains(k) <==> s0.extra.dom().contains(k) && !(names.take(
                        i as int,
                    ).contains(k) && !is_standard(k)),
                forall|k: Seq<char>| #[trigger]
                    self@.extra.dom().contains(k) ==> self@.extra[k] == s0.extra[k],
        {
            let key = other.token_refs.key_at(i);
            proof {
                textmap::take_step(names, i as int);
            }
            if !is_standard_prop(key.as_str()) {
                self.extra.remove(key.as_str());
            }
        }
        proof {
            assert(names.take(n as int) =~= names);
        }
    }

    /// Takes over the values of extra properties.
    fn merge_extra_values(&mut self, other: &StyleProps)
        ensures
            final(self)@ == (Style { extra: final(self)@.extra, ..old(self)@ }),
            forall|k: Seq<char>| #[trigger]
                final(self)@.extra.dom().contains(k) <==> (if other@.extra.dom().contains(k) {
                    !other@.token_refs.dom().contains(k)
                } else {
                    old(self)@.extra.dom().contains(k)
                }),
            forall|k: Seq<char>| #[trigger]
                final(self)@.extra.dom().contains(k) ==> final(self)@.extra[k] == (
                if other@.extra.dom().contains(k) {
                    other@.extra[k]
                } else {
                    old(self)@.extra[k]
                }),
    {
        let n: usize = other.extra.len();
        let ghost s0 = self@;
        let ghost values = other@.extra;
        let ghost refs = other@.token_refs;
        let ghost names = textmap::sorted_keys(values);
        for i in 0..n
            invariant
                values == other@.extra,
                refs == other@.token_refs,
                names == textmap::sorted_keys(values),
                n == names.len(),
                textmap::lists(names, values.dom()),
                self@ == (Style { extra: self@.extra, ..s0 }),
                forall|k: Seq<char>| #[trigger]
                    self@.extra.dom().contains(k) <==> (if names.take(i as int).contains(k) {
                        !refs.dom().contains(k)
                    } else {
                        s0.extra.dom().contains(k)
                    }),
                forall|k: Seq<char>| #[trigger]
                    self@.extra.dom().contains(k) ==> self@.extra[k] == (if names.take(
                        i as int,
                    ).contains(k) {
                        values[k]
                    } else {
                        s0.extra[k]
                    }),
        {
            let key = other.extra.key_at(i);
            proof {
                textmap::take_step(names, i as int);
            }
            if other.token_refs.contains_key(key.as_str()) {
                self.extra.remove(key.as_str());
            } else {
                let value = other.extra.value_at(i);
                self.extra.insert(key.clone(), value.duplicate());
            }
        }
        proof {
            assert(names.take(n as int) =~= names);
        }
    }

    /// This style with what another one sets put over it.
    pub fn merged_with(&self, other: &StyleProps) -> (r: StyleProps)
        ensures
            r@ == merged(self@, other@),
    {
        let mut out = self.duplicate();
        out.merge(other);
        out
    }
}

/// The color that a theme value gives a color property: itself, or what a strict hexadecimal text
/// stands for.
pub open spec fn color_value(v: Value) -> Option<Color> {
    match v {
        Value::Color(c) => Some(c),
        Value::Text(t) => color::color_of_hex(t),
        _ => None,
    }
}

/// The number that a theme value gives a numeric property.
pub open spec fn float_value(v: Value) -> Option<Scalar> {
    match v {
        Value::Float(f) => Some(f),
        Value::Int(i) => Some(scalar::int_scalar(i as int)),
        _ => None,
    }
}

/// The integer that a theme value gives an integer property.
pub open spec fn int_value(v: Value) -> Option<i32> {
    match v {
        Value::Int(i) => Some(i),
        Value::Float(f) => Some(scalar::truncated(f) as i32),
        _ => None,
    }
}

/// The text that a theme value gives a text property.
pub open spec fn text_value(v: Value) -> Option<Seq<char>> {
    match v {
        Value::Text(t) => Some(t),
        _ => None,
    }
}

/// What a token path resolves to.
pub open spec fn token_value(t: Tokens, path: Seq<char>) -> Option<Value> {
    tokens::resolved_reference(t, path, None)
}

/// The color at a token path.
pub open spec fn token_color(t: Tokens, path: Seq<char>) -> Option<Color> {
    match token_value(t, path) {
        Some(Value::Color(c)) => Some(c),
        _ => None,
    }
}

/// The number at a token path.
pub open spec fn token_float(t: Tokens, path: Seq<char>) -> Option<Scalar> {
    match token_value(t, path) {
        Some(v) => float_value(v),
        None => None,
    }
}

/// The integer at a token path.
pub open spec fn token_int(t: Tokens, path: Seq<char>) -> Option<i32> {
    match token_value(t, path) {
        Some(v) => int_value(v),
        None => None,
    }
}

/// The text at a token path.
pub open spec fn token_text(t: Tokens, path: Seq<char>) -> Option<Seq<char>> {
    match token_value(t, path) {
        Some(v) => text_value(v),
        None => None,
    }
}

fn resolve_token_value<'a>(tokens: &'a TokenSet, path: &str) -> (r: Option<&'a TokenValue>)
    ensures
        match r {
            Some(v) => token_value(tokens@, path@) == Some(v@),
            None => token_value(tokens@, path@) is None,
        },
{
    tokens.resolve_reference(path, None)
}

fn resolve_color_token(tokens: &TokenSet, path: &str) -> (r: Option<Color>)
    ensures
        r == token_color(tokens@, path@),
{
    match resolve_token_value(tokens, path) {
        Some(TokenValue::Color(color)) => Some(*color),
        _ => None,
    }
}

fn resolve_float_token(tokens: &TokenSet, path: &str) -> (r: Option<Scalar>)
    ensures
        r == token_float(tokens@, path@),
{
    match resolve_token_value(tokens, path) {
        Some(TokenValue::Float(number)) => Some(*number),
        Some(TokenValue::Int(number)) => Some(Scalar::from_int(*number)),
        _ => None,
    }
}

fn resolve_int_token(tokens: &TokenSet, path: &str) -> (r: Option<i32>)
    ensures
        r == token_int(tokens@, path@),
{
    match resolve_token_value(tokens, path) {
        Some(TokenValue::Int(number)) => Some(*number),
        Some(TokenValue::Float(number)) => Some(number.to_int()),
        _ => None,
    }
}

fn resolve_string_token(tokens: &TokenSet, path: &str) -> (r: Option<String>)
    ensures
        text_view(r) == token_text(tokens@, path@),
{
    match resolve_token_value(tokens, path) {
        Some(TokenValue::String(text)) => Some(text.clone()),
        _ => None,
    }
}

fn resolve_style_value_token(tokens: &TokenSet, path: &str) -> (r: Option<StyleValue>)
    ensures
        match r {
            Some(v) => token_value(tokens@, path@) == Some(v@),
            None => token_value(tokens@, path@) is None,
        },
{
    match resolve_token_value(tokens, path) {
        Some(TokenValue::Color(color)) => Some(StyleValue::Color(*color)),
        Some(TokenValue::Float(number)) => Some(StyleValue::Float(*number)),
        Some(TokenValue::Int(number)) => Some(StyleValue::Int(*number)),
        Some(TokenValue::Bool(flag)) => Some(StyleValue::Bool(*flag)),
        Some(TokenValue::String(text)) => Some(StyleValue::String(text.clone())),
        Some(TokenValue::Ref(_)) => {
            proof {
                resolved_is_no_reference(tokens@, path@);
            }
            None
        },
        None => None,
    }
}

/// A resolved reference is never itself a reference.
pub proof fn resolved_is_no_reference(t: Tokens, path: Seq<char>)
    ensures
        !(token_value(t, path) matches Some(Value::Ref(_))),
{
}

/// A standard field after resolution: what its reference resolves to, where it has one.
pub open spec fn resolved_field<T>(field: Option<T>, has_reference: bool, found: Option<T>) -> Option<T> {
    if has_reference {
        found
    } else {
        field
    }
}

/// The extra properties after resolution.
pub open spec fn resolved_extra(s: Style, t: Tokens) -> Map<Seq<char>, Value> {
    Map::new(
        |k: Seq<char>|
            if s.token_refs.dom().contains(k) && !is_standard(k) {
                token_value(t, s.token_refs[k]) is Some
            } else {
                s.extra.dom().contains(k)
            },
        |k: Seq<char>|
            if s.token_refs.dom().contains(k) && !is_standard(k) {
                token_value(t, s.token_refs[k])->0
            } else {
                s.extra[k]
            },
    )
}

/// The style with its references replaced by what they resolve to; one that does not resolve leaves
/// its property unset.
pub open spec fn resolved_style(s: Style, t: Tokens) -> Style {
    Style {
        background: resolved_field(
            s.background,
            s.token_refs.dom().contains("background"@),
            token_color(t, s.token_refs["background"@]),
        ),
        foreground: resolved_field(
            s.foreground,
            s.token_refs.dom().contains("foreground"@),
            token_color(t, s.token_refs["foreground"@]),
        ),
        border_color: resolved_field(
            s.border_color,
            s.token_refs.dom().contains("border_color"@),
            token_color(t, s.token_refs["border_color"@]),
        ),
        border_width: resolved_field(
            s.border_width,
            s.token_refs.dom().contains("border_width"@),
            token_float(t, s.token_refs["border_width"@]),
        ),
        border_radius: resolved_field(
            s.border_radius,
            s.token_refs.dom().contains("border_radius"@),
            token_float(t, s.token_refs["border_radius"@]),
        ),
        padding_horizontal: resolved_field(
            s.padding_horizontal,
            s.token_refs.dom().contains("padding_horizontal"@),
            token_float(t, s.token_refs["padding_horizontal"@]),
        ),
        padding_vertical: resolved_field(
            s.padding_vertical,
            s.token_refs.dom().contains("padding_vertical"@),
            token_float(t, s.token_refs["padding_vertical"@]),
        ),
        min_height: resolved_field(
            s.min_height,
            s.token_refs.dom().contains("min_height"@),
            token_float(t, s.token_refs["min_height"@]),
        ),
        min_width: resolved_field(
            s.min_width,
            s.token_refs.dom().contains("min_width"@),
            token_float(t, s.token_refs["min_width"@]),
        ),
        font_family: resolved_field(
            s.font_family,
            s.token_refs.dom().contains("font_family"@),
            token_text(t, s.token_refs["font_family"@]),
        ),
        font_size: resolved_field(
            s.font_size,
            s.token_refs.dom().contains("font_size"@),
            token_float(t, s.token_refs["font_size"@]),
        ),
        font_weight: resolved_field(
            s.font_weight,
            s.token_refs.dom().contains("font_weight"@),
            token_int(t, s.token_refs["font_weight"@]),
        ),
        icon_size: resolved_field(
            s.icon_size,
            s.token_refs.dom().contains("icon_size"@),
            token_float(t, s.token_refs["icon_size"@]),
        ),
        opacity: resolved_field(
            s.opacity,
            s.token_refs.dom().contains("opacity"@),
            token_float(t, s.token_refs["opacity"@]),
        ),
        touch_expansion: resolved_field(
            s.touch_expansion,
            s.token_refs.dom().contains("touch_expansion"@),
            token_float(t, s.token_refs["touch_expansion"@]),
        ),
        extra: resolved_extra(s, t),
        token_refs: Map::empty(),
    }
}

impl StyleProps {
    /// The style with its references resolved against a token set.
    pub fn resolved_for_tokens(&self, tokens: &TokenSet) -> (r: StyleProps)
        ensures
            r@ == resolved_style(self@, tokens@),
    {
        StyleProps {
            background: self.color_field(self.background, "background", tokens),
            foreground: self.color_field(self.foreground, "foreground", tokens),
            border_color: self.color_field(self.border_color, "border_color", tokens),
            border_width: self.float_field(self.border_width, "border_width", tokens),
            border_radius: self.float_field(self.border_radius, "border_radius", tokens),
            padding_horizontal: self.float_field(self.padding_horizontal, "padding_horizontal", tokens),
            padding_vertical: self.float_field(self.padding_vertical, "padding_vertical", tokens),
            min_height: self.float_field(self.min_height, "min_height", tokens),
            min_width: self.float_field(self.min_width, "min_width", tokens),
            font_family: self.string_field(&self.font_family, "font_family", tokens),
            font_size: self.float_field(self.font_size, "font_size", tokens),
            font_weight: self.int_field(self.font_weight, "font_weight", tokens),
            icon_size: self.float_field(self.icon_size, "icon_size", tokens),
            opacity: self.float_field(self.opacity, "opacity", tokens),
            touch_expansion: self.float_field(self.touch_expansion, "touch_expansion", tokens),
            extra: self.resolved_extra_values(tokens),
            token_refs: TextMap::new(),
        }
    }

    fn color_field(&self, field: Option<Color>, name: &str, tokens: &TokenSet) -> (r: Option<Color>)
        ensures
            r == resolved_field(
                field,
                self@.token_refs.dom().contains(name@),
                token_color(tokens@, self@.token_refs[name@]),
            ),
    {
        match self.token_refs.get(name) {
            Some(path) => resolve_color_token(tokens, path.as_str()),
            None => field,
        }
    }

    fn float_field(&self, field: Option<Scalar>, name: &str, tokens: &TokenSet) -> (r: Option<Scalar>)
        ensures
            r == resolved_field(
                field,
                self@.token_refs.dom().contains(name@),
                token_float(tokens@, self@.token_refs[name@]),
            ),
    {
        match self.token_refs.get(name) {
            Some(path) => resolve_float_token(tokens, path.as_str()),
            None => field,
        }
    }

    fn int_field(&self, field: Option<i32>, name: &str, tokens: &TokenSet) -> (r: Option<i32>)
        ensures
            r == resolved_field(
                field,
                self@.token_refs.dom().contains(name@),
                token_int(tokens@, self@.token_refs[name@]),
            ),
    {
        match self.token_refs.get(name) {
            Some(path) => resolve_int_token(tokens, path.as_str()),
            None => field,
        }
    }

    fn string_field(&self, field: &Option<String>, name: &str, tokens: &TokenSet) -> (r: Option<String>)
        ensures
            text_view(r) == resolved_field(
                text_view(*field),
                self@.token_refs.dom().contains(name@),
                token_text(tokens@, self@.token_refs[name@]),
            ),
    {
        match self.token_refs.get(name) {
            Some(path) => resolve_string_token(tokens, path.as_str()),
            None => copy_text(field),
        }
    }

    fn resolved_extra_values(&self, tokens: &TokenSet) -> (r: TextMap<StyleValue>)
        ensures
            r@ == resolved_extra(self@, tokens@),
    {
        let mut extra = self.extra.duplicate();
        let n: usize = self.token_refs.len();
        let ghost refs = self@.token_refs;
        let ghost names = textmap::sorted_keys(refs);
        let ghost goal = resolved_extra(self@, tokens@);
        for i in 0..n
            invariant
                refs == self@.token_refs,
                names == textmap::sorted_keys(refs),
                n == names.len(),
                textmap::lists(names, refs.dom()),
                goal == resolved_extra(self@, tokens@),
                forall|k: Seq<char>| #[trigger]
                    extra@.dom().contains(k) <==> (if names.take(i as int).contains(k) {
                        goal.dom().contains(k)
                    } else {
                        self@.extra.dom().contains(k)
                    }),
                forall|k: Seq<char>| #[trigger]
                    extra@.dom().contains(k) ==> extra@[k] == (if names.take(i as int).contains(k) {
                        goal[k]
                    } else {
                        self@.extra[k]
                    }),
        {
            let key = self.token_refs.key_at(i);
            proof {
                textmap::take_step(names, i as int);
            }
            if !is_standard_prop(key.as_str()) {
                let path = self.token_refs.value_at(i);
                match resolve_style_value_token(tokens, path.as_str()) {
                    Some(value) => {
                        extra.insert(key.clone(), value);
                    },
                    None => {
                        extra.remove(key.as_str());
                    },
                }
            }
        }
        proof {
            assert(names.take(n as int) =~= names);
            assert(extra@ =~= goal);
        }
        extra
    }

    /// Get an extra property as a color.
    pub fn get_extra_color(&self, key: &str) -> (r: Option<Color>)
        ensures
            r == (if self@.extra.dom().contains(key@) {
                match self@.extra[key@] {
                    Value::Color(c) => Some(c),
                    _ => None,
                }
            } else {
                None
            }),
    {
        match self.extra.get(key) {
            Some(StyleValue::Color(c)) => Some(*c),
            _ => None,
        }
    }

    /// Get an extra property as a float.
    pub fn get_extra_float(&self, key: &str) -> (r: Option<Scalar>)
        ensures
            r == (if self@.extra.dom().contains(key@) {
                match self@.extra[key@] {
                    Value::Float(f) => Some(f),
                    _ => None,
                }
            } else {
                None
            }),
    {
        match self.extra.get(key) {
            Some(StyleValue::Float(f)) => Some(*f),
            _ => None,
        }
    }

    /// Set an extra color property.
    pub fn set_extra_color(&mut self, key: &str, value: Color)
        ensures
            final(self)@ == (Style {
                extra: old(self)@.extra.insert(key@, Value::Color(value)),
                ..old(self)@
            }),
    {
        self.extra.insert(owned(key), StyleValue::Color(value));
    }

    /// Set an extra float property.
    pub fn set_extra_float(&mut self, key: &str, value: Scalar)
        ensures
            final(self)@ == (Style {
                extra: old(self)@.extra.insert(key@, Value::Float(value)),
                ..old(self)@
            }),
    {
        self.extra.insert(owned(key), StyleValue::Float(value));
    }
}

/// A token path used as a value.
#[derive(Debug, PartialEq, Eq)]
pub struct TokenReference(String);

impl View for TokenReference {
    type V = Seq<char>;

    closed spec fn view(&self) -> Seq<char> {
        self.0@
    }
}

impl TokenReference {
    /// A reference to the token at a path.
    pub fn new(path: &str) -> (r: Self)
        ensures
            r@ == path@,
    {
        TokenReference(owned(path))
    }

    /// The path.
    pub fn as_str(&self) -> (r: &str)
        ensures
            r@ == self@,
    {
        self.0.as_str()
    }
}

/// A reference to the token at a path.
pub fn token_ref(path: &str) -> (r: TokenReference)
    ensures
        r@ == path@,
{
    TokenReference::new(path)
}

/// The color that a literal such as "#FF6B00" stands for.
pub fn color(hex: &str) -> (r: Color)
    requires
        color::color_of_hex(hex@) is Some,
    ensures
        color::color_of_hex(hex@) == Some(r),
{
    match Color::from_hex(hex) {
        Some(c) => c,
        None => Color::rgb(0, 0, 0),
    }
}

/// A value on its way into a theme.
#[derive(Debug, PartialEq)]
pub enum ThemeValue {
    Color(Color),
    Float(Scalar),
    Int(i32),
    Bool(bool),
    String(String),
    TokenRef(String),
}

impl View for ThemeValue {
    type V = Value;

    open spec fn view(&self) -> Value {
        match *self {
            ThemeValue::Color(c) => Value::Color(c),
            ThemeValue::Float(f) => Value::Float(f),
            ThemeValue::Int(i) => Value::Int(i),
            ThemeValue::Bool(b) => Value::Bool(b),
            ThemeValue::String(s) => Value::Text(s@),
            ThemeValue::TokenRef(s) => Value::Ref(s@),
        }
    }
}

impl Duplicate for ThemeValue {
    fn duplicate(&self) -> (r: Self) {
        match self {
            ThemeValue::Color(c) => ThemeValue::Color(*c),
            ThemeValue::Float(f) => ThemeValue::Float(*f),
            ThemeValue::Int(i) => ThemeValue::Int(*i),
            ThemeValue::Bool(b) => ThemeValue::Bool(*b),
            ThemeValue::String(s) => ThemeValue::String(s.clone()),
            ThemeValue::TokenRef(s) => ThemeValue::TokenRef(s.clone()),
        }
    }
}

impl From<Color> for ThemeValue {
    fn from(value: Color) -> (r: Self) {
        ThemeValue::Color(value)
    }
}

impl vstd::std_specs::convert::FromSpecImpl<Color> for ThemeValue {
    open spec fn obeys_from_spec() -> bool {
        true
    }

    open spec fn from_spec(value: Color) -> Self {
        ThemeValue::Color(value)
    }
}

impl From<TokenReference> for ThemeValue {
    fn from(value: TokenReference) -> (r: Self)
        ensures
            r@ == Value::Ref(value@),
    {
        ThemeValue::TokenRef(value.0)
    }
}

impl vstd::std_specs::convert::FromSpecImpl<TokenReference> for ThemeValue {
    open spec fn obeys_from_spec() -> bool {
        false
    }

    open spec fn from_spec(value: TokenReference) -> Self {
        ThemeValue::Bool(false)
    }
}

impl From<String> for ThemeValue {
    fn from(value: String) -> (r: Self) {
        ThemeValue::String(value)
    }
}

impl vstd::std_specs::convert::FromSpecImpl<String> for ThemeValue {
    open spec fn obeys_from_spec() -> bool {
        true
    }

    open spec fn from_spec(value: String) -> Self {
        ThemeValue::String(value)
    }
}

impl From<&str> for ThemeValue {
    fn from(value: &str) -> (r: Self)
        ensures
            r@ == Value::Text(value@),
    {
        ThemeValue::String(owned(value))
    }
}

impl vstd::std_specs::convert::FromSpecImpl<&str> for ThemeValue {
    open spec fn obeys_from_spec() -> bool {
        false
    }

    open spec fn from_spec(value: &str) -> Self {
        ThemeValue::Bool(false)
    }
}

impl From<Scalar> for ThemeValue {
    fn from(value: Scalar) -> (r: Self) {
        ThemeValue::Float(value)
    }
}

impl vstd::std_specs::convert::FromSpecImpl<Scalar> for ThemeValue {
    open spec fn obeys_from_spec() -> bool {
        true
    }

    open spec fn from_spec(value: Scalar) -> Self {
        ThemeValue::Float(value)
    }
}

impl From<i32> for ThemeValue {
    fn from(value: i32) -> (r: Self) {
        ThemeValue::Int(value)
    }
}

impl vstd::std_specs::convert::FromSpecImpl<i32> for ThemeValue {
    open spec fn obeys_from_spec() -> bool {
        true
    }

    open spec fn from_spec(value: i32) -> Self {
        ThemeValue::Int(value)
    }
}

impl From<i64> for ThemeValue {
    fn from(value: i64) -> (r: Self) {
        ThemeValue::Int(#[verifier::truncate] (value as i32))
    }
}

impl vstd::std_specs::convert::FromSpecImpl<i64> for ThemeValue {
    open spec fn obeys_from_spec() -> bool {
        true
    }

    open spec fn from_spec(value: i64) -> Self {
        ThemeValue::Int(value as i32)
    }
}

impl From<usize> for ThemeValue {
    fn from(value: usize) -> (r: Self) {
        ThemeValue::Int(#[verifier::truncate] (value as i32))
    }
}

impl vstd::std_specs::convert::FromSpecImpl<usize> for ThemeValue {
    open spec fn obeys_from_spec() -> bool {
        true
    }

    open spec fn from_spec(value: usize) -> Self {
        ThemeValue::Int(value as i32)
    }
}

impl From<bool> for ThemeValue {
    fn from(value: bool) -> (r: Self) {
        ThemeValue::Bool(value)
    }
}

impl vstd::std_specs::convert::FromSpecImpl<bool> for ThemeValue {
    open spec fn obeys_from_spec() -> bool {
        true
    }

    open spec fn from_spec(value: bool) -> Self {
        ThemeValue::Bool(value)
    }
}

fn expect_color(value: ThemeValue) -> (r: Color)
    requires
        color_value(value@) is Some,
    ensures
        color_value(value@) == Some(r),
{
    match value {
        ThemeValue::Color(c) => c,
        ThemeValue::String(text) => color(text.as_str()),
        _ => Color::rgb(0, 0, 0),
    }
}

fn expect_float(value: ThemeValue) -> (r: Scalar)
    requires
        float_value(value@) is Some,
    ensures
        float_value(value@) == Some(r),
{
    match value {
        ThemeValue::Float(number) => number,
        ThemeValue::Int(number) => Scalar::from_int(number),
        _ => Scalar::zero(),
    }
}

fn expect_int(value: ThemeValue) -> (r: i32)
    requires
        int_value(value@) is Some,
    ensures
        int_value(value@) == Some(r),
{
    match value {
        ThemeValue::Int(number) => number,
        ThemeValue::Float(number) => number.to_int(),
        _ => 0,
    }
}

fn expect_string(value: ThemeValue) -> (r: String)
    requires
        text_value(value@) is Some,
    ensures
        text_value(value@) == Some(r@),
{
    match value {
        ThemeValue::String(text) => text,
        _ => String::new(),
    }
}

/// The normal form of a property name: no white space around it, ASCII lower case, underscores.
pub open spec fn normal_name(name: Seq<char>) -> Seq<char> {
    text::replace_char(text::lowercased(text::trim(name)), '-', '_')
}

/// The normal form of a property name.
pub fn normalize_prop_name(prop_name: &str) -> (r: String)
    ensures
        r@ == normal_name(prop_name@),
{
    replaced_char(to_lower(trimmed(prop_name).as_str()).as_str(), '-', '_')
}

/// Whether a character stands unchanged in a normal name.
pub open spec fn is_tame(c: char) -> bool {
    !text::is_upper(c) && c != '-' && !text::is_white(c)
}

/// A name without upper case letters, hyphens and white space is in normal form.
pub proof fn tame_name_is_normal(name: Seq<char>)
    requires
        forall|i: int| 0 <= i < name.len() ==> is_tame(#[trigger] name[i]),
    ensures
        normal_name(name) == name,
{
    if name.len() > 0 {
        assert(is_tame(name[0]));
        assert(is_tame(name.last()));
    }
    assert(text::trim(name) == name);
    assert(text::lowercased(name) =~= name);
    assert(text::replace_char(name, '-', '_') =~= name);
}

/// The names of the standard properties are in normal form.
pub proof fn standard_names_normal()
    ensures
        normal_name("background"@) == "background"@,
        normal_name("foreground"@) == "foreground"@,
        normal_name("border_color"@) == "border_color"@,
        normal_name("border_width"@) == "border_width"@,
        normal_name("border_radius"@) == "border_radius"@,
        normal_name("padding_horizontal"@) == "padding_horizontal"@,
        normal_name("padding_vertical"@) == "padding_vertical"@,
        normal_name("min_height"@) == "min_height"@,
        normal_name("min_width"@) == "min_width"@,
        normal_name("font_family"@) == "font_family"@,
        normal_name("font_size"@) == "font_size"@,
        normal_name("font_weight"@) == "font_weight"@,
        normal_name("icon_size"@) == "icon_size"@,
        normal_name("opacity"@) == "opacity"@,
        normal_name("touch_expansion"@) == "touch_expansion"@,
{
    assert(normal_name("background"@) == "background"@) by {
        reveal_strlit("background");
        assert forall|i: int| 0 <= i < "background"@.len() implies is_tame(#[trigger] "background"@[i]) by {
            assert(i == 0 || i == 1 || i == 2 || i == 3 || i == 4 || i == 5 || i == 6 || i == 7 || i == 8 || i == 9);
        }
        tame_name_is_normal("background"@);
    }
    assert(normal_name("foreground"@) == "foreground"@) by {
        reveal_strlit("foreground");
        assert forall|i: int| 0 <= i < "foreground"@.len() implies is_tame(#[trigger] "foreground"@[i]) by {
            assert(i == 0 || i == 1 || i == 2 || i == 3 || i == 4 || i == 5 || i == 6 || i == 7 || i == 8 || i == 9);
        }
        tame_name_is_normal("foreground"@);
    }
    assert(normal_name("border_color"@) == "border_color"@) by {
        reveal_strlit("border_color");
        assert forall|i: int| 0 <= i < "border_color"@.len() implies is_tame(#[trigger] "border_color"@[i]) by {
            assert(i == 0 || i == 1 || i == 2 || i == 3 || i == 4 || i == 5 || i == 6 || i == 7 || i == 8 || i == 9 || i == 10 || i == 11);
        }
        tame_name_is_normal("border_color"@);
    }
    assert(normal_name("border_width"@) == "border_width"@) by {
        reveal_strlit("border_width");
        assert forall|i: int| 0 <= i < "border_width"@.len() implies is_tame(#[trigger] "border_width"@[i]) by {
            assert(i == 0 || i == 1 || i == 2 || i == 3 || i == 4 || i == 5 || i == 6 || i == 7 || i == 8 || i == 9 || i == 10 || i == 11);
        }
        tame_name_is_normal("border_width"@);
    }
    assert(normal_name("border_radius"@) == "border_radius"@) by {
        reveal_strlit("border_radius");
        assert forall|i: int| 0 <= i < "border_radius"@.len() implies is_tame(#[trigger] "border_radius"@[i]) by {
            assert(i == 0 || i == 1 || i == 2 || i == 3 || i == 4 || i == 5 || i == 6 || i == 7 || i == 8 || i == 9 || i == 10 || i == 11 || i == 12);
        }
        tame_name_is_normal("border_radius"@);
    }
    assert(normal_name("padding_horizontal"@) == "padding_horizontal"@) by {
        reveal_strlit("padding_horizontal");
        assert forall|i: int| 0 <= i < "padding_horizontal"@.len() implies is_tame(#[trigger] "padding_horizontal"@[i]) by {
            assert(i == 0 || i == 1 || i == 2 || i == 3 || i == 4 || i == 5 || i == 6 || i == 7 || i == 8 || i == 9 || i == 10 || i == 11 || i == 12 || i == 13 || i == 14 || i == 15 || i == 16 || i == 17);
        }
        tame_name_is_normal("padding_horizontal"@);
    }
    assert(normal_name("padding_vertical"@) == "padding_vertical"@) by {
        reveal_strlit("padding_vertical");
        assert forall|i: int| 0 <= i < "padding_vertical"@.len() implies is_tame(#[trigger] "padding_vertical"@[i]) by {
            assert(i == 0 || i == 1 || i == 2 || i == 3 || i == 4 || i == 5 || i == 6 || i == 7 || i == 8 || i == 9 || i == 10 || i == 11 || i == 12 || i == 13 || i == 14 || i == 15);
        }
        tame_name_is_normal("padding_vertical"@);
    }
    assert(normal_name("min_height"@) == "min_height"@) by {
        reveal_strlit("min_height");
        assert forall|i: int| 0 <= i < "min_height"@.len() implies is_tame(#[trigger] "min_height"@[i]) by {
            assert(i == 0 || i == 1 || i == 2 || i == 3 || i == 4 || i == 5 || i == 6 || i == 7 || i == 8 || i == 9);
        }
        tame_name_is_normal("min_height"@);
    }
    assert(normal_name("min_width"@) == "min_width"@) by {
        reveal_strlit("min_width");
        assert forall|i: int| 0 <= i < "min_width"@.len() implies is_tame(#[trigger] "min_width"@[i]) by {
            assert(i == 0 || i == 1 || i == 2 || i == 3 || i == 4 || i == 5 || i == 6 || i == 7 || i == 8);
        }
        tame_name_is_normal("min_width"@);
    }
    assert(normal_name("font_family"@) == "font_family"@) by {
        reveal_strlit("font_family");
        assert forall|i: int| 0 <= i < "font_family"@.len() implies is_tame(#[trigger] "font_family"@[i]) by {
            assert(i == 0 || i == 1 || i == 2 || i == 3 || i == 4 || i == 5 || i == 6 || i == 7 || i == 8 || i == 9 || i == 10);
        }
        tame_name_is_normal("font_family"@);
    }
    assert(normal_name("font_size"@) == "font_size"@) by {
        reveal_strlit("font_size");
        assert forall|i: int| 0 <= i < "font_size"@.len() implies is_tame(#[trigger] "font_size"@[i]) by {
            assert(i == 0 || i == 1 || i == 2 || i == 3 || i == 4 || i == 5 || i == 6 || i == 7 || i == 8);
        }
        tame_name_is_normal("font_size"@);
    }
    assert(normal_name("font_weight"@) == "font_weight"@) by {
        reveal_strlit("font_weight");
        assert forall|i: int| 0 <= i < "font_weight"@.len() implies is_tame(#[trigger] "font_weight"@[i]) by {
            assert(i == 0 || i == 1 || i == 2 || i == 3 || i == 4 || i == 5 || i == 6 || i == 7 || i == 8 || i == 9 || i == 10);
        }
        tame_name_is_normal("font_weight"@);
    }
    assert(normal_name("icon_size"@) == "icon_size"@) by {
        reveal_strlit("icon_size");
        assert forall|i: int| 0 <= i < "icon_size"@.len() implies is_tame(#[trigger] "icon_size"@[i]) by {
            assert(i == 0 || i == 1 || i == 2 || i == 3 || i == 4 || i == 5 || i == 6 || i == 7 || i == 8);
        }
        tame_name_is_normal("icon_size"@);
    }
    assert(normal_name("opacity"@) == "opacity"@) by {
        reveal_strlit("opacity");
        assert forall|i: int| 0 <= i < "opacity"@.len() implies is_tame(#[trigger] "opacity"@[i]) by {
            assert(i == 0 || i == 1 || i == 2 || i == 3 || i == 4 || i == 5 || i == 6);
        }
        tame_name_is_normal("opacity"@);
    }
    assert(normal_name("touch_expansion"@) == "touch_expansion"@) by {
        reveal_strlit("touch_expansion");
        assert forall|i: int| 0 <= i < "touch_expansion"@.len() implies is_tame(#[trigger] "touch_expansion"@[i]) by {
            assert(i == 0 || i == 1 || i == 2 || i == 3 || i == 4 || i == 5 || i == 6 || i == 7 || i == 8 || i == 9 || i == 10 || i == 11 || i == 12 || i == 13 || i == 14);
        }
        tame_name_is_normal("touch_expansion"@);
    }
}

/// Whether a value is of a kind that a property takes. A token reference always is.
pub open spec fn accepts(name: Seq<char>, v: Value) -> bool {
    if v is Ref {
        true
    } else if name == "background"@ {
        color_value(v) is Some
    } else if name == "foreground"@ {
        color_value(v) is Some
    } else if name == "border_color"@ {
        color_value(v) is Some
    } else if name == "border_width"@ {
        float_value(v) is Some
    } else if name == "border_radius"@ {
        float_value(v) is Some
    } else if name == "padding_horizontal"@ {
        float_value(v) is Some
    } else if name == "padding_vertical"@ {
        float_value(v) is Some
    } else if name == "min_height"@ {
        float_value(v) is Some
    } else if name == "min_width"@ {
        float_value(v) is Some
    } else if name == "font_family"@ {
        text_value(v) is Some
    } else if name == "font_size"@ {
        float_value(v) is Some
    } else if name == "font_weight"@ {
        int_value(v) is Some
    } else if name == "icon_size"@ {
        float_value(v) is Some
    } else if name == "opacity"@ {
        float_value(v) is Some
    } else if name == "touch_expansion"@ {
        float_value(v) is Some
    } else {
        true
    }
}

/// The style with a property given as a token reference: any value it had is dropped.
pub open spec fn with_reference(s: Style, name: Seq<char>, path: Seq<char>) -> Style {
    let refs = s.token_refs.insert(name, path);
    if name == "background"@ {
        Style { background: None, token_refs: refs, ..s }
    } else if name == "foreground"@ {
        Style { foreground: None, token_refs: refs, ..s }
    } else if name == "border_color"@ {
        Style { border_color: None, token_refs: refs, ..s }
    } else if name == "border_width"@ {
        Style { border_width: None, token_refs: refs, ..s }
    } else if name == "border_radius"@ {
        Style { border_radius: None, token_refs: refs, ..s }
    } else if name == "padding_horizontal"@ {
        Style { padding_horizontal: None, token_refs: refs, ..s }
    } else if name == "padding_vertical"@ {
        Style { padding_vertical: None, token_refs: refs, ..s }
    } else if name == "min_height"@ {
        Style { min_height: None, token_refs: refs, ..s }
    } else if name == "min_width"@ {
        Style { min_width: None, token_refs: refs, ..s }
    } else if name == "font_family"@ {
        Style { font_family: None, token_refs: refs, ..s }
    } else if name == "font_size"@ {
        Style { font_size: None, token_refs: refs, ..s }
    } else if name == "font_weight"@ {
        Style { font_weight: None, token_refs: refs, ..s }
    } else if name == "icon_size"@ {
        Style { icon_size: None, token_refs: refs, ..s }
    } else if name == "opacity"@ {
        Style { opacity: None, token_refs: refs, ..s }
    } else if name == "touch_expansion"@ {
        Style { touch_expansion: None, token_refs: refs, ..s }
    } else {
        Style { extra: s.extra.remove(name), token_refs: refs, ..s }
    }
}

/// The style with a property given a value: any token reference it had is dropped.
pub open spec fn with_value(s: Style, name: Seq<char>, v: Value) -> Style {
    let refs = s.token_refs.remove(name);
    if name == "background"@ {
        Style { background: color_value(v), token_refs: refs, ..s }
    } else if name == "foreground"@ {
        Style { foreground: color_value(v), token_refs: refs, ..s }
    } else if name == "border_color"@ {
        Style { border_color: color_value(v), token_refs: refs, ..s }
    } else if name == "border_width"@ {
        Style { border_width: float_value(v), token_refs: refs, ..s }
    } else if name == "border_radius"@ {
        Style { border_radius: float_value(v), token_refs: refs, ..s }
    } else if name == "padding_horizontal"@ {
        Style { padding_horizontal: float_value(v), token_refs: refs, ..s }
    } else if name == "padding_vertical"@ {
        Style { padding_vertical: float_value(v), token_refs: refs, ..s }
    } else if name == "min_height"@ {
        Style { min_height: float_value(v), token_refs: refs, ..s }
    } else if name == "min_width"@ {
        Style { min_width: float_value(v), token_refs: refs, ..s }
    } else if name == "font_family"@ {
        Style { font_family: text_value(v), token_refs: refs, ..s }
    } else if name == "font_size"@ {
        Style { font_size: float_value(v), token_refs: refs, ..s }
    } else if name == "font_weight"@ {
        Style { font_weight: int_value(v), token_refs: refs, ..s }
    } else if name == "icon_size"@ {
        Style { icon_size: float_value(v), token_refs: refs, ..s }
    } else if name == "opacity"@ {
        Style { opacity: float_value(v), token_refs: refs, ..s }
    } else if name == "touch_expansion"@ {
        Style { touch_expansion: float_value(v), token_refs: refs, ..s }
    } else {
        Style { extra: s.extra.insert(name, v), token_refs: refs, ..s }
    }
}

/// The style with a property set.
pub open spec fn with_prop(s: Style, name: Seq<char>, v: Value) -> Style {
    match v {
        Value::Ref(path) => with_reference(s, name, path),
        _ => with_value(s, name, v),
    }
}

fn set_reference(style: &mut StyleProps, name: String, path: String)
    ensures
        final(style)@ == with_reference(old(style)@, name@, path@),
{
    if text_eq(name.as_str(), "background") {
        style.background = None;
    } else if text_eq(name.as_str(), "foreground") {
        style.foreground = None;
    } else if text_eq(name.as_str(), "border_color") {
        style.border_color = None;
    } else if text_eq(name.as_str(), "border_width") {
        style.border_width = None;
    } else if text_eq(name.as_str(), "border_radius") {
        style.border_radius = None;
    } else if text_eq(name.as_str(), "padding_horizontal") {
        style.padding_horizontal = None;
    } else if text_eq(name.as_str(), "padding_vertical") {
        style.padding_vertical = None;
    } else if text_eq(name.as_str(), "min_height") {
        style.min_height = None;
    } else if text_eq(name.as_str(), "min_width") {
        style.min_width = None;
    } else if text_eq(name.as_str(), "font_family") {
        style.font_family = None;
    } else if text_eq(name.as_str(), "font_size") {
        style.font_size = None;
    } else if text_eq(name.as_str(), "font_weight") {
        style.font_weight = None;
    } else if text_eq(name.as_str(), "icon_size") {
        style.icon_size = None;
    } else if text_eq(name.as_str(), "opacity") {
        style.opacity = None;
    } else if text_eq(name.as_str(), "touch_expansion") {
        style.touch_expansion = None;
    } else {
        style.extra.remove(name.as_str());
    }
    style.token_refs.insert(name, path);
}

/// Set a style property to a value or a token reference.
pub fn set_style_prop(style: &mut StyleProps, prop_name: &str, value: ThemeValue)
    requires
        accepts(normal_name(prop_name@), value@),
    ensures
        final(style)@ == with_prop(old(style)@, normal_name(prop_name@), value@),
{
    let name = normalize_prop_name(prop_name);
    if let ThemeValue::TokenRef(path) = value {
        set_reference(style, name, path);
        return;
    }
    style.token_refs.remove(name.as_str());
    if text_eq(name.as_str(), "background") {
        style.background = Some(expect_color(value));
    } else if text_eq(name.as_str(), "foreground") {
        style.foreground = Some(expect_color(value));
    } else if text_eq(name.as_str(), "border_color") {
        style.border_color = Some(expect_color(value));
    } else if text_eq(name.as_str(), "border_width") {
        style.border_width = Some(expect_float(value));
    } else if text_eq(name.as_str(), "border_radius") {
        style.border_radius = Some(expect_float(value));
    } else if text_eq(name.as_str(), "padding_horizontal") {
        style.padding_horizontal = Some(expect_float(value));
    } else if text_eq(name.as_str(), "padding_vertical") {
        style.padding_vertical = Some(expect_float(value));
    } else if text_eq(name.as_str(), "min_height") {
        style.min_height = Some(expect_float(value));
    } else if text_eq(name.as_str(), "min_width") {
        style.min_width = Some(expect_float(value));
    } else if text_eq(name.as_str(), "font_family") {
        style.font_family = Some(expect_string(value));
    } else if text_eq(name.as_str(), "font_size") {
        style.font_size = Some(expect_float(value));
    } else if text_eq(name.as_str(), "font_weight") {
        style.font_weight = Some(expect_int(value));
    } else if text_eq(name.as_str(), "icon_size") {
        style.icon_size = Some(expect_float(value));
    } else if text_eq(name.as_str(), "opacity") {
        style.opacity = Some(expect_float(value));
    } else if text_eq(name.as_str(), "touch_expansion") {
        style.touch_expansion = Some(expect_float(value));
    } else {
        let extra_value = match value {
            ThemeValue::Color(c) => StyleValue::Color(c),
            ThemeValue::Float(number) => StyleValue::Float(number),
            ThemeValue::Int(number) => StyleValue::Int(number),
            ThemeValue::Bool(flag) => StyleValue::Bool(flag),
            ThemeValue::String(text) => StyleValue::String(text),
            ThemeValue::TokenRef(text) => StyleValue::String(text),
        };
        style.extra.insert(name, extra_value);
    }
}

/// The extra properties do not use the names of standard ones.
pub open spec fn plain_extra(s: Style) -> bool {
    forall|k: Seq<char>| #[trigger] s.extra.dom().contains(k) ==> !is_standard(k)
}

/// No property has both a value and a token reference, and standard properties are not kept among
/// the extra ones.
pub open spec fn tidy(s: Style) -> bool {
    &&& plain_extra(s)
    &&& forall|k: Seq<char>| #[trigger]
        s.token_refs.dom().contains(k) ==> !has_standard_value(s, k) && !s.extra.dom().contains(k)
}

/// The standard values of a merged style.
pub proof fn merged_standard_value(s: Style, other: Style, k: Seq<char>)
    ensures
        has_standard_value(merged(s, other), k) <==> !other.token_refs.dom().contains(k) && (
        has_standard_value(s, k) || has_standard_value(other, k)),
{
    reveal(has_standard_value);
}

/// A value of a standard property is one of a standard property.
proof fn lemma_value_is_standard(s: Style, k: Seq<char>)
    ensures
        has_standard_value(s, k) ==> is_standard(k),
{
    reveal(has_standard_value);
    reveal(is_standard);
}

/// Merging a style that sets nothing changes nothing.
pub proof fn merge_empty_right(s: Style)
    ensures
        merged(s, empty_style()) == s,
{
    reveal(has_standard_value);
    assert(merged_extra(s, empty_style()) =~= s.extra);
    assert(merged_refs(s, empty_style()) =~= s.token_refs);
}

/// Over a style that sets nothing a tidy style stands as it is.
pub proof fn merge_empty_left(s: Style)
    requires
        tidy(s),
    ensures
        merged(empty_style(), s) == s,
{
    reveal(has_standard_value);
    assert(merged_extra(empty_style(), s) =~= s.extra);
    assert(merged_refs(empty_style(), s) =~= s.token_refs);
}

/// Merging the same style twice is merging it once.
pub proof fn merge_idempotent(s: Style, other: Style)
    ensures
        merged(merged(s, other), other) == merged(s, other),
{
    let m = merged(s, other);
    assert(merged_extra(m, other) =~= m.extra);
    assert(merged_refs(m, other) =~= m.token_refs);
}

/// It does not matter in which order three styles are put together, only which is over which.
pub proof fn merge_associative(a: Style, b: Style, c: Style)
    requires
        plain_extra(b),
        plain_extra(c),
    ensures
        merged(merged(a, b), c) == merged(a, merged(b, c)),
{
    reveal(is_standard);
    let ab = merged(a, b);
    let bc = merged(b, c);
    let left = merged(ab, c);
    let right = merged(a, bc);
    assert forall|k: Seq<char>|
        #![trigger left.extra.dom().contains(k)]
        #![trigger left.extra[k]]
        left.extra.dom().contains(k) == right.extra.dom().contains(k) && (left.extra.dom().contains(
            k,
        ) ==> left.extra[k] == right.extra[k]) by {
        lemma_merge_extra_at(a, b, c, k);
    }
    assert(left.extra =~= right.extra);
    assert forall|k: Seq<char>|
        #![trigger left.token_refs.dom().contains(k)]
        #![trigger left.token_refs[k]]
        left.token_refs.dom().contains(k) == right.token_refs.dom().contains(k) && (
        left.token_refs.dom().contains(k) ==> left.token_refs[k] == right.token_refs[k]) by {
        merged_standard_value(b, c, k);
        lemma_value_is_standard(b, k);
        lemma_value_is_standard(c, k);
    }
    assert(left.token_refs =~= right.token_refs);
    lemma_merge_fields(a, b, c);
}

proof fn lemma_merge_extra_at(a: Style, b: Style, c: Style, k: Seq<char>)
    requires
        plain_extra(b),
        plain_extra(c),
    ensures
        merged_extra(merged(a, b), c).dom().contains(k) == merged_extra(
            a,
            merged(b, c),
        ).dom().contains(k),
        merged_extra(merged(a, b), c).dom().contains(k) ==> merged_extra(merged(a, b), c)[k]
            == merged_extra(a, merged(b, c))[k],
{
    merged_standard_value(b, c, k);
    lemma_value_is_standard(b, k);
    lemma_value_is_standard(c, k);
}

proof fn lemma_merge_field<T>(a: Option<T>, b: Option<T>, c: Option<T>, bs: Style, cs: Style, name: Seq<char>)
    requires
        is_standard(name),
        plain_extra(cs),
        c is Some ==> has_standard_value(cs, name),
        c is None ==> !has_standard_value(cs, name),
    ensures
        merged_field(
            merged_field(a, b, bs.token_refs.dom().contains(name)),
            c,
            cs.token_refs.dom().contains(name),
        ) == merged_field(
            a,
            merged_field(b, c, cs.token_refs.dom().contains(name)),
            merged_refs(bs, cs).dom().contains(name),
        ),
{
}

#[verifier::spinoff_prover]
proof fn lemma_merge_fields(a: Style, b: Style, c: Style)
    requires
        plain_extra(c),
    ensures
        merged(merged(a, b), c).background == merged(a, merged(b, c)).background,
        merged(merged(a, b), c).foreground == merged(a, merged(b, c)).foreground,
        merged(merged(a, b), c).border_color == merged(a, merged(b, c)).border_color,
        merged(merged(a, b), c).border_width == merged(a, merged(b, c)).border_width,
        merged(merged(a, b), c).border_radius == merged(a, merged(b, c)).border_radius,
        merged(merged(a, b), c).padding_horizontal == merged(a, merged(b, c)).padding_horizontal,
        merged(merged(a, b), c).padding_vertical == merged(a, merged(b, c)).padding_vertical,
        merged(merged(a, b), c).min_height == merged(a, merged(b, c)).min_height,
        merged(merged(a, b), c).min_width == merged(a, merged(b, c)).min_width,
        merged(merged(a, b), c).font_family == merged(a, merged(b, c)).font_family,
        merged(merged(a, b), c).font_size == merged(a, merged(b, c)).font_size,
        merged(merged(a, b), c).font_weight == merged(a, merged(b, c)).font_weight,
        merged(merged(a, b), c).icon_size == merged(a, merged(b, c)).icon_size,
        merged(merged(a, b), c).opacity == merged(a, merged(b, c)).opacity,
        merged(merged(a, b), c).touch_expansion == merged(a, merged(b, c)).touch_expansion,
{
    standard_names_differ();

    assert(is_standard("background"@)) by {
        reveal(is_standard);
    }
    assert(has_standard_value(c, "background"@) <==> c.background is Some) by {
        reveal(has_standard_value);
    }
    lemma_merge_field(a.background, b.background, c.background, b, c, "background"@);
    assert(is_standard("foreground"@)) by {
        reveal(is_standard);
    }
    assert(has_standard_value(c, "foreground"@) <==> c.foreground is Some) by {
        reveal(has_standard_value);
    }
    lemma_merge_field(a.foreground, b.foreground, c.foreground, b, c, "foreground"@);
    assert(is_standard("border_color"@)) by {
        reveal(is_standard);
    }
    assert(has_standard_value(c, "border_color"@) <==> c.border_color is Some) by {
        reveal(has_standard_value);
    }
    lemma_merge_field(a.border_color, b.border_color, c.border_color, b, c, "border_color"@);
    assert(is_standard("border_width"@)) by {
        reveal(is_standard);
    }
    assert(has_standard_value(c, "border_width"@) <==> c.border_width is Some) by {
        reveal(has_standard_value);
    }
    lemma_merge_field(a.border_width, b.border_width, c.border_width, b, c, "border_width"@);
    assert(is_standard("border_radius"@)) by {
        reveal(is_standard);
    }
    assert(has_standard_value(c, "border_radius"@) <==> c.border_radius is Some) by {
        reveal(has_standard_value);
    }
    lemma_merge_field(a.border_radius, b.border_radius, c.border_radius, b, c, "border_radius"@);
    assert(is_standard("padding_horizontal"@)) by {
        reveal(is_standard);
    }
    assert(has_standard_value(c, "padding_horizontal"@) <==> c.padding_horizontal is Some) by {
        reveal(has_standard_value);
    }
    lemma_merge_field(a.padding_horizontal, b.padding_horizontal, c.padding_horizontal, b, c, "padding_horizontal"@);
    assert(is_standard("padding_vertical"@)) by {
        reveal(is_standard);
    }
    assert(has_standard_value(c, "padding_vertical"@) <==> c.padding_vertical is Some) by {
        reveal(has_standard_value);
    }
    lemma_merge_field(a.padding_vertical, b.padding_vertical, c.padding_vertical, b, c, "padding_vertical"@);
    assert(is_standard("min_height"@)) by {
        reveal(is_standard);
    }
    assert(has_standard_value(c, "min_height"@) <==> c.min_height is Some) by {
        reveal(has_standard_value);
    }
    lemma_merge_field(a.min_height, b.min_height, c.min_height, b, c, "min_height"@);
    assert(is_standard("min_width"@)) by {
        reveal(is_standard);
    }
    assert(has_standard_value(c, "min_width"@) <==> c.min_width is Some) by {
        reveal(has_standard_value);
    }
    lemma_merge_field(a.min_width, b.min_width, c.min_width, b, c, "min_width"@);
    assert(is_standard("font_family"@)) by {
        reveal(is_standard);
    }
    assert(has_standard_value(c, "font_family"@) <==> c.font_family is Some) by {
        reveal(has_standard_value);
    }
    lemma_merge_field(a.font_family, b.font_family, c.font_family, b, c, "font_family"@);
    assert(is_standard("font_size"@)) by {
        reveal(is_standard);
    }
    assert(has_standard_value(c, "font_size"@) <==> c.font_size is Some) by {
        reveal(has_standard_value);
    }
    lemma_merge_field(a.font_size, b.font_size, c.font_size, b, c, "font_size"@);
    assert(is_standard("font_weight"@)) by {
        reveal(is_standard);
    }
    assert(has_standard_value(c, "font_weight"@) <==> c.font_weight is Some) by {
        reveal(has_standard_value);
    }
    lemma_merge_field(a.font_weight, b.font_weight, c.font_weight, b, c, "font_weight"@);
    assert(is_standard("icon_size"@)) by {
        reveal(is_standard);
    }
    assert(has_standard_value(c, "icon_size"@) <==> c.icon_size is Some) by {
        reveal(has_standard_value);
    }
    lemma_merge_field(a.icon_size, b.icon_size, c.icon_size, b, c, "icon_size"@);
    assert(is_standard("opacity"@)) by {
        reveal(is_standard);
    }
    assert(has_standard_value(c, "opacity"@) <==> c.opacity is Some) by {
        reveal(has_standard_value);
    }
    lemma_merge_field(a.opacity, b.opacity, c.opacity, b, c, "opacity"@);
    assert(is_standard("touch_expansion"@)) by {
        reveal(is_standard);
    }
    assert(has_standard_value(c, "touch_expansion"@) <==> c.touch_expansion is Some) by {
        reveal(has_standard_value);
    }
    lemma_merge_field(a.touch_expansion, b.touch_expansion, c.touch_expansion, b, c, "touch_expansion"@);
}

/// A merge keeps styles tidy.
pub proof fn merge_tidy(s: Style, other: Style)
    requires
        tidy(s),
        tidy(other),
    ensures
        tidy(merged(s, other)),
{
    let m = merged(s, other);
    assert forall|k: Seq<char>| #[trigger] m.token_refs.dom().contains(k) implies !has_standard_value(
        m,
        k,
    ) && !m.extra.dom().contains(k) by {
        merged_standard_value(s, other, k);
        lemma_value_is_standard(s, k);
        lemma_value_is_standard(other, k);
    }
}

/// Setting a property keeps a style tidy.
pub proof fn set_tidy(s: Style, name: Seq<char>, v: Value)
    requires
        tidy(s),
        accepts(name, v),
    ensures
        tidy(with_prop(s, name, v)),
{
    let m = with_prop(s, name, v);
    assert forall|k: Seq<char>| #[trigger] m.extra.dom().contains(k) implies !is_standard(k) by {
        reveal(is_standard);
    }
    assert forall|k: Seq<char>| #[trigger] m.token_refs.dom().contains(k) implies !has_standard_value(
        m,
        k,
    ) && !m.extra.dom().contains(k) by {
        lemma_set_value(s, name, v, k);
        reveal(is_standard);
    }
}

#[verifier::spinoff_prover]
proof fn lemma_set_value(s: Style, name: Seq<char>, v: Value, k: Seq<char>)
    ensures
        k != name ==> has_standard_value(with_prop(s, name, v), k) == has_standard_value(s, k),
        v is Ref ==> !has_standard_value(with_prop(s, name, v), name),
{
    standard_names_differ();
    reveal(has_standard_value);
}

} // verus!
