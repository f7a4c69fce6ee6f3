//! A theme's tokens wherever they can be read: in the tokens that are exported, in the token store and
//! in the panel. All of them give a token the value that the theme has for it.

use vstd::prelude::*;
use crate::color;
use crate::export_theme;
use crate::live::{self, GlobalKind, PanelModel};
use crate::store::{self, Store, Token};
use crate::text;
use crate::textmap;
use crate::token_theme::{BorderWidths, FontWeights, Palette, RadiiModel, SizeScale, Spacing, TokenModel, TypographyModel};
use crate::tokens::{self, Tokens};
use crate::value::Value;
use crate::scalar::Scalar;

verus! {

// ---------------------------------------------------------------------------------------------
// Reading
// ---------------------------------------------------------------------------------------------
/// What a token set has for a category and a key.
#[verifier::opaque]
pub open spec fn in_set(t: Tokens, category: Seq<char>, key: Seq<char>) -> Option<Value> {
    if t.dom().contains(category) && t[category].dom().contains(key) {
        Some(t[category][key])
    } else {
        None
    }
}

/// What a token of a store stands for: a color where it is one of the colors, a reference where it is
/// one of the radii, else the number or text that it is.
pub open spec fn stored_value(category: Seq<char>, v: Token) -> Option<Value> {
    match v {
        Token::Text(s) => if category == "color"@ {
            match color::color_of_loose_hex(s) {
                Some(c) => Some(Value::Color(c)),
                None => None,
            }
        } else if category == "radius"@ {
            Some(Value::Ref(s))
        } else {
            Some(Value::Text(s))
        },
        Token::Number(n) => Some(Value::Float(n.single)),
        Token::Int(i) => if i32::MIN <= i <= i32::MAX {
            Some(Value::Int(i as i32))
        } else {
            None
        },
        Token::Bool(b) => Some(Value::Bool(b)),
    }
}

/// What a store has for a category and a key.
#[verifier::opaque]
pub open spec fn in_store(t: Store, category: Seq<char>, key: Seq<char>) -> Option<Value> {
    match textmap::at2(t, category, key) {
        Some(v) => stored_value(category, v),
        None => None,
    }
}

proof fn lemma_stored(t: Tokens, category: Seq<char>, key: Seq<char>, v: Value)
    ensures
        in_set(tokens::stored(t, category, key, v), category, key) == Some(v),
        forall|c: Seq<char>, k: Seq<char>|
            c != category || k != key ==> #[trigger] in_set(tokens::stored(t, category, key, v), c, k) == in_set(
                t,
                c,
                k,
            ),
{
    reveal(tokens::stored);
    reveal(in_set);
}

proof fn lemma_put(t: Store, category: Seq<char>, key: Seq<char>, v: Token)
    ensures
        in_store(textmap::put2(t, category, key, v), category, key) == stored_value(category, v),
        forall|c: Seq<char>, k: Seq<char>|
            c != category || k != key ==> #[trigger] in_store(textmap::put2(t, category, key, v), c, k) == in_store(
                t,
                c,
                k,
            ),
{
    reveal(textmap::put2);
    reveal(in_store);
}

// ---------------------------------------------------------------------------------------------
// Groups
// ---------------------------------------------------------------------------------------------
proof fn lemma_marked_categories()
    ensures
        "color"@ != "radius"@,
        "color"@ != "font"@,
        "color"@ != "fontSize"@,
        "color"@ != "spacing"@,
        "color"@ != "borderWidth"@,
        "color"@ != "fontWeight"@,
        "radius"@ != "font"@,
        "radius"@ != "fontSize"@,
        "radius"@ != "spacing"@,
        "radius"@ != "borderWidth"@,
        "radius"@ != "fontWeight"@,
        "font"@ != "fontSize"@,
        "font"@ != "spacing"@,
        "font"@ != "borderWidth"@,
        "font"@ != "fontWeight"@,
        "fontSize"@ != "spacing"@,
        "fontSize"@ != "borderWidth"@,
        "fontSize"@ != "fontWeight"@,
        "spacing"@ != "borderWidth"@,
        "spacing"@ != "fontWeight"@,
        "borderWidth"@ != "fontWeight"@,
{
    reveal_strlit("color");
    assert("color"@.len() == 5);
    reveal_strlit("radius");
    assert("radius"@.len() == 6);
    reveal_strlit("font");
    assert("font"@.len() == 4);
    reveal_strlit("fontSize");
    assert("fontSize"@.len() == 8);
    reveal_strlit("spacing");
    assert("spacing"@.len() == 7);
    reveal_strlit("borderWidth");
    assert("borderWidth"@.len() == 11);
    reveal_strlit("fontWeight");
    assert("fontWeight"@.len() == 10);
}

/// Whether a token set has the spacing.
pub open spec fn set_has_spacing(t: Tokens, s: Spacing) -> bool {
    &&& in_set(t, "spacing"@, "xs"@) == Some(Value::Float(s.xs))
    &&& in_set(t, "spacing"@, "sm"@) == Some(Value::Float(s.sm))
    &&& in_set(t, "spacing"@, "md"@) == Some(Value::Float(s.md))
    &&& in_set(t, "spacing"@, "lg"@) == Some(Value::Float(s.lg))
    &&& in_set(t, "spacing"@, "xl"@) == Some(Value::Float(s.xl))
}

/// Whether a token store has the spacing.
pub open spec fn store_has_spacing(t: Store, s: Spacing) -> bool {
    &&& in_store(t, "spacing"@, "xs"@) == Some(Value::Float(s.xs))
    &&& in_store(t, "spacing"@, "sm"@) == Some(Value::Float(s.sm))
    &&& in_store(t, "spacing"@, "md"@) == Some(Value::Float(s.md))
    &&& in_store(t, "spacing"@, "lg"@) == Some(Value::Float(s.lg))
    &&& in_store(t, "spacing"@, "xl"@) == Some(Value::Float(s.xl))
}

proof fn lemma_spacing_keys()
    ensures
        "xs"@ != "sm"@,
        "xs"@ != "md"@,
        "xs"@ != "lg"@,
        "xs"@ != "xl"@,
        "sm"@ != "md"@,
        "sm"@ != "lg"@,
        "sm"@ != "xl"@,
        "md"@ != "lg"@,
        "md"@ != "xl"@,
        "lg"@ != "xl"@,
{
    reveal_strlit("xs");
    assert("xs"@.len() == 2);
    reveal_strlit("sm");
    assert("sm"@.len() == 2);
    reveal_strlit("md");
    assert("md"@.len() == 2);
    reveal_strlit("lg");
    assert("lg"@.len() == 2);
    reveal_strlit("xl");
    assert("xl"@.len() == 2);
    assert("xs"@[0] != "sm"@[0]);
    assert("xs"@[0] != "md"@[0]);
    assert("xs"@[0] != "lg"@[0]);
    assert("xs"@[1] != "xl"@[1]);
    assert("sm"@[0] != "md"@[0]);
    assert("sm"@[0] != "lg"@[0]);
    assert("sm"@[0] != "xl"@[0]);
    assert("md"@[0] != "lg"@[0]);
    assert("md"@[0] != "xl"@[0]);
    assert("lg"@[0] != "xl"@[0]);
}

/// The spacing are found where they were put, and no other category is touched.
pub proof fn set_gets_spacing(t: Tokens, s: Spacing)
    ensures
        set_has_spacing(s.exported(t), s),
        forall|c: Seq<char>, k: Seq<char>|
            c != "spacing"@ ==> #[trigger] in_set(s.exported(t), c, k) == in_set(t, c, k),
{
    lemma_spacing_keys();
    let t0 = t;
    lemma_stored(t0, "spacing"@, "xs"@, Value::Float(s.xs));
    let t1 = tokens::stored(t0, "spacing"@, "xs"@, Value::Float(s.xs));
    lemma_stored(t1, "spacing"@, "sm"@, Value::Float(s.sm));
    let t2 = tokens::stored(t1, "spacing"@, "sm"@, Value::Float(s.sm));
    lemma_stored(t2, "spacing"@, "md"@, Value::Float(s.md));
    let t3 = tokens::stored(t2, "spacing"@, "md"@, Value::Float(s.md));
    lemma_stored(t3, "spacing"@, "lg"@, Value::Float(s.lg));
    let t4 = tokens::stored(t3, "spacing"@, "lg"@, Value::Float(s.lg));
    lemma_stored(t4, "spacing"@, "xl"@, Value::Float(s.xl));
    let t5 = tokens::stored(t4, "spacing"@, "xl"@, Value::Float(s.xl));
    assert(s.exported(t) == t5);
}

/// The spacing are found where they were put, and no other category is touched.
pub proof fn store_gets_spacing(t: Store, s: Spacing)
    ensures
        store_has_spacing(s.in_store(t), s),
        forall|c: Seq<char>, k: Seq<char>|
            c != "spacing"@ ==> #[trigger] in_store(s.in_store(t), c, k) == in_store(t, c, k),
{
    lemma_spacing_keys();
    lemma_marked_categories();
    let t0 = t;
    lemma_put(t0, "spacing"@, "xs"@, Token::Number(store::single_measure(s.xs)));
    let t1 = textmap::put2(t0, "spacing"@, "xs"@, Token::Number(store::single_measure(s.xs)));
    lemma_put(t1, "spacing"@, "sm"@, Token::Number(store::single_measure(s.sm)));
    let t2 = textmap::put2(t1, "spacing"@, "sm"@, Token::Number(store::single_measure(s.sm)));
    lemma_put(t2, "spacing"@, "md"@, Token::Number(store::single_measure(s.md)));
    let t3 = textmap::put2(t2, "spacing"@, "md"@, Token::Number(store::single_measure(s.md)));
    lemma_put(t3, "spacing"@, "lg"@, Token::Number(store::single_measure(s.lg)));
    let t4 = textmap::put2(t3, "spacing"@, "lg"@, Token::Number(store::single_measure(s.lg)));
    lemma_put(t4, "spacing"@, "xl"@, Token::Number(store::single_measure(s.xl)));
    let t5 = textmap::put2(t4, "spacing"@, "xl"@, Token::Number(store::single_measure(s.xl)));
    assert(s.in_store(t) == t5);
}

/// Whether a token set has the sizes of a scale.
pub open spec fn set_has_scale(t: Tokens, s: SizeScale, category: Seq<char>) -> bool {
    &&& in_set(t, category, "sm"@) == Some(Value::Float(s.sm))
    &&& in_set(t, category, "md"@) == Some(Value::Float(s.md))
    &&& in_set(t, category, "lg"@) == Some(Value::Float(s.lg))
}

/// Whether a token store has the sizes of a scale.
pub open spec fn store_has_scale(t: Store, s: SizeScale, category: Seq<char>) -> bool {
    &&& in_store(t, category, "sm"@) == Some(Value::Float(s.sm))
    &&& in_store(t, category, "md"@) == Some(Value::Float(s.md))
    &&& in_store(t, category, "lg"@) == Some(Value::Float(s.lg))
}

proof fn lemma_scale_keys()
    ensures
        "sm"@ != "md"@,
        "sm"@ != "lg"@,
        "md"@ != "lg"@,
{
    reveal_strlit("sm");
    assert("sm"@.len() == 2);
    reveal_strlit("md");
    assert("md"@.len() == 2);
    reveal_strlit("lg");
    assert("lg"@.len() == 2);
    assert("sm"@[0] != "md"@[0]);
    assert("sm"@[0] != "lg"@[0]);
    assert("md"@[0] != "lg"@[0]);
}

/// The sizes of a scale are found where they were put, and no other category is touched.
pub proof fn set_gets_scale(t: Tokens, s: SizeScale, category: Seq<char>)
    ensures
        set_has_scale(s.exported(t, category), s, category),
        forall|c: Seq<char>, k: Seq<char>|
            c != category ==> #[trigger] in_set(s.exported(t, category), c, k) == in_set(t, c, k),
{
    lemma_scale_keys();
    let t0 = t;
    lemma_stored(t0, category, "sm"@, Value::Float(s.sm));
    let t1 = tokens::stored(t0, category, "sm"@, Value::Float(s.sm));
    lemma_stored(t1, category, "md"@, Value::Float(s.md));
    let t2 = tokens::stored(t1, category, "md"@, Value::Float(s.md));
    lemma_stored(t2, category, "lg"@, Value::Float(s.lg));
    let t3 = tokens::stored(t2, category, "lg"@, Value::Float(s.lg));
    assert(s.exported(t, category) == t3);
}

/// The sizes of a scale are found where they were put, and no other category is touched.
pub proof fn store_gets_scale(t: Store, s: SizeScale, category: Seq<char>)
    requires
        category != "color"@,
    ensures
        store_has_scale(s.in_store(t, category), s, category),
        forall|c: Seq<char>, k: Seq<char>|
            c != category ==> #[trigger] in_store(s.in_store(t, category), c, k) == in_store(t, c, k),
{
    lemma_scale_keys();
    lemma_marked_categories();
    let t0 = t;
    lemma_put(t0, category, "sm"@, Token::Number(store::single_measure(s.sm)));
    let t1 = textmap::put2(t0, category, "sm"@, Token::Number(store::single_measure(s.sm)));
    lemma_put(t1, category, "md"@, Token::Number(store::single_measure(s.md)));
    let t2 = textmap::put2(t1, category, "md"@, Token::Number(store::single_measure(s.md)));
    lemma_put(t2, category, "lg"@, Token::Number(store::single_measure(s.lg)));
    let t3 = textmap::put2(t2, category, "lg"@, Token::Number(store::single_measure(s.lg)));
    assert(s.in_store(t, category) == t3);
}

/// Whether a token set has the border widths.
pub open spec fn set_has_border_widths(t: Tokens, s: BorderWidths) -> bool {
    &&& in_set(t, "borderWidth"@, "none"@) == Some(Value::Float(s.none))
    &&& in_set(t, "borderWidth"@, "sm"@) == Some(Value::Float(s.sm))
    &&& in_set(t, "borderWidth"@, "focus"@) == Some(Value::Float(s.focus))
}

/// Whether a token store has the border widths.
pub open spec fn store_has_border_widths(t: Store, s: BorderWidths) -> bool {
    &&& in_store(t, "borderWidth"@, "none"@) == Some(Value::Float(s.none))
    &&& in_store(t, "borderWidth"@, "sm"@) == Some(Value::Float(s.sm))
    &&& in_store(t, "borderWidth"@, "focus"@) == Some(Value::Float(s.focus))
}

proof fn lemma_border_widths_keys()
    ensures
        "none"@ != "sm"@,
        "none"@ != "focus"@,
        "sm"@ != "focus"@,
{
    reveal_strlit("none");
    assert("none"@.len() == 4);
    reveal_strlit("sm");
    assert("sm"@.len() == 2);
    reveal_strlit("focus");
    assert("focus"@.len() == 5);
}

/// The border widths are found where they were put, and no other category is touched.
pub proof fn set_gets_border_widths(t: Tokens, s: BorderWidths)
    ensures
        set_has_border_widths(s.exported(t), s),
        forall|c: Seq<char>, k: Seq<char>|
            c != "borderWidth"@ ==> #[trigger] in_set(s.exported(t), c, k) == in_set(t, c, k),
{
    lemma_border_widths_keys();
    let t0 = t;
    lemma_stored(t0, "borderWidth"@, "none"@, Value::Float(s.none));
    let t1 = tokens::stored(t0, "borderWidth"@, "none"@, Value::Float(s.none));
    lemma_stored(t1, "borderWidth"@, "sm"@, Value::Float(s.sm));
    let t2 = tokens::stored(t1, "borderWidth"@, "sm"@, Value::Float(s.sm));
    lemma_stored(t2, "borderWidth"@, "focus"@, Value::Float(s.focus));
    let t3 = tokens::stored(t2, "borderWidth"@, "focus"@, Value::Float(s.focus));
    assert(s.exported(t) == t3);
}

/// The border widths are found where they were put, and no other category is touched.
pub proof fn store_gets_border_widths(t: Store, s: BorderWidths)
    ensures
        store_has_border_widths(s.in_store(t), s),
        forall|c: Seq<char>, k: Seq<char>|
            c != "borderWidth"@ ==> #[trigger] in_store(s.in_store(t), c, k) == in_store(t, c, k),
{
    lemma_border_widths_keys();
    lemma_marked_categories();
    let t0 = t;
    lemma_put(t0, "borderWidth"@, "none"@, Token::Number(store::single_measure(s.none)));
    let t1 = textmap::put2(t0, "borderWidth"@, "none"@, Token::Number(store::single_measure(s.none)));
    lemma_put(t1, "borderWidth"@, "sm"@, Token::Number(store::single_measure(s.sm)));
    let t2 = textmap::put2(t1, "borderWidth"@, "sm"@, Token::Number(store::single_measure(s.sm)));
    lemma_put(t2, "borderWidth"@, "focus"@, Token::Number(store::single_measure(s.focus)));
    let t3 = textmap::put2(t2, "borderWidth"@, "focus"@, Token::Number(store::single_measure(s.focus)));
    assert(s.in_store(t) == t3);
}

/// Whether a token set has the font sizes and families.
pub open spec fn set_has_typography(t: Tokens, s: TypographyModel) -> bool {
    &&& in_set(t, "fontSize"@, "xs"@) == Some(Value::Float(s.size_xs))
    &&& in_set(t, "fontSize"@, "caption"@) == Some(Value::Float(s.size_caption))
    &&& in_set(t, "fontSize"@, "sm"@) == Some(Value::Float(s.size_sm))
    &&& in_set(t, "fontSize"@, "md"@) == Some(Value::Float(s.size_md))
    &&& in_set(t, "fontSize"@, "lg"@) == Some(Value::Float(s.size_lg))
    &&& in_set(t, "fontSize"@, "helper"@) == Some(Value::Float(s.size_helper))
    &&& in_set(t, "font"@, "primary"@) == Some(Value::Text(s.primary))
    &&& in_set(t, "font"@, "secondary"@) == Some(Value::Text(s.secondary))
    &&& in_set(t, "font"@, "tertiary"@) == Some(Value::Text(s.tertiary))
}

/// Whether a token store has the font sizes and families.
pub open spec fn store_has_typography(t: Store, s: TypographyModel) -> bool {
    &&& in_store(t, "fontSize"@, "xs"@) == Some(Value::Float(s.size_xs))
    &&& in_store(t, "fontSize"@, "caption"@) == Some(Value::Float(s.size_caption))
    &&& in_store(t, "fontSize"@, "sm"@) == Some(Value::Float(s.size_sm))
    &&& in_store(t, "fontSize"@, "md"@) == Some(Value::Float(s.size_md))
    &&& in_store(t, "fontSize"@, "lg"@) == Some(Value::Float(s.size_lg))
    &&& in_store(t, "fontSize"@, "helper"@) == Some(Value::Float(s.size_helper))
    &&& in_store(t, "font"@, "primary"@) == Some(Value::Text(s.primary))
    &&& in_store(t, "font"@, "secondary"@) == Some(Value::Text(s.secondary))
    &&& in_store(t, "font"@, "tertiary"@) == Some(Value::Text(s.tertiary))
}

proof fn lemma_typography_keys()
    ensures
        "xs"@ != "caption"@,
        "xs"@ != "sm"@,
        "xs"@ != "md"@,
        "xs"@ != "lg"@,
        "xs"@ != "helper"@,
        "xs"@ != "primary"@,
        "xs"@ != "secondary"@,
        "xs"@ != "tertiary"@,
        "xs"@ != "font"@,
        "xs"@ != "fontSize"@,
        "caption"@ != "sm"@,
        "caption"@ != "md"@,
        "caption"@ != "lg"@,
        "caption"@ != "helper"@,
        "caption"@ != "primary"@,
        "caption"@ != "secondary"@,
        "caption"@ != "tertiary"@,
        "caption"@ != "font"@,
        "caption"@ != "fontSize"@,
        "sm"@ != "md"@,
        "sm"@ != "lg"@,
        "sm"@ != "helper"@,
        "sm"@ != "primary"@,
        "sm"@ != "secondary"@,
        "sm"@ != "tertiary"@,
        "sm"@ != "font"@,
        "sm"@ != "fontSize"@,
        "md"@ != "lg"@,
        "md"@ != "helper"@,
        "md"@ != "primary"@,
        "md"@ != "secondary"@,
        "md"@ != "tertiary"@,
        "md"@ != "font"@,
        "md"@ != "fontSize"@,
        "lg"@ != "helper"@,
        "lg"@ != "primary"@,
        "lg"@ != "secondary"@,
        "lg"@ != "tertiary"@,
        "lg"@ != "font"@,
        "lg"@ != "fontSize"@,
        "helper"@ != "primary"@,
        "helper"@ != "secondary"@,
        "helper"@ != "tertiary"@,
        "helper"@ != "font"@,
        "helper"@ != "fontSize"@,
        "primary"@ != "secondary"@,
        "primary"@ != "tertiary"@,
        "primary"@ != "font"@,
        "primary"@ != "fontSize"@,
        "secondary"@ != "tertiary"@,
        "secondary"@ != "font"@,
        "secondary"@ != "fontSize"@,
        "tertiary"@ != "font"@,
        "tertiary"@ != "fontSize"@,
        "font"@ != "fontSize"@,
{
    reveal_strlit("xs");
    assert("xs"@.len() == 2);
    reveal_strlit("caption");
    assert("caption"@.len() == 7);
    reveal_strlit("sm");
    assert("sm"@.len() == 2);
    reveal_strlit("md");
    assert("md"@.len() == 2);
    reveal_strlit("lg");
    assert("lg"@.len() == 2);
    reveal_strlit("helper");
    assert("helper"@.len() == 6);
    reveal_strlit("primary");
    assert("primary"@.len() == 7);
    reveal_strlit("secondary");
    assert("secondary"@.len() == 9);
    reveal_strlit("tertiary");
    assert("tertiary"@.len() == 8);
    reveal_strlit("font");
    assert("font"@.len() == 4);
    reveal_strlit("fontSize");
    assert("fontSize"@.len() == 8);
    assert("xs"@[0] != "sm"@[0]);
    assert("xs"@[0] != "md"@[0]);
    assert("xs"@[0] != "lg"@[0]);
    assert("caption"@[0] != "primary"@[0]);
    assert("sm"@[0] != "md"@[0]);
    assert("sm"@[0] != "lg"@[0]);
    assert("md"@[0] != "lg"@[0]);
    assert("tertiary"@[0] != "fontSize"@[0]);
}

/// The font sizes and families are found where they were put, and no other category is touched.
pub proof fn set_gets_typography(t: Tokens, s: TypographyModel)
    ensures
        set_has_typography(s.exported(t), s),
        forall|c: Seq<char>, k: Seq<char>|
            c != "font"@ && c != "fontSize"@ ==> #[trigger] in_set(s.exported(t), c, k) == in_set(t, c, k),
{
    lemma_typography_keys();
    let t0 = t;
    lemma_stored(t0, "fontSize"@, "xs"@, Value::Float(s.size_xs));
    let t1 = tokens::stored(t0, "fontSize"@, "xs"@, Value::Float(s.size_xs));
    lemma_stored(t1, "fontSize"@, "caption"@, Value::Float(s.size_caption));
    let t2 = tokens::stored(t1, "fontSize"@, "caption"@, Value::Float(s.size_caption));
    lemma_stored(t2, "fontSize"@, "sm"@, Value::Float(s.size_sm));
    let t3 = tokens::stored(t2, "fontSize"@, "sm"@, Value::Float(s.size_sm));
    lemma_stored(t3, "fontSize"@, "md"@, Value::Float(s.size_md));
    let t4 = tokens::stored(t3, "fontSize"@, "md"@, Value::Float(s.size_md));
    lemma_stored(t4, "fontSize"@, "lg"@, Value::Float(s.size_lg));
    let t5 = tokens::stored(t4, "fontSize"@, "lg"@, Value::Float(s.size_lg));
    lemma_stored(t5, "fontSize"@, "helper"@, Value::Float(s.size_helper));
    let t6 = tokens::stored(t5, "fontSize"@, "helper"@, Value::Float(s.size_helper));
    lemma_stored(t6, "font"@, "primary"@, Value::Text(s.primary));
    let t7 = tokens::stored(t6, "font"@, "primary"@, Value::Text(s.primary));
    lemma_stored(t7, "font"@, "secondary"@, Value::Text(s.secondary));
    let t8 = tokens::stored(t7, "font"@, "secondary"@, Value::Text(s.secondary));
    lemma_stored(t8, "font"@, "tertiary"@, Value::Text(s.tertiary));
    let t9 = tokens::stored(t8, "font"@, "tertiary"@, Value::Text(s.tertiary));
    assert(s.exported(t) == t9);
}

/// The font sizes and families are found where they were put, and no other category is touched.
pub proof fn store_gets_typography(t: Store, s: TypographyModel)
    ensures
        store_has_typography(s.in_store(t), s),
        forall|c: Seq<char>, k: Seq<char>|
            c != "font"@ && c != "fontSize"@ ==> #[trigger] in_store(s.in_store(t), c, k) == in_store(t, c, k),
{
    lemma_typography_keys();
    lemma_marked_categories();
    let t0 = t;
    lemma_put(t0, "fontSize"@, "xs"@, Token::Number(store::single_measure(s.size_xs)));
    let t1 = textmap::put2(t0, "fontSize"@, "xs"@, Token::Number(store::single_measure(s.size_xs)));
    lemma_put(t1, "fontSize"@, "caption"@, Token::Number(store::single_measure(s.size_caption)));
    let t2 = textmap::put2(t1, "fontSize"@, "caption"@, Token::Number(store::single_measure(s.size_caption)));
    lemma_put(t2, "fontSize"@, "sm"@, Token::Number(store::single_measure(s.size_sm)));
    let t3 = textmap::put2(t2, "fontSize"@, "sm"@, Token::Number(store::single_measure(s.size_sm)));
    lemma_put(t3, "fontSize"@, "md"@, Token::Number(store::single_measure(s.size_md)));
    let t4 = textmap::put2(t3, "fontSize"@, "md"@, Token::Number(store::single_measure(s.size_md)));
    lemma_put(t4, "fontSize"@, "lg"@, Token::Number(store::single_measure(s.size_lg)));
    let t5 = textmap::put2(t4, "fontSize"@, "lg"@, Token::Number(store::single_measure(s.size_lg)));
    lemma_put(t5, "fontSize"@, "helper"@, Token::Number(store::single_measure(s.size_helper)));
    let t6 = textmap::put2(t5, "fontSize"@, "helper"@, Token::Number(store::single_measure(s.size_helper)));
    lemma_put(t6, "font"@, "primary"@, Token::Text(s.primary));
    let t7 = textmap::put2(t6, "font"@, "primary"@, Token::Text(s.primary));
    lemma_put(t7, "font"@, "secondary"@, Token::Text(s.secondary));
    let t8 = textmap::put2(t7, "font"@, "secondary"@, Token::Text(s.secondary));
    lemma_put(t8, "font"@, "tertiary"@, Token::Text(s.tertiary));
    let t9 = textmap::put2(t8, "font"@, "tertiary"@, Token::Text(s.tertiary));
    assert(s.in_store(t) == t9);
}

/// Whether a token set has the font weights.
pub open spec fn set_has_font_weights(t: Tokens, s: FontWeights) -> bool {
    &&& in_set(t, "fontWeight"@, "normal"@) == Some(Value::Int(s.normal))
    &&& in_set(t, "fontWeight"@, "medium"@) == Some(Value::Int(s.medium))
    &&& in_set(t, "fontWeight"@, "semibold"@) == Some(Value::Int(s.semibold))
    &&& in_set(t, "fontWeight"@, "bold"@) == Some(Value::Int(s.bold))
}

/// Whether a token store has the font weights.
pub open spec fn store_has_font_weights(t: Store, s: FontWeights) -> bool {
    &&& in_store(t, "fontWeight"@, "normal"@) == Some(Value::Int(s.normal))
    &&& in_store(t, "fontWeight"@, "medium"@) == Some(Value::Int(s.medium))
    &&& in_store(t, "fontWeight"@, "semibold"@) == Some(Value::Int(s.semibold))
    &&& in_store(t, "fontWeight"@, "bold"@) == Some(Value::Int(s.bold))
}

proof fn lemma_font_weights_keys()
    ensures
        "normal"@ != "medium"@,
        "normal"@ != "semibold"@,
        "normal"@ != "bold"@,
        "medium"@ != "semibold"@,
        "medium"@ != "bold"@,
        "semibold"@ != "bold"@,
{
    reveal_strlit("normal");
    assert("normal"@.len() == 6);
    reveal_strlit("medium");
    assert("medium"@.len() == 6);
    reveal_strlit("semibold");
    assert("semibold"@.len() == 8);
    reveal_strlit("bold");
    assert("bold"@.len() == 4);
    assert("normal"@[0] != "medium"@[0]);
}

/// The font weights are found where they were put, and no other category is touched.
pub proof fn set_gets_font_weights(t: Tokens, s: FontWeights)
    ensures
        set_has_font_weights(s.exported(t), s),
        forall|c: Seq<char>, k: Seq<char>|
            c != "fontWeight"@ ==> #[trigger] in_set(s.exported(t), c, k) == in_set(t, c, k),
{
    lemma_font_weights_keys();
    let t0 = t;
    lemma_stored(t0, "fontWeight"@, "normal"@, Value::Int(s.normal));
    let t1 = tokens::stored(t0, "fontWeight"@, "normal"@, Value::Int(s.normal));
    lemma_stored(t1, "fontWeight"@, "medium"@, Value::Int(s.medium));
    let t2 = tokens::stored(t1, "fontWeight"@, "medium"@, Value::Int(s.medium));
    lemma_stored(t2, "fontWeight"@, "semibold"@, Value::Int(s.semibold));
    let t3 = tokens::stored(t2, "fontWeight"@, "semibold"@, Value::Int(s.semibold));
    lemma_stored(t3, "fontWeight"@, "bold"@, Value::Int(s.bold));
    let t4 = tokens::stored(t3, "fontWeight"@, "bold"@, Value::Int(s.bold));
    assert(s.exported(t) == t4);
}

/// The font weights are found where they were put, and no other category is touched.
pub proof fn store_gets_font_weights(t: Store, s: FontWeights)
    ensures
        store_has_font_weights(s.in_store(t), s),
        forall|c: Seq<char>, k: Seq<char>|
            c != "fontWeight"@ ==> #[trigger] in_store(s.in_store(t), c, k) == in_store(t, c, k),
{
    lemma_font_weights_keys();
    lemma_marked_categories();
    let t0 = t;
    lemma_put(t0, "fontWeight"@, "normal"@, Token::Int(s.normal as i64));
    let t1 = textmap::put2(t0, "fontWeight"@, "normal"@, Token::Int(s.normal as i64));
    lemma_put(t1, "fontWeight"@, "medium"@, Token::Int(s.medium as i64));
    let t2 = textmap::put2(t1, "fontWeight"@, "medium"@, Token::Int(s.medium as i64));
    lemma_put(t2, "fontWeight"@, "semibold"@, Token::Int(s.semibold as i64));
    let t3 = textmap::put2(t2, "fontWeight"@, "semibold"@, Token::Int(s.semibold as i64));
    lemma_put(t3, "fontWeight"@, "bold"@, Token::Int(s.bold as i64));
    let t4 = textmap::put2(t3, "fontWeight"@, "bold"@, Token::Int(s.bold as i64));
    assert(s.in_store(t) == t4);
}

/// Whether a token set has the radii, the default one by reference.
pub open spec fn set_has_radii(t: Tokens, s: RadiiModel) -> bool {
    &&& in_set(t, "radius"@, "sm"@) == Some(Value::Float(s.sm))
    &&& in_set(t, "radius"@, "md"@) == Some(Value::Float(s.md))
    &&& in_set(t, "radius"@, "lg"@) == Some(Value::Float(s.lg))
    &&& in_set(t, "radius"@, "full"@) == Some(Value::Float(s.full))
    &&& in_set(t, "radius"@, "default"@) == Some(Value::Ref("radius."@ + s.default_key))
}

/// Whether a token store has the radii, the default one by reference.
pub open spec fn store_has_radii(t: Store, s: RadiiModel) -> bool {
    &&& in_store(t, "radius"@, "sm"@) == Some(Value::Float(s.sm))
    &&& in_store(t, "radius"@, "md"@) == Some(Value::Float(s.md))
    &&& in_store(t, "radius"@, "lg"@) == Some(Value::Float(s.lg))
    &&& in_store(t, "radius"@, "full"@) == Some(Value::Float(s.full))
    &&& in_store(t, "radius"@, "default"@) == Some(Value::Ref("radius."@ + s.default_key))
}

proof fn lemma_radii_keys()
    ensures
        "sm"@ != "md"@,
        "sm"@ != "lg"@,
        "sm"@ != "full"@,
        "sm"@ != "default"@,
        "md"@ != "lg"@,
        "md"@ != "full"@,
        "md"@ != "default"@,
        "lg"@ != "full"@,
        "lg"@ != "default"@,
        "full"@ != "default"@,
{
    reveal_strlit("sm");
    assert("sm"@.len() == 2);
    reveal_strlit("md");
    assert("md"@.len() == 2);
    reveal_strlit("lg");
    assert("lg"@.len() == 2);
    reveal_strlit("full");
    assert("full"@.len() == 4);
    reveal_strlit("default");
    assert("default"@.len() == 7);
    assert("sm"@[0] != "md"@[0]);
    assert("sm"@[0] != "lg"@[0]);
    assert("md"@[0] != "lg"@[0]);
}

/// The radii, the default one by reference are found where they were put, and no other category is touched.
pub proof fn set_gets_radii(t: Tokens, s: RadiiModel)
    ensures
        set_has_radii(s.exported(t), s),
        forall|c: Seq<char>, k: Seq<char>|
            c != "radius"@ ==> #[trigger] in_set(s.exported(t), c, k) == in_set(t, c, k),
{
    lemma_radii_keys();
    let t0 = t;
    lemma_stored(t0, "radius"@, "sm"@, Value::Float(s.sm));
    let t1 = tokens::stored(t0, "radius"@, "sm"@, Value::Float(s.sm));
    lemma_stored(t1, "radius"@, "md"@, Value::Float(s.md));
    let t2 = tokens::stored(t1, "radius"@, "md"@, Value::Float(s.md));
    lemma_stored(t2, "radius"@, "lg"@, Value::Float(s.lg));
    let t3 = tokens::stored(t2, "radius"@, "lg"@, Value::Float(s.lg));
    lemma_stored(t3, "radius"@, "full"@, Value::Float(s.full));
    let t4 = tokens::stored(t3, "radius"@, "full"@, Value::Float(s.full));
    lemma_stored(t4, "radius"@, "default"@, Value::Ref("radius."@ + s.default_key));
    let t5 = tokens::stored(t4, "radius"@, "default"@, Value::Ref("radius."@ + s.default_key));
    assert(s.exported(t) == t5);
}

/// The radii, the default one by reference are found where they were put, and no other category is touched.
pub proof fn store_gets_radii(t: Store, s: RadiiModel)
    ensures
        store_has_radii(s.in_store(t), s),
        forall|c: Seq<char>, k: Seq<char>|
            c != "radius"@ ==> #[trigger] in_store(s.in_store(t), c, k) == in_store(t, c, k),
{
    lemma_radii_keys();
    lemma_marked_categories();
    let t0 = t;
    lemma_put(t0, "radius"@, "sm"@, Token::Number(store::single_measure(s.sm)));
    let t1 = textmap::put2(t0, "radius"@, "sm"@, Token::Number(store::single_measure(s.sm)));
    lemma_put(t1, "radius"@, "md"@, Token::Number(store::single_measure(s.md)));
    let t2 = textmap::put2(t1, "radius"@, "md"@, Token::Number(store::single_measure(s.md)));
    lemma_put(t2, "radius"@, "lg"@, Token::Number(store::single_measure(s.lg)));
    let t3 = textmap::put2(t2, "radius"@, "lg"@, Token::Number(store::single_measure(s.lg)));
    lemma_put(t3, "radius"@, "full"@, Token::Number(store::single_measure(s.full)));
    let t4 = textmap::put2(t3, "radius"@, "full"@, Token::Number(store::single_measure(s.full)));
    lemma_put(t4, "radius"@, "default"@, Token::Text("radius."@ + s.default_key));
    let t5 = textmap::put2(t4, "radius"@, "default"@, Token::Text("radius."@ + s.default_key));
    assert(s.in_store(t) == t5);
}

/// Whether a token set has the colors of a scheme.
pub open spec fn set_has_palette(t: Tokens, s: Palette) -> bool {
    &&& in_set(t, "color"@, "primary"@) == Some(Value::Color(s.primary))
    &&& in_set(t, "color"@, "primary.light"@) == Some(Value::Color(color::lighter(s.primary, 20)))
    &&& in_set(t, "color"@, "primary.dark"@) == Some(Value::Color(s.primary_pressed))
    &&& in_set(t, "color"@, "secondary"@) == Some(Value::Color(s.secondary))
    &&& in_set(t, "color"@, "secondary.dark"@) == Some(Value::Color(color::darker(s.secondary, 10)))
    &&& in_set(t, "color"@, "danger"@) == Some(Value::Color(s.danger))
    &&& in_set(t, "color"@, "danger.light"@) == Some(Value::Color(color::lighter(s.danger, 15)))
    &&& in_set(t, "color"@, "danger.dark"@) == Some(Value::Color(color::darker(s.danger, 10)))
    &&& in_set(t, "color"@, "surface"@) == Some(Value::Color(s.surface))
    &&& in_set(t, "color"@, "background"@) == Some(Value::Color(s.background))
    &&& in_set(t, "color"@, "foreground"@) == Some(Value::Color(s.text))
    &&& in_set(t, "color"@, "foreground.light"@) == Some(Value::Color(color::faded(s.text, 10)))
    &&& in_set(t, "color"@, "muted"@) == Some(Value::Color(s.text_muted))
}

/// Whether a token store has the colors of a scheme.
pub open spec fn store_has_palette(t: Store, s: Palette) -> bool {
    &&& in_store(t, "color"@, "primary"@) == Some(Value::Color(s.primary))
    &&& in_store(t, "color"@, "primary.light"@) == Some(Value::Color(color::lighter(s.primary, 20)))
    &&& in_store(t, "color"@, "primary.dark"@) == Some(Value::Color(s.primary_pressed))
    &&& in_store(t, "color"@, "secondary"@) == Some(Value::Color(s.secondary))
    &&& in_store(t, "color"@, "secondary.dark"@) == Some(Value::Color(color::darker(s.secondary, 10)))
    &&& in_store(t, "color"@, "danger"@) == Some(Value::Color(s.danger))
    &&& in_store(t, "color"@, "danger.light"@) == Some(Value::Color(color::lighter(s.danger, 15)))
    &&& in_store(t, "color"@, "danger.dark"@) == Some(Value::Color(color::darker(s.danger, 10)))
    &&& in_store(t, "color"@, "surface"@) == Some(Value::Color(s.surface))
    &&& in_store(t, "color"@, "background"@) == Some(Value::Color(s.background))
    &&& in_store(t, "color"@, "foreground"@) == Some(Value::Color(s.text))
    &&& in_store(t, "color"@, "foreground.light"@) == Some(Value::Color(color::faded(s.text, 10)))
    &&& in_store(t, "color"@, "muted"@) == Some(Value::Color(s.text_muted))
}

proof fn lemma_palette_keys()
    ensures
        "primary"@ != "primary.light"@,
        "primary"@ != "primary.dark"@,
        "primary"@ != "secondary"@,
        "primary"@ != "secondary.dark"@,
        "primary"@ != "danger"@,
        "primary"@ != "danger.light"@,
        "primary"@ != "danger.dark"@,
        "primary"@ != "surface"@,
        "primary"@ != "background"@,
        "primary"@ != "foreground"@,
        "primary"@ != "foreground.light"@,
        "primary"@ != "muted"@,
        "primary"@ != "primary_pressed"@,
        "primary"@ != "text"@,
        "primary"@ != "text_muted"@,
        "primary"@ != "success"@,
        "primary"@ != "warning"@,
        "primary"@ != "transparent"@,
        "primary"@ != "white"@,
        "primary"@ != "border"@,
        "primary.light"@ != "primary.dark"@,
        "primary.light"@ != "secondary"@,
        "primary.light"@ != "secondary.dark"@,
        "primary.light"@ != "danger"@,
        "primary.light"@ != "danger.light"@,
        "primary.light"@ != "danger.dark"@,
        "primary.light"@ != "surface"@,
        "primary.light"@ != "background"@,
        "primary.light"@ != "foreground"@,
        "primary.light"@ != "foreground.light"@,
        "primary.light"@ != "muted"@,
        "primary.light"@ != "primary_pressed"@,
        "primary.light"@ != "text"@,
        "primary.light"@ != "text_muted"@,
        "primary.light"@ != "success"@,
        "primary.light"@ != "warning"@,
        "primary.light"@ != "transparent"@,
        "primary.light"@ != "white"@,
        "primary.light"@ != "border"@,
        "primary.dark"@ != "secondary"@,
        "primary.dark"@ != "secondary.dark"@,
        "primary.dark"@ != "danger"@,
        "primary.dark"@ != "danger.light"@,
        "primary.dark"@ != "danger.dark"@,
        "primary.dark"@ != "surface"@,
        "primary.dark"@ != "background"@,
        "primary.dark"@ != "foreground"@,
        "primary.dark"@ != "foreground.light"@,
        "primary.dark"@ != "muted"@,
        "primary.dark"@ != "primary_pressed"@,
        "primary.dark"@ != "text"@,
        "primary.dark"@ != "text_muted"@,
        "primary.dark"@ != "success"@,
        "primary.dark"@ != "warning"@,
        "primary.dark"@ != "transparent"@,
        "primary.dark"@ != "white"@,
        "primary.dark"@ != "border"@,
        "secondary"@ != "secondary.dark"@,
        "secondary"@ != "danger"@,
        "secondary"@ != "danger.light"@,
        "secondary"@ != "danger.dark"@,
        "secondary"@ != "surface"@,
        "secondary"@ != "background"@,
        "secondary"@ != "foreground"@,
        "secondary"@ != "foreground.light"@,
        "secondary"@ != "muted"@,
        "secondary"@ != "primary_pressed"@,
        "secondary"@ != "text"@,
        "secondary"@ != "text_muted"@,
        "secondary"@ != "success"@,
        "secondary"@ != "warning"@,
        "secondary"@ != "transparent"@,
        "secondary"@ != "white"@,
        "secondary"@ != "border"@,
        "secondary.dark"@ != "danger"@,
        "secondary.dark"@ != "danger.light"@,
        "secondary.dark"@ != "danger.dark"@,
        "secondary.dark"@ != "surface"@,
        "secondary.dark"@ != "background"@,
        "secondary.dark"@ != "foreground"@,
        "secondary.dark"@ != "foreground.light"@,
        "secondary.dark"@ != "muted"@,
        "secondary.dark"@ != "primary_pressed"@,
        "secondary.dark"@ != "text"@,
        "secondary.dark"@ != "text_muted"@,
        "secondary.dark"@ != "success"@,
        "secondary.dark"@ != "warning"@,
        "secondary.dark"@ != "transparent"@,
        "secondary.dark"@ != "white"@,
        "secondary.dark"@ != "border"@,
        "danger"@ != "danger.light"@,
        "danger"@ != "danger.dark"@,
        "danger"@ != "surface"@,
        "danger"@ != "background"@,
        "danger"@ != "foreground"@,
        "danger"@ != "foreground.light"@,
        "danger"@ != "muted"@,
        "danger"@ != "primary_pressed"@,
        "danger"@ != "text"@,
        "danger"@ != "text_muted"@,
        "danger"@ != "success"@,
        "danger"@ != "warning"@,
        "danger"@ != "transparent"@,
        "danger"@ != "white"@,
        "danger"@ != "border"@,
        "danger.light"@ != "danger.dark"@,
        "danger.light"@ != "surface"@,
        "danger.light"@ != "background"@,
        "danger.light"@ != "foreground"@,
        "danger.light"@ != "foreground.light"@,
        "danger.light"@ != "muted"@,
        "danger.light"@ != "primary_pressed"@,
        "danger.light"@ != "text"@,
        "danger.light"@ != "text_muted"@,
        "danger.light"@ != "success"@,
        "danger.light"@ != "warning"@,
        "danger.light"@ != "transparent"@,
        "danger.light"@ != "white"@,
        "danger.light"@ != "border"@,
        "danger.dark"@ != "surface"@,
        "danger.dark"@ != "background"@,
        "danger.dark"@ != "foreground"@,
        "danger.dark"@ != "foreground.light"@,
        "danger.dark"@ != "muted"@,
        "danger.dark"@ != "primary_pressed"@,
        "danger.dark"@ != "text"@,
        "danger.dark"@ != "text_muted"@,
        "danger.dark"@ != "success"@,
        "danger.dark"@ != "warning"@,
        "danger.dark"@ != "transparent"@,
        "danger.dark"@ != "white"@,
        "danger.dark"@ != "border"@,
        "surface"@ != "background"@,
        "surface"@ != "foreground"@,
        "surface"@ != "foreground.light"@,
        "surface"@ != "muted"@,
        "surface"@ != "primary_pressed"@,
        "surface"@ != "text"@,
        "surface"@ != "text_muted"@,
        "surface"@ != "success"@,
        "surface"@ != "warning"@,
        "surface"@ != "transparent"@,
        "surface"@ != "white"@,
        "surface"@ != "border"@,
        "background"@ != "foreground"@,
        "background"@ != "foreground.light"@,
        "background"@ != "muted"@,
        "background"@ != "primary_pressed"@,
        "background"@ != "text"@,
        "background"@ != "text_muted"@,
        "background"@ != "success"@,
        "background"@ != "warning"@,
        "background"@ != "transparent"@,
        "background"@ != "white"@,
        "background"@ != "border"@,
        "foreground"@ != "foreground.light"@,
        "foreground"@ != "muted"@,
        "foreground"@ != "primary_pressed"@,
        "foreground"@ != "text"@,
        "foreground"@ != "text_muted"@,
        "foreground"@ != "success"@,
        "foreground"@ != "warning"@,
        "foreground"@ != "transparent"@,
        "foreground"@ != "white"@,
        "foreground"@ != "border"@,
        "foreground.light"@ != "muted"@,
        "foreground.light"@ != "primary_pressed"@,
        "foreground.light"@ != "text"@,
        "foreground.light"@ != "text_muted"@,
        "foreground.light"@ != "success"@,
        "foreground.light"@ != "warning"@,
        "foreground.light"@ != "transparent"@,
        "foreground.light"@ != "white"@,
        "foreground.light"@ != "border"@,
        "muted"@ != "primary_pressed"@,
        "muted"@ != "text"@,
        "muted"@ != "text_muted"@,
        "muted"@ != "success"@,
        "muted"@ != "warning"@,
        "muted"@ != "transparent"@,
        "muted"@ != "white"@,
        "muted"@ != "border"@,
        "primary_pressed"@ != "text"@,
        "primary_pressed"@ != "text_muted"@,
        "primary_pressed"@ != "success"@,
        "primary_pressed"@ != "warning"@,
        "primary_pressed"@ != "transparent"@,
        "primary_pressed"@ != "white"@,
        "primary_pressed"@ != "border"@,
        "text"@ != "text_muted"@,
        "text"@ != "success"@,
        "text"@ != "warning"@,
        "text"@ != "transparent"@,
        "text"@ != "white"@,
        "text"@ != "border"@,
        "text_muted"@ != "success"@,
        "text_muted"@ != "warning"@,
        "text_muted"@ != "transparent"@,
        "text_muted"@ != "white"@,
        "text_muted"@ != "border"@,
        "success"@ != "warning"@,
        "success"@ != "transparent"@,
        "success"@ != "white"@,
        "success"@ != "border"@,
        "warning"@ != "transparent"@,
        "warning"@ != "white"@,
        "warning"@ != "border"@,
        "transparent"@ != "white"@,
        "transparent"@ != "border"@,
        "white"@ != "border"@,
{
    reveal_strlit("primary");
    assert("primary"@.len() == 7);
    reveal_strlit("primary.light");
    assert("primary.light"@.len() == 13);
    reveal_strlit("primary.dark");
    assert("primary.dark"@.len() == 12);
    reveal_strlit("secondary");
    assert("secondary"@.len() == 9);
    reveal_strlit("secondary.dark");
    assert("secondary.dark"@.len() == 14);
    reveal_strlit("danger");
    assert("danger"@.len() == 6);
    reveal_strlit("danger.light");
    assert("danger.light"@.len() == 12);
    reveal_strlit("danger.dark");
    assert("danger.dark"@.len() == 11);
    reveal_strlit("surface");
    assert("surface"@.len() == 7);
    reveal_strlit("background");
    assert("background"@.len() == 10);
    reveal_strlit("foreground");
    assert("foreground"@.len() == 10);
    reveal_strlit("foreground.light");
    assert("foreground.light"@.len() == 16);
    reveal_strlit("muted");
    assert("muted"@.len() == 5);
    reveal_strlit("primary_pressed");
    assert("primary_pressed"@.len() == 15);
    reveal_strlit("text");
    assert("text"@.len() == 4);
    reveal_strlit("text_muted");
    assert("text_muted"@.len() == 10);
    reveal_strlit("success");
    assert("success"@.len() == 7);
    reveal_strlit("warning");
    assert("warning"@.len() == 7);
    reveal_strlit("transparent");
    assert("transparent"@.len() == 11);
    reveal_strlit("white");
    assert("white"@.len() == 5);
    reveal_strlit("border");
    assert("border"@.len() == 6);
    assert("primary"@[0] != "surface"@[0]);
    assert("primary"@[0] != "success"@[0]);
    assert("primary"@[0] != "warning"@[0]);
    assert("primary.dark"@[0] != "danger.light"@[0]);
    assert("danger"@[0] != "border"@[0]);
    assert("danger.dark"@[0] != "transparent"@[0]);
    assert("surface"@[2] != "success"@[2]);
    assert("surface"@[0] != "warning"@[0]);
    assert("background"@[0] != "foreground"@[0]);
    assert("background"@[0] != "text_muted"@[0]);
    assert("foreground"@[0] != "text_muted"@[0]);
    assert("muted"@[0] != "white"@[0]);
    assert("success"@[0] != "warning"@[0]);
}

/// The colors of a scheme are found where they were put, and no other category is touched.
pub proof fn set_gets_palette(t: Tokens, s: Palette)
    ensures
        set_has_palette(s.exported(t), s),
        forall|c: Seq<char>, k: Seq<char>|
            c != "color"@ ==> #[trigger] in_set(s.exported(t), c, k) == in_set(t, c, k),
{
    lemma_palette_keys();
    let t0 = t;
    lemma_stored(t0, "color"@, "primary"@, Value::Color(s.primary));
    let t1 = tokens::stored(t0, "color"@, "primary"@, Value::Color(s.primary));
    lemma_stored(t1, "color"@, "primary.light"@, Value::Color(color::lighter(s.primary, 20)));
    let t2 = tokens::stored(t1, "color"@, "primary.light"@, Value::Color(color::lighter(s.primary, 20)));
    lemma_stored(t2, "color"@, "primary.dark"@, Value::Color(s.primary_pressed));
    let t3 = tokens::stored(t2, "color"@, "primary.dark"@, Value::Color(s.primary_pressed));
    lemma_stored(t3, "color"@, "primary_pressed"@, Value::Color(s.primary_pressed));
    let t4 = tokens::stored(t3, "color"@, "primary_pressed"@, Value::Color(s.primary_pressed));
    lemma_stored(t4, "color"@, "secondary"@, Value::Color(s.secondary));
    let t5 = tokens::stored(t4, "color"@, "secondary"@, Value::Color(s.secondary));
    lemma_stored(t5, "color"@, "secondary.dark"@, Value::Color(color::darker(s.secondary, 10)));
    let t6 = tokens::stored(t5, "color"@, "secondary.dark"@, Value::Color(color::darker(s.secondary, 10)));
    lemma_stored(t6, "color"@, "danger"@, Value::Color(s.danger));
    let t7 = tokens::stored(t6, "color"@, "danger"@, Value::Color(s.danger));
    lemma_stored(t7, "color"@, "danger.light"@, Value::Color(color::lighter(s.danger, 15)));
    let t8 = tokens::stored(t7, "color"@, "danger.light"@, Value::Color(color::lighter(s.danger, 15)));
    lemma_stored(t8, "color"@, "danger.dark"@, Value::Color(color::darker(s.danger, 10)));
    let t9 = tokens::stored(t8, "color"@, "danger.dark"@, Value::Color(color::darker(s.danger, 10)));
    lemma_stored(t9, "color"@, "surface"@, Value::Color(s.surface));
    let t10 = tokens::stored(t9, "color"@, "surface"@, Value::Color(s.surface));
    lemma_stored(t10, "color"@, "background"@, Value::Color(s.background));
    let t11 = tokens::stored(t10, "color"@, "background"@, Value::Color(s.background));
    lemma_stored(t11, "color"@, "foreground"@, Value::Color(s.text));
    let t12 = tokens::stored(t11, "color"@, "foreground"@, Value::Color(s.text));
    lemma_stored(t12, "color"@, "foreground.light"@, Value::Color(color::faded(s.text, 10)));
    let t13 = tokens::stored(t12, "color"@, "foreground.light"@, Value::Color(color::faded(s.text, 10)));
    lemma_stored(t13, "color"@, "text"@, Value::Color(s.text));
    let t14 = tokens::stored(t13, "color"@, "text"@, Value::Color(s.text));
    lemma_stored(t14, "color"@, "muted"@, Value::Color(s.text_muted));
    let t15 = tokens::stored(t14, "color"@, "muted"@, Value::Color(s.text_muted));
    lemma_stored(t15, "color"@, "text_muted"@, Value::Color(s.text_muted));
    let t16 = tokens::stored(t15, "color"@, "text_muted"@, Value::Color(s.text_muted));
    assert(s.exported(t) == t16);
}

/// The colors of a scheme are found where they were put, and no other category is touched.
pub proof fn store_gets_palette(t: Store, s: Palette)
    ensures
        store_has_palette(s.in_store(t), s),
        forall|c: Seq<char>, k: Seq<char>|
            c != "color"@ ==> #[trigger] in_store(s.in_store(t), c, k) == in_store(t, c, k),
{
    lemma_palette_keys();
    lemma_marked_categories();
    color::loose_hex_round_trip(s.primary);
    color::loose_hex_round_trip(color::lighter(s.primary, 20));
    color::loose_hex_round_trip(s.primary_pressed);
    color::loose_hex_round_trip(s.secondary);
    color::loose_hex_round_trip(color::darker(s.secondary, 10));
    color::loose_hex_round_trip(s.danger);
    color::loose_hex_round_trip(color::lighter(s.danger, 15));
    color::loose_hex_round_trip(color::darker(s.danger, 10));
    color::loose_hex_round_trip(s.surface);
    color::loose_hex_round_trip(s.background);
    color::loose_hex_round_trip(s.text);
    color::loose_hex_round_trip(color::faded(s.text, 10));
    color::loose_hex_round_trip(s.text_muted);
    let t0 = t;
    lemma_put(t0, "color"@, "primary"@, Token::Text(color::hash_hex_of(s.primary)));
    let t1 = textmap::put2(t0, "color"@, "primary"@, Token::Text(color::hash_hex_of(s.primary)));
    lemma_put(t1, "color"@, "primary.light"@, Token::Text(color::hash_hex_of(color::lighter(s.primary, 20))));
    let t2 = textmap::put2(t1, "color"@, "primary.light"@, Token::Text(color::hash_hex_of(color::lighter(s.primary, 20))));
    lemma_put(t2, "color"@, "primary.dark"@, Token::Text(color::hash_hex_of(s.primary_pressed)));
    let t3 = textmap::put2(t2, "color"@, "primary.dark"@, Token::Text(color::hash_hex_of(s.primary_pressed)));
    lemma_put(t3, "color"@, "secondary"@, Token::Text(color::hash_hex_of(s.secondary)));
    let t4 = textmap::put2(t3, "color"@, "secondary"@, Token::Text(color::hash_hex_of(s.secondary)));
    lemma_put(t4, "color"@, "secondary.dark"@, Token::Text(color::hash_hex_of(color::darker(s.secondary, 10))));
    let t5 = textmap::put2(t4, "color"@, "secondary.dark"@, Token::Text(color::hash_hex_of(color::darker(s.secondary, 10))));
    lemma_put(t5, "color"@, "danger"@, Token::Text(color::hash_hex_of(s.danger)));
    let t6 = textmap::put2(t5, "color"@, "danger"@, Token::Text(color::hash_hex_of(s.danger)));
    lemma_put(t6, "color"@, "surface"@, Token::Text(color::hash_hex_of(s.surface)));
    let t7 = textmap::put2(t6, "color"@, "surface"@, Token::Text(color::hash_hex_of(s.surface)));
    lemma_put(t7, "color"@, "background"@, Token::Text(color::hash_hex_of(s.background)));
    let t8 = textmap::put2(t7, "color"@, "background"@, Token::Text(color::hash_hex_of(s.background)));
    lemma_put(t8, "color"@, "foreground"@, Token::Text(color::hash_hex_of(s.text)));
    let t9 = textmap::put2(t8, "color"@, "foreground"@, Token::Text(color::hash_hex_of(s.text)));
    lemma_put(t9, "color"@, "foreground.light"@, Token::Text(color::hash_hex_of(color::faded(s.text, 10))));
    let t10 = textmap::put2(t9, "color"@, "foreground.light"@, Token::Text(color::hash_hex_of(color::faded(s.text, 10))));
    lemma_put(t10, "color"@, "danger.light"@, Token::Text(color::hash_hex_of(color::lighter(s.danger, 15))));
    let t11 = textmap::put2(t10, "color"@, "danger.light"@, Token::Text(color::hash_hex_of(color::lighter(s.danger, 15))));
    lemma_put(t11, "color"@, "danger.dark"@, Token::Text(color::hash_hex_of(color::darker(s.danger, 10))));
    let t12 = textmap::put2(t11, "color"@, "danger.dark"@, Token::Text(color::hash_hex_of(color::darker(s.danger, 10))));
    lemma_put(t12, "color"@, "success"@, Token::Text("#16a34a"@));
    let t13 = textmap::put2(t12, "color"@, "success"@, Token::Text("#16a34a"@));
    lemma_put(t13, "color"@, "warning"@, Token::Text("#d97706"@));
    let t14 = textmap::put2(t13, "color"@, "warning"@, Token::Text("#d97706"@));
    lemma_put(t14, "color"@, "transparent"@, Token::Text("#00000000"@));
    let t15 = textmap::put2(t14, "color"@, "transparent"@, Token::Text("#00000000"@));
    lemma_put(t15, "color"@, "white"@, Token::Text("#ffffff"@));
    let t16 = textmap::put2(t15, "color"@, "white"@, Token::Text("#ffffff"@));
    lemma_put(t16, "color"@, "muted"@, Token::Text(color::hash_hex_of(s.text_muted)));
    let t17 = textmap::put2(t16, "color"@, "muted"@, Token::Text(color::hash_hex_of(s.text_muted)));
    lemma_put(t17, "color"@, "border"@, Token::Text("#e0e0e0"@));
    let t18 = textmap::put2(t17, "color"@, "border"@, Token::Text("#e0e0e0"@));
    assert(s.in_store(t) == t18);
}

// ---------------------------------------------------------------------------------------------
// Themes
// ---------------------------------------------------------------------------------------------
/// Whether a token set has all that the schemes of a theme share.
pub open spec fn set_has_shared(t: Tokens, m: TokenModel) -> bool {
    &&& set_has_spacing(t, m.spacing)
    &&& set_has_scale(t, m.control_size, "controlSize"@)
    &&& set_has_scale(t, m.choice_control_size, "choiceControlSize"@)
    &&& set_has_scale(t, m.switch_size, "switchSize"@)
    &&& set_has_scale(t, m.icon_size, "iconSize"@)
    &&& set_has_border_widths(t, m.border_width)
    &&& set_has_scale(t, m.control_radius, "controlRadius"@)
    &&& set_has_scale(t, m.control_padding_inline, "controlPaddingInline"@)
    &&& set_has_typography(t, m.typography)
    &&& set_has_font_weights(t, m.font_weight)
    &&& set_has_radii(t, m.radius)
}

/// Whether a token store has all that the schemes of a theme share.
pub open spec fn store_has_shared(t: Store, m: TokenModel) -> bool {
    &&& store_has_spacing(t, m.spacing)
    &&& store_has_scale(t, m.control_size, "controlSize"@)
    &&& store_has_scale(t, m.choice_control_size, "choiceControlSize"@)
    &&& store_has_scale(t, m.switch_size, "switchSize"@)
    &&& store_has_scale(t, m.icon_size, "iconSize"@)
    &&& store_has_border_widths(t, m.border_width)
    &&& store_has_scale(t, m.control_radius, "controlRadius"@)
    &&& store_has_scale(t, m.control_padding_inline, "controlPaddingInline"@)
    &&& store_has_typography(t, m.typography)
    &&& store_has_font_weights(t, m.font_weight)
    &&& store_has_radii(t, m.radius)
}

proof fn lemma_categories_differ()
    ensures
        "spacing"@ != "controlSize"@,
        "spacing"@ != "choiceControlSize"@,
        "spacing"@ != "switchSize"@,
        "spacing"@ != "iconSize"@,
        "spacing"@ != "borderWidth"@,
        "spacing"@ != "controlRadius"@,
        "spacing"@ != "controlPaddingInline"@,
        "spacing"@ != "fontSize"@,
        "spacing"@ != "fontWeight"@,
        "spacing"@ != "radius"@,
        "spacing"@ != "font"@,
        "spacing"@ != "color"@,
        "spacing"@ != "opacity"@,
        "controlSize"@ != "choiceControlSize"@,
        "controlSize"@ != "switchSize"@,
        "controlSize"@ != "iconSize"@,
        "controlSize"@ != "borderWidth"@,
        "controlSize"@ != "controlRadius"@,
        "controlSize"@ != "controlPaddingInline"@,
        "controlSize"@ != "fontSize"@,
        "controlSize"@ != "fontWeight"@,
        "controlSize"@ != "radius"@,
        "controlSize"@ != "font"@,
        "controlSize"@ != "color"@,
        "controlSize"@ != "opacity"@,
        "choiceControlSize"@ != "switchSize"@,
        "choiceControlSize"@ != "iconSize"@,
        "choiceControlSize"@ != "borderWidth"@,
        "choiceControlSize"@ != "controlRadius"@,
        "choiceControlSize"@ != "controlPaddingInline"@,
        "choiceControlSize"@ != "fontSize"@,
        "choiceControlSize"@ != "fontWeight"@,
        "choiceControlSize"@ != "radius"@,
        "choiceControlSize"@ != "font"@,
        "choiceControlSize"@ != "color"@,
        "choiceControlSize"@ != "opacity"@,
        "switchSize"@ != "iconSize"@,
        "switchSize"@ != "borderWidth"@,
        "switchSize"@ != "controlRadius"@,
        "switchSize"@ != "controlPaddingInline"@,
        "switchSize"@ != "fontSize"@,
        "switchSize"@ != "fontWeight"@,
        "switchSize"@ != "radius"@,
        "switchSize"@ != "font"@,
        "switchSize"@ != "color"@,
        "switchSize"@ != "opacity"@,
        "iconSize"@ != "borderWidth"@,
        "iconSize"@ != "controlRadius"@,
        "iconSize"@ != "controlPaddingInline"@,
        "iconSize"@ != "fontSize"@,
        "iconSize"@ != "fontWeight"@,
        "iconSize"@ != "radius"@,
        "iconSize"@ != "font"@,
        "iconSize"@ != "color"@,
        "iconSize"@ != "opacity"@,
        "borderWidth"@ != "controlRadius"@,
        "borderWidth"@ != "controlPaddingInline"@,
        "borderWidth"@ != "fontSize"@,
        "borderWidth"@ != "fontWeight"@,
        "borderWidth"@ != "radius"@,
        "borderWidth"@ != "font"@,
        "borderWidth"@ != "color"@,
        "borderWidth"@ != "opacity"@,
        "controlRadius"@ != "controlPaddingInline"@,
        "controlRadius"@ != "fontSize"@,
        "controlRadius"@ != "fontWeight"@,
        "controlRadius"@ != "radius"@,
        "controlRadius"@ != "font"@,
        "controlRadius"@ != "color"@,
        "controlRadius"@ != "opacity"@,
        "controlPaddingInline"@ != "fontSize"@,
        "controlPaddingInline"@ != "fontWeight"@,
        "controlPaddingInline"@ != "radius"@,
        "controlPaddingInline"@ != "font"@,
        "controlPaddingInline"@ != "color"@,
        "controlPaddingInline"@ != "opacity"@,
        "fontSize"@ != "fontWeight"@,
        "fontSize"@ != "radius"@,
        "fontSize"@ != "font"@,
        "fontSize"@ != "color"@,
        "fontSize"@ != "opacity"@,
        "fontWeight"@ != "radius"@,
        "fontWeight"@ != "font"@,
        "fontWeight"@ != "color"@,
        "fontWeight"@ != "opacity"@,
        "radius"@ != "font"@,
        "radius"@ != "color"@,
        "radius"@ != "opacity"@,
        "font"@ != "color"@,
        "font"@ != "opacity"@,
        "color"@ != "opacity"@,
{
    reveal_strlit("spacing");
    assert("spacing"@.len() == 7);
    reveal_strlit("controlSize");
    assert("controlSize"@.len() == 11);
    reveal_strlit("choiceControlSize");
    assert("choiceControlSize"@.len() == 17);
    reveal_strlit("switchSize");
    assert("switchSize"@.len() == 10);
    reveal_strlit("iconSize");
    assert("iconSize"@.len() == 8);
    reveal_strlit("borderWidth");
    assert("borderWidth"@.len() == 11);
    reveal_strlit("controlRadius");
    assert("controlRadius"@.len() == 13);
    reveal_strlit("controlPaddingInline");
    assert("controlPaddingInline"@.len() == 20);
    reveal_strlit("fontSize");
    assert("fontSize"@.len() == 8);
    reveal_strlit("fontWeight");
    assert("fontWeight"@.len() == 10);
    reveal_strlit("radius");
    assert("radius"@.len() == 6);
    reveal_strlit("font");
    assert("font"@.len() == 4);
    reveal_strlit("color");
    assert("color"@.len() == 5);
    reveal_strlit("opacity");
    assert("opacity"@.len() == 7);
    assert("spacing"@[0] != "opacity"@[0]);
    assert("controlSize"@[0] != "borderWidth"@[0]);
    assert("switchSize"@[0] != "fontWeight"@[0]);
    assert("iconSize"@[0] != "fontSize"@[0]);
}

/// The tokens that the schemes share are all in a scheme's token set, and the colors stay as they were.
#[verifier::spinoff_prover]
#[verifier::rlimit(60)]
pub proof fn shared_tokens_are_exported(m: TokenModel, t: Tokens)
    ensures
        set_has_shared(m.shared(t), m),
        forall|k: Seq<char>| #[trigger] in_set(m.shared(t), "color"@, k) == in_set(t, "color"@, k),
{
    lemma_categories_differ();
    let t0 = t;
    set_gets_spacing(t0, m.spacing);
    let t1 = m.spacing.exported(t0);
    set_gets_scale(t1, m.control_size, "controlSize"@);
    let t2 = m.control_size.exported(t1, "controlSize"@);
    set_gets_scale(t2, m.choice_control_size, "choiceControlSize"@);
    let t3 = m.choice_control_size.exported(t2, "choiceControlSize"@);
    set_gets_scale(t3, m.switch_size, "switchSize"@);
    let t4 = m.switch_size.exported(t3, "switchSize"@);
    set_gets_scale(t4, m.icon_size, "iconSize"@);
    let t5 = m.icon_size.exported(t4, "iconSize"@);
    set_gets_border_widths(t5, m.border_width);
    let t6 = m.border_width.exported(t5);
    set_gets_scale(t6, m.control_radius, "controlRadius"@);
    let t7 = m.control_radius.exported(t6, "controlRadius"@);
    set_gets_scale(t7, m.control_padding_inline, "controlPaddingInline"@);
    let t8 = m.control_padding_inline.exported(t7, "controlPaddingInline"@);
    set_gets_typography(t8, m.typography);
    let t9 = m.typography.exported(t8);
    set_gets_font_weights(t9, m.font_weight);
    let t10 = m.font_weight.exported(t9);
    set_gets_radii(t10, m.radius);
    let t11 = m.radius.exported(t10);
    assert(m.shared(t) == t11);
}

/// The token store of a theme has the colors of its light scheme and all that the schemes share.
#[verifier::spinoff_prover]
#[verifier::rlimit(60)]
pub proof fn theme_tokens_are_stored(m: TokenModel)
    ensures
        store_has_palette(m.in_store(), m.light),
        store_has_shared(m.in_store(), m),
{
    lemma_categories_differ();
    store_gets_palette(Map::empty(), m.light);
    let t0 = m.light.in_store(Map::empty());
    store_gets_spacing(t0, m.spacing);
    let t1 = m.spacing.in_store(t0);
    store_gets_scale(t1, m.control_size, "controlSize"@);
    let t2 = m.control_size.in_store(t1, "controlSize"@);
    store_gets_scale(t2, m.choice_control_size, "choiceControlSize"@);
    let t3 = m.choice_control_size.in_store(t2, "choiceControlSize"@);
    store_gets_scale(t3, m.switch_size, "switchSize"@);
    let t4 = m.switch_size.in_store(t3, "switchSize"@);
    store_gets_scale(t4, m.icon_size, "iconSize"@);
    let t5 = m.icon_size.in_store(t4, "iconSize"@);
    store_gets_border_widths(t5, m.border_width);
    let t6 = m.border_width.in_store(t5);
    store_gets_scale(t6, m.control_radius, "controlRadius"@);
    let t7 = m.control_radius.in_store(t6, "controlRadius"@);
    store_gets_scale(t7, m.control_padding_inline, "controlPaddingInline"@);
    let t8 = m.control_padding_inline.in_store(t7, "controlPaddingInline"@);
    store_gets_typography(t8, m.typography);
    let t9 = m.typography.in_store(t8);
    store_gets_font_weights(t9, m.font_weight);
    let t10 = m.font_weight.in_store(t9);
    store_gets_radii(t10, m.radius);
    let t11 = m.radius.in_store(t10);
    let half = Token::Number(store::single_measure(Scalar { bits: 0x3F00_0000 }));
    lemma_put(t11, "opacity"@, "disabled"@, half);
    assert(m.in_store() == textmap::put2(t11, "opacity"@, "disabled"@, half));
}

/// The exported tokens of a theme have, in each scheme, the colors of that scheme and all that the
/// schemes share.
pub proof fn theme_tokens_are_exported(m: TokenModel)
    ensures
        set_has_palette(m.exported().light, m.light),
        set_has_palette(m.exported().dark, m.dark),
        set_has_shared(m.exported().light, m),
        set_has_shared(m.exported().dark, m),
{
    lemma_categories_differ();
    let base = crate::defaults::fallback_tokens();
    shared_tokens_are_exported(m, base.light);
    shared_tokens_are_exported(m, base.dark);
    set_gets_palette(m.shared(base.light), m.light);
    set_gets_palette(m.shared(base.dark), m.dark);
}

// ---------------------------------------------------------------------------------------------
// The panel
// ---------------------------------------------------------------------------------------------
/// The path of a token.
pub open spec fn path(category: Seq<char>, key: Seq<char>) -> Seq<char> {
    category + "."@ + key
}

/// Whether the panel shows the number that a token set has for a token.
pub open spec fn shows_number(panel: PanelModel, t: Tokens, category: Seq<char>, key: Seq<char>) -> bool {
    panel.number(path(category, key)) is Some && in_set(t, category, key) == Some(
        Value::Float(panel.number(path(category, key))->Some_0),
    )
}

proof fn lemma_number_paths()
    ensures
        "fontSize.xs"@ != "fontSize.caption"@,
        "fontSize.xs"@ != "fontSize.sm"@,
        "fontSize.xs"@ != "fontSize.md"@,
        "fontSize.xs"@ != "fontSize.lg"@,
        "fontSize.xs"@ != "fontSize.helper"@,
        "fontSize.xs"@ != "borderWidth.none"@,
        "fontSize.xs"@ != "borderWidth.sm"@,
        "fontSize.xs"@ != "borderWidth.focus"@,
        "fontSize.xs"@ != "spacing.xs"@,
        "fontSize.xs"@ != "spacing.sm"@,
        "fontSize.xs"@ != "spacing.md"@,
        "fontSize.xs"@ != "spacing.lg"@,
        "fontSize.xs"@ != "spacing.xl"@,
        "fontSize.xs"@ != "radius.sm"@,
        "fontSize.xs"@ != "radius.lg"@,
        "fontSize.xs"@ != "radius.full"@,
        "fontSize.xs"@ != "controlSize.sm"@,
        "fontSize.xs"@ != "controlSize.md"@,
        "fontSize.xs"@ != "controlSize.lg"@,
        "fontSize.xs"@ != "choiceControlSize.sm"@,
        "fontSize.xs"@ != "choiceControlSize.md"@,
        "fontSize.xs"@ != "choiceControlSize.lg"@,
        "fontSize.xs"@ != "switchSize.sm"@,
        "fontSize.xs"@ != "switchSize.md"@,
        "fontSize.xs"@ != "switchSize.lg"@,
        "fontSize.xs"@ != "iconSize.sm"@,
        "fontSize.xs"@ != "iconSize.md"@,
        "fontSize.xs"@ != "iconSize.lg"@,
        "fontSize.xs"@ != "controlRadius.sm"@,
        "fontSize.xs"@ != "controlRadius.md"@,
        "fontSize.xs"@ != "controlRadius.lg"@,
        "fontSize.xs"@ != "controlPaddingInline.sm"@,
        "fontSize.xs"@ != "controlPaddingInline.md"@,
        "fontSize.xs"@ != "controlPaddingInline.lg"@,
        "fontSize.xs"@ != "radius.default"@,
        "fontSize.caption"@ != "fontSize.sm"@,
        "fontSize.caption"@ != "fontSize.md"@,
        "fontSize.caption"@ != "fontSize.lg"@,
        "fontSize.caption"@ != "fontSize.helper"@,
        "fontSize.caption"@ != "borderWidth.none"@,
        "fontSize.caption"@ != "borderWidth.sm"@,
        "fontSize.caption"@ != "borderWidth.focus"@,
        "fontSize.caption"@ != "spacing.xs"@,
        "fontSize.caption"@ != "spacing.sm"@,
        "fontSize.caption"@ != "spacing.md"@,
        "fontSize.caption"@ != "spacing.lg"@,
        "fontSize.caption"@ != "spacing.xl"@,
        "fontSize.caption"@ != "radius.sm"@,
        "fontSize.caption"@ != "radius.lg"@,
        "fontSize.caption"@ != "radius.full"@,
        "fontSize.caption"@ != "controlSize.sm"@,
        "fontSize.caption"@ != "controlSize.md"@,
        "fontSize.caption"@ != "controlSize.lg"@,
        "fontSize.caption"@ != "choiceControlSize.sm"@,
        "fontSize.caption"@ != "choiceControlSize.md"@,
        "fontSize.caption"@ != "choiceControlSize.lg"@,
        "fontSize.caption"@ != "switchSize.sm"@,
        "fontSize.caption"@ != "switchSize.md"@,
        "fontSize.caption"@ != "switchSize.lg"@,
        "fontSize.caption"@ != "iconSize.sm"@,
        "fontSize.caption"@ != "iconSize.md"@,
        "fontSize.caption"@ != "iconSize.lg"@,
        "fontSize.caption"@ != "controlRadius.sm"@,
        "fontSize.caption"@ != "controlRadius.md"@,
        "fontSize.caption"@ != "controlRadius.lg"@,
        "fontSize.caption"@ != "controlPaddingInline.sm"@,
        "fontSize.caption"@ != "controlPaddingInline.md"@,
        "fontSize.caption"@ != "controlPaddingInline.lg"@,
        "fontSize.caption"@ != "radius.default"@,
        "fontSize.sm"@ != "fontSize.md"@,
        "fontSize.sm"@ != "fontSize.lg"@,
        "fontSize.sm"@ != "fontSize.helper"@,
        "fontSize.sm"@ != "borderWidth.none"@,
        "fontSize.sm"@ != "borderWidth.sm"@,
        "fontSize.sm"@ != "borderWidth.focus"@,
        "fontSize.sm"@ != "spacing.xs"@,
        "fontSize.sm"@ != "spacing.sm"@,
        "fontSize.sm"@ != "spacing.md"@,
        "fontSize.sm"@ != "spacing.lg"@,
        "fontSize.sm"@ != "spacing.xl"@,
        "fontSize.sm"@ != "radius.sm"@,
        "fontSize.sm"@ != "radius.lg"@,
        "fontSize.sm"@ != "radius.full"@,
        "fontSize.sm"@ != "controlSize.sm"@,
        "fontSize.sm"@ != "controlSize.md"@,
        "fontSize.sm"@ != "controlSize.lg"@,
        "fontSize.sm"@ != "choiceControlSize.sm"@,
        "fontSize.sm"@ != "choiceControlSize.md"@,
        "fontSize.sm"@ != "choiceControlSize.lg"@,
        "fontSize.sm"@ != "switchSize.sm"@,
        "fontSize.sm"@ != "switchSize.md"@,
        "fontSize.sm"@ != "switchSize.lg"@,
        "fontSize.sm"@ != "iconSize.sm"@,
        "fontSize.sm"@ != "iconSize.md"@,
        "fontSize.sm"@ != "iconSize.lg"@,
        "fontSize.sm"@ != "controlRadius.sm"@,
        "fontSize.sm"@ != "controlRadius.md"@,
        "fontSize.sm"@ != "controlRadius.lg"@,
        "fontSize.sm"@ != "controlPaddingInline.sm"@,
        "fontSize.sm"@ != "controlPaddingInline.md"@,
        "fontSize.sm"@ != "controlPaddingInline.lg"@,
        "fontSize.sm"@ != "radius.default"@,
        "fontSize.md"@ != "fontSize.lg"@,
        "fontSize.md"@ != "fontSize.helper"@,
        "fontSize.md"@ != "borderWidth.none"@,
        "fontSize.md"@ != "borderWidth.sm"@,
        "fontSize.md"@ != "borderWidth.focus"@,
        "fontSize.md"@ != "spacing.xs"@,
        "fontSize.md"@ != "spacing.sm"@,
        "fontSize.md"@ != "spacing.md"@,
        "fontSize.md"@ != "spacing.lg"@,
        "fontSize.md"@ != "spacing.xl"@,
        "fontSize.md"@ != "radius.sm"@,
        "fontSize.md"@ != "radius.lg"@,
        "fontSize.md"@ != "radius.full"@,
        "fontSize.md"@ != "controlSize.sm"@,
        "fontSize.md"@ != "controlSize.md"@,
        "fontSize.md"@ != "controlSize.lg"@,
        "fontSize.md"@ != "choiceControlSize.sm"@,
        "fontSize.md"@ != "choiceControlSize.md"@,
        "fontSize.md"@ != "choiceControlSize.lg"@,
        "fontSize.md"@ != "switchSize.sm"@,
        "fontSize.md"@ != "switchSize.md"@,
        "fontSize.md"@ != "switchSize.lg"@,
        "fontSize.md"@ != "iconSize.sm"@,
        "fontSize.md"@ != "iconSize.md"@,
        "fontSize.md"@ != "iconSize.lg"@,
        "fontSize.md"@ != "controlRadius.sm"@,
        "fontSize.md"@ != "controlRadius.md"@,
        "fontSize.md"@ != "controlRadius.lg"@,
        "fontSize.md"@ != "controlPaddingInline.sm"@,
        "fontSize.md"@ != "controlPaddingInline.md"@,
        "fontSize.md"@ != "controlPaddingInline.lg"@,
        "fontSize.md"@ != "radius.default"@,
        "fontSize.lg"@ != "fontSize.helper"@,
        "fontSize.lg"@ != "borderWidth.none"@,
        "fontSize.lg"@ != "borderWidth.sm"@,
        "fontSize.lg"@ != "borderWidth.focus"@,
        "fontSize.lg"@ != "spacing.xs"@,
        "fontSize.lg"@ != "spacing.sm"@,
        "fontSize.lg"@ != "spacing.md"@,
        "fontSize.lg"@ != "spacing.lg"@,
        "fontSize.lg"@ != "spacing.xl"@,
        "fontSize.lg"@ != "radius.sm"@,
        "fontSize.lg"@ != "radius.lg"@,
        "fontSize.lg"@ != "radius.full"@,
        "fontSize.lg"@ != "controlSize.sm"@,
        "fontSize.lg"@ != "controlSize.md"@,
        "fontSize.lg"@ != "controlSize.lg"@,
        "fontSize.lg"@ != "choiceControlSize.sm"@,
        "fontSize.lg"@ != "choiceControlSize.md"@,
        "fontSize.lg"@ != "choiceControlSize.lg"@,
        "fontSize.lg"@ != "switchSize.sm"@,
        "fontSize.lg"@ != "switchSize.md"@,
        "fontSize.lg"@ != "switchSize.lg"@,
        "fontSize.lg"@ != "iconSize.sm"@,
        "fontSize.lg"@ != "iconSize.md"@,
        "fontSize.lg"@ != "iconSize.lg"@,
        "fontSize.lg"@ != "controlRadius.sm"@,
        "fontSize.lg"@ != "controlRadius.md"@,
        "fontSize.lg"@ != "controlRadius.lg"@,
        "fontSize.lg"@ != "controlPaddingInline.sm"@,
        "fontSize.lg"@ != "controlPaddingInline.md"@,
        "fontSize.lg"@ != "controlPaddingInline.lg"@,
        "fontSize.lg"@ != "radius.default"@,
        "fontSize.helper"@ != "borderWidth.none"@,
        "fontSize.helper"@ != "borderWidth.sm"@,
        "fontSize.helper"@ != "borderWidth.focus"@,
        "fontSize.helper"@ != "spacing.xs"@,
        "fontSize.helper"@ != "spacing.sm"@,
        "fontSize.helper"@ != "spacing.md"@,
        "fontSize.helper"@ != "spacing.lg"@,
        "fontSize.helper"@ != "spacing.xl"@,
        "fontSize.helper"@ != "radius.sm"@,
        "fontSize.helper"@ != "radius.lg"@,
        "fontSize.helper"@ != "radius.full"@,
        "fontSize.helper"@ != "controlSize.sm"@,
        "fontSize.helper"@ != "controlSize.md"@,
        "fontSize.helper"@ != "controlSize.lg"@,
        "fontSize.helper"@ != "choiceControlSize.sm"@,
        "fontSize.helper"@ != "choiceControlSize.md"@,
        "fontSize.helper"@ != "choiceControlSize.lg"@,
        "fontSize.helper"@ != "switchSize.sm"@,
        "fontSize.helper"@ != "switchSize.md"@,
        "fontSize.helper"@ != "switchSize.lg"@,
        "fontSize.helper"@ != "iconSize.sm"@,
        "fontSize.helper"@ != "iconSize.md"@,
        "fontSize.helper"@ != "iconSize.lg"@,
        "fontSize.helper"@ != "controlRadius.sm"@,
        "fontSize.helper"@ != "controlRadius.md"@,
        "fontSize.helper"@ != "controlRadius.lg"@,
        "fontSize.helper"@ != "controlPaddingInline.sm"@,
        "fontSize.helper"@ != "controlPaddingInline.md"@,
        "fontSize.helper"@ != "controlPaddingInline.lg"@,
        "fontSize.helper"@ != "radius.default"@,
        "borderWidth.none"@ != "borderWidth.sm"@,
        "borderWidth.none"@ != "borderWidth.focus"@,
        "borderWidth.none"@ != "spacing.xs"@,
        "borderWidth.none"@ != "spacing.sm"@,
        "borderWidth.none"@ != "spacing.md"@,
        "borderWidth.none"@ != "spacing.lg"@,
        "borderWidth.none"@ != "spacing.xl"@,
        "borderWidth.none"@ != "radius.sm"@,
        "borderWidth.none"@ != "radius.lg"@,
        "borderWidth.none"@ != "radius.full"@,
        "borderWidth.none"@ != "controlSize.sm"@,
        "borderWidth.none"@ != "controlSize.md"@,
        "borderWidth.none"@ != "controlSize.lg"@,
        "borderWidth.none"@ != "choiceControlSize.sm"@,
        "borderWidth.none"@ != "choiceControlSize.md"@,
        "borderWidth.none"@ != "choiceControlSize.lg"@,
        "borderWidth.none"@ != "switchSize.sm"@,
        "borderWidth.none"@ != "switchSize.md"@,
        "borderWidth.none"@ != "switchSize.lg"@,
        "borderWidth.none"@ != "iconSize.sm"@,
        "borderWidth.none"@ != "iconSize.md"@,
        "borderWidth.none"@ != "iconSize.lg"@,
        "borderWidth.none"@ != "controlRadius.sm"@,
        "borderWidth.none"@ != "controlRadius.md"@,
        "borderWidth.none"@ != "controlRadius.lg"@,
        "borderWidth.none"@ != "controlPaddingInline.sm"@,
        "borderWidth.none"@ != "controlPaddingInline.md"@,
        "borderWidth.none"@ != "controlPaddingInline.lg"@,
        "borderWidth.none"@ != "radius.default"@,
        "borderWidth.sm"@ != "borderWidth.focus"@,
        "borderWidth.sm"@ != "spacing.xs"@,
        "borderWidth.sm"@ != "spacing.sm"@,
        "borderWidth.sm"@ != "spacing.md"@,
        "borderWidth.sm"@ != "spacing.lg"@,
        "borderWidth.sm"@ != "spacing.xl"@,
        "borderWidth.sm"@ != "radius.sm"@,
        "borderWidth.sm"@ != "radius.lg"@,
        "borderWidth.sm"@ != "radius.full"@,
        "borderWidth.sm"@ != "controlSize.sm"@,
        "borderWidth.sm"@ != "controlSize.md"@,
        "borderWidth.sm"@ != "controlSize.lg"@,
        "borderWidth.sm"@ != "choiceControlSize.sm"@,
        "borderWidth.sm"@ != "choiceControlSize.md"@,
        "borderWidth.sm"@ != "choiceControlSize.lg"@,
        "borderWidth.sm"@ != "switchSize.sm"@,
        "borderWidth.sm"@ != "switchSize.md"@,
        "borderWidth.sm"@ != "switchSize.lg"@,
        "borderWidth.sm"@ != "iconSize.sm"@,
        "borderWidth.sm"@ != "iconSize.md"@,
        "borderWidth.sm"@ != "iconSize.lg"@,
        "borderWidth.sm"@ != "controlRadius.sm"@,
        "borderWidth.sm"@ != "controlRadius.md"@,
        "borderWidth.sm"@ != "controlRadius.lg"@,
        "borderWidth.sm"@ != "controlPaddingInline.sm"@,
        "borderWidth.sm"@ != "controlPaddingInline.md"@,
        "borderWidth.sm"@ != "controlPaddingInline.lg"@,
        "borderWidth.sm"@ != "radius.default"@,
        "borderWidth.focus"@ != "spacing.xs"@,
        "borderWidth.focus"@ != "spacing.sm"@,
        "borderWidth.focus"@ != "spacing.md"@,
        "borderWidth.focus"@ != "spacing.lg"@,
        "borderWidth.focus"@ != "spacing.xl"@,
        "borderWidth.focus"@ != "radius.sm"@,
        "borderWidth.focus"@ != "radius.lg"@,
        "borderWidth.focus"@ != "radius.full"@,
        "borderWidth.focus"@ != "controlSize.sm"@,
        "borderWidth.focus"@ != "controlSize.md"@,
        "borderWidth.focus"@ != "controlSize.lg"@,
        "borderWidth.focus"@ != "choiceControlSize.sm"@,
        "borderWidth.focus"@ != "choiceControlSize.md"@,
        "borderWidth.focus"@ != "choiceControlSize.lg"@,
        "borderWidth.focus"@ != "switchSize.sm"@,
        "borderWidth.focus"@ != "switchSize.md"@,
        "borderWidth.focus"@ != "switchSize.lg"@,
        "borderWidth.focus"@ != "iconSize.sm"@,
        "borderWidth.focus"@ != "iconSize.md"@,
        "borderWidth.focus"@ != "iconSize.lg"@,
        "borderWidth.focus"@ != "controlRadius.sm"@,
        "borderWidth.focus"@ != "controlRadius.md"@,
        "borderWidth.focus"@ != "controlRadius.lg"@,
        "borderWidth.focus"@ != "controlPaddingInline.sm"@,
        "borderWidth.focus"@ != "controlPaddingInline.md"@,
        "borderWidth.focus"@ != "controlPaddingInline.lg"@,
        "borderWidth.focus"@ != "radius.default"@,
        "spacing.xs"@ != "spacing.sm"@,
        "spacing.xs"@ != "spacing.md"@,
        "spacing.xs"@ != "spacing.lg"@,
        "spacing.xs"@ != "spacing.xl"@,
        "spacing.xs"@ != "radius.sm"@,
        "spacing.xs"@ != "radius.lg"@,
        "spacing.xs"@ != "radius.full"@,
        "spacing.xs"@ != "controlSize.sm"@,
        "spacing.xs"@ != "controlSize.md"@,
        "spacing.xs"@ != "controlSize.lg"@,
        "spacing.xs"@ != "choiceControlSize.sm"@,
        "spacing.xs"@ != "choiceControlSize.md"@,
        "spacing.xs"@ != "choiceControlSize.lg"@,
        "spacing.xs"@ != "switchSize.sm"@,
        "spacing.xs"@ != "switchSize.md"@,
        "spacing.xs"@ != "switchSize.lg"@,
        "spacing.xs"@ != "iconSize.sm"@,
        "spacing.xs"@ != "iconSize.md"@,
        "spacing.xs"@ != "iconSize.lg"@,
        "spacing.xs"@ != "controlRadius.sm"@,
        "spacing.xs"@ != "controlRadius.md"@,
        "spacing.xs"@ != "controlRadius.lg"@,
        "spacing.xs"@ != "controlPaddingInline.sm"@,
        "spacing.xs"@ != "controlPaddingInline.md"@,
        "spacing.xs"@ != "controlPaddingInline.lg"@,
        "spacing.xs"@ != "radius.default"@,
        "spacing.sm"@ != "spacing.md"@,
        "spacing.sm"@ != "spacing.lg"@,
        "spacing.sm"@ != "spacing.xl"@,
        "spacing.sm"@ != "radius.sm"@,
        "spacing.sm"@ != "radius.lg"@,
        "spacing.sm"@ != "radius.full"@,
        "spacing.sm"@ != "controlSize.sm"@,
        "spacing.sm"@ != "controlSize.md"@,
        "spacing.sm"@ != "controlSize.lg"@,
        "spacing.sm"@ != "choiceControlSize.sm"@,
        "spacing.sm"@ != "choiceControlSize.md"@,
        "spacing.sm"@ != "choiceControlSize.lg"@,
        "spacing.sm"@ != "switchSize.sm"@,
        "spacing.sm"@ != "switchSize.md"@,
        "spacing.sm"@ != "switchSize.lg"@,
        "spacing.sm"@ != "iconSize.sm"@,
        "spacing.sm"@ != "iconSize.md"@,
        "spacing.sm"@ != "iconSize.lg"@,
        "spacing.sm"@ != "controlRadius.sm"@,
        "spacing.sm"@ != "controlRadius.md"@,
        "spacing.sm"@ != "controlRadius.lg"@,
        "spacing.sm"@ != "controlPaddingInline.sm"@,
        "spacing.sm"@ != "controlPaddingInline.md"@,
        "spacing.sm"@ != "controlPaddingInline.lg"@,
        "spacing.sm"@ != "radius.default"@,
        "spacing.md"@ != "spacing.lg"@,
        "spacing.md"@ != "spacing.xl"@,
        "spacing.md"@ != "radius.sm"@,
        "spacing.md"@ != "radius.lg"@,
        "spacing.md"@ != "radius.full"@,
        "spacing.md"@ != "controlSize.sm"@,
        "spacing.md"@ != "controlSize.md"@,
        "spacing.md"@ != "controlSize.lg"@,
        "spacing.md"@ != "choiceControlSize.sm"@,
        "spacing.md"@ != "choiceControlSize.md"@,
        "spacing.md"@ != "choiceControlSize.lg"@,
        "spacing.md"@ != "switchSize.sm"@,
        "spacing.md"@ != "switchSize.md"@,
        "spacing.md"@ != "switchSize.lg"@,
        "spacing.md"@ != "iconSize.sm"@,
        "spacing.md"@ != "iconSize.md"@,
        "spacing.md"@ != "iconSize.lg"@,
        "spacing.md"@ != "controlRadius.sm"@,
        "spacing.md"@ != "controlRadius.md"@,
        "spacing.md"@ != "controlRadius.lg"@,
        "spacing.md"@ != "controlPaddingInline.sm"@,
        "spacing.md"@ != "controlPaddingInline.md"@,
        "spacing.md"@ != "controlPaddingInline.lg"@,
        "spacing.md"@ != "radius.default"@,
        "spacing.lg"@ != "spacing.xl"@,
        "spacing.lg"@ != "radius.sm"@,
        "spacing.lg"@ != "radius.lg"@,
        "spacing.lg"@ != "radius.full"@,
        "spacing.lg"@ != "controlSize.sm"@,
        "spacing.lg"@ != "controlSize.md"@,
        "spacing.lg"@ != "controlSize.lg"@,
        "spacing.lg"@ != "choiceControlSize.sm"@,
        "spacing.lg"@ != "choiceControlSize.md"@,
        "spacing.lg"@ != "choiceControlSize.lg"@,
        "spacing.lg"@ != "switchSize.sm"@,
        "spacing.lg"@ != "switchSize.md"@,
        "spacing.lg"@ != "switchSize.lg"@,
        "spacing.lg"@ != "iconSize.sm"@,
        "spacing.lg"@ != "iconSize.md"@,
        "spacing.lg"@ != "iconSize.lg"@,
        "spacing.lg"@ != "controlRadius.sm"@,
        "spacing.lg"@ != "controlRadius.md"@,
        "spacing.lg"@ != "controlRadius.lg"@,
        "spacing.lg"@ != "controlPaddingInline.sm"@,
        "spacing.lg"@ != "controlPaddingInline.md"@,
        "spacing.lg"@ != "controlPaddingInline.lg"@,
        "spacing.lg"@ != "radius.default"@,
        "spacing.xl"@ != "radius.sm"@,
        "spacing.xl"@ != "radius.lg"@,
        "spacing.xl"@ != "radius.full"@,
        "spacing.xl"@ != "controlSize.sm"@,
        "spacing.xl"@ != "controlSize.md"@,
        "spacing.xl"@ != "controlSize.lg"@,
        "spacing.xl"@ != "choiceControlSize.sm"@,
        "spacing.xl"@ != "choiceControlSize.md"@,
        "spacing.xl"@ != "choiceControlSize.lg"@,
        "spacing.xl"@ != "switchSize.sm"@,
        "spacing.xl"@ != "switchSize.md"@,
        "spacing.xl"@ != "switchSize.lg"@,
        "spacing.xl"@ != "iconSize.sm"@,
        "spacing.xl"@ != "iconSize.md"@,
        "spacing.xl"@ != "iconSize.lg"@,
        "spacing.xl"@ != "controlRadius.sm"@,
        "spacing.xl"@ != "controlRadius.md"@,
        "spacing.xl"@ != "controlRadius.lg"@,
        "spacing.xl"@ != "controlPaddingInline.sm"@,
        "spacing.xl"@ != "controlPaddingInline.md"@,
        "spacing.xl"@ != "controlPaddingInline.lg"@,
        "spacing.xl"@ != "radius.default"@,
        "radius.sm"@ != "radius.lg"@,
        "radius.sm"@ != "radius.full"@,
        "radius.sm"@ != "controlSize.sm"@,
        "radius.sm"@ != "controlSize.md"@,
        "radius.sm"@ != "controlSize.lg"@,
        "radius.sm"@ != "choiceControlSize.sm"@,
        "radius.sm"@ != "choiceControlSize.md"@,
        "radius.sm"@ != "choiceControlSize.lg"@,
        "radius.sm"@ != "switchSize.sm"@,
        "radius.sm"@ != "switchSize.md"@,
        "radius.sm"@ != "switchSize.lg"@,
        "radius.sm"@ != "iconSize.sm"@,
        "radius.sm"@ != "iconSize.md"@,
        "radius.sm"@ != "iconSize.lg"@,
        "radius.sm"@ != "controlRadius.sm"@,
        "radius.sm"@ != "controlRadius.md"@,
        "radius.sm"@ != "controlRadius.lg"@,
        "radius.sm"@ != "controlPaddingInline.sm"@,
        "radius.sm"@ != "controlPaddingInline.md"@,
        "radius.sm"@ != "controlPaddingInline.lg"@,
        "radius.sm"@ != "radius.default"@,
        "radius.lg"@ != "radius.full"@,
        "radius.lg"@ != "controlSize.sm"@,
        "radius.lg"@ != "controlSize.md"@,
        "radius.lg"@ != "controlSize.lg"@,
        "radius.lg"@ != "choiceControlSize.sm"@,
        "radius.lg"@ != "choiceControlSize.md"@,
        "radius.lg"@ != "choiceControlSize.lg"@,
        "radius.lg"@ != "switchSize.sm"@,
        "radius.lg"@ != "switchSize.md"@,
        "radius.lg"@ != "switchSize.lg"@,
        "radius.lg"@ != "iconSize.sm"@,
        "radius.lg"@ != "iconSize.md"@,
        "radius.lg"@ != "iconSize.lg"@,
        "radius.lg"@ != "controlRadius.sm"@,
        "radius.lg"@ != "controlRadius.md"@,
        "radius.lg"@ != "controlRadius.lg"@,
        "radius.lg"@ != "controlPaddingInline.sm"@,
        "radius.lg"@ != "controlPaddingInline.md"@,
        "radius.lg"@ != "controlPaddingInline.lg"@,
        "radius.lg"@ != "radius.default"@,
        "radius.full"@ != "controlSize.sm"@,
        "radius.full"@ != "controlSize.md"@,
        "radius.full"@ != "controlSize.lg"@,
        "radius.full"@ != "choiceControlSize.sm"@,
        "radius.full"@ != "choiceControlSize.md"@,
        "radius.full"@ != "choiceControlSize.lg"@,
        "radius.full"@ != "switchSize.sm"@,
        "radius.full"@ != "switchSize.md"@,
        "radius.full"@ != "switchSize.lg"@,
        "radius.full"@ != "iconSize.sm"@,
        "radius.full"@ != "iconSize.md"@,
        "radius.full"@ != "iconSize.lg"@,
        "radius.full"@ != "controlRadius.sm"@,
        "radius.full"@ != "controlRadius.md"@,
        "radius.full"@ != "controlRadius.lg"@,
        "radius.full"@ != "controlPaddingInline.sm"@,
        "radius.full"@ != "controlPaddingInline.md"@,
        "radius.full"@ != "controlPaddingInline.lg"@,
        "radius.full"@ != "radius.default"@,
        "controlSize.sm"@ != "controlSize.md"@,
        "controlSize.sm"@ != "controlSize.lg"@,
        "controlSize.sm"@ != "choiceControlSize.sm"@,
        "controlSize.sm"@ != "choiceControlSize.md"@,
        "controlSize.sm"@ != "choiceControlSize.lg"@,
        "controlSize.sm"@ != "switchSize.sm"@,
        "controlSize.sm"@ != "switchSize.md"@,
        "controlSize.sm"@ != "switchSize.lg"@,
        "controlSize.sm"@ != "iconSize.sm"@,
        "controlSize.sm"@ != "iconSize.md"@,
        "controlSize.sm"@ != "iconSize.lg"@,
        "controlSize.sm"@ != "controlRadius.sm"@,
        "controlSize.sm"@ != "controlRadius.md"@,
        "controlSize.sm"@ != "controlRadius.lg"@,
        "controlSize.sm"@ != "controlPaddingInline.sm"@,
        "controlSize.sm"@ != "controlPaddingInline.md"@,
        "controlSize.sm"@ != "controlPaddingInline.lg"@,
        "controlSize.sm"@ != "radius.default"@,
        "controlSize.md"@ != "controlSize.lg"@,
        "controlSize.md"@ != "choiceControlSize.sm"@,
        "controlSize.md"@ != "choiceControlSize.md"@,
        "controlSize.md"@ != "choiceControlSize.lg"@,
        "controlSize.md"@ != "switchSize.sm"@,
        "controlSize.md"@ != "switchSize.md"@,
        "controlSize.md"@ != "switchSize.lg"@,
        "controlSize.md"@ != "iconSize.sm"@,
        "controlSize.md"@ != "iconSize.md"@,
        "controlSize.md"@ != "iconSize.lg"@,
        "controlSize.md"@ != "controlRadius.sm"@,
        "controlSize.md"@ != "controlRadius.md"@,
        "controlSize.md"@ != "controlRadius.lg"@,
        "controlSize.md"@ != "controlPaddingInline.sm"@,
        "controlSize.md"@ != "controlPaddingInline.md"@,
        "controlSize.md"@ != "controlPaddingInline.lg"@,
        "controlSize.md"@ != "radius.default"@,
        "controlSize.lg"@ != "choiceControlSize.sm"@,
        "controlSize.lg"@ != "choiceControlSize.md"@,
        "controlSize.lg"@ != "choiceControlSize.lg"@,
        "controlSize.lg"@ != "switchSize.sm"@,
        "controlSize.lg"@ != "switchSize.md"@,
        "controlSize.lg"@ != "switchSize.lg"@,
        "controlSize.lg"@ != "iconSize.sm"@,
        "controlSize.lg"@ != "iconSize.md"@,
        "controlSize.lg"@ != "iconSize.lg"@,
        "controlSize.lg"@ != "controlRadius.sm"@,
        "controlSize.lg"@ != "controlRadius.md"@,
        "controlSize.lg"@ != "controlRadius.lg"@,
        "controlSize.lg"@ != "controlPaddingInline.sm"@,
        "controlSize.lg"@ != "controlPaddingInline.md"@,
        "controlSize.lg"@ != "controlPaddingInline.lg"@,
        "controlSize.lg"@ != "radius.default"@,
        "choiceControlSize.sm"@ != "choiceControlSize.md"@,
        "choiceControlSize.sm"@ != "choiceControlSize.lg"@,
        "choiceControlSize.sm"@ != "switchSize.sm"@,
        "choiceControlSize.sm"@ != "switchSize.md"@,
        "choiceControlSize.sm"@ != "switchSize.lg"@,
        "choiceControlSize.sm"@ != "iconSize.sm"@,
        "choiceControlSize.sm"@ != "iconSize.md"@,
        "choiceControlSize.sm"@ != "iconSize.lg"@,
        "choiceControlSize.sm"@ != "controlRadius.sm"@,
        "choiceControlSize.sm"@ != "controlRadius.md"@,
        "choiceControlSize.sm"@ != "controlRadius.lg"@,
        "choiceControlSize.sm"@ != "controlPaddingInline.sm"@,
        "choiceControlSize.sm"@ != "controlPaddingInline.md"@,
        "choiceControlSize.sm"@ != "controlPaddingInline.lg"@,
        "choiceControlSize.sm"@ != "radius.default"@,
        "choiceControlSize.md"@ != "choiceControlSize.lg"@,
        "choiceControlSize.md"@ != "switchSize.sm"@,
        "choiceControlSize.md"@ != "switchSize.md"@,
        "choiceControlSize.md"@ != "switchSize.lg"@,
        "choiceControlSize.md"@ != "iconSize.sm"@,
        "choiceControlSize.md"@ != "iconSize.md"@,
        "choiceControlSize.md"@ != "iconSize.lg"@,
        "choiceControlSize.md"@ != "controlRadius.sm"@,
        "choiceControlSize.md"@ != "controlRadius.md"@,
        "choiceControlSize.md"@ != "controlRadius.lg"@,
        "choiceControlSize.md"@ != "controlPaddingInline.sm"@,
        "choiceControlSize.md"@ != "controlPaddingInline.md"@,
        "choiceControlSize.md"@ != "controlPaddingInline.lg"@,
        "choiceControlSize.md"@ != "radius.default"@,
        "choiceControlSize.lg"@ != "switchSize.sm"@,
        "choiceControlSize.lg"@ != "switchSize.md"@,
        "choiceControlSize.lg"@ != "switchSize.lg"@,
        "choiceControlSize.lg"@ != "iconSize.sm"@,
        "choiceControlSize.lg"@ != "iconSize.md"@,
        "choiceControlSize.lg"@ != "iconSize.lg"@,
        "choiceControlSize.lg"@ != "controlRadius.sm"@,
        "choiceControlSize.lg"@ != "controlRadius.md"@,
        "choiceControlSize.lg"@ != "controlRadius.lg"@,
        "choiceControlSize.lg"@ != "controlPaddingInline.sm"@,
        "choiceControlSize.lg"@ != "controlPaddingInline.md"@,
        "choiceControlSize.lg"@ != "controlPaddingInline.lg"@,
        "choiceControlSize.lg"@ != "radius.default"@,
        "switchSize.sm"@ != "switchSize.md"@,
        "switchSize.sm"@ != "switchSize.lg"@,
        "switchSize.sm"@ != "iconSize.sm"@,
        "switchSize.sm"@ != "iconSize.md"@,
        "switchSize.sm"@ != "iconSize.lg"@,
        "switchSize.sm"@ != "controlRadius.sm"@,
        "switchSize.sm"@ != "controlRadius.md"@,
        "switchSize.sm"@ != "controlRadius.lg"@,
        "switchSize.sm"@ != "controlPaddingInline.sm"@,
        "switchSize.sm"@ != "controlPaddingInline.md"@,
        "switchSize.sm"@ != "controlPaddingInline.lg"@,
        "switchSize.sm"@ != "radius.default"@,
        "switchSize.md"@ != "switchSize.lg"@,
        "switchSize.md"@ != "iconSize.sm"@,
        "switchSize.md"@ != "iconSize.md"@,
        "switchSize.md"@ != "iconSize.lg"@,
        "switchSize.md"@ != "controlRadius.sm"@,
        "switchSize.md"@ != "controlRadius.md"@,
        "switchSize.md"@ != "controlRadius.lg"@,
        "switchSize.md"@ != "controlPaddingInline.sm"@,
        "switchSize.md"@ != "controlPaddingInline.md"@,
        "switchSize.md"@ != "controlPaddingInline.lg"@,
        "switchSize.md"@ != "radius.default"@,
        "switchSize.lg"@ != "iconSize.sm"@,
        "switchSize.lg"@ != "iconSize.md"@,
        "switchSize.lg"@ != "iconSize.lg"@,
        "switchSize.lg"@ != "controlRadius.sm"@,
        "switchSize.lg"@ != "controlRadius.md"@,
        "switchSize.lg"@ != "controlRadius.lg"@,
        "switchSize.lg"@ != "controlPaddingInline.sm"@,
        "switchSize.lg"@ != "controlPaddingInline.md"@,
        "switchSize.lg"@ != "controlPaddingInline.lg"@,
        "switchSize.lg"@ != "radius.default"@,
        "iconSize.sm"@ != "iconSize.md"@,
        "iconSize.sm"@ != "iconSize.lg"@,
        "iconSize.sm"@ != "controlRadius.sm"@,
        "iconSize.sm"@ != "controlRadius.md"@,
        "iconSize.sm"@ != "controlRadius.lg"@,
        "iconSize.sm"@ != "controlPaddingInline.sm"@,
        "iconSize.sm"@ != "controlPaddingInline.md"@,
        "iconSize.sm"@ != "controlPaddingInline.lg"@,
        "iconSize.sm"@ != "radius.default"@,
        "iconSize.md"@ != "iconSize.lg"@,
        "iconSize.md"@ != "controlRadius.sm"@,
        "iconSize.md"@ != "controlRadius.md"@,
        "iconSize.md"@ != "controlRadius.lg"@,
        "iconSize.md"@ != "controlPaddingInline.sm"@,
        "iconSize.md"@ != "controlPaddingInline.md"@,
        "iconSize.md"@ != "controlPaddingInline.lg"@,
        "iconSize.md"@ != "radius.default"@,
        "iconSize.lg"@ != "controlRadius.sm"@,
        "iconSize.lg"@ != "controlRadius.md"@,
        "iconSize.lg"@ != "controlRadius.lg"@,
        "iconSize.lg"@ != "controlPaddingInline.sm"@,
        "iconSize.lg"@ != "controlPaddingInline.md"@,
        "iconSize.lg"@ != "controlPaddingInline.lg"@,
        "iconSize.lg"@ != "radius.default"@,
        "controlRadius.sm"@ != "controlRadius.md"@,
        "controlRadius.sm"@ != "controlRadius.lg"@,
        "controlRadius.sm"@ != "controlPaddingInline.sm"@,
        "controlRadius.sm"@ != "controlPaddingInline.md"@,
        "controlRadius.sm"@ != "controlPaddingInline.lg"@,
        "controlRadius.sm"@ != "radius.default"@,
        "controlRadius.md"@ != "controlRadius.lg"@,
        "controlRadius.md"@ != "controlPaddingInline.sm"@,
        "controlRadius.md"@ != "controlPaddingInline.md"@,
        "controlRadius.md"@ != "controlPaddingInline.lg"@,
        "controlRadius.md"@ != "radius.default"@,
        "controlRadius.lg"@ != "controlPaddingInline.sm"@,
        "controlRadius.lg"@ != "controlPaddingInline.md"@,
        "controlRadius.lg"@ != "controlPaddingInline.lg"@,
        "controlRadius.lg"@ != "radius.default"@,
        "controlPaddingInline.sm"@ != "controlPaddingInline.md"@,
        "controlPaddingInline.sm"@ != "controlPaddingInline.lg"@,
        "controlPaddingInline.sm"@ != "radius.default"@,
        "controlPaddingInline.md"@ != "controlPaddingInline.lg"@,
        "controlPaddingInline.md"@ != "radius.default"@,
        "controlPaddingInline.lg"@ != "radius.default"@,
{
    reveal_strlit("fontSize.xs");
    assert("fontSize.xs"@.len() == 11);
    reveal_strlit("fontSize.caption");
    assert("fontSize.caption"@.len() == 16);
    reveal_strlit("fontSize.sm");
    assert("fontSize.sm"@.len() == 11);
    reveal_strlit("fontSize.md");
    assert("fontSize.md"@.len() == 11);
    reveal_strlit("fontSize.lg");
    assert("fontSize.lg"@.len() == 11);
    reveal_strlit("fontSize.helper");
    assert("fontSize.helper"@.len() == 15);
    reveal_strlit("borderWidth.none");
    assert("borderWidth.none"@.len() == 16);
    reveal_strlit("borderWidth.sm");
    assert("borderWidth.sm"@.len() == 14);
    reveal_strlit("borderWidth.focus");
    assert("borderWidth.focus"@.len() == 17);
    reveal_strlit("spacing.xs");
    assert("spacing.xs"@.len() == 10);
    reveal_strlit("spacing.sm");
    assert("spacing.sm"@.len() == 10);
    reveal_strlit("spacing.md");
    assert("spacing.md"@.len() == 10);
    reveal_strlit("spacing.lg");
    assert("spacing.lg"@.len() == 10);
    reveal_strlit("spacing.xl");
    assert("spacing.xl"@.len() == 10);
    reveal_strlit("radius.sm");
    assert("radius.sm"@.len() == 9);
    reveal_strlit("radius.lg");
    assert("radius.lg"@.len() == 9);
    reveal_strlit("radius.full");
    assert("radius.full"@.len() == 11);
    reveal_strlit("controlSize.sm");
    assert("controlSize.sm"@.len() == 14);
    reveal_strlit("controlSize.md");
    assert("controlSize.md"@.len() == 14);
    reveal_strlit("controlSize.lg");
    assert("controlSize.lg"@.len() == 14);
    reveal_strlit("choiceControlSize.sm");
    assert("choiceControlSize.sm"@.len() == 20);
    reveal_strlit("choiceControlSize.md");
    assert("choiceControlSize.md"@.len() == 20);
    reveal_strlit("choiceControlSize.lg");
    assert("choiceControlSize.lg"@.len() == 20);
    reveal_strlit("switchSize.sm");
    assert("switchSize.sm"@.len() == 13);
    reveal_strlit("switchSize.md");
    assert("switchSize.md"@.len() == 13);
    reveal_strlit("switchSize.lg");
    assert("switchSize.lg"@.len() == 13);
    reveal_strlit("iconSize.sm");
    assert("iconSize.sm"@.len() == 11);
    reveal_strlit("iconSize.md");
    assert("iconSize.md"@.len() == 11);
    reveal_strlit("iconSize.lg");
    assert("iconSize.lg"@.len() == 11);
    reveal_strlit("controlRadius.sm");
    assert("controlRadius.sm"@.len() == 16);
    reveal_strlit("controlRadius.md");
    assert("controlRadius.md"@.len() == 16);
    reveal_strlit("controlRadius.lg");
    assert("controlRadius.lg"@.len() == 16);
    reveal_strlit("controlPaddingInline.sm");
    assert("controlPaddingInline.sm"@.len() == 23);
    reveal_strlit("controlPaddingInline.md");
    assert("controlPaddingInline.md"@.len() == 23);
    reveal_strlit("controlPaddingInline.lg");
    assert("controlPaddingInline.lg"@.len() == 23);
    reveal_strlit("radius.default");
    assert("radius.default"@.len() == 14);
    assert("fontSize.xs"@[9] != "fontSize.sm"@[9]);
    assert("fontSize.xs"@[9] != "fontSize.md"@[9]);
    assert("fontSize.xs"@[9] != "fontSize.lg"@[9]);
    assert("fontSize.xs"@[0] != "radius.full"@[0]);
    assert("fontSize.xs"@[0] != "iconSize.sm"@[0]);
    assert("fontSize.xs"@[0] != "iconSize.md"@[0]);
    assert("fontSize.xs"@[0] != "iconSize.lg"@[0]);
    assert("fontSize.caption"@[0] != "borderWidth.none"@[0]);
    assert("fontSize.caption"@[0] != "controlRadius.sm"@[0]);
    assert("fontSize.caption"@[0] != "controlRadius.md"@[0]);
    assert("fontSize.caption"@[0] != "controlRadius.lg"@[0]);
    assert("fontSize.sm"@[9] != "fontSize.md"@[9]);
    assert("fontSize.sm"@[9] != "fontSize.lg"@[9]);
    assert("fontSize.sm"@[0] != "radius.full"@[0]);
    assert("fontSize.sm"@[0] != "iconSize.sm"@[0]);
    assert("fontSize.sm"@[0] != "iconSize.md"@[0]);
    assert("fontSize.sm"@[0] != "iconSize.lg"@[0]);
    assert("fontSize.md"@[9] != "fontSize.lg"@[9]);
    assert("fontSize.md"@[0] != "radius.full"@[0]);
    assert("fontSize.md"@[0] != "iconSize.sm"@[0]);
    assert("fontSize.md"@[0] != "iconSize.md"@[0]);
    assert("fontSize.md"@[0] != "iconSize.lg"@[0]);
    assert("fontSize.lg"@[0] != "radius.full"@[0]);
    assert("fontSize.lg"@[0] != "iconSize.sm"@[0]);
    assert("fontSize.lg"@[0] != "iconSize.md"@[0]);
    assert("fontSize.lg"@[0] != "iconSize.lg"@[0]);
    assert("borderWidth.none"@[0] != "controlRadius.sm"@[0]);
    assert("borderWidth.none"@[0] != "controlRadius.md"@[0]);
    assert("borderWidth.none"@[0] != "controlRadius.lg"@[0]);
    assert("borderWidth.sm"@[0] != "controlSize.sm"@[0]);
    assert("borderWidth.sm"@[0] != "controlSize.md"@[0]);
    assert("borderWidth.sm"@[0] != "controlSize.lg"@[0]);
    assert("borderWidth.sm"@[0] != "radius.default"@[0]);
    assert("spacing.xs"@[8] != "spacing.sm"@[8]);
    assert("spacing.xs"@[8] != "spacing.md"@[8]);
    assert("spacing.xs"@[8] != "spacing.lg"@[8]);
    assert("spacing.xs"@[9] != "spacing.xl"@[9]);
    assert("spacing.sm"@[8] != "spacing.md"@[8]);
    assert("spacing.sm"@[8] != "spacing.lg"@[8]);
    assert("spacing.sm"@[8] != "spacing.xl"@[8]);
    assert("spacing.md"@[8] != "spacing.lg"@[8]);
    assert("spacing.md"@[8] != "spacing.xl"@[8]);
    assert("spacing.lg"@[8] != "spacing.xl"@[8]);
    assert("radius.sm"@[7] != "radius.lg"@[7]);
    assert("radius.full"@[0] != "iconSize.sm"@[0]);
    assert("radius.full"@[0] != "iconSize.md"@[0]);
    assert("radius.full"@[0] != "iconSize.lg"@[0]);
    assert("controlSize.sm"@[12] != "controlSize.md"@[12]);
    assert("controlSize.sm"@[12] != "controlSize.lg"@[12]);
    assert("controlSize.sm"@[0] != "radius.default"@[0]);
    assert("controlSize.md"@[12] != "controlSize.lg"@[12]);
    assert("controlSize.md"@[0] != "radius.default"@[0]);
    assert("controlSize.lg"@[0] != "radius.default"@[0]);
    assert("choiceControlSize.sm"@[18] != "choiceControlSize.md"@[18]);
    assert("choiceControlSize.sm"@[18] != "choiceControlSize.lg"@[18]);
    assert("choiceControlSize.md"@[18] != "choiceControlSize.lg"@[18]);
    assert("switchSize.sm"@[11] != "switchSize.md"@[11]);
    assert("switchSize.sm"@[11] != "switchSize.lg"@[11]);
    assert("switchSize.md"@[11] != "switchSize.lg"@[11]);
    assert("iconSize.sm"@[9] != "iconSize.md"@[9]);
    assert("iconSize.sm"@[9] != "iconSize.lg"@[9]);
    assert("iconSize.md"@[9] != "iconSize.lg"@[9]);
    assert("controlRadius.sm"@[14] != "controlRadius.md"@[14]);
    assert("controlRadius.sm"@[14] != "controlRadius.lg"@[14]);
    assert("controlRadius.md"@[14] != "controlRadius.lg"@[14]);
    assert("controlPaddingInline.sm"@[21] != "controlPaddingInline.md"@[21]);
    assert("controlPaddingInline.sm"@[21] != "controlPaddingInline.lg"@[21]);
    assert("controlPaddingInline.md"@[21] != "controlPaddingInline.lg"@[21]);
}

proof fn lemma_panel_fontsize(panel: PanelModel, t: Tokens)
    requires
        set_has_shared(t, panel.tokens),
    ensures
        shows_number(panel, t, "fontSize"@, "xs"@),
        shows_number(panel, t, "fontSize"@, "caption"@),
        shows_number(panel, t, "fontSize"@, "sm"@),
        shows_number(panel, t, "fontSize"@, "md"@),
        shows_number(panel, t, "fontSize"@, "lg"@),
        shows_number(panel, t, "fontSize"@, "helper"@),
{
    lemma_number_paths();
    reveal_strlit(".");
    reveal_strlit("fontSize");
    reveal_strlit("xs");
    reveal_strlit("fontSize.xs");
    reveal_strlit("caption");
    reveal_strlit("fontSize.caption");
    reveal_strlit("sm");
    reveal_strlit("fontSize.sm");
    reveal_strlit("md");
    reveal_strlit("fontSize.md");
    reveal_strlit("lg");
    reveal_strlit("fontSize.lg");
    reveal_strlit("helper");
    reveal_strlit("fontSize.helper");
    assert(path("fontSize"@, "xs"@) =~= "fontSize.xs"@);
    assert(path("fontSize"@, "caption"@) =~= "fontSize.caption"@);
    assert(path("fontSize"@, "sm"@) =~= "fontSize.sm"@);
    assert(path("fontSize"@, "md"@) =~= "fontSize.md"@);
    assert(path("fontSize"@, "lg"@) =~= "fontSize.lg"@);
    assert(path("fontSize"@, "helper"@) =~= "fontSize.helper"@);
}

proof fn lemma_panel_borderwidth(panel: PanelModel, t: Tokens)
    requires
        set_has_shared(t, panel.tokens),
    ensures
        shows_number(panel, t, "borderWidth"@, "none"@),
        shows_number(panel, t, "borderWidth"@, "sm"@),
        shows_number(panel, t, "borderWidth"@, "focus"@),
{
    lemma_number_paths();
    reveal_strlit(".");
    reveal_strlit("borderWidth");
    reveal_strlit("none");
    reveal_strlit("borderWidth.none");
    reveal_strlit("sm");
    reveal_strlit("borderWidth.sm");
    reveal_strlit("focus");
    reveal_strlit("borderWidth.focus");
    assert(path("borderWidth"@, "none"@) =~= "borderWidth.none"@);
    assert(path("borderWidth"@, "sm"@) =~= "borderWidth.sm"@);
    assert(path("borderWidth"@, "focus"@) =~= "borderWidth.focus"@);
}

proof fn lemma_panel_spacing(panel: PanelModel, t: Tokens)
    requires
        set_has_shared(t, panel.tokens),
    ensures
        shows_number(panel, t, "spacing"@, "xs"@),
        shows_number(panel, t, "spacing"@, "sm"@),
        shows_number(panel, t, "spacing"@, "md"@),
        shows_number(panel, t, "spacing"@, "lg"@),
        shows_number(panel, t, "spacing"@, "xl"@),
{
    lemma_number_paths();
    reveal_strlit(".");
    reveal_strlit("spacing");
    reveal_strlit("xs");
    reveal_strlit("spacing.xs");
    reveal_strlit("sm");
    reveal_strlit("spacing.sm");
    reveal_strlit("md");
    reveal_strlit("spacing.md");
    reveal_strlit("lg");
    reveal_strlit("spacing.lg");
    reveal_strlit("xl");
    reveal_strlit("spacing.xl");
    assert(path("spacing"@, "xs"@) =~= "spacing.xs"@);
    assert(path("spacing"@, "sm"@) =~= "spacing.sm"@);
    assert(path("spacing"@, "md"@) =~= "spacing.md"@);
    assert(path("spacing"@, "lg"@) =~= "spacing.lg"@);
    assert(path("spacing"@, "xl"@) =~= "spacing.xl"@);
}

proof fn lemma_panel_radius(panel: PanelModel, t: Tokens)
    requires
        set_has_shared(t, panel.tokens),
    ensures
        shows_number(panel, t, "radius"@, "sm"@),
        shows_number(panel, t, "radius"@, "lg"@),
        shows_number(panel, t, "radius"@, "full"@),
{
    lemma_number_paths();
    reveal_strlit(".");
    reveal_strlit("radius");
    reveal_strlit("sm");
    reveal_strlit("radius.sm");
    reveal_strlit("lg");
    reveal_strlit("radius.lg");
    reveal_strlit("full");
    reveal_strlit("radius.full");
    assert(path("radius"@, "sm"@) =~= "radius.sm"@);
    assert(path("radius"@, "lg"@) =~= "radius.lg"@);
    assert(path("radius"@, "full"@) =~= "radius.full"@);
}

proof fn lemma_panel_controlsize(panel: PanelModel, t: Tokens)
    requires
        set_has_shared(t, panel.tokens),
    ensures
        shows_number(panel, t, "controlSize"@, "sm"@),
        shows_number(panel, t, "controlSize"@, "md"@),
        shows_number(panel, t, "controlSize"@, "lg"@),
{
    lemma_number_paths();
    reveal_strlit(".");
    reveal_strlit("controlSize");
    reveal_strlit("sm");
    reveal_strlit("controlSize.sm");
    reveal_strlit("md");
    reveal_strlit("controlSize.md");
    reveal_strlit("lg");
    reveal_strlit("controlSize.lg");
    assert(path("controlSize"@, "sm"@) =~= "controlSize.sm"@);
    assert(path("controlSize"@, "md"@) =~= "controlSize.md"@);
    assert(path("controlSize"@, "lg"@) =~= "controlSize.lg"@);
}

proof fn lemma_panel_choicecontrolsize(panel: PanelModel, t: Tokens)
    requires
        set_has_shared(t, panel.tokens),
    ensures
        shows_number(panel, t, "choiceControlSize"@, "sm"@),
        shows_number(panel, t, "choiceControlSize"@, "md"@),
        shows_number(panel, t, "choiceControlSize"@, "lg"@),
{
    lemma_number_paths();
    reveal_strlit(".");
    reveal_strlit("choiceControlSize");
    reveal_strlit("sm");
    reveal_strlit("choiceControlSize.sm");
    reveal_strlit("md");
    reveal_strlit("choiceControlSize.md");
    reveal_strlit("lg");
    reveal_strlit("choiceControlSize.lg");
    assert(path("choiceControlSize"@, "sm"@) =~= "choiceControlSize.sm"@);
    assert(path("choiceControlSize"@, "md"@) =~= "choiceControlSize.md"@);
    assert(path("choiceControlSize"@, "lg"@) =~= "choiceControlSize.lg"@);
}

proof fn lemma_panel_switchsize(panel: PanelModel, t: Tokens)
    requires
        set_has_shared(t, panel.tokens),
    ensures
        shows_number(panel, t, "switchSize"@, "sm"@),
        shows_number(panel, t, "switchSize"@, "md"@),
        shows_number(panel, t, "switchSize"@, "lg"@),
{
    lemma_number_paths();
    reveal_strlit(".");
    reveal_strlit("switchSize");
    reveal_strlit("sm");
    reveal_strlit("switchSize.sm");
    reveal_strlit("md");
    reveal_strlit("switchSize.md");
    reveal_strlit("lg");
    reveal_strlit("switchSize.lg");
    assert(path("switchSize"@, "sm"@) =~= "switchSize.sm"@);
    assert(path("switchSize"@, "md"@) =~= "switchSize.md"@);
    assert(path("switchSize"@, "lg"@) =~= "switchSize.lg"@);
}

proof fn lemma_panel_iconsize(panel: PanelModel, t: Tokens)
    requires
        set_has_shared(t, panel.tokens),
    ensures
        shows_number(panel, t, "iconSize"@, "sm"@),
        shows_number(panel, t, "iconSize"@, "md"@),
        shows_number(panel, t, "iconSize"@, "lg"@),
{
    lemma_number_paths();
    reveal_strlit(".");
    reveal_strlit("iconSize");
    reveal_strlit("sm");
    reveal_strlit("iconSize.sm");
    reveal_strlit("md");
    reveal_strlit("iconSize.md");
    reveal_strlit("lg");
    reveal_strlit("iconSize.lg");
    assert(path("iconSize"@, "sm"@) =~= "iconSize.sm"@);
    assert(path("iconSize"@, "md"@) =~= "iconSize.md"@);
    assert(path("iconSize"@, "lg"@) =~= "iconSize.lg"@);
}

proof fn lemma_panel_controlradius(panel: PanelModel, t: Tokens)
    requires
        set_has_shared(t, panel.tokens),
    ensures
        shows_number(panel, t, "controlRadius"@, "sm"@),
        shows_number(panel, t, "controlRadius"@, "md"@),
        shows_number(panel, t, "controlRadius"@, "lg"@),
{
    lemma_number_paths();
    reveal_strlit(".");
    reveal_strlit("controlRadius");
    reveal_strlit("sm");
    reveal_strlit("controlRadius.sm");
    reveal_strlit("md");
    reveal_strlit("controlRadius.md");
    reveal_strlit("lg");
    reveal_strlit("controlRadius.lg");
    assert(path("controlRadius"@, "sm"@) =~= "controlRadius.sm"@);
    assert(path("controlRadius"@, "md"@) =~= "controlRadius.md"@);
    assert(path("controlRadius"@, "lg"@) =~= "controlRadius.lg"@);
}

proof fn lemma_panel_controlpaddinginline(panel: PanelModel, t: Tokens)
    requires
        set_has_shared(t, panel.tokens),
    ensures
        shows_number(panel, t, "controlPaddingInline"@, "sm"@),
        shows_number(panel, t, "controlPaddingInline"@, "md"@),
        shows_number(panel, t, "controlPaddingInline"@, "lg"@),
{
    lemma_number_paths();
    reveal_strlit(".");
    reveal_strlit("controlPaddingInline");
    reveal_strlit("sm");
    reveal_strlit("controlPaddingInline.sm");
    reveal_strlit("md");
    reveal_strlit("controlPaddingInline.md");
    reveal_strlit("lg");
    reveal_strlit("controlPaddingInline.lg");
    assert(path("controlPaddingInline"@, "sm"@) =~= "controlPaddingInline.sm"@);
    assert(path("controlPaddingInline"@, "md"@) =~= "controlPaddingInline.md"@);
    assert(path("controlPaddingInline"@, "lg"@) =~= "controlPaddingInline.lg"@);
}

/// The numbers that the panel shows are those of the exported tokens of the theme in it.
pub proof fn panel_shows_exported_numbers(panel: PanelModel, t: Tokens)
    requires
        set_has_shared(t, panel.tokens),
    ensures
        shows_number(panel, t, "fontSize"@, "xs"@),
        shows_number(panel, t, "fontSize"@, "caption"@),
        shows_number(panel, t, "fontSize"@, "sm"@),
        shows_number(panel, t, "fontSize"@, "md"@),
        shows_number(panel, t, "fontSize"@, "lg"@),
        shows_number(panel, t, "fontSize"@, "helper"@),
        shows_number(panel, t, "borderWidth"@, "none"@),
        shows_number(panel, t, "borderWidth"@, "sm"@),
        shows_number(panel, t, "borderWidth"@, "focus"@),
        shows_number(panel, t, "spacing"@, "xs"@),
        shows_number(panel, t, "spacing"@, "sm"@),
        shows_number(panel, t, "spacing"@, "md"@),
        shows_number(panel, t, "spacing"@, "lg"@),
        shows_number(panel, t, "spacing"@, "xl"@),
        shows_number(panel, t, "radius"@, "sm"@),
        shows_number(panel, t, "radius"@, "lg"@),
        shows_number(panel, t, "radius"@, "full"@),
        shows_number(panel, t, "controlSize"@, "sm"@),
        shows_number(panel, t, "controlSize"@, "md"@),
        shows_number(panel, t, "controlSize"@, "lg"@),
        shows_number(panel, t, "choiceControlSize"@, "sm"@),
        shows_number(panel, t, "choiceControlSize"@, "md"@),
        shows_number(panel, t, "choiceControlSize"@, "lg"@),
        shows_number(panel, t, "switchSize"@, "sm"@),
        shows_number(panel, t, "switchSize"@, "md"@),
        shows_number(panel, t, "switchSize"@, "lg"@),
        shows_number(panel, t, "iconSize"@, "sm"@),
        shows_number(panel, t, "iconSize"@, "md"@),
        shows_number(panel, t, "iconSize"@, "lg"@),
        shows_number(panel, t, "controlRadius"@, "sm"@),
        shows_number(panel, t, "controlRadius"@, "md"@),
        shows_number(panel, t, "controlRadius"@, "lg"@),
        shows_number(panel, t, "controlPaddingInline"@, "sm"@),
        shows_number(panel, t, "controlPaddingInline"@, "md"@),
        shows_number(panel, t, "controlPaddingInline"@, "lg"@),
{
    lemma_panel_fontsize(panel, t);
    lemma_panel_borderwidth(panel, t);
    lemma_panel_spacing(panel, t);
    lemma_panel_radius(panel, t);
    lemma_panel_controlsize(panel, t);
    lemma_panel_choicecontrolsize(panel, t);
    lemma_panel_switchsize(panel, t);
    lemma_panel_iconsize(panel, t);
    lemma_panel_controlradius(panel, t);
    lemma_panel_controlpaddinginline(panel, t);
}

proof fn lemma_color_paths()
    ensures
        "color.primary"@ != "color.primary.light"@,
        "color.primary"@ != "color.primary.dark"@,
        "color.primary"@ != "color.primary-pressed"@,
        "color.primary"@ != "color.secondary"@,
        "color.primary"@ != "color.secondary.dark"@,
        "color.primary"@ != "color.danger"@,
        "color.primary"@ != "color.danger.light"@,
        "color.primary"@ != "color.danger.dark"@,
        "color.primary"@ != "color.foreground"@,
        "color.primary"@ != "color.foreground.light"@,
        "color.primary"@ != "color.surface"@,
        "color.primary"@ != "color.background"@,
        "color.primary"@ != "color.muted"@,
        "color.primary"@ != "color.text-muted"@,
        "color.primary"@ != "color.border"@,
        "color.primary.light"@ != "color.primary.dark"@,
        "color.primary.light"@ != "color.primary-pressed"@,
        "color.primary.light"@ != "color.secondary"@,
        "color.primary.light"@ != "color.secondary.dark"@,
        "color.primary.light"@ != "color.danger"@,
        "color.primary.light"@ != "color.danger.light"@,
        "color.primary.light"@ != "color.danger.dark"@,
        "color.primary.light"@ != "color.foreground"@,
        "color.primary.light"@ != "color.foreground.light"@,
        "color.primary.light"@ != "color.surface"@,
        "color.primary.light"@ != "color.background"@,
        "color.primary.light"@ != "color.muted"@,
        "color.primary.light"@ != "color.text-muted"@,
        "color.primary.light"@ != "color.border"@,
        "color.primary.dark"@ != "color.primary-pressed"@,
        "color.primary.dark"@ != "color.secondary"@,
        "color.primary.dark"@ != "color.secondary.dark"@,
        "color.primary.dark"@ != "color.danger"@,
        "color.primary.dark"@ != "color.danger.light"@,
        "color.primary.dark"@ != "color.danger.dark"@,
        "color.primary.dark"@ != "color.foreground"@,
        "color.primary.dark"@ != "color.foreground.light"@,
        "color.primary.dark"@ != "color.surface"@,
        "color.primary.dark"@ != "color.background"@,
        "color.primary.dark"@ != "color.muted"@,
        "color.primary.dark"@ != "color.text-muted"@,
        "color.primary.dark"@ != "color.border"@,
        "color.primary-pressed"@ != "color.secondary"@,
        "color.primary-pressed"@ != "color.secondary.dark"@,
        "color.primary-pressed"@ != "color.danger"@,
        "color.primary-pressed"@ != "color.danger.light"@,
        "color.primary-pressed"@ != "color.danger.dark"@,
        "color.primary-pressed"@ != "color.foreground"@,
        "color.primary-pressed"@ != "color.foreground.light"@,
        "color.primary-pressed"@ != "color.surface"@,
        "color.primary-pressed"@ != "color.background"@,
        "color.primary-pressed"@ != "color.muted"@,
        "color.primary-pressed"@ != "color.text-muted"@,
        "color.primary-pressed"@ != "color.border"@,
        "color.secondary"@ != "color.secondary.dark"@,
        "color.secondary"@ != "color.danger"@,
        "color.secondary"@ != "color.danger.light"@,
        "color.secondary"@ != "color.danger.dark"@,
        "color.secondary"@ != "color.foreground"@,
        "color.secondary"@ != "color.foreground.light"@,
        "color.secondary"@ != "color.surface"@,
        "color.secondary"@ != "color.background"@,
        "color.secondary"@ != "color.muted"@,
        "color.secondary"@ != "color.text-muted"@,
        "color.secondary"@ != "color.border"@,
        "color.secondary.dark"@ != "color.danger"@,
        "color.secondary.dark"@ != "color.danger.light"@,
        "color.secondary.dark"@ != "color.danger.dark"@,
        "color.secondary.dark"@ != "color.foreground"@,
        "color.secondary.dark"@ != "color.foreground.light"@,
        "color.secondary.dark"@ != "color.surface"@,
        "color.secondary.dark"@ != "color.background"@,
        "color.secondary.dark"@ != "color.muted"@,
        "color.secondary.dark"@ != "color.text-muted"@,
        "color.secondary.dark"@ != "color.border"@,
        "color.danger"@ != "color.danger.light"@,
        "color.danger"@ != "color.danger.dark"@,
        "color.danger"@ != "color.foreground"@,
        "color.danger"@ != "color.foreground.light"@,
        "color.danger"@ != "color.surface"@,
        "color.danger"@ != "color.background"@,
        "color.danger"@ != "color.muted"@,
        "color.danger"@ != "color.text-muted"@,
        "color.danger"@ != "color.border"@,
        "color.danger.light"@ != "color.danger.dark"@,
        "color.danger.light"@ != "color.foreground"@,
        "color.danger.light"@ != "color.foreground.light"@,
        "color.danger.light"@ != "color.surface"@,
        "color.danger.light"@ != "color.background"@,
        "color.danger.light"@ != "color.muted"@,
        "color.danger.light"@ != "color.text-muted"@,
        "color.danger.light"@ != "color.border"@,
        "color.danger.dark"@ != "color.foreground"@,
        "color.danger.dark"@ != "color.foreground.light"@,
        "color.danger.dark"@ != "color.surface"@,
        "color.danger.dark"@ != "color.background"@,
        "color.danger.dark"@ != "color.muted"@,
        "color.danger.dark"@ != "color.text-muted"@,
        "color.danger.dark"@ != "color.border"@,
        "color.foreground"@ != "color.foreground.light"@,
        "color.foreground"@ != "color.surface"@,
        "color.foreground"@ != "color.background"@,
        "color.foreground"@ != "color.muted"@,
        "color.foreground"@ != "color.text-muted"@,
        "color.foreground"@ != "color.border"@,
        "color.foreground.light"@ != "color.surface"@,
        "color.foreground.light"@ != "color.background"@,
        "color.foreground.light"@ != "color.muted"@,
        "color.foreground.light"@ != "color.text-muted"@,
        "color.foreground.light"@ != "color.border"@,
        "color.surface"@ != "color.background"@,
        "color.surface"@ != "color.muted"@,
        "color.surface"@ != "color.text-muted"@,
        "color.surface"@ != "color.border"@,
        "color.background"@ != "color.muted"@,
        "color.background"@ != "color.text-muted"@,
        "color.background"@ != "color.border"@,
        "color.muted"@ != "color.text-muted"@,
        "color.muted"@ != "color.border"@,
        "color.text-muted"@ != "color.border"@,
{
    reveal_strlit("color.primary");
    assert("color.primary"@.len() == 13);
    reveal_strlit("color.primary.light");
    assert("color.primary.light"@.len() == 19);
    reveal_strlit("color.primary.dark");
    assert("color.primary.dark"@.len() == 18);
    reveal_strlit("color.primary-pressed");
    assert("color.primary-pressed"@.len() == 21);
    reveal_strlit("color.secondary");
    assert("color.secondary"@.len() == 15);
    reveal_strlit("color.secondary.dark");
    assert("color.secondary.dark"@.len() == 20);
    reveal_strlit("color.danger");
    assert("color.danger"@.len() == 12);
    reveal_strlit("color.danger.light");
    assert("color.danger.light"@.len() == 18);
    reveal_strlit("color.danger.dark");
    assert("color.danger.dark"@.len() == 17);
    reveal_strlit("color.foreground");
    assert("color.foreground"@.len() == 16);
    reveal_strlit("color.foreground.light");
    assert("color.foreground.light"@.len() == 22);
    reveal_strlit("color.surface");
    assert("color.surface"@.len() == 13);
    reveal_strlit("color.background");
    assert("color.background"@.len() == 16);
    reveal_strlit("color.muted");
    assert("color.muted"@.len() == 11);
    reveal_strlit("color.text-muted");
    assert("color.text-muted"@.len() == 16);
    reveal_strlit("color.border");
    assert("color.border"@.len() == 12);
    assert("color.primary"@[6] != "color.surface"@[6]);
    assert("color.primary.dark"@[6] != "color.danger.light"@[6]);
    assert("color.danger"@[6] != "color.border"@[6]);
    assert("color.foreground"@[6] != "color.background"@[6]);
    assert("color.foreground"@[6] != "color.text-muted"@[6]);
    assert("color.background"@[6] != "color.text-muted"@[6]);
}

/// The colors that parts of the editor use are those that the panel shows for the tokens of their
/// names.
pub proof fn semantic_colors_are_the_shown_ones(panel: PanelModel)
    ensures
        ({
            let p = live::semantic_palette(panel);
            &&& p.is_dark == panel.is_dark
            &&& panel.color("color.primary"@) == Some(p.primary)
            &&& panel.color("color.primary.dark"@) == Some(p.primary_pressed)
            &&& panel.color("color.secondary"@) == Some(p.secondary)
            &&& panel.color("color.secondary.dark"@) == Some(p.secondary_pressed)
            &&& panel.color("color.danger"@) == Some(p.danger)
            &&& panel.color("color.surface"@) == Some(p.surface)
            &&& panel.color("color.background"@) == Some(p.background)
            &&& panel.color("color.foreground"@) == Some(p.foreground)
            &&& panel.color("color.muted"@) == Some(p.muted)
            &&& panel.color("color.border"@) == Some(p.border)
        }),
{
    lemma_color_paths();
}

/// The colors that the panel shows are those of the scheme that it is set to: what names no made color
/// is the scheme's own, and of the made ones a lighter one is lightened, a darker one darkened, a light
/// foreground faded.
pub proof fn panel_shows_scheme_colors(panel: PanelModel, p: Palette)
    requires
        p == (if panel.is_dark {
            panel.tokens.dark
        } else {
            panel.tokens.light
        }),
    ensures
        panel.color("color.primary"@) == Some(p.primary),
        panel.color("color.primary.dark"@) == Some(p.primary_pressed),
        panel.color("color.primary-pressed"@) == Some(p.primary_pressed),
        panel.color("color.secondary"@) == Some(p.secondary),
        panel.color("color.danger"@) == Some(p.danger),
        panel.color("color.foreground"@) == Some(p.text),
        panel.color("color.surface"@) == Some(p.surface),
        panel.color("color.background"@) == Some(p.background),
        panel.color("color.muted"@) == Some(p.text_muted),
        panel.color("color.text-muted"@) == Some(p.text_muted),
        panel.color("color.primary.light"@) matches Some(c) && c.r >= p.primary.r && c.g >= p.primary.g && c.b
            >= p.primary.b && c.a == p.primary.a,
        panel.color("color.danger.light"@) matches Some(c) && c.r >= p.danger.r && c.g >= p.danger.g && c.b
            >= p.danger.b && c.a == p.danger.a,
        panel.color("color.danger.dark"@) matches Some(c) && c.r <= p.danger.r && c.g <= p.danger.g && c.b
            <= p.danger.b && c.a == p.danger.a,
        panel.color("color.foreground.light"@) matches Some(c) && c.r == p.text.r && c.g == p.text.g && c.b
            == p.text.b && c.a == 25,
        !panel.is_dark ==> (panel.color("color.border"@) matches Some(c) && c.r <= p.secondary.r && c.g
            <= p.secondary.g && c.b <= p.secondary.b),
        panel.is_dark ==> panel.color("color.border"@) == Some(p.secondary),
{
    lemma_color_paths();
    color::shades_move_channels(p.primary, 8);
    color::shades_move_channels(p.primary, 12);
    color::shades_move_channels(p.danger, 8);
    color::shades_move_channels(p.danger, 10);
    color::shades_move_channels(p.danger, 12);
    color::shades_move_channels(p.secondary, 8);
    color::fading_sets_opacity(p.text, 10);
}

proof fn lemma_shared_value(panel: PanelModel, t: Store, table: Seq<(Seq<char>, GlobalKind)>, i: int, v: Value)
    requires
        0 <= i < table.len(),
        live::global_value(panel, t, table[i].0, table[i].1) == Some(v),
    ensures
        live::global_values(panel, t, table).contains((table[i].0, v)),
    decreases table.len(),
{
    let all = live::global_values(panel, t, table);
    let before = live::global_values(panel, t, table.drop_last());
    if i == table.len() - 1 {
        assert(all.last() == (table[i].0, v));
        assert(all[all.len() - 1] == (table[i].0, v));
    } else {
        assert(table.drop_last()[i] == table[i]);
        lemma_shared_value(panel, t, table.drop_last(), i, v);
        let k = choose|k: int| 0 <= k < before.len() && before[k] == (table[i].0, v);
        assert(all[k] == before[k]);
    }
}

/// Of every shared token the panel's value is handed out where the panel has one, and the store's where
/// it has not.
pub proof fn panel_counts_before_store(panel: PanelModel, t: Store, i: int)
    requires
        0 <= i < live::global_table().len(),
    ensures
        ({
            let (key, kind) = live::global_table()[i];
            let all = live::global_values(panel, t, live::global_table());
            &&& kind is Font ==> match (panel.font(key), live::store_font(t, key)) {
                (Some(s), _) => all.contains((key, Value::Text(s))),
                (None, Some(s)) => all.contains((key, Value::Text(s))),
                _ => true,
            }
            &&& kind is Color ==> match (panel.color(key), live::store_color(t, key)) {
                (Some(c), _) => all.contains((key, Value::Color(c))),
                (None, Some(c)) => all.contains((key, Value::Color(c))),
                _ => true,
            }
            &&& kind is Number ==> match (panel.number(key), live::store_number(t, key)) {
                (Some(n), _) => all.contains((key, Value::Float(n))),
                (None, Some(n)) => all.contains((key, Value::Float(n))),
                _ => true,
            }
        }),
{
    let (key, kind) = live::global_table()[i];
    if let Some(v) = live::global_value(panel, t, key, kind) {
        lemma_shared_value(panel, t, live::global_table(), i, v);
    }
}

/// The older names of colors stand for tokens that have the same color: what is exported under an older
/// name is what is exported under the name that it stands for, and a name that it stands for is no older
/// one.
pub proof fn older_names_have_the_same_color(s: Palette, t: Tokens)
    ensures
        ({
            let all = s.exported(t);
            &&& export_theme::export_key("color.primary_pressed"@) == path("color"@, "primary.dark"@)
            &&& in_set(all, "color"@, "primary_pressed"@) == in_set(all, "color"@, "primary.dark"@)
            &&& export_theme::export_key("color.text"@) == path("color"@, "foreground"@)
            &&& in_set(all, "color"@, "text"@) == in_set(all, "color"@, "foreground"@)
            &&& export_theme::export_key("color.text_muted"@) == path("color"@, "muted"@)
            &&& in_set(all, "color"@, "text_muted"@) == in_set(all, "color"@, "muted"@)
        }),
{
    reveal_strlit(".");
    reveal_strlit("color");
    lemma_older_paths();
    reveal_strlit("primary.dark");
    reveal_strlit("foreground");
    reveal_strlit("muted");
    reveal_strlit("color.primary.dark");
    reveal_strlit("color.foreground");
    reveal_strlit("color.muted");
    assert(path("color"@, "primary.dark"@) =~= "color.primary.dark"@);
    assert(path("color"@, "foreground"@) =~= "color.foreground"@);
    assert(path("color"@, "muted"@) =~= "color.muted"@);
    lemma_palette_aliases(s, t);
}

/// A key and its older names name one token: naming twice changes nothing.
pub proof fn current_name_is_kept(key: Seq<char>)
    ensures
        export_theme::export_key(export_theme::export_key(key)) == export_theme::export_key(key),
{
    lemma_older_paths();
}

proof fn lemma_older_paths()
    ensures
        "color.primary-pressed"@ != "color.primary_pressed"@,
        "color.primary-pressed"@ != "color.primary-hover"@,
        "color.primary-pressed"@ != "color.primary_hover"@,
        "color.primary-pressed"@ != "color.text"@,
        "color.primary-pressed"@ != "color.text-muted"@,
        "color.primary-pressed"@ != "color.text_muted"@,
        "color.primary-pressed"@ != "color.primary.dark"@,
        "color.primary-pressed"@ != "color.primary.light"@,
        "color.primary-pressed"@ != "color.foreground"@,
        "color.primary-pressed"@ != "color.muted"@,
        "color.primary_pressed"@ != "color.primary-hover"@,
        "color.primary_pressed"@ != "color.primary_hover"@,
        "color.primary_pressed"@ != "color.text"@,
        "color.primary_pressed"@ != "color.text-muted"@,
        "color.primary_pressed"@ != "color.text_muted"@,
        "color.primary_pressed"@ != "color.primary.dark"@,
        "color.primary_pressed"@ != "color.primary.light"@,
        "color.primary_pressed"@ != "color.foreground"@,
        "color.primary_pressed"@ != "color.muted"@,
        "color.primary-hover"@ != "color.primary_hover"@,
        "color.primary-hover"@ != "color.text"@,
        "color.primary-hover"@ != "color.text-muted"@,
        "color.primary-hover"@ != "color.text_muted"@,
        "color.primary-hover"@ != "color.primary.dark"@,
        "color.primary-hover"@ != "color.primary.light"@,
        "color.primary-hover"@ != "color.foreground"@,
        "color.primary-hover"@ != "color.muted"@,
        "color.primary_hover"@ != "color.text"@,
        "color.primary_hover"@ != "color.text-muted"@,
        "color.primary_hover"@ != "color.text_muted"@,
        "color.primary_hover"@ != "color.primary.dark"@,
        "color.primary_hover"@ != "color.primary.light"@,
        "color.primary_hover"@ != "color.foreground"@,
        "color.primary_hover"@ != "color.muted"@,
        "color.text"@ != "color.text-muted"@,
        "color.text"@ != "color.text_muted"@,
        "color.text"@ != "color.primary.dark"@,
        "color.text"@ != "color.primary.light"@,
        "color.text"@ != "color.foreground"@,
        "color.text"@ != "color.muted"@,
        "color.text-muted"@ != "color.text_muted"@,
        "color.text-muted"@ != "color.primary.dark"@,
        "color.text-muted"@ != "color.primary.light"@,
        "color.text-muted"@ != "color.foreground"@,
        "color.text-muted"@ != "color.muted"@,
        "color.text_muted"@ != "color.primary.dark"@,
        "color.text_muted"@ != "color.primary.light"@,
        "color.text_muted"@ != "color.foreground"@,
        "color.text_muted"@ != "color.muted"@,
        "color.primary.dark"@ != "color.primary.light"@,
        "color.primary.dark"@ != "color.foreground"@,
        "color.primary.dark"@ != "color.muted"@,
        "color.primary.light"@ != "color.foreground"@,
        "color.primary.light"@ != "color.muted"@,
        "color.foreground"@ != "color.muted"@,
{
    reveal_strlit("color.primary-pressed");
    assert("color.primary-pressed"@.len() == 21);
    reveal_strlit("color.primary_pressed");
    assert("color.primary_pressed"@.len() == 21);
    reveal_strlit("color.primary-hover");
    assert("color.primary-hover"@.len() == 19);
    reveal_strlit("color.primary_hover");
    assert("color.primary_hover"@.len() == 19);
    reveal_strlit("color.text");
    assert("color.text"@.len() == 10);
    reveal_strlit("color.text-muted");
    assert("color.text-muted"@.len() == 16);
    reveal_strlit("color.text_muted");
    assert("color.text_muted"@.len() == 16);
    reveal_strlit("color.primary.dark");
    assert("color.primary.dark"@.len() == 18);
    reveal_strlit("color.primary.light");
    assert("color.primary.light"@.len() == 19);
    reveal_strlit("color.foreground");
    assert("color.foreground"@.len() == 16);
    reveal_strlit("color.muted");
    assert("color.muted"@.len() == 11);
    assert("color.primary-pressed"@[13] != "color.primary_pressed"@[13]);
    assert("color.primary-hover"@[13] != "color.primary_hover"@[13]);
    assert("color.primary-hover"@[13] != "color.primary.light"@[13]);
    assert("color.primary_hover"@[13] != "color.primary.light"@[13]);
    assert("color.text-muted"@[10] != "color.text_muted"@[10]);
    assert("color.text-muted"@[6] != "color.foreground"@[6]);
    assert("color.text_muted"@[6] != "color.foreground"@[6]);
}

proof fn lemma_palette_aliases(s: Palette, t: Tokens)
    ensures
        in_set(s.exported(t), "color"@, "primary_pressed"@) == Some(Value::Color(s.primary_pressed)),
        in_set(s.exported(t), "color"@, "primary.dark"@) == Some(Value::Color(s.primary_pressed)),
        in_set(s.exported(t), "color"@, "text"@) == Some(Value::Color(s.text)),
        in_set(s.exported(t), "color"@, "foreground"@) == Some(Value::Color(s.text)),
        in_set(s.exported(t), "color"@, "text_muted"@) == Some(Value::Color(s.text_muted)),
        in_set(s.exported(t), "color"@, "muted"@) == Some(Value::Color(s.text_muted)),
{
    lemma_palette_keys();
    let t0 = t;
    lemma_stored(t0, "color"@, "primary"@, Value::Color(s.primary));
    let t1 = tokens::stored(t0, "color"@, "primary"@, Value::Color(s.primary));
    lemma_stored(t1, "color"@, "primary.light"@, Value::Color(color::lighter(s.primary, 20)));
    let t2 = tokens::stored(t1, "color"@, "primary.light"@, Value::Color(color::lighter(s.primary, 20)));
    lemma_stored(t2, "color"@, "primary.dark"@, Value::Color(s.primary_pressed));
    let t3 = tokens::stored(t2, "color"@, "primary.dark"@, Value::Color(s.primary_pressed));
    lemma_stored(t3, "color"@, "primary_pressed"@, Value::Color(s.primary_pressed));
    let t4 = tokens::stored(t3, "color"@, "primary_pressed"@, Value::Color(s.primary_pressed));
    lemma_stored(t4, "color"@, "secondary"@, Value::Color(s.secondary));
    let t5 = tokens::stored(t4, "color"@, "secondary"@, Value::Color(s.secondary));
    lemma_stored(t5, "color"@, "secondary.dark"@, Value::Color(color::darker(s.secondary, 10)));
    let t6 = tokens::stored(t5, "color"@, "secondary.dark"@, Value::Color(color::darker(s.secondary, 10)));
    lemma_stored(t6, "color"@, "danger"@, Value::Color(s.danger));
    let t7 = tokens::stored(t6, "color"@, "danger"@, Value::Color(s.danger));
    lemma_stored(t7, "color"@, "danger.light"@, Value::Color(color::lighter(s.danger, 15)));
    let t8 = tokens::stored(t7, "color"@, "danger.light"@, Value::Color(color::lighter(s.danger, 15)));
    lemma_stored(t8, "color"@, "danger.dark"@, Value::Color(color::darker(s.danger, 10)));
    let t9 = tokens::stored(t8, "color"@, "danger.dark"@, Value::Color(color::darker(s.danger, 10)));
    lemma_stored(t9, "color"@, "surface"@, Value::Color(s.surface));
    let t10 = tokens::stored(t9, "color"@, "surface"@, Value::Color(s.surface));
    lemma_stored(t10, "color"@, "background"@, Value::Color(s.background));
    let t11 = tokens::stored(t10, "color"@, "background"@, Value::Color(s.background));
    lemma_stored(t11, "color"@, "foreground"@, Value::Color(s.text));
    let t12 = tokens::stored(t11, "color"@, "foreground"@, Value::Color(s.text));
    lemma_stored(t12, "color"@, "foreground.light"@, Value::Color(color::faded(s.text, 10)));
    let t13 = tokens::stored(t12, "color"@, "foreground.light"@, Value::Color(color::faded(s.text, 10)));
    lemma_stored(t13, "color"@, "text"@, Value::Color(s.text));
    let t14 = tokens::stored(t13, "color"@, "text"@, Value::Color(s.text));
    lemma_stored(t14, "color"@, "muted"@, Value::Color(s.text_muted));
    let t15 = tokens::stored(t14, "color"@, "muted"@, Value::Color(s.text_muted));
    lemma_stored(t15, "color"@, "text_muted"@, Value::Color(s.text_muted));
    let t16 = tokens::stored(t15, "color"@, "text_muted"@, Value::Color(s.text_muted));
    assert(s.exported(t) == t16);
}

} // verus!
