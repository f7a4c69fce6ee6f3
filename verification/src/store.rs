//! Token resolution for plugin defaults.
//!
//! Tokens are design system values like colors, spacing, font sizes, etc., organized by category:
//! `{ "color": { "primary": "#0066cc" }, "spacing": { "xs": 4 } }`.

use vstd::prelude::*;
use crate::chain;
use crate::color::{self, parse_loose_hex, Color};
use crate::scalar::{self, Scalar};
use crate::schema::{self, is_token_text};
use crate::text::{self, owned, split_dot, trimmed};
use crate::textmap::{self, Duplicate, TextMap};
use crate::tokens::{self, seen, TokenPath};

verus! {

/// A number by what is read of it: its value rounded to a single, and its value cut to a 32 bit
/// integer.
#[derive(Clone, Copy, Debug, PartialEq, Eq, Structural)]
pub struct Measure {
    pub single: Scalar,
    pub int: i32,
}

/// The measure of a whole number.
pub open spec fn whole_measure(n: i32) -> Measure {
    Measure { single: scalar::int_scalar(n as int), int: n }
}

/// The measure of a single.
pub open spec fn single_measure(s: Scalar) -> Measure {
    Measure { single: s, int: scalar::truncated(s) as i32 }
}

impl Measure {
    /// The measure of a whole number.
    pub fn from_whole(n: i32) -> (r: Measure)
        ensures
            r == whole_measure(n),
    {
        Measure { single: Scalar::from_int(n), int: n }
    }

    /// The measure of a single.
    pub fn from_single(s: Scalar) -> (r: Measure)
        ensures
            r == single_measure(s),
    {
        Measure { single: s, int: s.to_int() }
    }
}

/// The model of a token's value.
#[verifier::ext_equal]
pub enum Token {
    Text(Seq<char>),
    Number(Measure),
    Int(i64),
    Bool(bool),
}

/// Token value types
#[derive(Debug, PartialEq)]
pub enum TokenValue {
    /// String value (typically a color like "#ff0000")
    String(String),
    /// Numeric value (spacing, font size, etc.)
    Number(Measure),
    /// Integer value
    Int(i64),
    /// Boolean value
    Bool(bool),
}

impl View for TokenValue {
    type V = Token;

    open spec fn view(&self) -> Token {
        match *self {
            TokenValue::String(s) => Token::Text(s@),
            TokenValue::Number(n) => Token::Number(n),
            TokenValue::Int(i) => Token::Int(i),
            TokenValue::Bool(b) => Token::Bool(b),
        }
    }
}

impl Duplicate for TokenValue {
    fn duplicate(&self) -> (r: Self) {
        match self {
            TokenValue::String(s) => TokenValue::String(s.clone()),
            TokenValue::Number(n) => TokenValue::Number(*n),
            TokenValue::Int(i) => TokenValue::Int(*i),
            TokenValue::Bool(b) => TokenValue::Bool(*b),
        }
    }
}

impl Clone for TokenValue {
    fn clone(&self) -> (r: Self)
        ensures
            r@ == self@,
    {
        self.duplicate()
    }
}

/// A value as a single precision number, where it is a number.
pub open spec fn token_float(v: Token) -> Option<Scalar> {
    match v {
        Token::Number(n) => Some(n.single),
        Token::Int(i) => Some(scalar::int_scalar(i as int)),
        _ => None,
    }
}

/// A value as a 32 bit integer, where it is a number: an integer is cut to its low bits, another
/// number towards zero and to the range.
pub open spec fn token_int(v: Token) -> Option<i32> {
    match v {
        Token::Int(i) => Some(i as i32),
        Token::Number(n) => Some(n.int),
        _ => None,
    }
}

/// A value as a boolean, where it is one.
pub open spec fn token_bool(v: Token) -> Option<bool> {
    match v {
        Token::Bool(b) => Some(b),
        _ => None,
    }
}

/// A value as a text, where it is one.
pub open spec fn token_text(v: Token) -> Option<Seq<char>> {
    match v {
        Token::Text(s) => Some(s),
        _ => None,
    }
}

/// A value as a color, where it is a text that is written as one.
pub open spec fn token_color(v: Token) -> Option<Color> {
    match v {
        Token::Text(s) => color::color_of_loose_hex(s),
        _ => None,
    }
}

impl TokenValue {
    /// Convert to a single for numeric values
    pub fn as_float(&self) -> (r: Option<Scalar>)
        ensures
            r == token_float(self@),
    {
        match self {
            TokenValue::Number(n) => Some(n.single),
            TokenValue::Int(i) => Some(Scalar::from_long(*i)),
            _ => None,
        }
    }

    /// Convert to a 32 bit integer for numeric values
    pub fn as_int(&self) -> (r: Option<i32>)
        ensures
            r == token_int(self@),
    {
        match self {
            TokenValue::Int(i) => Some(
                #[verifier::truncate]
                (*i as i32),
            ),
            TokenValue::Number(n) => Some(n.int),
            _ => None,
        }
    }

    /// Get as bool
    pub fn as_bool(&self) -> (r: Option<bool>)
        ensures
            r == token_bool(self@),
    {
        match self {
            TokenValue::Bool(flag) => Some(*flag),
            _ => None,
        }
    }

    /// Get as string
    pub fn as_string(&self) -> (r: Option<&str>)
        ensures
            schema::option_view(r) == token_text(self@),
    {
        match self {
            TokenValue::String(s) => Some(s.as_str()),
            _ => None,
        }
    }

    /// Convert to a color if this is a color string
    pub fn as_color(&self) -> (r: Option<Color>)
        ensures
            r == token_color(self@),
    {
        match self {
            TokenValue::String(s) => parse_loose_hex(s.as_str()),
            _ => None,
        }
    }
}

/// The model of a token store: values by category and key.
pub type Store = Map<Seq<char>, Map<Seq<char>, Token>>;

/// Whether a text refers to a token: apart from white space at its ends it has a dot and does not
/// start with `#`.
pub open spec fn refers(s: Seq<char>) -> bool {
    schema::looks_like_token(text::trim(s))
}

/// The category and key that a reference names.
pub open spec fn named(reference: Seq<char>) -> Option<TokenPath> {
    text::dot_split(text::trim(reference))
}

/// The value stored for a reference as it is written.
pub open spec fn looked_up(t: Store, reference: Seq<char>) -> Option<Token> {
    match text::dot_split(reference) {
        Some((category, key)) => textmap::at2(t, category, key),
        None => None,
    }
}

/// One step along aliases: from a token whose text refers to another, to that other.
pub open spec fn alias_next(t: Store) -> spec_fn(TokenPath) -> Option<TokenPath> {
    |p: TokenPath|
        match textmap::at2(t, p.0, p.1) {
            Some(Token::Text(s)) => if refers(s) {
                named(s)
            } else {
                None
            },
            _ => None,
        }
}

/// Whether the chain of aliases from `p` comes by `q`.
pub open spec fn comes_by(t: Store, p: TokenPath, q: TokenPath) -> bool {
    exists|n: nat| #[trigger] chain::walk(alias_next(t), p, n) == Some(q)
}

/// What a reference stands for: the value stored for it, or, where that is an alias, the value at
/// the end of the chain of aliases. `None` where a token on the way is not there, where the aliases
/// run in a circle, or where they come back to the token that the reference names.
pub open spec fn followed(t: Store, reference: Seq<char>) -> Option<Token> {
    match named(reference) {
        None => None,
        Some(start) => match looked_up(t, reference) {
            None => None,
            Some(v) => match v {
                Token::Text(s) => if !refers(s) {
                    Some(v)
                } else {
                    match named(s) {
                        None => None,
                        Some(p) => if comes_by(t, p, start) {
                            None
                        } else {
                            match chain::chain_end(alias_next(t), p) {
                                Some(q) => textmap::at2(t, q.0, q.1),
                                None => None,
                            }
                        },
                    }
                },
                _ => Some(v),
            },
        },
    }
}

/// Token store - holds all design tokens organized by category.
#[derive(Debug, PartialEq)]
pub struct TokenStore {
    /// Tokens organized by category: { "color": { "primary": "#fff" }, ... }
    pub categories: TextMap<TextMap<TokenValue>>,
}

impl View for TokenStore {
    type V = Store;

    open spec fn view(&self) -> Store {
        self.categories@
    }
}

impl Duplicate for TokenStore {
    fn duplicate(&self) -> (r: Self) {
        TokenStore { categories: self.categories.duplicate() }
    }
}

impl Clone for TokenStore {
    fn clone(&self) -> (r: Self)
        ensures
            r@ == self@,
    {
        self.duplicate()
    }
}

impl Default for TokenStore {
    fn default() -> (r: Self)
        ensures
            r@ == Map::<Seq<char>, Map<Seq<char>, Token>>::empty(),
    {
        TokenStore { categories: TextMap::new() }
    }
}

/// Whether a text refers to a token.
pub fn is_token_reference(value: &str) -> (r: bool)
    ensures
        r == refers(value@),
{
    is_token_text(trimmed(value).as_str())
}

/// The category and key that a reference names.
pub fn split_reference(reference: &str) -> (r: Option<(String, String)>)
    ensures
        match r {
            Some((c, k)) => named(reference@) == Some((c@, k@)),
            None => named(reference@) is None,
        },
{
    split_dot(trimmed(reference).as_str())
}

impl TokenStore {
    /// Resolve a token reference like "color.primary" to its value
    pub fn resolve(&self, reference: &str) -> (r: Option<&TokenValue>)
        ensures
            schema::option_view(r) == looked_up(self@, reference@),
    {
        match split_dot(reference) {
            Some((category, key)) => self.categories.get2(category.as_str(), key.as_str()),
            None => None,
        }
    }

    /// Resolve a token reference to a color
    pub fn resolve_color(&self, reference: &str) -> (r: Option<Color>)
        ensures
            r == (match followed(self@, reference@) {
                Some(v) => token_color(v),
                None => None,
            }),
    {
        match self.resolve_resolved(reference) {
            Some(v) => v.as_color(),
            None => None,
        }
    }

    /// Resolve a token reference to a float
    pub fn resolve_float(&self, reference: &str) -> (r: Option<Scalar>)
        ensures
            r == (match followed(self@, reference@) {
                Some(v) => token_float(v),
                None => None,
            }),
    {
        match self.resolve_resolved(reference) {
            Some(v) => v.as_float(),
            None => None,
        }
    }

    /// Resolve a token reference to an int
    pub fn resolve_int(&self, reference: &str) -> (r: Option<i32>)
        ensures
            r == (match followed(self@, reference@) {
                Some(v) => token_int(v),
                None => None,
            }),
    {
        match self.resolve_resolved(reference) {
            Some(v) => v.as_int(),
            None => None,
        }
    }

    /// Resolve a token reference to a bool
    pub fn resolve_bool(&self, reference: &str) -> (r: Option<bool>)
        ensures
            r == (match followed(self@, reference@) {
                Some(v) => token_bool(v),
                None => None,
            }),
    {
        match self.resolve_resolved(reference) {
            Some(v) => v.as_bool(),
            None => None,
        }
    }

    /// Resolve a token reference to a string
    pub fn resolve_string(&self, reference: &str) -> (r: Option<&str>)
        ensures
            schema::option_view(r) == (match followed(self@, reference@) {
                Some(v) => token_text(v),
                None => None,
            }),
    {
        match self.resolve_resolved(reference) {
            Some(v) => v.as_string(),
            None => None,
        }
    }

    /// Resolve a reference and follow string aliases like `"radius.default" -> "radius.md"`.
    pub fn resolve_resolved(&self, reference: &str) -> (r: Option<&TokenValue>)
        ensures
            schema::option_view(r) == followed(self@, reference@),
    {
        let (category, key) = match split_reference(reference) {
            Some(p) => p,
            None => {
                return None;
            },
        };
        let value = match self.resolve(reference) {
            Some(v) => v,
            None => {
                return None;
            },
        };
        match value {
            TokenValue::String(s) => {
                if !is_token_reference(s.as_str()) {
                    return Some(value);
                }
                match split_reference(s.as_str()) {
                    None => None,
                    Some((next_category, next_key)) => self.resolve_inner(
                        category,
                        key,
                        next_category,
                        next_key,
                    ),
                }
            },
            _ => Some(value),
        }
    }

    fn resolve_inner(
        &self,
        start_category: String,
        start_key: String,
        category: String,
        key: String,
    ) -> (r: Option<&TokenValue>)
        ensures
            schema::option_view(r) == (if comes_by(
                self@,
                (category@, key@),
                (start_category@, start_key@),
            ) {
                None
            } else {
                match chain::chain_end(alias_next(self@), (category@, key@)) {
                    Some(q) => textmap::at2(self@, q.0, q.1),
                    None => None,
                }
            }),
    {
        let mut visited: Vec<(String, String)> = Vec::new();
        let ghost first: TokenPath = (start_category@, start_key@);
        let ghost start: TokenPath = (category@, key@);
        let ghost next = alias_next(self@);
        let mut current_category = category;
        let mut current_key = key;
        proof {
            textmap::key_pairs_finite(self.categories);
        }
        loop
            invariant
                next == alias_next(self@),
                first == (start_category@, start_key@),
                textmap::key_pairs(self@).finite(),
                tokens::path_views(visited@).no_duplicates(),
                forall|i: int|
                    0 <= i < visited@.len() ==> chain::walk(next, start, i as nat) == Some(
                        #[trigger] tokens::path_views(visited@)[i],
                    ) && tokens::path_views(visited@)[i] != first && textmap::key_pairs(
                        self@,
                    ).contains(tokens::path_views(visited@)[i]),
                chain::walk(next, start, visited@.len()) == Some((current_category@, current_key@)),
                start == (category@, key@),
            decreases textmap::key_pairs(self@).len() - visited@.len(),
        {
            let ghost here: TokenPath = (current_category@, current_key@);
            let ghost n = visited@.len();
            if text::text_eq(current_category.as_str(), start_category.as_str()) && text::text_eq(
                current_key.as_str(),
                start_key.as_str(),
            ) {
                assert(comes_by(self@, start, first));
                return None;
            }
            if let Some(i) = seen(&visited, current_category.as_str(), current_key.as_str()) {
                proof {
                    chain::circle_never_stops(next, start, i as nat, n);
                }
                return None;
            }
            assert forall|i: nat| i <= n implies #[trigger] chain::walk(
                alias_next(self@),
                start,
                i,
            ) != Some(first) by {
                if i < n {
                    assert(tokens::path_views(visited@)[i as int] != first);
                }
            }
            match self.categories.get2(current_category.as_str(), current_key.as_str()) {
                None => {
                    proof {
                        assert(next(here) is None);
                        chain::chain_end_is(next, start, n);
                        lemma_not_by(self@, start, first, n);
                    }
                    return None;
                },
                Some(value) => {
                    let followed_text = match value {
                        TokenValue::String(s) => if is_token_reference(s.as_str()) {
                            split_reference(s.as_str())
                        } else {
                            None
                        },
                        _ => None,
                    };
                    match followed_text {
                        None => {
                            proof {
                                if let Token::Text(s) = value@ {
                                    if refers(s) {
                                        lemma_refers_named(s);
                                    }
                                }
                                assert(next(here) is None);
                                chain::chain_end_is(next, start, n);
                                lemma_not_by(self@, start, first, n);
                            }
                            return Some(value);
                        },
                        Some((next_category, next_key)) => {
                            let ghost before = tokens::path_views(visited@);
                            visited.push((current_category, current_key));
                            proof {
                                let after = tokens::path_views(visited@);
                                assert(after =~= before.push(here));
                                assert(next(here) == Some((next_category@, next_key@)));
                                assert(chain::walk(next, start, (n + 1) as nat) == next(here));
                                assert(textmap::key_pairs(self@).contains(here));
                                assert forall|i: int| 0 <= i < after.len() implies chain::walk(
                                    next,
                                    start,
                                    i as nat,
                                ) == Some(#[trigger] after[i]) && after[i] != first
                                    && textmap::key_pairs(self@).contains(after[i]) by {
                                    if i < n {
                                        assert(after[i] == before[i]);
                                    }
                                }
                                tokens::distinct_within(after, textmap::key_pairs(self@));
                            }
                            current_category = next_category;
                            current_key = next_key;
                        },
                    }
                },
            }
        }
    }
}

/// A text that refers to a token names one.
pub proof fn lemma_refers_named(s: Seq<char>)
    requires
        refers(s),
    ensures
        named(s) is Some,
{
}

proof fn lemma_not_by(t: Store, start: TokenPath, first: TokenPath, n: nat)
    requires
        chain::stops_after(alias_next(t), start, n),
        forall|i: nat| i <= n ==> #[trigger] chain::walk(alias_next(t), start, i) != Some(first),
    ensures
        !comes_by(t, start, first),
{
    assert forall|m: nat| #[trigger] chain::walk(alias_next(t), start, m) != Some(first) by {
        if m > n {
            chain::walk_past_end(alias_next(t), start, n, m);
        }
    }
}

/// An alias stands for what its target stands for, wherever the alias is not on the target's own
/// way.
pub proof fn alias_follows_target(t: Store, reference: Seq<char>, target: Seq<char>)
    requires
        text::trim(reference) == reference,
        text::trim(target) == target,
        looked_up(t, reference) == Some(Token::Text(target)),
        refers(target),
        named(reference) is Some,
        !comes_by(t, named(target)->Some_0, named(reference)->Some_0),
    ensures
        followed(t, reference) == followed(t, target),
{
    let next = alias_next(t);
    let p = named(target)->Some_0;
    lemma_refers_named(target);
    match textmap::at2(t, p.0, p.1) {
        None => {
            assert(next(p) is None);
            assert(chain::walk(next, p, 0) == Some(p));
            chain::chain_end_is(next, p, 0);
        },
        Some(v) => {
            if v is Text && refers(v->Text_0) {
                let q = named(v->Text_0)->Some_0;
                lemma_refers_named(v->Text_0);
                assert(next(p) == Some(q));
                chain::chain_end_of_rest(next, p, q);
                if comes_by(t, q, p) {
                    let n = choose|n: nat| #[trigger] chain::walk(next, q, n) == Some(p);
                    chain::walk_rest(next, p, q, n);
                    assert(chain::walk(next, p, 0) == Some(p));
                    chain::circle_never_stops(next, p, 0, (n + 1) as nat);
                }
            } else {
                assert(next(p) is None);
                assert(chain::walk(next, p, 0) == Some(p));
                chain::chain_end_is(next, p, 0);
            }
        },
    }
}

// ---------------------------------------------------------------------------------------------
// Default tokens
// ---------------------------------------------------------------------------------------------
/// The store with a token set to a text.
pub open spec fn with_text(t: Store, category: Seq<char>, key: Seq<char>, s: Seq<char>) -> Store {
    textmap::put2(t, category, key, Token::Text(s))
}

/// The store with a token set to a whole number.
pub open spec fn with_whole(t: Store, category: Seq<char>, key: Seq<char>, n: i32) -> Store {
    textmap::put2(t, category, key, Token::Number(whole_measure(n)))
}

fn put_text(store: &mut TokenStore, category: &str, key: &str, s: &str)
    ensures
        final(store)@ == with_text(old(store)@, category@, key@, s@),
{
    store.categories.put2(category, key, TokenValue::String(owned(s)));
}

fn put_whole(store: &mut TokenStore, category: &str, key: &str, n: i32)
    ensures
        final(store)@ == with_whole(old(store)@, category@, key@, n),
{
    store.categories.put2(category, key, TokenValue::Number(Measure::from_whole(n)));
}

/// The store with the default `color` tokens.
pub open spec fn with_default_color(t: Store) -> Store {
    let t = with_text(t, "color"@, "primary"@, "#009db9"@);
    let t = with_text(t, "color"@, "primary.light"@, "#33b1c7"@);
    let t = with_text(t, "color"@, "primary.dark"@, "#006f83"@);
    let t = with_text(t, "color"@, "secondary"@, "#d5d4d5"@);
    let t = with_text(t, "color"@, "secondary.dark"@, "#c2c1c2"@);
    let t = with_text(t, "color"@, "foreground"@, "#231f20"@);
    let t = with_text(t, "color"@, "foreground.light"@, "#231f201a"@);
    let t = with_text(t, "color"@, "danger"@, "#ff3333"@);
    let t = with_text(t, "color"@, "danger.light"@, "#ff5c5c"@);
    let t = with_text(t, "color"@, "danger.dark"@, "#b52424"@);
    let t = with_text(t, "color"@, "success"@, "#16a34a"@);
    let t = with_text(t, "color"@, "warning"@, "#d97706"@);
    let t = with_text(t, "color"@, "surface"@, "#ffffff"@);
    let t = with_text(t, "color"@, "background"@, "#ffffff"@);
    let t = with_text(t, "color"@, "muted"@, "#959394"@);
    let t = with_text(t, "color"@, "border"@, "#d5d4d5"@);
    let t = with_text(t, "color"@, "transparent"@, "#00000000"@);
    let t = with_text(t, "color"@, "white"@, "#ffffff"@);
    t
}

fn add_default_color(store: &mut TokenStore)
    ensures
        final(store)@ == with_default_color(old(store)@),
{
    put_text(store, "color", "primary", "#009db9");
    put_text(store, "color", "primary.light", "#33b1c7");
    put_text(store, "color", "primary.dark", "#006f83");
    put_text(store, "color", "secondary", "#d5d4d5");
    put_text(store, "color", "secondary.dark", "#c2c1c2");
    put_text(store, "color", "foreground", "#231f20");
    put_text(store, "color", "foreground.light", "#231f201a");
    put_text(store, "color", "danger", "#ff3333");
    put_text(store, "color", "danger.light", "#ff5c5c");
    put_text(store, "color", "danger.dark", "#b52424");
    put_text(store, "color", "success", "#16a34a");
    put_text(store, "color", "warning", "#d97706");
    put_text(store, "color", "surface", "#ffffff");
    put_text(store, "color", "background", "#ffffff");
    put_text(store, "color", "muted", "#959394");
    put_text(store, "color", "border", "#d5d4d5");
    put_text(store, "color", "transparent", "#00000000");
    put_text(store, "color", "white", "#ffffff");
}

/// The store with the default `spacing` tokens.
pub open spec fn with_default_spacing(t: Store) -> Store {
    let t = with_whole(t, "spacing"@, "xs"@, 4);
    let t = with_whole(t, "spacing"@, "sm"@, 8);
    let t = with_whole(t, "spacing"@, "md"@, 12);
    let t = with_whole(t, "spacing"@, "lg"@, 16);
    let t = with_whole(t, "spacing"@, "xl"@, 24);
    t
}

fn add_default_spacing(store: &mut TokenStore)
    ensures
        final(store)@ == with_default_spacing(old(store)@),
{
    put_whole(store, "spacing", "xs", 4);
    put_whole(store, "spacing", "sm", 8);
    put_whole(store, "spacing", "md", 12);
    put_whole(store, "spacing", "lg", 16);
    put_whole(store, "spacing", "xl", 24);
}

/// The store with the default `font` tokens.
pub open spec fn with_default_font(t: Store) -> Store {
    let t = with_text(t, "font"@, "primary"@, "Montserrat"@);
    let t = with_text(t, "font"@, "secondary"@, "Montserrat"@);
    let t = with_text(t, "font"@, "tertiary"@, "Montserrat"@);
    t
}

fn add_default_font(store: &mut TokenStore)
    ensures
        final(store)@ == with_default_font(old(store)@),
{
    put_text(store, "font", "primary", "Montserrat");
    put_text(store, "font", "secondary", "Montserrat");
    put_text(store, "font", "tertiary", "Montserrat");
}

/// The store with the default `fontSize` tokens.
pub open spec fn with_default_font_size(t: Store) -> Store {
    let t = with_whole(t, "fontSize"@, "xs"@, 12);
    let t = with_whole(t, "fontSize"@, "caption"@, 13);
    let t = with_whole(t, "fontSize"@, "sm"@, 20);
    let t = with_whole(t, "fontSize"@, "md"@, 22);
    let t = with_whole(t, "fontSize"@, "lg"@, 24);
    let t = with_whole(t, "fontSize"@, "helper"@, 14);
    t
}

fn add_default_font_size(store: &mut TokenStore)
    ensures
        final(store)@ == with_default_font_size(old(store)@),
{
    put_whole(store, "fontSize", "xs", 12);
    put_whole(store, "fontSize", "caption", 13);
    put_whole(store, "fontSize", "sm", 20);
    put_whole(store, "fontSize", "md", 22);
    put_whole(store, "fontSize", "lg", 24);
    put_whole(store, "fontSize", "helper", 14);
}

/// The store with the default `borderWidth` tokens.
pub open spec fn with_default_border_width(t: Store) -> Store {
    let t = with_whole(t, "borderWidth"@, "none"@, 0);
    let t = with_whole(t, "borderWidth"@, "sm"@, 1);
    let t = with_whole(t, "borderWidth"@, "focus"@, 2);
    t
}

fn add_default_border_width(store: &mut TokenStore)
    ensures
        final(store)@ == with_default_border_width(old(store)@),
{
    put_whole(store, "borderWidth", "none", 0);
    put_whole(store, "borderWidth", "sm", 1);
    put_whole(store, "borderWidth", "focus", 2);
}

/// The store with the default `choiceControlSize` tokens.
pub open spec fn with_default_choice_control_size(t: Store) -> Store {
    let t = with_whole(t, "choiceControlSize"@, "sm"@, 24);
    let t = with_whole(t, "choiceControlSize"@, "md"@, 28);
    let t = with_whole(t, "choiceControlSize"@, "lg"@, 32);
    t
}

fn add_default_choice_control_size(store: &mut TokenStore)
    ensures
        final(store)@ == with_default_choice_control_size(old(store)@),
{
    put_whole(store, "choiceControlSize", "sm", 24);
    put_whole(store, "choiceControlSize", "md", 28);
    put_whole(store, "choiceControlSize", "lg", 32);
}

/// The store with the default `switchSize` tokens.
pub open spec fn with_default_switch_size(t: Store) -> Store {
    let t = with_whole(t, "switchSize"@, "sm"@, 20);
    let t = with_whole(t, "switchSize"@, "md"@, 24);
    let t = with_whole(t, "switchSize"@, "lg"@, 28);
    t
}

fn add_default_switch_size(store: &mut TokenStore)
    ensures
        final(store)@ == with_default_switch_size(old(store)@),
{
    put_whole(store, "switchSize", "sm", 20);
    put_whole(store, "switchSize", "md", 24);
    put_whole(store, "switchSize", "lg", 28);
}

/// The store with the default `radius` tokens.
pub open spec fn with_default_radius(t: Store) -> Store {
    let t = with_whole(t, "radius"@, "sm"@, 8);
    let t = with_whole(t, "radius"@, "md"@, 16);
    let t = with_text(t, "radius"@, "default"@, "radius.lg"@);
    let t = with_whole(t, "radius"@, "lg"@, 24);
    let t = with_whole(t, "radius"@, "full"@, 9999);
    t
}

fn add_default_radius(store: &mut TokenStore)
    ensures
        final(store)@ == with_default_radius(old(store)@),
{
    put_whole(store, "radius", "sm", 8);
    put_whole(store, "radius", "md", 16);
    put_text(store, "radius", "default", "radius.lg");
    put_whole(store, "radius", "lg", 24);
    put_whole(store, "radius", "full", 9999);
}

/// The store with the default `controlSize` tokens.
pub open spec fn with_default_control_size(t: Store) -> Store {
    let t = with_whole(t, "controlSize"@, "sm"@, 48);
    let t = with_whole(t, "controlSize"@, "md"@, 56);
    let t = with_whole(t, "controlSize"@, "lg"@, 64);
    t
}

fn add_default_control_size(store: &mut TokenStore)
    ensures
        final(store)@ == with_default_control_size(old(store)@),
{
    put_whole(store, "controlSize", "sm", 48);
    put_whole(store, "controlSize", "md", 56);
    put_whole(store, "controlSize", "lg", 64);
}

/// The store with the default `iconSize` tokens.
pub open spec fn with_default_icon_size(t: Store) -> Store {
    let t = with_whole(t, "iconSize"@, "sm"@, 20);
    let t = with_whole(t, "iconSize"@, "md"@, 24);
    let t = with_whole(t, "iconSize"@, "lg"@, 28);
    t
}

fn add_default_icon_size(store: &mut TokenStore)
    ensures
        final(store)@ == with_default_icon_size(old(store)@),
{
    put_whole(store, "iconSize", "sm", 20);
    put_whole(store, "iconSize", "md", 24);
    put_whole(store, "iconSize", "lg", 28);
}

/// The store with the default `controlRadius` tokens.
pub open spec fn with_default_control_radius(t: Store) -> Store {
    let t = with_whole(t, "controlRadius"@, "sm"@, 20);
    let t = with_whole(t, "controlRadius"@, "md"@, 24);
    let t = with_whole(t, "controlRadius"@, "lg"@, 28);
    t
}

fn add_default_control_radius(store: &mut TokenStore)
    ensures
        final(store)@ == with_default_control_radius(old(store)@),
{
    put_whole(store, "controlRadius", "sm", 20);
    put_whole(store, "controlRadius", "md", 24);
    put_whole(store, "controlRadius", "lg", 28);
}

/// The store with the default `controlPaddingInline` tokens.
pub open spec fn with_default_control_padding_inline(t: Store) -> Store {
    let t = with_whole(t, "controlPaddingInline"@, "sm"@, 14);
    let t = with_whole(t, "controlPaddingInline"@, "md"@, 16);
    let t = with_whole(t, "controlPaddingInline"@, "lg"@, 20);
    t
}

fn add_default_control_padding_inline(store: &mut TokenStore)
    ensures
        final(store)@ == with_default_control_padding_inline(old(store)@),
{
    put_whole(store, "controlPaddingInline", "sm", 14);
    put_whole(store, "controlPaddingInline", "md", 16);
    put_whole(store, "controlPaddingInline", "lg", 20);
}

/// The store with the default `fontWeight` tokens.
pub open spec fn with_default_font_weight(t: Store) -> Store {
    let t = with_whole(t, "fontWeight"@, "normal"@, 400);
    let t = with_whole(t, "fontWeight"@, "medium"@, 500);
    let t = with_whole(t, "fontWeight"@, "semibold"@, 600);
    let t = with_whole(t, "fontWeight"@, "bold"@, 700);
    t
}

fn add_default_font_weight(store: &mut TokenStore)
    ensures
        final(store)@ == with_default_font_weight(old(store)@),
{
    put_whole(store, "fontWeight", "normal", 400);
    put_whole(store, "fontWeight", "medium", 500);
    put_whole(store, "fontWeight", "semibold", 600);
    put_whole(store, "fontWeight", "bold", 700);
}

/// The store with the default `opacity` tokens.
pub open spec fn with_default_opacity(t: Store) -> Store {
    let t = textmap::put2(t, "opacity"@, "disabled"@, Token::Number(single_measure(Scalar { bits: 0x3F00_0000 })));
    t
}

fn add_default_opacity(store: &mut TokenStore)
    ensures
        final(store)@ == with_default_opacity(old(store)@),
{
    store.categories.put2("opacity", "disabled", TokenValue::Number(Measure::from_single(Scalar { bits: 0x3F00_0000 })));
}

/// The default tokens.
pub open spec fn default_store() -> Store {
    let t = Map::<Seq<char>, Map<Seq<char>, Token>>::empty();
    let t = with_default_color(t);
    let t = with_default_spacing(t);
    let t = with_default_font(t);
    let t = with_default_font_size(t);
    let t = with_default_border_width(t);
    let t = with_default_choice_control_size(t);
    let t = with_default_switch_size(t);
    let t = with_default_radius(t);
    let t = with_default_control_size(t);
    let t = with_default_icon_size(t);
    let t = with_default_control_radius(t);
    let t = with_default_control_padding_inline(t);
    let t = with_default_font_weight(t);
    let t = with_default_opacity(t);
    t
}

impl TokenStore {
    /// Create default tokens
    pub fn default_tokens() -> (r: Self)
        ensures
            r@ == default_store(),
    {
        let mut store = TokenStore { categories: TextMap::new() };
        add_default_color(&mut store);
        add_default_spacing(&mut store);
        add_default_font(&mut store);
        add_default_font_size(&mut store);
        add_default_border_width(&mut store);
        add_default_choice_control_size(&mut store);
        add_default_switch_size(&mut store);
        add_default_radius(&mut store);
        add_default_control_size(&mut store);
        add_default_icon_size(&mut store);
        add_default_control_radius(&mut store);
        add_default_control_padding_inline(&mut store);
        add_default_font_weight(&mut store);
        add_default_opacity(&mut store);
        store
    }
}

pub(crate) proof fn lemma_named_path(category: Seq<char>, key: Seq<char>)
    requires
        !category.contains('.'),
    ensures
        text::dot_split(category + seq!['.'] + key) == Some((category, key)),
{
    let whole = category + seq!['.'] + key;
    let pat = seq!['.'];
    text::find_from_bounds(whole, pat, 0);
    let n = category.len() as int;
    assert(whole.subrange(n, n + pat.len()) =~= pat);
    text::lemma_find_from_least(whole, pat, 0, n);
    let i = text::find_from(whole, pat, 0)->Some_0;
    assert(whole.subrange(i, i + pat.len())[0] == whole[i]);
    if i < n {
        assert(category[i] == '.');
    }
    assert(whole.take(n) =~= category);
    assert(whole.skip(n + pat.len()) =~= key);
}

/// A token that is put into a store and refers to no other one is what its path stands for, whatever the
/// store held; and any other path that is not an alias stands for what it stood for.
pub proof fn stored_token_is_resolved(t: Store, category: Seq<char>, key: Seq<char>, v: Token)
    requires
        !category.contains('.'),
        text::trim(category + seq!['.'] + key) == category + seq!['.'] + key,
        !(v matches Token::Text(s) && refers(s)),
    ensures
        followed(textmap::put2(t, category, key, v), category + seq!['.'] + key) == Some(v),
{
    lemma_named_path(category, key);
    reveal(textmap::put2);
}

/// A color that is put into a store in hexadecimal digits is the color that its path stands for.
pub proof fn stored_color_is_resolved(t: Store, category: Seq<char>, key: Seq<char>, c: Color)
    requires
        !category.contains('.'),
        text::trim(category + seq!['.'] + key) == category + seq!['.'] + key,
    ensures
        ({
            let found = followed(
                textmap::put2(t, category, key, Token::Text(color::hash_hex_of(c))),
                category + seq!['.'] + key,
            );
            found is Some && token_color(found->Some_0) == Some(c) && token_float(found->Some_0) is None
                && token_bool(found->Some_0) is None
        }),
{
    let s = color::hash_hex_of(c);
    color::loose_hex_round_trip(c);
    lemma_hash_refers_not(c);
    stored_token_is_resolved(t, category, key, Token::Text(s));
}

proof fn lemma_hash_refers_not(c: Color)
    ensures
        !refers(color::hash_hex_of(c)),
{
    let s = color::hash_hex_of(c);
    let n = text::lemma_white_behind(s);
    assert(s[0] == '#');
    assert(!text::is_white('#'));
    assert(text::trim_start(s) == s);
    if n == 0 {
        assert(s.skip(n)[0] == s[0]);
    }
    assert(text::trim(s) == s.take(n));
    assert(s.take(n).take(1) =~= seq!['#']);
}

/// A number reads as itself in both of its forms, and as nothing but a number.
pub proof fn stored_number_reads_as_number(n: i32, s: Scalar)
    ensures
        token_int(Token::Number(whole_measure(n))) == Some(n),
        token_float(Token::Number(whole_measure(n))) == Some(scalar::int_scalar(n as int)),
        token_int(Token::Int(n as i64)) == Some(n),
        token_float(Token::Int(n as i64)) == Some(scalar::int_scalar(n as int)),
        token_float(Token::Number(single_measure(s))) == Some(s),
        token_text(Token::Number(single_measure(s))) is None,
        token_color(Token::Number(single_measure(s))) is None,
        token_bool(Token::Number(single_measure(s))) is None,
{
}

} // verus!
