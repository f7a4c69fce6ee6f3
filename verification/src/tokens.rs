//! Design tokens: two-level storage, references between tokens, light and dark schemes.

use vstd::prelude::*;
use crate::chain;
use crate::color::Color;
use crate::scalar::Scalar;
use crate::text::{self, owned, split_dot, text_eq, trimmed};
use crate::textmap::{self, Duplicate, TextMap};
use crate::value::Value;

verus! {

/// Color scheme for theming
#[derive(Clone, Copy, Debug, PartialEq, Eq, Structural)]
pub enum ColorScheme {
    Light,
    Dark,
}

impl Default for ColorScheme {
    fn default() -> (r: Self)
        ensures
            r == ColorScheme::Light,
    {
        ColorScheme::Light
    }
}

/// A value that can be stored in the token system
#[derive(Debug, PartialEq)]
pub enum TokenValue {
    Color(Color),
    Float(Scalar),
    Int(i32),
    Bool(bool),
    String(String),
    /// Reference to another token path (e.g. "radius.md")
    Ref(String),
}

impl View for TokenValue {
    type V = Value;

    open spec fn view(&self) -> Value {
        match *self {
            TokenValue::Color(c) => Value::Color(c),
            TokenValue::Float(f) => Value::Float(f),
            TokenValue::Int(i) => Value::Int(i),
            TokenValue::Bool(b) => Value::Bool(b),
            TokenValue::String(s) => Value::Text(s@),
            TokenValue::Ref(s) => Value::Ref(s@),
        }
    }
}

impl Clone for TokenValue {
    fn clone(&self) -> (r: Self)
        ensures
            r@ == self@,
    {
        self.duplicate()
    }
}

impl Duplicate for TokenValue {
    fn duplicate(&self) -> (r: Self) {
        match self {
            TokenValue::Color(c) => TokenValue::Color(*c),
            TokenValue::Float(f) => TokenValue::Float(*f),
            TokenValue::Int(i) => TokenValue::Int(*i),
            TokenValue::Bool(b) => TokenValue::Bool(*b),
            TokenValue::String(s) => TokenValue::String(s.clone()),
            TokenValue::Ref(s) => TokenValue::Ref(s.clone()),
        }
    }
}

/// The model of a token set: values by category and key.
pub type Tokens = Map<Seq<char>, Map<Seq<char>, Value>>;

/// A token's address: category and key.
pub type TokenPath = (Seq<char>, Seq<char>);

/// The value stored for a category and a key.
pub open spec fn lookup(t: Tokens, category: Seq<char>, key: Seq<char>) -> Option<Value> {
    if t.dom().contains(category) && t[category].dom().contains(key) {
        Some(t[category][key])
    } else {
        None
    }
}

/// The token that a reference names: `category.key`, or a bare key of the fallback category.
pub open spec fn reference_target(reference: Seq<char>, fallback: Seq<char>) -> Option<TokenPath> {
    let r = text::trim(reference);
    if r.len() == 0 {
        None
    } else {
        match text::dot_split(r) {
            Some(p) => Some(p),
            None => Some((fallback, r)),
        }
    }
}

/// One step along references: from a token that refers to another, to that other.
pub open spec fn token_next(t: Tokens) -> spec_fn(TokenPath) -> Option<TokenPath> {
    |p: TokenPath|
        match lookup(t, p.0, p.1) {
            Some(Value::Ref(r)) => reference_target(r, p.0),
            _ => None,
        }
}

/// The value at the end of the chain of references that starts at a token: `None` where the chain
/// runs in a circle, reaches a token that is not there, or a reference that names nothing.
pub open spec fn resolved(t: Tokens, category: Seq<char>, key: Seq<char>) -> Option<Value> {
    match chain::chain_end(token_next(t), (category, key)) {
        Some(p) => match lookup(t, p.0, p.1) {
            Some(Value::Ref(_)) => None,
            other => other,
        },
        None => None,
    }
}

/// What a reference such as `radius.default`, or `md` with a fallback category, resolves to.
pub open spec fn resolved_reference(
    t: Tokens,
    reference: Seq<char>,
    fallback: Option<Seq<char>>,
) -> Option<Value> {
    match text::dot_split(reference) {
        Some((category, key)) => resolved(t, category, key),
        None => match fallback {
            Some(category) => resolved(t, category, reference),
            None => None,
        },
    }
}

/// The token set with a value stored for a category and a key.
#[verifier::opaque]
pub open spec fn stored(t: Tokens, category: Seq<char>, key: Seq<char>, v: Value) -> Tokens {
    let old_keys = if t.dom().contains(category) {
        t[category]
    } else {
        Map::<Seq<char>, Value>::empty()
    };
    t.insert(category, old_keys.insert(key, v))
}

/// The first token set with every token of the second put over it.
pub open spec fn overlaid(t: Tokens, over: Tokens) -> Tokens {
    Map::new(
        |c: Seq<char>| t.dom().contains(c) || over.dom().contains(c),
        |c: Seq<char>|
            if !over.dom().contains(c) {
                t[c]
            } else if !t.dom().contains(c) {
                over[c]
            } else {
                t[c].union_prefer_right(over[c])
            },
    )
}

/// Whether a token is stored.
pub open spec fn has_token(t: Tokens, p: TokenPath) -> bool {
    lookup(t, p.0, p.1) is Some
}

/// The addresses of the stored tokens.
pub open spec fn token_paths(t: Tokens) -> Set<TokenPath> {
    Set::new(|p: TokenPath| has_token(t, p))
}

/// A token set holds finitely many tokens.
pub proof fn token_paths_finite(s: TokenSet)
    ensures
        token_paths(s@).finite(),
{
    textmap::key_pairs_finite(s.tokens);
    assert(token_paths(s@) =~= textmap::key_pairs(s@));
}

/// Distinct members of a finite set are no more than the set has.
pub proof fn distinct_within<T>(s: Seq<T>, set: Set<T>)
    requires
        s.no_duplicates(),
        set.finite(),
        forall|i: int| 0 <= i < s.len() ==> set.contains(#[trigger] s[i]),
    ensures
        s.len() <= set.len(),
{
    s.unique_seq_to_set();
    assert(s.to_set().subset_of(set));
    vstd::set_lib::lemma_len_subset(s.to_set(), set);
}

/// The addresses in a list of category and key pairs.
pub open spec fn path_views(visited: Seq<(String, String)>) -> Seq<TokenPath> {
    Seq::new(visited.len(), |i: int| (visited[i].0@, visited[i].1@))
}

/// Whether an address is in a list; where it is, at which index.
pub(crate) fn seen(visited: &Vec<(String, String)>, category: &str, key: &str) -> (r: Option<usize>)
    ensures
        match r {
            Some(i) => i < visited@.len() && path_views(visited@)[i as int] == (category@, key@),
            None => !path_views(visited@).contains((category@, key@)),
        },
{
    for i in 0..visited.len()
        invariant
            forall|j: int| 0 <= j < i ==> #[trigger] path_views(visited@)[j] != (category@, key@),
    {
        if text_eq(visited[i].0.as_str(), category) && text_eq(visited[i].1.as_str(), key) {
            return Some(i);
        }
    }
    None
}

/// The token that a reference names, with a category for bare keys.
pub fn parse_token_reference(reference: &str, fallback_category: &str) -> (r: Option<
    (String, String),
>)
    ensures
        match r {
            Some((c, k)) => reference_target(reference@, fallback_category@) == Some((c@, k@)),
            None => reference_target(reference@, fallback_category@) is None,
        },
{
    let reference = trimmed(reference);
    if reference.as_str().is_empty() {
        return None;
    }
    match split_dot(reference.as_str()) {
        Some((category, key)) => Some((category, key)),
        None => Some((owned(fallback_category), reference)),
    }
}

/// Dynamic token storage. Two-level addressing: category.key (e.g., "fontSize.md", "color.primary")
#[derive(Debug, PartialEq)]
pub struct TokenSet {
    tokens: TextMap<TextMap<TokenValue>>,
}

impl View for TokenSet {
    type V = Tokens;

    closed spec fn view(&self) -> Tokens {
        self.tokens@
    }
}

impl Clone for TokenSet {
    fn clone(&self) -> (r: Self)
        ensures
            r@ == self@,
    {
        self.duplicate()
    }
}

impl Duplicate for TokenSet {
    fn duplicate(&self) -> (r: Self) {
        TokenSet { tokens: self.tokens.duplicate() }
    }
}

impl Default for TokenSet {
    fn default() -> (r: Self)
        ensures
            r@ == Map::<Seq<char>, Map<Seq<char>, Value>>::empty(),
    {
        TokenSet { tokens: TextMap::new() }
    }
}

impl TokenSet {
    /// A set without tokens.
    pub fn new() -> (r: Self)
        ensures
            r@ == Map::<Seq<char>, Map<Seq<char>, Value>>::empty(),
    {
        TokenSet { tokens: TextMap::new() }
    }

    /// Get a token value: tokens.get("fontSize", "md")
    pub fn get(&self, category: &str, key: &str) -> (r: Option<&TokenValue>)
        ensures
            match r {
                Some(v) => lookup(self@, category@, key@) == Some(v@),
                None => lookup(self@, category@, key@) is None,
            },
    {
        match self.tokens.get(category) {
            Some(keys) => keys.get(key),
            None => None,
        }
    }

    /// Set a token value
    pub fn set(&mut self, category: &str, key: &str, value: TokenValue)
        ensures
            final(self)@ == stored(old(self)@, category@, key@, value@),
    {
        if !self.tokens.contains_key(category) {
            self.tokens.insert(owned(category), TextMap::new());
        }
        self.tokens.slot_mut(category).insert(owned(key), value);
        proof {
            reveal(stored);
            assert(self@ =~= stored(old(self)@, category@, key@, value@));
        }
    }

    /// Get a color token, returning None if not found or wrong type
    pub fn get_color(&self, category: &str, key: &str) -> (r: Option<Color>)
        ensures
            r == (match resolved(self@, category@, key@) {
                Some(Value::Color(c)) => Some(c),
                _ => None,
            }),
    {
        match self.get_resolved(category, key) {
            Some(TokenValue::Color(c)) => Some(*c),
            _ => None,
        }
    }

    /// Get a float token, returning None if not found or wrong type
    pub fn get_float(&self, category: &str, key: &str) -> (r: Option<Scalar>)
        ensures
            r == (match resolved(self@, category@, key@) {
                Some(Value::Float(f)) => Some(f),
                _ => None,
            }),
    {
        match self.get_resolved(category, key) {
            Some(TokenValue::Float(f)) => Some(*f),
            _ => None,
        }
    }

    /// Get an int token, returning None if not found or wrong type
    pub fn get_int(&self, category: &str, key: &str) -> (r: Option<i32>)
        ensures
            r == (match resolved(self@, category@, key@) {
                Some(Value::Int(i)) => Some(i),
                _ => None,
            }),
    {
        match self.get_resolved(category, key) {
            Some(TokenValue::Int(i)) => Some(*i),
            _ => None,
        }
    }

    /// Get a bool token, returning None if not found or wrong type
    pub fn get_bool(&self, category: &str, key: &str) -> (r: Option<bool>)
        ensures
            r == (match resolved(self@, category@, key@) {
                Some(Value::Bool(b)) => Some(b),
                _ => None,
            }),
    {
        match self.get_resolved(category, key) {
            Some(TokenValue::Bool(flag)) => Some(*flag),
            _ => None,
        }
    }

    /// Get a string token, returning None if not found or wrong type
    pub fn get_string(&self, category: &str, key: &str) -> (r: Option<&str>)
        ensures
            match r {
                Some(s) => resolved(self@, category@, key@) == Some(Value::Text(s@)),
                None => !(resolved(self@, category@, key@) matches Some(Value::Text(_))),
            },
    {
        match self.get_resolved(category, key) {
            Some(TokenValue::String(s)) => Some(s.as_str()),
            _ => None,
        }
    }

    /// Resolve a token reference like `radius.default` or `md` (with the caller supplying
    /// the fallback category) to its final token value.
    pub fn resolve_reference(&self, reference: &str, fallback_category: Option<&str>) -> (r: Option<
        &TokenValue,
    >)
        ensures
            match r {
                Some(v) => resolved_reference(
                    self@,
                    reference@,
                    (match fallback_category {
                        Some(c) => Some(c@),
                        None => None,
                    }),
                ) == Some(v@),
                None => resolved_reference(
                    self@,
                    reference@,
                    (match fallback_category {
                        Some(c) => Some(c@),
                        None => None,
                    }),
                ) is None,
            },
    {
        match split_dot(reference) {
            Some((category, key)) => self.get_resolved(category.as_str(), key.as_str()),
            None => match fallback_category {
                Some(category) => self.get_resolved(category, reference),
                None => None,
            },
        }
    }

    /// Follows references from a token to the value at their end.
    pub fn get_resolved(&self, category: &str, key: &str) -> (r: Option<&TokenValue>)
        ensures
            match r {
                Some(v) => resolved(self@, category@, key@) == Some(v@),
                None => resolved(self@, category@, key@) is None,
            },
    {
        let mut visited: Vec<(String, String)> = Vec::new();
        let mut current_category = owned(category);
        let mut current_key = owned(key);
        let ghost next = token_next(self@);
        let ghost start: TokenPath = (category@, key@);
        proof {
            token_paths_finite(*self);
        }
        loop
            invariant
                next == token_next(self@),
                start == (category@, key@),
                token_paths(self@).finite(),
                path_views(visited@).no_duplicates(),
                forall|i: int|
                    0 <= i < visited@.len() ==> chain::walk(next, start, i as nat) == Some(
                        #[trigger] path_views(visited@)[i],
                    ),
                forall|i: int|
                    0 <= i < visited@.len() ==> token_paths(self@).contains(
                        #[trigger] path_views(visited@)[i],
                    ),
                chain::walk(next, start, visited@.len()) == Some((current_category@, current_key@)),
            decreases token_paths(self@).len() - visited@.len(),
        {
            let ghost here: TokenPath = (current_category@, current_key@);
            let ghost n = visited@.len();
            if let Some(i) = seen(&visited, current_category.as_str(), current_key.as_str()) {
                proof {
                    chain::circle_never_stops(next, start, i as nat, n);
                }
                return None;
            }
            match self.get(current_category.as_str(), current_key.as_str()) {
                None => {
                    proof {
                        assert(next(here) is None);
                        chain::chain_end_is(next, start, n);
                    }
                    return None;
                },
                Some(value) => match value {
                    TokenValue::Ref(reference) => {
                        match parse_token_reference(reference.as_str(), current_category.as_str()) {
                            None => {
                                proof {
                                    assert(next(here) is None);
                                    chain::chain_end_is(next, start, n);
                                }
                                return None;
                            },
                            Some((next_category, next_key)) => {
                                let ghost before = path_views(visited@);
                                visited.push((current_category, current_key));
                                proof {
                                    let after = path_views(visited@);
                                    assert(after =~= before.push(here));
                                    assert(next(here) == Some((next_category@, next_key@)));
                                    assert(chain::walk(next, start, (n + 1) as nat) == next(here));
                                    assert(token_paths(self@).contains(here));
                                    distinct_within(after, token_paths(self@));
                                    assert forall|i: int|
                                        0 <= i < visited@.len() implies chain::walk(
                                        next,
                                        start,
                                        i as nat,
                                    ) == Some(#[trigger] after[i]) by {
                                        if i < n {
                                            assert(after[i] == before[i]);
                                        }
                                    }
                                    assert forall|i: int|
                                        0 <= i < visited@.len() implies token_paths(
                                        self@,
                                    ).contains(#[trigger] after[i]) by {
                                        if i < n {
                                            assert(after[i] == before[i]);
                                        }
                                    }
                                }
                                current_category = next_category;
                                current_key = next_key;
                            },
                        }
                    },
                    _ => {
                        proof {
                            assert(next(here) is None);
                            chain::chain_end_is(next, start, n);
                        }
                        return Some(value);
                    },
                },
            }
        }
    }

    /// The tokens by category.
    pub fn categories(&self) -> (r: &TextMap<TextMap<TokenValue>>)
        ensures
            r@ == self@,
    {
        &self.tokens
    }

    /// Takes over every token of another set, in place of one with the same address.
    pub fn merge_from(&mut self, other: &TokenSet)
        ensures
            final(self)@ == overlaid(old(self)@, other@),
    {
        let n: usize = other.tokens.len();
        proof {
            textmap::first_keys_bounds(other@);
            assert(overlaid(old(self)@, textmap::first_keys(other@, 0)) =~= old(self)@);
        }
        for i in 0..n
            invariant
                n == textmap::sorted_keys(other@).len(),
                textmap::lists(textmap::sorted_keys(other@), other@.dom()),
                self@ == overlaid(old(self)@, textmap::first_keys(other@, i as int)),
        {
            let category = other.tokens.key_at(i);
            let values = other.tokens.value_at(i);
            let mut merged = match self.tokens.get(category.as_str()) {
                Some(keys) => keys.duplicate(),
                None => TextMap::new(),
            };
            merged.extend_from(values);
            self.tokens.insert(category.clone(), merged);
            proof {
                textmap::first_keys_step(other@, i as int);
                let part = textmap::first_keys(other@, i + 1);
                let c = category@;
                assert(Map::<Seq<char>, Value>::empty().union_prefer_right(other@[c]) =~= other@[c]);
                assert(self@ =~= overlaid(old(self)@, part));
            }
        }
    }
}

/// Theme tokens for light and dark schemes
#[derive(Debug, PartialEq)]
pub struct ThemeTokens {
    pub light: TokenSet,
    pub dark: TokenSet,
}

/// The model of theme tokens.
#[verifier::ext_equal]
pub struct SchemeTokens {
    pub light: Tokens,
    pub dark: Tokens,
}

impl SchemeTokens {
    /// The tokens of one scheme.
    pub open spec fn of(self, scheme: ColorScheme) -> Tokens {
        match scheme {
            ColorScheme::Light => self.light,
            ColorScheme::Dark => self.dark,
        }
    }
}

/// Child tokens over parent tokens. A child's light tokens reach its dark scheme too, below its own
/// dark tokens.
pub open spec fn inherited_tokens(child: SchemeTokens, parent: SchemeTokens) -> SchemeTokens {
    SchemeTokens {
        light: overlaid(parent.light, child.light),
        dark: overlaid(overlaid(parent.dark, child.light), child.dark),
    }
}

impl View for ThemeTokens {
    type V = SchemeTokens;

    open spec fn view(&self) -> SchemeTokens {
        SchemeTokens { light: self.light@, dark: self.dark@ }
    }
}

impl Clone for ThemeTokens {
    fn clone(&self) -> (r: Self)
        ensures
            r@ == self@,
    {
        self.duplicate()
    }
}

impl Duplicate for ThemeTokens {
    fn duplicate(&self) -> (r: Self) {
        ThemeTokens { light: self.light.duplicate(), dark: self.dark.duplicate() }
    }
}

impl Default for ThemeTokens {
    fn default() -> (r: Self)
        ensures
            r@.light == Map::<Seq<char>, Map<Seq<char>, Value>>::empty(),
            r@.dark == Map::<Seq<char>, Map<Seq<char>, Value>>::empty(),
    {
        ThemeTokens { light: TokenSet::new(), dark: TokenSet::new() }
    }
}

/// A token present in one scheme only: category, key and the scheme that lacks it.
pub type Disparity = (Seq<char>, Seq<char>, Seq<char>);

/// The models of a list of disparities.
pub open spec fn disparities(diff: Seq<(String, String, &'static str)>) -> Seq<Disparity> {
    Seq::new(diff.len(), |i: int| (diff[i].0@, diff[i].1@, diff[i].2@))
}

/// Whether a disparity holds between two token sets.
pub open spec fn disparity_holds(light: Tokens, dark: Tokens, d: Disparity) -> bool {
    ||| d.2 == "missing-in-dark"@ && has_token(light, (d.0, d.1)) && !has_token(dark, (d.0, d.1))
    ||| d.2 == "missing-in-light"@ && has_token(dark, (d.0, d.1)) && !has_token(light, (d.0, d.1))
}

proof fn lemma_not_before(keys: Seq<Seq<char>>, i: int)
    requires
        textmap::ascending(keys),
        0 <= i < keys.len(),
    ensures
        !keys.take(i).contains(keys[i]),
{
    if keys.take(i).contains(keys[i]) {
        let k = choose|k: int| 0 <= k < i && keys.take(i)[k] == keys[i];
        assert(text::text_lt(keys[k], keys[i]));
        text::text_lt_irreflexive(keys[i]);
    }
}

/// Appends the tokens of `from` that `to` lacks, with a label.
fn push_missing(
    diff: &mut Vec<(String, String, &'static str)>,
    from: &TokenSet,
    to: &TokenSet,
    label: &'static str,
)
    ensures
        final(diff)@.len() >= old(diff)@.len(),
        final(diff)@.take(old(diff)@.len() as int) == old(diff)@,
        forall|i: int|
            old(diff)@.len() <= i < final(diff)@.len() ==> {
                let d = #[trigger] disparities(final(diff)@)[i];
                d.2 == label@ && has_token(from@, (d.0, d.1)) && !has_token(to@, (d.0, d.1))
            },
        forall|p: TokenPath|
            has_token(from@, p) && !has_token(to@, p) ==> #[trigger] disparities(
                final(diff)@,
            ).contains((p.0, p.1, label@)),
        forall|k: int, l: int|
            old(diff)@.len() <= k < l < final(diff)@.len() ==> #[trigger] disparities(final(diff)@)[k]
                != #[trigger] disparities(final(diff)@)[l],
{
    let ghost base = diff@.len();
    let n: usize = from.tokens.len();
    assert(diff@.take(base as int) =~= diff@);
    for i in 0..n
        invariant
            base == old(diff)@.len(),
            n == textmap::sorted_keys(from@).len(),
            textmap::lists(textmap::sorted_keys(from@), from@.dom()),
            diff@.len() >= base,
            diff@.take(base as int) == old(diff)@,
            forall|j: int|
                base <= j < diff@.len() ==> {
                    let d = #[trigger] disparities(diff@)[j];
                    d.2 == label@ && has_token(from@, (d.0, d.1)) && !has_token(to@, (d.0, d.1))
                },
            forall|p: TokenPath|
                has_token(from@, p) && !has_token(to@, p) && textmap::sorted_keys(from@).take(
                    i as int,
                ).contains(p.0) ==> #[trigger] disparities(diff@).contains((p.0, p.1, label@)),
            forall|k: int|
                base <= k < diff@.len() ==> textmap::sorted_keys(from@).take(i as int).contains(
                    (#[trigger] disparities(diff@)[k]).0,
                ),
            forall|k: int, l: int|
                base <= k < l < diff@.len() ==> #[trigger] disparities(diff@)[k]
                    != #[trigger] disparities(diff@)[l],
    {
        let category = from.tokens.key_at(i);
        let keys = from.tokens.value_at(i);
        let m: usize = keys.len();
        let ghost names = textmap::sorted_keys(from@);
        proof {
            lemma_not_before(names, i as int);
        }
        for j in 0..m
            invariant
                base == old(diff)@.len(),
                m == textmap::sorted_keys(keys@).len(),
                textmap::lists(textmap::sorted_keys(keys@), keys@.dom()),
                from@.dom().contains(category@),
                from@[category@] == keys@,
                diff@.len() >= base,
                diff@.take(base as int) == old(diff)@,
                forall|j: int|
                    base <= j < diff@.len() ==> {
                        let d = #[trigger] disparities(diff@)[j];
                        d.2 == label@ && has_token(from@, (d.0, d.1)) && !has_token(to@, (d.0, d.1))
                    },
                forall|p: TokenPath|
                    has_token(from@, p) && !has_token(to@, p) && names.take(i as int).contains(p.0)
                        ==> #[trigger] disparities(diff@).contains((p.0, p.1, label@)),
                forall|p: TokenPath|
                    p.0 == category@ && has_token(from@, p) && !has_token(to@, p)
                        && textmap::sorted_keys(keys@).take(j as int).contains(p.1)
                        ==> #[trigger] disparities(diff@).contains((p.0, p.1, label@)),
                !names.take(i as int).contains(category@),
                forall|k: int|
                    base <= k < diff@.len() ==> {
                        let d = #[trigger] disparities(diff@)[k];
                        names.take(i as int).contains(d.0) || (d.0 == category@
                            && textmap::sorted_keys(keys@).take(j as int).contains(d.1))
                    },
                forall|k: int, l: int|
                    base <= k < l < diff@.len() ==> #[trigger] disparities(diff@)[k]
                        != #[trigger] disparities(diff@)[l],
        {
            let key = keys.key_at(j);
            let ghost before = diff@;
            proof {
                lemma_not_before(textmap::sorted_keys(keys@), j as int);
                textmap::take_step(textmap::sorted_keys(keys@), j as int);
            }
            if to.get(category.as_str(), key.as_str()).is_none() {
                diff.push((category.clone(), key.clone(), label));
                proof {
                    assert(diff@.take(base as int) =~= before.take(base as int));
                    assert(disparities(diff@)[before.len() as int] == (category@, key@, label@));
                    assert forall|d: Disparity| disparities(before).contains(d) implies
                        #[trigger] disparities(diff@).contains(d) by {
                        let k = choose|k: int| 0 <= k < before.len() && disparities(before)[k] == d;
                        assert(disparities(diff@)[k] == d);
                    }
                    assert forall|k: int| base <= k < diff@.len() implies {
                        let d = #[trigger] disparities(diff@)[k];
                        d.2 == label@ && has_token(from@, (d.0, d.1)) && !has_token(to@, (d.0, d.1))
                    } by {
                        if k < before.len() {
                            assert(disparities(diff@)[k] == disparities(before)[k]);
                        }
                    }
                }
            }
            proof {
                let ks = textmap::sorted_keys(keys@);
                assert forall|k: int| base <= k < diff@.len() implies {
                    let d = #[trigger] disparities(diff@)[k];
                    names.take(i as int).contains(d.0) || (d.0 == category@ && ks.take(j + 1).contains(d.1))
                } by {
                    if k < before.len() {
                        assert(disparities(diff@)[k] == disparities(before)[k]);
                    }
                }
                assert forall|k: int, l: int| base <= k < l < diff@.len() implies #[trigger] disparities(
                    diff@,
                )[k] != #[trigger] disparities(diff@)[l] by {
                    assert(disparities(diff@)[k] == disparities(before)[k]);
                    if l < before.len() {
                        assert(disparities(diff@)[l] == disparities(before)[l]);
                    }
                }
                assert forall|p: TokenPath|
                    p.0 == category@ && has_token(from@, p) && !has_token(to@, p) && ks.take(
                        j + 1,
                    ).contains(p.1) implies #[trigger] disparities(diff@).contains(
                    (p.0, p.1, label@),
                ) by {
                    if ks.take(j as int).contains(p.1) {
                        assert(disparities(before).contains((p.0, p.1, label@)));
                    }
                }
            }
        }
        proof {
            let ks = textmap::sorted_keys(keys@);
            assert(ks.take(m as int) =~= ks);
            textmap::take_step(names, i as int);
            assert forall|p: TokenPath|
                has_token(from@, p) && !has_token(to@, p) && names.take(i + 1).contains(
                    p.0,
                ) implies #[trigger] disparities(diff@).contains((p.0, p.1, label@)) by {
                if !names.take(i as int).contains(p.0) {
                    assert(keys@.dom().contains(p.1));
                    assert(ks.contains(p.1));
                }
            }
        }
    }
    proof {
        let names = textmap::sorted_keys(from@);
        assert(names.take(n as int) =~= names);
        assert forall|p: TokenPath| has_token(from@, p) && !has_token(to@, p) implies
            #[trigger] disparities(diff@).contains((p.0, p.1, label@)) by {
            assert(from@.dom().contains(p.0));
            assert(names.contains(p.0));
        }
    }
}

impl ThemeTokens {
    /// Schemes without tokens.
    pub fn new() -> (r: Self)
        ensures
            r@.light == Map::<Seq<char>, Map<Seq<char>, Value>>::empty(),
            r@.dark == Map::<Seq<char>, Map<Seq<char>, Value>>::empty(),
    {
        ThemeTokens { light: TokenSet::new(), dark: TokenSet::new() }
    }

    /// Get tokens for a specific color scheme
    pub fn for_scheme(&self, scheme: ColorScheme) -> (r: &TokenSet)
        ensures
            r@ == self@.of(scheme),
    {
        match scheme {
            ColorScheme::Light => &self.light,
            ColorScheme::Dark => &self.dark,
        }
    }

    /// These tokens over those of a parent.
    pub fn merged_with_parent(&self, parent: &ThemeTokens) -> (r: ThemeTokens)
        ensures
            r@ == inherited_tokens(self@, parent@),
    {
        let mut light = parent.light.duplicate();
        light.merge_from(&self.light);

        let mut dark = parent.dark.duplicate();
        dark.merge_from(&self.light);
        dark.merge_from(&self.dark);

        ThemeTokens { light, dark }
    }

    /// Return every (category, key) present in `light` but missing in `dark`, or vice versa.
    pub fn parity_diff(&self) -> (r: Vec<(String, String, &'static str)>)
        ensures
            forall|d: Disparity| #[trigger]
                disparities(r@).contains(d) <==> disparity_holds(self@.light, self@.dark, d),
            disparities(r@).no_duplicates(),
    {
        let mut diff: Vec<(String, String, &'static str)> = Vec::new();
        push_missing(&mut diff, &self.light, &self.dark, "missing-in-dark");
        let ghost first = diff@;
        push_missing(&mut diff, &self.dark, &self.light, "missing-in-light");
        proof {
            assert forall|d: Disparity| #[trigger] disparities(diff@).contains(d) <==> disparity_holds(
                self@.light,
                self@.dark,
                d,
            ) by {
                if disparities(diff@).contains(d) {
                    let i = choose|i: int| 0 <= i < diff@.len() && disparities(diff@)[i] == d;
                    if i < first.len() {
                        assert(diff@.take(first.len() as int)[i] == first[i]);
                        assert(disparities(first)[i] == d);
                    }
                }
                if disparity_holds(self@.light, self@.dark, d) {
                    let p: TokenPath = (d.0, d.1);
                    if has_token(self@.light, p) {
                        assert(disparities(first).contains((p.0, p.1, "missing-in-dark"@)));
                        let i = choose|i: int| 0 <= i < first.len() && disparities(first)[i] == d;
                        assert(diff@.take(first.len() as int)[i] == first[i]);
                        assert(disparities(diff@)[i] == d);
                    } else {
                        assert(disparities(diff@).contains((p.0, p.1, "missing-in-light"@)));
                    }
                }
            }
            let all = disparities(diff@);
            assert forall|k: int, l: int| 0 <= k < l < all.len() implies all[k] != all[l] by {
                assert(diff@.take(first.len() as int) == first);
                if k < first.len() {
                    assert(all[k] == disparities(first)[k]);
                    if l < first.len() {
                        assert(all[l] == disparities(first)[l]);
                    }
                }
            }
        }
        diff
    }
}

/// Get a design token value directly.
pub fn get_token(tokens: &ThemeTokens, category: &str, key: &str, scheme: ColorScheme) -> (r:
    Option<TokenValue>)
    ensures
        match r {
            Some(v) => lookup(tokens@.of(scheme), category@, key@) == Some(v@),
            None => lookup(tokens@.of(scheme), category@, key@) is None,
        },
{
    match tokens.for_scheme(scheme).get(category, key) {
        Some(v) => Some(v.duplicate()),
        None => None,
    }
}

/// The tokens of a scheme.
pub fn get_token_set(tokens: &ThemeTokens, scheme: ColorScheme) -> (r: &TokenSet)
    ensures
        r@ == tokens@.of(scheme),
{
    tokens.for_scheme(scheme)
}

/// What is stored is found, and every other token stays as it was.
pub proof fn stored_is_found(
    t: Tokens,
    category: Seq<char>,
    key: Seq<char>,
    v: Value,
    other_category: Seq<char>,
    other_key: Seq<char>,
)
    ensures
        lookup(stored(t, category, key, v), category, key) == Some(v),
        other_category != category || other_key != key ==> lookup(
            stored(t, category, key, v),
            other_category,
            other_key,
        ) == lookup(t, other_category, other_key),
{
    reveal(stored);
}

/// Of overlaid token sets the upper one's token counts, and the lower one's where the upper has none.
pub proof fn overlaid_lookup(t: Tokens, over: Tokens, category: Seq<char>, key: Seq<char>)
    ensures
        lookup(overlaid(t, over), category, key) == (match lookup(over, category, key) {
            Some(v) => Some(v),
            None => lookup(t, category, key),
        }),
{
}

/// A token that refers to another resolves to what that other resolves to.
pub proof fn reference_resolves_like_target(t: Tokens, p: TokenPath, q: TokenPath)
    requires
        token_next(t)(p) == Some(q),
    ensures
        resolved(t, p.0, p.1) == resolved(t, q.0, q.1),
{
    chain::chain_end_of_rest(token_next(t), p, q);
}

/// Tokens that refer to each other in a circle resolve to nothing.
pub proof fn circular_reference_resolves_to_nothing(t: Tokens, p: TokenPath, n: nat)
    requires
        n > 0,
        chain::walk(token_next(t), p, n) == Some(p),
    ensures
        resolved(t, p.0, p.1) is None,
{
    assert(chain::walk(token_next(t), p, 0) == Some(p));
    chain::circle_never_stops(token_next(t), p, 0, n);
}

/// A token that is no reference resolves to itself.
pub proof fn plain_token_resolves_to_itself(t: Tokens, category: Seq<char>, key: Seq<char>, v: Value)
    requires
        lookup(t, category, key) == Some(v),
        !(v is Ref),
    ensures
        resolved(t, category, key) == Some(v),
{
    let next = token_next(t);
    assert(chain::walk(next, (category, key), 0) == Some((category, key)));
    assert(chain::stops_after(next, (category, key), 0));
    chain::chain_end_is(next, (category, key), 0);
}

/// There is no disparity between two schemes exactly where they hold tokens at the same addresses.
pub proof fn parity_means_same_paths(light: Tokens, dark: Tokens)
    ensures
        (forall|d: Disparity| !#[trigger] disparity_holds(light, dark, d)) <==> token_paths(light)
            == token_paths(dark),
{
    if forall|d: Disparity| !#[trigger] disparity_holds(light, dark, d) {
        assert forall|p: TokenPath| token_paths(light).contains(p) == token_paths(dark).contains(
            p,
        ) by {
            assert(!disparity_holds(light, dark, (p.0, p.1, "missing-in-dark"@)));
            assert(!disparity_holds(light, dark, (p.0, p.1, "missing-in-light"@)));
        }
        assert(token_paths(light) =~= token_paths(dark));
    }
    if token_paths(light) == token_paths(dark) {
        assert forall|d: Disparity| !#[trigger] disparity_holds(light, dark, d) by {
            assert(token_paths(light).contains((d.0, d.1)) == token_paths(dark).contains(
                (d.0, d.1),
            ));
        }
    }
}

/// What an inherited theme has for a token: the light scheme takes the child's light token before the
/// parent's; the dark scheme takes the child's dark token, then the child's light token, then the
/// parent's dark one.
pub proof fn inherited_token(
    child: SchemeTokens,
    parent: SchemeTokens,
    category: Seq<char>,
    key: Seq<char>,
)
    ensures
        lookup(inherited_tokens(child, parent).light, category, key) == (match lookup(
            child.light,
            category,
            key,
        ) {
            Some(v) => Some(v),
            None => lookup(parent.light, category, key),
        }),
        lookup(inherited_tokens(child, parent).dark, category, key) == (match lookup(
            child.dark,
            category,
            key,
        ) {
            Some(v) => Some(v),
            None => match lookup(child.light, category, key) {
                Some(v) => Some(v),
                None => lookup(parent.dark, category, key),
            },
        }),
{
    overlaid_lookup(parent.light, child.light, category, key);
    overlaid_lookup(parent.dark, child.light, category, key);
    overlaid_lookup(overlaid(parent.dark, child.light), child.dark, category, key);
}

} // verus!
