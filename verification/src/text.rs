//! Text helpers. The model of a text is the sequence of its characters.

use vstd::prelude::*;
use crate::textmap;

verus! {

/// Equality of string slices (`str`'s `PartialEq`): two slices are equal when they hold the same
/// characters.
pub assume_specification[ <str as PartialEq<str>>::eq ](a: &str, b: &str) -> (r: bool)
    ensures
        r == (a@ == b@),
;

/// `String::push` appends one character.
pub assume_specification[ std::string::String::push ](s: &mut std::string::String, c: char)
    ensures
        final(s)@ == old(s)@.push(c),
;

/// `String::push_str` appends a whole slice.
pub assume_specification[ std::string::String::push_str ](s: &mut std::string::String, t: &str)
    ensures
        final(s)@ == old(s)@ + t@,
;

/// Whether a character has the Unicode property White_Space.
pub open spec fn is_white(c: char) -> bool {
    ||| '\u{9}' <= c <= '\u{d}'
    ||| c == ' '
    ||| c == '\u{85}'
    ||| c == '\u{a0}'
    ||| c == '\u{1680}'
    ||| '\u{2000}' <= c <= '\u{200a}'
    ||| c == '\u{2028}'
    ||| c == '\u{2029}'
    ||| c == '\u{202f}'
    ||| c == '\u{205f}'
    ||| c == '\u{3000}'
}

/// Whether a character has the Unicode property White_Space.
pub fn char_is_white(c: char) -> (r: bool)
    ensures
        r == is_white(c),
{
    ('\u{9}' <= c && c <= '\u{d}') || c == ' ' || c == '\u{85}' || c == '\u{a0}' || c == '\u{1680}' || (
    '\u{2000}' <= c && c <= '\u{200a}') || c == '\u{2028}' || c == '\u{2029}' || c == '\u{202f}' || c
        == '\u{205f}' || c == '\u{3000}'
}

/// Whether two texts hold the same characters.
pub fn text_eq(a: &str, b: &str) -> (r: bool)
    ensures
        r == (a@ == b@),
{
    *a == *b
}

/// The characters of a text, as a vector.
pub fn to_chars(s: &str) -> (r: Vec<char>)
    ensures
        r@ == s@,
{
    let mut out: Vec<char> = Vec::new();
    for c in it: s.chars()
        invariant
            out@ == it.seq().take(it.index()),
            it.seq() == s@,
    {
        out.push(c);
        assert(it.seq().take(it.index() + 1) =~= it.seq().take(it.index()).push(c));
    }
    out
}

/// The text made of the characters from `start` up to, not including, `end`.
pub fn chars_to_text(chars: &Vec<char>, start: usize, end: usize) -> (r: String)
    requires
        start <= end <= chars@.len(),
    ensures
        r@ == chars@.subrange(start as int, end as int),
{
    let mut out = String::new();
    for i in start..end
        invariant
            start <= end <= chars@.len(),
            start <= i,
            out@ == chars@.subrange(start as int, i as int),
    {
        out.push(chars[i]);
        assert(chars@.subrange(start as int, i + 1) =~= chars@.subrange(start as int, i as int).push(
            chars@[i as int],
        ));
    }
    out
}

/// An owned copy of a text.
pub fn owned(s: &str) -> (r: String)
    ensures
        r@ == s@,
{
    s.to_owned()
}

/// The two texts one after the other.
pub fn joined(a: &str, b: &str) -> (r: String)
    ensures
        r@ == a@ + b@,
{
    let mut out = owned(a);
    out.push_str(b);
    out
}

// ---------------------------------------------------------------------------------------------
// Lexicographic order by code point
// ---------------------------------------------------------------------------------------------
/// `a` comes strictly before `b` in the order by code points, first difference first.
pub open spec fn text_lt(a: Seq<char>, b: Seq<char>) -> bool
    decreases a.len(),
{
    if b.len() == 0 {
        false
    } else if a.len() == 0 {
        true
    } else if a[0] != b[0] {
        a[0] < b[0]
    } else {
        text_lt(a.drop_first(), b.drop_first())
    }
}

/// No text comes before itself.
pub proof fn text_lt_irreflexive(a: Seq<char>)
    ensures
        !text_lt(a, a),
    decreases a.len(),
{
    if a.len() > 0 {
        text_lt_irreflexive(a.drop_first());
    }
}

/// Of two different texts one comes before the other.
pub proof fn text_lt_total(a: Seq<char>, b: Seq<char>)
    ensures
        a == b || text_lt(a, b) || text_lt(b, a),
    decreases a.len(),
{
    if a.len() == 0 || b.len() == 0 {
        if a.len() == b.len() {
            assert(a =~= b);
        }
    } else if a[0] == b[0] {
        text_lt_total(a.drop_first(), b.drop_first());
        if a.drop_first() == b.drop_first() {
            assert(a =~= seq![a[0]] + a.drop_first());
            assert(b =~= seq![b[0]] + b.drop_first());
        }
    }
}

/// The order is transitive.
pub proof fn text_lt_transitive(a: Seq<char>, b: Seq<char>, c: Seq<char>)
    requires
        text_lt(a, b),
        text_lt(b, c),
    ensures
        text_lt(a, c),
    decreases a.len(),
{
    if a.len() > 0 && a[0] == b[0] && b[0] == c[0] {
        text_lt_transitive(a.drop_first(), b.drop_first(), c.drop_first());
    }
}

/// The order is asymmetric.
pub proof fn text_lt_asymmetric(a: Seq<char>, b: Seq<char>)
    requires
        text_lt(a, b),
    ensures
        !text_lt(b, a),
        a != b,
{
    text_lt_irreflexive(a);
    if text_lt(b, a) {
        text_lt_transitive(a, b, a);
    }
}

/// Whether `a` comes strictly before `b`.
pub fn text_less(a: &str, b: &str) -> (r: bool)
    ensures
        r == text_lt(a@, b@),
{
    let x = to_chars(a);
    let y = to_chars(b);
    let mut i: usize = 0;
    assert(a@.skip(0) =~= a@ && b@.skip(0) =~= b@);
    while i < x.len() && i < y.len() && x[i] == y[i]
        invariant
            x@ == a@,
            y@ == b@,
            i <= x@.len(),
            i <= y@.len(),
            text_lt(a@, b@) == text_lt(a@.skip(i as int), b@.skip(i as int)),
        decreases x@.len() - i,
    {
        proof {
            assert(a@.skip(i as int).drop_first() =~= a@.skip(i + 1));
            assert(b@.skip(i as int).drop_first() =~= b@.skip(i + 1));
        }
        i = i + 1;
    }
    if i == y.len() {
        false
    } else if i == x.len() {
        true
    } else {
        x[i] < y[i]
    }
}

// ---------------------------------------------------------------------------------------------
// ASCII case
// ---------------------------------------------------------------------------------------------
/// Whether a character is an ASCII upper case letter.
pub open spec fn is_upper(c: char) -> bool {
    'A' <= c <= 'Z'
}

/// Whether a character is an ASCII lower case letter.
pub open spec fn is_lower(c: char) -> bool {
    'a' <= c <= 'z'
}

/// Whether a character is an ASCII digit.
pub open spec fn is_digit(c: char) -> bool {
    '0' <= c <= '9'
}

/// Whether a character is an ASCII letter or digit.
pub open spec fn is_alnum(c: char) -> bool {
    is_upper(c) || is_lower(c) || is_digit(c)
}

/// The character with ASCII upper case letters turned to lower case.
pub open spec fn lower(c: char) -> char {
    if is_upper(c) {
        ((c as u32) + 32) as char
    } else {
        c
    }
}

/// The character with ASCII lower case letters turned to upper case.
pub open spec fn upper(c: char) -> char {
    if is_lower(c) {
        ((c as u32) - 32) as char
    } else {
        c
    }
}

/// Whether a character is an ASCII letter or digit.
pub fn char_is_alnum(c: char) -> (r: bool)
    ensures
        r == is_alnum(c),
{
    ('A' <= c && c <= 'Z') || ('a' <= c && c <= 'z') || ('0' <= c && c <= '9')
}

/// Turns an ASCII upper case letter to lower case.
pub fn char_lower(c: char) -> (r: char)
    ensures
        r == lower(c),
{
    if 'A' <= c && c <= 'Z' {
        (c as u8 + 32) as char
    } else {
        c
    }
}

/// Turns an ASCII lower case letter to upper case.
pub fn char_upper(c: char) -> (r: char)
    ensures
        r == upper(c),
{
    if 'a' <= c && c <= 'z' {
        (c as u8 - 32) as char
    } else {
        c
    }
}

// ---------------------------------------------------------------------------------------------
// Trimming
// ---------------------------------------------------------------------------------------------
/// The text without its leading white space.
pub open spec fn trim_start(s: Seq<char>) -> Seq<char>
    decreases s.len(),
{
    if s.len() > 0 && is_white(s[0]) {
        trim_start(s.drop_first())
    } else {
        s
    }
}

/// The text without its trailing white space.
pub open spec fn trim_end(s: Seq<char>) -> Seq<char>
    decreases s.len(),
{
    if s.len() > 0 && is_white(s.last()) {
        trim_end(s.drop_last())
    } else {
        s
    }
}

/// The text without its leading and trailing white space.
pub open spec fn trim(s: Seq<char>) -> Seq<char> {
    trim_end(trim_start(s))
}

/// The text without its trailing white space.
pub fn trimmed_end(s: &str) -> (r: String)
    ensures
        r@ == trim_end(s@),
{
    let chars = to_chars(s);
    let mut end: usize = chars.len();
    assert(s@.take(end as int) =~= s@);
    while end > 0 && char_is_white(chars[end - 1])
        invariant
            chars@ == s@,
            end <= chars@.len(),
            trim_end(s@) == trim_end(s@.take(end as int)),
        decreases end,
    {
        proof {
            assert(s@.take(end as int).drop_last() =~= s@.take(end - 1));
        }
        end = end - 1;
    }
    proof {
        if end > 0 {
            assert(s@.take(end as int).last() == s@[end - 1]);
        }
        assert(chars@.subrange(0, end as int) =~= s@.take(end as int));
    }
    chars_to_text(&chars, 0, end)
}

/// The text without its leading and trailing white space.
pub fn trimmed(s: &str) -> (r: String)
    ensures
        r@ == trim(s@),
{
    let chars = to_chars(s);
    let mut start: usize = 0;
    assert(s@.skip(0) =~= s@);
    while start < chars.len() && char_is_white(chars[start])
        invariant
            chars@ == s@,
            start <= chars@.len(),
            trim_start(s@) == trim_start(s@.skip(start as int)),
        decreases chars@.len() - start,
    {
        proof {
            assert(s@.skip(start as int).drop_first() =~= s@.skip(start + 1));
        }
        start = start + 1;
    }
    proof {
        assert(chars@.subrange(start as int, chars@.len() as int) =~= s@.skip(start as int));
    }
    let tail = chars_to_text(&chars, start, chars.len());
    trimmed_end(tail.as_str())
}

// ---------------------------------------------------------------------------------------------
// Character by character
// ---------------------------------------------------------------------------------------------
/// The text with every `from` replaced by `to`.
pub open spec fn replace_char(s: Seq<char>, from: char, to: char) -> Seq<char> {
    Seq::new(s.len(), |i: int| if s[i] == from { to } else { s[i] })
}

/// The text with its ASCII letters in lower case.
pub open spec fn lowercased(s: Seq<char>) -> Seq<char> {
    Seq::new(s.len(), |i: int| lower(s[i]))
}

/// Replaces every `from` by `to`.
pub fn replaced_char(s: &str, from: char, to: char) -> (r: String)
    ensures
        r@ == replace_char(s@, from, to),
{
    let chars = to_chars(s);
    let mut out = String::new();
    for i in 0..chars.len()
        invariant
            chars@ == s@,
            out@ == replace_char(s@, from, to).take(i as int),
    {
        if chars[i] == from {
            out.push(to);
        } else {
            out.push(chars[i]);
        }
        assert(replace_char(s@, from, to).take(i + 1) =~= replace_char(s@, from, to).take(
            i as int,
        ).push(replace_char(s@, from, to)[i as int]));
    }
    assert(replace_char(s@, from, to).take(s@.len() as int) =~= replace_char(s@, from, to));
    out
}

/// Turns ASCII letters to lower case.
pub fn to_lower(s: &str) -> (r: String)
    ensures
        r@ == lowercased(s@),
{
    let chars = to_chars(s);
    let mut out = String::new();
    for i in 0..chars.len()
        invariant
            chars@ == s@,
            out@ == lowercased(s@).take(i as int),
    {
        out.push(char_lower(chars[i]));
        assert(lowercased(s@).take(i + 1) =~= lowercased(s@).take(i as int).push(
            lowercased(s@)[i as int],
        ));
    }
    assert(lowercased(s@).take(s@.len() as int) =~= lowercased(s@));
    out
}

/// The text in lower case without underscores and hyphens: what the spellings of one name share.
pub open spec fn plain_name(s: Seq<char>) -> Seq<char>
    decreases s.len(),
{
    if s.len() == 0 {
        Seq::empty()
    } else if s.last() == '_' || s.last() == '-' {
        plain_name(s.drop_last())
    } else {
        plain_name(s.drop_last()).push(lower(s.last()))
    }
}

/// Turns ASCII letters to lower case and drops underscores and hyphens.
pub fn to_plain_name(s: &str) -> (r: String)
    ensures
        r@ == plain_name(s@),
{
    let chars = to_chars(s);
    let mut out = String::new();
    for i in 0..chars.len()
        invariant
            chars@ == s@,
            out@ == plain_name(s@.take(i as int)),
    {
        assert(s@.take(i + 1).drop_last() =~= s@.take(i as int));
        if chars[i] != '_' && chars[i] != '-' {
            out.push(char_lower(chars[i]));
        }
    }
    assert(s@.take(s@.len() as int) =~= s@);
    out
}

// ---------------------------------------------------------------------------------------------
// Searching and splitting
// ---------------------------------------------------------------------------------------------
/// Where `pat` first occurs in `s` at or after `from`: `None` where it does not.
pub open spec fn find_from(s: Seq<char>, pat: Seq<char>, from: int) -> Option<int>
    decreases s.len() + 1 - from,
{
    if from + pat.len() > s.len() {
        None
    } else if s.subrange(from, from + pat.len()) == pat {
        Some(from)
    } else {
        find_from(s, pat, from + 1)
    }
}

/// The two parts of `s` before and after the first occurrence of `pat`.
pub open spec fn split_at_first(s: Seq<char>, pat: Seq<char>) -> Option<(Seq<char>, Seq<char>)> {
    match find_from(s, pat, 0) {
        Some(i) => Some((s.take(i), s.skip(i + pat.len()))),
        None => None,
    }
}

/// Whether `pat` stands somewhere in `s`.
pub open spec fn occurs(s: Seq<char>, pat: Seq<char>) -> bool {
    exists|i: int| 0 <= i && i + pat.len() <= s.len() && #[trigger] s.subrange(i, i + pat.len()) == pat
}

pub(crate) proof fn lemma_find_from_least(s: Seq<char>, pat: Seq<char>, from: int, k: int)
    requires
        0 <= from <= k,
        k + pat.len() <= s.len(),
        s.subrange(k, k + pat.len()) == pat,
    ensures
        find_from(s, pat, from) is Some,
        from <= find_from(s, pat, from)->Some_0 <= k,
    decreases k - from,
{
    if from < k && s.subrange(from, from + pat.len()) != pat {
        lemma_find_from_least(s, pat, from + 1, k);
    }
}

/// A text is found exactly where it stands in the other.
pub proof fn contained_means_occurs(s: Seq<char>, pat: Seq<char>)
    ensures
        text_contains(s, pat) <==> occurs(s, pat),
{
    find_from_bounds(s, pat, 0);
    if occurs(s, pat) {
        let k = choose|k: int| 0 <= k && k + pat.len() <= s.len() && #[trigger] s.subrange(k, k + pat.len()) == pat;
        lemma_find_from_least(s, pat, 0, k);
    } else if let Some(i) = find_from(s, pat, 0) {
        assert(s.subrange(i, i + pat.len()) == pat);
    }
}

/// The two parts of a split text have the pattern between them, and it stands nowhere earlier; a text
/// is split exactly where the pattern stands in it.
pub proof fn split_parts_make_the_text(s: Seq<char>, pat: Seq<char>)
    ensures
        split_at_first(s, pat) is Some <==> occurs(s, pat),
        split_at_first(s, pat) matches Some((a, b)) ==> {
            &&& s == a + pat + b
            &&& forall|i: int| 0 <= i < a.len() ==> #[trigger] s.subrange(i, i + pat.len()) != pat
        },
{
    contained_means_occurs(s, pat);
    find_from_bounds(s, pat, 0);
    if let Some((a, b)) = split_at_first(s, pat) {
        let n = find_from(s, pat, 0)->Some_0;
        assert(s =~= a + s.subrange(n, n + pat.len()) + b);
        assert forall|i: int| 0 <= i < a.len() implies #[trigger] s.subrange(i, i + pat.len()) != pat by {
            if s.subrange(i, i + pat.len()) == pat {
                lemma_find_from_least(s, pat, 0, i);
            }
        }
    }
}

/// Where `s` begins with `pat`: what follows it.
pub open spec fn after_prefix(s: Seq<char>, pat: Seq<char>) -> Option<Seq<char>> {
    if pat.len() <= s.len() && s.take(pat.len() as int) == pat {
        Some(s.skip(pat.len() as int))
    } else {
        None
    }
}

/// A found occurrence lies inside the text.
pub proof fn find_from_bounds(s: Seq<char>, pat: Seq<char>, from: int)
    requires
        0 <= from,
    ensures
        match find_from(s, pat, from) {
            Some(i) => from <= i && i + pat.len() <= s.len() && s.subrange(i, i + pat.len()) == pat,
            None => true,
        },
    decreases s.len() + 1 - from,
{
    if from + pat.len() <= s.len() && s.subrange(from, from + pat.len()) != pat {
        find_from_bounds(s, pat, from + 1);
    }
}

/// Whether the characters of `pat` stand in `chars` at position `at`.
fn occurs_at(chars: &Vec<char>, pat: &Vec<char>, at: usize) -> (r: bool)
    requires
        at + pat@.len() <= chars@.len(),
    ensures
        r == (chars@.subrange(at as int, at + pat@.len()) == pat@),
{
    let n: usize = chars.len();
    for i in 0..pat.len()
        invariant
            n == chars@.len(),
            at + pat@.len() <= n,
            forall|j: int| 0 <= j < i ==> chars@[at + j] == pat@[j],
    {
        if chars[at + i] != pat[i] {
            proof {
                assert(chars@.subrange(at as int, at + pat@.len())[i as int] != pat@[i as int]);
            }
            return false;
        }
    }
    assert(chars@.subrange(at as int, at + pat@.len()) =~= pat@);
    true
}

/// The two parts of `s` before and after the first occurrence of `pat`.
pub fn split_once(s: &str, pat: &str) -> (r: Option<(String, String)>)
    ensures
        match r {
            Some((a, b)) => split_at_first(s@, pat@) == Some((a@, b@)),
            None => split_at_first(s@, pat@) is None,
        },
{
    let chars = to_chars(s);
    let p = to_chars(pat);
    if p.len() > chars.len() {
        return None;
    }
    let total: usize = chars.len();
    let last: usize = total - p.len();
    let mut i: usize = 0;
    loop
        invariant
            chars@ == s@,
            p@ == pat@,
            total == chars@.len(),
            last + p@.len() == total,
            i <= last,
            find_from(s@, pat@, 0) == find_from(s@, pat@, i as int),
        decreases last - i,
    {
        if occurs_at(&chars, &p, i) {
            proof {
                assert(chars@.subrange(0, i as int) =~= s@.take(i as int));
                assert(chars@.subrange(i + p@.len(), chars@.len() as int) =~= s@.skip(
                    i + pat@.len(),
                ));
            }
            return Some(
                (chars_to_text(&chars, 0, i), chars_to_text(&chars, i + p.len(), chars.len())),
            );
        }
        if i == last {
            assert(find_from(s@, pat@, i + 1) is None);
            return None;
        }
        i = i + 1;
    }
}

/// The parts of a text before and after its first dot.
pub open spec fn dot_split(s: Seq<char>) -> Option<(Seq<char>, Seq<char>)> {
    split_at_first(s, seq!['.'])
}

/// The parts of a text before and after its first dot.
pub fn split_dot(s: &str) -> (r: Option<(String, String)>)
    ensures
        match r {
            Some((a, b)) => dot_split(s@) == Some((a@, b@)),
            None => dot_split(s@) is None,
        },
{
    proof {
        reveal_strlit(".");
        assert("."@ =~= seq!['.']);
    }
    split_once(s, ".")
}

/// Whether `pat` occurs in `s`.
pub open spec fn text_contains(s: Seq<char>, pat: Seq<char>) -> bool {
    find_from(s, pat, 0) is Some
}

/// Whether `pat` occurs in `s`.
pub fn contains_text(s: &str, pat: &str) -> (r: bool)
    ensures
        r == text_contains(s@, pat@),
{
    split_once(s, pat).is_some()
}

/// Where `s` begins with `pat`: what follows it.
pub fn strip_prefix(s: &str, pat: &str) -> (r: Option<String>)
    ensures
        match r {
            Some(t) => after_prefix(s@, pat@) == Some(t@),
            None => after_prefix(s@, pat@) is None,
        },
{
    let chars = to_chars(s);
    let p = to_chars(pat);
    if p.len() > chars.len() {
        return None;
    }
    proof {
        assert(chars@.subrange(0int, 0int + p@.len()) =~= s@.take(pat@.len() as int));
    }
    if occurs_at(&chars, &p, 0) {
        proof {
            assert(chars@.subrange(p@.len() as int, chars@.len() as int) =~= s@.skip(
                pat@.len() as int,
            ));
        }
        Some(chars_to_text(&chars, p.len(), chars.len()))
    } else {
        None
    }
}

/// Whether `s` begins with `pat`.
pub open spec fn has_prefix(s: Seq<char>, pat: Seq<char>) -> bool {
    after_prefix(s, pat) is Some
}

/// Whether `s` begins with `pat`.
pub fn starts_with(s: &str, pat: &str) -> (r: bool)
    ensures
        r == has_prefix(s@, pat@),
{
    strip_prefix(s, pat).is_some()
}

/// The parts of a text between the occurrences of a character.
pub open spec fn split_char(s: Seq<char>, c: char) -> Seq<Seq<char>>
    decreases s.len(),
{
    if s.len() == 0 {
        seq![Seq::empty()]
    } else {
        let front = split_char(s.drop_last(), c);
        if s.last() == c {
            front.push(Seq::empty())
        } else {
            front.update(front.len() - 1, front.last().push(s.last()))
        }
    }
}

/// A text has at least one part.
pub proof fn split_char_some(s: Seq<char>, c: char)
    ensures
        split_char(s, c).len() > 0,
    decreases s.len(),
{
    if s.len() > 0 {
        split_char_some(s.drop_last(), c);
    }
}

/// A text without the character is its only part.
pub proof fn split_char_plain(s: Seq<char>, c: char)
    requires
        !s.contains(c),
    ensures
        split_char(s, c) == seq![s],
    decreases s.len(),
{
    if s.len() == 0 {
        assert(s =~= Seq::<char>::empty());
    } else {
        let front = s.drop_last();
        assert forall|i: int| 0 <= i < front.len() implies front[i] != c by {
            assert(s[i] == front[i]);
            assert(s.contains(s[i]));
        }
        split_char_plain(front, c);
        assert(s.contains(s[s.len() - 1]));
        assert(front.push(s.last()) =~= s);
        assert(split_char(s, c) =~= seq![s]);
    }
}

/// What stands behind the last occurrence of the character is the last part.
pub proof fn split_char_behind(a: Seq<char>, c: char, b: Seq<char>)
    requires
        !b.contains(c),
    ensures
        split_char(a + seq![c] + b, c) == split_char(a, c).push(b),
    decreases b.len(),
{
    let s = a + seq![c] + b;
    if b.len() == 0 {
        assert(s.drop_last() =~= a);
        assert(s.last() == c);
        assert(b =~= Seq::<char>::empty());
    } else {
        let front = b.drop_last();
        assert forall|i: int| 0 <= i < front.len() implies front[i] != c by {
            assert(b[i] == front[i]);
            assert(b.contains(b[i]));
        }
        split_char_behind(a, c, front);
        assert(s.drop_last() =~= a + seq![c] + front);
        assert(s.last() == b.last());
        assert(b.contains(b[b.len() - 1]));
        assert(front.push(b.last()) =~= b);
        assert(split_char(s, c) =~= split_char(a, c).push(b));
    }
}

/// The parts of a text between the occurrences of a character.
pub fn split_on(s: &str, c: char) -> (r: Vec<String>)
    ensures
        textmap::views(r@) == split_char(s@, c),
{
    let chars = to_chars(s);
    let mut out: Vec<String> = Vec::new();
    let mut current = String::new();
    proof {
        assert(textmap::views(out@).push(current@) =~= split_char(s@.take(0), c));
    }
    for i in 0..chars.len()
        invariant
            chars@ == s@,
            textmap::views(out@).push(current@) == split_char(s@.take(i as int), c),
    {
        let ghost before = textmap::views(out@);
        let ghost part = current@;
        proof {
            assert(s@.take(i + 1).drop_last() =~= s@.take(i as int));
            assert(s@.take(i + 1).last() == s@[i as int]);
            assert(before.push(part).last() == part);
        }
        if chars[i] == c {
            out.push(current);
            current = String::new();
            assert(textmap::views(out@) =~= before.push(part));
            assert(current@ =~= Seq::<char>::empty());
        } else {
            current.push(chars[i]);
            assert(before.push(part).update(before.len() as int, part.push(s@[i as int]))
                =~= before.push(current@));
        }
    }
    proof {
        assert(s@.take(s@.len() as int) =~= s@);
    }
    let ghost before = textmap::views(out@);
    let ghost part = current@;
    out.push(current);
    assert(textmap::views(out@) =~= before.push(part));
    out
}

/// What stands before the first white space.
pub open spec fn until_white(s: Seq<char>) -> Seq<char>
    decreases s.len(),
{
    if s.len() == 0 || is_white(s[0]) {
        Seq::empty()
    } else {
        seq![s[0]] + until_white(s.drop_first())
    }
}

/// The first word of a text.
pub open spec fn first_word(s: Seq<char>) -> Option<Seq<char>> {
    if trim_start(s).len() == 0 {
        None
    } else {
        Some(until_white(trim_start(s)))
    }
}

proof fn lemma_until_white(s: Seq<char>, n: int)
    requires
        0 <= n <= s.len(),
        n == s.len() || is_white(s[n]),
        forall|i: int| 0 <= i < n ==> !is_white(#[trigger] s[i]),
    ensures
        until_white(s) == s.take(n),
    decreases n,
{
    if n > 0 {
        let rest = s.drop_first();
        assert(!is_white(s[0]));
        assert forall|i: int| 0 <= i < n - 1 implies !is_white(#[trigger] rest[i]) by {
            assert(rest[i] == s[i + 1]);
        }
        lemma_until_white(rest, n - 1);
        assert(s.take(n) =~= seq![s[0]] + rest.take(n - 1));
    } else {
        assert(s.take(0) =~= Seq::<char>::empty());
    }
}

proof fn lemma_trim_start(s: Seq<char>, n: int)
    requires
        0 <= n <= s.len(),
        n == s.len() || !is_white(s[n]),
        forall|i: int| 0 <= i < n ==> is_white(#[trigger] s[i]),
    ensures
        trim_start(s) == s.skip(n),
    decreases n,
{
    if n > 0 {
        let rest = s.drop_first();
        assert(is_white(s[0]));
        assert forall|i: int| 0 <= i < n - 1 implies is_white(#[trigger] rest[i]) by {
            assert(rest[i] == s[i + 1]);
        }
        lemma_trim_start(rest, n - 1);
        assert(rest.skip(n - 1) =~= s.skip(n));
    } else {
        assert(s.skip(0) =~= s);
    }
}

/// The first word of a text.
pub fn leading_word(s: &str) -> (r: Option<String>)
    ensures
        match r {
            Some(w) => first_word(s@) == Some(w@),
            None => first_word(s@) is None,
        },
{
    let chars = to_chars(s);
    let mut start: usize = 0;
    while start < chars.len() && char_is_white(chars[start])
        invariant
            chars@ == s@,
            start <= chars@.len(),
            forall|i: int| 0 <= i < start ==> is_white(#[trigger] s@[i]),
        decreases chars@.len() - start,
    {
        start = start + 1;
    }
    proof {
        lemma_trim_start(s@, start as int);
    }
    if start == chars.len() {
        return None;
    }
    let ghost rest = s@.skip(start as int);
    let mut end: usize = start;
    while end < chars.len() && !char_is_white(chars[end])
        invariant
            chars@ == s@,
            start <= end <= chars@.len(),
            forall|i: int| start <= i < end ==> !is_white(#[trigger] s@[i]),
        decreases chars@.len() - end,
    {
        end = end + 1;
    }
    proof {
        assert forall|i: int| 0 <= i < end - start implies !is_white(#[trigger] rest[i]) by {
            assert(rest[i] == s@[start + i]);
        }
        if end < chars@.len() {
            assert(rest[end - start] == s@[end as int]);
        }
        lemma_until_white(rest, end - start);
        assert(rest.take(end - start) =~= s@.subrange(start as int, end as int));
    }
    Some(chars_to_text(&chars, start, end))
}

/// The text without a character at its end, however often.
pub open spec fn without_trailing(s: Seq<char>, c: char) -> Seq<char>
    decreases s.len(),
{
    if s.len() > 0 && s.last() == c {
        without_trailing(s.drop_last(), c)
    } else {
        s
    }
}

/// The text without a character at its start, however often.
pub open spec fn without_leading(s: Seq<char>, c: char) -> Seq<char>
    decreases s.len(),
{
    if s.len() > 0 && s[0] == c {
        without_leading(s.drop_first(), c)
    } else {
        s
    }
}

/// The text without a character at its end, however often.
pub fn strip_trailing(s: &str, c: char) -> (r: String)
    ensures
        r@ == without_trailing(s@, c),
{
    let chars = to_chars(s);
    let mut end: usize = chars.len();
    assert(s@.take(end as int) =~= s@);
    while end > 0 && chars[end - 1] == c
        invariant
            chars@ == s@,
            end <= chars@.len(),
            without_trailing(s@, c) == without_trailing(s@.take(end as int), c),
        decreases end,
    {
        assert(s@.take(end as int).drop_last() =~= s@.take(end - 1));
        end = end - 1;
    }
    proof {
        assert(s@.take(end as int) =~= s@.subrange(0, end as int));
        if end > 0 {
            assert(s@.take(end as int).last() == s@[end - 1]);
        }
    }
    chars_to_text(&chars, 0, end)
}

/// The text without a character at its start, however often.
pub fn strip_leading(s: &str, c: char) -> (r: String)
    ensures
        r@ == without_leading(s@, c),
{
    let chars = to_chars(s);
    let mut start: usize = 0;
    assert(s@.skip(0) =~= s@);
    while start < chars.len() && chars[start] == c
        invariant
            chars@ == s@,
            start <= chars@.len(),
            without_leading(s@, c) == without_leading(s@.skip(start as int), c),
        decreases chars@.len() - start,
    {
        proof {
            assert(s@.skip(start as int)[0] == s@[start as int]);
            assert(s@.skip(start as int).drop_first() =~= s@.skip(start + 1));
        }
        start = start + 1;
    }
    proof {
        let rest = s@.skip(start as int);
        assert(rest =~= s@.subrange(start as int, s@.len() as int));
        if start < s@.len() {
            assert(rest[0] == s@[start as int]);
        }
    }
    chars_to_text(&chars, start, chars.len())
}

/// The upper case form of a character.
pub uninterp spec fn uppercased(c: char) -> Seq<char>;

/// The upper case form of a character, by `char::to_uppercase`: it depends on the character alone,
/// and for an ASCII character it is the one character of ASCII upper case.
#[verifier::external_body]
fn char_uppercase(c: char) -> (r: String)
    ensures
        r@ == uppercased(c),
        (c as u32) < 128 ==> r@ == seq![upper(c)],
{
    c.to_uppercase().collect::<String>()
}

/// The lower case form of a text.
pub uninterp spec fn lower_form(s: Seq<char>) -> Seq<char>;

/// The lower case form of a text, by `str::to_lowercase`: it depends on the text alone, and for an
/// ASCII text it has the same characters in ASCII lower case.
#[verifier::external_body]
fn text_lowercase(s: &str) -> (r: String)
    ensures
        r@ == lower_form(s@),
        (forall|i: int| 0 <= i < s@.len() ==> (#[trigger] s@[i] as u32) < 128) ==> r@ == lowercased(s@),
{
    s.to_lowercase()
}

/// A text with its first character in upper case.
pub open spec fn capitalized(s: Seq<char>) -> Seq<char> {
    if s.len() == 0 {
        s
    } else {
        uppercased(s[0]) + s.skip(1)
    }
}

/// A text with a given upper case form in place of its first character.
pub fn with_first(s: &str, first: &str) -> (r: String)
    requires
        s@.len() > 0,
    ensures
        r@ == first@ + s@.skip(1),
{
    let chars = to_chars(s);
    let mut out = owned(first);
    proof {
        assert(s@.skip(1) =~= s@.subrange(1, s@.len() as int));
    }
    out.push_str(chars_to_text(&chars, 1, chars.len()).as_str());
    out
}

/// A text with its first character in upper case.
pub fn capitalize(s: &str) -> (r: String)
    ensures
        r@ == capitalized(s@),
        s@.len() > 0 && (s@[0] as u32) < 128 ==> r@ == seq![upper(s@[0])] + s@.skip(1),
{
    let chars = to_chars(s);
    if chars.len() == 0 {
        return owned(s);
    }
    with_first(s, char_uppercase(chars[0]).as_str())
}

/// Texts one after the other, with a separator between them.
pub open spec fn join(parts: Seq<Seq<char>>, sep: Seq<char>) -> Seq<char>
    decreases parts.len(),
{
    if parts.len() == 0 {
        Seq::empty()
    } else if parts.len() == 1 {
        parts[0]
    } else {
        join(parts.drop_last(), sep) + sep + parts.last()
    }
}

/// Texts one after the other, with a separator between them.
pub fn join_texts(parts: &Vec<String>, sep: &str) -> (r: String)
    ensures
        r@ == join(textmap::views(parts@), sep@),
{
    let mut out = String::new();
    let ghost all = textmap::views(parts@);
    for i in 0..parts.len()
        invariant
            all == textmap::views(parts@),
            out@ == join(all.take(i as int), sep@),
    {
        proof {
            assert(all.take(i + 1).drop_last() =~= all.take(i as int));
            assert(all.take(i + 1).last() == parts@[i as int]@);
        }
        if i == 0 {
            out = parts[i].clone();
        } else {
            out.push_str(sep);
            out.push_str(parts[i].as_str());
        }
    }
    assert(all.take(parts@.len() as int) =~= all);
    out
}

// ---------------------------------------------------------------------------------------------
// Numbers as text
// ---------------------------------------------------------------------------------------------
/// The digit character of a number below ten.
pub open spec fn digit_char(d: int) -> char {
    ((48 + d) as u32) as char
}

/// The decimal digits of a natural number, without leading zeros.
pub open spec fn nat_text(n: nat) -> Seq<char>
    decreases n,
{
    if n < 10 {
        seq![digit_char(n as int)]
    } else {
        nat_text(n / 10).push(digit_char((n % 10) as int))
    }
}

/// The decimal text of an integer.
pub open spec fn int_text(n: int) -> Seq<char> {
    if n < 0 {
        seq!['-'] + nat_text((-n) as nat)
    } else {
        nat_text(n as nat)
    }
}

/// Different numbers have different decimal texts.
pub proof fn nat_text_differs(m: nat, n: nat)
    requires
        nat_text(m) == nat_text(n),
    ensures
        m == n,
    decreases m,
{
    nat_text_some(m);
    nat_text_some(n);
    assert(nat_text(m).last() == digit_char(m as int % 10));
    assert(nat_text(n).last() == digit_char(n as int % 10));
    if m < 10 {
        if n >= 10 {
            nat_text_some(n / 10);
            assert(nat_text(n).len() > 1);
        }
    } else if n < 10 {
        nat_text_some(m / 10);
        assert(nat_text(m).len() > 1);
    } else {
        assert(nat_text(m).drop_last() =~= nat_text(m / 10));
        assert(nat_text(n).drop_last() =~= nat_text(n / 10));
        nat_text_differs(m / 10, n / 10);
    }
}

proof fn nat_text_some(n: nat)
    ensures
        nat_text(n).len() > 0,
    decreases n,
{
    if n >= 10 {
        nat_text_some(n / 10);
    }
}

/// The decimal text of a natural number.
pub fn natural_to_text(n: u64) -> (r: String)
    ensures
        r@ == nat_text(n as nat),
    decreases n,
{
    let d: u8 = 48 + (n % 10) as u8;
    let mut out = if n < 10 {
        String::new()
    } else {
        natural_to_text(n / 10)
    };
    out.push(d as char);
    assert(n < 10 ==> out@ =~= seq![digit_char(n as int)]);
    out
}

/// The decimal text of an integer.
pub fn integer_to_text(n: i64) -> (r: String)
    ensures
        r@ == int_text(n as int),
{
    if n < 0 {
        let magnitude: u64 = if n == i64::MIN {
            0x8000_0000_0000_0000u64
        } else {
            (-n) as u64
        };
        let mut out = String::new();
        out.push('-');
        out.push_str(natural_to_text(magnitude).as_str());
        assert(out@ =~= seq!['-'] + nat_text((-(n as int)) as nat));
        out
    } else {
        natural_to_text(n as u64)
    }
}

// ---------------------------------------------------------------------------------------------
// File names
// ---------------------------------------------------------------------------------------------
/// The name of the file of a theme, given the lower case form of its name with underscores.
pub open spec fn save_file_name(theme_name: Seq<char>, lower: Seq<char>) -> Seq<char> {
    (if trim(theme_name).len() == 0 {
        "untitled"@
    } else {
        lower
    }) + ".json"@
}

/// The name of the file of a theme, given the lower case form of its name with underscores.
pub fn save_file_name_from(theme_name: &str, lower: &str) -> (r: String)
    ensures
        r@ == save_file_name(theme_name@, lower@),
{
    if trimmed(theme_name).as_str().is_empty() {
        joined("untitled", ".json")
    } else {
        joined(lower, ".json")
    }
}

/// The file name that a theme is first offered under.
pub fn default_save_file_name(theme_name: &str) -> (r: String)
    ensures
        r@ == save_file_name(theme_name@, lower_form(replace_char(theme_name@, ' ', '_'))),
        (forall|i: int| 0 <= i < theme_name@.len() ==> (#[trigger] theme_name@[i] as u32) < 128) ==> r@ == save_file_name(
            theme_name@,
            lowercased(replace_char(theme_name@, ' ', '_')),
        ),
{
    let plain = replaced_char(theme_name, ' ', '_');
    let lower = text_lowercase(plain.as_str());
    save_file_name_from(theme_name, lower.as_str())
}

// ---------------------------------------------------------------------------------------------
// Laws
// ---------------------------------------------------------------------------------------------
/// Whether every character of a text is white space.
pub open spec fn all_white(s: Seq<char>) -> bool {
    forall|i: int| 0 <= i < s.len() ==> is_white(#[trigger] s[i])
}

proof fn lemma_leading_white(s: Seq<char>) -> (n: int)
    ensures
        0 <= n <= s.len(),
        trim_start(s) == s.skip(n),
        all_white(s.take(n)),
        trim_start(s).len() > 0 ==> !is_white(trim_start(s)[0]),
    decreases s.len(),
{
    if s.len() > 0 && is_white(s[0]) {
        let m = lemma_leading_white(s.drop_first());
        assert(s.drop_first().skip(m) =~= s.skip(m + 1));
        assert forall|i: int| 0 <= i < m + 1 implies is_white(#[trigger] s.take(m + 1)[i]) by {
            if i > 0 {
                assert(s.drop_first().take(m)[i - 1] == s[i]);
            }
        }
        m + 1
    } else {
        assert(s.skip(0) =~= s);
        0
    }
}

pub(crate) proof fn lemma_white_behind(s: Seq<char>) -> (n: int)
    ensures
        0 <= n <= s.len(),
        trim_end(s) == s.take(n),
        all_white(s.skip(n)),
        trim_end(s).len() > 0 ==> !is_white(trim_end(s).last()),
    decreases s.len(),
{
    if s.len() > 0 && is_white(s.last()) {
        let m = lemma_white_behind(s.drop_last());
        assert(s.drop_last().take(m) =~= s.take(m));
        assert forall|i: int| 0 <= i < s.skip(m).len() implies is_white(#[trigger] s.skip(m)[i]) by {
            if m + i < s.len() - 1 {
                assert(s.drop_last().skip(m)[i] == s[m + i]);
            }
        }
        m
    } else {
        assert(s.take(s.len() as int) =~= s);
        s.len() as int
    }
}

/// A trimmed text is the text between two runs of white space, and neither begins nor ends with white
/// space.
pub proof fn trimmed_is_between_white(s: Seq<char>)
    ensures
        exists|a: Seq<char>, b: Seq<char>|
            #![trigger all_white(a), all_white(b)]
            all_white(a) && all_white(b) && s == a + trim(s) + b,
        trim(s).len() > 0 ==> !is_white(trim(s)[0]) && !is_white(trim(s).last()),
{
    let n = lemma_leading_white(s);
    let rest = trim_start(s);
    let m = lemma_white_behind(rest);
    let a = s.take(n);
    let b = rest.skip(m);
    assert(s =~= a + trim(s) + b);
    assert(all_white(a) && all_white(b));
    if trim(s).len() > 0 {
        assert(trim(s)[0] == rest[0]);
    }
}

/// A text that neither begins nor ends with white space is trimmed already, and white space around it
/// is taken away.
pub proof fn white_around_is_trimmed(a: Seq<char>, s: Seq<char>, b: Seq<char>)
    requires
        all_white(a),
        all_white(b),
        s.len() > 0,
        !is_white(s[0]),
        !is_white(s.last()),
    ensures
        trim(a + s + b) == s,
    decreases a.len() + b.len(),
{
    let whole = a + s + b;
    if a.len() > 0 {
        assert(is_white(a[0]));
        assert(whole[0] == a[0]);
        assert(whole.drop_first() =~= a.drop_first() + s + b);
        assert forall|i: int| 0 <= i < a.drop_first().len() implies is_white(#[trigger] a.drop_first()[i]) by {
            assert(a.drop_first()[i] == a[i + 1]);
        }
        white_around_is_trimmed(a.drop_first(), s, b);
    } else {
        assert(whole[0] == s[0]);
        assert(whole =~= s + b);
        lemma_trailing_white(s, b);
    }
}

proof fn lemma_trailing_white(s: Seq<char>, b: Seq<char>)
    requires
        all_white(b),
        s.len() > 0,
        !is_white(s.last()),
    ensures
        trim_end(s + b) == s,
    decreases b.len(),
{
    if b.len() > 0 {
        assert(is_white(b[b.len() - 1]));
        assert((s + b).drop_last() =~= s + b.drop_last());
        assert forall|i: int| 0 <= i < b.drop_last().len() implies is_white(#[trigger] b.drop_last()[i]) by {
            assert(b.drop_last()[i] == b[i]);
        }
        lemma_trailing_white(s, b.drop_last());
    } else {
        assert(s + b =~= s);
    }
}

/// The parts between the occurrences of a character, joined by it, are the text again, and the
/// character is in none of them.
pub proof fn parts_make_the_text(s: Seq<char>, c: char)
    ensures
        join(split_char(s, c), seq![c]) == s,
        forall|i: int| 0 <= i < split_char(s, c).len() ==> !(#[trigger] split_char(s, c)[i]).contains(c),
    decreases s.len(),
{
    let parts = split_char(s, c);
    if s.len() > 0 {
        parts_make_the_text(s.drop_last(), c);
        split_char_some(s.drop_last(), c);
        let front = split_char(s.drop_last(), c);
        assert(s =~= s.drop_last().push(s.last()));
        if s.last() == c {
            assert(parts.drop_last() =~= front);
            assert(join(parts, seq![c]) =~= s);
        } else {
            assert(parts.drop_last() =~= front.drop_last());
            assert(parts.last() == front.last().push(s.last()));
            if front.len() == 1 {
                assert(join(parts, seq![c]) =~= s);
            } else {
                assert(join(front, seq![c]) == join(front.drop_last(), seq![c]) + seq![c] + front.last());
                assert(join(parts, seq![c]) =~= s);
            }
            assert forall|i: int| 0 <= i < parts.len() implies !(#[trigger] parts[i]).contains(c) by {
                if i == parts.len() - 1 {
                    assert(!front[i].contains(c));
                    if parts[i].contains(c) {
                        let k = choose|k: int| 0 <= k < parts[i].len() && parts[i][k] == c;
                        assert(k < front[i].len());
                        assert(front[i][k] == c);
                    }
                } else {
                    assert(parts[i] == front[i]);
                }
            }
        }
    }
}

/// The value of a digit.
pub open spec fn digit_value(c: char) -> int {
    c as int - '0' as int
}

/// The number that decimal digits write.
pub open spec fn decimal_value(s: Seq<char>) -> int
    decreases s.len(),
{
    if s.len() == 0 {
        0
    } else {
        10 * decimal_value(s.drop_last()) + digit_value(s.last())
    }
}

/// The text of a number writes the number, in digits alone, and with no leading zero but for zero.
pub proof fn number_is_written(n: nat)
    ensures
        decimal_value(nat_text(n)) == n,
        nat_text(n).len() > 0,
        forall|i: int| 0 <= i < nat_text(n).len() ==> is_digit(#[trigger] nat_text(n)[i]),
        n > 0 ==> nat_text(n)[0] != '0',
    decreases n,
{
    reveal_with_fuel(decimal_value, 2);
    let s = nat_text(n);
    if n < 10 {
        assert(s.drop_last() =~= Seq::<char>::empty());
        assert(s.last() == digit_char(n as int));
    } else {
        number_is_written(n / 10);
        let front = nat_text(n / 10);
        assert(s.drop_last() =~= front);
        assert(s.last() == digit_char((n % 10) as int));
        assert(s[0] == front[0]);
        assert forall|i: int| 0 <= i < s.len() implies is_digit(#[trigger] s[i]) by {
            if i < front.len() {
                assert(s[i] == front[i]);
            }
        }
    }
}

/// Whether a word stands in a text between white space and what follows it.
pub open spec fn first_stands(s: Seq<char>, a: Seq<char>, w: Seq<char>, b: Seq<char>) -> bool {
    all_white(a) && s == a + (w + b) && (b.len() > 0 ==> is_white(b[0]))
}

/// The first word of a text stands behind nothing but white space, has none in it, and ends at white
/// space or with the text.
pub proof fn first_word_is_first(s: Seq<char>)
    ensures
        first_word(s) is Some ==> exists|a: Seq<char>, b: Seq<char>| #[trigger]
            first_stands(s, a, first_word(s)->Some_0, b),
        first_word(s) is None ==> all_white(s),
        first_word(s) matches Some(w) ==> w.len() > 0 && forall|i: int|
            0 <= i < w.len() ==> !is_white(#[trigger] w[i]),
{
    let n = lemma_leading_white(s);
    let rest = trim_start(s);
    let a = s.take(n);
    if rest.len() == 0 {
        assert(a =~= s);
    } else {
        let m = lemma_word_end(rest);
        let w = until_white(rest);
        let b = rest.skip(m);
        assert(w + b =~= rest);
        assert(s =~= a + (w + b));
        assert(w[0] == rest[0]);
        if b.len() > 0 {
            assert(b[0] == rest[m]);
        }
        assert(first_stands(s, a, first_word(s)->Some_0, b));
    }
}

pub(crate) proof fn lemma_word_end(s: Seq<char>) -> (n: int)
    ensures
        0 <= n <= s.len(),
        until_white(s) == s.take(n),
        n < s.len() ==> is_white(s[n]),
        forall|i: int| 0 <= i < n ==> !is_white(#[trigger] s[i]),
        s.len() > 0 && !is_white(s[0]) ==> n > 0,
    decreases s.len(),
{
    if s.len() == 0 || is_white(s[0]) {
        assert(s.take(0) =~= Seq::<char>::empty());
        0
    } else {
        let m = lemma_word_end(s.drop_first());
        assert(seq![s[0]] + s.drop_first().take(m) =~= s.take(m + 1));
        assert forall|i: int| 0 <= i < m + 1 implies !is_white(#[trigger] s[i]) by {
            if i > 0 {
                assert(s.drop_first()[i - 1] == s[i]);
            }
        }
        if m + 1 < s.len() {
            assert(s.drop_first()[m] == s[m + 1]);
        }
        m + 1
    }
}

} // verus!
