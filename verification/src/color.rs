//! RGBA colors and their hexadecimal texts.

use vstd::prelude::*;
use crate::text::{self, to_chars, trimmed};
use crate::textmap::Duplicate;

verus! {

/// Simple RGBA color
#[derive(Clone, Copy, Debug, Default, PartialEq, Eq, Structural)]
pub struct Color {
    pub r: u8,
    pub g: u8,
    pub b: u8,
    pub a: u8,
}

impl View for Color {
    type V = Color;

    open spec fn view(&self) -> Color {
        *self
    }
}

impl Duplicate for Color {
    fn duplicate(&self) -> (r: Self) {
        *self
    }
}

/// The opaque color of three channels.
pub open spec fn opaque(r: u8, g: u8, b: u8) -> Color {
    Color { r, g, b, a: 255 }
}

/// The value of a hexadecimal digit.
pub open spec fn hex_value(c: char) -> Option<int> {
    if '0' <= c <= '9' {
        Some(c as int - '0' as int)
    } else if 'a' <= c <= 'f' {
        Some(c as int - 'a' as int + 10)
    } else if 'A' <= c <= 'F' {
        Some(c as int - 'A' as int + 10)
    } else {
        None
    }
}

/// The byte that two characters write in base sixteen: two digits, or a plus sign and one digit.
pub open spec fn hex_byte(hi: char, lo: char) -> Option<int> {
    match hex_value(lo) {
        None => None,
        Some(l) => match hex_value(hi) {
            Some(h) => Some(16 * h + l),
            None => if hi == '+' {
                Some(l)
            } else {
                None
            },
        },
    }
}

/// The text without the `#` signs it begins with.
pub open spec fn without_hash(s: Seq<char>) -> Seq<char>
    decreases s.len(),
{
    if s.len() > 0 && s[0] == '#' {
        without_hash(s.drop_first())
    } else {
        s
    }
}

/// The opaque color that the first six characters write.
pub open spec fn rgb_digits(s: Seq<char>) -> Option<Color> {
    match (hex_byte(s[0], s[1]), hex_byte(s[2], s[3]), hex_byte(s[4], s[5])) {
        (Some(r), Some(g), Some(b)) => Some(opaque(r as u8, g as u8, b as u8)),
        _ => None,
    }
}

/// The color that the first eight characters write.
pub open spec fn rgba_digits(s: Seq<char>) -> Option<Color> {
    match (rgb_digits(s), hex_byte(s[6], s[7])) {
        (Some(c), Some(a)) => Some(Color { r: c.r, g: c.g, b: c.b, a: a as u8 }),
        _ => None,
    }
}

/// What a strict hexadecimal text such as `#FF6B00` or `#FF6B00FF` stands for.
pub open spec fn color_of_hex(s: Seq<char>) -> Option<Color> {
    let digits = without_hash(s);
    if digits.len() == 6 {
        rgb_digits(digits)
    } else if digits.len() == 8 {
        rgba_digits(digits)
    } else {
        None
    }
}

/// Every character twice.
pub open spec fn doubled(s: Seq<char>) -> Seq<char> {
    Seq::new(2 * s.len(), |i: int| s[i / 2])
}

/// What a hexadecimal text stands for that may carry white space around it, a three digit
/// shorthand, or more than eight digits, of which the first six count.
pub open spec fn color_of_loose_hex(s: Seq<char>) -> Option<Color> {
    let trimmed = without_hash(text::trim(s));
    let digits = if trimmed.len() == 3 {
        doubled(trimmed)
    } else {
        trimmed
    };
    if digits.len() == 8 && rgba_digits(digits) is Some {
        rgba_digits(digits)
    } else if digits.len() >= 6 {
        rgb_digits(digits)
    } else {
        None
    }
}

/// What a hexadecimal text stands for that may carry white space around it: three digits, six or
/// eight.
pub open spec fn color_of_short_or_full_hex(s: Seq<char>) -> Option<Color> {
    let digits = without_hash(text::trim(s));
    if digits.len() == 3 {
        rgb_digits(doubled(digits))
    } else if digits.len() == 6 {
        rgb_digits(digits)
    } else if digits.len() == 8 {
        rgba_digits(digits)
    } else {
        None
    }
}

/// The lower case hexadecimal digit of a number below sixteen.
pub open spec fn hex_digit(n: int) -> char {
    if n < 10 {
        ((48 + n) as u32) as char
    } else {
        ((87 + n) as u32) as char
    }
}

/// The two lower case hexadecimal digits of a byte.
pub open spec fn hex_pair(n: u8) -> Seq<char> {
    seq![hex_digit(n as int / 16), hex_digit(n as int % 16)]
}

/// The lower case hexadecimal text of a color: six digits, and two more where it is not opaque.
pub open spec fn hex_of(c: Color) -> Seq<char> {
    let rgb = hex_pair(c.r) + hex_pair(c.g) + hex_pair(c.b);
    if c.a == 255 {
        rgb
    } else {
        rgb + hex_pair(c.a)
    }
}

/// The hexadecimal text of a color with `#` before it.
pub open spec fn hash_hex_of(c: Color) -> Seq<char> {
    seq!['#'] + hex_of(c)
}

/// A channel moved towards full by a percentage.
pub open spec fn lightened(channel: u8, percent: u8) -> int {
    (100 * channel + (255 - channel) * percent) / 100
}

/// A channel moved towards zero by a percentage.
pub open spec fn darkened(channel: u8, percent: u8) -> int {
    (channel * (100 - percent)) / 100
}

/// The color lightened by a percentage.
pub open spec fn lighter(c: Color, percent: u8) -> Color {
    Color {
        r: lightened(c.r, percent) as u8,
        g: lightened(c.g, percent) as u8,
        b: lightened(c.b, percent) as u8,
        a: c.a,
    }
}

/// The color darkened by a percentage.
pub open spec fn darker(c: Color, percent: u8) -> Color {
    Color {
        r: darkened(c.r, percent) as u8,
        g: darkened(c.g, percent) as u8,
        b: darkened(c.b, percent) as u8,
        a: c.a,
    }
}

/// The color with an opacity in percent.
pub open spec fn faded(c: Color, percent: u8) -> Color {
    Color { r: c.r, g: c.g, b: c.b, a: ((255 * percent) / 100) as u8 }
}

fn digit_value(c: char) -> (r: Option<u8>)
    ensures
        match r {
            Some(v) => hex_value(c) == Some(v as int) && v < 16,
            None => hex_value(c) is None,
        },
{
    if '0' <= c && c <= '9' {
        Some(c as u8 - 48)
    } else if 'a' <= c && c <= 'f' {
        Some(c as u8 - 87)
    } else if 'A' <= c && c <= 'F' {
        Some(c as u8 - 55)
    } else {
        None
    }
}

fn byte_value(hi: char, lo: char) -> (r: Option<u8>)
    ensures
        match r {
            Some(v) => hex_byte(hi, lo) == Some(v as int),
            None => hex_byte(hi, lo) is None,
        },
{
    match digit_value(lo) {
        None => None,
        Some(l) => match digit_value(hi) {
            Some(h) => Some(16 * h + l),
            None => if hi == '+' {
                Some(l)
            } else {
                None
            },
        },
    }
}

fn drop_hash(chars: &Vec<char>) -> (r: Vec<char>)
    ensures
        r@ == without_hash(chars@),
{
    let mut start: usize = 0;
    assert(chars@.skip(0) =~= chars@);
    while start < chars.len() && chars[start] == '#'
        invariant
            start <= chars@.len(),
            without_hash(chars@) == without_hash(chars@.skip(start as int)),
        decreases chars@.len() - start,
    {
        proof {
            assert(chars@.skip(start as int).drop_first() =~= chars@.skip(start + 1));
        }
        start = start + 1;
    }
    let mut out: Vec<char> = Vec::new();
    for i in start..chars.len()
        invariant
            start <= i,
            out@ == chars@.subrange(start as int, i as int),
    {
        out.push(chars[i]);
        assert(chars@.subrange(start as int, i + 1) =~= chars@.subrange(start as int, i as int).push(
            chars@[i as int],
        ));
    }
    assert(chars@.subrange(start as int, chars@.len() as int) =~= chars@.skip(start as int));
    out
}

fn parse_rgb(chars: &Vec<char>) -> (r: Option<Color>)
    requires
        chars@.len() >= 6,
    ensures
        r == rgb_digits(chars@),
{
    match (
        byte_value(chars[0], chars[1]),
        byte_value(chars[2], chars[3]),
        byte_value(chars[4], chars[5]),
    ) {
        (Some(r), Some(g), Some(b)) => Some(Color { r, g, b, a: 255 }),
        _ => None,
    }
}

fn parse_rgba(chars: &Vec<char>) -> (r: Option<Color>)
    requires
        chars@.len() >= 8,
    ensures
        r == rgba_digits(chars@),
{
    match (parse_rgb(chars), byte_value(chars[6], chars[7])) {
        (Some(c), Some(a)) => Some(Color { r: c.r, g: c.g, b: c.b, a }),
        _ => None,
    }
}

/// What a loosely written hexadecimal text stands for.
pub fn parse_loose_hex(hex: &str) -> (r: Option<Color>)
    ensures
        r == color_of_loose_hex(hex@),
{
    let trimmed = trimmed(hex);
    let chars = drop_hash(&to_chars(trimmed.as_str()));
    let digits = if chars.len() == 3 {
        let twice = vec![chars[0], chars[0], chars[1], chars[1], chars[2], chars[2]];
        assert(twice@ =~= doubled(chars@));
        twice
    } else {
        chars
    };
    if digits.len() == 8 {
        let c = parse_rgba(&digits);
        if c.is_some() {
            return c;
        }
    }
    if digits.len() >= 6 {
        parse_rgb(&digits)
    } else {
        None
    }
}

fn push_pair(out: &mut String, n: u8)
    ensures
        final(out)@ == old(out)@ + hex_pair(n),
{
    let hi: u8 = n / 16;
    let lo: u8 = n % 16;
    out.push(if hi < 10 { (48 + hi) as char } else { (87 + hi) as char });
    out.push(if lo < 10 { (48 + lo) as char } else { (87 + lo) as char });
    assert(out@ =~= old(out)@ + hex_pair(n));
}

/// Format a color as a lowercase hex string (no `#` prefix).
pub fn format_hex_color(color: Color) -> (r: String)
    ensures
        r@ == hex_of(color),
{
    let mut out = String::new();
    push_pair(&mut out, color.r);
    push_pair(&mut out, color.g);
    push_pair(&mut out, color.b);
    assert(out@ =~= hex_pair(color.r) + hex_pair(color.g) + hex_pair(color.b));
    if color.a != 255 {
        push_pair(&mut out, color.a);
    }
    out
}

/// The lower case hexadecimal text of a color, with `#` before it.
pub fn color_hex(color: Color) -> (r: String)
    ensures
        r@ == hash_hex_of(color),
{
    let mut out = String::new();
    out.push('#');
    out.push_str(format_hex_color(color).as_str());
    assert(out@ =~= hash_hex_of(color));
    out
}

/// The editor's "missing color", shown where a text stands for no color.
pub open spec fn missing_color() -> Color {
    opaque(26, 154, 154)
}

/// What a hexadecimal text of three, six or eight digits stands for; the missing color for any other
/// text.
pub open spec fn color_or_missing(s: Seq<char>) -> Color {
    match color_of_short_or_full_hex(s) {
        Some(c) => c,
        None => missing_color(),
    }
}

/// Parse a hex color string (with or without `#`). Accepts 3-character shorthand and full
/// 6/8-character forms. On failure returns the editor's "missing color" `#1a9a9a` so that something
/// visibly wrong is shown.
pub fn parse_hex_color(hex: &str) -> (r: Color)
    ensures
        r == color_or_missing(hex@),
{
    let trimmed = trimmed(hex);
    let chars = drop_hash(&to_chars(trimmed.as_str()));
    let found = if chars.len() == 3 {
        let twice = vec![chars[0], chars[0], chars[1], chars[1], chars[2], chars[2]];
        assert(twice@ =~= doubled(chars@));
        parse_rgb(&twice)
    } else if chars.len() == 6 {
        parse_rgb(&chars)
    } else if chars.len() == 8 {
        parse_rgba(&chars)
    } else {
        None
    };
    match found {
        Some(c) => c,
        None => Color::rgb(26, 154, 154),
    }
}

/// Channel-wise color equality.
pub fn check_color_equal(value: Color, default: Color) -> (r: bool)
    ensures
        r == (value == default),
{
    value.r == default.r && value.g == default.g && value.b == default.b && value.a == default.a
}

impl Color {
    /// An opaque color.
    pub fn rgb(r: u8, g: u8, b: u8) -> (c: Self)
        ensures
            c == opaque(r, g, b),
    {
        Color { r, g, b, a: 255 }
    }

    /// A color by its four channels.
    pub fn rgba(r: u8, g: u8, b: u8, a: u8) -> (c: Self)
        ensures
            c == (Color { r, g, b, a }),
    {
        Color { r, g, b, a }
    }

    /// Parse a hex color string like "#FF6B00" or "#FF6B00FF"
    pub fn from_hex(hex: &str) -> (r: Option<Self>)
        ensures
            r == color_of_hex(hex@),
    {
        let digits = drop_hash(&to_chars(hex));
        if digits.len() == 6 {
            parse_rgb(&digits)
        } else if digits.len() == 8 {
            parse_rgba(&digits)
        } else {
            None
        }
    }

    /// Lighten the color by a whole percentage.
    pub fn lighten_percent(&self, percent: u8) -> (c: Self)
        requires
            percent <= 100,
        ensures
            c == lighter(*self, percent),
    {
        Color {
            r: lighten_channel(self.r, percent),
            g: lighten_channel(self.g, percent),
            b: lighten_channel(self.b, percent),
            a: self.a,
        }
    }

    /// Darken the color by a whole percentage of at most twenty. (Above that, single precision
    /// arithmetic can land one step beside the whole number formula.)
    pub fn darken_percent(&self, percent: u8) -> (c: Self)
        requires
            percent <= 20,
        ensures
            c == darker(*self, percent),
    {
        Color {
            r: darken_channel(self.r, percent),
            g: darken_channel(self.g, percent),
            b: darken_channel(self.b, percent),
            a: self.a,
        }
    }

    /// Set the alpha channel to a whole percentage.
    pub fn with_alpha_percent(&self, percent: u8) -> (c: Self)
        requires
            percent <= 100,
        ensures
            c == faded(*self, percent),
    {
        Color { r: self.r, g: self.g, b: self.b, a: ((255 * percent as u32) / 100) as u8 }
    }
}

fn lighten_channel(channel: u8, percent: u8) -> (r: u8)
    requires
        percent <= 100,
    ensures
        r == lightened(channel, percent),
{
    proof {
        assert(0 <= (255 - channel) * percent <= (255 - channel) * 100) by (nonlinear_arith)
            requires
                0 <= percent <= 100,
                0 <= channel <= 255,
        ;
    }
    let total: u32 = 100 * channel as u32 + (255 - channel as u32) * percent as u32;
    (total / 100) as u8
}

fn darken_channel(channel: u8, percent: u8) -> (r: u8)
    requires
        percent <= 100,
    ensures
        r == darkened(channel, percent),
{
    proof {
        assert(0 <= channel * (100 - percent) <= channel * 100) by (nonlinear_arith)
            requires
                0 <= percent <= 100,
                0 <= channel <= 255,
        ;
    }
    let total: u32 = channel as u32 * (100 - percent as u32);
    (total / 100) as u8
}

proof fn lemma_digit(n: int)
    requires
        0 <= n < 16,
    ensures
        hex_value(hex_digit(n)) == Some(n),
        hex_digit(n) != '#',
        '!' <= hex_digit(n) <= '~',
{
}

proof fn lemma_pair(n: u8)
    ensures
        hex_byte(hex_pair(n)[0], hex_pair(n)[1]) == Some(n as int),
{
    lemma_digit(n as int / 16);
    lemma_digit(n as int % 16);
}

proof fn lemma_hex_digits(c: Color)
    ensures
        hex_of(c).len() == (if c.a == 255 { 6int } else { 8int }),
        rgb_digits(hex_of(c)) == Some(opaque(c.r, c.g, c.b)),
        c.a != 255 ==> rgba_digits(hex_of(c)) == Some(c),
        hex_of(c)[0] != '#',
{
    lemma_pair(c.r);
    lemma_pair(c.g);
    lemma_pair(c.b);
    lemma_pair(c.a);
    lemma_digit(c.r as int / 16);
    let s = hex_of(c);
    assert(s[0] == hex_pair(c.r)[0] && s[1] == hex_pair(c.r)[1]);
    assert(s[2] == hex_pair(c.g)[0] && s[3] == hex_pair(c.g)[1]);
    assert(s[4] == hex_pair(c.b)[0] && s[5] == hex_pair(c.b)[1]);
    if c.a != 255 {
        assert(s[6] == hex_pair(c.a)[0] && s[7] == hex_pair(c.a)[1]);
    }
}

/// A formatted color reads back as itself, with and without the `#`.
pub proof fn hex_round_trip(c: Color)
    ensures
        color_of_hex(hex_of(c)) == Some(c),
        color_of_hex(hash_hex_of(c)) == Some(c),
{
    lemma_hex_digits(c);
    let s = hex_of(c);
    assert(without_hash(s) == s);
    assert(hash_hex_of(c).drop_first() =~= s);
    assert(without_hash(hash_hex_of(c)) == s);
}

proof fn lemma_trim_tight(s: Seq<char>)
    requires
        s.len() > 0,
        !text::is_white(s[0]),
        !text::is_white(s.last()),
    ensures
        text::trim(s) == s,
{
}

/// What is written of a color, with or without the `#`, is read as that color by the forgiving
/// reader too.
pub proof fn loose_hex_round_trip(c: Color)
    ensures
        color_of_loose_hex(hex_of(c)) == Some(c),
        color_of_loose_hex(hash_hex_of(c)) == Some(c),
        color_or_missing(hash_hex_of(c)) == c,
{
    lemma_hex_digits(c);
    let s = hex_of(c);
    lemma_digit(c.r as int / 16);
    lemma_digit(c.b as int % 16);
    lemma_digit(c.a as int % 16);
    assert(s.last() == (if c.a == 255 { hex_pair(c.b)[1] } else { hex_pair(c.a)[1] }));
    lemma_trim_tight(s);
    assert(hash_hex_of(c).last() == s.last());
    lemma_trim_tight(hash_hex_of(c));
    assert(without_hash(s) == s);
    assert(hash_hex_of(c).drop_first() =~= s);
    assert(without_hash(hash_hex_of(c)) == s);
}

/// A text of any other number of digits than three, six or eight is read as the missing color.
pub proof fn other_lengths_are_missing(s: Seq<char>)
    requires
        ({
            let n = without_hash(text::trim(s)).len();
            n != 3 && n != 6 && n != 8
        }),
    ensures
        color_or_missing(s) == missing_color(),
{
}

/// Lightening leaves no channel darker and darkening none lighter; neither touches the opacity, nothing
/// changes by nothing, and all the way they lead to white and to black.
pub proof fn shades_move_channels(c: Color, percent: u8)
    requires
        percent <= 100,
    ensures
        lighter(c, percent).r >= c.r && lighter(c, percent).g >= c.g && lighter(c, percent).b >= c.b,
        darker(c, percent).r <= c.r && darker(c, percent).g <= c.g && darker(c, percent).b <= c.b,
        lighter(c, percent).a == c.a,
        darker(c, percent).a == c.a,
        lighter(c, 0) == c,
        darker(c, 0) == c,
        lighter(c, 100) == (Color { r: 255, g: 255, b: 255, a: c.a }),
        darker(c, 100) == (Color { r: 0, g: 0, b: 0, a: c.a }),
{
    lemma_shade(c.r, percent);
    lemma_shade(c.g, percent);
    lemma_shade(c.b, percent);
}

proof fn lemma_shade(channel: u8, percent: u8)
    requires
        percent <= 100,
    ensures
        channel <= lightened(channel, percent) <= 255,
        0 <= darkened(channel, percent) <= channel,
        lightened(channel, 0) == channel,
        darkened(channel, 0) == channel,
        lightened(channel, 100) == 255,
        darkened(channel, 100) == 0,
{
    let c = channel as int;
    let p = percent as int;
    assert(0 <= (255 - c) * p <= (255 - c) * 100) by (nonlinear_arith)
        requires
            0 <= c <= 255,
            0 <= p <= 100,
    ;
    assert(0 <= c * (100 - p) <= c * 100) by (nonlinear_arith)
        requires
            0 <= c,
            0 <= p <= 100,
    ;
}

/// A channel is lightened by the given part of its distance to full, and darkened by the given part
/// of its distance to zero, up to a step.
pub proof fn shades_are_in_proportion(c: Color, percent: u8)
    requires
        percent <= 100,
    ensures
        0 <= (255 - c.r) * percent - 100 * (lighter(c, percent).r - c.r) < 100,
        0 <= (255 - c.g) * percent - 100 * (lighter(c, percent).g - c.g) < 100,
        0 <= (255 - c.b) * percent - 100 * (lighter(c, percent).b - c.b) < 100,
        0 <= 100 * (c.r - darker(c, percent).r) - c.r * percent < 100,
        0 <= 100 * (c.g - darker(c, percent).g) - c.g * percent < 100,
        0 <= 100 * (c.b - darker(c, percent).b) - c.b * percent < 100,
{
    lemma_proportion(c.r, percent);
    lemma_proportion(c.g, percent);
    lemma_proportion(c.b, percent);
}

proof fn lemma_proportion(channel: u8, percent: u8)
    requires
        percent <= 100,
    ensures
        channel <= lightened(channel, percent) <= 255,
        0 <= darkened(channel, percent) <= channel,
        0 <= (255 - channel) * percent - 100 * (lightened(channel, percent) - channel) < 100,
        0 <= 100 * (channel - darkened(channel, percent)) - channel * percent < 100,
{
    lemma_shade(channel, percent);
    let c = channel as int;
    let p = percent as int;
    assert(c * (100 - p) == 100 * c - c * p) by (nonlinear_arith);
}

/// Fading leaves the channels as they are and makes the opacity the given part of the full one.
pub proof fn fading_sets_opacity(c: Color, percent: u8)
    requires
        percent <= 100,
    ensures
        faded(c, percent).r == c.r,
        faded(c, percent).g == c.g,
        faded(c, percent).b == c.b,
        0 <= 255 * percent - 100 * faded(c, percent).a < 100,
        faded(c, 100).a == 255,
        faded(c, 0).a == 0,
{
}

} // verus!
