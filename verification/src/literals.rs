//! How values are written as Rust source.

use vstd::arithmetic::{div_mod, power2};
use vstd::prelude::*;
use crate::color::{self, color_hex, Color};
use crate::scalar::Scalar;
use crate::text::{self, integer_to_text, owned, strip_trailing, text_eq};
use crate::textmap::Duplicate;
use crate::value::{self, Value};

verus! {

// ---------------------------------------------------------------------------------------------
// Numbers
// ---------------------------------------------------------------------------------------------
/// A quotient rounded to the nearest whole number; half way between two to the even one.
pub open spec fn rounded(n: int, d: int) -> int {
    let q = n / d;
    let r = n % d;
    if 2 * r > d || (2 * r == d && q % 2 == 1) {
        q + 1
    } else {
        q
    }
}

/// The sign of a number in its text.
pub open spec fn sign_text(s: Scalar) -> Seq<char> {
    if s.negative() {
        "-"@
    } else {
        ""@
    }
}

/// The last four decimal digits of a number.
pub open spec fn four_digits(n: int) -> Seq<char> {
    seq![
        text::digit_char((n / 1000) % 10),
        text::digit_char((n / 100) % 10),
        text::digit_char((n / 10) % 10),
        text::digit_char(n % 10),
    ]
}

/// Digits behind the point: without trailing zeros, but at least one.
pub open spec fn decimals(digits: Seq<char>) -> Seq<char> {
    let short = text::without_trailing(digits, '0');
    if short.len() == 0 {
        "0"@
    } else {
        short
    }
}

/// A float as a Rust literal: a whole number, or what is nearer to one than the machine epsilon, with
/// one decimal, anything else with up to four.
pub open spec fn float_text(s: Scalar) -> Seq<char> {
    if s.nan() {
        "NaN"@
    } else if !s.finite() {
        sign_text(s) + "inf"@
    } else {
        let one = power2::pow2(149) as int;
        let size = s.magnitude();
        if size % one < power2::pow2(126) {
            sign_text(s) + text::nat_text((size / one) as nat) + "."@ + "0"@
        } else {
            let tens = rounded(size * 10000, one);
            sign_text(s) + text::nat_text((tens / 10000) as nat) + "."@ + decimals(four_digits(tens % 10000))
        }
    }
}

fn big_to_text(n: u128) -> (r: String)
    ensures
        r@ == text::nat_text(n as nat),
    decreases n,
{
    let d: u8 = 48 + (n % 10) as u8;
    let mut out = if n < 10 {
        String::new()
    } else {
        big_to_text(n / 10)
    };
    out.push(d as char);
    assert(n < 10 ==> out@ =~= seq![text::digit_char(n as int)]);
    out
}

proof fn lemma_powers()
    ensures
        power2::pow2(24) == 0x100_0000,
        power2::pow2(23) == 0x80_0000,
        power2::pow2(47) == 0x8000_0000_0000,
{
    power2::lemma2_to64();
    power2::lemma2_to64_rest();
}

fn doubled_up(m: u64, times: u32) -> (r: u128)
    requires
        m < 0x100_0000,
        times <= 104,
    ensures
        r == m * power2::pow2(times as nat),
{
    let mut out: u128 = m as u128;
    proof {
        power2::lemma2_to64();
    }
    for i in 0..times
        invariant
            m < 0x100_0000,
            times <= 104,
            out == m * power2::pow2(i as nat),
    {
        proof {
            power2::lemma_pow2_unfold((i + 1) as nat);
            lemma_powers();
            power2::lemma_pow2_adds(24, (i + 1) as nat);
            let p = power2::pow2(i as nat);
            assert(m * p * 2 == m * (2 * p)) by (nonlinear_arith);
            assert(m * (2 * p) <= 0xFF_FFFF * (2 * p)) by (nonlinear_arith)
                requires
                    m <= 0xFF_FFFF,
                    p >= 0,
            ;
            lemma_up_to_128((25 + i) as nat);
        }
        out = out * 2;
    }
    out
}

proof fn lemma_up_to_128(n: nat)
    requires
        n <= 128,
    ensures
        power2::pow2(n) <= 0x1_0000_0000_0000_0000_0000_0000_0000_0000int,
{
    power2::lemma2_to64();
    power2::lemma_pow2_adds(64, 64);
    assert(power2::pow2(64) == 0x1_0000_0000_0000_0000);
    assert(power2::pow2(128) == 0x1_0000_0000_0000_0000_0000_0000_0000_0000int) by {
        assert(0x1_0000_0000_0000_0000int * 0x1_0000_0000_0000_0000int
            == 0x1_0000_0000_0000_0000_0000_0000_0000_0000int) by (nonlinear_arith);
    }
    if n < 128 {
        power2::lemma_pow2_strictly_increases(n, 128);
    }
}

fn power_of_two(k: u32) -> (r: u64)
    requires
        k <= 47,
    ensures
        r == power2::pow2(k as nat),
{
    let mut out: u64 = 1;
    proof {
        power2::lemma2_to64();
    }
    for i in 0..k
        invariant
            k <= 47,
            out == power2::pow2(i as nat),
    {
        proof {
            power2::lemma_pow2_unfold((i + 1) as nat);
            lemma_powers();
            if i + 1 < 47 {
                power2::lemma_pow2_strictly_increases((i + 1) as nat, 47);
            }
        }
        out = out * 2;
    }
    out
}

/// Scaling both parts of a quotient changes neither it nor its rounding.
proof fn lemma_scaled(n: int, d: int, p: int)
    requires
        0 <= n,
        0 < d,
        0 < p,
    ensures
        (n * p) / (d * p) == n / d,
        (n * p) % (d * p) == (n % d) * p,
        rounded(n * p, d * p) == rounded(n, d),
{
    div_mod::lemma_div_multiples_vanish_quotient(p, n, d);
    div_mod::lemma_truncate_middle(n, p, d);
    assert(p * n == n * p && p * d == d * p) by (nonlinear_arith);
    let r = n % d;
    assert(p * r == r * p) by (nonlinear_arith);
    assert(2 * (r * p) > d * p <==> 2 * r > d) by (nonlinear_arith)
        requires
            p > 0,
    ;
    assert(2 * (r * p) == d * p <==> 2 * r == d) by (nonlinear_arith)
        requires
            p > 0,
    ;
}

/// A mantissa in halves and halves of halves: what its number is made of.
proof fn lemma_parts(m: int, e: nat, k: nat)
    requires
        0 <= m,
        e + k == 149,
    ensures
        ({
            let p = power2::pow2(e) as int;
            let d = power2::pow2(k) as int;
            let one = power2::pow2(149) as int;
            &&& (m * p) / one == m / d
            &&& ((m * p) % one < power2::pow2(126) <==> (m % d) * 0x80_0000 < d)
            &&& rounded(m * p * 10000, one) == rounded(m * 10000, d)
        }),
{
    let p = power2::pow2(e) as int;
    let d = power2::pow2(k) as int;
    let one = power2::pow2(149) as int;
    power2::lemma_pow2_pos(e);
    power2::lemma_pow2_pos(k);
    power2::lemma_pow2_adds(k, e);
    power2::lemma_pow2_adds(126, 23);
    lemma_powers();
    assert(one == d * p);
    lemma_scaled(m, d, p);
    let r = m % d;
    let q = power2::pow2(126) as int;
    assert(q * 0x80_0000 == d * p);
    assert(r * p < q <==> r * 0x80_0000 < d) by (nonlinear_arith)
        requires
            q * 0x80_0000 == d * p,
            p > 0,
    ;
    assert(m * p * 10000 == (m * 10000) * p) by (nonlinear_arith);
    lemma_scaled(m * 10000, d, p);
}

fn fixed_text(sign: &str, whole: u128, digits: &str) -> (r: String)
    ensures
        r@ == sign@ + text::nat_text(whole as nat) + "."@ + digits@,
{
    let mut out = owned(sign);
    out.push_str(big_to_text(whole).as_str());
    out.push_str(".");
    out.push_str(digits);
    out
}

fn digit(n: u64) -> (c: char)
    requires
        n < 10,
    ensures
        c == text::digit_char(n as int),
{
    let d: u8 = 48 + n as u8;
    d as char
}

fn short_decimals(n: u64) -> (r: String)
    requires
        n < 10000,
    ensures
        r@ == decimals(four_digits(n as int)),
{
    let mut digits = owned("");
    proof {
        reveal_strlit("");
    }
    digits.push(digit((n / 1000) % 10));
    digits.push(digit((n / 100) % 10));
    digits.push(digit((n / 10) % 10));
    digits.push(digit(n % 10));
    assert(digits@ =~= four_digits(n as int));
    let short = strip_trailing(digits.as_str(), '0');
    if text_eq(short.as_str(), "") {
        owned("0")
    } else {
        assert(short@.len() > 0) by {
            if short@.len() == 0 {
                assert(short@ =~= ""@);
            }
        }
        short
    }
}

/// A float as a Rust literal.
pub fn format_rust_float(value: Scalar) -> (r: String)
    ensures
        r@ == float_text(value),
{
    let exponent: u32 = (value.bits / 0x80_0000) % 256;
    let fraction: u32 = value.bits % 0x80_0000;
    let sign = if value.bits >= 0x8000_0000 {
        "-"
    } else {
        ""
    };
    if exponent == 255 {
        if fraction != 0 {
            return owned("NaN");
        }
        let mut out = owned(sign);
        out.push_str("inf");
        return out;
    }
    let mantissa: u64 = if exponent == 0 {
        fraction as u64
    } else {
        fraction as u64 + 0x80_0000
    };
    let power: u32 = if exponent == 0 {
        0
    } else {
        exponent - 1
    };
    let ghost one = power2::pow2(149) as int;
    let ghost p = power2::pow2(power as nat) as int;
    let ghost size = value.magnitude();
    proof {
        power2::lemma2_to64();
        power2::lemma_pow2_pos(149);
        power2::lemma_pow2_pos(126);
        power2::lemma_pow2_pos(power as nat);
        assert(value.exponent() == exponent && value.fraction() == fraction);
        if exponent == 0 {
            assert(p == 1);
            assert(mantissa * p == mantissa) by (nonlinear_arith)
                requires
                    p == 1,
            ;
        } else {
            assert(mantissa == 0x80_0000 + fraction);
        }
        assert(size == mantissa * p);
    }
    if power >= 149 {
        let whole = doubled_up(mantissa, power - 149);
        proof {
            power2::lemma_pow2_adds((power - 149) as nat, 149);
            let u = power2::pow2((power - 149) as nat) as int;
            assert(mantissa * (u * one) == (mantissa * u) * one) by (nonlinear_arith);
            assert(size == whole * one);
            assert(whole * one == one * whole) by (nonlinear_arith);
            div_mod::lemma_div_multiples_vanish(whole as int, one);
            div_mod::lemma_mod_multiples_basic(whole as int, one);
        }
        return fixed_text(sign, whole, "0");
    }
    let k: u32 = 149 - power;
    if k >= 48 {
        proof {
            lemma_powers();
            assert(mantissa * p < 0x100_0000 * p) by (nonlinear_arith)
                requires
                    mantissa < 0x100_0000,
                    p > 0,
            ;
            power2::lemma_pow2_adds(24, power as nat);
            power2::lemma_pow2_strictly_increases((24 + power) as nat, 126);
            power2::lemma_pow2_strictly_increases(126, 149);
            assert(0 <= size) by (nonlinear_arith)
                requires
                    size == mantissa * p,
                    mantissa >= 0,
                    p > 0,
            ;
            div_mod::lemma_basic_div(size, one);
            div_mod::lemma_small_mod(size as nat, one as nat);
        }
        return fixed_text(sign, 0, "0");
    }
    let d = power_of_two(k);
    proof {
        power2::lemma_pow2_pos(k as nat);
        lemma_parts(mantissa as int, power as nat, k as nat);
        lemma_powers();
        if k < 47 {
            power2::lemma_pow2_strictly_increases(k as nat, 47);
        }
    }
    let rest: u64 = mantissa % d;
    assert(rest <= mantissa) by {
        div_mod::lemma_mod_decreases(mantissa as nat, d as nat);
    }
    if rest * 0x80_0000 < d {
        return fixed_text(sign, (mantissa / d) as u128, "0");
    }
    let n: u64 = mantissa * 10000;
    let q: u64 = n / d;
    let r: u64 = n % d;
    assert(q <= n) by {
        lemma_div_le(n as int, d as int);
    }
    let tens: u64 = if 2 * r > d || (2 * r == d && q % 2 == 1) {
        q + 1
    } else {
        q
    };
    assert(tens == rounded(size * 10000, one));
    fixed_text(sign, (tens / 10000) as u128, short_decimals(tens % 10000).as_str())
}

proof fn lemma_div_le(n: int, d: int)
    requires
        0 <= n,
        0 < d,
    ensures
        n / d <= n,
{
    div_mod::lemma_div_is_ordered_by_denominator(n, 1, d);
}

// ---------------------------------------------------------------------------------------------
// Texts
// ---------------------------------------------------------------------------------------------
/// A character in a quoted text.
pub open spec fn escaped(c: char) -> Seq<char> {
    let n = c as u32;
    if c == '"' {
        seq!['\\', '"']
    } else if c == '\\' {
        seq!['\\', '\\']
    } else if n == 8 {
        seq!['\\', 'b']
    } else if n == 9 {
        seq!['\\', 't']
    } else if n == 10 {
        seq!['\\', 'n']
    } else if n == 12 {
        seq!['\\', 'f']
    } else if n == 13 {
        seq!['\\', 'r']
    } else if n < 32 {
        seq!['\\', 'u', '0', '0'] + color::hex_pair(n as u8)
    } else {
        seq![c]
    }
}

/// Characters in a quoted text.
pub open spec fn all_escaped(s: Seq<char>) -> Seq<char>
    decreases s.len(),
{
    if s.len() == 0 {
        Seq::empty()
    } else {
        all_escaped(s.drop_last()) + escaped(s.last())
    }
}

/// A text in quotes: quotes, backslashes and control characters are escaped.
pub open spec fn quoted(s: Seq<char>) -> Seq<char> {
    seq!['"'] + all_escaped(s) + seq!['"']
}

/// The error of `serde_json`.
#[verifier::external_type_specification]
#[verifier::external_body]
pub struct JsonError(serde_json::Error);

/// Calls `serde_json::to_string` on a text. It puts the text in quotes, escapes quotes, backslashes
/// and control characters, the latter by their short form where they have one and by their four
/// digit code otherwise, and leaves every other character as it is. Writing a text to memory does
/// not fail.
#[verifier::external_body]
fn json_text(value: &str) -> (r: Result<String, serde_json::Error>)
    ensures
        r is Ok,
        r->Ok_0@ == quoted(value@),
{
    serde_json::to_string(value)
}

/// A text as a Rust literal.
pub fn rust_string_literal(value: &str) -> (r: String)
    ensures
        r@ == quoted(value@),
{
    match json_text(value) {
        Ok(s) => s,
        Err(_) => owned("\"\""),
    }
}

// ---------------------------------------------------------------------------------------------
// Values
// ---------------------------------------------------------------------------------------------
/// A value in the source of a theme.
#[derive(Debug, PartialEq)]
pub enum ExportLiteral {
    Color(Color),
    Float(Scalar),
    Int(i32),
    Bool(bool),
    String(String),
    TokenRef(String),
}

impl View for ExportLiteral {
    type V = Value;

    open spec fn view(&self) -> Value {
        match *self {
            ExportLiteral::Color(c) => Value::Color(c),
            ExportLiteral::Float(f) => Value::Float(f),
            ExportLiteral::Int(n) => Value::Int(n),
            ExportLiteral::Bool(b) => Value::Bool(b),
            ExportLiteral::String(s) => Value::Text(s@),
            ExportLiteral::TokenRef(p) => Value::Ref(p@),
        }
    }
}

impl Duplicate for ExportLiteral {
    fn duplicate(&self) -> (r: Self) {
        match self {
            ExportLiteral::Color(c) => ExportLiteral::Color(*c),
            ExportLiteral::Float(f) => ExportLiteral::Float(*f),
            ExportLiteral::Int(n) => ExportLiteral::Int(*n),
            ExportLiteral::Bool(b) => ExportLiteral::Bool(*b),
            ExportLiteral::String(s) => ExportLiteral::String(s.clone()),
            ExportLiteral::TokenRef(p) => ExportLiteral::TokenRef(p.clone()),
        }
    }
}

/// A value in the source of a theme.
pub open spec fn value_source(v: Value) -> Seq<char> {
    match v {
        Value::Color(c) => "color("@ + quoted(color::hash_hex_of(c)) + ")"@,
        Value::Float(f) => float_text(f),
        Value::Int(n) => text::int_text(n as int),
        Value::Bool(b) => if b {
            "true"@
        } else {
            "false"@
        },
        Value::Text(s) => quoted(s),
        Value::Ref(p) => "token_ref("@ + quoted(p) + ")"@,
    }
}

impl ExportLiteral {
    /// The value in the source of a theme.
    pub fn to_macro_expr(&self) -> (r: String)
        ensures
            r@ == value_source(self@),
    {
        match self {
            ExportLiteral::Color(c) => {
                let mut out = owned("color(");
                out.push_str(rust_string_literal(color_hex(*c).as_str()).as_str());
                out.push_str(")");
                out
            },
            ExportLiteral::Float(number) => format_rust_float(*number),
            ExportLiteral::Int(number) => integer_to_text(*number as i64),
            ExportLiteral::Bool(flag) => if *flag {
                owned("true")
            } else {
                owned("false")
            },
            ExportLiteral::String(s) => rust_string_literal(s.as_str()),
            ExportLiteral::TokenRef(path) => {
                let mut out = owned("token_ref(");
                out.push_str(rust_string_literal(path.as_str()).as_str());
                out.push_str(")");
                out
            },
        }
    }

    /// Whether two values are equal; numbers are compared as numbers.
    pub fn same(&self, other: &ExportLiteral) -> (r: bool)
        ensures
            r == value::same_value(self@, other@),
    {
        match (self, other) {
            (ExportLiteral::Color(a), ExportLiteral::Color(b)) => *a == *b,
            (ExportLiteral::Float(a), ExportLiteral::Float(b)) => a.same(b),
            (ExportLiteral::Int(a), ExportLiteral::Int(b)) => *a == *b,
            (ExportLiteral::Bool(a), ExportLiteral::Bool(b)) => *a == *b,
            (ExportLiteral::String(a), ExportLiteral::String(b)) => text_eq(a.as_str(), b.as_str()),
            (ExportLiteral::TokenRef(a), ExportLiteral::TokenRef(b)) => text_eq(a.as_str(), b.as_str()),
            _ => false,
        }
    }
}

// ---------------------------------------------------------------------------------------------
// Laws
// ---------------------------------------------------------------------------------------------
/// A rounded quotient is off by no more than half of the divisor.
pub proof fn rounded_is_within_half(n: int, d: int)
    requires
        d > 0,
    ensures
        -d <= 2 * (rounded(n, d) * d - n) <= d,
{
    let q = n / d;
    let r = n % d;
    assert(n == q * d + r && 0 <= r < d) by (nonlinear_arith)
        requires
            d > 0,
            q == n / d,
            r == n % d,
    ;
    assert((q + 1) * d == q * d + d) by (nonlinear_arith);
}

/// As many zeros as are asked for.
pub open spec fn zeros(n: nat) -> Seq<char> {
    Seq::new(n, |i: int| '0')
}

/// The number of ten thousandths that digits behind a point write.
pub open spec fn ten_thousandths(d: Seq<char>) -> int {
    text::decimal_value(d + zeros((4 - d.len()) as nat))
}

proof fn lemma_stripped(s: Seq<char>)
    ensures
        text::without_trailing(s, '0').len() <= s.len(),
        text::without_trailing(s, '0') + zeros((s.len() - text::without_trailing(s, '0').len()) as nat) == s,
    decreases s.len(),
{
    if s.len() > 0 && s.last() == '0' {
        lemma_stripped(s.drop_last());
        let short = text::without_trailing(s.drop_last(), '0');
        let n = (s.drop_last().len() - short.len()) as nat;
        assert(s =~= s.drop_last().push('0'));
        assert(short + zeros(n + 1) =~= (short + zeros(n)).push('0'));
    } else {
        assert(s + zeros(0) =~= s);
    }
}

proof fn lemma_digit_value(d: int)
    requires
        0 <= d < 10,
    ensures
        text::digit_value(text::digit_char(d)) == d,
{
}

proof fn lemma_places(n: int)
    requires
        0 <= n < 10000,
    ensures
        n == 10 * (n / 10) + n % 10,
        n / 10 == 10 * (n / 100) + (n / 10) % 10,
        n / 100 == 10 * (n / 1000) + (n / 100) % 10,
        n / 1000 == (n / 1000) % 10,
{
}

proof fn lemma_next_digit(s: Seq<char>, d: int)
    requires
        0 <= d < 10,
    ensures
        text::decimal_value(s.push(text::digit_char(d))) == 10 * text::decimal_value(s) + d,
{
    lemma_digit_value(d);
    assert(s.push(text::digit_char(d)).drop_last() =~= s);
}

proof fn lemma_four_digits(n: int)
    requires
        0 <= n < 10000,
    ensures
        text::decimal_value(four_digits(n)) == n,
{
    lemma_places(n);
    let none = Seq::<char>::empty();
    let a = none.push(text::digit_char((n / 1000) % 10));
    let b = a.push(text::digit_char((n / 100) % 10));
    let c = b.push(text::digit_char((n / 10) % 10));
    let d = c.push(text::digit_char(n % 10));
    lemma_next_digit(none, (n / 1000) % 10);
    lemma_next_digit(a, (n / 100) % 10);
    lemma_next_digit(b, (n / 10) % 10);
    lemma_next_digit(c, n % 10);
    assert(four_digits(n) =~= d);
}

proof fn lemma_decimals(n: int)
    requires
        0 <= n < 10000,
    ensures
        1 <= decimals(four_digits(n)).len() <= 4,
        ten_thousandths(decimals(four_digits(n))) == n,
{
    reveal_strlit("0");
    let digits = four_digits(n);
    lemma_four_digits(n);
    lemma_stripped(digits);
    let short = text::without_trailing(digits, '0');
    if short.len() == 0 {
        assert(short + zeros(4) =~= "0"@ + zeros(3));
    }
}

/// A finite number is written as its sign, a whole number, a point and one to four digits, and what is
/// written is within half of a ten thousandth of the number, or within the machine epsilon where that is
/// taken for a whole one.
pub proof fn written_float_is_near(s: Scalar) -> (parts: (nat, Seq<char>))
    requires
        s.finite(),
        s.magnitude() >= 0,
    ensures
        ({
            let (whole, behind) = parts;
            let one = power2::pow2(149) as int;
            let off = (10000 * whole + ten_thousandths(behind)) * one - 10000 * s.magnitude();
            &&& float_text(s) == sign_text(s) + text::nat_text(whole) + "."@ + behind
            &&& 1 <= behind.len() <= 4
            &&& -one <= 2 * off <= one || -10000 * power2::pow2(126) < off <= 0
        }),
{
    let one = power2::pow2(149) as int;
    power2::lemma_pow2_pos(149);
    let size = s.magnitude();
    if size % one < power2::pow2(126) {
        reveal_strlit("0");
        let whole = (size / one) as nat;
        assert(size == (size / one) * one + size % one && size / one >= 0) by (nonlinear_arith)
            requires
                one > 0,
                size >= 0,
        ;
        let digits = four_digits(0);
        lemma_decimals(0);
        lemma_four_digits(0);
        lemma_stripped(digits);
        assert(digits =~= "0"@ + zeros(3));
        assert(ten_thousandths("0"@) == 0);
        assert((10000 * whole + 0) * one == 10000 * ((size / one) * one)) by (nonlinear_arith)
            requires
                whole == size / one,
        ;
        (whole, "0"@)
    } else {
        let tens = rounded(size * 10000, one);
        rounded_is_within_half(size * 10000, one);
        assert(tens >= 0) by {
            assert(size * 10000 / one >= 0) by (nonlinear_arith)
                requires
                    one > 0,
                    size >= 0,
            ;
        }
        lemma_decimals(tens % 10000);
        let whole = (tens / 10000) as nat;
        assert(10000 * whole + tens % 10000 == tens);
        (whole, decimals(four_digits(tens % 10000)))
    }
}

/// A color in the source of a theme is written in digits that stand for it, and a reference by its path.
pub proof fn source_names_color_and_path(c: Color, path: Seq<char>)
    ensures
        exists|s: Seq<char>|
            value_source(Value::Color(c)) == "color("@ + #[trigger] quoted(s) + ")"@ && color::color_of_hex(s) == Some(c),
        value_source(Value::Ref(path)) == "token_ref("@ + quoted(path) + ")"@,
        value_source(Value::Text(path)) == quoted(path),
{
    color::hex_round_trip(c);
    let s = color::hash_hex_of(c);
    assert(value_source(Value::Color(c)) == "color("@ + quoted(s) + ")"@);
}

} // verus!
