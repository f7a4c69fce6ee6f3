//! Single precision numbers as exact decimal texts.

use vstd::arithmetic::{power, power2};
use vstd::prelude::*;
use crate::literals;
use crate::scalar::{parts, Scalar};
use crate::text;

verus! {

/// The exact decimal text of a number. In units of two to the power of minus 149 every number is
/// whole, and such a unit is five to the power of 149 units of ten to the power of minus 149.
pub open spec fn exact_decimal(s: Scalar) -> Seq<char> {
    if s.finite() {
        literals::sign_text(s) + text::nat_text((s.magnitude() * power::pow(5, 149)) as nat) + "e-149"@
    } else {
        "NaN"@
    }
}

/// The number that decimal digits stand for, the last one first.
spec fn digits_value(d: Seq<u8>) -> int
    decreases d.len(),
{
    if d.len() == 0 {
        0
    } else {
        d[0] + 10 * digits_value(d.drop_first())
    }
}

/// Whether these are the digits of a number, without leading zeros.
spec fn are_digits(d: Seq<u8>) -> bool {
    &&& d.len() > 0
    &&& forall|i: int| 0 <= i < d.len() ==> #[trigger] d[i] < 10
    &&& d.len() > 1 ==> d.last() != 0
}

proof fn lemma_ten(n: nat)
    ensures
        power::pow(10, 0) == 1,
        power::pow(10, n + 1) == 10 * power::pow(10, n),
{
    reveal(power::pow);
}

proof fn lemma_value_push(d: Seq<u8>, x: u8)
    ensures
        digits_value(d.push(x)) == digits_value(d) + x * power::pow(10, d.len()),
    decreases d.len(),
{
    lemma_ten(d.len());
    if d.len() == 0 {
        assert(d.push(x).drop_first() =~= Seq::<u8>::empty());
        assert(digits_value(d.push(x).drop_first()) == 0);
        assert(digits_value(d.push(x)) == x);
        assert(x * power::pow(10, 0) == x) by (nonlinear_arith)
            requires
                power::pow(10, 0) == 1,
        ;
    } else {
        let rest = d.drop_first();
        assert(d.push(x).drop_first() =~= rest.push(x));
        lemma_value_push(rest, x);
        lemma_ten(rest.len());
        let p = power::pow(10, rest.len());
        assert(10 * (x * p) == x * (10 * p)) by (nonlinear_arith);
    }
}

proof fn lemma_value_positive(d: Seq<u8>)
    requires
        d.len() > 0,
        d.last() != 0,
    ensures
        digits_value(d) > 0,
    decreases d.len(),
{
    if d.len() > 1 {
        assert(d.drop_first().last() == d.last());
        lemma_value_positive(d.drop_first());
    } else {
        assert(d[0] == d.last());
        assert(digits_value(d.drop_first()) == 0);
    }
}

fn digits_of(n: u64) -> (r: Vec<u8>)
    ensures
        are_digits(r@),
        digits_value(r@) == n,
{
    let mut out: Vec<u8> = Vec::new();
    let mut rest: u64 = n;
    proof {
        lemma_ten(0);
        assert(rest * power::pow(10, 0) == rest) by (nonlinear_arith)
            requires
                power::pow(10, 0) == 1,
        ;
    }
    while rest > 0 || out.len() == 0
        invariant
            digits_value(out@) + rest * power::pow(10, out@.len()) == n,
            forall|i: int| 0 <= i < out@.len() ==> #[trigger] out@[i] < 10,
            rest == 0 && out@.len() > 1 ==> out@.last() != 0,
        decreases rest,
            (if out@.len() == 0 {
                1int
            } else {
                0int
            }),
    {
        let ghost before = out@;
        let digit: u8 = (rest % 10) as u8;
        out.push(digit);
        proof {
            lemma_value_push(before, digit);
            lemma_ten(before.len());
            let p = power::pow(10, before.len());
            let q = rest as int / 10;
            assert(digit * p + q * (10 * p) == rest * p) by (nonlinear_arith)
                requires
                    digit + 10 * q == rest,
            ;
        }
        rest = rest / 10;
    }
    proof {
        assert(rest * power::pow(10, out@.len()) == 0) by (nonlinear_arith)
            requires
                rest == 0,
        ;
    }
    out
}

fn times(d: &Vec<u8>, f: u8) -> (r: Vec<u8>)
    requires
        are_digits(d@),
        2 <= f <= 5,
    ensures
        are_digits(r@),
        digits_value(r@) == digits_value(d@) * f,
{
    let mut out: Vec<u8> = Vec::new();
    let mut carry: u8 = 0;
    proof {
        assert(d@.take(0) =~= Seq::<u8>::empty());
        assert(carry * power::pow(10, 0) == 0) by (nonlinear_arith)
            requires
                carry == 0,
        ;
    }
    for i in 0..d.len()
        invariant
            are_digits(d@),
            2 <= f <= 5,
            carry <= 4,
            out@.len() == i,
            forall|k: int| 0 <= k < out@.len() ==> #[trigger] out@[k] < 10,
            digits_value(out@) + carry * power::pow(10, out@.len()) == digits_value(d@.take(i as int)) * f,
            i > 0 && carry == 0 && d@[i - 1] != 0 ==> out@[i - 1] != 0,
    {
        let ghost before = out@;
        let ghost kept: u8 = carry;
        assert(d[i as int] < 10);
        let digit: u8 = d[i];
        assert(digit * f <= 45) by (nonlinear_arith)
            requires
                digit <= 9,
                f <= 5,
        ;
        let t: u8 = digit * f + carry;
        out.push(t % 10);
        carry = t / 10;
        proof {
            assert(d@.take(i + 1) =~= d@.take(i as int).push(digit));
            lemma_value_push(d@.take(i as int), digit);
            lemma_value_push(before, t % 10);
            lemma_ten(before.len());
            let p = power::pow(10, before.len());
            let v = digits_value(d@.take(i as int));
            let low: int = (t % 10) as int;
            let high: int = (t / 10) as int;
            assert(low * p + high * (10 * p) == (digit * f) * p + kept * p) by (nonlinear_arith)
                requires
                    low + 10 * high == digit * f + kept,
            ;
            assert((v + digit * p) * f == v * f + (digit * f) * p) by (nonlinear_arith);
            if carry == 0 && digit != 0 {
                assert(digit * f >= 2) by (nonlinear_arith)
                    requires
                        digit >= 1,
                        f >= 2,
                ;
            }
        }
    }
    assert(d@.take(d@.len() as int) =~= d@);
    if carry > 0 {
        let ghost before = out@;
        out.push(carry);
        proof {
            lemma_value_push(before, carry);
        }
    } else {
        proof {
            assert(carry * power::pow(10, out@.len()) == 0) by (nonlinear_arith)
                requires
                    carry == 0,
            ;
        }
    }
    out
}

fn digits_text(d: &Vec<u8>) -> (r: String)
    requires
        are_digits(d@),
    ensures
        r@ == text::nat_text(digits_value(d@) as nat),
        digits_value(d@) >= 0,
{
    let n: usize = d.len();
    let mut out = String::new();
    let mut i: usize = n;
    while i > 0
        invariant
            n == d@.len(),
            i <= n,
            are_digits(d@),
            i == n ==> out@ == Seq::<char>::empty(),
            i < n ==> out@ == text::nat_text(digits_value(d@.skip(i as int)) as nat) && digits_value(
                d@.skip(i as int),
            ) >= 0,
        decreases i,
    {
        let ghost here = d@.skip(i - 1);
        proof {
            assert(here.drop_first() =~= d@.skip(i as int));
            assert(here[0] == d@[i - 1]);
            assert(d@[i - 1] < 10);
            if i < n {
                assert(d@.skip(i as int).last() == d@.last());
                lemma_value_positive(d@.skip(i as int));
            } else {
                assert(digits_value(here.drop_first()) == 0);
            }
        }
        i = i - 1;
        let c = (48 + d[i]) as char;
        out.push(c);
        assert(i + 1 == n ==> out@ =~= seq![c]);
    }
    assert(d@.skip(0) =~= d@);
    out
}

/// The exact decimal text of a number.
pub fn exact_text(s: Scalar) -> (r: String)
    ensures
        r@ == exact_decimal(s),
{
    if (s.bits / 0x80_0000) % 256 == 255 {
        return text::owned("NaN");
    }
    let (m, e) = parts(s);
    let mut d = digits_of(m);
    proof {
        power2::lemma2_to64();
        assert(m * power2::pow2(0) == m) by (nonlinear_arith)
            requires
                power2::pow2(0) == 1,
        ;
    }
    for i in 0..e
        invariant
            are_digits(d@),
            digits_value(d@) == m * power2::pow2(i as nat),
    {
        d = times(&d, 2);
        proof {
            power2::lemma_pow2_unfold((i + 1) as nat);
            let p = power2::pow2(i as nat);
            assert(m * p * 2 == m * (2 * p)) by (nonlinear_arith);
        }
    }
    let ghost whole = s.magnitude();
    proof {
        reveal(power::pow);
        assert(whole * power::pow(5, 0) == whole) by (nonlinear_arith)
            requires
                power::pow(5, 0) == 1,
        ;
    }
    for i in 0..149u32
        invariant
            are_digits(d@),
            digits_value(d@) == whole * power::pow(5, i as nat),
    {
        d = times(&d, 5);
        proof {
            reveal(power::pow);
            let p = power::pow(5, i as nat);
            assert(whole * p * 5 == whole * (5 * p)) by (nonlinear_arith);
        }
    }
    let digits = digits_text(&d);
    let mut out = text::owned(
        if s.bits >= 0x8000_0000 {
            "-"
        } else {
            ""
        },
    );
    out.push_str(digits.as_str());
    out.push_str("e-149");
    out
}

/// The digits of the exact text of a number write, in units of ten to the power of minus 149, exactly the
/// number.
pub proof fn exact_text_is_exact(s: Scalar) -> (n: nat)
    requires
        s.finite(),
        s.magnitude() >= 0,
    ensures
        exact_decimal(s) == literals::sign_text(s) + text::nat_text(n) + "e-149"@,
        text::decimal_value(text::nat_text(n)) == n,
        n * power2::pow2(149) == s.magnitude() * power::pow(10, 149),
{
    power::lemma_pow_distributes(5, 2, 149);
    power2::lemma_pow2(149);
    power::lemma_pow_positive(5, 149);
    let five = power::pow(5, 149);
    let two = power2::pow2(149) as int;
    let m = s.magnitude();
    assert(m * five >= 0) by (nonlinear_arith)
        requires
            m >= 0,
            five > 0,
    ;
    let n = (m * five) as nat;
    text::number_is_written(n);
    assert((m * five) * two == m * (five * two)) by (nonlinear_arith);
    assert(five * two == power::pow(10, 149));
    n
}

} // verus!
