//! Double precision numbers, held as their IEEE 754 bit patterns, and what a cast makes of them.

use vstd::arithmetic::power2;
use vstd::prelude::*;
use crate::literals;
use crate::scalar::Scalar;

verus! {

/// A double precision number by its bit pattern: a sign bit, eleven exponent bits and 52 fraction
/// bits.
#[derive(Clone, Copy, Debug, PartialEq, Eq, Structural)]
pub struct Double {
    pub bits: u64,
}

impl Double {
    /// The exponent field.
    pub open spec fn exponent(self) -> int {
        (self.bits as int / 0x10_0000_0000_0000) % 2048
    }

    /// The fraction field.
    pub open spec fn fraction(self) -> int {
        self.bits as int % 0x10_0000_0000_0000
    }

    /// Whether the sign bit is set.
    pub open spec fn negative(self) -> bool {
        self.bits >= 0x8000_0000_0000_0000
    }

    /// The significand of a number with a hidden bit: the number is this times two to the power of
    /// its exponent field less 1075.
    pub open spec fn significand(self) -> int {
        0x10_0000_0000_0000 + self.fraction()
    }

    /// The size of a number with a hidden bit, in units of two to the power of minus 1074.
    pub open spec fn magnitude(self) -> int {
        self.significand() * power2::pow2((self.exponent() - 1) as nat)
    }
}

/// The pattern, without its sign, of the single nearest to a double; half way between two singles it
/// is the even one.
///
/// The significand is cut from 53 bits to 24, or to fewer where the single is below the smallest one
/// with a hidden bit. What rounds up past the largest significand carries over into the exponent.
/// What is less than half of the smallest single is zero, what is past the largest is infinite, and
/// what is no number stays none.
pub open spec fn narrowed_size(d: Double) -> int {
    let e = d.exponent();
    if e == 2047 {
        if d.fraction() == 0 {
            0x7F80_0000
        } else {
            0x7FC0_0000
        }
    } else if e < 873 {
        0
    } else if e < 897 {
        literals::rounded(d.significand(), power2::pow2((926 - e) as nat) as int)
    } else if e <= 1150 {
        (e - 897) * 0x80_0000 + literals::rounded(d.significand(), 0x2000_0000)
    } else {
        0x7F80_0000
    }
}

/// The single nearest to a double.
pub open spec fn narrowed(d: Double) -> Scalar {
    Scalar {
        bits: (if d.negative() {
            0x8000_0000 + narrowed_size(d)
        } else {
            narrowed_size(d)
        }) as u32,
    }
}

/// The whole number that a cast of a double to a 32 bit integer gives: cut towards zero, bounded by
/// the integer's range, zero for what is no number.
pub open spec fn cut(d: Double) -> int {
    let e = d.exponent();
    if e == 2047 && d.fraction() != 0 {
        0
    } else {
        let whole: int = if e < 1023 {
            0
        } else if e < 1055 {
            d.significand() / power2::pow2((1075 - e) as nat) as int
        } else {
            0x1_0000_0000
        };
        if d.negative() {
            if whole > 0x8000_0000 {
                i32::MIN as int
            } else {
                -whole
            }
        } else {
            if whole > 0x7FFF_FFFF {
                i32::MAX as int
            } else {
                whole
            }
        }
    }
}

/// Whether a pattern is a whole number.
pub open spec fn integral(d: Double) -> bool {
    let e = d.exponent();
    if e < 1023 {
        e == 0 && d.fraction() == 0
    } else if e < 1075 {
        d.significand() % power2::pow2((1075 - e) as nat) as int == 0
    } else {
        e < 2047
    }
}

fn two_to(e: u32) -> (r: u64)
    requires
        e <= 53,
    ensures
        r == power2::pow2(e as nat),
        0 < r <= 0x20_0000_0000_0000,
{
    let mut r: u64 = 1;
    proof {
        power2::lemma2_to64();
    }
    for i in 0..e
        invariant
            e <= 53,
            r == power2::pow2(i as nat),
            0 < r,
    {
        proof {
            power2::lemma2_to64_rest();
            power2::lemma_pow2_unfold((i + 1) as nat);
            if i + 1 < 53 {
                power2::lemma_pow2_strictly_increases((i + 1) as nat, 53);
            }
        }
        r = r * 2;
    }
    proof {
        power2::lemma2_to64_rest();
        if e < 53 {
            power2::lemma_pow2_strictly_increases(e as nat, 53);
        }
    }
    r
}

fn round_quotient(n: u64, d: u64) -> (r: u64)
    requires
        0 < d <= 0x20_0000_0000_0000,
        n < 0x20_0000_0000_0000,
    ensures
        r == literals::rounded(n as int, d as int),
        r <= n / d + 1,
{
    let q: u64 = n / d;
    let rest: u64 = n % d;
    proof {
        assert(n as int / d as int <= n) by (nonlinear_arith)
            requires
                n >= 0,
                d >= 1,
        ;
    }
    if 2 * rest > d || (2 * rest == d && q % 2 == 1) {
        q + 1
    } else {
        q
    }
}

impl Double {
    /// The single nearest to the number, as a cast gives it.
    pub fn to_single(&self) -> (r: Scalar)
        ensures
            r == narrowed(*self),
    {
        let exponent: u64 = (self.bits / 0x10_0000_0000_0000) % 2048;
        let fraction: u64 = self.bits % 0x10_0000_0000_0000;
        let significand: u64 = 0x10_0000_0000_0000 + fraction;
        let size: u64 = if exponent == 2047 {
            if fraction == 0 {
                0x7F80_0000
            } else {
                0x7FC0_0000
            }
        } else if exponent < 873 {
            0
        } else if exponent < 897 {
            let step = two_to((926 - exponent) as u32);
            proof {
                power2::lemma2_to64();
                if 926 - exponent > 30 {
                    power2::lemma_pow2_strictly_increases(30, (926 - exponent) as nat);
                }
                assert(significand as int / step as int <= 0x80_0000) by (nonlinear_arith)
                    requires
                        significand < 0x20_0000_0000_0000,
                        step >= 0x4000_0000,
                ;
            }
            round_quotient(significand, step)
        } else if exponent <= 1150 {
            (exponent - 897) * 0x80_0000 + round_quotient(significand, 0x2000_0000)
        } else {
            0x7F80_0000
        };
        if self.bits >= 0x8000_0000_0000_0000 {
            Scalar { bits: (0x8000_0000 + size) as u32 }
        } else {
            Scalar { bits: size as u32 }
        }
    }

    /// Whether the number is whole.
    pub fn is_integral(&self) -> (r: bool)
        ensures
            r == integral(*self),
    {
        let exponent: u64 = (self.bits / 0x10_0000_0000_0000) % 2048;
        let fraction: u64 = self.bits % 0x10_0000_0000_0000;
        if exponent < 1023 {
            exponent == 0 && fraction == 0
        } else if exponent < 1075 {
            let step = two_to((1075 - exponent) as u32);
            (0x10_0000_0000_0000 + fraction) % step == 0
        } else {
            exponent < 2047
        }
    }

    /// The number cut to a 32 bit integer, as a cast gives it.
    pub fn to_int(&self) -> (r: i32)
        ensures
            r == cut(*self),
    {
        let exponent: u64 = (self.bits / 0x10_0000_0000_0000) % 2048;
        let fraction: u64 = self.bits % 0x10_0000_0000_0000;
        if exponent == 2047 && fraction != 0 {
            return 0;
        }
        let whole: u64 = if exponent < 1023 {
            0
        } else if exponent < 1055 {
            let step = two_to((1075 - exponent) as u32);
            let n: u64 = 0x10_0000_0000_0000 + fraction;
            proof {
                power2::lemma2_to64();
                if 1075 - exponent > 21 {
                    power2::lemma_pow2_strictly_increases(21, (1075 - exponent) as nat);
                }
                assert(n as int / step as int <= 0x1_0000_0000) by (nonlinear_arith)
                    requires
                        n < 0x20_0000_0000_0000,
                        step >= 0x20_0000,
                ;
            }
            n / step
        } else {
            0x1_0000_0000
        };
        if self.bits >= 0x8000_0000_0000_0000 {
            if whole >= 0x8000_0000 {
                i32::MIN
            } else {
                -(whole as i32)
            }
        } else {
            if whole > 0x7FFF_FFFF {
                i32::MAX
            } else {
                whole as i32
            }
        }
    }
}

/// The distance between neighbouring singles around a double, in units of two to the power of minus
/// 1074.
pub open spec fn single_step(d: Double) -> int {
    if d.exponent() < 897 {
        power2::pow2(925) as int
    } else {
        power2::pow2((d.exponent() + 28) as nat) as int
    }
}

proof fn lemma_rounded(n: int, d: int)
    requires
        n >= 0,
        d > 0,
    ensures
        -d <= 2 * (n - literals::rounded(n, d) * d) <= d,
{
    let q = n / d;
    vstd::arithmetic::div_mod::lemma_fundamental_div_mod(n, d);
    assert(d * q == q * d) by (nonlinear_arith);
    assert((q + 1) * d == q * d + d) by (nonlinear_arith);
}

/// A double is at most half the distance between neighbouring singles away from the single that it is
/// rounded to, on the same side of zero.
pub proof fn narrowed_is_within_half_a_step(d: Double)
    requires
        873 <= d.exponent() <= 1150,
        narrowed(d).finite(),
    ensures
        narrowed(d).negative() == d.negative(),
        -single_step(d) <= 2 * (d.magnitude() - narrowed(d).magnitude() * power2::pow2(925)) <= single_step(d),
{
    let e = d.exponent();
    let m = d.significand();
    let unit = power2::pow2((e - 1) as nat) as int;
    power2::lemma2_to64();
    power2::lemma_pow2_pos((e - 1) as nat);
    let step: int = if e < 897 {
        power2::pow2((926 - e) as nat) as int
    } else {
        0x2000_0000
    };
    if e < 897 {
        power2::lemma_pow2_pos((926 - e) as nat);
        power2::lemma_pow2_adds((926 - e) as nat, (e - 1) as nat);
        if 926 - e > 30 {
            power2::lemma_pow2_strictly_increases(30, (926 - e) as nat);
        }
    } else {
        power2::lemma_pow2_adds(29, (e - 1) as nat);
        power2::lemma_pow2_adds((e - 897) as nat, 925);
    }
    let q = literals::rounded(m, step);
    lemma_rounded(m, step);
    assert(single_step(d) == step * unit);
    assert(0 <= q <= 0x100_0000 && (e < 897 ==> q <= 0x80_0000) && (e >= 897 ==> q >= 0x80_0000)) by (nonlinear_arith)
        requires
            0x10_0000_0000_0000 <= m < 0x20_0000_0000_0000,
            -step <= 2 * (m - q * step) <= step,
            e < 897 ==> step >= 0x4000_0000,
            e >= 897 ==> step == 0x2000_0000,
            step > 0,
    ;
    let s = narrowed(d);
    assert(s.magnitude() * power2::pow2(925) == (q * step) * unit) by {
        if e < 897 {
            assert(s.magnitude() == q) by {
                if q == 0x80_0000 {
                    assert(s.exponent() == 1);
                    assert(s.fraction() == 0);
                    assert(0x80_0000 * power2::pow2(0) == 0x80_0000) by (nonlinear_arith)
                        requires
                            power2::pow2(0) == 1,
                    ;
                }
            }
            assert(q * (step * unit) == (q * step) * unit) by (nonlinear_arith);
        } else {
            let p = power2::pow2((e - 897) as nat);
            assert(s.magnitude() == q * p) by {
                if q == 0x100_0000 {
                    assert(s.exponent() == e - 895);
                    assert(s.fraction() == 0);
                    power2::lemma_pow2_unfold((e - 896) as nat);
                    assert(0x80_0000 * (2 * p) == 0x100_0000 * p) by (nonlinear_arith);
                } else {
                    assert(s.exponent() == e - 896);
                    assert(s.fraction() == q - 0x80_0000);
                }
            }
            assert((q * p) * power2::pow2(925) == (q * step) * unit) by (nonlinear_arith)
                requires
                    p * power2::pow2(925) == step * unit,
            ;
        }
    }
    assert(-(step * unit) <= 2 * (m * unit - (q * step) * unit) <= step * unit) by (nonlinear_arith)
        requires
            -step <= 2 * (m - q * step) <= step,
            unit > 0,
    ;
}

} // verus!
