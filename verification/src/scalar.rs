//! Single precision numbers, held as their IEEE 754 bit patterns.
//!
//! A finite pattern stands for a whole number of units of two to the power of minus 149, the
//! smallest positive single. All statements below speak of that whole number.

use vstd::arithmetic::{div_mod, mul, power2};
use vstd::prelude::*;

verus! {

/// A single precision number by its bit pattern: a sign bit, eight exponent bits and 23 fraction
/// bits.
#[derive(Clone, Copy, Debug, PartialEq, Eq, Structural)]
pub struct Scalar {
    pub bits: u32,
}

impl View for Scalar {
    type V = Scalar;

    open spec fn view(&self) -> Scalar {
        *self
    }
}

impl Scalar {
    /// The exponent field.
    pub open spec fn exponent(self) -> int {
        (self.bits as int / 0x80_0000) % 256
    }

    /// The fraction field.
    pub open spec fn fraction(self) -> int {
        self.bits as int % 0x80_0000
    }

    /// Whether the sign bit is set.
    pub open spec fn negative(self) -> bool {
        self.bits >= 0x8000_0000
    }

    /// Whether the pattern is a number, not an infinity and not NaN.
    pub open spec fn finite(self) -> bool {
        self.exponent() < 255
    }

    /// Whether the pattern is not a number.
    pub open spec fn nan(self) -> bool {
        self.exponent() == 255 && self.fraction() != 0
    }

    /// The size of a finite number, in units of two to the power of minus 149.
    pub open spec fn magnitude(self) -> int {
        if self.exponent() == 0 {
            self.fraction()
        } else {
            (0x80_0000 + self.fraction()) * power2::pow2((self.exponent() - 1) as nat)
        }
    }

    /// A finite number, in units of two to the power of minus 149.
    pub open spec fn units(self) -> int {
        if self.negative() {
            -self.magnitude()
        } else {
            self.magnitude()
        }
    }
}

/// `==` of single precision numbers: NaN equals nothing, the two zeros are equal.
pub open spec fn same_scalar(a: Scalar, b: Scalar) -> bool {
    &&& !a.nan()
    &&& !b.nan()
    &&& (a == b || (a.finite() && b.finite() && a.magnitude() == 0 && b.magnitude() == 0))
}

/// Whether the single precision difference of two numbers is smaller in size than the machine
/// epsilon of single precision, two to the power of minus 23.
///
/// The difference is rounded to a single before it is compared, so the exact difference has to
/// stay below the midpoint between the epsilon and the single just under it.
pub open spec fn near_scalar(a: Scalar, b: Scalar) -> bool {
    &&& a.finite()
    &&& b.finite()
    &&& -near_limit() < a.units() - b.units() < near_limit()
}

/// The first exact difference, in units, that does not count as near.
pub open spec fn near_limit() -> int {
    power2::pow2(126) - power2::pow2(101)
}

/// Whether the single precision difference of two numbers is a number of at least the machine
/// epsilon in size.
pub open spec fn far_scalar(a: Scalar, b: Scalar) -> bool {
    &&& !a.nan()
    &&& !b.nan()
    &&& (a.finite() || a != b)
    &&& !near_scalar(a, b)
}

/// A number is near itself, and nothing is far from itself.
pub proof fn near_itself(a: Scalar)
    ensures
        a.finite() ==> near_scalar(a, a),
        !far_scalar(a, a),
{
    power2::lemma_pow2_strictly_increases(101, 126);
}

/// Whether the single precision difference of two numbers is smaller in size than the single
/// nearest to a thousandth.
///
/// The difference is rounded to a single before it is compared; the midpoint between that single
/// and the one just under it rounds down, as that one is the even one.
pub open spec fn close_scalar(a: Scalar, b: Scalar) -> bool {
    &&& a.finite()
    &&& b.finite()
    &&& -close_limit() <= a.units() - b.units() <= close_limit()
}

/// The last exact difference, in units, that counts as close.
pub open spec fn close_limit() -> int {
    0x106_24DD * power2::pow2(115) as int
}

/// The distance between neighbouring singles around a whole number of at least two to the power
/// of 24; one below that.
pub open spec fn spacing(n: int) -> int
    decreases n,
{
    if n < 0x100_0000 {
        1
    } else {
        2 * spacing(n / 2)
    }
}

/// The multiple of `step` nearest to `n`; of two equally near ones the even multiple.
pub open spec fn nearest_even(n: int, step: int) -> int {
    if 2 * (n % step) < step || (2 * (n % step) == step && (n / step) % 2 == 0) {
        (n / step) * step
    } else {
        (n / step + 1) * step
    }
}

/// The whole number that a single made of `n` stands for: `n` rounded to 24 significant bits,
/// ties to even.
pub open spec fn single_of(n: int) -> int {
    if n < 0 {
        -nearest_even(-n, spacing(-n))
    } else {
        nearest_even(n, spacing(n))
    }
}

/// `s` is the single made of the whole number `n`.
pub open spec fn is_single_of(s: Scalar, n: int) -> bool {
    &&& s.finite()
    &&& s.negative() == (n < 0)
    &&& s.units() == single_of(n) * power2::pow2(149)
}

/// The single made of a whole number.
pub open spec fn int_scalar(n: int) -> Scalar {
    choose|s: Scalar| is_single_of(s, n)
}

/// The whole number that a cast of a single to a 32 bit integer gives: cut towards zero, bounded
/// by the integer's range, zero for NaN.
pub open spec fn truncated(s: Scalar) -> int {
    if s.nan() {
        0
    } else if !s.finite() {
        if s.negative() {
            i32::MIN as int
        } else {
            i32::MAX as int
        }
    } else {
        let whole = s.magnitude() / power2::pow2(149) as int;
        let signed = if s.negative() {
            -whole
        } else {
            whole
        };
        if signed < i32::MIN {
            i32::MIN as int
        } else if signed > i32::MAX {
            i32::MAX as int
        } else {
            signed
        }
    }
}

/// Whether a pattern is a whole number.
pub open spec fn integral(s: Scalar) -> bool {
    s.finite() && s.magnitude() % power2::pow2(149) as int == 0
}

/// Two to the power of `e`.
fn two_to(e: u32) -> (r: u128)
    requires
        e <= 127,
    ensures
        r == power2::pow2(e as nat),
{
    let mut r: u128 = 1;
    let mut i: u32 = 0;
    proof {
        power2::lemma2_to64();
    }
    while i < e
        invariant
            i <= e <= 127,
            r == power2::pow2(i as nat),
        decreases e - i,
    {
        proof {
            power2::lemma_pow2_unfold((i + 1) as nat);
            lemma_two_127();
            if i + 1 < 127 {
                power2::lemma_pow2_strictly_increases((i + 1) as nat, 127);
            }
        }
        r = r * 2;
        i = i + 1;
    }
    r
}

proof fn lemma_two_127()
    ensures
        power2::pow2(127) == 0x8000_0000_0000_0000_0000_0000_0000_0000,
        power2::pow2(126) == 0x4000_0000_0000_0000_0000_0000_0000_0000,
        power2::pow2(103) == 0x80_0000_0000_0000_0000_0000_0000,
        power2::pow2(101) == 0x20_0000_0000_0000_0000_0000_0000,
        power2::pow2(24) == 0x100_0000,
        power2::pow2(23) == 0x80_0000,
{
    power2::lemma2_to64();
    power2::lemma_pow2_adds(64, 32);
    power2::lemma_pow2_adds(96, 5);
    power2::lemma_pow2_adds(96, 7);
    power2::lemma_pow2_adds(96, 30);
    power2::lemma_pow2_adds(96, 31);
}

proof fn lemma_two_40()
    ensures
        power2::pow2(40) == 0x100_0000_0000,
        power2::pow2(48) == 0x1_0000_0000_0000,
        power2::pow2(50) == 0x4_0000_0000_0000,
{
    power2::lemma2_to64();
    power2::lemma_pow2_adds(32, 8);
    power2::lemma_pow2_adds(32, 16);
    power2::lemma_pow2_adds(32, 18);
}

/// The parts of a finite number: its size is `m` times two to the power of `e`.
pub fn parts(s: Scalar) -> (r: (u64, u32))
    requires
        s.finite(),
    ensures
        r.0 < 0x100_0000,
        r.1 <= 253,
        r.1 > 0 ==> r.0 >= 0x80_0000,
        s.magnitude() == r.0 * power2::pow2(r.1 as nat),
{
    let exponent: u32 = (s.bits / 0x80_0000) % 256;
    let fraction: u32 = s.bits % 0x80_0000;
    proof {
        power2::lemma2_to64();
    }
    if exponent == 0 {
        proof {
            assert(fraction * power2::pow2(0) == fraction) by (nonlinear_arith)
                requires
                    power2::pow2(0) == 1,
            ;
        }
        (fraction as u64, 0)
    } else {
        (0x80_0000 + fraction as u64, exponent - 1)
    }
}

proof fn lemma_scaled_bound(m: int, e: nat, k: nat)
    requires
        0 <= m < 0x100_0000,
        e <= k,
    ensures
        m * power2::pow2(e) < power2::pow2(k + 24),
        m * power2::pow2(e) <= 0xFF_FFFF * power2::pow2(k),
{
    power2::lemma2_to64();
    power2::lemma_pow2_pos(e);
    power2::lemma_pow2_adds(k, 24);
    if e < k {
        power2::lemma_pow2_strictly_increases(e, k);
    }
    mul::lemma_mul_inequality(m, 0xFF_FFFF, power2::pow2(e) as int);
    mul::lemma_mul_inequality(power2::pow2(e) as int, power2::pow2(k) as int, 0xFF_FFFF);
    assert(m * power2::pow2(e) <= 0xFF_FFFF * power2::pow2(k)) by (nonlinear_arith)
        requires
            m * power2::pow2(e) <= 0xFF_FFFF * power2::pow2(e),
            power2::pow2(e) * 0xFF_FFFF <= power2::pow2(k) * 0xFF_FFFF,
    ;
    assert(0xFF_FFFF * power2::pow2(k) < 0x100_0000 * power2::pow2(k)) by (nonlinear_arith)
        requires
            power2::pow2(k) > 0,
    {
        power2::lemma_pow2_pos(k);
    }
}

proof fn lemma_scaled_floor(m: int, e: nat, k: nat)
    requires
        m >= 0x80_0000,
        k <= e,
    ensures
        m * power2::pow2(e) >= power2::pow2(k + 23),
        m * power2::pow2(e) >= 0x80_0000 * power2::pow2(e),
{
    power2::lemma2_to64();
    power2::lemma_pow2_pos(e);
    power2::lemma_pow2_adds(k, 23);
    if k < e {
        power2::lemma_pow2_strictly_increases(k, e);
    }
    mul::lemma_mul_inequality(0x80_0000, m, power2::pow2(e) as int);
    mul::lemma_mul_inequality(power2::pow2(k) as int, power2::pow2(e) as int, 0x80_0000);
}

impl Scalar {
    /// `==` of single precision numbers.
    pub fn same(&self, other: &Scalar) -> (r: bool)
        ensures
            r == same_scalar(*self, *other),
    {
        let a: u32 = self.bits;
        let b: u32 = other.bits;
        let a_exponent: u32 = (a / 0x80_0000) % 256;
        let b_exponent: u32 = (b / 0x80_0000) % 256;
        if (a_exponent == 255 && a % 0x80_0000 != 0) || (b_exponent == 255 && b % 0x80_0000 != 0) {
            return false;
        }
        proof {
            lemma_zero(*self);
            lemma_zero(*other);
        }
        a == b || (a % 0x8000_0000 == 0 && b % 0x8000_0000 == 0)
    }

    /// Whether two numbers differ by less than the machine epsilon, as single precision
    /// arithmetic finds it.
    pub fn near(&self, other: &Scalar) -> (r: bool)
        ensures
            r == near_scalar(*self, *other),
    {
        if (self.bits / 0x80_0000) % 256 == 255 || (other.bits / 0x80_0000) % 256 == 255 {
            return false;
        }
        let (m1, e1) = parts(*self);
        let (m2, e2) = parts(*other);
        let same_sign = (self.bits >= 0x8000_0000) == (other.bits >= 0x8000_0000);
        proof {
            lemma_two_127();
        }
        if e1 <= 103 && e2 <= 103 {
            proof {
                lemma_scaled_bound(m1 as int, e1 as nat, 103);
                lemma_scaled_bound(m2 as int, e2 as nat, 103);
            }
            let x: u128 = scaled(m1, e1);
            let y: u128 = scaled(m2, e2);
            let limit: u128 = 0x4000_0000_0000_0000_0000_0000_0000_0000
                - 0x20_0000_0000_0000_0000_0000_0000;
            if same_sign {
                if x >= y {
                    x - y < limit
                } else {
                    y - x < limit
                }
            } else {
                x + y < limit
            }
        } else {
            proof {
                lemma_far(*self, *other, m1 as int, e1 as nat, m2 as int, e2 as nat);
            }
            if !same_sign || e1 <= 102 || e2 <= 102 {
                false
            } else if e1 >= 127 || e2 >= 127 {
                e1 == e2 && m1 == m2
            } else {
                let x: u128 = scaled_from(m1, e1);
                let y: u128 = scaled_from(m2, e2);
                proof {
                    mul::lemma_mul_is_distributive_sub_other_way(power2::pow2(103) as int, x as int, y as int);
                    let d = x - y;
                    let p = power2::pow2(103) as int;
                    assert(self.magnitude() - other.magnitude() == d * p);
                    assert(-0x80_0000 < d < 0x80_0000 <==> -near_limit() < d * p < near_limit())
                        by (nonlinear_arith)
                        requires
                            p == 0x80_0000_0000_0000_0000_0000_0000,
                            near_limit() == 0x4000_0000_0000_0000_0000_0000_0000_0000
                                - 0x20_0000_0000_0000_0000_0000_0000,
                    ;
                }
                if x >= y {
                    x - y < 0x80_0000
                } else {
                    y - x < 0x80_0000
                }
            }
        }
    }

    /// Whether two numbers differ by at least the machine epsilon, as single precision arithmetic
    /// finds it.
    pub fn far(&self, other: &Scalar) -> (r: bool)
        ensures
            r == far_scalar(*self, *other),
    {
        let a: u32 = self.bits;
        let b: u32 = other.bits;
        let a_wide = (a / 0x80_0000) % 256 == 255;
        let b_wide = (b / 0x80_0000) % 256 == 255;
        if (a_wide && a % 0x80_0000 != 0) || (b_wide && b % 0x80_0000 != 0) {
            return false;
        }
        if a_wide && a == b {
            return false;
        }
        !self.near(other)
    }

    /// Whether two numbers differ by less than a thousandth, as single precision arithmetic finds
    /// it.
    pub fn close(&self, other: &Scalar) -> (r: bool)
        ensures
            r == close_scalar(*self, *other),
    {
        if (self.bits / 0x80_0000) % 256 == 255 || (other.bits / 0x80_0000) % 256 == 255 {
            return false;
        }
        let (m1, e1) = parts(*self);
        let (m2, e2) = parts(*other);
        let same_sign = (self.bits >= 0x8000_0000) == (other.bits >= 0x8000_0000);
        proof {
            lemma_units_apart(*self, *other);
        }
        if e1 >= e2 {
            close_parts(m1, e1, m2, e2, same_sign)
        } else {
            close_parts(m2, e2, m1, e1, same_sign)
        }
    }

    /// The number nearest to a 32 bit integer.
    pub fn from_int(n: i32) -> (r: Scalar)
        ensures
            is_single_of(r, n as int),
            r == int_scalar(n as int),
    {
        Scalar::from_long(n as i64)
    }

    /// The number nearest to a 64 bit integer.
    pub fn from_long(n: i64) -> (r: Scalar)
        ensures
            is_single_of(r, n as int),
            r == int_scalar(n as int),
    {
        let size: u64 = if n == i64::MIN {
            0x8000_0000_0000_0000
        } else if n < 0 {
            (-n) as u64
        } else {
            n as u64
        };
        let r = from_size(size);
        if n < 0 {
            let negated = Scalar { bits: r.bits + 0x8000_0000 };
            assert(negated.exponent() == r.exponent());
            assert(negated.fraction() == r.fraction());
            proof {
                let k = nearest_even(size as int, spacing(size as int));
                assert((-k) * power2::pow2(149) == -(k * power2::pow2(149))) by (nonlinear_arith);
            }
            proof {
                assert(is_single_of(negated, n as int));
                lemma_one_pattern(negated, int_scalar(n as int));
            }
            negated
        } else {
            proof {
                assert(is_single_of(r, n as int));
                lemma_one_pattern(r, int_scalar(n as int));
            }
            r
        }
    }

    /// The number cut to a 32 bit integer, as a cast does it.
    pub fn to_int(&self) -> (r: i32)
        ensures
            r == truncated(*self),
    {
        let exponent: u32 = (self.bits / 0x80_0000) % 256;
        let fraction: u32 = self.bits % 0x80_0000;
        let negative = self.bits >= 0x8000_0000;
        if exponent == 255 {
            if fraction != 0 {
                return 0;
            }
            return if negative {
                i32::MIN
            } else {
                i32::MAX
            };
        }
        let (m, e) = parts(*self);
        proof {
            lemma_whole(m as int, e as nat);
        }
        if e < 126 {
            return 0;
        }
        if e >= 157 {
            return if negative {
                i32::MIN
            } else {
                i32::MAX
            };
        }
        let whole: u64 = if e >= 149 {
            proof {
                power2::lemma2_to64();
                if e - 149 < 8 {
                    power2::lemma_pow2_strictly_increases((e - 149) as nat, 8);
                }
            }
            let f: u64 = two_to(e - 149) as u64;
            proof {
                assert(m * f <= 0x100_0000 * 0x100) by (nonlinear_arith)
                    requires
                        m <= 0x100_0000,
                        f <= 0x100,
                ;
            }
            m * f
        } else {
            proof {
                power2::lemma2_to64();
                power2::lemma_pow2_pos((149 - e) as nat);
                power2::lemma_pow2_strictly_increases((149 - e) as nat, 32);
            }
            let f: u64 = two_to(149 - e) as u64;
            m / f
        };
        if negative {
            if whole >= 0x8000_0000 {
                i32::MIN
            } else {
                -(whole as i32)
            }
        } else {
            if whole >= 0x7FFF_FFFF {
                i32::MAX
            } else {
                whole as i32
            }
        }
    }

    /// Whether the number is whole.
    pub fn is_integral(&self) -> (r: bool)
        ensures
            r == integral(*self),
    {
        if (self.bits / 0x80_0000) % 256 == 255 {
            return false;
        }
        let (m, e) = parts(*self);
        proof {
            lemma_whole(m as int, e as nat);
            lemma_integral(m as int, e as nat);
        }
        if e >= 149 {
            true
        } else if e < 126 {
            m == 0
        } else {
            proof {
                power2::lemma2_to64();
                power2::lemma_pow2_pos((149 - e) as nat);
                power2::lemma_pow2_strictly_increases((149 - e) as nat, 32);
            }
            let f: u64 = two_to(149 - e) as u64;
            m % f == 0
        }
    }

    /// Zero.
    pub fn zero() -> (r: Scalar)
        ensures
            r == (Scalar { bits: 0 }),
    {
        Scalar { bits: 0 }
    }
}

/// A finite number has one pattern for each sign.
proof fn lemma_one_pattern(a: Scalar, b: Scalar)
    requires
        a.finite(),
        b.finite(),
        a.negative() == b.negative(),
        a.units() == b.units(),
    ensures
        a == b,
{
    let ea = if a.exponent() == 0 { 0nat } else { (a.exponent() - 1) as nat };
    let eb = if b.exponent() == 0 { 0nat } else { (b.exponent() - 1) as nat };
    let ma = if a.exponent() == 0 { a.fraction() } else { 0x80_0000 + a.fraction() };
    let mb = if b.exponent() == 0 { b.fraction() } else { 0x80_0000 + b.fraction() };
    power2::lemma2_to64();
    assert(ma * power2::pow2(0) == ma && mb * power2::pow2(0) == mb) by (nonlinear_arith)
        requires
            power2::pow2(0) == 1,
    ;
    assert(a.magnitude() == ma * power2::pow2(ea));
    assert(b.magnitude() == mb * power2::pow2(eb));
    if ea > eb {
        lemma_order(ma, ea, mb, eb);
    } else if eb > ea {
        lemma_order(mb, eb, ma, ea);
    } else {
        power2::lemma_pow2_pos(ea);
        let p = power2::pow2(ea) as int;
        assert(ma == mb) by (nonlinear_arith)
            requires
                ma * p == mb * p,
                p > 0,
        ;
        assert(a.exponent() == b.exponent());
        assert(a.fraction() == b.fraction());
    }
}

proof fn lemma_order(m1: int, e1: nat, m2: int, e2: nat)
    requires
        e1 > e2,
        0x80_0000 <= m1,
        0 <= m2 < 0x100_0000,
    ensures
        m1 * power2::pow2(e1) > m2 * power2::pow2(e2),
{
    lemma_scaled_floor(m1, e1, e1);
    lemma_scaled_bound(m2, e2, (e1 - 1) as nat);
    power2::lemma_pow2_unfold(e1);
    power2::lemma_pow2_pos((e1 - 1) as nat);
}

proof fn lemma_zero(s: Scalar)
    ensures
        (s.finite() && s.magnitude() == 0) <==> s.bits as int % 0x8000_0000 == 0,
{
    if s.exponent() > 0 {
        power2::lemma_pow2_pos((s.exponent() - 1) as nat);
        assert((0x80_0000 + s.fraction()) * power2::pow2((s.exponent() - 1) as nat) > 0) by (nonlinear_arith)
            requires
                s.fraction() >= 0,
                power2::pow2((s.exponent() - 1) as nat) > 0,
        ;
    }
}

/// `m` times two to the power of `e`, for a result below two to the power of 127.
fn scaled(m: u64, e: u32) -> (r: u128)
    requires
        m < 0x100_0000,
        e <= 103,
    ensures
        r == m * power2::pow2(e as nat),
        r < 0x8000_0000_0000_0000_0000_0000_0000_0000,
{
    let f = two_to(e);
    proof {
        lemma_two_127();
        lemma_scaled_bound(m as int, e as nat, 103);
    }
    m as u128 * f
}

/// `m` times two to the power of `e`, in units of two to the power of 103.
fn scaled_from(m: u64, e: u32) -> (r: u128)
    requires
        m < 0x100_0000,
        103 <= e <= 126,
    ensures
        r * power2::pow2(103) == m * power2::pow2(e as nat),
        r < 0x1_0000_0000_0000,
{
    let f = two_to(e - 103);
    proof {
        power2::lemma2_to64();
        power2::lemma_pow2_adds((e - 103) as nat, 103);
        lemma_scaled_bound(m as int, (e - 103) as nat, 23);
        power2::lemma_pow2_adds(23, 24);
        assert((m * f) * power2::pow2(103) == m * (f * power2::pow2(103))) by (nonlinear_arith);
    }
    m as u128 * f
}

proof fn lemma_far(a: Scalar, b: Scalar, m1: int, e1: nat, m2: int, e2: nat)
    requires
        a.finite(),
        b.finite(),
        0 <= m1 < 0x100_0000,
        0 <= m2 < 0x100_0000,
        e1 > 0 ==> m1 >= 0x80_0000,
        e2 > 0 ==> m2 >= 0x80_0000,
        a.magnitude() == m1 * power2::pow2(e1),
        b.magnitude() == m2 * power2::pow2(e2),
        e1 > 103 || e2 > 103,
    ensures
        a.negative() != b.negative() ==> !near_scalar(a, b),
        e1 <= 102 || e2 <= 102 ==> !near_scalar(a, b),
        e1 >= 127 || e2 >= 127 ==> (near_scalar(a, b) <==> a.negative() == b.negative() && e1 == e2
            && m1 == m2),
{
    lemma_two_127();
    assert(a.magnitude() >= 0 && b.magnitude() >= 0) by {
        power2::lemma_pow2_pos(e1);
        power2::lemma_pow2_pos(e2);
        assert(m1 * power2::pow2(e1) >= 0) by (nonlinear_arith)
            requires
                m1 >= 0,
                power2::pow2(e1) > 0,
        ;
        assert(m2 * power2::pow2(e2) >= 0) by (nonlinear_arith)
            requires
                m2 >= 0,
                power2::pow2(e2) > 0,
        ;
    }
    if e1 > 103 {
        lemma_scaled_floor(m1, e1, 104);
    }
    if e2 > 103 {
        lemma_scaled_floor(m2, e2, 104);
    }
    if e1 <= 102 {
        lemma_scaled_bound(m1, e1, 102);
    }
    if e2 <= 102 {
        lemma_scaled_bound(m2, e2, 102);
    }
    if e1 >= 127 || e2 >= 127 {
        if e1 > e2 {
            lemma_gap(m1, e1, m2, e2);
        } else if e2 > e1 {
            lemma_gap(m2, e2, m1, e1);
        } else if m1 != m2 {
            lemma_pow2_step(e1);
            let p = power2::pow2(e1) as int;
            let d = m1 - m2;
            mul::lemma_mul_is_distributive_sub_other_way(p, m1, m2);
            assert(d * p >= p || d * p <= -p) by (nonlinear_arith)
                requires
                    d != 0,
                    p > 0,
            ;
        }
    }
}

proof fn lemma_pow2_step(e: nat)
    requires
        e >= 126,
    ensures
        power2::pow2(e) >= power2::pow2(126),
        power2::pow2(e) > 0,
{
    power2::lemma_pow2_pos(e);
    if e > 126 {
        power2::lemma_pow2_strictly_increases(126, e);
    }
}

proof fn lemma_gap(m1: int, e1: nat, m2: int, e2: nat)
    requires
        e1 >= 127,
        e1 > e2,
        0x80_0000 <= m1,
        0 <= m2 < 0x100_0000,
    ensures
        m1 * power2::pow2(e1) - m2 * power2::pow2(e2) >= power2::pow2(126),
{
    lemma_scaled_floor(m1, e1, e1);
    lemma_scaled_bound(m2, e2, (e1 - 1) as nat);
    power2::lemma_pow2_unfold(e1);
    lemma_pow2_step((e1 - 1) as nat);
}

proof fn lemma_integral(m: int, e: nat)
    requires
        0 <= m < 0x100_0000,
        e > 0 ==> m >= 0x80_0000,
        e <= 253,
    ensures
        e < 126 ==> ((m * power2::pow2(e)) % (power2::pow2(149) as int) == 0 <==> m == 0),
        149 <= e ==> (m * power2::pow2(e)) % (power2::pow2(149) as int) == 0,
        e < 149 ==> ((m * power2::pow2(e)) % (power2::pow2(149) as int) == 0 <==> m % (power2::pow2(
            (149 - e) as nat,
        ) as int) == 0),
{
    lemma_whole(m, e);
    let big = power2::pow2(149) as int;
    let p = power2::pow2(e) as int;
    power2::lemma_pow2_pos(149);
    power2::lemma_pow2_pos(e);
    div_mod::lemma_fundamental_div_mod(m * p, big);
    if e < 149 {
        let d = power2::pow2((149 - e) as nat) as int;
        power2::lemma_pow2_pos((149 - e) as nat);
        power2::lemma_pow2_adds((149 - e) as nat, e);
        div_mod::lemma_fundamental_div_mod(m, d);
        let q = m / d;
        let rest = m % d;
        assert(m * p == (d * p) * q + rest * p) by (nonlinear_arith)
            requires
                m == d * q + rest,
        ;
        assert(rest * p == 0 <==> rest == 0) by (nonlinear_arith)
            requires
                p > 0,
        ;
        assert(m * p == 0 <==> m == 0) by (nonlinear_arith)
            requires
                p > 0,
        ;
        if e < 126 {
            assert(big * 0 == 0);
        }
    } else {
        let d = power2::pow2((e - 149) as nat) as int;
        power2::lemma_pow2_adds((e - 149) as nat, 149);
        assert(m * (d * big) == big * (m * d)) by (nonlinear_arith);
    }
}

proof fn lemma_whole(m: int, e: nat)
    requires
        0 <= m < 0x100_0000,
        e > 0 ==> m >= 0x80_0000,
        e <= 253,
    ensures
        e < 126 ==> (m * power2::pow2(e)) / (power2::pow2(149) as int) == 0,
        e >= 157 ==> (m * power2::pow2(e)) / (power2::pow2(149) as int) >= 0x8000_0000,
        149 <= e ==> (m * power2::pow2(e)) / (power2::pow2(149) as int) == m * power2::pow2((e - 149) as nat),
        e < 149 ==> (m * power2::pow2(e)) / (power2::pow2(149) as int) == m / (power2::pow2((149 - e) as nat) as int),
{
    power2::lemma2_to64();
    power2::lemma_pow2_pos(149);
    power2::lemma_pow2_pos(e);
    let big = power2::pow2(149) as int;
    if e < 149 {
        power2::lemma_pow2_adds((149 - e) as nat, e);
        power2::lemma_pow2_pos((149 - e) as nat);
        let d = power2::pow2((149 - e) as nat) as int;
        let p = power2::pow2(e) as int;
        div_mod::lemma_div_denominator(m * p, p, d);
        div_mod::lemma_div_by_multiple(m, p);
        assert(p * d == d * p) by (nonlinear_arith);
        assert((m * p) / big == ((m * p) / p) / d);
        if e < 126 {
            if e < 125 {
                power2::lemma_pow2_strictly_increases(24, (149 - e) as nat);
            }
            lemma_two_127();
            assert(m / d == 0) by (nonlinear_arith)
                requires
                    0 <= m < d,
            ;
        }
    } else {
        power2::lemma_pow2_adds((e - 149) as nat, 149);
        let d = power2::pow2((e - 149) as nat) as int;
        assert(m * (d * big) == (m * d) * big) by (nonlinear_arith);
        div_mod::lemma_div_by_multiple(m * d, big);
        if e >= 157 {
            if e > 157 {
                power2::lemma_pow2_strictly_increases(8, (e - 149) as nat);
            }
            assert(m * d >= 0x8000_0000) by (nonlinear_arith)
                requires
                    m >= 0x80_0000,
                    d >= 0x100,
            ;
        }
    }
}

proof fn lemma_spacing(n: int)
    requires
        0 <= n,
    ensures
        spacing(n) >= 1,
        n < 0x100_0000 ==> spacing(n) == 1,
    decreases n,
{
    if n >= 0x100_0000 {
        lemma_spacing(n / 2);
    }
}

/// A quotient by a power of two, taken one halving at a time.
proof fn lemma_spacing_chain(n: int, e: nat, q: int)
    requires
        0x100_0000 <= n,
        q == n / power2::pow2(e) as int,
        0x80_0000 <= q < 0x100_0000,
    ensures
        spacing(n) == power2::pow2(e),
    decreases e,
{
    power2::lemma2_to64();
    if e == 0 {
        assert(n / 1 == n);
    } else {
        power2::lemma_pow2_unfold(e);
        power2::lemma_pow2_pos((e - 1) as nat);
        let half = power2::pow2((e - 1) as nat) as int;
        div_mod::lemma_div_denominator(n, 2, half);
        if n / 2 < 0x100_0000 {
            lemma_spacing(n / 2);
            if e > 1 {
                power2::lemma_pow2_unfold((e - 1) as nat);
                power2::lemma_pow2_pos((e - 2) as nat);
                assert((n / 2) / half <= (n / 2) / 2) by {
                    div_mod::lemma_div_is_ordered_by_denominator(n / 2, 2, half);
                }
                assert(false);
            }
        } else {
            lemma_spacing_chain(n / 2, (e - 1) as nat, q);
        }
    }
}

proof fn lemma_pattern(q: int, e: int, r: Scalar)
    requires
        0x80_0000 <= q < 0x100_0000,
        1 <= e <= 254,
        r.bits == e * 0x80_0000 + (q - 0x80_0000),
    ensures
        r.exponent() == e,
        r.fraction() == q - 0x80_0000,
        !r.negative(),
        r.finite(),
        r.magnitude() == q * power2::pow2((e - 1) as nat),
{
}

/// The number nearest to a natural number of at most 63 bits.
fn from_size(size: u64) -> (r: Scalar)
    requires
        size <= 0x8000_0000_0000_0000,
    ensures
        r.finite(),
        !r.negative(),
        r.bits < 0x8000_0000,
        r.magnitude() == nearest_even(size as int, spacing(size as int)) * power2::pow2(149),
{
    proof {
        power2::lemma2_to64();
        lemma_spacing(size as int);
    }
    if size == 0 {
        proof {
            assert(nearest_even(0, 1) == 0);
            assert(0 * power2::pow2(149) == 0) by (nonlinear_arith);
        }
        return Scalar { bits: 0 };
    }
    if size < 0x100_0000 {
        let mut q: u64 = size;
        let mut shift: u32 = 0;
        while q < 0x80_0000
            invariant
                0 < size < 0x100_0000,
                0 < q < 0x100_0000,
                shift <= 23,
                q == size * power2::pow2(shift as nat),
                shift == 23 ==> q >= 0x80_0000,
            decreases 23 - shift,
        {
            proof {
                power2::lemma_pow2_unfold((shift + 1) as nat);
                assert(size * (2 * power2::pow2(shift as nat)) == 2 * (size * power2::pow2(shift as nat)))
                    by (nonlinear_arith);
                if shift + 1 == 23 {
                    power2::lemma2_to64();
                    assert(size * 0x80_0000 >= 0x80_0000) by (nonlinear_arith)
                        requires
                            size >= 1,
                    ;
                }
            }
            q = q * 2;
            shift = shift + 1;
        }
        let r = Scalar { bits: (150 - shift) * 0x80_0000 + (q as u32 - 0x80_0000) };
        proof {
            lemma_pattern(q as int, 150 - shift, r);
            power2::lemma_pow2_adds(shift as nat, (149 - shift) as nat);
            assert((size * power2::pow2(shift as nat)) * power2::pow2((149 - shift) as nat) == size * (power2::pow2(
                shift as nat,
            ) * power2::pow2((149 - shift) as nat))) by (nonlinear_arith);
            assert(nearest_even(size as int, 1) == size);
        }
        return r;
    }
    let mut e: u32 = 0;
    let mut step: u64 = 1;
    while size / step >= 0x100_0000
        invariant
            0x100_0000 <= size <= 0x8000_0000_0000_0000,
            step == power2::pow2(e as nat),
            step >= 1,
            e <= 40,
            size / step >= 0x80_0000,
            e == 40 ==> step == 0x100_0000_0000,
        decreases 41 - e,
    {
        proof {
            power2::lemma2_to64();
            lemma_two_40();
            power2::lemma_pow2_unfold((e + 1) as nat);
            if e == 40 {
                assert(size / 0x100_0000_0000 <= 0x80_0000);
            }
            div_mod::lemma_div_denominator(size as int, step as int, 2);
            assert(step * 2 == 2 * step);
            if e + 1 < 40 {
                power2::lemma_pow2_strictly_increases((e + 1) as nat, 40);
            }
        }
        step = step * 2;
        e = e + 1;
    }
    let q: u64 = size / step;
    let rest: u64 = size % step;
    proof {
        lemma_spacing_chain(size as int, e as nat, q as int);
        lemma_two_40();
        if e < 40 {
            power2::lemma_pow2_strictly_increases(e as nat, 40);
        }
    }
    let up: u64 = if 2 * rest < step || (2 * rest == step && q % 2 == 0) {
        q
    } else {
        q + 1
    };
    proof {
        power2::lemma_pow2_adds(e as nat, 149);
        assert((up * step) * power2::pow2(149) == up * (step * power2::pow2(149))) by (nonlinear_arith);
    }
    if up < 0x100_0000 {
        let r = Scalar { bits: (150 + e) * 0x80_0000 + (up as u32 - 0x80_0000) };
        proof {
            lemma_pattern(up as int, 150 + e, r);
        }
        r
    } else {
        let r = Scalar { bits: (151 + e) * 0x80_0000 };
        proof {
            lemma_pattern(0x80_0000, 151 + e, r);
            power2::lemma_pow2_unfold((150 + e) as nat);
            assert(0x80_0000 * (2 * power2::pow2((149 + e) as nat)) == 0x100_0000 * power2::pow2((149 + e) as nat))
                by (nonlinear_arith);
        }
        r
    }
}

/// The size of the difference of two finite numbers.
spec fn apart(x: int, y: int, same_sign: bool) -> int {
    if !same_sign {
        x + y
    } else if x >= y {
        x - y
    } else {
        y - x
    }
}

proof fn lemma_units_apart(a: Scalar, b: Scalar)
    requires
        a.finite(),
        b.finite(),
    ensures
        close_scalar(a, b) <==> apart(
            a.magnitude(),
            b.magnitude(),
            a.negative() == b.negative(),
        ) <= close_limit(),
{
    lemma_magnitude_sign(a);
    lemma_magnitude_sign(b);
}

proof fn lemma_magnitude_sign(s: Scalar)
    ensures
        s.magnitude() >= 0,
{
    if s.exponent() > 0 {
        power2::lemma_pow2_pos((s.exponent() - 1) as nat);
        assert((0x80_0000 + s.fraction()) * power2::pow2((s.exponent() - 1) as nat) >= 0) by (nonlinear_arith)
            requires
                s.fraction() >= 0,
                power2::pow2((s.exponent() - 1) as nat) > 0,
        ;
    }
}

proof fn lemma_pow2_order(a: nat, b: nat)
    requires
        a <= b,
    ensures
        0 < power2::pow2(a) <= power2::pow2(b),
{
    power2::lemma_pow2_pos(a);
    if a < b {
        power2::lemma_pow2_strictly_increases(a, b);
    }
}

/// `m * 2^e` as a multiple of a smaller power of two.
proof fn lemma_rescale(m: int, e: nat, k: nat)
    requires
        k <= e,
    ensures
        m * power2::pow2(e) == (m * power2::pow2((e - k) as nat)) * power2::pow2(k),
{
    power2::lemma_pow2_adds((e - k) as nat, k);
    assert(m * (power2::pow2((e - k) as nat) * power2::pow2(k)) == (m * power2::pow2((e - k) as nat)) * power2::pow2(
        k,
    )) by (nonlinear_arith);
}

/// Whether two sizes, given by their parts with the larger exponent first, are close.
fn close_parts(m1: u64, e1: u32, m2: u64, e2: u32, same_sign: bool) -> (r: bool)
    requires
        m1 < 0x100_0000,
        m2 < 0x100_0000,
        e2 <= e1 <= 253,
        e1 > 0 ==> m1 >= 0x80_0000,
        e2 > 0 ==> m2 >= 0x80_0000,
    ensures
        r == (apart(
            m1 * power2::pow2(e1 as nat),
            m2 * power2::pow2(e2 as nat),
            same_sign,
        ) <= close_limit()),
{
    let ghost a = m1 * power2::pow2(e1 as nat);
    let ghost b = m2 * power2::pow2(e2 as nat);
    proof {
        power2::lemma2_to64();
        lemma_two_40();
        lemma_close_limit();
        lemma_scaled_bound(m1 as int, e1 as nat, e1 as nat);
        lemma_scaled_bound(m2 as int, e2 as nat, e2 as nat);
        power2::lemma_pow2_pos(e1 as nat);
        power2::lemma_pow2_pos(e2 as nat);
        assert(a >= 0) by (nonlinear_arith)
            requires
                a == m1 * power2::pow2(e1 as nat),
                m1 >= 0,
                power2::pow2(e1 as nat) > 0,
        ;
        assert(b >= 0) by (nonlinear_arith)
            requires
                b == m2 * power2::pow2(e2 as nat),
                m2 >= 0,
                power2::pow2(e2 as nat) > 0,
        ;
    }
    if e1 >= 142 {
        proof {
            lemma_close_far(m1 as int, e1 as nat, m2 as int, e2 as nat, same_sign);
        }
        return same_sign && e1 == e2 && m1 == m2;
    }
    if e1 <= 90 {
        proof {
            lemma_pow2_order((e1 + 24) as nat, 114);
            lemma_pow2_order((e2 + 24) as nat, 114);
            power2::lemma_pow2_unfold(115);
        }
        return true;
    }
    if e2 <= 66 {
        proof {
            lemma_pow2_order((e1 - 91) as nat, 50);
            lemma_rescale(m1 as int, e1 as nat, 91);
            lemma_rescale(0x106_24DD, 115, 91);
            lemma_pow2_order((e2 + 24) as nat, 91);
            power2::lemma_pow2_pos((e1 - 91) as nat);
            power2::lemma_pow2_pos(91);
        }
        let f: u128 = two_to(e1 - 91);
        proof {
            assert(m1 * f <= 0x100_0000 * 0x4_0000_0000_0000) by (nonlinear_arith)
                requires
                    m1 <= 0x100_0000,
                    f <= 0x4_0000_0000_0000,
            ;
        }
        let x: u128 = m1 as u128 * f;
        let limit: u128 = 0x106_24DD * 0x100_0000;
        proof {
            let p = power2::pow2(91) as int;
            assert(a == x * p);
            assert(close_limit() == limit * p);
            if x < limit {
                assert(x * p + p <= limit * p) by (nonlinear_arith)
                    requires
                        x + 1 <= limit,
                        p > 0,
                ;
            } else {
                lemma_limit_is_no_number(m1 as int, (e1 - 91) as nat);
                assert(x * p >= limit * p + p) by (nonlinear_arith)
                    requires
                        x >= limit + 1,
                        p > 0,
                ;
            }
        }
        return x < limit;
    }
    proof {
        lemma_rescale(m1 as int, e1 as nat, 67);
        lemma_rescale(m2 as int, e2 as nat, 67);
        lemma_rescale(0x106_24DD, 115, 67);
        power2::lemma_pow2_pos(67);
        lemma_two_127();
        lemma_scaled_bound(m1 as int, (e1 - 67) as nat, 74);
        lemma_scaled_bound(m2 as int, (e2 - 67) as nat, 74);
        lemma_pow2_order(98, 126);
    }
    let f1: u128 = two_to(e1 - 67);
    let f2: u128 = two_to(e2 - 67);
    let x: u128 = m1 as u128 * f1;
    let y: u128 = m2 as u128 * f2;
    let limit: u128 = 0x106_24DD * 0x1_0000_0000_0000;
    proof {
        let p = power2::pow2(67) as int;
        assert(a == x * p);
        assert(b == y * p);
        assert(close_limit() == limit * p);
        assert((x + y) * p == x * p + y * p) by (nonlinear_arith);
        assert((x - y) * p == x * p - y * p) by (nonlinear_arith);
        assert((y - x) * p == y * p - x * p) by (nonlinear_arith);
        assert(x >= y <==> x * p >= y * p) by (nonlinear_arith)
            requires
                p > 0,
        ;
        let d = apart(x as int, y as int, same_sign);
        assert(d * p == apart(a, b, same_sign));
        assert(d <= limit <==> d * p <= limit * p) by (nonlinear_arith)
            requires
                p > 0,
        ;
    }
    if !same_sign {
        x + y <= limit
    } else if x >= y {
        x - y <= limit
    } else {
        y - x <= limit
    }
}

proof fn lemma_close_limit()
    ensures
        power2::pow2(139) < close_limit() < power2::pow2(140),
        power2::pow2(115) <= close_limit(),
{
    power2::lemma2_to64();
    power2::lemma_pow2_pos(115);
    power2::lemma_pow2_adds(24, 115);
    power2::lemma_pow2_adds(25, 115);
    let p = power2::pow2(115) as int;
    assert(0x100_0000 * p < 0x106_24DD * p < 0x200_0000 * p) by (nonlinear_arith)
        requires
            p > 0,
    ;
    assert(p <= 0x106_24DD * p) by (nonlinear_arith)
        requires
            p > 0,
    ;
}

/// The limit has 25 significant bits, so that it is no single.
proof fn lemma_limit_is_no_number(m: int, e: nat)
    requires
        0 <= m < 0x100_0000,
    ensures
        m * power2::pow2(e) != 0x106_24DD * 0x100_0000,
{
    power2::lemma2_to64();
    if e >= 25 {
        power2::lemma_pow2_adds((e - 25) as nat, 25);
        let q = power2::pow2((e - 25) as nat) as int;
        let k = m * q;
        assert(m * (q * 0x200_0000) == k * 0x200_0000) by (nonlinear_arith)
            requires
                k == m * q,
        ;
        assert(k * 0x200_0000 != 0x106_24DD * 0x100_0000);
    } else {
        lemma_scaled_bound(m, e, 24);
        assert(m * power2::pow2(e) <= 0xFF_FFFF * 0x100_0000);
    }
}

proof fn lemma_close_far(m1: int, e1: nat, m2: int, e2: nat, same_sign: bool)
    requires
        0x80_0000 <= m1 < 0x100_0000,
        0 <= m2 < 0x100_0000,
        e2 <= e1,
        e1 >= 142,
    ensures
        apart(m1 * power2::pow2(e1), m2 * power2::pow2(e2), same_sign) <= close_limit() <==> (same_sign
            && e1 == e2 && m1 == m2),
{
    let a = m1 * power2::pow2(e1);
    let b = m2 * power2::pow2(e2);
    lemma_close_limit();
    lemma_scaled_floor(m1, e1, 142);
    lemma_pow2_order(140, 165);
    lemma_pow2_order(140, e1);
    power2::lemma_pow2_pos(e2);
    assert(b >= 0) by (nonlinear_arith)
        requires
            b == m2 * power2::pow2(e2),
            m2 >= 0,
            power2::pow2(e2) > 0,
    ;
    if e1 > e2 {
        lemma_scaled_floor(m1, e1, e1);
        lemma_scaled_bound(m2, e2, (e1 - 1) as nat);
        power2::lemma_pow2_unfold(e1);
        lemma_pow2_order(140, (e1 - 1) as nat);
    } else {
        let p = power2::pow2(e1) as int;
        let d = m1 - m2;
        mul::lemma_mul_is_distributive_sub_other_way(p, m1, m2);
        if d != 0 {
            assert(d * p >= p || d * p <= -p) by (nonlinear_arith)
                requires
                    d != 0,
                    p > 0,
            ;
        } else {
            assert(a - b == 0);
            lemma_pow2_order(139, 140);
        }
    }
}

/// Whether a number is the same as its default, but for less than a thousandth.
pub fn check_float_equal(value: Scalar, default: Scalar) -> (r: bool)
    ensures
        r == close_scalar(value, default),
{
    value.close(&default)
}

/// A whole number of up to 24 bits is the single made of it; of a larger one the single is no further
/// away than half of the distance between neighbouring singles.
pub proof fn small_numbers_are_exact(n: int)
    ensures
        -0x100_0000 < n < 0x100_0000 ==> single_of(n) == n,
        n >= 0 ==> -spacing(n) <= 2 * (single_of(n) - n) <= spacing(n),
        n < 0 ==> -spacing(-n) <= 2 * (single_of(n) - n) <= spacing(-n),
{
    let size = if n < 0 {
        -n
    } else {
        n
    };
    lemma_spacing_positive(size);
    lemma_nearest(size, spacing(size));
    if size < 0x100_0000 {
        lemma_nearest(size, 1);
        assert(spacing(size) == 1);
    }
}

proof fn lemma_spacing_positive(n: int)
    ensures
        spacing(n) > 0,
    decreases n,
{
    if n >= 0x100_0000 {
        lemma_spacing_positive(n / 2);
    }
}

proof fn lemma_nearest(n: int, step: int)
    requires
        step > 0,
    ensures
        -step <= 2 * (nearest_even(n, step) - n) <= step,
        step == 1 ==> nearest_even(n, step) == n,
{
    let q = n / step;
    let r = n % step;
    assert(n == q * step + r && 0 <= r < step) by (nonlinear_arith)
        requires
            step > 0,
            q == n / step,
            r == n % step,
    ;
    assert((q + 1) * step == q * step + step) by (nonlinear_arith);
}

/// What a single made of a whole number of up to 24 bits is cut to is the number.
pub proof fn whole_number_comes_back(s: Scalar, n: int)
    requires
        is_single_of(s, n),
        -0x100_0000 < n < 0x100_0000,
    ensures
        truncated(s) == n,
        integral(s),
{
    small_numbers_are_exact(n);
    let one = power2::pow2(149) as int;
    power2::lemma_pow2_pos(149);
    let size = if n < 0 {
        -n
    } else {
        n
    };
    assert(s.magnitude() == size * one) by {
        assert((-n) * one == -(n * one)) by (nonlinear_arith);
    }
    assert((size * one) / one == size && (size * one) % one == 0) by (nonlinear_arith)
        requires
            one > 0,
    ;
}

/// A finite single is cut towards zero, by less than one.
pub proof fn cut_is_towards_zero(s: Scalar)
    requires
        s.finite(),
        s.magnitude() >= 0,
        -0x8000_0000 < truncated(s) < 0x7FFF_FFFF,
    ensures
        s.negative() ==> truncated(s) <= 0,
        !s.negative() ==> truncated(s) >= 0,
        ({
            let size = if truncated(s) < 0 {
                -truncated(s)
            } else {
                truncated(s)
            };
            0 <= s.magnitude() - size * power2::pow2(149) < power2::pow2(149)
        }),
{
    let one = power2::pow2(149) as int;
    power2::lemma_pow2_pos(149);
    let m = s.magnitude();
    assert(m == (m / one) * one + m % one && 0 <= m % one < one && m / one >= 0) by (nonlinear_arith)
        requires
            one > 0,
            m >= 0,
    ;
}

/// Nearness, equality and distance of two numbers do not depend on which comes first.
pub proof fn comparisons_are_symmetric(a: Scalar, b: Scalar)
    ensures
        near_scalar(a, b) == near_scalar(b, a),
        same_scalar(a, b) == same_scalar(b, a),
        close_scalar(a, b) == close_scalar(b, a),
        far_scalar(a, b) == far_scalar(b, a),
        far_scalar(a, b) ==> !near_scalar(a, b),
        !a.nan() ==> same_scalar(a, a),
{
}

} // verus!
