//! IEEE 754 single-precision numbers, carried as bit patterns.
//!
//! Every measure that reaches this crate (a font size, a blur radius, a
//! rotation angle) is a single-precision number. The crate never does
//! arithmetic on one, but it does *decide* by them: whether a radius is
//! positive, which of two widths is larger. Those decisions are exact integer
//! questions about the bit pattern, and [`Single`] answers them.

use vstd::arithmetic::power2::{
    lemma2_to64, lemma_pow2_adds, lemma_pow2_pos, lemma_pow2_strictly_increases, pow2,
};
use vstd::prelude::*;

verus! {

/// Bit pattern of `0.0`.
pub const ZERO: u32 = 0;

/// Bit pattern of `1.0`.
pub const ONE: u32 = 0x3f80_0000;

/// Bit pattern of `2.0`.
pub const TWO: u32 = 0x4000_0000;

/// Bit pattern of positive infinity: the largest pattern that is not a NaN.
pub const INFINITY: u32 = 0x7f80_0000;

/// The patterns from here on carry the sign bit.
pub const SIGN: u32 = 0x8000_0000;

/// A single-precision number, by its bit pattern.
#[derive(Clone, Copy, Debug, PartialEq, Eq, Structural)]
pub struct Single {
    /// The IEEE 754 encoding: sign, eight exponent bits, 23 fraction bits.
    pub bits: u32,
}

impl Single {
    /// The pattern without its sign bit.
    pub open spec fn magnitude(self) -> int {
        (self.bits % SIGN) as int
    }

    /// Whether the pattern encodes no number at all.
    pub open spec fn nan(self) -> bool {
        self.magnitude() > INFINITY
    }

    /// Whether the pattern encodes a number other than the infinities.
    pub open spec fn finite(self) -> bool {
        self.magnitude() < INFINITY
    }

    /// Position on the number line: for patterns that are not NaN, one is
    /// below the other exactly when the numbers are. Both zeros are at 0.
    pub open spec fn rank(self) -> int {
        if self.bits < SIGN {
            self.magnitude()
        } else {
            -self.magnitude()
        }
    }

    /// The number in units of `2^-149`, of which every finite single-precision
    /// number is a whole multiple.
    pub open spec fn units(self) -> int {
        if self.bits < SIGN {
            magnitude_units(self.magnitude())
        } else {
            -magnitude_units(self.magnitude())
        }
    }

    /// The number that a finite pattern encodes.
    pub open spec fn value(self) -> real {
        (self.units() as real) / (pow2(149) as int as real)
    }

    /// Wraps a bit pattern.
    #[verifier::allow_in_spec]
    pub fn from_bits(bits: u32) -> Single
        returns
            (Single { bits }),
    {
        Single { bits }
    }

    /// `self > 0.0`: false for both zeros and for NaN.
    pub fn is_positive(self) -> (r: bool)
        ensures
            r == self.positive(),
    {
        0 < self.bits && self.bits <= INFINITY
    }

    /// Whether the number is above zero; no NaN is.
    pub open spec fn positive(self) -> bool {
        !self.nan() && self.rank() > 0
    }

    /// `self != 0.0`: true for NaN, false for both zeros.
    pub fn is_nonzero(self) -> (r: bool)
        ensures
            r == self.nonzero(),
    {
        self.bits % SIGN != 0
    }

    /// Whether the pattern is not one of the two zeros.
    pub open spec fn nonzero(self) -> bool {
        self.rank() != 0
    }

    fn is_nan(self) -> (r: bool)
        ensures
            r == self.nan(),
    {
        self.bits % SIGN > INFINITY
    }

    fn is_below(self, other: Single) -> (r: bool)
        ensures
            r == (self.rank() < other.rank()),
    {
        let a: u32 = self.bits % SIGN;
        let b: u32 = other.bits % SIGN;
        if self.bits < SIGN {
            other.bits < SIGN && a < b
        } else if other.bits < SIGN {
            a != 0 || b != 0
        } else {
            b < a
        }
    }

    /// The larger of two numbers. A NaN gives way to the other operand; of two
    /// equal numbers the first is returned.
    pub fn larger(self, other: Single) -> (r: Single)
        ensures
            r == self.spec_larger(other),
    {
        if self.is_nan() {
            other
        } else if other.is_nan() {
            self
        } else if self.is_below(other) {
            other
        } else {
            self
        }
    }

    /// What [`Single::larger`] returns.
    pub open spec fn spec_larger(self, other: Single) -> Single {
        if self.nan() || (!other.nan() && self.rank() < other.rank()) {
            other
        } else {
            self
        }
    }

    /// The number cut to a whole pixel: its integer part, held to what 32 bits
    /// without a sign can hold. A NaN becomes zero.
    pub fn to_pixel(self) -> (r: u32)
        ensures
            r == self.pixel(),
    {
        if self.bits >= SIGN || self.is_nan() {
            proof {
                let unit = pow2(149) as int;
                lemma_pow2_pos(149);
                if self.magnitude() > 0 {
                    lemma_magnitude_units_increase(0, self.magnitude());
                }
                vstd::arithmetic::div_mod::lemma_div_by_multiple(0, unit);
                if self.bits >= SIGN {
                    vstd::arithmetic::div_mod::lemma_div_is_ordered(self.units(), 0, unit);
                }
            }
            return 0;
        }
        let exponent: u32 = self.bits / 0x80_0000;
        let fraction: u32 = self.bits % 0x80_0000;
        proof {
            lemma_pow2_pos(149);
            lemma_whole_part(exponent as int, fraction as int);
        }
        if exponent < 127 {
            0
        } else if exponent >= 159 {
            u32::MAX
        } else if exponent >= 150 {
            let shift: u64 = (exponent - 150) as u64;
            let mantissa: u64 = 0x80_0000 + fraction as u64;
            proof {
                vstd::bits::lemma_u64_shl_is_mul(mantissa, shift);
            }
            (mantissa << shift) as u32
        } else {
            let shift: u64 = (150 - exponent) as u64;
            let mantissa: u64 = 0x80_0000 + fraction as u64;
            proof {
                vstd::bits::lemma_u64_shr_is_div(mantissa, shift);
            }
            (mantissa >> shift) as u32
        }
    }

    /// What [`Single::to_pixel`] returns.
    pub open spec fn pixel(self) -> u32 {
        let whole = self.units() / pow2(149) as int;
        if self.nan() || whole < 0 {
            0
        } else if whole > u32::MAX {
            u32::MAX
        } else {
            whole as u32
        }
    }

    /// The number held to `0.0 ..= 1.0`. A NaN stays a NaN, and a negative
    /// zero stays what it is.
    pub fn clamped_to_unit(self) -> (r: Single)
        ensures
            r == self.spec_clamped_to_unit(),
    {
        let zero = Single { bits: ZERO };
        let one = Single { bits: ONE };
        if self.is_nan() {
            self
        } else if self.is_below(zero) {
            zero
        } else if one.is_below(self) {
            one
        } else {
            self
        }
    }

    /// What [`Single::clamped_to_unit`] returns.
    pub open spec fn spec_clamped_to_unit(self) -> Single {
        if self.nan() || 0 <= self.rank() <= ONE {
            self
        } else if self.rank() < 0 {
            Single { bits: ZERO }
        } else {
            Single { bits: ONE }
        }
    }
}

/// What a sign-free pattern encodes, in units of `2^-149`: the 23 fraction
/// bits as they stand below the smallest normal number, and from there on the
/// fraction with its implied leading bit, shifted by the exponent.
pub open spec fn magnitude_units(magnitude: int) -> int {
    let exponent = magnitude / 0x80_0000;
    let fraction = magnitude % 0x80_0000;
    if exponent == 0 {
        fraction
    } else {
        (0x80_0000 + fraction) * pow2((exponent - 1) as nat)
    }
}

/// The integer part of the positive number with the given exponent and
/// fraction bits.
pub proof fn lemma_whole_part(exponent: int, fraction: int)
    requires
        0 <= exponent <= 255,
        0 <= fraction < 0x80_0000,
    ensures
        ({
            let whole = magnitude_units(exponent * 0x80_0000 + fraction) / pow2(149) as int;
            &&& exponent < 127 ==> whole == 0
            &&& 127 <= exponent < 150 ==> whole == (0x80_0000 + fraction) / pow2(
                (150 - exponent) as nat,
            ) as int && whole <= u32::MAX
            &&& 150 <= exponent < 159 ==> whole == (0x80_0000 + fraction) * pow2(
                (exponent - 150) as nat,
            ) && whole <= u32::MAX
            &&& 159 <= exponent ==> whole > u32::MAX
        }),
{
    let magnitude = exponent * 0x80_0000 + fraction;
    assert(magnitude / 0x80_0000 == exponent && magnitude % 0x80_0000 == fraction);
    lemma2_to64();
    lemma_pow2_pos(149);
    let unit = pow2(149) as int;
    let m = 0x80_0000 + fraction;
    if exponent < 127 {
        lemma_pow2_adds(24, 125);
        lemma_pow2_pos(125);
        if exponent > 0 {
            let p = pow2((exponent - 1) as nat) as int;
            if exponent < 126 {
                lemma_pow2_strictly_increases((exponent - 1) as nat, 125);
            }
            lemma_pow2_pos((exponent - 1) as nat);
            let q = pow2(125) as int;
            assert(0 <= m * p < 0x100_0000 * q) by (nonlinear_arith)
                requires
                    0 < m < 0x100_0000,
                    0 < p <= q,
            ;
        } else {
            let q = pow2(125) as int;
            assert(fraction < 0x100_0000 * q) by (nonlinear_arith)
                requires
                    fraction < 0x80_0000,
                    q >= 1,
            ;
        }
        let units = magnitude_units(magnitude);
        vstd::arithmetic::div_mod::lemma_basic_div(units, unit);
    } else if exponent < 150 {
        let p = pow2((exponent - 1) as nat) as int;
        let q = pow2((150 - exponent) as nat) as int;
        lemma_pow2_adds((exponent - 1) as nat, (150 - exponent) as nat);
        lemma_pow2_pos((exponent - 1) as nat);
        lemma_pow2_pos((150 - exponent) as nat);
        vstd::arithmetic::div_mod::lemma_div_denominator(m * p, p, q);
        vstd::arithmetic::div_mod::lemma_div_by_multiple(m, p);
        vstd::arithmetic::div_mod::lemma_div_is_ordered_by_denominator(m, 1, q);
    } else {
        let p = pow2((exponent - 150) as nat) as int;
        lemma_pow2_adds((exponent - 150) as nat, 149);
        lemma_pow2_pos((exponent - 150) as nat);
        assert(m * (p * unit) == (m * p) * unit) by (nonlinear_arith);
        vstd::arithmetic::div_mod::lemma_div_by_multiple(m * p, unit);
        if exponent < 159 {
            if exponent < 158 {
                lemma_pow2_strictly_increases((exponent - 150) as nat, 8);
            }
            assert(m * p < 0x1_0000_0000) by (nonlinear_arith)
                requires
                    0 < m < 0x100_0000,
                    0 < p <= 0x100,
            ;
        } else {
            if exponent > 159 {
                lemma_pow2_strictly_increases(9, (exponent - 150) as nat);
            }
            assert(m * p >= 0x1_0000_0000) by (nonlinear_arith)
                requires
                    m >= 0x80_0000,
                    p >= 0x200,
            ;
        }
    }
}

proof fn lemma_magnitude_units_increase(a: int, b: int)
    requires
        0 <= a < b,
    ensures
        0 <= magnitude_units(a) < magnitude_units(b),
{
    let (ea, fa) = (a / 0x80_0000, a % 0x80_0000);
    let (eb, fb) = (b / 0x80_0000, b % 0x80_0000);
    lemma2_to64();
    if eb > 0 {
        let q = pow2((eb - 1) as nat);
        lemma_pow2_pos((eb - 1) as nat);
        if ea == 0 {
            assert((0x80_0000 + fb) * q >= 0x80_0000 + fb) by (nonlinear_arith)
                requires
                    q >= 1,
                    fb >= 0,
            ;
        } else {
            let p = pow2((ea - 1) as nat);
            lemma_pow2_pos((ea - 1) as nat);
            assert((0x80_0000 + fa) * p >= 0) by (nonlinear_arith)
                requires
                    p >= 0,
                    fa >= 0,
            ;
            if ea == eb {
                assert((0x80_0000 + fa) * p < (0x80_0000 + fb) * p) by (nonlinear_arith)
                    requires
                        p > 0,
                        fa < fb,
                ;
            } else {
                let d = (eb - ea) as nat;
                lemma_pow2_adds((ea - 1) as nat, d);
                if d > 1 {
                    lemma_pow2_strictly_increases(1, d);
                }
                assert((0x80_0000 + fa) * p < (0x80_0000 + fb) * (p * pow2(d))) by (nonlinear_arith)
                    requires
                        p > 0,
                        0 <= fa < 0x80_0000,
                        fb >= 0,
                        pow2(d) >= 2,
                ;
            }
        }
    }
}

/// Ranks order finite numbers as their values do, so that comparing ranks is
/// comparing numbers.
pub proof fn law_rank_orders_values(a: Single, b: Single)
    requires
        a.finite(),
        b.finite(),
    ensures
        a.rank() < b.rank() <==> a.value() < b.value(),
        a.rank() == b.rank() <==> a.value() == b.value(),
{
    lemma_units_follow_rank(a, b);
    lemma_units_follow_rank(b, a);
    lemma_pow2_pos(149);
    let scale = pow2(149) as int as real;
    let (x, y) = (a.units(), b.units());
    assert(x < y ==> (x as real) / scale < (y as real) / scale) by (nonlinear_arith)
        requires
            scale > 0real,
    ;
    assert(y < x ==> (y as real) / scale < (x as real) / scale) by (nonlinear_arith)
        requires
            scale > 0real,
    ;
}

/// The patterns of one and two encode one and two.
pub proof fn lemma_one_and_two()
    ensures
        (Single { bits: ONE }).value() == 1real,
        (Single { bits: TWO }).value() == 2real,
{
    let (one, two) = (Single { bits: ONE }, Single { bits: TWO });
    lemma2_to64();
    lemma_pow2_adds(23, 126);
    lemma_pow2_adds(23, 127);
    lemma_pow2_adds(1, 126);
    lemma_pow2_pos(149);
    let unit = pow2(149) as int;
    assert(one.magnitude() / 0x80_0000 == 127);
    assert(two.magnitude() / 0x80_0000 == 128);
    assert(one.units() == unit);
    assert(two.units() == 2 * unit);
    let scale = unit as real;
    assert(two.units() as real == 2real * scale);
    assert(scale / scale == 1real && (2real * scale) / scale == 2real) by (nonlinear_arith)
        requires
            scale > 0real,
    ;
}

pub proof fn lemma_units_follow_rank(a: Single, b: Single)
    ensures
        a.rank() < b.rank() ==> a.units() < b.units(),
        a.rank() == b.rank() ==> a.units() == b.units(),
{
    let (p, q) = (a.magnitude(), b.magnitude());
    if p < q {
        lemma_magnitude_units_increase(p, q);
    }
    if q < p {
        lemma_magnitude_units_increase(q, p);
    }
    if p > 0 {
        lemma_magnitude_units_increase(0, p);
    }
    if q > 0 {
        lemma_magnitude_units_increase(0, q);
    }
}

/// A positive finite number has a value above zero, and no other has.
pub proof fn law_positive_is_above_zero(a: Single)
    requires
        a.finite(),
    ensures
        a.positive() <==> a.value() > 0real,
        a.nonzero() <==> a.value() != 0real,
{
    let zero = Single { bits: ZERO };
    law_rank_orders_values(zero, a);
    law_rank_orders_values(a, zero);
    assert(zero.units() == 0);
    lemma_pow2_pos(149);
    let scale = pow2(149) as int as real;
    assert(0real / scale == 0real) by (nonlinear_arith)
        requires
            scale > 0real,
    ;
}

} // verus!
