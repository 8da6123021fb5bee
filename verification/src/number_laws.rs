//! What holds of single-precision numbers, by the numbers they encode.

use crate::geometry::{HALF_TURN, LIBASS_FOCAL_PX};
use crate::layers::{ASSUMED_TEXT_HEIGHT, ASSUMED_TEXT_WIDTH};
use crate::run::{HALF, HUNDRED};
use crate::single::{
    law_positive_is_above_zero, law_rank_orders_values, lemma_units_follow_rank, lemma_whole_part,
    Single, ONE, TWO, ZERO,
};
use crate::text::MITER_LIMIT;
use vstd::arithmetic::power2::{lemma2_to64, lemma_pow2_adds, lemma_pow2_pos, pow2};
use vstd::prelude::*;

verus! {

/// The product of two whole numbers, as a real number.
proof fn lemma_real_product(a: nat, b: int)
    ensures
        (a * b) as real == (a as int as real) * (b as real),
    decreases a,
{
    let (x, y) = (a as int as real, b as real);
    if a > 0 {
        lemma_real_product((a - 1) as nat, b);
        assert(a * b == (a - 1) * b + b) by (nonlinear_arith);
        assert(x * y == (x - 1real) * y + y) by (nonlinear_arith);
    } else {
        assert(a * b == 0) by (nonlinear_arith)
            requires
                a == 0,
        ;
        assert(0real * y == 0real) by (nonlinear_arith);
    }
}

proof fn lemma_reduce(n: real, p: real, q: real)
    requires
        p > 0real,
        q > 0real,
    ensures
        (n * p) / (p * q) == n / q,
{
    let (s, d) = ((n * p) / (p * q), n / q);
    assert(p * q > 0real) by (nonlinear_arith)
        requires
            p > 0real,
            q > 0real,
    ;
    lemma_undivided(n * p, p * q);
    lemma_undivided(n, q);
    assert(d * (p * q) == (d * q) * p) by (nonlinear_arith);
    assert(s == d) by (nonlinear_arith)
        requires
            s * (p * q) == d * (p * q),
            p * q > 0real,
    ;
}

pub proof fn lemma_undivided(a: real, k: real)
    by (nonlinear_arith)
    requires
        k > 0real,
    ensures
        (a / k) * k == a,
{
}

/// A normal number up to `2^24` is its significand over a power of two.
pub proof fn lemma_significand(bits: u32, exponent: nat, fraction: nat, scale: int)
    requires
        1 <= exponent <= 150,
        fraction < 0x80_0000,
        bits == exponent * 0x80_0000 + fraction,
        scale == pow2((150 - exponent) as nat),
    ensures
        (Single { bits }).value() == ((0x80_0000 + fraction) as int as real) / (scale as real),
{
    let s = Single { bits };
    let p = pow2((exponent - 1) as nat) as int;
    let n = (0x80_0000 + fraction) as int;
    lemma_pow2_adds((exponent - 1) as nat, (150 - exponent) as nat);
    lemma_pow2_pos((exponent - 1) as nat);
    lemma_pow2_pos((150 - exponent) as nat);
    assert(s.magnitude() / 0x80_0000 == exponent && s.magnitude() % 0x80_0000 == fraction);
    assert(s.units() == n * p);
    lemma_real_product(n as nat, p);
    lemma_real_product(p as nat, scale);
    lemma_reduce(n as real, p as real, scale as real);
}

/// The named bit patterns encode the numbers that they are named after.
pub proof fn law_constants()
    ensures
        (Single { bits: ZERO }).value() == 0real,
        (Single { bits: HALF }).value() == 1real / 2real,
        (Single { bits: ONE }).value() == 1real,
        (Single { bits: ASSUMED_TEXT_HEIGHT }).value() == 3real / 2real,
        (Single { bits: TWO }).value() == 2real,
        (Single { bits: MITER_LIMIT }).value() == 4real,
        (Single { bits: HUNDRED }).value() == 100real,
        (Single { bits: HALF_TURN }).value() == 180real,
        (Single { bits: ASSUMED_TEXT_WIDTH }).value() == 200real,
        (Single { bits: LIBASS_FOCAL_PX }).value() == 625real / 2real,
{
    lemma2_to64();
    law_positive_is_above_zero(Single { bits: ZERO });
    lemma_significand(HALF, 126, 0, 0x1000000);
    lemma_significand(ONE, 127, 0, 0x800000);
    lemma_significand(ASSUMED_TEXT_HEIGHT, 127, 0x40_0000, 0x800000);
    lemma_significand(TWO, 128, 0, 0x400000);
    lemma_significand(MITER_LIMIT, 129, 0, 0x200000);
    lemma_significand(HUNDRED, 133, 0x48_0000, 0x20000);
    lemma_significand(HALF_TURN, 134, 0x34_0000, 0x10000);
    lemma_significand(ASSUMED_TEXT_WIDTH, 134, 0x48_0000, 0x10000);
    lemma_significand(LIBASS_FOCAL_PX, 135, 0x1c_4000, 0x8000);
}

/// The larger of two numbers is one of them, and is below neither; of two equal
/// ones it is the first. Where only one of two patterns is a number, it is that
/// one. Infinity is above every other number, and its negative below.
pub proof fn law_larger(a: Single, b: Single)
    ensures
        a.spec_larger(b) == a || a.spec_larger(b) == b,
        a.finite() && b.finite() ==> a.value() <= a.spec_larger(b).value() && b.value()
            <= a.spec_larger(b).value(),
        a.nan() && !b.nan() ==> a.spec_larger(b) == b,
        b.nan() && !a.nan() ==> a.spec_larger(b) == a,
        !a.nan() || !b.nan() ==> !a.spec_larger(b).nan(),
        a.finite() && b.finite() && a.value() == b.value() ==> a.spec_larger(b) == a,
        a.bits == 0x7f80_0000 ==> a.spec_larger(b) == a,
        b.bits == 0x7f80_0000 ==> a.spec_larger(b) == b,
        a.bits == 0xff80_0000 && !b.nan() ==> a.spec_larger(b) == b,
        b.bits == 0xff80_0000 && !a.nan() ==> a.spec_larger(b) == a,
{
    if a.finite() && b.finite() {
        law_rank_orders_values(a, b);
        law_rank_orders_values(b, a);
    }
}

/// A number held to the unit interval is in it, and is the number itself where
/// that was in it; below it becomes zero, above it one.
pub proof fn law_clamped(a: Single)
    requires
        a.finite(),
    ensures
        ({
            let v = a.value();
            a.spec_clamped_to_unit().value() == if v < 0real {
                0real
            } else if v > 1real {
                1real
            } else {
                v
            }
        }),
        0real <= a.value() <= 1real ==> a.spec_clamped_to_unit() == a,
{
    let (zero, one) = (Single { bits: ZERO }, Single { bits: ONE });
    law_constants();
    law_rank_orders_values(a, zero);
    law_rank_orders_values(zero, a);
    law_rank_orders_values(a, one);
    law_rank_orders_values(one, a);
}

/// What is decided about the patterns that encode no finite number. A NaN is not
/// positive, but not zero either; it is cut to the first pixel, and stays a NaN
/// in the unit interval. Infinity is positive, beyond every pixel and above the
/// unit interval, and its negative is below all of that.
pub proof fn law_patterns_without_a_finite_number(a: Single)
    ensures
        a.nan() <==> a.bits % 0x8000_0000 > 0x7f80_0000,
        a.finite() <==> a.bits % 0x8000_0000 < 0x7f80_0000,
        a.nan() ==> !a.positive() && a.nonzero() && a.pixel() == 0 && a.spec_clamped_to_unit() == a,
        a.bits == 0x7f80_0000 ==> a.positive() && a.nonzero() && a.pixel() == 0xffff_ffff
            && a.spec_clamped_to_unit().value() == 1real,
        a.bits == 0xff80_0000 ==> !a.positive() && a.nonzero() && a.pixel() == 0
            && a.spec_clamped_to_unit().value() == 0real,
{
    law_constants();
    lemma_pow2_pos(149);
    let unit = pow2(149) as int;
    let zero = Single { bits: ZERO };
    if a.bits == 0x7f80_0000 {
        lemma_whole_part(255, 0);
        assert(a.magnitude() == 255 * 0x80_0000 + 0);
    }
    if a.bits == 0xff80_0000 {
        lemma_units_follow_rank(a, zero);
        assert(zero.units() == 0);
        let n = a.units();
        assert(n / unit < 0) by (nonlinear_arith)
            requires
                n < 0,
                unit > 0,
        ;
    }
}

/// A number is cut to the pixel that holds it: the largest whole number not
/// above it, as far as there are such pixels. What is below zero is cut to the
/// first pixel, and what is beyond the last to the last.
pub proof fn law_pixel_holds_the_number(a: Single)
    requires
        a.finite(),
    ensures
        ({
            let (v, p) = (a.value(), a.pixel() as int as real);
            &&& v < 0real ==> a.pixel() == 0
            &&& v >= 0real ==> p <= v
            &&& v >= 0real && a.pixel() < u32::MAX ==> v < p + 1real
        }),
{
    lemma_pow2_pos(149);
    let unit = pow2(149) as int;
    let n = a.units();
    let whole = n / unit;
    vstd::arithmetic::div_mod::lemma_fundamental_div_mod(n, unit);
    vstd::arithmetic::div_mod::lemma_mod_bound(n, unit);
    assert(whole * unit <= n < whole * unit + unit) by (nonlinear_arith)
        requires
            n == unit * whole + n % unit,
            0 <= n % unit < unit,
    ;
    let (n_, u_, w_) = (n as real, unit as real, whole as real);
    lemma_real_product(unit as nat, whole);
    assert((whole * unit) as real == w_ * u_) by (nonlinear_arith)
        requires
            (unit * whole) as real == u_ * w_,
    ;
    assert(w_ <= n_ / u_ && n_ / u_ < w_ + 1real) by (nonlinear_arith)
        requires
            u_ > 0real,
            w_ * u_ <= n_,
            n_ < w_ * u_ + u_,
    ;
    assert(whole < 0 ==> w_ <= -1real);
}

} // verus!
