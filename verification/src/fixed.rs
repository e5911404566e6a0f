//! Fixed-point arithmetic for the simulation.
//!
//! Heights, velocities and accelerations are integers scaled by [`FP_ONE`]:
//! the stored value `1000` stands for the physical quantity `1.0`.  Angles
//! are stored in milliradians, so a full turn is [`TWO_PI_FP`].  Division
//! always rounds toward negative infinity (floor division), which keeps the
//! spec-level arithmetic plain Euclidean division.

use vstd::arithmetic::div_mod::{lemma_div_is_ordered, lemma_div_multiples_vanish};
use vstd::prelude::*;

verus! {

/// The fixed-point scale: this many stored units make one physical unit.
pub const FP_ONE: i64 = 1000;

/// Pi in milliradians, rounded to the nearest integer.
pub const PI_FP: i64 = 3142;

/// A full turn in milliradians: `2 * PI_FP`.
pub const TWO_PI_FP: i64 = 6284;

/// For a non-negative value, floor division by a positive divisor shrinks it;
/// for a non-positive value it grows it.
proof fn lemma_div_stays_on_side(x: int, b: int)
    requires
        0 < b,
    ensures
        0 <= x ==> x / b <= x,
        x <= 0 ==> x <= x / b,
{
    lemma_div_multiples_vanish(x, b);
    assert(b * x == x * b) by (nonlinear_arith);
    if 0 <= x {
        assert(x <= x * b) by (nonlinear_arith)
            requires
                0 <= x && 1 <= b,
        ;
        lemma_div_is_ordered(x, x * b, b);
    } else {
        assert(x * b <= x) by (nonlinear_arith)
            requires
                x <= 0 && 1 <= b,
        ;
        lemma_div_is_ordered(x * b, x, b);
    }
}

/// Floor division of an `i64` by a positive divisor never leaves `i64`.
proof fn lemma_div_floor_in_i64_range(a: int, b: int)
    requires
        0 < b,
        i64::MIN <= a <= i64::MAX,
    ensures
        i64::MIN <= a / b <= i64::MAX,
{
    lemma_div_is_ordered(a, i64::MAX as int, b);
    lemma_div_is_ordered(i64::MIN as int, a, b);
    lemma_div_stays_on_side(i64::MAX as int, b);
    lemma_div_stays_on_side(i64::MIN as int, b);
}

/// Floor division keeps a symmetric bound: if `|a| <= m * b` then
/// `-m <= a / b <= m`.
pub proof fn lemma_div_floor_bound(a: int, b: int, m: int)
    requires
        0 < b,
        0 <= m,
        -(m * b) <= a <= m * b,
    ensures
        -m <= a / b <= m,
{
    lemma_div_is_ordered(a, m * b, b);
    lemma_div_is_ordered(-(m * b), a, b);
    lemma_div_multiples_vanish(m, b);
    lemma_div_multiples_vanish(-m, b);
    assert(b * m == m * b) by (nonlinear_arith);
    assert(b * -m == -(m * b)) by (nonlinear_arith);
}

/// Floor division of `a` by a positive divisor `b`.
///
/// For a positive divisor, Euclidean division (the meaning of `/` on `int`)
/// is exactly floor division, so the result is `a / b` at the spec level.
pub fn div_floor(a: i64, b: i64) -> (r: i64)
    requires
        0 < b,
    ensures
        r == a as int / b as int,
{
    proof {
        lemma_div_floor_in_i64_range(a as int, b as int);
    }
    a.checked_div_euclid(b).unwrap()
}

/// The clamp of `v` to `[lo, hi]`, as the update rule uses it.
pub open spec fn spec_clamp(v: int, lo: int, hi: int) -> int {
    if v < lo {
        lo
    } else if v > hi {
        hi
    } else {
        v
    }
}

/// Clamps `v` to the interval `[lo, hi]`.
pub fn clamp_i64(v: i64, lo: i64, hi: i64) -> (r: i64)
    requires
        lo <= hi,
    ensures
        r == spec_clamp(v as int, lo as int, hi as int),
{
    if v < lo {
        lo
    } else if v > hi {
        hi
    } else {
        v
    }
}

/// The fixed-point sine on the first half turn `[0, PI_FP]`, scaled by
/// `FP_ONE`: the rational approximation
/// `16 x (PI - x) * FP_ONE / (5 PI^2 - 4 x (PI - x))`,
/// rounded toward negative infinity.
pub open spec fn spec_sin_half(x: int) -> int {
    16 * (x * (PI_FP - x)) * FP_ONE / (5 * PI_FP * PI_FP - 4 * (x * (PI_FP - x)))
}

/// The fixed-point sine on a full turn `[0, TWO_PI_FP)`, scaled by `FP_ONE`:
/// the second half turn mirrors the first with opposite sign.
pub open spec fn spec_sin(x: int) -> int {
    if x < PI_FP {
        spec_sin_half(x)
    } else {
        -spec_sin_half(x - PI_FP)
    }
}

/// On `[0, PI_FP]` the product `x * (PI_FP - x)` peaks at the half-way point.
proof fn lemma_arch_product_bounds(x: int)
    requires
        0 <= x <= PI_FP,
    ensures
        0 <= x * (PI_FP - x) <= 2468041,
{
    assert(0 <= x * (3142 - x) <= 2468041) by (nonlinear_arith)
        requires
            0 <= x <= 3142,
    ;
}

/// The numerator of the half-turn sine never exceeds `FP_ONE` times its
/// denominator, so the quotient stays within `[0, FP_ONE]`.
proof fn lemma_sin_half_bounds(x: int)
    requires
        0 <= x <= PI_FP,
    ensures
        0 <= spec_sin_half(x) <= FP_ONE,
{
    lemma_arch_product_bounds(x);
    let num = 16 * (x * (PI_FP - x)) * FP_ONE;
    let den = 5 * PI_FP * PI_FP - 4 * (x * (PI_FP - x));
    assert(16 * (x * (3142 - x)) * 1000 == 16000 * (x * (3142 - x))) by (nonlinear_arith);
    assert(0 <= num);
    assert(num <= 1000 * den);
    assert(0 < den);
    lemma_div_is_ordered(0, num, den);
    lemma_div_is_ordered(num, 1000 * den, den);
    lemma_div_multiples_vanish(1000, den);
    assert(den * 1000 == 1000 * den) by (nonlinear_arith);
}

/// The full-turn sine stays within `[-FP_ONE, FP_ONE]`.
pub proof fn lemma_sin_bounds(x: int)
    requires
        0 <= x < TWO_PI_FP,
    ensures
        -FP_ONE <= spec_sin(x) <= FP_ONE,
{
    if x < PI_FP {
        lemma_sin_half_bounds(x);
    } else {
        lemma_sin_half_bounds(x - PI_FP);
    }
}

/// The fixed-point sine on the first half turn.
fn sin_half_fp(x: i64) -> (r: i64)
    requires
        0 <= x <= PI_FP,
    ensures
        r == spec_sin_half(x as int),
{
    proof {
        lemma_arch_product_bounds(x as int);
    }
    let t: i64 = x * (PI_FP - x);
    let num: i64 = 16 * t * FP_ONE;
    let den: i64 = 5 * PI_FP * PI_FP - 4 * t;
    proof {
        assert(16 * (x as int * (PI_FP - x as int)) * FP_ONE == 16 * (x as int * (PI_FP
            - x as int)) * 1000) by (nonlinear_arith);
        assert(16 * (t as int) * 1000 == 16 * (t as int) * FP_ONE) by (nonlinear_arith);
    }
    div_floor(num, den)
}

/// The fixed-point sine of an angle in `[0, TWO_PI_FP)` milliradians,
/// scaled by `FP_ONE`.
pub fn sin_fp(x: i64) -> (r: i64)
    requires
        0 <= x < TWO_PI_FP,
    ensures
        r == spec_sin(x as int),
        -FP_ONE <= r <= FP_ONE,
{
    proof {
        lemma_sin_bounds(x as int);
    }
    if x < PI_FP {
        sin_half_fp(x)
    } else {
        let r = sin_half_fp(x - PI_FP);
        -r
    }
}

} // verus!
