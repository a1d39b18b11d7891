//! Fixed-point sine and cosine.
//!
//! The argument is reduced to a quarter turn; there the sine comes from a
//! truncated Taylor polynomial clamped to `[0, FX_ONE]`, and the cosine from
//! the integer square root of `FX_ONE^2 - sin^2`. The pair therefore sits on
//! the unit circle up to the square root's rounding, which
//! [`lemma_sincos_pythagorean`] states exactly.

use vstd::prelude::*;
use crate::fx::{
    div_trunc, fx_bounded, fx_mul, fx_mul_spec, iabs, isqrt, lemma_fx_mul_zero,
    lemma_sqrt_floor_bounds, lemma_sqrt_floor_unique, sqrt_floor, tdiv, FX_ONE,
};

verus! {

/// A half turn, in fixed-point radians.
pub const PI_FX: i64 = 3_141_593;

/// A full turn, in fixed-point radians.
pub const TAU_FX: i64 = 6_283_185;

/// A quarter turn, in fixed-point radians.
pub const PI_HALF_FX: i64 = 1_570_796;

/// Sine on a quarter turn, from the Taylor polynomial of degree 7,
/// clamped to `[0, FX_ONE]`.
pub open spec fn sin_core_spec(r: int) -> int {
    let r2 = fx_mul_spec(r, r);
    let r3 = fx_mul_spec(r2, r);
    let r4 = fx_mul_spec(r2, r2);
    let r5 = fx_mul_spec(r4, r);
    let r6 = fx_mul_spec(r4, r2);
    let r7 = fx_mul_spec(r6, r);
    let raw = r - tdiv(r3, 6) + tdiv(r5, 120) - tdiv(r7, 5040);
    if raw < 0 {
        0
    } else if raw > FX_ONE as int {
        FX_ONE as int
    } else {
        raw
    }
}

/// Cosine on a quarter turn: the point on the unit circle above `sin_core_spec`.
pub open spec fn cos_core_spec(r: int) -> int {
    let s = sin_core_spec(r);
    sqrt_floor(((FX_ONE as int) * (FX_ONE as int) - s * s) as nat) as int
}

/// The angle folded into `[0, TAU_FX)`, by magnitude.
pub open spec fn fold_angle_spec(x: int) -> int {
    iabs(x) % (TAU_FX as int)
}

pub open spec fn sin_fx_spec(x: int) -> int {
    let a = fold_angle_spec(x);
    let mag = if a <= PI_HALF_FX as int {
        sin_core_spec(a)
    } else if a <= PI_FX as int {
        sin_core_spec(PI_FX as int - a)
    } else if a <= PI_FX as int + PI_HALF_FX as int {
        -sin_core_spec(a - PI_FX as int)
    } else {
        -sin_core_spec(TAU_FX as int - a)
    };
    if x < 0 {
        -mag
    } else {
        mag
    }
}

pub open spec fn cos_fx_spec(x: int) -> int {
    let a = fold_angle_spec(x);
    if a <= PI_HALF_FX as int {
        cos_core_spec(a)
    } else if a <= PI_FX as int {
        -cos_core_spec(PI_FX as int - a)
    } else if a <= PI_FX as int + PI_HALF_FX as int {
        -cos_core_spec(a - PI_FX as int)
    } else {
        cos_core_spec(TAU_FX as int - a)
    }
}

/// Sine and cosine of a quarter-turn angle, with the unit-circle relation.
fn sin_cos_core(r: i64) -> (sc: (i64, i64))
    requires
        0 <= r <= PI_HALF_FX,
    ensures
        sc.0 as int == sin_core_spec(r as int),
        sc.1 as int == cos_core_spec(r as int),
        0 <= sc.0 <= FX_ONE,
        0 <= sc.1 <= FX_ONE,
{
    let r2 = fx_mul(r, r);
    let r3 = fx_mul(r2, r);
    let r4 = fx_mul(r2, r2);
    let r5 = fx_mul(r4, r);
    let r6 = fx_mul(r4, r2);
    let r7 = fx_mul(r6, r);
    let t3 = div_trunc(r3, 6);
    let t5 = div_trunc(r5, 120);
    let t7 = div_trunc(r7, 5040);
    let raw: i64 = r - t3 + t5 - t7;
    let s: i64 = if raw < 0 {
        0
    } else if raw > FX_ONE {
        FX_ONE
    } else {
        raw
    };
    proof {
        assert((s as int) * (s as int) <= (FX_ONE as int) * (FX_ONE as int)) by (nonlinear_arith)
            requires
                0 <= s as int <= FX_ONE as int,
        ;
    }
    let s2: i64 = s * s;
    let diff: u128 = (FX_ONE as u128) * (FX_ONE as u128) - (s2 as u128);
    let c: u128 = isqrt(diff);
    proof {
        lemma_sqrt_floor_bounds(diff as nat);
        if c > FX_ONE as u128 {
            assert((c as int) * (c as int) > (FX_ONE as int) * (FX_ONE as int))
                by (nonlinear_arith)
                requires
                    c as int >= FX_ONE as int + 1,
                    FX_ONE as int >= 0,
            ;
        }
    }
    (s, c as i64)
}

/// Sine and cosine of any bounded fixed-point angle, by quadrant folding.
pub fn sin_cos_fx(x: i64) -> (sc: (i64, i64))
    requires
        fx_bounded(x as int),
    ensures
        sc.0 as int == sin_fx_spec(x as int),
        sc.1 as int == cos_fx_spec(x as int),
        -FX_ONE <= sc.0 <= FX_ONE,
        -FX_ONE <= sc.1 <= FX_ONE,
{
    let neg: bool = x < 0;
    let a0: u64 = if neg {
        (-x) as u64
    } else {
        x as u64
    };
    let a: u64 = a0 % (TAU_FX as u64);
    proof {
        assert(a0 as int == iabs(x as int));
        assert(a as int == fold_angle_spec(x as int));
    }
    let af: i64 = a as i64;
    let (mag_s, c): (i64, i64) = if af <= PI_HALF_FX {
        let sc = sin_cos_core(af);
        (sc.0, sc.1)
    } else if af <= PI_FX {
        let sc = sin_cos_core(PI_FX - af);
        (sc.0, -sc.1)
    } else if af <= PI_FX + PI_HALF_FX {
        let sc = sin_cos_core(af - PI_FX);
        (-sc.0, -sc.1)
    } else {
        let sc = sin_cos_core(TAU_FX - af);
        (-sc.0, sc.1)
    };
    let s: i64 = if neg {
        -mag_s
    } else {
        mag_s
    };
    (s, c)
}

/// The sine and cosine of any angle lie on the fixed-point unit circle:
/// their squares sum to at most `FX_ONE^2`, and to more than `FX_ONE^2`
/// once the cosine magnitude is raised by one.
pub proof fn lemma_sincos_pythagorean(x: int)
    ensures
        0 <= iabs(sin_fx_spec(x)) <= FX_ONE as int,
        0 <= iabs(cos_fx_spec(x)) <= FX_ONE as int,
        sin_fx_spec(x) * sin_fx_spec(x) + cos_fx_spec(x) * cos_fx_spec(x) <= (FX_ONE as int) * (
        FX_ONE as int),
        (FX_ONE as int) * (FX_ONE as int) < sin_fx_spec(x) * sin_fx_spec(x) + (iabs(
            cos_fx_spec(x),
        ) + 1) * (iabs(cos_fx_spec(x)) + 1),
{
    let a = fold_angle_spec(x);
    let r = if a <= PI_HALF_FX as int {
        a
    } else if a <= PI_FX as int {
        PI_FX as int - a
    } else if a <= PI_FX as int + PI_HALF_FX as int {
        a - PI_FX as int
    } else {
        TAU_FX as int - a
    };
    let s0 = sin_core_spec(r);
    let c0 = cos_core_spec(r);
    let one = FX_ONE as int;
    assert(0 <= s0 <= one);
    assert(s0 * s0 <= one * one) by (nonlinear_arith)
        requires
            0 <= s0 <= one,
    ;
    lemma_sqrt_floor_bounds((one * one - s0 * s0) as nat);
    assert(c0 * c0 <= one * one - s0 * s0);
    assert(one * one - s0 * s0 < (c0 + 1) * (c0 + 1));
    if c0 > one {
        assert(c0 * c0 > one * one) by (nonlinear_arith)
            requires
                c0 >= one + 1,
                one >= 0,
        ;
    }
    let s = sin_fx_spec(x);
    let c = cos_fx_spec(x);
    assert(s == s0 || s == -s0);
    assert(c == c0 || c == -c0);
    assert(s * s == s0 * s0) by (nonlinear_arith)
        requires
            s == s0 || s == -s0,
    ;
    assert(c * c == c0 * c0) by (nonlinear_arith)
        requires
            c == c0 || c == -c0,
    ;
    assert(iabs(s) == s0 && iabs(c) == c0);
}

/// Sine and cosine at zero are exactly 0 and `FX_ONE`.
pub proof fn lemma_sincos_zero()
    ensures
        sin_fx_spec(0) == 0,
        cos_fx_spec(0) == FX_ONE as int,
{
    vstd::arithmetic::div_mod::lemma_small_mod(0nat, TAU_FX as nat);
    assert(fold_angle_spec(0) == 0);
    lemma_sin_core_zero();
    lemma_sqrt_floor_unique(((FX_ONE as int) * (FX_ONE as int)) as nat, FX_ONE as nat);
}

/// The quarter-turn sine of zero is exactly zero.
pub proof fn lemma_sin_core_zero()
    ensures
        sin_core_spec(0) == 0,
{
    lemma_fx_mul_zero(0);
    lemma_fx_mul_zero(fx_mul_spec(0, 0));
    vstd::arithmetic::div_mod::lemma_div_of0(6);
    vstd::arithmetic::div_mod::lemma_div_of0(120);
    vstd::arithmetic::div_mod::lemma_div_of0(5040);
    assert(tdiv(0, 6) == 0);
    assert(tdiv(0, 120) == 0);
    assert(tdiv(0, 5040) == 0);
}

/// Sine is odd and cosine even in the fixed-point encoding.
pub proof fn lemma_sincos_symmetry(x: int)
    ensures
        sin_fx_spec(-x) == -sin_fx_spec(x),
        cos_fx_spec(-x) == cos_fx_spec(x),
{
    assert(iabs(-x) == iabs(x));
    assert(fold_angle_spec(-x) == fold_angle_spec(x));
    if x == 0 {
        lemma_sincos_zero();
    }
}

} // verus!
