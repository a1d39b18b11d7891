//! Saturating fixed-point scalars.
//!
//! A scalar is an `i64` holding `value * FX_ONE`. Multiplication and
//! division rescale by `FX_ONE` and truncate toward zero, as the hardware
//! does; every operation saturates at `FX_MAX`, so no arithmetic here can
//! overflow or panic.

use vstd::prelude::*;

verus! {

/// Number of fixed-point units in 1.0.
pub const FX_ONE: i64 = 1_000_000;

/// Largest magnitude a fixed-point value may take; arithmetic saturates here.
pub const FX_MAX: i64 = 1_000_000_000_000;

pub open spec fn iabs(a: int) -> int {
    if a >= 0 {
        a
    } else {
        -a
    }
}

pub open spec fn fx_bounded(a: int) -> bool {
    -(FX_MAX as int) <= a && a <= FX_MAX as int
}

/// Saturate to the representable fixed-point range.
pub open spec fn sat_fx(v: int) -> int {
    if v > FX_MAX as int {
        FX_MAX as int
    } else if v < -(FX_MAX as int) {
        -(FX_MAX as int)
    } else {
        v
    }
}

/// Division truncating toward zero, for `b != 0`.
pub open spec fn tdiv(a: int, b: int) -> int {
    if (a >= 0) == (b >= 0) {
        iabs(a) / iabs(b)
    } else {
        -(iabs(a) / iabs(b))
    }
}

pub open spec fn fx_add_spec(a: int, b: int) -> int {
    sat_fx(a + b)
}

pub open spec fn fx_sub_spec(a: int, b: int) -> int {
    sat_fx(a - b)
}

pub open spec fn fx_mul_spec(a: int, b: int) -> int {
    sat_fx(tdiv(a * b, FX_ONE as int))
}

pub open spec fn fx_div_spec(a: int, b: int) -> int {
    sat_fx(tdiv(a * (FX_ONE as int), b))
}

pub fn fx_add(a: i64, b: i64) -> (r: i64)
    requires
        fx_bounded(a as int),
        fx_bounded(b as int),
    ensures
        r as int == fx_add_spec(a as int, b as int),
        fx_bounded(r as int),
{
    let s: i64 = a + b;
    if s > FX_MAX {
        FX_MAX
    } else if s < -FX_MAX {
        -FX_MAX
    } else {
        s
    }
}

pub fn fx_sub(a: i64, b: i64) -> (r: i64)
    requires
        fx_bounded(a as int),
        fx_bounded(b as int),
    ensures
        r as int == fx_sub_spec(a as int, b as int),
        fx_bounded(r as int),
{
    let s: i64 = a - b;
    if s > FX_MAX {
        FX_MAX
    } else if s < -FX_MAX {
        -FX_MAX
    } else {
        s
    }
}

proof fn lemma_mul_range(a: int, b: int, m: int, n: int)
    requires
        -m <= a <= m,
        -n <= b <= n,
        0 <= m,
        0 <= n,
    ensures
        -(m * n) <= a * b <= m * n,
        iabs(a * b) <= m * n,
{
    assert(-(m * n) <= a * b <= m * n) by (nonlinear_arith)
        requires
            -m <= a <= m,
            -n <= b <= n,
            0 <= m,
            0 <= n,
    ;
}

/// `tdiv` is odd in its first argument.
pub proof fn lemma_tdiv_neg(a: int, b: int)
    requires
        b != 0,
    ensures
        tdiv(-a, b) == -tdiv(a, b),
{
    assert(iabs(-a) == iabs(a));
    if a == 0 {
        vstd::arithmetic::div_mod::lemma_div_of0(iabs(b));
    }
}

pub fn fx_mul(a: i64, b: i64) -> (r: i64)
    requires
        fx_bounded(a as int),
        fx_bounded(b as int),
    ensures
        r as int == fx_mul_spec(a as int, b as int),
        fx_bounded(r as int),
{
    proof {
        lemma_mul_range(a as int, b as int, FX_MAX as int, FX_MAX as int);
    }
    let p: i128 = (a as i128) * (b as i128);
    let neg: bool = p < 0;
    let ap: u128 = if neg {
        (-p) as u128
    } else {
        p as u128
    };
    let q: u128 = ap / (FX_ONE as u128);
    proof {
        assert(ap as int == iabs(a as int * b as int));
        assert(q as int == iabs(a as int * b as int) / (FX_ONE as int));
        vstd::arithmetic::div_mod::lemma_div_is_ordered(
            iabs(a as int * b as int),
            1_000_000_000_000_000_000_000_000int,
            FX_ONE as int,
        );
        vstd::arithmetic::div_mod::lemma_div_multiples_vanish(
            1_000_000_000_000_000_000int,
            FX_ONE as int,
        );
        assert(1_000_000_000_000_000_000int * (FX_ONE as int)
            == 1_000_000_000_000_000_000_000_000int) by (nonlinear_arith);
    }
    let qi: i64 = q as i64;
    let signed: i64 = if neg {
        -qi
    } else {
        qi
    };
    if signed > FX_MAX {
        FX_MAX
    } else if signed < -FX_MAX {
        -FX_MAX
    } else {
        signed
    }
}

pub fn fx_div(a: i64, b: i64) -> (r: i64)
    requires
        fx_bounded(a as int),
        fx_bounded(b as int),
        b != 0,
    ensures
        r as int == fx_div_spec(a as int, b as int),
        fx_bounded(r as int),
{
    proof {
        lemma_mul_range(a as int, FX_ONE as int, FX_MAX as int, FX_ONE as int);
    }
    let p: i128 = (a as i128) * (FX_ONE as i128);
    let num_neg: bool = p < 0;
    let ap: u128 = if num_neg {
        (-p) as u128
    } else {
        p as u128
    };
    let den_neg: bool = b < 0;
    let bp: u128 = if den_neg {
        (-(b as i128)) as u128
    } else {
        b as u128
    };
    let q: u128 = ap / bp;
    proof {
        assert(ap as int == iabs(a as int * (FX_ONE as int)));
        assert(bp as int == iabs(b as int));
        assert(q as int == iabs(a as int * (FX_ONE as int)) / iabs(b as int));
        vstd::arithmetic::div_mod::lemma_div_is_ordered_by_denominator(
            iabs(a as int * (FX_ONE as int)),
            1int,
            iabs(b as int),
        );
        vstd::arithmetic::div_mod::lemma_div_basics(iabs(a as int * (FX_ONE as int)));
    }
    let qi: i64 = if q > (FX_MAX as u128) {
        FX_MAX
    } else {
        q as i64
    };
    let signed: i64 = if num_neg != den_neg {
        -qi
    } else {
        qi
    };
    if signed > FX_MAX {
        FX_MAX
    } else if signed < -FX_MAX {
        -FX_MAX
    } else {
        signed
    }
}

/// Plain truncating division by a small positive constant.
pub fn div_trunc(a: i64, b: i64) -> (r: i64)
    requires
        fx_bounded(a as int),
        b > 0,
    ensures
        r as int == tdiv(a as int, b as int),
        iabs(r as int) <= iabs(a as int),
{
    let neg: bool = a < 0;
    let ap: u64 = if neg {
        (-a) as u64
    } else {
        a as u64
    };
    let q: u64 = ap / (b as u64);
    proof {
        assert(ap as int == iabs(a as int));
        assert(iabs(b as int) == b as int);
        vstd::arithmetic::div_mod::lemma_div_is_ordered_by_denominator(
            iabs(a as int),
            1int,
            b as int,
        );
        vstd::arithmetic::div_mod::lemma_div_basics(iabs(a as int));
    }
    if neg {
        -(q as i64)
    } else {
        q as i64
    }
}

/// Multiplying by zero gives exactly zero.
pub proof fn lemma_fx_mul_zero(a: int)
    ensures
        fx_mul_spec(a, 0) == 0,
        fx_mul_spec(0, a) == 0,
{
    assert(a * 0 == 0) by (nonlinear_arith);
    assert(0 * a == 0) by (nonlinear_arith);
    assert(iabs(0int) == 0);
    vstd::arithmetic::div_mod::lemma_div_of0(FX_ONE as int);
}

/// Fixed-point multiplication is commutative.
pub proof fn lemma_fx_mul_comm(a: int, b: int)
    ensures
        fx_mul_spec(a, b) == fx_mul_spec(b, a),
{
    assert(a * b == b * a) by (nonlinear_arith);
}

/// Negating one factor negates the product exactly.
pub proof fn lemma_fx_mul_neg(a: int, b: int)
    ensures
        fx_mul_spec(a, -b) == -fx_mul_spec(a, b),
{
    assert(a * (-b) == -(a * b)) by (nonlinear_arith);
    lemma_tdiv_neg(a * b, FX_ONE as int);
    assert(tdiv(a * (-b), FX_ONE as int) == -tdiv(a * b, FX_ONE as int));
}

/// Multiplying a bounded value by `FX_ONE` gives the value back exactly.
pub proof fn lemma_fx_mul_one(a: int)
    requires
        fx_bounded(a),
    ensures
        fx_mul_spec(a, FX_ONE as int) == a,
{
    assert(iabs(a * (FX_ONE as int)) == iabs(a) * (FX_ONE as int)) by (nonlinear_arith);
    vstd::arithmetic::div_mod::lemma_div_multiples_vanish(iabs(a), FX_ONE as int);
    assert((iabs(a) * (FX_ONE as int)) / (FX_ONE as int) == iabs(a));
}

/// A hundredth of a unit: the display granularity.
pub const FX_HUNDREDTH: i64 = 10_000;

/// Round to the nearest hundredth of a unit, halves away from zero.
pub open spec fn round_hundredths_spec(v: int) -> int {
    let a = iabs(v);
    let q = a / (FX_HUNDREDTH as int);
    let rem = a % (FX_HUNDREDTH as int);
    let mag = if 2 * rem >= FX_HUNDREDTH as int {
        (q + 1) * (FX_HUNDREDTH as int)
    } else {
        q * (FX_HUNDREDTH as int)
    };
    if v < 0 {
        -mag
    } else {
        mag
    }
}

/// Round a fixed-point value to the nearest hundredth of a unit, as the
/// display does; halves round away from zero.
pub fn round_to_hundredths(v: i64) -> (r: i64)
    requires
        fx_bounded(v as int),
    ensures
        r as int == round_hundredths_spec(v as int),
        fx_bounded(r as int),
{
    let neg: bool = v < 0;
    let a: u64 = if neg {
        (-v) as u64
    } else {
        v as u64
    };
    let q: u64 = a / (FX_HUNDREDTH as u64);
    let rem: u64 = a % (FX_HUNDREDTH as u64);
    proof {
        assert(a as int == iabs(v as int));
        vstd::arithmetic::div_mod::lemma_fundamental_div_mod(a as int, FX_HUNDREDTH as int);
        vstd::arithmetic::div_mod::lemma_mod_bound(a as int, FX_HUNDREDTH as int);
        assert(q as int * (FX_HUNDREDTH as int) == a as int - rem as int);
    }
    let mag: u64 = if 2 * rem >= FX_HUNDREDTH as u64 {
        (q + 1) * (FX_HUNDREDTH as u64)
    } else {
        q * (FX_HUNDREDTH as u64)
    };
    if neg {
        -(mag as i64)
    } else {
        mag as i64
    }
}

/// Integer square root, rounded down.
pub open spec fn sqrt_floor(n: nat) -> nat
    decreases n,
{
    if n == 0 {
        0
    } else {
        let r = sqrt_floor((n - 1) as nat);
        if (r + 1) * (r + 1) <= n {
            r + 1
        } else {
            r
        }
    }
}

pub proof fn lemma_sqrt_floor_bounds(n: nat)
    ensures
        (sqrt_floor(n) as int) * (sqrt_floor(n) as int) <= n as int,
        (n as int) < ((sqrt_floor(n) as int) + 1) * ((sqrt_floor(n) as int) + 1),
    decreases n,
{
    if n == 0 {
        assert(sqrt_floor(0) == 0);
    } else {
        lemma_sqrt_floor_bounds((n - 1) as nat);
        let rn = sqrt_floor((n - 1) as nat);
        let r = rn as int;
        let ni = n as int;
        assert(r * r <= ni - 1);
        assert(ni - 1 < (r + 1) * (r + 1));
        assert((r + 1) * (r + 1) >= 0) by (nonlinear_arith)
            requires
                r >= 0,
        ;
        assert(((rn + 1) * (rn + 1)) as int == (r + 1) * (r + 1));
        if (rn + 1) * (rn + 1) <= n {
            assert(sqrt_floor(n) as int == r + 1);
            assert((r + 1) * (r + 1) < (r + 2) * (r + 2)) by (nonlinear_arith)
                requires
                    r >= 0,
            ;
        } else {
            assert(sqrt_floor(n) as int == r);
        }
    }
}

pub proof fn lemma_sqrt_floor_unique(n: nat, r: nat)
    requires
        (r as int) * (r as int) <= n as int,
        (n as int) < ((r as int) + 1) * ((r as int) + 1),
    ensures
        sqrt_floor(n) == r,
{
    lemma_sqrt_floor_bounds(n);
    let s = sqrt_floor(n) as int;
    let ri = r as int;
    if s < ri {
        assert((s + 1) * (s + 1) <= ri * ri) by (nonlinear_arith)
            requires
                0 <= s,
                s + 1 <= ri,
        ;
        assert(false);
    }
    if ri < s {
        assert((ri + 1) * (ri + 1) <= s * s) by (nonlinear_arith)
            requires
                0 <= ri,
                ri + 1 <= s,
        ;
        assert(false);
    }
}

pub fn isqrt(n: u128) -> (r: u128)
    requires
        n <= 4_000_000_000_000_000_000_000_000,
    ensures
        r as nat == sqrt_floor(n as nat),
        r <= 2_000_000_000_000,
{
    let mut lo: u128 = 0;
    let mut hi: u128 = 2_000_000_000_001;
    proof {
        assert(4_000_000_000_000_000_000_000_000int
            < 2_000_000_000_001int * 2_000_000_000_001int) by (nonlinear_arith);
    }
    while lo + 1 < hi
        invariant
            lo < hi <= 2_000_000_000_001,
            (lo as int) * (lo as int) <= n as int,
            (n as int) < (hi as int) * (hi as int),
        decreases hi - lo,
    {
        let mid: u128 = lo + (hi - lo) / 2;
        proof {
            let m = mid as int;
            assert(m * m < 4_100_000_000_000_000_000_000_000int) by (nonlinear_arith)
                requires
                    0 <= m <= 2_000_000_000_001int,
            ;
        }
        let sq: u128 = mid * mid;
        if sq <= n {
            lo = mid;
        } else {
            hi = mid;
        }
    }
    proof {
        lemma_sqrt_floor_unique(n as nat, lo as nat);
        assert((lo as int) * (lo as int) <= 4_000_000_000_000_000_000_000_000int);
        if lo > 2_000_000_000_000 {
            assert((lo as int) * (lo as int) >= 2_000_000_000_001int * 2_000_000_000_001int)
                by (nonlinear_arith)
                requires
                    lo as int >= 2_000_000_000_001int,
            ;
        }
    }
    lo
}

} // verus!
