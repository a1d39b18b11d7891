//! Fixed-point quaternions.

use vstd::prelude::*;
use crate::fx::{
    div_trunc, fx_add, fx_add_spec, fx_bounded, fx_mul, fx_mul_spec, fx_sub, fx_sub_spec, iabs,
    isqrt, lemma_fx_mul_comm, lemma_fx_mul_neg, lemma_fx_mul_one, lemma_fx_mul_zero, sqrt_floor,
    tdiv, FX_MAX, FX_ONE,
};
use crate::trig::{cos_fx_spec, sin_cos_fx, sin_fx_spec};
use crate::vec3::{Vec3Fx, V3};

verus! {

/// Mathematical model of a quaternion: four unbounded integers.
pub ghost struct Q4 {
    pub x: int,
    pub y: int,
    pub z: int,
    pub w: int,
}

pub open spec fn q4_bounded(q: Q4) -> bool {
    fx_bounded(q.x) && fx_bounded(q.y) && fx_bounded(q.z) && fx_bounded(q.w)
}

/// The identity rotation.
pub open spec fn q4_identity() -> Q4 {
    Q4 { x: 0, y: 0, z: 0, w: FX_ONE as int }
}

/// Hamilton product in fixed-point arithmetic.
pub open spec fn q4_mul_spec(a: Q4, b: Q4) -> Q4 {
    Q4 {
        x: fx_add_spec(
            fx_add_spec(fx_mul_spec(a.w, b.x), fx_mul_spec(a.x, b.w)),
            fx_sub_spec(fx_mul_spec(a.y, b.z), fx_mul_spec(a.z, b.y)),
        ),
        y: fx_add_spec(
            fx_add_spec(fx_mul_spec(a.w, b.y), fx_mul_spec(a.y, b.w)),
            fx_sub_spec(fx_mul_spec(a.z, b.x), fx_mul_spec(a.x, b.z)),
        ),
        z: fx_add_spec(
            fx_add_spec(fx_mul_spec(a.w, b.z), fx_mul_spec(a.z, b.w)),
            fx_sub_spec(fx_mul_spec(a.x, b.y), fx_mul_spec(a.y, b.x)),
        ),
        w: fx_sub_spec(
            fx_sub_spec(
                fx_sub_spec(fx_mul_spec(a.w, b.w), fx_mul_spec(a.x, b.x)),
                fx_mul_spec(a.y, b.y),
            ),
            fx_mul_spec(a.z, b.z),
        ),
    }
}

pub open spec fn q4_conjugate_spec(q: Q4) -> Q4 {
    Q4 { x: -q.x, y: -q.y, z: -q.z, w: q.w }
}

/// Squared length of the raw components (not rescaled).
pub open spec fn q4_norm2_spec(q: Q4) -> int {
    q.x * q.x + q.y * q.y + q.z * q.z + q.w * q.w
}

/// Scale the components so the length becomes `FX_ONE`; a zero quaternion,
/// which carries no direction, normalizes to the identity.
pub open spec fn q4_normalize_spec(q: Q4) -> Q4 {
    let m = sqrt_floor(q4_norm2_spec(q) as nat) as int;
    if m == 0 {
        q4_identity()
    } else {
        Q4 {
            x: tdiv(q.x * (FX_ONE as int), m),
            y: tdiv(q.y * (FX_ONE as int), m),
            z: tdiv(q.z * (FX_ONE as int), m),
            w: tdiv(q.w * (FX_ONE as int), m),
        }
    }
}

pub open spec fn q4_xyz(q: Q4) -> V3 {
    V3 { x: q.x, y: q.y, z: q.z }
}

/// Elementary rotation about the X axis by a fixed-point radian angle.
pub open spec fn from_rot_x_spec(angle: int) -> Q4 {
    let h = tdiv(angle, 2);
    Q4 { x: sin_fx_spec(h), y: 0, z: 0, w: cos_fx_spec(h) }
}

pub open spec fn from_rot_y_spec(angle: int) -> Q4 {
    let h = tdiv(angle, 2);
    Q4 { x: 0, y: sin_fx_spec(h), z: 0, w: cos_fx_spec(h) }
}

pub open spec fn from_rot_z_spec(angle: int) -> Q4 {
    let h = tdiv(angle, 2);
    Q4 { x: 0, y: 0, z: sin_fx_spec(h), w: cos_fx_spec(h) }
}

/// A quaternion of fixed-point scalars.
#[derive(Clone, Copy, Debug, PartialEq, Eq, Structural)]
pub struct QuatFx {
    pub x: i64,
    pub y: i64,
    pub z: i64,
    pub w: i64,
}

impl View for QuatFx {
    type V = Q4;

    open spec fn view(&self) -> Q4 {
        Q4 { x: self.x as int, y: self.y as int, z: self.z as int, w: self.w as int }
    }
}

impl QuatFx {
    pub open spec fn wf(self) -> bool {
        q4_bounded(self@)
    }

    pub fn identity() -> (r: QuatFx)
        ensures
            r@ == q4_identity(),
            r.wf(),
    {
        QuatFx { x: 0, y: 0, z: 0, w: FX_ONE }
    }

    pub fn new(x: i64, y: i64, z: i64, w: i64) -> (r: QuatFx)
        requires
            fx_bounded(x as int),
            fx_bounded(y as int),
            fx_bounded(z as int),
            fx_bounded(w as int),
        ensures
            r@ == (Q4 { x: x as int, y: y as int, z: z as int, w: w as int }),
            r.wf(),
    {
        QuatFx { x, y, z, w }
    }

    /// Hamilton product `self * other`.
    pub fn mul(self, other: QuatFx) -> (r: QuatFx)
        requires
            self.wf(),
            other.wf(),
        ensures
            r@ == q4_mul_spec(self@, other@),
            r.wf(),
    {
        let a = self;
        let b = other;
        QuatFx {
            x: fx_add(
                fx_add(fx_mul(a.w, b.x), fx_mul(a.x, b.w)),
                fx_sub(fx_mul(a.y, b.z), fx_mul(a.z, b.y)),
            ),
            y: fx_add(
                fx_add(fx_mul(a.w, b.y), fx_mul(a.y, b.w)),
                fx_sub(fx_mul(a.z, b.x), fx_mul(a.x, b.z)),
            ),
            z: fx_add(
                fx_add(fx_mul(a.w, b.z), fx_mul(a.z, b.w)),
                fx_sub(fx_mul(a.x, b.y), fx_mul(a.y, b.x)),
            ),
            w: fx_sub(
                fx_sub(fx_sub(fx_mul(a.w, b.w), fx_mul(a.x, b.x)), fx_mul(a.y, b.y)),
                fx_mul(a.z, b.z),
            ),
        }
    }

    pub fn conjugate(self) -> (r: QuatFx)
        requires
            self.wf(),
        ensures
            r@ == q4_conjugate_spec(self@),
            r.wf(),
    {
        QuatFx { x: -self.x, y: -self.y, z: -self.z, w: self.w }
    }

    pub fn xyz(self) -> (r: Vec3Fx)
        requires
            self.wf(),
        ensures
            r@ == q4_xyz(self@),
            r.wf(),
    {
        Vec3Fx { x: self.x, y: self.y, z: self.z }
    }

    pub fn normalize(self) -> (r: QuatFx)
        requires
            self.wf(),
        ensures
            r@ == q4_normalize_spec(self@),
            r.wf(),
    {
        proof {
            lemma_square_sum_range(self@.x, self@.y, self@.z, self@.w);
        }
        let x2: i128 = (self.x as i128) * (self.x as i128);
        let y2: i128 = (self.y as i128) * (self.y as i128);
        let z2: i128 = (self.z as i128) * (self.z as i128);
        let w2: i128 = (self.w as i128) * (self.w as i128);
        let n2: u128 = (x2 + y2 + z2 + w2) as u128;
        let m: u128 = isqrt(n2);
        if m == 0 {
            QuatFx { x: 0, y: 0, z: 0, w: FX_ONE }
        } else {
            proof {
                lemma_isqrt_dominates(n2 as int, self@.x);
                lemma_isqrt_dominates(n2 as int, self@.y);
                lemma_isqrt_dominates(n2 as int, self@.z);
                lemma_isqrt_dominates(n2 as int, self@.w);
            }
            let mi: i64 = m as i64;
            QuatFx {
                x: Self::scale_component(self.x, mi),
                y: Self::scale_component(self.y, mi),
                z: Self::scale_component(self.z, mi),
                w: Self::scale_component(self.w, mi),
            }
        }
    }

    /// Rotation about the X axis by a fixed-point radian angle.
    pub fn from_rotation_x(angle: i64) -> (r: QuatFx)
        requires
            fx_bounded(angle as int),
        ensures
            r@ == from_rot_x_spec(angle as int),
            r.wf(),
    {
        let h = div_trunc(angle, 2);
        let sc = sin_cos_fx(h);
        QuatFx { x: sc.0, y: 0, z: 0, w: sc.1 }
    }

    /// Rotation about the Y axis by a fixed-point radian angle.
    pub fn from_rotation_y(angle: i64) -> (r: QuatFx)
        requires
            fx_bounded(angle as int),
        ensures
            r@ == from_rot_y_spec(angle as int),
            r.wf(),
    {
        let h = div_trunc(angle, 2);
        let sc = sin_cos_fx(h);
        QuatFx { x: 0, y: sc.0, z: 0, w: sc.1 }
    }

    /// Rotation about the Z axis by a fixed-point radian angle.
    pub fn from_rotation_z(angle: i64) -> (r: QuatFx)
        requires
            fx_bounded(angle as int),
        ensures
            r@ == from_rot_z_spec(angle as int),
            r.wf(),
    {
        let h = div_trunc(angle, 2);
        let sc = sin_cos_fx(h);
        QuatFx { x: 0, y: 0, z: sc.0, w: sc.1 }
    }

    /// One normalized component: `v * FX_ONE / m`, truncating toward zero.
    /// The denominator dominates the numerator's magnitude, so the result
    /// stays within one unit.
    fn scale_component(v: i64, m: i64) -> (r: i64)
        requires
            fx_bounded(v as int),
            0 < m <= 2_000_000_000_000,
            iabs(v as int) <= m as int,
        ensures
            r as int == tdiv(v as int * (FX_ONE as int), m as int),
            iabs(r as int) <= FX_ONE as int,
            fx_bounded(r as int),
    {
        proof {
            assert(iabs(v as int * (FX_ONE as int)) <= 1_000_000_000_000_000_000int)
                by (nonlinear_arith)
                requires
                    -(FX_MAX as int) <= v as int <= FX_MAX as int,
            ;
            assert(iabs(v as int * (FX_ONE as int)) == iabs(v as int) * (FX_ONE as int))
                by (nonlinear_arith);
        }
        let neg: bool = v < 0;
        let ap: u128 = if neg {
            ((-v) as u128) * (FX_ONE as u128)
        } else {
            (v as u128) * (FX_ONE as u128)
        };
        let q: u128 = ap / (m as u128);
        proof {
            assert(ap as int == iabs(v as int * (FX_ONE as int)));
            vstd::arithmetic::mul::lemma_mul_inequality(iabs(v as int), m as int, FX_ONE as int);
            vstd::arithmetic::div_mod::lemma_div_is_ordered(
                iabs(v as int) * (FX_ONE as int),
                (m as int) * (FX_ONE as int),
                m as int,
            );
            vstd::arithmetic::div_mod::lemma_div_multiples_vanish(FX_ONE as int, m as int);
            assert((m as int) * (FX_ONE as int) == (m as int) * (FX_ONE as int));
            assert(((m as int) * (FX_ONE as int)) / (m as int) == FX_ONE as int);
            assert(q as int <= FX_ONE as int);
        }
        let qi: i64 = q as i64;
        if neg {
            -qi
        } else {
            qi
        }
    }
}

proof fn lemma_square_sum_range(x: int, y: int, z: int, w: int)
    requires
        fx_bounded(x),
        fx_bounded(y),
        fx_bounded(z),
        fx_bounded(w),
    ensures
        0 <= q4_norm2_spec(Q4 { x, y, z, w }) <= 4_000_000_000_000_000_000_000_000,
        x * x >= 0,
        y * y >= 0,
        z * z >= 0,
        w * w >= 0,
        x * x <= 1_000_000_000_000_000_000_000_000,
        y * y <= 1_000_000_000_000_000_000_000_000,
        z * z <= 1_000_000_000_000_000_000_000_000,
        w * w <= 1_000_000_000_000_000_000_000_000,
{
    assert forall|a: int|
        fx_bounded(a) implies 0 <= a * a <= 1_000_000_000_000_000_000_000_000 by {
        assert(0 <= a * a <= 1_000_000_000_000_000_000_000_000) by (nonlinear_arith)
            requires
                -1_000_000_000_000 <= a <= 1_000_000_000_000,
        ;
    }
}

/// The integer square root of a sum of squares dominates each summand.
proof fn lemma_isqrt_dominates(n2: int, x: int)
    requires
        0 <= n2,
        x * x <= n2,
    ensures
        iabs(x) <= sqrt_floor(n2 as nat) as int,
{
    crate::fx::lemma_sqrt_floor_bounds(n2 as nat);
    let m = sqrt_floor(n2 as nat) as int;
    if iabs(x) > m {
        assert((m + 1) * (m + 1) <= iabs(x) * iabs(x)) by (nonlinear_arith)
            requires
                0 <= m,
                m + 1 <= iabs(x),
        ;
        assert(iabs(x) * iabs(x) == x * x) by (nonlinear_arith);
        assert(false);
    }
}

/// Multiplying by the identity on either side changes nothing.
pub proof fn lemma_q4_mul_identity(q: Q4)
    requires
        q4_bounded(q),
    ensures
        q4_mul_spec(q, q4_identity()) == q,
        q4_mul_spec(q4_identity(), q) == q,
{
    lemma_fx_mul_one(q.x);
    lemma_fx_mul_one(q.y);
    lemma_fx_mul_one(q.z);
    lemma_fx_mul_one(q.w);
    lemma_fx_mul_zero(q.x);
    lemma_fx_mul_zero(q.y);
    lemma_fx_mul_zero(q.z);
    lemma_fx_mul_zero(q.w);
    assert forall|a: int| fx_bounded(a) implies fx_mul_spec(FX_ONE as int, a) == a by {
        lemma_fx_mul_comm(FX_ONE as int, a);
        lemma_fx_mul_one(a);
    }
}

/// The product of a bounded quaternion with its conjugate has no vector part.
pub proof fn lemma_q4_conj_mul_self(q: Q4)
    requires
        q4_bounded(q),
    ensures
        q4_xyz(q4_mul_spec(q4_conjugate_spec(q), q)) == (V3 { x: 0, y: 0, z: 0 }),
        q4_mul_spec(q4_conjugate_spec(q), q).w == fx_add_spec(
            fx_add_spec(
                fx_add_spec(fx_mul_spec(q.w, q.w), fx_mul_spec(q.x, q.x)),
                fx_mul_spec(q.y, q.y),
            ),
            fx_mul_spec(q.z, q.z),
        ),
{
    let c = q4_conjugate_spec(q);
    assert forall|a: int, b: int| #[trigger] fx_mul_spec(-a, b) == -fx_mul_spec(a, b) by {
        lemma_fx_mul_comm(-a, b);
        lemma_fx_mul_neg(b, a);
        lemma_fx_mul_comm(b, a);
    }
    assert forall|a: int, b: int| #[trigger] fx_mul_spec(a, b) == fx_mul_spec(b, a) by {
        lemma_fx_mul_comm(a, b);
    }
}

} // verus!
