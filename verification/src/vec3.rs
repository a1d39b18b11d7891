//! Fixed-point 3D vectors.

use vstd::prelude::*;
use crate::fx::{
    fx_add, fx_add_spec, fx_bounded, fx_div, fx_div_spec, fx_mul, fx_mul_spec, fx_sub,
    fx_sub_spec,
};

verus! {

/// Mathematical model of a vector: three unbounded integers.
pub ghost struct V3 {
    pub x: int,
    pub y: int,
    pub z: int,
}

pub open spec fn v3_bounded(v: V3) -> bool {
    fx_bounded(v.x) && fx_bounded(v.y) && fx_bounded(v.z)
}

pub open spec fn v3_zero() -> V3 {
    V3 { x: 0, y: 0, z: 0 }
}

pub open spec fn v3_add_spec(a: V3, b: V3) -> V3 {
    V3 { x: fx_add_spec(a.x, b.x), y: fx_add_spec(a.y, b.y), z: fx_add_spec(a.z, b.z) }
}

pub open spec fn v3_sub_spec(a: V3, b: V3) -> V3 {
    V3 { x: fx_sub_spec(a.x, b.x), y: fx_sub_spec(a.y, b.y), z: fx_sub_spec(a.z, b.z) }
}

pub open spec fn v3_scale_spec(a: V3, s: int) -> V3 {
    V3 { x: fx_mul_spec(a.x, s), y: fx_mul_spec(a.y, s), z: fx_mul_spec(a.z, s) }
}

pub open spec fn v3_div_spec(a: V3, s: int) -> V3 {
    V3 { x: fx_div_spec(a.x, s), y: fx_div_spec(a.y, s), z: fx_div_spec(a.z, s) }
}

/// A 3D vector of fixed-point scalars.
#[derive(Clone, Copy, Debug, PartialEq, Eq, Structural)]
pub struct Vec3Fx {
    pub x: i64,
    pub y: i64,
    pub z: i64,
}

impl View for Vec3Fx {
    type V = V3;

    open spec fn view(&self) -> V3 {
        V3 { x: self.x as int, y: self.y as int, z: self.z as int }
    }
}

impl Vec3Fx {
    pub open spec fn wf(self) -> bool {
        v3_bounded(self@)
    }

    pub fn zero() -> (r: Vec3Fx)
        ensures
            r@ == v3_zero(),
            r.wf(),
    {
        Vec3Fx { x: 0, y: 0, z: 0 }
    }

    pub fn new(x: i64, y: i64, z: i64) -> (r: Vec3Fx)
        requires
            fx_bounded(x as int),
            fx_bounded(y as int),
            fx_bounded(z as int),
        ensures
            r@ == (V3 { x: x as int, y: y as int, z: z as int }),
            r.wf(),
    {
        Vec3Fx { x, y, z }
    }

    pub fn add(self, other: Vec3Fx) -> (r: Vec3Fx)
        requires
            self.wf(),
            other.wf(),
        ensures
            r@ == v3_add_spec(self@, other@),
            r.wf(),
    {
        Vec3Fx {
            x: fx_add(self.x, other.x),
            y: fx_add(self.y, other.y),
            z: fx_add(self.z, other.z),
        }
    }

    pub fn sub(self, other: Vec3Fx) -> (r: Vec3Fx)
        requires
            self.wf(),
            other.wf(),
        ensures
            r@ == v3_sub_spec(self@, other@),
            r.wf(),
    {
        Vec3Fx {
            x: fx_sub(self.x, other.x),
            y: fx_sub(self.y, other.y),
            z: fx_sub(self.z, other.z),
        }
    }

    pub fn scale(self, s: i64) -> (r: Vec3Fx)
        requires
            self.wf(),
            fx_bounded(s as int),
        ensures
            r@ == v3_scale_spec(self@, s as int),
            r.wf(),
    {
        Vec3Fx { x: fx_mul(self.x, s), y: fx_mul(self.y, s), z: fx_mul(self.z, s) }
    }

    pub fn div_scalar(self, s: i64) -> (r: Vec3Fx)
        requires
            self.wf(),
            fx_bounded(s as int),
            s != 0,
        ensures
            r@ == v3_div_spec(self@, s as int),
            r.wf(),
    {
        Vec3Fx { x: fx_div(self.x, s), y: fx_div(self.y, s), z: fx_div(self.z, s) }
    }
}

} // verus!
