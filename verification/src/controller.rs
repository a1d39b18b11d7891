//! The per-joint, per-tick PID orientation controller.
//!
//! Each tick the controller turns the rotation error between the joint's
//! current orientation and its target orientation into an incremental
//! rotation about the joint's pivot, and updates the controller memory.

use vstd::prelude::*;
use crate::fx::{fx_bounded, fx_mul, fx_mul_spec};
use crate::joint::{JointState, JointV};
use crate::quat::{
    from_rot_x_spec, from_rot_y_spec, from_rot_z_spec, q4_mul_spec, q4_normalize_spec, q4_xyz,
    QuatFx, Q4,
};
use crate::vec3::{
    v3_add_spec, v3_div_spec, v3_scale_spec, v3_sub_spec, Vec3Fx, V3,
};

verus! {

/// Fixed-point radians per degree (`pi / 180`, scaled by `FX_ONE`).
pub const RAD_PER_DEG: i64 = 17_453;

pub open spec fn deg_to_rad_spec(angle: int) -> int {
    fx_mul_spec(angle, RAD_PER_DEG as int)
}

/// Degrees to radians, both in fixed point.
pub fn degrees_to_rads(angle: i64) -> (r: i64)
    requires
        fx_bounded(angle as int),
    ensures
        r as int == deg_to_rad_spec(angle as int),
        fx_bounded(r as int),
{
    fx_mul(angle, RAD_PER_DEG)
}

/// The per-axis rotation: each component of `rotation_axis` scales the shared
/// angle, and the three elementary rotations compose X then Y then Z. This is
/// faithful only for cardinal axes; a mixed axis composes per-axis turns, not
/// a single rotation about the mixed direction.
pub open spec fn joint_rotation_spec(rotation_axis: V3, multiplier: int) -> Q4 {
    q4_mul_spec(
        q4_mul_spec(
            from_rot_x_spec(fx_mul_spec(rotation_axis.x, multiplier)),
            from_rot_y_spec(fx_mul_spec(rotation_axis.y, multiplier)),
        ),
        from_rot_z_spec(fx_mul_spec(rotation_axis.z, multiplier)),
    )
}

pub fn get_joint_rotation(rotation_axis: Vec3Fx, multiplier: i64) -> (r: QuatFx)
    requires
        rotation_axis.wf(),
        fx_bounded(multiplier as int),
    ensures
        r@ == joint_rotation_spec(rotation_axis@, multiplier as int),
        r.wf(),
{
    let qx = QuatFx::from_rotation_x(fx_mul(rotation_axis.x, multiplier));
    let qy = QuatFx::from_rotation_y(fx_mul(rotation_axis.y, multiplier));
    let qz = QuatFx::from_rotation_z(fx_mul(rotation_axis.z, multiplier));
    qx.mul(qy).mul(qz)
}

/// The rotation taking `q1` to `q2`, as a normalized quaternion.
pub open spec fn error_quat_spec(q1: Q4, q2: Q4) -> Q4 {
    q4_normalize_spec(q4_mul_spec(crate::quat::q4_conjugate_spec(q1), q2))
}

pub fn calculate_error_quaternion(q1: QuatFx, q2: QuatFx) -> (r: QuatFx)
    requires
        q1.wf(),
        q2.wf(),
    ensures
        r@ == error_quat_spec(q1@, q2@),
        r.wf(),
{
    q1.conjugate().mul(q2).normalize()
}

/// The joint's target orientation, from its target angle and axis.
pub open spec fn pid_target_spec(j: JointV) -> Q4 {
    joint_rotation_spec(j.rotation_axis, deg_to_rad_spec(j.target_angle))
}

/// The proportional signal: the vector part of the error rotation.
pub open spec fn pid_p_spec(j: JointV, current: Q4) -> V3 {
    q4_xyz(error_quat_spec(current, pid_target_spec(j)))
}

/// The new integral memory: the running sum of the error over time.
pub open spec fn pid_i_spec(j: JointV, current: Q4, dt: int) -> V3 {
    v3_add_spec(j.i_prior, v3_scale_spec(pid_p_spec(j, current), dt))
}

/// The discrete derivative; well-defined only for `dt != 0`.
pub open spec fn pid_d_spec(j: JointV, current: Q4, dt: int) -> V3 {
    v3_div_spec(v3_sub_spec(pid_p_spec(j, current), j.p_prior), dt)
}

/// The controller output. The derivative term is dropped for `dt == 0`,
/// where the discrete derivative is undefined; the rest of the tick
/// proceeds normally.
pub open spec fn pid_out_spec(j: JointV, current: Q4, dt: int) -> V3 {
    let base = v3_add_spec(
        v3_scale_spec(pid_p_spec(j, current), j.p_gain),
        v3_scale_spec(pid_i_spec(j, current, dt), j.i_gain),
    );
    if dt == 0 {
        base
    } else {
        v3_add_spec(base, v3_scale_spec(pid_d_spec(j, current, dt), j.d_gain))
    }
}

/// The incremental rotation a tick applies about the joint's pivot: the
/// controller output fed back through the per-axis rotation, scaled by `dt`.
pub open spec fn pid_inc_spec(j: JointV, current: Q4, dt: int) -> Q4 {
    joint_rotation_spec(pid_out_spec(j, current, dt), dt)
}

impl JointState {
    /// One controller tick. Reads the joint's current local orientation,
    /// returns the incremental rotation to apply about the pivot, and
    /// persists the new proportional and integral memory. Gains, pivot,
    /// axis and target are untouched.
    pub fn pid_step(&mut self, current_rotation: QuatFx, dt: i64) -> (inc: QuatFx)
        requires
            old(self).wf(),
            current_rotation.wf(),
            0 <= dt,
            fx_bounded(dt as int),
        ensures
            inc@ == pid_inc_spec(old(self)@, current_rotation@, dt as int),
            inc.wf(),
            final(self)@.p_prior == pid_p_spec(old(self)@, current_rotation@),
            final(self)@.i_prior == pid_i_spec(old(self)@, current_rotation@, dt as int),
            final(self)@.p_gain == old(self)@.p_gain,
            final(self)@.i_gain == old(self)@.i_gain,
            final(self)@.d_gain == old(self)@.d_gain,
            final(self)@.pivot == old(self)@.pivot,
            final(self)@.rotation_axis == old(self)@.rotation_axis,
            final(self)@.target_angle == old(self)@.target_angle,
            final(self).wf(),
    {
        let angle_rads = degrees_to_rads(self.target_angle);
        let target_rotation = get_joint_rotation(self.rotation_axis, angle_rads);
        let p = calculate_error_quaternion(current_rotation, target_rotation).xyz();
        let i = self.i_prior.add(p.scale(dt));
        let mut out = p.scale(self.p_gain).add(i.scale(self.i_gain));
        if dt != 0 {
            let d = p.sub(self.p_prior).div_scalar(dt);
            out = out.add(d.scale(self.d_gain));
        }
        let inc = get_joint_rotation(out, dt);
        self.p_prior = p;
        self.i_prior = i;
        inc
    }
}

} // verus!
