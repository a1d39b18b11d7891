//! Per-joint state: gains, controller memory, pivot, axis and target angle.

use vstd::prelude::*;
use crate::fx::{fx_bounded};
use crate::vec3::{v3_bounded, Vec3Fx, V3};

verus! {

/// One operator step of the target angle: one degree, in fixed point.
pub const TARGET_STEP: i64 = 1_000_000;

/// The largest target angle: 360 degrees, in fixed point.
pub const MAX_TARGET_ANGLE: i64 = 360_000_000;

/// Mathematical model of a joint.
pub ghost struct JointV {
    pub p_gain: int,
    pub i_gain: int,
    pub d_gain: int,
    pub p_prior: V3,
    pub i_prior: V3,
    pub pivot: V3,
    pub rotation_axis: V3,
    pub target_angle: int,
}

/// A joint: fixed gains and geometry, mutable controller memory and target.
#[derive(Clone, Copy, Debug, PartialEq, Eq, Structural)]
pub struct JointState {
    pub p_gain: i64,
    pub i_gain: i64,
    pub d_gain: i64,
    pub p_prior: Vec3Fx,
    pub i_prior: Vec3Fx,
    pub pivot: Vec3Fx,
    pub rotation_axis: Vec3Fx,
    pub target_angle: i64,
}

impl View for JointState {
    type V = JointV;

    open spec fn view(&self) -> JointV {
        JointV {
            p_gain: self.p_gain as int,
            i_gain: self.i_gain as int,
            d_gain: self.d_gain as int,
            p_prior: self.p_prior@,
            i_prior: self.i_prior@,
            pivot: self.pivot@,
            rotation_axis: self.rotation_axis@,
            target_angle: self.target_angle as int,
        }
    }
}

pub open spec fn joint_wf(j: JointV) -> bool {
    &&& fx_bounded(j.p_gain)
    &&& fx_bounded(j.i_gain)
    &&& fx_bounded(j.d_gain)
    &&& v3_bounded(j.p_prior)
    &&& v3_bounded(j.i_prior)
    &&& v3_bounded(j.pivot)
    &&& v3_bounded(j.rotation_axis)
    &&& 0 <= j.target_angle <= MAX_TARGET_ANGLE as int
}

impl JointState {
    pub open spec fn wf(self) -> bool {
        joint_wf(self@)
    }

    /// A fresh joint: fixed gains and geometry, zero memory, zero target.
    pub fn new(p_gain: i64, i_gain: i64, d_gain: i64, pivot: Vec3Fx, rotation_axis: Vec3Fx) -> (
        r: JointState)
        requires
            fx_bounded(p_gain as int),
            fx_bounded(i_gain as int),
            fx_bounded(d_gain as int),
            pivot.wf(),
            rotation_axis.wf(),
        ensures
            r@.p_gain == p_gain as int,
            r@.i_gain == i_gain as int,
            r@.d_gain == d_gain as int,
            r@.pivot == pivot@,
            r@.rotation_axis == rotation_axis@,
            r@.p_prior == crate::vec3::v3_zero(),
            r@.i_prior == crate::vec3::v3_zero(),
            r@.target_angle == 0,
            r.wf(),
    {
        JointState {
            p_gain,
            i_gain,
            d_gain,
            p_prior: Vec3Fx::zero(),
            i_prior: Vec3Fx::zero(),
            pivot,
            rotation_axis,
            target_angle: 0,
        }
    }
}

/// An operator command for the target angles of all joints.
#[derive(Clone, Copy, Debug, PartialEq, Eq, Structural)]
pub enum TargetCommand {
    Increment,
    Decrement,
    Reset,
}

pub open spec fn clamp_target_spec(t: int) -> int {
    if t < 0 {
        0
    } else if t > MAX_TARGET_ANGLE as int {
        MAX_TARGET_ANGLE as int
    } else {
        t
    }
}

pub open spec fn apply_command_spec(t: int, c: TargetCommand) -> int {
    match c {
        TargetCommand::Increment => clamp_target_spec(t + TARGET_STEP as int),
        TargetCommand::Decrement => clamp_target_spec(t - TARGET_STEP as int),
        TargetCommand::Reset => 0,
    }
}

pub open spec fn apply_commands_spec(t: int, cs: Seq<TargetCommand>) -> int
    decreases cs.len(),
{
    if cs.len() == 0 {
        t
    } else {
        apply_commands_spec(apply_command_spec(t, cs[0]), cs.drop_first())
    }
}

impl JointState {
    /// Apply one target command; only the target angle changes.
    pub fn apply_command(&mut self, c: TargetCommand)
        requires
            old(self).wf(),
        ensures
            final(self)@.target_angle == apply_command_spec(old(self)@.target_angle, c),
            0 <= final(self)@.target_angle <= MAX_TARGET_ANGLE as int,
            final(self)@.p_gain == old(self)@.p_gain,
            final(self)@.i_gain == old(self)@.i_gain,
            final(self)@.d_gain == old(self)@.d_gain,
            final(self)@.p_prior == old(self)@.p_prior,
            final(self)@.i_prior == old(self)@.i_prior,
            final(self)@.pivot == old(self)@.pivot,
            final(self)@.rotation_axis == old(self)@.rotation_axis,
            final(self).wf(),
    {
        match c {
            TargetCommand::Increment => {
                let t: i64 = self.target_angle + TARGET_STEP;
                self.target_angle = if t > MAX_TARGET_ANGLE {
                    MAX_TARGET_ANGLE
                } else {
                    t
                };
            },
            TargetCommand::Decrement => {
                let t: i64 = self.target_angle - TARGET_STEP;
                self.target_angle = if t < 0 {
                    0
                } else {
                    t
                };
            },
            TargetCommand::Reset => {
                self.target_angle = 0;
            },
        }
    }
}

/// Pick the command for this tick from the polled key states. A held
/// "increment" wins over "decrement", which wins over "reset"; with nothing
/// held there is no command.
pub fn select_command(increment: bool, decrement: bool, reset: bool) -> (r: Option<TargetCommand>)
    ensures
        increment ==> r == Some(TargetCommand::Increment),
        !increment && decrement ==> r == Some(TargetCommand::Decrement),
        !increment && !decrement && reset ==> r == Some(TargetCommand::Reset),
        !increment && !decrement && !reset ==> r is None,
{
    if increment {
        Some(TargetCommand::Increment)
    } else if decrement {
        Some(TargetCommand::Decrement)
    } else if reset {
        Some(TargetCommand::Reset)
    } else {
        None
    }
}

/// However a target angle started and whatever commands the operator sent,
/// the target never leaves `[0, MAX_TARGET_ANGLE]` once one command has run.
pub proof fn lemma_target_stays_clamped(t: int, cs: Seq<TargetCommand>)
    requires
        cs.len() > 0,
    ensures
        0 <= apply_commands_spec(t, cs) <= MAX_TARGET_ANGLE as int,
    decreases cs.len(),
{
    let t1 = apply_command_spec(t, cs[0]);
    assert(0 <= t1 <= MAX_TARGET_ANGLE as int);
    if cs.len() == 1 {
        assert(apply_commands_spec(t, cs) == apply_commands_spec(t1, cs.drop_first()));
        assert(cs.drop_first().len() == 0);
    } else {
        lemma_target_stays_clamped(t1, cs.drop_first());
    }
}

} // verus!
