//! The kinematic chain: a tree of joints, each transform relative to its
//! parent, with rotation applied about each joint's own pivot.

use vstd::prelude::*;
use crate::controller::{pid_i_spec, pid_inc_spec, pid_p_spec};
use crate::fx::{fx_bounded, fx_mul, fx_mul_spec};
use crate::joint::{
    apply_command_spec, joint_wf, JointState, JointV, TargetCommand,
};
use crate::quat::{q4_bounded, q4_conjugate_spec, q4_mul_spec, q4_xyz, QuatFx, Q4};
use crate::vec3::{v3_add_spec, v3_bounded, v3_sub_spec, v3_zero, Vec3Fx, V3};

verus! {

/// Rotate a point by a quaternion: the vector part of `q * (v, 0) * conj(q)`.
pub open spec fn rotate_vec_spec(q: Q4, v: V3) -> V3 {
    q4_xyz(
        q4_mul_spec(
            q4_mul_spec(q, Q4 { x: v.x, y: v.y, z: v.z, w: 0 }),
            q4_conjugate_spec(q),
        ),
    )
}

/// Mathematical model of a parent-relative transform.
pub ghost struct TransformV {
    pub rotation: Q4,
    pub translation: V3,
}

pub open spec fn transform_wf(t: TransformV) -> bool {
    q4_bounded(t.rotation) && v3_bounded(t.translation)
}

/// Apply a transform to a point in the child frame.
pub open spec fn transform_point_spec(t: TransformV, p: V3) -> V3 {
    v3_add_spec(t.translation, rotate_vec_spec(t.rotation, p))
}

/// The transform after rotating rigidly by `q` about `pivot`: the
/// translation swings around the pivot and the rotation composes on the
/// left.
pub open spec fn rotated_about_pivot_spec(t: TransformV, pivot: V3, q: Q4) -> TransformV {
    TransformV {
        rotation: q4_mul_spec(q, t.rotation),
        translation: v3_add_spec(pivot, rotate_vec_spec(q, v3_sub_spec(t.translation, pivot))),
    }
}

/// A parent-relative transform: a rotation and a translation.
#[derive(Clone, Copy, Debug, PartialEq, Eq, Structural)]
pub struct TransformFx {
    pub rotation: QuatFx,
    pub translation: Vec3Fx,
}

impl View for TransformFx {
    type V = TransformV;

    open spec fn view(&self) -> TransformV {
        TransformV { rotation: self.rotation@, translation: self.translation@ }
    }
}

impl TransformFx {
    pub open spec fn wf(self) -> bool {
        transform_wf(self@)
    }

    /// A transform that only translates.
    pub fn from_translation(translation: Vec3Fx) -> (r: TransformFx)
        requires
            translation.wf(),
        ensures
            r@.translation == translation@,
            r@.rotation == crate::quat::q4_identity(),
            r.wf(),
    {
        TransformFx { rotation: QuatFx::identity(), translation }
    }

    /// Rotate a point from this frame into the parent frame.
    pub fn transform_point(&self, p: Vec3Fx) -> (r: Vec3Fx)
        requires
            self.wf(),
            p.wf(),
        ensures
            r@ == transform_point_spec(self@, p@),
            r.wf(),
    {
        let vq = QuatFx::new(p.x, p.y, p.z, 0);
        let rotated = self.rotation.mul(vq).mul(self.rotation.conjugate()).xyz();
        self.translation.add(rotated)
    }

    /// Rotate this transform rigidly by `q` about `pivot`, both given in the
    /// parent frame.
    pub fn rotate_around(&mut self, pivot: Vec3Fx, q: QuatFx)
        requires
            old(self).wf(),
            pivot.wf(),
            q.wf(),
        ensures
            final(self)@ == rotated_about_pivot_spec(old(self)@, pivot@, q@),
            final(self).wf(),
    {
        let moved = self.translation.sub(pivot);
        let vq = QuatFx::new(moved.x, moved.y, moved.z, 0);
        let swung = q.mul(vq).mul(q.conjugate()).xyz();
        self.translation = pivot.add(swung);
        self.rotation = q.mul(self.rotation);
    }
}

/// Mathematical model of a chain node.
pub ghost struct NodeV {
    pub parent: int,
    pub transform: TransformV,
    pub joint: Option<JointV>,
}

pub open spec fn node_wf(n: NodeV) -> bool {
    transform_wf(n.transform) && match n.joint {
        Some(j) => joint_wf(j),
        None => true,
    }
}

/// One link of the chain. A node whose `parent` equals its own index is a
/// root; a node without a joint is passive and only extends the geometry,
/// as the end effector does.
#[derive(Clone, Copy, Debug, PartialEq, Eq, Structural)]
pub struct Node {
    pub parent: usize,
    pub transform: TransformFx,
    pub joint: Option<JointState>,
}

impl View for Node {
    type V = NodeV;

    open spec fn view(&self) -> NodeV {
        NodeV {
            parent: self.parent as int,
            transform: self.transform@,
            joint: match self.joint {
                Some(j) => Some(j@),
                None => None,
            },
        }
    }
}

/// The point `p`, given in the frame of node `i`, expressed in the world
/// frame: fold the transforms from `i` up to its root.
pub open spec fn chain_point_spec(nodes: Seq<NodeV>, i: int, p: V3) -> V3
    decreases i,
{
    if 0 <= i < nodes.len() {
        let q = transform_point_spec(nodes[i].transform, p);
        if 0 <= nodes[i].parent < i {
            chain_point_spec(nodes, nodes[i].parent, q)
        } else {
            q
        }
    } else {
        p
    }
}

/// A node after one target command: only a joint's target angle moves.
pub open spec fn apply_command_node_spec(n: NodeV, c: TargetCommand) -> NodeV {
    match n.joint {
        Some(j) => NodeV {
            parent: n.parent,
            transform: n.transform,
            joint: Some(JointV { target_angle: apply_command_spec(j.target_angle, c), ..j }),
        },
        None => n,
    }
}

/// A node after one PID tick: the transform swings about the joint's pivot
/// by the controller's incremental rotation, and the controller memory is
/// updated; a passive node is unchanged.
pub open spec fn pid_tick_node_spec(n: NodeV, dt: int) -> NodeV {
    match n.joint {
        Some(j) => {
            let current = n.transform.rotation;
            NodeV {
                parent: n.parent,
                transform: rotated_about_pivot_spec(
                    n.transform,
                    j.pivot,
                    pid_inc_spec(j, current, dt),
                ),
                joint: Some(
                    JointV {
                        p_prior: pid_p_spec(j, current),
                        i_prior: pid_i_spec(j, current, dt),
                        ..j
                    },
                ),
            }
        },
        None => n,
    }
}

/// A node after one constant-rate spin tick: the transform swings about the
/// pivot by the per-axis rotation at the joint's proportional gain; the
/// joint itself is unchanged.
pub open spec fn spin_node_spec(n: NodeV, dt: int) -> NodeV {
    match n.joint {
        Some(j) => NodeV {
            parent: n.parent,
            transform: rotated_about_pivot_spec(
                n.transform,
                j.pivot,
                crate::controller::joint_rotation_spec(
                    j.rotation_axis,
                    fx_mul_spec(dt, j.p_gain),
                ),
            ),
            joint: n.joint,
        },
        None => n,
    }
}

/// Proportional gain of the demo arm's joints.
pub const P_GAIN_FX: i64 = 20_000_000;

/// Integral gain of the demo arm's joints.
pub const I_GAIN_FX: i64 = 8_000_000;

/// Derivative gain of the demo arm's joints.
pub const D_GAIN_FX: i64 = 50_000;

/// Length of one arm link.
pub const ARM_LENGTH_FX: i64 = 1_500_000;

/// Width of one arm link.
pub const ARM_WIDTH_FX: i64 = 300_000;

/// A demo-arm joint: shared gains, zero memory, zero target.
pub open spec fn demo_joint_spec(pivot: V3, rotation_axis: V3) -> JointV {
    JointV {
        p_gain: P_GAIN_FX as int,
        i_gain: I_GAIN_FX as int,
        d_gain: D_GAIN_FX as int,
        p_prior: v3_zero(),
        i_prior: v3_zero(),
        pivot,
        rotation_axis,
        target_angle: 0,
    }
}

/// The demo arm: three links and an end effector, as one chain. The root
/// link turns about Y at its base; the two upper links turn about X at the
/// middle of the link below.
pub open spec fn demo_arm_spec() -> Seq<NodeV> {
    let half_link = V3 { x: 0, y: (ARM_LENGTH_FX / 2) as int, z: 0 };
    let upper_step = V3 { x: ARM_WIDTH_FX as int, y: ARM_LENGTH_FX as int, z: 0 };
    let axis_x = V3 { x: crate::fx::FX_ONE as int, y: 0, z: 0 };
    let axis_y = V3 { x: 0, y: crate::fx::FX_ONE as int, z: 0 };
    seq![
        NodeV {
            parent: 0,
            transform: TransformV {
                rotation: crate::quat::q4_identity(),
                translation: half_link,
            },
            joint: Some(demo_joint_spec(v3_zero(), axis_y)),
        },
        NodeV {
            parent: 0,
            transform: TransformV {
                rotation: crate::quat::q4_identity(),
                translation: upper_step,
            },
            joint: Some(demo_joint_spec(half_link, axis_x)),
        },
        NodeV {
            parent: 1,
            transform: TransformV {
                rotation: crate::quat::q4_identity(),
                translation: upper_step,
            },
            joint: Some(demo_joint_spec(half_link, axis_x)),
        },
        NodeV {
            parent: 2,
            transform: TransformV {
                rotation: crate::quat::q4_identity(),
                translation: half_link,
            },
            joint: None,
        },
    ]
}

/// An ordered tree of nodes: every parent index precedes its child.
pub struct Chain {
    pub nodes: Vec<Node>,
}

impl View for Chain {
    type V = Seq<NodeV>;

    open spec fn view(&self) -> Seq<NodeV> {
        self.nodes@.map(|k: int, n: Node| n@)
    }
}

impl Chain {
    pub open spec fn wf(self) -> bool {
        forall|k: int|
            0 <= k < self@.len() ==> (#[trigger] self@[k]).parent <= k && node_wf(self@[k])
    }

    pub fn new() -> (r: Chain)
        ensures
            r@.len() == 0,
            r.wf(),
    {
        Chain { nodes: Vec::new() }
    }

    pub fn len(&self) -> (r: usize)
        ensures
            r == self@.len(),
    {
        self.nodes.len()
    }

    /// Append a node under `parent` (or a new root when `parent` is the
    /// node's own index); returns the new node's index.
    pub fn push_node(&mut self, parent: usize, transform: TransformFx, joint: Option<
        JointState,
    >) -> (idx: usize)
        requires
            old(self).wf(),
            parent <= old(self)@.len(),
            transform.wf(),
            match joint {
                Some(j) => j.wf(),
                None => true,
            },
        ensures
            idx == old(self)@.len(),
            final(self)@.len() == old(self)@.len() + 1,
            final(self)@ == old(self)@.push(
                NodeV {
                    parent: parent as int,
                    transform: transform@,
                    joint: match joint {
                        Some(j) => Some(j@),
                        None => None,
                    },
                },
            ),
            final(self).wf(),
    {
        let idx = self.nodes.len();
        self.nodes.push(Node { parent, transform, joint });
        proof {
            assert(self@ =~= old(self)@.push(
                NodeV {
                    parent: parent as int,
                    transform: transform@,
                    joint: match joint {
                        Some(j) => Some(j@),
                        None => None,
                    },
                },
            ));
        }
        idx
    }

    /// Apply one target command to every joint in the chain; geometry,
    /// gains and controller memory are untouched. After a reset every
    /// joint's target angle is zero.
    pub fn apply_target_command(&mut self, c: TargetCommand)
        requires
            old(self).wf(),
        ensures
            final(self)@.len() == old(self)@.len(),
            forall|k: int|
                0 <= k < old(self)@.len() ==> #[trigger] final(self)@[k]
                    == apply_command_node_spec(old(self)@[k], c),
            c == TargetCommand::Reset ==> forall|k: int|
                0 <= k < final(self)@.len() && (#[trigger] final(self)@[k]).joint is Some
                    ==> final(self)@[k].joint->0.target_angle == 0,
            final(self).wf(),
    {
        let ghost orig = self@;
        let n = self.nodes.len();
        let mut idx: usize = 0;
        while idx < n
            invariant
                n == orig.len(),
                self@.len() == orig.len(),
                idx <= n,
                forall|k: int|
                    0 <= k < idx ==> #[trigger] self@[k] == apply_command_node_spec(orig[k], c),
                forall|k: int| idx <= k < n ==> #[trigger] self@[k] == orig[k],
                forall|k: int|
                    0 <= k < orig.len() ==> (#[trigger] orig[k]).parent <= k && node_wf(orig[k]),
                self.wf(),
            decreases n - idx,
        {
            let node = self.nodes[idx];
            proof {
                assert(self@[idx as int] == node@);
                assert(node_wf(node@));
            }
            let ghost prev = self@;
            match node.joint {
                Some(j) => {
                    let mut joint = j;
                    joint.apply_command(c);
                    self.nodes[idx] = Node {
                        parent: node.parent,
                        transform: node.transform,
                        joint: Some(joint),
                    };
                    proof {
                        assert(self@ =~= prev.update(
                            idx as int,
                            apply_command_node_spec(orig[idx as int], c),
                        ));
                    }
                },
                None => {},
            }
            idx = idx + 1;
        }
    }

    /// One PID tick for every joint: each jointed node's transform swings
    /// about its pivot by the controller's incremental rotation, and its
    /// controller memory is updated; passive nodes are untouched.
    #[verifier::rlimit(100)]
    #[verifier::spinoff_prover]
    pub fn pid_controller(&mut self, dt: i64)
        requires
            old(self).wf(),
            0 <= dt,
            fx_bounded(dt as int),
        ensures
            final(self)@.len() == old(self)@.len(),
            forall|k: int|
                0 <= k < old(self)@.len() ==> #[trigger] final(self)@[k] == pid_tick_node_spec(
                    old(self)@[k],
                    dt as int,
                ),
            final(self).wf(),
    {
        let ghost orig = self@;
        let n = self.nodes.len();
        let mut idx: usize = 0;
        while idx < n
            invariant
                n == orig.len(),
                self@.len() == orig.len(),
                idx <= n,
                0 <= dt,
                fx_bounded(dt as int),
                forall|k: int|
                    0 <= k < idx ==> #[trigger] self@[k] == pid_tick_node_spec(
                        orig[k],
                        dt as int,
                    ),
                forall|k: int| idx <= k < n ==> #[trigger] self@[k] == orig[k],
                forall|k: int|
                    0 <= k < orig.len() ==> (#[trigger] orig[k]).parent <= k && node_wf(orig[k]),
                self.wf(),
            decreases n - idx,
        {
            let node = self.nodes[idx];
            proof {
                assert(self@[idx as int] == node@);
                assert(node_wf(node@));
            }
            let ghost prev = self@;
            match node.joint {
                Some(j) => {
                    let mut joint = j;
                    let mut transform = node.transform;
                    let inc = joint.pid_step(transform.rotation, dt);
                    transform.rotate_around(joint.pivot, inc);
                    self.nodes[idx] = Node {
                        parent: node.parent,
                        transform,
                        joint: Some(joint),
                    };
                    proof {
                        assert(self@ =~= prev.update(
                            idx as int,
                            pid_tick_node_spec(orig[idx as int], dt as int),
                        ));
                    }
                },
                None => {},
            }
            idx = idx + 1;
        }
    }

    /// Spin every joint at its proportional gain: each jointed node's
    /// transform swings about its pivot by the per-axis rotation for this
    /// tick's elapsed time, with no controller involved.
    #[verifier::rlimit(100)]
    #[verifier::spinoff_prover]
    pub fn process_rotations(&mut self, dt: i64)
        requires
            old(self).wf(),
            0 <= dt,
            fx_bounded(dt as int),
        ensures
            final(self)@.len() == old(self)@.len(),
            forall|k: int|
                0 <= k < old(self)@.len() ==> #[trigger] final(self)@[k] == spin_node_spec(
                    old(self)@[k],
                    dt as int,
                ),
            final(self).wf(),
    {
        let ghost orig = self@;
        let n = self.nodes.len();
        let mut idx: usize = 0;
        while idx < n
            invariant
                n == orig.len(),
                self@.len() == orig.len(),
                idx <= n,
                0 <= dt,
                fx_bounded(dt as int),
                forall|k: int|
                    0 <= k < idx ==> #[trigger] self@[k] == spin_node_spec(orig[k], dt as int),
                forall|k: int| idx <= k < n ==> #[trigger] self@[k] == orig[k],
                forall|k: int|
                    0 <= k < orig.len() ==> (#[trigger] orig[k]).parent <= k && node_wf(orig[k]),
                self.wf(),
            decreases n - idx,
        {
            let node = self.nodes[idx];
            proof {
                assert(self@[idx as int] == node@);
                assert(node_wf(node@));
            }
            let ghost prev = self@;
            match node.joint {
                Some(j) => {
                    let mut transform = node.transform;
                    let rate = fx_mul(dt, j.p_gain);
                    let q = crate::controller::get_joint_rotation(j.rotation_axis, rate);
                    transform.rotate_around(j.pivot, q);
                    self.nodes[idx] = Node {
                        parent: node.parent,
                        transform,
                        joint: node.joint,
                    };
                    proof {
                        assert(self@ =~= prev.update(
                            idx as int,
                            spin_node_spec(orig[idx as int], dt as int),
                        ));
                    }
                },
                None => {},
            }
            idx = idx + 1;
        }
    }

    /// Build the demo arm of [`demo_arm_spec`]: three actuated links and a
    /// passive end effector at index 3.
    pub fn demo_arm() -> (c: Chain)
        ensures
            c@ == demo_arm_spec(),
            c@.len() == 4,
            c.wf(),
    {
        let half_link = Vec3Fx::new(0, ARM_LENGTH_FX / 2, 0);
        let upper_step = Vec3Fx::new(ARM_WIDTH_FX, ARM_LENGTH_FX, 0);
        let axis_x = Vec3Fx::new(crate::fx::FX_ONE, 0, 0);
        let axis_y = Vec3Fx::new(0, crate::fx::FX_ONE, 0);
        let base_joint = JointState::new(P_GAIN_FX, I_GAIN_FX, D_GAIN_FX, Vec3Fx::zero(), axis_y);
        let upper_joint = JointState::new(P_GAIN_FX, I_GAIN_FX, D_GAIN_FX, half_link, axis_x);
        let mut c = Chain::new();
        c.push_node(0, TransformFx::from_translation(half_link), Some(base_joint));
        c.push_node(0, TransformFx::from_translation(upper_step), Some(upper_joint));
        c.push_node(1, TransformFx::from_translation(upper_step), Some(upper_joint));
        c.push_node(2, TransformFx::from_translation(half_link), None);
        proof {
            assert(c@ =~= demo_arm_spec());
        }
        c
    }

    /// The world-space position of the origin of node `i`.
    pub fn world_position(&self, i: usize) -> (r: Vec3Fx)
        requires
            self.wf(),
            i < self@.len(),
        ensures
            r@ == chain_point_spec(self@, i as int, v3_zero()),
            r.wf(),
    {
        let mut p = Vec3Fx::zero();
        let mut j = i;
        loop
            invariant
                self.wf(),
                j < self@.len(),
                p.wf(),
                chain_point_spec(self@, i as int, v3_zero()) == chain_point_spec(
                    self@,
                    j as int,
                    p@,
                ),
            decreases j,
        {
            let node = self.nodes[j];
            p = node.transform.transform_point(p);
            if node.parent >= j {
                return p;
            }
            j = node.parent;
        }
    }
}

} // verus!
