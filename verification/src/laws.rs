//! The library's laws: proof functions relating the controller, the target
//! commands and the chain composition.

use vstd::prelude::*;
use crate::chain::{
    chain_point_spec, rotate_vec_spec, rotated_about_pivot_spec, transform_point_spec,
    transform_wf, NodeV, TransformV,
};
use crate::controller::{
    error_quat_spec, joint_rotation_spec, pid_d_spec, pid_i_spec, pid_inc_spec, pid_out_spec,
    pid_p_spec, pid_target_spec,
};
use crate::fx::{
    fx_add_spec, fx_bounded, fx_mul_spec, iabs, lemma_fx_mul_comm, lemma_fx_mul_neg,
    lemma_fx_mul_one, lemma_fx_mul_zero, lemma_tdiv_neg, sqrt_floor, tdiv, FX_MAX, FX_ONE,
};
use crate::joint::{joint_wf, JointV};
use crate::quat::{
    from_rot_x_spec, from_rot_y_spec, from_rot_z_spec, lemma_q4_conj_mul_self,
    lemma_q4_mul_identity, q4_bounded, q4_identity, q4_mul_spec, q4_normalize_spec, q4_norm2_spec,
    q4_xyz, Q4,
};
use crate::trig::{
    cos_fx_spec, lemma_sincos_pythagorean, lemma_sincos_symmetry, lemma_sincos_zero, sin_fx_spec,
};
use crate::vec3::{v3_bounded, v3_zero, V3};

verus! {

/// An axis that points along exactly one coordinate direction, with unit
/// magnitude.
pub open spec fn is_cardinal_axis(a: V3) -> bool {
    ||| a == (V3 { x: FX_ONE as int, y: 0, z: 0 })
    ||| a == (V3 { x: 0, y: FX_ONE as int, z: 0 })
    ||| a == (V3 { x: 0, y: 0, z: FX_ONE as int })
}

/// `fx` products of a sine/cosine pair sum to `FX_ONE` up to the square
/// root's rounding.
proof fn lemma_unit_norm_w(s: int, c: int)
    requires
        iabs(s) <= FX_ONE as int,
        iabs(c) <= FX_ONE as int,
        s * s + c * c <= (FX_ONE as int) * (FX_ONE as int),
        (FX_ONE as int) * (FX_ONE as int) < s * s + (iabs(c) + 1) * (iabs(c) + 1),
    ensures
        FX_ONE as int - 5 <= fx_add_spec(fx_mul_spec(c, c), fx_mul_spec(s, s)) <= FX_ONE as int,
{
    let one = FX_ONE as int;
    let cc = c * c;
    let ss = s * s;
    let ac = iabs(c);
    assert(0 <= c * c && c * c == ac * ac) by (nonlinear_arith)
        requires
            ac == c || ac == -c,
    ;
    assert(0 <= s * s) by (nonlinear_arith);
    assert((ac + 1) * (ac + 1) == ac * ac + 2 * ac + 1) by (nonlinear_arith);
    assert(cc + ss > one * one - 2 * ac - 1);
    let a = tdiv(cc, one);
    let b = tdiv(ss, one);
    assert(a == cc / one && b == ss / one);
    vstd::arithmetic::div_mod::lemma_fundamental_div_mod(cc, one);
    vstd::arithmetic::div_mod::lemma_fundamental_div_mod(ss, one);
    vstd::arithmetic::div_mod::lemma_mod_bound(cc, one);
    vstd::arithmetic::div_mod::lemma_mod_bound(ss, one);
    assert(one * a + one * b > cc + ss - 2 * one);
    assert(one * (a + b) == one * a + one * b) by (nonlinear_arith);
    if a + b < one - 4 {
        assert(one * (a + b) <= one * (one - 5)) by (nonlinear_arith)
            requires
                a + b <= one - 5,
                one > 0,
        ;
        assert(one * (one - 5) == one * one - 5 * one) by (nonlinear_arith);
        assert(false);
    }
    if a + b > one {
        assert(one * (a + b) >= one * (one + 1)) by (nonlinear_arith)
            requires
                a + b >= one + 1,
                one > 0,
        ;
        assert(one * (one + 1) == one * one + one) by (nonlinear_arith);
        assert(false);
    }
    assert(fx_mul_spec(c, c) == a);
    assert(fx_mul_spec(s, s) == b);
}

/// The per-axis rotation of a joint on a cardinal axis reduces to the one
/// elementary rotation for that axis: its vector part is the half-angle
/// sine on that axis and its `w` the half-angle cosine.
proof fn lemma_cardinal_target_shape(axis: V3, angle: int)
    requires
        is_cardinal_axis(axis),
        fx_bounded(angle),
    ensures
        ({
            let q = joint_rotation_spec(axis, angle);
            let s = sin_fx_spec(tdiv(angle, 2));
            let c = cos_fx_spec(tdiv(angle, 2));
            &&& iabs(s) <= FX_ONE as int
            &&& iabs(c) <= FX_ONE as int
            &&& q4_bounded(q)
            &&& axis.x == FX_ONE as int ==> q == (Q4 { x: s, y: 0, z: 0, w: c })
            &&& axis.y == FX_ONE as int ==> q == (Q4 { x: 0, y: s, z: 0, w: c })
            &&& axis.z == FX_ONE as int ==> q == (Q4 { x: 0, y: 0, z: s, w: c })
        }),
{
    let one = FX_ONE as int;
    lemma_fx_mul_one(angle);
    lemma_fx_mul_comm(one, angle);
    lemma_fx_mul_zero(angle);
    lemma_sincos_zero();
    let h = tdiv(angle, 2);
    let s = sin_fx_spec(h);
    let c = cos_fx_spec(h);
    lemma_sincos_pythagorean(h);
    assert(tdiv(0, 2) == 0) by {
        vstd::arithmetic::div_mod::lemma_div_of0(2);
    }
    let elem = if axis.x == one {
        from_rot_x_spec(angle)
    } else if axis.y == one {
        from_rot_y_spec(angle)
    } else {
        from_rot_z_spec(angle)
    };
    assert(q4_bounded(elem));
    let ident = q4_identity();
    lemma_q4_mul_identity(elem);
    lemma_q4_mul_identity(ident);
    assert(joint_rotation_spec(axis, angle) == elem);
}

/// A joint at rest stays at rest (the first controller law): with the
/// current orientation equal to the target orientation and zero controller
/// memory, one tick leaves the proportional, integral and (for `dt != 0`)
/// derivative signals at exactly zero, emits exactly the identity rotation,
/// and leaves the memory at zero — so every later tick does the same.
pub proof fn lemma_at_rest_fixed_point(j: JointV, current: Q4, dt: int)
    requires
        joint_wf(j),
        j.p_prior == v3_zero(),
        j.i_prior == v3_zero(),
        current == pid_target_spec(j),
        0 <= dt <= FX_MAX as int,
    ensures
        pid_p_spec(j, current) == v3_zero(),
        pid_i_spec(j, current, dt) == v3_zero(),
        dt != 0 ==> pid_d_spec(j, current, dt) == v3_zero(),
        pid_out_spec(j, current, dt) == v3_zero(),
        pid_inc_spec(j, current, dt) == q4_identity(),
{
    let one = FX_ONE as int;
    let q = pid_target_spec(j);
    assert(q4_bounded(q));
    // The error rotation of a joint at its target is purely scalar.
    lemma_q4_conj_mul_self(q);
    let err = q4_mul_spec(crate::quat::q4_conjugate_spec(q), q);
    lemma_fx_mul_zero(0);
    let w = err.w;
    // Normalizing a pure-scalar error keeps the vector part at zero,
    // whether or not it carries enough magnitude to normalize.
    assert(err.x == 0 && err.y == 0 && err.z == 0);
    assert(q4_norm2_spec(err) == w * w);
    assert(w * w >= 0) by (nonlinear_arith);
    let m = sqrt_floor(q4_norm2_spec(err) as nat) as int;
    if m != 0 {
        vstd::arithmetic::div_mod::lemma_div_of0(iabs(m));
        assert(tdiv(0 * one, m) == 0);
    }
    assert(error_quat_spec(current, pid_target_spec(j)) == q4_normalize_spec(err));
    assert(pid_p_spec(j, current) == v3_zero());
    // Zero error and zero memory give a zero controller output.
    lemma_fx_mul_zero(dt);
    lemma_fx_mul_zero(j.p_gain);
    lemma_fx_mul_zero(j.i_gain);
    lemma_fx_mul_zero(j.d_gain);
    assert(pid_i_spec(j, current, dt) == v3_zero());
    if dt != 0 {
        vstd::arithmetic::div_mod::lemma_div_of0(iabs(dt));
        assert(tdiv(0 * one, dt) == 0);
        assert(pid_d_spec(j, current, dt) == v3_zero());
    }
    assert(pid_out_spec(j, current, dt) == v3_zero());
    // A zero output commands the identity rotation.
    lemma_zero_axis_rotation(dt);
}

/// The per-axis rotation for a zero output vector is exactly the identity,
/// whatever the tick length.
pub proof fn lemma_zero_axis_rotation(dt: int)
    ensures
        joint_rotation_spec(v3_zero(), dt) == q4_identity(),
{
    lemma_fx_mul_zero(dt);
    lemma_sincos_zero();
    assert(tdiv(0, 2) == 0) by {
        vstd::arithmetic::div_mod::lemma_div_of0(2);
    }
    lemma_q4_mul_identity(q4_identity());
}

/// Degenerate-tick safety (the second controller law): a tick with `dt = 0`
/// commands exactly the identity rotation — the orientation cannot move —
/// and the integral memory is exactly what it was; the proportional memory
/// is simply the current error, ready for the next tick.
pub proof fn lemma_zero_dt_is_safe(j: JointV, current: Q4)
    requires
        joint_wf(j),
    ensures
        pid_i_spec(j, current, 0) == j.i_prior,
        pid_inc_spec(j, current, 0) == q4_identity(),
{
    let p = pid_p_spec(j, current);
    lemma_fx_mul_zero(p.x);
    lemma_fx_mul_zero(p.y);
    lemma_fx_mul_zero(p.z);
    assert(pid_i_spec(j, current, 0) == j.i_prior);
    let out = pid_out_spec(j, current, 0);
    lemma_fx_mul_zero(out.x);
    lemma_fx_mul_zero(out.y);
    lemma_fx_mul_zero(out.z);
    lemma_sincos_zero();
    assert(tdiv(0, 2) == 0) by {
        vstd::arithmetic::div_mod::lemma_div_of0(2);
    }
    lemma_q4_mul_identity(q4_identity());
    assert(joint_rotation_spec(out, 0) == q4_identity());
}

/// Rotating by the identity quaternion moves no bounded point.
proof fn lemma_rotate_vec_identity(v: V3)
    requires
        v3_bounded(v),
    ensures
        rotate_vec_spec(q4_identity(), v) == v,
{
    assert forall|a: int| #[trigger] fx_mul_spec(a, 0) == 0 by {
        lemma_fx_mul_zero(a);
    }
    assert forall|a: int| #[trigger] fx_mul_spec(0, a) == 0 by {
        lemma_fx_mul_zero(a);
    }
    assert forall|a: int| fx_bounded(a) implies #[trigger] fx_mul_spec(a, FX_ONE as int)
        == a by {
        lemma_fx_mul_one(a);
    }
    assert forall|a: int| fx_bounded(a) implies #[trigger] fx_mul_spec(FX_ONE as int, a)
        == a by {
        lemma_fx_mul_comm(FX_ONE as int, a);
        lemma_fx_mul_one(a);
    }
}

/// A rigid swing by the identity rotation leaves a transform exactly where
/// it was, as long as the translation's offset from the pivot stays
/// representable.
#[verifier::rlimit(100)]
#[verifier::spinoff_prover]
pub proof fn lemma_identity_rotation_fixes_transform(t: TransformV, pivot: V3)
    requires
        transform_wf(t),
        v3_bounded(pivot),
        fx_bounded(t.translation.x - pivot.x),
        fx_bounded(t.translation.y - pivot.y),
        fx_bounded(t.translation.z - pivot.z),
    ensures
        rotated_about_pivot_spec(t, pivot, q4_identity()) == t,
{
    lemma_rotate_vec_identity(crate::vec3::v3_sub_spec(t.translation, pivot));
    lemma_q4_mul_identity(t.rotation);
}

/// A joint at rest is left exactly in place by a whole tick: with the
/// orientation at the target and zero memory, the node after the tick is
/// the node before it, field for field.
pub proof fn lemma_at_rest_node_unchanged(n: NodeV, dt: int)
    requires
        crate::chain::node_wf(n),
        n.joint is Some,
        n.joint->0.p_prior == v3_zero(),
        n.joint->0.i_prior == v3_zero(),
        n.transform.rotation == pid_target_spec(n.joint->0),
        fx_bounded(n.transform.translation.x - n.joint->0.pivot.x),
        fx_bounded(n.transform.translation.y - n.joint->0.pivot.y),
        fx_bounded(n.transform.translation.z - n.joint->0.pivot.z),
        0 <= dt <= FX_MAX as int,
    ensures
        crate::chain::pid_tick_node_spec(n, dt) == n,
{
    let j = n.joint->0;
    lemma_at_rest_fixed_point(j, n.transform.rotation, dt);
    lemma_zero_axis_rotation(dt);
    lemma_identity_rotation_fixes_transform(n.transform, j.pivot);
}

/// Degenerate-tick safety for a whole node: a tick with `dt = 0` cannot
/// move the node's transform, and its integral memory is exactly what it
/// was.
pub proof fn lemma_zero_dt_node_safe(n: NodeV)
    requires
        crate::chain::node_wf(n),
        n.joint is Some,
        fx_bounded(n.transform.translation.x - n.joint->0.pivot.x),
        fx_bounded(n.transform.translation.y - n.joint->0.pivot.y),
        fx_bounded(n.transform.translation.z - n.joint->0.pivot.z),
    ensures
        crate::chain::pid_tick_node_spec(n, 0).transform == n.transform,
        crate::chain::pid_tick_node_spec(n, 0).joint->0.i_prior == n.joint->0.i_prior,
{
    let j = n.joint->0;
    lemma_zero_dt_is_safe(j, n.transform.rotation);
    lemma_identity_rotation_fixes_transform(n.transform, j.pivot);
}

/// Whether the upward path from node `e` to its root passes through `j`.
pub open spec fn on_chain_path(nodes: Seq<NodeV>, e: int, j: int) -> bool
    decreases e,
{
    if !(0 <= e < nodes.len()) {
        false
    } else if e == j {
        true
    } else if 0 <= nodes[e].parent < e {
        on_chain_path(nodes, nodes[e].parent, j)
    } else {
        false
    }
}

/// The value entering node `j`'s transform when folding from `e`: the fold
/// of the transforms strictly below `j` on the path.
pub open spec fn chain_point_below(nodes: Seq<NodeV>, e: int, j: int, p: V3) -> V3
    decreases e,
{
    if !(0 <= e < nodes.len()) {
        p
    } else if e == j {
        p
    } else {
        let q = transform_point_spec(nodes[e].transform, p);
        if 0 <= nodes[e].parent < e {
            chain_point_below(nodes, nodes[e].parent, j, q)
        } else {
            q
        }
    }
}

/// The fold of the transforms strictly above node `j`.
pub open spec fn chain_point_above(nodes: Seq<NodeV>, j: int, v: V3) -> V3 {
    if 0 <= j < nodes.len() && 0 <= nodes[j].parent < j {
        chain_point_spec(nodes, nodes[j].parent, v)
    } else {
        v
    }
}

/// Rotating by any quaternion leaves the origin in place.
proof fn lemma_rotate_vec_zero(q: Q4)
    ensures
        rotate_vec_spec(q, v3_zero()) == v3_zero(),
{
    assert forall|a: int| #[trigger] fx_mul_spec(a, 0) == 0 by {
        lemma_fx_mul_zero(a);
    }
    assert forall|a: int| #[trigger] fx_mul_spec(0, a) == 0 by {
        lemma_fx_mul_zero(a);
    }
}

/// Rotating a transform rigidly about a pivot moves the image of the child
/// origin by exactly that rigid map: the pivot plus the rotated offset of
/// the old image from the pivot.
pub proof fn lemma_pivot_rotation_moves_origin(t: TransformV, pivot: V3, q: Q4)
    requires
        transform_wf(t),
        v3_bounded(pivot),
    ensures
        transform_point_spec(rotated_about_pivot_spec(t, pivot, q), v3_zero()) == crate::vec3::v3_add_spec(
            pivot,
            rotate_vec_spec(q, crate::vec3::v3_sub_spec(transform_point_spec(t, v3_zero()), pivot)),
        ),
{
    lemma_rotate_vec_zero(t.rotation);
    lemma_rotate_vec_zero(q4_mul_spec(q, t.rotation));
    assert(transform_point_spec(t, v3_zero()) == t.translation);
}

/// A node whose upward path avoids the one modified node keeps its world
/// position exactly: rotating a joint never moves nodes outside its subtree.
pub proof fn lemma_unrelated_position_unchanged(
    nodes: Seq<NodeV>,
    nodes2: Seq<NodeV>,
    jidx: int,
    e: int,
    p: V3,
)
    requires
        nodes2.len() == nodes.len(),
        0 <= jidx < nodes.len(),
        forall|k: int| 0 <= k < nodes.len() && k != jidx ==> nodes2[k] == nodes[k],
        0 <= e < nodes.len(),
        !on_chain_path(nodes, e, jidx),
    ensures
        chain_point_spec(nodes2, e, p) == chain_point_spec(nodes, e, p),
    decreases e,
{
    assert(e != jidx);
    assert(nodes2[e] == nodes[e]);
    let q = transform_point_spec(nodes[e].transform, p);
    if 0 <= nodes[e].parent < e {
        lemma_unrelated_position_unchanged(nodes, nodes2, jidx, nodes[e].parent, q);
    }
}

/// Whether a path runs through `j` depends only on the nodes off `j`.
proof fn lemma_path_preserved(nodes: Seq<NodeV>, nodes2: Seq<NodeV>, jidx: int, e: int)
    requires
        nodes2.len() == nodes.len(),
        0 <= jidx < nodes.len(),
        forall|k: int| 0 <= k < nodes.len() && k != jidx ==> nodes2[k] == nodes[k],
        nodes2[jidx].parent == nodes[jidx].parent,
        on_chain_path(nodes, e, jidx),
    ensures
        on_chain_path(nodes2, e, jidx),
    decreases e,
{
    if e != jidx {
        assert(nodes2[e] == nodes[e]);
        lemma_path_preserved(nodes, nodes2, jidx, nodes[e].parent);
    }
}

/// The fold strictly below `j` never reads node `j`.
proof fn lemma_below_agree(nodes: Seq<NodeV>, nodes2: Seq<NodeV>, jidx: int, e: int, p: V3)
    requires
        nodes2.len() == nodes.len(),
        0 <= jidx < nodes.len(),
        forall|k: int| 0 <= k < nodes.len() && k != jidx ==> nodes2[k] == nodes[k],
    ensures
        chain_point_below(nodes2, e, jidx, p) == chain_point_below(nodes, e, jidx, p),
    decreases e,
{
    if 0 <= e < nodes.len() && e != jidx {
        assert(nodes2[e] == nodes[e]);
        let q = transform_point_spec(nodes[e].transform, p);
        if 0 <= nodes[e].parent < e {
            lemma_below_agree(nodes, nodes2, jidx, nodes[e].parent, q);
        }
    }
}

/// A fold that starts strictly below `j` never reads node `j`.
proof fn lemma_low_point_agree(nodes: Seq<NodeV>, nodes2: Seq<NodeV>, jidx: int, e: int, p: V3)
    requires
        nodes2.len() == nodes.len(),
        0 <= jidx < nodes.len(),
        forall|k: int| 0 <= k < nodes.len() && k != jidx ==> nodes2[k] == nodes[k],
        0 <= e < jidx,
    ensures
        chain_point_spec(nodes2, e, p) == chain_point_spec(nodes, e, p),
    decreases e,
{
    assert(nodes2[e] == nodes[e]);
    let q = transform_point_spec(nodes[e].transform, p);
    if 0 <= nodes[e].parent < e {
        lemma_low_point_agree(nodes, nodes2, jidx, nodes[e].parent, q);
    }
}

/// The world fold from a descendant splits at any node on its path: fold
/// below it, apply its transform, fold above it.
proof fn lemma_chain_split(nodes: Seq<NodeV>, e: int, j: int, p: V3)
    requires
        on_chain_path(nodes, e, j),
    ensures
        chain_point_spec(nodes, e, p) == chain_point_above(
            nodes,
            j,
            transform_point_spec(nodes[j].transform, chain_point_below(nodes, e, j, p)),
        ),
    decreases e,
{
    if e == j {
    } else {
        let q = transform_point_spec(nodes[e].transform, p);
        lemma_chain_split(nodes, nodes[e].parent, j, q);
    }
}

/// Composition law: when one joint's transform swings rigidly about its
/// pivot and nothing else changes, the world position of the joint and of
/// every descendant goes through exactly the rigidly rotated joint frame —
/// the folds below and above the joint are untouched. Together with
/// [`lemma_unrelated_position_unchanged`], the rotation moves the joint's
/// subtree through that one frame and nothing else.
pub proof fn lemma_parent_rotation_composes(
    nodes: Seq<NodeV>,
    nodes2: Seq<NodeV>,
    jidx: int,
    pivot: V3,
    q: Q4,
    e: int,
    p: V3,
)
    requires
        nodes2.len() == nodes.len(),
        0 <= jidx < nodes.len(),
        forall|k: int| 0 <= k < nodes.len() && k != jidx ==> nodes2[k] == nodes[k],
        nodes2[jidx].parent == nodes[jidx].parent,
        nodes2[jidx].transform == rotated_about_pivot_spec(nodes[jidx].transform, pivot, q),
        on_chain_path(nodes, e, jidx),
    ensures
        chain_point_spec(nodes2, e, p) == chain_point_above(
            nodes,
            jidx,
            transform_point_spec(
                rotated_about_pivot_spec(nodes[jidx].transform, pivot, q),
                chain_point_below(nodes, e, jidx, p),
            ),
        ),
{
    lemma_path_preserved(nodes, nodes2, jidx, e);
    lemma_chain_split(nodes2, e, jidx, p);
    lemma_below_agree(nodes, nodes2, jidx, e, p);
    let v = transform_point_spec(
        rotated_about_pivot_spec(nodes[jidx].transform, pivot, q),
        chain_point_below(nodes, e, jidx, p),
    );
    if 0 <= nodes[jidx].parent < jidx {
        lemma_low_point_agree(nodes, nodes2, jidx, nodes[jidx].parent, v);
    }
}

/// Round trip (the rotation law): composing the per-axis elementary rotation
/// for the X axis at angle `theta` with the one for `-theta` returns the
/// identity within fixed-point tolerance: a vanished vector part, and a `w`
/// within five units of `FX_ONE`.
pub proof fn lemma_x_axis_round_trip(theta: int)
    requires
        fx_bounded(theta),
    ensures
        ({
            let axis = V3 { x: FX_ONE as int, y: 0, z: 0 };
            let trip = q4_mul_spec(
                joint_rotation_spec(axis, theta),
                joint_rotation_spec(axis, -theta),
            );
            &&& q4_xyz(trip) == v3_zero()
            &&& FX_ONE as int - 5 <= trip.w <= FX_ONE as int
        }),
{
    let one = FX_ONE as int;
    let axis = V3 { x: one, y: 0, z: 0 };
    lemma_cardinal_target_shape(axis, theta);
    lemma_cardinal_target_shape(axis, -theta);
    let h = tdiv(theta, 2);
    lemma_tdiv_neg(theta, 2);
    lemma_sincos_symmetry(h);
    let s = sin_fx_spec(h);
    let c = cos_fx_spec(h);
    let fwd = joint_rotation_spec(axis, theta);
    let back = joint_rotation_spec(axis, -theta);
    assert(fwd == (Q4 { x: s, y: 0, z: 0, w: c }));
    assert(back == (Q4 { x: -s, y: 0, z: 0, w: c }));
    lemma_sincos_pythagorean(h);
    lemma_fx_mul_zero(0);
    lemma_fx_mul_zero(s);
    lemma_fx_mul_zero(-s);
    lemma_fx_mul_zero(c);
    lemma_fx_mul_neg(c, s);
    lemma_fx_mul_comm(s, c);
    lemma_fx_mul_comm(c, s);
    lemma_fx_mul_neg(s, s);
    assert(s * s == iabs(s) * iabs(s)) by (nonlinear_arith)
        requires
            iabs(s) == s || iabs(s) == -s,
    ;
    assert(c * c == iabs(c) * iabs(c)) by (nonlinear_arith)
        requires
            iabs(c) == c || iabs(c) == -c,
    ;
    lemma_unit_norm_w(s, c);
}

} // verus!
