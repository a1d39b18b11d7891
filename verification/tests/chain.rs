use arm_pid::chain::Chain;
use arm_pid::controller::{calculate_error_quaternion, degrees_to_rads, get_joint_rotation};
use arm_pid::fx::FX_ONE;
use arm_pid::joint::{select_command, TargetCommand, MAX_TARGET_ANGLE};
use arm_pid::vec3::Vec3Fx;

const DT_60HZ: i64 = 16_667;

fn targets(c: &Chain) -> Vec<i64> {
    let mut out = Vec::new();
    let mut i = 0;
    while i < c.len() {
        if let Some(j) = c.nodes[i].joint {
            out.push(j.target_angle);
        }
        i += 1;
    }
    out
}

#[test]
fn demo_arm_geometry_at_rest() {
    let arm = Chain::demo_arm();
    assert_eq!(arm.len(), 4);
    // Three half-length steps up plus two widths sideways: the effector
    // starts at (0.6, 4.5, 0).
    let tip = arm.world_position(3);
    assert_eq!(tip, Vec3Fx::new(600_000, 4_500_000, 0));
    // The root link's own origin sits half a link up.
    let base = arm.world_position(0);
    assert_eq!(base, Vec3Fx::new(0, 750_000, 0));
}

#[test]
fn increments_and_decrements_never_leave_range() {
    let mut arm = Chain::demo_arm();
    for _ in 0..5 {
        arm.apply_target_command(TargetCommand::Decrement);
    }
    for t in targets(&arm) {
        assert_eq!(t, 0);
    }
    for _ in 0..400 {
        arm.apply_target_command(TargetCommand::Increment);
    }
    for t in targets(&arm) {
        assert_eq!(t, MAX_TARGET_ANGLE);
    }
    for _ in 0..10 {
        arm.apply_target_command(TargetCommand::Decrement);
    }
    for t in targets(&arm) {
        assert!(t >= 0 && t <= MAX_TARGET_ANGLE);
        assert_eq!(t, MAX_TARGET_ANGLE - 10_000_000);
    }
}

#[test]
fn reset_zeroes_every_target() {
    let mut arm = Chain::demo_arm();
    for _ in 0..37 {
        arm.apply_target_command(TargetCommand::Increment);
    }
    for t in targets(&arm) {
        assert_eq!(t, 37_000_000);
    }
    arm.apply_target_command(TargetCommand::Reset);
    for t in targets(&arm) {
        assert_eq!(t, 0);
    }
}

#[test]
fn simultaneous_presses_favor_increment() {
    // The key polling checks increment, then decrement, then reset.
    assert_eq!(select_command(true, true, true), Some(TargetCommand::Increment));
    assert_eq!(select_command(true, false, false), Some(TargetCommand::Increment));
    assert_eq!(select_command(false, true, true), Some(TargetCommand::Decrement));
    assert_eq!(select_command(false, false, true), Some(TargetCommand::Reset));
    assert_eq!(select_command(false, false, false), None);
}

#[test]
fn pid_ticks_drive_the_base_joint_toward_its_target() {
    let mut arm = Chain::demo_arm();
    // Command 90 degrees on every joint.
    for _ in 0..90 {
        arm.apply_target_command(TargetCommand::Increment);
    }
    for _ in 0..600 {
        arm.pid_controller(DT_60HZ);
    }
    // The base joint turns about Y; its orientation must be close to the
    // commanded quarter turn.
    let base = arm.nodes[0];
    let j = base.joint.unwrap();
    assert_eq!(j.target_angle, 90_000_000);
    let target = get_joint_rotation(j.rotation_axis, degrees_to_rads(j.target_angle));
    let err = calculate_error_quaternion(base.transform.rotation, target);
    let mag = ((err.x as f64).powi(2) + (err.y as f64).powi(2) + (err.z as f64).powi(2)).sqrt()
        / FX_ONE as f64;
    let err_degrees = 2.0 * mag.min(1.0).asin() * 180.0 / std::f64::consts::PI;
    assert!(err_degrees < 1.0, "base error {} degrees", err_degrees);
}

#[test]
fn rotating_the_base_carries_the_whole_arm() {
    let mut arm = Chain::demo_arm();
    // Command a target only reachable by moving: after enough ticks the
    // effector must have left its rest position but stay on the arm's
    // reachable sphere around the base pivot.
    for _ in 0..90 {
        arm.apply_target_command(TargetCommand::Increment);
    }
    let before = arm.world_position(3);
    for _ in 0..240 {
        arm.pid_controller(DT_60HZ);
    }
    let after = arm.world_position(3);
    assert!(before != after);
    // Joints 1 and 2 bend about X in the YZ plane; joint 0 turns about Y.
    // Whatever the pose, the effector's distance from the origin cannot
    // exceed the fully stretched arm.
    let x = after.x as f64;
    let y = after.y as f64;
    let z = after.z as f64;
    let reach = (x * x + y * y + z * z).sqrt();
    assert!(reach <= 4_700_000.0, "reach {}", reach);
}

#[test]
fn arm_at_rest_is_left_exactly_in_place() {
    // Targets are zero and every joint already sits at zero: ticking the
    // controller changes nothing at all, tick after tick.
    let mut arm = Chain::demo_arm();
    let before: Vec<_> = (0..arm.len()).map(|i| arm.nodes[i]).collect();
    for _ in 0..25 {
        arm.pid_controller(DT_60HZ);
    }
    for (i, b) in before.iter().enumerate() {
        assert_eq!(arm.nodes[i], *b);
    }
}

#[test]
fn zero_dt_tick_cannot_move_the_arm() {
    let mut arm = Chain::demo_arm();
    for _ in 0..45 {
        arm.apply_target_command(TargetCommand::Increment);
    }
    let before: Vec<_> = (0..arm.len()).map(|i| arm.nodes[i].transform).collect();
    arm.pid_controller(0);
    for (i, b) in before.iter().enumerate() {
        assert_eq!(arm.nodes[i].transform, *b);
    }
}

#[test]
fn constant_rate_spin_changes_orientation_only() {
    let mut arm = Chain::demo_arm();
    let before = arm.nodes[1];
    arm.process_rotations(DT_60HZ);
    let after = arm.nodes[1];
    // The joint state (gains, memory, target) is untouched; the transform
    // has rotated about the pivot.
    assert_eq!(before.joint, after.joint);
    assert!(before.transform.rotation != after.transform.rotation);
}
