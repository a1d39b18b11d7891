use arm_pid::controller::{calculate_error_quaternion, degrees_to_rads, get_joint_rotation};
use arm_pid::fx::{round_to_hundredths, FX_ONE};
use arm_pid::joint::JointState;
use arm_pid::quat::QuatFx;
use arm_pid::vec3::Vec3Fx;

const DT_60HZ: i64 = 16_667;
const P_GAIN: i64 = 20_000_000;
const I_GAIN: i64 = 8_000_000;
const D_GAIN: i64 = 50_000;

fn axis_x() -> Vec3Fx {
    Vec3Fx::new(FX_ONE, 0, 0)
}

fn axis_y() -> Vec3Fx {
    Vec3Fx::new(0, FX_ONE, 0)
}

/// The angular magnitude of a quaternion error, in degrees.
fn error_angle_degrees(e: QuatFx) -> f64 {
    let x = e.x as f64 / FX_ONE as f64;
    let y = e.y as f64 / FX_ONE as f64;
    let z = e.z as f64 / FX_ONE as f64;
    let norm = (x * x + y * y + z * z).sqrt().min(1.0);
    2.0 * norm.asin() * 180.0 / std::f64::consts::PI
}

#[test]
fn degrees_to_rads_quarter_turn() {
    // 90 degrees scaled by the per-degree radian factor: 90 * 17_453.
    assert_eq!(degrees_to_rads(90_000_000), 1_570_770);
    assert_eq!(degrees_to_rads(0), 0);
    assert_eq!(degrees_to_rads(-90_000_000), -1_570_770);
}

#[test]
fn joint_rotation_at_zero_is_identity() {
    let q = get_joint_rotation(axis_x(), 0);
    assert_eq!(q, QuatFx::identity());
    let q = get_joint_rotation(axis_y(), 0);
    assert_eq!(q, QuatFx::identity());
}

#[test]
fn x_axis_round_trip_returns_identity() {
    // Composing the elementary X rotation for an angle with the one for its
    // negation cancels to the identity within fixed-point tolerance.
    for theta in [700_000i64, 1_570_770, 3_141_593, 123_456, 5_000_000] {
        let fwd = get_joint_rotation(axis_x(), theta);
        let back = get_joint_rotation(axis_x(), -theta);
        let trip = fwd.mul(back);
        assert_eq!(trip.x, 0);
        assert_eq!(trip.y, 0);
        assert_eq!(trip.z, 0);
        assert!(trip.w >= FX_ONE - 5 && trip.w <= FX_ONE, "w = {}", trip.w);
    }
}

#[test]
fn at_rest_joint_emits_identity_and_keeps_zero_memory() {
    let mut joint = JointState::new(P_GAIN, I_GAIN, D_GAIN, Vec3Fx::zero(), axis_y());
    joint.target_angle = 45_000_000;
    // The joint already sits at its target orientation.
    let current = get_joint_rotation(joint.rotation_axis, degrees_to_rads(joint.target_angle));
    for _ in 0..10 {
        let inc = joint.pid_step(current, DT_60HZ);
        assert_eq!(inc, QuatFx::identity());
        assert_eq!(joint.p_prior, Vec3Fx::zero());
        assert_eq!(joint.i_prior, Vec3Fx::zero());
    }
}

#[test]
fn at_rest_holds_even_for_a_mixed_axis() {
    // The per-axis composition is non-physical for mixed axes, but a joint
    // resting at its (composed) target still stays put.
    let axis = Vec3Fx::new(FX_ONE, FX_ONE, 0);
    let mut joint = JointState::new(P_GAIN, I_GAIN, D_GAIN, Vec3Fx::zero(), axis);
    joint.target_angle = 30_000_000;
    let current = get_joint_rotation(joint.rotation_axis, degrees_to_rads(joint.target_angle));
    let inc = joint.pid_step(current, DT_60HZ);
    assert_eq!(inc, QuatFx::identity());
    assert_eq!(joint.p_prior, Vec3Fx::zero());
    assert_eq!(joint.i_prior, Vec3Fx::zero());
}

#[test]
fn zero_dt_is_safe_and_recoverable() {
    let mut joint = JointState::new(P_GAIN, I_GAIN, D_GAIN, Vec3Fx::zero(), axis_x());
    joint.target_angle = 90_000_000;
    let current = QuatFx::identity();
    let before_i = joint.i_prior;
    // A degenerate tick cannot move the orientation or corrupt the memory.
    let inc = joint.pid_step(current, 0);
    assert_eq!(inc, QuatFx::identity());
    assert_eq!(joint.i_prior, before_i);
    // The next ordinary tick works from well-defined memory.
    let inc = joint.pid_step(current, DT_60HZ);
    assert!(inc.x != 0 || inc.y != 0 || inc.z != 0 || inc.w != FX_ONE);
    let target = get_joint_rotation(joint.rotation_axis, degrees_to_rads(joint.target_angle));
    let err = calculate_error_quaternion(inc.mul(current), target);
    assert!(error_angle_degrees(err) < 90.0);
}

#[test]
fn single_axis_joint_converges_to_target() {
    // A joint on the X axis, started at rest and commanded to 90 degrees,
    // must monotonically shed its error until it drops under half a degree.
    let mut joint = JointState::new(P_GAIN, I_GAIN, D_GAIN, Vec3Fx::zero(), axis_x());
    joint.target_angle = 90_000_000;
    let target = get_joint_rotation(joint.rotation_axis, degrees_to_rads(joint.target_angle));
    let mut current = QuatFx::identity();
    let mut prev = error_angle_degrees(calculate_error_quaternion(current, target));
    assert!(prev > 89.0);
    let mut converged_at = None;
    for tick in 0..600 {
        let inc = joint.pid_step(current, DT_60HZ);
        current = inc.mul(current);
        let err = error_angle_degrees(calculate_error_quaternion(current, target));
        assert!(
            err <= prev + 0.01,
            "error grew at tick {}: {} -> {}",
            tick,
            prev,
            err
        );
        prev = err;
        if err < 0.5 {
            converged_at = Some(tick);
            break;
        }
    }
    assert!(converged_at.is_some(), "never below 0.5 deg; last error {}", prev);
}

#[test]
fn rounding_to_hundredths_matches_display() {
    assert_eq!(round_to_hundredths(123_456), 120_000);
    assert_eq!(round_to_hundredths(125_000), 130_000);
    assert_eq!(round_to_hundredths(-125_000), -130_000);
    assert_eq!(round_to_hundredths(-123_456), -120_000);
    assert_eq!(round_to_hundredths(0), 0);
    assert_eq!(round_to_hundredths(4_500_000), 4_500_000);
}
