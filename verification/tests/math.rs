use rigid2d::fx::{
    cos_fx, fx_add, fx_div, fx_mul, fx_sqrt, fx_sub, sin_fx, Vec2, FX_MAX, HALF_PI_FX, PI_FX,
    SCALE,
};
use rigid2d::model::{combine_coeff, shape_inertia, shape_mass, CombineRule, Shape};
use rigid2d::arena::Handle;
use rigid2d::model::{BodyType, Joint, MotorMode, Pose, RigidBody, Velocity};
use rigid2d::solver::{clamped_partner_angle, joint_motor_impulse, motor_impulse};

#[test]
fn fixed_point_products_are_exact() {
    assert_eq!(fx_mul(2_500_000, 4_000_000), 10_000_000);
    assert_eq!(fx_mul(-2_500_000, 4_000_000), -10_000_000);
    // truncation is toward zero on both signs
    assert_eq!(fx_mul(1, 1), 0);
    assert_eq!(fx_mul(-1, 1), 0);
    assert_eq!(fx_div(1_000_000, 3_000_000), 333_333);
    assert_eq!(fx_div(-1_000_000, 3_000_000), -333_333);
}

#[test]
fn arithmetic_saturates_at_the_bounds() {
    assert_eq!(fx_add(FX_MAX, FX_MAX), FX_MAX);
    assert_eq!(fx_sub(-FX_MAX, FX_MAX), -FX_MAX);
    assert_eq!(fx_mul(FX_MAX, FX_MAX), FX_MAX);
    assert_eq!(fx_mul(-FX_MAX, FX_MAX), -FX_MAX);
}

#[test]
fn square_root_is_the_exact_integer_root() {
    assert_eq!(fx_sqrt(0), 0);
    assert_eq!(fx_sqrt(4_000_000), 2_000_000);
    assert_eq!(fx_sqrt(2_000_000), 1_414_213);
    assert_eq!(fx_sqrt(1), 1_000);
}

#[test]
fn trigonometry_is_exact_at_the_quarter_turns() {
    assert_eq!(sin_fx(0), 0);
    assert_eq!(cos_fx(0), SCALE);
    assert_eq!(sin_fx(HALF_PI_FX), SCALE);
    assert_eq!(sin_fx(-HALF_PI_FX), -SCALE);
    assert_eq!(sin_fx(PI_FX), 0);
    assert_eq!(cos_fx(PI_FX), -SCALE);
    assert_eq!(cos_fx(HALF_PI_FX), 0);
    // away from the landmarks the polynomial stays close
    assert!((sin_fx(HALF_PI_FX / 3) - 500_001).abs() < 300);
    assert!(sin_fx(2 * PI_FX).abs() < 400);
}

#[test]
fn material_combination_rules() {
    assert_eq!(combine_coeff(CombineRule::Max, 300_000, 700_000), 700_000);
    assert_eq!(combine_coeff(CombineRule::Min, 300_000, 700_000), 300_000);
    assert_eq!(combine_coeff(CombineRule::Average, 300_000, 700_000), 500_000);
    assert_eq!(combine_coeff(CombineRule::Multiply, 300_000, 700_000), 210_000);
}

#[test]
fn shape_mass_properties_follow_the_documented_formulas() {
    // unit ball, unit density: mass is pi, inertia is pi / 2
    let ball = Shape::Ball { radius: SCALE };
    assert_eq!(shape_mass(ball, SCALE), PI_FX);
    assert_eq!(shape_inertia(ball, SCALE), fx_mul(PI_FX, 500_000));
    // 2 x 1 box of unit density: mass 4 * hx * hy = 2
    let cuboid = Shape::Cuboid { hx: SCALE, hy: SCALE / 2 };
    assert_eq!(shape_mass(cuboid, SCALE), 2_000_000);
}

#[test]
fn motor_impulse_is_clamped_by_the_force_budget() {
    let dt = 16_667;
    // budget: 10_000 * 16_667 / SCALE = 166
    assert_eq!(motor_impulse(1_000_000, 10_000, dt), 166);
    assert_eq!(motor_impulse(-1_000_000, 10_000, dt), -166);
    assert_eq!(motor_impulse(50, 10_000, dt), 50);
    assert_eq!(motor_impulse(123, 0, dt), 0);
}

#[test]
fn joint_motor_impulse_is_capped_in_every_mode() {
    let dt = 16_667;
    let body = |angvel: i64| RigidBody {
        body_type: BodyType::Dynamic,
        pose: Pose { pos: Vec2 { x: 0, y: 0 }, angle: 0 },
        vel: Velocity { linvel: Vec2 { x: 0, y: 0 }, angvel },
        inv_mass: 5_000_000,
        inv_inertia: 57_000_000,
        can_sleep: false,
        sleeping: false,
        low_motion_steps: 0,
        vel_target: Velocity { linvel: Vec2 { x: 0, y: 0 }, angvel: 0 },
        pose_target: Pose { pos: Vec2 { x: 0, y: 0 }, angle: 0 },
    };
    let joint = |motor: MotorMode| Joint {
        body_a: Handle { index: 0, gen: 0 },
        body_b: Handle { index: 1, gen: 0 },
        local_anchor_a: Vec2 { x: 0, y: 0 },
        local_anchor_b: Vec2 { x: 0, y: 0 },
        motor,
        motor_max_force: 10_000,
        limits: None,
        warm_lin: Vec2 { x: 0, y: 0 },
        warm_motor: 0,
    };
    // budget: 10_000 * dt / SCALE = 166 raw
    let cap = 166;
    let a = body(0);
    let b = body(0);
    // a far-away position target demands far more than the budget
    let jp = joint(MotorMode::PositionTarget {
        target_angle: 3_000_000,
        stiffness: 1_000_000_000,
        damping: 150_000_000,
    });
    assert_eq!(joint_motor_impulse(&jp, &a, &b, dt).abs(), cap);
    // so does a fast velocity target
    let jv = joint(MotorMode::VelocityTarget { target_vel: 10_000_000, damping: 1_000_000_000 });
    assert_eq!(joint_motor_impulse(&jv, &a, &b, dt).abs(), cap);
    // an inactive motor applies nothing
    assert_eq!(joint_motor_impulse(&joint(MotorMode::Inactive), &a, &b, dt), 0);
}

#[test]
fn limit_projection_clamps_the_relative_angle() {
    assert_eq!(clamped_partner_angle(0, 1_000_000, -500_000, 500_000), 500_000);
    assert_eq!(clamped_partner_angle(0, -1_000_000, -500_000, 500_000), -500_000);
    assert_eq!(clamped_partner_angle(200_000, 400_000, -500_000, 500_000), 400_000);
}
