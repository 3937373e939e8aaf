use rigid2d::fx::{Vec2, HALF_PI_FX, PI_FX, SCALE};
use rigid2d::model::{
    AngleLimits, BodyType, CombineRule, Material, MotorMode, Pose, Shape, Velocity,
};
use rigid2d::world::World;

const DT: i64 = 16_667;
const NO_GRAVITY: Vec2 = Vec2 { x: 0, y: 0 };

fn pose(x: i64, y: i64) -> Pose {
    Pose { pos: Vec2 { x, y }, angle: 0 }
}

fn still() -> Velocity {
    Velocity { linvel: Vec2 { x: 0, y: 0 }, angvel: 0 }
}

fn bar_material() -> Material {
    Material { restitution: 0, friction: 500_000, density: SCALE }
}

fn new_world() -> World {
    World::new(CombineRule::Max, CombineRule::Average)
}

/// A bar pinned to a fixed hub at the origin through its upper end.
fn pinned_bar(w: &mut World, motor: MotorMode, max_force: i64, limits: Option<AngleLimits>) -> (
    rigid2d::arena::Handle,
    rigid2d::arena::Handle,
) {
    let hub = w.new_body(BodyType::Fixed, pose(0, 0), still(), true);
    let bar = w.new_body(BodyType::Dynamic, pose(0, -500_000), still(), false);
    w.attach_collider(
        Shape::Cuboid { hx: 100_000, hy: 500_000 },
        bar_material(),
        bar,
    )
    .unwrap();
    w.new_joint(
        hub,
        bar,
        Vec2 { x: 0, y: 0 },
        Vec2 { x: 0, y: 500_000 },
        motor,
        max_force,
        limits,
    )
    .unwrap();
    (hub, bar)
}

#[test]
fn position_motor_converges_to_its_target_angle() {
    let mut w = new_world();
    let target = HALF_PI_FX;
    let (hub, bar) = pinned_bar(
        &mut w,
        MotorMode::PositionTarget { target_angle: target, stiffness: 1_000_000_000, damping: 150_000_000 },
        100_000_000,
        None,
    );
    for _ in 0..900 {
        w.step(DT, NO_GRAVITY);
    }
    let rel = w.get_pose(bar).unwrap().angle - w.get_pose(hub).unwrap().angle;
    assert!(
        (rel - target).abs() < 50_000,
        "relative angle {} missed target {}",
        rel,
        target
    );
}

#[test]
fn motor_never_pushes_a_joint_past_its_limits() {
    let mut w = new_world();
    let upper = PI_FX / 4;
    let lim = AngleLimits { lower: -PI_FX, upper };
    let (hub, bar) = pinned_bar(
        &mut w,
        MotorMode::VelocityTarget { target_vel: 1_500_000, damping: 30_000_000 },
        100_000_000,
        Some(lim),
    );
    let mut best: i64 = 0;
    for _ in 0..600 {
        w.step(DT, NO_GRAVITY);
        let rel = w.get_pose(bar).unwrap().angle - w.get_pose(hub).unwrap().angle;
        // never beyond the bounds, even transiently between steps
        assert!(rel <= upper, "limit exceeded: {} > {}", rel, upper);
        assert!(rel >= lim.lower);
        if rel > best {
            best = rel;
        }
    }
    // the motor did drive the joint up to (near) its upper limit
    assert!(best > upper - 100_000, "joint never reached its limit: {}", best);
}

#[test]
fn velocity_motor_acceleration_is_bounded_by_its_force_cap() {
    let mut w = new_world();
    // hub and bar share their centers, so the pin adds no torque of its own
    let hub = w.new_body(BodyType::Fixed, pose(0, 0), still(), true);
    let bar = w.new_body(BodyType::Dynamic, pose(0, 0), still(), false);
    w.attach_collider(
        Shape::Cuboid { hx: 100_000, hy: 500_000 },
        bar_material(),
        bar,
    )
    .unwrap();
    let max_force = 10_000; // 0.01 in units: far below what the target demands
    w.new_joint(
        hub,
        bar,
        Vec2 { x: 0, y: 0 },
        Vec2 { x: 0, y: 0 },
        MotorMode::VelocityTarget { target_vel: 10_000_000, damping: 1_000_000_000 },
        max_force,
        None,
    )
    .unwrap();
    // inverse inertia of the bar, as the library derives it
    let body = w.get_body(bar).unwrap();
    let inv_inertia = body.inv_inertia;
    // per-step change of angular velocity may never exceed invI * F * dt
    let cap_impulse = rigid2d::fx::fx_mul(max_force, DT);
    let bound = rigid2d::fx::fx_mul(inv_inertia, cap_impulse);
    let mut prev = w.get_velocity(bar).unwrap().angvel;
    for _ in 0..120 {
        w.step(DT, NO_GRAVITY);
        let cur = w.get_velocity(bar).unwrap().angvel;
        assert!(
            (cur - prev).abs() <= bound + 1,
            "angular acceleration {} exceeds motor budget {}",
            (cur - prev).abs(),
            bound
        );
        prev = cur;
    }
    // and the motor does make progress under its cap
    assert!(prev > 0);
}

#[test]
fn revolute_lock_holds_the_anchors_together_under_gravity() {
    let mut w = new_world();
    let (_, bar) = pinned_bar(&mut w, MotorMode::Inactive, 0, None);
    let gravity = Vec2 { x: 0, y: -9_810_000 };
    for _ in 0..300 {
        w.step(DT, gravity);
    }
    // the bar hangs from the pin: its center stays one half-length below it
    let p = w.get_pose(bar).unwrap();
    assert!(p.pos.x.abs() < 50_000, "bar drifted sideways: {}", p.pos.x);
    assert!(
        (p.pos.y + 500_000).abs() < 50_000,
        "bar fell off its pin: {}",
        p.pos.y
    );
}
