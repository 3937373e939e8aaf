use rigid2d::fx::{Vec2, SCALE};
use rigid2d::model::{BodyType, CombineRule, Material, Pose, Shape, Velocity};
use rigid2d::world::World;

const DT: i64 = 16_667; // one sixtieth of a second
const GRAVITY: Vec2 = Vec2 { x: 0, y: -9_810_000 };

fn pose(x: i64, y: i64) -> Pose {
    Pose { pos: Vec2 { x, y }, angle: 0 }
}

fn still() -> Velocity {
    Velocity { linvel: Vec2 { x: 0, y: 0 }, angvel: 0 }
}

fn mat(restitution: i64) -> Material {
    Material { restitution, friction: 500_000, density: SCALE }
}

fn new_world() -> World {
    World::new(CombineRule::Max, CombineRule::Average)
}

/// Ground slab whose top surface lies at y = 0.
fn add_ground(w: &mut World, restitution: i64) -> rigid2d::arena::Handle {
    let g = w.new_body(BodyType::Fixed, pose(0, -1_000_000), still(), true);
    w.attach_collider(
        Shape::Cuboid { hx: 20_000_000, hy: 1_000_000 },
        mat(restitution),
        g,
    )
    .unwrap();
    g
}

#[test]
fn fixed_body_pose_is_bit_identical_over_many_steps() {
    let mut w = new_world();
    let g = w.new_body(
        BodyType::Fixed,
        Pose { pos: Vec2 { x: 12_345, y: -98_765 }, angle: 4_321 },
        still(),
        true,
    );
    w.attach_collider(Shape::Cuboid { hx: 20_000_000, hy: 1_000_000 }, mat(0), g)
        .unwrap();
    // a dynamic ball keeps colliding with it, so the solver runs against it
    let b = w.new_body(BodyType::Dynamic, pose(0, 2_000_000), still(), true);
    w.attach_collider(Shape::Ball { radius: 500_000 }, mat(500_000), b)
        .unwrap();
    let before = w.get_pose(g).unwrap();
    let before_vel = w.get_velocity(g).unwrap();
    for _ in 0..200 {
        w.step(DT, GRAVITY);
    }
    let after = w.get_pose(g).unwrap();
    assert_eq!(before.pos.x, after.pos.x);
    assert_eq!(before.pos.y, after.pos.y);
    assert_eq!(before.angle, after.angle);
    assert_eq!(before_vel, w.get_velocity(g).unwrap());
}

#[test]
fn resting_ball_velocity_converges_to_zero_without_bouncing() {
    let mut w = new_world();
    add_ground(&mut w, 0);
    // a ball resting on the ground, restitution zero
    let b = w.new_body(BodyType::Dynamic, pose(0, 499_000), still(), true);
    w.attach_collider(Shape::Ball { radius: 500_000 }, mat(0), b).unwrap();
    for _ in 0..120 {
        w.step(DT, GRAVITY);
    }
    let v = w.get_velocity(b).unwrap();
    let p = w.get_pose(b).unwrap();
    assert!(v.linvel.y.abs() < 10_000, "vertical velocity {}", v.linvel.y);
    // no sustained penetration: the center stays near one radius above ground
    assert!((p.pos.y - 500_000).abs() < 10_000, "rest height {}", p.pos.y);
}

#[test]
fn elastic_ball_rebounds_to_its_drop_height() {
    let mut w = new_world();
    add_ground(&mut w, SCALE);
    // ball center starts at 2.0, rests at 0.5: drop height 1.5
    let start_y = 2_000_000;
    let b = w.new_body(BodyType::Dynamic, pose(0, start_y), still(), false);
    w.attach_collider(Shape::Ball { radius: 500_000 }, mat(SCALE), b).unwrap();
    let mut bounced = false;
    let mut apex: i64 = 0;
    for _ in 0..240 {
        w.step(DT, GRAVITY);
        let v = w.get_velocity(b).unwrap();
        let p = w.get_pose(b).unwrap();
        if v.linvel.y > 0 {
            bounced = true;
        }
        if bounced {
            if p.pos.y > apex {
                apex = p.pos.y;
            }
            if v.linvel.y < 0 && apex > 0 {
                break;
            }
        }
    }
    assert!(bounced, "the ball never rebounded");
    // the first rebound apex returns to the drop height within tolerance
    assert!(
        (apex - start_y).abs() < 150_000,
        "apex {} differs from start {}",
        apex,
        start_y
    );
}

#[test]
fn dropped_cuboid_rests_on_the_ground_surface() {
    let mut w = new_world();
    // ground with half-height 0.1, top surface at y = 0
    let g = w.new_body(BodyType::Fixed, pose(0, -100_000), still(), true);
    w.attach_collider(Shape::Cuboid { hx: 5_000_000, hy: 100_000 }, mat(0), g)
        .unwrap();
    // one dynamic cuboid dropped from y = 2.0, no joints
    let half = 100_000;
    let b = w.new_body(BodyType::Dynamic, pose(0, 2_000_000), still(), true);
    w.attach_collider(Shape::Cuboid { hx: half, hy: half }, mat(0), b).unwrap();
    // five seconds at sixty steps per second
    for _ in 0..300 {
        w.step(DT, GRAVITY);
    }
    let p = w.get_pose(b).unwrap();
    let v = w.get_velocity(b).unwrap();
    // resting height: ground top plus the cuboid's half height, within 1e-2
    assert!((p.pos.y - half).abs() <= 10_000, "rest height {}", p.pos.y);
    assert!(v.linvel.y.abs() <= 10_000, "vertical velocity {}", v.linvel.y);
}

#[test]
fn stepping_an_empty_world_is_harmless() {
    let mut w = new_world();
    for _ in 0..10 {
        w.step(DT, GRAVITY);
    }
    assert_eq!(w.body_handles().len(), 0);
    assert_eq!(w.divergence_events(), 0);
}

#[test]
fn massless_dynamic_body_is_not_integrated() {
    // a dynamic body with no collider has no mass yet: it is non-physical
    // until a collider gives it mass, so gravity does not move it
    let mut w = new_world();
    let b = w.new_body(BodyType::Dynamic, pose(0, 2_000_000), still(), false);
    for _ in 0..60 {
        w.step(DT, GRAVITY);
    }
    assert_eq!(w.get_pose(b).unwrap().pos.y, 2_000_000);
    // once it has a collider, it falls
    w.attach_collider(Shape::Ball { radius: 500_000 }, mat(0), b).unwrap();
    w.step(DT, GRAVITY);
    assert!(w.get_pose(b).unwrap().pos.y < 2_000_000);
}

#[test]
fn elapsed_time_grows_by_exactly_one_step() {
    let mut w = new_world();
    assert_eq!(w.elapsed_time(), 0);
    for _ in 0..60 {
        w.step(DT, GRAVITY);
    }
    assert_eq!(w.elapsed_time(), 60 * DT);
}

#[test]
fn velocity_based_kinematic_platform_follows_its_target_exactly() {
    let mut w = new_world();
    let k = w.new_body(BodyType::KinematicVelocityBased, pose(0, 0), still(), true);
    w.attach_collider(Shape::Cuboid { hx: 2_000_000, hy: 200_000 }, mat(0), k)
        .unwrap();
    let target = Velocity { linvel: Vec2 { x: 1_000_000, y: -2_000_000 }, angvel: 0 };
    w.set_kinematic_velocity_target(k, target).unwrap();
    let before = w.get_pose(k).unwrap();
    w.step(DT, GRAVITY);
    let after = w.get_pose(k).unwrap();
    // the platform advances by exactly v * dt, unopposed by gravity or contacts
    assert_eq!(after.pos.x - before.pos.x, 16_667);
    assert_eq!(after.pos.y - before.pos.y, -33_334);
    assert_eq!(w.get_velocity(k).unwrap().linvel, target.linvel);
}

#[test]
fn position_based_kinematic_platform_adopts_its_target_pose() {
    let mut w = new_world();
    let k = w.new_body(BodyType::KinematicPositionBased, pose(0, 0), still(), true);
    w.attach_collider(Shape::Cuboid { hx: 2_000_000, hy: 200_000 }, mat(0), k)
        .unwrap();
    let target = Pose { pos: Vec2 { x: 250_000, y: 125_000 }, angle: 10_000 };
    w.set_kinematic_position_target(k, target).unwrap();
    w.step(DT, GRAVITY);
    assert_eq!(w.get_pose(k).unwrap(), target);
}

#[test]
fn resting_body_falls_asleep_only_if_allowed() {
    let mut w = new_world();
    add_ground(&mut w, 0);
    let b = w.new_body(BodyType::Dynamic, pose(0, 499_000), still(), true);
    w.attach_collider(Shape::Ball { radius: 500_000 }, mat(0), b).unwrap();
    for _ in 0..240 {
        w.step(DT, GRAVITY);
    }
    let rested = w.get_body(b).unwrap();
    assert!(rested.sleeping, "a long-resting body should sleep");
    // a body that may not sleep never does
    let c = w.new_body(BodyType::Dynamic, pose(3_000_000, 499_000), still(), false);
    w.attach_collider(Shape::Ball { radius: 500_000 }, mat(0), c).unwrap();
    for _ in 0..240 {
        w.step(DT, GRAVITY);
    }
    assert!(!w.get_body(c).unwrap().sleeping);
}
