use rigid2d::arena::Handle;
use rigid2d::fx::{Vec2, SCALE};
use rigid2d::model::{
    AngleLimits, BodyType, CombineRule, Material, MotorMode, Pose, Shape, SimError, Velocity,
};
use rigid2d::world::World;

fn pose(x: i64, y: i64) -> Pose {
    Pose { pos: Vec2 { x, y }, angle: 0 }
}

fn still() -> Velocity {
    Velocity { linvel: Vec2 { x: 0, y: 0 }, angvel: 0 }
}

fn unit_material() -> Material {
    Material { restitution: 0, friction: 500_000, density: SCALE }
}

fn new_world() -> World {
    World::new(CombineRule::Max, CombineRule::Average)
}

#[test]
fn handle_round_trip_never_aliases() {
    let mut w = new_world();
    let mut handles: Vec<Handle> = Vec::new();
    for i in 0..10 {
        handles.push(w.new_body(BodyType::Dynamic, pose(i * SCALE, 0), still(), true));
    }
    // remove a subset
    let removed = [handles[1], handles[3], handles[4], handles[8]];
    for h in removed.iter() {
        assert!(w.remove_body(*h).is_ok());
    }
    // insert new bodies: none may resolve to a removed entity
    let mut fresh: Vec<Handle> = Vec::new();
    for i in 0..6 {
        fresh.push(w.new_body(BodyType::Dynamic, pose(0, i * SCALE), still(), true));
    }
    for h in removed.iter() {
        assert!(w.get_pose(*h).is_none());
        assert!(w.get_velocity(*h).is_none());
        for f in fresh.iter() {
            assert_ne!(*h, *f);
        }
    }
    // survivors still resolve to their own data
    assert_eq!(w.get_pose(handles[0]).unwrap().pos.x, 0);
    assert_eq!(w.get_pose(handles[2]).unwrap().pos.x, 2 * SCALE);
}

#[test]
fn stale_handle_operations_report_invalid_handle() {
    let mut w = new_world();
    let h = w.new_body(BodyType::KinematicVelocityBased, pose(0, 0), still(), true);
    assert!(w.remove_body(h).is_ok());
    assert!(matches!(w.remove_body(h), Err(SimError::InvalidHandle)));
    assert_eq!(
        w.set_kinematic_velocity_target(h, still()),
        Err(SimError::InvalidHandle)
    );
    assert_eq!(
        w.attach_collider(Shape::Ball { radius: SCALE }, unit_material(), h),
        Err(SimError::InvalidHandle)
    );
}

#[test]
fn kinematic_target_kind_is_checked() {
    let mut w = new_world();
    let v = w.new_body(BodyType::KinematicVelocityBased, pose(0, 0), still(), true);
    let p = w.new_body(BodyType::KinematicPositionBased, pose(0, 0), still(), true);
    let d = w.new_body(BodyType::Dynamic, pose(0, 0), still(), true);
    assert!(w.set_kinematic_velocity_target(v, still()).is_ok());
    assert!(w.set_kinematic_position_target(p, pose(1, 1)).is_ok());
    assert_eq!(
        w.set_kinematic_position_target(v, pose(1, 1)),
        Err(SimError::IncompatibleKinematicTarget)
    );
    assert_eq!(
        w.set_kinematic_velocity_target(p, still()),
        Err(SimError::IncompatibleKinematicTarget)
    );
    assert_eq!(
        w.set_kinematic_velocity_target(d, still()),
        Err(SimError::IncompatibleKinematicTarget)
    );
}

#[test]
fn zero_density_dynamic_body_reports_degenerate_mass() {
    let mut w = new_world();
    let d = w.new_body(BodyType::Dynamic, pose(0, 0), still(), true);
    let weightless = Material { restitution: 0, friction: 0, density: 0 };
    let r = w.attach_collider(Shape::Ball { radius: SCALE }, weightless, d);
    assert_eq!(r, Err(SimError::DegenerateMassProperties));
    // the collider is attached all the same, and the body is non-physical
    assert_eq!(w.collider_handles().len(), 1);
    // a fixed body never has mass properties, so no error there
    let f = w.new_body(BodyType::Fixed, pose(0, 0), still(), true);
    assert!(w.attach_collider(Shape::Ball { radius: SCALE }, weightless, f).is_ok());
}

#[test]
fn removing_a_body_detaches_colliders_and_joints() {
    let mut w = new_world();
    let a = w.new_body(BodyType::Fixed, pose(0, 0), still(), true);
    let b = w.new_body(BodyType::Dynamic, pose(0, -SCALE), still(), true);
    let ca = w
        .attach_collider(Shape::Cuboid { hx: SCALE, hy: SCALE }, unit_material(), a)
        .unwrap();
    let cb = w
        .attach_collider(Shape::Ball { radius: SCALE / 2 }, unit_material(), b)
        .unwrap();
    let j = w
        .new_joint(
            a,
            b,
            Vec2 { x: 0, y: 0 },
            Vec2 { x: 0, y: SCALE },
            MotorMode::Inactive,
            0,
            Some(AngleLimits { lower: -SCALE, upper: SCALE }),
        )
        .unwrap();
    let detached = w.remove_body(b).unwrap();
    assert_eq!(detached.colliders, vec![cb]);
    assert_eq!(detached.joints, vec![j]);
    assert!(w.get_collider(cb).is_none());
    assert!(w.get_joint(j).is_none());
    // the other body and its collider survive
    assert!(w.get_pose(a).is_some());
    assert!(w.get_collider(ca).is_some());
}

#[test]
fn live_handle_iteration_matches_the_stores() {
    let mut w = new_world();
    let a = w.new_body(BodyType::Fixed, pose(0, 0), still(), true);
    let b = w.new_body(BodyType::Dynamic, pose(0, SCALE), still(), true);
    let c = w.new_body(BodyType::Dynamic, pose(SCALE, 0), still(), true);
    w.remove_body(b).unwrap();
    let live = w.body_handles();
    assert_eq!(live.len(), 2);
    assert!(live.contains(&a));
    assert!(live.contains(&c));
    assert!(!live.contains(&b));
}
