//! The step driver and the per-phase passes that advance the world by one
//! fixed time step: force application, velocity integration of poses, joint
//! angle-limit projection and sleep bookkeeping.

use vstd::prelude::*;

verus! {

use crate::arena::{Arena, Handle, Slot};
use crate::fx::{
    Vec2, in_range, v2_in_range, sat, sadd, ssub, sm, SCALE, fx_add, fx_sub, fx_mul, fx_div,
    fx_abs, fx_clamp, v2_add, v2_sub, v2_scale,
};
use crate::model::{BodyType, Pose, Velocity, RigidBody, body_wf};

/// Steps a body must stay below the motion thresholds before it sleeps.
pub const SLEEP_STEPS: u32 = 30;

/// Linear speed (per axis) below which a body counts as resting.
pub const SLEEP_LIN_THRESHOLD: i64 = 1_000;

/// Angular speed below which a body counts as resting.
pub const SLEEP_ANG_THRESHOLD: i64 = 2_000;

/// Both stores have the same slots, generations and occupancy: no body was
/// created or destroyed, so every handle keeps its meaning.
pub open spec fn bodies_same_shape(s1: Seq<Slot<RigidBody>>, s2: Seq<Slot<RigidBody>>) -> bool {
    &&& s1.len() == s2.len()
    &&& forall|i: int|
        0 <= i < s1.len() ==> (#[trigger] s2[i]).gen == s1[i].gen && (s2[i].val is Some <==> s1[i].val is Some)
}

/// Every fixed body's slot is bit-identical: a fixed body never moves.
pub open spec fn fixed_preserved(s1: Seq<Slot<RigidBody>>, s2: Seq<Slot<RigidBody>>) -> bool {
    forall|i: int|
        0 <= i < s1.len() && (#[trigger] s1[i]).val is Some && s1[i].val->Some_0.body_type
            == BodyType::Fixed ==> s2[i] == s1[i]
}

/// No body's pose changed in this pass.
pub open spec fn poses_preserved(s1: Seq<Slot<RigidBody>>, s2: Seq<Slot<RigidBody>>) -> bool {
    forall|i: int|
        0 <= i < s1.len() && (#[trigger] s1[i]).val is Some ==> s2[i].val is Some
            && s2[i].val->Some_0.pose == s1[i].val->Some_0.pose
}

/// Everything except velocity is preserved: only a body's velocity may move.
pub open spec fn body_config_preserved(b0: RigidBody, b1: RigidBody) -> bool {
    &&& b1.body_type == b0.body_type
    &&& b1.pose == b0.pose
    &&& b1.inv_mass == b0.inv_mass
    &&& b1.inv_inertia == b0.inv_inertia
    &&& b1.can_sleep == b0.can_sleep
    &&& b1.sleeping == b0.sleeping
    &&& b1.low_motion_steps == b0.low_motion_steps
    &&& b1.vel_target == b0.vel_target
    &&& b1.pose_target == b0.pose_target
}

pub open spec fn configs_preserved(s1: Seq<Slot<RigidBody>>, s2: Seq<Slot<RigidBody>>) -> bool {
    forall|i: int|
        0 <= i < s1.len() && (#[trigger] s1[i]).val is Some ==> s2[i].val is Some
            && body_config_preserved(s1[i].val->Some_0, s2[i].val->Some_0)
}

/// What the force pass does to one body: gravity accelerates an awake dynamic
/// body with positive mass; a velocity-based kinematic body adopts its target
/// velocity; a position-based kinematic body adopts the velocity that carries
/// it to its target pose over `dt`; fixed bodies are untouched.
pub open spec fn forces_applied_to(b0: RigidBody, dt: int, g: Vec2, inv_dt: int, b1: RigidBody) -> bool {
    match b0.body_type {
        BodyType::Fixed => b1 == b0,
        BodyType::Dynamic => if b0.inv_mass > 0 && !b0.sleeping {
            &&& body_config_preserved(b0, b1)
            &&& b1.vel.linvel.x as int == sadd(b0.vel.linvel.x as int, sm(g.x as int, dt))
            &&& b1.vel.linvel.y as int == sadd(b0.vel.linvel.y as int, sm(g.y as int, dt))
            &&& b1.vel.angvel == b0.vel.angvel
            &&& b1.sleeping == b0.sleeping
            &&& b1.low_motion_steps == b0.low_motion_steps
        } else {
            b1 == b0
        },
        BodyType::KinematicVelocityBased => {
            &&& body_config_preserved(b0, b1)
            &&& b1.vel == b0.vel_target
            &&& b1.sleeping == b0.sleeping
            &&& b1.low_motion_steps == b0.low_motion_steps
        },
        BodyType::KinematicPositionBased => {
            &&& body_config_preserved(b0, b1)
            &&& b1.vel.linvel.x as int == sm(ssub(b0.pose_target.pos.x as int, b0.pose.pos.x as int), inv_dt)
            &&& b1.vel.linvel.y as int == sm(ssub(b0.pose_target.pos.y as int, b0.pose.pos.y as int), inv_dt)
            &&& b1.vel.angvel as int == sm(ssub(b0.pose_target.angle as int, b0.pose.angle as int), inv_dt)
            &&& b1.sleeping == b0.sleeping
            &&& b1.low_motion_steps == b0.low_motion_steps
        },
    }
}

/// Apply gravity and adopt kinematic targets, before any constraint solving.
pub fn apply_forces(bodies: &mut Arena<RigidBody>, dt: i64, gravity: Vec2)
    requires
        crate::world::bodies_store_wf(old(bodies)@),
        0 < dt as int <= SCALE as int,
        v2_in_range(gravity),
    ensures
        crate::world::bodies_store_wf(final(bodies)@),
        bodies_same_shape(old(bodies)@, final(bodies)@),
        fixed_preserved(old(bodies)@, final(bodies)@),
        poses_preserved(old(bodies)@, final(bodies)@),
        configs_preserved(old(bodies)@, final(bodies)@),
        forall|i: int|
            0 <= i < old(bodies)@.len() && (#[trigger] old(bodies)@[i]).val is Some
                ==> forces_applied_to(
                old(bodies)@[i].val->Some_0,
                dt as int,
                gravity,
                crate::fx::div_scaled(SCALE as int, dt as int),
                final(bodies)@[i].val->Some_0,
            ),
{
    let inv_dt: i64 = fx_div(SCALE, dt);
    let n: usize = bodies.slot_count();
    let mut i: usize = 0;
    while i < n
        invariant
            crate::world::bodies_store_wf(bodies@),
            bodies_same_shape(old(bodies)@, bodies@),
            fixed_preserved(old(bodies)@, bodies@),
            poses_preserved(old(bodies)@, bodies@),
            configs_preserved(old(bodies)@, bodies@),
            n == bodies@.len(),
            i <= n,
            0 < dt as int <= SCALE as int,
            v2_in_range(gravity),
            inv_dt as int == sat(crate::fx::div_scaled(SCALE as int, dt as int)),
            in_range(inv_dt as int),
            forall|ii: int| i <= ii < n ==> bodies@[ii] == old(bodies)@[ii],
            forall|ii: int|
                0 <= ii < i && (#[trigger] old(bodies)@[ii]).val is Some ==> forces_applied_to(
                    old(bodies)@[ii].val->Some_0,
                    dt as int,
                    gravity,
                    crate::fx::div_scaled(SCALE as int, dt as int),
                    bodies@[ii].val->Some_0,
                ),
        decreases n - i,
    {
        match bodies.read_at(i) {
            Option::Some(b) => {
                match b.body_type {
                    BodyType::Fixed => {},
                    BodyType::Dynamic => {
                        if b.inv_mass > 0 && !b.sleeping {
                            let nv = v2_add(b.vel.linvel, v2_scale(gravity, dt));
                            bodies.write_at(
                                i,
                                RigidBody {
                                    vel: Velocity { linvel: nv, angvel: b.vel.angvel },
                                    ..b
                                },
                            );
                        }
                    },
                    BodyType::KinematicVelocityBased => {
                        bodies.write_at(i, RigidBody { vel: b.vel_target, ..b });
                    },
                    BodyType::KinematicPositionBased => {
                        let dvx = fx_mul(fx_sub(b.pose_target.pos.x, b.pose.pos.x), inv_dt);
                        let dvy = fx_mul(fx_sub(b.pose_target.pos.y, b.pose.pos.y), inv_dt);
                        let dw = fx_mul(fx_sub(b.pose_target.angle, b.pose.angle), inv_dt);
                        bodies.write_at(
                            i,
                            RigidBody {
                                vel: Velocity { linvel: Vec2 { x: dvx, y: dvy }, angvel: dw },
                                ..b
                            },
                        );
                    },
                }
            },
            Option::None => {},
        }
        i = i + 1;
    }
}

/// What pose integration does to one body over `dt`: dynamic bodies advance by
/// their solved velocity, velocity-based kinematic bodies by their adopted
/// velocity, position-based kinematic bodies snap to their target pose, and
/// fixed bodies do not move.
pub open spec fn pose_advanced(p0: Pose, v: Velocity, dt: int, p1: Pose) -> bool {
    &&& p1.pos.x as int == sadd(p0.pos.x as int, sm(v.linvel.x as int, dt))
    &&& p1.pos.y as int == sadd(p0.pos.y as int, sm(v.linvel.y as int, dt))
    &&& p1.angle as int == sadd(p0.angle as int, sm(v.angvel as int, dt))
}

pub open spec fn integrated_to(b0: RigidBody, dt: int, b1: RigidBody) -> bool {
    match b0.body_type {
        BodyType::Fixed => b1 == b0,
        BodyType::Dynamic => if b0.inv_mass > 0 && !b0.sleeping {
            &&& pose_advanced(b0.pose, b0.vel, dt, b1.pose)
            &&& b1 == (RigidBody { pose: b1.pose, ..b0 })
        } else {
            b1 == b0
        },
        BodyType::KinematicVelocityBased => {
            &&& pose_advanced(b0.pose, b0.vel, dt, b1.pose)
            &&& b1 == (RigidBody { pose: b1.pose, ..b0 })
        },
        BodyType::KinematicPositionBased => b1 == (RigidBody { pose: b0.pose_target, ..b0 }),
    }
}

/// Advance every body's pose from its solved velocity over `dt`.
pub fn integrate_poses(bodies: &mut Arena<RigidBody>, dt: i64)
    requires
        crate::world::bodies_store_wf(old(bodies)@),
        0 < dt as int <= SCALE as int,
    ensures
        crate::world::bodies_store_wf(final(bodies)@),
        bodies_same_shape(old(bodies)@, final(bodies)@),
        fixed_preserved(old(bodies)@, final(bodies)@),
        forall|i: int|
            0 <= i < old(bodies)@.len() && (#[trigger] old(bodies)@[i]).val is Some
                ==> integrated_to(
                old(bodies)@[i].val->Some_0,
                dt as int,
                final(bodies)@[i].val->Some_0,
            ),
{
    let n: usize = bodies.slot_count();
    let mut i: usize = 0;
    while i < n
        invariant
            crate::world::bodies_store_wf(bodies@),
            bodies_same_shape(old(bodies)@, bodies@),
            fixed_preserved(old(bodies)@, bodies@),
            n == bodies@.len(),
            i <= n,
            0 < dt as int <= SCALE as int,
            forall|ii: int| i <= ii < n ==> bodies@[ii] == old(bodies)@[ii],
            forall|ii: int|
                0 <= ii < i && (#[trigger] old(bodies)@[ii]).val is Some ==> integrated_to(
                    old(bodies)@[ii].val->Some_0,
                    dt as int,
                    bodies@[ii].val->Some_0,
                ),
        decreases n - i,
    {
        match bodies.read_at(i) {
            Option::Some(b) => {
                match b.body_type {
                    BodyType::Fixed => {},
                    BodyType::Dynamic => {
                        if b.inv_mass > 0 && !b.sleeping {
                            let np = advance_pose(b.pose, b.vel, dt);
                            bodies.write_at(i, RigidBody { pose: np, ..b });
                        }
                    },
                    BodyType::KinematicVelocityBased => {
                        let np = advance_pose(b.pose, b.vel, dt);
                        bodies.write_at(i, RigidBody { pose: np, ..b });
                    },
                    BodyType::KinematicPositionBased => {
                        bodies.write_at(i, RigidBody { pose: b.pose_target, ..b });
                    },
                }
            },
            Option::None => {},
        }
        i = i + 1;
    }
}

fn advance_pose(p: Pose, v: Velocity, dt: i64) -> (r: Pose)
    requires
        crate::model::pose_in_range(p),
        crate::model::vel_in_range(v),
        0 < dt as int <= SCALE as int,
    ensures
        pose_advanced(p, v, dt as int, r),
        crate::model::pose_in_range(r),
{
    Pose {
        pos: Vec2 {
            x: fx_add(p.pos.x, fx_mul(v.linvel.x, dt)),
            y: fx_add(p.pos.y, fx_mul(v.linvel.y, dt)),
        },
        angle: fx_add(p.angle, fx_mul(v.angvel, dt)),
    }
}

/// What the sleep pass does to one body: an awake dynamic body that may sleep
/// and has stayed below the motion thresholds for `SLEEP_STEPS` consecutive
/// steps falls asleep; any motion above the thresholds resets the count and
/// wakes the body. Other bodies are untouched.
pub open spec fn sleep_updated_to(b0: RigidBody, b1: RigidBody) -> bool {
    if b0.body_type == BodyType::Dynamic && b0.can_sleep {
        let resting = crate::fx::abs_i(b0.vel.linvel.x as int) <= SLEEP_LIN_THRESHOLD as int
            && crate::fx::abs_i(b0.vel.linvel.y as int) <= SLEEP_LIN_THRESHOLD as int
            && crate::fx::abs_i(b0.vel.angvel as int) <= SLEEP_ANG_THRESHOLD as int;
        if resting {
            let c = if b0.low_motion_steps as int + 1 < u32::MAX as int {
                b0.low_motion_steps as int + 1
            } else {
                u32::MAX as int
            };
            b1 == (RigidBody {
                low_motion_steps: b1.low_motion_steps,
                sleeping: b1.sleeping,
                ..b0
            }) && b1.low_motion_steps as int == c && b1.sleeping == (c >= SLEEP_STEPS as int
                || b0.sleeping)
        } else {
            b1 == (RigidBody { low_motion_steps: 0, sleeping: false, ..b0 })
        }
    } else {
        b1 == b0
    }
}

/// Update sleep counters from the post-step velocities.
pub fn update_sleep(bodies: &mut Arena<RigidBody>)
    requires
        crate::world::bodies_store_wf(old(bodies)@),
    ensures
        crate::world::bodies_store_wf(final(bodies)@),
        bodies_same_shape(old(bodies)@, final(bodies)@),
        fixed_preserved(old(bodies)@, final(bodies)@),
        poses_preserved(old(bodies)@, final(bodies)@),
        forall|i: int|
            0 <= i < old(bodies)@.len() && (#[trigger] old(bodies)@[i]).val is Some
                ==> sleep_updated_to(old(bodies)@[i].val->Some_0, final(bodies)@[i].val->Some_0),
{
    let n: usize = bodies.slot_count();
    let mut i: usize = 0;
    while i < n
        invariant
            crate::world::bodies_store_wf(bodies@),
            bodies_same_shape(old(bodies)@, bodies@),
            fixed_preserved(old(bodies)@, bodies@),
            poses_preserved(old(bodies)@, bodies@),
            n == bodies@.len(),
            i <= n,
            forall|ii: int| i <= ii < n ==> bodies@[ii] == old(bodies)@[ii],
            forall|ii: int|
                0 <= ii < i && (#[trigger] old(bodies)@[ii]).val is Some ==> sleep_updated_to(
                    old(bodies)@[ii].val->Some_0,
                    bodies@[ii].val->Some_0,
                ),
        decreases n - i,
    {
        match bodies.read_at(i) {
            Option::Some(b) => {
                if matches!(b.body_type, BodyType::Dynamic) && b.can_sleep {
                    let resting = fx_abs(b.vel.linvel.x) <= SLEEP_LIN_THRESHOLD && fx_abs(
                        b.vel.linvel.y,
                    ) <= SLEEP_LIN_THRESHOLD && fx_abs(b.vel.angvel) <= SLEEP_ANG_THRESHOLD;
                    if resting {
                        let c: u32 = if b.low_motion_steps < u32::MAX - 1 {
                            b.low_motion_steps + 1
                        } else {
                            u32::MAX
                        };
                        bodies.write_at(
                            i,
                            RigidBody {
                                low_motion_steps: c,
                                sleeping: c >= SLEEP_STEPS || b.sleeping,
                                ..b
                            },
                        );
                    } else {
                        bodies.write_at(
                            i,
                            RigidBody { low_motion_steps: 0, sleeping: false, ..b },
                        );
                    }
                }
            },
            Option::None => {},
        }
        i = i + 1;
    }
}

} // verus!
