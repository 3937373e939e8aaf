//! The entities the simulation owns: rigid bodies, colliders and revolute
//! joints, with their well-formedness predicates and mass properties.

use vstd::prelude::*;

verus! {

use crate::arena::Handle;
use crate::fx::{
    Vec2, v2_in_range, in_range, sat, mul_scaled, sm, SCALE, PI_FX, fx_mul, fx_div, fx_add,
};

/// Classification of a body: how the integrator and the solver treat it.
#[derive(Clone, Copy, PartialEq, Eq, Structural, Debug)]
pub enum BodyType {
    /// Never moves; an infinite-mass obstacle.
    Fixed,
    /// Fully simulated: forces, contacts and joints move it.
    Dynamic,
    /// Follows an externally supplied velocity; pushes others, is never pushed.
    KinematicVelocityBased,
    /// Adopts an externally supplied next pose; pushes others, is never pushed.
    KinematicPositionBased,
}

/// A position in the plane plus an orientation angle in micro-radians.
#[derive(Clone, Copy, PartialEq, Eq, Structural, Debug)]
pub struct Pose {
    pub pos: Vec2,
    pub angle: i64,
}

#[derive(Clone, Copy, PartialEq, Eq, Structural, Debug)]
pub struct Velocity {
    pub linvel: Vec2,
    pub angvel: i64,
}

pub open spec fn pose_in_range(p: Pose) -> bool {
    v2_in_range(p.pos) && in_range(p.angle as int)
}

pub open spec fn vel_in_range(v: Velocity) -> bool {
    v2_in_range(v.linvel) && in_range(v.angvel as int)
}

#[derive(Clone, Copy, PartialEq, Eq, Structural, Debug)]
pub struct RigidBody {
    pub body_type: BodyType,
    pub pose: Pose,
    pub vel: Velocity,
    /// Reciprocal of the mass aggregated from the attached colliders; zero for
    /// non-dynamic bodies and for dynamic bodies whose mass is not yet positive.
    pub inv_mass: i64,
    /// Reciprocal of the angular inertia, aggregated like the mass.
    pub inv_inertia: i64,
    pub can_sleep: bool,
    pub sleeping: bool,
    /// Consecutive steps this body has stayed below the sleep thresholds.
    pub low_motion_steps: u32,
    /// Velocity adopted each step while the body is velocity-based kinematic.
    pub vel_target: Velocity,
    /// Pose adopted each step while the body is position-based kinematic.
    pub pose_target: Pose,
}

pub open spec fn body_wf(b: RigidBody) -> bool {
    &&& pose_in_range(b.pose)
    &&& vel_in_range(b.vel)
    &&& 0 <= b.inv_mass as int && in_range(b.inv_mass as int)
    &&& 0 <= b.inv_inertia as int && in_range(b.inv_inertia as int)
    &&& vel_in_range(b.vel_target)
    &&& pose_in_range(b.pose_target)
    &&& (b.body_type != BodyType::Dynamic ==> b.inv_mass == 0 && b.inv_inertia == 0)
}

/// Collision geometry, centered on the owning body's origin.
#[derive(Clone, Copy, PartialEq, Eq, Structural, Debug)]
pub enum Shape {
    Ball { radius: i64 },
    Cuboid { hx: i64, hy: i64 },
}

pub open spec fn shape_wf(s: Shape) -> bool {
    match s {
        Shape::Ball { radius } => 0 < radius as int && in_range(radius as int),
        Shape::Cuboid { hx, hy } => 0 < hx as int && 0 < hy as int && in_range(hx as int)
            && in_range(hy as int),
    }
}

#[derive(Clone, Copy, PartialEq, Eq, Structural, Debug)]
pub struct Material {
    /// Fraction of the approach speed returned after a contact.
    pub restitution: i64,
    /// Coulomb friction coefficient.
    pub friction: i64,
    /// Mass per unit area, used to derive the parent's mass properties.
    pub density: i64,
}

pub open spec fn material_wf(m: Material) -> bool {
    &&& 0 <= m.restitution as int && in_range(m.restitution as int)
    &&& 0 <= m.friction as int && in_range(m.friction as int)
    &&& 0 <= m.density as int && in_range(m.density as int)
}

#[derive(Clone, Copy, PartialEq, Eq, Structural, Debug)]
pub struct Collider {
    pub shape: Shape,
    pub material: Material,
    /// The one body this collider is attached to for its whole lifetime.
    pub parent: Handle,
}

pub open spec fn collider_wf(c: Collider) -> bool {
    shape_wf(c.shape) && material_wf(c.material)
}

/// How two touching materials combine their restitution or friction values.
#[derive(Clone, Copy, PartialEq, Eq, Structural, Debug)]
pub enum CombineRule {
    Average,
    Min,
    Multiply,
    Max,
}

/// The documented combination of two material coefficients under a rule.
pub open spec fn combine_spec(rule: CombineRule, a: int, b: int) -> int {
    match rule {
        CombineRule::Average => (a + b) / 2,
        CombineRule::Min => if a <= b { a } else { b },
        CombineRule::Multiply => sat(mul_scaled(a, b)),
        CombineRule::Max => if a >= b { a } else { b },
    }
}

pub fn combine_coeff(rule: CombineRule, a: i64, b: i64) -> (r: i64)
    requires
        0 <= a as int && in_range(a as int),
        0 <= b as int && in_range(b as int),
    ensures
        r as int == combine_spec(rule, a as int, b as int),
        0 <= r as int && in_range(r as int),
{
    match rule {
        CombineRule::Average => (a + b) / 2,
        CombineRule::Min => if a <= b { a } else { b },
        CombineRule::Multiply => fx_mul(a, b),
        CombineRule::Max => if a >= b { a } else { b },
    }
}

/// Mass of a shape of the given density: density times area, in fixed point.
pub open spec fn shape_mass_spec(s: Shape, density: int) -> int {
    match s {
        Shape::Ball { radius } => sm(sm(sm(radius as int, radius as int), PI_FX as int), density),
        Shape::Cuboid { hx, hy } => sm(sm(sm(hx as int, hy as int), 4 * SCALE as int), density),
    }
}

/// Angular inertia of a shape of the given density about the body origin.
pub open spec fn shape_inertia_spec(s: Shape, density: int) -> int {
    match s {
        Shape::Ball { radius } => sm(
            shape_mass_spec(s, density),
            sm(sm(radius as int, radius as int), 500_000),
        ),
        Shape::Cuboid { hx, hy } => sm(
            shape_mass_spec(s, density),
            sm(
                sat(sm(hx as int, hx as int) + sm(hy as int, hy as int)),
                333_333,
            ),
        ),
    }
}

pub fn shape_mass(s: Shape, density: i64) -> (r: i64)
    requires
        shape_wf(s),
        0 <= density as int && in_range(density as int),
    ensures
        r as int == shape_mass_spec(s, density as int),
        0 <= r as int && in_range(r as int),
{
    match s {
        Shape::Ball { radius } => fx_mul(fx_mul(fx_mul(radius, radius), PI_FX), density),
        Shape::Cuboid { hx, hy } => fx_mul(fx_mul(fx_mul(hx, hy), 4 * SCALE), density),
    }
}

pub fn shape_inertia(s: Shape, density: i64) -> (r: i64)
    requires
        shape_wf(s),
        0 <= density as int && in_range(density as int),
    ensures
        r as int == shape_inertia_spec(s, density as int),
        0 <= r as int && in_range(r as int),
{
    let m = shape_mass(s, density);
    match s {
        Shape::Ball { radius } => fx_mul(m, fx_mul(fx_mul(radius, radius), 500_000)),
        Shape::Cuboid { hx, hy } => fx_mul(
            m,
            fx_mul(fx_add(fx_mul(hx, hx), fx_mul(hy, hy)), 333_333),
        ),
    }
}

/// Which degree of freedom, if any, a joint motor drives.
#[derive(Clone, Copy, PartialEq, Eq, Structural, Debug)]
pub enum MotorMode {
    Inactive,
    /// Spring-damper drive toward a target relative angle.
    PositionTarget { target_angle: i64, stiffness: i64, damping: i64 },
    /// Damped drive toward a target relative angular velocity.
    VelocityTarget { target_vel: i64, damping: i64 },
}

pub open spec fn motor_wf(m: MotorMode) -> bool {
    match m {
        MotorMode::Inactive => true,
        MotorMode::PositionTarget { target_angle, stiffness, damping } => in_range(
            target_angle as int,
        ) && 0 <= stiffness as int && in_range(stiffness as int) && 0 <= damping as int && in_range(
            damping as int,
        ),
        MotorMode::VelocityTarget { target_vel, damping } => in_range(target_vel as int) && 0
            <= damping as int && in_range(damping as int),
    }
}

/// Inclusive bounds on a joint's relative angle.
#[derive(Clone, Copy, PartialEq, Eq, Structural, Debug)]
pub struct AngleLimits {
    pub lower: i64,
    pub upper: i64,
}

pub open spec fn limits_wf(l: AngleLimits) -> bool {
    in_range(l.lower as int) && in_range(l.upper as int) && l.lower as int <= l.upper as int
}

/// A revolute joint: the two anchor points must coincide, leaving one
/// rotational degree of freedom, optionally driven by a motor and bounded by
/// angular limits.
#[derive(Clone, Copy, PartialEq, Eq, Structural, Debug)]
pub struct Joint {
    pub body_a: Handle,
    pub body_b: Handle,
    /// Anchor in body A's local frame; constant for the joint's lifetime.
    pub local_anchor_a: Vec2,
    /// Anchor in body B's local frame; constant for the joint's lifetime.
    pub local_anchor_b: Vec2,
    pub motor: MotorMode,
    /// Cap on the magnitude of the generalized motor force.
    pub motor_max_force: i64,
    pub limits: Option<AngleLimits>,
    /// Warm-start accumulator for the translational lock impulse.
    pub warm_lin: Vec2,
    /// Warm-start accumulator for the motor impulse.
    pub warm_motor: i64,
}

pub open spec fn joint_wf(j: Joint) -> bool {
    &&& v2_in_range(j.local_anchor_a)
    &&& v2_in_range(j.local_anchor_b)
    &&& motor_wf(j.motor)
    &&& 0 <= j.motor_max_force as int && in_range(j.motor_max_force as int)
    &&& (j.limits is Some ==> limits_wf(j.limits->Some_0))
    &&& v2_in_range(j.warm_lin)
    &&& in_range(j.warm_motor as int)
}

/// Errors reported by the store and target-setting operations; all are local
/// and recoverable.
#[derive(Clone, Copy, PartialEq, Eq, Structural, Debug)]
pub enum SimError {
    /// The handle's slot is unknown or its generation is stale.
    InvalidHandle,
    /// A position target was set on a velocity-based kinematic body, or the
    /// other way round, or a target was set on a non-kinematic body.
    IncompatibleKinematicTarget,
    /// A dynamic body would end up with nonpositive mass or inertia.
    DegenerateMassProperties,
}

/// Reciprocal used for mass properties: zero input maps to zero.
pub fn recip_or_zero(x: i64) -> (r: i64)
    requires
        0 <= x as int && in_range(x as int),
    ensures
        x > 0 ==> r as int == sat(crate::fx::div_scaled(SCALE as int, x as int)),
        x == 0 ==> r == 0,
        0 <= r as int && in_range(r as int),
{
    if x == 0 {
        0
    } else {
        fx_div(SCALE, x)
    }
}

} // verus!
