//! The simulation world: handle-addressed stores for bodies, colliders and
//! joints, with mass-property aggregation and kinematic-target mutation.

use vstd::prelude::*;

verus! {

use crate::arena::{Arena, Handle, Slot};
use crate::fx::{Vec2, in_range, v2_in_range, sat, div_scaled, fx_add, FX_MAX, SCALE};
use crate::model::{
    BodyType, Pose, Velocity, RigidBody, Shape, Material, Collider, CombineRule, MotorMode,
    AngleLimits, Joint, SimError, body_wf, collider_wf, joint_wf, shape_wf, material_wf, motor_wf,
    limits_wf, pose_in_range, vel_in_range, shape_mass_spec, shape_inertia_spec, shape_mass,
    shape_inertia, recip_or_zero,
};

/// Warm-start record for a contact pair, keyed by the two collider handles.
#[derive(Clone, Copy, PartialEq, Eq, Structural, Debug)]
pub struct ContactWarm {
    pub a: Handle,
    pub b: Handle,
    pub normal_imp: i64,
    pub tangent_imp: i64,
}

pub struct World {
    pub(crate) bodies: Arena<RigidBody>,
    pub(crate) colliders: Arena<Collider>,
    pub(crate) joints: Arena<Joint>,
    /// How two touching restitution coefficients are merged.
    pub(crate) restitution_rule: CombineRule,
    /// How two touching friction coefficients are merged.
    pub(crate) friction_rule: CombineRule,
    pub(crate) elapsed: i64,
    pub(crate) contact_warm: Vec<ContactWarm>,
    /// Count of solver impulses that hit the safety clamp; diagnostic only.
    pub(crate) divergence_events: u64,
}

/// Total mass of the live colliders attached to body `h` among the first `n`
/// slots, accumulated with saturating addition.
pub open spec fn mass_sum(s: Seq<Slot<Collider>>, h: Handle, n: int) -> int
    decreases n,
{
    if n <= 0 {
        0
    } else {
        let rest = mass_sum(s, h, n - 1);
        if s[n - 1].val is Some && s[n - 1].val->Some_0.parent == h {
            sat(
                rest + shape_mass_spec(
                    s[n - 1].val->Some_0.shape,
                    s[n - 1].val->Some_0.material.density as int,
                ),
            )
        } else {
            rest
        }
    }
}

/// Total angular inertia of the live colliders attached to body `h` among the
/// first `n` slots, accumulated with saturating addition.
pub open spec fn inertia_sum(s: Seq<Slot<Collider>>, h: Handle, n: int) -> int
    decreases n,
{
    if n <= 0 {
        0
    } else {
        let rest = inertia_sum(s, h, n - 1);
        if s[n - 1].val is Some && s[n - 1].val->Some_0.parent == h {
            sat(
                rest + shape_inertia_spec(
                    s[n - 1].val->Some_0.shape,
                    s[n - 1].val->Some_0.material.density as int,
                ),
            )
        } else {
            rest
        }
    }
}

pub open spec fn bodies_store_wf(s: Seq<Slot<RigidBody>>) -> bool {
    forall|i: int|
        0 <= i < s.len() && s[i].val is Some ==> body_wf(#[trigger] s[i].val->Some_0)
}

pub open spec fn colliders_store_wf(s: Seq<Slot<Collider>>, bodies: Arena<RigidBody>) -> bool {
    forall|i: int|
        0 <= i < s.len() && s[i].val is Some ==> {
            let c = #[trigger] s[i].val->Some_0;
            collider_wf(c) && bodies.valid(c.parent)
        }
}

pub open spec fn joints_store_wf(s: Seq<Slot<Joint>>, bodies: Arena<RigidBody>) -> bool {
    forall|i: int|
        0 <= i < s.len() && s[i].val is Some ==> {
            let j = #[trigger] s[i].val->Some_0;
            joint_wf(j) && bodies.valid(j.body_a) && bodies.valid(j.body_b)
        }
}

/// Every occupied slot still has headroom in its generation counter; a slot
/// whose counter reached the cap is retired and stays free for ever.
pub open spec fn live_gens_ok<T>(s: Seq<Slot<T>>) -> bool {
    forall|i: int| 0 <= i < s.len() && (#[trigger] s[i]).val is Some ==> s[i].gen < u64::MAX
}

pub open spec fn warm_wf(s: Seq<ContactWarm>) -> bool {
    forall|k: int|
        0 <= k < s.len() ==> in_range((#[trigger] s[k]).normal_imp as int) && in_range(
            s[k].tangent_imp as int,
        )
}

/// The mass-property fields a dynamic body must carry, given the collider set.
pub open spec fn mass_props_ok(s: Seq<Slot<Collider>>, h: Handle, b: RigidBody) -> bool {
    if b.body_type == BodyType::Dynamic {
        let m = mass_sum(s, h, s.len() as int);
        let i = inertia_sum(s, h, s.len() as int);
        if m > 0 && i > 0 {
            b.inv_mass as int == sat(div_scaled(SCALE as int, m)) && b.inv_inertia as int == sat(
                div_scaled(SCALE as int, i),
            )
        } else {
            b.inv_mass == 0 && b.inv_inertia == 0
        }
    } else {
        b.inv_mass == 0 && b.inv_inertia == 0
    }
}

impl World {
    pub closed spec fn sbodies(&self) -> Arena<RigidBody> {
        self.bodies
    }

    pub closed spec fn scolliders(&self) -> Arena<Collider> {
        self.colliders
    }

    pub closed spec fn sjoints(&self) -> Arena<Joint> {
        self.joints
    }

    /// Total simulated time so far, in raw micro-seconds.
    pub closed spec fn selapsed(&self) -> int {
        self.elapsed as int
    }

    pub closed spec fn swarm(&self) -> Seq<ContactWarm> {
        self.contact_warm@
    }

    pub closed spec fn srest_rule(&self) -> CombineRule {
        self.restitution_rule
    }

    pub closed spec fn sfric_rule(&self) -> CombineRule {
        self.friction_rule
    }

    pub closed spec fn sdivergence(&self) -> u64 {
        self.divergence_events
    }

    /// Total simulated time so far, in raw micro-seconds.
    pub fn elapsed_time(&self) -> (r: i64)
        ensures
            r as int == self.selapsed(),
    {
        self.elapsed
    }

    /// Count of solver impulses that hit the safety clamp; diagnostic only.
    pub fn divergence_events(&self) -> (r: u64)
        ensures
            r == self.sdivergence(),
    {
        self.divergence_events
    }

    pub open spec fn body_valid(&self, h: Handle) -> bool {
        self.sbodies().valid(h)
    }

    pub open spec fn body_at(&self, h: Handle) -> RigidBody {
        self.sbodies().at(h)
    }

    pub open spec fn collider_valid(&self, h: Handle) -> bool {
        self.scolliders().valid(h)
    }

    pub open spec fn collider_at(&self, h: Handle) -> Collider {
        self.scolliders().at(h)
    }

    pub open spec fn joint_valid(&self, h: Handle) -> bool {
        self.sjoints().valid(h)
    }

    pub open spec fn joint_at(&self, h: Handle) -> Joint {
        self.sjoints().at(h)
    }

    /// Well-formedness: every live entity is well formed, colliders and joints
    /// point at live bodies, and every numeric field is in range.
    pub open spec fn wf(&self) -> bool {
        &&& bodies_store_wf(self.sbodies()@)
        &&& colliders_store_wf(self.scolliders()@, self.sbodies())
        &&& joints_store_wf(self.sjoints()@, self.sbodies())
        &&& live_gens_ok(self.sbodies()@)
        &&& live_gens_ok(self.scolliders()@)
        &&& live_gens_ok(self.sjoints()@)
        &&& in_range(self.selapsed())
        &&& warm_wf(self.swarm())
    }

    /// Stores other than the body store, and the driver bookkeeping, unchanged.
    pub open spec fn same_aux(&self, other: &World) -> bool {
        &&& self.scolliders() == other.scolliders()
        &&& self.sjoints() == other.sjoints()
        &&& self.selapsed() == other.selapsed()
        &&& self.swarm() == other.swarm()
        &&& self.srest_rule() == other.srest_rule()
        &&& self.sfric_rule() == other.sfric_rule()
    }

    pub fn new(restitution_rule: CombineRule, friction_rule: CombineRule) -> (w: World)
        ensures
            w.wf(),
            w.sbodies()@.len() == 0,
            w.scolliders()@.len() == 0,
            w.sjoints()@.len() == 0,
            w.selapsed() == 0,
            w.srest_rule() == restitution_rule,
            w.sfric_rule() == friction_rule,
    {
        World {
            bodies: Arena::new(),
            colliders: Arena::new(),
            joints: Arena::new(),
            restitution_rule,
            friction_rule,
            elapsed: 0,
            contact_warm: Vec::new(),
            divergence_events: 0,
        }
    }

    /// Create a body with no colliders yet: its mass properties start at zero,
    /// so a dynamic body is non-physical until a collider gives it mass.
    pub fn new_body(
        &mut self,
        body_type: BodyType,
        pose: Pose,
        vel: Velocity,
        can_sleep: bool,
    ) -> (h: Handle)
        requires
            old(self).wf(),
            pose_in_range(pose),
            vel_in_range(vel),
        ensures
            final(self).wf(),
            final(self).body_valid(h),
            !old(self).body_valid(h),
            final(self).body_at(h) == (RigidBody {
                body_type,
                pose,
                vel,
                inv_mass: 0,
                inv_inertia: 0,
                can_sleep,
                sleeping: false,
                low_motion_steps: 0,
                vel_target: vel,
                pose_target: pose,
            }),
            forall|g: Handle|
                old(self).body_valid(g) ==> final(self).body_valid(g) && final(self).body_at(g)
                    == old(self).body_at(g),
            forall|g: Handle| final(self).body_valid(g) && g != h ==> old(self).body_valid(g),
            // the generation discipline of the registry, at the world level:
            // the fresh handle carries its slot's current generation, and no
            // slot's generation ever decreases, so a handle retired by an
            // earlier removal can never be handed out again
            h.index < old(self).sbodies()@.len() ==> h.gen as int == old(self).sbodies().gen_of(
                h.index as int,
            ),
            h.index >= old(self).sbodies()@.len() ==> h.index == old(self).sbodies()@.len(),
            forall|i: int|
                0 <= i < old(self).sbodies()@.len() ==> final(self).sbodies().gen_of(i) >= old(
                    self,
                ).sbodies().gen_of(i),
            final(self).same_aux(old(self)),
            final(self).sdivergence() == old(self).sdivergence(),
    {
        let body = RigidBody {
            body_type,
            pose,
            vel,
            inv_mass: 0,
            inv_inertia: 0,
            can_sleep,
            sleeping: false,
            low_motion_steps: 0,
            vel_target: vel,
            pose_target: pose,
        };
        self.bodies.insert(body)
    }

    pub fn get_pose(&self, h: Handle) -> (r: Option<Pose>)
        ensures
            self.body_valid(h) ==> r == Option::Some(self.body_at(h).pose),
            !self.body_valid(h) ==> r is None,
    {
        match self.bodies.get(h) {
            Option::Some(b) => Option::Some(b.pose),
            Option::None => Option::None,
        }
    }

    pub fn get_velocity(&self, h: Handle) -> (r: Option<Velocity>)
        ensures
            self.body_valid(h) ==> r == Option::Some(self.body_at(h).vel),
            !self.body_valid(h) ==> r is None,
    {
        match self.bodies.get(h) {
            Option::Some(b) => Option::Some(b.vel),
            Option::None => Option::None,
        }
    }

    pub fn get_body(&self, h: Handle) -> (r: Option<RigidBody>)
        ensures
            self.body_valid(h) ==> r == Option::Some(self.body_at(h)),
            !self.body_valid(h) ==> r is None,
    {
        match self.bodies.get(h) {
            Option::Some(b) => Option::Some(*b),
            Option::None => Option::None,
        }
    }

    pub fn get_collider(&self, h: Handle) -> (r: Option<Collider>)
        ensures
            self.collider_valid(h) ==> r == Option::Some(self.collider_at(h)),
            !self.collider_valid(h) ==> r is None,
    {
        match self.colliders.get(h) {
            Option::Some(c) => Option::Some(*c),
            Option::None => Option::None,
        }
    }

    pub fn get_joint(&self, h: Handle) -> (r: Option<Joint>)
        ensures
            self.joint_valid(h) ==> r == Option::Some(self.joint_at(h)),
            !self.joint_valid(h) ==> r is None,
    {
        match self.joints.get(h) {
            Option::Some(j) => Option::Some(*j),
            Option::None => Option::None,
        }
    }

    /// Set the velocity a velocity-based kinematic body will follow. Reports
    /// `InvalidHandle` for a dead handle and `IncompatibleKinematicTarget` for
    /// any other classification; both leave the world unchanged.
    pub fn set_kinematic_velocity_target(&mut self, h: Handle, vel: Velocity) -> (r: Result<
        (),
        SimError,
    >)
        requires
            old(self).wf(),
            vel_in_range(vel),
        ensures
            final(self).wf(),
            !old(self).body_valid(h) ==> r == Result::<(), SimError>::Err(SimError::InvalidHandle)
                && *final(self) == *old(self),
            old(self).body_valid(h) && old(self).body_at(h).body_type
                != BodyType::KinematicVelocityBased ==> r == Result::<(), SimError>::Err(
                SimError::IncompatibleKinematicTarget,
            ) && *final(self) == *old(self),
            old(self).body_valid(h) && old(self).body_at(h).body_type
                == BodyType::KinematicVelocityBased ==> {
                &&& r == Result::<(), SimError>::Ok(())
                &&& final(self).body_valid(h)
                &&& final(self).body_at(h) == (RigidBody { vel_target: vel, ..old(self).body_at(h) })
                &&& forall|g: Handle|
                    g != h ==> (final(self).body_valid(g) <==> old(self).body_valid(g)) && (
                    final(self).body_valid(g) ==> final(self).body_at(g) == old(self).body_at(g))
                &&& final(self).same_aux(old(self))
            },
    {
        let b = match self.bodies.get(h) {
            Option::Some(b) => *b,
            Option::None => { return Result::Err(SimError::InvalidHandle) },
        };
        if !matches!(b.body_type, BodyType::KinematicVelocityBased) {
            return Result::Err(SimError::IncompatibleKinematicTarget);
        }
        self.bodies.write_at(h.index, RigidBody { vel_target: vel, ..b });
        Result::Ok(())
    }

    /// Set the pose a position-based kinematic body will adopt next step.
    pub fn set_kinematic_position_target(&mut self, h: Handle, pose: Pose) -> (r: Result<
        (),
        SimError,
    >)
        requires
            old(self).wf(),
            pose_in_range(pose),
        ensures
            final(self).wf(),
            !old(self).body_valid(h) ==> r == Result::<(), SimError>::Err(SimError::InvalidHandle)
                && *final(self) == *old(self),
            old(self).body_valid(h) && old(self).body_at(h).body_type
                != BodyType::KinematicPositionBased ==> r == Result::<(), SimError>::Err(
                SimError::IncompatibleKinematicTarget,
            ) && *final(self) == *old(self),
            old(self).body_valid(h) && old(self).body_at(h).body_type
                == BodyType::KinematicPositionBased ==> {
                &&& r == Result::<(), SimError>::Ok(())
                &&& final(self).body_valid(h)
                &&& final(self).body_at(h) == (RigidBody {
                    pose_target: pose,
                    ..old(self).body_at(h)
                })
                &&& forall|g: Handle|
                    g != h ==> (final(self).body_valid(g) <==> old(self).body_valid(g)) && (
                    final(self).body_valid(g) ==> final(self).body_at(g) == old(self).body_at(g))
                &&& final(self).same_aux(old(self))
            },
    {
        let b = match self.bodies.get(h) {
            Option::Some(b) => *b,
            Option::None => { return Result::Err(SimError::InvalidHandle) },
        };
        if !matches!(b.body_type, BodyType::KinematicPositionBased) {
            return Result::Err(SimError::IncompatibleKinematicTarget);
        }
        self.bodies.write_at(h.index, RigidBody { pose_target: pose, ..b });
        Result::Ok(())
    }

    /// Attach a new collider exclusively to `parent` and refresh the parent's
    /// mass properties from all of its colliders. A dynamic parent whose total
    /// mass or inertia is not positive keeps the collider but is flagged
    /// non-physical (zero inverse mass), and the error is reported.
    pub fn attach_collider(&mut self, shape: Shape, material: Material, parent: Handle) -> (r:
        Result<Handle, SimError>)
        requires
            old(self).wf(),
            shape_wf(shape),
            material_wf(material),
        ensures
            final(self).wf(),
            !old(self).body_valid(parent) ==> r == Result::<Handle, SimError>::Err(
                SimError::InvalidHandle,
            ) && *final(self) == *old(self),
            old(self).body_valid(parent) ==> {
                let cs = final(self).scolliders();
                let ch = if r is Ok {
                    r->Ok_0
                } else {
                    choose|ch: Handle| cs.valid(ch) && !old(self).scolliders().valid(ch)
                };
                &&& (r is Ok || r == Result::<Handle, SimError>::Err(
                    SimError::DegenerateMassProperties,
                ))
                &&& cs.valid(ch) && !old(self).scolliders().valid(ch)
                &&& cs.at(ch) == (Collider { shape, material, parent })
                &&& forall|g: Handle|
                    old(self).scolliders().valid(g) ==> cs.valid(g) && cs.at(g) == old(
                        self,
                    ).scolliders().at(g)
                &&& forall|g: Handle| cs.valid(g) && g != ch ==> old(self).scolliders().valid(g)
                &&& ch.index < old(self).scolliders()@.len() ==> ch.gen as int == old(
                    self,
                ).scolliders().gen_of(ch.index as int)
                &&& ch.index >= old(self).scolliders()@.len() ==> ch.index == old(
                    self,
                ).scolliders()@.len()
                &&& forall|i: int|
                    0 <= i < old(self).scolliders()@.len() ==> cs.gen_of(i) >= old(
                        self,
                    ).scolliders().gen_of(i)
                &&& mass_props_ok(cs@, parent, final(self).body_at(parent))
                &&& final(self).body_at(parent) == (RigidBody {
                    inv_mass: final(self).body_at(parent).inv_mass,
                    inv_inertia: final(self).body_at(parent).inv_inertia,
                    ..old(self).body_at(parent)
                })
                &&& (r is Err <==> old(self).body_at(parent).body_type == BodyType::Dynamic && (
                mass_sum(cs@, parent, cs@.len() as int) <= 0 || inertia_sum(
                    cs@,
                    parent,
                    cs@.len() as int,
                ) <= 0))
                &&& forall|g: Handle|
                    g != parent ==> (final(self).body_valid(g) <==> old(self).body_valid(g)) && (
                    final(self).body_valid(g) ==> final(self).body_at(g) == old(self).body_at(g))
                &&& final(self).body_valid(parent)
                &&& final(self).sjoints() == old(self).sjoints()
                &&& final(self).selapsed() == old(self).selapsed()
                &&& final(self).swarm() == old(self).swarm()
            },
    {
        let b = match self.bodies.get(parent) {
            Option::Some(b) => *b,
            Option::None => { return Result::Err(SimError::InvalidHandle) },
        };
        let ch = self.colliders.insert(Collider { shape, material, parent });
        if !matches!(b.body_type, BodyType::Dynamic) {
            return Result::Ok(ch);
        }
        let (m, ine) = aggregate_mass(&self.colliders, parent);
        let degenerate: bool = m <= 0 || ine <= 0;
        let (inv_mass, inv_inertia) = if degenerate {
            (0i64, 0i64)
        } else {
            (recip_or_zero(m), recip_or_zero(ine))
        };
        self.bodies.write_at(parent.index, RigidBody { inv_mass, inv_inertia, ..b });
        if degenerate {
            Result::Err(SimError::DegenerateMassProperties)
        } else {
            Result::Ok(ch)
        }
    }

    /// Detach and delete a collider, refreshing the parent's mass properties.
    pub fn remove_collider(&mut self, ch: Handle) -> (r: Result<Collider, SimError>)
        requires
            old(self).wf(),
        ensures
            final(self).wf(),
            !old(self).collider_valid(ch) ==> r == Result::<Collider, SimError>::Err(
                SimError::InvalidHandle,
            ) && *final(self) == *old(self),
            old(self).collider_valid(ch) ==> {
                let parent = old(self).collider_at(ch).parent;
                let cs = final(self).scolliders();
                &&& r == Result::<Collider, SimError>::Ok(old(self).collider_at(ch))
                &&& !cs.valid(ch)
                &&& forall|g: Handle|
                    g != ch && old(self).scolliders().valid(g) ==> cs.valid(g) && cs.at(g) == old(
                        self,
                    ).scolliders().at(g)
                &&& forall|g: Handle| cs.valid(g) ==> old(self).scolliders().valid(g)
                &&& cs.gen_of(ch.index as int) > ch.gen as int
                &&& cs@.len() == old(self).scolliders()@.len()
                &&& forall|i: int|
                    0 <= i < old(self).scolliders()@.len() ==> cs.gen_of(i) >= old(
                        self,
                    ).scolliders().gen_of(i)
                &&& mass_props_ok(cs@, parent, final(self).body_at(parent))
                &&& final(self).body_at(parent) == (RigidBody {
                    inv_mass: final(self).body_at(parent).inv_mass,
                    inv_inertia: final(self).body_at(parent).inv_inertia,
                    ..old(self).body_at(parent)
                })
                &&& forall|g: Handle|
                    g != parent ==> (final(self).body_valid(g) <==> old(self).body_valid(g)) && (
                    final(self).body_valid(g) ==> final(self).body_at(g) == old(self).body_at(g))
                &&& final(self).body_valid(parent)
                &&& final(self).sjoints() == old(self).sjoints()
                &&& final(self).selapsed() == old(self).selapsed()
                &&& final(self).swarm() == old(self).swarm()
            },
    {
        let c = match self.colliders.get(ch) {
            Option::Some(c) => *c,
            Option::None => { return Result::Err(SimError::InvalidHandle) },
        };
        self.colliders.remove(ch);
        let b = match self.bodies.get(c.parent) {
            Option::Some(b) => *b,
            Option::None => { return Result::Ok(c) },
        };
        if matches!(b.body_type, BodyType::Dynamic) {
            let (m, ine) = aggregate_mass(&self.colliders, c.parent);
            let (inv_mass, inv_inertia) = if m <= 0 || ine <= 0 {
                (0i64, 0i64)
            } else {
                (recip_or_zero(m), recip_or_zero(ine))
            };
            self.bodies.write_at(c.parent.index, RigidBody { inv_mass, inv_inertia, ..b });
        }
        Result::Ok(c)
    }
}

/// The handles a removed body drags with it: its colliders and every joint
/// incident to it.
#[derive(Debug)]
pub struct Detached {
    pub colliders: Vec<Handle>,
    pub joints: Vec<Handle>,
}

impl World {
    /// Create a revolute joint between two live bodies. The anchors are fixed
    /// in each body's local frame for the joint's lifetime.
    pub fn new_joint(
        &mut self,
        body_a: Handle,
        body_b: Handle,
        local_anchor_a: Vec2,
        local_anchor_b: Vec2,
        motor: MotorMode,
        motor_max_force: i64,
        limits: Option<AngleLimits>,
    ) -> (r: Result<Handle, SimError>)
        requires
            old(self).wf(),
            crate::fx::v2_in_range(local_anchor_a),
            crate::fx::v2_in_range(local_anchor_b),
            motor_wf(motor),
            0 <= motor_max_force as int && in_range(motor_max_force as int),
            limits is Some ==> limits_wf(limits->Some_0),
        ensures
            final(self).wf(),
            !(old(self).body_valid(body_a) && old(self).body_valid(body_b)) ==> r == Result::<
                Handle,
                SimError,
            >::Err(SimError::InvalidHandle) && *final(self) == *old(self),
            old(self).body_valid(body_a) && old(self).body_valid(body_b) ==> {
                let js = final(self).sjoints();
                &&& r is Ok
                &&& js.valid(r->Ok_0) && !old(self).sjoints().valid(r->Ok_0)
                &&& js.at(r->Ok_0) == (Joint {
                    body_a,
                    body_b,
                    local_anchor_a,
                    local_anchor_b,
                    motor,
                    motor_max_force,
                    limits,
                    warm_lin: Vec2 { x: 0, y: 0 },
                    warm_motor: 0,
                })
                &&& forall|g: Handle|
                    old(self).sjoints().valid(g) ==> js.valid(g) && js.at(g) == old(
                        self,
                    ).sjoints().at(g)
                &&& forall|g: Handle| js.valid(g) && g != r->Ok_0 ==> old(self).sjoints().valid(g)
                &&& r->Ok_0.index < old(self).sjoints()@.len() ==> r->Ok_0.gen as int == old(
                    self,
                ).sjoints().gen_of(r->Ok_0.index as int)
                &&& r->Ok_0.index >= old(self).sjoints()@.len() ==> r->Ok_0.index == old(
                    self,
                ).sjoints()@.len()
                &&& forall|i: int|
                    0 <= i < old(self).sjoints()@.len() ==> js.gen_of(i) >= old(
                        self,
                    ).sjoints().gen_of(i)
                &&& final(self).sbodies() == old(self).sbodies()
                &&& final(self).scolliders() == old(self).scolliders()
                &&& final(self).selapsed() == old(self).selapsed()
                &&& final(self).swarm() == old(self).swarm()
            },
    {
        let a_ok = match self.bodies.get(body_a) {
            Option::Some(_) => true,
            Option::None => false,
        };
        let b_ok = match self.bodies.get(body_b) {
            Option::Some(_) => true,
            Option::None => false,
        };
        if !a_ok || !b_ok {
            return Result::Err(SimError::InvalidHandle);
        }
        let j = Joint {
            body_a,
            body_b,
            local_anchor_a,
            local_anchor_b,
            motor,
            motor_max_force,
            limits,
            warm_lin: Vec2 { x: 0, y: 0 },
            warm_motor: 0,
        };
        Result::Ok(self.joints.insert(j))
    }

    /// Delete a joint; the bodies it connected are untouched.
    pub fn remove_joint(&mut self, jh: Handle) -> (r: Result<Joint, SimError>)
        requires
            old(self).wf(),
        ensures
            final(self).wf(),
            !old(self).joint_valid(jh) ==> r == Result::<Joint, SimError>::Err(
                SimError::InvalidHandle,
            ) && *final(self) == *old(self),
            old(self).joint_valid(jh) ==> {
                &&& r == Result::<Joint, SimError>::Ok(old(self).joint_at(jh))
                &&& !final(self).joint_valid(jh)
                &&& forall|g: Handle|
                    g != jh && old(self).joint_valid(g) ==> final(self).joint_valid(g) && final(self).joint_at(g) == old(self).joint_at(g)
                &&& forall|g: Handle| final(self).joint_valid(g) ==> old(self).joint_valid(g)
                &&& final(self).sjoints().gen_of(jh.index as int) > jh.gen as int
                &&& final(self).sjoints()@.len() == old(self).sjoints()@.len()
                &&& forall|i: int|
                    0 <= i < old(self).sjoints()@.len() ==> final(self).sjoints().gen_of(i) >= old(
                        self,
                    ).sjoints().gen_of(i)
                &&& final(self).sbodies() == old(self).sbodies()
                &&& final(self).scolliders() == old(self).scolliders()
                &&& final(self).selapsed() == old(self).selapsed()
                &&& final(self).swarm() == old(self).swarm()
            },
    {
        match self.joints.remove(jh) {
            Option::Some(j) => Result::Ok(j),
            Option::None => Result::Err(SimError::InvalidHandle),
        }
    }

    /// Delete a body and cascade: every collider attached to it and every
    /// joint incident to it is removed too, and their handles are returned.
    /// All other entities survive unchanged.
    pub fn remove_body(&mut self, h: Handle) -> (r: Result<Detached, SimError>)
        requires
            old(self).wf(),
        ensures
            final(self).wf(),
            !old(self).body_valid(h) ==> r is Err && *final(self) == *old(self),
            !old(self).body_valid(h) ==> (r matches Result::Err(e) && e
                == SimError::InvalidHandle),
            old(self).body_valid(h) ==> {
                &&& r is Ok
                &&& !final(self).body_valid(h)
                &&& forall|g: Handle|
                    g != h && old(self).body_valid(g) ==> final(self).body_valid(g) && final(self).body_at(g) == old(self).body_at(g)
                &&& forall|g: Handle| final(self).body_valid(g) ==> old(self).body_valid(g)
                &&& forall|g: Handle|
                    final(self).collider_valid(g) <==> (old(self).collider_valid(g) && old(
                        self,
                    ).collider_at(g).parent != h)
                &&& forall|g: Handle|
                    final(self).collider_valid(g) ==> final(self).collider_at(g) == old(
                        self,
                    ).collider_at(g)
                &&& forall|g: Handle|
                    final(self).joint_valid(g) <==> (old(self).joint_valid(g) && old(
                        self,
                    ).joint_at(g).body_a != h && old(self).joint_at(g).body_b != h)
                &&& forall|g: Handle|
                    final(self).joint_valid(g) ==> final(self).joint_at(g) == old(self).joint_at(
                        g,
                    )
                &&& final(self).selapsed() == old(self).selapsed()
                &&& final(self).swarm() == old(self).swarm()
                &&& forall|k: int|
                    0 <= k < r->Ok_0.colliders@.len() ==> old(self).collider_valid(
                        #[trigger] r->Ok_0.colliders@[k],
                    ) && old(self).collider_at(r->Ok_0.colliders@[k]).parent == h
                &&& forall|k: int|
                    0 <= k < r->Ok_0.joints@.len() ==> old(self).joint_valid(
                        #[trigger] r->Ok_0.joints@[k],
                    ) && (old(self).joint_at(r->Ok_0.joints@[k]).body_a == h || old(
                        self,
                    ).joint_at(r->Ok_0.joints@[k]).body_b == h)
                // the lists are complete and free of duplicates: every
                // dependent entity appears exactly once
                &&& forall|g: Handle|
                    old(self).collider_valid(g) && old(self).collider_at(g).parent == h
                        ==> r->Ok_0.colliders@.contains(g)
                &&& forall|g: Handle|
                    old(self).joint_valid(g) && (old(self).joint_at(g).body_a == h || old(
                        self,
                    ).joint_at(g).body_b == h) ==> r->Ok_0.joints@.contains(g)
                &&& forall|k1: int, k2: int|
                    0 <= k1 < k2 < r->Ok_0.colliders@.len() ==> r->Ok_0.colliders@[k1]
                        != r->Ok_0.colliders@[k2]
                &&& forall|k1: int, k2: int|
                    0 <= k1 < k2 < r->Ok_0.joints@.len() ==> r->Ok_0.joints@[k1]
                        != r->Ok_0.joints@[k2]
                // the removal retires every freed slot: its generation is
                // bumped past the dead handle's, and no generation decreases,
                // so no later insertion can hand the removed handles out again
                &&& final(self).sbodies().gen_of(h.index as int) > h.gen as int
                &&& final(self).sbodies()@.len() == old(self).sbodies()@.len()
                &&& forall|i: int|
                    0 <= i < old(self).sbodies()@.len() ==> final(self).sbodies().gen_of(i) >= old(
                        self,
                    ).sbodies().gen_of(i)
                &&& forall|g: Handle|
                    old(self).collider_valid(g) && old(self).collider_at(g).parent == h
                        ==> final(self).scolliders().gen_of(g.index as int) > g.gen as int
                &&& forall|i: int|
                    0 <= i < old(self).scolliders()@.len() ==> final(self).scolliders().gen_of(i)
                        >= old(self).scolliders().gen_of(i)
                &&& forall|g: Handle|
                    old(self).joint_valid(g) && (old(self).joint_at(g).body_a == h || old(
                        self,
                    ).joint_at(g).body_b == h) ==> final(self).sjoints().gen_of(g.index as int)
                        > g.gen as int
                &&& forall|i: int|
                    0 <= i < old(self).sjoints()@.len() ==> final(self).sjoints().gen_of(i) >= old(
                        self,
                    ).sjoints().gen_of(i)
            },
    {
        let live = match self.bodies.get(h) {
            Option::Some(_) => true,
            Option::None => false,
        };
        if !live {
            return Result::Err(SimError::InvalidHandle);
        }
        let mut detached_colliders: Vec<Handle> = Vec::new();
        let ncol: usize = self.colliders.slot_count();
        let mut i: usize = 0;
        while i < ncol
            invariant
                old(self).wf(),
                old(self).body_valid(h),
                self.bodies == old(self).bodies,
                self.joints == old(self).joints,
                self.contact_warm == old(self).contact_warm,
                self.elapsed == old(self).elapsed,
                i <= ncol,
                ncol == self.colliders@.len(),
                ncol == old(self).colliders@.len(),
                forall|ii: int|
                    0 <= ii < ncol ==> (#[trigger] self.colliders@[ii]) == old(
                        self,
                    ).colliders@[ii] || (self.colliders@[ii].val is None
                        && old(self).colliders@[ii].val is Some
                        && old(self).colliders@[ii].val->Some_0.parent == h
                        && self.colliders.gen_of(ii) > old(self).colliders.gen_of(ii)),
                forall|ii: int|
                    0 <= ii < i && (#[trigger] self.colliders@[ii]).val is Some ==> self
                        .colliders@[ii].val->Some_0.parent != h,
                forall|k: int|
                    0 <= k < detached_colliders@.len() ==> old(self).collider_valid(
                        #[trigger] detached_colliders@[k],
                    ) && old(self).collider_at(detached_colliders@[k]).parent == h,
                forall|ii: int|
                    0 <= ii < ncol ==> self.colliders.gen_of(ii) >= old(self).colliders.gen_of(
                        ii,
                    ),
                forall|g: Handle|
                    old(self).collider_valid(g) && old(self).collider_at(g).parent == h
                        && g.index < i ==> self.colliders.gen_of(g.index as int) > g.gen as int,
                forall|ii: int| i <= ii < ncol ==> self.colliders@[ii] == old(self).colliders@[ii],
                forall|g: Handle|
                    old(self).collider_valid(g) && old(self).collider_at(g).parent == h
                        && g.index < i ==> detached_colliders@.contains(g),
                forall|kk: int|
                    0 <= kk < detached_colliders@.len() ==> (#[trigger] detached_colliders@[kk]).index < i,
                forall|k1: int, k2: int|
                    0 <= k1 < k2 < detached_colliders@.len() ==> detached_colliders@[k1]
                        != detached_colliders@[k2],
            decreases ncol - i,
        {
            match self.colliders.handle_at(i) {
                Option::Some(ch) => {
                    let c = match self.colliders.get(ch) {
                        Option::Some(c) => *c,
                        Option::None => {
                            // cannot happen: the handle was read off a live slot
                            proof {
                                assert(false);
                            }
                            return Result::Err(SimError::InvalidHandle);
                        },
                    };
                    if c.parent.index == h.index && c.parent.gen == h.gen {
                        let ghost pre = detached_colliders@;
                        self.colliders.remove(ch);
                        detached_colliders.push(ch);
                        proof {
                            assert(detached_colliders@ == pre.push(ch));
                            assert forall|g: Handle|
                                old(self).collider_valid(g) && old(self).collider_at(g).parent
                                    == h && g.index < i + 1 implies detached_colliders@.contains(
                                g,
                            ) by {
                                if g.index < i {
                                    assert(pre.contains(g));
                                    let kidx = choose|kk: int|
                                        0 <= kk < pre.len() && pre[kk] == g;
                                    assert(detached_colliders@[kidx] == g);
                                } else {
                                    assert(g.gen == old(self).colliders@[i as int].gen);
                                    assert(g == ch);
                                    assert(detached_colliders@[pre.len() as int] == g);
                                }
                            }
                        }
                    } else {
                        proof {
                            assert forall|g: Handle|
                                old(self).collider_valid(g) && old(self).collider_at(g).parent
                                    == h && g.index < i + 1 implies detached_colliders@.contains(
                                g,
                            ) by {
                                if g.index == i {
                                    assert(g == ch);
                                    assert(old(self).collider_at(g) == c);
                                    assert(false);
                                }
                            }
                        }
                    }
                },
                Option::None => {
                    proof {
                        assert forall|g: Handle|
                            old(self).collider_valid(g) && old(self).collider_at(g).parent == h
                                && g.index < i + 1 implies detached_colliders@.contains(g) by {
                            if g.index == i {
                                assert(self.colliders@[i as int] == old(self).colliders@[i
                                    as int]);
                                assert(false);
                            }
                        }
                    }
                },
            }
            i = i + 1;
        }
        let mut detached_joints: Vec<Handle> = Vec::new();
        let njnt: usize = self.joints.slot_count();
        let mut k: usize = 0;
        while k < njnt
            invariant
                old(self).wf(),
                old(self).body_valid(h),
                self.bodies == old(self).bodies,
                self.contact_warm == old(self).contact_warm,
                self.elapsed == old(self).elapsed,
                k <= njnt,
                njnt == self.joints@.len(),
                njnt == old(self).joints@.len(),
                ncol == self.colliders@.len(),
                ncol == old(self).colliders@.len(),
                forall|ii: int|
                    0 <= ii < ncol ==> (#[trigger] self.colliders@[ii]) == old(
                        self,
                    ).colliders@[ii] || (self.colliders@[ii].val is None
                        && old(self).colliders@[ii].val is Some
                        && old(self).colliders@[ii].val->Some_0.parent == h
                        && self.colliders.gen_of(ii) > old(self).colliders.gen_of(ii)),
                forall|ii: int|
                    0 <= ii < ncol && (#[trigger] self.colliders@[ii]).val is Some ==> self
                        .colliders@[ii].val->Some_0.parent != h,
                forall|ii: int|
                    0 <= ii < njnt ==> (#[trigger] self.joints@[ii]) == old(self).joints@[ii] || (
                    self.joints@[ii].val is None && old(self).joints@[ii].val is Some && (old(
                        self,
                    ).joints@[ii].val->Some_0.body_a == h || old(
                        self,
                    ).joints@[ii].val->Some_0.body_b == h) && self.joints.gen_of(ii) > old(
                        self,
                    ).joints.gen_of(ii)),
                forall|ii: int|
                    0 <= ii < k && (#[trigger] self.joints@[ii]).val is Some ==> self
                        .joints@[ii].val->Some_0.body_a != h && self.joints@[ii].val->Some_0.body_b
                        != h,
                forall|kk: int|
                    0 <= kk < detached_joints@.len() ==> old(self).joint_valid(
                        #[trigger] detached_joints@[kk],
                    ) && (old(self).joint_at(detached_joints@[kk]).body_a == h || old(
                        self,
                    ).joint_at(detached_joints@[kk]).body_b == h),
                forall|ii: int|
                    0 <= ii < njnt ==> self.joints.gen_of(ii) >= old(self).joints.gen_of(ii),
                forall|g: Handle|
                    old(self).joint_valid(g) && (old(self).joint_at(g).body_a == h || old(
                        self,
                    ).joint_at(g).body_b == h) && g.index < k ==> self.joints.gen_of(
                        g.index as int,
                    ) > g.gen as int,
                forall|ii: int| k <= ii < njnt ==> self.joints@[ii] == old(self).joints@[ii],
                forall|g: Handle|
                    old(self).joint_valid(g) && (old(self).joint_at(g).body_a == h || old(
                        self,
                    ).joint_at(g).body_b == h) && g.index < k ==> detached_joints@.contains(g),
                forall|kk: int|
                    0 <= kk < detached_joints@.len() ==> (#[trigger] detached_joints@[kk]).index
                        < k,
                forall|k1: int, k2: int|
                    0 <= k1 < k2 < detached_joints@.len() ==> detached_joints@[k1]
                        != detached_joints@[k2],
            decreases njnt - k,
        {
            match self.joints.handle_at(k) {
                Option::Some(jh) => {
                    let j = match self.joints.get(jh) {
                        Option::Some(j) => *j,
                        Option::None => {
                            // cannot happen: the handle was read off a live slot
                            proof {
                                assert(false);
                            }
                            return Result::Err(SimError::InvalidHandle);
                        },
                    };
                    let touches_a = j.body_a.index == h.index && j.body_a.gen == h.gen;
                    let touches_b = j.body_b.index == h.index && j.body_b.gen == h.gen;
                    if touches_a || touches_b {
                        let ghost pre = detached_joints@;
                        self.joints.remove(jh);
                        detached_joints.push(jh);
                        proof {
                            assert(detached_joints@ == pre.push(jh));
                            assert forall|g: Handle|
                                old(self).joint_valid(g) && (old(self).joint_at(g).body_a == h
                                    || old(self).joint_at(g).body_b == h) && g.index < k
                                    + 1 implies detached_joints@.contains(g) by {
                                if g.index < k {
                                    assert(pre.contains(g));
                                    let kidx = choose|kk: int|
                                        0 <= kk < pre.len() && pre[kk] == g;
                                    assert(detached_joints@[kidx] == g);
                                } else {
                                    assert(g.gen == old(self).joints@[k as int].gen);
                                    assert(g == jh);
                                    assert(detached_joints@[pre.len() as int] == g);
                                }
                            }
                        }
                    } else {
                        proof {
                            assert forall|g: Handle|
                                old(self).joint_valid(g) && (old(self).joint_at(g).body_a == h
                                    || old(self).joint_at(g).body_b == h) && g.index < k
                                    + 1 implies detached_joints@.contains(g) by {
                                if g.index == k {
                                    assert(g == jh);
                                    assert(old(self).joint_at(g) == j);
                                    assert(false);
                                }
                            }
                        }
                    }
                },
                Option::None => {
                    proof {
                        assert forall|g: Handle|
                            old(self).joint_valid(g) && (old(self).joint_at(g).body_a == h || old(
                                self,
                            ).joint_at(g).body_b == h) && g.index < k + 1 implies detached_joints@
                            .contains(g) by {
                            if g.index == k {
                                assert(self.joints@[k as int] == old(self).joints@[k as int]);
                                assert(false);
                            }
                        }
                    }
                },
            }
            k = k + 1;
        }
        self.bodies.remove(h);
        Result::Ok(Detached { colliders: detached_colliders, joints: detached_joints })
    }
}

/// Sum the mass and inertia contributions of every live collider attached to
/// `h`, with saturating accumulation.
fn aggregate_mass(colliders: &Arena<Collider>, h: Handle) -> (r: (i64, i64))
    requires
        forall|i: int|
            0 <= i < colliders@.len() && colliders@[i].val is Some ==> collider_wf(
                #[trigger] colliders@[i].val->Some_0,
            ),
    ensures
        r.0 as int == mass_sum(colliders@, h, colliders@.len() as int),
        r.1 as int == inertia_sum(colliders@, h, colliders@.len() as int),
        0 <= r.0 as int && in_range(r.0 as int),
        0 <= r.1 as int && in_range(r.1 as int),
{
    let n: usize = colliders.slot_count();
    let mut m: i64 = 0;
    let mut ine: i64 = 0;
    let mut i: usize = 0;
    while i < n
        invariant
            n == colliders@.len(),
            i <= n,
            forall|k: int|
                0 <= k < colliders@.len() && colliders@[k].val is Some ==> collider_wf(
                    #[trigger] colliders@[k].val->Some_0,
                ),
            m as int == mass_sum(colliders@, h, i as int),
            ine as int == inertia_sum(colliders@, h, i as int),
            0 <= m as int && in_range(m as int),
            0 <= ine as int && in_range(ine as int),
        decreases n - i,
    {
        match colliders.read_at(i) {
            Option::Some(c) => {
                if c.parent.index == h.index && c.parent.gen == h.gen {
                    let dm = shape_mass(c.shape, c.material.density);
                    let di = shape_inertia(c.shape, c.material.density);
                    m = crate::fx::fx_add(m, dm);
                    ine = crate::fx::fx_add(ine, di);
                }
            },
            Option::None => {},
        }
        i = i + 1;
    }
    (m, ine)
}

/// The handles of all live entries of an arena, in slot order.
fn live_handles<T>(arena: &Arena<T>) -> (r: Vec<Handle>)
    ensures
        forall|g: Handle| r@.contains(g) <==> arena.valid(g),
{
    broadcast use vstd::seq_lib::lemma_seq_contains_after_push;

    let n: usize = arena.slot_count();
    let mut out: Vec<Handle> = Vec::new();
    let mut i: usize = 0;
    while i < n
        invariant
            n == arena@.len(),
            i <= n,
            forall|g: Handle| out@.contains(g) <==> (arena.valid(g) && g.index < i),
        decreases n - i,
    {
        match arena.handle_at(i) {
            Option::Some(h) => {
                let ghost pre = out@;
                out.push(h);
                proof {
                    assert(out@ == pre.push(h));
                    assert forall|g: Handle|
                        out@.contains(g) <==> (arena.valid(g) && g.index < i + 1) by {
                        if out@.contains(g) {
                            let k = choose|k: int| 0 <= k < out@.len() && out@[k] == g;
                            if k < pre.len() {
                                assert(pre[k] == g);
                                assert(pre.contains(g));
                            } else {
                                assert(g == h);
                            }
                        }
                        if arena.valid(g) && g.index < i + 1 {
                            if g.index == i {
                                assert(g == h);
                                assert(out@[out@.len() - 1] == g);
                            } else {
                                assert(pre.contains(g));
                                let k = choose|k: int| 0 <= k < pre.len() && pre[k] == g;
                                assert(out@[k] == g);
                            }
                        }
                    }
                }
            },
            Option::None => {
                proof {
                    assert forall|g: Handle|
                        out@.contains(g) <==> (arena.valid(g) && g.index < i + 1) by {
                        if arena.valid(g) && g.index == i {
                            assert(arena@[i as int].val is Some && arena@[i as int].gen
                                < u64::MAX);
                        }
                    }
                }
            },
        }
        i = i + 1;
    }
    out
}

impl World {
    /// The handles of all live bodies, in slot order.
    pub fn body_handles(&self) -> (r: Vec<Handle>)
        ensures
            forall|g: Handle| r@.contains(g) <==> self.body_valid(g),
    {
        live_handles(&self.bodies)
    }

    /// The handles of all live colliders, in slot order.
    pub fn collider_handles(&self) -> (r: Vec<Handle>)
        ensures
            forall|g: Handle| r@.contains(g) <==> self.collider_valid(g),
    {
        live_handles(&self.colliders)
    }

    /// The handles of all live joints, in slot order.
    pub fn joint_handles(&self) -> (r: Vec<Handle>)
        ensures
            forall|g: Handle| r@.contains(g) <==> self.joint_valid(g),
    {
        live_handles(&self.joints)
    }
}

/// Law: at the world level, a body handle invalidated by `remove_body` is
/// never resurrected by a later `new_body`. `w1` is `w0` after `remove_body(h)`
/// and `w2` is `w1` after a `new_body` that returned `h2`, each described by
/// that operation's contract; the fresh handle differs from the removed one,
/// and the removed one still resolves to nothing.
pub proof fn lemma_world_removed_body_never_aliases(
    w0: World,
    w1: World,
    w2: World,
    h: Handle,
    h2: Handle,
)
    requires
        w0.body_valid(h),
        // what `remove_body(h)` ensures of `w1`
        !w1.body_valid(h),
        w1.sbodies().gen_of(h.index as int) > h.gen as int,
        w1.sbodies()@.len() == w0.sbodies()@.len(),
        // what `new_body` ensures of `w2` and `h2`
        w2.body_valid(h2),
        !w1.body_valid(h2),
        h2.index < w1.sbodies()@.len() ==> h2.gen as int == w1.sbodies().gen_of(h2.index as int),
        h2.index >= w1.sbodies()@.len() ==> h2.index == w1.sbodies()@.len(),
        forall|g: Handle| w2.body_valid(g) && g != h2 ==> w1.body_valid(g),
    ensures
        h2 != h,
        !w2.body_valid(h),
{
    assert forall|g: Handle| w2.sbodies().valid(g) && g != h2 implies w1.sbodies().valid(g) by {
        assert(w2.body_valid(g) && g != h2);
        assert(w1.body_valid(g));
    }
    crate::arena::lemma_removed_handle_never_aliases(
        w0.sbodies(),
        w1.sbodies(),
        w2.sbodies(),
        h,
        h2,
    );
}

/// Handle validity reads only a slot's generation and occupancy, so any pass
/// that keeps the store's shape keeps every store that points into it well
/// formed.
pub proof fn lemma_shape_keeps_references(
    cs: Seq<Slot<crate::model::Collider>>,
    js: Seq<Slot<crate::model::Joint>>,
    a0: Arena<RigidBody>,
    a1: Arena<RigidBody>,
)
    requires
        crate::step::bodies_same_shape(a0@, a1@),
    ensures
        colliders_store_wf(cs, a0) <==> colliders_store_wf(cs, a1),
        joints_store_wf(js, a0) <==> joints_store_wf(js, a1),
        live_gens_ok(a0@) <==> live_gens_ok(a1@),
        forall|g: Handle| a0.valid(g) <==> a1.valid(g),
{
    assert forall|g: Handle| a0.valid(g) <==> a1.valid(g) by {
        if g.index < a0@.len() {
            assert(a1@[g.index as int].gen == a0@[g.index as int].gen);
        }
    }
    if live_gens_ok(a0@) {
        assert forall|i: int|
            0 <= i < a1@.len() && (#[trigger] a1@[i]).val is Some implies a1@[i].gen
            < u64::MAX by {
            assert(a0@[i].val is Some);
            assert(a1@[i].gen == a0@[i].gen);
        }
    }
    if live_gens_ok(a1@) {
        assert forall|i: int|
            0 <= i < a0@.len() && (#[trigger] a0@[i]).val is Some implies a0@[i].gen
            < u64::MAX by {
            assert(a1@[i].val is Some);
            assert(a1@[i].gen == a0@[i].gen);
        }
    }
}

impl World {
    /// Advance the world by one fixed time step under the given gravity.
    ///
    /// The phases run linearly within the call — collect targets (already set
    /// by the caller through the kinematic-target setters), detect contacts,
    /// solve joint and contact constraints, integrate poses, project joint
    /// limits, update sleep state, publish — and the call returns with the
    /// world back in its idle, queryable state.
    ///
    /// A stale reference cannot corrupt a step: the well-formedness invariant
    /// guarantees every collider and joint points at a live body, because
    /// removing a body detaches both, so no phase can trip over a dangling
    /// handle and the previously published state is never partially
    /// overwritten.
    ///
    /// The contract carries the core guarantees: a fixed body's slot is
    /// bit-identical afterwards, no body is created or destroyed, colliders
    /// are untouched, joints keep their configuration (only warm-start
    /// accumulators move), and the elapsed time grows by exactly `dt`.
    pub fn step(&mut self, dt: i64, gravity: Vec2)
        requires
            old(self).wf(),
            0 < dt as int <= SCALE as int,
            v2_in_range(gravity),
        ensures
            final(self).wf(),
            crate::step::bodies_same_shape(old(self).sbodies()@, final(self).sbodies()@),
            crate::step::fixed_preserved(old(self).sbodies()@, final(self).sbodies()@),
            forall|g: crate::arena::Handle|
                final(self).body_valid(g) <==> old(self).body_valid(g),
            forall|g: crate::arena::Handle|
                old(self).body_valid(g) && old(self).body_at(g).body_type == BodyType::Fixed
                    ==> final(self).body_at(g) == old(self).body_at(g),
            final(self).scolliders() == old(self).scolliders(),
            crate::solver::joints_warm_only(old(self).sjoints()@, final(self).sjoints()@),
            final(self).selapsed() == sat(old(self).selapsed() + dt as int),
            final(self).srest_rule() == old(self).srest_rule(),
            final(self).sfric_rule() == old(self).sfric_rule(),
            // the solver never writes a kinematic body: a velocity-based one
            // carries exactly its externally set target velocity out of the step
            forall|g: Handle|
                old(self).body_valid(g) && old(self).body_at(g).body_type
                    == BodyType::KinematicVelocityBased ==> final(self).body_at(g).vel == old(
                    self,
                ).body_at(g).vel_target,
            // and its pose advances by exactly that target velocity over dt,
            // as if it were dynamic but un-opposed by constraints
            forall|g: Handle|
                old(self).body_valid(g) && old(self).body_at(g).body_type
                    == BodyType::KinematicVelocityBased ==> crate::step::pose_advanced(
                    old(self).body_at(g).pose,
                    old(self).body_at(g).vel_target,
                    dt as int,
                    final(self).body_at(g).pose,
                ),
            // and a position-based one adopts exactly its target pose
            forall|g: Handle|
                old(self).body_valid(g) && old(self).body_at(g).body_type
                    == BodyType::KinematicPositionBased ==> final(self).body_at(g).pose == old(
                    self,
                ).body_at(g).pose_target,
            // every awake dynamic body with mass has its position advanced by
            // exactly its published velocity over dt; an angular limit may
            // still project its orientation
            forall|g: Handle|
                old(self).body_valid(g) && old(self).body_at(g).body_type == BodyType::Dynamic
                    && old(self).body_at(g).inv_mass > 0 && !old(self).body_at(g).sleeping ==> {
                    &&& final(self).body_at(g).pose.pos.x as int == crate::fx::sadd(
                        old(self).body_at(g).pose.pos.x as int,
                        crate::fx::sm(final(self).body_at(g).vel.linvel.x as int, dt as int),
                    )
                    &&& final(self).body_at(g).pose.pos.y as int == crate::fx::sadd(
                        old(self).body_at(g).pose.pos.y as int,
                        crate::fx::sm(final(self).body_at(g).vel.linvel.y as int, dt as int),
                    )
                },
            // an awake dynamic body that no collider and no joint refers to
            // feels gravity alone: it leaves with exactly its old velocity
            // plus gravity times dt
            forall|g: Handle|
                old(self).body_valid(g) && old(self).body_at(g).body_type == BodyType::Dynamic
                    && old(self).body_at(g).inv_mass > 0 && !old(self).body_at(g).sleeping && (
                forall|ch: Handle|
                    old(self).collider_valid(ch) ==> (#[trigger] old(self).collider_at(
                        ch,
                    )).parent != g) && (forall|jh: Handle|
                    old(self).joint_valid(jh) ==> (#[trigger] old(self).joint_at(jh)).body_a != g
                        && old(self).joint_at(jh).body_b != g) ==> {
                    &&& final(self).body_at(g).vel.linvel.x as int == crate::fx::sadd(
                        old(self).body_at(g).vel.linvel.x as int,
                        crate::fx::sm(gravity.x as int, dt as int),
                    )
                    &&& final(self).body_at(g).vel.linvel.y as int == crate::fx::sadd(
                        old(self).body_at(g).vel.linvel.y as int,
                        crate::fx::sm(gravity.y as int, dt as int),
                    )
                    &&& final(self).body_at(g).vel.angvel == old(self).body_at(g).vel.angvel
                },
    {
        crate::step::apply_forces(&mut self.bodies, dt, gravity);
        proof {
            lemma_shape_keeps_references(
                self.colliders@,
                self.joints@,
                old(self).sbodies(),
                self.sbodies(),
            );
        }
        let mut contacts = crate::contact::detect_contacts(
            &self.bodies,
            &self.colliders,
            &self.contact_warm,
            self.restitution_rule,
            self.friction_rule,
        );
        let njs: usize = self.joints.slot_count();
        let ghost cs0 = contacts@;
        let ghost js0 = self.joints;
        let ghost b1arena = self.bodies;
        crate::solver::solve_velocities(
            &mut self.bodies,
            &mut self.joints,
            &mut contacts,
            dt,
            &mut self.divergence_events,
        );
        proof {
            assert forall|g: Handle|
                old(self).body_valid(g) && (forall|ch: Handle|
                    old(self).collider_valid(ch) ==> (#[trigger] old(self).collider_at(
                        ch,
                    )).parent != g) && (forall|jh: Handle|
                    old(self).joint_valid(jh) ==> (#[trigger] old(self).joint_at(jh)).body_a != g
                        && old(self).joint_at(jh).body_b != g) implies self
                .bodies@[g.index as int] == b1arena@[g.index as int] by {
                assert(b1arena@[g.index as int].gen == old(self).sbodies()@[g.index as int].gen);
                assert(b1arena.valid(g));
                assert(crate::solver::unconstrained_by_contacts(g, cs0)) by {
                    assert forall|kk: int|
                        0 <= kk < cs0.len() implies (#[trigger] cs0[kk]).body_a != g
                            && cs0[kk].body_b != g by {
                        if cs0[kk].body_a == g {
                            assert(old(self).collider_valid(cs0[kk].ca));
                            assert(old(self).collider_at(cs0[kk].ca).parent == g);
                            assert(false);
                        }
                        if cs0[kk].body_b == g {
                            assert(old(self).collider_valid(cs0[kk].cb));
                            assert(old(self).collider_at(cs0[kk].cb).parent == g);
                            assert(false);
                        }
                    }
                }
                assert(crate::solver::unconstrained_by_joints(g, js0@)) by {
                    assert forall|kk: int|
                        0 <= kk < js0@.len() && (#[trigger] js0@[kk]).val is Some
                            implies js0@[kk].val->Some_0.body_a != g
                            && js0@[kk].val->Some_0.body_b != g by {
                        assert(js0@.len() == njs as int);
                        let jhh = Handle { index: kk as usize, gen: js0@[kk].gen };
                        assert(jhh.index as int == kk);
                        assert(js0@[kk].gen < u64::MAX);
                        assert(old(self).joint_valid(jhh));
                        assert(old(self).joint_at(jhh) == js0@[kk].val->Some_0);
                    }
                }
            }
            lemma_shape_keeps_references(
                self.colliders@,
                self.joints@,
                old(self).sbodies(),
                self.sbodies(),
            );
        }
        crate::step::integrate_poses(&mut self.bodies, dt);
        proof {
            lemma_shape_keeps_references(
                self.colliders@,
                self.joints@,
                old(self).sbodies(),
                self.sbodies(),
            );
        }
        crate::solver::clamp_joint_angles(&mut self.bodies, &self.joints);
        crate::step::update_sleep(&mut self.bodies);
        proof {
            lemma_shape_keeps_references(
                self.colliders@,
                self.joints@,
                old(self).sbodies(),
                self.sbodies(),
            );
        }
        // publish the accumulated impulses as next step's warm start
        let mut warm: Vec<ContactWarm> = Vec::new();
        let m: usize = contacts.len();
        let mut k: usize = 0;
        while k < m
            invariant
                warm_wf(warm@),
                m == contacts@.len(),
                k <= m,
                forall|kk: int|
                    0 <= kk < contacts@.len() ==> in_range(
                        (#[trigger] contacts@[kk]).normal_imp as int,
                    ) && in_range(contacts@[kk].tangent_imp as int),
            decreases m - k,
        {
            let c = contacts[k];
            warm.push(
                ContactWarm {
                    a: c.ca,
                    b: c.cb,
                    normal_imp: c.normal_imp,
                    tangent_imp: c.tangent_imp,
                },
            );
            k = k + 1;
        }
        self.contact_warm = warm;
        self.elapsed = fx_add(self.elapsed, dt);
    }
}


} // verus!
