//! The iterative velocity solver: sequential impulses over contact points
//! (non-penetration, restitution, Coulomb friction) and revolute joints
//! (translational lock, motors with a force cap, angular limits), with
//! warm-started accumulators clamped to their valid range every iteration.

use vstd::prelude::*;

verus! {

use vstd::pervasive::VecAdditionalExecFns;
use crate::arena::{Arena, Handle, Slot};
use crate::contact::{Contact, contact_wf, contacts_wf};
use crate::fx::{
    Vec2, in_range, v2_in_range, sat, sm, mul_scaled, abs_i, clamp_i, SCALE, fx_add, fx_sub, fx_mul, fx_div,
    fx_max, fx_neg, fx_clamp, v2_dot,
};
use crate::model::{BodyType, RigidBody, Joint, MotorMode, body_wf};
use crate::world::{bodies_store_wf, joints_store_wf};
use crate::step::{bodies_same_shape, poses_preserved, configs_preserved};

/// Fixed number of solver iterations per step.
pub const SOLVER_ITERS: usize = 8;

/// Safety bound on any accumulated impulse; hitting it counts as a reported
/// divergence event and the impulse is clamped, never propagated unbounded.
pub const IMPULSE_CAP: i64 = 100_000_000_000;

/// Position-correction gain per step (dimensionless, scaled).
pub const BAUMGARTE: i64 = 200_000;

/// Penetration below this depth is tolerated to avoid jitter.
pub const PEN_SLOP: i64 = 5_000;

/// Bodies that the solver may never touch are untouched: only awake dynamic
/// bodies with mass change at all.
pub open spec fn nondynamic_preserved(s1: Seq<Slot<RigidBody>>, s2: Seq<Slot<RigidBody>>) -> bool {
    forall|i: int|
        0 <= i < s1.len() && (#[trigger] s1[i]).val is Some && (s1[i].val->Some_0.body_type
            != BodyType::Dynamic || s1[i].val->Some_0.inv_mass == 0) ==> s2[i] == s1[i]
}

/// No contact in the set touches body `g` on either side.
pub open spec fn unconstrained_by_contacts(g: Handle, cs: Seq<Contact>) -> bool {
    forall|k: int| 0 <= k < cs.len() ==> (#[trigger] cs[k]).body_a != g && cs[k].body_b != g
}

/// No live joint in the store is incident to body `g`.
pub open spec fn unconstrained_by_joints(g: Handle, js: Seq<Slot<Joint>>) -> bool {
    forall|k: int|
        0 <= k < js.len() && (#[trigger] js[k]).val is Some ==> js[k].val->Some_0.body_a != g
            && js[k].val->Some_0.body_b != g
}

/// The invariants the solver maintains on a contact's accumulators: the
/// normal impulse is nonnegative and below the safety cap, and the friction
/// impulse lies within the Coulomb cone of the normal impulse.
pub open spec fn contact_acc_bounds(c: Contact) -> bool {
    &&& 0 <= c.normal_imp as int <= IMPULSE_CAP as int
    &&& abs_i(c.tangent_imp as int) <= sm(c.friction as int, c.normal_imp as int)
}

/// One Gauss-Seidel update of a contact's normal accumulator: the impulse that
/// would drive the relative normal velocity `vn` to the target `bias` (the
/// greater of the position-correction bias and the restitution bias) through
/// the effective mass `kn`, accumulated and clamped into `[0, IMPULSE_CAP]`.
/// Returns the new accumulator, the delta actually applied, and whether the
/// safety cap was hit. With the exact effective mass and no clamping, a single
/// update leaves the relative normal velocity at the bias; over contacts that
/// share bodies the iterations converge only approximately, by design.
pub fn contact_normal_step(vn: i64, bias: i64, kn: i64, acc: i64) -> (r: (i64, i64, bool))
    requires
        in_range(vn as int),
        in_range(bias as int),
        in_range(kn as int),
        in_range(acc as int),
    ensures
        r.0 as int == clamp_i(
            sat(acc as int + sat(mul_scaled(sat(bias as int - vn as int), kn as int))),
            0,
            IMPULSE_CAP as int,
        ),
        r.1 as int == sat(r.0 as int - acc as int),
        0 <= r.0 as int <= IMPULSE_CAP as int,
{
    let lambda = fx_mul(fx_sub(bias, vn), kn);
    let raw = fx_add(acc, lambda);
    let na = fx_clamp(raw, 0, IMPULSE_CAP);
    (na, fx_sub(na, acc), raw > IMPULSE_CAP)
}

/// The generalized motor impulse actually applied in one iteration: the
/// desired impulse clamped into the force budget `max_force * dt`, so the
/// motor can never exert more than its configured maximum force.
pub fn motor_impulse(desired: i64, max_force: i64, dt: i64) -> (r: i64)
    requires
        in_range(desired as int),
        0 <= max_force as int && in_range(max_force as int),
        0 < dt as int <= SCALE as int,
    ensures
        r as int == clamp_i(
            desired as int,
            -sm(max_force as int, dt as int),
            sm(max_force as int, dt as int),
        ),
        abs_i(r as int) <= sm(max_force as int, dt as int),
{
    let cap = fx_mul(max_force, dt);
    fx_clamp(desired, fx_neg(cap), cap)
}

/// The generalized motor impulse a joint applies in one step, for any motor
/// mode: a position motor runs a spring-damper toward its target angle, a
/// velocity motor a damped correction toward its target speed, and both are
/// clamped into the force budget, so the applied impulse never exceeds
/// `max_force * dt` in magnitude whatever the motor demands.
pub fn joint_motor_impulse(j: &Joint, aa: &RigidBody, bb: &RigidBody, dt: i64) -> (r: i64)
    requires
        crate::model::joint_wf(*j),
        body_wf(*aa),
        body_wf(*bb),
        0 < dt as int <= SCALE as int,
    ensures
        abs_i(r as int) <= sm(j.motor_max_force as int, dt as int),
        in_range(r as int),
        j.motor is Inactive ==> r == 0,
{
    let wr = fx_sub(bb.vel.angvel, aa.vel.angvel);
    match j.motor {
        MotorMode::Inactive => 0,
        MotorMode::PositionTarget { target_angle, stiffness, damping } => {
            // spring-damper toward the target angle: the stiffness and
            // damping rates act per step, each capped at the one-step
            // correction so any gain stays stable; compared directly,
            // with no multi-turn unwrapping
            let ki = fx_add(aa.inv_inertia, bb.inv_inertia);
            if ki > 0 {
                let err = fx_sub(fx_sub(bb.pose.angle, aa.pose.angle), target_angle);
                let spring = fx_mul(err, crate::fx::fx_min(fx_mul(stiffness, dt), SCALE));
                let damp = fx_mul(wr, crate::fx::fx_min(fx_mul(damping, dt), SCALE));
                let dw = fx_neg(fx_add(fx_div(spring, dt), damp));
                motor_impulse(fx_div(dw, ki), j.motor_max_force, dt)
            } else {
                0
            }
        },
        MotorMode::VelocityTarget { target_vel, damping } => {
            // share of the exact velocity correction per step, scaled by
            // the damping rate and clamped by the force budget
            let ki = fx_add(aa.inv_inertia, bb.inv_inertia);
            if ki > 0 {
                let full = fx_div(fx_sub(target_vel, wr), ki);
                let factor = crate::fx::fx_min(fx_mul(damping, dt), SCALE);
                motor_impulse(fx_mul(full, factor), j.motor_max_force, dt)
            } else {
                0
            }
        },
    }
}

/// Velocity of a body at an offset `r` from its origin: `v + w x r`.
fn vel_at(b: &RigidBody, r: Vec2) -> (v: Vec2)
    requires
        body_wf(*b),
        v2_in_range(r),
    ensures
        v2_in_range(v),
{
    Vec2 {
        x: fx_sub(b.vel.linvel.x, fx_mul(b.vel.angvel, r.y)),
        y: fx_add(b.vel.linvel.y, fx_mul(b.vel.angvel, r.x)),
    }
}

/// Apply a linear impulse at offset `r` to a body, if it is dynamic and has
/// mass; all other bodies are left exactly as they are.
fn apply_impulse(bodies: &mut Arena<RigidBody>, h: Handle, imp: Vec2, r: Vec2)
    requires
        bodies_store_wf(old(bodies)@),
        old(bodies).valid(h),
        v2_in_range(imp),
        v2_in_range(r),
    ensures
        bodies_store_wf(final(bodies)@),
        bodies_same_shape(old(bodies)@, final(bodies)@),
        nondynamic_preserved(old(bodies)@, final(bodies)@),
        poses_preserved(old(bodies)@, final(bodies)@),
        configs_preserved(old(bodies)@, final(bodies)@),
        forall|i: int|
            0 <= i < old(bodies)@.len() && i != h.index ==> final(bodies)@[i] == old(bodies)@[i],
{
    let b = match bodies.get(h) {
        Option::Some(b) => *b,
        Option::None => { return ; },
    };
    if !matches!(b.body_type, BodyType::Dynamic) || b.inv_mass == 0 {
        return ;
    }
    let dvx = fx_mul(imp.x, b.inv_mass);
    let dvy = fx_mul(imp.y, b.inv_mass);
    let dw = fx_mul(b.inv_inertia, crate::fx::v2_cross(r, imp));
    bodies.write_at(
        h.index,
        RigidBody {
            vel: crate::model::Velocity {
                linvel: Vec2 { x: fx_add(b.vel.linvel.x, dvx), y: fx_add(b.vel.linvel.y, dvy) },
                angvel: fx_add(b.vel.angvel, dw),
            },
            ..b
        },
    );
}

/// Apply a pure angular impulse to a body, if it is dynamic and has mass.
fn apply_angular_impulse(bodies: &mut Arena<RigidBody>, h: Handle, lambda: i64)
    requires
        bodies_store_wf(old(bodies)@),
        old(bodies).valid(h),
        in_range(lambda as int),
    ensures
        bodies_store_wf(final(bodies)@),
        bodies_same_shape(old(bodies)@, final(bodies)@),
        nondynamic_preserved(old(bodies)@, final(bodies)@),
        poses_preserved(old(bodies)@, final(bodies)@),
        configs_preserved(old(bodies)@, final(bodies)@),
        forall|i: int|
            0 <= i < old(bodies)@.len() && i != h.index ==> final(bodies)@[i] == old(bodies)@[i],
{
    let b = match bodies.get(h) {
        Option::Some(b) => *b,
        Option::None => { return ; },
    };
    if !matches!(b.body_type, BodyType::Dynamic) || b.inv_mass == 0 {
        return ;
    }
    let dw = fx_mul(b.inv_inertia, lambda);
    bodies.write_at(
        h.index,
        RigidBody {
            vel: crate::model::Velocity {
                linvel: b.vel.linvel,
                angvel: fx_add(b.vel.angvel, dw),
            },
            ..b
        },
    );
}

/// The loop-carried solver state over the body store, relative to the store as
/// it was when the solver started.
pub open spec fn solver_bodies_ok(s0: Seq<Slot<RigidBody>>, s1: Seq<Slot<RigidBody>>) -> bool {
    &&& bodies_store_wf(s1)
    &&& bodies_same_shape(s0, s1)
    &&& nondynamic_preserved(s0, s1)
    &&& poses_preserved(s0, s1)
    &&& configs_preserved(s0, s1)
}

/// One solver pass over every contact point: a restitution- and
/// position-biased non-penetration impulse with a nonnegative clamped
/// accumulator, then a friction impulse clamped by the friction cone.
fn solve_contacts_once(
    bodies: &mut Arena<RigidBody>,
    contacts: &mut Vec<Contact>,
    inv_dt: i64,
    diverged: &mut u64,
)
    requires
        bodies_store_wf(old(bodies)@),
        contacts_wf(old(contacts)@, *old(bodies)),
        0 <= inv_dt as int && in_range(inv_dt as int),
    ensures
        solver_bodies_ok(old(bodies)@, final(bodies)@),
        contacts_wf(final(contacts)@, *old(bodies)),
        final(contacts)@.len() == old(contacts)@.len(),
        forall|i: int|
            0 <= i < old(contacts)@.len() ==> same_contact_key(
                old(contacts)@[i],
                final(contacts)@[i],
            ),
        forall|i: int|
            0 <= i < old(contacts)@.len() ==> contact_acc_bounds(final(contacts)@[i])
                || final(contacts)@[i] == old(contacts)@[i],
        forall|g: Handle|
            old(bodies).valid(g) && unconstrained_by_contacts(g, old(contacts)@)
                ==> final(bodies)@[g.index as int] == old(bodies)@[g.index as int],
{
    let n: usize = contacts.len();
    let mut i: usize = 0;
    while i < n
        invariant
            solver_bodies_ok(old(bodies)@, bodies@),
            contacts_wf(contacts@, *old(bodies)),
            n == contacts@.len(),
            n == old(contacts)@.len(),
            i <= n,
            0 <= inv_dt as int && in_range(inv_dt as int),
            forall|k: int|
                0 <= k < n ==> same_contact_key(old(contacts)@[k], contacts@[k]),
            forall|k: int|
                0 <= k < n ==> contact_acc_bounds(contacts@[k]) || contacts@[k] == old(
                    contacts,
                )@[k],
            forall|g: Handle|
                old(bodies).valid(g) && unconstrained_by_contacts(g, old(contacts)@)
                    ==> bodies@[g.index as int] == old(bodies)@[g.index as int],
        decreases n - i,
    {
        let c = contacts[i];
        proof {
            assert(contact_wf(contacts@[i as int], *old(bodies)));
        }
        let a = match bodies.get(c.body_a) {
            Option::Some(b) => *b,
            Option::None => {
                i = i + 1;
                continue ;
            },
        };
        let b = match bodies.get(c.body_b) {
            Option::Some(b) => *b,
            Option::None => {
                i = i + 1;
                continue ;
            },
        };
        // effective mass along the normal
        let ran = crate::fx::v2_cross(c.ra, c.normal);
        let rbn = crate::fx::v2_cross(c.rb, c.normal);
        let denom = fx_add(
            fx_add(a.inv_mass, b.inv_mass),
            fx_add(fx_mul(a.inv_inertia, fx_mul(ran, ran)), fx_mul(b.inv_inertia, fx_mul(rbn, rbn))),
        );
        if denom <= 0 {
            i = i + 1;
            continue ;
        }
        let kn = fx_div(SCALE, denom);
        let va = vel_at(&a, c.ra);
        let vb = vel_at(&b, c.rb);
        let rel = Vec2 { x: fx_sub(vb.x, va.x), y: fx_sub(vb.y, va.y) };
        let vn = v2_dot(rel, c.normal);
        // position bias plus restitution bias
        let pos_bias = fx_mul(BAUMGARTE, fx_mul(fx_max(fx_sub(c.pen, PEN_SLOP), 0), inv_dt));
        let bias = fx_max(pos_bias, c.rest_bias);
        let (new_acc, d, hit_cap) = contact_normal_step(vn, bias, kn, c.normal_imp);
        if hit_cap && *diverged < u64::MAX {
            *diverged = *diverged + 1;
        }
        let impulse = Vec2 { x: fx_mul(c.normal.x, d), y: fx_mul(c.normal.y, d) };
        apply_impulse(bodies, c.body_a, Vec2 { x: fx_neg(impulse.x), y: fx_neg(impulse.y) }, c.ra);
        apply_impulse(bodies, c.body_b, impulse, c.rb);
        // friction along the tangent, clamped by the friction cone
        let a2 = match bodies.get(c.body_a) {
            Option::Some(b) => *b,
            Option::None => {
                i = i + 1;
                continue ;
            },
        };
        let b2 = match bodies.get(c.body_b) {
            Option::Some(b) => *b,
            Option::None => {
                i = i + 1;
                continue ;
            },
        };
        let tangent = Vec2 { x: fx_neg(c.normal.y), y: c.normal.x };
        let rat = crate::fx::v2_cross(c.ra, tangent);
        let rbt = crate::fx::v2_cross(c.rb, tangent);
        let denom_t = fx_add(
            fx_add(a2.inv_mass, b2.inv_mass),
            fx_add(
                fx_mul(a2.inv_inertia, fx_mul(rat, rat)),
                fx_mul(b2.inv_inertia, fx_mul(rbt, rbt)),
            ),
        );
        let bound = fx_max(fx_mul(c.friction, new_acc), 0);
        let mut new_t: i64 = fx_clamp(c.tangent_imp, fx_neg(bound), bound);
        if denom_t > 0 {
            let kt = fx_div(SCALE, denom_t);
            let va2 = vel_at(&a2, c.ra);
            let vb2 = vel_at(&b2, c.rb);
            let rel2 = Vec2 { x: fx_sub(vb2.x, va2.x), y: fx_sub(vb2.y, va2.y) };
            let vt = v2_dot(rel2, tangent);
            let lambda_t = fx_neg(fx_mul(vt, kt));
            new_t = fx_clamp(fx_add(c.tangent_imp, lambda_t), fx_neg(bound), bound);
        }
        let dt_imp = fx_sub(new_t, c.tangent_imp);
        let fimp = Vec2 { x: fx_mul(tangent.x, dt_imp), y: fx_mul(tangent.y, dt_imp) };
        apply_impulse(bodies, c.body_a, Vec2 { x: fx_neg(fimp.x), y: fx_neg(fimp.y) }, c.ra);
        apply_impulse(bodies, c.body_b, fimp, c.rb);
        contacts.set(i, Contact { normal_imp: new_acc, tangent_imp: new_t, ..c });
        proof {
            assert forall|g: Handle|
                old(bodies).valid(g) && unconstrained_by_contacts(g, old(contacts)@)
                    implies bodies@[g.index as int] == old(bodies)@[g.index as int] by {
                assert(same_contact_key(old(contacts)@[i as int], contacts@[i as int]));
                if g.index == c.body_a.index {
                    assert(g == c.body_a);
                    assert(old(contacts)@[i as int].body_a != g);
                    assert(false);
                }
                if g.index == c.body_b.index {
                    assert(g == c.body_b);
                    assert(old(contacts)@[i as int].body_b != g);
                    assert(false);
                }
            }
        }
        i = i + 1;
    }
}

/// Both records describe the same contact: everything but the accumulated
/// impulses agrees.
pub open spec fn same_contact_key(c0: Contact, c1: Contact) -> bool {
    c1 == (Contact { normal_imp: c1.normal_imp, tangent_imp: c1.tangent_imp, ..c0 })
}

/// One solver pass over every joint: the translational lock on the anchors,
/// then the motor clamped by its force budget, then the angular limits.
#[verifier::rlimit(80)]
fn solve_joints_once(
    bodies: &mut Arena<RigidBody>,
    joints: &mut Arena<Joint>,
    dt: i64,
    inv_dt: i64,
    apply_motor: bool,
)
    requires
        bodies_store_wf(old(bodies)@),
        joints_store_wf(old(joints)@, *old(bodies)),
        crate::world::live_gens_ok(old(joints)@),
        0 < dt as int <= SCALE as int,
        0 <= inv_dt as int && in_range(inv_dt as int),
    ensures
        solver_bodies_ok(old(bodies)@, final(bodies)@),
        joints_warm_only(old(joints)@, final(joints)@),
        joints_store_wf(final(joints)@, *old(bodies)),
        crate::world::live_gens_ok(final(joints)@),
        forall|g: Handle|
            old(bodies).valid(g) && unconstrained_by_joints(g, old(joints)@)
                ==> final(bodies)@[g.index as int] == old(bodies)@[g.index as int],
{
    let n: usize = joints.slot_count();
    let mut k: usize = 0;
    while k < n
        invariant
            solver_bodies_ok(old(bodies)@, bodies@),
            joints_store_wf(joints@, *old(bodies)),
            crate::world::live_gens_ok(joints@),
            joints_warm_only(old(joints)@, joints@),
            n == joints@.len(),
            k <= n,
            0 < dt as int <= SCALE as int,
            0 <= inv_dt as int && in_range(inv_dt as int),
            forall|g: Handle|
                old(bodies).valid(g) && unconstrained_by_joints(g, old(joints)@)
                    ==> bodies@[g.index as int] == old(bodies)@[g.index as int],
        decreases n - k,
    {
        let jh = match joints.handle_at(k) {
            Option::Some(h) => h,
            Option::None => {
                k = k + 1;
                continue ;
            },
        };
        let j = match joints.get(jh) {
            Option::Some(j) => *j,
            Option::None => {
                k = k + 1;
                continue ;
            },
        };
        let a = match bodies.get(j.body_a) {
            Option::Some(b) => *b,
            Option::None => {
                k = k + 1;
                continue ;
            },
        };
        let b = match bodies.get(j.body_b) {
            Option::Some(b) => *b,
            Option::None => {
                k = k + 1;
                continue ;
            },
        };
        let ca = crate::fx::cos_fx(a.pose.angle);
        let sa = crate::fx::sin_fx(a.pose.angle);
        let cb = crate::fx::cos_fx(b.pose.angle);
        let sb = crate::fx::sin_fx(b.pose.angle);
        let ra = crate::fx::v2_rotate(j.local_anchor_a, ca, sa);
        let rb = crate::fx::v2_rotate(j.local_anchor_b, cb, sb);
        let wa = crate::fx::v2_add(a.pose.pos, ra);
        let wb = crate::fx::v2_add(b.pose.pos, rb);
        // warm start: before the first iteration, re-apply the previous
        // step's accumulated lock impulse as the starting guess
        if apply_motor {
            let w = j.warm_lin;
            apply_impulse(bodies, j.body_a, Vec2 { x: fx_neg(w.x), y: fx_neg(w.y) }, ra);
            apply_impulse(bodies, j.body_b, w, rb);
        }
        let mut acc: Vec2 = j.warm_lin;
        // translational lock: solve the two world axes in sequence
        let mut axis: usize = 0;
        while axis < 2
            invariant
                solver_bodies_ok(old(bodies)@, bodies@),
                bodies.valid(j.body_a),
                bodies.valid(j.body_b),
                v2_in_range(ra),
                v2_in_range(rb),
                v2_in_range(wa),
                v2_in_range(wb),
                v2_in_range(acc),
                0 <= inv_dt as int && in_range(inv_dt as int),
                0 <= k < old(joints)@.len(),
                old(joints)@[k as int].val is Some,
                old(joints)@[k as int].val->Some_0.body_a == j.body_a,
                old(joints)@[k as int].val->Some_0.body_b == j.body_b,
                forall|g: Handle|
                    old(bodies).valid(g) && unconstrained_by_joints(g, old(joints)@)
                        ==> bodies@[g.index as int] == old(bodies)@[g.index as int],
            decreases 2 - axis,
        {
            let nvec = if axis == 0 {
                Vec2 { x: SCALE, y: 0 }
            } else {
                Vec2 { x: 0, y: SCALE }
            };
            let aa = match bodies.get(j.body_a) {
                Option::Some(x) => *x,
                Option::None => { break ; },
            };
            let bb = match bodies.get(j.body_b) {
                Option::Some(x) => *x,
                Option::None => { break ; },
            };
            let ran = crate::fx::v2_cross(ra, nvec);
            let rbn = crate::fx::v2_cross(rb, nvec);
            let denom = fx_add(
                fx_add(aa.inv_mass, bb.inv_mass),
                fx_add(
                    fx_mul(aa.inv_inertia, fx_mul(ran, ran)),
                    fx_mul(bb.inv_inertia, fx_mul(rbn, rbn)),
                ),
            );
            if denom > 0 {
                let kn = fx_div(SCALE, denom);
                let va = vel_at(&aa, ra);
                let vb = vel_at(&bb, rb);
                let rel = Vec2 { x: fx_sub(vb.x, va.x), y: fx_sub(vb.y, va.y) };
                let vn = v2_dot(rel, nvec);
                // bias drives the separated anchors back together
                let sep = v2_dot(Vec2 { x: fx_sub(wb.x, wa.x), y: fx_sub(wb.y, wa.y) }, nvec);
                let bias = fx_mul(BAUMGARTE, fx_mul(sep, inv_dt));
                let lambda = fx_neg(fx_mul(fx_add(vn, bias), kn));
                let imp = Vec2 { x: fx_mul(nvec.x, lambda), y: fx_mul(nvec.y, lambda) };
                apply_impulse(bodies, j.body_a, Vec2 { x: fx_neg(imp.x), y: fx_neg(imp.y) }, ra);
                apply_impulse(bodies, j.body_b, imp, rb);
                acc = if axis == 0 {
                    Vec2 { x: fx_add(acc.x, lambda), y: acc.y }
                } else {
                    Vec2 { x: acc.x, y: fx_add(acc.y, lambda) }
                };
            }
            proof {
                assert forall|g: Handle|
                    old(bodies).valid(g) && unconstrained_by_joints(g, old(joints)@)
                        implies bodies@[g.index as int] == old(bodies)@[g.index as int] by {
                    if g.index == j.body_a.index {
                        assert(bodies@[g.index as int].gen == old(bodies)@[g.index as int].gen);
                        assert(g == j.body_a);
                        assert(old(joints)@[k as int].val->Some_0.body_a != g);
                        assert(false);
                    }
                    if g.index == j.body_b.index {
                        assert(bodies@[g.index as int].gen == old(bodies)@[g.index as int].gen);
                        assert(g == j.body_b);
                        assert(old(joints)@[k as int].val->Some_0.body_b != g);
                        assert(false);
                    }
                }
            }
            axis = axis + 1;
        }
        // motor on the rotational degree of freedom
        let aa = match bodies.get(j.body_a) {
            Option::Some(x) => *x,
            Option::None => {
                k = k + 1;
                continue ;
            },
        };
        let bb = match bodies.get(j.body_b) {
            Option::Some(x) => *x,
            Option::None => {
                k = k + 1;
                continue ;
            },
        };
        let lambda_m: i64 = if !apply_motor {
            0
        } else {
            joint_motor_impulse(&j, &aa, &bb, dt)
        };
        if lambda_m != 0 {
            apply_angular_impulse(bodies, j.body_a, fx_neg(lambda_m));
            apply_angular_impulse(bodies, j.body_b, lambda_m);
        }
        // angular limits: stop motion into an exceeded bound
        match j.limits {
            Option::Some(lim) => {
                let a3 = match bodies.get(j.body_a) {
                    Option::Some(x) => *x,
                    Option::None => {
                        k = k + 1;
                        continue ;
                    },
                };
                let b3 = match bodies.get(j.body_b) {
                    Option::Some(x) => *x,
                    Option::None => {
                        k = k + 1;
                        continue ;
                    },
                };
                let relang = fx_sub(b3.pose.angle, a3.pose.angle);
                let wr3 = fx_sub(b3.vel.angvel, a3.vel.angvel);
                let ki3 = fx_add(a3.inv_inertia, b3.inv_inertia);
                let into_lower = relang <= lim.lower && wr3 < 0;
                let into_upper = relang >= lim.upper && wr3 > 0;
                if ki3 > 0 && (into_lower || into_upper) {
                    // cancel the relative angular velocity driving into the bound
                    let lam = fx_div(fx_neg(wr3), ki3);
                    apply_angular_impulse(bodies, j.body_a, fx_neg(lam));
                    apply_angular_impulse(bodies, j.body_b, lam);
                }
            },
            Option::None => {},
        }
        // publish the accumulated lock impulse as the next warm start, and
        // record the motor impulse applied this step
        let next_motor: i64 = if apply_motor {
            lambda_m
        } else {
            j.warm_motor
        };
        joints.write_at(jh.index, Joint { warm_lin: acc, warm_motor: next_motor, ..j });
        proof {
            assert forall|g: Handle|
                old(bodies).valid(g) && unconstrained_by_joints(g, old(joints)@)
                    implies bodies@[g.index as int] == old(bodies)@[g.index as int] by {
                assert(old(joints)@[k as int].val is Some);
                if g.index == j.body_a.index {
                    assert(g == j.body_a);
                    assert(old(joints)@[k as int].val->Some_0.body_a != g);
                    assert(false);
                }
                if g.index == j.body_b.index {
                    assert(g == j.body_b);
                    assert(old(joints)@[k as int].val->Some_0.body_b != g);
                    assert(false);
                }
            }
        }
        k = k + 1;
    }
}

/// Only the warm-start accumulators may differ between the two joint stores.
pub open spec fn joints_warm_only(s1: Seq<Slot<Joint>>, s2: Seq<Slot<Joint>>) -> bool {
    &&& s1.len() == s2.len()
    &&& forall|i: int|
        0 <= i < s1.len() ==> (#[trigger] s2[i]).gen == s1[i].gen && (s2[i].val is Some <==> s1[
            i].val is Some) && (s1[i].val is Some ==> s2[i].val->Some_0 == (Joint {
            warm_lin: s2[i].val->Some_0.warm_lin,
            warm_motor: s2[i].val->Some_0.warm_motor,
            ..s1[i].val->Some_0
        }))
}

/// Only a body's orientation angle may differ; position, velocity and all
/// configuration are untouched.
pub open spec fn only_angle_changed(b0: RigidBody, b1: RigidBody) -> bool {
    b1 == (RigidBody {
        pose: crate::model::Pose { pos: b0.pose.pos, angle: b1.pose.angle },
        ..b0
    })
}

/// The projected orientation of body `b` that clamps the joint's relative
/// angle into its limits: `angle_a + clamp(angle_b - angle_a, lower, upper)`.
/// When no saturation occurs, the resulting relative angle lies exactly within
/// `[lower, upper]`, so the joint never rests outside its limits.
pub fn clamped_partner_angle(angle_a: i64, angle_b: i64, lower: i64, upper: i64) -> (r: i64)
    requires
        in_range(angle_a as int),
        in_range(angle_b as int),
        in_range(lower as int),
        in_range(upper as int),
        lower as int <= upper as int,
    ensures
        r as int == sat(
            angle_a as int + clamp_i(sat(angle_b as int - angle_a as int), lower as int, upper as int),
        ),
        in_range(r as int),
{
    let rel = fx_sub(angle_b, angle_a);
    let cl = fx_clamp(rel, lower, upper);
    fx_add(angle_a, cl)
}

/// Law: once the limit projection has run on a joint whose angles and bounds
/// are away from the saturation edge, the relative angle between the two
/// bodies lies within the configured limits — a motor can overshoot a bound
/// only within one step, never leave the joint resting beyond it.
pub proof fn lemma_projected_angle_within_limits(
    angle_a: int,
    angle_b: int,
    lower: int,
    upper: int,
    r: int,
)
    requires
        lower <= upper,
        // what `clamped_partner_angle` ensures of its result
        r == sat(angle_a + clamp_i(sat(angle_b - angle_a), lower, upper)),
        // away from the saturation edge
        crate::fx::abs_i(angle_a) + crate::fx::abs_i(upper) <= crate::fx::FX_MAX as int,
        crate::fx::abs_i(angle_a) + crate::fx::abs_i(lower) <= crate::fx::FX_MAX as int,
        crate::fx::abs_i(angle_b - angle_a) <= crate::fx::FX_MAX as int,
    ensures
        lower <= r - angle_a <= upper,
{
}

/// No other live joint shares a body with the joint in slot `k`.
pub open spec fn joint_isolated(js: Seq<Slot<Joint>>, k: int) -> bool {
    forall|k2: int|
        0 <= k2 < js.len() && k2 != k && (#[trigger] js[k2]).val is Some ==> {
            let a = js[k].val->Some_0;
            let b = js[k2].val->Some_0;
            b.body_a != a.body_a && b.body_a != a.body_b && b.body_b != a.body_a && b.body_b
                != a.body_b
        }
}

/// The joint's angles and bounds sit far enough from the representable edge
/// that the projection arithmetic cannot saturate.
pub open spec fn limit_margins_ok(a_angle: int, b_angle: int, lim: crate::model::AngleLimits) -> bool {
    &&& abs_i(a_angle) + abs_i(lim.lower as int) <= crate::fx::FX_MAX as int
    &&& abs_i(a_angle) + abs_i(lim.upper as int) <= crate::fx::FX_MAX as int
    &&& abs_i(b_angle - a_angle) <= crate::fx::FX_MAX as int
}

/// The full hypothesis under which the projection pass guarantees a joint's
/// relative angle: the joint is limited, shares no body with another joint,
/// its adjusted partner is dynamic with mass, and the angles clear the
/// saturation margins.
pub open spec fn limit_projection_applies(
    js: Seq<Slot<Joint>>,
    bs: Seq<Slot<RigidBody>>,
    k: int,
) -> bool {
    &&& 0 <= k < js.len()
    &&& js[k].val is Some
    &&& js[k].val->Some_0.limits is Some
    &&& js[k].val->Some_0.body_a != js[k].val->Some_0.body_b
    &&& joint_isolated(js, k)
    &&& {
        let j = js[k].val->Some_0;
        let b = bs[j.body_b.index as int].val->Some_0;
        let a = bs[j.body_a.index as int].val->Some_0;
        b.body_type == BodyType::Dynamic && b.inv_mass > 0 && limit_margins_ok(
            a.pose.angle as int,
            b.pose.angle as int,
            j.limits->Some_0,
        )
    }
}

/// The joint's relative angle, read off a body store.
pub open spec fn rel_angle_of(js: Seq<Slot<Joint>>, bs: Seq<Slot<RigidBody>>, k: int) -> int {
    let j = js[k].val->Some_0;
    (bs[j.body_b.index as int].val->Some_0.pose.angle as int) - (bs[j.body_a.index
        as int].val->Some_0.pose.angle as int)
}

/// The joint in slot `kk` rests within its configured angular limits.
pub open spec fn joint_within_limits(
    js: Seq<Slot<Joint>>,
    bs: Seq<Slot<RigidBody>>,
    kk: int,
) -> bool {
    let lim = js[kk].val->Some_0.limits->Some_0;
    lim.lower as int <= rel_angle_of(js, bs, kk) <= lim.upper as int
}

/// Project every limited joint's relative angle back into its bounds after
/// integration, adjusting the dynamic partner, so a motor can never leave a
/// joint resting beyond its limits.
pub fn clamp_joint_angles(bodies: &mut Arena<RigidBody>, joints: &Arena<Joint>)
    requires
        bodies_store_wf(old(bodies)@),
        joints_store_wf(joints@, *old(bodies)),
        crate::world::live_gens_ok(joints@),
    ensures
        bodies_store_wf(final(bodies)@),
        bodies_same_shape(old(bodies)@, final(bodies)@),
        nondynamic_preserved(old(bodies)@, final(bodies)@),
        forall|i: int|
            0 <= i < old(bodies)@.len() && (#[trigger] old(bodies)@[i]).val is Some
                ==> final(bodies)@[i].val is Some && only_angle_changed(
                old(bodies)@[i].val->Some_0,
                final(bodies)@[i].val->Some_0,
            ),
        // afterwards, every limited joint the pass could act on alone rests
        // within its bounds: a motor can overshoot only within a step, never
        // leave such a joint settled outside its limits
        forall|kk: int|
            #[trigger] limit_projection_applies(joints@, old(bodies)@, kk) ==> joint_within_limits(
                joints@,
                final(bodies)@,
                kk,
            ),
{
    let n: usize = joints.slot_count();
    let mut k: usize = 0;
    while k < n
        invariant
            bodies_store_wf(bodies@),
            bodies_same_shape(old(bodies)@, bodies@),
            nondynamic_preserved(old(bodies)@, bodies@),
            joints_store_wf(joints@, *old(bodies)),
            crate::world::live_gens_ok(joints@),
            n == joints@.len(),
            k <= n,
            forall|i: int|
                0 <= i < old(bodies)@.len() && (#[trigger] old(bodies)@[i]).val is Some
                    ==> bodies@[i].val is Some && only_angle_changed(
                    old(bodies)@[i].val->Some_0,
                    bodies@[i].val->Some_0,
                ),
            forall|kk: int|
                #[trigger] limit_projection_applies(joints@, old(bodies)@, kk) && kk < k
                    ==> joint_within_limits(joints@, bodies@, kk),
            forall|kk: int|
                #[trigger] limit_projection_applies(joints@, old(bodies)@, kk) && kk >= k ==> {
                    let j = joints@[kk].val->Some_0;
                    bodies@[j.body_a.index as int] == old(bodies)@[j.body_a.index as int]
                        && bodies@[j.body_b.index as int] == old(bodies)@[j.body_b.index as int]
                },
        decreases n - k,
    {
        let jh = match joints.handle_at(k) {
            Option::Some(h) => h,
            Option::None => {
                proof {
                    assert forall|kk: int|
                        #[trigger] limit_projection_applies(joints@, old(bodies)@, kk) && kk < k
                            + 1 implies joint_within_limits(joints@, bodies@, kk) by {
                        if kk == k {
                            assert(joints@[kk].val is Some && joints@[kk].gen < u64::MAX);
                            assert(false);
                        }
                    }
                }
                k = k + 1;
                continue ;
            },
        };
        let j = match joints.get(jh) {
            Option::Some(j) => *j,
            Option::None => {
                k = k + 1;
                continue ;
            },
        };
        let lim = match j.limits {
            Option::Some(l) => l,
            Option::None => {
                proof {
                    assert forall|kk: int|
                        #[trigger] limit_projection_applies(joints@, old(bodies)@, kk) && kk < k
                            + 1 implies joint_within_limits(joints@, bodies@, kk) by {
                        if kk == k {
                            assert(joints@[kk].val->Some_0.limits is Some);
                            assert(false);
                        }
                    }
                }
                k = k + 1;
                continue ;
            },
        };
        let a = match bodies.get(j.body_a) {
            Option::Some(x) => *x,
            Option::None => {
                k = k + 1;
                continue ;
            },
        };
        let b = match bodies.get(j.body_b) {
            Option::Some(x) => *x,
            Option::None => {
                k = k + 1;
                continue ;
            },
        };
        let rel = fx_sub(b.pose.angle, a.pose.angle);
        if rel >= lim.lower && rel <= lim.upper {
            proof {
                assert forall|kk: int|
                    #[trigger] limit_projection_applies(joints@, old(bodies)@, kk) && kk < k
                        + 1 implies joint_within_limits(joints@, bodies@, kk) by {
                    if kk == k {
                        assert(bodies@[j.body_a.index as int] == old(bodies)@[j.body_a.index
                            as int]);
                        assert(bodies@[j.body_b.index as int] == old(bodies)@[j.body_b.index
                            as int]);
                        assert(rel as int == rel_angle_of(joints@, bodies@, kk));
                    }
                }
            }
            k = k + 1;
            continue ;
        }
        let ghost pre = bodies@;
        if matches!(b.body_type, BodyType::Dynamic) && b.inv_mass > 0 {
            let na = clamped_partner_angle(a.pose.angle, b.pose.angle, lim.lower, lim.upper);
            bodies.write_at(
                j.body_b.index,
                RigidBody {
                    pose: crate::model::Pose { pos: b.pose.pos, angle: na },
                    ..b
                },
            );
        } else if matches!(a.body_type, BodyType::Dynamic) && a.inv_mass > 0 {
            // adjust the other partner: the relative angle is clamped the
            // same way, seen from body a
            let rel_cl = fx_clamp(rel, lim.lower, lim.upper);
            let na = fx_sub(b.pose.angle, rel_cl);
            bodies.write_at(
                j.body_a.index,
                RigidBody {
                    pose: crate::model::Pose { pos: a.pose.pos, angle: na },
                    ..a
                },
            );
        }
        proof {
            assert forall|kk: int|
                #[trigger] limit_projection_applies(joints@, old(bodies)@, kk) && kk < k
                    + 1 implies joint_within_limits(joints@, bodies@, kk) by {
                let jj = joints@[kk].val->Some_0;
                if kk == k {
                    // only the dynamic partner was written, to the projected angle
                    assert(pre[j.body_a.index as int] == old(bodies)@[j.body_a.index as int]);
                    assert(pre[j.body_b.index as int] == old(bodies)@[j.body_b.index as int]);
                    assert(bodies@[j.body_a.index as int].gen == old(bodies)@[j.body_a.index
                        as int].gen);
                    assert(j.body_a.index != j.body_b.index);
                    lemma_projected_angle_within_limits(
                        a.pose.angle as int,
                        b.pose.angle as int,
                        lim.lower as int,
                        lim.upper as int,
                        bodies@[j.body_b.index as int].val->Some_0.pose.angle as int,
                    );
                } else {
                    // this joint shares no body with the one just adjusted
                    assert(jj.body_a != j.body_a && jj.body_a != j.body_b && jj.body_b != j.body_a
                        && jj.body_b != j.body_b);
                    assert(bodies@[jj.body_a.index as int] == pre[jj.body_a.index as int]);
                    assert(bodies@[jj.body_b.index as int] == pre[jj.body_b.index as int]);
                }
            }
            assert forall|kk: int|
                #[trigger] limit_projection_applies(joints@, old(bodies)@, kk) && kk >= k
                    + 1 implies {
                let jj = joints@[kk].val->Some_0;
                bodies@[jj.body_a.index as int] == old(bodies)@[jj.body_a.index as int]
                    && bodies@[jj.body_b.index as int] == old(bodies)@[jj.body_b.index as int]
            } by {
                let jj = joints@[kk].val->Some_0;
                assert(jj.body_a != j.body_a && jj.body_a != j.body_b && jj.body_b != j.body_a
                    && jj.body_b != j.body_b);
                assert(bodies@[jj.body_a.index as int] == pre[jj.body_a.index as int]);
                assert(bodies@[jj.body_b.index as int] == pre[jj.body_b.index as int]);
            }
        }
        k = k + 1;
    }
}

/// Apply the carried-over accumulated impulses once, before the iterations,
/// so the solve starts from the previous step's converged state.
fn warm_start_contacts(bodies: &mut Arena<RigidBody>, contacts: &Vec<Contact>)
    requires
        bodies_store_wf(old(bodies)@),
        contacts_wf(contacts@, *old(bodies)),
    ensures
        solver_bodies_ok(old(bodies)@, final(bodies)@),
        forall|g: Handle|
            old(bodies).valid(g) && unconstrained_by_contacts(g, contacts@)
                ==> final(bodies)@[g.index as int] == old(bodies)@[g.index as int],
{
    let n: usize = contacts.len();
    let mut i: usize = 0;
    while i < n
        invariant
            solver_bodies_ok(old(bodies)@, bodies@),
            contacts_wf(contacts@, *old(bodies)),
            n == contacts@.len(),
            i <= n,
            forall|g: Handle|
                old(bodies).valid(g) && unconstrained_by_contacts(g, contacts@)
                    ==> bodies@[g.index as int] == old(bodies)@[g.index as int],
        decreases n - i,
    {
        let c = contacts[i];
        proof {
            assert(contact_wf(contacts@[i as int], *old(bodies)));
        }
        let tangent = Vec2 { x: fx_neg(c.normal.y), y: c.normal.x };
        let imp = Vec2 {
            x: fx_add(fx_mul(c.normal.x, c.normal_imp), fx_mul(tangent.x, c.tangent_imp)),
            y: fx_add(fx_mul(c.normal.y, c.normal_imp), fx_mul(tangent.y, c.tangent_imp)),
        };
        apply_impulse(bodies, c.body_a, Vec2 { x: fx_neg(imp.x), y: fx_neg(imp.y) }, c.ra);
        apply_impulse(bodies, c.body_b, imp, c.rb);
        proof {
            assert forall|g: Handle|
                old(bodies).valid(g) && unconstrained_by_contacts(g, contacts@)
                    implies bodies@[g.index as int] == old(bodies)@[g.index as int] by {
                if g.index == c.body_a.index {
                    assert(g == c.body_a);
                    assert(contacts@[i as int].body_a != g);
                    assert(false);
                }
                if g.index == c.body_b.index {
                    assert(g == c.body_b);
                    assert(contacts@[i as int].body_b != g);
                    assert(false);
                }
            }
        }
        i = i + 1;
    }
}

/// Run the fixed number of solver iterations over joints and contacts.
pub fn solve_velocities(
    bodies: &mut Arena<RigidBody>,
    joints: &mut Arena<Joint>,
    contacts: &mut Vec<Contact>,
    dt: i64,
    diverged: &mut u64,
)
    requires
        bodies_store_wf(old(bodies)@),
        joints_store_wf(old(joints)@, *old(bodies)),
        crate::world::live_gens_ok(old(joints)@),
        contacts_wf(old(contacts)@, *old(bodies)),
        0 < dt as int <= SCALE as int,
    ensures
        solver_bodies_ok(old(bodies)@, final(bodies)@),
        joints_warm_only(old(joints)@, final(joints)@),
        joints_store_wf(final(joints)@, *old(bodies)),
        crate::world::live_gens_ok(final(joints)@),
        contacts_wf(final(contacts)@, *old(bodies)),
        final(contacts)@.len() == old(contacts)@.len(),
        forall|i: int|
            0 <= i < old(contacts)@.len() ==> same_contact_key(
                old(contacts)@[i],
                final(contacts)@[i],
            ),
        // every accumulator the solver touched obeys its clamps
        forall|i: int|
            0 <= i < old(contacts)@.len() ==> contact_acc_bounds(final(contacts)@[i])
                || final(contacts)@[i] == old(contacts)@[i],
        // a body no contact and no joint refers to is left exactly alone
        forall|g: Handle|
            old(bodies).valid(g) && unconstrained_by_contacts(g, old(contacts)@)
                && unconstrained_by_joints(g, old(joints)@)
                ==> final(bodies)@[g.index as int] == old(bodies)@[g.index as int],
{
    let inv_dt = fx_div(SCALE, dt);
    let inv_dt = fx_max(inv_dt, 0);
    warm_start_contacts(bodies, contacts);
    let mut it: usize = 0;
    while it < SOLVER_ITERS
        invariant
            solver_bodies_ok(old(bodies)@, bodies@),
            joints_warm_only(old(joints)@, joints@),
            joints_store_wf(joints@, *old(bodies)),
            crate::world::live_gens_ok(joints@),
            contacts_wf(contacts@, *old(bodies)),
            contacts@.len() == old(contacts)@.len(),
            forall|i: int|
                0 <= i < old(contacts)@.len() ==> same_contact_key(
                    old(contacts)@[i],
                    contacts@[i],
                ),
            forall|i: int|
                0 <= i < old(contacts)@.len() ==> contact_acc_bounds(contacts@[i]) || contacts@[i]
                    == old(contacts)@[i],
            forall|g: Handle|
                old(bodies).valid(g) && unconstrained_by_contacts(g, old(contacts)@)
                    && unconstrained_by_joints(g, old(joints)@) ==> bodies@[g.index as int] == old(
                    bodies,
                )@[g.index as int],
            0 < dt as int <= SCALE as int,
            0 <= inv_dt as int && in_range(inv_dt as int),
        decreases SOLVER_ITERS - it,
    {
        let ghost barena0 = *bodies;
        let ghost jarena0 = *joints;
        let ghost cs0 = contacts@;
        solve_joints_once(bodies, joints, dt, inv_dt, it == 0);
        let ghost barena1 = *bodies;
        solve_contacts_once(bodies, contacts, inv_dt, diverged);
        proof {
            assert forall|g: Handle|
                old(bodies).valid(g) && unconstrained_by_contacts(g, old(contacts)@)
                    && unconstrained_by_joints(g, old(joints)@) implies bodies@[g.index as int]
                == old(bodies)@[g.index as int] by {
                // validity carries to the iteration's stores: shape is kept
                assert(barena0@[g.index as int].gen == old(bodies)@[g.index as int].gen);
                assert(barena0.valid(g));
                assert(barena1@[g.index as int].gen == barena0@[g.index as int].gen);
                assert(barena1.valid(g));
                // the pass hypotheses hold over the iteration's own sets,
                // whose keys agree with the originals
                assert(unconstrained_by_joints(g, jarena0@)) by {
                    assert forall|kk: int|
                        0 <= kk < jarena0@.len() && (#[trigger] jarena0@[kk]).val is Some
                            implies jarena0@[kk].val->Some_0.body_a != g
                            && jarena0@[kk].val->Some_0.body_b != g by {
                        assert(old(joints)@[kk].val is Some);
                    }
                }
                assert(unconstrained_by_contacts(g, cs0)) by {
                    assert forall|kk: int|
                        0 <= kk < cs0.len() implies (#[trigger] cs0[kk]).body_a != g
                            && cs0[kk].body_b != g by {
                        assert(same_contact_key(old(contacts)@[kk], cs0[kk]));
                    }
                }
                assert(barena1@[g.index as int] == barena0@[g.index as int]);
                assert(bodies@[g.index as int] == barena1@[g.index as int]);
            }
        }
        it = it + 1;
    }
}

} // verus!
