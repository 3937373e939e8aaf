//! Contact detection: a broad phase over axis-aligned bounds and a narrow
//! phase with shape-pair routines for ball-ball, ball-cuboid and
//! cuboid-cuboid, recomputed from scratch every step.

use vstd::prelude::*;

verus! {

use crate::arena::{Arena, Handle};
use crate::fx::{
    Vec2, in_range, v2_in_range, abs_i, is_sqrt, sadd, sm, ssub, SCALE, fx_add, fx_sub, fx_mul,
    fx_div, fx_abs, fx_max, fx_min, fx_sqrt, sin_fx, cos_fx, v2_add, v2_sub, v2_rotate, v2_dot,
    lemma_isqrt_unique,
};
use crate::model::{BodyType, RigidBody, Shape, Collider, CombineRule, combine_coeff, body_wf};
use crate::world::{ContactWarm, bodies_store_wf, colliders_store_wf, warm_wf};

/// One contact point between two colliders, ready for the velocity solver.
/// The normal points from body `a` toward body `b` and has roughly unit
/// length; `ra` and `rb` are the contact point relative to each body origin.
#[derive(Clone, Copy, PartialEq, Eq, Structural, Debug)]
pub struct Contact {
    pub body_a: Handle,
    pub body_b: Handle,
    pub ca: Handle,
    pub cb: Handle,
    pub normal: Vec2,
    pub ra: Vec2,
    pub rb: Vec2,
    pub pen: i64,
    pub restitution: i64,
    pub friction: i64,
    pub normal_imp: i64,
    pub tangent_imp: i64,
    /// Separation speed owed to restitution, from the pre-solve approach speed.
    pub rest_bias: i64,
}

pub open spec fn contact_wf(c: Contact, bodies: Arena<RigidBody>) -> bool {
    &&& bodies.valid(c.body_a)
    &&& bodies.valid(c.body_b)
    &&& c.body_a != c.body_b
    &&& v2_in_range(c.normal)
    &&& v2_in_range(c.ra)
    &&& v2_in_range(c.rb)
    &&& 0 <= c.pen as int && in_range(c.pen as int)
    &&& 0 <= c.restitution as int && in_range(c.restitution as int)
    &&& 0 <= c.friction as int && in_range(c.friction as int)
    &&& in_range(c.normal_imp as int)
    &&& in_range(c.tangent_imp as int)
    &&& 0 <= c.rest_bias as int && in_range(c.rest_bias as int)
    // two fixed bodies can exchange no impulse, so they are never paired
    &&& !(bodies.at(c.body_a).body_type == BodyType::Fixed && bodies.at(c.body_b).body_type
        == BodyType::Fixed)
}

pub open spec fn contacts_wf(cs: Seq<Contact>, bodies: Arena<RigidBody>) -> bool {
    forall|i: int| 0 <= i < cs.len() ==> contact_wf(#[trigger] cs[i], bodies)
}

/// Every contact names the two live colliders it came from, and its body
/// handles are exactly their parents: a body with no collider attached can
/// appear in no contact.
pub open spec fn contacts_linked(cs: Seq<Contact>, colliders: Arena<Collider>) -> bool {
    forall|i: int|
        0 <= i < cs.len() ==> {
            let c = #[trigger] cs[i];
            colliders.valid(c.ca) && colliders.at(c.ca).parent == c.body_a && colliders.valid(
                c.cb,
            ) && colliders.at(c.cb).parent == c.body_b
        }
}

/// A geometric overlap found by a narrow-phase routine: world point, world
/// normal and penetration depth.
#[derive(Clone, Copy)]
struct Overlap {
    point: Vec2,
    normal: Vec2,
    pen: i64,
}

spec fn overlap_wf(o: Overlap) -> bool {
    v2_in_range(o.point) && v2_in_range(o.normal) && 0 <= o.pen as int && in_range(o.pen as int)
}

spec fn overlaps_wf(os: Seq<Overlap>) -> bool {
    forall|i: int| 0 <= i < os.len() ==> overlap_wf(#[trigger] os[i])
}

/// Approach speeds below this threshold trigger no restitution, so bodies can
/// come to rest instead of jittering.
pub const RESTITUTION_THRESHOLD: i64 = 500_000;

/// The separation speed a contact owes to restitution: the coefficient times
/// the pre-solve approach speed, but only when the approach speed exceeds the
/// threshold — a resting contact owes nothing and so cannot bounce or jitter.
/// The solver drives the post-solve relative normal velocity toward at least
/// this value, so the rebound speed follows the coefficient exactly at the
/// velocity level.
pub fn restitution_bias(restitution: i64, vn_pre: i64) -> (r: i64)
    requires
        0 <= restitution as int && in_range(restitution as int),
        in_range(vn_pre as int),
    ensures
        (vn_pre as int) + (RESTITUTION_THRESHOLD as int) < 0 ==> r as int == crate::fx::sm(
            restitution as int,
            -(vn_pre as int),
        ),
        (vn_pre as int) + (RESTITUTION_THRESHOLD as int) >= 0 ==> r == 0,
        0 <= r as int && in_range(r as int),
{
    if vn_pre < -RESTITUTION_THRESHOLD {
        let r = fx_mul(restitution, fx_sub(0, vn_pre));
        fx_max(r, 0)
    } else {
        0
    }
}

/// Relative velocity of the two bodies at the contact point, along the normal.
fn rel_normal_vel(a: &RigidBody, b: &RigidBody, ra: Vec2, rb: Vec2, normal: Vec2) -> (r: i64)
    requires
        body_wf(*a),
        body_wf(*b),
        v2_in_range(ra),
        v2_in_range(rb),
        v2_in_range(normal),
    ensures
        in_range(r as int),
{
    let vax = fx_sub(a.vel.linvel.x, fx_mul(a.vel.angvel, ra.y));
    let vay = fx_add(a.vel.linvel.y, fx_mul(a.vel.angvel, ra.x));
    let vbx = fx_sub(b.vel.linvel.x, fx_mul(b.vel.angvel, rb.y));
    let vby = fx_add(b.vel.linvel.y, fx_mul(b.vel.angvel, rb.x));
    v2_dot(Vec2 { x: fx_sub(vbx, vax), y: fx_sub(vby, vay) }, normal)
}

/// The radius of a ball shape; zero for any other shape.
pub open spec fn ball_radius(s: Shape) -> int {
    match s {
        Shape::Ball { radius } => radius as int,
        Shape::Cuboid { .. } => 0,
    }
}

/// The exact fixed-point overlap criterion for two balls: the integer square
/// root of the saturating center-distance square falls below the radius sum.
pub open spec fn balls_touch(pa: Vec2, ra: int, pb: Vec2, rb: int) -> bool {
    let dx = ssub(pb.x as int, pa.x as int);
    let dy = ssub(pb.y as int, pa.y as int);
    let d2 = sadd(sm(dx, dx), sm(dy, dy));
    forall|dist: int| #[trigger] is_sqrt(d2 * crate::fx::SCALE as int, dist) ==> dist < sadd(ra, rb)
}

/// Both centers lie within the conservative broad-phase window.
pub open spec fn in_broad_window(pa: Vec2, ra: int, pb: Vec2, rb: int) -> bool {
    &&& abs_i(ssub(pb.x as int, pa.x as int)) <= sadd(ra, rb)
    &&& abs_i(ssub(pb.y as int, pa.y as int)) <= sadd(ra, rb)
}

/// A pair the detector must report: two live ball colliders on distinct,
/// not-both-fixed bodies, inside the broad-phase window, overlapping by the
/// fixed-point ball criterion.
pub open spec fn eligible_ball_pair(
    bodies: Arena<RigidBody>,
    colliders: Arena<Collider>,
    h1: Handle,
    h2: Handle,
) -> bool {
    &&& colliders.valid(h1)
    &&& colliders.valid(h2)
    &&& h1.index < h2.index
    &&& colliders.at(h1).parent != colliders.at(h2).parent
    &&& !(bodies.at(colliders.at(h1).parent).body_type == BodyType::Fixed && bodies.at(
        colliders.at(h2).parent,
    ).body_type == BodyType::Fixed)
    &&& colliders.at(h1).shape is Ball
    &&& colliders.at(h2).shape is Ball
    &&& in_broad_window(
        bodies.at(colliders.at(h1).parent).pose.pos,
        ball_radius(colliders.at(h1).shape),
        bodies.at(colliders.at(h2).parent).pose.pos,
        ball_radius(colliders.at(h2).shape),
    )
    &&& balls_touch(
        bodies.at(colliders.at(h1).parent).pose.pos,
        ball_radius(colliders.at(h1).shape),
        bodies.at(colliders.at(h2).parent).pose.pos,
        ball_radius(colliders.at(h2).shape),
    )
}

/// The contact set holds an entry for the collider pair.
pub open spec fn pair_reported(cs: Seq<Contact>, h1: Handle, h2: Handle) -> bool {
    exists|k: int| 0 <= k < cs.len() && (#[trigger] cs[k]).ca == h1 && cs[k].cb == h2
}

/// Growing the contact set keeps every reported pair reported.
proof fn lemma_reported_push(cs: Seq<Contact>, c: Contact, h1: Handle, h2: Handle)
    requires
        pair_reported(cs, h1, h2),
    ensures
        pair_reported(cs.push(c), h1, h2),
{
    let k = choose|k: int| 0 <= k < cs.len() && (#[trigger] cs[k]).ca == h1 && cs[k].cb == h2;
    assert(cs.push(c)[k] == cs[k]);
}

/// Conservative half-extent of a shape along both world axes; exact for a
/// ball, the saturating half-extent sum for a cuboid.
fn bound_radius(s: Shape) -> (r: i64)
    requires
        crate::model::shape_wf(s),
    ensures
        0 <= r as int && in_range(r as int),
        s is Ball ==> r as int == ball_radius(s),
{
    match s {
        Shape::Ball { radius } => radius,
        Shape::Cuboid { hx, hy } => fx_add(hx, hy),
    }
}

/// Ball against ball: overlap exactly when the fixed-point criterion holds;
/// the normal runs from `pa` toward `pb`.
fn ball_ball(pa: Vec2, ra: i64, pb: Vec2, rb: i64) -> (r: Option<Overlap>)
    requires
        v2_in_range(pa),
        v2_in_range(pb),
        0 < ra as int && in_range(ra as int),
        0 < rb as int && in_range(rb as int),
    ensures
        r is Some ==> overlap_wf(r->Some_0),
        r is Some <==> balls_touch(pa, ra as int, pb, rb as int),
{
    let d = v2_sub(pb, pa);
    let d2 = fx_add(fx_mul(d.x, d.x), fx_mul(d.y, d.y));
    let dist = fx_sqrt(d2);
    let rsum = fx_add(ra, rb);
    if dist >= rsum {
        proof {
            let ghost dxs = ssub(pb.x as int, pa.x as int);
            let ghost dys = ssub(pb.y as int, pa.y as int);
            let ghost d2s = sadd(sm(dxs, dxs), sm(dys, dys));
            assert(d2 as int == d2s);
            assert(is_sqrt(d2s * crate::fx::SCALE as int, dist as int));
            if balls_touch(pa, ra as int, pb, rb as int) {
                assert((dist as int) < sadd(ra as int, rb as int));
            }
        }
        return Option::None;
    }
    proof {
        assert forall|dist2: int|
            #[trigger] is_sqrt(
                sadd(
                    sm(ssub(pb.x as int, pa.x as int), ssub(pb.x as int, pa.x as int)),
                    sm(ssub(pb.y as int, pa.y as int), ssub(pb.y as int, pa.y as int)),
                ) * crate::fx::SCALE as int,
                dist2,
            ) implies dist2 < sadd(ra as int, rb as int) by {
            lemma_isqrt_unique(d2 as int * crate::fx::SCALE as int, dist2, dist as int);
        }
    }
    let normal = if dist > 0 {
        Vec2 { x: fx_div(d.x, dist), y: fx_div(d.y, dist) }
    } else {
        Vec2 { x: 0, y: SCALE }
    };
    let pen = fx_sub(rsum, dist);
    let pen = fx_max(pen, 0);
    // surface point of the first ball along the normal
    let point = v2_add(pa, Vec2 { x: fx_mul(normal.x, ra), y: fx_mul(normal.y, ra) });
    Option::Some(Overlap { point, normal, pen })
}

/// A world point against an oriented cuboid at `pos` with rotation `(c, s)`:
/// overlap when the point lies within `margin` of the box; the normal points
/// out of the box toward the point.
fn point_cuboid(p: Vec2, margin: i64, pos: Vec2, c: i64, s: i64, hx: i64, hy: i64) -> (r: Option<
    Overlap,
>)
    requires
        v2_in_range(p),
        v2_in_range(pos),
        in_range(c as int),
        in_range(s as int),
        0 <= margin as int && in_range(margin as int),
        0 < hx as int && in_range(hx as int),
        0 < hy as int && in_range(hy as int),
    ensures
        r is Some ==> overlap_wf(r->Some_0),
{
    // into the box frame: rotate by the inverse rotation
    let rel = v2_sub(p, pos);
    let local = v2_rotate(rel, c, fx_sub(0, s));
    let inside_x = fx_abs(local.x);
    let inside_y = fx_abs(local.y);
    if inside_x <= hx && inside_y <= hy {
        // deep contact: push out through the nearest face
        let dx = fx_sub(hx, inside_x);
        let dy = fx_sub(hy, inside_y);
        let (ln, pen) = if dx <= dy {
            (
                Vec2 { x: if local.x >= 0 { SCALE } else { -SCALE }, y: 0 },
                fx_add(dx, margin),
            )
        } else {
            (
                Vec2 { x: 0, y: if local.y >= 0 { SCALE } else { -SCALE } },
                fx_add(dy, margin),
            )
        };
        let normal = v2_rotate(ln, c, s);
        let point = p;
        return Option::Some(Overlap { point, normal, pen: fx_max(pen, 0) });
    }
    // shallow: closest point on the box
    let qx = fx_min(fx_max(local.x, fx_sub(0, hx)), hx);
    let qy = fx_min(fx_max(local.y, fx_sub(0, hy)), hy);
    let delta = Vec2 { x: fx_sub(local.x, qx), y: fx_sub(local.y, qy) };
    let d2 = fx_add(fx_mul(delta.x, delta.x), fx_mul(delta.y, delta.y));
    let dist = fx_sqrt(d2);
    if dist >= margin || dist == 0 {
        return Option::None;
    }
    let ln = Vec2 { x: fx_div(delta.x, dist), y: fx_div(delta.y, dist) };
    let normal = v2_rotate(ln, c, s);
    let point = v2_add(pos, v2_rotate(Vec2 { x: qx, y: qy }, c, s));
    Option::Some(Overlap { point, normal, pen: fx_max(fx_sub(margin, dist), 0) })
}

/// Cuboid against cuboid, by testing each corner of either box against the
/// other box; a flat resting contact yields two corner points.
fn cuboid_cuboid(
    pa: Vec2,
    ca: i64,
    sa: i64,
    ahx: i64,
    ahy: i64,
    pb: Vec2,
    cb: i64,
    sb: i64,
    bhx: i64,
    bhy: i64,
    out: &mut Vec<Overlap>,
)
    requires
        v2_in_range(pa),
        v2_in_range(pb),
        in_range(ca as int),
        in_range(sa as int),
        in_range(cb as int),
        in_range(sb as int),
        0 < ahx as int && in_range(ahx as int),
        0 < ahy as int && in_range(ahy as int),
        0 < bhx as int && in_range(bhx as int),
        0 < bhy as int && in_range(bhy as int),
        overlaps_wf(old(out)@),
    ensures
        overlaps_wf(final(out)@),
        final(out)@.len() >= old(out)@.len(),
{
    let mut k: usize = 0;
    while k < 4
        invariant
            overlaps_wf(out@),
            out@.len() >= old(out)@.len(),
            v2_in_range(pa),
            v2_in_range(pb),
            in_range(ca as int),
            in_range(sa as int),
            in_range(cb as int),
            in_range(sb as int),
            0 < ahx as int && in_range(ahx as int),
            0 < ahy as int && in_range(ahy as int),
            0 < bhx as int && in_range(bhx as int),
            0 < bhy as int && in_range(bhy as int),
        decreases 4 - k,
    {
        let lx: i64 = if k % 2 == 0 {
            ahx
        } else {
            -ahx
        };
        let ly: i64 = if k / 2 == 0 {
            ahy
        } else {
            -ahy
        };
        // corner of box A in world coordinates
        let corner = v2_add(pa, v2_rotate(Vec2 { x: lx, y: ly }, ca, sa));
        match point_cuboid(corner, 0, pb, cb, sb, bhx, bhy) {
            Option::Some(o) => {
                // the normal must point from A toward B: out of B is the wrong
                // way round, so flip it
                let flipped = Overlap {
                    point: o.point,
                    normal: Vec2 { x: fx_sub(0, o.normal.x), y: fx_sub(0, o.normal.y) },
                    pen: o.pen,
                };
                out.push(flipped);
            },
            Option::None => {},
        }
        let mx: i64 = if k % 2 == 0 {
            bhx
        } else {
            -bhx
        };
        let my: i64 = if k / 2 == 0 {
            bhy
        } else {
            -bhy
        };
        // corner of box B against box A: normal out of A already points A -> B
        let corner_b = v2_add(pb, v2_rotate(Vec2 { x: mx, y: my }, cb, sb));
        match point_cuboid(corner_b, 0, pa, ca, sa, ahx, ahy) {
            Option::Some(o) => {
                out.push(o);
            },
            Option::None => {},
        }
        k = k + 1;
    }
}

/// All narrow-phase overlaps between two colliders, given their parents'
/// poses. Normals point from the first collider's body toward the second's.
fn narrow_phase(
    sa: Shape,
    pose_a: crate::model::Pose,
    sb: Shape,
    pose_b: crate::model::Pose,
    out: &mut Vec<Overlap>,
)
    requires
        crate::model::shape_wf(sa),
        crate::model::shape_wf(sb),
        crate::model::pose_in_range(pose_a),
        crate::model::pose_in_range(pose_b),
        overlaps_wf(old(out)@),
    ensures
        overlaps_wf(final(out)@),
        final(out)@.len() >= old(out)@.len(),
        // for two balls the routine is complete: it finds an overlap exactly
        // when the fixed-point criterion holds
        sa is Ball && sb is Ball ==> (final(out)@.len() > old(out)@.len() <==> balls_touch(
            pose_a.pos,
            ball_radius(sa),
            pose_b.pos,
            ball_radius(sb),
        )),
{
    let ca = cos_fx(pose_a.angle);
    let sa_ = sin_fx(pose_a.angle);
    let cb = cos_fx(pose_b.angle);
    let sb_ = sin_fx(pose_b.angle);
    match (sa, sb) {
        (Shape::Ball { radius: r1 }, Shape::Ball { radius: r2 }) => {
            match ball_ball(pose_a.pos, r1, pose_b.pos, r2) {
                Option::Some(o) => {
                    out.push(o);
                },
                Option::None => {},
            }
        },
        (Shape::Ball { radius: r1 }, Shape::Cuboid { hx, hy }) => {
            // normal out of the box points B -> A; flip to run A -> B
            match point_cuboid(pose_a.pos, r1, pose_b.pos, cb, sb_, hx, hy) {
                Option::Some(o) => {
                    out.push(
                        Overlap {
                            point: o.point,
                            normal: Vec2 { x: fx_sub(0, o.normal.x), y: fx_sub(0, o.normal.y) },
                            pen: o.pen,
                        },
                    );
                },
                Option::None => {},
            }
        },
        (Shape::Cuboid { hx, hy }, Shape::Ball { radius: r2 }) => {
            match point_cuboid(pose_b.pos, r2, pose_a.pos, ca, sa_, hx, hy) {
                Option::Some(o) => {
                    out.push(o);
                },
                Option::None => {},
            }
        },
        (Shape::Cuboid { hx: ahx, hy: ahy }, Shape::Cuboid { hx: bhx, hy: bhy }) => {
            cuboid_cuboid(pose_a.pos, ca, sa_, ahx, ahy, pose_b.pos, cb, sb_, bhx, bhy, out);
        },
    }
}

/// Previous-step impulses for a collider pair, or zero for a fresh pair.
fn warm_lookup(warm: &Vec<ContactWarm>, ca: Handle, cb: Handle) -> (r: (i64, i64))
    requires
        warm_wf(warm@),
    ensures
        in_range(r.0 as int),
        in_range(r.1 as int),
{
    let n = warm.len();
    let mut i: usize = 0;
    while i < n
        invariant
            warm_wf(warm@),
            n == warm@.len(),
            i <= n,
        decreases n - i,
    {
        let w = warm[i];
        if w.a.index == ca.index && w.a.gen == ca.gen && w.b.index == cb.index && w.b.gen
            == cb.gen {
            return (w.normal_imp, w.tangent_imp);
        }
        i = i + 1;
    }
    (0, 0)
}

/// Broad phase plus narrow phase over every live collider pair. Two colliders
/// on the same body, or on two fixed bodies, are never tested against each
/// other. Warm-start impulses are carried over from the previous step by
/// collider-pair key.
pub fn detect_contacts(
    bodies: &Arena<RigidBody>,
    colliders: &Arena<Collider>,
    warm: &Vec<ContactWarm>,
    restitution_rule: CombineRule,
    friction_rule: CombineRule,
) -> (r: Vec<Contact>)
    requires
        bodies_store_wf(bodies@),
        colliders_store_wf(colliders@, *bodies),
        warm_wf(warm@),
    ensures
        contacts_wf(r@, *bodies),
        contacts_linked(r@, *colliders),
        // completeness for the ball criterion: every eligible overlapping
        // ball pair appears in the output
        forall|h1: Handle, h2: Handle|
            #[trigger] eligible_ball_pair(*bodies, *colliders, h1, h2) ==> pair_reported(
                r@,
                h1,
                h2,
            ),
{
    let mut out: Vec<Contact> = Vec::new();
    let n: usize = colliders.slot_count();
    let mut i: usize = 0;
    while i < n
        invariant
            bodies_store_wf(bodies@),
            colliders_store_wf(colliders@, *bodies),
            warm_wf(warm@),
            contacts_wf(out@, *bodies),
            contacts_linked(out@, *colliders),
            n == colliders@.len(),
            i <= n,
            forall|h1: Handle, h2: Handle|
                #[trigger] eligible_ball_pair(*bodies, *colliders, h1, h2) && h1.index < i
                    ==> pair_reported(out@, h1, h2),
        decreases n - i,
    {
        let ha = match colliders.handle_at(i) {
            Option::Some(h) => h,
            Option::None => {
                proof {
                    assert forall|h1: Handle, h2: Handle|
                        #[trigger] eligible_ball_pair(*bodies, *colliders, h1, h2) && h1.index < i
                            + 1 implies pair_reported(out@, h1, h2) by {
                        if h1.index == i {
                            assert(colliders@[i as int].val is Some && colliders@[i as int].gen
                                < u64::MAX);
                            assert(false);
                        }
                    }
                }
                i = i + 1;
                continue ;
            },
        };
        let ca = match colliders.get(ha) {
            Option::Some(c) => *c,
            Option::None => {
                i = i + 1;
                continue ;
            },
        };
        let body_a = match bodies.get(ca.parent) {
            Option::Some(b) => *b,
            Option::None => {
                i = i + 1;
                continue ;
            },
        };
        let mut j: usize = i + 1;
        while j < n
            invariant
                bodies_store_wf(bodies@),
                colliders_store_wf(colliders@, *bodies),
                warm_wf(warm@),
                contacts_wf(out@, *bodies),
                contacts_linked(out@, *colliders),
                n == colliders@.len(),
                i < n,
                j <= n,
                colliders.valid(ha),
                ca == colliders.at(ha),
                bodies.valid(ca.parent),
                body_a == bodies.at(ca.parent),
                ha.index == i,
                forall|h1: Handle, h2: Handle|
                    #[trigger] eligible_ball_pair(*bodies, *colliders, h1, h2) && h1.index < i
                        ==> pair_reported(out@, h1, h2),
                forall|h2: Handle|
                    #[trigger] eligible_ball_pair(*bodies, *colliders, ha, h2) && h2.index < j
                        ==> pair_reported(out@, ha, h2),
            decreases n - j,
        {
            let hb = match colliders.handle_at(j) {
                Option::Some(h) => h,
                Option::None => {
                    proof {
                        assert forall|h2: Handle|
                            #[trigger] eligible_ball_pair(*bodies, *colliders, ha, h2)
                                && h2.index < j + 1 implies pair_reported(out@, ha, h2) by {
                            if h2.index == j {
                                assert(colliders@[j as int].val is Some && colliders@[j
                                    as int].gen < u64::MAX);
                                assert(false);
                            }
                        }
                    }
                    j = j + 1;
                    continue ;
                },
            };
            let cbv = match colliders.get(hb) {
                Option::Some(c) => *c,
                Option::None => {
                    j = j + 1;
                    continue ;
                },
            };
            let same_parent = ca.parent.index == cbv.parent.index && ca.parent.gen
                == cbv.parent.gen;
            if same_parent {
                proof {
                    assert forall|h2: Handle|
                        #[trigger] eligible_ball_pair(*bodies, *colliders, ha, h2) && h2.index < j
                            + 1 implies pair_reported(out@, ha, h2) by {
                        if h2.index == j {
                            assert(h2 == hb);
                            assert(ca.parent == cbv.parent);
                            assert(false);
                        }
                    }
                }
                j = j + 1;
                continue ;
            }
            let body_b = match bodies.get(cbv.parent) {
                Option::Some(b) => *b,
                Option::None => {
                    j = j + 1;
                    continue ;
                },
            };
            let both_fixed = matches!(body_a.body_type, BodyType::Fixed) && matches!(
                body_b.body_type,
                BodyType::Fixed,
            );
            if both_fixed {
                proof {
                    assert forall|h2: Handle|
                        #[trigger] eligible_ball_pair(*bodies, *colliders, ha, h2) && h2.index < j
                            + 1 implies pair_reported(out@, ha, h2) by {
                        if h2.index == j {
                            assert(h2 == hb);
                            assert(false);
                        }
                    }
                }
                j = j + 1;
                continue ;
            }
            // broad phase: conservative axis-aligned bounds
            let ra = bound_radius(ca.shape);
            let rb = bound_radius(cbv.shape);
            let span = fx_add(ra, rb);
            let dx = fx_abs(fx_sub(body_b.pose.pos.x, body_a.pose.pos.x));
            let dy = fx_abs(fx_sub(body_b.pose.pos.y, body_a.pose.pos.y));
            if dx > span || dy > span {
                proof {
                    assert forall|h2: Handle|
                        #[trigger] eligible_ball_pair(*bodies, *colliders, ha, h2) && h2.index < j
                            + 1 implies pair_reported(out@, ha, h2) by {
                        if h2.index == j {
                            assert(h2 == hb);
                            assert(ra as int == ball_radius(ca.shape));
                            assert(rb as int == ball_radius(cbv.shape));
                            assert(false);
                        }
                    }
                }
                j = j + 1;
                continue ;
            }
            let mut found: Vec<Overlap> = Vec::new();
            narrow_phase(ca.shape, body_a.pose, cbv.shape, body_b.pose, &mut found);
            let restitution = combine_coeff(
                restitution_rule,
                ca.material.restitution,
                cbv.material.restitution,
            );
            let friction = combine_coeff(friction_rule, ca.material.friction, cbv.material.friction);
            let (wn, wt) = warm_lookup(warm, ha, hb);
            let m: usize = found.len();
            // spread the carried impulse over the manifold's points
            let (wn, wt) = if m > 1 {
                let points: i64 = if m > 8 {
                    8
                } else {
                    m as i64
                };
                let div = points * SCALE;
                (fx_div(wn, div), fx_div(wt, div))
            } else {
                (wn, wt)
            };
            let mut k: usize = 0;
            while k < m
                invariant
                    contacts_wf(out@, *bodies),
                    contacts_linked(out@, *colliders),
                    colliders.valid(ha),
                    ca == colliders.at(ha),
                    colliders.valid(hb),
                    cbv == colliders.at(hb),
                    overlaps_wf(found@),
                    m == found@.len(),
                    k <= m,
                    bodies.valid(ca.parent),
                    bodies.valid(cbv.parent),
                    !(ca.parent == cbv.parent),
                    0 <= restitution as int && in_range(restitution as int),
                    0 <= friction as int && in_range(friction as int),
                    in_range(wn as int),
                    in_range(wt as int),
                    v2_in_range(body_a.pose.pos),
                    v2_in_range(body_b.pose.pos),
                    body_wf(body_a),
                    body_wf(body_b),
                    body_a == bodies.at(ca.parent),
                    body_b == bodies.at(cbv.parent),
                    !(body_a.body_type == BodyType::Fixed && body_b.body_type == BodyType::Fixed),
                    forall|h1: Handle, h2: Handle|
                        #[trigger] eligible_ball_pair(*bodies, *colliders, h1, h2) && h1.index < i
                            ==> pair_reported(out@, h1, h2),
                    forall|h2: Handle|
                        #[trigger] eligible_ball_pair(*bodies, *colliders, ha, h2) && h2.index < j
                            ==> pair_reported(out@, ha, h2),
                    k > 0 ==> pair_reported(out@, ha, hb),
                decreases m - k,
            {
                let ghost pre_out = out@;
                let o = found[k];
                let (iwn, iwt) = (wn, wt);
                let ra = v2_sub(o.point, body_a.pose.pos);
                let rb = v2_sub(o.point, body_b.pose.pos);
                let vn_pre = rel_normal_vel(&body_a, &body_b, ra, rb, o.normal);
                let rest_bias = restitution_bias(restitution, vn_pre);
                out.push(
                    Contact {
                        body_a: ca.parent,
                        body_b: cbv.parent,
                        ca: ha,
                        cb: hb,
                        normal: o.normal,
                        ra,
                        rb,
                        pen: o.pen,
                        restitution,
                        friction,
                        normal_imp: iwn,
                        tangent_imp: iwt,
                        rest_bias,
                    },
                );
                proof {
                    assert(out@[pre_out.len() as int].ca == ha);
                    assert(out@[pre_out.len() as int].cb == hb);
                    assert forall|h1: Handle, h2: Handle|
                        #[trigger] eligible_ball_pair(*bodies, *colliders, h1, h2) && h1.index < i
                            implies pair_reported(out@, h1, h2) by {
                        lemma_reported_push(pre_out, out@[pre_out.len() as int], h1, h2);
                    }
                    assert forall|h2: Handle|
                        #[trigger] eligible_ball_pair(*bodies, *colliders, ha, h2) && h2.index < j
                            implies pair_reported(out@, ha, h2) by {
                        lemma_reported_push(pre_out, out@[pre_out.len() as int], ha, h2);
                    }
                }
                k = k + 1;
            }
            proof {
                assert forall|h2: Handle|
                    #[trigger] eligible_ball_pair(*bodies, *colliders, ha, h2) && h2.index < j
                        + 1 implies pair_reported(out@, ha, h2) by {
                    if h2.index == j {
                        assert(h2 == hb);
                        if m == 0 {
                            assert(found@.len() == 0);
                            assert(false);
                        }
                    }
                }
            }
            j = j + 1;
        }
        proof {
            assert forall|h1: Handle, h2: Handle|
                #[trigger] eligible_ball_pair(*bodies, *colliders, h1, h2) && h1.index < i
                    + 1 implies pair_reported(out@, h1, h2) by {
                if h1.index == i {
                    assert(h1 == ha);
                    assert(h2.index < n);
                }
            }
        }
        i = i + 1;
    }
    out
}

} // verus!
