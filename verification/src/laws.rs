//! The engine's stated laws, proved over the same spec functions the
//! executable contracts use.

use vstd::prelude::*;
use crate::fixed::{FX_ONE, fxm, fxd, sadd, ssub, sneg, sat64, iabs, tdiv, imin, imax};
use crate::vec2::Vec2;
use crate::shape::{Circle, ShapeType};
use crate::body::{RigidBody, contact_step, resolve_acc, resolve_collision_s, collide_with_s};
use crate::soft::{Joint, CollisionConstraint, coll_project, rc_step};
use crate::collision::{cvc_s, fms_s, pvp_s};
use crate::world::PhysicsData;

verus! {

/// A static body's inverse mass and inverse inertia are exactly zero,
/// and integrating velocities leaves it untouched.
pub proof fn lemma_static_inverses(b: RigidBody, physics: PhysicsData)
    requires
        b.is_static,
    ensures
        b.inv_mass_s() == 0,
        b.inv_inertia_s() == 0,
        b.update_velocity_s(physics) == b,
{
}

/// One contact step never changes the velocities of a body whose
/// inverse mass and inertia are zero: every impulse it would receive is
/// scaled by zero, exactly.
#[verifier::rlimit(100)]
#[verifier::spinoff_prover]
pub proof fn lemma_contact_step_static_first(
    a_im: int, a_ii: int, b_im: int, b_ii: int,
    e: int, sf: int, df: int,
    a_c: Vec2, b_c: Vec2, normal: Vec2, cp: Vec2,
    st: (Vec2, int, Vec2, int),
)
    requires
        a_im == 0,
        a_ii == 0,
        i64::MIN <= st.1 <= i64::MAX,
    ensures
        contact_step(a_im, a_ii, b_im, b_ii, e, sf, df, a_c, b_c, normal, cp, st).0 == st.0,
        contact_step(a_im, a_ii, b_im, b_ii, e, sf, df, a_c, b_c, normal, cp, st).1 == st.1,
{
    let r = contact_step(a_im, a_ii, b_im, b_ii, e, sf, df, a_c, b_c, normal, cp, st);
    let va = st.0;
    let wa = st.1;
    let vb = st.2;
    let wb = st.3;
    let ra = cp.subs(a_c);
    let rb = cp.subs(b_c);
    let a_cv = va.adds(ra.perps().scales(wa));
    let b_cv = vb.adds(rb.perps().scales(wb));
    let rel = a_cv.subs(b_cv);
    if rel.dots(normal) >= 0 {
        let v_rel = fxm(sneg(sadd(FX_ONE as int, e)), rel.dots(normal));
        let cra = ra.crosses(normal);
        let crb = rb.crosses(normal);
        let denom = imax(
            sadd(sadd(sadd(a_im, b_im), fxm(fxm(cra, cra), a_ii)), fxm(fxm(crb, crb), b_ii)),
            1,
        );
        let j = fxd(v_rel, denom);
        let a_imp = normal.scales(j);
        let va1 = va.adds(a_imp.scales(a_im));
        assert(a_imp.scales(a_im) == (Vec2 { x: 0i64, y: 0i64 })) by {
            assert((a_imp.x as int) * 0 == 0);
            assert((a_imp.y as int) * 0 == 0);
        };
        assert(va1 == va) by {
            assert(sadd(va.x as int, 0) == va.x as int);
            assert(sadd(va.y as int, 0) == va.y as int);
        };
        let wa1 = sadd(wa, fxm(ra.crosses(a_imp), a_ii));
        assert(wa1 == wa) by {
            assert(ra.crosses(a_imp) * 0 == 0);
            assert(fxm(ra.crosses(a_imp), 0) == 0);
        };
        let o_imp = normal.scales(sneg(j));
        let vb1 = vb.adds(o_imp.scales(b_im));
        let wb1 = sadd(wb, fxm(rb.crosses(o_imp), b_ii));
        let a_cv2 = va1.adds(ra.perps().scales(wa1));
        let b_cv2 = vb1.adds(rb.perps().scales(wb1));
        let rel2 = a_cv2.subs(b_cv2);
        let tangent0 = rel2.subs(normal.scales(rel2.dots(normal)));
        if !tangent0.nearly_equal_s(Vec2 { x: 0, y: 0 }, 500) {
            let tangent = tangent0.norm_s();
            let crat = ra.crosses(tangent);
            let crbt = rb.crosses(tangent);
            let denom_t = imax(
                sadd(sadd(sadd(a_im, b_im), fxm(fxm(crat, crat), a_ii)), fxm(fxm(crbt, crbt), b_ii)),
                1,
            );
            let jt0 = fxd(sneg(rel2.dots(tangent)), denom_t);
            let jt = if sat64(iabs(jt0)) > fxm(sneg(j), sf) { fxm(j, df) } else { jt0 };
            let a_f = tangent.scales(jt);
            let va2 = va1.adds(a_f.scales(a_im));
            assert(a_f.scales(a_im) == (Vec2 { x: 0i64, y: 0i64 })) by {
                assert((a_f.x as int) * 0 == 0);
                assert((a_f.y as int) * 0 == 0);
            };
            assert(va2 == va1) by {
                assert(sadd(va1.x as int, 0) == va1.x as int);
                assert(sadd(va1.y as int, 0) == va1.y as int);
            };
            let wa2 = sadd(wa1, fxm(ra.crosses(a_f), a_ii));
            assert(wa2 == wa1) by {
                assert(ra.crosses(a_f) * 0 == 0);
                assert(fxm(ra.crosses(a_f), 0) == 0);
            };
            assert(r.0 == va2 && r.1 == wa2);
        } else {
            assert(r.0 == va1 && r.1 == wa1);
        }
    }
    assert(r.0 == st.0 && r.1 == st.1);
}

/// Folding any number of contact points preserves a zero-inverse-mass
/// body's velocities.
pub proof fn lemma_resolve_acc_static_first(
    a_im: int, a_ii: int, b_im: int, b_ii: int,
    e: int, sf: int, df: int,
    a_c: Vec2, b_c: Vec2, normal: Vec2,
    contacts: Seq<Vec2>, i: int,
    st: (Vec2, int, Vec2, int),
)
    requires
        a_im == 0,
        a_ii == 0,
        i64::MIN <= st.1 <= i64::MAX,
    ensures
        resolve_acc(a_im, a_ii, b_im, b_ii, e, sf, df, a_c, b_c, normal, contacts, i, st).0 == st.0,
        resolve_acc(a_im, a_ii, b_im, b_ii, e, sf, df, a_c, b_c, normal, contacts, i, st).1 == st.1,
    decreases i,
{
    if i > 0 {
        lemma_resolve_acc_static_first(a_im, a_ii, b_im, b_ii, e, sf, df, a_c, b_c, normal, contacts, i - 1, st);
        lemma_contact_step_static_first(
            a_im, a_ii, b_im, b_ii, e, sf, df, a_c, b_c, normal, contacts[i - 1],
            resolve_acc(a_im, a_ii, b_im, b_ii, e, sf, df, a_c, b_c, normal, contacts, i - 1, st),
        );
    }
}

/// Static invariance: however many contacts a static body takes part
/// in, the impulse resolver leaves its velocities exactly as they were.
/// (The mirrored fact holds of a static second body by the same
/// argument on the other components.)
pub proof fn lemma_static_invariance(a: RigidBody, b: RigidBody, normal: Vec2, contacts: Seq<Vec2>)
    requires
        a.is_static,
    ensures
        resolve_collision_s(a, b, normal, contacts).0 == a.linear_velocity,
        resolve_collision_s(a, b, normal, contacts).1 == a.angular_velocity as int,
{
    lemma_resolve_acc_static_first(
        a.inv_mass_s(), a.inv_inertia_s(), b.inv_mass_s(), b.inv_inertia_s(),
        imin(a.material.restitution as int, b.material.restitution as int),
        tdiv(sadd(a.material.static_friction as int, b.material.static_friction as int), 2),
        tdiv(sadd(a.material.dynamic_friction as int, b.material.dynamic_friction as int), 2),
        a.shape.center_s(), b.shape.center_s(), normal,
        contacts, contacts.len() as int,
        (a.linear_velocity, a.angular_velocity as int, b.linear_velocity, b.angular_velocity as int),
    );
}

/// A static circle colliding with a dynamic body is never pushed: the
/// whole positional correction lands on the dynamic side.
pub proof fn lemma_static_circle_not_pushed(a: RigidBody, b: RigidBody)
    requires
        a.is_static,
        !b.is_static,
        a.shape is Circle,
        b.shape is Circle,
    ensures
        collide_with_s(a, b).0 == a,
{
    let (na, nb, res) = collide_with_s(a, b);
    assert(forall|x: int| #[trigger] fxm(x, 0) == 0);
    if let (ShapeType::Circle(ca), ShapeType::Circle(cb)) = (a.shape, b.shape) {
        match cvc_s(ca, cb) {
            Option::None => {},
            Option::Some(sn) => {
                assert(na.shape == a.shape.translate_s(Vec2 { x: 0, y: 0 }));
                assert(na.shape == a.shape);
            },
        }
    }
}

/// SAT symmetry: testing the polygons in either order reports the same
/// penetration depth, and the normals are exact opposites whenever the
/// two polygons' best axes do not tie. (On a tie each order reports its
/// own second polygon's axis, which need not be opposite; those inputs
/// are left out.)
pub proof fn lemma_sat_symmetry(av: Seq<Vec2>, bv: Seq<Vec2>)
    ensures
        (pvp_s(av, bv) is None) == (pvp_s(bv, av) is None),
        ({
            match (pvp_s(av, bv), pvp_s(bv, av)) {
                (Option::Some(r1), Option::Some(r2)) => r1.0 == r2.0,
                _ => true,
            }
        }),
        ({
            match (fms_s(av, bv), fms_s(bv, av)) {
                (Option::Some(ar), Option::Some(br)) => ar.0 != br.0 ==> ({
                    match (pvp_s(av, bv), pvp_s(bv, av)) {
                        (Option::Some(r1), Option::Some(r2)) =>
                            r1.1 == r2.1.negs() || r2.1 == r1.1.negs(),
                        _ => false,
                    }
                }),
                _ => true,
            }
        }),
{
}

/// The soft solver's projection step never nudges a static body: the
/// velocity correction is scaled by the body's zero inverse mass.
pub proof fn lemma_coll_project_static(
    joints: Seq<Joint>, bodies: Seq<RigidBody>, cc: CollisionConstraint, dt: int,
)
    requires
        cc.object < bodies.len(),
        bodies[cc.object as int].is_static,
    ensures
        ({
            let r = coll_project(joints, bodies, cc, dt);
            r.1[cc.object as int].linear_velocity == bodies[cc.object as int].linear_velocity
            && r.1[cc.object as int].angular_velocity == bodies[cc.object as int].angular_velocity
        }),
{
    let obj = bodies[cc.object as int];
    let j = joints[cc.index as int];
    let rel = j.predicted_position.subs(cc.contact_point);
    let depth = rel.dots(cc.normal);
    if depth < 0 {
        let jim = j.inv_mass_s(bodies);
        let denom = sadd(jim, obj.inv_mass_s());
        let nudge = cc.normal.scales(depth).scales(obj.inv_mass_s()).divs(fxm(denom, dt));
        assert(cc.normal.scales(depth).scales(0) == (Vec2 { x: 0i64, y: 0i64 })) by {
            assert((cc.normal.scales(depth).x as int) * 0 == 0);
            assert((cc.normal.scales(depth).y as int) * 0 == 0);
        };
        assert(nudge == (Vec2 { x: 0i64, y: 0i64 })) by {
            assert(fxd(0, fxm(denom, dt)) == 0) by {
                assert(0 * (FX_ONE as int) == 0);
            };
        };
        assert(obj.linear_velocity.adds(nudge) == obj.linear_velocity) by {
            assert(sadd(obj.linear_velocity.x as int, 0) == obj.linear_velocity.x as int);
            assert(sadd(obj.linear_velocity.y as int, 0) == obj.linear_velocity.y as int);
        };
    }
}

/// The soft impulse step never changes a static body's velocities:
/// both the normal and the friction impulse are scaled by its zero
/// inverse mass and inertia.
#[verifier::rlimit(100)]
#[verifier::spinoff_prover]
pub proof fn lemma_rc_step_static(
    joints: Seq<Joint>, bodies: Seq<RigidBody>, cc: CollisionConstraint,
)
    requires
        cc.object < bodies.len(),
        bodies[cc.object as int].is_static,
    ensures
        ({
            let r = rc_step(joints, bodies, cc);
            r.1[cc.object as int].linear_velocity == bodies[cc.object as int].linear_velocity
            && r.1[cc.object as int].angular_velocity == bodies[cc.object as int].angular_velocity
        }),
{
    let r = rc_step(joints, bodies, cc);
    let p = joints[cc.index as int];
    let pim = p.inv_mass_s(bodies);
    let obj = bodies[cc.object as int];
    let normal = cc.normal;
    let rr = cc.contact_point.subs(obj.shape.center_s());
    let rel = p.velocity.subs(obj.linear_velocity.adds(rr.perps().scales(obj.angular_velocity as int)));
    if rel.dots(normal) >= 0 {
        let e = obj.material.restitution as int;
        let v_rel = fxm(sneg(sadd(FX_ONE as int, e)), rel.dots(normal));
        let crn = rr.crosses(normal);
        let denom = imax(sadd(sadd(pim, 0), fxm(fxm(crn, crn), 0)), 1);
        let jimp = fxd(v_rel, denom);
        let o_imp = normal.scales(sneg(jimp));
        assert(o_imp.scales(0) == (Vec2 { x: 0i64, y: 0i64 })) by {
            assert((o_imp.x as int) * 0 == 0);
            assert((o_imp.y as int) * 0 == 0);
        };
        let o1 = RigidBody {
            linear_velocity: obj.linear_velocity.adds(o_imp.scales(0)),
            angular_velocity: sadd(obj.angular_velocity as int, fxm(rr.crosses(o_imp), 0)) as i64,
            ..obj
        };
        assert(o1.linear_velocity == obj.linear_velocity) by {
            assert(sadd(obj.linear_velocity.x as int, 0) == obj.linear_velocity.x as int);
            assert(sadd(obj.linear_velocity.y as int, 0) == obj.linear_velocity.y as int);
        };
        assert(o1.angular_velocity == obj.angular_velocity) by {
            assert(rr.crosses(o_imp) * 0 == 0);
            assert(fxm(rr.crosses(o_imp), 0) == 0);
        };
        let p1 = Joint { velocity: p.velocity.adds(normal.scales(jimp).scales(pim)), ..p };
        let rel2 = p1.velocity.subs(o1.linear_velocity.adds(rr.perps().scales(o1.angular_velocity as int)));
        let tangent0 = rel2.subs(normal.scales(rel2.dots(normal)));
        if !tangent0.nearly_equal_s(Vec2 { x: 0, y: 0 }, 500) {
            let tangent = tangent0.norm_s();
            let crt = rr.crosses(tangent);
            let denom_t = imax(sadd(sadd(pim, 0), fxm(fxm(crt, crt), 0)), 1);
            let jt0 = fxd(sneg(rel2.dots(tangent)), denom_t);
            let jt = if sat64(iabs(jt0)) > fxm(sneg(jimp), obj.material.static_friction as int) {
                fxm(jimp, obj.material.dynamic_friction as int)
            } else {
                jt0
            };
            let o_f = tangent.scales(sneg(jt));
            assert(o_f.scales(0) == (Vec2 { x: 0i64, y: 0i64 })) by {
                assert((o_f.x as int) * 0 == 0);
                assert((o_f.y as int) * 0 == 0);
            };
            let o2 = RigidBody {
                linear_velocity: o1.linear_velocity.adds(o_f.scales(0)),
                angular_velocity: sadd(o1.angular_velocity as int, fxm(rr.crosses(o_f), 0)) as i64,
                ..o1
            };
            assert(o2.linear_velocity == o1.linear_velocity) by {
                assert(sadd(o1.linear_velocity.x as int, 0) == o1.linear_velocity.x as int);
                assert(sadd(o1.linear_velocity.y as int, 0) == o1.linear_velocity.y as int);
            };
            assert(o2.angular_velocity == o1.angular_velocity) by {
                assert(rr.crosses(o_f) * 0 == 0);
                assert(fxm(rr.crosses(o_f), 0) == 0);
            };
        }
    }
}

/// Exact division facts used by the head-on impulse law.
proof fn lemma_div_exact(x: int, d: int)
    requires
        d > 0,
        x % d == 0,
    ensures
        tdiv(x, d) == x / d,
        d * (x / d) == x,
        tdiv(-x, d) == -(x / d),
{
    assert(tdiv(x, d) == x / d && d * (x / d) == x && tdiv(-x, d) == -(x / d)) by (nonlinear_arith)
        requires d > 0 && x % d == 0,
    ;
}

/// Scaling up then dividing by the same positive factor is exact.
proof fn lemma_mul_div_cancel(x: int, d: int)
    requires
        d > 0,
    ensures
        tdiv(x * d, d) == x,
        tdiv(d * x, d) == x,
{
    assert(tdiv(x * d, d) == x && tdiv(d * x, d) == x) by (nonlinear_arith)
        requires d > 0,
    ;
}

/// The inputs on which the head-on impulse law is exact: both bodies
/// translate along the x axis through the contact, angular velocities
/// are zero, they approach each other, the magnitudes stay far from
/// saturation, and each fixed-point division in the impulse happens to
/// be exact.
pub open spec fn head_on_exact(
    a_im: int, b_im: int, e: int,
    a_c: Vec2, b_c: Vec2, cp: Vec2,
    va: Vec2, vb: Vec2,
) -> bool {
    let vn = va.x - vb.x;
    let v_rel0 = -(((FX_ONE as int) + e) * vn) / (FX_ONE as int);
    let d = a_im + b_im;
    let j0 = (v_rel0 * (FX_ONE as int)) / d;
    cp.y == a_c.y && cp.y == b_c.y
    && vn >= 0
    && iabs(va.x as int) <= 1_000_000_000_000_000 && iabs(vb.x as int) <= 1_000_000_000_000_000
    && 0 <= e <= FX_ONE
    && 0 <= a_im <= 1_000_000_000_000 && 0 <= b_im <= 1_000_000_000_000
    && d >= 1
    && iabs(j0) <= 1_000_000_000_000_000
    && iabs((j0 * a_im) / (FX_ONE as int)) <= 1_000_000_000_000_000
    && iabs((j0 * b_im) / (FX_ONE as int)) <= 1_000_000_000_000_000
    && ((((FX_ONE as int) + e) * vn) % (FX_ONE as int) == 0)
    && ((v_rel0 * (FX_ONE as int)) % d == 0)
    && ((j0 * a_im) % (FX_ONE as int) == 0)
    && ((j0 * b_im) % (FX_ONE as int) == 0)
}

/// Restitution bound and conservation, in the head-on frictionless
/// configuration where fixed-point rounding vanishes: after one
/// contact, the relative speed along the normal is exactly the
/// restitution times the approach speed, reversed; with equal inverse
/// masses linear momentum is conserved exactly, and a fully elastic
/// contact swaps the two velocities, conserving kinetic energy.
/// Inputs where a fixed-point division leaves a remainder are left
/// out; there the same holds only up to rounding.
#[verifier::rlimit(100)]
#[verifier::spinoff_prover]
pub proof fn lemma_head_on_restitution(
    a_im: int, a_ii: int, b_im: int, b_ii: int, e: int,
    a_c: Vec2, b_c: Vec2, cp: Vec2,
    va: Vec2, vb: Vec2,
)
    requires
        head_on_exact(a_im, b_im, e, a_c, b_c, cp, va, vb),
    ensures
        ({
            let normal = Vec2 { x: FX_ONE, y: 0 };
            let st = (va, 0int, vb, 0int);
            let r = contact_step(a_im, a_ii, b_im, b_ii, e, 0, 0, a_c, b_c, normal, cp, st);
            let vn = va.x - vb.x;
            r.1 == 0 && r.3 == 0
            && r.0.y == va.y && r.2.y == vb.y
            && (r.0.x - r.2.x) == -((e * vn) / (FX_ONE as int))
            && (a_im == b_im ==> r.0.x + r.2.x == va.x + vb.x)
            && ((a_im == b_im && e == FX_ONE) ==> r.0.x == vb.x && r.2.x == va.x)
        }),
{
    let s_one = FX_ONE as int;
    let normal = Vec2 { x: FX_ONE, y: 0 };
    let st = (va, 0int, vb, 0int);
    let r = contact_step(a_im, a_ii, b_im, b_ii, e, 0, 0, a_c, b_c, normal, cp, st);
    let vn = va.x - vb.x;
    let zero2 = Vec2 { x: 0i64, y: 0i64 };

    let ra = cp.subs(a_c);
    let rb = cp.subs(b_c);
    assert(ra.y == 0 && rb.y == 0);
    assert(ra.perps().scales(0) == zero2) by {
        assert((ra.perps().x as int) * 0 == 0);
        assert((ra.perps().y as int) * 0 == 0);
    };
    assert(rb.perps().scales(0) == zero2) by {
        assert((rb.perps().x as int) * 0 == 0);
        assert((rb.perps().y as int) * 0 == 0);
    };
    assert(va.adds(zero2) == va);
    assert(vb.adds(zero2) == vb);
    let rel = va.subs(vb);
    assert(rel.x as int == vn && rel.y as int == ssub(va.y as int, vb.y as int));

    assert(rel.dots(normal) == vn) by {
        lemma_mul_div_cancel(rel.x as int, s_one);
        assert(fxm(rel.x as int, s_one) == rel.x as int);
        assert((rel.y as int) * 0 == 0);
        assert(fxm(rel.y as int, 0) == 0);
    };

    let m = (s_one + e) * vn;
    let v_rel0 = -m / s_one;
    assert(-m / s_one == -(m / s_one)) by (nonlinear_arith)
        requires m % s_one == 0 && s_one > 0,
    ;
    let v_rel = fxm(sneg(sadd(s_one, e)), vn);
    assert(0 <= m <= 2_000_000 * 1_000_000_000_000_000 * 2) by (nonlinear_arith)
        requires m == (s_one + e) * vn && s_one == 1_000_000 && 0 <= e <= s_one && 0 <= vn <= 2_000_000_000_000_000,
    ;
    assert(0 <= m / s_one <= m) by (nonlinear_arith)
        requires m >= 0 && s_one > 0,
    ;
    assert(v_rel == v_rel0) by {
        assert(sneg(sadd(s_one, e)) == -(s_one + e));
        assert((-(s_one + e)) * vn == -m) by (nonlinear_arith)
            requires m == (s_one + e) * vn,
        ;
        lemma_div_exact(m, s_one);
        assert(tdiv(-m, s_one) == -(m / s_one));
        assert(m / s_one <= m);
        assert(sat64(-(m / s_one)) == -(m / s_one));
    };

    assert(ra.crosses(normal) == 0) by {
        assert((ra.x as int) * 0 == 0);
        assert(fxm(ra.x as int, 0) == 0);
        assert(0 * s_one == 0) by (nonlinear_arith);
        assert(fxm(ra.y as int, s_one) == 0);
    };
    assert(rb.crosses(normal) == 0) by {
        assert((rb.x as int) * 0 == 0);
        assert(fxm(rb.x as int, 0) == 0);
        assert(0 * s_one == 0) by (nonlinear_arith);
        assert(fxm(rb.y as int, s_one) == 0);
    };

    let d = a_im + b_im;
    assert(fxm(0, 0) == 0) by { assert(0int * 0 == 0); };
    assert(fxm(0, a_ii) == 0) by { assert(0 * a_ii == 0) by (nonlinear_arith); };
    assert(fxm(0, b_ii) == 0) by { assert(0 * b_ii == 0) by (nonlinear_arith); };
    let denom = imax(sadd(sadd(sadd(a_im, b_im), fxm(fxm(0, 0), a_ii)), fxm(fxm(0, 0), b_ii)), 1);
    assert(denom == d);

    let j0 = (v_rel0 * s_one) / d;
    let j = fxd(v_rel, d);
    assert(j == j0) by {
        lemma_div_exact(v_rel0 * s_one, d);
        assert(sat64(j0) == j0);
    };

    let a_imp = normal.scales(j);
    assert(a_imp.x as int == j && a_imp.y == 0) by {
        lemma_mul_div_cancel(j, s_one);
        assert(fxm(s_one, j) == sat64(tdiv(s_one * j, s_one)));
        assert(sat64(j) == j);
        assert(0 * j == 0) by (nonlinear_arith);
        assert(fxm(0, j) == 0);
    };
    let b_imp = normal.scales(sneg(j));
    assert(b_imp.x as int == -j && b_imp.y == 0) by {
        lemma_mul_div_cancel(-j, s_one);
        assert(fxm(s_one, -j) == sat64(tdiv(s_one * -j, s_one)));
        assert(sat64(-j) == -j);
        assert(0 * -j == 0) by (nonlinear_arith);
        assert(fxm(0, -j) == 0);
    };

    let da = (j0 * a_im) / s_one;
    let db = (j0 * b_im) / s_one;
    assert(fxm(j, a_im) == da) by {
        lemma_div_exact(j0 * a_im, s_one);
        assert(sat64(da) == da);
    };
    assert(fxm(-j, b_im) == -db) by {
        lemma_div_exact(j0 * b_im, s_one);
        assert((-j0) * b_im == -(j0 * b_im)) by (nonlinear_arith);
        assert(tdiv(-(j0 * b_im), s_one) == -db);
        assert(sat64(-db) == -db);
    };

    let va1 = va.adds(a_imp.scales(a_im));
    let vb1 = vb.adds(b_imp.scales(b_im));
    assert(a_imp.scales(a_im) == (Vec2 { x: da as i64, y: 0i64 })) by {
        assert(0 * a_im == 0) by (nonlinear_arith);
        assert(fxm(a_imp.y as int, a_im) == 0);
    };
    assert(b_imp.scales(b_im) == (Vec2 { x: (-db) as i64, y: 0i64 })) by {
        assert(0 * b_im == 0) by (nonlinear_arith);
        assert(fxm(b_imp.y as int, b_im) == 0);
    };
    assert(va1.x as int == va.x + da && va1.y == va.y);
    assert(vb1.x as int == vb.x - db && vb1.y == vb.y);

    assert(ra.crosses(a_imp) == 0) by {
        assert((ra.x as int) * 0 == 0);
        assert(fxm(ra.x as int, 0) == 0);
        assert(0 * (a_imp.x as int) == 0) by (nonlinear_arith);
        assert(fxm(0, a_imp.x as int) == 0);
    };
    assert(rb.crosses(b_imp) == 0) by {
        assert((rb.x as int) * 0 == 0);
        assert(fxm(rb.x as int, 0) == 0);
        assert(0 * (b_imp.x as int) == 0) by (nonlinear_arith);
        assert(fxm(0, b_imp.x as int) == 0);
    };
    let wa1 = sadd(0, fxm(ra.crosses(a_imp), a_ii));
    let wb1 = sadd(0, fxm(rb.crosses(b_imp), b_ii));
    assert(wa1 == 0) by { assert(0 * a_ii == 0) by (nonlinear_arith); };
    assert(wb1 == 0) by { assert(0 * b_ii == 0) by (nonlinear_arith); };

    // The balance of the two exact impulse deltas.
    assert(j0 * (a_im + b_im) == v_rel0 * s_one) by {
        lemma_div_exact(v_rel0 * s_one, d);
        assert(d * j0 == j0 * d && j0 * d == j0 * (a_im + b_im)) by (nonlinear_arith)
            requires d == a_im + b_im,
        ;
    };
    assert(da + db == v_rel0) by (nonlinear_arith)
        requires
            da == (j0 * a_im) / s_one,
            db == (j0 * b_im) / s_one,
            (j0 * a_im) % s_one == 0,
            (j0 * b_im) % s_one == 0,
            j0 * (a_im + b_im) == v_rel0 * s_one,
            s_one > 0,
    ;
    assert(m / s_one == vn + (e * vn) / s_one && (e * vn) % s_one == 0) by (nonlinear_arith)
        requires
            m == (s_one + e) * vn,
            m % s_one == 0,
            s_one > 0,
    ;

    // Friction with zero coefficients applies nothing.
    let a_cv2 = va1.adds(ra.perps().scales(wa1));
    let b_cv2 = vb1.adds(rb.perps().scales(wb1));
    assert(a_cv2 == va1 && b_cv2 == vb1) by {
        assert(ra.perps().scales(0) == zero2);
        assert(rb.perps().scales(0) == zero2);
        assert(va1.adds(zero2) == va1);
        assert(vb1.adds(zero2) == vb1);
    };
    let rel2 = va1.subs(vb1);
    let rel2n = rel2.dots(normal);
    assert(rel2n == rel2.x as int) by {
        lemma_mul_div_cancel(rel2.x as int, s_one);
        assert(fxm(rel2.x as int, s_one) == sat64(tdiv((rel2.x as int) * s_one, s_one)));
        assert(sat64(rel2.x as int) == rel2.x as int);
        assert((rel2.y as int) * 0 == 0);
        assert(fxm(rel2.y as int, 0) == 0);
    };
    let nscaled = normal.scales(rel2n);
    assert(nscaled == (Vec2 { x: rel2.x, y: 0i64 })) by {
        lemma_mul_div_cancel(rel2n, s_one);
        assert(fxm(s_one, rel2n) == sat64(tdiv(s_one * rel2n, s_one)));
        assert(sat64(rel2n) == rel2n);
        assert(0 * rel2n == 0) by (nonlinear_arith);
        assert(fxm(0, rel2n) == 0);
    };
    let tangent0 = rel2.subs(nscaled);
    assert(tangent0.x == 0i64);

    if !tangent0.nearly_equal_s(zero2, 500) {
        let tangent = tangent0.norm_s();
        let crat = ra.crosses(tangent);
        let crbt = rb.crosses(tangent);
        let denom_t = imax(sadd(sadd(sadd(a_im, b_im), fxm(fxm(crat, crat), a_ii)), fxm(fxm(crbt, crbt), b_ii)), 1);
        let jt0 = fxd(sneg(rel2.dots(tangent)), denom_t);
        assert(fxm(sneg(j), 0) == 0) by {
            assert(sneg(j) * 0 == 0);
        };
        let jt = if sat64(iabs(jt0)) > 0 { fxm(j0, 0) } else { jt0 };
        assert(fxm(j0, 0) == 0) by { assert(j0 * 0 == 0); };
        assert(jt == 0) by {
            if sat64(iabs(jt0)) > 0 {
            } else {
                assert(iabs(jt0) == 0);
            }
        };
        assert(tangent.scales(0) == zero2) by {
            assert((tangent.x as int) * 0 == 0);
            assert((tangent.y as int) * 0 == 0);
        };
        assert(tangent.scales(sneg(0)) == zero2) by {
            assert(sneg(0) == 0);
        };
        assert(va1.adds(zero2) == va1 && vb1.adds(zero2) == vb1);
        assert(ra.crosses(zero2) == 0) by {
            assert((ra.x as int) * 0 == 0);
            assert((ra.y as int) * 0 == 0);
            assert(fxm(ra.x as int, 0) == 0 && fxm(ra.y as int, 0) == 0);
        };
        assert(rb.crosses(zero2) == 0) by {
            assert((rb.x as int) * 0 == 0);
            assert((rb.y as int) * 0 == 0);
            assert(fxm(rb.x as int, 0) == 0 && fxm(rb.y as int, 0) == 0);
        };
        assert(fxm(0, a_ii) == 0 && fxm(0, b_ii) == 0);
        assert(r.0 == va1 && r.1 == 0 && r.2 == vb1 && r.3 == 0);
    } else {
        assert(r.0 == va1 && r.1 == 0 && r.2 == vb1 && r.3 == 0);
    }

    assert((r.0.x - r.2.x) == vn + (da + db));
    assert(vn + v_rel0 == -((e * vn) / s_one));

    if a_im == b_im {
        assert(da == db);
        assert(r.0.x + r.2.x == va.x + vb.x);
        if e == FX_ONE {
            assert(v_rel0 == -(2 * vn)) by (nonlinear_arith)
                requires
                    v_rel0 == -(m / s_one),
                    m == (s_one + s_one) * vn,
                    m % s_one == 0,
                    s_one > 0,
            ;
            assert(da == -vn) by (nonlinear_arith)
                requires
                    da == db,
                    da + db == v_rel0,
                    v_rel0 == -(2 * vn),
            ;
            assert(r.0.x == vb.x && r.2.x == va.x);
        }
    }
}

/// Tearing trigger: a two-joint chain whose single constraint is
/// stretched beyond its tear length reports exactly that constraint;
/// the split then just drops the far joint, leaving a one-joint chain
/// and no second structure.
pub proof fn lemma_two_joint_tear(
    joints: Seq<crate::soft::Joint>, bodies: Seq<RigidBody>, constraints: Seq<crate::soft::Constraint>,
)
    requires
        joints.len() == 2,
        constraints.len() == 1,
        constraints[0].index_a == 0usize,
        constraints[0].index_b == 1usize,
        crate::fixed::ssub(
            joints[1].predicted_position.subs(joints[0].predicted_position).len_s(),
            constraints[0].rest_length as int,
        ) > constraints[0].tear_length,
    ensures
        crate::soft::dist_pass(joints, bodies, constraints, 1).1 == Option::Some(0int),
        crate::soft::dist_pass(joints, bodies, constraints, 1).0 == joints,
        crate::soft::tear_keep_joints(joints, constraints, 0) == joints.drop_last(),
        crate::soft::tear_keep_constraints(constraints, 0) == constraints.drop_last(),
        crate::soft::tear_new_parts(joints, constraints, 0) is None,
{
    assert(crate::soft::dist_pass(joints, bodies, constraints, 0) == (joints, Option::None::<int>));
    assert(crate::soft::dist_pass(joints, bodies, constraints, 1).1 == Option::Some(0int));
}

} // verus!
