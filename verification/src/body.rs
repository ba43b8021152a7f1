//! Rigid bodies: a shape, a material, velocities and the static flag,
//! with velocity integration, pairwise collision (detect and push out)
//! and the sequential-impulse contact resolver.

use vstd::prelude::*;
use crate::fixed::{
    FX_ONE, FX_EPS, fxm, fxd, sadd, ssub, sneg, sat64, iabs, tdiv, imin, imax,
    fx_mul, fx_div, sat_add, sat_sub, sat_neg, fx_abs, fx_min, fx_max,
};
use crate::vec2::Vec2;
use crate::material::{Material, MaterialName};
use crate::shape::{Circle, Polygon, ShapeType};
use crate::collision::{
    CollisionData, cvc_s, pvc_s, pvp_s, fc_contacts, pc_cl_acc,
    circle_vs_circle, polygon_vs_circle, polygon_vs_polygon,
    contact_poly_circle, contact_poly_poly,
};
use crate::world::PhysicsData;

verus! {

/// A body taking part in the simulation: a shape coupled with linear
/// and angular velocity, a material and the static flag. Static bodies
/// have zero inverse mass and inertia and never move under forces.
#[derive(Clone, Debug)]
pub struct RigidBody {
    pub linear_velocity: Vec2,
    pub angular_velocity: i64,
    pub material: Material,
    pub is_static: bool,
    pub shape: ShapeType,
}

impl RigidBody {
    /// The shape's caches agree with its vertices and the material's
    /// numbers are in their documented ranges.
    pub open spec fn wf(self) -> bool {
        self.shape.wf() && self.material.wf()
    }

    /// Model of `get_inv_mass`: zero for a static body, else the
    /// reciprocal of area times density.
    pub open spec fn inv_mass_s(self) -> int {
        if self.is_static { 0 } else { fxd(FX_ONE as int, fxm(self.shape.area_s(), self.material.density as int)) }
    }

    /// Model of `get_inv_inertia`: zero for a static body, else the
    /// reciprocal of the moment of inertia times density.
    pub open spec fn inv_inertia_s(self) -> int {
        if self.is_static { 0 } else { fxd(FX_ONE as int, fxm(self.shape.moment_s(), self.material.density as int)) }
    }

    /// A body at rest with the given shape, material and static flag.
    pub fn new(shape: ShapeType, material: Material, is_static: bool) -> (r: RigidBody)
        ensures
            r.linear_velocity == (Vec2 { x: 0i64, y: 0i64 }),
            r.angular_velocity == 0i64,
            r.material == material,
            r.is_static == is_static,
            r.shape == shape,
    {
        RigidBody {
            linear_velocity: Vec2 { x: 0, y: 0 },
            angular_velocity: 0,
            material,
            is_static,
            shape,
        }
    }

    /// A dynamic wooden body from a circle.
    pub fn from_circle(value: Circle) -> (r: RigidBody)
        ensures
            r.linear_velocity == (Vec2 { x: 0i64, y: 0i64 }),
            r.angular_velocity == 0i64,
            r.material == Material::preset_s(MaterialName::Wood),
            r.is_static == false,
            r.shape == ShapeType::Circle(value),
    {
        RigidBody::new(ShapeType::Circle(value), Material::preset(MaterialName::Wood), false)
    }

    /// A dynamic wooden body from a polygon.
    pub fn from_polygon(value: Polygon) -> (r: RigidBody)
        ensures
            r.linear_velocity == (Vec2 { x: 0i64, y: 0i64 }),
            r.angular_velocity == 0i64,
            r.material == Material::preset_s(MaterialName::Wood),
            r.is_static == false,
            r.shape == ShapeType::Polygon(value),
    {
        RigidBody::new(ShapeType::Polygon(value), Material::preset(MaterialName::Wood), false)
    }

    /// Inverse mass; exactly zero for a static body.
    pub fn get_inv_mass(&self) -> (r: i64)
        requires
            self.wf(),
        ensures
            r as int == self.inv_mass_s(),
    {
        if self.is_static {
            0
        } else {
            fx_div(FX_ONE, fx_mul(self.shape.area(), self.material.density))
        }
    }

    /// Inverse moment of inertia; exactly zero for a static body.
    pub fn get_inv_inertia(&self) -> (r: i64)
        requires
            self.wf(),
        ensures
            r as int == self.inv_inertia_s(),
    {
        if self.is_static {
            0
        } else {
            fx_div(FX_ONE, fx_mul(self.shape.moment_of_inertia(), self.material.density))
        }
    }

    /// Model of `update_velocity`: gravity, then the linear drag factor
    /// `1 - air_density * dt` on both velocities; static bodies are
    /// untouched.
    pub open spec fn update_velocity_s(self, physics: PhysicsData) -> RigidBody {
        if self.is_static {
            self
        } else {
            let v1 = self.linear_velocity.adds(physics.gravity.scales(physics.dt as int));
            let damp = ssub(FX_ONE as int, fxm(physics.air_density as int, physics.dt as int));
            RigidBody {
                linear_velocity: v1.scales(damp),
                angular_velocity: fxm(self.angular_velocity as int, damp) as i64,
                ..self
            }
        }
    }

    /// Integrate gravity and drag into the velocities. Position is
    /// advanced separately, after collisions are resolved.
    pub fn update_velocity(&mut self, physics: &PhysicsData)
        ensures
            *final(self) == old(self).update_velocity_s(*physics),
            final(self).shape == old(self).shape,
            final(self).material == old(self).material,
            final(self).is_static == old(self).is_static,
    {
        if self.is_static {
            return;
        }

        self.linear_velocity = self.linear_velocity.vadd(physics.gravity.vscale(physics.dt));

        let damp = sat_sub(FX_ONE, fx_mul(physics.air_density, physics.dt));
        self.linear_velocity = self.linear_velocity.vscale(damp);
        self.angular_velocity = fx_mul(self.angular_velocity, damp);
    }

    /// Model of `update_position`: the shape moves by `v * dt` and
    /// turns by `w * dt`.
    pub open spec fn update_position_s(self, dt: int) -> RigidBody {
        let moved = self.shape.translate_s(self.linear_velocity.scales(dt));
        RigidBody { shape: moved.rotate_s(fxm(self.angular_velocity as int, dt)), ..self }
    }

    /// Advance the position by one timestep of the current velocities.
    pub fn update_position(&mut self, dt: i64)
        ensures
            *final(self) == old(self).update_position_s(dt as int),
            final(self).material == old(self).material,
            final(self).is_static == old(self).is_static,
            final(self).linear_velocity == old(self).linear_velocity,
            final(self).angular_velocity == old(self).angular_velocity,
            old(self).wf() ==> final(self).wf(),
    {
        self.shape.translate(self.linear_velocity.vscale(dt));
        self.shape.rotate(fx_mul(self.angular_velocity, dt));
    }
}

/// A body whose shape and material agree with a well-formed body's is
/// itself well formed: well-formedness never depends on the velocities.
pub proof fn lemma_wf_same_shape(a: RigidBody, b: RigidBody)
    requires
        a.wf(),
        b.shape == a.shape,
        b.material == a.material,
    ensures
        b.wf(),
{
}

/// A circle deeply inside a polygon is snapped to the polygon's
/// boundary before the normal is computed, so the normal is defined.
pub open spec fn push_circle_out_s(p: Polygon, c: Circle) -> Circle {
    if p.contains_point_s(c.center) {
        Circle { center: p.closest_surface_s(c.center).0, ..c }
    } else {
        c
    }
}

/// The two push-out translations for a detected overlap: the depth is
/// split between two dynamic (or two static) bodies, or borne wholly by
/// the dynamic one.
pub open spec fn push_deltas(sep: int, normal: Vec2, a_static: bool, b_static: bool) -> (Vec2, Vec2) {
    let s = ssub(sep, FX_EPS as int);
    if a_static == b_static {
        (
            normal.scales(s).divs(2 * FX_ONE as int),
            normal.scales(sneg(s)).divs(2 * FX_ONE as int),
        )
    } else if a_static {
        (Vec2 { x: 0, y: 0 }, normal.scales(sneg(s)))
    } else {
        (normal.scales(s), Vec2 { x: 0, y: 0 })
    }
}

/// Model of `collide_with`: the two bodies after any snap and push-out,
/// and the manifold (separation, normal toward the second body, contact
/// points found on the pushed-out shapes).
pub open spec fn collide_with_s(a: RigidBody, b: RigidBody) -> (RigidBody, RigidBody, Option<(int, Vec2, Seq<Vec2>)>) {
    match (a.shape, b.shape) {
        (ShapeType::Circle(ca), ShapeType::Circle(cb)) => match cvc_s(ca, cb) {
            Option::None => (a, b, Option::None),
            Option::Some(sn) => {
                let d = push_deltas(sn.0, sn.1, a.is_static, b.is_static);
                let a1 = RigidBody { shape: a.shape.translate_s(d.0), ..a };
                let b1 = RigidBody { shape: b.shape.translate_s(d.1), ..b };
                let contact = ca.center.adds(d.0).adds(sn.1.scales(ca.radius as int));
                (a1, b1, Option::Some((sn.0, sn.1, seq![contact])))
            },
        },
        (ShapeType::Circle(c), ShapeType::Polygon(p)) => {
            let c1 = push_circle_out_s(p, c);
            let a1 = RigidBody { shape: ShapeType::Circle(c1), ..a };
            match pvc_s(p.tvs(), c1) {
                Option::None => (a1, b, Option::None),
                Option::Some(sn) => {
                    let nrm = sn.1.negs();
                    let d = push_deltas(sn.0, nrm, a.is_static, b.is_static);
                    let a2 = RigidBody { shape: a1.shape.translate_s(d.0), ..a1 };
                    let b2 = RigidBody { shape: b.shape.translate_s(d.1), ..b };
                    let p2 = Polygon { center: p.center.adds(d.1), ..p };
                    let c2 = Circle { center: c1.center.adds(d.0), ..c1 };
                    let contacts = seq![pc_cl_acc(p2.tvs(), c2.center, p2.tvs().len() as int).1];
                    (a2, b2, Option::Some((sn.0, nrm, contacts)))
                },
            }
        },
        (ShapeType::Polygon(p), ShapeType::Circle(c)) => {
            let c1 = push_circle_out_s(p, c);
            let b1 = RigidBody { shape: ShapeType::Circle(c1), ..b };
            match pvc_s(p.tvs(), c1) {
                Option::None => (a, b1, Option::None),
                Option::Some(sn) => {
                    let d = push_deltas(sn.0, sn.1, a.is_static, b.is_static);
                    let a2 = RigidBody { shape: a.shape.translate_s(d.0), ..a };
                    let b2 = RigidBody { shape: b1.shape.translate_s(d.1), ..b1 };
                    let p2 = Polygon { center: p.center.adds(d.0), ..p };
                    let c2 = Circle { center: c1.center.adds(d.1), ..c1 };
                    let contacts = seq![pc_cl_acc(p2.tvs(), c2.center, p2.tvs().len() as int).1];
                    (a2, b2, Option::Some((sn.0, sn.1, contacts)))
                },
            }
        },
        (ShapeType::Polygon(pa), ShapeType::Polygon(pb)) => match pvp_s(pa.tvs(), pb.tvs()) {
            Option::None => (a, b, Option::None),
            Option::Some(sn) => {
                let d = push_deltas(sn.0, sn.1, a.is_static, b.is_static);
                let a1 = RigidBody { shape: a.shape.translate_s(d.0), ..a };
                let b1 = RigidBody { shape: b.shape.translate_s(d.1), ..b };
                let pa2 = Polygon { center: pa.center.adds(d.0), ..pa };
                let pb2 = Polygon { center: pb.center.adds(d.1), ..pb };
                (a1, b1, Option::Some((sn.0, sn.1, fc_contacts(pa2.tvs(), pb2.tvs()))))
            },
        },
    }
}

impl RigidBody {
    /// Detect a collision with `other`, resolve the positional overlap
    /// in place (split by the static flags), and hand back the manifold
    /// with contact points on the corrected shapes.
    pub fn collide_with(&mut self, other: &mut RigidBody) -> (r: Option<CollisionData>)
        ensures
            ({
                let (na, nb, res) = collide_with_s(*old(self), *old(other));
                *final(self) == na && *final(other) == nb && match r {
                    Option::Some(cd) => res matches Option::Some(m)
                        && m.0 == cd.sep_or_t as int && m.1 == cd.normal && m.2 == cd.contacts@,
                    Option::None => res is None,
                }
            }),
            final(self).material == old(self).material,
            final(self).is_static == old(self).is_static,
            final(self).linear_velocity == old(self).linear_velocity,
            final(self).angular_velocity == old(self).angular_velocity,
            final(other).material == old(other).material,
            final(other).is_static == old(other).is_static,
            final(other).linear_velocity == old(other).linear_velocity,
            final(other).angular_velocity == old(other).angular_velocity,
            old(self).wf() ==> final(self).wf(),
            old(other).wf() ==> final(other).wf(),
    {
        // Snap a circle whose centre lies inside the other polygon to the
        // polygon's surface, so the SAT normal below is defined.
        let snap: Option<(bool, Vec2)> = match (&self.shape, &other.shape) {
            (ShapeType::Circle(c), ShapeType::Polygon(p)) => {
                if p.contains_point(c.center) {
                    let (cp, _n) = p.find_closest_surface_point(c.center);
                    Option::Some((true, cp))
                } else {
                    Option::None
                }
            },
            (ShapeType::Polygon(p), ShapeType::Circle(c)) => {
                if p.contains_point(c.center) {
                    let (cp, _n) = p.find_closest_surface_point(c.center);
                    Option::Some((false, cp))
                } else {
                    Option::None
                }
            },
            _ => Option::None,
        };
        if let Option::Some((to_self, pos)) = snap {
            if to_self {
                self.shape.set_center(pos);
            } else {
                other.shape.set_center(pos);
            }
        }

        // Pure detection on the snapped shapes.
        let det: Option<(i64, Vec2)> = match (&self.shape, &other.shape) {
            (ShapeType::Circle(a), ShapeType::Circle(b)) => match circle_vs_circle(a, b) {
                Option::Some(cd) => Option::Some((cd.sep_or_t, cd.normal)),
                Option::None => Option::None,
            },
            (ShapeType::Circle(c), ShapeType::Polygon(p)) => match polygon_vs_circle(p, c) {
                Option::Some(cd) => Option::Some((cd.sep_or_t, cd.normal.vneg())),
                Option::None => Option::None,
            },
            (ShapeType::Polygon(p), ShapeType::Circle(c)) => match polygon_vs_circle(p, c) {
                Option::Some(cd) => Option::Some((cd.sep_or_t, cd.normal)),
                Option::None => Option::None,
            },
            (ShapeType::Polygon(a), ShapeType::Polygon(b)) => match polygon_vs_polygon(a, b) {
                Option::Some(cd) => Option::Some((cd.sep_or_t, cd.normal)),
                Option::None => Option::None,
            },
        };

        let (sep, normal) = match det {
            Option::Some(sn) => sn,
            Option::None => { return Option::None; },
        };

        // Push the overlap out along the normal.
        let s_adj = sat_sub(sep, FX_EPS);
        let (ta, tb) = if self.is_static == other.is_static {
            (
                normal.vscale(s_adj).vdivs(2 * FX_ONE),
                normal.vscale(sat_neg(s_adj)).vdivs(2 * FX_ONE),
            )
        } else if self.is_static {
            (Vec2 { x: 0, y: 0 }, normal.vscale(sat_neg(s_adj)))
        } else {
            (normal.vscale(s_adj), Vec2 { x: 0, y: 0 })
        };
        self.shape.translate(ta);
        other.shape.translate(tb);

        // Contact points on the corrected shapes.
        let contacts: Vec<Vec2> = match (&self.shape, &other.shape) {
            (ShapeType::Circle(a), ShapeType::Circle(_)) => {
                let mut v: Vec<Vec2> = Vec::new();
                v.push(a.center.vadd(normal.vscale(a.radius)));
                v
            },
            (ShapeType::Circle(a), ShapeType::Polygon(b)) => contact_poly_circle(b, a),
            (ShapeType::Polygon(a), ShapeType::Circle(b)) => contact_poly_circle(a, b),
            (ShapeType::Polygon(a), ShapeType::Polygon(b)) => contact_poly_poly(a, b),
        };
        proof {
            let (na, nb, res) = collide_with_s(*old(self), *old(other));
            assert(res matches Option::Some(m) && m.2 =~= contacts@);
        }

        Option::Some(CollisionData { sep_or_t: sep, normal, contacts })
    }
}

/// The velocity state of a colliding pair: the first body's linear and
/// angular velocity, then the second's.
pub type PairVel = (Vec2, int, Vec2, int);

/// One contact point of the sequential-impulse resolver: a normal
/// impulse bounded by restitution, then a friction impulse clamped by
/// the Coulomb cone. Separating contacts are left alone.
///
/// `a_im`/`a_ii` are the first body's inverse mass and inertia, `a_c`
/// its centre; `e` is the pair's restitution, `sf`/`df` the averaged
/// static and dynamic friction; `cp` the contact point.
pub open spec fn contact_step(
    a_im: int, a_ii: int, b_im: int, b_ii: int,
    e: int, sf: int, df: int,
    a_c: Vec2, b_c: Vec2, normal: Vec2, cp: Vec2,
    st: PairVel,
) -> PairVel {
    let va = st.0;
    let wa = st.1;
    let vb = st.2;
    let wb = st.3;
    let ra = cp.subs(a_c);
    let rb = cp.subs(b_c);
    let a_cv = va.adds(ra.perps().scales(wa));
    let b_cv = vb.adds(rb.perps().scales(wb));
    let rel = a_cv.subs(b_cv);
    if rel.dots(normal) < 0 {
        st
    } else {
        let v_rel = fxm(sneg(sadd(FX_ONE as int, e)), rel.dots(normal));
        let cra = ra.crosses(normal);
        let crb = rb.crosses(normal);
        let denom = imax(
            sadd(sadd(sadd(a_im, b_im), fxm(fxm(cra, cra), a_ii)), fxm(fxm(crb, crb), b_ii)),
            FX_EPS as int,
        );
        let j = fxd(v_rel, denom);
        let a_imp = normal.scales(j);
        let b_imp = normal.scales(sneg(j));
        let va1 = va.adds(a_imp.scales(a_im));
        let vb1 = vb.adds(b_imp.scales(b_im));
        let wa1 = sadd(wa, fxm(ra.crosses(a_imp), a_ii));
        let wb1 = sadd(wb, fxm(rb.crosses(b_imp), b_ii));

        let a_cv2 = va1.adds(ra.perps().scales(wa1));
        let b_cv2 = vb1.adds(rb.perps().scales(wb1));
        let rel2 = a_cv2.subs(b_cv2);
        let tangent0 = rel2.subs(normal.scales(rel2.dots(normal)));
        if tangent0.nearly_equal_s(Vec2 { x: 0, y: 0 }, 500) {
            (va1, wa1, vb1, wb1)
        } else {
            let tangent = tangent0.norm_s();
            let v_rel_t = sneg(rel2.dots(tangent));
            let crat = ra.crosses(tangent);
            let crbt = rb.crosses(tangent);
            let denom_t = imax(
                sadd(sadd(sadd(a_im, b_im), fxm(fxm(crat, crat), a_ii)), fxm(fxm(crbt, crbt), b_ii)),
                FX_EPS as int,
            );
            let jt0 = fxd(v_rel_t, denom_t);
            let jt = if sat64(iabs(jt0)) > fxm(sneg(j), sf) { fxm(j, df) } else { jt0 };
            let a_f = tangent.scales(jt);
            let b_f = tangent.scales(sneg(jt));
            let va2 = va1.adds(a_f.scales(a_im));
            let vb2 = vb1.adds(b_f.scales(b_im));
            let wa2 = sadd(wa1, fxm(ra.crosses(a_f), a_ii));
            let wb2 = sadd(wb1, fxm(rb.crosses(b_f), b_ii));
            (va2, wa2, vb2, wb2)
        }
    }
}

/// The velocity state after the first `i` contact points of a manifold.
pub open spec fn resolve_acc(
    a_im: int, a_ii: int, b_im: int, b_ii: int,
    e: int, sf: int, df: int,
    a_c: Vec2, b_c: Vec2, normal: Vec2,
    contacts: Seq<Vec2>, i: int,
    st: PairVel,
) -> PairVel
    decreases i,
{
    if i <= 0 {
        st
    } else {
        contact_step(
            a_im, a_ii, b_im, b_ii, e, sf, df, a_c, b_c, normal, contacts[i - 1],
            resolve_acc(a_im, a_ii, b_im, b_ii, e, sf, df, a_c, b_c, normal, contacts, i - 1, st),
        )
    }
}

/// Model of `resolve_collision`: every contact point applied in order
/// to the pair's velocities.
pub open spec fn resolve_collision_s(a: RigidBody, b: RigidBody, normal: Vec2, contacts: Seq<Vec2>) -> PairVel {
    resolve_acc(
        a.inv_mass_s(), a.inv_inertia_s(), b.inv_mass_s(), b.inv_inertia_s(),
        imin(a.material.restitution as int, b.material.restitution as int),
        tdiv(sadd(a.material.static_friction as int, b.material.static_friction as int), 2),
        tdiv(sadd(a.material.dynamic_friction as int, b.material.dynamic_friction as int), 2),
        a.shape.center_s(), b.shape.center_s(), normal,
        contacts, contacts.len() as int,
        (a.linear_velocity, a.angular_velocity as int, b.linear_velocity, b.angular_velocity as int),
    )
}

impl RigidBody {
    /// Rebuild the pair's velocities from a contact manifold: for each
    /// contact point, a restitution-bounded normal impulse and a
    /// friction impulse clamped by the Coulomb cone. Shapes, materials
    /// and flags are untouched.
    #[verifier::rlimit(100)]
    pub fn resolve_collision(&mut self, other: &mut RigidBody, collision: &CollisionData)
        requires
            old(self).wf(),
            old(other).wf(),
        ensures
            ({
                let st = resolve_collision_s(*old(self), *old(other), collision.normal, collision.contacts@);
                final(self).linear_velocity == st.0
                && final(self).angular_velocity as int == st.1
                && final(other).linear_velocity == st.2
                && final(other).angular_velocity as int == st.3
            }),
            final(self).shape == old(self).shape,
            final(self).material == old(self).material,
            final(self).is_static == old(self).is_static,
            final(other).shape == old(other).shape,
            final(other).material == old(other).material,
            final(other).is_static == old(other).is_static,
    {
        let a_inv_mass = self.get_inv_mass();
        let a_inv_inertia = self.get_inv_inertia();
        let b_inv_mass = other.get_inv_mass();
        let b_inv_inertia = other.get_inv_inertia();

        let restitution = fx_min(self.material.restitution, other.material.restitution);

        let sf = sat_add(self.material.static_friction, other.material.static_friction) / 2;
        let df = sat_add(self.material.dynamic_friction, other.material.dynamic_friction) / 2;

        let a_center = self.shape.get_center();
        let b_center = other.shape.get_center();

        let normal = collision.normal;
        let n = collision.contacts.len();
        let ghost a0 = *self;
        let ghost b0 = *other;
        let mut i: usize = 0;
        while i < n
            invariant
                0 <= i <= n,
                n == collision.contacts@.len(),
                a_inv_mass as int == a0.inv_mass_s(),
                a_inv_inertia as int == a0.inv_inertia_s(),
                b_inv_mass as int == b0.inv_mass_s(),
                b_inv_inertia as int == b0.inv_inertia_s(),
                restitution as int == imin(a0.material.restitution as int, b0.material.restitution as int),
                sf as int == tdiv(sadd(a0.material.static_friction as int, b0.material.static_friction as int), 2),
                df as int == tdiv(sadd(a0.material.dynamic_friction as int, b0.material.dynamic_friction as int), 2),
                a_center == a0.shape.center_s(),
                b_center == b0.shape.center_s(),
                normal == collision.normal,
                self.shape == a0.shape,
                self.material == a0.material,
                self.is_static == a0.is_static,
                other.shape == b0.shape,
                other.material == b0.material,
                other.is_static == b0.is_static,
                (self.linear_velocity, self.angular_velocity as int, other.linear_velocity, other.angular_velocity as int)
                    == resolve_acc(
                        a0.inv_mass_s(), a0.inv_inertia_s(), b0.inv_mass_s(), b0.inv_inertia_s(),
                        imin(a0.material.restitution as int, b0.material.restitution as int),
                        tdiv(sadd(a0.material.static_friction as int, b0.material.static_friction as int), 2),
                        tdiv(sadd(a0.material.dynamic_friction as int, b0.material.dynamic_friction as int), 2),
                        a0.shape.center_s(), b0.shape.center_s(), normal,
                        collision.contacts@, i as int,
                        (a0.linear_velocity, a0.angular_velocity as int, b0.linear_velocity, b0.angular_velocity as int),
                    ),
            decreases n - i,
        {
            proof {
                assert(resolve_acc(
                    a0.inv_mass_s(), a0.inv_inertia_s(), b0.inv_mass_s(), b0.inv_inertia_s(),
                    imin(a0.material.restitution as int, b0.material.restitution as int),
                    tdiv(sadd(a0.material.static_friction as int, b0.material.static_friction as int), 2),
                    tdiv(sadd(a0.material.dynamic_friction as int, b0.material.dynamic_friction as int), 2),
                    a0.shape.center_s(), b0.shape.center_s(), normal,
                    collision.contacts@, i as int + 1,
                    (a0.linear_velocity, a0.angular_velocity as int, b0.linear_velocity, b0.angular_velocity as int),
                ) == contact_step(
                    a0.inv_mass_s(), a0.inv_inertia_s(), b0.inv_mass_s(), b0.inv_inertia_s(),
                    imin(a0.material.restitution as int, b0.material.restitution as int),
                    tdiv(sadd(a0.material.static_friction as int, b0.material.static_friction as int), 2),
                    tdiv(sadd(a0.material.dynamic_friction as int, b0.material.dynamic_friction as int), 2),
                    a0.shape.center_s(), b0.shape.center_s(), normal,
                    collision.contacts@[i as int],
                    resolve_acc(
                        a0.inv_mass_s(), a0.inv_inertia_s(), b0.inv_mass_s(), b0.inv_inertia_s(),
                        imin(a0.material.restitution as int, b0.material.restitution as int),
                        tdiv(sadd(a0.material.static_friction as int, b0.material.static_friction as int), 2),
                        tdiv(sadd(a0.material.dynamic_friction as int, b0.material.dynamic_friction as int), 2),
                        a0.shape.center_s(), b0.shape.center_s(), normal,
                        collision.contacts@, i as int,
                        (a0.linear_velocity, a0.angular_velocity as int, b0.linear_velocity, b0.angular_velocity as int),
                    ),
                ));
            }
            let contact_point = collision.contacts[i];
            let ra = contact_point.vsub(a_center);
            let rb = contact_point.vsub(b_center);
            let a_contact_vel = self.linear_velocity.vadd(ra.vperp().vscale(self.angular_velocity));
            let b_contact_vel = other.linear_velocity.vadd(rb.vperp().vscale(other.angular_velocity));
            let relative_velocity = a_contact_vel.vsub(b_contact_vel);

            if relative_velocity.vdot(normal) < 0 {
                i = i + 1;
                continue;
            }

            let v_rel = fx_mul(sat_neg(sat_add(FX_ONE, restitution)), relative_velocity.vdot(normal));
            let cra = ra.vcross(normal);
            let crb = rb.vcross(normal);
            let denom = fx_max(
                sat_add(
                    sat_add(sat_add(a_inv_mass, b_inv_mass), fx_mul(fx_mul(cra, cra), a_inv_inertia)),
                    fx_mul(fx_mul(crb, crb), b_inv_inertia),
                ),
                FX_EPS,
            );

            let j = fx_div(v_rel, denom);
            let a_impulse = normal.vscale(j);
            let b_impulse = normal.vscale(sat_neg(j));

            self.linear_velocity = self.linear_velocity.vadd(a_impulse.vscale(a_inv_mass));
            other.linear_velocity = other.linear_velocity.vadd(b_impulse.vscale(b_inv_mass));
            self.angular_velocity = sat_add(self.angular_velocity, fx_mul(ra.vcross(a_impulse), a_inv_inertia));
            other.angular_velocity = sat_add(other.angular_velocity, fx_mul(rb.vcross(b_impulse), b_inv_inertia));

            // Friction against the post-impulse relative velocity.
            let a_contact_vel = self.linear_velocity.vadd(ra.vperp().vscale(self.angular_velocity));
            let b_contact_vel = other.linear_velocity.vadd(rb.vperp().vscale(other.angular_velocity));
            let relative_velocity = a_contact_vel.vsub(b_contact_vel);

            let tangent0 = relative_velocity.vsub(normal.vscale(relative_velocity.vdot(normal)));
            if tangent0.nearly_equal(Vec2 { x: 0, y: 0 }, 500) {
                i = i + 1;
                continue;
            }

            let tangent = tangent0.vnorm();

            let v_rel_t = sat_neg(relative_velocity.vdot(tangent));
            let crat = ra.vcross(tangent);
            let crbt = rb.vcross(tangent);
            let denom_t = fx_max(
                sat_add(
                    sat_add(sat_add(a_inv_mass, b_inv_mass), fx_mul(fx_mul(crat, crat), a_inv_inertia)),
                    fx_mul(fx_mul(crbt, crbt), b_inv_inertia),
                ),
                FX_EPS,
            );

            let mut jt = fx_div(v_rel_t, denom_t);
            if fx_abs(jt) > fx_mul(sat_neg(j), sf) {
                jt = fx_mul(j, df);
            }

            let a_friction_impulse = tangent.vscale(jt);
            let b_friction_impulse = tangent.vscale(sat_neg(jt));

            self.linear_velocity = self.linear_velocity.vadd(a_friction_impulse.vscale(a_inv_mass));
            other.linear_velocity = other.linear_velocity.vadd(b_friction_impulse.vscale(b_inv_mass));
            self.angular_velocity = sat_add(self.angular_velocity, fx_mul(ra.vcross(a_friction_impulse), a_inv_inertia));
            other.angular_velocity = sat_add(other.angular_velocity, fx_mul(rb.vcross(b_friction_impulse), b_inv_inertia));

            i = i + 1;
        }
    }
}

} // verus!
