//! Narrow-phase collision detection: circle, polygon, segment, ray and
//! swept tests, and the contact-point search.
//!
//! Sign convention: separations are signed, negative meaning penetration.
//! A returned normal points from the first shape toward the second unless a
//! function says otherwise.

use vstd::prelude::*;
use crate::fixed::{FX_ONE, fxm, fxd, imin, imax, sadd, ssub, sneg, sqrt_s, fx_div, fx_min, fx_max, sat_add, sat_sub, sat_neg, fx_mul, fx_sqrt};
use crate::vec2::Vec2;
use crate::shape::{Circle, Polygon};

verus! {

/// A contact manifold: signed separation (or ray parameter), unit-ish
/// normal, and up to two world-space contact points.
#[derive(Clone, Debug)]
pub struct CollisionData {
    pub sep_or_t: i64,
    pub normal: Vec2,
    pub contacts: Vec<Vec2>,
}

/// Model of `point_segment_distance`: squared distance from `p` to the
/// segment `a..b` together with the closest point.
pub open spec fn psd_s(p: Vec2, a: Vec2, b: Vec2) -> (int, Vec2) {
    let ab = b.subs(a);
    let ap = p.subs(a);
    let proj = ab.dots(ap);
    let d = fxd(proj, ab.len2_s());
    let cp = if d <= 0 {
        a
    } else if d >= FX_ONE {
        b
    } else {
        a.adds(ab.scales(d))
    };
    (p.subs(cp).len2_s(), cp)
}

/// Squared distance from a point to a segment, and the closest point of
/// the segment.
pub fn point_segment_distance(p: Vec2, a: Vec2, b: Vec2) -> (r: (i64, Vec2))
    ensures
        (r.0 as int, r.1) == psd_s(p, a, b),
{
    let ab = b.vsub(a);
    let ap = p.vsub(a);

    let proj = ab.vdot(ap);
    let d = fx_div(proj, ab.vlen2());

    let cp = if d <= 0 {
        a
    } else if d >= FX_ONE {
        b
    } else {
        a.vadd(ab.vscale(d))
    };

    (p.vsub(cp).vlen2(), cp)
}

/// Model of `circle_vs_circle`: separation and normal, or nothing when
/// apart or concentric.
pub open spec fn cvc_s(a: Circle, b: Circle) -> Option<(int, Vec2)> {
    let delta = b.center.subs(a.center);
    if delta.len_s() == 0 {
        Option::None
    } else {
        let sep = ssub(delta.len_s(), sadd(a.radius as int, b.radius as int));
        if sep < 0 { Option::Some((sep, delta.norm_s())) } else { Option::None }
    }
}

/// Circle-circle test. The normal points from `a` toward `b`; the
/// separation is negative (the overlap depth). Touching or separated
/// circles, and concentric ones (no defined normal), give nothing.
/// Contact points are filled in later by the caller.
pub fn circle_vs_circle(a: &Circle, b: &Circle) -> (r: Option<CollisionData>)
    ensures
        match r {
            Option::Some(cd) => cvc_s(*a, *b) == Option::Some((cd.sep_or_t as int, cd.normal))
                && cd.contacts@.len() == 0,
            Option::None => cvc_s(*a, *b) is None,
        },
{
    let delta_dist = b.center.vsub(a.center);
    if delta_dist.vlen() == 0 {
        return Option::None;
    }
    let sum_radius = sat_add(a.radius, b.radius);
    let seperation = sat_sub(delta_dist.vlen(), sum_radius);
    if seperation < 0 {
        let normal = delta_dist.vnorm();
        return Option::Some(CollisionData { sep_or_t: seperation, normal, contacts: Vec::new() });
    }
    Option::None
}

/// Model of `circle_vs_segment`: separation, normal toward the segment,
/// and the deepest contact point.
pub open spec fn cvs_s(c: Circle, a: Vec2, b: Vec2) -> Option<(int, Vec2, Vec2)> {
    let ab = b.subs(a);
    let ac = c.center.subs(a);
    let t0 = fxd(ac.dots(ab), ab.dots(ab));
    let t = if t0 < 0 { 0 } else if t0 > FX_ONE as int { FX_ONE as int } else { t0 };
    let deepest = a.adds(ab.scales(t));
    let cd = deepest.subs(c.center);
    if cd.len2_s() <= fxm(c.radius as int, c.radius as int) {
        let sep = ssub(cd.len_s(), c.radius as int);
        let normal = cd.norm_s();
        Option::Some((sep, normal, c.center.adds(normal.scales(c.radius as int))))
    } else {
        Option::None
    }
}

/// Circle against a segment; the normal points from the circle toward
/// the segment.
pub fn circle_vs_segment(c: &Circle, a: Vec2, b: Vec2) -> (r: Option<CollisionData>)
    ensures
        match r {
            Option::Some(cd) => cvs_s(*c, a, b) matches Option::Some(s)
                && s.0 == cd.sep_or_t as int && s.1 == cd.normal
                && cd.contacts@.len() == 1 && cd.contacts@[0] == s.2,
            Option::None => cvs_s(*c, a, b) is None,
        },
{
    let ab = b.vsub(a);
    let ac = c.center.vsub(a);

    let t0 = fx_div(ac.vdot(ab), ab.vdot(ab));
    let t = if t0 < 0 { 0 } else if t0 > FX_ONE { FX_ONE } else { t0 };

    let deepest_point = a.vadd(ab.vscale(t));
    let cd = deepest_point.vsub(c.center);
    let dist_sq = cd.vlen2();

    if dist_sq <= fx_mul(c.radius, c.radius) {
        let seperation = sat_sub(cd.vlen(), c.radius);
        let normal = cd.vnorm();
        let mut contacts: Vec<Vec2> = Vec::new();
        contacts.push(c.center.vadd(normal.vscale(c.radius)));
        Option::Some(CollisionData { sep_or_t: seperation, normal, contacts })
    } else {
        Option::None
    }
}

/// The SAT axis of edge `i` of the vertex loop `av`: the normalized
/// perpendicular of the edge vector.
pub open spec fn fms_axis(av: Seq<Vec2>, i: int) -> Vec2 {
    av[i].subs(av[(i + 1) % av.len() as int]).perps().norm_s()
}

/// Least projection of the first `j` vertices of `bv` onto the axis
/// `nrm` anchored at `ai`.
pub open spec fn fms_inner(bv: Seq<Vec2>, ai: Vec2, nrm: Vec2, j: int) -> int
    decreases j,
{
    if j <= 0 {
        i64::MAX as int
    } else {
        imin(fms_inner(bv, ai, nrm, j - 1), bv[j - 1].subs(ai).dots(nrm))
    }
}

/// SAT state after the first `i` axes of `av`: the largest of the least
/// separations, with its axis; nothing once a separating axis was found.
pub open spec fn fms_outer(av: Seq<Vec2>, bv: Seq<Vec2>, i: int) -> Option<(int, Vec2)>
    decreases i,
{
    if i <= 0 {
        Option::Some((i64::MIN as int, Vec2 { x: 0, y: 0 }))
    } else {
        match fms_outer(av, bv, i - 1) {
            Option::None => Option::None,
            Option::Some(best) => {
                let nrm = fms_axis(av, i - 1);
                let ms = fms_inner(bv, av[i - 1], nrm, bv.len() as int);
                if ms > 0 {
                    Option::None
                } else if ms > best.0 {
                    Option::Some((ms, nrm))
                } else {
                    Option::Some(best)
                }
            },
        }
    }
}

/// Model of `find_min_separation`: the best axis over all edges of `av`.
pub open spec fn fms_s(av: Seq<Vec2>, bv: Seq<Vec2>) -> Option<(int, Vec2)> {
    fms_outer(av, bv, av.len() as int)
}

/// Once an axis separates, later axes cannot bring the result back.
proof fn lemma_fms_none_sticky(av: Seq<Vec2>, bv: Seq<Vec2>, i: int, j: int)
    requires
        0 <= i <= j,
        fms_outer(av, bv, i) is None,
    ensures
        fms_outer(av, bv, j) is None,
    decreases j - i,
{
    if i < j {
        lemma_fms_none_sticky(av, bv, i, j - 1);
    }
}

/// One side of the SAT test: for each edge axis of `a_verts`, the least
/// projection of `b_verts`; keeps the axis of greatest separation, or
/// reports a separating axis by returning nothing.
fn find_min_separation(a_verts: &Vec<Vec2>, b_verts: &Vec<Vec2>) -> (r: Option<(i64, Vec2)>)
    ensures
        match r {
            Option::Some(p) => fms_s(a_verts@, b_verts@) == Option::Some((p.0 as int, p.1)),
            Option::None => fms_s(a_verts@, b_verts@) is None,
        },
{
    let n = a_verts.len();
    let m = b_verts.len();
    let mut best_sep: i64 = i64::MIN;
    let mut best_nrm = Vec2 { x: 0, y: 0 };
    let mut i: usize = 0;
    while i < n
        invariant
            0 <= i <= n,
            n == a_verts@.len(),
            m == b_verts@.len(),
            fms_outer(a_verts@, b_verts@, i as int)
                == Option::Some((best_sep as int, best_nrm)),
        decreases n - i,
    {
        let edge = a_verts[i].vsub(a_verts[(i + 1) % n]);
        let normal = edge.vperp().vnorm();
        let mut min_sep: i64 = i64::MAX;
        let mut j: usize = 0;
        while j < m
            invariant
                0 <= j <= m,
                n == a_verts@.len(),
                m == b_verts@.len(),
                i < n,
                normal == fms_axis(a_verts@, i as int),
                min_sep as int == fms_inner(b_verts@, a_verts@[i as int], normal, j as int),
            decreases m - j,
        {
            let sep = b_verts[j].vsub(a_verts[i]).vdot(normal);
            min_sep = fx_min(min_sep, sep);
            j = j + 1;
        }

        if min_sep > 0 {
            proof {
                assert(fms_outer(a_verts@, b_verts@, i as int + 1) is None);
                lemma_fms_none_sticky(a_verts@, b_verts@, i as int + 1, n as int);
            }
            return Option::None;
        }

        if min_sep > best_sep {
            best_sep = min_sep;
            best_nrm = normal;
        }
        i = i + 1;
    }
    Option::Some((best_sep, best_nrm))
}

/// Model of `polygon_vs_polygon`: both SAT sides; the winning axis is
/// the larger separation, with the second side's axis flipped so the
/// normal points from the first polygon toward the second.
pub open spec fn pvp_s(av: Seq<Vec2>, bv: Seq<Vec2>) -> Option<(int, Vec2)> {
    match fms_s(av, bv) {
        Option::None => Option::None,
        Option::Some(a_res) => match fms_s(bv, av) {
            Option::None => Option::None,
            Option::Some(b_res) => if a_res.0 > b_res.0 {
                Option::Some(a_res)
            } else {
                Option::Some((b_res.0, b_res.1.negs()))
            },
        },
    }
}

/// SAT test between two convex polygons. The normal points from `a`
/// toward `b`; contact points are filled in later by the caller.
pub fn polygon_vs_polygon(a: &Polygon, b: &Polygon) -> (r: Option<CollisionData>)
    ensures
        match r {
            Option::Some(cd) => pvp_s(a.tvs(), b.tvs()) == Option::Some((cd.sep_or_t as int, cd.normal))
                && cd.contacts@.len() == 0,
            Option::None => pvp_s(a.tvs(), b.tvs()) is None,
        },
{
    let a_verts = a.get_transformed_vertices();
    let b_verts = b.get_transformed_vertices();

    if let Option::Some(a_res) = find_min_separation(&a_verts, &b_verts) {
        if let Option::Some(b_res) = find_min_separation(&b_verts, &a_verts) {
            let (sep, normal) = if a_res.0 > b_res.0 {
                (a_res.0, a_res.1)
            } else {
                (b_res.0, b_res.1.vneg())
            };
            return Option::Some(CollisionData { sep_or_t: sep, normal, contacts: Vec::new() });
        }
        return Option::None;
    }
    Option::None
}

/// Closest point to `center` over the first `i` edges of `pv`, with its
/// squared distance.
pub open spec fn pc_cl_acc(pv: Seq<Vec2>, center: Vec2, i: int) -> (int, Vec2)
    decreases i,
{
    if i <= 0 {
        (i64::MAX as int, Vec2 { x: 0, y: 0 })
    } else {
        let prev = pc_cl_acc(pv, center, i - 1);
        let d = psd_s(center, pv[i - 1], pv[i % pv.len() as int]);
        if d.0 < prev.0 { (d.0, d.1) } else { prev }
    }
}

/// Axis state of the polygon-circle test after the first `i` edges: the
/// largest signed separation of the circle from the edge lines, or
/// nothing once an edge separates the circle.
pub open spec fn pc_axis_acc(pv: Seq<Vec2>, c: Circle, i: int) -> Option<(int, Vec2)>
    decreases i,
{
    if i <= 0 {
        Option::Some((i64::MIN as int, Vec2 { x: 0, y: 0 }))
    } else {
        match pc_axis_acc(pv, c, i - 1) {
            Option::None => Option::None,
            Option::Some(best) => {
                let a = pv[i - 1];
                let b = pv[i % pv.len() as int];
                let nrm = a.subs(b).perps().norm_s();
                let sep = ssub(c.center.subs(a).dots(nrm), c.radius as int);
                if sep > 0 {
                    Option::None
                } else if sep > best.0 {
                    Option::Some((sep, nrm))
                } else {
                    Option::Some(best)
                }
            },
        }
    }
}

/// A separating edge stays decisive for the rest of the scan.
proof fn lemma_pc_axis_none_sticky(pv: Seq<Vec2>, c: Circle, i: int, j: int)
    requires
        0 <= i <= j,
        pc_axis_acc(pv, c, i) is None,
    ensures
        pc_axis_acc(pv, c, j) is None,
    decreases j - i,
{
    if i < j {
        lemma_pc_axis_none_sticky(pv, c, i, j - 1);
    }
}

/// Model of `polygon_vs_circle`: the edge axes, then the axis through
/// the closest boundary point (which handles a deeply embedded circle).
pub open spec fn pvc_s(pv: Seq<Vec2>, c: Circle) -> Option<(int, Vec2)> {
    let n = pv.len() as int;
    match pc_axis_acc(pv, c, n) {
        Option::None => Option::None,
        Option::Some(best) => {
            let cl = pc_cl_acc(pv, c.center, n);
            let nrm2 = c.center.subs(cl.1).norm_s();
            let sep2 = ssub(c.center.subs(cl.1).dots(nrm2), c.radius as int);
            if sep2 > 0 {
                Option::None
            } else if sep2 > best.0 {
                Option::Some((sep2, nrm2))
            } else {
                Option::Some(best)
            }
        },
    }
}

/// Polygon against a circle; the normal points from the polygon toward
/// the circle. Contact points are filled in later by the caller.
pub fn polygon_vs_circle(p: &Polygon, c: &Circle) -> (r: Option<CollisionData>)
    ensures
        match r {
            Option::Some(cd) => pvc_s(p.tvs(), *c) == Option::Some((cd.sep_or_t as int, cd.normal))
                && cd.contacts@.len() == 0,
            Option::None => pvc_s(p.tvs(), *c) is None,
        },
{
    let poly_verts = p.get_transformed_vertices();
    let n = poly_verts.len();
    let mut best_sep: i64 = i64::MIN;
    let mut best_nrm = Vec2 { x: 0, y: 0 };
    let mut closest_point = Vec2 { x: 0, y: 0 };
    let mut distance: i64 = i64::MAX;
    let mut i: usize = 0;
    while i < n
        invariant
            0 <= i <= n,
            n == poly_verts@.len(),
            poly_verts@ == p.tvs(),
            pc_axis_acc(p.tvs(), *c, i as int) == Option::Some((best_sep as int, best_nrm)),
            (distance as int, closest_point) == pc_cl_acc(p.tvs(), c.center, i as int),
        decreases n - i,
    {
        let a = poly_verts[i];
        let b = poly_verts[(i + 1) % n];
        let normal = a.vsub(b).vperp().vnorm();
        let sep = sat_sub(c.center.vsub(a).vdot(normal), c.radius);

        if sep > 0 {
            proof {
                assert(pc_axis_acc(p.tvs(), *c, i as int + 1) is None);
                lemma_pc_axis_none_sticky(p.tvs(), *c, i as int + 1, n as int);
            }
            return Option::None;
        }

        if sep > best_sep {
            best_sep = sep;
            best_nrm = normal;
        }

        let (dist, cp) = point_segment_distance(c.center, a, b);
        if dist < distance {
            closest_point = cp;
            distance = dist;
        }
        i = i + 1;
    }

    let normal = c.center.vsub(closest_point).vnorm();
    let sep = sat_sub(c.center.vsub(closest_point).vdot(normal), c.radius);
    if sep > 0 {
        return Option::None;
    }
    if sep > best_sep {
        best_sep = sep;
        best_nrm = normal;
    }

    Option::Some(CollisionData { sep_or_t: best_sep, normal: best_nrm, contacts: Vec::new() })
}

/// Model of `ray_intersect_circle`: the nearest nonnegative root of the
/// standard quadratic, through the same fixed-point steps the code takes.
pub open spec fn ric_s(origin: Vec2, dir: Vec2, center: Vec2, radius: int) -> Option<int> {
    let oc = origin.subs(center);
    let a = dir.dots(dir);
    let b = sadd(oc.dots(dir), oc.dots(dir));
    let cc = ssub(oc.dots(oc), fxm(radius, radius));
    let disc = ssub(fxm(b, b), fxm(fxm(4 * FX_ONE as int, a), cc));
    if disc < 0 {
        Option::None
    } else {
        let sq = sqrt_s(disc);
        let t1 = fxd(ssub(sneg(b), sq), sadd(a, a));
        let t2 = fxd(sadd(sneg(b), sq), sadd(a, a));
        if t1 >= 0 {
            Option::Some(t1)
        } else if t2 >= 0 {
            Option::Some(t2)
        } else {
            Option::None
        }
    }
}

/// Quadratic ray-circle intersection; the smallest nonnegative ray
/// parameter, if any.
fn ray_intersect_circle(ray_origin: Vec2, ray_dir: Vec2, center: Vec2, radius: i64) -> (r: Option<i64>)
    ensures
        match r {
            Option::Some(t) => ric_s(ray_origin, ray_dir, center, radius as int) == Option::Some(t as int),
            Option::None => ric_s(ray_origin, ray_dir, center, radius as int) is None,
        },
{
    let oc = ray_origin.vsub(center);

    let a = ray_dir.vdot(ray_dir);
    let half_b = oc.vdot(ray_dir);
    let b = sat_add(half_b, half_b);
    let c = sat_sub(oc.vdot(oc), fx_mul(radius, radius));

    let discriminant = sat_sub(fx_mul(b, b), fx_mul(fx_mul(4_000_000, a), c));

    if discriminant < 0 {
        Option::None
    } else {
        let sqrt_disc = fx_sqrt(discriminant);
        let two_a = sat_add(a, a);
        let t1 = fx_div(sat_sub(sat_neg(b), sqrt_disc), two_a);
        let t2 = fx_div(sat_add(sat_neg(b), sqrt_disc), two_a);

        if t1 >= 0 {
            Option::Some(t1)
        } else if t2 >= 0 {
            Option::Some(t2)
        } else {
            Option::None
        }
    }
}

/// Model of `ray_vs_circle`: the intersection when it happens within
/// one step (`t <= 1`), with the surface normal at the hit point.
pub open spec fn rvc_s(origin: Vec2, dir: Vec2, c: Circle) -> Option<(int, Vec2, Vec2)> {
    match ric_s(origin, dir, c.center, c.radius as int) {
        Option::None => Option::None,
        Option::Some(t) => if t <= FX_ONE as int {
            let cp = origin.adds(dir.scales(t));
            Option::Some((t, cp.subs(c.center).norm_s(), cp))
        } else {
            Option::None
        },
    }
}

/// Ray against a circle, bounded to one step.
pub fn ray_vs_circle(ray_origin: Vec2, ray_dir: Vec2, c: &Circle) -> (r: Option<CollisionData>)
    ensures
        match r {
            Option::Some(cd) => rvc_s(ray_origin, ray_dir, *c) matches Option::Some(s)
                && s.0 == cd.sep_or_t as int && s.1 == cd.normal
                && cd.contacts@.len() == 1 && cd.contacts@[0] == s.2,
            Option::None => rvc_s(ray_origin, ray_dir, *c) is None,
        },
{
    if let Option::Some(t) = ray_intersect_circle(ray_origin, ray_dir, c.center, c.radius) {
        if t <= FX_ONE {
            let cp = ray_origin.vadd(ray_dir.vscale(t));
            let normal = cp.vsub(c.center).vnorm();
            let mut contacts: Vec<Vec2> = Vec::new();
            contacts.push(cp);
            Option::Some(CollisionData { sep_or_t: t, normal, contacts })
        } else {
            Option::None
        }
    } else {
        Option::None
    }
}

/// Model of `ray_intersect_segment`: the ray parameter where the ray
/// crosses the segment, if it does so ahead of the origin.
pub open spec fn ris_s(origin: Vec2, dir: Vec2, p1: Vec2, p2: Vec2) -> Option<int> {
    let v1 = origin.subs(p1);
    let v2 = p2.subs(p1);
    let v3 = dir.perps();
    let dt = v2.dots(v3);
    if dt == 0 {
        Option::None
    } else {
        let t1 = fxd(v2.crosses(v1), dt);
        let t2 = fxd(v1.dots(v3), dt);
        if t1 >= 0 && t2 >= 0 && t2 <= FX_ONE as int {
            Option::Some(t1)
        } else {
            Option::None
        }
    }
}

/// Ray against a segment; parallel pairs give nothing.
fn ray_intersect_segment(ray_origin: Vec2, ray_dir: Vec2, p1: Vec2, p2: Vec2) -> (r: Option<i64>)
    ensures
        match r {
            Option::Some(t) => ris_s(ray_origin, ray_dir, p1, p2) == Option::Some(t as int),
            Option::None => ris_s(ray_origin, ray_dir, p1, p2) is None,
        },
{
    let v1 = ray_origin.vsub(p1);
    let v2 = p2.vsub(p1);
    let v3 = ray_dir.vperp();

    let dot = v2.vdot(v3);
    if dot == 0 {
        return Option::None;
    }

    let t1 = fx_div(v2.vcross(v1), dot);
    let t2 = fx_div(v1.vdot(v3), dot);

    if t1 >= 0 && t2 >= 0 && t2 <= FX_ONE {
        Option::Some(t1)
    } else {
        Option::None
    }
}

/// Running minimum ray parameter over the first `i` edges of `pv`, with
/// the edge vector that won.
pub open spec fn rvp_acc(pv: Seq<Vec2>, origin: Vec2, dir: Vec2, i: int) -> (int, Vec2)
    decreases i,
{
    if i <= 0 {
        (i64::MAX as int, Vec2 { x: 0, y: 0 })
    } else {
        let prev = rvp_acc(pv, origin, dir, i - 1);
        let n = pv.len() as int;
        match ris_s(origin, dir, pv[i - 1], pv[i % n]) {
            Option::Some(t) => if t < prev.0 { (t, pv[i - 1].subs(pv[i % n])) } else { prev },
            Option::None => prev,
        }
    }
}

/// Model of `ray_vs_polygon`: the closest edge crossing within one step.
pub open spec fn rvp_s(pv: Seq<Vec2>, origin: Vec2, dir: Vec2) -> Option<(int, Vec2, Vec2)> {
    let best = rvp_acc(pv, origin, dir, pv.len() as int);
    if best.0 <= FX_ONE as int {
        Option::Some((best.0, best.1.perps().norm_s(), origin.adds(dir.scales(best.0))))
    } else {
        Option::None
    }
}

/// Ray against a polygon's edges, bounded to one step.
pub fn ray_vs_polygon(ray_origin: Vec2, ray_dir: Vec2, p: &Polygon) -> (r: Option<CollisionData>)
    ensures
        match r {
            Option::Some(cd) => rvp_s(p.tvs(), ray_origin, ray_dir) matches Option::Some(s)
                && s.0 == cd.sep_or_t as int && s.1 == cd.normal
                && cd.contacts@.len() == 1 && cd.contacts@[0] == s.2,
            Option::None => rvp_s(p.tvs(), ray_origin, ray_dir) is None,
        },
{
    let poly_verts = p.get_transformed_vertices();
    let n = poly_verts.len();
    let mut min_t: i64 = i64::MAX;
    let mut edge = Vec2 { x: 0, y: 0 };

    let mut i: usize = 0;
    while i < n
        invariant
            0 <= i <= n,
            n == poly_verts@.len(),
            poly_verts@ == p.tvs(),
            (min_t as int, edge) == rvp_acc(p.tvs(), ray_origin, ray_dir, i as int),
        decreases n - i,
    {
        let a = poly_verts[i];
        let b = poly_verts[(i + 1) % n];

        if let Option::Some(t) = ray_intersect_segment(ray_origin, ray_dir, a, b) {
            if t < min_t {
                min_t = t;
                edge = a.vsub(b);
            }
        }
        i = i + 1;
    }

    if min_t <= FX_ONE {
        let normal = edge.vperp().vnorm();
        let mut contacts: Vec<Vec2> = Vec::new();
        contacts.push(ray_origin.vadd(ray_dir.vscale(min_t)));
        Option::Some(CollisionData { sep_or_t: min_t, normal, contacts })
    } else {
        Option::None
    }
}

/// The first of two optional parameters, preferring the first.
pub open spec fn or_opt(a: Option<int>, b: Option<int>) -> Option<int> {
    if a is Some { a } else { b }
}

/// An optional parameter, or the largest value when absent.
pub open spec fn opt_or_max(a: Option<int>) -> int {
    match a {
        Option::Some(t) => t,
        Option::None => i64::MAX as int,
    }
}

/// Model of `ray_intersect_capsule`: the segment inflated by `radius`,
/// approximated by its two cap circles and the offset wall.
pub open spec fn ricap_s(origin: Vec2, dir: Vec2, a: Vec2, b: Vec2, radius: int) -> Option<int> {
    let t1 = ric_s(origin, dir, a, radius);
    let t2 = ric_s(origin, dir, b, radius);
    let seg = b.subs(a);
    let nrm = seg.perps().norm_s();
    let dproj = dir.dots(nrm);
    if dproj == 0 {
        or_opt(t1, t2)
    } else {
        let dist = a.subs(origin).dots(nrm);
        let t_wall = fxd(ssub(dist, radius), dproj);
        if t_wall >= 0 {
            let hit = origin.adds(dir.scales(t_wall));
            let seg_len = seg.len_s();
            let seg_proj = hit.subs(a).dots(seg.divs(seg_len));
            if 0 <= seg_proj && seg_proj <= seg_len {
                Option::Some(imin(t_wall, imin(opt_or_max(t1), opt_or_max(t2))))
            } else {
                or_opt(t1, t2)
            }
        } else {
            or_opt(t1, t2)
        }
    }
}

/// Ray against a capsule around the segment `a..b`.
fn ray_intersect_capsule(origin: Vec2, dir: Vec2, a: Vec2, b: Vec2, radius: i64) -> (r: Option<i64>)
    ensures
        match r {
            Option::Some(t) => ricap_s(origin, dir, a, b, radius as int) == Option::Some(t as int),
            Option::None => ricap_s(origin, dir, a, b, radius as int) is None,
        },
{
    let t1 = ray_intersect_circle(origin, dir, a, radius);
    let t2 = ray_intersect_circle(origin, dir, b, radius);

    let or_both = if t1.is_some() { t1 } else { t2 };

    let seg = b.vsub(a);
    let normal = seg.vperp().vnorm();
    let d_proj = dir.vdot(normal);
    if d_proj == 0 {
        return or_both;
    }

    let dist = a.vsub(origin).vdot(normal);
    let t_wall = fx_div(sat_sub(dist, radius), d_proj);

    if t_wall >= 0 {
        let hit_point = origin.vadd(dir.vscale(t_wall));
        let seg_len = seg.vlen();
        let seg_proj = hit_point.vsub(a).vdot(seg.vdivs(seg_len));
        if seg_proj >= 0 && seg_proj <= seg_len {
            let m1 = match t1 {
                Option::Some(t) => t,
                Option::None => i64::MAX,
            };
            let m2 = match t2 {
                Option::Some(t) => t,
                Option::None => i64::MAX,
            };
            return Option::Some(fx_min(t_wall, fx_min(m1, m2)));
        }
    }

    or_both
}

/// Model of `swept_circle_vs_segment`: capsule hit within one step, the
/// normal flipped to face along the sweep.
pub open spec fn scs_s(c: Circle, dir: Vec2, a: Vec2, b: Vec2) -> Option<(int, Vec2, Vec2)> {
    match ricap_s(c.center, dir, a, b, c.radius as int) {
        Option::None => Option::None,
        Option::Some(t) => if t <= FX_ONE as int {
            let n0 = a.subs(b).perps().norm_s();
            let nrm = if dir.dots(n0) < 0 { n0.negs() } else { n0 };
            Option::Some((t, nrm, c.center.adds(dir).adds(nrm.scales(c.radius as int))))
        } else {
            Option::None
        },
    }
}

/// A circle swept by `ray_dir` against a segment: the segment is
/// inflated by the radius, so fast movers cannot tunnel through it.
pub fn swept_circle_vs_segment(c: &Circle, ray_dir: Vec2, a: Vec2, b: Vec2) -> (r: Option<CollisionData>)
    ensures
        match r {
            Option::Some(cd) => scs_s(*c, ray_dir, a, b) matches Option::Some(s)
                && s.0 == cd.sep_or_t as int && s.1 == cd.normal
                && cd.contacts@.len() == 1 && cd.contacts@[0] == s.2,
            Option::None => scs_s(*c, ray_dir, a, b) is None,
        },
{
    if let Option::Some(t) = ray_intersect_capsule(c.center, ray_dir, a, b, c.radius) {
        if t <= FX_ONE {
            let n0 = a.vsub(b).vperp().vnorm();
            let normal = if ray_dir.vdot(n0) < 0 { n0.vneg() } else { n0 };
            let contact = c.center.vadd(ray_dir).vadd(normal.vscale(c.radius));
            let mut contacts: Vec<Vec2> = Vec::new();
            contacts.push(contact);
            Option::Some(CollisionData { sep_or_t: t, normal, contacts })
        } else {
            Option::None
        }
    } else {
        Option::None
    }
}

/// Minimum crossing parameter of the first `i` polygon corners swept
/// along `dir` against the segment `a..b`, with the winning corner.
pub open spec fn sps_acc(pv: Seq<Vec2>, dir: Vec2, a: Vec2, b: Vec2, i: int) -> (int, Vec2)
    decreases i,
{
    if i <= 0 {
        (i64::MAX as int, Vec2 { x: 0, y: 0 })
    } else {
        let prev = sps_acc(pv, dir, a, b, i - 1);
        match ris_s(pv[i - 1], dir, a, b) {
            Option::Some(t) => if t < prev.0 { (t, pv[i - 1]) } else { prev },
            Option::None => prev,
        }
    }
}

/// Model of `swept_polygon_vs_segment`.
pub open spec fn sps_s(pv: Seq<Vec2>, dir: Vec2, a: Vec2, b: Vec2) -> Option<(int, Vec2, Vec2)> {
    let best = sps_acc(pv, dir, a, b, pv.len() as int);
    if best.0 <= FX_ONE as int {
        let n0 = a.subs(b).perps().norm_s();
        let nrm = if n0.dots(dir) < 0 { n0.negs() } else { n0 };
        Option::Some((best.0, nrm, best.1.adds(dir)))
    } else {
        Option::None
    }
}

/// A polygon swept by `ray_dir` against a segment: each corner is cast
/// along the sweep, keeping the earliest crossing.
pub fn swept_polygon_vs_segment(p: &Polygon, ray_dir: Vec2, a: Vec2, b: Vec2) -> (r: Option<CollisionData>)
    ensures
        match r {
            Option::Some(cd) => sps_s(p.tvs(), ray_dir, a, b) matches Option::Some(s)
                && s.0 == cd.sep_or_t as int && s.1 == cd.normal
                && cd.contacts@.len() == 1 && cd.contacts@[0] == s.2,
            Option::None => sps_s(p.tvs(), ray_dir, a, b) is None,
        },
{
    let poly_verts = p.get_transformed_vertices();
    let n = poly_verts.len();
    let mut min_t: i64 = i64::MAX;
    let mut corner = Vec2 { x: 0, y: 0 };
    let mut i: usize = 0;
    while i < n
        invariant
            0 <= i <= n,
            n == poly_verts@.len(),
            poly_verts@ == p.tvs(),
            (min_t as int, corner) == sps_acc(p.tvs(), ray_dir, a, b, i as int),
        decreases n - i,
    {
        let vert = poly_verts[i];
        if let Option::Some(t) = ray_intersect_segment(vert, ray_dir, a, b) {
            if t < min_t {
                min_t = t;
                corner = vert;
            }
        }
        i = i + 1;
    }

    if min_t <= FX_ONE {
        let n0 = a.vsub(b).vperp().vnorm();
        let normal = if n0.vdot(ray_dir) < 0 { n0.vneg() } else { n0 };
        let mut contacts: Vec<Vec2> = Vec::new();
        contacts.push(corner.vadd(ray_dir));
        Option::Some(CollisionData { sep_or_t: min_t, normal, contacts })
    } else {
        Option::None
    }
}

/// The tolerance within which two candidate contact points count as the
/// same face-face contact.
pub const CONTACT_TOLERANCE: i64 = 50_000;

/// One update of the contact-search state
/// `(count, first, second, best squared distance)` with the closest
/// point of `p` on the segment `va..vb`.
pub open spec fn fc_step(st: (int, Vec2, Vec2, int), p: Vec2, va: Vec2, vb: Vec2) -> (int, Vec2, Vec2, int) {
    let dcp = psd_s(p, va, vb);
    let d = dcp.0;
    let cp = dcp.1;
    let st1 = if crate::fixed::nearly_equal_s(d, st.3, CONTACT_TOLERANCE as int)
        && !cp.nearly_equal_s(st.1, CONTACT_TOLERANCE as int) {
        (2, st.1, cp, st.3)
    } else {
        st
    };
    if d < st1.3 { (1, cp, st1.2, d) } else { st1 }
}

/// The state after testing `p` against the first `j` edges of `v2s`.
pub open spec fn fc_inner(st: (int, Vec2, Vec2, int), p: Vec2, v2s: Seq<Vec2>, j: int) -> (int, Vec2, Vec2, int)
    decreases j,
{
    if j <= 0 {
        st
    } else {
        let n = v2s.len() as int;
        fc_step(fc_inner(st, p, v2s, j - 1), p, v2s[j - 1], v2s[j % n])
    }
}

/// The state after testing the first `k` points of `v1s` against every
/// edge of `v2s`.
pub open spec fn fc_outer(st: (int, Vec2, Vec2, int), v1s: Seq<Vec2>, v2s: Seq<Vec2>, k: int) -> (int, Vec2, Vec2, int)
    decreases k,
{
    if k <= 0 {
        st
    } else {
        fc_inner(fc_outer(st, v1s, v2s, k - 1), v1s[k - 1], v2s, v2s.len() as int)
    }
}

/// The full contact-search state: points of `av` against edges of `bv`,
/// then points of `bv` against edges of `av`.
pub open spec fn fc_s(av: Seq<Vec2>, bv: Seq<Vec2>) -> (int, Vec2, Vec2, int) {
    let st0 = (0int, Vec2 { x: 0, y: 0 }, Vec2 { x: 0, y: 0 }, i64::MAX as int);
    fc_outer(fc_outer(st0, av, bv, av.len() as int), bv, av, bv.len() as int)
}

/// The contact list the search produces: nothing, the closest point, or
/// the closest point and a face-face partner.
pub open spec fn fc_contacts(av: Seq<Vec2>, bv: Seq<Vec2>) -> Seq<Vec2> {
    let st = fc_s(av, bv);
    if st.0 > 1 {
        seq![st.1, st.2]
    } else if st.0 > 0 {
        seq![st.1]
    } else {
        Seq::empty()
    }
}

/// One pass of the contact search: every point of `verts1` against
/// every edge of `verts2`, folded into the running state.
fn find_contacts_pass(
    state: (i64, Vec2, Vec2, i64),
    verts1: &Vec<Vec2>,
    verts2: &Vec<Vec2>,
) -> (r: (i64, Vec2, Vec2, i64))
    ensures
        (r.0 as int, r.1, r.2, r.3 as int)
            == fc_outer((state.0 as int, state.1, state.2, state.3 as int), verts1@, verts2@, verts1@.len() as int),
{
    let ghost st0 = (state.0 as int, state.1, state.2, state.3 as int);
    let mut count = state.0;
    let mut contact1 = state.1;
    let mut contact2 = state.2;
    let mut min_dist_sq = state.3;
    let n1 = verts1.len();
    let n2 = verts2.len();

    let mut k: usize = 0;
    while k < n1
        invariant
            0 <= k <= n1,
            n1 == verts1@.len(),
            n2 == verts2@.len(),
            (count as int, contact1, contact2, min_dist_sq as int)
                == fc_outer(st0, verts1@, verts2@, k as int),
        decreases n1 - k,
    {
        let p = verts1[k];
        let ghost stk = fc_outer(st0, verts1@, verts2@, k as int);
        let mut j: usize = 0;
        while j < n2
            invariant
                0 <= j <= n2,
                k < n1,
                n1 == verts1@.len(),
                n2 == verts2@.len(),
                p == verts1@[k as int],
                stk == fc_outer(st0, verts1@, verts2@, k as int),
                (count as int, contact1, contact2, min_dist_sq as int)
                    == fc_inner(stk, p, verts2@, j as int),
            decreases n2 - j,
        {
            let va = verts2[j];
            let vb = verts2[(j + 1) % n2];

            let (dist_sq, cp) = point_segment_distance(p, va, vb);

            if crate::fixed::nearly_equal(dist_sq, min_dist_sq, CONTACT_TOLERANCE)
                && !cp.nearly_equal(contact1, CONTACT_TOLERANCE) {
                contact2 = cp;
                count = 2;
            }

            if dist_sq < min_dist_sq {
                contact1 = cp;
                count = 1;
                min_dist_sq = dist_sq;
            }
            j = j + 1;
        }
        k = k + 1;
    }
    (count, contact1, contact2, min_dist_sq)
}

/// Up to two contact points between the two vertex loops: the globally
/// closest vertex-edge point, plus a second one within tolerance of the
/// same distance for face-face contact.
fn find_contacts(a_verts: &Vec<Vec2>, b_verts: &Vec<Vec2>) -> (r: Vec<Vec2>)
    ensures
        r@ == fc_contacts(a_verts@, b_verts@),
{
    let st0 = (0i64, Vec2 { x: 0, y: 0 }, Vec2 { x: 0, y: 0 }, i64::MAX);
    let st1 = find_contacts_pass(st0, a_verts, b_verts);
    let st2 = find_contacts_pass(st1, b_verts, a_verts);

    let mut out: Vec<Vec2> = Vec::new();
    if st2.0 > 1 {
        out.push(st2.1);
        out.push(st2.2);
    } else if st2.0 > 0 {
        out.push(st2.1);
    }
    proof {
        assert(out@ =~= fc_contacts(a_verts@, b_verts@));
    }
    out
}

/// Contact points between two polygons.
pub fn contact_poly_poly(a: &Polygon, b: &Polygon) -> (r: Vec<Vec2>)
    ensures
        r@ == fc_contacts(a.tvs(), b.tvs()),
{
    let a_verts = a.get_transformed_vertices();
    let b_verts = b.get_transformed_vertices();
    find_contacts(&a_verts, &b_verts)
}

/// Contact points between a polygon and the segment `a..b`.
pub fn contact_poly_segment(p: &Polygon, a: Vec2, b: Vec2) -> (r: Vec<Vec2>)
    ensures
        r@ == fc_contacts(p.tvs(), seq![a, b]),
{
    let a_verts = p.get_transformed_vertices();
    let mut b_verts: Vec<Vec2> = Vec::new();
    b_verts.push(a);
    b_verts.push(b);
    proof {
        assert(b_verts@ =~= seq![a, b]);
    }
    find_contacts(&a_verts, &b_verts)
}

/// The one contact point between a polygon and a circle: the closest
/// point of the polygon's boundary to the circle's centre.
pub fn contact_poly_circle(p: &Polygon, c: &Circle) -> (r: Vec<Vec2>)
    ensures
        r@.len() == 1,
        r@[0] == pc_cl_acc(p.tvs(), c.center, p.tvs().len() as int).1,
{
    let verts = p.get_transformed_vertices();
    let n = verts.len();
    let mut min_dist_sq: i64 = i64::MAX;
    let mut cp = Vec2 { x: 0, y: 0 };
    let mut i: usize = 0;
    while i < n
        invariant
            0 <= i <= n,
            n == verts@.len(),
            verts@ == p.tvs(),
            (min_dist_sq as int, cp) == pc_cl_acc(p.tvs(), c.center, i as int),
        decreases n - i,
    {
        let va = verts[i];
        let vb = verts[(i + 1) % n];

        let (dist_sq, contact) = point_segment_distance(c.center, va, vb);

        if dist_sq < min_dist_sq {
            cp = contact;
            min_dist_sq = dist_sq;
        }
        i = i + 1;
    }

    let mut out: Vec<Vec2> = Vec::new();
    out.push(cp);
    out
}

/// Model of `polygon_vs_segment`: the SAT axes of the polygon against
/// the two segment endpoints, and the segment's own axis against the
/// polygon, the normal pointing from the polygon toward the segment.
pub open spec fn pvs_s(pv: Seq<Vec2>, a: Vec2, b: Vec2) -> Option<(int, Vec2)> {
    pvp_s(pv, seq![a, b])
}

/// Polygon against a segment, with contact points from the shared
/// vertex-edge search.
pub fn polygon_vs_segment(p: &Polygon, a: Vec2, b: Vec2) -> (r: Option<CollisionData>)
    ensures
        match r {
            Option::Some(cd) => pvs_s(p.tvs(), a, b) == Option::Some((cd.sep_or_t as int, cd.normal))
                && cd.contacts@ == fc_contacts(p.tvs(), seq![a, b]),
            Option::None => pvs_s(p.tvs(), a, b) is None,
        },
{
    let poly_verts = p.get_transformed_vertices();
    let mut segment: Vec<Vec2> = Vec::new();
    segment.push(a);
    segment.push(b);
    proof {
        assert(segment@ =~= seq![a, b]);
    }

    if let Option::Some(poly_res) = find_min_separation(&poly_verts, &segment) {
        if let Option::Some(seg_res) = find_min_separation(&segment, &poly_verts) {
            let (sep, normal) = if poly_res.0 > seg_res.0 {
                (poly_res.0, poly_res.1)
            } else {
                (seg_res.0, seg_res.1.vneg())
            };
            let contacts = find_contacts(&poly_verts, &segment);
            return Option::Some(CollisionData { sep_or_t: sep, normal, contacts });
        }
        return Option::None;
    }
    Option::None
}

/// Model of `ray_intersects_aabb` along one axis: the entry and exit
/// parameters of the slab, or nothing when the ray runs parallel
/// outside it.
pub open spec fn slab_s(o: int, d: int, lo: int, hi: int) -> Option<(int, int)> {
    if d == 0 {
        if lo <= o <= hi { Option::Some((i64::MIN as int, i64::MAX as int)) } else { Option::None }
    } else {
        let ta = fxd(ssub(lo, o), d);
        let tb = fxd(ssub(hi, o), d);
        if d < 0 { Option::Some((tb, ta)) } else { Option::Some((ta, tb)) }
    }
}

/// Model of `ray_intersects_aabb`: slab intersection on both axes.
pub open spec fn riab_s(origin: Vec2, dir: Vec2, aabb: crate::aabb::Aabb) -> Option<int> {
    match slab_s(origin.x as int, dir.x as int, aabb.top_left.x as int, aabb.bottom_right.x as int) {
        Option::None => Option::None,
        Option::Some(tx) => match slab_s(origin.y as int, dir.y as int, aabb.top_left.y as int, aabb.bottom_right.y as int) {
            Option::None => Option::None,
            Option::Some(ty) => {
                if tx.0 > ty.1 || ty.0 > tx.1 {
                    Option::None
                } else {
                    let tmin = imax(tx.0, ty.0);
                    let tmax = imin(tx.1, ty.1);
                    if tmax < 0 { Option::None } else { Option::Some(imax(tmin, 0)) }
                }
            },
        },
    }
}

/// The slab test along one axis; a zero direction component hits the
/// slab only if the origin already lies inside it.
fn slab(o: i64, d: i64, lo: i64, hi: i64) -> (r: Option<(i64, i64)>)
    ensures
        match r {
            Option::Some(t) => slab_s(o as int, d as int, lo as int, hi as int)
                == Option::Some((t.0 as int, t.1 as int)),
            Option::None => slab_s(o as int, d as int, lo as int, hi as int) is None,
        },
{
    if d == 0 {
        if lo <= o && o <= hi {
            Option::Some((i64::MIN, i64::MAX))
        } else {
            Option::None
        }
    } else {
        let ta = fx_div(sat_sub(lo, o), d);
        let tb = fx_div(sat_sub(hi, o), d);
        if d < 0 { Option::Some((tb, ta)) } else { Option::Some((ta, tb)) }
    }
}

/// Distance along the ray to the box, if the ray meets it: the standard
/// slab method, used only to prune exact tests.
pub fn ray_intersects_aabb(ray_origin: Vec2, ray_dir: Vec2, aabb: &crate::aabb::Aabb) -> (r: Option<i64>)
    ensures
        match r {
            Option::Some(t) => riab_s(ray_origin, ray_dir, *aabb) == Option::Some(t as int),
            Option::None => riab_s(ray_origin, ray_dir, *aabb) is None,
        },
{
    let tx = match slab(ray_origin.x, ray_dir.x, aabb.top_left.x, aabb.bottom_right.x) {
        Option::Some(t) => t,
        Option::None => { return Option::None; },
    };
    let ty = match slab(ray_origin.y, ray_dir.y, aabb.top_left.y, aabb.bottom_right.y) {
        Option::Some(t) => t,
        Option::None => { return Option::None; },
    };

    if tx.0 > ty.1 || ty.0 > tx.1 {
        return Option::None;
    }

    let tmin = fx_max(tx.0, ty.0);
    let tmax = fx_min(tx.1, ty.1);

    if tmax < 0 {
        return Option::None;
    }

    Option::Some(fx_max(tmin, 0))
}

} // verus!
