//! Geometric primitives: circles and convex polygons, and the closed
//! shape union used by rigid bodies.
//!
//! A polygon caches its area and moment of inertia at construction; both
//! depend only on the local vertices, so translation and rotation leave
//! them untouched. Convexity and winding are a documented precondition of
//! the SAT tests, not validated here, matching the engine's contract.

use vstd::prelude::*;
use crate::fixed::{
    FX_ONE, FX_PI, FX_TWO_PI, fxm, fxd, sadd, ssub, sat64, iabs, tdiv, imin, imax,
    fx_mul, fx_div, sat_add, sat_sub, fx_abs, fx_min, fx_max, cos_s, sin_s, fx_cos, fx_sin,
};
use crate::vec2::Vec2;
use crate::aabb::Aabb;
use crate::collision::{psd_s, point_segment_distance};

verus! {

/// A circle; `rotation` only matters for attached soft-body joints and
/// for rendering.
#[derive(Clone, Copy, Debug, PartialEq, Eq, Structural)]
pub struct Circle {
    pub radius: i64,
    pub center: Vec2,
    pub rotation: i64,
}

impl Circle {
    /// Model of `area`: pi r^2.
    pub open spec fn area_s(self) -> int {
        fxm(fxm(self.radius as int, self.radius as int), FX_PI as int)
    }

    /// Model of `moment_of_inertia`: pi r^4 / 4 (about the centre,
    /// density left out).
    pub open spec fn moment_s(self) -> int {
        let r2 = fxm(self.radius as int, self.radius as int);
        tdiv(fxm(fxm(r2, r2), FX_PI as int), 4)
    }

    /// Model of `get_aabb`.
    pub open spec fn aabb_s(self) -> Aabb {
        let dims = Vec2 { x: self.radius, y: self.radius };
        Aabb { top_left: self.center.subs(dims), bottom_right: self.center.adds(dims) }
    }

    /// Model of `contains_point`: distance from the centre at most the
    /// radius.
    pub open spec fn contains_point_s(self, point: Vec2) -> bool {
        self.center.subs(point).len_s() <= self.radius
    }

    /// Model of `find_closest_surface_point`: the surface point on the ray
    /// from the centre through `point`, and the outward normal there.
    pub open spec fn closest_surface_s(self, point: Vec2) -> (Vec2, Vec2) {
        let cp = self.center.adds(point.subs(self.center).norm_s().scales(self.radius as int));
        let normal = cp.subs(self.center).norm_s();
        (cp, normal)
    }

    /// Build a circle.
    pub fn new(center: Vec2, radius: i64, rotation: i64) -> (r: Circle)
        ensures
            r == (Circle { radius, center, rotation }),
    {
        Circle { radius, center, rotation }
    }

    /// Area, pi r^2.
    pub fn area(&self) -> (r: i64)
        ensures
            r as int == self.area_s(),
    {
        fx_mul(fx_mul(self.radius, self.radius), FX_PI)
    }

    /// Moment of inertia about the centre, density left out.
    pub fn moment_of_inertia(&self) -> (r: i64)
        ensures
            r as int == self.moment_s(),
    {
        let r2 = fx_mul(self.radius, self.radius);
        fx_mul(fx_mul(r2, r2), FX_PI) / 4
    }

    /// World-space bounding box.
    pub fn get_aabb(&self) -> (r: Aabb)
        ensures
            r == self.aabb_s(),
    {
        let dims = Vec2 { x: self.radius, y: self.radius };
        Aabb { top_left: self.center.vsub(dims), bottom_right: self.center.vadd(dims) }
    }

    /// Is `point` inside the closed disc?
    pub fn contains_point(&self, point: Vec2) -> (r: bool)
        ensures
            r == self.contains_point_s(point),
    {
        self.center.vsub(point).vlen() <= self.radius
    }

    /// Closest surface point to `point`, with the outward normal there.
    pub fn find_closest_surface_point(&self, point: Vec2) -> (r: (Vec2, Vec2))
        ensures
            r == self.closest_surface_s(point),
    {
        let cp = self.center.vadd(point.vsub(self.center).vnorm().vscale(self.radius));
        let normal = cp.vsub(self.center).vnorm();
        (cp, normal)
    }
}

/// Saturating sum of the cross products of consecutive local vertices,
/// over the first `i` edges (wrapping at the end).
pub open spec fn cross_acc(vs: Seq<Vec2>, i: int) -> int
    decreases i,
{
    if i <= 0 || vs.len() == 0 {
        0
    } else {
        sadd(cross_acc(vs, i - 1), vs[i - 1].crosses(vs[i % vs.len() as int]))
    }
}

/// The polygon area that the cache holds: half the magnitude of the
/// signed cross sum.
pub open spec fn area_from(vs: Seq<Vec2>) -> int {
    tdiv(sat64(iabs(cross_acc(vs, vs.len() as int))), 2)
}

/// One term of the inertia sum for edge `k`.
pub open spec fn inertia_term(vs: Seq<Vec2>, k: int) -> int {
    let p1 = vs[k];
    let p2 = vs[(k + 1) % vs.len() as int];
    fxm(p1.crosses(p2), sadd(sadd(p1.dots(p1), p1.dots(p2)), p2.dots(p2)))
}

/// Saturating sum of the first `i` inertia terms.
pub open spec fn inertia_acc(vs: Seq<Vec2>, i: int) -> int
    decreases i,
{
    if i <= 0 || vs.len() == 0 {
        0
    } else {
        sadd(inertia_acc(vs, i - 1), inertia_term(vs, i - 1))
    }
}

/// The moment of inertia that the cache holds: the magnitude of the
/// twelfth of the signed sum.
pub open spec fn inertia_from(vs: Seq<Vec2>) -> int {
    sat64(iabs(tdiv(inertia_acc(vs, vs.len() as int), 12)))
}

/// A convex polygon: object-space vertices around a centre, plus the
/// cached area and moment of inertia.
#[derive(Clone, Debug)]
pub struct Polygon {
    pub local_vertices: Vec<Vec2>,
    pub center: Vec2,
    pub rotation: i64,
    pub area: i64,
    pub inertia: i64,
}

impl Polygon {
    /// The cached figures agree with the vertices, and there is at least
    /// one vertex.
    pub open spec fn wf(self) -> bool {
        self.local_vertices@.len() >= 1
        && self.area as int == area_from(self.local_vertices@)
        && self.inertia as int == inertia_from(self.local_vertices@)
    }

    /// Sum of consecutive cross products over all edges of `vs`.
    fn compute_cross_sum(vs: &Vec<Vec2>) -> (r: i64)
        ensures
            r as int == cross_acc(vs@, vs@.len() as int),
    {
        let n = vs.len();
        let mut sum: i64 = 0;
        let mut i: usize = 0;
        if n == 0 {
            return 0;
        }
        while i < n
            invariant
                0 <= i <= n,
                n == vs@.len(),
                n >= 1,
                sum as int == cross_acc(vs@, i as int),
            decreases n - i,
        {
            let p1 = vs[i];
            let p2 = vs[(i + 1) % n];
            sum = sat_add(sum, p1.vcross(p2));
            i = i + 1;
        }
        sum
    }

    /// Half the magnitude of the signed cross sum of the local vertices.
    fn compute_area(vs: &Vec<Vec2>) -> (r: i64)
        ensures
            r as int == area_from(vs@),
    {
        let sum = Self::compute_cross_sum(vs);
        fx_abs(sum) / 2
    }

    /// The standard signed-area-weighted inertia sum, halved twice and
    /// made positive.
    fn compute_moment_of_inertia(vs: &Vec<Vec2>) -> (r: i64)
        ensures
            r as int == inertia_from(vs@),
    {
        let n = vs.len();
        let mut sum: i64 = 0;
        let mut i: usize = 0;
        if n == 0 {
            return 0;
        }
        while i < n
            invariant
                0 <= i <= n,
                n == vs@.len(),
                n >= 1,
                sum as int == inertia_acc(vs@, i as int),
            decreases n - i,
        {
            let p1 = vs[i];
            let p2 = vs[(i + 1) % n];
            let dots = sat_add(sat_add(p1.vdot(p1), p1.vdot(p2)), p2.vdot(p2));
            sum = sat_add(sum, fx_mul(p1.vcross(p2), dots));
            i = i + 1;
        }
        fx_abs(sum / 12)
    }

    /// An axis-aligned rectangle of the given width and height around
    /// `center`.
    pub fn new_rectangle(center: Vec2, width: i64, height: i64, rotation: i64) -> (r: Polygon)
        requires
            0 <= width,
            0 <= height,
        ensures
            r.wf(),
            r.center == center,
            r.rotation == rotation,
            r.local_vertices@.len() == 4,
            r.local_vertices@[0] == (Vec2 { x: (-(tdiv(width as int, 2))) as i64, y: (-(tdiv(height as int, 2))) as i64 }),
            r.local_vertices@[1] == (Vec2 { x: tdiv(width as int, 2) as i64, y: (-(tdiv(height as int, 2))) as i64 }),
            r.local_vertices@[2] == (Vec2 { x: tdiv(width as int, 2) as i64, y: tdiv(height as int, 2) as i64 }),
            r.local_vertices@[3] == (Vec2 { x: (-(tdiv(width as int, 2))) as i64, y: tdiv(height as int, 2) as i64 }),
    {
        let half_width = width / 2;
        let half_height = height / 2;
        let mut local_verts: Vec<Vec2> = Vec::new();
        local_verts.push(Vec2 { x: -half_width, y: -half_height });
        local_verts.push(Vec2 { x: half_width, y: -half_height });
        local_verts.push(Vec2 { x: half_width, y: half_height });
        local_verts.push(Vec2 { x: -half_width, y: half_height });

        let area = Self::compute_area(&local_verts);
        let inertia = Self::compute_moment_of_inertia(&local_verts);
        Polygon { local_vertices: local_verts, center, rotation, area, inertia }
    }

    /// A square of the given side length.
    pub fn new_square(position: Vec2, size: i64, rotation: i64) -> (r: Polygon)
        requires
            0 <= size,
        ensures
            r.wf(),
            r.center == position,
            r.rotation == rotation,
            r.local_vertices@.len() == 4,
    {
        Self::new_rectangle(position, size, size, rotation)
    }

    /// The angle of the `i`-th vertex of a regular polygon.
    pub open spec fn reg_angle(start: int, inc: int, i: int) -> int
        decreases i,
    {
        if i <= 0 { start } else { sadd(Self::reg_angle(start, inc, i - 1), inc) }
    }

    /// The `i`-th vertex of a regular polygon of the given radius.
    pub open spec fn reg_vertex(radius: int, start: int, inc: int, i: int) -> Vec2 {
        let a = Self::reg_angle(start, inc, i);
        Vec2 { x: fxm(radius, cos_s(a)) as i64, y: fxm(radius, sin_s(a)) as i64 }
    }

    /// The angle step between vertices of a regular `n`-gon.
    pub open spec fn regular_inc(n: int) -> int {
        fxd(FX_TWO_PI as int, n * FX_ONE as int)
    }

    /// The starting angle of a regular `n`-gon: 270 degrees, shifted by
    /// half a step for even `n`.
    pub open spec fn regular_start(n: int) -> int {
        let base = fxd(fxm(FX_PI as int, 270 * FX_ONE as int), 180 * FX_ONE as int);
        if n % 2 == 0 { sadd(base, tdiv(Self::regular_inc(n), 2)) } else { base }
    }

    /// A regular polygon with `n_sides` vertices on a circle of the given
    /// radius, the lowest vertex (or edge, for even counts) facing down.
    pub fn new_regular_polygon(n_sides: u32, radius: i64, center: Vec2, rotation: i64) -> (r: Polygon)
        requires
            1 <= n_sides,
        ensures
            r.wf(),
            r.center == center,
            r.rotation == rotation,
            r.local_vertices@.len() == n_sides as int,
            forall|k: int| 0 <= k < n_sides as int ==> r.local_vertices@[k]
                == Self::reg_vertex(radius as int, Self::regular_start(n_sides as int), Self::regular_inc(n_sides as int), k),
    {
        let base = fx_div(fx_mul(FX_PI, 270_000_000), 180_000_000);
        let inc = fx_div(FX_TWO_PI, (n_sides as i64) * FX_ONE);
        let start: i64 = if n_sides % 2 == 0 { sat_add(base, inc / 2) } else { base };
        proof {
            assert(inc as int >= 0);
            assert(start as int == Self::regular_start(n_sides as int));
            assert(inc as int == Self::regular_inc(n_sides as int));
        }

        let ghost rs = Self::regular_start(n_sides as int);
        let ghost ri = Self::regular_inc(n_sides as int);
        let mut local_verts: Vec<Vec2> = Vec::new();
        let mut angle: i64 = start;
        let mut i: usize = 0;
        while i < n_sides as usize
            invariant
                0 <= i <= n_sides as usize,
                n_sides >= 1,
                inc as int == ri,
                local_verts@.len() == i as int,
                angle as int == Self::reg_angle(rs, ri, i as int),
                forall|k: int| 0 <= k < i as int ==> local_verts@[k]
                    == Self::reg_vertex(radius as int, rs, ri, k),
            decreases n_sides as usize - i,
        {
            let x = fx_mul(radius, fx_cos(angle));
            let y = fx_mul(radius, fx_sin(angle));
            local_verts.push(Vec2 { x, y });
            proof {
                assert(Self::reg_angle(rs, ri, i as int + 1)
                    == sadd(Self::reg_angle(rs, ri, i as int), ri));
            }
            angle = sat_add(angle, inc);
            i = i + 1;
        }

        let area = Self::compute_area(&local_verts);
        let inertia = Self::compute_moment_of_inertia(&local_verts);
        Polygon { local_vertices: local_verts, center, rotation, area, inertia }
    }

    /// The edge-length weight of vertex `i` in the centre computation:
    /// the summed lengths of the two edges that meet there.
    pub open spec fn center_weight(vs: Seq<Vec2>, i: int) -> int {
        let n = vs.len() as int;
        let next = if i == n - 1 { 0 } else { i + 1 };
        let prev = if i == 0 { n - 1 } else { i - 1 };
        sadd(
            vs[i].subs(vs[next]).len_s(),
            vs[i].subs(vs[prev]).len_s(),
        )
    }

    /// Saturating sum of the first `i` centre weights.
    pub open spec fn wsum_acc(vs: Seq<Vec2>, i: int) -> int
        decreases i,
    {
        if i <= 0 { 0 } else { sadd(Self::wsum_acc(vs, i - 1), Self::center_weight(vs, i - 1)) }
    }

    /// Saturating weighted sum of the first `i` vertices.
    pub open spec fn wpos_acc(vs: Seq<Vec2>, i: int) -> Vec2
        decreases i,
    {
        if i <= 0 {
            Vec2 { x: 0, y: 0 }
        } else {
            Self::wpos_acc(vs, i - 1).adds(vs[i - 1].scales(Self::center_weight(vs, i - 1)))
        }
    }

    /// The edge-length-weighted centre of a vertex loop.
    pub open spec fn center_from(vs: Seq<Vec2>) -> Vec2 {
        Self::wpos_acc(vs, vs.len() as int).divs(Self::wsum_acc(vs, vs.len() as int))
    }

    /// A polygon from world-space vertices: the weighted centre is
    /// subtracted out, and the body is placed at `center_pos`.
    pub fn new(vertices: Vec<Vec2>, center_pos: Vec2, rotation: i64) -> (r: Polygon)
        requires
            vertices@.len() >= 2,
        ensures
            r.wf(),
            r.center == center_pos,
            r.rotation == rotation,
            r.local_vertices@.len() == vertices@.len(),
            forall|k: int| 0 <= k < vertices@.len() ==> r.local_vertices@[k]
                == vertices@[k].subs(Self::center_from(vertices@)),
    {
        let n = vertices.len();
        let mut wsum: i64 = 0;
        let mut wpos = Vec2 { x: 0, y: 0 };
        let mut i: usize = 0;
        while i < n
            invariant
                0 <= i <= n,
                n == vertices@.len(),
                n >= 2,
                wsum as int == Self::wsum_acc(vertices@, i as int),
                wpos == Self::wpos_acc(vertices@, i as int),
            decreases n - i,
        {
            let curr = vertices[i];
            let next = vertices[if i == n - 1 { 0 } else { i + 1 }];
            let prev = vertices[if i == 0 { n - 1 } else { i - 1 }];
            let weight = sat_add(curr.vsub(next).vlen(), curr.vsub(prev).vlen());
            wpos = wpos.vadd(curr.vscale(weight));
            wsum = sat_add(wsum, weight);
            i = i + 1;
        }
        let center = wpos.vdivs(wsum);

        let mut localized: Vec<Vec2> = Vec::new();
        let mut j: usize = 0;
        while j < n
            invariant
                0 <= j <= n,
                n == vertices@.len(),
                center == Self::center_from(vertices@),
                localized@.len() == j as int,
                forall|k: int| 0 <= k < j as int ==> localized@[k] == vertices@[k].subs(center),
            decreases n - j,
        {
            localized.push(vertices[j].vsub(center));
            j = j + 1;
        }

        let area = Self::compute_area(&localized);
        let inertia = Self::compute_moment_of_inertia(&localized);
        Polygon { local_vertices: localized, center: center_pos, rotation, area, inertia }
    }

    /// The `k`-th world-space vertex.
    pub open spec fn tv(self, k: int) -> Vec2 {
        self.local_vertices@[k].rots(self.rotation as int).adds(self.center)
    }

    /// All world-space vertices, as a sequence.
    pub open spec fn tvs(self) -> Seq<Vec2> {
        Seq::new(self.local_vertices@.len(), |k: int| self.tv(k))
    }

    /// Local vertices carried into world space: rotated, then shifted to
    /// the centre.
    pub fn get_transformed_vertices(&self) -> (r: Vec<Vec2>)
        ensures
            r@.len() == self.local_vertices@.len(),
            forall|k: int| 0 <= k < r@.len() ==> r@[k] == self.tv(k),
            r@ == self.tvs(),
    {
        let n = self.local_vertices.len();
        let mut out: Vec<Vec2> = Vec::new();
        let mut i: usize = 0;
        while i < n
            invariant
                0 <= i <= n,
                n == self.local_vertices@.len(),
                out@.len() == i as int,
                forall|k: int| 0 <= k < i as int ==> out@[k] == self.tv(k),
            decreases n - i,
        {
            out.push(self.local_vertices[i].vrot(self.rotation).vadd(self.center));
            i = i + 1;
        }
        proof {
            assert(out@ =~= self.tvs());
        }
        out
    }

    /// Smallest x among the first `i` world vertices.
    pub open spec fn minx_acc(self, i: int) -> int
        decreases i,
    {
        if i <= 0 { i64::MAX as int } else { imin(self.minx_acc(i - 1), self.tv(i - 1).x as int) }
    }

    /// Largest x among the first `i` world vertices.
    pub open spec fn maxx_acc(self, i: int) -> int
        decreases i,
    {
        if i <= 0 { i64::MIN as int } else { imax(self.maxx_acc(i - 1), self.tv(i - 1).x as int) }
    }

    /// Smallest y among the first `i` world vertices.
    pub open spec fn miny_acc(self, i: int) -> int
        decreases i,
    {
        if i <= 0 { i64::MAX as int } else { imin(self.miny_acc(i - 1), self.tv(i - 1).y as int) }
    }

    /// Largest y among the first `i` world vertices.
    pub open spec fn maxy_acc(self, i: int) -> int
        decreases i,
    {
        if i <= 0 { i64::MIN as int } else { imax(self.maxy_acc(i - 1), self.tv(i - 1).y as int) }
    }

    /// Model of `get_aabb`: the extremes of the world vertices.
    pub open spec fn aabb_s(self) -> Aabb {
        let n = self.local_vertices@.len() as int;
        Aabb {
            top_left: Vec2 { x: self.minx_acc(n) as i64, y: self.miny_acc(n) as i64 },
            bottom_right: Vec2 { x: self.maxx_acc(n) as i64, y: self.maxy_acc(n) as i64 },
        }
    }

    /// World-space bounding box of the vertices.
    pub fn get_aabb(&self) -> (r: Aabb)
        ensures
            r == self.aabb_s(),
    {
        let verts = self.get_transformed_vertices();
        let n = verts.len();
        let mut min_x: i64 = i64::MAX;
        let mut max_x: i64 = i64::MIN;
        let mut min_y: i64 = i64::MAX;
        let mut max_y: i64 = i64::MIN;
        let mut i: usize = 0;
        while i < n
            invariant
                0 <= i <= n,
                n == self.local_vertices@.len(),
                forall|k: int| 0 <= k < n as int ==> #[trigger] verts@[k] == self.tv(k),
                verts@.len() == n,
                min_x as int == self.minx_acc(i as int),
                max_x as int == self.maxx_acc(i as int),
                min_y as int == self.miny_acc(i as int),
                max_y as int == self.maxy_acc(i as int),
            decreases n - i,
        {
            let v = verts[i];
            min_x = fx_min(min_x, v.x);
            max_x = fx_max(max_x, v.x);
            min_y = fx_min(min_y, v.y);
            max_y = fx_max(max_y, v.y);
            i = i + 1;
        }
        Aabb {
            top_left: Vec2 { x: min_x, y: min_y },
            bottom_right: Vec2 { x: max_x, y: max_y },
        }
    }

    /// The exact winding sign of `point` against world edge `k`: positive
    /// when `point` lies on one side, negative on the other.
    pub open spec fn edge_d(self, point: Vec2, k: int) -> int {
        let n = self.local_vertices@.len() as int;
        let v1 = self.tv(k);
        let v2 = self.tv((k + 1) % n);
        ssub(point.x as int, v1.x as int) * ssub(v2.y as int, v1.y as int)
            - ssub(point.y as int, v1.y as int) * ssub(v2.x as int, v1.x as int)
    }

    /// Model of `contains_point`: every edge sees the point with the same
    /// winding sign (boundary counts as inside).
    pub open spec fn contains_point_s(self, point: Vec2) -> bool {
        let n = self.local_vertices@.len() as int;
        (forall|k: int| 0 <= k < n ==> #[trigger] self.edge_d(point, k) >= 0)
            || (forall|k: int| 0 <= k < n ==> #[trigger] self.edge_d(point, k) <= 0)
    }

    /// Winding-sign containment test; fails closed on mixed signs.
    pub fn contains_point(&self, point: Vec2) -> (r: bool)
        ensures
            r == self.contains_point_s(point),
    {
        let verts = self.get_transformed_vertices();
        let n = verts.len();
        let mut pos: usize = 0;
        let mut neg: usize = 0;

        let mut i: usize = 0;
        while i < n
            invariant
                0 <= i <= n,
                n == self.local_vertices@.len(),
                verts@.len() == n,
                forall|k: int| 0 <= k < n as int ==> #[trigger] verts@[k] == self.tv(k),
                (pos == 0) == (forall|k: int| 0 <= k < i as int ==> #[trigger] self.edge_d(point, k) <= 0),
                (neg == 0) == (forall|k: int| 0 <= k < i as int ==> #[trigger] self.edge_d(point, k) >= 0),
                pos == 0 || neg == 0,
                pos <= i && neg <= i,
            decreases n - i,
        {
            let v1 = verts[i];
            let v2 = verts[(i + 1) % n];

            let dx1 = sat_sub(point.x, v1.x);
            let dy2 = sat_sub(v2.y, v1.y);
            let dy1 = sat_sub(point.y, v1.y);
            let dx2 = sat_sub(v2.x, v1.x);
            proof {
                lemma_prod_range(dx1 as int, dy2 as int);
                lemma_prod_range(dy1 as int, dx2 as int);
            }
            let d: i128 = (dx1 as i128) * (dy2 as i128) - (dy1 as i128) * (dx2 as i128);
            proof {
                assert(d as int == self.edge_d(point, i as int));
            }

            if d > 0 {
                pos = pos + 1;
            }
            if d < 0 {
                neg = neg + 1;
            }

            if pos > 0 && neg > 0 {
                proof {
                    assert(!(forall|k: int| 0 <= k < self.local_vertices@.len() as int
                        ==> #[trigger] self.edge_d(point, k) <= 0));
                    assert(!(forall|k: int| 0 <= k < self.local_vertices@.len() as int
                        ==> #[trigger] self.edge_d(point, k) >= 0));
                }
                return false;
            }
            i = i + 1;
        }

        true
    }

    /// Running argmin state of the closest-surface search after `i` edges:
    /// best squared distance, best closest point, best edge vector.
    pub open spec fn closest_acc(self, point: Vec2, i: int) -> (int, Vec2, Vec2)
        decreases i,
    {
        if i <= 0 {
            (i64::MAX as int, Vec2 { x: 0, y: 0 }, Vec2 { x: 0, y: 0 })
        } else {
            let n = self.local_vertices@.len() as int;
            let prev = self.closest_acc(point, i - 1);
            let a = self.tv(i - 1);
            let b = self.tv(i % n);
            let dcp = psd_s(point, a, b);
            if dcp.0 < prev.0 {
                (dcp.0, dcp.1, a.subs(b))
            } else {
                prev
            }
        }
    }

    /// Model of `find_closest_surface_point`: the closest point over all
    /// edges and the outward-ish normal of the winning edge.
    pub open spec fn closest_surface_s(self, point: Vec2) -> (Vec2, Vec2) {
        let best = self.closest_acc(point, self.local_vertices@.len() as int);
        (best.1, best.2.perps().norm_s())
    }

    /// Closest point on the polygon's boundary to `point`, with the
    /// normal of the edge it lies on.
    pub fn find_closest_surface_point(&self, point: Vec2) -> (r: (Vec2, Vec2))
        ensures
            r == self.closest_surface_s(point),
    {
        let verts = self.get_transformed_vertices();
        let n = verts.len();
        let mut edge = Vec2 { x: 0, y: 0 };
        let mut closest_point = Vec2 { x: 0, y: 0 };
        let mut distance: i64 = i64::MAX;
        let mut i: usize = 0;
        while i < n
            invariant
                0 <= i <= n,
                n == self.local_vertices@.len(),
                verts@.len() == n,
                forall|k: int| 0 <= k < n as int ==> #[trigger] verts@[k] == self.tv(k),
                (distance as int, closest_point, edge) == self.closest_acc(point, i as int),
            decreases n - i,
        {
            let a = verts[i];
            let b = verts[(i + 1) % n];
            let (dist, cp) = point_segment_distance(point, a, b);
            if dist < distance {
                closest_point = cp;
                distance = dist;
                edge = a.vsub(b);
            }
            i = i + 1;
        }
        (closest_point, edge.vperp().vnorm())
    }
}

/// A product of two `i64` values lies well inside the `i128` range.
proof fn lemma_prod_range(a: int, b: int)
    requires
        i64::MIN <= a <= i64::MAX,
        i64::MIN <= b <= i64::MAX,
    ensures
        -0x4000_0000_0000_0000_0000_0000_0000_0000 + 0x8000_0000_0000_0000 <= a * b
            <= 0x4000_0000_0000_0000_0000_0000_0000_0000,
{
    assert(-0x4000_0000_0000_0000_0000_0000_0000_0000 + 0x8000_0000_0000_0000 <= a * b
            <= 0x4000_0000_0000_0000_0000_0000_0000_0000) by (nonlinear_arith)
        requires
            -0x8000_0000_0000_0000 <= a <= 0x7fff_ffff_ffff_ffff,
            -0x8000_0000_0000_0000 <= b <= 0x7fff_ffff_ffff_ffff,
    ;
}

/// The closed set of shapes a rigid body can have.
#[derive(Clone, Debug)]
pub enum ShapeType {
    Circle(Circle),
    Polygon(Polygon),
}

impl ShapeType {
    /// A shape is well formed when its polygon caches agree with its
    /// vertices; circles carry no caches.
    pub open spec fn wf(self) -> bool {
        match self {
            ShapeType::Circle(c) => true,
            ShapeType::Polygon(p) => p.wf(),
        }
    }

    /// Model of `area`.
    pub open spec fn area_s(self) -> int {
        match self {
            ShapeType::Circle(c) => c.area_s(),
            ShapeType::Polygon(p) => area_from(p.local_vertices@),
        }
    }

    /// Model of `moment_of_inertia`.
    pub open spec fn moment_s(self) -> int {
        match self {
            ShapeType::Circle(c) => c.moment_s(),
            ShapeType::Polygon(p) => inertia_from(p.local_vertices@),
        }
    }

    /// Model of `get_center`.
    pub open spec fn center_s(self) -> Vec2 {
        match self {
            ShapeType::Circle(c) => c.center,
            ShapeType::Polygon(p) => p.center,
        }
    }

    /// Model of `get_rotation`.
    pub open spec fn rotation_s(self) -> int {
        match self {
            ShapeType::Circle(c) => c.rotation as int,
            ShapeType::Polygon(p) => p.rotation as int,
        }
    }

    /// Model of `contains_point`.
    pub open spec fn contains_point_s(self, point: Vec2) -> bool {
        match self {
            ShapeType::Circle(c) => c.contains_point_s(point),
            ShapeType::Polygon(p) => p.contains_point_s(point),
        }
    }

    /// Model of `find_closest_surface_point`.
    pub open spec fn closest_surface_s(self, point: Vec2) -> (Vec2, Vec2) {
        match self {
            ShapeType::Circle(c) => c.closest_surface_s(point),
            ShapeType::Polygon(p) => p.closest_surface_s(point),
        }
    }

    /// Model of `get_aabb`.
    pub open spec fn aabb_s(self) -> Aabb {
        match self {
            ShapeType::Circle(c) => c.aabb_s(),
            ShapeType::Polygon(p) => p.aabb_s(),
        }
    }

    /// Model of `translate`.
    pub open spec fn translate_s(self, t: Vec2) -> ShapeType {
        match self {
            ShapeType::Circle(c) => ShapeType::Circle(Circle { center: c.center.adds(t), ..c }),
            ShapeType::Polygon(p) => ShapeType::Polygon(Polygon { center: p.center.adds(t), ..p }),
        }
    }

    /// Model of `rotate`.
    pub open spec fn rotate_s(self, radians: int) -> ShapeType {
        match self {
            ShapeType::Circle(c) => ShapeType::Circle(
                Circle { rotation: sadd(c.rotation as int, radians) as i64, ..c },
            ),
            ShapeType::Polygon(p) => ShapeType::Polygon(
                Polygon { rotation: sadd(p.rotation as int, radians) as i64, ..p },
            ),
        }
    }

    /// Surface area (in 2D: the enclosed area).
    pub fn area(&self) -> (r: i64)
        requires
            self.wf(),
        ensures
            r as int == self.area_s(),
    {
        match self {
            ShapeType::Circle(c) => c.area(),
            ShapeType::Polygon(p) => p.area,
        }
    }

    /// Moment of inertia about the centre, density left out.
    pub fn moment_of_inertia(&self) -> (r: i64)
        requires
            self.wf(),
        ensures
            r as int == self.moment_s(),
    {
        match self {
            ShapeType::Circle(c) => c.moment_of_inertia(),
            ShapeType::Polygon(p) => p.inertia,
        }
    }

    /// World-space centre.
    pub fn get_center(&self) -> (r: Vec2)
        ensures
            r == self.center_s(),
    {
        match self {
            ShapeType::Circle(c) => c.center,
            ShapeType::Polygon(p) => p.center,
        }
    }

    /// Move the shape to an absolute position.
    pub fn set_center(&mut self, position: Vec2)
        ensures
            *final(self) == match *old(self) {
                ShapeType::Circle(c) => ShapeType::Circle(Circle { center: position, ..c }),
                ShapeType::Polygon(p) => ShapeType::Polygon(Polygon { center: position, ..p }),
            },
    {
        match self {
            ShapeType::Circle(c) => c.center = position,
            ShapeType::Polygon(p) => p.center = position,
        }
    }

    /// Shift the shape by a displacement.
    pub fn translate(&mut self, translation: Vec2)
        ensures
            *final(self) == old(self).translate_s(translation),
    {
        match self {
            ShapeType::Circle(c) => c.center = c.center.vadd(translation),
            ShapeType::Polygon(p) => p.center = p.center.vadd(translation),
        }
    }

    /// Current rotation in fixed-point radians.
    pub fn get_rotation(&self) -> (r: i64)
        ensures
            r as int == self.rotation_s(),
    {
        match self {
            ShapeType::Circle(c) => c.rotation,
            ShapeType::Polygon(p) => p.rotation,
        }
    }

    /// Set the rotation to an absolute angle.
    pub fn set_rotation(&mut self, rotation: i64)
        ensures
            *final(self) == match *old(self) {
                ShapeType::Circle(c) => ShapeType::Circle(Circle { rotation: rotation, ..c }),
                ShapeType::Polygon(p) => ShapeType::Polygon(Polygon { rotation: rotation, ..p }),
            },
    {
        match self {
            ShapeType::Circle(c) => c.rotation = rotation,
            ShapeType::Polygon(p) => p.rotation = rotation,
        }
    }

    /// Turn the shape by a relative angle.
    pub fn rotate(&mut self, radians: i64)
        ensures
            *final(self) == old(self).rotate_s(radians as int),
    {
        match self {
            ShapeType::Circle(c) => c.rotation = sat_add(c.rotation, radians),
            ShapeType::Polygon(p) => p.rotation = sat_add(p.rotation, radians),
        }
    }

    /// Is `point` inside the shape?
    pub fn contains_point(&self, point: Vec2) -> (r: bool)
        ensures
            r == self.contains_point_s(point),
    {
        match self {
            ShapeType::Circle(c) => c.contains_point(point),
            ShapeType::Polygon(p) => p.contains_point(point),
        }
    }

    /// Closest surface point and its normal.
    pub fn find_closest_surface_point(&self, point: Vec2) -> (r: (Vec2, Vec2))
        ensures
            r == self.closest_surface_s(point),
    {
        match self {
            ShapeType::Circle(c) => c.find_closest_surface_point(point),
            ShapeType::Polygon(p) => p.find_closest_surface_point(point),
        }
    }

    /// World-space bounding box.
    pub fn get_aabb(&self) -> (r: Aabb)
        ensures
            r == self.aabb_s(),
    {
        match self {
            ShapeType::Circle(c) => c.get_aabb(),
            ShapeType::Polygon(p) => p.get_aabb(),
        }
    }
}

} // verus!
