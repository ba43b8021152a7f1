//! 2D vectors over fixed-point scalars.
//!
//! Each executable operation is pinned exactly to a spec-level mirror
//! (`adds`, `dots`, `len_s`, ...), so contracts further up can state whole
//! geometric computations as equalities.

use vstd::prelude::*;
use crate::fixed::{
    sadd, ssub, sneg, fxm, fxd, sat64, sqrt_floor, iabs, cos_s, sin_s,
    sat_add, sat_sub, sat_neg, fx_mul, fx_div, fx_cos, fx_sin, fx_abs,
    isqrt_u128, lemma_sqrt_floor, lemma_i64_prod_fits,
};

verus! {

/// A 2D vector; both coordinates are fixed-point scalars.
#[derive(Clone, Copy, Debug, PartialEq, Eq, Structural)]
pub struct Vec2 {
    pub x: i64,
    pub y: i64,
}

impl Vec2 {
    /// Model of `vadd`.
    pub open spec fn adds(self, o: Vec2) -> Vec2 {
        Vec2 { x: sadd(self.x as int, o.x as int) as i64, y: sadd(self.y as int, o.y as int) as i64 }
    }

    /// Model of `vsub`.
    pub open spec fn subs(self, o: Vec2) -> Vec2 {
        Vec2 { x: ssub(self.x as int, o.x as int) as i64, y: ssub(self.y as int, o.y as int) as i64 }
    }

    /// Model of `vneg`.
    pub open spec fn negs(self) -> Vec2 {
        Vec2 { x: sneg(self.x as int) as i64, y: sneg(self.y as int) as i64 }
    }

    /// Model of `vperp`.
    pub open spec fn perps(self) -> Vec2 {
        Vec2 { x: sneg(self.y as int) as i64, y: self.x }
    }

    /// Model of `vscale`.
    pub open spec fn scales(self, k: int) -> Vec2 {
        Vec2 { x: fxm(self.x as int, k) as i64, y: fxm(self.y as int, k) as i64 }
    }

    /// Model of `vdivs`.
    pub open spec fn divs(self, k: int) -> Vec2 {
        Vec2 { x: fxd(self.x as int, k) as i64, y: fxd(self.y as int, k) as i64 }
    }

    /// Model of `vdot`.
    pub open spec fn dots(self, o: Vec2) -> int {
        sadd(fxm(self.x as int, o.x as int), fxm(self.y as int, o.y as int))
    }

    /// Model of `vcross`.
    pub open spec fn crosses(self, o: Vec2) -> int {
        ssub(fxm(self.x as int, o.y as int), fxm(self.y as int, o.x as int))
    }

    /// Model of `vlen2`.
    pub open spec fn len2_s(self) -> int {
        sadd(fxm(self.x as int, self.x as int), fxm(self.y as int, self.y as int))
    }

    /// Model of `vlen`: the exact magnitude of the raw coordinate pair,
    /// rounded down.
    pub open spec fn len_s(self) -> int {
        sat64(sqrt_floor((self.x as int * self.x as int + self.y as int * self.y as int) as nat) as int)
    }

    /// Model of `vnorm`.
    pub open spec fn norm_s(self) -> Vec2 {
        let l = self.len_s();
        if l == 0 { Vec2 { x: 0, y: 0 } } else { Vec2 { x: fxd(self.x as int, l) as i64, y: fxd(self.y as int, l) as i64 } }
    }

    /// Model of `vrot`.
    pub open spec fn rots(self, angle: int) -> Vec2 {
        let c = cos_s(angle);
        let s = sin_s(angle);
        Vec2 {
            x: ssub(fxm(self.x as int, c), fxm(self.y as int, s)) as i64,
            y: sadd(fxm(self.x as int, s), fxm(self.y as int, c)) as i64,
        }
    }

    /// Model of `nearly_equal`: both saturated coordinate differences are
    /// within `eps`.
    pub open spec fn nearly_equal_s(self, o: Vec2, eps: int) -> bool {
        sat64(iabs(ssub(self.x as int, o.x as int))) <= eps
            && sat64(iabs(ssub(self.y as int, o.y as int))) <= eps
    }

    /// The origin.
    pub fn zero() -> (r: Vec2)
        ensures
            r == (Vec2 { x: 0i64, y: 0i64 }),
    {
        Vec2 { x: 0, y: 0 }
    }

    /// Build a vector from its coordinates.
    pub fn new(x: i64, y: i64) -> (r: Vec2)
        ensures
            r == (Vec2 { x: x, y: y }),
    {
        Vec2 { x, y }
    }

    /// Component-wise sum.
    pub fn vadd(self, o: Vec2) -> (r: Vec2)
        ensures
            r == self.adds(o),
    {
        Vec2 { x: sat_add(self.x, o.x), y: sat_add(self.y, o.y) }
    }

    /// Component-wise difference.
    pub fn vsub(self, o: Vec2) -> (r: Vec2)
        ensures
            r == self.subs(o),
    {
        Vec2 { x: sat_sub(self.x, o.x), y: sat_sub(self.y, o.y) }
    }

    /// Negation.
    pub fn vneg(self) -> (r: Vec2)
        ensures
            r == self.negs(),
    {
        Vec2 { x: sat_neg(self.x), y: sat_neg(self.y) }
    }

    /// Rotation by a quarter turn counter-clockwise.
    pub fn vperp(self) -> (r: Vec2)
        ensures
            r == self.perps(),
    {
        Vec2 { x: sat_neg(self.y), y: self.x }
    }

    /// Scaling by a fixed-point factor.
    pub fn vscale(self, k: i64) -> (r: Vec2)
        ensures
            r == self.scales(k as int),
    {
        Vec2 { x: fx_mul(self.x, k), y: fx_mul(self.y, k) }
    }

    /// Division by a fixed-point factor.
    pub fn vdivs(self, k: i64) -> (r: Vec2)
        ensures
            r == self.divs(k as int),
    {
        Vec2 { x: fx_div(self.x, k), y: fx_div(self.y, k) }
    }

    /// Dot product.
    pub fn vdot(self, o: Vec2) -> (r: i64)
        ensures
            r as int == self.dots(o),
    {
        sat_add(fx_mul(self.x, o.x), fx_mul(self.y, o.y))
    }

    /// 2D scalar cross product.
    pub fn vcross(self, o: Vec2) -> (r: i64)
        ensures
            r as int == self.crosses(o),
    {
        sat_sub(fx_mul(self.x, o.y), fx_mul(self.y, o.x))
    }

    /// Squared magnitude (saturating).
    pub fn vlen2(self) -> (r: i64)
        ensures
            r as int == self.len2_s(),
    {
        sat_add(fx_mul(self.x, self.x), fx_mul(self.y, self.y))
    }

    /// Magnitude.
    pub fn vlen(self) -> (r: i64)
        ensures
            r as int == self.len_s(),
            r >= 0,
    {
        proof {
            lemma_sq_bounds(self.x as int);
            lemma_sq_bounds(self.y as int);
        }
        let sx: u128 = ((self.x as i128) * (self.x as i128)) as u128;
        let sy: u128 = ((self.y as i128) * (self.y as i128)) as u128;
        let s: u128 = sx + sy;
        let r = isqrt_u128(s);
        proof {
            lemma_sqrt_floor(s as nat);
        }
        if r > i64::MAX as u128 {
            i64::MAX
        } else {
            r as i64
        }
    }

    /// Unit vector in the direction of `self`; zero for the zero vector.
    pub fn vnorm(self) -> (r: Vec2)
        ensures
            r == self.norm_s(),
    {
        let l = self.vlen();
        if l == 0 {
            Vec2 { x: 0, y: 0 }
        } else {
            Vec2 { x: fx_div(self.x, l), y: fx_div(self.y, l) }
        }
    }

    /// Rotation by an angle in fixed-point radians.
    pub fn vrot(self, angle: i64) -> (r: Vec2)
        ensures
            r == self.rots(angle as int),
    {
        let c = fx_cos(angle);
        let s = fx_sin(angle);
        Vec2 {
            x: sat_sub(fx_mul(self.x, c), fx_mul(self.y, s)),
            y: sat_add(fx_mul(self.x, s), fx_mul(self.y, c)),
        }
    }

    /// Are the two vectors within `eps` of each other on both axes?
    pub fn nearly_equal(self, o: Vec2, eps: i64) -> (r: bool)
        requires
            eps >= 0,
        ensures
            r == self.nearly_equal_s(o, eps as int),
    {
        let dx = sat_sub(self.x, o.x);
        let dy = sat_sub(self.y, o.y);
        fx_abs(dx) <= eps && fx_abs(dy) <= eps
    }
}

/// A square of an `i64` value is nonnegative and fits well inside `u128`.
proof fn lemma_sq_bounds(a: int)
    requires
        i64::MIN <= a <= i64::MAX,
    ensures
        0 <= a * a <= 0x4000_0000_0000_0000_0000_0000_0000_0000,
{
    assert(0 <= a * a <= 0x4000_0000_0000_0000_0000_0000_0000_0000) by (nonlinear_arith)
        requires -0x8000_0000_0000_0000 <= a <= 0x7fff_ffff_ffff_ffff,
    ;
}

} // verus!
