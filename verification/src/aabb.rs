//! Axis-aligned bounding boxes, used to prune exact collision tests.

use vstd::prelude::*;
use crate::fixed::{sadd, ssub, sat_add, sat_sub};
use crate::vec2::Vec2;

verus! {

/// An axis-aligned box given by its two extreme corners.
#[derive(Clone, Copy, Debug, PartialEq, Eq, Structural)]
pub struct Aabb {
    pub top_left: Vec2,
    pub bottom_right: Vec2,
}

impl Aabb {
    /// Model of `overlap`: the open boxes intersect.
    pub open spec fn overlap_s(self, other: Aabb) -> bool {
        self.top_left.x < other.bottom_right.x
        && self.bottom_right.x > other.top_left.x
        && self.top_left.y < other.bottom_right.y
        && self.bottom_right.y > other.top_left.y
    }

    /// Model of `expand_by`: grow the box in the direction of `v`.
    pub open spec fn expand_by_s(self, v: Vec2) -> Aabb {
        let a = if v.x > 0 {
            Aabb {
                top_left: self.top_left,
                bottom_right: Vec2 { x: sadd(self.bottom_right.x as int, v.x as int) as i64, y: self.bottom_right.y },
            }
        } else {
            Aabb {
                top_left: Vec2 { x: sadd(self.top_left.x as int, v.x as int) as i64, y: self.top_left.y },
                bottom_right: self.bottom_right,
            }
        };
        if v.y > 0 {
            Aabb {
                top_left: a.top_left,
                bottom_right: Vec2 { x: a.bottom_right.x, y: sadd(a.bottom_right.y as int, v.y as int) as i64 },
            }
        } else {
            Aabb {
                top_left: Vec2 { x: a.top_left.x, y: sadd(a.top_left.y as int, v.y as int) as i64 },
                bottom_right: a.bottom_right,
            }
        }
    }

    /// Model of `contains_point`: the closed box contains `p`.
    pub open spec fn contains_point_s(self, p: Vec2) -> bool {
        p.x >= self.top_left.x && p.x <= self.bottom_right.x
        && p.y >= self.top_left.y && p.y <= self.bottom_right.y
    }

    /// Do the two boxes overlap?
    pub fn overlap(&self, other: &Aabb) -> (r: bool)
        ensures
            r == self.overlap_s(*other),
    {
        self.top_left.x < other.bottom_right.x
        && self.bottom_right.x > other.top_left.x
        && self.top_left.y < other.bottom_right.y
        && self.bottom_right.y > other.top_left.y
    }

    /// Horizontal extent.
    pub fn width(&self) -> (r: i64)
        ensures
            r as int == ssub(self.bottom_right.x as int, self.top_left.x as int),
    {
        sat_sub(self.bottom_right.x, self.top_left.x)
    }

    /// Vertical extent.
    pub fn height(&self) -> (r: i64)
        ensures
            r as int == ssub(self.bottom_right.y as int, self.top_left.y as int),
    {
        sat_sub(self.bottom_right.y, self.top_left.y)
    }

    /// Grow the box by a displacement, in the displacement's direction.
    pub fn expand_by(&self, v: Vec2) -> (r: Aabb)
        ensures
            r == self.expand_by_s(v),
    {
        let mut aabb = *self;
        if v.x > 0 {
            aabb.bottom_right.x = sat_add(aabb.bottom_right.x, v.x);
        } else {
            aabb.top_left.x = sat_add(aabb.top_left.x, v.x);
        }
        if v.y > 0 {
            aabb.bottom_right.y = sat_add(aabb.bottom_right.y, v.y);
        } else {
            aabb.top_left.y = sat_add(aabb.top_left.y, v.y);
        }
        aabb
    }

    /// Is `p` inside the closed box?
    pub fn contains_point(&self, p: Vec2) -> (r: bool)
        ensures
            r == self.contains_point_s(p),
    {
        p.x >= self.top_left.x && p.x <= self.bottom_right.x
        && p.y >= self.top_left.y && p.y <= self.bottom_right.y
    }
}

} // verus!
