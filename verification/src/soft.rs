//! Tearable elastic strings solved with position-based dynamics: a
//! chain of point masses joined by distance constraints, optionally
//! attached to rigid bodies, colliding against them through the
//! narrow-phase tests.
//!
//! Rigid bodies live in an arena (a plain vector); an attachment stores
//! the body's index there, never a direct reference.

use vstd::prelude::*;
use crate::fixed::{
    FX_ONE, FX_EPS, fxm, fxd, sadd, ssub, sneg, sat64, iabs, tdiv, imin, imax,
    fx_mul, fx_div, sat_add, sat_sub, sat_neg, fx_abs, fx_min, fx_max,
};
use crate::vec2::Vec2;
use crate::aabb::Aabb;
use crate::shape::ShapeType;
use crate::body::{RigidBody, lemma_wf_same_shape};
use crate::world::{PhysicsData, ContactDebug};

verus! {

/// How many projection passes one solver call runs.
pub const CONSTRAINT_ITERATIONS: usize = 8;

/// Velocity damping toward the chain's rigid-body-like common motion.
pub const BASE_DAMPING: i64 = 200_000;

/// Default joint spacing of a fresh string.
pub const BASE_REST_LENGTH: i64 = 10_000_000;

/// Default mass of one joint.
pub const BASE_JOINT_MASS: i64 = 50_000_000;

/// Default stretch beyond which a constraint tears.
pub const BASE_TEAR_LENGTH: i64 = 100_000_000;

/// Per-pass stiffness `1 - (1 - 0.9)^(1/8)`, precomputed, so that the
/// eight passes together apply a stiffness of 0.9.
pub const STIFFNESS_PER_ITERATION: i64 = 250_106;

/// A tie from a joint to a rigid body: the body's arena index and the
/// joint's offset in the body's local frame.
#[derive(Clone, Copy, Debug, PartialEq, Eq, Structural)]
pub struct Attachment {
    pub body: usize,
    pub rel_pos: Vec2,
}

/// One point mass of the chain.
#[derive(Clone, Copy, Debug, PartialEq, Eq, Structural)]
pub struct Joint {
    pub position: Vec2,
    pub predicted_position: Vec2,
    pub velocity: Vec2,
    pub mass: i64,
    pub attachment: Option<Attachment>,
}

/// A distance constraint between two joints of the chain.
#[derive(Clone, Copy, Debug, PartialEq, Eq, Structural)]
pub struct Constraint {
    pub index_a: usize,
    pub index_b: usize,
    pub rest_length: i64,
    pub tear_length: i64,
    pub stiffness: i64,
}

/// A collision constraint found for one step: a joint, the contact
/// point and normal, and the rigid body's arena index.
#[derive(Clone, Copy, Debug, PartialEq, Eq, Structural)]
pub struct CollisionConstraint {
    pub index: usize,
    pub contact_point: Vec2,
    pub normal: Vec2,
    pub object: usize,
}

/// A chain of joints and distance constraints.
#[derive(Clone, Debug)]
pub struct SoftBody {
    pub joints: Vec<Joint>,
    pub constraints: Vec<Constraint>,
    pub damping: i64,
}

impl Joint {
    /// A fresh joint at rest.
    pub fn new(position: Vec2, attachment: Option<Attachment>) -> (r: Joint)
        ensures
            r == (Joint {
                position,
                predicted_position: position,
                velocity: Vec2 { x: 0i64, y: 0i64 },
                mass: BASE_JOINT_MASS,
                attachment,
            }),
    {
        Joint {
            position,
            predicted_position: position,
            velocity: Vec2 { x: 0, y: 0 },
            mass: BASE_JOINT_MASS,
            attachment,
        }
    }

    /// Model of `get_inv_mass`: an attached joint borrows its host
    /// body's inverse mass, a free one inverts its own mass.
    pub open spec fn inv_mass_s(self, bodies: Seq<RigidBody>) -> int {
        match self.attachment {
            Option::Some(att) => bodies[att.body as int].inv_mass_s(),
            Option::None => fxd(FX_ONE as int, self.mass as int),
        }
    }

    /// The mass this joint contributes to the chain's centre of mass.
    pub open spec fn mass_s(self, bodies: Seq<RigidBody>) -> int {
        match self.attachment {
            Option::Some(att) => fxm(
                bodies[att.body as int].shape.area_s(),
                bodies[att.body as int].material.density as int,
            ),
            Option::None => self.mass as int,
        }
    }
}

impl SoftBody {
    /// Every constraint joins two distinct valid joints, and every
    /// attachment points into an arena of `n_bodies` rigid bodies.
    pub open spec fn wf(self, n_bodies: int) -> bool {
        (forall|k: int| 0 <= k < self.constraints@.len() ==> {
            let c = #[trigger] self.constraints@[k];
            c.index_a < self.joints@.len() && c.index_b < self.joints@.len() && c.index_a != c.index_b
        })
        && (forall|k: int| 0 <= k < self.joints@.len() ==>
            match #[trigger] self.joints@[k].attachment {
                Option::Some(att) => att.body < n_bodies,
                Option::None => true,
            })
    }

    /// A straight string from `start_position` toward `end_position`
    /// with evenly spaced joints and one constraint per gap. The joint
    /// count is bounded only by the machine: the joint index scaled to
    /// fixed point must fit in an `i64`.
    pub fn new_string(start_position: Vec2, end_position: Vec2, num_joints: usize) -> (r: SoftBody)
        requires
            2 <= num_joints,
            num_joints <= 9_000_000_000_000,
        ensures
            r.joints@.len() == num_joints,
            r.constraints@.len() == num_joints - 1,
            r.damping == BASE_DAMPING,
            ({
                let rel = end_position.subs(start_position);
                let dir = rel.norm_s();
                let rest = fxd(rel.len_s(), (num_joints - 1) as int * FX_ONE as int);
                (forall|k: int| 0 <= k < num_joints as int ==> #[trigger] r.joints@[k] == (Joint {
                    position: start_position.adds(dir.scales(rest).scales(k * FX_ONE as int)),
                    predicted_position: start_position.adds(dir.scales(rest).scales(k * FX_ONE as int)),
                    velocity: Vec2 { x: 0i64, y: 0i64 },
                    mass: BASE_JOINT_MASS,
                    attachment: Option::<Attachment>::None,
                }))
                && (forall|k: int| 0 <= k < num_joints as int - 1 ==> #[trigger] r.constraints@[k] == (Constraint {
                    index_a: k as usize,
                    index_b: (k + 1) as usize,
                    rest_length: rest as i64,
                    tear_length: fxm(2 * FX_ONE as int, rest) as i64,
                    stiffness: STIFFNESS_PER_ITERATION,
                }))
            }),
    {
        let rel_pos = end_position.vsub(start_position);
        let dir = rel_pos.vnorm();
        let length = rel_pos.vlen();

        let rest_length = fx_div(length, (num_joints as i64 - 1) * FX_ONE);
        let tear_length = fx_mul(2 * FX_ONE, rest_length);
        let step = dir.vscale(rest_length);

        let mut joints: Vec<Joint> = Vec::new();
        let mut constraints: Vec<Constraint> = Vec::new();
        let mut i: usize = 0;
        while i < num_joints
            invariant
                0 <= i <= num_joints,
                2 <= num_joints,
                num_joints <= 9_000_000_000_000,
                step == dir.scales(rest_length as int),
                rest_length as int == fxd(rel_pos.len_s(), (num_joints - 1) as int * FX_ONE as int),
                tear_length as int == fxm(2 * FX_ONE as int, rest_length as int),
                dir == rel_pos.norm_s(),
                rel_pos == end_position.subs(start_position),
                joints@.len() == i as int,
                constraints@.len() == imin(i as int, num_joints as int - 1),
                forall|k: int| 0 <= k < i as int ==> #[trigger] joints@[k] == (Joint {
                    position: start_position.adds(step.scales(k * FX_ONE as int)),
                    predicted_position: start_position.adds(step.scales(k * FX_ONE as int)),
                    velocity: Vec2 { x: 0i64, y: 0i64 },
                    mass: BASE_JOINT_MASS,
                    attachment: Option::<Attachment>::None,
                }),
                forall|k: int| 0 <= k < constraints@.len() ==> #[trigger] constraints@[k] == (Constraint {
                    index_a: k as usize,
                    index_b: (k + 1) as usize,
                    rest_length: rest_length,
                    tear_length: tear_length,
                    stiffness: STIFFNESS_PER_ITERATION,
                }),
            decreases num_joints - i,
        {
            let position = start_position.vadd(step.vscale(i as i64 * FX_ONE));
            joints.push(Joint {
                position,
                predicted_position: position,
                velocity: Vec2 { x: 0, y: 0 },
                mass: BASE_JOINT_MASS,
                attachment: Option::None,
            });

            if i < num_joints - 1 {
                constraints.push(Constraint {
                    index_a: i,
                    index_b: i + 1,
                    rest_length,
                    tear_length,
                    stiffness: STIFFNESS_PER_ITERATION,
                });
            }
            i = i + 1;
        }

        SoftBody { joints, constraints, damping: BASE_DAMPING }
    }

    /// A chain over existing joints: one constraint per consecutive
    /// pair, at rest at the current spacing, tearing at twice it.
    pub fn from_joints(joints: Vec<Joint>) -> (r: SoftBody)
        requires
            joints@.len() <= 9_000_000_000_000,
        ensures
            r.joints == joints,
            r.damping == BASE_DAMPING,
            r.constraints@.len() == if joints@.len() >= 2 { joints@.len() - 1 } else { 0 },
            forall|k: int| 0 <= k < r.constraints@.len() ==> #[trigger] r.constraints@[k] == (Constraint {
                index_a: k as usize,
                index_b: (k + 1) as usize,
                rest_length: joints@[k + 1].position.subs(joints@[k].position).len_s() as i64,
                tear_length: fxm(joints@[k + 1].position.subs(joints@[k].position).len_s(), 2 * FX_ONE as int) as i64,
                stiffness: STIFFNESS_PER_ITERATION,
            }),
    {
        let n = joints.len();
        let mut constraints: Vec<Constraint> = Vec::new();

        if n >= 2 {
            let mut i: usize = 0;
            while i < n - 1
                invariant
                    0 <= i <= n - 1,
                    2 <= n,
                    n <= 9_000_000_000_000,
                    n == joints@.len(),
                    constraints@.len() == i as int,
                    forall|k: int| 0 <= k < i as int ==> #[trigger] constraints@[k] == (Constraint {
                        index_a: k as usize,
                        index_b: (k + 1) as usize,
                        rest_length: joints@[k + 1].position.subs(joints@[k].position).len_s() as i64,
                        tear_length: fxm(joints@[k + 1].position.subs(joints@[k].position).len_s(), 2 * FX_ONE as int) as i64,
                        stiffness: STIFFNESS_PER_ITERATION,
                    }),
                decreases n - 1 - i,
            {
                let rest_length = joints[i + 1].position.vsub(joints[i].position).vlen();
                constraints.push(Constraint {
                    index_a: i,
                    index_b: i + 1,
                    rest_length,
                    tear_length: fx_mul(rest_length, 2 * FX_ONE),
                    stiffness: STIFFNESS_PER_ITERATION,
                });
                i = i + 1;
            }
        }

        SoftBody { joints, constraints, damping: BASE_DAMPING }
    }

    /// Append a joint to the end of the chain, tied to the previous
    /// last joint by a fresh constraint.
    pub fn add_joint(&mut self, position: Vec2, attachment: Option<Attachment>)
        requires
            old(self).joints@.len() >= 1,
        ensures
            final(self).joints@ == old(self).joints@.push(Joint {
                position,
                predicted_position: position,
                velocity: Vec2 { x: 0i64, y: 0i64 },
                mass: BASE_JOINT_MASS,
                attachment,
            }),
            final(self).constraints@ == old(self).constraints@.push(Constraint {
                index_a: (old(self).joints@.len() - 1) as usize,
                index_b: old(self).joints@.len() as usize,
                rest_length: old(self).joints@.last().position.subs(position).len_s() as i64,
                tear_length: fxm(old(self).joints@.last().position.subs(position).len_s(), 2 * FX_ONE as int) as i64,
                stiffness: STIFFNESS_PER_ITERATION,
            }),
            final(self).damping == old(self).damping,
    {
        let n = self.joints.len();
        let rest_length = self.joints[n - 1].position.vsub(position).vlen();
        let new_constraint = Constraint {
            index_a: n - 1,
            index_b: n,
            rest_length,
            tear_length: fx_mul(rest_length, 2 * FX_ONE),
            stiffness: STIFFNESS_PER_ITERATION,
        };

        self.joints.push(Joint {
            position,
            predicted_position: position,
            velocity: Vec2 { x: 0, y: 0 },
            mass: BASE_JOINT_MASS,
            attachment,
        });
        self.constraints.push(new_constraint);
    }

    /// Smallest x coordinate either position of the first `i` joints
    /// reaches; and so on for the other three bounds.
    pub open spec fn minx_acc(joints: Seq<Joint>, i: int) -> int
        decreases i,
    {
        if i <= 0 {
            i64::MAX as int
        } else {
            imin(
                Self::minx_acc(joints, i - 1),
                imin(joints[i - 1].position.x as int, joints[i - 1].predicted_position.x as int),
            )
        }
    }

    /// Largest x over positions and predictions of the first `i` joints.
    pub open spec fn maxx_acc(joints: Seq<Joint>, i: int) -> int
        decreases i,
    {
        if i <= 0 {
            i64::MIN as int
        } else {
            imax(
                Self::maxx_acc(joints, i - 1),
                imax(joints[i - 1].position.x as int, joints[i - 1].predicted_position.x as int),
            )
        }
    }

    /// Smallest y over positions and predictions of the first `i` joints.
    pub open spec fn miny_acc(joints: Seq<Joint>, i: int) -> int
        decreases i,
    {
        if i <= 0 {
            i64::MAX as int
        } else {
            imin(
                Self::miny_acc(joints, i - 1),
                imin(joints[i - 1].position.y as int, joints[i - 1].predicted_position.y as int),
            )
        }
    }

    /// Largest y over positions and predictions of the first `i` joints.
    pub open spec fn maxy_acc(joints: Seq<Joint>, i: int) -> int
        decreases i,
    {
        if i <= 0 {
            i64::MIN as int
        } else {
            imax(
                Self::maxy_acc(joints, i - 1),
                imax(joints[i - 1].position.y as int, joints[i - 1].predicted_position.y as int),
            )
        }
    }

    /// Model of `get_aabb`: bounds over every joint's current and
    /// predicted position.
    pub open spec fn aabb_s(self) -> Aabb {
        let n = self.joints@.len() as int;
        Aabb {
            top_left: Vec2 { x: Self::minx_acc(self.joints@, n) as i64, y: Self::miny_acc(self.joints@, n) as i64 },
            bottom_right: Vec2 { x: Self::maxx_acc(self.joints@, n) as i64, y: Self::maxy_acc(self.joints@, n) as i64 },
        }
    }

    /// Bounding box of the chain, covering current and predicted
    /// positions.
    pub fn get_aabb(&self) -> (r: Aabb)
        ensures
            r == self.aabb_s(),
    {
        let n = self.joints.len();
        let mut min_x: i64 = i64::MAX;
        let mut max_x: i64 = i64::MIN;
        let mut min_y: i64 = i64::MAX;
        let mut max_y: i64 = i64::MIN;
        let mut i: usize = 0;
        while i < n
            invariant
                0 <= i <= n,
                n == self.joints@.len(),
                min_x as int == Self::minx_acc(self.joints@, i as int),
                max_x as int == Self::maxx_acc(self.joints@, i as int),
                min_y as int == Self::miny_acc(self.joints@, i as int),
                max_y as int == Self::maxy_acc(self.joints@, i as int),
            decreases n - i,
        {
            let j = self.joints[i];
            min_x = fx_min(min_x, fx_min(j.position.x, j.predicted_position.x));
            max_x = fx_max(max_x, fx_max(j.position.x, j.predicted_position.x));
            min_y = fx_min(min_y, fx_min(j.position.y, j.predicted_position.y));
            max_y = fx_max(max_y, fx_max(j.position.y, j.predicted_position.y));
            i = i + 1;
        }
        Aabb {
            top_left: Vec2 { x: min_x, y: min_y },
            bottom_right: Vec2 { x: max_x, y: max_y },
        }
    }

    /// One joint after the start-of-step sync: an attached joint snaps
    /// to its host's attachment point and velocity, a free one takes
    /// gravity and drag like a particle.
    pub open spec fn sync_joint_s(j: Joint, bodies: Seq<RigidBody>, physics: PhysicsData) -> Joint {
        match j.attachment {
            Option::Some(att) => {
                let body = bodies[att.body as int];
                Joint {
                    position: body.shape.center_s().adds(att.rel_pos.rots(body.shape.rotation_s())),
                    velocity: body.linear_velocity,
                    ..j
                }
            },
            Option::None => {
                let v1 = j.velocity.adds(physics.gravity.scales(physics.dt as int));
                let damp = ssub(FX_ONE as int, fxm(physics.air_density as int, physics.dt as int));
                Joint { velocity: v1.scales(damp), ..j }
            },
        }
    }

    /// Snap attached joints to their hosts and integrate gravity and
    /// drag into the free ones.
    fn sync_joints(&mut self, bodies: &Vec<RigidBody>, physics: &PhysicsData)
        requires
            old(self).wf(bodies@.len() as int),
        ensures
            final(self).joints@ == Seq::new(old(self).joints@.len(), |k: int|
                Self::sync_joint_s(old(self).joints@[k], bodies@, *physics)),
            final(self).constraints == old(self).constraints,
            final(self).damping == old(self).damping,
    {
        let n = self.joints.len();
        let mut i: usize = 0;
        while i < n
            invariant
                0 <= i <= n,
                n == self.joints@.len(),
                old(self).wf(bodies@.len() as int),
                self.joints@.len() == old(self).joints@.len(),
                forall|k: int| i as int <= k < n as int ==> #[trigger] self.joints@[k] == old(self).joints@[k],
                forall|k: int| 0 <= k < i as int ==> #[trigger] self.joints@[k]
                    == Self::sync_joint_s(old(self).joints@[k], bodies@, *physics),
                self.constraints == old(self).constraints,
                self.damping == old(self).damping,
            decreases n - i,
        {
            let j = self.joints[i];
            let updated = match j.attachment {
                Option::Some(att) => {
                    let body = &bodies[att.body];
                    let position = body.shape.get_center()
                        .vadd(att.rel_pos.vrot(body.shape.get_rotation()));
                    Joint { position, velocity: body.linear_velocity, ..j }
                },
                Option::None => {
                    let v1 = j.velocity.vadd(physics.gravity.vscale(physics.dt));
                    let damp = sat_sub(FX_ONE, fx_mul(physics.air_density, physics.dt));
                    Joint { velocity: v1.vscale(damp), ..j }
                },
            };
            self.joints.set(i, updated);
            i = i + 1;
        }
        proof {
            assert(self.joints@ =~= Seq::new(old(self).joints@.len(), |k: int|
                Self::sync_joint_s(old(self).joints@[k], bodies@, *physics)));
        }
    }

    /// Saturating sum of the first `i` joint masses.
    pub open spec fn tm_acc(joints: Seq<Joint>, bodies: Seq<RigidBody>, i: int) -> int
        decreases i,
    {
        if i <= 0 { 0 } else { sadd(Self::tm_acc(joints, bodies, i - 1), joints[i - 1].mass_s(bodies)) }
    }

    /// Mass-weighted sum of the first `i` joint positions.
    pub open spec fn cmpos_acc(joints: Seq<Joint>, bodies: Seq<RigidBody>, i: int) -> Vec2
        decreases i,
    {
        if i <= 0 {
            Vec2 { x: 0, y: 0 }
        } else {
            Self::cmpos_acc(joints, bodies, i - 1)
                .adds(joints[i - 1].position.scales(joints[i - 1].mass_s(bodies)))
        }
    }

    /// Mass-weighted sum of the first `i` joint velocities.
    pub open spec fn cmvel_acc(joints: Seq<Joint>, bodies: Seq<RigidBody>, i: int) -> Vec2
        decreases i,
    {
        if i <= 0 {
            Vec2 { x: 0, y: 0 }
        } else {
            Self::cmvel_acc(joints, bodies, i - 1)
                .adds(joints[i - 1].velocity.scales(joints[i - 1].mass_s(bodies)))
        }
    }

    /// Angular momentum of the first `i` joints about `cm_pos`.
    pub open spec fn am_acc(joints: Seq<Joint>, bodies: Seq<RigidBody>, cm_pos: Vec2, i: int) -> int
        decreases i,
    {
        if i <= 0 {
            0
        } else {
            sadd(
                Self::am_acc(joints, bodies, cm_pos, i - 1),
                joints[i - 1].position.subs(cm_pos)
                    .crosses(joints[i - 1].velocity.scales(joints[i - 1].mass_s(bodies))),
            )
        }
    }

    /// Moment of inertia of the first `i` joints about `cm_pos`.
    pub open spec fn in_acc(joints: Seq<Joint>, bodies: Seq<RigidBody>, cm_pos: Vec2, i: int) -> int
        decreases i,
    {
        if i <= 0 {
            0
        } else {
            let r = joints[i - 1].position.subs(cm_pos);
            sadd(
                Self::in_acc(joints, bodies, cm_pos, i - 1),
                fxm(r.dots(r), joints[i - 1].mass_s(bodies)),
            )
        }
    }

    /// One joint's velocity after damping toward the chain's common
    /// rigid motion (centre-of-mass velocity plus rotation at `w`).
    pub open spec fn damped_joint_s(j: Joint, cm_pos: Vec2, cm_vel: Vec2, w: int, damping: int) -> Joint {
        let r = j.position.subs(cm_pos);
        let dv = cm_vel.adds(r.perps().scales(w)).subs(j.velocity);
        Joint { velocity: j.velocity.adds(dv.scales(damping)), ..j }
    }

    /// The whole damping phase, as a function of the joints.
    #[verifier::opaque]
    pub open spec fn damp_s(joints: Seq<Joint>, bodies: Seq<RigidBody>, damping: int) -> Seq<Joint> {
        let n = joints.len() as int;
        let tm = Self::tm_acc(joints, bodies, n);
        let cm_pos = Self::cmpos_acc(joints, bodies, n).divs(tm);
        let cm_vel = Self::cmvel_acc(joints, bodies, n).divs(tm);
        let w = fxd(Self::am_acc(joints, bodies, cm_pos, n), Self::in_acc(joints, bodies, cm_pos, n));
        Seq::new(joints.len(), |k: int| Self::damped_joint_s(joints[k], cm_pos, cm_vel, w, damping))
    }

    /// Nudge every joint's velocity toward the chain's common motion:
    /// this suppresses the energy the stiff projection injects without
    /// damping rigid translation or rotation.
    fn damp_velocities(&mut self, bodies: &Vec<RigidBody>)
        requires
            old(self).wf(bodies@.len() as int),
            forall|k: int| 0 <= k < bodies@.len() ==> (#[trigger] bodies@[k]).wf(),
        ensures
            final(self).joints@ == Self::damp_s(old(self).joints@, bodies@, old(self).damping as int),
            final(self).constraints == old(self).constraints,
            final(self).damping == old(self).damping,
            final(self).joints@.len() == old(self).joints@.len(),
            forall|k: int| 0 <= k < old(self).joints@.len() ==> (#[trigger] final(self).joints@[k]).attachment
                == old(self).joints@[k].attachment
                && final(self).joints@[k].position == old(self).joints@[k].position
                && final(self).joints@[k].predicted_position == old(self).joints@[k].predicted_position
                && final(self).joints@[k].mass == old(self).joints@[k].mass,
    {
        proof {
            reveal(SoftBody::damp_s);
        }
        let n = self.joints.len();
        let mut total_mass: i64 = 0;
        let mut cm_pos_sum = Vec2 { x: 0, y: 0 };
        let mut cm_vel_sum = Vec2 { x: 0, y: 0 };
        let mut i: usize = 0;
        while i < n
            invariant
                0 <= i <= n,
                n == self.joints@.len(),
                *self == *old(self),
                old(self).wf(bodies@.len() as int),
                forall|k: int| 0 <= k < bodies@.len() ==> (#[trigger] bodies@[k]).wf(),
                total_mass as int == Self::tm_acc(self.joints@, bodies@, i as int),
                cm_pos_sum == Self::cmpos_acc(self.joints@, bodies@, i as int),
                cm_vel_sum == Self::cmvel_acc(self.joints@, bodies@, i as int),
            decreases n - i,
        {
            let j = self.joints[i];
            let mass = match j.attachment {
                Option::Some(att) => {
                    let body = &bodies[att.body];
                    fx_mul(body.shape.area(), body.material.density)
                },
                Option::None => j.mass,
            };
            total_mass = sat_add(total_mass, mass);
            cm_pos_sum = cm_pos_sum.vadd(j.position.vscale(mass));
            cm_vel_sum = cm_vel_sum.vadd(j.velocity.vscale(mass));
            i = i + 1;
        }
        let cm_pos = cm_pos_sum.vdivs(total_mass);
        let cm_vel = cm_vel_sum.vdivs(total_mass);

        let mut angular_momentum: i64 = 0;
        let mut inertia: i64 = 0;
        let mut i2: usize = 0;
        while i2 < n
            invariant
                0 <= i2 <= n,
                n == self.joints@.len(),
                *self == *old(self),
                old(self).wf(bodies@.len() as int),
                forall|k: int| 0 <= k < bodies@.len() ==> (#[trigger] bodies@[k]).wf(),
                angular_momentum as int == Self::am_acc(self.joints@, bodies@, cm_pos, i2 as int),
                inertia as int == Self::in_acc(self.joints@, bodies@, cm_pos, i2 as int),
            decreases n - i2,
        {
            let j = self.joints[i2];
            let mass = match j.attachment {
                Option::Some(att) => {
                    let body = &bodies[att.body];
                    fx_mul(body.shape.area(), body.material.density)
                },
                Option::None => j.mass,
            };
            let r = j.position.vsub(cm_pos);
            angular_momentum = sat_add(angular_momentum, r.vcross(j.velocity.vscale(mass)));
            inertia = sat_add(inertia, fx_mul(r.vdot(r), mass));
            i2 = i2 + 1;
        }

        let angular_velocity = fx_div(angular_momentum, inertia);

        let damping = self.damping;
        let mut i3: usize = 0;
        while i3 < n
            invariant
                0 <= i3 <= n,
                n == old(self).joints@.len(),
                self.joints@.len() == n,
                self.constraints == old(self).constraints,
                self.damping == old(self).damping,
                damping == old(self).damping,
                forall|k: int| i3 as int <= k < n as int ==> #[trigger] self.joints@[k] == old(self).joints@[k],
                forall|k: int| 0 <= k < i3 as int ==> #[trigger] self.joints@[k]
                    == Self::damped_joint_s(old(self).joints@[k], cm_pos, cm_vel, angular_velocity as int, damping as int),
            decreases n - i3,
        {
            let j = self.joints[i3];
            let r = j.position.vsub(cm_pos);
            let dv = cm_vel.vadd(r.vperp().vscale(angular_velocity)).vsub(j.velocity);
            let updated = Joint { velocity: j.velocity.vadd(dv.vscale(damping)), ..j };
            self.joints.set(i3, updated);
            i3 = i3 + 1;
        }
        proof {
            assert(self.joints@ =~= Self::damp_s(old(self).joints@, bodies@, old(self).damping as int));
        }
    }

    /// Predict every joint's position one timestep ahead.
    fn predict(&mut self, dt: i64)
        ensures
            final(self).joints@ == Seq::new(old(self).joints@.len(), |k: int| Joint {
                predicted_position: old(self).joints@[k].position
                    .adds(old(self).joints@[k].velocity.scales(dt as int)),
                ..old(self).joints@[k]
            }),
            final(self).constraints == old(self).constraints,
            final(self).damping == old(self).damping,
    {
        let n = self.joints.len();
        let mut i: usize = 0;
        while i < n
            invariant
                0 <= i <= n,
                n == self.joints@.len(),
                self.joints@.len() == old(self).joints@.len(),
                self.constraints == old(self).constraints,
                self.damping == old(self).damping,
                forall|k: int| i as int <= k < n as int ==> #[trigger] self.joints@[k] == old(self).joints@[k],
                forall|k: int| 0 <= k < i as int ==> #[trigger] self.joints@[k]
                    == (Joint {
                        predicted_position: old(self).joints@[k].position
                            .adds(old(self).joints@[k].velocity.scales(dt as int)),
                        ..old(self).joints@[k]
                    }),
            decreases n - i,
        {
            let j = self.joints[i];
            let updated = Joint {
                predicted_position: j.position.vadd(j.velocity.vscale(dt)),
                ..j
            };
            self.joints.set(i, updated);
            i = i + 1;
        }
        proof {
            assert(self.joints@ =~= Seq::new(old(self).joints@.len(), |k: int| Joint {
                predicted_position: old(self).joints@[k].position
                    .adds(old(self).joints@[k].velocity.scales(dt as int)),
                ..old(self).joints@[k]
            }));
        }
    }
}

/// The chain's bounding box as a function of its joints.
pub open spec fn joints_aabb(joints: Seq<Joint>) -> Aabb {
    let n = joints.len() as int;
    Aabb {
        top_left: Vec2 {
            x: SoftBody::minx_acc(joints, n) as i64,
            y: SoftBody::miny_acc(joints, n) as i64,
        },
        bottom_right: Vec2 {
            x: SoftBody::maxx_acc(joints, n) as i64,
            y: SoftBody::maxy_acc(joints, n) as i64,
        },
    }
}

/// Joint `i` is ignored against body `o` when it is attached to some
/// body, or when the body's velocity-expanded box misses the chain.
pub open spec fn gcc_skip(
    joints: Seq<Joint>, bodies: Seq<RigidBody>, saabb: Aabb, o: int, i: int,
) -> bool {
    joints[i].attachment is Some
    || !bodies[o].shape.aabb_s()
        .expand_by_s(bodies[o].linear_velocity.subs(joints[i].velocity))
        .overlap_s(saabb)
}

/// The whole body is ignored when some joint is attached to it and the
/// body is dynamic: the attachment already couples them.
/// Is joint `j` attached to body `o`?
pub open spec fn attached_to(j: Joint, o: int) -> bool {
    match j.attachment {
        Option::Some(att) => att.body as int == o,
        Option::None => false,
    }
}

/// The whole body is ignored when some joint is attached to it and the
/// body is dynamic: the attachment already couples them.
pub open spec fn gcc_bailed(joints: Seq<Joint>, bodies: Seq<RigidBody>, o: int) -> bool {
    exists|i: int| 0 <= i < joints.len()
        && attached_to(#[trigger] joints[i], o) && !bodies[o].is_static
}

/// The contact point and normal joint `i` finds against body `o`: a
/// deep (contained) joint gets the closest-surface push, otherwise a
/// ray from its current toward its predicted position, corrected by
/// the body's own step.
#[verifier::opaque]
pub open spec fn gcc_joint_hit(
    joints: Seq<Joint>, bodies: Seq<RigidBody>, dt: int, o: int, i: int,
) -> Option<(Vec2, Vec2)> {
    let obj = bodies[o];
    let obj_step = obj.linear_velocity.scales(dt);
    let j = joints[i];
    if obj.shape.contains_point_s(j.position) {
        let cpn = obj.shape.closest_surface_s(j.predicted_position);
        Option::Some((cpn.0, cpn.1))
    } else {
        let ray_dir = j.predicted_position.subs(j.position).subs(obj_step);
        let hit: Option<(int, Vec2, Vec2)> = match obj.shape {
            ShapeType::Circle(c) => crate::collision::rvc_s(j.position, ray_dir, c),
            ShapeType::Polygon(p) => crate::collision::rvp_s(p.tvs(), j.position, ray_dir),
        };
        match hit {
            Option::Some(s) => Option::Some((s.2, s.1)),
            Option::None => Option::None,
        }
    }
}

/// The constraints joint `i` contributes against body `o`.
pub open spec fn gcc_joint_cc(
    joints: Seq<Joint>, bodies: Seq<RigidBody>, dt: int, o: int, i: int,
) -> Seq<CollisionConstraint> {
    match gcc_joint_hit(joints, bodies, dt, o, i) {
        Option::Some(p) => seq![CollisionConstraint {
            index: i as usize, contact_point: p.0, normal: p.1, object: o as usize,
        }],
        Option::None => Seq::empty(),
    }
}

/// Joint-phase constraints against body `o` from the first `i` joints.
pub open spec fn gcc_joint_acc(
    joints: Seq<Joint>, bodies: Seq<RigidBody>, saabb: Aabb, dt: int, o: int, i: int,
) -> Seq<CollisionConstraint>
    decreases i,
{
    if i <= 0 {
        Seq::empty()
    } else {
        gcc_joint_acc(joints, bodies, saabb, dt, o, i - 1)
            + if gcc_skip(joints, bodies, saabb, o, i - 1) {
                Seq::empty()
            } else {
                gcc_joint_cc(joints, bodies, dt, o, i - 1)
            }
    }
}

/// The normal and first contact point a segment `ap..bp` finds against
/// a body: the static segment test first, then the swept test when the
/// body moves fast enough to tunnel.
#[verifier::opaque]
pub open spec fn seg_hit_s(obj: RigidBody, dt: int, ap: Vec2, bp: Vec2) -> Option<(Vec2, Vec2)> {
    let obj_step = obj.linear_velocity.scales(dt);
    let aabb = obj.shape.aabb_s();
    let min_dim = imin(
        ssub(aabb.bottom_right.x as int, aabb.top_left.x as int),
        ssub(aabb.bottom_right.y as int, aabb.top_left.y as int),
    );
    let fast = obj.linear_velocity.len2_s() >= tdiv(fxm(min_dim, min_dim), 2);
    match obj.shape {
        ShapeType::Circle(cc) => match crate::collision::cvs_s(cc, ap, bp) {
            Option::Some(s) => Option::Some((s.1, s.2)),
            Option::None => if fast {
                match crate::collision::scs_s(cc, obj_step, ap, bp) {
                    Option::Some(s) => Option::Some((s.1, s.2)),
                    Option::None => Option::None,
                }
            } else {
                Option::None
            },
        },
        ShapeType::Polygon(p) => match crate::collision::pvs_s(p.tvs(), ap, bp) {
            Option::Some(sn) => {
                let cs = crate::collision::fc_contacts(p.tvs(), seq![ap, bp]);
                if cs.len() > 0 { Option::Some((sn.1, cs[0])) } else { Option::None }
            },
            Option::None => if fast {
                match crate::collision::sps_s(p.tvs(), obj_step, ap, bp) {
                    Option::Some(s) => Option::Some((s.1, s.2)),
                    Option::None => Option::None,
                }
            } else {
                Option::None
            },
        },
    }
}

/// What a chain segment of constraint `k` finds against body `o`.
pub open spec fn gcc_seg_hit(
    joints: Seq<Joint>, constraints: Seq<Constraint>, bodies: Seq<RigidBody>, dt: int, o: int, k: int,
) -> Option<(Vec2, Vec2)> {
    let c = constraints[k];
    seg_hit_s(
        bodies[o], dt,
        joints[c.index_a as int].predicted_position,
        joints[c.index_b as int].predicted_position,
    )
}

/// Segment-phase constraints against body `o` from the first `k`
/// distance constraints: each hit pins both endpoints to the contact.
pub open spec fn gcc_seg_acc(
    joints: Seq<Joint>, constraints: Seq<Constraint>, bodies: Seq<RigidBody>, saabb: Aabb, dt: int, o: int, k: int,
) -> Seq<CollisionConstraint>
    decreases k,
{
    if k <= 0 {
        Seq::empty()
    } else {
        let c = constraints[k - 1];
        gcc_seg_acc(joints, constraints, bodies, saabb, dt, o, k - 1)
            + if gcc_skip(joints, bodies, saabb, o, c.index_a as int)
                || gcc_skip(joints, bodies, saabb, o, c.index_b as int) {
                Seq::empty()
            } else {
                match gcc_seg_hit(joints, constraints, bodies, dt, o, k - 1) {
                    Option::Some(nc) => seq![
                        CollisionConstraint { index: c.index_a, contact_point: nc.1, normal: nc.0, object: o as usize },
                        CollisionConstraint { index: c.index_b, contact_point: nc.1, normal: nc.0, object: o as usize },
                    ],
                    Option::None => Seq::empty(),
                }
            }
    }
}

/// Everything one body contributes: nothing when bailed, else the
/// joint phase followed by the segment phase.
pub open spec fn gcc_body(
    joints: Seq<Joint>, constraints: Seq<Constraint>, bodies: Seq<RigidBody>, saabb: Aabb, dt: int, o: int,
) -> Seq<CollisionConstraint> {
    if gcc_bailed(joints, bodies, o) {
        Seq::empty()
    } else {
        gcc_joint_acc(joints, bodies, saabb, dt, o, joints.len() as int)
            + gcc_seg_acc(joints, constraints, bodies, saabb, dt, o, constraints.len() as int)
    }
}

/// Constraints from the first `o` bodies.
pub open spec fn gcc_acc(
    joints: Seq<Joint>, constraints: Seq<Constraint>, bodies: Seq<RigidBody>, saabb: Aabb, dt: int, o: int,
) -> Seq<CollisionConstraint>
    decreases o,
{
    if o <= 0 {
        Seq::empty()
    } else {
        gcc_acc(joints, constraints, bodies, saabb, dt, o - 1)
            + gcc_body(joints, constraints, bodies, saabb, dt, o - 1)
    }
}

/// Model of `generate_collision_constraints`: the concatenation over
/// all bodies.
pub open spec fn gcc_s(
    joints: Seq<Joint>, constraints: Seq<Constraint>, bodies: Seq<RigidBody>, dt: int,
) -> Seq<CollisionConstraint> {
    gcc_acc(joints, constraints, bodies, joints_aabb(joints), dt, bodies.len() as int)
}


/// Every constraint the joint phase yields points at a real joint of
/// the chain and at body `o`.
proof fn lemma_gcc_joint_acc_valid(
    joints: Seq<Joint>, bodies: Seq<RigidBody>, saabb: Aabb, dt: int, o: int, i: int,
)
    requires
        i <= joints.len(),
        joints.len() <= usize::MAX,
        0 <= o < usize::MAX,
    ensures
        forall|k: int| 0 <= k < gcc_joint_acc(joints, bodies, saabb, dt, o, i).len()
            ==> (#[trigger] gcc_joint_acc(joints, bodies, saabb, dt, o, i)[k]).index < joints.len()
                && gcc_joint_acc(joints, bodies, saabb, dt, o, i)[k].object == o as usize,
    decreases i,
{
    if i > 0 {
        lemma_gcc_joint_acc_valid(joints, bodies, saabb, dt, o, i - 1);
        let prev = gcc_joint_acc(joints, bodies, saabb, dt, o, i - 1);
        let tail = if gcc_skip(joints, bodies, saabb, o, i - 1) {
            Seq::<CollisionConstraint>::empty()
        } else {
            gcc_joint_cc(joints, bodies, dt, o, i - 1)
        };
        let whole = gcc_joint_acc(joints, bodies, saabb, dt, o, i);
        assert(whole == prev + tail);
        assert(forall|k: int| 0 <= k < tail.len() ==> (#[trigger] tail[k]).index < joints.len()
            && tail[k].object == o as usize);
        assert forall|k: int| 0 <= k < whole.len()
            implies (#[trigger] whole[k]).index < joints.len() && whole[k].object == o as usize by {
            if k < prev.len() {
                assert(whole[k] == prev[k]);
            } else {
                assert(whole[k] == tail[k - prev.len()]);
            }
        };
    }
}

/// Every constraint the segment phase yields points at a real joint
/// and at body `o`.
proof fn lemma_gcc_seg_acc_valid(
    joints: Seq<Joint>, constraints: Seq<Constraint>, bodies: Seq<RigidBody>, saabb: Aabb, dt: int, o: int, k: int,
)
    requires
        k <= constraints.len(),
        0 <= o < usize::MAX,
        forall|t: int| 0 <= t < constraints.len() ==> (#[trigger] constraints[t]).index_a < joints.len()
            && constraints[t].index_b < joints.len(),
    ensures
        forall|t: int| 0 <= t < gcc_seg_acc(joints, constraints, bodies, saabb, dt, o, k).len()
            ==> (#[trigger] gcc_seg_acc(joints, constraints, bodies, saabb, dt, o, k)[t]).index < joints.len()
                && gcc_seg_acc(joints, constraints, bodies, saabb, dt, o, k)[t].object == o as usize,
    decreases k,
{
    if k > 0 {
        lemma_gcc_seg_acc_valid(joints, constraints, bodies, saabb, dt, o, k - 1);
        let c = constraints[k - 1];
        let tail = if gcc_skip(joints, bodies, saabb, o, c.index_a as int)
            || gcc_skip(joints, bodies, saabb, o, c.index_b as int) {
            Seq::<CollisionConstraint>::empty()
        } else {
            match gcc_seg_hit(joints, constraints, bodies, dt, o, k - 1) {
                Option::Some(nc) => seq![
                    CollisionConstraint { index: c.index_a, contact_point: nc.1, normal: nc.0, object: o as usize },
                    CollisionConstraint { index: c.index_b, contact_point: nc.1, normal: nc.0, object: o as usize },
                ],
                Option::None => Seq::<CollisionConstraint>::empty(),
            }
        };
        let prev = gcc_seg_acc(joints, constraints, bodies, saabb, dt, o, k - 1);
        let whole = gcc_seg_acc(joints, constraints, bodies, saabb, dt, o, k);
        assert(whole == prev + tail);
        assert(forall|t: int| 0 <= t < tail.len() ==> (#[trigger] tail[t]).index < joints.len()
            && tail[t].object == o as usize);
        assert forall|t: int| 0 <= t < whole.len()
            implies (#[trigger] whole[t]).index < joints.len() && whole[t].object == o as usize by {
            if t < prev.len() {
                assert(whole[t] == prev[t]);
            } else {
                assert(whole[t] == tail[t - prev.len()]);
            }
        };
    }
}

/// Every constraint the whole scan yields points at a real joint and a
/// real body.
proof fn lemma_gcc_acc_valid(
    joints: Seq<Joint>, constraints: Seq<Constraint>, bodies: Seq<RigidBody>, saabb: Aabb, dt: int, o: int,
)
    requires
        0 <= o <= bodies.len(),
        bodies.len() <= usize::MAX,
        joints.len() <= usize::MAX,
        forall|t: int| 0 <= t < constraints.len() ==> (#[trigger] constraints[t]).index_a < joints.len()
            && constraints[t].index_b < joints.len(),
    ensures
        forall|t: int| 0 <= t < gcc_acc(joints, constraints, bodies, saabb, dt, o).len()
            ==> (#[trigger] gcc_acc(joints, constraints, bodies, saabb, dt, o)[t]).index < joints.len()
                && gcc_acc(joints, constraints, bodies, saabb, dt, o)[t].object < bodies.len(),
    decreases o,
{
    if o > 0 {
        lemma_gcc_acc_valid(joints, constraints, bodies, saabb, dt, o - 1);
        lemma_gcc_joint_acc_valid(joints, bodies, saabb, dt, o - 1, joints.len() as int);
        lemma_gcc_seg_acc_valid(joints, constraints, bodies, saabb, dt, o - 1, constraints.len() as int);
        let prev = gcc_acc(joints, constraints, bodies, saabb, dt, o - 1);
        let tail = gcc_body(joints, constraints, bodies, saabb, dt, o - 1);
        let whole = gcc_acc(joints, constraints, bodies, saabb, dt, o);
        let ja = gcc_joint_acc(joints, bodies, saabb, dt, o - 1, joints.len() as int);
        let sa = gcc_seg_acc(joints, constraints, bodies, saabb, dt, o - 1, constraints.len() as int);
        assert(whole == prev + tail);
        assert forall|t: int| 0 <= t < whole.len()
            implies (#[trigger] whole[t]).index < joints.len() && whole[t].object < bodies.len() by {
            if t < prev.len() {
                assert(whole[t] == prev[t]);
            } else {
                assert(whole[t] == tail[t - prev.len()]);
                if !gcc_bailed(joints, bodies, o - 1) {
                    assert(tail == ja + sa);
                    if t - prev.len() < ja.len() {
                        assert(tail[t - prev.len()] == ja[t - prev.len()]);
                    } else {
                        assert(tail[t - prev.len()] == sa[t - prev.len() - ja.len()]);
                    }
                }
            }
        };
    }
}

impl SoftBody {
    /// The static segment test against one body, with the swept test as
    /// the fast-motion fallback; hands back the normal and the first
    /// contact point.
    fn seg_hit(obj: &RigidBody, dt: i64, ap: Vec2, bp: Vec2) -> (r: Option<(Vec2, Vec2)>)
        ensures
            match r {
                Option::Some(nc) => seg_hit_s(*obj, dt as int, ap, bp) == Option::Some((nc.0, nc.1)),
                Option::None => seg_hit_s(*obj, dt as int, ap, bp) is None,
            },
    {
        proof {
            reveal(seg_hit_s);
        }
        let obj_step = obj.linear_velocity.vscale(dt);
        let aabb = obj.shape.get_aabb();
        match &obj.shape {
            ShapeType::Circle(cc) => {
                match crate::collision::circle_vs_segment(cc, ap, bp) {
                    Option::Some(cd) => Option::Some((cd.normal, cd.contacts[0])),
                    Option::None => {
                        let min_dim = fx_min(aabb.width(), aabb.height());
                        if obj.linear_velocity.vlen2() >= fx_mul(min_dim, min_dim) / 2 {
                            match crate::collision::swept_circle_vs_segment(cc, obj_step, ap, bp) {
                                Option::Some(cd) => Option::Some((cd.normal, cd.contacts[0])),
                                Option::None => Option::None,
                            }
                        } else {
                            Option::None
                        }
                    },
                }
            },
            ShapeType::Polygon(p) => {
                match crate::collision::polygon_vs_segment(p, ap, bp) {
                    Option::Some(cd) => {
                        if cd.contacts.len() > 0 {
                            Option::Some((cd.normal, cd.contacts[0]))
                        } else {
                            Option::None
                        }
                    },
                    Option::None => {
                        let min_dim = fx_min(aabb.width(), aabb.height());
                        if obj.linear_velocity.vlen2() >= fx_mul(min_dim, min_dim) / 2 {
                            match crate::collision::swept_polygon_vs_segment(p, obj_step, ap, bp) {
                                Option::Some(cd) => Option::Some((cd.normal, cd.contacts[0])),
                                Option::None => Option::None,
                            }
                        } else {
                            Option::None
                        }
                    },
                }
            },
        }
    }

    /// Everything one rigid body contributes to this step's collision
    /// constraints, appended to `out`.
    #[verifier::rlimit(100)]
    #[verifier::spinoff_prover]
    fn gcc_for_body(
        &self, dt: i64, bodies: &Vec<RigidBody>, o: usize, string_aabb: Aabb,
        out: &mut Vec<CollisionConstraint>,
    )
        requires
            self.wf(bodies@.len() as int),
            o < bodies@.len(),
            string_aabb == joints_aabb(self.joints@),
        ensures
            final(out)@ == old(out)@ + gcc_body(self.joints@, self.constraints@, bodies@, string_aabb, dt as int, o as int),
    {
        let n_joints = self.joints.len();
        let n_constraints = self.constraints.len();
        let n_bodies = bodies.len();
        let ghost out0 = out@;
        let obj_is_static = bodies[o].is_static;
        let obj_lv = bodies[o].linear_velocity;
        let obj_step = obj_lv.vscale(dt);
        let aabb = bodies[o].shape.get_aabb();

        // Which joints to ignore for this body, and whether the body
        // is coupled to the chain by an attachment.
        let mut skip: Vec<bool> = Vec::new();
        let mut bailed = false;
        let mut i: usize = 0;
        while i < n_joints
            invariant
                0 <= i <= n_joints,
                n_joints == self.joints@.len(),
                o < n_bodies,
                n_bodies == bodies@.len(),
                string_aabb == joints_aabb(self.joints@),
                aabb == bodies@[o as int].shape.aabb_s(),
                obj_step == bodies@[o as int].linear_velocity.scales(dt as int),
                obj_is_static == bodies@[o as int].is_static,
                obj_lv == bodies@[o as int].linear_velocity,
                skip@.len() == i as int,
                forall|k: int| 0 <= k < i as int ==> #[trigger] skip@[k]
                    == gcc_skip(self.joints@, bodies@, string_aabb, o as int, k),
                bailed == exists|k: int| 0 <= k < i as int
                    && attached_to(#[trigger] self.joints@[k], o as int) && !bodies@[o as int].is_static,
            decreases n_joints - i,
        {
            let j = self.joints[i];
            let ghost old_bailed = bailed;
            match j.attachment {
                Option::Some(att) => {
                    if att.body == o && !obj_is_static {
                        bailed = true;
                        proof {
                            assert(attached_to(self.joints@[i as int], o as int)
                                && !bodies@[o as int].is_static);
                        }
                    }
                    skip.push(true);
                },
                Option::None => {
                    let rel_vel = obj_lv.vsub(j.velocity);
                    skip.push(!aabb.expand_by(rel_vel).overlap(&string_aabb));
                },
            }
            proof {
                assert(skip@[i as int] == gcc_skip(self.joints@, bodies@, string_aabb, o as int, i as int));
                if bailed && !old_bailed {
                    assert(exists|k: int| 0 <= k < i as int + 1
                        && attached_to(#[trigger] self.joints@[k], o as int) && !bodies@[o as int].is_static);
                }
                if !bailed {
                    assert(forall|k: int| 0 <= k < i as int + 1 ==> !(attached_to(#[trigger] self.joints@[k], o as int) && !bodies@[o as int].is_static));
                }
            }
            i = i + 1;
        }

        if bailed {
            proof {
                assert(gcc_bailed(self.joints@, bodies@, o as int));
                assert(gcc_body(self.joints@, self.constraints@, bodies@, string_aabb, dt as int, o as int)
                    =~= Seq::<CollisionConstraint>::empty());
                assert(out@ =~= out0 + gcc_body(self.joints@, self.constraints@, bodies@, string_aabb, dt as int, o as int));
            }
            return;
        }
        proof {
            assert(!gcc_bailed(self.joints@, bodies@, o as int));
        }

        let ghost out_base = out@;

        // Joint phase: containment push-out or a motion ray test.
        let mut i2: usize = 0;
        while i2 < n_joints
            invariant
                0 <= i2 <= n_joints,
                n_joints == self.joints@.len(),
                o < n_bodies,
                n_bodies == bodies@.len(),
                string_aabb == joints_aabb(self.joints@),
                obj_step == bodies@[o as int].linear_velocity.scales(dt as int),
                skip@.len() == n_joints as int,
                forall|k: int| 0 <= k < n_joints as int ==> #[trigger] skip@[k]
                    == gcc_skip(self.joints@, bodies@, string_aabb, o as int, k),
                out@ == out_base + gcc_joint_acc(self.joints@, bodies@, string_aabb, dt as int, o as int, i2 as int),
            decreases n_joints - i2,
        {
            if !skip[i2] {
                let j = self.joints[i2];
                let obj2 = &bodies[o];
                let hit: Option<(Vec2, Vec2)> = if obj2.shape.contains_point(j.position) {
                    let (cp, normal) = obj2.shape.find_closest_surface_point(j.predicted_position);
                    Option::Some((cp, normal))
                } else {
                    let ray_dir = j.predicted_position.vsub(j.position).vsub(obj_step);
                    let collision = match &obj2.shape {
                        ShapeType::Circle(c) => crate::collision::ray_vs_circle(j.position, ray_dir, c),
                        ShapeType::Polygon(p) => crate::collision::ray_vs_polygon(j.position, ray_dir, p),
                    };
                    match collision {
                        Option::Some(cd) => Option::Some((cd.contacts[0], cd.normal)),
                        Option::None => Option::None,
                    }
                };
                proof {
                    reveal(gcc_joint_hit);
                    assert(match hit {
                        Option::Some(p) => gcc_joint_hit(self.joints@, bodies@, dt as int, o as int, i2 as int)
                            == Option::Some((p.0, p.1)),
                        Option::None => gcc_joint_hit(self.joints@, bodies@, dt as int, o as int, i2 as int) is None,
                    });
                }
                if let Option::Some(p) = hit {
                    out.push(CollisionConstraint {
                        index: i2, contact_point: p.0, normal: p.1, object: o,
                    });
                }
            }
            proof {
                assert(out@ =~= out_base + gcc_joint_acc(self.joints@, bodies@, string_aabb, dt as int, o as int, i2 as int + 1));
            }
            i2 = i2 + 1;
        }

        let ghost out_base2 = out@;

        // Segment phase: each chain segment against the body, the
        // swept test as the fast-motion fallback.
        let mut k: usize = 0;
        while k < n_constraints
            invariant
                0 <= k <= n_constraints,
                n_joints == self.joints@.len(),
                n_constraints == self.constraints@.len(),
                o < n_bodies,
                n_bodies == bodies@.len(),
                self.wf(bodies@.len() as int),
                string_aabb == joints_aabb(self.joints@),
                skip@.len() == n_joints as int,
                forall|kk: int| 0 <= kk < n_joints as int ==> #[trigger] skip@[kk]
                    == gcc_skip(self.joints@, bodies@, string_aabb, o as int, kk),
                out@ == out_base2 + gcc_seg_acc(self.joints@, self.constraints@, bodies@, string_aabb, dt as int, o as int, k as int),
            decreases n_constraints - k,
        {
            let c = self.constraints[k];
            if !skip[c.index_a] && !skip[c.index_b] {
                let ap = self.joints[c.index_a].predicted_position;
                let bp = self.joints[c.index_b].predicted_position;

                let hit = Self::seg_hit(&bodies[o], dt, ap, bp);

                if let Option::Some((normal, cp)) = hit {
                    out.push(CollisionConstraint {
                        index: c.index_a, contact_point: cp, normal, object: o,
                    });
                    out.push(CollisionConstraint {
                        index: c.index_b, contact_point: cp, normal, object: o,
                    });
                }
            }
            proof {
                assert(out@ =~= out_base2 + gcc_seg_acc(self.joints@, self.constraints@, bodies@, string_aabb, dt as int, o as int, k as int + 1));
            }
            k = k + 1;
        }

        proof {
            assert(!gcc_bailed(self.joints@, bodies@, o as int));
            assert(out@ =~= out0 + gcc_body(self.joints@, self.constraints@, bodies@, string_aabb, dt as int, o as int));
        }
    }

    /// Find, for every rigid body, the joints and chain segments that
    /// will touch it this step: containment and ray tests per joint,
    /// segment and swept tests per constraint, pruned by the chain's
    /// and each body's bounding boxes.
    #[verifier::rlimit(100)]
    #[verifier::spinoff_prover]
    fn generate_collision_constraints(&self, dt: i64, bodies: &Vec<RigidBody>) -> (r: Vec<CollisionConstraint>)
        requires
            self.wf(bodies@.len() as int),
        ensures
            r@ == gcc_s(self.joints@, self.constraints@, bodies@, dt as int),
            forall|k: int| 0 <= k < r@.len() ==> (#[trigger] r@[k]).index < self.joints@.len()
                && r@[k].object < bodies@.len(),
    {
        let string_aabb = self.get_aabb();
        proof {
            assert(string_aabb == joints_aabb(self.joints@));
        }
        let n_bodies = bodies.len();

        let mut out: Vec<CollisionConstraint> = Vec::new();
        let mut o: usize = 0;
        while o < n_bodies
            invariant
                0 <= o <= n_bodies,
                n_bodies == bodies@.len(),
                self.wf(bodies@.len() as int),
                string_aabb == joints_aabb(self.joints@),
                out@ == gcc_acc(self.joints@, self.constraints@, bodies@, string_aabb, dt as int, o as int),
            decreases n_bodies - o,
        {
            self.gcc_for_body(dt, bodies, o, string_aabb, &mut out);
            proof {
                assert(out@ =~= gcc_acc(self.joints@, self.constraints@, bodies@, string_aabb, dt as int, o as int + 1));
            }
            o = o + 1;
        }
        let n_joints_x = self.joints.len();
        let n_constraints_x = self.constraints.len();
        proof {
            assert(self.joints@.len() == n_joints_x as int);
            assert(bodies@.len() == n_bodies as int);
            lemma_gcc_acc_valid(self.joints@, self.constraints@, bodies@, string_aabb, dt as int, bodies@.len() as int);
        }
        out
    }
}

/// One distance constraint projected onto the predicted positions:
/// both endpoints move toward each other, weighted by inverse mass and
/// stiffness.
pub open spec fn dist_project(joints: Seq<Joint>, bodies: Seq<RigidBody>, c: Constraint) -> Seq<Joint> {
    let a = joints[c.index_a as int];
    let b = joints[c.index_b as int];
    let rel = b.predicted_position.subs(a.predicted_position);
    let dist = rel.len_s();
    let a_im = a.inv_mass_s(bodies);
    let b_im = b.inv_mass_s(bodies);
    let denom = sadd(a_im, b_im);
    let stretch = ssub(dist, c.rest_length as int);
    let normal = rel.divs(dist);
    let a2 = Joint {
        predicted_position: a.predicted_position.adds(
            normal.scales(stretch).scales(c.stiffness as int).scales(a_im).divs(denom),
        ),
        ..a
    };
    let b2 = Joint {
        predicted_position: b.predicted_position.adds(
            normal.negs().scales(stretch).scales(c.stiffness as int).scales(b_im).divs(denom),
        ),
        ..b
    };
    joints.update(c.index_a as int, a2).update(c.index_b as int, b2)
}

/// One pass over the first `k` distance constraints: project each
/// stretched one; stop at the first whose stretch exceeds its tear
/// length and report its index.
pub open spec fn dist_pass(
    joints: Seq<Joint>, bodies: Seq<RigidBody>, constraints: Seq<Constraint>, k: int,
) -> (Seq<Joint>, Option<int>)
    decreases k,
{
    if k <= 0 {
        (joints, Option::None)
    } else {
        let prev = dist_pass(joints, bodies, constraints, k - 1);
        match prev.1 {
            Option::Some(t) => prev,
            Option::None => {
                let js = prev.0;
                let c = constraints[k - 1];
                let a = js[c.index_a as int];
                let b = js[c.index_b as int];
                let stretch = ssub(
                    b.predicted_position.subs(a.predicted_position).len_s(),
                    c.rest_length as int,
                );
                if stretch > c.tear_length {
                    (js, Option::Some(k - 1))
                } else if stretch > 0 {
                    (dist_project(js, bodies, c), Option::None)
                } else {
                    (js, Option::None)
                }
            },
        }
    }
}

/// One collision constraint projected: a joint that sank past the
/// contact plane is pushed out, and the body receives a velocity nudge
/// proportional to the mass ratio.
pub open spec fn coll_project(
    joints: Seq<Joint>, bodies: Seq<RigidBody>, cc: CollisionConstraint, dt: int,
) -> (Seq<Joint>, Seq<RigidBody>) {
    let j = joints[cc.index as int];
    let jim = j.inv_mass_s(bodies);
    let obj = bodies[cc.object as int];
    let oim = obj.inv_mass_s();
    let rel = j.predicted_position.subs(cc.contact_point);
    let depth = rel.dots(cc.normal);
    if depth < 0 {
        let denom = sadd(jim, oim);
        let obj2 = RigidBody {
            linear_velocity: obj.linear_velocity.adds(
                cc.normal.scales(depth).scales(oim).divs(fxm(denom, dt)),
            ),
            ..obj
        };
        let j2 = Joint {
            predicted_position: j.predicted_position.adds(cc.normal.negs().scales(depth)),
            ..j
        };
        (joints.update(cc.index as int, j2), bodies.update(cc.object as int, obj2))
    } else {
        (joints, bodies)
    }
}

/// One pass over the first `k` collision constraints.
pub open spec fn coll_pass(
    joints: Seq<Joint>, bodies: Seq<RigidBody>, ccs: Seq<CollisionConstraint>, dt: int, k: int,
) -> (Seq<Joint>, Seq<RigidBody>)
    decreases k,
{
    if k <= 0 {
        (joints, bodies)
    } else {
        let prev = coll_pass(joints, bodies, ccs, dt, k - 1);
        coll_project(prev.0, prev.1, ccs[k - 1], dt)
    }
}

/// The first `it` solver iterations: a distance pass then a collision
/// pass per iteration, stopping at the first tear.
pub open spec fn solve_iters(
    joints: Seq<Joint>, bodies: Seq<RigidBody>, constraints: Seq<Constraint>,
    ccs: Seq<CollisionConstraint>, dt: int, it: int,
) -> (Seq<Joint>, Seq<RigidBody>, Option<int>)
    decreases it,
{
    if it <= 0 {
        (joints, bodies, Option::None)
    } else {
        let prev = solve_iters(joints, bodies, constraints, ccs, dt, it - 1);
        match prev.2 {
            Option::Some(t) => prev,
            Option::None => {
                let dp = dist_pass(prev.0, prev.1, constraints, constraints.len() as int);
                match dp.1 {
                    Option::Some(t) => (dp.0, prev.1, Option::Some(t)),
                    Option::None => {
                        let cp = coll_pass(dp.0, prev.1, ccs, dt, ccs.len() as int);
                        (cp.0, cp.1, Option::None)
                    },
                }
            },
        }
    }
}

/// Velocities of the first `i` joints rebuilt from the position delta;
/// attached joints hand their delta to the host body instead.
pub open spec fn integ_acc(
    joints: Seq<Joint>, bodies: Seq<RigidBody>, dt: int, i: int,
) -> (Seq<Joint>, Seq<RigidBody>)
    decreases i,
{
    if i <= 0 {
        (joints, bodies)
    } else {
        let prev = integ_acc(joints, bodies, dt, i - 1);
        let js = prev.0;
        let bs = prev.1;
        let j = js[i - 1];
        let next_v = j.predicted_position.subs(j.position).divs(dt);
        match j.attachment {
            Option::Some(att) => {
                let obj = bs[att.body as int];
                if !obj.is_static {
                    (js, bs.update(att.body as int, RigidBody {
                        linear_velocity: obj.linear_velocity.adds(next_v.subs(j.velocity)),
                        ..obj
                    }))
                } else {
                    (js, bs)
                }
            },
            Option::None => (
                js.update(i - 1, Joint { position: j.predicted_position, velocity: next_v, ..j }),
                bs,
            ),
        }
    }
}

/// The impulse response of one joint-body contact: a restitution
/// impulse, then friction, as in the rigid-body resolver but with a
/// point mass on one side. The third component reports whether the
/// scan stops here (a separating or resting contact).
pub open spec fn rc_step(
    joints: Seq<Joint>, bodies: Seq<RigidBody>, cc: CollisionConstraint,
) -> (Seq<Joint>, Seq<RigidBody>, bool) {
    let p = joints[cc.index as int];
    let pim = p.inv_mass_s(bodies);
    let obj = bodies[cc.object as int];
    let oim = obj.inv_mass_s();
    let oii = obj.inv_inertia_s();
    let e = obj.material.restitution as int;
    let sf = obj.material.static_friction as int;
    let df = obj.material.dynamic_friction as int;
    let normal = cc.normal;
    let r = cc.contact_point.subs(obj.shape.center_s());
    let rel = p.velocity.subs(obj.linear_velocity.adds(r.perps().scales(obj.angular_velocity as int)));
    if rel.dots(normal) < 0 {
        (joints, bodies, true)
    } else {
        let v_rel = fxm(sneg(sadd(FX_ONE as int, e)), rel.dots(normal));
        let crn = r.crosses(normal);
        let denom = imax(sadd(sadd(pim, oim), fxm(fxm(crn, crn), oii)), FX_EPS as int);
        let jimp = fxd(v_rel, denom);
        let p_imp = normal.scales(jimp);
        let o_imp = normal.scales(sneg(jimp));
        let p1 = Joint { velocity: p.velocity.adds(p_imp.scales(pim)), ..p };
        let o1 = RigidBody {
            linear_velocity: obj.linear_velocity.adds(o_imp.scales(oim)),
            angular_velocity: sadd(obj.angular_velocity as int, fxm(r.crosses(o_imp), oii)) as i64,
            ..obj
        };
        let rel2 = p1.velocity.subs(o1.linear_velocity.adds(r.perps().scales(o1.angular_velocity as int)));
        let tangent0 = rel2.subs(normal.scales(rel2.dots(normal)));
        if tangent0.nearly_equal_s(Vec2 { x: 0, y: 0 }, 500) {
            (joints.update(cc.index as int, p1), bodies.update(cc.object as int, o1), true)
        } else {
            let tangent = tangent0.norm_s();
            let v_rel_t = sneg(rel2.dots(tangent));
            let crt = r.crosses(tangent);
            let denom_t = imax(sadd(sadd(pim, oim), fxm(fxm(crt, crt), oii)), FX_EPS as int);
            let jt0 = fxd(v_rel_t, denom_t);
            let jt = if sat64(iabs(jt0)) > fxm(sneg(jimp), sf) { fxm(jimp, df) } else { jt0 };
            let p_f = tangent.scales(jt);
            let o_f = tangent.scales(sneg(jt));
            let p2 = Joint { velocity: p1.velocity.adds(p_f.scales(pim)), ..p1 };
            let o2 = RigidBody {
                linear_velocity: o1.linear_velocity.adds(o_f.scales(oim)),
                angular_velocity: sadd(o1.angular_velocity as int, fxm(r.crosses(o_f), oii)) as i64,
                ..o1
            };
            (joints.update(cc.index as int, p2), bodies.update(cc.object as int, o2), false)
        }
    }
}

/// The impulse scan over the first `k` collision constraints, which
/// halts for the rest of the call once a step reports a stop.
pub open spec fn rc_acc(
    joints: Seq<Joint>, bodies: Seq<RigidBody>, ccs: Seq<CollisionConstraint>, k: int,
) -> (Seq<Joint>, Seq<RigidBody>, bool)
    decreases k,
{
    if k <= 0 {
        (joints, bodies, false)
    } else {
        let prev = rc_acc(joints, bodies, ccs, k - 1);
        if prev.2 {
            prev
        } else {
            rc_step(prev.0, prev.1, ccs[k - 1])
        }
    }
}

/// The joints this chain keeps after tearing at constraint `i`.
pub open spec fn tear_keep_joints(joints: Seq<Joint>, constraints: Seq<Constraint>, i: int) -> Seq<Joint> {
    if i == constraints.len() - 1 {
        joints.drop_last()
    } else if i == 0 {
        joints.subrange(1, joints.len() as int)
    } else {
        joints.subrange(0, i + 1)
    }
}

/// The constraints this chain keeps after tearing at constraint `i`.
pub open spec fn tear_keep_constraints(constraints: Seq<Constraint>, i: int) -> Seq<Constraint> {
    if i == constraints.len() - 1 {
        constraints.drop_last()
    } else if i == 0 {
        Seq::new((constraints.len() - 1) as nat, |k: int| Constraint {
            index_a: k as usize,
            index_b: (k + 1) as usize,
            ..constraints[k + 1]
        })
    } else {
        constraints.subrange(0, i)
    }
}

/// The second, newly independent chain a middle tear produces; an end
/// tear produces none.
pub open spec fn tear_new_parts(
    joints: Seq<Joint>, constraints: Seq<Constraint>, i: int,
) -> Option<(Seq<Joint>, Seq<Constraint>)> {
    if i == constraints.len() - 1 || i == 0 {
        Option::None
    } else {
        Option::Some((
            joints.subrange(i + 1, joints.len() as int),
            Seq::new((constraints.len() - 1 - i) as nat, |k: int| Constraint {
                index_a: k as usize,
                index_b: (k + 1) as usize,
                ..constraints[i + 1 + k]
            }),
        ))
    }
}

/// Does this joint's attachment point into an arena of `n_bodies`?
pub open spec fn att_ok(j: Joint, n_bodies: int) -> bool {
    match j.attachment {
        Option::Some(att) => att.body < n_bodies,
        Option::None => true,
    }
}

/// Tearing a canonical chain leaves canonical chains: both the kept
/// front and any torn-off rest have one more joint than constraints,
/// constraint `k` joins joints `k` and `k + 1`, and every attachment
/// still points into the same arena.
pub proof fn lemma_tear_wf(joints: Seq<Joint>, constraints: Seq<Constraint>, t: int, n_bodies: int)
    requires
        joints.len() >= 1,
        joints.len() <= usize::MAX,
        constraints.len() == joints.len() - 1,
        forall|k: int| 0 <= k < constraints.len() ==> (#[trigger] constraints[k]).index_a == k as usize
            && constraints[k].index_b == (k + 1) as usize,
        0 <= t < constraints.len(),
        forall|k: int| 0 <= k < joints.len() ==> att_ok(#[trigger] joints[k], n_bodies),
    ensures
        ({
            let kj = tear_keep_joints(joints, constraints, t);
            let kc = tear_keep_constraints(constraints, t);
            kj.len() >= 1
            && kc.len() == kj.len() - 1
            && (forall|k: int| 0 <= k < kc.len() ==> (#[trigger] kc[k]).index_a == k as usize
                && kc[k].index_b == (k + 1) as usize)
            && (forall|k: int| 0 <= k < kc.len() ==> (#[trigger] kc[k]).index_a < kj.len()
                && kc[k].index_b < kj.len() && kc[k].index_a != kc[k].index_b)
            && (forall|k: int| 0 <= k < kj.len() ==> att_ok(#[trigger] kj[k], n_bodies))
        }),
        ({
            match tear_new_parts(joints, constraints, t) {
                Option::Some(p) => p.0.len() >= 1
                    && p.1.len() == p.0.len() - 1
                    && (forall|k: int| 0 <= k < p.1.len() ==> (#[trigger] p.1[k]).index_a == k as usize
                        && p.1[k].index_b == (k + 1) as usize)
                    && (forall|k: int| 0 <= k < p.1.len() ==> (#[trigger] p.1[k]).index_a < p.0.len()
                        && p.1[k].index_b < p.0.len() && p.1[k].index_a != p.1[k].index_b)
                    && (forall|k: int| 0 <= k < p.0.len() ==> att_ok(#[trigger] p.0[k], n_bodies)),
                Option::None => true,
            }
        }),
{
    let kj = tear_keep_joints(joints, constraints, t);
    let kc = tear_keep_constraints(constraints, t);
    if t == constraints.len() - 1 {
        assert(forall|k: int| 0 <= k < kj.len() ==> #[trigger] kj[k] == joints[k]);
        assert(forall|k: int| 0 <= k < kc.len() ==> #[trigger] kc[k] == constraints[k]);
    } else if t == 0 {
        assert(forall|k: int| 0 <= k < kj.len() ==> #[trigger] kj[k] == joints[k + 1]);
    } else {
        assert(forall|k: int| 0 <= k < kj.len() ==> #[trigger] kj[k] == joints[k]);
        assert(forall|k: int| 0 <= k < kc.len() ==> #[trigger] kc[k] == constraints[k]);
        match tear_new_parts(joints, constraints, t) {
            Option::Some(p) => {
                assert(forall|k: int| 0 <= k < p.0.len() ==> #[trigger] p.0[k] == joints[t + 1 + k]);
            },
            Option::None => {},
        }
    }
}

impl SoftBody {
    /// The chain's canonical shape: constraint `k` joins joints `k` and
    /// `k + 1`, and there is one fewer constraint than joints.
    pub open spec fn chain_wf(self) -> bool {
        self.joints@.len() >= 1
        && self.constraints@.len() == self.joints@.len() - 1
        && forall|k: int| 0 <= k < self.constraints@.len() ==>
            (#[trigger] self.constraints@[k]).index_a == k as usize
            && self.constraints@[k].index_b == (k + 1) as usize
    }

    /// Split the chain at constraint `i`: a tear at either end just
    /// drops the end joint; a tear in the middle leaves this chain with
    /// the front part and hands back the rest as a new chain,
    /// reindexed from zero.
    pub fn tear_string_at(&mut self, i: usize) -> (r: Option<SoftBody>)
        requires
            old(self).chain_wf(),
            i < old(self).constraints@.len(),
        ensures
            final(self).joints@ == tear_keep_joints(old(self).joints@, old(self).constraints@, i as int),
            final(self).constraints@ == tear_keep_constraints(old(self).constraints@, i as int),
            final(self).damping == old(self).damping,
            match r {
                Option::Some(nb) => tear_new_parts(old(self).joints@, old(self).constraints@, i as int)
                    == Option::Some((nb.joints@, nb.constraints@)) && nb.damping == old(self).damping,
                Option::None => tear_new_parts(old(self).joints@, old(self).constraints@, i as int) is None,
            },
    {
        let nc = self.constraints.len();
        if i == nc - 1 {
            let _ = self.constraints.pop();
            let _ = self.joints.pop();
            Option::None
        } else if i == 0 {
            let _ = self.constraints.remove(0);
            let _ = self.joints.remove(0);
            let m = self.constraints.len();
            let ghost base = self.constraints@;
            let mut k: usize = 0;
            while k < m
                invariant
                    0 <= k <= m,
                    m == self.constraints@.len(),
                    m == base.len(),
                    self.joints@ == old(self).joints@.subrange(1, old(self).joints@.len() as int),
                    self.damping == old(self).damping,
                    base == old(self).constraints@.subrange(1, old(self).constraints@.len() as int),
                    forall|t: int| 0 <= t < base.len() ==> (#[trigger] base[t]).index_a >= 1
                        && base[t].index_b >= 1,
                    forall|t: int| k as int <= t < m as int ==> #[trigger] self.constraints@[t] == base[t],
                    forall|t: int| 0 <= t < k as int ==> #[trigger] self.constraints@[t] == (Constraint {
                        index_a: (base[t].index_a - 1) as usize,
                        index_b: (base[t].index_b - 1) as usize,
                        ..base[t]
                    }),
                decreases m - k,
            {
                let c = self.constraints[k];
                proof {
                    assert(base[k as int].index_a >= 1 && base[k as int].index_b >= 1);
                }
                self.constraints.set(k, Constraint {
                    index_a: c.index_a - 1,
                    index_b: c.index_b - 1,
                    ..c
                });
                k = k + 1;
            }
            proof {
                assert(self.constraints@ =~= tear_keep_constraints(old(self).constraints@, i as int));
            }
            Option::None
        } else {
            let _ = self.constraints.remove(i);
            let mut new_constraints = self.constraints.split_off(i);
            let m = new_constraints.len();
            let ghost base = new_constraints@;
            let mut k: usize = 0;
            while k < m
                invariant
                    0 <= k <= m,
                    m == new_constraints@.len(),
                    m == base.len(),
                    forall|t: int| k as int <= t < m as int ==> #[trigger] new_constraints@[t] == base[t],
                    forall|t: int| 0 <= t < k as int ==> #[trigger] new_constraints@[t] == (Constraint {
                        index_a: t as usize,
                        index_b: (t + 1) as usize,
                        ..base[t]
                    }),
                decreases m - k,
            {
                let c = new_constraints[k];
                new_constraints.set(k, Constraint {
                    index_a: k,
                    index_b: k + 1,
                    ..c
                });
                k = k + 1;
            }
            let new_joints = self.joints.split_off(i + 1);
            proof {
                assert(self.constraints@ =~= tear_keep_constraints(old(self).constraints@, i as int));
                assert(self.joints@ =~= tear_keep_joints(old(self).joints@, old(self).constraints@, i as int));
                assert(new_constraints@ =~= Seq::new(
                    (old(self).constraints@.len() - 1 - i as int) as nat,
                    |k: int| Constraint {
                        index_a: k as usize,
                        index_b: (k + 1) as usize,
                        ..old(self).constraints@[i as int + 1 + k]
                    },
                ));
            }
            Option::Some(SoftBody {
                joints: new_joints,
                constraints: new_constraints,
                damping: self.damping,
            })
        }
    }

    /// Run the projection iterations: per iteration one distance pass
    /// (stopping at the first tear) and one collision pass. Hands back
    /// the tearing constraint's index, if one was found.
    #[verifier::rlimit(100)]
    fn solve_iterations(
        &mut self, bodies: &mut Vec<RigidBody>, ccs: &Vec<CollisionConstraint>, dt: i64,
    ) -> (r: Option<usize>)
        requires
            old(self).wf(old(bodies)@.len() as int),
            forall|k: int| 0 <= k < old(bodies)@.len() ==> (#[trigger] old(bodies)@[k]).wf(),
            forall|k: int| 0 <= k < ccs@.len() ==> (#[trigger] ccs@[k]).index < old(self).joints@.len()
                && ccs@[k].object < old(bodies)@.len(),
        ensures
            ({
                let solved = solve_iters(
                    old(self).joints@, old(bodies)@, old(self).constraints@, ccs@,
                    dt as int, CONSTRAINT_ITERATIONS as int,
                );
                final(self).joints@ == solved.0 && final(bodies)@ == solved.1
                && match r {
                    Option::Some(t) => solved.2 == Option::Some(t as int)
                        && t < old(self).constraints@.len(),
                    Option::None => solved.2 is None,
                }
            }),
            final(self).constraints == old(self).constraints,
            final(self).damping == old(self).damping,
            final(self).joints@.len() == old(self).joints@.len(),
            final(bodies)@.len() == old(bodies)@.len(),
            forall|k: int| 0 <= k < old(bodies)@.len() ==> (#[trigger] final(bodies)@[k]).shape == old(bodies)@[k].shape
                && final(bodies)@[k].material == old(bodies)@[k].material
                && final(bodies)@[k].is_static == old(bodies)@[k].is_static,
            forall|k: int| 0 <= k < old(self).joints@.len() ==> (#[trigger] final(self).joints@[k]).attachment
                == old(self).joints@[k].attachment,
    {
        let ghost j0 = self.joints@;
        let ghost b0 = bodies@;
        let ghost cs = self.constraints@;
        let n_c = self.constraints.len();
        let n_cc = ccs.len();
        let n_j = self.joints.len();
        let n_b = bodies.len();
        let mut tear: Option<usize> = Option::None;
        let mut it: usize = 0;
        while it < CONSTRAINT_ITERATIONS
            invariant
                0 <= it <= CONSTRAINT_ITERATIONS,
                n_c == cs.len(), n_cc == ccs@.len(), n_j == j0.len(), n_b == b0.len(),
                self.constraints@ == cs,
                self.constraints == old(self).constraints,
                self.damping == old(self).damping,
                self.joints@.len() == n_j,
                bodies@.len() == n_b,
                j0 == old(self).joints@, b0 == old(bodies)@, cs == old(self).constraints@,
                old(self).wf(b0.len() as int),
                forall|k: int| 0 <= k < ccs@.len() ==> (#[trigger] ccs@[k]).index < n_j
                    && ccs@[k].object < n_b,
                forall|k: int| 0 <= k < n_b as int ==> (#[trigger] bodies@[k]).shape == b0[k].shape
                    && bodies@[k].material == b0[k].material
                    && bodies@[k].is_static == b0[k].is_static,
                forall|k: int| 0 <= k < n_b as int ==> (#[trigger] bodies@[k]).wf(),
                forall|k: int| 0 <= k < b0.len() ==> (#[trigger] b0[k]).wf(),
                forall|k: int| 0 <= k < n_j as int ==> (#[trigger] self.joints@[k]).attachment
                    == j0[k].attachment,
                ({
                    let solved = solve_iters(j0, b0, cs, ccs@, dt as int, it as int);
                    self.joints@ == solved.0 && bodies@ == solved.1
                    && match tear {
                        Option::Some(t) => solved.2 == Option::Some(t as int) && t < n_c,
                        Option::None => solved.2 is None,
                    }
                }),
            decreases CONSTRAINT_ITERATIONS - it,
        {
            if tear.is_none() {
                let ghost jd0 = self.joints@;
                let ghost bd0 = bodies@;
                let mut tear_idx: Option<usize> = Option::None;
                let mut k: usize = 0;
                while k < n_c
                    invariant
                        0 <= k <= n_c,
                        n_c == cs.len(), n_j == j0.len(), n_b == b0.len(),
                        self.constraints@ == cs,
                        self.constraints == old(self).constraints,
                        self.damping == old(self).damping,
                        self.joints@.len() == n_j,
                        bodies@.len() == n_b,
                        bodies@ == bd0,
                        j0 == old(self).joints@, b0 == old(bodies)@, cs == old(self).constraints@,
                        old(self).wf(b0.len() as int),
                        forall|t: int| 0 <= t < n_b as int ==> (#[trigger] bodies@[t]).wf(),
                        forall|t: int| 0 <= t < n_j as int ==> (#[trigger] jd0[t]).attachment
                            == j0[t].attachment,
                        jd0.len() == n_j,
                        forall|t: int| 0 <= t < n_j as int ==> (#[trigger] self.joints@[t]).attachment
                            == jd0[t].attachment,
                        ({
                            let dp = dist_pass(jd0, bodies@, cs, k as int);
                            self.joints@ == dp.0
                            && match tear_idx {
                                Option::Some(t) => dp.1 == Option::Some(t as int) && t < n_c,
                                Option::None => dp.1 is None,
                            }
                        }),
                    decreases n_c - k,
                {
                    if tear_idx.is_none() {
                        let c = self.constraints[k];
                        proof {
                            assert(old(self).constraints@[k as int] == c);
                            assert(c.index_a < n_j && c.index_b < n_j && c.index_a != c.index_b);
                        }
                        let a = self.joints[c.index_a];
                        let b = self.joints[c.index_b];
                        proof {
                            assert(a.attachment == j0[c.index_a as int].attachment);
                            assert(b.attachment == j0[c.index_b as int].attachment);
                            assert(old(self).joints@[c.index_a as int].attachment == a.attachment);
                            assert(old(self).joints@[c.index_b as int].attachment == b.attachment);
                        }
                        let rel = b.predicted_position.vsub(a.predicted_position);
                        let dist = rel.vlen();
                        let stretch = sat_sub(dist, c.rest_length);
                        if stretch > c.tear_length {
                            tear_idx = Option::Some(k);
                        } else if stretch > 0 {
                            let a_im = match &a.attachment {
                                Option::Some(att) => bodies[att.body].get_inv_mass(),
                                Option::None => fx_div(FX_ONE, a.mass),
                            };
                            let b_im = match &b.attachment {
                                Option::Some(att) => bodies[att.body].get_inv_mass(),
                                Option::None => fx_div(FX_ONE, b.mass),
                            };
                            let denom = sat_add(a_im, b_im);
                            let normal = rel.vdivs(dist);
                            let a2 = Joint {
                                predicted_position: a.predicted_position.vadd(
                                    normal.vscale(stretch).vscale(c.stiffness).vscale(a_im).vdivs(denom),
                                ),
                                ..a
                            };
                            let b2 = Joint {
                                predicted_position: b.predicted_position.vadd(
                                    normal.vneg().vscale(stretch).vscale(c.stiffness).vscale(b_im).vdivs(denom),
                                ),
                                ..b
                            };
                            let ghost js_pre = self.joints@;
                            self.joints.set(c.index_a, a2);
                            self.joints.set(c.index_b, b2);
                            proof {
                                assert(self.joints@ =~= dist_project(js_pre, bodies@, cs[k as int]));
                            }
                        }
                    }
                    k = k + 1;
                }

                if let Option::Some(ti) = tear_idx {
                    tear = Option::Some(ti);
                } else {
                    let ghost jc0 = self.joints@;
                    let ghost bc0 = bodies@;
                    let mut k2: usize = 0;
                    while k2 < n_cc
                        invariant
                            0 <= k2 <= n_cc,
                            n_cc == ccs@.len(), n_j == j0.len(), n_b == b0.len(),
                            self.constraints@ == cs,
                            self.constraints == old(self).constraints,
                            self.damping == old(self).damping,
                            self.joints@.len() == n_j,
                            bodies@.len() == n_b,
                            jc0.len() == n_j,
                            bc0.len() == n_b,
                            j0 == old(self).joints@, b0 == old(bodies)@, cs == old(self).constraints@,
                            old(self).wf(b0.len() as int),
                            forall|t: int| 0 <= t < ccs@.len() ==> (#[trigger] ccs@[t]).index < n_j
                                && ccs@[t].object < n_b,
                            forall|t: int| 0 <= t < n_b as int ==> (#[trigger] bc0[t]).wf(),
                            forall|t: int| 0 <= t < n_b as int ==> (#[trigger] bodies@[t]).wf(),
                            forall|t: int| 0 <= t < n_b as int ==> (#[trigger] bodies@[t]).shape == bc0[t].shape
                                && bodies@[t].material == bc0[t].material
                                && bodies@[t].is_static == bc0[t].is_static,
                            forall|t: int| 0 <= t < n_j as int ==> (#[trigger] jc0[t]).attachment
                                == j0[t].attachment,
                            forall|t: int| 0 <= t < n_j as int ==> (#[trigger] self.joints@[t]).attachment
                                == jc0[t].attachment,
                            (self.joints@, bodies@) == coll_pass(jc0, bc0, ccs@, dt as int, k2 as int),
                        decreases n_cc - k2,
                    {
                        let cc = ccs[k2];
                        let j = self.joints[cc.index];
                        proof {
                            assert(j.attachment == jc0[cc.index as int].attachment);
                            assert(jc0[cc.index as int].attachment == j0[cc.index as int].attachment);
                            assert(old(self).joints@[cc.index as int].attachment == j.attachment);
                        }
                        let jim = match &j.attachment {
                            Option::Some(att) => bodies[att.body].get_inv_mass(),
                            Option::None => fx_div(FX_ONE, j.mass),
                        };
                        let oim = bodies[cc.object].get_inv_mass();
                        let rel = j.predicted_position.vsub(cc.contact_point);
                        let depth = rel.vdot(cc.normal);
                        if depth < 0 {
                            let denom = sat_add(jim, oim);
                            let olv = bodies[cc.object].linear_velocity;
                            bodies[cc.object].linear_velocity = olv.vadd(
                                cc.normal.vscale(depth).vscale(oim).vdivs(fx_mul(denom, dt)),
                            );
                            let j2 = Joint {
                                predicted_position: j.predicted_position.vadd(cc.normal.vneg().vscale(depth)),
                                ..j
                            };
                            self.joints.set(cc.index, j2);
                            proof {
                                assert((self.joints@, bodies@)
                                    =~= coll_pass(jc0, bc0, ccs@, dt as int, k2 as int + 1));
                                assert forall|t: int| 0 <= t < n_b as int implies (#[trigger] bodies@[t]).wf() by {
                                    lemma_wf_same_shape(bc0[t], bodies@[t]);
                                };
                            }
                        }
                        k2 = k2 + 1;
                    }
                }
            }
            it = it + 1;
        }
        tear
    }

    /// Rebuild every joint's velocity from its position delta; an
    /// attached joint pushes the delta onto its dynamic host instead.
    fn integrate_velocities(&mut self, bodies: &mut Vec<RigidBody>, dt: i64)
        requires
            old(self).wf(old(bodies)@.len() as int),
        ensures
            ({
                let ig = integ_acc(old(self).joints@, old(bodies)@, dt as int, old(self).joints@.len() as int);
                final(self).joints@ == ig.0 && final(bodies)@ == ig.1
            }),
            final(self).constraints == old(self).constraints,
            final(self).damping == old(self).damping,
            final(bodies)@.len() == old(bodies)@.len(),
            forall|k: int| 0 <= k < old(bodies)@.len() ==> (#[trigger] final(bodies)@[k]).shape == old(bodies)@[k].shape
                && final(bodies)@[k].material == old(bodies)@[k].material
                && final(bodies)@[k].is_static == old(bodies)@[k].is_static,
            final(self).joints@.len() == old(self).joints@.len(),
            forall|k: int| 0 <= k < old(self).joints@.len() ==> (#[trigger] final(self).joints@[k]).attachment
                == old(self).joints@[k].attachment,
    {
        let ghost j0 = self.joints@;
        let ghost b0 = bodies@;
        let n = self.joints.len();
        let n_b = bodies.len();
        let mut i: usize = 0;
        while i < n
            invariant
                0 <= i <= n,
                n == j0.len(), n_b == b0.len(),
                j0 == old(self).joints@, b0 == old(bodies)@,
                old(self).wf(b0.len() as int),
                self.constraints == old(self).constraints,
                self.damping == old(self).damping,
                self.joints@.len() == n,
                bodies@.len() == n_b,
                forall|k: int| 0 <= k < n_b as int ==> (#[trigger] bodies@[k]).shape == b0[k].shape
                    && bodies@[k].material == b0[k].material
                    && bodies@[k].is_static == b0[k].is_static,
                forall|k: int| 0 <= k < n as int ==> (#[trigger] self.joints@[k]).attachment
                    == j0[k].attachment,
                forall|k: int| i as int <= k < n as int ==> #[trigger] self.joints@[k] == j0[k],
                (self.joints@, bodies@) == integ_acc(j0, b0, dt as int, i as int),
            decreases n - i,
        {
            let j = self.joints[i];
            let next_velocity = j.predicted_position.vsub(j.position).vdivs(dt);
            match &j.attachment {
                Option::Some(att) => {
                    if !bodies[att.body].is_static {
                        let olv = bodies[att.body].linear_velocity;
                        bodies[att.body].linear_velocity = olv.vadd(next_velocity.vsub(j.velocity));
                    }
                },
                Option::None => {
                    self.joints.set(i, Joint {
                        position: j.predicted_position,
                        velocity: next_velocity,
                        ..j
                    });
                },
            }
            i = i + 1;
        }
    }

    /// The impulse response between joints and the bodies they touched:
    /// restitution plus Coulomb friction, one side being a point mass.
    /// The scan stops at the first separating or resting contact.
    #[verifier::rlimit(100)]
    fn resolve_collisions(&mut self, collision_constraints: &Vec<CollisionConstraint>, bodies: &mut Vec<RigidBody>)
        requires
            old(self).wf(old(bodies)@.len() as int),
            forall|k: int| 0 <= k < old(bodies)@.len() ==> (#[trigger] old(bodies)@[k]).wf(),
            forall|k: int| 0 <= k < collision_constraints@.len() ==>
                (#[trigger] collision_constraints@[k]).index < old(self).joints@.len()
                && collision_constraints@[k].object < old(bodies)@.len(),
        ensures
            ({
                let rc = rc_acc(old(self).joints@, old(bodies)@, collision_constraints@, collision_constraints@.len() as int);
                final(self).joints@ == rc.0 && final(bodies)@ == rc.1
            }),
            final(self).constraints == old(self).constraints,
            final(self).damping == old(self).damping,
            final(self).joints@.len() == old(self).joints@.len(),
            forall|k: int| 0 <= k < old(self).joints@.len() ==> (#[trigger] final(self).joints@[k]).attachment
                == old(self).joints@[k].attachment,
            final(bodies)@.len() == old(bodies)@.len(),
            forall|k: int| 0 <= k < old(bodies)@.len() ==> (#[trigger] final(bodies)@[k]).shape == old(bodies)@[k].shape
                && final(bodies)@[k].material == old(bodies)@[k].material
                && final(bodies)@[k].is_static == old(bodies)@[k].is_static,
    {
        let ghost j0 = self.joints@;
        let ghost b0 = bodies@;
        let n_cc = collision_constraints.len();
        let n_j = self.joints.len();
        let n_b = bodies.len();
        let mut stopped = false;
        let mut k: usize = 0;
        while k < n_cc
            invariant
                0 <= k <= n_cc,
                n_cc == collision_constraints@.len(),
                n_j == j0.len(), n_b == b0.len(),
                j0 == old(self).joints@, b0 == old(bodies)@,
                old(self).wf(b0.len() as int),
                self.constraints == old(self).constraints,
                self.damping == old(self).damping,
                self.joints@.len() == n_j,
                bodies@.len() == n_b,
                forall|t: int| 0 <= t < n_cc as int ==> (#[trigger] collision_constraints@[t]).index < n_j
                    && collision_constraints@[t].object < n_b,
                forall|t: int| 0 <= t < n_b as int ==> (#[trigger] bodies@[t]).shape == b0[t].shape
                    && bodies@[t].material == b0[t].material
                    && bodies@[t].is_static == b0[t].is_static,
                forall|t: int| 0 <= t < n_b as int ==> (#[trigger] bodies@[t]).wf(),
                forall|t: int| 0 <= t < n_b as int ==> (#[trigger] b0[t]).wf(),
                forall|t: int| 0 <= t < n_j as int ==> (#[trigger] self.joints@[t]).attachment
                    == j0[t].attachment,
                (self.joints@, bodies@, stopped) == rc_acc(j0, b0, collision_constraints@, k as int),
            decreases n_cc - k,
        {
            if !stopped {
                let cc = collision_constraints[k];
                let p = self.joints[cc.index];
                proof {
                    assert(p.attachment == j0[cc.index as int].attachment);
                    assert(old(self).joints@[cc.index as int].attachment == p.attachment);
                }
                let p_inv_mass = match &p.attachment {
                    Option::Some(att) => bodies[att.body].get_inv_mass(),
                    Option::None => fx_div(FX_ONE, p.mass),
                };

                let obj_inv_mass = bodies[cc.object].get_inv_mass();
                let obj_inv_inertia = bodies[cc.object].get_inv_inertia();

                let restitution = bodies[cc.object].material.restitution;
                let sf = bodies[cc.object].material.static_friction;
                let df = bodies[cc.object].material.dynamic_friction;

                let normal = cc.normal;
                let r = cc.contact_point.vsub(bodies[cc.object].shape.get_center());
                let obj_lv = bodies[cc.object].linear_velocity;
                let obj_w = bodies[cc.object].angular_velocity;
                let relative_velocity = p.velocity.vsub(obj_lv.vadd(r.vperp().vscale(obj_w)));

                if relative_velocity.vdot(normal) < 0 {
                    stopped = true;
                } else {
                    let v_rel = fx_mul(sat_neg(sat_add(FX_ONE, restitution)), relative_velocity.vdot(normal));
                    let crn = r.vcross(normal);
                    let denom = fx_max(
                        sat_add(sat_add(p_inv_mass, obj_inv_mass), fx_mul(fx_mul(crn, crn), obj_inv_inertia)),
                        FX_EPS,
                    );
                    let jimp = fx_div(v_rel, denom);
                    let p_impulse = normal.vscale(jimp);
                    let obj_impulse = normal.vscale(sat_neg(jimp));

                    let p1 = Joint { velocity: p.velocity.vadd(p_impulse.vscale(p_inv_mass)), ..p };
                    bodies[cc.object].linear_velocity = obj_lv.vadd(obj_impulse.vscale(obj_inv_mass));
                    bodies[cc.object].angular_velocity = sat_add(obj_w, fx_mul(r.vcross(obj_impulse), obj_inv_inertia));

                    let o_lv1 = bodies[cc.object].linear_velocity;
                    let o_w1 = bodies[cc.object].angular_velocity;
                    let relative_velocity = p1.velocity.vsub(o_lv1.vadd(r.vperp().vscale(o_w1)));
                    let tangent0 = relative_velocity.vsub(normal.vscale(relative_velocity.vdot(normal)));
                    if tangent0.nearly_equal(Vec2 { x: 0, y: 0 }, 500) {
                        self.joints.set(cc.index, p1);
                        stopped = true;
                    } else {
                        let tangent = tangent0.vnorm();
                        let v_rel_t = sat_neg(relative_velocity.vdot(tangent));
                        let crt = r.vcross(tangent);
                        let denom_t = fx_max(
                            sat_add(sat_add(p_inv_mass, obj_inv_mass), fx_mul(fx_mul(crt, crt), obj_inv_inertia)),
                            FX_EPS,
                        );
                        let mut jt = fx_div(v_rel_t, denom_t);
                        if fx_abs(jt) > fx_mul(sat_neg(jimp), sf) {
                            jt = fx_mul(jimp, df);
                        }
                        let p_friction = tangent.vscale(jt);
                        let obj_friction = tangent.vscale(sat_neg(jt));

                        let p2 = Joint { velocity: p1.velocity.vadd(p_friction.vscale(p_inv_mass)), ..p1 };
                        self.joints.set(cc.index, p2);
                        bodies[cc.object].linear_velocity = o_lv1.vadd(obj_friction.vscale(obj_inv_mass));
                        bodies[cc.object].angular_velocity = sat_add(o_w1, fx_mul(r.vcross(obj_friction), obj_inv_inertia));
                    }
                }
            }
            proof {
                assert forall|t: int| 0 <= t < n_b as int implies (#[trigger] bodies@[t]).wf() by {
                    lemma_wf_same_shape(b0[t], bodies@[t]);
                };
            }
            k = k + 1;
        }
    }

    /// The joints as they stand right before the projection
    /// iterations: synced or integrated, damped, and predicted ahead.
    #[verifier::opaque]
    pub open spec fn pre_iter_joints(sb: SoftBody, bodies: Seq<RigidBody>, physics: PhysicsData) -> Seq<Joint> {
        let j1 = Seq::new(sb.joints@.len(), |k: int|
            SoftBody::sync_joint_s(sb.joints@[k], bodies, physics));
        let j2 = SoftBody::damp_s(j1, bodies, sb.damping as int);
        Seq::new(j2.len(), |k: int| Joint {
            predicted_position: j2[k].position.adds(j2[k].velocity.scales(physics.dt as int)),
            ..j2[k]
        })
    }

    /// The collision constraints one step discovers.
    #[verifier::opaque]
    pub open spec fn step_ccs(sb: SoftBody, bodies: Seq<RigidBody>, physics: PhysicsData) -> Seq<CollisionConstraint> {
        gcc_s(Self::pre_iter_joints(sb, bodies, physics), sb.constraints@, bodies, physics.dt as int)
    }

    /// The state after the projection iterations of one step.
    #[verifier::opaque]
    pub open spec fn step_solved(sb: SoftBody, bodies: Seq<RigidBody>, physics: PhysicsData) -> (Seq<Joint>, Seq<RigidBody>, Option<int>) {
        solve_iters(
            Self::pre_iter_joints(sb, bodies, physics), bodies, sb.constraints@,
            Self::step_ccs(sb, bodies, physics), physics.dt as int, CONSTRAINT_ITERATIONS as int,
        )
    }

    /// Report every collision constraint's contact point and normal.
    fn push_contact_debug(collision_constraints: &Vec<CollisionConstraint>, contacts: &mut Vec<ContactDebug>)
        ensures
            final(contacts)@ == old(contacts)@ + Seq::new(collision_constraints@.len(), |k: int| ContactDebug {
                contact: collision_constraints@[k].contact_point,
                normal: collision_constraints@[k].normal,
            }),
    {
        let n_cc = collision_constraints.len();
        let ghost c0 = contacts@;
        let mut ci: usize = 0;
        while ci < n_cc
            invariant
                0 <= ci <= n_cc,
                n_cc == collision_constraints@.len(),
                contacts@ == c0 + Seq::new(ci as nat, |k: int| ContactDebug {
                    contact: collision_constraints@[k].contact_point,
                    normal: collision_constraints@[k].normal,
                }),
            decreases n_cc - ci,
        {
            let cc = collision_constraints[ci];
            contacts.push(ContactDebug { contact: cc.contact_point, normal: cc.normal });
            proof {
                assert(contacts@ =~= c0 + Seq::new((ci + 1) as nat, |k: int| ContactDebug {
                    contact: collision_constraints@[k].contact_point,
                    normal: collision_constraints@[k].normal,
                }));
            }
            ci = ci + 1;
        }
    }

    /// The preparation half of one step: sync or integrate the joints,
    /// damp, predict, and gather the collision constraints, reporting
    /// their contact points through `contacts`.
    #[verifier::rlimit(100)]
    #[verifier::spinoff_prover]
    fn step_prepare(
        &mut self, physics: &PhysicsData, bodies: &Vec<RigidBody>, contacts: &mut Vec<ContactDebug>,
    ) -> (ccs: Vec<CollisionConstraint>)
        requires
            old(self).wf(bodies@.len() as int),
            forall|k: int| 0 <= k < bodies@.len() ==> (#[trigger] bodies@[k]).wf(),
        ensures
            final(self).joints@ == Self::pre_iter_joints(*old(self), bodies@, *physics),
            final(self).constraints == old(self).constraints,
            final(self).damping == old(self).damping,
            final(self).joints@.len() == old(self).joints@.len(),
            final(self).wf(bodies@.len() as int),
            ccs@ == Self::step_ccs(*old(self), bodies@, *physics),
            final(contacts)@ == old(contacts)@ + Seq::new(ccs@.len(), |k: int| ContactDebug {
                contact: ccs@[k].contact_point,
                normal: ccs@[k].normal,
            }),
            forall|k: int| 0 <= k < ccs@.len() ==> (#[trigger] ccs@[k]).index < final(self).joints@.len()
                && ccs@[k].object < bodies@.len(),
    {
        self.sync_joints(bodies, physics);
        self.damp_velocities(bodies);
        self.predict(physics.dt);
        proof {
            reveal(SoftBody::pre_iter_joints);
            assert(self.joints@ =~= Self::pre_iter_joints(*old(self), bodies@, *physics));
            assert forall|k: int| 0 <= k < self.joints@.len()
                implies (#[trigger] self.joints@[k]).attachment == old(self).joints@[k].attachment by {
            };
        }

        let collision_constraints = self.generate_collision_constraints(physics.dt, bodies);
        proof {
            reveal(SoftBody::step_ccs);
            assert(collision_constraints@ == Self::step_ccs(*old(self), bodies@, *physics));
        }

        Self::push_contact_debug(&collision_constraints, contacts);
        collision_constraints
    }

    /// One full soft-body step: sync and integrate the joints, damp,
    /// predict, gather collision constraints (reporting their contact
    /// points through `contacts`), run the projection iterations, then
    /// rebuild velocities and resolve joint-body impulses. A tear stops
    /// the call early and hands back the torn-off chain, if any.
    #[verifier::rlimit(100)]
    #[verifier::spinoff_prover]
    pub fn resolve_constraints(
        &mut self, physics: &PhysicsData, bodies: &mut Vec<RigidBody>, contacts: &mut Vec<ContactDebug>,
    ) -> (r: Option<SoftBody>)
        requires
            old(self).wf(old(bodies)@.len() as int),
            old(self).chain_wf(),
            forall|k: int| 0 <= k < old(bodies)@.len() ==> (#[trigger] old(bodies)@[k]).wf(),
        ensures
            ({
                let ccs = Self::step_ccs(*old(self), old(bodies)@, *physics);
                let solved = Self::step_solved(*old(self), old(bodies)@, *physics);
                final(contacts)@ == old(contacts)@ + Seq::new(ccs.len(), |k: int|
                    ContactDebug { contact: ccs[k].contact_point, normal: ccs[k].normal })
                && final(self).damping == old(self).damping
                && match solved.2 {
                    Option::Some(t) => {
                        final(bodies)@ == solved.1
                        && final(self).joints@ == tear_keep_joints(solved.0, old(self).constraints@, t)
                        && final(self).constraints@ == tear_keep_constraints(old(self).constraints@, t)
                        && match r {
                            Option::Some(nb) => tear_new_parts(solved.0, old(self).constraints@, t)
                                == Option::Some((nb.joints@, nb.constraints@))
                                && nb.damping == old(self).damping,
                            Option::None => tear_new_parts(solved.0, old(self).constraints@, t) is None,
                        }
                    },
                    Option::None => ({
                        let ig = integ_acc(solved.0, solved.1, physics.dt as int, solved.0.len() as int);
                        let rc = rc_acc(ig.0, ig.1, ccs, ccs.len() as int);
                        final(self).joints@ == rc.0
                        && final(self).constraints@ == old(self).constraints@
                        && final(bodies)@ == rc.1
                        && r is None
                    }),
                }
            }),
            final(bodies)@.len() == old(bodies)@.len(),
            forall|k: int| 0 <= k < old(bodies)@.len() ==> (#[trigger] final(bodies)@[k]).shape == old(bodies)@[k].shape
                && final(bodies)@[k].material == old(bodies)@[k].material
                && final(bodies)@[k].is_static == old(bodies)@[k].is_static,
            final(self).wf(old(bodies)@.len() as int),
            final(self).chain_wf(),
            match r {
                Option::Some(nb) => nb.wf(old(bodies)@.len() as int) && nb.chain_wf(),
                Option::None => true,
            },
    {
        let collision_constraints = self.step_prepare(physics, bodies, contacts);

        let ghost j_pre = self.joints@;
        let ghost b_pre = bodies@;
        let tear = self.solve_iterations(bodies, &collision_constraints, physics.dt);
        proof {
            reveal(SoftBody::step_solved);
            assert(Self::step_solved(*old(self), old(bodies)@, *physics)
                == solve_iters(j_pre, b_pre, old(self).constraints@, collision_constraints@,
                    physics.dt as int, CONSTRAINT_ITERATIONS as int));
        }

        proof {
            assert(self.joints@.len() == old(self).joints@.len());
            assert forall|k: int| 0 <= k < self.joints@.len()
                implies att_ok(#[trigger] self.joints@[k], old(bodies)@.len() as int) by {
                assert(self.joints@[k].attachment == j_pre[k].attachment);
            };
        }

        if let Option::Some(i) = tear {
            let ghost js_t = self.joints@;
            let ghost cs_t = self.constraints@;
            let ghost nb_len = old(bodies)@.len() as int;
            let n_live = self.joints.len();
            proof {
                assert(js_t.len() == n_live as int);
                assert(self.chain_wf());
                lemma_tear_wf(js_t, cs_t, i as int, nb_len);
            }
            let torn = self.tear_string_at(i);
            proof {
                let kj = tear_keep_joints(js_t, cs_t, i as int);
                let kc = tear_keep_constraints(cs_t, i as int);
                assert(self.joints@ == kj && self.constraints@ == kc);
                assert forall|k: int| 0 <= k < self.constraints@.len() implies {
                    let c = #[trigger] self.constraints@[k];
                    c.index_a < self.joints@.len() && c.index_b < self.joints@.len() && c.index_a != c.index_b
                } by {
                    assert(kc[k].index_a == k as usize && kc[k].index_b == (k + 1) as usize);
                };
                assert(self.wf(nb_len));
                assert(self.chain_wf());
                match &torn {
                    Option::Some(nb) => {
                        assert(tear_new_parts(js_t, cs_t, i as int)
                            == Option::Some((nb.joints@, nb.constraints@)));
                        assert forall|k: int| 0 <= k < nb.constraints@.len() implies {
                            let c = #[trigger] nb.constraints@[k];
                            c.index_a < nb.joints@.len() && c.index_b < nb.joints@.len() && c.index_a != c.index_b
                        } by {
                            assert(nb.constraints@[k].index_a == k as usize
                                && nb.constraints@[k].index_b == (k + 1) as usize);
                        };
                        assert(nb.wf(nb_len));
                        assert(nb.chain_wf());
                    },
                    Option::None => {},
                }
            }
            return torn;
        }

        self.integrate_velocities(bodies, physics.dt);
        self.resolve_collisions(&collision_constraints, bodies);
        proof {
            assert(self.wf(old(bodies)@.len() as int));
            assert(self.chain_wf());
        }

        Option::None
    }
}

} // verus!