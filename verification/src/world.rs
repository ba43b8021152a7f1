//! The per-frame simulation step over all bodies and strings.

use vstd::prelude::*;
use rand::SeedableRng;
use rand::seq::SliceRandom;
use crate::vec2::Vec2;
use crate::body::{RigidBody, collide_with_s, resolve_collision_s};
use crate::soft::{
    SoftBody, Joint, Constraint, integ_acc, rc_acc,
    tear_keep_joints, tear_keep_constraints, tear_new_parts,
};
use crate::collision::CollisionData;
use crate::pairs::get_pair_mut;

verus! {

/// How many outer passes the impulse solver makes over all colliding
/// pairs per step.
pub const PHYSICS_ITERATIONS: usize = 8;

/// Plain numeric configuration of the physics step.
#[derive(Clone, Copy, Debug, PartialEq, Eq, Structural)]
pub struct PhysicsData {
    /// Acceleration applied to every dynamic body, per second.
    pub gravity: Vec2,
    /// Linear drag coefficient; velocities shrink by `air_density * dt`
    /// each step.
    pub air_density: i64,
    /// Timestep of one update call, in fixed-point seconds.
    pub dt: i64,
}

impl PhysicsData {
    /// The stock configuration: gravity pulling down the screen, light
    /// drag, 120 updates per second.
    pub fn standard() -> (r: PhysicsData)
        ensures
            r == (PhysicsData { gravity: Vec2 { x: 0i64, y: 250_000_000i64 }, air_density: 80_000i64, dt: 8_333i64 }),
    {
        PhysicsData { gravity: Vec2 { x: 0, y: 250_000_000 }, air_density: 80_000, dt: 8_333 }
    }
}

/// A contact point and its normal, kept per step so a caller can draw
/// them.
#[derive(Clone, Copy, Debug, PartialEq, Eq, Structural)]
pub struct ContactDebug {
    pub contact: Vec2,
    pub normal: Vec2,
}

/// The random generator the solver shuffles pair order with.
#[verifier::external_type_specification]
#[verifier::external_body]
pub struct ExStdRng(rand::rngs::StdRng);

/// Relies on rand's `StdRng::seed_from_u64`: a generator built
/// deterministically from a 64-bit seed, so runs can be replayed.
#[verifier::external_body]
fn rng_from_seed(seed: u64) -> rand::rngs::StdRng {
    rand::rngs::StdRng::seed_from_u64(seed)
}

/// Relies on rand's `SliceRandom::shuffle`: an in-place Fisher-Yates
/// permutation, so the result holds exactly the elements it was given —
/// the list's multiset, and hence the multiset of any view of its
/// elements, is unchanged; only the order may differ.
#[verifier::external_body]
fn shuffle_collisions(v: &mut Vec<(usize, usize, CollisionData)>, rng: &mut rand::rngs::StdRng)
    ensures
        final(v)@.len() == old(v)@.len(),
        final(v)@.to_multiset() == old(v)@.to_multiset(),
        cols_view(final(v)@).to_multiset() == cols_view(old(v)@).to_multiset(),
        forall|k: int| 0 <= k < final(v)@.len() ==> exists|m: int|
            0 <= m < old(v)@.len() && #[trigger] final(v)@[k] == #[trigger] old(v)@[m],
{
    v.as_mut_slice().shuffle(rng)
}

/// A detected contact manifold at the spec level: signed separation,
/// normal, and the contact points.
pub type Manifold = (int, Vec2, Seq<Vec2>);

/// One stored collision: the two body indices and the manifold.
pub type ColRec = (int, int, Manifold);

/// The debug entries one manifold contributes.
pub open spec fn dbg_of(m: Manifold) -> Seq<ContactDebug> {
    Seq::new(m.2.len(), |k: int| ContactDebug { contact: m.2[k], normal: m.1 })
}

/// The spec view of one stored collision record.
pub open spec fn col_view(c: (usize, usize, CollisionData)) -> ColRec {
    (c.0 as int, c.1 as int, (c.2.sep_or_t as int, c.2.normal, c.2.contacts@))
}

/// The spec view of the stored collision list.
pub open spec fn cols_view(s: Seq<(usize, usize, CollisionData)>) -> Seq<ColRec> {
    Seq::new(s.len(), |k: int| col_view(s[k]))
}

/// Detecting one pair: both bodies after snap and push-out, and the
/// manifold, exactly as `collide_with_s` gives them.
#[verifier::opaque]
pub open spec fn detect_pair_s(bodies: Seq<RigidBody>, i: int, j: int) -> (Seq<RigidBody>, Option<Manifold>) {
    let r = collide_with_s(bodies[i], bodies[j]);
    (bodies.update(i, r.0).update(j, r.1), r.2)
}

/// The detection state: the bodies so far, the collisions recorded so
/// far, and the contact points reported so far.
pub type DetectState = (Seq<RigidBody>, Seq<ColRec>, Seq<ContactDebug>);

/// One detection row: pairs `(pi, pi+1) .. (pi, j-1)` folded onto the
/// state in order.
pub open spec fn detect_row_s(st: DetectState, pi: int, j: int) -> DetectState
    decreases j - pi,
{
    if j <= pi + 1 {
        st
    } else {
        let prev = detect_row_s(st, pi, j - 1);
        let dp = detect_pair_s(prev.0, pi, j - 1);
        match dp.1 {
            Option::Some(m) => (dp.0, prev.1.push((pi, j - 1, m)), prev.2 + dbg_of(m)),
            Option::None => (dp.0, prev.1, prev.2),
        }
    }
}

/// Detection over the first `i` rows, each row covering the pairs with
/// the larger index above `i`.
pub open spec fn detect_upto_s(bodies: Seq<RigidBody>, i: int) -> DetectState
    decreases i,
{
    if i <= 0 {
        (bodies, Seq::empty(), Seq::empty())
    } else {
        detect_row_s(detect_upto_s(bodies, i - 1), i - 1, bodies.len() as int)
    }
}

/// Model of the detection phase: every unordered pair tested once, in
/// index order, each overlap pushed out as it is found.
pub open spec fn detect_s(bodies: Seq<RigidBody>) -> DetectState {
    detect_upto_s(bodies, bodies.len() as int)
}

/// Resolving one stored collision: the pair's velocities rebuilt by
/// `resolve_collision_s`, everything else untouched.
#[verifier::opaque]
pub open spec fn apply_collision_s(bodies: Seq<RigidBody>, c: ColRec) -> Seq<RigidBody> {
    let st = resolve_collision_s(bodies[c.0], bodies[c.1], c.2.1, c.2.2);
    bodies
        .update(c.0, RigidBody { linear_velocity: st.0, angular_velocity: st.1 as i64, ..bodies[c.0] })
        .update(c.1, RigidBody { linear_velocity: st.2, angular_velocity: st.3 as i64, ..bodies[c.1] })
}

/// One impulse pass: the first `k` stored collisions resolved in order.
pub open spec fn apply_pass_s(bodies: Seq<RigidBody>, cols: Seq<ColRec>, k: int) -> Seq<RigidBody>
    decreases k,
{
    if k <= 0 {
        bodies
    } else {
        apply_collision_s(apply_pass_s(bodies, cols, k - 1), cols[k - 1])
    }
}

/// The first `p` impulse passes, each over its own ordering of the
/// collision list.
pub open spec fn apply_passes_s(bodies: Seq<RigidBody>, passes: Seq<Seq<ColRec>>, p: int) -> Seq<RigidBody>
    decreases p,
{
    if p <= 0 {
        bodies
    } else {
        let prev = apply_passes_s(bodies, passes, p - 1);
        apply_pass_s(prev, passes[p - 1], passes[p - 1].len() as int)
    }
}

/// `a` holds exactly the elements of `b`, in some order.
pub open spec fn is_reordering(a: Seq<ColRec>, b: Seq<ColRec>) -> bool {
    a.len() == b.len() && a.to_multiset() == b.to_multiset()
}

/// One string's step, assembled from the soft-body solver's own model:
/// the final joints and constraints, the bodies after the step, the
/// torn-off chain if the solve tore, and the contact points reported.
#[verifier::opaque]
pub open spec fn string_step(sb: SoftBody, bodies: Seq<RigidBody>, physics: PhysicsData)
    -> (Seq<Joint>, Seq<Constraint>, Seq<RigidBody>, Option<(Seq<Joint>, Seq<Constraint>)>, Seq<ContactDebug>)
{
    let ccs = SoftBody::step_ccs(sb, bodies, physics);
    let solved = SoftBody::step_solved(sb, bodies, physics);
    let dbg = Seq::new(ccs.len(), |k: int| ContactDebug { contact: ccs[k].contact_point, normal: ccs[k].normal });
    match solved.2 {
        Option::Some(t) => (
            tear_keep_joints(solved.0, sb.constraints@, t),
            tear_keep_constraints(sb.constraints@, t),
            solved.1,
            tear_new_parts(solved.0, sb.constraints@, t),
            dbg,
        ),
        Option::None => {
            let ig = integ_acc(solved.0, solved.1, physics.dt as int, solved.0.len() as int);
            let rc = rc_acc(ig.0, ig.1, ccs, ccs.len() as int);
            (rc.0, sb.constraints@, rc.1, Option::None, dbg)
        },
    }
}

/// The soft-body phase over the first `si` strings: the bodies thread
/// through; the contact reports, the stepped strings' states and the
/// torn-off chains (with their parent's damping) accumulate.
pub open spec fn strings_phase(strings: Seq<SoftBody>, bodies: Seq<RigidBody>, physics: PhysicsData, si: int)
    -> (Seq<RigidBody>, Seq<ContactDebug>, Seq<(Seq<Joint>, Seq<Constraint>)>, Seq<(Seq<Joint>, Seq<Constraint>, i64)>)
    decreases si,
{
    if si <= 0 {
        (bodies, Seq::empty(), Seq::empty(), Seq::empty())
    } else {
        let prev = strings_phase(strings, bodies, physics, si - 1);
        let sb = strings[si - 1];
        let st = string_step(sb, prev.0, physics);
        (
            st.2,
            prev.1 + st.4,
            prev.2.push((st.0, st.1)),
            match st.3 {
                Option::Some(p) => prev.3.push((p.0, p.1, sb.damping)),
                Option::None => prev.3,
            },
        )
    }
}

/// Appending a later pass does not change what the earlier passes
/// compute.
pub proof fn lemma_apply_passes_push(
    bodies: Seq<RigidBody>, passes: Seq<Seq<ColRec>>, extra: Seq<ColRec>, p: int,
)
    requires
        0 <= p <= passes.len(),
    ensures
        apply_passes_s(bodies, passes.push(extra), p) == apply_passes_s(bodies, passes, p),
    decreases p,
{
    if p > 0 {
        lemma_apply_passes_push(bodies, passes, extra, p - 1);
        assert(passes.push(extra)[p - 1] == passes[p - 1]);
    }
}

/// The soft-body phase steps one string per index: after `si` strings
/// there are exactly `si` stepped records.
pub proof fn lemma_strings_phase_len(strings: Seq<SoftBody>, bodies: Seq<RigidBody>, physics: PhysicsData, si: int)
    requires
        si >= 0,
    ensures
        strings_phase(strings, bodies, physics, si).2.len() == si,
    decreases si,
{
    if si > 0 {
        lemma_strings_phase_len(strings, bodies, physics, si - 1);
    }
}

/// The view of a torn-off-chain list: joints, constraints and damping
/// of each entry.
pub open spec fn ns_view(v: Seq<SoftBody>) -> Seq<(Seq<Joint>, Seq<Constraint>, i64)> {
    Seq::new(v.len(), |t: int| (v[t].joints@, v[t].constraints@, v[t].damping))
}

/// The whole step, as one relation: `passes` are the per-pass orderings
/// the solver's shuffle chose; everything else is deterministic.
/// Velocities are integrated first, every pair is detected and pushed
/// out in index order, the impulse passes fold `resolve_collision_s`
/// over the reordered collision list, the strings run their own exact
/// step with torn-off chains appended, and positions advance last.
#[verifier::opaque]
pub open spec fn update_models(
    bodies0: Seq<RigidBody>, strings0: Seq<SoftBody>, physics: PhysicsData, dt: i64,
    passes: Seq<Seq<ColRec>>,
    bodies_f: Seq<RigidBody>, strings_f: Seq<SoftBody>, contacts_f: Seq<ContactDebug>,
) -> bool {
    let b1 = Seq::new(bodies0.len(), |k: int| bodies0[k].update_velocity_s(physics));
    let det = detect_s(b1);
    passes.len() == PHYSICS_ITERATIONS
    && (forall|p: int| 0 <= p < passes.len() ==> is_reordering(#[trigger] passes[p], det.1))
    && ({
        let b3 = apply_passes_s(det.0, passes, PHYSICS_ITERATIONS as int);
        let sp = strings_phase(strings0, b3, physics, strings0.len() as int);
        bodies_f == Seq::new(sp.0.len(), |k: int| sp.0[k].update_position_s(dt as int))
        && contacts_f == det.2 + sp.1
        && strings_f.len() == strings0.len() + sp.3.len()
        && (forall|si: int| 0 <= si < strings0.len() ==> (#[trigger] strings_f[si]).joints@ == sp.2[si].0
            && strings_f[si].constraints@ == sp.2[si].1
            && strings_f[si].damping == strings0[si].damping)
        && (forall|t: int| 0 <= t < sp.3.len() ==> (#[trigger] strings_f[strings0.len() + t]).joints@ == sp.3[t].0
            && strings_f[strings0.len() + t].constraints@ == sp.3[t].1
            && strings_f[strings0.len() + t].damping == sp.3[t].2)
    })
}

/// The live simulation: rigid bodies in an arena, soft-body strings
/// attached to them by index, the step configuration, and the contact
/// points of the last step for a caller to draw.
pub struct World {
    pub bodies: Vec<RigidBody>,
    pub strings: Vec<SoftBody>,
    pub physics: PhysicsData,
    pub contacts: Vec<ContactDebug>,
    /// The seeded generator behind the solver's pair shuffle.
    pub rng: rand::rngs::StdRng,
}

impl World {
    /// Every body is well formed, and every string's constraints and
    /// attachments point at real joints and bodies.
    pub open spec fn wf(self) -> bool {
        (forall|k: int| 0 <= k < self.bodies@.len() ==> (#[trigger] self.bodies@[k]).wf())
        && (forall|k: int| 0 <= k < self.strings@.len() ==> (#[trigger] self.strings@[k]).wf(self.bodies@.len() as int)
            && self.strings@[k].chain_wf())
    }

    /// An empty world with the given configuration; `seed` fixes the
    /// solver's pair shuffle, so a run can be replayed exactly.
    pub fn new(physics: PhysicsData, seed: u64) -> (r: World)
        ensures
            r.bodies@.len() == 0,
            r.strings@.len() == 0,
            r.physics == physics,
            r.contacts@.len() == 0,
            r.wf(),
    {
        World {
            bodies: Vec::new(),
            strings: Vec::new(),
            physics,
            contacts: Vec::new(),
            rng: rng_from_seed(seed),
        }
    }

    /// Detect one pair's collision and push the overlap out, exactly as
    /// `collide_with_s` describes, appending each contact point found
    /// to `contacts`.
    #[verifier::rlimit(100)]
    #[verifier::spinoff_prover]
    fn detect_pair(
        bodies: &mut Vec<RigidBody>, contacts: &mut Vec<ContactDebug>, i: usize, j: usize,
    ) -> (r: Option<CollisionData>)
        requires
            i < old(bodies)@.len(),
            j < old(bodies)@.len(),
            i != j,
            forall|k: int| 0 <= k < old(bodies)@.len() ==> (#[trigger] old(bodies)@[k]).wf(),
        ensures
            final(bodies)@ == detect_pair_s(old(bodies)@, i as int, j as int).0,
            ({
                let m = detect_pair_s(old(bodies)@, i as int, j as int).1;
                match r {
                    Option::Some(cd) => m == Option::Some((cd.sep_or_t as int, cd.normal, cd.contacts@))
                        && final(contacts)@ == old(contacts)@ + dbg_of((cd.sep_or_t as int, cd.normal, cd.contacts@)),
                    Option::None => m is None && final(contacts)@ == old(contacts)@,
                }
            }),
            final(bodies)@.len() == old(bodies)@.len(),
            forall|k: int| 0 <= k < old(bodies)@.len() ==> (#[trigger] final(bodies)@[k]).wf()
                && final(bodies)@[k].is_static == old(bodies)@[k].is_static
                && final(bodies)@[k].material == old(bodies)@[k].material,
    {
        proof {
            reveal(detect_pair_s);
        }
        let (a_ref, b_ref) = get_pair_mut(bodies, i, j);
        let collision = a_ref.collide_with(b_ref);
        proof {
            assert(final(bodies)@ =~= detect_pair_s(old(bodies)@, i as int, j as int).0);
        }
        if let Option::Some(cd) = collision {
            let ghost c0 = contacts@;
            let ghost m: Manifold = (cd.sep_or_t as int, cd.normal, cd.contacts@);
            let mut ci: usize = 0;
            let n_contacts = cd.contacts.len();
            while ci < n_contacts
                invariant
                    0 <= ci <= n_contacts,
                    n_contacts == cd.contacts@.len(),
                    m == (cd.sep_or_t as int, cd.normal, cd.contacts@),
                    contacts@ == c0 + dbg_of(m).take(ci as int),
                decreases n_contacts - ci,
            {
                contacts.push(ContactDebug {
                    contact: cd.contacts[ci],
                    normal: cd.normal,
                });
                proof {
                    assert(contacts@ =~= c0 + dbg_of(m).take(ci as int + 1));
                }
                ci = ci + 1;
            }
            proof {
                assert(dbg_of(m).take(n_contacts as int) =~= dbg_of(m));
            }
            Option::Some(cd)
        } else {
            Option::None
        }
    }

    /// Run the impulse resolver on one stored pair, exactly as
    /// `apply_collision_s` folds `resolve_collision_s` into the arena.
    #[verifier::rlimit(100)]
    #[verifier::spinoff_prover]
    fn resolve_pair(bodies: &mut Vec<RigidBody>, i: usize, j: usize, cd: &CollisionData)
        requires
            i < old(bodies)@.len(),
            j < old(bodies)@.len(),
            i != j,
            forall|k: int| 0 <= k < old(bodies)@.len() ==> (#[trigger] old(bodies)@[k]).wf(),
        ensures
            final(bodies)@ == apply_collision_s(
                old(bodies)@,
                (i as int, j as int, (cd.sep_or_t as int, cd.normal, cd.contacts@)),
            ),
            final(bodies)@.len() == old(bodies)@.len(),
            forall|k: int| 0 <= k < old(bodies)@.len() ==> (#[trigger] final(bodies)@[k]).wf()
                && final(bodies)@[k].is_static == old(bodies)@[k].is_static
                && final(bodies)@[k].material == old(bodies)@[k].material,
    {
        let (a_ref, b_ref) = get_pair_mut(bodies, i, j);
        let ghost av = *a_ref;
        let ghost bv = *b_ref;
        a_ref.resolve_collision(b_ref, cd);
        proof {
            reveal(apply_collision_s);
            crate::body::lemma_wf_same_shape(av, *a_ref);
            crate::body::lemma_wf_same_shape(bv, *b_ref);
            let st = resolve_collision_s(av, bv, cd.normal, cd.contacts@);
            assert(*a_ref == RigidBody { linear_velocity: st.0, angular_velocity: st.1 as i64, ..av });
            assert(*b_ref == RigidBody { linear_velocity: st.2, angular_velocity: st.3 as i64, ..bv });
            assert(final(bodies)@ =~= apply_collision_s(
                old(bodies)@,
                (i as int, j as int, (cd.sep_or_t as int, cd.normal, cd.contacts@)),
            ));
        }
    }

    /// An element-wise copy of a chain; the joints and constraints are
    /// plain values.
    fn copy_soft_body(s: &SoftBody) -> (r: SoftBody)
        ensures
            r.joints@ == s.joints@,
            r.constraints@ == s.constraints@,
            r.damping == s.damping,
    {
        let mut joints: Vec<Joint> = Vec::new();
        let nj = s.joints.len();
        let mut i: usize = 0;
        while i < nj
            invariant
                0 <= i <= nj,
                nj == s.joints@.len(),
                joints@ == s.joints@.take(i as int),
            decreases nj - i,
        {
            joints.push(s.joints[i]);
            proof {
                assert(joints@ =~= s.joints@.take(i as int + 1));
            }
            i = i + 1;
        }
        let mut constraints: Vec<Constraint> = Vec::new();
        let nc = s.constraints.len();
        let mut k: usize = 0;
        while k < nc
            invariant
                0 <= k <= nc,
                nc == s.constraints@.len(),
                constraints@ == s.constraints@.take(k as int),
            decreases nc - k,
        {
            constraints.push(s.constraints[k]);
            proof {
                assert(constraints@ =~= s.constraints@.take(k as int + 1));
            }
            k = k + 1;
        }
        proof {
            assert(joints@ =~= s.joints@);
            assert(constraints@ =~= s.constraints@);
        }
        SoftBody { joints, constraints, damping: s.damping }
    }

    /// Step one string against the arena: solve its constraints, and
    /// stash any torn-off chain. The whole effect is `string_step` of
    /// the string and the arena as they stood at the call.
    #[verifier::rlimit(100)]
    #[verifier::spinoff_prover]
    fn step_one_string(
        strings: &mut Vec<SoftBody>, bodies: &mut Vec<RigidBody>, contacts: &mut Vec<ContactDebug>,
        new_strings: &mut Vec<SoftBody>, si: usize, physics: &PhysicsData,
    )
        requires
            si < old(strings)@.len(),
            old(strings)@[si as int].wf(old(bodies)@.len() as int),
            old(strings)@[si as int].chain_wf(),
            forall|k: int| 0 <= k < old(bodies)@.len() ==> (#[trigger] old(bodies)@[k]).wf(),
            forall|t: int| 0 <= t < old(new_strings)@.len() ==> (#[trigger] old(new_strings)@[t]).wf(old(bodies)@.len() as int)
                && old(new_strings)@[t].chain_wf(),
        ensures
            final(strings)@.len() == old(strings)@.len(),
            forall|k: int| 0 <= k < old(strings)@.len() && k != si as int ==> #[trigger] final(strings)@[k] == old(strings)@[k],
            ({
                let st = string_step(old(strings)@[si as int], old(bodies)@, *physics);
                final(bodies)@ == st.2
                && final(contacts)@ == old(contacts)@ + st.4
                && final(strings)@[si as int].joints@ == st.0
                && final(strings)@[si as int].constraints@ == st.1
                && final(strings)@[si as int].damping == old(strings)@[si as int].damping
                && ns_view(final(new_strings)@) == (match st.3 {
                    Option::Some(p) => ns_view(old(new_strings)@).push((p.0, p.1, old(strings)@[si as int].damping)),
                    Option::None => ns_view(old(new_strings)@),
                })
            }),
            final(strings)@[si as int].wf(old(bodies)@.len() as int),
            final(strings)@[si as int].chain_wf(),
            forall|t: int| 0 <= t < final(new_strings)@.len() ==> (#[trigger] final(new_strings)@[t]).wf(old(bodies)@.len() as int)
                && final(new_strings)@[t].chain_wf(),
            final(bodies)@.len() == old(bodies)@.len(),
            forall|k: int| 0 <= k < old(bodies)@.len() ==> (#[trigger] final(bodies)@[k]).wf()
                && final(bodies)@[k].is_static == old(bodies)@[k].is_static
                && final(bodies)@[k].material == old(bodies)@[k].material,
    {
        let ghost sb_old = strings@[si as int];
        let ghost bodies_pre = bodies@;
        let ghost contacts_pre = contacts@;
        let tear = strings[si].resolve_constraints(physics, bodies, contacts);
        proof {
            reveal(string_step);
            let st = string_step(sb_old, bodies_pre, *physics);
            assert(contacts@ == contacts_pre + st.4);
            assert(bodies@ == st.2);
            assert(strings@[si as int].joints@ == st.0);
            assert(strings@[si as int].constraints@ == st.1);
        }
        let ghost tear_view: Option<(Seq<Joint>, Seq<Constraint>)> = match &tear {
            Option::Some(nb) => Option::Some((nb.joints@, nb.constraints@)),
            Option::None => Option::None,
        };
        if let Option::Some(nb) = tear {
            new_strings.push(nb);
        }
        proof {
            reveal(string_step);
            let st = string_step(sb_old, bodies_pre, *physics);
            match tear_view {
                Option::Some(p) => {
                    assert(st.3 == Option::Some(p));
                    assert(ns_view(new_strings@) =~= ns_view(old(new_strings)@).push((p.0, p.1, sb_old.damping)));
                },
                Option::None => {
                    assert(st.3 is None);
                    assert(ns_view(new_strings@) =~= ns_view(old(new_strings)@));
                },
            }
        }
    }

    /// One simulation step, in the original's fixed order: integrate
    /// velocities, detect and push out every pair collision in index
    /// order, run `PHYSICS_ITERATIONS` impulse passes over the pair
    /// list (reshuffled each pass), solve every string (appending each
    /// torn-off chain to `strings`), then advance positions. Only the
    /// shuffle is random, so the contract quantifies over it: there are
    /// pass orderings — each a reordering of the detected collision
    /// list — under which the final bodies, strings and contact list
    /// are exactly the folds of the step's spec models.
    #[verifier::rlimit(100)]
    #[verifier::spinoff_prover]
    pub fn update(&mut self, dt: i64)
        requires
            old(self).wf(),
        ensures
            final(self).physics == (PhysicsData { dt, ..old(self).physics }),
            final(self).wf(),
            final(self).bodies@.len() == old(self).bodies@.len(),
            forall|k: int| 0 <= k < old(self).bodies@.len() ==>
                (#[trigger] final(self).bodies@[k]).is_static == old(self).bodies@[k].is_static
                && final(self).bodies@[k].material == old(self).bodies@[k].material
                && final(self).bodies@[k].wf(),
            exists|passes: Seq<Seq<ColRec>>| #[trigger] update_models(
                old(self).bodies@, old(self).strings@,
                final(self).physics, dt,
                passes,
                final(self).bodies@, final(self).strings@, final(self).contacts@,
            ),
    {
        self.contacts.clear();
        self.physics.dt = dt;
        let n = self.bodies.len();
        let ghost b0 = old(self).bodies@;
        let ghost s0 = old(self).strings@;
        let ghost phys = self.physics;
        let ghost b1 = Seq::new(b0.len(), |k: int| b0[k].update_velocity_s(phys));

        // Velocity integration for every body.
        let mut i: usize = 0;
        while i < n
            invariant
                0 <= i <= n,
                n == self.bodies@.len(),
                b0.len() == n,
                b1 == Seq::new(b0.len(), |k: int| b0[k].update_velocity_s(phys)),
                self.physics == phys,
                self.strings == old(self).strings,
                self.contacts@.len() == 0,
                forall|k: int| 0 <= k < i as int ==> #[trigger] self.bodies@[k] == b1[k],
                forall|k: int| i as int <= k < n as int ==> #[trigger] self.bodies@[k] == b0[k],
                forall|k: int| 0 <= k < n as int ==> (#[trigger] self.bodies@[k]).wf()
                    && self.bodies@[k].is_static == b0[k].is_static
                    && self.bodies@[k].material == b0[k].material,
            decreases n - i,
        {
            self.bodies[i].update_velocity(&self.physics);
            i = i + 1;
        }
        proof {
            assert(self.bodies@ =~= b1);
        }

        // Detect collisions pair by pair in index order, resolving
        // overlap in place as each is found.
        let mut collisions: Vec<(usize, usize, CollisionData)> = Vec::new();
        let mut pi: usize = 0;
        while pi < n
            invariant
                0 <= pi <= n,
                n == self.bodies@.len(),
                b0.len() == n,
                b1.len() == n,
                self.physics == phys,
                self.strings == old(self).strings,
                ({
                    let st = detect_upto_s(b1, pi as int);
                    self.bodies@ == st.0
                    && cols_view(collisions@) == st.1
                    && self.contacts@ == st.2
                }),
                forall|k: int| 0 <= k < n as int ==> (#[trigger] self.bodies@[k]).wf()
                    && self.bodies@[k].is_static == b0[k].is_static
                    && self.bodies@[k].material == b0[k].material,
                forall|k: int| 0 <= k < collisions@.len() ==> (#[trigger] collisions@[k]).0 < n
                    && collisions@[k].1 < n && collisions@[k].0 != collisions@[k].1,
            decreases n - pi,
        {
            let ghost row0 = detect_upto_s(b1, pi as int);
            let mut pj: usize = pi + 1;
            while pj < n
                invariant
                    pi < pj <= n,
                    pi < n,
                    n == self.bodies@.len(),
                    b0.len() == n,
                    b1.len() == n,
                    self.physics == phys,
                    self.strings == old(self).strings,
                    row0 == detect_upto_s(b1, pi as int),
                    ({
                        let st = detect_row_s(row0, pi as int, pj as int);
                        self.bodies@ == st.0
                        && cols_view(collisions@) == st.1
                        && self.contacts@ == st.2
                    }),
                    forall|k: int| 0 <= k < n as int ==> (#[trigger] self.bodies@[k]).wf()
                        && self.bodies@[k].is_static == b0[k].is_static
                        && self.bodies@[k].material == b0[k].material,
                    forall|k: int| 0 <= k < collisions@.len() ==> (#[trigger] collisions@[k]).0 < n
                        && collisions@[k].1 < n && collisions@[k].0 != collisions@[k].1,
                decreases n - pj,
            {
                let ghost st_pre = detect_row_s(row0, pi as int, pj as int);
                let collision = Self::detect_pair(&mut self.bodies, &mut self.contacts, pi, pj);
                if let Option::Some(cd) = collision {
                    collisions.push((pi, pj, cd));
                    proof {
                        assert(cols_view(collisions@)
                            =~= st_pre.1.push((pi as int, pj as int, (cd.sep_or_t as int, cd.normal, cd.contacts@))));
                    }
                }
                proof {
                    assert(detect_row_s(row0, pi as int, pj as int + 1)
                        == ({
                            let dp = detect_pair_s(st_pre.0, pi as int, pj as int);
                            match dp.1 {
                                Option::Some(m) => (dp.0, st_pre.1.push((pi as int, pj as int, m)), st_pre.2 + dbg_of(m)),
                                Option::None => (dp.0, st_pre.1, st_pre.2),
                            }
                        }));
                }
                pj = pj + 1;
            }
            pi = pi + 1;
        }
        let ghost det = detect_s(b1);
        proof {
            assert(det == detect_upto_s(b1, n as int));
        }
        let ghost b2 = det.0;
        let ghost cols0 = det.1;

        // Impulse passes over the colliding pairs, order reshuffled
        // each pass to reduce the solver's order bias.
        let ghost mut passes: Seq<Seq<ColRec>> = Seq::empty();
        let mut pass: usize = 0;
        while pass < PHYSICS_ITERATIONS
            invariant
                0 <= pass <= PHYSICS_ITERATIONS,
                n == self.bodies@.len(),
                b0.len() == n,
                self.physics == phys,
                self.strings == old(self).strings,
                self.contacts@ == det.2,
                b2.len() == n,
                passes.len() == pass as int,
                forall|p: int| 0 <= p < passes.len() ==> is_reordering(#[trigger] passes[p], cols0),
                self.bodies@ == apply_passes_s(b2, passes, pass as int),
                cols_view(collisions@).to_multiset() == cols0.to_multiset(),
                cols_view(collisions@).len() == cols0.len(),
                forall|k: int| 0 <= k < n as int ==> (#[trigger] self.bodies@[k]).wf()
                    && self.bodies@[k].is_static == b0[k].is_static
                    && self.bodies@[k].material == b0[k].material,
                forall|k: int| 0 <= k < collisions@.len() ==> (#[trigger] collisions@[k]).0 < n
                    && collisions@[k].1 < n && collisions@[k].0 != collisions@[k].1,
            decreases PHYSICS_ITERATIONS - pass,
        {
            let ghost pre = collisions@;
            shuffle_collisions(&mut collisions, &mut self.rng);
            proof {
                assert forall|k: int| 0 <= k < collisions@.len()
                    implies (#[trigger] collisions@[k]).0 < n
                        && collisions@[k].1 < n && collisions@[k].0 != collisions@[k].1 by {
                    let m = choose|m: int| 0 <= m < pre.len() && collisions@[k] == pre[m];
                };
            }
            let ghost this_pass = cols_view(collisions@);
            let ghost snap = collisions@;
            let ghost pass_start = self.bodies@;
            let ghost passes_before = passes;
            proof {
                passes = passes.push(this_pass);
            }
            let m = collisions.len();
            let mut c: usize = 0;
            while c < m
                invariant
                    0 <= c <= m,
                    m == collisions@.len(),
                    collisions@ == snap,
                    this_pass == cols_view(snap),
                    n == self.bodies@.len(),
                    b0.len() == n,
                    self.physics == phys,
                    self.strings == old(self).strings,
                    self.contacts@ == det.2,
                    self.bodies@ == apply_pass_s(pass_start, this_pass, c as int),
                    forall|k: int| 0 <= k < n as int ==> (#[trigger] self.bodies@[k]).wf()
                        && self.bodies@[k].is_static == b0[k].is_static
                        && self.bodies@[k].material == b0[k].material,
                    forall|k: int| 0 <= k < collisions@.len() ==> (#[trigger] collisions@[k]).0 < n
                        && collisions@[k].1 < n && collisions@[k].0 != collisions@[k].1,
                decreases m - c,
            {
                let ci = collisions[c].0;
                let cj = collisions[c].1;
                Self::resolve_pair(&mut self.bodies, ci, cj, &collisions[c].2);
                proof {
                    assert(this_pass[c as int] == col_view(snap[c as int]));
                }
                c = c + 1;
            }
            proof {
                lemma_apply_passes_push(b2, passes_before, this_pass, pass as int);
                assert(passes[pass as int] == this_pass);
                assert(apply_passes_s(b2, passes, pass as int) == pass_start);
                assert(self.bodies@ == apply_passes_s(b2, passes, pass as int + 1));
            }
            pass = pass + 1;
        }
        let ghost b3 = apply_passes_s(b2, passes, PHYSICS_ITERATIONS as int);
        proof {
            assert(self.bodies@ == b3);
        }

        // Soft bodies: each string solves its constraints against the
        // arena; a tear hands back a new, independent chain.
        let n_strings = self.strings.len();
        proof {
            assert(self.strings@ == s0);
            assert forall|k: int| 0 <= k < n_strings as int
                implies (#[trigger] s0[k]).wf(n as int) && s0[k].chain_wf() by {
                assert(old(self).strings@[k].wf(old(self).bodies@.len() as int));
            };
        }
        let mut new_strings: Vec<SoftBody> = Vec::new();
        let mut si: usize = 0;
        while si < n_strings
            invariant
                0 <= si <= n_strings,
                n_strings == self.strings@.len(),
                n_strings == s0.len(),
                n == self.bodies@.len(),
                b0.len() == n,
                b3.len() == n,
                self.physics == phys,
                self.contacts@.len() >= det.2.len(),
                self.bodies@ == strings_phase(s0, b3, phys, si as int).0,
                self.contacts@ == det.2 + strings_phase(s0, b3, phys, si as int).1,
                ns_view(new_strings@) == strings_phase(s0, b3, phys, si as int).3,
                forall|k: int| 0 <= k < si as int ==> (#[trigger] self.strings@[k]).joints@
                        == strings_phase(s0, b3, phys, si as int).2[k].0
                    && self.strings@[k].constraints@ == strings_phase(s0, b3, phys, si as int).2[k].1
                    && self.strings@[k].damping == s0[k].damping,
                forall|k: int| si as int <= k < n_strings as int ==> #[trigger] self.strings@[k] == s0[k],
                forall|k: int| 0 <= k < n_strings as int ==> (#[trigger] s0[k]).wf(n as int) && s0[k].chain_wf(),
                forall|k: int| 0 <= k < si as int ==> (#[trigger] self.strings@[k]).wf(n as int)
                    && self.strings@[k].chain_wf(),
                forall|t: int| 0 <= t < new_strings@.len() ==> (#[trigger] new_strings@[t]).wf(n as int)
                    && new_strings@[t].chain_wf(),
                forall|k: int| 0 <= k < n as int ==> (#[trigger] self.bodies@[k]).wf()
                    && self.bodies@[k].is_static == b0[k].is_static
                    && self.bodies@[k].material == b0[k].material,
            decreases n_strings - si,
        {
            let ghost sb_old = self.strings@[si as int];
            let ghost bodies_pre = self.bodies@;
            let ghost sp_pre = strings_phase(s0, b3, phys, si as int);
            proof {
                assert(sb_old == s0[si as int]);
                assert(bodies_pre == sp_pre.0);
            }
            Self::step_one_string(&mut self.strings, &mut self.bodies, &mut self.contacts, &mut new_strings, si, &self.physics);
            proof {
                let st = string_step(sb_old, bodies_pre, phys);
                let sp_next = strings_phase(s0, b3, phys, si as int + 1);
                assert(sp_next == (
                    st.2,
                    sp_pre.1 + st.4,
                    sp_pre.2.push((st.0, st.1)),
                    match st.3 {
                        Option::Some(p) => sp_pre.3.push((p.0, p.1, sb_old.damping)),
                        Option::None => sp_pre.3,
                    },
                ));
                assert(self.contacts@ =~= det.2 + sp_next.1);
                assert(ns_view(new_strings@) == sp_next.3);
                lemma_strings_phase_len(s0, b3, phys, si as int);
                lemma_strings_phase_len(s0, b3, phys, si as int + 1);
                assert forall|k: int| 0 <= k < si as int + 1
                    implies (#[trigger] self.strings@[k]).joints@ == sp_next.2[k].0
                        && self.strings@[k].constraints@ == sp_next.2[k].1
                        && self.strings@[k].damping == s0[k].damping by {
                    if k < si as int {
                        assert(sp_next.2[k] == sp_pre.2[k]);
                    } else {
                        assert(sp_next.2[k] == (st.0, st.1));
                    }
                };
            }
            si = si + 1;
        }
        let ghost sp_full = strings_phase(s0, b3, phys, n_strings as int);
        proof {
            lemma_strings_phase_len(s0, b3, phys, n_strings as int);
        }

        // Append the torn-off chains to the live string list.
        let mut ni: usize = 0;
        let n_new = new_strings.len();
        while ni < n_new
            invariant
                0 <= ni <= n_new,
                n_new == new_strings@.len(),
                n == self.bodies@.len(),
                b0.len() == n,
                self.physics == phys,
                self.contacts@ == det.2 + sp_full.1,
                self.bodies@ == sp_full.0,
                ns_view(new_strings@) == sp_full.3,
                self.strings@.len() == n_strings as int + ni as int,
                forall|k: int| 0 <= k < n_strings as int ==> (#[trigger] self.strings@[k]).joints@ == sp_full.2[k].0
                    && self.strings@[k].constraints@ == sp_full.2[k].1
                    && self.strings@[k].damping == s0[k].damping,
                forall|t: int| 0 <= t < ni as int ==> (#[trigger] self.strings@[n_strings as int + t]).joints@ == sp_full.3[t].0
                    && self.strings@[n_strings as int + t].constraints@ == sp_full.3[t].1
                    && self.strings@[n_strings as int + t].damping == sp_full.3[t].2,
                forall|k: int| 0 <= k < self.strings@.len() ==> (#[trigger] self.strings@[k]).wf(n as int)
                    && self.strings@[k].chain_wf(),
                forall|t: int| 0 <= t < new_strings@.len() ==> (#[trigger] new_strings@[t]).wf(n as int)
                    && new_strings@[t].chain_wf(),
                forall|k: int| 0 <= k < n as int ==> (#[trigger] self.bodies@[k]).wf()
                    && self.bodies@[k].is_static == b0[k].is_static
                    && self.bodies@[k].material == b0[k].material,
            decreases n_new - ni,
        {
            let copied = Self::copy_soft_body(&new_strings[ni]);
            self.strings.push(copied);
            ni = ni + 1;
        }

        // Advance all positions once everything is resolved.
        let ghost b4 = self.bodies@;
        let mut ui: usize = 0;
        while ui < n
            invariant
                0 <= ui <= n,
                n == self.bodies@.len(),
                b0.len() == n,
                b4.len() == n,
                self.physics == phys,
                self.strings@.len() == n_strings as int + n_new as int,
                self.contacts@ == det.2 + sp_full.1,
                ns_view(new_strings@) == sp_full.3,
                n_new == new_strings@.len(),
                forall|k: int| 0 <= k < n_strings as int ==> (#[trigger] self.strings@[k]).joints@ == sp_full.2[k].0
                    && self.strings@[k].constraints@ == sp_full.2[k].1
                    && self.strings@[k].damping == s0[k].damping,
                forall|t: int| 0 <= t < n_new as int ==> (#[trigger] self.strings@[n_strings as int + t]).joints@ == sp_full.3[t].0
                    && self.strings@[n_strings as int + t].constraints@ == sp_full.3[t].1
                    && self.strings@[n_strings as int + t].damping == sp_full.3[t].2,
                forall|k: int| 0 <= k < self.strings@.len() ==> (#[trigger] self.strings@[k]).wf(n as int)
                    && self.strings@[k].chain_wf(),
                forall|k: int| 0 <= k < ui as int ==> #[trigger] self.bodies@[k] == b4[k].update_position_s(dt as int),
                forall|k: int| ui as int <= k < n as int ==> #[trigger] self.bodies@[k] == b4[k],
                forall|k: int| 0 <= k < n as int ==> (#[trigger] self.bodies@[k]).wf()
                    && self.bodies@[k].is_static == b0[k].is_static
                    && self.bodies@[k].material == b0[k].material,
            decreases n - ui,
        {
            self.bodies[ui].update_position(dt);
            ui = ui + 1;
        }

        proof {
            reveal(update_models);
            assert(b4 == sp_full.0);
            assert(self.bodies@ =~= Seq::new(sp_full.0.len(), |k: int| sp_full.0[k].update_position_s(dt as int)));
            assert(sp_full.3.len() == n_new as int);
            assert(passes.len() == PHYSICS_ITERATIONS);
            assert(self.strings@.len() == s0.len() + sp_full.3.len());
            assert(update_models(
                b0, s0, phys, dt, passes,
                self.bodies@, self.strings@, self.contacts@,
            ));
        }
    }
}

} // verus!