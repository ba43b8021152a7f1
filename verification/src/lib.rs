//! A 2D rigid- and soft-body physics engine over fixed-point arithmetic:
//! shape geometry, broad- and narrow-phase collision detection with
//! contact manifolds, a sequential-impulse solver with restitution and
//! Coulomb friction, and tearable position-based-dynamics strings that
//! attach to rigid bodies.
//!
//! Every scalar is a signed 64-bit fixed-point number (see `fixed`), so
//! each operation is pinned exactly to a spec-level model and the
//! engine's laws are proved in `laws` over the same definitions the
//! executable contracts use. Rendering, input and audio live outside
//! this crate; a caller steps `world::World` and reads transforms back.

pub mod fixed;
pub mod vec2;
pub mod aabb;
pub mod material;
pub mod collision;
pub mod shape;
pub mod body;
pub mod world;
pub mod soft;
pub mod pairs;
pub mod view;
pub mod bench;
pub mod laws;
