//! Verified core of a 2D rigid-body physics engine.
//!
//! The solver state that can be modelled exactly — contact feature
//! identities, arbiter keys and their cache, body identity allocation,
//! solver toggles, the error taxonomy, and the ASCII debug-grid styling —
//! lives here with machine-checked contracts.  The floating-point
//! geometry and impulse arithmetic is carried out by the surrounding
//! application code, which feeds its decisions through this crate.

pub mod arbiter;
pub mod body;
pub mod collide;
pub mod draw;
pub mod errors;
pub mod world;
