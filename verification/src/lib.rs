//! Position-based physics in the plane: particles moved by Verlet
//! integration, distance constraints that pull pairs of them toward a target
//! length, and a world that steps both under gravity inside a box.
//!
//! All quantities are fixed-point numbers in raw micro-units (`fixed`), so a
//! step depends on nothing but the state and the time step, and the
//! contracts state each result exactly. `laws` holds what is proved of the
//! simulation as a whole.

pub mod contraction;
pub mod fixed;
pub mod laws;
pub mod norms;
pub mod physics;
pub mod utils;
