//! Lattice vectors.

pub mod ext_vec2;

pub use ext_vec2::{ExtVec2, Vec2};
