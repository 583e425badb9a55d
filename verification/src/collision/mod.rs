//! Intervals along an axis, their signed overlaps, and the shapes that cast them.

pub mod overlap;
pub mod projection;
pub mod shape;

pub use overlap::{Overlap, OverlapCase, OverlapOffset};
pub use projection::Projection;
pub use shape::{Shape, ShapeKind};
