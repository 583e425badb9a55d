//! Broad-phase collision on the integer lattice: interval projections,
//! signed overlaps, shapes, and an incremental spatial hash, together with a
//! few small containers and encodings.

pub mod math;
pub mod collision;
pub mod physics;
pub mod compact_str;
pub mod container;
pub mod sync;
