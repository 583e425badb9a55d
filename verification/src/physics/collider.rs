use vstd::prelude::*;

use crate::collision::shape::Shape;

verus! {

/// What an entity collides with: its shape in world units.
#[derive(Debug, Clone, Copy)]
pub struct Collider {
    pub shape: Shape,
}

} // verus!
