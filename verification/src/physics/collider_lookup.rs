use vstd::prelude::*;

use super::cache_grid::{CacheGrid, CacheGridData, CacheGridView, GridScale};
use super::collider::Collider;
use super::store::EntitySet;
use crate::collision::projection::Projection;
use crate::collision::shape::Shape;
use crate::math::ext_vec2::Vec2;

verus! {

/// The grid, kept current from the colliders that were added, changed or
/// removed since the last pass.
pub struct ColliderLookup {
    cache_grid: CacheGrid,
}

/// The grid after every entity of `changed` was updated with its shape,
/// first to last.
pub open spec fn after_changes(grid: CacheGridView, changed: Seq<(u64, Collider)>) -> CacheGridView
    decreases changed.len(),
{
    if changed.len() == 0 {
        grid
    } else {
        let (entity, collider) = changed.last();
        after_changes(grid, changed.drop_last()).spec_update(
            entity,
            CacheGridData::spec_from(collider.shape.spec_project_aligned(), grid.scale),
        )
    }
}

/// The grid after every entity of `removed` was removed, first to last.
pub open spec fn after_removals(grid: CacheGridView, removed: Seq<u64>) -> CacheGridView
    decreases removed.len(),
{
    if removed.len() == 0 {
        grid
    } else {
        after_removals(grid, removed.drop_last()).spec_remove(removed.last())
    }
}

/// The bounding box of `shape`, stretched by `motion` on the side that
/// each component of `motion` points to.
pub open spec fn swept_box(shape: Shape, motion: Vec2) -> (Projection, Projection) {
    let (x, y) = shape.spec_project_aligned();
    (
        if motion.x < 0 {
            Projection::spanning((x.spec_near() + motion.x) as i64, x.spec_far())
        } else {
            Projection::spanning(x.spec_near(), (x.spec_far() + motion.x) as i64)
        },
        if motion.y < 0 {
            Projection::spanning((y.spec_near() + motion.y) as i64, y.spec_far())
        } else {
            Projection::spanning(y.spec_near(), (y.spec_far() + motion.y) as i64)
        },
    )
}

impl View for ColliderLookup {
    type V = CacheGridView;

    closed spec fn view(&self) -> CacheGridView {
        self.cache_grid@
    }
}

impl ColliderLookup {
    /// Whether the grid inside is in order.
    pub closed spec fn wf(self) -> bool {
        self.cache_grid.wf()
    }

    /// A well-formed lookup holds a grid whose cells and entities agree.
    pub proof fn lemma_wf_is_consistent(self)
        requires
            self.wf(),
        ensures
            self@.consistent(),
            self@.scale.wf(),
    {
    }

    /// A lookup over an empty grid of the given scale.
    pub fn new(scale: GridScale) -> (r: ColliderLookup)
        requires
            scale.wf(),
        ensures
            r.wf(),
            r@.scale == scale,
            r@.entities == Map::<u64, CacheGridData>::empty(),
            r@.cells == Map::<(int, int), Set<u64>>::empty(),
            r@.free == 0,
    {
        ColliderLookup { cache_grid: CacheGrid::new(scale) }
    }

    /// One pass: updates the grid with each collider that was added or
    /// changed, in the order given, then removes each entity whose
    /// collider was removed.
    pub fn update(&mut self, changed: &Vec<(u64, Collider)>, removed: &Vec<u64>)
        requires
            old(self).wf(),
            forall|i: int|
                0 <= i < changed@.len() ==> 0 <= (#[trigger] changed@[i]).1.shape.hbound.x && 0
                    <= changed@[i].1.shape.hbound.y,
        ensures
            final(self).wf(),
            final(self)@ == after_removals(after_changes(old(self)@, changed@), removed@),
    {
        let ghost start = self@;
        let mut i: usize = 0;
        while i < changed.len()
            invariant
                i <= changed@.len(),
                self.wf(),
                self@.scale == start.scale,
                self@ == after_changes(start, changed@.take(i as int)),
                forall|k: int|
                    0 <= k < changed@.len() ==> 0 <= (#[trigger] changed@[k]).1.shape.hbound.x && 0
                        <= changed@[k].1.shape.hbound.y,
            decreases changed@.len() - i,
        {
            let entity: u64 = changed[i].0;
            let collider: Collider = changed[i].1;
            proof {
                assert(changed@.take(i + 1).drop_last() =~= changed@.take(i as int));
            }
            self.cache_grid.update(entity, collider.shape);
            i += 1;
        }
        proof {
            assert(changed@.take(changed@.len() as int) =~= changed@);
        }
        let ghost middle = self@;
        let mut j: usize = 0;
        while j < removed.len()
            invariant
                j <= removed@.len(),
                self.wf(),
                self@ == after_removals(middle, removed@.take(j as int)),
            decreases removed@.len() - j,
        {
            proof {
                assert(removed@.take(j + 1).drop_last() =~= removed@.take(j as int));
            }
            self.cache_grid.remove(removed[j]);
            j += 1;
        }
        proof {
            assert(removed@.take(removed@.len() as int) =~= removed@);
        }
    }

    /// The entities registered in any cell that the bounding box of
    /// `shape` touches.
    pub fn query(&mut self, shape: Shape) -> (r: EntitySet)
        requires
            old(self).wf(),
            0 <= shape.hbound.x,
            0 <= shape.hbound.y,
        ensures
            *final(self) == *old(self),
            r@ == old(self)@.spec_query(
                CacheGridData::spec_from(shape.spec_project_aligned(), old(self)@.scale),
            ),
    {
        let (x, y) = shape.project_aligned();
        self.cache_grid.query(x, y)
    }

    /// The entities registered in any cell that the bounding box of
    /// `shape` touches on one step along `motion`: the box is stretched by
    /// `motion` on the side that the motion points to, on each axis.
    pub fn query_motion(&mut self, shape: Shape, motion: Vec2) -> (r: EntitySet)
        requires
            old(self).wf(),
            0 <= shape.hbound.x,
            0 <= shape.hbound.y,
        ensures
            *final(self) == *old(self),
            r@ == old(self)@.spec_query(
                CacheGridData::spec_from(swept_box(shape, motion), old(self)@.scale),
            ),
    {
        broadcast use Projection::lemma_spanning;

        let (x, y) = shape.project_aligned();
        self.cache_grid.query(
            Projection::smear(x, motion.x as i64),
            Projection::smear(y, motion.y as i64),
        )
    }
}

} // verus!
