use std::collections::VecDeque;
use vstd::prelude::*;

use super::store::{
    cells_get, cells_get_mut, cells_insert, cells_new, cells_of, cells_remove, ranges_get,
    ranges_insert, ranges_new, ranges_of, ranges_remove, set_extend, set_insert, set_is_empty,
    set_new, set_of, set_remove, CellSets, EntityRanges, EntitySet,
};
use crate::collision::projection::Projection;
use crate::collision::shape::Shape;

verus! {

/// The size of a cell: `cells` cells for every `units` world units.
#[derive(Debug, Clone, Copy, PartialEq, Eq, Hash, Structural)]
pub struct GridScale {
    pub cells: i32,
    pub units: i32,
}

impl GridScale {
    /// Whether both terms of the ratio are positive.
    pub open spec fn wf(self) -> bool {
        0 < self.cells && 0 < self.units
    }

    /// The scale of `cells` cells for every `units` world units.
    pub fn new(cells: i32, units: i32) -> (r: GridScale)
        ensures
            r == (GridScale { cells, units }),
    {
        GridScale { cells, units }
    }
}

/// The cell index at or below the scaled coordinate `value`.
pub open spec fn scaled_floor(value: int, scale: GridScale) -> int {
    (value * scale.cells) / (scale.units as int)
}

/// The cell index at or above the scaled coordinate `value`.
pub open spec fn scaled_ceil(value: int, scale: GridScale) -> int {
    -((-(value * scale.cells)) / (scale.units as int))
}

/// The `i32` nearest to `value`.
pub open spec fn saturated(value: int) -> i32 {
    if value < i32::MIN {
        i32::MIN
    } else if value > i32::MAX {
        i32::MAX
    } else {
        value as i32
    }
}

/// The quotient of `n` by a positive `d`, rounded toward negative infinity.
fn div_floor(n: i128, d: i128) -> (q: i128)
    requires
        0 < d <= i32::MAX,
        -0x4000_0000_0000_0000_0000_0000 <= n <= 0x4000_0000_0000_0000_0000_0000,
    ensures
        q == n / d,
        -0x8000_0000_0000_0000_0000_0000 <= q <= 0x8000_0000_0000_0000_0000_0000,
{
    if n >= 0 {
        proof {
            vstd::arithmetic::div_mod::lemma_div_pos_is_pos(n as int, d as int);
            vstd::arithmetic::div_mod::lemma_div_is_ordered_by_denominator(n as int, 1, d as int);
        }
        n / d
    } else {
        let m: i128 = -n;
        let up: i128 = (m + (d - 1)) / d;
        proof {
            lemma_floor_of_negative(m as int, d as int);
            vstd::arithmetic::div_mod::lemma_div_pos_is_pos(m + (d - 1), d as int);
            vstd::arithmetic::div_mod::lemma_div_is_ordered_by_denominator(m + (d - 1), 1, d as int);
        }
        -up
    }
}

/// For a positive `m`, the floor of `-m / d` is the negated ceiling of `m / d`.
proof fn lemma_floor_of_negative(m: int, d: int)
    requires
        0 < m,
        0 < d,
    ensures
        (-m) / d == -((m + (d - 1)) / d),
{
    let q = (m + (d - 1)) / d;
    let r = (m + (d - 1)) % d;
    vstd::arithmetic::div_mod::lemma_fundamental_div_mod(m + (d - 1), d);
    vstd::arithmetic::div_mod::lemma_mod_bound(m + (d - 1), d);
    // m + d - 1 == d * q + r, so -m == d * (-q) + (d - 1 - r) with 0 <= d - 1 - r < d.
    assert(-m == d * (-q) + (d - 1 - r)) by (nonlinear_arith)
        requires
            m + (d - 1) == d * q + r,
    ;
    vstd::arithmetic::div_mod::lemma_fundamental_div_mod_converse(-m, d, -q, d - 1 - r);
}

/// The cells that an interval touches along one axis: from `near`
/// inclusive to `far` exclusive.
#[derive(Debug, Clone, Copy, PartialEq, Eq, Hash, Structural)]
pub struct CacheGridAxis {
    pub near: i32,
    pub far: i32,
}

impl CacheGridAxis {
    /// The cells of `projection` at `scale`: the lower bound rounded down,
    /// the upper bound rounded up, each held to the range of `i32`.
    pub open spec fn spec_from(projection: Projection, scale: GridScale) -> CacheGridAxis {
        CacheGridAxis {
            near: saturated(scaled_floor(projection.spec_near() as int, scale)),
            far: saturated(scaled_ceil(projection.spec_far() as int, scale)),
        }
    }

    /// Whether the half-open range holds the index `i`.
    pub open spec fn contains(self, i: int) -> bool {
        self.near <= i < self.far
    }

    /// The cells that `projection` touches at `scale`.
    pub fn from(projection: Projection, scale: GridScale) -> (r: CacheGridAxis)
        requires
            scale.wf(),
        ensures
            r == CacheGridAxis::spec_from(projection, scale),
    {
        let cells: i128 = scale.cells as i128;
        let units: i128 = scale.units as i128;
        let near: i128 = projection.near() as i128;
        let far: i128 = projection.far() as i128;
        assert(-0x4000_0000_0000_0000_0000_0000 <= near * cells <= 0x4000_0000_0000_0000_0000_0000)
            by (nonlinear_arith)
            requires
                -0x8000_0000_0000_0000 <= near <= 0x8000_0000_0000_0000,
                0 < cells <= 0x8000_0000,
        ;
        assert(-0x4000_0000_0000_0000_0000_0000 <= far * cells <= 0x4000_0000_0000_0000_0000_0000)
            by (nonlinear_arith)
            requires
                -0x8000_0000_0000_0000 <= far <= 0x8000_0000_0000_0000,
                0 < cells <= 0x8000_0000,
        ;
        let low: i128 = div_floor(near * cells, units);
        let high: i128 = -div_floor(-(far * cells), units);
        CacheGridAxis { near: saturate(low), far: saturate(high) }
    }
}

/// The `i32` nearest to `value`.
fn saturate(value: i128) -> (r: i32)
    ensures
        r == saturated(value as int),
{
    if value < i32::MIN as i128 {
        i32::MIN
    } else if value > i32::MAX as i128 {
        i32::MAX
    } else {
        value as i32
    }
}

/// The rectangle of cells that a bounding box touches.
#[derive(Debug, Clone, Copy, PartialEq, Eq, Hash, Structural)]
pub struct CacheGridData {
    pub x: CacheGridAxis,
    pub y: CacheGridAxis,
}

impl CacheGridData {
    /// The cells of the box `aabb` at `scale`.
    pub open spec fn spec_from(aabb: (Projection, Projection), scale: GridScale) -> CacheGridData {
        CacheGridData {
            x: CacheGridAxis::spec_from(aabb.0, scale),
            y: CacheGridAxis::spec_from(aabb.1, scale),
        }
    }

    /// Whether the rectangle holds the cell `(x, y)`.
    pub open spec fn contains_cell(self, cell: (int, int)) -> bool {
        self.x.contains(cell.0) && self.y.contains(cell.1)
    }

    /// Whether the rectangle holds no cell.
    pub open spec fn is_empty(self) -> bool {
        self.x.near >= self.x.far || self.y.near >= self.y.far
    }

    /// Whether the two rectangles share a cell.
    pub open spec fn meets(self, other: CacheGridData) -> bool {
        &&& self.x.near < other.x.far && other.x.near < self.x.far
        &&& self.y.near < other.y.far && other.y.near < self.y.far
        &&& !self.is_empty()
        &&& !other.is_empty()
    }

    /// The cells that the box `aabb` touches at `scale`.
    pub fn from(aabb: (Projection, Projection), scale: GridScale) -> (r: CacheGridData)
        requires
            scale.wf(),
        ensures
            r == CacheGridData::spec_from(aabb, scale),
    {
        CacheGridData {
            x: CacheGridAxis::from(aabb.0, scale),
            y: CacheGridAxis::from(aabb.1, scale),
        }
    }
}

/// The coordinates of one cell.
#[derive(Debug, Clone, Copy, PartialEq, Eq, Hash, Structural)]
pub struct CacheGridKey(pub i32, pub i32);

/// The number under which the cell `(x, y)` is stored: the two indices,
/// each moved into the range of `u32`, side by side.
pub open spec fn cell_key(cell: (int, int)) -> int {
    (cell.0 + 0x8000_0000) * 0x1_0000_0000 + (cell.1 + 0x8000_0000)
}

/// Whether both indices of `cell` are in the range of `i32`.
pub open spec fn is_cell(cell: (int, int)) -> bool {
    i32::MIN <= cell.0 <= i32::MAX && i32::MIN <= cell.1 <= i32::MAX
}

/// Two cells are stored under one number only if they are one cell.
pub proof fn lemma_cell_key_injective(a: (int, int), b: (int, int))
    requires
        is_cell(a),
        is_cell(b),
        cell_key(a) == cell_key(b),
    ensures
        a == b,
        0 <= cell_key(a) <= u64::MAX,
{
}

impl CacheGridKey {
    /// The cell as a pair of mathematical integers.
    pub open spec fn cell(self) -> (int, int) {
        (self.0 as int, self.1 as int)
    }

    /// The number under which the cell is stored.
    pub fn packed(self) -> (k: u64)
        ensures
            k == cell_key(self.cell()),
    {
        let x: i64 = self.0 as i64 + 0x8000_0000;
        let y: i64 = self.1 as i64 + 0x8000_0000;
        (x as u64) * 0x1_0000_0000 + (y as u64)
    }
}

/// What a grid holds: the cells that each entity was last registered
/// with, the entities in each populated cell, and the number of emptied
/// sets that wait to be used again.
pub struct CacheGridView {
    pub scale: GridScale,
    pub entities: Map<u64, CacheGridData>,
    pub cells: Map<(int, int), Set<u64>>,
    pub free: nat,
}

impl CacheGridView {
    /// Whether cells and entities agree: an entity is in every cell of its
    /// rectangle and in no other, no cell holds an entity that is not
    /// registered, and no populated cell is empty.
    pub open spec fn consistent(self) -> bool {
        &&& forall|e: u64, c: (int, int)|
            self.entities.contains_key(e) && #[trigger] self.entities[e].contains_cell(c)
                ==> self.cells.contains_key(c) && self.cells[c].contains(e)
        &&& forall|e: u64, c: (int, int)|
            self.cells.contains_key(c) && #[trigger] self.cells[c].contains(e)
                ==> self.entities.contains_key(e) && self.entities[e].contains_cell(c)
        &&& forall|c: (int, int)| #[trigger]
            self.cells.contains_key(c) ==> !self.cells[c].is_empty()
    }

    /// The cells that `entity` occupies alone.
    pub open spec fn emptied_by(self, entity: u64) -> Set<(int, int)> {
        Set::new(
            |c: (int, int)|
                self.cells.contains_key(c) && self.cells[c].contains(entity)
                    && self.cells[c].remove(entity).is_empty(),
        )
    }

    /// The cells of `data` that are not populated.
    pub open spec fn created_by(self, data: CacheGridData) -> Set<(int, int)> {
        Set::new(|c: (int, int)| data.contains_cell(c) && !self.cells.contains_key(c))
    }

    /// The grid without `entity`: it leaves every cell, a cell that it
    /// leaves empty is no longer populated, and the set of each such cell
    /// waits to be used again.
    pub open spec fn spec_remove(self, entity: u64) -> CacheGridView {
        if !self.entities.contains_key(entity) {
            self
        } else {
            CacheGridView {
                scale: self.scale,
                entities: self.entities.remove(entity),
                cells: Map::new(
                    |c: (int, int)|
                        self.cells.contains_key(c) && !self.cells[c].remove(entity).is_empty(),
                    |c: (int, int)| self.cells[c].remove(entity),
                ),
                free: self.free + self.emptied_by(entity).len(),
            }
        }
    }

    /// The grid with `entity` registered in the cells of `data`: it joins
    /// every cell of the rectangle, and each cell that was not populated
    /// takes a waiting set as long as there is one.
    pub open spec fn spec_insert(self, entity: u64, data: CacheGridData) -> CacheGridView {
        CacheGridView {
            scale: self.scale,
            entities: self.entities.insert(entity, data),
            cells: Map::new(
                |c: (int, int)| self.cells.contains_key(c) || data.contains_cell(c),
                |c: (int, int)|
                    if data.contains_cell(c) {
                        if self.cells.contains_key(c) {
                            self.cells[c].insert(entity)
                        } else {
                            Set::empty().insert(entity)
                        }
                    } else {
                        self.cells[c]
                    },
            ),
            free: if self.free >= self.created_by(data).len() {
                (self.free - self.created_by(data).len()) as nat
            } else {
                0
            },
        }
    }

    /// The grid after `entity` was seen with the cells `data`: unchanged
    /// where it was registered with the same cells, else removed and
    /// registered anew.
    pub open spec fn spec_update(self, entity: u64, data: CacheGridData) -> CacheGridView {
        if self.entities.contains_key(entity) && self.entities[entity] == data {
            self
        } else {
            self.spec_remove(entity).spec_insert(entity, data)
        }
    }

    /// The entities in the populated cells of `data`.
    pub open spec fn spec_query(self, data: CacheGridData) -> Set<u64> {
        Set::new(
            |e: u64|
                exists|c: (int, int)|
                    data.contains_cell(c) && self.cells.contains_key(c)
                        && #[trigger] self.cells[c].contains(e),
        )
    }
}

/// A uniform grid over the plane that records, cell by cell, which
/// entities' bounding boxes touch it.
pub struct CacheGrid {
    scale: GridScale,
    entities: EntityRanges,
    cells: CellSets,
    freelist: VecDeque<EntitySet>,
}

/// The populated cells of a map from cell numbers to sets.
pub closed spec fn cells_by_place(stored: Map<u64, Set<u64>>) -> Map<(int, int), Set<u64>> {
    Map::new(
        |c: (int, int)| is_cell(c) && stored.contains_key(cell_key(c) as u64),
        |c: (int, int)| stored[cell_key(c) as u64],
    )
}

impl View for CacheGrid {
    type V = CacheGridView;

    closed spec fn view(&self) -> CacheGridView {
        CacheGridView {
            scale: self.scale,
            entities: ranges_of(self.entities),
            cells: cells_by_place(cells_of(self.cells)),
            free: self.freelist@.len(),
        }
    }
}

impl CacheGrid {
    /// Whether every waiting set is empty and the scale is positive.
    pub closed spec fn inv(self) -> bool {
        &&& self.scale.wf()
        &&& forall|i: int|
            0 <= i < self.freelist@.len() ==> set_of(#[trigger] self.freelist@[i]).is_empty()
    }

    /// Whether the grid is in order: its parts agree with each other.
    pub open spec fn wf(self) -> bool {
        self.inv() && self@.consistent() && self@.scale.wf()
    }

    /// The empty grid with `scale.cells` cells for every `scale.units`
    /// world units.
    pub fn new(scale: GridScale) -> (r: CacheGrid)
        requires
            scale.wf(),
        ensures
            r.wf(),
            r@.scale == scale,
            r@.entities == Map::<u64, CacheGridData>::empty(),
            r@.cells == Map::<(int, int), Set<u64>>::empty(),
            r@.free == 0,
    {
        let r = CacheGrid {
            scale,
            entities: ranges_new(),
            cells: cells_new(),
            freelist: VecDeque::new(),
        };
        r
    }
}

/// Whether the cell `c` comes before `(x, y)` where rows of equal `x` are
/// walked one after the other, each from low to high `y`.
pub open spec fn walked(c: (int, int), x: int, y: int) -> bool {
    c.0 < x || (c.0 == x && c.1 < y)
}

/// The cells as they stand while `entity` leaves the cells of `data` one by
/// one: it has left those that were walked and is still in the others.
spec fn leaving(
    before: Map<(int, int), Set<u64>>,
    now: Map<(int, int), Set<u64>>,
    entity: u64,
    data: CacheGridData,
    x: int,
    y: int,
) -> bool {
    forall|c: (int, int)|
        #![trigger now.contains_key(c)]
        #![trigger before.contains_key(c)]
        if data.contains_cell(c) && walked(c, x, y) {
            &&& now.contains_key(c) == (before.contains_key(c) && !before[c].remove(
                entity,
            ).is_empty())
            &&& now.contains_key(c) ==> now[c] == before[c].remove(entity)
        } else {
            &&& now.contains_key(c) == before.contains_key(c)
            &&& now.contains_key(c) ==> now[c] == before[c]
        }
}

impl CacheGrid {
    /// Forgets `entity`: it leaves every cell that it was registered in, and
    /// a cell that it leaves empty gives its set back to be used again.
    /// Nothing happens where the entity is not registered.
    pub fn remove(&mut self, entity: u64)
        requires
            old(self).wf(),
        ensures
            final(self).wf(),
            final(self)@ == old(self)@.spec_remove(entity),
    {
        let found: Option<CacheGridData> = ranges_get(&self.entities, entity);
        if let Some(data_old) = found {
            self.remove_impl(entity, data_old);
        }
    }

    fn remove_impl(&mut self, entity: u64, data: CacheGridData)
        requires
            old(self).wf(),
            old(self)@.entities.contains_key(entity),
            old(self)@.entities[entity] == data,
        ensures
            final(self).wf(),
            final(self)@ == old(self)@.spec_remove(entity),
    {
        let ghost before = self@;
        let ghost mut emptied: Set<(int, int)> = Set::empty();
        ranges_remove(&mut self.entities, entity);
        let mut x: i32 = data.x.near;
        while x < data.x.far
            invariant
                data.x.near <= x,
                x <= data.x.far || data.x.near >= data.x.far,
                before.consistent(),
                before.entities.contains_key(entity),
                before.entities[entity] == data,
                self.inv(),
                self@.scale == before.scale,
                self@.entities == before.entities.remove(entity),
                leaving(before.cells, self@.cells, entity, data, x as int, data.y.near as int),
                emptied.finite(),
                self@.free == before.free + emptied.len(),
                forall|c: (int, int)|
                    emptied.contains(c) <==> (before.emptied_by(entity).contains(c) && walked(
                        c,
                        x as int,
                        data.y.near as int,
                    )),
            decreases data.x.far - x,
        {
            let mut y: i32 = data.y.near;
            while y < data.y.far
                invariant
                    data.x.near <= x < data.x.far,
                    data.y.near <= y,
                    y <= data.y.far || data.y.near >= data.y.far,
                    before.consistent(),
                    before.entities.contains_key(entity),
                    before.entities[entity] == data,
                    self.inv(),
                    self@.scale == before.scale,
                    self@.entities == before.entities.remove(entity),
                    leaving(before.cells, self@.cells, entity, data, x as int, y as int),
                    emptied.finite(),
                    self@.free == before.free + emptied.len(),
                    forall|c: (int, int)|
                        emptied.contains(c) <==> (before.emptied_by(entity).contains(c) && walked(
                            c,
                            x as int,
                            y as int,
                        )),
                decreases data.y.far - y,
            {
                let key = CacheGridKey(x, y);
                let ghost c0 = key.cell();
                let k: u64 = key.packed();
                let ghost stored = cells_of(self.cells);
                assert(data.contains_cell(c0));
                let ghost mut was_emptied = false;
                let cell = cells_get_mut(&mut self.cells, k).unwrap();
                set_remove(cell, entity);
                if set_is_empty(cell) {
                    self.freelist.push_back(cells_remove(&mut self.cells, k).unwrap());
                    proof {
                        was_emptied = true;
                    }
                }
                proof {
                    let stored_now = cells_of(self.cells);
                    if was_emptied {
                        emptied = emptied.insert(c0);
                    }
                    assert(was_emptied ==> stored_now =~= stored.remove(k));
                    assert(!was_emptied ==> stored_now.dom() =~= stored.dom());
                    assert forall|c: (int, int)| is_cell(c) && c != c0 implies cell_key(c)
                        != cell_key(c0) by {
                        if cell_key(c) == cell_key(c0) {
                            lemma_cell_key_injective(c, c0);
                        }
                    }
                    lemma_cell_key_injective(c0, c0);
                }
                y += 1;
            }
            x += 1;
        }
        proof {
            assert(self@.cells =~~= before.spec_remove(entity).cells);
            assert(emptied =~= before.emptied_by(entity));
        }
    }
}

/// The cells as they stand while `entity` joins the cells of `data` one by
/// one: it is in those that were walked, and the others are as before.
spec fn joining(
    before: Map<(int, int), Set<u64>>,
    now: Map<(int, int), Set<u64>>,
    entity: u64,
    data: CacheGridData,
    x: int,
    y: int,
) -> bool {
    forall|c: (int, int)|
        #![trigger now.contains_key(c)]
        #![trigger before.contains_key(c)]
        if data.contains_cell(c) && walked(c, x, y) {
            &&& now.contains_key(c)
            &&& now[c] == if before.contains_key(c) {
                before[c].insert(entity)
            } else {
                Set::empty().insert(entity)
            }
        } else {
            &&& now.contains_key(c) == before.contains_key(c)
            &&& now.contains_key(c) ==> now[c] == before[c]
        }
}

impl CacheGrid {
    /// Registers `entity` with the cells that the bounding box of `shape`
    /// touches. Where it is registered with exactly these cells already,
    /// nothing is touched. Else it leaves its old cells as in `remove` and
    /// joins each cell of the new rectangle; a cell that was not populated
    /// takes a waiting set, or a new one where none waits.
    pub fn update(&mut self, entity: u64, shape: Shape)
        requires
            old(self).wf(),
            0 <= shape.hbound.x,
            0 <= shape.hbound.y,
        ensures
            final(self).wf(),
            final(self)@ == old(self)@.spec_update(
                entity,
                CacheGridData::spec_from(shape.spec_project_aligned(), old(self)@.scale),
            ),
            old(self)@.entities.contains_key(entity) && old(self)@.entities[entity]
                == CacheGridData::spec_from(shape.spec_project_aligned(), old(self)@.scale)
                ==> *final(self) == *old(self),
    {
        let data_new = CacheGridData::from(shape.project_aligned(), self.scale);
        let found: Option<CacheGridData> = ranges_get(&self.entities, entity);
        if let Some(data_old) = found {
            // No change to occupancy
            if data_new == data_old {
                return ;
            }
            self.remove(entity);
        }
        let ghost before = self@;
        let ghost mut created: Set<(int, int)> = Set::empty();
        ranges_insert(&mut self.entities, entity, data_new);
        let mut x: i32 = data_new.x.near;
        while x < data_new.x.far
            invariant
                data_new.x.near <= x,
                x <= data_new.x.far || data_new.x.near >= data_new.x.far,
                before.consistent(),
                !before.entities.contains_key(entity),
                self.inv(),
                self@.scale == before.scale,
                self@.entities == before.entities.insert(entity, data_new),
                joining(
                    before.cells,
                    self@.cells,
                    entity,
                    data_new,
                    x as int,
                    data_new.y.near as int,
                ),
                created.finite(),
                self@.free == (if before.free >= created.len() {
                    before.free - created.len()
                } else {
                    0
                }),
                forall|c: (int, int)|
                    created.contains(c) <==> (before.created_by(data_new).contains(c) && walked(
                        c,
                        x as int,
                        data_new.y.near as int,
                    )),
            decreases data_new.x.far - x,
        {
            let mut y: i32 = data_new.y.near;
            while y < data_new.y.far
                invariant
                    data_new.x.near <= x < data_new.x.far,
                    data_new.y.near <= y,
                    y <= data_new.y.far || data_new.y.near >= data_new.y.far,
                    before.consistent(),
                    !before.entities.contains_key(entity),
                    self.inv(),
                    self@.scale == before.scale,
                    self@.entities == before.entities.insert(entity, data_new),
                    joining(before.cells, self@.cells, entity, data_new, x as int, y as int),
                    created.finite(),
                    self@.free == (if before.free >= created.len() {
                        before.free - created.len()
                    } else {
                        0
                    }),
                    forall|c: (int, int)|
                        created.contains(c) <==> (before.created_by(data_new).contains(c)
                            && walked(c, x as int, y as int)),
                decreases data_new.y.far - y,
            {
                let key = CacheGridKey(x, y);
                let ghost c0 = key.cell();
                let k: u64 = key.packed();
                let ghost stored = cells_of(self.cells);
                let ghost was_vacant = !stored.contains_key(k);
                match cells_get_mut(&mut self.cells, k) {
                    Some(cell) => {
                        set_insert(cell, entity);
                    },
                    None => {
                        let mut set: EntitySet = match self.freelist.pop_back() {
                            Some(set) => set,
                            None => set_new(),
                        };
                        set_insert(&mut set, entity);
                        cells_insert(&mut self.cells, k, set);
                    },
                }
                proof {
                    if was_vacant {
                        created = created.insert(c0);
                    }
                    assert forall|c: (int, int)| is_cell(c) && c != c0 implies cell_key(c)
                        != cell_key(c0) by {
                        if cell_key(c) == cell_key(c0) {
                            lemma_cell_key_injective(c, c0);
                        }
                    }
                    lemma_cell_key_injective(c0, c0);
                    let now = self@.cells;
                    let was = cells_by_place(stored);
                    assert forall|c: (int, int)|
                        #![trigger now.contains_key(c)]
                        #![trigger before.cells.contains_key(c)]
                        if data_new.contains_cell(c) && walked(c, x as int, y + 1) {
                            &&& now.contains_key(c)
                            &&& now[c] == if before.cells.contains_key(c) {
                                before.cells[c].insert(entity)
                            } else {
                                Set::empty().insert(entity)
                            }
                        } else {
                            &&& now.contains_key(c) == before.cells.contains_key(c)
                            &&& now.contains_key(c) ==> now[c] == before.cells[c]
                        } by {
                        if c != c0 {
                            assert(was.contains_key(c) == now.contains_key(c));
                        }
                    }
                }
                y += 1;
            }
            x += 1;
        }
        proof {
            assert(self@.cells =~~= before.spec_insert(entity, data_new).cells);
            assert(created =~= before.created_by(data_new));
        }
    }
}

/// The entities in those populated cells of `data` that were walked before
/// `(x, y)`.
spec fn found(cells: Map<(int, int), Set<u64>>, data: CacheGridData, x: int, y: int) -> Set<u64> {
    Set::new(
        |e: u64|
            exists|c: (int, int)|
                data.contains_cell(c) && walked(c, x, y) && cells.contains_key(c)
                    && #[trigger] cells[c].contains(e),
    )
}

/// Walking one more cell of `data` finds what that cell holds.
proof fn lemma_found_step(cells: Map<(int, int), Set<u64>>, data: CacheGridData, x: int, y: int)
    requires
        data.contains_cell((x, y)),
    ensures
        found(cells, data, x, y + 1) == found(cells, data, x, y).union(
            if cells.contains_key((x, y)) {
                cells[(x, y)]
            } else {
                Set::empty()
            },
        ),
{
    let here = if cells.contains_key((x, y)) {
        cells[(x, y)]
    } else {
        Set::empty()
    };
    let lhs = found(cells, data, x, y + 1);
    let rhs = found(cells, data, x, y).union(here);
    assert forall|e: u64| lhs.contains(e) implies rhs.contains(e) by {
        let c = choose|c: (int, int)|
            data.contains_cell(c) && walked(c, x, y + 1) && cells.contains_key(c)
                && #[trigger] cells[c].contains(e);
    }
    assert forall|e: u64| rhs.contains(e) implies lhs.contains(e) by {
        if found(cells, data, x, y).contains(e) {
            let c = choose|c: (int, int)|
                data.contains_cell(c) && walked(c, x, y) && cells.contains_key(c)
                    && #[trigger] cells[c].contains(e);
        } else {
        }
    }
}

/// Past the end of a row lies the start of the next.
proof fn lemma_found_row(cells: Map<(int, int), Set<u64>>, data: CacheGridData, x: int, y: int)
    requires
        y >= data.y.far,
    ensures
        found(cells, data, x, y) == found(cells, data, x + 1, data.y.near as int),
{
    let lhs = found(cells, data, x, y);
    let rhs = found(cells, data, x + 1, data.y.near as int);
    assert forall|e: u64| lhs.contains(e) implies rhs.contains(e) by {
        let c = choose|c: (int, int)|
            data.contains_cell(c) && walked(c, x, y) && cells.contains_key(c)
                && #[trigger] cells[c].contains(e);
    }
    assert forall|e: u64| rhs.contains(e) implies lhs.contains(e) by {
        let c = choose|c: (int, int)|
            data.contains_cell(c) && walked(c, x + 1, data.y.near as int) && cells.contains_key(c)
                && #[trigger] cells[c].contains(e);
    }
}

impl CacheGrid {
    /// The entities registered in any cell that the box with the extents
    /// `x` and `y` touches. The grid stays as it is.
    pub fn query(&mut self, x: Projection, y: Projection) -> (r: EntitySet)
        requires
            old(self).wf(),
        ensures
            *final(self) == *old(self),
            r@ == old(self)@.spec_query(CacheGridData::spec_from((x, y), old(self)@.scale)),
    {
        let data = CacheGridData::from((x, y), self.scale);
        let ghost cells = self@.cells;
        let mut result: EntitySet = set_new();
        let mut cx: i32 = data.x.near;
        while cx < data.x.far
            invariant
                data.x.near <= cx,
                cx <= data.x.far || data.x.near >= data.x.far,
                cells == self@.cells,
                *self == *old(self),
                result@ == found(cells, data, cx as int, data.y.near as int),
            decreases data.x.far - cx,
        {
            let mut cy: i32 = data.y.near;
            while cy < data.y.far
                invariant
                    data.x.near <= cx < data.x.far,
                    data.y.near <= cy,
                    cy <= data.y.far || data.y.near >= data.y.far,
                    cells == self@.cells,
                    *self == *old(self),
                    result@ == found(cells, data, cx as int, cy as int),
                decreases data.y.far - cy,
            {
                let key = CacheGridKey(cx, cy);
                let k: u64 = key.packed();
                proof {
                    lemma_cell_key_injective(key.cell(), key.cell());
                    lemma_found_step(cells, data, cx as int, cy as int);
                }
                if let Some(cell) = cells_get(&self.cells, k) {
                    set_extend(&mut result, cell);
                } else {
                }
                cy += 1;
            }
            proof {
                lemma_found_row(cells, data, cx as int, cy as int);
            }
            cx += 1;
        }
        proof {
            let whole = old(self)@.spec_query(data);
            assert forall|e: u64| whole.contains(e) implies result@.contains(e) by {
                let c = choose|c: (int, int)|
                    data.contains_cell(c) && cells.contains_key(c) && #[trigger] cells[c].contains(
                        e,
                    );
            }
        }
        result
    }
}

impl CacheGrid {
    /// The number of emptied sets that wait to be used again.
    pub fn recycled(&self) -> (r: usize)
        ensures
            r == self@.free,
    {
        self.freelist.len()
    }
}

impl CacheGridView {
    /// Removing an entity keeps cells and entities in agreement.
    pub proof fn lemma_remove_keeps_consistent(self, entity: u64)
        requires
            self.consistent(),
        ensures
            self.spec_remove(entity).consistent(),
            !self.spec_remove(entity).entities.contains_key(entity),
    {
        let after = self.spec_remove(entity);
        if self.entities.contains_key(entity) {
            assert forall|e: u64, c: (int, int)|
                after.entities.contains_key(e) && #[trigger] after.entities[e].contains_cell(
                    c,
                ) implies after.cells.contains_key(c) && after.cells[c].contains(e) by {}
        }
    }

    /// Registering an entity that is not registered keeps cells and
    /// entities in agreement.
    pub proof fn lemma_insert_keeps_consistent(self, entity: u64, data: CacheGridData)
        requires
            self.consistent(),
            !self.entities.contains_key(entity),
        ensures
            self.spec_insert(entity, data).consistent(),
    {
        let after = self.spec_insert(entity, data);
        assert forall|e: u64, c: (int, int)|
            after.entities.contains_key(e) && #[trigger] after.entities[e].contains_cell(
                c,
            ) implies after.cells.contains_key(c) && after.cells[c].contains(e) by {}
        assert forall|c: (int, int)| #[trigger]
            after.cells.contains_key(c) implies !after.cells[c].is_empty() by {}
    }

    /// Whatever sequence of updates and removals led to a grid, one more
    /// update leaves cells and entities in agreement: every entity is in
    /// each cell of its rectangle and in no other, and no populated cell
    /// is empty.
    pub proof fn lemma_update_keeps_consistent(self, entity: u64, data: CacheGridData)
        requires
            self.consistent(),
        ensures
            self.spec_update(entity, data).consistent(),
            self.spec_update(entity, data).entities.contains_key(entity),
            self.spec_update(entity, data).entities[entity] == data,
    {
        self.lemma_remove_keeps_consistent(entity);
        self.spec_remove(entity).lemma_insert_keeps_consistent(entity, data);
    }

    /// An update with the cells that the entity already has changes
    /// nothing, so a second update with the same cells undoes no work of
    /// the first and touches no set.
    pub proof fn lemma_update_again_is_noop(self, entity: u64, data: CacheGridData)
        ensures
            self.spec_update(entity, data).spec_update(entity, data) == self.spec_update(
                entity,
                data,
            ),
    {
    }

    /// A removal gives back one set for each cell that it empties, and a
    /// registration takes one for each cell that it populates. So where an
    /// entity is removed and another is registered into exactly one cell
    /// that is not populated, the number of waiting sets is what the removal
    /// gave less one: with one cell emptied, the number from before the
    /// removal.
    pub proof fn lemma_freelist_reuse(self, gone: u64, come: u64, data: CacheGridData)
        requires
            self.entities.contains_key(gone),
            self.emptied_by(gone).len() >= 1,
            self.spec_remove(gone).created_by(data).len() == 1,
        ensures
            self.spec_remove(gone).free == self.free + self.emptied_by(gone).len(),
            self.spec_remove(gone).spec_insert(come, data).free == self.free + self.emptied_by(
                gone,
            ).len() - 1,
            self.emptied_by(gone).len() == 1 ==> self.spec_remove(gone).spec_insert(
                come,
                data,
            ).free == self.free,
    {
    }

    /// In a grid whose cells and entities agree, a query finds exactly the
    /// entities whose rectangle shares a cell with the rectangle asked for.
    pub proof fn lemma_query_finds_meeting(self, data: CacheGridData)
        requires
            self.consistent(),
        ensures
            forall|e: u64|
                self.spec_query(data).contains(e) <==> (self.entities.contains_key(e)
                    && #[trigger] self.entities[e].meets(data)),
    {
        assert forall|e: u64|
            self.entities.contains_key(e) && #[trigger] self.entities[e].meets(
                data,
            ) implies self.spec_query(data).contains(e) by {
            let d = self.entities[e];
            let cx = if d.x.near >= data.x.near {
                d.x.near as int
            } else {
                data.x.near as int
            };
            let cy = if d.y.near >= data.y.near {
                d.y.near as int
            } else {
                data.y.near as int
            };
            assert(d.contains_cell((cx, cy)));
        }
        assert forall|e: u64| self.spec_query(data).contains(e) implies self.entities.contains_key(
            e,
        ) && #[trigger] self.entities[e].meets(data) by {
            let c = choose|c: (int, int)|
                data.contains_cell(c) && self.cells.contains_key(c) && #[trigger] self.cells[c].contains(
                    e,
                );
        }
    }
}

/// Rounding down never passes rounding up: where one coordinate lies below
/// another, the cell at or below the first lies below the cell at or above
/// the second.
pub proof fn lemma_floor_below_ceil(low: int, high: int, scale: GridScale)
    requires
        scale.wf(),
        low < high,
    ensures
        scaled_floor(low, scale) < scaled_ceil(high, scale),
{
    let c = scale.cells as int;
    let u = scale.units as int;
    let p = low * c;
    let q = high * c;
    assert(p < q) by (nonlinear_arith)
        requires
            low < high,
            0 < c,
            p == low * c,
            q == high * c,
    ;
    vstd::arithmetic::div_mod::lemma_fundamental_div_mod(p, u);
    vstd::arithmetic::div_mod::lemma_mod_bound(p, u);
    vstd::arithmetic::div_mod::lemma_fundamental_div_mod(-q, u);
    vstd::arithmetic::div_mod::lemma_mod_bound(-q, u);
    let f = p / u;
    let g = (-q) / u;
    assert(u * (f + g) < 0) by (nonlinear_arith)
        requires
            u * f <= p,
            u * g <= -q,
            p < q,
    ;
    assert(f + g < 0) by (nonlinear_arith)
        requires
            u * (f + g) < 0,
            0 < u,
    ;
}

/// The grid misses no pair of boxes that overlap: where two boxes of
/// positive extent overlap on both axes by more than a touch, and their
/// cells are within the range of `i32`, their rectangles of cells share a
/// cell. So a query with the one finds an entity registered with the other.
pub proof fn lemma_overlapping_boxes_share_a_cell(
    a: (Projection, Projection),
    b: (Projection, Projection),
    scale: GridScale,
)
    requires
        scale.wf(),
        a.0.spec_near() < a.0.spec_far(),
        a.1.spec_near() < a.1.spec_far(),
        b.0.spec_near() < b.0.spec_far(),
        b.1.spec_near() < b.1.spec_far(),
        a.0.spec_near() < b.0.spec_far() && b.0.spec_near() < a.0.spec_far(),
        a.1.spec_near() < b.1.spec_far() && b.1.spec_near() < a.1.spec_far(),
        cells_in_range(a.0, scale),
        cells_in_range(a.1, scale),
        cells_in_range(b.0, scale),
        cells_in_range(b.1, scale),
    ensures
        CacheGridData::spec_from(a, scale).meets(CacheGridData::spec_from(b, scale)),
{
    lemma_floor_below_ceil(a.0.spec_near() as int, a.0.spec_far() as int, scale);
    lemma_floor_below_ceil(a.1.spec_near() as int, a.1.spec_far() as int, scale);
    lemma_floor_below_ceil(b.0.spec_near() as int, b.0.spec_far() as int, scale);
    lemma_floor_below_ceil(b.1.spec_near() as int, b.1.spec_far() as int, scale);
    lemma_floor_below_ceil(a.0.spec_near() as int, b.0.spec_far() as int, scale);
    lemma_floor_below_ceil(b.0.spec_near() as int, a.0.spec_far() as int, scale);
    lemma_floor_below_ceil(a.1.spec_near() as int, b.1.spec_far() as int, scale);
    lemma_floor_below_ceil(b.1.spec_near() as int, a.1.spec_far() as int, scale);
}

/// Whether the cells of `projection` at `scale` are cells as they stand,
/// with nothing held back to the range of `i32`.
pub open spec fn cells_in_range(projection: Projection, scale: GridScale) -> bool {
    &&& i32::MIN <= scaled_floor(projection.spec_near() as int, scale) <= i32::MAX
    &&& i32::MIN <= scaled_ceil(projection.spec_far() as int, scale) <= i32::MAX
}

} // verus!
