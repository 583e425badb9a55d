use vstd::prelude::*;

use super::cache_grid::CacheGridData;

verus! {

/// A set of entities, each by its number: a `HashSet` of hashbrown as bevy
/// configures it. What it holds is `set_of`.
#[verifier::external_body]
pub struct EntitySet {
    inner: bevy::utils::HashSet<u64>,
}

/// The cells that each entity was last registered with: a `HashMap` of
/// hashbrown as bevy configures it. What it holds is `ranges_of`.
#[verifier::external_body]
pub struct EntityRanges {
    inner: bevy::utils::HashMap<u64, CacheGridData>,
}

/// The set of entities of each populated cell, by the number of the cell:
/// a `HashMap` of hashbrown as bevy configures it. What it holds is
/// `cells_of`.
#[verifier::external_body]
pub struct CellSets {
    inner: bevy::utils::HashMap<u64, EntitySet>,
}

/// The entities that a set holds.
pub uninterp spec fn set_of(set: EntitySet) -> Set<u64>;

/// The entities that a map of ranges holds, each with its cells.
pub uninterp spec fn ranges_of(ranges: EntityRanges) -> Map<u64, CacheGridData>;

/// The numbers of the cells that a map of cells holds, each with the
/// entities of its set.
pub uninterp spec fn cells_of(cells: CellSets) -> Map<u64, Set<u64>>;

/// `HashSet::default` of hashbrown: a set that holds nothing.
#[verifier::external_body]
pub(crate) fn set_new() -> (r: EntitySet)
    ensures
        set_of(r) == Set::<u64>::empty(),
{
    EntitySet { inner: Default::default() }
}

/// `HashSet::insert` of hashbrown: the set holds `entity` afterwards and
/// all that it held; the result tells whether `entity` was new.
#[verifier::external_body]
pub(crate) fn set_insert(set: &mut EntitySet, entity: u64) -> (r: bool)
    ensures
        set_of(*final(set)) == set_of(*old(set)).insert(entity),
        r == !set_of(*old(set)).contains(entity),
{
    set.inner.insert(entity)
}

/// `HashSet::remove` of hashbrown: the set holds all that it held but
/// `entity`; the result tells whether it held `entity`.
#[verifier::external_body]
pub(crate) fn set_remove(set: &mut EntitySet, entity: u64) -> (r: bool)
    ensures
        set_of(*final(set)) == set_of(*old(set)).remove(entity),
        r == set_of(*old(set)).contains(entity),
{
    set.inner.remove(&entity)
}

/// `HashSet::is_empty` of hashbrown: whether the set holds nothing.
#[verifier::external_body]
pub(crate) fn set_is_empty(set: &EntitySet) -> (r: bool)
    ensures
        r == set_of(*set).is_empty(),
{
    set.inner.is_empty()
}

/// `HashSet::contains` of hashbrown: whether the set holds `entity`.
#[verifier::external_body]
pub(crate) fn set_contains(set: &EntitySet, entity: u64) -> (r: bool)
    ensures
        r == set_of(*set).contains(entity),
{
    set.inner.contains(&entity)
}

/// `Extend::extend` of hashbrown's `HashSet`, with a reference to another
/// set: the set holds all that either held.
#[verifier::external_body]
pub(crate) fn set_extend(set: &mut EntitySet, other: &EntitySet)
    ensures
        set_of(*final(set)) == set_of(*old(set)).union(set_of(*other)),
{
    set.inner.extend(&other.inner)
}

/// `HashSet::iter` of hashbrown, collected: every entity of the set once,
/// in an order that nothing is claimed of.
#[verifier::external_body]
pub(crate) fn set_to_vec(set: &EntitySet) -> (r: Vec<u64>)
    ensures
        r@.no_duplicates(),
        r@.to_set() == set_of(*set),
{
    set.inner.iter().copied().collect()
}

/// `HashMap::default` of hashbrown: a map that holds nothing.
#[verifier::external_body]
pub(crate) fn ranges_new() -> (r: EntityRanges)
    ensures
        (ranges_of(r) == Map::<u64, CacheGridData>::empty()),
{
    EntityRanges { inner: Default::default() }
}

/// `HashMap::get` of hashbrown: the cells of `entity`, if the map holds it.
#[verifier::external_body]
pub(crate) fn ranges_get(ranges: &EntityRanges, entity: u64) -> (r: Option<CacheGridData>)
    ensures
        r == (if ranges_of(*ranges).contains_key(entity) {
            Some(ranges_of(*ranges)[entity])
        } else {
            None
        }),
{
    ranges.inner.get(&entity).copied()
}

/// `HashMap::insert` of hashbrown: the map holds `entity` with `data`
/// afterwards, and every other entity as before.
#[verifier::external_body]
pub(crate) fn ranges_insert(ranges: &mut EntityRanges, entity: u64, data: CacheGridData)
    ensures
        ranges_of(*final(ranges)) == ranges_of(*old(ranges)).insert(entity, data),
{
    ranges.inner.insert(entity, data);
}

/// `HashMap::remove` of hashbrown: the map holds every entity as before
/// but `entity`.
#[verifier::external_body]
pub(crate) fn ranges_remove(ranges: &mut EntityRanges, entity: u64)
    ensures
        ranges_of(*final(ranges)) == ranges_of(*old(ranges)).remove(entity),
{
    ranges.inner.remove(&entity);
}

/// `HashMap::default` of hashbrown: a map that holds nothing.
#[verifier::external_body]
pub(crate) fn cells_new() -> (r: CellSets)
    ensures
        (cells_of(r) == Map::<u64, Set<u64>>::empty()),
{
    CellSets { inner: Default::default() }
}

/// `HashMap::get` of hashbrown: the set of the cell `key`, if the map
/// holds the cell.
#[verifier::external_body]
pub(crate) fn cells_get(cells: &CellSets, key: u64) -> (r: Option<&EntitySet>)
    ensures
        r is Some == cells_of(*cells).contains_key(key),
        r matches Some(set) ==> set_of(*set) == cells_of(*cells)[key],
{
    cells.inner.get(&key)
}

/// `HashMap::get_mut` of hashbrown: the set of the cell `key`, if the map
/// holds the cell. What the caller makes of the set is what the map holds
/// for the cell afterwards; every other cell stays.
#[verifier::external_body]
pub(crate) fn cells_get_mut(cells: &mut CellSets, key: u64) -> (r: Option<&mut EntitySet>)
    ensures
        match r {
            Some(set) => cells_of(*old(cells)).contains_key(key) && set_of(*set) == cells_of(
                *old(cells),
            )[key] && cells_of(*final(cells)) == cells_of(*old(cells)).insert(
                key,
                set_of(*final(set)),
            ),
            None => !cells_of(*old(cells)).contains_key(key) && cells_of(*final(cells))
                == cells_of(*old(cells)),
        },
{
    cells.inner.get_mut(&key)
}

/// `HashMap::insert` of hashbrown: the map holds the cell `key` with
/// `set` afterwards, and every other cell as before.
#[verifier::external_body]
pub(crate) fn cells_insert(cells: &mut CellSets, key: u64, set: EntitySet)
    ensures
        cells_of(*final(cells)) == cells_of(*old(cells)).insert(key, set_of(set)),
{
    cells.inner.insert(key, set);
}

/// `HashMap::remove` of hashbrown: the set of the cell `key`, if the map
/// held the cell; afterwards the map holds every other cell as before.
#[verifier::external_body]
pub(crate) fn cells_remove(cells: &mut CellSets, key: u64) -> (r: Option<EntitySet>)
    ensures
        cells_of(*final(cells)) == cells_of(*old(cells)).remove(key),
        r is Some == cells_of(*old(cells)).contains_key(key),
        r matches Some(set) ==> set_of(set) == cells_of(*old(cells))[key],
{
    cells.inner.remove(&key)
}

impl View for EntitySet {
    type V = Set<u64>;

    open spec fn view(&self) -> Set<u64> {
        set_of(*self)
    }
}

impl EntitySet {
    /// Whether the set holds `entity`.
    pub fn contains(&self, entity: u64) -> (r: bool)
        ensures
            r == self@.contains(entity),
    {
        set_contains(self, entity)
    }

    /// Whether the set holds nothing.
    pub fn is_empty(&self) -> (r: bool)
        ensures
            r == self@.is_empty(),
    {
        set_is_empty(self)
    }

    /// Every entity of the set once, in no particular order.
    pub fn to_vec(&self) -> (r: Vec<u64>)
        ensures
            r@.no_duplicates(),
            r@.to_set() == self@,
    {
        set_to_vec(self)
    }
}

} // verus!
