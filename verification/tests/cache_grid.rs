use std::collections::HashSet;

use nvm_bevyutil::collision::{Projection, Shape};
use nvm_bevyutil::math::Vec2;
use nvm_bevyutil::physics::{
    CacheGrid, CacheGridAxis, CacheGridData, CacheGridKey, Collider, ColliderLookup, EntitySet,
    GridScale,
};

fn span(near: i64, far: i64) -> Projection {
    Projection::new_unchecked(near, far)
}

fn boxed(x: (i32, i32), y: (i32, i32)) -> Shape {
    Shape::rectangle(
        Vec2::new((x.0 + x.1) / 2, (y.0 + y.1) / 2),
        Vec2::new((x.1 - x.0) / 2, (y.1 - y.0) / 2),
    )
}

fn set(ids: &[u64]) -> Vec<u64> {
    let mut ids = ids.to_vec();
    ids.sort();
    ids
}

fn ids(found: EntitySet) -> Vec<u64> {
    let mut ids = found.to_vec();
    ids.sort();
    ids
}

const A: u64 = 1;
const B: u64 = 2;
const C: u64 = (7 << 32) | 3;

#[test]
fn insert_query_remove() {
    let mut grid = CacheGrid::new(GridScale::new(1, 1));
    grid.update(A, boxed((0, 4), (0, 4)));
    assert_eq!(ids(grid.query(span(0, 4), span(0, 4))), set(&[A]));
    grid.remove(A);
    assert_eq!(ids(grid.query(span(0, 4), span(0, 4))), set(&[]));
}

#[test]
fn cells_round_outward() {
    let third = GridScale::new(1, 3);
    assert_eq!(CacheGridAxis::from(span(0, 4), third), CacheGridAxis { near: 0, far: 2 });
    assert_eq!(CacheGridAxis::from(span(-4, -1), third), CacheGridAxis { near: -2, far: 0 });
    assert_eq!(CacheGridAxis::from(span(-3, 3), third), CacheGridAxis { near: -1, far: 1 });
    assert_eq!(CacheGridAxis::from(span(-1, 1), third), CacheGridAxis { near: -1, far: 1 });
    assert_eq!(CacheGridAxis::from(span(5, 5), third), CacheGridAxis { near: 1, far: 2 });
    assert_eq!(CacheGridAxis::from(span(6, 6), third), CacheGridAxis { near: 2, far: 2 });
    let double = GridScale::new(2, 1);
    assert_eq!(CacheGridAxis::from(span(-3, 4), double), CacheGridAxis { near: -6, far: 8 });
    let odd = GridScale::new(3, 2);
    assert_eq!(CacheGridAxis::from(span(-3, 3), odd), CacheGridAxis { near: -5, far: 5 });
}

#[test]
fn cells_stay_in_range() {
    let huge = GridScale::new(i32::MAX, 1);
    assert_eq!(
        CacheGridAxis::from(span(i64::MIN, i64::MAX), huge),
        CacheGridAxis { near: i32::MIN, far: i32::MAX }
    );
    let one = GridScale::new(1, 1);
    assert_eq!(
        CacheGridAxis::from(span(i32::MIN as i64 - 1, i32::MAX as i64 + 1), one),
        CacheGridAxis { near: i32::MIN, far: i32::MAX }
    );
    assert_eq!(
        CacheGridData::from((span(0, 4), span(-2, 2)), one),
        CacheGridData { x: CacheGridAxis { near: 0, far: 4 }, y: CacheGridAxis { near: -2, far: 2 } }
    );
}

#[test]
fn keys_tell_cells_apart() {
    let cells = [
        (0, 0), (0, 1), (1, 0), (-1, 0), (0, -1), (-1, -1),
        (i32::MIN, i32::MIN), (i32::MIN, i32::MAX), (i32::MAX, i32::MIN), (i32::MAX, i32::MAX),
    ];
    let keys: HashSet<u64> = cells.iter().map(|&(x, y)| CacheGridKey(x, y).packed()).collect();
    assert_eq!(keys.len(), cells.len());
    assert_eq!(CacheGridKey(i32::MIN, i32::MIN).packed(), 0);
    assert_eq!(CacheGridKey(0, 0).packed(), (1 << 63) | (1 << 31));
    assert_eq!(CacheGridKey(i32::MAX, i32::MAX).packed(), u64::MAX);
}

#[test]
fn every_cell_of_the_range_holds_the_entity_and_no_other() {
    let mut grid = CacheGrid::new(GridScale::new(1, 2));
    grid.update(A, boxed((0, 8), (-4, 4)));
    grid.update(B, boxed((6, 12), (0, 2)));
    grid.update(C, boxed((-20, -18), (-20, -18)));
    grid.update(A, boxed((2, 10), (-4, 4)));
    grid.remove(C);
    grid.remove(C);
    // A covers cells 1..5 by -2..2, B covers cells 3..6 by 0..1.
    for x in -3i64..9 {
        for y in -4i64..4 {
            let mut expected = Vec::new();
            if (1..5).contains(&x) && (-2..2).contains(&y) {
                expected.push(A);
            }
            if (3..6).contains(&x) && y == 0 {
                expected.push(B);
            }
            let cell = grid.query(span(2 * x, 2 * x + 2), span(2 * y, 2 * y + 2));
            assert_eq!(cell.is_empty(), expected.is_empty());
            assert_eq!(cell.contains(A), expected.contains(&A));
            assert_eq!(cell.contains(B), expected.contains(&B));
            assert_eq!(ids(cell), expected, "cell {} {}", x, y);
        }
    }
    assert_eq!(ids(grid.query(span(-100, 100), span(-100, 100))), set(&[A, B]));
    assert_eq!(ids(grid.query(span(-40, -36), span(-40, -36))), set(&[]));
}

#[test]
fn queries_find_touching_ranges_only() {
    let mut grid = CacheGrid::new(GridScale::new(1, 1));
    grid.update(A, boxed((0, 4), (0, 4)));
    grid.update(B, boxed((10, 12), (0, 4)));
    assert_eq!(ids(grid.query(span(3, 11), span(1, 2))), set(&[A, B]));
    assert_eq!(ids(grid.query(span(4, 10), span(1, 2))), set(&[]));
    assert_eq!(ids(grid.query(span(3, 4), span(4, 9))), set(&[]));
    assert_eq!(ids(grid.query(span(3, 3), span(1, 2))), set(&[]));
    assert_eq!(ids(grid.query(span(11, 30), span(-5, 1))), set(&[B]));
}

#[test]
fn repeated_update_touches_nothing() {
    let mut grid = CacheGrid::new(GridScale::new(1, 4));
    grid.update(A, boxed((0, 8), (0, 8)));
    grid.update(B, boxed((0, 4), (0, 4)));
    grid.remove(A);
    let waiting = grid.recycled();
    assert_eq!(waiting, 3);
    grid.update(B, boxed((0, 4), (0, 4)));
    assert_eq!(grid.recycled(), waiting);
    // Moved inside the same cell: the range of cells is the same.
    grid.update(B, boxed((1, 3), (1, 3)));
    assert_eq!(grid.recycled(), waiting);
    assert_eq!(ids(grid.query(span(0, 4), span(0, 4))), set(&[B]));
}

#[test]
fn emptied_sets_are_used_again() {
    let mut grid = CacheGrid::new(GridScale::new(1, 2));
    grid.update(A, boxed((0, 4), (0, 4)));
    grid.update(B, boxed((20, 22), (0, 2)));
    assert_eq!(grid.recycled(), 0);
    let before = grid.recycled();
    grid.remove(B);
    assert_eq!(grid.recycled(), before + 1);
    grid.update(C, boxed((40, 42), (10, 12)));
    assert_eq!(grid.recycled(), before);
    // Four cells emptied, one taken back.
    grid.remove(A);
    assert_eq!(grid.recycled(), 4);
    grid.update(A, boxed((0, 2), (0, 2)));
    assert_eq!(grid.recycled(), 3);
    // A cell that is populated already takes no set.
    grid.update(B, boxed((0, 2), (0, 2)));
    assert_eq!(grid.recycled(), 3);
    // More cells than waiting sets.
    grid.update(B, boxed((60, 68), (0, 4)));
    assert_eq!(grid.recycled(), 0);
    assert_eq!(ids(grid.query(span(0, 2), span(0, 2))), set(&[A]));
    assert_eq!(ids(grid.query(span(60, 68), span(0, 4))), set(&[B]));
    assert_eq!(ids(grid.query(span(40, 42), span(10, 12))), set(&[C]));
}

#[test]
fn lookup_applies_changes_then_removals() {
    let mut lookup = ColliderLookup::new(GridScale::new(1, 1));
    let changed = vec![
        (A, Collider { shape: boxed((0, 4), (0, 4)) }),
        (B, Collider { shape: boxed((2, 6), (2, 6)) }),
        (C, Collider { shape: boxed((20, 24), (0, 4)) }),
        (A, Collider { shape: boxed((10, 14), (0, 4)) }),
    ];
    lookup.update(&changed, &vec![C]);
    assert_eq!(ids(lookup.query(boxed((0, 4), (0, 4)))), set(&[B]));
    assert_eq!(ids(lookup.query(boxed((0, 12), (0, 4)))), set(&[A, B]));
    assert_eq!(ids(lookup.query(boxed((20, 24), (0, 4)))), set(&[]));
    lookup.update(&vec![], &vec![A, B]);
    assert_eq!(ids(lookup.query(boxed((-50, 50), (-50, 50)))), set(&[]));
}

#[test]
fn motion_stretches_the_query_one_way() {
    let mut lookup = ColliderLookup::new(GridScale::new(1, 1));
    lookup.update(
        &vec![
            (A, Collider { shape: boxed((10, 12), (0, 2)) }),
            (B, Collider { shape: boxed((-12, -10), (0, 2)) }),
            (C, Collider { shape: boxed((0, 2), (-12, -10)) }),
        ],
        &vec![],
    );
    let probe = boxed((0, 2), (0, 2));
    assert_eq!(ids(lookup.query(probe)), set(&[]));
    assert_eq!(ids(lookup.query_motion(probe, Vec2::new(0, 0))), set(&[]));
    assert_eq!(ids(lookup.query_motion(probe, Vec2::new(9, 0))), set(&[A]));
    assert_eq!(ids(lookup.query_motion(probe, Vec2::new(8, 0))), set(&[]));
    assert_eq!(ids(lookup.query_motion(probe, Vec2::new(-11, 0))), set(&[B]));
    assert_eq!(ids(lookup.query_motion(probe, Vec2::new(0, -11))), set(&[C]));
    assert_eq!(ids(lookup.query_motion(probe, Vec2::new(0, 11))), set(&[]));
    assert_eq!(ids(lookup.query_motion(probe, Vec2::new(9, -11))), set(&[A, C]));
}
