use nvm_bevyutil::collision::{Overlap, OverlapCase, OverlapOffset, Projection};

fn span(near: i64, far: i64) -> Projection {
    Projection::new_unchecked(near, far)
}

#[test]
fn new_orders_every_pair() {
    for a in -6i64..=6 {
        for b in -6i64..=6 {
            let p = Projection::new(a, b);
            assert!(p.near() <= p.far());
            assert_eq!(p.near(), a.min(b));
            assert_eq!(p.far(), a.max(b));
        }
    }
    let wide = Projection::new(i64::MAX, i64::MIN);
    assert_eq!(wide.as_tuple(), (i64::MIN, i64::MAX));
}

#[test]
fn try_new_rejects_bounds_out_of_order() {
    assert_eq!(Projection::try_new(3, 2), None);
    assert_eq!(Projection::try_new(2, 2), Some(span(2, 2)));
    assert_eq!(Projection::try_new(-1, 2), Some(span(-1, 2)));
}

#[test]
fn factories_place_the_bounds() {
    assert_eq!(Projection::point(7).as_tuple(), (7, 7));
    assert_eq!(Projection::extent_from(3, 4).as_tuple(), (3, 7));
    assert_eq!(Projection::extent_from(3, 0).as_tuple(), (3, 3));
    assert_eq!(Projection::symmetrical(3, 4).as_tuple(), (-1, 7));
    assert_eq!(Projection::symmetrical(-5, 0).as_tuple(), (-5, -5));
}

#[test]
fn covering_grows_to_hold_both() {
    assert_eq!(Projection::covering_both(span(0, 4), span(2, 9)).as_tuple(), (0, 9));
    assert_eq!(Projection::covering_both(span(0, 9), span(2, 4)).as_tuple(), (0, 9));
    assert_eq!(Projection::covering_both(span(3, 4), span(-2, -1)).as_tuple(), (-2, 4));
    assert_eq!(Projection::covering_point(span(0, 4), 2).as_tuple(), (0, 4));
    assert_eq!(Projection::covering_point(span(0, 4), -3).as_tuple(), (-3, 4));
    assert_eq!(Projection::covering_point(span(0, 4), 11).as_tuple(), (0, 11));
}

#[test]
fn smear_moves_one_bound_only() {
    assert_eq!(Projection::smear(span(0, 4), 3).as_tuple(), (0, 7));
    assert_eq!(Projection::smear(span(0, 4), -3).as_tuple(), (-3, 4));
    assert_eq!(Projection::smear(span(0, 4), 0).as_tuple(), (0, 4));
}

#[test]
fn length_and_mid_are_exact() {
    assert_eq!(span(0, 4).length(), 4);
    assert_eq!(span(-3, 4).length(), 7);
    assert_eq!(span(i64::MIN, i64::MAX).length(), u64::MAX as i128);
    assert_eq!(span(0, 4).mid(), 2);
    assert_eq!(span(-3, 4).mid(), 0);
    assert_eq!(span(-4, -1).mid(), -3);
    assert_eq!(span(i64::MIN, i64::MAX).mid(), -1);
    assert_eq!(span(5, 5).mid(), 5);
}

#[test]
fn separate_intervals_have_a_positive_gap() {
    let a = span(0, 4);
    let b = span(5, 6);
    assert!(a.are_separate(b));
    let gap = a.get_separation(b).unwrap();
    assert_eq!(gap, Overlap(span(4, 5), OverlapCase::Positive));
    assert_eq!(gap.length(), 1);
    assert_eq!(gap.offset(), OverlapOffset::Known(1));
    assert_eq!(a.get_penetration(b), None);
    assert_eq!(a.get_penetration_all(b), None);
    assert_eq!(b.get_separation(a), Some(Overlap(span(4, 5), OverlapCase::Negative)));
    assert_eq!(b.get_separation(a).unwrap().offset(), OverlapOffset::Known(-1));
}

#[test]
fn touching_intervals_penetrate_by_nothing() {
    let a = span(0, 4);
    let b = span(4, 6);
    assert!(!a.are_separate(b));
    assert_eq!(a.get_separation(b), None);
    let overlap = a.get_penetration(b).unwrap();
    assert_eq!(overlap.length(), 0);
    assert_eq!(overlap.projection().as_tuple(), (4, 4));
    assert_eq!(*overlap.case(), OverlapCase::Negative);
    assert_eq!(b.get_penetration(a), Some(overlap.negate()));
}

#[test]
fn an_interval_overlaps_itself_without_sign() {
    for (near, far) in [(0i64, 4i64), (-7, -7), (-3, 12)] {
        let a = span(near, far);
        let overlap = a.get_penetration(a).unwrap();
        assert_eq!(overlap, Overlap(a, OverlapCase::Unsigned));
        assert_eq!(overlap.length(), a.length());
        assert_eq!(overlap.offset(), OverlapOffset::Unsure(a.length()));
    }
}

#[test]
fn penetration_all_lists_the_lower_start_first() {
    let a = span(0, 4);
    let b = span(2, 9);
    assert_eq!(
        a.get_penetration_all(b),
        Some((Overlap(span(0, 9), OverlapCase::Positive), Overlap(span(2, 4), OverlapCase::Negative)))
    );
    assert_eq!(
        b.get_penetration_all(a),
        Some((Overlap(span(0, 9), OverlapCase::Negative), Overlap(span(2, 4), OverlapCase::Positive)))
    );
    assert_eq!(a.get_penetration(b), Some(Overlap(span(2, 4), OverlapCase::Negative)));
}

#[test]
fn equal_lengths_keep_the_first_candidate() {
    let a = span(0, 4);
    let b = span(1, 3);
    assert_eq!(a.get_penetration(b), Some(Overlap(span(0, 3), OverlapCase::Positive)));
    assert_eq!(b.get_penetration(a), Some(Overlap(span(0, 3), OverlapCase::Negative)));
}

#[test]
fn exactly_one_of_separation_and_penetration() {
    for a_near in -5i64..=5 {
        for a_len in 0i64..=3 {
            for b_near in -5i64..=5 {
                for b_len in 0i64..=3 {
                    let a = span(a_near, a_near + a_len);
                    let b = span(b_near, b_near + b_len);
                    let separation = a.get_separation(b);
                    let penetration = a.get_penetration(b);
                    assert_ne!(separation.is_some(), penetration.is_some());
                    assert_eq!(separation.is_some(), a.are_separate(b));
                    assert_eq!(b.get_separation(a), separation.map(|o| o.negate()));
                    assert_eq!(b.get_penetration(a), penetration.map(|o| o.negate()));
                    if let Some(o) = penetration {
                        assert_eq!(*o.case() == OverlapCase::Unsigned, a == b);
                    }
                }
            }
        }
    }
}

#[test]
fn overlap_parts_and_offsets() {
    let o = Overlap(span(2, 5), OverlapCase::Negative);
    assert_eq!(o.length(), 3);
    assert_eq!(o.offset(), OverlapOffset::Known(-3));
    assert_eq!(o.negate(), Overlap(span(2, 5), OverlapCase::Positive));
    assert_eq!(o.negate().negate(), o);
    assert_eq!(o.with_case(OverlapCase::Unsigned), Overlap(span(2, 5), OverlapCase::Unsigned));
    assert_eq!(o.with_case(OverlapCase::Unsigned).negate(), Overlap(span(2, 5), OverlapCase::Unsigned));
    assert_eq!(o.into_tuple(), (span(2, 5), OverlapCase::Negative));
    assert_eq!(*o.projection(), span(2, 5));
    assert_eq!(*o.case(), OverlapCase::Negative);
}

#[test]
fn offsets_unwrap() {
    assert_eq!(OverlapOffset::Known(-3).unwrap_or(9), -3);
    assert_eq!(OverlapOffset::Unsure(3).unwrap_or(9), 9);
    assert_eq!(OverlapOffset::Known(-3).unwrap_or_else(|v| v * 10), -3);
    assert_eq!(OverlapOffset::Unsure(3).unwrap_or_else(|v| v * 10), 30);
    assert_eq!(OverlapOffset::Known(-3).unwrap_or_sign(-1), -3);
    assert_eq!(OverlapOffset::Unsure(3).unwrap_or_sign(-1), -3);
    assert_eq!(OverlapOffset::Unsure(3).unwrap_or_sign(1), 3);
    assert_eq!(OverlapOffset::Unsure(3).unwrap_or_sign(0), 0);
}
