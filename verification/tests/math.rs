use nvm_bevyutil::math::{ExtVec2, Vec2};

#[test]
fn vectors_add_subtract_and_dot() {
    let a = Vec2::new(3, -4);
    let b = Vec2::new(-1, 2);
    assert_eq!(a.plus(b), Vec2::new(2, -2));
    assert_eq!(a.minus(b), Vec2::new(4, -6));
    assert_eq!(a.dot(b), -11);
    assert_eq!(Vec2::new(i32::MIN, i32::MIN).dot(Vec2::new(i32::MIN, i32::MIN)), 1i128 << 63);
    assert!(Vec2::new(0, 0).is_zero());
    assert!(!Vec2::new(0, 1).is_zero());
}

#[test]
fn reflections_and_rotations() {
    let a = Vec2::new(3, -4);
    assert_eq!(a.negate_x(), Vec2::new(-3, -4));
    assert_eq!(a.negate_y(), Vec2::new(3, 4));
    assert_eq!(a.into_tuple(), (3, -4));
    // A quarter turn takes X to Y.
    assert_eq!(Vec2::new(1, 0).rotated_by_vec(Vec2::new(0, 1)), Vec2::new(0, 1));
    assert_eq!(a.rotated_by_vec(Vec2::new(0, 1)), Vec2::new(4, 3));
    assert_eq!(a.rotated_by_vec(Vec2::new(1, 0)), a);
    assert_eq!(a.rotated_by_vec(Vec2::new(2, 5)), Vec2::new(26, 7));
}
