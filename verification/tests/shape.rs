use nvm_bevyutil::collision::{Shape, ShapeKind};
use nvm_bevyutil::math::Vec2;

fn v(x: i32, y: i32) -> Vec2 {
    Vec2::new(x, y)
}

#[test]
fn constructors_set_kind_and_extent() {
    let p = Shape::point(v(1, 2));
    assert_eq!((p.origin, p.hbound, p.shape), (v(1, 2), v(0, 0), ShapeKind::Ellipse));
    let c = Shape::circle(v(1, 2), 5);
    assert_eq!((c.origin, c.hbound, c.shape), (v(1, 2), v(5, 5), ShapeKind::Ellipse));
    let e = Shape::ellipse(v(1, 2), v(5, 3));
    assert_eq!((e.origin, e.hbound, e.shape), (v(1, 2), v(5, 3), ShapeKind::Ellipse));
    let s = Shape::square(v(1, 2), 4);
    assert_eq!((s.origin, s.hbound, s.shape), (v(1, 2), v(4, 4), ShapeKind::Rectangle));
    let r = Shape::rectangle(v(1, 2), v(4, 6));
    assert_eq!((r.origin, r.hbound, r.shape), (v(1, 2), v(4, 6), ShapeKind::Rectangle));
}

#[test]
fn triangle_kinds_follow_the_flags() {
    let kind = |incline, invert| Shape::triangle(v(0, 0), v(1, 1), incline, invert).shape;
    assert_eq!(kind(false, false), ShapeKind::TriangleDeclineNormal);
    assert_eq!(kind(false, true), ShapeKind::TriangleDeclineInvert);
    assert_eq!(kind(true, false), ShapeKind::TriangleInclineNormal);
    assert_eq!(kind(true, true), ShapeKind::TriangleInclineInvert);
}

#[test]
fn aligned_projection_is_the_bounding_box() {
    let r = Shape::rectangle(v(10, -3), v(4, 6));
    let (x, y) = r.project_aligned();
    assert_eq!(x.as_tuple(), (6, 14));
    assert_eq!(y.as_tuple(), (-9, 3));
    let (x, y) = Shape::point(v(7, 8)).project_aligned();
    assert_eq!((x.as_tuple(), y.as_tuple()), ((7, 7), (8, 8)));
}

#[test]
fn bound_points_in_fixed_order() {
    let r = Shape::rectangle(v(10, 20), v(1, 2));
    assert_eq!(r.get_points_bound(), [v(9, 18), v(9, 22), v(11, 22), v(11, 18)]);
}

#[test]
fn slope_points_by_orientation() {
    let t = |incline, invert| Shape::triangle(v(10, 20), v(1, 2), incline, invert).get_points_slope();
    assert_eq!(t(false, false), [v(9, 18), v(11, 18), v(9, 22)]);
    assert_eq!(t(false, true), [v(11, 22), v(9, 22), v(11, 18)]);
    assert_eq!(t(true, false), [v(11, 18), v(11, 22), v(9, 18)]);
    assert_eq!(t(true, true), [v(9, 22), v(9, 18), v(11, 22)]);
}

#[test]
fn projection_on_an_axis() {
    let r = Shape::rectangle(v(10, 20), v(1, 2));
    assert_eq!(r.project_on(v(1, 0), 0).as_tuple(), (9, 11));
    assert_eq!(r.project_on(v(0, 1), 0).as_tuple(), (18, 22));
    assert_eq!(r.project_on(v(1, 1), 0).as_tuple(), (27, 33));
    assert_eq!(r.project_on(v(1, -1), 0).as_tuple(), (-13, -7));
    let t = Shape::triangle(v(10, 20), v(1, 2), false, false);
    assert_eq!(t.project_on(v(1, 1), 0).as_tuple(), (27, 31));
    let t = Shape::triangle(v(10, 20), v(1, 2), false, true);
    assert_eq!(t.project_on(v(1, 1), 0).as_tuple(), (29, 33));
    let c = Shape::circle(v(10, 20), 5);
    assert_eq!(c.project_on(v(1, 0), 5).as_tuple(), (5, 15));
    assert_eq!(c.project_on(v(3, 4), 25).as_tuple(), (85, 135));
}

#[test]
fn polygons_add_their_own_axes_only() {
    let other = Shape::circle(v(50, 50), 3);
    let r = Shape::rectangle(v(0, 0), v(1, 1));
    assert_eq!(r.axes_between(&other).as_slice(), &[] as &[Vec2]);
    let t = |incline, invert| Shape::triangle(v(0, 0), v(1, 1), incline, invert);
    assert_eq!(t(false, false).axes_between(&other).as_slice(), &[v(1, 1)]);
    assert_eq!(t(true, false).axes_between(&other).as_slice(), &[v(-1, 1)]);
    assert_eq!(t(false, true).axes_between(&other).as_slice(), &[v(-1, -1)]);
    assert_eq!(t(true, true).axes_between(&other).as_slice(), &[v(1, -1)]);
}

#[test]
fn ellipse_axes_point_at_the_other_shape() {
    let e = Shape::circle(v(10, 10), 2);
    let other = Shape::ellipse(v(13, 6), v(1, 1));
    assert_eq!(e.axes_between(&other).as_slice(), &[v(3, -4)]);
    let same_place = Shape::point(v(10, 10));
    assert_eq!(e.axes_between(&same_place).as_slice(), &[] as &[Vec2]);

    let r = Shape::rectangle(v(20, 10), v(1, 2));
    assert_eq!(e.axes_between(&r).as_slice(), &[v(9, -2), v(9, 2), v(11, 2), v(11, -2)]);
    // A corner on the centre gives no direction.
    let r = Shape::rectangle(v(11, 12), v(1, 2));
    assert_eq!(e.axes_between(&r).as_slice(), &[v(0, 4), v(2, 4), v(2, 0)]);

    let t = Shape::triangle(v(20, 10), v(1, 2), true, false);
    assert_eq!(e.axes_between(&t).as_slice(), &[v(11, -2), v(11, 2), v(9, -2)]);
    let t = Shape::triangle(v(11, 12), v(1, 2), false, false);
    assert_eq!(e.axes_between(&t).as_slice(), &[v(2, 0), v(0, 4)]);
}
