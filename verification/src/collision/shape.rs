use arrayvec::ArrayVec;
use vstd::prelude::*;

use super::projection::Projection;
use crate::math::ext_vec2::{ExtVec2, Vec2};

verus! {

/// The outline of a shape inside its bounding box. A triangle is the half
/// of the box on one side of a diagonal: `Decline` and `Incline` name the
/// diagonal, `Normal` and `Invert` the side.
#[derive(Debug, Clone, Copy, Hash, PartialEq, Eq, Structural)]
pub enum ShapeKind {
    Ellipse,
    Rectangle,
    TriangleDeclineNormal,
    TriangleDeclineInvert,
    TriangleInclineNormal,
    TriangleInclineInvert,
}

/// A shape: the centre of its bounding box, the half extents of the box, and
/// the outline inside it.
#[derive(Debug, Clone, Copy)]
pub struct Shape {
    pub origin: Vec2,
    pub hbound: Vec2,
    pub shape: ShapeKind,
}

/// The largest coordinate, by absolute value, that a corner of a
/// well-formed shape may have. The difference of two such coordinates is
/// still an `i32`.
pub const WORLD_LIMIT: i32 = 0x3fff_ffff;

/// `ArrayVec` of arrayvec: a vector of at most `CAP` items that lives
/// inline. Nothing is claimed of what is inside but through `axes_of`.
#[verifier::external_type_specification]
#[verifier::external_body]
#[verifier::reject_recursive_types(T)]
pub struct ExArrayVec<T, const CAP: usize>(ArrayVec<T, CAP>);

/// The axes that a list of candidate axes holds, first to last.
pub uninterp spec fn axes_of(list: ArrayVec<Vec2, 4>) -> Seq<Vec2>;

/// `ArrayVec::new_const`: the list it returns is empty.
#[verifier::external_body]
fn axes_new() -> (r: ArrayVec<Vec2, 4>)
    ensures
        axes_of(r) == Seq::<Vec2>::empty(),
{
    ArrayVec::new_const()
}

/// `ArrayVec::push`: appends `axis` behind what the list holds. The call
/// panics on a full list, which the precondition leaves out.
#[verifier::external_body]
fn axes_push(list: &mut ArrayVec<Vec2, 4>, axis: Vec2)
    requires
        axes_of(*old(list)).len() < 4,
    ensures
        axes_of(*final(list)) == axes_of(*old(list)).push(axis),
{
    list.push(axis)
}

/// The offsets from `from` to each of `points`, in their order and without
/// those that are zero.
pub open spec fn directions(points: Seq<Vec2>, from: Vec2) -> Seq<Vec2>
    decreases points.len(),
{
    if points.len() == 0 {
        Seq::empty()
    } else {
        let rest = directions(points.drop_last(), from);
        let d = Vec2 {
            x: (points.last().x - from.x) as i32,
            y: (points.last().y - from.y) as i32,
        };
        if d.spec_is_zero() {
            rest
        } else {
            rest.push(d)
        }
    }
}

/// Whether `[near, far]` is exactly what `points` cover along `axis`: every
/// dot product lies inside, and each bound is the dot product of some point.
pub open spec fn is_extent_of(p: Projection, axis: Vec2, points: Seq<Vec2>) -> bool {
    &&& forall|i: int|
        0 <= i < points.len() ==> p.spec_near() <= #[trigger] axis.spec_dot(points[i])
            <= p.spec_far()
    &&& exists|i: int|
        0 <= i < points.len() && p.spec_near() == #[trigger] axis.spec_dot(points[i])
    &&& exists|i: int| 0 <= i < points.len() && p.spec_far() == #[trigger] axis.spec_dot(points[i])
}

impl Shape {
    /// A shape without extent at `origin`.
    pub fn point(origin: Vec2) -> (r: Shape)
        ensures
            r.origin == origin,
            r.hbound == (Vec2 { x: 0, y: 0 }),
            r.shape == ShapeKind::Ellipse,
    {
        Self { origin, hbound: Vec2::new(0, 0), shape: ShapeKind::Ellipse }
    }

    /// The circle of the given radius around `origin`.
    pub fn circle(origin: Vec2, radius: i32) -> (r: Shape)
        ensures
            r.origin == origin,
            r.hbound == (Vec2 { x: radius, y: radius }),
            r.shape == ShapeKind::Ellipse,
    {
        Self { origin, hbound: Vec2::new(radius, radius), shape: ShapeKind::Ellipse }
    }

    /// The axis-aligned ellipse with the given radii around `origin`.
    pub fn ellipse(origin: Vec2, radius: Vec2) -> (r: Shape)
        ensures
            r.origin == origin,
            r.hbound == radius,
            r.shape == ShapeKind::Ellipse,
    {
        Self { origin, hbound: radius, shape: ShapeKind::Ellipse }
    }

    /// The square that reaches `size` to every side of `origin`.
    pub fn square(origin: Vec2, size: i32) -> (r: Shape)
        ensures
            r.origin == origin,
            r.hbound == (Vec2 { x: size, y: size }),
            r.shape == ShapeKind::Rectangle,
    {
        Self { origin, hbound: Vec2::new(size, size), shape: ShapeKind::Rectangle }
    }

    /// The rectangle with the half extents `size` around `origin`.
    pub fn rectangle(origin: Vec2, size: Vec2) -> (r: Shape)
        ensures
            r.origin == origin,
            r.hbound == size,
            r.shape == ShapeKind::Rectangle,
    {
        Self { origin, hbound: size, shape: ShapeKind::Rectangle }
    }

    /// The triangle in the box with the half extents `size` around `origin`.
    pub fn triangle(origin: Vec2, size: Vec2, incline: bool, invert: bool) -> (r: Shape)
        ensures
            r.origin == origin,
            r.hbound == size,
            r.shape == (match (incline, invert) {
                (false, false) => ShapeKind::TriangleDeclineNormal,
                (false, true) => ShapeKind::TriangleDeclineInvert,
                (true, false) => ShapeKind::TriangleInclineNormal,
                (true, true) => ShapeKind::TriangleInclineInvert,
            }),
    {
        Self {
            origin,
            hbound: size,
            shape: match (incline, invert) {
                (false, false) => ShapeKind::TriangleDeclineNormal,
                (false, true) => ShapeKind::TriangleDeclineInvert,
                (true, false) => ShapeKind::TriangleInclineNormal,
                (true, true) => ShapeKind::TriangleInclineInvert,
            },
        }
    }
}

impl Shape {
    /// Whether the half extents are not negative and the bounding box lies
    /// within `WORLD_LIMIT` of the world's origin.
    pub open spec fn wf(self) -> bool {
        &&& 0 <= self.hbound.x
        &&& 0 <= self.hbound.y
        &&& -WORLD_LIMIT <= self.origin.x - self.hbound.x
        &&& self.origin.x + self.hbound.x <= WORLD_LIMIT
        &&& -WORLD_LIMIT <= self.origin.y - self.hbound.y
        &&& self.origin.y + self.hbound.y <= WORLD_LIMIT
    }

    /// Whether the outline is one of the four triangles.
    pub open spec fn is_triangle(self) -> bool {
        self.shape != ShapeKind::Ellipse && self.shape != ShapeKind::Rectangle
    }

    /// The corner of the bounding box on the given sides of the centre:
    /// `sx` and `sy` are `1` or `-1`.
    pub open spec fn corner(self, sx: int, sy: int) -> Vec2 {
        Vec2 {
            x: (self.origin.x + sx * self.hbound.x) as i32,
            y: (self.origin.y + sy * self.hbound.y) as i32,
        }
    }

    /// The corners of the bounding box: low-low, low-high, high-high,
    /// high-low, the first sign being that of X.
    pub open spec fn spec_points_bound(self) -> Seq<Vec2> {
        seq![self.corner(-1, -1), self.corner(-1, 1), self.corner(1, 1), self.corner(1, -1)]
    }

    /// The corners of a triangle, in the order that belongs to its
    /// orientation; empty for an ellipse or a rectangle.
    pub open spec fn spec_points_slope(self) -> Seq<Vec2> {
        match self.shape {
            ShapeKind::TriangleDeclineNormal => seq![
                self.corner(-1, -1),
                self.corner(1, -1),
                self.corner(-1, 1),
            ],
            ShapeKind::TriangleDeclineInvert => seq![
                self.corner(1, 1),
                self.corner(-1, 1),
                self.corner(1, -1),
            ],
            ShapeKind::TriangleInclineNormal => seq![
                self.corner(1, -1),
                self.corner(1, 1),
                self.corner(-1, -1),
            ],
            ShapeKind::TriangleInclineInvert => seq![
                self.corner(-1, 1),
                self.corner(-1, -1),
                self.corner(1, 1),
            ],
            _ => Seq::empty(),
        }
    }
}

impl Shape {
    /// The bounding box: the centre with the half extent to either side,
    /// along X and along Y.
    pub open spec fn spec_project_aligned(self) -> (Projection, Projection) {
        (
            Projection::spanning(
                (self.origin.x - self.hbound.x) as i64,
                (self.origin.x + self.hbound.x) as i64,
            ),
            Projection::spanning(
                (self.origin.y - self.hbound.y) as i64,
                (self.origin.y + self.hbound.y) as i64,
            ),
        )
    }

    /// The bounding box as its extents along the X and the Y axis.
    pub fn project_aligned(&self) -> (r: (Projection, Projection))
        requires
            0 <= self.hbound.x,
            0 <= self.hbound.y,
        ensures
            r == self.spec_project_aligned(),
            r.0.wf(),
            r.1.wf(),
    {
        (
            Projection::symmetrical(self.origin.x as i64, self.hbound.x as i64),
            Projection::symmetrical(self.origin.y as i64, self.hbound.y as i64),
        )
    }

    /// The extent of the shape along `axis`, in units of the dot product
    /// with `axis`. A rectangle and a triangle cover what their corners
    /// cover. An ellipse reaches `radius` to either side of its centre:
    /// the caller measures the radius along the axis, in the same units;
    /// for the other outlines `radius` is not read.
    pub fn project_on(&self, axis: Vec2, radius: i64) -> (r: Projection)
        requires
            self.wf(),
            self.shape == ShapeKind::Ellipse ==> 0 <= radius && i64::MIN <= axis.spec_dot(
                self.origin,
            ) - radius && axis.spec_dot(self.origin) + radius <= i64::MAX,
        ensures
            r.wf(),
            match self.shape {
                ShapeKind::Ellipse => r == Projection::spanning(
                    (axis.spec_dot(self.origin) - radius) as i64,
                    (axis.spec_dot(self.origin) + radius) as i64,
                ),
                ShapeKind::Rectangle => is_extent_of(r, axis, self.spec_points_bound()),
                _ => is_extent_of(r, axis, self.spec_points_slope()),
            },
    {
        match self.shape {
            ShapeKind::Ellipse => {
                proof {
                    lemma_dot_bound(axis, self.origin);
                }
                let centre: i128 = axis.dot(self.origin);
                Projection::symmetrical(centre as i64, radius)
            },
            ShapeKind::Rectangle => project_points(axis, self.get_points_bound()),
            ShapeKind::TriangleDeclineNormal
            | ShapeKind::TriangleDeclineInvert
            | ShapeKind::TriangleInclineNormal
            | ShapeKind::TriangleInclineInvert => project_points(axis, self.get_points_slope()),
        }
    }

    /// The axes, besides X and Y, along which `self` may be separated from
    /// `other`, as directions whose length carries no meaning. A rectangle
    /// adds none. A triangle adds the normal of its diagonal. An ellipse
    /// adds the direction from its centre to the centre of another ellipse,
    /// or to each corner of a rectangle or triangle, and leaves out a
    /// direction of length zero.
    pub fn axes_between(&self, other: &Shape) -> (r: ArrayVec<Vec2, 4>)
        requires
            self.wf(),
            other.wf(),
        ensures
            axes_of(r) == self.spec_axes_between(*other),
    {
        let mut result = axes_new();
        match self.shape {
            ShapeKind::Rectangle => {},
            ShapeKind::TriangleDeclineNormal => axes_push(&mut result, Vec2::new(1, 1)),
            ShapeKind::TriangleInclineNormal => axes_push(&mut result, Vec2::new(-1, 1)),
            ShapeKind::TriangleDeclineInvert => axes_push(&mut result, Vec2::new(-1, -1)),
            ShapeKind::TriangleInclineInvert => axes_push(&mut result, Vec2::new(1, -1)),
            ShapeKind::Ellipse => match other.shape {
                ShapeKind::Ellipse => {
                    let points = [other.origin];
                    assert(points@ =~= seq![other.origin]);
                    self.push_directions(&mut result, &points);
                },
                ShapeKind::Rectangle => {
                    let points = other.get_points_bound();
                    self.push_directions(&mut result, &points);
                },
                ShapeKind::TriangleDeclineNormal
                | ShapeKind::TriangleDeclineInvert
                | ShapeKind::TriangleInclineNormal
                | ShapeKind::TriangleInclineInvert => {
                    let points = other.get_points_slope();
                    self.push_directions(&mut result, &points);
                },
            },
        }
        result
    }

    /// What `axes_between` returns.
    pub open spec fn spec_axes_between(self, other: Shape) -> Seq<Vec2> {
        match self.shape {
            ShapeKind::Rectangle => Seq::empty(),
            ShapeKind::TriangleDeclineNormal => seq![Vec2 { x: 1, y: 1 }],
            ShapeKind::TriangleInclineNormal => seq![Vec2 { x: -1i32, y: 1 }],
            ShapeKind::TriangleDeclineInvert => seq![Vec2 { x: -1i32, y: -1i32 }],
            ShapeKind::TriangleInclineInvert => seq![Vec2 { x: 1, y: -1i32 }],
            ShapeKind::Ellipse => match other.shape {
                ShapeKind::Ellipse => directions(seq![other.origin], self.origin),
                ShapeKind::Rectangle => directions(other.spec_points_bound(), self.origin),
                _ => directions(other.spec_points_slope(), self.origin),
            },
        }
    }

    /// Appends to `list` the direction from the centre to each of `points`
    /// that does not lie on the centre.
    fn push_directions<const N: usize>(&self, list: &mut ArrayVec<Vec2, 4>, points: &[Vec2; N])
        requires
            N <= 4,
            axes_of(*old(list)).len() == 0,
            -WORLD_LIMIT <= self.origin.x <= WORLD_LIMIT,
            -WORLD_LIMIT <= self.origin.y <= WORLD_LIMIT,
            forall|i: int|
                0 <= i < N ==> -WORLD_LIMIT <= (#[trigger] points@[i]).x <= WORLD_LIMIT
                    && -WORLD_LIMIT <= points@[i].y <= WORLD_LIMIT,
        ensures
            axes_of(*final(list)) == directions(points@, self.origin),
    {
        let mut i: usize = 0;
        while i < N
            invariant
                i <= N <= 4,
                points@.len() == N,
                axes_of(*list) == directions(points@.take(i as int), self.origin),
                axes_of(*list).len() <= i,
                -WORLD_LIMIT <= self.origin.x <= WORLD_LIMIT,
                -WORLD_LIMIT <= self.origin.y <= WORLD_LIMIT,
                forall|k: int|
                    0 <= k < N ==> -WORLD_LIMIT <= (#[trigger] points@[k]).x <= WORLD_LIMIT
                        && -WORLD_LIMIT <= points@[k].y <= WORLD_LIMIT,
            decreases N - i,
        {
            let p: Vec2 = points[i];
            let d: Vec2 = p.minus(self.origin);
            proof {
                assert(points@.take(i + 1).drop_last() =~= points@.take(i as int));
            }
            if !d.is_zero() {
                axes_push(list, d);
            }
            i += 1;
        }
        proof {
            assert(points@.take(N as int) =~= points@);
        }
    }
}

impl Shape {
    /// The four corners of the bounding box: low-low, low-high, high-high,
    /// high-low, the first sign being that of X.
    pub fn get_points_bound(&self) -> (r: [Vec2; 4])
        requires
            self.wf(),
        ensures
            r@ == self.spec_points_bound(),
    {
        let r = [
            self.origin.minus(self.hbound),
            self.origin.plus(self.hbound.negate_x()),
            self.origin.plus(self.hbound),
            self.origin.plus(self.hbound.negate_y()),
        ];
        r
    }

    /// The three corners of a triangle, in the order that belongs to its
    /// orientation.
    pub fn get_points_slope(&self) -> (r: [Vec2; 3])
        requires
            self.wf(),
            self.is_triangle(),
        ensures
            r@ == self.spec_points_slope(),
    {
        let low: Vec2 = self.origin.minus(self.hbound);
        let high: Vec2 = self.origin.plus(self.hbound);
        let left: Vec2 = self.origin.plus(self.hbound.negate_x());
        let right: Vec2 = self.origin.plus(self.hbound.negate_y());
        let r = match self.shape {
            ShapeKind::TriangleDeclineNormal => [low, right, left],
            ShapeKind::TriangleDeclineInvert => [high, left, right],
            ShapeKind::TriangleInclineNormal => [right, high, low],
            _ => [left, low, high],
        };
        r
    }
}

/// The dot product of any axis with a point within `WORLD_LIMIT` fits an
/// `i64`.
pub proof fn lemma_dot_bound(axis: Vec2, point: Vec2)
    requires
        -WORLD_LIMIT <= point.x <= WORLD_LIMIT,
        -WORLD_LIMIT <= point.y <= WORLD_LIMIT,
    ensures
        -0x4000_0000_0000_0000 <= axis.spec_dot(point) <= 0x4000_0000_0000_0000,
{
    let (ax, ay, px, py) = (axis.x as int, axis.y as int, point.x as int, point.y as int);
    assert(-0x2000_0000_0000_0000 <= ax * px <= 0x2000_0000_0000_0000) by (nonlinear_arith)
        requires
            -0x8000_0000 <= ax <= 0x8000_0000,
            -0x4000_0000 <= px <= 0x4000_0000,
    ;
    assert(-0x2000_0000_0000_0000 <= ay * py <= 0x2000_0000_0000_0000) by (nonlinear_arith)
        requires
            -0x8000_0000 <= ay <= 0x8000_0000,
            -0x4000_0000 <= py <= 0x4000_0000,
    ;
}

/// The extent along `axis` of a list of points that is not empty.
fn project_points<const N: usize>(axis: Vec2, points: [Vec2; N]) -> (r: Projection)
    requires
        0 < N,
        forall|i: int|
            0 <= i < N ==> -WORLD_LIMIT <= (#[trigger] points@[i]).x <= WORLD_LIMIT && -WORLD_LIMIT
                <= points@[i].y <= WORLD_LIMIT,
    ensures
        r.wf(),
        is_extent_of(r, axis, points@),
{
    broadcast use Projection::lemma_spanning;

    proof {
        lemma_dot_bound(axis, points@[0]);
    }
    let first: i128 = axis.dot(points[0]);
    let mut p = Projection::point(first as i64);
    let ghost mut lo: int = 0;
    let ghost mut hi: int = 0;
    let mut i: usize = 1;
    while i < N
        invariant
            1 <= i <= N,
            points@.len() == N,
            p.wf(),
            0 <= lo < i,
            0 <= hi < i,
            p.spec_near() == axis.spec_dot(points@[lo]),
            p.spec_far() == axis.spec_dot(points@[hi]),
            forall|k: int|
                0 <= k < i ==> p.spec_near() <= #[trigger] axis.spec_dot(points@[k])
                    <= p.spec_far(),
            forall|k: int|
                0 <= k < N ==> -WORLD_LIMIT <= (#[trigger] points@[k]).x <= WORLD_LIMIT
                    && -WORLD_LIMIT <= points@[k].y <= WORLD_LIMIT,
        decreases N - i,
    {
        proof {
            lemma_dot_bound(axis, points@[i as int]);
        }
        let v: i128 = axis.dot(points[i]);
        let ghost before = p;
        p = Projection::covering_point(p, v as i64);
        proof {
            if p.spec_near() != before.spec_near() {
                lo = i as int;
            }
            if p.spec_far() != before.spec_far() {
                hi = i as int;
            }
        }
        i += 1;
    }
    p
}

} // verus!
