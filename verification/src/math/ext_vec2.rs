use vstd::prelude::*;

verus! {

/// A point or displacement on the integer lattice of world units.
#[derive(Debug, Clone, Copy, PartialEq, Eq, Hash, Structural)]
pub struct Vec2 {
    pub x: i32,
    pub y: i32,
}

impl Vec2 {
    /// The vector with the given components.
    pub fn new(x: i32, y: i32) -> (r: Vec2)
        ensures
            r == (Vec2 { x, y }),
    {
        Vec2 { x, y }
    }

    /// The dot product, as a mathematical integer.
    pub open spec fn spec_dot(self, other: Vec2) -> int {
        self.x * other.x + self.y * other.y
    }

    /// Whether both components are zero.
    pub open spec fn spec_is_zero(self) -> bool {
        self.x == 0 && self.y == 0
    }

    /// Component-wise sum.
    pub fn plus(self, other: Vec2) -> (r: Vec2)
        requires
            i32::MIN <= self.x + other.x <= i32::MAX,
            i32::MIN <= self.y + other.y <= i32::MAX,
        ensures
            r.x == self.x + other.x,
            r.y == self.y + other.y,
    {
        Vec2 { x: self.x + other.x, y: self.y + other.y }
    }

    /// Component-wise difference.
    pub fn minus(self, other: Vec2) -> (r: Vec2)
        requires
            i32::MIN <= self.x - other.x <= i32::MAX,
            i32::MIN <= self.y - other.y <= i32::MAX,
        ensures
            r.x == self.x - other.x,
            r.y == self.y - other.y,
    {
        Vec2 { x: self.x - other.x, y: self.y - other.y }
    }

    /// The dot product. Two `i32` vectors overflow an `i64` only when all
    /// four components are `i32::MIN`; the result is widened so that no input
    /// is left out.
    pub fn dot(self, other: Vec2) -> (r: i128)
        ensures
            r == self.spec_dot(other),
    {
        let ax: i128 = self.x as i128;
        let ay: i128 = self.y as i128;
        let bx: i128 = other.x as i128;
        let by: i128 = other.y as i128;
        assert(-0x8000_0000 * 0x8000_0000 <= ax * bx <= 0x8000_0000 * 0x8000_0000) by (nonlinear_arith)
            requires
                -0x8000_0000 <= ax <= 0x8000_0000,
                -0x8000_0000 <= bx <= 0x8000_0000,
        ;
        assert(-0x8000_0000 * 0x8000_0000 <= ay * by <= 0x8000_0000 * 0x8000_0000) by (nonlinear_arith)
            requires
                -0x8000_0000 <= ay <= 0x8000_0000,
                -0x8000_0000 <= by <= 0x8000_0000,
        ;
        ax * bx + ay * by
    }

    /// Whether both components are zero.
    pub fn is_zero(self) -> (r: bool)
        ensures
            r == self.spec_is_zero(),
    {
        self.x == 0 && self.y == 0
    }
}

/// Rotations by a lattice vector and reflections across the axes.
pub trait ExtVec2: Sized {
    /// What `rotated_by_vec` computes.
    spec fn spec_rotated_by_vec(self, rot_vec: Vec2) -> (int, int);

    /// What `negate_x` computes.
    spec fn spec_negate_x(self) -> (int, int);

    /// What `negate_y` computes.
    spec fn spec_negate_y(self) -> (int, int);

    /// The components as a pair.
    spec fn spec_into_tuple(self) -> (int, int);

    /// Whether every component of `v` fits the vector's scalar.
    spec fn representable(v: (int, int)) -> bool;

    /// Multiplies `self` by `rot_vec` as complex numbers; with `rot_vec` of
    /// unit length this is the rotation that takes the X axis to `rot_vec`.
    fn rotated_by_vec(self, rot_vec: Vec2) -> (r: Self)
        requires
            Self::representable(self.spec_rotated_by_vec(rot_vec)),
        ensures
            r.spec_into_tuple() == self.spec_rotated_by_vec(rot_vec),
    ;

    /// Mirrors across the Y axis.
    fn negate_x(self) -> (r: Self)
        requires
            Self::representable(self.spec_negate_x()),
        ensures
            r.spec_into_tuple() == self.spec_negate_x(),
    ;

    /// Mirrors across the X axis.
    fn negate_y(self) -> (r: Self)
        requires
            Self::representable(self.spec_negate_y()),
        ensures
            r.spec_into_tuple() == self.spec_negate_y(),
    ;

    /// The components `(x, y)`.
    fn into_tuple(self) -> (r: (i32, i32))
        ensures
            (r.0 as int, r.1 as int) == self.spec_into_tuple(),
    ;
}

impl ExtVec2 for Vec2 {
    open spec fn spec_rotated_by_vec(self, rot_vec: Vec2) -> (int, int) {
        (self.x * rot_vec.x - self.y * rot_vec.y, self.x * rot_vec.y + self.y * rot_vec.x)
    }

    open spec fn spec_negate_x(self) -> (int, int) {
        (-self.x, self.y as int)
    }

    open spec fn spec_negate_y(self) -> (int, int) {
        (self.x as int, -self.y)
    }

    open spec fn spec_into_tuple(self) -> (int, int) {
        (self.x as int, self.y as int)
    }

    open spec fn representable(v: (int, int)) -> bool {
        i32::MIN <= v.0 <= i32::MAX && i32::MIN <= v.1 <= i32::MAX
    }

    fn rotated_by_vec(self, rot_vec: Vec2) -> (r: Vec2) {
        let ax: i128 = self.x as i128;
        let ay: i128 = self.y as i128;
        let bx: i128 = rot_vec.x as i128;
        let by: i128 = rot_vec.y as i128;
        proof {
            lemma_product_bound(ax as int, bx as int);
            lemma_product_bound(ay as int, by as int);
            lemma_product_bound(ax as int, by as int);
            lemma_product_bound(ay as int, bx as int);
        }
        let x: i128 = ax * bx - ay * by;
        let y: i128 = ax * by + ay * bx;
        Vec2 { x: x as i32, y: y as i32 }
    }

    fn negate_x(self) -> (r: Vec2) {
        Vec2 { x: -self.x, y: self.y }
    }

    fn negate_y(self) -> (r: Vec2) {
        Vec2 { x: self.x, y: -self.y }
    }

    fn into_tuple(self) -> (r: (i32, i32)) {
        (self.x, self.y)
    }
}

/// The product of two 32-bit values stays within sixty-two bits.
pub proof fn lemma_product_bound(a: int, b: int)
    requires
        -0x8000_0000 <= a <= 0x8000_0000,
        -0x8000_0000 <= b <= 0x8000_0000,
    ensures
        -0x4000_0000_0000_0000 <= a * b <= 0x4000_0000_0000_0000,
{
    assert(-0x4000_0000_0000_0000 <= a * b <= 0x4000_0000_0000_0000) by (nonlinear_arith)
        requires
            -0x8000_0000 <= a <= 0x8000_0000,
            -0x8000_0000 <= b <= 0x8000_0000,
    ;
}

} // verus!
