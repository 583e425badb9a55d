use vstd::prelude::*;

use super::overlap::{Overlap, OverlapCase};

verus! {

/// The interval `[near, far]` that a shape covers along one axis, the two
/// bounds being dot products with that axis.
#[derive(Debug, Clone, Copy, PartialEq, Eq, Structural)]
pub struct Projection {
    near: i64,
    far: i64,
}

impl Projection {
    #[verifier::type_invariant]
    spec fn ordered(self) -> bool {
        self.near <= self.far
    }

    /// The lower bound.
    pub closed spec fn spec_near(self) -> i64 {
        self.near
    }

    /// The upper bound.
    pub closed spec fn spec_far(self) -> i64 {
        self.far
    }

    /// The interval with the given bounds.
    pub closed spec fn spanning(near: i64, far: i64) -> Projection {
        Projection { near, far }
    }

    /// Whether the lower bound does not exceed the upper one. Every
    /// projection that executable code can hold satisfies it.
    pub open spec fn wf(self) -> bool {
        self.spec_near() <= self.spec_far()
    }

    /// The distance between the bounds.
    pub open spec fn spec_length(self) -> int {
        self.spec_far() - self.spec_near()
    }

    /// The midpoint, rounded down.
    pub open spec fn spec_mid(self) -> int {
        self.spec_near() + self.spec_length() / 2
    }

    /// Whether a gap lies between the two intervals. Touching intervals are
    /// not separate.
    pub open spec fn spec_are_separate(self, other: Projection) -> bool {
        self.spec_far() < other.spec_near() || self.spec_near() > other.spec_far()
    }

    /// The two ways out of an overlap: the first starts at the smaller of the
    /// two lower bounds.
    pub open spec fn spec_get_penetration_all(self, other: Projection) -> Option<
        (Overlap, Overlap),
    > {
        let positive = Overlap(
            Projection::spanning(self.spec_near(), other.spec_far()),
            OverlapCase::Positive,
        );
        let negative = Overlap(
            Projection::spanning(other.spec_near(), self.spec_far()),
            OverlapCase::Negative,
        );
        if self.spec_are_separate(other) {
            None
        } else if self.spec_near() <= other.spec_near() {
            Some((positive, negative))
        } else {
            Some((negative, positive))
        }
    }

    /// The shorter way out of an overlap, the first of the two on a tie of
    /// lengths, and without a sign where the two ways are the same interval.
    pub open spec fn spec_get_penetration(self, other: Projection) -> Option<Overlap> {
        match self.spec_get_penetration_all(other) {
            None => None,
            Some((first, second)) => Some(
                if first.0 == second.0 {
                    Overlap(first.0, OverlapCase::Unsigned)
                } else if first.spec_length() <= second.spec_length() {
                    first
                } else {
                    second
                },
            ),
        }
    }

    /// The gap between two separate intervals, `Positive` where `self` lies
    /// below `other`.
    pub open spec fn spec_get_separation(self, other: Projection) -> Option<Overlap> {
        if self.spec_far() < other.spec_near() {
            Some(
                Overlap(
                    Projection::spanning(self.spec_far(), other.spec_near()),
                    OverlapCase::Positive,
                ),
            )
        } else if self.spec_near() > other.spec_far() {
            Some(
                Overlap(
                    Projection::spanning(other.spec_far(), self.spec_near()),
                    OverlapCase::Negative,
                ),
            )
        } else {
            None
        }
    }

    /// An interval is its two bounds and nothing else.
    pub broadcast proof fn lemma_spanning(near: i64, far: i64)
        ensures
            (#[trigger] Projection::spanning(near, far)).spec_near() == near,
            Projection::spanning(near, far).spec_far() == far,
    {
    }

    /// Two intervals with the same bounds are the same interval.
    pub proof fn lemma_extensional(a: Projection, b: Projection)
        ensures
            a == b <==> (a.spec_near() == b.spec_near() && a.spec_far() == b.spec_far()),
            a == Projection::spanning(a.spec_near(), a.spec_far()),
    {
    }

    /// Builds `[near, far]` from bounds that are already in order.
    pub fn new_unchecked(near: i64, far: i64) -> (r: Projection)
        requires
            near <= far,
        ensures
            r == Projection::spanning(near, far),
            r.wf(),
    {
        Projection { near, far }
    }

    /// Builds the interval between `a` and `b`, whichever is smaller.
    pub fn new(a: i64, b: i64) -> (r: Projection)
        ensures
            r == (if a <= b {
                Projection::spanning(a, b)
            } else {
                Projection::spanning(b, a)
            }),
            r.wf(),
    {
        if a <= b {
            Self::new_unchecked(a, b)
        } else {
            Self::new_unchecked(b, a)
        }
    }

    /// Builds `[near, far]`, or nothing where the bounds are out of order.
    pub fn try_new(near: i64, far: i64) -> (r: Option<Projection>)
        ensures
            r == (if near > far {
                None
            } else {
                Some(Projection::spanning(near, far))
            }),
            r matches Some(p) ==> p.wf(),
    {
        if near > far {
            None
        } else {
            Some(Self::new_unchecked(near, far))
        }
    }

    /// The interval that holds `origin` alone.
    pub fn point(origin: i64) -> (r: Projection)
        ensures
            r == Projection::spanning(origin, origin),
            r.wf(),
    {
        Self::new_unchecked(origin, origin)
    }

    /// The interval from `origin` to `origin + dist`.
    pub fn extent_from(origin: i64, dist: i64) -> (r: Projection)
        requires
            0 <= dist,
            origin + dist <= i64::MAX,
        ensures
            r == Projection::spanning(origin, (origin + dist) as i64),
            r.wf(),
    {
        Self::new_unchecked(origin, origin + dist)
    }

    /// The interval that reaches `dist` to either side of `origin`.
    pub fn symmetrical(origin: i64, dist: i64) -> (r: Projection)
        requires
            0 <= dist,
            i64::MIN <= origin - dist,
            origin + dist <= i64::MAX,
        ensures
            r == Projection::spanning((origin - dist) as i64, (origin + dist) as i64),
            r.wf(),
    {
        Self::new_unchecked(origin - dist, origin + dist)
    }

    /// The smallest interval that holds both `a` and `b`.
    pub fn covering_both(a: Projection, b: Projection) -> (r: Projection)
        ensures
            r.spec_near() == (if a.spec_near() <= b.spec_near() {
                a.spec_near()
            } else {
                b.spec_near()
            }),
            r.spec_far() == (if a.spec_far() >= b.spec_far() {
                a.spec_far()
            } else {
                b.spec_far()
            }),
            r.wf(),
    {
        proof {
            use_type_invariant(&a);
            use_type_invariant(&b);
        }
        let near: i64 = if a.near <= b.near { a.near } else { b.near };
        let far: i64 = if a.far >= b.far { a.far } else { b.far };
        Self::new_unchecked(near, far)
    }

    /// The smallest interval that holds both `a` and the point `b`.
    pub fn covering_point(a: Projection, b: i64) -> (r: Projection)
        ensures
            r.spec_near() == (if a.spec_near() <= b {
                a.spec_near()
            } else {
                b
            }),
            r.spec_far() == (if a.spec_far() >= b {
                a.spec_far()
            } else {
                b
            }),
            r.wf(),
    {
        proof {
            use_type_invariant(&a);
        }
        let near: i64 = if a.near <= b { a.near } else { b };
        let far: i64 = if a.far >= b { a.far } else { b };
        Self::new_unchecked(near, far)
    }

    /// Stretches `a` by `b` on the side that `b` points to: the lower bound
    /// moves for a negative `b`, the upper bound otherwise. The other bound
    /// stays, so the result bounds a single step and is no sweep.
    pub fn smear(a: Projection, b: i64) -> (r: Projection)
        requires
            i64::MIN <= a.spec_near() + b,
            a.spec_far() + b <= i64::MAX,
        ensures
            r == (if b < 0 {
                Projection::spanning((a.spec_near() + b) as i64, a.spec_far())
            } else {
                Projection::spanning(a.spec_near(), (a.spec_far() + b) as i64)
            }),
            r.wf(),
    {
        proof {
            use_type_invariant(&a);
        }
        if b < 0 {
            Self::new_unchecked(a.near + b, a.far)
        } else {
            Self::new_unchecked(a.near, a.far + b)
        }
    }

    /// The lower bound.
    #[verifier::when_used_as_spec(spec_near)]
    pub fn near(self) -> (r: i64)
        ensures
            r == self.spec_near(),
            r <= self.spec_far(),
    {
        proof {
            use_type_invariant(&self);
        }
        self.near
    }

    /// The upper bound.
    #[verifier::when_used_as_spec(spec_far)]
    pub fn far(self) -> (r: i64)
        ensures
            r == self.spec_far(),
            self.spec_near() <= r,
    {
        proof {
            use_type_invariant(&self);
        }
        self.far
    }

    /// The distance between the bounds, widened so that it always fits.
    pub fn length(self) -> (r: i128)
        ensures
            r == self.spec_length(),
            0 <= r,
    {
        proof {
            use_type_invariant(&self);
        }
        let near: i128 = self.near as i128;
        let far: i128 = self.far as i128;
        far - near
    }

    /// The midpoint, rounded down.
    pub fn mid(self) -> (r: i64)
        ensures
            r == self.spec_mid(),
            self.spec_near() <= r <= self.spec_far(),
    {
        let half: i128 = self.length() / 2;
        let mid: i128 = half + self.near as i128;
        mid as i64
    }

    /// The bounds as the pair `(near, far)`.
    pub fn as_tuple(self) -> (r: (i64, i64))
        ensures
            r.0 == self.spec_near(),
            r.1 == self.spec_far(),
            r.0 <= r.1,
    {
        proof {
            use_type_invariant(&self);
        }
        (self.near, self.far)
    }

    /// Whether a gap lies between `self` and `other`; touching does not count.
    #[verifier::when_used_as_spec(spec_are_separate)]
    pub fn are_separate(self, other: Projection) -> (r: bool)
        ensures
            r == self.spec_are_separate(other),
    {
        (self.far < other.near) || (self.near > other.far)
    }

    /// Both signed ways of moving `self` out of `other`, or nothing where the
    /// two are separate. Each overlap runs from one interval's lower bound to
    /// the other's upper bound; the one that starts lower comes first.
    pub fn get_penetration_all(self, other: Projection) -> (r: Option<(Overlap, Overlap)>)
        ensures
            r == self.spec_get_penetration_all(other),
            r is Some <==> !self.spec_are_separate(other),
    {
        proof {
            use_type_invariant(&self);
            use_type_invariant(&other);
        }
        if self.are_separate(other) {
            None
        } else if self.near <= other.near {
            Some(
                (
                    Overlap(Self::new_unchecked(self.near, other.far), OverlapCase::Positive),
                    Overlap(Self::new_unchecked(other.near, self.far), OverlapCase::Negative),
                ),
            )
        } else {
            Some(
                (
                    Overlap(Self::new_unchecked(other.near, self.far), OverlapCase::Negative),
                    Overlap(Self::new_unchecked(self.near, other.far), OverlapCase::Positive),
                ),
            )
        }
    }

    /// The shorter signed way of moving `self` out of `other`, or nothing
    /// where the two are separate. Where both ways are one and the same
    /// interval the overlap carries no sign.
    pub fn get_penetration(self, other: Projection) -> (r: Option<Overlap>)
        ensures
            r == self.spec_get_penetration(other),
            r is Some <==> !self.spec_are_separate(other),
    {
        match self.get_penetration_all(other) {
            None => None,
            Some((near, far)) => {
                if *near.projection() == *far.projection() {
                    Some(near.with_case(OverlapCase::Unsigned))
                } else if near.length() <= far.length() {
                    Some(near)
                } else {
                    Some(far)
                }
            },
        }
    }

    /// The signed gap between `self` and `other`, or nothing where they
    /// touch or overlap.
    pub fn get_separation(self, other: Projection) -> (r: Option<Overlap>)
        ensures
            r == self.spec_get_separation(other),
            r is Some <==> self.spec_are_separate(other),
    {
        if self.far < other.near {
            Some(Overlap(Self::new_unchecked(self.far, other.near), OverlapCase::Positive))
        } else if self.near > other.far {
            Some(Overlap(Self::new_unchecked(other.far, self.near), OverlapCase::Negative))
        } else {
            None
        }
    }
}

impl Projection {
    /// Of two intervals either a separation or a penetration is defined,
    /// never both and never neither: the separation where a gap lies between
    /// them, the penetration where they touch or overlap.
    pub proof fn lemma_separation_xor_penetration(a: Projection, b: Projection)
        requires
            a.wf(),
            b.wf(),
        ensures
            a.spec_get_separation(b) is Some <==> a.spec_are_separate(b),
            a.spec_get_penetration(b) is Some <==> !a.spec_are_separate(b),
            a.spec_get_separation(b) is Some <==> a.spec_get_penetration(b) is None,
    {
    }

    /// What separates or penetrates is an interval in order: its lower bound
    /// does not exceed its upper bound.
    pub proof fn lemma_overlaps_are_ordered(a: Projection, b: Projection)
        requires
            a.wf(),
            b.wf(),
        ensures
            a.spec_get_separation(b) matches Some(o) ==> o.0.wf(),
            a.spec_get_penetration(b) matches Some(o) ==> o.0.wf(),
            a.spec_get_penetration_all(b) matches Some((first, second)) ==> first.0.wf()
                && second.0.wf(),
    {
    }

    /// Swapping the two intervals negates the separation: the same gap, in
    /// the opposite direction.
    pub proof fn lemma_separation_symmetry(a: Projection, b: Projection)
        requires
            a.wf(),
            b.wf(),
        ensures
            a.spec_get_separation(b) matches Some(o) ==> b.spec_get_separation(a) == Some(
                o.spec_negate(),
            ),
            a.spec_get_separation(b) is None ==> b.spec_get_separation(a) is None,
    {
    }

    /// Swapping the two intervals negates the penetration: the same overlap,
    /// in the opposite direction, and still unsigned where it was unsigned.
    pub proof fn lemma_penetration_symmetry(a: Projection, b: Projection)
        requires
            a.wf(),
            b.wf(),
        ensures
            a.spec_get_penetration(b) matches Some(o) ==> b.spec_get_penetration(a) == Some(
                o.spec_negate(),
            ),
            a.spec_get_penetration(b) is None ==> b.spec_get_penetration(a) is None,
    {
    }

    /// An interval penetrates itself over its whole length, with no sign.
    pub proof fn lemma_exact_overlap_is_unsigned(a: Projection)
        requires
            a.wf(),
        ensures
            a.spec_get_penetration(a) == Some(Overlap(a, OverlapCase::Unsigned)),
            a.spec_get_penetration(a).unwrap().spec_length() == a.spec_length(),
    {
    }

    /// A penetration is unsigned exactly where the two intervals have the
    /// same bounds; intervals that merely touch keep their sign.
    pub proof fn lemma_unsigned_iff_same_interval(a: Projection, b: Projection)
        requires
            a.wf(),
            b.wf(),
            !a.spec_are_separate(b),
        ensures
            a.spec_get_penetration(b).unwrap().1 == OverlapCase::Unsigned <==> (a.spec_near()
                == b.spec_near() && a.spec_far() == b.spec_far()),
    {
    }
}

} // verus!
