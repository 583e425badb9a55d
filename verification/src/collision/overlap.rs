use vstd::prelude::*;

use super::projection::Projection;

verus! {

/// An interval of overlap or of gap, with the direction in which the first
/// of the two projections has to move.
#[derive(Debug, Clone, Copy, PartialEq, Eq, Structural)]
pub struct Overlap(pub Projection, pub OverlapCase);

/// The direction of an overlap; `Unsigned` where both directions are the same.
#[derive(Debug, Clone, Copy, PartialEq, Eq, PartialOrd, Ord, Structural)]
pub enum OverlapCase {
    Positive,
    Negative,
    Unsigned,
}

/// A signed distance, or a bare length whose sign the caller has to choose.
#[derive(Debug, Clone, Copy, PartialEq, Eq, Structural)]
pub enum OverlapOffset {
    Known(i128),
    Unsure(i128),
}

impl OverlapOffset {
    /// The known distance, or `value` in its place.
    pub fn unwrap_or(self, value: i128) -> (r: i128)
        ensures
            r == (match self {
                OverlapOffset::Known(v) => v,
                OverlapOffset::Unsure(_) => value,
            }),
    {
        match self {
            Self::Known(v) => v,
            Self::Unsure(_) => value,
        }
    }

    /// The known distance, or what `func` makes of the bare length.
    pub fn unwrap_or_else<F: FnOnce(i128) -> i128>(self, func: F) -> (r: i128)
        requires
            self matches OverlapOffset::Unsure(v) ==> func.requires((v,)),
        ensures
            match self {
                OverlapOffset::Known(v) => r == v,
                OverlapOffset::Unsure(v) => func.ensures((v,), r),
            },
    {
        match self {
            Self::Known(v) => v,
            Self::Unsure(v) => func(v),
        }
    }

    /// The known distance, or the bare length times `sign`.
    pub fn unwrap_or_sign(self, sign: i128) -> (r: i128)
        requires
            self matches OverlapOffset::Unsure(v) ==> i128::MIN <= v * sign <= i128::MAX,
        ensures
            r == (match self {
                OverlapOffset::Known(v) => v as int,
                OverlapOffset::Unsure(v) => v * sign,
            }),
    {
        match self {
            Self::Known(v) => v,
            Self::Unsure(v) => v * sign,
        }
    }
}

impl Overlap {
    /// The length of the interval.
    pub open spec fn spec_length(self) -> int {
        self.0.spec_length()
    }

    /// The same interval in the opposite direction.
    pub open spec fn spec_negate(self) -> Overlap {
        match self.1 {
            OverlapCase::Positive => Overlap(self.0, OverlapCase::Negative),
            OverlapCase::Negative => Overlap(self.0, OverlapCase::Positive),
            OverlapCase::Unsigned => Overlap(self.0, OverlapCase::Unsigned),
        }
    }

    /// The length with the sign of the case.
    pub open spec fn spec_offset(self) -> OverlapOffset {
        match self.1 {
            OverlapCase::Positive => OverlapOffset::Known(self.spec_length() as i128),
            OverlapCase::Negative => OverlapOffset::Known((-self.spec_length()) as i128),
            OverlapCase::Unsigned => OverlapOffset::Unsure(self.spec_length() as i128),
        }
    }

    /// Swaps `Positive` and `Negative`; `Unsigned` stays.
    #[verifier::when_used_as_spec(spec_negate)]
    pub fn negate(self) -> (r: Overlap)
        ensures
            r == self.spec_negate(),
    {
        match self.1 {
            OverlapCase::Positive => Overlap(self.0, OverlapCase::Negative),
            OverlapCase::Negative => Overlap(self.0, OverlapCase::Positive),
            OverlapCase::Unsigned => Overlap(self.0, OverlapCase::Unsigned),
        }
    }

    /// The same interval with another case.
    pub fn with_case(self, case: OverlapCase) -> (r: Overlap)
        ensures
            r == Overlap(self.0, case),
    {
        Overlap(self.0, case)
    }
}

impl Overlap {
    /// The length of the interval.
    pub fn length(self) -> (r: i128)
        ensures
            r == self.spec_length(),
            0 <= r,
    {
        self.0.length()
    }
}

impl Overlap {
    /// The signed distance by which the first projection moves: the length
    /// for `Positive`, its negation for `Negative`, and for `Unsigned` the
    /// bare length, the sign being the caller's to choose.
    pub fn offset(self) -> (r: OverlapOffset)
        ensures
            r == self.spec_offset(),
    {
        match self.1 {
            OverlapCase::Positive => OverlapOffset::Known(self.0.length()),
            OverlapCase::Negative => OverlapOffset::Known(-self.0.length()),
            OverlapCase::Unsigned => OverlapOffset::Unsure(self.0.length()),
        }
    }
}

impl Overlap {
    /// The interval.
    pub fn projection(&self) -> (r: &Projection)
        ensures
            *r == self.0,
    {
        &self.0
    }

    /// The direction.
    pub fn case(&self) -> (r: &OverlapCase)
        ensures
            *r == self.1,
    {
        &self.1
    }
}

impl Overlap {
    /// The interval and the direction as a pair.
    pub fn into_tuple(self) -> (r: (Projection, OverlapCase))
        ensures
            r == (self.0, self.1),
    {
        (self.0, self.1)
    }
}

} // verus!
