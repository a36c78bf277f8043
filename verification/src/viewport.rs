//! The rectangle of the grid that is on display.

use vstd::prelude::*;
use crate::scalar::Scalar;

verus! {

/// A rectangle in grid-cell units: the corner nearest the origin and the
/// extent along each axis.
#[derive(Clone, Copy, PartialEq, Eq, Structural, Debug)]
pub struct Viewport {
    pub x: Scalar,
    pub y: Scalar,
    pub width: Scalar,
    pub height: Scalar,
}

impl Viewport {
    /// The rectangle at `(2.0, 2.0)` that is `15.0` wide and `6.0` high.
    pub open spec fn spec_new() -> Viewport {
        Viewport {
            x: Scalar { bits: 0x4000_0000 },
            y: Scalar { bits: 0x4000_0000 },
            width: Scalar { bits: 0x4170_0000 },
            height: Scalar { bits: 0x40c0_0000 },
        }
    }

    /// Whether the point `(x, y)` lies strictly inside the rectangle whose
    /// far edges are at `right` and `bottom`.
    pub open spec fn encloses(&self, x: Scalar, y: Scalar, right: Scalar, bottom: Scalar) -> bool {
        x.spec_gt(self.x) && x.spec_lt(right) && y.spec_gt(self.y) && y.spec_lt(bottom)
    }

    /// The rectangle shown at start-up.
    #[verifier::when_used_as_spec(spec_new)]
    pub fn new() -> (r: Viewport)
        ensures
            r == Viewport::spec_new(),
    {
        Viewport {
            x: Scalar::from_bits(0x4000_0000),
            y: Scalar::from_bits(0x4000_0000),
            width: Scalar::from_bits(0x4170_0000),
            height: Scalar::from_bits(0x40c0_0000),
        }
    }

    /// The far edge along the first axis: what `sum` gives for `x` and
    /// `width`.
    pub fn right<A: Fn(Scalar, Scalar) -> Scalar>(&self, sum: &A) -> (r: Scalar)
        requires
            sum.requires((self.x, self.width)),
        ensures
            sum.ensures((self.x, self.width), r),
    {
        sum(self.x, self.width)
    }

    /// The far edge along the second axis: what `sum` gives for `y` and
    /// `height`.
    pub fn bottom<A: Fn(Scalar, Scalar) -> Scalar>(&self, sum: &A) -> (r: Scalar)
        requires
            sum.requires((self.y, self.height)),
        ensures
            sum.ensures((self.y, self.height), r),
    {
        sum(self.y, self.height)
    }

    /// Whether the point `(x, y)` lies strictly inside the rectangle, the far
    /// edges being what `sum` gives. A point on an edge is outside, and so
    /// is every point with a NaN coordinate.
    pub fn contains<A: Fn(Scalar, Scalar) -> Scalar>(&self, x: Scalar, y: Scalar, sum: &A) -> (r:
        bool)
        requires
            sum.requires((self.x, self.width)),
            sum.requires((self.y, self.height)),
        ensures
            exists|right: Scalar, bottom: Scalar|
                #![trigger sum.ensures((self.x, self.width), right), sum.ensures((self.y, self.height), bottom)]
                sum.ensures((self.x, self.width), right) && sum.ensures(
                    (self.y, self.height),
                    bottom,
                ) && r == self.encloses(x, y, right, bottom),
    {
        let right: Scalar = self.right(sum);
        let bottom: Scalar = self.bottom(sum);
        x.gt(self.x) && x.lt(right) && y.gt(self.y) && y.lt(bottom)
    }
}

} // verus!
