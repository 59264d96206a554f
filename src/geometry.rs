//! Orientation of axis-aligned rectangles.
use vstd::prelude::*;

verus! {

/// The principal plane that an axis-aligned rectangle lies in.
#[derive(Clone, Copy, Debug, PartialEq, Eq, Structural)]
pub enum RectAxisType {
    XY,
    XZ,
    YZ,
}

/// Coordinate indices (0 = x, 1 = y, 2 = z) of a rectangle's two in-plane
/// axes, in the order its interval pair names them, and of its normal axis.
pub open spec fn plane_axes_spec(axis: RectAxisType) -> (usize, usize, usize) {
    match axis {
        RectAxisType::XY => (0, 1, 2),
        RectAxisType::XZ => (0, 2, 1),
        RectAxisType::YZ => (1, 2, 0),
    }
}

impl RectAxisType {
    /// The coordinate indices `(first, second, normal)` of this plane: a
    /// rectangle on it spans `first` and `second` and sits at a constant
    /// value of `normal`.
    pub fn plane_axes(&self) -> (r: (usize, usize, usize))
        ensures
            r == plane_axes_spec(*self),
            r.0 < 3 && r.1 < 3 && r.2 < 3,
            r.0 != r.1 && r.1 != r.2 && r.0 != r.2,
    {
        match self {
            RectAxisType::XY => (0, 1, 2),
            RectAxisType::XZ => (0, 2, 1),
            RectAxisType::YZ => (1, 2, 0),
        }
    }
}

} // verus!
