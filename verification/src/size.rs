//! Linear lengths in typographic points.

use vstd::prelude::*;

verus! {

/// Largest font size the layouter accepts, in micropoints (about 1.1
/// million points). Keeping font sizes below this bound lets every
/// character width, and every sum of character widths over a text of any
/// machine-representable length, fit the arithmetic of [`Size`].
pub const MAX_FONT_SIZE_MICRO: u128 = 0x100_0000_0000;

/// A linear length in typographic points, held as a whole number of
/// micropoints (millionths of a point). A zero length exists and lengths
/// add; both are exact, with no rounding beyond the micropoint grid.
#[derive(Clone, Copy, Debug, PartialEq, Eq)]
pub struct Size {
    /// The length as a count of micropoints.
    pub micropoints: u128,
}

impl View for Size {
    type V = int;

    open spec fn view(&self) -> int {
        self.micropoints as int
    }
}

impl Size {
    /// The zero length.
    pub fn zero() -> (r: Size)
        ensures
            r@ == 0,
    {
        Size { micropoints: 0 }
    }

    /// A length of `points` whole typographic points.
    pub fn pt(points: u64) -> (r: Size)
        ensures
            r@ == points * 1_000_000,
    {
        Size { micropoints: points as u128 * 1_000_000 }
    }

    /// A length of `micropoints` millionths of a point.
    pub fn from_micropoints(micropoints: u128) -> (r: Size)
        ensures
            r@ == micropoints,
    {
        Size { micropoints }
    }

    /// The sum of two lengths.
    pub fn add(self, other: Size) -> (r: Size)
        requires
            self@ + other@ <= u128::MAX,
        ensures
            r@ == self@ + other@,
    {
        Size { micropoints: self.micropoints + other.micropoints }
    }
}

/// A width paired with a height, both in typographic points.
#[derive(Clone, Copy, Debug, PartialEq, Eq)]
pub struct Size2D {
    /// The horizontal extent.
    pub x: Size,
    /// The vertical extent.
    pub y: Size,
}

impl Size2D {
    /// A box of width `x` and height `y`.
    pub fn new(x: Size, y: Size) -> (r: Size2D)
        ensures
            r.x == x,
            r.y == y,
    {
        Size2D { x, y }
    }
}

} // verus!
