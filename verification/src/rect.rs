//! Axis-aligned rectangles: the bounding boxes of the two coordinate spaces.

use vstd::prelude::*;
use crate::rational::Scalar;

verus! {

/// A rectangle given by its origin and its extent. The extents must denote
/// non-zero numbers: coordinate mapping divides by them.
#[derive(Clone, Copy, PartialEq, Eq, Structural, Debug)]
pub struct Rect {
    pub x: Scalar,
    pub y: Scalar,
    pub width: Scalar,
    pub height: Scalar,
}

impl Rect {
    pub open spec fn wf(self) -> bool {
        &&& self.x.wf()
        &&& self.y.wf()
        &&& self.width.wf()
        &&& self.height.wf()
        &&& self.width@.n != 0
        &&& self.height@.n != 0
    }

    /// A rectangle with origin `(x, y)` and extent `width` by `height`.
    pub fn new(x: Scalar, y: Scalar, width: Scalar, height: Scalar) -> (r: Rect)
        requires
            x.wf(),
            y.wf(),
            width.wf(),
            height.wf(),
            width@.n != 0,
            height@.n != 0,
        ensures
            r.wf(),
            r.x == x,
            r.y == y,
            r.width == width,
            r.height == height,
    {
        Rect { x, y, width, height }
    }

    /// The origin's horizontal coordinate.
    pub fn x(&self) -> (r: Scalar)
        ensures
            r == self.x,
    {
        self.x
    }

    /// The origin's vertical coordinate.
    pub fn y(&self) -> (r: Scalar)
        ensures
            r == self.y,
    {
        self.y
    }

    /// The horizontal extent.
    pub fn width(&self) -> (r: Scalar)
        ensures
            r == self.width,
    {
        self.width
    }

    /// The vertical extent.
    pub fn height(&self) -> (r: Scalar)
        ensures
            r == self.height,
    {
        self.height
    }
}

} // verus!
