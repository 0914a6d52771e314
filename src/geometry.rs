//! Points and polygons in fixed-point integer coordinates.
use vstd::prelude::*;
use vstd::std_specs::iter::IteratorSpec;

verus! {

/// A point with integer coordinates.
///
/// Outlines as read from a source document are in units of `1 / COORD_SCALE` of a
/// canvas unit; outlines after normalization are in units of `1 / UNIT` of the canvas
/// size (so the unit square is `[0, UNIT) x [0, UNIT)`).
#[derive(Clone, Copy, Debug, PartialEq, Eq, Structural)]
pub struct Point(pub i32, pub i32);

/// Resolution of source coordinates: this many steps per canvas unit.
pub const COORD_SCALE: i64 = 10000;

/// Resolution of normalized coordinates: this many steps across the whole canvas.
pub const UNIT: i64 = 1000000;

impl Point {
    /// Whether the component-wise sum of two points fits the coordinate type.
    pub open spec fn can_add(self, rhs: Point) -> bool {
        i32::MIN <= self.0 + rhs.0 <= i32::MAX && i32::MIN <= self.1 + rhs.1 <= i32::MAX
    }

    /// Component-wise sum.
    pub fn add(self, rhs: &Point) -> (r: Point)
        requires
            self.can_add(*rhs),
        ensures
            r.0 == self.0 + rhs.0,
            r.1 == self.1 + rhs.1,
    {
        Point(self.0 + rhs.0, self.1 + rhs.1)
    }
}

impl Point {
    /// Whether the component-wise product of two points fits the coordinate type.
    pub open spec fn can_mul(self, rhs: Point) -> bool {
        i32::MIN <= self.0 * rhs.0 <= i32::MAX && i32::MIN <= self.1 * rhs.1 <= i32::MAX
    }

    /// Component-wise product (a scaling of one point by the other's components).
    pub fn mul(self, rhs: &Point) -> (r: Point)
        requires
            self.can_mul(*rhs),
        ensures
            r.0 == self.0 * rhs.0,
            r.1 == self.1 * rhs.1,
    {
        Point(self.0 * rhs.0, self.1 * rhs.1)
    }
}

/// One closed contour: an ordered list of points, closure implicit.
#[derive(Debug)]
pub struct Polygon(pub Vec<Point>);

impl View for Polygon {
    type V = Seq<Point>;

    open spec fn view(&self) -> Seq<Point> {
        self.0@
    }
}

impl Polygon {
    /// Number of points.
    pub fn len(&self) -> (r: usize)
        ensures
            r == self@.len(),
    {
        self.0.len()
    }

    /// The points, in order.
    pub fn iter(&self) -> (r: std::slice::Iter<'_, Point>)
        ensures
            r.remaining().len() == self@.len(),
            forall|i: int| 0 <= i < self@.len() ==> *#[trigger] r.remaining()[i] == self@[i],
    {
        broadcast use vstd::std_specs::slice::axiom_spec_slice_iter;

        self.0.as_slice().iter()
    }

    /// Whether the polygon has no point (such a polygon is drawn as nothing).
    pub fn is_empty(&self) -> (r: bool)
        ensures
            r == (self@.len() == 0),
    {
        self.0.len() == 0
    }
}

/// The contents of a list of polygons.
pub open spec fn polygons_view(v: Seq<Polygon>) -> Seq<Seq<Point>> {
    v.map_values(|p: Polygon| p@)
}

} // verus!
