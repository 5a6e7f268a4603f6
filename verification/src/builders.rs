//! Fluent builder traits: method-chaining accumulation of points and
//! options, shared by the drawable primitives.

use vstd::prelude::*;

use crate::line::Line;
use crate::node::Node;
use crate::point::Point;
use crate::polygon::Polygon;

verus! {

/// Appending a point to a drawable, consuming and returning the owner.
pub trait AddPoint<T>: Sized {
    fn point(self, point: T) -> Self;
}

/// Appending a point given as the texts of its two coordinates.
pub trait AddPointByParts<'a, 'b>: Sized + AddPoint<Point> {
    fn point(self, x: &'a str, y: &'b str) -> Self {
        AddPoint::point(self, Point::new(x, y))
    }
}

/// Inserting an option, consuming and returning the owner.
pub trait AddOption<T>: Sized {
    fn option(self, option: T) -> Self;
}

impl<'a, 'b> AddPointByParts<'a, 'b> for Polygon {

}

impl<'a, 'b> AddPointByParts<'a, 'b> for Line {

}

impl<'a, 'b> AddPointByParts<'a, 'b> for Node {

}

} // verus!
