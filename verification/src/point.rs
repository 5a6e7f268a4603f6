//! A 2D coordinate, carried as the decimal text of each coordinate and
//! rendered as a textual coordinate pair.

use vstd::prelude::*;

verus! {

/// The mathematical value of a point: the characters of each coordinate.
pub ghost struct PointModel {
    pub x: Seq<char>,
    pub y: Seq<char>,
}

/// A 2D coordinate.  Each coordinate holds the numeral that renders it,
/// so the point `(0, 9.1)` holds the texts `0` and `9.1`.
#[derive(Debug)]
pub struct Point {
    pub x: String,
    pub y: String,
}

impl View for Point {
    type V = PointModel;

    open spec fn view(&self) -> PointModel {
        PointModel { x: self.x@, y: self.y@ }
    }
}

/// The models of a sequence of points.
pub open spec fn point_models(s: Seq<Point>) -> Seq<PointModel> {
    s.map_values(|p: Point| p@)
}

/// The rendered form of a point: `(x, y)`.
pub open spec fn spec_point_text(p: PointModel) -> Seq<char> {
    "("@ + p.x + ", "@ + p.y + ")"@
}

impl Point {
    /// A point from the texts of its two coordinates.
    pub fn new(x: &str, y: &str) -> (r: Self)
        ensures
            r@ == (PointModel { x: x@, y: y@ }),
    {
        Point { x: String::from_str(x), y: String::from_str(y) }
    }

    /// The textual coordinate pair `(x, y)`.
    pub fn render(&self) -> (r: String)
        ensures
            r@ == spec_point_text(self@),
    {
        let mut s = String::from_str("(");
        s.append(self.x.as_str());
        s.append(", ");
        s.append(self.y.as_str());
        s.append(")");
        proof {
            assert(s@ =~= spec_point_text(self@));
        }
        s
    }
}

} // verus!
