//! The polygon primitive: an ordered point sequence with styling
//! options, rendered as one closed, filled path line.

use vstd::prelude::*;

use crate::builders::{AddOption, AddPoint};
use crate::color::{spec_color_name, Color};
use crate::error::{LatexError, TikzError};
use crate::lines::{export_matches, line_at_root, LatexLine, LatexLines, LineModel};
use crate::options::{spec_insert, OptionKind, OptionSet};
use crate::point::{point_models, spec_point_text, Point, PointModel};
use crate::text::{concat_map, lemma_concat_map_take_step};

verus! {

/// A styling option of a polygon; set identity is the variant, not the
/// payload.
#[derive(Debug, Clone, Copy)]
pub enum PolygonOption {
    Color(Color),
}

impl OptionKind for PolygonOption {
    open spec fn same_kind(self, other: Self) -> bool {
        match (self, other) {
            (PolygonOption::Color(_), PolygonOption::Color(_)) => true,
        }
    }

    proof fn lemma_same_kind_refl(self) {
    }

    proof fn lemma_same_kind_sym(self, other: Self) {
    }

    proof fn lemma_same_kind_trans(self, mid: Self, other: Self) {
    }

    fn kind_eq(&self, other: &Self) -> (r: bool) {
        match (self, other) {
            (PolygonOption::Color(_), PolygonOption::Color(_)) => true,
        }
    }
}

/// The rendered fragment of one polygon option.
pub open spec fn spec_polygon_option_text(o: PolygonOption) -> Seq<char> {
    match o {
        PolygonOption::Color(c) => "color="@ + spec_color_name(c),
    }
}

impl PolygonOption {
    /// The option's rendered fragment, e.g. `color=0x641108`.
    pub fn export(&self) -> (r: String)
        ensures
            r@ == spec_polygon_option_text(*self),
    {
        match self {
            PolygonOption::Color(c) => {
                let mut s = String::from_str("color=");
                let name = c.name();
                s.append(name.as_str());
                s
            },
        }
    }
}

/// The rendered fragments of a polygon option sequence, in order.
pub open spec fn spec_polygon_options_text(s: Seq<PolygonOption>) -> Seq<char> {
    concat_map(s, |o: PolygonOption| spec_polygon_option_text(o))
}

/// A closed path through the points, each followed by a path joint,
/// ending in the closing keyword.
pub open spec fn spec_closed_path_text(pts: Seq<PointModel>) -> Seq<char> {
    concat_map(pts, |p: PointModel| " "@ + spec_point_text(p) + " --"@) + " cycle;"@
}

/// A drawable polygon: an ordered point sequence plus an option set.
#[derive(Debug)]
pub struct Polygon {
    pub points: Vec<Point>,
    pub options: OptionSet<PolygonOption>,
}

/// The one markup line a polygon renders to.
pub open spec fn spec_polygon_line(p: Polygon) -> Seq<char> {
    "\\fill["@ + spec_polygon_options_text(p.options.items@) + "]"@ + spec_closed_path_text(
        point_models(p.points@),
    )
}

/// What exporting a polygon yields: one line at indentation zero, or
/// the no-points error when the point sequence is empty.
pub open spec fn spec_polygon_export(p: Polygon) -> Result<Seq<LineModel>, LatexError> {
    if p.points@.len() == 0 {
        Err(LatexError::Tikz(TikzError::NoPoints))
    } else {
        Ok(seq![line_at_root(spec_polygon_line(p))])
    }
}

impl Polygon {
    /// A polygon with no points and no options.
    pub fn new() -> (r: Self)
        ensures
            r.points@ == Seq::<Point>::empty(),
            r.options.items@ == Seq::<PolygonOption>::empty(),
            r.options.wf(),
    {
        let r = Polygon { points: Vec::new(), options: OptionSet::new() };
        proof {
            assert(r.points@ =~= Seq::<Point>::empty());
        }
        r
    }

    /// Appends a point; points keep their insertion order.
    pub fn with_point(self, point: Point) -> (r: Self)
        ensures
            r.points@ == self.points@.push(point),
            r.options == self.options,
    {
        let mut s = self;
        s.points.push(point);
        s
    }

    /// Inserts an option, replacing a present option of the same kind.
    pub fn with_option(self, option: PolygonOption) -> (r: Self)
        ensures
            r.points@ == self.points@,
            r.options.items@ == spec_insert(self.options.items@, option),
            self.options.wf() ==> r.options.wf(),
    {
        let mut s = self;
        s.options.insert(option);
        s
    }

    /// The colour option's payload, if a colour option is present.
    pub fn get_color(&self) -> (r: Option<Color>)
        ensures
            r == spec_polygon_color(*self),
    {
        if self.options.items.len() == 0 {
            None
        } else {
            match self.options.items[0] {
                PolygonOption::Color(c) => Some(c),
            }
        }
    }

    /// Renders the polygon to its single markup line, or fails with the
    /// no-points error exactly when the point sequence is empty.
    pub fn export(&self) -> (r: Result<LatexLines, LatexError>)
        ensures
            export_matches(r, spec_polygon_export(*self)),
    {
        if self.points.len() == 0 {
            return Err(LatexError::Tikz(TikzError::NoPoints));
        }
        let mut s = String::from_str("\\fill[");
        let ghost opts = self.options.items@;
        let ghost ofrag = |o: PolygonOption| spec_polygon_option_text(o);
        proof {
            assert(opts.subrange(0, 0) =~= Seq::<PolygonOption>::empty());
        }
        let mut i: usize = 0;
        while i < self.options.items.len()
            invariant
                0 <= i <= opts.len(),
                opts == self.options.items@,
                ofrag == (|o: PolygonOption| spec_polygon_option_text(o)),
                s@ =~= "\\fill["@ + concat_map(opts.subrange(0, i as int), ofrag),
            decreases opts.len() - i,
        {
            let frag = self.options.items[i].export();
            s.append(frag.as_str());
            proof {
                lemma_concat_map_take_step(opts, ofrag, i as int);
            }
            i += 1;
        }
        proof {
            assert(opts.subrange(0, opts.len() as int) =~= opts);
            assert(s@ =~= "\\fill["@ + spec_polygon_options_text(opts));
        }
        s.append("]");

        let ghost pts = point_models(self.points@);
        let ghost pfrag = |p: PointModel| " "@ + spec_point_text(p) + " --"@;
        proof {
            assert(pts.subrange(0, 0) =~= Seq::<PointModel>::empty());
        }
        let mut j: usize = 0;
        while j < self.points.len()
            invariant
                0 <= j <= pts.len(),
                pts == point_models(self.points@),
                pts.len() == self.points@.len(),
                pfrag == (|p: PointModel| " "@ + spec_point_text(p) + " --"@),
                s@ =~= "\\fill["@ + spec_polygon_options_text(self.options.items@) + "]"@
                    + concat_map(pts.subrange(0, j as int), pfrag),
            decreases pts.len() - j,
        {
            s.append(" ");
            let rendered = self.points[j].render();
            s.append(rendered.as_str());
            s.append(" --");
            proof {
                assert(pts[j as int] == self.points@[j as int]@);
                lemma_concat_map_take_step(pts, pfrag, j as int);
            }
            j += 1;
        }
        s.append(" cycle;");
        proof {
            assert(pts.subrange(0, pts.len() as int) =~= pts);
            assert(s@ =~= spec_polygon_line(*self));
        }
        let line = LatexLine::new(s);
        let lines = LatexLines { lines: vec![line] };
        proof {
            assert(lines@ =~= seq![line_at_root(spec_polygon_line(*self))]);
        }
        Ok(lines)
    }
}

/// The payload of the first colour option, if one is present.
pub open spec fn spec_polygon_color(p: Polygon) -> Option<Color> {
    if p.options.items@.len() == 0 {
        None
    } else {
        match p.options.items@[0] {
            PolygonOption::Color(c) => Some(c),
        }
    }
}

impl AddPoint<Point> for Polygon {
    fn point(self, point: Point) -> (r: Self)
        ensures
            r.points@ == self.points@.push(point),
            r.options == self.options,
    {
        self.with_point(point)
    }
}

impl AddOption<PolygonOption> for Polygon {
    fn option(self, option: PolygonOption) -> (r: Self)
        ensures
            r.points@ == self.points@,
            r.options.items@ == spec_insert(self.options.items@, option),
            self.options.wf() ==> r.options.wf(),
    {
        self.with_option(option)
    }
}

impl AddOption<Color> for Polygon {
    fn option(self, option: Color) -> (r: Self)
        ensures
            r.points@ == self.points@,
            r.options.items@ == spec_insert(
                self.options.items@,
                PolygonOption::Color(option),
            ),
            self.options.wf() ==> r.options.wf(),
    {
        self.with_option(PolygonOption::Color(option))
    }
}

} // verus!
