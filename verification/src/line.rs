//! The line primitive: an ordered point sequence with styling options,
//! rendered as one open (not closed) path line.

use vstd::prelude::*;

use crate::builders::{AddOption, AddPoint};
use crate::color::{spec_color_name, Color};
use crate::error::{LatexError, TikzError};
use crate::lines::{export_matches, line_at_root, LatexLine, LatexLines, LineModel};
use crate::options::{spec_insert, OptionKind, OptionSet};
use crate::point::{point_models, spec_point_text, Point, PointModel};
use crate::text::{concat_map, lemma_concat_map_take_step};

verus! {

/// A styling option of a line; set identity is the variant, not the
/// payload.
#[derive(Debug, Clone, Copy)]
pub enum LineOption {
    Color(Color),
}

impl OptionKind for LineOption {
    open spec fn same_kind(self, other: Self) -> bool {
        match (self, other) {
            (LineOption::Color(_), LineOption::Color(_)) => true,
        }
    }

    proof fn lemma_same_kind_refl(self) {
    }

    proof fn lemma_same_kind_sym(self, other: Self) {
    }

    proof fn lemma_same_kind_trans(self, mid: Self, other: Self) {
    }

    fn kind_eq(&self, other: &Self) -> (r: bool) {
        match (self, other) {
            (LineOption::Color(_), LineOption::Color(_)) => true,
        }
    }
}

/// The rendered fragment of one line option.
pub open spec fn spec_line_option_text(o: LineOption) -> Seq<char> {
    match o {
        LineOption::Color(c) => "color="@ + spec_color_name(c),
    }
}

impl LineOption {
    /// The option's rendered fragment, e.g. `color=0x641108`.
    pub fn export(&self) -> (r: String)
        ensures
            r@ == spec_line_option_text(*self),
    {
        match self {
            LineOption::Color(c) => {
                let mut s = String::from_str("color=");
                let name = c.name();
                s.append(name.as_str());
                s
            },
        }
    }
}

/// The rendered fragments of a line option sequence, in order.
pub open spec fn spec_line_options_text(s: Seq<LineOption>) -> Seq<char> {
    concat_map(s, |o: LineOption| spec_line_option_text(o))
}

/// An open path through the points: the first point, then each further
/// point after a path joint, then the path terminator.
pub open spec fn spec_open_path_text(pts: Seq<PointModel>) -> Seq<char>
    recommends
        pts.len() > 0,
{
    " "@ + spec_point_text(pts[0]) + concat_map(
        pts.drop_first(),
        |p: PointModel| " -- "@ + spec_point_text(p),
    ) + ";"@
}

/// A drawable open polyline: an ordered point sequence plus an option set.
#[derive(Debug)]
pub struct Line {
    pub points: Vec<Point>,
    pub options: OptionSet<LineOption>,
}

/// The one markup line a polyline renders to.
pub open spec fn spec_line_line(l: Line) -> Seq<char> {
    "\\draw["@ + spec_line_options_text(l.options.items@) + "]"@ + spec_open_path_text(
        point_models(l.points@),
    )
}

/// What exporting a polyline yields: one line at indentation zero, or
/// the no-points error when the point sequence is empty.
pub open spec fn spec_line_export(l: Line) -> Result<Seq<LineModel>, LatexError> {
    if l.points@.len() == 0 {
        Err(LatexError::Tikz(TikzError::NoPoints))
    } else {
        Ok(seq![line_at_root(spec_line_line(l))])
    }
}

/// The payload of the first colour option, if one is present.
pub open spec fn spec_line_color(l: Line) -> Option<Color> {
    if l.options.items@.len() == 0 {
        None
    } else {
        match l.options.items@[0] {
            LineOption::Color(c) => Some(c),
        }
    }
}

impl Line {
    /// A polyline with no points and no options.
    pub fn new() -> (r: Self)
        ensures
            r.points@ == Seq::<Point>::empty(),
            r.options.items@ == Seq::<LineOption>::empty(),
            r.options.wf(),
    {
        let r = Line { points: Vec::new(), options: OptionSet::new() };
        proof {
            assert(r.points@ =~= Seq::<Point>::empty());
        }
        r
    }

    /// Appends a point; points keep their insertion order.
    pub fn with_point(self, point: Point) -> (r: Self)
        ensures
            r.points@ == self.points@.push(point),
            r.options == self.options,
    {
        let mut s = self;
        s.points.push(point);
        s
    }

    /// Inserts an option, replacing a present option of the same kind.
    pub fn with_option(self, option: LineOption) -> (r: Self)
        ensures
            r.points@ == self.points@,
            r.options.items@ == spec_insert(self.options.items@, option),
            self.options.wf() ==> r.options.wf(),
    {
        let mut s = self;
        s.options.insert(option);
        s
    }

    /// The colour option's payload, if a colour option is present.
    pub fn get_color(&self) -> (r: Option<Color>)
        ensures
            r == spec_line_color(*self),
    {
        if self.options.items.len() == 0 {
            None
        } else {
            match self.options.items[0] {
                LineOption::Color(c) => Some(c),
            }
        }
    }

    /// Renders the polyline to its single markup line, or fails with
    /// the no-points error exactly when the point sequence is empty.
    pub fn export(&self) -> (r: Result<LatexLines, LatexError>)
        ensures
            export_matches(r, spec_line_export(*self)),
    {
        if self.points.len() == 0 {
            return Err(LatexError::Tikz(TikzError::NoPoints));
        }
        let mut s = String::from_str("\\draw[");
        let ghost opts = self.options.items@;
        let ghost ofrag = |o: LineOption| spec_line_option_text(o);
        proof {
            assert(opts.subrange(0, 0) =~= Seq::<LineOption>::empty());
        }
        let mut i: usize = 0;
        while i < self.options.items.len()
            invariant
                0 <= i <= opts.len(),
                opts == self.options.items@,
                ofrag == (|o: LineOption| spec_line_option_text(o)),
                s@ =~= "\\draw["@ + concat_map(opts.subrange(0, i as int), ofrag),
            decreases opts.len() - i,
        {
            let frag = self.options.items[i].export();
            s.append(frag.as_str());
            proof {
                lemma_concat_map_take_step(opts, ofrag, i as int);
            }
            i += 1;
        }
        proof {
            assert(opts.subrange(0, opts.len() as int) =~= opts);
            assert(s@ =~= "\\draw["@ + spec_line_options_text(opts));
        }
        s.append("]");
        s.append(" ");
        let first = self.points[0].render();
        s.append(first.as_str());

        let ghost pts = point_models(self.points@);
        let ghost tail = pts.drop_first();
        let ghost pfrag = |p: PointModel| " -- "@ + spec_point_text(p);
        proof {
            assert(pts[0] == self.points@[0]@);
            assert(tail.subrange(0, 0) =~= Seq::<PointModel>::empty());
        }
        let mut j: usize = 1;
        while j < self.points.len()
            invariant
                1 <= j <= self.points@.len(),
                pts == point_models(self.points@),
                pts.len() == self.points@.len(),
                pts.len() > 0,
                tail == pts.drop_first(),
                pfrag == (|p: PointModel| " -- "@ + spec_point_text(p)),
                s@ =~= "\\draw["@ + spec_line_options_text(self.options.items@) + "]"@ + " "@
                    + spec_point_text(pts[0]) + concat_map(tail.subrange(0, j - 1), pfrag),
            decreases self.points@.len() - j,
        {
            s.append(" -- ");
            let rendered = self.points[j].render();
            s.append(rendered.as_str());
            proof {
                assert(tail[j - 1] == pts[j as int]);
                assert(pts[j as int] == self.points@[j as int]@);
                lemma_concat_map_take_step(tail, pfrag, j - 1);
            }
            j += 1;
        }
        s.append(";");
        proof {
            assert(tail.subrange(0, tail.len() as int) =~= tail);
            assert(s@ =~= spec_line_line(*self));
        }
        let line = LatexLine::new(s);
        let lines = LatexLines { lines: vec![line] };
        proof {
            assert(lines@ =~= seq![line_at_root(spec_line_line(*self))]);
        }
        Ok(lines)
    }
}

impl AddPoint<Point> for Line {
    fn point(self, point: Point) -> (r: Self)
        ensures
            r.points@ == self.points@.push(point),
            r.options == self.options,
    {
        self.with_point(point)
    }
}

impl AddOption<LineOption> for Line {
    fn option(self, option: LineOption) -> (r: Self)
        ensures
            r.points@ == self.points@,
            r.options.items@ == spec_insert(self.options.items@, option),
            self.options.wf() ==> r.options.wf(),
    {
        self.with_option(option)
    }
}

impl AddOption<Color> for Line {
    fn option(self, option: Color) -> (r: Self)
        ensures
            r.points@ == self.points@,
            r.options.items@ == spec_insert(self.options.items@, LineOption::Color(option)),
            self.options.wf() ==> r.options.wf(),
    {
        self.with_option(LineOption::Color(option))
    }
}

} // verus!
