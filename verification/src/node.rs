//! The node primitive: a labelled point with styling options, rendered
//! as one node line at its first point.

use vstd::prelude::*;

use crate::builders::{AddOption, AddPoint};
use crate::color::{spec_color_name, Color};
use crate::error::{LatexError, TikzError};
use crate::lines::{export_matches, line_at_root, LatexLine, LatexLines, LineModel};
use crate::options::{spec_insert, OptionKind, OptionSet};
use crate::point::{point_models, spec_point_text, Point, PointModel};
use crate::text::{concat_map, lemma_concat_map_take_step};

verus! {

/// A styling option of a node; set identity is the variant, not the
/// payload.
#[derive(Debug, Clone, Copy)]
pub enum NodeOption {
    Color(Color),
}

impl OptionKind for NodeOption {
    open spec fn same_kind(self, other: Self) -> bool {
        match (self, other) {
            (NodeOption::Color(_), NodeOption::Color(_)) => true,
        }
    }

    proof fn lemma_same_kind_refl(self) {
    }

    proof fn lemma_same_kind_sym(self, other: Self) {
    }

    proof fn lemma_same_kind_trans(self, mid: Self, other: Self) {
    }

    fn kind_eq(&self, other: &Self) -> (r: bool) {
        match (self, other) {
            (NodeOption::Color(_), NodeOption::Color(_)) => true,
        }
    }
}

/// The rendered fragment of one node option.
pub open spec fn spec_node_option_text(o: NodeOption) -> Seq<char> {
    match o {
        NodeOption::Color(c) => "color="@ + spec_color_name(c),
    }
}

impl NodeOption {
    /// The option's rendered fragment, e.g. `color=0x641108`.
    pub fn export(&self) -> (r: String)
        ensures
            r@ == spec_node_option_text(*self),
    {
        match self {
            NodeOption::Color(c) => {
                let mut s = String::from_str("color=");
                let name = c.name();
                s.append(name.as_str());
                s
            },
        }
    }
}

/// The rendered fragments of a node option sequence, in order.
pub open spec fn spec_node_options_text(s: Seq<NodeOption>) -> Seq<char> {
    concat_map(s, |o: NodeOption| spec_node_option_text(o))
}

/// A drawable node: a labelled point plus an option set.  The node is
/// placed at the first of its points.
#[derive(Debug)]
pub struct Node {
    pub points: Vec<Point>,
    pub options: OptionSet<NodeOption>,
    pub label: String,
}

/// The one markup line a node renders to.
pub open spec fn spec_node_line(n: Node) -> Seq<char>
    recommends
        n.points@.len() > 0,
{
    "\\node["@ + spec_node_options_text(n.options.items@) + "] at "@ + spec_point_text(
        point_models(n.points@)[0],
    ) + " {"@ + n.label@ + "};"@
}

/// What exporting a node yields: one line at indentation zero, or the
/// no-points error when the point sequence is empty.
pub open spec fn spec_node_export(n: Node) -> Result<Seq<LineModel>, LatexError> {
    if n.points@.len() == 0 {
        Err(LatexError::Tikz(TikzError::NoPoints))
    } else {
        Ok(seq![line_at_root(spec_node_line(n))])
    }
}

/// The payload of the first colour option, if one is present.
pub open spec fn spec_node_color(n: Node) -> Option<Color> {
    if n.options.items@.len() == 0 {
        None
    } else {
        match n.options.items@[0] {
            NodeOption::Color(c) => Some(c),
        }
    }
}

impl Node {
    /// A node with no points, no options and an empty label.
    pub fn new() -> (r: Self)
        ensures
            r.points@ == Seq::<Point>::empty(),
            r.options.items@ == Seq::<NodeOption>::empty(),
            r.options.wf(),
            r.label@ == Seq::<char>::empty(),
    {
        let r = Node { points: Vec::new(), options: OptionSet::new(), label: String::new() };
        proof {
            assert(r.points@ =~= Seq::<Point>::empty());
        }
        r
    }

    /// Appends a point; points keep their insertion order.
    pub fn with_point(self, point: Point) -> (r: Self)
        ensures
            r.points@ == self.points@.push(point),
            r.options == self.options,
            r.label == self.label,
    {
        let mut s = self;
        s.points.push(point);
        s
    }

    /// Inserts an option, replacing a present option of the same kind.
    pub fn with_option(self, option: NodeOption) -> (r: Self)
        ensures
            r.points@ == self.points@,
            r.options.items@ == spec_insert(self.options.items@, option),
            self.options.wf() ==> r.options.wf(),
            r.label == self.label,
    {
        let mut s = self;
        s.options.insert(option);
        s
    }

    /// Replaces the node's label.
    pub fn with_label(self, label: &str) -> (r: Self)
        ensures
            r.points@ == self.points@,
            r.options == self.options,
            r.label@ == label@,
    {
        let mut s = self;
        s.label = String::from_str(label);
        s
    }

    /// The colour option's payload, if a colour option is present.
    pub fn get_color(&self) -> (r: Option<Color>)
        ensures
            r == spec_node_color(*self),
    {
        if self.options.items.len() == 0 {
            None
        } else {
            match self.options.items[0] {
                NodeOption::Color(c) => Some(c),
            }
        }
    }

    /// Renders the node to its single markup line, or fails with the
    /// no-points error exactly when the point sequence is empty.
    pub fn export(&self) -> (r: Result<LatexLines, LatexError>)
        ensures
            export_matches(r, spec_node_export(*self)),
    {
        if self.points.len() == 0 {
            return Err(LatexError::Tikz(TikzError::NoPoints));
        }
        let mut s = String::from_str("\\node[");
        let ghost opts = self.options.items@;
        let ghost ofrag = |o: NodeOption| spec_node_option_text(o);
        proof {
            assert(opts.subrange(0, 0) =~= Seq::<NodeOption>::empty());
        }
        let mut i: usize = 0;
        while i < self.options.items.len()
            invariant
                0 <= i <= opts.len(),
                opts == self.options.items@,
                ofrag == (|o: NodeOption| spec_node_option_text(o)),
                s@ =~= "\\node["@ + concat_map(opts.subrange(0, i as int), ofrag),
            decreases opts.len() - i,
        {
            let frag = self.options.items[i].export();
            s.append(frag.as_str());
            proof {
                lemma_concat_map_take_step(opts, ofrag, i as int);
            }
            i += 1;
        }
        proof {
            assert(opts.subrange(0, opts.len() as int) =~= opts);
            assert(s@ =~= "\\node["@ + spec_node_options_text(opts));
        }
        s.append("] at ");
        let first = self.points[0].render();
        s.append(first.as_str());
        s.append(" {");
        s.append(self.label.as_str());
        s.append("};");
        proof {
            assert(point_models(self.points@)[0] == self.points@[0]@);
            assert(s@ =~= spec_node_line(*self));
        }
        let line = LatexLine::new(s);
        let lines = LatexLines { lines: vec![line] };
        proof {
            assert(lines@ =~= seq![line_at_root(spec_node_line(*self))]);
        }
        Ok(lines)
    }
}

impl AddPoint<Point> for Node {
    fn point(self, point: Point) -> (r: Self)
        ensures
            r.points@ == self.points@.push(point),
            r.options == self.options,
            r.label == self.label,
    {
        self.with_point(point)
    }
}

impl AddOption<NodeOption> for Node {
    fn option(self, option: NodeOption) -> (r: Self)
        ensures
            r.points@ == self.points@,
            r.options.items@ == spec_insert(self.options.items@, option),
            self.options.wf() ==> r.options.wf(),
            r.label == self.label,
    {
        self.with_option(option)
    }
}

impl AddOption<Color> for Node {
    fn option(self, option: Color) -> (r: Self)
        ensures
            r.points@ == self.points@,
            r.options.items@ == spec_insert(self.options.items@, NodeOption::Color(option)),
            self.options.wf() ==> r.options.wf(),
            r.label == self.label,
    {
        self.with_option(NodeOption::Color(option))
    }
}

} // verus!
