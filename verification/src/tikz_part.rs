//! The drawing-part tree: drawable leaves and visibility scopes.  Holds
//! the recursive export and the pre-order colour collection.

use vstd::prelude::*;

use crate::color::{color_vec_contains, dedup_from, lemma_dedup_from_append, Color};
use crate::error::LatexError;
use crate::line::{spec_line_color, spec_line_export, Line};
use crate::lines::{
    append_bumped, bumped_all, export_matches, line_at_root, line_models, spec_wrap, LatexLine,
    LatexLines, LineModel,
};
use crate::node::{spec_node_color, spec_node_export, Node};
use crate::polygon::{spec_polygon_color, spec_polygon_export, Polygon};
use crate::visible::{spec_visible_begin, Visible};

verus! {

/// One part of a drawing: a drawable leaf or a visibility scope of
/// further parts.
#[derive(Debug)]
pub enum TikzPart {
    Node(Node),
    Line(Line),
    Polygon(Polygon),
    Visible(Visible),
}

/// What exporting one drawing part yields.
pub open spec fn spec_tikz_part_export(p: TikzPart) -> Result<Seq<LineModel>, LatexError>
    decreases p,
{
    match p {
        TikzPart::Node(n) => spec_node_export(n),
        TikzPart::Line(l) => spec_line_export(l),
        TikzPart::Polygon(g) => spec_polygon_export(g),
        TikzPart::Visible(v) => spec_wrap(
            spec_visible_begin(v.frames@),
            "}"@,
            spec_tikz_children_lines(v.inner@),
        ),
    }
}

/// What a sequence of children contributes to its container: each
/// child's lines raised by one level, concatenated in order; the first
/// child error wins.
pub open spec fn spec_tikz_children_lines(s: Seq<TikzPart>) -> Result<Seq<LineModel>, LatexError>
    decreases s,
{
    if s.len() == 0 {
        Ok(Seq::empty())
    } else {
        match spec_tikz_part_export(s[0]) {
            Err(e) => Err(e),
            Ok(first) => match spec_tikz_children_lines(s.drop_first()) {
                Err(e) => Err(e),
                Ok(rest) => Ok(bumped_all(first) + rest),
            },
        }
    }
}

/// The nesting depth of a part: how far indentation can grow inside it.
pub open spec fn spec_tikz_part_depth(p: TikzPart) -> nat
    decreases p,
{
    match p {
        TikzPart::Node(_) => 0,
        TikzPart::Line(_) => 0,
        TikzPart::Polygon(_) => 0,
        TikzPart::Visible(v) => 1 + spec_tikz_children_depth(v.inner@),
    }
}

/// The largest nesting depth among the parts of the sequence.
pub open spec fn spec_tikz_children_depth(s: Seq<TikzPart>) -> nat
    decreases s,
{
    if s.len() == 0 {
        0
    } else {
        let d0 = spec_tikz_part_depth(s[0]);
        let dr = spec_tikz_children_depth(s.drop_first());
        if d0 > dr {
            d0
        } else {
            dr
        }
    }
}

/// Every part's depth is bounded by its sequence's depth.
proof fn lemma_tikz_children_depth_bound(s: Seq<TikzPart>, i: int)
    requires
        0 <= i < s.len(),
    ensures
        spec_tikz_part_depth(s[i]) <= spec_tikz_children_depth(s),
    decreases s.len(),
{
    if i > 0 {
        lemma_tikz_children_depth_bound(s.drop_first(), i - 1);
    }
}

/// Exported lines never exceed the part's own depth in indentation.
proof fn lemma_tikz_part_lines_depth(p: TikzPart)
    ensures
        (match spec_tikz_part_export(p) {
            Ok(lines) => forall|i: int|
                0 <= i < lines.len() ==> (#[trigger] lines[i]).indentation
                    <= spec_tikz_part_depth(p),
            Err(_) => true,
        }),
    decreases p,
{
    match p {
        TikzPart::Node(_) => {
        },
        TikzPart::Line(_) => {
        },
        TikzPart::Polygon(_) => {
        },
        TikzPart::Visible(v) => {
            lemma_tikz_children_lines_depth(v.inner@);
        },
    }
}

/// Children's contributed lines never exceed the sequence depth plus
/// the one level the container adds.
pub(crate) proof fn lemma_tikz_children_lines_depth(s: Seq<TikzPart>)
    ensures
        (match spec_tikz_children_lines(s) {
            Ok(body) => forall|i: int|
                0 <= i < body.len() ==> (#[trigger] body[i]).indentation
                    <= spec_tikz_children_depth(s) + 1,
            Err(_) => true,
        }),
    decreases s,
{
    if s.len() > 0 {
        lemma_tikz_part_lines_depth(s[0]);
        lemma_tikz_children_lines_depth(s.drop_first());
    }
}

/// Exporting a concatenation of children exports both parts in order,
/// with the first error winning.
proof fn lemma_tikz_children_append(a: Seq<TikzPart>, b: Seq<TikzPart>)
    ensures
        spec_tikz_children_lines(a + b) == (match spec_tikz_children_lines(a) {
            Err(e) => Err::<Seq<LineModel>, LatexError>(e),
            Ok(la) => match spec_tikz_children_lines(b) {
                Err(e) => Err(e),
                Ok(lb) => Ok(la + lb),
            },
        }),
    decreases a,
{
    if a.len() == 0 {
        assert(a + b =~= b);
        if spec_tikz_children_lines(b) is Ok {
            let lb = spec_tikz_children_lines(b)->Ok_0;
            assert(Seq::<LineModel>::empty() + lb =~= lb);
        }
    } else {
        assert((a + b)[0] == a[0]);
        assert((a + b).drop_first() =~= a.drop_first() + b);
        lemma_tikz_children_append(a.drop_first(), b);
        if spec_tikz_part_export(a[0]) is Ok && spec_tikz_children_lines(a.drop_first()) is Ok
            && spec_tikz_children_lines(b) is Ok {
            let f = bumped_all(spec_tikz_part_export(a[0])->Ok_0);
            let la = spec_tikz_children_lines(a.drop_first())->Ok_0;
            let lb = spec_tikz_children_lines(b)->Ok_0;
            assert(f + (la + lb) =~= (f + la) + lb);
        }
    }
}

/// Renders a sequence of children: each child's lines raised one level,
/// concatenated in order; the first child error aborts the whole run.
pub(crate) fn export_tikz_children(parts: &Vec<TikzPart>) -> (r: Result<Vec<LatexLine>, LatexError>)
    requires
        spec_tikz_children_depth(parts@) < usize::MAX,
    ensures
        (match r {
            Ok(v) => spec_tikz_children_lines(parts@) == Ok::<Seq<LineModel>, LatexError>(
                line_models(v@),
            ),
            Err(e) => spec_tikz_children_lines(parts@) == Err::<Seq<LineModel>, LatexError>(e),
        }),
    decreases parts@,
{
    let mut out: Vec<LatexLine> = Vec::new();
    let ghost all = parts@;
    proof {
        assert(all.subrange(0, 0) =~= Seq::<TikzPart>::empty());
        assert(line_models(out@) =~= Seq::<LineModel>::empty());
    }
    let mut i: usize = 0;
    while i < parts.len()
        invariant
            0 <= i <= all.len(),
            all == parts@,
            spec_tikz_children_depth(all) < usize::MAX,
            spec_tikz_children_lines(all.subrange(0, i as int)) == Ok::<
                Seq<LineModel>,
                LatexError,
            >(line_models(out@)),
        decreases all.len() - i,
    {
        proof {
            lemma_tikz_children_depth_bound(all, i as int);
        }
        let child = &parts[i];
        match child.export() {
            Err(e) => {
                proof {
                    let prefix = all.subrange(0, i as int);
                    let suffix = all.subrange(i as int, all.len() as int);
                    assert(all =~= prefix + suffix);
                    lemma_tikz_children_append(prefix, suffix);
                    assert(suffix[0] == all[i as int]);
                    assert(spec_tikz_children_lines(suffix) == Err::<Seq<LineModel>, LatexError>(
                        e,
                    ));
                }
                return Err(e);
            },
            Ok(lines) => {
                let ghost child_lines = lines@;
                proof {
                    lemma_tikz_part_lines_depth(all[i as int]);
                }
                append_bumped(&mut out, lines);
                proof {
                    let prefix = all.subrange(0, i as int);
                    let single = seq![all[i as int]];
                    assert(prefix + single =~= all.subrange(0, i + 1));
                    lemma_tikz_children_append(prefix, single);
                    assert(single[0] == all[i as int]);
                    assert(single.drop_first() =~= Seq::<TikzPart>::empty());
                    assert(spec_tikz_children_lines(single) == Ok::<Seq<LineModel>, LatexError>(
                        bumped_all(child_lines) + Seq::<LineModel>::empty(),
                    )) by {
                        reveal_with_fuel(spec_tikz_children_lines, 2);
                    }
                    assert(bumped_all(child_lines) + Seq::<LineModel>::empty() =~= bumped_all(
                        child_lines,
                    ));
                }
            },
        }
        i += 1;
    }
    proof {
        assert(all.subrange(0, all.len() as int) =~= all);
    }
    Ok(out)
}

impl TikzPart {
    /// Renders this part: a drawable to its single line, a visibility
    /// scope to its children wrapped in its markers.  The first error
    /// anywhere below aborts the export.
    pub fn export(&self) -> (r: Result<LatexLines, LatexError>)
        requires
            spec_tikz_part_depth(*self) < usize::MAX,
        ensures
            export_matches(r, spec_tikz_part_export(*self)),
        decreases *self,
    {
        match self {
            TikzPart::Node(n) => n.export(),
            TikzPart::Line(l) => l.export(),
            TikzPart::Polygon(g) => g.export(),
            TikzPart::Visible(v) => v.export(),
        }
    }

    /// The pre-order flattening of this part's subtree: the part
    /// itself first, then each scope's children depth-first in
    /// insertion order, every part visited exactly once.
    pub fn iter_full(&self) -> (r: Vec<&TikzPart>)
        ensures
            borrowed_tikz_parts(r@) == spec_tikz_preorder(*self),
    {
        let mut out: Vec<&TikzPart> = Vec::new();
        proof {
            assert(borrowed_tikz_parts(out@) =~= Seq::<TikzPart>::empty());
            assert(Seq::<TikzPart>::empty() + spec_tikz_preorder(*self) =~= spec_tikz_preorder(
                *self,
            ));
        }
        push_tikz_preorder(self, &mut out);
        out
    }

    /// The distinct colours this part uses, each at its first
    /// pre-order occurrence.
    pub fn get_colors(&self) -> (r: Vec<Color>)
        ensures
            r@ == crate::color::dedup_colors(spec_tikz_part_colors(*self)),
    {
        let mut acc: Vec<Color> = Vec::new();
        proof {
            assert(acc@ =~= Seq::<Color>::empty());
        }
        self.collect_colors(&mut acc);
        acc
    }

    /// Folds this part's colours, in pre-order, onto the accumulator,
    /// keeping only the first occurrence of each colour.
    pub fn collect_colors(&self, acc: &mut Vec<Color>)
        ensures
            final(acc)@ == dedup_from(old(acc)@, spec_tikz_part_colors(*self)),
        decreases *self,
    {
        let color = match self {
            TikzPart::Node(n) => n.get_color(),
            TikzPart::Line(l) => l.get_color(),
            TikzPart::Polygon(g) => g.get_color(),
            TikzPart::Visible(v) => {
                collect_tikz_children_colors(&v.inner, acc);
                return ;
            },
        };
        match color {
            None => {
                proof {
                    assert(spec_tikz_part_colors(*self) =~= Seq::<Color>::empty());
                }
            },
            Some(c) => {
                proof {
                    assert(spec_tikz_part_colors(*self) =~= seq![c]);
                }
                let ghost orig = acc@;
                if !color_vec_contains(acc, c) {
                    acc.push(c);
                }
                proof {
                    assert(seq![c].drop_first() =~= Seq::<Color>::empty());
                    assert(acc@ == dedup_from(orig, seq![c])) by {
                        reveal_with_fuel(dedup_from, 2);
                    }
                }
            },
        }
    }
}

/// The pre-order flattening of a part: the part itself, then each
/// scope child's flattening, children in insertion order.
pub open spec fn spec_tikz_preorder(p: TikzPart) -> Seq<TikzPart>
    decreases p,
{
    match p {
        TikzPart::Node(_) => seq![p],
        TikzPart::Line(_) => seq![p],
        TikzPart::Polygon(_) => seq![p],
        TikzPart::Visible(v) => seq![p] + spec_tikz_preorder_children(v.inner@),
    }
}

/// The pre-order flattenings of the parts of a sequence, in order.
pub open spec fn spec_tikz_preorder_children(s: Seq<TikzPart>) -> Seq<TikzPart>
    decreases s,
{
    if s.len() == 0 {
        Seq::empty()
    } else {
        spec_tikz_preorder(s[0]) + spec_tikz_preorder_children(s.drop_first())
    }
}

/// Pre-order flattenings of concatenated sequences concatenate.
proof fn lemma_tikz_preorder_children_append(a: Seq<TikzPart>, b: Seq<TikzPart>)
    ensures
        spec_tikz_preorder_children(a + b) == spec_tikz_preorder_children(a)
            + spec_tikz_preorder_children(b),
    decreases a,
{
    if a.len() == 0 {
        assert(a + b =~= b);
        assert(spec_tikz_preorder_children(a) + spec_tikz_preorder_children(b)
            =~= spec_tikz_preorder_children(b));
    } else {
        assert((a + b)[0] == a[0]);
        assert((a + b).drop_first() =~= a.drop_first() + b);
        lemma_tikz_preorder_children_append(a.drop_first(), b);
        assert(spec_tikz_preorder(a[0]) + (spec_tikz_preorder_children(a.drop_first())
            + spec_tikz_preorder_children(b)) =~= (spec_tikz_preorder(a[0])
            + spec_tikz_preorder_children(a.drop_first())) + spec_tikz_preorder_children(b));
    }
}

/// The parts a sequence of borrowed parts points at.
pub open spec fn borrowed_tikz_parts(s: Seq<&TikzPart>) -> Seq<TikzPart> {
    s.map_values(|q: &TikzPart| *q)
}

fn push_tikz_preorder<'a>(p: &'a TikzPart, out: &mut Vec<&'a TikzPart>)
    ensures
        borrowed_tikz_parts(final(out)@) == borrowed_tikz_parts(old(out)@) + spec_tikz_preorder(
            *p,
        ),
    decreases *p, 1int,
{
    let ghost orig = out@;
    out.push(p);
    proof {
        assert(borrowed_tikz_parts(out@) =~= borrowed_tikz_parts(orig) + seq![*p]);
    }
    match p {
        TikzPart::Visible(v) => {
            push_tikz_preorder_children(&v.inner, out);
            proof {
                assert((borrowed_tikz_parts(orig) + seq![*p]) + spec_tikz_preorder_children(
                    v.inner@,
                ) =~= borrowed_tikz_parts(orig) + spec_tikz_preorder(*p));
            }
        },
        _ => {
            proof {
                assert(borrowed_tikz_parts(orig) + seq![*p] =~= borrowed_tikz_parts(orig)
                    + spec_tikz_preorder(*p));
            }
        },
    }
}

fn push_tikz_preorder_children<'a>(parts: &'a Vec<TikzPart>, out: &mut Vec<&'a TikzPart>)
    ensures
        borrowed_tikz_parts(final(out)@) == borrowed_tikz_parts(old(out)@)
            + spec_tikz_preorder_children(parts@),
    decreases parts@, 0int,
{
    let ghost all = parts@;
    let ghost orig = out@;
    proof {
        assert(all.subrange(0, 0) =~= Seq::<TikzPart>::empty());
        assert(borrowed_tikz_parts(orig) + spec_tikz_preorder_children(all.subrange(0, 0))
            =~= borrowed_tikz_parts(orig));
    }
    let mut i: usize = 0;
    while i < parts.len()
        invariant
            0 <= i <= all.len(),
            all == parts@,
            borrowed_tikz_parts(out@) == borrowed_tikz_parts(orig) + spec_tikz_preorder_children(
                all.subrange(0, i as int),
            ),
        decreases all.len() - i,
    {
        push_tikz_preorder(&parts[i], out);
        proof {
            let prefix = all.subrange(0, i as int);
            let single = seq![all[i as int]];
            assert(prefix + single =~= all.subrange(0, i + 1));
            lemma_tikz_preorder_children_append(prefix, single);
            assert(single[0] == all[i as int]);
            assert(single.drop_first() =~= Seq::<TikzPart>::empty());
            assert(spec_tikz_preorder_children(single) =~= spec_tikz_preorder(
                all[i as int],
            )) by {
                reveal_with_fuel(spec_tikz_preorder_children, 2);
                assert(spec_tikz_preorder(single[0]) + spec_tikz_preorder_children(
                    single.drop_first(),
                ) =~= spec_tikz_preorder(all[i as int]));
            }
            assert((borrowed_tikz_parts(orig) + spec_tikz_preorder_children(prefix))
                + spec_tikz_preorder(all[i as int]) =~= borrowed_tikz_parts(orig)
                + spec_tikz_preorder_children(all.subrange(0, i + 1)));
        }
        i += 1;
    }
    proof {
        assert(all.subrange(0, all.len() as int) =~= all);
    }
}

/// The colours a part uses, in pre-order, duplicates kept.
pub open spec fn spec_tikz_part_colors(p: TikzPart) -> Seq<Color>
    decreases p,
{
    match p {
        TikzPart::Node(n) => (match spec_node_color(n) {
            Some(c) => seq![c],
            None => Seq::empty(),
        }),
        TikzPart::Line(l) => (match spec_line_color(l) {
            Some(c) => seq![c],
            None => Seq::empty(),
        }),
        TikzPart::Polygon(g) => (match spec_polygon_color(g) {
            Some(c) => seq![c],
            None => Seq::empty(),
        }),
        TikzPart::Visible(v) => spec_tikz_children_colors(v.inner@),
    }
}

/// The colours a sequence of parts uses, in order, duplicates kept.
pub open spec fn spec_tikz_children_colors(s: Seq<TikzPart>) -> Seq<Color>
    decreases s,
{
    if s.len() == 0 {
        Seq::empty()
    } else {
        spec_tikz_part_colors(s[0]) + spec_tikz_children_colors(s.drop_first())
    }
}

/// Colour lists of concatenated sequences concatenate.
proof fn lemma_tikz_children_colors_append(a: Seq<TikzPart>, b: Seq<TikzPart>)
    ensures
        spec_tikz_children_colors(a + b) == spec_tikz_children_colors(a)
            + spec_tikz_children_colors(b),
    decreases a,
{
    if a.len() == 0 {
        assert(a + b =~= b);
        assert(spec_tikz_children_colors(a) + spec_tikz_children_colors(b)
            =~= spec_tikz_children_colors(b));
    } else {
        assert((a + b)[0] == a[0]);
        assert((a + b).drop_first() =~= a.drop_first() + b);
        lemma_tikz_children_colors_append(a.drop_first(), b);
        assert(spec_tikz_part_colors(a[0]) + (spec_tikz_children_colors(a.drop_first())
            + spec_tikz_children_colors(b)) =~= (spec_tikz_part_colors(a[0])
            + spec_tikz_children_colors(a.drop_first())) + spec_tikz_children_colors(b));
    }
}

/// Folds the colours of a part sequence, in order, onto the accumulator.
pub(crate) fn collect_tikz_children_colors(parts: &Vec<TikzPart>, acc: &mut Vec<Color>)
    ensures
        final(acc)@ == dedup_from(old(acc)@, spec_tikz_children_colors(parts@)),
    decreases parts@,
{
    let ghost all = parts@;
    let ghost orig = acc@;
    proof {
        assert(all.subrange(0, 0) =~= Seq::<TikzPart>::empty());
    }
    let mut i: usize = 0;
    while i < parts.len()
        invariant
            0 <= i <= all.len(),
            all == parts@,
            acc@ == dedup_from(orig, spec_tikz_children_colors(all.subrange(0, i as int))),
        decreases all.len() - i,
    {
        let child = &parts[i];
        child.collect_colors(acc);
        proof {
            let prefix = all.subrange(0, i as int);
            let single = seq![all[i as int]];
            assert(prefix + single =~= all.subrange(0, i + 1));
            lemma_tikz_children_colors_append(prefix, single);
            assert(single[0] == all[i as int]);
            assert(single.drop_first() =~= Seq::<TikzPart>::empty());
            assert(spec_tikz_children_colors(single) =~= spec_tikz_part_colors(
                all[i as int],
            )) by {
                reveal_with_fuel(spec_tikz_children_colors, 2);
                assert(spec_tikz_children_colors(single.drop_first()) =~= Seq::<Color>::empty());
                assert(spec_tikz_part_colors(single[0]) + Seq::<Color>::empty()
                    =~= spec_tikz_part_colors(all[i as int]));
            }
            lemma_dedup_from_append(
                orig,
                spec_tikz_children_colors(prefix),
                spec_tikz_part_colors(all[i as int]),
            );
        }
        i += 1;
    }
    proof {
        assert(all.subrange(0, all.len() as int) =~= all);
    }
}

/// Whether the part is, or contains anywhere below it, a drawable with
/// an empty point sequence.
pub open spec fn spec_tikz_part_has_empty_drawable(p: TikzPart) -> bool
    decreases p,
{
    match p {
        TikzPart::Node(n) => n.points@.len() == 0,
        TikzPart::Line(l) => l.points@.len() == 0,
        TikzPart::Polygon(g) => g.points@.len() == 0,
        TikzPart::Visible(v) => spec_tikz_children_have_empty_drawable(v.inner@),
    }
}

/// Whether any part of the sequence contains an empty drawable.
pub open spec fn spec_tikz_children_have_empty_drawable(s: Seq<TikzPart>) -> bool
    decreases s,
{
    if s.len() == 0 {
        false
    } else {
        spec_tikz_part_has_empty_drawable(s[0]) || spec_tikz_children_have_empty_drawable(
            s.drop_first(),
        )
    }
}

/// A part's export fails exactly when it contains an empty drawable,
/// and then always with the no-points error.
pub proof fn lemma_tikz_part_export_status(p: TikzPart)
    ensures
        (if spec_tikz_part_has_empty_drawable(p) {
            spec_tikz_part_export(p) == Err::<Seq<LineModel>, LatexError>(
                LatexError::Tikz(crate::error::TikzError::NoPoints),
            )
        } else {
            spec_tikz_part_export(p) is Ok
        }),
    decreases p,
{
    match p {
        TikzPart::Node(_) => {
        },
        TikzPart::Line(_) => {
        },
        TikzPart::Polygon(_) => {
        },
        TikzPart::Visible(v) => {
            lemma_tikz_children_export_status(v.inner@);
        },
    }
}

/// A child sequence's contribution fails exactly when some part of it
/// contains an empty drawable, and then with the no-points error.
pub proof fn lemma_tikz_children_export_status(s: Seq<TikzPart>)
    ensures
        (if spec_tikz_children_have_empty_drawable(s) {
            spec_tikz_children_lines(s) == Err::<Seq<LineModel>, LatexError>(
                LatexError::Tikz(crate::error::TikzError::NoPoints),
            )
        } else {
            spec_tikz_children_lines(s) is Ok
        }),
    decreases s,
{
    if s.len() > 0 {
        lemma_tikz_part_export_status(s[0]);
        lemma_tikz_children_export_status(s.drop_first());
    }
}

impl Visible {
    /// Renders the scope: a begin marker naming the frame indices, the
    /// children's lines raised one level, and a closing marker.
    pub fn export(&self) -> (r: Result<LatexLines, LatexError>)
        requires
            spec_tikz_children_depth(self.inner@) < usize::MAX,
        ensures
            export_matches(
                r,
                spec_wrap(
                    spec_visible_begin(self.frames@),
                    "}"@,
                    spec_tikz_children_lines(self.inner@),
                ),
            ),
        decreases *self,
    {
        match export_tikz_children(&self.inner) {
            Err(e) => Err(e),
            Ok(mut body) => {
                let ghost body_models = line_models(body@);
                let mut out_lines: Vec<LatexLine> = Vec::new();
                out_lines.push(LatexLine::new(self.begin_text()));
                out_lines.append(&mut body);
                out_lines.push(LatexLine::new(String::from_str("}")));
                let out = LatexLines { lines: out_lines };
                proof {
                    assert(out@ =~= seq![line_at_root(spec_visible_begin(self.frames@))]
                        + body_models + seq![line_at_root("}"@)]);
                }
                Ok(out)
            },
        }
    }
}

} // verus!
