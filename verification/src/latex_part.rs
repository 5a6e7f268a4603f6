//! The document-part tree: pictures and grouping containers, with the
//! wrapping export and whole-tree traversals.

use vstd::prelude::*;

use crate::color::{dedup_from, lemma_dedup_from_append, Color};
use crate::error::LatexError;
use crate::lines::{
    append_bumped, bumped, bumped_all, export_matches, line_at_root, line_models, spec_wrap, LatexLine,
    LatexLines, LineModel,
};
use crate::tikz::{lemma_tikz_lines_depth, spec_tikz_depth, spec_tikz_export, Tikz};
use crate::tikz_part::{collect_tikz_children_colors, spec_tikz_children_colors};

verus! {

/// One part of a document: a picture, a frame, or a centering block.
#[derive(Debug)]
pub enum LatexPart {
    Tikz(Tikz),
    Frame(Vec<LatexPart>),
    Center(Vec<LatexPart>),
}

/// What exporting one document part yields.
pub open spec fn spec_latex_part_export(p: LatexPart) -> Result<Seq<LineModel>, LatexError>
    decreases p,
{
    match p {
        LatexPart::Tikz(t) => spec_tikz_export(t),
        LatexPart::Frame(v) => spec_wrap(
            "\\begin{frame}"@,
            "\\end{frame}"@,
            spec_latex_children_lines(v@),
        ),
        LatexPart::Center(v) => spec_wrap(
            "\\begin{center}"@,
            "\\end{center}"@,
            spec_latex_children_lines(v@),
        ),
    }
}

/// What a sequence of children contributes to its container: each
/// child's lines raised by one level, concatenated in order; the first
/// child error wins.
pub open spec fn spec_latex_children_lines(s: Seq<LatexPart>) -> Result<Seq<LineModel>, LatexError>
    decreases s,
{
    if s.len() == 0 {
        Ok(Seq::empty())
    } else {
        match spec_latex_part_export(s[0]) {
            Err(e) => Err(e),
            Ok(first) => match spec_latex_children_lines(s.drop_first()) {
                Err(e) => Err(e),
                Ok(rest) => Ok(bumped_all(first) + rest),
            },
        }
    }
}

/// The nesting depth of a part: how far indentation can grow inside it.
pub open spec fn spec_latex_part_depth(p: LatexPart) -> nat
    decreases p,
{
    match p {
        LatexPart::Tikz(t) => spec_tikz_depth(t),
        LatexPart::Frame(v) => 1 + spec_latex_children_depth(v@),
        LatexPart::Center(v) => 1 + spec_latex_children_depth(v@),
    }
}

/// The largest nesting depth among the parts of the sequence.
pub open spec fn spec_latex_children_depth(s: Seq<LatexPart>) -> nat
    decreases s,
{
    if s.len() == 0 {
        0
    } else {
        let d0 = spec_latex_part_depth(s[0]);
        let dr = spec_latex_children_depth(s.drop_first());
        if d0 > dr {
            d0
        } else {
            dr
        }
    }
}

/// Every part's depth is bounded by its sequence's depth.
pub(crate) proof fn lemma_latex_children_depth_bound(s: Seq<LatexPart>, i: int)
    requires
        0 <= i < s.len(),
    ensures
        spec_latex_part_depth(s[i]) <= spec_latex_children_depth(s),
    decreases s.len(),
{
    if i > 0 {
        lemma_latex_children_depth_bound(s.drop_first(), i - 1);
    }
}

/// Exported lines never exceed the part's own depth in indentation.
proof fn lemma_latex_part_lines_depth(p: LatexPart)
    ensures
        (match spec_latex_part_export(p) {
            Ok(lines) => forall|i: int|
                0 <= i < lines.len() ==> (#[trigger] lines[i]).indentation
                    <= spec_latex_part_depth(p),
            Err(_) => true,
        }),
    decreases p,
{
    match p {
        LatexPart::Tikz(t) => {
            lemma_tikz_lines_depth(t);
        },
        LatexPart::Frame(v) => {
            lemma_latex_children_lines_depth(v@);
        },
        LatexPart::Center(v) => {
            lemma_latex_children_lines_depth(v@);
        },
    }
}

/// Children's contributed lines never exceed the sequence depth plus
/// the one level the container adds.
pub(crate) proof fn lemma_latex_children_lines_depth(s: Seq<LatexPart>)
    ensures
        (match spec_latex_children_lines(s) {
            Ok(body) => forall|i: int|
                0 <= i < body.len() ==> (#[trigger] body[i]).indentation
                    <= spec_latex_children_depth(s) + 1,
            Err(_) => true,
        }),
    decreases s,
{
    if s.len() > 0 {
        lemma_latex_part_lines_depth(s[0]);
        lemma_latex_children_lines_depth(s.drop_first());
    }
}

/// Exporting a concatenation of children exports both parts in order,
/// with the first error winning.
pub(crate) proof fn lemma_latex_children_append(a: Seq<LatexPart>, b: Seq<LatexPart>)
    ensures
        spec_latex_children_lines(a + b) == (match spec_latex_children_lines(a) {
            Err(e) => Err::<Seq<LineModel>, LatexError>(e),
            Ok(la) => match spec_latex_children_lines(b) {
                Err(e) => Err(e),
                Ok(lb) => Ok(la + lb),
            },
        }),
    decreases a,
{
    if a.len() == 0 {
        assert(a + b =~= b);
        if spec_latex_children_lines(b) is Ok {
            let lb = spec_latex_children_lines(b)->Ok_0;
            assert(Seq::<LineModel>::empty() + lb =~= lb);
        }
    } else {
        assert((a + b)[0] == a[0]);
        assert((a + b).drop_first() =~= a.drop_first() + b);
        lemma_latex_children_append(a.drop_first(), b);
        if spec_latex_part_export(a[0]) is Ok && spec_latex_children_lines(a.drop_first()) is Ok
            && spec_latex_children_lines(b) is Ok {
            let f = bumped_all(spec_latex_part_export(a[0])->Ok_0);
            let la = spec_latex_children_lines(a.drop_first())->Ok_0;
            let lb = spec_latex_children_lines(b)->Ok_0;
            assert(f + (la + lb) =~= (f + la) + lb);
        }
    }
}

/// Renders a sequence of children: each child's lines raised one level,
/// concatenated in order; the first child error aborts the whole run.
pub(crate) fn export_latex_children(parts: &Vec<LatexPart>) -> (r: Result<
    Vec<LatexLine>,
    LatexError,
>)
    requires
        spec_latex_children_depth(parts@) < usize::MAX,
    ensures
        (match r {
            Ok(v) => spec_latex_children_lines(parts@) == Ok::<Seq<LineModel>, LatexError>(
                line_models(v@),
            ),
            Err(e) => spec_latex_children_lines(parts@) == Err::<Seq<LineModel>, LatexError>(e),
        }),
    decreases parts@, 0int,
{
    let mut out: Vec<LatexLine> = Vec::new();
    let ghost all = parts@;
    proof {
        assert(all.subrange(0, 0) =~= Seq::<LatexPart>::empty());
        assert(line_models(out@) =~= Seq::<LineModel>::empty());
    }
    let mut i: usize = 0;
    while i < parts.len()
        invariant
            0 <= i <= all.len(),
            all == parts@,
            spec_latex_children_depth(all) < usize::MAX,
            spec_latex_children_lines(all.subrange(0, i as int)) == Ok::<
                Seq<LineModel>,
                LatexError,
            >(line_models(out@)),
        decreases all.len() - i,
    {
        proof {
            lemma_latex_children_depth_bound(all, i as int);
        }
        let child = &parts[i];
        match child.export() {
            Err(e) => {
                proof {
                    let prefix = all.subrange(0, i as int);
                    let suffix = all.subrange(i as int, all.len() as int);
                    assert(all =~= prefix + suffix);
                    lemma_latex_children_append(prefix, suffix);
                    assert(suffix[0] == all[i as int]);
                    assert(spec_latex_children_lines(suffix) == Err::<
                        Seq<LineModel>,
                        LatexError,
                    >(e));
                }
                return Err(e);
            },
            Ok(lines) => {
                let ghost child_lines = lines@;
                proof {
                    lemma_latex_part_lines_depth(all[i as int]);
                }
                append_bumped(&mut out, lines);
                proof {
                    let prefix = all.subrange(0, i as int);
                    let single = seq![all[i as int]];
                    assert(prefix + single =~= all.subrange(0, i + 1));
                    lemma_latex_children_append(prefix, single);
                    assert(single[0] == all[i as int]);
                    assert(single.drop_first() =~= Seq::<LatexPart>::empty());
                    assert(spec_latex_children_lines(single) == Ok::<Seq<LineModel>, LatexError>(
                        bumped_all(child_lines) + Seq::<LineModel>::empty(),
                    )) by {
                        reveal_with_fuel(spec_latex_children_lines, 2);
                    }
                    assert(bumped_all(child_lines) + Seq::<LineModel>::empty() =~= bumped_all(
                        child_lines,
                    ));
                }
            },
        }
        i += 1;
    }
    proof {
        assert(all.subrange(0, all.len() as int) =~= all);
    }
    Ok(out)
}

/// Wraps the children's lines between a begin and an end marker line,
/// raising the children's indentation by one level.
fn wrap(begin: &str, end: &str, inner: &Vec<LatexPart>) -> (r: Result<LatexLines, LatexError>)
    requires
        spec_latex_children_depth(inner@) < usize::MAX,
    ensures
        export_matches(r, spec_wrap(begin@, end@, spec_latex_children_lines(inner@))),
    decreases inner@, 1int,
{
    match export_latex_children(inner) {
        Err(e) => Err(e),
        Ok(mut body) => {
            let ghost body_models = line_models(body@);
            let mut out_lines: Vec<LatexLine> = Vec::new();
            out_lines.push(LatexLine::new(String::from_str(begin)));
            out_lines.append(&mut body);
            out_lines.push(LatexLine::new(String::from_str(end)));
            let out = LatexLines { lines: out_lines };
            proof {
                assert(out@ =~= seq![line_at_root(begin@)] + body_models + seq![
                    line_at_root(end@),
                ]);
            }
            Ok(out)
        },
    }
}

impl LatexPart {
    /// Renders this part: a picture through its own export, a container
    /// by wrapping its children between its markers.  The first error
    /// anywhere below aborts the export.
    pub fn export(&self) -> (r: Result<LatexLines, LatexError>)
        requires
            spec_latex_part_depth(*self) < usize::MAX,
        ensures
            export_matches(r, spec_latex_part_export(*self)),
        decreases *self, 2int,
    {
        match self {
            LatexPart::Tikz(t) => t.export(),
            LatexPart::Frame(inner) => wrap("\\begin{frame}", "\\end{frame}", inner),
            LatexPart::Center(inner) => wrap("\\begin{center}", "\\end{center}", inner),
        }
    }

    /// Whether this part is, or contains anywhere below it, a picture.
    pub fn has_tikz(&self) -> (r: bool)
        ensures
            r == spec_latex_part_has_tikz(*self),
        decreases *self,
    {
        match self {
            LatexPart::Tikz(_) => true,
            LatexPart::Frame(inner) => latex_children_have_tikz(inner),
            LatexPart::Center(inner) => latex_children_have_tikz(inner),
        }
    }

    /// The pre-order flattening of this part's subtree: the part
    /// itself first, then each container's children depth-first in
    /// insertion order, every part visited exactly once.
    pub fn iter_full(&self) -> (r: Vec<&LatexPart>)
        ensures
            borrowed_parts(r@) == spec_latex_preorder(*self),
    {
        let mut out: Vec<&LatexPart> = Vec::new();
        proof {
            assert(borrowed_parts(out@) =~= Seq::<LatexPart>::empty());
            assert(Seq::<LatexPart>::empty() + spec_latex_preorder(*self) =~= spec_latex_preorder(
                *self,
            ));
        }
        push_latex_preorder(self, &mut out);
        out
    }

    /// Folds this part's colours, in pre-order, onto the accumulator,
    /// keeping only the first occurrence of each colour.
    pub fn collect_colors(&self, acc: &mut Vec<Color>)
        ensures
            final(acc)@ == dedup_from(old(acc)@, spec_latex_part_colors(*self)),
        decreases *self,
    {
        match self {
            LatexPart::Tikz(t) => collect_tikz_children_colors(&t.parts, acc),
            LatexPart::Frame(inner) => collect_latex_children_colors(inner, acc),
            LatexPart::Center(inner) => collect_latex_children_colors(inner, acc),
        }
    }
}

/// The pre-order flattening of a part: the part itself, then each
/// child's flattening, children in insertion order.
pub open spec fn spec_latex_preorder(p: LatexPart) -> Seq<LatexPart>
    decreases p,
{
    match p {
        LatexPart::Tikz(_) => seq![p],
        LatexPart::Frame(v) => seq![p] + spec_latex_preorder_children(v@),
        LatexPart::Center(v) => seq![p] + spec_latex_preorder_children(v@),
    }
}

/// The pre-order flattenings of the parts of a sequence, in order.
pub open spec fn spec_latex_preorder_children(s: Seq<LatexPart>) -> Seq<LatexPart>
    decreases s,
{
    if s.len() == 0 {
        Seq::empty()
    } else {
        spec_latex_preorder(s[0]) + spec_latex_preorder_children(s.drop_first())
    }
}

/// Pre-order flattenings of concatenated sequences concatenate.
proof fn lemma_latex_preorder_children_append(a: Seq<LatexPart>, b: Seq<LatexPart>)
    ensures
        spec_latex_preorder_children(a + b) == spec_latex_preorder_children(a)
            + spec_latex_preorder_children(b),
    decreases a,
{
    if a.len() == 0 {
        assert(a + b =~= b);
        assert(spec_latex_preorder_children(a) + spec_latex_preorder_children(b)
            =~= spec_latex_preorder_children(b));
    } else {
        assert((a + b)[0] == a[0]);
        assert((a + b).drop_first() =~= a.drop_first() + b);
        lemma_latex_preorder_children_append(a.drop_first(), b);
        assert(spec_latex_preorder(a[0]) + (spec_latex_preorder_children(a.drop_first())
            + spec_latex_preorder_children(b)) =~= (spec_latex_preorder(a[0])
            + spec_latex_preorder_children(a.drop_first())) + spec_latex_preorder_children(b));
    }
}

/// The parts a sequence of borrowed parts points at.
pub open spec fn borrowed_parts(s: Seq<&LatexPart>) -> Seq<LatexPart> {
    s.map_values(|q: &LatexPart| *q)
}

fn push_latex_preorder<'a>(p: &'a LatexPart, out: &mut Vec<&'a LatexPart>)
    ensures
        borrowed_parts(final(out)@) == borrowed_parts(old(out)@) + spec_latex_preorder(*p),
    decreases *p, 1int,
{
    let ghost orig = out@;
    out.push(p);
    proof {
        assert(borrowed_parts(out@) =~= borrowed_parts(orig) + seq![*p]);
    }
    match p {
        LatexPart::Tikz(_) => {
            proof {
                assert(borrowed_parts(orig) + seq![*p] =~= borrowed_parts(orig)
                    + spec_latex_preorder(*p));
            }
        },
        LatexPart::Frame(v) => {
            push_latex_preorder_children(v, out);
            proof {
                assert((borrowed_parts(orig) + seq![*p]) + spec_latex_preorder_children(v@)
                    =~= borrowed_parts(orig) + spec_latex_preorder(*p));
            }
        },
        LatexPart::Center(v) => {
            push_latex_preorder_children(v, out);
            proof {
                assert((borrowed_parts(orig) + seq![*p]) + spec_latex_preorder_children(v@)
                    =~= borrowed_parts(orig) + spec_latex_preorder(*p));
            }
        },
    }
}

fn push_latex_preorder_children<'a>(parts: &'a Vec<LatexPart>, out: &mut Vec<&'a LatexPart>)
    ensures
        borrowed_parts(final(out)@) == borrowed_parts(old(out)@) + spec_latex_preorder_children(
            parts@,
        ),
    decreases parts@, 0int,
{
    let ghost all = parts@;
    let ghost orig = out@;
    proof {
        assert(all.subrange(0, 0) =~= Seq::<LatexPart>::empty());
        assert(borrowed_parts(orig) + spec_latex_preorder_children(all.subrange(0, 0))
            =~= borrowed_parts(orig));
    }
    let mut i: usize = 0;
    while i < parts.len()
        invariant
            0 <= i <= all.len(),
            all == parts@,
            borrowed_parts(out@) == borrowed_parts(orig) + spec_latex_preorder_children(
                all.subrange(0, i as int),
            ),
        decreases all.len() - i,
    {
        push_latex_preorder(&parts[i], out);
        proof {
            let prefix = all.subrange(0, i as int);
            let single = seq![all[i as int]];
            assert(prefix + single =~= all.subrange(0, i + 1));
            lemma_latex_preorder_children_append(prefix, single);
            assert(single[0] == all[i as int]);
            assert(single.drop_first() =~= Seq::<LatexPart>::empty());
            assert(spec_latex_preorder_children(single) =~= spec_latex_preorder(
                all[i as int],
            )) by {
                reveal_with_fuel(spec_latex_preorder_children, 2);
                assert(spec_latex_preorder(single[0]) + spec_latex_preorder_children(
                    single.drop_first(),
                ) =~= spec_latex_preorder(all[i as int]));
            }
            assert((borrowed_parts(orig) + spec_latex_preorder_children(prefix))
                + spec_latex_preorder(all[i as int]) =~= borrowed_parts(orig)
                + spec_latex_preorder_children(all.subrange(0, i + 1)));
        }
        i += 1;
    }
    proof {
        assert(all.subrange(0, all.len() as int) =~= all);
    }
}

/// Whether this part is, or contains anywhere below it, a picture.
pub open spec fn spec_latex_part_has_tikz(p: LatexPart) -> bool
    decreases p,
{
    match p {
        LatexPart::Tikz(_) => true,
        LatexPart::Frame(v) => spec_latex_children_have_tikz(v@),
        LatexPart::Center(v) => spec_latex_children_have_tikz(v@),
    }
}

/// Whether any part of the sequence contains a picture.
pub open spec fn spec_latex_children_have_tikz(s: Seq<LatexPart>) -> bool
    decreases s,
{
    if s.len() == 0 {
        false
    } else {
        spec_latex_part_has_tikz(s[0]) || spec_latex_children_have_tikz(s.drop_first())
    }
}

/// A sequence contains a picture exactly when one of its parts does.
pub(crate) proof fn lemma_latex_children_have_tikz_iff(s: Seq<LatexPart>)
    ensures
        spec_latex_children_have_tikz(s) <==> (exists|i: int|
            0 <= i < s.len() && spec_latex_part_has_tikz(#[trigger] s[i])),
    decreases s,
{
    if s.len() > 0 {
        lemma_latex_children_have_tikz_iff(s.drop_first());
        if spec_latex_children_have_tikz(s) {
            if spec_latex_part_has_tikz(s[0]) {
            } else {
                let i = choose|i: int|
                    0 <= i < s.drop_first().len() && spec_latex_part_has_tikz(
                        #[trigger] s.drop_first()[i],
                    );
                assert(s[i + 1] == s.drop_first()[i]);
            }
        }
        if exists|i: int| 0 <= i < s.len() && spec_latex_part_has_tikz(#[trigger] s[i]) {
            let i = choose|i: int| 0 <= i < s.len() && spec_latex_part_has_tikz(#[trigger] s[i]);
            if i > 0 {
                assert(s.drop_first()[i - 1] == s[i]);
            }
        }
    }
}

/// Decides whether any part of the sequence contains a picture.
pub(crate) fn latex_children_have_tikz(parts: &Vec<LatexPart>) -> (r: bool)
    ensures
        r == spec_latex_children_have_tikz(parts@),
    decreases parts@,
{
    let ghost all = parts@;
    let mut i: usize = 0;
    while i < parts.len()
        invariant
            0 <= i <= all.len(),
            all == parts@,
            forall|j: int| 0 <= j < i ==> !spec_latex_part_has_tikz(#[trigger] all[j]),
        decreases all.len() - i,
    {
        let child = &parts[i];
        if child.has_tikz() {
            proof {
                lemma_latex_children_have_tikz_iff(all);
            }
            return true;
        }
        i += 1;
    }
    proof {
        lemma_latex_children_have_tikz_iff(all);
    }
    false
}

/// The colours a part uses, in pre-order, duplicates kept.
pub open spec fn spec_latex_part_colors(p: LatexPart) -> Seq<Color>
    decreases p,
{
    match p {
        LatexPart::Tikz(t) => spec_tikz_children_colors(t.parts@),
        LatexPart::Frame(v) => spec_latex_children_colors(v@),
        LatexPart::Center(v) => spec_latex_children_colors(v@),
    }
}

/// The colours a sequence of parts uses, in order, duplicates kept.
pub open spec fn spec_latex_children_colors(s: Seq<LatexPart>) -> Seq<Color>
    decreases s,
{
    if s.len() == 0 {
        Seq::empty()
    } else {
        spec_latex_part_colors(s[0]) + spec_latex_children_colors(s.drop_first())
    }
}

/// Colour lists of concatenated sequences concatenate.
proof fn lemma_latex_children_colors_append(a: Seq<LatexPart>, b: Seq<LatexPart>)
    ensures
        spec_latex_children_colors(a + b) == spec_latex_children_colors(a)
            + spec_latex_children_colors(b),
    decreases a,
{
    if a.len() == 0 {
        assert(a + b =~= b);
        assert(spec_latex_children_colors(a) + spec_latex_children_colors(b)
            =~= spec_latex_children_colors(b));
    } else {
        assert((a + b)[0] == a[0]);
        assert((a + b).drop_first() =~= a.drop_first() + b);
        lemma_latex_children_colors_append(a.drop_first(), b);
        assert(spec_latex_part_colors(a[0]) + (spec_latex_children_colors(a.drop_first())
            + spec_latex_children_colors(b)) =~= (spec_latex_part_colors(a[0])
            + spec_latex_children_colors(a.drop_first())) + spec_latex_children_colors(b));
    }
}

/// Folds the colours of a part sequence, in order, onto the accumulator.
pub(crate) fn collect_latex_children_colors(parts: &Vec<LatexPart>, acc: &mut Vec<Color>)
    ensures
        final(acc)@ == dedup_from(old(acc)@, spec_latex_children_colors(parts@)),
    decreases parts@,
{
    let ghost all = parts@;
    let ghost orig = acc@;
    proof {
        assert(all.subrange(0, 0) =~= Seq::<LatexPart>::empty());
    }
    let mut i: usize = 0;
    while i < parts.len()
        invariant
            0 <= i <= all.len(),
            all == parts@,
            acc@ == dedup_from(orig, spec_latex_children_colors(all.subrange(0, i as int))),
        decreases all.len() - i,
    {
        let child = &parts[i];
        child.collect_colors(acc);
        proof {
            let prefix = all.subrange(0, i as int);
            let single = seq![all[i as int]];
            assert(prefix + single =~= all.subrange(0, i + 1));
            lemma_latex_children_colors_append(prefix, single);
            assert(single[0] == all[i as int]);
            assert(single.drop_first() =~= Seq::<LatexPart>::empty());
            assert(spec_latex_children_colors(single) =~= spec_latex_part_colors(
                all[i as int],
            )) by {
                reveal_with_fuel(spec_latex_children_colors, 2);
                assert(spec_latex_children_colors(single.drop_first()) =~= Seq::<
                    Color,
                >::empty());
                assert(spec_latex_part_colors(single[0]) + Seq::<Color>::empty()
                    =~= spec_latex_part_colors(all[i as int]));
            }
            lemma_dedup_from_append(
                orig,
                spec_latex_children_colors(prefix),
                spec_latex_part_colors(all[i as int]),
            );
        }
        i += 1;
    }
    proof {
        assert(all.subrange(0, all.len() as int) =~= all);
    }
}

/// Whether every numeric option in the part's subtree names a finite
/// number, so that no option rendering fails.
pub open spec fn spec_latex_part_options_finite(p: LatexPart) -> bool
    decreases p,
{
    match p {
        LatexPart::Tikz(t) => crate::tikz::spec_tikz_options_text(t.options.items@) is Ok,
        LatexPart::Frame(v) => spec_latex_children_options_finite(v@),
        LatexPart::Center(v) => spec_latex_children_options_finite(v@),
    }
}

/// Whether every numeric option anywhere in the sequence is finite.
pub open spec fn spec_latex_children_options_finite(s: Seq<LatexPart>) -> bool
    decreases s,
{
    if s.len() == 0 {
        true
    } else {
        spec_latex_part_options_finite(s[0]) && spec_latex_children_options_finite(
            s.drop_first(),
        )
    }
}

/// Whether the part contains anywhere below it a drawable with an
/// empty point sequence.
pub open spec fn spec_latex_part_has_empty_drawable(p: LatexPart) -> bool
    decreases p,
{
    match p {
        LatexPart::Tikz(t) => crate::tikz_part::spec_tikz_children_have_empty_drawable(
            t.parts@,
        ),
        LatexPart::Frame(v) => spec_latex_children_have_empty_drawable(v@),
        LatexPart::Center(v) => spec_latex_children_have_empty_drawable(v@),
    }
}

/// Whether any part of the sequence contains an empty drawable.
pub open spec fn spec_latex_children_have_empty_drawable(s: Seq<LatexPart>) -> bool
    decreases s,
{
    if s.len() == 0 {
        false
    } else {
        spec_latex_part_has_empty_drawable(s[0]) || spec_latex_children_have_empty_drawable(
            s.drop_first(),
        )
    }
}

/// When every numeric option is finite, a part's export fails exactly
/// when it contains an empty drawable, and then always with the
/// no-points error.
pub proof fn lemma_latex_part_export_status(p: LatexPart)
    requires
        spec_latex_part_options_finite(p),
    ensures
        (if spec_latex_part_has_empty_drawable(p) {
            spec_latex_part_export(p) == Err::<Seq<LineModel>, LatexError>(
                LatexError::Tikz(crate::error::TikzError::NoPoints),
            )
        } else {
            spec_latex_part_export(p) is Ok
        }),
    decreases p,
{
    match p {
        LatexPart::Tikz(t) => {
            crate::tikz_part::lemma_tikz_children_export_status(t.parts@);
        },
        LatexPart::Frame(v) => {
            lemma_latex_children_export_status(v@);
        },
        LatexPart::Center(v) => {
            lemma_latex_children_export_status(v@);
        },
    }
}

/// When every numeric option is finite, a child sequence's contribution
/// fails exactly when some part contains an empty drawable, and then
/// with the no-points error.
pub proof fn lemma_latex_children_export_status(s: Seq<LatexPart>)
    requires
        spec_latex_children_options_finite(s),
    ensures
        (if spec_latex_children_have_empty_drawable(s) {
            spec_latex_children_lines(s) == Err::<Seq<LineModel>, LatexError>(
                LatexError::Tikz(crate::error::TikzError::NoPoints),
            )
        } else {
            spec_latex_children_lines(s) is Ok
        }),
    decreases s,
{
    if s.len() > 0 {
        lemma_latex_part_export_status(s[0]);
        lemma_latex_children_export_status(s.drop_first());
    }
}

/// Where a child's contribution starts inside its container's body:
/// after the contributions of the earlier children.
pub open spec fn spec_child_offset(s: Seq<LatexPart>, j: int) -> int
    decreases j,
{
    if j <= 0 {
        0
    } else {
        spec_child_offset(s, j - 1) + (match spec_latex_part_export(s[j - 1]) {
            Ok(ls) => ls.len() as int,
            Err(_) => 0,
        })
    }
}

proof fn lemma_child_offset_drop(s: Seq<LatexPart>, j: int)
    requires
        1 <= j <= s.len(),
        s.len() > 0,
    ensures
        spec_child_offset(s, j) == (match spec_latex_part_export(s[0]) {
            Ok(ls) => ls.len() as int,
            Err(_) => 0,
        }) + spec_child_offset(s.drop_first(), j - 1),
    decreases j,
{
    reveal_with_fuel(spec_child_offset, 2);
    if j > 1 {
        lemma_child_offset_drop(s, j - 1);
        assert(s.drop_first()[j - 2] == s[j - 1]);
    }
}

/// When a child sequence's contribution succeeds, every child's own
/// export succeeds too.
pub proof fn lemma_latex_children_ok_parts_ok(s: Seq<LatexPart>, j: int)
    requires
        spec_latex_children_lines(s) is Ok,
        0 <= j < s.len(),
    ensures
        spec_latex_part_export(s[j]) is Ok,
    decreases s,
{
    if j > 0 {
        lemma_latex_children_ok_parts_ok(s.drop_first(), j - 1);
        assert(s.drop_first()[j - 1] == s[j]);
    }
}

/// Indentation monotonicity: inside a container's body, every line a
/// child contributes is that child's own exported line with its
/// indentation raised by exactly one, at the child's offset.
pub proof fn lemma_indentation_monotonic(s: Seq<LatexPart>, j: int, i: int)
    requires
        spec_latex_children_lines(s) is Ok,
        0 <= j < s.len(),
        0 <= i < spec_latex_part_export(s[j])->Ok_0.len(),
    ensures
        spec_latex_part_export(s[j]) is Ok,
        0 <= spec_child_offset(s, j) + i < spec_latex_children_lines(s)->Ok_0.len(),
        spec_latex_children_lines(s)->Ok_0[spec_child_offset(s, j) + i] == bumped(
            spec_latex_part_export(s[j])->Ok_0[i],
        ),
    decreases s,
{
    lemma_latex_children_ok_parts_ok(s, j);
    let first = spec_latex_part_export(s[0])->Ok_0;
    let rest = spec_latex_children_lines(s.drop_first())->Ok_0;
    if j == 0 {
        assert(spec_child_offset(s, 0) == 0);
        assert((bumped_all(first) + rest)[i] == bumped(first[i]));
    } else {
        lemma_indentation_monotonic(s.drop_first(), j - 1, i);
        assert(s.drop_first()[j - 1] == s[j]);
        lemma_child_offset_drop(s, j);
        let off = spec_child_offset(s.drop_first(), j - 1);
        assert((bumped_all(first) + rest)[first.len() + off + i] == rest[off + i]);
    }
}

/// An empty frame exports exactly its begin and end markers, both at
/// the container's own level.
pub proof fn lemma_empty_frame(p: LatexPart)
    requires
        p matches LatexPart::Frame(inner) && inner@.len() == 0,
    ensures
        spec_latex_part_export(p) == Ok::<Seq<LineModel>, LatexError>(
            seq![line_at_root("\\begin{frame}"@), line_at_root("\\end{frame}"@)],
        ),
{
    let inner = p->Frame_0;
    assert(spec_latex_children_lines(inner@) == Ok::<Seq<LineModel>, LatexError>(
        Seq::<LineModel>::empty(),
    ));
    assert(seq![line_at_root("\\begin{frame}"@)] + Seq::<LineModel>::empty() + seq![
        line_at_root("\\end{frame}"@),
    ] =~= seq![line_at_root("\\begin{frame}"@), line_at_root("\\end{frame}"@)]);
}

/// An empty centering block exports exactly its begin and end markers,
/// both at the container's own level.
pub proof fn lemma_empty_center(p: LatexPart)
    requires
        p matches LatexPart::Center(inner) && inner@.len() == 0,
    ensures
        spec_latex_part_export(p) == Ok::<Seq<LineModel>, LatexError>(
            seq![line_at_root("\\begin{center}"@), line_at_root("\\end{center}"@)],
        ),
{
    let inner = p->Center_0;
    assert(spec_latex_children_lines(inner@) == Ok::<Seq<LineModel>, LatexError>(
        Seq::<LineModel>::empty(),
    ));
    assert(seq![line_at_root("\\begin{center}"@)] + Seq::<LineModel>::empty() + seq![
        line_at_root("\\end{center}"@),
    ] =~= seq![line_at_root("\\begin{center}"@), line_at_root("\\end{center}"@)]);
}

} // verus!
