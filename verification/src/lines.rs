//! The rendering output type: an ordered buffer of indentation-tagged
//! lines, displayed by prefixing each line with one tab per level.

use vstd::prelude::*;

verus! {

/// The mathematical value of one output line.
pub ghost struct LineModel {
    /// How many indent units stand before the text.
    pub indentation: nat,
    /// The line's characters, without the indent and the terminator.
    pub text: Seq<char>,
}

/// A line whose indentation was raised by one level.
pub open spec fn bumped(l: LineModel) -> LineModel {
    LineModel { indentation: l.indentation + 1, text: l.text }
}

/// A buffer in which every line's indentation was raised by one level.
pub open spec fn bumped_all(s: Seq<LineModel>) -> Seq<LineModel> {
    s.map_values(|l: LineModel| bumped(l))
}

/// A line at indentation zero.
pub open spec fn line_at_root(text: Seq<char>) -> LineModel {
    LineModel { indentation: 0, text }
}

/// One rendered line: `indentation` levels of the indent unit, then the text.
#[derive(Debug)]
pub struct LatexLine {
    pub indentation: usize,
    pub line_content: String,
}

impl View for LatexLine {
    type V = LineModel;

    open spec fn view(&self) -> LineModel {
        LineModel { indentation: self.indentation as nat, text: self.line_content@ }
    }
}

impl LatexLine {
    /// A line at indentation zero.
    pub fn new(line_content: String) -> (r: Self)
        ensures
            r@ == line_at_root(line_content@),
    {
        LatexLine { indentation: 0, line_content }
    }

    /// The displayed form of this line alone: one tab per indentation
    /// level, then the text, without a line terminator.
    pub fn to_text(&self) -> (r: String)
        ensures
            r@ == spec_tabs(self@.indentation) + self@.text,
    {
        let mut out = String::new();
        let mut t: usize = 0;
        while t < self.indentation
            invariant
                0 <= t <= self.indentation,
                out@ =~= spec_tabs(t as nat),
            decreases self.indentation - t,
        {
            out.append("\t");
            t += 1;
        }
        out.append(self.line_content.as_str());
        proof {
            assert(out@ =~= spec_tabs(self@.indentation) + self@.text);
        }
        out
    }
}

/// The models of a sequence of rendered lines.
pub open spec fn line_models(v: Seq<LatexLine>) -> Seq<LineModel> {
    v.map_values(|l: LatexLine| l@)
}

/// The rendering output: an ordered buffer of indentation-tagged lines.
#[derive(Debug)]
pub struct LatexLines {
    pub lines: Vec<LatexLine>,
}

impl View for LatexLines {
    type V = Seq<LineModel>;

    open spec fn view(&self) -> Seq<LineModel> {
        line_models(self.lines@)
    }
}

/// Whether an export result agrees with its mathematical description:
/// the same error, or a buffer of exactly the described lines.
pub open spec fn export_matches(
    r: Result<LatexLines, crate::error::LatexError>,
    s: Result<Seq<LineModel>, crate::error::LatexError>,
) -> bool {
    match (r, s) {
        (Ok(lines), Ok(models)) => lines@ == models,
        (Err(e), Err(f)) => e == f,
        _ => false,
    }
}

/// What a container's export yields: its children's lines, each raised
/// by one level, between a begin and an end marker at the container's
/// own level; a child's error propagates unchanged.
pub open spec fn spec_wrap(
    begin: Seq<char>,
    end: Seq<char>,
    children: Result<Seq<LineModel>, crate::error::LatexError>,
) -> Result<Seq<LineModel>, crate::error::LatexError> {
    match children {
        Err(e) => Err(e),
        Ok(body) => Ok(seq![line_at_root(begin)] + body + seq![line_at_root(end)]),
    }
}

/// `n` copies of the indent unit.
pub open spec fn spec_tabs(n: nat) -> Seq<char>
    decreases n,
{
    if n == 0 {
        Seq::empty()
    } else {
        spec_tabs((n - 1) as nat) + "\t"@
    }
}

/// The displayed form of one line: indent, text, line terminator.
pub open spec fn spec_line_text(l: LineModel) -> Seq<char> {
    spec_tabs(l.indentation) + l.text + "\n"@
}

/// The displayed form of a buffer: its lines' displayed forms in order.
pub open spec fn spec_render(s: Seq<LineModel>) -> Seq<char>
    decreases s.len(),
{
    if s.len() == 0 {
        Seq::empty()
    } else {
        spec_line_text(s[0]) + spec_render(s.drop_first())
    }
}

/// Rendering a concatenation renders both parts in order.
pub proof fn lemma_render_append(s1: Seq<LineModel>, s2: Seq<LineModel>)
    ensures
        spec_render(s1 + s2) == spec_render(s1) + spec_render(s2),
    decreases s1.len(),
{
    if s1.len() == 0 {
        assert(s1 + s2 =~= s2);
        assert(spec_render(s1) + spec_render(s2) =~= spec_render(s2));
    } else {
        lemma_render_append(s1.drop_first(), s2);
        assert((s1 + s2).drop_first() =~= s1.drop_first() + s2);
        assert(spec_line_text(s1[0]) + (spec_render(s1.drop_first()) + spec_render(s2))
            =~= (spec_line_text(s1[0]) + spec_render(s1.drop_first())) + spec_render(s2));
    }
}

impl LatexLines {
    /// An empty buffer.
    pub fn new() -> (r: Self)
        ensures
            r@ == Seq::<LineModel>::empty(),
    {
        let r = LatexLines { lines: Vec::new() };
        proof {
            assert(r@ =~= Seq::<LineModel>::empty());
        }
        r
    }

    /// How many lines the buffer holds.
    pub fn len(&self) -> (r: usize)
        ensures
            r == self@.len(),
    {
        self.lines.len()
    }

    /// The displayed text of the whole buffer: every line preceded by
    /// one tab per indentation level and followed by a line terminator.
    pub fn to_text(&self) -> (r: String)
        ensures
            r@ == spec_render(self@),
    {
        let mut out = String::new();
        proof {
            assert(self@.subrange(0, 0) =~= Seq::<LineModel>::empty());
        }
        let mut i: usize = 0;
        while i < self.lines.len()
            invariant
                0 <= i <= self.lines.len(),
                out@ =~= spec_render(self@.subrange(0, i as int)),
            decreases self.lines.len() - i,
        {
            let ghost prefix = self@.subrange(0, i as int);
            let line = &self.lines[i];
            proof {
                assert(line@ == self@[i as int]);
            }
            let mut t: usize = 0;
            while t < line.indentation
                invariant
                    0 <= t <= line.indentation,
                    out@ =~= spec_render(prefix) + spec_tabs(t as nat),
                decreases line.indentation - t,
            {
                out.append("\t");
                t += 1;
            }
            out.append(line.line_content.as_str());
            out.append("\n");
            proof {
                assert(out@ =~= spec_render(prefix) + spec_line_text(self@[i as int]));
                lemma_render_append(prefix, seq![self@[i as int]]);
                assert(spec_render(seq![self@[i as int]]) == spec_line_text(self@[i as int])
                    + spec_render(Seq::<LineModel>::empty())) by {
                    assert(seq![self@[i as int]].drop_first() =~= Seq::<LineModel>::empty());
                }
                assert(prefix + seq![self@[i as int]] =~= self@.subrange(0, i + 1));
                assert(out@ =~= spec_render(self@.subrange(0, i + 1)));
            }
            i += 1;
        }
        proof {
            assert(self@.subrange(0, self@.len() as int) =~= self@);
        }
        out
    }
}

/// Moves the lines of `src` to the end of `dst`, raising each moved
/// line's indentation by one level.
pub fn append_bumped(dst: &mut Vec<LatexLine>, src: LatexLines)
    requires
        forall|i: int| 0 <= i < src@.len() ==> (#[trigger] src@[i]).indentation < usize::MAX,
    ensures
        line_models(final(dst)@) == line_models(old(dst)@) + bumped_all(src@),
{
    let ghost orig_dst = dst@;
    let ghost orig_lines = src.lines@;
    let ghost orig_src = line_models(orig_lines);
    let mut rest = src.lines;
    let ghost mut k: int = 0;
    proof {
        assert(orig_src == src@);
    }
    loop
        invariant
            0 <= k <= orig_lines.len(),
            orig_src == line_models(orig_lines),
            rest@ =~= orig_lines.subrange(k, orig_lines.len() as int),
            line_models(dst@) =~= line_models(orig_dst) + bumped_all(orig_src.subrange(0, k)),
            forall|i: int|
                0 <= i < orig_src.len() ==> (#[trigger] orig_src[i]).indentation < usize::MAX,
        ensures
            rest@.len() == 0,
        decreases rest@.len(),
    {
        if rest.is_empty() {
            break;
        }
        proof {
            assert(rest@[0] == orig_lines[k]);
            assert(orig_src[k] == orig_lines[k]@);
        }
        let line = rest.remove(0);
        let raised = LatexLine {
            indentation: line.indentation + 1,
            line_content: line.line_content,
        };
        let ghost dst_prev = dst@;
        dst.push(raised);
        proof {
            assert(raised@ == bumped(orig_src[k]));
            assert(rest@ =~= orig_lines.subrange(k + 1, orig_lines.len() as int));
            assert(line_models(dst@) =~= line_models(orig_dst) + bumped_all(
                orig_src.subrange(0, k + 1),
            )) by {
                assert(line_models(dst@) =~= line_models(dst_prev).push(raised@));
                assert(bumped_all(orig_src.subrange(0, k + 1)) =~= bumped_all(
                    orig_src.subrange(0, k),
                ).push(bumped(orig_src[k])));
            }
            k = k + 1;
        }
    }
    proof {
        assert(orig_src.subrange(0, orig_src.len() as int) =~= orig_src);
        assert(line_models(dst@) =~= line_models(orig_dst) + bumped_all(orig_src));
    }
}

} // verus!
