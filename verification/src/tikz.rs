//! The picture container: an ordered sequence of drawing parts plus
//! picture-wide options, rendered between picture markers.

use vstd::prelude::*;

use crate::color::{dedup_colors, Color};
use crate::error::{LatexError, TikzError};
use crate::lines::{
    export_matches, line_at_root, line_models, spec_wrap, LatexLine, LatexLines, LineModel,
};
use crate::options::{spec_insert, OptionKind, OptionSet};
use crate::text::{is_finite_decimal, str_is_finite_decimal};
use crate::tikz_part::{
    collect_tikz_children_colors, export_tikz_children, spec_tikz_children_colors,
    spec_tikz_children_depth, spec_tikz_children_lines, TikzPart,
};

verus! {

/// A picture-wide styling option; set identity is the variant, not the
/// payload.
#[derive(Debug, Clone)]
pub enum TikzOption {
    /// A scale factor, carried as the decimal numeral that renders it.
    Scale(String),
}

impl OptionKind for TikzOption {
    open spec fn same_kind(self, other: Self) -> bool {
        match (self, other) {
            (TikzOption::Scale(_), TikzOption::Scale(_)) => true,
        }
    }

    proof fn lemma_same_kind_refl(self) {
    }

    proof fn lemma_same_kind_sym(self, other: Self) {
    }

    proof fn lemma_same_kind_trans(self, mid: Self, other: Self) {
    }

    fn kind_eq(&self, other: &Self) -> (r: bool) {
        match (self, other) {
            (TikzOption::Scale(_), TikzOption::Scale(_)) => true,
        }
    }
}

/// The rendered fragment of one picture option, or the non-finite
/// error when a numeric payload does not name a finite number.
pub open spec fn spec_tikz_option_text(o: TikzOption) -> Result<Seq<char>, LatexError> {
    match o {
        TikzOption::Scale(s) => if is_finite_decimal(s@) {
            Ok("scale="@ + s@)
        } else {
            Err(LatexError::Tikz(TikzError::NotFiniteFloat))
        },
    }
}

/// The concatenated fragments of a picture option sequence; the first
/// option error wins.
pub open spec fn spec_tikz_options_text(s: Seq<TikzOption>) -> Result<Seq<char>, LatexError>
    decreases s.len(),
{
    if s.len() == 0 {
        Ok(Seq::empty())
    } else {
        match spec_tikz_option_text(s[0]) {
            Err(e) => Err(e),
            Ok(first) => match spec_tikz_options_text(s.drop_first()) {
                Err(e) => Err(e),
                Ok(rest) => Ok(first + rest),
            },
        }
    }
}

impl TikzOption {
    /// The option's rendered fragment, e.g. `scale=0.5`; a scale whose
    /// numeral does not name a finite number is rejected.
    pub fn export(&self) -> (r: Result<String, LatexError>)
        ensures
            (match (r, spec_tikz_option_text(*self)) {
                (Ok(t), Ok(m)) => t@ == m,
                (Err(e), Err(f)) => e == f,
                _ => false,
            }),
    {
        match self {
            TikzOption::Scale(scale) => {
                if str_is_finite_decimal(scale.as_str()) {
                    let mut s = String::from_str("scale=");
                    s.append(scale.as_str());
                    Ok(s)
                } else {
                    Err(LatexError::Tikz(TikzError::NotFiniteFloat))
                }
            },
        }
    }
}

/// Option fragments of concatenated sequences concatenate, the first
/// error winning.
proof fn lemma_tikz_options_text_append(a: Seq<TikzOption>, b: Seq<TikzOption>)
    ensures
        spec_tikz_options_text(a + b) == (match spec_tikz_options_text(a) {
            Err(e) => Err::<Seq<char>, LatexError>(e),
            Ok(fa) => match spec_tikz_options_text(b) {
                Err(e) => Err(e),
                Ok(fb) => Ok(fa + fb),
            },
        }),
    decreases a.len(),
{
    if a.len() == 0 {
        assert(a + b =~= b);
        if spec_tikz_options_text(b) is Ok {
            let fb = spec_tikz_options_text(b)->Ok_0;
            assert(Seq::<char>::empty() + fb =~= fb);
        }
    } else {
        assert((a + b)[0] == a[0]);
        assert((a + b).drop_first() =~= a.drop_first() + b);
        lemma_tikz_options_text_append(a.drop_first(), b);
        if spec_tikz_option_text(a[0]) is Ok && spec_tikz_options_text(a.drop_first()) is Ok
            && spec_tikz_options_text(b) is Ok {
            let f = spec_tikz_option_text(a[0])->Ok_0;
            let fa = spec_tikz_options_text(a.drop_first())->Ok_0;
            let fb = spec_tikz_options_text(b)->Ok_0;
            assert(f + (fa + fb) =~= (f + fa) + fb);
        }
    }
}

/// A picture's exported lines never exceed its depth in indentation.
pub(crate) proof fn lemma_tikz_lines_depth(t: Tikz)
    ensures
        (match spec_tikz_export(t) {
            Ok(lines) => forall|i: int|
                0 <= i < lines.len() ==> (#[trigger] lines[i]).indentation <= spec_tikz_depth(t),
            Err(_) => true,
        }),
{
    crate::tikz_part::lemma_tikz_children_lines_depth(t.parts@);
}

/// A picture: an ordered sequence of drawing parts plus picture-wide
/// options.
#[derive(Debug)]
pub struct Tikz {
    pub parts: Vec<TikzPart>,
    pub options: OptionSet<TikzOption>,
}

/// The begin marker of a picture, holding its rendered options.
pub open spec fn spec_tikz_begin(options_text: Seq<char>) -> Seq<char> {
    "\\begin{tikzpicture}["@ + options_text + "]"@
}

/// What exporting a picture yields: option rendering first (its error
/// wins), then the children wrapped between the picture markers.
pub open spec fn spec_tikz_export(t: Tikz) -> Result<Seq<LineModel>, LatexError> {
    match spec_tikz_options_text(t.options.items@) {
        Err(e) => Err(e),
        Ok(ot) => spec_wrap(
            spec_tikz_begin(ot),
            "\\end{tikzpicture}"@,
            spec_tikz_children_lines(t.parts@),
        ),
    }
}

/// The nesting depth of a picture: one more than its deepest part.
pub open spec fn spec_tikz_depth(t: Tikz) -> nat {
    1 + spec_tikz_children_depth(t.parts@)
}

impl Tikz {
    /// A picture with no parts and no options.
    pub fn new() -> (r: Self)
        ensures
            r.parts@ == Seq::<TikzPart>::empty(),
            r.options.items@ == Seq::<TikzOption>::empty(),
            r.options.wf(),
    {
        let r = Tikz { parts: Vec::new(), options: OptionSet::new() };
        proof {
            assert(r.parts@ =~= Seq::<TikzPart>::empty());
        }
        r
    }

    /// Appends a part; parts keep their insertion order.
    pub fn part(self, part: TikzPart) -> (r: Self)
        ensures
            r.parts@ == self.parts@.push(part),
            r.options == self.options,
    {
        let mut s = self;
        s.parts.push(part);
        s
    }

    /// Inserts an option, replacing a present option of the same kind.
    pub fn option(self, option: TikzOption) -> (r: Self)
        ensures
            r.parts@ == self.parts@,
            r.options.items@ == spec_insert(self.options.items@, option),
            self.options.wf() ==> r.options.wf(),
    {
        let mut s = self;
        s.options.insert(option);
        s
    }

    /// The distinct colours used anywhere in the picture, each at its
    /// first pre-order occurrence.
    pub fn get_colors(&self) -> (r: Vec<Color>)
        ensures
            r@ == dedup_colors(spec_tikz_children_colors(self.parts@)),
    {
        let mut acc: Vec<Color> = Vec::new();
        proof {
            assert(acc@ =~= Seq::<Color>::empty());
        }
        collect_tikz_children_colors(&self.parts, &mut acc);
        acc
    }

    /// Renders the picture: a begin marker holding the rendered
    /// options, the parts' lines raised one level, and an end marker.
    /// An option error wins over any part error.
    pub fn export(&self) -> (r: Result<LatexLines, LatexError>)
        requires
            spec_tikz_children_depth(self.parts@) < usize::MAX,
        ensures
            export_matches(r, spec_tikz_export(*self)),
    {
        let mut first = String::from_str("\\begin{tikzpicture}[");
        let ghost opts = self.options.items@;
        proof {
            assert(opts.subrange(0, 0) =~= Seq::<TikzOption>::empty());
        }
        let mut i: usize = 0;
        while i < self.options.items.len()
            invariant
                0 <= i <= opts.len(),
                opts == self.options.items@,
                spec_tikz_options_text(opts.subrange(0, i as int)) is Ok,
                first@ =~= "\\begin{tikzpicture}["@ + spec_tikz_options_text(
                    opts.subrange(0, i as int),
                )->Ok_0,
            decreases opts.len() - i,
        {
            let ghost prefix = opts.subrange(0, i as int);
            match self.options.items[i].export() {
                Err(e) => {
                    proof {
                        let suffix = opts.subrange(i as int, opts.len() as int);
                        assert(opts =~= prefix + suffix);
                        lemma_tikz_options_text_append(prefix, suffix);
                        assert(suffix[0] == opts[i as int]);
                        assert(spec_tikz_options_text(suffix) == Err::<Seq<char>, LatexError>(e));
                    }
                    return Err(e);
                },
                Ok(frag) => {
                    first.append(frag.as_str());
                    proof {
                        let single = seq![opts[i as int]];
                        assert(prefix + single =~= opts.subrange(0, i + 1));
                        lemma_tikz_options_text_append(prefix, single);
                        assert(single[0] == opts[i as int]);
                        assert(single.drop_first() =~= Seq::<TikzOption>::empty());
                        assert(spec_tikz_options_text(single) == Ok::<Seq<char>, LatexError>(
                            spec_tikz_option_text(opts[i as int])->Ok_0 + Seq::<char>::empty(),
                        )) by {
                            reveal_with_fuel(spec_tikz_options_text, 2);
                        }
                        assert(spec_tikz_option_text(opts[i as int])->Ok_0 + Seq::<char>::empty()
                            =~= spec_tikz_option_text(opts[i as int])->Ok_0);
                    }
                },
            }
            i += 1;
        }
        proof {
            assert(opts.subrange(0, opts.len() as int) =~= opts);
        }
        first.append("]");
        let ghost options_text = spec_tikz_options_text(opts)->Ok_0;
        proof {
            assert(first@ =~= spec_tikz_begin(options_text));
        }

        match export_tikz_children(&self.parts) {
            Err(e) => Err(e),
            Ok(mut body) => {
                let ghost body_models = line_models(body@);
                let mut out_lines: Vec<LatexLine> = Vec::new();
                out_lines.push(LatexLine::new(first));
                out_lines.append(&mut body);
                out_lines.push(LatexLine::new(String::from_str("\\end{tikzpicture}")));
                let out = LatexLines { lines: out_lines };
                proof {
                    assert(out@ =~= seq![line_at_root(spec_tikz_begin(options_text))]
                        + body_models + seq![line_at_root("\\end{tikzpicture}"@)]);
                }
                Ok(out)
            },
        }
    }
}

} // verus!
