//! The document assembler: preamble, deduplicated colour declarations,
//! and the body built from the top-level parts.

use vstd::prelude::*;

use crate::color::{dedup_colors, spec_color_definition, Color};
use crate::error::LatexError;
use crate::latex_part::{
    collect_latex_children_colors, export_latex_children, latex_children_have_tikz,
    spec_latex_children_colors, spec_latex_children_depth, spec_latex_children_have_tikz,
    spec_latex_children_lines, LatexPart,
};
use crate::lines::{
    export_matches, line_at_root, line_models, LatexLine, LatexLines, LineModel,
};

verus! {

/// The document class named in the first preamble line.
#[derive(Debug, Clone, Copy, PartialEq, Eq, Hash, Structural)]
pub enum DocumentClass {
    Article,
    Beamer,
}

/// The first preamble line of each document class.
pub open spec fn spec_document_class_line(c: DocumentClass) -> Seq<char> {
    match c {
        DocumentClass::Article => "\\documentclass[10pt]{article}"@,
        DocumentClass::Beamer => "\\documentclass{beamer}"@,
    }
}

impl DocumentClass {
    /// The document-class preamble line.
    pub fn get_document_class_line(&self) -> (r: String)
        ensures
            r@ == spec_document_class_line(*self),
    {
        match self {
            DocumentClass::Article => String::from_str("\\documentclass[10pt]{article}"),
            DocumentClass::Beamer => String::from_str("\\documentclass{beamer}"),
        }
    }
}

/// The preamble lines that enable drawing support, emitted exactly once
/// when any part of the tree holds a picture.
pub open spec fn spec_tikz_preamble() -> Seq<LineModel> {
    seq![
        line_at_root("\\usepackage{tikz}"@),
        line_at_root("\\usepackage{pgfplots}"@),
        line_at_root("\\usetikzlibrary{external}"@),
        line_at_root("\\usepackage{color}"@),
        line_at_root("\\usetikzlibrary{arrows ,automata ,positioning, shapes.misc}"@),
    ]
}

/// A document: its class and its ordered top-level parts.
#[derive(Debug)]
pub struct Latex {
    pub document_class: DocumentClass,
    pub parts: Vec<LatexPart>,
}

/// The fixed preamble: the class line, the input-encoding line, and,
/// exactly when some part of the tree holds a picture, the drawing
/// preamble lines.
pub open spec fn spec_preamble(l: Latex) -> Seq<LineModel> {
    seq![
        line_at_root(spec_document_class_line(l.document_class)),
        line_at_root("\\usepackage[utf8] {inputenc}"@),
    ] + if spec_latex_children_have_tikz(l.parts@) {
        spec_tikz_preamble()
    } else {
        Seq::<LineModel>::empty()
    }
}

/// The distinct colours used anywhere in the tree, each at its first
/// pre-order occurrence.
pub open spec fn spec_latex_colors(l: Latex) -> Seq<Color> {
    dedup_colors(spec_latex_children_colors(l.parts@))
}

/// One resource-declaration line per colour, in order.
pub open spec fn spec_color_lines(cs: Seq<Color>) -> Seq<LineModel> {
    cs.map_values(|c: Color| line_at_root(spec_color_definition(c)))
}

/// What exporting a document yields: preamble, colour declarations,
/// then the body between the document markers, the top-level parts
/// indented one level; the first part error aborts the whole export.
pub open spec fn spec_latex_export(l: Latex) -> Result<Seq<LineModel>, LatexError> {
    match spec_latex_children_lines(l.parts@) {
        Err(e) => Err(e),
        Ok(body) => Ok(
            spec_preamble(l) + spec_color_lines(spec_latex_colors(l)) + seq![
                line_at_root("\\begin{document}"@),
            ] + body + seq![line_at_root("\\end{document}"@)],
        ),
    }
}

impl Latex {
    /// A document of the given class with no parts.
    pub fn new(document_class: DocumentClass) -> (r: Self)
        ensures
            r.document_class == document_class,
            r.parts@ == Seq::<LatexPart>::empty(),
    {
        let r = Latex { document_class, parts: Vec::new() };
        proof {
            assert(r.parts@ =~= Seq::<LatexPart>::empty());
        }
        r
    }

    /// Appends a top-level part; parts keep their insertion order.
    pub fn part(self, part: LatexPart) -> (r: Self)
        ensures
            r.document_class == self.document_class,
            r.parts@ == self.parts@.push(part),
    {
        let mut s = self;
        s.parts.push(part);
        s
    }

    /// Renders the whole document.  Deterministic: the same document
    /// always yields the same line buffer.
    pub fn export(&self) -> (r: Result<LatexLines, LatexError>)
        requires
            spec_latex_children_depth(self.parts@) < usize::MAX,
        ensures
            export_matches(r, spec_latex_export(*self)),
    {
        let mut lines: Vec<LatexLine> = Vec::new();
        lines.push(LatexLine::new(self.document_class.get_document_class_line()));
        lines.push(LatexLine::new(String::from_str("\\usepackage[utf8] {inputenc}")));

        if latex_children_have_tikz(&self.parts) {
            lines.push(LatexLine::new(String::from_str("\\usepackage{tikz}")));
            lines.push(LatexLine::new(String::from_str("\\usepackage{pgfplots}")));
            lines.push(LatexLine::new(String::from_str("\\usetikzlibrary{external}")));
            lines.push(LatexLine::new(String::from_str("\\usepackage{color}")));
            lines.push(
                LatexLine::new(
                    String::from_str("\\usetikzlibrary{arrows ,automata ,positioning, shapes.misc}"),
                ),
            );
        }
        proof {
            assert(line_models(lines@) =~= spec_preamble(*self));
        }

        let mut colors: Vec<Color> = Vec::new();
        proof {
            assert(colors@ =~= Seq::<Color>::empty());
        }
        collect_latex_children_colors(&self.parts, &mut colors);
        let ghost all_colors = colors@;
        proof {
            assert(all_colors == spec_latex_colors(*self));
            assert(all_colors.subrange(0, 0) =~= Seq::<Color>::empty());
            assert(line_models(lines@) =~= spec_preamble(*self) + spec_color_lines(
                all_colors.subrange(0, 0),
            ));
        }
        let mut i: usize = 0;
        while i < colors.len()
            invariant
                0 <= i <= all_colors.len(),
                all_colors == colors@,
                line_models(lines@) =~= spec_preamble(*self) + spec_color_lines(
                    all_colors.subrange(0, i as int),
                ),
            decreases all_colors.len() - i,
        {
            let def = colors[i].get_color_definitions();
            let ghost prev = lines@;
            lines.push(def);
            proof {
                assert(def@ == line_at_root(spec_color_definition(all_colors[i as int])));
                assert(line_models(lines@) =~= line_models(prev).push(def@));
                assert(spec_color_lines(all_colors.subrange(0, i + 1)) =~= spec_color_lines(
                    all_colors.subrange(0, i as int),
                ).push(line_at_root(spec_color_definition(all_colors[i as int]))));
                assert(line_models(lines@) =~= spec_preamble(*self) + spec_color_lines(
                    all_colors.subrange(0, i + 1),
                ));
            }
            i += 1;
        }
        proof {
            assert(all_colors.subrange(0, all_colors.len() as int) =~= all_colors);
        }

        lines.push(LatexLine::new(String::from_str("\\begin{document}")));
        let ghost head = spec_preamble(*self) + spec_color_lines(spec_latex_colors(*self))
            + seq![line_at_root("\\begin{document}"@)];
        proof {
            assert(line_models(lines@) =~= head);
        }

        match export_latex_children(&self.parts) {
            Err(e) => Err(e),
            Ok(mut body) => {
                let ghost body_models = line_models(body@);
                lines.append(&mut body);
                lines.push(LatexLine::new(String::from_str("\\end{document}")));
                let out = LatexLines { lines };
                proof {
                    assert(out@ =~= head + body_models + seq![line_at_root("\\end{document}"@)]);
                }
                Ok(out)
            },
        }
    }
}

/// Idempotence: exporting the same document twice yields identical
/// line buffers.  Any two results that meet `export`'s contract agree
/// line for line, and their displayed texts are identical.
pub proof fn lemma_export_idempotent(
    l: Latex,
    r1: Result<LatexLines, LatexError>,
    r2: Result<LatexLines, LatexError>,
)
    requires
        export_matches(r1, spec_latex_export(l)),
        export_matches(r2, spec_latex_export(l)),
    ensures
        (match (r1, r2) {
            (Ok(a), Ok(b)) => a@ == b@ && crate::lines::spec_render(a@) == crate::lines::spec_render(b@),
            (Err(e), Err(f)) => e == f,
            _ => false,
        }),
{
}

/// Fail-fast: when every numeric option in the tree is finite and some
/// drawable anywhere in the tree has an empty point sequence, the
/// whole-tree export fails with the no-points error, wherever that
/// drawable stands.
pub proof fn lemma_fail_fast(l: Latex)
    requires
        crate::latex_part::spec_latex_children_options_finite(l.parts@),
        crate::latex_part::spec_latex_children_have_empty_drawable(l.parts@),
    ensures
        spec_latex_export(l) == Err::<Seq<LineModel>, LatexError>(
            LatexError::Tikz(crate::error::TikzError::NoPoints),
        ),
{
    crate::latex_part::lemma_latex_children_export_status(l.parts@);
}

/// Success is owed: when every numeric option in the tree is finite
/// and no drawable has an empty point sequence, the export succeeds.
pub proof fn lemma_export_total(l: Latex)
    requires
        crate::latex_part::spec_latex_children_options_finite(l.parts@),
        !crate::latex_part::spec_latex_children_have_empty_drawable(l.parts@),
    ensures
        spec_latex_export(l) is Ok,
{
    crate::latex_part::lemma_latex_children_export_status(l.parts@);
}

/// The emitted colour declarations name each distinct colour of the
/// tree exactly once: no colour is declared twice, and a colour is
/// declared exactly when some drawable of the tree uses it.
pub proof fn lemma_latex_colors_distinct(l: Latex)
    ensures
        spec_latex_colors(l).no_duplicates(),
        forall|c: Color| #[trigger]
            spec_latex_colors(l).contains(c) <==> spec_latex_children_colors(
                l.parts@,
            ).contains(c),
{
    crate::color::lemma_dedup_from_props(
        Seq::<Color>::empty(),
        spec_latex_children_colors(l.parts@),
    );
}

} // verus!
