//! A structured document model for LaTeX with TikZ drawings.
//!
//! A document is a tree of parts: drawable leaf primitives (polygons,
//! open polylines, labelled nodes) and containers (frames, centering
//! blocks, visibility scopes) that wrap their children between begin/end
//! markers and indent them by one level.  The `Latex` assembler renders
//! the whole tree into a buffer of indentation-tagged lines, emitting a
//! preamble and one colour declaration for every distinct colour used
//! anywhere in the tree.

mod builders;
mod color;
mod error;
mod latex;
mod latex_part;
mod line;
mod lines;
mod node;
mod options;
mod point;
mod polygon;
mod text;
mod tikz;
mod tikz_part;
mod visible;

pub use builders::{AddOption, AddPoint, AddPointByParts};
pub use color::{
    dedup_colors, dedup_from, lemma_color_name_injective, lemma_dedup_from_props,
    spec_color_definition, spec_color_name, Color,
};
pub use error::{LatexError, LatexResult, TikzError};
pub use latex::{
    lemma_export_idempotent, lemma_export_total, lemma_fail_fast, lemma_latex_colors_distinct,
    spec_color_lines, spec_document_class_line, spec_latex_colors, spec_latex_export,
    spec_preamble, spec_tikz_preamble, DocumentClass, Latex,
};
pub use latex_part::{
    borrowed_parts, lemma_empty_center, lemma_empty_frame, lemma_indentation_monotonic,
    lemma_latex_children_export_status, lemma_latex_children_ok_parts_ok,
    lemma_latex_part_export_status, spec_child_offset, spec_latex_children_colors,
    spec_latex_children_depth, spec_latex_children_have_empty_drawable,
    spec_latex_children_have_tikz, spec_latex_children_lines,
    spec_latex_children_options_finite, spec_latex_part_colors, spec_latex_part_depth,
    spec_latex_part_export, spec_latex_part_has_empty_drawable, spec_latex_part_has_tikz,
    spec_latex_part_options_finite, spec_latex_preorder, spec_latex_preorder_children, LatexPart,
};
pub use line::{
    spec_line_color, spec_line_export, spec_line_line, spec_line_option_text,
    spec_line_options_text, spec_open_path_text, Line, LineOption,
};
pub use lines::{
    bumped, bumped_all, export_matches, line_at_root, line_models, spec_line_text, spec_render,
    spec_tabs, spec_wrap, LatexLine, LatexLines, LineModel,
};
pub use node::{
    spec_node_color, spec_node_export, spec_node_line, spec_node_option_text,
    spec_node_options_text, Node, NodeOption,
};
pub use options::{
    kind_count, lemma_insert_unique, lemma_option_overwrite, sole_entry_of_kind, spec_insert,
    unique_kinds, OptionKind, OptionSet,
};
pub use point::{point_models, spec_point_text, Point, PointModel};
pub use polygon::{
    spec_closed_path_text, spec_polygon_color, spec_polygon_export, spec_polygon_line,
    spec_polygon_option_text, spec_polygon_options_text, Polygon, PolygonOption,
};
pub use text::{decimal_string, is_finite_decimal, spec_decimal, str_is_finite_decimal};
pub use tikz::{
    spec_tikz_begin, spec_tikz_depth, spec_tikz_export, spec_tikz_option_text,
    spec_tikz_options_text, Tikz, TikzOption,
};
pub use tikz_part::{
    borrowed_tikz_parts, lemma_tikz_children_export_status, lemma_tikz_part_export_status, spec_tikz_children_colors,
    spec_tikz_children_depth, spec_tikz_children_have_empty_drawable, spec_tikz_children_lines,
    spec_tikz_part_colors, spec_tikz_part_depth, spec_tikz_part_export,
    spec_tikz_part_has_empty_drawable, spec_tikz_preorder, spec_tikz_preorder_children, TikzPart,
};
pub use visible::{spec_frame_insert, spec_frames_text, spec_visible_begin, Visible};
