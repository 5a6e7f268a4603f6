use latex_export::{
    AddOption, AddPointByParts, Color, DocumentClass, Latex, LatexError, LatexPart, Line, Node,
    Polygon, Tikz, TikzError, TikzOption, TikzPart, Visible,
};

fn sample_polygon() -> Polygon {
    Polygon::new().point("0", "9.1").point("30", "9.1").point("30", "12.6").point("0", "12.6")
}

#[test]
fn polygon_renders_one_closed_fill_line() {
    let lines = sample_polygon().export().unwrap();
    assert_eq!(lines.lines.len(), 1);
    assert_eq!(lines.lines[0].indentation, 0);
    assert_eq!(
        lines.lines[0].line_content,
        "\\fill[] (0, 9.1) -- (30, 9.1) -- (30, 12.6) -- (0, 12.6) -- cycle;"
    );
}

#[test]
fn polygon_with_color_names_it_inline() {
    let poly = sample_polygon().option(Color { r: 100, g: 17, b: 8 });
    let lines = poly.export().unwrap();
    assert_eq!(
        lines.lines[0].line_content,
        "\\fill[color=0x641108] (0, 9.1) -- (30, 9.1) -- (30, 12.6) -- (0, 12.6) -- cycle;"
    );
}

#[test]
fn line_renders_one_open_path_line() {
    let line = Line::new().point("0", "0").point("1", "2").point("3", "4");
    let lines = line.export().unwrap();
    assert_eq!(lines.lines.len(), 1);
    assert_eq!(lines.lines[0].line_content, "\\draw[] (0, 0) -- (1, 2) -- (3, 4);");
}

#[test]
fn node_renders_at_its_first_point_with_label() {
    let node = Node::new().point("1", "2").with_label("start");
    let lines = node.export().unwrap();
    assert_eq!(lines.lines.len(), 1);
    assert_eq!(lines.lines[0].line_content, "\\node[] at (1, 2) {start};");
}

#[test]
fn line_with_color_names_it_inline() {
    let line = Line::new().option(Color { r: 0, g: 150, b: 130 }).point("0", "0").point("5", "5");
    let lines = line.export().unwrap();
    assert_eq!(lines.lines[0].line_content, "\\draw[color=0x009682] (0, 0) -- (5, 5);");
}

#[test]
fn node_with_color_names_it_inline() {
    let node = Node::new().option(Color { r: 70, g: 100, b: 170 }).point("2", "3").with_label(
        "q0",
    );
    let lines = node.export().unwrap();
    assert_eq!(lines.lines[0].line_content, "\\node[color=0x4664aa] at (2, 3) {q0};");
}

#[test]
fn single_point_line_renders_without_joints() {
    let line = Line::new().point("7", "8");
    let lines = line.export().unwrap();
    assert_eq!(lines.lines[0].line_content, "\\draw[] (7, 8);");
}

#[test]
fn empty_drawables_fail_with_no_points() {
    assert!(matches!(
        Polygon::new().export(),
        Err(LatexError::Tikz(TikzError::NoPoints))
    ));
    assert!(matches!(Line::new().export(), Err(LatexError::Tikz(TikzError::NoPoints))));
    assert!(matches!(Node::new().export(), Err(LatexError::Tikz(TikzError::NoPoints))));
}

#[test]
fn empty_frame_exports_exactly_its_two_markers() {
    let frame = LatexPart::Frame(vec![]);
    let lines = frame.export().unwrap();
    assert_eq!(lines.lines.len(), 2);
    assert_eq!(lines.lines[0].indentation, 0);
    assert_eq!(lines.lines[0].line_content, "\\begin{frame}");
    assert_eq!(lines.lines[1].indentation, 0);
    assert_eq!(lines.lines[1].line_content, "\\end{frame}");
}

#[test]
fn empty_center_exports_exactly_its_two_markers() {
    let center = LatexPart::Center(vec![]);
    let lines = center.export().unwrap();
    assert_eq!(lines.lines.len(), 2);
    assert_eq!(lines.lines[0].line_content, "\\begin{center}");
    assert_eq!(lines.lines[1].line_content, "\\end{center}");
}

#[test]
fn container_raises_child_indentation_by_one() {
    let tikz = Tikz::new().part(TikzPart::Polygon(sample_polygon()));
    let alone = tikz.export().unwrap();
    let tikz_again = Tikz::new().part(TikzPart::Polygon(sample_polygon()));
    let framed = LatexPart::Frame(vec![LatexPart::Tikz(tikz_again)]).export().unwrap();
    assert_eq!(framed.lines.len(), alone.lines.len() + 2);
    for (i, child_line) in alone.lines.iter().enumerate() {
        let wrapped = &framed.lines[i + 1];
        assert_eq!(wrapped.indentation, child_line.indentation + 1);
        assert_eq!(wrapped.line_content, child_line.line_content);
    }
}

#[test]
fn flattening_is_preorder_and_visits_each_part_once() {
    let tree = LatexPart::Frame(vec![
        LatexPart::Tikz(Tikz::new()),
        LatexPart::Center(vec![LatexPart::Tikz(Tikz::new())]),
    ]);
    let flat = tree.iter_full();
    assert_eq!(flat.len(), 4);
    assert!(matches!(flat[0], LatexPart::Frame(_)));
    assert!(matches!(flat[1], LatexPart::Tikz(_)));
    assert!(matches!(flat[2], LatexPart::Center(_)));
    assert!(matches!(flat[3], LatexPart::Tikz(_)));
}

#[test]
fn drawing_flattening_descends_into_scopes() {
    let scope = Visible::new().with_frame(1).with_part(TikzPart::Polygon(sample_polygon()));
    let part = TikzPart::Visible(scope);
    let flat = part.iter_full();
    assert_eq!(flat.len(), 2);
    assert!(matches!(flat[0], TikzPart::Visible(_)));
    assert!(matches!(flat[1], TikzPart::Polygon(_)));
}

#[test]
fn export_is_idempotent() {
    let latex = Latex::new(DocumentClass::Beamer).part(LatexPart::Frame(vec![LatexPart::Tikz(
        Tikz::new().part(TikzPart::Polygon(sample_polygon().option(Color { r: 1, g: 2, b: 3 }))),
    )]));
    let first = latex.export().unwrap().to_text();
    let second = latex.export().unwrap().to_text();
    assert_eq!(first, second);
}

#[test]
fn fail_fast_on_empty_drawable_anywhere() {
    // The empty drawable sits deep inside a visibility scope, after a
    // valid sibling; the whole-tree export still fails with NoPoints.
    let visible = Visible::new().with_frame(2).with_part(TikzPart::Polygon(Polygon::new()));
    let tikz = Tikz::new().part(TikzPart::Polygon(sample_polygon())).part(TikzPart::Visible(
        visible,
    ));
    let latex = Latex::new(DocumentClass::Beamer).part(LatexPart::Frame(vec![LatexPart::Tikz(
        tikz,
    )]));
    assert!(matches!(latex.export(), Err(LatexError::Tikz(TikzError::NoPoints))));
}

#[test]
fn fail_fast_at_top_level_too() {
    let latex = Latex::new(DocumentClass::Article).part(LatexPart::Tikz(
        Tikz::new().part(TikzPart::Line(Line::new())),
    ));
    assert!(matches!(latex.export(), Err(LatexError::Tikz(TikzError::NoPoints))));
}

#[test]
fn visible_scope_lists_its_frames_once_each() {
    let visible = Visible::new().with_frame(2).with_frame(3).with_frame(2).with_part(
        TikzPart::Polygon(sample_polygon()),
    );
    let lines = TikzPart::Visible(visible).export().unwrap();
    assert_eq!(lines.lines.len(), 3);
    assert_eq!(lines.lines[0].line_content, "\\visible<2,3>{");
    assert_eq!(lines.lines[1].indentation, 1);
    assert_eq!(lines.lines[2].line_content, "}");
}

#[test]
fn scenario_scaled_polygon_in_picture_in_document() {
    let poly = sample_polygon();
    let tikz = Tikz::new().part(TikzPart::Polygon(poly)).option(TikzOption::Scale(
        "0.5".to_string(),
    ));
    let latex = Latex::new(DocumentClass::Beamer).part(LatexPart::Tikz(tikz));
    let lines = latex.export().unwrap();

    let expected: Vec<(usize, &str)> = vec![
        (0, "\\documentclass{beamer}"),
        (0, "\\usepackage[utf8] {inputenc}"),
        (0, "\\usepackage{tikz}"),
        (0, "\\usepackage{pgfplots}"),
        (0, "\\usetikzlibrary{external}"),
        (0, "\\usepackage{color}"),
        (0, "\\usetikzlibrary{arrows ,automata ,positioning, shapes.misc}"),
        (0, "\\begin{document}"),
        (1, "\\begin{tikzpicture}[scale=0.5]"),
        (2, "\\fill[] (0, 9.1) -- (30, 9.1) -- (30, 12.6) -- (0, 12.6) -- cycle;"),
        (1, "\\end{tikzpicture}"),
        (0, "\\end{document}"),
    ];
    assert_eq!(lines.lines.len(), expected.len());
    for (line, (indent, text)) in lines.lines.iter().zip(expected.iter()) {
        assert_eq!(line.indentation, *indent);
        assert_eq!(line.line_content, *text);
    }
}

#[test]
fn document_without_picture_has_no_drawing_preamble() {
    let latex = Latex::new(DocumentClass::Article).part(LatexPart::Frame(vec![]));
    let lines = latex.export().unwrap();
    let expected: Vec<(usize, &str)> = vec![
        (0, "\\documentclass[10pt]{article}"),
        (0, "\\usepackage[utf8] {inputenc}"),
        (0, "\\begin{document}"),
        (1, "\\begin{frame}"),
        (1, "\\end{frame}"),
        (0, "\\end{document}"),
    ];
    assert_eq!(lines.lines.len(), expected.len());
    for (line, (indent, text)) in lines.lines.iter().zip(expected.iter()) {
        assert_eq!(line.indentation, *indent);
        assert_eq!(line.line_content, *text);
    }
}

#[test]
fn displayed_text_uses_one_tab_per_level() {
    let latex = Latex::new(DocumentClass::Article).part(LatexPart::Tikz(
        Tikz::new().part(TikzPart::Polygon(Polygon::new().point("1", "1"))),
    ));
    let text = latex.export().unwrap().to_text();
    assert!(text.contains("\n\t\\begin{tikzpicture}[]\n"));
    assert!(text.contains("\n\t\t\\fill[] (1, 1) -- cycle;\n"));
    assert!(text.ends_with("\\end{document}\n"));
}

#[test]
fn single_line_display_prefixes_tabs() {
    let latex = Latex::new(DocumentClass::Article).part(LatexPart::Frame(vec![]));
    let lines = latex.export().unwrap();
    assert_eq!(lines.lines[3].to_text(), "\t\\begin{frame}");
}

#[test]
fn document_class_lines_match_each_class() {
    assert_eq!(
        DocumentClass::Article.get_document_class_line(),
        "\\documentclass[10pt]{article}"
    );
    assert_eq!(DocumentClass::Beamer.get_document_class_line(), "\\documentclass{beamer}");
}

#[test]
fn option_error_wins_over_missing_points() {
    // The picture holds both a bad scale and an empty drawable: the
    // option is rendered first, so its error is reported.
    let tikz = Tikz::new().option(TikzOption::Scale("inf".to_string())).part(
        TikzPart::Polygon(Polygon::new()),
    );
    assert!(matches!(
        tikz.export(),
        Err(LatexError::Tikz(TikzError::NotFiniteFloat))
    ));
}
