use latex_export::{
    AddOption, AddPointByParts, Color, DocumentClass, Latex, LatexPart, Polygon, Tikz, TikzPart,
    Visible,
};

fn colored_triangle(c: Color) -> Polygon {
    Polygon::new().option(c).point("0", "0").point("1", "0").point("0", "1")
}

#[test]
fn duplicate_colors_are_declared_once() {
    // Three drawables using {1,2,3}, {1,2,3} and {4,5,6}: exactly two
    // declarations are emitted, one per distinct colour.
    let a = Color { r: 1, g: 2, b: 3 };
    let b = Color { r: 1, g: 2, b: 3 };
    let c = Color { r: 4, g: 5, b: 6 };
    let tikz = Tikz::new().part(TikzPart::Polygon(colored_triangle(a))).part(
        TikzPart::Polygon(colored_triangle(b)),
    ).part(TikzPart::Polygon(colored_triangle(c)));
    let latex = Latex::new(DocumentClass::Beamer).part(LatexPart::Tikz(tikz));
    let lines = latex.export().unwrap();
    let declarations: Vec<&str> = lines
        .lines
        .iter()
        .map(|l| l.line_content.as_str())
        .filter(|t| t.starts_with("\\definecolor"))
        .collect();
    assert_eq!(
        declarations,
        vec![
            "\\definecolor{0x010203}{RGB}{1, 2, 3}",
            "\\definecolor{0x040506}{RGB}{4, 5, 6}",
        ]
    );
}

#[test]
fn get_colors_keeps_first_occurrence_order() {
    let red = Color { r: 200, g: 0, b: 0 };
    let blue = Color { r: 0, g: 0, b: 200 };
    let tikz = Tikz::new().part(TikzPart::Polygon(colored_triangle(blue))).part(
        TikzPart::Polygon(colored_triangle(red)),
    ).part(TikzPart::Polygon(colored_triangle(blue)));
    assert_eq!(tikz.get_colors(), vec![blue, red]);
}

#[test]
fn colors_inside_nested_scopes_are_found() {
    let green = Color { r: 0, g: 150, b: 130 };
    let visible = Visible::new().with_frame(1).with_part(TikzPart::Polygon(colored_triangle(
        green,
    )));
    let tikz = Tikz::new().part(TikzPart::Visible(visible));
    assert_eq!(tikz.get_colors(), vec![green]);
    let latex = Latex::new(DocumentClass::Beamer).part(LatexPart::Frame(vec![LatexPart::Tikz(
        tikz,
    )]));
    let lines = latex.export().unwrap();
    let count = lines
        .lines
        .iter()
        .filter(|l| l.line_content.starts_with("\\definecolor"))
        .count();
    assert_eq!(count, 1);
}

#[test]
fn document_without_colors_declares_none() {
    let tikz = Tikz::new().part(TikzPart::Polygon(
        Polygon::new().point("0", "0").point("1", "1").point("0", "1"),
    ));
    let latex = Latex::new(DocumentClass::Article).part(LatexPart::Tikz(tikz));
    let lines = latex.export().unwrap();
    assert!(lines.lines.iter().all(|l| !l.line_content.starts_with("\\definecolor")));
}
