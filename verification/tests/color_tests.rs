use latex_export::Color;

#[test]
fn color_name_is_lowercase_hex() {
    let c = Color { r: 100, g: 17, b: 8 };
    assert_eq!(c.name(), "0x641108");
}

#[test]
fn color_name_of_black_and_white() {
    assert_eq!(Color { r: 0, g: 0, b: 0 }.name(), "0x000000");
    assert_eq!(Color { r: 255, g: 255, b: 255 }.name(), "0xffffff");
}

#[test]
fn equal_components_give_equal_names() {
    let a = Color { r: 1, g: 2, b: 3 };
    let b = Color { r: 1, g: 2, b: 3 };
    assert_eq!(a.name(), b.name());
}

#[test]
fn distinct_components_give_distinct_names() {
    let a = Color { r: 1, g: 2, b: 3 };
    let b = Color { r: 3, g: 2, b: 1 };
    let c = Color { r: 1, g: 2, b: 4 };
    assert_ne!(a.name(), b.name());
    assert_ne!(a.name(), c.name());
    // Digits crossing the byte boundary must not collide.
    let d = Color { r: 0x12, g: 0x34, b: 0x56 };
    let e = Color { r: 0x12, g: 0x35, b: 0x46 };
    assert_ne!(d.name(), e.name());
}

#[test]
fn color_definition_line_names_the_components() {
    let c = Color { r: 100, g: 17, b: 8 };
    let line = c.get_color_definitions();
    assert_eq!(line.indentation, 0);
    assert_eq!(line.line_content, "\\definecolor{0x641108}{RGB}{100, 17, 8}");
}
