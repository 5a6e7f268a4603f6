use latex_export::{
    AddOption, Color, LatexError, OptionSet, Polygon, Tikz, TikzError, TikzOption,
};

#[test]
fn option_overwrite_keeps_one_entry_with_the_last_value() {
    let first = Color { r: 1, g: 2, b: 3 };
    let second = Color { r: 9, g: 9, b: 9 };
    let poly = Polygon::new().option(first).option(second);
    assert_eq!(poly.options.len(), 1);
    assert_eq!(poly.get_color(), Some(second));
}

#[test]
fn scale_overwrite_keeps_the_last_scale() {
    let tikz = Tikz::new().option(TikzOption::Scale("0.5".to_string())).option(
        TikzOption::Scale("2".to_string()),
    );
    assert_eq!(tikz.options.len(), 1);
    let lines = tikz.export().unwrap();
    assert_eq!(lines.lines[0].line_content, "\\begin{tikzpicture}[scale=2]");
}

#[test]
fn finite_scale_renders_inline() {
    let opt = TikzOption::Scale("0.5".to_string());
    assert_eq!(opt.export().unwrap(), "scale=0.5");
    let neg = TikzOption::Scale("-3.25".to_string());
    assert_eq!(neg.export().unwrap(), "scale=-3.25");
    let whole = TikzOption::Scale("42".to_string());
    assert_eq!(whole.export().unwrap(), "scale=42");
}

#[test]
fn non_finite_scale_is_rejected() {
    let inf = TikzOption::Scale(format!("{}", f32::INFINITY));
    assert!(matches!(inf.export(), Err(LatexError::Tikz(TikzError::NotFiniteFloat))));
    let nan = TikzOption::Scale(format!("{}", f32::NAN));
    assert!(matches!(nan.export(), Err(LatexError::Tikz(TikzError::NotFiniteFloat))));
    let neg_inf = TikzOption::Scale(format!("{}", f32::NEG_INFINITY));
    assert!(matches!(neg_inf.export(), Err(LatexError::Tikz(TikzError::NotFiniteFloat))));
}

#[test]
fn malformed_scale_numerals_are_rejected() {
    for bad in ["", "-", ".", "1.", ".5", "1.2.3", "1e9", "two"] {
        let opt = TikzOption::Scale(bad.to_string());
        assert!(
            matches!(opt.export(), Err(LatexError::Tikz(TikzError::NotFiniteFloat))),
            "{bad} should be rejected"
        );
    }
}

#[test]
fn finite_float_displays_are_accepted() {
    for v in [0.5f32, -3.25, 42.0, 0.0, 9.1] {
        let opt = TikzOption::Scale(format!("{}", v));
        assert!(opt.export().is_ok(), "{v} should be accepted");
    }
}

#[test]
fn option_set_lookup_finds_the_stored_entry() {
    let mut set: OptionSet<TikzOption> = OptionSet::new();
    let probe = TikzOption::Scale("1".to_string());
    assert!(!set.contains_kind(&probe));
    assert!(set.get(&probe).is_none());
    set.insert(TikzOption::Scale("0.5".to_string()));
    assert!(set.contains_kind(&probe));
    assert!(matches!(set.get(&probe), Some(TikzOption::Scale(s)) if s == "0.5"));
    set.insert(TikzOption::Scale("7".to_string()));
    assert_eq!(set.len(), 1);
    assert!(matches!(set.get(&probe), Some(TikzOption::Scale(s)) if s == "7"));
}

#[test]
fn error_descriptions_name_each_failure() {
    assert_eq!(LatexError::Formatting.describe(), "formatting failed");
    assert_eq!(LatexError::Tikz(TikzError::NoPoints).describe(), "a drawable has no points");
    assert_eq!(
        LatexError::Tikz(TikzError::NotFiniteFloat).describe(),
        "an option holds a non-finite number"
    );
    assert_eq!(LatexError::IO.describe(), "input/output failed");
    assert_eq!(LatexError::PathIsNoFile.describe(), "the path has no file name");
}
