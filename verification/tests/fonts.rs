use sigil::fonts::{available, catalog, find_bundled, load_bundled, parse_flf, trim_to_required, unknown_font_error};

#[test]
fn trim_drops_codetag_glyphs() {
    // height=1, comments=0 => keep header + 102 required lines.
    let mut content = String::from("flf2a$ 1 1 5 0 0\n");
    for i in 0..102 {
        content.push_str(&format!("row{i}@@\n"));
    }
    // Extra code-tagged glyphs that must be dropped.
    content.push_str("160  NO-BREAK SPACE\n $@@\n");
    let trimmed = trim_to_required(&content);
    assert_eq!(trimmed.lines().count(), 1 + 102);
    assert!(!trimmed.contains("NO-BREAK SPACE"));
}

#[test]
fn trim_keeps_comment_lines_and_malformed_headers() {
    let mut content = String::from("flf2a$ 2 1 5 0 2\nc1\nc2\n");
    for i in 0..300 {
        content.push_str(&format!("g{i}@\n"));
    }
    let trimmed = trim_to_required(&content);
    assert_eq!(trimmed.lines().count(), 1 + 2 + 102 * 2);
    assert!(trimmed.ends_with("g203@\n"));
    // Without a readable height and comment count the text is left alone.
    assert_eq!(trim_to_required("flf2a$ x 1 5 0 0\nabc"), "flf2a$ x 1 5 0 0\nabc");
    assert_eq!(trim_to_required(""), "");
    // Fewer lines than required: everything is kept, with a final newline.
    assert_eq!(trim_to_required("flf2a$ 1 1 5 0 0\na@@"), "flf2a$ 1 1 5 0 0\na@@\n");
}

#[test]
fn catalog_lists_the_bundled_fonts() {
    let names: Vec<&str> = catalog().iter().map(|f| f.name).collect();
    assert_eq!(names, ["standard", "ansishadow", "slant", "big", "small"]);
    assert_eq!(available(), "standard, ansishadow, slant, big, small");
    assert_eq!(catalog()[0].description, "the classic FIGlet font");
}

#[test]
fn bundled_names_and_aliases_resolve() {
    assert_eq!(find_bundled("standard"), Some(0));
    assert_eq!(find_bundled("Default"), Some(0));
    assert_eq!(find_bundled("shadow"), Some(1));
    assert_eq!(find_bundled("ANSI-Shadow"), Some(1));
    assert_eq!(find_bundled("italic"), Some(2));
    assert_eq!(find_bundled("big"), Some(3));
    assert_eq!(find_bundled("mini"), Some(4));
    assert_eq!(find_bundled("nope"), None);
}

#[test]
fn standard_font_loads_and_renders() {
    let font = load_bundled("default").unwrap().unwrap();
    let b = sigil::render::Banner::layout(&font, "Ab1").unwrap();
    assert!(b.lines.iter().any(|l| !l.trim().is_empty()));
    assert!(load_bundled("nope").is_none());
}

#[test]
fn unknown_font_message() {
    assert_eq!(
        unknown_font_error("comic"),
        "unknown font: comic. Available: standard, ansishadow, slant, big, small (or pass a path to a .flf file)"
    );
}

#[test]
fn invalid_font_data_is_reported() {
    let err = parse_flf("not a font").err().unwrap();
    assert!(err.starts_with("invalid figlet font: "));
}

#[test]
fn empty_font_text_is_refused() {
    assert_eq!(
        parse_flf("").err().unwrap(),
        "invalid figlet font: can not generate FIGlet font from empty string"
    );
}

/// A one-line-tall font whose 102 glyphs are all `x`.
fn tiny_font(row: &str) -> String {
    let mut content = String::from("flf2a$ 1 1 5 0 0\n");
    for _ in 0..102 {
        content.push_str(row);
        content.push('\n');
    }
    content
}

#[test]
fn well_formed_font_text_parses() {
    let font = parse_flf(&tiny_font("x@")).unwrap();
    let b = sigil::render::Banner::layout(&font, "ab").unwrap();
    assert_eq!(b.lines, vec!["xx".to_string()]);
}

#[test]
fn malformed_glyph_rows_are_refused() {
    // An empty glyph row has no end mark to cut off.
    assert_eq!(
        parse_flf(&tiny_font("")).err().unwrap(),
        "invalid figlet font: malformed header or glyph rows"
    );
    // A zero height or a negative comment count is refused too.
    assert!(parse_flf("flf2a$ 0 1 5 0 0\nx@\n").is_err());
    assert!(parse_flf("flf2a$ 1 1 5 0 -3\nx@\n").is_err());
    // Fewer glyph lines than the header promises.
    assert_eq!(
        parse_flf("flf2a$ 1 1 5 0 0\nx@\n").err().unwrap(),
        "invalid figlet font: malformed header or glyph rows"
    );
}
