use sigil::color::{ColorMode, Rgb};
use sigil::fonts::load_bundled;
use sigil::gradient::preset_stops;
use sigil::mark;
use sigil::cli::Format;
use sigil::export::{to_json, wrap};
use sigil::render::{compose, paint_cells, to_svg, Align, Banner};

#[test]
fn raw_hi_is_byte_exact() {
    // The standard font is embedded and deterministic, so this exact rendering
    // is a stable golden: raw output is uncolored and tight to the banner.
    let expected = "  _   _   _ \n | | | | (_)\n | |_| | | |\n |  _  | | |\n |_| |_| |_|\n";
    let font = load_bundled("standard").unwrap().unwrap();
    let banner = Banner::layout(&font, "Hi").unwrap();
    let grid = compose(&banner, None, (0, 0));
    let colors = vec![vec![Rgb::new(0, 0, 0); grid.width]; grid.height];
    let out = paint_cells(&grid, &colors, ColorMode::NoColor, Align::Left, grid.width, 0);
    assert_eq!(out, expected);
}

#[test]
fn svg_is_self_contained() {
    let font = load_bundled("standard").unwrap().unwrap();
    let banner = Banner::layout(&font, "Hi").unwrap();
    let grid = compose(&banner, None, (0, 0));
    let stops = preset_stops("sunset").unwrap();
    let colors: Vec<Vec<Rgb>> = (0..grid.height)
        .map(|_| (0..grid.width).map(|c| stops[c * stops.len() / grid.width.max(1)]).collect())
        .collect();
    let s = to_svg(&grid, &colors, None);
    assert!(s.starts_with("<svg"));
    assert!(s.trim_end().ends_with("</svg>"));
    assert!(s.contains("xmlns=\"http://www.w3.org/2000/svg\""));
    assert!(s.contains("fill=\"#"));
}

#[test]
fn mark_is_deterministic() {
    let palette = aurora_palette();
    let a = mark::to_svg("acme", &palette, None);
    let b = mark::to_svg("acme", &palette, None);
    let c = mark::to_svg("acme2", &palette, None);
    assert_eq!(a, b, "same seed must yield the same mark");
    assert_ne!(a, c, "different seed should differ");
}

#[test]
fn json_shape_is_stable() {
    let font = load_bundled("standard").unwrap().unwrap();
    let banner = Banner::layout(&font, "A").unwrap();
    let grid = compose(&banner, None, (0, 0));
    let colors = vec![vec![Rgb::new(0x21, 0x93, 0xb0); grid.width]; grid.height];
    let s = to_json(&grid, &colors);
    assert!(s.contains("\"width\""));
    assert!(s.contains("\"height\""));
    assert!(s.contains("\"cells\""));
    assert!(s.contains("\"char\""));
    assert!(s.contains("\"color\""));
}

#[test]
fn markdown_is_a_fenced_block() {
    let font = load_bundled("standard").unwrap().unwrap();
    let banner = Banner::layout(&font, "Hi").unwrap();
    let grid = compose(&banner, None, (0, 0));
    let colors = vec![vec![Rgb::new(0, 0, 0); grid.width]; grid.height];
    let painted = paint_cells(&grid, &colors, ColorMode::NoColor, Align::Left, grid.width, 0);
    let s = wrap(Format::Markdown, &painted);
    assert!(s.starts_with("```\n"));
    assert!(s.trim_end().ends_with("```"));
    assert!(!s.contains('\u{1b}'));
}

/// Nine colors, one per diagonal of a mark, taken from the `aurora`
/// preset's stops along the diagonals.
fn aurora_palette() -> Vec<Rgb> {
    let stops = preset_stops("aurora").unwrap();
    (0..9).map(|k| stops[k * stops.len() / 9]).collect()
}
