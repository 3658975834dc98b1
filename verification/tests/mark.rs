use sigil::color::Rgb;
use sigil::mark::{mark_cells, seed_of, to_svg};

/// Nine colors, one per diagonal of the mark, taken from the `aurora`
/// preset's stops along the diagonals.
fn palette() -> Vec<Rgb> {
    let stops = sigil::gradient::preset_stops("aurora").unwrap();
    (0..9).map(|k| stops[k * stops.len() / 9]).collect()
}

#[test]
fn is_deterministic_and_input_sensitive() {
    let g = palette();
    let a1 = to_svg("acme", &g, None);
    let a2 = to_svg("acme", &g, None);
    let b = to_svg("acme2", &g, None);
    assert_eq!(a1, a2, "same input must yield the same mark");
    assert_ne!(a1, b, "different input should yield a different mark");
}

#[test]
fn is_well_formed_svg() {
    let svg = to_svg("sigil", &palette(), None);
    assert!(svg.starts_with("<svg"));
    assert!(svg.trim_end().ends_with("</svg>"));
    assert!(svg.contains("<rect"));
}

#[test]
fn seed_is_fnv1a_of_trimmed_text() {
    assert_eq!(seed_of(""), 0xcbf2_9ce4_8422_2325);
    assert_eq!(seed_of("a"), 0xaf63_dc4c_8601_ec8c);
    assert_eq!(seed_of("  a \n"), seed_of("a"));
}

#[test]
fn mark_is_mirror_symmetric() {
    for text in ["acme", "sigil", "", "日本"] {
        let cells = mark_cells(text);
        assert_eq!(cells.len(), 5);
        for row in &cells {
            assert_eq!(row.len(), 5);
            for c in 0..5 {
                assert_eq!(row[c], row[4 - c]);
            }
        }
    }
}

#[test]
fn mark_backdrop_and_size() {
    let svg = to_svg("acme", &palette(), Some(Rgb::new(1, 2, 3)));
    assert!(svg.starts_with(
        "<svg xmlns=\"http://www.w3.org/2000/svg\" width=\"320\" height=\"320\" viewBox=\"0 0 320 320\">\n<rect width=\"100%\" height=\"100%\" rx=\"20\" fill=\"#010203\"/>\n"
    ));
    let lit = mark_cells("acme").iter().flatten().filter(|&&b| b).count();
    assert_eq!(svg.matches("<rect").count(), 1 + lit);
}
