use sigil::cli::{
    banner_parts, base_mode, bold, color_mode, font_names, frame_padding, framed_width,
    output_extent, parse_stops, random_seed, resolve_stops, resolve_text, sort_names, split_at_char,
    swatch, term_width, Flags, Format, Settings,
};
use sigil::color::{ColorMode, Rgb};
use sigil::config::Config;
use sigil::gradient::preset_names;

fn strings(v: &[&str]) -> Vec<String> {
    v.iter().map(|s| s.to_string()).collect()
}

fn no_flags() -> Flags {
    Flags {
        gradient: None,
        colors: None,
        direction: None,
        angle_bits: None,
        reverse: false,
        cycle: None,
        border: None,
        padding: None,
        border_color: None,
        background: None,
        align: None,
        font: None,
        width: None,
        margin: None,
        no_color: false,
        format: None,
        animate: None,
        fps: None,
        lines: false,
        random: false,
        seed: None,
    }
}

#[test]
fn joins_multi_word_text() {
    let args = vec!["Hello".to_string(), "World".to_string()];
    assert_eq!(resolve_text(&args, false, None).unwrap(), "Hello World");
    assert_eq!(resolve_text(&args, true, None).unwrap(), "Hello\nWorld");
}

#[test]
fn piped_text_collapses_whitespace() {
    let none: Vec<String> = Vec::new();
    assert_eq!(resolve_text(&none, false, Some("  Hello \n  big\tWorld \n")).unwrap(), "Hello big World");
    assert_eq!(resolve_text(&none, true, Some("  Hello   there\r\n\nWorld\n")).unwrap(), "Hello there\n\nWorld");
    assert_eq!(resolve_text(&none, false, Some(" \n\t ")).unwrap_err(), "no text on stdin");
    assert_eq!(
        resolve_text(&none, false, None).unwrap_err(),
        "no text given. Try: sigil \"My Project\"  or pipe it: echo hi | sigil"
    );
    // Arguments win over piped input.
    assert_eq!(resolve_text(&strings(&["a"]), false, Some("b")).unwrap(), "a");
}

#[test]
fn terminal_width_from_columns() {
    assert_eq!(term_width(None), 80);
    assert_eq!(term_width(Some("120")), 120);
    assert_eq!(term_width(Some("+7")), 7);
    assert_eq!(term_width(Some("0")), 80);
    assert_eq!(term_width(Some(" 100")), 80);
    assert_eq!(term_width(Some("wide")), 80);
}

#[test]
fn formats_parse() {
    assert_eq!(Format::parse("RAW").unwrap(), Format::Raw);
    assert_eq!(Format::parse("svg").unwrap(), Format::Svg);
    assert_eq!(Format::parse("term").unwrap(), Format::Term);
    assert_eq!(Format::parse("ansi").unwrap(), Format::Ansi);
    assert_eq!(Format::parse("pdf").unwrap_err(), "unknown format: pdf (term|ansi|raw|svg|markdown|json)");
    assert_eq!(Format::parse("Markdown").unwrap(), Format::Markdown);
    assert_eq!(Format::parse("json").unwrap(), Format::Json);
    assert!(Format::Ansi.forces_color());
    assert!(!Format::Term.forces_color());
}

#[test]
fn color_mode_decisions() {
    let t = ColorMode::True;
    assert_eq!(color_mode(true, false, Format::Ansi, true, t), ColorMode::NoColor);
    assert_eq!(color_mode(false, true, Format::Term, true, t), ColorMode::NoColor);
    assert_eq!(color_mode(false, false, Format::Raw, true, t), ColorMode::NoColor);
    assert_eq!(color_mode(false, false, Format::Ansi, false, t), t);
    assert_eq!(color_mode(false, false, Format::Term, true, t), t);
    assert_eq!(color_mode(false, false, Format::Term, false, t), ColorMode::NoColor);
    assert_eq!(color_mode(false, false, Format::Svg, false, t), ColorMode::NoColor);
    assert_eq!(color_mode(false, false, Format::Markdown, true, t), ColorMode::NoColor);
    assert_eq!(color_mode(false, false, Format::Json, true, t), ColorMode::NoColor);
    assert_eq!(base_mode(false, true, ColorMode::Ansi256), ColorMode::Ansi256);
    assert_eq!(base_mode(true, true, ColorMode::Ansi256), ColorMode::NoColor);
    assert_eq!(base_mode(false, false, ColorMode::Ansi256), ColorMode::NoColor);
}

#[test]
fn frame_geometry() {
    assert_eq!(frame_padding(true, None), (2, 1));
    assert_eq!(frame_padding(true, Some(3)), (4, 3));
    assert_eq!(frame_padding(false, None), (0, 0));
    assert_eq!(frame_padding(false, Some(2)), (2, 2));
    assert_eq!(framed_width(20, 2, true), 26);
    assert_eq!(framed_width(20, 2, false), 24);
    assert_eq!(output_extent(Format::Term, Some(100), 80, 2, 26), (100, 2));
    assert_eq!(output_extent(Format::Term, None, 80, 2, 26), (80, 2));
    assert_eq!(output_extent(Format::Raw, Some(100), 80, 2, 26), (26, 0));
}

#[test]
fn stops_parse_and_report_errors() {
    assert_eq!(
        parse_stops(&strings(&[" #ff0000", "00f "])).unwrap(),
        vec![Rgb::new(255, 0, 0), Rgb::new(0, 0, 255)]
    );
    assert_eq!(parse_stops(&strings(&[])).unwrap_err(), "needs at least one hex stop");
    assert_eq!(parse_stops(&strings(&["#fff", "nope", "#12"])).unwrap_err(), "invalid hex color: nope (expected #rgb or #rrggbb)");
}

#[test]
fn gradient_stops_resolution_order() {
    let user = vec![("brand".to_string(), strings(&["#0f2027", "#2c5364"])), ("bad".to_string(), strings(&["#zz"]))];
    // --colors wins.
    assert_eq!(
        resolve_stops(&Some("#ff5f6d, #ffc371".to_string()), &user, "brand").unwrap(),
        vec![Rgb::new(0xff, 0x5f, 0x6d), Rgb::new(0xff, 0xc3, 0x71)]
    );
    assert_eq!(
        resolve_stops(&Some("#ff5f6d,".to_string()), &user, "brand").unwrap_err(),
        "--colors: invalid hex color:  (expected #rgb or #rrggbb)"
    );
    // Then a user gradient by exact name.
    assert_eq!(
        resolve_stops(&None, &user, "brand").unwrap(),
        vec![Rgb::new(0x0f, 0x20, 0x27), Rgb::new(0x2c, 0x53, 0x64)]
    );
    assert_eq!(
        resolve_stops(&None, &user, "bad").unwrap_err(),
        "gradient \"bad\": invalid hex color: #zz (expected #rgb or #rrggbb)"
    );
    // Then a preset, case-insensitively.
    assert_eq!(resolve_stops(&None, &user, "OCEAN").unwrap(), vec![Rgb::new(0x21, 0x93, 0xb0), Rgb::new(0x6d, 0xd5, 0xed)]);
    assert_eq!(
        resolve_stops(&None, &user, "nope").unwrap_err(),
        "unknown gradient: nope. See `sigil gradients`."
    );
}

#[test]
fn split_keeps_empty_pieces() {
    assert_eq!(split_at_char("a,,b,", ','), strings(&["a", "", "b", ""]));
    assert_eq!(split_at_char("", ','), strings(&[""]));
}

#[test]
fn settings_take_flags_over_config_over_defaults() {
    let cfg = Config {
        gradient: Some("fire".into()),
        font: Some("slant".into()),
        align: Some("center".into()),
        cycle: Some(3),
        reverse: Some(true),
        margin: Some(2),
        gradients: vec![("brand".to_string(), strings(&["#000"]))],
        ..Config::default()
    };
    let mut flags = no_flags();
    flags.font = Some("big".into());
    flags.cycle = Some(5);
    flags.no_color = true;
    let s = Settings::resolve(&flags, cfg, None);
    assert_eq!(s.gradient, "fire");
    assert_eq!(s.font, "big");
    assert_eq!(s.align, "center");
    assert_eq!(s.direction, "horizontal");
    assert_eq!(s.border, "none");
    assert_eq!(s.format, "term");
    assert_eq!(s.animate, "none");
    assert_eq!(s.cycle, 5);
    assert!(s.reverse);
    assert_eq!(s.margin, 2);
    assert_eq!(s.fps, 30);
    assert_eq!(s.padding, None);
    assert!(s.no_color);
    assert_eq!(s.user_gradients.len(), 1);

    let s = Settings::resolve(&no_flags(), Config::default(), None);
    assert_eq!(s.gradient, "ocean");
    assert_eq!(s.font, "standard");
    assert_eq!(s.cycle, 1);
    assert!(!s.reverse);
    assert_eq!(s.margin, 0);
}

#[test]
fn random_picks_are_seeded_and_yield_to_flags() {
    let mut flags = no_flags();
    flags.random = true;
    flags.seed = Some(42);
    let cfg = || Config { gradient: Some("fire".into()), font: Some("slant".into()), ..Config::default() };
    let a = Settings::resolve(&flags, cfg(), Some(1));
    let b = Settings::resolve(&flags, cfg(), Some(2));
    assert_eq!(a.gradient, b.gradient);
    assert_eq!(a.font, b.font);
    assert!(preset_names().contains(&a.gradient.as_str()));
    assert!(font_names().contains(&a.font.as_str()));
    flags.gradient = Some("mint".into());
    let c = Settings::resolve(&flags, cfg(), Some(1));
    assert_eq!(c.gradient, "mint");
    assert_eq!(c.font, a.font);
    // Without a seed the clock reading seeds the picks.
    flags.seed = None;
    let d = Settings::resolve(&flags, cfg(), Some(42));
    assert_eq!(d.font, a.font);
}

#[test]
fn seeds() {
    assert_eq!(random_seed(Some(7), Some(99)), 7);
    assert_eq!(random_seed(None, Some(99)), 99);
    assert_eq!(random_seed(None, Some((1u128 << 64) + 5)), 5);
    assert_eq!(random_seed(None, None), 0x5EED);
}

#[test]
fn swatch_and_bold() {
    let cs = vec![Rgb::new(1, 2, 3), Rgb::new(4, 5, 6)];
    assert_eq!(swatch(&cs, ColorMode::NoColor), "##");
    assert_eq!(
        swatch(&cs, ColorMode::True),
        "\x1b[38;2;1;2;3m\u{2588}\x1b[38;2;4;5;6m\u{2588}\x1b[0m"
    );
    assert_eq!(bold("Fonts", ColorMode::NoColor), "Fonts");
    assert_eq!(bold("Fonts", ColorMode::Ansi256), "\x1b[1mFonts\x1b[0m");
}

#[test]
fn line_mode_parts() {
    assert_eq!(banner_parts("  one \n\n two\n   \nthree"), strings(&["one", "two", "three"]));
    assert_eq!(banner_parts(""), Vec::<String>::new());
}

#[test]
fn names_sort_for_listing() {
    assert_eq!(
        sort_names(&strings(&["zeta", "Alpha", "beta", "alpha", "beta"])),
        strings(&["Alpha", "alpha", "beta", "beta", "zeta"])
    );
    assert_eq!(sort_names(&strings(&["ab", "a", ""])), strings(&["", "a", "ab"]));
}

#[test]
fn random_font_candidates() {
    assert_eq!(font_names(), vec!["standard", "ansishadow", "slant", "big", "small"]);
}

#[test]
fn random_picks_always_resolve() {
    for seed in 0..64u64 {
        let mut flags = no_flags();
        flags.random = true;
        flags.seed = Some(seed.wrapping_mul(0x9E37_79B9));
        let s = Settings::resolve(&flags, Config::default(), None);
        assert!(sigil::gradient::preset_stops(&s.gradient).is_some());
        assert!(sigil::fonts::find_bundled(&s.font).is_some());
    }
}
