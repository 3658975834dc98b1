use sigil::color::{hex, rgb_to_ansi256, ColorMode, Rgb};

#[test]
fn hex_parsing() {
    assert_eq!(Rgb::parse("#ff8800").unwrap(), Rgb::new(255, 136, 0));
    assert_eq!(Rgb::parse("ff8800").unwrap(), Rgb::new(255, 136, 0));
    assert_eq!(Rgb::parse("#f80").unwrap(), Rgb::new(255, 136, 0));
    assert_eq!(Rgb::parse("abc").unwrap(), Rgb::new(170, 187, 204));
    assert!(Rgb::parse("nope").is_err());
    assert!(Rgb::parse("#12").is_err());
}

#[test]
fn hex_parse_errors_name_the_input() {
    assert_eq!(
        Rgb::parse("#12").unwrap_err(),
        "invalid hex color: #12 (expected #rgb or #rrggbb)"
    );
    assert_eq!(Rgb::parse("#ggg").unwrap_err(), "invalid hex color: #ggg");
    assert_eq!(Rgb::parse("zzzzzz").unwrap_err(), "invalid hex color: zzzzzz");
    assert_eq!(Rgb::parse("").unwrap_err(), "invalid hex color:  (expected #rgb or #rrggbb)");
}

#[test]
fn hex_is_case_insensitive() {
    assert_eq!(Rgb::parse("#FF8800").unwrap(), Rgb::new(255, 136, 0));
    assert_eq!(Rgb::parse("#ABC").unwrap(), Rgb::new(170, 187, 204));
}

#[test]
fn hex_formats_and_parses_back() {
    for c in [Rgb::new(255, 136, 0), Rgb::new(0, 0, 0), Rgb::new(13, 17, 23), Rgb::new(1, 2, 255)] {
        let h = hex(c);
        assert_eq!(Rgb::parse(&h).unwrap(), c);
        // The leading `#` is optional.
        assert_eq!(Rgb::parse(&h[1..]).unwrap(), c);
    }
    assert_eq!(hex(Rgb::new(255, 136, 0)), "#ff8800");
    assert_eq!(hex(Rgb::new(13, 17, 23)), "#0d1117");
}

#[test]
fn palette_mapping() {
    assert_eq!(rgb_to_ansi256(Rgb::new(0, 0, 0)), 16);
    assert_eq!(rgb_to_ansi256(Rgb::new(255, 255, 255)), 231);
    assert_eq!(rgb_to_ansi256(Rgb::new(128, 128, 128)), 243);
    assert_eq!(rgb_to_ansi256(Rgb::new(255, 0, 0)), 196);
    assert_eq!(rgb_to_ansi256(Rgb::new(0, 255, 0)), 46);
    assert_eq!(rgb_to_ansi256(Rgb::new(100, 0, 0)), 52);
}

#[test]
fn escapes_per_mode() {
    let c = Rgb::new(1, 2, 3);
    assert_eq!(ColorMode::True.fg(c), "\x1b[38;2;1;2;3m");
    assert_eq!(ColorMode::Ansi256.fg(Rgb::new(255, 0, 0)), "\x1b[38;5;196m");
    assert_eq!(ColorMode::NoColor.fg(c), "");
    assert_eq!(ColorMode::True.reset(), "\x1b[0m");
    assert_eq!(ColorMode::Ansi256.reset(), "\x1b[0m");
    assert_eq!(ColorMode::NoColor.reset(), "");
}

#[test]
fn environment_decides_the_mode() {
    assert_eq!(ColorMode::from_env(true, Some("truecolor")), ColorMode::NoColor);
    assert_eq!(ColorMode::from_env(false, Some("truecolor")), ColorMode::True);
    assert_eq!(ColorMode::from_env(false, Some("24bit")), ColorMode::True);
    assert_eq!(ColorMode::from_env(false, Some("yes")), ColorMode::Ansi256);
    assert_eq!(ColorMode::from_env(false, None), ColorMode::Ansi256);
}

#[test]
fn six_digit_form_takes_hex_digits_only() {
    assert_eq!(Rgb::parse("+fffff").unwrap_err(), "invalid hex color: +fffff");
    assert_eq!(Rgb::parse("#+fffff").unwrap_err(), "invalid hex color: #+fffff");
}
