use sigil::animate::{
    clamp_fps, draw, next_frame, sweep_frame, type_frame, Anim, Frame, FrameKind,
};
use sigil::color::{ColorMode, Rgb};
use sigil::fonts::load_bundled;
use sigil::render::Banner;

fn banner() -> Banner {
    let font = load_bundled("standard").unwrap().unwrap();
    Banner::layout(&font, "Hi").unwrap()
}

/// One color per banner column, running from red to blue.
fn column_colors(b: &Banner) -> Vec<Rgb> {
    let n = b.width.max(1);
    (0..b.width)
        .map(|c| {
            let t = (c * 255 / n) as u8;
            Rgb::new(255 - t, 0, t)
        })
        .collect()
}

#[test]
fn parses_styles() {
    assert_eq!(Anim::parse("sweep").unwrap(), Anim::Sweep);
    assert_eq!(Anim::parse("Typewriter").unwrap(), Anim::Type);
    assert_eq!(Anim::parse("off").unwrap(), Anim::Off);
    assert!(Anim::parse("wobble").is_err());
}

#[test]
fn type_frame_reveals_progressively() {
    let b = banner();
    let colors = column_colors(&b);
    let none = type_frame(&b, &colors, ColorMode::NoColor, 0);
    let full = type_frame(&b, &colors, ColorMode::NoColor, b.width);
    assert!(none.chars().all(|c| c == ' ' || c == '\n'));
    assert!(full.chars().any(|c| !c.is_whitespace()));
}

#[test]
fn sweep_frame_has_correct_line_count() {
    let b = banner();
    let colors = column_colors(&b);
    let f = sweep_frame(&b, &colors, ColorMode::True);
    assert_eq!(f.lines().count(), b.height());
    assert!(f.contains("\x1b[38;2;"));
}

#[test]
fn animation_names_and_errors() {
    assert_eq!(Anim::parse("NONE").unwrap(), Anim::Off);
    assert_eq!(Anim::parse("shimmer").unwrap(), Anim::Sweep);
    assert_eq!(Anim::parse("type").unwrap(), Anim::Type);
    assert_eq!(
        Anim::parse("Wobble").unwrap_err(),
        "unknown animation: Wobble (none|sweep|type)"
    );
    assert!(!Anim::Off.is_animated());
    assert!(Anim::Sweep.is_animated());
    assert!(Anim::Type.is_animated());
}

#[test]
fn draw_moves_over_the_previous_frame() {
    assert_eq!(draw("ab\ncd\n", 2, true), "\r\x1b[2Kab\n\r\x1b[2Kcd\n");
    assert_eq!(draw("ab\ncd", 12, false), "\x1b[12A\r\x1b[2Kab\n\r\x1b[2Kcd\n");
    assert_eq!(draw("", 3, false), "\x1b[3A");
}

#[test]
fn full_reveal_equals_settled_sweep() {
    let b = banner();
    let colors = column_colors(&b);
    for mode in [ColorMode::NoColor, ColorMode::True, ColorMode::Ansi256] {
        assert_eq!(type_frame(&b, &colors, mode, b.width), sweep_frame(&b, &colors, mode));
    }
}

#[test]
fn frame_rate_is_clamped() {
    assert_eq!(clamp_fps(0), 1);
    assert_eq!(clamp_fps(30), 30);
    assert_eq!(clamp_fps(500), 120);
}

#[test]
fn sweep_schedule_runs_two_seconds_then_settles() {
    // fps 0 is held to 1: two shifted frames, then the settled one.
    let frames: Vec<Frame> = (0..10).map_while(|k| next_frame(Anim::Sweep, 0, 40, k)).collect();
    assert_eq!(frames.len(), 3);
    assert_eq!(frames[0], Frame { kind: FrameKind::Sweep { step: 0 }, first: true, drawn: true, pause: true });
    assert_eq!(frames[1], Frame { kind: FrameKind::Sweep { step: 1 }, first: false, drawn: true, pause: true });
    assert_eq!(frames[2], Frame { kind: FrameKind::Sweep { step: 0 }, first: false, drawn: true, pause: false });
    let n = (0..1000).take_while(|&k| next_frame(Anim::Sweep, 30, 40, k).is_some()).count();
    assert_eq!(n, 61);
}

#[test]
fn typewriter_reveals_every_column() {
    let frames: Vec<Frame> = (0..100).map_while(|k| next_frame(Anim::Type, 30, 4, k)).collect();
    assert_eq!(frames.len(), 5);
    assert!(frames[0].first);
    assert!(frames.iter().skip(1).all(|f| !f.first && f.drawn && f.pause));
    assert_eq!(frames[4].kind, FrameKind::Type { reveal: 4 });
    assert!(next_frame(Anim::Type, 30, 4, 5).is_none());
}

#[test]
fn no_animation_writes_once() {
    assert_eq!(
        next_frame(Anim::Off, 30, 40, 0),
        Some(Frame { kind: FrameKind::Sweep { step: 0 }, first: true, drawn: false, pause: false })
    );
    assert_eq!(next_frame(Anim::Off, 30, 40, 1), None);
}

#[test]
fn frames_differ_from_colorless_only_by_escapes() {
    let b = banner();
    let colors = column_colors(&b);
    let strip = |s: &str| {
        let mut out = String::new();
        let mut inside = false;
        for c in s.chars() {
            if inside {
                inside = c != 'm';
            } else if c == '\x1b' {
                inside = true;
            } else {
                out.push(c);
            }
        }
        out
    };
    for reveal in [0, 3, b.width] {
        let plain = type_frame(&b, &colors, ColorMode::NoColor, reveal);
        assert_eq!(strip(&type_frame(&b, &colors, ColorMode::True, reveal)), plain);
        assert_eq!(strip(&type_frame(&b, &colors, ColorMode::Ansi256, reveal)), plain);
    }
}
