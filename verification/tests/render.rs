use sigil::color::{ColorMode, Rgb};
use sigil::fonts::load_bundled;
use sigil::render::{compose, paint_cells, to_svg, xml_escape, Align, Banner, Border, Grid, CONT};
use unicode_width::UnicodeWidthStr;

fn font() -> sigil::fonts::Font {
    load_bundled("standard").unwrap().unwrap()
}

/// A color for every cell of the grid, shading from red to blue by column.
fn colors_for(g: &Grid) -> Vec<Vec<Rgb>> {
    let w = g.width.max(1);
    (0..g.height)
        .map(|_| (0..g.width).map(|c| Rgb::new((255 - c * 255 / w) as u8, 0, (c * 255 / w) as u8)).collect())
        .collect()
}

fn paint(b: &Banner, border: Option<Border>, padding: (usize, usize), mode: ColorMode, align: Align) -> String {
    let g = compose(b, border, padding);
    paint_cells(&g, &colors_for(&g), mode, align, 80, 0)
}

#[test]
fn svg_is_well_formed() {
    let b = Banner::layout(&font(), "Hi").unwrap();
    let g = compose(&b, None, (0, 0));
    let svg = to_svg(&g, &colors_for(&g), None);
    assert!(svg.starts_with("<svg"));
    assert!(svg.trim_end().ends_with("</svg>"));
    assert!(svg.contains("fill=\"#"));
    assert!(svg.contains("<rect"));
    assert_eq!(svg.matches("<tspan").count(), svg.matches("</tspan>").count());
}

#[test]
fn xml_special_chars_escaped() {
    assert_eq!(xml_escape("a<b>&c"), "a&lt;b&gt;&amp;c");
}

#[test]
fn wide_glyphs_align_by_display_width() {
    let banner = Banner { lines: vec!["日x".to_string(), "ab".to_string()], width: 3 };
    let g = compose(&banner, None, (0, 0));
    assert_eq!(g.width, 3);
    assert_eq!(g.chars[0][0], '日');
    assert_eq!(g.chars[0][1], CONT);
    assert_eq!(g.chars[0][2], 'x');

    let out = paint_cells(&g, &colors_for(&g), ColorMode::NoColor, Align::Left, 80, 0);
    let first = out.lines().next().unwrap();
    assert_eq!(UnicodeWidthStr::width(first), 3);
    assert!(first.contains('日') && first.contains('x'));
    assert!(!first.contains(CONT));
}

#[test]
fn layout_pads_to_common_width() {
    let b = Banner::layout(&font(), "Hi").unwrap();
    assert!(b.height() > 1);
    assert!(b.lines.iter().all(|l| UnicodeWidthStr::width(l.as_str()) == b.width));
}

#[test]
fn paint_no_color_has_no_escapes() {
    let b = Banner::layout(&font(), "Hi").unwrap();
    let out = paint(&b, None, (0, 0), ColorMode::NoColor, Align::Left);
    assert!(!out.contains('\x1b'));
}

#[test]
fn paint_truecolor_emits_escapes() {
    let b = Banner::layout(&font(), "Hi").unwrap();
    let out = paint(&b, None, (0, 0), ColorMode::True, Align::Center);
    assert!(out.contains("\x1b[38;2;"));
    assert!(out.contains("\x1b[0m"));
}

#[test]
fn border_frames_the_banner() {
    let b = Banner::layout(&font(), "Hi").unwrap();
    let border = Border::parse("round").unwrap();
    let out = paint(&b, border, (2, 1), ColorMode::NoColor, Align::Left);
    let lines: Vec<&str> = out.lines().collect();
    assert_eq!(lines.len(), b.height() + 2 + 2);
    assert!(lines[0].starts_with('╭') && lines[0].ends_with('╮'));
    assert!(lines.last().unwrap().starts_with('╰'));
    let want = b.width + 2 * 2 + 2;
    assert!(lines.iter().all(|l| l.chars().count() == want));
}

#[test]
fn layout_of_empty_text_fails() {
    let err = Banner::layout(&font(), "").unwrap_err();
    assert_eq!(err, "could not render \"\" with this font");
}

#[test]
fn from_figure_trims_blank_rows_and_pads() {
    let b = Banner::from_figure("   \n ab\nc\n  \n");
    assert_eq!(b.lines, vec![" ab".to_string(), "c  ".to_string()]);
    assert_eq!(b.width, 3);
    let b = Banner::from_figure("\n \n");
    assert_eq!(b.lines, vec![String::new()]);
    assert_eq!(b.width, 0);
}

#[test]
fn alignment_indents_within_the_target() {
    let banner = Banner { lines: vec!["ab".to_string()], width: 2 };
    let g = compose(&banner, None, (0, 0));
    let c = colors_for(&g);
    assert_eq!(paint_cells(&g, &c, ColorMode::NoColor, Align::Left, 10, 0), "ab\n");
    assert_eq!(paint_cells(&g, &c, ColorMode::NoColor, Align::Center, 10, 0), "    ab\n");
    assert_eq!(paint_cells(&g, &c, ColorMode::NoColor, Align::Right, 10, 1), "\n        ab\n\n");
    // A target narrower than the banner leaves it at the left edge.
    assert_eq!(paint_cells(&g, &c, ColorMode::NoColor, Align::Right, 1, 0), "ab\n");
}

#[test]
fn one_escape_per_color_run() {
    let banner = Banner { lines: vec!["a b".to_string()], width: 3 };
    let g = compose(&banner, None, (0, 0));
    let red = Rgb::new(255, 0, 0);
    let same = vec![vec![red, red, red]];
    assert_eq!(
        paint_cells(&g, &same, ColorMode::True, Align::Left, 0, 0),
        "\x1b[38;2;255;0;0ma b\x1b[0m\n"
    );
    let blue = Rgb::new(0, 0, 255);
    let two = vec![vec![red, red, blue]];
    assert_eq!(
        paint_cells(&g, &two, ColorMode::Ansi256, Align::Left, 0, 0),
        "\x1b[38;5;196ma \x1b[38;5;21mb\x1b[0m\n"
    );
}

#[test]
fn ascii_frame_and_padding() {
    let banner = Banner { lines: vec!["x".to_string()], width: 1 };
    let g = compose(&banner, Border::parse("ASCII").unwrap(), (1, 0));
    assert_eq!(g.width, 5);
    assert_eq!(g.height, 3);
    let out = paint_cells(&g, &colors_for(&g), ColorMode::NoColor, Align::Left, 0, 0);
    assert_eq!(out, "+---+\n| x |\n+---+\n");
    assert!(g.is_frame[0][2] && g.is_frame[1][0] && !g.is_frame[1][2]);
}

#[test]
fn style_names_and_errors() {
    assert_eq!(Align::parse("Centre").unwrap(), Align::Center);
    assert_eq!(Align::parse("r").unwrap(), Align::Right);
    assert_eq!(Align::parse("up").unwrap_err(), "unknown alignment: up (left|center|right)");
    assert_eq!(Border::parse("off").unwrap(), None);
    assert_eq!(
        Border::parse("Fancy").unwrap_err(),
        "unknown border: fancy (none|round|single|double|heavy|ascii)"
    );
    let d = Border::parse("double").unwrap().unwrap();
    assert_eq!((d.tl, d.h, d.v), ('╔', '═', '║'));
}

#[test]
fn svg_geometry_and_spans() {
    let banner = Banner { lines: vec!["a<".to_string(), "  ".to_string()], width: 2 };
    let g = compose(&banner, None, (0, 0));
    let red = Rgb::new(255, 0, 0);
    let colors = vec![vec![red, red], vec![red, red]];
    let svg = to_svg(&g, &colors, Some(Rgb::new(0, 0, 0)));
    let expected = "<svg xmlns=\"http://www.w3.org/2000/svg\" width=\"29\" height=\"58\" viewBox=\"0 0 29 58\">\n\
<rect width=\"100%\" height=\"100%\" rx=\"8\" fill=\"#000000\"/>\n\
<text xml:space=\"preserve\" font-family=\"ui-monospace,SFMono-Regular,Menlo,Consolas,monospace\" font-size=\"24\" font-weight=\"bold\">\n\
<tspan x=\"0\" y=\"23.0\"><tspan fill=\"#ff0000\">a&lt;</tspan></tspan>\n\
<tspan x=\"0\" y=\"51.8\">  </tspan>\n\
</text>\n</svg>\n";
    assert_eq!(svg, expected);
}

/// The text with every escape sequence (escape character through the next
/// `m`) removed.
fn strip_escapes(s: &str) -> String {
    let mut out = String::new();
    let mut inside = false;
    for c in s.chars() {
        if inside {
            inside = c != 'm';
        } else if c == '\x1b' {
            inside = true;
        } else {
            out.push(c);
        }
    }
    out
}

#[test]
fn color_only_adds_escapes() {
    let b = Banner::layout(&font(), "Hey, m8!").unwrap();
    let border = Border::parse("heavy").unwrap();
    let g = compose(&b, border, (2, 1));
    let colors = colors_for(&g);
    let plain = paint_cells(&g, &colors, ColorMode::NoColor, Align::Center, 90, 1);
    for mode in [ColorMode::True, ColorMode::Ansi256] {
        let painted = paint_cells(&g, &colors, mode, Align::Center, 90, 1);
        assert_ne!(painted, plain);
        assert_eq!(strip_escapes(&painted), plain);
    }
}

#[test]
fn stacked_banners_share_a_width() {
    let a = Banner { lines: vec!["ab".to_string(), "cd".to_string()], width: 2 };
    let b = Banner { lines: vec!["wxyz".to_string()], width: 4 };
    let s = Banner::stack(&vec![a, b]);
    assert_eq!(s.width, 4);
    assert_eq!(s.lines, vec!["ab  ".to_string(), "cd  ".to_string(), "wxyz".to_string()]);
}

#[test]
fn layout_multi_stacks_each_part() {
    let f = font();
    let hi = Banner::layout(&f, "Hi").unwrap();
    let yo = Banner::layout(&f, "Yo").unwrap();
    let both = Banner::layout_multi(&f, &vec!["Hi".to_string(), "Yo".to_string()]).unwrap();
    assert_eq!(both.height(), hi.height() + yo.height());
    assert_eq!(both.width, hi.width.max(yo.width));
    assert!(both.lines.iter().all(|l| UnicodeWidthStr::width(l.as_str()) == both.width));
    assert_eq!(
        Banner::layout_multi(&f, &Vec::new()).unwrap_err(),
        "could not render \"\" with this font"
    );
}
