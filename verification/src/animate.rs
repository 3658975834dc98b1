//! Reveal animations for a rendered banner: style names, frame text and the
//! cursor movement that redraws a frame in place.
use vstd::prelude::*;
use crate::color::{res_view, ColorMode, Rgb, fg_escape, reset_escape};
use crate::render::{Banner, lines_of, split_rows, free_of, count_of, lemma_free_concat, lemma_count_concat, lemma_count_free, lemma_fg_escape_free, strip_from, strip_escapes, inside_after, lemma_strip_concat, lemma_strip_plain, lemma_escapes_vanish};
use crate::strs::{lower, lower_chars, eq_lit, to_chars, from_chars, push_char, dec, dec_string};

verus! {

/// A reveal style.
#[derive(Clone, Copy, Debug, PartialEq, Eq, Structural)]
pub enum Anim {
    /// No animation.
    Off,
    /// A gradient shimmer that scrolls across the banner, then settles.
    Sweep,
    /// A left-to-right typewriter reveal, column by column.
    Type,
}

/// The style a lower-cased name selects.
pub open spec fn anim_named(q: Seq<char>) -> Option<Anim> {
    if q == "none"@ || q == "off"@ {
        Some(Anim::Off)
    } else if q == "sweep"@ || q == "shimmer"@ {
        Some(Anim::Sweep)
    } else if q == "type"@ || q == "typewriter"@ {
        Some(Anim::Type)
    } else {
        None
    }
}

/// What `Anim::parse` answers for `s` (names are case-insensitive).
pub open spec fn parse_anim(s: Seq<char>) -> Result<Anim, Seq<char>> {
    match anim_named(lower(s)) {
        Some(a) => Ok(a),
        None => Err("unknown animation: "@ + s + " (none|sweep|type)"@),
    }
}

impl Anim {
    pub fn parse(s: &str) -> (res: Result<Anim, String>)
        ensures
            res_view(res) == parse_anim(s@),
    {
        let q = lower_chars(s);
        if eq_lit(&q, "none") || eq_lit(&q, "off") {
            Ok(Anim::Off)
        } else if eq_lit(&q, "sweep") || eq_lit(&q, "shimmer") {
            Ok(Anim::Sweep)
        } else if eq_lit(&q, "type") || eq_lit(&q, "typewriter") {
            Ok(Anim::Type)
        } else {
            let mut e = String::from_str("unknown animation: ");
            e.append(s);
            e.append(" (none|sweep|type)");
            Err(e)
        }
    }

    pub fn is_animated(self) -> (b: bool)
        ensures
            b == (self != Anim::Off),
    {
        self != Anim::Off
    }
}

/// Each line of `content` cleared and redrawn: carriage return, clear line,
/// the line, line break.
pub open spec fn redraw_lines(ls: Seq<Seq<char>>) -> Seq<char>
    decreases ls.len(),
{
    if ls.len() == 0 {
        Seq::empty()
    } else {
        redraw_lines(ls.drop_last()) + "\r\x1b[2K"@ + ls.last() + "\n"@
    }
}

/// The text that draws one frame: unless it is the first frame, the cursor
/// first moves up `height` lines over the previous one.
pub open spec fn frame_output(content: Seq<char>, height: nat, first: bool) -> Seq<char> {
    (if first { Seq::empty() } else { "\x1b["@ + dec(height) + "A"@ }) + redraw_lines(lines_of(content))
}

/// The text that draws one frame over the previous one (see `frame_output`).
pub fn draw(content: &str, height: usize, first: bool) -> (out: String)
    ensures
        out@ == frame_output(content@, height as nat, first),
{
    let mut out = String::new();
    if !first {
        out.append("\x1b[");
        out.append(dec_string(height as u64).as_str());
        out.append("A");
    }
    let ghost head = out@;
    let cs = to_chars(content);
    let rows = split_rows(&cs);
    let ghost ls = rows@.map_values(|r: Vec<char>| r@);
    for i in 0..rows.len()
        invariant
            ls == rows@.map_values(|r: Vec<char>| r@),
            out@ == head + redraw_lines(ls.take(i as int)),
    {
        out.append("\r\x1b[2K");
        out.append(from_chars(&rows[i]).as_str());
        out.append("\n");
        assert(ls.take(i + 1).drop_last() =~= ls.take(i as int));
        assert(ls.take(i + 1).last() == rows@[i as int]@);
    }
    assert(ls.take(rows.len() as int) =~= ls);
    proof {
        reveal_strlit("");
    }
    out
}

/// One banner line of a frame from column `c` on: columns at or past
/// `reveal`, and spaces, show as spaces; a glyph is preceded by a color
/// escape when color is on and its column color differs from the last one
/// emitted.
pub open spec fn frame_line(chars: Seq<char>, colors: Seq<Rgb>, mode: ColorMode, reveal: int, c: int, last: Option<Rgb>) -> Seq<char>
    decreases chars.len() - c,
{
    if c >= chars.len() || c < 0 {
        Seq::empty()
    } else {
        let ch = chars[c];
        if c >= reveal || ch == ' ' {
            seq![' '] + frame_line(chars, colors, mode, reveal, c + 1, last)
        } else {
            let color = colors[c];
            if mode != ColorMode::NoColor && last != Some(color) {
                fg_escape(mode, color) + seq![ch] + frame_line(chars, colors, mode, reveal, c + 1, Some(color))
            } else {
                seq![ch] + frame_line(chars, colors, mode, reveal, c + 1, last)
            }
        }
    }
}

/// The first `k` lines of a frame, each ended by a reset and a line break.
pub open spec fn frame_text(lines: Seq<Seq<char>>, colors: Seq<Rgb>, mode: ColorMode, reveal: int, k: int) -> Seq<char>
    decreases k,
{
    if k <= 0 {
        Seq::empty()
    } else {
        frame_text(lines, colors, mode, reveal, k - 1) + frame_line(lines[k - 1], colors, mode, reveal, 0, None)
            + reset_escape(mode) + seq!['\n']
    }
}

/// `colors` gives a color to every column of every banner line.
pub open spec fn covers_columns(banner: &Banner, colors: Seq<Rgb>) -> bool {
    forall|i: int| 0 <= i < banner.lines@.len() ==> (#[trigger] banner.lines@[i])@.len() <= colors.len()
}

fn frame_line_into(out: &mut String, line: &String, colors: &Vec<Rgb>, mode: ColorMode, reveal: usize)
    requires
        line@.len() <= colors@.len(),
    ensures
        final(out)@ == old(out)@ + frame_line(line@, colors@, mode, reveal as int, 0, None),
{
    let cs = to_chars(line.as_str());
    let mut last: Option<Rgb> = None;
    for c in 0..cs.len()
        invariant
            cs@ == line@,
            cs@.len() <= colors@.len(),
            old(out)@ + frame_line(cs@, colors@, mode, reveal as int, 0, None) == out@ + frame_line(
                cs@,
                colors@,
                mode,
                reveal as int,
                c as int,
                last,
            ),
    {
        let ch = cs[c];
        let ghost before = out@;
        let ghost rest_last = last;
        if c >= reveal || ch == ' ' {
            push_char(out, ' ');
            assert(before + (seq![' '] + frame_line(cs@, colors@, mode, reveal as int, c + 1, rest_last)) =~= out@ + frame_line(cs@, colors@, mode, reveal as int, c + 1, last));
        } else {
            let color = colors[c];
            if mode != ColorMode::NoColor && last != Some(color) {
                out.append(mode.fg(color).as_str());
                push_char(out, ch);
                last = Some(color);
                assert(before + (fg_escape(mode, color) + seq![ch] + frame_line(cs@, colors@, mode, reveal as int, c + 1, Some(color))) =~= out@ + frame_line(cs@, colors@, mode, reveal as int, c + 1, last));
            } else {
                push_char(out, ch);
                assert(before + (seq![ch] + frame_line(cs@, colors@, mode, reveal as int, c + 1, rest_last)) =~= out@ + frame_line(cs@, colors@, mode, reveal as int, c + 1, last));
            }
        }
    }
    assert(out@ + frame_line(cs@, colors@, mode, reveal as int, cs@.len() as int, last) =~= out@);
}

fn frame(banner: &Banner, colors: &Vec<Rgb>, mode: ColorMode, reveal: usize) -> (out: String)
    requires
        covers_columns(banner, colors@),
    ensures
        out@ == frame_text(crate::render::line_views(banner.lines@), colors@, mode, reveal as int, banner.lines@.len() as int),
{
    let ghost ls = crate::render::line_views(banner.lines@);
    let mut out = String::new();
    for i in 0..banner.lines.len()
        invariant
            covers_columns(banner, colors@),
            ls == crate::render::line_views(banner.lines@),
            out@ == frame_text(ls, colors@, mode, reveal as int, i as int),
    {
        frame_line_into(&mut out, &banner.lines[i], colors, mode, reveal);
        out.append(mode.reset());
        push_char(&mut out, '\n');
        assert(ls[i as int] == banner.lines@[i as int]@);
        assert(out@ =~= frame_text(ls, colors@, mode, reveal as int, i + 1));
    }
    out
}

/// A typewriter frame: the banner with columns `0..reveal` shown, colored by
/// column (`colors[c]` is column `c`'s color).
pub fn type_frame(banner: &Banner, colors: &Vec<Rgb>, mode: ColorMode, reveal: usize) -> (out: String)
    requires
        covers_columns(banner, colors@),
    ensures
        out@ == frame_text(crate::render::line_views(banner.lines@), colors@, mode, reveal as int, banner.lines@.len() as int),
{
    frame(banner, colors, mode, reveal)
}

/// A sweep frame: every column shown, colored by column (`colors[c]` is the
/// shifted gradient color of column `c`).
pub fn sweep_frame(banner: &Banner, colors: &Vec<Rgb>, mode: ColorMode) -> (out: String)
    requires
        covers_columns(banner, colors@),
    ensures
        out@ == frame_text(crate::render::line_views(banner.lines@), colors@, mode, usize::MAX as int, banner.lines@.len() as int),
{
    frame(banner, colors, mode, usize::MAX)
}


/// Made only of spaces and line breaks.
pub open spec fn blank_text(s: Seq<char>) -> bool {
    forall|i: int| 0 <= i < s.len() ==> (#[trigger] s[i] == ' ' || s[i] == '\n')
}

proof fn lemma_blank_concat(a: Seq<char>, b: Seq<char>)
    requires
        blank_text(a),
        blank_text(b),
    ensures
        blank_text(a + b),
{
    assert forall|i: int| 0 <= i < (a + b).len() implies ((a + b)[i] == ' ' || (a + b)[i] == '\n') by {
        if i < a.len() {
            assert((a + b)[i] == a[i]);
        } else {
            assert((a + b)[i] == b[i - a.len()]);
        }
    }
}

proof fn lemma_unrevealed_line(chars: Seq<char>, colors: Seq<Rgb>, c: int, last: Option<Rgb>)
    requires
        0 <= c,
    ensures
        blank_text(frame_line(chars, colors, ColorMode::NoColor, 0, c, last)),
    decreases chars.len() - c,
{
    if c < chars.len() {
        lemma_unrevealed_line(chars, colors, c + 1, last);
        lemma_blank_concat(seq![' '], frame_line(chars, colors, ColorMode::NoColor, 0, c + 1, last));
    }
}

/// Before the typewriter reveals anything, a colorless frame is nothing but
/// spaces and line breaks.
pub proof fn lemma_unrevealed_frame_is_blank(lines: Seq<Seq<char>>, colors: Seq<Rgb>, k: int)
    requires
        0 <= k <= lines.len(),
    ensures
        blank_text(frame_text(lines, colors, ColorMode::NoColor, 0, k)),
    decreases k,
{
    if k > 0 {
        lemma_unrevealed_frame_is_blank(lines, colors, k - 1);
        lemma_unrevealed_line(lines[k - 1], colors, 0, None);
        let a = frame_text(lines, colors, ColorMode::NoColor, 0, k - 1);
        let b = frame_line(lines[k - 1], colors, ColorMode::NoColor, 0, 0, None);
        assert(reset_escape(ColorMode::NoColor) =~= Seq::<char>::empty());
        lemma_blank_concat(a, b);
        lemma_blank_concat(a + b, reset_escape(ColorMode::NoColor));
        lemma_blank_concat(a + b + reset_escape(ColorMode::NoColor), seq!['\n']);
    }
}

proof fn lemma_frame_line_free(chars: Seq<char>, colors: Seq<Rgb>, mode: ColorMode, reveal: int, c: int, last: Option<Rgb>)
    requires
        0 <= c,
        free_of(chars, '\n'),
    ensures
        free_of(frame_line(chars, colors, mode, reveal, c, last), '\n'),
    decreases chars.len() - c,
{
    if c < chars.len() {
        let ch = chars[c];
        if c >= reveal || ch == ' ' {
            lemma_frame_line_free(chars, colors, mode, reveal, c + 1, last);
            lemma_free_concat(seq![' '], frame_line(chars, colors, mode, reveal, c + 1, last), '\n');
        } else {
            let color = colors[c];
            if mode != ColorMode::NoColor && last != Some(color) {
                lemma_frame_line_free(chars, colors, mode, reveal, c + 1, Some(color));
                lemma_fg_escape_free(mode, color);
                lemma_free_concat(fg_escape(mode, color), seq![ch], '\n');
                lemma_free_concat(fg_escape(mode, color) + seq![ch], frame_line(chars, colors, mode, reveal, c + 1, Some(color)), '\n');
            } else {
                lemma_frame_line_free(chars, colors, mode, reveal, c + 1, last);
                lemma_free_concat(seq![ch], frame_line(chars, colors, mode, reveal, c + 1, last), '\n');
            }
        }
    }
}

/// Every frame has exactly one line per banner line (when the banner's
/// lines hold no line breaks themselves).
pub proof fn lemma_frame_line_count(lines: Seq<Seq<char>>, colors: Seq<Rgb>, mode: ColorMode, reveal: int, k: int)
    requires
        0 <= k <= lines.len(),
        forall|i: int| 0 <= i < lines.len() ==> free_of(#[trigger] lines[i], '\n'),
    ensures
        count_of(frame_text(lines, colors, mode, reveal, k), '\n') == k,
    decreases k,
{
    if k > 0 {
        lemma_frame_line_count(lines, colors, mode, reveal, k - 1);
        let a = frame_text(lines, colors, mode, reveal, k - 1);
        let b = frame_line(lines[k - 1], colors, mode, reveal, 0, None);
        lemma_frame_line_free(lines[k - 1], colors, mode, reveal, 0, None);
        lemma_fg_escape_free(mode, Rgb { r: 0, g: 0, b: 0 });
        lemma_free_concat(b, reset_escape(mode), '\n');
        lemma_count_free(b + reset_escape(mode), '\n');
        lemma_count_concat(b + reset_escape(mode), seq!['\n'], '\n');
        assert(count_of(seq!['\n'], '\n') == 1) by {
            assert(seq!['\n'].drop_last() =~= Seq::<char>::empty());
            reveal_with_fuel(count_of, 2);
        }
        assert(frame_text(lines, colors, mode, reveal, k) =~= a + (b + reset_escape(mode) + seq!['\n']));
        lemma_count_concat(a, b + reset_escape(mode) + seq!['\n'], '\n');
    }
}

/// What one frame of an animation shows.
#[derive(Clone, Copy, Debug, PartialEq, Eq, Structural)]
pub enum FrameKind {
    /// The gradient shifted by `step / fps` of a cycle.
    Sweep { step: u32 },
    /// The typewriter with columns `0..reveal` shown.
    Type { reveal: usize },
}

/// One frame of an animation: what it shows, whether it is the first one
/// (nothing to draw over), whether it is redrawn in place (`draw`) rather
/// than written as it is, and whether a frame delay follows it.
#[derive(Clone, Copy, Debug, PartialEq, Eq, Structural)]
pub struct Frame {
    pub kind: FrameKind,
    pub first: bool,
    pub drawn: bool,
    pub pause: bool,
}

/// The frame rate, held to `1..=120` frames per second.
pub open spec fn clamped_fps(fps: u32) -> u32 {
    if fps < 1 {
        1
    } else if fps > 120 {
        120
    } else {
        fps
    }
}

/// Hold the frame rate to `1..=120` frames per second.
pub fn clamp_fps(fps: u32) -> (f: u32)
    ensures
        f == clamped_fps(fps),
{
    if fps < 1 {
        1
    } else if fps > 120 {
        120
    } else {
        fps
    }
}

/// The `k`-th frame (counting from 0) of an animation, or `None` once it is
/// over. Without animation the finished banner is written once. A sweep
/// scrolls the gradient for two seconds (one cycle per second), each frame
/// followed by a delay, then settles on the unshifted banner. A typewriter
/// reveals one more column per frame, from none to the banner's full width.
pub open spec fn frame_at(style: Anim, fps: u32, width: usize, k: nat) -> Option<Frame> {
    match style {
        Anim::Off => if k == 0 {
            Some(Frame { kind: FrameKind::Sweep { step: 0 }, first: true, drawn: false, pause: false })
        } else {
            None
        },
        Anim::Sweep => {
            let n = 2 * clamped_fps(fps);
            if k < n {
                Some(Frame { kind: FrameKind::Sweep { step: k as u32 }, first: k == 0, drawn: true, pause: true })
            } else if k == n {
                Some(Frame { kind: FrameKind::Sweep { step: 0 }, first: false, drawn: true, pause: false })
            } else {
                None
            }
        },
        Anim::Type => if k <= width {
            Some(Frame { kind: FrameKind::Type { reveal: k as usize }, first: k == 0, drawn: true, pause: true })
        } else {
            None
        },
    }
}

/// The `k`-th frame of an animation played at `fps` over a banner `width`
/// columns wide; `None` once the animation is over. The application draws
/// each frame, waits where asked, and asks for the next.
pub fn next_frame(style: Anim, fps: u32, width: usize, k: usize) -> (f: Option<Frame>)
    ensures
        f == frame_at(style, fps, width, k as nat),
{
    match style {
        Anim::Off => if k == 0 {
            Some(Frame { kind: FrameKind::Sweep { step: 0 }, first: true, drawn: false, pause: false })
        } else {
            None
        },
        Anim::Sweep => {
            let n: usize = 2 * (clamp_fps(fps) as usize);
            if k < n {
                Some(Frame { kind: FrameKind::Sweep { step: k as u32 }, first: k == 0, drawn: true, pause: true })
            } else if k == n {
                Some(Frame { kind: FrameKind::Sweep { step: 0 }, first: false, drawn: true, pause: false })
            } else {
                None
            }
        },
        Anim::Type => if k <= width {
            Some(Frame { kind: FrameKind::Type { reveal: k }, first: k == 0, drawn: true, pause: true })
        } else {
            None
        },
    }
}

/// Every animation ends: no frame follows the first missing one, and the
/// frames before it are all there.
pub proof fn lemma_animation_ends(style: Anim, fps: u32, width: usize, k: nat, j: nat)
    requires
        frame_at(style, fps, width, k) is None,
        k <= j,
    ensures
        frame_at(style, fps, width, j) is None,
{
}

/// Only the first frame is drawn without moving over a previous one, and
/// the last frame of an animation leaves the finished banner: the sweep
/// settles on the unshifted gradient and the typewriter shows every column.
pub proof fn lemma_animation_finishes(style: Anim, fps: u32, width: usize, k: nat)
    requires
        frame_at(style, fps, width, k) is Some,
        frame_at(style, fps, width, k + 1) is None,
        width < usize::MAX,
    ensures
        frame_at(style, fps, width, k)->0.kind == (match style {
            Anim::Type => FrameKind::Type { reveal: width },
            _ => FrameKind::Sweep { step: 0 },
        }),
        frame_at(style, fps, width, k)->0.first == (k == 0),
{
}

proof fn lemma_full_reveal_line(chars: Seq<char>, colors: Seq<Rgb>, mode: ColorMode, reveal: int, c: int, last: Option<Rgb>)
    requires
        0 <= c,
        chars.len() <= reveal <= usize::MAX,
    ensures
        frame_line(chars, colors, mode, reveal, c, last) == frame_line(chars, colors, mode, usize::MAX as int, c, last),
    decreases chars.len() - c,
{
    if c < chars.len() {
        lemma_full_reveal_line(chars, colors, mode, reveal, c + 1, last);
        lemma_full_reveal_line(chars, colors, mode, reveal, c + 1, Some(colors[c]));
    }
}

/// Once the typewriter has revealed as many columns as the widest line has,
/// its frame is the settled banner a sweep ends on.
pub proof fn lemma_full_reveal_is_settled(lines: Seq<Seq<char>>, colors: Seq<Rgb>, mode: ColorMode, reveal: int, k: int)
    requires
        0 <= k <= lines.len(),
        reveal <= usize::MAX,
        forall|i: int| 0 <= i < lines.len() ==> (#[trigger] lines[i]).len() <= reveal,
    ensures
        frame_text(lines, colors, mode, reveal, k) == frame_text(lines, colors, mode, usize::MAX as int, k),
    decreases k,
{
    if k > 0 {
        lemma_full_reveal_is_settled(lines, colors, mode, reveal, k - 1);
        lemma_full_reveal_line(lines[k - 1], colors, mode, reveal, 0, None);
    }
}

proof fn lemma_frame_line_strip(chars: Seq<char>, colors: Seq<Rgb>, mode: ColorMode, reveal: int, c: int, last: Option<Rgb>)
    requires
        0 <= c,
        free_of(chars, '\x1b'),
    ensures
        strip_from(frame_line(chars, colors, mode, reveal, c, last), false) == frame_line(chars, colors, ColorMode::NoColor, reveal, c, None),
        !inside_after(frame_line(chars, colors, mode, reveal, c, last), false),
    decreases chars.len() - c,
{
    if c < chars.len() {
        let ch = chars[c];
        assert(ch != '\x1b');
        lemma_strip_plain(seq![ch]);
        lemma_strip_plain(seq![' ']);
        if c >= reveal || ch == ' ' {
            lemma_frame_line_strip(chars, colors, mode, reveal, c + 1, last);
            lemma_strip_concat(seq![' '], frame_line(chars, colors, mode, reveal, c + 1, last), false);
        } else {
            let color = colors[c];
            if mode != ColorMode::NoColor && last != Some(color) {
                lemma_frame_line_strip(chars, colors, mode, reveal, c + 1, Some(color));
                lemma_escapes_vanish(mode, color);
                lemma_strip_concat(fg_escape(mode, color), seq![ch], false);
                lemma_strip_concat(fg_escape(mode, color) + seq![ch], frame_line(chars, colors, mode, reveal, c + 1, Some(color)), false);
                assert(Seq::<char>::empty() + seq![ch] =~= seq![ch]);
            } else {
                lemma_frame_line_strip(chars, colors, mode, reveal, c + 1, last);
                lemma_strip_concat(seq![ch], frame_line(chars, colors, mode, reveal, c + 1, last), false);
            }
        }
    }
}

/// Color only adds escape sequences to an animation frame: with them
/// removed, a frame in any mode is the colorless frame (when the banner's
/// lines hold no escape character).
pub proof fn lemma_frame_color_only_adds_escapes(lines: Seq<Seq<char>>, colors: Seq<Rgb>, mode: ColorMode, reveal: int, k: int)
    requires
        0 <= k <= lines.len(),
        forall|i: int| 0 <= i < lines.len() ==> free_of(#[trigger] lines[i], '\x1b'),
    ensures
        strip_escapes(frame_text(lines, colors, mode, reveal, k)) == frame_text(lines, colors, ColorMode::NoColor, reveal, k),
        !inside_after(frame_text(lines, colors, mode, reveal, k), false),
    decreases k,
{
    if k > 0 {
        lemma_frame_color_only_adds_escapes(lines, colors, mode, reveal, k - 1);
        let prev = frame_text(lines, colors, mode, reveal, k - 1);
        let fl = frame_line(lines[k - 1], colors, mode, reveal, 0, None);
        assert(free_of(lines[k - 1], '\x1b'));
        lemma_frame_line_strip(lines[k - 1], colors, mode, reveal, 0, None);
        lemma_escapes_vanish(mode, Rgb { r: 0, g: 0, b: 0 });
        lemma_strip_plain(seq!['\n']);
        lemma_strip_concat(prev, fl, false);
        lemma_strip_concat(prev + fl, reset_escape(mode), false);
        lemma_strip_concat(prev + fl + reset_escape(mode), seq!['\n'], false);
        assert(reset_escape(ColorMode::NoColor) =~= Seq::<char>::empty());
        assert(frame_text(lines, colors, ColorMode::NoColor, reveal, k) =~= frame_text(lines, colors, ColorMode::NoColor, reveal, k - 1)
            + frame_line(lines[k - 1], colors, ColorMode::NoColor, reveal, 0, None) + seq!['\n']);
    }
}

} // verus!
