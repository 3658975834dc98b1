//! The decisions of the command-line front end: where the banner text comes
//! from, which settings win, which colors and gradient stops to use, and how
//! the output is framed. The application performs the I/O around them.
use vstd::prelude::*;
use crate::color::{fg_escape, parse_rgb, reset_escape, ColorMode, Rgb};
use crate::config::{entries_map, entry_index, overlay, Config};
use crate::rng::{mix, output, pick_one, state_after, SplitMix};
use crate::gradient::{preset_colors, preset_name_list, preset_names, preset_stops};
use crate::fonts::catalog;
use crate::fonts::{join, parse_usize, parse_usize_chars, split_words_exec, words};
use crate::render::{lines_of, split_rows};
use crate::strs::{eq_lit, from_chars, lemma_lex_total, lemma_lex_trans, lex_le, lex_le_exec, lower, lower_chars, push_char, to_chars};
use crate::text::{trim, trim_chars};
use crate::themes::opt_view;

verus! {

/// The characters of each part.
pub open spec fn parts_view(parts: Seq<Vec<char>>) -> Seq<Seq<char>> {
    parts.map_values(|p: Vec<char>| p@)
}

/// `parts` joined with `sep` (`[..].join(sep)`).
pub fn join_parts(parts: &Vec<Vec<char>>, sep: &str) -> (s: String)
    ensures
        s@ == join(parts_view(parts@), sep@),
{
    let ghost pv = parts_view(parts@);
    let mut s = String::new();
    for i in 0..parts.len()
        invariant
            pv == parts_view(parts@),
            s@ == join(pv.take(i as int), sep@),
    {
        if i > 0 {
            s.append(sep);
        }
        s.append(from_chars(&parts[i]).as_str());
        assert(pv.take(i + 1).drop_last() =~= pv.take(i as int));
        assert(pv.take(i + 1).last() == parts@[i as int]@);
        if i == 0 {
            assert(pv.take(1) =~= seq![pv[0]]);
        }
    }
    assert(pv.take(parts.len() as int) =~= pv);
    s
}

/// The characters of each string.
pub open spec fn strings_view(v: Seq<String>) -> Seq<Seq<char>> {
    v.map_values(|s: String| s@)
}

fn chars_of_all(v: &Vec<String>) -> (r: Vec<Vec<char>>)
    ensures
        parts_view(r@) == strings_view(v@),
{
    let mut r: Vec<Vec<char>> = Vec::new();
    for i in 0..v.len()
        invariant
            r.len() == i,
            parts_view(r@) == strings_view(v@).take(i as int),
    {
        let cs = to_chars(v[i].as_str());
        assert(cs@ == v@[i as int]@);
        r.push(cs);
        assert(r@[i as int]@ == strings_view(v@)[i as int]);
        assert(parts_view(r@) =~= strings_view(v@).take(i + 1));
    }
    assert(strings_view(v@).take(v.len() as int) =~= strings_view(v@));
    r
}

/// Piped text made into banner text: in line mode each line keeps its
/// place with its whitespace runs collapsed to single spaces; otherwise all
/// whitespace, line breaks included, collapses to single spaces.
pub open spec fn piped_text(buf: Seq<char>, lines: bool) -> Seq<char> {
    if lines {
        join(lines_of(buf).map_values(|l: Seq<char>| join(words(l), " "@)), "\n"@)
    } else {
        join(words(buf), " "@)
    }
}

/// The message when there is no text to render.
pub open spec fn no_text_message() -> Seq<char> {
    "no text given. Try: sigil \"My Project\"  or pipe it: echo hi | sigil"@
}

/// Where the banner text comes from: the arguments (joined with spaces, or
/// with line breaks in line mode), else piped input (`stdin` is `None` when
/// input is a terminal).
pub open spec fn resolved_text(args: Seq<Seq<char>>, lines: bool, stdin: Option<Seq<char>>) -> Result<Seq<char>, Seq<char>> {
    if args.len() > 0 {
        Ok(join(args, if lines { "\n"@ } else { " "@ }))
    } else {
        match stdin {
            None => Err(no_text_message()),
            Some(buf) => {
                let t = piped_text(buf, lines);
                if trim(t).len() == 0 {
                    Err("no text on stdin"@)
                } else {
                    Ok(t)
                }
            },
        }
    }
}

fn collapse_words(line: &Vec<char>) -> (s: Vec<char>)
    ensures
        s@ == join(words(line@), " "@),
{
    let ws = split_words_exec(line);
    to_chars(join_parts(&ws, " ").as_str())
}

/// A `Result` of strings taken by the characters on either side.
pub open spec fn text_res_view(r: Result<String, String>) -> Result<Seq<char>, Seq<char>> {
    match r {
        Ok(s) => Ok(s@),
        Err(e) => Err(e@),
    }
}

/// Determine the banner text from the arguments or, when there are none,
/// from piped input (`stdin` is `None` when input is a terminal).
pub fn resolve_text(args: &Vec<String>, lines: bool, stdin: Option<&str>) -> (res: Result<String, String>)
    ensures
        text_res_view(res) == resolved_text(strings_view(args@), lines, match stdin {
            Some(b) => Some(b@),
            None => None,
        }),
{
    if args.len() > 0 {
        let parts = chars_of_all(args);
        return Ok(join_parts(&parts, if lines { "\n" } else { " " }));
    }
    match stdin {
        None => Err(String::from_str("no text given. Try: sigil \"My Project\"  or pipe it: echo hi | sigil")),
        Some(buf) => {
            let cs = to_chars(buf);
            let text = if lines {
                let rows = split_rows(&cs);
                let ghost rv = rows@.map_values(|r: Vec<char>| r@);
                let mut collapsed: Vec<Vec<char>> = Vec::new();
                for i in 0..rows.len()
                    invariant
                        collapsed.len() == i,
                        rv == rows@.map_values(|r: Vec<char>| r@),
                        parts_view(collapsed@) == rv.take(i as int).map_values(|l: Seq<char>| join(words(l), " "@)),
                {
                    let cw = collapse_words(&rows[i]);
                    assert(rv[i as int] == rows@[i as int]@);
                    collapsed.push(cw);
                    assert(collapsed@[i as int]@ == join(words(rv[i as int]), " "@));
                    assert(rv.len() == rows.len());
                    assert(rv.take(i + 1).drop_last() =~= rv.take(i as int));
                    assert forall|j: int| 0 <= j < i + 1 implies #[trigger] parts_view(collapsed@)[j]
                        == rv.take(i + 1).map_values(|l: Seq<char>| join(words(l), " "@))[j] by {
                        if j < i {
                            assert(parts_view(collapsed@)[j] == collapsed@[j]@);
                            assert(rv.take(i as int).map_values(|l: Seq<char>| join(words(l), " "@))[j]
                                == join(words(rv[j]), " "@));
                        }
                    }
                    assert(parts_view(collapsed@) =~= rv.take(i + 1).map_values(|l: Seq<char>| join(words(l), " "@)));
                }
                assert(rv.take(rows.len() as int) =~= rv);
                join_parts(&collapsed, "\n")
            } else {
                let ws = split_words_exec(&cs);
                join_parts(&ws, " ")
            };
            let t = trim_chars(&to_chars(text.as_str()));
            if t.len() == 0 {
                Err(String::from_str("no text on stdin"))
            } else {
                Ok(text)
            }
        },
    }
}

/// A string slice, if any, taken by its characters.
pub open spec fn opt_str_view(o: Option<&str>) -> Option<Seq<char>> {
    match o {
        Some(v) => Some(v@),
        None => None,
    }
}

/// The terminal width the `COLUMNS` value gives: a positive decimal number,
/// else 80 columns.
pub open spec fn columns_width(columns: Option<Seq<char>>) -> nat {
    match columns {
        Some(v) => match parse_usize(v) {
            Some(n) => if n > 0 { n } else { 80 },
            None => 80,
        },
        None => 80,
    }
}

/// Best-effort terminal width from the `COLUMNS` value; 80 columns when it
/// is unset or not a positive number.
pub fn term_width(columns: Option<&str>) -> (w: usize)
    ensures
        w == columns_width(opt_str_view(columns)),
{
    match columns {
        Some(v) => match parse_usize_chars(&to_chars(v)) {
            Some(n) => if n > 0 { n } else { 80 },
            None => 80,
        },
        None => 80,
    }
}

/// Where the rendered banner goes and how it is framed for it.
#[derive(Clone, Copy, Debug, PartialEq, Eq, Structural)]
pub enum Format {
    /// Direct terminal output: aligned to the terminal, colored on a TTY.
    Term,
    /// The painted banner with its color escapes, wherever it is written.
    Ansi,
    /// Plain glyphs, never colored.
    Raw,
    /// A standalone SVG picture.
    Svg,
    /// The plain banner in a fenced Markdown code block.
    Markdown,
    /// The composed grid as JSON: its size, and each cell's glyph and color.
    Json,
}

/// The format a lower-cased name selects.
pub open spec fn format_named(q: Seq<char>) -> Option<Format> {
    if q == "term"@ {
        Some(Format::Term)
    } else if q == "ansi"@ {
        Some(Format::Ansi)
    } else if q == "raw"@ {
        Some(Format::Raw)
    } else if q == "svg"@ {
        Some(Format::Svg)
    } else if q == "markdown"@ || q == "md"@ {
        Some(Format::Markdown)
    } else if q == "json"@ {
        Some(Format::Json)
    } else {
        None
    }
}

/// What `Format::parse` answers for `s` (names are case-insensitive).
pub open spec fn parse_format(s: Seq<char>) -> Result<Format, Seq<char>> {
    match format_named(lower(s)) {
        Some(f) => Ok(f),
        None => Err("unknown format: "@ + s + " (term|ansi|raw|svg|markdown|json)"@),
    }
}

impl Format {
    pub fn parse(s: &str) -> (res: Result<Format, String>)
        ensures
            crate::color::res_view(res) == parse_format(s@),
    {
        let q = lower_chars(s);
        if eq_lit(&q, "term") {
            Ok(Format::Term)
        } else if eq_lit(&q, "ansi") {
            Ok(Format::Ansi)
        } else if eq_lit(&q, "raw") {
            Ok(Format::Raw)
        } else if eq_lit(&q, "svg") {
            Ok(Format::Svg)
        } else if eq_lit(&q, "markdown") || eq_lit(&q, "md") {
            Ok(Format::Markdown)
        } else if eq_lit(&q, "json") {
            Ok(Format::Json)
        } else {
            let mut e = String::from_str("unknown format: ");
            e.append(s);
            e.append(" (term|ansi|raw|svg|markdown|json)");
            Err(e)
        }
    }

    /// Whether the format carries color wherever it is written.
    pub fn forces_color(self) -> (b: bool)
        ensures
            b == (self == Format::Ansi),
    {
        match self {
            Format::Ansi => true,
            _ => false,
        }
    }
}

/// The color mode of a render: `--no-color` and `NO_COLOR` always win, raw,
/// Markdown and JSON output hold no escapes, a format that carries color
/// uses what the terminal supports, and terminal output is colored only on
/// a real terminal.
pub open spec fn chosen_mode(no_color: bool, no_color_env: bool, format: Format, to_terminal: bool, supported: ColorMode) -> ColorMode {
    if no_color || no_color_env {
        ColorMode::NoColor
    } else if format == Format::Raw || format == Format::Markdown || format == Format::Json {
        ColorMode::NoColor
    } else if format == Format::Ansi {
        supported
    } else if to_terminal {
        supported
    } else {
        ColorMode::NoColor
    }
}

/// Decide the color mode for a render. `to_terminal` says whether output
/// goes to stdout and stdout is a terminal; `supported` is the mode the
/// environment supports.
pub fn color_mode(no_color: bool, no_color_env: bool, format: Format, to_terminal: bool, supported: ColorMode) -> (m: ColorMode)
    ensures
        m == chosen_mode(no_color, no_color_env, format, to_terminal, supported),
{
    if no_color || no_color_env {
        return ColorMode::NoColor;
    }
    if format == Format::Raw || format == Format::Markdown || format == Format::Json {
        return ColorMode::NoColor;
    }
    if format.forces_color() {
        return supported;
    }
    if to_terminal {
        supported
    } else {
        ColorMode::NoColor
    }
}

/// Interior padding (columns, rows): a framed banner gets one row and two
/// columns of breathing room unless told otherwise, and always one column
/// more than rows; an unframed one gets none by default.
pub fn frame_padding(framed: bool, padding: Option<usize>) -> (p: (usize, usize))
    requires
        framed ==> padding != Some(usize::MAX),
    ensures
        framed ==> p == (match padding {
            Some(n) => ((n + 1) as usize, n),
            None => (2usize, 1usize),
        }),
        !framed ==> p == (match padding {
            Some(n) => (n, n),
            None => (0usize, 0usize),
        }),
{
    if framed {
        let p = match padding {
            Some(n) => n,
            None => 1,
        };
        (p + 1, p)
    } else {
        let p = match padding {
            Some(n) => n,
            None => 0,
        };
        (p, p)
    }
}

/// The width of the framed box: the banner, the padding on both sides and,
/// with a frame, one column on each side.
pub fn framed_width(banner_width: usize, pad_x: usize, framed: bool) -> (w: usize)
    requires
        banner_width + 2 * pad_x + 2 <= usize::MAX,
    ensures
        w == banner_width + 2 * pad_x + (if framed { 2int } else { 0int }),
{
    banner_width + 2 * pad_x + if framed { 2 } else { 0 }
}

/// The width to align within and the blank lines around the banner: direct
/// terminal output aligns to the given or terminal width with the margin;
/// every other format stays tight to the framed box with no margin.
pub fn output_extent(format: Format, width: Option<usize>, term_cols: usize, margin: usize, framed_w: usize) -> (e: (usize, usize))
    ensures
        format == Format::Term ==> e == (match width {
            Some(w) => w,
            None => term_cols,
        }, margin),
        format != Format::Term ==> e == (framed_w, 0usize),
{
    if format == Format::Term {
        let w = match width {
            Some(w) => w,
            None => term_cols,
        };
        (w, margin)
    } else {
        (framed_w, 0)
    }
}

/// `text` in bold, unless color is off.
pub fn bold(text: &str, mode: ColorMode) -> (s: String)
    ensures
        s@ == (if mode == ColorMode::NoColor { text@ } else { "\x1b[1m"@ + text@ + "\x1b[0m"@ }),
{
    match mode {
        ColorMode::NoColor => String::from_str(text),
        _ => {
            let mut s = String::from_str("\x1b[1m");
            s.append(text);
            s.append("\x1b[0m");
            s
        },
    }
}

/// `str::split(sep)` on the rest `s` of a text whose current, unfinished
/// piece is `cur`: every separator ends a piece, empty pieces included.
pub open spec fn split_on(s: Seq<char>, sep: char, cur: Seq<char>) -> Seq<Seq<char>>
    decreases s.len(),
{
    if s.len() == 0 {
        seq![cur]
    } else if s[0] == sep {
        seq![cur] + split_on(s.drop_first(), sep, Seq::empty())
    } else {
        split_on(s.drop_first(), sep, cur.push(s[0]))
    }
}

/// The pieces of `s` between occurrences of `sep` (`str::split`).
pub open spec fn pieces(s: Seq<char>, sep: char) -> Seq<Seq<char>> {
    split_on(s, sep, Seq::empty())
}

/// Split `s` at every `sep`, keeping empty pieces.
pub fn split_at_char(s: &str, sep: char) -> (ps: Vec<String>)
    ensures
        strings_view(ps@) == pieces(s@, sep),
{
    let cs = to_chars(s);
    let mut ps: Vec<String> = Vec::new();
    let mut cur: Vec<char> = Vec::new();
    assert(cs@.skip(0) == cs@);
    assert(strings_view(ps@) + split_on(cs@, sep, cur@) =~= split_on(cs@, sep, cur@));
    for i in 0..cs.len()
        invariant
            cs@ == s@,
            pieces(s@, sep) == strings_view(ps@) + split_on(cs@.skip(i as int), sep, cur@),
    {
        let c = cs[i];
        assert(cs@.skip(i as int).drop_first() == cs@.skip(i + 1));
        assert(cs@.skip(i as int)[0] == c);
        let ghost before = strings_view(ps@);
        let ghost old_cur = cur@;
        if c == sep {
            let piece = from_chars(&cur);
            ps.push(piece);
            assert(strings_view(ps@) =~= before + seq![old_cur]);
            cur = Vec::new();
        } else {
            cur.push(c);
        }
    }
    assert(cs@.skip(cs@.len() as int) == Seq::<char>::empty());
    let ghost before = strings_view(ps@);
    let ghost last = cur@;
    ps.push(from_chars(&cur));
    assert(strings_view(ps@) =~= before + seq![last]);
    ps
}

/// The colors of a list of hex stops, each trimmed first: the first stop
/// that does not parse gives its error.
pub open spec fn stop_colors(stops: Seq<Seq<char>>) -> Result<Seq<Rgb>, Seq<char>>
    decreases stops.len(),
{
    if stops.len() == 0 {
        Ok(Seq::empty())
    } else {
        match stop_colors(stops.drop_last()) {
            Err(e) => Err(e),
            Ok(v) => match parse_rgb(trim(stops.last())) {
                Ok(c) => Ok(v.push(c)),
                Err(e) => Err(e),
            },
        }
    }
}

/// What `parse_stops` answers: the colors of the stops, or an error when a
/// stop does not parse or there is none.
pub open spec fn parsed_stops(stops: Seq<Seq<char>>) -> Result<Seq<Rgb>, Seq<char>> {
    match stop_colors(stops) {
        Err(e) => Err(e),
        Ok(v) => if v.len() == 0 {
            Err("needs at least one hex stop"@)
        } else {
            Ok(v)
        },
    }
}

/// A list of colors, or a message.
pub open spec fn colors_res_view(r: Result<Vec<Rgb>, String>) -> Result<Seq<Rgb>, Seq<char>> {
    match r {
        Ok(v) => Ok(v@),
        Err(e) => Err(e@),
    }
}

proof fn lemma_stop_colors_err(stops: Seq<Seq<char>>, k: int)
    requires
        0 <= k <= stops.len(),
        stop_colors(stops.take(k)) is Err,
    ensures
        stop_colors(stops) == stop_colors(stops.take(k)),
    decreases stops.len() - k,
{
    if k < stops.len() {
        assert(stops.take(k + 1).drop_last() =~= stops.take(k));
        lemma_stop_colors_err(stops, k + 1);
    } else {
        assert(stops.take(k) =~= stops);
    }
}

/// Parse a list of hex color stops (each trimmed) into colors.
pub fn parse_stops(stops: &Vec<String>) -> (res: Result<Vec<Rgb>, String>)
    ensures
        colors_res_view(res) == parsed_stops(strings_view(stops@)),
{
    let ghost sv = strings_view(stops@);
    let mut colors: Vec<Rgb> = Vec::new();
    for i in 0..stops.len()
        invariant
            sv == strings_view(stops@),
            stop_colors(sv.take(i as int)) == Ok::<Seq<Rgb>, Seq<char>>(colors@),
    {
        let t = trim_chars(&to_chars(stops[i].as_str()));
        let stop = from_chars(&t);
        assert(sv.take(i + 1).drop_last() =~= sv.take(i as int));
        assert(sv.take(i + 1).last() == stops@[i as int]@);
        match Rgb::parse(stop.as_str()) {
            Ok(c) => {
                colors.push(c);
            },
            Err(e) => {
                proof {
                    lemma_stop_colors_err(sv, i + 1);
                }
                return Err(e);
            },
        }
    }
    assert(sv.take(stops.len() as int) =~= sv);
    if colors.len() == 0 {
        return Err(String::from_str("needs at least one hex stop"));
    }
    Ok(colors)
}

/// What `{:?}` writes for a string: the text quoted, with quotes,
/// backslashes and unprintable characters escaped.
pub uninterp spec fn debug_of(s: Seq<char>) -> Seq<char>;

/// `format!("{:?}", s)` for a string slice (`<str as Debug>::fmt`). The
/// contract names the text it writes; it does not spell out the escaping.
#[verifier::external_body]
fn debug_str(s: &str) -> (r: String)
    ensures
        r@ == debug_of(s@),
{
    format!("{:?}", s)
}

/// A list of colors, or a message that starts with `prefix`.
pub open spec fn with_prefix(prefix: Seq<char>, r: Result<Seq<Rgb>, Seq<char>>) -> Result<Seq<Rgb>, Seq<char>> {
    match r {
        Ok(v) => Ok(v),
        Err(e) => Err(prefix + e),
    }
}

/// Where the gradient stops come from: the comma-separated `--colors` list
/// first, then a gradient the user defined under that exact name, then a
/// built-in preset.
pub open spec fn resolved_stops(colors: Option<Seq<char>>, user: Map<Seq<char>, Vec<String>>, name: Seq<char>) -> Result<Seq<Rgb>, Seq<char>> {
    match colors {
        Some(list) => with_prefix("--colors: "@, parsed_stops(pieces(list, ','))),
        None => if user.contains_key(name) {
            with_prefix("gradient "@ + debug_of(name) + ": "@, parsed_stops(strings_view(user[name]@)))
        } else {
            match preset_colors(name) {
                Some(v) => Ok(v),
                None => Err("unknown gradient: "@ + name + ". See `sigil gradients`."@),
            }
        },
    }
}

/// Resolve the gradient's color stops from `--colors`, a user-defined
/// gradient, or a built-in preset (in that order of precedence).
pub fn resolve_stops(colors: &Option<String>, user: &Vec<(String, Vec<String>)>, name: &str) -> (res: Result<Vec<Rgb>, String>)
    ensures
        colors_res_view(res) == resolved_stops(opt_view(*colors), entries_map(user@), name@),
{
    match colors {
        Some(list) => {
            let ps = split_at_char(list.as_str(), ',');
            match parse_stops(&ps) {
                Ok(v) => Ok(v),
                Err(e) => {
                    let mut m = String::from_str("--colors: ");
                    m.append(e.as_str());
                    Err(m)
                },
            }
        },
        None => match entry_index(user, name) {
            Some(i) => match parse_stops(&user[i].1) {
                Ok(v) => Ok(v),
                Err(e) => {
                    let mut m = String::from_str("gradient ");
                    m.append(debug_str(name).as_str());
                    m.append(": ");
                    m.append(e.as_str());
                    Err(m)
                },
            },
            None => match preset_stops(name) {
                Some(v) => Ok(v),
                None => {
                    let mut m = String::from_str("unknown gradient: ");
                    m.append(name);
                    m.append(". See `sigil gradients`.");
                    Err(m)
                },
            },
        },
    }
}

/// Names of the bundled fonts, for random selection.
pub fn font_names() -> (v: Vec<&'static str>)
    ensures
        v@.map_values(|s: &str| s@) == crate::fonts::font_names(),
{
    let cat = catalog();
    let mut v: Vec<&'static str> = Vec::new();
    for i in 0..cat.len()
        invariant
            v.len() == i,
            cat@.len() == crate::fonts::font_names().len(),
            forall|j: int| 0 <= j < cat@.len() ==> (#[trigger] cat@[j]).name@ == crate::fonts::font_names()[j],
            v@.map_values(|s: &str| s@) == crate::fonts::font_names().take(i as int),
    {
        v.push(cat[i].name);
        assert(v@.map_values(|s: &str| s@) =~= crate::fonts::font_names().take(i + 1));
    }
    assert(crate::fonts::font_names().take(cat.len() as int) =~= crate::fonts::font_names());
    v
}

/// The seed for a random pick: the explicit seed, else the clock reading
/// (nanoseconds since the epoch, cut to 64 bits), else a fixed value when
/// the clock could not be read.
pub open spec fn chosen_seed(explicit: Option<u64>, clock_nanos: Option<u128>) -> u64 {
    match explicit {
        Some(s) => s,
        None => match clock_nanos {
            Some(n) => n as u64,
            None => 0x5EEDu64,
        },
    }
}

/// Seed for `--random`: the explicit `--seed`, or the clock reading.
pub fn random_seed(explicit: Option<u64>, clock_nanos: Option<u128>) -> (s: u64)
    ensures
        s == chosen_seed(explicit, clock_nanos),
{
    match explicit {
        Some(s) => s,
        None => match clock_nanos {
            Some(n) => n as u64,
            None => 0x5EED,
        },
    }
}

/// The `k`-th random pick (counting from 0) from `names` with a generator
/// seeded with `seed`.
pub open spec fn random_choice(names: Seq<Seq<char>>, seed: u64, k: nat) -> Seq<char> {
    names[(output(seed, k) % (names.len() as u64)) as int]
}

/// Whatever the seed, a gradient that `--random` picks is a built-in
/// preset (so it resolves to its stops) and a font it picks is a bundled
/// font.
pub proof fn lemma_random_picks_resolve(seed: u64)
    ensures
        preset_colors(random_choice(preset_name_list(), seed, 0)) is Some,
        crate::fonts::bundled_index(lower(random_choice(crate::fonts::font_names(), seed, 1))) is Some,
{
    let gi = (output(seed, 0) % 13u64) as int;
    let fi = (output(seed, 1) % 5u64) as int;
    assert(preset_name_list().len() == 13);
    assert(crate::fonts::font_names().len() == 5);
    crate::gradient::lemma_all_presets_resolve(gi);
    crate::fonts::lemma_catalog_names_resolve(fi);
}

/// `--seed` makes `--random` reproducible: with a seed given, the picks do
/// not depend on the clock.
pub proof fn lemma_seeded_picks_reproducible(flags: Flags, clock_a: Option<u128>, clock_b: Option<u128>)
    requires
        flags.seed is Some,
    ensures
        random_gradient(flags, clock_a) == random_gradient(flags, clock_b),
        random_font(flags, clock_a) == random_font(flags, clock_b),
{
}

/// The option values given on the command line; `None` where a flag was
/// not given. `angle_bits` holds the sweep angle (degrees, an `f32`) by its
/// IEEE-754 bit pattern.
pub struct Flags {
    pub gradient: Option<String>,
    pub colors: Option<String>,
    pub direction: Option<String>,
    pub angle_bits: Option<u32>,
    pub reverse: bool,
    pub cycle: Option<u32>,
    pub border: Option<String>,
    pub padding: Option<usize>,
    pub border_color: Option<String>,
    pub background: Option<String>,
    pub align: Option<String>,
    pub font: Option<String>,
    pub width: Option<usize>,
    pub margin: Option<usize>,
    pub no_color: bool,
    pub format: Option<String>,
    pub animate: Option<String>,
    pub fps: Option<u32>,
    pub lines: bool,
    pub random: bool,
    pub seed: Option<u64>,
}

/// Effective options after merging flags over config over the built-in
/// defaults (flag > project config > user config > default).
pub struct Settings {
    pub gradient: String,
    pub colors: Option<String>,
    pub font: String,
    pub direction: String,
    pub align: String,
    pub angle_bits: Option<u32>,
    pub reverse: bool,
    pub cycle: u32,
    pub border: String,
    pub padding: Option<usize>,
    pub border_color: Option<String>,
    pub background: Option<String>,
    pub margin: usize,
    pub width: Option<usize>,
    pub format: String,
    pub animate: String,
    pub fps: u32,
    pub no_color: bool,
    pub lines: bool,
    pub user_gradients: Vec<(String, Vec<String>)>,
}

/// The value of an option, or `d` when it is unset.
pub open spec fn or_default<T>(o: Option<T>, d: T) -> T {
    match o {
        Some(v) => v,
        None => d,
    }
}

/// The gradient that `--random` picks (the first draw from the seed);
/// `None` without `--random`.
pub open spec fn random_gradient(flags: Flags, clock_nanos: Option<u128>) -> Option<Seq<char>> {
    if flags.random {
        Some(random_choice(preset_name_list(), chosen_seed(flags.seed, clock_nanos), 0))
    } else {
        None
    }
}

/// The font that `--random` picks (the second draw from the seed); `None`
/// without `--random`.
pub open spec fn random_font(flags: Flags, clock_nanos: Option<u128>) -> Option<Seq<char>> {
    if flags.random {
        Some(random_choice(crate::fonts::font_names(), chosen_seed(flags.seed, clock_nanos), 1))
    } else {
        None
    }
}

fn clone_opt(o: &Option<String>) -> (r: Option<String>)
    ensures
        opt_view(r) == opt_view(*o),
{
    match o {
        Some(v) => Some(v.clone()),
        None => None,
    }
}

/// The flag when given, else the config value.
fn flag_or(flag: &Option<String>, cfg: Option<String>) -> (r: Option<String>)
    ensures
        opt_view(r) == overlay(opt_view(cfg), opt_view(*flag)),
{
    match flag {
        Some(v) => Some(v.clone()),
        None => cfg,
    }
}

fn str_or(o: Option<String>, d: &str) -> (s: String)
    ensures
        s@ == or_default(opt_view(o), d@),
{
    match o {
        Some(v) => v,
        None => String::from_str(d),
    }
}

fn or_else(a: Option<String>, b: Option<String>) -> (r: Option<String>)
    ensures
        opt_view(r) == overlay(opt_view(b), opt_view(a)),
{
    match a {
        Some(v) => Some(v),
        None => b,
    }
}

fn either<T: Copy>(flag: Option<T>, cfg: Option<T>) -> (r: Option<T>)
    ensures
        r == overlay(cfg, flag),
{
    match flag {
        Some(v) => Some(v),
        None => cfg,
    }
}

fn value_or<T: Copy>(o: Option<T>, d: T) -> (r: T)
    ensures
        r == or_default(o, d),
{
    match o {
        Some(v) => v,
        None => d,
    }
}

/// The gradient and font picked at random under `--random`: two draws from
/// one generator, the gradient first.
fn random_picks(flags: &Flags, clock_nanos: Option<u128>) -> (r: (Option<String>, Option<String>))
    ensures
        opt_view(r.0) == random_gradient(*flags, clock_nanos),
        opt_view(r.1) == random_font(*flags, clock_nanos),
{
    if flags.random {
        let ghost seed = chosen_seed(flags.seed, clock_nanos);
        let mut rng = SplitMix::new(random_seed(flags.seed, clock_nanos));
        let presets = preset_names();
        let fonts = font_names();
        assert(presets@.len() == 13) by {
            assert(presets@.map_values(|s: &str| s@).len() == preset_name_list().len());
        }
        assert(fonts@.len() == 5) by {
            assert(fonts@.map_values(|s: &str| s@).len() == crate::fonts::font_names().len());
        }
        let g = pick_one(&presets, &mut rng);
        assert(rng.state == state_after(seed, 1)) by {
            reveal_with_fuel(state_after, 2);
        }
        let f = pick_one(&fonts, &mut rng);
        assert(rng.state == state_after(seed, 2)) by {
            reveal_with_fuel(state_after, 3);
        }
        let ghost gi = (mix(state_after(seed, 1)) % 13u64) as int;
        let ghost fi = (mix(state_after(seed, 2)) % 5u64) as int;
        assert(presets@.map_values(|s: &str| s@)[gi] == presets@[gi]@);
        assert(fonts@.map_values(|s: &str| s@)[fi] == fonts@[fi]@);
        (Some(g), Some(f))
    } else {
        (None, None)
    }
}

impl Settings {
    /// Merge the flags over the config over the defaults. With `--random`,
    /// an unset gradient and font are picked at random (from the seed, or
    /// the clock reading `clock_nanos`); the picks override the config but
    /// not explicit flags.
    pub fn resolve(flags: &Flags, cfg: Config, clock_nanos: Option<u128>) -> (s: Settings)
        ensures
            s.gradient@ == or_default(overlay(overlay(opt_view(cfg.gradient), random_gradient(*flags, clock_nanos)), opt_view(flags.gradient)), "ocean"@),
            opt_view(s.colors) == overlay(opt_view(cfg.colors), opt_view(flags.colors)),
            s.font@ == or_default(overlay(overlay(opt_view(cfg.font), random_font(*flags, clock_nanos)), opt_view(flags.font)), "standard"@),
            s.direction@ == or_default(overlay(opt_view(cfg.direction), opt_view(flags.direction)), "horizontal"@),
            s.align@ == or_default(overlay(opt_view(cfg.align), opt_view(flags.align)), "left"@),
            s.angle_bits == overlay(cfg.angle_bits, flags.angle_bits),
            s.reverse == (flags.reverse || cfg.reverse == Some(true)),
            s.cycle == or_default(overlay(cfg.cycle, flags.cycle), 1u32),
            s.border@ == or_default(overlay(opt_view(cfg.border), opt_view(flags.border)), "none"@),
            s.padding == overlay(cfg.padding, flags.padding),
            opt_view(s.border_color) == overlay(opt_view(cfg.border_color), opt_view(flags.border_color)),
            opt_view(s.background) == overlay(opt_view(cfg.background), opt_view(flags.background)),
            s.margin == or_default(overlay(cfg.margin, flags.margin), 0usize),
            s.width == overlay(cfg.width, flags.width),
            s.format@ == or_default(overlay(opt_view(cfg.format), opt_view(flags.format)), "term"@),
            s.animate@ == or_default(overlay(opt_view(cfg.animate), opt_view(flags.animate)), "none"@),
            s.fps == or_default(overlay(cfg.fps, flags.fps), 30u32),
            s.no_color == flags.no_color,
            s.lines == flags.lines,
            s.user_gradients@ == cfg.gradients@,
    {
        let (rand_gradient, rand_font) = random_picks(flags, clock_nanos);
        let gradient = match &flags.gradient {
            Some(v) => v.clone(),
            None => str_or(or_else(rand_gradient, cfg.gradient), "ocean"),
        };
        let font = match &flags.font {
            Some(v) => v.clone(),
            None => str_or(or_else(rand_font, cfg.font), "standard"),
        };
        Settings {
            gradient,
            colors: flag_or(&flags.colors, cfg.colors),
            font,
            direction: str_or(flag_or(&flags.direction, cfg.direction), "horizontal"),
            align: str_or(flag_or(&flags.align, cfg.align), "left"),
            angle_bits: either(flags.angle_bits, cfg.angle_bits),
            reverse: flags.reverse || match cfg.reverse {
                Some(b) => b,
                None => false,
            },
            cycle: value_or(either(flags.cycle, cfg.cycle), 1),
            border: str_or(flag_or(&flags.border, cfg.border), "none"),
            padding: either(flags.padding, cfg.padding),
            border_color: flag_or(&flags.border_color, cfg.border_color),
            background: flag_or(&flags.background, cfg.background),
            margin: value_or(either(flags.margin, cfg.margin), 0),
            width: either(flags.width, cfg.width),
            format: str_or(flag_or(&flags.format, cfg.format), "term"),
            animate: str_or(flag_or(&flags.animate, cfg.animate), "none"),
            fps: value_or(either(flags.fps, cfg.fps), 30),
            no_color: flags.no_color,
            lines: flags.lines,
            user_gradients: cfg.gradients,
        }
    }
}

/// Color mode for the list and preview subcommands: color only when
/// writing to a real terminal and color is not disabled; then the mode the
/// environment supports.
pub fn base_mode(no_color: bool, to_terminal: bool, supported: ColorMode) -> (m: ColorMode)
    ensures
        m == (if no_color || !to_terminal { ColorMode::NoColor } else { supported }),
{
    if no_color || !to_terminal {
        ColorMode::NoColor
    } else {
        supported
    }
}

/// One cell of a gradient preview bar: `#` without color, else a full block
/// in the cell's color.
pub open spec fn swatch_cell(c: Rgb, mode: ColorMode) -> Seq<char> {
    if mode == ColorMode::NoColor {
        seq!['#']
    } else {
        fg_escape(mode, c) + seq!['\u{2588}']
    }
}

/// The first `k` cells of a preview bar.
pub open spec fn swatch_cells(colors: Seq<Rgb>, mode: ColorMode, k: int) -> Seq<char>
    decreases k,
{
    if k <= 0 {
        Seq::empty()
    } else {
        swatch_cells(colors, mode, k - 1) + swatch_cell(colors[k - 1], mode)
    }
}

/// A horizontal preview bar for a gradient sampled at `colors`, one cell
/// per sample, ended by a reset.
pub fn swatch(colors: &Vec<Rgb>, mode: ColorMode) -> (s: String)
    ensures
        s@ == swatch_cells(colors@, mode, colors@.len() as int) + reset_escape(mode),
{
    let mut s = String::new();
    for i in 0..colors.len()
        invariant
            s@ == swatch_cells(colors@, mode, i as int),
    {
        let ghost before = s@;
        if mode == ColorMode::NoColor {
            push_char(&mut s, '#');
        } else {
            s.append(mode.fg(colors[i]).as_str());
            push_char(&mut s, '\u{2588}');
        }
        assert(s@ =~= before + swatch_cell(colors@[i as int], mode));
    }
    s.append(mode.reset());
    s
}

/// The trimmed, non-empty lines among `ls`, in order.
pub open spec fn kept_lines(ls: Seq<Seq<char>>) -> Seq<Seq<char>>
    decreases ls.len(),
{
    if ls.len() == 0 {
        Seq::empty()
    } else {
        let rest = kept_lines(ls.drop_last());
        if trim(ls.last()).len() > 0 {
            rest.push(trim(ls.last()))
        } else {
            rest
        }
    }
}

/// The texts of stacked banners in line mode: each line of `text`, trimmed,
/// with empty lines left out.
pub fn banner_parts(text: &str) -> (parts: Vec<String>)
    ensures
        strings_view(parts@) == kept_lines(pieces(text@, '\n')),
{
    let ls = split_at_char(text, '\n');
    let ghost lv = strings_view(ls@);
    let mut parts: Vec<String> = Vec::new();
    for i in 0..ls.len()
        invariant
            lv == strings_view(ls@),
            strings_view(parts@) == kept_lines(lv.take(i as int)),
    {
        let t = trim_chars(&to_chars(ls[i].as_str()));
        assert(lv.take(i + 1).drop_last() =~= lv.take(i as int));
        assert(lv.take(i + 1).last() == ls@[i as int]@);
        if t.len() > 0 {
            let ghost before = strings_view(parts@);
            parts.push(from_chars(&t));
            assert(strings_view(parts@) =~= before.push(t@));
        }
    }
    assert(lv.take(ls.len() as int) =~= lv);
    parts
}

/// The names in `s` are in order.
pub open spec fn sorted_names(s: Seq<Seq<char>>) -> bool {
    forall|i: int, j: int| 0 <= i < j < s.len() ==> lex_le(#[trigger] s[i], #[trigger] s[j])
}

/// `list` sorted (`String`'s order), as a listing shows names.
pub fn sort_names(list: &Vec<String>) -> (names: Vec<String>)
    ensures
        names@.to_multiset() == list@.to_multiset(),
        sorted_names(strings_view(names@)),
{
    broadcast use vstd::seq_lib::to_multiset_build, vstd::seq_lib::to_multiset_insert;
    let mut names: Vec<String> = Vec::new();
    let ghost all = list@;
    assert(names@ =~= all.take(0));
    for i in 0..list.len()
        invariant
            all == list@,
            names@.to_multiset() == all.take(i as int).to_multiset(),
            sorted_names(strings_view(names@)),
    {
        let name = list[i].clone();
        let mut p: usize = 0;
        while p < names.len() && lex_le_exec(names[p].as_str(), name.as_str())
            invariant
                p <= names@.len(),
                forall|k: int| 0 <= k < p ==> lex_le(#[trigger] names@[k]@, name@),
            decreases names@.len() - p,
        {
            p = p + 1;
        }
        let ghost before = names@;
        proof {
            if p < before.len() {
                lemma_lex_total(before[p as int]@, name@);
            }
        }
        names.insert(p, name);
        assert(all.take(i + 1) =~= all.take(i as int).push(list@[i as int]));
        assert(names@ =~= before.insert(p as int, list@[i as int]));
        assert(all[i as int] == list@[i as int]);
        proof {
            vstd::seq_lib::to_multiset_insert(before, p as int, list@[i as int]);
            vstd::seq_lib::to_multiset_build(all.take(i as int), all[i as int]);
        }
        assert forall|a: int, b: int| 0 <= a < b < names@.len() implies lex_le(
            #[trigger] strings_view(names@)[a],
            #[trigger] strings_view(names@)[b],
        ) by {
            assert(strings_view(names@)[a] == names@[a]@);
            assert(strings_view(names@)[b] == names@[b]@);
            if b < p {
                assert(strings_view(before)[a] == before[a]@);
                assert(strings_view(before)[b] == before[b]@);
            } else if b == p {
            } else if a < p {
                assert(strings_view(before)[a] == before[a]@);
                assert(strings_view(before)[b - 1] == before[b - 1]@);
            } else if a == p {
                if p < b - 1 {
                    assert(before[b - 1]@ == strings_view(before)[b - 1]);
                    assert(before[p as int]@ == strings_view(before)[p as int]);
                    assert(lex_le(strings_view(before)[p as int], strings_view(before)[b - 1]));
                    lemma_lex_trans(names@[a]@, before[p as int]@, before[b - 1]@);
                }
            } else {
                assert(strings_view(before)[a - 1] == before[a - 1]@);
                assert(strings_view(before)[b - 1] == before[b - 1]@);
            }
        }
    }
    assert(all.take(list.len() as int) =~= all);
    names
}

} // verus!
