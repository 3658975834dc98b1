//! Turning text into a banner: FIGlet layout, compositing with padding and a
//! frame, and painting the result with ANSI color escapes.
use figlet_rs::FIGfont;
use crate::fonts::{figure_of, render_figure, Font};
use unicode_width::{UnicodeWidthChar, UnicodeWidthStr};
use vstd::prelude::*;
use crate::color::{res_view, ColorMode, Rgb, fg_escape, reset_escape};
use crate::strs::{dec, lower, lower_chars, eq_lit, from_chars, to_chars, push_char};
use crate::text::{is_whitespace, char_is_whitespace, sanitize, sanitized, all_renderable};

verus! {

#[verifier::external_type_specification]
#[verifier::external_body]
pub struct ExFIGfont(FIGfont);

/// Display width of a string in terminal columns, as `unicode-width`'s
/// `UnicodeWidthStr::width` computes it.
pub uninterp spec fn str_width(s: Seq<char>) -> usize;

/// Display width of one character (`None` for control characters), as
/// `unicode-width`'s `UnicodeWidthChar::width` computes it.
pub uninterp spec fn char_width(c: char) -> Option<usize>;

/// `count` spaces.
pub open spec fn spaces(count: nat) -> Seq<char> {
    Seq::new(count, |i: int| ' ')
}

/// `UnicodeWidthStr::width`. The result is named as a function of the text;
/// besides, the crate's documented rules give every space a width of one
/// column and put no space into any of the multi-character exceptions, so
/// spaces appended to the text add one column each.
#[verifier::external_body]
fn display_width(s: &str) -> (w: usize)
    ensures
        w == str_width(s@),
        forall|k: nat| w + k <= usize::MAX ==> #[trigger] str_width(s@ + spaces(k)) == w + k,
{
    UnicodeWidthStr::width(s)
}

/// `UnicodeWidthChar::width`, named as a function of the character; the
/// crate's documented rules give no character more than three columns, and
/// printable ASCII (U+0020 to U+007E) one column.
#[verifier::external_body]
fn glyph_width(c: char) -> (w: Option<usize>)
    ensures
        w == char_width(c),
        w matches Some(x) ==> x <= 3,
        0x20 <= (c as u32) < 0x7f ==> w == Some(1usize),
{
    UnicodeWidthChar::width(c)
}

/// Horizontal placement of the banner within the target width.
#[derive(Clone, Copy, Debug, PartialEq, Eq, Structural)]
pub enum Align {
    Left,
    Center,
    Right,
}

/// The alignment a lower-cased name selects.
pub open spec fn align_named(q: Seq<char>) -> Option<Align> {
    if q == "left"@ || q == "l"@ {
        Some(Align::Left)
    } else if q == "center"@ || q == "centre"@ || q == "c"@ {
        Some(Align::Center)
    } else if q == "right"@ || q == "r"@ {
        Some(Align::Right)
    } else {
        None
    }
}

/// What `Align::parse` answers for `s` (names are case-insensitive).
pub open spec fn parse_align(s: Seq<char>) -> Result<Align, Seq<char>> {
    match align_named(lower(s)) {
        Some(a) => Ok(a),
        None => Err("unknown alignment: "@ + s + " (left|center|right)"@),
    }
}

impl Align {
    pub fn parse(s: &str) -> (res: Result<Align, String>)
        ensures
            res_view(res) == parse_align(s@),
    {
        let q = lower_chars(s);
        if eq_lit(&q, "left") || eq_lit(&q, "l") {
            Ok(Align::Left)
        } else if eq_lit(&q, "center") || eq_lit(&q, "centre") || eq_lit(&q, "c") {
            Ok(Align::Center)
        } else if eq_lit(&q, "right") || eq_lit(&q, "r") {
            Ok(Align::Right)
        } else {
            let mut e = String::from_str("unknown alignment: ");
            e.append(s);
            e.append(" (left|center|right)");
            Err(e)
        }
    }
}

/// A box-drawing style for framing a banner.
#[derive(Clone, Copy, Debug, PartialEq, Eq, Structural)]
pub struct Border {
    pub tl: char,
    pub tr: char,
    pub bl: char,
    pub br: char,
    pub h: char,
    pub v: char,
}

pub open spec fn border_chars(tl: char, tr: char, bl: char, br: char, h: char, v: char) -> Border {
    Border { tl, tr, bl, br, h, v }
}

/// The frame a lower-cased style name selects: `Some(None)` for no frame,
/// `None` for an unknown name.
pub open spec fn border_named(q: Seq<char>) -> Option<Option<Border>> {
    if q == "none"@ || q == "off"@ {
        Some(None)
    } else if q == "round"@ || q == "rounded"@ {
        Some(Some(border_chars('╭', '╮', '╰', '╯', '─', '│')))
    } else if q == "single"@ || q == "line"@ {
        Some(Some(border_chars('┌', '┐', '└', '┘', '─', '│')))
    } else if q == "double"@ {
        Some(Some(border_chars('╔', '╗', '╚', '╝', '═', '║')))
    } else if q == "heavy"@ || q == "bold"@ {
        Some(Some(border_chars('┏', '┓', '┗', '┛', '━', '┃')))
    } else if q == "ascii"@ {
        Some(Some(border_chars('+', '+', '+', '+', '-', '|')))
    } else {
        None
    }
}

/// What `Border::parse` answers for `s`; the error quotes the lower-cased name.
pub open spec fn parse_border(s: Seq<char>) -> Result<Option<Border>, Seq<char>> {
    match border_named(lower(s)) {
        Some(b) => Ok(b),
        None => Err(
            "unknown border: "@ + lower(s) + " (none|round|single|double|heavy|ascii)"@,
        ),
    }
}

impl Border {
    /// Parse a border style name. `none`/`off` returns `Ok(None)`.
    pub fn parse(s: &str) -> (res: Result<Option<Border>, String>)
        ensures
            res_view(res) == parse_border(s@),
    {
        let q = lower_chars(s);
        if eq_lit(&q, "none") || eq_lit(&q, "off") {
            Ok(None)
        } else if eq_lit(&q, "round") || eq_lit(&q, "rounded") {
            Ok(Some(Border { tl: '╭', tr: '╮', bl: '╰', br: '╯', h: '─', v: '│' }))
        } else if eq_lit(&q, "single") || eq_lit(&q, "line") {
            Ok(Some(Border { tl: '┌', tr: '┐', bl: '└', br: '┘', h: '─', v: '│' }))
        } else if eq_lit(&q, "double") {
            Ok(Some(Border { tl: '╔', tr: '╗', bl: '╚', br: '╝', h: '═', v: '║' }))
        } else if eq_lit(&q, "heavy") || eq_lit(&q, "bold") {
            Ok(Some(Border { tl: '┏', tr: '┓', bl: '┗', br: '┛', h: '━', v: '┃' }))
        } else if eq_lit(&q, "ascii") {
            Ok(Some(Border { tl: '+', tr: '+', bl: '+', br: '+', h: '-', v: '|' }))
        } else {
            let mut e = String::from_str("unknown border: ");
            e.append(from_chars(&q).as_str());
            e.append(" (none|round|single|double|heavy|ascii)");
            Err(e)
        }
    }
}


/// The frame of every style name, whatever its case: `none` and `off` draw
/// none, `round`/`rounded`, `single`/`line`, `double`, `heavy`/`bold` and
/// `ascii` each give their own corner, edge and side glyphs, and any other
/// name is refused.
pub proof fn lemma_border_table(s: Seq<char>)
    ensures
        (lower(s) == "none"@ || lower(s) == "off"@) ==> parse_border(s) == Ok::<Option<Border>, Seq<char>>(None),
        (lower(s) == "round"@ || lower(s) == "rounded"@) ==> parse_border(s) == Ok::<Option<Border>, Seq<char>>(Some((Border { tl: '╭', tr: '╮', bl: '╰', br: '╯', h: '─', v: '│' }))),
        (lower(s) == "single"@ || lower(s) == "line"@) ==> parse_border(s) == Ok::<Option<Border>, Seq<char>>(Some((Border { tl: '┌', tr: '┐', bl: '└', br: '┘', h: '─', v: '│' }))),
        lower(s) == "double"@ ==> parse_border(s) == Ok::<Option<Border>, Seq<char>>(Some((Border { tl: '╔', tr: '╗', bl: '╚', br: '╝', h: '═', v: '║' }))),
        (lower(s) == "heavy"@ || lower(s) == "bold"@) ==> parse_border(s) == Ok::<Option<Border>, Seq<char>>(Some((Border { tl: '┏', tr: '┓', bl: '┗', br: '┛', h: '━', v: '┃' }))),
        lower(s) == "ascii"@ ==> parse_border(s) == Ok::<Option<Border>, Seq<char>>(Some((Border { tl: '+', tr: '+', bl: '+', br: '+', h: '-', v: '|' }))),
        lower(s) != "none"@ && lower(s) != "off"@ && lower(s) != "round"@ && lower(s) != "rounded"@ && lower(s) != "single"@ && lower(s) != "line"@ && lower(s) != "double"@ && lower(s) != "heavy"@ && lower(s) != "bold"@ && lower(s) != "ascii"@ ==> parse_border(s) is Err,
{
    reveal_strlit("none");
    reveal_strlit("off");
    reveal_strlit("round");
    reveal_strlit("rounded");
    reveal_strlit("single");
    reveal_strlit("line");
    reveal_strlit("double");
    reveal_strlit("heavy");
    reveal_strlit("bold");
    reveal_strlit("ascii");
    let q = lower(s);
    if q == "none"@ {
        assert(q.len() == 4 && q[0] == 'n');
    }
    if q == "off"@ {
        assert(q.len() == 3 && q[0] == 'o');
    }
    if q == "round"@ {
        assert(q.len() == 5 && q[0] == 'r');
    }
    if q == "rounded"@ {
        assert(q.len() == 7 && q[0] == 'r');
    }
    if q == "single"@ {
        assert(q.len() == 6 && q[0] == 's');
    }
    if q == "line"@ {
        assert(q.len() == 4 && q[0] == 'l');
    }
    if q == "double"@ {
        assert(q.len() == 6 && q[0] == 'd');
    }
    if q == "heavy"@ {
        assert(q.len() == 5 && q[0] == 'h');
    }
    if q == "bold"@ {
        assert(q.len() == 4 && q[0] == 'b');
    }
    if q == "ascii"@ {
        assert(q.len() == 5 && q[0] == 'a');
    }
}

/// A line without a trailing carriage return.
pub open spec fn strip_cr(l: Seq<char>) -> Seq<char> {
    if l.len() > 0 && l.last() == '\r' {
        l.drop_last()
    } else {
        l
    }
}

/// `str::lines` on the rest `s` of a text whose current, unfinished line is
/// `cur`: lines end at `\n` (a `\r` just before it is dropped too), and a final
/// line ending is optional.
pub open spec fn split_lines(s: Seq<char>, cur: Seq<char>) -> Seq<Seq<char>>
    decreases s.len(),
{
    if s.len() == 0 {
        if cur.len() > 0 {
            seq![cur]
        } else {
            Seq::empty()
        }
    } else if s[0] == '\n' {
        seq![strip_cr(cur)] + split_lines(s.drop_first(), Seq::empty())
    } else {
        split_lines(s.drop_first(), cur.push(s[0]))
    }
}

/// The lines of a text (`str::lines`).
pub open spec fn lines_of(s: Seq<char>) -> Seq<Seq<char>> {
    split_lines(s, Seq::empty())
}

/// A line holding whitespace only (`l.trim().is_empty()`).
pub open spec fn is_blank(l: Seq<char>) -> bool {
    forall|i: int| 0 <= i < l.len() ==> is_whitespace(#[trigger] l[i])
}

pub open spec fn drop_leading_blank(ls: Seq<Seq<char>>) -> Seq<Seq<char>>
    decreases ls.len(),
{
    if ls.len() > 0 && is_blank(ls[0]) {
        drop_leading_blank(ls.drop_first())
    } else {
        ls
    }
}

pub open spec fn drop_trailing_blank(ls: Seq<Seq<char>>) -> Seq<Seq<char>>
    decreases ls.len(),
{
    if ls.len() > 0 && is_blank(ls.last()) {
        drop_trailing_blank(ls.drop_last())
    } else {
        ls
    }
}

/// The rows of a rendered figure with blank rows trimmed top and bottom;
/// a single empty row when nothing is left.
pub open spec fn trimmed_rows(raw: Seq<char>) -> Seq<Seq<char>> {
    let t = drop_trailing_blank(drop_leading_blank(lines_of(raw)));
    if t.len() == 0 {
        seq![Seq::empty()]
    } else {
        t
    }
}

/// The largest display width among rows (0 for none).
pub open spec fn max_width(ls: Seq<Seq<char>>) -> int
    decreases ls.len(),
{
    if ls.len() == 0 {
        0
    } else if max_width(ls.drop_last()) >= str_width(ls.last()) {
        max_width(ls.drop_last())
    } else {
        str_width(ls.last()) as int
    }
}

/// A row padded with spaces to display width `w`.
pub open spec fn pad_to(l: Seq<char>, w: int) -> Seq<char> {
    l + spaces((w - str_width(l)) as nat)
}

/// The characters of each line of a banner.
pub open spec fn line_views(lines: Seq<String>) -> Seq<Seq<char>> {
    lines.map_values(|l: String| l@)
}

/// A laid-out banner: glyph rows padded to a common width, no color yet.
#[derive(Clone, Debug)]
pub struct Banner {
    pub lines: Vec<String>,
    pub width: usize,
}

impl Banner {
    /// The banner built from a rendered figure `raw`: its lines, blank rows
    /// trimmed top and bottom, each padded with spaces to the widest row.
    pub open spec fn from_figure_spec(raw: Seq<char>, b: Banner) -> bool {
        let rows = trimmed_rows(raw);
        &&& b.width == max_width(rows)
        &&& b.lines@.len() == rows.len()
        &&& forall|i: int|
            0 <= i < rows.len() ==> (#[trigger] b.lines@[i])@ == pad_to(rows[i], b.width as int)
    }

    /// Every line of the banner is exactly `width` columns wide.
    pub open spec fn uniform(self) -> bool {
        &&& self.lines@.len() >= 1
        &&& forall|i: int|
            0 <= i < self.lines@.len() ==> str_width((#[trigger] self.lines@[i])@) == self.width
    }

    pub fn height(&self) -> (h: usize)
        ensures
            h == self.lines@.len(),
    {
        self.lines.len()
    }
}

pub fn split_rows(raw: &Vec<char>) -> (rows: Vec<Vec<char>>)
    ensures
        rows@.map_values(|r: Vec<char>| r@) == lines_of(raw@),
{
    let mut rows: Vec<Vec<char>> = Vec::new();
    let mut cur: Vec<char> = Vec::new();
    assert(raw@.skip(0) == raw@);
    assert(rows@.map_values(|r: Vec<char>| r@) + split_lines(raw@, cur@) =~= split_lines(raw@, cur@));
    for i in 0..raw.len()
        invariant
            lines_of(raw@) == rows@.map_values(|r: Vec<char>| r@) + split_lines(
                raw@.skip(i as int),
                cur@,
            ),
    {
        let c = raw[i];
        assert(raw@.skip(i as int).drop_first() == raw@.skip(i + 1));
        assert(raw@.skip(i as int)[0] == c);
        let ghost before = rows@.map_values(|r: Vec<char>| r@);
        let ghost old_cur = cur@;
        if c == '\n' {
            let mut line = cur;
            if line.len() > 0 && line[line.len() - 1] == '\r' {
                line.pop();
            }
            assert(line@ == strip_cr(old_cur));
            rows.push(line);
            cur = Vec::new();
            assert(rows@.map_values(|r: Vec<char>| r@) == before.push(line@));
            assert(before + split_lines(raw@.skip(i as int), old_cur) == before + (seq![line@]
                + split_lines(raw@.skip(i + 1), Seq::empty())));
            assert(before + (seq![line@] + split_lines(raw@.skip(i + 1), Seq::empty()))
                =~= before.push(line@) + split_lines(raw@.skip(i + 1), Seq::empty()));
        } else {
            cur.push(c);
        }
    }
    assert(raw@.skip(raw@.len() as int) == Seq::<char>::empty());
    if cur.len() > 0 {
        let ghost before = rows@.map_values(|r: Vec<char>| r@);
        let ghost last = cur@;
        rows.push(cur);
        assert(rows@.map_values(|r: Vec<char>| r@) =~= before + seq![last]);
    } else {
        assert(rows@.map_values(|r: Vec<char>| r@) =~= rows@.map_values(|r: Vec<char>| r@)
            + Seq::<Seq<char>>::empty());
    }
    rows
}


fn row_is_blank(r: &Vec<char>) -> (b: bool)
    ensures
        b == is_blank(r@),
{
    for i in 0..r.len()
        invariant
            forall|j: int| 0 <= j < i ==> is_whitespace(#[trigger] r@[j]),
    {
        if !char_is_whitespace(r[i]) {
            return false;
        }
    }
    true
}

proof fn lemma_drop_leading_skip(ls: Seq<Seq<char>>, a: int)
    requires
        0 <= a <= ls.len(),
        forall|j: int| 0 <= j < a ==> is_blank(#[trigger] ls[j]),
    ensures
        drop_leading_blank(ls) == drop_leading_blank(ls.skip(a)),
    decreases a,
{
    if a > 0 {
        assert(is_blank(ls[0]));
        let rest = ls.drop_first();
        assert forall|j: int| 0 <= j < a - 1 implies is_blank(#[trigger] rest[j]) by {
            assert(rest[j] == ls[j + 1]);
        }
        lemma_drop_leading_skip(rest, a - 1);
        assert(rest.skip(a - 1) =~= ls.skip(a));
    } else {
        assert(ls.skip(0) =~= ls);
    }
}

proof fn lemma_drop_trailing_take(ls: Seq<Seq<char>>, b: int)
    requires
        0 <= b <= ls.len(),
        forall|j: int| b <= j < ls.len() ==> is_blank(#[trigger] ls[j]),
    ensures
        drop_trailing_blank(ls) == drop_trailing_blank(ls.take(b)),
    decreases ls.len() - b,
{
    if b < ls.len() {
        assert(is_blank(ls.last()));
        let rest = ls.drop_last();
        assert forall|j: int| b <= j < rest.len() implies is_blank(#[trigger] rest[j]) by {
            assert(rest[j] == ls[j]);
        }
        lemma_drop_trailing_take(rest, b);
        assert(rest.take(b) =~= ls.take(b));
    } else {
        assert(ls.take(b) =~= ls);
    }
}

/// The rows of `raw` with blank rows trimmed, as vectors of characters.
fn trimmed(raw: &str) -> (t: Vec<Vec<char>>)
    ensures
        t@.map_values(|r: Vec<char>| r@) == trimmed_rows(raw@),
{
    let cs = to_chars(raw);
    let rows = split_rows(&cs);
    let ghost ls = rows@.map_values(|r: Vec<char>| r@);
    let n = rows.len();
    let mut a: usize = 0;
    while a < n && row_is_blank(&rows[a])
        invariant
            a <= n,
            n == rows@.len(),
            ls == rows@.map_values(|r: Vec<char>| r@),
            forall|j: int| 0 <= j < a ==> is_blank(#[trigger] ls[j]),
        decreases n - a,
    {
        a = a + 1;
    }
    proof {
        lemma_drop_leading_skip(ls, a as int);
        if a < n {
            assert(!is_blank(ls.skip(a as int)[0]));
        }
        assert(drop_leading_blank(ls.skip(a as int)) == ls.skip(a as int));
    }
    let ghost mid = ls.skip(a as int);
    let mut b: usize = n;
    while b > a && row_is_blank(&rows[b - 1])
        invariant
            a <= b <= n,
            n == rows@.len(),
            ls == rows@.map_values(|r: Vec<char>| r@),
            mid == ls.skip(a as int),
            forall|j: int| b - a <= j < mid.len() ==> is_blank(#[trigger] mid[j]),
        decreases b,
    {
        assert(mid[b - 1 - a] == ls[b - 1]);
        b = b - 1;
    }
    proof {
        lemma_drop_trailing_take(mid, (b - a) as int);
        let kept = mid.take((b - a) as int);
        if b > a {
            assert(kept.last() == ls[b - 1]);
            assert(!is_blank(kept.last()));
        }
        assert(drop_trailing_blank(kept) == kept);
    }
    let mut t: Vec<Vec<char>> = Vec::new();
    for i in a..b
        invariant
            a <= b <= n,
            n == rows@.len(),
            ls == rows@.map_values(|r: Vec<char>| r@),
            t@.map_values(|r: Vec<char>| r@) == ls.subrange(a as int, i as int),
    {
        let r = rows[i].clone();
        assert(r@ =~= rows@[i as int]@);
        assert(ls[i as int] == rows@[i as int]@);
        let ghost before = t@.map_values(|r: Vec<char>| r@);
        t.push(r);
        assert(t@.map_values(|r: Vec<char>| r@) =~= before.push(r@));
        assert(ls.subrange(a as int, i + 1) =~= ls.subrange(a as int, i as int).push(ls[i as int]));
        assert(t@.map_values(|r: Vec<char>| r@) =~= ls.subrange(a as int, i + 1));
    }
    assert(ls.subrange(a as int, b as int) =~= mid.take((b - a) as int));
    if t.len() == 0 {
        let e: Vec<char> = Vec::new();
        t.push(e);
        assert(t@.map_values(|r: Vec<char>| r@) =~= seq![Seq::<char>::empty()]);
    }
    t
}

impl Banner {
    /// The banner made of a rendered figure's text: its lines, with blank
    /// rows trimmed top and bottom, each padded to the widest row's display
    /// width.
    pub fn from_figure(raw: &str) -> (b: Banner)
        ensures
            Banner::from_figure_spec(raw@, b),
            b.uniform(),
    {
        let rows = trimmed(raw);
        let ghost rv = rows@.map_values(|r: Vec<char>| r@);
        let mut texts: Vec<String> = Vec::new();
        let mut widths: Vec<usize> = Vec::new();
        let mut width: usize = 0;
        for i in 0..rows.len()
            invariant
                rv == rows@.map_values(|r: Vec<char>| r@),
                texts@.len() == i,
                widths@.len() == i,
                width == max_width(rv.take(i as int)),
                forall|j: int| 0 <= j < i ==> (#[trigger] texts@[j])@ == rv[j],
                forall|j: int| 0 <= j < i ==> #[trigger] widths@[j] == str_width(rv[j]),
                forall|j: int, k: nat|
                    0 <= j < i && str_width(rv[j]) + k <= usize::MAX ==> #[trigger] str_width(
                        rv[j] + spaces(k),
                    ) == str_width(rv[j]) + k,
        {
            let t = from_chars(&rows[i]);
            let w = display_width(t.as_str());
            assert(rv.take(i + 1).drop_last() == rv.take(i as int));
            if w > width {
                width = w;
            }
            texts.push(t);
            widths.push(w);
        }
        assert(rv.take(rows.len() as int) == rv);
        let mut lines: Vec<String> = Vec::new();
        for i in 0..texts.len()
            invariant
                rv == rows@.map_values(|r: Vec<char>| r@),
                texts@.len() == rv.len(),
                widths@.len() == rv.len(),
                width == max_width(rv),
                forall|j: int| 0 <= j < rv.len() ==> (#[trigger] texts@[j])@ == rv[j],
                forall|j: int| 0 <= j < rv.len() ==> #[trigger] widths@[j] == str_width(rv[j]),
                forall|j: int, k: nat|
                    0 <= j < rv.len() && str_width(rv[j]) + k <= usize::MAX ==> #[trigger] str_width(
                        rv[j] + spaces(k),
                    ) == str_width(rv[j]) + k,
                lines@.len() == i,
                forall|j: int|
                    0 <= j < i ==> (#[trigger] lines@[j])@ == pad_to(rv[j], width as int),
        {
            proof {
                lemma_max_width_bound(rv, i as int);
            }
            let mut line = texts[i].clone();
            let pad = width - widths[i];
            let mut k: usize = 0;
            while k < pad
                invariant
                    k <= pad,
                    line@ == rv[i as int] + spaces(k as nat),
                decreases pad - k,
            {
                push_char(&mut line, ' ');
                k = k + 1;
                assert(line@ =~= rv[i as int] + spaces(k as nat));
            }
            lines.push(line);
        }
        let b = Banner { lines, width };
        assert(rv.len() >= 1);
        proof {
            assert(rv.len() >= 1);
            assert forall|i: int| 0 <= i < b.lines@.len() implies str_width(
                (#[trigger] b.lines@[i])@,
            ) == b.width by {
                lemma_max_width_bound(rv, i);
                let k = (width - str_width(rv[i])) as nat;
                assert(str_width(rv[i] + spaces(k)) == str_width(rv[i]) + k);
            }
        }
        b
    }
}

/// The figure that `font` renders for `text` after sanitizing, if any.
pub open spec fn figure_for(font: Seq<char>, text: Seq<char>) -> Option<Seq<char>> {
    figure_of(font, sanitized(text))
}

/// What laying out `text` alone gives: its banner is the figure's, its
/// error names the sanitized text.
pub open spec fn laid_out(font: Seq<char>, text: Seq<char>, b: Banner) -> bool {
    figure_for(font, text) matches Some(raw) && Banner::from_figure_spec(raw, b)
}

/// The message for text that a font does not render.
pub open spec fn render_error(text: Seq<char>) -> Seq<char> {
    "could not render "@ + debug_quoted(sanitized(text)) + " with this font"@
}

/// The widest of the banners' widths (0 for none).
pub open spec fn widest(bs: Seq<Banner>) -> int
    decreases bs.len(),
{
    if bs.len() == 0 {
        0
    } else if widest(bs.drop_last()) >= bs.last().width {
        widest(bs.drop_last())
    } else {
        bs.last().width as int
    }
}

/// A banner's lines, each padded with spaces from the banner's width to `w`
/// columns.
pub open spec fn widened(b: Banner, w: int) -> Seq<Seq<char>> {
    line_views(b.lines@).map_values(|l: Seq<char>| l + spaces((w - b.width) as nat))
}

/// The lines of the banners one under another, each padded to `w` columns.
pub open spec fn stacked_lines(bs: Seq<Banner>, w: int) -> Seq<Seq<char>>
    decreases bs.len(),
{
    if bs.len() == 0 {
        Seq::empty()
    } else {
        stacked_lines(bs.drop_last(), w) + widened(bs.last(), w)
    }
}

proof fn lemma_widest_bound(bs: Seq<Banner>, i: int)
    requires
        0 <= i < bs.len(),
    ensures
        bs[i].width <= widest(bs),
        widest(bs) <= usize::MAX,
    decreases bs.len(),
{
    let w = bs.last().width;
    assert(w <= usize::MAX);
    if i < bs.len() - 1 {
        assert(bs.drop_last()[i] == bs[i]);
        lemma_widest_bound(bs.drop_last(), i);
    } else if bs.len() > 1 {
        lemma_widest_bound(bs.drop_last(), 0);
    }
}

/// The lines of `b` padded with spaces to `width` columns.
fn widen(b: &Banner, width: usize) -> (lines: Vec<String>)
    requires
        b.uniform(),
        b.width <= width,
    ensures
        line_views(lines@) == widened(*b, width as int),
        forall|j: int| 0 <= j < lines@.len() ==> str_width((#[trigger] lines@[j])@) == width,
{
    let pad = width - b.width;
    let mut lines: Vec<String> = Vec::new();
    for j in 0..b.lines.len()
        invariant
            b.uniform(),
            pad == width - b.width,
            line_views(lines@) == widened(*b, width as int).take(j as int),
            forall|i: int| 0 <= i < lines@.len() ==> str_width((#[trigger] lines@[i])@) == width,
    {
        let mut line = b.lines[j].clone();
        let w = display_width(line.as_str());
        assert(w == b.width);
        let ghost base = line@;
        let mut k: usize = 0;
        while k < pad
            invariant
                k <= pad,
                line@ == base + spaces(k as nat),
            decreases pad - k,
        {
            push_char(&mut line, ' ');
            k = k + 1;
            assert(line@ =~= base + spaces(k as nat));
        }
        assert(str_width(base + spaces(pad as nat)) == w + pad);
        let ghost before = line_views(lines@);
        lines.push(line);
        assert(line_views(lines@) =~= before.push(base + spaces(pad as nat)));
        assert(line_views(b.lines@)[j as int] == base);
        assert(widened(*b, width as int).take(j + 1) =~= widened(*b, width as int).take(j as int).push(base + spaces(pad as nat)));
    }
    assert(widened(*b, width as int).take(b.lines@.len() as int) =~= widened(*b, width as int));
    lines
}

impl Banner {
    /// Stack banners one under another, each line padded with spaces to the
    /// widest banner's width.
    pub fn stack(banners: &Vec<Banner>) -> (b: Banner)
        requires
            banners@.len() > 0,
            forall|i: int| 0 <= i < banners@.len() ==> (#[trigger] banners@[i]).uniform(),
        ensures
            b.width == widest(banners@),
            line_views(b.lines@) == stacked_lines(banners@, b.width as int),
            b.uniform(),
    {
        let mut width: usize = 0;
        for i in 0..banners.len()
            invariant
                width == widest(banners@.take(i as int)),
        {
            assert(banners@.take(i + 1).drop_last() =~= banners@.take(i as int));
            if banners[i].width > width {
                width = banners[i].width;
            }
        }
        assert(banners@.take(banners.len() as int) =~= banners@);
        let mut lines: Vec<String> = Vec::new();
        for i in 0..banners.len()
            invariant
                width == widest(banners@),
                forall|j: int| 0 <= j < banners@.len() ==> (#[trigger] banners@[j]).uniform(),
                line_views(lines@) == stacked_lines(banners@.take(i as int), width as int),
                forall|j: int| 0 <= j < lines@.len() ==> str_width((#[trigger] lines@[j])@) == width,
        {
            proof {
                lemma_widest_bound(banners@, i as int);
            }
            let more = widen(&banners[i], width);
            let ghost before = lines@;
            for j in 0..more.len()
                invariant
                    lines@ == before + more@.take(j as int),
                    forall|t: int| 0 <= t < before.len() ==> str_width((#[trigger] before[t])@) == width,
                    forall|t: int| 0 <= t < more@.len() ==> str_width((#[trigger] more@[t])@) == width,
                    forall|t: int| 0 <= t < lines@.len() ==> str_width((#[trigger] lines@[t])@) == width,
            {
                lines.push(more[j].clone());
                assert(lines@ =~= before + more@.take(j + 1));
                assert(lines@[lines@.len() - 1] == more@[j as int]);
            }
            assert(more@.take(more.len() as int) =~= more@);
            assert(banners@.take(i + 1).drop_last() =~= banners@.take(i as int));
            assert(line_views(lines@) =~= line_views(before) + line_views(more@));
        }
        assert(banners@.take(banners.len() as int) =~= banners@);
        proof {
            let last = banners@.last();
            assert(last.uniform());
            assert(stacked_lines(banners@, width as int).len() >= widened(last, width as int).len());
        }
        Banner { lines, width }
    }

    /// Lay out each part as its own banner and stack them; the first part
    /// that does not render gives its error, and no part at all is refused
    /// as the empty text is.
    pub fn layout_multi(font: &Font, parts: &Vec<String>) -> (res: Result<Banner, String>)
        ensures
            res is Ok <==> parts@.len() > 0 && forall|i: int| 0 <= i < parts@.len()
                ==> (#[trigger] figure_for(font@, parts@[i]@)) is Some,
            res matches Ok(b) ==> b.uniform() && exists|bs: Seq<Banner>| {
                &&& bs.len() == parts@.len()
                &&& forall|i: int| 0 <= i < bs.len() ==> laid_out(font@, parts@[i]@, #[trigger] bs[i])
                &&& b.width == widest(bs)
                &&& line_views(b.lines@) == stacked_lines(bs, b.width as int)
            },
            res matches Err(e) ==> (parts@.len() == 0 && e@ == "could not render \"\" with this font"@)
                || exists|i: int| 0 <= i < parts@.len() && figure_for(font@, (#[trigger] parts@[i])@) is None
                    && (forall|j: int| 0 <= j < i ==> figure_for(font@, (#[trigger] parts@[j])@) is Some)
                    && e@ == render_error(parts@[i]@),
    {
        if parts.len() == 0 {
            return Err(String::from_str("could not render \"\" with this font"));
        }
        let mut banners: Vec<Banner> = Vec::new();
        for i in 0..parts.len()
            invariant
                banners@.len() == i,
                forall|j: int| 0 <= j < banners@.len() ==> (#[trigger] banners@[j]).uniform(),
                forall|j: int| 0 <= j < banners@.len() ==> laid_out(font@, parts@[j]@, #[trigger] banners@[j]),
                forall|j: int| 0 <= j < i ==> (#[trigger] figure_for(font@, parts@[j]@)) is Some,
        {
            match Banner::layout(font, parts[i].as_str()) {
                Ok(b) => {
                    let ghost before = banners@;
                    let ghost gb = b;
                    banners.push(b);
                    assert forall|j: int| 0 <= j < banners@.len() implies laid_out(font@, parts@[j]@, #[trigger] banners@[j]) by {
                        if j < i {
                            assert(banners@[j] == before[j]);
                        } else {
                            assert(banners@[j] == gb);
                        }
                    }
                },
                Err(e) => {
                    assert(figure_for(font@, parts@[i as int]@) is None);
                    return Err(e);
                },
            }
        }
        let b = Banner::stack(&banners);
        proof {
            let bs = banners@;
            assert(bs.len() == parts@.len());
            assert(b.width == widest(bs));
            assert(line_views(b.lines@) == stacked_lines(bs, b.width as int));
        }
        Ok(b)
    }
}

proof fn lemma_max_width_range(ls: Seq<Seq<char>>)
    ensures
        0 <= max_width(ls) <= usize::MAX,
    decreases ls.len(),
{
    if ls.len() > 0 {
        lemma_max_width_range(ls.drop_last());
        let w = str_width(ls.last());
        assert(w <= usize::MAX);
    }
}

proof fn lemma_max_width_bound(ls: Seq<Seq<char>>, i: int)
    requires
        0 <= i < ls.len(),
    ensures
        str_width(ls[i]) <= max_width(ls),
        max_width(ls) <= usize::MAX,
    decreases ls.len(),
{
    lemma_max_width_range(ls);
    if i < ls.len() - 1 {
        lemma_max_width_bound(ls.drop_last(), i);
    }
}


/// How `{:?}` writes one printable-ASCII character inside a quoted string.
pub open spec fn debug_escape(c: char) -> Seq<char> {
    if c == '"' {
        seq!['\\', '"']
    } else if c == '\\' {
        seq!['\\', '\\']
    } else {
        seq![c]
    }
}

pub open spec fn debug_escape_all(s: Seq<char>) -> Seq<char>
    decreases s.len(),
{
    if s.len() == 0 {
        Seq::empty()
    } else {
        debug_escape_all(s.drop_last()) + debug_escape(s.last())
    }
}

/// `{:?}` of a string made of printable ASCII and spaces: quoted, with `"`
/// and `\` escaped.
pub open spec fn debug_quoted(s: Seq<char>) -> Seq<char> {
    seq!['"'] + debug_escape_all(s) + seq!['"']
}

fn debug_quote(s: &String) -> (q: String)
    requires
        all_renderable(s@),
    ensures
        q@ == debug_quoted(s@),
{
    let cs = to_chars(s.as_str());
    let mut q = String::new();
    push_char(&mut q, '"');
    for i in 0..cs.len()
        invariant
            cs@ == s@,
            q@ == seq!['"'] + debug_escape_all(cs@.take(i as int)),
    {
        let c = cs[i];
        assert(cs@.take(i + 1).drop_last() == cs@.take(i as int));
        if c == '"' {
            push_char(&mut q, '\\');
            push_char(&mut q, '"');
        } else if c == '\\' {
            push_char(&mut q, '\\');
            push_char(&mut q, '\\');
        } else {
            push_char(&mut q, c);
        }
        assert(q@ =~= seq!['"'] + debug_escape_all(cs@.take(i + 1)));
    }
    push_char(&mut q, '"');
    assert(cs@.take(cs@.len() as int) == cs@);
    q
}

impl Banner {
    /// Render `text` through `font` into padded glyph rows.
    ///
    /// Input is folded to renderable ASCII first (see `text::sanitize`) so
    /// non-ASCII text degrades gracefully instead of failing.
    pub fn layout(font: &Font, text: &str) -> (res: Result<Banner, String>)
        ensures
            res is Ok <==> figure_for(font@, text@) is Some,
            res matches Ok(b) ==> b.uniform() && laid_out(font@, text@, b),
            res matches Err(e) ==> e@ == render_error(text@),
            sanitized(text@).len() == 0 ==> res is Err,
    {
        let text = sanitize(text);
        match render_figure(font, text.as_str()) {
            Some(raw) => Ok(Banner::from_figure(raw.as_str())),
            None => {
                let mut e = String::from_str("could not render ");
                e.append(debug_quote(&text).as_str());
                e.append(" with this font");
                Err(e)
            },
        }
    }
}


/// Sentinel marking the second column occupied by a preceding wide glyph.
/// It renders as nothing (the wide glyph already covers both columns).
pub const CONT: char = '\0';

/// The banner, padding, and any frame composited into a character grid.
///
/// `chars` holds the glyph at each cell (space where empty); `is_frame` marks
/// cells that belong to the border.
pub struct Grid {
    pub chars: Vec<Vec<char>>,
    pub is_frame: Vec<Vec<bool>>,
    pub width: usize,
    pub height: usize,
}

/// The columns a glyph advances by (0 for control characters).
pub open spec fn advance(c: char) -> nat {
    match char_width(c) {
        Some(w) => w as nat,
        None => 0,
    }
}

/// `row` with the glyphs of `line` written from column `col` on: each glyph
/// advances by its display width, a wide glyph also fills the next column
/// with `CONT`, zero-width glyphs and glyphs past the right edge are skipped.
pub open spec fn place(row: Seq<char>, line: Seq<char>, col: int) -> Seq<char>
    decreases line.len(),
{
    if line.len() == 0 {
        row
    } else {
        let ch = line[0];
        let w = advance(ch);
        if w == 0 || col >= row.len() {
            place(row, line.drop_first(), col)
        } else {
            let r1 = row.update(col, ch);
            let r2 = if w == 2 && col + 1 < row.len() {
                r1.update(col + 1, CONT)
            } else {
                r1
            };
            place(r2, line.drop_first(), col + w)
        }
    }
}

/// Frame thickness: one cell with a border, none without.
pub open spec fn edge(border: Option<Border>) -> nat {
    if border is Some {
        1
    } else {
        0
    }
}

pub open spec fn grid_width(b: Banner, border: Option<Border>, padding: (usize, usize)) -> nat {
    (b.width + 2 * padding.0 + 2 * edge(border)) as nat
}

pub open spec fn grid_height(b: Banner, border: Option<Border>, padding: (usize, usize)) -> nat {
    (b.lines@.len() + 2 * padding.1 + 2 * edge(border)) as nat
}

/// Row `r` of the grid before the frame is drawn: a banner line placed at
/// the interior offset, or blank.
pub open spec fn content_row(b: Banner, border: Option<Border>, padding: (usize, usize), r: int) -> Seq<char> {
    let w = grid_width(b, border, padding);
    let ox = edge(border) + padding.0;
    let oy = edge(border) + padding.1;
    if oy <= r < oy + b.lines@.len() {
        place(spaces(w), b.lines@[r - oy]@, ox as int)
    } else {
        spaces(w)
    }
}

/// Whether cell (r, c) of a `w` x `h` grid lies on the frame.
pub open spec fn on_frame(border: Option<Border>, w: int, h: int, r: int, c: int) -> bool {
    border is Some && (r == 0 || r == h - 1 || c == 0 || c == w - 1)
}

/// The character at (r, c) once the frame is drawn over `base`.
pub open spec fn framed(border: Option<Border>, w: int, h: int, r: int, c: int, base: char) -> char {
    match border {
        None => base,
        Some(bd) => {
            if r == 0 {
                if c == 0 {
                    bd.tl
                } else if c == w - 1 {
                    bd.tr
                } else {
                    bd.h
                }
            } else if r == h - 1 {
                if c == 0 {
                    bd.bl
                } else if c == w - 1 {
                    bd.br
                } else {
                    bd.h
                }
            } else if c == 0 || c == w - 1 {
                bd.v
            } else {
                base
            }
        },
    }
}

/// Row `r` of the composited grid.
pub open spec fn grid_row(b: Banner, border: Option<Border>, padding: (usize, usize), r: int) -> Seq<char> {
    let w = grid_width(b, border, padding) as int;
    let h = grid_height(b, border, padding) as int;
    let base = content_row(b, border, padding, r);
    Seq::new(w as nat, |c: int| framed(border, w, h, r, c, base[c]))
}

/// Row `r` of the frame mask.
pub open spec fn frame_row(b: Banner, border: Option<Border>, padding: (usize, usize), r: int) -> Seq<bool> {
    let w = grid_width(b, border, padding) as int;
    let h = grid_height(b, border, padding) as int;
    Seq::new(w as nat, |c: int| on_frame(border, w, h, r, c))
}

impl Grid {
    /// The grid is what `compose` makes of `b` with `border` and `padding`.
    pub open spec fn composed_from(self, b: Banner, border: Option<Border>, padding: (usize, usize)) -> bool {
        &&& self.width == grid_width(b, border, padding)
        &&& self.height == grid_height(b, border, padding)
        &&& self.chars@.len() == self.height
        &&& self.is_frame@.len() == self.height
        &&& forall|r: int|
            0 <= r < self.height ==> (#[trigger] self.chars@[r])@ == grid_row(b, border, padding, r)
        &&& forall|r: int|
            0 <= r < self.height ==> (#[trigger] self.is_frame@[r])@ == frame_row(b, border, padding, r)
    }

    /// Rows and columns match the stated dimensions.
    pub open spec fn wf(self) -> bool {
        &&& self.chars@.len() == self.height
        &&& self.is_frame@.len() == self.height
        &&& forall|r: int| 0 <= r < self.height ==> (#[trigger] self.chars@[r])@.len() == self.width
        &&& forall|r: int| 0 <= r < self.height ==> (#[trigger] self.is_frame@[r])@.len() == self.width
    }
}

/// A framed grid carries each corner glyph of the border in its own corner,
/// the horizontal glyph along the top and bottom rows between the corners,
/// and the vertical glyph down the first and last columns between them.
pub proof fn lemma_frame_corners(g: Grid, b: Banner, bd: Border, padding: (usize, usize))
    requires
        g.composed_from(b, Some(bd), padding),
    ensures
        g.width >= 2,
        g.height >= 2,
        g.chars@[0]@[0] == bd.tl,
        g.chars@[0]@[g.width - 1] == bd.tr,
        g.chars@[g.height - 1]@[0] == bd.bl,
        g.chars@[g.height - 1]@[g.width - 1] == bd.br,
        forall|c: int| 0 < c < g.width - 1 ==> g.chars@[0]@[c] == bd.h && g.chars@[g.height - 1]@[c] == bd.h,
        forall|r: int| 0 < r < g.height - 1 ==> g.chars@[r]@[0] == bd.v && g.chars@[r]@[g.width - 1] == bd.v,
{
    let w = g.width as int;
    let h = g.height as int;
    assert(g.chars@[0]@ == grid_row(b, Some(bd), padding, 0));
    assert(g.chars@[h - 1]@ == grid_row(b, Some(bd), padding, h - 1));
    assert forall|r: int| 0 < r < h - 1 implies g.chars@[r]@[0] == bd.v && g.chars@[r]@[w - 1] == bd.v by {
        assert(g.chars@[r]@ == grid_row(b, Some(bd), padding, r));
    }
}

/// A frame takes the place of one more cell of padding on each side: a
/// framed grid has the size of the unframed one with padding grown by one,
/// holds the same characters everywhere inside the outer ring, and its
/// frame mask marks exactly that ring.
pub proof fn lemma_frame_replaces_outer_ring(g: Grid, plain: Grid, b: Banner, bd: Border, padding: (usize, usize))
    requires
        padding.0 < usize::MAX,
        padding.1 < usize::MAX,
        g.composed_from(b, Some(bd), padding),
        plain.composed_from(b, None, ((padding.0 + 1) as usize, (padding.1 + 1) as usize)),
    ensures
        g.width == plain.width,
        g.height == plain.height,
        forall|r: int, c: int|
            0 < r < g.height - 1 && 0 < c < g.width - 1 ==> g.chars@[r]@[c] == plain.chars@[r]@[c],
        forall|r: int, c: int|
            0 <= r < g.height && 0 <= c < g.width ==> (g.is_frame@[r]@[c] <==> (r == 0 || r == g.height - 1
                || c == 0 || c == g.width - 1)),
        forall|r: int, c: int| 0 <= r < plain.height && 0 <= c < plain.width ==> !plain.is_frame@[r]@[c],
{
    let p2 = ((padding.0 + 1) as usize, (padding.1 + 1) as usize);
    assert forall|r: int, c: int|
        0 < r < g.height - 1 && 0 < c < g.width - 1 implies g.chars@[r]@[c] == plain.chars@[r]@[c] by {
        assert(g.chars@[r]@ == grid_row(b, Some(bd), padding, r));
        assert(plain.chars@[r]@ == grid_row(b, None, p2, r));
        assert(content_row(b, Some(bd), padding, r) == content_row(b, None, p2, r));
    }
    assert forall|r: int, c: int|
        0 <= r < g.height && 0 <= c < g.width implies (g.is_frame@[r]@[c] <==> (r == 0 || r == g.height - 1
            || c == 0 || c == g.width - 1)) by {
        assert(g.is_frame@[r]@ == frame_row(b, Some(bd), padding, r));
    }
    assert forall|r: int, c: int| 0 <= r < plain.height && 0 <= c < plain.width implies !plain.is_frame@[r]@[c] by {
        assert(plain.is_frame@[r]@ == frame_row(b, None, p2, r));
    }
}

fn blank_row(w: usize) -> (row: Vec<char>)
    ensures
        row@ == spaces(w as nat),
{
    let mut row: Vec<char> = Vec::new();
    for i in 0..w
        invariant
            row@ == spaces(i as nat),
    {
        row.push(' ');
        assert(row@ =~= spaces((i + 1) as nat));
    }
    row
}

/// `line`'s glyphs written into `row` from column `col0` on.
proof fn lemma_place_past_end(row: Seq<char>, line: Seq<char>, col: int)
    requires
        col >= row.len(),
    ensures
        place(row, line, col) == row,
    decreases line.len(),
{
    if line.len() > 0 {
        lemma_place_past_end(row, line.drop_first(), col);
    }
}

fn place_line(row: &mut Vec<char>, line: &String, col0: usize)
    ensures
        final(row)@ == place(old(row)@, line@, col0 as int),
        final(row)@.len() == old(row)@.len(),
{
    let cs = to_chars(line.as_str());
    let w = row.len();
    let mut col = col0;
    assert(cs@.skip(0) == cs@);
    for k in 0..cs.len()
        invariant
            cs@ == line@,
            w == row@.len(),
            place(old(row)@, line@, col0 as int) == place(row@, cs@.skip(k as int), col as int),
    {
        let ch = cs[k];
        assert(cs@.skip(k as int)[0] == ch);
        assert(cs@.skip(k as int).drop_first() == cs@.skip(k + 1));
        let gw = match glyph_width(ch) {
            Some(x) => x,
            None => 0,
        };
        if gw == 0 || col >= w {
        } else {
            row.set(col, ch);
            if gw == 2 && col + 1 < w {
                row.set(col + 1, CONT);
            }
            if gw >= w - col {
                proof {
                    lemma_place_past_end(row@, cs@.skip(k + 1), col + gw);
                    lemma_place_past_end(row@, cs@.skip(k + 1), w as int);
                }
                col = w;
            } else {
                col = col + gw;
            }
        }
    }
    assert(cs@.skip(cs@.len() as int) == Seq::<char>::empty());
    proof {
        lemma_place_len(old(row)@, line@, col0 as int);
    }
}

proof fn lemma_place_len(row: Seq<char>, line: Seq<char>, col: int)
    requires
        0 <= col,
    ensures
        place(row, line, col).len() == row.len(),
    decreases line.len(),
{
    if line.len() > 0 {
        let ch = line[0];
        let w = advance(ch);
        if w == 0 || col >= row.len() {
            lemma_place_len(row, line.drop_first(), col);
        } else {
            let r1 = row.update(col, ch);
            let r2 = if w == 2 && col + 1 < row.len() {
                r1.update(col + 1, CONT)
            } else {
                r1
            };
            lemma_place_len(r2, line.drop_first(), col + w);
        }
    }
}

fn framed_char(border: Option<Border>, w: usize, h: usize, r: usize, c: usize, base: char) -> (ch: char)
    requires
        r < h,
        c < w,
    ensures
        ch == framed(border, w as int, h as int, r as int, c as int, base),
{
    match border {
        None => base,
        Some(bd) => {
            if r == 0 {
                if c == 0 {
                    bd.tl
                } else if c + 1 == w {
                    bd.tr
                } else {
                    bd.h
                }
            } else if r + 1 == h {
                if c == 0 {
                    bd.bl
                } else if c + 1 == w {
                    bd.br
                } else {
                    bd.h
                }
            } else if c == 0 || c + 1 == w {
                bd.v
            } else {
                base
            }
        },
    }
}

/// Composite a banner (with padding and optional frame) into a `Grid`.
pub fn compose(banner: &Banner, border: Option<Border>, padding: (usize, usize)) -> (g: Grid)
    requires
        grid_width(*banner, border, padding) <= usize::MAX,
        grid_height(*banner, border, padding) <= usize::MAX,
    ensures
        g.composed_from(*banner, border, padding),
        g.wf(),
{
    let (px, py) = padding;
    let e: usize = if border.is_some() { 1 } else { 0 };
    let width = banner.width + 2 * px + 2 * e;
    let height = banner.lines.len() + 2 * py + 2 * e;
    let ox = e + px;
    let oy = e + py;
    let mut chars: Vec<Vec<char>> = Vec::new();
    let mut is_frame: Vec<Vec<bool>> = Vec::new();
    for r in 0..height
        invariant
            width == grid_width(*banner, border, padding),
            height == grid_height(*banner, border, padding),
            ox == edge(border) + padding.0,
            oy == edge(border) + padding.1,
            chars@.len() == r,
            is_frame@.len() == r,
            forall|i: int| 0 <= i < r ==> (#[trigger] chars@[i])@ == grid_row(*banner, border, padding, i),
            forall|i: int| 0 <= i < r ==> (#[trigger] is_frame@[i])@ == frame_row(*banner, border, padding, i),
    {
        let mut base = blank_row(width);
        if oy <= r && r - oy < banner.lines.len() {
            place_line(&mut base, &banner.lines[r - oy], ox);
        }
        assert(base@ == content_row(*banner, border, padding, r as int));
        let mut row: Vec<char> = Vec::new();
        let mut mask: Vec<bool> = Vec::new();
        for c in 0..width
            invariant
                width == grid_width(*banner, border, padding),
                height == grid_height(*banner, border, padding),
                base@ == content_row(*banner, border, padding, r as int),
                base@.len() == width,
                r < height,
                row@ == Seq::new(c as nat, |k: int| framed(border, width as int, height as int, r as int, k, base@[k])),
                mask@ == Seq::new(c as nat, |k: int| on_frame(border, width as int, height as int, r as int, k)),
        {
            row.push(framed_char(border, width, height, r, c, base[c]));
            mask.push(border.is_some() && (r == 0 || r + 1 == height || c == 0 || c + 1 == width));
            assert(row@ =~= Seq::new((c + 1) as nat, |k: int| framed(border, width as int, height as int, r as int, k, base@[k])));
            assert(mask@ =~= Seq::new((c + 1) as nat, |k: int| on_frame(border, width as int, height as int, r as int, k)));
        }
        chars.push(row);
        is_frame.push(mask);
    }
    Grid { chars, is_frame, width, height }
}


/// One painted grid row, from the given position on: `CONT` cells are
/// skipped, spaces stay plain, and a glyph is preceded by a color escape when
/// color is on and its color differs from the last one emitted (`last`).
pub open spec fn paint_row(chars: Seq<char>, colors: Seq<Rgb>, mode: ColorMode, last: Option<Rgb>) -> Seq<char>
    decreases chars.len(),
{
    if chars.len() == 0 {
        Seq::empty()
    } else {
        let ch = chars[0];
        if ch == CONT {
            paint_row(chars.drop_first(), colors.drop_first(), mode, last)
        } else if ch == ' ' {
            seq![' '] + paint_row(chars.drop_first(), colors.drop_first(), mode, last)
        } else {
            let c = colors[0];
            if mode != ColorMode::NoColor && last != Some(c) {
                fg_escape(mode, c) + seq![ch] + paint_row(
                    chars.drop_first(),
                    colors.drop_first(),
                    mode,
                    Some(c),
                )
            } else {
                seq![ch] + paint_row(chars.drop_first(), colors.drop_first(), mode, last)
            }
        }
    }
}

/// Columns of indentation that place a `width`-wide grid in `target` columns.
pub open spec fn indent_for(align: Align, target: int, width: int) -> int {
    let slack = if target > width { target - width } else { 0 };
    match align {
        Align::Left => 0,
        Align::Center => slack / 2,
        Align::Right => slack,
    }
}

pub open spec fn newlines(n: nat) -> Seq<char> {
    Seq::new(n, |i: int| '\n')
}

/// The first `k` painted rows, each indented and ended by a reset and a
/// line break.
pub open spec fn painted_rows(rows: Seq<Seq<char>>, colors: Seq<Seq<Rgb>>, mode: ColorMode, indent: nat, k: int) -> Seq<char>
    decreases k,
{
    if k <= 0 {
        Seq::empty()
    } else {
        painted_rows(rows, colors, mode, indent, k - 1) + spaces(indent) + paint_row(
            rows[k - 1],
            colors[k - 1],
            mode,
            None,
        ) + reset_escape(mode) + seq!['\n']
    }
}

/// Characters of each grid row.
pub open spec fn row_views(rows: Seq<Vec<char>>) -> Seq<Seq<char>> {
    rows.map_values(|r: Vec<char>| r@)
}

/// Colors of each grid row.
pub open spec fn color_views(rows: Seq<Vec<Rgb>>) -> Seq<Seq<Rgb>> {
    rows.map_values(|r: Vec<Rgb>| r@)
}

/// The whole painted banner: blank margin lines, the rows, margin lines.
pub open spec fn painted(rows: Seq<Seq<char>>, colors: Seq<Seq<Rgb>>, mode: ColorMode, align: Align, target: int, width: int, margin: nat) -> Seq<char> {
    newlines(margin) + painted_rows(rows, colors, mode, indent_for(align, target, width) as nat, rows.len() as int) + newlines(margin)
}

/// `colors` gives one color per cell of `grid`.
pub open spec fn colors_fit(grid: &Grid, colors: Seq<Vec<Rgb>>) -> bool {
    &&& colors.len() == grid.height
    &&& forall|r: int| 0 <= r < grid.height ==> (#[trigger] colors[r])@.len() == grid.width
}

fn push_newlines(out: &mut String, n: usize)
    ensures
        final(out)@ == old(out)@ + newlines(n as nat),
{
    for i in 0..n
        invariant
            out@ == old(out)@ + newlines(i as nat),
    {
        push_char(out, '\n');
        assert(out@ =~= old(out)@ + newlines((i + 1) as nat));
    }
}

fn push_spaces(out: &mut String, n: usize)
    ensures
        final(out)@ == old(out)@ + spaces(n as nat),
{
    for i in 0..n
        invariant
            out@ == old(out)@ + spaces(i as nat),
    {
        push_char(out, ' ');
        assert(out@ =~= old(out)@ + spaces((i + 1) as nat));
    }
}

fn paint_row_into(out: &mut String, chars: &Vec<char>, colors: &Vec<Rgb>, mode: ColorMode)
    requires
        colors@.len() == chars@.len(),
    ensures
        final(out)@ == old(out)@ + paint_row(chars@, colors@, mode, None),
{
    let mut last: Option<Rgb> = None;
    assert(chars@.skip(0) == chars@);
    assert(colors@.skip(0) == colors@);
    for col in 0..chars.len()
        invariant
            colors@.len() == chars@.len(),
            old(out)@ + paint_row(chars@, colors@, mode, None) == out@ + paint_row(
                chars@.skip(col as int),
                colors@.skip(col as int),
                mode,
                last,
            ),
    {
        let ch = chars[col];
        let ghost before = out@;
        assert(chars@.skip(col as int)[0] == ch);
        assert(chars@.skip(col as int).drop_first() == chars@.skip(col + 1));
        assert(colors@.skip(col as int).drop_first() == colors@.skip(col + 1));
        assert(colors@.skip(col as int)[0] == colors@[col as int]);
        if ch == CONT {
        } else if ch == ' ' {
            push_char(out, ' ');
            assert(before + (seq![' '] + paint_row(chars@.skip(col + 1), colors@.skip(col + 1), mode, last)) =~= out@ + paint_row(chars@.skip(col + 1), colors@.skip(col + 1), mode, last));
        } else {
            let c = colors[col];
            if mode != ColorMode::NoColor && last != Some(c) {
                out.append(mode.fg(c).as_str());
                push_char(out, ch);
                assert(before + (crate::color::fg_escape(mode, c) + seq![ch] + paint_row(chars@.skip(col + 1), colors@.skip(col + 1), mode, Some(c))) =~= out@ + paint_row(chars@.skip(col + 1), colors@.skip(col + 1), mode, Some(c)));
                last = Some(c);
            } else {
                push_char(out, ch);
                assert(before + (seq![ch] + paint_row(chars@.skip(col + 1), colors@.skip(col + 1), mode, last)) =~= out@ + paint_row(chars@.skip(col + 1), colors@.skip(col + 1), mode, last));
            }
        }
    }
    assert(chars@.skip(chars@.len() as int) == Seq::<char>::empty());
}

/// Paint a composited grid into a printable string with ANSI color escapes:
/// `colors` holds the color of each cell; the grid is indented to `align`
/// it within `target_width` columns, with `margin_y` blank lines above and
/// below.
#[verifier::rlimit(40)]
pub fn paint_cells(grid: &Grid, colors: &Vec<Vec<Rgb>>, mode: ColorMode, align: Align, target_width: usize, margin_y: usize) -> (out: String)
    requires
        grid.wf(),
        colors_fit(grid, colors@),
    ensures
        out@ == painted(row_views(grid.chars@), color_views(colors@), mode, align, target_width as int, grid.width as int, margin_y as nat),
{
    let slack = if target_width > grid.width { target_width - grid.width } else { 0 };
    let indent = match align {
        Align::Left => 0,
        Align::Center => slack / 2,
        Align::Right => slack,
    };
    let ghost rows = row_views(grid.chars@);
    let ghost cols = color_views(colors@);
    let mut out = String::new();
    push_newlines(&mut out, margin_y);
    for row in 0..grid.height
        invariant
            grid.wf(),
            colors_fit(grid, colors@),
            rows == row_views(grid.chars@),
            cols == color_views(colors@),
            indent == indent_for(align, target_width as int, grid.width as int),
            out@ == newlines(margin_y as nat) + painted_rows(rows, cols, mode, indent as nat, row as int),
    {
        let ghost before = out@;
        push_spaces(&mut out, indent);
        paint_row_into(&mut out, &grid.chars[row], &colors[row], mode);
        out.append(mode.reset());
        push_char(&mut out, '\n');
        assert(rows[row as int] == grid.chars@[row as int]@);
        assert(cols[row as int] == colors@[row as int]@);
        assert(out@ =~= newlines(margin_y as nat) + painted_rows(rows, cols, mode, indent as nat, row + 1));
    }
    push_newlines(&mut out, margin_y);
    assert(rows.len() == grid.height);
    out
}


/// `s` holds no `x`.
pub open spec fn free_of(s: Seq<char>, x: char) -> bool {
    forall|i: int| 0 <= i < s.len() ==> s[i] != x
}

/// Number of occurrences of `x` in `s`.
pub open spec fn count_of(s: Seq<char>, x: char) -> nat
    decreases s.len(),
{
    if s.len() == 0 {
        0
    } else {
        count_of(s.drop_last(), x) + if s.last() == x { 1nat } else { 0nat }
    }
}

/// Two texts free of `x` join into one free of `x`.
pub proof fn lemma_free_concat(a: Seq<char>, b: Seq<char>, x: char)
    requires
        free_of(a, x),
        free_of(b, x),
    ensures
        free_of(a + b, x),
{
    assert forall|i: int| 0 <= i < (a + b).len() implies (a + b)[i] != x by {
        if i < a.len() {
            assert((a + b)[i] == a[i]);
        } else {
            assert((a + b)[i] == b[i - a.len()]);
        }
    }
}

/// Occurrences of `x` add up over a concatenation.
pub proof fn lemma_count_concat(a: Seq<char>, b: Seq<char>, x: char)
    ensures
        count_of(a + b, x) == count_of(a, x) + count_of(b, x),
    decreases b.len(),
{
    if b.len() == 0 {
        assert(a + b =~= a);
    } else {
        lemma_count_concat(a, b.drop_last(), x);
        assert((a + b).drop_last() =~= a + b.drop_last());
        assert((a + b).last() == b.last());
    }
}

/// A text free of `x` holds no occurrence of it.
pub proof fn lemma_count_free(a: Seq<char>, x: char)
    requires
        free_of(a, x),
    ensures
        count_of(a, x) == 0,
    decreases a.len(),
{
    if a.len() > 0 {
        lemma_count_free(a.drop_last(), x);
    }
}

proof fn lemma_newlines_count(n: nat)
    ensures
        count_of(newlines(n), '\n') == n,
        free_of(newlines(n), '\x1b'),
    decreases n,
{
    if n > 0 {
        lemma_newlines_count((n - 1) as nat);
        assert(newlines(n).drop_last() =~= newlines((n - 1) as nat));
    }
}

proof fn lemma_spaces_free(n: nat, x: char)
    requires
        x != ' ',
    ensures
        free_of(spaces(n), x),
{
}

proof fn lemma_dec_digits(n: nat)
    ensures
        forall|i: int| 0 <= i < crate::strs::dec(n).len() ==> '0' <= #[trigger] crate::strs::dec(n)[i] <= '9',
    decreases n,
{
    if n >= 10 {
        lemma_dec_digits(n / 10);
        let d = crate::strs::dec(n / 10);
        assert(crate::strs::dec(n) == d.push(crate::strs::digit_char(n % 10)));
    }
}

/// A color escape holds neither a line break nor a space.
pub proof fn lemma_fg_escape_free(mode: ColorMode, c: Rgb)
    ensures
        free_of(fg_escape(mode, c), '\n'),
        free_of(reset_escape(mode), '\n'),
{
    reveal_strlit("\x1b[38;2;");
    reveal_strlit(";");
    reveal_strlit("m");
    reveal_strlit("\x1b[38;5;");
    reveal_strlit("\x1b[0m");
    lemma_dec_digits(c.r as nat);
    lemma_dec_digits(c.g as nat);
    lemma_dec_digits(c.b as nat);
    lemma_dec_digits(crate::color::ansi256_index(c) as nat);
    let dr = crate::strs::dec(c.r as nat);
    let dg = crate::strs::dec(c.g as nat);
    let db = crate::strs::dec(c.b as nat);
    let da = crate::strs::dec(crate::color::ansi256_index(c) as nat);
    assert(free_of(dr, '\n'));
    assert(free_of(dg, '\n'));
    assert(free_of(db, '\n'));
    assert(free_of(da, '\n'));
    assert(free_of("\x1b[38;2;"@, '\n'));
    assert(free_of(";"@, '\n'));
    assert(free_of("m"@, '\n'));
    assert(free_of("\x1b[38;5;"@, '\n'));
    assert(free_of("\x1b[0m"@, '\n'));
    lemma_free_concat("\x1b[38;2;"@, dr, '\n');
    lemma_free_concat("\x1b[38;2;"@ + dr, ";"@, '\n');
    lemma_free_concat("\x1b[38;2;"@ + dr + ";"@, dg, '\n');
    lemma_free_concat("\x1b[38;2;"@ + dr + ";"@ + dg, ";"@, '\n');
    lemma_free_concat("\x1b[38;2;"@ + dr + ";"@ + dg + ";"@, db, '\n');
    lemma_free_concat("\x1b[38;2;"@ + dr + ";"@ + dg + ";"@ + db, "m"@, '\n');
    lemma_free_concat("\x1b[38;5;"@, da, '\n');
    lemma_free_concat("\x1b[38;5;"@ + da, "m"@, '\n');
}

/// A painted row contains only the row's own glyphs, spaces and (with color
/// on) color escapes.
proof fn lemma_paint_row_free(chars: Seq<char>, colors: Seq<Rgb>, mode: ColorMode, last: Option<Rgb>, x: char)
    requires
        free_of(chars, x),
        x != ' ',
        mode == ColorMode::NoColor || x == '\n',
    ensures
        free_of(paint_row(chars, colors, mode, last), x),
    decreases chars.len(),
{
    if chars.len() > 0 {
        let ch = chars[0];
        let rest = chars.drop_first();
        assert(free_of(rest, x));
        assert(ch != x);
        let rc = colors.drop_first();
        if ch == CONT {
            lemma_paint_row_free(rest, rc, mode, last, x);
        } else if ch == ' ' {
            lemma_paint_row_free(rest, rc, mode, last, x);
            lemma_free_concat(seq![' '], paint_row(rest, rc, mode, last), x);
        } else {
            let c = colors[0];
            if mode != ColorMode::NoColor && last != Some(c) {
                lemma_paint_row_free(rest, rc, mode, Some(c), x);
                lemma_fg_escape_free(mode, c);
                lemma_free_concat(fg_escape(mode, c), seq![ch], x);
                lemma_free_concat(fg_escape(mode, c) + seq![ch], paint_row(rest, rc, mode, Some(c)), x);
            } else {
                lemma_paint_row_free(rest, rc, mode, last, x);
                lemma_free_concat(seq![ch], paint_row(rest, rc, mode, last), x);
            }
        }
    }
}

proof fn lemma_painted_rows(rows: Seq<Seq<char>>, colors: Seq<Seq<Rgb>>, mode: ColorMode, indent: nat, k: int)
    requires
        0 <= k <= rows.len(),
        forall|r: int| 0 <= r < rows.len() ==> free_of(#[trigger] rows[r], '\n'),
    ensures
        count_of(painted_rows(rows, colors, mode, indent, k), '\n') == k,
        (mode == ColorMode::NoColor && forall|r: int| 0 <= r < rows.len() ==> free_of(#[trigger] rows[r], '\x1b'))
            ==> free_of(painted_rows(rows, colors, mode, indent, k), '\x1b'),
    decreases k,
{
    if k > 0 {
        lemma_painted_rows(rows, colors, mode, indent, k - 1);
        let prev = painted_rows(rows, colors, mode, indent, k - 1);
        let pr = paint_row(rows[k - 1], colors[k - 1], mode, None);
        lemma_paint_row_free(rows[k - 1], colors[k - 1], mode, None, '\n');
        lemma_fg_escape_free(mode, Rgb { r: 0, g: 0, b: 0 });
        lemma_spaces_free(indent, '\n');
        let line = spaces(indent) + pr + reset_escape(mode) + seq!['\n'];
        lemma_free_concat(spaces(indent), pr, '\n');
        lemma_free_concat(spaces(indent) + pr, reset_escape(mode), '\n');
        lemma_count_free(spaces(indent) + pr + reset_escape(mode), '\n');
        lemma_count_concat(spaces(indent) + pr + reset_escape(mode), seq!['\n'], '\n');
        assert(count_of(seq!['\n'], '\n') == 1) by {
            assert(seq!['\n'].drop_last() =~= Seq::<char>::empty());
            assert(seq!['\n'].last() == '\n');
            reveal_with_fuel(count_of, 2);
        }
        assert(painted_rows(rows, colors, mode, indent, k) == prev + line);
        lemma_count_concat(prev, line, '\n');
        if mode == ColorMode::NoColor && forall|r: int| 0 <= r < rows.len() ==> free_of(#[trigger] rows[r], '\x1b') {
            assert(free_of(rows[k - 1], '\x1b'));
            lemma_paint_row_free(rows[k - 1], colors[k - 1], mode, None, '\x1b');
            lemma_spaces_free(indent, '\x1b');
            lemma_free_concat(spaces(indent), pr, '\x1b');
            assert(reset_escape(mode) =~= Seq::<char>::empty());
            lemma_free_concat(spaces(indent) + pr, reset_escape(mode), '\x1b');
            lemma_free_concat(spaces(indent) + pr + reset_escape(mode), seq!['\n'], '\x1b');
            lemma_free_concat(prev, line, '\x1b');
        }
    }
}

/// A painted banner has one line break per grid row plus the margins, and
/// with color off it holds no escape character (when the grid's glyphs
/// hold neither line breaks nor escape characters).
pub proof fn lemma_painted_shape(rows: Seq<Seq<char>>, colors: Seq<Seq<Rgb>>, mode: ColorMode, align: Align, target: int, width: int, margin: nat)
    requires
        forall|r: int| 0 <= r < rows.len() ==> free_of(#[trigger] rows[r], '\n'),
    ensures
        count_of(painted(rows, colors, mode, align, target, width, margin), '\n') == 2 * margin + rows.len(),
        (mode == ColorMode::NoColor && forall|r: int| 0 <= r < rows.len() ==> free_of(#[trigger] rows[r], '\x1b'))
            ==> free_of(painted(rows, colors, mode, align, target, width, margin), '\x1b'),
{
    let indent = indent_for(align, target, width) as nat;
    let body = painted_rows(rows, colors, mode, indent, rows.len() as int);
    lemma_painted_rows(rows, colors, mode, indent, rows.len() as int);
    lemma_newlines_count(margin);
    lemma_count_concat(newlines(margin), body, '\n');
    lemma_count_concat(newlines(margin) + body, newlines(margin), '\n');
    if mode == ColorMode::NoColor && forall|r: int| 0 <= r < rows.len() ==> free_of(#[trigger] rows[r], '\x1b') {
        lemma_free_concat(newlines(margin), body, '\x1b');
        lemma_free_concat(newlines(margin) + body, newlines(margin), '\x1b');
    }
}


/// `s`, read from state `inside` (within an escape sequence or not), with
/// its escape sequences removed: an escape character opens one and the
/// next `m` closes it.
pub open spec fn strip_from(s: Seq<char>, inside: bool) -> Seq<char>
    decreases s.len(),
{
    if s.len() == 0 {
        Seq::empty()
    } else if inside {
        strip_from(s.drop_first(), s[0] != 'm')
    } else if s[0] == '\x1b' {
        strip_from(s.drop_first(), true)
    } else {
        seq![s[0]] + strip_from(s.drop_first(), false)
    }
}

/// Whether reading `s` from state `inside` ends within an escape sequence.
pub open spec fn inside_after(s: Seq<char>, inside: bool) -> bool
    decreases s.len(),
{
    if s.len() == 0 {
        inside
    } else if inside {
        inside_after(s.drop_first(), s[0] != 'm')
    } else {
        inside_after(s.drop_first(), s[0] == '\x1b')
    }
}

/// The text of `s` with its SGR escape sequences removed.
pub open spec fn strip_escapes(s: Seq<char>) -> Seq<char> {
    strip_from(s, false)
}

pub(crate) proof fn lemma_strip_concat(a: Seq<char>, b: Seq<char>, inside: bool)
    ensures
        strip_from(a + b, inside) == strip_from(a, inside) + strip_from(b, inside_after(a, inside)),
        inside_after(a + b, inside) == inside_after(b, inside_after(a, inside)),
    decreases a.len(),
{
    if a.len() == 0 {
        assert(a + b =~= b);
    } else {
        assert((a + b).drop_first() =~= a.drop_first() + b);
        assert((a + b)[0] == a[0]);
        let next = if inside { a[0] != 'm' } else { a[0] == '\x1b' };
        lemma_strip_concat(a.drop_first(), b, next);
        if !inside && a[0] != '\x1b' {
            assert(seq![a[0]] + strip_from(a.drop_first(), false) + strip_from(b, inside_after(a, inside))
                =~= seq![a[0]] + (strip_from(a.drop_first(), false) + strip_from(b, inside_after(a, inside))));
        }
    }
}

pub(crate) proof fn lemma_strip_plain(s: Seq<char>)
    requires
        free_of(s, '\x1b'),
    ensures
        strip_from(s, false) == s,
        !inside_after(s, false),
    decreases s.len(),
{
    if s.len() > 0 {
        assert(s[0] != '\x1b');
        assert(free_of(s.drop_first(), '\x1b')) by {
            assert forall|i: int| 0 <= i < s.drop_first().len() implies s.drop_first()[i] != '\x1b' by {
                assert(s.drop_first()[i] == s[i + 1]);
            }
        }
        lemma_strip_plain(s.drop_first());
        assert(seq![s[0]] + s.drop_first() =~= s);
    }
}

proof fn lemma_escape_body(body: Seq<char>)
    requires
        free_of(body, 'm'),
    ensures
        strip_from(body + seq!['m'], true) == Seq::<char>::empty(),
        !inside_after(body + seq!['m'], true),
    decreases body.len(),
{
    if body.len() == 0 {
        assert(body + seq!['m'] =~= seq!['m']);
        assert(seq!['m'].drop_first() =~= Seq::<char>::empty());
        assert(seq!['m'][0] == 'm');
        reveal_with_fuel(strip_from, 2);
        reveal_with_fuel(inside_after, 2);
    } else {
        assert((body + seq!['m']).drop_first() =~= body.drop_first() + seq!['m']);
        assert((body + seq!['m'])[0] == body[0]);
        assert(body[0] != 'm');
        assert(free_of(body.drop_first(), 'm')) by {
            assert forall|i: int| 0 <= i < body.drop_first().len() implies body.drop_first()[i] != 'm' by {
                assert(body.drop_first()[i] == body[i + 1]);
            }
        }
        lemma_escape_body(body.drop_first());
    }
}

/// An escape character, a body without `m`, and the closing `m` strip to
/// nothing and leave the reader outside an escape.
proof fn lemma_sequence_vanishes(body: Seq<char>)
    requires
        free_of(body, 'm'),
    ensures
        strip_from(seq!['\x1b'] + body + seq!['m'], false) == Seq::<char>::empty(),
        !inside_after(seq!['\x1b'] + body + seq!['m'], false),
{
    let s = seq!['\x1b'] + body + seq!['m'];
    assert(s.drop_first() =~= body + seq!['m']);
    assert(s[0] == '\x1b');
    lemma_escape_body(body);
}

proof fn lemma_digits_free_of_m(n: nat)
    ensures
        free_of(crate::strs::dec(n), 'm'),
{
    lemma_dec_digits(n);
}

/// Every color escape and reset is a whole escape sequence: it strips to
/// nothing and leaves the reader outside an escape.
pub(crate) proof fn lemma_escapes_vanish(mode: ColorMode, c: Rgb)
    ensures
        strip_from(fg_escape(mode, c), false) == Seq::<char>::empty(),
        !inside_after(fg_escape(mode, c), false),
        strip_from(reset_escape(mode), false) == Seq::<char>::empty(),
        !inside_after(reset_escape(mode), false),
{
    reveal_strlit("\x1b[38;2;");
    reveal_strlit(";");
    reveal_strlit("m");
    reveal_strlit("\x1b[38;5;");
    reveal_strlit("\x1b[0m");
    match mode {
        ColorMode::True => {
            let dr = crate::strs::dec(c.r as nat);
            let dg = crate::strs::dec(c.g as nat);
            let db = crate::strs::dec(c.b as nat);
            lemma_digits_free_of_m(c.r as nat);
            lemma_digits_free_of_m(c.g as nat);
            lemma_digits_free_of_m(c.b as nat);
            let head = seq!['[', '3', '8', ';', '2', ';'];
            let body = head + dr + seq![';'] + dg + seq![';'] + db;
            assert(free_of(head, 'm'));
            assert(free_of(seq![';'], 'm'));
            lemma_free_concat(head, dr, 'm');
            lemma_free_concat(head + dr, seq![';'], 'm');
            lemma_free_concat(head + dr + seq![';'], dg, 'm');
            lemma_free_concat(head + dr + seq![';'] + dg, seq![';'], 'm');
            lemma_free_concat(head + dr + seq![';'] + dg + seq![';'], db, 'm');
            assert(fg_escape(mode, c) =~= seq!['\x1b'] + body + seq!['m']);
            lemma_sequence_vanishes(body);
        },
        ColorMode::Ansi256 => {
            let da = crate::strs::dec(crate::color::ansi256_index(c) as nat);
            lemma_digits_free_of_m(crate::color::ansi256_index(c) as nat);
            let head = seq!['[', '3', '8', ';', '5', ';'];
            assert(free_of(head, 'm'));
            lemma_free_concat(head, da, 'm');
            assert(fg_escape(mode, c) =~= seq!['\x1b'] + (head + da) + seq!['m']);
            lemma_sequence_vanishes(head + da);
        },
        ColorMode::NoColor => {},
    }
    if mode != ColorMode::NoColor {
        let body = seq!['[', '0'];
        assert(free_of(body, 'm'));
        assert(reset_escape(mode) =~= seq!['\x1b'] + body + seq!['m']);
        lemma_sequence_vanishes(body);
    }
}

proof fn lemma_paint_row_strip(chars: Seq<char>, colors: Seq<Rgb>, mode: ColorMode, last: Option<Rgb>)
    requires
        free_of(chars, '\x1b'),
    ensures
        strip_from(paint_row(chars, colors, mode, last), false) == paint_row(chars, colors, ColorMode::NoColor, None),
        !inside_after(paint_row(chars, colors, mode, last), false),
    decreases chars.len(),
{
    if chars.len() > 0 {
        let ch = chars[0];
        let rest = chars.drop_first();
        let rc = colors.drop_first();
        assert(ch != '\x1b');
        assert(free_of(rest, '\x1b')) by {
            assert forall|i: int| 0 <= i < rest.len() implies rest[i] != '\x1b' by {
                assert(rest[i] == chars[i + 1]);
            }
        }
        if ch == CONT {
            lemma_paint_row_strip(rest, rc, mode, last);
        } else if ch == ' ' {
            lemma_paint_row_strip(rest, rc, mode, last);
            lemma_strip_concat(seq![' '], paint_row(rest, rc, mode, last), false);
            lemma_strip_plain(seq![' ']);
        } else {
            let c = colors[0];
            if mode != ColorMode::NoColor && last != Some(c) {
                lemma_paint_row_strip(rest, rc, mode, Some(c));
                lemma_escapes_vanish(mode, c);
                lemma_strip_plain(seq![ch]);
                lemma_strip_concat(fg_escape(mode, c), seq![ch], false);
                lemma_strip_concat(fg_escape(mode, c) + seq![ch], paint_row(rest, rc, mode, Some(c)), false);
                assert(Seq::<char>::empty() + seq![ch] =~= seq![ch]);
            } else {
                lemma_paint_row_strip(rest, rc, mode, last);
                lemma_strip_plain(seq![ch]);
                lemma_strip_concat(seq![ch], paint_row(rest, rc, mode, last), false);
            }
        }
    }
}

proof fn lemma_painted_rows_strip(rows: Seq<Seq<char>>, colors: Seq<Seq<Rgb>>, mode: ColorMode, indent: nat, k: int)
    requires
        0 <= k <= rows.len(),
        forall|r: int| 0 <= r < rows.len() ==> free_of(#[trigger] rows[r], '\x1b'),
    ensures
        strip_from(painted_rows(rows, colors, mode, indent, k), false) == painted_rows(rows, colors, ColorMode::NoColor, indent, k),
        !inside_after(painted_rows(rows, colors, mode, indent, k), false),
    decreases k,
{
    if k > 0 {
        lemma_painted_rows_strip(rows, colors, mode, indent, k - 1);
        let prev = painted_rows(rows, colors, mode, indent, k - 1);
        let pr = paint_row(rows[k - 1], colors[k - 1], mode, None);
        assert(free_of(rows[k - 1], '\x1b'));
        lemma_paint_row_strip(rows[k - 1], colors[k - 1], mode, None);
        lemma_escapes_vanish(mode, Rgb { r: 0, g: 0, b: 0 });
        lemma_spaces_free(indent, '\x1b');
        lemma_strip_plain(spaces(indent));
        lemma_strip_plain(seq!['\n']);
        lemma_strip_concat(prev, spaces(indent), false);
        lemma_strip_concat(prev + spaces(indent), pr, false);
        lemma_strip_concat(prev + spaces(indent) + pr, reset_escape(mode), false);
        lemma_strip_concat(prev + spaces(indent) + pr + reset_escape(mode), seq!['\n'], false);
        assert(reset_escape(ColorMode::NoColor) =~= Seq::<char>::empty());
        assert(painted_rows(rows, colors, ColorMode::NoColor, indent, k) =~= painted_rows(rows, colors, ColorMode::NoColor, indent, k - 1)
            + spaces(indent) + paint_row(rows[k - 1], colors[k - 1], ColorMode::NoColor, None) + seq!['\n']);
    }
}

/// Color only adds escape sequences: with them removed, a banner painted in
/// any mode is the colorless painting (when the grid's glyphs hold no
/// escape character).
pub proof fn lemma_color_only_adds_escapes(rows: Seq<Seq<char>>, colors: Seq<Seq<Rgb>>, mode: ColorMode, align: Align, target: int, width: int, margin: nat)
    requires
        forall|r: int| 0 <= r < rows.len() ==> free_of(#[trigger] rows[r], '\x1b'),
    ensures
        strip_escapes(painted(rows, colors, mode, align, target, width, margin)) == painted(rows, colors, ColorMode::NoColor, align, target, width, margin),
{
    let indent = indent_for(align, target, width) as nat;
    let body = painted_rows(rows, colors, mode, indent, rows.len() as int);
    lemma_painted_rows_strip(rows, colors, mode, indent, rows.len() as int);
    assert(free_of(newlines(margin), '\x1b'));
    lemma_strip_plain(newlines(margin));
    lemma_strip_concat(newlines(margin), body, false);
    lemma_strip_concat(newlines(margin) + body, newlines(margin), false);
}

/// XML escaping of one character.
pub open spec fn xml_char(c: char) -> Seq<char> {
    if c == '&' {
        "&amp;"@
    } else if c == '<' {
        "&lt;"@
    } else if c == '>' {
        "&gt;"@
    } else {
        seq![c]
    }
}

/// `s` with `&`, `<` and `>` replaced by their XML entities.
pub open spec fn xml_escaped(s: Seq<char>) -> Seq<char>
    decreases s.len(),
{
    if s.len() == 0 {
        Seq::empty()
    } else {
        xml_escaped(s.drop_last()) + xml_char(s.last())
    }
}

/// Escape `&`, `<` and `>` for XML text.
pub fn xml_escape(s: &str) -> (out: String)
    ensures
        out@ == xml_escaped(s@),
{
    let cs = to_chars(s);
    let mut out = String::new();
    for i in 0..cs.len()
        invariant
            cs@ == s@,
            out@ == xml_escaped(cs@.take(i as int)),
    {
        let c = cs[i];
        assert(cs@.take(i + 1).drop_last() == cs@.take(i as int));
        if c == '&' {
            out.append("&amp;");
        } else if c == '<' {
            out.append("&lt;");
        } else if c == '>' {
            out.append("&gt;");
        } else {
            push_char(&mut out, c);
        }
    }
    assert(cs@.take(cs@.len() as int) == cs@);
    out
}

/// No `<` or `>` survives escaping, so escaped text cannot open or close a tag.
pub proof fn lemma_xml_escaped_has_no_brackets(s: Seq<char>)
    ensures
        free_of(xml_escaped(s), '<'),
        free_of(xml_escaped(s), '>'),
    decreases s.len(),
{
    if s.len() > 0 {
        lemma_xml_escaped_has_no_brackets(s.drop_last());
        reveal_strlit("&amp;");
        reveal_strlit("&lt;");
        reveal_strlit("&gt;");
        let c = s.last();
        assert(free_of(xml_char(c), '<'));
        assert(free_of(xml_char(c), '>'));
        lemma_free_concat(xml_escaped(s.drop_last()), xml_char(c), '<');
        lemma_free_concat(xml_escaped(s.drop_last()), xml_char(c), '>');
    }
}

/// A `<tspan>` for a run of text with an optional fill color.
pub open spec fn span_text(text: Seq<char>, fill: Option<Rgb>) -> Seq<char> {
    if text.len() == 0 {
        Seq::empty()
    } else {
        match fill {
            Some(c) => "<tspan fill=\""@ + crate::color::hex_color(c) + "\">"@ + xml_escaped(text)
                + "</tspan>"@,
            None => xml_escaped(text),
        }
    }
}

/// Emit a `<tspan>` for a run of text with an optional fill color.
pub fn push_span(out: &mut String, text: &str, fill: Option<Rgb>)
    ensures
        final(out)@ == old(out)@ + span_text(text@, fill),
{
    if text.is_empty() {
        assert(old(out)@ + span_text(text@, fill) =~= old(out)@);
        return;
    }
    match fill {
        Some(c) => {
            out.append("<tspan fill=\"");
            out.append(crate::color::hex(c).as_str());
            out.append("\">");
            out.append(xml_escape(text).as_str());
            out.append("</tspan>");
        },
        None => {
            out.append(xml_escape(text).as_str());
        },
    }
}

/// State while grouping a grid row into spans: text emitted so far, the
/// pending run, and the run's fill.
pub struct SpanState {
    pub out: Seq<char>,
    pub run: Seq<char>,
    pub fill: Option<Rgb>,
}

/// One cell of the row: `CONT` cells are skipped; a glyph whose color
/// differs from the pending run's flushes the run first; spaces extend the
/// current run without changing its color.
pub open spec fn span_step(st: SpanState, ch: char, color: Rgb) -> SpanState {
    if ch == CONT {
        st
    } else {
        let cell_fill = if ch == ' ' { st.fill } else { Some(color) };
        let flush = ch != ' ' && cell_fill != st.fill && st.run.len() > 0;
        let out = if flush { st.out + span_text(st.run, st.fill) } else { st.out };
        let run = if flush { seq![ch] } else { st.run.push(ch) };
        let fill = if ch != ' ' { cell_fill } else { st.fill };
        SpanState { out, run, fill }
    }
}

pub open spec fn span_fold(chars: Seq<char>, colors: Seq<Rgb>, n: int) -> SpanState
    decreases n,
{
    if n <= 0 {
        SpanState { out: Seq::empty(), run: Seq::empty(), fill: None }
    } else {
        span_step(span_fold(chars, colors, n - 1), chars[n - 1], colors[n - 1])
    }
}

/// The spans of one grid row, cells sharing a fill grouped together.
pub open spec fn svg_row_spans(chars: Seq<char>, colors: Seq<Rgb>) -> Seq<char> {
    let st = span_fold(chars, colors, chars.len() as int);
    st.out + span_text(st.run, st.fill)
}

/// The `<tspan>` runs of grid row `row`, grouping consecutive cells that
/// share a fill color (`colors` holds each cell's color).
pub fn svg_row(grid: &Grid, colors: &Vec<Vec<Rgb>>, row: usize) -> (out: String)
    requires
        grid.wf(),
        colors_fit(grid, colors@),
        row < grid.height,
    ensures
        out@ == svg_row_spans(grid.chars@[row as int]@, colors@[row as int]@),
{
    let chars = &grid.chars[row];
    let cols = &colors[row];
    let mut out = String::new();
    let mut run: Vec<char> = Vec::new();
    let mut fill: Option<Rgb> = None;
    for col in 0..grid.width
        invariant
            grid.wf(),
            colors_fit(grid, colors@),
            row < grid.height,
            chars@ == grid.chars@[row as int]@,
            cols@ == colors@[row as int]@,
            chars@.len() == grid.width,
            cols@.len() == grid.width,
            span_fold(chars@, cols@, col as int) == (SpanState { out: out@, run: run@, fill }),
    {
        let ch = chars[col];
        if ch == CONT {
        } else {
            let cell_fill = if ch == ' ' { fill } else { Some(cols[col]) };
            if ch != ' ' && cell_fill != fill && run.len() > 0 {
                push_span(&mut out, from_chars(&run).as_str(), fill);
                run = Vec::new();
            }
            if ch != ' ' {
                fill = cell_fill;
            }
            run.push(ch);
        }
        assert(span_fold(chars@, cols@, col + 1) == span_step(span_fold(chars@, cols@, col as int), chars@[col as int], cols@[col as int]));
        assert(span_fold(chars@, cols@, col + 1).run =~= run@);
    }
    push_span(&mut out, from_chars(&run).as_str(), fill);
    out
}

/// A cell that shows ink: neither blank nor the continuation of a wide glyph.
pub open spec fn is_glyph(ch: char) -> bool {
    ch != ' ' && ch != CONT
}

/// The color of the last glyph among the first `n` cells, if there is one.
pub open spec fn last_glyph_fill(chars: Seq<char>, colors: Seq<Rgb>, n: int) -> Option<Rgb>
    decreases n,
{
    if n <= 0 {
        None
    } else if is_glyph(chars[n - 1]) {
        Some(colors[n - 1])
    } else {
        last_glyph_fill(chars, colors, n - 1)
    }
}

/// The characters of the first `n` cells, continuation cells left out.
pub open spec fn shown_chars(chars: Seq<char>, n: int) -> Seq<char>
    decreases n,
{
    if n <= 0 {
        Seq::empty()
    } else if chars[n - 1] == CONT {
        shown_chars(chars, n - 1)
    } else {
        shown_chars(chars, n - 1).push(chars[n - 1])
    }
}

proof fn lemma_fold_fill(chars: Seq<char>, colors: Seq<Rgb>, n: int)
    requires
        0 <= n <= chars.len(),
    ensures
        span_fold(chars, colors, n).fill == last_glyph_fill(chars, colors, n),
    decreases n,
{
    if n > 0 {
        lemma_fold_fill(chars, colors, n - 1);
    }
}

proof fn lemma_fold_prefix(x: Seq<char>, cx: Seq<Rgb>, y: Seq<char>, cy: Seq<Rgb>, n: int)
    requires
        x.len() == cx.len(),
        0 <= n <= x.len(),
    ensures
        span_fold(x + y, cx + cy, n) == span_fold(x, cx, n),
        last_glyph_fill(x + y, cx + cy, n) == last_glyph_fill(x, cx, n),
    decreases n,
{
    if n > 0 {
        lemma_fold_prefix(x, cx, y, cy, n - 1);
        assert((x + y)[n - 1] == x[n - 1]);
        assert((cx + cy)[n - 1] == cx[n - 1]);
    }
}

proof fn lemma_fold_after_split(x: Seq<char>, cx: Seq<Rgb>, y: Seq<char>, cy: Seq<Rgb>, m: int)
    requires
        x.len() == cx.len(),
        y.len() == cy.len(),
        1 <= m <= y.len(),
        is_glyph(y[0]),
        last_glyph_fill(x, cx, x.len() as int) != Some(cy[0]),
    ensures
        span_fold(x + y, cx + cy, x.len() + m) == (SpanState {
            out: svg_row_spans(x, cx) + span_fold(y, cy, m).out,
            run: span_fold(y, cy, m).run,
            fill: span_fold(y, cy, m).fill,
        }),
    decreases m,
{
    let n = x.len() as int;
    assert((x + y)[n + m - 1] == y[m - 1]);
    assert((cx + cy)[n + m - 1] == cy[m - 1]);
    if m == 1 {
        lemma_fold_prefix(x, cx, y, cy, n);
        lemma_fold_fill(x, cx, n);
        let st = span_fold(x, cx, n);
        if st.run.len() == 0 {
            assert(span_text(st.run, st.fill) =~= Seq::<char>::empty());
            assert(svg_row_spans(x, cx) =~= st.out);
        }
        assert(span_fold(y, cy, 0).out =~= Seq::<char>::empty());
        assert(span_fold(y, cy, 1).run =~= seq![y[0]]);
        assert(span_fold(y, cy, 1).out =~= Seq::<char>::empty());
        assert(span_fold(x + y, cx + cy, n + 1).out =~= svg_row_spans(x, cx) + span_fold(y, cy, 1).out);
        assert(span_fold(x + y, cx + cy, n + 1).run =~= seq![y[0]]);
    } else {
        lemma_fold_after_split(x, cx, y, cy, m - 1);
        let p = svg_row_spans(x, cx);
        let b = span_fold(y, cy, m - 1);
        let a = span_fold(x + y, cx + cy, n + m - 1);
        assert(a.out == p + b.out);
        assert((p + b.out) + span_text(b.run, b.fill) =~= p + (b.out + span_text(b.run, b.fill)));
    }
}

/// Where a row is cut just before a glyph whose color differs from that of
/// the last glyph before the cut, the row's spans are the spans of the part
/// before the cut followed by those of the part after it: the run ending at
/// the cut is written with its own fill, not the next one.
pub proof fn lemma_svg_row_splits(x: Seq<char>, cx: Seq<Rgb>, y: Seq<char>, cy: Seq<Rgb>)
    requires
        x.len() == cx.len(),
        y.len() == cy.len(),
        y.len() > 0,
        is_glyph(y[0]),
        last_glyph_fill(x, cx, x.len() as int) != Some(cy[0]),
    ensures
        svg_row_spans(x + y, cx + cy) == svg_row_spans(x, cx) + svg_row_spans(y, cy),
{
    let n = x.len() as int;
    let m = y.len() as int;
    lemma_fold_after_split(x, cx, y, cy, m);
    assert((x + y).len() == n + m);
    let p = svg_row_spans(x, cx);
    let b = span_fold(y, cy, m);
    assert((p + b.out) + span_text(b.run, b.fill) =~= p + (b.out + span_text(b.run, b.fill)));
}

proof fn lemma_fold_one_fill(chars: Seq<char>, colors: Seq<Rgb>, col: Rgb, n: int)
    requires
        chars.len() == colors.len(),
        1 <= n <= chars.len(),
        is_glyph(chars[0]),
        forall|i: int| 0 <= i < chars.len() && is_glyph(chars[i]) ==> colors[i] == col,
    ensures
        span_fold(chars, colors, n) == (SpanState { out: Seq::empty(), run: shown_chars(chars, n), fill: Some(col) }),
    decreases n,
{
    if n == 1 {
        assert(span_fold(chars, colors, 0).run =~= Seq::<char>::empty());
        assert(shown_chars(chars, 0) =~= Seq::<char>::empty());
    } else {
        lemma_fold_one_fill(chars, colors, col, n - 1);
    }
}

/// A row whose glyphs share one color, starting with a glyph, is a single
/// span of that color holding every shown character, blanks included.
pub proof fn lemma_svg_row_one_color(chars: Seq<char>, colors: Seq<Rgb>, col: Rgb)
    requires
        chars.len() == colors.len(),
        chars.len() > 0,
        is_glyph(chars[0]),
        forall|i: int| 0 <= i < chars.len() && is_glyph(chars[i]) ==> colors[i] == col,
    ensures
        svg_row_spans(chars, colors) == span_text(shown_chars(chars, chars.len() as int), Some(col)),
{
    lemma_fold_one_fill(chars, colors, col, chars.len() as int);
}

proof fn lemma_fold_blank(chars: Seq<char>, colors: Seq<Rgb>, n: int)
    requires
        chars.len() == colors.len(),
        0 <= n <= chars.len(),
        forall|i: int| 0 <= i < chars.len() ==> !is_glyph(#[trigger] chars[i]),
    ensures
        span_fold(chars, colors, n) == (SpanState { out: Seq::empty(), run: shown_chars(chars, n), fill: None }),
    decreases n,
{
    if n > 0 {
        lemma_fold_blank(chars, colors, n - 1);
    }
}

/// A row without glyphs is written as its shown characters, with no span
/// and no fill.
pub proof fn lemma_svg_row_blank(chars: Seq<char>, colors: Seq<Rgb>)
    requires
        chars.len() == colors.len(),
        forall|i: int| 0 <= i < chars.len() ==> !is_glyph(#[trigger] chars[i]),
    ensures
        svg_row_spans(chars, colors) == span_text(shown_chars(chars, chars.len() as int), None),
{
    lemma_fold_blank(chars, colors, chars.len() as int);
}

/// Canvas width in pixels of `cols` cells: a 24px monospace font advances
/// 14.4px per cell, rounded to a whole pixel.
pub open spec fn px_width(cols: nat) -> nat {
    (cols * 144 + 5) / 10
}

/// Canvas height in pixels of `rows` lines of 28.8px, rounded.
pub open spec fn px_height(rows: nat) -> nat {
    (rows * 288 + 5) / 10
}

/// Baseline of line `row` in tenths of a pixel: eight tenths of a line
/// down into the line.
pub open spec fn baseline_tenths(row: nat) -> nat {
    288 * row + 230
}

/// The backdrop behind an SVG banner: the given color, else a dark gray.
pub open spec fn svg_backdrop(bg: Option<Rgb>) -> Rgb {
    match bg {
        Some(c) => c,
        None => Rgb { r: 13, g: 17, b: 23 },
    }
}

/// The opening of the SVG document down to the text element.
pub open spec fn svg_head(width: nat, height: nat, bg: Option<Rgb>) -> Seq<char> {
    "<svg xmlns=\"http://www.w3.org/2000/svg\" width=\""@ + dec(px_width(width)) + "\" height=\""@
        + dec(px_height(height)) + "\" viewBox=\"0 0 "@ + dec(px_width(width)) + " "@ + dec(
        px_height(height),
    ) + "\">\n"@ + "<rect width=\"100%\" height=\"100%\" rx=\"8\" fill=\""@ + crate::color::hex_color(
        svg_backdrop(bg),
    ) + "\"/>\n"@
        + "<text xml:space=\"preserve\" font-family=\"ui-monospace,SFMono-Regular,Menlo,Consolas,monospace\" font-size=\"24\" font-weight=\"bold\">\n"@
}

/// One line of the SVG text: its baseline and its spans.
pub open spec fn svg_line(chars: Seq<char>, colors: Seq<Rgb>, row: nat) -> Seq<char> {
    "<tspan x=\"0\" y=\""@ + dec(baseline_tenths(row) / 10) + "."@ + dec(baseline_tenths(row) % 10)
        + "\">"@ + svg_row_spans(chars, colors) + "</tspan>\n"@
}

/// The first `k` lines of the SVG text.
pub open spec fn svg_lines(rows: Seq<Seq<char>>, colors: Seq<Seq<Rgb>>, k: int) -> Seq<char>
    decreases k,
{
    if k <= 0 {
        Seq::empty()
    } else {
        svg_lines(rows, colors, k - 1) + svg_line(rows[k - 1], colors[k - 1], (k - 1) as nat)
    }
}

fn svg_text_line(grid: &Grid, colors: &Vec<Vec<Rgb>>, row: usize) -> (s: String)
    requires
        grid.wf(),
        colors_fit(grid, colors@),
        row < grid.height,
    ensures
        s@ == svg_line(grid.chars@[row as int]@, colors@[row as int]@, row as nat),
{
    let t: u128 = 288 * (row as u128) + 230;
    let mut s = String::from_str("<tspan x=\"0\" y=\"");
    s.append(crate::strs::dec_string_wide(t / 10).as_str());
    s.append(".");
    s.append(crate::strs::dec_string_wide(t % 10).as_str());
    s.append("\">");
    s.append(svg_row(grid, colors, row).as_str());
    s.append("</tspan>\n");
    s
}

/// The standalone SVG picture of a grid.
pub open spec fn svg_document(rows: Seq<Seq<char>>, colors: Seq<Seq<Rgb>>, width: nat, height: nat, bg: Option<Rgb>) -> Seq<char> {
    svg_head(width, height, bg) + svg_lines(rows, colors, height as int) + "</text>\n</svg>\n"@
}

/// Render a composed grid as a standalone SVG (a monospace text with
/// colored spans), for embedding in a README or docs. `colors` holds each
/// cell's color; `background` fills the canvas, a dark backdrop when `None`
/// so light gradients stay readable.
pub fn to_svg(grid: &Grid, colors: &Vec<Vec<Rgb>>, background: Option<Rgb>) -> (s: String)
    requires
        grid.wf(),
        colors_fit(grid, colors@),
    ensures
        s@ == svg_document(row_views(grid.chars@), color_views(colors@), grid.width as nat, grid.height as nat, background),
{
    let w: u128 = (grid.width as u128 * 144 + 5) / 10;
    let h: u128 = (grid.height as u128 * 288 + 5) / 10;
    let bg = match background {
        Some(c) => c,
        None => Rgb::new(13, 17, 23),
    };
    let mut s = String::from_str("<svg xmlns=\"http://www.w3.org/2000/svg\" width=\"");
    s.append(crate::strs::dec_string_wide(w).as_str());
    s.append("\" height=\"");
    s.append(crate::strs::dec_string_wide(h).as_str());
    s.append("\" viewBox=\"0 0 ");
    s.append(crate::strs::dec_string_wide(w).as_str());
    s.append(" ");
    s.append(crate::strs::dec_string_wide(h).as_str());
    s.append("\">\n");
    s.append("<rect width=\"100%\" height=\"100%\" rx=\"8\" fill=\"");
    s.append(crate::color::hex(bg).as_str());
    s.append("\"/>\n");
    s.append("<text xml:space=\"preserve\" font-family=\"ui-monospace,SFMono-Regular,Menlo,Consolas,monospace\" font-size=\"24\" font-weight=\"bold\">\n");
    let ghost head = s@;
    assert(head == svg_head(grid.width as nat, grid.height as nat, background));
    let ghost rv = row_views(grid.chars@);
    let ghost cv = color_views(colors@);
    for row in 0..grid.height
        invariant
            grid.wf(),
            colors_fit(grid, colors@),
            rv == row_views(grid.chars@),
            cv == color_views(colors@),
            s@ == head + svg_lines(rv, cv, row as int),
    {
        let line = svg_text_line(grid, colors, row);
        s.append(line.as_str());
        assert(rv[row as int] == grid.chars@[row as int]@);
        assert(cv[row as int] == colors@[row as int]@);
        assert(s@ =~= head + svg_lines(rv, cv, row + 1));
    }
    s.append("</text>\n</svg>\n");
    s
}

} // verus!
