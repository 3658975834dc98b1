//! Bundled FIGlet fonts: the catalog of names, aliases and descriptions,
//! loading a bundled font, and parsing `.flf` font text.
use figlet_rs::FIGfont;
use vstd::prelude::*;
use crate::strs::{lower, lower_chars, eq_lit, to_chars, from_chars, push_char};
use crate::color::{byte_len, utf8_len};
use crate::render::{lines_of, split_rows};
use crate::text::{is_whitespace, char_is_whitespace};

verus! {

/// A FIGlet font: the `.flf` text it was read from, and that text as the
/// `figlet-rs` parser parsed it. Fonts are made only by `parse_flf` (the
/// text handed to `FIGfont::from_content`) and `Font::standard` (the text
/// that `FIGfont::standard` parses), so the parsed font is always the parse
/// of the text.
pub struct Font {
    text: String,
    parsed: FIGfont,
}

impl View for Font {
    type V = Seq<char>;

    /// The `.flf` text the font was parsed from.
    closed spec fn view(&self) -> Seq<char> {
        self.text@
    }
}

/// What `FIGfont::from_content` answers for a font text, short of the font
/// itself: `None` when the text parses, else the error message. Parsing
/// reads the text alone, so the answer is a function of the text.
pub uninterp spec fn flf_error(content: Seq<char>) -> Option<Seq<char>>;

/// The text that `FIGfont::convert` followed by the figure's `Display`
/// writes for `text` in the font parsed from `font_text`; `None` when
/// `convert` gives no figure.
pub uninterp spec fn figure_of(font_text: Seq<char>, text: Seq<char>) -> Option<Seq<char>>;

/// `str::parse::<i32>`: an optional sign, at least one decimal digit, and a
/// value that fits in `i32`.
pub open spec fn parse_i32(s: Seq<char>) -> Option<int> {
    let signed = s.len() > 0 && (s[0] == '+' || s[0] == '-');
    let d = if signed { s.drop_first() } else { s };
    if d.len() > 0 && all_digits(d) {
        let v: int = if s[0] == '-' { -(digits_value(d) as int) } else { digits_value(d) as int };
        if i32::MIN <= v && v <= i32::MAX {
            Some(v)
        } else {
            None
        }
    } else {
        None
    }
}

/// A glyph row that the `figlet-rs` parser can cut: its end mark (one
/// character, or two on the last row of a glyph taller than one line) comes
/// off on a character boundary, leaving a row of zero or more bytes.
pub open spec fn row_cuttable(l: Seq<char>, two: bool) -> bool {
    if two {
        l.len() >= 1 && (utf8_len(l.last()) == 2 || (l.len() >= 2 && utf8_len(l.last()) == 1
            && utf8_len(l[l.len() - 2]) == 1))
    } else {
        l.len() >= 1 && utf8_len(l.last()) == 1
    }
}

/// The glyph part of a font text with header height `h` and `c` comment
/// lines: exactly the 102 required glyphs follow the comments, and every
/// glyph row can be cut.
pub open spec fn glyphs_cuttable(ls: Seq<Seq<char>>, h: int, c: int) -> bool {
    &&& 0 <= c
    &&& 1 <= h
    &&& 1 + c + 102 * h <= i32::MAX
    &&& ls.len() == 1 + c + 102 * h
    &&& forall|k: int| 0 <= k < 102 * h ==> row_cuttable(#[trigger] ls[1 + c + k], k % h == h - 1 && h != 1)
}

/// A font text on which `FIGfont::from_content` returns rather than
/// panicking, as far as this crate states it: the parser answers an error
/// before reading glyphs (no line, fewer than six header fields, a short
/// signature, or a header number that does not parse), or the signature
/// ends in a one-byte character and the glyph part is cuttable.
pub open spec fn flf_safe(content: Seq<char>) -> bool {
    let ls = lines_of(content);
    ls.len() == 0 || {
        let infos = crate::cli::pieces(crate::text::trim(ls[0]), ' ');
        infos.len() < 6 || byte_len(infos[0]) < 6 || (utf8_len(infos[0].last()) == 1 && (
            (parse_i32(infos[1]) is Some && parse_i32(infos[2]) is Some && parse_i32(infos[3]) is Some
                && parse_i32(infos[4]) is Some && parse_i32(infos[5]) is Some)
            ==> glyphs_cuttable(ls, parse_i32(infos[1])->0, parse_i32(infos[5])->0)))
    }
}

/// `FIGfont::standard`: parses the standard font that `figlet-rs` embeds
/// (the text `standard_text` spells out); `figlet-rs`'s own tests assert that this
/// parse succeeds.
#[verifier::external_body]
fn standard_font() -> (r: Result<FIGfont, String>)
    ensures
        r is Ok,
{
    FIGfont::standard()
}

/// `FIGfont::from_content`: parses `.flf` text. Whether it succeeds, and
/// its error message, are named as a function of the text (`flf_error`); it
/// answers a fixed message for text without any line. Nothing is stated of
/// the font, which this crate treats as opaque. On texts outside `flf_safe`
/// the parser can panic (an empty or mis-cut glyph row, a zero height, a
/// negative comment count, or fewer glyph lines than the header promises).
#[verifier::external_body]
fn font_from_content(content: &str) -> (r: Result<FIGfont, String>)
    requires
        flf_safe(content@),
    ensures
        r is Ok <==> flf_error(content@) is None,
        r matches Err(e) ==> flf_error(content@) == Some(e@),
        content@.len() == 0 ==> r is Err,
        r matches Err(e) ==> (content@.len() == 0 ==> e@ == "can not generate FIGlet font from empty string"@),
{
    FIGfont::from_content(content)
}

/// `FIGfont::convert` followed by the figure's `Display` rendering, named
/// as a function of the font's text and the message (`figure_of`);
/// `convert` gives no figure for an empty message.
#[verifier::external_body]
pub(crate) fn render_figure(font: &Font, text: &str) -> (r: Option<String>)
    ensures
        r matches Some(s) ==> figure_of(font@, text@) == Some(s@),
        r is None ==> figure_of(font@, text@) is None,
        text@.len() == 0 ==> r is None,
{
    match font.parsed.convert(text) {
        Some(figure) => Some(figure.to_string()),
        None => None,
    }
}

impl Font {
    /// The standard font.
    pub fn standard() -> (f: Font)
        ensures
            f@ == crate::standard_flf::standard_text(),
    {
        let parsed = standard_font().unwrap();
        Font { text: crate::standard_flf::standard_flf(), parsed }
    }
}

/// A listable font: canonical name and one-line description.
pub struct FontInfo {
    pub name: &'static str,
    pub description: &'static str,
}

/// Canonical names of the bundled fonts, in display order.
pub open spec fn font_names() -> Seq<Seq<char>> {
    seq!["standard"@, "ansishadow"@, "slant"@, "big"@, "small"@]
}

/// One-line descriptions of the bundled fonts, in display order.
pub open spec fn font_descriptions() -> Seq<Seq<char>> {
    seq![
        "the classic FIGlet font"@,
        "bold block letters with a drop shadow"@,
        "slanted, italic-style strokes"@,
        "tall and chunky"@,
        "compact, space-saving"@,
    ]
}

/// The bundled font a lower-cased name or alias selects.
pub open spec fn bundled_index(q: Seq<char>) -> Option<int> {
    if q == "standard"@ || q == "default"@ {
        Some(0)
    } else if q == "ansishadow"@ || q == "ansi-shadow"@ || q == "shadow"@ {
        Some(1)
    } else if q == "slant"@ || q == "italic"@ {
        Some(2)
    } else if q == "big"@ {
        Some(3)
    } else if q == "small"@ || q == "mini"@ {
        Some(4)
    } else {
        None
    }
}

/// All bundled fonts, in display order.
pub fn catalog() -> (v: Vec<FontInfo>)
    ensures
        v@.len() == font_names().len(),
        forall|i: int| 0 <= i < v@.len() ==> (#[trigger] v@[i]).name@ == font_names()[i],
        forall|i: int| 0 <= i < v@.len() ==> (#[trigger] v@[i]).description@ == font_descriptions()[i],
{
    let mut v: Vec<FontInfo> = Vec::new();
    v.push(FontInfo { name: "standard", description: "the classic FIGlet font" });
    v.push(FontInfo { name: "ansishadow", description: "bold block letters with a drop shadow" });
    v.push(FontInfo { name: "slant", description: "slanted, italic-style strokes" });
    v.push(FontInfo { name: "big", description: "tall and chunky" });
    v.push(FontInfo { name: "small", description: "compact, space-saving" });
    v
}

/// `parts` joined with `sep` between consecutive parts.
pub open spec fn join(parts: Seq<Seq<char>>, sep: Seq<char>) -> Seq<char>
    decreases parts.len(),
{
    if parts.len() == 0 {
        Seq::empty()
    } else if parts.len() == 1 {
        parts[0]
    } else {
        join(parts.drop_last(), sep) + sep + parts.last()
    }
}

/// Comma-separated list of canonical font names, for error messages.
pub fn available() -> (s: String)
    ensures
        s@ == join(font_names(), ", "@),
{
    let info = catalog();
    let mut s = String::new();
    for i in 0..info.len()
        invariant
            info@.len() == font_names().len(),
            forall|k: int| 0 <= k < info@.len() ==> (#[trigger] info@[k]).name@ == font_names()[k],
            s@ == join(font_names().take(i as int), ", "@),
    {
        if i > 0 {
            s.append(", ");
        }
        s.append(info[i].name);
        assert(font_names().take(i + 1).drop_last() =~= font_names().take(i as int));
        assert(font_names().take(i + 1).last() == info@[i as int].name@);
        if i == 0 {
            assert(font_names().take(1) =~= seq![font_names()[0]]);
        }
    }
    assert(font_names().take(5) =~= font_names());
    s
}

/// The index of the bundled font that `name` (case-insensitive) names by its
/// canonical name or an alias.
pub fn find_bundled(name: &str) -> (r: Option<usize>)
    ensures
        r matches Some(i) ==> bundled_index(lower(name@)) == Some(i as int),
        r is None ==> bundled_index(lower(name@)) is None,
{
    let q = lower_chars(name);
    if eq_lit(&q, "standard") || eq_lit(&q, "default") {
        Some(0)
    } else if eq_lit(&q, "ansishadow") || eq_lit(&q, "ansi-shadow") || eq_lit(&q, "shadow") {
        Some(1)
    } else if eq_lit(&q, "slant") || eq_lit(&q, "italic") {
        Some(2)
    } else if eq_lit(&q, "big") {
        Some(3)
    } else if eq_lit(&q, "small") || eq_lit(&q, "mini") {
        Some(4)
    } else {
        None
    }
}

/// Every catalog name resolves to its own entry.
pub proof fn lemma_catalog_names_resolve(i: int)
    requires
        0 <= i < font_names().len(),
    ensures
        bundled_index(lower(font_names()[i])) == Some(i),
{
    reveal_strlit("standard");
    reveal_strlit("ansishadow");
    reveal_strlit("slant");
    reveal_strlit("big");
    reveal_strlit("small");
    reveal_strlit("default");
    reveal_strlit("ansi-shadow");
    reveal_strlit("shadow");
    reveal_strlit("italic");
    reveal_strlit("mini");
    let n = font_names()[i];
    assert(lower(n) =~= n);
    if i == 0 {
        assert(n == "standard"@);
    } else if i == 1 {
        assert(n == "ansishadow"@);
        assert(n != "standard"@);
        assert(n != "default"@);
    } else if i == 2 {
        assert(n == "slant"@);
        assert(n != "standard"@ && n != "default"@ && n != "ansishadow"@ && n != "ansi-shadow"@ && n != "shadow"@);
    } else if i == 3 {
        assert(n == "big"@);
        assert(n != "standard"@ && n != "default"@ && n != "ansishadow"@ && n != "ansi-shadow"@ && n != "shadow"@);
        assert(n != "slant"@ && n != "italic"@);
    } else {
        assert(n == "small"@);
        assert(n != "standard"@ && n != "default"@ && n != "ansishadow"@ && n != "ansi-shadow"@ && n != "shadow"@);
        assert(n[1] != "slant"@[1]);
        assert(n != "slant"@ && n != "italic"@ && n != "big"@);
    }
}


/// `str::split_whitespace` on the rest `s` of a text whose current,
/// unfinished word is `cur`.
pub open spec fn split_words(s: Seq<char>, cur: Seq<char>) -> Seq<Seq<char>>
    decreases s.len(),
{
    if s.len() == 0 {
        if cur.len() > 0 {
            seq![cur]
        } else {
            Seq::empty()
        }
    } else if is_whitespace(s[0]) {
        (if cur.len() > 0 {
            seq![cur]
        } else {
            Seq::empty()
        }) + split_words(s.drop_first(), Seq::empty())
    } else {
        split_words(s.drop_first(), cur.push(s[0]))
    }
}

/// The whitespace-separated words of a text (`str::split_whitespace`).
pub open spec fn words(s: Seq<char>) -> Seq<Seq<char>> {
    split_words(s, Seq::empty())
}

/// Value of a string of decimal digits.
pub open spec fn digits_value(d: Seq<char>) -> nat
    decreases d.len(),
{
    if d.len() == 0 {
        0
    } else {
        digits_value(d.drop_last()) * 10 + (d.last() as nat - 48) as nat
    }
}

pub open spec fn all_digits(d: Seq<char>) -> bool {
    forall|i: int| 0 <= i < d.len() ==> '0' <= #[trigger] d[i] <= '9'
}

/// `s.parse::<usize>()`: an optional `+`, then at least one decimal digit,
/// and a value that fits in `usize`.
pub open spec fn parse_usize(s: Seq<char>) -> Option<nat> {
    let d = if s.len() > 0 && s[0] == '+' { s.drop_first() } else { s };
    if d.len() > 0 && all_digits(d) && digits_value(d) <= usize::MAX {
        Some(digits_value(d))
    } else {
        None
    }
}

proof fn lemma_digits_value_grows(d: Seq<char>, k: int)
    requires
        0 <= k <= d.len(),
        all_digits(d),
    ensures
        digits_value(d.take(k)) <= digits_value(d),
    decreases d.len() - k,
{
    if k < d.len() {
        lemma_digits_value_grows(d, k + 1);
        assert(d.take(k + 1).drop_last() =~= d.take(k));
        assert('0' <= d[k] <= '9');
    } else {
        assert(d.take(k) =~= d);
    }
}

/// Parse a decimal `usize` as `str::parse` does.
pub fn parse_usize_chars(s: &Vec<char>) -> (r: Option<usize>)
    ensures
        r matches Some(v) ==> parse_usize(s@) == Some(v as nat),
        r is None ==> parse_usize(s@) is None,
{
    let start: usize = if s.len() > 0 && s[0] == '+' { 1 } else { 0 };
    let ghost d = if s@.len() > 0 && s@[0] == '+' { s@.drop_first() } else { s@ };
    assert(d =~= s@.skip(start as int));
    if start >= s.len() {
        return None;
    }
    let mut v: usize = 0;
    let mut i: usize = start;
    while i < s.len()
        invariant
            start <= i <= s@.len(),
            d == s@.skip(start as int),
            d == (if s@.len() > 0 && s@[0] == '+' { s@.drop_first() } else { s@ }),
            d.len() > 0,
            v == digits_value(d.take(i - start)),
            all_digits(d.take(i - start)),
        decreases s@.len() - i,
    {
        let c = s[i];
        assert(d[i - start] == c);
        if c < '0' || c > '9' {
            assert(!('0' <= d[(i - start) as int] <= '9'));
            assert(!all_digits(d));
            return None;
        }
        let dig = (c as u32 - 48) as usize;
        assert(d.take(i + 1 - start).drop_last() =~= d.take(i - start));
        assert(d.take(i + 1 - start).last() == c);
        if v > (usize::MAX - dig) / 10 {
            proof {
                assert(v * 10 + dig > usize::MAX) by (nonlinear_arith)
                    requires
                        v > (usize::MAX - dig) / 10,
                        dig <= 9,
                ;
                assert(all_digits(d.take(i + 1 - start)));
                if all_digits(d) {
                    lemma_digits_value_grows(d, i + 1 - start);
                }
            }
            return None;
        }
        proof {
            assert(v * 10 + dig <= usize::MAX) by (nonlinear_arith)
                requires
                    v <= (usize::MAX - dig) / 10,
                    dig <= 9,
            ;
        }
        v = v * 10 + dig;
        i = i + 1;
        assert(all_digits(d.take(i - start)));
    }
    assert(d.take(i - start) =~= d);
    Some(v)
}

pub fn split_words_exec(s: &Vec<char>) -> (ws: Vec<Vec<char>>)
    ensures
        ws@.map_values(|w: Vec<char>| w@) == words(s@),
{
    let mut ws: Vec<Vec<char>> = Vec::new();
    let mut cur: Vec<char> = Vec::new();
    assert(s@.skip(0) == s@);
    assert(ws@.map_values(|w: Vec<char>| w@) + split_words(s@, cur@) =~= split_words(s@, cur@));
    for i in 0..s.len()
        invariant
            words(s@) == ws@.map_values(|w: Vec<char>| w@) + split_words(s@.skip(i as int), cur@),
    {
        let c = s[i];
        assert(s@.skip(i as int).drop_first() == s@.skip(i + 1));
        assert(s@.skip(i as int)[0] == c);
        let ghost before = ws@.map_values(|w: Vec<char>| w@);
        let ghost old_cur = cur@;
        if char_is_whitespace(c) {
            if cur.len() > 0 {
                ws.push(cur);
                assert(ws@.map_values(|w: Vec<char>| w@) =~= before + seq![old_cur]);
            } else {
                assert(ws@.map_values(|w: Vec<char>| w@) =~= before + Seq::<Seq<char>>::empty());
            }
            cur = Vec::new();
        } else {
            cur.push(c);
        }
    }
    assert(s@.skip(s@.len() as int) == Seq::<char>::empty());
    if cur.len() > 0 {
        let ghost before = ws@.map_values(|w: Vec<char>| w@);
        let ghost last = cur@;
        ws.push(cur);
        assert(ws@.map_values(|w: Vec<char>| w@) =~= before + seq![last]);
    } else {
        assert(ws@.map_values(|w: Vec<char>| w@) =~= ws@.map_values(|w: Vec<char>| w@) + Seq::<Seq<char>>::empty());
    }
    ws
}

/// The font text kept by `trim_to_required`: the header line, the comment
/// lines and the 102 required characters (95 printable ASCII and 7 German),
/// each `height` lines tall; the text is returned unchanged when it has no
/// line or its header does not give the height and comment count.
pub open spec fn required_part(content: Seq<char>) -> Seq<char> {
    let ls = lines_of(content);
    if ls.len() == 0 {
        content
    } else {
        let hdr = words(ls[0]);
        let h = if hdr.len() > 1 { parse_usize(hdr[1]) } else { None };
        let c = if hdr.len() > 5 { parse_usize(hdr[5]) } else { None };
        if h is Some && c is Some {
            let want: int = (1 + c->0 + 102 * h->0) as int;
            let keep = if want < ls.len() { want } else { ls.len() as int };
            join(ls.take(keep), "\n"@) + seq!['\n']
        } else {
            content
        }
    }
}

/// Keep only the header, comment lines, and the 102 required characters,
/// dropping any code-tagged glyphs that some `.flf` files append.
pub fn trim_to_required(content: &str) -> (out: String)
    ensures
        out@ == required_part(content@),
{
    let cs = to_chars(content);
    let rows = split_rows(&cs);
    let ghost ls = rows@.map_values(|r: Vec<char>| r@);
    if rows.len() == 0 {
        return from_chars(&cs);
    }
    assert(ls[0] == rows@[0]@);
    let hdr = split_words_exec(&rows[0]);
    let ghost hv = hdr@.map_values(|w: Vec<char>| w@);
    let h = if hdr.len() > 1 {
        assert(hv[1] == hdr@[1]@);
        parse_usize_chars(&hdr[1])
    } else {
        None
    };
    let c = if hdr.len() > 5 {
        assert(hv[5] == hdr@[5]@);
        parse_usize_chars(&hdr[5])
    } else {
        None
    };
    match (h, c) {
        (Some(h), Some(c)) => {
            let n = rows.len();
            let keep: usize = if h > (usize::MAX - 1) / 102 {
                assert(102 * h > usize::MAX - 1) by (nonlinear_arith)
                    requires
                        h > (usize::MAX - 1) / 102,
                ;
                n
            } else if c > usize::MAX - 1 - 102 * h {
                n
            } else if 1 + c + 102 * h < n {
                1 + c + 102 * h
            } else {
                n
            };
            let mut out = String::new();
            for i in 0..keep
                invariant
                    keep <= n,
                    n == rows@.len(),
                    ls == rows@.map_values(|r: Vec<char>| r@),
                    out@ == join(ls.take(i as int), "\n"@),
            {
                if i > 0 {
                    push_char(&mut out, '\n');
                }
                out.append(from_chars(&rows[i]).as_str());
                assert(ls.take(i + 1).drop_last() =~= ls.take(i as int));
                assert(ls.take(i + 1).last() == rows@[i as int]@);
                proof {
                    reveal_strlit("\n");
                    if i == 0 {
                        assert(ls.take(1) =~= seq![ls[0]]);
                    } else {
                        assert(out@ =~= join(ls.take(i as int), "\n"@) + "\n"@ + ls[i as int]);
                    }
                }
            }
            push_char(&mut out, '\n');
            out
        },
        _ => from_chars(&cs),
    }
}

/// Parse a decimal `i32` as `str::parse` does.
pub fn parse_i32_chars(s: &Vec<char>) -> (r: Option<i32>)
    ensures
        r matches Some(v) ==> parse_i32(s@) == Some(v as int),
        r is None ==> parse_i32(s@) is None,
{
    let signed = s.len() > 0 && (s[0] == '+' || s[0] == '-');
    let neg = s.len() > 0 && s[0] == '-';
    let start: usize = if signed { 1 } else { 0 };
    let ghost d = if signed { s@.drop_first() } else { s@ };
    assert(d =~= s@.skip(start as int));
    if start >= s.len() {
        return None;
    }
    let mut v: u64 = 0;
    let mut i: usize = start;
    while i < s.len()
        invariant
            start <= i <= s@.len(),
            d == s@.skip(start as int),
            d == (if s@.len() > 0 && (s@[0] == '+' || s@[0] == '-') { s@.drop_first() } else { s@ }),
            neg == (s@.len() > 0 && s@[0] == '-'),
            d.len() > 0,
            v == digits_value(d.take(i - start)),
            v <= 0x8000_0000,
            all_digits(d.take(i - start)),
        decreases s@.len() - i,
    {
        let c = s[i];
        assert(d[i - start] == c);
        if c < '0' || c > '9' {
            assert(!('0' <= d[(i - start) as int] <= '9'));
            assert(!all_digits(d));
            return None;
        }
        let dig = (c as u32 - 48) as u64;
        assert(d.take(i + 1 - start).drop_last() =~= d.take(i - start));
        assert(d.take(i + 1 - start).last() == c);
        let nv = v * 10 + dig;
        assert(all_digits(d.take(i + 1 - start)));
        if nv > 0x8000_0000 {
            proof {
                if all_digits(d) {
                    lemma_digits_value_grows(d, i + 1 - start);
                }
            }
            return None;
        }
        v = nv;
        i = i + 1;
    }
    assert(d.take(i - start) =~= d);
    if neg {
        Some((0 - (v as i64)) as i32)
    } else if v <= 0x7fff_ffff {
        Some(v as i32)
    } else {
        None
    }
}

/// Whether `l` is a cuttable glyph row.
fn row_cuttable_exec(l: &Vec<char>, two: bool) -> (b: bool)
    ensures
        b == row_cuttable(l@, two),
{
    let n = l.len();
    if n < 1 {
        return false;
    }
    let last = crate::color::char_byte_len(l[n - 1]);
    if two {
        last == 2 || (n >= 2 && last == 1 && crate::color::char_byte_len(l[n - 2]) == 1)
    } else {
        last == 1
    }
}

/// Whether the glyph part of the font lines `rows` is cuttable.
fn glyphs_cuttable_exec(rows: &Vec<Vec<char>>, h: i32, c: i32) -> (b: bool)
    ensures
        b == glyphs_cuttable(rows@.map_values(|r: Vec<char>| r@), h as int, c as int),
{
    let ghost ls = rows@.map_values(|r: Vec<char>| r@);
    if c < 0 || h < 1 {
        return false;
    }
    let total: i64 = 1 + c as i64 + 102 * (h as i64);
    if total > 0x7fff_ffff || rows.len() != total as usize {
        return false;
    }
    let base = 1 + c as usize;
    let n: usize = 102 * (h as usize);
    let hh = h as usize;
    let len = rows.len();
    assert(base + n == len);
    let mut k: usize = 0;
    let mut j: usize = 0;
    let ghost mut q: int = 0;
    while k < n
        invariant
            ls == rows@.map_values(|r: Vec<char>| r@),
            0 <= c,
            1 <= h,
            hh == h,
            base == 1 + c,
            n == 102 * h,
            base + n == rows@.len(),
            len == rows@.len(),
            rows@.len() == 1 + c + 102 * h,
            k <= n,
            j < hh,
            q >= 0,
            k == q * hh + j,
            forall|t: int| 0 <= t < k ==> row_cuttable(#[trigger] ls[1 + c + t], t % (h as int) == h - 1 && h != 1),
        decreases n - k,
    {
        proof {
            vstd::arithmetic::div_mod::lemma_fundamental_div_mod_converse(k as int, hh as int, q, j as int);
        }
        assert(base + k < rows@.len());
        let ok = row_cuttable_exec(&rows[base + k], j + 1 == hh && hh != 1);
        assert(ls[1 + c + k] == rows@[(base + k) as int]@);
        if !ok {
            return false;
        }
        k = k + 1;
        if j + 1 == hh {
            proof {
                assert((q + 1) * hh == q * hh + hh) by (nonlinear_arith);
                q = q + 1;
            }
            j = 0;
        } else {
            j = j + 1;
        }
    }
    true
}

/// Whether `FIGfont::from_content` can be handed `content` (`flf_safe`).
pub fn flf_safe_exec(content: &str) -> (b: bool)
    ensures
        b == flf_safe(content@),
{
    let cs = to_chars(content);
    let rows = split_rows(&cs);
    let ghost ls = rows@.map_values(|r: Vec<char>| r@);
    if rows.len() == 0 {
        return true;
    }
    assert(ls[0] == rows@[0]@);
    let head = from_chars(&crate::text::trim_chars(&rows[0]));
    let infos = crate::cli::split_at_char(head.as_str(), ' ');
    let ghost iv = crate::cli::strings_view(infos@);
    if infos.len() < 6 {
        return true;
    }
    let sig = to_chars(infos[0].as_str());
    assert(iv[0] == sig@);
    if crate::color::byte_len_of(&sig) < 6 {
        return true;
    }
    assert(sig@.len() > 0) by {
        if sig@.len() == 0 {
            assert(byte_len(sig@) == 0);
        }
    }
    if crate::color::char_byte_len(sig[sig.len() - 1]) != 1 {
        return false;
    }
    let f1 = parse_i32_chars(&to_chars(infos[1].as_str()));
    let f2 = parse_i32_chars(&to_chars(infos[2].as_str()));
    let f3 = parse_i32_chars(&to_chars(infos[3].as_str()));
    let f4 = parse_i32_chars(&to_chars(infos[4].as_str()));
    let f5 = parse_i32_chars(&to_chars(infos[5].as_str()));
    assert(iv[1] == infos@[1]@ && iv[2] == infos@[2]@ && iv[3] == infos@[3]@ && iv[4] == infos@[4]@
        && iv[5] == infos@[5]@);
    match (f1, f2, f3, f4, f5) {
        (Some(h), Some(_), Some(_), Some(_), Some(c)) => glyphs_cuttable_exec(&rows, h, c),
        _ => true,
    }
}

/// Parse `.flf` content, first trimming it to the 102 required characters so
/// that fonts carrying code-tagged extra glyphs still parse. Text the
/// parser could not take without panicking is refused with an error.
pub fn parse_flf(content: &str) -> (r: Result<Font, String>)
    ensures
        r is Ok <==> flf_safe(required_part(content@)) && flf_error(required_part(content@)) is None,
        r matches Ok(f) ==> f@ == required_part(content@),
        r matches Err(e) ==> if flf_safe(required_part(content@)) {
            flf_error(required_part(content@)) matches Some(m) && e@ == "invalid figlet font: "@ + m
        } else {
            e@ == "invalid figlet font: malformed header or glyph rows"@
        },
        content@.len() == 0 ==> (r matches Err(e)
            && e@ == "invalid figlet font: can not generate FIGlet font from empty string"@),
{
    let trimmed = trim_to_required(content);
    proof {
        if content@.len() == 0 {
            assert(lines_of(content@) =~= Seq::<Seq<char>>::empty());
            assert(lines_of(required_part(content@)) =~= Seq::<Seq<char>>::empty());
        }
    }
    if !flf_safe_exec(trimmed.as_str()) {
        return Err(String::from_str("invalid figlet font: malformed header or glyph rows"));
    }
    match font_from_content(trimmed.as_str()) {
        Ok(parsed) => Ok(Font { text: trimmed, parsed }),
        Err(e) => {
            let mut m = String::from_str("invalid figlet font: ");
            m.append(e.as_str());
            proof {
                reveal_strlit("invalid figlet font: ");
                reveal_strlit("can not generate FIGlet font from empty string");
                reveal_strlit("invalid figlet font: can not generate FIGlet font from empty string");
            }
            Err(m)
        },
    }
}

/// Load a bundled font by canonical name or alias (case-insensitive);
/// `None` when `name` names no bundled font. Only the standard font's data
/// ships with the crate; asking for another bundled font answers an error
/// naming it.
pub fn load_bundled(name: &str) -> (r: Option<Result<Font, String>>)
    ensures
        r is Some <==> bundled_index(lower(name@)) is Some,
        bundled_index(lower(name@)) == Some(0int) ==> (r matches Some(Ok(f))
            && f@ == crate::standard_flf::standard_text()),
        (bundled_index(lower(name@)) matches Some(i) && i != 0) ==> (r matches Some(Err(e))
            && e@ == "font data for "@ + name@ + " is not bundled"@),
{
    match find_bundled(name) {
        None => None,
        Some(i) => {
            if i == 0 {
                Some(Ok(Font::standard()))
            } else {
                let mut e = String::from_str("font data for ");
                e.append(name);
                e.append(" is not bundled");
                Some(Err(e))
            }
        },
    }
}

/// The message for a font name that is neither bundled nor a readable file.
pub fn unknown_font_error(name: &str) -> (e: String)
    ensures
        e@ == "unknown font: "@ + name@ + ". Available: "@ + join(font_names(), ", "@) + " (or pass a path to a .flf file)"@,
{
    let mut e = String::from_str("unknown font: ");
    e.append(name);
    e.append(". Available: ");
    e.append(available().as_str());
    e.append(" (or pass a path to a .flf file)");
    e
}

} // verus!
