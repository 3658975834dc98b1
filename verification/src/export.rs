//! Output formats built around a composed banner: a fenced Markdown block
//! of the plain banner, and the grid as JSON.
use vstd::prelude::*;
use crate::cli::Format;
use crate::color::{hex_byte, hex_color, Rgb};
use crate::render::{color_views, colors_fit, free_of, lemma_free_concat, row_views, Grid, CONT};
use crate::strs::{dec, dec_string, push_char};

verus! {

/// The fence that opens and closes a Markdown code block, with its line
/// break.
pub open spec fn fence() -> Seq<char> {
    seq!['`', '`', '`', '\n']
}

/// The painted banner as the format writes it: a Markdown format puts it in
/// a fenced code block; every other format takes it as it is.
pub open spec fn wrapped(format: Format, painted: Seq<char>) -> Seq<char> {
    if format == Format::Markdown {
        fence() + painted + fence()
    } else {
        painted
    }
}

/// Wrap a painted banner for its output format.
pub fn wrap(format: Format, painted: &str) -> (s: String)
    ensures
        s@ == wrapped(format, painted@),
{
    if format == Format::Markdown {
        let mut s = String::from_str("```\n");
        s.append(painted);
        s.append("```\n");
        proof {
            reveal_strlit("```\n");
        }
        s
    } else {
        String::from_str(painted)
    }
}

/// A Markdown block holds no escape character when the banner holds none.
pub proof fn lemma_markdown_has_no_escapes(painted: Seq<char>)
    requires
        free_of(painted, '\x1b'),
    ensures
        free_of(wrapped(Format::Markdown, painted), '\x1b'),
{
    assert(free_of(fence(), '\x1b'));
    lemma_free_concat(fence(), painted, '\x1b');
    lemma_free_concat(fence() + painted, fence(), '\x1b');
}

/// A character inside a JSON string: quotes and backslashes escaped,
/// control characters written as `\u00XX`.
pub open spec fn json_char(c: char) -> Seq<char> {
    if c == '"' {
        seq!['\\', '"']
    } else if c == '\\' {
        seq!['\\', '\\']
    } else if (c as u32) < 0x20 {
        seq!['\\', 'u', '0', '0'] + hex_byte(c as u8)
    } else {
        seq![c]
    }
}

/// One cell as a JSON object: its glyph (empty for the second column of a
/// wide glyph) and its color (`null` for a blank or a continuation cell).
pub open spec fn json_cell(ch: char, color: Rgb) -> Seq<char> {
    "{\"char\":\""@ + (if ch == CONT { Seq::empty() } else { json_char(ch) }) + "\",\"color\":"@
        + (if ch == ' ' || ch == CONT { "null"@ } else { seq!['"'] + hex_color(color) + seq!['"'] })
        + seq!['}']
}

/// The first `k` cells of a row, separated by commas.
pub open spec fn json_cells(chars: Seq<char>, colors: Seq<Rgb>, k: int) -> Seq<char>
    decreases k,
{
    if k <= 0 {
        Seq::empty()
    } else {
        json_cells(chars, colors, k - 1) + (if k > 1 { seq![','] } else { Seq::empty() }) + json_cell(
            chars[k - 1],
            colors[k - 1],
        )
    }
}

/// The first `k` rows, each a JSON array, separated by commas.
pub open spec fn json_rows(rows: Seq<Seq<char>>, colors: Seq<Seq<Rgb>>, k: int) -> Seq<char>
    decreases k,
{
    if k <= 0 {
        Seq::empty()
    } else {
        json_rows(rows, colors, k - 1) + (if k > 1 { seq![','] } else { Seq::empty() }) + seq!['[']
            + json_cells(rows[k - 1], colors[k - 1], rows[k - 1].len() as int) + seq![']']
    }
}

/// The JSON document of a grid: its width, its height, and its cells row by
/// row.
pub open spec fn json_document(rows: Seq<Seq<char>>, colors: Seq<Seq<Rgb>>, width: nat, height: nat) -> Seq<char> {
    "{\"width\":"@ + dec(width) + ",\"height\":"@ + dec(height) + ",\"cells\":["@ + json_rows(
        rows,
        colors,
        height as int,
    ) + "]}\n"@
}

fn push_json_char(out: &mut String, c: char)
    ensures
        final(out)@ == old(out)@ + json_char(c),
{
    if c == '"' {
        push_char(out, '\\');
        push_char(out, '"');
    } else if c == '\\' {
        push_char(out, '\\');
        push_char(out, '\\');
    } else if (c as u32) < 0x20 {
        out.append("\\u00");
        let b = c as u32 as u8;
        let h = crate::color::hex(Rgb::new(b, 0, 0));
        let hc = crate::strs::to_chars(h.as_str());
        assert(hc@ == hex_color(Rgb { r: b, g: 0, b: 0 }));
        push_char(out, hc[1]);
        push_char(out, hc[2]);
        proof {
            reveal_strlit("\\u00");
            assert(hc@[1] == hex_byte(b)[0] && hc@[2] == hex_byte(b)[1]);
        }
        assert(final(out)@ =~= old(out)@ + json_char(c));
    } else {
        push_char(out, c);
    }
}

fn json_cell_exec(ch: char, color: Rgb) -> (s: String)
    ensures
        s@ == json_cell(ch, color),
{
    let mut s = String::from_str("{\"char\":\"");
    if ch != CONT {
        push_json_char(&mut s, ch);
    }
    s.append("\",\"color\":");
    if ch == ' ' || ch == CONT {
        s.append("null");
    } else {
        push_char(&mut s, '"');
        s.append(crate::color::hex(color).as_str());
        push_char(&mut s, '"');
    }
    push_char(&mut s, '}');
    s
}

fn json_row(chars: &Vec<char>, colors: &Vec<Rgb>) -> (s: String)
    requires
        colors@.len() == chars@.len(),
    ensures
        s@ == json_cells(chars@, colors@, chars@.len() as int),
{
    let mut s = String::new();
    for k in 0..chars.len()
        invariant
            colors@.len() == chars@.len(),
            s@ == json_cells(chars@, colors@, k as int),
    {
        let ghost before = s@;
        if k > 0 {
            push_char(&mut s, ',');
        }
        s.append(json_cell_exec(chars[k], colors[k]).as_str());
        assert(s@ =~= before + (if k + 1 > 1 { seq![','] } else { Seq::<char>::empty() }) + json_cell(chars@[k as int], colors@[k as int]));
    }
    s
}

/// The composed grid as JSON: `{"width":W,"height":H,"cells":[[...],...]}`,
/// one object per cell with its glyph and its color (`colors` holds each
/// cell's color; blanks and the second columns of wide glyphs have none).
pub fn to_json(grid: &Grid, colors: &Vec<Vec<Rgb>>) -> (s: String)
    requires
        grid.wf(),
        colors_fit(grid, colors@),
    ensures
        s@ == json_document(row_views(grid.chars@), color_views(colors@), grid.width as nat, grid.height as nat),
{
    let mut s = String::from_str("{\"width\":");
    s.append(dec_string(grid.width as u64).as_str());
    s.append(",\"height\":");
    s.append(dec_string(grid.height as u64).as_str());
    s.append(",\"cells\":[");
    let ghost head = s@;
    let ghost rv = row_views(grid.chars@);
    let ghost cv = color_views(colors@);
    for r in 0..grid.height
        invariant
            grid.wf(),
            colors_fit(grid, colors@),
            rv == row_views(grid.chars@),
            cv == color_views(colors@),
            s@ == head + json_rows(rv, cv, r as int),
    {
        let ghost before = s@;
        if r > 0 {
            push_char(&mut s, ',');
        }
        push_char(&mut s, '[');
        s.append(json_row(&grid.chars[r], &colors[r]).as_str());
        push_char(&mut s, ']');
        assert(rv[r as int] == grid.chars@[r as int]@);
        assert(cv[r as int] == colors@[r as int]@);
        assert(s@ =~= head + json_rows(rv, cv, r + 1));
    }
    s.append("]}\n");
    s
}

} // verus!
