//! Generative marks: a deterministic, mirror-symmetric emblem derived from a
//! string, painted with a gradient and written as SVG.
use vstd::prelude::*;
use vstd::wrapping::u64_specs::{wrapping_add, wrapping_mul};
use crate::color::{Rgb, hex, hex_color};
use crate::rng::{SplitMix, output, mix, state_after, golden_gamma};
use crate::strs::{to_chars, from_chars, dec, dec_string, contains, occurs_at};
use crate::text::{trim, trim_chars};

verus! {

/// FNV-1a over a byte sequence.
pub open spec fn fnv1a(bytes: Seq<u8>) -> u64
    decreases bytes.len(),
{
    if bytes.len() == 0 {
        0xcbf2_9ce4_8422_2325
    } else {
        wrapping_mul(fnv1a(bytes.drop_last()) ^ (bytes.last() as u64), 0x0100_0000_01b3u64)
    }
}

/// The seed of a mark: FNV-1a of the UTF-8 bytes of the trimmed text.
pub open spec fn seed_spec(text: Seq<char>) -> u64 {
    fnv1a(vstd::utf8::encode_utf8(trim(text)))
}

/// Grid side length; the grid is mirrored left-right.
pub const N: usize = 5;

/// Whether cell (r, c) of the mark seeded by `seed` is lit: the left half
/// (with the center column) takes one bit per cell from the generator, row
/// by row, and the right half mirrors it.
pub open spec fn lit(seed: u64, r: int, c: int) -> bool {
    let half_col = if c <= 2 { c } else { 4 - c };
    output(seed, (3 * r + half_col) as nat) & 1 == 1
}

/// The mark's cells for `text`.
pub open spec fn mark_spec(text: Seq<char>) -> Seq<Seq<bool>> {
    Seq::new(5, |r: int| Seq::new(5, |c: int| lit(seed_spec(text), r, c)))
}

/// FNV-1a hash of the (trimmed) input: seeds the mark deterministically.
pub fn seed_of(text: &str) -> (h: u64)
    ensures
        h == seed_spec(text@),
{
    let t = from_chars(&trim_chars(&to_chars(text)));
    let bytes = t.as_str().as_bytes();
    let mut h: u64 = 0xcbf2_9ce4_8422_2325;
    for i in 0..bytes.len()
        invariant
            bytes@ == vstd::utf8::encode_utf8(trim(text@)),
            h == fnv1a(bytes@.take(i as int)),
    {
        assert(bytes@.take(i + 1).drop_last() =~= bytes@.take(i as int));
        h = (h ^ bytes[i] as u64).wrapping_mul(0x0100_0000_01b3);
    }
    assert(bytes@.take(bytes@.len() as int) =~= bytes@);
    h
}

/// The lit cells of the mark for `text`, row by row.
pub fn mark_cells(text: &str) -> (cells: Vec<Vec<bool>>)
    ensures
        cells@.len() == 5,
        forall|r: int| 0 <= r < 5 ==> (#[trigger] cells@[r])@ == mark_spec(text@)[r],
{
    let seed = seed_of(text);
    let mut rng = SplitMix::new(seed);
    let mut cells: Vec<Vec<bool>> = Vec::new();
    for r in 0..5usize
        invariant
            rng.state == state_after(seed, (3 * r) as nat),
            seed == seed_spec(text@),
            cells@.len() == r,
            forall|i: int| 0 <= i < r ==> (#[trigger] cells@[i])@ == mark_spec(text@)[i],
    {
        let mut row: Vec<bool> = vec![false, false, false, false, false];
        for c in 0..3usize
            invariant
                rng.state == state_after(seed, (3 * r + c) as nat),
                seed == seed_spec(text@),
                r < 5,
                row@.len() == 5,
                c <= 3,
                forall|k: int|
                    0 <= k < 5 ==> #[trigger] row@[k] == (if k < c || 4 - k < c {
                        lit(seed, r as int, k)
                    } else {
                        false
                    }),
        {
            let v = rng.next();
            assert(state_after(seed, (3 * r + c + 1) as nat) == wrapping_add(state_after(seed, (3 * r + c) as nat), golden_gamma()));
            let bit = v & 1 == 1;
            row.set(c, bit);
            row.set(4 - c, bit);
            assert(bit == lit(seed, r as int, c as int));
            assert(bit == lit(seed, r as int, 4 - c as int));
        }
        assert(row@ =~= mark_spec(text@)[r as int]);
        cells.push(row);
    }
    cells
}

/// A lit cell's `<rect>`, colored by its diagonal.
pub open spec fn cell_rect(r: int, c: int, color: Rgb) -> Seq<char> {
    "<rect x=\""@ + dec((40 + 48 * c) as nat) + "\" y=\""@ + dec((40 + 48 * r) as nat)
        + "\" width=\"48\" height=\"48\" rx=\"6\" fill=\""@ + hex_color(color) + "\"/>\n"@
}

/// The rects of the first `k` cells in row-major order.
pub open spec fn cell_rects(cells: Seq<Seq<bool>>, palette: Seq<Rgb>, k: int) -> Seq<char>
    decreases k,
{
    if k <= 0 {
        Seq::empty()
    } else {
        let r = (k - 1) / 5;
        let c = (k - 1) % 5;
        cell_rects(cells, palette, k - 1) + if cells[r][c] {
            cell_rect(r, c, palette[r + c])
        } else {
            Seq::empty()
        }
    }
}

/// The backdrop color: `bg`, or a dark default.
pub open spec fn backdrop(bg: Option<Rgb>) -> Rgb {
    match bg {
        Some(c) => c,
        None => Rgb { r: 13, g: 17, b: 23 },
    }
}

/// The SVG document of a mark.
pub open spec fn mark_svg(cells: Seq<Seq<bool>>, palette: Seq<Rgb>, bg: Option<Rgb>) -> Seq<char> {
    "<svg xmlns=\"http://www.w3.org/2000/svg\" width=\"320\" height=\"320\" viewBox=\"0 0 320 320\">\n"@
        + "<rect width=\"100%\" height=\"100%\" rx=\"20\" fill=\""@ + hex_color(backdrop(bg))
        + "\"/>\n"@ + cell_rects(cells, palette, 25) + "</svg>\n"@
}

/// Render the mark for `text` as a standalone SVG on a `bg` backdrop
/// (default dark). `palette[k]` is the gradient's color for the cells on
/// diagonal `k` (row + column, 0 to 8), so the gradient reads across the
/// mark.
#[verifier::rlimit(60)]
pub fn to_svg(text: &str, palette: &Vec<Rgb>, bg: Option<Rgb>) -> (s: String)
    requires
        palette@.len() == 9,
    ensures
        s@ == mark_svg(mark_spec(text@), palette@, bg),
{
    let cells = mark_cells(text);
    let back = match bg {
        Some(c) => c,
        None => Rgb { r: 13, g: 17, b: 23 },
    };
    let mut s = String::from_str(
        "<svg xmlns=\"http://www.w3.org/2000/svg\" width=\"320\" height=\"320\" viewBox=\"0 0 320 320\">\n",
    );
    s.append("<rect width=\"100%\" height=\"100%\" rx=\"20\" fill=\"");
    s.append(hex(back).as_str());
    s.append("\"/>\n");
    let ghost head = s@;
    let ghost cv = mark_spec(text@);
    for k in 0..25usize
        invariant
            palette@.len() == 9,
            cells@.len() == 5,
            forall|r: int| 0 <= r < 5 ==> (#[trigger] cells@[r])@ == cv[r],
            cv == mark_spec(text@),
            s@ == head + cell_rects(cv, palette@, k as int),
    {
        let r = k / 5;
        let c = k % 5;
        assert(cells@[r as int]@ == cv[r as int]);
        assert(cell_rects(cv, palette@, k + 1) == cell_rects(cv, palette@, k as int) + if cv[r as int][c as int] {
            cell_rect(r as int, c as int, palette@[r + c])
        } else {
            Seq::<char>::empty()
        });
        if cells[r][c] {
            s.append("<rect x=\"");
            s.append(dec_string((40 + 48 * c) as u64).as_str());
            s.append("\" y=\"");
            s.append(dec_string((40 + 48 * r) as u64).as_str());
            s.append("\" width=\"48\" height=\"48\" rx=\"6\" fill=\"");
            s.append(hex(palette[r + c]).as_str());
            s.append("\"/>\n");
        }
        assert(s@ =~= head + cell_rects(cv, palette@, k + 1));
    }
    s.append("</svg>\n");
    s
}

/// The `<rect>` of a 48px square with its top-left corner at (`x`, `y`),
/// filled with `fill`.
pub open spec fn rect_at(x: nat, y: nat, fill: Rgb) -> Seq<char> {
    "<rect x=\""@ + dec(x) + "\" y=\""@ + dec(y) + "\" width=\"48\" height=\"48\" rx=\"6\" fill=\""@
        + hex_color(fill) + "\"/>\n"@
}

proof fn lemma_cell_rects_grow(cells: Seq<Seq<bool>>, palette: Seq<Rgb>, k1: int, k2: int)
    requires
        0 <= k1 <= k2,
    ensures
        cell_rects(cells, palette, k1).len() <= cell_rects(cells, palette, k2).len(),
        cell_rects(cells, palette, k2).subrange(0, cell_rects(cells, palette, k1).len() as int)
            == cell_rects(cells, palette, k1),
    decreases k2 - k1,
{
    if k1 < k2 {
        lemma_cell_rects_grow(cells, palette, k1, k2 - 1);
        let a = cell_rects(cells, palette, k2 - 1);
        let b = cell_rects(cells, palette, k2);
        let n = cell_rects(cells, palette, k1).len() as int;
        assert(b.subrange(0, a.len() as int) =~= a);
        assert(b.subrange(0, n) =~= a.subrange(0, n));
    } else {
        assert(cell_rects(cells, palette, k2).subrange(0, cell_rects(cells, palette, k1).len() as int)
            =~= cell_rects(cells, palette, k1));
    }
}

/// Each lit cell is drawn with the column setting `x` and the row setting
/// `y`: the cell at row `r` and column `c` is a square at
/// x = 40 + 48 * c, y = 40 + 48 * r, filled with the palette's color for
/// its diagonal `r + c`.
pub proof fn lemma_lit_cell_drawn_at(cells: Seq<Seq<bool>>, palette: Seq<Rgb>, bg: Option<Rgb>, r: int, c: int)
    requires
        0 <= r < 5,
        0 <= c < 5,
        cells[r][c],
    ensures
        contains(mark_svg(cells, palette, bg), rect_at((40 + 48 * c) as nat, (40 + 48 * r) as nat, palette[r + c])),
{
    let k = 5 * r + c;
    vstd::arithmetic::div_mod::lemma_fundamental_div_mod_converse(k, 5, r, c);
    let before = cell_rects(cells, palette, k);
    let pat = cell_rect(r, c, palette[r + c]);
    assert(pat =~= rect_at((40 + 48 * c) as nat, (40 + 48 * r) as nat, palette[r + c]));
    assert(cell_rects(cells, palette, k + 1) == before + pat);
    lemma_cell_rects_grow(cells, palette, k + 1, 25);
    let all = cell_rects(cells, palette, 25);
    let head = "<svg xmlns=\"http://www.w3.org/2000/svg\" width=\"320\" height=\"320\" viewBox=\"0 0 320 320\">\n"@
        + "<rect width=\"100%\" height=\"100%\" rx=\"20\" fill=\""@ + hex_color(backdrop(bg)) + "\"/>\n"@;
    let svg = mark_svg(cells, palette, bg);
    assert(svg =~= head + all + "</svg>\n"@);
    let i: int = (head.len() + before.len()) as int;
    assert(all.subrange(0, (before + pat).len() as int) == before + pat);
    assert(svg.subrange(i, i + pat.len() as int) =~= pat) by {
        assert forall|j: int| 0 <= j < pat.len() implies svg.subrange(i, i + pat.len() as int)[j] == pat[j] by {
            assert(svg[i + j] == all[before.len() + j]);
            assert(all[before.len() + j] == (before + pat)[before.len() + j]);
        }
    }
    assert(occurs_at(svg, pat, i));
}

proof fn lemma_cell_index(k: int, r: int, c: int)
    requires
        0 <= k,
        0 <= r < 5,
        0 <= c < 5,
        k != 5 * r + c,
    ensures
        k / 5 != r || k % 5 != c,
{
    vstd::arithmetic::div_mod::lemma_fundamental_div_mod(k, 5);
}

proof fn lemma_rects_before_cell(a: Seq<Seq<bool>>, b: Seq<Seq<bool>>, palette: Seq<Rgb>, r: int, c: int, k: int)
    requires
        0 <= r < 5,
        0 <= c < 5,
        0 <= k <= 5 * r + c,
        forall|i: int, j: int| 0 <= i < 5 && 0 <= j < 5 && (i != r || j != c) ==> a[i][j] == b[i][j],
    ensures
        cell_rects(a, palette, k) == cell_rects(b, palette, k),
    decreases k,
{
    if k > 0 {
        lemma_rects_before_cell(a, b, palette, r, c, k - 1);
        lemma_cell_index(k - 1, r, c);
    }
}

proof fn lemma_rects_after_cell(a: Seq<Seq<bool>>, b: Seq<Seq<bool>>, palette: Seq<Rgb>, r: int, c: int, k: int)
    requires
        0 <= r < 5,
        0 <= c < 5,
        5 * r + c < k <= 25,
        forall|i: int, j: int| 0 <= i < 5 && 0 <= j < 5 && (i != r || j != c) ==> a[i][j] == b[i][j],
        !a[r][c],
        b[r][c],
    ensures
        ({
            let front = cell_rects(a, palette, 5 * r + c);
            let ra = cell_rects(a, palette, k);
            &&& front.len() <= ra.len()
            &&& ra.subrange(0, front.len() as int) == front
            &&& cell_rects(b, palette, k) == front + rect_at((40 + 48 * c) as nat, (40 + 48 * r) as nat, palette[r + c])
                + ra.subrange(front.len() as int, ra.len() as int)
        }),
    decreases k,
{
    let k0 = 5 * r + c;
    let front = cell_rects(a, palette, k0);
    let pat = rect_at((40 + 48 * c) as nat, (40 + 48 * r) as nat, palette[r + c]);
    vstd::arithmetic::div_mod::lemma_fundamental_div_mod_converse(k0, 5, r, c);
    if k == k0 + 1 {
        lemma_rects_before_cell(a, b, palette, r, c, k0);
        assert(cell_rect(r, c, palette[r + c]) =~= pat);
        let ra = cell_rects(a, palette, k);
        assert(ra == front);
        assert(ra.subrange(0, front.len() as int) =~= front);
        assert(ra.subrange(front.len() as int, ra.len() as int) =~= Seq::<char>::empty());
        assert(cell_rects(b, palette, k) =~= front + pat + ra.subrange(front.len() as int, ra.len() as int));
    } else {
        lemma_rects_after_cell(a, b, palette, r, c, k - 1);
        lemma_cell_index(k - 1, r, c);
        let prev = cell_rects(a, palette, k - 1);
        let ra = cell_rects(a, palette, k);
        let step = if a[(k - 1) / 5][(k - 1) % 5] {
            cell_rect((k - 1) / 5, (k - 1) % 5, palette[(k - 1) / 5 + (k - 1) % 5])
        } else {
            Seq::<char>::empty()
        };
        assert(0 <= (k - 1) / 5 < 5 && 0 <= (k - 1) % 5 < 5);
        assert(ra == prev + step);
        assert(ra.subrange(0, front.len() as int) =~= prev.subrange(0, front.len() as int));
        assert(ra.subrange(front.len() as int, ra.len() as int) =~= prev.subrange(front.len() as int, prev.len() as int) + step);
        assert(cell_rects(b, palette, k) =~= front + pat + ra.subrange(front.len() as int, ra.len() as int));
    }
}

/// Lighting one more cell of a mark adds that cell's square, at the place
/// its row and column give and in its diagonal's color, and changes nothing
/// else in the SVG: an unlit cell draws nothing.
pub proof fn lemma_lighting_a_cell_adds_its_rect(a: Seq<Seq<bool>>, b: Seq<Seq<bool>>, palette: Seq<Rgb>, bg: Option<Rgb>, r: int, c: int)
    requires
        0 <= r < 5,
        0 <= c < 5,
        forall|i: int, j: int| 0 <= i < 5 && 0 <= j < 5 && (i != r || j != c) ==> a[i][j] == b[i][j],
        !a[r][c],
        b[r][c],
    ensures
        exists|i: int|
            0 <= i <= mark_svg(a, palette, bg).len() && mark_svg(b, palette, bg) == mark_svg(a, palette, bg).subrange(0, i)
                + rect_at((40 + 48 * c) as nat, (40 + 48 * r) as nat, palette[r + c])
                + mark_svg(a, palette, bg).subrange(i, mark_svg(a, palette, bg).len() as int),
{
    lemma_rects_after_cell(a, b, palette, r, c, 25);
    let pat = rect_at((40 + 48 * c) as nat, (40 + 48 * r) as nat, palette[r + c]);
    let front = cell_rects(a, palette, 5 * r + c);
    let ra = cell_rects(a, palette, 25);
    let head = "<svg xmlns=\"http://www.w3.org/2000/svg\" width=\"320\" height=\"320\" viewBox=\"0 0 320 320\">\n"@
        + "<rect width=\"100%\" height=\"100%\" rx=\"20\" fill=\""@ + hex_color(backdrop(bg)) + "\"/>\n"@;
    let tail = "</svg>\n"@;
    let sa = mark_svg(a, palette, bg);
    let i: int = (head.len() + front.len()) as int;
    assert(sa =~= head + ra + tail);
    assert(sa.subrange(0, i) =~= head + front);
    assert(sa.subrange(i, sa.len() as int) =~= ra.subrange(front.len() as int, ra.len() as int) + tail);
    assert(mark_svg(b, palette, bg) =~= sa.subrange(0, i) + pat + sa.subrange(i, sa.len() as int));
}

/// In the SVG of the mark for `text`, every lit cell at row `r` and column
/// `c` is drawn at x = 40 + 48 * c, y = 40 + 48 * r, and so is its mirror
/// image at column `4 - c`, on the same row (each with its diagonal's
/// color): the picture is symmetric about its vertical axis.
pub proof fn lemma_mark_svg_is_mirrored(text: Seq<char>, palette: Seq<Rgb>, bg: Option<Rgb>, r: int, c: int)
    requires
        0 <= r < 5,
        0 <= c < 5,
        mark_spec(text)[r][c],
    ensures
        contains(mark_svg(mark_spec(text), palette, bg), rect_at((40 + 48 * c) as nat, (40 + 48 * r) as nat, palette[r + c])),
        contains(mark_svg(mark_spec(text), palette, bg), rect_at((40 + 48 * (4 - c)) as nat, (40 + 48 * r) as nat, palette[r + 4 - c])),
{
    lemma_mark_is_symmetric(text, r, c);
    lemma_lit_cell_drawn_at(mark_spec(text), palette, bg, r, c);
    lemma_lit_cell_drawn_at(mark_spec(text), palette, bg, r, 4 - c);
}

/// Marks are mirror-symmetric: column `c` equals column `4 - c`.
pub proof fn lemma_mark_is_symmetric(text: Seq<char>, r: int, c: int)
    requires
        0 <= r < 5,
        0 <= c < 5,
    ensures
        mark_spec(text)[r][c] == mark_spec(text)[r][4 - c],
{
}

/// A mark depends only on the trimmed text: inputs that differ only in
/// surrounding whitespace give the same mark.
pub proof fn lemma_mark_ignores_surrounding_space(a: Seq<char>, b: Seq<char>)
    requires
        trim(a) == trim(b),
    ensures
        mark_spec(a) == mark_spec(b),
{
}

} // verus!
