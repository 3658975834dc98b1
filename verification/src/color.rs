//! Color primitives: 8-bit sRGB values, hex parsing, the xterm-256 palette
//! mapping and ANSI escape generation.
use vstd::prelude::*;
use crate::strs::{push_char, to_chars, dec, dec_string};

verus! {

/// An 8-bit-per-channel sRGB color.
#[derive(Clone, Copy, Debug, PartialEq, Eq, Structural)]
pub struct Rgb {
    pub r: u8,
    pub g: u8,
    pub b: u8,
}

/// The value of a hexadecimal digit character, if it is one.
pub open spec fn hex_digit(c: char) -> Option<nat> {
    if '0' <= c && c <= '9' {
        Some((c as nat - 48) as nat)
    } else if 'a' <= c && c <= 'f' {
        Some((c as nat - 87) as nat)
    } else if 'A' <= c && c <= 'F' {
        Some((c as nat - 55) as nat)
    } else {
        None
    }
}

/// Number of bytes in the UTF-8 encoding of one character.
pub open spec fn utf8_len(c: char) -> nat {
    if (c as u32) < 0x80 {
        1
    } else if (c as u32) < 0x800 {
        2
    } else if (c as u32) < 0x10000 {
        3
    } else {
        4
    }
}

/// Number of bytes in the UTF-8 encoding of a string (`str::len`).
pub open spec fn byte_len(s: Seq<char>) -> nat
    decreases s.len(),
{
    if s.len() == 0 {
        0
    } else {
        byte_len(s.drop_last()) + utf8_len(s.last())
    }
}

/// `s` without one leading `#`, if it has one.
pub open spec fn strip_hash(s: Seq<char>) -> Seq<char> {
    if s.len() > 0 && s[0] == '#' {
        s.drop_first()
    } else {
        s
    }
}

/// Six hex digits read as three bytes, two digits each.
pub open spec fn six_digit_color(h: Seq<char>) -> Option<Rgb> {
    if h.len() == 6 && hex_digit(h[0]) is Some && hex_digit(h[1]) is Some
        && hex_digit(h[2]) is Some && hex_digit(h[3]) is Some && hex_digit(h[4]) is Some
        && hex_digit(h[5]) is Some {
        Some(
            Rgb {
                r: (hex_digit(h[0])->0 * 16 + hex_digit(h[1])->0) as u8,
                g: (hex_digit(h[2])->0 * 16 + hex_digit(h[3])->0) as u8,
                b: (hex_digit(h[4])->0 * 16 + hex_digit(h[5])->0) as u8,
            },
        )
    } else {
        None
    }
}

/// A hex digit `d` doubled into a byte (`f` becomes `0xff`).
pub open spec fn doubled(d: nat) -> u8 {
    (d * 16 + d) as u8
}

/// Three hex digit characters, each doubled into a byte.
pub open spec fn three_digit_color(h: Seq<char>) -> Option<Rgb> {
    if h.len() == 3 && hex_digit(h[0]) is Some && hex_digit(h[1]) is Some && hex_digit(
        h[2],
    ) is Some {
        Some(
            Rgb {
                r: doubled(hex_digit(h[0])->0),
                g: doubled(hex_digit(h[1])->0),
                b: doubled(hex_digit(h[2])->0),
            },
        )
    } else {
        None
    }
}

/// What `Rgb::parse` answers for the text `s`: `#rrggbb`, `rrggbb`, `#rgb`
/// or `rgb`; the length that decides the form is counted in bytes.
pub open spec fn parse_rgb(s: Seq<char>) -> Result<Rgb, Seq<char>> {
    let h = strip_hash(s);
    if byte_len(h) == 6 {
        match six_digit_color(h) {
            Some(c) => Ok(c),
            None => Err("invalid hex color: "@ + s),
        }
    } else if byte_len(h) == 3 {
        match three_digit_color(h) {
            Some(c) => Ok(c),
            None => Err("invalid hex color: "@ + s),
        }
    } else {
        Err("invalid hex color: "@ + s + " (expected #rgb or #rrggbb)"@)
    }
}

/// A `Result` whose error string is taken by its characters.
pub open spec fn res_view<T>(r: Result<T, String>) -> Result<T, Seq<char>> {
    match r {
        Ok(v) => Ok(v),
        Err(e) => Err(e@),
    }
}

fn hex_value(c: char) -> (r: Option<u8>)
    ensures
        r matches Some(v) ==> hex_digit(c) == Some(v as nat),
        r is None ==> hex_digit(c) is None,
{
    if '0' <= c && c <= '9' {
        Some(((c as u32) - 48) as u8)
    } else if 'a' <= c && c <= 'f' {
        Some(((c as u32) - 87) as u8)
    } else if 'A' <= c && c <= 'F' {
        Some(((c as u32) - 55) as u8)
    } else {
        None
    }
}

pub(crate) fn char_byte_len(c: char) -> (n: usize)
    ensures
        n == utf8_len(c),
{
    let u = c as u32;
    if u < 0x80 {
        1
    } else if u < 0x800 {
        2
    } else if u < 0x10000 {
        3
    } else {
        4
    }
}

/// Byte length of a character sequence, saturating at `usize::MAX`.
pub fn byte_len_of(v: &Vec<char>) -> (n: usize)
    ensures
        byte_len(v@) <= usize::MAX ==> n == byte_len(v@),
        byte_len(v@) > usize::MAX ==> n == usize::MAX,
{
    let mut n: usize = 0;
    let mut sat = false;
    for i in 0..v.len()
        invariant
            !sat ==> n == byte_len(v@.take(i as int)),
            sat ==> n == usize::MAX && byte_len(v@.take(i as int)) > usize::MAX,
    {
        assert(v@.take(i + 1).drop_last() == v@.take(i as int));
        let w = char_byte_len(v[i]);
        if !sat {
            if n <= usize::MAX - w {
                n = n + w;
            } else {
                n = usize::MAX;
                sat = true;
            }
        }
    }
    assert(v@.take(v.len() as int) == v@);
    n
}

fn invalid_hex(s: &str, with_hint: bool) -> (e: String)
    ensures
        !with_hint ==> e@ == "invalid hex color: "@ + s@,
        with_hint ==> e@ == "invalid hex color: "@ + s@ + " (expected #rgb or #rrggbb)"@,
{
    let mut e = String::from_str("invalid hex color: ");
    e.append(s);
    if with_hint {
        e.append(" (expected #rgb or #rrggbb)");
    }
    e
}

impl Rgb {
    pub fn new(r: u8, g: u8, b: u8) -> (c: Rgb)
        ensures
            c == (Rgb { r, g, b }),
    {
        Rgb { r, g, b }
    }

    /// Parse `#rrggbb`, `rrggbb`, `#rgb`, or `rgb`.
    pub fn parse(s: &str) -> (res: Result<Rgb, String>)
        ensures
            res_view(res) == parse_rgb(s@),
    {
        let all = to_chars(s);
        let mut h: Vec<char> = Vec::new();
        let start: usize = if all.len() > 0 && all[0] == '#' { 1 } else { 0 };
        for i in start..all.len()
            invariant
                all@ == s@,
                start <= all@.len(),
                h@ == all@.subrange(start as int, i as int),
        {
            h.push(all[i]);
        }
        assert(h@ == strip_hash(s@));
        let blen = byte_len_of(&h);
        if blen == 6 {
            if h.len() != 6 {
                return Err(invalid_hex(s, false));
            }
            let d0 = hex_value(h[0]);
            let d1 = hex_value(h[1]);
            let d2 = hex_value(h[2]);
            let d3 = hex_value(h[3]);
            let d4 = hex_value(h[4]);
            let d5 = hex_value(h[5]);
            match (d0, d1, d2, d3, d4, d5) {
                (Some(a0), Some(a1), Some(a2), Some(a3), Some(a4), Some(a5)) => {
                    Ok(Rgb::new(a0 * 16 + a1, a2 * 16 + a3, a4 * 16 + a5))
                },
                _ => Err(invalid_hex(s, false)),
            }
        } else if blen == 3 {
            if h.len() != 3 {
                return Err(invalid_hex(s, false));
            }
            let d0 = hex_value(h[0]);
            let d1 = hex_value(h[1]);
            let d2 = hex_value(h[2]);
            match (d0, d1, d2) {
                (Some(a0), Some(a1), Some(a2)) => {
                    Ok(Rgb::new(a0 * 16 + a0, a1 * 16 + a1, a2 * 16 + a2))
                },
                _ => Err(invalid_hex(s, false)),
            }
        } else {
            Err(invalid_hex(s, true))
        }
    }
}


/// 6x6x6 cube level of one channel (cube steps at 0, 95, 135, 175, 215, 255).
pub open spec fn cube_level(v: u8) -> int {
    if v < 48 {
        0
    } else if v < 115 {
        1
    } else if (v - 35) / 40 < 5 {
        (v - 35) / 40
    } else {
        5
    }
}

/// The xterm-256 palette index chosen for a truecolor value: the grayscale
/// ramp for exact grays, the 6x6x6 cube otherwise.
pub open spec fn ansi256_index(c: Rgb) -> int {
    if c.r == c.g && c.g == c.b {
        if c.r < 8 {
            16
        } else if c.r > 248 {
            231
        } else {
            232 + (c.r - 8) * 24 / 247
        }
    } else {
        16 + 36 * cube_level(c.r) + 6 * cube_level(c.g) + cube_level(c.b)
    }
}

fn cube(v: u8) -> (q: u16)
    ensures
        q == cube_level(v),
        q <= 5,
{
    if v < 48 {
        0
    } else if v < 115 {
        1
    } else {
        let q = (v as u16 - 35) / 40;
        if q < 5 {
            q
        } else {
            5
        }
    }
}

/// Map a truecolor RGB to the nearest xterm-256 palette index.
pub fn rgb_to_ansi256(c: Rgb) -> (idx: u8)
    ensures
        idx == ansi256_index(c),
        16 <= idx,
{
    if c.r == c.g && c.g == c.b {
        if c.r < 8 {
            return 16;
        }
        if c.r > 248 {
            return 231;
        }
        assert((c.r - 8) * 24 / 247 <= 23) by (nonlinear_arith)
            requires
                8 <= c.r <= 248,
        ;
        return 232 + ((c.r as u16 - 8) * 24 / 247) as u8;
    }
    (16 + 36 * cube(c.r) + 6 * cube(c.g) + cube(c.b)) as u8
}

/// How much color a terminal can render.
#[derive(Clone, Copy, Debug, PartialEq, Eq, Structural)]
pub enum ColorMode {
    /// 24-bit truecolor.
    True,
    /// 256-color palette (approximated).
    Ansi256,
    /// No color at all: plain glyphs.
    NoColor,
}

/// The SGR escape that sets the foreground to `c` in mode `m`.
pub open spec fn fg_escape(m: ColorMode, c: Rgb) -> Seq<char> {
    match m {
        ColorMode::True => "\x1b[38;2;"@ + dec(c.r as nat) + ";"@ + dec(c.g as nat) + ";"@ + dec(
            c.b as nat,
        ) + "m"@,
        ColorMode::Ansi256 => "\x1b[38;5;"@ + dec(ansi256_index(c) as nat) + "m"@,
        ColorMode::NoColor => Seq::empty(),
    }
}

/// The SGR reset sequence for mode `m` (empty when color is off).
pub open spec fn reset_escape(m: ColorMode) -> Seq<char> {
    match m {
        ColorMode::NoColor => Seq::empty(),
        _ => "\x1b[0m"@,
    }
}

/// Whether the environment variable `COLORTERM` advertises truecolor.
pub open spec fn advertises_truecolor(colorterm: Seq<char>) -> bool {
    crate::strs::contains(colorterm, "truecolor"@) || crate::strs::contains(colorterm, "24bit"@)
}

impl ColorMode {
    /// The mode chosen from the environment: `NO_COLOR` set disables color;
    /// otherwise a `COLORTERM` containing `truecolor` or `24bit` selects
    /// truecolor, and anything else the 256-color palette.
    pub fn from_env(no_color_set: bool, colorterm: Option<&str>) -> (m: ColorMode)
        ensures
            no_color_set ==> m == ColorMode::NoColor,
            !no_color_set ==> (m == ColorMode::True <==> (colorterm matches Some(v)
                && advertises_truecolor(v@))),
            !no_color_set ==> m != ColorMode::NoColor,
    {
        if no_color_set {
            return ColorMode::NoColor;
        }
        match colorterm {
            Some(v) => {
                let cs = to_chars(v);
                if crate::strs::contains_lit(&cs, "truecolor") || crate::strs::contains_lit(
                    &cs,
                    "24bit",
                ) {
                    ColorMode::True
                } else {
                    ColorMode::Ansi256
                }
            },
            None => ColorMode::Ansi256,
        }
    }

    /// ANSI SGR sequence that sets the foreground to `c` for this mode.
    pub fn fg(self, c: Rgb) -> (s: String)
        ensures
            s@ == fg_escape(self, c),
    {
        match self {
            ColorMode::True => {
                let mut s = String::from_str("\x1b[38;2;");
                s.append(dec_string(c.r as u64).as_str());
                s.append(";");
                s.append(dec_string(c.g as u64).as_str());
                s.append(";");
                s.append(dec_string(c.b as u64).as_str());
                s.append("m");
                s
            },
            ColorMode::Ansi256 => {
                let mut s = String::from_str("\x1b[38;5;");
                s.append(dec_string(rgb_to_ansi256(c) as u64).as_str());
                s.append("m");
                s
            },
            ColorMode::NoColor => String::new(),
        }
    }

    /// The reset sequence that ends a colored run.
    pub fn reset(self) -> (s: &'static str)
        ensures
            s@ == reset_escape(self),
    {
        match self {
            ColorMode::NoColor => {
                proof {
                    reveal_strlit("");
                }
                ""
            },
            _ => "\x1b[0m",
        }
    }
}


/// Lower-case hexadecimal digit character for `d < 16`.
pub open spec fn hex_char(d: nat) -> char {
    if d < 10 {
        (48 + d) as char
    } else {
        (87 + d) as char
    }
}

/// Two lower-case hex digits of a byte.
pub open spec fn hex_byte(b: u8) -> Seq<char> {
    seq![hex_char(b as nat / 16), hex_char(b as nat % 16)]
}

/// `#rrggbb` in lower-case hex.
pub open spec fn hex_color(c: Rgb) -> Seq<char> {
    seq!['#'] + hex_byte(c.r) + hex_byte(c.g) + hex_byte(c.b)
}

fn hex_digit_char(d: u8) -> (c: char)
    requires
        d < 16,
    ensures
        c == hex_char(d as nat),
{
    if d < 10 {
        crate::strs::char_from_u32_ascii(48 + d as u32)
    } else {
        crate::strs::char_from_u32_ascii(87 + d as u32)
    }
}

/// `#rrggbb` in lower-case hex (`format!("#{:02x}{:02x}{:02x}", ..)`).
pub fn hex(c: Rgb) -> (s: String)
    ensures
        s@ == hex_color(c),
{
    let mut s = String::new();
    push_char(&mut s, '#');
    push_char(&mut s, hex_digit_char(c.r / 16));
    push_char(&mut s, hex_digit_char(c.r % 16));
    push_char(&mut s, hex_digit_char(c.g / 16));
    push_char(&mut s, hex_digit_char(c.g % 16));
    push_char(&mut s, hex_digit_char(c.b / 16));
    push_char(&mut s, hex_digit_char(c.b % 16));
    assert(s@ =~= hex_color(c));
    s
}

proof fn lemma_hex_char_digit(d: nat)
    requires
        d < 16,
    ensures
        hex_digit(hex_char(d)) == Some(d),
        (hex_char(d) as u32) < 0x80,
        hex_char(d) != '#',
{
}

proof fn lemma_byte_len_ascii6(h: Seq<char>)
    requires
        h.len() == 6,
        forall|i: int| 0 <= i < 6 ==> (h[i] as u32) < 0x80,
    ensures
        byte_len(h) == 6,
{
    reveal_with_fuel(byte_len, 7);
    assert(h.drop_last().drop_last().drop_last().drop_last().drop_last().drop_last().len() == 0);
}

/// Formatting a color as `#rrggbb` and parsing it back gives the same color.
pub proof fn lemma_parse_hex_roundtrip(c: Rgb)
    ensures
        parse_rgb(hex_color(c)) == Ok::<Rgb, Seq<char>>(c),
{
    let s = hex_color(c);
    let h = s.drop_first();
    assert(s[0] == '#');
    assert(strip_hash(s) == h);
    lemma_hex_char_digit(c.r as nat / 16);
    lemma_hex_char_digit(c.r as nat % 16);
    lemma_hex_char_digit(c.g as nat / 16);
    lemma_hex_char_digit(c.g as nat % 16);
    lemma_hex_char_digit(c.b as nat / 16);
    lemma_hex_char_digit(c.b as nat % 16);
    assert(h =~= hex_byte(c.r) + hex_byte(c.g) + hex_byte(c.b));
    lemma_byte_len_ascii6(h);
    assert(six_digit_color(h) == Some(c));
}

/// The short form `rgb` means the same color as `rrggbb`: each digit doubled.
pub proof fn lemma_short_form_doubles(x: char, y: char, z: char)
    requires
        hex_digit(x) is Some,
        hex_digit(y) is Some,
        hex_digit(z) is Some,
    ensures
        parse_rgb(seq![x, y, z]) is Ok,
        parse_rgb(seq![x, y, z]) == parse_rgb(seq![x, x, y, y, z, z]),
{
    let short = seq![x, y, z];
    let long = seq![x, x, y, y, z, z];
    assert(strip_hash(short) == short);
    assert(strip_hash(long) == long);
    reveal_with_fuel(byte_len, 7);
    assert(short.drop_last().drop_last().drop_last().len() == 0);
    assert(long.drop_last().drop_last().drop_last().drop_last().drop_last().drop_last().len() == 0);
    assert(short.drop_last().drop_last() =~= seq![x]);
    assert(short.drop_last() =~= seq![x, y]);
    assert(long.drop_last() =~= seq![x, x, y, y, z]);
    assert(long.drop_last().drop_last() =~= seq![x, x, y, y]);
    assert(long.drop_last().drop_last().drop_last() =~= seq![x, x, y]);
    assert(long.drop_last().drop_last().drop_last().drop_last() =~= seq![x, x]);
    assert(long.drop_last().drop_last().drop_last().drop_last().drop_last() =~= seq![x]);
}

/// A leading `#` is optional: with or without it, the same text parses to the
/// same color (only the quoted text in an error message differs).
pub proof fn lemma_hash_prefix_optional(h: Seq<char>)
    requires
        h.len() == 0 || h[0] != '#',
    ensures
        parse_rgb(seq!['#'] + h) is Ok == parse_rgb(h) is Ok,
        parse_rgb(seq!['#'] + h) is Ok ==> parse_rgb(seq!['#'] + h) == parse_rgb(h),
{
    let s = seq!['#'] + h;
    assert(s[0] == '#');
    assert(s.drop_first() =~= h);
    assert(strip_hash(h) == h);
}

} // verus!
