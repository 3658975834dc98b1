//! Gradient presets (their color stops) and the names of the sweep
//! directions. Sampling a gradient, which interpolates in Oklab with
//! floating-point arithmetic, is the application's part.
use vstd::prelude::*;
use crate::color::{res_view, Rgb};
use crate::strs::{lower, lower_chars, eq_lit};

verus! {

/// A packed `0xRRGGBB` value split into its three bytes.
pub open spec fn unpack(n: u32) -> Rgb {
    Rgb { r: (n >> 16) as u8, g: (n >> 8) as u8, b: n as u8 }
}

pub fn unpack_rgb(n: u32) -> (c: Rgb)
    ensures
        c == unpack(n),
{
    Rgb { r: (n >> 16) as u8, g: (n >> 8) as u8, b: n as u8 }
}

/// Names of all built-in presets, in display order.
pub open spec fn preset_name_list() -> Seq<Seq<char>> {
    seq![
        "sunset"@, "ocean"@, "fire"@, "mint"@, "grape"@, "cyberpunk"@, "gold"@, "ice"@,
        "vaporwave"@, "rainbow"@, "matrix"@, "flamingo"@, "mono"@,
    ]
}

/// The packed color stops of the preset a lower-cased name selects: the
/// listed presets, and `aurora`, which resolves but is not listed.
pub open spec fn preset_table(q: Seq<char>) -> Option<Seq<u32>> {
    if q == "sunset"@ {
        Some(seq![0xff5f6du32, 0xffc371u32])
    } else if q == "ocean"@ {
        Some(seq![0x2193b0u32, 0x6dd5edu32])
    } else if q == "fire"@ {
        Some(seq![0xf12711u32, 0xf5af19u32])
    } else if q == "mint"@ {
        Some(seq![0x00b09bu32, 0x96c93du32])
    } else if q == "grape"@ {
        Some(seq![0x8e2de2u32, 0x4a00e0u32])
    } else if q == "cyberpunk"@ {
        Some(seq![0xf0fu32, 0x0ffu32])
    } else if q == "gold"@ {
        Some(seq![0xf7971eu32, 0xffd200u32])
    } else if q == "ice"@ {
        Some(seq![0x83a4d4u32, 0xb6fbffu32])
    } else if q == "vaporwave"@ {
        Some(seq![0xff6ad5u32, 0x8a2be2u32, 0x26c6dau32])
    } else if q == "rainbow"@ {
        Some(seq![0xff0000u32, 0xff8800u32, 0xffee00u32, 0x00cc44u32, 0x0088ffu32, 0x8800ffu32])
    } else if q == "matrix"@ {
        Some(seq![0x003b00u32, 0x00ff41u32])
    } else if q == "flamingo"@ {
        Some(seq![0xf093fbu32, 0xf5576cu32])
    } else if q == "mono"@ {
        Some(seq![0xffffffu32, 0x888888u32])
    } else if q == "aurora"@ {
        Some(seq![0x00c9a7u32, 0x3ec1d3u32, 0x845ec2u32])
    } else {
        None
    }
}

/// The color stops of the preset named `name` (case-insensitive).
pub open spec fn preset_colors(name: Seq<char>) -> Option<Seq<Rgb>> {
    match preset_table(lower(name)) {
        Some(t) => Some(t.map_values(|n: u32| unpack(n))),
        None => None,
    }
}

/// Names of all built-in presets, in display order.
pub fn preset_names() -> (v: Vec<&'static str>)
    ensures
        v@.map_values(|s: &str| s@) == preset_name_list(),
{
    let v = vec![
        "sunset", "ocean", "fire", "mint", "grape", "cyberpunk", "gold", "ice", "vaporwave",
        "rainbow", "matrix", "flamingo", "mono",
    ];
    assert(v@.map_values(|s: &str| s@) =~= preset_name_list());
    v
}

fn unpack_all(t: &Vec<u32>) -> (v: Vec<Rgb>)
    ensures
        v@ == t@.map_values(|n: u32| unpack(n)),
{
    let mut v: Vec<Rgb> = Vec::new();
    for i in 0..t.len()
        invariant
            v@ == t@.take(i as int).map_values(|n: u32| unpack(n)),
    {
        v.push(unpack_rgb(t[i]));
        assert(t@.take(i + 1).map_values(|n: u32| unpack(n)) =~= t@.take(i as int).map_values(|n: u32| unpack(n)).push(unpack(t@[i as int])));
    }
    assert(t@.take(t.len() as int) =~= t@);
    v
}

/// The color stops of a named preset (case-insensitive), or `None`.
pub fn preset_stops(name: &str) -> (r: Option<Vec<Rgb>>)
    ensures
        r matches Some(v) ==> preset_colors(name@) == Some(v@),
        r is None ==> preset_colors(name@) is None,
{
    let q = lower_chars(name);
    let t: Vec<u32> = if eq_lit(&q, "sunset") {
        vec![0xff5f6d, 0xffc371]
    } else if eq_lit(&q, "ocean") {
        vec![0x2193b0, 0x6dd5ed]
    } else if eq_lit(&q, "fire") {
        vec![0xf12711, 0xf5af19]
    } else if eq_lit(&q, "mint") {
        vec![0x00b09b, 0x96c93d]
    } else if eq_lit(&q, "grape") {
        vec![0x8e2de2, 0x4a00e0]
    } else if eq_lit(&q, "cyberpunk") {
        vec![0xf0f, 0x0ff]
    } else if eq_lit(&q, "gold") {
        vec![0xf7971e, 0xffd200]
    } else if eq_lit(&q, "ice") {
        vec![0x83a4d4, 0xb6fbff]
    } else if eq_lit(&q, "vaporwave") {
        vec![0xff6ad5, 0x8a2be2, 0x26c6da]
    } else if eq_lit(&q, "rainbow") {
        vec![0xff0000, 0xff8800, 0xffee00, 0x00cc44, 0x0088ff, 0x8800ff]
    } else if eq_lit(&q, "matrix") {
        vec![0x003b00, 0x00ff41]
    } else if eq_lit(&q, "flamingo") {
        vec![0xf093fb, 0xf5576c]
    } else if eq_lit(&q, "mono") {
        vec![0xffffff, 0x888888]
    } else if eq_lit(&q, "aurora") {
        vec![0x00c9a7, 0x3ec1d3, 0x845ec2]
    } else {
        return None;
    };
    assert(preset_table(q@) == Some(t@));
    Some(unpack_all(&t))
}

/// Every listed preset name resolves to a gradient of at least two stops.
pub proof fn lemma_all_presets_resolve(i: int)
    requires
        0 <= i < preset_name_list().len(),
    ensures
        preset_colors(preset_name_list()[i]) matches Some(stops) && stops.len() >= 2,
{
    reveal_strlit("sunset");
    reveal_strlit("ocean");
    reveal_strlit("fire");
    reveal_strlit("mint");
    reveal_strlit("grape");
    reveal_strlit("cyberpunk");
    reveal_strlit("gold");
    reveal_strlit("ice");
    reveal_strlit("vaporwave");
    reveal_strlit("rainbow");
    reveal_strlit("matrix");
    reveal_strlit("flamingo");
    reveal_strlit("mono");
    let n = preset_name_list()[i];
    assert(lower(n) =~= n);
    assert(preset_table(n) is Some);
}

/// The color with the given red, green and blue bytes.
pub open spec fn rgb_of(r: u8, g: u8, b: u8) -> Rgb {
    Rgb { r, g, b }
}

proof fn lemma_unpack_bytes(n: u32)
    ensures
        unpack(n) == rgb_of((n / 65536 % 256) as u8, (n / 256 % 256) as u8, (n % 256) as u8),
{
    assert((n >> 16) as u8 == (n / 65536 % 256) as u8) by (bit_vector);
    assert((n >> 8) as u8 == (n / 256 % 256) as u8) by (bit_vector);
    assert(n as u8 == (n % 256) as u8) by (bit_vector);
}

/// The stops of every preset, whatever the case of its name: sunset, ocean,
/// fire, mint, grape, cyberpunk, gold, ice, vaporwave, rainbow, matrix,
/// flamingo and mono, and also aurora; any other name has none.
pub proof fn lemma_preset_stops_table(name: Seq<char>)
    ensures
        lower(name) == "sunset"@ ==> preset_colors(name) == Some(seq![rgb_of(0xff, 0x5f, 0x6d), rgb_of(0xff, 0xc3, 0x71)]),
        lower(name) == "ocean"@ ==> preset_colors(name) == Some(seq![rgb_of(0x21, 0x93, 0xb0), rgb_of(0x6d, 0xd5, 0xed)]),
        lower(name) == "fire"@ ==> preset_colors(name) == Some(seq![rgb_of(0xf1, 0x27, 0x11), rgb_of(0xf5, 0xaf, 0x19)]),
        lower(name) == "mint"@ ==> preset_colors(name) == Some(seq![rgb_of(0x00, 0xb0, 0x9b), rgb_of(0x96, 0xc9, 0x3d)]),
        lower(name) == "grape"@ ==> preset_colors(name) == Some(seq![rgb_of(0x8e, 0x2d, 0xe2), rgb_of(0x4a, 0x00, 0xe0)]),
        lower(name) == "cyberpunk"@ ==> preset_colors(name) == Some(seq![rgb_of(0x00, 0x0f, 0x0f), rgb_of(0x00, 0x00, 0xff)]),
        lower(name) == "gold"@ ==> preset_colors(name) == Some(seq![rgb_of(0xf7, 0x97, 0x1e), rgb_of(0xff, 0xd2, 0x00)]),
        lower(name) == "ice"@ ==> preset_colors(name) == Some(seq![rgb_of(0x83, 0xa4, 0xd4), rgb_of(0xb6, 0xfb, 0xff)]),
        lower(name) == "vaporwave"@ ==> preset_colors(name) == Some(seq![rgb_of(0xff, 0x6a, 0xd5), rgb_of(0x8a, 0x2b, 0xe2), rgb_of(0x26, 0xc6, 0xda)]),
        lower(name) == "rainbow"@ ==> preset_colors(name) == Some(seq![rgb_of(0xff, 0x00, 0x00), rgb_of(0xff, 0x88, 0x00), rgb_of(0xff, 0xee, 0x00), rgb_of(0x00, 0xcc, 0x44), rgb_of(0x00, 0x88, 0xff), rgb_of(0x88, 0x00, 0xff)]),
        lower(name) == "matrix"@ ==> preset_colors(name) == Some(seq![rgb_of(0x00, 0x3b, 0x00), rgb_of(0x00, 0xff, 0x41)]),
        lower(name) == "flamingo"@ ==> preset_colors(name) == Some(seq![rgb_of(0xf0, 0x93, 0xfb), rgb_of(0xf5, 0x57, 0x6c)]),
        lower(name) == "mono"@ ==> preset_colors(name) == Some(seq![rgb_of(0xff, 0xff, 0xff), rgb_of(0x88, 0x88, 0x88)]),
        lower(name) == "aurora"@ ==> preset_colors(name) == Some(seq![rgb_of(0x00, 0xc9, 0xa7), rgb_of(0x3e, 0xc1, 0xd3), rgb_of(0x84, 0x5e, 0xc2)]),
        lower(name) != "sunset"@ && lower(name) != "ocean"@ && lower(name) != "fire"@ && lower(name) != "mint"@ && lower(name) != "grape"@ && lower(name) != "cyberpunk"@ && lower(name) != "gold"@ && lower(name) != "ice"@ && lower(name) != "vaporwave"@ && lower(name) != "rainbow"@ && lower(name) != "matrix"@ && lower(name) != "flamingo"@ && lower(name) != "mono"@ && lower(name) != "aurora"@ ==> preset_colors(name) is None,
{
    reveal_strlit("sunset");
    reveal_strlit("ocean");
    reveal_strlit("fire");
    reveal_strlit("mint");
    reveal_strlit("grape");
    reveal_strlit("cyberpunk");
    reveal_strlit("gold");
    reveal_strlit("ice");
    reveal_strlit("vaporwave");
    reveal_strlit("rainbow");
    reveal_strlit("matrix");
    reveal_strlit("flamingo");
    reveal_strlit("mono");
    reveal_strlit("aurora");
    assert forall|n: u32| #[trigger] unpack(n) == rgb_of((n / 65536 % 256) as u8, (n / 256 % 256) as u8, (n % 256) as u8) by {
        lemma_unpack_bytes(n);
    }
    let q = lower(name);
    if q == "sunset"@ {
        assert(q.len() == 6 && q[0] == 's' && q[1] == 'u');
        assert(preset_table(q).unwrap() =~= seq![0xff5f6du32, 0xffc371u32]);
        assert(seq![0xff5f6du32, 0xffc371u32].map_values(|n: u32| unpack(n)) =~= seq![rgb_of(0xff, 0x5f, 0x6d), rgb_of(0xff, 0xc3, 0x71)]);
    }
    if q == "ocean"@ {
        assert(q.len() == 5 && q[0] == 'o' && q[1] == 'c');
        assert(preset_table(q).unwrap() =~= seq![0x2193b0u32, 0x6dd5edu32]);
        assert(seq![0x2193b0u32, 0x6dd5edu32].map_values(|n: u32| unpack(n)) =~= seq![rgb_of(0x21, 0x93, 0xb0), rgb_of(0x6d, 0xd5, 0xed)]);
    }
    if q == "fire"@ {
        assert(q.len() == 4 && q[0] == 'f' && q[1] == 'i');
        assert(preset_table(q).unwrap() =~= seq![0xf12711u32, 0xf5af19u32]);
        assert(seq![0xf12711u32, 0xf5af19u32].map_values(|n: u32| unpack(n)) =~= seq![rgb_of(0xf1, 0x27, 0x11), rgb_of(0xf5, 0xaf, 0x19)]);
    }
    if q == "mint"@ {
        assert(q.len() == 4 && q[0] == 'm' && q[1] == 'i');
        assert(preset_table(q).unwrap() =~= seq![0x00b09bu32, 0x96c93du32]);
        assert(seq![0x00b09bu32, 0x96c93du32].map_values(|n: u32| unpack(n)) =~= seq![rgb_of(0x00, 0xb0, 0x9b), rgb_of(0x96, 0xc9, 0x3d)]);
    }
    if q == "grape"@ {
        assert(q.len() == 5 && q[0] == 'g' && q[1] == 'r');
        assert(preset_table(q).unwrap() =~= seq![0x8e2de2u32, 0x4a00e0u32]);
        assert(seq![0x8e2de2u32, 0x4a00e0u32].map_values(|n: u32| unpack(n)) =~= seq![rgb_of(0x8e, 0x2d, 0xe2), rgb_of(0x4a, 0x00, 0xe0)]);
    }
    if q == "cyberpunk"@ {
        assert(q.len() == 9 && q[0] == 'c' && q[1] == 'y');
        assert(preset_table(q).unwrap() =~= seq![0xf0fu32, 0x0ffu32]);
        assert(seq![0xf0fu32, 0x0ffu32].map_values(|n: u32| unpack(n)) =~= seq![rgb_of(0x00, 0x0f, 0x0f), rgb_of(0x00, 0x00, 0xff)]);
    }
    if q == "gold"@ {
        assert(q.len() == 4 && q[0] == 'g' && q[1] == 'o');
        assert(preset_table(q).unwrap() =~= seq![0xf7971eu32, 0xffd200u32]);
        assert(seq![0xf7971eu32, 0xffd200u32].map_values(|n: u32| unpack(n)) =~= seq![rgb_of(0xf7, 0x97, 0x1e), rgb_of(0xff, 0xd2, 0x00)]);
    }
    if q == "ice"@ {
        assert(q.len() == 3 && q[0] == 'i' && q[1] == 'c');
        assert(preset_table(q).unwrap() =~= seq![0x83a4d4u32, 0xb6fbffu32]);
        assert(seq![0x83a4d4u32, 0xb6fbffu32].map_values(|n: u32| unpack(n)) =~= seq![rgb_of(0x83, 0xa4, 0xd4), rgb_of(0xb6, 0xfb, 0xff)]);
    }
    if q == "vaporwave"@ {
        assert(q.len() == 9 && q[0] == 'v' && q[1] == 'a');
        assert(preset_table(q).unwrap() =~= seq![0xff6ad5u32, 0x8a2be2u32, 0x26c6dau32]);
        assert(seq![0xff6ad5u32, 0x8a2be2u32, 0x26c6dau32].map_values(|n: u32| unpack(n)) =~= seq![rgb_of(0xff, 0x6a, 0xd5), rgb_of(0x8a, 0x2b, 0xe2), rgb_of(0x26, 0xc6, 0xda)]);
    }
    if q == "rainbow"@ {
        assert(q.len() == 7 && q[0] == 'r' && q[1] == 'a');
        assert(preset_table(q).unwrap() =~= seq![0xff0000u32, 0xff8800u32, 0xffee00u32, 0x00cc44u32, 0x0088ffu32, 0x8800ffu32]);
        assert(seq![0xff0000u32, 0xff8800u32, 0xffee00u32, 0x00cc44u32, 0x0088ffu32, 0x8800ffu32].map_values(|n: u32| unpack(n)) =~= seq![rgb_of(0xff, 0x00, 0x00), rgb_of(0xff, 0x88, 0x00), rgb_of(0xff, 0xee, 0x00), rgb_of(0x00, 0xcc, 0x44), rgb_of(0x00, 0x88, 0xff), rgb_of(0x88, 0x00, 0xff)]);
    }
    if q == "matrix"@ {
        assert(q.len() == 6 && q[0] == 'm' && q[1] == 'a');
        assert(preset_table(q).unwrap() =~= seq![0x003b00u32, 0x00ff41u32]);
        assert(seq![0x003b00u32, 0x00ff41u32].map_values(|n: u32| unpack(n)) =~= seq![rgb_of(0x00, 0x3b, 0x00), rgb_of(0x00, 0xff, 0x41)]);
    }
    if q == "flamingo"@ {
        assert(q.len() == 8 && q[0] == 'f' && q[1] == 'l');
        assert(preset_table(q).unwrap() =~= seq![0xf093fbu32, 0xf5576cu32]);
        assert(seq![0xf093fbu32, 0xf5576cu32].map_values(|n: u32| unpack(n)) =~= seq![rgb_of(0xf0, 0x93, 0xfb), rgb_of(0xf5, 0x57, 0x6c)]);
    }
    if q == "mono"@ {
        assert(q.len() == 4 && q[0] == 'm' && q[1] == 'o');
        assert(preset_table(q).unwrap() =~= seq![0xffffffu32, 0x888888u32]);
        assert(seq![0xffffffu32, 0x888888u32].map_values(|n: u32| unpack(n)) =~= seq![rgb_of(0xff, 0xff, 0xff), rgb_of(0x88, 0x88, 0x88)]);
    }
    if q == "aurora"@ {
        assert(q.len() == 6 && q[0] == 'a' && q[1] == 'u');
        assert(preset_table(q).unwrap() =~= seq![0x00c9a7u32, 0x3ec1d3u32, 0x845ec2u32]);
        assert(seq![0x00c9a7u32, 0x3ec1d3u32, 0x845ec2u32].map_values(|n: u32| unpack(n)) =~= seq![rgb_of(0x00, 0xc9, 0xa7), rgb_of(0x3e, 0xc1, 0xd3), rgb_of(0x84, 0x5e, 0xc2)]);
    }
}

/// The axis along which the gradient sweeps across the banner.
#[derive(Clone, Copy, Debug, PartialEq, Eq, Structural)]
pub enum Axis {
    Horizontal,
    Vertical,
    Diagonal,
    /// Outward from the center of the banner.
    Radial,
    /// Around the center of the banner.
    Conic,
}

/// The axis a lower-cased name selects.
pub open spec fn axis_named(q: Seq<char>) -> Option<Axis> {
    if q == "horizontal"@ || q == "h"@ {
        Some(Axis::Horizontal)
    } else if q == "vertical"@ || q == "v"@ {
        Some(Axis::Vertical)
    } else if q == "diagonal"@ || q == "d"@ {
        Some(Axis::Diagonal)
    } else if q == "radial"@ {
        Some(Axis::Radial)
    } else if q == "conic"@ {
        Some(Axis::Conic)
    } else {
        None
    }
}

/// What `Axis::parse` answers for `s` (names are case-insensitive).
pub open spec fn parse_axis(s: Seq<char>) -> Result<Axis, Seq<char>> {
    match axis_named(lower(s)) {
        Some(a) => Ok(a),
        None => Err("unknown direction: "@ + s + " (horizontal|vertical|diagonal|radial|conic)"@),
    }
}

impl Axis {
    /// Parse a direction name: `horizontal`, `vertical` or `diagonal` (or
    /// their first letters), `radial` or `conic`.
    pub fn parse(s: &str) -> (res: Result<Axis, String>)
        ensures
            res_view(res) == parse_axis(s@),
    {
        let q = lower_chars(s);
        if eq_lit(&q, "horizontal") || eq_lit(&q, "h") {
            Ok(Axis::Horizontal)
        } else if eq_lit(&q, "vertical") || eq_lit(&q, "v") {
            Ok(Axis::Vertical)
        } else if eq_lit(&q, "diagonal") || eq_lit(&q, "d") {
            Ok(Axis::Diagonal)
        } else if eq_lit(&q, "radial") {
            Ok(Axis::Radial)
        } else if eq_lit(&q, "conic") {
            Ok(Axis::Conic)
        } else {
            let mut e = String::from_str("unknown direction: ");
            e.append(s);
            e.append(" (horizontal|vertical|diagonal|radial|conic)");
            Err(e)
        }
    }
}

/// The direction every name selects, whatever its case: `horizontal` or
/// `h`, `vertical` or `v`, `diagonal` or `d`, `radial` and `conic`; any other
/// name is refused.
pub proof fn lemma_axis_table(s: Seq<char>)
    ensures
        (lower(s) == "horizontal"@ || lower(s) == "h"@) ==> parse_axis(s) == Ok::<Axis, Seq<char>>(Axis::Horizontal),
        (lower(s) == "vertical"@ || lower(s) == "v"@) ==> parse_axis(s) == Ok::<Axis, Seq<char>>(Axis::Vertical),
        (lower(s) == "diagonal"@ || lower(s) == "d"@) ==> parse_axis(s) == Ok::<Axis, Seq<char>>(Axis::Diagonal),
        lower(s) == "radial"@ ==> parse_axis(s) == Ok::<Axis, Seq<char>>(Axis::Radial),
        lower(s) == "conic"@ ==> parse_axis(s) == Ok::<Axis, Seq<char>>(Axis::Conic),
        lower(s) != "horizontal"@ && lower(s) != "h"@ && lower(s) != "vertical"@ && lower(s) != "v"@ && lower(s) != "diagonal"@ && lower(s) != "d"@ && lower(s) != "radial"@ && lower(s) != "conic"@ ==> parse_axis(s) is Err,
{
    reveal_strlit("horizontal");
    reveal_strlit("h");
    reveal_strlit("vertical");
    reveal_strlit("v");
    reveal_strlit("diagonal");
    reveal_strlit("d");
    reveal_strlit("radial");
    reveal_strlit("conic");
    let q = lower(s);
    if q == "horizontal"@ {
        assert(q.len() == 10 && q[0] == 'h');
    }
    if q == "h"@ {
        assert(q.len() == 1 && q[0] == 'h');
    }
    if q == "vertical"@ {
        assert(q.len() == 8 && q[0] == 'v');
    }
    if q == "v"@ {
        assert(q.len() == 1 && q[0] == 'v');
    }
    if q == "diagonal"@ {
        assert(q.len() == 8 && q[0] == 'd');
    }
    if q == "d"@ {
        assert(q.len() == 1 && q[0] == 'd');
    }
    if q == "radial"@ {
        assert(q.len() == 6 && q[0] == 'r');
    }
    if q == "conic"@ {
        assert(q.len() == 5 && q[0] == 'c');
    }
}

} // verus!
