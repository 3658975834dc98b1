//! Themes: named bundles of coordinated options (font, gradient, border,
//! background, ...) applied in one shot.
//!
//! A theme sits between explicit flags and config in precedence:
//! flag > theme > config > built-in default. Every field is optional, so a
//! theme only sets the parts it cares about.
use vstd::prelude::*;
use crate::strs::{lower, lower_chars, eq_lit};

verus! {

/// A coordinated look. All fields optional; unset ones fall through.
/// `angle_bits` holds the sweep angle (degrees, an `f32`) by its IEEE-754
/// bit pattern.
#[derive(Clone, Debug)]
pub struct Theme {
    pub font: Option<String>,
    pub gradient: Option<String>,
    pub colors: Option<String>,
    pub direction: Option<String>,
    pub angle_bits: Option<u32>,
    pub reverse: Option<bool>,
    pub cycle: Option<u32>,
    pub border: Option<String>,
    pub padding: Option<usize>,
    pub border_color: Option<String>,
    pub background: Option<String>,
    pub align: Option<String>,
}

/// An optional string taken by its characters.
pub open spec fn opt_view(o: Option<String>) -> Option<Seq<char>> {
    match o {
        Some(s) => Some(s@),
        None => None,
    }
}

impl Theme {
    /// No field set.
    pub open spec fn is_empty(self) -> bool {
        &&& self.font is None
        &&& self.gradient is None
        &&& self.colors is None
        &&& self.direction is None
        &&& self.angle_bits is None
        &&& self.reverse is None
        &&& self.cycle is None
        &&& self.border is None
        &&& self.padding is None
        &&& self.border_color is None
        &&& self.background is None
        &&& self.align is None
    }
}

impl Default for Theme {
    fn default() -> (t: Theme)
        ensures
            t.is_empty(),
    {
        Theme {
            font: None,
            gradient: None,
            colors: None,
            direction: None,
            angle_bits: None,
            reverse: None,
            cycle: None,
            border: None,
            padding: None,
            border_color: None,
            background: None,
            align: None,
        }
    }
}

/// A built-in theme's font, gradient, border and optional background.
pub struct Look {
    pub font: Seq<char>,
    pub gradient: Seq<char>,
    pub border: Seq<char>,
    pub background: Option<Seq<char>>,
}

/// Names of all built-in themes, in display order.
pub open spec fn builtin_name_list() -> Seq<Seq<char>> {
    seq!["cyberpunk"@, "retro"@, "terminal"@, "fire"@, "ocean"@, "gold"@]
}

/// The look a lower-cased built-in theme name selects.
pub open spec fn builtin_look(q: Seq<char>) -> Option<Look> {
    if q == "cyberpunk"@ {
        Some(Look { font: "ansishadow"@, gradient: "cyberpunk"@, border: "heavy"@, background: Some("#0d0221"@) })
    } else if q == "retro"@ {
        Some(Look { font: "big"@, gradient: "vaporwave"@, border: "double"@, background: Some("#160042"@) })
    } else if q == "terminal"@ {
        Some(Look { font: "standard"@, gradient: "matrix"@, border: "single"@, background: Some("#001000"@) })
    } else if q == "fire"@ {
        Some(Look { font: "slant"@, gradient: "fire"@, border: "none"@, background: None })
    } else if q == "ocean"@ {
        Some(Look { font: "small"@, gradient: "ocean"@, border: "round"@, background: Some("#031420"@) })
    } else if q == "gold"@ {
        Some(Look { font: "ansishadow"@, gradient: "gold"@, border: "double"@, background: Some("#1a1400"@) })
    } else {
        None
    }
}

/// The theme sets exactly the look's font, gradient, border and background.
pub open spec fn has_look(t: Theme, l: Look) -> bool {
    &&& opt_view(t.font) == Some(l.font)
    &&& opt_view(t.gradient) == Some(l.gradient)
    &&& opt_view(t.border) == Some(l.border)
    &&& opt_view(t.background) == l.background
    &&& t.colors is None
    &&& t.direction is None
    &&& t.angle_bits is None
    &&& t.reverse is None
    &&& t.cycle is None
    &&& t.padding is None
    &&& t.border_color is None
    &&& t.align is None
}

fn look(font: &str, gradient: &str, border: &str, background: Option<&str>) -> (t: Theme)
    ensures
        opt_view(t.font) == Some(font@),
        opt_view(t.gradient) == Some(gradient@),
        opt_view(t.border) == Some(border@),
        opt_view(t.background) == (match background {
            Some(b) => Some(b@),
            None => None::<Seq<char>>,
        }),
        t.colors is None && t.direction is None && t.angle_bits is None && t.reverse is None,
        t.cycle is None && t.padding is None && t.border_color is None && t.align is None,
{
    Theme {
        font: Some(String::from_str(font)),
        gradient: Some(String::from_str(gradient)),
        colors: None,
        direction: None,
        angle_bits: None,
        reverse: None,
        cycle: None,
        border: Some(String::from_str(border)),
        padding: None,
        border_color: None,
        background: match background {
            Some(b) => Some(String::from_str(b)),
            None => None,
        },
        align: None,
    }
}

/// A built-in theme by name (case-insensitive), or `None`.
pub fn builtin(name: &str) -> (r: Option<Theme>)
    ensures
        r matches Some(t) ==> builtin_look(lower(name@)) matches Some(l) && has_look(t, l),
        r is None ==> builtin_look(lower(name@)) is None,
{
    let q = lower_chars(name);
    if eq_lit(&q, "cyberpunk") {
        Some(look("ansishadow", "cyberpunk", "heavy", Some("#0d0221")))
    } else if eq_lit(&q, "retro") {
        Some(look("big", "vaporwave", "double", Some("#160042")))
    } else if eq_lit(&q, "terminal") {
        Some(look("standard", "matrix", "single", Some("#001000")))
    } else if eq_lit(&q, "fire") {
        Some(look("slant", "fire", "none", None))
    } else if eq_lit(&q, "ocean") {
        Some(look("small", "ocean", "round", Some("#031420")))
    } else if eq_lit(&q, "gold") {
        Some(look("ansishadow", "gold", "double", Some("#1a1400")))
    } else {
        None
    }
}

/// Names of all built-in themes, in display order.
pub fn builtin_names() -> (v: Vec<&'static str>)
    ensures
        v@.map_values(|s: &str| s@) == builtin_name_list(),
{
    let v = vec!["cyberpunk", "retro", "terminal", "fire", "ocean", "gold"];
    assert(v@.map_values(|s: &str| s@) =~= builtin_name_list());
    v
}

/// Every listed built-in theme resolves, and sets a font and a gradient.
pub proof fn lemma_all_builtins_resolve(i: int)
    requires
        0 <= i < builtin_name_list().len(),
    ensures
        builtin_look(lower(builtin_name_list()[i])) is Some,
{
    reveal_strlit("cyberpunk");
    reveal_strlit("retro");
    reveal_strlit("terminal");
    reveal_strlit("fire");
    reveal_strlit("ocean");
    reveal_strlit("gold");
    let n = builtin_name_list()[i];
    assert(lower(n) =~= n);
}

/// The look of every built-in theme, whatever the case of its name:
/// cyberpunk, retro, terminal, fire, ocean and gold each set their own
/// font, gradient, border and background; any other name is no theme.
pub proof fn lemma_builtin_table(name: Seq<char>)
    ensures
        lower(name) == "cyberpunk"@ ==> builtin_look(lower(name)) == Some(
            (Look { font: "ansishadow"@, gradient: "cyberpunk"@, border: "heavy"@, background: Some("#0d0221"@) }),
        ),
        lower(name) == "retro"@ ==> builtin_look(lower(name)) == Some(
            (Look { font: "big"@, gradient: "vaporwave"@, border: "double"@, background: Some("#160042"@) }),
        ),
        lower(name) == "terminal"@ ==> builtin_look(lower(name)) == Some(
            (Look { font: "standard"@, gradient: "matrix"@, border: "single"@, background: Some("#001000"@) }),
        ),
        lower(name) == "fire"@ ==> builtin_look(lower(name)) == Some(
            (Look { font: "slant"@, gradient: "fire"@, border: "none"@, background: None }),
        ),
        lower(name) == "ocean"@ ==> builtin_look(lower(name)) == Some(
            (Look { font: "small"@, gradient: "ocean"@, border: "round"@, background: Some("#031420"@) }),
        ),
        lower(name) == "gold"@ ==> builtin_look(lower(name)) == Some(
            (Look { font: "ansishadow"@, gradient: "gold"@, border: "double"@, background: Some("#1a1400"@) }),
        ),
        lower(name) != "cyberpunk"@ && lower(name) != "retro"@ && lower(name) != "terminal"@ && lower(name) != "fire"@ && lower(name) != "ocean"@ && lower(name) != "gold"@ ==> builtin_look(lower(name)) is None,
{
    reveal_strlit("cyberpunk");
    reveal_strlit("retro");
    reveal_strlit("terminal");
    reveal_strlit("fire");
    reveal_strlit("ocean");
    reveal_strlit("gold");
    let q = lower(name);
    if q == "cyberpunk"@ {
        assert(q.len() == 9 && q[0] == 'c');
    }
    if q == "retro"@ {
        assert(q.len() == 5 && q[0] == 'r');
    }
    if q == "terminal"@ {
        assert(q.len() == 8 && q[0] == 't');
    }
    if q == "fire"@ {
        assert(q.len() == 4 && q[0] == 'f');
    }
    if q == "ocean"@ {
        assert(q.len() == 5 && q[0] == 'o');
    }
    if q == "gold"@ {
        assert(q.len() == 4 && q[0] == 'g');
    }
}

} // verus!
