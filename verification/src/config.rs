//! Default options from config files, and how two configs merge.
//!
//! Two files are read and merged, lowest precedence first: the user config
//! and the project config. Command-line flags then override both. Every
//! field is optional. Reading and parsing the files is the application's
//! part; this module holds the settings and the merge.
use vstd::prelude::*;
use crate::themes::Theme;
use crate::strs::{eq_lit, to_chars};

verus! {

/// Named entries with distinct names, kept in a vector.
pub open spec fn keys_unique<V>(l: Seq<(String, V)>) -> bool {
    forall|i: int, j: int| 0 <= i < l.len() && 0 <= j < l.len() && i != j ==> (#[trigger] l[i]).0@ != (#[trigger] l[j]).0@
}

/// The map from name to value that a list of named entries stands for.
pub open spec fn entries_map<V>(l: Seq<(String, V)>) -> Map<Seq<char>, V>
    decreases l.len(),
{
    if l.len() == 0 {
        Map::empty()
    } else {
        entries_map(l.drop_first()).insert(l[0].0@, l[0].1)
    }
}

proof fn lemma_entries_dom<V>(l: Seq<(String, V)>, k: Seq<char>)
    ensures
        entries_map(l).contains_key(k) <==> exists|i: int| 0 <= i < l.len() && (#[trigger] l[i]).0@ == k,
    decreases l.len(),
{
    if l.len() > 0 {
        lemma_entries_dom(l.drop_first(), k);
        if entries_map(l).contains_key(k) && l[0].0@ != k {
            let i = choose|i: int| 0 <= i < l.drop_first().len() && (#[trigger] l.drop_first()[i]).0@ == k;
            assert(l[i + 1] == l.drop_first()[i]);
        }
        if exists|i: int| 0 <= i < l.len() && (#[trigger] l[i]).0@ == k {
            let i = choose|i: int| 0 <= i < l.len() && (#[trigger] l[i]).0@ == k;
            if i > 0 {
                assert(l.drop_first()[i - 1] == l[i]);
            }
        }
    }
}

proof fn lemma_entries_push<V>(l: Seq<(String, V)>, e: (String, V))
    requires
        forall|i: int| 0 <= i < l.len() ==> (#[trigger] l[i]).0@ != e.0@,
    ensures
        entries_map(l.push(e)) == entries_map(l).insert(e.0@, e.1),
    decreases l.len(),
{
    if l.len() == 0 {
        assert(l.push(e).drop_first() =~= l);
    } else {
        let rest = l.drop_first();
        assert forall|i: int| 0 <= i < rest.len() implies (#[trigger] rest[i]).0@ != e.0@ by {
            assert(rest[i] == l[i + 1]);
        }
        lemma_entries_push(rest, e);
        assert(l.push(e).drop_first() =~= rest.push(e));
        assert(l.push(e)[0] == l[0]);
        assert(l[0].0@ != e.0@);
        assert(entries_map(l.push(e)) =~= entries_map(l).insert(e.0@, e.1));
    }
}

proof fn lemma_entries_update<V>(l: Seq<(String, V)>, i: int, e: (String, V))
    requires
        keys_unique(l),
        0 <= i < l.len(),
        l[i].0@ == e.0@,
    ensures
        entries_map(l.update(i, e)) == entries_map(l).insert(e.0@, e.1),
    decreases l.len(),
{
    let rest = l.drop_first();
    if i == 0 {
        assert(l.update(0, e).drop_first() =~= rest);
        assert(entries_map(l.update(i, e)) =~= entries_map(l).insert(e.0@, e.1));
    } else {
        assert forall|a: int, b: int| 0 <= a < rest.len() && 0 <= b < rest.len() && a != b implies (#[trigger] rest[a]).0@ != (#[trigger] rest[b]).0@ by {
            assert(rest[a] == l[a + 1]);
            assert(rest[b] == l[b + 1]);
        }
        assert(rest[i - 1] == l[i]);
        lemma_entries_update(rest, i - 1, e);
        assert(l.update(i, e).drop_first() =~= rest.update(i - 1, e));
        assert(l.update(i, e)[0] == l[0]);
        assert(l[0].0@ != l[i].0@);
        assert(entries_map(l.update(i, e)) =~= entries_map(l).insert(e.0@, e.1));
    }
}

proof fn lemma_entries_first<V>(l: Seq<(String, V)>, k: Seq<char>, i: int)
    requires
        0 <= i < l.len(),
        l[i].0@ == k,
        forall|j: int| 0 <= j < i ==> (#[trigger] l[j]).0@ != k,
    ensures
        entries_map(l).contains_key(k),
        entries_map(l)[k] == l[i].1,
    decreases i,
{
    if i > 0 {
        let rest = l.drop_first();
        assert forall|j: int| 0 <= j < i - 1 implies (#[trigger] rest[j]).0@ != k by {
            assert(rest[j] == l[j + 1]);
        }
        assert(l[0].0@ != k);
        lemma_entries_first(rest, k, i - 1);
    }
}

/// Where the entry named `name` stands, if there is one. The map a list
/// stands for holds the value of that entry.
pub fn entry_index<V>(l: &Vec<(String, V)>, name: &str) -> (r: Option<usize>)
    ensures
        r matches Some(i) ==> i < l@.len() && l@[i as int].0@ == name@
            && entries_map(l@).contains_key(name@) && entries_map(l@)[name@] == l@[i as int].1,
        r is None ==> !entries_map(l@).contains_key(name@),
{
    for i in 0..l.len()
        invariant
            forall|j: int| 0 <= j < i ==> (#[trigger] l@[j]).0@ != name@,
    {
        let key = to_chars(l[i].0.as_str());
        if eq_lit(&key, name) {
            proof {
                lemma_entries_first(l@, name@, i as int);
            }
            return Some(i);
        }
    }
    proof {
        lemma_entries_dom(l@, name@);
    }
    None
}

/// Insert or replace the entry named `name`.
pub fn insert_entry<V>(l: &mut Vec<(String, V)>, name: String, value: V)
    requires
        keys_unique(old(l)@),
    ensures
        keys_unique(final(l)@),
        entries_map(final(l)@) == entries_map(old(l)@).insert(name@, value),
{
    let mut i: usize = 0;
    while i < l.len()
        invariant
            keys_unique(l@),
            l@ == old(l)@,
            i <= l@.len(),
            forall|j: int| 0 <= j < i ==> (#[trigger] l@[j]).0@ != name@,
        decreases l@.len() - i,
    {
        if l[i].0 == name {
            let ghost k = name@;
            proof {
                lemma_entries_update(l@, i as int, (name, value));
            }
            let ghost before = l@;
            l.set(i, (name, value));
            assert(l@ == before.update(i as int, (name, value)));
            assert forall|a: int, b: int| 0 <= a < l@.len() && 0 <= b < l@.len() && a != b implies (#[trigger] l@[a]).0@ != (#[trigger] l@[b]).0@ by {
                if a == i {
                    assert(before[b].0@ != before[a].0@);
                } else if b == i {
                    assert(before[b].0@ != before[a].0@);
                }
            }
            return;
        }
        i = i + 1;
    }
    proof {
        lemma_entries_push(l@, (name, value));
    }
    let ghost before = l@;
    l.push((name, value));
    assert forall|a: int, b: int| 0 <= a < l@.len() && 0 <= b < l@.len() && a != b implies (#[trigger] l@[a]).0@ != (#[trigger] l@[b]).0@ by {
        if a < before.len() && b < before.len() {
            assert(l@[a] == before[a]);
            assert(l@[b] == before[b]);
        } else if a < before.len() {
            assert(l@[a] == before[a]);
        } else {
            assert(l@[b] == before[b]);
        }
    }
}

/// Every entry of `other` merged over `l`, entries of `other` winning.
pub fn merge_entries<V>(l: &mut Vec<(String, V)>, other: Vec<(String, V)>)
    requires
        keys_unique(old(l)@),
        keys_unique(other@),
    ensures
        keys_unique(final(l)@),
        entries_map(final(l)@) == entries_map(old(l)@).union_prefer_right(entries_map(other@)),
{
    let mut rest = other;
    let ghost all = other@;
    while rest.len() > 0
        invariant
            keys_unique(l@),
            keys_unique(all),
            rest@ == all.take(rest@.len() as int),
            rest@.len() <= all.len(),
            entries_map(old(l)@).union_prefer_right(entries_map(all)) == entries_map(l@).union_prefer_right(
                entries_map(rest@),
            ),
        decreases rest@.len(),
    {
        let ghost before_rest = rest@;
        let ghost before_l = l@;
        let (name, value) = rest.pop().unwrap();
        let ghost k = name@;
        assert(rest@ == before_rest.drop_last());
        assert(before_rest.last() == (name, value));
        proof {
            assert forall|i: int| 0 <= i < rest@.len() implies (#[trigger] rest@[i]).0@ != k by {
                assert(rest@[i] == all[i]);
                assert(before_rest.last() == all[before_rest.len() - 1]);
            }
            lemma_entries_push(rest@, (name, value));
            assert(rest@.push((name, value)) =~= before_rest);
        }
        insert_entry(l, name, value);
        proof {
            assert(rest@ =~= all.take(rest@.len() as int));
            assert(!entries_map(rest@).contains_key(k)) by {
                lemma_entries_dom(rest@, k);
            }
            assert(entries_map(before_l).union_prefer_right(entries_map(before_rest)) =~= entries_map(l@).union_prefer_right(entries_map(rest@)));
        }
    }
    proof {
        assert(entries_map(rest@) =~= Map::<Seq<char>, V>::empty());
        assert(entries_map(l@).union_prefer_right(entries_map(rest@)) =~= entries_map(l@));
        assert(all.take(all.len() as int) =~= all);
        assert(rest@.len() == 0);
    }
}

/// The value a later (higher-precedence) setting leaves: `b` when set,
/// otherwise `a`.
pub open spec fn overlay<T>(a: Option<T>, b: Option<T>) -> Option<T> {
    if b is Some {
        b
    } else {
        a
    }
}

fn pick<T>(a: Option<T>, b: Option<T>) -> (r: Option<T>)
    ensures
        r == overlay(a, b),
{
    if b.is_some() {
        b
    } else {
        a
    }
}


/// Default options loaded from config files. Absent fields stay `None` and
/// fall back to the built-in defaults. `angle_bits` holds the sweep angle
/// (degrees, an `f32`) by its IEEE-754 bit pattern. `gradients` maps names
/// to lists of hex stops and `themes` names to option bundles; each holds
/// every name at most once.
pub struct Config {
    pub gradient: Option<String>,
    pub colors: Option<String>,
    pub font: Option<String>,
    pub direction: Option<String>,
    pub align: Option<String>,
    pub color_by: Option<String>,
    pub interpolate: Option<String>,
    pub angle_bits: Option<u32>,
    pub reverse: Option<bool>,
    pub cycle: Option<u32>,
    pub border: Option<String>,
    pub padding: Option<usize>,
    pub pad_x: Option<usize>,
    pub pad_y: Option<usize>,
    pub border_color: Option<String>,
    pub background: Option<String>,
    pub shadow: Option<bool>,
    pub shadow_color: Option<String>,
    pub outline: Option<bool>,
    pub outline_color: Option<String>,
    pub scale: Option<usize>,
    pub title: Option<String>,
    pub margin: Option<usize>,
    pub margin_x: Option<usize>,
    pub min_width: Option<usize>,
    pub wrap: Option<usize>,
    pub width: Option<usize>,
    pub animate: Option<String>,
    pub fps: Option<u32>,
    pub format: Option<String>,
    pub gradients: Vec<(String, Vec<String>)>,
    pub themes: Vec<(String, Theme)>,
}

impl Config {
    /// Named gradients and themes hold each name once.
    pub open spec fn wf(self) -> bool {
        keys_unique(self.gradients@) && keys_unique(self.themes@)
    }

    /// No option set and no named gradient or theme.
    pub open spec fn is_empty(self) -> bool {
        &&& self.gradient is None
        &&& self.colors is None
        &&& self.font is None
        &&& self.direction is None
        &&& self.align is None
        &&& self.color_by is None
        &&& self.interpolate is None
        &&& self.angle_bits is None
        &&& self.reverse is None
        &&& self.cycle is None
        &&& self.border is None
        &&& self.padding is None
        &&& self.pad_x is None
        &&& self.pad_y is None
        &&& self.border_color is None
        &&& self.background is None
        &&& self.shadow is None
        &&& self.shadow_color is None
        &&& self.outline is None
        &&& self.outline_color is None
        &&& self.scale is None
        &&& self.title is None
        &&& self.margin is None
        &&& self.margin_x is None
        &&& self.min_width is None
        &&& self.wrap is None
        &&& self.width is None
        &&& self.animate is None
        &&& self.fps is None
        &&& self.format is None
        &&& self.gradients@.len() == 0
        &&& self.themes@.len() == 0
    }

    /// A config that sets nothing.
    pub fn empty() -> (c: Config)
        ensures
            c.is_empty(),
            c.wf(),
    {
        Config {
            gradient: None,
            colors: None,
            font: None,
            direction: None,
            align: None,
            color_by: None,
            interpolate: None,
            angle_bits: None,
            reverse: None,
            cycle: None,
            border: None,
            padding: None,
            pad_x: None,
            pad_y: None,
            border_color: None,
            background: None,
            shadow: None,
            shadow_color: None,
            outline: None,
            outline_color: None,
            scale: None,
            title: None,
            margin: None,
            margin_x: None,
            min_width: None,
            wrap: None,
            width: None,
            animate: None,
            fps: None,
            format: None,
            gradients: Vec::new(),
            themes: Vec::new(),
        }
    }

    /// Overlay `other` (higher precedence) onto `self`: every option that
    /// `other` sets wins; named gradients and themes merge per name, with
    /// `other`'s entries winning.
    pub fn merge(&mut self, other: Config)
        requires
            old(self).wf(),
            other.wf(),
        ensures
            final(self).wf(),
            final(self).gradient == overlay(old(self).gradient, other.gradient),
            final(self).colors == overlay(old(self).colors, other.colors),
            final(self).font == overlay(old(self).font, other.font),
            final(self).direction == overlay(old(self).direction, other.direction),
            final(self).align == overlay(old(self).align, other.align),
            final(self).color_by == overlay(old(self).color_by, other.color_by),
            final(self).interpolate == overlay(old(self).interpolate, other.interpolate),
            final(self).angle_bits == overlay(old(self).angle_bits, other.angle_bits),
            final(self).reverse == overlay(old(self).reverse, other.reverse),
            final(self).cycle == overlay(old(self).cycle, other.cycle),
            final(self).border == overlay(old(self).border, other.border),
            final(self).padding == overlay(old(self).padding, other.padding),
            final(self).pad_x == overlay(old(self).pad_x, other.pad_x),
            final(self).pad_y == overlay(old(self).pad_y, other.pad_y),
            final(self).border_color == overlay(old(self).border_color, other.border_color),
            final(self).background == overlay(old(self).background, other.background),
            final(self).shadow == overlay(old(self).shadow, other.shadow),
            final(self).shadow_color == overlay(old(self).shadow_color, other.shadow_color),
            final(self).outline == overlay(old(self).outline, other.outline),
            final(self).outline_color == overlay(old(self).outline_color, other.outline_color),
            final(self).scale == overlay(old(self).scale, other.scale),
            final(self).title == overlay(old(self).title, other.title),
            final(self).margin == overlay(old(self).margin, other.margin),
            final(self).margin_x == overlay(old(self).margin_x, other.margin_x),
            final(self).min_width == overlay(old(self).min_width, other.min_width),
            final(self).wrap == overlay(old(self).wrap, other.wrap),
            final(self).width == overlay(old(self).width, other.width),
            final(self).animate == overlay(old(self).animate, other.animate),
            final(self).fps == overlay(old(self).fps, other.fps),
            final(self).format == overlay(old(self).format, other.format),
            entries_map(final(self).gradients@) == entries_map(old(self).gradients@).union_prefer_right(
                entries_map(other.gradients@),
            ),
            entries_map(final(self).themes@) == entries_map(old(self).themes@).union_prefer_right(
                entries_map(other.themes@),
            ),
    {
        self.gradient = pick(self.gradient.take(), other.gradient);
        self.colors = pick(self.colors.take(), other.colors);
        self.font = pick(self.font.take(), other.font);
        self.direction = pick(self.direction.take(), other.direction);
        self.align = pick(self.align.take(), other.align);
        self.color_by = pick(self.color_by.take(), other.color_by);
        self.interpolate = pick(self.interpolate.take(), other.interpolate);
        self.angle_bits = pick(self.angle_bits.take(), other.angle_bits);
        self.reverse = pick(self.reverse.take(), other.reverse);
        self.cycle = pick(self.cycle.take(), other.cycle);
        self.border = pick(self.border.take(), other.border);
        self.padding = pick(self.padding.take(), other.padding);
        self.pad_x = pick(self.pad_x.take(), other.pad_x);
        self.pad_y = pick(self.pad_y.take(), other.pad_y);
        self.border_color = pick(self.border_color.take(), other.border_color);
        self.background = pick(self.background.take(), other.background);
        self.shadow = pick(self.shadow.take(), other.shadow);
        self.shadow_color = pick(self.shadow_color.take(), other.shadow_color);
        self.outline = pick(self.outline.take(), other.outline);
        self.outline_color = pick(self.outline_color.take(), other.outline_color);
        self.scale = pick(self.scale.take(), other.scale);
        self.title = pick(self.title.take(), other.title);
        self.margin = pick(self.margin.take(), other.margin);
        self.margin_x = pick(self.margin_x.take(), other.margin_x);
        self.min_width = pick(self.min_width.take(), other.min_width);
        self.wrap = pick(self.wrap.take(), other.wrap);
        self.width = pick(self.width.take(), other.width);
        self.animate = pick(self.animate.take(), other.animate);
        self.fps = pick(self.fps.take(), other.fps);
        self.format = pick(self.format.take(), other.format);
        merge_entries(&mut self.gradients, other.gradients);
        merge_entries(&mut self.themes, other.themes);
    }
}

impl Default for Config {
    fn default() -> (c: Config)
        ensures
            c.is_empty(),
    {
        Config::empty()
    }
}


/// Merging with a config that sets nothing leaves every option as it was;
/// and overlaying is associative, so merging the user config, then the
/// project config, then flags gives the same result however the merges are
/// grouped.
pub proof fn lemma_overlay_laws<T>(a: Option<T>, b: Option<T>, c: Option<T>)
    ensures
        overlay(a, None::<T>) == a,
        overlay(None::<T>, b) == b,
        overlay(overlay(a, b), c) == overlay(a, overlay(b, c)),
{
}

/// Merging named entries with an empty list leaves them unchanged, and
/// per-name merging is associative.
pub proof fn lemma_entry_merge_laws<V>(a: Map<Seq<char>, V>, b: Map<Seq<char>, V>, c: Map<Seq<char>, V>)
    ensures
        a.union_prefer_right(Map::empty()) == a,
        a.union_prefer_right(b).union_prefer_right(c) == a.union_prefer_right(b.union_prefer_right(c)),
{
    assert(a.union_prefer_right(Map::empty()) =~= a);
    assert(a.union_prefer_right(b).union_prefer_right(c) =~= a.union_prefer_right(b.union_prefer_right(c)));
}

/// A commented starter config, written by `sigil init`.
pub const STARTER: &'static str = "\
# sigil config — https://github.com/moose25/sigil
# Every option is optional; CLI flags override these. Uncomment to use.

# --- color ---
# gradient    = \"vaporwave\"      # a preset, or define one under [gradients]
# colors      = \"#ff5f6d,#ffc371\" # custom stops (overrides gradient)
# interpolate = \"oklab\"          # oklab | rgb | hsl
# color_by    = \"banner\"         # banner | line | char
# direction   = \"horizontal\"     # horizontal | vertical | diagonal
# angle       = 45                # degrees (overrides direction)
# reverse     = false
# cycle       = 1                 # repeat the palette N times

# --- font & layout ---
# font    = \"ansishadow\"
# align   = \"center\"             # left | center | right
# margin  = 0                     # blank lines above/below
# width   = 80                    # alignment width (default: terminal)
# wrap    = 60                    # word-wrap long text to fit N columns

# --- frame & effects ---
# border       = \"round\"         # none | round | single | double | heavy | ascii
# padding      = 1
# border_color = \"#8a2be2\"
# title        = \"my project\"    # caption in the top border
# background   = \"#0d1117\"
# shadow       = false
# shadow_color = \"#1c1c22\"
# outline      = false
# outline_color = \"#0a0a0c\"

# --- output ---
# format  = \"term\"              # term | ansi | raw | rust | go | python | shell | svg | html | png | json
# animate = \"none\"              # none | sweep | type | pulse | scroll
# fps     = 30
# scale   = 1                    # PNG resolution multiplier (1-10)

# Your own named gradients — use with `-g brand`:
# [gradients]
# brand = [\"#0f2027\", \"#203a43\", \"#2c5364\"]

# Your own themes — use with `--theme mine`:
# [themes.mine]
# font = \"slant\"
# gradient = \"gold\"
# border = \"double\"
# shadow = true
";

} // verus!
