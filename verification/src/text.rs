//! Input-text sanitization.
//!
//! FIGlet fonts only cover printable ASCII (plus a few Latin-1 letters), so
//! input is folded down to renderable ASCII: accented Latin letters lose their
//! marks, a handful of ligatures are spelled out, and anything still
//! unrenderable becomes `?`.
use unicode_normalization::UnicodeNormalization;
use vstd::prelude::*;
use crate::strs::push_char;

verus! {

/// The compatibility decomposition (NFKD) of a character sequence, as the
/// `unicode-normalization` crate computes it.
pub uninterp spec fn nfkd_of(s: Seq<char>) -> Seq<char>;

/// Whether a character is a combining mark, per the `unicode-normalization`
/// crate's tables.
pub uninterp spec fn combining_mark(c: char) -> bool;

/// `UnicodeNormalization::nfkd`, collected. The contract names the result:
/// it is the NFKD form of the text and depends on the text alone; and, as
/// the crate's decomposition code shows, 7-bit ASCII never decomposes, so
/// ASCII text comes back unchanged.
#[verifier::external_body]
fn nfkd_chars(text: &str) -> (v: Vec<char>)
    ensures
        v@ == nfkd_of(text@),
        (forall|i: int| 0 <= i < text@.len() ==> (text@[i] as u32) < 0x80) ==> v@ == text@,
{
    text.nfkd().collect()
}

/// `unicode_normalization::char::is_combining_mark`. The contract names the
/// result as a property of the character alone; no ASCII character is a
/// combining mark.
#[verifier::external_body]
fn is_combining(c: char) -> (b: bool)
    ensures
        b == combining_mark(c),
        (c as u32) < 0x80 ==> !b,
{
    unicode_normalization::char::is_combining_mark(c)
}

/// Unicode `White_Space` (what `char::is_whitespace` tests).
pub open spec fn is_whitespace(c: char) -> bool {
    let u = c as u32;
    (0x09 <= u && u <= 0x0d) || u == 0x20 || u == 0x85 || u == 0xa0 || u == 0x1680 || (0x2000
        <= u && u <= 0x200a) || u == 0x2028 || u == 0x2029 || u == 0x202f || u == 0x205f || u
        == 0x3000
}

/// `char::is_whitespace`.
pub fn char_is_whitespace(c: char) -> (b: bool)
    ensures
        b == is_whitespace(c),
{
    let u = c as u32;
    (0x09 <= u && u <= 0x0d) || u == 0x20 || u == 0x85 || u == 0xa0 || u == 0x1680 || (0x2000
        <= u && u <= 0x200a) || u == 0x2028 || u == 0x2029 || u == 0x202f || u == 0x205f || u
        == 0x3000
}

/// Printable ASCII other than space (`char::is_ascii_graphic`).
pub open spec fn is_ascii_graphic(c: char) -> bool {
    '!' <= c && c <= '~'
}

/// A character a FIGlet font can render: printable ASCII or space.
pub open spec fn renderable(c: char) -> bool {
    is_ascii_graphic(c) || c == ' '
}

/// Every character of `s` is renderable.
pub open spec fn all_renderable(s: Seq<char>) -> bool {
    forall|i: int| 0 <= i < s.len() ==> renderable(#[trigger] s[i])
}

/// The ASCII spelling of a few non-decomposable Latin letters and ligatures.
pub open spec fn spelling(c: char) -> Option<Seq<char>> {
    if c == 'ß' {
        Some("ss"@)
    } else if c == 'æ' {
        Some("ae"@)
    } else if c == 'Æ' {
        Some("AE"@)
    } else if c == 'œ' {
        Some("oe"@)
    } else if c == 'Œ' {
        Some("OE"@)
    } else if c == 'ø' {
        Some("o"@)
    } else if c == 'Ø' {
        Some("O"@)
    } else if c == 'ł' {
        Some("l"@)
    } else if c == 'Ł' {
        Some("L"@)
    } else if c == 'đ' || c == 'ð' {
        Some("d"@)
    } else if c == 'Đ' || c == 'Ð' {
        Some("D"@)
    } else if c == 'þ' {
        Some("th"@)
    } else if c == 'Þ' {
        Some("TH"@)
    } else {
        None
    }
}

/// What one decomposed character becomes in the output.
pub open spec fn fold_char(c: char) -> Seq<char> {
    if combining_mark(c) {
        Seq::empty()
    } else if renderable(c) {
        seq![c]
    } else if spelling(c) is Some {
        spelling(c)->0
    } else if is_whitespace(c) {
        seq![' ']
    } else {
        seq!['?']
    }
}

/// The folding of a whole decomposed sequence.
pub open spec fn fold_all(s: Seq<char>) -> Seq<char>
    decreases s.len(),
{
    if s.len() == 0 {
        Seq::empty()
    } else {
        fold_all(s.drop_last()) + fold_char(s.last())
    }
}

/// What `sanitize` returns for `text`.
pub open spec fn sanitized(text: Seq<char>) -> Seq<char> {
    fold_all(nfkd_of(text))
}

proof fn lemma_spellings_renderable(c: char)
    ensures
        spelling(c) matches Some(r) ==> all_renderable(r),
{
    reveal_strlit("ss");
    reveal_strlit("ae");
    reveal_strlit("AE");
    reveal_strlit("oe");
    reveal_strlit("OE");
    reveal_strlit("o");
    reveal_strlit("O");
    reveal_strlit("l");
    reveal_strlit("L");
    reveal_strlit("d");
    reveal_strlit("D");
    reveal_strlit("th");
    reveal_strlit("TH");
}

/// The fold of any sequence is made of renderable characters only.
pub proof fn lemma_fold_all_renderable(s: Seq<char>)
    ensures
        all_renderable(fold_all(s)),
    decreases s.len(),
{
    if s.len() > 0 {
        lemma_fold_all_renderable(s.drop_last());
        lemma_spellings_renderable(s.last());
        let a = fold_all(s.drop_last());
        let b = fold_char(s.last());
        assert(all_renderable(b));
        assert forall|i: int| 0 <= i < (a + b).len() implies renderable(#[trigger] (a + b)[i]) by {
            if i < a.len() {
                assert((a + b)[i] == a[i]);
            } else {
                assert((a + b)[i] == b[i - a.len()]);
            }
        }
    }
}

/// Spell out a few common non-decomposable Latin letters and ligatures.
fn spell_out(c: char) -> (r: Option<&'static str>)
    ensures
        r matches Some(x) ==> spelling(c) == Some(x@),
        r is None ==> spelling(c) is None,
{
    if c == 'ß' {
        Some("ss")
    } else if c == 'æ' {
        Some("ae")
    } else if c == 'Æ' {
        Some("AE")
    } else if c == 'œ' {
        Some("oe")
    } else if c == 'Œ' {
        Some("OE")
    } else if c == 'ø' {
        Some("o")
    } else if c == 'Ø' {
        Some("O")
    } else if c == 'ł' {
        Some("l")
    } else if c == 'Ł' {
        Some("L")
    } else if c == 'đ' || c == 'ð' {
        Some("d")
    } else if c == 'Đ' || c == 'Ð' {
        Some("D")
    } else if c == 'þ' {
        Some("th")
    } else if c == 'Þ' {
        Some("TH")
    } else {
        None
    }
}

/// Fold `text` to a FIGlet-renderable ASCII string: decompose it (NFKD),
/// drop combining marks, keep printable ASCII and spaces, spell out a few
/// ligatures, turn other whitespace into a space and anything else into `?`.
pub fn sanitize(text: &str) -> (out: String)
    ensures
        out@ == sanitized(text@),
        all_renderable(out@),
        all_renderable(text@) ==> out@ == text@,
{
    let cs = nfkd_chars(text);
    let mut out = String::new();
    for i in 0..cs.len()
        invariant
            cs@ == nfkd_of(text@),
            out@ == fold_all(cs@.take(i as int)),
            all_renderable(text@) ==> cs@ == text@ && out@ == cs@.take(i as int),
    {
        let c = cs[i];
        assert(cs@.take(i + 1).drop_last() == cs@.take(i as int));
        proof {
            if all_renderable(text@) {
                assert(renderable(text@[i as int]));
            }
        }
        if is_combining(c) {
        } else if ('!' <= c && c <= '~') || c == ' ' {
            push_char(&mut out, c);
        } else if let Some(rep) = spell_out(c) {
            out.append(rep);
        } else if char_is_whitespace(c) {
            push_char(&mut out, ' ');
        } else {
            push_char(&mut out, '?');
        }
    }
    assert(cs@.take(cs@.len() as int) == cs@);
    proof {
        lemma_fold_all_renderable(cs@);
    }
    out
}



/// `s` without leading and trailing whitespace (`str::trim`).
pub open spec fn trim(s: Seq<char>) -> Seq<char>
    decreases s.len(),
{
    if s.len() > 0 && is_whitespace(s[0]) {
        trim(s.drop_first())
    } else if s.len() > 0 && is_whitespace(s.last()) {
        trim(s.drop_last())
    } else {
        s
    }
}

/// The characters of `s` without leading and trailing whitespace.
pub fn trim_chars(s: &Vec<char>) -> (t: Vec<char>)
    ensures
        t@ == trim(s@),
{
    let n = s.len();
    let mut a: usize = 0;
    assert(s@.skip(0) =~= s@);
    while a < n && char_is_whitespace(s[a])
        invariant
            a <= n,
            n == s@.len(),
            trim(s@) == trim(s@.skip(a as int)),
        decreases n - a,
    {
        assert(s@.skip(a as int)[0] == s@[a as int]);
        assert(s@.skip(a as int).drop_first() =~= s@.skip(a + 1));
        a = a + 1;
    }
    let mut b: usize = n;
    assert(s@.subrange(a as int, n as int) =~= s@.skip(a as int));
    while b > a && char_is_whitespace(s[b - 1])
        invariant
            a <= b <= n,
            n == s@.len(),
            a == n || !is_whitespace(s@[a as int]),
            trim(s@) == trim(s@.subrange(a as int, b as int)),
        decreases b,
    {
        let ghost m = s@.subrange(a as int, b as int);
        assert(m.last() == s@[b - 1]);
        assert(m.drop_last() =~= s@.subrange(a as int, b - 1));
        if a < b - 1 {
            assert(m[0] == s@[a as int]);
        } else {
            assert(m.len() == 1);
            assert(m[0] == s@[a as int]);
        }
        b = b - 1;
    }
    let mut t: Vec<char> = Vec::new();
    for i in a..b
        invariant
            a <= b <= s@.len(),
            t@ == s@.subrange(a as int, i as int),
    {
        t.push(s[i]);
    }
    proof {
        let m = s@.subrange(a as int, b as int);
        if m.len() > 0 {
            assert(m[0] == s@[a as int]);
            assert(!is_whitespace(m.last()));
        }
        assert(s@.skip(a as int).skip(0) == s@.skip(a as int));
    }
    assert(trim(s@.subrange(a as int, b as int)) == s@.subrange(a as int, b as int));
    t
}

} // verus!
