//! osu! links: recognising beatmap and beatmapset links in free text,
//! and writing links to beatmaps, beatmapsets and users.

use vstd::prelude::*;
use crate::text::{
    all_ascii, ascii_lowered, capped, char_utf8_len, chars_of, decimal, digit_char, fit_prefix, utf8_len, occurs_at, occurs_at_exec, push_capped, push_char,
    push_chars, push_signed_decimal, signed_decimal, str_eq,
};

verus! {

/// A game mode of osu!.
#[derive(Debug, Clone, Copy, PartialEq, Eq, Structural)]
pub enum GameMode {
    Osu,
    Taiko,
    Catch,
    Mania,
}

/// What a link names: a beatmapset, a single beatmap, and the mode that
/// the link selects.
#[derive(Debug, Clone, Copy, PartialEq, Eq, Structural)]
pub struct BeatmapInfo {
    pub beatmapset_id: Option<i64>,
    pub beatmap_id: Option<i64>,
    pub mode: Option<GameMode>,
}

/// Why a recognised link could not be read.
#[derive(Debug, Clone, Copy, PartialEq, Eq, Structural)]
pub enum LinkError {
    /// An id is not a number that fits in an `i64`.
    InvalidNumber,
    /// A link to one beatmap carries no `?mode=` part.
    MissingMode,
    /// A link of the old form selects a mode that does not exist.
    UnknownMode,
}

// ---------------------------------------------------------------------
// Game modes by name
// ---------------------------------------------------------------------

/// The Unicode lower-case form of a string (`str::to_lowercase`).
pub uninterp spec fn unicode_lowercase(s: Seq<char>) -> Seq<char>;

/// Calls `str::to_lowercase`. The contract names the result, and states
/// what the documentation gives for ASCII input: ASCII letters are
/// lowered and nothing else changes. Of other input nothing is stated.
#[verifier::external_body]
pub(crate) fn to_lowercase(s: &str) -> (r: String)
    ensures
        r@ == unicode_lowercase(s@),
        all_ascii(s@) ==> r@ == ascii_lowered(s@),
{
    s.to_lowercase()
}

/// The game mode that a lower-case name stands for.
pub open spec fn mode_named(l: Seq<char>) -> Option<GameMode> {
    if l == "osu"@ || l == "standard"@ || l == "std"@ || l == "osu!"@ || l == "0"@ {
        Some(GameMode::Osu)
    } else if l == "taiko"@ || l == "osu!taiko"@ || l == "1"@ {
        Some(GameMode::Taiko)
    } else if l == "mania"@ || l == "keys"@ || l == "osu!mania"@ || l == "3"@ {
        Some(GameMode::Mania)
    } else if l == "catch"@ || l == "ctb"@ || l == "fruits"@ || l == "osu!catch"@ || l == "2"@ {
        Some(GameMode::Catch)
    } else {
        None
    }
}

/// The lower-case form of a name: ASCII letters lowered for ASCII names,
/// the Unicode lower-case form for others.
pub open spec fn lowered_name(s: Seq<char>) -> Seq<char> {
    if all_ascii(s) {
        ascii_lowered(s)
    } else {
        unicode_lowercase(s)
    }
}

/// The game mode that a name stands for, whatever its case.
pub open spec fn mode_of_name(s: Seq<char>) -> Option<GameMode> {
    mode_named(lowered_name(s))
}

/// Reads a game mode from its name or number, ignoring case.
pub fn gamemode_from_string(mode: &str) -> (r: Option<GameMode>)
    ensures
        r == mode_of_name(mode@),
{
    let lowered = to_lowercase(mode);
    let l = lowered.as_str();
    if str_eq(l, "osu") || str_eq(l, "standard") || str_eq(l, "std") || str_eq(l, "osu!")
        || str_eq(l, "0") {
        Some(GameMode::Osu)
    } else if str_eq(l, "taiko") || str_eq(l, "osu!taiko") || str_eq(l, "1") {
        Some(GameMode::Taiko)
    } else if str_eq(l, "mania") || str_eq(l, "keys") || str_eq(l, "osu!mania") || str_eq(l, "3") {
        Some(GameMode::Mania)
    } else if str_eq(l, "catch") || str_eq(l, "ctb") || str_eq(l, "fruits") || str_eq(l, "osu!catch")
        || str_eq(l, "2") {
        Some(GameMode::Catch)
    } else {
        None
    }
}

/// The name under which the osu! API writes a game mode.
pub open spec fn mode_name(m: GameMode) -> Seq<char> {
    match m {
        GameMode::Osu => "osu"@,
        GameMode::Taiko => "taiko"@,
        GameMode::Catch => "fruits"@,
        GameMode::Mania => "mania"@,
    }
}

/// The name under which the osu! API writes a game mode.
pub fn mode_to_string(m: GameMode) -> (r: String)
    ensures
        r@ == mode_name(m),
{
    match m {
        GameMode::Osu => String::from_str("osu"),
        GameMode::Taiko => String::from_str("taiko"),
        GameMode::Catch => String::from_str("fruits"),
        GameMode::Mania => String::from_str("mania"),
    }
}

// ---------------------------------------------------------------------
// Character classes of the link patterns
// ---------------------------------------------------------------------

/// Whether `c` is in the `\d` class of a Unicode pattern of the `regex`
/// crate (the decimal digits of every script, Unicode category `Nd`).
pub uninterp spec fn unicode_digit(c: char) -> bool;

/// Whether `c` is a decimal digit: for ASCII, `0` to `9`; beyond ASCII, a
/// decimal digit of another script.
pub open spec fn is_unicode_digit(c: char) -> bool {
    if (c as u32) < 0x80 {
        '0' <= c && c <= '9'
    } else {
        unicode_digit(c)
    }
}

/// Matches `c` alone against `\d` with the `regex` crate. The contract
/// names the result, and states what the documented definition of `\d`
/// (Unicode category `Nd`) gives for ASCII: exactly `0` to `9`. The
/// pattern is valid, so compiling it does not fail.
#[verifier::external_body]
fn regex_digit(c: char) -> (r: bool)
    ensures
        r == unicode_digit(c),
        (c as u32) < 0x80 ==> (r <==> ('0' <= c && c <= '9')),
{
    let mut buf = [0u8; 4];
    match regex::Regex::new(r"^\d$") {
        Ok(class) => class.is_match(c.encode_utf8(&mut buf)),
        Err(_) => false,
    }
}

/// Whether `c` is a decimal digit of any script.
pub fn is_digit_char(c: char) -> (r: bool)
    ensures
        r == is_unicode_digit(c),
{
    regex_digit(c)
}

/// Whether `c` is a Unicode word character, as the `\w` of a Unicode
/// pattern (`regex_syntax::is_word_character`).
pub uninterp spec fn unicode_word_char(c: char) -> bool;

/// Whether `c` is a word character: for ASCII, a letter, a digit or `_`;
/// beyond ASCII, a Unicode word character.
pub open spec fn is_word(c: char) -> bool {
    if (c as u32) < 0x80 {
        ('a' <= c && c <= 'z') || ('A' <= c && c <= 'Z') || ('0' <= c && c <= '9') || c == '_'
    } else {
        unicode_word_char(c)
    }
}

/// Calls `regex_syntax::is_word_character`. The contract names the
/// result, and states what the definition it documents (UTS#18) gives
/// for ASCII: exactly the letters, the digits and `_` are word
/// characters. Of other characters nothing is stated.
#[verifier::external_body]
fn is_word_char(c: char) -> (r: bool)
    ensures
        r == unicode_word_char(c),
        (c as u32) < 0x80 ==> (r <==> (('a' <= c && c <= 'z') || ('A' <= c && c <= 'Z') || ('0'
            <= c && c <= '9') || c == '_')),
{
    regex_syntax::is_word_character(c)
}

/// The length of the run of digits that starts at `i`.
pub open spec fn digit_run(s: Seq<char>, i: int) -> nat
    decreases s.len() - i,
{
    if 0 <= i < s.len() && is_unicode_digit(s[i]) {
        1 + digit_run(s, i + 1)
    } else {
        0
    }
}

/// The length of the run of word characters that starts at `i`.
pub open spec fn word_run(s: Seq<char>, i: int) -> nat
    decreases s.len() - i,
{
    if 0 <= i < s.len() && is_word(s[i]) {
        1 + word_run(s, i + 1)
    } else {
        0
    }
}

fn digit_run_exec(v: &Vec<char>, i: usize) -> (n: usize)
    requires
        i <= v@.len(),
    ensures
        n == digit_run(v@, i as int),
        i + n <= v@.len(),
{
    let mut j = i;
    while j < v.len() && is_digit_char(v[j])
        invariant
            i <= j <= v@.len(),
            digit_run(v@, i as int) == (j - i) + digit_run(v@, j as int),
        decreases v@.len() - j,
    {
        j = j + 1;
    }
    j - i
}

fn word_run_exec(v: &Vec<char>, i: usize) -> (n: usize)
    requires
        i <= v@.len(),
    ensures
        n == word_run(v@, i as int),
        i + n <= v@.len(),
{
    let mut j = i;
    while j < v.len() && is_word_char(v[j])
        invariant
            i <= j <= v@.len(),
            word_run(v@, i as int) == (j - i) + word_run(v@, j as int),
        decreases v@.len() - j,
    {
        j = j + 1;
    }
    j - i
}

/// Whether the literal `lit` occurs in `v` at `i`.
fn lit_at(v: &Vec<char>, i: usize, lit: &str) -> (r: bool)
    ensures
        r == occurs_at(v@, i as int, lit@),
        r ==> i + lit@.len() <= v@.len(),
{
    let l = chars_of(lit);
    occurs_at_exec(v, i, &l)
}

/// Where the literal `lit` ends when it occurs in `v` at `i`.
fn lit_end(v: &Vec<char>, i: usize, lit: &str) -> (r: Option<usize>)
    ensures
        r is Some == occurs_at(v@, i as int, lit@),
        r matches Some(e) ==> e == i + lit@.len() && e <= v@.len(),
{
    let l = chars_of(lit);
    let n = v.len();
    if occurs_at_exec(v, i, &l) {
        assert(i + l@.len() <= n);
        Some(i + l.len())
    } else {
        None
    }
}

// ---------------------------------------------------------------------
// The three link forms
// ---------------------------------------------------------------------

/// Where the `http://` or `https://` that starts at `p` ends.
pub open spec fn scheme_end(s: Seq<char>, p: int) -> Option<int> {
    if occurs_at(s, p, "http"@) {
        if occurs_at(s, p + 4, "s://"@) {
            Some(p + 8)
        } else if occurs_at(s, p + 4, "://"@) {
            Some(p + 7)
        } else {
            None
        }
    } else {
        None
    }
}

/// A link to one beatmap, `https://osu.ppy.sh/beatmaps/<id>` with an
/// optional `?mode=<mode>`, matched at `p`: the span of the id and the
/// span of the mode.
pub open spec fn map_link_at(s: Seq<char>, p: int) -> Option<((int, int), Option<(int, int)>)> {
    match scheme_end(s, p) {
        None => None,
        Some(a) => {
            if !occurs_at(s, a, "osu.ppy.sh/beatmaps/"@) {
                None
            } else {
                let d = a + "osu.ppy.sh/beatmaps/"@.len();
                let e = d + digit_run(s, d);
                if e == d {
                    None
                } else if occurs_at(s, e, "?mode="@) && word_run(s, e + 6) > 0 {
                    Some(((d, e), Some((e + 6, e + 6 + word_run(s, e + 6)))))
                } else {
                    Some(((d, e), None))
                }
            }
        },
    }
}

/// A link to a beatmapset, `https://osu.ppy.sh/beatmapsets/<id>` with an
/// optional `/` and an optional `#<mode>/<beatmap id>`, matched at `p`:
/// the span of the set id, and the spans of the mode and the beatmap id.
pub open spec fn set_link_at(s: Seq<char>, p: int) -> Option<
    ((int, int), Option<((int, int), (int, int))>),
> {
    match scheme_end(s, p) {
        None => None,
        Some(a) => {
            if !occurs_at(s, a, "osu.ppy.sh/beatmapsets/"@) {
                None
            } else {
                let d = a + "osu.ppy.sh/beatmapsets/"@.len();
                let e = d + digit_run(s, d);
                let f = if occurs_at(s, e, "/"@) { e + 1 } else { e };
                let w = word_run(s, f + 1);
                let g = f + 1 + w + 1;
                let k = digit_run(s, g);
                if e == d {
                    None
                } else if occurs_at(s, f, "#"@) && w > 0 && occurs_at(s, f + 1 + w, "/"@) && k > 0 {
                    Some(((d, e), Some(((f + 1, f + 1 + w), (g, g + k)))))
                } else {
                    Some(((d, e), None))
                }
            }
        },
    }
}

/// A link of the old form, `https://osu.ppy.sh/<b|s>/<id>` (or on
/// `old.ppy.sh`) with an optional `?m=<digit>`, matched at `p`: whether
/// it names a beatmap (`b`), the span of the id, and where the mode
/// digit stands.
pub open spec fn old_link_at(s: Seq<char>, p: int) -> Option<(bool, (int, int), Option<int>)> {
    match scheme_end(s, p) {
        None => None,
        Some(a) => {
            let t = a + 11;
            let d = t + 2;
            let e = d + digit_run(s, d);
            if !(occurs_at(s, a, "osu.ppy.sh/"@) || occurs_at(s, a, "old.ppy.sh/"@)) {
                None
            } else if !(occurs_at(s, t, "b/"@) || occurs_at(s, t, "s/"@)) || e == d {
                None
            } else if occurs_at(s, e, "?m="@) && e + 3 < s.len() && is_unicode_digit(s[e + 3]) {
                Some((occurs_at(s, t, "b/"@), (d, e), Some(e + 3)))
            } else {
                Some((occurs_at(s, t, "b/"@), (d, e), None))
            }
        },
    }
}

/// The leftmost match of a beatmap link at or after `p`.
pub open spec fn first_map_link(s: Seq<char>, p: int) -> Option<((int, int), Option<(int, int)>)>
    decreases s.len() + 1 - p,
{
    if p < 0 || p > s.len() {
        None
    } else {
        match map_link_at(s, p) {
            Some(m) => Some(m),
            None => first_map_link(s, p + 1),
        }
    }
}

/// The leftmost match of a beatmapset link at or after `p`.
pub open spec fn first_set_link(s: Seq<char>, p: int) -> Option<
    ((int, int), Option<((int, int), (int, int))>),
>
    decreases s.len() + 1 - p,
{
    if p < 0 || p > s.len() {
        None
    } else {
        match set_link_at(s, p) {
            Some(m) => Some(m),
            None => first_set_link(s, p + 1),
        }
    }
}

/// The leftmost match of an old-form link at or after `p`.
pub open spec fn first_old_link(s: Seq<char>, p: int) -> Option<(bool, (int, int), Option<int>)>
    decreases s.len() + 1 - p,
{
    if p < 0 || p > s.len() {
        None
    } else {
        match old_link_at(s, p) {
            Some(m) => Some(m),
            None => first_old_link(s, p + 1),
        }
    }
}

// ---------------------------------------------------------------------
// Numbers in links
// ---------------------------------------------------------------------

/// Whether `s` holds ASCII digits only.
pub open spec fn all_ascii_digits(s: Seq<char>) -> bool {
    forall|i: int| 0 <= i < s.len() ==> '0' <= #[trigger] s[i] && s[i] <= '9'
}

/// The number that a string of ASCII digits writes.
pub open spec fn digits_value(s: Seq<char>) -> int
    decreases s.len(),
{
    if s.len() == 0 {
        0
    } else {
        digits_value(s.drop_last()) * 10 + ((s.last() as u32) - 48)
    }
}

/// A run of digits read as an `i64` (`str::parse::<i64>`): only ASCII
/// digits are read, and the value must fit.
pub open spec fn parse_digits(s: Seq<char>) -> Option<i64> {
    if s.len() > 0 && all_ascii_digits(s) && digits_value(s) <= i64::MAX {
        Some(digits_value(s) as i64)
    } else {
        None
    }
}

proof fn lemma_digits_value_step(s: Seq<char>, k: int)
    requires
        0 <= k < s.len(),
    ensures
        digits_value(s.take(k + 1)) == digits_value(s.take(k)) * 10 + ((s[k] as u32) - 48),
{
    assert(s.take(k + 1).drop_last() =~= s.take(k));
}

proof fn lemma_digits_value_grows(s: Seq<char>, a: int, b: int)
    requires
        0 <= a <= b <= s.len(),
        all_ascii_digits(s),
    ensures
        digits_value(s.take(a)) <= digits_value(s.take(b)),
        digits_value(s.take(a)) >= 0,
    decreases b,
{
    if a < b {
        lemma_digits_value_grows(s, a, b - 1);
        lemma_digits_value_step(s, b - 1);
        assert('0' <= s[b - 1] && s[b - 1] <= '9');
    } else if a > 0 {
        lemma_digits_value_grows(s, a - 1, a - 1);
        lemma_digits_value_step(s, a - 1);
        assert('0' <= s[a - 1] && s[a - 1] <= '9');
    } else {
        assert(s.take(0).len() == 0);
    }
}

/// Reads `v[from..to]` as a number of ASCII digits.
fn parse_digits_exec(v: &Vec<char>, from: usize, to: usize) -> (r: Option<i64>)
    requires
        from <= to <= v@.len(),
    ensures
        r == parse_digits(v@.subrange(from as int, to as int)),
{
    let ghost s = v@.subrange(from as int, to as int);
    if from == to {
        return None;
    }
    let mut i = from;
    while i < to
        invariant
            from <= i <= to <= v@.len(),
            s == v@.subrange(from as int, to as int),
            all_ascii_digits(s.take(i - from)),
        decreases to - i,
    {
        if !('0' <= v[i] && v[i] <= '9') {
            proof {
                assert(s[i - from] == v@[i as int]);
            }
            return None;
        }
        i = i + 1;
        proof {
            assert forall|j: int| 0 <= j < s.take(i - from).len() implies '0' <= #[trigger] s.take(
                i - from,
            )[j] && s.take(i - from)[j] <= '9' by {
                if j < i - 1 - from {
                    assert(s.take(i - from)[j] == s.take(i - 1 - from)[j]);
                }
            }
        }
    }
    assert(s.take(to - from) =~= s);
    let mut acc: i64 = 0;
    let mut k = from;
    while k < to
        invariant
            from <= k <= to <= v@.len(),
            s == v@.subrange(from as int, to as int),
            all_ascii_digits(s),
            acc as int == digits_value(s.take(k - from)),
        decreases to - k,
    {
        proof {
            lemma_digits_value_step(s, k - from);
            lemma_digits_value_grows(s, k - from + 1, s.len() as int);
            assert(s.take(s.len() as int) =~= s);
            assert(s[k - from] == v@[k as int]);
            assert('0' <= s[k - from] && s[k - from] <= '9');
        }
        let d = (v[k] as u32 - 48) as i64;
        if acc > (i64::MAX - d) / 10 {
            proof {
                assert(acc * 10 + d > i64::MAX) by (nonlinear_arith)
                    requires
                        acc > (i64::MAX - d) / 10,
                        0 <= d <= 9,
                ;
            }
            return None;
        }
        proof {
            assert(acc * 10 + d <= i64::MAX) by (nonlinear_arith)
                requires
                    acc <= (i64::MAX - d) / 10,
                    0 <= d <= 9,
                    acc >= 0,
            ;
        }
        acc = acc * 10 + d;
        k = k + 1;
    }
    assert(s.take(to - from) =~= s);
    Some(acc)
}

// ---------------------------------------------------------------------
// Matching
// ---------------------------------------------------------------------

fn scheme_end_exec(v: &Vec<char>, p: usize) -> (r: Option<usize>)
    ensures
        r matches Some(a) ==> scheme_end(v@, p as int) == Some(a as int) && a <= v@.len(),
        r is None ==> scheme_end(v@, p as int) is None,
{
    proof {
        reveal_strlit("http");
        reveal_strlit("s://");
        reveal_strlit("://");
    }
    match lit_end(v, p, "http") {
        None => None,
        Some(q) => match lit_end(v, q, "s://") {
            Some(e) => Some(e),
            None => lit_end(v, q, "://"),
        },
    }
}

/// Spans as positions in the specification.
pub open spec fn span(a: (usize, usize)) -> (int, int) {
    (a.0 as int, a.1 as int)
}

/// Optional spans as positions in the specification.
pub open spec fn opt_span(a: Option<(usize, usize)>) -> Option<(int, int)> {
    match a {
        Some(x) => Some(span(x)),
        None => None,
    }
}

fn map_link_at_exec(v: &Vec<char>, p: usize) -> (r: Option<((usize, usize), Option<(usize, usize)>)>)
    ensures
        r matches Some(m) ==> map_link_at(v@, p as int) == Some((span(m.0), opt_span(m.1)))
            && m.0.0 <= m.0.1 <= v@.len() && (m.1 matches Some(x) ==> x.0 <= x.1 <= v@.len()),
        r is None ==> map_link_at(v@, p as int) is None,
{
    let n = v.len();
    let a = match scheme_end_exec(v, p) {
        None => return None,
        Some(a) => a,
    };
    let d = match lit_end(v, a, "osu.ppy.sh/beatmaps/") {
        None => return None,
        Some(d) => d,
    };
    let e = d + digit_run_exec(v, d);
    if e == d {
        return None;
    }
    proof {
        reveal_strlit("?mode=");
    }
    if lit_at(v, e, "?mode=") {
        let w = word_run_exec(v, e + 6);
        if w > 0 {
            return Some(((d, e), Some((e + 6, e + 6 + w))));
        }
    }
    Some(((d, e), None))
}

fn set_link_at_exec(v: &Vec<char>, p: usize) -> (r: Option<
    ((usize, usize), Option<((usize, usize), (usize, usize))>),
>)
    ensures
        r matches Some(m) ==> set_link_at(v@, p as int) == Some(
            (
                span(m.0),
                match m.1 {
                    Some(x) => Some((span(x.0), span(x.1))),
                    None => None,
                },
            ),
        ) && m.0.0 <= m.0.1 <= v@.len() && (m.1 matches Some(x) ==> x.0.0 <= x.0.1 <= v@.len()
            && x.1.0 <= x.1.1 <= v@.len()),
        r is None ==> set_link_at(v@, p as int) is None,
{
    let n = v.len();
    let a = match scheme_end_exec(v, p) {
        None => return None,
        Some(a) => a,
    };
    let d = match lit_end(v, a, "osu.ppy.sh/beatmapsets/") {
        None => return None,
        Some(d) => d,
    };
    let e = d + digit_run_exec(v, d);
    if e == d {
        return None;
    }
    proof {
        reveal_strlit("/");
        reveal_strlit("#");
    }
    let f = if lit_at(v, e, "/") {
        e + 1
    } else {
        e
    };
    if lit_at(v, f, "#") {
        let w = word_run_exec(v, f + 1);
        if w > 0 && lit_at(v, f + 1 + w, "/") {
            let g = f + 1 + w + 1;
            let k = digit_run_exec(v, g);
            if k > 0 {
                return Some(((d, e), Some(((f + 1, f + 1 + w), (g, g + k)))));
            }
        }
    }
    Some(((d, e), None))
}

fn old_link_at_exec(v: &Vec<char>, p: usize) -> (r: Option<(bool, (usize, usize), Option<usize>)>)
    ensures
        r matches Some(m) ==> old_link_at(v@, p as int) == Some(
            (
                m.0,
                span(m.1),
                match m.2 {
                    Some(x) => Some(x as int),
                    None => None,
                },
            ),
        ) && m.1.0 <= m.1.1 <= v@.len() && (m.2 matches Some(x) ==> x < v@.len()),
        r is None ==> old_link_at(v@, p as int) is None,
{
    let n = v.len();
    let a = match scheme_end_exec(v, p) {
        None => return None,
        Some(a) => a,
    };
    proof {
        reveal_strlit("osu.ppy.sh/");
        reveal_strlit("old.ppy.sh/");
        reveal_strlit("b/");
        reveal_strlit("s/");
        reveal_strlit("?m=");
    }
    if !(lit_at(v, a, "osu.ppy.sh/") || lit_at(v, a, "old.ppy.sh/")) {
        return None;
    }
    let t = a + 11;
    let is_map = lit_at(v, t, "b/");
    if !(is_map || lit_at(v, t, "s/")) {
        return None;
    }
    let d = t + 2;
    let e = d + digit_run_exec(v, d);
    if e == d {
        return None;
    }
    if lit_at(v, e, "?m=") && e + 3 < v.len() && is_digit_char(v[e + 3]) {
        Some((is_map, (d, e), Some(e + 3)))
    } else {
        Some((is_map, (d, e), None))
    }
}

fn first_map_link_exec(v: &Vec<char>) -> (r: Option<((usize, usize), Option<(usize, usize)>)>)
    ensures
        r matches Some(m) ==> first_map_link(v@, 0) == Some((span(m.0), opt_span(m.1)))
            && m.0.0 <= m.0.1 <= v@.len() && (m.1 matches Some(x) ==> x.0 <= x.1 <= v@.len()),
        r is None ==> first_map_link(v@, 0) is None,
{
    let mut p: usize = 0;
    while p < v.len()
        invariant
            p <= v@.len(),
            first_map_link(v@, 0) == first_map_link(v@, p as int),
        decreases v@.len() - p,
    {
        if let Some(m) = map_link_at_exec(v, p) {
            return Some(m);
        }
        p = p + 1;
    }
    proof {
        reveal_strlit("http");
        assert(map_link_at(v@, v@.len() as int) is None);
        assert(first_map_link(v@, v@.len() as int + 1) is None);
    }
    None
}

fn first_set_link_exec(v: &Vec<char>) -> (r: Option<
    ((usize, usize), Option<((usize, usize), (usize, usize))>),
>)
    ensures
        r matches Some(m) ==> first_set_link(v@, 0) == Some(
            (
                span(m.0),
                match m.1 {
                    Some(x) => Some((span(x.0), span(x.1))),
                    None => None,
                },
            ),
        ) && m.0.0 <= m.0.1 <= v@.len() && (m.1 matches Some(x) ==> x.0.0 <= x.0.1 <= v@.len()
            && x.1.0 <= x.1.1 <= v@.len()),
        r is None ==> first_set_link(v@, 0) is None,
{
    let mut p: usize = 0;
    while p < v.len()
        invariant
            p <= v@.len(),
            first_set_link(v@, 0) == first_set_link(v@, p as int),
        decreases v@.len() - p,
    {
        if let Some(m) = set_link_at_exec(v, p) {
            return Some(m);
        }
        p = p + 1;
    }
    proof {
        reveal_strlit("http");
        assert(set_link_at(v@, v@.len() as int) is None);
        assert(first_set_link(v@, v@.len() as int + 1) is None);
    }
    None
}

fn first_old_link_exec(v: &Vec<char>) -> (r: Option<(bool, (usize, usize), Option<usize>)>)
    ensures
        r matches Some(m) ==> first_old_link(v@, 0) == Some(
            (
                m.0,
                span(m.1),
                match m.2 {
                    Some(x) => Some(x as int),
                    None => None,
                },
            ),
        ) && m.1.0 <= m.1.1 <= v@.len() && (m.2 matches Some(x) ==> x < v@.len()),
        r is None ==> first_old_link(v@, 0) is None,
{
    let mut p: usize = 0;
    while p < v.len()
        invariant
            p <= v@.len(),
            first_old_link(v@, 0) == first_old_link(v@, p as int),
        decreases v@.len() - p,
    {
        if let Some(m) = old_link_at_exec(v, p) {
            return Some(m);
        }
        p = p + 1;
    }
    proof {
        reveal_strlit("http");
        assert(old_link_at(v@, v@.len() as int) is None);
        assert(first_old_link(v@, v@.len() as int + 1) is None);
    }
    None
}

/// The characters of `s` in the span `sp`.
pub open spec fn part(s: Seq<char>, sp: (int, int)) -> Seq<char> {
    s.subrange(sp.0, sp.1)
}

/// What a text names when the first link in it is read: links to one
/// beatmap are looked for first, then links to beatmapsets, then links of
/// the old form; the leftmost link of the first kind found is read.
pub open spec fn beatmap_info_of(s: Seq<char>) -> Result<BeatmapInfo, LinkError> {
    match first_map_link(s, 0) {
        Some((id, mode)) => match parse_digits(part(s, id)) {
            None => Err(LinkError::InvalidNumber),
            Some(b) => match mode {
                None => Err(LinkError::MissingMode),
                Some(m) => Ok(
                    BeatmapInfo {
                        beatmapset_id: None,
                        beatmap_id: Some(b),
                        mode: mode_of_name(part(s, m)),
                    },
                ),
            },
        },
        None => match first_set_link(s, 0) {
            Some((set, group)) => match parse_digits(part(s, set)) {
                None => Err(LinkError::InvalidNumber),
                Some(k) => match group {
                    None => Ok(BeatmapInfo { beatmapset_id: Some(k), beatmap_id: None, mode: None }),
                    Some((m, id)) => match parse_digits(part(s, id)) {
                        None => Err(LinkError::InvalidNumber),
                        Some(b) => Ok(
                            BeatmapInfo {
                                beatmapset_id: Some(k),
                                beatmap_id: Some(b),
                                mode: mode_of_name(part(s, m)),
                            },
                        ),
                    },
                },
            },
            None => match first_old_link(s, 0) {
                Some((is_map, id, mode_at)) => {
                    let mode: Result<Option<GameMode>, LinkError> = match mode_at {
                        None => Ok(None),
                        Some(i) => match mode_of_name(seq![s[i]]) {
                            Some(g) => Ok(Some(g)),
                            None => Err(LinkError::UnknownMode),
                        },
                    };
                    match mode {
                        Err(e) => Err(e),
                        Ok(g) => match parse_digits(part(s, id)) {
                            None => Err(LinkError::InvalidNumber),
                            Some(n) => if is_map {
                                Ok(BeatmapInfo { beatmapset_id: None, beatmap_id: Some(n), mode: g })
                            } else {
                                Ok(BeatmapInfo { beatmapset_id: Some(n), beatmap_id: None, mode: g })
                            },
                        },
                    }
                },
                None => Ok(BeatmapInfo { beatmapset_id: None, beatmap_id: None, mode: None }),
            },
        },
    }
}

/// The string `v[a..b]`.
fn slice_string(v: &Vec<char>, a: usize, b: usize) -> (s: String)
    requires
        a <= b <= v@.len(),
    ensures
        s@ == v@.subrange(a as int, b as int),
{
    let mut s = String::new();
    push_chars(&mut s, v, a, b);
    s
}

/// Reads the first beatmap, beatmapset or old-form link in a text.
pub fn get_beatmap_info(url: &str) -> (r: Result<BeatmapInfo, LinkError>)
    ensures
        r == beatmap_info_of(url@),
{
    let v = chars_of(url);
    if let Some((id, mode)) = first_map_link_exec(&v) {
        let b = match parse_digits_exec(&v, id.0, id.1) {
            None => return Err(LinkError::InvalidNumber),
            Some(b) => b,
        };
        match mode {
            None => Err(LinkError::MissingMode),
            Some(m) => {
                let name = slice_string(&v, m.0, m.1);
                Ok(
                    BeatmapInfo {
                        beatmapset_id: None,
                        beatmap_id: Some(b),
                        mode: gamemode_from_string(name.as_str()),
                    },
                )
            },
        }
    } else if let Some((set, group)) = first_set_link_exec(&v) {
        let k = match parse_digits_exec(&v, set.0, set.1) {
            None => return Err(LinkError::InvalidNumber),
            Some(k) => k,
        };
        match group {
            None => Ok(BeatmapInfo { beatmapset_id: Some(k), beatmap_id: None, mode: None }),
            Some((m, id)) => {
                let b = match parse_digits_exec(&v, id.0, id.1) {
                    None => return Err(LinkError::InvalidNumber),
                    Some(b) => b,
                };
                let name = slice_string(&v, m.0, m.1);
                Ok(
                    BeatmapInfo {
                        beatmapset_id: Some(k),
                        beatmap_id: Some(b),
                        mode: gamemode_from_string(name.as_str()),
                    },
                )
            },
        }
    } else if let Some((is_map, id, mode_at)) = first_old_link_exec(&v) {
        let mode = match mode_at {
            None => None,
            Some(i) => {
                let mut name = String::new();
                push_char(&mut name, v[i]);
                match gamemode_from_string(name.as_str()) {
                    Some(g) => Some(g),
                    None => return Err(LinkError::UnknownMode),
                }
            },
        };
        let n = match parse_digits_exec(&v, id.0, id.1) {
            None => return Err(LinkError::InvalidNumber),
            Some(n) => n,
        };
        if is_map {
            Ok(BeatmapInfo { beatmapset_id: None, beatmap_id: Some(n), mode })
        } else {
            Ok(BeatmapInfo { beatmapset_id: Some(n), beatmap_id: None, mode })
        }
    } else {
        Ok(BeatmapInfo { beatmapset_id: None, beatmap_id: None, mode: None })
    }
}


// ---------------------------------------------------------------------
// Writing links
// ---------------------------------------------------------------------

/// A link to a beatmapset, or to one of its beatmaps in a given mode.
pub open spec fn beatmap_link(beatmap_id: Option<i64>, beatmapset_id: i64, mode: Option<Seq<char>>) -> Seq<
    char,
> {
    match (beatmap_id, mode) {
        (Some(b), Some(m)) => "https://osu.ppy.sh/beatmapsets/"@ + signed_decimal(beatmapset_id as int)
            + "#"@ + capped(m, 16) + "/"@ + signed_decimal(b as int),
        _ => "https://osu.ppy.sh/beatmapsets/"@ + signed_decimal(beatmapset_id as int),
    }
}

/// The view of an optional string slice.
pub open spec fn opt_view(s: Option<&str>) -> Option<Seq<char>> {
    match s {
        Some(x) => Some(x@),
        None => None,
    }
}

/// Writes a link to a beatmapset, or to one of its beatmaps when both a
/// beatmap and a mode are given.
pub fn format_beatmap_link(beatmap_id: Option<i64>, beatmapset_id: i64, mode: Option<&str>) -> (r:
    String)
    ensures
        r@ == beatmap_link(beatmap_id, beatmapset_id, opt_view(mode)),
{
    let mut r = String::from_str("https://osu.ppy.sh/beatmapsets/");
    push_signed_decimal(&mut r, beatmapset_id);
    if let (Some(b), Some(m)) = (beatmap_id, mode) {
        r.append("#");
        push_capped(&mut r, m, 16);
        r.append("/");
        push_signed_decimal(&mut r, b);
    }
    r
}

/// A link to a user's profile.
pub open spec fn user_link(user_id: i64) -> Seq<char> {
    "https://osu.ppy.sh/users/"@ + signed_decimal(user_id as int)
}

/// Writes a link to a user's profile.
pub fn format_user_link(user_id: i64) -> (r: String)
    ensures
        r@ == user_link(user_id),
{
    let mut r = String::from_str("https://osu.ppy.sh/users/");
    push_signed_decimal(&mut r, user_id);
    r
}


// ---------------------------------------------------------------------
// Looking through messages
// ---------------------------------------------------------------------

/// The text parts of an embed that are searched for links.
#[derive(Debug, Clone)]
pub struct EmbedText {
    pub description: Option<String>,
    pub title: Option<String>,
    pub footer: Option<String>,
}

/// A message, as far as it is searched for links: its content and the
/// text of its embeds.
#[derive(Debug, Clone)]
pub struct MessageText {
    pub content: String,
    pub embeds: Vec<EmbedText>,
}

/// The view of an optional string, empty when absent.
pub open spec fn or_empty(s: Option<String>) -> Seq<char> {
    match s {
        Some(x) => x@,
        None => Seq::empty(),
    }
}

/// The searched text of an embed: description, title and footer.
pub open spec fn embed_text(e: EmbedText) -> Seq<char> {
    or_empty(e.description) + or_empty(e.title) + or_empty(e.footer)
}

/// The searched text of a list of embeds, one after the other.
pub open spec fn embeds_text(es: Seq<EmbedText>) -> Seq<char>
    decreases es.len(),
{
    if es.len() == 0 {
        Seq::empty()
    } else {
        embeds_text(es.drop_last()) + embed_text(es.last())
    }
}

/// The searched text of a message: its content followed by its embeds.
pub open spec fn message_text(m: MessageText) -> Seq<char> {
    m.content@ + embeds_text(m.embeds@)
}

/// The first message, in order, whose text links to a single beatmap;
/// reading stops with the first text whose link cannot be read.
pub open spec fn first_beatmap_in(ms: Seq<MessageText>) -> Result<Option<BeatmapInfo>, LinkError>
    decreases ms.len(),
{
    if ms.len() == 0 {
        Ok(None)
    } else {
        match beatmap_info_of(message_text(ms[0])) {
            Err(e) => Err(e),
            Ok(info) => if info.beatmap_id is Some {
                Ok(Some(info))
            } else {
                first_beatmap_in(ms.drop_first())
            },
        }
    }
}

fn push_opt(s: &mut String, o: &Option<String>)
    ensures
        final(s)@ == old(s)@ + or_empty(*o),
{
    match o {
        Some(x) => s.append(x.as_str()),
        None => {},
    }
}

/// The searched text of a message.
pub fn searched_text(m: &MessageText) -> (r: String)
    ensures
        r@ == message_text(*m),
{
    let mut r = String::new();
    r.append(m.content.as_str());
    let mut i: usize = 0;
    while i < m.embeds.len()
        invariant
            i <= m.embeds@.len(),
            r@ == m.content@ + embeds_text(m.embeds@.take(i as int)),
        decreases m.embeds@.len() - i,
    {
        let e = &m.embeds[i];
        push_opt(&mut r, &e.description);
        push_opt(&mut r, &e.title);
        push_opt(&mut r, &e.footer);
        proof {
            assert(m.embeds@.take(i + 1).drop_last() =~= m.embeds@.take(i as int));
        }
        i = i + 1;
    }
    assert(m.embeds@.take(m.embeds@.len() as int) =~= m.embeds@);
    r
}

/// Looks through messages, in order, for the first one that links to a
/// single beatmap.
pub fn find_beatmap_link(messages: &Vec<MessageText>) -> (r: Result<Option<BeatmapInfo>, LinkError>)
    ensures
        r == first_beatmap_in(messages@),
{
    let mut i: usize = 0;
    assert(messages@.skip(0) =~= messages@);
    while i < messages.len()
        invariant
            i <= messages@.len(),
            first_beatmap_in(messages@) == first_beatmap_in(messages@.skip(i as int)),
        decreases messages@.len() - i,
    {
        let text = searched_text(&messages[i]);
        let info = get_beatmap_info(text.as_str());
        proof {
            assert(messages@.skip(i as int)[0] == messages@[i as int]);
            assert(messages@.skip(i as int).drop_first() =~= messages@.skip(i + 1));
        }
        match info {
            Err(e) => return Err(e),
            Ok(info) => {
                if info.beatmap_id.is_some() {
                    return Ok(Some(info));
                }
            },
        }
        i = i + 1;
    }
    assert(messages@.skip(i as int).len() == 0);
    Ok(None)
}

// ---------------------------------------------------------------------
// Laws
// ---------------------------------------------------------------------

/// Every game mode is read back from the name the osu! API gives it.
pub proof fn lemma_mode_name_roundtrip(m: GameMode)
    ensures
        mode_of_name(mode_name(m)) == Some(m),
{
    reveal_strlit("osu");
    reveal_strlit("taiko");
    reveal_strlit("fruits");
    reveal_strlit("mania");
    reveal_strlit("standard");
    reveal_strlit("std");
    reveal_strlit("osu!");
    reveal_strlit("0");
    reveal_strlit("osu!taiko");
    reveal_strlit("1");
    reveal_strlit("keys");
    reveal_strlit("osu!mania");
    reveal_strlit("3");
    reveal_strlit("catch");
    reveal_strlit("ctb");
    reveal_strlit("osu!catch");
    reveal_strlit("2");
    let s = mode_name(m);
    assert(all_ascii(s));
    assert(ascii_lowered(s) =~= s);
    assert(lowered_name(s) == s);
    match m {
        GameMode::Osu => {
            assert(s == "osu"@);
        },
        GameMode::Taiko => {
            assert(s != "osu"@ && s != "standard"@ && s != "std"@ && s != "osu!"@ && s != "0"@);
        },
        GameMode::Catch => {
            assert(s.len() == 6);
            assert("taiko"@.len() == 5 && "osu!taiko"@.len() == 9 && "1"@.len() == 1);
            assert(s != "osu"@ && s != "standard"@ && s != "std"@ && s != "osu!"@ && s != "0"@);
            assert(s != "taiko"@ && s != "osu!taiko"@ && s != "1"@);
            assert(s != "mania"@ && s != "keys"@ && s != "osu!mania"@ && s != "3"@);
            assert(s == "fruits"@);
        },
        GameMode::Mania => {
            assert(s.len() == 5);
            assert("taiko"@[0] == 't' && s[0] == 'm');
            assert("osu!taiko"@.len() == 9 && "1"@.len() == 1);
            assert(s != "osu"@ && s != "standard"@ && s != "std"@ && s != "osu!"@ && s != "0"@);
            assert(s != "taiko"@ && s != "osu!taiko"@ && s != "1"@);
            assert(s == "mania"@);
        },
    }
}

proof fn lemma_decimal_digits(n: nat)
    ensures
        all_ascii_digits(decimal(n)),
        digits_value(decimal(n)) == n,
        decimal(n).len() >= 1,
    decreases n,
{
    let k = (n % 10) as int;
    assert((digit_char(k) as u32) == 48 + k);
    if n < 10 {
        assert(decimal(n).drop_last() =~= Seq::<char>::empty());
        assert(digits_value(decimal(n).drop_last()) == 0);
    } else {
        lemma_decimal_digits(n / 10);
        assert(decimal(n).drop_last() =~= decimal(n / 10));
        assert forall|i: int| 0 <= i < decimal(n).len() implies '0' <= #[trigger] decimal(n)[i]
            && decimal(n)[i] <= '9' by {
            if i < decimal(n).len() - 1 {
                assert(decimal(n)[i] == decimal(n / 10)[i]);
            }
        }
    }
}

proof fn lemma_digit_run_exact(s: Seq<char>, i: int, n: int)
    requires
        0 <= i,
        0 <= n,
        i + n <= s.len(),
        forall|j: int| i <= j < i + n ==> is_unicode_digit(#[trigger] s[j]),
        i + n == s.len() || !is_unicode_digit(s[i + n]),
    ensures
        digit_run(s, i) == n,
    decreases n,
{
    if n > 0 {
        lemma_digit_run_exact(s, i + 1, n - 1);
    }
}

proof fn lemma_word_run_exact(s: Seq<char>, i: int, n: int)
    requires
        0 <= i,
        0 <= n,
        i + n <= s.len(),
        forall|j: int| i <= j < i + n ==> is_word(#[trigger] s[j]),
        i + n == s.len() || !is_word(s[i + n]),
    ensures
        word_run(s, i) == n,
    decreases n,
{
    if n > 0 {
        lemma_word_run_exact(s, i + 1, n - 1);
    }
}

proof fn lemma_fit_prefix_shape(s: Seq<char>, limit: nat)
    ensures
        exists|k: int| 0 <= k <= s.len() && fit_prefix(s, limit) == s.take(k) && (s.len() > 0
            && limit >= 4 ==> k >= 1),
    decreases s.len(),
{
    if utf8_len(s) <= limit || s.len() == 0 {
        assert(s.take(s.len() as int) =~= s);
    } else {
        lemma_fit_prefix_shape(s.drop_last(), limit);
        let k = choose|k: int| 0 <= k <= s.drop_last().len() && fit_prefix(s.drop_last(), limit)
            == s.drop_last().take(k) && (s.drop_last().len() > 0 && limit >= 4 ==> k >= 1);
        assert(s.drop_last().take(k) =~= s.take(k));
        if s.drop_last().len() == 0 && limit >= 4 {
            assert(s.len() == 1);
            assert(s.drop_last() =~= Seq::<char>::empty());
            assert(utf8_len(s.drop_last()) == 0);
            assert(utf8_len(s) == char_utf8_len(s.last()));
            assert(false);
        }
    }
}

proof fn lemma_no_map_link_from(s: Seq<char>, p: int)
    requires
        0 <= p,
        forall|q: int| p <= q <= s.len() ==> #[trigger] map_link_at(s, q) is None,
    ensures
        first_map_link(s, p) is None,
    decreases s.len() + 1 - p,
{
    if p <= s.len() {
        lemma_no_map_link_from(s, p + 1);
    }
}

proof fn lemma_no_set_link_from(s: Seq<char>, p: int)
    requires
        0 <= p,
        forall|q: int| p <= q <= s.len() ==> #[trigger] set_link_at(s, q) is None,
    ensures
        first_set_link(s, p) is None,
    decreases s.len() + 1 - p,
{
    if p <= s.len() {
        lemma_no_set_link_from(s, p + 1);
    }
}

proof fn lemma_no_old_link_from(s: Seq<char>, p: int)
    requires
        0 <= p,
        forall|q: int| p <= q <= s.len() ==> #[trigger] old_link_at(s, q) is None,
    ensures
        first_old_link(s, p) is None,
    decreases s.len() + 1 - p,
{
    if p <= s.len() {
        lemma_no_old_link_from(s, p + 1);
    }
}

/// In a text whose only `:` stands at index 5 and that does not start
/// with `h`, no scheme starts anywhere but at 0.
proof fn lemma_scheme_only_at_start(s: Seq<char>, p: int)
    requires
        1 <= p,
        s.len() > 5,
        s[1] != 'h',
        forall|i: int| 0 <= i < s.len() && i != 5 ==> #[trigger] s[i] != ':',
    ensures
        scheme_end(s, p) is None,
{
    reveal_strlit("http");
    reveal_strlit("s://");
    reveal_strlit("://");
    if occurs_at(s, p, "http"@) {
        assert(s[p] == s.subrange(p, p + 4)[0]);
        if occurs_at(s, p + 4, "s://"@) {
            assert(s[p + 5] == s.subrange(p + 4, p + 8)[1]);
        }
        if occurs_at(s, p + 4, "://"@) {
            assert(s[p + 4] == s.subrange(p + 4, p + 7)[0]);
        }
    }
}

/// What the start `https://osu.ppy.sh/beatmapsets/` of a written link
/// gives to the matchers.
proof fn lemma_set_link_prefix(rest: Seq<char>)
    ensures
        ({
            let s = "https://osu.ppy.sh/beatmapsets/"@ + rest;
            &&& s.len() == 31 + rest.len()
            &&& forall|j: int| 0 <= j < rest.len() ==> s[31 + j] == rest[j]
            &&& scheme_end(s, 0) == Some(8int)
            &&& occurs_at(s, 8, "osu.ppy.sh/beatmapsets/"@)
            &&& "osu.ppy.sh/beatmapsets/"@.len() == 23
            &&& map_link_at(s, 0) is None
            &&& s[1] != 'h'
            &&& forall|i: int| 0 <= i < 31 && i != 5 ==> s[i] != ':'
        }),
{
    reveal_strlit("https://osu.ppy.sh/beatmapsets/");
    reveal_strlit("http");
    reveal_strlit("s://");
    reveal_strlit("osu.ppy.sh/beatmaps/");
    reveal_strlit("osu.ppy.sh/beatmapsets/");
    let s = "https://osu.ppy.sh/beatmapsets/"@ + rest;
    assert(s.subrange(0, 4) =~= "http"@);
    assert(s.subrange(4, 8) =~= "s://"@);
    assert(s.subrange(8, 31) =~= "osu.ppy.sh/beatmapsets/"@);
    assert(s.subrange(8, 28)[19] != "osu.ppy.sh/beatmaps/"@[19]);
}

/// A written link to a beatmapset holds no link to a single beatmap.
proof fn lemma_written_link_not_map(rest: Seq<char>)
    requires
        forall|j: int| 0 <= j < rest.len() ==> #[trigger] rest[j] != ':',
    ensures
        first_map_link("https://osu.ppy.sh/beatmapsets/"@ + rest, 0) is None,
{
    let s = "https://osu.ppy.sh/beatmapsets/"@ + rest;
    lemma_set_link_prefix(rest);
    assert forall|i: int| 0 <= i < s.len() && i != 5 implies #[trigger] s[i] != ':' by {
        if i >= 31 {
            assert(s[i] == rest[i - 31]);
        }
    }
    assert forall|q: int| 0 <= q <= s.len() implies #[trigger] map_link_at(s, q) is None by {
        if q > 0 {
            lemma_scheme_only_at_start(s, q);
        }
    }
    lemma_no_map_link_from(s, 0);
}

/// A link to a beatmap of a beatmapset, as the library writes it, is read
/// back as that beatmapset, that beatmap and the mode that the written
/// mode name stands for. The ids are non-negative, and the mode name is a
/// non-empty run of word characters.
#[verifier::rlimit(80)]
#[verifier::spinoff_prover]
pub proof fn lemma_beatmap_link_roundtrip(beatmap_id: i64, beatmapset_id: i64, mode: Seq<char>)
    requires
        beatmap_id >= 0,
        beatmapset_id >= 0,
        mode.len() > 0,
        forall|i: int| 0 <= i < mode.len() ==> is_word(#[trigger] mode[i]),
    ensures
        beatmap_info_of(beatmap_link(Some(beatmap_id), beatmapset_id, Some(mode))) == Ok::<
            BeatmapInfo,
            LinkError,
        >(
            BeatmapInfo {
                beatmapset_id: Some(beatmapset_id),
                beatmap_id: Some(beatmap_id),
                mode: mode_of_name(capped(mode, 16)),
            },
        ),
{
    reveal_strlit("#");
    reveal_strlit("/");
    let d1 = decimal(beatmapset_id as nat);
    let d2 = decimal(beatmap_id as nat);
    let m = capped(mode, 16);
    lemma_decimal_digits(beatmapset_id as nat);
    lemma_decimal_digits(beatmap_id as nat);
    lemma_fit_prefix_shape(mode, 15);
    let km = choose|k: int|
        0 <= k <= mode.len() && fit_prefix(mode, 15) == mode.take(k) && (mode.len() > 0 && 15
            >= 4 ==> k >= 1);
    assert(m == mode.take(km));
    let rest = d1 + "#"@ + m + "/"@ + d2;
    let s = "https://osu.ppy.sh/beatmapsets/"@ + rest;
    assert(s =~= beatmap_link(Some(beatmap_id), beatmapset_id, Some(mode)));
    lemma_set_link_prefix(rest);
    let n1 = d1.len() as int;
    let nm = m.len() as int;
    let n2 = d2.len() as int;
    assert(rest.len() == n1 + 1 + nm + 1 + n2);
    assert forall|j: int| 0 <= j < n1 implies s[31 + j] == d1[j] by {
        assert(rest[j] == d1[j]);
    }
    assert forall|j: int| 0 <= j < nm implies s[32 + n1 + j] == m[j] && is_word(m[j]) by {
        assert(rest[n1 + 1 + j] == m[j]);
        assert(m[j] == mode[j]);
    }
    assert forall|j: int| 0 <= j < n2 implies s[33 + n1 + nm + j] == d2[j] by {
        assert(rest[n1 + nm + 2 + j] == d2[j]);
    }
    assert(s[31 + n1] == '#') by {
        assert(rest[n1] == '#');
    }
    assert(s[32 + n1 + nm] == '/') by {
        assert(rest[n1 + 1 + nm] == '/');
    }
    assert forall|j: int| 0 <= j < rest.len() implies #[trigger] rest[j] != ':' by {
        if j < n1 {
            assert('0' <= d1[j] && d1[j] <= '9');
        } else if n1 < j < n1 + 1 + nm {
            assert(rest[j] == m[j - n1 - 1]);
            assert(is_word(m[j - n1 - 1]));
        } else if n1 + 1 + nm < j {
            assert(rest[j] == d2[j - n1 - nm - 2]);
            assert('0' <= d2[j - n1 - nm - 2] && d2[j - n1 - nm - 2] <= '9');
        }
    }
    lemma_written_link_not_map(rest);
    assert forall|j: int| 31 <= j < 31 + n1 implies is_unicode_digit(#[trigger] s[j]) by {
        assert('0' <= d1[j - 31] && d1[j - 31] <= '9');
    }
    lemma_digit_run_exact(s, 31, n1);
    assert(!occurs_at(s, 31 + n1, "/"@)) by {
        assert(s.subrange(31 + n1, 32 + n1)[0] == '#');
    }
    assert(occurs_at(s, 31 + n1, "#"@)) by {
        assert(s.subrange(31 + n1, 32 + n1) =~= "#"@);
    }
    assert forall|j: int| 32 + n1 <= j < 32 + n1 + nm implies is_word(#[trigger] s[j]) by {
        assert(s[32 + n1 + (j - 32 - n1)] == m[j - 32 - n1]);
    }
    lemma_word_run_exact(s, 32 + n1, nm);
    assert(occurs_at(s, 32 + n1 + nm, "/"@)) by {
        assert(s.subrange(32 + n1 + nm, 33 + n1 + nm) =~= "/"@);
    }
    assert forall|j: int| 33 + n1 + nm <= j < 33 + n1 + nm + n2 implies is_unicode_digit(
        #[trigger] s[j],
    ) by {
        assert('0' <= d2[j - 33 - n1 - nm] && d2[j - 33 - n1 - nm] <= '9');
    }
    lemma_digit_run_exact(s, 33 + n1 + nm, n2);
    assert(set_link_at(s, 0) == Some(
        ((31int, 31 + n1), Some(((32 + n1, 32 + n1 + nm), (33 + n1 + nm, 33 + n1 + nm + n2)))),
    ));
    assert(part(s, (31int, 31 + n1)) =~= d1);
    assert(part(s, (32 + n1, 32 + n1 + nm)) =~= m);
    assert(part(s, (33 + n1 + nm, 33 + n1 + nm + n2)) =~= d2);
}

/// A link to a beatmapset alone, as the library writes it, is read back as
/// that beatmapset, with no beatmap and no mode. The id is non-negative.
pub proof fn lemma_beatmapset_link_roundtrip(beatmapset_id: i64)
    requires
        beatmapset_id >= 0,
    ensures
        beatmap_info_of(beatmap_link(None, beatmapset_id, None)) == Ok::<BeatmapInfo, LinkError>(
            BeatmapInfo { beatmapset_id: Some(beatmapset_id), beatmap_id: None, mode: None },
        ),
{
    reveal_strlit("#");
    reveal_strlit("/");
    let d1 = decimal(beatmapset_id as nat);
    lemma_decimal_digits(beatmapset_id as nat);
    let s = "https://osu.ppy.sh/beatmapsets/"@ + d1;
    lemma_set_link_prefix(d1);
    let n1 = d1.len() as int;
    assert forall|j: int| 0 <= j < d1.len() implies #[trigger] d1[j] != ':' by {
        assert('0' <= d1[j] && d1[j] <= '9');
    }
    lemma_written_link_not_map(d1);
    assert forall|j: int| 31 <= j < 31 + n1 implies is_unicode_digit(#[trigger] s[j]) by {
        assert('0' <= d1[j - 31] && d1[j - 31] <= '9');
    }
    lemma_digit_run_exact(s, 31, n1);
    assert(!occurs_at(s, 31 + n1, "/"@));
    assert(!occurs_at(s, 31 + n1, "#"@));
    assert(set_link_at(s, 0) == Some(((31int, 31 + n1), None::<((int, int), (int, int))>)));
    assert(part(s, (31int, 31 + n1)) =~= d1);
}

/// Every name and number by which a game mode is written reads back as
/// that mode: the API names and their aliases, and the numbers `0` to `3`
/// of the old link form (osu!standard, taiko, catch, mania); the other
/// ASCII digits name no mode.
pub proof fn lemma_mode_names()
    ensures
        mode_of_name("0"@) == Some(GameMode::Osu),
        mode_of_name("1"@) == Some(GameMode::Taiko),
        mode_of_name("2"@) == Some(GameMode::Catch),
        mode_of_name("3"@) == Some(GameMode::Mania),
        forall|c: char| '4' <= c <= '9' ==> mode_of_name(seq![c]) is None,
        mode_of_name("osu"@) == Some(GameMode::Osu),
        mode_of_name("standard"@) == Some(GameMode::Osu),
        mode_of_name("std"@) == Some(GameMode::Osu),
        mode_of_name("osu!"@) == Some(GameMode::Osu),
        mode_of_name("taiko"@) == Some(GameMode::Taiko),
        mode_of_name("osu!taiko"@) == Some(GameMode::Taiko),
        mode_of_name("mania"@) == Some(GameMode::Mania),
        mode_of_name("keys"@) == Some(GameMode::Mania),
        mode_of_name("osu!mania"@) == Some(GameMode::Mania),
        mode_of_name("catch"@) == Some(GameMode::Catch),
        mode_of_name("ctb"@) == Some(GameMode::Catch),
        mode_of_name("fruits"@) == Some(GameMode::Catch),
        mode_of_name("osu!catch"@) == Some(GameMode::Catch),
{
    reveal_strlit("0");
    reveal_strlit("1");
    reveal_strlit("2");
    reveal_strlit("3");
    reveal_strlit("osu");
    reveal_strlit("standard");
    reveal_strlit("std");
    reveal_strlit("osu!");
    reveal_strlit("taiko");
    reveal_strlit("osu!taiko");
    reveal_strlit("mania");
    reveal_strlit("keys");
    reveal_strlit("osu!mania");
    reveal_strlit("catch");
    reveal_strlit("ctb");
    reveal_strlit("fruits");
    reveal_strlit("osu!catch");
    lemma_plain_name("0"@);
    lemma_plain_name("1"@);
    lemma_plain_name("2"@);
    lemma_plain_name("3"@);
    lemma_plain_name("osu"@);
    lemma_plain_name("standard"@);
    lemma_plain_name("std"@);
    lemma_plain_name("osu!"@);
    lemma_plain_name("taiko"@);
    lemma_plain_name("osu!taiko"@);
    lemma_plain_name("mania"@);
    lemma_plain_name("keys"@);
    lemma_plain_name("osu!mania"@);
    lemma_plain_name("catch"@);
    lemma_plain_name("ctb"@);
    lemma_plain_name("fruits"@);
    lemma_plain_name("osu!catch"@);
    lemma_one_char_names();
    assert("mania"@[0] != "taiko"@[0]);
    assert("keys"@[0] != "osu!"@[0]);
    assert("catch"@[0] != "taiko"@[0] && "catch"@[0] != "mania"@[0]);
    assert("fruits"@[0] != "osu!"@[0]);
    assert("ctb"@[0] != "osu"@[0] && "ctb"@[0] != "std"@[0]);
    assert("osu!mania"@[4] != "osu!taiko"@[4]);
    assert("osu!catch"@[4] != "osu!taiko"@[4] && "osu!catch"@[4] != "osu!mania"@[4]);
    assert forall|c: char| '4' <= c <= '9' implies mode_of_name(seq![c]) is None by {
        lemma_plain_name(seq![c]);
        assert(seq![c][0] != "0"@[0] && seq![c][0] != "1"@[0] && seq![c][0] != "2"@[0]
            && seq![c][0] != "3"@[0]);
    }
}

/// The one-character mode numbers differ from one another.
proof fn lemma_one_char_names()
    ensures
        "0"@ != "1"@,
        "0"@ != "2"@,
        "0"@ != "3"@,
        "1"@ != "2"@,
        "1"@ != "3"@,
        "2"@ != "3"@,
{
    reveal_strlit("0");
    reveal_strlit("1");
    reveal_strlit("2");
    reveal_strlit("3");
    assert("0"@[0] != "1"@[0]);
    assert("0"@[0] != "2"@[0]);
    assert("0"@[0] != "3"@[0]);
    assert("1"@[0] != "2"@[0]);
    assert("1"@[0] != "3"@[0]);
    assert("2"@[0] != "3"@[0]);
}

/// A name of ASCII characters without upper-case letters is its own
/// lower-case form.
proof fn lemma_plain_name(n: Seq<char>)
    requires
        forall|j: int| 0 <= j < n.len() ==> (#[trigger] n[j] as u32) < 0x80 && !('A' <= n[j] <= 'Z'),
    ensures
        lowered_name(n) == n,
{
    assert(all_ascii(n));
    assert(ascii_lowered(n) =~= n);
}

/// The mode digit of an old-form link is read as its mode: where the first
/// link found in a text is of the old form and carries `?m=` with a digit
/// from `0` to `3`, the text is read as that beatmap or beatmapset in
/// osu!standard, taiko, catch or mania.
pub proof fn lemma_old_link_mode_digit(s: Seq<char>, is_map: bool, id: (int, int), i: int, n: i64)
    requires
        first_map_link(s, 0) is None,
        first_set_link(s, 0) is None,
        first_old_link(s, 0) == Some((is_map, id, Some(i))),
        parse_digits(part(s, id)) == Some(n),
        '0' <= s[i] <= '3',
    ensures
        beatmap_info_of(s) == Ok::<BeatmapInfo, LinkError>(
            BeatmapInfo {
                beatmapset_id: if is_map {
                    None
                } else {
                    Some(n)
                },
                beatmap_id: if is_map {
                    Some(n)
                } else {
                    None
                },
                mode: Some(
                    if s[i] == '0' {
                        GameMode::Osu
                    } else if s[i] == '1' {
                        GameMode::Taiko
                    } else if s[i] == '2' {
                        GameMode::Catch
                    } else {
                        GameMode::Mania
                    },
                ),
            },
        ),
{
    lemma_mode_names();
    reveal_strlit("0");
    reveal_strlit("1");
    reveal_strlit("2");
    reveal_strlit("3");
    let d = seq![s[i]];
    if s[i] == '0' {
        assert(d =~= "0"@);
    } else if s[i] == '1' {
        assert(d =~= "1"@);
    } else if s[i] == '2' {
        assert(d =~= "2"@);
    } else {
        assert(d =~= "3"@);
    }
}

} // verus!
