//! Building blocks for text: decimal and grouped numbers, padding,
//! truncation by byte length, joining, searching and replacing.

use vstd::prelude::*;

verus! {

/// Appends one character to a string (`String::push`).
#[verifier::external_body]
pub(crate) fn push_char(s: &mut String, c: char)
    ensures
        final(s)@ == old(s)@.push(c),
{
    s.push(c);
}

/// The characters of a string slice, in order.
pub fn chars_of(s: &str) -> (v: Vec<char>)
    ensures
        v@ == s@,
{
    let n = s.unicode_len();
    let mut v: Vec<char> = Vec::new();
    let mut i: usize = 0;
    while i < n
        invariant
            n == s@.len(),
            i <= n,
            v@ == s@.take(i as int),
        decreases n - i,
    {
        v.push(s.get_char(i));
        i = i + 1;
        assert(v@ == s@.take(i as int));
    }
    assert(s@.take(n as int) == s@);
    v
}

/// Appends the characters `v[from..to]`.
pub fn push_chars(s: &mut String, v: &Vec<char>, from: usize, to: usize)
    requires
        from <= to <= v@.len(),
    ensures
        final(s)@ == old(s)@ + v@.subrange(from as int, to as int),
{
    let mut i = from;
    while i < to
        invariant
            from <= i <= to <= v@.len(),
            s@ == old(s)@ + v@.subrange(from as int, i as int),
        decreases to - i,
    {
        push_char(s, v[i]);
        i = i + 1;
        assert(s@ == old(s)@ + v@.subrange(from as int, i as int));
    }
}

/// A string holding exactly the given characters.
pub fn string_of(v: &Vec<char>) -> (s: String)
    ensures
        s@ == v@,
{
    let mut s = String::new();
    push_chars(&mut s, v, 0, v.len());
    assert(v@.subrange(0, v@.len() as int) == v@);
    s
}

/// Whether two string slices hold the same characters.
pub fn str_eq(a: &str, b: &str) -> (r: bool)
    ensures
        r == (a@ == b@),
{
    let x = chars_of(a);
    let y = chars_of(b);
    if x.len() != y.len() {
        return false;
    }
    let mut i: usize = 0;
    while i < x.len()
        invariant
            x@ == a@,
            y@ == b@,
            x@.len() == y@.len(),
            i <= x@.len(),
            forall|j: int| 0 <= j < i ==> x@[j] == y@[j],
        decreases x@.len() - i,
    {
        if x[i] != y[i] {
            return false;
        }
        i = i + 1;
    }
    assert(x@ =~= y@);
    true
}

// ---------------------------------------------------------------------
// Numbers
// ---------------------------------------------------------------------

/// The character for a decimal digit.
pub open spec fn digit_char(d: int) -> char {
    (48 + d) as char
}

/// The decimal digits of a natural number, most significant first.
pub open spec fn decimal(n: nat) -> Seq<char>
    decreases n,
{
    if n < 10 {
        seq![digit_char(n as int)]
    } else {
        decimal(n / 10).push(digit_char((n % 10) as int))
    }
}

/// The decimal form of an integer, with a leading `-` when negative.
pub open spec fn signed_decimal(v: int) -> Seq<char> {
    if v < 0 {
        seq!['-'] + decimal((-v) as nat)
    } else {
        decimal(v as nat)
    }
}

/// A natural number with its digits grouped by threes and separated by
/// commas, as in `1,234,567`.
pub open spec fn grouped(n: nat) -> Seq<char>
    decreases n,
{
    if n < 1000 {
        decimal(n)
    } else {
        grouped(n / 1000) + seq![','] + zero_padded(decimal(n % 1000), 3)
    }
}

/// An integer grouped by thousands, with a leading `-` when negative.
pub open spec fn signed_grouped(v: int) -> Seq<char> {
    if v < 0 {
        seq!['-'] + grouped((-v) as nat)
    } else {
        grouped(v as nat)
    }
}

/// `count` copies of the character `c`.
pub open spec fn repeat_char(c: char, count: nat) -> Seq<char> {
    Seq::new(count, |i: int| c)
}

/// `d` preceded by zeros up to a length of `width` (`{:0width}`).
pub open spec fn zero_padded(d: Seq<char>, width: nat) -> Seq<char> {
    if d.len() < width {
        repeat_char('0', (width - d.len()) as nat) + d
    } else {
        d
    }
}

/// `t` followed by spaces up to a length of `width` characters (`{:<width}`).
pub open spec fn pad_right(t: Seq<char>, width: nat) -> Seq<char> {
    if t.len() < width {
        t + repeat_char(' ', (width - t.len()) as nat)
    } else {
        t
    }
}

proof fn lemma_decimal_len(n: nat)
    ensures
        decimal(n).len() >= 1,
        n < 10 ==> decimal(n).len() == 1,
        n < 100 ==> decimal(n).len() <= 2,
        n < 1000 ==> decimal(n).len() <= 3,
    decreases n,
{
    if n >= 10 {
        lemma_decimal_len(n / 10);
    }
}

/// The character for the digit `d`.
pub fn digit_to_char(d: u64) -> (c: char)
    requires
        d < 10,
    ensures
        c == digit_char(d as int),
{
    let b: u8 = 48u8 + (d as u8);
    b as char
}

/// Appends the decimal digits of `n`.
pub fn push_decimal(s: &mut String, n: u64)
    ensures
        final(s)@ == old(s)@ + decimal(n as nat),
    decreases n,
{
    if n >= 10 {
        push_decimal(s, n / 10);
    }
    let c = digit_to_char(n % 10);
    push_char(s, c);
}

/// The decimal form of `n`.
pub fn decimal_string(n: u64) -> (s: String)
    ensures
        s@ == decimal(n as nat),
{
    let mut s = String::new();
    push_decimal(&mut s, n);
    s
}

/// The magnitude of a signed value.
pub fn magnitude(v: i64) -> (m: u64)
    ensures
        m as int == if v < 0 { -v } else { v as int },
{
    if v < 0 {
        let w: i64 = -(v + 1);
        (w as u64) + 1
    } else {
        v as u64
    }
}

/// Appends the decimal form of `v`, with a `-` when negative.
pub fn push_signed_decimal(s: &mut String, v: i64)
    ensures
        final(s)@ == old(s)@ + signed_decimal(v as int),
{
    if v < 0 {
        push_char(s, '-');
    }
    let m = magnitude(v);
    push_decimal(s, m);
}

/// Appends `c` `count` times.
pub fn push_repeated(s: &mut String, c: char, count: usize)
    ensures
        final(s)@ == old(s)@ + repeat_char(c, count as nat),
{
    let mut i: usize = 0;
    while i < count
        invariant
            i <= count,
            s@ == old(s)@ + repeat_char(c, i as nat),
        decreases count - i,
    {
        push_char(s, c);
        i = i + 1;
        assert(s@ =~= old(s)@ + repeat_char(c, i as nat));
    }
}

/// Appends the decimal digits of `n`, padded with zeros to `width`.
pub fn push_zero_padded(s: &mut String, n: u64, width: usize)
    ensures
        final(s)@ == old(s)@ + zero_padded(decimal(n as nat), width as nat),
{
    let d = decimal_string(n);
    let len = d.as_str().unicode_len();
    if len < width {
        push_repeated(s, '0', width - len);
    }
    s.append(d.as_str());
}

/// Appends `n` with its digits grouped by thousands.
pub fn push_grouped(s: &mut String, n: u64)
    ensures
        final(s)@ == old(s)@ + grouped(n as nat),
    decreases n,
{
    if n < 1000 {
        push_decimal(s, n);
    } else {
        push_grouped(s, n / 1000);
        push_char(s, ',');
        push_zero_padded(s, n % 1000, 3);
    }
}

/// Appends `v` grouped by thousands, with a `-` when negative
/// (`ToFormattedString` with the English locale).
pub fn push_signed_grouped(s: &mut String, v: i64)
    ensures
        final(s)@ == old(s)@ + signed_grouped(v as int),
{
    if v < 0 {
        push_char(s, '-');
    }
    let m = magnitude(v);
    push_grouped(s, m);
}

/// `v` grouped by thousands, with a `-` when negative.
pub fn grouped_string(v: i64) -> (s: String)
    ensures
        s@ == signed_grouped(v as int),
{
    let mut s = String::new();
    push_signed_grouped(&mut s, v);
    s
}

/// Appends `t` followed by spaces up to `width` characters.
pub fn push_padded_right(s: &mut String, t: &str, width: usize)
    ensures
        final(s)@ == old(s)@ + pad_right(t@, width as nat),
{
    let len = t.unicode_len();
    s.append(t);
    if len < width {
        push_repeated(s, ' ', width - len);
    }
}


// ---------------------------------------------------------------------
// Byte lengths and truncation
// ---------------------------------------------------------------------

/// The number of bytes that the UTF-8 encoding of `c` takes.
pub open spec fn char_utf8_len(c: char) -> nat {
    if (c as u32) < 0x80 {
        1
    } else if (c as u32) < 0x800 {
        2
    } else if (c as u32) < 0x10000 {
        3
    } else {
        4
    }
}

/// The number of bytes that the UTF-8 encoding of `s` takes.
pub open spec fn utf8_len(s: Seq<char>) -> nat
    decreases s.len(),
{
    if s.len() == 0 {
        0
    } else {
        utf8_len(s.drop_last()) + char_utf8_len(s.last())
    }
}

/// The longest prefix of `s` whose encoding takes at most `limit` bytes.
pub open spec fn fit_prefix(s: Seq<char>, limit: nat) -> Seq<char>
    decreases s.len(),
{
    if utf8_len(s) <= limit || s.len() == 0 {
        s
    } else {
        fit_prefix(s.drop_last(), limit)
    }
}

/// What a string shows when it is capped to `max` bytes for fixed-size
/// formatting: the longest prefix, cut between characters, that takes
/// fewer than `max` bytes.
pub open spec fn capped(s: Seq<char>, max: nat) -> Seq<char> {
    if max == 0 {
        Seq::empty()
    } else {
        fit_prefix(s, (max - 1) as nat)
    }
}

/// The number of bytes that `c` takes in UTF-8.
pub fn utf8_width(c: char) -> (n: usize)
    ensures
        n == char_utf8_len(c),
{
    let x = c as u32;
    if x < 0x80 {
        1
    } else if x < 0x800 {
        2
    } else if x < 0x10000 {
        3
    } else {
        4
    }
}

proof fn lemma_utf8_len_take_step(s: Seq<char>, i: int)
    requires
        0 <= i < s.len(),
    ensures
        utf8_len(s.take(i + 1)) == utf8_len(s.take(i)) + char_utf8_len(s[i]),
{
    assert(s.take(i + 1).drop_last() =~= s.take(i));
}

proof fn lemma_fit_prefix_take(s: Seq<char>, limit: nat, k: int)
    requires
        0 <= k <= s.len(),
        utf8_len(s.take(k)) <= limit,
        k == s.len() || utf8_len(s.take(k + 1)) > limit,
    ensures
        fit_prefix(s, limit) == s.take(k),
    decreases s.len(),
{
    if k == s.len() {
        assert(s.take(k) =~= s);
    } else {
        lemma_utf8_len_monotone(s, k + 1, s.len() as int);
        assert(s.take(s.len() as int) =~= s);
        assert(utf8_len(s) > limit);
        let t = s.drop_last();
        assert(t.take(k) =~= s.take(k));
        if k < t.len() {
            assert(t.take(k + 1) =~= s.take(k + 1));
        }
        lemma_fit_prefix_take(t, limit, k);
    }
}

proof fn lemma_utf8_len_monotone(s: Seq<char>, a: int, b: int)
    requires
        0 <= a <= b <= s.len(),
    ensures
        utf8_len(s.take(a)) <= utf8_len(s.take(b)),
    decreases b - a,
{
    if a < b {
        lemma_utf8_len_take_step(s, b - 1);
        lemma_utf8_len_monotone(s, a, b - 1);
    }
}

/// The number of bytes that `t` takes in UTF-8, or `cap` if that is
/// smaller.
pub fn utf8_len_up_to(t: &str, cap: usize) -> (n: usize)
    ensures
        n as int == if utf8_len(t@) < cap { utf8_len(t@) as int } else { cap as int },
{
    let v = chars_of(t);
    let mut k: usize = 0;
    let mut used: usize = 0;
    let mut full = false;
    while k < v.len() && !full
        invariant
            v@ == t@,
            k <= v@.len(),
            used == utf8_len(v@.take(k as int)),
            used < cap || (used == 0 && cap == 0),
            full ==> k < v@.len() && utf8_len(v@.take(k + 1)) >= cap,
        decreases v@.len() - k + (if full { 0int } else { 1int }),
    {
        proof {
            lemma_utf8_len_take_step(v@, k as int);
        }
        let w = utf8_width(v[k]);
        if w >= cap - used {
            full = true;
        } else {
            used = used + w;
            k = k + 1;
        }
    }
    if full {
        proof {
            lemma_utf8_len_monotone(v@, k + 1, v@.len() as int);
            assert(v@.take(v@.len() as int) =~= v@);
        }
        cap
    } else {
        proof {
            assert(v@.take(v@.len() as int) =~= v@);
        }
        used
    }
}

/// Appends the longest prefix of `t` that takes fewer than `max` bytes,
/// cut between characters (as a `CapStr::<max>` shows `t`).
pub fn push_capped(s: &mut String, t: &str, max: usize)
    ensures
        final(s)@ == old(s)@ + capped(t@, max as nat),
{
    if max == 0 {
        return;
    }
    let v = chars_of(t);
    let limit = max - 1;
    let mut k: usize = 0;
    let mut used: usize = 0;
    let mut full = false;
    while !full && k < v.len()
        invariant
            v@ == t@,
            limit == max - 1,
            k <= v@.len(),
            used == utf8_len(v@.take(k as int)),
            used <= limit,
            full ==> k < v@.len() && utf8_len(v@.take(k + 1)) > limit,
        decreases v@.len() - k + (if full { 0int } else { 1int }),
    {
        let w = utf8_width(v[k]);
        proof {
            lemma_utf8_len_take_step(v@, k as int);
        }
        if w > limit - used {
            full = true;
        } else {
            used = used + w;
            k = k + 1;
        }
    }
    proof {
        lemma_fit_prefix_take(v@, limit as nat, k as int);
    }
    push_chars(s, &v, 0, k);
    assert(v@.subrange(0, k as int) == v@.take(k as int));
}

// ---------------------------------------------------------------------
// Case and comparison
// ---------------------------------------------------------------------

/// `c` with ASCII upper-case letters mapped to lower case.
pub open spec fn ascii_lower(c: char) -> char {
    if 'A' <= c && c <= 'Z' {
        ((c as u32) + 32) as char
    } else {
        c
    }
}

/// `s` with ASCII upper-case letters mapped to lower case.
pub open spec fn ascii_lowered(s: Seq<char>) -> Seq<char> {
    s.map_values(|c: char| ascii_lower(c))
}

/// Whether `s` holds ASCII characters only.
pub open spec fn all_ascii(s: Seq<char>) -> bool {
    forall|i: int| 0 <= i < s.len() ==> (s[i] as u32) < 0x80
}

/// The ASCII lower-case form of `c`.
pub fn to_ascii_lower(c: char) -> (r: char)
    ensures
        r == ascii_lower(c),
{
    if 'A' <= c && c <= 'Z' {
        let b: u8 = (c as u8) + 32u8;
        b as char
    } else {
        c
    }
}

/// Whether `a` and `b` are equal when ASCII letters are compared without
/// regard to case (`str::eq_ignore_ascii_case`).
pub fn eq_ignore_ascii_case(a: &str, b: &str) -> (r: bool)
    ensures
        r == (ascii_lowered(a@) == ascii_lowered(b@)),
{
    let x = chars_of(a);
    let y = chars_of(b);
    if x.len() != y.len() {
        proof {
            assert(ascii_lowered(a@).len() != ascii_lowered(b@).len());
        }
        return false;
    }
    let mut i: usize = 0;
    while i < x.len()
        invariant
            x@ == a@,
            y@ == b@,
            x@.len() == y@.len(),
            i <= x@.len(),
            forall|j: int| 0 <= j < i ==> ascii_lower(x@[j]) == ascii_lower(y@[j]),
        decreases x@.len() - i,
    {
        if to_ascii_lower(x[i]) != to_ascii_lower(y[i]) {
            proof {
                assert(ascii_lowered(a@)[i as int] != ascii_lowered(b@)[i as int]);
            }
            return false;
        }
        i = i + 1;
    }
    assert(ascii_lowered(a@) =~= ascii_lowered(b@));
    true
}

// ---------------------------------------------------------------------
// Joining, searching and replacing
// ---------------------------------------------------------------------

/// The parts joined with `sep` between each neighbouring pair.
pub open spec fn join(parts: Seq<Seq<char>>, sep: Seq<char>) -> Seq<char>
    decreases parts.len(),
{
    if parts.len() == 0 {
        Seq::empty()
    } else if parts.len() == 1 {
        parts[0]
    } else {
        join(parts.drop_last(), sep) + sep + parts.last()
    }
}

/// The views of a vector of strings.
pub open spec fn views(v: Seq<String>) -> Seq<Seq<char>> {
    v.map_values(|s: String| s@)
}

/// The parts joined with `sep` (`[String]::join`).
pub fn join_strings(parts: &Vec<String>, sep: &str) -> (r: String)
    ensures
        r@ == join(views(parts@), sep@),
{
    let mut r = String::new();
    let mut i: usize = 0;
    while i < parts.len()
        invariant
            i <= parts@.len(),
            r@ == join(views(parts@).take(i as int), sep@),
        decreases parts@.len() - i,
    {
        if i > 0 {
            r.append(sep);
        }
        r.append(parts[i].as_str());
        i = i + 1;
        proof {
            let t = views(parts@).take(i as int);
            assert(t.drop_last() =~= views(parts@).take(i - 1));
            if i == 1 {
                assert(join(views(parts@).take(0), sep@) =~= Seq::<char>::empty());
            }
        }
    }
    assert(views(parts@).take(parts@.len() as int) =~= views(parts@));
    r
}

/// Whether `pat` occurs in `s` starting at position `i`.
pub open spec fn occurs_at(s: Seq<char>, i: int, pat: Seq<char>) -> bool {
    0 <= i && i + pat.len() <= s.len() && s.subrange(i, i + pat.len()) == pat
}

/// Whether `pat` occurs anywhere in `s`.
pub open spec fn contains_seq(s: Seq<char>, pat: Seq<char>) -> bool {
    exists|i: int| occurs_at(s, i, pat)
}

/// `s` with every occurrence of `pat` replaced by `rep`, matches taken
/// from left to right without overlap (`str::replace`, for a non-empty
/// pattern).
pub open spec fn replace_all(s: Seq<char>, pat: Seq<char>, rep: Seq<char>) -> Seq<char>
    decreases s.len(),
{
    if pat.len() == 0 || s.len() < pat.len() {
        s
    } else if s.take(pat.len() as int) == pat {
        rep + replace_all(s.skip(pat.len() as int), pat, rep)
    } else {
        seq![s[0]] + replace_all(s.skip(1), pat, rep)
    }
}

/// Whether `pat` occurs in `v` at position `i`.
pub fn occurs_at_exec(v: &Vec<char>, i: usize, pat: &Vec<char>) -> (r: bool)
    ensures
        r == occurs_at(v@, i as int, pat@),
{
    if i > v.len() || pat.len() > v.len() - i {
        return false;
    }
    let mut j: usize = 0;
    while j < pat.len()
        invariant
            i + pat@.len() <= v@.len(),
            v@.len() <= usize::MAX,
            j <= pat@.len(),
            forall|k: int| 0 <= k < j ==> v@[i + k] == pat@[k],
        decreases pat@.len() - j,
    {
        if v[i + j] != pat[j] {
            proof {
                assert(v@.subrange(i as int, i + pat@.len())[j as int] != pat@[j as int]);
            }
            return false;
        }
        j = j + 1;
    }
    assert(v@.subrange(i as int, i + pat@.len()) =~= pat@);
    true
}

/// Whether `pat` occurs in `s` (`str::contains`).
pub fn contains_str(s: &str, pat: &str) -> (r: bool)
    ensures
        r == contains_seq(s@, pat@),
{
    let v = chars_of(s);
    let p = chars_of(pat);
    let mut i: usize = 0;
    while i < v.len()
        invariant
            v@ == s@,
            p@ == pat@,
            i <= v@.len(),
            forall|k: int| 0 <= k < i ==> !occurs_at(s@, k, pat@),
        decreases v@.len() - i,
    {
        if occurs_at_exec(&v, i, &p) {
            return true;
        }
        i = i + 1;
    }
    if occurs_at_exec(&v, v.len(), &p) {
        return true;
    }
    proof {
        assert forall|k: int| !occurs_at(s@, k, pat@) by {
            if k > s@.len() {
                assert(!occurs_at(s@, k, pat@));
            }
        }
    }
    false
}

/// `s` with every occurrence of the non-empty `pat` replaced by `rep`
/// (`str::replace`).
pub fn replace_str(s: &str, pat: &str, rep: &str) -> (r: String)
    requires
        pat@.len() > 0,
    ensures
        r@ == replace_all(s@, pat@, rep@),
{
    let v = chars_of(s);
    let p = chars_of(pat);
    let mut r = String::new();
    let mut i: usize = 0;
    assert(v@.skip(0) =~= v@);
    assert(r@ + replace_all(v@, p@, rep@) =~= replace_all(v@, p@, rep@));
    while i < v.len()
        invariant
            v@ == s@,
            p@ == pat@,
            p@.len() > 0,
            i <= v@.len(),
            r@ + replace_all(v@.skip(i as int), p@, rep@) == replace_all(v@, p@, rep@),
        decreases v@.len() - i,
    {
        let ghost rest = v@.skip(i as int);
        if occurs_at_exec(&v, i, &p) {
            proof {
                assert(rest.take(p@.len() as int) =~= v@.subrange(i as int, i + p@.len()));
                assert(rest.skip(p@.len() as int) =~= v@.skip(i + p@.len()));
            }
            r.append(rep);
            i = i + p.len();
            assert(r@ + replace_all(v@.skip(i as int), p@, rep@) =~= replace_all(v@, p@, rep@));
        } else {
            proof {
                if rest.len() >= p@.len() {
                    assert(rest.take(p@.len() as int) =~= v@.subrange(i as int, i + p@.len()));
                }
                assert(rest.skip(1) =~= v@.skip(i + 1));
            }
            push_char(&mut r, v[i]);
            i = i + 1;
            assert(r@ + replace_all(v@.skip(i as int), p@, rep@) =~= replace_all(v@, p@, rep@));
        }
    }
    proof {
        assert(v@.skip(v@.len() as int) =~= Seq::<char>::empty());
        assert(r@ + Seq::<char>::empty() =~= r@);
    }
    r
}

} // verus!
