//! The table of a beatmap or a beatmapset: one row per difficulty with
//! its name cut to a width, its drain time, and its computed values.

use vstd::prelude::*;
use crate::links::{GameMode, gamemode_from_string, mode_of_name};
use crate::score_format::{mode_abbreviation, format_mode_abbreviation};
use crate::sorting::{sorts, sorted_order, sort_order};
use crate::text::{decimal, signed_decimal, zero_padded, pad_right, utf8_len, utf8_len_up_to, push_padded_right, push_signed_decimal, push_zero_padded, push_decimal};

verus! {

/// A difficulty of a beatmap as its table row shows it. Computed values
/// (stars, pp, BPM and the settings) arrive written out.
#[derive(Debug, Clone)]
pub struct MapRow {
    pub version: String,
    /// The drain time in seconds.
    pub drain: i32,
    /// The mode as stored (`osu`, `taiko`, `fruits`, `mania`, ...).
    pub mode: String,
    pub max_combo: i32,
    pub bpm: String,
    pub stars: String,
    pub pp: String,
    pub od: String,
    pub hp: String,
    pub cs: String,
    pub ar: String,
}

/// Why a table cannot be written.
#[derive(Debug, Clone, Copy, PartialEq, Eq, Structural)]
pub enum MapFormatError {
    /// A difficulty's mode is not one of the four.
    UnknownMode,
    /// The beatmapset has no difficulty.
    EmptyBeatmapset,
}

/// The width of the name column: the longest name in bytes, at most
/// `max_diff_length` and at least 10.
pub open spec fn column_width(longest: nat, max_diff_length: nat) -> nat {
    if longest > max_diff_length {
        max_diff_length
    } else if longest < 10 {
        10
    } else {
        longest
    }
}

/// A name as the table shows it: whole if shorter than `max_diff_length`
/// bytes, else its first `max_diff_length - 3` characters and `...`.
pub open spec fn shown_name(version: Seq<char>, max_diff_length: nat) -> Seq<char> {
    if utf8_len(version) < max_diff_length {
        version
    } else if max_diff_length - 3 < version.len() {
        version.take((max_diff_length - 3) as int) + "..."@
    } else {
        version + "..."@
    }
}

/// A drain time as `m:ss` (the division of a negative time rounds toward
/// zero, as in Rust).
pub open spec fn drain_text(drain: int) -> Seq<char> {
    if drain >= 0 {
        decimal((drain / 60) as nat) + ":"@ + zero_padded(decimal((drain % 60) as nat), 2)
    } else {
        let q = -((-drain) / 60);
        let r = (-drain) % 60;
        signed_decimal(q) + ":"@ + if r == 0 {
            zero_padded(decimal(0), 2)
        } else {
            "-"@ + decimal(r as nat)
        }
    }
}

fn push_drain(s: &mut String, drain: i32)
    ensures
        final(s)@ == old(s)@ + drain_text(drain as int),
{
    if drain >= 0 {
        let d = drain as u64;
        push_decimal(s, d / 60);
        s.append(":");
        push_zero_padded(s, d % 60, 2);
    } else {
        let m: u64 = (-(drain as i64)) as u64;
        let q: i64 = -((m / 60) as i64);
        let r = m % 60;
        push_signed_decimal(s, q);
        s.append(":");
        if r == 0 {
            push_zero_padded(s, 0, 2);
        } else {
            s.append("-");
            push_decimal(s, r);
        }
    }
    assert(s@ =~= old(s)@ + drain_text(drain as int));
}

/// Capping a length at `usize::MAX` does not change the column width.
proof fn lemma_column_width_capped(longest: nat, max_diff_length: usize)
    ensures
        column_width(if longest < usize::MAX { longest } else { usize::MAX as nat }, max_diff_length as nat)
            == column_width(longest, max_diff_length as nat),
{
}

fn column_width_of(longest: usize, max_diff_length: usize) -> (r: usize)
    ensures
        r == column_width(longest as nat, max_diff_length as nat),
{
    if longest > max_diff_length {
        max_diff_length
    } else if longest < 10 {
        10
    } else {
        longest
    }
}

fn push_shown_name(s: &mut String, version: &str, max_diff_length: usize, width: usize)
    requires
        max_diff_length >= 3,
    ensures
        final(s)@ == old(s)@ + pad_right(shown_name(version@, max_diff_length as nat), width as nat),
{
    let len = utf8_len_up_to(version, max_diff_length);
    if len < max_diff_length {
        push_padded_right(s, version, width);
    } else {
        let v = crate::text::chars_of(version);
        let keep: usize = if max_diff_length - 3 < v.len() {
            max_diff_length - 3
        } else {
            v.len()
        };
        let mut name = String::new();
        crate::text::push_chars(&mut name, &v, 0, keep);
        name.append("...");
        proof {
            if keep == v.len() {
                assert(v@.subrange(0, keep as int) =~= version@);
            } else {
                assert(v@.subrange(0, keep as int) =~= version@.take((max_diff_length - 3) as int));
            }
        }
        push_padded_right(s, name.as_str(), width);
    }
}

/// The mode abbreviation of a stored mode name, if it names a mode.
pub open spec fn row_mode(row: MapRow) -> Option<GameMode> {
    mode_of_name(row.mode@)
}

/// The heading of a table with a name column of width `w`.
pub open spec fn single_heading(w: nat) -> Seq<char> {
    "```elm\n"@ + pad_right("Difficulty"@, w) + "  Drain  BPM  PP     SR"@ + "\n"@
}

/// The row of a single beatmap.
pub open spec fn single_row(row: MapRow, w: nat, max_diff_length: nat) -> Seq<char> {
    pad_right(shown_name(row.version@, max_diff_length), w) + "  "@ + pad_right(
        drain_text(row.drain as int),
        7,
    ) + pad_right(row.bpm@, 5) + pad_right(row.pp@ + "pp"@, 7) + row.stars@ + "★"@ + "\n\n"@
}

/// The settings block of a single beatmap: overall difficulty and drain
/// for taiko and mania, also circle size and approach rate otherwise;
/// then the max combo and the mode.
pub open spec fn single_settings(row: MapRow, mode: GameMode) -> Seq<char> {
    (if row.mode@ == "taiko"@ || row.mode@ == "mania"@ {
        "OD   HP   Max Combo  Mode\n"@ + pad_right(row.od@, 5) + pad_right(row.hp@, 5)
    } else {
        "OD   CS   AR   HP   Max Combo  Mode\n"@ + pad_right(row.od@, 5) + pad_right(row.cs@, 5)
            + pad_right(row.ar@, 5) + pad_right(row.hp@, 5)
    }) + pad_right(signed_decimal(row.max_combo as int) + "x"@, 11) + mode_abbreviation(mode)
        + "\n\n"@
}

/// The table of a single beatmap: a heading, its row, and its settings.
pub open spec fn single_beatmap_text(row: MapRow, max_diff_length: nat) -> Result<Seq<char>, MapFormatError> {
    match row_mode(row) {
        None => Err(MapFormatError::UnknownMode),
        Some(mode) => {
            let w = column_width(utf8_len(row.version@), max_diff_length);
            Ok(single_heading(w) + single_row(row, w, max_diff_length) + single_settings(row, mode)
                + "```"@)
        },
    }
}

fn push_single_row(r: &mut String, row: &MapRow, w: usize, max_diff_length: usize)
    requires
        max_diff_length >= 3,
    ensures
        final(r)@ == old(r)@ + single_row(*row, w as nat, max_diff_length as nat),
{
    push_shown_name(r, row.version.as_str(), max_diff_length, w);
    let ghost a = r@;
    r.append("  ");
    let mut drain = String::new();
    push_drain(&mut drain, row.drain);
    push_padded_right(r, drain.as_str(), 7);
    push_padded_right(r, row.bpm.as_str(), 5);
    let ghost b = r@;
    assert(b =~= a + "  "@ + pad_right(drain_text(row.drain as int), 7) + pad_right(row.bpm@, 5));
    let mut pp = String::new();
    pp.append(row.pp.as_str());
    pp.append("pp");
    push_padded_right(r, pp.as_str(), 7);
    r.append(row.stars.as_str());
    r.append("★");
    r.append("\n\n");
    assert(r@ =~= b + pad_right(row.pp@ + "pp"@, 7) + row.stars@ + "★"@ + "\n\n"@);
    assert(r@ =~= old(r)@ + single_row(*row, w as nat, max_diff_length as nat));
}

fn push_set_row(r: &mut String, row: &MapRow, mode: GameMode, w: usize, max_diff_length: usize)
    requires
        max_diff_length >= 3,
    ensures
        final(r)@ == old(r)@ + set_row_text(*row, mode, w as nat, max_diff_length as nat),
{
    r.append("\n");
    let abbreviation = format_mode_abbreviation(mode);
    push_padded_right(r, abbreviation.as_str(), 4);
    push_shown_name(r, row.version.as_str(), max_diff_length, w);
    let ghost a = r@;
    r.append("  ");
    let mut stars = String::new();
    stars.append(row.stars.as_str());
    stars.append("★");
    push_padded_right(r, stars.as_str(), 7);
    let mut drain = String::new();
    push_drain(&mut drain, row.drain);
    push_padded_right(r, drain.as_str(), 7);
    r.append(row.pp.as_str());
    r.append("pp");
    assert(r@ =~= a + "  "@ + pad_right(row.stars@ + "★"@, 7) + pad_right(drain_text(row.drain as int), 7)
        + row.pp@ + "pp"@);
    assert(r@ =~= old(r)@ + set_row_text(*row, mode, w as nat, max_diff_length as nat));
}

fn push_single_settings(r: &mut String, row: &MapRow, mode: GameMode)
    ensures
        final(r)@ == old(r)@ + single_settings(*row, mode),
{
    let taiko_or_mania = crate::text::str_eq(row.mode.as_str(), "taiko") || crate::text::str_eq(
        row.mode.as_str(),
        "mania",
    );
    if taiko_or_mania {
        r.append("OD   HP   Max Combo  Mode\n");
        push_padded_right(r, row.od.as_str(), 5);
        push_padded_right(r, row.hp.as_str(), 5);
    } else {
        r.append("OD   CS   AR   HP   Max Combo  Mode\n");
        push_padded_right(r, row.od.as_str(), 5);
        push_padded_right(r, row.cs.as_str(), 5);
        push_padded_right(r, row.ar.as_str(), 5);
        push_padded_right(r, row.hp.as_str(), 5);
    }
    let mut combo = String::new();
    push_signed_decimal(&mut combo, row.max_combo as i64);
    combo.append("x");
    push_padded_right(r, combo.as_str(), 11);
    let abbreviation = format_mode_abbreviation(mode);
    r.append(abbreviation.as_str());
    r.append("\n\n");
    assert(r@ =~= old(r)@ + single_settings(*row, mode));
}

/// Writes the table of a single beatmap.
pub fn format_single_beatmap(row: &MapRow, max_diff_length: usize) -> (r: Result<String, MapFormatError>)
    requires
        max_diff_length >= 3,
    ensures
        match (r, single_beatmap_text(*row, max_diff_length as nat)) {
            (Ok(t), Ok(u)) => t@ == u,
            (Err(e), Err(f)) => e == f,
            _ => false,
        },
{
    let mode = match gamemode_from_string(row.mode.as_str()) {
        Some(m) => m,
        None => return Err(MapFormatError::UnknownMode),
    };
    let longest = utf8_len_up_to(row.version.as_str(), usize::MAX);
    let w = column_width_of(longest, max_diff_length);
    proof {
        lemma_column_width_capped(utf8_len(row.version@), max_diff_length);
    }
    let mut r = String::new();
    r.append("```elm\n");
    push_padded_right(&mut r, "Difficulty", w);
    r.append("  Drain  BPM  PP     SR");
    r.append("\n");
    push_single_row(&mut r, row, w, max_diff_length);
    push_single_settings(&mut r, row, mode);
    r.append("```");
    proof {
        assert(r@ =~= single_heading(w as nat) + single_row(*row, w as nat, max_diff_length as nat)
            + single_settings(*row, mode) + "```"@);
    }
    Ok(r)
}

/// The longest name of the rows, in bytes.
pub open spec fn longest_name(rows: Seq<MapRow>) -> nat
    decreases rows.len(),
{
    if rows.len() == 0 {
        0
    } else {
        let rest = longest_name(rows.drop_last());
        let here = utf8_len(rows.last().version@);
        if here > rest {
            here
        } else {
            rest
        }
    }
}

/// A row of the table of a beatmapset.
pub open spec fn set_row_text(row: MapRow, mode: GameMode, w: nat, max_diff_length: nat) -> Seq<char> {
    "\n"@ + pad_right(mode_abbreviation(mode), 4) + pad_right(shown_name(row.version@, max_diff_length), w)
        + "  "@ + pad_right(row.stars@ + "★"@, 7) + pad_right(drain_text(row.drain as int), 7) + row.pp@
        + "pp"@
}

/// The rows of a beatmapset in the order `p`, or the first unknown mode.
pub open spec fn set_rows_text(rows: Seq<MapRow>, p: Seq<usize>, w: nat, max_diff_length: nat) -> Result<
    Seq<char>,
    MapFormatError,
>
    decreases p.len(),
{
    if p.len() == 0 {
        Ok(Seq::empty())
    } else {
        match set_rows_text(rows, p.drop_last(), w, max_diff_length) {
            Err(e) => Err(e),
            Ok(t) => match row_mode(rows[p.last() as int]) {
                None => Err(MapFormatError::UnknownMode),
                Some(m) => Ok(t + set_row_text(rows[p.last() as int], m, w, max_diff_length)),
            },
        }
    }
}

/// The table of a beatmapset with its difficulties in the order `p`: a
/// heading, then one row per difficulty.
pub open spec fn beatmapset_text(rows: Seq<MapRow>, p: Seq<usize>, max_diff_length: nat) -> Result<
    Seq<char>,
    MapFormatError,
> {
    let w = column_width(longest_name(rows), max_diff_length);
    match set_rows_text(rows, p, w, max_diff_length) {
        Err(e) => Err(e),
        Ok(t) => Ok("```elm\nM   "@ + pad_right("Difficulty"@, w) + "  Stars  Drain  PP"@ + t + "```"@),
    }
}

/// An error in the rows up to some point is the error of all the rows.
proof fn lemma_set_rows_err_extends(rows: Seq<MapRow>, p: Seq<usize>, k: int, w: nat, max_diff_length: nat)
    requires
        0 <= k <= p.len(),
        set_rows_text(rows, p.take(k), w, max_diff_length) is Err,
    ensures
        set_rows_text(rows, p, w, max_diff_length) == set_rows_text(rows, p.take(k), w, max_diff_length),
    decreases p.len() - k,
{
    if k == p.len() {
        assert(p.take(k) =~= p);
    } else {
        assert(p.take(k + 1).drop_last() =~= p.take(k));
        lemma_set_rows_err_extends(rows, p, k + 1, w, max_diff_length);
    }
}

/// Writes the table of a beatmapset: its difficulties in ascending order
/// of stars (`star_keys`, one per row, ordered as the star ratings are),
/// those with equal stars in their order.
pub fn format_beatmapset(rows: &Vec<MapRow>, star_keys: &Vec<i64>, max_diff_length: usize) -> (r: Result<
    String,
    MapFormatError,
>)
    requires
        max_diff_length >= 3,
        star_keys@.len() == rows@.len(),
    ensures
        match (r, beatmapset_text(rows@, sorted_order(star_keys@, false), max_diff_length as nat)) {
            (Ok(t), Ok(u)) => t@ == u,
            (Err(e), Err(f)) => e == f,
            _ => false,
        },
{
    let n = rows.len();
    let mut longest: usize = 0;
    let mut i: usize = 0;
    while i < n
        invariant
            n == rows@.len(),
            i <= n,
            longest as nat == if longest_name(rows@.take(i as int)) < usize::MAX {
                longest_name(rows@.take(i as int))
            } else {
                usize::MAX as nat
            },
        decreases n - i,
    {
        let here = utf8_len_up_to(rows[i].version.as_str(), usize::MAX);
        if here > longest {
            longest = here;
        }
        proof {
            assert(rows@.take(i + 1).drop_last() =~= rows@.take(i as int));
        }
        i = i + 1;
    }
    assert(rows@.take(n as int) =~= rows@);
    let w = column_width_of(longest, max_diff_length);
    proof {
        lemma_column_width_capped(longest_name(rows@), max_diff_length);
    }
    let order = sort_order(star_keys, false);
    let mut r = String::new();
    r.append("```elm\nM   ");
    push_padded_right(&mut r, "Difficulty", w);
    r.append("  Stars  Drain  PP");
    let ghost head = r@;
    assert(order@.take(0) =~= Seq::<usize>::empty());
    assert(r@.skip(head.len() as int) =~= Seq::<char>::empty());
    let mut k: usize = 0;
    while k < n
        invariant
            n == rows@.len(),
            n == order@.len(),
            order@ == sorted_order(star_keys@, false),
            sorts(star_keys@, false, order@),
            star_keys@.len() == n,
            max_diff_length >= 3,
            w == column_width(longest_name(rows@), max_diff_length as nat),
            k <= n,
            set_rows_text(rows@, order@.take(k as int), w as nat, max_diff_length as nat) == Ok::<
                Seq<char>,
                MapFormatError,
            >(r@.skip(head.len() as int)),
            r@.len() >= head.len(),
            r@.take(head.len() as int) == head,
        decreases n - k,
    {
        let row = &rows[order[k]];
        let mode = match gamemode_from_string(row.mode.as_str()) {
            Some(m) => m,
            None => {
                proof {
                    assert(order@.take(k + 1).drop_last() =~= order@.take(k as int));
                    lemma_set_rows_err_extends(rows@, order@, k + 1, w as nat, max_diff_length as nat);
                    assert(w == column_width(longest_name(rows@), max_diff_length as nat));
                }
                return Err(MapFormatError::UnknownMode);
            },
        };
        let ghost before = r@;
        push_set_row(&mut r, row, mode, w, max_diff_length);
        proof {
            assert(order@.take(k + 1).drop_last() =~= order@.take(k as int));
            assert(r@.skip(head.len() as int) =~= before.skip(head.len() as int) + set_row_text(
                *row,
                mode,
                w as nat,
                max_diff_length as nat,
            ));
            assert(r@.take(head.len() as int) =~= head);
        }
        k = k + 1;
    }
    assert(order@.take(n as int) =~= order@);
    r.append("```");
    proof {
        let t = set_rows_text(rows@, order@, w as nat, max_diff_length as nat)->Ok_0;
        assert(w == column_width(longest_name(rows@), max_diff_length as nat));
        assert(r@ =~= head + t + "```"@);
    }
    Ok(r)
}

/// The description of a beatmapset's notice: the table of its single
/// difficulty, or of all of them; an error when it has none.
pub fn format_map_status(rows: &Vec<MapRow>, star_keys: &Vec<i64>, max_diff_length: usize) -> (r: Result<
    String,
    MapFormatError,
>)
    requires
        max_diff_length >= 3,
        star_keys@.len() == rows@.len(),
    ensures
        rows@.len() == 0 ==> r == Err::<String, MapFormatError>(MapFormatError::EmptyBeatmapset),
        rows@.len() == 1 ==> match (r, single_beatmap_text(rows@[0], max_diff_length as nat)) {
            (Ok(t), Ok(u)) => t@ == u,
            (Err(e), Err(f)) => e == f,
            _ => false,
        },
        rows@.len() > 1 ==> match (
            r,
            beatmapset_text(rows@, sorted_order(star_keys@, false), max_diff_length as nat),
        ) {
            (Ok(t), Ok(u)) => t@ == u,
            (Err(e), Err(f)) => e == f,
            _ => false,
        },
{
    if rows.len() == 0 {
        Err(MapFormatError::EmptyBeatmapset)
    } else if rows.len() > 1 {
        format_beatmapset(rows, star_keys, max_diff_length)
    } else {
        format_single_beatmap(&rows[0], max_diff_length)
    }
}

} // verus!
