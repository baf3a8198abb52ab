//! The text of a score: the heading with the map, pp, grade and mods, and
//! the block of hit counts under it; and the names of ranked statuses and
//! modes.

use vstd::prelude::*;
use crate::links::{GameMode, beatmap_link, format_beatmap_link, mode_name, mode_to_string, to_lowercase, unicode_lowercase};
use crate::text::{
    decimal, grouped, signed_grouped, pad_right, repeat_char, utf8_len, decimal_string,
    push_decimal, push_grouped, push_padded_right, push_repeated, push_signed_grouped,
    utf8_len_up_to, contains_seq, contains_str, capped, push_capped,
};

verus! {

/// The grade of a score.
#[derive(Debug, Clone, Copy, PartialEq, Eq, Structural)]
pub enum Grade {
    F,
    D,
    C,
    B,
    A,
    S,
    SH,
    X,
    XH,
}

/// How a grade is written.
pub open spec fn grade_name(g: Grade) -> Seq<char> {
    match g {
        Grade::F => "F"@,
        Grade::D => "D"@,
        Grade::C => "C"@,
        Grade::B => "B"@,
        Grade::A => "A"@,
        Grade::S => "S"@,
        Grade::SH => "SH"@,
        Grade::X => "X"@,
        Grade::XH => "XH"@,
    }
}

/// Writes a grade.
pub fn grade_to_string(g: Grade) -> (r: String)
    ensures
        r@ == grade_name(g),
{
    match g {
        Grade::F => String::from_str("F"),
        Grade::D => String::from_str("D"),
        Grade::C => String::from_str("C"),
        Grade::B => String::from_str("B"),
        Grade::A => String::from_str("A"),
        Grade::S => String::from_str("S"),
        Grade::SH => String::from_str("SH"),
        Grade::X => String::from_str("X"),
        Grade::XH => String::from_str("XH"),
    }
}

/// The hit counts of a score.
#[derive(Debug, Clone, Copy, PartialEq, Eq, Structural)]
pub struct ScoreStatistics {
    pub perfect: u32,
    pub great: u32,
    pub good: u32,
    pub ok: u32,
    pub meh: u32,
    pub miss: u32,
    pub large_tick_hit: u32,
    pub small_tick_hit: u32,
    pub small_tick_miss: u32,
}

/// What the text of a score reads from the score.
#[derive(Debug, Clone)]
pub struct ScoreFacts {
    pub id: u64,
    pub mode: GameMode,
    /// Set for scores made on the current client.
    pub build_id: Option<u32>,
    /// Whether a score of the old client reached full combo, if known.
    pub legacy_perfect: Option<bool>,
    /// Whether the hit counts of a score of the current client make it
    /// a perfect play.
    pub statistics_perfect: bool,
    pub statistics: ScoreStatistics,
    pub max_combo: u32,
    pub grade: Grade,
    pub passed: bool,
    pub rank_global: Option<u32>,
    pub score: u32,
    /// The mods as the API writes them: `NM`, or the acronyms run
    /// together.
    pub mods: String,
}

/// Why a score cannot be written.
#[derive(Debug, Clone, Copy, PartialEq, Eq, Structural)]
pub enum ScoreTextError {
    /// A score of the old client does not say whether it was perfect.
    MissingLegacyPerfect { score_id: u64 },
}

/// The terminal colour that starts the hit counts: green for a perfect
/// play, red otherwise; an error when that is unknown.
pub open spec fn combo_colour(s: ScoreFacts) -> Result<Seq<char>, ScoreTextError> {
    let perfect = match s.build_id {
        None => s.legacy_perfect,
        Some(_) => Some(s.statistics_perfect),
    };
    match perfect {
        None => Err(ScoreTextError::MissingLegacyPerfect { score_id: s.id }),
        Some(true) => Ok("\u{001b}[0;32m"@),
        Some(false) => Ok("\u{001b}[0;31m"@),
    }
}

/// The colour of a score's counts line: for a score of the current
/// client (with a build id) green exactly when its hit counts make a
/// perfect play, red otherwise; for a score of the old client green or
/// red as its stored perfect flag says, and an error naming the score
/// where that flag is missing.
pub proof fn lemma_combo_colour(s: ScoreFacts)
    ensures
        s.build_id is Some ==> combo_colour(s) == Ok::<Seq<char>, ScoreTextError>(
            if s.statistics_perfect {
                "\u{001b}[0;32m"@
            } else {
                "\u{001b}[0;31m"@
            },
        ),
        s.build_id is None && s.legacy_perfect == Some(true) ==> combo_colour(s) == Ok::<
            Seq<char>,
            ScoreTextError,
        >("\u{001b}[0;32m"@),
        s.build_id is None && s.legacy_perfect == Some(false) ==> combo_colour(s) == Ok::<
            Seq<char>,
            ScoreTextError,
        >("\u{001b}[0;31m"@),
        s.build_id is None && s.legacy_perfect is None ==> combo_colour(s) == Err::<
            Seq<char>,
            ScoreTextError,
        >(ScoreTextError::MissingLegacyPerfect { score_id: s.id }),
        "\u{001b}[0;32m"@ != "\u{001b}[0;31m"@,
{
    reveal_strlit("\u{001b}[0;32m");
    reveal_strlit("\u{001b}[0;31m");
    assert("\u{001b}[0;32m"@[5] != "\u{001b}[0;31m"@[5]);
}

/// The width of the gap after the `acc` heading, for an accuracy text
/// of `len` bytes.
pub open spec fn gap_width(len: nat) -> nat {
    if len < 6 {
        if len - 2 > 2 {
            (len - 2) as nat
        } else {
            2
        }
    } else {
        4
    }
}

/// The width of the gap after the accuracy itself, so that the counts
/// line up under their headings.
pub open spec fn stat_gap_width(len: nat) -> nat {
    if len > 3 {
        (gap_width(len) - (len - 3)) as nat
    } else {
        gap_width(len)
    }
}

/// A count written out and padded with spaces to `width`.
pub open spec fn padded(n: u32, width: nat) -> Seq<char> {
    pad_right(decimal(n as nat), width)
}

/// The block of hit counts of a score: a heading line for the mode, then
/// the colour, the accuracy (`accuracy` and `%`) and the counts under
/// their headings, ending with the combo out of the map's `map_combo`
/// where the mode shows it.
pub open spec fn statistic_text(s: ScoreFacts, accuracy: Seq<char>, map_combo: u32) -> Result<
    Seq<char>,
    ScoreTextError,
> {
    match combo_colour(s) {
        Err(e) => Err(e),
        Ok(colour) => {
            let acc = accuracy + "%"@;
            let len = utf8_len(acc);
            let gap = repeat_char(' ', gap_width(len));
            let stat_gap = repeat_char(' ', stat_gap_width(len));
            let st = s.statistics;
            let combo = decimal(s.max_combo as nat) + "/"@ + decimal(map_combo as nat);
            Ok(
                match s.mode {
                    GameMode::Osu => "acc"@ + gap + "300s  100s  50s  miss  combo\n"@ + colour + acc
                        + stat_gap + padded(st.great, 6) + padded(st.ok, 6) + padded(st.meh, 5)
                        + padded(st.miss, 6) + combo,
                    GameMode::Taiko => "acc"@ + gap + "great  good  miss  combo\n"@ + colour + acc
                        + stat_gap + padded(st.great, 7) + padded(st.ok, 6) + padded(st.miss, 6)
                        + combo,
                    GameMode::Mania => "acc"@ + gap + "max   300s  200s  100s  50s  miss\n"@ + colour
                        + acc + stat_gap + padded(st.perfect, 6) + padded(st.great, 6) + padded(
                        st.good,
                        6,
                    ) + padded(st.ok, 6) + padded(st.meh, 5) + padded(st.miss, 6),
                    GameMode::Catch => "acc"@ + gap + "fruits ticks drpm miss combo\n"@ + colour + acc
                        + stat_gap + padded(st.great, 7) + padded(st.large_tick_hit, 6) + padded(
                        st.small_tick_hit,
                        5,
                    ) + padded(st.small_tick_miss, 5) + combo,
                },
            )
        },
    }
}

fn push_padded(s: &mut String, n: u32, width: usize)
    ensures
        final(s)@ == old(s)@ + padded(n, width as nat),
{
    let d = decimal_string(n as u64);
    push_padded_right(s, d.as_str(), width);
}

fn push_combo(s: &mut String, max_combo: u32, map_combo: u32)
    ensures
        final(s)@ == old(s)@ + (decimal(max_combo as nat) + "/"@ + decimal(map_combo as nat)),
{
    push_decimal(s, max_combo as u64);
    s.append("/");
    push_decimal(s, map_combo as u64);
    assert(s@ =~= old(s)@ + (decimal(max_combo as nat) + "/"@ + decimal(map_combo as nat)));
}

/// Writes the block of hit counts of a score. `accuracy` is the
/// accuracy in percent, written out with at most two decimals; with its
/// `%` it takes 3 to 7 bytes.
pub fn format_score_statistic(score: &ScoreFacts, accuracy: &str, map_combo: u32) -> (r: Result<
    String,
    ScoreTextError,
>)
    requires
        3 <= utf8_len(accuracy@ + "%"@) <= 7,
    ensures
        match (r, statistic_text(*score, accuracy@, map_combo)) {
            (Ok(t), Ok(u)) => t@ == u,
            (Err(e), Err(f)) => e == f,
            _ => false,
        },
{
    let colour = match score.build_id {
        None => match score.legacy_perfect {
            None => {
                return Err(ScoreTextError::MissingLegacyPerfect { score_id: score.id });
            },
            Some(true) => "\u{001b}[0;32m",
            Some(false) => "\u{001b}[0;31m",
        },
        Some(_) => if score.statistics_perfect {
            "\u{001b}[0;32m"
        } else {
            "\u{001b}[0;31m"
        },
    };
    let mut acc = String::new();
    acc.append(accuracy);
    acc.append("%");
    let len = utf8_len_up_to(acc.as_str(), 8);
    let gap: usize = if len < 6 {
        if len - 2 > 2 {
            len - 2
        } else {
            2
        }
    } else {
        4
    };
    let stat_gap: usize = if len > 3 {
        gap - (len - 3)
    } else {
        gap
    };
    let st = score.statistics;
    let mut r = String::new();
    r.append("acc");
    push_repeated(&mut r, ' ', gap);
    match score.mode {
        GameMode::Osu => {
            r.append("300s  100s  50s  miss  combo\n");
            r.append(colour);
            r.append(acc.as_str());
            push_repeated(&mut r, ' ', stat_gap);
            push_padded(&mut r, st.great, 6);
            push_padded(&mut r, st.ok, 6);
            push_padded(&mut r, st.meh, 5);
            push_padded(&mut r, st.miss, 6);
            push_combo(&mut r, score.max_combo, map_combo);
        },
        GameMode::Taiko => {
            r.append("great  good  miss  combo\n");
            r.append(colour);
            r.append(acc.as_str());
            push_repeated(&mut r, ' ', stat_gap);
            push_padded(&mut r, st.great, 7);
            push_padded(&mut r, st.ok, 6);
            push_padded(&mut r, st.miss, 6);
            push_combo(&mut r, score.max_combo, map_combo);
        },
        GameMode::Mania => {
            r.append("max   300s  200s  100s  50s  miss\n");
            r.append(colour);
            r.append(acc.as_str());
            push_repeated(&mut r, ' ', stat_gap);
            push_padded(&mut r, st.perfect, 6);
            push_padded(&mut r, st.great, 6);
            push_padded(&mut r, st.good, 6);
            push_padded(&mut r, st.ok, 6);
            push_padded(&mut r, st.meh, 5);
            push_padded(&mut r, st.miss, 6);
        },
        GameMode::Catch => {
            r.append("fruits ticks drpm miss combo\n");
            r.append(colour);
            r.append(acc.as_str());
            push_repeated(&mut r, ' ', stat_gap);
            push_padded(&mut r, st.great, 7);
            push_padded(&mut r, st.large_tick_hit, 6);
            push_padded(&mut r, st.small_tick_hit, 5);
            push_padded(&mut r, st.small_tick_miss, 5);
            push_combo(&mut r, score.max_combo, map_combo);
        },
    }
    proof {
        let want = statistic_text(*score, accuracy@, map_combo);
        assert(want is Ok);
        assert(r@ =~= want->Ok_0);
    }
    Ok(r)
}

/// The map of a score: artist, title, difficulty name and ids.
#[derive(Debug, Clone)]
pub struct MapFacts {
    pub beatmap_id: i64,
    pub beatmapset_id: i64,
    pub artist: String,
    pub title: String,
    pub version: String,
}

/// The rank shown before the mods: the global rank of the score if it
/// has one, else its rank on the map's scoreboard if known, as `#<rank> `.
pub open spec fn rank_text(global: Option<u32>, scoreboard: Option<usize>) -> Seq<char> {
    match global {
        Some(r) => "#"@ + decimal(r as nat) + " "@,
        None => match scoreboard {
            Some(r) => "#"@ + decimal(r as nat) + " "@,
            None => Seq::empty(),
        },
    }
}

/// The grade as the heading shows it: a failed play that is not graded
/// `F` is marked `(Failed)`.
pub open spec fn shown_grade(g: Grade, passed: bool) -> Seq<char> {
    if g != Grade::F && !passed {
        grade_name(g) + " (Failed)"@
    } else {
        grade_name(g)
    }
}

/// The heading of a score: the map as a link, in italics unless the
/// artist holds a `*`; then in bold the pp, the star rating, the grade,
/// the rank, the mods and the score grouped by thousands. `pp` and
/// `stars` arrive written out.
pub open spec fn score_info_text(
    s: ScoreFacts,
    map: MapFacts,
    pp: Seq<char>,
    stars: Seq<char>,
    scoreboard_rank: Option<usize>,
) -> Seq<char> {
    let italic = if contains_seq(map.artist@, "*"@) {
        Seq::empty()
    } else {
        "*"@
    };
    "["@ + italic + map.artist@ + " - "@ + map.title@ + " ["@ + map.version@ + "]"@ + italic + "]("@
        + beatmap_link(Some(map.beatmap_id), map.beatmapset_id, Some(mode_name(s.mode))) + ")\n**"@
        + pp + "pp "@ + stars + "★, "@ + shown_grade(s.grade, s.passed) + " "@ + rank_text(
        s.rank_global,
        scoreboard_rank,
    ) + "+"@ + s.mods@ + " "@ + grouped(s.score as nat) + "**"@
}

/// Writes the heading of a score.
pub fn format_score_info(
    score: &ScoreFacts,
    map: &MapFacts,
    pp: &str,
    stars: &str,
    scoreboard_rank: Option<usize>,
) -> (r: String)
    ensures
        r@ == score_info_text(*score, *map, pp@, stars@, scoreboard_rank),
{
    let italic = if contains_str(map.artist.as_str(), "*") {
        ""
    } else {
        "*"
    };
    let mode = mode_to_string(score.mode);
    let link = format_beatmap_link(Some(map.beatmap_id), map.beatmapset_id, Some(mode.as_str()));
    let mut r = String::new();
    r.append("[");
    r.append(italic);
    r.append(map.artist.as_str());
    r.append(" - ");
    r.append(map.title.as_str());
    r.append(" [");
    r.append(map.version.as_str());
    r.append("]");
    r.append(italic);
    r.append("](");
    r.append(link.as_str());
    r.append(")\n**");
    r.append(pp);
    r.append("pp ");
    r.append(stars);
    r.append("★, ");
    let grade = grade_to_string(score.grade);
    r.append(grade.as_str());
    if score.grade != Grade::F && !score.passed {
        r.append(" (Failed)");
    }
    r.append(" ");
    match score.rank_global {
        Some(rank) => {
            r.append("#");
            push_decimal(&mut r, rank as u64);
            r.append(" ");
        },
        None => match scoreboard_rank {
            Some(rank) => {
                r.append("#");
                push_decimal(&mut r, rank as u64);
                r.append(" ");
            },
            None => {},
        },
    }
    r.append("+");
    r.append(score.mods.as_str());
    r.append(" ");
    push_grouped(&mut r, score.score as u64);
    r.append("**");
    proof {
        reveal_strlit("");
        assert(r@ =~= score_info_text(*score, *map, pp@, stars@, scoreboard_rank));
    }
    r
}

/// The text of a score: its heading, then its hit counts in an `ansi`
/// code block.
pub open spec fn new_score_text(
    s: ScoreFacts,
    map: MapFacts,
    pp: Seq<char>,
    stars: Seq<char>,
    accuracy: Seq<char>,
    map_combo: u32,
    scoreboard_rank: Option<usize>,
) -> Result<Seq<char>, ScoreTextError> {
    match statistic_text(s, accuracy, map_combo) {
        Err(e) => Err(e),
        Ok(st) => Ok(score_info_text(s, map, pp, stars, scoreboard_rank) + "```ansi\n"@ + st
            + "```"@),
    }
}

/// Writes the text of a score.
pub fn format_new_score(
    score: &ScoreFacts,
    map: &MapFacts,
    pp: &str,
    stars: &str,
    accuracy: &str,
    map_combo: u32,
    scoreboard_rank: Option<usize>,
) -> (r: Result<String, ScoreTextError>)
    requires
        3 <= utf8_len(accuracy@ + "%"@) <= 7,
    ensures
        match (r, new_score_text(*score, *map, pp@, stars@, accuracy@, map_combo, scoreboard_rank)) {
            (Ok(t), Ok(u)) => t@ == u,
            (Err(e), Err(f)) => e == f,
            _ => false,
        },
{
    let info = format_score_info(score, map, pp, stars, scoreboard_rank);
    match format_score_statistic(score, accuracy, map_combo) {
        Err(e) => Err(e),
        Ok(st) => {
            let mut r = info;
            r.append("```ansi\n");
            r.append(st.as_str());
            r.append("```");
            Ok(r)
        },
    }
}

/// The ranked status of a beatmap.
#[derive(Debug, Clone, Copy, PartialEq, Eq, Structural)]
pub enum RankStatus {
    Graveyard,
    WIP,
    Pending,
    Ranked,
    Approved,
    Qualified,
    Loved,
}

/// How a ranked status is written.
pub open spec fn rank_status_name(s: RankStatus) -> Seq<char> {
    match s {
        RankStatus::Graveyard => "Graveyard"@,
        RankStatus::WIP => "WIP"@,
        RankStatus::Pending => "Pending"@,
        RankStatus::Ranked => "Ranked"@,
        RankStatus::Approved => "Approved"@,
        RankStatus::Qualified => "Qualified"@,
        RankStatus::Loved => "Loved"@,
    }
}

/// Writes a ranked status.
pub fn format_rank_status(status: RankStatus) -> (r: String)
    ensures
        r@ == rank_status_name(status),
{
    match status {
        RankStatus::Graveyard => String::from_str("Graveyard"),
        RankStatus::WIP => String::from_str("WIP"),
        RankStatus::Pending => String::from_str("Pending"),
        RankStatus::Ranked => String::from_str("Ranked"),
        RankStatus::Approved => String::from_str("Approved"),
        RankStatus::Qualified => String::from_str("Qualified"),
        RankStatus::Loved => String::from_str("Loved"),
    }
}

/// The short name of a mode.
pub open spec fn mode_abbreviation(m: GameMode) -> Seq<char> {
    match m {
        GameMode::Osu => "o!s"@,
        GameMode::Taiko => "o!t"@,
        GameMode::Catch => "o!c"@,
        GameMode::Mania => "o!m"@,
    }
}

/// Writes the short name of a mode.
pub fn format_mode_abbreviation(mode: GameMode) -> (r: String)
    ensures
        r@ == mode_abbreviation(mode),
{
    match mode {
        GameMode::Osu => String::from_str("o!s"),
        GameMode::Taiko => String::from_str("o!t"),
        GameMode::Catch => String::from_str("o!c"),
        GameMode::Mania => String::from_str("o!m"),
    }
}

/// How a value that is written with decimals changed: not at all, or up
/// or down, with the change written out with its sign (as `+1.5`).
#[derive(Debug, Clone)]
pub enum Change {
    Unchanged,
    Rose(String),
    Fell(String),
}

/// Two snapshots of a player's profile, as the progress line compares
/// them. Decimal values arrive written out.
#[derive(Debug, Clone)]
pub struct ProfileChange {
    pub mode: GameMode,
    pub pp: String,
    pub pp_change: Change,
    pub old_global_rank: i32,
    pub new_global_rank: i32,
    pub country_code: String,
    pub old_country_rank: i32,
    pub new_country_rank: i32,
    pub accuracy: String,
    pub accuracy_change: Change,
    pub old_ranked_score: i64,
    pub new_ranked_score: i64,
}

/// A change written after a value, with `unit` after it: nothing when
/// unchanged.
pub open spec fn change_text(c: Change, unit: Seq<char>) -> Seq<char> {
    match c {
        Change::Unchanged => Seq::empty(),
        Change::Rose(t) => " "@ + t@ + unit,
        Change::Fell(t) => " "@ + t@ + unit,
    }
}

/// The difference `d` of a whole number, grouped by thousands: nothing
/// for no change, `+` before a gain.
pub open spec fn count_change_text(d: int) -> Seq<char> {
    if d == 0 {
        Seq::empty()
    } else if d > 0 {
        " +"@ + capped(grouped(d as nat), 32)
    } else {
        " "@ + capped(signed_grouped(d), 33)
    }
}

/// `v` limited to the range of `i64`.
pub open spec fn clamp_i64(v: int) -> int {
    if v > i64::MAX {
        i64::MAX as int
    } else if v < i64::MIN {
        i64::MIN as int
    } else {
        v
    }
}

/// The symbol before the accuracy: rising, falling, or a target.
pub open spec fn accuracy_symbol(c: Change) -> Seq<char> {
    match c {
        Change::Rose(_) => "\u{1f4c8}"@,
        Change::Fell(_) => "\u{1f4c9}"@,
        Change::Unchanged => "\u{1f3af}"@,
    }
}

/// The progress line of a player: mode, pp and its change; global rank
/// and its change (a better rank counts as a gain); the flag, country
/// rank and its change; then the accuracy and ranked score with theirs.
pub open spec fn diff_text(p: ProfileChange) -> Seq<char> {
    "`"@ + capped(mode_abbreviation(p.mode), 12) + " "@ + p.pp@ + "pp"@ + capped(
        change_text(p.pp_change, "pp"@),
        32,
    ) + "` \u{1F30D}`#"@ + capped(signed_grouped(p.new_global_rank as int), 32) + count_change_text(
        p.old_global_rank - p.new_global_rank,
    ) + "` :flag_"@ + capped(unicode_lowercase(p.country_code@), 8) + ":`#"@ + capped(
        signed_grouped(p.new_country_rank as int),
        32,
    ) + count_change_text(p.old_country_rank - p.new_country_rank) + "`\n"@ + capped(
        accuracy_symbol(p.accuracy_change),
        12,
    ) + "`"@ + p.accuracy@ + "%"@ + capped(change_text(p.accuracy_change, "%"@), 32) + "` \u{1f522}`"@
        + capped(signed_grouped(p.new_ranked_score as int), 32) + count_change_text(
        clamp_i64(p.new_ranked_score - p.old_ranked_score),
    ) + "`"@
}

fn format_change(c: &Change, unit: &str) -> (r: String)
    ensures
        r@ == change_text(*c, unit@),
{
    let mut r = String::new();
    match c {
        Change::Unchanged => {},
        Change::Rose(t) => {
            r.append(" ");
            r.append(t.as_str());
            r.append(unit);
        },
        Change::Fell(t) => {
            r.append(" ");
            r.append(t.as_str());
            r.append(unit);
        },
    }
    r
}

fn push_count_change(s: &mut String, d: i64)
    ensures
        final(s)@ == old(s)@ + count_change_text(d as int),
{
    if d > 0 {
        s.append(" +");
        let g = crate::text::grouped_string(d);
        push_capped(s, g.as_str(), 32);
    } else if d < 0 {
        s.append(" ");
        let g = crate::text::grouped_string(d);
        push_capped(s, g.as_str(), 33);
    }
}

/// Writes the progress line of a player.
pub fn format_diff(p: &ProfileChange) -> (r: String)
    ensures
        r@ == diff_text(*p),
{
    let global_diff: i64 = p.old_global_rank as i64 - p.new_global_rank as i64;
    let country_diff: i64 = p.old_country_rank as i64 - p.new_country_rank as i64;
    let score_diff: i64 = match p.new_ranked_score.checked_sub(p.old_ranked_score) {
        Some(d) => d,
        None => if p.old_ranked_score < 0 {
            i64::MAX
        } else {
            i64::MIN
        },
    };
    let symbol = match &p.accuracy_change {
        Change::Rose(_) => "\u{1f4c8}",
        Change::Fell(_) => "\u{1f4c9}",
        Change::Unchanged => "\u{1f3af}",
    };
    let mut r = String::new();
    r.append("`");
    let abbreviation = format_mode_abbreviation(p.mode);
    push_capped(&mut r, abbreviation.as_str(), 12);
    r.append(" ");
    r.append(p.pp.as_str());
    r.append("pp");
    let pp_change = format_change(&p.pp_change, "pp");
    push_capped(&mut r, pp_change.as_str(), 32);
    r.append("` \u{1F30D}`#");
    let global = crate::text::grouped_string(p.new_global_rank as i64);
    push_capped(&mut r, global.as_str(), 32);
    push_count_change(&mut r, global_diff);
    r.append("` :flag_");
    let code = to_lowercase(p.country_code.as_str());
    push_capped(&mut r, code.as_str(), 8);
    r.append(":`#");
    let country = crate::text::grouped_string(p.new_country_rank as i64);
    push_capped(&mut r, country.as_str(), 32);
    push_count_change(&mut r, country_diff);
    r.append("`\n");
    push_capped(&mut r, symbol, 12);
    r.append("`");
    r.append(p.accuracy.as_str());
    r.append("%");
    let acc_change = format_change(&p.accuracy_change, "%");
    push_capped(&mut r, acc_change.as_str(), 32);
    r.append("` \u{1f522}`");
    let ranked = crate::text::grouped_string(p.new_ranked_score);
    push_capped(&mut r, ranked.as_str(), 32);
    push_count_change(&mut r, score_diff);
    r.append("`");
    proof {
        assert(r@ =~= diff_text(*p));
    }
    r
}

/// The reply to a member who has not linked an osu! profile: their name
/// and the command that links one, with the guild's prefix.
pub open spec fn missing_user_text(user_name: Seq<char>, prefix: Seq<char>) -> Seq<char> {
    "No osu! profile assigned to **"@ + capped(user_name, 128)
        + "**! Please assign a profile using **"@ + capped(prefix, 4) + "osu link <username>**"@
}

/// Writes the reply to a member who has not linked an osu! profile.
pub fn format_missing_user_string(user_name: &str, prefix: &str) -> (r: String)
    ensures
        r@ == missing_user_text(user_name@, prefix@),
{
    let mut r = String::new();
    r.append("No osu! profile assigned to **");
    push_capped(&mut r, user_name, 128);
    r.append("**! Please assign a profile using **");
    push_capped(&mut r, prefix, 4);
    r.append("osu link <username>**");
    r
}

} // verus!
