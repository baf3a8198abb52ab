//! The texts and numbers of a player card: statistics, ranks, level,
//! group colour, join date, the colours of the header gradient, how the
//! cover image is cropped, and the images embedded as data links.

use base64::Engine;
use vstd::prelude::*;
use crate::text::{decimal, grouped, signed_grouped, signed_decimal, push_decimal, push_grouped, push_signed_grouped, push_signed_decimal, push_char, str_eq};

verus! {

/// The statistics of a player that the card shows. The accuracy arrives
/// written out; the pp arrive as their whole part.
#[derive(Debug, Clone)]
pub struct CardStatistics {
    pub global_rank: Option<u32>,
    pub country_rank: Option<u32>,
    pub pp: u32,
    pub play_time: u32,
    pub play_count: u32,
    pub accuracy: String,
    pub ranked_score: u64,
    pub total_score: u64,
    pub ssh: i32,
    pub ss: i32,
    pub sh: i32,
    pub s: i32,
    pub a: i32,
}

/// The texts of the statistics on the card.
#[derive(Debug, Clone)]
pub struct CardTexts {
    pub global_rank: String,
    pub country_rank: String,
    pub pp: String,
    pub play_time: String,
    pub play_count: String,
    pub accuracy: String,
    pub ranked_score: String,
    pub total_score: String,
    pub clears: String,
}

/// A rank on the card: `#` and the rank grouped by thousands (0 when
/// unranked).
pub open spec fn card_rank(rank: Option<u32>) -> Seq<char> {
    "#"@ + grouped(
        match rank {
            Some(r) => r as nat,
            None => 0,
        },
    )
}

/// The number of clears: the counts of all passing grades.
pub open spec fn clear_count(s: CardStatistics) -> int {
    s.ssh + s.ss + s.sh + s.s + s.a
}

/// Whether the texts are those of the statistics: `-` everywhere for a
/// player without statistics.
pub open spec fn card_texts_of(stats: Option<CardStatistics>, t: CardTexts) -> bool {
    match stats {
        None => {
            &&& t.global_rank@ == "-"@
            &&& t.country_rank@ == "-"@
            &&& t.pp@ == "-"@
            &&& t.play_time@ == "-"@
            &&& t.play_count@ == "-"@
            &&& t.accuracy@ == "-"@
            &&& t.ranked_score@ == "-"@
            &&& t.total_score@ == "-"@
            &&& t.clears@ == "-"@
        },
        Some(s) => {
            &&& t.global_rank@ == card_rank(s.global_rank)
            &&& t.country_rank@ == card_rank(s.country_rank)
            &&& t.pp@ == grouped(s.pp as nat)
            &&& t.play_time@ == decimal((s.play_time / 3600) as nat) + "h"@
            &&& t.play_count@ == grouped(s.play_count as nat)
            &&& t.accuracy@ == s.accuracy@ + "%"@
            &&& t.ranked_score@ == grouped(s.ranked_score as nat)
            &&& t.total_score@ == grouped(s.total_score as nat)
            &&& t.clears@ == signed_grouped(clear_count(s))
        },
    }
}

fn rank_string(rank: Option<u32>) -> (r: String)
    ensures
        r@ == card_rank(rank),
{
    let mut r = String::new();
    r.append("#");
    let n: u64 = match rank {
        Some(x) => x as u64,
        None => 0,
    };
    push_grouped(&mut r, n);
    r
}

fn grouped_u64(n: u64) -> (r: String)
    ensures
        r@ == grouped(n as nat),
{
    let mut r = String::new();
    push_grouped(&mut r, n);
    r
}

/// The texts of the statistics on the card.
pub fn card_statistics(stats: &Option<CardStatistics>) -> (r: CardTexts)
    ensures
        card_texts_of(*stats, r),
{
    match stats {
        None => {
            proof {
                reveal_strlit("-");
            }
            CardTexts {
                global_rank: String::from_str("-"),
                country_rank: String::from_str("-"),
                pp: String::from_str("-"),
                play_time: String::from_str("-"),
                play_count: String::from_str("-"),
                accuracy: String::from_str("-"),
                ranked_score: String::from_str("-"),
                total_score: String::from_str("-"),
                clears: String::from_str("-"),
            }
        },
        Some(s) => {
            let mut play_time = String::new();
            push_decimal(&mut play_time, (s.play_time / 3600) as u64);
            play_time.append("h");
            let mut accuracy = String::new();
            accuracy.append(s.accuracy.as_str());
            accuracy.append("%");
            let clears: i64 = s.ssh as i64 + s.ss as i64 + s.sh as i64 + s.s as i64 + s.a as i64;
            let mut clears_text = String::new();
            push_signed_grouped(&mut clears_text, clears);
            CardTexts {
                global_rank: rank_string(s.global_rank),
                country_rank: rank_string(s.country_rank),
                pp: grouped_u64(s.pp as u64),
                play_time,
                play_count: grouped_u64(s.play_count as u64),
                accuracy,
                ranked_score: grouped_u64(s.ranked_score),
                total_score: grouped_u64(s.total_score),
                clears: clears_text,
            }
        },
    }
}

/// The score rank on the card: `-` for none (0), else `#` and the rank
/// grouped by thousands.
pub fn score_rank_text(rank: u64) -> (r: String)
    ensures
        r@ == if rank == 0 { "-"@ } else { "#"@ + grouped(rank as nat) },
{
    if rank == 0 {
        String::from_str("-")
    } else {
        let mut r = String::new();
        r.append("#");
        push_grouped(&mut r, rank);
        r
    }
}

/// A count on the card grouped by thousands (a grade count, or the
/// followers with none as 0).
pub fn count_text(n: i64) -> (r: String)
    ensures
        r@ == signed_grouped(n as int),
{
    let mut r = String::new();
    push_signed_grouped(&mut r, n);
    r
}

/// The level shown on the card: the current level, at most 255.
pub fn card_level(current: u32) -> (r: u8)
    ensures
        r == if current > 255 { 255 } else { current },
{
    if current > 255 {
        255
    } else {
        current as u8
    }
}

/// The colour of the group bar: the profile colour if one is set (not
/// `-1`), else pink for supporters and blue for others.
pub open spec fn group_color(profile_color: Option<Seq<char>>, is_supporter: bool) -> Seq<char> {
    match profile_color {
        Some(c) if c != "-1"@ => c,
        _ => if is_supporter {
            "#FF66AB"@
        } else {
            "#0087CA"@
        },
    }
}

/// Picks the colour of the group bar.
pub fn user_group_color(profile_color: Option<String>, is_supporter: bool) -> (r: String)
    ensures
        r@ == group_color(
            match profile_color {
                Some(c) => Some(c@),
                None => None,
            },
            is_supporter,
        ),
{
    if let Some(c) = profile_color {
        if !str_eq(c.as_str(), "-1") {
            return c;
        }
    }
    if is_supporter {
        String::from_str("#FF66AB")
    } else {
        String::from_str("#0087CA")
    }
}

/// The English name of a month (1 to 12).
pub open spec fn month_name(m: u8) -> Seq<char> {
    if m == 1 {
        "January"@
    } else if m == 2 {
        "February"@
    } else if m == 3 {
        "March"@
    } else if m == 4 {
        "April"@
    } else if m == 5 {
        "May"@
    } else if m == 6 {
        "June"@
    } else if m == 7 {
        "July"@
    } else if m == 8 {
        "August"@
    } else if m == 9 {
        "September"@
    } else if m == 10 {
        "October"@
    } else if m == 11 {
        "November"@
    } else {
        "December"@
    }
}

fn push_month(s: &mut String, m: u8)
    requires
        1 <= m <= 12,
    ensures
        final(s)@ == old(s)@ + month_name(m),
{
    if m == 1 {
        s.append("January");
    } else if m == 2 {
        s.append("February");
    } else if m == 3 {
        s.append("March");
    } else if m == 4 {
        s.append("April");
    } else if m == 5 {
        s.append("May");
    } else if m == 6 {
        s.append("June");
    } else if m == 7 {
        s.append("July");
    } else if m == 8 {
        s.append("August");
    } else if m == 9 {
        s.append("September");
    } else if m == 10 {
        s.append("October");
    } else if m == 11 {
        s.append("November");
    } else {
        s.append("December");
    }
}

/// The join date on the card: `Joined <day> <month> <year> (<days>d ago)`.
pub open spec fn join_date_text(day: u8, month: u8, year: i32, days_ago: i64) -> Seq<char> {
    "Joined "@ + decimal(day as nat) + " "@ + month_name(month) + " "@ + signed_decimal(year as int)
        + " ("@ + signed_decimal(days_ago as int) + "d ago)"@
}

/// Writes the join date on the card.
pub fn format_join_date(day: u8, month: u8, year: i32, days_ago: i64) -> (r: String)
    requires
        1 <= month <= 12,
    ensures
        r@ == join_date_text(day, month, year, days_ago),
{
    let mut r = String::new();
    r.append("Joined ");
    push_decimal(&mut r, day as u64);
    r.append(" ");
    push_month(&mut r, month);
    r.append(" ");
    push_signed_decimal(&mut r, year as i64);
    r.append(" (");
    push_signed_decimal(&mut r, days_ago);
    r.append("d ago)");
    r
}

/// The character of a hexadecimal digit, upper case.
pub open spec fn hex_digit(d: int) -> char {
    if d < 10 {
        (48 + d) as char
    } else {
        (55 + d) as char
    }
}

/// The hexadecimal digits of a number, most significant first.
pub open spec fn hex(n: nat) -> Seq<char>
    decreases n,
{
    if n < 16 {
        seq![hex_digit(n as int)]
    } else {
        hex(n / 16).push(hex_digit((n % 16) as int))
    }
}

/// A colour as `#RRGGBB` (at least six upper-case hex digits).
pub open spec fn colour_hex(c: u32) -> Seq<char> {
    let h = hex(c as nat);
    "#"@ + if h.len() < 6 {
        Seq::new((6 - h.len()) as nat, |i: int| '0') + h
    } else {
        h
    }
}

fn push_hex(s: &mut String, n: u32)
    ensures
        final(s)@ == old(s)@ + hex(n as nat),
    decreases n,
{
    if n >= 16 {
        push_hex(s, n / 16);
    }
    let d = n % 16;
    let c: char = if d < 10 {
        ((48 + d) as u8) as char
    } else {
        ((55 + d) as u8) as char
    };
    push_char(s, c);
}

/// Writes a colour as `#RRGGBB`.
pub fn format_colour_hex(c: u32) -> (r: String)
    ensures
        r@ == colour_hex(c),
{
    let mut digits = String::new();
    push_hex(&mut digits, c);
    let len = digits.as_str().unicode_len();
    let mut r = String::new();
    r.append("#");
    if len < 6 {
        crate::text::push_repeated(&mut r, '0', 6 - len);
    }
    r.append(digits.as_str());
    proof {
        if len < 6 {
            assert(crate::text::repeat_char('0', (6 - len) as nat) =~= Seq::new(
                (6 - len) as nat,
                |i: int| '0',
            ));
        }
    }
    r
}

/// The two ends of the header gradient: the card colour, and the colour
/// whose value is 500 below it.
pub fn gradient_colours(colour: u32) -> (r: (String, String))
    requires
        colour >= 500,
    ensures
        r.0@ == colour_hex(colour),
        r.1@ == colour_hex((colour - 500) as u32),
{
    (format_colour_hex(colour), format_colour_hex(colour - 500))
}

/// How the cover image is cut before it is scaled: the left and top
/// offset and the width and height of the part kept, for an image of
/// `width` by `height` and the aspect ratio `ratio` (width over height).
pub open spec fn crop_box(width: u32, height: u32, ratio: u32) -> (u32, u32, u32, u32) {
    let target_width = if width < height * ratio {
        width
    } else {
        (height * ratio) as u32
    };
    let target_height = if height < width / ratio {
        height
    } else {
        (width / ratio) as u32
    };
    (
        ((target_width - width) / 2) as u32,
        ((height - target_height) / 2) as u32,
        target_width,
        target_height,
    )
}

/// Computes how the cover image is cut. The kept part spans the whole
/// width: an image wider than the ratio allows is refused, as the
/// offset would fall below zero.
pub fn fit_crop(width: u32, height: u32, ratio: u32) -> (r: (u32, u32, u32, u32))
    requires
        ratio > 0,
        height * ratio <= u32::MAX,
        width <= height * ratio,
    ensures
        r == crop_box(width, height, ratio),
{
    let scaled = height * ratio;
    let target_width = if width < scaled {
        width
    } else {
        scaled
    };
    let by_width = width / ratio;
    let target_height = if height < by_width {
        height
    } else {
        by_width
    };
    ((target_width - width) / 2, (height - target_height) / 2, target_width, target_height)
}

/// The character of the standard base64 alphabet for a 6-bit value:
/// `A`–`Z`, `a`–`z`, `0`–`9`, `+`, `/`.
pub open spec fn base64_digit(v: int) -> char {
    if v < 26 {
        (65 + v) as char
    } else if v < 52 {
        (97 + v - 26) as char
    } else if v < 62 {
        (48 + v - 52) as char
    } else if v == 62 {
        '+'
    } else {
        '/'
    }
}

/// The padded standard base64 encoding of some bytes: each group of three
/// bytes becomes four characters of six bits each, and a last group of one
/// or two bytes is filled up with `=`.
pub open spec fn base64_standard(bytes: Seq<u8>) -> Seq<char>
    decreases bytes.len(),
{
    if bytes.len() == 0 {
        Seq::empty()
    } else if bytes.len() == 1 {
        let a = bytes[0] as int;
        seq![base64_digit(a / 4), base64_digit((a % 4) * 16), '=', '=']
    } else if bytes.len() == 2 {
        let a = bytes[0] as int;
        let b = bytes[1] as int;
        seq![base64_digit(a / 4), base64_digit((a % 4) * 16 + b / 16), base64_digit((b % 16) * 4), '=']
    } else {
        let a = bytes[0] as int;
        let b = bytes[1] as int;
        let c = bytes[2] as int;
        seq![
            base64_digit(a / 4),
            base64_digit((a % 4) * 16 + b / 16),
            base64_digit((b % 16) * 4 + c / 64),
            base64_digit(c % 64),
        ] + base64_standard(bytes.subrange(3, bytes.len() as int))
    }
}

/// Calls `STANDARD.encode` of the `base64` crate: the padded standard
/// encoding of the bytes, as `base64_standard` writes it out. The crate
/// panics when the encoded length overflows, which the bound on the input
/// rules out.
#[verifier::external_body]
fn encode_base64(bytes: &Vec<u8>) -> (r: String)
    requires
        bytes@.len() <= usize::MAX / 2,
    ensures
        r@ == base64_standard(bytes@),
{
    base64::engine::general_purpose::STANDARD.encode(bytes)
}

/// An image embedded in the card as a data link, marked as UTF-8 text
/// (as the grade and cover images are) or not (as the avatar is).
pub fn image_data_url(png: &Vec<u8>, with_charset: bool) -> (r: String)
    requires
        png@.len() <= usize::MAX / 2,
    ensures
        r@ == (if with_charset {
            "data:image/png;charset=utf-8;base64,"@
        } else {
            "data:image/png;base64,"@
        }) + base64_standard(png@),
{
    let mut r = String::new();
    if with_charset {
        r.append("data:image/png;charset=utf-8;base64,");
    } else {
        r.append("data:image/png;base64,");
    }
    let encoded = encode_base64(png);
    r.append(encoded.as_str());
    r
}

} // verus!
