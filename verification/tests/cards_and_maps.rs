use glass_bot::card::{
    card_level, card_statistics, count_text, fit_crop, format_colour_hex, format_join_date,
    gradient_colours, image_data_url, score_rank_text, user_group_color, CardStatistics,
};
use glass_bot::choices::{mode_of_choice, GameModeChoices};
use glass_bot::events::{
    format_best_score_author, format_leaderboard_author, format_map_title, format_notice,
    is_new_score, plan_recent_events, ActivityEvent, ActivityKind, BeatmapsetNotice,
};
use glass_bot::links::GameMode;
use glass_bot::map_format::{
    format_beatmapset, format_map_status, format_single_beatmap, MapFormatError, MapRow,
};
use glass_bot::score_format::RankStatus;

fn row(version: &str, mode: &str, drain: i32, stars: &str) -> MapRow {
    MapRow {
        version: String::from(version),
        drain,
        mode: String::from(mode),
        max_combo: 1234,
        bpm: String::from("180"),
        stars: String::from(stars),
        pp: String::from("300"),
        od: String::from("9"),
        hp: String::from("5"),
        cs: String::from("4"),
        ar: String::from("9.3"),
    }
}

#[test]
fn single_beatmap_table() {
    let r = format_single_beatmap(&row("Insane", "osu", 125, "5.5"), 18).unwrap();
    let expected = String::from("```elm\nDifficulty  Drain  BPM  PP     SR\n")
        + "Insane      2:05   180  300pp  5.5★\n\n"
        + "OD   CS   AR   HP   Max Combo  Mode\n"
        + "9    4    9.3  5    1234x      o!s\n\n```";
    assert_eq!(r, expected);
    let r = format_single_beatmap(&row("A very long difficulty name", "mania", 59, "2"), 18).unwrap();
    let expected = String::from("```elm\nDifficulty          Drain  BPM  PP     SR\n")
        + "A very long dif...  0:59   180  300pp  2★\n\n"
        + "OD   HP   Max Combo  Mode\n"
        + "9    5    1234x      o!m\n\n```";
    assert_eq!(r, expected);
    assert_eq!(
        format_single_beatmap(&row("x", "golf", 1, "1"), 18),
        Err(MapFormatError::UnknownMode)
    );
}

#[test]
fn beatmapset_table() {
    let rows = vec![row("Hard", "osu", 90, "4"), row("Easy", "taiko", 90, "2"), row("Normal", "osu", 61, "3")];
    let keys = vec![400, 200, 300];
    let r = format_beatmapset(&rows, &keys, 18).unwrap();
    let expected = String::from("```elm\nM   Difficulty  Stars  Drain  PP")
        + "\no!t Easy        2★     1:30   300pp"
        + "\no!s Normal      3★     1:01   300pp"
        + "\no!s Hard        4★     1:30   300pp"
        + "```";
    assert_eq!(r, expected);
    assert_eq!(format_map_status(&vec![], &vec![], 18), Err(MapFormatError::EmptyBeatmapset));
    assert_eq!(
        format_map_status(&rows[..1].to_vec(), &keys[..1].to_vec(), 18),
        format_single_beatmap(&rows[0], 18)
    );
    assert_eq!(format_map_status(&rows, &keys, 18), Ok(r));
}

fn stats() -> CardStatistics {
    CardStatistics {
        global_rank: Some(12345),
        country_rank: None,
        pp: 7000,
        play_time: 7300,
        play_count: 123456,
        accuracy: String::from("98.7"),
        ranked_score: 1_000_000,
        total_score: 5_000_000_000,
        ssh: 1,
        ss: 2,
        sh: 3,
        s: 1000,
        a: 4,
    }
}

#[test]
fn card_texts() {
    let t = card_statistics(&Some(stats()));
    assert_eq!(t.global_rank, "#12,345");
    assert_eq!(t.country_rank, "#0");
    assert_eq!(t.pp, "7,000");
    assert_eq!(t.play_time, "2h");
    assert_eq!(t.play_count, "123,456");
    assert_eq!(t.accuracy, "98.7%");
    assert_eq!(t.ranked_score, "1,000,000");
    assert_eq!(t.total_score, "5,000,000,000");
    assert_eq!(t.clears, "1,010");
    let none = card_statistics(&None);
    assert_eq!(none.global_rank, "-");
    assert_eq!(none.clears, "-");
    assert_eq!(score_rank_text(0), "-");
    assert_eq!(score_rank_text(1500), "#1,500");
    assert_eq!(count_text(-1234), "-1,234");
    assert_eq!(card_level(99), 99);
    assert_eq!(card_level(300), 255);
}

#[test]
fn card_header() {
    assert_eq!(user_group_color(Some(String::from("#123456")), false), "#123456");
    assert_eq!(user_group_color(Some(String::from("-1")), true), "#FF66AB");
    assert_eq!(user_group_color(None, false), "#0087CA");
    assert_eq!(format_join_date(5, 3, 2015, 3000), "Joined 5 March 2015 (3000d ago)");
    assert_eq!(format_colour_hex(0x3498DB), "#3498DB");
    assert_eq!(format_colour_hex(255), "#0000FF");
    assert_eq!(gradient_colours(1000), (String::from("#0003E8"), String::from("#0001F4")));
    assert_eq!(fit_crop(300, 100, 6), (0, 25, 300, 50));
    assert_eq!(image_data_url(&b"hi".to_vec(), true), "data:image/png;charset=utf-8;base64,aGk=");
    assert_eq!(image_data_url(&vec![0xff, 0xee], false), "data:image/png;base64,/+4=");
}

#[test]
fn mode_choices() {
    assert_eq!(mode_of_choice(GameModeChoices::Standard), GameMode::Osu);
    assert_eq!(GameMode::from(GameModeChoices::Mania), GameMode::Mania);
}

fn event(at: i64, kind: ActivityKind) -> ActivityEvent {
    ActivityEvent { created_at: at, kind }
}

#[test]
fn recent_activity() {
    let events = vec![
        event(50, ActivityKind::Upload { beatmapset_url: String::from("/s/1") }),
        event(40, ActivityKind::Rank { rank: 51, beatmap_url: String::from("/b/2"), mode: GameMode::Osu }),
        event(30, ActivityKind::Other),
        event(20, ActivityKind::Rank { rank: 50, beatmap_url: String::from("/b/3"), mode: GameMode::Osu }),
        event(10, ActivityKind::Update { beatmapset_url: String::from("/s/4") }),
    ];
    assert_eq!(plan_recent_events(&events, 15), vec![3, 0]);
    assert_eq!(plan_recent_events(&events, 0), vec![4, 3, 0]);
    assert_eq!(plan_recent_events(&events, 60), Vec::<usize>::new());
    assert!(is_new_score(11, 10));
    assert!(!is_new_score(10, 10));
}

#[test]
fn notices() {
    assert_eq!(
        format_notice(BeatmapsetNotice::Approved(RankStatus::Ranked), "A", "T", 9, "me", 3),
        "[**A - T**](https://osu.ppy.sh/beatmapsets/9) by [**me**](https://osu.ppy.sh/users/3) has been ranked!"
    );
    assert_eq!(
        format_notice(BeatmapsetNotice::Approved(RankStatus::Pending), "A", "T", 9, "me", 3),
        "[**A - T**](https://osu.ppy.sh/beatmapsets/9) by [**me**](https://osu.ppy.sh/users/3) "
    );
    assert_eq!(
        format_notice(BeatmapsetNotice::Revived, "A", "T", 9, "me", 3),
        "[**A - T**](https://osu.ppy.sh/beatmapsets/9) has been revived from eternal slumber by [**me**](https://osu.ppy.sh/users/3)"
    );
    assert_eq!(
        format_notice(BeatmapsetNotice::Updated, "A", "T", 9, "me", 3),
        "[**me**](https://osu.ppy.sh/users/3) has updated the beatmap [**A - T**](https://osu.ppy.sh/beatmapsets/9)"
    );
    assert_eq!(
        format_notice(BeatmapsetNotice::Uploaded, "A", "T", 9, "me", 3),
        "[**me**](https://osu.ppy.sh/users/3) has submitted a new beatmap [**A - T**](https://osu.ppy.sh/beatmapsets/9)"
    );
    assert_eq!(format_best_score_author("me", 4), "me set a new best score (#4/100)");
    assert_eq!(format_leaderboard_author("me"), "me set a new leaderboard score!");
    assert_eq!(format_map_title("A", "T", "Hard"), "A - T [Hard]");
}

fn base64_by_groups(bytes: &[u8]) -> String {
    fn digit(v: u8) -> char {
        match v {
            0..=25 => (b'A' + v) as char,
            26..=51 => (b'a' + v - 26) as char,
            52..=61 => (b'0' + v - 52) as char,
            62 => '+',
            _ => '/',
        }
    }
    let mut out = String::new();
    for group in bytes.chunks(3) {
        let a = group[0];
        out.push(digit(a / 4));
        match group.len() {
            1 => {
                out.push(digit((a % 4) * 16));
                out.push_str("==");
            }
            2 => {
                let b = group[1];
                out.push(digit((a % 4) * 16 + b / 16));
                out.push(digit((b % 16) * 4));
                out.push('=');
            }
            _ => {
                let (b, c) = (group[1], group[2]);
                out.push(digit((a % 4) * 16 + b / 16));
                out.push(digit((b % 16) * 4 + c / 64));
                out.push(digit(c % 64));
            }
        }
    }
    out
}

#[test]
fn data_urls_hold_padded_standard_base64() {
    assert_eq!(image_data_url(&b"Man".to_vec(), false), "data:image/png;base64,TWFu");
    assert_eq!(image_data_url(&b"hello".to_vec(), false), "data:image/png;base64,aGVsbG8=");
    assert_eq!(image_data_url(&vec![], false), "data:image/png;base64,");
    let all: Vec<u8> = (0..=255).collect();
    for len in 0..all.len() {
        let bytes = all[len..].iter().chain(all[..len].iter()).take(len % 11).copied().collect::<Vec<u8>>();
        let expected = format!("data:image/png;base64,{}", base64_by_groups(&bytes));
        assert_eq!(image_data_url(&bytes, false), expected);
    }
    assert_eq!(
        image_data_url(&all, false),
        format!("data:image/png;base64,{}", base64_by_groups(&all))
    );
}
