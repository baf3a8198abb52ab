use aformat::CapStr;
use num_format::{Locale, ToFormattedString};
use glass_bot::links::GameMode;
use glass_bot::mods::{fmt_with_settings, ModInfo, ModKind};
use glass_bot::paging::{
    count_score_pages, format_page_footer, format_score_list, page_button, ListedScore,
    PageButton, PageState,
};
use glass_bot::score_format::{
    format_diff, format_missing_user_string, format_mode_abbreviation, format_new_score,
    format_rank_status, format_score_info, format_score_statistic, Change, Grade, MapFacts,
    ProfileChange, RankStatus, ScoreFacts, ScoreStatistics, ScoreTextError,
};
use glass_bot::sorting::{sort_key, sort_order, sort_scores, SortChoices, SortFields};

fn stats() -> ScoreStatistics {
    ScoreStatistics {
        perfect: 7,
        great: 100,
        good: 3,
        ok: 5,
        meh: 1,
        miss: 0,
        large_tick_hit: 40,
        small_tick_hit: 20,
        small_tick_miss: 2,
    }
}

fn score(mode: GameMode) -> ScoreFacts {
    ScoreFacts {
        id: 99,
        mode,
        build_id: None,
        legacy_perfect: Some(true),
        statistics_perfect: false,
        statistics: stats(),
        max_combo: 500,
        grade: Grade::A,
        passed: true,
        rank_global: Some(5),
        score: 1234567,
        mods: String::from("HDDT"),
    }
}

fn map() -> MapFacts {
    MapFacts {
        beatmap_id: 1,
        beatmapset_id: 2,
        artist: String::from("Camellia"),
        title: String::from("Exit This Earth"),
        version: String::from("Extra"),
    }
}

#[test]
fn statistic_block_osu() {
    let r = format_score_statistic(&score(GameMode::Osu), "98.5", 600).unwrap();
    let expected = String::from("acc   300s  100s  50s  miss  combo\n")
        + "\u{1b}[0;32m"
        + "98.5% "
        + "100   5     1    0     500/600";
    assert_eq!(r, expected);
}

#[test]
fn statistic_block_other_modes() {
    let mut s = score(GameMode::Mania);
    s.build_id = Some(3);
    let r = format_score_statistic(&s, "100", 0).unwrap();
    // "100%" takes 4 bytes: a gap of 2, then 1
    let expected = String::from("acc  max   300s  200s  100s  50s  miss\n")
        + "\u{1b}[0;31m"
        + "100% "
        + "7     100   3     5     1    0     ";
    assert_eq!(r, expected);
    let r = format_score_statistic(&score(GameMode::Taiko), "9.1", 10).unwrap();
    let expected = String::from("acc  great  good  miss  combo\n")
        + "\u{1b}[0;32m"
        + "9.1% "
        + "100    5     0     500/10";
    assert_eq!(r, expected);
    let r = format_score_statistic(&score(GameMode::Catch), "99.12", 10).unwrap();
    let expected = String::from("acc    fruits ticks drpm miss combo\n")
        + "\u{1b}[0;32m"
        + "99.12% "
        + "100    40    20   2    500/10";
    assert_eq!(r, expected);
}

#[test]
fn statistic_block_without_legacy_perfect() {
    let mut s = score(GameMode::Osu);
    s.legacy_perfect = None;
    assert_eq!(
        format_score_statistic(&s, "98.5", 600),
        Err(ScoreTextError::MissingLegacyPerfect { score_id: 99 })
    );
}

#[test]
fn score_heading() {
    let r = format_score_info(&score(GameMode::Osu), &map(), "123.45", "6.5", None);
    assert_eq!(
        r,
        "[*Camellia - Exit This Earth [Extra]*](https://osu.ppy.sh/beatmapsets/2#osu/1)\n**123.45pp 6.5★, A #5 +HDDT 1,234,567**"
    );
    let mut s = score(GameMode::Taiko);
    s.grade = Grade::B;
    s.passed = false;
    s.rank_global = None;
    let mut m = map();
    m.artist = String::from("*Star*");
    let r = format_score_info(&s, &m, "1", "2", Some(3));
    assert_eq!(
        r,
        "[*Star* - Exit This Earth [Extra]](https://osu.ppy.sh/beatmapsets/2#taiko/1)\n**1pp 2★, B (Failed) #3 +HDDT 1,234,567**"
    );
}

#[test]
fn whole_score_text() {
    let r = format_new_score(&score(GameMode::Osu), &map(), "1", "2", "98.5", 600, None).unwrap();
    assert!(r.starts_with("[*Camellia"));
    assert!(r.contains("```ansi\nacc   300s"));
    assert!(r.ends_with("500/600```"));
}

#[test]
fn status_and_mode_names() {
    assert_eq!(format_rank_status(RankStatus::Graveyard), "Graveyard");
    assert_eq!(format_rank_status(RankStatus::WIP), "WIP");
    assert_eq!(format_rank_status(RankStatus::Loved), "Loved");
    assert_eq!(format_mode_abbreviation(GameMode::Osu), "o!s");
    assert_eq!(format_mode_abbreviation(GameMode::Catch), "o!c");
}

#[test]
fn progress_line() {
    let p = ProfileChange {
        mode: GameMode::Osu,
        pp: String::from("7000.5"),
        pp_change: Change::Rose(String::from("+12.5")),
        old_global_rank: 12000,
        new_global_rank: 10500,
        country_code: String::from("US"),
        old_country_rank: 100,
        new_country_rank: 120,
        accuracy: String::from("98.76"),
        accuracy_change: Change::Unchanged,
        old_ranked_score: 1000,
        new_ranked_score: 1_234_567_000,
    };
    let expected = String::from("`o!s 7000.5pp +12.5pp` \u{1F30D}`#10,500 +1,500`")
        + " :flag_us:`#120 -20`\n"
        + "\u{1f3af}`98.76%` \u{1f522}`1,234,567,000 +1,234,566,000`";
    assert_eq!(format_diff(&p), expected);
}

#[test]
fn missing_profile_reply() {
    assert_eq!(
        format_missing_user_string("peppy", "!"),
        "No osu! profile assigned to **peppy**! Please assign a profile using **!osu link <username>**"
    );
    assert_eq!(
        format_missing_user_string("x", "longprefix"),
        "No osu! profile assigned to **x**! Please assign a profile using **lonosu link <username>**"
    );
}

#[test]
fn mods_text() {
    assert_eq!(fmt_with_settings(&vec![]), "NM");
    let mods = vec![
        ModInfo { acronym: String::from("HD"), kind: ModKind::Plain },
        ModInfo {
            acronym: String::from("DT"),
            kind: ModKind::RateChange { speed_change: Some(String::from("1.5")) },
        },
        ModInfo { acronym: String::from("NC"), kind: ModKind::RateChange { speed_change: None } },
        ModInfo {
            acronym: String::from("DA"),
            kind: ModKind::DifficultyAdjust {
                circle_size: Some(String::from("4")),
                overall_difficulty: None,
                approach_rate: Some(String::from("9.5")),
                drain_rate: None,
            },
        },
        ModInfo {
            acronym: String::from("DA"),
            kind: ModKind::DifficultyAdjust {
                circle_size: None,
                overall_difficulty: None,
                approach_rate: None,
                drain_rate: None,
            },
        },
    ];
    assert_eq!(fmt_with_settings(&mods), "HD,DT (1.5x),NC,DA (CS4,AR9.5),DA");
}

#[test]
fn page_counts() {
    assert_eq!(count_score_pages(11, 5), 3);
    assert_eq!(count_score_pages(10, 5), 2);
    assert_eq!(count_score_pages(0, 5), 0);
    assert_eq!(count_score_pages(1, 5), 1);
}

#[test]
fn page_buttons() {
    assert_eq!(page_button("last_page"), PageButton::LastPage);
    assert_eq!(page_button("next_page"), PageButton::NextPage);
    assert_eq!(page_button("reset"), PageButton::Reset);
    assert_eq!(page_button("other"), PageButton::Other);
    let mut s = PageState::new(3);
    assert!(s.press(PageButton::LastPage));
    assert_eq!(s, PageState { page: 3, offset: 10, max_pages: 3 });
    assert!(s.press(PageButton::NextPage));
    assert_eq!(s, PageState { page: 1, offset: 0, max_pages: 3 });
    s.press(PageButton::NextPage);
    assert_eq!(s, PageState { page: 2, offset: 5, max_pages: 3 });
    assert!(!s.press(PageButton::Other));
    assert_eq!(s.page, 2);
    s.press(PageButton::LastPage);
    s.press(PageButton::NextPage);
    assert_eq!(s, PageState { page: 2, offset: 5, max_pages: 3 });
    s.press(PageButton::Reset);
    assert_eq!(s, PageState { page: 1, offset: 0, max_pages: 3 });
    assert_eq!(format_page_footer(2, 3), "Page 2 of 3");
}

fn listed(position: usize, footer: &str) -> ListedScore {
    ListedScore {
        position,
        text: format!("score{position}"),
        ended_at: 1_700_000_000 + position as i64,
        footer: String::from(footer),
    }
}

#[test]
fn score_list_page() {
    let scores: Vec<ListedScore> = (1..=7).map(|i| listed(i, if i == 6 { "foot" } else { "" })).collect();
    let r = format_score_list(&scores, None, Some(5));
    assert_eq!(
        r,
        "6.\nscore6<t:1700000006:R>\nfoot\n\n7.\nscore7<t:1700000007:R>\n"
    );
    let r = format_score_list(&scores, None, None);
    assert!(r.starts_with("1.\nscore1<t:1700000001:R>\n\n2."));
    assert!(r.ends_with("5.\nscore5<t:1700000005:R>\n"));
    assert_eq!(format_score_list(&scores, None, Some(10)), "");
    assert_eq!(format_score_list(&scores, Some(1), Some(2)), "3.\nscore3<t:1700000003:R>\n");
}

#[test]
fn stable_sorting() {
    let keys = vec![3i64, 1, 3, 2];
    assert_eq!(sort_order(&keys, true), vec![0, 2, 3, 1]);
    assert_eq!(sort_order(&keys, false), vec![1, 3, 0, 2]);
    let items = vec!["a", "b", "c", "d"];
    let fields: Vec<SortFields> = keys.iter().map(|k| fields_with(*k, *k)).collect();
    assert_eq!(sort_scores(items.clone(), &fields, SortChoices::PP), vec!["a", "c", "d", "b"]);
    assert_eq!(sort_scores(items, &fields, SortChoices::Oldest), vec!["b", "d", "a", "c"]);
    let empty: Vec<u8> = vec![];
    assert_eq!(sort_scores(empty, &vec![], SortChoices::Recent), Vec::<u8>::new());
}

fn fields_with(pp: i64, ended_at: i64) -> SortFields {
    SortFields {
        ended_at,
        max_combo: 10,
        score: 1000,
        drain: 90,
        misses: 2,
        accuracy_order: 7,
        pp_order: pp,
        stars_order: 5,
        bpm_order: 180,
    }
}

#[test]
fn each_choice_sorts_by_its_value() {
    let f = SortFields {
        ended_at: 1,
        max_combo: 2,
        score: 3,
        drain: 4,
        misses: 5,
        accuracy_order: 6,
        pp_order: 7,
        stars_order: 8,
        bpm_order: 9,
    };
    assert_eq!(sort_key(&f, SortChoices::Recent), 1);
    assert_eq!(sort_key(&f, SortChoices::Oldest), 1);
    assert_eq!(sort_key(&f, SortChoices::Combo), 2);
    assert_eq!(sort_key(&f, SortChoices::Score), 3);
    assert_eq!(sort_key(&f, SortChoices::Length), 4);
    assert_eq!(sort_key(&f, SortChoices::Misses), 5);
    assert_eq!(sort_key(&f, SortChoices::Accuracy), 6);
    assert_eq!(sort_key(&f, SortChoices::PP), 7);
    assert_eq!(sort_key(&f, SortChoices::Stars), 8);
    assert_eq!(sort_key(&f, SortChoices::Bpm), 9);
    let scores = vec!["new", "old", "newest"];
    let fields = vec![fields_with(0, 20), fields_with(0, 10), fields_with(0, 30)];
    assert_eq!(sort_scores(scores.clone(), &fields, SortChoices::Recent), vec!["newest", "new", "old"]);
    assert_eq!(sort_scores(scores, &fields, SortChoices::Oldest), vec!["old", "new", "newest"]);
}

#[test]
fn grouping_matches_num_format() {
    for v in [0i64, 7, 999, 1000, 1001, 123456, -1, -999, -1000, -9_876_543_210, i64::MAX, i64::MIN] {
        assert_eq!(glass_bot::text::grouped_string(v), v.to_formatted_string(&Locale::en), "{v}");
    }
}

#[test]
fn capping_matches_aformat() {
    for s in ["", "abc", "abcd", "abcde", "héllo", "日本語テキスト", "🎉🎉"] {
        let mut out = String::new();
        glass_bot::text::push_capped(&mut out, s, 4);
        assert_eq!(out, &*CapStr::<4>(s), "{s}");
        let mut out = String::new();
        glass_bot::text::push_capped(&mut out, s, 8);
        assert_eq!(out, &*CapStr::<8>(s), "{s}");
    }
}
