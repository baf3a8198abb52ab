use glass_bot::config::{
    flatten_channels, format_debug_report, with_map_channels, with_score_channels, DebugCounts,
    GuildPrefix,
};
use glass_bot::events::{score_recipients, tick_decision, TickAction};
use glass_bot::links::GameMode;
use glass_bot::help::{format_info, format_pong, format_prefix_set};
use glass_bot::models::OsuGuildChannel;

#[test]
fn prefixes() {
    let mut p = GuildPrefix::new();
    assert_eq!(p.resolve(None, Some(String::from("?")), ">"), ">");
    assert_eq!(p.resolve(Some(1), None, ">"), ">");
    assert_eq!(p.resolve(Some(1), Some(String::from("?")), ">"), ">");
    assert_eq!(p.resolve(Some(2), Some(String::from("?")), ">"), "?");
    p.set(1, String::from("!"));
    assert_eq!(p.resolve(Some(1), None, ">"), "!");
}

#[test]
fn notice_channels() {
    let existing = OsuGuildChannel {
        guild_id: 9,
        score_channel: Some(vec![Some(1)]),
        map_channel: Some(vec![Some(2), None]),
    };
    let s = with_score_channels(5, Some(existing.clone()), vec![Some(3)]);
    assert_eq!((s.guild_id, s.score_channel, s.map_channel), (9, Some(vec![Some(3)]), Some(vec![Some(2), None])));
    let m = with_map_channels(5, None, vec![Some(4)]);
    assert_eq!((m.guild_id, m.score_channel, m.map_channel), (5, None, Some(vec![Some(4)])));
    let m = with_map_channels(5, Some(existing), vec![]);
    assert_eq!((m.guild_id, m.score_channel, m.map_channel), (9, Some(vec![Some(1)]), Some(vec![])));
    assert_eq!(flatten_channels(&vec![Some(1), None, Some(3)]), vec![1, 3]);
}

#[test]
fn debug_report() {
    let counts = DebugCounts {
        tracked_profiles: 2,
        linked_profiles: 3,
        beatmaps: 40,
        beatmapsets: 5,
        osu_files: 6,
        guild_configs: 1,
    };
    assert_eq!(
        format_debug_report(&vec![String::from("ann"), String::from("bob")], &counts),
        "Members registered as playing: `ann`, `bob`\nTotal members tracked: `2`\nTotal linked profiles: `3`\nTotal beatmaps cached: `40`\nTotal beatmapsets cached: `5`\nTotal osu files cached: `6`\nTotal guilds with configs: `1`"
    );
    assert!(format_debug_report(&vec![], &counts).starts_with("Members registered as playing: None\n"));
}

#[test]
fn ticks() {
    assert_eq!(tick_decision(0, 10, false), (1, TickAction::Wait));
    assert_eq!(tick_decision(0, 10, true), (1, TickAction::CheckRecent));
    assert_eq!(tick_decision(9, 10, false), (10, TickAction::CheckRecent));
    assert_eq!(tick_decision(10, 10, true), (0, TickAction::Reset));
}

#[test]
fn basic_texts() {
    assert_eq!(
        format_info("owner", Some(7), "Mon, 1 Jan 2024 00:00:00 +0000", 3, "A bot"),
        "```elm\nOwner   : @owner#7\nUp      : Mon, 1 Jan 2024 UTC\nGuilds  : 3```A bot"
    );
    assert_eq!(
        format_info("someone", None, "x", 0, ""),
        "```elm\nOwner   : someone\nUp      : x UTC\nGuilds  : 0```"
    );
    assert_eq!(format_prefix_set("!!"), "Set guild prefix to !!");
    assert_eq!(format_pong(42), "Pong! `42ms`");
}

#[test]
fn stream_scores_reach_followers_in_the_mode() {
    let followers = Some(vec![
        (1, Some(String::from("osu"))),
        (2, Some(String::from("mania"))),
        (3, None),
        (4, Some(String::from("OSU"))),
        (5, Some(String::from("nonsense"))),
    ]);
    assert_eq!(score_recipients(&followers, 200, 100, GameMode::Osu), vec![1, 4]);
    assert_eq!(score_recipients(&followers, 200, 100, GameMode::Mania), vec![2]);
    assert_eq!(score_recipients(&followers, 100, 100, GameMode::Osu), Vec::<i64>::new());
    assert_eq!(score_recipients(&followers, 50, 100, GameMode::Osu), Vec::<i64>::new());
    assert_eq!(score_recipients(&None, 200, 100, GameMode::Osu), Vec::<i64>::new());
}
