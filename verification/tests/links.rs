use glass_bot::links::{
    find_beatmap_link, format_beatmap_link, format_user_link, gamemode_from_string,
    get_beatmap_info, mode_to_string, BeatmapInfo, EmbedText, GameMode, LinkError, MessageText,
};
use regex::Regex;

fn info(set: Option<i64>, map: Option<i64>, mode: Option<GameMode>) -> BeatmapInfo {
    BeatmapInfo { beatmapset_id: set, beatmap_id: map, mode }
}

#[test]
fn beatmapset_link_with_beatmap() {
    let r = get_beatmap_info("see https://osu.ppy.sh/beatmapsets/123#osu/456 now");
    assert_eq!(r, Ok(info(Some(123), Some(456), Some(GameMode::Osu))));
}

#[test]
fn beatmapset_link_alone() {
    let r = get_beatmap_info("https://osu.ppy.sh/beatmapsets/123");
    assert_eq!(r, Ok(info(Some(123), None, None)));
    let r = get_beatmap_info("http://osu.ppy.sh/beatmapsets/77/");
    assert_eq!(r, Ok(info(Some(77), None, None)));
}

#[test]
fn beatmap_link_with_mode() {
    let r = get_beatmap_info("https://osu.ppy.sh/beatmaps/456?mode=taiko");
    assert_eq!(r, Ok(info(None, Some(456), Some(GameMode::Taiko))));
}

#[test]
fn beatmap_link_without_mode_is_refused() {
    let r = get_beatmap_info("https://osu.ppy.sh/beatmaps/456");
    assert_eq!(r, Err(LinkError::MissingMode));
}

#[test]
fn old_links() {
    assert_eq!(
        get_beatmap_info("https://osu.ppy.sh/b/789?m=2"),
        Ok(info(None, Some(789), Some(GameMode::Catch)))
    );
    assert_eq!(get_beatmap_info("http://old.ppy.sh/s/12"), Ok(info(Some(12), None, None)));
    assert_eq!(get_beatmap_info("https://osu.ppy.sh/b/1?m=7"), Err(LinkError::UnknownMode));
}

#[test]
fn no_link() {
    assert_eq!(get_beatmap_info("nothing to see"), Ok(info(None, None, None)));
    assert_eq!(get_beatmap_info(""), Ok(info(None, None, None)));
}

#[test]
fn id_too_large() {
    let r = get_beatmap_info("https://osu.ppy.sh/beatmapsets/99999999999999999999");
    assert_eq!(r, Err(LinkError::InvalidNumber));
}

#[test]
fn newer_forms_win() {
    // a beatmap link of the newest form is read even when a set link comes first
    let r = get_beatmap_info(
        "https://osu.ppy.sh/beatmapsets/1 and https://osu.ppy.sh/beatmaps/2?mode=mania",
    );
    assert_eq!(r, Ok(info(None, Some(2), Some(GameMode::Mania))));
}

#[test]
fn mode_names() {
    assert_eq!(gamemode_from_string("OSU!"), Some(GameMode::Osu));
    assert_eq!(gamemode_from_string("std"), Some(GameMode::Osu));
    assert_eq!(gamemode_from_string("Keys"), Some(GameMode::Mania));
    assert_eq!(gamemode_from_string("fruits"), Some(GameMode::Catch));
    assert_eq!(gamemode_from_string("1"), Some(GameMode::Taiko));
    assert_eq!(gamemode_from_string("drums"), None);
    assert_eq!(mode_to_string(GameMode::Catch), "fruits");
}

#[test]
fn writing_links() {
    assert_eq!(
        format_beatmap_link(Some(456), 123, Some("osu")),
        "https://osu.ppy.sh/beatmapsets/123#osu/456"
    );
    assert_eq!(format_beatmap_link(None, 123, Some("osu")), "https://osu.ppy.sh/beatmapsets/123");
    assert_eq!(format_beatmap_link(Some(9), 8, None), "https://osu.ppy.sh/beatmapsets/8");
    assert_eq!(
        format_beatmap_link(Some(1), 2, Some("averyveryverylongmode")),
        "https://osu.ppy.sh/beatmapsets/2#averyveryverylo/1"
    );
    assert_eq!(format_user_link(5), "https://osu.ppy.sh/users/5");
}

#[test]
fn written_link_reads_back() {
    for (set, map, mode) in [(1i64, 2i64, GameMode::Osu), (987654, 321, GameMode::Mania)] {
        let link = format_beatmap_link(Some(map), set, Some(&mode_to_string(mode)));
        assert_eq!(get_beatmap_info(&link), Ok(info(Some(set), Some(map), Some(mode))));
    }
    let link = format_beatmap_link(None, 42, None);
    assert_eq!(get_beatmap_info(&link), Ok(info(Some(42), None, None)));
}

#[test]
fn first_message_with_a_beatmap() {
    let messages = vec![
        MessageText { content: String::from("hello"), embeds: vec![] },
        MessageText {
            content: String::from("set https://osu.ppy.sh/beatmapsets/5"),
            embeds: vec![],
        },
        MessageText {
            content: String::new(),
            embeds: vec![EmbedText {
                description: Some(String::from("https://osu.ppy.sh/beatmapsets/7#fruits/8")),
                title: None,
                footer: None,
            }],
        },
    ];
    assert_eq!(
        find_beatmap_link(&messages),
        Ok(Some(info(Some(7), Some(8), Some(GameMode::Catch))))
    );
    assert_eq!(find_beatmap_link(&messages[..2].to_vec()), Ok(None));
}

fn oracle(url: &str) -> Result<BeatmapInfo, ()> {
    let v1 = Regex::new(r"https?://(osu|old)\.ppy\.sh/(?P<type>[bs])/(?P<id>\d+)(?:\?m=(?P<mode>\d))?").unwrap();
    let set2 = Regex::new(r"https?://osu\.ppy\.sh/beatmapsets/(?P<beatmapset_id>\d+)/?(?:#(?P<mode>\w+)/(?P<beatmap_id>\d+))?").unwrap();
    let map2 = Regex::new(r"https?://osu\.ppy\.sh/beatmaps/(?P<beatmap_id>\d+)(?:\?mode=(?P<mode>\w+))?").unwrap();
    if let Some(c) = map2.captures(url) {
        let id = c.name("beatmap_id").unwrap().as_str().parse::<i64>().map_err(|_| ())?;
        let mode = c.name("mode").ok_or(())?;
        return Ok(info(None, Some(id), gamemode_from_string(mode.as_str())));
    }
    if let Some(c) = set2.captures(url) {
        let set = c.name("beatmapset_id").unwrap().as_str().parse::<i64>().map_err(|_| ())?;
        if let Some(mode) = c.name("mode") {
            let map = c.name("beatmap_id").unwrap().as_str().parse::<i64>().map_err(|_| ())?;
            return Ok(info(Some(set), Some(map), gamemode_from_string(mode.as_str())));
        }
        return Ok(info(Some(set), None, None));
    }
    if let Some(c) = v1.captures(url) {
        let mode = match c.name("mode") {
            Some(m) => Some(gamemode_from_string(m.as_str()).ok_or(())?),
            None => None,
        };
        let id = c.name("id").unwrap().as_str().parse::<i64>().map_err(|_| ())?;
        if c.name("type").unwrap().as_str() == "b" {
            return Ok(info(None, Some(id), mode));
        }
        return Ok(info(Some(id), None, mode));
    }
    Ok(info(None, None, None))
}

#[test]
fn agrees_with_the_patterns() {
    let cases = [
        "https://osu.ppy.sh/beatmapsets/1#osu/2",
        "https://osu.ppy.sh/beatmapsets/1#taiko_x/2",
        "https://osu.ppy.sh/beatmapsets/1#/2",
        "https://osu.ppy.sh/beatmapsets/1/#mania/22",
        "https://osu.ppy.sh/beatmapsets/1#osu/",
        "xhttps://osu.ppy.sh/beatmapsets/3",
        "https://osu.ppy.sh/beatmaps/5?mode=",
        "https://osu.ppy.sh/beatmaps/5?mode=osu!",
        "https://osu.ppy.sh/beatmaps/5?mode=fruits",
        "https://osu.ppy.sh/beatmaps/٣?mode=osu",
        "https://osu.ppy.sh/b/12",
        "https://osu.ppy.sh/b/12?m=0",
        "https://osu.ppy.sh/b/12?m=3",
        "https://old.ppy.sh/s/12?m=1",
        "https://osu.ppy.sh/s/",
        "http://osu.ppy.sh/beatmapsets/44 https://osu.ppy.sh/b/45",
        "https://osu.ppy.sh/beatmapsets/0#catch/0",
        "https://osu.ppy.sh/beatmapsets/12#éé/3",
        "https:/osu.ppy.sh/beatmapsets/12",
    ];
    for case in cases {
        let expected = oracle(case);
        let got = get_beatmap_info(case);
        match expected {
            Ok(e) => assert_eq!(got, Ok(e), "{case}"),
            Err(()) => assert!(got.is_err(), "{case}"),
        }
    }
}
