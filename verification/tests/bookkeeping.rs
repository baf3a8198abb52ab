use glass_bot::help::{
    format_args, format_command, format_help_footer, help_menu, help_single_command,
    CommandInfo, CommandLine, ContextMenuKind, HelpConfiguration, OrderedMap, ParameterInfo,
};
use glass_bot::tracking::{
    add_tracked_user, disable_channel, remove_tracked_user, NotifiedScores, SummaryAction,
    SummaryEnabledGuilds, TrackedUsers,
};

#[test]
fn follow_and_unfollow() {
    let mut users = TrackedUsers::new();
    assert_eq!(users.followers(10), None);
    add_tracked_user(&mut users, 1, 10);
    add_tracked_user(&mut users, 2, 10);
    add_tracked_user(&mut users, 3, 20);
    assert_eq!(users.followers(10), Some(vec![1, 2]));
    remove_tracked_user(&mut users, 1, 10);
    assert_eq!(users.followers(10), Some(vec![2]));
    remove_tracked_user(&mut users, 2, 10);
    assert_eq!(users.followers(10), None);
    remove_tracked_user(&mut users, 9, 30);
    assert_eq!(users.followers(20), Some(vec![3]));
}

#[test]
fn duplicate_followers_all_leave() {
    let mut users = TrackedUsers::new();
    add_tracked_user(&mut users, 1, 10);
    add_tracked_user(&mut users, 2, 10);
    add_tracked_user(&mut users, 1, 10);
    remove_tracked_user(&mut users, 1, 10);
    assert_eq!(users.followers(10), Some(vec![2]));
}

#[test]
fn scores_are_announced_once() {
    let mut notified = NotifiedScores::new();
    assert!(notified.claim(7, 100));
    assert!(!notified.claim(7, 100));
    assert!(notified.claim(7, 101));
    assert!(notified.claim(8, 100));
}

#[test]
fn summary_channels() {
    let mut guilds = SummaryEnabledGuilds::new();
    assert_eq!(guilds.message_action(None, 1, false), SummaryAction::Ignore);
    assert_eq!(guilds.message_action(Some(5), 1, false), SummaryAction::LoadGuild);
    assert_eq!(guilds.message_action(Some(5), 1, true), SummaryAction::Ignore);
    guilds.set_channels(5, vec![1, 2]);
    assert_eq!(guilds.message_action(Some(5), 2, false), SummaryAction::Store);
    assert_eq!(guilds.message_action(Some(5), 3, false), SummaryAction::Ignore);
    guilds.enable_channel(5, 3);
    assert_eq!(guilds.message_action(Some(5), 3, false), SummaryAction::Store);
    guilds.enable_channel(6, 4);
    assert_eq!(guilds.message_action(Some(6), 4, false), SummaryAction::Store);
}

#[test]
fn disabling_a_channel() {
    let ids = vec![Some(1), None, Some(2), Some(1)];
    assert_eq!(disable_channel(&ids, 1), Some(vec![None, Some(2)]));
    assert_eq!(disable_channel(&ids, 3), None);
}

#[test]
fn ordered_map_keeps_first_insertion_order() {
    let mut m: OrderedMap<u32, Vec<&str>> = OrderedMap::new();
    m.get_or_insert_with(2, Vec::new).push("a");
    m.get_or_insert_with(1, Vec::new).push("b");
    m.get_or_insert_with(2, Vec::new).push("c");
    let entries: Vec<(u32, Vec<&str>)> = m.into_iter().collect();
    assert_eq!(entries, vec![(2, vec!["a", "c"]), (1, vec!["b"])]);
    let d: OrderedMap<u8, u8> = OrderedMap::default();
    assert_eq!(d.0.len(), 0);
}

fn param(name: &str, required: bool) -> ParameterInfo {
    ParameterInfo { name: String::from(name), required }
}

fn line(name: &str, prefix: bool, slash: bool, hidden: bool) -> CommandLine {
    CommandLine {
        name: String::from(name),
        hide_in_help: hidden,
        has_prefix_action: prefix,
        has_slash_action: slash,
        parameters: vec![],
    }
}

fn command(l: CommandLine, category: Option<&str>) -> CommandInfo {
    CommandInfo {
        line: l,
        category: category.map(String::from),
        subcommands: vec![],
        context_menu: None,
        context_menu_name: None,
        help_text: None,
        description: None,
    }
}

#[test]
fn command_lines() {
    assert_eq!(format_args(&vec![param("user", true), param("mode", false)]), "user <mode> ");
    let mut l = line("play", true, true, false);
    l.parameters = vec![param("song", true)];
    assert_eq!(format_command("!", &l, None), "  !play song ");
    assert_eq!(format_command("!", &l, Some("music")), "  !music play song ");
    assert_eq!(format_command("!", &line("ping", false, true, false), None), "  /ping ");
    assert_eq!(format_command("!", &line("ctx", false, false, false), None), "");
    assert_eq!(format_command("verylong", &line("p", true, false, false), None), "  verp ");
}

#[test]
fn whole_menu() {
    let mut music = command(line("music", true, true, false), Some("Music"));
    music.subcommands = vec![line("play", true, true, false), line("secret", true, true, true)];
    let commands = vec![
        command(line("ping", true, true, false), Some("Basic")),
        music,
        command(line("hidden", true, true, true), Some("Basic")),
        command(line("info", true, true, false), Some("Basic")),
        command(line("misc", true, false, false), None),
        {
            let mut c = command(line("quote", false, false, false), None);
            c.context_menu = Some(ContextMenuKind::Message);
            c.context_menu_name = Some(String::from("Quote message"));
            c
        },
    ];
    let config = HelpConfiguration { extra_text_at_bottom: "bye", show_context_menu_commands: true };
    let expected = String::from("```\n")
        + "Basic:\n  !ping \n  !info \n"
        + "Music:\n  !music \n  !music play \n"
        + "Commands:\n  !misc \n\n"
        + "\nContext menu commands:\n  Quote message (on message)\n"
        + "\n```bye";
    assert_eq!(help_menu("!", &commands, &config), expected);
    let plain = HelpConfiguration::default();
    let menu = help_menu("!", &commands, &plain);
    assert!(!menu.contains("Context menu"));
    assert!(menu.ends_with("\n```"));
}

#[test]
fn single_command_help() {
    let mut a = command(line("Ping", true, true, false), None);
    a.description = Some(String::from("Pings the bot"));
    let mut b = command(line("info", true, true, false), None);
    b.help_text = Some(String::from("Shows info"));
    b.context_menu_name = Some(String::from("About"));
    let c = command(line("other", true, true, false), None);
    let commands = vec![a, b, c];
    assert_eq!(help_single_command(&commands, "pInG"), "Pings the bot");
    assert_eq!(help_single_command(&commands, "ABOUT"), "Shows info");
    assert_eq!(help_single_command(&commands, "other"), "No help available");
    assert_eq!(help_single_command(&commands, "nope"), "Command not found.");
    assert_eq!(
        format_help_footer("?"),
        "Type ?help command for more info on a command. <> around arguments mean they are optional."
    );
}

#[test]
fn ordered_map_keys_stay_distinct_and_in_order() {
    let mut m: OrderedMap<u32, u32> = OrderedMap::new();
    for k in [3u32, 1, 3, 2, 1, 3, 4] {
        let before: Vec<u32> = m.0.iter().map(|e| e.0).collect();
        *m.get_or_insert_with(k, || 0) += 1;
        let after: Vec<u32> = m.0.iter().map(|e| e.0).collect();
        assert_eq!(&after[..before.len()], &before[..]);
        assert!(after.len() <= before.len() + 1);
        assert_eq!(after.iter().filter(|x| **x == k).count(), 1);
    }
    let entries: Vec<(u32, u32)> = m.into_iter().collect();
    assert_eq!(entries, vec![(3, 3), (1, 2), (2, 1), (4, 1)]);
}
