use glass_bot::mentions::{content_safe, MentionedRole, MentionedUser, MessageMentions};
use glass_bot::models::Question;
use glass_bot::music::{
    check_queue_request, clamp_volume, format_duration, format_duration_secs,
    format_search_query, format_skip_vote, format_too_long, format_too_many_queued, format_track,
    format_volume_changed, record_skip_vote, skip_check, track_notice, Queue, QueueDecision,
    QueuedTrack, SkipCheck, SkipOutcome, TrackMetadata,
};
use glass_bot::summary::{accept_draw, draw_step, summarize, DrawStep};
use glass_bot::wyr::{
    add_recent_question, check_for_duplicates, format_poll_result, format_question, format_response,
    format_results, is_recent, parse_choices, pick_choice, pick_question, poll_button, Poll,
    PollButton, PollReply,
};
use std::time::Duration;

#[test]
fn durations() {
    assert_eq!(format_duration_secs(75, None), "**1:15**\n");
    assert_eq!(format_duration_secs(75, Some(9)), "**0:09/1:15**\n");
    assert_eq!(format_duration_secs(3725, Some(61)), "**00:01:01/01:02:05**\n");
    assert_eq!(format_duration_secs(3600, None), "**01:00:00**\n");
    assert_eq!(format_duration(&Duration::from_millis(75_900), None), "**1:15**\n");
    assert_eq!(
        format_duration(&Duration::from_secs(4000), Some(Duration::from_secs(3601))),
        "**01:00:01/01:06:40**\n"
    );
}

fn metadata() -> TrackMetadata {
    TrackMetadata {
        title: Some(String::from("Song")),
        duration: Some(Duration::from_secs(200)),
        source_url: Some(String::from("https://example.com/v")),
        thumbnail: None,
    }
}

#[test]
fn tracks() {
    assert_eq!(
        format_track(&metadata(), None),
        "**Song**\nDuration: **3:20**\n**URL**: <https://example.com/v>"
    );
    let bare = TrackMetadata { title: None, duration: None, source_url: None, thumbnail: None };
    assert_eq!(format_track(&bare, None), "");
    assert_eq!(
        track_notice("Queued:", &metadata(), Some(Duration::from_secs(10))),
        "Queued:\n**Song**\nDuration: **0:10/3:20**\n**URL**: <https://example.com/v>"
    );
    assert_eq!(format_search_query("https://youtu.be/x"), "https://youtu.be/x");
    assert_eq!(format_search_query("never gonna"), "ytsearch1:never gonna");
    assert_eq!(format_search_query("htt"), "ytsearch1:htt");
}

fn queued(by: u64) -> QueuedTrack {
    QueuedTrack { requested: by, skipped: vec![], metadata: metadata() }
}

#[test]
fn queue_requests() {
    let mut q = Queue::new();
    q.insert(1, queued(5));
    q.insert(2, queued(5));
    q.insert(3, queued(6));
    assert_eq!(q.requests_by(5), 2);
    assert_eq!(q.requests_by(7), 0);
    let max = Duration::from_secs(600);
    assert_eq!(
        check_queue_request(Some(&Duration::from_secs(601)), &max, true, &q, 5, 6),
        QueueDecision::TooLong { leave: true }
    );
    assert_eq!(
        check_queue_request(Some(&Duration::from_secs(600)), &max, false, &q, 5, 2),
        QueueDecision::TooManyQueued
    );
    assert_eq!(check_queue_request(None, &max, true, &q, 5, 2), QueueDecision::Enqueue);
    assert_eq!(check_queue_request(None, &max, false, &q, 5, 3), QueueDecision::Enqueue);
    q.remove(1);
    assert_eq!(q.requests_by(5), 1);
    assert!(q.get(1).is_none());
    assert_eq!(q.get(2).map(|t| t.requested), Some(5));
    assert_eq!(
        format_too_long(&max),
        "Song is longer than the max allowed duration of **10:00**\n"
    );
    assert_eq!(format_too_many_queued(6), "You have queued more than the maximum of 6 songs.");
}

#[test]
fn skip_votes() {
    let mut t = queued(1);
    assert_eq!(skip_check(&t, 1), SkipCheck::OwnTrack);
    assert_eq!(skip_check(&t, 2), SkipCheck::NeedsVote);
    assert_eq!(record_skip_vote(&mut t, 2, 5), SkipOutcome::Voted { votes: 1, needed: 3 });
    assert_eq!(skip_check(&t, 2), SkipCheck::AlreadyVoted);
    assert_eq!(record_skip_vote(&mut t, 3, 5), SkipOutcome::Voted { votes: 2, needed: 3 });
    assert_eq!(record_skip_vote(&mut t, 4, 5), SkipOutcome::Skip);
    let mut u = queued(1);
    assert_eq!(record_skip_vote(&mut u, 2, 2), SkipOutcome::Skip);
    assert_eq!(format_skip_vote(1, 3), "Voted to skip the current song. `1/3`");
    assert_eq!(clamp_volume(250), 200);
    assert_eq!(clamp_volume(42), 42);
    assert_eq!(format_volume_changed(42), "Changed volume to 42%.");
}

fn question() -> Question {
    Question {
        id: 1,
        choice1: String::from("fly"),
        choice2: String::from("swim"),
        choice1_answers: 3,
        choice2_answers: -1,
    }
}

#[test]
fn question_texts() {
    assert_eq!(
        format_results(&question()),
        "A total of 3 would **fly**, while -1 would **swim**"
    );
    assert_eq!(format_response(42, &String::from("fly")), "**<@42>** would **fly**!");
    assert_eq!(
        format_question(&question(), &vec![String::from("a"), String::from("b")]),
        "Would you rather \u{1f7e2} **fly** or \u{1f534} **swim**?\n\na\nb"
    );
    assert_eq!(
        format_poll_result(&question(), &vec![]),
        "Would you rather \u{1f7e2} **fly** or \u{1f534} **swim**?\n\n\n\nA total of 3 would **fly**, while -1 would **swim**"
    );
}

#[test]
fn poll() {
    let mut p = Poll::new(question());
    assert_eq!(poll_button("choice_1"), PollButton::Choice1);
    assert_eq!(poll_button("choice_2"), PollButton::Choice2);
    assert_eq!(poll_button("x"), PollButton::Other);
    assert_eq!(p.press(10, PollButton::Choice1), PollReply::Counted);
    assert_eq!(p.press(10, PollButton::Choice2), PollReply::AlreadyAnswered);
    assert_eq!(p.press(11, PollButton::Other), PollReply::Unknown);
    assert_eq!(p.press(11, PollButton::Choice2), PollReply::Counted);
    assert_eq!(p.question.choice1_answers, 4);
    assert_eq!(p.question.choice2_answers, 0);
    assert_eq!(p.responses, vec!["**<@10>** would **fly**!", "**<@11>** would **swim**!"]);
    assert_eq!(p.replies, vec![10, 11]);
}

#[test]
fn recent_questions() {
    let mut recent = vec![1, 2];
    add_recent_question(&mut recent, 3, 10);
    assert_eq!(recent, vec![1, 2, 3]);
    add_recent_question(&mut recent, 4, 6);
    assert_eq!(recent, vec![2, 3, 4]);
    add_recent_question(&mut recent, 5, 7);
    assert_eq!(recent, vec![3, 4, 5]);
    assert!(is_recent(&recent, 4));
    assert!(!is_recent(&recent, 1));
}

#[test]
fn choices() {
    assert_eq!(parse_choices("fly or swim"), Some((String::from("fly"), String::from("swim"))));
    assert_eq!(parse_choices("a or b or c"), Some((String::from("a"), String::from("b"))));
    assert_eq!(parse_choices("or nothing"), None);
    assert_eq!(parse_choices(" or x"), Some((String::new(), String::from("x"))));
    let a = String::from("fly");
    let b = String::from("swim");
    let r = pick_choice(&a, &b);
    assert!(r == "I would fly!" || r == "I would swim!");
}

#[test]
fn summaries() {
    let words = |s: &str| s.split(' ').map(String::from).collect::<Vec<String>>();
    assert_eq!(summarize(1, vec![words("hello big world")]), "hello big world");
    assert_eq!(summarize(2, vec![]), "No messages matching filters.");
    let r = summarize(1, vec![words("a b"), vec![], words("c d")]);
    assert!(r.len() <= 2000);
}

#[test]
fn safe_content() {
    let m = MessageMentions {
        content: String::from("hi <@1> and <@!2>, <@&3> <@&4> @everyone @here"),
        mentions: vec![
            MentionedUser { id: 1, name: String::from("ann"), discriminator: None },
            MentionedUser { id: 2, name: String::from("bob"), discriminator: Some(7) },
        ],
        in_guild: true,
        mention_roles: vec![
            MentionedRole { id: 3, name: Some(String::from("mods")) },
            MentionedRole { id: 4, name: None },
        ],
    };
    assert_eq!(
        content_safe(&m),
        "hi @ann and @bob#0007, @mods @deleted-role @\u{200B}everyone @\u{200B}here"
    );
    let dm = MessageMentions { in_guild: false, ..m };
    assert_eq!(
        content_safe(&dm),
        "hi @ann and @bob#0007, <@&3> <@&4> @\u{200B}everyone @\u{200B}here"
    );
}

fn stored(id: i32, a: &str, b: &str) -> Question {
    Question {
        id,
        choice1: String::from(a),
        choice2: String::from(b),
        choice1_answers: 0,
        choice2_answers: 0,
    }
}

#[test]
fn duplicate_questions_in_either_order() {
    let questions = vec![stored(1, "fly", "swim"), stored(2, "tea", "coffee")];
    assert!(!check_for_duplicates(&questions, &String::from("fly"), &String::from("swim")));
    assert!(!check_for_duplicates(&questions, &String::from("coffee"), &String::from("tea")));
    assert!(check_for_duplicates(&questions, &String::from("fly"), &String::from("tea")));
    assert!(check_for_duplicates(&vec![], &String::from("fly"), &String::from("swim")));
}

#[test]
fn picked_question_was_not_asked_lately() {
    let questions = vec![stored(1, "a", "b"), stored(2, "c", "d"), stored(3, "e", "f")];
    for _ in 0..20 {
        assert_eq!(pick_question(&questions, &vec![1, 3]), Some(1));
        let i = pick_question(&questions, &vec![2]).unwrap();
        assert!(i == 0 || i == 2);
    }
    assert_eq!(pick_question(&questions, &vec![1, 2, 3]), None);
    assert_eq!(pick_question(&vec![], &vec![]), None);
}

#[test]
fn a_fresh_question_is_always_left() {
    let questions = vec![stored(1, "a", "b"), stored(2, "c", "d"), stored(3, "e", "f"), stored(4, "g", "h")];
    let mut recent: Vec<i32> = Vec::new();
    for _ in 0..50 {
        let i = pick_question(&questions, &recent).expect("a question is left");
        assert!(!is_recent(&recent, questions[i].id));
        add_recent_question(&mut recent, questions[i].id, 4);
        assert!(2 * recent.len() <= 4);
    }
}

#[test]
fn queue_limit_is_kept() {
    let max = Duration::from_secs(600);
    let mut q = Queue::new();
    let mut id: u128 = 1;
    while check_queue_request(None, &max, false, &q, 9, 6) == QueueDecision::Enqueue {
        q.insert(id, queued(9));
        id += 1;
        assert!(q.requests_by(9) <= 6);
    }
    assert_eq!(q.requests_by(9), 6);
}

#[test]
fn draws_are_accepted_up_to_the_message_limit() {
    let words = vec![String::from("hello"), String::from("there")];
    assert_eq!(accept_draw(&words), Some(String::from("hello there")));
    assert_eq!(accept_draw(&vec![]), Some(String::new()));
    let fits = vec!["é".repeat(2000)];
    assert_eq!(accept_draw(&fits), Some("é".repeat(2000)));
    let long = vec!["x".repeat(1000), "y".repeat(1000)];
    assert_eq!(accept_draw(&long), None);
}

#[test]
fn each_draw_is_accepted_retried_or_given_up() {
    let short = vec![String::from("hi"), String::from("there")];
    let long = vec!["x".repeat(2001)];
    assert!(matches!(draw_step(0, &short), DrawStep::Accept(s) if s == "hi there"));
    assert!(matches!(draw_step(1000, &short), DrawStep::Accept(s) if s == "hi there"));
    assert!(matches!(draw_step(0, &long), DrawStep::Retry));
    assert!(matches!(draw_step(999, &long), DrawStep::Retry));
    assert!(matches!(draw_step(1000, &long), DrawStep::GiveUp));
}
