//! What the tracker announces of a player's recent activity: which
//! events are new enough and worth a notice, and the text of each notice.

use vstd::prelude::*;
use crate::links::{GameMode, beatmap_link, user_link, format_beatmap_link, format_user_link, gamemode_from_string, mode_of_name};
use crate::score_format::RankStatus;
use crate::text::{decimal, push_decimal};

verus! {

/// An event of a player's recent activity, as the tracker reads it.
#[derive(Debug, Clone)]
pub enum ActivityKind {
    /// The player placed `rank` on a beatmap's leaderboard.
    Rank { rank: u32, beatmap_url: String, mode: GameMode },
    /// A beatmapset of the player changed status.
    Approve { status: RankStatus, beatmapset_url: String },
    /// A beatmapset of the player was revived.
    Revive { beatmapset_url: String },
    /// The player updated a beatmapset.
    Update { beatmapset_url: String },
    /// The player submitted a beatmapset.
    Upload { beatmapset_url: String },
    /// Anything else.
    Other,
}

/// An event with the time it happened (a Unix timestamp).
#[derive(Debug, Clone)]
pub struct ActivityEvent {
    pub created_at: i64,
    pub kind: ActivityKind,
}

/// The highest leaderboard rank that is announced.
pub const ANNOUNCED_RANK: u32 = 50;

/// Whether an event is announced: it happened no earlier than the last
/// announced event, and a leaderboard placing is in the top 50.
pub open spec fn announced_event(e: ActivityEvent, last_event: i64) -> bool {
    &&& !(last_event > e.created_at)
    &&& match e.kind {
        ActivityKind::Rank { rank, .. } => rank <= 50,
        ActivityKind::Other => false,
        _ => true,
    }
}

/// The positions of the events to announce among the first `k`, oldest
/// first: the API lists the newest first, so the positions go down.
pub open spec fn positions_to_announce(events: Seq<ActivityEvent>, last_event: i64, k: int) -> Seq<usize>
    decreases k,
{
    if k <= 0 {
        Seq::empty()
    } else if announced_event(events[k - 1], last_event) {
        seq![(k - 1) as usize] + positions_to_announce(events, last_event, k - 1)
    } else {
        positions_to_announce(events, last_event, k - 1)
    }
}

/// Picks the events to announce, oldest first, from the events as the
/// API lists them (newest first); `last_event` is when the last announced
/// event happened. The result holds positions in `events`.
pub fn plan_recent_events(events: &Vec<ActivityEvent>, last_event: i64) -> (r: Vec<usize>)
    ensures
        r@ == positions_to_announce(events@, last_event, events@.len() as int),
{
    let mut r: Vec<usize> = Vec::new();
    let n = events.len();
    let mut i: usize = 0;
    while i < n
        invariant
            n == events@.len(),
            i <= n,
            r@ == positions_to_announce(events@, last_event, i as int),
        decreases n - i,
    {
        let e = &events[i];
        let take = !(last_event > e.created_at) && match &e.kind {
            ActivityKind::Rank { rank, .. } => *rank <= 50,
            ActivityKind::Other => false,
            _ => true,
        };
        if take {
            r.insert(0, i);
        }
        i = i + 1;
        assert(r@ =~= positions_to_announce(events@, last_event, i as int));
    }
    r
}

/// Whether an event is one the tracker tells of, written out: it is no
/// older than the last announced event, and it is a status change,
/// revival, update or upload of a beatmapset, or a leaderboard placing in
/// the top 50.
pub open spec fn worth_announcing(e: ActivityEvent, last_event: i64) -> bool {
    e.created_at >= last_event && match e.kind {
        ActivityKind::Rank { rank, .. } => rank <= 50,
        ActivityKind::Approve { .. } => true,
        ActivityKind::Revive { .. } => true,
        ActivityKind::Update { .. } => true,
        ActivityKind::Upload { .. } => true,
        ActivityKind::Other => false,
    }
}

proof fn lemma_positions(events: Seq<ActivityEvent>, last_event: i64, k: int)
    requires
        0 <= k <= events.len(),
        events.len() <= usize::MAX,
    ensures
        ({
            let p = positions_to_announce(events, last_event, k);
            &&& forall|j: int| 0 <= j < p.len() ==> (#[trigger] p[j]) < k
            &&& forall|i: int| 0 <= i < k ==> (p.contains(i as usize) <==> worth_announcing(
                #[trigger] events[i],
                last_event,
            ))
            &&& forall|a: int, b: int| 0 <= a < b < p.len() ==> p[a] > p[b]
        }),
    decreases k,
{
    if k > 0 {
        lemma_positions(events, last_event, k - 1);
        let p0 = positions_to_announce(events, last_event, k - 1);
        let p = positions_to_announce(events, last_event, k);
        assert forall|i: int| 0 <= i < k implies (p.contains(i as usize) <==> worth_announcing(
            #[trigger] events[i],
            last_event,
        )) by {
            if announced_event(events[k - 1], last_event) {
                assert(p == seq![(k - 1) as usize] + p0);
                if p.contains(i as usize) && i < k - 1 {
                    let j = choose|j: int| 0 <= j < p.len() && p[j] == i as usize;
                    assert(j > 0);
                    assert(p0[j - 1] == i as usize);
                }
                if i < k - 1 && p0.contains(i as usize) {
                    let j = choose|j: int| 0 <= j < p0.len() && p0[j] == i as usize;
                    assert(p[j + 1] == i as usize);
                }
                if i == k - 1 {
                    assert(p[0] == i as usize);
                }
            } else {
                if i == k - 1 && p.contains(i as usize) {
                    let j = choose|j: int| 0 <= j < p.len() && p[j] == i as usize;
                    assert(p0[j] < k - 1);
                }
            }
        }
    }
}

/// The events announced are exactly those worth announcing (no older than
/// the last announced event, and a beatmapset event or a top-50 placing),
/// each once, oldest first: the positions go down, as the API lists the
/// newest first.
pub proof fn lemma_announced_exactly(events: Seq<ActivityEvent>, last_event: i64)
    requires
        events.len() <= usize::MAX,
    ensures
        ({
            let p = positions_to_announce(events, last_event, events.len() as int);
            &&& forall|j: int| 0 <= j < p.len() ==> (#[trigger] p[j]) < events.len()
            &&& forall|i: int| 0 <= i < events.len() ==> (p.contains(i as usize) <==> worth_announcing(
                #[trigger] events[i],
                last_event,
            ))
            &&& forall|a: int, b: int| 0 <= a < b < p.len() ==> p[a] > p[b]
        }),
{
    lemma_positions(events, last_event, events.len() as int);
}

/// The notice of a beatmapset event.
#[derive(Debug, Clone, Copy, PartialEq, Eq, Structural)]
pub enum BeatmapsetNotice {
    Approved(RankStatus),
    Revived,
    Updated,
    Uploaded,
}

/// The map part of a notice: `[**artist - title**](link)`.
pub open spec fn set_part(artist: Seq<char>, title: Seq<char>, set_id: i64) -> Seq<char> {
    "[**"@ + artist + " - "@ + title + "**]("@ + beatmap_link(None, set_id, None) + ")"@
}

/// The player part of a notice: `[**name**](link)`.
pub open spec fn player_part(username: Seq<char>, user_id: i64) -> Seq<char> {
    "[**"@ + username + "**]("@ + user_link(user_id) + ")"@
}

/// What a status change is announced as.
pub open spec fn approval_words(s: RankStatus) -> Seq<char> {
    match s {
        RankStatus::Ranked => "has been ranked!"@,
        RankStatus::Approved => "has been ranked!"@,
        RankStatus::Qualified => "has been qualified!"@,
        RankStatus::Loved => "has been loved!"@,
        _ => Seq::empty(),
    }
}

/// The text of a beatmapset notice.
pub open spec fn notice_text(
    notice: BeatmapsetNotice,
    artist: Seq<char>,
    title: Seq<char>,
    set_id: i64,
    username: Seq<char>,
    user_id: i64,
) -> Seq<char> {
    match notice {
        BeatmapsetNotice::Approved(s) => set_part(artist, title, set_id) + " by "@ + player_part(
            username,
            user_id,
        ) + " "@ + approval_words(s),
        BeatmapsetNotice::Revived => set_part(artist, title, set_id)
            + " has been revived from eternal slumber by "@ + player_part(username, user_id),
        BeatmapsetNotice::Updated => player_part(username, user_id) + " has updated the beatmap "@
            + set_part(artist, title, set_id),
        BeatmapsetNotice::Uploaded => player_part(username, user_id)
            + " has submitted a new beatmap "@ + set_part(artist, title, set_id),
    }
}

fn push_set_part(r: &mut String, artist: &str, title: &str, set_id: i64)
    ensures
        final(r)@ == old(r)@ + set_part(artist@, title@, set_id),
{
    r.append("[**");
    r.append(artist);
    r.append(" - ");
    r.append(title);
    r.append("**](");
    let link = format_beatmap_link(None, set_id, None);
    r.append(link.as_str());
    r.append(")");
    proof {
        assert(crate::links::opt_view(None) == None::<Seq<char>>);
    }
    assert(r@ =~= old(r)@ + set_part(artist@, title@, set_id));
}

fn push_player_part(r: &mut String, username: &str, user_id: i64)
    ensures
        final(r)@ == old(r)@ + player_part(username@, user_id),
{
    r.append("[**");
    r.append(username);
    r.append("**](");
    let link = format_user_link(user_id);
    r.append(link.as_str());
    r.append(")");
    assert(r@ =~= old(r)@ + player_part(username@, user_id));
}

/// Writes the text of a beatmapset notice.
pub fn format_notice(
    notice: BeatmapsetNotice,
    artist: &str,
    title: &str,
    set_id: i64,
    username: &str,
    user_id: i64,
) -> (r: String)
    ensures
        r@ == notice_text(notice, artist@, title@, set_id, username@, user_id),
{
    let mut r = String::new();
    match notice {
        BeatmapsetNotice::Approved(s) => {
            push_set_part(&mut r, artist, title, set_id);
            r.append(" by ");
            push_player_part(&mut r, username, user_id);
            r.append(" ");
            match s {
                RankStatus::Ranked => r.append("has been ranked!"),
                RankStatus::Approved => r.append("has been ranked!"),
                RankStatus::Qualified => r.append("has been qualified!"),
                RankStatus::Loved => r.append("has been loved!"),
                _ => {},
            }
        },
        BeatmapsetNotice::Revived => {
            push_set_part(&mut r, artist, title, set_id);
            r.append(" has been revived from eternal slumber by ");
            push_player_part(&mut r, username, user_id);
        },
        BeatmapsetNotice::Updated => {
            push_player_part(&mut r, username, user_id);
            r.append(" has updated the beatmap ");
            push_set_part(&mut r, artist, title, set_id);
        },
        BeatmapsetNotice::Uploaded => {
            push_player_part(&mut r, username, user_id);
            r.append(" has submitted a new beatmap ");
            push_set_part(&mut r, artist, title, set_id);
        },
    }
    assert(r@ =~= notice_text(notice, artist@, title@, set_id, username@, user_id));
    r
}

/// The heading of a new top-play notice: `<name> set a new best score
/// (#<position>/100)`.
pub fn format_best_score_author(username: &str, position: usize) -> (r: String)
    ensures
        r@ == username@ + " set a new best score (#"@ + decimal(position as nat) + "/100)"@,
{
    let mut r = String::new();
    r.append(username);
    r.append(" set a new best score (#");
    push_decimal(&mut r, position as u64);
    r.append("/100)");
    r
}

/// The heading of a leaderboard notice.
pub fn format_leaderboard_author(username: &str) -> (r: String)
    ensures
        r@ == username@ + " set a new leaderboard score!"@,
{
    let mut r = String::new();
    r.append(username);
    r.append(" set a new leaderboard score!");
    r
}

/// The title of a score notice: `artist - title [difficulty]`.
pub fn format_map_title(artist: &str, title: &str, version: &str) -> (r: String)
    ensures
        r@ == artist@ + " - "@ + title@ + " ["@ + version@ + "]"@,
{
    let mut r = String::new();
    r.append(artist);
    r.append(" - ");
    r.append(title);
    r.append(" [");
    r.append(version);
    r.append("]");
    r
}

/// Whether a score is newer than the last announced top play (both Unix
/// timestamps); an older or equal one is not announced again.
pub fn is_new_score(ended_at: i64, last_pp: i64) -> (r: bool)
    ensures
        r == (ended_at > last_pp),
{
    ended_at > last_pp
}

/// Whether a follower hears of a score set in `score_mode`: the follower's
/// linked profile was found (`profile_mode` is its stored mode) and its
/// mode is that of the score.
pub open spec fn follows_in_mode(profile_mode: Option<String>, score_mode: GameMode) -> bool {
    match profile_mode {
        Some(m) => mode_of_name(m@) == Some(score_mode),
        None => false,
    }
}

/// The followers, in order, whose profiles are in the score's mode.
pub open spec fn followers_in_mode(followers: Seq<(i64, Option<String>)>, score_mode: GameMode) -> Seq<i64>
    decreases followers.len(),
{
    if followers.len() == 0 {
        Seq::empty()
    } else {
        followers_in_mode(followers.drop_last(), score_mode) + if follows_in_mode(
            followers.last().1,
            score_mode,
        ) {
            seq![followers.last().0]
        } else {
            Seq::<i64>::empty()
        }
    }
}

/// Who is told of a score that arrives on the score stream: nobody if its
/// player is not tracked (`followers` is `None`) or the score is not newer
/// than the player's last announced top play; else each follower whose
/// linked profile is in the score's mode, in order. (Each of them is then
/// told only if the score reaches their pp threshold.)
pub open spec fn score_recipients_of(
    followers: Option<Seq<(i64, Option<String>)>>,
    ended_at: i64,
    last_pp: i64,
    score_mode: GameMode,
) -> Seq<i64> {
    match followers {
        None => Seq::empty(),
        Some(f) => if ended_at > last_pp {
            followers_in_mode(f, score_mode)
        } else {
            Seq::empty()
        },
    }
}

/// The followers to tell of a score on the score stream. `followers`
/// lists each follower of the score's player with the mode stored in the
/// follower's linked profile, `None` where no profile was found; it is
/// `None` when the player is not tracked.
pub fn score_recipients(
    followers: &Option<Vec<(i64, Option<String>)>>,
    ended_at: i64,
    last_pp: i64,
    score_mode: GameMode,
) -> (r: Vec<i64>)
    ensures
        r@ == score_recipients_of(
            match followers {
                Some(v) => Some(v@),
                None => None,
            },
            ended_at,
            last_pp,
            score_mode,
        ),
{
    let mut r: Vec<i64> = Vec::new();
    let f = match followers {
        None => return r,
        Some(f) => f,
    };
    if !is_new_score(ended_at, last_pp) {
        return r;
    }
    let mut i: usize = 0;
    while i < f.len()
        invariant
            i <= f@.len(),
            r@ == followers_in_mode(f@.take(i as int), score_mode),
        decreases f@.len() - i,
    {
        let (member, profile_mode) = &f[i];
        let in_mode = match profile_mode {
            Some(m) => match gamemode_from_string(m.as_str()) {
                Some(g) => g == score_mode,
                None => false,
            },
            None => false,
        };
        proof {
            assert(f@.take(i + 1).drop_last() =~= f@.take(i as int));
            assert(f@.take(i + 1).last() == f@[i as int]);
        }
        if in_mode {
            r.push(*member);
        }
        i = i + 1;
        assert(r@ =~= followers_in_mode(f@.take(i as int), score_mode));
    }
    assert(f@.take(f@.len() as int) =~= f@);
    r
}

/// What a tick of the tracking loop does for a player.
#[derive(Debug, Clone, Copy, PartialEq, Eq, Structural)]
pub enum TickAction {
    /// Too many ticks without a check: the count starts over.
    Reset,
    /// The player is playing, or the skip count is reached: recent
    /// activity is checked.
    CheckRecent,
    /// Nothing is checked this time.
    Wait,
}

/// The tick count after a tick, and what the tick does: the count goes up
/// by one; past `not_playing_skip` it starts over; a player who is playing,
/// or whose count reaches `not_playing_skip`, has their activity checked.
pub open spec fn tick_outcome(ticks: int, not_playing_skip: int, is_playing: bool) -> (int, TickAction) {
    let t = ticks + 1;
    if t > not_playing_skip {
        (0, TickAction::Reset)
    } else if is_playing || t == not_playing_skip {
        (t, TickAction::CheckRecent)
    } else {
        (t, TickAction::Wait)
    }
}

/// Decides a tick of the tracking loop for a player.
pub fn tick_decision(ticks: i32, not_playing_skip: i32, is_playing: bool) -> (r: (i32, TickAction))
    requires
        ticks < i32::MAX,
    ensures
        (r.0 as int, r.1) == tick_outcome(ticks as int, not_playing_skip as int, is_playing),
{
    let t = ticks + 1;
    if t > not_playing_skip {
        (0, TickAction::Reset)
    } else if is_playing || t == not_playing_skip {
        (t, TickAction::CheckRecent)
    } else {
        (t, TickAction::Wait)
    }
}

/// A player who is not playing is checked at least once every
/// `not_playing_skip` ticks: from a reset, the count reaches the skip
/// count after that many ticks, and that tick checks.
pub proof fn lemma_idle_player_checked(not_playing_skip: int)
    requires
        not_playing_skip >= 1,
    ensures
        tick_outcome(not_playing_skip - 1, not_playing_skip, false) == (
            not_playing_skip,
            TickAction::CheckRecent,
        ),
        forall|t: int| 0 <= t < not_playing_skip - 1 ==> #[trigger] tick_outcome(t, not_playing_skip, false)
            == (t + 1, TickAction::Wait),
{
}

} // verus!
