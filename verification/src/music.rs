//! The music player's bookkeeping: how track lengths and tracks are
//! written, which requests may join the queue, and how skip votes are
//! counted.

use std::collections::HashMap;
use std::time::Duration;
use vstd::prelude::*;
use vstd::std_specs::hash::{obeys_key_model, spec_keys_iter};
use vstd::std_specs::iter::IteratorSpec;
use crate::text::{decimal, zero_padded, push_decimal, push_zero_padded};

verus! {

broadcast use vstd::std_specs::hash::group_hash_axioms;

/// The length of a duration in nanoseconds (`Duration::as_nanos`).
pub uninterp spec fn duration_nanos(d: Duration) -> nat;

/// Calls `Duration::as_nanos`: the total number of nanoseconds that the
/// duration holds, as its documentation says.
#[verifier::external_body]
fn as_nanos(d: &Duration) -> (r: u128)
    ensures
        r == duration_nanos(*d),
{
    d.as_nanos()
}

/// The whole seconds of a duration.
pub open spec fn duration_secs(d: Duration) -> nat {
    duration_nanos(d) / 1_000_000_000
}

/// Two decimal digits, with a leading zero below ten.
pub open spec fn two_digits(n: nat) -> Seq<char> {
    zero_padded(decimal(n), 2)
}

/// `h:mm:ss` style clock of `t` seconds with two digits each; the hours
/// wrap at 60.
pub open spec fn long_clock(t: nat) -> Seq<char> {
    two_digits((t / 3600) % 60) + ":"@ + two_digits((t / 60) % 60) + ":"@ + two_digits(t % 60)
}

/// `m:ss` clock of `t` seconds; the minutes wrap at 60.
pub open spec fn short_clock(t: nat) -> Seq<char> {
    decimal((t / 60) % 60) + ":"@ + two_digits(t % 60)
}

/// The length of a track of `total` seconds in bold, after how much of it
/// has played if that is given; with hours when the track is an hour or
/// longer; ending a line.
pub open spec fn duration_text(total: nat, played: Option<nat>) -> Seq<char> {
    if total >= 3600 {
        match played {
            Some(p) => "**"@ + long_clock(p) + "/"@ + long_clock(total) + "**\n"@,
            None => "**"@ + long_clock(total) + "**\n"@,
        }
    } else {
        match played {
            Some(p) => "**"@ + short_clock(p) + "/"@ + short_clock(total) + "**\n"@,
            None => "**"@ + short_clock(total) + "**\n"@,
        }
    }
}

fn push_long_clock(s: &mut String, t: u64)
    ensures
        final(s)@ == old(s)@ + long_clock(t as nat),
{
    push_zero_padded(s, (t / 3600) % 60, 2);
    s.append(":");
    push_zero_padded(s, (t / 60) % 60, 2);
    s.append(":");
    push_zero_padded(s, t % 60, 2);
    assert(s@ =~= old(s)@ + long_clock(t as nat));
}

fn push_short_clock(s: &mut String, t: u64)
    ensures
        final(s)@ == old(s)@ + short_clock(t as nat),
{
    push_decimal(s, (t / 60) % 60);
    s.append(":");
    push_zero_padded(s, t % 60, 2);
    assert(s@ =~= old(s)@ + short_clock(t as nat));
}

/// Writes the length of a track of `total` seconds, after the time played
/// if given.
pub fn format_duration_secs(total: u64, played: Option<u64>) -> (r: String)
    ensures
        r@ == duration_text(
            total as nat,
            match played {
                Some(p) => Some(p as nat),
                None => None,
            },
        ),
{
    let mut r = String::new();
    r.append("**");
    if total >= 3600 {
        if let Some(p) = played {
            push_long_clock(&mut r, p);
            r.append("/");
        }
        push_long_clock(&mut r, total);
    } else {
        if let Some(p) = played {
            push_short_clock(&mut r, p);
            r.append("/");
        }
        push_short_clock(&mut r, total);
    }
    r.append("**\n");
    r
}

/// Calls `Duration::as_secs`: the whole seconds of the duration, as its
/// documentation says.
#[verifier::external_body]
fn secs_of(d: &Duration) -> (r: u64)
    ensures
        r == duration_secs(*d),
{
    d.as_secs()
}

/// Writes the length of a track, after the time played if given.
pub fn format_duration(duration: &Duration, play_time: Option<Duration>) -> (r: String)
    ensures
        r@ == duration_text(
            duration_secs(*duration),
            match play_time {
                Some(p) => Some(duration_secs(p)),
                None => None,
            },
        ),
{
    let total = secs_of(duration);
    let played = match &play_time {
        Some(p) => Some(secs_of(p)),
        None => None,
    };
    format_duration_secs(total, played)
}

/// What the player knows of a track.
#[derive(Debug, Clone)]
pub struct TrackMetadata {
    pub title: Option<String>,
    pub duration: Option<Duration>,
    pub source_url: Option<String>,
    pub thumbnail: Option<String>,
}

/// The text of a track: its title in bold, its length, and its link, each
/// part left out when unknown.
pub open spec fn track_text(m: TrackMetadata, play_time: Option<Duration>) -> Seq<char> {
    (match m.title {
        Some(t) => "**"@ + t@ + "**\n"@,
        None => Seq::empty(),
    }) + (match m.duration {
        Some(d) => "Duration: "@ + duration_text(
            duration_secs(d),
            match play_time {
                Some(p) => Some(duration_secs(p)),
                None => None,
            },
        ),
        None => Seq::empty(),
    }) + (match m.source_url {
        Some(u) => "**URL**: <"@ + u@ + ">"@,
        None => Seq::empty(),
    })
}

/// Writes the text of a track.
pub fn format_track(metadata: &TrackMetadata, play_time: Option<Duration>) -> (r: String)
    ensures
        r@ == track_text(*metadata, play_time),
{
    let mut r = String::new();
    if let Some(t) = &metadata.title {
        r.append("**");
        r.append(t.as_str());
        r.append("**\n");
    }
    if let Some(d) = &metadata.duration {
        r.append("Duration: ");
        let text = format_duration(d, play_time);
        r.append(text.as_str());
    }
    if let Some(u) = &metadata.source_url {
        r.append("**URL**: <");
        r.append(u.as_str());
        r.append(">");
    }
    assert(r@ =~= track_text(*metadata, play_time));
    r
}

/// The text of a notice about a track: what happened (`Queued:`,
/// `Skipped:`, ...) and the track.
pub fn track_notice(action: &str, metadata: &TrackMetadata, play_time: Option<Duration>) -> (r:
    String)
    ensures
        r@ == action@ + "\n"@ + track_text(*metadata, play_time),
{
    let mut r = String::new();
    r.append(action);
    r.append("\n");
    let t = format_track(metadata, play_time);
    r.append(t.as_str());
    r
}

/// What the player fetches for a request: a link as given, anything
/// else as a search for its first result.
pub open spec fn search_query(request: Seq<char>) -> Seq<char> {
    if request.len() >= 4 && request.take(4) == "http"@ {
        request
    } else {
        "ytsearch1:"@ + request
    }
}

/// Writes what the player fetches for a request.
pub fn format_search_query(request: &str) -> (r: String)
    ensures
        r@ == search_query(request@),
{
    proof {
        reveal_strlit("http");
    }
    let starts = request.unicode_len() >= 4 && crate::text::str_eq(
        request.substring_char(0, 4),
        "http",
    );
    let mut r = String::new();
    if !starts {
        r.append("ytsearch1:");
    }
    r.append(request);
    proof {
        if request@.len() >= 4 {
            assert(request@.subrange(0, 4) =~= request@.take(4));
        }
        reveal_strlit("");
    }
    r
}

/// A track in the queue: who asked for it, who voted to skip it, and
/// what is known of it.
#[derive(Debug, Clone)]
pub struct QueuedTrack {
    pub requested: u64,
    pub skipped: Vec<u64>,
    pub metadata: TrackMetadata,
}

/// The queued tracks of a guild, by track id.
pub struct Queue {
    pub queue: HashMap<u128, QueuedTrack>,
}

impl View for Queue {
    type V = Map<u128, QueuedTrack>;

    open spec fn view(&self) -> Map<u128, QueuedTrack> {
        self.queue@
    }
}

/// The number of keys of `ks` whose track was asked for by `author`.
pub open spec fn count_requests(ks: Seq<u128>, m: Map<u128, QueuedTrack>, author: u64) -> nat
    decreases ks.len(),
{
    if ks.len() == 0 {
        0
    } else {
        count_requests(ks.drop_last(), m, author) + if m[ks.last()].requested == author {
            1nat
        } else {
            0nat
        }
    }
}

/// The tracks of the queue that `author` asked for.
pub open spec fn requests_of(m: Map<u128, QueuedTrack>, author: u64) -> Set<u128> {
    m.dom().filter(|k: u128| m[k].requested == author)
}

proof fn lemma_count_requests(ks: Seq<u128>, m: Map<u128, QueuedTrack>, author: u64)
    requires
        ks.no_duplicates(),
    ensures
        count_requests(ks, m, author) == ks.to_set().filter(|k: u128| m[k].requested == author).len(),
        ks.to_set().finite(),
    decreases ks.len(),
{
    let p = |k: u128| m[k].requested == author;
    if ks.len() == 0 {
        assert(ks.to_set().filter(p) =~= Set::<u128>::empty());
    } else {
        let d = ks.drop_last();
        let x = ks.last();
        assert(d.no_duplicates()) by {
            assert forall|i: int, j: int| 0 <= i < d.len() && 0 <= j < d.len() && i != j implies d[i]
                != d[j] by {
                assert(ks[i] != ks[j]);
            }
        }
        lemma_count_requests(d, m, author);
        assert(ks =~= d.push(x));
        assert(ks.to_set() =~= d.to_set().insert(x)) by {
            d.lemma_push_to_set_commute(x);
        }
        assert(!d.to_set().contains(x)) by {
            if d.to_set().contains(x) {
                let i = choose|i: int| 0 <= i < d.len() && d[i] == x;
                assert(ks[i] == ks[ks.len() - 1]);
            }
        }
        if p(x) {
            assert(ks.to_set().filter(p) =~= d.to_set().filter(p).insert(x));
        } else {
            assert(ks.to_set().filter(p) =~= d.to_set().filter(p));
        }
    }
}

impl Queue {
    /// An empty queue.
    pub fn new() -> (r: Self)
        ensures
            r@ == Map::<u128, QueuedTrack>::empty(),
    {
        Queue { queue: HashMap::new() }
    }

    /// Records a queued track.
    pub fn insert(&mut self, id: u128, track: QueuedTrack)
        ensures
            final(self)@ == old(self)@.insert(id, track),
    {
        proof {
            assert(obeys_key_model::<u128>());
        }
        let _ = self.queue.insert(id, track);
    }

    /// Forgets a track that has ended.
    pub fn remove(&mut self, id: u128)
        ensures
            final(self)@ == old(self)@.remove(id),
    {
        let _ = self.queue.remove(&id);
    }

    /// The record of a track.
    pub fn get(&self, id: u128) -> (r: Option<&QueuedTrack>)
        ensures
            match r {
                Some(t) => self@.contains_key(id) && *t == self@[id],
                None => !self@.contains_key(id),
            },
    {
        self.queue.get(&id)
    }

    /// How many queued tracks `author` asked for.
    pub fn requests_by(&self, author: u64) -> (r: usize)
        ensures
            r == requests_of(self@, author).len(),
    {
        let n = self.queue.len();
        let mut count: usize = 0;
        let ghost ks = spec_keys_iter(&self.queue).remaining().unref();
        for k in it: self.queue.keys()
            invariant
                ks == it.seq().map_values(|x: &u128| *x),
                ks.no_duplicates(),
                ks.to_set() == self@.dom(),
                ks.len() == self@.dom().len(),
                n == self@.dom().len(),
                count == count_requests(ks.take(it.index() as int), self@, author),
                count <= it.index(),
        {
            proof {
                assert(ks.take(it.index() + 1).drop_last() =~= ks.take(it.index() as int));
            }
            match self.queue.get(k) {
                Some(t) => {
                    if t.requested == author {
                        count = count + 1;
                    }
                },
                None => {},
            }
        }
        proof {
            assert(ks.take(ks.len() as int) =~= ks);
            lemma_count_requests(ks, self@, author);
        }
        count
    }
}

/// A request accepted while the queue is playing leaves its member with
/// at most `max_queued` queued tracks, once the new track (under an id
/// not yet in the queue) is recorded.
pub proof fn lemma_enqueue_keeps_limit(
    duration: Option<Duration>,
    max_duration: Duration,
    queue: Map<u128, QueuedTrack>,
    max_queued: u16,
    id: u128,
    track: QueuedTrack,
)
    requires
        queue.dom().finite(),
        !queue.contains_key(id),
        queue_decision(duration, max_duration, false, queue, track.requested, max_queued)
            == QueueDecision::Enqueue,
    ensures
        requests_of(queue.insert(id, track), track.requested).len() <= max_queued,
{
    let a = track.requested;
    let before = requests_of(queue, a);
    let after = requests_of(queue.insert(id, track), a);
    assert(after =~= before.insert(id));
    assert(before.finite()) by {
        vstd::set_lib::lemma_len_subset(before, queue.dom());
    }
    assert(!before.contains(id));
}

/// Whether a request may join the queue.
#[derive(Debug, Clone, Copy, PartialEq, Eq, Structural)]
pub enum QueueDecision {
    /// The track is longer than allowed; the player leaves the channel
    /// when nothing else is queued.
    TooLong { leave: bool },
    /// The member already has as many tracks queued as allowed.
    TooManyQueued,
    /// The track joins the queue.
    Enqueue,
}

/// The decision on a request for a track of the given length.
pub open spec fn queue_decision(
    duration: Option<Duration>,
    max_duration: Duration,
    queue_is_empty: bool,
    queue: Map<u128, QueuedTrack>,
    author: u64,
    max_queued: u16,
) -> QueueDecision {
    match duration {
        Some(d) if duration_nanos(d) > duration_nanos(max_duration) => QueueDecision::TooLong {
            leave: queue_is_empty,
        },
        _ => if !queue_is_empty && requests_of(queue, author).len() >= max_queued {
            QueueDecision::TooManyQueued
        } else {
            QueueDecision::Enqueue
        },
    }
}

/// What a request comes to, for every input: a track longer than the
/// maximum is refused, and the player leaves exactly when nothing is
/// queued (a playing queue keeps playing); any other request is refused
/// only when the queue is playing and the member already has
/// `max_queued` tracks in it, and joins the queue otherwise.
pub proof fn lemma_queue_decisions(
    duration: Option<Duration>,
    max_duration: Duration,
    queue_is_empty: bool,
    queue: Map<u128, QueuedTrack>,
    author: u64,
    max_queued: u16,
)
    ensures
        ({
            let r = queue_decision(duration, max_duration, queue_is_empty, queue, author, max_queued);
            let too_long = duration matches Some(d) && duration_nanos(d) > duration_nanos(max_duration);
            &&& too_long ==> r == QueueDecision::TooLong { leave: queue_is_empty }
            &&& r matches QueueDecision::TooLong { leave } ==> too_long && leave == queue_is_empty
            &&& !queue_is_empty ==> r != QueueDecision::TooLong { leave: true }
            &&& !too_long ==> (r == QueueDecision::TooManyQueued <==> (!queue_is_empty
                && requests_of(queue, author).len() >= max_queued))
            &&& !too_long && queue_is_empty ==> r == QueueDecision::Enqueue
        }),
{
}

/// Decides whether a request may join the queue: not if the track is
/// longer than `max_duration`, nor if the member already has
/// `max_queued` tracks in a queue that is playing.
pub fn check_queue_request(
    duration: Option<&Duration>,
    max_duration: &Duration,
    queue_is_empty: bool,
    queue: &Queue,
    author: u64,
    max_queued: u16,
) -> (r: QueueDecision)
    ensures
        r == queue_decision(
            match duration {
                Some(d) => Some(*d),
                None => None,
            },
            *max_duration,
            queue_is_empty,
            queue@,
            author,
            max_queued,
        ),
{
    if let Some(d) = duration {
        if as_nanos(d) > as_nanos(max_duration) {
            return QueueDecision::TooLong { leave: queue_is_empty };
        }
    }
    if !queue_is_empty && queue.requests_by(author) >= max_queued as usize {
        QueueDecision::TooManyQueued
    } else {
        QueueDecision::Enqueue
    }
}

/// The reply to a track that is too long.
pub fn format_too_long(max_duration: &Duration) -> (r: String)
    ensures
        r@ == "Song is longer than the max allowed duration of "@ + duration_text(
            duration_secs(*max_duration),
            None,
        ),
{
    let mut r = String::new();
    r.append("Song is longer than the max allowed duration of ");
    let d = format_duration(max_duration, None);
    r.append(d.as_str());
    r
}

/// The reply to a member with too many tracks queued.
pub fn format_too_many_queued(max_queued: u16) -> (r: String)
    ensures
        r@ == "You have queued more than the maximum of "@ + decimal(max_queued as nat) + " songs."@,
{
    let mut r = String::new();
    r.append("You have queued more than the maximum of ");
    push_decimal(&mut r, max_queued as u64);
    r.append(" songs.");
    r
}

/// What a skip request leads to before any vote is counted.
#[derive(Debug, Clone, Copy, PartialEq, Eq, Structural)]
pub enum SkipCheck {
    /// The member asked for the track: it is skipped at once.
    OwnTrack,
    /// The member already voted to skip it.
    AlreadyVoted,
    /// The member's vote is to be counted.
    NeedsVote,
}

/// The check of a skip request by `voter`.
pub open spec fn skip_check_of(t: QueuedTrack, voter: u64) -> SkipCheck {
    if t.requested == voter {
        SkipCheck::OwnTrack
    } else if t.skipped@.contains(voter) {
        SkipCheck::AlreadyVoted
    } else {
        SkipCheck::NeedsVote
    }
}

/// Checks a skip request by `voter` against the current track.
pub fn skip_check(track: &QueuedTrack, voter: u64) -> (r: SkipCheck)
    ensures
        r == skip_check_of(*track, voter),
{
    if track.requested == voter {
        return SkipCheck::OwnTrack;
    }
    let mut i: usize = 0;
    while i < track.skipped.len()
        invariant
            i <= track.skipped@.len(),
            track.requested != voter,
            forall|j: int| 0 <= j < i ==> track.skipped@[j] != voter,
        decreases track.skipped@.len() - i,
    {
        if track.skipped[i] == voter {
            assert(track.skipped@.contains(voter)) by {
                assert(track.skipped@[i as int] == voter);
            }
            return SkipCheck::AlreadyVoted;
        }
        i = i + 1;
    }
    SkipCheck::NeedsVote
}

/// The result of a counted skip vote.
#[derive(Debug, Clone, Copy, PartialEq, Eq, Structural)]
pub enum SkipOutcome {
    /// Enough members voted: the track is skipped.
    Skip,
    /// Not yet: `votes` of the `needed` votes are in.
    Voted { votes: usize, needed: usize },
}

/// Counts the vote of `voter` to skip the current track, in a voice
/// channel of `member_count` members (the bot among them). All members
/// but the bot and one more must vote.
pub fn record_skip_vote(track: &mut QueuedTrack, voter: u64, member_count: usize) -> (r:
    SkipOutcome)
    requires
        member_count >= 2,
        old(track).skipped@.len() < usize::MAX,
    ensures
        final(track).requested == old(track).requested,
        final(track).metadata == old(track).metadata,
        final(track).skipped@ == old(track).skipped@.push(voter),
        r == if final(track).skipped@.len() >= member_count - 2 {
            SkipOutcome::Skip
        } else {
            SkipOutcome::Voted {
                votes: final(track).skipped@.len() as usize,
                needed: (member_count - 2) as usize,
            }
        },
{
    let needed = member_count - 2;
    track.skipped.push(voter);
    let votes = track.skipped.len();
    if votes >= needed {
        SkipOutcome::Skip
    } else {
        SkipOutcome::Voted { votes, needed }
    }
}

/// After a member's vote is counted, another skip request by the same
/// member is refused as already voted.
pub proof fn lemma_vote_counted_once(before: QueuedTrack, voter: u64, after: QueuedTrack)
    requires
        before.requested != voter,
        after.requested == before.requested,
        after.skipped@ == before.skipped@.push(voter),
    ensures
        skip_check_of(after, voter) == SkipCheck::AlreadyVoted,
{
    assert(after.skipped@[after.skipped@.len() - 1] == voter);
}

/// The reply to a counted vote that did not skip the track.
pub fn format_skip_vote(votes: usize, needed: usize) -> (r: String)
    ensures
        r@ == "Voted to skip the current song. `"@ + decimal(votes as nat) + "/"@ + decimal(
            needed as nat,
        ) + "`"@,
{
    let mut r = String::new();
    r.append("Voted to skip the current song. `");
    push_decimal(&mut r, votes as u64);
    r.append("/");
    push_decimal(&mut r, needed as u64);
    r.append("`");
    r
}

/// A requested volume in percent, at most 200.
pub fn clamp_volume(volume: u8) -> (r: u8)
    ensures
        r == if volume > 200 { 200 } else { volume },
{
    if volume > 200 {
        200
    } else {
        volume
    }
}

/// The reply to a volume change.
pub fn format_volume_changed(volume: u8) -> (r: String)
    ensures
        r@ == "Changed volume to "@ + decimal(volume as nat) + "%."@,
{
    let mut r = String::new();
    r.append("Changed volume to ");
    push_decimal(&mut r, volume as u64);
    r.append("%.");
    r
}

} // verus!
