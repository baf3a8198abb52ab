//! Who is tracked: which Discord members follow each osu! account, which
//! channels of a guild feed summaries, and which scores were already
//! announced. Each table is a concurrent `DashMap` from an id to a list.

use dashmap::DashMap;
use vstd::prelude::*;

verus! {

#[verifier::external_type_specification]
#[verifier::external_body]
#[verifier::reject_recursive_types(K)]
#[verifier::reject_recursive_types(V)]
#[verifier::reject_recursive_types(S)]
pub struct ExDashMap<K, V, S>(DashMap<K, V, S>);

/// What a map from ids to lists of ids holds: for each key, its list.
pub uninterp spec fn id_lists(m: DashMap<i64, Vec<i64>>) -> Map<i64, Seq<i64>>;

/// What a map from osu! accounts to announced score ids holds.
pub uninterp spec fn score_lists(m: DashMap<i64, Vec<u64>>) -> Map<i64, Seq<u64>>;

/// `DashMap::new`: the map starts empty.
#[verifier::external_body]
fn id_lists_new() -> (r: DashMap<i64, Vec<i64>>)
    ensures
        id_lists(r) =~= Map::empty(),
{
    DashMap::new()
}

/// `DashMap::get`, with the list copied out: the list stored under `k`,
/// if any.
#[verifier::external_body]
fn id_lists_get(m: &DashMap<i64, Vec<i64>>, k: i64) -> (r: Option<Vec<i64>>)
    ensures
        match r {
            Some(v) => id_lists(*m).contains_key(k) && v@ == id_lists(*m)[k],
            None => !id_lists(*m).contains_key(k),
        },
{
    match m.get(&k) {
        Some(entry) => Some(entry.value().clone()),
        None => None,
    }
}

/// `DashMap::insert`: `k` now maps to `v`; the list it replaced is
/// returned.
#[verifier::external_body]
fn id_lists_insert(m: &mut DashMap<i64, Vec<i64>>, k: i64, v: Vec<i64>) -> (r: Option<Vec<i64>>)
    ensures
        id_lists(*final(m)) == id_lists(*old(m)).insert(k, v@),
        match r {
            Some(o) => id_lists(*old(m)).contains_key(k) && o@ == id_lists(*old(m))[k],
            None => !id_lists(*old(m)).contains_key(k),
        },
{
    m.insert(k, v)
}

/// `DashMap::remove`: the entry of `k` is gone, and is returned if it
/// was there.
#[verifier::external_body]
fn id_lists_remove(m: &mut DashMap<i64, Vec<i64>>, k: i64) -> (r: Option<(i64, Vec<i64>)>)
    ensures
        id_lists(*final(m)) == id_lists(*old(m)).remove(k),
        match r {
            Some(e) => id_lists(*old(m)).contains_key(k) && e.0 == k && e.1@ == id_lists(
                *old(m),
            )[k],
            None => !id_lists(*old(m)).contains_key(k),
        },
{
    m.remove(&k)
}

/// `DashMap::new` for announced scores: the map starts empty.
#[verifier::external_body]
fn score_lists_new() -> (r: DashMap<i64, Vec<u64>>)
    ensures
        score_lists(r) =~= Map::empty(),
{
    DashMap::new()
}

/// `DashMap::get` for announced scores, with the list copied out.
#[verifier::external_body]
fn score_lists_get(m: &DashMap<i64, Vec<u64>>, k: i64) -> (r: Option<Vec<u64>>)
    ensures
        match r {
            Some(v) => score_lists(*m).contains_key(k) && v@ == score_lists(*m)[k],
            None => !score_lists(*m).contains_key(k),
        },
{
    match m.get(&k) {
        Some(entry) => Some(entry.value().clone()),
        None => None,
    }
}

/// `DashMap::insert` for announced scores.
#[verifier::external_body]
fn score_lists_insert(m: &mut DashMap<i64, Vec<u64>>, k: i64, v: Vec<u64>) -> (r: Option<
    Vec<u64>,
>)
    ensures
        score_lists(*final(m)) == score_lists(*old(m)).insert(k, v@),
{
    m.insert(k, v)
}

/// `s` without any element equal to `x`, the rest in order.
pub open spec fn without(s: Seq<i64>, x: i64) -> Seq<i64>
    decreases s.len(),
{
    if s.len() == 0 {
        s
    } else if s.last() == x {
        without(s.drop_last(), x)
    } else {
        without(s.drop_last(), x).push(s.last())
    }
}

/// The table after `member` starts following `key`: the member is added
/// at the end of the key's list, which is created if there was none.
pub open spec fn with_follower(t: Map<i64, Seq<i64>>, key: i64, member: i64) -> Map<i64, Seq<i64>> {
    if t.contains_key(key) {
        t.insert(key, t[key].push(member))
    } else {
        t.insert(key, seq![member])
    }
}

/// The table after `member` stops following `key`: every occurrence of
/// the member leaves the key's list, and a list that becomes empty is
/// removed.
pub open spec fn without_follower(t: Map<i64, Seq<i64>>, key: i64, member: i64) -> Map<
    i64,
    Seq<i64>,
> {
    if t.contains_key(key) {
        if without(t[key], member).len() == 0 {
            t.remove(key)
        } else {
            t.insert(key, without(t[key], member))
        }
    } else {
        t
    }
}

/// The Discord members that follow each osu! account, by osu! id.
pub struct TrackedUsers {
    users: DashMap<i64, Vec<i64>>,
}

impl View for TrackedUsers {
    type V = Map<i64, Seq<i64>>;

    closed spec fn view(&self) -> Map<i64, Seq<i64>> {
        id_lists(self.users)
    }
}

impl TrackedUsers {
    /// A table in which nobody is tracked.
    pub fn new() -> (r: Self)
        ensures
            r@ == Map::<i64, Seq<i64>>::empty(),
    {
        TrackedUsers { users: id_lists_new() }
    }

    /// The members that follow `osu_id`, in the order they started.
    pub fn followers(&self, osu_id: i64) -> (r: Option<Vec<i64>>)
        ensures
            match r {
                Some(v) => self@.contains_key(osu_id) && v@ == self@[osu_id],
                None => !self@.contains_key(osu_id),
            },
    {
        id_lists_get(&self.users, osu_id)
    }
}

/// Records that the Discord member `member_id` follows the osu! account
/// `osu_id`.
pub fn add_tracked_user(users: &mut TrackedUsers, member_id: i64, osu_id: i64)
    ensures
        final(users)@ == with_follower(old(users)@, osu_id, member_id),
{
    match id_lists_get(&users.users, osu_id) {
        Some(mut members) => {
            members.push(member_id);
            let _ = id_lists_insert(&mut users.users, osu_id, members);
            assert(users@ == with_follower(old(users)@, osu_id, member_id));
        },
        None => {
            let mut members: Vec<i64> = Vec::new();
            members.push(member_id);
            assert(members@ =~= seq![member_id]);
            let _ = id_lists_insert(&mut users.users, osu_id, members);
            assert(users@ == with_follower(old(users)@, osu_id, member_id));
        },
    }
}

/// The list without any element equal to `x`.
fn retain_other(v: &Vec<i64>, x: i64) -> (r: Vec<i64>)
    ensures
        r@ == without(v@, x),
{
    let mut r: Vec<i64> = Vec::new();
    let mut i: usize = 0;
    while i < v.len()
        invariant
            i <= v@.len(),
            r@ == without(v@.take(i as int), x),
        decreases v@.len() - i,
    {
        proof {
            assert(v@.take(i + 1).drop_last() =~= v@.take(i as int));
        }
        if v[i] != x {
            r.push(v[i]);
        }
        i = i + 1;
    }
    assert(v@.take(v@.len() as int) =~= v@);
    r
}

/// Records that the Discord member `member_id` no longer follows the
/// osu! account `osu_id`; the account stops being tracked when nobody
/// follows it any more.
pub fn remove_tracked_user(users: &mut TrackedUsers, member_id: i64, osu_id: i64)
    ensures
        final(users)@ == without_follower(old(users)@, osu_id, member_id),
{
    if let Some(members) = id_lists_get(&users.users, osu_id) {
        let rest = retain_other(&members, member_id);
        if rest.len() == 0 {
            let _ = id_lists_remove(&mut users.users, osu_id);
        } else {
            let _ = id_lists_insert(&mut users.users, osu_id, rest);
        }
    }
}

/// An element occurs in `s.push(e)` when it occurs in `s` or is `e`.
proof fn lemma_contains_push(s: Seq<i64>, e: i64, y: i64)
    ensures
        s.push(e).contains(y) <==> (s.contains(y) || e == y),
{
    let t = s.push(e);
    if t.contains(y) {
        let j = choose|j: int| 0 <= j < t.len() && t[j] == y;
        if j < s.len() {
            assert(s[j] == y);
        }
    }
    if s.contains(y) {
        let j = choose|j: int| 0 <= j < s.len() && s[j] == y;
        assert(t[j] == y);
    }
    if e == y {
        assert(t[s.len() as int] == y);
    }
}

/// Every element of `without(s, x)` differs from `x`, and an element of
/// `s` that differs from `x` stays.
pub proof fn lemma_without(s: Seq<i64>, x: i64)
    ensures
        !without(s, x).contains(x),
        forall|y: i64| y != x ==> (s.contains(y) <==> without(s, x).contains(y)),
    decreases s.len(),
{
    if s.len() > 0 {
        let d = s.drop_last();
        lemma_without(d, x);
        assert(s =~= d.push(s.last()));
        assert forall|y: i64| y != x implies (s.contains(y) <==> without(s, x).contains(y)) by {
            lemma_contains_push(d, s.last(), y);
            lemma_contains_push(without(d, x), s.last(), y);
        }
        lemma_contains_push(without(d, x), s.last(), x);
    }
}

/// Following and then unfollowing an account that the member did not
/// follow before leaves the table as it was.
pub proof fn lemma_follow_then_unfollow(t: Map<i64, Seq<i64>>, key: i64, member: i64)
    requires
        t.contains_key(key) ==> t[key].len() > 0 && !t[key].contains(member),
    ensures
        without_follower(with_follower(t, key, member), key, member) == t,
{
    if t.contains_key(key) {
        lemma_without_absent(t[key], member);
        let s = t[key].push(member);
        assert(s.drop_last() =~= t[key]);
        assert(without(s, member) == without(t[key], member));
        assert(t.insert(key, t[key]) =~= t);
    } else {
        let s = seq![member];
        assert(s.drop_last() =~= Seq::<i64>::empty());
        assert(s.last() == member);
        assert(without(Seq::<i64>::empty(), member) =~= Seq::<i64>::empty());
        assert(without(s, member) == without(s.drop_last(), member));
        assert(t.insert(key, s).remove(key) =~= t);
    }
}

/// Removing an element that does not occur changes nothing.
pub proof fn lemma_without_absent(s: Seq<i64>, x: i64)
    requires
        !s.contains(x),
    ensures
        without(s, x) == s,
    decreases s.len(),
{
    if s.len() > 0 {
        assert(!s.drop_last().contains(x)) by {
            if s.drop_last().contains(x) {
                let i = choose|i: int| 0 <= i < s.drop_last().len() && s.drop_last()[i] == x;
                assert(s[i] == x);
            }
        }
        lemma_without_absent(s.drop_last(), x);
        assert(s.last() != x) by {
            assert(s[s.len() - 1] == s.last());
        }
        assert(s.drop_last().push(s.last()) =~= s);
    }
}

/// After a member unfollows an account, the member is not among its
/// followers, and every other follower stays.
pub proof fn lemma_unfollow_removes(t: Map<i64, Seq<i64>>, key: i64, member: i64)
    requires
        t.contains_key(key),
    ensures
        without_follower(t, key, member).contains_key(key) ==> !without_follower(
            t,
            key,
            member,
        )[key].contains(member),
        forall|other: i64|
            other != member && t[key].contains(other) ==> without_follower(
                t,
                key,
                member,
            ).contains_key(key) && without_follower(t, key, member)[key].contains(other),
{
    lemma_without(t[key], member);
    assert forall|other: i64|
        other != member && t[key].contains(other) implies without_follower(
        t,
        key,
        member,
    ).contains_key(key) && without_follower(t, key, member)[key].contains(other) by {
        let w = without(t[key], member);
        assert(w.contains(other));
        if w.len() == 0 {
            let j = choose|j: int| 0 <= j < w.len() && w[j] == other;
        }
    }
}

/// The score ids already announced for each osu! account.
pub struct NotifiedScores {
    scores: DashMap<i64, Vec<u64>>,
}

impl View for NotifiedScores {
    type V = Map<i64, Seq<u64>>;

    closed spec fn view(&self) -> Map<i64, Seq<u64>> {
        score_lists(self.scores)
    }
}

/// The scores announced for an account so far.
pub open spec fn announced(t: Map<i64, Seq<u64>>, osu_id: i64) -> Seq<u64> {
    if t.contains_key(osu_id) {
        t[osu_id]
    } else {
        Seq::empty()
    }
}

impl NotifiedScores {
    /// A table in which nothing was announced.
    pub fn new() -> (r: Self)
        ensures
            r@ == Map::<i64, Seq<u64>>::empty(),
    {
        NotifiedScores { scores: score_lists_new() }
    }

    /// Claims the score `score_id` of `osu_id` for an announcement:
    /// returns whether it was not announced before, and records it.
    pub fn claim(&mut self, osu_id: i64, score_id: u64) -> (fresh: bool)
        ensures
            fresh == !announced(old(self)@, osu_id).contains(score_id),
            fresh ==> final(self)@ == old(self)@.insert(
                osu_id,
                announced(old(self)@, osu_id).push(score_id),
            ),
            !fresh ==> final(self)@ == old(self)@,
    {
        let mut ids = match score_lists_get(&self.scores, osu_id) {
            Some(v) => v,
            None => Vec::new(),
        };
        let mut i: usize = 0;
        while i < ids.len()
            invariant
                i <= ids@.len(),
                ids@ == announced(old(self)@, osu_id),
                self@ == old(self)@,
                forall|j: int| 0 <= j < i ==> ids@[j] != score_id,
            decreases ids@.len() - i,
        {
            if ids[i] == score_id {
                assert(ids@.contains(score_id)) by {
                    assert(ids@[i as int] == score_id);
                }
                return false;
            }
            i = i + 1;
        }
        ids.push(score_id);
        let _ = score_lists_insert(&mut self.scores, osu_id, ids);
        true
    }
}

/// Once a score has been claimed, claiming it again is refused.
pub proof fn lemma_claim_once(t: Map<i64, Seq<u64>>, osu_id: i64, score_id: u64)
    ensures
        announced(t.insert(osu_id, announced(t, osu_id).push(score_id)), osu_id).contains(score_id),
{
    let s = announced(t, osu_id).push(score_id);
    assert(s[s.len() - 1] == score_id);
}

/// The guilds in which summaries are enabled, with the channels of each
/// whose messages are collected.
pub struct SummaryEnabledGuilds {
    guilds: DashMap<i64, Vec<i64>>,
}

impl View for SummaryEnabledGuilds {
    type V = Map<i64, Seq<i64>>;

    closed spec fn view(&self) -> Map<i64, Seq<i64>> {
        id_lists(self.guilds)
    }
}

/// What to do with a chat message for summaries.
#[derive(Debug, Clone, Copy, PartialEq, Eq, Structural)]
pub enum SummaryAction {
    /// Nothing: no guild, no text, or a channel that is not collected.
    Ignore,
    /// The guild's channels are not known yet: load them from storage.
    LoadGuild,
    /// The channel is collected: store the message.
    Store,
}

impl SummaryEnabledGuilds {
    /// A table with no guild loaded.
    pub fn new() -> (r: Self)
        ensures
            r@ == Map::<i64, Seq<i64>>::empty(),
    {
        SummaryEnabledGuilds { guilds: id_lists_new() }
    }

    /// Sets the collected channels of a guild.
    pub fn set_channels(&mut self, guild_id: i64, channels: Vec<i64>)
        ensures
            final(self)@ == old(self)@.insert(guild_id, channels@),
    {
        let _ = id_lists_insert(&mut self.guilds, guild_id, channels);
    }

    /// Adds a collected channel to a guild, creating its entry if needed.
    pub fn enable_channel(&mut self, guild_id: i64, channel_id: i64)
        ensures
            final(self)@ == with_follower(old(self)@, guild_id, channel_id),
    {
        match id_lists_get(&self.guilds, guild_id) {
            Some(mut channels) => {
                channels.push(channel_id);
                let _ = id_lists_insert(&mut self.guilds, guild_id, channels);
            },
            None => {
                let mut channels: Vec<i64> = Vec::new();
                channels.push(channel_id);
                assert(channels@ =~= seq![channel_id]);
                let _ = id_lists_insert(&mut self.guilds, guild_id, channels);
            },
        }
    }

    /// Decides what becomes of a message posted in `channel_id` of
    /// `guild_id` (none for a direct message).
    pub fn message_action(&self, guild_id: Option<i64>, channel_id: i64, content_is_empty: bool) -> (r:
        SummaryAction)
        ensures
            r == match guild_id {
                None => SummaryAction::Ignore,
                Some(g) => if content_is_empty {
                    SummaryAction::Ignore
                } else if !self@.contains_key(g) {
                    SummaryAction::LoadGuild
                } else if self@[g].contains(channel_id) {
                    SummaryAction::Store
                } else {
                    SummaryAction::Ignore
                },
            },
    {
        let g = match guild_id {
            None => return SummaryAction::Ignore,
            Some(g) => g,
        };
        if content_is_empty {
            return SummaryAction::Ignore;
        }
        match id_lists_get(&self.guilds, g) {
            None => SummaryAction::LoadGuild,
            Some(channels) => {
                let mut i: usize = 0;
                while i < channels.len()
                    invariant
                        i <= channels@.len(),
                        guild_id == Some(g),
                        !content_is_empty,
                        self@.contains_key(g),
                        channels@ == self@[g],
                        forall|j: int| 0 <= j < i ==> channels@[j] != channel_id,
                    decreases channels@.len() - i,
                {
                    if channels[i] == channel_id {
                        assert(channels@.contains(channel_id)) by {
                            assert(channels@[i as int] == channel_id);
                        }
                        return SummaryAction::Store;
                    }
                    i = i + 1;
                }
                SummaryAction::Ignore
            },
        }
    }
}

/// The stored channel list of a guild after summaries are disabled in
/// `channel_id`: every entry for that channel leaves, the rest stay in
/// order; `None` when the channel was not enabled, so nothing changes.
pub open spec fn disabled_channels(ids: Seq<Option<i64>>, channel_id: i64) -> Option<
    Seq<Option<i64>>,
> {
    if ids.contains(Some(channel_id)) {
        Some(ids.filter(|e: Option<i64>| e != Some(channel_id)))
    } else {
        None
    }
}

/// Removes a channel from a guild's stored channel list, if it is there.
pub fn disable_channel(ids: &Vec<Option<i64>>, channel_id: i64) -> (r: Option<Vec<Option<i64>>>)
    ensures
        match (r, disabled_channels(ids@, channel_id)) {
            (Some(v), Some(w)) => v@ == w,
            (None, None) => true,
            _ => false,
        },
{
    let mut found = false;
    let mut kept: Vec<Option<i64>> = Vec::new();
    let ghost pred = |e: Option<i64>| e != Some(channel_id);
    let mut i: usize = 0;
    while i < ids.len()
        invariant
            i <= ids@.len(),
            pred == (|e: Option<i64>| e != Some(channel_id)),
            kept@ == ids@.take(i as int).filter(pred),
            found == ids@.take(i as int).contains(Some(channel_id)),
        decreases ids@.len() - i,
    {
        proof {
            assert(ids@.take(i + 1) =~= ids@.take(i as int).push(ids@[i as int]));
            ids@.take(i as int).lemma_filter_push(ids@[i as int], pred);
        }
        let e = ids[i];
        let same = match e {
            Some(c) => c == channel_id,
            None => false,
        };
        if same {
            found = true;
            assert(ids@.take(i + 1)[i as int] == Some(channel_id));
        } else {
            kept.push(e);
            proof {
                let t = ids@.take(i + 1);
                if t.contains(Some(channel_id)) {
                    let j = choose|j: int| 0 <= j < t.len() && t[j] == Some(channel_id);
                    assert(ids@.take(i as int)[j] == Some(channel_id));
                }
            }
        }
        proof {
            let t = ids@.take(i as int);
            if found && t.contains(Some(channel_id)) {
                let j = choose|j: int| 0 <= j < t.len() && t[j] == Some(channel_id);
                assert(ids@.take(i + 1)[j] == Some(channel_id));
            }
        }
        i = i + 1;
    }
    assert(ids@.take(ids@.len() as int) =~= ids@);
    if found {
        Some(kept)
    } else {
        None
    }
}

} // verus!
