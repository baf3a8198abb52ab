//! Per-guild settings: the command prefix (cached in a concurrent map)
//! and the channels that receive score and map notices.

use dashmap::DashMap;
use vstd::prelude::*;
use crate::models::{NewOsuGuildChannel, OsuGuildChannel};
use crate::text::{decimal, join, views, join_strings, push_decimal};

verus! {

/// What a map from guild ids to prefixes holds.
pub uninterp spec fn prefix_entries(m: DashMap<u64, String>) -> Map<u64, Seq<char>>;

/// `DashMap::new`: the map starts empty.
#[verifier::external_body]
fn prefix_map_new() -> (r: DashMap<u64, String>)
    ensures
        prefix_entries(r) =~= Map::empty(),
{
    DashMap::new()
}

/// `DashMap::insert`: the guild now maps to the prefix.
#[verifier::external_body]
fn prefix_map_insert(m: &mut DashMap<u64, String>, k: u64, v: String)
    ensures
        prefix_entries(*final(m)) == prefix_entries(*old(m)).insert(k, v@),
{
    m.insert(k, v);
}

/// `DashMap::entry(k).or_insert(v)`, with the stored prefix copied out:
/// the prefix stored for `k`, which becomes `v` if there was none.
#[verifier::external_body]
fn prefix_map_or_insert(m: &mut DashMap<u64, String>, k: u64, v: String) -> (r: String)
    ensures
        prefix_entries(*old(m)).contains_key(k) ==> prefix_entries(*final(m)) == prefix_entries(
            *old(m),
        ) && r@ == prefix_entries(*old(m))[k],
        !prefix_entries(*old(m)).contains_key(k) ==> prefix_entries(*final(m)) == prefix_entries(
            *old(m),
        ).insert(k, v@) && r@ == v@,
{
    m.entry(k).or_insert(v).value().clone()
}

/// The prefixes of the guilds seen so far.
pub struct GuildPrefix {
    guild_prefix: DashMap<u64, String>,
}

impl View for GuildPrefix {
    type V = Map<u64, Seq<char>>;

    closed spec fn view(&self) -> Map<u64, Seq<char>> {
        prefix_entries(self.guild_prefix)
    }
}

impl GuildPrefix {
    /// No guild seen yet.
    pub fn new() -> (r: Self)
        ensures
            r@ == Map::<u64, Seq<char>>::empty(),
    {
        GuildPrefix { guild_prefix: prefix_map_new() }
    }

    /// Records a guild's new prefix.
    pub fn set(&mut self, guild_id: u64, prefix: String)
        ensures
            final(self)@ == old(self)@.insert(guild_id, prefix@),
    {
        prefix_map_insert(&mut self.guild_prefix, guild_id, prefix);
    }

    /// The prefix where a command was sent: the default in direct
    /// messages; in a guild, the prefix already known for it, else the
    /// one stored for it (`stored`), else the default, which is then
    /// kept for the guild.
    pub fn resolve(&mut self, guild_id: Option<u64>, stored: Option<String>, default: &str) -> (r:
        String)
        ensures
            guild_id is None ==> r@ == default@ && final(self)@ == old(self)@,
            guild_id matches Some(g) ==> {
                let chosen = match stored {
                    Some(s) => s@,
                    None => default@,
                };
                if old(self)@.contains_key(g) {
                    r@ == old(self)@[g] && final(self)@ == old(self)@
                } else {
                    r@ == chosen && final(self)@ == old(self)@.insert(g, chosen)
                }
            },
    {
        match guild_id {
            None => {
                let mut r = String::new();
                r.append(default);
                r
            },
            Some(g) => {
                let chosen = match stored {
                    Some(s) => s,
                    None => {
                        let mut d = String::new();
                        d.append(default);
                        d
                    },
                };
                prefix_map_or_insert(&mut self.guild_prefix, g, chosen)
            },
        }
    }
}

/// After a guild's prefix is set, commands there use it.
pub proof fn lemma_set_then_resolve(t: Map<u64, Seq<char>>, g: u64, p: Seq<char>)
    ensures
        t.insert(g, p).contains_key(g),
        t.insert(g, p)[g] == p,
{
}

/// The notice channels of a guild after its score channels are set: the
/// map channels stay as they were, if the guild had a setting.
pub fn with_score_channels(guild_id: i64, existing: Option<OsuGuildChannel>, channels: Vec<Option<i64>>) -> (r:
    NewOsuGuildChannel)
    ensures
        r.score_channel == Some(channels),
        match existing {
            Some(e) => r.guild_id == e.guild_id && r.map_channel == e.map_channel,
            None => r.guild_id == guild_id && r.map_channel is None,
        },
{
    match existing {
        Some(e) => NewOsuGuildChannel {
            guild_id: e.guild_id,
            score_channel: Some(channels),
            map_channel: e.map_channel,
        },
        None => NewOsuGuildChannel { guild_id, score_channel: Some(channels), map_channel: None },
    }
}

/// The notice channels of a guild after its map channels are set: the
/// score channels stay as they were, if the guild had a setting.
pub fn with_map_channels(guild_id: i64, existing: Option<OsuGuildChannel>, channels: Vec<Option<i64>>) -> (r:
    NewOsuGuildChannel)
    ensures
        r.map_channel == Some(channels),
        match existing {
            Some(e) => r.guild_id == e.guild_id && r.score_channel == e.score_channel,
            None => r.guild_id == guild_id && r.score_channel is None,
        },
{
    match existing {
        Some(e) => NewOsuGuildChannel {
            guild_id: e.guild_id,
            score_channel: e.score_channel,
            map_channel: Some(channels),
        },
        None => NewOsuGuildChannel { guild_id, score_channel: None, map_channel: Some(channels) },
    }
}

/// The channels of a setting, without the empty entries.
pub open spec fn present_channels(ids: Seq<Option<i64>>) -> Seq<i64>
    decreases ids.len(),
{
    if ids.len() == 0 {
        Seq::empty()
    } else {
        match ids.last() {
            Some(c) => present_channels(ids.drop_last()).push(c),
            None => present_channels(ids.drop_last()),
        }
    }
}

/// The channels of a setting, without the empty entries.
pub fn flatten_channels(ids: &Vec<Option<i64>>) -> (r: Vec<i64>)
    ensures
        r@ == present_channels(ids@),
{
    let mut r: Vec<i64> = Vec::new();
    let mut i: usize = 0;
    while i < ids.len()
        invariant
            i <= ids@.len(),
            r@ == present_channels(ids@.take(i as int)),
        decreases ids@.len() - i,
    {
        proof {
            assert(ids@.take(i + 1).drop_last() =~= ids@.take(i as int));
        }
        if let Some(c) = ids[i] {
            r.push(c);
        }
        i = i + 1;
    }
    assert(ids@.take(ids@.len() as int) =~= ids@);
    r
}

/// The counts that the debug report shows.
#[derive(Debug, Clone)]
pub struct DebugCounts {
    pub tracked_profiles: usize,
    pub linked_profiles: usize,
    pub beatmaps: i64,
    pub beatmapsets: i64,
    pub osu_files: i64,
    pub guild_configs: i64,
}

/// The debug report: who is playing (names in backticks, `None` for
/// nobody), then the counts of what is tracked and cached.
pub open spec fn debug_report_text(playing: Seq<Seq<char>>, c: DebugCounts) -> Seq<char> {
    "Members registered as playing: "@ + (if playing.len() == 0 {
        "None"@
    } else {
        join(playing.map_values(|n: Seq<char>| "`"@ + n + "`"@), ", "@)
    }) + "\nTotal members tracked: `"@ + decimal(c.tracked_profiles as nat)
        + "`\nTotal linked profiles: `"@ + decimal(c.linked_profiles as nat)
        + "`\nTotal beatmaps cached: `"@ + crate::text::signed_decimal(c.beatmaps as int)
        + "`\nTotal beatmapsets cached: `"@ + crate::text::signed_decimal(c.beatmapsets as int)
        + "`\nTotal osu files cached: `"@ + crate::text::signed_decimal(c.osu_files as int)
        + "`\nTotal guilds with configs: `"@ + crate::text::signed_decimal(c.guild_configs as int)
        + "`"@
}

/// Writes the debug report.
pub fn format_debug_report(playing: &Vec<String>, counts: &DebugCounts) -> (r: String)
    ensures
        r@ == debug_report_text(views(playing@), *counts),
{
    let mut r = String::new();
    r.append("Members registered as playing: ");
    if playing.len() == 0 {
        r.append("None");
    } else {
        let mut quoted: Vec<String> = Vec::new();
        let mut i: usize = 0;
        while i < playing.len()
            invariant
                i <= playing@.len(),
                quoted@.len() == i,
                forall|k: int| 0 <= k < i ==> #[trigger] quoted@[k]@ == "`"@ + playing@[k]@ + "`"@,
            decreases playing@.len() - i,
        {
            let mut q = String::new();
            q.append("`");
            q.append(playing[i].as_str());
            q.append("`");
            quoted.push(q);
            i = i + 1;
        }
        let joined = join_strings(&quoted, ", ");
        proof {
            assert(views(quoted@) =~= views(playing@).map_values(|n: Seq<char>| "`"@ + n + "`"@));
        }
        r.append(joined.as_str());
    }
    r.append("\nTotal members tracked: `");
    push_decimal(&mut r, counts.tracked_profiles as u64);
    r.append("`\nTotal linked profiles: `");
    push_decimal(&mut r, counts.linked_profiles as u64);
    r.append("`\nTotal beatmaps cached: `");
    crate::text::push_signed_decimal(&mut r, counts.beatmaps);
    r.append("`\nTotal beatmapsets cached: `");
    crate::text::push_signed_decimal(&mut r, counts.beatmapsets);
    r.append("`\nTotal osu files cached: `");
    crate::text::push_signed_decimal(&mut r, counts.osu_files);
    r.append("`\nTotal guilds with configs: `");
    crate::text::push_signed_decimal(&mut r, counts.guild_configs);
    r.append("`");
    proof {
        reveal_strlit("None");
        assert(r@ =~= debug_report_text(views(playing@), *counts));
    }
    r
}

} // verus!
