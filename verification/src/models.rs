//! The rows that the bot keeps in its database, as plain values.

use vstd::prelude::*;

verus! {

/// A Discord member's link to an osu! account.
#[derive(Debug, Clone)]
pub struct LinkedOsuProfile {
    pub id: i64,
    pub osu_id: i64,
    pub home_guild: i64,
    pub mode: String,
}

/// A link that is about to be stored.
#[derive(Debug, Clone)]
pub struct NewLinkedOsuProfile {
    pub id: i64,
    pub osu_id: i64,
    pub home_guild: i64,
    pub mode: String,
}

/// The `.osu` file of a beatmap.
#[derive(Debug, Clone)]
pub struct OsuFile {
    pub id: i64,
    pub file: Vec<u8>,
}

/// A `.osu` file that is about to be stored.
#[derive(Debug, Clone)]
pub struct NewOsuFile {
    pub id: i64,
    pub file: Vec<u8>,
}

/// The channels of a guild that receive score and map notices.
#[derive(Debug, Clone)]
pub struct OsuGuildChannel {
    pub guild_id: i64,
    pub score_channel: Option<Vec<Option<i64>>>,
    pub map_channel: Option<Vec<Option<i64>>>,
}

/// Notice channels that are about to be stored.
#[derive(Debug, Clone)]
pub struct NewOsuGuildChannel {
    pub guild_id: i64,
    pub score_channel: Option<Vec<Option<i64>>>,
    pub map_channel: Option<Vec<Option<i64>>>,
}

/// The command prefix of a guild.
#[derive(Debug, Clone)]
pub struct Prefix {
    pub guild_id: i64,
    pub guild_prefix: String,
}

/// A guild prefix that is about to be stored.
#[derive(Debug, Clone)]
pub struct NewPrefix {
    pub guild_id: i64,
    pub guild_prefix: String,
}

/// A "would you rather" question with its answer counts.
#[derive(Debug, Clone)]
pub struct Question {
    pub id: i32,
    pub choice1: String,
    pub choice2: String,
    pub choice1_answers: i32,
    pub choice2_answers: i32,
}

/// A question that is about to be stored.
#[derive(Debug, Clone)]
pub struct NewQuestion<'a> {
    pub choice1: &'a str,
    pub choice2: &'a str,
}

/// A guild in which summaries are enabled, with the channels whose
/// messages are collected.
#[derive(Debug, Clone)]
pub struct SummaryEnabledGuild {
    pub id: i64,
    pub guild_id: i64,
    pub channel_ids: Vec<Option<i64>>,
}

/// A summary setting that is about to be stored.
#[derive(Debug, Clone)]
pub struct NewSummaryEnabledGuild {
    pub guild_id: i64,
    pub channel_ids: Vec<Option<i64>>,
}

/// A stored chat message that summaries are made from.
#[derive(Debug, Clone)]
pub struct DbSummaryMessage {
    pub id: i64,
    pub content: String,
    pub discord_id: i64,
    pub author_id: i64,
    pub channel_id: i64,
    pub is_bot: bool,
}

/// A chat message that is about to be stored.
#[derive(Debug, Clone)]
pub struct NewDbSummaryMessage {
    pub content: String,
    pub discord_id: i64,
    pub author_id: i64,
    pub channel_id: i64,
    pub is_bot: bool,
}

/// The full-text search column type of the message table.
#[derive(Debug, Clone, Copy)]
pub struct Tsvector;

} // verus!
