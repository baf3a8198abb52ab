//! Verified core of an osu!-centred Discord bot: text formatting, link
//! parsing, score and map presentation, and the bookkeeping behind the
//! bot's interactive commands.

pub mod text;
pub mod links;
pub mod help;
pub mod models;
pub mod tracking;
pub mod sorting;
pub mod paging;
pub mod mods;
pub mod score_format;
pub mod music;
pub mod wyr;
pub mod summary;
pub mod mentions;
pub mod map_format;
pub mod events;
pub mod card;
pub mod choices;
pub mod config;
pub mod caching;
