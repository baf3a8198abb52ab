//! The choices that commands offer for a game mode, and the values a
//! profile comparison looks at.

use vstd::prelude::*;
use crate::links::GameMode;

verus! {

/// The game modes a command can be asked for.
#[derive(Debug, Clone, Copy, PartialEq, Eq, Structural)]
pub enum GameModeChoices {
    Standard,
    Mania,
    Catch,
    Taiko,
}

/// The game mode of a choice.
pub open spec fn chosen_mode(c: GameModeChoices) -> GameMode {
    match c {
        GameModeChoices::Standard => GameMode::Osu,
        GameModeChoices::Taiko => GameMode::Taiko,
        GameModeChoices::Catch => GameMode::Catch,
        GameModeChoices::Mania => GameMode::Mania,
    }
}

impl From<GameModeChoices> for GameMode {
    fn from(gamemode: GameModeChoices) -> (r: GameMode) {
        match gamemode {
            GameModeChoices::Standard => GameMode::Osu,
            GameModeChoices::Taiko => GameMode::Taiko,
            GameModeChoices::Catch => GameMode::Catch,
            GameModeChoices::Mania => GameMode::Mania,
        }
    }
}

impl vstd::std_specs::convert::FromSpecImpl<GameModeChoices> for GameMode {
    open spec fn obeys_from_spec() -> bool {
        true
    }

    open spec fn from_spec(gamemode: GameModeChoices) -> GameMode {
        chosen_mode(gamemode)
    }
}

/// Converts a choice to its game mode.
pub fn mode_of_choice(choice: GameModeChoices) -> (r: GameMode)
    ensures
        r == chosen_mode(choice),
{
    GameMode::from(choice)
}

/// The values of a profile that a comparison can look at.
#[derive(Debug, Clone, Copy, PartialEq, Eq, Structural)]
pub enum DiffTypes {
    Pp,
    Acc,
    GlobalRank,
    CountryRank,
    Score,
}

} // verus!
