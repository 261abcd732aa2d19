//! A round of typing: segmentation, matching and the per-keystroke rules.

pub mod formatter;
pub mod game_db;
pub mod game_render;
pub mod indexer;
pub mod session;
pub mod split;
pub mod word_processing;

use vstd::prelude::*;
use vstd::std_specs::convert::FromSpecImpl;

verus! {

/// The rules of a round.
#[derive(Clone, Copy, Debug, PartialEq, Eq, Structural)]
pub enum GameMode {
    /// Errors are counted and can be corrected.
    Default,
    /// The first error ends the round.
    InstantDeath,
    /// The passage is made of words that the player mistyped before.
    Training,
}

/// The mode after `mode`, going round in a ring.
pub open spec fn next_mode(mode: GameMode) -> GameMode {
    match mode {
        GameMode::Default => GameMode::InstantDeath,
        GameMode::InstantDeath => GameMode::Training,
        GameMode::Training => GameMode::Default,
    }
}

/// The mode before `mode`, going round in a ring.
pub open spec fn prev_mode(mode: GameMode) -> GameMode {
    match mode {
        GameMode::Default => GameMode::Training,
        GameMode::Training => GameMode::InstantDeath,
        GameMode::InstantDeath => GameMode::Default,
    }
}

/// The number that a mode is stored under.
pub open spec fn mode_number(mode: GameMode) -> i64 {
    match mode {
        GameMode::Default => 0,
        GameMode::InstantDeath => 1,
        GameMode::Training => 2,
    }
}

/// The mode that a stored number stands for; unknown numbers are `Default`.
pub open spec fn mode_of_number(number: i64) -> GameMode {
    if number == 2 {
        GameMode::Training
    } else if number == 1 {
        GameMode::InstantDeath
    } else {
        GameMode::Default
    }
}

/// The name that a mode is shown under.
pub open spec fn mode_label(mode: GameMode) -> Seq<char> {
    match mode {
        GameMode::InstantDeath => "Instant Death"@,
        GameMode::Default => "Default"@,
        GameMode::Training => "Training"@,
    }
}

impl GameMode {
    /// The mode after this one, going round in a ring.
    pub fn next(self) -> (mode: GameMode)
        ensures
            mode == next_mode(self),
    {
        match self {
            GameMode::Default => GameMode::InstantDeath,
            GameMode::InstantDeath => GameMode::Training,
            GameMode::Training => GameMode::Default,
        }
    }

    /// The mode before this one, going round in a ring.
    pub fn prev(self) -> (mode: GameMode)
        ensures
            mode == prev_mode(self),
    {
        match self {
            GameMode::Default => GameMode::Training,
            GameMode::Training => GameMode::InstantDeath,
            GameMode::InstantDeath => GameMode::Default,
        }
    }

    /// The name that the mode is shown under.
    pub fn label(&self) -> (name: String)
        ensures
            name@ == mode_label(*self),
    {
        match self {
            GameMode::InstantDeath => "Instant Death".to_owned(),
            GameMode::Default => "Default".to_owned(),
            GameMode::Training => "Training".to_owned(),
        }
    }
}

/// Going forward and then back, or back and then forward, changes nothing.
pub proof fn lemma_next_prev_inverse(mode: GameMode)
    ensures
        prev_mode(next_mode(mode)) == mode,
        next_mode(prev_mode(mode)) == mode,
{
}

/// A mode comes back from the number it is stored under.
pub proof fn lemma_mode_number_round_trip(mode: GameMode)
    ensures
        mode_of_number(mode_number(mode)) == mode,
{
}

impl From<GameMode> for i64 {
    fn from(gm: GameMode) -> (number: i64) {
        match gm {
            GameMode::Training => 2,
            GameMode::InstantDeath => 1,
            GameMode::Default => 0,
        }
    }
}

impl FromSpecImpl<GameMode> for i64 {
    open spec fn obeys_from_spec() -> bool {
        true
    }

    open spec fn from_spec(gm: GameMode) -> i64 {
        mode_number(gm)
    }
}

impl From<i64> for GameMode {
    fn from(i: i64) -> (mode: GameMode) {
        if i == 2 {
            GameMode::Training
        } else if i == 1 {
            GameMode::InstantDeath
        } else {
            GameMode::Default
        }
    }
}

impl FromSpecImpl<i64> for GameMode {
    open spec fn obeys_from_spec() -> bool {
        true
    }

    open spec fn from_spec(i: i64) -> GameMode {
        mode_of_number(i)
    }
}

} // verus!
