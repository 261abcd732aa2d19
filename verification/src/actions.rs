//! What the player asks for between rounds.

use vstd::prelude::*;

verus! {

/// Where the player goes from a round.
#[derive(Clone, Copy, Debug, PartialEq, Eq, Structural)]
pub enum Action {
    NextPassage,
    PreviousPassage,
    RestartPassage,
    Quit,
}

} // verus!
