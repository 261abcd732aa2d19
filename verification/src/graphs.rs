//! Which of the player's past results a graph shows.

use vstd::prelude::*;

verus! {

/// What a graph plots against the day of play.
#[derive(Clone, Copy, Debug, PartialEq, Eq, Structural)]
pub enum Mode {
    Accuracy,
    Combo,
    Wpm,
}

/// The number of graphs that the player can page through.
pub const MODE_COUNT: usize = 3;

/// The graph at a position: speed first, then accuracy, then streaks.
pub open spec fn mode_at(position: int) -> Mode {
    if position == 0 {
        Mode::Wpm
    } else if position == 1 {
        Mode::Accuracy
    } else {
        Mode::Combo
    }
}

/// The heading of a graph.
pub open spec fn title_of(mode: Mode) -> Seq<char> {
    match mode {
        Mode::Wpm => "WPM"@,
        Mode::Accuracy => "Accuracy"@,
        Mode::Combo => "Combo"@,
    }
}

/// The graph at a position.
pub fn current_mode(position: usize) -> (mode: Mode)
    ensures
        mode == mode_at(position as int),
{
    if position == 0 {
        Mode::Wpm
    } else if position == 1 {
        Mode::Accuracy
    } else {
        Mode::Combo
    }
}

/// The position after `current_mode`, going round after the last.
pub fn increment_current_mode(current_mode: usize) -> (next: usize)
    requires
        current_mode < usize::MAX,
    ensures
        next == (current_mode + 1) % (MODE_COUNT as int),
{
    (current_mode + 1) % MODE_COUNT
}

/// The position before `current_mode`, going round before the first.
pub fn decrement_current_mode(current_mode: usize) -> (previous: usize)
    ensures
        previous == (if current_mode == 0 {
            MODE_COUNT - 1
        } else {
            current_mode - 1
        }),
{
    if current_mode == 0 {
        MODE_COUNT - 1
    } else {
        current_mode - 1
    }
}

/// The heading of a graph.
pub fn graph_title(mode: &Mode) -> (title: String)
    ensures
        title@ == title_of(*mode),
{
    match mode {
        Mode::Wpm => "WPM".to_owned(),
        Mode::Accuracy => "Accuracy".to_owned(),
        Mode::Combo => "Combo".to_owned(),
    }
}

/// Paging forward and back again, among the graphs, changes nothing.
pub proof fn lemma_paging_round_trip(position: int)
    requires
        0 <= position < MODE_COUNT,
    ensures
        (if (position + 1) % (MODE_COUNT as int) == 0 {
            MODE_COUNT - 1
        } else {
            (position + 1) % (MODE_COUNT as int) - 1
        }) == position,
{
}

} // verus!
