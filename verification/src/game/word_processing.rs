//! Rules that decide when a unit, or the whole round, has been typed.

use crate::game::split::{
    is_wide, is_wide_character, join_to_passage, passage_of, to_words, units_of,
};
use crate::game::formatter::{cells, skip_spans, Cell, Span};
use crate::text::{str_eq, unit_views};
use vstd::prelude::*;
use vstd::string::StrSliceExecFns;

verus! {

/// How a passage is typed: word by word, or one wide cluster at a time.
#[derive(Clone, Copy, Debug, PartialEq, Eq, Structural)]
pub enum GameMode {
    Latin,
    NonLatin,
}

/// The mode that a passage is typed in.
pub open spec fn mode_of(passage: Seq<char>) -> GameMode {
    if is_wide(passage) {
        GameMode::NonLatin
    } else {
        GameMode::Latin
    }
}

/// The input with its last unit gone; input without units stays as it is.
pub open spec fn without_last_unit(input: Seq<char>) -> Seq<char> {
    let units = units_of(input);
    if units.len() == 0 {
        input
    } else {
        passage_of(units.drop_last())
    }
}

/// Whether the keystroke `c`, typed after `input`, completes `unit`.
pub open spec fn unit_done(mode: GameMode, c: char, unit: Seq<char>, input: Seq<char>) -> bool {
    match mode {
        GameMode::Latin => c == ' ' && unit == input,
        GameMode::NonLatin => input.push(c) == unit,
    }
}

/// Whether the round is over. A passage without units is over from the start.
pub open spec fn round_over(
    mode: GameMode,
    unit_index: int,
    units: Seq<Seq<char>>,
    input: Seq<char>,
) -> bool {
    if units.len() == 0 {
        true
    } else {
        match mode {
            GameMode::Latin => unit_index + 1 == units.len() && units[unit_index] == input,
            GameMode::NonLatin => input.len() == 0 && unit_index == units.len(),
        }
    }
}

/// What is left of a shown passage once its first unit is typed: the cells
/// after the unit and, word by word, after the separator that follows it.
pub open spec fn rest_after_unit(mode: GameMode, passage: Seq<Cell>, unit: Seq<char>) -> Seq<Cell> {
    let typed = match mode {
        GameMode::Latin => unit.len() + 1,
        GameMode::NonLatin => 1,
    };
    if typed <= passage.len() {
        passage.skip(typed as int)
    } else {
        Seq::empty()
    }
}

/// Deletes the last word of the input, as `C-w` does in a line editor.
pub fn get_all_input_minus_last_word(input: &str) -> (rest: String)
    ensures
        rest@ == without_last_unit(input@),
{
    let mut words = to_words(input);
    if words.len() == 0 {
        input.to_owned()
    } else {
        let ghost before = words@;
        words.pop();
        proof {
            assert(unit_views(words@) =~= unit_views(before).drop_last());
        }
        join_to_passage(words.as_slice())
    }
}

/// Whether the passage is typed to its end.
pub fn decide_game_end(
    game_mode: &GameMode,
    current_word_idx: usize,
    words: &[&str],
    user_input: &str,
) -> (over: bool)
    ensures
        over == round_over(*game_mode, current_word_idx as int, unit_views(words@), user_input@),
{
    if words.len() == 0 {
        true
    } else {
        match game_mode {
            GameMode::Latin => {
                if current_word_idx < words.len() {
                    decide_game_latin(
                        current_word_idx,
                        words,
                        words[current_word_idx],
                        user_input,
                    )
                } else {
                    false
                }
            },
            GameMode::NonLatin => decide_game_nonlatin(words, current_word_idx, user_input),
        }
    }
}

/// The mode that a passage is typed in, by its first cluster.
pub fn get_game_mode(raw_passage: &str) -> (mode: GameMode)
    ensures
        mode == mode_of(raw_passage@),
{
    if is_wide_character(raw_passage) {
        GameMode::NonLatin
    } else {
        GameMode::Latin
    }
}

/// Whether the keystroke `c`, typed after `user_input`, completes the unit.
pub fn word_completed(game_mode: &GameMode, c: char, current_word: &str, user_input: &str) -> (done:
    bool)
    ensures
        done == unit_done(*game_mode, c, current_word@, user_input@),
{
    match game_mode {
        GameMode::Latin => latin_word_complete(c, current_word, user_input),
        GameMode::NonLatin => {
            let mut typed = user_input.to_owned();
            typed.push(c);
            non_latin_word_complete(typed.as_str(), current_word)
        },
    }
}

/// Takes the unit that was just typed off the front of the shown passage.
pub fn get_updated_texts(game_mode: &GameMode, passage: Vec<Span>, current_word: &str) -> (rest:
    Vec<Span>)
    ensures
        cells(rest@) == rest_after_unit(*game_mode, cells(passage@), current_word@),
{
    match game_mode {
        GameMode::Latin => {
            let typed = current_word.unicode_len();
            if typed < passage.len() {
                skip_spans(&passage, typed + 1)
            } else {
                let rest: Vec<Span> = Vec::new();
                rest
            }
        },
        GameMode::NonLatin => skip_spans(&passage, 1),
    }
}

/// A word-by-word round ends on the last word, as soon as the input equals it.
pub fn decide_game_latin(
    current_word_idx: usize,
    words: &[&str],
    current_word: &str,
    user_input: &str,
) -> (over: bool)
    ensures
        over == (current_word_idx + 1 == words.len() && current_word@ == user_input@),
{
    current_word_idx < words.len() && current_word_idx + 1 == words.len() && str_eq(
        current_word,
        user_input,
    )
}

/// A cluster-by-cluster round ends when the index has passed the last unit
/// and nothing is left in the input.
pub fn decide_game_nonlatin(words: &[&str], current_word_idx: usize, user_input: &str) -> (over:
    bool)
    ensures
        over == (user_input@.len() == 0 && current_word_idx == words.len()),
{
    user_input.unicode_len() == 0 && current_word_idx == words.len()
}

/// A word is complete when the player types a space after typing it exactly.
pub fn latin_word_complete(c: char, current_word: &str, user_input: &str) -> (done: bool)
    ensures
        done == (c == ' ' && current_word@ == user_input@),
{
    c == ' ' && str_eq(current_word, user_input)
}

/// A wide unit is complete as soon as the typed characters equal it.
pub fn non_latin_word_complete(user_input: &str, current_word: &str) -> (done: bool)
    ensures
        done == (user_input@ == current_word@),
{
    str_eq(user_input, current_word)
}

} // verus!
