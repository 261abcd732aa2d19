//! Where the player stands in the passage, counted in characters.

use crate::game::split::{grapheme_clusters, graphemes_of};
use crate::game::word_processing::GameMode;
use crate::text::{chars_of, str_eq, unit_views};
use vstd::prelude::*;
use vstd::seq_lib::lemma_flatten_concat;
use vstd::string::StrSliceExecFns;
use vstd::string::StringSliceAdditionalSpecFns;
use vstd::utf8::encode_utf8;

verus! {

/// Whether the clusters of `input` are the first clusters of `word`.
pub open spec fn like_word(word: Seq<char>, input: Seq<char>) -> bool {
    let typed = grapheme_clusters(input);
    let wanted = grapheme_clusters(word);
    typed.len() <= wanted.len() && wanted.take(typed.len() as int) == typed
}

/// The characters that stand between two units of a passage.
pub open spec fn separator_len(mode: GameMode) -> nat {
    match mode {
        GameMode::Latin => 1,
        GameMode::NonLatin => 0,
    }
}

/// The number of characters, separators included, that come before unit
/// `unit_index` of the passage. Past the last unit it stays at the length of
/// the passage with a separator after every unit.
pub open spec fn starting_offset(mode: GameMode, units: Seq<Seq<char>>, unit_index: int) -> nat
    decreases unit_index,
{
    if unit_index <= 0 {
        0
    } else if unit_index > units.len() {
        starting_offset(mode, units, units.len() as int)
    } else {
        starting_offset(mode, units, unit_index - 1) + units[unit_index - 1].len() + separator_len(
            mode,
        )
    }
}

/// The first position from `from` on at which the input stops agreeing with
/// the unit; the last typed character is never passed.
pub open spec fn attempt_index(unit: Seq<char>, input: Seq<char>, from: int) -> int
    decreases unit.len() - from,
{
    if 0 <= from < unit.len() && from + 1 < input.len() && unit[from] == input[from] {
        attempt_index(unit, input, from + 1)
    } else {
        from
    }
}

/// The character of the passage that the player is trying to type.
pub open spec fn attempted_slot(
    mode: GameMode,
    units: Seq<Seq<char>>,
    unit_index: int,
    input: Seq<char>,
) -> int {
    if input.len() == 0 {
        starting_offset(mode, units, unit_index) as int
    } else {
        starting_offset(mode, units, unit_index) + attempt_index(units[unit_index], input, 0)
    }
}

/// The unit that the display points at. A correct keystroke on a wide unit
/// has already moved the index on, so the display steps back by one.
pub open spec fn displayed_index(
    mode: GameMode,
    has_error: bool,
    new_char: bool,
    unit_index: int,
) -> int {
    if mode == GameMode::NonLatin && !has_error && unit_index > 0 && new_char {
        unit_index - 1
    } else {
        unit_index
    }
}

/// Later units start later.
pub proof fn lemma_starting_offset_grows(mode: GameMode, units: Seq<Seq<char>>, i: int, j: int)
    requires
        i <= j,
    ensures
        starting_offset(mode, units, i) <= starting_offset(mode, units, j),
    decreases j,
{
    if j > units.len() {
        if 0 < j && i <= units.len() {
            lemma_starting_offset_grows(mode, units, i, units.len() as int);
        }
    } else if 0 < j && i < j {
        lemma_starting_offset_grows(mode, units, i, j - 1);
    }
}

/// Text that begins another takes no more bytes than the other.
proof fn lemma_beginning_is_no_longer(a: Seq<char>, b: Seq<char>)
    requires
        a.len() <= b.len(),
        b.take(a.len() as int) == a,
    ensures
        encode_utf8(a).len() <= encode_utf8(b).len(),
    decreases a.len(),
{
    if a.len() > 0 {
        assert(b.drop_first().take(a.len() - 1) =~= a.drop_first());
        lemma_beginning_is_no_longer(a.drop_first(), b.drop_first());
    }
}

/// Whether the input is the word, character by character.
pub fn check_word(word: &str, input: &str) -> (same: bool)
    ensures
        same == (word@ == input@),
{
    str_eq(word, input)
}

/// Whether `input` is what the player should have typed so far of `word`:
/// cluster by cluster, the beginning of it.
#[verifier::loop_isolation(false)]
pub fn check_like_word(word: &str, input: &str) -> (like: bool)
    ensures
        like == like_word(word@, input@),
        input@.len() == 0 ==> like,
        input@.len() > word@.len() ==> !like,
        input.spec_bytes().len() > word.spec_bytes().len() ==> !like,
{
    let wanted = graphemes_of(word);
    let typed = graphemes_of(input);
    let ghost w = unit_views(wanted@);
    let ghost t = unit_views(typed@);
    proof {
        if t.len() <= w.len() && w.take(t.len() as int) == t {
            lemma_flatten_concat(w.take(t.len() as int), w.skip(t.len() as int));
            assert(w.take(t.len() as int) + w.skip(t.len() as int) =~= w);
            assert(word@.take(input@.len() as int) =~= input@);
            lemma_beginning_is_no_longer(input@, word@);
        }
    }
    if typed.len() > wanted.len() {
        return false;
    }
    let mut i: usize = 0;
    while i < typed.len()
        invariant
            i <= typed.len() <= wanted.len(),
            w == unit_views(wanted@),
            t == unit_views(typed@),
            w.take(i as int) == t.take(i as int),
        decreases typed.len() - i,
    {
        if !str_eq(wanted[i], typed[i]) {
            proof {
                assert(w.take(t.len() as int)[i as int] == w[i as int]);
            }
            return false;
        }
        i += 1;
    }
    proof {
        assert(t.take(t.len() as int) == t);
    }
    true
}

/// The offset of the first character of unit `current_word_idx` in the
/// passage, counting one separator after each earlier unit of a word-by-word
/// passage: in "this is a vector" the third word starts at 8.
pub fn get_starting_idx(game_mode: &GameMode, words: &[&str], current_word_idx: usize) -> (offset:
    usize)
    requires
        starting_offset(*game_mode, unit_views(words@), current_word_idx as int) <= usize::MAX,
    ensures
        offset == starting_offset(*game_mode, unit_views(words@), current_word_idx as int),
{
    let ghost units = unit_views(words@);
    let limit = if current_word_idx < words.len() {
        current_word_idx
    } else {
        words.len()
    };
    let mut offset: usize = 0;
    let mut i: usize = 0;
    while i < limit
        invariant
            i <= limit <= words.len(),
            limit <= current_word_idx,
            units == unit_views(words@),
            offset == starting_offset(*game_mode, units, i as int),
            starting_offset(*game_mode, units, current_word_idx as int) <= usize::MAX,
        decreases limit - i,
    {
        proof {
            lemma_starting_offset_grows(*game_mode, units, i + 1, current_word_idx as int);
        }
        offset = offset + words[i].unicode_len() + maybe_account_for_space(game_mode);
        i += 1;
    }
    offset
}

/// The offset of the character that the player is trying to type: the unit's
/// start plus the characters typed correctly, never past the last one typed.
pub fn get_trying_letter_idx(
    game_mode: &GameMode,
    words: &[&str],
    current_word_idx: usize,
    user_input: &str,
) -> (slot: usize)
    requires
        user_input@.len() > 0 ==> current_word_idx < words.len(),
        attempted_slot(*game_mode, unit_views(words@), current_word_idx as int, user_input@)
            <= usize::MAX,
    ensures
        slot == attempted_slot(
            *game_mode,
            unit_views(words@),
            current_word_idx as int,
            user_input@,
        ),
{
    let typed = chars_of(user_input);
    if typed.len() == 0 {
        return get_starting_idx(game_mode, words, current_word_idx);
    }
    let unit = chars_of(words[current_word_idx]);
    proof {
        lemma_attempt_index_bounds(unit@, typed@, 0);
    }
    let starting_idx = get_starting_idx(game_mode, words, current_word_idx);
    let mut letter_on: usize = 0;
    while letter_on < unit.len() && letter_on + 1 < typed.len() && unit[letter_on]
        == typed[letter_on]
        invariant
            letter_on <= unit.len(),
            attempt_index(unit@, typed@, letter_on as int) == attempt_index(unit@, typed@, 0),
        decreases unit.len() - letter_on,
    {
        letter_on += 1;
    }
    starting_idx + letter_on
}

/// The position being tried never moves back.
proof fn lemma_attempt_index_bounds(unit: Seq<char>, input: Seq<char>, from: int)
    requires
        0 <= from,
    ensures
        from <= attempt_index(unit, input, from),
    decreases unit.len() - from,
{
    if from < unit.len() && from + 1 < input.len() && unit[from] == input[from] {
        lemma_attempt_index_bounds(unit, input, from + 1);
    }
}

/// The unit that the display points at: the one before the index right after
/// a correct keystroke on a wide unit, else the one at the index.
pub fn get_maybe_decremented_idx(
    game_mode: &GameMode,
    user_has_error: bool,
    new_char: bool,
    current_word_idx: usize,
) -> (index: usize)
    ensures
        index == displayed_index(*game_mode, user_has_error, new_char, current_word_idx as int),
{
    if *game_mode == GameMode::NonLatin && !user_has_error && current_word_idx > 0 && new_char {
        current_word_idx - 1
    } else {
        current_word_idx
    }
}

/// The number of characters between two units.
pub fn maybe_account_for_space(game_mode: &GameMode) -> (len: usize)
    ensures
        len == separator_len(*game_mode),
{
    match game_mode {
        GameMode::Latin => 1,
        GameMode::NonLatin => 0,
    }
}

} // verus!
