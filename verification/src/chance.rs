//! Chance: the two places where the game rolls dice.

use crate::text::string_views;
use rand::seq::SliceRandom;
use rand::Rng;
use vstd::prelude::*;

verus! {

/// `chosen` holds the words at the positions `picks`, and no position twice.
pub open spec fn is_choice(chosen: Seq<Seq<char>>, words: Seq<Seq<char>>, picks: Seq<int>) -> bool {
    &&& picks.len() == chosen.len()
    &&& picks.no_duplicates()
    &&& forall|k: int|
        0 <= k < picks.len() ==> 0 <= #[trigger] picks[k] < words.len() && chosen[k]
            == words[picks[k]]
}

/// Picks words at random with `SliceRandom::choose_multiple` from the
/// thread's generator and copies them. The call picks `amount` positions of
/// the list, or all of them where there are fewer, none of them twice, and
/// hands out the words at these positions; which ones is left open.
#[verifier::external_body]
pub(crate) fn choose_words(words: &Vec<String>, amount: usize) -> (chosen: Vec<String>)
    ensures
        chosen.len() == (if amount <= words.len() {
            amount
        } else {
            words.len()
        }),
        exists|picks: Seq<int>| #[trigger]
            is_choice(string_views(chosen@), string_views(words@), picks),
{
    words.choose_multiple(&mut rand::thread_rng(), amount).cloned().collect()
}

/// Draws a number below `bound` with `Rng::gen_range` from the thread's
/// generator. The range is not empty, so the call returns, and its result
/// lies in the range; nothing more is claimed of it.
#[verifier::external_body]
pub(crate) fn roll_below(bound: usize) -> (roll: usize)
    requires
        bound > 0,
    ensures
        roll < bound,
{
    rand::thread_rng().gen_range(0..bound)
}

} // verus!
