//! What is kept of a round once it is over: whether its score is stored at
//! all, under which name, and which mistyped words stay on the training list.

use crate::chance::roll_below;
use crate::game::{mode_number, GameMode};
use crate::passage_controller::PassageInfo;
use crate::stats::{clean_slots, Stats};
use crate::text::{str_eq, string_views, strip_leading, strip_leading_matches, unit_views};
use vstd::prelude::*;
use vstd::utf8::encode_utf8;

verus! {

/// Why the score store was not rebuilt.
#[derive(Clone, Copy, Debug, PartialEq, Eq, Structural)]
pub enum DbRecreationError {
    Failure,
    DbTooYoung,
    DbNotAFile,
}

/// The first second of a score store that is too young to be rebuilt: the
/// end of the year 2022.
pub const YOUNG_FROM_SECS: u64 = 1672444800;

/// Whether a broken score store may be deleted and made anew: only a file,
/// and only one made before 2023.
pub open spec fn recreation_check(is_dir: bool, created_secs: Option<u64>) -> Result<
    (),
    DbRecreationError,
> {
    if is_dir {
        Err(DbRecreationError::DbNotAFile)
    } else {
        match created_secs {
            None => Err(DbRecreationError::Failure),
            Some(created) => if created < YOUNG_FROM_SECS {
                Ok(())
            } else {
                Err(DbRecreationError::DbTooYoung)
            },
        }
    }
}

/// Decides whether a broken score store may be deleted and made anew, from
/// whether its path is a directory and from the second it was made in,
/// `None` where that cannot be read.
pub fn check_db_recreation(is_dir: bool, created_secs: Option<u64>) -> (checked: Result<
    (),
    DbRecreationError,
>)
    ensures
        checked == recreation_check(is_dir, created_secs),
{
    if is_dir {
        return Err(DbRecreationError::DbNotAFile);
    }
    match created_secs {
        Some(created) => {
            if created < YOUNG_FROM_SECS {
                Ok(())
            } else {
                Err(DbRecreationError::DbTooYoung)
            }
        },
        None => Err(DbRecreationError::Failure),
    }
}

/// The faces of the die that is rolled for a correctly typed word. One of
/// them, the 0, takes the word off the training list: one roll in three.
pub const ROLL_FACES: usize = 3;

/// The words that the player mistyped in a round, each once, in the order
/// of the first mistake.
#[derive(Debug, Clone)]
pub struct MistakenWords {
    words: Vec<String>,
}

impl View for MistakenWords {
    type V = Seq<Seq<char>>;

    closed spec fn view(&self) -> Seq<Seq<char>> {
        string_views(self.words@)
    }
}

impl MistakenWords {
    /// No word stands twice in the list.
    pub open spec fn well_formed(self) -> bool {
        self@.no_duplicates()
    }

    /// An empty list.
    pub fn new() -> (list: MistakenWords)
        ensures
            list@ == Seq::<Seq<char>>::empty(),
            list.well_formed(),
    {
        let list = MistakenWords { words: Vec::new() };
        list
    }

    /// Whether the word is on the list.
    pub fn contains(&self, word: &str) -> (found: bool)
        ensures
            found == self@.contains(word@),
    {
        let mut i: usize = 0;
        while i < self.words.len()
            invariant
                i <= self.words.len(),
                forall|j: int| 0 <= j < i ==> self@[j] != word@,
            decreases self.words.len() - i,
        {
            if str_eq(self.words[i].as_str(), word) {
                proof {
                    assert(self@[i as int] == word@);
                }
                return true;
            }
            i += 1;
        }
        false
    }

    /// Puts a word on the list unless it is there; says whether it was put.
    pub fn insert(&mut self, word: &str) -> (added: bool)
        requires
            old(self).well_formed(),
        ensures
            final(self).well_formed(),
            added == !old(self)@.contains(word@),
            final(self)@ == (if added {
                old(self)@.push(word@)
            } else {
                old(self)@
            }),
    {
        if self.contains(word) {
            false
        } else {
            let ghost before = self@;
            self.words.push(word.to_owned());
            proof {
                assert(self@ =~= before.push(word@));
            }
            true
        }
    }

    /// The number of words on the list.
    pub fn len(&self) -> (count: usize)
        ensures
            count == self@.len(),
    {
        self.words.len()
    }

    /// The words of the list, in the order of the first mistake.
    pub fn words(&self) -> (words: &Vec<String>)
        ensures
            string_views(words@) == self@,
    {
        &self.words
    }
}

/// Whether a roll takes a correctly typed word off the training list: of
/// the three faces of the die, the 0 does.
pub open spec fn forgets(roll: usize) -> bool {
    roll == 0
}

/// The words of a training round that leave the training list: those typed
/// without a mistake whose roll says so, in the order of the passage.
pub open spec fn words_to_forget(
    words: Seq<Seq<char>>,
    mistaken: Seq<Seq<char>>,
    rolls: Seq<usize>,
) -> Seq<Seq<char>>
    decreases words.len(),
{
    if words.len() == 0 || rolls.len() != words.len() {
        Seq::empty()
    } else {
        let earlier = words_to_forget(words.drop_last(), mistaken, rolls.drop_last());
        if !mistaken.contains(words.last()) && forgets(rolls.last()) {
            earlier.push(words.last())
        } else {
            earlier
        }
    }
}

/// Whether the score of a round on this passage is stored: not for text
/// that the player brought, nor for the passage that stands in when none
/// was found.
pub fn should_persist(passage_info: &PassageInfo) -> (persist: bool)
    ensures
        persist == persists(passage_info.passage_path@),
{
    !str_eq(passage_info.passage_path.as_str(), "User input") && !str_eq(
        passage_info.passage_path.as_str(),
        "FALLBACK_PATH",
    )
}

/// What is stored of a round once it is over.
#[derive(Debug, Clone, PartialEq, Eq)]
pub struct RoundRecord {
    /// The name that the passage is stored under.
    pub passage: String,
    /// The length of the passage in bytes.
    pub passage_len: usize,
    pub wpm: u64,
    /// The number of slots never mistyped; accuracy is this over the slots
    /// seen.
    pub clean_slots: usize,
    pub seen_slots: usize,
    pub highest_combo: usize,
    /// The number that the rules of the round are stored under.
    pub game_mode: i64,
}

/// Whether the score of a round on a passage of this path is stored.
pub open spec fn persists(passage_path: Seq<char>) -> bool {
    passage_path != "User input"@ && passage_path != "FALLBACK_PATH"@
}

/// What is stored of a round: speed, accuracy and longest streak, with the
/// rules of the round and the passage by its local name. Nothing is stored
/// of a round on a passage that is not persisted.
pub fn round_record(
    game_stats: &Stats,
    passage_info: &PassageInfo,
    game_mode: GameMode,
    main_pack_dir: &str,
) -> (record: Option<RoundRecord>)
    ensures
        record is Some <==> persists(passage_info.passage_path@),
        record matches Some(stored) ==> {
            &&& stored.passage@ == strip_leading(passage_info.passage_path@, main_pack_dir@)
            &&& stored.passage_len == encode_utf8(passage_info.passage@).len() as usize
            &&& stored.wpm == game_stats@.wpm
            &&& stored.clean_slots == clean_slots(game_stats@.slots)
            &&& stored.seen_slots == game_stats@.slots.len()
            &&& stored.highest_combo == game_stats@.highest_combo
            &&& stored.game_mode == mode_number(game_mode)
        },
{
    if !should_persist(passage_info) {
        return None;
    }
    let (clean, seen) = game_stats.get_typing_accuracy_counts();
    Some(
        RoundRecord {
            passage: local_passage_path(passage_info.passage_path.clone(), main_pack_dir),
            passage_len: passage_info.passage.as_str().len(),
            wpm: game_stats.get_wpm(),
            clean_slots: clean,
            seen_slots: seen,
            highest_combo: game_stats.get_highest_combo(),
            game_mode: i64::from(game_mode),
        },
    )
}

/// The name that a passage is stored under: its path without the directory
/// of the main pack in front.
pub fn local_passage_path(absolute_passage: String, main_pack_dir: &str) -> (local: String)
    ensures
        local@ == strip_leading(absolute_passage@, main_pack_dir@),
{
    strip_leading_matches(absolute_passage.as_str(), main_pack_dir).to_owned()
}

/// The words that leave the training list, given one roll for each word of
/// the round's passage: those typed without a mistake whose roll is 0.
pub fn select_words_to_forget(words: &[&str], mistaken_words: &MistakenWords, rolls: &[usize]) -> (gone:
    Vec<String>)
    requires
        rolls.len() == words.len(),
    ensures
        string_views(gone@) == words_to_forget(
            unit_views(words@),
            mistaken_words@,
            rolls@,
        ),
{
    let ghost units = unit_views(words@);
    let mut gone: Vec<String> = Vec::new();
    let mut i: usize = 0;
    while i < words.len()
        invariant
            i <= words.len(),
            rolls.len() == words.len(),
            units == unit_views(words@),
            string_views(gone@) == words_to_forget(
                units.take(i as int),
                mistaken_words@,
                rolls@.take(i as int),
            ),
        decreases words.len() - i,
    {
        proof {
            assert(units.take(i + 1).drop_last() =~= units.take(i as int));
            assert(rolls@.take(i + 1).drop_last() =~= rolls@.take(i as int));
        }
        if !mistaken_words.contains(words[i]) && rolls[i] == 0 {
            gone.push(words[i].to_owned());
        }
        i += 1;
    }
    proof {
        assert(units.take(words.len() as int) =~= units);
        assert(rolls@.take(words.len() as int) =~= rolls@);
    }
    gone
}

/// Rolls the die once for each of `count` words.
fn draw_rolls(count: usize) -> (rolls: Vec<usize>)
    ensures
        rolls.len() == count,
        forall|i: int| 0 <= i < count ==> #[trigger] rolls[i] < ROLL_FACES,
{
    let mut rolls: Vec<usize> = Vec::new();
    while rolls.len() < count
        invariant
            rolls.len() <= count,
            forall|i: int| 0 <= i < rolls.len() ==> #[trigger] rolls[i] < ROLL_FACES,
        decreases count - rolls.len(),
    {
        rolls.push(roll_below(ROLL_FACES));
    }
    rolls
}

/// Rolls the die once for every word of a training round and returns the
/// words that leave the training list: of the words typed without a
/// mistake, one in three.
pub fn roll_to_delete_mistaken_words_typed_correctly(
    words: &[&str],
    mistaken_words: &MistakenWords,
) -> (gone: Vec<String>)
    ensures
        exists|rolls: Seq<usize>|
            {
                &&& rolls.len() == words.len()
                &&& forall|i: int| 0 <= i < rolls.len() ==> #[trigger] rolls[i] < ROLL_FACES
                &&& string_views(gone@) == #[trigger] words_to_forget(
                    unit_views(words@),
                    mistaken_words@,
                    rolls,
                )
            },
{
    let rolls = draw_rolls(words.len());
    select_words_to_forget(words, mistaken_words, rolls.as_slice())
}

} // verus!
