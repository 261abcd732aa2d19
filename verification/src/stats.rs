//! Live score of a round: typing speed, errors, streak and accuracy.

use crate::game::indexer::{get_starting_idx, starting_offset};
use crate::game::word_processing::GameMode;
use crate::text::{decimal, decimal_digits, unit_views};
use std::time::{SystemTime, UNIX_EPOCH};
use vstd::prelude::*;

verus! {

/// Reads the system clock with `SystemTime::now` and turns it into whole
/// seconds since the Unix epoch; `None` where the clock stands before the
/// epoch. Nothing is claimed of the number.
#[verifier::external_body]
fn seconds_since_epoch() -> Option<u64> {
    SystemTime::now().duration_since(UNIX_EPOCH).ok().map(|elapsed| elapsed.as_secs())
}

/// The clock that a score is timed with: the system clock, or one that
/// stands still at a given second.
#[derive(Debug, Clone, Copy)]
pub struct Time {
    frozen: Option<u64>,
}

impl Time {
    /// The second at which this clock stands still, if it does.
    pub closed spec fn frozen_at(self) -> Option<u64> {
        self.frozen
    }

    /// The system clock.
    pub fn new() -> (time: Time)
        ensures
            time.frozen_at().is_none(),
    {
        Time { frozen: None }
    }

    /// A clock that always shows `seconds`.
    pub fn fixed(seconds: u64) -> (time: Time)
        ensures
            time.frozen_at() == Some(seconds),
    {
        Time { frozen: Some(seconds) }
    }

    /// Seconds since the Unix epoch; 0 where the system clock stands before it.
    pub fn now(&self) -> (seconds: u64)
        ensures
            self.frozen_at() matches Some(s) ==> seconds == s,
    {
        match self.frozen {
            Some(seconds) => seconds,
            None => match seconds_since_epoch() {
                Some(seconds) => seconds,
                None => 0,
            },
        }
    }
}

/// What a score holds, as plain values.
pub struct Score {
    pub errors: nat,
    pub wpm: u64,
    pub legacy_wpm: bool,
    pub start_time: u64,
    /// One entry per character slot seen so far: `false` once it was mistyped.
    pub slots: Seq<bool>,
    pub combo: nat,
    pub highest_combo: nat,
}

/// One keystroke as the score sees it: typed right or wrong, at a slot.
pub enum Keystroke {
    Hit(usize),
    Miss(usize),
}

/// The accuracy record after one more keystroke at `slot`. A slot not seen
/// yet is appended; a slot seen before can turn wrong and never right again.
pub open spec fn mark_slot(slots: Seq<bool>, slot: int, typed_right: bool) -> Seq<bool> {
    if slots.len() <= slot {
        slots.push(typed_right)
    } else if 0 <= slot && slots[slot] {
        slots.update(slot, typed_right)
    } else {
        slots
    }
}

/// The score after a mistyped character.
pub open spec fn after_miss(score: Score, slot: usize) -> Score {
    Score {
        errors: score.errors + 1,
        combo: 0,
        slots: mark_slot(score.slots, slot as int, false),
        ..score
    }
}

/// The score after a correctly typed character.
pub open spec fn after_hit(score: Score, slot: usize) -> Score {
    Score {
        combo: score.combo + 1,
        highest_combo: if score.highest_combo > score.combo + 1 {
            score.highest_combo
        } else {
            score.combo + 1
        },
        slots: mark_slot(score.slots, slot as int, true),
        ..score
    }
}

/// The score after a run of keystrokes.
pub open spec fn replay(score: Score, keys: Seq<Keystroke>) -> Score
    decreases keys.len(),
{
    if keys.len() == 0 {
        score
    } else {
        let before = replay(score, keys.drop_last());
        match keys.last() {
            Keystroke::Hit(slot) => after_hit(before, slot),
            Keystroke::Miss(slot) => after_miss(before, slot),
        }
    }
}

/// A mistyped character ends the streak, whatever the score was; the
/// longest streak stays, and the errors are one more.
pub proof fn lemma_miss_ends_streak(score: Score, slot: usize)
    ensures
        after_miss(score, slot).combo == 0,
        after_miss(score, slot).highest_combo == score.highest_combo,
        after_miss(score, slot).errors == score.errors + 1,
{
}

/// A correctly typed character lengthens the streak by one, whatever the
/// score was. The longest streak becomes the longer of the old one and the
/// new streak: it never falls, and is never shorter than the streak.
pub proof fn lemma_hit_lengthens_streak(score: Score, slot: usize)
    ensures
        after_hit(score, slot).combo == score.combo + 1,
        after_hit(score, slot).highest_combo == (if score.highest_combo >= score.combo + 1 {
            score.highest_combo
        } else {
            score.combo + 1
        }),
        after_hit(score, slot).highest_combo >= score.highest_combo,
        after_hit(score, slot).highest_combo >= after_hit(score, slot).combo,
        after_hit(score, slot).errors == score.errors,
{
}

/// A correctly typed character at a slot that is wrong leaves the whole
/// accuracy record as it is, and so both counts that accuracy is made of.
pub proof fn lemma_hit_keeps_wrong_slot(score: Score, slot: usize)
    requires
        slot < score.slots.len(),
        !score.slots[slot as int],
    ensures
        after_hit(score, slot).slots == score.slots,
        clean_slots(after_hit(score, slot).slots) == clean_slots(score.slots),
        after_hit(score, slot).slots.len() == score.slots.len(),
{
}

/// A mistyped character marks its slot wrong, whether the slot is new or
/// was right before; a slot past the end is appended as wrong.
pub proof fn lemma_miss_marks_slot(score: Score, slot: usize)
    ensures
        slot < score.slots.len() ==> after_miss(score, slot).slots == score.slots.update(
            slot as int,
            false,
        ),
        slot >= score.slots.len() ==> after_miss(score, slot).slots == score.slots.push(false),
{
    if slot < score.slots.len() && !score.slots[slot as int] {
        assert(score.slots.update(slot as int, false) =~= score.slots);
    }
}

/// A mistyped character ends the streak; a correct one lengthens it by one.
pub proof fn lemma_combo_after_key(score: Score, keys: Seq<Keystroke>)
    requires
        keys.len() > 0,
    ensures
        keys.last() is Miss ==> replay(score, keys).combo == 0,
        keys.last() is Hit ==> replay(score, keys).combo == replay(score, keys.drop_last()).combo
            + 1,
{
}

/// The highest streak never falls, whatever is typed.
pub proof fn lemma_highest_combo_never_falls(score: Score, keys: Seq<Keystroke>)
    ensures
        replay(score, keys).highest_combo >= score.highest_combo,
    decreases keys.len(),
{
    if keys.len() > 0 {
        lemma_highest_combo_never_falls(score, keys.drop_last());
    }
}

/// The accuracy record only grows: no keystroke removes a slot.
pub proof fn lemma_slots_only_grow(score: Score, keys: Seq<Keystroke>)
    ensures
        replay(score, keys).slots.len() >= score.slots.len(),
    decreases keys.len(),
{
    if keys.len() > 0 {
        lemma_slots_only_grow(score, keys.drop_last());
    }
}

/// A slot that was mistyped stays wrong, whatever is typed afterwards.
pub proof fn lemma_wrong_stays_wrong(score: Score, keys: Seq<Keystroke>, slot: int)
    requires
        0 <= slot < score.slots.len(),
        !score.slots[slot],
    ensures
        slot < replay(score, keys).slots.len(),
        !replay(score, keys).slots[slot],
    decreases keys.len(),
{
    if keys.len() > 0 {
        lemma_wrong_stays_wrong(score, keys.drop_last(), slot);
    }
}

/// `ceil_div(a, b)` is the least number of `b`s that cover `a`.
pub proof fn lemma_ceil_div_is_least(a: int, b: int)
    requires
        0 <= a,
        0 < b,
    ensures
        ceil_div(a, b) * b >= a,
        (ceil_div(a, b) - 1) * b < a,
{
    let q = (a + b - 1) / b;
    let r = (a + b - 1) % b;
    assert(a + b - 1 == q * b + r && 0 <= r < b) by (nonlinear_arith)
        requires
            0 < b,
            q == (a + b - 1) / b,
            r == (a + b - 1) % b,
    ;
    assert((q - 1) * b == q * b - b) by (nonlinear_arith);
}

/// The score at the start of a round: nothing is left of the round before
/// but the choice of speed formula.
pub open spec fn cleared(score: Score) -> Score {
    Score {
        errors: 0,
        wpm: 0,
        legacy_wpm: score.legacy_wpm,
        start_time: 0,
        slots: Seq::empty(),
        combo: 0,
        highest_combo: 0,
    }
}

/// `a / b`, rounded up.
pub open spec fn ceil_div(a: int, b: int) -> int {
    (a + b - 1) / b
}

/// Typing speed in words per minute, rounded up, after `elapsed` seconds at
/// unit `unit_index`. A word is five characters, each unit counted with one
/// separator; the legacy count takes each unit as one word. Without elapsed
/// time the speed is 0 where nothing was typed and the largest number
/// otherwise, which is also where any larger speed stops.
pub open spec fn words_per_minute(
    legacy: bool,
    unit_index: int,
    units: Seq<Seq<char>>,
    elapsed: int,
) -> int {
    let sixtieths: int = if legacy {
        60 * unit_index
    } else {
        12 * (starting_offset(GameMode::Latin, units, unit_index) as int)
    };
    if elapsed <= 0 {
        if sixtieths == 0 {
            0
        } else {
            u64::MAX as int
        }
    } else if ceil_div(sixtieths, elapsed) > u64::MAX {
        u64::MAX as int
    } else {
        ceil_div(sixtieths, elapsed)
    }
}

/// The score once the timer runs: it starts one second before `now`, unless
/// it runs already or `now` is second 0.
pub open spec fn started(score: Score, now: u64) -> Score {
    if now >= 1 && score.start_time == 0 {
        Score { start_time: (now - 1) as u64, ..score }
    } else {
        score
    }
}

/// The score with its speed brought up to `now`; a time before the start
/// changes nothing.
pub open spec fn timed(score: Score, unit_index: int, units: Seq<Seq<char>>, now: u64) -> Score {
    if now >= score.start_time {
        Score {
            wpm: words_per_minute(
                score.legacy_wpm,
                unit_index,
                units,
                now - score.start_time,
            ) as u64,
            ..score
        }
    } else {
        score
    }
}

/// How many of the slots were never mistyped.
pub open spec fn clean_slots(slots: Seq<bool>) -> nat
    decreases slots.len(),
{
    if slots.len() == 0 {
        0
    } else {
        clean_slots(slots.drop_last()) + if slots.last() {
            1nat
        } else {
            0nat
        }
    }
}

/// The rows of the score table: a label and a number each, speed first.
pub open spec fn score_rows(score: Score) -> Seq<Seq<Seq<char>>> {
    seq![
        seq![seq!['W', 'P', 'M'], decimal_digits(score.wpm as nat)],
        seq![seq!['E', 'r', 'r', 'o', 'r', 's'], decimal_digits(score.errors)],
        seq![seq!['C', 'o', 'm', 'b', 'o'], decimal_digits(score.combo)],
    ]
}

/// The score of the round being played.
#[derive(Debug, Clone)]
pub struct Stats {
    pub errors: u16,
    wpm: u64,
    legacy_wpm: bool,
    start_time: u64,
    time: Time,
    char_properly_typed: Vec<bool>,
    pub combo: usize,
    highest_combo: usize,
}

impl View for Stats {
    type V = Score;

    closed spec fn view(&self) -> Score {
        Score {
            errors: self.errors as nat,
            wpm: self.wpm,
            legacy_wpm: self.legacy_wpm,
            start_time: self.start_time,
            slots: self.char_properly_typed@,
            combo: self.combo as nat,
            highest_combo: self.highest_combo as nat,
        }
    }
}

impl Stats {
    /// The clock that this score reads.
    pub closed spec fn clock(self) -> Time {
        self.time
    }

    /// A score at the start of a round, timed by the system clock.
    pub fn new(legacy_wpm: bool) -> (stats: Stats)
        ensures
            stats@ == (Score {
                errors: 0,
                wpm: 0,
                legacy_wpm,
                start_time: 0,
                slots: Seq::empty(),
                combo: 0,
                highest_combo: 0,
            }),
            stats.clock().frozen_at().is_none(),
    {
        Stats {
            errors: 0,
            wpm: 0,
            legacy_wpm,
            start_time: 0,
            time: Time::new(),
            char_properly_typed: Vec::new(),
            combo: 0,
            highest_combo: 0,
        }
    }

    /// Replaces the clock and nothing else.
    pub fn set_time(&mut self, time: Time)
        ensures
            final(self)@ == old(self)@,
            final(self).clock() == time,
    {
        self.time = time;
    }

    /// Brings the speed up to the time `now`; a time before the start of the
    /// round changes nothing.
    pub fn update_wpm_at(&mut self, now: u64, word_idx: usize, word_vec: &[&str])
        requires
            !old(self)@.legacy_wpm ==> starting_offset(
                GameMode::Latin,
                unit_views(word_vec@),
                word_idx as int,
            ) <= usize::MAX,
        ensures
            final(self)@ == timed(old(self)@, word_idx as int, unit_views(word_vec@), now),
            final(self).clock() == old(self).clock(),
    {
        if now < self.start_time {
            return ;
        }
        let typed: usize = if self.legacy_wpm {
            word_idx
        } else {
            get_starting_idx(&GameMode::Latin, word_vec, word_idx)
        };
        let sixtieths: u128 = if self.legacy_wpm {
            60 * (typed as u128)
        } else {
            12 * (typed as u128)
        };
        let elapsed: u128 = (now - self.start_time) as u128;
        if elapsed == 0 {
            self.wpm = if sixtieths == 0 {
                0
            } else {
                u64::MAX
            };
        } else {
            let speed: u128 = (sixtieths + elapsed - 1) / elapsed;
            self.wpm = if speed > u64::MAX as u128 {
                u64::MAX
            } else {
                speed as u64
            };
        }
    }

    /// Brings the speed up to the time that this score's clock shows.
    pub fn update_wpm(&mut self, word_idx: usize, word_vec: &[&str])
        requires
            !old(self)@.legacy_wpm ==> starting_offset(
                GameMode::Latin,
                unit_views(word_vec@),
                word_idx as int,
            ) <= usize::MAX,
        ensures
            final(self).clock() == old(self).clock(),
            exists|now: u64| final(self)@ == #[trigger] timed(
                old(self)@,
                word_idx as int,
                unit_views(word_vec@),
                now,
            ),
            old(self).clock().frozen_at() matches Some(now) ==> final(self)@ == timed(
                old(self)@,
                word_idx as int,
                unit_views(word_vec@),
                now,
            ),
    {
        let now = self.time.now();
        self.update_wpm_at(now, word_idx, word_vec);
    }

    /// Starts the round's timer one second before `now`, unless it runs or
    /// `now` is second 0.
    pub fn update_start_time_at(&mut self, now: u64)
        ensures
            final(self)@ == started(old(self)@, now),
            final(self).clock() == old(self).clock(),
    {
        if self.start_time == 0 && now >= 1 {
            self.start_time = now - 1;
        }
    }

    /// Starts the round's timer one second before the time that this score's
    /// clock shows, unless it runs.
    pub fn update_start_time(&mut self)
        ensures
            final(self).clock() == old(self).clock(),
            exists|now: u64| final(self)@ == #[trigger] started(old(self)@, now),
            old(self).clock().frozen_at() matches Some(now) ==> final(self)@ == started(
                old(self)@,
                now,
            ),
    {
        let now = self.time.now();
        self.update_start_time_at(now);
    }

    /// Counts a mistyped character at `current_letter`: one more error, the
    /// streak is over, and the slot is wrong from now on.
    pub fn increment_errors(&mut self, current_letter: usize)
        requires
            old(self)@.errors < u16::MAX,
        ensures
            final(self)@ == after_miss(old(self)@, current_letter),
            final(self).clock() == old(self).clock(),
    {
        self.errors += 1;
        self.reset_combo();
        self.update_accuracy(false, current_letter);
    }

    /// Counts a correctly typed character at `current_letter`: the streak
    /// grows, and the slot is right unless it was ever wrong.
    pub fn increment_combo(&mut self, current_letter: usize)
        requires
            old(self)@.combo < usize::MAX,
        ensures
            final(self)@ == after_hit(old(self)@, current_letter),
            final(self).clock() == old(self).clock(),
    {
        self.combo += 1;
        self.update_accuracy(true, current_letter);
        if self.highest_combo < self.combo {
            self.highest_combo = self.combo;
        }
    }

    /// The number of slots never mistyped, and the number of slots seen.
    /// Accuracy in percent is a hundred times the first over the second, and
    /// 0 where no slot was seen.
    pub fn get_typing_accuracy_counts(&self) -> (counts: (usize, usize))
        ensures
            counts.0 == clean_slots(self@.slots),
            counts.1 == self@.slots.len(),
    {
        let mut clean: usize = 0;
        let mut i: usize = 0;
        while i < self.char_properly_typed.len()
            invariant
                i <= self.char_properly_typed.len(),
                clean <= i,
                clean == clean_slots(self.char_properly_typed@.take(i as int)),
            decreases self.char_properly_typed.len() - i,
        {
            proof {
                let slots = self.char_properly_typed@;
                assert(slots.take(i + 1).drop_last() == slots.take(i as int));
            }
            if self.char_properly_typed[i] {
                clean += 1;
            }
            i += 1;
        }
        proof {
            let slots = self.char_properly_typed@;
            assert(slots.take(slots.len() as int) == slots);
        }
        (clean, self.char_properly_typed.len())
    }

    /// Records how the character at `current_letter` was typed.
    pub fn update_accuracy(&mut self, typed_right: bool, current_letter: usize)
        ensures
            final(self)@ == (Score {
                slots: mark_slot(old(self)@.slots, current_letter as int, typed_right),
                ..old(self)@
            }),
            final(self).clock() == old(self).clock(),
    {
        if self.char_properly_typed.len() <= current_letter {
            self.char_properly_typed.push(typed_right);
        } else if self.char_properly_typed[current_letter] {
            self.char_properly_typed.set(current_letter, typed_right);
        }
    }

    /// Ends the streak.
    pub fn reset_combo(&mut self)
        ensures
            final(self)@ == (Score { combo: 0, ..old(self)@ }),
            final(self).clock() == old(self).clock(),
    {
        self.combo = 0;
    }

    /// Clears the score for the next round: speed, errors, timer, streak,
    /// longest streak and accuracy record. The choice of speed formula
    /// stays, and so does the clock that the score reads.
    pub fn reset(&mut self)
        ensures
            final(self)@ == cleared(old(self)@),
            final(self).clock() == old(self).clock(),
    {
        self.wpm = 0;
        self.errors = 0;
        self.start_time = 0;
        self.combo = 0;
        self.highest_combo = 0;
        self.char_properly_typed = Vec::new();
    }

    /// The rows of the score table, the speed first.
    pub fn text(&self) -> (rows: Vec<Vec<String>>)
        ensures
            rows.deep_view() == score_rows(self@),
    {
        let mut wpm_row: Vec<String> = Vec::new();
        wpm_row.push("WPM".to_owned());
        wpm_row.push(decimal(self.wpm as u128));
        let mut errors_row: Vec<String> = Vec::new();
        errors_row.push("Errors".to_owned());
        errors_row.push(decimal(self.errors as u128));
        let mut combo_row: Vec<String> = Vec::new();
        combo_row.push("Combo".to_owned());
        combo_row.push(decimal(self.combo as u128));
        let mut rows: Vec<Vec<String>> = Vec::new();
        proof {
            reveal_strlit("WPM");
            reveal_strlit("Errors");
            reveal_strlit("Combo");
            assert("WPM"@ =~= seq!['W', 'P', 'M']);
            assert("Errors"@ =~= seq!['E', 'r', 'r', 'o', 'r', 's']);
            assert("Combo"@ =~= seq!['C', 'o', 'm', 'b', 'o']);
            assert(wpm_row.deep_view() =~= score_rows(self@)[0]);
            assert(errors_row.deep_view() =~= score_rows(self@)[1]);
            assert(combo_row.deep_view() =~= score_rows(self@)[2]);
        }
        rows.push(wpm_row);
        rows.push(errors_row);
        rows.push(combo_row);
        rows
    }

    /// The number of mistyped characters.
    pub fn get_errors(&self) -> (errors: u16)
        ensures
            errors == self@.errors,
    {
        self.errors
    }

    /// The length of the streak.
    pub fn get_combo(&self) -> (combo: usize)
        ensures
            combo == self@.combo,
    {
        self.combo
    }

    /// The speed in words per minute.
    pub fn get_wpm(&self) -> (wpm: u64)
        ensures
            wpm == self@.wpm,
    {
        self.wpm
    }

    /// The length of the longest streak.
    pub fn get_highest_combo(&self) -> (highest: usize)
        ensures
            highest == self@.highest_combo,
    {
        self.highest_combo
    }

    /// Whether a word counts as a word, not as five characters.
    pub fn get_legacy_wpm(&self) -> (legacy: bool)
        ensures
            legacy == self@.legacy_wpm,
    {
        self.legacy_wpm
    }

    /// The second at which the timer started; 0 while it does not run.
    pub fn get_start_time(&self) -> (start: u64)
        ensures
            start == self@.start_time,
    {
        self.start_time
    }
}

} // verus!
