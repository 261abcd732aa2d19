//! One round of typing as a state machine: the state that is carried from
//! keystroke to keystroke, and the step that one event makes of it.
//!
//! The front end reads keys, draws, and reads the clock; it hands each
//! event to `Session::step` and does what the outcome says.

use crate::actions::Action;
use crate::game::formatter::{
    cells, final_cells, get_formatted_texts, get_formatted_texts_line_mode,
    get_reformatted_complete_texts, get_reformatted_failed_texts, get_unformatted_passage, overlay,
    shown_word, untouched_cells, white_on, Cell, Color, FormattedTexts, Span,
};
use crate::game::game_db::MistakenWords;
use crate::game::indexer::{
    attempt_index, attempted_slot, displayed_index, get_starting_idx, get_trying_letter_idx,
    lemma_starting_offset_grows, like_word, starting_offset,
};
use crate::game::split::{to_words, units_of};
use crate::game::word_processing::{
    decide_game_end, get_all_input_minus_last_word, get_game_mode, get_updated_texts, mode_of,
    rest_after_unit, round_over, unit_done, without_last_unit, word_completed, GameMode,
};
use crate::stats::{after_hit, after_miss, started, timed, Score, Stats};
use crate::text::unit_views;
use vstd::prelude::*;
use vstd::string::StrSliceExecFns;

verus! {

/// What happened since the last step.
#[derive(Clone, Copy, Debug, PartialEq, Eq, Structural)]
pub enum Event {
    /// No key was pressed within the polling time.
    Tick,
    /// A character was typed.
    Char(char),
    /// The last character of the input is to go.
    Backspace,
    /// The whole input is to go.
    ClearLine,
    /// The last word of the input is to go.
    DeleteWord,
    /// The player asked for the information screen.
    ShowInfo,
    /// The player asked for the graphs.
    ShowGraphs,
    /// The player asked to leave the round.
    Leave(Action),
    /// Any other key.
    Other,
}

/// What the front end is to do after a step, before it draws again.
#[derive(Clone, Copy, Debug, PartialEq, Eq, Structural)]
pub enum Outcome {
    Continue,
    ShowInfo,
    ShowGraphs,
    Leave(Action),
}

/// A round as plain values.
pub struct Round {
    pub units: Seq<Seq<char>>,
    pub text_mode: GameMode,
    pub game_mode: crate::game::GameMode,
    /// Whether the whole passage stays on show, or only what is left of it.
    pub always_full: bool,
    /// What the player has typed of the current unit.
    pub input: Seq<char>,
    /// The unit being typed; the number of units once the round is over.
    pub unit_index: nat,
    pub passage: Seq<Cell>,
    pub input_line: Seq<Cell>,
    /// Whether the input is wrong.
    pub error: bool,
    /// Whether the round is over.
    pub complete: bool,
    /// The units mistyped in this round, each once.
    pub mistaken: Seq<Seq<char>>,
    pub got_first_input: bool,
}

impl Round {
    /// While the round runs the index points at a unit; every offset in the
    /// passage fits the machine; no unit is listed twice as mistyped.
    pub open spec fn well_formed(self) -> bool {
        &&& self.unit_index <= self.units.len()
        &&& !self.complete ==> self.unit_index < self.units.len()
        &&& starting_offset(GameMode::Latin, self.units, self.units.len() as int) <= usize::MAX
        &&& self.mistaken.no_duplicates()
    }

    /// The round after the character `c` was typed. A character that
    /// completes the unit moves on to the next unit with empty input; a
    /// newline or tab is dropped; any other character joins the input.
    pub open spec fn typed(self, c: char) -> Round {
        let unit = self.units[self.unit_index as int];
        if unit_done(self.text_mode, c, unit, self.input) {
            Round {
                passage: if self.always_full {
                    self.passage
                } else {
                    rest_after_unit(self.text_mode, self.passage, unit)
                },
                unit_index: self.unit_index + 1,
                input: Seq::empty(),
                got_first_input: true,
                ..self
            }
        } else if c == '\n' || c == '\t' {
            Round { got_first_input: true, ..self }
        } else {
            Round { input: self.input.push(c), got_first_input: true, ..self }
        }
    }

    /// The round after the event changed the input.
    pub open spec fn edited(self, event: Event) -> Round {
        match event {
            Event::ClearLine => Round { input: Seq::empty(), ..self },
            Event::DeleteWord => Round { input: without_last_unit(self.input), ..self },
            Event::Backspace => Round {
                input: if self.input.len() > 0 {
                    self.input.drop_last()
                } else {
                    self.input
                },
                ..self
            },
            Event::Char(c) => self.typed(c),
            _ => self,
        }
    }

    /// The round with passage, input line and error flag brought up to
    /// date. Past the last unit nothing is shown anew.
    pub open spec fn reshown(self, last_input_char: char, new_char: bool) -> Round {
        if self.unit_index >= self.units.len() {
            self
        } else {
            let error = !like_word(self.units[self.unit_index as int], self.input);
            let shown = if self.always_full {
                displayed_index(self.text_mode, error, new_char, self.unit_index as int)
            } else {
                self.unit_index as int
            };
            let (word, input_line) = shown_word(
                self.text_mode,
                self.units[shown],
                self.input,
                last_input_char,
                new_char,
            );
            Round {
                passage: overlay(
                    self.passage,
                    if self.always_full {
                        starting_offset(self.text_mode, self.units, shown) as int
                    } else {
                        0
                    },
                    word,
                ),
                input_line,
                error,
                complete: false,
                ..self
            }
        }
    }

    /// The round with `unit_index` listed as mistyped.
    pub open spec fn noted(self) -> Round {
        let unit = self.units[self.unit_index as int];
        if self.mistaken.contains(unit) {
            self
        } else {
            Round { mistaken: self.mistaken.push(unit), ..self }
        }
    }

    /// The round lost to the first error.
    pub open spec fn failed(self) -> Round {
        Round {
            passage: final_cells(self.text_mode, self.units, Color::Red),
            input_line: seq![Cell { content: "FAIL"@, style: white_on(Color::Red) }],
            error: true,
            complete: true,
            ..self
        }
    }

    /// The round typed to its end.
    pub open spec fn completed(self) -> Round {
        Round {
            passage: final_cells(self.text_mode, self.units, Color::Green),
            input_line: seq![Cell { content: "COMPLETE"@, style: white_on(Color::Green) }],
            error: false,
            complete: true,
            unit_index: self.units.len(),
            input: Seq::empty(),
            ..self
        }
    }

    /// Whether the passage is typed to its end.
    pub open spec fn is_over(self) -> bool {
        self.unit_index >= self.units.len() || round_over(
            self.text_mode,
            self.unit_index as int,
            self.units,
            self.input,
        )
    }

    /// Whether the keystroke just made was wrong.
    pub open spec fn mistyped(self, new_char: bool) -> bool {
        self.error && new_char && self.unit_index < self.units.len()
    }

    /// The unit being typed, or `DONE`.
    pub open spec fn current_unit(self) -> Seq<char> {
        if self.complete || self.unit_index >= self.units.len() {
            "DONE"@
        } else {
            self.units[self.unit_index as int]
        }
    }
}

/// The round at its start. A passage without units is complete at once.
pub open spec fn opening(
    passage: Seq<char>,
    game_mode: crate::game::GameMode,
    always_full: bool,
) -> Round {
    let round = Round {
        units: units_of(passage),
        text_mode: mode_of(passage),
        game_mode,
        always_full,
        input: Seq::empty(),
        unit_index: 0,
        passage: untouched_cells(passage),
        input_line: Seq::empty(),
        error: false,
        complete: false,
        mistaken: Seq::empty(),
        got_first_input: false,
    };
    if round.units.len() == 0 {
        round.completed()
    } else {
        round
    }
}

/// What the front end is asked to do by an event.
pub open spec fn request(event: Event) -> Outcome {
    match event {
        Event::ShowInfo => Outcome::ShowInfo,
        Event::ShowGraphs => Outcome::ShowGraphs,
        Event::Leave(action) => Outcome::Leave(action),
        _ => Outcome::Continue,
    }
}

/// The character that the formatting takes as typed last.
pub open spec fn last_char(event: Event) -> char {
    match event {
        Event::Char(c) => c,
        _ => ' ',
    }
}

/// The score after the keystroke, if the event was one, was judged.
pub open spec fn judged(score: Score, round: Round, new_char: bool) -> Score {
    let slot = attempted_slot(
        round.text_mode,
        round.units,
        round.unit_index as int,
        round.input,
    ) as usize;
    if round.mistyped(new_char) {
        after_miss(score, slot)
    } else if new_char {
        after_hit(score, slot)
    } else {
        score
    }
}

/// One step of a round: the round and the score after `event` at the time
/// `now`, and what the front end is to do.
///
/// A round that is over changes no more. Without a key only the speed is
/// brought up to date, once the first character was typed. A request to
/// leave changes nothing. Any other event edits the input; a typed
/// character starts the timer and brings the speed up to date. Then the
/// passage is shown anew and the keystroke is judged: a wrong one counts as
/// an error, ends the streak and puts the unit on the list of mistyped
/// ones, and ends the round where the first error is fatal; a right one
/// lengthens the streak. At last the round ends where the passage is typed.
pub open spec fn after_event(round: Round, score: Score, event: Event, now: u64) -> (
    Round,
    Score,
    Outcome,
) {
    if round.complete {
        (round, score, request(event))
    } else if event is Tick {
        (
            round,
            if round.got_first_input {
                timed(score, round.unit_index as int, round.units, now)
            } else {
                score
            },
            Outcome::Continue,
        )
    } else if event is Leave {
        (round, score, request(event))
    } else {
        let new_char = event is Char;
        let edited = round.edited(event);
        let clocked = if new_char {
            timed(started(score, now), edited.unit_index as int, round.units, now)
        } else {
            score
        };
        let shown = edited.reshown(last_char(event), new_char);
        let points = judged(clocked, shown, new_char);
        let noted = if shown.mistyped(new_char) {
            shown.noted()
        } else {
            shown
        };
        if shown.mistyped(new_char) && round.game_mode == crate::game::GameMode::InstantDeath {
            (noted.failed(), points, request(event))
        } else if noted.is_over() {
            (
                noted.completed(),
                timed(points, round.units.len() as int, round.units, now),
                request(event),
            )
        } else {
            (noted, points, request(event))
        }
    }
}

/// A round that is over stays as it is, whatever happens.
pub proof fn lemma_over_is_over(round: Round, score: Score, event: Event, now: u64)
    requires
        round.complete,
    ensures
        after_event(round, score, event, now).0 == round,
        after_event(round, score, event, now).1 == score,
{
}

/// Only a typed character counts: no other event changes errors, streak
/// or accuracy.
pub proof fn lemma_only_typing_scores(round: Round, score: Score, event: Event, now: u64)
    requires
        !(event is Char),
    ensures
        after_event(round, score, event, now).1.errors == score.errors,
        after_event(round, score, event, now).1.combo == score.combo,
        after_event(round, score, event, now).1.highest_combo == score.highest_combo,
        after_event(round, score, event, now).1.slots == score.slots,
{
}

/// Within a round the streak falls only to 0, and only by an error; the
/// longest streak, the errors and the accuracy record never shrink.
pub proof fn lemma_score_in_a_round(round: Round, score: Score, event: Event, now: u64)
    ensures
        after_event(round, score, event, now).1.combo == 0 || after_event(
            round,
            score,
            event,
            now,
        ).1.combo >= score.combo,
        after_event(round, score, event, now).1.combo < score.combo ==> after_event(
            round,
            score,
            event,
            now,
        ).1.errors == score.errors + 1,
        after_event(round, score, event, now).1.highest_combo >= score.highest_combo,
        after_event(round, score, event, now).1.errors >= score.errors,
        after_event(round, score, event, now).1.slots.len() >= score.slots.len(),
{
}

/// A step keeps a round well formed, and the index never passes the end of
/// the passage.
pub proof fn lemma_step_keeps_well_formed(round: Round, score: Score, event: Event, now: u64)
    requires
        round.well_formed(),
    ensures
        after_event(round, score, event, now).0.well_formed(),
        after_event(round, score, event, now).0.units == round.units,
        after_event(round, score, event, now).0.unit_index <= round.units.len(),
{
}

/// Every unit starts no later word by word than cluster by cluster.
pub proof fn lemma_offsets_fit(mode: GameMode, units: Seq<Seq<char>>, unit_index: int)
    ensures
        starting_offset(mode, units, unit_index) <= starting_offset(
            GameMode::Latin,
            units,
            unit_index,
        ),
        starting_offset(mode, units, unit_index) <= starting_offset(
            GameMode::Latin,
            units,
            units.len() as int,
        ),
    decreases unit_index,
{
    if unit_index > units.len() {
        if unit_index > 0 {
            lemma_offsets_fit(mode, units, units.len() as int);
        }
    } else if unit_index > 0 {
        lemma_offsets_fit(mode, units, unit_index - 1);
    }
    if unit_index <= units.len() {
        lemma_starting_offset_grows(GameMode::Latin, units, unit_index, units.len() as int);
    }
}

/// The character being tried lies in the unit being typed or right after it.
pub proof fn lemma_slot_fits(
    mode: GameMode,
    units: Seq<Seq<char>>,
    unit_index: int,
    input: Seq<char>,
)
    requires
        input.len() > 0 ==> 0 <= unit_index < units.len(),
    ensures
        0 <= attempted_slot(mode, units, unit_index, input) <= starting_offset(
            GameMode::Latin,
            units,
            units.len() as int,
        ),
{
    lemma_offsets_fit(mode, units, unit_index);
    if input.len() > 0 {
        lemma_attempt_stays_in_unit(units[unit_index], input, 0);
        lemma_offsets_fit(mode, units, unit_index + 1);
    }
}

/// The position being tried never leaves the unit.
proof fn lemma_attempt_stays_in_unit(unit: Seq<char>, input: Seq<char>, from: int)
    requires
        0 <= from <= unit.len(),
    ensures
        from <= attempt_index(unit, input, from) <= unit.len(),
    decreases unit.len() - from,
{
    if from < unit.len() && from + 1 < input.len() && unit[from] == input[from] {
        lemma_attempt_stays_in_unit(unit, input, from + 1);
    }
}

/// A round being played.
#[derive(Debug)]
pub struct Session<'a> {
    words: Vec<&'a str>,
    text_mode: GameMode,
    game_mode: crate::game::GameMode,
    always_full: bool,
    user_input: String,
    current_word_idx: usize,
    formatted_texts: FormattedTexts,
    mistaken_words: MistakenWords,
    got_first_input: bool,
}

impl<'a> View for Session<'a> {
    type V = Round;

    closed spec fn view(&self) -> Round {
        Round {
            units: unit_views(self.words@),
            text_mode: self.text_mode,
            game_mode: self.game_mode,
            always_full: self.always_full,
            input: self.user_input@,
            unit_index: self.current_word_idx as nat,
            passage: cells(self.formatted_texts.passage@),
            input_line: cells(self.formatted_texts.input@),
            error: self.formatted_texts.error,
            complete: self.formatted_texts.complete,
            mistaken: self.mistaken_words@,
            got_first_input: self.got_first_input,
        }
    }
}

/// Whether every offset in a passage of these units fits the machine.
fn offsets_fit(words: &Vec<&str>) -> (fit: bool)
    ensures
        fit == (starting_offset(GameMode::Latin, unit_views(words@), words.len() as int)
            <= usize::MAX),
{
    let ghost units = unit_views(words@);
    let mut total: usize = 0;
    let mut i: usize = 0;
    while i < words.len()
        invariant
            i <= words.len(),
            units == unit_views(words@),
            total == starting_offset(GameMode::Latin, units, i as int),
        decreases words.len() - i,
    {
        proof {
            lemma_starting_offset_grows(GameMode::Latin, units, i + 1, words.len() as int);
        }
        let len = words[i].unicode_len();
        if len == usize::MAX || total > usize::MAX - len - 1 {
            return false;
        }
        total = total + len + 1;
        i += 1;
    }
    true
}

impl<'a> Session<'a> {
    /// Starts a round on `passage`. The answer is `None` where the passage
    /// is too long for its offsets to fit the machine.
    pub fn new(passage: &'a str, game_mode: crate::game::GameMode, always_full: bool) -> (session:
        Option<Session<'a>>)
        ensures
            session is Some <==> starting_offset(
                GameMode::Latin,
                units_of(passage@),
                units_of(passage@).len() as int,
            ) <= usize::MAX,
            session matches Some(s) ==> s@ == opening(passage@, game_mode, always_full)
                && s@.well_formed(),
    {
        let words = to_words(passage);
        if !offsets_fit(&words) {
            return None;
        }
        let text_mode = get_game_mode(passage);
        let formatted_texts = if words.len() == 0 {
            get_reformatted_complete_texts(&text_mode, words.as_slice())
        } else {
            let input: Vec<Span> = Vec::new();
            proof {
                assert(cells(input@) =~= Seq::<Cell>::empty());
            }
            FormattedTexts {
                passage: get_unformatted_passage(passage),
                input,
                error: false,
                complete: false,
            }
        };
        let session = Session {
            words,
            text_mode,
            game_mode,
            always_full,
            user_input: String::new(),
            current_word_idx: 0,
            formatted_texts,
            mistaken_words: MistakenWords::new(),
            got_first_input: false,
        };
        Some(session)
    }

    /// Whether two sessions are rounds on the same passage, by the same rules.
    spec fn same_passage(self, other: Self) -> bool {
        &&& self.words == other.words
        &&& self.text_mode == other.text_mode
        &&& self.game_mode == other.game_mode
        &&& self.always_full == other.always_full
    }

    /// Edits the input as the event says.
    fn edit(&mut self, event: Event)
        requires
            old(self)@.unit_index < old(self)@.units.len(),
        ensures
            final(self)@ == old(self)@.edited(event),
            final(self).same_passage(*old(self)),
    {
        assert(self.current_word_idx < self.words.len());
        match event {
            Event::ClearLine => {
                self.user_input.clear();
            },
            Event::DeleteWord => {
                self.user_input = get_all_input_minus_last_word(self.user_input.as_str());
            },
            Event::Backspace => {
                self.user_input.pop();
            },
            Event::Char(c) => {
                self.got_first_input = true;
                let unit = self.words[self.current_word_idx];
                if word_completed(&self.text_mode, c, unit, self.user_input.as_str()) {
                    if !self.always_full {
                        let mut shown: Vec<Span> = Vec::new();
                        std::mem::swap(&mut shown, &mut self.formatted_texts.passage);
                        self.formatted_texts.passage = get_updated_texts(
                            &self.text_mode,
                            shown,
                            unit,
                        );
                    }
                    self.current_word_idx += 1;
                    self.user_input.clear();
                } else if c != '\n' && c != '\t' {
                    self.user_input.push(c);
                }
            },
            _ => {},
        }
    }

    /// Brings passage, input line and error flag up to date.
    fn reshow(&mut self, last_input_char: char, new_char: bool)
        requires
            starting_offset(
                GameMode::Latin,
                old(self)@.units,
                old(self)@.units.len() as int,
            ) <= usize::MAX,
        ensures
            final(self)@ == old(self)@.reshown(last_input_char, new_char),
            final(self).same_passage(*old(self)),
    {
        if self.current_word_idx < self.words.len() {
            proof {
                lemma_offsets_fit(self.text_mode, self@.units, self.current_word_idx as int);
            }
            let mut shown: Vec<Span> = Vec::new();
            std::mem::swap(&mut shown, &mut self.formatted_texts.passage);
            self.formatted_texts = if self.always_full {
                get_formatted_texts(
                    &self.text_mode,
                    self.words.as_slice(),
                    self.user_input.as_str(),
                    self.current_word_idx,
                    last_input_char,
                    new_char,
                    shown,
                )
            } else {
                get_formatted_texts_line_mode(
                    &self.text_mode,
                    self.words[self.current_word_idx],
                    self.user_input.as_str(),
                    last_input_char,
                    new_char,
                    shown,
                )
            };
        }
    }

    /// Judges the keystroke, if there was one: counts it in the score, lists
    /// the unit where it was wrong, and says whether it was.
    fn judge(&mut self, new_char: bool, stats: &mut Stats) -> (wrong: bool)
        requires
            old(self)@.unit_index <= old(self)@.units.len(),
            old(self)@.unit_index == old(self)@.units.len() ==> old(self)@.input.len() == 0,
            starting_offset(
                GameMode::Latin,
                old(self)@.units,
                old(self)@.units.len() as int,
            ) <= usize::MAX,
            old(self)@.mistaken.no_duplicates(),
            new_char ==> old(stats)@.errors < u16::MAX && old(stats)@.combo < usize::MAX,
        ensures
            wrong == old(self)@.mistyped(new_char),
            final(self)@ == (if wrong {
                old(self)@.noted()
            } else {
                old(self)@
            }),
            final(self)@.mistaken.no_duplicates(),
            final(self).same_passage(*old(self)),
            final(stats)@ == judged(old(stats)@, old(self)@, new_char),
            final(stats).clock() == old(stats).clock(),
    {
        proof {
            lemma_slot_fits(self.text_mode, self@.units, self@.unit_index as int, self@.input);
        }
        let current_letter_idx = get_trying_letter_idx(
            &self.text_mode,
            self.words.as_slice(),
            self.current_word_idx,
            self.user_input.as_str(),
        );
        let wrong = self.formatted_texts.error && new_char && self.current_word_idx
            < self.words.len();
        if wrong {
            stats.increment_errors(current_letter_idx);
            self.mistaken_words.insert(self.words[self.current_word_idx]);
        } else if new_char {
            stats.increment_combo(current_letter_idx);
        }
        wrong
    }

    /// Takes one event at the time `now`, brings round and score up to
    /// date, and says what the front end is to do before it draws again.
    pub fn step(&mut self, event: Event, now: u64, stats: &mut Stats) -> (outcome: Outcome)
        requires
            old(self)@.well_formed(),
            event is Char ==> old(stats)@.errors < u16::MAX && old(stats)@.combo < usize::MAX,
        ensures
            (final(self)@, final(stats)@, outcome) == after_event(
                old(self)@,
                old(stats)@,
                event,
                now,
            ),
            final(self)@.well_formed(),
            final(stats).clock() == old(stats).clock(),
    {
        let ghost round = self@;
        let ghost units = round.units;
        let outcome = match event {
            Event::ShowInfo => Outcome::ShowInfo,
            Event::ShowGraphs => Outcome::ShowGraphs,
            Event::Leave(action) => Outcome::Leave(action),
            _ => Outcome::Continue,
        };
        if self.formatted_texts.complete {
            return outcome;
        }
        proof {
            lemma_starting_offset_grows(
                GameMode::Latin,
                units,
                (round.unit_index + 1) as int,
                units.len() as int,
            );
        }
        match event {
            Event::Tick => {
                if self.got_first_input {
                    stats.update_wpm_at(now, self.current_word_idx, self.words.as_slice());
                }
                return Outcome::Continue;
            },
            Event::Leave(_) => {
                return outcome;
            },
            _ => {},
        }
        let (new_char, last_input_char) = match event {
            Event::Char(c) => (true, c),
            _ => (false, ' '),
        };
        if new_char {
            stats.update_start_time_at(now);
        }
        self.edit(event);
        if new_char {
            stats.update_wpm_at(now, self.current_word_idx, self.words.as_slice());
        }
        self.reshow(last_input_char, new_char);
        let wrong = self.judge(new_char, stats);
        if wrong && self.game_mode == crate::game::GameMode::InstantDeath {
            self.formatted_texts = get_reformatted_failed_texts(
                &self.text_mode,
                self.words.as_slice(),
            );
            return outcome;
        }
        if self.current_word_idx >= self.words.len() || decide_game_end(
            &self.text_mode,
            self.current_word_idx,
            self.words.as_slice(),
            self.user_input.as_str(),
        ) {
            self.formatted_texts = get_reformatted_complete_texts(
                &self.text_mode,
                self.words.as_slice(),
            );
            self.current_word_idx = self.words.len();
            stats.update_wpm_at(now, self.current_word_idx, self.words.as_slice());
            self.user_input.clear();
        }
        outcome
    }

    /// The index of the unit being typed.
    pub fn unit_index(&self) -> (index: usize)
        ensures
            index == self@.unit_index,
    {
        self.current_word_idx
    }

    /// What the player has typed of the current unit.
    pub fn user_input(&self) -> (input: &str)
        ensures
            input@ == self@.input,
    {
        self.user_input.as_str()
    }

    /// Whether the input is wrong.
    pub fn has_error(&self) -> (error: bool)
        ensures
            error == self@.error,
    {
        self.formatted_texts.error
    }

    /// Whether the round is over.
    pub fn is_complete(&self) -> (complete: bool)
        ensures
            complete == self@.complete,
    {
        self.formatted_texts.complete
    }

    /// The passage and the input line as they are to be shown.
    pub fn texts(&self) -> (texts: &FormattedTexts)
        ensures
            cells(texts.passage@) == self@.passage,
            cells(texts.input@) == self@.input_line,
            texts.error == self@.error,
            texts.complete == self@.complete,
    {
        &self.formatted_texts
    }

    /// The units of the passage.
    pub fn words(&self) -> (words: &Vec<&'a str>)
        ensures
            unit_views(words@) == self@.units,
    {
        &self.words
    }

    /// How the passage is typed.
    pub fn text_mode(&self) -> (mode: GameMode)
        ensures
            mode == self@.text_mode,
    {
        self.text_mode
    }

    /// The unit being typed, or `DONE` once there is none.
    pub fn current_word(&self) -> (word: &str)
        ensures
            word@ == self@.current_unit(),
    {
        if self.formatted_texts.complete || self.current_word_idx >= self.words.len() {
            "DONE"
        } else {
            self.words[self.current_word_idx]
        }
    }

    /// The units mistyped in this round.
    pub fn mistaken_words(&self) -> (list: &MistakenWords)
        ensures
            list@ == self@.mistaken,
    {
        &self.mistaken_words
    }

    /// Where the unit being typed starts in the passage, and how long it is.
    /// Once there is none, the length is 0.
    pub fn active_unit(&self) -> (span: (usize, usize))
        requires
            self@.well_formed(),
        ensures
            span.0 == starting_offset(self@.text_mode, self@.units, self@.unit_index as int),
            span.1 == (if self@.unit_index < self@.units.len() {
                self@.units[self@.unit_index as int].len()
            } else {
                0
            }),
    {
        proof {
            lemma_offsets_fit(self.text_mode, self@.units, self.current_word_idx as int);
        }
        let start = get_starting_idx(&self.text_mode, self.words.as_slice(), self.current_word_idx);
        let length = if self.current_word_idx < self.words.len() {
            self.words[self.current_word_idx].unicode_len()
        } else {
            0
        };
        (start, length)
    }
}

} // verus!
