//! The passages served so far, kept in a ring of fixed capacity so that the
//! player can go back to earlier ones.

use crate::actions::Action;
use crate::chance::{choose_words, is_choice, roll_below};
use crate::config::{pack_enabled, TyperacerConfig};
use crate::text::{
    chars_of, is_sorted, join_spaced, sorted_names, str_eq, string_views, trim, trimmed,
};
use vstd::prelude::*;
use vstd::string::StrSliceExecFns;
use vstd::string::StringExecFns;

verus! {

/// A passage to type, with its title and where it came from.
#[derive(Debug, Clone, PartialEq)]
pub struct PassageInfo {
    pub passage: String,
    pub title: String,
    pub passage_path: String,
}

/// The number of words that a training passage is made of, at most.
pub const TRAINING_WORDS: usize = 25;

/// A passage as plain values.
pub struct PassageText {
    pub passage: Seq<char>,
    pub title: Seq<char>,
    pub passage_path: Seq<char>,
}

impl View for PassageInfo {
    type V = PassageText;

    open spec fn view(&self) -> PassageText {
        PassageText {
            passage: self.passage@,
            title: self.title@,
            passage_path: self.passage_path@,
        }
    }
}

/// The passage that is served where none can be read.
pub open spec fn fallback_text() -> PassageText {
    PassageText {
        passage: "The quick brown fox jumps over the lazy dog"@,
        title: "darrienglasser.com"@,
        passage_path: "FALLBACK_PATH"@,
    }
}

/// The passage that the lines of a passage file stand for: the first line
/// without the whitespace around it, under the title on the second line. A
/// file of less than two lines gives the fallback passage.
pub open spec fn text_of_lines(lines: Seq<Seq<char>>, path: Seq<char>) -> PassageText {
    if lines.len() >= 2 {
        PassageText { passage: trimmed(lines[0]), title: lines[1], passage_path: path }
    } else {
        fallback_text()
    }
}

/// The training passage made of `chosen`, or an invitation to play where no
/// word was mistyped yet.
pub open spec fn training_text(chosen: Seq<Seq<char>>) -> PassageText {
    PassageText {
        passage: if chosen.len() == 0 {
            "You don't have any mistaken words! Play the default game mode for a while and make some mistakes!"@
        } else {
            join_spaced(chosen)
        },
        title: "Mistaken Words"@,
        passage_path: "TRAINING_MODE_PATH"@,
    }
}

/// The number of times that `separator` stands in `path`.
pub open spec fn count_of(path: Seq<char>, separator: char) -> nat
    decreases path.len(),
{
    if path.len() == 0 {
        0
    } else {
        count_of(path.drop_last(), separator) + if path.last() == separator {
            1nat
        } else {
            0nat
        }
    }
}

/// Where the name of a directory with its parent starts in a path: right
/// after the last separator but one, or at the start where there is only one.
pub open spec fn parent_start(path: Seq<char>, separator: char, at: int) -> bool {
    &&& 0 <= at <= path.len()
    &&& count_of(path.skip(at), separator) == 1
    &&& at > 0 ==> path[at - 1] == separator
}

/// Whether a directory entry of this name is a pack of passages: the
/// version file and the repository data are not.
pub fn is_pack_dir(file_stem: &str) -> (pack: bool)
    ensures
        pack == (file_stem@ != "version"@ && file_stem@ != ".git"@),
{
    !str_eq(file_stem, "version") && !str_eq(file_stem, ".git")
}

/// The last two names of a path, as in `packs/default`; `None` for a path
/// of one name.
pub fn dir_and_parent<'a>(path: &'a str, separator: char) -> (short: Option<&'a str>)
    ensures
        count_of(path@, separator) == 0 <==> short.is_none(),
        short matches Some(name) ==> exists|at: int|
            #[trigger] parent_start(path@, separator, at) && name@ == path@.skip(at),
{
    let chars = chars_of(path);
    let mut at: usize = chars.len();
    let mut seen: usize = 0;
    while at > 0 && !(seen == 1 && chars[at - 1] == separator)
        invariant
            at <= chars.len(),
            seen <= 1,
            seen == count_of(chars@.skip(at as int), separator),
        decreases at,
    {
        proof {
            lemma_count_from(chars@, separator, at - 1);
        }
        if chars[at - 1] == separator {
            seen += 1;
        }
        at -= 1;
    }
    proof {
        assert(chars@.skip(0) =~= chars@);
        if at > 0 {
            lemma_count_split(chars@, separator, at as int);
        }
    }
    if seen == 0 {
        None
    } else {
        proof {
            assert(parent_start(path@, separator, at as int));
        }
        Some(path.substring_char(at, chars.len()))
    }
}

/// Counting from one character further to the left.
proof fn lemma_count_from(path: Seq<char>, separator: char, at: int)
    requires
        0 <= at < path.len(),
    ensures
        count_of(path.skip(at), separator) == count_of(path.skip(at + 1), separator) + if path[at]
            == separator {
            1nat
        } else {
            0nat
        },
    decreases path.len() - at,
{
    let tail = path.skip(at);
    if at + 1 == path.len() {
        assert(count_of(tail.drop_last(), separator) == 0);
    } else {
        lemma_count_from(path.drop_last(), separator, at);
        assert(tail.drop_last() =~= path.drop_last().skip(at));
        assert(path.skip(at + 1).drop_last() =~= path.drop_last().skip(at + 1));
    }
}

/// Counting in a path is counting in its two halves.
proof fn lemma_count_split(path: Seq<char>, separator: char, at: int)
    requires
        0 <= at <= path.len(),
    ensures
        count_of(path, separator) == count_of(path.take(at), separator) + count_of(
            path.skip(at),
            separator,
        ),
    decreases path.len() - at,
{
    if at == path.len() {
        assert(path.take(at) =~= path);
    } else {
        lemma_count_split(path, separator, at + 1);
        lemma_count_from(path, separator, at);
        assert(path.take(at + 1).drop_last() =~= path.take(at));
    }
}

/// The names of the packs that passages are drawn from, in order.
pub open spec fn enabled_names(
    lang_packs: Option<crate::config::LangPacks>,
    names: Seq<String>,
) -> Seq<Seq<char>>
    decreases names.len(),
{
    if names.len() == 0 {
        Seq::empty()
    } else {
        let earlier = enabled_names(lang_packs, names.drop_last());
        if pack_enabled(lang_packs, names.last()@) {
            earlier.push(names.last()@)
        } else {
            earlier
        }
    }
}

/// The passage that is served where none can be read.
pub fn fallback_passage() -> (fallback: PassageInfo)
    ensures
        fallback@ == fallback_text(),
{
    PassageInfo {
        passage: "The quick brown fox jumps over the lazy dog".to_owned(),
        title: "darrienglasser.com".to_owned(),
        passage_path: "FALLBACK_PATH".to_owned(),
    }
}

/// The passage that the lines of the passage file at `path` stand for.
pub fn passage_from_lines(lines: &Vec<String>, path: &str) -> (passage: PassageInfo)
    ensures
        passage@ == text_of_lines(string_views(lines@), path@),
{
    if lines.len() >= 2 {
        PassageInfo {
            passage: trim(lines[0].as_str()).to_owned(),
            title: lines[1].clone(),
            passage_path: path.to_owned(),
        }
    } else {
        fallback_passage()
    }
}

/// The training passage made of the chosen words, single spaces between.
pub fn training_passage(chosen: &Vec<String>) -> (passage: PassageInfo)
    ensures
        passage@ == training_text(string_views(chosen@)),
{
    let ghost units = string_views(chosen@);
    let mut text = String::new();
    if chosen.len() == 0 {
        text = "You don't have any mistaken words! Play the default game mode for a while and make some mistakes!".to_owned();
    } else {
        let mut i: usize = 0;
        while i < chosen.len()
            invariant
                i <= chosen.len(),
                units == string_views(chosen@),
                text@ == join_spaced(units.take(i as int)),
            decreases chosen.len() - i,
        {
            proof {
                assert(units.take(i + 1).drop_last() =~= units.take(i as int));
                reveal_strlit(" ");
            }
            if i > 0 {
                text.append(" ");
            }
            text.append(chosen[i].as_str());
            i += 1;
        }
        proof {
            assert(units.take(chosen.len() as int) =~= units);
        }
    }
    PassageInfo {
        passage: text,
        title: "Mistaken Words".to_owned(),
        passage_path: "TRAINING_MODE_PATH".to_owned(),
    }
}

/// What a controller holds, as plain values.
pub struct History {
    /// The retained passages, by slot.
    pub passages: Seq<PassageInfo>,
    /// The slot of the passage being played.
    pub current: nat,
    /// The slot of the oldest passage that can still be gone back to.
    pub start: nat,
    /// The number of slots.
    pub capacity: nat,
    /// Whether no passage has been asked for yet.
    pub first_run: bool,
}

impl History {
    /// The slots never outnumber the capacity, and once a passage has been
    /// asked for, both indices point at filled slots. The oldest passage
    /// stays in slot 0 until every slot is filled.
    pub open spec fn well_formed(self) -> bool {
        &&& self.capacity >= 1
        &&& self.passages.len() <= self.capacity
        &&& self.first_run ==> self.current == 0 && self.start == 0
        &&& !self.first_run ==> {
            &&& self.current < self.passages.len()
            &&& self.start < self.passages.len()
            &&& self.passages.len() < self.capacity ==> self.start == 0
        }
    }

    /// The passage being played, if there is one.
    pub open spec fn current_passage(self) -> Option<PassageInfo> {
        if self.current < self.passages.len() {
            Some(self.passages[self.current as int])
        } else {
            None
        }
    }

    /// The slot that the next passage goes to.
    pub open spec fn next_slot(self) -> nat {
        (self.current + 1) % self.capacity
    }

    /// Whether going to the next passage takes a passage that was not served
    /// before, rather than one that is retained.
    pub open spec fn next_is_new(self) -> bool {
        if self.first_run {
            self.passages.len() < self.capacity
        } else {
            self.next_slot() == self.start || (self.passages.len() < self.capacity
                && self.next_slot() == self.passages.len())
        }
    }

    /// The history after going to the next passage, where `fresh` is the
    /// passage to serve if a new one is needed.
    pub open spec fn after_next(self, fresh: PassageInfo) -> History {
        if self.first_run {
            History {
                passages: if self.passages.len() < self.capacity {
                    self.passages.push(fresh)
                } else {
                    self.passages
                },
                first_run: false,
                ..self
            }
        } else if self.next_slot() == self.start {
            History {
                passages: if self.passages.len() < self.capacity {
                    self.passages.push(fresh)
                } else {
                    self.passages.update(self.next_slot() as int, fresh)
                },
                current: self.next_slot(),
                start: (self.start + 1) % self.capacity,
                ..self
            }
        } else if self.passages.len() < self.capacity && self.next_slot() == self.passages.len() {
            History { passages: self.passages.push(fresh), current: self.next_slot(), ..self }
        } else {
            History { current: self.next_slot(), ..self }
        }
    }

    /// The history after going back by one passage. At the oldest retained
    /// passage nothing changes.
    pub open spec fn after_previous(self) -> History {
        if self.current == self.start {
            self
        } else if self.current != 0 {
            History { current: (self.current - 1) as nat, ..self }
        } else {
            History { current: (self.capacity - 1) as nat, ..self }
        }
    }

    /// The history after `action`.
    pub open spec fn after_action(self, action: Action, fresh: PassageInfo) -> History {
        match action {
            Action::NextPassage => self.after_next(fresh),
            Action::PreviousPassage => self.after_previous(),
            Action::RestartPassage => self,
            Action::Quit => self,
        }
    }

    /// The history after going to the next passage once for each of `fresh`.
    pub open spec fn after_nexts(self, fresh: Seq<PassageInfo>) -> History
        decreases fresh.len(),
    {
        if fresh.len() == 0 {
            self
        } else {
            self.after_nexts(fresh.drop_last()).after_next(fresh.last())
        }
    }

    /// The history after going back `times` times.
    pub open spec fn after_previouses(self, times: nat) -> History
        decreases times,
    {
        if times == 0 {
            self
        } else {
            self.after_previouses((times - 1) as nat).after_previous()
        }
    }

    /// How many times the player can still go back.
    pub open spec fn steps_back(self) -> nat {
        if self.current >= self.start {
            (self.current - self.start) as nat
        } else {
            (self.current + self.capacity - self.start) as nat
        }
    }
}

/// The passage that was handed over, where one was.
pub open spec fn given(fresh: Option<PassageInfo>) -> PassageInfo {
    match fresh {
        Some(passage) => passage,
        None => arbitrary(),
    }
}

/// The history of a controller that was just made.
pub open spec fn empty_history(capacity: nat) -> History {
    History { passages: Seq::empty(), current: 0, start: 0, capacity, first_run: true }
}

/// No action breaks a history.
pub proof fn lemma_action_keeps_well_formed(history: History, action: Action, fresh: PassageInfo)
    requires
        history.well_formed(),
    ensures
        history.after_action(action, fresh).well_formed(),
        action == Action::NextPassage ==> history.after_action(action, fresh).current_passage()
            is Some,
        history.current_passage() is Some ==> history.after_action(action, fresh).current_passage()
            is Some,
{
    let c = history.capacity;
    if !history.first_run && history.passages.len() < c {
        assert((history.current + 1) % c == history.current + 1) by (nonlinear_arith)
            requires
                0 <= history.current + 1 < c,
        ;
    }
}

/// Going to the next passage `n` times fills `n` slots, until all are filled.
pub proof fn lemma_nexts_fill_slots(capacity: nat, fresh: Seq<PassageInfo>)
    requires
        capacity >= 1,
    ensures
        empty_history(capacity).after_nexts(fresh).well_formed(),
        empty_history(capacity).after_nexts(fresh).passages.len() == (if fresh.len() <= capacity {
            fresh.len()
        } else {
            capacity
        }),
        0 < fresh.len() <= capacity ==> empty_history(capacity).after_nexts(fresh).current
            == fresh.len() - 1,
        empty_history(capacity).after_nexts(fresh).first_run == (fresh.len() == 0),
        empty_history(capacity).after_nexts(fresh).capacity == capacity,
    decreases fresh.len(),
{
    if fresh.len() > 0 {
        lemma_nexts_fill_slots(capacity, fresh.drop_last());
        let before = empty_history(capacity).after_nexts(fresh.drop_last());
        let c = capacity;
        if !before.first_run && before.passages.len() < c {
            assert((before.current + 1) % c == before.current + 1) by (nonlinear_arith)
                requires
                    0 <= before.current + 1 < c,
            ;
        }
    }
}

/// At the oldest retained passage, going back changes nothing, however often
/// it is asked for.
pub proof fn lemma_previous_stops_at_oldest(history: History, times: nat)
    requires
        history.current == history.start,
    ensures
        history.after_previouses(times) == history,
    decreases times,
{
    if times > 0 {
        lemma_previous_stops_at_oldest(history, (times - 1) as nat);
    }
}

/// Going back moves one step towards the oldest retained passage and never
/// past it: after as many steps as there were to go, every further step
/// leaves the history as it is.
pub proof fn lemma_previous_reaches_oldest(history: History, times: nat)
    requires
        history.well_formed(),
        !history.first_run,
    ensures
        history.after_previouses(times).well_formed(),
        history.after_previouses(times).passages == history.passages,
        history.after_previouses(times).start == history.start,
        history.after_previouses(times).steps_back() == (if times <= history.steps_back() {
            history.steps_back() - times
        } else {
            0
        }),
        times >= history.steps_back() ==> history.after_previouses(times).current == history.start,
    decreases times,
{
    if times > 0 {
        lemma_previous_reaches_oldest(history, (times - 1) as nat);
    }
}

/// Restarting serves the passage that the action before it served, and
/// changes nothing.
pub proof fn lemma_restart_repeats(
    history: History,
    action: Action,
    fresh: PassageInfo,
    unused: PassageInfo,
)
    ensures
        history.after_action(action, fresh).after_action(Action::RestartPassage, unused)
            == history.after_action(action, fresh),
        history.after_action(action, fresh).after_action(
            Action::RestartPassage,
            unused,
        ).current_passage() == history.after_action(action, fresh).current_passage(),
{
}

/// Serves passages and remembers the last few of them.
#[derive(Debug, Clone)]
pub struct Controller<'a> {
    passages: Vec<PassageInfo>,
    current_passage_idx: usize,
    history_size: usize,
    start_idx: usize,
    first_run: bool,
    config: &'a TyperacerConfig,
}

impl<'a> View for Controller<'a> {
    type V = History;

    closed spec fn view(&self) -> History {
        History {
            passages: self.passages@,
            current: self.current_passage_idx as nat,
            start: self.start_idx as nat,
            capacity: self.history_size as nat,
            first_run: self.first_run,
        }
    }
}

impl<'a> Controller<'a> {
    /// The settings that this controller was made with.
    pub closed spec fn settings(self) -> &'a TyperacerConfig {
        self.config
    }

    /// A controller that retains `history_size` passages.
    pub fn new(history_size: usize, config: &'a TyperacerConfig) -> (controller: Self)
        requires
            history_size >= 1,
        ensures
            controller@ == empty_history(history_size as nat),
            controller.settings() == config,
            controller@.well_formed(),
    {
        Controller {
            passages: Vec::new(),
            current_passage_idx: 0,
            history_size,
            start_idx: 0,
            first_run: true,
            config,
        }
    }

    /// The settings that this controller was made with.
    pub fn config(&self) -> (config: &'a TyperacerConfig)
        ensures
            config == self.settings(),
    {
        self.config
    }

    /// A passage for training, made of up to 25 of the words that the player
    /// mistyped before, picked at random.
    pub fn retrieve_mistaken_words_passage(&mut self, words: &Vec<String>) -> (passage: PassageInfo)
        ensures
            *final(self) == *old(self),
            words@.len() == 0 ==> passage@ == training_text(Seq::empty()),
            words@.len() > 0 ==> exists|chosen: Seq<Seq<char>>, picks: Seq<int>|
                {
                    &&& chosen.len() == (if words@.len() <= TRAINING_WORDS {
                        words@.len()
                    } else {
                        TRAINING_WORDS as nat
                    })
                    &&& #[trigger] is_choice(chosen, string_views(words@), picks)
                    &&& passage@ == training_text(chosen)
                },
    {
        if words.len() == 0 {
            let none: Vec<String> = Vec::new();
            training_passage(&none)
        } else {
            let chosen = choose_words(words, TRAINING_WORDS);
            training_passage(&chosen)
        }
    }

    /// Picks one of `num_files` passage files at random; `None` where there
    /// is no file.
    pub fn pick_passage_file(&self, num_files: usize) -> (picked: Option<usize>)
        ensures
            num_files == 0 <==> picked.is_none(),
            picked matches Some(index) ==> index < num_files,
    {
        if num_files > 0 {
            Some(roll_below(num_files))
        } else {
            None
        }
    }

    /// Whether passages are drawn from the pack called `name`.
    pub fn draws_from(&self, name: &str) -> (enabled: bool)
        ensures
            enabled == pack_enabled(self.settings().lang_packs, name@),
    {
        self.config.is_pack_enabled(name)
    }

    /// The short names of the packs, each list in the order of a dictionary:
    /// first those that passages are drawn from, then all of them.
    pub fn get_quote_dir_shortnames(&self, names: &Vec<String>) -> (lists: (
        Vec<String>,
        Vec<String>,
    ))
        ensures
            is_sorted(string_views(lists.0@)),
            string_views(lists.0@).to_multiset() == enabled_names(
                self.settings().lang_packs,
                names@,
            ).to_multiset(),
            is_sorted(string_views(lists.1@)),
            string_views(lists.1@).to_multiset() == string_views(names@).to_multiset(),
    {
        let mut enabled: Vec<String> = Vec::new();
        let mut i: usize = 0;
        while i < names.len()
            invariant
                i <= names.len(),
                string_views(enabled@) == enabled_names(
                    self.settings().lang_packs,
                    names@.take(i as int),
                ),
            decreases names.len() - i,
        {
            proof {
                assert(names@.take(i + 1).drop_last() =~= names@.take(i as int));
            }
            if self.config.is_pack_enabled(names[i].as_str()) {
                enabled.push(names[i].clone());
            }
            i += 1;
        }
        proof {
            assert(names@.take(names.len() as int) =~= names@);
        }
        (sorted_names(&enabled), sorted_names(names))
    }

    /// Whether `action` serves a passage that was not served before, so that
    /// `retrieve_passage` has to be given one.
    pub fn needs_new_passage(&self, action: Action) -> (needed: bool)
        requires
            self@.well_formed(),
        ensures
            needed == (action == Action::NextPassage && self@.next_is_new()),
    {
        match action {
            Action::NextPassage => {
                if self.first_run {
                    self.passages.len() < self.history_size
                } else {
                    let next = (self.current_passage_idx + 1) % self.history_size;
                    next == self.start_idx || (self.passages.len() < self.history_size && next
                        == self.passages.len())
                }
            },
            _ => false,
        }
    }

    /// Serves the passage that `action` leads to: the next one, the one
    /// before, or the current one again. `fresh` is the passage to serve where
    /// a new one is needed; elsewhere it is dropped. Without any passage to
    /// serve the answer is `None`.
    pub fn retrieve_passage(&mut self, action: Action, fresh: Option<PassageInfo>) -> (served:
        Option<&PassageInfo>)
        requires
            old(self)@.well_formed(),
            action == Action::NextPassage && old(self)@.next_is_new() ==> fresh is Some,
        ensures
            final(self)@ == old(self)@.after_action(
                action,
                given(fresh),
            ),
            final(self).settings() == old(self).settings(),
            final(self)@.well_formed(),
            match served {
                Some(passage) => final(self)@.current_passage() == Some(*passage),
                None => final(self)@.current_passage().is_none(),
            },
            action == Action::NextPassage ==> served is Some,
    {
        match action {
            Action::NextPassage => Some(self.retrieve_next_passage(fresh)),
            Action::PreviousPassage => self.retrieve_previous_passage(),
            Action::RestartPassage => self.current(),
            Action::Quit => self.current(),
        }
    }

    /// The number of passages retained.
    pub fn filled_count(&self) -> (count: usize)
        ensures
            count == self@.passages.len(),
    {
        self.passages.len()
    }

    /// The number of passages that can be retained.
    pub fn capacity(&self) -> (capacity: usize)
        ensures
            capacity == self@.capacity,
    {
        self.history_size
    }

    /// The passage being played, if there is one.
    pub fn current(&self) -> (served: Option<&PassageInfo>)
        ensures
            match served {
                Some(passage) => self@.current_passage() == Some(*passage),
                None => self@.current_passage().is_none(),
            },
    {
        if self.current_passage_idx < self.passages.len() {
            Some(&self.passages[self.current_passage_idx])
        } else {
            None
        }
    }

    /// Goes to the next passage: a retained one where the player had gone
    /// back, else `fresh`, which takes a free slot or the place of the oldest
    /// passage.
    pub fn retrieve_next_passage(&mut self, fresh: Option<PassageInfo>) -> (served: &PassageInfo)
        requires
            old(self)@.well_formed(),
            old(self)@.next_is_new() ==> fresh is Some,
        ensures
            final(self)@ == old(self)@.after_next(
                given(fresh),
            ),
            final(self).settings() == old(self).settings(),
            final(self)@.well_formed(),
            final(self)@.current_passage() == Some(*served),
    {
        proof {
            lemma_action_keeps_well_formed(
                self@,
                Action::NextPassage,
                given(fresh),
            );
        }
        if self.first_run {
            self.first_run = false;
            if self.passages.len() < self.history_size {
                self.passages.push(fresh.unwrap());
            }
        } else {
            self.current_passage_idx = (self.current_passage_idx + 1) % self.history_size;
            if self.current_passage_idx == self.start_idx {
                self.start_idx = (self.start_idx + 1) % self.history_size;
                if self.passages.len() < self.history_size {
                    self.passages.push(fresh.unwrap());
                } else {
                    self.passages.set(self.current_passage_idx, fresh.unwrap());
                }
            } else if self.passages.len() < self.history_size && self.current_passage_idx
                == self.passages.len() {
                self.passages.push(fresh.unwrap());
            }
        }
        &self.passages[self.current_passage_idx]
    }

    /// Goes back by one passage, but never past the oldest retained one.
    pub fn retrieve_previous_passage(&mut self) -> (served: Option<&PassageInfo>)
        requires
            old(self)@.well_formed(),
        ensures
            final(self)@ == old(self)@.after_previous(),
            final(self).settings() == old(self).settings(),
            final(self)@.well_formed(),
            match served {
                Some(passage) => final(self)@.current_passage() == Some(*passage),
                None => final(self)@.current_passage().is_none(),
            },
    {
        if self.current_passage_idx != self.start_idx {
            if self.current_passage_idx != 0 {
                self.current_passage_idx -= 1;
            } else {
                self.current_passage_idx = self.history_size - 1;
            }
        }
        self.current()
    }

    /// Puts the player's own text into a free slot, to be served before any
    /// other passage. Without a free slot nothing changes.
    pub fn write_initial_passage(&mut self, passage: &str)
        requires
            old(self)@.well_formed(),
        ensures
            final(self).settings() == old(self).settings(),
            final(self)@.well_formed(),
            old(self)@.passages.len() >= old(self)@.capacity ==> final(self)@ == old(self)@,
            old(self)@.passages.len() < old(self)@.capacity ==> {
                &&& final(self)@ == (History {
                    passages: old(self)@.passages.push(final(self)@.passages.last()),
                    ..old(self)@
                })
                &&& final(self)@.passages.last().passage@ == passage@
                &&& final(self)@.passages.last().title@ == "User input"@
                &&& final(self)@.passages.last().passage_path@ == "User input"@
            },
    {
        if self.passages.len() < self.history_size {
            self.passages.push(
                PassageInfo {
                    passage: passage.to_owned(),
                    title: "User input".to_owned(),
                    passage_path: "User input".to_owned(),
                },
            );
        }
    }
}

} // verus!
