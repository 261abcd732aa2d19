//! How the passage and the input are to be shown after a keystroke: which
//! characters are typed, which one is next, and where the player went wrong.
//!
//! Styles are plain values here; a front end turns them into what its
//! terminal library draws.

use crate::game::indexer::{
    check_like_word, displayed_index, get_maybe_decremented_idx, get_starting_idx,
    like_word, starting_offset,
};
use crate::game::word_processing::GameMode;
use crate::text::{chars_eq, chars_of, unit_views};
use vstd::prelude::*;
use vstd::string::StringExecFns;

verus! {

/// The colours that the game draws in.
#[derive(Clone, Copy, Debug, PartialEq, Eq, Structural)]
pub enum Color {
    Green,
    Red,
    White,
    Blue,
    Cyan,
    Magenta,
    /// The terminal's own colour.
    Reset,
}

/// Foreground and background of a piece of text; `None` leaves the
/// terminal's own colour.
#[derive(Clone, Copy, Debug, PartialEq, Eq, Structural)]
pub struct Style {
    pub fg: Option<Color>,
    pub bg: Option<Color>,
}

/// A piece of text with its style.
#[derive(Clone, Debug, PartialEq, Eq)]
pub struct Span {
    pub content: String,
    pub style: Style,
}

impl Default for Style {
    fn default() -> (style: Style)
        ensures
            style == plain(),
    {
        Style { fg: None, bg: None }
    }
}

impl Style {
    /// The style with its foreground set.
    pub fn fg(self, color: Color) -> (style: Style)
        ensures
            style == (Style { fg: Some(color), ..self }),
    {
        Style { fg: Some(color), bg: self.bg }
    }

    /// The style with its background set.
    pub fn bg(self, color: Color) -> (style: Style)
        ensures
            style == (Style { bg: Some(color), ..self }),
    {
        Style { fg: self.fg, bg: Some(color) }
    }
}

impl Span {
    /// Text in the terminal's own colours.
    pub fn raw(content: &str) -> (span: Span)
        ensures
            span@ == (Cell { content: content@, style: plain() }),
    {
        Span { content: content.to_owned(), style: Style { fg: None, bg: None } }
    }

    /// Text in a style.
    pub fn styled(content: &str, style: Style) -> (span: Span)
        ensures
            span@ == (Cell { content: content@, style }),
    {
        Span { content: content.to_owned(), style }
    }
}

/// A span as plain values.
pub struct Cell {
    pub content: Seq<char>,
    pub style: Style,
}

impl View for Span {
    type V = Cell;

    open spec fn view(&self) -> Cell {
        Cell { content: self.content@, style: self.style }
    }
}

/// The passage and the input as they are to be shown.
#[derive(Clone, Debug)]
pub struct FormattedTexts {
    pub passage: Vec<Span>,
    pub input: Vec<Span>,
    pub error: bool,
    pub complete: bool,
}

/// The cells that a list of spans stands for.
pub open spec fn cells(spans: Seq<Span>) -> Seq<Cell> {
    Seq::new(spans.len(), |i: int| spans[i]@)
}

/// Text in the terminal's own colours.
pub open spec fn plain() -> Style {
    Style { fg: None, bg: None }
}

/// Text in one colour.
pub open spec fn colored(color: Color) -> Style {
    Style { fg: Some(color), bg: None }
}

/// White text on a coloured ground.
pub open spec fn white_on(color: Color) -> Style {
    Style { fg: Some(Color::White), bg: Some(color) }
}

/// The blue blank that marks the end of the input.
pub open spec fn cursor() -> Cell {
    Cell { content: seq![' '], style: Style { fg: None, bg: Some(Color::Blue) } }
}

/// The first position from `from` on at which word and input differ, or
/// at which one of them ends.
pub open spec fn agreement(word: Seq<char>, input: Seq<char>, from: int) -> int
    decreases word.len() - from,
{
    if 0 <= from < word.len() && from < input.len() && word[from] == input[from] {
        agreement(word, input, from + 1)
    } else {
        from
    }
}

/// Whether the keystroke just typed is the whole of a wide unit.
pub open spec fn wide_unit_typed(
    word: Seq<char>,
    input: Seq<char>,
    last_input_char: char,
    new_char: bool,
) -> bool {
    input.len() == 0 && new_char && word == seq![last_input_char]
}

/// The number of leading characters of the word that are shown as typed.
pub open spec fn typed_len(
    mode: GameMode,
    word: Seq<char>,
    input: Seq<char>,
    last_input_char: char,
    new_char: bool,
) -> int {
    match mode {
        GameMode::Latin => agreement(word, input, 0),
        GameMode::NonLatin => if word.len() > 0 && wide_unit_typed(
            word,
            input,
            last_input_char,
            new_char,
        ) {
            word.len() as int
        } else {
            0
        },
    }
}

/// A word, one cell per character: the typed characters green, then one
/// character on red where the input is wrong and on blue where it is not,
/// then the rest plain.
pub open spec fn word_cells(word: Seq<char>, typed: int, has_error: bool) -> Seq<Cell> {
    Seq::new(
        word.len(),
        |i: int|
            Cell {
                content: seq![word[i]],
                style: if i < typed {
                    colored(Color::Green)
                } else if i == typed {
                    if has_error {
                        white_on(Color::Red)
                    } else {
                        white_on(Color::Blue)
                    }
                } else {
                    plain()
                },
            },
    )
}

/// The input, one cell per character and the cursor after them: green, or
/// white on red where the input is wrong. A typed space shows as a dot.
pub open spec fn input_cells(input: Seq<char>, has_error: bool) -> Seq<Cell> {
    Seq::new(
        input.len() + 1,
        |i: int|
            if i < input.len() {
                Cell {
                    content: seq![
                        if input[i] == ' ' {
                            '.'
                        } else {
                            input[i]
                        },
                    ],
                    style: if has_error {
                        white_on(Color::Red)
                    } else {
                        colored(Color::Green)
                    },
                }
            } else {
                cursor()
            },
    )
}

/// `under` with `over` laid on it from position `start` on; what does not
/// fit is dropped.
pub open spec fn overlay(under: Seq<Cell>, start: int, over: Seq<Cell>) -> Seq<Cell> {
    Seq::new(
        under.len(),
        |i: int|
            if start <= i < start + over.len() {
                over[i - start]
            } else {
                under[i]
            },
    )
}

/// The passage once the round is over, every unit in one colour and with
/// its separator, and a banner in place of the input.
pub open spec fn final_cells(mode: GameMode, units: Seq<Seq<char>>, color: Color) -> Seq<Cell> {
    Seq::new(
        units.len(),
        |i: int|
            Cell {
                content: units[i] + (if mode == GameMode::Latin {
                    seq![' ']
                } else {
                    Seq::empty()
                }),
                style: colored(color),
            },
    )
}

/// A passage that nothing was typed of: one plain cell per character.
pub open spec fn untouched_cells(passage: Seq<char>) -> Seq<Cell> {
    Seq::new(passage.len(), |i: int| Cell { content: seq![passage[i]], style: plain() })
}

/// The cells of a list with one more span.
pub proof fn lemma_cells_push(spans: Seq<Span>, span: Span)
    ensures
        cells(spans.push(span)) == cells(spans).push(span@),
{
}

/// Extending a finished prefix of `wanted` by its next cell.
pub proof fn lemma_next_cell(done: Seq<Span>, span: Span, wanted: Seq<Cell>, i: int)
    requires
        0 <= i < wanted.len(),
        cells(done) == wanted.take(i),
        span@ == wanted[i],
    ensures
        cells(done.push(span)) == wanted.take(i + 1),
{
    lemma_cells_push(done, span);
}

/// A span of one character.
fn span_of_char(c: char, style: Style) -> (span: Span)
    ensures
        span@ == (Cell { content: seq![c], style }),
{
    let mut content = String::new();
    content.push(c);
    Span { content, style }
}

/// A copy of a span.
fn copy_of(span: &Span) -> (copy: Span)
    ensures
        copy@ == span@,
{
    Span { content: span.content.clone(), style: span.style }
}

/// One plain span per character of the passage.
pub fn get_unformatted_passage(passage: &str) -> (spans: Vec<Span>)
    ensures
        cells(spans@) == untouched_cells(passage@),
{
    let text = chars_of(passage);
    let mut spans: Vec<Span> = Vec::new();
    let mut i: usize = 0;
    while i < text.len()
        invariant
            i <= text.len(),
            text@ == passage@,
            cells(spans@) == untouched_cells(passage@).take(i as int),
        decreases text.len() - i,
    {
        let span = span_of_char(text[i], Style { fg: None, bg: None });
        proof {
            lemma_next_cell(spans@, span, untouched_cells(passage@), i as int);
        }
        spans.push(span);
        i += 1;
    }
    spans
}

/// A word and the input as they are shown while the word is being typed.
pub open spec fn shown_word(
    mode: GameMode,
    word: Seq<char>,
    input: Seq<char>,
    last_input_char: char,
    new_char: bool,
) -> (Seq<Cell>, Seq<Cell>) {
    (
        word_cells(
            word,
            typed_len(mode, word, input, last_input_char, new_char),
            !like_word(word, input),
        ),
        input_cells(input, !like_word(word, input)),
    )
}

/// The texts of a round typed to its end: the passage green, and a banner.
pub fn get_reformatted_complete_texts(game_mode: &GameMode, words: &[&str]) -> (texts:
    FormattedTexts)
    ensures
        cells(texts.passage@) == final_cells(*game_mode, unit_views(words@), Color::Green),
        cells(texts.input@) == seq![
            Cell { content: "COMPLETE"@, style: white_on(Color::Green) },
        ],
        !texts.error,
        texts.complete,
{
    get_fully_reformatted_texts(game_mode, words, Color::Green, "COMPLETE", false)
}

/// The texts of a round lost to an error: the passage red, and a banner.
pub fn get_reformatted_failed_texts(game_mode: &GameMode, words: &[&str]) -> (texts: FormattedTexts)
    ensures
        cells(texts.passage@) == final_cells(*game_mode, unit_views(words@), Color::Red),
        cells(texts.input@) == seq![Cell { content: "FAIL"@, style: white_on(Color::Red) }],
        texts.error,
        texts.complete,
{
    get_fully_reformatted_texts(game_mode, words, Color::Red, "FAIL", true)
}

/// The whole passage with the word being typed shown by its state, and the
/// input. After a correct keystroke on a wide unit it is the unit before
/// the current one that is shown.
pub fn get_formatted_texts(
    game_mode: &GameMode,
    words: &[&str],
    user_input: &str,
    current_word_idx: usize,
    last_input_char: char,
    new_char: bool,
    formatted_passage: Vec<Span>,
) -> (texts: FormattedTexts)
    requires
        current_word_idx < words.len(),
        starting_offset(*game_mode, unit_views(words@), current_word_idx as int) <= usize::MAX,
    ensures
        texts.error == !like_word(words[current_word_idx as int]@, user_input@),
        !texts.complete,
        ({
            let shown = displayed_index(
                *game_mode,
                texts.error,
                new_char,
                current_word_idx as int,
            );
            let (word, input) = shown_word(
                *game_mode,
                words[shown]@,
                user_input@,
                last_input_char,
                new_char,
            );
            &&& cells(texts.input@) == input
            &&& cells(texts.passage@) == overlay(
                cells(formatted_passage@),
                starting_offset(*game_mode, unit_views(words@), shown) as int,
                word,
            )
        }),
{
    let user_has_err = !check_like_word(words[current_word_idx], user_input);
    let shown = get_maybe_decremented_idx(game_mode, user_has_err, new_char, current_word_idx);
    let (formatted_passage_word, formatted_input) = get_formatted_words(
        game_mode,
        words[shown],
        user_input,
        last_input_char,
        new_char,
    );
    let starting_idx = get_starting_idx(game_mode, words, shown);
    let mut passage = formatted_passage;
    lay_over(&mut passage, starting_idx, &formatted_passage_word);
    FormattedTexts { passage, input: formatted_input, error: user_has_err, complete: false }
}

/// The rest of the passage, which starts with the word being typed, with
/// that word shown by its state, and the input.
pub fn get_formatted_texts_line_mode(
    game_mode: &GameMode,
    current_word: &str,
    user_input: &str,
    last_input_char: char,
    new_char: bool,
    formatted_passage: Vec<Span>,
) -> (texts: FormattedTexts)
    ensures
        texts.error == !like_word(current_word@, user_input@),
        !texts.complete,
        ({
            let (word, input) = shown_word(
                *game_mode,
                current_word@,
                user_input@,
                last_input_char,
                new_char,
            );
            &&& cells(texts.input@) == input
            &&& cells(texts.passage@) == overlay(cells(formatted_passage@), 0, word)
        }),
{
    let (formatted_passage_word, formatted_input) = get_formatted_words(
        game_mode,
        current_word,
        user_input,
        last_input_char,
        new_char,
    );
    let mut passage = formatted_passage;
    lay_over(&mut passage, 0, &formatted_passage_word);
    FormattedTexts {
        passage,
        input: formatted_input,
        error: !check_like_word(current_word, user_input),
        complete: false,
    }
}

/// One word of the passage and the input, each as spans.
///
/// The characters of the word that the input agrees with are green. The
/// next one is white on red where the input is wrong, and white on blue
/// where it is not; the rest is plain. The input is green, or white on red
/// where it is wrong, with a blue blank after it.
pub fn get_formatted_words(
    game_mode: &GameMode,
    word: &str,
    input: &str,
    last_input_char: char,
    new_char: bool,
) -> (formatted: (Vec<Span>, Vec<Span>))
    ensures
        (cells(formatted.0@), cells(formatted.1@)) == shown_word(
            *game_mode,
            word@,
            input@,
            last_input_char,
            new_char,
        ),
{
    let indexable_word = chars_of(word);
    let indexable_input = chars_of(input);
    let idx_word_count = indexable_word.len();
    let idx_input_count = indexable_input.len();
    let err = !check_like_word(word, input);
    let ghost wanted_input = input_cells(input@, err);

    let mut formatted_input: Vec<Span> = Vec::new();
    let mut i: usize = 0;
    while i < idx_input_count
        invariant
            i <= idx_input_count,
            idx_input_count == indexable_input.len(),
            indexable_input@ == input@,
            wanted_input == input_cells(input@, err),
            cells(formatted_input@) == wanted_input.take(i as int),
        decreases idx_input_count - i,
    {
        let style = if err {
            Style { fg: Some(Color::White), bg: Some(Color::Red) }
        } else {
            Style { fg: Some(Color::Green), bg: None }
        };
        let shown = if indexable_input[i] == ' ' {
            '.'
        } else {
            indexable_input[i]
        };
        let span = span_of_char(shown, style);
        proof {
            lemma_next_cell(formatted_input@, span, wanted_input, i as int);
        }
        formatted_input.push(span);
        i += 1;
    }
    let block = span_of_char(' ', Style { fg: None, bg: Some(Color::Blue) });
    proof {
        lemma_next_cell(formatted_input@, block, wanted_input, idx_input_count as int);
    }
    formatted_input.push(block);

    let mut word_dex: usize = 0;
    let mut stop = false;
    while !stop && word_dex < idx_word_count && (word_dex < idx_input_count || *game_mode
        == GameMode::NonLatin)
        invariant
            word_dex <= idx_word_count,
            idx_word_count == indexable_word.len(),
            idx_input_count == indexable_input.len(),
            indexable_word@ == word@,
            indexable_input@ == input@,
            *game_mode == GameMode::Latin ==> agreement(word@, input@, word_dex as int)
                == agreement(word@, input@, 0),
            *game_mode == GameMode::Latin && stop ==> word_dex < idx_input_count && word_dex
                < idx_word_count && word@[word_dex as int] != input@[word_dex as int],
            *game_mode == GameMode::NonLatin ==> (wide_unit_typed(
                word@,
                input@,
                last_input_char,
                new_char,
            ) ==> !stop) && (!wide_unit_typed(word@, input@, last_input_char, new_char)
                ==> word_dex == 0),
        decreases idx_word_count - word_dex + (if stop {
            0int
        } else {
            1int
        }),
    {
        if decide_break(
            game_mode,
            &indexable_word,
            &indexable_input,
            word_dex,
            last_input_char,
            new_char,
        ) {
            stop = true;
        } else {
            word_dex += 1;
        }
    }

    let ghost wanted_word = word_cells(word@, word_dex as int, err);
    let mut formatted_word: Vec<Span> = Vec::new();
    let mut k: usize = 0;
    while k < idx_word_count
        invariant
            k <= idx_word_count,
            idx_word_count == indexable_word.len(),
            indexable_word@ == word@,
            wanted_word == word_cells(word@, word_dex as int, err),
            cells(formatted_word@) == wanted_word.take(k as int),
        decreases idx_word_count - k,
    {
        let style = if k < word_dex {
            Style { fg: Some(Color::Green), bg: None }
        } else if k == word_dex {
            if err {
                Style { fg: Some(Color::White), bg: Some(Color::Red) }
            } else {
                Style { fg: Some(Color::White), bg: Some(Color::Blue) }
            }
        } else {
            Style { fg: None, bg: None }
        };
        let span = span_of_char(indexable_word[k], style);
        proof {
            lemma_next_cell(formatted_word@, span, wanted_word, k as int);
        }
        formatted_word.push(span);
        k += 1;
    }
    (formatted_word, formatted_input)
}

/// Whether the characters shown as typed stop at `word_dex`.
pub fn decide_break(
    game_mode: &GameMode,
    indexable_word: &Vec<char>,
    indexable_input: &Vec<char>,
    word_dex: usize,
    last_input_char: char,
    new_char: bool,
) -> (stop: bool)
    requires
        *game_mode == GameMode::Latin ==> word_dex < indexable_word.len() && word_dex
            < indexable_input.len(),
    ensures
        stop == (match *game_mode {
            GameMode::Latin => indexable_word[word_dex as int] != indexable_input[word_dex as int],
            GameMode::NonLatin => !wide_unit_typed(
                indexable_word@,
                indexable_input@,
                last_input_char,
                new_char,
            ),
        }),
{
    match game_mode {
        GameMode::Latin => decide_break_latin(indexable_word, indexable_input, word_dex),
        GameMode::NonLatin => decide_break_nonlatin(
            indexable_word,
            indexable_input,
            last_input_char,
            new_char,
        ),
    }
}

/// Whether word and input differ at `word_dex`.
pub fn decide_break_latin(
    indexable_word: &Vec<char>,
    indexable_input: &Vec<char>,
    word_dex: usize,
) -> (stop: bool)
    requires
        word_dex < indexable_word.len(),
        word_dex < indexable_input.len(),
    ensures
        stop == (indexable_word[word_dex as int] != indexable_input[word_dex as int]),
{
    indexable_word[word_dex] != indexable_input[word_dex]
}

/// Whether a wide unit is shown as not typed: anything but the unit in one
/// new keystroke after empty input.
pub fn decide_break_nonlatin(
    indexable_word: &Vec<char>,
    indexable_input: &Vec<char>,
    last_input_char: char,
    new_char: bool,
) -> (stop: bool)
    ensures
        stop == !wide_unit_typed(indexable_word@, indexable_input@, last_input_char, new_char),
{
    let mut typed: Vec<char> = Vec::new();
    typed.push(last_input_char);
    indexable_input.len() != 0 || !new_char || !chars_eq(&typed, indexable_word)
}

/// The whole passage in one colour, and a banner in place of the input.
pub fn get_fully_reformatted_texts(
    game_mode: &GameMode,
    words: &[&str],
    color: Color,
    end_string: &str,
    err: bool,
) -> (texts: FormattedTexts)
    ensures
        cells(texts.passage@) == final_cells(*game_mode, unit_views(words@), color),
        cells(texts.input@) == seq![Cell { content: end_string@, style: white_on(color) }],
        texts.error == err,
        texts.complete,
{
    let ghost wanted = final_cells(*game_mode, unit_views(words@), color);
    let mut passage: Vec<Span> = Vec::new();
    let mut i: usize = 0;
    while i < words.len()
        invariant
            i <= words.len(),
            wanted == final_cells(*game_mode, unit_views(words@), color),
            cells(passage@) == wanted.take(i as int),
        decreases words.len() - i,
    {
        let mut content = words[i].to_owned();
        content.append(maybe_add_space(game_mode));
        let span = Span { content, style: Style { fg: Some(color), bg: None } };
        proof {
            lemma_next_cell(passage@, span, wanted, i as int);
        }
        passage.push(span);
        i += 1;
    }
    let mut input: Vec<Span> = Vec::new();
    let banner = Span {
        content: end_string.to_owned(),
        style: Style { fg: Some(Color::White), bg: Some(color) },
    };
    input.push(banner);
    FormattedTexts { passage, input, error: err, complete: true }
}

/// What is shown between two units.
pub fn maybe_add_space(game_mode: &GameMode) -> (separator: &'static str)
    ensures
        separator@ == (if *game_mode == GameMode::Latin {
            seq![' ']
        } else {
            Seq::<char>::empty()
        }),
{
    proof {
        reveal_strlit(" ");
        reveal_strlit("");
    }
    match game_mode {
        GameMode::Latin => " ",
        GameMode::NonLatin => "",
    }
}

/// Lays `over` on `passage` from position `start` on; what does not fit is
/// dropped.
pub fn lay_over(passage: &mut Vec<Span>, start: usize, over: &Vec<Span>)
    ensures
        cells(final(passage)@) == overlay(cells(old(passage)@), start as int, cells(over@)),
{
    let ghost under = cells(passage@);
    let mut i: usize = 0;
    while i < over.len() && start < passage.len() && i < passage.len() - start
        invariant
            i <= over.len(),
            passage.len() == under.len(),
            cells(passage@) == overlay(under, start as int, cells(over@).take(i as int)),
        decreases over.len() - i,
    {
        let span = copy_of(&over[i]);
        let ghost before = passage@;
        passage.set(start + i, span);
        proof {
            assert(cells(passage@) =~= cells(before).update(start + i, span@));
        }
        i += 1;
    }
}

/// The spans from position `count` on; none where there are no more.
pub fn skip_spans(passage: &Vec<Span>, count: usize) -> (rest: Vec<Span>)
    ensures
        cells(rest@) == (if count <= passage.len() {
            cells(passage@).skip(count as int)
        } else {
            Seq::empty()
        }),
{
    let mut rest: Vec<Span> = Vec::new();
    if count > passage.len() {
        return rest;
    }
    let ghost wanted = cells(passage@).skip(count as int);
    let mut i: usize = count;
    while i < passage.len()
        invariant
            count <= i <= passage.len(),
            wanted == cells(passage@).skip(count as int),
            cells(rest@) == wanted.take(i - count),
        decreases passage.len() - i,
    {
        let span = copy_of(&passage[i]);
        proof {
            lemma_next_cell(rest@, span, wanted, i - count);
        }
        rest.push(span);
        i += 1;
    }
    rest
}

} // verus!
