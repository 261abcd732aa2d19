//! What the game screen shows beside the passage: the layout by terminal
//! height, the colour of the borders by the state of the score, and the
//! input line with its cursor.

use crate::config::TyperacerConfig;
use crate::game::formatter::{
    cells, lemma_cells_push, lemma_next_cell, Cell, Color, FormattedTexts, Span, Style,
};
use crate::game::game_db::MistakenWords;
use crate::game::GameMode;
use crate::info::{screen_size, size_of_height, ScreenSize};
use crate::stats::{Score, Stats};
use vstd::prelude::*;

verus! {

/// Everything that one drawing of the game screen shows.
#[derive(Debug)]
pub struct GameState<'a> {
    pub texts: &'a FormattedTexts,
    pub user_input: &'a str,
    pub stats: &'a Stats,
    pub title: &'a str,
    pub game_mode: GameMode,
    pub config: &'a TyperacerConfig,
    pub debug_enabled: bool,
    pub word_idx: usize,
    pub passage_path: &'a str,
    pub current_word: &'a str,
    pub mistaken_words: &'a MistakenWords,
    pub complete: bool,
}

/// The colour of a border, and whether it is drawn bold.
#[derive(Clone, Copy, Debug, PartialEq, Eq, Structural)]
pub struct BorderStyle {
    pub color: Color,
    pub bold: bool,
}

/// The rows of the typing block, in percent of the height.
pub open spec fn typing_bounds(size: ScreenSize) -> [u16; 4] {
    match size {
        ScreenSize::Small => [0, 0, 70, 30],
        ScreenSize::Medium => [0, 20, 50, 30],
        ScreenSize::Large => [0, 30, 40, 30],
    }
}

/// The rows of the score block, in percent of the height.
pub open spec fn stats_bounds(size: ScreenSize) -> [u16; 3] {
    match size {
        ScreenSize::Small => [0, 0, 100],
        ScreenSize::Medium => [20, 0, 80],
        ScreenSize::Large => [10, 20, 70],
    }
}

/// Whether the borders keep to one colour.
pub open spec fn plain_borders(simple_borders: bool, game_mode: GameMode) -> bool {
    simple_borders && game_mode != GameMode::InstantDeath
}

/// The border of a round that the first error ends: red, and magenta
/// while the streak is long.
pub open spec fn instant_death_border(
    simple_borders: bool,
    game_mode: GameMode,
    combo: nat,
    combo_trigger: nat,
) -> BorderStyle {
    if plain_borders(simple_borders, game_mode) {
        BorderStyle { color: Color::Red, bold: true }
    } else if combo >= combo_trigger {
        BorderStyle { color: Color::Magenta, bold: false }
    } else {
        BorderStyle { color: Color::Red, bold: false }
    }
}

/// The border by the state of the score: green without errors and cyan
/// while the streak is long; after an error the terminal's own colour, and
/// blue while the streak is long.
pub open spec fn spicy_color(errors: nat, combo: nat, combo_trigger: nat) -> Color {
    if errors == 0 {
        if combo >= combo_trigger {
            Color::Cyan
        } else {
            Color::Green
        }
    } else if combo >= combo_trigger {
        Color::Blue
    } else {
        Color::Reset
    }
}

/// The border of any other round.
pub open spec fn regular_border(
    simple_borders: bool,
    game_mode: GameMode,
    errors: nat,
    combo: nat,
    combo_trigger: nat,
) -> BorderStyle {
    BorderStyle {
        color: if plain_borders(simple_borders, game_mode) {
            Color::Reset
        } else {
            spicy_color(errors, combo, combo_trigger)
        },
        bold: false,
    }
}

/// The border of a round, by its rules and the state of its score.
pub open spec fn border_of(
    simple_borders: bool,
    game_mode: GameMode,
    score: Score,
    combo_trigger: nat,
) -> BorderStyle {
    if game_mode == GameMode::InstantDeath {
        instant_death_border(simple_borders, game_mode, score.combo, combo_trigger)
    } else {
        regular_border(simple_borders, game_mode, score.errors, score.combo, combo_trigger)
    }
}

/// The block that stands for the cursor.
pub open spec fn block() -> Cell {
    Cell { content: seq!['\u{2588}'], style: Style { fg: None, bg: None } }
}

/// The input line as it is drawn: the cell that ends it gives way to a
/// block.
pub open spec fn display_ready(input_line: Seq<Cell>) -> Seq<Cell> {
    if input_line.len() > 0 {
        input_line.drop_last().push(block())
    } else {
        input_line.push(block())
    }
}

/// The rows of the typing block for a terminal of this height.
pub fn get_typing_bounds(height: u16) -> (bounds: [u16; 4])
    ensures
        bounds == typing_bounds(size_of_height(height)),
{
    match screen_size(height) {
        ScreenSize::Small => [0, 0, 70, 30],
        ScreenSize::Medium => [0, 20, 50, 30],
        ScreenSize::Large => [0, 30, 40, 30],
    }
}

/// The rows of the score block for a terminal of this height.
pub fn get_stats_bounds(height: u16) -> (bounds: [u16; 3])
    ensures
        bounds == stats_bounds(size_of_height(height)),
{
    match screen_size(height) {
        ScreenSize::Small => [0, 0, 100],
        ScreenSize::Medium => [20, 0, 80],
        ScreenSize::Large => [10, 20, 70],
    }
}

/// The border of the round being drawn.
pub fn get_border_style(game_state: &GameState) -> (style: BorderStyle)
    ensures
        style == border_of(
            game_state.config.display_settings.simple_borders,
            game_state.game_mode,
            game_state.stats@,
            game_state.config.combo_config.combo_trigger as nat,
        ),
{
    if game_state.game_mode == GameMode::InstantDeath {
        instant_death_border_style(game_state)
    } else {
        regular_border_style(game_state)
    }
}

/// The border of a round that the first error ends.
pub fn instant_death_border_style(game_state: &GameState) -> (style: BorderStyle)
    ensures
        style == instant_death_border(
            game_state.config.display_settings.simple_borders,
            game_state.game_mode,
            game_state.stats@.combo,
            game_state.config.combo_config.combo_trigger as nat,
        ),
{
    if game_state.config.display_settings.simple_borders && game_state.game_mode
        != GameMode::InstantDeath {
        BorderStyle { color: Color::Red, bold: true }
    } else if game_state.stats.get_combo() >= game_state.config.combo_config.combo_trigger {
        BorderStyle { color: Color::Magenta, bold: false }
    } else {
        BorderStyle { color: Color::Red, bold: false }
    }
}

/// The border of a round in which errors can be corrected.
pub fn regular_border_style(game_state: &GameState) -> (style: BorderStyle)
    ensures
        style == regular_border(
            game_state.config.display_settings.simple_borders,
            game_state.game_mode,
            game_state.stats@.errors,
            game_state.stats@.combo,
            game_state.config.combo_config.combo_trigger as nat,
        ),
{
    if game_state.config.display_settings.simple_borders && game_state.game_mode
        != GameMode::InstantDeath {
        BorderStyle { color: Color::Reset, bold: false }
    } else {
        BorderStyle { color: spicy_colors_style(game_state), bold: false }
    }
}

/// The colour that follows errors and streak.
pub fn spicy_colors_style(game_state: &GameState) -> (color: Color)
    ensures
        color == spicy_color(
            game_state.stats@.errors,
            game_state.stats@.combo,
            game_state.config.combo_config.combo_trigger as nat,
        ),
{
    let long_streak = game_state.stats.get_combo()
        >= game_state.config.combo_config.combo_trigger;
    if game_state.stats.get_errors() == 0 {
        if long_streak {
            Color::Cyan
        } else {
            Color::Green
        }
    } else if long_streak {
        Color::Blue
    } else {
        Color::Reset
    }
}

impl<'a> GameState<'a> {
    /// The input line as it is drawn, its last cell a block.
    pub fn get_display_ready_user_input(&self) -> (line: Vec<Span>)
        ensures
            cells(line@) == display_ready(cells(self.texts.input@)),
    {
        let input = &self.texts.input;
        let kept = if input.len() > 0 {
            input.len() - 1
        } else {
            0
        };
        let ghost wanted = cells(input@).take(kept as int);
        let mut line: Vec<Span> = Vec::new();
        let mut i: usize = 0;
        while i < kept
            invariant
                i <= kept <= input.len(),
                wanted == cells(input@).take(kept as int),
                cells(line@) == wanted.take(i as int),
            decreases kept - i,
        {
            let span = Span { content: input[i].content.clone(), style: input[i].style };
            proof {
                lemma_next_cell(line@, span, wanted, i as int);
            }
            line.push(span);
            i += 1;
        }
        let cursor = Span::raw("\u{2588}");
        proof {
            reveal_strlit("\u{2588}");
            assert("\u{2588}"@ =~= seq!['\u{2588}']);
            lemma_cells_push(line@, cursor);
        }
        line.push(cursor);
        line
    }
}

} // verus!
