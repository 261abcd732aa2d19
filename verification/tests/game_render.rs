use typeracer::config::TyperacerConfig;
use typeracer::game::formatter::{Color, FormattedTexts, Span, Style};
use typeracer::game::game_db::MistakenWords;
use typeracer::game::game_render::{
    get_border_style, get_stats_bounds, get_typing_bounds, instant_death_border_style,
    regular_border_style, spicy_colors_style, BorderStyle, GameState,
};
use typeracer::game::GameMode;
use typeracer::stats::Stats;

fn texts_with_input(input: Vec<Span>, error: bool) -> FormattedTexts {
    FormattedTexts {
        passage: vec![],
        input,
        error,
        complete: false,
    }
}

fn border(game_mode: GameMode, simple_borders: bool, errors: usize, combo: usize) -> BorderStyle {
    let mut config = TyperacerConfig::default();
    config.display_settings.simple_borders = simple_borders;
    config.combo_config.combo_trigger = 3;
    let mut stats = Stats::new(false);
    for _ in 0..errors {
        stats.increment_errors(0);
    }
    for _ in 0..combo {
        stats.increment_combo(0);
    }
    let texts = texts_with_input(vec![], false);
    let mistaken_words = MistakenWords::new();
    let state = GameState {
        texts: &texts,
        user_input: "",
        stats: &stats,
        title: "title",
        game_mode,
        config: &config,
        debug_enabled: false,
        word_idx: 0,
        passage_path: "path",
        current_word: "word",
        mistaken_words: &mistaken_words,
        complete: false,
    };
    let style = get_border_style(&state);
    if game_mode == GameMode::InstantDeath {
        assert_eq!(style, instant_death_border_style(&state));
    } else {
        assert_eq!(style, regular_border_style(&state));
        if !simple_borders {
            assert_eq!(style.color, spicy_colors_style(&state));
        }
    }
    style
}

fn plain(color: Color) -> BorderStyle {
    BorderStyle { color, bold: false }
}

#[test]
fn regular_borders_follow_the_score() {
    assert_eq!(border(GameMode::Default, false, 0, 0), plain(Color::Green));
    assert_eq!(border(GameMode::Default, false, 0, 2), plain(Color::Green));
    assert_eq!(border(GameMode::Default, false, 0, 3), plain(Color::Cyan));
    assert_eq!(border(GameMode::Default, false, 1, 2), plain(Color::Reset));
    assert_eq!(border(GameMode::Default, false, 1, 3), plain(Color::Blue));
    assert_eq!(border(GameMode::Training, false, 2, 5), plain(Color::Blue));
}

#[test]
fn simple_borders_keep_to_one_colour() {
    assert_eq!(border(GameMode::Default, true, 0, 0), plain(Color::Reset));
    assert_eq!(border(GameMode::Default, true, 0, 9), plain(Color::Reset));
    assert_eq!(border(GameMode::Training, true, 4, 9), plain(Color::Reset));
}

#[test]
fn instant_death_borders_are_red_and_magenta_on_a_streak() {
    assert_eq!(border(GameMode::InstantDeath, false, 0, 0), plain(Color::Red));
    assert_eq!(border(GameMode::InstantDeath, false, 0, 3), plain(Color::Magenta));
    // Simple borders make no difference where the first error is fatal.
    assert_eq!(border(GameMode::InstantDeath, true, 0, 2), plain(Color::Red));
    assert_eq!(border(GameMode::InstantDeath, true, 0, 4), plain(Color::Magenta));
}

#[test]
fn layout_goes_by_height() {
    assert_eq!(get_typing_bounds(24), [0, 0, 70, 30]);
    assert_eq!(get_typing_bounds(25), [0, 20, 50, 30]);
    assert_eq!(get_typing_bounds(32), [0, 20, 50, 30]);
    assert_eq!(get_typing_bounds(33), [0, 30, 40, 30]);
    assert_eq!(get_stats_bounds(0), [0, 0, 100]);
    assert_eq!(get_stats_bounds(30), [20, 0, 80]);
    assert_eq!(get_stats_bounds(100), [10, 20, 70]);
}

#[test]
fn the_input_line_ends_in_a_block() {
    let config = TyperacerConfig::default();
    let stats = Stats::new(false);
    let mistaken_words = MistakenWords::new();
    let green = Style::default().fg(Color::Green);
    let cases = vec![
        (vec![], vec![Span::raw("\u{2588}")]),
        (
            vec![Span::styled(" ", Style::default().bg(Color::Blue))],
            vec![Span::raw("\u{2588}")],
        ),
        (
            vec![
                Span::styled("a", green),
                Span::styled("b", green),
                Span::styled(" ", Style::default().bg(Color::Blue)),
            ],
            vec![Span::styled("a", green), Span::styled("b", green), Span::raw("\u{2588}")],
        ),
    ];
    for (input, expected) in cases {
        let texts = texts_with_input(input, false);
        let state = GameState {
            texts: &texts,
            user_input: "",
            stats: &stats,
            title: "title",
            game_mode: GameMode::Default,
            config: &config,
            debug_enabled: false,
            word_idx: 0,
            passage_path: "path",
            current_word: "word",
            mistaken_words: &mistaken_words,
            complete: false,
        };
        assert_eq!(state.get_display_ready_user_input(), expected);
    }
}
