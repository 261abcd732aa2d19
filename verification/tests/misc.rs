use typeracer::actions::Action;
use typeracer::config::{ExtraRepo, TyperacerConfig};
use typeracer::game::GameMode;
use typeracer::graphs::{
    current_mode, decrement_current_mode, graph_title, increment_current_mode, Mode, MODE_COUNT,
};
use typeracer::info::{
    dirty_commit, get_info_bounds, get_info_margin, get_version_string, screen_size, ScreenSize,
};
use typeracer::lang_pack::{check_proper_version, get_cleaned_repos_string, get_extra_repos_string};
use typeracer::term_check::{need_input, Rect};
use typeracer::text::{
    char_is_whitespace, chars_eq, chars_of, decimal, name_le, sorted_names, starts_at, str_eq,
    strip_leading_matches, trim,
};

#[test]
fn test_need_input() {
    // Check with matching values
    assert!(!need_input(Rect::new(0, 0, 30, 80), 30, 80));

    // Check with one lower height but higher width
    assert!(need_input(Rect::new(0, 0, 29, 82), 30, 80));

    // Check with higher width, but lower height
    assert!(need_input(Rect::new(0, 0, 31, 79), 30, 80));

    // Check with higher recommended width, but lower recommended height
    assert!(need_input(Rect::new(0, 0, 30, 80), 29, 81));

    // Check with higher recommended height, but lower recommended height
    assert!(need_input(Rect::new(0, 0, 30, 80), 31, 79));
}

#[test]
fn game_modes_go_round_in_a_ring() {
    assert_eq!(GameMode::Default.next(), GameMode::InstantDeath);
    assert_eq!(GameMode::InstantDeath.next(), GameMode::Training);
    assert_eq!(GameMode::Training.next(), GameMode::Default);
    assert_eq!(GameMode::Default.prev(), GameMode::Training);
    assert_eq!(GameMode::Training.prev(), GameMode::InstantDeath);
    assert_eq!(GameMode::InstantDeath.prev(), GameMode::Default);
    for mode in [GameMode::Default, GameMode::InstantDeath, GameMode::Training] {
        assert_eq!(mode.next().prev(), mode);
        assert_eq!(mode.prev().next(), mode);
    }
}

#[test]
fn game_modes_are_stored_as_numbers() {
    assert_eq!(i64::from(GameMode::Default), 0);
    assert_eq!(i64::from(GameMode::InstantDeath), 1);
    assert_eq!(i64::from(GameMode::Training), 2);
    assert_eq!(GameMode::from(0), GameMode::Default);
    assert_eq!(GameMode::from(1), GameMode::InstantDeath);
    assert_eq!(GameMode::from(2), GameMode::Training);
    assert_eq!(GameMode::from(3), GameMode::Default);
    assert_eq!(GameMode::from(-1), GameMode::Default);
}

#[test]
fn game_modes_have_names() {
    assert_eq!(GameMode::Default.label(), "Default");
    assert_eq!(GameMode::InstantDeath.label(), "Instant Death");
    assert_eq!(GameMode::Training.label(), "Training");
}

#[test]
fn actions_are_told_apart() {
    assert_ne!(Action::NextPassage, Action::PreviousPassage);
    assert_ne!(Action::RestartPassage, Action::Quit);
    assert_eq!(Action::Quit, Action::Quit);
}

#[test]
fn graphs_are_paged_through_in_a_ring() {
    assert_eq!(MODE_COUNT, 3);
    assert_eq!(increment_current_mode(0), 1);
    assert_eq!(increment_current_mode(1), 2);
    assert_eq!(increment_current_mode(2), 0);
    assert_eq!(decrement_current_mode(0), 2);
    assert_eq!(decrement_current_mode(2), 1);
    assert_eq!(decrement_current_mode(1), 0);
    assert_eq!(current_mode(0), Mode::Wpm);
    assert_eq!(current_mode(1), Mode::Accuracy);
    assert_eq!(current_mode(2), Mode::Combo);
}

#[test]
fn graphs_have_titles() {
    assert_eq!(graph_title(&Mode::Wpm), "WPM");
    assert_eq!(graph_title(&Mode::Accuracy), "Accuracy");
    assert_eq!(graph_title(&Mode::Combo), "Combo");
}

#[test]
fn info_layout_goes_by_height() {
    assert_eq!(screen_size(0), ScreenSize::Small);
    assert_eq!(screen_size(24), ScreenSize::Small);
    assert_eq!(screen_size(25), ScreenSize::Medium);
    assert_eq!(screen_size(32), ScreenSize::Medium);
    assert_eq!(screen_size(33), ScreenSize::Large);
    assert_eq!(get_info_margin(24), 1);
    assert_eq!(get_info_margin(25), 3);
    assert_eq!(get_info_margin(32), 3);
    assert_eq!(get_info_margin(33), 5);
    assert_eq!(get_info_margin(u16::MAX), 5);
    assert_eq!(get_info_bounds(10), [0, 50, 10, 40]);
    assert_eq!(get_info_bounds(30), [15, 45, 10, 30]);
    assert_eq!(get_info_bounds(60), [20, 40, 10, 30]);
}

#[test]
fn version_line() {
    assert_eq!(get_version_string("1.4.2"), " - version 1.4.2\n");
    assert!(!dirty_commit(" - version 1.4.2\n"));
}

#[test]
fn extra_repos_are_announced_by_their_number() {
    let mut config = TyperacerConfig::default();
    assert_eq!(get_extra_repos_string(&config), "");
    for n in 0..12 {
        config.extra_repos.push(ExtraRepo {
            version: "v1".to_owned(),
            url: format!("https://example.org/{}.git", n),
            name: format!("pack{}", n),
        });
    }
    assert_eq!(
        get_extra_repos_string(&config),
        "Downloading [12] extra user configured repos...\n"
    );
}

#[test]
fn cleaning_is_reported() {
    assert_eq!(get_cleaned_repos_string(true), "Successfully deleted old repos!\n");
    assert_eq!(
        get_cleaned_repos_string(false),
        "Issue deleting old repos. Try again later.\n"
    );
}

#[test]
fn version_files_name_the_version_on_their_first_line() {
    let lines = vec![" lang-0.3 ".to_owned(), "2020-05-01".to_owned()];
    assert!(check_proper_version("lang-0.3", &lines));
    assert!(!check_proper_version("lang-0.4", &lines));
    // A version file of one line is taken as broken.
    assert!(!check_proper_version("lang-0.3", &vec!["lang-0.3".to_owned()]));
    assert!(!check_proper_version("lang-0.3", &vec![]));
}

#[test]
fn whitespace_is_what_the_standard_library_says() {
    for code in 0..0x3100u32 {
        if let Some(c) = char::from_u32(code) {
            assert_eq!(char_is_whitespace(c), c.is_whitespace(), "at {:#x}", code);
        }
    }
    assert!(!char_is_whitespace('\u{feff}'));
    assert!(!char_is_whitespace('\u{10ffff}'));
}

#[test]
fn trimming_agrees_with_the_standard_library() {
    for text in ["", " ", "  a b  ", "\t\nword", "word\u{3000}", "é", " \u{a0}x\u{2003} "] {
        assert_eq!(trim(text), text.trim());
    }
}

#[test]
fn stripping_agrees_with_the_standard_library() {
    for (text, prefix) in [("aaab", "a"), ("aaab", "aa"), ("b", "a"), ("", "a"), ("ab", ""), ("éé!", "é")] {
        assert_eq!(strip_leading_matches(text, prefix), text.trim_start_matches(prefix));
    }
}

#[test]
fn characters_and_equality() {
    assert_eq!(chars_of("é你a"), vec!['é', '你', 'a']);
    assert!(chars_of("").is_empty());
    assert!(str_eq("", ""));
    assert!(str_eq("你好", "你好"));
    assert!(!str_eq("你好", "你"));
    assert!(!str_eq("abc", "abd"));
    assert!(chars_eq(&vec!['a'], &vec!['a']));
    assert!(!chars_eq(&vec!['a'], &vec!['a', 'b']));
    let text = chars_of("hello");
    assert!(starts_at(&text, 2, &chars_of("llo")));
    assert!(!starts_at(&text, 3, &chars_of("llo")));
    assert!(starts_at(&text, 5, &chars_of("")));
    assert!(!starts_at(&text, 4, &chars_of("oo")));
}

#[test]
fn numbers_in_decimal() {
    assert_eq!(decimal(0), "0");
    assert_eq!(decimal(9), "9");
    assert_eq!(decimal(10), "10");
    assert_eq!(decimal(1234567890), "1234567890");
    assert_eq!(decimal(u64::MAX as u128), u64::MAX.to_string());
    assert_eq!(decimal(u128::MAX), u128::MAX.to_string());
}

#[test]
fn names_are_ordered_as_the_standard_library_orders_strings() {
    let names = ["", "a", "ab", "b", "B", "é", "e\u{301}", "你", "z", "{", "ab ", "\u{10ffff}", "\u{ffff}"];
    for a in names.iter() {
        for b in names.iter() {
            assert_eq!(name_le(a, b), a <= b, "{:?} and {:?}", a, b);
        }
    }
    let unsorted: Vec<String> = names.iter().rev().map(|name| name.to_string()).collect();
    let mut expected = unsorted.clone();
    expected.sort();
    assert_eq!(sorted_names(&unsorted), expected);
    let doubled: Vec<String> = vec!["b".to_owned(), "a".to_owned(), "b".to_owned()];
    assert_eq!(sorted_names(&doubled), vec!["a", "b", "b"]);
    assert!(sorted_names(&vec![]).is_empty());
}
