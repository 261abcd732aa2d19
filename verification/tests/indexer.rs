use typeracer::game::indexer::{
    check_like_word, check_word, get_maybe_decremented_idx, get_starting_idx,
    get_trying_letter_idx, maybe_account_for_space,
};
use typeracer::game::word_processing::GameMode;

#[test]
fn test_check_word() {
    assert!(check_word("darrien", "darrien"));
    assert!(!check_word("Darrien", "darrien"));
    assert!(!check_word("Darrien", "Glasser"));
}

#[test]
fn game_test_check_like_word() {
    // Normal case
    assert!(check_like_word("darrien", "darr"));

    // Full word
    assert!(check_like_word("darrien", "darrien"));

    // Input is longer than word to check
    assert!(!check_like_word("darrien", "darrienglasser.com"));

    // Case sensitivity
    assert!(!check_like_word("darrien", "Darrien"));
}

#[test]
fn test_get_starting_idx() {
    let words = vec!["this", "is", "a", "vector"];
    assert!(get_starting_idx(&GameMode::Latin, &words, 2) == 8);
    assert!(get_starting_idx(&GameMode::Latin, &words, 0) == 0);
    assert!(get_starting_idx(&GameMode::Latin, &words, 1) == 5);
}

#[test]
fn mod_test_check_like_word() {
    // Normal case
    assert!(check_like_word("darrien", "darr"));

    // Full word
    assert!(check_like_word("darrien", "darrien"));

    // Input is longer than word to check
    assert!(!check_like_word("darrien", "darrienglasser.com"));

    // Case sensitivity
    assert!(!check_like_word("darrien", "Darrien"));

    // Non-matching non-latin/Multibyte characters
    assert!(!check_like_word("你好", "好你"));

    // Matching non-latin/Multibyte characters
    assert!(check_like_word("你好", "你好"));
}

#[test]
fn test_get_starting_idx_latin() {
    let words = vec!["this", "is", "a", "vector"];
    assert!(get_starting_idx(&GameMode::Latin, &words, 2) == 8);
    assert!(get_starting_idx(&GameMode::Latin, &words, 0) == 0);
    assert!(get_starting_idx(&GameMode::Latin, &words, 1) == 5);
}

#[test]
fn get_starting_idx_nonlatin() {
    let words = vec!["你", "好", "你", "好", "你", "好"];

    assert!(get_starting_idx(&GameMode::NonLatin, &words, 2) == 2);
    assert!(get_starting_idx(&GameMode::NonLatin, &words, 0) == 0);
    assert!(get_starting_idx(&GameMode::NonLatin, &words, 5) == 5);
}

#[test]
fn test_get_trying_letter_index_good() {
    let words = vec!["the", "quick", "brown", "fox"];
    let current_word_idx = 1;
    let user_input = "qui";

    assert_eq!(
        get_trying_letter_idx(&GameMode::Latin, &words, current_word_idx, user_input),
        6
    );
}

#[test]
fn test_get_trying_letter_index_bad() {
    let words = vec!["the", "quick", "brown", "fox"];
    let current_word_idx = 1;
    let user_input = "quisssssssssss";

    // Should be trying (and failing) the next letter
    assert_eq!(
        get_trying_letter_idx(&GameMode::Latin, &words, current_word_idx, user_input),
        7
    );
}

#[test]
fn test_get_trying_letter_index_after_right() {
    let words = vec!["the", "quick", "brown", "fox"];
    let current_word_idx = 1;
    let user_input = "quisk";

    // Should not advance to the next character even though it's correct
    // because the previous is incorrect.
    assert_eq!(
        get_trying_letter_idx(&GameMode::Latin, &words, current_word_idx, user_input),
        7
    );
}

#[test]
fn ensure_empty_input_is_valid() {
    let word = "quick";
    let user_input = "";

    assert!(check_like_word(word, user_input));
}

#[test]
fn test_like_nonlatin() {
    let word = "你";
    let user_input = "你";

    assert!(check_like_word(word, user_input));
}

#[test]
fn test_unlike_nonlatin() {
    let word = "你";
    let user_input = "好";

    assert!(!check_like_word(word, user_input));
}

#[test]
fn like_word_goes_by_clusters_not_characters() {
    // "e" is the first character of "é" written with a combining accent,
    // but not its first cluster.
    assert!(!check_like_word("e\u{301}t\u{e9}", "e"));
    assert!(check_like_word("e\u{301}t\u{e9}", "e\u{301}"));
    assert!(check_like_word("e\u{301}t\u{e9}", "e\u{301}t"));
}

#[test]
fn input_against_empty_word() {
    assert!(check_like_word("", ""));
    assert!(!check_like_word("", "a"));
}

#[test]
fn starting_idx_past_the_end_stays_at_the_end() {
    let words = vec!["this", "is", "a", "vector"];
    assert_eq!(get_starting_idx(&GameMode::Latin, &words, 4), 17);
    assert_eq!(get_starting_idx(&GameMode::Latin, &words, 400), 17);
    assert_eq!(get_starting_idx(&GameMode::NonLatin, &words, 400), 13);
    let none: Vec<&str> = vec![];
    assert_eq!(get_starting_idx(&GameMode::Latin, &none, 0), 0);
    assert_eq!(get_starting_idx(&GameMode::Latin, &none, 3), 0);
}

#[test]
fn starting_idx_counts_characters_not_bytes() {
    let words = vec!["él", "zorro"];
    assert_eq!(get_starting_idx(&GameMode::Latin, &words, 1), 3);
}

#[test]
fn trying_letter_with_empty_input_is_the_start_of_the_unit() {
    let words = vec!["the", "quick", "brown", "fox"];
    assert_eq!(get_trying_letter_idx(&GameMode::Latin, &words, 2, ""), 10);
    // Past the last unit nothing is indexed.
    assert_eq!(get_trying_letter_idx(&GameMode::Latin, &words, 4, ""), 20);
}

#[test]
fn trying_letter_never_passes_the_last_typed_character() {
    let words = vec!["the", "quick"];
    assert_eq!(get_trying_letter_idx(&GameMode::Latin, &words, 1, "q"), 4);
    assert_eq!(get_trying_letter_idx(&GameMode::Latin, &words, 1, "quick"), 8);
    assert_eq!(get_trying_letter_idx(&GameMode::Latin, &words, 1, "quickly"), 9);
    assert_eq!(get_trying_letter_idx(&GameMode::Latin, &words, 1, "x"), 4);
    // Multi-byte input is counted in characters.
    let accented = vec!["ééé"];
    assert_eq!(get_trying_letter_idx(&GameMode::Latin, &accented, 0, "éé"), 1);
}

#[test]
fn decremented_idx_only_for_a_correct_new_wide_character() {
    assert_eq!(get_maybe_decremented_idx(&GameMode::NonLatin, false, true, 3), 2);
    assert_eq!(get_maybe_decremented_idx(&GameMode::NonLatin, true, true, 3), 3);
    assert_eq!(get_maybe_decremented_idx(&GameMode::NonLatin, false, false, 3), 3);
    assert_eq!(get_maybe_decremented_idx(&GameMode::NonLatin, false, true, 0), 0);
    assert_eq!(get_maybe_decremented_idx(&GameMode::Latin, false, true, 3), 3);
}

#[test]
fn separator_is_one_space_between_words_only() {
    assert_eq!(maybe_account_for_space(&GameMode::Latin), 1);
    assert_eq!(maybe_account_for_space(&GameMode::NonLatin), 0);
}
