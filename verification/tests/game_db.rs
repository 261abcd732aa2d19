use std::path::PathBuf;
use typeracer::game::game_db::{
    check_db_recreation, local_passage_path, roll_to_delete_mistaken_words_typed_correctly, round_record,
    select_words_to_forget, should_persist, DbRecreationError, MistakenWords, RoundRecord,
    ROLL_FACES, YOUNG_FROM_SECS,
};
use typeracer::game::GameMode;
use typeracer::stats::Stats;
use typeracer::passage_controller::PassageInfo;

const MAIN_PACK_DIR: &str = "/home/darrien/.local/share/typeracer/lang-packs";

fn passage_at(path: &str) -> PassageInfo {
    PassageInfo {
        passage: "text".to_owned(),
        title: "title".to_owned(),
        passage_path: path.to_owned(),
    }
}

#[test]
fn properly_trims_to_local_path() {
    let quote_dir = PathBuf::new().join(MAIN_PACK_DIR);

    assert_eq!(
        local_passage_path(
            quote_dir
                .join("/default/b7448c1c-c70b-4183-86f9-94049376926e")
                .to_string_lossy()
                .into_owned(),
            MAIN_PACK_DIR
        ),
        "/default/b7448c1c-c70b-4183-86f9-94049376926e"
    );

    assert_eq!(
        local_passage_path(
            quote_dir
                .join("/default/itsnotover/broooooooo/extrapaths")
                .to_string_lossy()
                .into_owned(),
            MAIN_PACK_DIR
        ),
        "/default/itsnotover/broooooooo/extrapaths"
    );
}

#[test]
fn local_path_drops_the_pack_directory_in_front() {
    assert_eq!(
        local_passage_path(
            "/home/darrien/.local/share/typeracer/lang-packs/default/1.txt".to_owned(),
            MAIN_PACK_DIR
        ),
        "/default/1.txt"
    );
    // Every copy in front goes, none further back.
    assert_eq!(local_passage_path("ababcab".to_owned(), "ab"), "cab");
    assert_eq!(local_passage_path("abab".to_owned(), "ab"), "");
    assert_eq!(local_passage_path("abc".to_owned(), ""), "abc");
    assert_eq!(local_passage_path("ab".to_owned(), "abc"), "ab");
    assert_eq!(local_passage_path("".to_owned(), "abc"), "");
}

#[test]
fn own_text_and_fallback_are_not_persisted() {
    assert!(!should_persist(&passage_at("User input")));
    assert!(!should_persist(&passage_at("FALLBACK_PATH")));
    assert!(should_persist(&passage_at("/default/1.txt")));
    assert!(should_persist(&passage_at("TRAINING_MODE_PATH")));
    assert!(should_persist(&passage_at("")));
    assert!(should_persist(&passage_at("user input")));
}

#[test]
fn mistaken_words_hold_each_word_once() {
    let mut mistaken = MistakenWords::new();
    assert_eq!(mistaken.len(), 0);
    assert!(!mistaken.contains("fox"));
    assert!(mistaken.insert("fox"));
    assert!(mistaken.insert("dog"));
    assert!(!mistaken.insert("fox"));
    assert_eq!(mistaken.len(), 2);
    assert!(mistaken.contains("fox"));
    assert!(mistaken.contains("dog"));
    assert!(!mistaken.contains("do"));
    assert_eq!(mistaken.words(), &vec!["fox".to_owned(), "dog".to_owned()]);
}

#[test]
fn one_face_in_three_forgets_a_correctly_typed_word() {
    assert_eq!(ROLL_FACES, 3);
    let words = vec!["the", "quick", "brown", "fox", "the"];
    let mut mistaken = MistakenWords::new();
    mistaken.insert("quick");
    // "quick" was mistyped and stays whatever its roll; a 0 forgets, 1 and 2 keep.
    let gone = select_words_to_forget(&words, &mistaken, &[0, 0, 0, 1, 2]);
    assert_eq!(gone, vec!["the".to_owned(), "brown".to_owned()]);
    let gone = select_words_to_forget(&words, &mistaken, &[0, 2, 1, 2, 0]);
    assert_eq!(gone, vec!["the".to_owned(), "the".to_owned()]);
    let gone = select_words_to_forget(&words, &mistaken, &[1, 0, 2, 1, 2]);
    assert!(gone.is_empty());
    assert!(select_words_to_forget(&[], &mistaken, &[]).is_empty());
}

#[test]
fn rolling_never_forgets_a_word_mistyped_this_round() {
    let words = vec!["alpha", "beta", "gamma", "delta"];
    let mut mistaken = MistakenWords::new();
    mistaken.insert("beta");
    mistaken.insert("delta");
    for _ in 0..200 {
        let gone = roll_to_delete_mistaken_words_typed_correctly(&words, &mistaken);
        assert!(gone.len() <= 2);
        assert!(gone.iter().all(|word| word == "alpha" || word == "gamma"));
        if gone.len() == 2 {
            assert_eq!(gone, vec!["alpha".to_owned(), "gamma".to_owned()]);
        }
    }
}

#[test]
fn rolling_forgets_about_a_third_of_the_correctly_typed_words() {
    let words: Vec<&str> = std::iter::repeat("word").take(30_000).collect();
    let mistaken = MistakenWords::new();
    let gone = roll_to_delete_mistaken_words_typed_correctly(&words, &mistaken);
    let share = gone.len() as f64 / words.len() as f64;
    assert!(share > 0.30 && share < 0.36, "share was {}", share);
}

#[test]
fn rolling_forgets_one_word_in_three_not_33_in_a_hundred() {
    // Over three million rolls the share of forgotten words lies within
    // five standard deviations of a third; 0.33 lies more than twelve away.
    let words: Vec<&str> = std::iter::repeat("w").take(3_000_000).collect();
    let mistaken = MistakenWords::new();
    let gone = roll_to_delete_mistaken_words_typed_correctly(&words, &mistaken);
    let share = gone.len() as f64 / words.len() as f64;
    assert!(share > 0.33197 && share < 0.33470, "share was {}", share);
}

#[test]
fn only_an_old_file_is_recreated() {
    assert_eq!(YOUNG_FROM_SECS, 1672444800);
    assert_eq!(check_db_recreation(false, Some(0)), Ok(()));
    assert_eq!(check_db_recreation(false, Some(1672444799)), Ok(()));
    assert_eq!(
        check_db_recreation(false, Some(1672444800)),
        Err(DbRecreationError::DbTooYoung)
    );
    assert_eq!(
        check_db_recreation(false, Some(u64::MAX)),
        Err(DbRecreationError::DbTooYoung)
    );
    assert_eq!(check_db_recreation(false, None), Err(DbRecreationError::Failure));
    assert_eq!(check_db_recreation(true, Some(0)), Err(DbRecreationError::DbNotAFile));
    assert_eq!(check_db_recreation(true, None), Err(DbRecreationError::DbNotAFile));
}

#[test]
fn recreation_errors_are_told_apart() {
    assert_ne!(DbRecreationError::Failure, DbRecreationError::DbTooYoung);
    assert_ne!(DbRecreationError::DbTooYoung, DbRecreationError::DbNotAFile);
    assert_eq!(format!("{:?}", DbRecreationError::DbNotAFile), "DbNotAFile");
}

#[test]
fn a_round_is_recorded_by_speed_accuracy_and_streak() {
    let mut stats = Stats::new(true);
    stats.update_start_time_at(501);
    stats.increment_combo(0);
    stats.increment_combo(1);
    stats.increment_errors(2);
    stats.increment_combo(2);
    stats.update_wpm_at(510, 4, &[]);
    let passage = PassageInfo {
        passage: "él zorro".to_owned(),
        title: "title".to_owned(),
        passage_path: format!("{}/default/7.txt", MAIN_PACK_DIR),
    };
    assert_eq!(
        round_record(&stats, &passage, GameMode::InstantDeath, MAIN_PACK_DIR),
        Some(RoundRecord {
            passage: "/default/7.txt".to_owned(),
            passage_len: 9,
            wpm: 24,
            clean_slots: 2,
            seen_slots: 3,
            highest_combo: 2,
            game_mode: 1,
        })
    );
    assert_eq!(
        round_record(&stats, &passage_at("User input"), GameMode::Default, MAIN_PACK_DIR),
        None
    );
    assert_eq!(
        round_record(&stats, &passage_at("FALLBACK_PATH"), GameMode::Default, MAIN_PACK_DIR),
        None
    );
    let training = round_record(&stats, &passage_at("TRAINING_MODE_PATH"), GameMode::Training, "")
        .unwrap();
    assert_eq!(training.passage, "TRAINING_MODE_PATH");
    assert_eq!(training.game_mode, 2);
}
