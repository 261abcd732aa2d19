use rand::Rng;
use typeracer::actions::Action;
use typeracer::config::{LangPacks, TyperacerConfig};
use typeracer::passage_controller::{
    dir_and_parent, fallback_passage, is_pack_dir, passage_from_lines, training_passage,
    Controller, PassageInfo,
};

// Since we aren't working with real passages, we need some source of randomness
// The chance that two of these collide is close enough to zero that we can assume they
// will always be different.
fn get_new_passage() -> PassageInfo {
    PassageInfo {
        passage: format!("{}", rand::thread_rng().gen_range(0..10_000_000)),
        title: format!("{}", rand::thread_rng().gen_range(0..10_000_000)),
        passage_path: format!("{}", rand::thread_rng().gen_range(0..10_000_000)),
    }
}

fn fresh_for(controller: &Controller, action: Action) -> Option<PassageInfo> {
    if controller.needs_new_passage(action) {
        Some(get_new_passage())
    } else {
        None
    }
}

fn retrieve(controller: &mut Controller, action: Action) -> PassageInfo {
    let fresh = fresh_for(controller, action);
    controller.retrieve_passage(action, fresh).unwrap().clone()
}

fn retrieve_next(controller: &mut Controller) -> PassageInfo {
    let fresh = fresh_for(controller, Action::NextPassage);
    controller.retrieve_next_passage(fresh).clone()
}

fn numbered(n: usize) -> PassageInfo {
    PassageInfo {
        passage: format!("passage {}", n),
        title: format!("title {}", n),
        passage_path: format!("path {}", n),
    }
}

#[test]
fn test_get_next_passage_overwrite() {
    // Check to see if we keep asking for next passages they're always valid
    // History of 5 so we can loop through history multiple times
    let default = Default::default();
    let mut passage_controller = Controller::new(5, &default);
    for _ in 0..4000 {
        retrieve_next(&mut passage_controller);
    }

    // And ensure the size is still 5
    assert!(passage_controller.filled_count() == 5);
}

#[test]
fn test_get_vastly_previous_passage() {
    // Check to make sure we can keep asking for previous passages and they're always valid
    let default = Default::default();
    let mut passage_controller = Controller::new(5, &default);
    retrieve_next(&mut passage_controller);
    let mut previous_passage = passage_controller.retrieve_previous_passage().unwrap().clone();
    for _ in 0..4000 {
        let passage = passage_controller.retrieve_previous_passage().unwrap().clone();
        assert!(passage == previous_passage);
        previous_passage = passage;
    }
}

#[test]
fn test_verify_history_integrity() {
    let default = Default::default();
    let mut passage_controller = Controller::new(5, &default);
    retrieve_next(&mut passage_controller);
    let passage0 = retrieve(&mut passage_controller, Action::PreviousPassage);
    let passage1 = retrieve(&mut passage_controller, Action::NextPassage);
    let passage2 = retrieve(&mut passage_controller, Action::NextPassage);

    // Check going backwards and forwards
    assert!(passage1 == retrieve(&mut passage_controller, Action::PreviousPassage));
    assert!(passage0 == retrieve(&mut passage_controller, Action::PreviousPassage));
    assert!(passage1 == retrieve(&mut passage_controller, Action::NextPassage));
    assert!(passage2 == retrieve(&mut passage_controller, Action::NextPassage));

    let passage3 = retrieve(&mut passage_controller, Action::NextPassage);
    let passage4 = retrieve(&mut passage_controller, Action::NextPassage);

    // Make sure the passages are unique
    assert!(passage0 != passage1);
    assert!(passage1 != passage2);
    assert!(passage2 != passage3);
    assert!(passage3 != passage4);

    // Ensure we start overwriting old history when we roll past the history limit
    assert!(passage0 != retrieve(&mut passage_controller, Action::NextPassage));
    assert!(passage1 != retrieve(&mut passage_controller, Action::NextPassage));
    assert!(passage2 != retrieve(&mut passage_controller, Action::NextPassage));
    assert!(passage3 != retrieve(&mut passage_controller, Action::NextPassage));
    assert!(passage4 != retrieve(&mut passage_controller, Action::NextPassage));
}

#[test]
fn test_verify_restart() {
    let default = Default::default();
    let mut passage_controller = Controller::new(5, &default);
    retrieve_next(&mut passage_controller);

    // restarting on the initial passage doesn't break and gives the correct passage
    let passage0 = retrieve(&mut passage_controller, Action::PreviousPassage);
    let passage0_restart = retrieve(&mut passage_controller, Action::RestartPassage);
    assert_eq!(passage0, passage0_restart);

    // can move forwards and restart then skip some and restart a previous one
    let passage0 = retrieve(&mut passage_controller, Action::NextPassage);
    let passage0_restart = retrieve(&mut passage_controller, Action::RestartPassage);
    let _ = retrieve(&mut passage_controller, Action::NextPassage);
    let passage2 = retrieve(&mut passage_controller, Action::PreviousPassage);
    let passage2_restart = retrieve(&mut passage_controller, Action::RestartPassage);
    assert_eq!(passage0, passage0_restart);
    assert_eq!(passage2, passage2_restart);
}

#[test]
fn slots_fill_one_by_one_up_to_the_capacity() {
    let default = TyperacerConfig::default();
    let mut controller = Controller::new(5, &default);
    assert_eq!(controller.capacity(), 5);
    assert_eq!(controller.filled_count(), 0);
    for n in 1..=12 {
        assert!(controller.needs_new_passage(Action::NextPassage));
        let served = controller.retrieve_next_passage(Some(numbered(n))).clone();
        assert_eq!(served, numbered(n));
        assert_eq!(controller.filled_count(), n.min(5));
    }
}

#[test]
fn an_empty_history_serves_nothing_but_the_next_passage() {
    let default = TyperacerConfig::default();
    let mut controller = Controller::new(3, &default);
    assert!(controller.current().is_none());
    assert!(controller.retrieve_passage(Action::PreviousPassage, None).is_none());
    assert!(controller.retrieve_passage(Action::RestartPassage, None).is_none());
    assert!(controller.retrieve_passage(Action::Quit, None).is_none());
    assert_eq!(controller.filled_count(), 0);
    let first = controller.retrieve_passage(Action::NextPassage, Some(numbered(1))).unwrap().clone();
    assert_eq!(first, numbered(1));
    assert_eq!(controller.current().unwrap(), &numbered(1));
}

#[test]
fn previous_stops_at_the_oldest_retained_passage() {
    let default = TyperacerConfig::default();
    let mut controller = Controller::new(3, &default);
    for n in 1..=5 {
        controller.retrieve_next_passage(Some(numbered(n)));
    }
    // 3, 4 and 5 are retained.
    assert_eq!(controller.retrieve_previous_passage().unwrap(), &numbered(4));
    assert_eq!(controller.retrieve_previous_passage().unwrap(), &numbered(3));
    for _ in 0..10 {
        assert_eq!(controller.retrieve_previous_passage().unwrap(), &numbered(3));
    }
    // Going forward replays what is retained and asks for nothing new.
    assert!(!controller.needs_new_passage(Action::NextPassage));
    assert_eq!(controller.retrieve_next_passage(None), &numbered(4));
    assert!(!controller.needs_new_passage(Action::NextPassage));
    assert_eq!(controller.retrieve_next_passage(None), &numbered(5));
    assert!(controller.needs_new_passage(Action::NextPassage));
    assert_eq!(controller.retrieve_next_passage(Some(numbered(6))), &numbered(6));
    assert_eq!(controller.filled_count(), 3);
}

#[test]
fn only_next_ever_needs_a_new_passage() {
    let default = TyperacerConfig::default();
    let mut controller = Controller::new(2, &default);
    assert!(!controller.needs_new_passage(Action::PreviousPassage));
    assert!(!controller.needs_new_passage(Action::RestartPassage));
    assert!(!controller.needs_new_passage(Action::Quit));
    controller.retrieve_next_passage(Some(numbered(1)));
    assert!(!controller.needs_new_passage(Action::PreviousPassage));
    // A passage handed over without need is dropped.
    let again = controller.retrieve_passage(Action::RestartPassage, Some(numbered(9))).unwrap().clone();
    assert_eq!(again, numbered(1));
    assert_eq!(controller.filled_count(), 1);
}

#[test]
fn capacity_of_one_always_replaces() {
    let default = TyperacerConfig::default();
    let mut controller = Controller::new(1, &default);
    for n in 1..=4 {
        assert!(controller.needs_new_passage(Action::NextPassage));
        assert_eq!(controller.retrieve_next_passage(Some(numbered(n))), &numbered(n));
        assert_eq!(controller.retrieve_previous_passage().unwrap(), &numbered(n));
        assert_eq!(controller.filled_count(), 1);
    }
}

#[test]
fn the_players_own_text_is_served_first() {
    let default = TyperacerConfig::default();
    let mut controller = Controller::new(5, &default);
    controller.write_initial_passage("my own text");
    let own = PassageInfo {
        passage: "my own text".to_owned(),
        title: "User input".to_owned(),
        passage_path: "User input".to_owned(),
    };
    assert_eq!(controller.filled_count(), 1);
    let first = retrieve(&mut controller, Action::NextPassage);
    assert_eq!(first, own);
    assert_eq!(controller.filled_count(), 2);
    let second = retrieve(&mut controller, Action::NextPassage);
    assert!(second != own);
    assert_eq!(retrieve(&mut controller, Action::PreviousPassage), own);
}

#[test]
fn own_text_without_a_free_slot_is_dropped() {
    let default = TyperacerConfig::default();
    let mut controller = Controller::new(1, &default);
    controller.write_initial_passage("first");
    controller.write_initial_passage("second");
    assert_eq!(controller.filled_count(), 1);
    assert!(!controller.needs_new_passage(Action::NextPassage));
    assert_eq!(controller.retrieve_next_passage(None).passage, "first");
}

#[test]
fn controller_keeps_its_settings() {
    let default = TyperacerConfig::default();
    let controller = Controller::new(default.history_size, &default);
    assert_eq!(controller.config().history_size, 50);
    assert_eq!(controller.capacity(), 50);
}

#[test]
fn passage_files_have_passage_and_title_lines() {
    let lines = vec!["  It was the best of times.  ".to_owned(), "A Tale".to_owned(), "x".to_owned()];
    let passage = passage_from_lines(&lines, "/packs/default/1");
    assert_eq!(passage.passage, "It was the best of times.");
    assert_eq!(passage.title, "A Tale");
    assert_eq!(passage.passage_path, "/packs/default/1");
}

#[test]
fn short_passage_files_give_the_fallback() {
    let fallback = fallback_passage();
    assert_eq!(fallback.passage, "The quick brown fox jumps over the lazy dog");
    assert_eq!(fallback.title, "darrienglasser.com");
    assert_eq!(fallback.passage_path, "FALLBACK_PATH");
    assert_eq!(passage_from_lines(&vec![], "/p"), fallback);
    assert_eq!(passage_from_lines(&vec!["only one line".to_owned()], "/p"), fallback);
}

#[test]
fn training_passage_joins_the_chosen_words() {
    let chosen = vec!["alpha".to_owned(), "beta".to_owned(), "gamma".to_owned()];
    let passage = training_passage(&chosen);
    assert_eq!(passage.passage, "alpha beta gamma");
    assert_eq!(passage.title, "Mistaken Words");
    assert_eq!(passage.passage_path, "TRAINING_MODE_PATH");
}

#[test]
fn training_without_mistaken_words_invites_to_play() {
    let default = TyperacerConfig::default();
    let mut controller = Controller::new(5, &default);
    let passage = controller.retrieve_mistaken_words_passage(&vec![]);
    assert_eq!(
        passage.passage,
        "You don't have any mistaken words! Play the default game mode for a while and make some mistakes!"
    );
    assert_eq!(passage.title, "Mistaken Words");
    assert_eq!(passage.passage_path, "TRAINING_MODE_PATH");
    assert_eq!(training_passage(&vec![]), passage);
}

#[test]
fn training_picks_up_to_25_different_words() {
    let default = TyperacerConfig::default();
    let mut controller = Controller::new(5, &default);
    let words: Vec<String> = (0..40).map(|n| format!("word{}", n)).collect();
    let mut orders = std::collections::HashSet::new();
    for _ in 0..20 {
        let passage = controller.retrieve_mistaken_words_passage(&words);
        let picked: Vec<&str> = passage.passage.split(' ').collect();
        assert_eq!(picked.len(), 25);
        let different: std::collections::HashSet<&str> = picked.iter().cloned().collect();
        assert_eq!(different.len(), 25);
        assert!(picked.iter().all(|word| words.iter().any(|known| known == word)));
        orders.insert(passage.passage.clone());
    }
    // The pick is random: twenty picks are not all the same.
    assert!(orders.len() > 1);
    let few: Vec<String> = vec!["one".to_owned(), "two".to_owned()];
    let passage = controller.retrieve_mistaken_words_passage(&few);
    assert!(passage.passage == "one two" || passage.passage == "two one");
    assert_eq!(controller.filled_count(), 0);
}

#[test]
fn a_pack_is_named_by_its_directory_and_parent() {
    assert_eq!(dir_and_parent("/home/me/packs/extra/default", '/'), Some("extra/default"));
    assert_eq!(dir_and_parent("extra/default", '/'), Some("extra/default"));
    assert_eq!(dir_and_parent("/default", '/'), Some("/default"));
    assert_eq!(dir_and_parent("a//b", '/'), Some("/b"));
    assert_eq!(dir_and_parent("a/b/", '/'), Some("b/"));
    assert_eq!(dir_and_parent("default", '/'), None);
    assert_eq!(dir_and_parent("", '/'), None);
    assert_eq!(dir_and_parent("c:\\packs\\default", '\\'), Some("packs\\default"));
}

#[test]
fn version_file_and_repository_data_are_no_packs() {
    assert!(!is_pack_dir("version"));
    assert!(!is_pack_dir(".git"));
    assert!(is_pack_dir("default"));
    assert!(is_pack_dir("versions"));
    assert!(is_pack_dir(""));
}

#[test]
fn a_passage_file_is_picked_among_those_there() {
    let default = TyperacerConfig::default();
    let controller = Controller::new(5, &default);
    assert_eq!(controller.pick_passage_file(0), None);
    assert_eq!(controller.pick_passage_file(1), Some(0));
    let mut seen = [false; 4];
    for _ in 0..400 {
        seen[controller.pick_passage_file(4).unwrap()] = true;
    }
    assert_eq!(seen, [true; 4]);
}

#[test]
fn the_controller_draws_from_the_enabled_packs() {
    let config = TyperacerConfig {
        lang_packs: Some(LangPacks {
            whitelisted: None,
            blacklisted: Some(vec!["tub".to_owned()]),
        }),
        ..Default::default()
    };
    let controller = Controller::new(5, &config);
    assert!(!controller.draws_from("tub"));
    assert!(controller.draws_from("default"));
}

#[test]
fn pack_names_are_listed_in_order() {
    let config = TyperacerConfig {
        lang_packs: Some(LangPacks {
            whitelisted: None,
            blacklisted: Some(vec!["tub".to_owned(), "extra/golang".to_owned()]),
        }),
        ..Default::default()
    };
    let controller = Controller::new(5, &config);
    let names: Vec<String> = ["tub", "default", "extra/rust", "Default", "extra/golang", "default"]
        .iter()
        .map(|name| name.to_string())
        .collect();
    let (enabled, all) = controller.get_quote_dir_shortnames(&names);
    assert_eq!(enabled, vec!["Default", "default", "default", "extra/rust"]);
    assert_eq!(
        all,
        vec!["Default", "default", "default", "extra/golang", "extra/rust", "tub"]
    );
    let (enabled, all) = controller.get_quote_dir_shortnames(&vec![]);
    assert!(enabled.is_empty());
    assert!(all.is_empty());
}
