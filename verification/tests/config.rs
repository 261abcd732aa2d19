use typeracer::config::validator::{validate_config, validate_lang_packs, ConfigError};
use typeracer::config::{
    construct_config, construct_display, contains_name, Display, ExtraRepo, LangPacks,
    RawDisplay, RawTyperacerConfig, TyperacerConfig,
};

fn empty_config() -> RawTyperacerConfig {
    RawTyperacerConfig {
        lang_packs: None,
        display_settings: None,
        repo: None,
        repo_version: None,
        extra_repos: None,
        history_size: None,
    }
}

fn with_packs(whitelisted: Option<Vec<String>>, blacklisted: Option<Vec<String>>) -> TyperacerConfig {
    TyperacerConfig {
        lang_packs: Some(LangPacks {
            whitelisted,
            blacklisted,
        }),
        ..Default::default()
    }
}

fn names(list: &[&str]) -> Vec<String> {
    list.iter().map(|name| name.to_string()).collect()
}

#[test]
fn test_empty_config_ok() {
    assert!(validate_config(RawTyperacerConfig {
        lang_packs: None,
        display_settings: None,
        repo: None,
        repo_version: None,
        extra_repos: None,
        history_size: None,
    })
    .is_ok());
}

#[test]
fn test_exclusive_blacklistwhitelist() {
    assert!(validate_config(RawTyperacerConfig {
        lang_packs: Some(LangPacks {
            whitelisted: Some(vec!["vrinda".to_string(), "punj".to_string()]),
            blacklisted: Some(vec!["tub".to_owned(), "golang".to_owned()]),
        }),
        display_settings: None,
        repo: None,
        repo_version: None,
        extra_repos: None,
        history_size: None,
    })
    .is_err());
}

#[test]
fn test_blacklist_or_whitelist_ok() {
    assert!(validate_config(RawTyperacerConfig {
        lang_packs: Some(LangPacks {
            whitelisted: Some(vec!["vrinda".to_owned(), "punj".to_owned()]),
            blacklisted: None,
        }),
        display_settings: None,
        repo: None,
        repo_version: None,
        extra_repos: None,
        history_size: None,
    })
    .is_ok());

    assert!(validate_config(RawTyperacerConfig {
        lang_packs: Some(LangPacks {
            whitelisted: None,
            blacklisted: Some(vec!["tub".to_owned(), "golang".to_owned()]),
        }),
        display_settings: None,
        repo: None,
        repo_version: None,
        extra_repos: None,
        history_size: None,
    })
    .is_ok());
}

#[test]
fn valid_settings_come_back_unchanged() {
    let mut raw = empty_config();
    raw.repo = Some("https://example.org/packs.git".to_owned());
    raw.history_size = Some(7);
    let checked = validate_config(raw).unwrap();
    assert_eq!(checked.repo.as_deref(), Some("https://example.org/packs.git"));
    assert_eq!(checked.history_size, Some(7));
    assert!(checked.lang_packs.is_none());
}

#[test]
fn both_lists_are_refused_with_a_reason() {
    let mut raw = empty_config();
    raw.lang_packs = Some(LangPacks {
        whitelisted: Some(vec![]),
        blacklisted: Some(vec![]),
    });
    assert_eq!(validate_lang_packs(&raw), Err(ConfigError::ExclusiveLists));
    let refused = validate_config(raw).unwrap_err();
    assert_eq!(refused, ConfigError::ExclusiveLists);
    assert_eq!(
        refused.message(),
        "Both blacklist and whitelist cannot be filled out"
    );
}

#[test]
fn lang_packs_without_lists_are_valid() {
    let mut raw = empty_config();
    raw.lang_packs = Some(LangPacks {
        whitelisted: None,
        blacklisted: None,
    });
    assert_eq!(validate_lang_packs(&raw), Ok(()));
}

#[test]
fn defaults_fill_an_empty_config() {
    let config = construct_config(empty_config());
    assert!(config.lang_packs.is_none());
    assert!(!config.display_settings.always_full);
    assert!(!config.display_settings.simple_borders);
    assert_eq!(config.repo, "https://gitlab.com/ttyperacer/lang-packs.git");
    assert_eq!(config.repo_version, "1.0.0");
    assert!(config.extra_repos.is_empty());
    assert_eq!(config.history_size, 50);
    assert_eq!(config.combo_config.combo_trigger, 60);
}

#[test]
fn written_settings_win_over_defaults() {
    let raw = RawTyperacerConfig {
        lang_packs: Some(LangPacks {
            whitelisted: Some(names(&["default"])),
            blacklisted: None,
        }),
        display_settings: Some(RawDisplay {
            always_full: Some(true),
            simple_borders: None,
        }),
        repo: Some("https://example.org/packs.git".to_owned()),
        repo_version: Some("2.1.0".to_owned()),
        extra_repos: Some(vec![ExtraRepo {
            version: "v1".to_owned(),
            url: "https://example.org/more.git".to_owned(),
            name: "more".to_owned(),
        }]),
        history_size: Some(3),
    };
    let config = construct_config(raw);
    assert_eq!(config.lang_packs.unwrap().whitelisted, Some(names(&["default"])));
    assert!(config.display_settings.always_full);
    assert!(!config.display_settings.simple_borders);
    assert_eq!(config.repo, "https://example.org/packs.git");
    assert_eq!(config.repo_version, "2.1.0");
    assert_eq!(config.extra_repos.len(), 1);
    assert_eq!(config.extra_repos[0].name, "more");
    assert_eq!(config.history_size, 3);
    assert_eq!(config.combo_config.combo_trigger, 60);
}

#[test]
fn display_settings_default_one_by_one() {
    let default_display = Display {
        always_full: true,
        simple_borders: false,
    };
    let display = construct_display(
        Some(RawDisplay {
            always_full: None,
            simple_borders: Some(true),
        }),
        default_display,
    );
    assert!(display.always_full);
    assert!(display.simple_borders);
    let untouched = construct_display(
        None,
        Display {
            always_full: false,
            simple_borders: true,
        },
    );
    assert!(!untouched.always_full);
    assert!(untouched.simple_borders);
}

#[test]
fn every_pack_is_enabled_without_lists() {
    assert!(TyperacerConfig::default().is_pack_enabled("default"));
    assert!(with_packs(None, None).is_pack_enabled("default"));
}

#[test]
fn a_blacklist_shuts_out_what_it_names() {
    let config = with_packs(None, Some(names(&["tub", "golang"])));
    assert!(!config.is_pack_enabled("tub"));
    assert!(!config.is_pack_enabled("golang"));
    assert!(config.is_pack_enabled("default"));
    assert!(config.is_pack_enabled("tu"));
}

#[test]
fn a_whitelist_lets_in_only_what_it_names() {
    let config = with_packs(Some(names(&["vrinda", "punj"])), None);
    assert!(config.is_pack_enabled("vrinda"));
    assert!(config.is_pack_enabled("punj"));
    assert!(!config.is_pack_enabled("default"));
    // An empty whitelist, or one that starts with a star, lets everything in.
    assert!(with_packs(Some(vec![]), None).is_pack_enabled("default"));
    assert!(with_packs(Some(names(&["*", "punj"])), None).is_pack_enabled("default"));
    assert!(!with_packs(Some(names(&["punj", "*"])), None).is_pack_enabled("default"));
}

#[test]
fn a_blacklist_goes_before_a_whitelist() {
    let config = with_packs(Some(names(&["tub"])), Some(names(&["tub"])));
    assert!(!config.is_pack_enabled("tub"));
    assert!(config.is_pack_enabled("other"));
}

#[test]
fn names_are_found_whole_only() {
    let list = names(&["alpha", "beta"]);
    assert!(contains_name(&list, "alpha"));
    assert!(contains_name(&list, "beta"));
    assert!(!contains_name(&list, "alph"));
    assert!(!contains_name(&list, ""));
    assert!(!contains_name(&vec![], "alpha"));
}
