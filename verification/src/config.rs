//! The player's settings.

pub mod defaults;
pub mod validator;

use crate::text::str_eq;
use vstd::prelude::*;

verus! {

/// The settings that the game runs with.
#[derive(Debug)]
pub struct TyperacerConfig {
    pub lang_packs: Option<LangPacks>,
    pub display_settings: Display,
    pub repo: String,
    pub repo_version: String,
    pub extra_repos: Vec<ExtraRepo>,
    pub history_size: usize,
    pub combo_config: Combo,
}

/// The settings as the player wrote them, with everything optional.
#[derive(Debug)]
pub struct RawTyperacerConfig {
    pub lang_packs: Option<LangPacks>,
    pub display_settings: Option<RawDisplay>,
    pub repo: Option<String>,
    pub repo_version: Option<String>,
    pub extra_repos: Option<Vec<ExtraRepo>>,
    pub history_size: Option<usize>,
}

/// Which passage packs to draw from: all but some, or only some.
#[derive(Debug)]
pub struct LangPacks {
    pub whitelisted: Option<Vec<String>>,
    pub blacklisted: Option<Vec<String>>,
}

/// A pack of passages of the player's own: where it is fetched from, in which
/// version, and the name it is installed under.
#[derive(Debug)]
pub struct ExtraRepo {
    pub version: String,
    pub url: String,
    pub name: String,
}

/// When a streak counts as long.
#[derive(Debug)]
pub struct Combo {
    pub combo_trigger: usize,
}

/// How the game is drawn.
#[derive(Debug)]
pub struct Display {
    pub always_full: bool,
    pub simple_borders: bool,
}

/// How the game is drawn, as the player wrote it.
#[derive(Debug)]
pub struct RawDisplay {
    pub always_full: Option<bool>,
    pub simple_borders: Option<bool>,
}

/// Whether one of `names` is `name`.
pub open spec fn lists(names: Seq<String>, name: Seq<char>) -> bool {
    exists|i: int| 0 <= i < names.len() && (#[trigger] names[i])@ == name
}

/// Whether passages are drawn from the pack called `name`. A blacklist shuts
/// out the packs it names; a whitelist lets in only the packs it names, unless
/// it is empty or starts with `*`.
pub open spec fn pack_enabled(lang_packs: Option<LangPacks>, name: Seq<char>) -> bool {
    match lang_packs {
        None => true,
        Some(packs) => match packs.blacklisted {
            Some(blacklist) => !lists(blacklist@, name),
            None => match packs.whitelisted {
                None => true,
                Some(whitelist) => whitelist@.len() == 0 || whitelist@[0]@ == seq!['*'] || lists(
                    whitelist@,
                    name,
                ),
            },
        },
    }
}

/// The display settings with the defaults filled in.
pub open spec fn display_with_defaults(raw: Option<RawDisplay>, default_display: Display) -> Display {
    match raw {
        None => default_display,
        Some(d) => Display {
            always_full: match d.always_full {
                Some(v) => v,
                None => default_display.always_full,
            },
            simple_borders: match d.simple_borders {
                Some(v) => v,
                None => default_display.simple_borders,
            },
        },
    }
}

/// Whether one of the names is `name`.
pub fn contains_name(names: &Vec<String>, name: &str) -> (found: bool)
    ensures
        found == lists(names@, name@),
{
    let mut i: usize = 0;
    while i < names.len()
        invariant
            i <= names.len(),
            forall|j: int| 0 <= j < i ==> (#[trigger] names@[j])@ != name@,
        decreases names.len() - i,
    {
        if str_eq(names[i].as_str(), name) {
            return true;
        }
        i += 1;
    }
    false
}

impl TyperacerConfig {
    /// Whether passages are drawn from the pack called `name`.
    pub fn is_pack_enabled(&self, name: &str) -> (enabled: bool)
        ensures
            enabled == pack_enabled(self.lang_packs, name@),
    {
        match &self.lang_packs {
            None => true,
            Some(packs) => match &packs.blacklisted {
                Some(blacklist) => !contains_name(blacklist, name),
                None => match &packs.whitelisted {
                    None => true,
                    Some(whitelist) => {
                        proof {
                            reveal_strlit("*");
                            assert("*"@ =~= seq!['*']);
                        }
                        whitelist.len() == 0 || str_eq(whitelist[0].as_str(), "*") || contains_name(
                            whitelist,
                            name,
                        )
                    },
                },
            },
        }
    }
}

/// Fills every setting that the player left out with its default.
pub fn construct_config(raw_config: RawTyperacerConfig) -> (config: TyperacerConfig)
    ensures
        config.lang_packs == raw_config.lang_packs,
        config.display_settings == display_with_defaults(
            raw_config.display_settings,
            defaults::default_config().display_settings,
        ),
        config.combo_config == defaults::default_config().combo_config,
        config.repo@ == (match raw_config.repo {
            Some(repo) => repo@,
            None => defaults::default_config().repo,
        }),
        config.repo_version@ == (match raw_config.repo_version {
            Some(version) => version@,
            None => defaults::default_config().repo_version,
        }),
        config.extra_repos@ == (match raw_config.extra_repos {
            Some(repos) => repos@,
            None => Seq::empty(),
        }),
        config.history_size == (match raw_config.history_size {
            Some(size) => size,
            None => defaults::default_config().history_size,
        }),
{
    let default_config = TyperacerConfig::default();
    TyperacerConfig {
        lang_packs: raw_config.lang_packs,
        display_settings: construct_display(
            raw_config.display_settings,
            default_config.display_settings,
        ),
        combo_config: default_config.combo_config,
        repo: match raw_config.repo {
            Some(repo) => repo,
            None => default_config.repo,
        },
        repo_version: match raw_config.repo_version {
            Some(version) => version,
            None => default_config.repo_version,
        },
        extra_repos: match raw_config.extra_repos {
            Some(repos) => repos,
            None => default_config.extra_repos,
        },
        history_size: match raw_config.history_size {
            Some(size) => size,
            None => default_config.history_size,
        },
    }
}

/// Fills the display settings that the player left out with their defaults.
pub fn construct_display(display_config: Option<RawDisplay>, default_display: Display) -> (display:
    Display)
    ensures
        display == display_with_defaults(display_config, default_display),
{
    match display_config {
        None => default_display,
        Some(d) => Display {
            always_full: match d.always_full {
                Some(v) => v,
                None => default_display.always_full,
            },
            simple_borders: match d.simple_borders {
                Some(v) => v,
                None => default_display.simple_borders,
            },
        },
    }
}

} // verus!
