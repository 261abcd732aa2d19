//! The settings of a player who set nothing.

use crate::config::{Combo, Display, TyperacerConfig};
use vstd::prelude::*;

verus! {

/// The number of passages that can be gone back to.
pub const DEFAULT_HISTORY_SIZE: usize = 50;

/// The streak from which the borders change colour.
pub const DEFAULT_COMBO_TRIGGER: usize = 60;

/// The default settings, as plain values.
pub struct Defaults {
    pub display_settings: Display,
    pub repo: Seq<char>,
    pub repo_version: Seq<char>,
    pub history_size: usize,
    pub combo_config: Combo,
}

/// The settings of a player who set nothing.
pub open spec fn default_config() -> Defaults {
    Defaults {
        display_settings: Display { always_full: false, simple_borders: false },
        repo: "https://gitlab.com/ttyperacer/lang-packs.git"@,
        repo_version: "1.0.0"@,
        history_size: DEFAULT_HISTORY_SIZE,
        combo_config: Combo { combo_trigger: DEFAULT_COMBO_TRIGGER },
    }
}

impl Default for TyperacerConfig {
    fn default() -> (config: TyperacerConfig)
        ensures
            config.lang_packs.is_none(),
            config.display_settings == default_config().display_settings,
            config.repo@ == default_config().repo,
            config.repo_version@ == default_config().repo_version,
            config.extra_repos@.len() == 0,
            config.history_size == default_config().history_size,
            config.combo_config == default_config().combo_config,
    {
        TyperacerConfig {
            lang_packs: None,
            display_settings: Display { always_full: false, simple_borders: false },
            repo: "https://gitlab.com/ttyperacer/lang-packs.git".to_owned(),
            repo_version: "1.0.0".to_owned(),
            extra_repos: Vec::new(),
            history_size: DEFAULT_HISTORY_SIZE,
            combo_config: Combo { combo_trigger: DEFAULT_COMBO_TRIGGER },
        }
    }
}

} // verus!
