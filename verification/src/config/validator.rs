//! Checks on the settings that the player wrote.

use crate::config::{LangPacks, RawTyperacerConfig};
use vstd::prelude::*;

verus! {

/// Why settings are refused.
#[derive(Clone, Copy, Debug, PartialEq, Eq, Structural)]
pub enum ConfigError {
    /// A blacklist and a whitelist of packs were both given.
    ExclusiveLists,
}

impl ConfigError {
    /// The reason in words.
    pub fn message(&self) -> (text: String)
        ensures
            text@ == "Both blacklist and whitelist cannot be filled out"@,
    {
        "Both blacklist and whitelist cannot be filled out".to_owned()
    }
}

/// Settings may name a blacklist of packs or a whitelist, not both.
pub open spec fn lang_packs_valid(lang_packs: Option<LangPacks>) -> bool {
    match lang_packs {
        None => true,
        Some(packs) => !(packs.blacklisted.is_some() && packs.whitelisted.is_some()),
    }
}

/// Hands valid settings back unchanged and refuses the others.
pub fn validate_config(config: RawTyperacerConfig) -> (checked: Result<
    RawTyperacerConfig,
    ConfigError,
>)
    ensures
        lang_packs_valid(config.lang_packs) ==> checked == Ok::<RawTyperacerConfig, ConfigError>(
            config,
        ),
        !lang_packs_valid(config.lang_packs) ==> checked == Err::<RawTyperacerConfig, ConfigError>(
            ConfigError::ExclusiveLists,
        ),
{
    match validate_lang_packs(&config) {
        Ok(()) => Ok(config),
        Err(e) => Err(e),
    }
}

/// Checks that not both a blacklist and a whitelist of packs are given.
pub fn validate_lang_packs(config: &RawTyperacerConfig) -> (checked: Result<(), ConfigError>)
    ensures
        checked.is_ok() == lang_packs_valid(config.lang_packs),
        checked.is_err() ==> checked == Err::<(), ConfigError>(ConfigError::ExclusiveLists),
{
    match &config.lang_packs {
        None => Ok(()),
        Some(x) => {
            if x.blacklisted.is_some() && x.whitelisted.is_some() {
                Err(ConfigError::ExclusiveLists)
            } else {
                Ok(())
            }
        },
    }
}

} // verus!
