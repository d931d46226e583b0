//! The accountant: the sink that requests and their answers are reported to.
use crate::config::AccountantConfig;
use vstd::prelude::*;

verus! {

/// The accountant, with its settings.
pub struct Accountant {
    config: AccountantConfig,
}

impl Accountant {
    /// The settings that the accountant was made with.
    pub closed spec fn settings(&self) -> AccountantConfig {
        self.config
    }

    /// An accountant with the given settings.
    pub fn new(config: AccountantConfig) -> (accountant: Self)
        ensures
            accountant.settings() == config,
    {
        Self { config }
    }

    /// The settings that the accountant was made with.
    pub fn config(&self) -> (config: AccountantConfig)
        ensures
            config == self.settings(),
    {
        self.config
    }
}

} // verus!
