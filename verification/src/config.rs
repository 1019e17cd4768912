//! The user's settings.

use vstd::prelude::*;
use crate::models::ProviderKind;

verus! {

/// The user's settings: the provider to search.
#[derive(Debug, Clone, Copy)]
pub struct Config {
    pub provider: ProviderKind,
}

impl Default for Config {
    /// Modrinth, which needs no setup.
    fn default() -> (c: Config)
        ensures
            c.provider == ProviderKind::Modrinth,
    {
        Config { provider: ProviderKind::Modrinth }
    }
}

} // verus!
