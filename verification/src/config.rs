//! Persisted user settings. Reading and writing the file is done by the caller; this is what
//! the settings are and what they default to.

use vstd::prelude::*;

verus! {

/// The user's settings: currently only whether Discord Rich Presence is on.
#[derive(Clone, Copy, Debug, PartialEq, Eq, Structural)]
pub struct Config {
    pub discord_enabled: bool,
}

impl Default for Config {
    /// Discord Rich Presence is on unless turned off.
    fn default() -> (r: Self)
        ensures
            r.discord_enabled,
    {
        Config { discord_enabled: true }
    }
}

} // verus!
