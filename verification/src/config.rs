//! The application configuration the request layer consults.

use vstd::prelude::*;

verus! {

/// The publicly visible part of the config. Used for settings that also
/// affect the frontend.
#[derive(Clone, Copy, Debug, PartialEq, Eq, Structural)]
pub struct PublicConfig {
    /// Allows new accounts to be registered on the site.
    pub allow_registering: bool,
    /// If set to false, users need an invite code in order to register.
    pub disable_invite_codes: bool,
}

/// The configuration of the application.
#[derive(Clone, Copy, Debug, PartialEq, Eq, Structural)]
pub struct Config {
    pub public_config: PublicConfig,
}

/// The default for a setting that is on unless the configuration file
/// turns it off.
pub fn bool_true() -> (r: bool)
    ensures
        r,
{
    true
}

impl Default for PublicConfig {
    /// What an absent configuration file means: registering is allowed,
    /// and invite codes are in use.
    fn default() -> (r: Self)
        ensures
            r.allow_registering,
            !r.disable_invite_codes,
    {
        PublicConfig { allow_registering: true, disable_invite_codes: false }
    }
}

impl Default for Config {
    fn default() -> (r: Self)
        ensures
            r.public_config.allow_registering,
            !r.public_config.disable_invite_codes,
    {
        Config { public_config: PublicConfig::default() }
    }
}

} // verus!
