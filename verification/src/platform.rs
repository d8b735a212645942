//! Trusted calls that read the user's directory layout. Their results depend
//! on the environment, so nothing is promised of them; callers state what
//! holds of every outcome.

use vstd::prelude::*;

verus! {

/// Relies on `dirs::config_dir`: the user's configuration directory, if the
/// platform defines one. Nothing is promised of an environment lookup.
#[verifier::external_body]
pub fn os_config_dir() -> Option<String> {
    dirs::config_dir().map(|p| p.to_string_lossy().into_owned())
}

/// Relies on `dirs::home_dir`: the user's home directory, if the platform
/// defines one. Nothing is promised of an environment lookup.
#[verifier::external_body]
pub fn os_home_dir() -> Option<String> {
    dirs::home_dir().map(|p| p.to_string_lossy().into_owned())
}

} // verus!
