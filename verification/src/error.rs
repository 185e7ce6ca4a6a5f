//! The failures the cascade can end in. Finding no value is not one of
//! them: that is an ordinary outcome, reported through `Option`.

use vstd::prelude::*;

verus! {

/// Why an invocation aborted: the manifest locator produced no usable
/// manifest path, or a candidate file was not valid configuration text.
#[derive(Debug, Clone, Copy, PartialEq, Eq, Structural)]
pub enum ConfigError {
    Discovery,
    Parse,
}

impl ConfigError {
    /// A human-readable diagnostic for this failure.
    pub fn describe(&self) -> (r: String)
        ensures
            *self == ConfigError::Discovery ==> r@ == "manifest discovery failed"@,
            *self == ConfigError::Parse ==> r@ == "invalid configuration text"@,
    {
        match self {
            ConfigError::Discovery => "manifest discovery failed".to_owned(),
            ConfigError::Parse => "invalid configuration text".to_owned(),
        }
    }
}

} // verus!
