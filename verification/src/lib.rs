//! Configuration-cascade lookup: a generic key-value tree parsed from TOML
//! text, dotted-path queries against it, and a first-match-wins cascade over
//! an ordered list of candidate configuration files.

pub mod cascade;
pub mod codec;
pub mod error;
pub mod query;
pub mod value;

pub use error::ConfigError;
pub use value::ConfigValue;
