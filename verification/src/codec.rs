//! Reading and writing configuration text. Parsing and serializing are
//! done by the `toml` crate, and the locator's output is read by the
//! `serde_json` crate; each call stands behind a trusted wrapper whose
//! result is named by an uninterpreted spec function, since the exact
//! text-level behaviour of those crates would take pages to state.

use vstd::prelude::*;
use toml::Value as TomlVal;
use crate::value::ConfigValue;
use crate::error::ConfigError;

verus! {

/// The tree that the TOML document `s` parses to, or nothing when `s` is
/// not a valid document. Parsing depends on the text alone.
pub uninterp spec fn toml_of(s: Seq<char>) -> Option<ConfigValue>;

/// The TOML document text that the tree `v` serializes to, or nothing
/// when `v` cannot head a document (its root is not a table, or a float
/// or date-time scalar carries malformed text). Serialization depends on
/// the tree alone.
pub uninterp spec fn toml_text_of(v: ConfigValue) -> Option<Seq<char>>;

/// The string under `key` in the JSON object that the document `doc`
/// parses to, or nothing when `doc` is not a JSON object or `key` is
/// missing or not a string. The result depends on `doc` and `key` alone.
pub uninterp spec fn json_string_field(doc: Seq<char>, key: Seq<char>) -> Option<Seq<char>>;

/// Carries parsed TOML data between the trusted conversion helpers; the
/// library itself never reads it.
#[verifier::external_type_specification]
#[verifier::external_body]
pub struct ExTomlValue(toml::Value);

/// Conversion helper for `parse_toml_text`: rebuilds a `toml::Value` as
/// the library's own tree, variant by variant. Floats and date-times are
/// carried over as their textual form.
#[verifier::external_body]
fn from_toml_value(v: &TomlVal) -> ConfigValue {
    match v {
        TomlVal::String(s) => ConfigValue::Text(s.clone()),
        TomlVal::Integer(i) => ConfigValue::Integer(*i),
        TomlVal::Float(f) => ConfigValue::Float(format!("{:?}", f)),
        TomlVal::Boolean(b) => ConfigValue::Boolean(*b),
        TomlVal::Datetime(d) => ConfigValue::Datetime(d.to_string()),
        TomlVal::Array(xs) => ConfigValue::Array(xs.iter().map(from_toml_value).collect()),
        TomlVal::Table(t) => ConfigValue::Table(t.iter().map(|e| (e.0.clone(), from_toml_value(e.1))).collect()),
    }
}

/// Relies on `toml::from_str`: a valid TOML document parses to a table
/// whose keys are pairwise distinct within each nesting level (the crate
/// rejects duplicate keys, and its tables are map-backed), and parsing
/// depends on the text alone.
#[verifier::external_body]
fn parse_toml_text(s: &str) -> (r: Option<ConfigValue>)
    ensures
        r == toml_of(s@),
        r matches Some(v) ==> v.wf(),
{
    match toml::from_str::<toml::Value>(s) {
        Ok(v) => Some(from_toml_value(&v)),
        Err(_) => None,
    }
}

/// Conversion helper for `toml_document_text`: rebuilds the library's
/// tree as a `toml::Value`, variant by variant; fails when a float or
/// date-time scalar carries text that does not read back.
#[verifier::external_body]
fn to_toml_value(v: &ConfigValue) -> Option<TomlVal> {
    Some(match v {
        ConfigValue::Text(s) => TomlVal::String(s.clone()),
        ConfigValue::Integer(i) => TomlVal::Integer(*i),
        ConfigValue::Float(s) => TomlVal::Float(s.parse().ok()?),
        ConfigValue::Boolean(b) => TomlVal::Boolean(*b),
        ConfigValue::Datetime(s) => TomlVal::Datetime(s.parse().ok()?),
        ConfigValue::Array(xs) => TomlVal::Array(xs.iter().map(to_toml_value).collect::<Option<_>>()?),
        ConfigValue::Table(t) => TomlVal::Table(t.iter().map(|e| Some((e.0.clone(), to_toml_value(&e.1)?))).collect::<Option<_>>()?),
    })
}

/// Relies on `toml::to_string`: serializing a tree as a TOML document
/// depends on the tree alone.
#[verifier::external_body]
fn toml_document_text(v: &ConfigValue) -> (r: Option<String>)
    ensures
        match r {
            Some(s) => toml_text_of(*v) == Some(s@),
            None => toml_text_of(*v) is None,
        },
{
    let tv = to_toml_value(v)?;
    toml::to_string(&tv).ok()
}

/// Relies on `serde_json::from_str` and `serde_json::Map::get`: the
/// string under `key` in a JSON object depends on the document text and
/// the key alone.
#[verifier::external_body]
fn json_string_field_exec(doc: &str, key: &str) -> (r: Option<String>)
    ensures
        match r {
            Some(s) => json_string_field(doc@, key@) == Some(s@),
            None => json_string_field(doc@, key@) is None,
        },
{
    match serde_json::from_str::<serde_json::Value>(doc) {
        Ok(serde_json::Value::Object(m)) => match m.get(key) {
            Some(serde_json::Value::String(s)) => Some(s.clone()),
            _ => None,
        },
        _ => None,
    }
}

/// Parse configuration text into a tree. Fails exactly on the texts that
/// are not valid TOML documents; a parsed tree always has pairwise
/// distinct keys within each of its tables.
pub fn parse_config(text: &str) -> (r: Result<ConfigValue, ConfigError>)
    ensures
        match r {
            Ok(v) => toml_of(text@) == Some(v) && v.wf(),
            Err(e) => toml_of(text@) is None && e == ConfigError::Parse,
        },
{
    match parse_toml_text(text) {
        Some(v) => Ok(v),
        None => Err(ConfigError::Parse),
    }
}

/// Serialize a tree back to TOML document text. Fails exactly on the
/// trees that cannot head a document.
pub fn serialize_config(v: &ConfigValue) -> (r: Option<String>)
    ensures
        match r {
            Some(s) => toml_text_of(*v) == Some(s@),
            None => toml_text_of(*v) is None,
        },
{
    toml_document_text(v)
}

/// Read the manifest path out of the locator's output: the output must
/// be a JSON object with a string field named `root`. Fails exactly when
/// it is not.
pub fn query_manifest_path(locator_output: &str) -> (r: Result<String, ConfigError>)
    ensures
        match r {
            Ok(p) => json_string_field(locator_output@, "root"@) == Some(p@),
            Err(e) => json_string_field(locator_output@, "root"@) is None && e
                == ConfigError::Discovery,
        },
{
    match json_string_field_exec(locator_output, "root") {
        Some(p) => Ok(p),
        None => Err(ConfigError::Discovery),
    }
}

} // verus!
