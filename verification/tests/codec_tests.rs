use config_cascade::codec::{parse_config, query_manifest_path, serialize_config};
use config_cascade::query::lookup;
use config_cascade::{ConfigError, ConfigValue};

#[test]
fn parse_scalars() {
    let tree = parse_config("title = \"hello\"\nnum = 3\nflag = true").unwrap();
    assert_eq!(lookup(&tree, "title"), Some(&ConfigValue::Text("hello".to_string())));
    assert_eq!(lookup(&tree, "num"), Some(&ConfigValue::Integer(3)));
    assert_eq!(lookup(&tree, "flag"), Some(&ConfigValue::Boolean(true)));
}

#[test]
fn parse_nested_tables() {
    let tree = parse_config("[a.b]\nc = \"d\"").unwrap();
    assert_eq!(lookup(&tree, "a.b.c"), Some(&ConfigValue::Text("d".to_string())));
}

#[test]
fn parse_array() {
    let tree = parse_config("xs = [1, 2]").unwrap();
    assert_eq!(
        lookup(&tree, "xs"),
        Some(&ConfigValue::Array(vec![
            ConfigValue::Integer(1),
            ConfigValue::Integer(2),
        ]))
    );
}

#[test]
fn parse_rejects_malformed_text() {
    assert_eq!(parse_config("= nonsense"), Err(ConfigError::Parse));
    assert_eq!(parse_config("a = \"unterminated"), Err(ConfigError::Parse));
}

#[test]
fn parse_rejects_duplicate_keys() {
    assert_eq!(parse_config("a = 1\na = 2"), Err(ConfigError::Parse));
}

#[test]
fn round_trip_scalars() {
    let tree1 = parse_config("title = \"hello\"\nnum = 3\nflag = true").unwrap();
    let text2 = serialize_config(&tree1).unwrap();
    let tree2 = parse_config(&text2).unwrap();
    assert_eq!(tree1, tree2);
}

#[test]
fn round_trip_nested_tables() {
    let tree1 = parse_config("top = 1\n[a.b]\nc = \"d\"\n[a.e]\nf = 2").unwrap();
    let text2 = serialize_config(&tree1).unwrap();
    let tree2 = parse_config(&text2).unwrap();
    assert_eq!(tree1, tree2);
}

#[test]
fn round_trip_float_and_datetime() {
    let tree1 = parse_config("pi = 3.5\nwhole = 5.0\nwhen = 1979-05-27T07:32:00Z").unwrap();
    let text2 = serialize_config(&tree1).unwrap();
    let tree2 = parse_config(&text2).unwrap();
    assert_eq!(tree1, tree2);
}

#[test]
fn serialize_scalar_root_fails() {
    // Only a table can head a TOML document.
    assert_eq!(serialize_config(&ConfigValue::Integer(1)), None);
}

#[test]
fn manifest_path_from_locator_output() {
    let out = "{\"root\": \"/tmp/proj/Cargo.toml\"}";
    assert_eq!(query_manifest_path(out), Ok("/tmp/proj/Cargo.toml".to_string()));
}

#[test]
fn manifest_path_rejects_invalid_json() {
    assert_eq!(query_manifest_path("not json"), Err(ConfigError::Discovery));
}

#[test]
fn manifest_path_rejects_non_object() {
    assert_eq!(query_manifest_path("[1, 2]"), Err(ConfigError::Discovery));
}

#[test]
fn manifest_path_rejects_missing_root() {
    assert_eq!(query_manifest_path("{\"other\": \"x\"}"), Err(ConfigError::Discovery));
}

#[test]
fn manifest_path_rejects_non_string_root() {
    assert_eq!(query_manifest_path("{\"root\": 5}"), Err(ConfigError::Discovery));
}

#[test]
fn error_descriptions() {
    assert_eq!(ConfigError::Discovery.describe(), "manifest discovery failed");
    assert_eq!(ConfigError::Parse.describe(), "invalid configuration text");
}
