use config_cascade::ConfigValue;
use config_cascade::query::lookup;
use config_cascade::value::table_query;

fn entry(key: &str, v: ConfigValue) -> (String, ConfigValue) {
    (key.to_string(), v)
}

fn sample_tree() -> ConfigValue {
    ConfigValue::Table(vec![
        entry(
            "package",
            ConfigValue::Table(vec![
                entry("name", ConfigValue::Text("demo".to_string())),
                entry("version", ConfigValue::Text("0.1.0".to_string())),
            ]),
        ),
        entry("count", ConfigValue::Integer(7)),
    ])
}

#[test]
fn table_query_finds_direct_key() {
    let tree = sample_tree();
    assert_eq!(table_query(&tree, "count"), Some(&ConfigValue::Integer(7)));
}

#[test]
fn table_query_misses_absent_key() {
    let tree = sample_tree();
    assert_eq!(table_query(&tree, "absent"), None);
}

#[test]
fn table_query_on_scalar_is_none() {
    let scalar = ConfigValue::Integer(3);
    assert_eq!(table_query(&scalar, "count"), None);
}

#[test]
fn lookup_single_segment_found() {
    let tree = sample_tree();
    assert_eq!(lookup(&tree, "count"), Some(&ConfigValue::Integer(7)));
}

#[test]
fn lookup_single_segment_absent() {
    let tree = sample_tree();
    assert_eq!(lookup(&tree, "missing"), None);
}

#[test]
fn lookup_nested_path() {
    let tree = sample_tree();
    assert_eq!(
        lookup(&tree, "package.version"),
        Some(&ConfigValue::Text("0.1.0".to_string()))
    );
}

#[test]
fn lookup_first_segment_absent_ignores_deeper_structure() {
    let tree = sample_tree();
    assert_eq!(lookup(&tree, "absent.version"), None);
}

#[test]
fn lookup_stops_at_first_unmatched_segment() {
    // The walk descends as far as the segments match and returns the value
    // it stopped on, as long as the first segment matched at all.
    let tree = sample_tree();
    assert_eq!(lookup(&tree, "count.deeper"), Some(&ConfigValue::Integer(7)));
}

#[test]
fn lookup_empty_path_is_not_found() {
    let tree = sample_tree();
    assert_eq!(lookup(&tree, ""), None);
}

#[test]
fn lookup_empty_key_can_match() {
    let tree = ConfigValue::Table(vec![entry("", ConfigValue::Boolean(true))]);
    assert_eq!(lookup(&tree, ""), Some(&ConfigValue::Boolean(true)));
}

#[test]
fn lookup_is_case_sensitive() {
    let tree = sample_tree();
    assert_eq!(lookup(&tree, "Count"), None);
}

#[test]
fn lookup_on_scalar_root_is_none() {
    let scalar = ConfigValue::Text("x".to_string());
    assert_eq!(lookup(&scalar, "x"), None);
}
