//! The configuration tree: a tagged union of tables, arrays and scalars,
//! with direct key queries against tables.

use vstd::prelude::*;

verus! {

/// A parsed configuration value. Tables keep their entries as an ordered
/// list of `(key, value)` pairs with pairwise-distinct keys. Float and
/// date-time scalars are carried as their textual form, so that the tree
/// holds plain values only.
#[derive(Debug, PartialEq)]
pub enum ConfigValue {
    Table(Vec<(String, ConfigValue)>),
    Array(Vec<ConfigValue>),
    Text(String),
    Integer(i64),
    Float(String),
    Boolean(bool),
    Datetime(String),
}

/// The keys of `entries` are pairwise distinct.
pub open spec fn table_keys_unique(entries: Seq<(String, ConfigValue)>) -> bool {
    forall|i: int, j: int|
        0 <= i < j < entries.len() ==> entries[i].0@ != entries[j].0@
}

/// Some entry of `entries` carries the key `key`.
pub open spec fn has_key(entries: Seq<(String, ConfigValue)>, key: Seq<char>) -> bool {
    exists|i: int| 0 <= i < entries.len() && entries[i].0@ == key
}

/// The value of the first entry of `entries` whose key is `key`, if any.
pub open spec fn table_get_spec(entries: Seq<(String, ConfigValue)>, key: Seq<char>) -> Option<
    ConfigValue,
>
    decreases entries.len(),
{
    if entries.len() == 0 {
        None
    } else if entries[0].0@ == key {
        Some(entries[0].1)
    } else {
        table_get_spec(entries.drop_first(), key)
    }
}

/// A direct key query: the value under `key` when `v` is a table that
/// carries it, and nothing otherwise.
pub open spec fn table_query_spec(v: ConfigValue, key: Seq<char>) -> Option<ConfigValue> {
    match v {
        ConfigValue::Table(entries) => table_get_spec(entries@, key),
        _ => None,
    }
}

impl ConfigValue {
    /// Every table in the tree has pairwise-distinct keys.
    pub open spec fn wf(self) -> bool
        decreases self,
    {
        match self {
            ConfigValue::Table(entries) => table_keys_unique(entries@) && (forall|i: int|
                0 <= i < entries@.len() ==> #[trigger] entries@[i].1.wf()),
            ConfigValue::Array(items) => forall|i: int|
                0 <= i < items@.len() ==> #[trigger] items@[i].wf(),
            _ => true,
        }
    }
}

/// `table_get_spec` succeeds exactly on the keys that some entry carries.
pub proof fn lemma_table_get_has_key(entries: Seq<(String, ConfigValue)>, key: Seq<char>)
    ensures
        table_get_spec(entries, key) is Some <==> has_key(entries, key),
    decreases entries.len(),
{
    if entries.len() > 0 {
        if entries[0].0@ == key {
        } else {
            lemma_table_get_has_key(entries.drop_first(), key);
            if has_key(entries.drop_first(), key) {
                let i = choose|i: int|
                    0 <= i < entries.drop_first().len() && entries.drop_first()[i].0@ == key;
                assert(entries[i + 1].0@ == key);
            } else if has_key(entries, key) {
                let i = choose|i: int| 0 <= i < entries.len() && entries[i].0@ == key;
                assert(entries.drop_first()[i - 1].0@ == key);
            }
        }
    }
}

/// Skipping entries whose keys all differ from `key` does not change the
/// query result.
proof fn lemma_table_get_skip(entries: Seq<(String, ConfigValue)>, key: Seq<char>, n: int)
    requires
        0 <= n <= entries.len(),
        forall|i: int| 0 <= i < n ==> entries[i].0@ != key,
    ensures
        table_get_spec(entries, key) == table_get_spec(entries.skip(n), key),
    decreases n,
{
    if n > 0 {
        assert(entries[0].0@ != key);
        assert(forall|i: int|
            0 <= i < n - 1 ==> #[trigger] entries.drop_first()[i].0@ == entries[i + 1].0@);
        lemma_table_get_skip(entries.drop_first(), key, n - 1);
        assert(entries.drop_first().skip(n - 1) =~= entries.skip(n));
    } else {
        assert(entries.skip(0) =~= entries);
    }
}

/// Query a table for a direct key: the original tree is borrowed, the
/// matched value is returned by reference.
pub fn table_query<'a>(value: &'a ConfigValue, query: &str) -> (r: Option<&'a ConfigValue>)
    ensures
        match r {
            Some(v) => table_query_spec(*value, query@) == Some(*v),
            None => table_query_spec(*value, query@) is None,
        },
{
    match value {
        ConfigValue::Table(entries) => {
            let q = query.to_owned();
            let n = entries.len();
            let mut i: usize = 0;
            while i < n
                invariant
                    *value == ConfigValue::Table(*entries),
                    n == entries@.len(),
                    0 <= i <= n,
                    q@ == query@,
                    forall|k: int| 0 <= k < i ==> entries@[k].0@ != query@,
                decreases n - i,
            {
                if entries[i].0 == q {
                    proof {
                        lemma_table_get_skip(entries@, query@, i as int);
                        assert(entries@.skip(i as int)[0] == entries@[i as int]);
                        assert(table_get_spec(entries@.skip(i as int), query@) == Some(
                            entries@[i as int].1,
                        ));                    }
                    return Some(&entries[i].1);
                }
                i += 1;
            }
            proof {
                lemma_table_get_skip(entries@, query@, n as int);
                assert(entries@.skip(n as int) =~= Seq::<(String, ConfigValue)>::empty());
            }
            None
        },
        _ => None,
    }
}

} // verus!
