//! Dotted-path queries: a path is split on `.` into segments, and the tree
//! is walked from the root, descending through tables as long as each next
//! segment is a direct key of the current table. The walk stops at the
//! first segment that does not match; the result counts as found exactly
//! when the very first segment matched.

use vstd::prelude::*;
use vstd::string::*;
use crate::value::{ConfigValue, table_query_spec, table_query, has_key, lemma_table_get_has_key};

verus! {

/// The position of the first `.` in `s`, or `s.len()` if there is none.
pub open spec fn find_dot(s: Seq<char>) -> int
    decreases s.len(),
{
    if s.len() == 0 {
        0
    } else if s[0] == '.' {
        0
    } else {
        1 + find_dot(s.drop_first())
    }
}

/// The segments of `s`, split on `.`. Splitting never yields an empty
/// list: a path without any `.` is a single segment, even when empty.
pub open spec fn split_dotted(s: Seq<char>) -> Seq<Seq<char>>
    decreases s.len(),
{
    let i = find_dot(s);
    if 0 <= i < s.len() && s[i] == '.' {
        seq![s.take(i)] + split_dotted(s.skip(i + 1))
    } else {
        seq![s]
    }
}

/// The first segment of a dotted path.
pub open spec fn first_segment(s: Seq<char>) -> Seq<char> {
    split_dotted(s)[0]
}

/// The views of a list of strings.
pub open spec fn str_views(segs: Seq<String>) -> Seq<Seq<char>> {
    segs.map_values(|t: String| t@)
}

/// A scan that saw no `.` before position `i`, and a `.` (or the end) at
/// `i`, has found exactly `find_dot`.
proof fn lemma_find_dot_at(s: Seq<char>, i: int)
    requires
        0 <= i <= s.len(),
        forall|k: int| 0 <= k < i ==> s[k] != '.',
        i < s.len() ==> s[i] == '.',
    ensures
        find_dot(s) == i,
    decreases s.len(),
{
    if s.len() > 0 {
        if i == 0 {
        } else {
            assert(s[0] != '.');
            assert(forall|k: int|
                0 <= k < i - 1 ==> #[trigger] s.drop_first()[k] == s[k + 1]);
            lemma_find_dot_at(s.drop_first(), i - 1);
        }
    }
}

/// Splitting always yields at least one segment.
pub proof fn lemma_split_nonempty(s: Seq<char>)
    ensures
        split_dotted(s).len() >= 1,
{
}

/// A path without any `.` is its own single segment.
pub proof fn lemma_split_no_dot(s: Seq<char>)
    requires
        forall|k: int| 0 <= k < s.len() ==> s[k] != '.',
    ensures
        split_dotted(s) == seq![s],
{
    lemma_find_dot_at(s, s.len() as int);
}

/// Find the first `.` of `s`, as a character position.
fn find_dot_exec(s: &str) -> (i: usize)
    ensures
        i == find_dot(s@),
        i <= s@.len(),
        i < s@.len() ==> s@[i as int] == '.',
{
    let n = s.unicode_len();
    let mut i: usize = 0;
    while i < n
        invariant
            n == s@.len(),
            0 <= i <= n,
            forall|k: int| 0 <= k < i ==> s@[k] != '.',
        decreases n - i,
    {
        if s.get_char(i) == '.' {
            proof {
                lemma_find_dot_at(s@, i as int);
            }
            return i;
        }
        i += 1;
    }
    proof {
        lemma_find_dot_at(s@, n as int);
    }
    n
}

/// Split a dotted path into its segments.
pub fn split_path(s: &str) -> (segs: Vec<String>)
    ensures
        str_views(segs@) == split_dotted(s@),
{
    let mut segs: Vec<String> = Vec::new();
    let mut rest: &str = s;
    loop
        invariant_except_break
            split_dotted(s@) == str_views(segs@) + split_dotted(rest@),
        ensures
            str_views(segs@) == split_dotted(s@),
        decreases rest@.len(),
    {
        let n = rest.unicode_len();
        let i = find_dot_exec(rest);
        if i == n {
            let seg = rest.to_owned();
            segs.push(seg);
            proof {
                assert(split_dotted(rest@) == seq![rest@]);
                assert(str_views(segs@) =~= split_dotted(s@));
            }
            break;
        } else {
            let head = rest.substring_char(0, i);
            let seg = head.to_owned();
            segs.push(seg);
            let tail = rest.substring_char(i + 1, n);
            proof {
                assert(rest@.subrange(0, i as int) =~= rest@.take(i as int));
                assert(rest@.subrange(i + 1, n as int) =~= rest@.skip(i + 1));
                assert(split_dotted(rest@) == seq![rest@.take(i as int)] + split_dotted(
                    rest@.skip(i + 1),
                ));
                assert(str_views(segs@) =~= str_views(segs@.drop_last()).push(rest@.take(
                    i as int,
                )));
                assert(str_views(segs@) + split_dotted(tail@) =~= split_dotted(s@));
            }
            rest = tail;
        }
    }
    segs
}

/// The value the walk ends on, starting at `v` with the remaining
/// segments `segs`: descend while the next segment is a direct key of
/// the current table, and stop at the first one that is not.
pub open spec fn descend_spec(v: ConfigValue, segs: Seq<Seq<char>>) -> ConfigValue
    decreases segs.len(),
{
    if segs.len() == 0 {
        v
    } else {
        match table_query_spec(v, segs[0]) {
            Some(child) => descend_spec(child, segs.drop_first()),
            None => v,
        }
    }
}

/// The result of a dotted lookup over already-split segments: found
/// exactly when the first segment is a direct key of the root, in which
/// case the walk continues from that child.
pub open spec fn lookup_segs_spec(v: ConfigValue, segs: Seq<Seq<char>>) -> Option<ConfigValue> {
    if segs.len() > 0 && table_query_spec(v, segs[0]) is Some {
        Some(descend_spec(table_query_spec(v, segs[0]).unwrap(), segs.drop_first()))
    } else {
        None
    }
}

/// The result of a dotted lookup of `path` against the tree `v`.
pub open spec fn lookup_spec(v: ConfigValue, path: Seq<char>) -> Option<ConfigValue> {
    lookup_segs_spec(v, split_dotted(path))
}

/// `v` is a table that carries `key` as a direct key of its root.
pub open spec fn root_has_key(v: ConfigValue, key: Seq<char>) -> bool {
    match v {
        ConfigValue::Table(entries) => has_key(entries@, key),
        _ => false,
    }
}

/// A lookup whose first segment is not a direct key of the root finds
/// nothing, whatever the deeper structure of the tree.
pub proof fn lemma_lookup_first_segment_absent(v: ConfigValue, path: Seq<char>)
    requires
        !root_has_key(v, first_segment(path)),
    ensures
        lookup_spec(v, path) is None,
{
    match v {
        ConfigValue::Table(entries) => {
            lemma_table_get_has_key(entries@, first_segment(path));
        },
        _ => {},
    }
}

/// A lookup of a path without any `.` succeeds exactly when the path is
/// a direct key of the root table.
pub proof fn lemma_lookup_single_segment(v: ConfigValue, path: Seq<char>)
    requires
        forall|k: int| 0 <= k < path.len() ==> path[k] != '.',
    ensures
        lookup_spec(v, path) is Some <==> root_has_key(v, path),
{
    lemma_split_no_dot(path);
    match v {
        ConfigValue::Table(entries) => {
            lemma_table_get_has_key(entries@, path);
        },
        _ => {},
    }
}

/// Walk the tree along the dotted path `keys`, and return the value the
/// walk ends on, if the first segment matched at all.
pub fn lookup<'a>(value: &'a ConfigValue, keys: &str) -> (r: Option<&'a ConfigValue>)
    ensures
        match r {
            Some(v) => lookup_spec(*value, keys@) == Some(*v),
            None => lookup_spec(*value, keys@) is None,
        },
{
    let segs = split_path(keys);
    let mut current: &'a ConfigValue = value;
    let mut founded: bool = false;
    let n = segs.len();
    let mut idx: usize = 0;
    proof {
        lemma_split_nonempty(keys@);
    }
    loop
        invariant_except_break
            n == segs@.len(),
            str_views(segs@) == split_dotted(keys@),
            n >= 1,
            0 <= idx <= n,
            !founded ==> idx == 0 && current == value,
            founded ==> idx >= 1 && lookup_spec(*value, keys@) == Some(
                descend_spec(*current, str_views(segs@).skip(idx as int)),
            ),
        ensures
            founded ==> lookup_spec(*value, keys@) == Some(*current),
            !founded ==> lookup_spec(*value, keys@) is None,
        decreases n - idx,
    {
        if idx == n {
            proof {
                assert(str_views(segs@).skip(n as int) =~= Seq::<Seq<char>>::empty());
            }
            break;
        }
        let ghost gsegs = str_views(segs@);
        proof {
            assert(gsegs.skip(idx as int)[0] == gsegs[idx as int]);
            assert(gsegs[idx as int] == segs@[idx as int]@);
        }
        match table_query(current, segs[idx].as_str()) {
            Some(val) => {
                proof {
                    assert(gsegs.skip(idx as int).drop_first() =~= gsegs.skip(idx as int + 1));
                    if !founded {
                        assert(gsegs.drop_first() =~= gsegs.skip(1));
                    }
                }
                current = val;
                founded = true;
                idx += 1;
            },
            None => {
                break;
            },
        }
    }
    if founded {
        Some(current)
    } else {
        None
    }
}

} // verus!
