//! The configuration cascade: candidate files in priority order, the
//! manifest first, then an optional project-local override, then an
//! optional global override, searched with first-match-wins semantics.
//! Candidate paths are built here; the caller only checks which files
//! exist, reads them, and walks the list.

use vstd::prelude::*;
use vstd::string::*;
use crate::value::ConfigValue;
use crate::query::{lookup_spec, str_views};

verus! {

/// The position of the last `/` in `s`, or `-1` if there is none.
pub open spec fn last_slash(s: Seq<char>) -> int
    decreases s.len(),
{
    if s.len() == 0 {
        -1
    } else if s[s.len() - 1] == '/' {
        s.len() - 1
    } else {
        last_slash(s.drop_last())
    }
}

/// The directory part of a path: everything before the last `/`, or
/// nothing when the path has no `/` at all.
pub open spec fn parent_dir_spec(s: Seq<char>) -> Option<Seq<char>> {
    if last_slash(s) >= 0 {
        Some(s.take(last_slash(s)))
    } else {
        None
    }
}

/// A scan from the end that saw no `/` after position `j`, and a `/` at
/// `j`, has found exactly `last_slash`.
proof fn lemma_last_slash_at(s: Seq<char>, j: int)
    requires
        0 <= j < s.len(),
        s[j] == '/',
        forall|k: int| j < k < s.len() ==> s[k] != '/',
    ensures
        last_slash(s) == j,
    decreases s.len(),
{
    if j < s.len() - 1 {
        assert(s[s.len() - 1] != '/');
        assert(forall|k: int|
            j < k < s.len() - 1 ==> #[trigger] s.drop_last()[k] == s[k]);
        lemma_last_slash_at(s.drop_last(), j);
    }
}

/// A path without any `/` has no last slash.
proof fn lemma_no_slash(s: Seq<char>)
    requires
        forall|k: int| 0 <= k < s.len() ==> s[k] != '/',
    ensures
        last_slash(s) == -1,
    decreases s.len(),
{
    if s.len() > 0 {
        assert(forall|k: int|
            0 <= k < s.len() - 1 ==> #[trigger] s.drop_last()[k] == s[k]);
        lemma_no_slash(s.drop_last());
    }
}

/// The directory a path lies in: everything before its last `/`.
pub fn parent_dir(path: &str) -> (r: Option<String>)
    ensures
        match r {
            Some(d) => parent_dir_spec(path@) == Some(d@),
            None => parent_dir_spec(path@) is None,
        },
{
    let n = path.unicode_len();
    let mut i: usize = n;
    while i > 0
        invariant
            n == path@.len(),
            0 <= i <= n,
            forall|k: int| i <= k < n ==> path@[k] != '/',
        decreases i,
    {
        if path.get_char(i - 1) == '/' {
            proof {
                lemma_last_slash_at(path@, i - 1);
                assert(path@.subrange(0, i - 1) =~= path@.take(i - 1));
            }
            let d = path.substring_char(0, i - 1);
            return Some(d.to_owned());
        }
        i -= 1;
    }
    proof {
        lemma_no_slash(path@);
    }
    None
}

/// The directory holding the project-local override candidates: the
/// conventional override subdirectory of the manifest's own directory.
pub fn local_override_dir(manifest_path: &str) -> (r: Option<String>)
    ensures
        match r {
            Some(d) => parent_dir_spec(manifest_path@) matches Some(p) && d@ == p + "/.cargo"@,
            None => parent_dir_spec(manifest_path@) is None,
        },
{
    match parent_dir(manifest_path) {
        Some(dir) => {
            let mut d = dir;
            d.append("/.cargo");
            Some(d)
        },
        None => None,
    }
}

/// The two accepted override filenames inside a directory: first the
/// extensionless name, then the one with the recognized extension.
pub fn override_paths(dir: &str) -> (r: (String, String))
    ensures
        r.0@ == dir@ + "/config"@,
        r.1@ == dir@ + "/config.toml"@,
{
    let mut plain = dir.to_owned();
    plain.append("/config");
    let mut with_ext = dir.to_owned();
    with_ext.append("/config.toml");
    (plain, with_ext)
}

/// Pick the override candidate a directory contributes: the
/// extensionless file when it exists, else the extensioned one when that
/// exists, else nothing at all — never a placeholder.
pub fn choose_override(
    plain: String,
    with_ext: String,
    plain_is_file: bool,
    ext_is_file: bool,
) -> (r: Option<String>)
    ensures
        plain_is_file ==> (r matches Some(p) && p@ == plain@),
        !plain_is_file && ext_is_file ==> (r matches Some(p) && p@ == with_ext@),
        !plain_is_file && !ext_is_file ==> r is None,
{
    if plain_is_file {
        Some(plain)
    } else if ext_is_file {
        Some(with_ext)
    } else {
        None
    }
}

/// The view of an optional candidate: one path, or none.
pub open spec fn opt_seq(o: Option<Seq<char>>) -> Seq<Seq<char>> {
    match o {
        Some(s) => seq![s],
        None => seq![],
    }
}

/// The view of an optional string.
pub open spec fn opt_view(o: Option<String>) -> Option<Seq<char>> {
    match o {
        Some(s) => Some(s@),
        None => None,
    }
}

/// The candidate list, highest priority first: the manifest itself, then
/// whichever optional override candidates exist.
pub open spec fn candidate_list_spec(
    manifest: Seq<char>,
    local: Option<Seq<char>>,
    global: Option<Seq<char>>,
) -> Seq<Seq<char>> {
    seq![manifest] + opt_seq(local) + opt_seq(global)
}

/// Assemble the candidate list out of the manifest path and the optional
/// override candidates.
pub fn build_candidates(
    manifest: String,
    local: Option<String>,
    global: Option<String>,
) -> (r: Vec<String>)
    ensures
        str_views(r@) == candidate_list_spec(manifest@, opt_view(local), opt_view(global)),
{
    let ghost gm = manifest@;
    let ghost gl = opt_view(local);
    let ghost gg = opt_view(global);
    let mut r: Vec<String> = Vec::new();
    r.push(manifest);
    if let Some(l) = local {
        r.push(l);
    }
    if let Some(g) = global {
        r.push(g);
    }
    proof {
        assert(str_views(r@) =~= candidate_list_spec(gm, gl, gg));
    }
    r
}

/// A directory where neither override filename variant exists
/// contributes no candidate: the cascade shrinks, it never holds a
/// placeholder.
pub proof fn lemma_candidate_omission(
    manifest: Seq<char>,
    local: Option<Seq<char>>,
    global: Option<Seq<char>>,
)
    ensures
        candidate_list_spec(manifest, local, global).len() == 1 + opt_seq(local).len() + opt_seq(
            global,
        ).len(),
        candidate_list_spec(manifest, None, None) =~= seq![manifest],
        candidate_list_spec(manifest, local, global)[0] == manifest,
{
}

/// How a pass over the whole cascade ends: the first candidate whose
/// tree carries the queried path wins; a candidate that does not parse
/// aborts the pass; a clean pass with no match finds nothing.
pub enum CascadeOutcome {
    Found(Seq<char>, ConfigValue),
    NotFound,
    ParseFail(Seq<char>),
}

/// The outcome of walking the candidates in order. Each candidate is a
/// `(path, parse result)` pair; the parse result is nothing when the
/// file's text is not a valid configuration document.
pub open spec fn cascade_spec(
    files: Seq<(Seq<char>, Option<ConfigValue>)>,
    query: Seq<char>,
) -> CascadeOutcome
    decreases files.len(),
{
    if files.len() == 0 {
        CascadeOutcome::NotFound
    } else {
        match files[0].1 {
            None => CascadeOutcome::ParseFail(files[0].0),
            Some(tree) => match lookup_spec(tree, query) {
                Some(v) => CascadeOutcome::Found(files[0].0, v),
                None => cascade_spec(files.drop_first(), query),
            },
        }
    }
}

/// First-match short-circuit: when the first candidate lacks the path
/// and the second carries it, the second is the reported source, and the
/// outcome does not depend on the third candidate in any way — it is
/// never consulted.
pub proof fn lemma_cascade_short_circuit(
    a: (Seq<char>, Option<ConfigValue>),
    b: (Seq<char>, Option<ConfigValue>),
    c1: (Seq<char>, Option<ConfigValue>),
    c2: (Seq<char>, Option<ConfigValue>),
    query: Seq<char>,
)
    requires
        a.1 matches Some(ta) && lookup_spec(ta, query) is None,
        b.1 matches Some(tb) && lookup_spec(tb, query) is Some,
    ensures
        cascade_spec(seq![a, b, c1], query) matches CascadeOutcome::Found(source, v)
            && source == b.0 && Some(v) == lookup_spec(b.1.unwrap(), query),
        cascade_spec(seq![a, b, c1], query) == cascade_spec(seq![a, b, c2], query),
{
    assert(seq![a, b, c1].drop_first() =~= seq![b, c1]);
    assert(seq![a, b, c2].drop_first() =~= seq![b, c2]);
    let v = lookup_spec(b.1.unwrap(), query).unwrap();
    assert(cascade_spec(seq![b, c1], query) == CascadeOutcome::Found(b.0, v));
    assert(cascade_spec(seq![b, c2], query) == CascadeOutcome::Found(b.0, v));
    assert(cascade_spec(seq![a, b, c1], query) == cascade_spec(seq![b, c1], query));
    assert(cascade_spec(seq![a, b, c2], query) == cascade_spec(seq![b, c2], query));
}

} // verus!
