//! Resolution of a relative import to a file: the paths that may hold the
//! component, tried in order.
use vstd::prelude::*;
use crate::error::{JsxrsError, ErrorView};
use crate::text::{starts_with, str_starts_with, chars_of, string_of, push_str, copy_string, string_from};

verus! {

broadcast use vstd::string::group_string_axioms;

/// The import path without one leading `./`.
pub open spec fn without_leading_dot(p: Seq<char>) -> Seq<char> {
    if starts_with(p, "./"@) {
        p.skip(2)
    } else {
        p
    }
}

/// `Path::join` on Unix: an absolute path replaces the base; otherwise a separator is
/// put between a non-empty base that does not end with one and the path.
pub open spec fn join_path(base: Seq<char>, p: Seq<char>) -> Seq<char> {
    if p.len() > 0 && p[0] == '/' {
        p
    } else if base.len() == 0 || base.last() == '/' {
        base + p
    } else {
        base + "/"@ + p
    }
}

/// The paths tried for an import, in order: the joined path itself, then with each of
/// the extensions `.tsx`, `.jsx`, `.ts`, `.js`, then as a directory with `index.tsx`
/// or `index.jsx`.
pub open spec fn candidates(import_path: Seq<char>, base_dir: Seq<char>) -> Seq<Seq<char>> {
    let c = join_path(base_dir, without_leading_dot(import_path));
    seq![c, c + ".tsx"@, c + ".jsx"@, c + ".ts"@, c + ".js"@, c + "/index.tsx"@, c + "/index.jsx"@]
}

/// The first `i < n` at which `is_file` holds (an index past its end does not).
pub open spec fn first_file(is_file: Seq<bool>, n: int) -> Option<int>
    decreases n,
{
    if n <= 0 {
        None
    } else {
        match first_file(is_file, n - 1) {
            Some(i) => Some(i),
            None => if n - 1 < is_file.len() && is_file[n - 1] { Some(n - 1) } else { None },
        }
    }
}

/// The resolved file: the first candidate that is a file.
pub open spec fn resolved(import_path: Seq<char>, base_dir: Seq<char>, is_file: Seq<bool>) -> Result<Seq<char>, ErrorView> {
    let c = candidates(import_path, base_dir);
    match first_file(is_file, c.len() as int) {
        Some(i) => Ok(c[i]),
        None => Err(ErrorView::ImportNotFound(import_path)),
    }
}

/// The import path without one leading `./`.
pub fn strip_leading_dot(path: &str) -> (r: String)
    ensures
        r@ == without_leading_dot(path@),
{
    if str_starts_with(path, "./") {
        let v = chars_of(path);
        proof { reveal_strlit("./"); }
        assert(v@.subrange(2, v.len() as int) =~= path@.skip(2));
        string_of(&v, 2, v.len())
    } else {
        string_from(path)
    }
}

/// `base` with `suffix` appended to its last component.
pub fn append_to_path(base: &str, suffix: &str) -> (r: String)
    ensures
        r@ == base@ + suffix@,
{
    let mut s = string_from(base);
    push_str(&mut s, suffix);
    s
}

/// `Path::join` on Unix paths.
pub fn join_paths(base: &str, path: &str) -> (r: String)
    ensures
        r@ == join_path(base@, path@),
{
    let pv = chars_of(path);
    if pv.len() > 0 && pv[0] == '/' {
        return string_from(path);
    }
    let bv = chars_of(base);
    let mut s = string_from(base);
    if !(bv.len() == 0 || bv[bv.len() - 1] == '/') {
        push_str(&mut s, "/");
    }
    push_str(&mut s, path);
    s
}

/// The paths tried for an import, in order.
pub fn import_candidates(import_path: &str, base_dir: &str) -> (r: Vec<String>)
    ensures
        r@.len() == 7,
        forall|i: int| 0 <= i < 7 ==> #[trigger] r@[i]@ == candidates(import_path@, base_dir@)[i],
{
    let stripped = strip_leading_dot(import_path);
    let c = join_paths(base_dir, stripped.as_str());
    let mut v: Vec<String> = Vec::new();
    v.push(copy_string(&c));
    v.push(append_to_path(c.as_str(), ".tsx"));
    v.push(append_to_path(c.as_str(), ".jsx"));
    v.push(append_to_path(c.as_str(), ".ts"));
    v.push(append_to_path(c.as_str(), ".js"));
    v.push(append_to_path(c.as_str(), "/index.tsx"));
    v.push(append_to_path(c.as_str(), "/index.jsx"));
    v
}

/// Resolves an import against `base_dir`: the first of the candidate paths (see
/// [`import_candidates`]) that is a file, where `is_file[i]` tells whether candidate
/// `i` is one (a missing entry counts as no). Where none is, the import is not found.
pub fn resolve_import(import_path: &str, base_dir: &str, is_file: &Vec<bool>) -> (r: Result<String, JsxrsError>)
    ensures
        match resolved(import_path@, base_dir@, is_file@) {
            Ok(p) => r is Ok && r->Ok_0@ == p,
            Err(e) => r is Err && r->Err_0@ == e,
        },
{
    let cands = import_candidates(import_path, base_dir);
    let ghost c = candidates(import_path@, base_dir@);
    let mut i: usize = 0;
    while i < cands.len()
        invariant
            i <= cands.len() == 7,
            c == candidates(import_path@, base_dir@),
            c.len() == 7,
            forall|j: int| 0 <= j < 7 ==> #[trigger] cands@[j]@ == c[j],
            first_file(is_file@, i as int) is None,
        decreases cands.len() - i,
    {
        if i < is_file.len() && is_file[i] {
            proof {
                lemma_first_file_found(is_file@, i as int, 7);
                assert(cands@[i as int]@ == c[i as int]);
            }
            return Ok(copy_string(&cands[i]));
        }
        i = i + 1;
    }
    Err(JsxrsError::ImportNotFound { path: string_from(import_path) })
}

proof fn lemma_first_file_found(is_file: Seq<bool>, i: int, n: int)
    requires
        0 <= i < n,
        first_file(is_file, i) is None,
        i < is_file.len() && is_file[i],
    ensures
        first_file(is_file, n) == Some(i),
    decreases n,
{
    if n > i + 1 {
        lemma_first_file_found(is_file, i, n - 1);
    }
}

/// The resolved path is always one of the candidates, and it is a file.
pub proof fn resolved_is_an_existing_candidate(import_path: Seq<char>, base_dir: Seq<char>, is_file: Seq<bool>)
    ensures
        resolved(import_path, base_dir, is_file) matches Ok(p) ==> exists|i: int|
            0 <= i < 7 && i < is_file.len() && is_file[i] && #[trigger] candidates(import_path, base_dir)[i] == p,
{
    lemma_first_file_in_range(is_file, 7);
}

proof fn lemma_first_file_in_range(is_file: Seq<bool>, n: int)
    ensures
        first_file(is_file, n) matches Some(i) ==> 0 <= i < n && i < is_file.len() && is_file[i],
    decreases n,
{
    if n > 0 {
        lemma_first_file_in_range(is_file, n - 1);
    }
}

} // verus!
