//! The cache's own rules: which files under the cache root are payloads
//! and which only describe one, how a payload's companions are named, which
//! bookkeeping files are orphans, the order in which payloads are trimmed
//! (least recently used first), and the tally of a cleanup.
//!
//! A file is named by its path components relative to the cache root.

use vstd::prelude::*;

use crate::keyed::str_eq;
use crate::sorting::{insert_position, insert_sorted, sorted_by};
use crate::text::{chars_eq, chars_of, lex_lt, str_lt, string_of};

verus! {

/// The components of a relative path, as character sequences.
pub open spec fn path_model(path: Seq<String>) -> Seq<Seq<char>> {
    path.map_values(|c: String| c@)
}

/// The directories under the cache root that hold regenerable data.
pub open spec fn is_cache_target(dir: Seq<char>) -> bool {
    dir == "pages"@ || dir == "render"@ || dir == "text"@ || dir == "search-highlight"@ || dir
        == "selection"@
}

/// Index of the last `.` of `name`, or -1.
pub open spec fn last_dot(name: Seq<char>) -> int
    decreases name.len(),
{
    if name.len() == 0 {
        -1
    } else if name.last() == '.' {
        name.len() - 1
    } else {
        last_dot(name.drop_last())
    }
}

/// The extension of a file name, as `Path::extension` finds it: the text
/// after the last `.`, unless that dot starts the name (or the name is
/// `..`).
pub open spec fn extension_spec(name: Seq<char>) -> Option<Seq<char>> {
    if name == ".."@ || last_dot(name) <= 0 {
        None
    } else {
        Some(name.skip(last_dot(name) + 1))
    }
}

/// The file name without its extension (`Path::file_stem`).
pub open spec fn stem_spec(name: Seq<char>) -> Seq<char> {
    if extension_spec(name) is Some {
        name.take(last_dot(name))
    } else {
        name
    }
}

/// Whether `path` names a file: it has a last component other than `..`.
pub open spec fn has_file_name(path: Seq<Seq<char>>) -> bool {
    path.len() > 0 && path.last() != ".."@
}

/// The extension of the file `path` names.
pub open spec fn extension_of_path(path: Seq<Seq<char>>) -> Option<Seq<char>> {
    if has_file_name(path) {
        extension_spec(path.last())
    } else {
        None
    }
}

/// `Path::with_extension`: the file name's extension replaced by `ext`
/// (removed when `ext` is empty); a path without a file name is kept.
pub open spec fn with_extension_spec(path: Seq<Seq<char>>, ext: Seq<char>) -> Seq<Seq<char>> {
    if has_file_name(path) {
        let stem = stem_spec(path.last());
        path.drop_last().push(
            if ext.len() == 0 {
                stem
            } else {
                stem + "."@ + ext
            },
        )
    } else {
        path
    }
}

/// The `.used` marker recording when the entry at `path` was last used:
/// the file name with `.used` appended.
pub open spec fn used_marker_spec(path: Seq<Seq<char>>) -> Seq<Seq<char>> {
    if has_file_name(path) {
        path.drop_last().push(path.last() + ".used"@)
    } else {
        path
    }
}

/// Whether `s` holds `part` somewhere.
pub open spec fn contains_seq(s: Seq<char>, part: Seq<char>) -> bool {
    exists|i: int| 0 <= i <= s.len() - part.len() && #[trigger] s.subrange(i, i + part.len()) == part
}

/// A temporary sibling (`name.tmp-<pid>-<nanos>`) of a file being written.
pub open spec fn is_temp_spec(path: Seq<Seq<char>>) -> bool {
    has_file_name(path) && contains_seq(path.last(), ".tmp-"@)
}

/// Cache payloads: rendered terminal output under `render/`, PNGs under
/// `pages/`, `search-highlight/` and `selection/`, compressed text under
/// `text/`.
pub open spec fn is_payload_spec(path: Seq<Seq<char>>) -> bool {
    path.len() > 0 && match extension_of_path(path) {
        Some(e) => if e == "ansi"@ {
            path[0] == "render"@
        } else if e == "png"@ {
            path[0] == "pages"@ || path[0] == "search-highlight"@ || path[0] == "selection"@
        } else if e == "zst"@ {
            path[0] == "text"@
        } else {
            false
        },
        None => false,
    }
}

/// Files that only describe a payload: `.used` markers and temporary
/// siblings anywhere in the cache directories, slice metadata (`.toml`)
/// in `pages/`.
pub open spec fn is_bookkeeping_spec(path: Seq<Seq<char>>) -> bool {
    path.len() > 0 && is_cache_target(path[0]) && match extension_of_path(path) {
        Some(e) => if e == "used"@ {
            true
        } else if e == "toml"@ {
            path[0] == "pages"@
        } else {
            is_temp_spec(path)
        },
        None => is_temp_spec(path),
    }
}

/// The payload a bookkeeping file belongs to: a marker's owner is the file
/// it marks; slice metadata belongs to the PNG of the same name.
pub open spec fn owner_spec(path: Seq<Seq<char>>) -> Seq<Seq<char>> {
    if extension_of_path(path) == Some("used"@) {
        with_extension_spec(path, Seq::empty())
    } else {
        with_extension_spec(path, "png"@)
    }
}

proof fn lemma_last_dot(name: Seq<char>)
    ensures
        -1 <= last_dot(name) < name.len(),
        last_dot(name) >= 0 ==> name[last_dot(name)] == '.',
        forall|j: int| last_dot(name) < j < name.len() ==> name[j] != '.',
    decreases name.len(),
{
    if name.len() > 0 && name.last() != '.' {
        lemma_last_dot(name.drop_last());
        assert forall|j: int| last_dot(name) < j < name.len() implies name[j] != '.' by {
            if j < name.len() - 1 {
                assert(name[j] == name.drop_last()[j]);
            }
        }
    }
}

/// Index of the last `.` of `cs`.
fn last_dot_index(cs: &Vec<char>) -> (k: Option<usize>)
    ensures
        match k {
            Some(i) => i as int == last_dot(cs@),
            None => last_dot(cs@) == -1,
        },
{
    let mut i = cs.len();
    proof {
        assert(cs@.take(i as int) =~= cs@);
    }
    while i > 0
        invariant
            i <= cs@.len(),
            last_dot(cs@) == last_dot(cs@.take(i as int)),
        decreases i,
    {
        if cs[i - 1] == '.' {
            return Some(i - 1);
        }
        proof {
            assert(cs@.take(i as int).drop_last() =~= cs@.take(i - 1));
        }
        i -= 1;
    }
    None
}

/// The extension of the file name `name` (see `extension_spec`).
fn name_extension(name: &Vec<char>) -> (ext: Option<Vec<char>>)
    ensures
        match ext {
            Some(e) => extension_spec(name@) == Some(e@),
            None => extension_spec(name@) is None,
        },
{
    if chars_eq(name, "..") {
        return None;
    }
    match last_dot_index(name) {
        Some(k) => {
            if k == 0 {
                None
            } else {
                proof {
                    lemma_last_dot(name@);
                    assert(k < name@.len());
                    assert(name@.len() == name.len());
                }
                let ext = crate::text::slice_chars(name, k + 1, name.len());
                proof {
                    assert(ext@ =~= name@.skip(k + 1));
                }
                Some(ext)
            }
        },
        None => None,
    }
}

/// The file name of `path` as characters, when it has one.
fn file_name_chars(path: &Vec<String>) -> (name: Option<Vec<char>>)
    ensures
        has_file_name(path_model(path@)) == (name is Some),
        name matches Some(n) ==> n@ == path_model(path@).last(),
{
    if path.len() == 0 {
        return None;
    }
    let name = chars_of(path[path.len() - 1].as_str());
    proof {
        assert(path_model(path@).last() == path@[path@.len() - 1]@);
    }
    if chars_eq(&name, "..") {
        None
    } else {
        Some(name)
    }
}

/// The extension of the file `path` names.
pub fn path_extension(path: &Vec<String>) -> (ext: Option<String>)
    ensures
        match ext {
            Some(e) => extension_of_path(path_model(path@)) == Some(e@),
            None => extension_of_path(path_model(path@)) is None,
        },
{
    match file_name_chars(path) {
        Some(name) => match name_extension(&name) {
            Some(e) => Some(string_of(&e)),
            None => None,
        },
        None => None,
    }
}

/// Whether the file `path` names has extension `ext`.
fn has_extension(path: &Vec<String>, ext: &str) -> (found: bool)
    ensures
        found == (extension_of_path(path_model(path@)) == Some(ext@)),
{
    match path_extension(path) {
        Some(e) => str_eq(e.as_str(), ext),
        None => false,
    }
}

/// A copy of `path` without its last component.
fn parent_components(path: &Vec<String>) -> (parent: Vec<String>)
    requires
        path@.len() > 0,
    ensures
        path_model(parent@) == path_model(path@).drop_last(),
{
    let mut parent: Vec<String> = Vec::new();
    let mut i: usize = 0;
    let last = path.len() - 1;
    while i < last
        invariant
            last == path@.len() - 1,
            i <= last,
            parent@ == path@.take(i as int),
        decreases last - i,
    {
        let c = path[i].clone();
        parent.push(c);
        proof {
            assert(parent@ =~= path@.take(i + 1));
        }
        i += 1;
    }
    proof {
        assert(parent@ =~= path@.drop_last());
        assert(path_model(parent@) =~= path_model(path@).drop_last());
    }
    parent
}

/// `Path::with_extension` on `path` (see `with_extension_spec`).
pub fn with_extension(path: &Vec<String>, ext: &str) -> (renamed: Vec<String>)
    ensures
        path_model(renamed@) == with_extension_spec(path_model(path@), ext@),
{
    match file_name_chars(path) {
        Some(name) => {
            let mut stem = match last_dot_index(&name) {
                Some(k) => {
                    proof {
                        lemma_last_dot(name@);
                    }
                    match name_extension(&name) {
                        Some(_) => crate::text::slice_chars(&name, 0, k),
                        None => crate::text::slice_chars(&name, 0, name.len()),
                    }
                },
                None => crate::text::slice_chars(&name, 0, name.len()),
            };
            proof {
                lemma_last_dot(name@);
                if extension_spec(name@) is Some {
                    assert(stem@ =~= name@.take(last_dot(name@)));
                } else {
                    assert(stem@ =~= name@);
                }
            }
            let ghost base = stem@;
            let ext_chars = chars_of(ext);
            if ext_chars.len() > 0 {
                stem.push('.');
                crate::text::extend_chars(&mut stem, &ext_chars);
                proof {
                    reveal_strlit(".");
                    assert(stem@ =~= base + "."@ + ext@);
                }
            }
            assert(stem@ == (if ext@.len() == 0 {
                stem_spec(name@)
            } else {
                stem_spec(name@) + "."@ + ext@
            }));
            let mut renamed = parent_components(path);
            let ghost parent = renamed@;
            renamed.push(string_of(&stem));
            proof {
                assert(path_model(renamed@) =~= path_model(parent).push(stem@));
            }
            renamed
        },
        None => {
            let mut same: Vec<String> = Vec::new();
            let mut i: usize = 0;
            while i < path.len()
                invariant
                    i <= path@.len(),
                    same@ == path@.take(i as int),
                decreases path@.len() - i,
            {
                same.push(path[i].clone());
                proof {
                    assert(same@ =~= path@.take(i + 1));
                }
                i += 1;
            }
            proof {
                assert(same@ =~= path@);
            }
            same
        },
    }
}

/// Whether `s` holds `part` somewhere.
fn contains_part(s: &Vec<char>, part: &Vec<char>) -> (found: bool)
    ensures
        found == contains_seq(s@, part@),
{
    if part.len() > s.len() {
        return false;
    }
    let last = s.len() - part.len();
    let mut i: usize = 0;
    while i <= last
        invariant
            last == s@.len() - part@.len(),
            i <= last + 1,
            forall|j: int| 0 <= j < i ==> #[trigger] s@.subrange(j, j + part@.len()) != part@,
        decreases last + 1 - i,
    {
        let mut k: usize = 0;
        let mut same = true;
        while k < part.len()
            invariant
                i <= last,
                s@.len() == last + part@.len(),
                k <= part@.len(),
                same == (forall|m: int| 0 <= m < k ==> s@[i + m] == part@[m]),
            decreases part@.len() - k,
        {
            assert(s@.len() == s.len());
            if s[i + k] != part[k] {
                same = false;
            }
            k += 1;
        }
        if same {
            proof {
                assert(s@.subrange(i as int, i + part@.len()) =~= part@);
            }
            return true;
        }
        proof {
            let m = choose|m: int| 0 <= m < part@.len() && s@[i + m] != part@[m];
            assert(s@.subrange(i as int, i + part@.len())[m] != part@[m]);
        }
        if i == last {
            return false;
        }
        i += 1;
    }
    false
}

/// The `.used` marker of the entry at `path` (see `used_marker_spec`).
pub fn used_marker_path(path: &Vec<String>) -> (marker: Vec<String>)
    ensures
        path_model(marker@) == used_marker_spec(path_model(path@)),
{
    match file_name_chars(path) {
        Some(name) => {
            let mut marked = name;
            crate::text::extend_str(&mut marked, ".used");
            let mut out = parent_components(path);
            let ghost parent = out@;
            out.push(string_of(&marked));
            proof {
                assert(path_model(out@) =~= path_model(parent).push(marked@));
            }
            out
        },
        None => with_extension(path, ""),
    }
}

/// Whether `path` names a temporary sibling of a file being written.
pub fn is_temp_file(path: &Vec<String>) -> (temp: bool)
    ensures
        temp == is_temp_spec(path_model(path@)),
{
    match file_name_chars(path) {
        Some(name) => {
            let part = chars_of(".tmp-");
            contains_part(&name, &part)
        },
        None => false,
    }
}

/// Whether `path` names a cache payload (see `is_payload_spec`).
pub fn is_cache_payload(path: &Vec<String>) -> (payload: bool)
    ensures
        payload == is_payload_spec(path_model(path@)),
{
    if path.len() == 0 {
        return false;
    }
    let dir = path[0].as_str();
    proof {
        assert(path_model(path@)[0] == path@[0]@);
    }
    if has_extension(path, "ansi") {
        str_eq(dir, "render")
    } else if has_extension(path, "png") {
        str_eq(dir, "pages") || str_eq(dir, "search-highlight") || str_eq(dir, "selection")
    } else if has_extension(path, "zst") {
        str_eq(dir, "text")
    } else {
        false
    }
}

/// Whether `path` names a bookkeeping file (see `is_bookkeeping_spec`).
pub fn is_bookkeeping(path: &Vec<String>) -> (bookkeeping: bool)
    ensures
        bookkeeping == is_bookkeeping_spec(path_model(path@)),
{
    if path.len() == 0 {
        return false;
    }
    let dir = path[0].as_str();
    proof {
        assert(path_model(path@)[0] == path@[0]@);
    }
    let in_targets = str_eq(dir, "pages") || str_eq(dir, "render") || str_eq(dir, "text")
        || str_eq(dir, "search-highlight") || str_eq(dir, "selection");
    if !in_targets {
        return false;
    }
    if has_extension(path, "used") {
        true
    } else if has_extension(path, "toml") {
        str_eq(dir, "pages")
    } else {
        is_temp_file(path)
    }
}

/// The payload the bookkeeping file `path` belongs to.
pub fn owner_of(path: &Vec<String>) -> (owner: Vec<String>)
    ensures
        path_model(owner@) == owner_spec(path_model(path@)),
{
    if has_extension(path, "used") {
        proof {
            reveal_strlit("");
            assert(""@ =~= Seq::<char>::empty());
        }
        with_extension(path, "")
    } else {
        with_extension(path, "png")
    }
}

/// The slice metadata kept beside a PNG payload: the same name with the
/// extension `toml`; other payloads have none.
pub fn slice_metadata_path(payload: &Vec<String>) -> (metadata: Option<Vec<String>>)
    ensures
        match metadata {
            Some(m) => extension_of_path(path_model(payload@)) == Some("png"@)
                && path_model(m@) == with_extension_spec(path_model(payload@), "toml"@),
            None => extension_of_path(path_model(payload@)) != Some("png"@),
        },
{
    if has_extension(payload, "png") {
        Some(with_extension(payload, "toml"))
    } else {
        None
    }
}

/// The relative paths of a list, as component sequences.
pub open spec fn paths_model(paths: Seq<Vec<String>>) -> Seq<Seq<Seq<char>>> {
    paths.map_values(|p: Vec<String>| path_model(p@))
}

/// Slice metadata that still has its PNG: a `.toml` bookkeeping file whose
/// owner is a payload.
pub open spec fn is_live_metadata(
    payloads: Seq<Seq<Seq<char>>>,
    bookkeeping: Seq<Seq<Seq<char>>>,
    path: Seq<Seq<char>>,
) -> bool {
    bookkeeping.contains(path) && extension_of_path(path) == Some("toml"@) && payloads.contains(
        owner_spec(path),
    )
}

/// Whether the orphan sweep deletes the bookkeeping file `path`: a
/// temporary sibling when it is stale; any other file when neither a
/// payload nor live slice metadata owns it.
pub open spec fn removes_orphan(
    payloads: Seq<Seq<Seq<char>>>,
    bookkeeping: Seq<Seq<Seq<char>>>,
    path: Seq<Seq<char>>,
    stale: bool,
) -> bool {
    if is_temp_spec(path) {
        stale
    } else {
        !payloads.contains(owner_spec(path)) && !is_live_metadata(
            payloads,
            bookkeeping,
            owner_spec(path),
        )
    }
}

/// Whether `a` and `b` name the same file.
fn same_path(a: &Vec<String>, b: &Vec<String>) -> (same: bool)
    ensures
        same == (path_model(a@) == path_model(b@)),
{
    if a.len() != b.len() {
        proof {
            assert(path_model(a@).len() != path_model(b@).len());
        }
        return false;
    }
    let mut i: usize = 0;
    while i < a.len()
        invariant
            a@.len() == b@.len(),
            i <= a@.len(),
            forall|j: int| 0 <= j < i ==> #[trigger] path_model(a@)[j] == path_model(b@)[j],
        decreases a@.len() - i,
    {
        if !str_eq(a[i].as_str(), b[i].as_str()) {
            proof {
                assert(path_model(a@)[i as int] != path_model(b@)[i as int]);
            }
            return false;
        }
        i += 1;
    }
    proof {
        assert(path_model(a@) =~= path_model(b@));
    }
    true
}

/// Whether `paths` names `path`.
fn contains_path(paths: &Vec<Vec<String>>, path: &Vec<String>) -> (found: bool)
    ensures
        found == paths_model(paths@).contains(path_model(path@)),
{
    let mut i: usize = 0;
    while i < paths.len()
        invariant
            i <= paths@.len(),
            forall|j: int| 0 <= j < i ==> #[trigger] paths_model(paths@)[j] != path_model(path@),
        decreases paths@.len() - i,
    {
        if same_path(&paths[i], path) {
            proof {
                assert(paths_model(paths@)[i as int] == path_model(path@));
            }
            return true;
        }
        i += 1;
    }
    false
}

/// Whether the bookkeeping list holds slice metadata `path` whose PNG is
/// among the payloads.
fn live_metadata(paths: &Vec<Vec<String>>, bookkeeping: &Vec<Vec<String>>, path: &Vec<String>) -> (live: bool)
    ensures
        live == is_live_metadata(paths_model(paths@), paths_model(bookkeeping@), path_model(path@)),
{
    if !contains_path(bookkeeping, path) || !has_extension(path, "toml") {
        return false;
    }
    let owner = owner_of(path);
    contains_path(paths, &owner)
}

/// Which bookkeeping files the orphan sweep deletes, given the payloads
/// found beside them and whether each file is stale (only asked of
/// temporary siblings).
pub fn orphan_removals(
    payloads: &Vec<Vec<String>>,
    bookkeeping: &Vec<Vec<String>>,
    stale: &Vec<bool>,
) -> (remove: Vec<bool>)
    requires
        stale@.len() == bookkeeping@.len(),
    ensures
        remove@.len() == bookkeeping@.len(),
        forall|j: int|
            0 <= j < bookkeeping@.len() ==> #[trigger] remove@[j] == removes_orphan(
                paths_model(payloads@),
                paths_model(bookkeeping@),
                paths_model(bookkeeping@)[j],
                stale@[j],
            ),
{
    let mut remove: Vec<bool> = Vec::new();
    let mut j: usize = 0;
    while j < bookkeeping.len()
        invariant
            stale@.len() == bookkeeping@.len(),
            j <= bookkeeping@.len(),
            remove@.len() == j,
            forall|k: int|
                0 <= k < j ==> #[trigger] remove@[k] == removes_orphan(
                    paths_model(payloads@),
                    paths_model(bookkeeping@),
                    paths_model(bookkeeping@)[k],
                    stale@[k],
                ),
        decreases bookkeeping@.len() - j,
    {
        let path = &bookkeeping[j];
        proof {
            assert(paths_model(bookkeeping@)[j as int] == path_model(path@));
        }
        let doomed = if is_temp_file(path) {
            stale[j]
        } else {
            let owner = owner_of(path);
            !contains_path(payloads, &owner) && !live_metadata(payloads, bookkeeping, &owner)
        };
        remove.push(doomed);
        j += 1;
    }
    remove
}

/// A payload found by a cache scan: where it is, its size, and when it was
/// last used (nanoseconds from the Unix epoch, negative before it).
#[derive(Debug, Clone)]
pub struct CacheEntry {
    pub path: Vec<String>,
    pub size_bytes: u64,
    pub last_used_nanos: i128,
}

/// An entry as a triple: last use, path, size.
pub open spec fn entry_model(e: CacheEntry) -> (int, Seq<Seq<char>>, int) {
    (e.last_used_nanos as int, path_model(e.path@), e.size_bytes as int)
}

pub open spec fn entries_model(es: Seq<CacheEntry>) -> Seq<(int, Seq<Seq<char>>, int)> {
    es.map_values(|e: CacheEntry| entry_model(e))
}

/// `Path` order on relative paths: component by component, each compared
/// as a string, a proper prefix first.
pub open spec fn path_lt(a: Seq<Seq<char>>, b: Seq<Seq<char>>) -> bool
    decreases a.len(),
{
    if a.len() == 0 {
        b.len() > 0
    } else if b.len() == 0 {
        false
    } else if a[0] != b[0] {
        lex_lt(a[0], b[0])
    } else {
        path_lt(a.drop_first(), b.drop_first())
    }
}

/// Payloads are trimmed least recently used first; equal times go by path.
pub open spec fn eviction_order() -> spec_fn((int, Seq<Seq<char>>, int), (int, Seq<Seq<char>>, int)) -> bool {
    |a: (int, Seq<Seq<char>>, int), b: (int, Seq<Seq<char>>, int)| a.0 < b.0 || (a.0 == b.0 && path_lt(a.1, b.1))
}

/// Path order is irreflexive.
pub proof fn lemma_path_lt_irreflexive(a: Seq<Seq<char>>)
    ensures
        !path_lt(a, a),
    decreases a.len(),
{
    if a.len() > 0 {
        lemma_path_lt_irreflexive(a.drop_first());
    }
}

/// Path order is transitive.
pub proof fn lemma_path_lt_transitive(a: Seq<Seq<char>>, b: Seq<Seq<char>>, c: Seq<Seq<char>>)
    requires
        path_lt(a, b),
        path_lt(b, c),
    ensures
        path_lt(a, c),
    decreases a.len(),
{
    if a.len() > 0 && b.len() > 0 && c.len() > 0 {
        if a[0] == b[0] && b[0] == c[0] {
            lemma_path_lt_transitive(a.drop_first(), b.drop_first(), c.drop_first());
        } else if a[0] == b[0] {
            assert(lex_lt(b[0], c[0]));
        } else if b[0] == c[0] {
            assert(lex_lt(a[0], b[0]));
        } else {
            crate::text::lemma_lex_lt_transitive(a[0], b[0], c[0]);
            if a[0] == c[0] {
                crate::text::lemma_lex_lt_transitive(b[0], c[0], b[0]);
                crate::text::lemma_lex_lt_irreflexive(b[0]);
            }
        }
    }
}

/// `path_lt` on two paths.
fn path_before(a: &Vec<String>, b: &Vec<String>) -> (before: bool)
    ensures
        before == path_lt(path_model(a@), path_model(b@)),
{
    let mut i: usize = 0;
    proof {
        assert(path_model(a@).skip(0) =~= path_model(a@));
        assert(path_model(b@).skip(0) =~= path_model(b@));
    }
    while i < a.len() && i < b.len()
        invariant
            i <= a@.len(),
            i <= b@.len(),
            path_lt(path_model(a@), path_model(b@)) == path_lt(
                path_model(a@).skip(i as int),
                path_model(b@).skip(i as int),
            ),
        decreases a@.len() - i,
    {
        proof {
            assert(path_model(a@).skip(i as int)[0] == a@[i as int]@);
            assert(path_model(b@).skip(i as int)[0] == b@[i as int]@);
        }
        if !str_eq(a[i].as_str(), b[i].as_str()) {
            return str_lt(a[i].as_str(), b[i].as_str());
        }
        proof {
            assert(path_model(a@).skip(i as int).drop_first() =~= path_model(a@).skip(i + 1));
            assert(path_model(b@).skip(i as int).drop_first() =~= path_model(b@).skip(i + 1));
        }
        i += 1;
    }
    i < b.len()
}

/// Whether entry `a` is trimmed before entry `b`.
fn evicted_before(a: &CacheEntry, b: &CacheEntry) -> (before: bool)
    ensures
        before == (eviction_order())(entry_model(*a), entry_model(*b)),
{
    if a.last_used_nanos < b.last_used_nanos {
        return true;
    }
    if a.last_used_nanos != b.last_used_nanos {
        return false;
    }
    path_before(&a.path, &b.path)
}

/// Inserts `entry` after every entry it is not trimmed before.
fn insert_by_age(sorted: &mut Vec<CacheEntry>, entry: CacheEntry)
    ensures
        entries_model(final(sorted)@) == insert_sorted(
            entries_model(old(sorted)@),
            entry_model(entry),
            eviction_order(),
        ),
{
    let ghost model = entries_model(sorted@);
    let mut p: usize = 0;
    while p < sorted.len() && !evicted_before(&entry, &sorted[p])
        invariant
            p <= sorted@.len(),
            model == entries_model(sorted@),
            insert_position(model, entry_model(entry), eviction_order(), 0) == insert_position(
                model,
                entry_model(entry),
                eviction_order(),
                p as int,
            ),
        decreases sorted@.len() - p,
    {
        p += 1;
    }
    let ghost before = sorted@;
    sorted.insert(p, entry);
    proof {
        assert(entries_model(sorted@) =~= entries_model(before).insert(p as int, entry_model(entry)));
    }
}

/// The entries in the order they are trimmed: least recently used first,
/// equal times by path (the order `sort_by` gives).
pub fn sort_for_eviction(entries: Vec<CacheEntry>) -> (sorted: Vec<CacheEntry>)
    ensures
        entries_model(sorted@) == sorted_by(entries_model(entries@), eviction_order()),
{
    let ghost unsorted = entries_model(entries@);
    let total = entries.len();
    let mut sorted: Vec<CacheEntry> = Vec::new();
    let mut rest = entries;
    let mut taken: usize = 0;
    proof {
        assert(entries_model(sorted@) =~= sorted_by(unsorted.take(0), eviction_order()));
        assert(entries_model(rest@) =~= unsorted.skip(0));
    }
    while rest.len() > 0
        invariant
            taken + rest@.len() == unsorted.len(),
            unsorted.len() == total,
            entries_model(rest@) == unsorted.skip(taken as int),
            entries_model(sorted@) == sorted_by(unsorted.take(taken as int), eviction_order()),
        decreases rest@.len(),
    {
        let ghost before = rest@;
        let entry = rest.remove(0);
        proof {
            assert(entries_model(before)[0] == entry_model(before[0]));
            assert(entries_model(rest@) =~= entries_model(before).drop_first());
            assert(unsorted.skip(taken as int).drop_first() =~= unsorted.skip(taken + 1));
            assert(entries_model(rest@) =~= unsorted.skip(taken + 1));
            assert(entry_model(entry) == unsorted[taken as int]);
            assert(unsorted.take(taken + 1).drop_last() =~= unsorted.take(taken as int));
        }
        insert_by_age(&mut sorted, entry);
        taken += 1;
    }
    proof {
        assert(unsorted.take(taken as int) =~= unsorted);
    }
    sorted
}

/// Trimming that no other instance can be disturbed by: a limit is set and
/// this is the only running instance.
pub fn trimming_enabled(max_bytes: u64, active_instances: usize) -> (enabled: bool)
    ensures
        enabled == (max_bytes != 0 && active_instances <= 1),
{
    max_bytes != 0 && active_instances <= 1
}

/// The sizes of `entries`, summed.
pub open spec fn total_size(entries: Seq<CacheEntry>) -> int
    decreases entries.len(),
{
    if entries.len() == 0 {
        0
    } else {
        total_size(entries.drop_last()) + entries.last().size_bytes as int
    }
}

/// What a cleanup found and removed.
#[derive(Debug, Clone, Copy, PartialEq, Eq)]
pub struct CacheCleanupReport {
    pub before_bytes: u64,
    pub after_bytes: u64,
    pub removed_files: usize,
    pub removed_bytes: u64,
}

impl Default for CacheCleanupReport {
    fn default() -> (report: Self)
        ensures
            report == (CacheCleanupReport {
                before_bytes: 0,
                after_bytes: 0,
                removed_files: 0,
                removed_bytes: 0,
            }),
    {
        CacheCleanupReport { before_bytes: 0, after_bytes: 0, removed_files: 0, removed_bytes: 0 }
    }
}

/// The report after one more payload of `size_bytes` was deleted.
pub open spec fn recorded_removal(report: CacheCleanupReport, size_bytes: u64) -> CacheCleanupReport {
    CacheCleanupReport {
        before_bytes: report.before_bytes,
        after_bytes: if report.after_bytes >= size_bytes {
            (report.after_bytes - size_bytes) as u64
        } else {
            0
        },
        removed_files: (report.removed_files + 1) as usize,
        removed_bytes: (report.removed_bytes + size_bytes) as u64,
    }
}

/// The tally adds up: what is left and what was removed make what was
/// found.
pub open spec fn tally_holds(report: CacheCleanupReport) -> bool {
    report.after_bytes + report.removed_bytes == report.before_bytes
}

impl CacheCleanupReport {
    /// The report before trimming `entries`: all of their bytes are still
    /// there and nothing was removed.
    pub fn measured(entries: &Vec<CacheEntry>) -> (report: Self)
        requires
            total_size(entries@) <= u64::MAX,
        ensures
            report.before_bytes == total_size(entries@),
            report.after_bytes == report.before_bytes,
            report.removed_files == 0,
            report.removed_bytes == 0,
    {
        let mut total: u64 = 0;
        let mut i: usize = 0;
        while i < entries.len()
            invariant
                i <= entries@.len(),
                total == total_size(entries@.take(i as int)),
                total_size(entries@) <= u64::MAX,
            decreases entries@.len() - i,
        {
            proof {
                assert(entries@.take(i + 1).drop_last() =~= entries@.take(i as int));
                lemma_total_size_prefix(entries@, i + 1);
            }
            total = total + entries[i].size_bytes;
            i += 1;
        }
        proof {
            assert(entries@.take(i as int) =~= entries@);
        }
        CacheCleanupReport { before_bytes: total, after_bytes: total, removed_files: 0, removed_bytes: 0 }
    }

    /// Whether more than `max_bytes` are still in the cache.
    pub fn over_limit(&self, max_bytes: u64) -> (over: bool)
        ensures
            over == (self.after_bytes > max_bytes),
    {
        self.after_bytes > max_bytes
    }

    /// Counts one more deleted payload of `size_bytes`.
    pub fn record_removal(&mut self, size_bytes: u64)
        requires
            old(self).removed_files < usize::MAX,
            old(self).removed_bytes + size_bytes <= u64::MAX,
        ensures
            *final(self) == recorded_removal(*old(self), size_bytes),
    {
        self.after_bytes = self.after_bytes.saturating_sub(size_bytes);
        self.removed_files = self.removed_files + 1;
        self.removed_bytes = self.removed_bytes + size_bytes;
    }

    /// The report of clearing the whole cache: every file found was
    /// removed, and the bytes removed are those no longer there.
    pub fn cleared(before_bytes: u64, before_files: usize, after_bytes: u64) -> (report: Self)
        ensures
            report == (CacheCleanupReport {
                before_bytes,
                after_bytes,
                removed_files: before_files,
                removed_bytes: if before_bytes >= after_bytes {
                    (before_bytes - after_bytes) as u64
                } else {
                    0
                },
            }),
    {
        CacheCleanupReport {
            before_bytes,
            after_bytes,
            removed_files: before_files,
            removed_bytes: before_bytes.saturating_sub(after_bytes),
        }
    }
}

proof fn lemma_total_size_prefix(entries: Seq<CacheEntry>, n: int)
    requires
        0 <= n <= entries.len(),
    ensures
        0 <= total_size(entries.take(n)) <= total_size(entries),
    decreases entries.len(),
{
    if entries.len() > 0 {
        if n == entries.len() {
            assert(entries.take(n) =~= entries);
            lemma_total_size_prefix(entries.drop_last(), n - 1);
            assert(entries.drop_last().take(n - 1) =~= entries.drop_last());
        } else {
            lemma_total_size_prefix(entries.drop_last(), n);
            assert(entries.drop_last().take(n) =~= entries.take(n));
        }
    }
}

/// A measured report's tally adds up, and deleting a payload no larger than
/// what is left keeps it adding up.
pub proof fn lemma_removal_keeps_tally(report: CacheCleanupReport, size_bytes: u64)
    requires
        tally_holds(report),
        size_bytes <= report.after_bytes,
        report.removed_files < usize::MAX,
    ensures
        tally_holds(recorded_removal(report, size_bytes)),
        recorded_removal(report, size_bytes).after_bytes < report.after_bytes || size_bytes == 0,
{
}

/// A name made of a non-empty stem, a dot and a dot-free extension has
/// that extension and that stem.
proof fn lemma_name_parts(stem: Seq<char>, ext: Seq<char>)
    requires
        stem.len() > 0,
        ext.len() > 0,
        forall|j: int| 0 <= j < ext.len() ==> ext[j] != '.',
    ensures
        last_dot(stem + "."@ + ext) == stem.len(),
        extension_spec(stem + "."@ + ext) == Some(ext),
        stem_spec(stem + "."@ + ext) == stem,
{
    reveal_strlit(".");
    reveal_strlit("..");
    let name = stem + "."@ + ext;
    lemma_last_dot(name);
    assert(name[stem.len() as int] == '.');
    assert forall|j: int| stem.len() < j < name.len() implies name[j] != '.' by {
        assert(name[j] == ext[j - stem.len() - 1]);
    }
    if last_dot(name) < stem.len() {
        assert(name[stem.len() as int] != '.');
    }
    assert(name.skip(stem.len() as int + 1) =~= ext);
    assert(name.take(stem.len() as int) =~= stem);
    assert(name.len() >= 3);
    assert(name != ".."@);
}

/// The file name of a payload has an extension.
proof fn lemma_payload_name(payload: Seq<Seq<char>>)
    requires
        is_payload_spec(payload),
    ensures
        payload.len() >= 2,
        last_dot(payload.last()) > 0,
        extension_spec(payload.last()) is Some,
        payload.last() == stem_spec(payload.last()) + "."@ + extension_spec(payload.last())->0,
{
    reveal_strlit(".");
    let name = payload.last();
    lemma_last_dot(name);
    if payload.len() == 1 {
        reveal_strlit("render");
        reveal_strlit("pages");
        reveal_strlit("search-highlight");
        reveal_strlit("selection");
        reveal_strlit("text");
        let k = last_dot(name);
        if k >= 0 {
            assert(name[k] == '.');
        }
        assert(false);
    }
    let k = last_dot(name);
    assert(name =~= name.take(k) + "."@ + name.skip(k + 1));
}

/// The marker of a payload is bookkeeping that the payload owns, so the
/// orphan sweep keeps it while the payload is there.
pub proof fn lemma_live_payload_keeps_marker(
    payloads: Seq<Seq<Seq<char>>>,
    bookkeeping: Seq<Seq<Seq<char>>>,
    payload: Seq<Seq<char>>,
    stale: bool,
)
    requires
        payloads.contains(payload),
        is_payload_spec(payload),
        !is_temp_spec(used_marker_spec(payload)),
    ensures
        is_bookkeeping_spec(used_marker_spec(payload)),
        owner_spec(used_marker_spec(payload)) == payload,
        !removes_orphan(payloads, bookkeeping, used_marker_spec(payload), stale),
{
    reveal_strlit(".used");
    reveal_strlit("used");
    reveal_strlit(".");
    lemma_payload_name(payload);
    let name = payload.last();
    assert(name + ".used"@ =~= name + "."@ + "used"@);
    lemma_name_parts(name, "used"@);
    assert(extension_of_path(used_marker_spec(payload)) == Some("used"@));
    assert(used_marker_spec(payload).drop_last().push(name) =~= payload);
    assert(used_marker_spec(payload)[0] == payload[0]);
}

/// The slice metadata of a PNG payload in `pages/` is bookkeeping that the
/// payload owns, and the metadata's own marker is owned by the metadata;
/// while the PNG is there, the orphan sweep keeps both.
pub proof fn lemma_live_png_keeps_slice_metadata(
    payloads: Seq<Seq<Seq<char>>>,
    bookkeeping: Seq<Seq<Seq<char>>>,
    payload: Seq<Seq<char>>,
    stale: bool,
)
    requires
        payloads.contains(payload),
        is_payload_spec(payload),
        payload[0] == "pages"@,
        extension_of_path(payload) == Some("png"@),
        bookkeeping.contains(with_extension_spec(payload, "toml"@)),
        !is_temp_spec(with_extension_spec(payload, "toml"@)),
        !is_temp_spec(used_marker_spec(with_extension_spec(payload, "toml"@))),
    ensures
        is_bookkeeping_spec(with_extension_spec(payload, "toml"@)),
        owner_spec(with_extension_spec(payload, "toml"@)) == payload,
        !removes_orphan(payloads, bookkeeping, with_extension_spec(payload, "toml"@), stale),
        is_bookkeeping_spec(used_marker_spec(with_extension_spec(payload, "toml"@))),
        owner_spec(used_marker_spec(with_extension_spec(payload, "toml"@))) == with_extension_spec(
            payload,
            "toml"@,
        ),
        !removes_orphan(
            payloads,
            bookkeeping,
            used_marker_spec(with_extension_spec(payload, "toml"@)),
            stale,
        ),
{
    reveal_strlit(".used");
    reveal_strlit("used");
    reveal_strlit("toml");
    reveal_strlit("png");
    reveal_strlit(".");
    reveal_strlit("..");
    lemma_payload_name(payload);
    let name = payload.last();
    let stem = stem_spec(name);
    let meta = with_extension_spec(payload, "toml"@);
    assert(payload.last() != ".."@);
    lemma_last_dot(name);
    assert(stem.len() == last_dot(name));
    assert(meta == payload.drop_last().push(stem + "."@ + "toml"@));
    lemma_name_parts(stem, "toml"@);
    let meta_name = stem + "."@ + "toml"@;
    assert(meta.last() == meta_name);
    assert(meta_name != ".."@);
    assert(extension_of_path(meta) == Some("toml"@));
    assert(meta[0] == payload[0]);
    assert(owner_spec(meta) == meta.drop_last().push(stem + "."@ + "png"@));
    assert(meta.drop_last().push(stem + "."@ + "png"@) =~= payload);
    let marker = used_marker_spec(meta);
    assert(meta_name + ".used"@ =~= meta_name + "."@ + "used"@);
    lemma_name_parts(meta_name, "used"@);
    assert(extension_of_path(marker) == Some("used"@));
    assert(marker.drop_last().push(meta_name) =~= meta);
    assert(marker[0] == payload[0]);
    assert(is_live_metadata(payloads, bookkeeping, meta));
}

/// Trimming order keeps every entry and never puts an entry after one that
/// was used later (or, used at the same time, has a later path).
pub proof fn lemma_eviction_order_is_sorted(entries: Seq<(int, Seq<Seq<char>>, int)>)
    ensures
        sorted_by(entries, eviction_order()).to_multiset() == entries.to_multiset(),
        forall|i: int, j: int|
            0 <= i < j < sorted_by(entries, eviction_order()).len() ==> !(eviction_order())(
                sorted_by(entries, eviction_order())[j],
                sorted_by(entries, eviction_order())[i],
            ),
{
    let before = eviction_order();
    assert forall|a: (int, Seq<Seq<char>>, int)| !#[trigger] before(a, a) by {
        lemma_path_lt_irreflexive(a.1);
    }
    assert forall|a: (int, Seq<Seq<char>>, int), b: (int, Seq<Seq<char>>, int), c: (int, Seq<Seq<char>>, int)|
        #[trigger] before(a, b) && #[trigger] before(b, c) implies before(a, c) by {
        if a.0 == b.0 && b.0 == c.0 {
            lemma_path_lt_transitive(a.1, b.1, c.1);
        }
    }
    crate::sorting::lemma_sorted_by_sorted(entries, before);
    crate::sorting::lemma_sorted_by_permutes(entries, before);
}

/// The sizes of entry triples, summed.
pub open spec fn model_total(ms: Seq<(int, Seq<Seq<char>>, int)>) -> int
    decreases ms.len(),
{
    if ms.len() == 0 {
        0
    } else {
        model_total(ms.drop_last()) + ms.last().2
    }
}

proof fn lemma_model_total_of_entries(es: Seq<CacheEntry>)
    ensures
        model_total(entries_model(es)) == total_size(es),
    decreases es.len(),
{
    if es.len() > 0 {
        assert(entries_model(es).drop_last() =~= entries_model(es.drop_last()));
        lemma_model_total_of_entries(es.drop_last());
    }
}

proof fn lemma_model_total_insert(ms: Seq<(int, Seq<Seq<char>>, int)>, p: int, x: (int, Seq<Seq<char>>, int))
    requires
        0 <= p <= ms.len(),
    ensures
        model_total(ms.insert(p, x)) == model_total(ms) + x.2,
    decreases ms.len(),
{
    if p == ms.len() {
        assert(ms.insert(p, x).drop_last() =~= ms);
    } else {
        assert(ms.insert(p, x).drop_last() =~= ms.drop_last().insert(p, x));
        lemma_model_total_insert(ms.drop_last(), p, x);
    }
}

proof fn lemma_model_total_sorted(ms: Seq<(int, Seq<Seq<char>>, int)>)
    ensures
        model_total(sorted_by(ms, eviction_order())) == model_total(ms),
    decreases ms.len(),
{
    if ms.len() > 0 {
        let rest = sorted_by(ms.drop_last(), eviction_order());
        lemma_model_total_sorted(ms.drop_last());
        crate::sorting::lemma_insert_position_bounds(rest, ms.last(), eviction_order(), 0);
        lemma_model_total_insert(rest, insert_position(rest, ms.last(), eviction_order(), 0), ms.last());
    }
}

/// Trimming a cache below a byte limit, one deletion at a time: payloads
/// are offered least recently used first, and none once the limit is met.
/// The caller deletes each offered payload and reports whether it could.
pub struct CacheEviction {
    order: Vec<CacheEntry>,
    next: usize,
    max_bytes: u64,
    report: CacheCleanupReport,
}

impl CacheEviction {
    /// The payloads in the order they are offered.
    pub closed spec fn order(&self) -> Seq<(int, Seq<Seq<char>>, int)> {
        entries_model(self.order@)
    }

    /// How many payloads were offered so far.
    pub closed spec fn offered(&self) -> nat {
        self.next as nat
    }

    pub closed spec fn limit(&self) -> u64 {
        self.max_bytes
    }

    pub closed spec fn tally(&self) -> CacheCleanupReport {
        self.report
    }

    /// Another payload is offered: more than the limit is left and some
    /// payload was not offered yet.
    pub open spec fn pending(&self) -> bool {
        self.tally().after_bytes > self.limit() && self.offered() < self.order().len()
    }

    pub closed spec fn wf(&self) -> bool {
        &&& self.next <= self.order@.len()
        &&& self.report.before_bytes == total_size(self.order@)
        &&& tally_holds(self.report)
        &&& self.report.removed_bytes <= total_size(self.order@.take(self.next as int))
        &&& self.report.removed_files <= self.next
    }

    /// Starts trimming `entries` below `max_bytes`.
    pub fn new(entries: Vec<CacheEntry>, max_bytes: u64) -> (eviction: Self)
        requires
            total_size(entries@) <= u64::MAX,
        ensures
            eviction.wf(),
            eviction.order() == sorted_by(entries_model(entries@), eviction_order()),
            eviction.offered() == 0,
            eviction.limit() == max_bytes,
            eviction.tally() == (CacheCleanupReport {
                before_bytes: total_size(entries@) as u64,
                after_bytes: total_size(entries@) as u64,
                removed_files: 0,
                removed_bytes: 0,
            }),
    {
        let report = CacheCleanupReport::measured(&entries);
        let ghost unsorted = entries@;
        let order = sort_for_eviction(entries);
        proof {
            lemma_model_total_of_entries(unsorted);
            lemma_model_total_of_entries(order@);
            lemma_model_total_sorted(entries_model(unsorted));
            assert(order@.take(0) =~= Seq::<CacheEntry>::empty());
        }
        CacheEviction { order, next: 0, max_bytes, report }
    }

    /// The payload to delete next, if any.
    pub fn next_removal(&self) -> (entry: Option<&CacheEntry>)
        requires
            self.wf(),
        ensures
            self.pending() == entry is Some,
            entry matches Some(e) ==> entry_model(*e) == self.order()[self.offered() as int],
    {
        if self.report.after_bytes > self.max_bytes && self.next < self.order.len() {
            Some(&self.order[self.next])
        } else {
            None
        }
    }

    /// Moves past the offered payload; `deleted` tells whether it is gone.
    pub fn removed(&mut self, deleted: bool)
        requires
            old(self).wf(),
            old(self).pending(),
        ensures
            final(self).wf(),
            final(self).order() == old(self).order(),
            final(self).limit() == old(self).limit(),
            final(self).offered() == old(self).offered() + 1,
            final(self).tally() == if deleted {
                recorded_removal(old(self).tally(), old(self).order()[old(self).offered() as int].2 as u64)
            } else {
                old(self).tally()
            },
    {
        assert(self.next < self.order.len());
        let size = self.order[self.next].size_bytes;
        proof {
            let k = self.next as int;
            assert(self.order@.take(k + 1).drop_last() =~= self.order@.take(k));
            lemma_total_size_prefix(self.order@, k + 1);
            assert(entries_model(self.order@)[k] == entry_model(self.order@[k]));
        }
        if deleted {
            self.report.record_removal(size);
        }
        self.next = self.next + 1;
    }

    pub fn report(&self) -> (report: CacheCleanupReport)
        ensures
            report == self.tally(),
    {
        self.report
    }
}

/// Every state of a trimming keeps the tally: what is left and what was
/// deleted add up to what was found; when nothing more is offered, either
/// the limit is met or every payload was offered.
pub proof fn lemma_eviction_keeps_tally(eviction: &CacheEviction)
    requires
        eviction.wf(),
    ensures
        tally_holds(eviction.tally()),
        eviction.offered() <= eviction.order().len(),
        !eviction.pending() ==> eviction.tally().after_bytes <= eviction.limit()
            || eviction.offered() == eviction.order().len(),
{
}

/// The process id recorded in a lock file: from the first line `pid=N`
/// whose `N` reads as a `u32`.
pub open spec fn lock_pid_spec(lines: Seq<Seq<char>>) -> Option<nat>
    decreases lines.len(),
{
    if lines.len() == 0 {
        None
    } else {
        let line = lines[0];
        let found = if line.len() >= 4 && line.take(4) == "pid="@ {
            crate::text::parse_unsigned_spec(line.skip(4), u32::MAX as nat)
        } else {
            None
        };
        match found {
            Some(pid) => Some(pid),
            None => lock_pid_spec(lines.drop_first()),
        }
    }
}

/// The process id recorded in the lock file `body` (see `lock_pid_spec`).
pub fn lock_pid(body: &str) -> (pid: Option<u32>)
    ensures
        match pid {
            Some(p) => lock_pid_spec(crate::text::lines_spec(body@)) == Some(p as nat),
            None => lock_pid_spec(crate::text::lines_spec(body@)) is None,
        },
{
    let all = crate::text::lines(body);
    let ghost ls = crate::text::lines_spec(body@);
    let mut i: usize = 0;
    proof {
        assert(ls.skip(0) =~= ls);
    }
    while i < all.len()
        invariant
            ls == crate::text::lines_spec(body@),
            all@.len() == ls.len(),
            forall|j: int| 0 <= j < all@.len() ==> #[trigger] all@[j]@ == ls[j],
            i <= all@.len(),
            lock_pid_spec(ls) == lock_pid_spec(ls.skip(i as int)),
        decreases all@.len() - i,
    {
        proof {
            assert(ls.skip(i as int)[0] == ls[i as int]);
            assert(ls.skip(i as int).drop_first() =~= ls.skip(i + 1));
            assert(all@[i as int]@ == ls[i as int]);
        }
        match crate::text::strip_prefix(&all[i], "pid=") {
            Some(rest) => {
                proof {
                    reveal_strlit("pid=");
                }
                match crate::text::parse_unsigned(&rest, 4294967295u64) {
                    Some(v) => {
                        proof {
                            let line = ls.skip(i as int)[0];
                            assert(line == all@[i as int]@);
                            assert(line.len() >= 4 && line.take(4) == "pid="@);
                            assert(rest@ == line.skip(4));
                            assert(lock_pid_spec(ls.skip(i as int)) == Some(v as nat));
                            assert(v <= 4294967295);
                            assert((v as u32) as nat == v as nat);
                        }
                        return Some(v as u32);
                    },
                    None => {},
                }
            },
            None => {
                proof {
                    reveal_strlit("pid=");
                }
            },
        }
        i += 1;
    }
    proof {
        assert(ls.skip(i as int) =~= Seq::<Seq<char>>::empty());
    }
    None
}

/// The lock guarding a cache file: its name with `.lock` appended, beside
/// it; a path without a file name gets `cache.lock` inside it.
pub open spec fn lock_path_spec(path: Seq<Seq<char>>) -> Seq<Seq<char>> {
    if has_file_name(path) {
        path.drop_last().push(path.last() + ".lock"@)
    } else {
        path.push("cache.lock"@)
    }
}

/// The lock file that guards the cache file `path` (see `lock_path_spec`).
pub fn cache_lock_path(path: &Vec<String>) -> (lock: Vec<String>)
    ensures
        path_model(lock@) == lock_path_spec(path_model(path@)),
{
    match file_name_chars(path) {
        Some(name) => {
            let mut locked = name;
            crate::text::extend_str(&mut locked, ".lock");
            let mut out = parent_components(path);
            let ghost parent = out@;
            out.push(string_of(&locked));
            proof {
                assert(path_model(out@) =~= path_model(parent).push(locked@));
            }
            out
        },
        None => {
            let mut out = copy_path(path);
            let ghost base = out@;
            let name = "cache.lock".to_owned();
            proof {
                reveal_strlit("cache.lock");
            }
            out.push(name);
            proof {
                assert(path_model(out@) =~= path_model(base).push("cache.lock"@));
            }
            out
        },
    }
}

/// Whether `path` names a lock file (extension `lock`).
pub fn is_lock_path(path: &Vec<String>) -> (lock: bool)
    ensures
        lock == (extension_of_path(path_model(path@)) == Some("lock"@)),
{
    has_extension(path, "lock")
}

/// A lock file younger than this is left alone: its owner may still be
/// writing it (two seconds, in nanoseconds).
pub const LOCK_RECLAIM_GRACE_NANOS: u128 = 2_000_000_000;

/// An instance registration older than this is reclaimed even when its
/// process looks alive (thirty seconds, in nanoseconds).
pub const INSTANCE_LOCK_STALE_AFTER_NANOS: u128 = 30_000_000_000;

/// A cache entry lock older than this is reclaimed even when its process
/// looks alive (ten minutes, in nanoseconds).
pub const CACHE_FILE_LOCK_STALE_AFTER_NANOS: u128 = 600_000_000_000;

/// Whether a lock file of age `age_nanos` (unknown when `None`) is too
/// fresh to be reclaimed.
pub fn within_reclaim_grace(age_nanos: Option<u128>) -> (fresh: bool)
    ensures
        fresh == (age_nanos matches Some(age) && age < LOCK_RECLAIM_GRACE_NANOS),
{
    match age_nanos {
        Some(age) => age < LOCK_RECLAIM_GRACE_NANOS,
        None => false,
    }
}

/// Whether a lock file that nobody holds may be removed: its owner is gone,
/// or its age is unknown, or it is older than `stale_after_nanos`.
pub fn lock_is_stale(owner_alive: bool, age_nanos: Option<u128>, stale_after_nanos: u128) -> (stale: bool)
    ensures
        stale == (!owner_alive || match age_nanos {
            None => true,
            Some(age) => age > stale_after_nanos,
        }),
{
    if !owner_alive {
        return true;
    }
    match age_nanos {
        None => true,
        Some(age) => age > stale_after_nanos,
    }
}

/// How long a refreshed `.used` marker counts as current: one minute, in
/// nanoseconds. Entries are read many times per second while browsing;
/// trimming only needs a rough age.
pub const TOUCH_INTERVAL_NANOS: u128 = 60_000_000_000;

/// When the marker of `path` was last refreshed, by the latest record.
pub open spec fn last_touch(touches: Seq<(Vec<String>, u128)>, path: Seq<Seq<char>>) -> Option<u128>
    decreases touches.len(),
{
    if touches.len() == 0 {
        None
    } else if path_model(touches.last().0@) == path {
        Some(touches.last().1)
    } else {
        last_touch(touches.drop_last(), path)
    }
}

/// A marker refreshed at `last` is still current at `now`; a clock that
/// went back counts as no time passed.
pub open spec fn touched_recently(last: Option<u128>, now: u128) -> bool {
    match last {
        None => false,
        Some(t) => (if now >= t {
            now - t
        } else {
            0
        }) < TOUCH_INTERVAL_NANOS,
    }
}

/// Which `.used` markers were refreshed lately, so each is rewritten at
/// most once per interval.
pub struct TouchLog {
    touches: Vec<(Vec<String>, u128)>,
}

impl TouchLog {
    /// When the marker of `path` was last refreshed, if it was.
    pub closed spec fn last_refresh(&self, path: Seq<Seq<char>>) -> Option<u128> {
        last_touch(self.touches@, path)
    }

    pub fn new() -> (log: Self)
        ensures
            forall|path: Seq<Seq<char>>| #[trigger] log.last_refresh(path) is None,
    {
        TouchLog { touches: Vec::new() }
    }

    /// Whether the marker of `path` is due for a refresh at `now`
    /// (nanoseconds on a monotonic clock); a due marker is claimed.
    pub fn claim(&mut self, path: &Vec<String>, now: u128) -> (due: bool)
        ensures
            due == !touched_recently(old(self).last_refresh(path_model(path@)), now),
            forall|q: Seq<Seq<char>>| #[trigger]
                final(self).last_refresh(q) == if due && q == path_model(path@) {
                    Some(now)
                } else {
                    old(self).last_refresh(q)
                },
    {
        let last = self.lookup(path);
        let recent = match last {
            None => false,
            Some(t) => {
                let elapsed = if now >= t {
                    now - t
                } else {
                    0
                };
                elapsed < TOUCH_INTERVAL_NANOS
            },
        };
        if recent {
            return false;
        }
        let mut kept: Vec<(Vec<String>, u128)> = Vec::new();
        let mut i: usize = 0;
        let ghost target = path_model(path@);
        while i < self.touches.len()
            invariant
                i <= self.touches@.len(),
                self.touches == old(self).touches,
                target == path_model(path@),
                forall|q: Seq<Seq<char>>| #[trigger]
                    last_touch(kept@, q) == if q == target {
                        None
                    } else {
                        last_touch(self.touches@.take(i as int), q)
                    },
            decreases self.touches@.len() - i,
        {
            let ghost before = kept@;
            proof {
                assert(self.touches@.take(i + 1).drop_last() =~= self.touches@.take(i as int));
                assert(self.touches@.take(i + 1).last() == self.touches@[i as int]);
            }
            let ghost elem = self.touches@[i as int];
            if !same_path(&self.touches[i].0, path) {
                let copy = copy_path(&self.touches[i].0);
                kept.push((copy, self.touches[i].1));
                proof {
                    assert(kept@.drop_last() =~= before);
                    assert(path_model(kept@.last().0@) == path_model(elem.0@));
                    assert(kept@.last().1 == elem.1);
                }
            } else {
                proof {
                    assert(path_model(elem.0@) == target);
                }
            }
            proof {
                assert forall|q: Seq<Seq<char>>| #[trigger]
                    last_touch(kept@, q) == if q == target {
                        None
                    } else {
                        last_touch(self.touches@.take(i + 1), q)
                    } by {
                    assert(last_touch(before, q) == if q == target {
                        None
                    } else {
                        last_touch(self.touches@.take(i as int), q)
                    });
                }
            }
            i += 1;
        }
        proof {
            assert(self.touches@.take(i as int) =~= self.touches@);
        }
        let ghost base = kept@;
        kept.push((copy_path(path), now));
        proof {
            assert(kept@.drop_last() =~= base);
            assert forall|q: Seq<Seq<char>>| #[trigger]
                last_touch(kept@, q) == if q == target {
                    Some(now)
                } else {
                    old(self).last_refresh(q)
                } by {
                assert(last_touch(base, q) == if q == target {
                    None
                } else {
                    last_touch(old(self).touches@, q)
                });
            }
        }
        self.touches = kept;
        true
    }

    fn lookup(&self, path: &Vec<String>) -> (last: Option<u128>)
        ensures
            last == self.last_refresh(path_model(path@)),
    {
        let mut i: usize = self.touches.len();
        proof {
            assert(self.touches@.take(i as int) =~= self.touches@);
        }
        while i > 0
            invariant
                i <= self.touches@.len(),
                last_touch(self.touches@, path_model(path@)) == last_touch(
                    self.touches@.take(i as int),
                    path_model(path@),
                ),
            decreases i,
        {
            proof {
                assert(self.touches@.take(i as int).drop_last() =~= self.touches@.take(i - 1));
                assert(self.touches@.take(i as int).last() == self.touches@[i - 1]);
            }
            if same_path(&self.touches[i - 1].0, path) {
                return Some(self.touches[i - 1].1);
            }
            i -= 1;
        }
        None
    }

    /// Forgets which markers were refreshed, e.g. after the cache was
    /// cleared.
    pub fn forget(&mut self)
        ensures
            forall|path: Seq<Seq<char>>| #[trigger] final(self).last_refresh(path) is None,
    {
        self.touches = Vec::new();
    }
}

fn copy_path(path: &Vec<String>) -> (copy: Vec<String>)
    ensures
        path_model(copy@) == path_model(path@),
{
    let mut copy: Vec<String> = Vec::new();
    let mut i: usize = 0;
    while i < path.len()
        invariant
            i <= path@.len(),
            copy@ == path@.take(i as int),
        decreases path@.len() - i,
    {
        copy.push(path[i].clone());
        proof {
            assert(copy@ =~= path@.take(i + 1));
        }
        i += 1;
    }
    proof {
        assert(path@.take(i as int) =~= path@);
    }
    copy
}

/// A claimed marker is not due again within the interval: two claims of
/// one path less than an interval apart (on a clock that does not go
/// back) refresh it once.
pub proof fn lemma_touch_claimed_once_per_interval(
    before: TouchLog,
    middle: TouchLog,
    after: TouchLog,
    path: Seq<Seq<char>>,
    first: u128,
    second: u128,
    due_first: bool,
    due_second: bool,
)
    requires
        due_first == !touched_recently(before.last_refresh(path), first),
        forall|q: Seq<Seq<char>>| #[trigger]
            middle.last_refresh(q) == if due_first && q == path {
                Some(first)
            } else {
                before.last_refresh(q)
            },
        due_second == !touched_recently(middle.last_refresh(path), second),
        first <= second,
        second - first < TOUCH_INTERVAL_NANOS,
        due_first,
    ensures
        !due_second,
{
    assert(middle.last_refresh(path) == Some(first));
}

} // verus!
