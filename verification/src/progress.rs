//! The list of remembered reading positions. Entries are keyed by document
//! identity (path, size, modification time) so that an edited PDF does not
//! get a stale position back; the list keeps the most recently updated
//! documents only.

use vstd::prelude::*;

use crate::keyed::str_eq;
use crate::sorting::{insert_position, insert_sorted, sorted_by};
use crate::text::{lex_lt, str_lt};

verus! {

/// How many documents are remembered; the least recently updated go first.
pub const MAX_ENTRIES: usize = 100;

/// The saved position of one document: its identity, the position `P`
/// (a fractional page), its page count, and when it was saved (seconds
/// since the Unix epoch). The modification time is kept as decimal text.
#[derive(Debug, Clone)]
pub struct ProgressRecord<P> {
    pub path: String,
    pub progress: P,
    pub size_bytes: u64,
    pub modified_nanos: String,
    pub page_count: usize,
    pub updated_secs: u64,
}

/// Newest first; equal times by path.
pub open spec fn recency_order<P>() -> spec_fn(ProgressRecord<P>, ProgressRecord<P>) -> bool {
    |a: ProgressRecord<P>, b: ProgressRecord<P>| a.updated_secs > b.updated_secs || (
    a.updated_secs == b.updated_secs && lex_lt(a.path@, b.path@))
}

/// Whether an entry is for another path than `path`.
pub open spec fn other_path<P>(path: Seq<char>) -> spec_fn(ProgressRecord<P>) -> bool {
    |e: ProgressRecord<P>| e.path@ != path
}

/// The entries other than those for `path`.
pub open spec fn without_path<P>(entries: Seq<ProgressRecord<P>>, path: Seq<char>) -> Seq<
    ProgressRecord<P>,
> {
    entries.filter(other_path(path))
}

/// The list after saving `entry`: the old entry of the same path replaced,
/// newest first, cut to `MAX_ENTRIES`.
pub open spec fn upserted<P>(entries: Seq<ProgressRecord<P>>, entry: ProgressRecord<P>) -> Seq<
    ProgressRecord<P>,
> {
    let sorted = sorted_by(without_path(entries, entry.path@).push(entry), recency_order());
    if sorted.len() > MAX_ENTRIES {
        sorted.take(MAX_ENTRIES as int)
    } else {
        sorted
    }
}

/// Whether `e` is the saved position of the document with this identity.
pub open spec fn matches_identity<P>(
    e: ProgressRecord<P>,
    path: Seq<char>,
    size_bytes: u64,
    modified_nanos: Seq<char>,
) -> bool {
    e.path@ == path && e.size_bytes == size_bytes && e.modified_nanos@ == modified_nanos
}

/// Whether entry `a` is listed before entry `b`.
fn listed_before<P>(a: &ProgressRecord<P>, b: &ProgressRecord<P>) -> (before: bool)
    ensures
        before == (recency_order())(*a, *b),
{
    if a.updated_secs > b.updated_secs {
        return true;
    }
    if a.updated_secs != b.updated_secs {
        return false;
    }
    str_lt(a.path.as_str(), b.path.as_str())
}

/// Inserts `entry` after every entry it is not listed before.
fn insert_by_recency<P>(sorted: &mut Vec<ProgressRecord<P>>, entry: ProgressRecord<P>)
    ensures
        final(sorted)@ == insert_sorted(old(sorted)@, entry, recency_order()),
{
    let ghost model = sorted@;
    let mut p: usize = 0;
    while p < sorted.len() && !listed_before(&entry, &sorted[p])
        invariant
            p <= sorted@.len(),
            model == sorted@,
            insert_position(model, entry, recency_order(), 0) == insert_position(
                model,
                entry,
                recency_order(),
                p as int,
            ),
        decreases sorted@.len() - p,
    {
        p += 1;
    }
    sorted.insert(p, entry);
}

/// Saves `entry` into the remembered positions (see `upserted`).
pub fn upsert_entry<P>(entries: Vec<ProgressRecord<P>>, entry: ProgressRecord<P>) -> (updated: Vec<
    ProgressRecord<P>,
>)
    ensures
        updated@ == upserted(entries@, entry),
{
    let ghost original = entries@;
    let ghost path = entry.path@;
    let ghost keep = other_path::<P>(path);
    let count = entries.len();
    let mut rest = entries;
    let mut kept: Vec<ProgressRecord<P>> = Vec::new();
    let mut taken: usize = 0;
    proof {
        assert(rest@ =~= original.skip(0));
        assert(kept@ =~= original.take(0).filter(keep));
    }
    while rest.len() > 0
        invariant
            taken + rest@.len() == original.len(),
            original.len() == count,
            rest@ == original.skip(taken as int),
            path == entry.path@,
            keep == other_path::<P>(path),
            kept@ == original.take(taken as int).filter(keep),
        decreases rest@.len(),
    {
        let ghost before = rest@;
        let e = rest.remove(0);
        proof {
            assert(original.skip(taken as int).drop_first() =~= original.skip(taken + 1));
            assert(e == original[taken as int]);
            assert(original.take(taken + 1) =~= original.take(taken as int).push(e));
            original.take(taken as int).lemma_filter_push(e, keep);
        }
        if !str_eq(e.path.as_str(), entry.path.as_str()) {
            kept.push(e);
        }
        taken += 1;
    }
    proof {
        assert(original.take(taken as int) =~= original);
    }
    kept.push(entry);
    let ghost unsorted = kept@;
    let total = kept.len();
    let mut sorted: Vec<ProgressRecord<P>> = Vec::new();
    let mut pending = kept;
    let mut moved: usize = 0;
    proof {
        assert(sorted@ =~= sorted_by(unsorted.take(0), recency_order()));
        assert(pending@ =~= unsorted.skip(0));
    }
    while pending.len() > 0
        invariant
            moved + pending@.len() == unsorted.len(),
            unsorted.len() == total,
            pending@ == unsorted.skip(moved as int),
            sorted@ == sorted_by(unsorted.take(moved as int), recency_order()),
        decreases pending@.len(),
    {
        let e = pending.remove(0);
        proof {
            assert(unsorted.skip(moved as int).drop_first() =~= unsorted.skip(moved + 1));
            assert(e == unsorted[moved as int]);
            assert(unsorted.take(moved + 1).drop_last() =~= unsorted.take(moved as int));
        }
        insert_by_recency(&mut sorted, e);
        moved += 1;
    }
    proof {
        assert(unsorted.take(moved as int) =~= unsorted);
    }
    proof {
        crate::sorting::lemma_sorted_by_len(unsorted, recency_order());
    }
    let ghost full = sorted@;
    sorted.truncate(MAX_ENTRIES);
    proof {
        if full.len() > MAX_ENTRIES {
            assert(sorted@ =~= full.take(MAX_ENTRIES as int));
        } else {
            assert(sorted@ =~= full);
        }
    }
    sorted
}

/// Index of the first saved position for this document identity.
pub fn find_matching<P>(
    entries: &Vec<ProgressRecord<P>>,
    path: &str,
    size_bytes: u64,
    modified_nanos: &str,
) -> (found: Option<usize>)
    ensures
        match found {
            Some(i) => i < entries@.len() && matches_identity(
                entries@[i as int],
                path@,
                size_bytes,
                modified_nanos@,
            ) && forall|j: int|
                0 <= j < i ==> !matches_identity(
                    #[trigger] entries@[j],
                    path@,
                    size_bytes,
                    modified_nanos@,
                ),
            None => forall|j: int|
                0 <= j < entries@.len() ==> !matches_identity(
                    #[trigger] entries@[j],
                    path@,
                    size_bytes,
                    modified_nanos@,
                ),
        },
{
    let mut i: usize = 0;
    while i < entries.len()
        invariant
            i <= entries@.len(),
            forall|j: int|
                0 <= j < i ==> !matches_identity(
                    #[trigger] entries@[j],
                    path@,
                    size_bytes,
                    modified_nanos@,
                ),
        decreases entries@.len() - i,
    {
        let e = &entries[i];
        if str_eq(e.path.as_str(), path) && e.size_bytes == size_bytes && str_eq(
            e.modified_nanos.as_str(),
            modified_nanos,
        ) {
            return Some(i);
        }
        i += 1;
    }
    None
}

/// No two entries share a path.
pub open spec fn distinct_paths<P>(s: Seq<ProgressRecord<P>>) -> bool {
    forall|i: int, j: int| 0 <= i < j < s.len() ==> #[trigger] s[i].path@ != #[trigger] s[j].path@
}

proof fn lemma_drop_last_distinct<P>(s: Seq<ProgressRecord<P>>)
    requires
        s.len() > 0,
        distinct_paths(s),
    ensures
        distinct_paths(s.drop_last()),
        forall|k: int| 0 <= k < s.len() - 1 ==> #[trigger] s[k].path@ != s.last().path@,
{
    assert forall|i: int, j: int| 0 <= i < j < s.drop_last().len() implies #[trigger] s.drop_last()[i].path@
        != #[trigger] s.drop_last()[j].path@ by {
        assert(s.drop_last()[i] == s[i] && s.drop_last()[j] == s[j]);
    }
}

/// Dropping the entries of one path keeps paths distinct; what is left
/// comes from the list and has another path.
proof fn lemma_without_path_distinct<P>(s: Seq<ProgressRecord<P>>, path: Seq<char>)
    requires
        distinct_paths(s),
    ensures
        distinct_paths(without_path(s, path)),
        forall|k: int|
            0 <= k < without_path(s, path).len() ==> s.contains(#[trigger] without_path(s, path)[k])
                && without_path(s, path)[k].path@ != path,
    decreases s.len(),
{
    let keep = other_path::<P>(path);
    if s.len() == 0 {
        reveal(Seq::filter);
    } else {
        let rest = s.drop_last();
        let x = s.last();
        lemma_drop_last_distinct(s);
        lemma_without_path_distinct(rest, path);
        assert(s =~= rest.push(x));
        rest.lemma_filter_push(x, keep);
        let sub = without_path(rest, path);
        let out = without_path(s, path);
        assert forall|k: int| 0 <= k < sub.len() implies #[trigger] sub[k].path@ != x.path@ by {
            let y = sub[k];
            assert(rest.contains(y));
            let m = choose|m: int| 0 <= m < rest.len() && rest[m] == y;
            assert(s[m] == y);
        }
        assert forall|k: int| 0 <= k < out.len() implies s.contains(#[trigger] out[k]) && out[k].path@
            != path by {
            if k < sub.len() {
                let m = choose|m: int| 0 <= m < rest.len() && rest[m] == sub[k];
                assert(s[m] == out[k]);
            } else {
                assert(s[s.len() - 1] == out[k]);
            }
        }
    }
}

/// Sorting keeps paths distinct and keeps the entries.
proof fn lemma_sorted_distinct<P>(s: Seq<ProgressRecord<P>>)
    requires
        distinct_paths(s),
    ensures
        distinct_paths(sorted_by(s, recency_order())),
        sorted_by(s, recency_order()).len() == s.len(),
        forall|k: int|
            0 <= k < sorted_by(s, recency_order()).len() ==> s.contains(
                #[trigger] sorted_by(s, recency_order())[k],
            ),
    decreases s.len(),
{
    if s.len() > 0 {
        let order = recency_order::<P>();
        let rest = s.drop_last();
        let x = s.last();
        lemma_drop_last_distinct(s);
        lemma_sorted_distinct(rest);
        let r = sorted_by(rest, order);
        crate::sorting::lemma_insert_position_bounds(r, x, order, 0);
        let p = insert_position(r, x, order, 0);
        let out = r.insert(p, x);
        assert(sorted_by(s, order) == out);
        assert forall|k: int| 0 <= k < r.len() implies #[trigger] r[k].path@ != x.path@ && s.contains(
            r[k],
        ) by {
            let m = choose|m: int| 0 <= m < rest.len() && rest[m] == r[k];
            assert(s[m] == r[k]);
        }
        assert forall|i: int, j: int| 0 <= i < j < out.len() implies #[trigger] out[i].path@
            != #[trigger] out[j].path@ by {
            if j < p {
                assert(out[i] == r[i] && out[j] == r[j]);
            } else if j == p {
                assert(out[i] == r[i]);
            } else if i == p {
                assert(out[j] == r[j - 1]);
            } else if i < p {
                assert(out[i] == r[i] && out[j] == r[j - 1]);
            } else {
                assert(out[i] == r[i - 1] && out[j] == r[j - 1]);
            }
        }
        assert forall|k: int| 0 <= k < out.len() implies s.contains(#[trigger] out[k]) by {
            if k < p {
                assert(out[k] == r[k]);
            } else if k == p {
                assert(s[s.len() - 1] == out[k]);
            } else {
                assert(out[k] == r[k - 1]);
            }
        }
    }
}

/// After saving, the list holds at most `MAX_ENTRIES` positions, newest
/// first, keeps each path at most once when it did before, and holds only
/// the new entry and old entries of other paths.
pub proof fn lemma_upsert_bounded_and_unique<P>(
    entries: Seq<ProgressRecord<P>>,
    entry: ProgressRecord<P>,
)
    requires
        distinct_paths(entries),
    ensures
        upserted(entries, entry).len() <= MAX_ENTRIES,
        distinct_paths(upserted(entries, entry)),
        forall|i: int, j: int|
            0 <= i < j < upserted(entries, entry).len() ==> !(recency_order())(
                upserted(entries, entry)[j],
                upserted(entries, entry)[i],
            ),
        forall|k: int|
            0 <= k < upserted(entries, entry).len() ==> #[trigger] upserted(entries, entry)[k]
                == entry || (entries.contains(upserted(entries, entry)[k])
                && upserted(entries, entry)[k].path@ != entry.path@),
{
    let order = recency_order::<P>();
    let filtered = without_path(entries, entry.path@);
    let kept = filtered.push(entry);
    let sorted = sorted_by(kept, order);
    assert forall|a: ProgressRecord<P>| !#[trigger] order(a, a) by {
        crate::text::lemma_lex_lt_irreflexive(a.path@);
    }
    assert forall|a: ProgressRecord<P>, b: ProgressRecord<P>, c: ProgressRecord<P>|
        #[trigger] order(a, b) && #[trigger] order(b, c) implies order(a, c) by {
        if a.updated_secs == b.updated_secs && b.updated_secs == c.updated_secs {
            crate::text::lemma_lex_lt_transitive(a.path@, b.path@, c.path@);
        }
    }
    crate::sorting::lemma_sorted_by_sorted(kept, order);
    lemma_without_path_distinct(entries, entry.path@);
    assert forall|i: int, j: int| 0 <= i < j < kept.len() implies #[trigger] kept[i].path@
        != #[trigger] kept[j].path@ by {
        if j == kept.len() - 1 {
            assert(kept[i] == filtered[i]);
        } else {
            assert(kept[i] == filtered[i] && kept[j] == filtered[j]);
        }
    }
    lemma_sorted_distinct(kept);
    assert forall|k: int| 0 <= k < sorted.len() implies #[trigger] sorted[k] == entry || (
    entries.contains(sorted[k]) && sorted[k].path@ != entry.path@) by {
        let m = choose|m: int| 0 <= m < kept.len() && kept[m] == sorted[k];
        if m < filtered.len() {
            assert(filtered[m] == sorted[k]);
        }
    }
    let out = upserted(entries, entry);
    if sorted.len() > MAX_ENTRIES {
        assert forall|k: int| 0 <= k < out.len() implies #[trigger] out[k] == sorted[k] by {}
    }
}

} // verus!
