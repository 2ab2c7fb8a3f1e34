//! Small association lists keyed by a viewable key: the model of a
//! `Vec<(K, T)>` whose keys are pairwise distinct is the map from each
//! key's view to its value.

use vstd::prelude::*;

verus! {

/// A key that can be compared and copied by its view.
pub trait JobKey: View + Sized {
    fn same_key(&self, other: &Self) -> (same: bool)
        ensures
            same == (self@ == other@),
    ;

    fn duplicate(&self) -> (copy: Self)
        ensures
            copy@ == self@,
    ;
}

impl JobKey for String {
    fn same_key(&self, other: &Self) -> (same: bool) {
        *self == *other
    }

    fn duplicate(&self) -> (copy: Self) {
        self.clone()
    }
}

/// `<str as PartialEq>::eq`: two string slices are equal when they hold the
/// same characters.
#[verifier::external_body]
pub(crate) fn str_eq(a: &str, b: &str) -> (same: bool)
    ensures
        same == (a@ == b@),
{
    a == b
}

impl<'a> JobKey for &'a str {
    fn same_key(&self, other: &Self) -> (same: bool) {
        str_eq(*self, *other)
    }

    fn duplicate(&self) -> (copy: Self) {
        *self
    }
}

/// No two entries share a key view.
pub open spec fn keys_distinct<K: View, T>(s: Seq<(K, T)>) -> bool {
    forall|i: int, j: int|
        0 <= i < s.len() && 0 <= j < s.len() && i != j ==> #[trigger] s[i].0@ != #[trigger] s[j].0@
}

/// Some entry has key view `k`.
pub open spec fn has_key<K: View, T>(s: Seq<(K, T)>, k: K::V) -> bool {
    exists|i: int| 0 <= i < s.len() && #[trigger] s[i].0@ == k
}

/// The map from key views to values held by `s`.
pub open spec fn map_of<K: View, T>(s: Seq<(K, T)>) -> Map<K::V, T> {
    Map::new(
        |k: K::V| has_key(s, k),
        |k: K::V| s[choose|i: int| 0 <= i < s.len() && #[trigger] s[i].0@ == k].1,
    )
}

pub proof fn lemma_map_of_index<K: View, T>(s: Seq<(K, T)>, i: int)
    requires
        keys_distinct(s),
        0 <= i < s.len(),
    ensures
        map_of(s).contains_key(s[i].0@),
        map_of(s)[s[i].0@] == s[i].1,
{
    assert(has_key(s, s[i].0@));
    let j = choose|j: int| 0 <= j < s.len() && #[trigger] s[j].0@ == s[i].0@;
    assert(j == i);
}

pub proof fn lemma_map_of_absent<K: View, T>(s: Seq<(K, T)>, k: K::V)
    requires
        forall|i: int| 0 <= i < s.len() ==> #[trigger] s[i].0@ != k,
    ensures
        !map_of(s).contains_key(k),
{
}

/// Appending an entry with a new key inserts it into the map.
pub proof fn lemma_map_of_push<K: View, T>(s: Seq<(K, T)>, e: (K, T))
    requires
        keys_distinct(s),
        !has_key(s, e.0@),
    ensures
        keys_distinct(s.push(e)),
        map_of(s.push(e)) =~= map_of(s).insert(e.0@, e.1),
{
    let t = s.push(e);
    assert(keys_distinct(t)) by {
        assert forall|i: int, j: int|
            0 <= i < t.len() && 0 <= j < t.len() && i != j implies #[trigger] t[i].0@
            != #[trigger] t[j].0@ by {
            if i < s.len() && j < s.len() {
                assert(t[i] == s[i] && t[j] == s[j]);
            } else if i < s.len() {
                assert(t[i] == s[i]);
            } else {
                assert(t[j] == s[j]);
            }
        }
    }
    assert forall|k: K::V| #[trigger] map_of(t).contains_key(k) <==> map_of(s).insert(
        e.0@,
        e.1,
    ).contains_key(k) by {
        if has_key(t, k) {
            let i = choose|i: int| 0 <= i < t.len() && #[trigger] t[i].0@ == k;
            if i < s.len() {
                assert(s[i] == t[i]);
            }
        }
        if has_key(s, k) {
            let i = choose|i: int| 0 <= i < s.len() && #[trigger] s[i].0@ == k;
            assert(t[i] == s[i]);
        }
        if k == e.0@ {
            assert(t[s.len() as int] == e);
        }
    }
    assert forall|k: K::V| #[trigger] map_of(t).contains_key(k) implies map_of(t)[k] == map_of(
        s,
    ).insert(e.0@, e.1)[k] by {
        let i = choose|i: int| 0 <= i < t.len() && #[trigger] t[i].0@ == k;
        lemma_map_of_index(t, i);
        if i < s.len() {
            assert(t[i] == s[i]);
            lemma_map_of_index(s, i);
        }
    }
}

/// Overwriting the value at index `i` updates that key's value.
pub proof fn lemma_map_of_update<K: View, T>(s: Seq<(K, T)>, i: int, e: (K, T))
    requires
        keys_distinct(s),
        0 <= i < s.len(),
        e.0@ == s[i].0@,
    ensures
        keys_distinct(s.update(i, e)),
        map_of(s.update(i, e)) =~= map_of(s).insert(e.0@, e.1),
{
    let t = s.update(i, e);
    assert(keys_distinct(t)) by {
        assert forall|a: int, b: int|
            0 <= a < t.len() && 0 <= b < t.len() && a != b implies #[trigger] t[a].0@
            != #[trigger] t[b].0@ by {
            assert(t[a].0@ == s[a].0@);
            assert(t[b].0@ == s[b].0@);
        }
    }
    assert forall|k: K::V| #[trigger] map_of(t).contains_key(k) <==> map_of(s).insert(
        e.0@,
        e.1,
    ).contains_key(k) by {
        if has_key(t, k) {
            let j = choose|j: int| 0 <= j < t.len() && #[trigger] t[j].0@ == k;
            assert(s[j].0@ == t[j].0@);
        }
        if has_key(s, k) {
            let j = choose|j: int| 0 <= j < s.len() && #[trigger] s[j].0@ == k;
            assert(s[j].0@ == t[j].0@);
        }
        if k == e.0@ {
            assert(t[i] == e);
        }
    }
    assert forall|k: K::V| #[trigger] map_of(t).contains_key(k) implies map_of(t)[k] == map_of(
        s,
    ).insert(e.0@, e.1)[k] by {
        let j = choose|j: int| 0 <= j < t.len() && #[trigger] t[j].0@ == k;
        lemma_map_of_index(t, j);
        if j != i {
            assert(s[j] == t[j]);
            lemma_map_of_index(s, j);
        }
    }
}

/// Removing the entry at index `i` removes its key from the map.
pub proof fn lemma_map_of_remove<K: View, T>(s: Seq<(K, T)>, i: int)
    requires
        keys_distinct(s),
        0 <= i < s.len(),
    ensures
        keys_distinct(s.remove(i)),
        map_of(s.remove(i)) =~= map_of(s).remove(s[i].0@),
{
    let t = s.remove(i);
    assert forall|j: int| 0 <= j < t.len() implies #[trigger] t[j] == (if j < i {
        s[j]
    } else {
        s[j + 1]
    }) by {}
    assert(keys_distinct(t)) by {
        assert forall|a: int, b: int|
            0 <= a < t.len() && 0 <= b < t.len() && a != b implies #[trigger] t[a].0@
            != #[trigger] t[b].0@ by {
            let sa = if a < i {
                a
            } else {
                a + 1
            };
            let sb = if b < i {
                b
            } else {
                b + 1
            };
            assert(t[a] == s[sa]);
            assert(t[b] == s[sb]);
        }
    }
    assert forall|k: K::V| #[trigger] map_of(t).contains_key(k) <==> map_of(s).remove(
        s[i].0@,
    ).contains_key(k) by {
        if has_key(t, k) {
            let j = choose|j: int| 0 <= j < t.len() && #[trigger] t[j].0@ == k;
            let sj = if j < i {
                j
            } else {
                j + 1
            };
            assert(t[j] == s[sj]);
        }
        if has_key(s, k) && k != s[i].0@ {
            let j = choose|j: int| 0 <= j < s.len() && #[trigger] s[j].0@ == k;
            if j < i {
                assert(t[j] == s[j]);
            } else {
                assert(t[j - 1] == s[j]);
            }
        }
    }
    assert forall|k: K::V| #[trigger] map_of(t).contains_key(k) implies map_of(t)[k] == map_of(
        s,
    ).remove(s[i].0@)[k] by {
        let j = choose|j: int| 0 <= j < t.len() && #[trigger] t[j].0@ == k;
        lemma_map_of_index(t, j);
        let sj = if j < i {
            j
        } else {
            j + 1
        };
        assert(t[j] == s[sj]);
        lemma_map_of_index(s, sj);
    }
}

/// Index of the entry with key view `key@`, if any.
pub fn find_key<K: JobKey, T>(entries: &Vec<(K, T)>, key: &K) -> (found: Option<usize>)
    ensures
        match found {
            Some(i) => i < entries@.len() && entries@[i as int].0@ == key@,
            None => forall|i: int| 0 <= i < entries@.len() ==> #[trigger] entries@[i].0@ != key@,
        },
{
    let mut i: usize = 0;
    while i < entries.len()
        invariant
            i <= entries@.len(),
            forall|j: int| 0 <= j < i ==> #[trigger] entries@[j].0@ != key@,
        decreases entries@.len() - i,
    {
        if entries[i].0.same_key(key) {
            return Some(i);
        }
        i += 1;
    }
    None
}

/// Sets the value of `key`, adding the entry when it is missing.
pub fn insert_keyed<K: JobKey, T>(entries: &mut Vec<(K, T)>, key: K, value: T)
    requires
        keys_distinct(old(entries)@),
    ensures
        keys_distinct(final(entries)@),
        map_of(final(entries)@) == map_of(old(entries)@).insert(key@, value),
{
    match find_key(entries, &key) {
        Some(i) => {
            proof {
                lemma_map_of_update(entries@, i as int, (key, value));
            }
            entries.set(i, (key, value));
        },
        None => {
            proof {
                lemma_map_of_push(entries@, (key, value));
            }
            entries.push((key, value));
        },
    }
}

/// Removes the entry of `key`; returns whether there was one.
pub fn remove_keyed<K: JobKey, T>(entries: &mut Vec<(K, T)>, key: &K) -> (removed: bool)
    requires
        keys_distinct(old(entries)@),
    ensures
        keys_distinct(final(entries)@),
        map_of(final(entries)@) == map_of(old(entries)@).remove(key@),
        removed == map_of(old(entries)@).contains_key(key@),
{
    match find_key(entries, key) {
        Some(i) => {
            proof {
                lemma_map_of_remove(entries@, i as int);
                lemma_map_of_index(entries@, i as int);
            }
            entries.remove(i);
            true
        },
        None => {
            proof {
                lemma_map_of_absent(entries@, key@);
                assert(map_of(entries@) =~= map_of(entries@).remove(key@));
            }
            false
        },
    }
}

/// The value of `key`, if there is one.
pub fn get_keyed<'a, K: JobKey, T>(entries: &'a Vec<(K, T)>, key: &K) -> (value: Option<&'a T>)
    requires
        keys_distinct(entries@),
    ensures
        match value {
            Some(v) => map_of(entries@).contains_key(key@) && map_of(entries@)[key@] == *v,
            None => !map_of(entries@).contains_key(key@),
        },
{
    match find_key(entries, key) {
        Some(i) => {
            proof {
                lemma_map_of_index(entries@, i as int);
            }
            Some(&entries[i].1)
        },
        None => {
            proof {
                lemma_map_of_absent(entries@, key@);
            }
            None
        },
    }
}

} // verus!
