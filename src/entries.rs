//! Ordered lists of keyed entries, looked up by the first entry with a key.

use vstd::prelude::*;

use crate::text::str_equal;

verus! {

/// The value of the first entry from position `j` on whose key is `key`.
pub open spec fn lookup_from<V>(entries: Seq<(String, V)>, key: Seq<char>, j: int) -> Option<V>
    decreases entries.len() - j,
{
    if j < 0 || j >= entries.len() {
        None
    } else if entries[j].0@ == key {
        Some(entries[j].1)
    } else {
        lookup_from(entries, key, j + 1)
    }
}

/// The value of the first entry whose key is `key`.
pub open spec fn lookup<V>(entries: Seq<(String, V)>, key: Seq<char>) -> Option<V> {
    lookup_from(entries, key, 0)
}

/// Position `i` holds the first occurrence of `key` in `keys`.
pub open spec fn is_first_position(keys: Seq<Seq<char>>, key: Seq<char>, i: int) -> bool {
    0 <= i < keys.len() && keys[i] == key && forall|k: int| 0 <= k < i ==> #[trigger] keys[k] != key
}

/// The position of the first occurrence of `key` in `keys`.
pub open spec fn position_in(keys: Seq<Seq<char>>, key: Seq<char>) -> Option<int> {
    if exists|i: int| is_first_position(keys, key, i) {
        Some(choose|i: int| is_first_position(keys, key, i))
    } else {
        None
    }
}

/// The keys of a list of entries.
pub open spec fn keys_of<V>(entries: Seq<(String, V)>) -> Seq<Seq<char>> {
    entries.map_values(|e: (String, V)| e.0@)
}

/// The first position is unique.
pub proof fn lemma_first_position_unique(keys: Seq<Seq<char>>, key: Seq<char>, i: int)
    requires
        is_first_position(keys, key, i),
    ensures
        position_in(keys, key) == Some(i),
{
    let j = choose|j: int| is_first_position(keys, key, j);
    if j < i {
        assert(keys[j] != key);
    } else if i < j {
        assert(keys[i] != key);
    }
}

/// No two entries share a key.
pub open spec fn keys_unique<V>(entries: Seq<(String, V)>) -> bool {
    forall|i: int, j: int|
        0 <= i < j < entries.len() ==> #[trigger] entries[i].0@ != #[trigger] entries[j].0@
}

/// `a`, or `b` where `a` is absent.
pub open spec fn or_else<V>(a: Option<V>, b: Option<V>) -> Option<V> {
    match a {
        Some(v) => Some(v),
        None => b,
    }
}

/// With distinct keys, the entry at `i` is what its key looks up.
pub proof fn lemma_unique_lookup<V>(entries: Seq<(String, V)>, i: int)
    requires
        keys_unique(entries),
        0 <= i < entries.len(),
    ensures
        lookup(entries, entries[i].0@) == Some(entries[i].1),
{
    lemma_lookup_reaches(entries, entries[i].0@, i, 0);
}

proof fn lemma_lookup_reaches<V>(entries: Seq<(String, V)>, key: Seq<char>, i: int, j: int)
    requires
        0 <= j <= i < entries.len(),
        entries[i].0@ == key,
        forall|k: int| j <= k < i ==> #[trigger] entries[k].0@ != key,
    ensures
        lookup_from(entries, key, j) == Some(entries[i].1),
    decreases i - j,
{
    if j < i {
        lemma_lookup_reaches(entries, key, i, j + 1);
    }
}

/// A key that no entry holds looks up nothing.
pub proof fn lemma_lookup_absent<V>(entries: Seq<(String, V)>, key: Seq<char>)
    requires
        forall|k: int| 0 <= k < entries.len() ==> #[trigger] entries[k].0@ != key,
    ensures
        lookup(entries, key) is None,
{
    lemma_lookup_absent_from(entries, key, 0);
}

proof fn lemma_lookup_absent_from<V>(entries: Seq<(String, V)>, key: Seq<char>, j: int)
    requires
        0 <= j <= entries.len(),
        forall|k: int| 0 <= k < entries.len() ==> #[trigger] entries[k].0@ != key,
    ensures
        lookup_from(entries, key, j) is None,
    decreases entries.len() - j,
{
    if j < entries.len() {
        lemma_lookup_absent_from(entries, key, j + 1);
    }
}

/// Looking up in a list with one more entry at its end.
pub proof fn lemma_lookup_push<V>(entries: Seq<(String, V)>, e: (String, V), key: Seq<char>, j: int)
    requires
        0 <= j <= entries.len(),
    ensures
        lookup_from(entries.push(e), key, j) == or_else(
            lookup_from(entries, key, j),
            if e.0@ == key { Some(e.1) } else { None },
        ),
    decreases entries.len() - j,
{
    if j < entries.len() {
        lemma_lookup_push(entries, e, key, j + 1);
        assert(entries.push(e)[j] == entries[j]);
    } else {
        assert(entries.push(e)[j] == e);
        assert(lookup_from(entries.push(e), key, j + 1) is None);
    }
}

/// Looking up in a list whose entry `i`, the first with its key, was replaced
/// by one with the same key.
proof fn lemma_lookup_update<V>(entries: Seq<(String, V)>, i: int, e: (String, V), key: Seq<char>, j: int)
    requires
        0 <= j <= i < entries.len(),
        entries[i].0@ == e.0@,
        forall|k: int| 0 <= k < i ==> #[trigger] entries[k].0@ != e.0@,
    ensures
        lookup_from(entries.update(i, e), key, j) == if key == e.0@ {
            Some(e.1)
        } else {
            lookup_from(entries, key, j)
        },
    decreases entries.len() - j,
{
    if j < i {
        lemma_lookup_update(entries, i, e, key, j + 1);
    } else {
        if key != e.0@ {
            assert(entries.update(i, e).subrange(i + 1, entries.len() as int) =~= entries.subrange(
                i + 1,
                entries.len() as int,
            ));
            lemma_lookup_suffix_same(entries.update(i, e), entries, key, i + 1);
        }
    }
}

proof fn lemma_lookup_suffix_same<V>(a: Seq<(String, V)>, b: Seq<(String, V)>, key: Seq<char>, j: int)
    requires
        0 <= j <= a.len(),
        a.len() == b.len(),
        forall|k: int| j <= k < a.len() ==> a[k] == b[k],
    ensures
        lookup_from(a, key, j) == lookup_from(b, key, j),
    decreases a.len() - j,
{
    if j < a.len() {
        lemma_lookup_suffix_same(a, b, key, j + 1);
    }
}

/// The position of the first entry whose key is `key`.
pub fn find_key<V>(entries: &Vec<(String, V)>, key: &str) -> (r: Option<usize>)
    ensures
        match r {
            Some(i) => i < entries@.len() && entries@[i as int].0@ == key@
                && lookup(entries@, key@) == Some(entries@[i as int].1)
                && forall|k: int| 0 <= k < i ==> #[trigger] entries@[k].0@ != key@,
            None => lookup(entries@, key@) is None
                && forall|k: int| 0 <= k < entries@.len() ==> #[trigger] entries@[k].0@ != key@,
        },
{
    let mut i: usize = 0;
    while i < entries.len()
        invariant
            i <= entries@.len(),
            lookup(entries@, key@) == lookup_from(entries@, key@, i as int),
            forall|k: int| 0 <= k < i ==> #[trigger] entries@[k].0@ != key@,
        decreases entries@.len() - i,
    {
        if str_equal(entries[i].0.as_str(), key) {
            return Some(i);
        }
        i = i + 1;
    }
    None
}

/// Sets the value of `key`: replaces the first entry with that key, or adds
/// an entry at the end.
pub fn insert_or_replace<V>(entries: &mut Vec<(String, V)>, key: String, value: V)
    ensures
        match position_in(keys_of(old(entries)@), key@) {
            Some(i) => final(entries)@ == old(entries)@.update(i, (key, value)),
            None => final(entries)@ == old(entries)@.push((key, value)),
        },
        forall|k: Seq<char>|
            lookup(final(entries)@, k) == if k == key@ {
                Some(value)
            } else {
                lookup(old(entries)@, k)
            },
        keys_unique(old(entries)@) ==> keys_unique(final(entries)@),
{
    match find_key(entries, key.as_str()) {
        Some(i) => {
            let ghost before = entries@;
            let ghost kv = key@;
            entries.remove(i);
            entries.insert(i, (key, value));
            proof {
                assert(entries@ =~= before.update(i as int, (key, value)));
                assert(is_first_position(keys_of(before), kv, i as int));
                lemma_first_position_unique(keys_of(before), kv, i as int);
                assert forall|k: Seq<char>|
                    lookup(entries@, k) == if k == kv {
                        Some(value)
                    } else {
                        lookup(before, k)
                    } by {
                    lemma_lookup_update(before, i as int, (key, value), k, 0);
                }
                if keys_unique(before) {
                    assert forall|a: int, b: int|
                        0 <= a < b < entries@.len() implies #[trigger] entries@[a].0@
                            != #[trigger] entries@[b].0@ by {
                        assert(before[a].0@ != before[b].0@);
                    }
                }
            }
        },
        None => {
            let ghost before = entries@;
            let ghost kv = key@;
            entries.push((key, value));
            proof {
                assert forall|i: int| !is_first_position(keys_of(before), kv, i) by {
                    if 0 <= i < before.len() {
                        assert(keys_of(before)[i] == before[i].0@);
                    }
                }
                assert forall|k: Seq<char>|
                    lookup(entries@, k) == if k == kv {
                        Some(value)
                    } else {
                        lookup(before, k)
                    } by {
                    lemma_lookup_push(before, (key, value), k, 0);
                }
                if keys_unique(before) {
                    assert forall|a: int, b: int|
                        0 <= a < b < entries@.len() implies #[trigger] entries@[a].0@
                            != #[trigger] entries@[b].0@ by {
                        if b == before.len() {
                            assert(before[a].0@ != kv);
                        } else {
                            assert(before[a].0@ != before[b].0@);
                        }
                    }
                }
            }
        },
    }
}

/// Adds `key` with `value` unless an entry with that key is there already.
pub fn insert_if_absent<V>(entries: &mut Vec<(String, V)>, key: String, value: V)
    ensures
        forall|k: Seq<char>|
            lookup(final(entries)@, k) == or_else(
                lookup(old(entries)@, k),
                if k == key@ { Some(value) } else { None },
            ),
        keys_unique(old(entries)@) ==> keys_unique(final(entries)@),
{
    match find_key(entries, key.as_str()) {
        Some(_) => {},
        None => {
            insert_or_replace(entries, key, value);
        },
    }
}

} // verus!
