//! Tables keyed by text, kept as lists of entries in which each key occurs once.

use vstd::prelude::*;

verus! {

/// The first place at or after `from` where `key` stands in `keys`.
pub open spec fn key_index_from(keys: Seq<Seq<char>>, key: Seq<char>, from: int) -> Option<int>
    decreases keys.len() - from,
{
    if 0 <= from < keys.len() {
        if keys[from] == key {
            Some(from)
        } else {
            key_index_from(keys, key, from + 1)
        }
    } else {
        None
    }
}

/// The first place where `key` stands in `keys`.
pub open spec fn key_index(keys: Seq<Seq<char>>, key: Seq<char>) -> Option<int> {
    key_index_from(keys, key, 0)
}

/// The keys of a table, in the order of its entries.
pub open spec fn keys_of<V>(entries: Seq<(Seq<char>, V)>) -> Seq<Seq<char>> {
    Seq::new(entries.len(), |i: int| entries[i].0)
}

/// The keys of a table whose keys are strings, in the order of its entries.
pub open spec fn names_of<V>(entries: Seq<(String, V)>) -> Seq<Seq<char>> {
    Seq::new(entries.len(), |i: int| entries[i].0@)
}

/// The value that `key` has in the table.
pub open spec fn get<V>(entries: Seq<(Seq<char>, V)>, key: Seq<char>) -> Option<V> {
    match key_index(keys_of(entries), key) {
        Some(i) => Some(entries[i].1),
        None => None,
    }
}

/// The table with `key` set to `value`: in place where the key was there, else at the end.
pub open spec fn put<V>(entries: Seq<(Seq<char>, V)>, key: Seq<char>, value: V) -> Seq<
    (Seq<char>, V),
> {
    match key_index(keys_of(entries), key) {
        Some(i) => entries.update(i, (key, value)),
        None => entries.push((key, value)),
    }
}

/// The table without `key`.
pub open spec fn without<V>(entries: Seq<(Seq<char>, V)>, key: Seq<char>) -> Seq<(Seq<char>, V)> {
    match key_index(keys_of(entries), key) {
        Some(i) => entries.remove(i),
        None => entries,
    }
}

/// Whether no key occurs twice.
pub open spec fn distinct(keys: Seq<Seq<char>>) -> bool {
    forall|i: int, j: int| 0 <= i < j < keys.len() ==> keys[i] != keys[j]
}

/// Where a key is found, it stands there, and nowhere before.
pub proof fn lemma_key_index(keys: Seq<Seq<char>>, key: Seq<char>, from: int)
    requires
        0 <= from,
    ensures
        match key_index_from(keys, key, from) {
            Some(i) => from <= i < keys.len() && keys[i] == key && forall|j: int|
                from <= j < i ==> keys[j] != key,
            None => forall|j: int| from <= j < keys.len() ==> keys[j] != key,
        },
    decreases keys.len() - from,
{
    if from < keys.len() && keys[from] != key {
        lemma_key_index(keys, key, from + 1);
    }
}

/// The first place where a key stands is the place that is found.
pub proof fn lemma_key_found(keys: Seq<Seq<char>>, key: Seq<char>, i: int)
    requires
        0 <= i < keys.len(),
        keys[i] == key,
        forall|j: int| 0 <= j < i ==> keys[j] != key,
    ensures
        key_index(keys, key) == Some(i),
{
    lemma_key_index(keys, key, 0);
}

/// A key that stands nowhere is not found.
pub proof fn lemma_key_missing(keys: Seq<Seq<char>>, key: Seq<char>)
    requires
        forall|j: int| 0 <= j < keys.len() ==> keys[j] != key,
    ensures
        key_index(keys, key) is None,
{
    lemma_key_index(keys, key, 0);
}

/// A key that was set has the value it was set to.
pub proof fn lemma_put_then_get<V>(entries: Seq<(Seq<char>, V)>, key: Seq<char>, value: V)
    ensures
        get(put(entries, key, value), key) == Some(value),
{
    let keys = keys_of(entries);
    let after = put(entries, key, value);
    lemma_key_index(keys, key, 0);
    match key_index(keys, key) {
        Some(i) => {
            assert(keys_of(after) =~= keys);
        },
        None => {
            assert(keys_of(after) =~= keys.push(key));
            lemma_key_found(keys_of(after), key, keys.len() as int);
        },
    }
}

/// Setting a key leaves the values of the other keys as they were.
pub proof fn lemma_put_leaves_others<V>(
    entries: Seq<(Seq<char>, V)>,
    key: Seq<char>,
    value: V,
    other: Seq<char>,
)
    requires
        other != key,
    ensures
        get(put(entries, key, value), other) == get(entries, other),
{
    let keys = keys_of(entries);
    let after = put(entries, key, value);
    lemma_key_index(keys, key, 0);
    lemma_key_index(keys, other, 0);
    match key_index(keys, key) {
        Some(i) => {
            assert(keys_of(after) =~= keys);
        },
        None => {
            assert(keys_of(after) =~= keys.push(key));
            match key_index(keys, other) {
                Some(j) => {
                    lemma_key_found(keys_of(after), other, j);
                },
                None => {
                    lemma_key_missing(keys_of(after), other);
                },
            }
        },
    }
}

/// Setting a key that is there leaves the keys as they were.
pub proof fn lemma_put_keeps_keys<V>(entries: Seq<(Seq<char>, V)>, key: Seq<char>, value: V)
    requires
        get(entries, key) is Some,
    ensures
        keys_of(put(entries, key, value)) == keys_of(entries),
{
    lemma_key_index(keys_of(entries), key, 0);
    assert(keys_of(put(entries, key, value)) =~= keys_of(entries));
}

/// Setting a key in a table in which each key occurs once gives such a table.
pub proof fn lemma_put_keeps_distinct<V>(entries: Seq<(Seq<char>, V)>, key: Seq<char>, value: V)
    requires
        distinct(keys_of(entries)),
    ensures
        distinct(keys_of(put(entries, key, value))),
{
    let keys = keys_of(entries);
    let after = put(entries, key, value);
    lemma_key_index(keys, key, 0);
    match key_index(keys, key) {
        Some(i) => {
            assert(keys_of(after) =~= keys);
        },
        None => {
            assert(keys_of(after) =~= keys.push(key));
        },
    }
}

/// The place of `key` among the keys of `entries`.
pub fn position<V>(entries: &Vec<(String, V)>, key: &String) -> (r: Option<usize>)
    ensures
        match r {
            Some(i) => key_index(names_of(entries@), key@) == Some(i as int) && i < entries.len(),
            None => key_index(names_of(entries@), key@) is None,
        },
{
    let ghost keys = names_of(entries@);
    let mut i: usize = 0;
    while i < entries.len()
        invariant
            i <= entries.len(),
            keys == names_of(entries@),
            key_index(keys, key@) == key_index_from(keys, key@, i as int),
        decreases entries.len() - i,
    {
        if entries[i].0 == *key {
            return Some(i);
        }
        i += 1;
    }
    None
}

} // verus!
