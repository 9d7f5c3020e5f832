//! Lists of entries that are found by a text key.

use vstd::prelude::*;

use crate::text::same;

verus! {

/// The first position at or after `from` that holds `key`.
pub open spec fn index_from(keys: Seq<Seq<char>>, key: Seq<char>, from: int) -> Option<int>
    decreases keys.len() - from,
{
    if from < 0 || from >= keys.len() {
        None
    } else if keys[from] == key {
        Some(from)
    } else {
        index_from(keys, key, from + 1)
    }
}

/// The first position that holds `key`.
pub open spec fn index_of(keys: Seq<Seq<char>>, key: Seq<char>) -> Option<int> {
    index_from(keys, key, 0)
}

/// The keys of a list of entries.
pub open spec fn keys<V>(entries: Seq<(String, V)>) -> Seq<Seq<char>> {
    entries.map_values(|e: (String, V)| e.0@)
}

/// What `index_from` gives is the least position of the key.
pub proof fn lemma_index_from(keys: Seq<Seq<char>>, key: Seq<char>, from: int)
    requires
        0 <= from,
    ensures
        match index_from(keys, key, from) {
            Some(i) => from <= i < keys.len() && keys[i] == key && (forall|j: int|
                from <= j < i ==> keys[j] != key),
            None => forall|j: int| from <= j < keys.len() ==> keys[j] != key,
        },
    decreases keys.len() - from,
{
    if from < keys.len() && keys[from] != key {
        lemma_index_from(keys, key, from + 1);
    }
}

/// The first position whose entry has the key.
pub fn position<V>(entries: &Vec<(String, V)>, key: &str) -> (r: Option<usize>)
    ensures
        match r {
            Some(i) => i < entries.len() && index_of(keys(entries@), key@) == Some(i as int),
            None => index_of(keys(entries@), key@) is None,
        },
{
    let mut i: usize = 0;
    while i < entries.len()
        invariant
            i <= entries.len(),
            index_of(keys(entries@), key@) == index_from(keys(entries@), key@, i as int),
        decreases entries.len() - i,
    {
        assert(keys(entries@)[i as int] == entries@[i as int].0@);
        if same(entries[i].0.as_str(), key) {
            return Some(i);
        }
        i = i + 1;
    }
    None
}

/// Whether no key occurs twice.
pub open spec fn distinct(keys: Seq<Seq<char>>) -> bool {
    forall|i: int, j: int| 0 <= i < j < keys.len() ==> keys[i] != keys[j]
}

/// Whether `key` is among the texts.
pub fn member(list: &Vec<String>, key: &str) -> (r: bool)
    ensures
        r == crate::text::texts(list@).contains(key@),
{
    for i in 0..list.len()
        invariant
            forall|j: int| 0 <= j < i ==> list@[j]@ != key@,
    {
        if same(list[i].as_str(), key) {
            assert(crate::text::texts(list@)[i as int] == key@);
            return true;
        }
    }
    false
}

} // verus!
