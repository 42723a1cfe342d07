//! Ordered maps: entries in the order they were written, found by name. The
//! first entry of a name is the one that counts.

use vstd::prelude::*;
use vstd::string::*;

verus! {

/// Position of the first entry named `key`; the length where there is none.
pub open spec fn key_index<T>(entries: Seq<(Seq<char>, T)>, key: Seq<char>) -> int
    decreases entries.len(),
{
    if entries.len() == 0 {
        0
    } else if entries[0].0 == key {
        0
    } else {
        1 + key_index(entries.drop_first(), key)
    }
}

/// Whether an entry is named `key`.
pub open spec fn has_key<T>(entries: Seq<(Seq<char>, T)>, key: Seq<char>) -> bool {
    key_index(entries, key) < entries.len()
}

/// Whether no two entries share a name.
pub open spec fn distinct_keys<T>(entries: Seq<(Seq<char>, T)>) -> bool {
    forall|i: int, j: int|
        0 <= i < j < entries.len() ==> (#[trigger] entries[i]).0 != (#[trigger] entries[j]).0
}

/// The key's index lies within the entries or at their end, is named
/// `key` where it lies within, and has no entry of that name before it.
pub proof fn lemma_key_index<T>(entries: Seq<(Seq<char>, T)>, key: Seq<char>)
    ensures
        0 <= key_index(entries, key) <= entries.len(),
        has_key(entries, key) ==> entries[key_index(entries, key)].0 == key,
        forall|i: int| 0 <= i < key_index(entries, key) ==> (#[trigger] entries[i]).0 != key,
    decreases entries.len(),
{
    if entries.len() > 0 && entries[0].0 != key {
        let rest = entries.drop_first();
        lemma_key_index(rest, key);
        assert forall|i: int| 0 <= i < key_index(entries, key) implies (#[trigger] entries[i]).0
            != key by {
            if i > 0 {
                assert(entries[i] == rest[i - 1]);
            }
        }
    }
}

/// A position that is named `key` with none before it is the key's index.
pub proof fn lemma_key_index_unique<T>(entries: Seq<(Seq<char>, T)>, key: Seq<char>, k: int)
    requires
        0 <= k <= entries.len(),
        k < entries.len() ==> entries[k].0 == key,
        forall|i: int| 0 <= i < k ==> (#[trigger] entries[i]).0 != key,
    ensures
        key_index(entries, key) == k,
{
    lemma_key_index(entries, key);
    let f = key_index(entries, key);
    if f < k {
        assert(entries[f].0 == key);
    } else if k < f {
        assert(entries[k].0 != key);
    }
}

/// An entry added at the end is found by its own name where no earlier
/// entry has it, and leaves every other name where it was.
pub proof fn lemma_key_index_push<T>(
    entries: Seq<(Seq<char>, T)>,
    entry: (Seq<char>, T),
    key: Seq<char>,
)
    ensures
        has_key(entries.push(entry), key) == (has_key(entries, key) || entry.0 == key),
        has_key(entries, key) ==> key_index(entries.push(entry), key) == key_index(entries, key),
        !has_key(entries, key) && entry.0 == key ==> key_index(entries.push(entry), key)
            == entries.len(),
{
    let longer = entries.push(entry);
    lemma_key_index(entries, key);
    let k = key_index(entries, key);
    if has_key(entries, key) {
        assert(longer[k] == entries[k]);
        assert forall|i: int| 0 <= i < k implies (#[trigger] longer[i]).0 != key by {
            assert(longer[i] == entries[i]);
        }
        lemma_key_index_unique(longer, key, k);
    } else if entry.0 == key {
        assert forall|i: int| 0 <= i < entries.len() implies (#[trigger] longer[i]).0 != key by {
            assert(longer[i] == entries[i]);
        }
        lemma_key_index_unique(longer, key, entries.len() as int);
    } else {
        assert forall|i: int| 0 <= i < longer.len() implies (#[trigger] longer[i]).0 != key by {
            if i < entries.len() {
                assert(longer[i] == entries[i]);
            }
        }
        lemma_key_index_unique(longer, key, longer.len() as int);
    }
}

/// Position of the first entry named `key`; the length where there is none.
pub fn find_key<T: DeepView>(entries: &Vec<(String, T)>, key: &String) -> (at: usize)
    ensures
        at == key_index(entries.deep_view(), key@),
        at <= entries@.len(),
{
    let ghost names = entries.deep_view();
    let mut i: usize = 0;
    while i < entries.len()
        invariant
            i <= entries@.len(),
            names == entries.deep_view(),
            forall|k: int| 0 <= k < i ==> (#[trigger] names[k]).0 != key@,
        decreases entries@.len() - i,
    {
        assert(names[i as int].0 == entries@[i as int].0@);
        if entries[i].0 == *key {
            proof {
                lemma_key_index_unique(names, key@, i as int);
            }
            return i;
        }
        i += 1;
    }
    proof {
        lemma_key_index_unique(names, key@, i as int);
    }
    i
}

} // verus!
