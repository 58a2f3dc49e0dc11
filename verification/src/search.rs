//! First-match search over sequences of keys.
use vstd::prelude::*;

verus! {

/// `i` is the smallest index at which `key` stands in `keys`.
pub open spec fn is_first<K>(keys: Seq<K>, key: K, i: int) -> bool {
    &&& 0 <= i < keys.len()
    &&& keys[i] == key
    &&& forall|j: int| 0 <= j < i ==> keys[j] != key
}

/// The smallest index at which `key` stands in `keys`, if it stands there at all.
pub open spec fn first_index<K>(keys: Seq<K>, key: K) -> Option<int>
    decreases keys.len(),
{
    if keys.len() == 0 {
        None
    } else if keys[0] == key {
        Some(0)
    } else {
        match first_index(keys.drop_first(), key) {
            Some(i) => Some(i + 1),
            None => None,
        }
    }
}

/// `first_index` finds the smallest index, and reports none only where the key is absent.
pub proof fn lemma_first_index<K>(keys: Seq<K>, key: K)
    ensures
        match first_index(keys, key) {
            Some(i) => is_first(keys, key, i),
            None => !keys.contains(key),
        },
    decreases keys.len(),
{
    if keys.len() > 0 && keys[0] != key {
        let rest = keys.drop_first();
        lemma_first_index(rest, key);
        assert forall|j: int| 0 < j < keys.len() implies keys[j] == rest[j - 1] by {}
        match first_index(rest, key) {
            Some(i) => {
                assert(keys[i + 1] == rest[i]);
                assert forall|j: int| 0 <= j < i + 1 implies keys[j] != key by {
                    if j > 0 {
                        assert(rest[j - 1] != key);
                    }
                }
            },
            None => {
                assert forall|j: int| 0 <= j < keys.len() implies keys[j] != key by {
                    if j > 0 && keys[j] == key {
                        assert(rest[j - 1] == key);
                        assert(rest.contains(key));
                    }
                }
            },
        }
    }
}

/// An index that satisfies `is_first` is the one `first_index` gives.
pub proof fn lemma_first_index_found<K>(keys: Seq<K>, key: K, i: int)
    requires
        is_first(keys, key, i),
    ensures
        first_index(keys, key) == Some(i),
{
    lemma_first_index(keys, key);
    assert(keys.contains(key));
    let found = first_index(keys, key).unwrap();
    if found < i {
        assert(keys[found] != key);
    } else if i < found {
        assert(keys[i] != key);
    }
}

/// Where the key stands nowhere, `first_index` gives none.
pub proof fn lemma_first_index_absent<K>(keys: Seq<K>, key: K)
    requires
        forall|j: int| 0 <= j < keys.len() ==> keys[j] != key,
    ensures
        first_index(keys, key) is None,
{
    lemma_first_index(keys, key);
}

} // verus!
