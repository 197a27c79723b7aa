//! Lookup of a row by its textual primary key, by a scan from the front.

use crate::model::Keyed;
use vstd::prelude::*;

verus! {

/// The index of the first occurrence of `key` in `keys`, if there is one.
pub open spec fn first_position(keys: Seq<Seq<char>>, key: Seq<char>) -> Option<int>
    decreases keys.len(),
{
    if keys.len() == 0 {
        None
    } else if keys[0] == key {
        Some(0)
    } else {
        match first_position(keys.drop_first(), key) {
            Some(i) => Some(i + 1),
            None => None,
        }
    }
}

/// Whether `i` is the first index at which `keys` holds `key`.
pub open spec fn is_first_position(keys: Seq<Seq<char>>, key: Seq<char>, i: int) -> bool {
    &&& 0 <= i < keys.len()
    &&& keys[i] == key
    &&& forall|j: int| 0 <= j < i ==> #[trigger] keys[j] != key
}

/// Whether no two rows share a key.
pub open spec fn distinct_keys(keys: Seq<Seq<char>>) -> bool {
    forall|i: int, j: int|
        0 <= i < j < keys.len() ==> #[trigger] keys[i] != #[trigger] keys[j]
}

/// `first_position` returns the first index holding the key, and `None`
/// exactly when the key does not occur.
pub proof fn lemma_first_position(keys: Seq<Seq<char>>, key: Seq<char>)
    ensures
        match first_position(keys, key) {
            Some(i) => is_first_position(keys, key, i),
            None => !keys.contains(key),
        },
    decreases keys.len(),
{
    if keys.len() == 0 {
    } else if keys[0] == key {
    } else {
        let rest = keys.drop_first();
        lemma_first_position(rest, key);
        match first_position(rest, key) {
            Some(i) => {
                assert(rest[i] == keys[i + 1]);
                assert forall|j: int| 0 <= j < i + 1 implies #[trigger] keys[j] != key by {
                    if j > 0 {
                        assert(rest[j - 1] == keys[j]);
                    }
                }
            },
            None => {
                assert forall|j: int| 0 <= j < keys.len() implies keys[j] != key by {
                    if j > 0 {
                        assert(rest[j - 1] == keys[j]);
                        assert(rest.contains(rest[j - 1]) || rest[j - 1] != key);
                    }
                }
            },
        }
    }
}

/// An index that is the first to hold the key is the one `first_position`
/// returns.
pub proof fn lemma_first_position_unique(keys: Seq<Seq<char>>, key: Seq<char>, i: int)
    requires
        is_first_position(keys, key, i),
    ensures
        first_position(keys, key) == Some(i),
{
    lemma_first_position(keys, key);
    match first_position(keys, key) {
        Some(k) => {
            if k < i {
                assert(keys[k] != key);
            } else if i < k {
                assert(keys[i] != key);
            }
        },
        None => {
            assert(keys.contains(keys[i]));
        },
    }
}

/// A key occurs exactly when `first_position` finds it.
pub proof fn lemma_contains_iff_found(keys: Seq<Seq<char>>, key: Seq<char>)
    ensures
        keys.contains(key) <==> first_position(keys, key) is Some,
{
    lemma_first_position(keys, key);
    if let Some(i) = first_position(keys, key) {
        assert(keys[i] == key);
    }
}

/// The keys of a sequence of rows, in order.
pub open spec fn keys_of<T: Keyed>(rows: Seq<T>) -> Seq<Seq<char>> {
    Seq::new(rows.len(), |i: int| rows[i].key())
}

/// Finds the first row whose key is `key`.
pub fn find_row<T: Keyed>(rows: &Vec<T>, key: &String) -> (found: Option<usize>)
    ensures
        match found {
            Some(i) => first_position(keys_of(rows@), key@) == Some(i as int),
            None => first_position(keys_of(rows@), key@) is None,
        },
{
    let ghost keys = keys_of(rows@);
    let mut i: usize = 0;
    while i < rows.len()
        invariant
            i <= rows.len(),
            keys == keys_of(rows@),
            forall|j: int| 0 <= j < i ==> #[trigger] keys[j] != key@,
        decreases rows.len() - i,
    {
        if *rows[i].key_text() == *key {
            proof {
                lemma_first_position_unique(keys, key@, i as int);
            }
            return Some(i);
        }
        i += 1;
    }
    proof {
        lemma_first_position(keys, key@);
        if let Some(k) = first_position(keys, key@) {
            assert(keys[k] == key@);
        }
    }
    None
}

} // verus!
