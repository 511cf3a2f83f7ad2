use vstd::prelude::*;

use crate::seqs::{first_index_of, lemma_first_index_of, lemma_first_index_of_at};
use crate::sorted::{insertion_point, lemma_sorted_distinct, strictly_sorted};

verus! {

/// The map that parallel lists of sorted keys and items stand for, each item seen through `f`.
pub open spec fn keyed_map<T, V>(keys: Seq<Seq<char>>, items: Seq<T>, f: spec_fn(T) -> V) -> Map<Seq<char>, V> {
    Map::new(
        |k: Seq<char>| keys.contains(k),
        |k: Seq<char>|
            match first_index_of(keys, k) {
                Some(i) => f(items[i]),
                None => f(items[0]),
            },
    )
}

/// In a strictly sorted list, the first index of a key is the index it stands at.
pub proof fn lemma_sorted_index(keys: Seq<Seq<char>>, i: int)
    requires
        strictly_sorted(keys),
        0 <= i < keys.len(),
    ensures
        first_index_of(keys, keys[i]) == Some(i),
{
    assert forall|j: int| 0 <= j < i implies keys[j] != keys[i] by {
        lemma_sorted_distinct(keys, j, i);
    }
    lemma_first_index_of_at(keys, keys[i], i);
}

/// The item at a key's index is what the map holds under that key.
pub proof fn lemma_keyed_at<T, V>(keys: Seq<Seq<char>>, items: Seq<T>, f: spec_fn(T) -> V, i: int)
    requires
        strictly_sorted(keys),
        0 <= i < keys.len(),
    ensures
        keyed_map(keys, items, f).dom().contains(keys[i]),
        keyed_map(keys, items, f)[keys[i]] == f(items[i]),
{
    lemma_sorted_index(keys, i);
    assert(keys.contains(keys[i]));
}

/// Replacing the item at a key's index replaces the map's value under that key.
pub proof fn lemma_keyed_update<T, V>(keys: Seq<Seq<char>>, items: Seq<T>, f: spec_fn(T) -> V, i: int, x: T)
    requires
        strictly_sorted(keys),
        0 <= i < keys.len(),
        items.len() == keys.len(),
    ensures
        keyed_map(keys, items.update(i, x), f) == keyed_map(keys, items, f).insert(keys[i], f(x)),
{
    let a = keyed_map(keys, items.update(i, x), f);
    let b = keyed_map(keys, items, f).insert(keys[i], f(x));
    lemma_sorted_index(keys, i);
    assert forall|k: Seq<char>| #[trigger] a.dom().contains(k) implies a[k] == b[k] by {
        lemma_first_index_of(keys, k);
        if k != keys[i] {
            let j = first_index_of(keys, k)->0;
            assert(j != i);
        }
    }
    assert(keys.contains(keys[i]));
    assert(a.dom() =~= b.dom());
    assert(a =~= b);
}

/// Putting a new key at its insertion point, with its item beside it, adds the key to the map.
pub proof fn lemma_keyed_insert<T, V>(keys: Seq<Seq<char>>, items: Seq<T>, f: spec_fn(T) -> V, p: int, k: Seq<char>, x: T)
    requires
        strictly_sorted(keys),
        strictly_sorted(keys.insert(p, k)),
        0 <= p <= keys.len(),
        !keys.contains(k),
        items.len() == keys.len(),
    ensures
        keyed_map(keys.insert(p, k), items.insert(p, x), f) == keyed_map(keys, items, f).insert(k, f(x)),
{
    let ks = keys.insert(p, k);
    let its = items.insert(p, x);
    let a = keyed_map(ks, its, f);
    let b = keyed_map(keys, items, f).insert(k, f(x));
    assert forall|y: Seq<char>| a.dom().contains(y) <==> b.dom().contains(y) by {
        if ks.contains(y) && y != k {
            let j = choose|j: int| 0 <= j < ks.len() && ks[j] == y;
            if j < p {
                assert(keys[j] == y);
            } else {
                assert(keys[j - 1] == y);
            }
        }
        if keys.contains(y) {
            let j = choose|j: int| 0 <= j < keys.len() && keys[j] == y;
            if j < p {
                assert(ks[j] == y);
            } else {
                assert(ks[j + 1] == y);
            }
        }
        if y == k {
            assert(ks[p] == k);
        }
    }
    assert(a.dom() =~= b.dom());
    assert forall|y: Seq<char>| #[trigger] a.dom().contains(y) implies a[y] == b[y] by {
        if y == k {
            lemma_sorted_index(ks, p);
        } else {
            let j = choose|j: int| 0 <= j < keys.len() && keys[j] == y;
            lemma_sorted_index(keys, j);
            if j < p {
                assert(ks[j] == y);
                lemma_sorted_index(ks, j);
            } else {
                assert(ks[j + 1] == y);
                lemma_sorted_index(ks, j + 1);
            }
        }
    }
    assert(a =~= b);
}

} // verus!
