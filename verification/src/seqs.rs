use vstd::prelude::*;

verus! {

/// Index of the first element of `s` equal to `k`.
pub open spec fn first_index_of<K>(s: Seq<K>, k: K) -> Option<int>
    decreases s.len(),
{
    if s.len() == 0 {
        None
    } else if s[0] == k {
        Some(0)
    } else {
        match first_index_of(s.drop_first(), k) {
            Some(i) => Some(i + 1),
            None => None,
        }
    }
}

pub proof fn lemma_first_index_of<K>(s: Seq<K>, k: K)
    ensures
        match first_index_of(s, k) {
            Some(i) => 0 <= i < s.len() && s[i] == k && forall|j: int| 0 <= j < i ==> s[j] != k,
            None => forall|j: int| 0 <= j < s.len() ==> s[j] != k,
        },
    decreases s.len(),
{
    if s.len() > 0 && s[0] != k {
        lemma_first_index_of(s.drop_first(), k);
        assert forall|j: int| 1 <= j < s.len() implies s[j] == s.drop_first()[j - 1] by {}
    }
}

/// The first index of `k` in `s` is `i` when `s[i] == k` and no earlier element is `k`.
pub proof fn lemma_first_index_of_at<K>(s: Seq<K>, k: K, i: int)
    requires
        0 <= i < s.len(),
        s[i] == k,
        forall|j: int| 0 <= j < i ==> s[j] != k,
    ensures
        first_index_of(s, k) == Some(i),
{
    lemma_first_index_of(s, k);
    match first_index_of(s, k) {
        Some(m) => {
            if m < i {
                assert(s[m] != k);
            }
            if m > i {
                assert(s[i] != k);
            }
        },
        None => {
            assert(s[i] != k);
        },
    }
}

/// `k` does not occur when no element equals it.
pub proof fn lemma_first_index_of_none<K>(s: Seq<K>, k: K)
    requires
        forall|j: int| 0 <= j < s.len() ==> s[j] != k,
    ensures
        first_index_of(s, k) is None,
{
    lemma_first_index_of(s, k);
    if let Some(m) = first_index_of(s, k) {
        assert(s[m] == k);
    }
}

} // verus!

verus! {

/// Filtering one more element of a prefix appends it when it passes.
pub proof fn lemma_filter_take_step<A>(s: Seq<A>, p: spec_fn(A) -> bool, i: int)
    requires
        0 <= i < s.len(),
    ensures
        s.take(i + 1).filter(p) == (if p(s[i]) {
            s.take(i).filter(p).push(s[i])
        } else {
            s.take(i).filter(p)
        }),
{
    reveal(Seq::filter);
    assert(s.take(i + 1).drop_last() =~= s.take(i));
    assert(s.take(i + 1).last() == s[i]);
}

/// The empty prefix filters to nothing.
pub proof fn lemma_filter_take_zero<A>(s: Seq<A>, p: spec_fn(A) -> bool)
    ensures
        s.take(0).filter(p) == Seq::<A>::empty(),
{
    reveal(Seq::filter);
    assert(s.take(0) =~= Seq::<A>::empty());
}

/// The whole sequence is its longest prefix.
pub proof fn lemma_take_full<A>(s: Seq<A>)
    ensures
        s.take(s.len() as int) == s,
{
    assert(s.take(s.len() as int) =~= s);
}


/// Inserting an element anywhere adds it to the sequence's elements.
pub proof fn lemma_insert_to_set<A>(s: Seq<A>, c: int, x: A)
    requires
        0 <= c <= s.len(),
    ensures
        s.insert(c, x).to_set() == s.to_set().insert(x),
{
    let t = s.insert(c, x);
    assert forall|a: A| t.contains(a) <==> s.to_set().insert(x).contains(a) by {
        if t.contains(a) {
            let z = choose|z: int| 0 <= z < t.len() && t[z] == a;
            if z < c {
                assert(s[z] == a);
            } else if z > c {
                assert(s[z - 1] == a);
            }
        }
        if s.contains(a) {
            let z = choose|z: int| 0 <= z < s.len() && s[z] == a;
            if z < c {
                assert(t[z] == a);
            } else {
                assert(t[z + 1] == a);
            }
        }
        assert(t[c] == x);
    }
    assert(t.to_set() =~= s.to_set().insert(x));
}

/// Adding an element the sequence already holds leaves its elements as they are.
pub proof fn lemma_contains_to_set<A>(s: Seq<A>, x: A)
    requires
        s.contains(x),
    ensures
        s.to_set().insert(x) == s.to_set(),
{
    assert(s.to_set().insert(x) =~= s.to_set());
}

} // verus!
