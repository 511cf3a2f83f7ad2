use vstd::prelude::*;

use crate::text::{lemma_lex_lt_irreflexive, lemma_lex_lt_total, lemma_lex_lt_transitive, lex_lt, str_eq, str_lt, views};

verus! {

/// The texts are in strictly increasing order.
pub open spec fn strictly_sorted(s: Seq<Seq<char>>) -> bool {
    forall|i: int, j: int| 0 <= i < j < s.len() ==> lex_lt(#[trigger] s[i], #[trigger] s[j])
}

/// A strictly sorted sequence has no repeated text.
pub proof fn lemma_sorted_distinct(s: Seq<Seq<char>>, i: int, j: int)
    requires
        strictly_sorted(s),
        0 <= i < s.len(),
        0 <= j < s.len(),
        i != j,
    ensures
        s[i] != s[j],
{
    if i < j {
        assert(lex_lt(s[i], s[j]));
        lemma_lex_lt_irreflexive(s[i]);
    } else {
        assert(lex_lt(s[j], s[i]));
        lemma_lex_lt_irreflexive(s[j]);
    }
}

/// Where `x` goes in a sorted sequence: every text before it is smaller, and the text at it,
/// if any, is not smaller.
pub open spec fn insertion_point(s: Seq<Seq<char>>, x: Seq<char>, i: int) -> bool {
    &&& 0 <= i <= s.len()
    &&& forall|k: int| 0 <= k < i ==> lex_lt(#[trigger] s[k], x)
    &&& i < s.len() ==> !lex_lt(s[i], x)
}

/// Inserting `x` at its insertion point keeps a sorted sequence sorted, when `x` is new.
pub proof fn lemma_insert_sorted(s: Seq<Seq<char>>, x: Seq<char>, i: int)
    requires
        strictly_sorted(s),
        insertion_point(s, x, i),
        i < s.len() ==> s[i] != x,
    ensures
        strictly_sorted(s.insert(i, x)),
{
    let t = s.insert(i, x);
    if i < s.len() {
        lemma_lex_lt_total(s[i], x);
    }
    assert forall|a: int, b: int| 0 <= a < b < t.len() implies lex_lt(#[trigger] t[a], #[trigger] t[b]) by {
        if b < i {
        } else if b == i {
            assert(t[b] == x);
        } else if a < i {
            // t[a] = s[a] < x < s[i] <= s[b - 1]
            assert(t[b] == s[b - 1]);
            if b - 1 > i {
                assert(lex_lt(s[i], s[b - 1]));
                lemma_lex_lt_transitive(x, s[i], s[b - 1]);
            }
            lemma_lex_lt_transitive(s[a], x, s[b - 1]);
        } else if a == i {
            assert(t[b] == s[b - 1]);
            if b - 1 > i {
                assert(lex_lt(s[i], s[b - 1]));
                lemma_lex_lt_transitive(x, s[i], s[b - 1]);
            }
        } else {
            assert(t[a] == s[a - 1]);
            assert(t[b] == s[b - 1]);
        }
    }
}

/// The texts of a strictly sorted list of strings, as a set.
pub open spec fn string_set(v: Seq<String>) -> Set<Seq<char>> {
    views(v).to_set()
}

/// Adds `x` to a sorted list of distinct strings, keeping it sorted; returns whether it was
/// new.
pub fn insert_sorted_string(v: &mut Vec<String>, x: String) -> (added: bool)
    requires
        strictly_sorted(views(old(v)@)),
    ensures
        strictly_sorted(views(final(v)@)),
        views(final(v)@).to_set() == views(old(v)@).to_set().insert(x@),
        added == !views(old(v)@).contains(x@),
        added ==> views(final(v)@).len() == views(old(v)@).len() + 1,
        !added ==> final(v)@ == old(v)@,
{
    let mut i: usize = 0;
    while i < v.len()
        invariant
            i <= v@.len(),
            strictly_sorted(views(v@)),
            forall|k: int| 0 <= k < i ==> lex_lt(#[trigger] views(v@)[k], x@),
        ensures
            i <= v@.len(),
            forall|k: int| 0 <= k < i ==> lex_lt(#[trigger] views(v@)[k], x@),
            i < v@.len() ==> !lex_lt(views(v@)[i as int], x@),
        decreases v.len() - i,
    {
        if !str_lt(v[i].as_str(), x.as_str()) {
            break;
        }
        i = i + 1;
    }
    let ghost s = views(v@);
    if i < v.len() && str_eq(v[i].as_str(), x.as_str()) {
        assert(s.contains(x@)) by {
            assert(s[i as int] == x@);
        }
        assert(s.to_set().insert(x@) =~= s.to_set());
        return false;
    }
    assert(!s.contains(x@)) by {
        if s.contains(x@) {
            let k = choose|k: int| 0 <= k < s.len() && s[k] == x@;
            if k < i {
                lemma_lex_lt_irreflexive(x@);
            } else if k > i {
                assert(lex_lt(s[i as int], s[k]));
                lemma_lex_lt_total(s[i as int], x@);
            }
        }
    }
    assert(insertion_point(s, x@, i as int));
    proof {
        lemma_insert_sorted(s, x@, i as int);
    }
    v.insert(i, x);
    assert(views(v@) =~= s.insert(i as int, x@));
    assert(views(v@).to_set() =~= s.to_set().insert(x@)) by {
        assert forall|y: Seq<char>| views(v@).to_set().contains(y) == s.to_set().insert(x@).contains(y) by {
            if s.to_set().contains(y) && y != x@ {
                let k = choose|k: int| 0 <= k < s.len() && s[k] == y;
                if k < i {
                    assert(views(v@)[k] == y);
                } else {
                    assert(views(v@)[k + 1] == y);
                }
            }
            if views(v@).to_set().contains(y) {
                let k = choose|k: int| 0 <= k < views(v@).len() && views(v@)[k] == y;
                if k < i {
                    assert(s[k] == y);
                } else if k > i {
                    assert(s[k - 1] == y);
                }
            }
            if y == x@ {
                assert(views(v@)[i as int] == y);
            }
        }
    }
    true
}


/// Where `x` goes in a sorted list of strings, and whether it is already there.
pub fn sorted_position(v: &Vec<String>, x: &str) -> (r: (usize, bool))
    requires
        strictly_sorted(views(v@)),
    ensures
        insertion_point(views(v@), x@, r.0 as int),
        r.1 == views(v@).contains(x@),
        r.1 ==> r.0 < v@.len() && v@[r.0 as int]@ == x@,
{
    let mut i: usize = 0;
    while i < v.len()
        invariant
            i <= v@.len(),
            forall|k: int| 0 <= k < i ==> lex_lt(#[trigger] views(v@)[k], x@),
        ensures
            i <= v@.len(),
            forall|k: int| 0 <= k < i ==> lex_lt(#[trigger] views(v@)[k], x@),
            i < v@.len() ==> !lex_lt(views(v@)[i as int], x@),
        decreases v.len() - i,
    {
        if !str_lt(v[i].as_str(), x) {
            break;
        }
        i = i + 1;
    }
    let found = i < v.len() && str_eq(v[i].as_str(), x);
    proof {
        let s = views(v@);
        if found {
            assert(s[i as int] == x@);
        } else if s.contains(x@) {
            let k = choose|k: int| 0 <= k < s.len() && s[k] == x@;
            if k < i {
                lemma_lex_lt_irreflexive(x@);
            } else if k > i {
                assert(lex_lt(s[i as int], s[k]));
                lemma_lex_lt_total(s[i as int], x@);
            }
        }
    }
    (i, found)
}


/// Dropping the first text of a sorted list removes it from the set of texts.
proof fn lemma_sorted_drop_first_set(a: Seq<Seq<char>>)
    requires
        strictly_sorted(a),
        a.len() > 0,
    ensures
        a.drop_first().to_set() == a.to_set().remove(a[0]),
{
    assert forall|y: Seq<char>| a.drop_first().to_set().contains(y) == a.to_set().remove(a[0]).contains(y) by {
        if a.drop_first().to_set().contains(y) {
            let k = choose|k: int| 0 <= k < a.drop_first().len() && a.drop_first()[k] == y;
            assert(a[k + 1] == y);
            lemma_sorted_distinct(a, 0, k + 1);
        }
        if a.to_set().remove(a[0]).contains(y) {
            let k = choose|k: int| 0 <= k < a.len() && a[k] == y;
            assert(k != 0);
            assert(a.drop_first()[k - 1] == y);
        }
    }
    assert(a.drop_first().to_set() =~= a.to_set().remove(a[0]));
}

/// Two strictly sorted lists with the same texts are equal.
pub proof fn lemma_sorted_unique(a: Seq<Seq<char>>, b: Seq<Seq<char>>)
    requires
        strictly_sorted(a),
        strictly_sorted(b),
        a.to_set() == b.to_set(),
    ensures
        a == b,
    decreases a.len(),
{
    if a.len() == 0 {
        if b.len() > 0 {
            assert(b.to_set().contains(b[0]));
            assert(a.to_set() =~= Set::<Seq<char>>::empty());
        }
        assert(a =~= b);
    } else {
        assert(a.to_set().contains(a[0]));
        assert(b.to_set().contains(a[0]));
        let j = choose|j: int| 0 <= j < b.len() && b[j] == a[0];
        assert(b.to_set().contains(b[0]));
        assert(a.to_set().contains(b[0]));
        let i = choose|i: int| 0 <= i < a.len() && a[i] == b[0];
        if j > 0 {
            assert(lex_lt(b[0], b[j]));
            if i > 0 {
                assert(lex_lt(a[0], a[i]));
                lemma_lex_lt_transitive(a[0], b[0], a[0]);
                lemma_lex_lt_irreflexive(a[0]);
            } else {
                lemma_lex_lt_irreflexive(b[0]);
            }
        }
        assert(a[0] == b[0]);
        lemma_sorted_drop_first_set(a);
        lemma_sorted_drop_first_set(b);
        assert(strictly_sorted(a.drop_first())) by {
            assert forall|x: int, y: int| 0 <= x < y < a.drop_first().len() implies lex_lt(
                #[trigger] a.drop_first()[x],
                #[trigger] a.drop_first()[y],
            ) by {
                assert(a.drop_first()[x] == a[x + 1]);
                assert(a.drop_first()[y] == a[y + 1]);
            }
        }
        assert(strictly_sorted(b.drop_first())) by {
            assert forall|x: int, y: int| 0 <= x < y < b.drop_first().len() implies lex_lt(
                #[trigger] b.drop_first()[x],
                #[trigger] b.drop_first()[y],
            ) by {
                assert(b.drop_first()[x] == b[x + 1]);
                assert(b.drop_first()[y] == b[y + 1]);
            }
        }
        lemma_sorted_unique(a.drop_first(), b.drop_first());
        assert(a =~= b) by {
            assert forall|k: int| 0 <= k < a.len() implies a[k] == b[k] by {
                if k > 0 {
                    assert(a[k] == a.drop_first()[k - 1]);
                    assert(b[k] == b.drop_first()[k - 1]);
                }
            }
        }
    }
}

/// The texts of a finite set in strictly increasing order.
pub open spec fn sorted_names(s: Set<Seq<char>>) -> Seq<Seq<char>> {
    choose|q: Seq<Seq<char>>| strictly_sorted(q) && q.to_set() == s
}

/// A strictly sorted list is the sorted list of its texts.
pub proof fn lemma_sorted_names(q: Seq<Seq<char>>)
    requires
        strictly_sorted(q),
    ensures
        sorted_names(q.to_set()) == q,
{
    let c = sorted_names(q.to_set());
    assert(strictly_sorted(q) && q.to_set() == q.to_set());
    lemma_sorted_unique(c, q);
}


/// A sorted list has one insertion point for a text.
pub proof fn lemma_insertion_point_unique(s: Seq<Seq<char>>, x: Seq<char>, i: int, j: int)
    requires
        insertion_point(s, x, i),
        insertion_point(s, x, j),
    ensures
        i == j,
{
    if i < j {
        assert(lex_lt(s[i], x));
    } else if j < i {
        assert(lex_lt(s[j], x));
    }
}

/// Puts `x` under `key` in parallel lists kept in increasing order of key: it replaces the
/// item of an equal key, or goes in at the key's insertion point.
pub fn upsert_sorted<T>(keys: &mut Vec<String>, items: &mut Vec<T>, key: String, x: T)
    requires
        strictly_sorted(views(old(keys)@)),
        old(keys)@.len() == old(items)@.len(),
    ensures
        strictly_sorted(views(final(keys)@)),
        final(keys)@.len() == final(items)@.len(),
        match crate::seqs::first_index_of(views(old(keys)@), key@) {
            Some(i) => views(final(keys)@) == views(old(keys)@) && final(items)@ == old(items)@.update(i, x),
            None => insertion_point(
                views(old(keys)@),
                key@,
                choose|i: int| insertion_point(views(old(keys)@), key@, i),
            ) && views(final(keys)@) == views(old(keys)@).insert(
                choose|i: int| insertion_point(views(old(keys)@), key@, i),
                key@,
            ) && final(items)@ == old(items)@.insert(
                choose|i: int| insertion_point(views(old(keys)@), key@, i),
                x,
            ),
        },
{
    let ghost ks = views(keys@);
    let (pos, found) = sorted_position(keys, key.as_str());
    proof {
        crate::seqs::lemma_first_index_of(ks, key@);
    }
    if found {
        proof {
            match crate::seqs::first_index_of(ks, key@) {
                Some(i) => {
                    if i != pos {
                        lemma_sorted_distinct(ks, i, pos as int);
                    }
                },
                None => {
                    assert(ks[pos as int] == key@);
                },
            }
        }
        items.set(pos, x);
    } else {
        proof {
            let c = choose|i: int| insertion_point(ks, key@, i);
            lemma_insertion_point_unique(ks, key@, c, pos as int);
            lemma_insert_sorted(ks, key@, pos as int);
            if let Some(i) = crate::seqs::first_index_of(ks, key@) {
                assert(ks.contains(key@));
            }
        }
        keys.insert(pos, key);
        items.insert(pos, x);
        assert(views(keys@) =~= ks.insert(pos as int, views(keys@)[pos as int]));
    }
}

/// The texts are in increasing order, repeats allowed.
pub open spec fn sorted_le(s: Seq<Seq<char>>) -> bool {
    forall|i: int, j: int| 0 <= i < j < s.len() ==> !lex_lt(#[trigger] s[j], #[trigger] s[i])
}

/// Inserting `x` after every smaller text and before the first text that is not smaller
/// keeps a sequence in increasing order, and adds `x` to its texts.
pub proof fn lemma_insert_sorted_le(s: Seq<Seq<char>>, x: Seq<char>, p: int)
    requires
        sorted_le(s),
        insertion_point(s, x, p),
    ensures
        sorted_le(s.insert(p, x)),
        s.insert(p, x).to_multiset() == s.to_multiset().insert(x),
{
    let t = s.insert(p, x);
    assert forall|a: int, b: int| 0 <= a < b < t.len() implies !lex_lt(#[trigger] t[b], #[trigger] t[a]) by {
        if b < p {
        } else if b == p {
            lemma_lex_lt_total(s[a], x);
        } else if a < p {
            assert(t[b] == s[b - 1]);
        } else if a == p {
            assert(t[b] == s[b - 1]);
            lemma_lex_lt_total(s[p], s[b - 1]);
            if lex_lt(s[b - 1], x) {
                if s[p] != s[b - 1] {
                    lemma_lex_lt_transitive(s[p], s[b - 1], x);
                }
            }
        } else {
            assert(t[a] == s[a - 1]);
            assert(t[b] == s[b - 1]);
        }
    }
    assert(t =~= s.take(p) + seq![x] + s.skip(p));
    assert(s =~= s.take(p) + s.skip(p));
    vstd::seq_lib::lemma_multiset_commutative(s.take(p) + seq![x], s.skip(p));
    vstd::seq_lib::lemma_multiset_commutative(s.take(p), seq![x]);
    vstd::seq_lib::lemma_multiset_commutative(s.take(p), s.skip(p));
    assert(seq![x].to_multiset() =~= vstd::multiset::Multiset::empty().insert(x)) by {
        assert(seq![x] =~= Seq::<Seq<char>>::empty().push(x));
        Seq::<Seq<char>>::empty().to_multiset_ensures();
    }
    assert(t.to_multiset() =~= s.to_multiset().insert(x));
}

/// Sorts strings in increasing order, keeping repeats.
pub fn sort_strings(v: Vec<String>) -> (r: Vec<String>)
    ensures
        sorted_le(views(r@)),
        views(r@).to_multiset() == views(v@).to_multiset(),
{
    let mut out: Vec<String> = Vec::new();
    let mut i: usize = 0;
    assert(views(v@).take(0) =~= Seq::<Seq<char>>::empty());
    assert(views(out@) =~= Seq::<Seq<char>>::empty());
    while i < v.len()
        invariant
            i <= v.len(),
            sorted_le(views(out@)),
            views(out@).to_multiset() == views(v@).take(i as int).to_multiset(),
        decreases v.len() - i,
    {
        let x = v[i].clone();
        let mut p: usize = 0;
        while p < out.len() && str_lt(out[p].as_str(), x.as_str())
            invariant
                p <= out.len(),
                forall|k: int| 0 <= k < p ==> lex_lt(#[trigger] views(out@)[k], x@),
            decreases out.len() - p,
        {
            p = p + 1;
        }
        let ghost s = views(out@);
        proof {
            lemma_insert_sorted_le(s, x@, p as int);
            assert(views(v@).take(i + 1) =~= views(v@).take(i as int).push(x@));
            views(v@).take(i as int).to_multiset_ensures();
        }
        out.insert(p, x);
        assert(views(out@) =~= s.insert(p as int, x@));
        i = i + 1;
    }
    assert(views(v@).take(i as int) =~= views(v@));
    out
}
/// Parallel key and value lists after `v` is put under `k` as `upsert_sorted` does.
pub open spec fn upsert_spec<V>(ks: Seq<Seq<char>>, vs: Seq<V>, k: Seq<char>, v: V) -> (Seq<Seq<char>>, Seq<V>) {
    match crate::seqs::first_index_of(ks, k) {
        Some(i) => (ks, vs.update(i, v)),
        None => {
            let c = choose|c: int| insertion_point(ks, k, c);
            (ks.insert(c, k), vs.insert(c, v))
        },
    }
}

/// The key and value lists that putting the entries in turn into empty lists makes: a map
/// kept in increasing order of key, where a later entry replaces an earlier one of its key.
pub open spec fn upsert_all<V>(es: Seq<(Seq<char>, V)>) -> (Seq<Seq<char>>, Seq<V>)
    decreases es.len(),
{
    if es.len() == 0 {
        (Seq::empty(), Seq::empty())
    } else {
        let prev = upsert_all(es.drop_last());
        upsert_spec(prev.0, prev.1, es.last().0, es.last().1)
    }
}
/// The key views and values of a list of keyed entries.
pub open spec fn entry_views<V>(es: Seq<(String, V)>) -> Seq<(Seq<char>, V)> {
    es.map_values(|e: (String, V)| (e.0@, e.1))
}

/// Puts the entries in turn into a map kept in increasing order of key; returns its keys and
/// values.
pub fn upsert_entries<V: Copy>(es: &Vec<(String, V)>) -> (r: (Vec<String>, Vec<V>))
    ensures
        (views(r.0@), r.1@) == upsert_all(entry_views(es@)),
        strictly_sorted(views(r.0@)),
        r.0@.len() == r.1@.len(),
{
    let ghost ev = entry_views(es@);
    let mut keys: Vec<String> = Vec::new();
    let mut vals: Vec<V> = Vec::new();
    assert(views(keys@) =~= Seq::<Seq<char>>::empty());
    assert(ev.take(0) =~= Seq::<(Seq<char>, V)>::empty());
    let mut i: usize = 0;
    while i < es.len()
        invariant
            ev == entry_views(es@),
            i <= es.len(),
            strictly_sorted(views(keys@)),
            keys@.len() == vals@.len(),
            (views(keys@), vals@) == upsert_all(ev.take(i as int)),
        decreases es.len() - i,
    {
        let k = es[i].0.clone();
        let v = es[i].1;
        upsert_sorted(&mut keys, &mut vals, k, v);
        proof {
            assert(ev.take(i + 1).drop_last() =~= ev.take(i as int));
            assert(ev.take(i + 1).last() == ev[i as int]);
        }
        i = i + 1;
    }
    assert(ev.take(i as int) =~= ev);
    (keys, vals)
}
/// Every strictly sorted list has a place where any text goes.
pub proof fn lemma_insertion_point_exists(s: Seq<Seq<char>>, x: Seq<char>)
    requires
        strictly_sorted(s),
    ensures
        exists|i: int| insertion_point(s, x, i),
    decreases s.len(),
{
    if s.len() == 0 {
        assert(insertion_point(s, x, 0));
    } else {
        let t = s.drop_last();
        assert forall|a: int, b: int| 0 <= a < b < t.len() implies lex_lt(#[trigger] t[a], #[trigger] t[b]) by {
            assert(t[a] == s[a] && t[b] == s[b]);
        }
        lemma_insertion_point_exists(t, x);
        let i = choose|i: int| insertion_point(t, x, i);
        assert forall|k: int| 0 <= k < i implies lex_lt(#[trigger] s[k], x) by {
            assert(s[k] == t[k]);
            assert(lex_lt(t[k], x));
        }
        if i < t.len() {
            assert(s[i] == t[i]);
            assert(insertion_point(s, x, i));
        } else if lex_lt(s.last(), x) {
            assert(insertion_point(s, x, s.len() as int));
        } else {
            assert(insertion_point(s, x, s.len() - 1));
        }
    }
}

} // verus!
