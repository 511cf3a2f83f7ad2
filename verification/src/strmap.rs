use vstd::prelude::*;

use crate::sorted::{insertion_point, lemma_insert_sorted, lemma_sorted_distinct, strictly_sorted};
use crate::text::{lemma_lex_lt_irreflexive, lemma_lex_lt_total, lex_lt, str_eq, str_lt};

verus! {

/// An entry: a key and its value.
pub type EntryText = (Seq<char>, Seq<char>);

/// The names of the bindings, in order.
pub open spec fn names_of(m: Seq<EntryText>) -> Seq<Seq<char>> {
    m.map_values(|e: EntryText| e.0)
}

/// The value bound to `name`, if any.
pub open spec fn lookup(m: Seq<EntryText>, name: Seq<char>) -> Option<Seq<char>> {
    if exists|i: int| 0 <= i < m.len() && (#[trigger] m[i]).0 == name {
        Some(m[choose|i: int| 0 <= i < m.len() && (#[trigger] m[i]).0 == name].1)
    } else {
        None
    }
}

/// The bindings as a map from names to values.
pub open spec fn as_map(m: Seq<EntryText>) -> Map<Seq<char>, Seq<char>> {
    Map::new(|k: Seq<char>| lookup(m, k) is Some, |k: Seq<char>| lookup(m, k)->0)
}

/// With distinct names, the value bound to the name at `i` is the one at `i`.
pub proof fn lemma_lookup_at(m: Seq<EntryText>, i: int)
    requires
        strictly_sorted(names_of(m)),
        0 <= i < m.len(),
    ensures
        lookup(m, m[i].0) == Some(m[i].1),
{
    let j = choose|j: int| 0 <= j < m.len() && (#[trigger] m[j]).0 == m[i].0;
    assert(m[i].0 == m[i].0);
    if j != i {
        assert(names_of(m)[i] == m[i].0);
        assert(names_of(m)[j] == m[j].0);
        lemma_sorted_distinct(names_of(m), i, j);
    }
}

/// A map from keys to string values, kept in increasing order of key.
pub struct StrMap {
    entries: Vec<(String, String)>,
}

pub open spec fn entry_view(e: (String, String)) -> EntryText {
    (e.0@, e.1@)
}

impl StrMap {
    /// The bindings in increasing order of name.
    pub closed spec fn pairs(self) -> Seq<EntryText> {
        self.entries@.map_values(|e: (String, String)| entry_view(e))
    }

    #[verifier::type_invariant]
    closed spec fn inv(self) -> bool {
        strictly_sorted(names_of(self.pairs()))
    }

    /// The names are strictly increasing.
    pub fn check_sorted(&self)
        ensures
            strictly_sorted(names_of(self.pairs())),
    {
        proof {
            use_type_invariant(self);
        }
    }

    /// The empty set of bindings.
    pub fn new() -> (r: Self)
        ensures
            r.pairs() == Seq::<EntryText>::empty(),
            r@ == Map::<Seq<char>, Seq<char>>::empty(),
    {
        let r = StrMap { entries: Vec::new() };
        assert(r.pairs() =~= Seq::<EntryText>::empty());
        assert(r@ =~= Map::<Seq<char>, Seq<char>>::empty());
        r
    }

    /// The number of bindings.
    pub fn len(&self) -> (r: usize)
        ensures
            r == self.pairs().len(),
    {
        self.entries.len()
    }

    /// The binding at position `i` in order of name.
    pub fn entry(&self, i: usize) -> (r: (&String, &String))
        requires
            i < self.pairs().len(),
        ensures
            (r.0@, r.1@) == self.pairs()[i as int],
            lookup(self.pairs(), r.0@) == Some(r.1@),
    {
        proof {
            use_type_invariant(self);
            lemma_lookup_at(self.pairs(), i as int);
        }
        (&self.entries[i].0, &self.entries[i].1)
    }

    fn position(&self, name: &str) -> (r: (usize, bool))
        ensures
            insertion_point(names_of(self.pairs()), name@, r.0 as int),
            r.1 == (r.0 < self.pairs().len() && self.pairs()[r.0 as int].0 == name@),
    {
        proof {
            use_type_invariant(self);
        }
        let mut i: usize = 0;
        while i < self.entries.len()
            invariant
                i <= self.pairs().len(),
                self.pairs().len() == self.entries@.len(),
                forall|k: int| 0 <= k < i ==> lex_lt(#[trigger] names_of(self.pairs())[k], name@),
            ensures
                i <= self.pairs().len(),
                forall|k: int| 0 <= k < i ==> lex_lt(#[trigger] names_of(self.pairs())[k], name@),
                i < self.pairs().len() ==> !lex_lt(names_of(self.pairs())[i as int], name@),
            decreases self.entries.len() - i,
        {
            assert(names_of(self.pairs())[i as int] == self.entries@[i as int].0@);
            if !str_lt(self.entries[i].0.as_str(), name) {
                break;
            }
            i = i + 1;
        }
        let found = i < self.entries.len() && str_eq(self.entries[i].0.as_str(), name);
        (i, found)
    }

    /// The value bound to `name`.
    pub fn get(&self, name: &str) -> (r: Option<&String>)
        ensures
            match r {
                Some(v) => lookup(self.pairs(), name@) == Some(v@),
                None => lookup(self.pairs(), name@) is None,
            },
            match r {
                Some(v) => self@.contains_key(name@) && self@[name@] == v@,
                None => !self@.contains_key(name@),
            },
    {
        proof {
            use_type_invariant(self);
        }
        let (i, found) = self.position(name);
        if found {
            proof {
                lemma_lookup_at(self.pairs(), i as int);
            }
            Some(&self.entries[i].1)
        } else {
            proof {
                let m = self.pairs();
                if exists|j: int| 0 <= j < m.len() && (#[trigger] m[j]).0 == name@ {
                    let j = choose|j: int| 0 <= j < m.len() && (#[trigger] m[j]).0 == name@;
                    assert(names_of(m)[j] == name@);
                    if j < i {
                        lemma_lex_lt_irreflexive(name@);
                    } else if j > i {
                        assert(lex_lt(names_of(m)[i as int], names_of(m)[j]));
                        lemma_lex_lt_total(names_of(m)[i as int], name@);
                    }
                }
            }
            None
        }
    }

    /// Whether `name` is bound.
    pub fn contains_key(&self, name: &str) -> (r: bool)
        ensures
            r == self@.contains_key(name@),
    {
        self.get(name).is_some()
    }

    /// Binds `name` to `value`, replacing an earlier value.
    pub fn insert(&mut self, name: String, value: String)
        ensures
            final(self)@ == old(self)@.insert(name@, value@),
    {
        proof {
            use_type_invariant(&*self);
        }
        let ghost m = self.pairs();
        let (i, found) = self.position(name.as_str());
        let ghost nv = (name@, value@);
        if found {
            let mut entries: Vec<(String, String)> = Vec::new();
            std::mem::swap(&mut entries, &mut self.entries);
            entries.set(i, (name, value));
            assert(entries@.map_values(|e: (String, String)| entry_view(e)) =~= m.update(i as int, nv));
            assert(names_of(m.update(i as int, nv)) =~= names_of(m));
            self.entries = entries;
            proof {
                let m2 = self.pairs();
                assert(m2 =~= m.update(i as int, nv));
                assert(names_of(m2) =~= names_of(m));
                assert forall|k: Seq<char>| #[trigger] lookup(m2, k) == (if k == nv.0 {
                    Some(nv.1)
                } else {
                    lookup(m, k)
                }) by {
                    lemma_lookup_at(m2, i as int);
                    if k != nv.0 {
                        if exists|j: int| 0 <= j < m.len() && (#[trigger] m[j]).0 == k {
                            let j = choose|j: int| 0 <= j < m.len() && (#[trigger] m[j]).0 == k;
                            lemma_lookup_at(m, j);
                            lemma_lookup_at(m2, j);
                        } else {
                            if exists|j: int| 0 <= j < m2.len() && (#[trigger] m2[j]).0 == k {
                                let j = choose|j: int| 0 <= j < m2.len() && (#[trigger] m2[j]).0 == k;
                                assert(m[j].0 == k);
                            }
                        }
                    }
                }
                assert(self@ =~= old(self)@.insert(name@, value@));
            }
        } else {
            proof {
                lemma_insert_sorted(names_of(m), nv.0, i as int);
            }
            let mut entries: Vec<(String, String)> = Vec::new();
            std::mem::swap(&mut entries, &mut self.entries);
            entries.insert(i, (name, value));
            assert(entries@.map_values(|e: (String, String)| entry_view(e)) =~= m.insert(i as int, nv));
            assert(names_of(m.insert(i as int, nv)) =~= names_of(m).insert(i as int, nv.0));
            self.entries = entries;
            proof {
                let m2 = self.pairs();
                assert(m2 =~= m.insert(i as int, nv));
                assert(names_of(m2) =~= names_of(m).insert(i as int, nv.0));
                assert forall|k: Seq<char>| #[trigger] lookup(m2, k) == (if k == nv.0 {
                    Some(nv.1)
                } else {
                    lookup(m, k)
                }) by {
                    lemma_lookup_at(m2, i as int);
                    if k != nv.0 {
                        if exists|j: int| 0 <= j < m.len() && (#[trigger] m[j]).0 == k {
                            let j = choose|j: int| 0 <= j < m.len() && (#[trigger] m[j]).0 == k;
                            lemma_lookup_at(m, j);
                            if j < i {
                                lemma_lookup_at(m2, j);
                            } else {
                                assert(m2[j + 1] == m[j]);
                                lemma_lookup_at(m2, j + 1);
                            }
                        } else {
                            if exists|j: int| 0 <= j < m2.len() && (#[trigger] m2[j]).0 == k {
                                let j = choose|j: int| 0 <= j < m2.len() && (#[trigger] m2[j]).0 == k;
                                if j < i {
                                    assert(m[j].0 == k);
                                } else if j > i {
                                    assert(m[j - 1].0 == k);
                                }
                            }
                        }
                    }
                }
                assert(self@ =~= old(self)@.insert(name@, value@));
            }
        }
    }

    /// Binds `name` to `value` unless `name` is already bound.
    pub fn insert_if_absent(&mut self, name: &String, value: &String)
        ensures
            final(self)@ == if old(self)@.contains_key(name@) {
                old(self)@
            } else {
                old(self)@.insert(name@, value@)
            },
    {
        if !self.contains_key(name.as_str()) {
            self.insert(name.clone(), value.clone());
        }
    }

    /// Whether two sets bind the same names to the same values.
    pub fn same_as(&self, other: &StrMap) -> (r: bool)
        ensures
            r == (self@ == other@),
    {
        proof {
            use_type_invariant(self);
            use_type_invariant(other);
        }
        let n = self.entries.len();
        if n != other.entries.len() {
            proof {
                lemma_map_len(self.pairs());
                lemma_map_len(other.pairs());
            }
            return false;
        }
        let mut i: usize = 0;
        while i < n
            invariant
                n == self.pairs().len(),
                n == other.pairs().len(),
                i <= n,
                strictly_sorted(names_of(self.pairs())),
                strictly_sorted(names_of(other.pairs())),
                forall|k: int| 0 <= k < i ==> self.pairs()[k] == other.pairs()[k],
            decreases n - i,
        {
            let (ka, va) = self.entry(i);
            let (kb, vb) = other.entry(i);
            if !str_eq(ka.as_str(), kb.as_str()) || !str_eq(va.as_str(), vb.as_str()) {
                proof {
                    let m1 = self.pairs();
                    let m2 = other.pairs();
                    lemma_lookup_at(m1, i as int);
                    if self@ == other@ {
                        // the i-th names must agree since both are the i-th smallest of equal sets
                        lemma_same_maps_same_pairs(m1, m2);
                    }
                }
                return false;
            }
            i = i + 1;
        }
        proof {
            assert(self.pairs() =~= other.pairs());
        }
        true
    }
}

/// With distinct names, the number of bindings is the size of the map.
pub proof fn lemma_map_len(m: Seq<EntryText>)
    requires
        strictly_sorted(names_of(m)),
    ensures
        as_map(m).dom().finite(),
        as_map(m).dom().len() == m.len(),
    decreases m.len(),
{
    let n = names_of(m);
    assert(as_map(m).dom() =~= n.to_set()) by {
        assert forall|k: Seq<char>| as_map(m).dom().contains(k) == n.to_set().contains(k) by {
            if n.to_set().contains(k) {
                let j = choose|j: int| 0 <= j < n.len() && n[j] == k;
                assert(m[j].0 == k);
            }
            if as_map(m).dom().contains(k) {
                let j = choose|j: int| 0 <= j < m.len() && (#[trigger] m[j]).0 == k;
                assert(n[j] == k);
            }
        }
    }
    assert(n.no_duplicates()) by {
        assert forall|i: int, j: int| 0 <= i < n.len() && 0 <= j < n.len() && i != j implies n[i]
            != n[j] by {
            lemma_sorted_distinct(n, i, j);
        }
    }
    n.unique_seq_to_set();
}

/// Two sorted binding sequences with the same map are the same sequence.
pub proof fn lemma_same_maps_same_pairs(m1: Seq<EntryText>, m2: Seq<EntryText>)
    requires
        strictly_sorted(names_of(m1)),
        strictly_sorted(names_of(m2)),
        as_map(m1) == as_map(m2),
    ensures
        m1 == m2,
    decreases m1.len(),
{
    lemma_map_len(m1);
    lemma_map_len(m2);
    if m1.len() > 0 {
        let a = m1[0].0;
        let b = m2[0].0;
        lemma_lookup_at(m1, 0);
        lemma_lookup_at(m2, 0);
        lemma_lookup_from_map(m1, m2, a);
        lemma_lookup_from_map(m1, m2, b);
        if a != b {
            let ja = choose|j: int| 0 <= j < m2.len() && (#[trigger] m2[j]).0 == a;
            let jb = choose|j: int| 0 <= j < m1.len() && (#[trigger] m1[j]).0 == b;
            assert(names_of(m1)[jb] == b);
            assert(names_of(m2)[ja] == a);
            assert(names_of(m1)[0] == a);
            assert(names_of(m2)[0] == b);
            assert(lex_lt(a, b));
            assert(lex_lt(b, a));
            crate::text::lemma_lex_lt_total(a, b);
        }
        assert(m1[0] == m2[0]);
        let t1 = m1.drop_first();
        let t2 = m2.drop_first();
        assert(strictly_sorted(names_of(t1))) by {
            assert forall|i: int, j: int| 0 <= i < j < names_of(t1).len() implies lex_lt(
                #[trigger] names_of(t1)[i],
                #[trigger] names_of(t1)[j],
            ) by {
                assert(names_of(t1)[i] == names_of(m1)[i + 1]);
                assert(names_of(t1)[j] == names_of(m1)[j + 1]);
            }
        }
        assert(strictly_sorted(names_of(t2))) by {
            assert forall|i: int, j: int| 0 <= i < j < names_of(t2).len() implies lex_lt(
                #[trigger] names_of(t2)[i],
                #[trigger] names_of(t2)[j],
            ) by {
                assert(names_of(t2)[i] == names_of(m2)[i + 1]);
                assert(names_of(t2)[j] == names_of(m2)[j + 1]);
            }
        }
        assert(as_map(t1) =~= as_map(t2)) by {
            assert forall|k: Seq<char>| lookup(t1, k) == lookup(t2, k) by {
                lemma_lookup_tail(m1, k);
                lemma_lookup_tail(m2, k);
                lemma_lookup_from_map(m1, m2, k);
            }
        }
        lemma_same_maps_same_pairs(t1, t2);
        assert(m1 =~= seq![m1[0]] + t1);
        assert(m2 =~= seq![m2[0]] + t2);
    } else {
        assert(m2.len() == 0);
        assert(m1 =~= m2);
    }
}

/// Equal maps give equal lookups.
pub proof fn lemma_lookup_from_map(m1: Seq<EntryText>, m2: Seq<EntryText>, k: Seq<char>)
    requires
        as_map(m1) == as_map(m2),
    ensures
        lookup(m1, k) == lookup(m2, k),
{
    assert(as_map(m1).dom().contains(k) == (lookup(m1, k) is Some));
    assert(as_map(m2).dom().contains(k) == (lookup(m2, k) is Some));
    if lookup(m1, k) is Some {
        assert(as_map(m1)[k] == lookup(m1, k)->0);
        assert(as_map(m2)[k] == lookup(m2, k)->0);
    }
}

/// The bindings after the first one bind what the whole does, except the first name.
pub proof fn lemma_lookup_tail(m: Seq<EntryText>, k: Seq<char>)
    requires
        strictly_sorted(names_of(m)),
        m.len() > 0,
    ensures
        lookup(m.drop_first(), k) == if k == m[0].0 {
            None
        } else {
            lookup(m, k)
        },
{
    let t = m.drop_first();
    if exists|j: int| 0 <= j < t.len() && (#[trigger] t[j]).0 == k {
        let j = choose|j: int| 0 <= j < t.len() && (#[trigger] t[j]).0 == k;
        assert(m[j + 1] == t[j]);
        lemma_lookup_at(m, j + 1);
        if k == m[0].0 {
            lemma_sorted_distinct(names_of(m), 0, j + 1);
        }
        assert(strictly_sorted(names_of(t))) by {
            assert forall|a: int, b: int| 0 <= a < b < names_of(t).len() implies lex_lt(
                #[trigger] names_of(t)[a],
                #[trigger] names_of(t)[b],
            ) by {
                assert(names_of(t)[a] == names_of(m)[a + 1]);
                assert(names_of(t)[b] == names_of(m)[b + 1]);
            }
        }
        lemma_lookup_at(t, j);
    } else {
        if k != m[0].0 && exists|j: int| 0 <= j < m.len() && (#[trigger] m[j]).0 == k {
            let j = choose|j: int| 0 <= j < m.len() && (#[trigger] m[j]).0 == k;
            assert(j > 0);
            assert(t[j - 1].0 == k);
        }
    }
}

impl View for StrMap {
    type V = Map<Seq<char>, Seq<char>>;

    open spec fn view(&self) -> Map<Seq<char>, Seq<char>> {
        as_map(self.pairs())
    }
}

impl Clone for StrMap {
    fn clone(&self) -> (r: Self)
        ensures
            r@ == self@,
            r.pairs() == self.pairs(),
    {
        proof {
            use_type_invariant(self);
        }
        let mut entries: Vec<(String, String)> = Vec::new();
        let mut i: usize = 0;
        while i < self.entries.len()
            invariant
                i <= self.entries@.len(),
                entries@.map_values(|e: (String, String)| entry_view(e)) == self.pairs().take(
                    i as int,
                ),
            decreases self.entries.len() - i,
        {
            let ghost before = entries@;
            let e = (self.entries[i].0.clone(), self.entries[i].1.clone());
            assert(entry_view(e) == self.pairs()[i as int]);
            entries.push(e);
            assert(entries@ =~= before.push(e));
            assert(entries@.map_values(|e: (String, String)| entry_view(e)) =~= before.map_values(
                |e: (String, String)| entry_view(e),
            ).push(entry_view(e)));
            assert(self.pairs().take(i + 1) =~= self.pairs().take(i as int).push(self.pairs()[i as int]));
            i = i + 1;
        }
        assert(self.pairs().take(i as int) =~= self.pairs());
        StrMap { entries }
    }
}


/// The first `i + 1` bindings bind what the first `i` do, and the name at `i`.
pub proof fn lemma_as_map_take_step(m: Seq<EntryText>, i: int)
    requires
        strictly_sorted(names_of(m)),
        0 <= i < m.len(),
    ensures
        as_map(m.take(i + 1)) == as_map(m.take(i)).insert(m[i].0, m[i].1),
{
    let a = m.take(i + 1);
    let b = m.take(i);
    assert(strictly_sorted(names_of(a))) by {
        assert forall|x: int, y: int| 0 <= x < y < names_of(a).len() implies lex_lt(
            #[trigger] names_of(a)[x],
            #[trigger] names_of(a)[y],
        ) by {
            assert(names_of(a)[x] == names_of(m)[x]);
            assert(names_of(a)[y] == names_of(m)[y]);
        }
    }
    assert(strictly_sorted(names_of(b))) by {
        assert forall|x: int, y: int| 0 <= x < y < names_of(b).len() implies lex_lt(
            #[trigger] names_of(b)[x],
            #[trigger] names_of(b)[y],
        ) by {
            assert(names_of(b)[x] == names_of(m)[x]);
            assert(names_of(b)[y] == names_of(m)[y]);
        }
    }
    assert forall|k: Seq<char>| #[trigger] lookup(a, k) == (if k == m[i].0 {
        Some(m[i].1)
    } else {
        lookup(b, k)
    }) by {
        assert(a[i] == m[i]);
        lemma_lookup_at(a, i);
        if k != m[i].0 {
            if exists|j: int| 0 <= j < b.len() && (#[trigger] b[j]).0 == k {
                let j = choose|j: int| 0 <= j < b.len() && (#[trigger] b[j]).0 == k;
                lemma_lookup_at(b, j);
                assert(a[j] == b[j]);
                lemma_lookup_at(a, j);
            } else {
                if exists|j: int| 0 <= j < a.len() && (#[trigger] a[j]).0 == k {
                    let j = choose|j: int| 0 <= j < a.len() && (#[trigger] a[j]).0 == k;
                    assert(j != i);
                    assert(b[j] == a[j]);
                }
            }
        }
    }
    assert(as_map(a) =~= as_map(b).insert(m[i].0, m[i].1));
}

/// The empty prefix binds nothing; the whole sequence binds what it binds.
pub proof fn lemma_as_map_take_ends(m: Seq<EntryText>)
    ensures
        as_map(m.take(0)) == Map::<Seq<char>, Seq<char>>::empty(),
        as_map(m.take(m.len() as int)) == as_map(m),
{
    assert(m.take(m.len() as int) =~= m);
    assert(as_map(m.take(0)) =~= Map::<Seq<char>, Seq<char>>::empty());
}


impl StrMap {
    /// Removes the entry of `name`, if any.
    pub fn remove(&mut self, name: &str)
        ensures
            final(self)@ == old(self)@.remove(name@),
    {
        proof {
            use_type_invariant(&*self);
        }
        let ghost m = self.pairs();
        let (i, found) = self.position(name);
        if found {
            let mut entries: Vec<(String, String)> = Vec::new();
            std::mem::swap(&mut entries, &mut self.entries);
            entries.remove(i);
            let ghost m2 = m.remove(i as int);
            assert(entries@.map_values(|e: (String, String)| entry_view(e)) =~= m2);
            assert(strictly_sorted(names_of(m2))) by {
                assert forall|a: int, b: int| 0 <= a < b < names_of(m2).len() implies lex_lt(#[trigger] names_of(m2)[a], #[trigger] names_of(m2)[b]) by {
                    let a2 = if a < i { a } else { a + 1 };
                    let b2 = if b < i { b } else { b + 1 };
                    assert(names_of(m2)[a] == names_of(m)[a2]);
                    assert(names_of(m2)[b] == names_of(m)[b2]);
                }
            }
            self.entries = entries;
            proof {
                assert forall|k: Seq<char>| #[trigger] lookup(m2, k) == (if k == name@ { None } else { lookup(m, k) }) by {
                    if k == name@ {
                        if exists|j: int| 0 <= j < m2.len() && (#[trigger] m2[j]).0 == k {
                            let j = choose|j: int| 0 <= j < m2.len() && (#[trigger] m2[j]).0 == k;
                            let j2 = if j < i { j } else { j + 1 };
                            assert(m[j2].0 == k);
                            assert(names_of(m)[j2] == names_of(m)[i as int]);
                            lemma_sorted_distinct(names_of(m), j2, i as int);
                        }
                    } else {
                        if exists|j: int| 0 <= j < m.len() && (#[trigger] m[j]).0 == k {
                            let j = choose|j: int| 0 <= j < m.len() && (#[trigger] m[j]).0 == k;
                            lemma_lookup_at(m, j);
                            assert(j != i);
                            let j2 = if j < i { j } else { j - 1 };
                            assert(m2[j2] == m[j]);
                            lemma_lookup_at(m2, j2);
                        } else if exists|j: int| 0 <= j < m2.len() && (#[trigger] m2[j]).0 == k {
                            let j = choose|j: int| 0 <= j < m2.len() && (#[trigger] m2[j]).0 == k;
                            let j2 = if j < i { j } else { j + 1 };
                            assert(m[j2].0 == k);
                        }
                    }
                }
                assert(self@ =~= old(self)@.remove(name@));
            }
        } else {
            proof {
                assert(!old(self)@.contains_key(name@)) by {
                    if exists|j: int| 0 <= j < m.len() && (#[trigger] m[j]).0 == name@ {
                        let j = choose|j: int| 0 <= j < m.len() && (#[trigger] m[j]).0 == name@;
                        assert(names_of(m)[j] == name@);
                        if j < i {
                            lemma_lex_lt_irreflexive(name@);
                        } else if j > i {
                            assert(lex_lt(names_of(m)[i as int], names_of(m)[j]));
                            lemma_lex_lt_total(names_of(m)[i as int], name@);
                        }
                    }
                }
                assert(old(self)@.remove(name@) =~= old(self)@);
            }
        }
    }

    /// Removes every entry.
    pub fn clear(&mut self)
        ensures
            final(self)@ == Map::<Seq<char>, Seq<char>>::empty(),
    {
        *self = StrMap::new();
    }
}

} // verus!
