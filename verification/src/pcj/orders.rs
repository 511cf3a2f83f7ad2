use vstd::prelude::*;

use crate::pcj::{orders_view, VariableOrder};
use crate::text::{lemma_lex_lt_irreflexive, lemma_lex_lt_total, lemma_lex_lt_transitive, lex_lt, str_eq, str_lt};

verus! {

/// Variable orders compare name by name, a shorter order before its extensions.
pub open spec fn order_lt(a: Seq<Seq<char>>, b: Seq<Seq<char>>) -> bool
    decreases a.len(),
{
    if a.len() == 0 {
        b.len() > 0
    } else if b.len() == 0 {
        false
    } else if a[0] != b[0] {
        lex_lt(a[0], b[0])
    } else {
        order_lt(a.drop_first(), b.drop_first())
    }
}

pub proof fn lemma_order_lt_irreflexive(a: Seq<Seq<char>>)
    ensures
        !order_lt(a, a),
    decreases a.len(),
{
    if a.len() > 0 {
        lemma_order_lt_irreflexive(a.drop_first());
    }
}

pub proof fn lemma_order_lt_total(a: Seq<Seq<char>>, b: Seq<Seq<char>>)
    ensures
        a == b || order_lt(a, b) || order_lt(b, a),
        !(order_lt(a, b) && order_lt(b, a)),
    decreases a.len(),
{
    if a.len() > 0 && b.len() > 0 {
        lemma_order_lt_total(a.drop_first(), b.drop_first());
        lemma_lex_lt_total(a[0], b[0]);
        if a[0] == b[0] && a.drop_first() == b.drop_first() {
            assert(a =~= seq![a[0]] + a.drop_first());
            assert(b =~= seq![b[0]] + b.drop_first());
        }
    } else if a.len() == 0 && b.len() == 0 {
        assert(a =~= b);
    }
}

pub proof fn lemma_order_lt_transitive(a: Seq<Seq<char>>, b: Seq<Seq<char>>, c: Seq<Seq<char>>)
    requires
        order_lt(a, b),
        order_lt(b, c),
    ensures
        order_lt(a, c),
    decreases a.len(),
{
    if a.len() > 0 && b.len() > 0 && c.len() > 0 {
        if a[0] == b[0] && b[0] == c[0] {
            lemma_order_lt_transitive(a.drop_first(), b.drop_first(), c.drop_first());
        } else if a[0] == b[0] {
        } else if b[0] == c[0] {
        } else {
            lemma_lex_lt_transitive(a[0], b[0], c[0]);
            lemma_lex_lt_total(a[0], b[0]);
        }
    }
}

/// Whether order `a` sorts strictly before order `b`.
pub fn order_lt_exec(a: &VariableOrder, b: &VariableOrder) -> (r: bool)
    ensures
        r == order_lt(a@, b@),
{
    let x = a.as_slice();
    let y = b.as_slice();
    let mut i: usize = 0;
    assert(a@.skip(0) =~= a@);
    assert(b@.skip(0) =~= b@);
    while i < x.len() && i < y.len()
        invariant
            x@.len() == a@.len(),
            y@.len() == b@.len(),
            forall|k: int| 0 <= k < x@.len() ==> #[trigger] x@[k]@ == a@[k],
            forall|k: int| 0 <= k < y@.len() ==> #[trigger] y@[k]@ == b@[k],
            i <= x.len(),
            i <= y.len(),
            order_lt(a@, b@) == order_lt(a@.skip(i as int), b@.skip(i as int)),
        decreases x.len() - i,
    {
        assert(x@[i as int]@ == a@[i as int]);
        assert(y@[i as int]@ == b@[i as int]);
        if !str_eq(x[i].as_str(), y[i].as_str()) {
            assert(a@.skip(i as int)[0] == a@[i as int]);
            assert(b@.skip(i as int)[0] == b@[i as int]);
            return str_lt(x[i].as_str(), y[i].as_str());
        }
        assert(a@.skip(i as int).drop_first() =~= a@.skip(i + 1));
        assert(b@.skip(i as int).drop_first() =~= b@.skip(i + 1));
        i = i + 1;
    }
    i == x.len() && i < y.len()
}

/// The orders are in strictly increasing order.
pub open spec fn orders_sorted(s: Seq<Seq<Seq<char>>>) -> bool {
    forall|i: int, j: int| 0 <= i < j < s.len() ==> order_lt(#[trigger] s[i], #[trigger] s[j])
}

/// The orders of a finite set in strictly increasing order.
pub open spec fn sorted_orders(s: Set<Seq<Seq<char>>>) -> Seq<Seq<Seq<char>>> {
    choose|q: Seq<Seq<Seq<char>>>| orders_sorted(q) && q.to_set() == s
}

proof fn lemma_sorted_tail(a: Seq<Seq<Seq<char>>>)
    requires
        orders_sorted(a),
        a.len() > 0,
    ensures
        orders_sorted(a.drop_first()),
        !a.drop_first().to_set().contains(a[0]),
        a.drop_first().to_set() == a.to_set().remove(a[0]),
{
    assert forall|x: int, y: int| 0 <= x < y < a.drop_first().len() implies order_lt(
        #[trigger] a.drop_first()[x],
        #[trigger] a.drop_first()[y],
    ) by {
        assert(a.drop_first()[x] == a[x + 1]);
        assert(a.drop_first()[y] == a[y + 1]);
    }
    if a.drop_first().contains(a[0]) {
        let k = choose|k: int| 0 <= k < a.drop_first().len() && a.drop_first()[k] == a[0];
        assert(order_lt(a[0], a[k + 1]));
        lemma_order_lt_irreflexive(a[0]);
    }
    assert forall|o: Seq<Seq<char>>| #[trigger] a.drop_first().contains(o) <==> a.to_set().remove(a[0]).contains(o) by {
        if a.contains(o) && o != a[0] {
            let k = choose|k: int| 0 <= k < a.len() && a[k] == o;
            assert(a.drop_first()[k - 1] == o);
        }
        if a.drop_first().contains(o) {
            let k = choose|k: int| 0 <= k < a.drop_first().len() && a.drop_first()[k] == o;
            assert(a[k + 1] == o);
        }
    }
    assert(a.drop_first().to_set() =~= a.to_set().remove(a[0]));
}

/// Two strictly sorted lists with the same orders are equal.
pub proof fn lemma_orders_unique(a: Seq<Seq<Seq<char>>>, b: Seq<Seq<Seq<char>>>)
    requires
        orders_sorted(a),
        orders_sorted(b),
        a.to_set() == b.to_set(),
    ensures
        a == b,
    decreases a.len(),
{
    if a.len() == 0 {
        if b.len() > 0 {
            assert(b.to_set().contains(b[0]));
        }
        assert(a =~= b);
    } else {
        assert(a.to_set().contains(a[0]));
        assert(b.to_set().contains(a[0]));
        let j = choose|j: int| 0 <= j < b.len() && b[j] == a[0];
        assert(b.to_set().contains(b[0]));
        assert(a.to_set().contains(b[0]));
        let i = choose|i: int| 0 <= i < a.len() && a[i] == b[0];
        if j > 0 {
            assert(order_lt(b[0], b[j]));
            if i > 0 {
                assert(order_lt(a[0], a[i]));
                lemma_order_lt_transitive(a[0], b[0], a[0]);
                lemma_order_lt_irreflexive(a[0]);
            } else {
                lemma_order_lt_irreflexive(b[0]);
            }
        }
        assert(a[0] == b[0]);
        lemma_sorted_tail(a);
        lemma_sorted_tail(b);
        lemma_orders_unique(a.drop_first(), b.drop_first());
        assert(a =~= b) by {
            assert forall|k: int| 0 <= k < a.len() implies a[k] == b[k] by {
                if k > 0 {
                    assert(a[k] == a.drop_first()[k - 1]);
                    assert(b[k] == b.drop_first()[k - 1]);
                }
            }
        }
    }
}

/// Adds an order to a strictly increasing list of orders, unless an equal order is there.
pub fn insert_order(v: &mut Vec<VariableOrder>, x: VariableOrder)
    requires
        orders_sorted(orders_view(old(v)@)),
    ensures
        orders_sorted(orders_view(final(v)@)),
        orders_view(final(v)@).to_set() == orders_view(old(v)@).to_set().insert(x@),
{
    let ghost s = orders_view(v@);
    let mut i: usize = 0;
    while i < v.len() && order_lt_exec(&v[i], &x)
        invariant
            i <= v.len(),
            s == orders_view(v@),
            forall|k: int| 0 <= k < i ==> order_lt(#[trigger] s[k], x@),
        decreases v.len() - i,
    {
        i = i + 1;
    }
    if i < v.len() && v[i].same_as(&x) {
        proof {
            assert(s[i as int] == x@);
            assert(s.contains(x@));
            assert(s.to_set().insert(x@) =~= s.to_set());
        }
        return;
    }
    proof {
        if i < s.len() {
            lemma_order_lt_total(s[i as int], x@);
        }
    }
    let ghost xv = x@;
    v.insert(i, x);
    proof {
        let t = orders_view(v@);
        assert(t =~= s.insert(i as int, xv));
        assert forall|a: int, b: int| 0 <= a < b < t.len() implies order_lt(#[trigger] t[a], #[trigger] t[b]) by {
            if b < i {
            } else if b == i {
            } else if a < i {
                assert(t[b] == s[b - 1]);
                if b - 1 > i {
                    assert(order_lt(s[i as int], s[b - 1]));
                    lemma_order_lt_transitive(xv, s[i as int], s[b - 1]);
                }
                lemma_order_lt_transitive(s[a], xv, s[b - 1]);
            } else if a == i {
                assert(t[b] == s[b - 1]);
                if b - 1 > i {
                    assert(order_lt(s[i as int], s[b - 1]));
                    lemma_order_lt_transitive(xv, s[i as int], s[b - 1]);
                }
            } else {
                assert(t[a] == s[a - 1]);
                assert(t[b] == s[b - 1]);
            }
        }
        crate::seqs::lemma_insert_to_set(s, i as int, xv);
    }
}

/// The distinct orders of a list, in increasing order.
pub fn sorted_order_set(v: &Vec<VariableOrder>) -> (r: Vec<VariableOrder>)
    ensures
        orders_view(r@) == sorted_orders(orders_view(v@).to_set()),
{
    let mut out: Vec<VariableOrder> = Vec::new();
    let mut i: usize = 0;
    assert(orders_view(out@).to_set() =~= orders_view(v@).take(0).to_set());
    while i < v.len()
        invariant
            i <= v.len(),
            orders_sorted(orders_view(out@)),
            orders_view(out@).to_set() == orders_view(v@).take(i as int).to_set(),
        decreases v.len() - i,
    {
        insert_order(&mut out, v[i].clone());
        proof {
            assert(orders_view(v@).take(i + 1) =~= orders_view(v@).take(i as int).push(v@[i as int]@));
            crate::seqs::lemma_insert_to_set(
                orders_view(v@).take(i as int),
                i as int,
                v@[i as int]@,
            );
            assert(orders_view(v@).take(i as int).insert(i as int, v@[i as int]@) =~= orders_view(v@).take(i + 1));
        }
        i = i + 1;
    }
    proof {
        assert(orders_view(v@).take(i as int) =~= orders_view(v@));
        let s = orders_view(v@).to_set();
        assert(orders_sorted(orders_view(out@)) && orders_view(out@).to_set() == s);
        let c = sorted_orders(s);
        lemma_orders_unique(c, orders_view(out@));
    }
    out
}

} // verus!
