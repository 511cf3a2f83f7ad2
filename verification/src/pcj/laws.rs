use vstd::prelude::*;

use crate::domain::RyaTypeModel;
use crate::pcj::{compatible, joined, natural_join_spec, rotation, row_joins};

verus! {

/// The rows that joining `l` with some compatible row of `rs` gives.
pub open spec fn joins_with(l: Map<Seq<char>, RyaTypeModel>, rs: Seq<Map<Seq<char>, RyaTypeModel>>, x: Map<Seq<char>, RyaTypeModel>) -> bool {
    exists|j: int| 0 <= j < rs.len() && compatible(l, rs[j]) && x == joined(l, #[trigger] rs[j])
}

/// `x` joins a row of `ls` with a compatible row of `rs`.
pub open spec fn join_member(
    ls: Seq<Map<Seq<char>, RyaTypeModel>>,
    rs: Seq<Map<Seq<char>, RyaTypeModel>>,
    x: Map<Seq<char>, RyaTypeModel>,
) -> bool {
    exists|i: int| 0 <= i < ls.len() && joins_with(#[trigger] ls[i], rs, x)
}

proof fn lemma_concat_contains<A>(a: Seq<A>, b: Seq<A>, x: A)
    ensures
        (a + b).contains(x) <==> a.contains(x) || b.contains(x),
{
    if (a + b).contains(x) {
        let k = choose|k: int| 0 <= k < (a + b).len() && (a + b)[k] == x;
        if k < a.len() {
            assert(a[k] == x);
        } else {
            assert(b[k - a.len()] == x);
        }
    }
    if a.contains(x) {
        let k = choose|k: int| 0 <= k < a.len() && a[k] == x;
        assert((a + b)[k] == x);
    }
    if b.contains(x) {
        let k = choose|k: int| 0 <= k < b.len() && b[k] == x;
        assert((a + b)[k + a.len()] == x);
    }
}

proof fn lemma_row_joins_members(
    l: Map<Seq<char>, RyaTypeModel>,
    rs: Seq<Map<Seq<char>, RyaTypeModel>>,
    x: Map<Seq<char>, RyaTypeModel>,
)
    ensures
        row_joins(l, rs).contains(x) <==> joins_with(l, rs, x),
    decreases rs.len(),
{
    if rs.len() == 0 {
        assert(!row_joins(l, rs).contains(x));
    } else {
        let init = rs.drop_last();
        lemma_row_joins_members(l, init, x);
        let tail = if compatible(l, rs.last()) {
            seq![joined(l, rs.last())]
        } else {
            Seq::empty()
        };
        lemma_concat_contains(row_joins(l, init), tail, x);
        if joins_with(l, init, x) {
            let j = choose|j: int| 0 <= j < init.len() && compatible(l, init[j]) && x == joined(l, #[trigger] init[j]);
            assert(rs[j] == init[j]);
        }
        if tail.contains(x) {
            assert(tail[0] == x);
            assert(compatible(l, rs[rs.len() - 1]) && x == joined(l, rs[rs.len() - 1]));
        }
        if joins_with(l, rs, x) {
            let j = choose|j: int| 0 <= j < rs.len() && compatible(l, rs[j]) && x == joined(l, #[trigger] rs[j]);
            if j < rs.len() - 1 {
                assert(init[j] == rs[j]);
            } else {
                assert(tail[0] == x);
            }
        }
    }
}

/// A row is in the natural join of two bags exactly when it joins a row of the first with
/// a compatible row of the second.
pub proof fn law_natural_join_members(
    ls: Seq<Map<Seq<char>, RyaTypeModel>>,
    rs: Seq<Map<Seq<char>, RyaTypeModel>>,
    x: Map<Seq<char>, RyaTypeModel>,
)
    ensures
        natural_join_spec(ls, rs).contains(x) <==> join_member(ls, rs, x),
    decreases ls.len(),
{
    if ls.len() == 0 {
        assert(!natural_join_spec(ls, rs).contains(x));
    } else {
        let init = ls.drop_last();
        law_natural_join_members(init, rs, x);
        lemma_row_joins_members(ls.last(), rs, x);
        lemma_concat_contains(natural_join_spec(init, rs), row_joins(ls.last(), rs), x);
        if join_member(init, rs, x) {
            let i = choose|i: int| 0 <= i < init.len() && joins_with(#[trigger] init[i], rs, x);
            assert(ls[i] == init[i]);
        }
        if joins_with(ls.last(), rs, x) {
            assert(joins_with(ls[ls.len() - 1], rs, x));
        }
        if join_member(ls, rs, x) {
            let i = choose|i: int| 0 <= i < ls.len() && joins_with(#[trigger] ls[i], rs, x);
            if i < ls.len() - 1 {
                assert(init[i] == ls[i]);
            }
        }
    }
}

/// Compatibility is symmetric, and two compatible rows join to the same row either way.
pub proof fn law_join_symmetric(l: Map<Seq<char>, RyaTypeModel>, r: Map<Seq<char>, RyaTypeModel>)
    requires
        compatible(l, r),
    ensures
        compatible(r, l),
        joined(l, r) == joined(r, l),
{
    assert(joined(l, r) =~= joined(r, l)) by {
        assert forall|k: Seq<char>| #[trigger] joined(l, r).contains_key(k) implies joined(l, r)[k]
            == joined(r, l)[k] by {
            if l.contains_key(k) && r.contains_key(k) {
                assert(l[k] == r[k]);
            }
        }
    }
}

/// The natural join is commutative: as sets of rows, joining `ls` with `rs` gives what
/// joining `rs` with `ls` gives.
pub proof fn law_natural_join_commutes(
    ls: Seq<Map<Seq<char>, RyaTypeModel>>,
    rs: Seq<Map<Seq<char>, RyaTypeModel>>,
)
    ensures
        natural_join_spec(ls, rs).to_set() == natural_join_spec(rs, ls).to_set(),
{
    assert forall|x: Map<Seq<char>, RyaTypeModel>| natural_join_spec(ls, rs).to_set().contains(x)
        == natural_join_spec(rs, ls).to_set().contains(x) by {
        law_natural_join_members(ls, rs, x);
        law_natural_join_members(rs, ls, x);
        if join_member(ls, rs, x) {
            let i = choose|i: int| 0 <= i < ls.len() && joins_with(#[trigger] ls[i], rs, x);
            let j = choose|j: int| 0 <= j < rs.len() && compatible(ls[i], rs[j]) && x == joined(ls[i], #[trigger] rs[j]);
            law_join_symmetric(ls[i], rs[j]);
            assert(joins_with(rs[j], ls, x));
        }
        if join_member(rs, ls, x) {
            let j = choose|j: int| 0 <= j < rs.len() && joins_with(#[trigger] rs[j], ls, x);
            let i = choose|i: int| 0 <= i < ls.len() && compatible(rs[j], ls[i]) && x == joined(rs[j], #[trigger] ls[i]);
            law_join_symmetric(rs[j], ls[i]);
            assert(joins_with(ls[i], rs, x));
        }
    }
    assert(natural_join_spec(ls, rs).to_set() =~= natural_join_spec(rs, ls).to_set());
}

/// Joining with the bag of the one empty row changes no row: as sets, `ls` itself.
pub proof fn law_natural_join_unit(ls: Seq<Map<Seq<char>, RyaTypeModel>>)
    ensures
        natural_join_spec(ls, seq![Map::<Seq<char>, RyaTypeModel>::empty()]).to_set() == ls.to_set(),
        natural_join_spec(seq![Map::<Seq<char>, RyaTypeModel>::empty()], ls).to_set() == ls.to_set(),
{
    let e = seq![Map::<Seq<char>, RyaTypeModel>::empty()];
    assert forall|l: Map<Seq<char>, RyaTypeModel>| compatible(l, e[0]) && joined(l, e[0]) == l by {
        assert(joined(l, e[0]) =~= l);
    }
    assert forall|x: Map<Seq<char>, RyaTypeModel>| natural_join_spec(ls, e).to_set().contains(x)
        == ls.to_set().contains(x) by {
        law_natural_join_members(ls, e, x);
        if join_member(ls, e, x) {
            let i = choose|i: int| 0 <= i < ls.len() && joins_with(#[trigger] ls[i], e, x);
            assert(ls[i] == x);
        }
        if ls.contains(x) {
            let i = choose|i: int| 0 <= i < ls.len() && ls[i] == x;
            assert(joins_with(ls[i], e, x));
        }
    }
    assert(natural_join_spec(ls, e).to_set() =~= ls.to_set());
    law_natural_join_commutes(e, ls);
}

/// Joining with no rows gives no rows.
pub proof fn law_natural_join_empty(ls: Seq<Map<Seq<char>, RyaTypeModel>>)
    ensures
        natural_join_spec(ls, Seq::empty()) == Seq::<Map<Seq<char>, RyaTypeModel>>::empty(),
        natural_join_spec(Seq::empty(), ls) == Seq::<Map<Seq<char>, RyaTypeModel>>::empty(),
    decreases ls.len(),
{
    if ls.len() > 0 {
        law_natural_join_empty(ls.drop_last());
        assert(row_joins(ls.last(), Seq::empty()) == Seq::<Map<Seq<char>, RyaTypeModel>>::empty());
        assert(natural_join_spec(ls, Seq::empty()) =~= Seq::<Map<Seq<char>, RyaTypeModel>>::empty());
    }
}

/// The rotations of a list of names.
pub open spec fn rotations(s: Seq<Seq<char>>) -> Set<Seq<Seq<char>>> {
    Set::new(|o: Seq<Seq<char>>| exists|k: int| 0 <= k < s.len() && o == rotation(s, k))
}

/// A list of `n` distinct names has `n` distinct rotations.
pub proof fn law_rotations_count(s: Seq<Seq<char>>)
    requires
        s.no_duplicates(),
    ensures
        rotations(s).len() == s.len(),
        rotations(s).finite(),
{
    let q = Seq::new(s.len(), |k: int| rotation(s, k));
    assert forall|i: int, j: int| 0 <= i < q.len() && 0 <= j < q.len() && i != j implies q[i] != q[j] by {
        assert(q[i][0] == s[i]);
        assert(q[j][0] == s[j]);
    }
    assert(q.no_duplicates());
    assert(q.to_set() =~= rotations(s)) by {
        assert forall|o: Seq<Seq<char>>| q.to_set().contains(o) == rotations(s).contains(o) by {
            if q.to_set().contains(o) {
                let k = choose|k: int| 0 <= k < q.len() && q[k] == o;
                assert(o == rotation(s, k));
            }
            if rotations(s).contains(o) {
                let k = choose|k: int| 0 <= k < s.len() && o == rotation(s, k);
                assert(q[k] == o);
            }
        }
    }
    q.unique_seq_to_set();
}

/// A plain authorization term: a non-empty run of ASCII letters and digits.
pub open spec fn plain_term(a: Seq<char>) -> bool {
    a.len() > 0 && forall|i: int| 0 <= i < a.len() ==> crate::code_intel::names::ascii_alnum(#[trigger] a[i])
}

pub proof fn lemma_split_single(s: Seq<char>, c: char)
    requires
        forall|i: int| 0 <= i < s.len() ==> s[i] != c,
    ensures
        crate::text::split_spec(s, c) == seq![s],
{
    crate::text::lemma_first_index_from(s, c, 0);
}

pub proof fn lemma_split_pair(a: Seq<char>, b: Seq<char>, c: char)
    requires
        forall|i: int| 0 <= i < a.len() ==> a[i] != c,
        forall|i: int| 0 <= i < b.len() ==> b[i] != c,
    ensures
        crate::text::split_spec(a + seq![c] + b, c) == seq![a, b],
{
    let s = a + seq![c] + b;
    crate::text::lemma_first_index_from(s, c, 0);
    assert(s[a.len() as int] == c);
    match crate::text::first_index(s, c) {
        Some(i) => {
            if i < a.len() {
                assert(s[i] == a[i]);
            }
            assert(i == a.len());
        },
        None => {},
    }
    assert(s.take(a.len() as int) =~= a);
    assert(s.subrange(a.len() as int + 1, s.len() as int) =~= b);
    lemma_split_single(b, c);
}

pub proof fn lemma_plain_clean(a: Seq<char>)
    requires
        plain_term(a),
    ensures
        crate::words::trim_spec(a) == a,
        crate::pcj::clean_term_spec(a) == a,
        forall|i: int| 0 <= i < a.len() ==> a[i] != '&' && a[i] != '|',
{
    assert(crate::code_intel::names::ascii_alnum(a[0]));
    assert(crate::code_intel::names::ascii_alnum(a[a.len() - 1]));
    assert(crate::words::trim_start_spec(a) == a);
    assert(crate::words::trim_end_spec(a) == a);
    assert(crate::words::trim_start_char_spec(a, '(') == a);
    assert(crate::words::trim_end_char_spec(a, ')') == a);
}

proof fn lemma_joined_trim(a: Seq<char>, b: Seq<char>, c: char)
    requires
        plain_term(a),
        plain_term(b),
    ensures
        crate::words::trim_spec(a + seq![c] + b) == a + seq![c] + b,
{
    let s = a + seq![c] + b;
    assert(s[0] == a[0]);
    assert(crate::code_intel::names::ascii_alnum(a[0]));
    assert(crate::words::trim_start_spec(s) == s);
    assert(s.last() == b[b.len() - 1]);
    assert(crate::code_intel::names::ascii_alnum(b[b.len() - 1]));
    assert(crate::words::trim_end_spec(s) == s);
}

/// Visibility expressions over plain terms mean what they say: a single term admits a
/// reader exactly when it is one of the reader's authorizations, `a&b` only when both are,
/// and `a|b` when either is.
pub proof fn law_visibility_and_or(a: Seq<char>, b: Seq<char>, auths: Seq<Seq<char>>)
    requires
        plain_term(a),
        plain_term(b),
    ensures
        crate::pcj::visibility_allowed_spec(Seq::empty(), auths),
        crate::pcj::visibility_allowed_spec(a, auths) == auths.contains(a),
        crate::pcj::visibility_allowed_spec(a + seq!['&'] + b, auths) == (auths.contains(a) && auths.contains(b)),
        crate::pcj::visibility_allowed_spec(a + seq!['|'] + b, auths) == (auths.contains(a) || auths.contains(b)),
{
    assert(crate::words::trim_spec(Seq::<char>::empty()) == Seq::<char>::empty());
    lemma_plain_clean(a);
    lemma_plain_clean(b);
    lemma_split_single(a, '|');
    lemma_split_single(a, '&');
    lemma_split_single(b, '&');
    if auths.len() == 0 {
        assert(!auths.contains(a));
        assert(!auths.contains(b));
    }
    // a single term
    assert(crate::pcj::alternative_allowed(a, auths) == auths.contains(a)) by {
        assert(crate::text::split_spec(a, '&')[0] == a);
    }
    assert(crate::text::split_spec(a, '|')[0] == a);
    // a conjunction
    let c = a + seq!['&'] + b;
    lemma_joined_trim(a, b, '&');
    assert forall|i: int| 0 <= i < c.len() implies c[i] != '|' by {
        if i < a.len() {
            assert(c[i] == a[i]);
        } else if i > a.len() {
            assert(c[i] == b[i - a.len() - 1]);
        }
    }
    lemma_split_single(c, '|');
    lemma_split_pair(a, b, '&');
    let ts = crate::text::split_spec(c, '&');
    assert(ts[0] == a && ts[1] == b);
    assert(crate::pcj::alternative_allowed(c, auths) == (auths.contains(a) && auths.contains(b)));
    assert(crate::text::split_spec(c, '|')[0] == c);
    // a disjunction
    let d = a + seq!['|'] + b;
    lemma_joined_trim(a, b, '|');
    lemma_split_pair(a, b, '|');
    let ds = crate::text::split_spec(d, '|');
    assert(ds[0] == a && ds[1] == b);
    assert(crate::pcj::alternative_allowed(b, auths) == auths.contains(b)) by {
        assert(crate::text::split_spec(b, '&')[0] == b);
    }
}


/// An entry that a read of the order `order` under the authorizations `a` returns: stored
/// under that order, and its visibility admitted.
pub open spec fn admitted_entry(e: crate::pcj::EntryModel, order: Seq<Seq<char>>, a: Seq<Seq<char>>) -> bool {
    &&& e.1 == crate::words::join_spec(order, crate::pcj::VARIABLE_ORDER_DELIMITER@)
    &&& crate::pcj::visibility_allowed_spec(e.2, a)
}

/// Reading an order under authorizations: every row returned comes from an entry stored under
/// that order whose visibility the authorizations admit, with its decoded bindings and its
/// visibility; and every such entry gives a returned row.
pub proof fn law_rows_read_with_auths(es: Seq<crate::pcj::EntryModel>, order: Seq<Seq<char>>, a: Seq<Seq<char>>)
    requires
        crate::pcj::selected_rows(es, order, Some(a)) is Some,
    ensures
        forall|k: int| 0 <= k < crate::pcj::selected_rows(es, order, Some(a))->0.len() ==> {
            let row = #[trigger] crate::pcj::selected_rows(es, order, Some(a))->0[k];
            &&& crate::pcj::visibility_allowed_spec(row.1, a)
            &&& exists|j: int| 0 <= j < es.len() && admitted_entry(#[trigger] es[j], order, a)
                && es[j].2 == row.1 && crate::pcj::row_decodes(order, es[j].0) == Some(row.0)
        },
        forall|j: int| 0 <= j < es.len() && admitted_entry(#[trigger] es[j], order, a) ==> (
            crate::pcj::row_decodes(order, es[j].0) is Some
            && crate::pcj::selected_rows(es, order, Some(a))->0.contains(
                (crate::pcj::row_decodes(order, es[j].0)->0, es[j].2))),
    decreases es.len(),
{
    if es.len() > 0 {
        let init = es.drop_last();
        law_rows_read_with_auths(init, order, a);
        let prev = crate::pcj::selected_rows(init, order, Some(a))->0;
        let rows = crate::pcj::selected_rows(es, order, Some(a))->0;
        let e = es.last();
        assert forall|k: int| 0 <= k < rows.len() implies {
            let row = #[trigger] rows[k];
            &&& crate::pcj::visibility_allowed_spec(row.1, a)
            &&& exists|j: int| 0 <= j < es.len() && admitted_entry(#[trigger] es[j], order, a)
                && es[j].2 == row.1 && crate::pcj::row_decodes(order, es[j].0) == Some(row.0)
        } by {
            if k < prev.len() {
                assert(rows[k] == prev[k]);
                let j = choose|j: int| 0 <= j < init.len() && admitted_entry(#[trigger] init[j], order, a)
                    && init[j].2 == prev[k].1 && crate::pcj::row_decodes(order, init[j].0) == Some(prev[k].0);
                assert(es[j] == init[j]);
            } else {
                assert(es[es.len() - 1] == e);
            }
        }
        assert forall|j: int| 0 <= j < es.len() && admitted_entry(#[trigger] es[j], order, a) implies (
            crate::pcj::row_decodes(order, es[j].0) is Some
            && rows.contains((crate::pcj::row_decodes(order, es[j].0)->0, es[j].2))) by {
            if j < init.len() {
                assert(init[j] == es[j]);
                let k = choose|k: int| 0 <= k < prev.len() && prev[k] == (crate::pcj::row_decodes(order, init[j].0)->0, init[j].2);
                assert(rows[k] == prev[k]);
            } else {
                assert(es[j] == e);
                assert(rows[rows.len() - 1] == (crate::pcj::row_decodes(order, e.0)->0, e.2));
            }
        }
    }
}


/// The bytes hold no NUL, the delimiter of a stored row.
pub open spec fn no_nul(b: Seq<u8>) -> bool {
    forall|i: int| 0 <= i < b.len() ==> b[i] != crate::resolver::DELIM_BYTE
}

/// The piece a name contributes to a stored row: its value's bytes, or nothing when unbound.
pub open spec fn piece_of(m: Map<Seq<char>, RyaTypeModel>, v: Seq<char>) -> Seq<u8> {
    if m.contains_key(v) {
        crate::pcj::value_bytes(m[v])->0
    } else {
        Seq::empty()
    }
}

proof fn lemma_pieces_append(x: Seq<u8>, y: Seq<u8>)
    requires
        x.len() == 0 || x.last() == crate::resolver::DELIM_BYTE,
    ensures
        crate::pcj::pieces(x + y) == crate::pcj::pieces(x) + crate::pcj::pieces(y),
    decreases x.len(),
{
    let d = crate::resolver::DELIM_BYTE;
    if x.len() == 0 {
        assert(x + y =~= y);
        assert(crate::bytes::first_byte_from(x, d, 0) is None);
        assert(crate::pcj::pieces(x) =~= Seq::<Seq<u8>>::empty());
        assert(crate::pcj::pieces(x) + crate::pcj::pieces(y) =~= crate::pcj::pieces(y));
    } else {
        crate::bytes::lemma_first_byte_from(x, d, 0);
        crate::bytes::lemma_first_byte_concat(x, y, d);
        assert(x[x.len() - 1] == d);
        let i = crate::bytes::first_byte_from(x, d, 0)->0;
        let xy = x + y;
        assert(xy.take(i) =~= x.take(i));
        assert(xy.skip(i + 1) =~= x.skip(i + 1) + y);
        let rest = x.skip(i + 1);
        if rest.len() > 0 {
            assert(rest.last() == x.last());
        }
        lemma_pieces_append(rest, y);
        assert(crate::pcj::pieces(xy) =~= seq![x.take(i)] + (crate::pcj::pieces(rest) + crate::pcj::pieces(y)));
    }
}

proof fn lemma_pieces_single(a: Seq<u8>)
    requires
        no_nul(a),
    ensures
        crate::pcj::pieces(a + seq![crate::resolver::DELIM_BYTE]) == seq![a],
{
    let d = crate::resolver::DELIM_BYTE;
    let b = a + seq![d];
    crate::bytes::lemma_first_byte_from(a, d, 0);
    crate::bytes::lemma_first_byte_concat(a, seq![d], d);
    assert(crate::bytes::first_byte_from(a, d, 0) is None);
    assert(crate::bytes::first_byte_from(seq![d], d, 0) == Some(0int));
    assert(b.take(a.len() as int) =~= a);
    assert(b.skip(a.len() as int + 1) =~= Seq::<u8>::empty());
    let e = Seq::<u8>::empty();
    assert(crate::bytes::first_byte_from(e, d, 0) is None);
    assert(crate::pcj::pieces(e) =~= Seq::<Seq<u8>>::empty());
    assert(crate::pcj::pieces(b) =~= seq![a]);
}

proof fn lemma_row_pieces(m: Map<Seq<char>, RyaTypeModel>, order: Seq<Seq<char>>)
    requires
        forall|v: Seq<char>| #[trigger] m.contains_key(v) ==> (crate::pcj::value_bytes(m[v]) matches Some(b) && no_nul(b)),
    ensures
        crate::pcj::row_bytes(m, order) is Some,
        crate::pcj::pieces(crate::pcj::row_bytes(m, order)->0) == order.map_values(|v: Seq<char>| piece_of(m, v)),
        crate::pcj::row_bytes(m, order)->0.len() == 0 || crate::pcj::row_bytes(m, order)->0.last() == crate::resolver::DELIM_BYTE,
    decreases order.len(),
{
    let d = crate::resolver::DELIM_BYTE;
    if order.len() == 0 {
        let e = Seq::<u8>::empty();
        assert(crate::bytes::first_byte_from(e, d, 0) is None);
        assert(crate::pcj::pieces(e) =~= Seq::<Seq<u8>>::empty());
        assert(order.map_values(|v: Seq<char>| piece_of(m, v)) =~= Seq::<Seq<u8>>::empty());
    } else {
        let init = order.drop_last();
        lemma_row_pieces(m, init);
        let prev = crate::pcj::row_bytes(m, init)->0;
        let v = order.last();
        let pc = piece_of(m, v);
        assert(no_nul(pc));
        let b = crate::pcj::row_bytes(m, order)->0;
        assert(b =~= prev + (pc + seq![d]));
        lemma_pieces_append(prev, pc + seq![d]);
        lemma_pieces_single(pc);
        assert(order.map_values(|v: Seq<char>| piece_of(m, v)) =~= init.map_values(|v: Seq<char>| piece_of(m, v)).push(pc));
        assert(b.last() == d);
    }
}

/// What the first `k` names of the order bind in `m`.
pub open spec fn bound_prefix(m: Map<Seq<char>, RyaTypeModel>, order: Seq<Seq<char>>, k: int) -> Map<Seq<char>, RyaTypeModel> {
    Map::new(|key: Seq<char>| m.contains_key(key) && order.take(k).contains(key), |key: Seq<char>| m[key])
}

proof fn lemma_decode_prefix(m: Map<Seq<char>, RyaTypeModel>, order: Seq<Seq<char>>, k: int)
    requires
        0 <= k <= order.len(),
        forall|v: Seq<char>| #[trigger] m.contains_key(v) ==> crate::resolver::roundtrips(m[v]),
    ensures
        crate::pcj::decode_pieces(order, order.map_values(|v: Seq<char>| piece_of(m, v)), k) == Some(bound_prefix(m, order, k)),
    decreases k,
{
    let ps = order.map_values(|v: Seq<char>| piece_of(m, v));
    if k == 0 {
        assert(bound_prefix(m, order, 0) =~= Map::<Seq<char>, RyaTypeModel>::empty());
    } else {
        lemma_decode_prefix(m, order, k - 1);
        let v = order[k - 1];
        let prev = bound_prefix(m, order, k - 1);
        assert forall|key: Seq<char>| order.take(k).contains(key) <==> (order.take(k - 1).contains(key) || key == v) by {
            if order.take(k).contains(key) {
                let tk = order.take(k);
                let j = choose|j: int| 0 <= j < k && #[trigger] tk[j] == key;
                if j < k - 1 {
                    assert(order.take(k - 1)[j] == key);
                }
            }
            if order.take(k - 1).contains(key) {
                let tk1 = order.take(k - 1);
                let j = choose|j: int| 0 <= j < k - 1 && #[trigger] tk1[j] == key;
                assert(order.take(k)[j] == key);
            }
            if key == v {
                assert(order.take(k)[k - 1] == key);
            }
        }
        assert(ps[k - 1] == piece_of(m, v));
        if m.contains_key(v) {
            let t = m[v];
            crate::resolver::law_serialize_deserialize_roundtrip(t);
            assert(ps[k - 1].len() > 0) by {
                let dt = t.data_type->0;
                assert(crate::resolver::type_suffix(dt).len() > 0);
            }
            assert(prev.insert(v, t) =~= bound_prefix(m, order, k));
        } else {
            assert(ps[k - 1].len() == 0);
            assert(prev =~= bound_prefix(m, order, k));
        }
    }
}

/// Reading back a stored row gives the bindings that were written: a binding set whose names
/// are all in the order, whose values each decode to themselves and whose stored bytes hold
/// no NUL, is stored as a row, and decoding that row in the order gives the binding set back.
pub proof fn law_row_roundtrip(m: Map<Seq<char>, RyaTypeModel>, order: Seq<Seq<char>>)
    requires
        crate::pcj::names_in_order(m, order),
        forall|v: Seq<char>| #[trigger] m.contains_key(v) ==> crate::resolver::roundtrips(m[v]) && (
            crate::pcj::value_bytes(m[v]) matches Some(b) && no_nul(b)),
    ensures
        crate::pcj::row_bytes(m, order) is Some,
        crate::pcj::row_decodes(order, crate::pcj::row_bytes(m, order)->0) == Some(m),
{
    lemma_row_pieces(m, order);
    lemma_decode_prefix(m, order, order.len() as int);
    assert(order.take(order.len() as int) =~= order);
    assert(bound_prefix(m, order, order.len() as int) =~= m);
}

} // verus!
