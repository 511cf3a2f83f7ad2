use vstd::prelude::*;

use crate::fluo_pcj::columns::{
    filter_child_node_id_spec, filter_index_within_sparql_spec, filter_node_id_spec, filter_original_sparql_spec,
    filter_parent_node_id_spec, filter_variable_order_spec, join_left_child_node_id_spec, join_node_id_spec,
    join_parent_node_id_spec, join_right_child_node_id_spec, join_type_spec, join_variable_order_spec,
    query_child_node_id_spec, query_node_id_spec, query_sparql_spec, query_variable_order_spec,
    statement_pattern_node_id_spec, statement_pattern_parent_node_id_spec, statement_pattern_pattern_spec,
    statement_pattern_variable_order_spec,
};
use crate::fluo_pcj::metadata::{
    filter_read, filter_written, join_read, join_type_from_name, join_type_name, join_written, order_from_text,
    order_text, query_read, query_written, statement_pattern_read, statement_pattern_written, Cells,
    FilterMetadataModel, JoinMetadataModel, JoinType, QueryMetadataModel, StatementPatternMetadataModel,
};
use crate::text::{
    all_digits, decimal, digit_char, digits_value, first_index, has_char, parse_in_range, parse_unsigned_spec,
    split_spec,
};
use crate::words::join_spec;

verus! {

// ---------------------------------------------------------------------------
// Variable orders survive their stored text
// ---------------------------------------------------------------------------

/// An order that its `;`-separated text gives back: no name holds a `;`, and it is not the
/// order of one empty name (whose text is the empty order's).
pub open spec fn order_roundtrips(o: Seq<Seq<char>>) -> bool {
    &&& forall|i: int| 0 <= i < o.len() ==> !has_char(#[trigger] o[i], ';')
    &&& !(o.len() == 1 && o[0].len() == 0)
}

proof fn lemma_join_front(ps: Seq<Seq<char>>, sep: Seq<char>)
    requires
        ps.len() >= 2,
    ensures
        join_spec(ps, sep) == ps[0] + sep + join_spec(ps.drop_first(), sep),
    decreases ps.len(),
{
    if ps.len() == 2 {
        assert(ps.drop_first().len() == 1);
        assert(ps.drop_last().len() == 1);
        assert(ps.drop_last()[0] == ps[0]);
        assert(ps.drop_first()[0] == ps.last());
        assert(join_spec(ps.drop_last(), sep) == ps[0]);
        assert(join_spec(ps.drop_first(), sep) == ps.last());
        assert(join_spec(ps, sep) == join_spec(ps.drop_last(), sep) + sep + ps.last());
    } else {
        lemma_join_front(ps.drop_last(), sep);
        assert(ps.drop_last().drop_first() =~= ps.drop_first().drop_last());
        assert(ps.drop_first().last() == ps.last());
        assert(ps.drop_last()[0] == ps[0]);
        assert(join_spec(ps.drop_first(), sep) == join_spec(ps.drop_first().drop_last(), sep) + sep
            + ps.drop_first().last());
        assert(join_spec(ps, sep) == join_spec(ps.drop_last(), sep) + sep + ps.last());
        assert(ps[0] + sep + join_spec(ps.drop_first(), sep) =~= ps[0] + sep + join_spec(
            ps.drop_last().drop_first(),
            sep,
        ) + sep + ps.last());
    }
}

proof fn lemma_first_index_of_prefix(a: Seq<char>, rest: Seq<char>)
    requires
        !has_char(a, ';'),
    ensures
        first_index(a + seq![';'] + rest, ';') == Some(a.len() as int),
{
    let s = a + seq![';'] + rest;
    crate::text::lemma_first_index_from(s, ';', 0);
    match first_index(s, ';') {
        Some(k) => {
            if k < a.len() {
                assert(a[k] == s[k]);
            } else if k > a.len() {
                assert(s[a.len() as int] == ';');
            }
        },
        None => {
            assert(s[a.len() as int] == ';');
        },
    }
}

proof fn lemma_split_join(ps: Seq<Seq<char>>)
    requires
        ps.len() >= 1,
        forall|i: int| 0 <= i < ps.len() ==> !has_char(#[trigger] ps[i], ';'),
    ensures
        split_spec(join_spec(ps, ";"@), ';') == ps,
    decreases ps.len(),
{
    reveal_strlit(";");
    if ps.len() == 1 {
        let s = ps[0];
        crate::text::lemma_first_index_from(s, ';', 0);
        assert(first_index(s, ';') is None) by {
            if first_index(s, ';') is Some {
                let k = first_index(s, ';')->0;
                assert(s[k] == ';');
                assert(has_char(s, ';'));
            }
        }
        assert(split_spec(s, ';') == seq![s]);
        assert(ps =~= seq![s]);
    } else {
        lemma_join_front(ps, ";"@);
        let rest = join_spec(ps.drop_first(), ";"@);
        let s = ps[0] + ";"@ + rest;
        assert(";"@ == seq![';']);
        assert(!has_char(ps[0], ';'));
        lemma_first_index_of_prefix(ps[0], rest);
        assert(s.take(ps[0].len() as int) =~= ps[0]);
        assert(s.subrange(ps[0].len() as int + 1, s.len() as int) =~= rest);
        assert forall|i: int| 0 <= i < ps.drop_first().len() implies !has_char(#[trigger] ps.drop_first()[i], ';') by {
            assert(ps.drop_first()[i] == ps[i + 1]);
        }
        lemma_split_join(ps.drop_first());
        assert(ps =~= seq![ps[0]] + ps.drop_first());
    }
}

/// An order's stored text gives the order back.
pub proof fn law_order_text_roundtrip(o: Seq<Seq<char>>)
    requires
        order_roundtrips(o),
    ensures
        order_from_text(order_text(o)) == o,
{
    reveal_strlit(";");
    if o.len() == 0 {
        assert(order_text(o) == Seq::<char>::empty());
        assert(o =~= Seq::<Seq<char>>::empty());
    } else {
        lemma_split_join(o);
        if o.len() == 1 {
            assert(order_text(o) == o[0]);
        } else {
            lemma_join_front(o, ";"@);
            assert(order_text(o).len() > 0) by {
                assert((o[0] + ";"@ + join_spec(o.drop_first(), ";"@)).len() >= 1);
            }
        }
    }
}

// ---------------------------------------------------------------------------
// The metadata DAO reads back what it wrote
// ---------------------------------------------------------------------------

proof fn lemma_columns_distinct()
    ensures
        query_node_id_spec() != query_variable_order_spec(),
        query_node_id_spec() != query_sparql_spec(),
        query_node_id_spec() != query_child_node_id_spec(),
        query_variable_order_spec() != query_sparql_spec(),
        query_variable_order_spec() != query_child_node_id_spec(),
        query_sparql_spec() != query_child_node_id_spec(),
        statement_pattern_node_id_spec() != statement_pattern_variable_order_spec(),
        statement_pattern_node_id_spec() != statement_pattern_pattern_spec(),
        statement_pattern_node_id_spec() != statement_pattern_parent_node_id_spec(),
        statement_pattern_variable_order_spec() != statement_pattern_pattern_spec(),
        statement_pattern_variable_order_spec() != statement_pattern_parent_node_id_spec(),
        statement_pattern_pattern_spec() != statement_pattern_parent_node_id_spec(),
        join_node_id_spec() != join_variable_order_spec(),
        join_node_id_spec() != join_type_spec(),
        join_node_id_spec() != join_parent_node_id_spec(),
        join_node_id_spec() != join_left_child_node_id_spec(),
        join_node_id_spec() != join_right_child_node_id_spec(),
        join_variable_order_spec() != join_type_spec(),
        join_variable_order_spec() != join_parent_node_id_spec(),
        join_variable_order_spec() != join_left_child_node_id_spec(),
        join_variable_order_spec() != join_right_child_node_id_spec(),
        join_type_spec() != join_parent_node_id_spec(),
        join_type_spec() != join_left_child_node_id_spec(),
        join_type_spec() != join_right_child_node_id_spec(),
        join_parent_node_id_spec() != join_left_child_node_id_spec(),
        join_parent_node_id_spec() != join_right_child_node_id_spec(),
        join_left_child_node_id_spec() != join_right_child_node_id_spec(),
        filter_node_id_spec() != filter_variable_order_spec(),
        filter_node_id_spec() != filter_original_sparql_spec(),
        filter_node_id_spec() != filter_index_within_sparql_spec(),
        filter_node_id_spec() != filter_parent_node_id_spec(),
        filter_node_id_spec() != filter_child_node_id_spec(),
        filter_variable_order_spec() != filter_original_sparql_spec(),
        filter_variable_order_spec() != filter_index_within_sparql_spec(),
        filter_variable_order_spec() != filter_parent_node_id_spec(),
        filter_variable_order_spec() != filter_child_node_id_spec(),
        filter_original_sparql_spec() != filter_index_within_sparql_spec(),
        filter_original_sparql_spec() != filter_parent_node_id_spec(),
        filter_original_sparql_spec() != filter_child_node_id_spec(),
        filter_index_within_sparql_spec() != filter_parent_node_id_spec(),
        filter_index_within_sparql_spec() != filter_child_node_id_spec(),
        filter_parent_node_id_spec() != filter_child_node_id_spec(),
{
    reveal_strlit("nodeId");
    reveal_strlit("variableOrder");
    reveal_strlit("veriableOrder");
    reveal_strlit("sparql");
    reveal_strlit("childNodeId");
    reveal_strlit("pattern");
    reveal_strlit("parentNodeId");
    reveal_strlit("joinType");
    reveal_strlit("leftChildNodeId");
    reveal_strlit("rightChildNodeId");
    reveal_strlit("originalSparql");
    reveal_strlit("filterIndexWithinSparql");
    assert("nodeId"@[0] != "sparql"@[0]);
    assert("nodeId"@.len() == 6);
    assert("variableOrder"@.len() == 13);
    assert("veriableOrder"@.len() == 13);
    assert("sparql"@.len() == 6);
    assert("childNodeId"@.len() == 11);
    assert("pattern"@.len() == 7);
    assert("parentNodeId"@.len() == 12);
    assert("joinType"@.len() == 8);
    assert("leftChildNodeId"@.len() == 15);
    assert("rightChildNodeId"@.len() == 16);
    assert("originalSparql"@.len() == 14);
    assert("filterIndexWithinSparql"@.len() == 23);
}

/// The query metadata written for a node is read back for it.
pub proof fn law_query_metadata_roundtrip(cells: Cells, m: QueryMetadataModel)
    requires
        order_roundtrips(m.variable_order),
    ensures
        query_read(query_written(cells, m), m.node_id) == Ok::<QueryMetadataModel, Seq<char>>(m),
{
    lemma_columns_distinct();
    law_order_text_roundtrip(m.variable_order);
}

/// The statement pattern metadata written for a node is read back for it.
pub proof fn law_statement_pattern_metadata_roundtrip(cells: Cells, m: StatementPatternMetadataModel)
    requires
        order_roundtrips(m.variable_order),
    ensures
        statement_pattern_read(statement_pattern_written(cells, m), m.node_id) == Ok::<
            StatementPatternMetadataModel,
            Seq<char>,
        >(m),
{
    lemma_columns_distinct();
    law_order_text_roundtrip(m.variable_order);
}

/// The join metadata written for a node is read back for it.
pub proof fn law_join_metadata_roundtrip(cells: Cells, m: JoinMetadataModel)
    requires
        order_roundtrips(m.variable_order),
    ensures
        join_read(join_written(cells, m), m.node_id) == Ok::<JoinMetadataModel, Seq<char>>(m),
{
    lemma_columns_distinct();
    law_order_text_roundtrip(m.variable_order);
    reveal_strlit("NATURAL_JOIN");
    reveal_strlit("LEFT_OUTER_JOIN");
    assert("NATURAL_JOIN"@.len() != "LEFT_OUTER_JOIN"@.len());
    assert(join_type_from_name(join_type_name(m.join_type)) == Ok::<JoinType, Seq<char>>(m.join_type));
}

/// A number's decimal text parses back to it.
pub proof fn lemma_decimal_parses(n: nat)
    ensures
        all_digits(decimal(n)),
        decimal(n).len() > 0,
        decimal(n)[0] != '+',
        digits_value(decimal(n)) == n,
    decreases n,
{
    if n < 10 {
        assert(decimal(n) =~= seq![digit_char(n as int)]);
        assert(digits_value(decimal(n)) == digits_value(Seq::<char>::empty()) * 10 + (digit_char(n as int) as int - 48)) by {
            assert(decimal(n).drop_last() =~= Seq::<char>::empty());
        }
    } else {
        lemma_decimal_parses(n / 10);
        let d = decimal(n);
        assert(d.drop_last() == decimal(n / 10));
        assert(d[0] == decimal(n / 10)[0]);
        assert forall|i: int| 0 <= i < d.len() implies crate::text::is_digit(#[trigger] d[i]) by {
            if i < d.len() - 1 {
                assert(d[i] == decimal(n / 10)[i]);
            }
        }
    }
}

/// The filter metadata written for a node is read back for it.
pub proof fn law_filter_metadata_roundtrip(cells: Cells, m: FilterMetadataModel)
    requires
        order_roundtrips(m.variable_order),
        0 <= m.filter_index_within_sparql <= usize::MAX,
    ensures
        filter_read(filter_written(cells, m), m.node_id) == Ok::<FilterMetadataModel, Seq<char>>(m),
{
    lemma_columns_distinct();
    law_order_text_roundtrip(m.variable_order);
    lemma_decimal_parses(m.filter_index_within_sparql as nat);
    assert(parse_unsigned_spec(decimal(m.filter_index_within_sparql as nat)) == Some(m.filter_index_within_sparql));
}

/// The signed decimal text of an `i64` parses back to it.
pub proof fn lemma_signed_decimal_parses(v: i64)
    ensures
        parse_in_range(crate::text::parse_signed_spec(crate::text::signed_decimal(v as int)), i64::MIN as int, i64::MAX as int)
            == Some(v as int),
{
    if v < 0 {
        let m = (-(v as int)) as nat;
        lemma_decimal_parses(m);
        let t = crate::text::signed_decimal(v as int);
        assert(t.drop_first() =~= decimal(m));
    } else {
        lemma_decimal_parses(v as nat);
    }
}

/// A `FILTER(?name < max)` keeps exactly the rows that bind `name` to a whole number below
/// `max`: a row binding it to the decimal text of `v` passes if and only if `v < max`, a row
/// without it never passes, and any row that passes binds it to a text that reads as an
/// `i64` below `max`.
pub proof fn law_filter_lt_keeps_smaller(
    name: Seq<char>,
    max: i64,
    row: Map<Seq<char>, crate::domain::RyaTypeModel>,
    v: i64,
)
    ensures
        row.contains_key(name) && row[name].data == crate::text::signed_decimal(v as int) ==> (
            crate::fluo_pcj::sparql::accepts_spec(crate::fluo_pcj::sparql::FilterModel::Lt(name, max as int), row)
            <==> v < max),
        !row.contains_key(name) ==> !crate::fluo_pcj::sparql::accepts_spec(
            crate::fluo_pcj::sparql::FilterModel::Lt(name, max as int),
            row,
        ),
        crate::fluo_pcj::sparql::accepts_spec(crate::fluo_pcj::sparql::FilterModel::Lt(name, max as int), row) ==> (
            row.contains_key(name) && exists|x: int|
                parse_in_range(crate::text::parse_signed_spec(row[name].data), i64::MIN as int, i64::MAX as int)
                    == Some(x) && x < max),
{
    lemma_signed_decimal_parses(v);
    if crate::fluo_pcj::sparql::accepts_spec(crate::fluo_pcj::sparql::FilterModel::Lt(name, max as int), row) {
        let x = parse_in_range(crate::text::parse_signed_spec(row[name].data), i64::MIN as int, i64::MAX as int)->0;
        assert(parse_in_range(crate::text::parse_signed_spec(row[name].data), i64::MIN as int, i64::MAX as int) == Some(x));
    }
}

/// What a pattern term says of a statement's value in a match: a constant equals it, and a
/// variable is bound to it.
pub open spec fn term_agrees(t: crate::fluo_pcj::FluoTermModel, v: crate::domain::RyaTypeModel, m: Map<Seq<char>, crate::domain::RyaTypeModel>) -> bool {
    match t {
        crate::fluo_pcj::FluoTermModel::Constant(c) => c == v,
        crate::fluo_pcj::FluoTermModel::Var(n) => m.contains_key(n) && m[n] == v,
    }
}

proof fn lemma_bind_keeps(t: crate::fluo_pcj::FluoTermModel, v: crate::domain::RyaTypeModel, row: Map<Seq<char>, crate::domain::RyaTypeModel>)
    ensures
        crate::fluo_pcj::rows::bind_spec(t, v, row) matches Some(r) ==> (term_agrees(t, v, r) && forall|k: Seq<char>|
            #[trigger] row.contains_key(k) ==> r.contains_key(k) && r[k] == row[k]),
{
}

/// A statement pattern matches a statement only where it agrees with it: each constant of
/// the pattern equals the statement's value in its place and each variable is bound to that
/// value; a constant that differs from the statement's value means no match.
pub proof fn law_pattern_match_agrees(p: crate::fluo_pcj::FluoPatternModel, st: crate::domain::RyaStatementModel)
    ensures
        crate::fluo_pcj::rows::match_spec(p, st) matches Some(m) ==> (term_agrees(p.subject, st.subject, m)
            && term_agrees(p.predicate, st.predicate, m) && term_agrees(p.object, st.object, m)),
        (p.subject matches crate::fluo_pcj::FluoTermModel::Constant(c) && c != st.subject) ==> crate::fluo_pcj::rows::match_spec(p, st) is None,
        (p.predicate matches crate::fluo_pcj::FluoTermModel::Constant(c) && c != st.predicate) ==> crate::fluo_pcj::rows::match_spec(p, st) is None,
        (p.object matches crate::fluo_pcj::FluoTermModel::Constant(c) && c != st.object) ==> crate::fluo_pcj::rows::match_spec(p, st) is None,
{
    let e = Map::<Seq<char>, crate::domain::RyaTypeModel>::empty();
    lemma_bind_keeps(p.subject, st.subject, e);
    if let Some(a) = crate::fluo_pcj::rows::bind_spec(p.subject, st.subject, e) {
        lemma_bind_keeps(p.predicate, st.predicate, a);
        if let Some(b) = crate::fluo_pcj::rows::bind_spec(p.predicate, st.predicate, a) {
            lemma_bind_keeps(p.object, st.object, b);
        }
    }
}

/// Projection keeps exactly the projected names a row binds, with their values.
pub proof fn law_projection_keeps_projected(m: Map<Seq<char>, crate::domain::RyaTypeModel>, vars: Seq<Seq<char>>, k: Seq<char>)
    ensures
        crate::fluo_pcj::rows::project_spec(m, vars).contains_key(k) <==> (m.contains_key(k) && vars.contains(k)),
        crate::fluo_pcj::rows::project_spec(m, vars).contains_key(k) ==> crate::fluo_pcj::rows::project_spec(m, vars)[k] == m[k],
{
}

/// The rows left after a plan's first `n` filters are rows of the input that every one of
/// those filters accepts.
pub proof fn law_filtered_rows_pass(
    p: crate::fluo_pcj::plan::QueryPlanModel,
    rows: Seq<crate::fluo_pcj::rows::RowModel>,
    n: nat,
    i: int,
    f: int,
)
    requires
        n <= p.filters.len(),
        0 <= i < crate::fluo_pcj::eval::filtered_spec(p, rows, n).len(),
        0 <= f < n,
    ensures
        rows.contains(crate::fluo_pcj::eval::filtered_spec(p, rows, n)[i]),
        crate::fluo_pcj::sparql::accepts_spec(p.filters[f].expression, crate::fluo_pcj::eval::filtered_spec(p, rows, n)[i].0),
    decreases n,
{
    lemma_filtered_members(p, rows, n, i);
    let x = crate::fluo_pcj::eval::filtered_spec(p, rows, n)[i];
    let prev = crate::fluo_pcj::eval::filtered_spec(p, rows, (n - 1) as nat);
    let pred = crate::fluo_pcj::eval::passes(p.filters[n - 1].expression);
    prev.lemma_filter_pred(pred, i);
    if f < n - 1 {
        assert(prev.filter(pred).contains(x));
        prev.lemma_filter_contains_rev(pred, x);
        let j = choose|j: int| 0 <= j < prev.len() && prev[j] == x;
        law_filtered_rows_pass(p, rows, (n - 1) as nat, j, f);
    }
}

proof fn lemma_filtered_members(p: crate::fluo_pcj::plan::QueryPlanModel, rows: Seq<crate::fluo_pcj::rows::RowModel>, n: nat, i: int)
    requires
        n <= p.filters.len(),
        0 <= i < crate::fluo_pcj::eval::filtered_spec(p, rows, n).len(),
    ensures
        rows.contains(crate::fluo_pcj::eval::filtered_spec(p, rows, n)[i]),
    decreases n,
{
    if n > 0 {
        let x = crate::fluo_pcj::eval::filtered_spec(p, rows, n)[i];
        let prev = crate::fluo_pcj::eval::filtered_spec(p, rows, (n - 1) as nat);
        let pred = crate::fluo_pcj::eval::passes(p.filters[n - 1].expression);
        assert(prev.filter(pred).contains(x));
        prev.lemma_filter_contains_rev(pred, x);
        let j = choose|j: int| 0 <= j < prev.len() && prev[j] == x;
        lemma_filtered_members(p, rows, (n - 1) as nat, j);
    }
}

/// A `FILTER(?name = value)` keeps exactly the rows that bind `name` to that value.
pub proof fn law_filter_eq_keeps_equal(name: Seq<char>, value: crate::domain::RyaTypeModel, row: Map<Seq<char>, crate::domain::RyaTypeModel>)
    ensures
        crate::fluo_pcj::sparql::accepts_spec(crate::fluo_pcj::sparql::FilterModel::Eq(name, value), row)
            <==> (row.contains_key(name) && row[name] == value),
{
}


/// The join of two compatible rows binds exactly the names either row binds, each to the
/// value it has there.
pub proof fn law_joined_bindings(l: Map<Seq<char>, crate::domain::RyaTypeModel>, r: Map<Seq<char>, crate::domain::RyaTypeModel>, k: Seq<char>)
    requires
        crate::pcj::compatible(l, r),
    ensures
        crate::pcj::joined(l, r).contains_key(k) <==> (l.contains_key(k) || r.contains_key(k)),
        l.contains_key(k) ==> crate::pcj::joined(l, r)[k] == l[k],
        r.contains_key(k) ==> crate::pcj::joined(l, r)[k] == r[k],
{
}

/// `x` joins a row of `ls` with a compatible row of `rs`.
pub open spec fn joins_pair(ls: Seq<crate::fluo_pcj::rows::RowModel>, rs: Seq<crate::fluo_pcj::rows::RowModel>, x: crate::fluo_pcj::rows::RowModel) -> bool {
    exists|i: int, j: int|
        0 <= i < ls.len() && 0 <= j < rs.len() && crate::pcj::compatible(#[trigger] ls[i].0, #[trigger] rs[j].0)
            && x == crate::fluo_pcj::rows::row_join(ls[i], rs[j])
}

/// `l` joins with no row of `rs`.
pub open spec fn joins_none(l: crate::fluo_pcj::rows::RowModel, rs: Seq<crate::fluo_pcj::rows::RowModel>) -> bool {
    forall|j: int| 0 <= j < rs.len() ==> !crate::pcj::compatible(l.0, #[trigger] rs[j].0)
}

proof fn lemma_concat_has<A>(a: Seq<A>, b: Seq<A>, x: A)
    ensures
        (a + b).contains(x) <==> a.contains(x) || b.contains(x),
{
    if (a + b).contains(x) {
        let k = choose|k: int| 0 <= k < (a + b).len() && (a + b)[k] == x;
        if k >= a.len() {
            assert(b[k - a.len()] == x);
        }
    }
    if a.contains(x) {
        let k = choose|k: int| 0 <= k < a.len() && a[k] == x;
        assert((a + b)[k] == x);
    }
    if b.contains(x) {
        let k = choose|k: int| 0 <= k < b.len() && b[k] == x;
        assert((a + b)[k + a.len()] == x);
    }
}

proof fn lemma_joins_with_has(l: crate::fluo_pcj::rows::RowModel, rs: Seq<crate::fluo_pcj::rows::RowModel>, n: nat, x: crate::fluo_pcj::rows::RowModel)
    requires
        n <= rs.len(),
    ensures
        crate::fluo_pcj::rows::joins_with(l, rs, n).contains(x) <==> exists|j: int|
            0 <= j < n && crate::pcj::compatible(l.0, #[trigger] rs[j].0) && x == crate::fluo_pcj::rows::row_join(l, rs[j]),
        crate::fluo_pcj::rows::joins_with(l, rs, n).len() == 0 <==> forall|j: int|
            0 <= j < n ==> !crate::pcj::compatible(l.0, #[trigger] rs[j].0),
    decreases n,
{
    if n > 0 {
        lemma_joins_with_has(l, rs, (n - 1) as nat, x);
        let prev = crate::fluo_pcj::rows::joins_with(l, rs, (n - 1) as nat);
        if crate::pcj::compatible(l.0, rs[n - 1].0) {
            let jn = crate::fluo_pcj::rows::row_join(l, rs[n - 1]);
            let pp = prev.push(jn);
            assert(pp[prev.len() as int] == jn);
            if pp.contains(x) {
                let k = choose|k: int| 0 <= k < pp.len() && #[trigger] pp[k] == x;
                if k < prev.len() {
                    assert(prev[k] == x);
                }
            }
            if prev.contains(x) {
                let k = choose|k: int| 0 <= k < prev.len() && #[trigger] prev[k] == x;
                assert(pp[k] == x);
            }
        }
    }
}

/// A row is in the natural join of two result sets exactly when it joins a row of the first
/// with a compatible row of the second.
pub proof fn law_natural_rows_members(ls: Seq<crate::fluo_pcj::rows::RowModel>, rs: Seq<crate::fluo_pcj::rows::RowModel>, x: crate::fluo_pcj::rows::RowModel)
    ensures
        crate::fluo_pcj::rows::natural_rows(ls, rs, ls.len()).contains(x) <==> joins_pair(ls, rs, x),
    decreases ls.len(),
{
    if ls.len() > 0 {
        let init = ls.drop_last();
        law_natural_rows_members(init, rs, x);
        assert(crate::fluo_pcj::rows::natural_rows(ls, rs, init.len()) == crate::fluo_pcj::rows::natural_rows(init, rs, init.len())) by {
            lemma_natural_rows_prefix(ls, init, rs, init.len());
        }
        lemma_joins_with_has(ls.last(), rs, rs.len(), x);
        lemma_concat_has(crate::fluo_pcj::rows::natural_rows(init, rs, init.len()), crate::fluo_pcj::rows::joins_with(ls.last(), rs, rs.len()), x);
        if joins_pair(init, rs, x) {
            let (i, j) = choose|i: int, j: int|
                0 <= i < init.len() && 0 <= j < rs.len() && crate::pcj::compatible(#[trigger] init[i].0, #[trigger] rs[j].0)
                    && x == crate::fluo_pcj::rows::row_join(init[i], rs[j]);
            assert(ls[i] == init[i]);
        }
        if joins_pair(ls, rs, x) {
            let (i, j) = choose|i: int, j: int|
                0 <= i < ls.len() && 0 <= j < rs.len() && crate::pcj::compatible(#[trigger] ls[i].0, #[trigger] rs[j].0)
                    && x == crate::fluo_pcj::rows::row_join(ls[i], rs[j]);
            if i < init.len() {
                assert(init[i] == ls[i]);
            } else {
                assert(ls[i] == ls.last());
            }
        }
        if exists|j: int| 0 <= j < rs.len() && crate::pcj::compatible(ls.last().0, #[trigger] rs[j].0) && x == crate::fluo_pcj::rows::row_join(ls.last(), rs[j]) {
            let j = choose|j: int| 0 <= j < rs.len() && crate::pcj::compatible(ls.last().0, #[trigger] rs[j].0) && x == crate::fluo_pcj::rows::row_join(ls.last(), rs[j]);
            assert(ls[ls.len() - 1] == ls.last());
        }
    }
}

proof fn lemma_natural_rows_prefix(ls: Seq<crate::fluo_pcj::rows::RowModel>, init: Seq<crate::fluo_pcj::rows::RowModel>, rs: Seq<crate::fluo_pcj::rows::RowModel>, n: nat)
    requires
        n <= init.len() <= ls.len(),
        forall|i: int| 0 <= i < init.len() ==> init[i] == ls[i],
    ensures
        crate::fluo_pcj::rows::natural_rows(ls, rs, n) == crate::fluo_pcj::rows::natural_rows(init, rs, n),
        crate::fluo_pcj::rows::left_rows(ls, rs, n) == crate::fluo_pcj::rows::left_rows(init, rs, n),
    decreases n,
{
    if n > 0 {
        lemma_natural_rows_prefix(ls, init, rs, (n - 1) as nat);
        assert(ls[n - 1] == init[n - 1]);
    }
}

/// A row is in the left join of two result sets exactly when it joins a row of the first with
/// a compatible row of the second, or it is a row of the first that joins with none.
pub proof fn law_left_rows_members(ls: Seq<crate::fluo_pcj::rows::RowModel>, rs: Seq<crate::fluo_pcj::rows::RowModel>, x: crate::fluo_pcj::rows::RowModel)
    ensures
        crate::fluo_pcj::rows::left_rows(ls, rs, ls.len()).contains(x) <==> (joins_pair(ls, rs, x) || exists|i: int|
            0 <= i < ls.len() && #[trigger] ls[i] == x && joins_none(ls[i], rs)),
    decreases ls.len(),
{
    if ls.len() > 0 {
        let init = ls.drop_last();
        let l = ls.last();
        law_left_rows_members(init, rs, x);
        lemma_natural_rows_prefix(ls, init, rs, init.len());
        lemma_joins_with_has(l, rs, rs.len(), x);
        let js = crate::fluo_pcj::rows::joins_with(l, rs, rs.len());
        let tail = if js.len() == 0 { seq![l] } else { js };
        lemma_concat_has(crate::fluo_pcj::rows::left_rows(init, rs, init.len()), tail, x);
        assert(ls[ls.len() - 1] == l);
        if js.len() == 0 {
            assert(joins_none(l, rs));
            assert(tail.contains(x) <==> x == l) by {
                if x == l {
                    assert(tail[0] == x);
                }
            }
        } else {
            let j0 = choose|j: int| 0 <= j < rs.len() && crate::pcj::compatible(l.0, #[trigger] rs[j].0);
            assert(!joins_none(l, rs));
        }
        if joins_pair(init, rs, x) {
            let (i, j) = choose|i: int, j: int|
                0 <= i < init.len() && 0 <= j < rs.len() && crate::pcj::compatible(#[trigger] init[i].0, #[trigger] rs[j].0)
                    && x == crate::fluo_pcj::rows::row_join(init[i], rs[j]);
            assert(ls[i] == init[i]);
        }
        if exists|i: int| 0 <= i < init.len() && #[trigger] init[i] == x && joins_none(init[i], rs) {
            let i = choose|i: int| 0 <= i < init.len() && #[trigger] init[i] == x && joins_none(init[i], rs);
            assert(ls[i] == init[i]);
        }
        if joins_pair(ls, rs, x) {
            let (i, j) = choose|i: int, j: int|
                0 <= i < ls.len() && 0 <= j < rs.len() && crate::pcj::compatible(#[trigger] ls[i].0, #[trigger] rs[j].0)
                    && x == crate::fluo_pcj::rows::row_join(ls[i], rs[j]);
            if i < init.len() {
                assert(init[i] == ls[i]);
            }
        }
        if exists|i: int| 0 <= i < ls.len() && #[trigger] ls[i] == x && joins_none(ls[i], rs) {
            let i = choose|i: int| 0 <= i < ls.len() && #[trigger] ls[i] == x && joins_none(ls[i], rs);
            if i < init.len() {
                assert(init[i] == ls[i]);
            }
        }
    }
}


proof fn lemma_paren_clean(a: Seq<char>)
    requires
        crate::pcj::laws::plain_term(a),
    ensures
        crate::pcj::clean_term_spec(seq!['('] + a + seq![')']) == a,
        forall|i: int| 0 <= i < (seq!['('] + a + seq![')']).len() ==> #[trigger] (seq!['('] + a + seq![')'])[i] != '&'
            && (seq!['('] + a + seq![')'])[i] != '|',
{
    let pa = seq!['('] + a + seq![')'];
    crate::pcj::laws::lemma_plain_clean(a);
    assert(crate::code_intel::names::ascii_alnum(a[0]));
    assert(crate::code_intel::names::ascii_alnum(a[a.len() - 1]));
    assert(pa[0] == '(');
    assert(pa.last() == ')');
    assert(crate::words::trim_start_spec(pa) == pa);
    assert(crate::words::trim_end_spec(pa) == pa);
    let a1 = a + seq![')'];
    assert(pa.drop_first() =~= a1);
    assert(a1[0] == a[0]);
    assert(crate::words::trim_start_char_spec(a1, '(') == a1);
    assert(crate::words::trim_start_char_spec(pa, '(') == a1);
    assert(a1.drop_last() =~= a);
    assert(crate::words::trim_end_char_spec(a, ')') == a);
    assert(crate::words::trim_end_char_spec(a1, ')') == a);
    assert forall|i: int| 0 <= i < pa.len() implies #[trigger] pa[i] != '&' && pa[i] != '|' by {
        if 1 <= i <= a.len() {
            assert(pa[i] == a[i - 1]);
        }
    }
}

/// The visibility of a joined row admits a reader exactly when both rows' visibilities do:
/// for plain terms `a` and `b`, the join of `a` and `b` admits a reader holding both, and a
/// row without visibility leaves the other row's visibility as it is.
pub proof fn law_join_visibility(a: Seq<char>, b: Seq<char>, auths: Seq<Seq<char>>)
    requires
        crate::pcj::laws::plain_term(a),
        crate::pcj::laws::plain_term(b),
    ensures
        crate::pcj::visibility_allowed_spec(crate::fluo_pcj::rows::join_visibility_spec(a, b), auths) == (
            auths.contains(a) && auths.contains(b)),
        crate::fluo_pcj::rows::join_visibility_spec(Seq::empty(), b) == b,
        crate::fluo_pcj::rows::join_visibility_spec(a, Seq::empty()) == a,
        crate::pcj::visibility_allowed_spec(crate::fluo_pcj::rows::join_visibility_spec(Seq::empty(), Seq::empty()), auths),
{
    reveal_strlit("(");
    reveal_strlit(")&(");
    reveal_strlit(")");
    crate::pcj::laws::lemma_plain_clean(a);
    crate::pcj::laws::lemma_plain_clean(b);
    lemma_paren_clean(a);
    lemma_paren_clean(b);
    let pa = seq!['('] + a + seq![')'];
    let pb = seq!['('] + b + seq![')'];
    let v = crate::fluo_pcj::rows::join_visibility_spec(a, b);
    assert(v =~= pa + seq!['&'] + pb);
    assert(v[0] == '(');
    assert(v.last() == ')');
    assert(crate::words::trim_start_spec(v) == v);
    assert(crate::words::trim_end_spec(v) == v);
    assert forall|i: int| 0 <= i < v.len() implies v[i] != '|' by {
        if i < pa.len() {
            assert(v[i] == pa[i]);
        } else if i > pa.len() {
            assert(v[i] == pb[i - pa.len() - 1]);
        }
    }
    crate::pcj::laws::lemma_split_single(v, '|');
    crate::pcj::laws::lemma_split_pair(pa, pb, '&');
    let ts = crate::text::split_spec(v, '&');
    assert(ts[0] == pa && ts[1] == pb);
    assert(crate::pcj::alternative_allowed(v, auths) == (auths.contains(a) && auths.contains(b)));
    assert(crate::text::split_spec(v, '|')[0] == v);
    if auths.len() == 0 {
        assert(!auths.contains(a));
    }
    assert(crate::words::trim_spec(Seq::<char>::empty()) == Seq::<char>::empty());
}


/// The rows a plan returns are exactly the joined rows that pass every filter of the plan,
/// each kept to the projected variables with its visibility.
pub proof fn law_plan_results(
    p: crate::fluo_pcj::plan::QueryPlanModel,
    sts: Seq<crate::fluo_pcj::rows::VisibleModel>,
    x: crate::fluo_pcj::rows::RowModel,
)
    ensures
        crate::fluo_pcj::eval::plan_eval(p, sts).projected.contains(x) ==> exists|r: crate::fluo_pcj::rows::RowModel|
            #[trigger] crate::fluo_pcj::eval::joined_spec(p, sts).contains(r)
                && (forall|f: int| 0 <= f < p.filters.len() ==> crate::fluo_pcj::sparql::accepts_spec(#[trigger] p.filters[f].expression, r.0))
                && x == (crate::fluo_pcj::rows::project_spec(r.0, p.projected_vars), r.1),
        (crate::fluo_pcj::eval::filtered_spec(p, crate::fluo_pcj::eval::joined_spec(p, sts), p.filters.len()).contains(x))
            ==> crate::fluo_pcj::eval::plan_eval(p, sts).projected.contains(
            (crate::fluo_pcj::rows::project_spec(x.0, p.projected_vars), x.1),
        ),
{
    let j = crate::fluo_pcj::eval::joined_spec(p, sts);
    let nf = p.filters.len();
    let fs = crate::fluo_pcj::eval::filtered_spec(p, j, nf);
    let m = fs.map_values(|r: crate::fluo_pcj::rows::RowModel| (crate::fluo_pcj::rows::project_spec(r.0, p.projected_vars), r.1));
    crate::fluo_pcj::rows::lemma_row_set_has(m, x);
    if m.contains(x) {
        let k = choose|k: int| 0 <= k < m.len() && m[k] == x;
        let r = fs[k];
        lemma_filtered_members(p, j, nf, k);
        assert forall|f: int| 0 <= f < p.filters.len() implies crate::fluo_pcj::sparql::accepts_spec(#[trigger] p.filters[f].expression, r.0) by {
            law_filtered_rows_pass(p, j, nf, k, f);
        }
        assert(j.contains(r));
    }
    if fs.contains(x) {
        let k = choose|k: int| 0 <= k < fs.len() && fs[k] == x;
        let y = (crate::fluo_pcj::rows::project_spec(x.0, p.projected_vars), x.1);
        assert(m[k] == y);
        crate::fluo_pcj::rows::lemma_row_set_has(m, y);
    }
}


/// A pattern term fits a value: a constant equals it (a variable fits any value).
pub open spec fn const_fits(t: crate::fluo_pcj::FluoTermModel, v: crate::domain::RyaTypeModel) -> bool {
    t matches crate::fluo_pcj::FluoTermModel::Constant(c) ==> c == v
}

/// Two terms naming the same variable meet equal values.
pub open spec fn same_var_same_value(
    t: crate::fluo_pcj::FluoTermModel,
    v: crate::domain::RyaTypeModel,
    u: crate::fluo_pcj::FluoTermModel,
    w: crate::domain::RyaTypeModel,
) -> bool {
    (t matches crate::fluo_pcj::FluoTermModel::Var(a) && u matches crate::fluo_pcj::FluoTermModel::Var(b) && a == b) ==> v == w
}

/// A pattern matches a statement exactly when each constant equals the statement's value in
/// its place and a variable named twice meets equal values; the match then binds exactly the
/// pattern's variables.
pub proof fn law_pattern_match_complete(p: crate::fluo_pcj::FluoPatternModel, st: crate::domain::RyaStatementModel, k: Seq<char>)
    ensures
        crate::fluo_pcj::rows::match_spec(p, st) is Some <==> (const_fits(p.subject, st.subject) && const_fits(
            p.predicate,
            st.predicate,
        ) && const_fits(p.object, st.object) && same_var_same_value(p.subject, st.subject, p.predicate, st.predicate)
            && same_var_same_value(p.subject, st.subject, p.object, st.object) && same_var_same_value(
            p.predicate,
            st.predicate,
            p.object,
            st.object,
        )),
        crate::fluo_pcj::rows::match_spec(p, st) matches Some(m) ==> (m.contains_key(k) <==> (p.subject
            == crate::fluo_pcj::FluoTermModel::Var(k) || p.predicate == crate::fluo_pcj::FluoTermModel::Var(k)
            || p.object == crate::fluo_pcj::FluoTermModel::Var(k))),
{
}

proof fn lemma_matches_upto_has(p: crate::fluo_pcj::FluoPatternModel, sts: Seq<crate::fluo_pcj::rows::VisibleModel>, n: nat, x: crate::fluo_pcj::rows::RowModel)
    requires
        n <= sts.len(),
    ensures
        crate::fluo_pcj::rows::matches_upto(p, sts, n).contains(x) <==> exists|i: int|
            0 <= i < n && crate::fluo_pcj::rows::match_spec(p, (#[trigger] sts[i]).0) == Some(x.0) && x.1 == sts[i].1,
    decreases n,
{
    if n > 0 {
        lemma_matches_upto_has(p, sts, (n - 1) as nat, x);
        let prev = crate::fluo_pcj::rows::matches_upto(p, sts, (n - 1) as nat);
        match crate::fluo_pcj::rows::match_spec(p, sts[n - 1].0) {
            Some(m) => {
                let y = (m, sts[n - 1].1);
                let pp = prev.push(y);
                assert(pp[prev.len() as int] == y);
                if pp.contains(x) {
                    let k = choose|k: int| 0 <= k < pp.len() && #[trigger] pp[k] == x;
                    if k < prev.len() {
                        assert(prev[k] == x);
                    }
                }
                if prev.contains(x) {
                    let k = choose|k: int| 0 <= k < prev.len() && #[trigger] prev[k] == x;
                    assert(pp[k] == x);
                }
            },
            None => {},
        }
    }
}

/// The result set of a pattern holds exactly the matches of the statements, each with its
/// statement's visibility.
pub proof fn law_pattern_result_members(p: crate::fluo_pcj::FluoPatternModel, sts: Seq<crate::fluo_pcj::rows::VisibleModel>, x: crate::fluo_pcj::rows::RowModel)
    ensures
        crate::fluo_pcj::eval::pattern_result(p, sts).contains(x) <==> exists|i: int|
            0 <= i < sts.len() && crate::fluo_pcj::rows::match_spec(p, (#[trigger] sts[i]).0) == Some(x.0) && x.1 == sts[i].1,
{
    lemma_matches_upto_has(p, sts, sts.len(), x);
    crate::fluo_pcj::rows::lemma_row_set_has(crate::fluo_pcj::rows::matches_upto(p, sts, sts.len()), x);
}

} // verus!
