use vstd::prelude::*;

use crate::domain::{opt_as_str, RyaStatement, RyaType, RyaTypeModel, RyaStatementModel};
use crate::fluo_pcj::{FluoPatternModel, FluoStatementPattern, FluoTerm, FluoTermModel, fluo_pattern_model, term_model};
use crate::pcj::binding::{as_map, names_of, BindingModel, BindingSet};
use crate::pcj::{compatible, join_compatible, joined, VisibilityBindingSet};
use crate::sorted::strictly_sorted;
use crate::text::{chars_lt, chars_of, concat, lex_lt, push_str, str_eq, str_lt, to_owned, views};
use crate::words::{trim, trim_spec};

verus! {

// ---------------------------------------------------------------------------
// The order of result rows (that of std's ordered sets of binding sets)
// ---------------------------------------------------------------------------

/// Absent text comes before present text; present texts compare as strings.
pub open spec fn opt_text_lt(a: Option<Seq<char>>, b: Option<Seq<char>>) -> bool {
    match (a, b) {
        (None, Some(_)) => true,
        (Some(x), Some(y)) => lex_lt(x, y),
        _ => false,
    }
}

/// Values compare by datatype, then data, then language.
pub open spec fn type_lt(a: RyaTypeModel, b: RyaTypeModel) -> bool {
    if a.data_type != b.data_type {
        opt_text_lt(a.data_type, b.data_type)
    } else if a.data != b.data {
        lex_lt(a.data, b.data)
    } else {
        opt_text_lt(a.language, b.language)
    }
}

/// Bindings compare by name, then value.
pub open spec fn binding_lt(a: BindingModel, b: BindingModel) -> bool {
    if a.0 != b.0 {
        lex_lt(a.0, b.0)
    } else {
        type_lt(a.1, b.1)
    }
}

/// Binding lists compare element by element; a proper prefix comes first.
pub open spec fn pairs_lt(a: Seq<BindingModel>, b: Seq<BindingModel>) -> bool
    decreases a.len(),
{
    if a.len() == 0 {
        b.len() > 0
    } else if b.len() == 0 {
        false
    } else if a[0] != b[0] {
        binding_lt(a[0], b[0])
    } else {
        pairs_lt(a.drop_first(), b.drop_first())
    }
}

/// The bindings of a map in increasing order of name.
pub open spec fn map_pairs(m: Map<Seq<char>, RyaTypeModel>) -> Seq<BindingModel> {
    choose|p: Seq<BindingModel>| strictly_sorted(names_of(p)) && as_map(p) == m
}

/// Binding sets compare by their bindings in increasing order of name.
pub open spec fn bindings_lt(a: Map<Seq<char>, RyaTypeModel>, b: Map<Seq<char>, RyaTypeModel>) -> bool {
    pairs_lt(map_pairs(a), map_pairs(b))
}

/// A result row: its bindings and its visibility.
pub type RowModel = (Map<Seq<char>, RyaTypeModel>, Seq<char>);

pub open spec fn row_model(x: VisibilityBindingSet) -> RowModel {
    (x.bindings@, x.visibility@)
}

pub open spec fn row_models(v: Seq<VisibilityBindingSet>) -> Seq<RowModel> {
    v.map_values(|x: VisibilityBindingSet| row_model(x))
}

/// Rows compare by bindings, then visibility.
pub open spec fn row_lt(a: RowModel, b: RowModel) -> bool {
    if a.0 != b.0 {
        bindings_lt(a.0, b.0)
    } else {
        lex_lt(a.1, b.1)
    }
}

/// The pairs of a binding set are the sorted pairs of its map.
proof fn lemma_map_pairs(b: Seq<BindingModel>)
    requires
        strictly_sorted(names_of(b)),
    ensures
        map_pairs(as_map(b)) == b,
{
    let c = map_pairs(as_map(b));
    assert(strictly_sorted(names_of(b)) && as_map(b) == as_map(b));
    crate::pcj::binding::lemma_same_maps_same_pairs(c, b);
}

fn opt_text_lt_exec(a: Option<&str>, b: Option<&str>) -> (r: bool)
    ensures
        r == opt_text_lt(crate::domain::opt_str_view(a), crate::domain::opt_str_view(b)),
{
    match (a, b) {
        (None, Some(_)) => true,
        (Some(x), Some(y)) => str_lt(x, y),
        _ => false,
    }
}

fn type_lt_exec(a: &RyaType, b: &RyaType) -> (r: bool)
    ensures
        r == type_lt(a@, b@),
{
    if !crate::domain::opt_str_eq(a.data_type(), b.data_type()) {
        opt_text_lt_exec(a.data_type(), b.data_type())
    } else if !str_eq(a.data(), b.data()) {
        str_lt(a.data(), b.data())
    } else {
        opt_text_lt_exec(a.language(), b.language())
    }
}

/// Whether `a` comes before `b` in the order of binding sets.
pub fn binding_sets_lt(a: &BindingSet, b: &BindingSet) -> (r: bool)
    ensures
        r == bindings_lt(a@, b@),
{
    a.check_sorted();
    b.check_sorted();
    proof {
        lemma_map_pairs(a.pairs());
        lemma_map_pairs(b.pairs());
    }
    let ghost pa = a.pairs();
    let ghost pb = b.pairs();
    let mut i: usize = 0;
    assert(pa.skip(0) =~= pa);
    assert(pb.skip(0) =~= pb);
    assert(bindings_lt(a@, b@) == pairs_lt(pa, pb));
    while i < a.len() && i < b.len()
        invariant
            pa == a.pairs(),
            pb == b.pairs(),
            bindings_lt(a@, b@) == pairs_lt(pa, pb),
            i <= pa.len(),
            i <= pb.len(),
            pairs_lt(pa, pb) == pairs_lt(pa.skip(i as int), pb.skip(i as int)),
        decreases pa.len() - i,
    {
        let (na, va) = a.entry(i);
        let (nb, vb) = b.entry(i);
        assert(pa.skip(i as int)[0] == pa[i as int]);
        assert(pb.skip(i as int)[0] == pb[i as int]);
        if !(str_eq(na.as_str(), nb.as_str()) && va.same_as(vb)) {
            if !str_eq(na.as_str(), nb.as_str()) {
                return str_lt(na.as_str(), nb.as_str());
            }
            return type_lt_exec(va, vb);
        }
        assert(pa.skip(i as int).drop_first() =~= pa.skip(i + 1));
        assert(pb.skip(i as int).drop_first() =~= pb.skip(i + 1));
        i = i + 1;
    }
    if i < b.len() {
        assert(pa.skip(i as int).len() == 0);
        true
    } else {
        false
    }
}

/// Whether two binding sets bind the same names to the same values.
pub fn binding_sets_same(a: &BindingSet, b: &BindingSet) -> (r: bool)
    ensures
        r == (a@ == b@),
{
    a.same_as(b)
}

/// Whether row `a` comes before row `b`.
pub fn row_lt_exec(a: &VisibilityBindingSet, b: &VisibilityBindingSet) -> (r: bool)
    ensures
        r == row_lt(row_model(*a), row_model(*b)),
{
    if !binding_sets_same(&a.bindings, &b.bindings) {
        binding_sets_lt(&a.bindings, &b.bindings)
    } else {
        str_lt(a.visibility.as_str(), b.visibility.as_str())
    }
}

/// Whether two rows are equal.
pub fn row_same(a: &VisibilityBindingSet, b: &VisibilityBindingSet) -> (r: bool)
    ensures
        r == (row_model(*a) == row_model(*b)),
{
    binding_sets_same(&a.bindings, &b.bindings) && str_eq(a.visibility.as_str(), b.visibility.as_str())
}

// ---------------------------------------------------------------------------
// Ordered sets of rows
// ---------------------------------------------------------------------------

/// The first position from `i` on whose row comes after `x`, or the length.
pub open spec fn first_after(s: Seq<RowModel>, x: RowModel, i: int) -> int
    decreases s.len() - i,
{
    if i < 0 || i >= s.len() {
        s.len() as int
    } else if row_lt(x, s[i]) {
        i
    } else {
        first_after(s, x, i + 1)
    }
}

/// An ordered set with `x` added: unchanged when `x` is in it, else `x` goes before the first
/// row after it.
pub open spec fn row_insert(s: Seq<RowModel>, x: RowModel) -> Seq<RowModel> {
    if s.contains(x) {
        s
    } else {
        s.insert(first_after(s, x, 0), x)
    }
}

/// The ordered set of rows that adding the rows one by one to the empty set makes.
pub open spec fn row_set(xs: Seq<RowModel>) -> Seq<RowModel>
    decreases xs.len(),
{
    if xs.len() == 0 {
        Seq::empty()
    } else {
        row_insert(row_set(xs.drop_last()), xs.last())
    }
}

proof fn lemma_first_after_bounds(s: Seq<RowModel>, x: RowModel, i: int)
    requires
        0 <= i <= s.len(),
    ensures
        i <= first_after(s, x, i) <= s.len(),
    decreases s.len() - i,
{
    if i < s.len() && !row_lt(x, s[i]) {
        lemma_first_after_bounds(s, x, i + 1);
    }
}

/// The ordered set of a list of rows holds exactly the rows of the list.
pub proof fn lemma_row_set_has(xs: Seq<RowModel>, x: RowModel)
    ensures
        row_set(xs).contains(x) <==> xs.contains(x),
    decreases xs.len(),
{
    if xs.len() > 0 {
        let init = xs.drop_last();
        let y = xs.last();
        let s = row_set(init);
        lemma_row_set_has(init, x);
        if !s.contains(y) {
            let p = first_after(s, y, 0);
            lemma_first_after_bounds(s, y, 0);
            s.insert_ensures(p, y);
            let r = s.insert(p, y);
            if r.contains(x) {
                let k = choose|k: int| 0 <= k < r.len() && r[k] == x;
                if k > p {
                    assert(r[(k - 1) + 1] == s[k - 1]);
                }
            }
            if s.contains(x) {
                let k = choose|k: int| 0 <= k < s.len() && s[k] == x;
                if k >= p {
                    assert(r[k + 1] == s[k]);
                } else {
                    assert(r[k] == s[k]);
                }
            }
            if x == y {
                assert(r[p] == x);
            }
        }
        if xs.contains(x) {
            let k = choose|k: int| 0 <= k < xs.len() && xs[k] == x;
            if k < init.len() {
                assert(init[k] == x);
            }
        }
        if init.contains(x) {
            let k = choose|k: int| 0 <= k < init.len() && init[k] == x;
            assert(xs[k] == x);
        }
        if x == y {
            assert(xs[xs.len() - 1] == x);
        }
    }
}

/// Adds a row to an ordered set of rows.
pub fn insert_row(v: &mut Vec<VisibilityBindingSet>, x: VisibilityBindingSet)
    ensures
        row_models(final(v)@) == row_insert(row_models(old(v)@), row_model(x)),
{
    let ghost s = row_models(v@);
    let mut i: usize = 0;
    let mut pos: Option<usize> = None;
    while i < v.len()
        invariant
            i <= v.len(),
            s == row_models(v@),
            forall|k: int| 0 <= k < i ==> s[k] != row_model(x),
            match pos {
                Some(p) => p < i && first_after(s, row_model(x), 0) == p,
                None => first_after(s, row_model(x), 0) == first_after(s, row_model(x), i as int),
            },
        decreases v.len() - i,
    {
        if row_same(&v[i], &x) {
            assert(s[i as int] == row_model(x));
            assert(s.contains(row_model(x)));
            return;
        }
        if pos.is_none() && row_lt_exec(&x, &v[i]) {
            pos = Some(i);
        }
        i = i + 1;
    }
    assert(!s.contains(row_model(x)));
    let p = match pos {
        Some(p) => p,
        None => v.len(),
    };
    proof {
        lemma_first_after_bounds(s, row_model(x), 0);
    }
    let ghost xm = row_model(x);
    v.insert(p, x);
    assert(row_models(v@) =~= s.insert(p as int, xm));
}

/// The ordered set of the rows of a list.
pub fn to_row_set(rows: Vec<VisibilityBindingSet>) -> (r: Vec<VisibilityBindingSet>)
    ensures
        row_models(r@) == row_set(row_models(rows@)),
{
    let mut out: Vec<VisibilityBindingSet> = Vec::new();
    let mut i: usize = 0;
    assert(row_models(rows@).take(0) =~= Seq::<RowModel>::empty());
    assert(row_models(out@) =~= Seq::<RowModel>::empty());
    while i < rows.len()
        invariant
            i <= rows.len(),
            row_models(out@) == row_set(row_models(rows@).take(i as int)),
        decreases rows.len() - i,
    {
        insert_row(&mut out, rows[i].clone());
        assert(row_models(rows@).take(i + 1).drop_last() =~= row_models(rows@).take(i as int));
        i = i + 1;
    }
    assert(row_models(rows@).take(i as int) =~= row_models(rows@));
    out
}

// ---------------------------------------------------------------------------
// Matching statements
// ---------------------------------------------------------------------------

/// A statement in the application, with the visibility it was inserted with.
pub struct VisibleStatement {
    pub statement: RyaStatement,
    pub visibility: String,
}

pub type VisibleModel = (RyaStatementModel, Seq<char>);

pub open spec fn visible_model(v: VisibleStatement) -> VisibleModel {
    (v.statement@, v.visibility@)
}

pub open spec fn visible_models(v: Seq<VisibleStatement>) -> Seq<VisibleModel> {
    v.map_values(|x: VisibleStatement| visible_model(x))
}

impl Clone for VisibleStatement {
    fn clone(&self) -> (r: Self)
        ensures
            visible_model(r) == visible_model(*self),
    {
        VisibleStatement { statement: self.statement.clone(), visibility: self.visibility.clone() }
    }
}

/// Binds a term to a value: a constant must equal it; a variable takes it unless already bound
/// to another value.
pub open spec fn bind_spec(t: FluoTermModel, v: RyaTypeModel, row: Map<Seq<char>, RyaTypeModel>) -> Option<
    Map<Seq<char>, RyaTypeModel>,
> {
    match t {
        FluoTermModel::Constant(c) => if c == v {
            Some(row)
        } else {
            None
        },
        FluoTermModel::Var(n) => if !row.contains_key(n) || row[n] == v {
            Some(row.insert(n, v))
        } else {
            None
        },
    }
}

/// The bindings a pattern gives a statement, if it matches.
pub open spec fn match_spec(p: FluoPatternModel, st: RyaStatementModel) -> Option<Map<Seq<char>, RyaTypeModel>> {
    match bind_spec(p.subject, st.subject, Map::empty()) {
        None => None,
        Some(a) => match bind_spec(p.predicate, st.predicate, a) {
            None => None,
            Some(b) => bind_spec(p.object, st.object, b),
        },
    }
}

fn bind_term(term: &FluoTerm, value: &RyaType, row: &mut BindingSet) -> (r: bool)
    ensures
        match bind_spec(term_model(*term), value@, old(row)@) {
            Some(m) => r && final(row)@ == m,
            None => !r,
        },
{
    match term {
        FluoTerm::Constant(expected) => expected.same_as(value),
        FluoTerm::Var(name) => {
            let ok = match row.get(name.as_str()) {
                Some(stored) => stored.same_as(value),
                None => true,
            };
            if ok {
                row.insert(name.clone(), value.clone());
            }
            ok
        },
    }
}

/// The row a pattern gives a visible statement, if it matches.
pub fn match_statement(pattern: &FluoStatementPattern, statement: &VisibleStatement) -> (r: Option<VisibilityBindingSet>)
    ensures
        match match_spec(fluo_pattern_model(*pattern), statement.statement@) {
            Some(m) => r matches Some(x) && row_model(x) == (m, statement.visibility@),
            None => r is None,
        },
{
    let mut row = BindingSet::new();
    assert(row@ =~= Map::<Seq<char>, RyaTypeModel>::empty());
    if !bind_term(&pattern.subject, statement.statement.subject.as_type(), &mut row) {
        return None;
    }
    if !bind_term(&pattern.predicate, statement.statement.predicate.as_type(), &mut row) {
        return None;
    }
    if !bind_term(&pattern.object, &statement.statement.object, &mut row) {
        return None;
    }
    Some(VisibilityBindingSet::new(row, statement.visibility.as_str()))
}

/// The rows a pattern gives the first `n` statements, in order.
pub open spec fn matches_upto(p: FluoPatternModel, sts: Seq<VisibleModel>, n: nat) -> Seq<RowModel>
    decreases n,
{
    if n == 0 || n > sts.len() {
        Seq::empty()
    } else {
        let prev = matches_upto(p, sts, (n - 1) as nat);
        match match_spec(p, sts[n - 1].0) {
            Some(m) => prev.push((m, sts[n - 1].1)),
            None => prev,
        }
    }
}

/// The rows a pattern gives the statements, in order.
pub fn match_statements(pattern: &FluoStatementPattern, statements: &Vec<VisibleStatement>) -> (r: Vec<VisibilityBindingSet>)
    ensures
        row_models(r@) == matches_upto(fluo_pattern_model(*pattern), visible_models(statements@), statements@.len()),
{
    let mut out: Vec<VisibilityBindingSet> = Vec::new();
    let mut i: usize = 0;
    assert(row_models(out@) =~= Seq::<RowModel>::empty());
    while i < statements.len()
        invariant
            i <= statements.len(),
            row_models(out@) == matches_upto(fluo_pattern_model(*pattern), visible_models(statements@), i as nat),
        decreases statements.len() - i,
    {
        match match_statement(pattern, &statements[i]) {
            Some(x) => {
                let ghost before = out@;
                out.push(x);
                assert(row_models(out@) =~= row_models(before).push(row_model(x)));
            },
            None => {},
        }
        i = i + 1;
    }
    out
}

// ---------------------------------------------------------------------------
// Joins of visible rows
// ---------------------------------------------------------------------------

/// The visibility of a joined row: the other's when one is empty, both in parentheses joined
/// with `&` otherwise.
pub open spec fn join_visibility_spec(l: Seq<char>, r: Seq<char>) -> Seq<char> {
    if l.len() == 0 && r.len() == 0 {
        Seq::empty()
    } else if l.len() == 0 {
        trim_spec(r)
    } else if r.len() == 0 {
        trim_spec(l)
    } else {
        "("@ + l + ")&("@ + r + ")"@
    }
}

/// The visibility of a joined row.
pub fn join_visibility(left: &str, right: &str) -> (r: String)
    ensures
        r@ == join_visibility_spec(left@, right@),
{
    let le = left.unicode_len() == 0;
    let re = right.unicode_len() == 0;
    if le && re {
        String::new()
    } else if le {
        trim(right)
    } else if re {
        trim(left)
    } else {
        let mut out = to_owned("(");
        push_str(&mut out, left);
        push_str(&mut out, ")&(");
        push_str(&mut out, right);
        push_str(&mut out, ")");
        out
    }
}

/// The joined row of two compatible rows.
pub open spec fn row_join(l: RowModel, r: RowModel) -> RowModel {
    (joined(l.0, r.0), join_visibility_spec(l.1, r.1))
}

/// The joined row of two rows, if they agree on the names both bind.
pub fn join_visible_compatible(left: &VisibilityBindingSet, right: &VisibilityBindingSet) -> (r: Option<
    VisibilityBindingSet,
>)
    ensures
        r is Some <==> compatible(left.bindings@, right.bindings@),
        r matches Some(x) ==> row_model(x) == row_join(row_model(*left), row_model(*right)),
{
    match join_compatible(&left.bindings, &right.bindings) {
        Some(b) => {
            let vis = join_visibility(left.visibility.as_str(), right.visibility.as_str());
            Some(VisibilityBindingSet::new(b, vis.as_str()))
        },
        None => None,
    }
}

/// The joins of row `l` with the first `n` rows of `rs` it is compatible with.
pub open spec fn joins_with(l: RowModel, rs: Seq<RowModel>, n: nat) -> Seq<RowModel>
    decreases n,
{
    if n == 0 || n > rs.len() {
        Seq::empty()
    } else {
        let prev = joins_with(l, rs, (n - 1) as nat);
        if compatible(l.0, rs[n - 1].0) {
            prev.push(row_join(l, rs[n - 1]))
        } else {
            prev
        }
    }
}

/// The rows of a natural join, left row by left row, before they are made a set.
pub open spec fn natural_rows(ls: Seq<RowModel>, rs: Seq<RowModel>, n: nat) -> Seq<RowModel>
    decreases n,
{
    if n == 0 || n > ls.len() {
        Seq::empty()
    } else {
        natural_rows(ls, rs, (n - 1) as nat) + joins_with(ls[n - 1], rs, rs.len())
    }
}

/// The rows of a left join: each left row's joins, or the left row itself when it has none.
pub open spec fn left_rows(ls: Seq<RowModel>, rs: Seq<RowModel>, n: nat) -> Seq<RowModel>
    decreases n,
{
    if n == 0 || n > ls.len() {
        Seq::empty()
    } else {
        let js = joins_with(ls[n - 1], rs, rs.len());
        left_rows(ls, rs, (n - 1) as nat) + if js.len() == 0 {
            seq![ls[n - 1]]
        } else {
            js
        }
    }
}

fn joins_of(left: &VisibilityBindingSet, right: &Vec<VisibilityBindingSet>) -> (r: Vec<VisibilityBindingSet>)
    ensures
        row_models(r@) == joins_with(row_model(*left), row_models(right@), right@.len()),
{
    let mut out: Vec<VisibilityBindingSet> = Vec::new();
    let mut j: usize = 0;
    assert(row_models(out@) =~= Seq::<RowModel>::empty());
    while j < right.len()
        invariant
            j <= right.len(),
            row_models(out@) == joins_with(row_model(*left), row_models(right@), j as nat),
        decreases right.len() - j,
    {
        match join_visible_compatible(left, &right[j]) {
            Some(x) => {
                let ghost before = out@;
                out.push(x);
                assert(row_models(out@) =~= row_models(before).push(row_model(x)));
            },
            None => {},
        }
        j = j + 1;
    }
    out
}

fn append_rows(out: &mut Vec<VisibilityBindingSet>, more: Vec<VisibilityBindingSet>)
    ensures
        row_models(final(out)@) == row_models(old(out)@) + row_models(more@),
{
    let mut k: usize = 0;
    while k < more.len()
        invariant
            k <= more.len(),
            row_models(out@) == row_models(old(out)@) + row_models(more@).take(k as int),
        decreases more.len() - k,
    {
        let ghost before = out@;
        let item = more[k].clone();
        assert(row_model(item) == row_model(more@[k as int]));
        out.push(item);
        assert(row_models(out@) =~= row_models(before).push(row_model(more@[k as int])));
        assert(row_models(more@).take(k + 1) =~= row_models(more@).take(k as int).push(row_model(more@[k as int])));
        assert(row_models(out@) =~= row_models(old(out)@) + row_models(more@).take(k + 1));
        k = k + 1;
    }
    assert(row_models(more@).take(k as int) =~= row_models(more@));
}

/// The natural join of two row sets, as an ordered set.
pub fn visible_natural_join(left: &Vec<VisibilityBindingSet>, right: &Vec<VisibilityBindingSet>) -> (r: Vec<
    VisibilityBindingSet,
>)
    ensures
        row_models(r@) == row_set(natural_rows(row_models(left@), row_models(right@), left@.len())),
{
    let mut bag: Vec<VisibilityBindingSet> = Vec::new();
    let mut i: usize = 0;
    assert(row_models(bag@) =~= Seq::<RowModel>::empty());
    while i < left.len()
        invariant
            i <= left.len(),
            row_models(bag@) == natural_rows(row_models(left@), row_models(right@), i as nat),
        decreases left.len() - i,
    {
        let js = joins_of(&left[i], right);
        append_rows(&mut bag, js);
        i = i + 1;
    }
    to_row_set(bag)
}

/// The left outer join of two row sets, as an ordered set.
pub fn visible_left_join(left: &Vec<VisibilityBindingSet>, right: &Vec<VisibilityBindingSet>) -> (r: Vec<
    VisibilityBindingSet,
>)
    ensures
        row_models(r@) == row_set(left_rows(row_models(left@), row_models(right@), left@.len())),
{
    let mut bag: Vec<VisibilityBindingSet> = Vec::new();
    let mut i: usize = 0;
    assert(row_models(bag@) =~= Seq::<RowModel>::empty());
    while i < left.len()
        invariant
            i <= left.len(),
            row_models(bag@) == left_rows(row_models(left@), row_models(right@), i as nat),
        decreases left.len() - i,
    {
        let js = joins_of(&left[i], right);
        if js.len() == 0 {
            let ghost before = bag@;
            bag.push(left[i].clone());
            assert(row_models(bag@) =~= row_models(before) + seq![row_model(left@[i as int])]);
        } else {
            append_rows(&mut bag, js);
        }
        i = i + 1;
    }
    to_row_set(bag)
}

/// The bindings of a row kept to the given names.
pub open spec fn project_spec(m: Map<Seq<char>, RyaTypeModel>, vars: Seq<Seq<char>>) -> Map<Seq<char>, RyaTypeModel> {
    m.restrict(vars.to_set())
}

/// The bindings of a row kept to the given names.
pub fn project_binding_set(row: &BindingSet, projected_vars: &Vec<String>) -> (r: BindingSet)
    ensures
        r@ == project_spec(row@, views(projected_vars@)),
{
    let mut out = BindingSet::new();
    let mut i: usize = 0;
    assert(out@ =~= row@.restrict(views(projected_vars@).take(0).to_set()));
    while i < projected_vars.len()
        invariant
            i <= projected_vars.len(),
            out@ == row@.restrict(views(projected_vars@).take(i as int).to_set()),
        decreases projected_vars.len() - i,
    {
        let v = &projected_vars[i];
        match row.get(v.as_str()) {
            Some(value) => {
                out.insert(v.clone(), value.clone());
            },
            None => {},
        }
        proof {
            let t = views(projected_vars@).take(i as int);
            assert(views(projected_vars@).take(i + 1) =~= t.push(v@));
            crate::pcj::lemma_push_to_set(t, v@);
            if row@.contains_key(v@) {
                assert(row@.restrict(t.to_set().insert(v@)) =~= row@.restrict(t.to_set()).insert(v@, row@[v@]));
            } else {
                assert(row@.restrict(t.to_set().insert(v@)) =~= row@.restrict(t.to_set()));
            }
        }
        assert(out@ =~= row@.restrict(views(projected_vars@).take(i + 1).to_set()));
        i = i + 1;
    }
    assert(views(projected_vars@).take(i as int) =~= views(projected_vars@));
    out
}


/// A copy of a list of rows.
pub fn clone_rows(v: &Vec<VisibilityBindingSet>) -> (r: Vec<VisibilityBindingSet>)
    ensures
        row_models(r@) == row_models(v@),
{
    let mut out: Vec<VisibilityBindingSet> = Vec::new();
    let mut i: usize = 0;
    assert(row_models(out@) =~= row_models(v@).take(0));
    while i < v.len()
        invariant
            i <= v.len(),
            row_models(out@) == row_models(v@).take(i as int),
        decreases v.len() - i,
    {
        let ghost before = out@;
        let item = v[i].clone();
        assert(row_model(item) == row_model(v@[i as int]));
        out.push(item);
        assert(row_models(out@) =~= row_models(before).push(row_model(v@[i as int])));
        assert(row_models(v@).take(i + 1) =~= row_models(v@).take(i as int).push(row_model(v@[i as int])));
        i = i + 1;
    }
    assert(row_models(v@).take(i as int) =~= row_models(v@));
    out
}

} // verus!
