use vstd::prelude::*;

pub mod app;
pub mod columns;
pub mod eval;
pub mod laws;
pub mod metadata;
pub mod params;
pub mod plan;
pub mod report;
pub mod rows;
pub mod sparql;

use crate::domain::{RyaIri, RyaStatement, RyaType, RyaTypeModel, XSD_ANY_URI, XSD_STRING};
use crate::pcj::binding::BindingSet;
use crate::pcj::{binding_set_from_string, binding_set_to_string, VariableOrder};
use crate::seqs::first_index_of;
use crate::sorted::{insert_sorted_string, strictly_sorted};
use crate::strmap::{as_map, EntryText, StrMap};
use crate::text::{
    concat, push_str, starts_with, starts_with_seq, str_eq, strip_prefix, to_owned, views,
};
use crate::words::{join, join_spec, split_str, split_str_spec};

verus! {

pub const DELIM: &'static str = ":::";
pub const VAR_DELIM: &'static str = ";";
pub const NODEID_BS_DELIM: &'static str = "<<:>>";
pub const JOIN_DELIM: &'static str = "<:>J<:>";
pub const TYPE_DELIM: &'static str = "<<~>>";
pub const SP_PREFIX: &'static str = "STATEMENT_PATTERN";
pub const JOIN_PREFIX: &'static str = "JOIN";
pub const FILTER_PREFIX: &'static str = "FILTER";
pub const QUERY_PREFIX: &'static str = "QUERY";
pub const URI_TYPE: &'static str = XSD_ANY_URI;
pub const XSD_INTEGER: &'static str = "http://www.w3.org/2001/XMLSchema#integer";
pub const XSD_INT: &'static str = "http://www.w3.org/2001/XMLSchema#int";
pub const PCJ_FLUO_VERSION: &'static str = "1.0.0-beta-2";

/// A module of the PCJ Fluo application: its module name, package and kind.
pub struct PcjFluoModule {
    pub module: &'static str,
    pub crate_name: &'static str,
    pub crate_type: &'static str,
}

/// A package the PCJ Fluo integration tests depend on, with its scope when it has one.
pub struct PcjFluoIntegrationDependency {
    pub crate_name: &'static str,
    pub scope: Option<&'static str>,
}

/// A Fluo column: a family and a qualifier.
#[derive(Clone, Copy)]
pub struct FluoColumn {
    pub family: &'static str,
    pub qualifier: &'static str,
}

/// The text of a column: its family and qualifier.
pub type ColumnModel = (Seq<char>, Seq<char>);

pub open spec fn column_model(c: FluoColumn) -> ColumnModel {
    (c.family@, c.qualifier@)
}

impl FluoColumn {
    pub fn new(family: &'static str, qualifier: &'static str) -> (r: Self)
        ensures
            r.family@ == family@,
            r.qualifier@ == qualifier@,
    {
        FluoColumn { family, qualifier }
    }

    /// Whether two columns have the same family and qualifier.
    pub fn same_as(&self, other: &FluoColumn) -> (r: bool)
        ensures
            r == (column_model(*self) == column_model(*other)),
    {
        str_eq(self.family, other.family) && str_eq(self.qualifier, other.qualifier)
    }
}

/// An in-memory Fluo table: for each column, values by row in increasing order of row.
pub struct InMemoryFluo {
    cols: Vec<(FluoColumn, StrMap)>,
}

impl InMemoryFluo {
    closed spec fn col_models(self) -> Seq<ColumnModel> {
        self.cols@.map_values(|e: (FluoColumn, StrMap)| column_model(e.0))
    }

    /// The rows of a column and their values, in increasing order of row.
    pub closed spec fn column_pairs(self, c: ColumnModel) -> Seq<EntryText> {
        match first_index_of(self.col_models(), c) {
            Some(i) => self.cols@[i].1.pairs(),
            None => Seq::empty(),
        }
    }

    /// The values of a column by row.
    pub open spec fn column(self, c: ColumnModel) -> Map<Seq<char>, Seq<char>> {
        as_map(self.column_pairs(c))
    }

    /// The values by row and column.
    pub open spec fn cells(self) -> Map<(Seq<char>, ColumnModel), Seq<char>> {
        Map::new(
            |k: (Seq<char>, ColumnModel)| self.column(k.1).contains_key(k.0),
            |k: (Seq<char>, ColumnModel)| self.column(k.1)[k.0],
        )
    }

    /// An empty table.
    pub fn new() -> (r: Self)
        ensures
            forall|c: ColumnModel| #[trigger] r.column_pairs(c) == Seq::<EntryText>::empty(),
    {
        let r = InMemoryFluo { cols: Vec::new() };
        assert forall|c: ColumnModel| #[trigger] r.column_pairs(c) == Seq::<EntryText>::empty() by {
            assert(r.col_models() =~= Seq::<ColumnModel>::empty());
        }
        r
    }

    fn find(&self, column: &FluoColumn) -> (r: Option<usize>)
        ensures
            match r {
                Some(i) => first_index_of(self.col_models(), column_model(*column)) == Some(i as int)
                    && i < self.cols.len(),
                None => first_index_of(self.col_models(), column_model(*column)) is None,
            },
    {
        let mut i: usize = 0;
        while i < self.cols.len()
            invariant
                i <= self.cols.len(),
                forall|k: int| 0 <= k < i ==> self.col_models()[k] != column_model(*column),
            decreases self.cols.len() - i,
        {
            if self.cols[i].0.same_as(column) {
                proof {
                    crate::seqs::lemma_first_index_of_at(self.col_models(), column_model(*column), i as int);
                }
                return Some(i);
            }
            i = i + 1;
        }
        proof {
            crate::seqs::lemma_first_index_of_none(self.col_models(), column_model(*column));
        }
        None
    }

    /// Sets the value at a row of a column.
    pub fn set(&mut self, row: &str, column: FluoColumn, value: &str)
        ensures
            forall|c: ColumnModel| #[trigger] final(self).column(c) == if c == column_model(column) {
                old(self).column(c).insert(row@, value@)
            } else {
                old(self).column(c)
            },
            final(self).cells() == old(self).cells().insert((row@, column_model(column)), value@),
    {
        self.set_column(row, column, value);
        assert(self.cells() =~= old(self).cells().insert((row@, column_model(column)), value@)) by {
            assert forall|k: (Seq<char>, ColumnModel)| #[trigger] self.column(k.1) == if k.1 == column_model(column) {
                old(self).column(k.1).insert(row@, value@)
            } else {
                old(self).column(k.1)
            } by {}
        }
    }

    fn set_column(&mut self, row: &str, column: FluoColumn, value: &str)
        ensures
            forall|c: ColumnModel| #[trigger] final(self).column(c) == if c == column_model(column) {
                old(self).column(c).insert(row@, value@)
            } else {
                old(self).column(c)
            },
    {
        match self.find(&column) {
            Some(i) => {
                let mut map = self.cols[i].1.clone();
                map.insert(to_owned(row), to_owned(value));
                let ghost before = self.col_models();
                proof {
                    crate::seqs::lemma_first_index_of(before, column_model(column));
                }
                self.cols.set(i, (column, map));
                assert forall|k: int| 0 <= k < before.len() implies self.col_models()[k] == before[k] by {
                    if k != i {
                        assert(self.cols@[k] == old(self).cols@[k]);
                    }
                }
                assert(self.col_models() =~= before);
                assert forall|c: ColumnModel| #[trigger] self.column(c) == if c == column_model(column) {
                    old(self).column(c).insert(row@, value@)
                } else {
                    old(self).column(c)
                } by {
                    if c != column_model(column) {
                        if let Some(k) = first_index_of(self.col_models(), c) {
                            crate::seqs::lemma_first_index_of(self.col_models(), c);
                            assert(k != i);
                        }
                    }
                }
            },
            None => {
                let mut map = StrMap::new();
                map.insert(to_owned(row), to_owned(value));
                let ghost before = self.col_models();
                let ghost m = map;
                self.cols.push((column, map));
                assert forall|k: int| 0 <= k < before.len() implies self.col_models()[k] == before[k] by {
                    assert(self.cols@[k] == old(self).cols@[k]);
                }
                assert(self.col_models() =~= before.push(column_model(column)));
                assert(self.cols@[before.len() as int].1 == m);
                assert forall|c: ColumnModel| #[trigger] self.column(c) == if c == column_model(column) {
                    old(self).column(c).insert(row@, value@)
                } else {
                    old(self).column(c)
                } by {
                    lemma_first_index_push(before, column_model(column), c);
                    if c == column_model(column) {
                        assert(old(self).column_pairs(c) =~= Seq::<EntryText>::empty());
                        assert(as_map(Seq::<EntryText>::empty()) =~= Map::<Seq<char>, Seq<char>>::empty());
                        assert(self.column_pairs(c) == m.pairs());
                        assert(self.column(c) == m@);
                        assert(m@ =~= Map::<Seq<char>, Seq<char>>::empty().insert(row@, value@));
                    } else {
                        if let Some(k) = first_index_of(before, c) {
                            crate::seqs::lemma_first_index_of(before, c);
                            assert(self.cols@[k] == old(self).cols@[k]);
                        }
                    }
                }
            },
        }
    }

    /// The value at a row of a column.
    pub fn get(&self, row: &str, column: FluoColumn) -> (r: Option<&String>)
        ensures
            match r {
                Some(v) => self.cells().contains_key((row@, column_model(column))) && self.cells()[(
                    row@,
                    column_model(column),
                )] == v@,
                None => !self.cells().contains_key((row@, column_model(column))),
            },
            match r {
                Some(v) => self.column(column_model(column)).contains_key(row@)
                    && self.column(column_model(column))[row@] == v@,
                None => !self.column(column_model(column)).contains_key(row@),
            },
    {
        match self.find(&column) {
            Some(i) => self.cols[i].1.get(row),
            None => None,
        }
    }

    /// Removes the value at a row of a column.
    pub fn delete(&mut self, row: &str, column: FluoColumn)
        ensures
            forall|c: ColumnModel| #[trigger] final(self).column(c) == if c == column_model(column) {
                old(self).column(c).remove(row@)
            } else {
                old(self).column(c)
            },
            final(self).cells() == old(self).cells().remove((row@, column_model(column))),
    {
        self.delete_column(row, column);
        assert(self.cells() =~= old(self).cells().remove((row@, column_model(column)))) by {
            assert forall|k: (Seq<char>, ColumnModel)| #[trigger] self.column(k.1) == if k.1 == column_model(column) {
                old(self).column(k.1).remove(row@)
            } else {
                old(self).column(k.1)
            } by {}
        }
    }

    fn delete_column(&mut self, row: &str, column: FluoColumn)
        ensures
            forall|c: ColumnModel| #[trigger] final(self).column(c) == if c == column_model(column) {
                old(self).column(c).remove(row@)
            } else {
                old(self).column(c)
            },
    {
        match self.find(&column) {
            Some(i) => {
                let mut map = self.cols[i].1.clone();
                map.remove(row);
                let ghost before = self.col_models();
                proof {
                    crate::seqs::lemma_first_index_of(before, column_model(column));
                }
                self.cols.set(i, (column, map));
                assert forall|k: int| 0 <= k < before.len() implies self.col_models()[k] == before[k] by {
                    if k != i {
                        assert(self.cols@[k] == old(self).cols@[k]);
                    }
                }
                assert(self.col_models() =~= before);
                assert forall|c: ColumnModel| #[trigger] self.column(c) == if c == column_model(column) {
                    old(self).column(c).remove(row@)
                } else {
                    old(self).column(c)
                } by {
                    if c != column_model(column) {
                        if let Some(k) = first_index_of(self.col_models(), c) {
                            crate::seqs::lemma_first_index_of(self.col_models(), c);
                            assert(k != i);
                        }
                    }
                }
            },
            None => {
                assert forall|c: ColumnModel| #[trigger] self.column(c) == if c == column_model(column) {
                    old(self).column(c).remove(row@)
                } else {
                    old(self).column(c)
                } by {
                    if c == column_model(column) {
                        assert(old(self).column_pairs(c) =~= Seq::<EntryText>::empty());
                        assert(as_map(Seq::<EntryText>::empty()) =~= Map::<Seq<char>, Seq<char>>::empty());
                        assert(old(self).column(c).remove(row@) =~= old(self).column(c));
                    }
                }
            },
        }
    }

    /// The rows of a column and their values, in increasing order of row.
    pub fn scan_column(&self, column: FluoColumn) -> (r: Vec<(String, String)>)
        ensures
            r@.map_values(|e: (String, String)| (e.0@, e.1@)) == self.column_pairs(column_model(column)),
    {
        match self.find(&column) {
            Some(i) => {
                let map = &self.cols[i].1;
                let mut out: Vec<(String, String)> = Vec::new();
                let mut j: usize = 0;
                while j < map.len()
                    invariant
                        j <= map.pairs().len(),
                        out@.map_values(|e: (String, String)| (e.0@, e.1@)) == map.pairs().take(j as int),
                    decreases map.pairs().len() - j,
                {
                    let (k, v) = map.entry(j);
                    let ghost before = out@;
                    out.push((k.clone(), v.clone()));
                    assert(out@.map_values(|e: (String, String)| (e.0@, e.1@)) =~= before.map_values(
                        |e: (String, String)| (e.0@, e.1@),
                    ).push(map.pairs()[j as int]));
                    assert(map.pairs().take(j + 1) =~= map.pairs().take(j as int).push(map.pairs()[j as int]));
                    j = j + 1;
                }
                assert(map.pairs().take(j as int) =~= map.pairs());
                out
            },
            None => {
                let out: Vec<(String, String)> = Vec::new();
                assert(out@.map_values(|e: (String, String)| (e.0@, e.1@)) =~= Seq::<EntryText>::empty());
                out
            },
        }
    }

    /// The rows of a column that start with `prefix`, in increasing order of row.
    pub fn scan_prefix(&self, prefix: &str, column: FluoColumn) -> (r: Vec<(String, String)>)
        ensures
            r@.map_values(|e: (String, String)| (e.0@, e.1@)) == self.column_pairs(column_model(column)).filter(
                row_starts_with(prefix@),
            ),
    {
        let all = self.scan_column(column);
        let ghost pairs = self.column_pairs(column_model(column));
        let mut out: Vec<(String, String)> = Vec::new();
        let mut i: usize = 0;
        proof {
            crate::seqs::lemma_filter_take_zero(pairs, row_starts_with(prefix@));
        }
        while i < all.len()
            invariant
                i <= all.len(),
                all@.map_values(|e: (String, String)| (e.0@, e.1@)) == pairs,
                out@.map_values(|e: (String, String)| (e.0@, e.1@)) == pairs.take(i as int).filter(
                    row_starts_with(prefix@),
                ),
            decreases all.len() - i,
        {
            proof {
                crate::seqs::lemma_filter_take_step(pairs, row_starts_with(prefix@), i as int);
            }
            assert(pairs[i as int] == (all@[i as int].0@, all@[i as int].1@));
            if starts_with(all[i].0.as_str(), prefix) {
                let ghost before = out@;
                out.push((all[i].0.clone(), all[i].1.clone()));
                assert(out@.map_values(|e: (String, String)| (e.0@, e.1@)) =~= before.map_values(
                    |e: (String, String)| (e.0@, e.1@),
                ).push(pairs[i as int]));
            }
            i = i + 1;
        }
        proof {
            crate::seqs::lemma_take_full(pairs);
        }
        out
    }
}

/// Whether an entry's row starts with `p`.
pub open spec fn row_starts_with(p: Seq<char>) -> spec_fn(EntryText) -> bool {
    |e: EntryText| starts_with_seq(e.0, p)
}

proof fn lemma_first_index_push(s: Seq<ColumnModel>, x: ColumnModel, c: ColumnModel)
    requires
        first_index_of(s, x) is None,
    ensures
        first_index_of(s.push(x), c) == if c == x {
            Some(s.len() as int)
        } else {
            first_index_of(s, c)
        },
{
    crate::seqs::lemma_first_index_of(s, x);
    crate::seqs::lemma_first_index_of(s, c);
    crate::seqs::lemma_first_index_of(s.push(x), c);
    let t = s.push(x);
    match first_index_of(s, c) {
        Some(k) => {
            assert(t[k] == c);
            crate::seqs::lemma_first_index_of_at(t, c, k);
        },
        None => {
            if c == x {
                crate::seqs::lemma_first_index_of_at(t, c, s.len() as int);
            } else {
                assert forall|j: int| 0 <= j < t.len() implies t[j] != c by {
                    if j < s.len() {
                        assert(t[j] == s[j]);
                    }
                }
                crate::seqs::lemma_first_index_of_none(t, c);
            }
        },
    }
}


// ---------------------------------------------------------------------------
// Node kinds, terms and statement patterns
// ---------------------------------------------------------------------------

/// The kind of a node of a query's Fluo plan.
#[derive(Clone, Copy, PartialEq, Eq, Structural)]
pub enum NodeType {
    Filter,
    Join,
    StatementPattern,
    Query,
}

impl NodeType {
    /// The kind that a node id's prefix names, if any.
    pub fn from_node_id(node_id: &str) -> (r: Option<NodeType>)
        ensures
            r == if starts_with_seq(node_id@, SP_PREFIX@) {
                Some(NodeType::StatementPattern)
            } else if starts_with_seq(node_id@, FILTER_PREFIX@) {
                Some(NodeType::Filter)
            } else if starts_with_seq(node_id@, JOIN_PREFIX@) {
                Some(NodeType::Join)
            } else if starts_with_seq(node_id@, QUERY_PREFIX@) {
                Some(NodeType::Query)
            } else {
                None
            },
    {
        if starts_with(node_id, SP_PREFIX) {
            Some(NodeType::StatementPattern)
        } else if starts_with(node_id, FILTER_PREFIX) {
            Some(NodeType::Filter)
        } else if starts_with(node_id, JOIN_PREFIX) {
            Some(NodeType::Join)
        } else if starts_with(node_id, QUERY_PREFIX) {
            Some(NodeType::Query)
        } else {
            None
        }
    }
}

/// A term of a statement pattern: a variable or a constant.
pub enum FluoTerm {
    Var(String),
    Constant(RyaType),
}

/// The value of a term.
pub enum FluoTermModel {
    Var(Seq<char>),
    Constant(RyaTypeModel),
}

pub open spec fn term_model(t: FluoTerm) -> FluoTermModel {
    match t {
        FluoTerm::Var(n) => FluoTermModel::Var(n@),
        FluoTerm::Constant(v) => FluoTermModel::Constant(v@),
    }
}

impl Clone for FluoTerm {
    fn clone(&self) -> (r: Self)
        ensures
            term_model(r) == term_model(*self),
    {
        match self {
            FluoTerm::Var(n) => FluoTerm::Var(n.clone()),
            FluoTerm::Constant(v) => FluoTerm::Constant(v.clone()),
        }
    }
}

/// A statement pattern of subject, predicate and object terms.
pub struct FluoStatementPattern {
    pub subject: FluoTerm,
    pub predicate: FluoTerm,
    pub object: FluoTerm,
}

/// The value of a statement pattern.
pub struct FluoPatternModel {
    pub subject: FluoTermModel,
    pub predicate: FluoTermModel,
    pub object: FluoTermModel,
}

pub open spec fn fluo_pattern_model(p: FluoStatementPattern) -> FluoPatternModel {
    FluoPatternModel {
        subject: term_model(p.subject),
        predicate: term_model(p.predicate),
        object: term_model(p.object),
    }
}

/// The name of a variable term.
pub open spec fn var_name(t: FluoTermModel) -> Set<Seq<char>> {
    match t {
        FluoTermModel::Var(n) => set![n],
        FluoTermModel::Constant(_) => Set::empty(),
    }
}

/// The variables of a pattern.
pub open spec fn pattern_vars(p: FluoPatternModel) -> Set<Seq<char>> {
    var_name(p.subject) + var_name(p.predicate) + var_name(p.object)
}

impl Clone for FluoStatementPattern {
    fn clone(&self) -> (r: Self)
        ensures
            fluo_pattern_model(r) == fluo_pattern_model(*self),
    {
        FluoStatementPattern {
            subject: self.subject.clone(),
            predicate: self.predicate.clone(),
            object: self.object.clone(),
        }
    }
}

fn add_var(out: &mut Vec<String>, t: &FluoTerm)
    requires
        strictly_sorted(views(old(out)@)),
    ensures
        strictly_sorted(views(final(out)@)),
        views(final(out)@).to_set() == views(old(out)@).to_set() + var_name(term_model(*t)),
{
    match t {
        FluoTerm::Var(n) => {
            insert_sorted_string(out, n.clone());
            assert(views(old(out)@).to_set().insert(n@) =~= views(old(out)@).to_set() + set![n@]);
        },
        FluoTerm::Constant(_) => {
            assert(views(old(out)@).to_set() + Set::<Seq<char>>::empty() =~= views(old(out)@).to_set());
        },
    }
}

impl FluoStatementPattern {
    pub fn new(subject: FluoTerm, predicate: FluoTerm, object: FluoTerm) -> (r: Self)
        ensures
            term_model(r.subject) == term_model(subject),
            term_model(r.predicate) == term_model(predicate),
            term_model(r.object) == term_model(object),
    {
        FluoStatementPattern { subject, predicate, object }
    }

    /// The pattern's variable names, each once, in increasing order.
    pub fn variables(&self) -> (r: Vec<String>)
        ensures
            strictly_sorted(views(r@)),
            views(r@).to_set() == pattern_vars(fluo_pattern_model(*self)),
    {
        let mut out: Vec<String> = Vec::new();
        assert(views(out@).to_set() =~= Set::<Seq<char>>::empty());
        add_var(&mut out, &self.subject);
        add_var(&mut out, &self.predicate);
        add_var(&mut out, &self.object);
        assert(Set::<Seq<char>>::empty() + var_name(term_model(self.subject)) =~= var_name(
            term_model(self.subject),
        ));
        out
    }
}

// ---------------------------------------------------------------------------
// Texts of orders, binding sets, values and patterns
// ---------------------------------------------------------------------------

/// The variable names joined with `;`.
pub fn to_var_order_string(vars: &Vec<String>) -> (r: String)
    ensures
        r@ == join_spec(views(vars@), VAR_DELIM@),
{
    join(vars, VAR_DELIM)
}

/// The variable names of a `;`-separated text; none for the empty text.
pub fn to_var_order(value: &str) -> (r: Vec<String>)
    ensures
        views(r@) == if value@.len() == 0 {
            Seq::<Seq<char>>::empty()
        } else {
            split_str_spec(value@, VAR_DELIM@)
        },
{
    if value.unicode_len() == 0 {
        let r: Vec<String> = Vec::new();
        assert(views(r@) =~= Seq::<Seq<char>>::empty());
        r
    } else {
        proof {
            reveal_strlit(";");
        }
        split_str(value, VAR_DELIM)
    }
}

/// The text of a binding set in a variable order.
pub fn to_binding_set_string(binding_set: &BindingSet, order: &VariableOrder) -> (r: Result<String, String>)
    ensures
        r is Ok <==> crate::pcj::names_in_order(binding_set@, order@),
        r matches Ok(t) ==> t@ == join_spec(
            crate::pcj::binding_texts(binding_set@, order@),
            crate::pcj::BINDING_STRING_DELIMITER@,
        ),
        r matches Err(e) ==> e@ == crate::pcj::not_in_order_message(),
{
    binding_set_to_string(binding_set, order)
}

/// The binding set of a text in a variable order.
pub fn to_binding_set(value: &str, order: &VariableOrder) -> (r: Result<BindingSet, String>)
    ensures
        crate::pcj::text_pieces(value@).len() == order@.len() ==> (r is Ok <==> crate::pcj::decode_texts(
            order@,
            crate::pcj::text_pieces(value@),
            order@.len() as int,
        ) is Some),
        crate::pcj::text_pieces(value@).len() != order@.len() ==> r is Err,
        r matches Ok(b) ==> Some(b@) == crate::pcj::decode_texts(
            order@,
            crate::pcj::text_pieces(value@),
            order@.len() as int,
        ),
{
    binding_set_from_string(value, order)
}

/// The `:::`-separated parts of a binding-set text; none for the empty text.
pub fn to_binding_strings(value: &str) -> (r: Vec<String>)
    ensures
        views(r@) == if value@.len() == 0 {
            Seq::<Seq<char>>::empty()
        } else {
            split_str_spec(value@, DELIM@)
        },
{
    if value.unicode_len() == 0 {
        let r: Vec<String> = Vec::new();
        assert(views(r@) =~= Seq::<Seq<char>>::empty());
        r
    } else {
        proof {
            reveal_strlit(":::");
        }
        split_str(value, DELIM)
    }
}

/// The datatype of a value, `xsd:string` when it has none.
pub open spec fn type_or_string(v: RyaTypeModel) -> Seq<char> {
    match v.data_type {
        Some(t) => t,
        None => XSD_STRING@,
    }
}

/// The Fluo text of a value: its data, `<<~>>`, its datatype.
pub open spec fn value_text(v: RyaTypeModel) -> Seq<char> {
    v.data + TYPE_DELIM@ + type_or_string(v)
}

fn type_or_string_str(value: &RyaType) -> (r: &str)
    ensures
        r@ == type_or_string(value@),
{
    match value.data_type() {
        Some(t) => t,
        None => XSD_STRING,
    }
}

/// The Fluo text of a value: its data, `<<~>>`, its datatype.
pub fn value_to_fluo_string(value: &RyaType) -> (r: String)
    ensures
        r@ == value_text(value@),
{
    let mut out = to_owned(value.data());
    push_str(&mut out, TYPE_DELIM);
    push_str(&mut out, type_or_string_str(value));
    out
}

pub open spec fn data_type_error_text() -> Seq<char> {
    "Array must contain data and type info!"@
}

/// The value a data part and a datatype part make: an IRI for `xsd:anyURI`.
pub open spec fn typed_value(data: Seq<char>, data_type: Seq<char>) -> Result<RyaTypeModel, Seq<char>> {
    if data_type == URI_TYPE@ {
        if crate::domain::valid_iri_spec(data) {
            Ok(crate::domain::iri_model(data))
        } else {
            Err(crate::fjall::codec::iri_error_text(data))
        }
    } else {
        Ok(RyaTypeModel { data_type: Some(data_type), data, language: None })
    }
}

/// The value of a Fluo text: exactly two `<<~>>`-separated parts, data then datatype.
pub open spec fn value_from_text(t: Seq<char>) -> Result<RyaTypeModel, Seq<char>> {
    let parts = split_str_spec(t, TYPE_DELIM@);
    if parts.len() != 2 {
        Err(data_type_error_text())
    } else {
        typed_value(parts[0], parts[1])
    }
}

fn typed_value_exec(data: &str, data_type: &str) -> (r: Result<RyaType, String>)
    ensures
        match typed_value(data@, data_type@) {
            Ok(m) => r matches Ok(v) && v@ == m,
            Err(e) => r matches Err(x) && x@ == e,
        },
{
    if str_eq(data_type, URI_TYPE) {
        match RyaIri::new(data) {
            Ok(i) => Ok(i.into_type()),
            Err(e) => Err(e),
        }
    } else {
        Ok(RyaType::custom(data_type, data))
    }
}

/// The value of a Fluo text: exactly two `<<~>>`-separated parts, data then datatype.
pub fn value_from_fluo_string(value: &str) -> (r: Result<RyaType, String>)
    ensures
        match value_from_text(value@) {
            Ok(m) => r matches Ok(v) && v@ == m,
            Err(e) => r matches Err(x) && x@ == e,
        },
{
    proof {
        reveal_strlit("<<~>>");
    }
    let parts = split_str(value, TYPE_DELIM);
    if parts.len() != 2 {
        return Err(to_owned("Array must contain data and type info!"));
    }
    typed_value_exec(parts[0].as_str(), parts[1].as_str())
}

/// The text of a pattern term; a constant is marked `-const-` and typed, as an IRI in subject
/// and predicate position.
pub open spec fn term_text(t: FluoTermModel, uri_position: bool) -> Seq<char> {
    match t {
        FluoTermModel::Var(n) => n,
        FluoTermModel::Constant(v) => "-const-"@ + v.data + TYPE_DELIM@ + if uri_position {
            URI_TYPE@
        } else {
            type_or_string(v)
        },
    }
}

fn term_to_pattern_part(term: &FluoTerm, uri_position: bool) -> (r: String)
    ensures
        r@ == term_text(term_model(*term), uri_position),
{
    match term {
        FluoTerm::Var(n) => n.clone(),
        FluoTerm::Constant(v) => {
            let mut out = to_owned("-const-");
            push_str(&mut out, v.data());
            push_str(&mut out, TYPE_DELIM);
            if uri_position {
                push_str(&mut out, URI_TYPE);
            } else {
                push_str(&mut out, type_or_string_str(v));
            }
            out
        },
    }
}

/// The text of a statement pattern: its three terms joined with `:::`.
pub open spec fn pattern_text(p: FluoPatternModel) -> Seq<char> {
    join_spec(seq![term_text(p.subject, true), term_text(p.predicate, true), term_text(p.object, false)], DELIM@)
}

/// The text of a statement pattern: its three terms joined with `:::`.
pub fn statement_pattern_to_string(pattern: &FluoStatementPattern) -> (r: String)
    ensures
        r@ == pattern_text(fluo_pattern_model(*pattern)),
{
    let mut parts: Vec<String> = Vec::new();
    parts.push(term_to_pattern_part(&pattern.subject, true));
    parts.push(term_to_pattern_part(&pattern.predicate, true));
    parts.push(term_to_pattern_part(&pattern.object, false));
    let r = join(&parts, DELIM);
    assert(views(parts@) =~= seq![
        term_text(term_model(pattern.subject), true),
        term_text(term_model(pattern.predicate), true),
        term_text(term_model(pattern.object), false),
    ]);
    r
}

/// The term of a pattern text: a `-const-` text is a typed constant, any other a variable.
pub open spec fn term_from_text(t: Seq<char>) -> Result<FluoTermModel, Seq<char>> {
    if starts_with_seq(t, "-const-"@) {
        match value_from_text(t.skip(7)) {
            Ok(v) => Ok(FluoTermModel::Constant(v)),
            Err(e) => Err(e),
        }
    } else {
        Ok(FluoTermModel::Var(t))
    }
}

fn term_from_pattern_part(value: &str) -> (r: Result<FluoTerm, String>)
    ensures
        match term_from_text(value@) {
            Ok(m) => r matches Ok(t) && term_model(t) == m,
            Err(e) => r matches Err(x) && x@ == e,
        },
{
    proof {
        reveal_strlit("-const-");
    }
    match strip_prefix(value, "-const-") {
        Some(rest) => match value_from_fluo_string(rest.as_str()) {
            Ok(v) => Ok(FluoTerm::Constant(v)),
            Err(e) => Err(e),
        },
        None => Ok(FluoTerm::Var(to_owned(value))),
    }
}

/// The statement pattern of a text: exactly three `:::`-separated terms.
pub open spec fn pattern_from_text(t: Seq<char>) -> Result<FluoPatternModel, Seq<char>> {
    let parts = split_str_spec(t, DELIM@);
    if parts.len() != 3 {
        Err("Statement pattern must contain subject, predicate, and object"@)
    } else {
        match term_from_text(parts[0]) {
            Err(e) => Err(e),
            Ok(s) => match term_from_text(parts[1]) {
                Err(e) => Err(e),
                Ok(p) => match term_from_text(parts[2]) {
                    Err(e) => Err(e),
                    Ok(o) => Ok(FluoPatternModel { subject: s, predicate: p, object: o }),
                },
            },
        }
    }
}

/// The statement pattern of a text: exactly three `:::`-separated terms.
pub fn statement_pattern_from_string(value: &str) -> (r: Result<FluoStatementPattern, String>)
    ensures
        match pattern_from_text(value@) {
            Ok(m) => r matches Ok(p) && fluo_pattern_model(p) == m,
            Err(e) => r matches Err(x) && x@ == e,
        },
{
    proof {
        reveal_strlit(":::");
    }
    let parts = split_str(value, DELIM);
    if parts.len() != 3 {
        return Err(to_owned("Statement pattern must contain subject, predicate, and object"));
    }
    let s = term_from_pattern_part(parts[0].as_str())?;
    let p = term_from_pattern_part(parts[1].as_str())?;
    let o = term_from_pattern_part(parts[2].as_str())?;
    Ok(FluoStatementPattern::new(s, p, o))
}

/// A stored result row: the node it belongs to and the binding-set text.
pub struct BindingSetRow {
    pub node_id: String,
    pub binding_set_string: String,
}

impl BindingSetRow {
    /// Splits a row key at its single `<<:>>`.
    pub fn make(row: &str) -> (r: Result<BindingSetRow, String>)
        ensures
            split_str_spec(row@, NODEID_BS_DELIM@).len() == 2 ==> (r matches Ok(x) && x.node_id@
                == split_str_spec(row@, NODEID_BS_DELIM@)[0] && x.binding_set_string@ == split_str_spec(
                row@,
                NODEID_BS_DELIM@,
            )[1]),
            split_str_spec(row@, NODEID_BS_DELIM@).len() != 2 ==> (r matches Err(e) && e@
                == "A row must contain a single NODEID_BS_DELIM."@),
    {
        proof {
            reveal_strlit("<<:>>");
        }
        let parts = split_str(row, NODEID_BS_DELIM);
        if parts.len() != 2 {
            return Err(to_owned("A row must contain a single NODEID_BS_DELIM."));
        }
        Ok(BindingSetRow { node_id: parts[0].clone(), binding_set_string: parts[1].clone() })
    }
}

/// The statement's Fluo text: its three values' texts joined with `:::`.
pub open spec fn spo_text(st: crate::domain::RyaStatementModel) -> Seq<char> {
    join_spec(seq![value_text(st.subject), value_text(st.predicate), value_text(st.object)], DELIM@)
}

/// The statement's Fluo text: its three values' texts joined with `:::`.
pub fn spo_format(statement: &RyaStatement) -> (r: String)
    ensures
        r@ == spo_text(statement@),
{
    let mut parts: Vec<String> = Vec::new();
    parts.push(value_to_fluo_string(statement.subject.as_type()));
    parts.push(value_to_fluo_string(statement.predicate.as_type()));
    parts.push(value_to_fluo_string(&statement.object));
    let r = join(&parts, DELIM);
    assert(views(parts@) =~= seq![
        value_text(statement@.subject),
        value_text(statement@.predicate),
        value_text(statement@.object),
    ]);
    r
}

/// The statement's Fluo text.
pub fn triple_string(statement: &RyaStatement) -> (r: String)
    ensures
        r@ == spo_text(statement@),
{
    spo_format(statement)
}


/// The cells of a column whose row starts with `prefix`.
pub open spec fn prefix_keys(prefix: Seq<char>, c: ColumnModel) -> Set<(Seq<char>, ColumnModel)> {
    Set::new(|k: (Seq<char>, ColumnModel)| k.1 == c && starts_with_seq(k.0, prefix))
}

impl InMemoryFluo {
    /// Removes every cell of a column whose row starts with `prefix`.
    pub fn delete_prefix(&mut self, prefix: &str, column: FluoColumn)
        ensures
            final(self).cells() == old(self).cells().remove_keys(prefix_keys(prefix@, column_model(column))),
    {
        let rows = self.scan_prefix(prefix, column);
        let ghost c0 = self.cells();
        let ghost cm = column_model(column);
        let ghost pairs = self.column_pairs(cm);
        let ghost rv = rows@.map_values(|e: (String, String)| (e.0@, e.1@));
        let mut i: usize = 0;
        assert(c0.remove_keys(Set::new(|k: (Seq<char>, ColumnModel)| k.1 == cm && exists|j: int| 0 <= j < 0 && rv[j].0 == k.0)) =~= c0);
        while i < rows.len()
            invariant
                i <= rows.len(),
                rv == rows@.map_values(|e: (String, String)| (e.0@, e.1@)),
                cm == column_model(column),
                self.cells() == c0.remove_keys(
                    Set::new(|k: (Seq<char>, ColumnModel)| k.1 == cm && exists|j: int| 0 <= j < i && rv[j].0 == k.0),
                ),
            decreases rows.len() - i,
        {
            let ghost before = self.cells();
            self.delete(rows[i].0.as_str(), column);
            assert(rv[i as int].0 == rows@[i as int].0@);
            assert(self.cells() =~= c0.remove_keys(
                Set::new(|k: (Seq<char>, ColumnModel)| k.1 == cm && exists|j: int| 0 <= j < i + 1 && rv[j].0 == k.0),
            )) by {
                assert forall|k: (Seq<char>, ColumnModel)| (k.1 == cm && exists|j: int| 0 <= j < i + 1 && rv[j].0 == k.0)
                    == ((k.1 == cm && exists|j: int| 0 <= j < i && rv[j].0 == k.0) || k == (rows@[i as int].0@, cm)) by {
                    if k.1 == cm && exists|j: int| 0 <= j < i + 1 && rv[j].0 == k.0 {
                        let j = choose|j: int| 0 <= j < i + 1 && rv[j].0 == k.0;
                        if j == i {
                            assert(k == (rows@[i as int].0@, cm));
                        }
                    }
                    if k == (rows@[i as int].0@, cm) {
                        assert(rv[i as int].0 == k.0);
                    }
                }
            }
            i = i + 1;
        }
        proof {
            let listed = Set::new(|k: (Seq<char>, ColumnModel)| k.1 == cm && exists|j: int| 0 <= j < rows@.len() && rv[j].0 == k.0);
            let wanted = prefix_keys(prefix@, cm);
            let f = pairs.filter(row_starts_with(prefix@));
            assert(rv == f);
            assert forall|k: (Seq<char>, ColumnModel)| c0.contains_key(k) implies listed.contains(k) == wanted.contains(k) by {
                if listed.contains(k) {
                    let j = choose|j: int| 0 <= j < rows@.len() && rv[j].0 == k.0;
                    pairs.lemma_filter_pred(row_starts_with(prefix@), j);
                }
                if wanted.contains(k) {
                    assert(as_map(pairs).contains_key(k.0)) by {
                        assert(c0.contains_key(k));
                    }
                    assert(crate::strmap::lookup(pairs, k.0) is Some);
                    let idx = choose|idx: int| 0 <= idx < pairs.len() && (#[trigger] pairs[idx]).0 == k.0;
                    pairs.lemma_filter_contains(row_starts_with(prefix@), idx);
                    let j = choose|j: int| 0 <= j < f.len() && f[j] == pairs[idx];
                    assert(rv[j].0 == k.0);
                }
            }
            assert(c0.remove_keys(listed) =~= c0.remove_keys(wanted));
        }
    }
}

} // verus!
