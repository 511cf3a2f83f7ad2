use vstd::prelude::*;

use crate::fluo_pcj::metadata::{
    FilterMetadata, FilterMetadataModel, FluoQuery, JoinMetadata, JoinMetadataModel, JoinType,
    QueryMetadata, StatementPatternMetadata, StatementPatternMetadataModel,
};
use crate::fluo_pcj::sparql::{
    body_spec, extract_filters, extract_optional_patterns, filter_model, filters_spec,
    optionals_spec, parse_patterns, parse_select_vars, patterns_spec, select_vars_spec,
    sparql_body, FilterExpression, FilterModel,
};
use crate::fluo_pcj::{
    fluo_pattern_model, pattern_text, pattern_vars, statement_pattern_to_string, FluoPatternModel,
    FluoStatementPattern,
};
use crate::pcj::VariableOrder;
use crate::seqs::first_index_of;
use crate::sorted::{
    insert_sorted_string, insertion_point, lemma_sorted_names, sorted_names, strictly_sorted,
    upsert_sorted,
};
use crate::text::{to_owned, views};

verus! {

/// A statement pattern of a plan with its node id.
pub struct PlannedPattern {
    pub node_id: String,
    pub pattern: FluoStatementPattern,
}

pub struct PlannedPatternModel {
    pub node_id: Seq<char>,
    pub pattern: FluoPatternModel,
}

impl PlannedPattern {
    pub open spec fn model(self) -> PlannedPatternModel {
        PlannedPatternModel { node_id: self.node_id@, pattern: fluo_pattern_model(self.pattern) }
    }

    /// The pattern's variables in increasing order.
    pub fn variable_order(&self) -> (r: VariableOrder)
        ensures
            r@ == sorted_names(pattern_vars(fluo_pattern_model(self.pattern))),
    {
        let vars = self.pattern.variables();
        proof {
            lemma_sorted_names(views(vars@));
        }
        VariableOrder::new(vars)
    }
}

impl Clone for PlannedPattern {
    fn clone(&self) -> (r: Self)
        ensures
            r.model() == self.model(),
    {
        PlannedPattern { node_id: self.node_id.clone(), pattern: self.pattern.clone() }
    }
}

/// A filter of a plan with its node id and its position among the query's filters.
pub struct PlannedFilter {
    pub node_id: String,
    pub index: usize,
    pub expression: FilterExpression,
}

pub struct PlannedFilterModel {
    pub node_id: Seq<char>,
    pub index: int,
    pub expression: FilterModel,
}

impl PlannedFilter {
    pub open spec fn model(self) -> PlannedFilterModel {
        PlannedFilterModel {
            node_id: self.node_id@,
            index: self.index as int,
            expression: filter_model(self.expression),
        }
    }
}

impl Clone for PlannedFilter {
    fn clone(&self) -> (r: Self)
        ensures
            r.model() == self.model(),
    {
        PlannedFilter { node_id: self.node_id.clone(), index: self.index, expression: self.expression.clone() }
    }
}

/// The plan of a query: its projection, its required and optional patterns, its filters and
/// the ids of its nodes.
pub struct QueryPlan {
    pub sparql: String,
    pub projected_vars: Vec<String>,
    pub patterns: Vec<PlannedPattern>,
    pub optional_patterns: Vec<PlannedPattern>,
    pub filters: Vec<PlannedFilter>,
    pub query_id: String,
    pub root_child_id: String,
    pub join_node_id: Option<String>,
}

pub struct QueryPlanModel {
    pub sparql: Seq<char>,
    pub projected_vars: Seq<Seq<char>>,
    pub patterns: Seq<PlannedPatternModel>,
    pub optional_patterns: Seq<PlannedPatternModel>,
    pub filters: Seq<PlannedFilterModel>,
    pub query_id: Seq<char>,
    pub root_child_id: Seq<char>,
    pub join_node_id: Option<Seq<char>>,
}

pub open spec fn planned_models(v: Seq<PlannedPattern>) -> Seq<PlannedPatternModel> {
    v.map_values(|p: PlannedPattern| p.model())
}

pub open spec fn filter_plan_models(v: Seq<PlannedFilter>) -> Seq<PlannedFilterModel> {
    v.map_values(|f: PlannedFilter| f.model())
}

impl QueryPlan {
    pub open spec fn model(self) -> QueryPlanModel {
        QueryPlanModel {
            sparql: self.sparql@,
            projected_vars: views(self.projected_vars@),
            patterns: planned_models(self.patterns@),
            optional_patterns: planned_models(self.optional_patterns@),
            filters: filter_plan_models(self.filters@),
            query_id: self.query_id@,
            root_child_id: self.root_child_id@,
            join_node_id: crate::domain::opt_view(self.join_node_id),
        }
    }
}

// ---------------------------------------------------------------------------
// Parsing
// ---------------------------------------------------------------------------

/// The parts a query is parsed into: projection, required patterns, optional patterns and
/// filters; or the first fault met.
pub open spec fn plan_parts_spec(q: Seq<char>) -> Result<
    (Seq<Seq<char>>, Seq<FluoPatternModel>, Seq<FluoPatternModel>, Seq<FilterModel>),
    Seq<char>,
> {
    match select_vars_spec(q) {
        Err(e) => Err(e),
        Ok(vars) => match body_spec(q) {
            Err(e) => Err(e),
            Ok(body) => match filters_spec(body) {
                Err(e) => Err(e),
                Ok((fs, no_filters)) => match optionals_spec(no_filters) {
                    Err(e) => Err(e),
                    Ok((required, ops)) => match patterns_spec(required) {
                        Err(e) => Err(e),
                        Ok(ps) => if ps.len() == 0 {
                            Err("SPARQL query must contain at least one statement pattern"@)
                        } else {
                            Ok((vars, ps, ops, fs))
                        },
                    },
                },
            },
        },
    }
}

fn unplanned(v: Vec<FluoStatementPattern>) -> (r: Vec<PlannedPattern>)
    ensures
        planned_models(r@) == crate::fluo_pcj::sparql::pattern_models(v@).map_values(
            |p: FluoPatternModel| PlannedPatternModel { node_id: Seq::empty(), pattern: p },
        ),
{
    let mut out: Vec<PlannedPattern> = Vec::new();
    let mut i: usize = 0;
    while i < v.len()
        invariant
            i <= v.len(),
            planned_models(out@) == crate::fluo_pcj::sparql::pattern_models(v@).take(i as int).map_values(
                |p: FluoPatternModel| PlannedPatternModel { node_id: Seq::empty(), pattern: p },
            ),
        decreases v.len() - i,
    {
        let ghost before = out@;
        let item = PlannedPattern { node_id: String::new(), pattern: v[i].clone() };
        assert(item.model() == PlannedPatternModel { node_id: Seq::empty(), pattern: fluo_pattern_model(v@[i as int]) });
        out.push(item);
        assert(planned_models(out@) =~= planned_models(before).push(item.model()));
        assert(crate::fluo_pcj::sparql::pattern_models(v@).take(i + 1) =~= crate::fluo_pcj::sparql::pattern_models(
            v@,
        ).take(i as int).push(fluo_pattern_model(v@[i as int])));
        assert(planned_models(out@) =~= crate::fluo_pcj::sparql::pattern_models(v@).take(i + 1).map_values(
            |p: FluoPatternModel| PlannedPatternModel { node_id: Seq::empty(), pattern: p },
        ));
        i = i + 1;
    }
    assert(crate::fluo_pcj::sparql::pattern_models(v@).take(i as int) =~= crate::fluo_pcj::sparql::pattern_models(v@));
    out
}

/// Whether a parsed plan is the fresh plan of the parts: patterns and filters without node
/// ids, filter `k` numbered `k`.
pub open spec fn parsed_plan(m: QueryPlanModel, q: Seq<char>, parts: (
    Seq<Seq<char>>,
    Seq<FluoPatternModel>,
    Seq<FluoPatternModel>,
    Seq<FilterModel>,
)) -> bool {
    &&& m.sparql == q
    &&& m.projected_vars == parts.0
    &&& m.patterns == parts.1.map_values(|p: FluoPatternModel| PlannedPatternModel { node_id: Seq::empty(), pattern: p })
    &&& m.optional_patterns == parts.2.map_values(
        |p: FluoPatternModel| PlannedPatternModel { node_id: Seq::empty(), pattern: p },
    )
    &&& m.filters.len() == parts.3.len()
    &&& forall|k: int| 0 <= k < m.filters.len() ==> #[trigger] m.filters[k] == (PlannedFilterModel {
        node_id: Seq::empty(),
        index: k,
        expression: parts.3[k],
    })
    &&& m.query_id == Seq::<char>::empty()
    &&& m.root_child_id == Seq::<char>::empty()
    &&& m.join_node_id is None
}

impl QueryPlan {
    /// Parses a query: its projection, body, filters, optional blocks and patterns; a query
    /// without a required pattern is refused.
    pub fn parse(sparql: &str) -> (r: Result<QueryPlan, String>)
        ensures
            match plan_parts_spec(sparql@) {
                Ok(parts) => r matches Ok(p) && parsed_plan(p.model(), sparql@, parts),
                Err(e) => r matches Err(x) && x@ == e,
            },
    {
        let projected_vars = parse_select_vars(sparql)?;
        let body = sparql_body(sparql)?;
        let (filter_expressions, no_filters) = extract_filters(body.as_str())?;
        let (required_body, optional_patterns) = extract_optional_patterns(no_filters.as_str())?;
        let patterns = parse_patterns(required_body.as_str())?;
        if patterns.len() == 0 {
            return Err(to_owned("SPARQL query must contain at least one statement pattern"));
        }
        let mut filters: Vec<PlannedFilter> = Vec::new();
        let mut i: usize = 0;
        while i < filter_expressions.len()
            invariant
                i <= filter_expressions.len(),
                filters@.len() == i,
                forall|k: int| 0 <= k < i ==> #[trigger] filters@[k].model() == (PlannedFilterModel {
                    node_id: Seq::empty(),
                    index: k,
                    expression: filter_model(filter_expressions@[k]),
                }),
            decreases filter_expressions.len() - i,
        {
            filters.push(
                PlannedFilter { node_id: String::new(), index: i, expression: filter_expressions[i].clone() },
            );
            i = i + 1;
        }
        let r = QueryPlan {
            sparql: to_owned(sparql),
            projected_vars,
            patterns: unplanned(patterns),
            optional_patterns: unplanned(optional_patterns),
            filters,
            query_id: String::new(),
            root_child_id: String::new(),
            join_node_id: None,
        };
        proof {
            assert forall|k: int| 0 <= k < r.model().filters.len() implies #[trigger] r.model().filters[k]
                == (PlannedFilterModel {
                node_id: Seq::empty(),
                index: k,
                expression: crate::fluo_pcj::sparql::filter_models(filter_expressions@)[k],
            }) by {
                assert(r.model().filters[k] == r.filters@[k].model());
            }
        }
        Ok(r)
    }
}

// ---------------------------------------------------------------------------
// Variables and the Fluo plan
// ---------------------------------------------------------------------------

/// The variables of the first `n` patterns.
pub open spec fn vars_of_patterns(ps: Seq<PlannedPatternModel>, n: nat) -> Set<Seq<char>>
    decreases n,
{
    if n == 0 || n > ps.len() {
        Set::empty()
    } else {
        vars_of_patterns(ps, (n - 1) as nat) + pattern_vars(ps[n - 1].pattern)
    }
}

/// Every pattern of a plan, required ones first.
pub open spec fn all_patterns(p: QueryPlanModel) -> Seq<PlannedPatternModel> {
    p.patterns + p.optional_patterns
}

/// The variables of all the plan's patterns, in increasing order.
pub open spec fn join_vars(p: QueryPlanModel) -> Seq<Seq<char>> {
    sorted_names(vars_of_patterns(all_patterns(p), all_patterns(p).len()))
}

fn add_pattern_vars(out: &mut Vec<String>, p: &FluoStatementPattern)
    requires
        strictly_sorted(views(old(out)@)),
    ensures
        strictly_sorted(views(final(out)@)),
        views(final(out)@).to_set() == views(old(out)@).to_set() + pattern_vars(fluo_pattern_model(*p)),
{
    let vars = p.variables();
    let mut i: usize = 0;
    while i < vars.len()
        invariant
            i <= vars.len(),
            strictly_sorted(views(out@)),
            views(out@).to_set() == views(old(out)@).to_set() + views(vars@).take(i as int).to_set(),
        decreases vars.len() - i,
    {
        let ghost before = views(out@).to_set();
        insert_sorted_string(out, vars[i].clone());
        assert(views(vars@).take(i + 1).to_set() =~= views(vars@).take(i as int).to_set().insert(vars@[i as int]@)) by {
            assert(views(vars@).take(i + 1) =~= views(vars@).take(i as int).push(vars@[i as int]@));
            crate::pcj::lemma_push_to_set(views(vars@).take(i as int), vars@[i as int]@);
        }
        assert(views(out@).to_set() =~= views(old(out)@).to_set() + views(vars@).take(i + 1).to_set());
        i = i + 1;
    }
    assert(views(vars@).take(i as int) =~= views(vars@));
}

impl QueryPlan {
    /// The variables of all the plan's patterns, each once, in increasing order.
    pub fn join_variables(&self) -> (r: Vec<String>)
        ensures
            views(r@) == join_vars(self.model()),
    {
        let mut out: Vec<String> = Vec::new();
        let ghost all = all_patterns(self.model());
        assert(views(out@).to_set() =~= Set::<Seq<char>>::empty());
        let mut i: usize = 0;
        while i < self.patterns.len()
            invariant
                i <= self.patterns.len(),
                all == all_patterns(self.model()),
                strictly_sorted(views(out@)),
                views(out@).to_set() == vars_of_patterns(all, i as nat),
            decreases self.patterns.len() - i,
        {
            add_pattern_vars(&mut out, &self.patterns[i].pattern);
            assert(all[i as int] == self.patterns@[i as int].model());
            i = i + 1;
        }
        let mut j: usize = 0;
        while j < self.optional_patterns.len()
            invariant
                i == self.patterns.len(),
                j <= self.optional_patterns.len(),
                all == all_patterns(self.model()),
                strictly_sorted(views(out@)),
                views(out@).to_set() == vars_of_patterns(all, (i + j) as nat),
            decreases self.optional_patterns.len() - j,
        {
            add_pattern_vars(&mut out, &self.optional_patterns[j].pattern);
            assert(all[i + j] == self.optional_patterns@[j as int].model());
            j = j + 1;
        }
        proof {
            lemma_sorted_names(views(out@));
        }
        out
    }
}

/// `s` with `x` put under its key: replacing the entry of an equal key, or inserted where the
/// key keeps the keys in increasing order.
pub open spec fn upsert_by<M>(s: Seq<M>, x: M, key: spec_fn(M) -> Seq<char>) -> Seq<M> {
    let ks = s.map_values(key);
    match first_index_of(ks, key(x)) {
        Some(i) => s.update(i, x),
        None => s.insert(choose|i: int| #[trigger] insertion_point(ks, key(x), i), x),
    }
}

pub open spec fn sp_key() -> spec_fn(StatementPatternMetadataModel) -> Seq<char> {
    |m: StatementPatternMetadataModel| m.node_id
}

pub open spec fn filter_key() -> spec_fn(FilterMetadataModel) -> Seq<char> {
    |m: FilterMetadataModel| m.node_id
}

/// The parent of every statement pattern: the join when there is one, else the query.
pub open spec fn sp_parent(p: QueryPlanModel, qid: Seq<char>) -> Seq<char> {
    match p.join_node_id {
        Some(j) => j,
        None => qid,
    }
}

pub open spec fn sp_meta(p: QueryPlanModel, qid: Seq<char>, pp: PlannedPatternModel) -> StatementPatternMetadataModel {
    StatementPatternMetadataModel {
        node_id: pp.node_id,
        variable_order: sorted_names(pattern_vars(pp.pattern)),
        statement_pattern: pattern_text(pp.pattern),
        parent_node_id: sp_parent(p, qid),
    }
}

/// The statement-pattern entries after the first `n` patterns are put in.
pub open spec fn sp_entries(p: QueryPlanModel, qid: Seq<char>, n: nat) -> Seq<StatementPatternMetadataModel>
    decreases n,
{
    if n == 0 || n > all_patterns(p).len() {
        Seq::empty()
    } else {
        upsert_by(sp_entries(p, qid, (n - 1) as nat), sp_meta(p, qid, all_patterns(p)[n - 1]), sp_key())
    }
}

/// The node after the join: the first filter, or the query.
pub open spec fn root_after_join(p: QueryPlanModel, qid: Seq<char>) -> Seq<char> {
    if p.filters.len() > 0 {
        p.filters[0].node_id
    } else {
        qid
    }
}

/// The join entry of the plan, when it has a join node.
pub open spec fn join_entries(p: QueryPlanModel, qid: Seq<char>) -> Seq<JoinMetadataModel> {
    match p.join_node_id {
        None => Seq::empty(),
        Some(j) => seq![
            JoinMetadataModel {
                node_id: j,
                variable_order: join_vars(p),
                join_type: if p.optional_patterns.len() == 0 {
                    JoinType::NaturalJoin
                } else {
                    JoinType::LeftOuterJoin
                },
                parent_node_id: root_after_join(p, qid),
                left_child_node_id: p.patterns[0].node_id,
                right_child_node_id: if p.optional_patterns.len() > 0 {
                    p.optional_patterns[0].node_id
                } else if p.patterns.len() > 1 {
                    p.patterns[1].node_id
                } else {
                    p.patterns[0].node_id
                },
            },
        ],
    }
}

/// The metadata of filter `idx`: its parent is the next filter or the query, its child the
/// previous filter, or the join, or the first pattern.
pub open spec fn filter_meta(p: QueryPlanModel, qid: Seq<char>, idx: int) -> FilterMetadataModel {
    FilterMetadataModel {
        node_id: p.filters[idx].node_id,
        variable_order: join_vars(p),
        original_sparql: p.sparql,
        filter_index_within_sparql: p.filters[idx].index,
        parent_node_id: if idx + 1 < p.filters.len() {
            p.filters[idx + 1].node_id
        } else {
            qid
        },
        child_node_id: if idx == 0 {
            match p.join_node_id {
                Some(j) => j,
                None => p.patterns[0].node_id,
            }
        } else {
            p.filters[idx - 1].node_id
        },
    }
}

/// The filter entries after the first `n` filters are put in.
pub open spec fn filter_entries(p: QueryPlanModel, qid: Seq<char>, n: nat) -> Seq<FilterMetadataModel>
    decreases n,
{
    if n == 0 || n > p.filters.len() {
        Seq::empty()
    } else {
        upsert_by(filter_entries(p, qid, (n - 1) as nat), filter_meta(p, qid, n - 1), filter_key())
    }
}

pub open spec fn sp_models(v: Seq<StatementPatternMetadata>) -> Seq<StatementPatternMetadataModel> {
    v.map_values(|m: StatementPatternMetadata| m.model())
}

pub open spec fn filter_meta_models(v: Seq<FilterMetadata>) -> Seq<FilterMetadataModel> {
    v.map_values(|m: FilterMetadata| m.model())
}

pub open spec fn join_models(v: Seq<JoinMetadata>) -> Seq<JoinMetadataModel> {
    v.map_values(|m: JoinMetadata| m.model())
}

fn clone_opt_string(o: &Option<String>) -> (r: Option<String>)
    ensures
        crate::domain::opt_view(r) == crate::domain::opt_view(*o),
{
    crate::domain::opt_clone(o)
}

impl QueryPlan {
    fn put_pattern(
        &self,
        keys: &mut Vec<String>,
        items: &mut Vec<StatementPatternMetadata>,
        pattern: &PlannedPattern,
        query_id: &String,
    )
        requires
            strictly_sorted(views(old(keys)@)),
            old(keys)@.len() == old(items)@.len(),
            views(old(keys)@) == sp_models(old(items)@).map_values(sp_key()),
        ensures
            strictly_sorted(views(final(keys)@)),
            final(keys)@.len() == final(items)@.len(),
            views(final(keys)@) == sp_models(final(items)@).map_values(sp_key()),
            sp_models(final(items)@) == upsert_by(
                sp_models(old(items)@),
                sp_meta(self.model(), query_id@, pattern.model()),
                sp_key(),
            ),
    {
        let parent = match &self.join_node_id {
            Some(j) => j.clone(),
            None => query_id.clone(),
        };
        let meta = StatementPatternMetadata {
            node_id: pattern.node_id.clone(),
            variable_order: pattern.variable_order(),
            statement_pattern: statement_pattern_to_string(&pattern.pattern),
            parent_node_id: parent,
        };
        let ghost m = meta.model();
        let ghost mv = meta;
        let ghost old_items = items@;
        let key = pattern.node_id.clone();
        upsert_sorted(keys, items, key, meta);
        proof {
            let ks = views(old(keys)@);
            crate::seqs::lemma_first_index_of(ks, pattern.node_id@);
            match first_index_of(ks, pattern.node_id@) {
                Some(i) => {
                    assert(items@ == old_items.update(i, mv));
                    assert(sp_models(items@) =~= sp_models(old_items).update(i, m));
                },
                None => {
                    let c = choose|i: int| insertion_point(ks, pattern.node_id@, i);
                    assert(items@ == old_items.insert(c, mv));
                    assert(sp_models(items@) =~= sp_models(old_items).insert(c, m));
                },
            }
            assert(views(keys@) =~= sp_models(items@).map_values(sp_key()));
        }
    }

    fn put_filter(
        &self,
        keys: &mut Vec<String>,
        items: &mut Vec<FilterMetadata>,
        idx: usize,
        query_id: &String,
        join_vars_v: &Vec<String>,
    )
        requires
            strictly_sorted(views(old(keys)@)),
            old(keys)@.len() == old(items)@.len(),
            views(old(keys)@) == filter_meta_models(old(items)@).map_values(filter_key()),
            idx < self.filters.len(),
            self.patterns.len() > 0,
            views(join_vars_v@) == join_vars(self.model()),
        ensures
            strictly_sorted(views(final(keys)@)),
            final(keys)@.len() == final(items)@.len(),
            views(final(keys)@) == filter_meta_models(final(items)@).map_values(filter_key()),
            filter_meta_models(final(items)@) == upsert_by(
                filter_meta_models(old(items)@),
                filter_meta(self.model(), query_id@, idx as int),
                filter_key(),
            ),
    {
        let filter = &self.filters[idx];
        let parent = if idx + 1 < self.filters.len() {
            self.filters[idx + 1].node_id.clone()
        } else {
            query_id.clone()
        };
        let child = if idx == 0 {
            match &self.join_node_id {
                Some(j) => j.clone(),
                None => self.patterns[0].node_id.clone(),
            }
        } else {
            self.filters[idx - 1].node_id.clone()
        };
        let meta = FilterMetadata {
            node_id: filter.node_id.clone(),
            variable_order: VariableOrder::new(crate::pcj::clone_strings(join_vars_v)),
            original_sparql: self.sparql.clone(),
            filter_index_within_sparql: filter.index,
            parent_node_id: parent,
            child_node_id: child,
        };
        let ghost m = meta.model();
        assert(m == filter_meta(self.model(), query_id@, idx as int));
        let ghost mv = meta;
        let ghost old_items = items@;
        let key = filter.node_id.clone();
        upsert_sorted(keys, items, key, meta);
        proof {
            let ks = views(old(keys)@);
            crate::seqs::lemma_first_index_of(ks, filter.node_id@);
            match first_index_of(ks, filter.node_id@) {
                Some(i) => {
                    assert(items@ == old_items.update(i, mv));
                    assert(filter_meta_models(items@) =~= filter_meta_models(old_items).update(i, m));
                },
                None => {
                    let c = choose|i: int| insertion_point(ks, filter.node_id@, i);
                    assert(items@ == old_items.insert(c, mv));
                    assert(filter_meta_models(items@) =~= filter_meta_models(old_items).insert(c, m));
                },
            }
            assert(views(keys@) =~= filter_meta_models(items@).map_values(filter_key()));
        }
    }

    /// The Fluo plan of the query: the root under `query_id` with `child_id` and
    /// `query_order`, and the metadata of every pattern, filter and join node.
    pub fn to_fluo_query(&self, query_id: String, child_id: String, query_order: VariableOrder) -> (r: FluoQuery)
        requires
            self.patterns.len() > 0,
        ensures
            r.query_metadata.node_id@ == query_id@,
            r.query_metadata.variable_order@ == query_order@,
            r.query_metadata.sparql@ == self.sparql@,
            r.query_metadata.child_node_id@ == child_id@,
            sp_models(r.statement_patterns@) == sp_entries(self.model(), query_id@, all_patterns(self.model()).len()),
            filter_meta_models(r.filters@) == filter_entries(self.model(), query_id@, self.filters@.len()),
            join_models(r.joins@) == join_entries(self.model(), query_id@),
    {
        let ghost pm = self.model();
        let mut sp_keys: Vec<String> = Vec::new();
        let mut sps: Vec<StatementPatternMetadata> = Vec::new();
        assert(views(sp_keys@) =~= sp_models(sps@).map_values(sp_key()));
        let mut i: usize = 0;
        while i < self.patterns.len()
            invariant
                i <= self.patterns.len(),
                pm == self.model(),
                strictly_sorted(views(sp_keys@)),
                sp_keys@.len() == sps@.len(),
                views(sp_keys@) == sp_models(sps@).map_values(sp_key()),
                sp_models(sps@) == sp_entries(pm, query_id@, i as nat),
            decreases self.patterns.len() - i,
        {
            assert(all_patterns(pm)[i as int] == self.patterns@[i as int].model());
            self.put_pattern(&mut sp_keys, &mut sps, &self.patterns[i], &query_id);
            i = i + 1;
        }
        let mut j: usize = 0;
        while j < self.optional_patterns.len()
            invariant
                i == self.patterns.len(),
                j <= self.optional_patterns.len(),
                pm == self.model(),
                strictly_sorted(views(sp_keys@)),
                sp_keys@.len() == sps@.len(),
                views(sp_keys@) == sp_models(sps@).map_values(sp_key()),
                sp_models(sps@) == sp_entries(pm, query_id@, (i + j) as nat),
            decreases self.optional_patterns.len() - j,
        {
            assert(all_patterns(pm)[i + j] == self.optional_patterns@[j as int].model());
            self.put_pattern(&mut sp_keys, &mut sps, &self.optional_patterns[j], &query_id);
            j = j + 1;
        }
        let join_vars_v = self.join_variables();
        let mut joins: Vec<JoinMetadata> = Vec::new();
        match &self.join_node_id {
            Some(join_id) => {
                let right = if self.optional_patterns.len() > 0 {
                    self.optional_patterns[0].node_id.clone()
                } else if self.patterns.len() > 1 {
                    self.patterns[1].node_id.clone()
                } else {
                    self.patterns[0].node_id.clone()
                };
                let parent = if self.filters.len() > 0 {
                    self.filters[0].node_id.clone()
                } else {
                    query_id.clone()
                };
                let join_type = if self.optional_patterns.len() == 0 {
                    JoinType::NaturalJoin
                } else {
                    JoinType::LeftOuterJoin
                };
                joins.push(
                    JoinMetadata {
                        node_id: join_id.clone(),
                        variable_order: VariableOrder::new(crate::pcj::clone_strings(&join_vars_v)),
                        join_type,
                        parent_node_id: parent,
                        left_child_node_id: self.patterns[0].node_id.clone(),
                        right_child_node_id: right,
                    },
                );
                assert(join_models(joins@) =~= join_entries(pm, query_id@));
            },
            None => {
                assert(join_models(joins@) =~= join_entries(pm, query_id@));
            },
        }
        let mut f_keys: Vec<String> = Vec::new();
        let mut fs: Vec<FilterMetadata> = Vec::new();
        assert(views(f_keys@) =~= filter_meta_models(fs@).map_values(filter_key()));
        let mut k: usize = 0;
        while k < self.filters.len()
            invariant
                k <= self.filters.len(),
                self.patterns.len() > 0,
                pm == self.model(),
                views(join_vars_v@) == join_vars(pm),
                strictly_sorted(views(f_keys@)),
                f_keys@.len() == fs@.len(),
                views(f_keys@) == filter_meta_models(fs@).map_values(filter_key()),
                filter_meta_models(fs@) == filter_entries(pm, query_id@, k as nat),
            decreases self.filters.len() - k,
        {
            self.put_filter(&mut f_keys, &mut fs, k, &query_id, &join_vars_v);
            k = k + 1;
        }
        FluoQuery {
            query_metadata: QueryMetadata {
                node_id: query_id,
                variable_order: query_order,
                sparql: self.sparql.clone(),
                child_node_id: child_id,
            },
            statement_patterns: sps,
            filters: fs,
            joins,
        }
    }
}

} // verus!
