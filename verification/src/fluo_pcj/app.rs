use vstd::prelude::*;

use crate::domain::{RyaStatement, RyaStatementModel};
use crate::fluo_pcj::columns::{
    filter_binding_set, filter_binding_set_spec, join_binding_set, join_binding_set_spec,
    query_binding_set, query_binding_set_spec, query_id, query_id_spec,
    query_rya_export_table_name, query_rya_export_table_name_spec, statement_pattern_binding_set,
    statement_pattern_binding_set_spec, triples, triples_spec,
};
use crate::fluo_pcj::eval::{
    evaluate_plan, jobs_run, lemma_jobs_stop, plan_eval, plan_jobs, plan_rows_model, row_lists,
    write_binding_rows, PlanRows, WriteJob,
};
use crate::fluo_pcj::metadata::{
    fluo_query_written, Cells, FilterMetadataModel, FluoQuery, FluoQueryMetadataDao, JoinMetadataModel,
    StatementPatternMetadataModel,
};
use crate::fluo_pcj::plan::{
    all_patterns, filter_entries, filter_meta_models, join_entries, join_models, join_vars, parsed_plan,
    plan_parts_spec, sp_entries, sp_models, QueryPlan, QueryPlanModel,
};
use crate::fluo_pcj::sparql::FilterModel;
use crate::fluo_pcj::FluoPatternModel;
use crate::sorted::insertion_point;
use crate::fluo_pcj::rows::{row_model, row_models, visible_models, RowModel, VisibleModel, VisibleStatement};
use crate::pcj::binding::BindingSet;
use crate::fluo_pcj::{
    column_model, prefix_keys, spo_format, spo_text, ColumnModel, FluoColumn, InMemoryFluo,
    FILTER_PREFIX, JOIN_PREFIX, NODEID_BS_DELIM, QUERY_PREFIX, SP_PREFIX,
};
use crate::fluo_pcj::plan::{PlannedFilter, PlannedFilterModel, PlannedPattern, PlannedPatternModel};
use crate::pcj::{
    all_entries, distinct_orders, entries_set, orders_set, orders_view, rotation, InMemoryPcjTables, PcjCardinalityUpdate,
    PcjCardinalityUpdateStrategy, PcjMetadata, VariableOrder, VisibilityBindingSet,
};
use crate::text::lex_lt;
use crate::text::{concat, push_char, push_str, to_owned, views};

verus! {

// ---------------------------------------------------------------------------
// Clearing the result rows of a plan
// ---------------------------------------------------------------------------

/// The columns that hold result rows.
pub open spec fn result_columns() -> Seq<ColumnModel> {
    seq![
        statement_pattern_binding_set_spec(),
        join_binding_set_spec(),
        filter_binding_set_spec(),
        query_binding_set_spec(),
    ]
}

/// The result cells of the given nodes: rows that start with a node and `<<:>>`, in a result
/// column.
pub open spec fn nodes_keys(nodes: Seq<Seq<char>>) -> Set<(Seq<char>, ColumnModel)> {
    Set::new(
        |k: (Seq<char>, ColumnModel)| result_columns().contains(k.1) && exists|i: int|
            0 <= i < nodes.len() && crate::text::starts_with_seq(k.0, nodes[i] + NODEID_BS_DELIM@),
    )
}

/// The nodes of a plan: patterns, optional patterns, the join, filters and the query.
pub open spec fn plan_nodes(p: QueryPlanModel) -> Seq<Seq<char>> {
    p.patterns.map_values(|x: crate::fluo_pcj::plan::PlannedPatternModel| x.node_id)
        + p.optional_patterns.map_values(|x: crate::fluo_pcj::plan::PlannedPatternModel| x.node_id)
        + match p.join_node_id {
        Some(j) => seq![j],
        None => Seq::empty(),
    } + p.filters.map_values(|x: crate::fluo_pcj::plan::PlannedFilterModel| x.node_id) + seq![p.query_id]
}

fn plan_node_ids(plan: &QueryPlan) -> (r: Vec<String>)
    ensures
        views(r@) == plan_nodes(plan.model()),
{
    let ghost pm = plan.model();
    let mut out: Vec<String> = Vec::new();
    let mut i: usize = 0;
    while i < plan.patterns.len()
        invariant
            i <= plan.patterns.len(),
            pm == plan.model(),
            views(out@) == pm.patterns.map_values(|x: crate::fluo_pcj::plan::PlannedPatternModel| x.node_id).take(i as int),
        decreases plan.patterns.len() - i,
    {
        let ghost before = views(out@);
        out.push(plan.patterns[i].node_id.clone());
        assert(views(out@) =~= before.push(pm.patterns[i as int].node_id));
        assert(pm.patterns.map_values(|x: crate::fluo_pcj::plan::PlannedPatternModel| x.node_id).take(i + 1)
            =~= before.push(pm.patterns[i as int].node_id));
        i = i + 1;
    }
    let ghost a = views(out@);
    assert(a =~= pm.patterns.map_values(|x: crate::fluo_pcj::plan::PlannedPatternModel| x.node_id));
    let mut j: usize = 0;
    while j < plan.optional_patterns.len()
        invariant
            j <= plan.optional_patterns.len(),
            pm == plan.model(),
            views(out@) == a + pm.optional_patterns.map_values(|x: crate::fluo_pcj::plan::PlannedPatternModel| x.node_id).take(
                j as int,
            ),
        decreases plan.optional_patterns.len() - j,
    {
        let ghost before = views(out@);
        out.push(plan.optional_patterns[j].node_id.clone());
        assert(views(out@) =~= before.push(pm.optional_patterns[j as int].node_id));
        assert(a + pm.optional_patterns.map_values(|x: crate::fluo_pcj::plan::PlannedPatternModel| x.node_id).take(j + 1)
            =~= before.push(pm.optional_patterns[j as int].node_id));
        j = j + 1;
    }
    let ghost b = views(out@);
    assert(b =~= a + pm.optional_patterns.map_values(|x: crate::fluo_pcj::plan::PlannedPatternModel| x.node_id));
    match &plan.join_node_id {
        Some(jid) => {
            out.push(jid.clone());
        },
        None => {},
    }
    let ghost c = views(out@);
    assert(c =~= b + match pm.join_node_id {
        Some(j) => seq![j],
        None => Seq::<Seq<char>>::empty(),
    });
    let mut k: usize = 0;
    while k < plan.filters.len()
        invariant
            k <= plan.filters.len(),
            pm == plan.model(),
            views(out@) == c + pm.filters.map_values(|x: crate::fluo_pcj::plan::PlannedFilterModel| x.node_id).take(k as int),
        decreases plan.filters.len() - k,
    {
        let ghost before = views(out@);
        out.push(plan.filters[k].node_id.clone());
        assert(views(out@) =~= before.push(pm.filters[k as int].node_id));
        assert(c + pm.filters.map_values(|x: crate::fluo_pcj::plan::PlannedFilterModel| x.node_id).take(k + 1)
            =~= before.push(pm.filters[k as int].node_id));
        k = k + 1;
    }
    let ghost d = views(out@);
    assert(d =~= c + pm.filters.map_values(|x: crate::fluo_pcj::plan::PlannedFilterModel| x.node_id));
    out.push(plan.query_id.clone());
    assert(views(out@) =~= d + seq![pm.query_id]);
    out
}

/// Removes every result row of the plan's nodes.
pub fn clear_result_rows_for(fluo: &mut InMemoryFluo, plan: &QueryPlan)
    ensures
        final(fluo).cells() == old(fluo).cells().remove_keys(nodes_keys(plan_nodes(plan.model()))),
{
    let nodes = plan_node_ids(plan);
    let ghost ns = views(nodes@);
    let ghost c0 = fluo.cells();
    let mut i: usize = 0;
    assert(c0.remove_keys(nodes_keys(ns.take(0))) =~= c0);
    while i < nodes.len()
        invariant
            i <= nodes.len(),
            ns == views(nodes@),
            c0 == old(fluo).cells(),
            fluo.cells() == c0.remove_keys(nodes_keys(ns.take(i as int))),
        decreases nodes.len() - i,
    {
        let prefix = concat(nodes[i].as_str(), NODEID_BS_DELIM);
        let ghost before = fluo.cells();
        fluo.delete_prefix(prefix.as_str(), statement_pattern_binding_set());
        fluo.delete_prefix(prefix.as_str(), join_binding_set());
        fluo.delete_prefix(prefix.as_str(), filter_binding_set());
        fluo.delete_prefix(prefix.as_str(), query_binding_set());
        proof {
            let cols = result_columns();
            let node_set = Set::new(
                |k: (Seq<char>, ColumnModel)| cols.contains(k.1) && crate::text::starts_with_seq(k.0, prefix@),
            );
            assert(nodes_keys(ns.take(i + 1)) =~= nodes_keys(ns.take(i as int)).union(node_set)) by {
                assert forall|k: (Seq<char>, ColumnModel)| nodes_keys(ns.take(i + 1)).contains(k) == nodes_keys(
                    ns.take(i as int),
                ).union(node_set).contains(k) by {
                    if nodes_keys(ns.take(i + 1)).contains(k) {
                        let j = choose|j: int| 0 <= j < ns.take(i + 1).len() && crate::text::starts_with_seq(
                            k.0,
                            (#[trigger] ns.take(i + 1)[j]) + NODEID_BS_DELIM@,
                        );
                        if j < i {
                            assert(ns.take(i as int)[j] == ns.take(i + 1)[j]);
                        } else {
                            assert(ns.take(i + 1)[j] == nodes@[i as int]@);
                        }
                    }
                    if nodes_keys(ns.take(i as int)).contains(k) {
                        let j = choose|j: int| 0 <= j < ns.take(i as int).len() && crate::text::starts_with_seq(
                            k.0,
                            (#[trigger] ns.take(i as int)[j]) + NODEID_BS_DELIM@,
                        );
                        assert(ns.take(i + 1)[j] == ns.take(i as int)[j]);
                    }
                    if node_set.contains(k) {
                        assert(ns.take(i + 1)[i as int] == nodes@[i as int]@);
                    }
                }
            }
            assert forall|k: (Seq<char>, ColumnModel)| node_set.contains(k) == (prefix_keys(prefix@, cols[0]).contains(k)
                || prefix_keys(prefix@, cols[1]).contains(k) || prefix_keys(prefix@, cols[2]).contains(k)
                || prefix_keys(prefix@, cols[3]).contains(k)) by {
                if cols.contains(k.1) {
                    let ci = choose|ci: int| 0 <= ci < cols.len() && #[trigger] cols[ci] == k.1;
                }
                if k.1 == cols[0] || k.1 == cols[1] || k.1 == cols[2] || k.1 == cols[3] {
                    assert(cols.contains(k.1));
                }
            }
            assert(fluo.cells() =~= c0.remove_keys(nodes_keys(ns.take(i + 1))));
        }
        i = i + 1;
    }
    assert(ns.take(i as int) =~= ns);
}

// ---------------------------------------------------------------------------
// Running the writes of a recomputation
// ---------------------------------------------------------------------------

/// Writes the rows of a recomputation, in the order of [`plan_jobs`]; the first failing write
/// stops the rest.
pub fn write_plan_rows(fluo: &mut InMemoryFluo, plan: &QueryPlan, query_id: &str, rows: &PlanRows) -> (r: Result<
    (),
    String,
>)
    requires
        rows.pattern_rows@.len() == plan.patterns@.len(),
        rows.optional_rows@.len() == plan.optional_patterns@.len(),
        rows.filter_rows@.len() == plan.filters@.len(),
        plan.patterns@.len() + plan.optional_patterns@.len() + plan.filters@.len() + 2 <= usize::MAX,
    ensures
        ({
            let jobs = plan_jobs(plan.model(), query_id@, plan_rows_model(*rows));
            let (c, e) = jobs_run(old(fluo).cells(), jobs, jobs.len());
            &&& final(fluo).cells() == c
            &&& match e {
                Some(m) => r matches Err(x) && x@ == m,
                None => r is Ok,
            }
        }),
{
    let ghost pm = plan.model();
    let ghost jobs = plan_jobs(pm, query_id@, plan_rows_model(*rows));
    let ghost c0 = fluo.cells();
    let ghost np = plan.patterns@.len();
    let ghost no = plan.optional_patterns@.len();
    let ghost nj: int = if plan.join_node_id is Some { 1 } else { 0 };
    let ghost nf = plan.filters@.len();
    assert(jobs.len() == np + no + nj + nf + 1);
    let mut i: usize = 0;
    while i < plan.patterns.len()
        invariant
            i <= plan.patterns.len(),
            pm == plan.model(),
            jobs == plan_jobs(pm, query_id@, plan_rows_model(*rows)),
            c0 == old(fluo).cells(),
            rows.pattern_rows@.len() == plan.patterns@.len(),
            jobs.len() == np + no + nj + nf + 1,
            np == plan.patterns@.len(),
            jobs_run(c0, jobs, i as nat) == (fluo.cells(), None::<Seq<char>>),
        decreases plan.patterns.len() - i,
    {
        let p = &plan.patterns[i];
        let order = p.variable_order();
        assert(jobs[i as int] == (WriteJob {
            node: p.node_id@,
            column: statement_pattern_binding_set_spec(),
            order: order@,
            rows: row_models(rows.pattern_rows@[i as int]@),
        }));
        match write_binding_rows(fluo, p.node_id.as_str(), statement_pattern_binding_set(), &order, &rows.pattern_rows[i]) {
            Ok(()) => {},
            Err(e) => {
                proof {
                    lemma_jobs_stop(c0, jobs, (i + 1) as nat, jobs.len());
                }
                return Err(e);
            },
        }
        i = i + 1;
    }
    let mut j: usize = 0;
    while j < plan.optional_patterns.len()
        invariant
            j <= plan.optional_patterns.len(),
            i == plan.patterns.len(),
            pm == plan.model(),
            jobs == plan_jobs(pm, query_id@, plan_rows_model(*rows)),
            c0 == old(fluo).cells(),
            rows.optional_rows@.len() == plan.optional_patterns@.len(),
            jobs.len() == np + no + nj + nf + 1,
            np == plan.patterns@.len(),
            no == plan.optional_patterns@.len(),
            np + no + nf + 2 <= usize::MAX,
            nf == plan.filters@.len(),
            jobs_run(c0, jobs, (i + j) as nat) == (fluo.cells(), None::<Seq<char>>),
        decreases plan.optional_patterns.len() - j,
    {
        let p = &plan.optional_patterns[j];
        let order = p.variable_order();
        assert(jobs[i + j] == (WriteJob {
            node: p.node_id@,
            column: statement_pattern_binding_set_spec(),
            order: order@,
            rows: row_models(rows.optional_rows@[j as int]@),
        }));
        match write_binding_rows(fluo, p.node_id.as_str(), statement_pattern_binding_set(), &order, &rows.optional_rows[j]) {
            Ok(()) => {},
            Err(e) => {
                proof {
                    lemma_jobs_stop(c0, jobs, (i + j + 1) as nat, jobs.len());
                }
                return Err(e);
            },
        }
        j = j + 1;
    }
    let join_vars_v = plan.join_variables();
    let mut done: usize = i + j;
    match &plan.join_node_id {
        Some(jid) => {
            let order = VariableOrder::new(crate::pcj::clone_strings(&join_vars_v));
            assert(jobs[done as int] == (WriteJob {
                node: jid@,
                column: join_binding_set_spec(),
                order: order@,
                rows: row_models(rows.joined@),
            }));
            match write_binding_rows(fluo, jid.as_str(), join_binding_set(), &order, &rows.joined) {
                Ok(()) => {},
                Err(e) => {
                    proof {
                        lemma_jobs_stop(c0, jobs, (done + 1) as nat, jobs.len());
                    }
                    return Err(e);
                },
            }
            done = done + 1;
        },
        None => {},
    }
    assert(done == np + no + nj);
    let mut k: usize = 0;
    while k < plan.filters.len()
        invariant
            k <= plan.filters.len(),
            done == np + no + nj,
            pm == plan.model(),
            views(join_vars_v@) == join_vars(pm),
            jobs == plan_jobs(pm, query_id@, plan_rows_model(*rows)),
            c0 == old(fluo).cells(),
            rows.filter_rows@.len() == plan.filters@.len(),
            jobs.len() == np + no + nj + nf + 1,
            nf == plan.filters@.len(),
            np + no + nf + 2 <= usize::MAX,
            jobs_run(c0, jobs, (done + k) as nat) == (fluo.cells(), None::<Seq<char>>),
        decreases plan.filters.len() - k,
    {
        let f = &plan.filters[k];
        let order = VariableOrder::new(crate::pcj::clone_strings(&join_vars_v));
        assert(jobs[done + k] == (WriteJob {
            node: f.node_id@,
            column: filter_binding_set_spec(),
            order: order@,
            rows: row_models(rows.filter_rows@[k as int]@),
        }));
        match write_binding_rows(fluo, f.node_id.as_str(), filter_binding_set(), &order, &rows.filter_rows[k]) {
            Ok(()) => {},
            Err(e) => {
                proof {
                    lemma_jobs_stop(c0, jobs, (done + k + 1) as nat, jobs.len());
                }
                return Err(e);
            },
        }
        k = k + 1;
    }
    let order = VariableOrder::new(crate::pcj::clone_strings(&plan.projected_vars));
    assert(jobs[done + k] == (WriteJob {
        node: query_id@,
        column: query_binding_set_spec(),
        order: order@,
        rows: row_models(rows.projected@),
    }));
    write_binding_rows(fluo, query_id, query_binding_set(), &order, &rows.projected)
}


// ---------------------------------------------------------------------------
// Exporting results to the PCJ tables
// ---------------------------------------------------------------------------

/// The tables after the rows are exported to the named table: its old rows purged, the new
/// ones added by the conditional writer.
pub open spec fn exported(
    t0: InMemoryPcjTables,
    t1: InMemoryPcjTables,
    name: Seq<char>,
    rows: Seq<RowModel>,
    r: Result<(), Seq<char>>,
) -> bool {
    &&& forall|n: Seq<char>| n != name ==> #[trigger] t1.table_for(n) == t0.table_for(n)
    &&& match t0.table_for(name) {
        None => r == Err::<(), Seq<char>>("PCJ table does not exist: "@ + name) && t1.table_for(name) is None,
        Some(before) => {
            let os = orders_view(before.meta().var_orders@);
            &&& r is Ok ==> exists|xs: Seq<VisibilityBindingSet>| {
                let after = t1.table_for(name)->0;
                &&& #[trigger] row_models(xs) == rows
                &&& all_entries(xs, os) is Some
                &&& t1.table_for(name) is Some
                &&& after.meta().sparql@ == before.meta().sparql@
                &&& orders_view(after.meta().var_orders@) == os
                &&& after.meta().cardinality == rows.len()
                &&& after.update_log() == before.update_log().push(
                    PcjCardinalityUpdate {
                        strategy: PcjCardinalityUpdateStrategy::ConditionalWriter,
                        previous_cardinality: 0,
                        delta: rows.len() as u64,
                        new_cardinality: rows.len() as u64,
                    },
                )
                &&& entries_set(after.entry_list()) == all_entries(xs, os)->0.to_set()
            }
            &&& r is Err ==> exists|xs: Seq<VisibilityBindingSet>| #[trigger] row_models(xs) == rows && all_entries(xs, os) is None
        },
    }
}

/// Purges the named table and exports the rows to it.
fn export_rows(tables: &mut InMemoryPcjTables, name: &str, rows: &Vec<VisibilityBindingSet>) -> (r: Result<(), String>)
    ensures
        exported(*old(tables), *final(tables), name@, row_models(rows@), match r {
            Ok(()) => Ok::<(), Seq<char>>(()),
            Err(e) => Err(e@),
        }),
{
    let ghost t0 = *tables;
    match tables.purge_pcj_table(name) {
        Ok(()) => {},
        Err(e) => {
            return Err(e);
        },
    }
    let ghost mid = *tables;
    let copy = crate::fluo_pcj::rows::clone_rows(rows);
    let ghost xs = copy@;
    let n = copy.len();
    assert(n as int == copy@.len());
    let r = tables.add_visibility_results(name, copy);
    proof {
        let before = t0.table_for(name@)->0;
        let m = mid.table_for(name@)->0;
        assert(mid.table_for(name@) is Some);
        if r is Ok {
            let after = tables.table_for(name@)->0;
            assert(row_models(xs) == row_models(rows@));
            assert(entries_set(m.entry_list()) =~= Set::<crate::pcj::EntryModel>::empty());
            assert(entries_set(after.entry_list()) =~= all_entries(xs, orders_view(before.meta().var_orders@))->0.to_set());
            let os = orders_view(before.meta().var_orders@);
            assert(all_entries(xs, os) is Some);
            assert(tables.table_for(name@) is Some);
            assert(after.meta().sparql@ == before.meta().sparql@);
            assert(orders_view(after.meta().var_orders@) == os);
            assert(after.meta().cardinality == row_models(rows@).len());
            assert(after.update_log() == before.update_log().push(
                PcjCardinalityUpdate {
                    strategy: PcjCardinalityUpdateStrategy::ConditionalWriter,
                    previous_cardinality: 0,
                    delta: row_models(rows@).len() as u64,
                    new_cardinality: row_models(rows@).len() as u64,
                },
            ));
        }
        if r is Err {
            assert(row_models(xs) == row_models(rows@));
        }
    }
    r
}

// ---------------------------------------------------------------------------
// Recomputing a query
// ---------------------------------------------------------------------------

/// What recomputing a query does: its result rows are cleared and written anew from the
/// statements, node by node, and when it has an export table, its results are exported there.
pub open spec fn recomputed(
    c0: Cells,
    t0: InMemoryPcjTables,
    c1: Cells,
    t1: InMemoryPcjTables,
    p: QueryPlanModel,
    qid: Seq<char>,
    sts: Seq<VisibleModel>,
    r: Result<(), Seq<char>>,
) -> bool {
    let cleared = c0.remove_keys(nodes_keys(plan_nodes(p)));
    let ev = plan_eval(p, sts);
    let jobs = plan_jobs(p, qid, ev);
    let written = jobs_run(cleared, jobs, jobs.len());
    &&& c1 == written.0
    &&& match written.1 {
        Some(e) => r == Err::<(), Seq<char>>(e) && t1 == t0,
        None => {
            let ek = (qid, query_rya_export_table_name_spec());
            if written.0.contains_key(ek) {
                exported(t0, t1, written.0[ek], ev.projected, r)
            } else {
                t1 == t0 && r is Ok
            }
        },
    }
}

/// A plan whose parts fit in memory and that has at least one required pattern.
pub open spec fn plan_ok(p: QueryPlan) -> bool {
    &&& p.patterns@.len() > 0
    &&& p.patterns@.len() + p.optional_patterns@.len() + p.filters@.len() + 2 <= usize::MAX
}

/// The PCJ application over an in-memory Fluo table and in-memory PCJ tables.
pub struct InMemoryFluoPcjApp {
    pub fluo: InMemoryFluo,
    pub pcj_tables: InMemoryPcjTables,
    rya_statements: Vec<VisibleStatement>,
    streamed_statements: Vec<VisibleStatement>,
    query_ids: Vec<String>,
    plans: Vec<QueryPlan>,
    next_id: usize,
}

impl InMemoryFluoPcjApp {
    /// The Fluo table.
    pub closed spec fn fluo_view(self) -> InMemoryFluo {
        self.fluo
    }

    /// The PCJ tables.
    pub closed spec fn tables_view(self) -> InMemoryPcjTables {
        self.pcj_tables
    }

    /// The statements the queries are computed over: the historic ones, then the streamed ones.
    pub closed spec fn statements(self) -> Seq<VisibleModel> {
        visible_models(self.rya_statements@) + visible_models(self.streamed_statements@)
    }

    pub closed spec fn historic(self) -> Seq<VisibleModel> {
        visible_models(self.rya_statements@)
    }

    pub closed spec fn streamed(self) -> Seq<VisibleModel> {
        visible_models(self.streamed_statements@)
    }

    /// The ids of the stored queries, in increasing order.
    pub closed spec fn ids(self) -> Seq<Seq<char>> {
        views(self.query_ids@)
    }

    /// The stored plans, in the order of their ids.
    pub closed spec fn plan_list(self) -> Seq<QueryPlan> {
        self.plans@
    }

    /// The plan stored under an id.
    pub open spec fn plan_for(self, id: Seq<char>) -> Option<QueryPlan> {
        match crate::seqs::first_index_of(self.ids(), id) {
            Some(i) => Some(self.plan_list()[i]),
            None => None,
        }
    }

    /// How many node ids were made.
    pub closed spec fn counter(self) -> nat {
        self.next_id as nat
    }

    /// The ids are in increasing order, one plan each, and every plan is usable.
    pub closed spec fn wf(self) -> bool {
        &&& crate::sorted::strictly_sorted(views(self.query_ids@))
        &&& self.query_ids@.len() == self.plans@.len()
        &&& forall|i: int| 0 <= i < self.plans@.len() ==> #[trigger] plan_ok(self.plans@[i])
    }

    /// Everything but the node counter is the same.
    pub closed spec fn same_but_counter(self, other: Self) -> bool {
        &&& self.fluo == other.fluo
        &&& self.pcj_tables == other.pcj_tables
        &&& self.rya_statements == other.rya_statements
        &&& self.streamed_statements == other.streamed_statements
        &&& self.query_ids == other.query_ids
        &&& self.plans == other.plans
    }

    /// An application with no statements, queries or tables.
    pub fn new() -> (r: Self)
        ensures
            r.wf(),
            r.statements() == Seq::<VisibleModel>::empty(),
            r.ids() == Seq::<Seq<char>>::empty(),
            r.counter() == 0,
            forall|c: ColumnModel| #[trigger] r.fluo_view().column_pairs(c) == Seq::<crate::strmap::EntryText>::empty(),
            forall|n: Seq<char>| #[trigger] r.tables_view().table_for(n) is None,
    {
        let r = InMemoryFluoPcjApp {
            fluo: InMemoryFluo::new(),
            pcj_tables: InMemoryPcjTables::new(),
            rya_statements: Vec::new(),
            streamed_statements: Vec::new(),
            query_ids: Vec::new(),
            plans: Vec::new(),
            next_id: 0,
        };
        assert(r.statements() =~= Seq::<VisibleModel>::empty());
        assert(r.ids() =~= Seq::<Seq<char>>::empty());
        r
    }

    /// Adds a statement that was in the store before the queries: it takes part in later
    /// recomputations, with no visibility.
    pub fn add_historic_statement(&mut self, statement: RyaStatement)
        requires
            old(self).wf(),
        ensures
            final(self).wf(),
            final(self).historic() == old(self).historic().push((statement@, Seq::<char>::empty())),
            final(self).streamed() == old(self).streamed(),
            final(self).ids() == old(self).ids(),
            final(self).plan_list() == old(self).plan_list(),
            final(self).counter() == old(self).counter(),
            final(self).fluo_view() == old(self).fluo_view(),
            final(self).tables_view() == old(self).tables_view(),
    {
        let ghost before = self.rya_statements@;
        let v = VisibleStatement { statement, visibility: String::new() };
        self.rya_statements.push(v);
        assert(visible_models(self.rya_statements@) =~= visible_models(before).push(
            (statement@, Seq::<char>::empty()),
        ));
    }

    /// Recomputes a stored query.
    fn recompute_query(&mut self, query_id: &str) -> (r: Result<(), String>)
        requires
            old(self).wf(),
        ensures
            final(self).wf(),
            final(self).statements() == old(self).statements(),
            final(self).historic() == old(self).historic(),
            final(self).streamed() == old(self).streamed(),
            final(self).ids() == old(self).ids(),
            final(self).plan_list() == old(self).plan_list(),
            final(self).counter() == old(self).counter(),
            match old(self).plan_for(query_id@) {
                None => r matches Err(e) && e@ == "Unknown query id: "@ + query_id@ && final(self).fluo_view()
                    == old(self).fluo_view() && final(self).tables_view() == old(self).tables_view(),
                Some(p) => recomputed(
                    old(self).fluo_view().cells(),
                    old(self).tables_view(),
                    final(self).fluo_view().cells(),
                    final(self).tables_view(),
                    p.model(),
                    query_id@,
                    old(self).statements(),
                    match r {
                        Ok(()) => Ok::<(), Seq<char>>(()),
                        Err(e) => Err(e@),
                    },
                ),
            },
    {
        let mut i: usize = 0;
        while i < self.query_ids.len() && !crate::text::str_eq(self.query_ids[i].as_str(), query_id)
            invariant
                i <= self.query_ids.len(),
                forall|k: int| 0 <= k < i ==> views(self.query_ids@)[k] != query_id@,
            decreases self.query_ids.len() - i,
        {
            i = i + 1;
        }
        if i == self.query_ids.len() {
            proof {
                crate::seqs::lemma_first_index_of_none(views(self.query_ids@), query_id@);
            }
            return Err(concat("Unknown query id: ", query_id));
        }
        let k = i;
        proof {
            crate::seqs::lemma_first_index_of_at(views(self.query_ids@), query_id@, k as int);
        }
        assert(plan_ok(self.plans@[k as int]));
        let plan = &self.plans[k];
        let mut all: Vec<VisibleStatement> = Vec::new();
        let mut a: usize = 0;
        while a < self.rya_statements.len()
            invariant
                a <= self.rya_statements.len(),
                visible_models(all@) == visible_models(self.rya_statements@).take(a as int),
            decreases self.rya_statements.len() - a,
        {
            let ghost before = all@;
            let item = self.rya_statements[a].clone();
            all.push(item);
            assert(visible_models(all@) =~= visible_models(before).push(
                crate::fluo_pcj::rows::visible_model(self.rya_statements@[a as int]),
            ));
            assert(visible_models(self.rya_statements@).take(a + 1) =~= visible_models(self.rya_statements@).take(
                a as int,
            ).push(crate::fluo_pcj::rows::visible_model(self.rya_statements@[a as int])));
            a = a + 1;
        }
        assert(visible_models(self.rya_statements@).take(a as int) =~= visible_models(self.rya_statements@));
        let mut b: usize = 0;
        while b < self.streamed_statements.len()
            invariant
                b <= self.streamed_statements.len(),
                visible_models(all@) == visible_models(self.rya_statements@) + visible_models(
                    self.streamed_statements@,
                ).take(b as int),
            decreases self.streamed_statements.len() - b,
        {
            let ghost before = all@;
            let item = self.streamed_statements[b].clone();
            all.push(item);
            assert(visible_models(all@) =~= visible_models(before).push(
                crate::fluo_pcj::rows::visible_model(self.streamed_statements@[b as int]),
            ));
            assert(visible_models(self.rya_statements@) + visible_models(self.streamed_statements@).take(b + 1)
                =~= visible_models(self.rya_statements@) + visible_models(self.streamed_statements@).take(
                b as int,
            ).push(crate::fluo_pcj::rows::visible_model(self.streamed_statements@[b as int])));
            b = b + 1;
        }
        assert(visible_models(self.streamed_statements@).take(b as int) =~= visible_models(self.streamed_statements@));
        let rows = evaluate_plan(plan, &all);
        let ghost pm = plan.model();
        let ghost c0 = self.fluo.cells();
        let ghost t0 = self.pcj_tables;
        proof {
            crate::fluo_pcj::eval::lemma_pattern_results_len(pm.patterns, visible_models(all@), pm.patterns.len());
            crate::fluo_pcj::eval::lemma_pattern_results_len(pm.optional_patterns, visible_models(all@), pm.optional_patterns.len());
        }
        assert(plan_rows_model(rows).pattern_rows.len() == pm.patterns.len());
        assert(row_lists(rows.pattern_rows@).len() == rows.pattern_rows@.len());
        assert(row_lists(rows.optional_rows@).len() == rows.optional_rows@.len());
        assert(row_lists(rows.filter_rows@).len() == rows.filter_rows@.len());
        clear_result_rows_for(&mut self.fluo, plan);
        match write_plan_rows(&mut self.fluo, plan, query_id, &rows) {
            Ok(()) => {},
            Err(e) => {
                return Err(e);
            },
        }
        let ghost written = self.fluo.cells();
        match self.fluo.get(query_id, query_rya_export_table_name()) {
            Some(name) => {
                let name = name.clone();
                export_rows(&mut self.pcj_tables, name.as_str(), &rows.projected)
            },
            None => Ok(()),
        }
    }
}



// ---------------------------------------------------------------------------
// Node ids
// ---------------------------------------------------------------------------

/// The lower-case hexadecimal digit of `d < 16`.
pub open spec fn hex_char(d: int) -> char {
    if d < 10 {
        ((d + 48) as u8) as char
    } else {
        ((d + 87) as u8) as char
    }
}

/// The last `w` hexadecimal digits of `n`, zero-padded.
pub open spec fn hex_width(n: nat, w: nat) -> Seq<char>
    decreases w,
{
    if w == 0 {
        Seq::empty()
    } else {
        hex_width(n / 16, (w - 1) as nat).push(hex_char((n % 16) as int))
    }
}

/// The id of node number `n` of a kind: the kind's prefix, `_`, 32 hexadecimal digits.
pub open spec fn node_id_text(prefix: Seq<char>, n: nat) -> Seq<char> {
    prefix + seq!['_'] + hex_width(n, 32)
}

fn hex_width_exec(n: u64, w: u64) -> (r: String)
    requires
        w <= 32,
    ensures
        r@ == hex_width(n as nat, w as nat),
    decreases w,
{
    if w == 0 {
        return String::new();
    }
    let mut out = hex_width_exec(n / 16, w - 1);
    let d = n % 16;
    let c: char = if d < 10 {
        ((d + 48) as u8) as char
    } else {
        ((d + 87) as u8) as char
    };
    push_char(&mut out, c);
    out
}

// ---------------------------------------------------------------------------
// Statements streamed into the application
// ---------------------------------------------------------------------------

/// The cells after the statements are recorded under their Fluo text, with their visibility.
pub open spec fn triples_recorded(cells: Cells, ts: Seq<VisibleModel>) -> Cells
    decreases ts.len(),
{
    if ts.len() == 0 {
        cells
    } else {
        triples_recorded(cells, ts.drop_last()).insert((spo_text(ts.last().0), triples_spec()), ts.last().1)
    }
}

/// Recomputing query `k` took the state from step `k` to step `k + 1`.
pub open spec fn step_ok(
    cs: Seq<Cells>,
    ts: Seq<InMemoryPcjTables>,
    plans: Seq<QueryPlan>,
    ids: Seq<Seq<char>>,
    sts: Seq<VisibleModel>,
    k: int,
) -> bool {
    exists|r: Result<(), Seq<char>>| #[trigger] recomputed(cs[k], ts[k], cs[k + 1], ts[k + 1], plans[k].model(), ids[k], sts, r)
}

/// Every stored query was recomputed in turn, in order of id, whatever each gave.
pub open spec fn all_recomputed(
    c0: Cells,
    t0: InMemoryPcjTables,
    c1: Cells,
    t1: InMemoryPcjTables,
    plans: Seq<QueryPlan>,
    ids: Seq<Seq<char>>,
    sts: Seq<VisibleModel>,
) -> bool {
    exists|cs: Seq<Cells>, ts: Seq<InMemoryPcjTables>| #![trigger cs[0], ts[0]] {
        &&& cs.len() == ids.len() + 1
        &&& ts.len() == ids.len() + 1
        &&& cs[0] == c0
        &&& ts[0] == t0
        &&& cs.last() == c1
        &&& ts.last() == t1
        &&& forall|k: int| 0 <= k < ids.len() ==> #[trigger] step_ok(cs, ts, plans, ids, sts, k)
    }
}

pub open spec fn pair_models(v: Seq<(RyaStatement, String)>) -> Seq<VisibleModel> {
    v.map_values(|p: (RyaStatement, String)| (p.0@, p.1@))
}

impl InMemoryFluoPcjApp {
    /// Recomputes every stored query, in order of id; a failing query does not stop the others.
    fn recompute_all_queries(&mut self)
        requires
            old(self).wf(),
        ensures
            final(self).wf(),
            final(self).historic() == old(self).historic(),
            final(self).streamed() == old(self).streamed(),
            final(self).ids() == old(self).ids(),
            final(self).plan_list() == old(self).plan_list(),
            final(self).counter() == old(self).counter(),
            all_recomputed(
                old(self).fluo_view().cells(),
                old(self).tables_view(),
                final(self).fluo_view().cells(),
                final(self).tables_view(),
                old(self).plan_list(),
                old(self).ids(),
                old(self).statements(),
            ),
    {
        let ids = crate::pcj::clone_strings(&self.query_ids);
        let ghost ids0 = self.ids();
        let ghost plans0 = self.plan_list();
        let ghost sts0 = self.statements();
        let ghost mut cs: Seq<Cells> = seq![self.fluo.cells()];
        let ghost mut ts: Seq<InMemoryPcjTables> = seq![self.pcj_tables];
        let mut k: usize = 0;
        while k < ids.len()
            invariant
                k <= ids.len(),
                views(ids@) == ids0,
                self.wf(),
                self.ids() == ids0,
                self.plan_list() == plans0,
                self.historic() == old(self).historic(),
                self.streamed() == old(self).streamed(),
                self.statements() == sts0,
                self.counter() == old(self).counter(),
                ids0 == old(self).ids(),
                plans0 == old(self).plan_list(),
                sts0 == old(self).statements(),
                cs.len() == k + 1,
                ts.len() == k + 1,
                cs[0] == old(self).fluo_view().cells(),
                ts[0] == old(self).tables_view(),
                cs.last() == self.fluo.cells(),
                ts.last() == self.pcj_tables,
                forall|j: int| 0 <= j < k ==> #[trigger] step_ok(cs, ts, plans0, ids0, sts0, j),
            decreases ids.len() - k,
        {
            proof {
                assert forall|j: int| 0 <= j < k implies ids0[j] != ids0[k as int] by {
                    crate::sorted::lemma_sorted_distinct(ids0, j, k as int);
                }
                crate::seqs::lemma_first_index_of_at(ids0, ids0[k as int], k as int);
            }
            let r = self.recompute_query(ids[k].as_str());
            let ghost rm = match r {
                Ok(()) => Ok::<(), Seq<char>>(()),
                Err(e) => Err(e@),
            };
            proof {
                let cs_old = cs;
                let ts_old = ts;
                cs = cs.push(self.fluo.cells());
                ts = ts.push(self.pcj_tables);
                assert(recomputed(cs[k as int], ts[k as int], cs[k + 1], ts[k + 1], plans0[k as int].model(), ids0[k as int], sts0, rm));
                assert(step_ok(cs, ts, plans0, ids0, sts0, k as int));
                assert forall|j: int| 0 <= j < k + 1 implies #[trigger] step_ok(cs, ts, plans0, ids0, sts0, j) by {
                    if j < k {
                        assert(step_ok(cs_old, ts_old, plans0, ids0, sts0, j));
                        assert(cs[j] == cs_old[j] && cs[j + 1] == cs_old[j + 1]);
                        assert(ts[j] == ts_old[j] && ts[j + 1] == ts_old[j + 1]);
                    }
                }
            }
            k = k + 1;
        }
    }

    /// Records streamed statements with their visibility, then recomputes every query.
    pub fn insert_triples_with_visibility(&mut self, triples: Vec<(RyaStatement, String)>)
        requires
            old(self).wf(),
        ensures
            final(self).wf(),
            final(self).historic() == old(self).historic(),
            final(self).streamed() == old(self).streamed() + pair_models(triples@),
            final(self).ids() == old(self).ids(),
            final(self).plan_list() == old(self).plan_list(),
            final(self).counter() == old(self).counter(),
            all_recomputed(
                triples_recorded(old(self).fluo_view().cells(), pair_models(triples@)),
                old(self).tables_view(),
                final(self).fluo_view().cells(),
                final(self).tables_view(),
                old(self).plan_list(),
                old(self).ids(),
                final(self).statements(),
            ),
    {
        let ghost c0 = self.fluo.cells();
        let ghost s0 = self.streamed_statements@;
        let mut i: usize = 0;
        assert(pair_models(triples@).take(0) =~= Seq::<VisibleModel>::empty());
        assert(visible_models(s0) + pair_models(triples@).take(0) =~= visible_models(s0));
        while i < triples.len()
            invariant
                i <= triples.len(),
                c0 == old(self).fluo_view().cells(),
                s0 == old(self).streamed_statements@,
                self.wf(),
                self.ids() == old(self).ids(),
                self.plan_list() == old(self).plan_list(),
                self.historic() == old(self).historic(),
                self.counter() == old(self).counter(),
                self.pcj_tables == old(self).tables_view(),
                self.fluo.cells() == triples_recorded(c0, pair_models(triples@).take(i as int)),
                visible_models(self.streamed_statements@) == visible_models(s0) + pair_models(triples@).take(i as int),
            decreases triples.len() - i,
        {
            let (triple, visibility) = (&triples[i].0, &triples[i].1);
            let row = spo_format(triple);
            self.fluo.set(row.as_str(), crate::fluo_pcj::columns::triples(), visibility.as_str());
            let ghost before = self.streamed_statements@;
            let v = VisibleStatement { statement: triple.clone(), visibility: visibility.clone() };
            self.streamed_statements.push(v);
            proof {
                let t = pair_models(triples@);
                assert(t.take(i + 1).drop_last() =~= t.take(i as int));
                assert(t.take(i + 1).last() == (triple@, visibility@));
                assert(visible_models(self.streamed_statements@) =~= visible_models(before).push((triple@, visibility@)));
                assert(visible_models(s0) + t.take(i + 1) =~= (visible_models(s0) + t.take(i as int)).push(
                    (triple@, visibility@),
                ));
            }
            i = i + 1;
        }
        assert(pair_models(triples@).take(i as int) =~= pair_models(triples@));
        self.recompute_all_queries();
    }

    /// Records streamed statements with no visibility, then recomputes every query.
    pub fn insert_triples(&mut self, triples: Vec<RyaStatement>)
        requires
            old(self).wf(),
        ensures
            final(self).wf(),
            final(self).historic() == old(self).historic(),
            final(self).streamed() == old(self).streamed() + triples@.map_values(
                |t: RyaStatement| (t@, Seq::<char>::empty()),
            ),
            final(self).ids() == old(self).ids(),
            final(self).plan_list() == old(self).plan_list(),
            final(self).counter() == old(self).counter(),
            all_recomputed(
                triples_recorded(
                    old(self).fluo_view().cells(),
                    triples@.map_values(|t: RyaStatement| (t@, Seq::<char>::empty())),
                ),
                old(self).tables_view(),
                final(self).fluo_view().cells(),
                final(self).tables_view(),
                old(self).plan_list(),
                old(self).ids(),
                final(self).statements(),
            ),
    {
        let mut pairs: Vec<(RyaStatement, String)> = Vec::new();
        let mut i: usize = 0;
        while i < triples.len()
            invariant
                i <= triples.len(),
                pair_models(pairs@) == triples@.take(i as int).map_values(
                    |t: RyaStatement| (t@, Seq::<char>::empty()),
                ),
            decreases triples.len() - i,
        {
            let ghost before = pairs@;
            pairs.push((triples[i].clone(), String::new()));
            assert(pair_models(pairs@) =~= pair_models(before).push((triples@[i as int]@, Seq::<char>::empty())));
            assert(triples@.take(i + 1).map_values(|t: RyaStatement| (t@, Seq::<char>::empty())) =~= triples@.take(
                i as int,
            ).map_values(|t: RyaStatement| (t@, Seq::<char>::empty())).push((triples@[i as int]@, Seq::<char>::empty())));
            i = i + 1;
        }
        assert(triples@.take(i as int) =~= triples@);
        self.insert_triples_with_visibility(pairs);
    }

    /// The number of statements recorded in the Fluo table.
    pub fn count_unprocessed_statements(&self) -> (r: u128)
        ensures
            r == self.fluo_view().column_pairs(triples_spec()).len(),
    {
        let rows = self.fluo.scan_column(triples());
        assert(rows@.len() == rows@.map_values(|e: (String, String)| (e.0@, e.1@)).len());
        rows.len() as u128
    }

    /// A fresh node id of a kind: the counter goes up by one.
    fn make_node_id(&mut self, prefix: &str) -> (r: String)
        requires
            old(self).counter() < usize::MAX,
        ensures
            final(self).counter() == old(self).counter() + 1,
            r@ == node_id_text(prefix@, final(self).counter()),
            final(self).same_but_counter(*old(self)),
    {
        self.next_id = self.next_id + 1;
        let mut out = to_owned(prefix);
        push_char(&mut out, '_');
        let hex = hex_width_exec(self.next_id as u64, 32);
        push_str(&mut out, hex.as_str());
        out
    }

    /// Gives every node of the plan a fresh id, in order: the required patterns, the optional
    /// patterns, the filters, then the join when there are two patterns or more; sets the
    /// query id and returns the root's child: the last filter, else the join, else the first
    /// pattern.
    fn populate_plan_ids(&mut self, plan: &mut QueryPlan, query_id: &str) -> (r: String)
        requires
            old(plan).patterns@.len() > 0,
            old(self).counter() + node_count(old(plan).model()) <= usize::MAX,
        ensures
            final(plan).model() == populated_plan(old(plan).model(), query_id@, old(self).counter()),
            r@ == final(plan).model().root_child_id,
            final(self).counter() == old(self).counter() + node_count(old(plan).model()),
            final(self).same_but_counter(*old(self)),
    {
        let ghost c0 = self.counter();
        let ghost p0 = plan.model();
        let ghost target = populated_plan(p0, query_id@, c0);
        let ghost s0 = *self;
        let mut ps: Vec<PlannedPattern> = Vec::new();
        let mut i: usize = 0;
        while i < plan.patterns.len()
            invariant
                i <= plan.patterns.len(),
                plan.model() == p0,
                target == populated_plan(p0, query_id@, c0),
                self.counter() == c0 + i,
                c0 + node_count(p0) <= usize::MAX,
                self.same_but_counter(s0),
                ps@.len() == i,
                forall|k: int| 0 <= k < i ==> #[trigger] ps@[k].model() == target.patterns[k],
            decreases plan.patterns.len() - i,
        {
            let id = self.make_node_id(SP_PREFIX);
            ps.push(PlannedPattern { node_id: id, pattern: plan.patterns[i].pattern.clone() });
            assert(p0.patterns[i as int] == plan.patterns@[i as int].model());
            i = i + 1;
        }
        let mut os: Vec<PlannedPattern> = Vec::new();
        let mut j: usize = 0;
        while j < plan.optional_patterns.len()
            invariant
                i == plan.patterns.len(),
                j <= plan.optional_patterns.len(),
                plan.model() == p0,
                target == populated_plan(p0, query_id@, c0),
                self.counter() == c0 + i + j,
                c0 + node_count(p0) <= usize::MAX,
                self.same_but_counter(s0),
                os@.len() == j,
                forall|k: int| 0 <= k < j ==> #[trigger] os@[k].model() == target.optional_patterns[k],
            decreases plan.optional_patterns.len() - j,
        {
            let id = self.make_node_id(SP_PREFIX);
            os.push(PlannedPattern { node_id: id, pattern: plan.optional_patterns[j].pattern.clone() });
            assert(p0.optional_patterns[j as int] == plan.optional_patterns@[j as int].model());
            j = j + 1;
        }
        let mut fs: Vec<PlannedFilter> = Vec::new();
        let mut k: usize = 0;
        while k < plan.filters.len()
            invariant
                i == plan.patterns.len(),
                j == plan.optional_patterns.len(),
                k <= plan.filters.len(),
                plan.model() == p0,
                target == populated_plan(p0, query_id@, c0),
                self.counter() == c0 + i + j + k,
                c0 + node_count(p0) <= usize::MAX,
                self.same_but_counter(s0),
                fs@.len() == k,
                forall|m: int| 0 <= m < k ==> #[trigger] fs@[m].model() == target.filters[m],
            decreases plan.filters.len() - k,
        {
            let id = self.make_node_id(FILTER_PREFIX);
            fs.push(
                PlannedFilter {
                    node_id: id,
                    index: plan.filters[k].index,
                    expression: plan.filters[k].expression.clone(),
                },
            );
            assert(p0.filters[k as int] == plan.filters@[k as int].model());
            k = k + 1;
        }
        let join = if i + j > 1 {
            Some(self.make_node_id(JOIN_PREFIX))
        } else {
            None
        };
        let root = if fs.len() > 0 {
            fs[fs.len() - 1].node_id.clone()
        } else {
            match &join {
                Some(jid) => jid.clone(),
                None => ps[0].node_id.clone(),
            }
        };
        plan.patterns = ps;
        plan.optional_patterns = os;
        plan.filters = fs;
        plan.join_node_id = join;
        plan.query_id = to_owned(query_id);
        plan.root_child_id = root.clone();
        assert(plan.model().patterns =~= target.patterns);
        assert(plan.model().optional_patterns =~= target.optional_patterns);
        assert(plan.model().filters =~= target.filters);
        root
    }
}

// ---------------------------------------------------------------------------
// The plan with its node ids
// ---------------------------------------------------------------------------

/// How many node ids a plan takes: one per pattern and filter, and one for the join when
/// there are two patterns or more.
pub open spec fn node_count(p: QueryPlanModel) -> nat {
    let n = p.patterns.len() + p.optional_patterns.len();
    n + p.filters.len() + if n > 1 { 1nat } else { 0nat }
}

/// The plan with fresh ids for its nodes, numbered from `c + 1` on in the order of
/// `populate_plan_ids`, under the query `qid`.
pub open spec fn populated_plan(p: QueryPlanModel, qid: Seq<char>, c: nat) -> QueryPlanModel {
    let np = p.patterns.len();
    let no = p.optional_patterns.len();
    let nf = p.filters.len();
    let patterns = Seq::new(
        np,
        |i: int| PlannedPatternModel { node_id: node_id_text(SP_PREFIX@, (c + i + 1) as nat), pattern: p.patterns[i].pattern },
    );
    let optional_patterns = Seq::new(
        no,
        |i: int|
            PlannedPatternModel {
                node_id: node_id_text(SP_PREFIX@, (c + np + i + 1) as nat),
                pattern: p.optional_patterns[i].pattern,
            },
    );
    let filters = Seq::new(
        nf,
        |i: int|
            PlannedFilterModel {
                node_id: node_id_text(FILTER_PREFIX@, (c + np + no + i + 1) as nat),
                index: p.filters[i].index,
                expression: p.filters[i].expression,
            },
    );
    let join_node_id = if np + no > 1 {
        Some(node_id_text(JOIN_PREFIX@, (c + np + no + nf + 1) as nat))
    } else {
        None
    };
    QueryPlanModel {
        sparql: p.sparql,
        projected_vars: p.projected_vars,
        patterns,
        optional_patterns,
        filters,
        query_id: qid,
        root_child_id: if nf > 0 {
            filters[nf - 1].node_id
        } else {
            match join_node_id {
                Some(jid) => jid,
                None => patterns[0].node_id,
            }
        },
        join_node_id,
    }
}

// ---------------------------------------------------------------------------
// Creating a PCJ
// ---------------------------------------------------------------------------

/// The plan that parsing gives for the parts of a query: no node ids, filter `k` numbered `k`.
pub open spec fn fresh_plan(q: Seq<char>, parts: (
    Seq<Seq<char>>,
    Seq<FluoPatternModel>,
    Seq<FluoPatternModel>,
    Seq<FilterModel>,
)) -> QueryPlanModel {
    QueryPlanModel {
        sparql: q,
        projected_vars: parts.0,
        patterns: parts.1.map_values(|p: FluoPatternModel| PlannedPatternModel { node_id: Seq::empty(), pattern: p }),
        optional_patterns: parts.2.map_values(
            |p: FluoPatternModel| PlannedPatternModel { node_id: Seq::empty(), pattern: p },
        ),
        filters: Seq::new(
            parts.3.len(),
            |k: int| PlannedFilterModel { node_id: Seq::empty(), index: k, expression: parts.3[k] },
        ),
        query_id: Seq::empty(),
        root_child_id: Seq::empty(),
        join_node_id: None,
    }
}

/// A parsed plan is the fresh plan of its parts.
pub proof fn lemma_parsed_plan_fresh(m: QueryPlanModel, q: Seq<char>, parts: (
    Seq<Seq<char>>,
    Seq<FluoPatternModel>,
    Seq<FluoPatternModel>,
    Seq<FilterModel>,
))
    requires
        parsed_plan(m, q, parts),
    ensures
        m == fresh_plan(q, parts),
{
    let f = fresh_plan(q, parts);
    assert(m.filters =~= f.filters);
    assert(m.patterns =~= f.patterns);
    assert(m.optional_patterns =~= f.optional_patterns);
}

/// The orders of the export table: the given ones, or every turn of the projection when none
/// is given.
pub open spec fn export_order_set(orders: Seq<Seq<Seq<char>>>, projected: Seq<Seq<char>>) -> Set<Seq<Seq<char>>> {
    if orders.len() == 0 {
        rotations(projected)
    } else {
        orders.to_set()
    }
}

/// Every turn of the order, one place further left each.
pub open spec fn rotations(s: Seq<Seq<char>>) -> Set<Seq<Seq<char>>> {
    Set::new(|o: Seq<Seq<char>>| exists|k: int| 0 <= k < s.len() && o == rotation(s, k))
}

/// What creating a table does: a new name gets an empty table with the query and the orders;
/// an existing one is left as it is, and so are the other tables.
pub open spec fn table_created(
    t0: InMemoryPcjTables,
    t1: InMemoryPcjTables,
    name: Seq<char>,
    sparql: Seq<char>,
    orders: Set<Seq<Seq<char>>>,
) -> bool {
    &&& t0.table_for(name) is Some ==> t1.table_for(name) == t0.table_for(name)
    &&& t0.table_for(name) is None ==> ({
        let t = t1.table_for(name)->0;
        &&& t1.table_for(name) is Some
        &&& t.meta().sparql@ == sparql
        &&& t.meta().cardinality == 0
        &&& distinct_orders(t.meta().var_orders@)
        &&& orders_set(t.meta().var_orders@) == orders
        &&& t.entry_list().len() == 0
        &&& t.update_log().len() == 0
    })
    &&& forall|n: Seq<char>| n != name ==> #[trigger] t1.table_for(n) == t0.table_for(n)
}

/// The Fluo plan of a plan under a query id, with the query's own order being its projection.
pub open spec fn fluo_query_of(fq: FluoQuery, pm: QueryPlanModel, qid: Seq<char>) -> bool {
    &&& fq.query_metadata.node_id@ == qid
    &&& fq.query_metadata.variable_order@ == pm.projected_vars
    &&& fq.query_metadata.sparql@ == pm.sparql
    &&& fq.query_metadata.child_node_id@ == pm.root_child_id
    &&& sp_models(fq.statement_patterns@) == sp_entries(pm, qid, all_patterns(pm).len())
    &&& filter_meta_models(fq.filters@) == filter_entries(pm, qid, pm.filters.len())
    &&& join_models(fq.joins@) == join_entries(pm, qid)
}

/// The ids and plans after a plan is stored under an id: it replaces the plan of an equal id,
/// or goes in at the id's place in the order.
pub open spec fn query_stored(
    ids0: Seq<Seq<char>>,
    plans0: Seq<QueryPlan>,
    ids1: Seq<Seq<char>>,
    plans1: Seq<QueryPlan>,
    qid: Seq<char>,
    pm: QueryPlanModel,
) -> bool {
    exists|p: QueryPlan| #[trigger] p.model() == pm && match crate::seqs::first_index_of(ids0, qid) {
        Some(i) => ids1 == ids0 && plans1 == plans0.update(i, p),
        None => {
            let k = choose|k: int| insertion_point(ids0, qid, k);
            &&& insertion_point(ids0, qid, k)
            &&& ids1 == ids0.insert(k, qid)
            &&& plans1 == plans0.insert(k, p)
        },
    }
}

/// The node ids a query takes, its own included, must fit the counter.
pub open spec fn create_fits(counter: nat, q: Seq<char>) -> bool {
    match plan_parts_spec(q) {
        Ok(parts) => counter + node_count(fresh_plan(q, parts)) + 2 <= usize::MAX,
        Err(_) => true,
    }
}

/// The result of a call, with the error text taken by its view.
pub open spec fn unit_result(r: Result<String, String>) -> Result<(), Seq<char>> {
    match r {
        Ok(_) => Ok(()),
        Err(e) => Err(e@),
    }
}

/// What creating a PCJ for a query does, from the state before to the state after: a fresh
/// query id, fresh node ids for the plan, the Fluo plan and the export table's name written to
/// the Fluo table, the export table created with the given orders (or every turn of the
/// projection when none is given), the plan stored, and the query computed.
pub open spec fn pcj_created(
    a: InMemoryFluoPcjApp,
    b: InMemoryFluoPcjApp,
    q: Seq<char>,
    parts: (Seq<Seq<char>>, Seq<FluoPatternModel>, Seq<FluoPatternModel>, Seq<FilterModel>),
    prefix: Seq<char>,
    orders: Seq<Seq<Seq<char>>>,
    r: Result<String, String>,
) -> bool {
    let m = fresh_plan(q, parts);
    let qid = node_id_text(QUERY_PREFIX@, a.counter() + 1);
    let pm = populated_plan(m, qid, a.counter() + 1);
    let table = prefix + "INDEX_"@ + crate::text::remove_char_spec(qid, '-');
    let order_set = export_order_set(orders, pm.projected_vars);
    &&& b.counter() == a.counter() + 1 + node_count(m)
    &&& query_stored(a.ids(), a.plan_list(), b.ids(), b.plan_list(), qid, pm)
    &&& exists|fq: FluoQuery, t: InMemoryPcjTables| {
        &&& #[trigger] fluo_query_of(fq, pm, qid)
        &&& #[trigger] table_created(a.tables_view(), t, table, q, order_set)
        &&& recomputed(
            fluo_query_written(a.fluo_view().cells(), fq).insert((qid, query_rya_export_table_name_spec()), table),
            t,
            b.fluo_view().cells(),
            b.tables_view(),
            pm,
            qid,
            a.statements(),
            unit_result(r),
        )
    }
    &&& match r {
                Ok(x) => x@ == qid,
                Err(_) => true,
            }
}

/// The steps of creating a PCJ make up `pcj_created`.
proof fn lemma_pcj_created(
    a: InMemoryFluoPcjApp,
    b: InMemoryFluoPcjApp,
    q: Seq<char>,
    parts: (Seq<Seq<char>>, Seq<FluoPatternModel>, Seq<FluoPatternModel>, Seq<FilterModel>),
    prefix: Seq<char>,
    orders: Seq<Seq<Seq<char>>>,
    r: Result<String, String>,
    fq: FluoQuery,
    t: InMemoryPcjTables,
)
    requires
        ({
            let m = fresh_plan(q, parts);
            let qid = node_id_text(QUERY_PREFIX@, a.counter() + 1);
            let pm = populated_plan(m, qid, a.counter() + 1);
            let table = prefix + "INDEX_"@ + crate::text::remove_char_spec(qid, '-');
            let order_set = export_order_set(orders, pm.projected_vars);
            &&& b.counter() == a.counter() + 1 + node_count(m)
            &&& query_stored(a.ids(), a.plan_list(), b.ids(), b.plan_list(), qid, pm)
            &&& fluo_query_of(fq, pm, qid)
            &&& table_created(a.tables_view(), t, table, q, order_set)
            &&& recomputed(
                fluo_query_written(a.fluo_view().cells(), fq).insert((qid, query_rya_export_table_name_spec()), table),
                t,
                b.fluo_view().cells(),
                b.tables_view(),
                pm,
                qid,
                a.statements(),
                unit_result(r),
            )
            &&& match r {
                Ok(x) => x@ == qid,
                Err(_) => true,
            }
        }),
    ensures
        pcj_created(a, b, q, parts, prefix, orders, r),
{
}

impl InMemoryFluoPcjApp {
    /// Creates a PCJ for a query: plans it, gives its nodes ids, writes its Fluo plan, creates
    /// its export table and computes its results; returns the query id.
    pub fn create_pcj(&mut self, rya_table_prefix: &str, var_orders: Vec<VariableOrder>, sparql: &str) -> (r: Result<
        String,
        String,
    >)
        requires
            old(self).wf(),
            create_fits(old(self).counter(), sparql@),
        ensures
            final(self).wf(),
            final(self).historic() == old(self).historic(),
            final(self).streamed() == old(self).streamed(),
            match plan_parts_spec(sparql@) {
                Err(e) => r matches Err(x) && x@ == e && *final(self) == *old(self),
                Ok(parts) => pcj_created(*old(self), *final(self), sparql@, parts, rya_table_prefix@, orders_view(var_orders@), r),
            },
    {
        let ghost a = *self;
        let mut plan = match QueryPlan::parse(sparql) {
            Ok(p) => p,
            Err(e) => {
                return Err(e);
            },
        };
        let ghost parts = match plan_parts_spec(sparql@) {
            Ok(x) => x,
            Err(_) => vstd::pervasive::arbitrary(),
        };
        let ghost m = fresh_plan(sparql@, parts);
        proof {
            lemma_parsed_plan_fresh(plan.model(), sparql@, parts);
        }
        let qid = self.make_node_id(QUERY_PREFIX);
        let child = self.populate_plan_ids(&mut plan, qid.as_str());
        let ghost pm = plan.model();
        assert(plan.patterns@.len() == pm.patterns.len());
        let query_order = VariableOrder::new(crate::pcj::clone_strings(&plan.projected_vars));
        let fq = plan.to_fluo_query(qid.clone(), child, query_order.clone());
        FluoQueryMetadataDao.write_fluo_query(&mut self.fluo, &fq);
        let export_table = crate::pcj::make_pcj_table_name(rya_table_prefix, qid.as_str());
        let export_orders = if var_orders.len() == 0 {
            query_order.shifted_orders()
        } else {
            var_orders
        };
        let ghost t0 = self.pcj_tables;
        self.pcj_tables.create_pcj_table(export_table.as_str(), export_orders, sparql);
        let ghost t1 = self.pcj_tables;
        self.fluo.set(qid.as_str(), query_rya_export_table_name(), export_table.as_str());
        let ghost ids0 = views(self.query_ids@);
        let ghost plans0 = self.plans@;
        let ghost stored = plan;
        crate::sorted::upsert_sorted(&mut self.query_ids, &mut self.plans, qid.clone(), plan);
        proof {
            let ids1 = views(self.query_ids@);
            crate::seqs::lemma_first_index_of(ids0, qid@);
            match crate::seqs::first_index_of(ids0, qid@) {
                Some(i) => {
                    crate::seqs::lemma_first_index_of_at(ids1, qid@, i);
                    assert(self.plans@[i] == stored);
                },
                None => {
                    let k = choose|k: int| insertion_point(ids0, qid@, k);
                    assert(ids1[k] == qid@);
                    assert forall|j: int| 0 <= j < k implies ids1[j] != qid@ by {
                        crate::sorted::lemma_sorted_distinct(ids1, j, k);
                    }
                    crate::seqs::lemma_first_index_of_at(ids1, qid@, k);
                    assert(self.plans@[k] == stored);
                },
            }
            assert(self.plan_for(qid@) == Some(stored));
            assert forall|i: int| 0 <= i < self.plans@.len() implies #[trigger] plan_ok(self.plans@[i]) by {
                if self.plans@[i] != stored {
                    match crate::seqs::first_index_of(ids0, qid@) {
                        Some(x) => {
                            assert(plan_ok(plans0[i]));
                        },
                        None => {
                            let k = choose|k: int| insertion_point(ids0, qid@, k);
                            if i < k {
                                assert(plan_ok(plans0[i]));
                            } else {
                                assert(plan_ok(plans0[i - 1]));
                            }
                        },
                    }
                }
            }
            assert(query_stored(ids0, plans0, ids1, self.plans@, qid@, pm));
        }
        let ghost c2 = self.fluo.cells();
        let ghost t2 = self.pcj_tables;
        let rr = self.recompute_query(qid.as_str());
        let r = match rr {
            Ok(()) => Ok(qid),
            Err(e) => Err(e),
        };
        proof {
            let order_set = if var_orders@.len() == 0 {
                rotations(pm.projected_vars)
            } else {
                orders_view(var_orders@).to_set()
            };
            assert(qid@ == node_id_text(QUERY_PREFIX@, a.counter() + 1));
            assert(pm == populated_plan(m, qid@, a.counter() + 1));
            assert(self.counter() == a.counter() + 1 + node_count(m));
            assert(fluo_query_of(fq, pm, qid@));
            assert(orders_view(export_orders@).to_set() == orders_set(export_orders@));
            assert(table_created(t0, t1, export_table@, sparql@, order_set));
            assert(t0 == a.tables_view());
            assert(c2 == fluo_query_written(a.fluo_view().cells(), fq).insert(
                (qid@, query_rya_export_table_name_spec()),
                export_table@,
            ));
            lemma_pcj_created(a, *self, sparql@, parts, rya_table_prefix@, orders_view(var_orders@), r, fq, t1);
            assert(unit_result(r) == match rr {
                Ok(()) => Ok::<(), Seq<char>>(()),
                Err(e) => Err(e@),
            });
        }
        r
    }
}

// ---------------------------------------------------------------------------
// Reading back queries and their metadata
// ---------------------------------------------------------------------------

/// What the caller sees of PCJ metadata: the query, the count and the orders.
pub open spec fn meta_model(m: PcjMetadata) -> (Seq<char>, u64, Seq<Seq<Seq<char>>>) {
    (m.sparql@, m.cardinality, orders_view(m.var_orders@))
}

/// The query ids recorded in the Fluo table, one per recorded query text.
pub open spec fn query_id_values(a: InMemoryFluoPcjApp) -> Seq<Seq<char>> {
    a.fluo_view().column_pairs(query_id_spec()).map_values(|e: crate::strmap::EntryText| e.1)
}

/// The metadata of a query's PCJ, found through the export table name stored for the query.
pub open spec fn pcj_metadata_spec(a: InMemoryFluoPcjApp, qid: Seq<char>) -> Result<
    (Seq<char>, u64, Seq<Seq<Seq<char>>>),
    Seq<char>,
> {
    let key = (qid, query_rya_export_table_name_spec());
    if !a.fluo_view().cells().contains_key(key) {
        Err(
            "Could not get the PcjMetadata for queryId '"@ + qid
                + "' because a PCJ export table name was not stored in the Fluo table."@,
        )
    } else {
        let name = a.fluo_view().cells()[key];
        match a.tables_view().table_for(name) {
            Some(t) => Ok(meta_model(t.meta())),
            None => Err(
                "Could not get the PcjMetadata for queryId '"@ + qid
                    + "' because the metadata was missing from the Fjall table: "@ + "PCJ table does not exist: "@
                    + name,
            ),
        }
    }
}

/// The ids of a list of keyed metadata.
pub open spec fn meta_keys(v: Seq<(String, PcjMetadata)>) -> Seq<Seq<char>> {
    v.map_values(|e: (String, PcjMetadata)| e.0@)
}

impl InMemoryFluoPcjApp {
    /// The recorded query ids, in increasing order.
    pub fn list_query_ids(&self) -> (r: Vec<String>)
        ensures
            crate::sorted::sorted_le(views(r@)),
            views(r@).to_multiset() == query_id_values(*self).to_multiset(),
    {
        let rows = self.fluo.scan_column(query_id());
        let ghost pairs = rows@.map_values(|e: (String, String)| (e.0@, e.1@));
        let mut ids: Vec<String> = Vec::new();
        let mut i: usize = 0;
        while i < rows.len()
            invariant
                i <= rows.len(),
                pairs == rows@.map_values(|e: (String, String)| (e.0@, e.1@)),
                views(ids@) == pairs.map_values(|e: crate::strmap::EntryText| e.1).take(i as int),
            decreases rows.len() - i,
        {
            let ghost before = views(ids@);
            ids.push(rows[i].1.clone());
            assert(views(ids@) =~= before.push(pairs[i as int].1));
            assert(pairs.map_values(|e: crate::strmap::EntryText| e.1).take(i + 1) =~= before.push(
                pairs[i as int].1,
            ));
            i = i + 1;
        }
        assert(pairs.map_values(|e: crate::strmap::EntryText| e.1).take(i as int) =~= query_id_values(*self));
        crate::sorted::sort_strings(ids)
    }

    /// The metadata of a query's PCJ.
    pub fn get_pcj_metadata(&self, query_id: &str) -> (r: Result<PcjMetadata, String>)
        ensures
            match pcj_metadata_spec(*self, query_id@) {
                Ok(m) => r matches Ok(x) && meta_model(x) == m,
                Err(e) => r matches Err(x) && x@ == e,
            },
    {
        let table = match self.fluo.get(query_id, query_rya_export_table_name()) {
            Some(t) => t,
            None => {
                let mut msg = to_owned("Could not get the PcjMetadata for queryId '");
                push_str(&mut msg, query_id);
                push_str(&mut msg, "' because a PCJ export table name was not stored in the Fluo table.");
                return Err(msg);
            },
        };
        match self.pcj_tables.get_pcj_metadata(table.as_str()) {
            Ok(m) => Ok(m),
            Err(err) => {
                let mut msg = to_owned("Could not get the PcjMetadata for queryId '");
                push_str(&mut msg, query_id);
                push_str(&mut msg, "' because the metadata was missing from the Fjall table: ");
                push_str(&mut msg, err.as_str());
                Err(msg)
            },
        }
    }

    /// The metadata of every recorded query's PCJ, by query id in increasing order; the
    /// first failure in that order, if any, is returned instead.
    pub fn get_all_pcj_metadata(&self) -> (r: Result<Vec<(String, PcjMetadata)>, String>)
        ensures
            (forall|id: Seq<char>| #[trigger] query_id_values(*self).contains(id) ==> pcj_metadata_spec(*self, id) is Ok)
                ==> (r matches Ok(v) && crate::sorted::strictly_sorted(meta_keys(v@)) && meta_keys(v@).to_set()
                == query_id_values(*self).to_set() && forall|i: int| 0 <= i < v@.len() ==> #[trigger] pcj_metadata_spec(
                *self,
                v@[i].0@,
            ) == Ok::<_, Seq<char>>(meta_model(v@[i].1))),
            (exists|id: Seq<char>| #[trigger] query_id_values(*self).contains(id) && pcj_metadata_spec(*self, id) is Err)
                ==> (r matches Err(x) && exists|id: Seq<char>| {
                &&& #[trigger] query_id_values(*self).contains(id)
                &&& pcj_metadata_spec(*self, id) == Err::<(Seq<char>, u64, Seq<Seq<Seq<char>>>), _>(x@)
                &&& forall|id2: Seq<char>| #[trigger] query_id_values(*self).contains(id2) && pcj_metadata_spec(
                    *self,
                    id2,
                ) is Err ==> !lex_lt(id2, id)
            }),
    {
        let ids = self.list_query_ids();
        let ghost l = views(ids@);
        let ghost vals = query_id_values(*self);
        proof {
            l.to_multiset_ensures();
            vals.to_multiset_ensures();
            assert forall|id: Seq<char>| vals.contains(id) <==> #[trigger] l.contains(id) by {
                assert(l.to_multiset().count(id) == vals.to_multiset().count(id));
            }
            assert(l.take(0) =~= Seq::<Seq<char>>::empty());
        }
        let mut keys: Vec<String> = Vec::new();
        let mut metas: Vec<PcjMetadata> = Vec::new();
        assert(views(keys@) =~= Seq::<Seq<char>>::empty());
        let mut i: usize = 0;
        while i < ids.len()
            invariant
                i <= ids.len(),
                l == views(ids@),
                crate::sorted::sorted_le(l),
                forall|id: Seq<char>| vals.contains(id) <==> #[trigger] l.contains(id),
                vals == query_id_values(*self),
                forall|j: int| 0 <= j < i ==> #[trigger] pcj_metadata_spec(*self, l[j]) is Ok,
                crate::sorted::strictly_sorted(views(keys@)),
                keys@.len() == metas@.len(),
                views(keys@).to_set() == l.take(i as int).to_set(),
                forall|k: int| 0 <= k < keys@.len() ==> #[trigger] pcj_metadata_spec(*self, keys@[k]@) == Ok::<
                    _,
                    Seq<char>,
                >(meta_model(metas@[k])),
            decreases ids.len() - i,
        {
            match self.get_pcj_metadata(ids[i].as_str()) {
                Ok(m) => {
                    let ghost ks = views(keys@);
                    let ghost ms = metas@;
                    crate::sorted::upsert_sorted(&mut keys, &mut metas, ids[i].clone(), m);
                    proof {
                        crate::seqs::lemma_first_index_of(ks, l[i as int]);
                        assert(l.take(i + 1) =~= l.take(i as int).push(l[i as int]));
                        crate::seqs::lemma_insert_to_set(l.take(i as int), i as int, l[i as int]);
                        assert(l.take(i as int).insert(i as int, l[i as int]) =~= l.take(i + 1));
                        match crate::seqs::first_index_of(ks, l[i as int]) {
                            Some(x) => {
                                assert(ks[x] == l[i as int]);
                                crate::seqs::lemma_contains_to_set(ks, l[i as int]);
                            },
                            None => {
                                let c = choose|c: int| insertion_point(ks, l[i as int], c);
                                crate::seqs::lemma_insert_to_set(ks, c, l[i as int]);
                            },
                        }
                        assert forall|k: int| 0 <= k < keys@.len() implies #[trigger] pcj_metadata_spec(
                            *self,
                            keys@[k]@,
                        ) == Ok::<_, Seq<char>>(meta_model(metas@[k])) by {
                            assert(views(keys@)[k] == keys@[k]@);
                            match crate::seqs::first_index_of(ks, l[i as int]) {
                                Some(x) => {
                                    if k != x {
                                        assert(ks[k] == keys@[k]@);
                                    }
                                },
                                None => {
                                    let c = choose|c: int| insertion_point(ks, l[i as int], c);
                                    if k < c {
                                        assert(ks[k] == keys@[k]@);
                                    } else if k > c {
                                        assert(ks[k - 1] == keys@[k]@);
                                    }
                                },
                            }
                        }
                    }
                },
                Err(e) => {
                    proof {
                        assert(l.contains(l[i as int]));
                        assert(vals.contains(l[i as int]));
                        assert forall|id2: Seq<char>| #[trigger] vals.contains(id2) && pcj_metadata_spec(*self, id2) is Err
                            implies !lex_lt(id2, l[i as int]) by {
                            assert(l.contains(id2));
                            let z = choose|z: int| 0 <= z < l.len() && l[z] == id2;
                            if z < i {
                                assert(pcj_metadata_spec(*self, l[z]) is Ok);
                            } else if z > i {
                                assert(!lex_lt(l[z], l[i as int]));
                            } else {
                                crate::text::lemma_lex_lt_irreflexive(id2);
                            }
                        }
                    }
                    return Err(e);
                },
            }
            i = i + 1;
        }
        let mut out: Vec<(String, PcjMetadata)> = Vec::new();
        let mut k: usize = 0;
        while k < keys.len()
            invariant
                k <= keys.len(),
                keys@.len() == metas@.len(),
                out@.len() == k,
                forall|j: int| 0 <= j < k ==> (#[trigger] out@[j]).0@ == keys@[j]@ && meta_model(out@[j].1) == meta_model(
                    metas@[j],
                ),
            decreases keys.len() - k,
        {
            out.push((keys[k].clone(), metas[k].clone()));
            k = k + 1;
        }
        proof {
            assert(meta_keys(out@) =~= views(keys@));
            assert(l.take(i as int) =~= l);
            assert(l.to_set() =~= vals.to_set());
            assert forall|j: int| 0 <= j < out@.len() implies #[trigger] pcj_metadata_spec(*self, out@[j].0@) == Ok::<
                _,
                Seq<char>,
            >(meta_model(out@[j].1)) by {
                assert(pcj_metadata_spec(*self, keys@[j]@) == Ok::<_, Seq<char>>(meta_model(metas@[j])));
            }
            assert forall|id: Seq<char>| #[trigger] vals.contains(id) && pcj_metadata_spec(*self, id) is Err implies false by {
                assert(l.contains(id));
                let z = choose|z: int| 0 <= z < l.len() && l[z] == id;
                assert(pcj_metadata_spec(*self, l[z]) is Ok);
            }
        }
        Ok(out)
    }
}

// ---------------------------------------------------------------------------
// Query reports and results
// ---------------------------------------------------------------------------

/// The number of result rows of a node in a column.
pub open spec fn count_rows(f: InMemoryFluo, node: Seq<char>, c: ColumnModel) -> nat {
    f.column_pairs(c).filter(crate::fluo_pcj::row_starts_with(node + NODEID_BS_DELIM@)).len()
}

/// Counts the result rows of a node in a column.
fn count_rows_for(fluo: &InMemoryFluo, node_id: &str, column: FluoColumn) -> (r: u128)
    ensures
        r == count_rows(*fluo, node_id@, column_model(column)),
{
    let prefix = concat(node_id, NODEID_BS_DELIM);
    let rows = fluo.scan_prefix(prefix.as_str(), column);
    assert(rows@.len() == rows@.map_values(|e: (String, String)| (e.0@, e.1@)).len());
    rows.len() as u128
}

/// The report of a query: its Fluo plan and the number of result rows of each node.
pub struct QueryReport {
    pub fluo_query: FluoQuery,
    pub counts: Vec<(String, u128)>,
}

/// The counts of a report, node by node in the order they are taken: the query, the
/// statement patterns, the joins, then the filters.
pub open spec fn report_entries(f: InMemoryFluo, fq: FluoQuery) -> Seq<(Seq<char>, u128)> {
    let qid = fq.query_metadata.node_id@;
    seq![(qid, count_rows(f, qid, query_binding_set_spec()) as u128)] + sp_models(fq.statement_patterns@).map_values(
        |m: StatementPatternMetadataModel|
            (m.node_id, count_rows(f, m.node_id, statement_pattern_binding_set_spec()) as u128),
    ) + join_models(fq.joins@).map_values(
        |m: JoinMetadataModel| (m.node_id, count_rows(f, m.node_id, join_binding_set_spec()) as u128),
    ) + filter_meta_models(fq.filters@).map_values(
        |m: FilterMetadataModel| (m.node_id, count_rows(f, m.node_id, filter_binding_set_spec()) as u128),
    )
}

/// The counts of a report, by node id in increasing order.
pub open spec fn report_counts(f: InMemoryFluo, fq: FluoQuery) -> (Seq<Seq<char>>, Seq<u128>) {
    crate::sorted::upsert_all(report_entries(f, fq))
}

impl InMemoryFluoPcjApp {
    /// Where the plan of a query id is stored.
    fn find_plan(&self, query_id: &str) -> (r: Option<usize>)
        requires
            self.wf(),
        ensures
            match r {
                Some(k) => k < self.plans@.len() && self.plan_for(query_id@) == Some(self.plans@[k as int]),
                None => self.plan_for(query_id@) is None,
            },
    {
        let mut i: usize = 0;
        while i < self.query_ids.len() && !crate::text::str_eq(self.query_ids[i].as_str(), query_id)
            invariant
                i <= self.query_ids.len(),
                forall|k: int| 0 <= k < i ==> views(self.query_ids@)[k] != query_id@,
            decreases self.query_ids.len() - i,
        {
            i = i + 1;
        }
        if i == self.query_ids.len() {
            proof {
                crate::seqs::lemma_first_index_of_none(views(self.query_ids@), query_id@);
            }
            None
        } else {
            proof {
                crate::seqs::lemma_first_index_of_at(views(self.query_ids@), query_id@, i as int);
            }
            Some(i)
        }
    }

    /// The Fluo plan of a stored query and the number of result rows of each of its nodes.
    pub fn get_query_report(&self, query_id: &str) -> (r: Result<QueryReport, String>)
        requires
            self.wf(),
        ensures
            match self.plan_for(query_id@) {
                None => r matches Err(e) && e@ == "Unknown query id: "@ + query_id@,
                Some(p) => r matches Ok(rep) && fluo_query_of(rep.fluo_query, p.model(), query_id@) && (
                views(rep.counts@.map_values(|e: (String, u128)| e.0)),
                rep.counts@.map_values(|e: (String, u128)| e.1),
                ) == report_counts(self.fluo_view(), rep.fluo_query),
            },
    {
        let k = match self.find_plan(query_id) {
            Some(k) => k,
            None => {
                return Err(concat("Unknown query id: ", query_id));
            },
        };
        let plan = &self.plans[k];
        assert(plan_ok(self.plans@[k as int]));
        assert(plan.patterns@.len() == plan.model().patterns.len());
        let order = VariableOrder::new(crate::pcj::clone_strings(&plan.projected_vars));
        let fq = plan.to_fluo_query(to_owned(query_id), plan.root_child_id.clone(), order);
        let ghost want = report_entries(self.fluo, fq);
        let mut es: Vec<(String, u128)> = Vec::new();
        es.push((to_owned(query_id), count_rows_for(&self.fluo, query_id, query_binding_set())));
        let ghost a = seq![(fq.query_metadata.node_id@, count_rows(self.fluo, fq.query_metadata.node_id@, query_binding_set_spec()) as u128)];
        assert(crate::sorted::entry_views(es@) =~= a);
        let mut i: usize = 0;
        while i < fq.statement_patterns.len()
            invariant
                i <= fq.statement_patterns.len(),
                crate::sorted::entry_views(es@) == a + sp_models(fq.statement_patterns@).map_values(
                    |m: StatementPatternMetadataModel|
                        (m.node_id, count_rows(self.fluo, m.node_id, statement_pattern_binding_set_spec()) as u128),
                ).take(i as int),
            decreases fq.statement_patterns.len() - i,
        {
            let id = fq.statement_patterns[i].node_id.clone();
            let c = count_rows_for(&self.fluo, id.as_str(), statement_pattern_binding_set());
            let ghost before = crate::sorted::entry_views(es@);
            es.push((id, c));
            assert(crate::sorted::entry_views(es@) =~= before.push((id@, c)));
            assert(a + sp_models(fq.statement_patterns@).map_values(
                |m: StatementPatternMetadataModel|
                    (m.node_id, count_rows(self.fluo, m.node_id, statement_pattern_binding_set_spec()) as u128),
            ).take(i + 1) =~= before.push((id@, c)));
            i = i + 1;
        }
        let ghost b = crate::sorted::entry_views(es@);
        assert(b =~= a + sp_models(fq.statement_patterns@).map_values(
            |m: StatementPatternMetadataModel|
                (m.node_id, count_rows(self.fluo, m.node_id, statement_pattern_binding_set_spec()) as u128),
        ));
        let mut j: usize = 0;
        while j < fq.joins.len()
            invariant
                j <= fq.joins.len(),
                crate::sorted::entry_views(es@) == b + join_models(fq.joins@).map_values(
                    |m: JoinMetadataModel| (m.node_id, count_rows(self.fluo, m.node_id, join_binding_set_spec()) as u128),
                ).take(j as int),
            decreases fq.joins.len() - j,
        {
            let id = fq.joins[j].node_id.clone();
            let c = count_rows_for(&self.fluo, id.as_str(), join_binding_set());
            let ghost before = crate::sorted::entry_views(es@);
            es.push((id, c));
            assert(crate::sorted::entry_views(es@) =~= before.push((id@, c)));
            assert(b + join_models(fq.joins@).map_values(
                |m: JoinMetadataModel| (m.node_id, count_rows(self.fluo, m.node_id, join_binding_set_spec()) as u128),
            ).take(j + 1) =~= before.push((id@, c)));
            j = j + 1;
        }
        let ghost d = crate::sorted::entry_views(es@);
        assert(d =~= b + join_models(fq.joins@).map_values(
            |m: JoinMetadataModel| (m.node_id, count_rows(self.fluo, m.node_id, join_binding_set_spec()) as u128),
        ));
        let mut f: usize = 0;
        while f < fq.filters.len()
            invariant
                f <= fq.filters.len(),
                crate::sorted::entry_views(es@) == d + filter_meta_models(fq.filters@).map_values(
                    |m: FilterMetadataModel| (m.node_id, count_rows(self.fluo, m.node_id, filter_binding_set_spec()) as u128),
                ).take(f as int),
            decreases fq.filters.len() - f,
        {
            let id = fq.filters[f].node_id.clone();
            let c = count_rows_for(&self.fluo, id.as_str(), filter_binding_set());
            let ghost before = crate::sorted::entry_views(es@);
            es.push((id, c));
            assert(crate::sorted::entry_views(es@) =~= before.push((id@, c)));
            assert(d + filter_meta_models(fq.filters@).map_values(
                |m: FilterMetadataModel| (m.node_id, count_rows(self.fluo, m.node_id, filter_binding_set_spec()) as u128),
            ).take(f + 1) =~= before.push((id@, c)));
            f = f + 1;
        }
        assert(crate::sorted::entry_views(es@) =~= want);
        let (keys, vals) = crate::sorted::upsert_entries(&es);
        let mut counts: Vec<(String, u128)> = Vec::new();
        let mut n: usize = 0;
        while n < keys.len()
            invariant
                n <= keys.len(),
                keys@.len() == vals@.len(),
                counts@.len() == n,
                forall|x: int| 0 <= x < n ==> (#[trigger] counts@[x]).0@ == keys@[x]@ && counts@[x].1 == vals@[x],
            decreases keys.len() - n,
        {
            counts.push((keys[n].clone(), vals[n]));
            n = n + 1;
        }
        assert(views(counts@.map_values(|e: (String, u128)| e.0)) =~= views(keys@));
        assert(counts@.map_values(|e: (String, u128)| e.1) =~= vals@);
        Ok(QueryReport { fluo_query: fq, counts })
    }
}

/// What a stored result text decodes to with an order: its bindings and its visibility.
pub open spec fn decode_visible(t: Seq<char>, order: Seq<Seq<char>>) -> Option<RowModel> {
    let (b, v) = match crate::text::split_once_spec(t, crate::pcj::VISIBILITY_DELIMITER) {
        Some((b, v)) => (b, v),
        None => (t, Seq::<char>::empty()),
    };
    if crate::pcj::text_pieces(b).len() == order.len() {
        match crate::pcj::decode_texts(order, crate::pcj::text_pieces(b), order.len() as int) {
            Some(m) => Some((m, v)),
            None => None,
        }
    } else {
        None
    }
}

/// The result texts of a query, in row order.
pub open spec fn result_texts(f: InMemoryFluo, qid: Seq<char>) -> Seq<Seq<char>> {
    f.column_pairs(query_binding_set_spec()).filter(crate::fluo_pcj::row_starts_with(qid + NODEID_BS_DELIM@)).map_values(
        |e: crate::strmap::EntryText| e.1,
    )
}

/// The bindings of decoded rows, with the visibility dropped.
pub open spec fn bare_rows(d: Seq<Option<RowModel>>) -> Seq<RowModel> {
    d.map_values(
        |o: Option<RowModel>|
            match o {
                Some(x) => (x.0, Seq::<char>::empty()),
                None => (Map::empty(), Seq::<char>::empty()),
            },
    )
}

impl InMemoryFluoPcjApp {
    /// The distinct result binding sets of the query recorded for a SPARQL text, in increasing
    /// order.
    pub fn query_results(&self, sparql: &str) -> (r: Result<Vec<BindingSet>, String>)
        requires
            self.wf(),
        ensures
            ({
                let key = (sparql@, query_id_spec());
                let cells = self.fluo_view().cells();
                &&& !cells.contains_key(key) ==> (r matches Err(e) && e@ == "Query not found"@)
                &&& cells.contains_key(key) && self.plan_for(cells[key]) is None ==> (r matches Err(e) && e@
                    == "Query plan not found"@)
                &&& cells.contains_key(key) && self.plan_for(cells[key]) is Some ==> ({
                    let p = self.plan_for(cells[key])->0;
                    let d = result_texts(self.fluo_view(), cells[key]).map_values(
                        |t: Seq<char>| decode_visible(t, p.model().projected_vars),
                    );
                    &&& (forall|i: int| 0 <= i < d.len() ==> #[trigger] d[i] is Some) ==> (r matches Ok(v)
                        && crate::pcj::maps_of(v@) == crate::fluo_pcj::rows::row_set(bare_rows(d)).map_values(
                        |x: RowModel| x.0,
                    ))
                    &&& (exists|i: int| 0 <= i < d.len() && #[trigger] d[i] is None) ==> r is Err
                })
            }),
    {
        let qid = match self.fluo.get(sparql, query_id()) {
            Some(q) => q,
            None => {
                return Err(to_owned("Query not found"));
            },
        };
        let k = match self.find_plan(qid.as_str()) {
            Some(k) => k,
            None => {
                return Err(to_owned("Query plan not found"));
            },
        };
        let ghost p = self.plan_for(qid@)->0;
        let ghost pm = p.model();
        assert(p == self.plans@[k as int]);
        let order = VariableOrder::new(crate::pcj::clone_strings(&self.plans[k].projected_vars));
        let prefix = concat(qid.as_str(), NODEID_BS_DELIM);
        let rows = self.fluo.scan_prefix(prefix.as_str(), query_binding_set());
        let ghost texts = result_texts(self.fluo_view(), qid@);
        let ghost d = result_texts(self.fluo_view(), qid@).map_values(
            |t: Seq<char>| decode_visible(t, p.model().projected_vars),
        );
        assert(rows@.len() == texts.len());
        let mut bare: Vec<VisibilityBindingSet> = Vec::new();
        let mut i: usize = 0;
        while i < rows.len()
            invariant
                i <= rows.len(),
                rows@.len() == texts.len(),
                d.len() == texts.len(),
                order@ == pm.projected_vars,
                forall|j: int| 0 <= j < rows@.len() ==> #[trigger] rows@[j].1@ == texts[j],
                forall|j: int| 0 <= j < d.len() ==> #[trigger] d[j] == decode_visible(texts[j], pm.projected_vars),
                d == result_texts(self.fluo_view(), qid@).map_values(
                    |t: Seq<char>| decode_visible(t, p.model().projected_vars),
                ),
                pm == p.model(),
                self.fluo_view().cells().contains_key((sparql@, query_id_spec())),
                self.fluo_view().cells()[(sparql@, query_id_spec())] == qid@,
                self.plan_for(qid@) == Some(p),
                forall|j: int| 0 <= j < i ==> #[trigger] d[j] is Some,
                row_models(bare@) == bare_rows(d.take(i as int)),
            decreases rows.len() - i,
        {
            match crate::pcj::visibility_binding_set_from_string(rows[i].1.as_str(), &order) {
                Ok(x) => {
                    let ghost before = row_models(bare@);
                    assert(d[i as int] == Some(row_model(x)));
                    bare.push(VisibilityBindingSet::no_visibility(x.bindings));
                    assert(row_models(bare@) =~= before.push((x.bindings@, Seq::<char>::empty())));
                    assert(bare_rows(d.take(i + 1)) =~= bare_rows(d.take(i as int)).push(
                        (x.bindings@, Seq::<char>::empty()),
                    ));
                },
                Err(e) => {
                    assert(d[i as int] is None);
                    assert(!(d[i as int] is Some));
                    return Err(e);
                },
            }
            i = i + 1;
        }
        assert(d.take(i as int) =~= d);
        let set = crate::fluo_pcj::rows::to_row_set(bare);
        let mut out: Vec<BindingSet> = Vec::new();
        let mut n: usize = 0;
        while n < set.len()
            invariant
                n <= set.len(),
                crate::pcj::maps_of(out@) == row_models(set@).map_values(|x: RowModel| x.0).take(n as int),
            decreases set.len() - n,
        {
            let ghost before = crate::pcj::maps_of(out@);
            out.push(set[n].bindings.clone());
            assert(crate::pcj::maps_of(out@) =~= before.push(set@[n as int].bindings@));
            assert(row_models(set@).map_values(|x: RowModel| x.0).take(n + 1) =~= before.push(set@[n as int].bindings@));
            n = n + 1;
        }
        assert(row_models(set@).map_values(|x: RowModel| x.0).take(n as int) =~= row_models(set@).map_values(
            |x: RowModel| x.0,
        ));
        Ok(out)
    }
}

/// The count of a node in a report's counts, or 0 when the node has none.
pub open spec fn count_of(counts: Seq<(String, u128)>, node: Seq<char>) -> u128 {
    match crate::seqs::first_index_of(views(counts.map_values(|e: (String, u128)| e.0)), node) {
        Some(i) => counts[i].1,
        None => 0,
    }
}

impl QueryReport {
    /// The number of result rows of a node, or 0 when the report has none for it.
    pub fn count(&self, node_id: &str) -> (r: u128)
        ensures
            r == count_of(self.counts@, node_id@),
    {
        let ghost ks = views(self.counts@.map_values(|e: (String, u128)| e.0));
        let mut i: usize = 0;
        while i < self.counts.len()
            invariant
                i <= self.counts.len(),
                ks == views(self.counts@.map_values(|e: (String, u128)| e.0)),
                forall|k: int| 0 <= k < i ==> ks[k] != node_id@,
            decreases self.counts.len() - i,
        {
            assert(ks[i as int] == self.counts@[i as int].0@);
            if crate::text::str_eq(self.counts[i].0.as_str(), node_id) {
                proof {
                    crate::seqs::lemma_first_index_of_at(ks, node_id@, i as int);
                }
                return self.counts[i].1;
            }
            i = i + 1;
        }
        proof {
            crate::seqs::lemma_first_index_of_none(ks, node_id@);
        }
        0
    }
}

} // verus!
