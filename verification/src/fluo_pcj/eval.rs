use vstd::prelude::*;

use crate::fluo_pcj::columns::{
    filter_binding_set, filter_binding_set_spec, join_binding_set, join_binding_set_spec,
    query_binding_set, query_binding_set_spec, statement_pattern_binding_set,
    statement_pattern_binding_set_spec,
};
use crate::fluo_pcj::metadata::Cells;
use crate::fluo_pcj::plan::{join_vars, PlannedPatternModel, QueryPlan, QueryPlanModel};
use crate::fluo_pcj::rows::{
    left_rows, match_statements, matches_upto, natural_rows, project_binding_set, project_spec,
    row_model, row_models, row_set, to_row_set, visible_left_join, visible_models,
    visible_natural_join, RowModel, VisibleModel, VisibleStatement,
};
use crate::fluo_pcj::sparql::{accepts_spec, filter_model, FilterModel};
use crate::fluo_pcj::{
    column_model, starts_with_seq, ColumnModel, FluoColumn, FluoPatternModel, InMemoryFluo,
    NODEID_BS_DELIM,
};
use crate::pcj::{
    binding_set_to_string, binding_texts, names_in_order, not_in_order_message,
    visibility_binding_set_to_string, VariableOrder, VisibilityBindingSet,
    BINDING_STRING_DELIMITER, VISIBILITY_DELIMITER,
};
use crate::sorted::sorted_names;
use crate::text::{concat, push_str, views};
use crate::words::join_spec;

verus! {

// ---------------------------------------------------------------------------
// What a plan computes from the statements
// ---------------------------------------------------------------------------

/// The result set of one pattern over the statements.
pub open spec fn pattern_result(p: FluoPatternModel, sts: Seq<VisibleModel>) -> Seq<RowModel> {
    row_set(matches_upto(p, sts, sts.len()))
}

/// The results of the first `n` patterns.
pub open spec fn pattern_results(ps: Seq<PlannedPatternModel>, sts: Seq<VisibleModel>, n: nat) -> Seq<Seq<RowModel>>
    decreases n,
{
    if n == 0 || n > ps.len() {
        Seq::empty()
    } else {
        pattern_results(ps, sts, (n - 1) as nat).push(pattern_result(ps[n - 1].pattern, sts))
    }
}

/// The natural join of the first `n` result sets, left to right; nothing for none.
pub open spec fn join_all(rs: Seq<Seq<RowModel>>, n: nat) -> Seq<RowModel>
    decreases n,
{
    if n == 0 || n > rs.len() {
        Seq::empty()
    } else if n == 1 {
        rs[0]
    } else {
        let acc = join_all(rs, (n - 1) as nat);
        row_set(natural_rows(acc, rs[n - 1], acc.len()))
    }
}

/// The joined rows of a plan: the required patterns joined, left-joined with the optional
/// patterns joined, when there are optional patterns.
pub open spec fn joined_spec(p: QueryPlanModel, sts: Seq<VisibleModel>) -> Seq<RowModel> {
    let req = pattern_results(p.patterns, sts, p.patterns.len());
    let required = join_all(req, req.len());
    let opt = pattern_results(p.optional_patterns, sts, p.optional_patterns.len());
    if opt.len() > 0 {
        let optional = join_all(opt, opt.len());
        row_set(left_rows(required, optional, required.len()))
    } else {
        required
    }
}

/// Whether a row passes a filter.
pub open spec fn passes(f: FilterModel) -> spec_fn(RowModel) -> bool {
    |r: RowModel| accepts_spec(f, r.0)
}

/// The rows after the first `n` filters.
pub open spec fn filtered_spec(p: QueryPlanModel, rows: Seq<RowModel>, n: nat) -> Seq<RowModel>
    decreases n,
{
    if n == 0 || n > p.filters.len() {
        rows
    } else {
        filtered_spec(p, rows, (n - 1) as nat).filter(passes(p.filters[n - 1].expression))
    }
}

/// The rows kept to the projected variables, as an ordered set.
pub open spec fn projected_spec(vars: Seq<Seq<char>>, rows: Seq<RowModel>) -> Seq<RowModel> {
    row_set(rows.map_values(|r: RowModel| (project_spec(r.0, vars), r.1)))
}

// ---------------------------------------------------------------------------
// Writing result rows
// ---------------------------------------------------------------------------

/// The key of a result row: its node, `<<:>>`, the text of its bindings in the order.
pub open spec fn row_key(node: Seq<char>, order: Seq<Seq<char>>, r: RowModel) -> Seq<char> {
    node + NODEID_BS_DELIM@ + join_spec(binding_texts(r.0, order), BINDING_STRING_DELIMITER@)
}

/// The stored text of a result row: its bindings' text, then U+0001 and the visibility when
/// there is one.
pub open spec fn row_value(order: Seq<Seq<char>>, r: RowModel) -> Seq<char> {
    join_spec(binding_texts(r.0, order), BINDING_STRING_DELIMITER@) + if r.1.len() == 0 {
        Seq::empty()
    } else {
        seq![VISIBILITY_DELIMITER] + r.1
    }
}

/// The cells after the first `n` rows are written under a node, and the error that stopped the
/// writing, if any.
pub open spec fn rows_written(
    cells: Cells,
    node: Seq<char>,
    col: ColumnModel,
    order: Seq<Seq<char>>,
    rows: Seq<RowModel>,
    n: nat,
) -> (Cells, Option<Seq<char>>)
    decreases n,
{
    if n == 0 || n > rows.len() {
        (cells, None)
    } else {
        let (c, e) = rows_written(cells, node, col, order, rows, (n - 1) as nat);
        if e is Some {
            (c, e)
        } else if !names_in_order(rows[n - 1].0, order) {
            (c, Some(not_in_order_message()))
        } else {
            (c.insert((row_key(node, order, rows[n - 1]), col), row_value(order, rows[n - 1])), None)
        }
    }
}

/// Writes result rows under a node; a row with a name outside the order stops the writing.
pub fn write_binding_rows(
    fluo: &mut InMemoryFluo,
    node_id: &str,
    column: FluoColumn,
    order: &VariableOrder,
    rows: &Vec<VisibilityBindingSet>,
) -> (r: Result<(), String>)
    ensures
        ({
            let (c, e) = rows_written(old(fluo).cells(), node_id@, column_model(column), order@, row_models(rows@), rows@.len());
            &&& final(fluo).cells() == c
            &&& match e {
                Some(m) => r matches Err(x) && x@ == m,
                None => r is Ok,
            }
        }),
{
    let ghost c0 = fluo.cells();
    let mut i: usize = 0;
    while i < rows.len()
        invariant
            i <= rows.len(),
            c0 == old(fluo).cells(),
            rows_written(c0, node_id@, column_model(column), order@, row_models(rows@), i as nat) == (
                fluo.cells(),
                None::<Seq<char>>,
            ),
        decreases rows.len() - i,
    {
        let row = &rows[i];
        assert(row_models(rows@)[i as int] == row_model(*row));
        let binding_string = match binding_set_to_string(&row.bindings, order) {
            Ok(s) => s,
            Err(e) => {
                proof {
                    lemma_rows_written_stop(c0, node_id@, column_model(column), order@, row_models(rows@), (i + 1) as nat, rows@.len());
                }
                return Err(e);
            },
        };
        let value_string = match visibility_binding_set_to_string(row, order) {
            Ok(s) => s,
            Err(e) => {
                return Err(e);
            },
        };
        let mut key = concat(node_id, NODEID_BS_DELIM);
        push_str(&mut key, binding_string.as_str());
        fluo.set(key.as_str(), column, value_string.as_str());
        i = i + 1;
    }
    Ok(())
}

/// Once a write stops, writing more rows changes nothing.
proof fn lemma_rows_written_stop(
    cells: Cells,
    node: Seq<char>,
    col: ColumnModel,
    order: Seq<Seq<char>>,
    rows: Seq<RowModel>,
    n: nat,
    total: nat,
)
    requires
        n <= total <= rows.len(),
        rows_written(cells, node, col, order, rows, n).1 is Some,
    ensures
        rows_written(cells, node, col, order, rows, total) == rows_written(cells, node, col, order, rows, n),
    decreases total - n,
{
    if n < total {
        lemma_rows_written_stop(cells, node, col, order, rows, n, (total - 1) as nat);
    }
}

/// One write of result rows: a node, a column, an order and the rows.
pub struct WriteJob {
    pub node: Seq<char>,
    pub column: ColumnModel,
    pub order: Seq<Seq<char>>,
    pub rows: Seq<RowModel>,
}

/// The cells after the first `n` jobs are run, and the error that stopped them, if any.
pub open spec fn jobs_run(cells: Cells, jobs: Seq<WriteJob>, n: nat) -> (Cells, Option<Seq<char>>)
    decreases n,
{
    if n == 0 || n > jobs.len() {
        (cells, None)
    } else {
        let (c, e) = jobs_run(cells, jobs, (n - 1) as nat);
        if e is Some {
            (c, e)
        } else {
            let j = jobs[n - 1];
            rows_written(c, j.node, j.column, j.order, j.rows, j.rows.len())
        }
    }
}

pub proof fn lemma_jobs_stop(cells: Cells, jobs: Seq<WriteJob>, n: nat, total: nat)
    requires
        n <= total <= jobs.len(),
        jobs_run(cells, jobs, n).1 is Some,
    ensures
        jobs_run(cells, jobs, total) == jobs_run(cells, jobs, n),
    decreases total - n,
{
    if n < total {
        lemma_jobs_stop(cells, jobs, n, (total - 1) as nat);
    }
}

/// Everything a recomputation of a plan produces.
pub struct PlanEval {
    pub pattern_rows: Seq<Seq<RowModel>>,
    pub optional_rows: Seq<Seq<RowModel>>,
    pub joined: Seq<RowModel>,
    pub filter_rows: Seq<Seq<RowModel>>,
    pub projected: Seq<RowModel>,
}

pub open spec fn plan_eval(p: QueryPlanModel, sts: Seq<VisibleModel>) -> PlanEval {
    let joined = joined_spec(p, sts);
    PlanEval {
        pattern_rows: pattern_results(p.patterns, sts, p.patterns.len()),
        optional_rows: pattern_results(p.optional_patterns, sts, p.optional_patterns.len()),
        joined,
        filter_rows: Seq::new(p.filters.len(), |k: int| filtered_spec(p, joined, (k + 1) as nat)),
        projected: projected_spec(p.projected_vars, filtered_spec(p, joined, p.filters.len())),
    }
}

/// The writes of a recomputation, in order: each required pattern, each optional pattern,
/// the join, each filter, the query.
pub open spec fn plan_jobs(p: QueryPlanModel, qid: Seq<char>, ev: PlanEval) -> Seq<WriteJob> {
    let sp = statement_pattern_binding_set_spec();
    let pattern_jobs = Seq::new(
        p.patterns.len(),
        |k: int| WriteJob {
            node: p.patterns[k].node_id,
            column: sp,
            order: sorted_names(crate::fluo_pcj::pattern_vars(p.patterns[k].pattern)),
            rows: ev.pattern_rows[k],
        },
    );
    let optional_jobs = Seq::new(
        p.optional_patterns.len(),
        |k: int| WriteJob {
            node: p.optional_patterns[k].node_id,
            column: sp,
            order: sorted_names(crate::fluo_pcj::pattern_vars(p.optional_patterns[k].pattern)),
            rows: ev.optional_rows[k],
        },
    );
    let join_jobs = match p.join_node_id {
        Some(j) => seq![WriteJob { node: j, column: join_binding_set_spec(), order: join_vars(p), rows: ev.joined }],
        None => Seq::empty(),
    };
    let filter_jobs = Seq::new(
        p.filters.len(),
        |k: int| WriteJob {
            node: p.filters[k].node_id,
            column: filter_binding_set_spec(),
            order: join_vars(p),
            rows: ev.filter_rows[k],
        },
    );
    let query_job = seq![WriteJob { node: qid, column: query_binding_set_spec(), order: p.projected_vars, rows: ev.projected }];
    pattern_jobs + optional_jobs + join_jobs + filter_jobs + query_job
}


// ---------------------------------------------------------------------------
// Computing and writing
// ---------------------------------------------------------------------------

/// The rows a recomputation produces.
pub struct PlanRows {
    pub pattern_rows: Vec<Vec<VisibilityBindingSet>>,
    pub optional_rows: Vec<Vec<VisibilityBindingSet>>,
    pub joined: Vec<VisibilityBindingSet>,
    pub filter_rows: Vec<Vec<VisibilityBindingSet>>,
    pub projected: Vec<VisibilityBindingSet>,
}

pub open spec fn row_lists(v: Seq<Vec<VisibilityBindingSet>>) -> Seq<Seq<RowModel>> {
    v.map_values(|x: Vec<VisibilityBindingSet>| row_models(x@))
}

pub open spec fn plan_rows_model(r: PlanRows) -> PlanEval {
    PlanEval {
        pattern_rows: row_lists(r.pattern_rows@),
        optional_rows: row_lists(r.optional_rows@),
        joined: row_models(r.joined@),
        filter_rows: row_lists(r.filter_rows@),
        projected: row_models(r.projected@),
    }
}

fn results_of(patterns: &Vec<crate::fluo_pcj::plan::PlannedPattern>, statements: &Vec<VisibleStatement>) -> (r: Vec<Vec<VisibilityBindingSet>>)
    ensures
        row_lists(r@) == pattern_results(
            crate::fluo_pcj::plan::planned_models(patterns@),
            visible_models(statements@),
            patterns@.len(),
        ),
{
    let ghost ps = crate::fluo_pcj::plan::planned_models(patterns@);
    let ghost sts = visible_models(statements@);
    let mut out: Vec<Vec<VisibilityBindingSet>> = Vec::new();
    let mut i: usize = 0;
    assert(row_lists(out@) =~= Seq::<Seq<RowModel>>::empty());
    while i < patterns.len()
        invariant
            i <= patterns.len(),
            ps == crate::fluo_pcj::plan::planned_models(patterns@),
            sts == visible_models(statements@),
            row_lists(out@) == pattern_results(ps, sts, i as nat),
        decreases patterns.len() - i,
    {
        let rows = to_row_set(match_statements(&patterns[i].pattern, statements));
        assert(ps[i as int].pattern == crate::fluo_pcj::fluo_pattern_model(patterns@[i as int].pattern));
        let ghost before = out@;
        let ghost rm = row_models(rows@);
        out.push(rows);
        assert(row_lists(out@) =~= row_lists(before).push(rm));
        i = i + 1;
    }
    out
}

fn join_results(results: &Vec<Vec<VisibilityBindingSet>>) -> (r: Vec<VisibilityBindingSet>)
    ensures
        row_models(r@) == join_all(row_lists(results@), results@.len()),
{
    if results.len() == 0 {
        let r: Vec<VisibilityBindingSet> = Vec::new();
        assert(row_models(r@) =~= Seq::<RowModel>::empty());
        return r;
    }
    let mut acc = crate::fluo_pcj::rows::clone_rows(&results[0]);
    let mut i: usize = 1;
    while i < results.len()
        invariant
            1 <= i <= results.len(),
            row_models(acc@) == join_all(row_lists(results@), i as nat),
        decreases results.len() - i,
    {
        let next = visible_natural_join(&acc, &results[i]);
        acc = next;
        i = i + 1;
    }
    acc
}

fn filter_by(rows: &Vec<VisibilityBindingSet>, f: &crate::fluo_pcj::sparql::FilterExpression) -> (r: Vec<VisibilityBindingSet>)
    ensures
        row_models(r@) == row_models(rows@).filter(passes(filter_model(*f))),
{
    let mut out: Vec<VisibilityBindingSet> = Vec::new();
    let mut i: usize = 0;
    proof {
        crate::seqs::lemma_filter_take_zero(row_models(rows@), passes(filter_model(*f)));
    }
    assert(row_models(out@) =~= Seq::<RowModel>::empty());
    while i < rows.len()
        invariant
            i <= rows.len(),
            row_models(out@) == row_models(rows@).take(i as int).filter(passes(filter_model(*f))),
        decreases rows.len() - i,
    {
        proof {
            crate::seqs::lemma_filter_take_step(row_models(rows@), passes(filter_model(*f)), i as int);
        }
        assert(row_models(rows@)[i as int] == row_model(rows@[i as int]));
        if f.accepts(&rows[i].bindings) {
            let ghost before = out@;
            let item = rows[i].clone();
            out.push(item);
            assert(row_models(out@) =~= row_models(before).push(row_model(rows@[i as int])));
        }
        i = i + 1;
    }
    proof {
        crate::seqs::lemma_take_full(row_models(rows@));
    }
    out
}

fn project_rows(rows: &Vec<VisibilityBindingSet>, vars: &Vec<String>) -> (r: Vec<VisibilityBindingSet>)
    ensures
        row_models(r@) == projected_spec(views(vars@), row_models(rows@)),
{
    let mut bag: Vec<VisibilityBindingSet> = Vec::new();
    let mut i: usize = 0;
    assert(row_models(bag@) =~= row_models(rows@).take(0).map_values(
        |r: RowModel| (project_spec(r.0, views(vars@)), r.1),
    ));
    while i < rows.len()
        invariant
            i <= rows.len(),
            row_models(bag@) == row_models(rows@).take(i as int).map_values(
                |r: RowModel| (project_spec(r.0, views(vars@)), r.1),
            ),
        decreases rows.len() - i,
    {
        let b = project_binding_set(&rows[i].bindings, vars);
        let x = VisibilityBindingSet::new(b, rows[i].visibility.as_str());
        let ghost before = bag@;
        let ghost xm = row_model(x);
        bag.push(x);
        assert(row_models(bag@) =~= row_models(before).push(xm));
        assert(row_models(rows@).take(i + 1) =~= row_models(rows@).take(i as int).push(row_model(rows@[i as int])));
        assert(row_models(bag@) =~= row_models(rows@).take(i + 1).map_values(
            |r: RowModel| (project_spec(r.0, views(vars@)), r.1),
        ));
        i = i + 1;
    }
    assert(row_models(rows@).take(i as int) =~= row_models(rows@));
    to_row_set(bag)
}

/// Computes every result of a plan over the statements.
pub fn evaluate_plan(plan: &QueryPlan, statements: &Vec<VisibleStatement>) -> (r: PlanRows)
    ensures
        plan_rows_model(r) == plan_eval(plan.model(), visible_models(statements@)),
{
    let ghost pm = plan.model();
    let ghost sts = visible_models(statements@);
    let pattern_rows = results_of(&plan.patterns, statements);
    let required = join_results(&pattern_rows);
    let optional_rows = results_of(&plan.optional_patterns, statements);
    let joined = if optional_rows.len() > 0 {
        let optional = join_results(&optional_rows);
        visible_left_join(&required, &optional)
    } else {
        required
    };
    assert(row_models(joined@) == joined_spec(pm, sts));
    let mut filter_rows: Vec<Vec<VisibilityBindingSet>> = Vec::new();
    let mut current = crate::fluo_pcj::rows::clone_rows(&joined);
    let mut k: usize = 0;
    while k < plan.filters.len()
        invariant
            k <= plan.filters.len(),
            pm == plan.model(),
            filter_rows@.len() == k,
            forall|j: int| 0 <= j < k ==> row_models(#[trigger] filter_rows@[j]@) == filtered_spec(
                pm,
                row_models(joined@),
                (j + 1) as nat,
            ),
            row_models(current@) == filtered_spec(pm, row_models(joined@), k as nat),
        decreases plan.filters.len() - k,
    {
        assert(pm.filters[k as int].expression == filter_model(plan.filters@[k as int].expression));
        let next = filter_by(&current, &plan.filters[k].expression);
        filter_rows.push(crate::fluo_pcj::rows::clone_rows(&next));
        current = next;
        k = k + 1;
    }
    let projected = project_rows(&current, &plan.projected_vars);
    let r = PlanRows { pattern_rows, optional_rows, joined, filter_rows, projected };
    assert(plan_rows_model(r).filter_rows =~= plan_eval(pm, sts).filter_rows);
    r
}


pub proof fn lemma_pattern_results_len(ps: Seq<PlannedPatternModel>, sts: Seq<VisibleModel>, n: nat)
    requires
        n <= ps.len(),
    ensures
        pattern_results(ps, sts, n).len() == n,
    decreases n,
{
    if n > 0 {
        lemma_pattern_results_len(ps, sts, (n - 1) as nat);
    }
}

} // verus!
