use vstd::prelude::*;

use crate::domain::{opt_as_str, RyaStatement, RyaStatementModel, RyaType, RyaTypeModel};
use crate::fjall::iterators::{is_first_entry_id, IteratorSetting};
use crate::query::{pattern_model, PatternModel, QueryOptions, StatementPattern};
use crate::resolver::serialize_type;
use crate::resolver::triple::{
    layout_of, regex_fields, TableLayout, TripleContext, TriplePatternStrategyKind,
    TripleRowRegex,
};
use crate::seqs::{first_index_of, lemma_first_index_of, lemma_first_index_of_at};
use crate::sorted::{insertion_point, lemma_insert_sorted, sorted_position, strictly_sorted};
use crate::resolver::digest::{hex_spec, hex_string};
use crate::resolver::triple::{context_regex, ordered_parts, row_regex_spec, strategies_spec, HASHED_ALL_REGEX};
use crate::resolver::type_suffix;
use crate::text::{concat, push_char, push_str, to_owned, views};

verus! {

/// The text of an optional part, empty when absent.
pub open spec fn or_empty(o: Option<Seq<char>>) -> Seq<char> {
    match o {
        Some(t) => t,
        None => Seq::empty(),
    }
}

/// The key of a value: datatype, language and data, separated by NUL.
pub open spec fn type_key_spec(t: RyaTypeModel) -> Seq<char> {
    or_empty(t.data_type) + seq!['\0'] + or_empty(t.language) + seq!['\0'] + t.data
}

/// The key of a value: datatype, language and data, separated by NUL.
pub fn type_key(value: &RyaType) -> (r: String)
    ensures
        r@ == type_key_spec(value@),
{
    let mut out = String::new();
    match value.data_type() {
        Some(dt) => push_str(&mut out, dt),
        None => {},
    }
    push_char(&mut out, '\0');
    match value.language() {
        Some(l) => push_str(&mut out, l),
        None => {},
    }
    push_char(&mut out, '\0');
    push_str(&mut out, value.data());
    assert(out@ =~= type_key_spec(value@));
    out
}

/// The core-table row a statement is read from under a pattern: the PO row when predicate
/// and object are fixed, the OSP row when only the object is, the SPO row otherwise.
pub open spec fn core_table_row_spec(st: RyaStatementModel, p: PatternModel) -> Seq<char> {
    match (p.subject, p.predicate, p.object) {
        (None, Some(pred), Some(obj)) => "po"@ + seq!['\0'] + pred.data + seq!['\0'] + type_key_spec(obj),
        (None, None, Some(obj)) => "osp"@ + seq!['\0'] + type_key_spec(obj),
        (Some(subj), _, _) => "spo"@ + seq!['\0'] + subj.data,
        (None, Some(pred), None) => "po"@ + seq!['\0'] + pred.data,
        (None, None, None) => "spo"@ + seq!['\0'] + st.subject.data,
    }
}

/// The core-table row a statement is read from under a pattern.
pub fn core_table_row(statement: &RyaStatement, pattern: &StatementPattern) -> (r: String)
    ensures
        r@ == core_table_row_spec(statement@, pattern_model(*pattern)),
{
    let mut out = String::new();
    match (&pattern.subject, &pattern.predicate, &pattern.object) {
        (None, Some(pred), Some(obj)) => {
            push_str(&mut out, "po");
            push_char(&mut out, '\0');
            push_str(&mut out, pred.data());
            push_char(&mut out, '\0');
            push_str(&mut out, type_key(obj).as_str());
        },
        (None, None, Some(obj)) => {
            push_str(&mut out, "osp");
            push_char(&mut out, '\0');
            push_str(&mut out, type_key(obj).as_str());
        },
        (Some(subj), _, _) => {
            push_str(&mut out, "spo");
            push_char(&mut out, '\0');
            push_str(&mut out, subj.data());
        },
        (None, Some(pred), None) => {
            push_str(&mut out, "po");
            push_char(&mut out, '\0');
            push_str(&mut out, pred.data());
        },
        (None, None, None) => {
            push_str(&mut out, "spo");
            push_char(&mut out, '\0');
            push_str(&mut out, statement.subject.data());
        },
    }
    assert(out@ =~= core_table_row_spec(statement@, pattern_model(*pattern)));
    out
}

/// The rows of the statements under a pattern.
pub open spec fn rows_of(s: Seq<RyaStatementModel>, p: PatternModel) -> Seq<Seq<char>> {
    s.map_values(|st: RyaStatementModel| core_table_row_spec(st, p))
}

/// `out` keeps, for each row of `s`, the first statement of `s` read from it, in increasing
/// order of row.
pub open spec fn first_entries(s: Seq<RyaStatementModel>, p: PatternModel, out: Seq<RyaStatementModel>) -> bool {
    &&& strictly_sorted(rows_of(out, p))
    &&& forall|j: int| 0 <= j < out.len() ==> ((#[trigger] first_index_of(rows_of(s, p), rows_of(out, p)[j])) matches Some(k)
        && out[j] == s[k])
    &&& forall|k: int| 0 <= k < s.len() ==> rows_of(out, p).contains(#[trigger] rows_of(s, p)[k])
}

pub open spec fn statement_views(v: Seq<RyaStatement>) -> Seq<RyaStatementModel> {
    v.map_values(|st: RyaStatement| st@)
}

/// Keeps the first statement read from each row, in increasing order of row.
pub fn first_entry_in_row(statements: Vec<RyaStatement>, pattern: &StatementPattern) -> (r: Vec<RyaStatement>)
    ensures
        first_entries(statement_views(statements@), pattern_model(*pattern), statement_views(r@)),
{
    let ghost s = statement_views(statements@);
    let ghost p = pattern_model(*pattern);
    let mut rows: Vec<String> = Vec::new();
    let mut out: Vec<RyaStatement> = Vec::new();
    let mut i: usize = 0;
    while i < statements.len()
        invariant
            i <= statements.len(),
            s == statement_views(statements@),
            p == pattern_model(*pattern),
            views(rows@) == rows_of(statement_views(out@), p),
            strictly_sorted(views(rows@)),
            forall|j: int| 0 <= j < out.len() ==> ((#[trigger] first_index_of(rows_of(s, p), views(rows@)[j])) matches Some(k)
                && k < i && statement_views(out@)[j] == s[k]),
            forall|k: int| 0 <= k < i ==> views(rows@).contains(#[trigger] rows_of(s, p)[k]),
        decreases statements.len() - i,
    {
        let key = core_table_row(&statements[i], pattern);
        assert(key@ == rows_of(s, p)[i as int]);
        let (pos, found) = sorted_position(&rows, key.as_str());
        if !found {
            proof {
                lemma_insert_sorted(views(rows@), key@, pos as int);
                assert forall|j: int| 0 <= j < i implies rows_of(s, p)[j] != key@ by {
                    if rows_of(s, p)[j] == key@ {
                        assert(views(rows@).contains(rows_of(s, p)[j]));
                    }
                }
                lemma_first_index_of_at(rows_of(s, p), key@, i as int);
            }
            let ghost old_rows = views(rows@);
            let ghost old_out = statement_views(out@);
            rows.insert(pos, key);
            out.insert(pos, statements[i].clone());
            assert(views(rows@) =~= old_rows.insert(pos as int, rows_of(s, p)[i as int]));
            assert(statement_views(out@) =~= old_out.insert(pos as int, s[i as int]));
            assert(rows_of(statement_views(out@), p) =~= rows_of(old_out, p).insert(
                pos as int,
                rows_of(s, p)[i as int],
            ));
            assert forall|j: int| 0 <= j < out.len() implies ((#[trigger] first_index_of(
                rows_of(s, p),
                views(rows@)[j],
            )) matches Some(k) && k < i + 1 && statement_views(out@)[j] == s[k]) by {
                if j < pos {
                    assert(views(rows@)[j] == old_rows[j]);
                    assert(statement_views(out@)[j] == old_out[j]);
                } else if j > pos {
                    assert(views(rows@)[j] == old_rows[j - 1]);
                    assert(statement_views(out@)[j] == old_out[j - 1]);
                }
            }
            assert forall|k: int| 0 <= k < i + 1 implies views(rows@).contains(
                #[trigger] rows_of(s, p)[k],
            ) by {
                if k < i {
                    let w = choose|w: int| 0 <= w < old_rows.len() && old_rows[w] == rows_of(s, p)[k];
                    if w < pos {
                        assert(views(rows@)[w] == old_rows[w]);
                    } else {
                        assert(views(rows@)[w + 1] == old_rows[w]);
                    }
                } else {
                    assert(views(rows@)[pos as int] == key@);
                }
            }
        } else {
            assert(views(rows@)[pos as int] == key@);
        }
        i = i + 1;
    }
    out
}

/// The setting reported for an unsupported iterator: the first of them by priority, then by
/// position.
pub open spec fn first_unsupported(its: Seq<IteratorSetting>, k: int) -> bool {
    &&& 0 <= k < its.len()
    &&& !is_first_entry_id(its[k].iterator_id@)
    &&& forall|k2: int| 0 <= k2 < its.len() && !is_first_entry_id(#[trigger] its[k2].iterator_id@)
        ==> its[k].priority < its[k2].priority || (its[k].priority == its[k2].priority && k <= k2)
}

/// Applies the configured iterators, in order of priority, to scanned statements: only the
/// first-entry-in-row iterator is known; any other is an error that names it.
pub fn apply_additional_iterators(
    statements: Vec<RyaStatement>,
    pattern: &StatementPattern,
    iterators: &[IteratorSetting],
) -> (r: Result<Vec<RyaStatement>, String>)
    ensures
        r is Err <==> exists|k: int| 0 <= k < iterators@.len() && !is_first_entry_id(
            #[trigger] iterators@[k].iterator_id@,
        ),
        r matches Err(e) ==> exists|k: int| #[trigger] first_unsupported(iterators@, k) && e@
            == "Unsupported in-memory Fjall iterator: "@ + iterators@[k].iterator_id@,
        iterators@.len() == 0 ==> (r matches Ok(v) ==> statement_views(v@) == statement_views(statements@)),
        iterators@.len() > 0 ==> (r matches Ok(v) ==> first_entries(
            statement_views(statements@),
            pattern_model(*pattern),
            statement_views(v@),
        )),
{
    let mut worst: Option<usize> = None;
    let mut i: usize = 0;
    while i < iterators.len()
        invariant
            i <= iterators.len(),
            match worst {
                Some(w) => w < i && first_unsupported(iterators@.take(i as int), w as int),
                None => forall|k: int| 0 <= k < i ==> is_first_entry_id(#[trigger] iterators@[k].iterator_id@),
            },
        decreases iterators.len() - i,
    {
        let ghost before = worst;
        if !iterators[i].is_first_entry_in_row() {
            match worst {
                None => {
                    worst = Some(i);
                },
                Some(w) => {
                    if iterators[i].priority < iterators[w].priority {
                        worst = Some(i);
                    }
                },
            }
        }
        proof {
            let t = iterators@.take(i + 1);
            assert forall|k: int| 0 <= k < i + 1 implies t[k] == iterators@[k] by {}
            match worst {
                Some(w) => {
                    assert forall|k2: int| 0 <= k2 < t.len() && !is_first_entry_id(#[trigger] t[k2].iterator_id@)
                        implies t[w as int].priority < t[k2].priority || (t[w as int].priority == t[k2].priority
                        && w <= k2) by {
                        if k2 < i {
                            assert(iterators@.take(i as int)[k2] == t[k2]);
                            if let Some(b) = before {
                                assert(iterators@.take(i as int)[b as int] == t[b as int]);
                            }
                        }
                    }
                },
                None => {},
            }
        }
        i = i + 1;
    }
    assert(iterators@.take(i as int) =~= iterators@);
    match worst {
        Some(w) => Err(concat("Unsupported in-memory Fjall iterator: ", iterators[w].iterator_id.as_str())),
        None => {
            if iterators.len() == 0 {
                Ok(statements)
            } else {
                Ok(first_entry_in_row(statements, pattern))
            }
        },
    }
}


// ---------------------------------------------------------------------------
// Storage keys
// ---------------------------------------------------------------------------

pub open spec fn opt_type_data(o: Option<RyaTypeModel>) -> Option<Seq<char>> {
    match o {
        Some(t) => Some(t.data),
        None => None,
    }
}

/// Lower-case hexadecimal of optional bytes, empty when absent.
pub open spec fn bytes_key_spec(b: Option<Seq<u8>>) -> Seq<char> {
    match b {
        Some(b) => hex_spec(b),
        None => Seq::empty(),
    }
}

/// Lower-case hexadecimal of optional bytes, empty when absent.
pub fn bytes_key(bytes: Option<&[u8]>) -> (r: String)
    ensures
        r@ == bytes_key_spec(
            match bytes {
                Some(b) => Some(b@),
                None => None,
            },
        ),
{
    match bytes {
        Some(b) => hex_string(b),
        None => String::new(),
    }
}

/// The storage key of a statement: its parts separated by NUL, the visibility in hexadecimal.
pub open spec fn statement_key_spec(st: RyaStatementModel) -> Seq<char> {
    st.subject.data + seq!['\0'] + st.predicate.data + seq!['\0'] + type_key_spec(st.object) + seq!['\0']
        + or_empty(opt_type_data(st.context)) + seq!['\0'] + or_empty(st.qualifier) + seq!['\0']
        + bytes_key_spec(st.column_visibility)
}

/// The storage key of a statement: its parts separated by NUL, the visibility in hexadecimal.
pub fn fjall_statement_key(statement: &RyaStatement) -> (r: String)
    ensures
        r@ == statement_key_spec(statement@),
{
    let mut out = to_owned(statement.subject.data());
    push_char(&mut out, '\0');
    push_str(&mut out, statement.predicate.data());
    push_char(&mut out, '\0');
    push_str(&mut out, type_key(&statement.object).as_str());
    push_char(&mut out, '\0');
    match &statement.context {
        Some(c) => push_str(&mut out, c.data()),
        None => {},
    }
    push_char(&mut out, '\0');
    match opt_as_str(&statement.qualifier) {
        Some(q) => push_str(&mut out, q),
        None => {},
    }
    push_char(&mut out, '\0');
    let cv: Option<&[u8]> = match &statement.column_visibility {
        Some(v) => Some(v.as_slice()),
        None => None,
    };
    push_str(&mut out, bytes_key(cv).as_str());
    assert(out@ =~= statement_key_spec(statement@));
    out
}

/// The text of an optional part, `*` when absent.
pub open spec fn or_star(o: Option<Seq<char>>) -> Seq<char> {
    match o {
        Some(t) => t,
        None => "*"@,
    }
}

/// The storage key of a pattern: its parts separated by NUL, `*` for an open part.
pub open spec fn pattern_key_spec(p: PatternModel) -> Seq<char> {
    or_star(opt_type_data(p.subject)) + seq!['\0'] + or_star(opt_type_data(p.predicate)) + seq!['\0']
        + match p.object {
        Some(o) => type_key_spec(o),
        None => "*"@,
    } + seq!['\0'] + or_star(opt_type_data(p.context)) + seq!['\0'] + or_star(p.qualifier)
}

fn push_or_star(out: &mut String, o: Option<&str>)
    ensures
        final(out)@ == old(out)@ + or_star(
            match o {
                Some(t) => Some(t@),
                None => None,
            },
        ),
{
    match o {
        Some(t) => push_str(out, t),
        None => push_str(out, "*"),
    }
}

/// The storage key of a pattern: its parts separated by NUL, `*` for an open part.
pub fn pattern_storage_key(pattern: &StatementPattern) -> (r: String)
    ensures
        r@ == pattern_key_spec(pattern_model(*pattern)),
{
    let mut out = String::new();
    let subject: Option<&str> = match &pattern.subject {
        Some(v) => Some(v.data()),
        None => None,
    };
    push_or_star(&mut out, subject);
    push_char(&mut out, '\0');
    let predicate: Option<&str> = match &pattern.predicate {
        Some(v) => Some(v.data()),
        None => None,
    };
    push_or_star(&mut out, predicate);
    push_char(&mut out, '\0');
    match &pattern.object {
        Some(o) => push_str(&mut out, type_key(o).as_str()),
        None => push_str(&mut out, "*"),
    }
    push_char(&mut out, '\0');
    let context: Option<&str> = match &pattern.context {
        Some(v) => Some(v.data()),
        None => None,
    };
    push_or_star(&mut out, context);
    push_char(&mut out, '\0');
    push_or_star(&mut out, opt_as_str(&pattern.qualifier));
    assert(out@ =~= pattern_key_spec(pattern_model(*pattern)));
    out
}

// ---------------------------------------------------------------------------
// Planning a scan
// ---------------------------------------------------------------------------

/// How one query pattern is scanned: the table, the strategy, whether the whole table is
/// read, and the row filter.
pub struct FjallQueryScanPlan {
    pub layout: TableLayout,
    pub strategy: TriplePatternStrategyKind,
    pub full_table_scan: bool,
    pub triple_row_regex: Option<TripleRowRegex>,
}

/// The strategy of the SPO table in a triple context.
pub open spec fn spo_strategy(hashed: bool) -> TriplePatternStrategyKind {
    if hashed {
        TriplePatternStrategyKind::HashedSpoWholeRow
    } else {
        TriplePatternStrategyKind::SpoWholeRow
    }
}

pub open spec fn opt_string_view(o: Option<String>) -> Option<Seq<char>> {
    crate::domain::opt_view(o)
}

/// The row filter a plan holds for a strategy and the query's regular expressions.
pub open spec fn plan_regex(
    x: Option<TripleRowRegex>,
    k: TriplePatternStrategyKind,
    o: QueryOptions,
    type_info: Option<Seq<u8>>,
) -> bool {
    let subject = opt_string_view(o.regex_subject);
    let predicate = opt_string_view(o.regex_predicate);
    let object = opt_string_view(o.regex_object);
    let prefix = if crate::resolver::triple::hashed_kind(k) && layout_of(k) != TableLayout::Osp {
        HASHED_ALL_REGEX@
    } else {
        Seq::empty()
    };
    let (a, b, c) = ordered_parts(layout_of(k), subject, predicate, object);
    match x {
        None => subject is None && predicate is None && object is None && type_info is None,
        Some(x) => x.row@ == row_regex_spec(prefix, a, b, c, type_info) && x.column_family is None
            && x.column_qualifier is None && !(subject is None && predicate is None && object is None
            && type_info is None),
    }
}

/// A scan plan filters rows exactly when the query gives a regular expression for the
/// subject, predicate or object, or the pattern fixes the object.
pub proof fn law_scan_filters_rows_iff_constrained(
    x: Option<TripleRowRegex>,
    k: TriplePatternStrategyKind,
    o: QueryOptions,
    type_info: Option<Seq<u8>>,
)
    requires
        plan_regex(x, k, o, type_info),
    ensures
        x is None <==> (o.regex_subject is None && o.regex_predicate is None && o.regex_object is None
            && type_info is None),
{
}

/// Plans the scan of one pattern: the chosen strategy, or the SPO strategy over the whole
/// table when none was chosen; a row filter from the query's regular expressions and the
/// pattern object's datatype.
pub fn plan_single_query_scan(
    context: &TripleContext,
    selected_strategy: Option<TriplePatternStrategyKind>,
    pattern: &StatementPattern,
    options: &QueryOptions,
) -> (r: Result<FjallQueryScanPlan, String>)
    ensures
        r is Err <==> (pattern_model(*pattern).object matches Some(o) && o.data_type is None),
        r matches Err(e) ==> e@ == "RyaType is missing a datatype"@,
        r matches Ok(plan) ==> {
            &&& plan.strategy == match selected_strategy {
                Some(k) => k,
                None => spo_strategy(context.hashed()),
            }
            &&& plan.full_table_scan == (selected_strategy is None)
            &&& plan.layout == layout_of(plan.strategy)
            &&& plan_regex(
                plan.triple_row_regex,
                plan.strategy,
                *options,
                match pattern_model(*pattern).object {
                    Some(o) => Some(type_suffix(o.data_type->0)),
                    None => None,
                },
            )
        },
{
    let (strategy, full_table_scan) = match selected_strategy {
        Some(strategy) => (strategy, false),
        None => {
            match context.retrieve_strategy(TableLayout::Spo) {
                Some(k) => {
                    assert(strategies_spec(context.hashed())[0] == spo_strategy(context.hashed()));
                    (k, true)
                },
                None => {
                    assert(layout_of(strategies_spec(context.hashed())[0]) == TableLayout::Spo);
                    return Err(to_owned("No SPO strategy available for default full-table scan"));
                },
            }
        },
    };
    let type_info: Option<Vec<u8>> = match &pattern.object {
        Some(object) => match serialize_type(object) {
            Ok((_, info)) => Some(info),
            Err(e) => {
                return Err(e);
            },
        },
        None => None,
    };
    let info_slice: Option<&[u8]> = match &type_info {
        Some(v) => Some(v.as_slice()),
        None => None,
    };
    let triple_row_regex = strategy.build_regex(
        opt_as_str(&options.regex_subject),
        opt_as_str(&options.regex_predicate),
        opt_as_str(&options.regex_object),
        None,
        info_slice,
    );
    Ok(FjallQueryScanPlan { layout: strategy.layout(), strategy, full_table_scan, triple_row_regex })
}

} // verus!
