use vstd::prelude::*;

use crate::fluo_pcj::columns::{ query_id, query_id_spec, query_node_id, query_node_id_spec, query_variable_order, query_variable_order_spec, query_sparql, query_sparql_spec, query_child_node_id, query_child_node_id_spec, filter_node_id, filter_node_id_spec, filter_variable_order, filter_variable_order_spec, filter_original_sparql, filter_original_sparql_spec, filter_index_within_sparql, filter_index_within_sparql_spec, filter_parent_node_id, filter_parent_node_id_spec, filter_child_node_id, filter_child_node_id_spec, join_node_id, join_node_id_spec, join_variable_order, join_variable_order_spec, join_type, join_type_spec, join_parent_node_id, join_parent_node_id_spec, join_left_child_node_id, join_left_child_node_id_spec, join_right_child_node_id, join_right_child_node_id_spec, statement_pattern_node_id, statement_pattern_node_id_spec, statement_pattern_variable_order, statement_pattern_variable_order_spec, statement_pattern_pattern, statement_pattern_pattern_spec, statement_pattern_parent_node_id, statement_pattern_parent_node_id_spec,};
use crate::fluo_pcj::{column_model, ColumnModel, FluoColumn, InMemoryFluo};
use crate::pcj::VariableOrder;
use crate::text::{
    concat, parse_in_range, parse_u64, parse_unsigned_spec, push_str, split_spec, str_eq, to_owned,
    u64_to_string, decimal,
};
use crate::words::join_spec;

verus! {

pub type Cells = Map<(Seq<char>, ColumnModel), Seq<char>>;

/// The order that a stored `;`-separated text names.
pub open spec fn order_from_text(t: Seq<char>) -> Seq<Seq<char>> {
    if t.len() == 0 {
        Seq::empty()
    } else {
        split_spec(t, ';')
    }
}

/// The stored text of an order.
pub open spec fn order_text(o: Seq<Seq<char>>) -> Seq<char> {
    join_spec(o, ";"@)
}

/// The error for a cell that is not there.
pub open spec fn missing_text(row: Seq<char>, c: ColumnModel) -> Seq<char> {
    "Missing Fluo value at row '"@ + row + "', column '"@ + c.0 + ":"@ + c.1 + "'"@
}

/// The value of a cell, or the error that names it.
pub open spec fn required_spec(cells: Cells, row: Seq<char>, c: ColumnModel) -> Result<Seq<char>, Seq<char>> {
    if cells.contains_key((row, c)) {
        Ok(cells[(row, c)])
    } else {
        Err(missing_text(row, c))
    }
}

/// The value of a cell, or an error that names the row and column.
pub fn required<'a>(fluo: &'a InMemoryFluo, row: &str, column: FluoColumn) -> (r: Result<&'a String, String>)
    ensures
        match required_spec(fluo.cells(), row@, column_model(column)) {
            Ok(v) => r matches Ok(x) && x@ == v,
            Err(e) => r matches Err(x) && x@ == e,
        },
{
    match fluo.get(row, column) {
        Some(v) => Ok(v),
        None => {
            let mut msg = concat("Missing Fluo value at row '", row);
            push_str(&mut msg, "', column '");
            push_str(&mut msg, column.family);
            push_str(&mut msg, ":");
            push_str(&mut msg, column.qualifier);
            push_str(&mut msg, "'");
            Err(msg)
        },
    }
}

/// The metadata of a query's root node.
pub struct QueryMetadata {
    pub node_id: String,
    pub variable_order: VariableOrder,
    pub sparql: String,
    pub child_node_id: String,
}

pub struct QueryMetadataModel {
    pub node_id: Seq<char>,
    pub variable_order: Seq<Seq<char>>,
    pub sparql: Seq<char>,
    pub child_node_id: Seq<char>,
}

impl QueryMetadata {
    pub open spec fn model(self) -> QueryMetadataModel {
        QueryMetadataModel {
            node_id: self.node_id@,
            variable_order: self.variable_order@,
            sparql: self.sparql@,
            child_node_id: self.child_node_id@,
        }
    }
}

/// The metadata of a statement-pattern node.
pub struct StatementPatternMetadata {
    pub node_id: String,
    pub variable_order: VariableOrder,
    pub statement_pattern: String,
    pub parent_node_id: String,
}

pub struct StatementPatternMetadataModel {
    pub node_id: Seq<char>,
    pub variable_order: Seq<Seq<char>>,
    pub statement_pattern: Seq<char>,
    pub parent_node_id: Seq<char>,
}

impl StatementPatternMetadata {
    pub open spec fn model(self) -> StatementPatternMetadataModel {
        StatementPatternMetadataModel {
            node_id: self.node_id@,
            variable_order: self.variable_order@,
            statement_pattern: self.statement_pattern@,
            parent_node_id: self.parent_node_id@,
        }
    }
}

/// The metadata of a filter node.
pub struct FilterMetadata {
    pub node_id: String,
    pub variable_order: VariableOrder,
    pub original_sparql: String,
    pub filter_index_within_sparql: usize,
    pub parent_node_id: String,
    pub child_node_id: String,
}

pub struct FilterMetadataModel {
    pub node_id: Seq<char>,
    pub variable_order: Seq<Seq<char>>,
    pub original_sparql: Seq<char>,
    pub filter_index_within_sparql: int,
    pub parent_node_id: Seq<char>,
    pub child_node_id: Seq<char>,
}

impl FilterMetadata {
    pub open spec fn model(self) -> FilterMetadataModel {
        FilterMetadataModel {
            node_id: self.node_id@,
            variable_order: self.variable_order@,
            original_sparql: self.original_sparql@,
            filter_index_within_sparql: self.filter_index_within_sparql as int,
            parent_node_id: self.parent_node_id@,
            child_node_id: self.child_node_id@,
        }
    }
}

/// How a join node combines its children.
#[derive(Clone, Copy, PartialEq, Eq, Structural)]
pub enum JoinType {
    NaturalJoin,
    LeftOuterJoin,
}

pub open spec fn join_type_name(t: JoinType) -> Seq<char> {
    match t {
        JoinType::NaturalJoin => "NATURAL_JOIN"@,
        JoinType::LeftOuterJoin => "LEFT_OUTER_JOIN"@,
    }
}

/// The join type a stored name names.
pub open spec fn join_type_from_name(v: Seq<char>) -> Result<JoinType, Seq<char>> {
    if v == "NATURAL_JOIN"@ {
        Ok(JoinType::NaturalJoin)
    } else if v == "LEFT_OUTER_JOIN"@ {
        Ok(JoinType::LeftOuterJoin)
    } else {
        Err("Unsupported JoinType: "@ + v)
    }
}

impl JoinType {
    pub fn as_storage_name(self) -> (r: &'static str)
        ensures
            r@ == join_type_name(self),
    {
        match self {
            JoinType::NaturalJoin => "NATURAL_JOIN",
            JoinType::LeftOuterJoin => "LEFT_OUTER_JOIN",
        }
    }

    pub fn parse_storage_name(value: &str) -> (r: Result<JoinType, String>)
        ensures
            match join_type_from_name(value@) {
                Ok(t) => r == Ok::<JoinType, String>(t),
                Err(e) => r matches Err(x) && x@ == e,
            },
    {
        if str_eq(value, "NATURAL_JOIN") {
            Ok(JoinType::NaturalJoin)
        } else if str_eq(value, "LEFT_OUTER_JOIN") {
            Ok(JoinType::LeftOuterJoin)
        } else {
            Err(concat("Unsupported JoinType: ", value))
        }
    }
}

/// The metadata of a join node.
pub struct JoinMetadata {
    pub node_id: String,
    pub variable_order: VariableOrder,
    pub join_type: JoinType,
    pub parent_node_id: String,
    pub left_child_node_id: String,
    pub right_child_node_id: String,
}

pub struct JoinMetadataModel {
    pub node_id: Seq<char>,
    pub variable_order: Seq<Seq<char>>,
    pub join_type: JoinType,
    pub parent_node_id: Seq<char>,
    pub left_child_node_id: Seq<char>,
    pub right_child_node_id: Seq<char>,
}

impl JoinMetadata {
    pub open spec fn model(self) -> JoinMetadataModel {
        JoinMetadataModel {
            node_id: self.node_id@,
            variable_order: self.variable_order@,
            join_type: self.join_type,
            parent_node_id: self.parent_node_id@,
            left_child_node_id: self.left_child_node_id@,
            right_child_node_id: self.right_child_node_id@,
        }
    }
}

/// The whole Fluo plan of a query: its root and its nodes, each list in increasing order of
/// node id, one entry per id.
pub struct FluoQuery {
    pub query_metadata: QueryMetadata,
    pub statement_patterns: Vec<StatementPatternMetadata>,
    pub filters: Vec<FilterMetadata>,
    pub joins: Vec<JoinMetadata>,
}

/// Reads and writes node metadata in the Fluo table.
pub struct FluoQueryMetadataDao;

// ---------------------------------------------------------------------------
// What writing and reading does to the cells
// ---------------------------------------------------------------------------

pub open spec fn query_written(cells: Cells, m: QueryMetadataModel) -> Cells {
    let row = m.node_id;
    cells.insert((row, query_node_id_spec()), row).insert(
        (row, query_variable_order_spec()),
        order_text(m.variable_order),
    ).insert((row, query_sparql_spec()), m.sparql).insert((row, query_child_node_id_spec()), m.child_node_id)
}

pub open spec fn query_read(cells: Cells, node_id: Seq<char>) -> Result<QueryMetadataModel, Seq<char>> {
    match required_spec(cells, node_id, query_variable_order_spec()) {
        Err(e) => Err(e),
        Ok(vo) => match required_spec(cells, node_id, query_sparql_spec()) {
            Err(e) => Err(e),
            Ok(sparql) => match required_spec(cells, node_id, query_child_node_id_spec()) {
                Err(e) => Err(e),
                Ok(child) => Ok(
                    QueryMetadataModel {
                        node_id,
                        variable_order: order_from_text(vo),
                        sparql,
                        child_node_id: child,
                    },
                ),
            },
        },
    }
}

pub open spec fn statement_pattern_written(cells: Cells, m: StatementPatternMetadataModel) -> Cells {
    let row = m.node_id;
    cells.insert((row, statement_pattern_node_id_spec()), row).insert(
        (row, statement_pattern_variable_order_spec()),
        order_text(m.variable_order),
    ).insert((row, statement_pattern_pattern_spec()), m.statement_pattern).insert(
        (row, statement_pattern_parent_node_id_spec()),
        m.parent_node_id,
    )
}

pub open spec fn statement_pattern_read(cells: Cells, node_id: Seq<char>) -> Result<
    StatementPatternMetadataModel,
    Seq<char>,
> {
    match required_spec(cells, node_id, statement_pattern_variable_order_spec()) {
        Err(e) => Err(e),
        Ok(vo) => match required_spec(cells, node_id, statement_pattern_pattern_spec()) {
            Err(e) => Err(e),
            Ok(pattern) => match required_spec(cells, node_id, statement_pattern_parent_node_id_spec()) {
                Err(e) => Err(e),
                Ok(parent) => Ok(
                    StatementPatternMetadataModel {
                        node_id,
                        variable_order: order_from_text(vo),
                        statement_pattern: pattern,
                        parent_node_id: parent,
                    },
                ),
            },
        },
    }
}

pub open spec fn filter_written(cells: Cells, m: FilterMetadataModel) -> Cells {
    let row = m.node_id;
    cells.insert((row, filter_node_id_spec()), row).insert(
        (row, filter_variable_order_spec()),
        order_text(m.variable_order),
    ).insert((row, filter_original_sparql_spec()), m.original_sparql).insert(
        (row, filter_index_within_sparql_spec()),
        decimal(m.filter_index_within_sparql as nat),
    ).insert((row, filter_parent_node_id_spec()), m.parent_node_id).insert(
        (row, filter_child_node_id_spec()),
        m.child_node_id,
    )
}

pub open spec fn filter_read(cells: Cells, node_id: Seq<char>) -> Result<FilterMetadataModel, Seq<char>> {
    match required_spec(cells, node_id, filter_variable_order_spec()) {
        Err(e) => Err(e),
        Ok(vo) => match required_spec(cells, node_id, filter_original_sparql_spec()) {
            Err(e) => Err(e),
            Ok(sparql) => match required_spec(cells, node_id, filter_index_within_sparql_spec()) {
                Err(e) => Err(e),
                Ok(index_text) => match parse_in_range(
                    parse_unsigned_spec(index_text),
                    0,
                    usize::MAX as int,
                ) {
                    None => Err("Invalid filter index"@),
                    Some(index) => match required_spec(cells, node_id, filter_parent_node_id_spec()) {
                        Err(e) => Err(e),
                        Ok(parent) => match required_spec(cells, node_id, filter_child_node_id_spec()) {
                            Err(e) => Err(e),
                            Ok(child) => Ok(
                                FilterMetadataModel {
                                    node_id,
                                    variable_order: order_from_text(vo),
                                    original_sparql: sparql,
                                    filter_index_within_sparql: index,
                                    parent_node_id: parent,
                                    child_node_id: child,
                                },
                            ),
                        },
                    },
                },
            },
        },
    }
}

pub open spec fn join_written(cells: Cells, m: JoinMetadataModel) -> Cells {
    let row = m.node_id;
    cells.insert((row, join_node_id_spec()), row).insert(
        (row, join_variable_order_spec()),
        order_text(m.variable_order),
    ).insert((row, join_type_spec()), join_type_name(m.join_type)).insert(
        (row, join_parent_node_id_spec()),
        m.parent_node_id,
    ).insert((row, join_left_child_node_id_spec()), m.left_child_node_id).insert(
        (row, join_right_child_node_id_spec()),
        m.right_child_node_id,
    )
}

pub open spec fn join_read(cells: Cells, node_id: Seq<char>) -> Result<JoinMetadataModel, Seq<char>> {
    match required_spec(cells, node_id, join_variable_order_spec()) {
        Err(e) => Err(e),
        Ok(vo) => match required_spec(cells, node_id, join_type_spec()) {
            Err(e) => Err(e),
            Ok(type_text) => match join_type_from_name(type_text) {
                Err(e) => Err(e),
                Ok(join_type) => match required_spec(cells, node_id, join_parent_node_id_spec()) {
                    Err(e) => Err(e),
                    Ok(parent) => match required_spec(cells, node_id, join_left_child_node_id_spec()) {
                        Err(e) => Err(e),
                        Ok(left) => match required_spec(cells, node_id, join_right_child_node_id_spec()) {
                            Err(e) => Err(e),
                            Ok(right) => Ok(
                                JoinMetadataModel {
                                    node_id,
                                    variable_order: order_from_text(vo),
                                    join_type,
                                    parent_node_id: parent,
                                    left_child_node_id: left,
                                    right_child_node_id: right,
                                },
                            ),
                        },
                    },
                },
            },
        },
    }
}

/// The cells after the metadata of each node in the list is written, in order.
pub open spec fn statement_patterns_written(cells: Cells, s: Seq<StatementPatternMetadata>, n: nat) -> Cells
    decreases n,
{
    if n == 0 || n > s.len() {
        cells
    } else {
        statement_pattern_written(statement_patterns_written(cells, s, (n - 1) as nat), s[n - 1].model())
    }
}

pub open spec fn filters_written(cells: Cells, s: Seq<FilterMetadata>, n: nat) -> Cells
    decreases n,
{
    if n == 0 || n > s.len() {
        cells
    } else {
        filter_written(filters_written(cells, s, (n - 1) as nat), s[n - 1].model())
    }
}

pub open spec fn joins_written(cells: Cells, s: Seq<JoinMetadata>, n: nat) -> Cells
    decreases n,
{
    if n == 0 || n > s.len() {
        cells
    } else {
        join_written(joins_written(cells, s, (n - 1) as nat), s[n - 1].model())
    }
}

/// The cells after a whole query plan is written: the query id under its SPARQL, the root,
/// then the statement patterns, filters and joins.
pub open spec fn fluo_query_written(cells: Cells, q: FluoQuery) -> Cells {
    let c0 = cells.insert((q.query_metadata.sparql@, query_id_spec()), q.query_metadata.node_id@);
    let c1 = query_written(c0, q.query_metadata.model());
    let c2 = statement_patterns_written(c1, q.statement_patterns@, q.statement_patterns@.len());
    let c3 = filters_written(c2, q.filters@, q.filters@.len());
    joins_written(c3, q.joins@, q.joins@.len())
}

impl FluoQueryMetadataDao {
    pub fn write_query(&self, fluo: &mut InMemoryFluo, metadata: &QueryMetadata)
        ensures
            final(fluo).cells() == query_written(old(fluo).cells(), metadata.model()),
    {
        let row = metadata.node_id.as_str();
        fluo.set(row, query_node_id(), row);
        fluo.set(row, query_variable_order(), metadata.variable_order.to_string().as_str());
        fluo.set(row, query_sparql(), metadata.sparql.as_str());
        fluo.set(row, query_child_node_id(), metadata.child_node_id.as_str());
    }

    pub fn read_query(&self, fluo: &InMemoryFluo, node_id: &str) -> (r: Result<QueryMetadata, String>)
        ensures
            match query_read(fluo.cells(), node_id@) {
                Ok(m) => r matches Ok(x) && x.model() == m,
                Err(e) => r matches Err(x) && x@ == e,
            },
    {
        let vo = required(fluo, node_id, query_variable_order())?;
        let sparql = required(fluo, node_id, query_sparql())?;
        let child = required(fluo, node_id, query_child_node_id())?;
        Ok(
            QueryMetadata {
                node_id: to_owned(node_id),
                variable_order: VariableOrder::parse(vo.as_str()),
                sparql: sparql.clone(),
                child_node_id: child.clone(),
            },
        )
    }

    pub fn write_statement_pattern(&self, fluo: &mut InMemoryFluo, metadata: &StatementPatternMetadata)
        ensures
            final(fluo).cells() == statement_pattern_written(old(fluo).cells(), metadata.model()),
    {
        let row = metadata.node_id.as_str();
        fluo.set(row, statement_pattern_node_id(), row);
        fluo.set(row, statement_pattern_variable_order(), metadata.variable_order.to_string().as_str());
        fluo.set(row, statement_pattern_pattern(), metadata.statement_pattern.as_str());
        fluo.set(row, statement_pattern_parent_node_id(), metadata.parent_node_id.as_str());
    }

    pub fn read_statement_pattern(&self, fluo: &InMemoryFluo, node_id: &str) -> (r: Result<
        StatementPatternMetadata,
        String,
    >)
        ensures
            match statement_pattern_read(fluo.cells(), node_id@) {
                Ok(m) => r matches Ok(x) && x.model() == m,
                Err(e) => r matches Err(x) && x@ == e,
            },
    {
        let vo = required(fluo, node_id, statement_pattern_variable_order())?;
        let pattern = required(fluo, node_id, statement_pattern_pattern())?;
        let parent = required(fluo, node_id, statement_pattern_parent_node_id())?;
        Ok(
            StatementPatternMetadata {
                node_id: to_owned(node_id),
                variable_order: VariableOrder::parse(vo.as_str()),
                statement_pattern: pattern.clone(),
                parent_node_id: parent.clone(),
            },
        )
    }

    pub fn write_filter(&self, fluo: &mut InMemoryFluo, metadata: &FilterMetadata)
        ensures
            final(fluo).cells() == filter_written(old(fluo).cells(), metadata.model()),
    {
        let row = metadata.node_id.as_str();
        fluo.set(row, filter_node_id(), row);
        fluo.set(row, filter_variable_order(), metadata.variable_order.to_string().as_str());
        fluo.set(row, filter_original_sparql(), metadata.original_sparql.as_str());
        fluo.set(
            row,
            filter_index_within_sparql(),
            u64_to_string(metadata.filter_index_within_sparql as u64).as_str(),
        );
        fluo.set(row, filter_parent_node_id(), metadata.parent_node_id.as_str());
        fluo.set(row, filter_child_node_id(), metadata.child_node_id.as_str());
    }

    pub fn read_filter(&self, fluo: &InMemoryFluo, node_id: &str) -> (r: Result<FilterMetadata, String>)
        ensures
            match filter_read(fluo.cells(), node_id@) {
                Ok(m) => r matches Ok(x) && x.model() == m,
                Err(e) => r matches Err(x) && x@ == e,
            },
    {
        let vo = required(fluo, node_id, filter_variable_order())?;
        let sparql = required(fluo, node_id, filter_original_sparql())?;
        let index_text = required(fluo, node_id, filter_index_within_sparql())?;
        let index: usize = match parse_u64(index_text.as_str()) {
            Some(v) => {
                if v <= usize::MAX as u64 {
                    v as usize
                } else {
                    return Err(to_owned("Invalid filter index"));
                }
            },
            None => {
                return Err(to_owned("Invalid filter index"));
            },
        };
        let parent = required(fluo, node_id, filter_parent_node_id())?;
        let child = required(fluo, node_id, filter_child_node_id())?;
        Ok(
            FilterMetadata {
                node_id: to_owned(node_id),
                variable_order: VariableOrder::parse(vo.as_str()),
                original_sparql: sparql.clone(),
                filter_index_within_sparql: index,
                parent_node_id: parent.clone(),
                child_node_id: child.clone(),
            },
        )
    }

    pub fn write_join(&self, fluo: &mut InMemoryFluo, metadata: &JoinMetadata)
        ensures
            final(fluo).cells() == join_written(old(fluo).cells(), metadata.model()),
    {
        let row = metadata.node_id.as_str();
        fluo.set(row, join_node_id(), row);
        fluo.set(row, join_variable_order(), metadata.variable_order.to_string().as_str());
        fluo.set(row, join_type(), metadata.join_type.as_storage_name());
        fluo.set(row, join_parent_node_id(), metadata.parent_node_id.as_str());
        fluo.set(row, join_left_child_node_id(), metadata.left_child_node_id.as_str());
        fluo.set(row, join_right_child_node_id(), metadata.right_child_node_id.as_str());
    }

    pub fn read_join(&self, fluo: &InMemoryFluo, node_id: &str) -> (r: Result<JoinMetadata, String>)
        ensures
            match join_read(fluo.cells(), node_id@) {
                Ok(m) => r matches Ok(x) && x.model() == m,
                Err(e) => r matches Err(x) && x@ == e,
            },
    {
        let vo = required(fluo, node_id, join_variable_order())?;
        let type_text = required(fluo, node_id, join_type())?;
        let join_type = JoinType::parse_storage_name(type_text.as_str())?;
        let parent = required(fluo, node_id, join_parent_node_id())?;
        let left = required(fluo, node_id, join_left_child_node_id())?;
        let right = required(fluo, node_id, join_right_child_node_id())?;
        Ok(
            JoinMetadata {
                node_id: to_owned(node_id),
                variable_order: VariableOrder::parse(vo.as_str()),
                join_type,
                parent_node_id: parent.clone(),
                left_child_node_id: left.clone(),
                right_child_node_id: right.clone(),
            },
        )
    }

    /// Writes a whole query plan: the query id under its SPARQL, the root, then every node.
    pub fn write_fluo_query(&self, fluo: &mut InMemoryFluo, query: &FluoQuery)
        ensures
            final(fluo).cells() == fluo_query_written(old(fluo).cells(), *query),
    {
        fluo.set(query.query_metadata.sparql.as_str(), query_id(), query.query_metadata.node_id.as_str());
        self.write_query(fluo, &query.query_metadata);
        let ghost c1 = fluo.cells();
        let mut i: usize = 0;
        while i < query.statement_patterns.len()
            invariant
                i <= query.statement_patterns.len(),
                fluo.cells() == statement_patterns_written(c1, query.statement_patterns@, i as nat),
            decreases query.statement_patterns.len() - i,
        {
            self.write_statement_pattern(fluo, &query.statement_patterns[i]);
            i = i + 1;
        }
        let ghost c2 = fluo.cells();
        let mut i: usize = 0;
        while i < query.filters.len()
            invariant
                i <= query.filters.len(),
                fluo.cells() == filters_written(c2, query.filters@, i as nat),
            decreases query.filters.len() - i,
        {
            self.write_filter(fluo, &query.filters[i]);
            i = i + 1;
        }
        let ghost c3 = fluo.cells();
        let mut i: usize = 0;
        while i < query.joins.len()
            invariant
                i <= query.joins.len(),
                fluo.cells() == joins_written(c3, query.joins@, i as nat),
            decreases query.joins.len() - i,
        {
            self.write_join(fluo, &query.joins[i]);
            i = i + 1;
        }
    }
}

} // verus!
