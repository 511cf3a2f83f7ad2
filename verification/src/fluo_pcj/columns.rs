use vstd::prelude::*;

use crate::fluo_pcj::{column_model, ColumnModel, FluoColumn};

verus! {

// The columns of the Fluo table that the PCJ application uses.
pub open spec fn triples_spec() -> ColumnModel {
    ("triples"@, "SPO"@)
}

pub fn triples() -> (r: FluoColumn)
    ensures
        column_model(r) == triples_spec(),
{
    FluoColumn { family: "triples", qualifier: "SPO" }
}

pub open spec fn query_rya_export_table_name_spec() -> ColumnModel {
    ("query"@, "ryaExportTableName"@)
}

pub fn query_rya_export_table_name() -> (r: FluoColumn)
    ensures
        column_model(r) == query_rya_export_table_name_spec(),
{
    FluoColumn { family: "query", qualifier: "ryaExportTableName" }
}

pub open spec fn query_id_spec() -> ColumnModel {
    ("sparql"@, "queryId"@)
}

pub fn query_id() -> (r: FluoColumn)
    ensures
        column_model(r) == query_id_spec(),
{
    FluoColumn { family: "sparql", qualifier: "queryId" }
}

pub open spec fn query_node_id_spec() -> ColumnModel {
    ("queryMetadata"@, "nodeId"@)
}

pub fn query_node_id() -> (r: FluoColumn)
    ensures
        column_model(r) == query_node_id_spec(),
{
    FluoColumn { family: "queryMetadata", qualifier: "nodeId" }
}

pub open spec fn query_variable_order_spec() -> ColumnModel {
    ("queryMetadata"@, "variableOrder"@)
}

pub fn query_variable_order() -> (r: FluoColumn)
    ensures
        column_model(r) == query_variable_order_spec(),
{
    FluoColumn { family: "queryMetadata", qualifier: "variableOrder" }
}

pub open spec fn query_sparql_spec() -> ColumnModel {
    ("queryMetadata"@, "sparql"@)
}

pub fn query_sparql() -> (r: FluoColumn)
    ensures
        column_model(r) == query_sparql_spec(),
{
    FluoColumn { family: "queryMetadata", qualifier: "sparql" }
}

pub open spec fn query_child_node_id_spec() -> ColumnModel {
    ("queryMetadata"@, "childNodeId"@)
}

pub fn query_child_node_id() -> (r: FluoColumn)
    ensures
        column_model(r) == query_child_node_id_spec(),
{
    FluoColumn { family: "queryMetadata", qualifier: "childNodeId" }
}

pub open spec fn query_binding_set_spec() -> ColumnModel {
    ("queryMetadata"@, "bindingSet"@)
}

pub fn query_binding_set() -> (r: FluoColumn)
    ensures
        column_model(r) == query_binding_set_spec(),
{
    FluoColumn { family: "queryMetadata", qualifier: "bindingSet" }
}

pub open spec fn filter_node_id_spec() -> ColumnModel {
    ("filterMetadata"@, "nodeId"@)
}

pub fn filter_node_id() -> (r: FluoColumn)
    ensures
        column_model(r) == filter_node_id_spec(),
{
    FluoColumn { family: "filterMetadata", qualifier: "nodeId" }
}

pub open spec fn filter_variable_order_spec() -> ColumnModel {
    ("filterMetadata"@, "veriableOrder"@)
}

pub fn filter_variable_order() -> (r: FluoColumn)
    ensures
        column_model(r) == filter_variable_order_spec(),
{
    FluoColumn { family: "filterMetadata", qualifier: "veriableOrder" }
}

pub open spec fn filter_original_sparql_spec() -> ColumnModel {
    ("filterMetadata"@, "originalSparql"@)
}

pub fn filter_original_sparql() -> (r: FluoColumn)
    ensures
        column_model(r) == filter_original_sparql_spec(),
{
    FluoColumn { family: "filterMetadata", qualifier: "originalSparql" }
}

pub open spec fn filter_index_within_sparql_spec() -> ColumnModel {
    ("filterMetadata"@, "filterIndexWithinSparql"@)
}

pub fn filter_index_within_sparql() -> (r: FluoColumn)
    ensures
        column_model(r) == filter_index_within_sparql_spec(),
{
    FluoColumn { family: "filterMetadata", qualifier: "filterIndexWithinSparql" }
}

pub open spec fn filter_parent_node_id_spec() -> ColumnModel {
    ("filterMetadata"@, "parentNodeId"@)
}

pub fn filter_parent_node_id() -> (r: FluoColumn)
    ensures
        column_model(r) == filter_parent_node_id_spec(),
{
    FluoColumn { family: "filterMetadata", qualifier: "parentNodeId" }
}

pub open spec fn filter_child_node_id_spec() -> ColumnModel {
    ("filterMetadata"@, "childNodeId"@)
}

pub fn filter_child_node_id() -> (r: FluoColumn)
    ensures
        column_model(r) == filter_child_node_id_spec(),
{
    FluoColumn { family: "filterMetadata", qualifier: "childNodeId" }
}

pub open spec fn filter_binding_set_spec() -> ColumnModel {
    ("filterMetadata"@, "bindingSet"@)
}

pub fn filter_binding_set() -> (r: FluoColumn)
    ensures
        column_model(r) == filter_binding_set_spec(),
{
    FluoColumn { family: "filterMetadata", qualifier: "bindingSet" }
}

pub open spec fn join_node_id_spec() -> ColumnModel {
    ("joinMetadata"@, "nodeId"@)
}

pub fn join_node_id() -> (r: FluoColumn)
    ensures
        column_model(r) == join_node_id_spec(),
{
    FluoColumn { family: "joinMetadata", qualifier: "nodeId" }
}

pub open spec fn join_variable_order_spec() -> ColumnModel {
    ("joinMetadata"@, "variableOrder"@)
}

pub fn join_variable_order() -> (r: FluoColumn)
    ensures
        column_model(r) == join_variable_order_spec(),
{
    FluoColumn { family: "joinMetadata", qualifier: "variableOrder" }
}

pub open spec fn join_type_spec() -> ColumnModel {
    ("joinMetadata"@, "joinType"@)
}

pub fn join_type() -> (r: FluoColumn)
    ensures
        column_model(r) == join_type_spec(),
{
    FluoColumn { family: "joinMetadata", qualifier: "joinType" }
}

pub open spec fn join_parent_node_id_spec() -> ColumnModel {
    ("joinMetadata"@, "parentNodeId"@)
}

pub fn join_parent_node_id() -> (r: FluoColumn)
    ensures
        column_model(r) == join_parent_node_id_spec(),
{
    FluoColumn { family: "joinMetadata", qualifier: "parentNodeId" }
}

pub open spec fn join_left_child_node_id_spec() -> ColumnModel {
    ("joinMetadata"@, "leftChildNodeId"@)
}

pub fn join_left_child_node_id() -> (r: FluoColumn)
    ensures
        column_model(r) == join_left_child_node_id_spec(),
{
    FluoColumn { family: "joinMetadata", qualifier: "leftChildNodeId" }
}

pub open spec fn join_right_child_node_id_spec() -> ColumnModel {
    ("joinMetadata"@, "rightChildNodeId"@)
}

pub fn join_right_child_node_id() -> (r: FluoColumn)
    ensures
        column_model(r) == join_right_child_node_id_spec(),
{
    FluoColumn { family: "joinMetadata", qualifier: "rightChildNodeId" }
}

pub open spec fn join_binding_set_spec() -> ColumnModel {
    ("joinMetadata"@, "bindingSet"@)
}

pub fn join_binding_set() -> (r: FluoColumn)
    ensures
        column_model(r) == join_binding_set_spec(),
{
    FluoColumn { family: "joinMetadata", qualifier: "bindingSet" }
}

pub open spec fn statement_pattern_node_id_spec() -> ColumnModel {
    ("statementPatternMetadata"@, "nodeId"@)
}

pub fn statement_pattern_node_id() -> (r: FluoColumn)
    ensures
        column_model(r) == statement_pattern_node_id_spec(),
{
    FluoColumn { family: "statementPatternMetadata", qualifier: "nodeId" }
}

pub open spec fn statement_pattern_variable_order_spec() -> ColumnModel {
    ("statementPatternMetadata"@, "variableOrder"@)
}

pub fn statement_pattern_variable_order() -> (r: FluoColumn)
    ensures
        column_model(r) == statement_pattern_variable_order_spec(),
{
    FluoColumn { family: "statementPatternMetadata", qualifier: "variableOrder" }
}

pub open spec fn statement_pattern_pattern_spec() -> ColumnModel {
    ("statementPatternMetadata"@, "pattern"@)
}

pub fn statement_pattern_pattern() -> (r: FluoColumn)
    ensures
        column_model(r) == statement_pattern_pattern_spec(),
{
    FluoColumn { family: "statementPatternMetadata", qualifier: "pattern" }
}

pub open spec fn statement_pattern_parent_node_id_spec() -> ColumnModel {
    ("statementPatternMetadata"@, "parentNodeId"@)
}

pub fn statement_pattern_parent_node_id() -> (r: FluoColumn)
    ensures
        column_model(r) == statement_pattern_parent_node_id_spec(),
{
    FluoColumn { family: "statementPatternMetadata", qualifier: "parentNodeId" }
}

pub open spec fn statement_pattern_binding_set_spec() -> ColumnModel {
    ("statementPatternMetadata"@, "bindingSet"@)
}

pub fn statement_pattern_binding_set() -> (r: FluoColumn)
    ensures
        column_model(r) == statement_pattern_binding_set_spec(),
{
    FluoColumn { family: "statementPatternMetadata", qualifier: "bindingSet" }
}

} // verus!
