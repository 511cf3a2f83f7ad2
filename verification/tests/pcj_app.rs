use omrya::domain::{RyaIri, RyaStatement, RyaType};
use omrya::fluo_pcj::app::InMemoryFluoPcjApp;
use omrya::fluo_pcj::params::{ParsedQueryRequest, RyaExportParameters};
use omrya::fluo_pcj::report::{
    format_number, pretty_format_sparql, u128_to_string, PcjMetadataRenderer, QueryReportRenderer, Report,
    ReportItem,
};
use omrya::pcj::{make_pcj_table_name, pcj_id_from_table_name, VariableOrder};
use omrya::sorted::sort_strings;
use omrya::strmap::StrMap;

const SPARQL: &str = "SELECT ?x WHERE { ?x <http://a/worksAt> <http://a/Chipotle> . }";

fn iri(s: &str) -> RyaIri {
    RyaIri::new(s).unwrap()
}

fn statement(s: &str, p: &str, o: &str) -> RyaStatement {
    RyaStatement::new(iri(s), iri(p), iri(o).into_type())
}

#[test]
fn create_pcj_returns_first_query_id() {
    let mut app = InMemoryFluoPcjApp::new();
    let id = app.create_pcj("rya_", Vec::new(), SPARQL).unwrap();
    assert_eq!(id, "QUERY_00000000000000000000000000000001");
    assert_eq!(app.list_query_ids(), vec![id.clone()]);
}

#[test]
fn streamed_statements_reach_query_results() {
    let mut app = InMemoryFluoPcjApp::new();
    app.create_pcj("rya_", Vec::new(), SPARQL).unwrap();
    app.insert_triples(vec![
        statement("http://a/Alice", "http://a/worksAt", "http://a/Chipotle"),
        statement("http://a/Bob", "http://a/worksAt", "http://a/Taco"),
        statement("http://a/Carol", "http://a/worksAt", "http://a/Chipotle"),
    ]);
    assert_eq!(app.count_unprocessed_statements(), 3);
    let results = app.query_results(SPARQL).unwrap();
    assert_eq!(results.len(), 2);
    let names: Vec<String> = results.iter().map(|b| b.get("x").unwrap().data().to_string()).collect();
    assert_eq!(names, vec!["http://a/Alice".to_string(), "http://a/Carol".to_string()]);
}

#[test]
fn historic_statements_count_when_the_pcj_is_created() {
    let mut app = InMemoryFluoPcjApp::new();
    app.add_historic_statement(statement("http://a/Alice", "http://a/worksAt", "http://a/Chipotle"));
    let id = app.create_pcj("rya_", Vec::new(), SPARQL).unwrap();
    let metadata = app.get_pcj_metadata(&id).unwrap();
    assert_eq!(metadata.cardinality, 1);
    assert_eq!(metadata.sparql, SPARQL);
}

#[test]
fn unknown_query_text_is_not_found() {
    let app = InMemoryFluoPcjApp::new();
    assert_eq!(app.query_results(SPARQL).err().unwrap(), "Query not found");
}

#[test]
fn unknown_query_id_has_no_report() {
    let app = InMemoryFluoPcjApp::new();
    assert_eq!(app.get_query_report("QUERY_x").err().unwrap(), "Unknown query id: QUERY_x");
}

#[test]
fn metadata_of_unknown_query_names_the_missing_table_name() {
    let app = InMemoryFluoPcjApp::new();
    assert_eq!(
        app.get_pcj_metadata("q1").err().unwrap(),
        "Could not get the PcjMetadata for queryId 'q1' because a PCJ export table name was not stored in the Fluo table."
    );
}

#[test]
fn query_without_pattern_is_refused() {
    let mut app = InMemoryFluoPcjApp::new();
    let err = app.create_pcj("rya_", Vec::new(), "SELECT ?x WHERE { }").unwrap_err();
    assert_eq!(err, "SPARQL query must contain at least one statement pattern");
    assert!(app.list_query_ids().is_empty());
}

#[test]
fn all_metadata_lists_every_query() {
    let mut app = InMemoryFluoPcjApp::new();
    let a = app.create_pcj("rya_", Vec::new(), SPARQL).unwrap();
    let b = app
        .create_pcj("rya_", Vec::new(), "SELECT ?y WHERE { ?y <http://a/likes> <http://a/Tacos> . }")
        .unwrap();
    let all = app.get_all_pcj_metadata().unwrap();
    let ids: Vec<String> = all.iter().map(|e| e.0.clone()).collect();
    assert_eq!(ids, vec![a, b]);
}

#[test]
fn query_report_counts_nodes() {
    let mut app = InMemoryFluoPcjApp::new();
    let id = app.create_pcj("rya_", Vec::new(), SPARQL).unwrap();
    app.insert_triples(vec![statement("http://a/Alice", "http://a/worksAt", "http://a/Chipotle")]);
    let report = app.get_query_report(&id).unwrap();
    assert_eq!(report.count(&id), 1);
    assert_eq!(report.count("nothing"), 0);
    assert_eq!(report.fluo_query.statement_patterns.len(), 1);
    let text = QueryReportRenderer.render(&report);
    assert!(text.contains("QUERY NODE"));
    assert!(text.contains("STATEMENT PATTERN NODE"));
}

#[test]
fn pcj_metadata_renders_as_table() {
    let mut app = InMemoryFluoPcjApp::new();
    let id = app
        .create_pcj("rya_", vec![VariableOrder::new(vec!["x".to_string()])], SPARQL)
        .unwrap();
    let metadata = app.get_pcj_metadata(&id).unwrap();
    let text = PcjMetadataRenderer.render_one(&id, &metadata);
    assert!(text.starts_with("---"));
    assert!(text.contains("| Cardinality "));
    assert!(text.contains("| 0 "));
}

#[test]
fn report_with_one_item() {
    let report = Report::builder().append_item(ReportItem::with_value("a", "b")).build();
    assert_eq!(report.to_string(), "---------\n| a | b |\n---------\n");
}

#[test]
fn report_pads_columns() {
    let report = Report::builder()
        .append_item(ReportItem::new("Title"))
        .append_item(ReportItem::with_lines("T", vec!["one".to_string(), "three".to_string()]))
        .build();
    let expected = "-----------------\n| Title |       |\n| T     | one   |\n|       | three |\n-----------------\n";
    assert_eq!(report.to_string(), expected);
}

#[test]
fn empty_report_has_unit_widths() {
    let report = Report::builder().build();
    assert_eq!(report.to_string(), "---------\n---------\n");
}

#[test]
fn numbers_get_thousands_separators() {
    assert_eq!(format_number(0), "0");
    assert_eq!(format_number(999), "999");
    assert_eq!(format_number(1000), "1,000");
    assert_eq!(format_number(1234567), "1,234,567");
    assert_eq!(u128_to_string(340282366920938463463374607431768211455), "340282366920938463463374607431768211455");
}

#[test]
fn sparql_is_laid_out_by_clause() {
    let lines = pretty_format_sparql("SELECT ?x ?y WHERE { ?x <http://a/p> ?y . FILTER(?y = \"v\") }");
    assert_eq!(lines[0], "select ?x ?y");
    assert_eq!(lines[1], "where {");
    assert_eq!(lines.last().unwrap(), "}");
    assert!(lines.contains(&"  ?x <http://a/p> ?y.".to_string()));
}

#[test]
fn unparsable_sparql_is_one_line() {
    assert_eq!(pretty_format_sparql("nonsense"), vec!["nonsense".to_string()]);
}

#[test]
fn prefix_lines_give_sorted_orders() {
    let request = ParsedQueryRequest::parse("#prefix b, a\n#prefix a,b\n#prefix a,b\nSELECT ?a ?b WHERE { ?a <urn:p> ?b . }\n");
    let orders: Vec<String> = request.var_orders.iter().map(|o| o.to_string()).collect();
    assert_eq!(orders, vec!["a;b".to_string(), "b;a".to_string()]);
    assert_eq!(request.sparql, "SELECT ?a ?b WHERE { ?a <urn:p> ?b . }");
}

#[test]
fn request_without_prefix_lines_is_all_query() {
    let request = ParsedQueryRequest::parse("  SELECT ?a WHERE { ?a <urn:p> <urn:o> . }  ");
    assert!(request.var_orders.is_empty());
    assert_eq!(request.sparql, "SELECT ?a WHERE { ?a <urn:p> <urn:o> . }");
}

#[test]
fn export_parameters_round_trip() {
    let mut params = RyaExportParameters::new(StrMap::new());
    assert!(!params.is_export_to_rya());
    params.set_export_to_rya(true);
    assert!(params.is_export_to_rya());
    params.set_export_to_rya(false);
    assert!(!params.is_export_to_rya());
    assert_eq!(params.fjall_instance_name(), None);
    params.set_fjall_instance_name("instance");
    params.set_coordinator_servers("zoo:2181");
    params.set_exporter_username("user");
    params.set_exporter_password("pass");
    assert_eq!(params.fjall_instance_name(), Some("instance"));
    assert_eq!(params.coordinator_servers(), Some("zoo:2181"));
    assert_eq!(params.exporter_username(), Some("user"));
    assert_eq!(params.exporter_password(), Some("pass"));
    let inner = params.into_inner();
    assert_eq!(inner.get("pcj.fluo.export.rya.enabled").unwrap(), "false");
}

#[test]
fn table_names_carry_the_pcj_id() {
    let name = make_pcj_table_name("rya_", "a-b-c");
    assert_eq!(name, "rya_INDEX_abc");
    assert_eq!(pcj_id_from_table_name(&name), Some("abc".to_string()));
    assert_eq!(pcj_id_from_table_name("rya_spo"), None);
}

#[test]
fn strings_sort_with_repeats() {
    let sorted = sort_strings(vec!["b".to_string(), "a".to_string(), "b".to_string(), "".to_string()]);
    assert_eq!(sorted, vec!["".to_string(), "a".to_string(), "b".to_string(), "b".to_string()]);
}

#[test]
fn plain_values_are_strings() {
    let v = RyaType::new("x");
    assert_eq!(v.data(), "x");
    assert_eq!(v.data_type(), Some("http://www.w3.org/2001/XMLSchema#string"));
}
