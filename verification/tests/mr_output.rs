use omrya::domain::{RyaIri, RyaStatement, RyaType};
use omrya::fjall_mr::{MrConfiguration, RyaStatementWritable};
use omrya::mr_output::{map_statement, reduce_statements, RyaTableMutationsFactory};
use omrya::resolver::triple::{TableLayout, TripleContext};

fn statement() -> RyaStatement {
    RyaStatement::new(
        RyaIri::new("http://a/s").unwrap(),
        RyaIri::new("http://a/p").unwrap(),
        RyaType::new("o"),
    )
    .with_timestamp(42)
}

#[test]
fn writable_bytes_read_back() {
    let w = RyaStatementWritable::with_statement(statement(), TripleContext::new(false));
    let bytes = w.write_to_vec().unwrap();
    assert_eq!(bytes[0], 1);
    assert_eq!(&bytes[bytes.len() - 9..], &[1, 0, 0, 0, 0, 0, 0, 0, 42]);
    let mut back = RyaStatementWritable::new();
    back.read_from_slice(&bytes).unwrap();
    let st = back.rya_statement().unwrap();
    assert_eq!(st.subject.to_string(), "http://a/s");
    assert_eq!(st.predicate.to_string(), "http://a/p");
    assert_eq!(st.object.data(), "o");
    assert_eq!(st.timestamp, 42);
}

#[test]
fn damaged_writable_bytes_are_named() {
    let mut w = RyaStatementWritable::new();
    assert_eq!(w.read_from_slice(&[]).err(), Some("Truncated boolean".to_string()));
    assert_eq!(w.read_from_slice(&[7]).err(), Some("Invalid boolean byte: 7".to_string()));
    assert_eq!(w.read_from_slice(&[1, 0, 0]).err(), Some("Truncated field length".to_string()));
    assert_eq!(
        w.read_from_slice(&[1, 0x80, 0, 0, 0]).err(),
        Some("Negative field length".to_string())
    );
    assert_eq!(
        w.read_from_slice(&[0, 0, 0, 0, 0, 0, 0]).err(),
        Some("Trailing bytes after RyaStatementWritable".to_string())
    );
    assert_eq!(
        w.read_from_slice(&[0, 0, 0, 0, 0, 0]).err(),
        Some("Writable is missing triple row".to_string())
    );
    assert!(w.rya_statement().is_none());
    assert_eq!(
        RyaStatementWritable::new().write_to_vec().err(),
        Some("Rya Statement is null".to_string())
    );
}

#[test]
fn factory_writes_one_mutation_per_table() {
    let f = RyaTableMutationsFactory::default();
    let groups = f.serialize(&statement()).unwrap();
    let layouts: Vec<TableLayout> = groups.iter().map(|g| g.0).collect();
    assert!(layouts == vec![TableLayout::Spo, TableLayout::Po, TableLayout::Osp]);
    assert!(groups.iter().all(|g| g.1.len() == 1 && !g.1[0].delete && g.1[0].timestamp == 42));
    let deletes = f.serialize_delete(&statement()).unwrap();
    assert!(deletes.iter().all(|g| g.1[0].delete && g.1[0].value.is_empty()));
}

#[test]
fn map_and_reduce_name_the_tables() {
    let mut conf = MrConfiguration::new();
    conf.set_table_prefix("t_");
    let w = RyaStatementWritable::with_statement(statement(), TripleContext::new(false));
    let out = map_statement(&conf, &w).unwrap();
    let tables: Vec<String> = out.iter().map(|o| o.0.clone()).collect();
    assert_eq!(tables, vec!["t_spo".to_string(), "t_po".to_string(), "t_osp".to_string()]);
    let both = reduce_statements(&conf, &[RyaStatementWritable::with_statement(statement(), TripleContext::new(false)), RyaStatementWritable::with_statement(statement(), TripleContext::new(false))]);
    assert_eq!(both.unwrap().len(), 6);
    let with_null = reduce_statements(&conf, &[RyaStatementWritable::new()]);
    assert_eq!(with_null.err(), Some("Rya Statement is null".to_string()));
}
