use omrya::partition::{
    read_rdf_statement, read_rdf_value, retrieve_embed_key, split_shard_date, write_rdf_statement,
    write_rdf_value, RdfStatement, RdfValue, FAMILY_DELIM,
};

fn iri(s: &str) -> RdfValue {
    RdfValue::Iri(s.to_string())
}

fn same(a: &RdfValue, b: &RdfValue) -> bool {
    write_rdf_value(a) == write_rdf_value(b)
}

#[test]
fn values_are_written_with_their_markers() {
    assert_eq!(write_rdf_value(&iri("urn:a")), b"\x07urn:a".to_vec());
    assert_eq!(write_rdf_value(&RdfValue::BNode("b1".to_string())), b"\x08b1".to_vec());
    assert_eq!(
        write_rdf_value(&RdfValue::LangLiteral { label: "hi".to_string(), language: "en".to_string() }),
        b"\x0ahi\x0aen".to_vec()
    );
    assert_eq!(
        write_rdf_value(&RdfValue::DatatypeLiteral { label: "5".to_string(), datatype: "urn:int".to_string() }),
        b"\x0b5\x0b\x07urn:int".to_vec()
    );
}

#[test]
fn statements_read_back_in_both_orders() {
    for document_order in [true, false] {
        let st = RdfStatement::new(
            iri("urn:s"),
            iri("urn:p"),
            RdfValue::DatatypeLiteral { label: "42".to_string(), datatype: "urn:int".to_string() },
        );
        let bytes = write_rdf_statement(&st, document_order);
        let back = read_rdf_statement(&bytes, document_order).unwrap();
        assert!(same(&back.subject, &st.subject));
        assert!(same(&back.predicate, &st.predicate));
        assert!(same(&back.object, &st.object));
    }
    let st = RdfStatement::new(
        RdfValue::BNode("n1".to_string()),
        iri("urn:label"),
        RdfValue::LangLiteral { label: "héllo".to_string(), language: "fr".to_string() },
    );
    let bytes = write_rdf_statement(&st, false);
    assert_eq!(bytes[0], 7);
    let back = read_rdf_statement(&bytes, false).unwrap();
    assert!(same(&back.object, &st.object));
    assert!(same(&back.subject, &st.subject));
}

#[test]
fn reading_reports_its_faults() {
    assert_eq!(read_rdf_value(&[], FAMILY_DELIM).err().unwrap(), "Cannot read RDF value from empty bytes");
    assert_eq!(read_rdf_value(&[3, 65], FAMILY_DELIM).err().unwrap(), "Invalid value type marker: 3");
    assert_eq!(
        read_rdf_value(b"\x0bx\x0bz", FAMILY_DELIM).err().unwrap(),
        "Expected URI datatype marker"
    );
    assert!(read_rdf_value(&[7, 0xff], FAMILY_DELIM).is_err());
    let (v, used) = read_rdf_value(b"\x07ab\x00rest", FAMILY_DELIM).unwrap();
    assert!(same(&v, &iri("ab")));
    assert_eq!(used, 4);
}

#[test]
fn shard_dates_split_at_the_last_delimiter() {
    assert_eq!(
        split_shard_date("a_b_20240102", "_"),
        Some(("a_b".to_string(), "20240102".to_string()))
    );
    assert_eq!(split_shard_date("nodelim", "_"), None);
    assert_eq!(split_shard_date("abc", ""), Some(("abc".to_string(), String::new())));
}

#[test]
fn embed_keys_stop_at_the_index_delimiter() {
    assert_eq!(retrieve_embed_key("key\x01rest\x01more"), "key");
    assert_eq!(retrieve_embed_key("whole"), "whole");
}

#[test]
fn shard_values_join_day_and_hash_remainder() {
    use_generator();
}

fn use_generator() {
    let g = omrya::partition::DateHashModShardValueGenerator::default();
    assert_eq!(g.base_mod, 50);
    assert_eq!(g.generate_shard_value(0, None), "19700101");
    assert_eq!(g.generate_shard_value(-1, None), "19691231");
    assert_eq!(g.generate_shard_value(1_700_000_000_000, None), "20231114");
    assert_eq!(g.generate_shard_value(0, Some("abc")), "19700101_4");
    assert_eq!(g.generate_shard_value(0, Some("\u{1F600}")), "19700101_49");
    assert_eq!(g.generate_shard_value(0, Some("polygenelubricants")), "19700101_48");
    let h = omrya::partition::DateHashModShardValueGenerator::new(-7);
    assert_eq!(h.generate_shard_value(86_400_000 * 365, Some("abc")), format!("19710101_{}", 96354 % 7));
    assert_eq!(g.generate_shard_value(-62_167_219_200_001, None), "-0011231");
}
