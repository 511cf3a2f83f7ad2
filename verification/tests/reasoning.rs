use omrya::reasoning::rules::OwlRule;
use omrya::reasoning::schema::Schema;
use omrya::reasoning::values::{
    RdfValue, Triple, OWL_CLASS, OWL_DISJOINT_WITH, OWL_EQUIVALENT_CLASS, OWL_HAS_VALUE,
    OWL_INVERSE_OF, OWL_MAX_CARDINALITY, OWL_ON_PROPERTY, OWL_SOME_VALUES_FROM, OWL_THING,
    OWL_TRANSITIVE_PROPERTY, RDFS_DOMAIN, RDFS_SUBCLASS_OF, RDF_TYPE, XSD_INT,
};

fn res(s: &str, p: &str, o: &str) -> Triple {
    Triple::new(s, p, RdfValue::resource(o))
}

#[test]
fn subclass_statements_build_the_hierarchy() {
    let mut schema = Schema::new();
    schema.process_triple(&res("urn:A", RDFS_SUBCLASS_OF, "urn:B"));
    assert!(schema.has_class("urn:A"));
    assert!(schema.has_class("urn:B"));
    let supers = schema.class("urn:A").unwrap().super_classes();
    assert_eq!(supers, vec![OWL_THING.to_string(), "urn:A".to_string(), "urn:B".to_string()]);
    let b = schema.class("urn:B").unwrap().super_classes();
    assert_eq!(b, vec![OWL_THING.to_string(), "urn:B".to_string()]);
}

#[test]
fn thing_and_literal_objects_change_nothing() {
    let mut schema = Schema::new();
    schema.process_triple(&res("urn:p", RDFS_DOMAIN, OWL_THING));
    schema.process_triple(&res("urn:A", RDFS_SUBCLASS_OF, OWL_THING));
    schema.process_triple(&Triple::new("urn:A", RDFS_SUBCLASS_OF, literal_b()));
    assert!(!schema.has_property("urn:p"));
    assert!(!schema.has_class("urn:A"));
}

fn literal_b() -> RdfValue {
    RdfValue::literal("urn:B", XSD_INT)
}

#[test]
fn type_statements_mark_property_kinds_only() {
    let mut schema = Schema::new();
    let transitive = res("urn:ancestor", RDF_TYPE, OWL_TRANSITIVE_PROPERTY);
    let plain_class = res("urn:Person", RDF_TYPE, OWL_CLASS);
    assert!(Schema::is_schema_triple(&transitive));
    assert!(!Schema::is_schema_triple(&plain_class));
    schema.process_triple(&transitive);
    schema.process_triple(&plain_class);
    let p = schema.property("urn:ancestor").unwrap();
    assert!(p.is_transitive());
    assert!(!p.is_symmetric());
    assert!(!schema.has_class("urn:Person"));
    assert!(!schema.has_property("urn:Person"));
}

#[test]
fn domain_names_the_class_and_the_property() {
    let mut schema = Schema::new();
    schema.process_triple(&res("urn:worksFor", RDFS_DOMAIN, "urn:Person"));
    assert!(schema.has_class("urn:Person"));
    assert_eq!(schema.property("urn:worksFor").unwrap().domain(), vec!["urn:Person".to_string()]);
}

#[test]
fn symmetric_relations_are_kept_both_ways() {
    let mut schema = Schema::new();
    schema.process_triple(&res("urn:A", OWL_EQUIVALENT_CLASS, "urn:B"));
    schema.process_triple(&res("urn:A", OWL_DISJOINT_WITH, "urn:C"));
    schema.process_triple(&res("urn:parent", OWL_INVERSE_OF, "urn:child"));
    assert!(schema.class("urn:B").unwrap().super_classes().contains(&"urn:A".to_string()));
    assert!(schema.class("urn:A").unwrap().super_classes().contains(&"urn:B".to_string()));
    assert_eq!(schema.class("urn:C").unwrap().disjoint_classes(), vec!["urn:A".to_string()]);
    assert_eq!(
        schema.property("urn:child").unwrap().inverse_properties(),
        vec!["urn:parent".to_string()]
    );
}

#[test]
fn restrictions_link_class_and_property() {
    let mut schema = Schema::new();
    schema.process_triple(&res("_:r", OWL_ON_PROPERTY, "urn:hasPet"));
    schema.process_triple(&res("_:r", OWL_SOME_VALUES_FROM, "urn:Dog"));
    schema.process_triple(&Triple::new("_:r", OWL_HAS_VALUE, RdfValue::language_literal("rex", "en")));
    assert!(schema.has_restriction("_:r"));
    assert!(!schema.has_restriction("urn:Dog"));
    let r = schema.class("_:r").unwrap();
    assert_eq!(r.on_property(), vec!["urn:hasPet".to_string()]);
    assert_eq!(r.some_values_from(), vec!["urn:Dog".to_string()]);
    assert_eq!(r.has_value().len(), 1);
    assert!(r.has_value()[0].same_as(&RdfValue::language_literal("rex", "en")));
    assert_eq!(schema.property("urn:hasPet").unwrap().restrictions(), vec!["_:r".to_string()]);
}

#[test]
fn max_cardinality_keeps_the_lowest_non_negative() {
    let mut schema = Schema::new();
    let card = |v: &str| Triple::new("_:r", OWL_MAX_CARDINALITY, RdfValue::literal(v, XSD_INT));
    schema.process_triple(&card("3"));
    assert_eq!(schema.class("_:r").unwrap().max_cardinality(), Some(3));
    schema.process_triple(&card("1"));
    schema.process_triple(&card("5"));
    schema.process_triple(&card("-1"));
    schema.process_triple(&card("many"));
    assert_eq!(schema.class("_:r").unwrap().max_cardinality(), Some(1));
    assert_eq!(schema.class("_:r").unwrap().max_qualified_cardinality(), None);
}

#[test]
fn a_first_negative_cardinality_is_kept() {
    let mut schema = Schema::new();
    let card = |v: &str| Triple::new("_:q", OWL_MAX_CARDINALITY, RdfValue::literal(v, XSD_INT));
    schema.process_triple(&card("-2"));
    schema.process_triple(&card("0"));
    assert_eq!(schema.class("_:q").unwrap().max_cardinality(), Some(-2));
    schema.process_triple(&card("x"));
    assert!(schema.has_class("_:q"));
    let mut fresh = Schema::new();
    fresh.process_triple(&card("x"));
    assert!(!fresh.has_class("_:q"));
}

#[test]
fn processing_a_statement_twice_changes_nothing_more() {
    let mut once = Schema::new();
    let mut twice = Schema::new();
    let t = res("urn:A", RDFS_SUBCLASS_OF, "urn:B");
    once.process_triple(&t);
    twice.process_triple(&t);
    twice.process_triple(&t);
    assert_eq!(
        once.class("urn:A").unwrap().super_classes(),
        twice.class("urn:A").unwrap().super_classes()
    );
}

#[test]
fn rules_describe_themselves() {
    assert_eq!(OwlRule::CaxSco.description(), "owl:subClassOf -- Infer supertypes");
    assert_eq!(OwlRule::ScmCls.description(), "schema rule");
    assert_eq!(OwlRule::NoRule.description(), "No rule given");
}
