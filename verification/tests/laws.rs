use omrya::domain::{RyaIri, RyaStatement, RyaType};
use omrya::fjall::codec::{deserialize_statement, serialize_statement};
use omrya::merger::{time_from, CalendarUnit, Occurrence};
use omrya::pcj::{natural_join, BindingSet, VariableOrder};

fn row(pairs: &[(&str, &str)]) -> BindingSet {
    let mut b = BindingSet::new();
    for (k, v) in pairs {
        b.insert(k.to_string(), RyaType::new(v));
    }
    b
}

fn rendered(rows: &[BindingSet]) -> Vec<String> {
    let mut out: Vec<String> = rows
        .iter()
        .map(|b| {
            (0..b.len())
                .map(|i| {
                    let (k, v) = b.entry(i);
                    format!("{}={}", k, v.data())
                })
                .collect::<Vec<_>>()
                .join(",")
        })
        .collect();
    out.sort();
    out
}

#[test]
fn natural_join_commutes_on_rows() {
    let a = vec![row(&[("x", "1")]), row(&[("x", "2"), ("y", "b")])];
    let b = vec![row(&[("y", "b")]), row(&[("x", "1"), ("z", "c")])];
    let ab = natural_join(&a, &b);
    let ba = natural_join(&b, &a);
    assert_eq!(rendered(&ab), rendered(&ba));
    assert_eq!(
        rendered(&ab),
        vec!["x=1,y=b".to_string(), "x=1,z=c".to_string(), "x=2,y=b".to_string()]
    );
}

#[test]
fn natural_join_unit_and_empty() {
    let a = vec![row(&[("x", "1")]), row(&[("y", "2")])];
    let unit = vec![BindingSet::new()];
    assert_eq!(rendered(&natural_join(&a, &unit)), rendered(&a));
    assert_eq!(rendered(&natural_join(&unit, &a)), rendered(&a));
    assert!(natural_join(&a, &[]).is_empty());
    assert!(natural_join(&[], &a).is_empty());
}

#[test]
fn distinct_names_give_one_rotation_each() {
    let order = VariableOrder::new(vec!["a".to_string(), "b".to_string(), "c".to_string()]);
    assert_eq!(order.shifted_orders().len(), 3);
    let repeated = VariableOrder::new(vec!["a".to_string(), "a".to_string()]);
    assert_eq!(repeated.shifted_orders().len(), 1);
}

#[test]
fn decoder_refuses_damaged_statements() {
    let st = RyaStatement::new(
        RyaIri::new("http://a/s").unwrap(),
        RyaIri::new("http://a/p").unwrap(),
        RyaType::new("o"),
    )
    .with_timestamp(7);
    let bytes = serialize_statement(&st).unwrap();
    let mut longer = bytes.clone();
    longer.push(0);
    assert_eq!(
        deserialize_statement(&longer).err(),
        Some("Serialized Fjall statement has trailing bytes".to_string())
    );
    assert_eq!(
        deserialize_statement(&bytes[..bytes.len() - 1]).err(),
        Some("Truncated Fjall statement timestamp".to_string())
    );
    assert_eq!(
        deserialize_statement(&[]).err(),
        Some("Truncated Fjall statement version".to_string())
    );
}

#[test]
fn time_after_accepts_the_most_negative_span() {
    assert_eq!(time_from(0, i64::MIN, CalendarUnit::Millisecond, Occurrence::After), i64::MIN);
    assert_eq!(time_from(10, 2, CalendarUnit::Second, Occurrence::Before), -1990);
}

#[test]
fn asking_twice_for_a_package_adds_nothing() {
    let mut g = omrya::code_intel::graph::RepoCodeGraph::new("urn:repo");
    let first = g.package("cargo", "Serde", Some("1.0"));
    let mut h = omrya::code_intel::graph::RepoCodeGraph::new("urn:repo");
    let again = h.package("cargo", "Serde", Some("1.0"));
    let second = h.package("cargo", "Serde", Some("2.0"));
    assert_eq!(first, again);
    assert_eq!(again, second);
    assert_eq!(g.into_triples().len(), h.into_triples().len());
}

#[test]
fn schema_reading_is_idempotent_on_cardinalities() {
    use_schema();
}

fn use_schema() {
    let mut s = omrya::reasoning::schema::Schema::new();
    let t = omrya::reasoning::values::Triple::new(
        "_:r",
        omrya::reasoning::values::OWL_MAX_CARDINALITY,
        omrya::reasoning::values::RdfValue::literal("2", omrya::reasoning::values::XSD_INT),
    );
    s.process_triple(&t);
    s.process_triple(&t);
    assert_eq!(s.class("_:r").unwrap().max_cardinality(), Some(2));
}
