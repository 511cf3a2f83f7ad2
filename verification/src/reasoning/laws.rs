use vstd::prelude::*;

use crate::reasoning::schema::{
    class_add, class_at, class_pair, ensure_class, ensure_property, flag_of, lowers, property_add, property_at,
    property_pair, property_typed, resource_step, schema_step, value_step, ClassField, ClassModel, PropertyField,
    PropertyModel, SchemaModel,
};
use crate::reasoning::values::{TripleModel, ValueModel};

verus! {

/// Class `k` is known and keeps set `f`.
pub open spec fn class_keeps(m: Map<Seq<char>, ClassModel>, k: Seq<char>, f: ClassField) -> bool {
    m.dom().contains(k) && m[k].sets.dom().contains(f)
}

/// Property `k` is known and keeps set `f`.
pub open spec fn property_keeps(m: Map<Seq<char>, PropertyModel>, k: Seq<char>, f: PropertyField) -> bool {
    m.dom().contains(k) && m[k].sets.dom().contains(f)
}

/// Class `k` is known and set `f` of it holds `x`.
pub open spec fn class_has(m: Map<Seq<char>, ClassModel>, k: Seq<char>, f: ClassField, x: Seq<char>) -> bool {
    m.dom().contains(k) && m[k].sets[f].contains(x)
}

/// Property `k` is known and set `f` of it holds `x`.
pub open spec fn property_has(m: Map<Seq<char>, PropertyModel>, k: Seq<char>, f: PropertyField, x: Seq<char>) -> bool {
    m.dom().contains(k) && m[k].sets[f].contains(x)
}

proof fn lemma_class_add_noop(m: Map<Seq<char>, ClassModel>, k: Seq<char>, f: ClassField, x: Seq<char>)
    requires
        class_has(m, k, f, x),
        class_keeps(m, k, f),
    ensures
        class_add(m, k, f, x) == m,
{
    let c = m[k];
    assert(c.sets[f].insert(x) =~= c.sets[f]);
    assert(c.sets.insert(f, c.sets[f].insert(x)) =~= c.sets);
    assert(m.insert(k, c) =~= m);
}

proof fn lemma_class_add_grows(m: Map<Seq<char>, ClassModel>, k: Seq<char>, f: ClassField, x: Seq<char>)
    ensures
        class_has(class_add(m, k, f, x), k, f, x),
        class_keeps(class_add(m, k, f, x), k, f),
        forall|k2: Seq<char>, g: ClassField| #[trigger] class_keeps(m, k2, g) ==> class_keeps(class_add(m, k, f, x), k2, g),
        forall|k2: Seq<char>, g: ClassField, y: Seq<char>| #[trigger] class_has(m, k2, g, y) ==> class_has(class_add(m, k, f, x), k2, g, y),
        forall|k2: Seq<char>| #[trigger] m.dom().contains(k2) ==> class_add(m, k, f, x).dom().contains(k2),
{
}

proof fn lemma_property_add_noop(m: Map<Seq<char>, PropertyModel>, k: Seq<char>, f: PropertyField, x: Seq<char>)
    requires
        property_has(m, k, f, x),
        property_keeps(m, k, f),
    ensures
        property_add(m, k, f, x) == m,
{
    let p = m[k];
    assert(p.sets[f].insert(x) =~= p.sets[f]);
    assert(p.sets.insert(f, p.sets[f].insert(x)) =~= p.sets);
    assert(m.insert(k, p) =~= m);
}

proof fn lemma_property_add_grows(m: Map<Seq<char>, PropertyModel>, k: Seq<char>, f: PropertyField, x: Seq<char>)
    ensures
        property_has(property_add(m, k, f, x), k, f, x),
        property_keeps(property_add(m, k, f, x), k, f),
        forall|k2: Seq<char>, g: PropertyField| #[trigger] property_keeps(m, k2, g) ==> property_keeps(property_add(m, k, f, x), k2, g),
        forall|k2: Seq<char>, g: PropertyField, y: Seq<char>| #[trigger] property_has(m, k2, g, y) ==> property_has(property_add(m, k, f, x), k2, g, y),
        forall|k2: Seq<char>| #[trigger] m.dom().contains(k2) ==> property_add(m, k, f, x).dom().contains(k2),
{
}

proof fn lemma_class_pair_twice(m: Map<Seq<char>, ClassModel>, s: Seq<char>, o: Seq<char>, f: ClassField)
    ensures
        class_pair(class_pair(m, s, o, f), s, o, f) == class_pair(m, s, o, f),
{
    let r1 = class_add(m, s, f, o);
    let r = class_add(r1, o, f, s);
    lemma_class_add_grows(m, s, f, o);
    lemma_class_add_grows(r1, o, f, s);
    assert(class_has(r, s, f, o));
    lemma_class_add_noop(r, s, f, o);
    lemma_class_add_noop(r, o, f, s);
}

proof fn lemma_property_pair_twice(m: Map<Seq<char>, PropertyModel>, s: Seq<char>, o: Seq<char>, f: PropertyField)
    ensures
        property_pair(property_pair(m, s, o, f), s, o, f) == property_pair(m, s, o, f),
{
    let r1 = property_add(m, s, f, o);
    let r = property_add(r1, o, f, s);
    lemma_property_add_grows(m, s, f, o);
    lemma_property_add_grows(r1, o, f, s);
    assert(property_has(r, s, f, o));
    lemma_property_add_noop(r, s, f, o);
    lemma_property_add_noop(r, o, f, s);
}

/// Two adds on different sets of classes, each applied again, change nothing more.
proof fn lemma_class_two_adds_twice(m: Map<Seq<char>, ClassModel>, k1: Seq<char>, f1: ClassField, x1: Seq<char>, k2: Seq<char>, f2: ClassField, x2: Seq<char>)
    ensures
        ({
            let r = class_add(class_add(m, k1, f1, x1), k2, f2, x2);
            class_add(class_add(r, k1, f1, x1), k2, f2, x2) == r
        }),
{
    let r1 = class_add(m, k1, f1, x1);
    let r = class_add(r1, k2, f2, x2);
    lemma_class_add_grows(m, k1, f1, x1);
    lemma_class_add_grows(r1, k2, f2, x2);
    assert(class_has(r, k1, f1, x1));
    lemma_class_add_noop(r, k1, f1, x1);
    lemma_class_add_noop(r, k2, f2, x2);
}

proof fn lemma_ensure_class_noop(m: Map<Seq<char>, ClassModel>, k: Seq<char>)
    requires
        m.dom().contains(k),
    ensures
        ensure_class(m, k) == m,
{
    assert(m.insert(k, m[k]) =~= m);
}

proof fn lemma_ensure_property_noop(m: Map<Seq<char>, PropertyModel>, k: Seq<char>)
    requires
        m.dom().contains(k),
    ensures
        ensure_property(m, k) == m,
{
    assert(m.insert(k, m[k]) =~= m);
}

proof fn lemma_resource_step_twice(sc: SchemaModel, s: Seq<char>, p: Seq<char>, o: Seq<char>)
    ensures
        resource_step(resource_step(sc, s, p, o), s, p, o) == resource_step(sc, s, p, o),
{
    let cs = sc.classes;
    let ps = sc.properties;
    let r = resource_step(sc, s, p, o);
    if p == crate::reasoning::values::RDF_TYPE@ {
        let q = property_at(ps, s);
        match flag_of(o) {
            Some(fl) => {
                let q1 = PropertyModel { flags: q.flags.insert(fl), ..q };
                assert(q1.flags.insert(fl) =~= q1.flags);
                assert(ps.insert(s, q1).insert(s, q1) =~= ps.insert(s, q1));
            },
            None => {
                assert(ensure_property(ps, s).dom().contains(s));
                lemma_ensure_property_noop(ensure_property(ps, s), s);
            },
        }
    } else if p == crate::reasoning::values::RDFS_DOMAIN@ || p == crate::reasoning::values::RDFS_RANGE@ {
        if o != crate::reasoning::values::OWL_THING@ {
            let f = if p == crate::reasoning::values::RDFS_DOMAIN@ { PropertyField::Domain } else { PropertyField::Range };
            let e = ensure_class(cs, o);
            assert(e.dom().contains(o));
            lemma_ensure_class_noop(e, o);
            lemma_property_add_grows(ps, s, f, o);
            lemma_property_add_noop(property_add(ps, s, f, o), s, f, o);
        }
    } else if p == crate::reasoning::values::RDFS_SUBCLASS_OF@ {
        if o != crate::reasoning::values::OWL_THING@ {
            let e = ensure_class(cs, o);
            assert(e.dom().contains(o));
            lemma_class_add_grows(e, s, ClassField::SuperClasses, o);
            let c1 = class_add(e, s, ClassField::SuperClasses, o);
            lemma_ensure_class_noop(c1, o);
            lemma_class_add_noop(c1, s, ClassField::SuperClasses, o);
        }
    } else if p == crate::reasoning::values::RDFS_SUBPROPERTY_OF@ {
        let e = ensure_property(ps, o);
        assert(e.dom().contains(o));
        lemma_property_add_grows(e, s, PropertyField::SuperProperties, o);
        let p1 = property_add(e, s, PropertyField::SuperProperties, o);
        lemma_ensure_property_noop(p1, o);
        lemma_property_add_noop(p1, s, PropertyField::SuperProperties, o);
    } else if p == crate::reasoning::values::OWL_EQUIVALENT_CLASS@ {
        lemma_class_pair_twice(cs, s, o, ClassField::SuperClasses);
    } else if p == crate::reasoning::values::OWL_EQUIVALENT_PROPERTY@ {
        lemma_property_pair_twice(ps, s, o, PropertyField::SuperProperties);
    } else if p == crate::reasoning::values::OWL_INVERSE_OF@ {
        lemma_property_pair_twice(ps, s, o, PropertyField::InverseProperties);
    } else if p == crate::reasoning::values::OWL_COMPLEMENT_OF@ {
        lemma_class_pair_twice(cs, s, o, ClassField::ComplementaryClasses);
    } else if p == crate::reasoning::values::OWL_DISJOINT_WITH@ {
        lemma_class_pair_twice(cs, s, o, ClassField::DisjointClasses);
    } else if p == crate::reasoning::values::OWL_PROPERTY_DISJOINT_WITH@ {
        lemma_property_pair_twice(ps, s, o, PropertyField::DisjointProperties);
    } else if p == crate::reasoning::values::OWL_ON_PROPERTY@ {
        lemma_class_add_grows(cs, s, ClassField::Properties, o);
        lemma_class_add_noop(class_add(cs, s, ClassField::Properties, o), s, ClassField::Properties, o);
        lemma_property_add_grows(ps, o, PropertyField::Restrictions, s);
        lemma_property_add_noop(property_add(ps, o, PropertyField::Restrictions, s), o, PropertyField::Restrictions, s);
    } else if p == crate::reasoning::values::OWL_SOME_VALUES_FROM@ {
        lemma_class_two_adds_twice(cs, o, ClassField::SvfRestrictions, s, s, ClassField::SvfClasses, o);
    } else if p == crate::reasoning::values::OWL_ALL_VALUES_FROM@ {
        lemma_class_two_adds_twice(cs, o, ClassField::AvfRestrictions, s, s, ClassField::AvfClasses, o);
    } else if p == crate::reasoning::values::OWL_ON_CLASS@ {
        lemma_class_two_adds_twice(cs, o, ClassField::QcRestrictions, s, s, ClassField::QcClasses, o);
    }
}

proof fn lemma_value_step_twice(sc: SchemaModel, t: TripleModel)
    ensures
        value_step(value_step(sc, t), t) == value_step(sc, t),
{
    let cs = sc.classes;
    let s = t.subject;
    let c = class_at(cs, s);
    let r = value_step(sc, t);
    if t.predicate == crate::reasoning::values::OWL_HAS_VALUE@ {
        let c1 = ClassModel { values: c.values.insert(t.object), ..c };
        assert(c1.values.insert(t.object) =~= c1.values);
        assert(cs.insert(s, c1).insert(s, c1) =~= cs.insert(s, c1));
    } else {
        match crate::reasoning::schema::parse_i32_spec(crate::reasoning::values::string_value_of(t.object)) {
            Some(v) => {
                assert(!lowers(Some(v), v));
                let x = r.classes[s];
                assert(r.classes.dom().contains(s));
                assert(class_at(r.classes, s) == x);
                assert(r.classes.insert(s, x) =~= r.classes);
            },
            None => {},
        }
    }
}

/// Reading a statement a second time changes the schema no further: what one reading
/// adds is there already, and a kept maximum cardinality is not lowered by itself.
pub proof fn law_schema_step_idempotent(sc: SchemaModel, t: TripleModel)
    ensures
        schema_step(schema_step(sc, t), t) == schema_step(sc, t),
{
    if crate::reasoning::schema::is_schema_triple_spec(t) {
        if t.predicate == crate::reasoning::values::OWL_HAS_VALUE@ || t.predicate == crate::reasoning::values::OWL_MAX_CARDINALITY@
            || t.predicate == crate::reasoning::values::OWL_MAX_QUALIFIED_CARDINALITY@ {
            lemma_value_step_twice(sc, t);
        } else {
            match crate::reasoning::values::resource_of(t.object) {
                Some(o) => lemma_resource_step_twice(sc, t.subject, t.predicate, o),
                None => {},
            }
        }
    }
}

/// The statement `(s, predicate, o)` with a resource object, in any context.
pub open spec fn resource_statement(s: Seq<char>, predicate: Seq<char>, o: Seq<char>, ctx: Option<Seq<char>>) -> TripleModel {
    TripleModel { subject: s, predicate, object: ValueModel::Resource(o), context: ctx }
}

proof fn lemma_predicates_distinct()
    ensures
        crate::reasoning::values::RDFS_RANGE@ != crate::reasoning::values::OWL_HAS_VALUE@,
        crate::reasoning::values::RDFS_RANGE@ != crate::reasoning::values::OWL_MAX_CARDINALITY@,
        crate::reasoning::values::RDFS_RANGE@ != crate::reasoning::values::OWL_MAX_QUALIFIED_CARDINALITY@,
        crate::reasoning::values::RDFS_RANGE@ != crate::reasoning::values::RDF_TYPE@,
        crate::reasoning::values::RDFS_RANGE@ != crate::reasoning::values::RDFS_DOMAIN@,
        crate::reasoning::values::RDFS_DOMAIN@ != crate::reasoning::values::OWL_HAS_VALUE@,
        crate::reasoning::values::RDFS_DOMAIN@ != crate::reasoning::values::OWL_MAX_CARDINALITY@,
        crate::reasoning::values::RDFS_DOMAIN@ != crate::reasoning::values::OWL_MAX_QUALIFIED_CARDINALITY@,
        crate::reasoning::values::RDFS_DOMAIN@ != crate::reasoning::values::RDF_TYPE@,
{
    crate::reasoning::literals::lemma_text_rdfs_range();
    crate::reasoning::literals::lemma_text_rdfs_domain();
    crate::reasoning::literals::lemma_text_owl_has_value();
    crate::reasoning::literals::lemma_text_owl_max_cardinality();
    crate::reasoning::literals::lemma_text_owl_max_qualified_cardinality();
    crate::reasoning::literals::lemma_text_rdf_type();
}

/// A range statement `(p, rdfs:range, C)` on a class other than `owl:Thing` puts `C` into
/// the range of `p` and nothing else: `p`'s domain and every other property stay as they
/// were, and `C` becomes a known class.
pub proof fn law_range_statement(sc: SchemaModel, p: Seq<char>, c: Seq<char>, ctx: Option<Seq<char>>)
    requires
        c != crate::reasoning::values::OWL_THING@,
    ensures
        ({
            let r = schema_step(sc, resource_statement(p, crate::reasoning::values::RDFS_RANGE@, c, ctx));
            &&& r.properties.dom().contains(p)
            &&& r.properties[p].sets[PropertyField::Range] == property_at(sc.properties, p).sets[PropertyField::Range].insert(c)
            &&& r.properties[p].sets[PropertyField::Range].contains(c)
            &&& r.properties[p].sets[PropertyField::Domain] == property_at(sc.properties, p).sets[PropertyField::Domain]
            &&& r.properties[p].flags == property_at(sc.properties, p).flags
            &&& forall|q: Seq<char>| q != p ==> property_at(#[trigger] r.properties, q) == property_at(sc.properties, q)
            &&& r.classes.dom().contains(c)
        }),
{
    lemma_predicates_distinct();
}

/// A domain statement `(p, rdfs:domain, C)` on a class other than `owl:Thing` puts `C` into
/// the domain of `p` and nothing else: `p`'s range and every other property stay as they
/// were, and `C` becomes a known class.
pub proof fn law_domain_statement(sc: SchemaModel, p: Seq<char>, c: Seq<char>, ctx: Option<Seq<char>>)
    requires
        c != crate::reasoning::values::OWL_THING@,
    ensures
        ({
            let r = schema_step(sc, resource_statement(p, crate::reasoning::values::RDFS_DOMAIN@, c, ctx));
            &&& r.properties.dom().contains(p)
            &&& r.properties[p].sets[PropertyField::Domain] == property_at(sc.properties, p).sets[PropertyField::Domain].insert(c)
            &&& r.properties[p].sets[PropertyField::Domain].contains(c)
            &&& r.properties[p].sets[PropertyField::Range] == property_at(sc.properties, p).sets[PropertyField::Range]
            &&& r.properties[p].flags == property_at(sc.properties, p).flags
            &&& forall|q: Seq<char>| q != p ==> property_at(#[trigger] r.properties, q) == property_at(sc.properties, q)
            &&& r.classes.dom().contains(c)
        }),
{
    lemma_predicates_distinct();
}

} // verus!
