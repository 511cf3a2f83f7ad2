use vstd::prelude::*;

use crate::reasoning::laws::resource_statement;
use crate::reasoning::literals::{
    lemma_text_rdf_type, lemma_text_rdfs_subclass_of, lemma_text_rdfs_subproperty_of, lemma_text_rdfs_domain, lemma_text_rdfs_range, lemma_text_owl_transitive_property, lemma_text_owl_symmetric_property, lemma_text_owl_functional_property, lemma_text_owl_inverse_functional_property, lemma_text_owl_equivalent_class, lemma_text_owl_equivalent_property, lemma_text_owl_inverse_of, lemma_text_owl_disjoint_with, lemma_text_owl_complement_of, lemma_text_owl_on_property, lemma_text_owl_some_values_from, lemma_text_owl_all_values_from, lemma_text_owl_has_value, lemma_text_owl_max_cardinality, lemma_text_owl_asymmetric_property, lemma_text_owl_irreflexive_property, lemma_text_owl_property_disjoint_with, lemma_text_owl_on_class, lemma_text_owl_max_qualified_cardinality,
};
use crate::reasoning::schema::{
    class_at, property_at, schema_step, ClassField, ClassModel, PropertyField, PropertyFlag, SchemaModel,
};
use crate::reasoning::values::{
    TripleModel, ValueModel, OWL_EQUIVALENT_CLASS, OWL_HAS_VALUE, OWL_INVERSE_OF, OWL_IRREFLEXIVE_PROPERTY,
    OWL_MAX_CARDINALITY, OWL_ON_PROPERTY, OWL_SYMMETRIC_PROPERTY, OWL_THING, OWL_TRANSITIVE_PROPERTY,
    RDFS_SUBCLASS_OF, RDF_TYPE,
};

verus! {

proof fn lemma_value_predicates()
    ensures
        crate::reasoning::values::RDF_TYPE@.len() == 47,
        crate::reasoning::values::RDF_TYPE@[18] == '1',
        crate::reasoning::values::RDFS_SUBCLASS_OF@.len() == 47,
        crate::reasoning::values::RDFS_SUBCLASS_OF@[18] == '2',
        crate::reasoning::values::RDFS_SUBPROPERTY_OF@.len() == 50,
        crate::reasoning::values::RDFS_SUBPROPERTY_OF@[21] == '0',
        crate::reasoning::values::RDFS_DOMAIN@.len() == 43,
        crate::reasoning::values::RDFS_DOMAIN@[21] == '0',
        crate::reasoning::values::RDFS_RANGE@.len() == 42,
        crate::reasoning::values::RDFS_RANGE@[21] == '0',
        crate::reasoning::values::OWL_TRANSITIVE_PROPERTY@.len() == 48,
        crate::reasoning::values::OWL_SYMMETRIC_PROPERTY@.len() == 47,
        crate::reasoning::values::OWL_FUNCTIONAL_PROPERTY@.len() == 48,
        crate::reasoning::values::OWL_INVERSE_FUNCTIONAL_PROPERTY@.len() == 55,
        crate::reasoning::values::OWL_EQUIVALENT_CLASS@.len() == 45,
        crate::reasoning::values::OWL_EQUIVALENT_PROPERTY@.len() == 48,
        crate::reasoning::values::OWL_INVERSE_OF@.len() == 39,
        crate::reasoning::values::OWL_DISJOINT_WITH@.len() == 42,
        crate::reasoning::values::OWL_DISJOINT_WITH@[21] == '2',
        crate::reasoning::values::OWL_DISJOINT_WITH@[30] == 'd',
        crate::reasoning::values::OWL_COMPLEMENT_OF@.len() == 42,
        crate::reasoning::values::OWL_COMPLEMENT_OF@[21] == '2',
        crate::reasoning::values::OWL_COMPLEMENT_OF@[30] == 'c',
        crate::reasoning::values::OWL_ON_PROPERTY@.len() == 40,
        crate::reasoning::values::OWL_SOME_VALUES_FROM@.len() == 44,
        crate::reasoning::values::OWL_SOME_VALUES_FROM@[30] == 's',
        crate::reasoning::values::OWL_ALL_VALUES_FROM@.len() == 43,
        crate::reasoning::values::OWL_ALL_VALUES_FROM@[21] == '2',
        crate::reasoning::values::OWL_HAS_VALUE@.len() == 38,
        crate::reasoning::values::OWL_MAX_CARDINALITY@.len() == 44,
        crate::reasoning::values::OWL_MAX_CARDINALITY@[30] == 'm',
        crate::reasoning::values::OWL_ASYMMETRIC_PROPERTY@.len() == 48,
        crate::reasoning::values::OWL_IRREFLEXIVE_PROPERTY@.len() == 49,
        crate::reasoning::values::OWL_PROPERTY_DISJOINT_WITH@.len() == 50,
        crate::reasoning::values::OWL_PROPERTY_DISJOINT_WITH@[21] == '2',
        crate::reasoning::values::OWL_ON_CLASS@.len() == 37,
        crate::reasoning::values::OWL_MAX_QUALIFIED_CARDINALITY@.len() == 53,
{
    lemma_text_rdf_type();
    lemma_text_rdfs_subclass_of();
    lemma_text_rdfs_subproperty_of();
    lemma_text_rdfs_domain();
    lemma_text_rdfs_range();
    lemma_text_owl_transitive_property();
    lemma_text_owl_symmetric_property();
    lemma_text_owl_functional_property();
    lemma_text_owl_inverse_functional_property();
    lemma_text_owl_equivalent_class();
    lemma_text_owl_equivalent_property();
    lemma_text_owl_inverse_of();
    lemma_text_owl_disjoint_with();
    lemma_text_owl_complement_of();
    lemma_text_owl_on_property();
    lemma_text_owl_some_values_from();
    lemma_text_owl_all_values_from();
    lemma_text_owl_has_value();
    lemma_text_owl_max_cardinality();
    lemma_text_owl_asymmetric_property();
    lemma_text_owl_irreflexive_property();
    lemma_text_owl_property_disjoint_with();
    lemma_text_owl_on_class();
    lemma_text_owl_max_qualified_cardinality();
}

/// A subclass statement `(s, rdfs:subClassOf, o)` with `o` other than `owl:Thing` makes `o`
/// a superclass of `s` (and a known class) and touches nothing else of the classes or of
/// the properties.
pub proof fn law_subclass_statement(sc: SchemaModel, s: Seq<char>, o: Seq<char>, ctx: Option<Seq<char>>)
    requires
        o != OWL_THING@,
    ensures
        ({
            let r = schema_step(sc, resource_statement(s, RDFS_SUBCLASS_OF@, o, ctx));
            &&& r.classes.dom().contains(s) && r.classes.dom().contains(o)
            &&& r.classes[s].sets[ClassField::SuperClasses] == class_at(sc.classes, s).sets[ClassField::SuperClasses].insert(o)
            &&& s != o ==> r.classes[o] == class_at(sc.classes, o)
            &&& forall|k: Seq<char>| k != s && k != o ==> class_at(#[trigger] r.classes, k) == class_at(sc.classes, k)
            &&& r.properties == sc.properties
        }),
{
    lemma_value_predicates();
}

/// An equivalence `(s, owl:equivalentClass, o)` makes each class a superclass of the other.
pub proof fn law_equivalent_class_statement(sc: SchemaModel, s: Seq<char>, o: Seq<char>, ctx: Option<Seq<char>>)
    ensures
        ({
            let r = schema_step(sc, resource_statement(s, OWL_EQUIVALENT_CLASS@, o, ctx));
            &&& r.classes.dom().contains(s) && r.classes[s].sets[ClassField::SuperClasses].contains(o)
            &&& r.classes.dom().contains(o) && r.classes[o].sets[ClassField::SuperClasses].contains(s)
            &&& r.properties == sc.properties
        }),
{
    lemma_value_predicates();
}

/// An inverse `(s, owl:inverseOf, o)` makes each property an inverse of the other.
pub proof fn law_inverse_statement(sc: SchemaModel, s: Seq<char>, o: Seq<char>, ctx: Option<Seq<char>>)
    ensures
        ({
            let r = schema_step(sc, resource_statement(s, OWL_INVERSE_OF@, o, ctx));
            &&& r.properties.dom().contains(s) && r.properties[s].sets[PropertyField::InverseProperties].contains(o)
            &&& r.properties.dom().contains(o) && r.properties[o].sets[PropertyField::InverseProperties].contains(s)
            &&& r.classes == sc.classes
        }),
{
    lemma_value_predicates();
}

/// A restriction `(s, owl:onProperty, o)` puts `o` among the properties of restriction `s`
/// and `s` among the restrictions of property `o`.
pub proof fn law_on_property_statement(sc: SchemaModel, s: Seq<char>, o: Seq<char>, ctx: Option<Seq<char>>)
    ensures
        ({
            let r = schema_step(sc, resource_statement(s, OWL_ON_PROPERTY@, o, ctx));
            &&& r.classes.dom().contains(s) && r.classes[s].sets[ClassField::Properties] == class_at(sc.classes, s).sets[ClassField::Properties].insert(o)
            &&& r.properties.dom().contains(o) && r.properties[o].sets[PropertyField::Restrictions] == property_at(sc.properties, o).sets[PropertyField::Restrictions].insert(s)
        }),
{
    lemma_value_predicates();
}

/// Declaring a property transitive, symmetric or irreflexive adds exactly that kind to it and
/// changes none of its sets nor any class.
pub proof fn law_property_kind_statement(sc: SchemaModel, p: Seq<char>, ctx: Option<Seq<char>>)
    ensures
        ({
            let r = schema_step(sc, resource_statement(p, RDF_TYPE@, OWL_TRANSITIVE_PROPERTY@, ctx));
            &&& r.properties.dom().contains(p)
            &&& r.properties[p].flags == property_at(sc.properties, p).flags.insert(PropertyFlag::Transitive)
            &&& r.properties[p].sets == property_at(sc.properties, p).sets
            &&& r.classes == sc.classes
        }),
        ({
            let r = schema_step(sc, resource_statement(p, RDF_TYPE@, OWL_SYMMETRIC_PROPERTY@, ctx));
            &&& r.properties.dom().contains(p)
            &&& r.properties[p].flags == property_at(sc.properties, p).flags.insert(PropertyFlag::Symmetric)
            &&& r.properties[p].sets == property_at(sc.properties, p).sets
            &&& r.classes == sc.classes
        }),
        ({
            let r = schema_step(sc, resource_statement(p, RDF_TYPE@, OWL_IRREFLEXIVE_PROPERTY@, ctx));
            &&& r.properties.dom().contains(p)
            &&& r.properties[p].flags == property_at(sc.properties, p).flags.insert(PropertyFlag::Irreflexive)
            &&& r.properties[p].sets == property_at(sc.properties, p).sets
            &&& r.classes == sc.classes
        }),
{
    lemma_value_predicates();
}

/// A `hasValue` statement adds its object, literal or resource, to the values of the class
/// and changes nothing else.
pub proof fn law_has_value_statement(sc: SchemaModel, s: Seq<char>, v: ValueModel, ctx: Option<Seq<char>>)
    ensures
        ({
            let r = schema_step(sc, TripleModel { subject: s, predicate: OWL_HAS_VALUE@, object: v, context: ctx });
            &&& r.classes.dom().contains(s)
            &&& r.classes[s].values == class_at(sc.classes, s).values.insert(v)
            &&& r.classes[s].sets == class_at(sc.classes, s).sets
            &&& r.classes[s].max_cardinality == class_at(sc.classes, s).max_cardinality
            &&& r.properties == sc.properties
        }),
{
    lemma_value_predicates();
}

/// A maximum cardinality given as the decimal text of `v` is kept when the class has none
/// yet, or when `v` is not negative and below the one kept; otherwise the kept one stays.
pub proof fn law_max_cardinality_statement(
    sc: SchemaModel,
    s: Seq<char>,
    v: i32,
    datatype: Option<Seq<char>>,
    language: Option<Seq<char>>,
    ctx: Option<Seq<char>>,
)
    ensures
        ({
            let r = schema_step(
                sc,
                TripleModel {
                    subject: s,
                    predicate: OWL_MAX_CARDINALITY@,
                    object: ValueModel::Literal(crate::text::signed_decimal(v as int), datatype, language),
                    context: ctx,
                },
            );
            &&& r.classes.dom().contains(s)
            &&& r.classes[s].max_cardinality == match class_at(sc.classes, s).max_cardinality {
                None => Some(v),
                Some(o) => if 0 <= v && v < o { Some(v) } else { Some(o) },
            }
            &&& r.classes[s].max_qualified_cardinality == class_at(sc.classes, s).max_qualified_cardinality
            &&& r.properties == sc.properties
        }),
{
    lemma_value_predicates();
    crate::fluo_pcj::laws::lemma_signed_decimal_parses(v as i64);
    let t = crate::text::signed_decimal(v as int);
    assert(crate::text::parse_signed_spec(t) == Some(v as int));
    assert(crate::reasoning::schema::parse_i32_spec(t) == Some(v));
}

/// A complement `(s, owl:complementOf, o)` makes each class the complement of the other and
/// touches no other class nor any property.
pub proof fn law_complement_statement(sc: SchemaModel, s: Seq<char>, o: Seq<char>, ctx: Option<Seq<char>>)
    ensures
        ({
            let r = schema_step(sc, resource_statement(s, crate::reasoning::values::OWL_COMPLEMENT_OF@, o, ctx));
            &&& r.classes.dom().contains(s) && r.classes[s].sets[ClassField::ComplementaryClasses].contains(o)
            &&& r.classes.dom().contains(o) && r.classes[o].sets[ClassField::ComplementaryClasses].contains(s)
            &&& forall|k: Seq<char>| k != s && k != o ==> class_at(#[trigger] r.classes, k) == class_at(sc.classes, k)
            &&& r.properties == sc.properties
        }),
{
    lemma_value_predicates();
}

/// A disjointness `(s, owl:disjointWith, o)` makes each class disjoint with the other and
/// touches no other class nor any property.
pub proof fn law_disjoint_statement(sc: SchemaModel, s: Seq<char>, o: Seq<char>, ctx: Option<Seq<char>>)
    ensures
        ({
            let r = schema_step(sc, resource_statement(s, crate::reasoning::values::OWL_DISJOINT_WITH@, o, ctx));
            &&& r.classes.dom().contains(s) && r.classes[s].sets[ClassField::DisjointClasses].contains(o)
            &&& r.classes.dom().contains(o) && r.classes[o].sets[ClassField::DisjointClasses].contains(s)
            &&& forall|k: Seq<char>| k != s && k != o ==> class_at(#[trigger] r.classes, k) == class_at(sc.classes, k)
            &&& r.properties == sc.properties
        }),
{
    lemma_value_predicates();
}

/// An equivalence `(s, owl:equivalentProperty, o)` makes each property a superproperty of
/// the other and touches no other property nor any class.
pub proof fn law_equivalent_property_statement(sc: SchemaModel, s: Seq<char>, o: Seq<char>, ctx: Option<Seq<char>>)
    ensures
        ({
            let r = schema_step(sc, resource_statement(s, crate::reasoning::values::OWL_EQUIVALENT_PROPERTY@, o, ctx));
            &&& r.properties.dom().contains(s) && r.properties[s].sets[PropertyField::SuperProperties].contains(o)
            &&& r.properties.dom().contains(o) && r.properties[o].sets[PropertyField::SuperProperties].contains(s)
            &&& forall|k: Seq<char>| k != s && k != o ==> property_at(#[trigger] r.properties, k) == property_at(sc.properties, k)
            &&& r.classes == sc.classes
        }),
{
    lemma_value_predicates();
}

/// A disjointness `(s, owl:propertyDisjointWith, o)` makes each property disjoint with the
/// other and touches no other property nor any class.
pub proof fn law_property_disjoint_statement(sc: SchemaModel, s: Seq<char>, o: Seq<char>, ctx: Option<Seq<char>>)
    ensures
        ({
            let r = schema_step(sc, resource_statement(s, crate::reasoning::values::OWL_PROPERTY_DISJOINT_WITH@, o, ctx));
            &&& r.properties.dom().contains(s) && r.properties[s].sets[PropertyField::DisjointProperties].contains(o)
            &&& r.properties.dom().contains(o) && r.properties[o].sets[PropertyField::DisjointProperties].contains(s)
            &&& forall|k: Seq<char>| k != s && k != o ==> property_at(#[trigger] r.properties, k) == property_at(sc.properties, k)
            &&& r.classes == sc.classes
        }),
{
    lemma_value_predicates();
}

/// A restriction `(s, owl:someValuesFrom, o)` records `o` as a class of restriction `s`
/// and `s` as a restriction of class `o`.
pub proof fn law_some_values_from_statement(sc: SchemaModel, s: Seq<char>, o: Seq<char>, ctx: Option<Seq<char>>)
    ensures
        ({
            let r = schema_step(sc, resource_statement(s, crate::reasoning::values::OWL_SOME_VALUES_FROM@, o, ctx));
            &&& r.classes.dom().contains(s) && r.classes[s].sets[ClassField::SvfClasses].contains(o)
            &&& r.classes.dom().contains(o) && r.classes[o].sets[ClassField::SvfRestrictions].contains(s)
            &&& r.properties == sc.properties
        }),
{
    lemma_value_predicates();
}

/// A restriction `(s, owl:allValuesFrom, o)` records `o` as a class of restriction `s` and
/// `s` as a restriction of class `o`.
pub proof fn law_all_values_from_statement(sc: SchemaModel, s: Seq<char>, o: Seq<char>, ctx: Option<Seq<char>>)
    ensures
        ({
            let r = schema_step(sc, resource_statement(s, crate::reasoning::values::OWL_ALL_VALUES_FROM@, o, ctx));
            &&& r.classes.dom().contains(s) && r.classes[s].sets[ClassField::AvfClasses].contains(o)
            &&& r.classes.dom().contains(o) && r.classes[o].sets[ClassField::AvfRestrictions].contains(s)
            &&& r.properties == sc.properties
        }),
{
    lemma_value_predicates();
}

/// A restriction `(s, owl:onClass, o)` records `o` as a class of restriction `s` and `s` as
/// a restriction of class `o`.
pub proof fn law_on_class_statement(sc: SchemaModel, s: Seq<char>, o: Seq<char>, ctx: Option<Seq<char>>)
    ensures
        ({
            let r = schema_step(sc, resource_statement(s, crate::reasoning::values::OWL_ON_CLASS@, o, ctx));
            &&& r.classes.dom().contains(s) && r.classes[s].sets[ClassField::QcClasses].contains(o)
            &&& r.classes.dom().contains(o) && r.classes[o].sets[ClassField::QcRestrictions].contains(s)
            &&& r.properties == sc.properties
        }),
{
    lemma_value_predicates();
}

/// A subproperty statement `(s, rdfs:subPropertyOf, o)` makes `o` a superproperty of `s`
/// (and a known property) and changes no class.
pub proof fn law_subproperty_statement(sc: SchemaModel, s: Seq<char>, o: Seq<char>, ctx: Option<Seq<char>>)
    ensures
        ({
            let r = schema_step(sc, resource_statement(s, crate::reasoning::values::RDFS_SUBPROPERTY_OF@, o, ctx));
            &&& r.properties.dom().contains(s) && r.properties.dom().contains(o)
            &&& r.properties[s].sets[PropertyField::SuperProperties] == property_at(sc.properties, s).sets[PropertyField::SuperProperties].insert(o)
            &&& s != o ==> r.properties[o] == property_at(sc.properties, o)
            &&& r.classes == sc.classes
        }),
{
    lemma_value_predicates();
}

/// A maximum qualified cardinality given as the decimal text of `v` is kept when the class
/// has none yet, or when `v` is not negative and below the one kept; the plain maximum stays.
pub proof fn law_max_qualified_cardinality_statement(
    sc: SchemaModel,
    s: Seq<char>,
    v: i32,
    datatype: Option<Seq<char>>,
    language: Option<Seq<char>>,
    ctx: Option<Seq<char>>,
)
    ensures
        ({
            let r = schema_step(
                sc,
                TripleModel {
                    subject: s,
                    predicate: crate::reasoning::values::OWL_MAX_QUALIFIED_CARDINALITY@,
                    object: ValueModel::Literal(crate::text::signed_decimal(v as int), datatype, language),
                    context: ctx,
                },
            );
            &&& r.classes.dom().contains(s)
            &&& r.classes[s].max_qualified_cardinality == match class_at(sc.classes, s).max_qualified_cardinality {
                None => Some(v),
                Some(o) => if 0 <= v && v < o { Some(v) } else { Some(o) },
            }
            &&& r.classes[s].max_cardinality == class_at(sc.classes, s).max_cardinality
            &&& r.properties == sc.properties
        }),
{
    lemma_value_predicates();
    crate::fluo_pcj::laws::lemma_signed_decimal_parses(v as i64);
    let t = crate::text::signed_decimal(v as int);
    assert(crate::text::parse_signed_spec(t) == Some(v as int));
    assert(crate::reasoning::schema::parse_i32_spec(t) == Some(v));
}

/// Statements whose object must be a resource change nothing when it is a literal.
pub proof fn law_literal_object_ignored(sc: SchemaModel, t: TripleModel)
    requires
        t.object is Literal,
        t.predicate != crate::reasoning::values::OWL_HAS_VALUE@,
        t.predicate != crate::reasoning::values::OWL_MAX_CARDINALITY@,
        t.predicate != crate::reasoning::values::OWL_MAX_QUALIFIED_CARDINALITY@,
    ensures
        schema_step(sc, t) == sc,
{
}

} // verus!
