use vstd::prelude::*;

verus! {

/// The length of the IRI `http://www.w3.org/1999/02/22-rdf-syntax-ns#type`, and characters that tell it from its neighbours.
pub proof fn lemma_text_rdf_type()
    ensures
        crate::reasoning::values::RDF_TYPE@.len() == 47,
        crate::reasoning::values::RDF_TYPE@[18] == '1',
{
    reveal_strlit("http://www.w3.org/1999/02/22-rdf-syntax-ns#type");
    assert(crate::reasoning::values::RDF_TYPE@ == "http://www.w3.org/1999/02/22-rdf-syntax-ns#type"@);
}

/// The length of the IRI `http://www.w3.org/2000/01/rdf-schema#subClassOf`, and characters that tell it from its neighbours.
pub proof fn lemma_text_rdfs_subclass_of()
    ensures
        crate::reasoning::values::RDFS_SUBCLASS_OF@.len() == 47,
        crate::reasoning::values::RDFS_SUBCLASS_OF@[18] == '2',
{
    reveal_strlit("http://www.w3.org/2000/01/rdf-schema#subClassOf");
    assert(crate::reasoning::values::RDFS_SUBCLASS_OF@ == "http://www.w3.org/2000/01/rdf-schema#subClassOf"@);
}

/// The length of the IRI `http://www.w3.org/2000/01/rdf-schema#subPropertyOf`, and characters that tell it from its neighbours.
pub proof fn lemma_text_rdfs_subproperty_of()
    ensures
        crate::reasoning::values::RDFS_SUBPROPERTY_OF@.len() == 50,
        crate::reasoning::values::RDFS_SUBPROPERTY_OF@[21] == '0',
{
    reveal_strlit("http://www.w3.org/2000/01/rdf-schema#subPropertyOf");
    assert(crate::reasoning::values::RDFS_SUBPROPERTY_OF@ == "http://www.w3.org/2000/01/rdf-schema#subPropertyOf"@);
}

/// The length of the IRI `http://www.w3.org/2000/01/rdf-schema#domain`, and characters that tell it from its neighbours.
pub proof fn lemma_text_rdfs_domain()
    ensures
        crate::reasoning::values::RDFS_DOMAIN@.len() == 43,
        crate::reasoning::values::RDFS_DOMAIN@[21] == '0',
{
    reveal_strlit("http://www.w3.org/2000/01/rdf-schema#domain");
    assert(crate::reasoning::values::RDFS_DOMAIN@ == "http://www.w3.org/2000/01/rdf-schema#domain"@);
}

/// The length of the IRI `http://www.w3.org/2000/01/rdf-schema#range`, and characters that tell it from its neighbours.
pub proof fn lemma_text_rdfs_range()
    ensures
        crate::reasoning::values::RDFS_RANGE@.len() == 42,
        crate::reasoning::values::RDFS_RANGE@[21] == '0',
{
    reveal_strlit("http://www.w3.org/2000/01/rdf-schema#range");
    assert(crate::reasoning::values::RDFS_RANGE@ == "http://www.w3.org/2000/01/rdf-schema#range"@);
}

/// The length of the IRI `http://www.w3.org/2002/07/owl#TransitiveProperty`.
pub proof fn lemma_text_owl_transitive_property()
    ensures
        crate::reasoning::values::OWL_TRANSITIVE_PROPERTY@.len() == 48,
{
    reveal_strlit("http://www.w3.org/2002/07/owl#TransitiveProperty");
    assert(crate::reasoning::values::OWL_TRANSITIVE_PROPERTY@ == "http://www.w3.org/2002/07/owl#TransitiveProperty"@);
}

/// The length of the IRI `http://www.w3.org/2002/07/owl#SymmetricProperty`.
pub proof fn lemma_text_owl_symmetric_property()
    ensures
        crate::reasoning::values::OWL_SYMMETRIC_PROPERTY@.len() == 47,
{
    reveal_strlit("http://www.w3.org/2002/07/owl#SymmetricProperty");
    assert(crate::reasoning::values::OWL_SYMMETRIC_PROPERTY@ == "http://www.w3.org/2002/07/owl#SymmetricProperty"@);
}

/// The length of the IRI `http://www.w3.org/2002/07/owl#FunctionalProperty`.
pub proof fn lemma_text_owl_functional_property()
    ensures
        crate::reasoning::values::OWL_FUNCTIONAL_PROPERTY@.len() == 48,
{
    reveal_strlit("http://www.w3.org/2002/07/owl#FunctionalProperty");
    assert(crate::reasoning::values::OWL_FUNCTIONAL_PROPERTY@ == "http://www.w3.org/2002/07/owl#FunctionalProperty"@);
}

/// The length of the IRI `http://www.w3.org/2002/07/owl#InverseFunctionalProperty`.
pub proof fn lemma_text_owl_inverse_functional_property()
    ensures
        crate::reasoning::values::OWL_INVERSE_FUNCTIONAL_PROPERTY@.len() == 55,
{
    reveal_strlit("http://www.w3.org/2002/07/owl#InverseFunctionalProperty");
    assert(crate::reasoning::values::OWL_INVERSE_FUNCTIONAL_PROPERTY@ == "http://www.w3.org/2002/07/owl#InverseFunctionalProperty"@);
}

/// The length of the IRI `http://www.w3.org/2002/07/owl#equivalentClass`.
pub proof fn lemma_text_owl_equivalent_class()
    ensures
        crate::reasoning::values::OWL_EQUIVALENT_CLASS@.len() == 45,
{
    reveal_strlit("http://www.w3.org/2002/07/owl#equivalentClass");
    assert(crate::reasoning::values::OWL_EQUIVALENT_CLASS@ == "http://www.w3.org/2002/07/owl#equivalentClass"@);
}

/// The length of the IRI `http://www.w3.org/2002/07/owl#equivalentProperty`.
pub proof fn lemma_text_owl_equivalent_property()
    ensures
        crate::reasoning::values::OWL_EQUIVALENT_PROPERTY@.len() == 48,
{
    reveal_strlit("http://www.w3.org/2002/07/owl#equivalentProperty");
    assert(crate::reasoning::values::OWL_EQUIVALENT_PROPERTY@ == "http://www.w3.org/2002/07/owl#equivalentProperty"@);
}

/// The length of the IRI `http://www.w3.org/2002/07/owl#inverseOf`.
pub proof fn lemma_text_owl_inverse_of()
    ensures
        crate::reasoning::values::OWL_INVERSE_OF@.len() == 39,
{
    reveal_strlit("http://www.w3.org/2002/07/owl#inverseOf");
    assert(crate::reasoning::values::OWL_INVERSE_OF@ == "http://www.w3.org/2002/07/owl#inverseOf"@);
}

/// The length of the IRI `http://www.w3.org/2002/07/owl#disjointWith`, and characters that tell it from its neighbours.
pub proof fn lemma_text_owl_disjoint_with()
    ensures
        crate::reasoning::values::OWL_DISJOINT_WITH@.len() == 42,
        crate::reasoning::values::OWL_DISJOINT_WITH@[21] == '2',
        crate::reasoning::values::OWL_DISJOINT_WITH@[30] == 'd',
{
    reveal_strlit("http://www.w3.org/2002/07/owl#disjointWith");
    assert(crate::reasoning::values::OWL_DISJOINT_WITH@ == "http://www.w3.org/2002/07/owl#disjointWith"@);
}

/// The length of the IRI `http://www.w3.org/2002/07/owl#complementOf`, and characters that tell it from its neighbours.
pub proof fn lemma_text_owl_complement_of()
    ensures
        crate::reasoning::values::OWL_COMPLEMENT_OF@.len() == 42,
        crate::reasoning::values::OWL_COMPLEMENT_OF@[21] == '2',
        crate::reasoning::values::OWL_COMPLEMENT_OF@[30] == 'c',
{
    reveal_strlit("http://www.w3.org/2002/07/owl#complementOf");
    assert(crate::reasoning::values::OWL_COMPLEMENT_OF@ == "http://www.w3.org/2002/07/owl#complementOf"@);
}

/// The length of the IRI `http://www.w3.org/2002/07/owl#onProperty`.
pub proof fn lemma_text_owl_on_property()
    ensures
        crate::reasoning::values::OWL_ON_PROPERTY@.len() == 40,
{
    reveal_strlit("http://www.w3.org/2002/07/owl#onProperty");
    assert(crate::reasoning::values::OWL_ON_PROPERTY@ == "http://www.w3.org/2002/07/owl#onProperty"@);
}

/// The length of the IRI `http://www.w3.org/2002/07/owl#someValuesFrom`, and characters that tell it from its neighbours.
pub proof fn lemma_text_owl_some_values_from()
    ensures
        crate::reasoning::values::OWL_SOME_VALUES_FROM@.len() == 44,
        crate::reasoning::values::OWL_SOME_VALUES_FROM@[30] == 's',
{
    reveal_strlit("http://www.w3.org/2002/07/owl#someValuesFrom");
    assert(crate::reasoning::values::OWL_SOME_VALUES_FROM@ == "http://www.w3.org/2002/07/owl#someValuesFrom"@);
}

/// The length of the IRI `http://www.w3.org/2002/07/owl#allValuesFrom`, and characters that tell it from its neighbours.
pub proof fn lemma_text_owl_all_values_from()
    ensures
        crate::reasoning::values::OWL_ALL_VALUES_FROM@.len() == 43,
        crate::reasoning::values::OWL_ALL_VALUES_FROM@[21] == '2',
{
    reveal_strlit("http://www.w3.org/2002/07/owl#allValuesFrom");
    assert(crate::reasoning::values::OWL_ALL_VALUES_FROM@ == "http://www.w3.org/2002/07/owl#allValuesFrom"@);
}

/// The length of the IRI `http://www.w3.org/2002/07/owl#hasValue`.
pub proof fn lemma_text_owl_has_value()
    ensures
        crate::reasoning::values::OWL_HAS_VALUE@.len() == 38,
{
    reveal_strlit("http://www.w3.org/2002/07/owl#hasValue");
    assert(crate::reasoning::values::OWL_HAS_VALUE@ == "http://www.w3.org/2002/07/owl#hasValue"@);
}

/// The length of the IRI `http://www.w3.org/2002/07/owl#maxCardinality`, and characters that tell it from its neighbours.
pub proof fn lemma_text_owl_max_cardinality()
    ensures
        crate::reasoning::values::OWL_MAX_CARDINALITY@.len() == 44,
        crate::reasoning::values::OWL_MAX_CARDINALITY@[30] == 'm',
{
    reveal_strlit("http://www.w3.org/2002/07/owl#maxCardinality");
    assert(crate::reasoning::values::OWL_MAX_CARDINALITY@ == "http://www.w3.org/2002/07/owl#maxCardinality"@);
}

/// The length of the IRI `http://www.w3.org/2002/07/owl#AsymmetricProperty`.
pub proof fn lemma_text_owl_asymmetric_property()
    ensures
        crate::reasoning::values::OWL_ASYMMETRIC_PROPERTY@.len() == 48,
{
    reveal_strlit("http://www.w3.org/2002/07/owl#AsymmetricProperty");
    assert(crate::reasoning::values::OWL_ASYMMETRIC_PROPERTY@ == "http://www.w3.org/2002/07/owl#AsymmetricProperty"@);
}

/// The length of the IRI `http://www.w3.org/2002/07/owl#IrreflexiveProperty`.
pub proof fn lemma_text_owl_irreflexive_property()
    ensures
        crate::reasoning::values::OWL_IRREFLEXIVE_PROPERTY@.len() == 49,
{
    reveal_strlit("http://www.w3.org/2002/07/owl#IrreflexiveProperty");
    assert(crate::reasoning::values::OWL_IRREFLEXIVE_PROPERTY@ == "http://www.w3.org/2002/07/owl#IrreflexiveProperty"@);
}

/// The length of the IRI `http://www.w3.org/2002/07/owl#propertyDisjointWith`, and characters that tell it from its neighbours.
pub proof fn lemma_text_owl_property_disjoint_with()
    ensures
        crate::reasoning::values::OWL_PROPERTY_DISJOINT_WITH@.len() == 50,
        crate::reasoning::values::OWL_PROPERTY_DISJOINT_WITH@[21] == '2',
{
    reveal_strlit("http://www.w3.org/2002/07/owl#propertyDisjointWith");
    assert(crate::reasoning::values::OWL_PROPERTY_DISJOINT_WITH@ == "http://www.w3.org/2002/07/owl#propertyDisjointWith"@);
}

/// The length of the IRI `http://www.w3.org/2002/07/owl#onClass`.
pub proof fn lemma_text_owl_on_class()
    ensures
        crate::reasoning::values::OWL_ON_CLASS@.len() == 37,
{
    reveal_strlit("http://www.w3.org/2002/07/owl#onClass");
    assert(crate::reasoning::values::OWL_ON_CLASS@ == "http://www.w3.org/2002/07/owl#onClass"@);
}

/// The length of the IRI `http://www.w3.org/2002/07/owl#maxQualifiedCardinality`.
pub proof fn lemma_text_owl_max_qualified_cardinality()
    ensures
        crate::reasoning::values::OWL_MAX_QUALIFIED_CARDINALITY@.len() == 53,
{
    reveal_strlit("http://www.w3.org/2002/07/owl#maxQualifiedCardinality");
    assert(crate::reasoning::values::OWL_MAX_QUALIFIED_CARDINALITY@ == "http://www.w3.org/2002/07/owl#maxQualifiedCardinality"@);
}

} // verus!
