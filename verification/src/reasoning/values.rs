use vstd::prelude::*;

use crate::code_intel::manifests::opt_view;
use crate::text::{str_eq, to_owned};

verus! {

pub const RDF_TYPE: &'static str = "http://www.w3.org/1999/02/22-rdf-syntax-ns#type";
pub const RDFS_SUBCLASS_OF: &'static str = "http://www.w3.org/2000/01/rdf-schema#subClassOf";
pub const RDFS_SUBPROPERTY_OF: &'static str = "http://www.w3.org/2000/01/rdf-schema#subPropertyOf";
pub const RDFS_DOMAIN: &'static str = "http://www.w3.org/2000/01/rdf-schema#domain";
pub const RDFS_RANGE: &'static str = "http://www.w3.org/2000/01/rdf-schema#range";
pub const OWL_THING: &'static str = "http://www.w3.org/2002/07/owl#Thing";
pub const OWL_NOTHING: &'static str = "http://www.w3.org/2002/07/owl#Nothing";
pub const OWL_CLASS: &'static str = "http://www.w3.org/2002/07/owl#Class";
pub const OWL_OBJECT_PROPERTY: &'static str = "http://www.w3.org/2002/07/owl#ObjectProperty";
pub const OWL_DATATYPE_PROPERTY: &'static str = "http://www.w3.org/2002/07/owl#DatatypeProperty";
pub const OWL_TRANSITIVE_PROPERTY: &'static str = "http://www.w3.org/2002/07/owl#TransitiveProperty";
pub const OWL_SYMMETRIC_PROPERTY: &'static str = "http://www.w3.org/2002/07/owl#SymmetricProperty";
pub const OWL_FUNCTIONAL_PROPERTY: &'static str = "http://www.w3.org/2002/07/owl#FunctionalProperty";
pub const OWL_INVERSE_FUNCTIONAL_PROPERTY: &'static str =
    "http://www.w3.org/2002/07/owl#InverseFunctionalProperty";
pub const OWL_EQUIVALENT_CLASS: &'static str = "http://www.w3.org/2002/07/owl#equivalentClass";
pub const OWL_EQUIVALENT_PROPERTY: &'static str = "http://www.w3.org/2002/07/owl#equivalentProperty";
pub const OWL_INVERSE_OF: &'static str = "http://www.w3.org/2002/07/owl#inverseOf";
pub const OWL_DISJOINT_WITH: &'static str = "http://www.w3.org/2002/07/owl#disjointWith";
pub const OWL_COMPLEMENT_OF: &'static str = "http://www.w3.org/2002/07/owl#complementOf";
pub const OWL_ON_PROPERTY: &'static str = "http://www.w3.org/2002/07/owl#onProperty";
pub const OWL_SOME_VALUES_FROM: &'static str = "http://www.w3.org/2002/07/owl#someValuesFrom";
pub const OWL_ALL_VALUES_FROM: &'static str = "http://www.w3.org/2002/07/owl#allValuesFrom";
pub const OWL_HAS_VALUE: &'static str = "http://www.w3.org/2002/07/owl#hasValue";
pub const OWL_MAX_CARDINALITY: &'static str = "http://www.w3.org/2002/07/owl#maxCardinality";
pub const OWL_ASYMMETRIC_PROPERTY: &'static str = "http://www.w3.org/2002/07/owl#AsymmetricProperty";
pub const OWL_IRREFLEXIVE_PROPERTY: &'static str = "http://www.w3.org/2002/07/owl#IrreflexiveProperty";
pub const OWL_PROPERTY_DISJOINT_WITH: &'static str = "http://www.w3.org/2002/07/owl#propertyDisjointWith";
pub const OWL_ON_CLASS: &'static str = "http://www.w3.org/2002/07/owl#onClass";
pub const OWL_MAX_QUALIFIED_CARDINALITY: &'static str =
    "http://www.w3.org/2002/07/owl#maxQualifiedCardinality";
pub const XSD_INT: &'static str = "http://www.w3.org/2001/XMLSchema#int";
pub const XSD_STRING: &'static str = "http://www.w3.org/2001/XMLSchema#string";

/// An RDF term in the object position: a resource named by its IRI, or a literal with its
/// lexical form, optional datatype and optional language.
pub enum RdfValue {
    Resource(String),
    Literal { lexical: String, datatype: Option<String>, language: Option<String> },
}

/// An RDF term as texts.
pub enum ValueModel {
    Resource(Seq<char>),
    Literal(Seq<char>, Option<Seq<char>>, Option<Seq<char>>),
}

impl View for RdfValue {
    type V = ValueModel;

    open spec fn view(&self) -> ValueModel {
        match self {
            RdfValue::Resource(v) => ValueModel::Resource(v@),
            RdfValue::Literal { lexical, datatype, language } => ValueModel::Literal(
                lexical@,
                opt_view(*datatype),
                opt_view(*language),
            ),
        }
    }
}

/// The IRI of a resource term.
pub open spec fn resource_of(v: ValueModel) -> Option<Seq<char>> {
    match v {
        ValueModel::Resource(r) => Some(r),
        ValueModel::Literal(..) => None,
    }
}

/// The text of a term: a resource's IRI or a literal's lexical form.
pub open spec fn string_value_of(v: ValueModel) -> Seq<char> {
    match v {
        ValueModel::Resource(r) => r,
        ValueModel::Literal(l, _, _) => l,
    }
}

fn opt_str_eq(a: &Option<String>, b: &Option<String>) -> (r: bool)
    ensures
        r == (opt_view(*a) == opt_view(*b)),
{
    match (a, b) {
        (Some(x), Some(y)) => str_eq(x.as_str(), y.as_str()),
        (None, None) => true,
        _ => false,
    }
}

fn clone_opt(a: &Option<String>) -> (r: Option<String>)
    ensures
        opt_view(r) == opt_view(*a),
{
    match a {
        Some(x) => Some(to_owned(x.as_str())),
        None => None,
    }
}

impl RdfValue {
    /// A resource term.
    pub fn resource(value: &str) -> (r: Self)
        ensures
            r@ == ValueModel::Resource(value@),
    {
        RdfValue::Resource(to_owned(value))
    }

    /// A literal with a datatype and no language.
    pub fn literal(lexical: &str, datatype: &str) -> (r: Self)
        ensures
            r@ == ValueModel::Literal(lexical@, Some(datatype@), None),
    {
        RdfValue::Literal { lexical: to_owned(lexical), datatype: Some(to_owned(datatype)), language: None }
    }

    /// A literal with a language and no datatype.
    pub fn language_literal(lexical: &str, language: &str) -> (r: Self)
        ensures
            r@ == ValueModel::Literal(lexical@, None, Some(language@)),
    {
        RdfValue::Literal { lexical: to_owned(lexical), datatype: None, language: Some(to_owned(language)) }
    }

    /// A resource's IRI or a literal's lexical form.
    pub fn string_value(&self) -> (r: &str)
        ensures
            r@ == string_value_of(self@),
    {
        match self {
            RdfValue::Resource(v) => v.as_str(),
            RdfValue::Literal { lexical, .. } => lexical.as_str(),
        }
    }

    /// The IRI of a resource, or `None` for a literal.
    pub fn as_resource(&self) -> (r: Option<&str>)
        ensures
            match r {
                Some(s) => resource_of(self@) == Some(s@),
                None => resource_of(self@) is None,
            },
    {
        match self {
            RdfValue::Resource(v) => Some(v.as_str()),
            RdfValue::Literal { .. } => None,
        }
    }

    /// Whether the term is a literal.
    pub fn is_literal(&self) -> (r: bool)
        ensures
            r == (self@ is Literal),
    {
        match self {
            RdfValue::Resource(_) => false,
            RdfValue::Literal { .. } => true,
        }
    }

    /// Whether two terms are the same term.
    pub fn same_as(&self, other: &RdfValue) -> (r: bool)
        ensures
            r == (self@ == other@),
    {
        match (self, other) {
            (RdfValue::Resource(a), RdfValue::Resource(b)) => str_eq(a.as_str(), b.as_str()),
            (
                RdfValue::Literal { lexical: l1, datatype: d1, language: g1 },
                RdfValue::Literal { lexical: l2, datatype: d2, language: g2 },
            ) => str_eq(l1.as_str(), l2.as_str()) && opt_str_eq(d1, d2) && opt_str_eq(g1, g2),
            _ => false,
        }
    }

    /// A copy of the term.
    pub fn duplicate(&self) -> (r: RdfValue)
        ensures
            r@ == self@,
    {
        match self {
            RdfValue::Resource(v) => RdfValue::Resource(to_owned(v.as_str())),
            RdfValue::Literal { lexical, datatype, language } => RdfValue::Literal {
                lexical: to_owned(lexical.as_str()),
                datatype: clone_opt(datatype),
                language: clone_opt(language),
            },
        }
    }
}

/// A statement: subject, predicate, object term and optional context.
pub struct Triple {
    pub subject: String,
    pub predicate: String,
    pub object: RdfValue,
    pub context: Option<String>,
}

/// A statement as texts.
pub struct TripleModel {
    pub subject: Seq<char>,
    pub predicate: Seq<char>,
    pub object: ValueModel,
    pub context: Option<Seq<char>>,
}

impl View for Triple {
    type V = TripleModel;

    open spec fn view(&self) -> TripleModel {
        TripleModel {
            subject: self.subject@,
            predicate: self.predicate@,
            object: self.object@,
            context: opt_view(self.context),
        }
    }
}

impl Triple {
    /// A statement without context.
    pub fn new(subject: &str, predicate: &str, object: RdfValue) -> (r: Self)
        ensures
            r@ == (TripleModel { subject: subject@, predicate: predicate@, object: object@, context: None }),
    {
        Triple { subject: to_owned(subject), predicate: to_owned(predicate), object, context: None }
    }
}

} // verus!
