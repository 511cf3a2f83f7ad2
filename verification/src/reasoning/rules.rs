use vstd::prelude::*;

verus! {

/// The rules of the forward-chaining reasoner, and `NoRule` for a fact that no rule derived.
#[derive(Clone, Copy, PartialEq, Eq, Structural)]
pub enum OwlRule {
    ScmCls,
    ScmSco,
    ScmEqc1,
    ScmEqc2,
    ScmOp,
    ScmDp,
    ScmSpo,
    ScmEqp1,
    ScmEqp2,
    ScmDom1,
    ScmDom2,
    ScmRng1,
    ScmRng2,
    ScmHv,
    ScmSvf1,
    ScmSvf2,
    ScmAvf1,
    ScmAvf2,
    ClsNothing2,
    PrpIrp,
    PrpDom,
    PrpRng,
    CaxSco,
    PrpInv,
    PrpSpo1,
    PrpSymp,
    ClsSvf2,
    ClsHv2,
    ClsHv1,
    PrpAsyp,
    PrpPdw,
    CaxDw,
    ClsCom,
    ClsMaxc1,
    ClsMaxqc2,
    PrpTrp,
    ClsSvf1,
    ClsAvf,
    NoRule,
}

/// What a rule says, in words; rules of the schema share one description.
pub open spec fn rule_description(r: OwlRule) -> Seq<char> {
    match r {
        OwlRule::ClsNothing2 => "No resource can have type owl:Nothing"@,
        OwlRule::PrpIrp => "owl:IrreflexiveProperty -- Resource can't be related to itself via irreflexive property"@,
        OwlRule::PrpDom => "rdfs:domain -- Predicate's domain implies subject's type"@,
        OwlRule::PrpRng => "rdfs:range -- Predicate's range implies object's type"@,
        OwlRule::CaxSco => "owl:subClassOf -- Infer supertypes"@,
        OwlRule::PrpInv => "owl:inverseOf -- Relation via one property implies reverse relation via the inverse property"@,
        OwlRule::PrpSpo1 => "rdfs:subPropertyOf -- Relation via subproperty implies relation via superproperty"@,
        OwlRule::PrpSymp => "owl:SymmetricProperty -- Relation via this property is always bidirectional"@,
        OwlRule::ClsSvf2 => "owl:someValuesFrom(owl:Thing) -- Infer membership in the set of resources related via this property to anything"@,
        OwlRule::ClsHv2 => "owl:hasValue -- Infer membership in the set of all resources having a specific property+value"@,
        OwlRule::ClsHv1 => "owl:hasValue -- Infer a specific property+value from the subject's membership in the set of resources with that property+value"@,
        OwlRule::PrpAsyp => "owl:AsymmetricProperty -- Asymmetric property can't be bidirectional"@,
        OwlRule::PrpPdw => "owl:propertyDisjointWith -- Two disjoint properties can't relate the same subject and object"@,
        OwlRule::CaxDw => "owl:disjointWith -- Resource can't belong to two disjoint classes"@,
        OwlRule::ClsCom => "owl:complementOf -- Resource can't belong to both a class and its complement"@,
        OwlRule::ClsMaxc1 => "owl:maxCardinality(0) -- Max cardinality 0 for this property implies subject can't have any relation via the property"@,
        OwlRule::ClsMaxqc2 => "owl:maxQualifiedCardinality(0/owl:Thing) -- Max cardinality 0 (with respect to owl:Thing) implies subject can't have any relation via the property"@,
        OwlRule::PrpTrp => "owl:TransitiveProperty -- Infer transitive relation"@,
        OwlRule::ClsSvf1 => "owl:someValuesFrom -- Infer membership in the set of resources related via this property to an instance of the appropriate type"@,
        OwlRule::ClsAvf => "owl:allValuesFrom -- Infer the object's type from the subject's membership in the set of resources whose values for this property all belong to one type"@,
        OwlRule::NoRule => "No rule given"@,
        _ => "schema rule"@,
    }
}

impl OwlRule {
    /// What the rule says, in words.
    pub fn description(self) -> (r: &'static str)
        ensures
            r@ == rule_description(self),
    {
        match self {
            OwlRule::ClsNothing2 => "No resource can have type owl:Nothing",
            OwlRule::PrpIrp => "owl:IrreflexiveProperty -- Resource can't be related to itself via irreflexive property",
            OwlRule::PrpDom => "rdfs:domain -- Predicate's domain implies subject's type",
            OwlRule::PrpRng => "rdfs:range -- Predicate's range implies object's type",
            OwlRule::CaxSco => "owl:subClassOf -- Infer supertypes",
            OwlRule::PrpInv => "owl:inverseOf -- Relation via one property implies reverse relation via the inverse property",
            OwlRule::PrpSpo1 => "rdfs:subPropertyOf -- Relation via subproperty implies relation via superproperty",
            OwlRule::PrpSymp => "owl:SymmetricProperty -- Relation via this property is always bidirectional",
            OwlRule::ClsSvf2 => "owl:someValuesFrom(owl:Thing) -- Infer membership in the set of resources related via this property to anything",
            OwlRule::ClsHv2 => "owl:hasValue -- Infer membership in the set of all resources having a specific property+value",
            OwlRule::ClsHv1 => "owl:hasValue -- Infer a specific property+value from the subject's membership in the set of resources with that property+value",
            OwlRule::PrpAsyp => "owl:AsymmetricProperty -- Asymmetric property can't be bidirectional",
            OwlRule::PrpPdw => "owl:propertyDisjointWith -- Two disjoint properties can't relate the same subject and object",
            OwlRule::CaxDw => "owl:disjointWith -- Resource can't belong to two disjoint classes",
            OwlRule::ClsCom => "owl:complementOf -- Resource can't belong to both a class and its complement",
            OwlRule::ClsMaxc1 => "owl:maxCardinality(0) -- Max cardinality 0 for this property implies subject can't have any relation via the property",
            OwlRule::ClsMaxqc2 => "owl:maxQualifiedCardinality(0/owl:Thing) -- Max cardinality 0 (with respect to owl:Thing) implies subject can't have any relation via the property",
            OwlRule::PrpTrp => "owl:TransitiveProperty -- Infer transitive relation",
            OwlRule::ClsSvf1 => "owl:someValuesFrom -- Infer membership in the set of resources related via this property to an instance of the appropriate type",
            OwlRule::ClsAvf => "owl:allValuesFrom -- Infer the object's type from the subject's membership in the set of resources whose values for this property all belong to one type",
            OwlRule::NoRule => "No rule given",
            _ => "schema rule",
        }
    }
}

} // verus!
