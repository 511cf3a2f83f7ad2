use vstd::prelude::*;

use crate::reasoning::schema::{ClassField, ClassModel, PropertyField, PropertyFlag, PropertyModel};
use crate::reasoning::values::{RdfValue, ValueModel, OWL_THING};
use crate::sorted::{insert_sorted_string, strictly_sorted};
use crate::pcj::clone_strings;
use crate::text::{to_owned, views};

verus! {

/// A class of the schema and what has been said of it.
pub struct OwlClass {
    pub uri: String,
    super_classes: Vec<String>,
    disjoint_classes: Vec<String>,
    complementary_classes: Vec<String>,
    svf_restrictions: Vec<String>,
    avf_restrictions: Vec<String>,
    qc_restrictions: Vec<String>,
    properties: Vec<String>,
    svf_classes: Vec<String>,
    avf_classes: Vec<String>,
    qc_classes: Vec<String>,
    values: Vec<RdfValue>,
    max_cardinality: Option<i32>,
    max_qualified_cardinality: Option<i32>,
}

/// The terms of a list.
pub open spec fn value_views(v: Seq<RdfValue>) -> Seq<ValueModel> {
    v.map_values(|x: RdfValue| x@)
}

impl OwlClass {
    /// The IRI as text.
    pub closed spec fn name(&self) -> Seq<char> {
        self.uri@
    }

    /// The list that keeps set `f`.
    pub closed spec fn field(&self, f: ClassField) -> Seq<String> {
        match f {
            ClassField::SuperClasses => self.super_classes@,
            ClassField::DisjointClasses => self.disjoint_classes@,
            ClassField::ComplementaryClasses => self.complementary_classes@,
            ClassField::SvfRestrictions => self.svf_restrictions@,
            ClassField::AvfRestrictions => self.avf_restrictions@,
            ClassField::QcRestrictions => self.qc_restrictions@,
            ClassField::Properties => self.properties@,
            ClassField::SvfClasses => self.svf_classes@,
            ClassField::AvfClasses => self.avf_classes@,
            ClassField::QcClasses => self.qc_classes@,
        }
    }

    /// Each list of names is kept in increasing order without repeats.
    pub closed spec fn wf(&self) -> bool {
        forall|f: ClassField| strictly_sorted(views(#[trigger] self.field(f)))
    }

    /// A class that nothing has been said of yet.
    pub fn new(uri: &str) -> (r: Self)
        ensures
            r.wf(),
            r.name() == uri@,
            r@ == crate::reasoning::schema::empty_class(),
    {
        let r = OwlClass {
            uri: to_owned(uri),
            super_classes: Vec::new(),
            disjoint_classes: Vec::new(),
            complementary_classes: Vec::new(),
            svf_restrictions: Vec::new(),
            avf_restrictions: Vec::new(),
            qc_restrictions: Vec::new(),
            properties: Vec::new(),
            svf_classes: Vec::new(),
            avf_classes: Vec::new(),
            qc_classes: Vec::new(),
            values: Vec::new(),
            max_cardinality: None,
            max_qualified_cardinality: None,
        };
        proof {
            assert forall|f: ClassField| strictly_sorted(views(#[trigger] r.field(f))) by {
                assert(views(r.field(f)).len() == 0);
            }
            assert forall|f: ClassField| #[trigger] r@.sets[f] == Set::<Seq<char>>::empty() by {
                assert(views(r.field(f)).to_set() =~= Set::<Seq<char>>::empty());
            }
            assert(r@.sets =~= crate::reasoning::schema::empty_class().sets);
            assert(r@.values =~= Set::<ValueModel>::empty());
        }
        r
    }

    /// Puts `x` into set `f`.
    pub fn add_name(&mut self, f: ClassField, x: String)
        requires
            old(self).wf(),
        ensures
            final(self).wf(),
            final(self).name() == old(self).name(),
            final(self)@ == (ClassModel { sets: old(self)@.sets.insert(f, old(self)@.sets[f].insert(x@)), ..old(self)@ }),
    {
        let ghost before = *self;
        assert(strictly_sorted(views(self.field(f))));
        match f {
            ClassField::SuperClasses => { insert_sorted_string(&mut self.super_classes, x); },
            ClassField::DisjointClasses => { insert_sorted_string(&mut self.disjoint_classes, x); },
            ClassField::ComplementaryClasses => { insert_sorted_string(&mut self.complementary_classes, x); },
            ClassField::SvfRestrictions => { insert_sorted_string(&mut self.svf_restrictions, x); },
            ClassField::AvfRestrictions => { insert_sorted_string(&mut self.avf_restrictions, x); },
            ClassField::QcRestrictions => { insert_sorted_string(&mut self.qc_restrictions, x); },
            ClassField::Properties => { insert_sorted_string(&mut self.properties, x); },
            ClassField::SvfClasses => { insert_sorted_string(&mut self.svf_classes, x); },
            ClassField::AvfClasses => { insert_sorted_string(&mut self.avf_classes, x); },
            ClassField::QcClasses => { insert_sorted_string(&mut self.qc_classes, x); },
        }
        proof {
            assert forall|g: ClassField| g != f implies #[trigger] self.field(g) == before.field(g) by {}
            assert forall|g: ClassField| strictly_sorted(views(#[trigger] self.field(g))) by {
                if g != f {
                    assert(self.field(g) == before.field(g));
                    assert(strictly_sorted(views(before.field(g))));
                }
            }
            assert(self@.sets =~= before@.sets.insert(f, before@.sets[f].insert(x@)));
        }
    }

    /// Puts a term into the `hasValue` set.
    pub fn add_value(&mut self, v: RdfValue)
        requires
            old(self).wf(),
        ensures
            final(self).wf(),
            final(self).name() == old(self).name(),
            final(self)@ == (ClassModel { values: old(self)@.values.insert(v@), ..old(self)@ }),
    {
        let ghost before = *self;
        let mut i: usize = 0;
        let mut found = false;
        while i < self.values.len()
            invariant
                i <= self.values@.len(),
                *self == before,
                found ==> value_views(self.values@).contains(v@),
            decreases self.values.len() - i,
        {
            if self.values[i].same_as(&v) {
                found = true;
                assert(value_views(self.values@)[i as int] == v@);
            }
            i = i + 1;
        }
        if found {
            assert(before@.values.insert(v@) =~= before@.values);
        } else {
            let ghost vm = v@;
            self.values.push(v);
            proof {
                assert(value_views(self.values@) =~= value_views(before.values@).push(vm));
                assert(self.field(ClassField::SuperClasses) == before.field(ClassField::SuperClasses));
                assert forall|g: ClassField| #[trigger] self.field(g) == before.field(g) by {}
                assert(self@.sets =~= before@.sets);
                value_views(before.values@).lemma_push_to_set_commute(vm);
            }
        }
    }

    /// Sets one of the two maximum cardinalities.
    pub fn set_max(&mut self, qualified: bool, v: i32)
        requires
            old(self).wf(),
        ensures
            final(self).wf(),
            final(self).name() == old(self).name(),
            final(self)@ == (if qualified {
                ClassModel { max_qualified_cardinality: Some(v), ..old(self)@ }
            } else {
                ClassModel { max_cardinality: Some(v), ..old(self)@ }
            }),
    {
        let ghost before = *self;
        if qualified {
            self.max_qualified_cardinality = Some(v);
        } else {
            self.max_cardinality = Some(v);
        }
        proof {
            assert forall|g: ClassField| #[trigger] self.field(g) == before.field(g) by {}
            assert(self@.sets =~= before@.sets);
        }
    }

    /// The kept maximum cardinality, plain or qualified.
    pub fn max_of(&self, qualified: bool) -> (r: Option<i32>)
        ensures
            r == (if qualified { self@.max_qualified_cardinality } else { self@.max_cardinality }),
    {
        if qualified {
            self.max_qualified_cardinality
        } else {
            self.max_cardinality
        }
    }

    /// The names in set `f`, in increasing order.
    pub fn names(&self, f: ClassField) -> (r: Vec<String>)
        requires
            self.wf(),
        ensures
            strictly_sorted(views(r@)),
            views(r@).to_set() == self@.sets[f],
    {
        assert(strictly_sorted(views(self.field(f))));
        let v = match f {
            ClassField::SuperClasses => &self.super_classes,
            ClassField::DisjointClasses => &self.disjoint_classes,
            ClassField::ComplementaryClasses => &self.complementary_classes,
            ClassField::SvfRestrictions => &self.svf_restrictions,
            ClassField::AvfRestrictions => &self.avf_restrictions,
            ClassField::QcRestrictions => &self.qc_restrictions,
            ClassField::Properties => &self.properties,
            ClassField::SvfClasses => &self.svf_classes,
            ClassField::AvfClasses => &self.avf_classes,
            ClassField::QcClasses => &self.qc_classes,
        };
        assert(v@ == self.field(f));
        clone_strings(v)
    }

    /// Whether set `f` holds any name.
    pub fn has_names(&self, f: ClassField) -> (r: bool)
        ensures
            r == (self@.sets[f] != Set::<Seq<char>>::empty()),
    {
        let n = match f {
            ClassField::SuperClasses => self.super_classes.len(),
            ClassField::DisjointClasses => self.disjoint_classes.len(),
            ClassField::ComplementaryClasses => self.complementary_classes.len(),
            ClassField::SvfRestrictions => self.svf_restrictions.len(),
            ClassField::AvfRestrictions => self.avf_restrictions.len(),
            ClassField::QcRestrictions => self.qc_restrictions.len(),
            ClassField::Properties => self.properties.len(),
            ClassField::SvfClasses => self.svf_classes.len(),
            ClassField::AvfClasses => self.avf_classes.len(),
            ClassField::QcClasses => self.qc_classes.len(),
        };
        assert(n == self.field(f).len());
        proof {
            let t = views(self.field(f));
            if n > 0 {
                assert(t.to_set().contains(t[0]));
            } else {
                assert(t.to_set() =~= Set::<Seq<char>>::empty());
            }
        }
        n > 0
    }

    /// The superclasses, with the class itself and `owl:Thing`.
    pub fn super_classes(&self) -> (r: Vec<String>)
        requires
            self.wf(),
        ensures
            strictly_sorted(views(r@)),
            views(r@).to_set() == self@.sets[ClassField::SuperClasses].insert(self.name()).insert(OWL_THING@),
    {
        let mut out = self.names(ClassField::SuperClasses);
        insert_sorted_string(&mut out, to_owned(self.uri.as_str()));
        insert_sorted_string(&mut out, to_owned(OWL_THING));
        out
    }

    /// The classes declared disjoint with this one.
    pub fn disjoint_classes(&self) -> (r: Vec<String>)
        requires
            self.wf(),
        ensures
            views(r@).to_set() == self@.sets[ClassField::DisjointClasses],
    {
        self.names(ClassField::DisjointClasses)
    }

    /// The classes declared complementary to this one.
    pub fn complementary_classes(&self) -> (r: Vec<String>)
        requires
            self.wf(),
        ensures
            views(r@).to_set() == self@.sets[ClassField::ComplementaryClasses],
    {
        self.names(ClassField::ComplementaryClasses)
    }

    /// The properties this restriction is on.
    pub fn on_property(&self) -> (r: Vec<String>)
        requires
            self.wf(),
        ensures
            views(r@).to_set() == self@.sets[ClassField::Properties],
    {
        self.names(ClassField::Properties)
    }

    /// The classes of this restriction's `someValuesFrom`.
    pub fn some_values_from(&self) -> (r: Vec<String>)
        requires
            self.wf(),
        ensures
            views(r@).to_set() == self@.sets[ClassField::SvfClasses],
    {
        self.names(ClassField::SvfClasses)
    }

    /// The classes of this restriction's `allValuesFrom`.
    pub fn all_values_from(&self) -> (r: Vec<String>)
        requires
            self.wf(),
        ensures
            views(r@).to_set() == self@.sets[ClassField::AvfClasses],
    {
        self.names(ClassField::AvfClasses)
    }

    /// The classes of this restriction's `onClass`.
    pub fn on_class(&self) -> (r: Vec<String>)
        requires
            self.wf(),
        ensures
            views(r@).to_set() == self@.sets[ClassField::QcClasses],
    {
        self.names(ClassField::QcClasses)
    }

    /// The terms of this restriction's `hasValue`.
    pub fn has_value(&self) -> (r: Vec<RdfValue>)
        ensures
            value_views(r@).to_set() == self@.values,
    {
        let mut out: Vec<RdfValue> = Vec::new();
        let mut i: usize = 0;
        while i < self.values.len()
            invariant
                i <= self.values@.len(),
                value_views(out@) == value_views(self.values@).take(i as int),
            decreases self.values.len() - i,
        {
            let ghost before = out@;
            let x = self.values[i].duplicate();
            out.push(x);
            assert(value_views(out@) =~= value_views(before).push(self.values@[i as int]@));
            assert(value_views(out@) =~= value_views(self.values@).take(i as int + 1));
            i = i + 1;
        }
        assert(value_views(self.values@).take(i as int) =~= value_views(self.values@));
        out
    }

    /// The kept maximum cardinality.
    pub fn max_cardinality(&self) -> (r: Option<i32>)
        ensures
            r == self@.max_cardinality,
    {
        self.max_cardinality
    }

    /// The kept maximum qualified cardinality.
    pub fn max_qualified_cardinality(&self) -> (r: Option<i32>)
        ensures
            r == self@.max_qualified_cardinality,
    {
        self.max_qualified_cardinality
    }
}

impl View for OwlClass {
    type V = ClassModel;

    closed spec fn view(&self) -> ClassModel {
        ClassModel {
            sets: Map::new(|f: ClassField| true, |f: ClassField| views(self.field(f)).to_set()),
            values: value_views(self.values@).to_set(),
            max_cardinality: self.max_cardinality,
            max_qualified_cardinality: self.max_qualified_cardinality,
        }
    }
}

/// A property of the schema and what has been said of it.
pub struct OwlProperty {
    pub uri: String,
    transitive: bool,
    symmetric: bool,
    asymmetric: bool,
    functional: bool,
    inverse_functional: bool,
    irreflexive: bool,
    super_properties: Vec<String>,
    disjoint_properties: Vec<String>,
    inverse_properties: Vec<String>,
    domain: Vec<String>,
    range: Vec<String>,
    restrictions: Vec<String>,
}

impl OwlProperty {
    /// The IRI as text.
    pub closed spec fn name(&self) -> Seq<char> {
        self.uri@
    }

    /// The list that keeps set `f`.
    pub closed spec fn field(&self, f: PropertyField) -> Seq<String> {
        match f {
            PropertyField::SuperProperties => self.super_properties@,
            PropertyField::DisjointProperties => self.disjoint_properties@,
            PropertyField::InverseProperties => self.inverse_properties@,
            PropertyField::Domain => self.domain@,
            PropertyField::Range => self.range@,
            PropertyField::Restrictions => self.restrictions@,
        }
    }

    /// Whether the property was declared of kind `f`.
    pub closed spec fn flag(&self, f: PropertyFlag) -> bool {
        match f {
            PropertyFlag::Transitive => self.transitive,
            PropertyFlag::Symmetric => self.symmetric,
            PropertyFlag::Asymmetric => self.asymmetric,
            PropertyFlag::Functional => self.functional,
            PropertyFlag::InverseFunctional => self.inverse_functional,
            PropertyFlag::Irreflexive => self.irreflexive,
        }
    }

    /// Each list of names is kept in increasing order without repeats.
    pub closed spec fn wf(&self) -> bool {
        forall|f: PropertyField| strictly_sorted(views(#[trigger] self.field(f)))
    }

    /// A property that nothing has been said of yet.
    pub fn new(uri: &str) -> (r: Self)
        ensures
            r.wf(),
            r.name() == uri@,
            r@ == crate::reasoning::schema::empty_property(),
    {
        let r = OwlProperty {
            uri: to_owned(uri),
            transitive: false,
            symmetric: false,
            asymmetric: false,
            functional: false,
            inverse_functional: false,
            irreflexive: false,
            super_properties: Vec::new(),
            disjoint_properties: Vec::new(),
            inverse_properties: Vec::new(),
            domain: Vec::new(),
            range: Vec::new(),
            restrictions: Vec::new(),
        };
        proof {
            assert forall|f: PropertyField| strictly_sorted(views(#[trigger] r.field(f))) by {
                assert(views(r.field(f)).len() == 0);
            }
            assert forall|f: PropertyField| #[trigger] r@.sets[f] == Set::<Seq<char>>::empty() by {
                assert(views(r.field(f)).to_set() =~= Set::<Seq<char>>::empty());
            }
            assert(r@.sets =~= crate::reasoning::schema::empty_property().sets);
            assert(r@.flags =~= Set::<PropertyFlag>::empty());
        }
        r
    }

    /// Puts `x` into set `f`.
    pub fn add_name(&mut self, f: PropertyField, x: String)
        requires
            old(self).wf(),
        ensures
            final(self).wf(),
            final(self).name() == old(self).name(),
            final(self)@ == (PropertyModel { sets: old(self)@.sets.insert(f, old(self)@.sets[f].insert(x@)), ..old(self)@ }),
    {
        let ghost before = *self;
        assert(strictly_sorted(views(self.field(f))));
        match f {
            PropertyField::SuperProperties => { insert_sorted_string(&mut self.super_properties, x); },
            PropertyField::DisjointProperties => { insert_sorted_string(&mut self.disjoint_properties, x); },
            PropertyField::InverseProperties => { insert_sorted_string(&mut self.inverse_properties, x); },
            PropertyField::Domain => { insert_sorted_string(&mut self.domain, x); },
            PropertyField::Range => { insert_sorted_string(&mut self.range, x); },
            PropertyField::Restrictions => { insert_sorted_string(&mut self.restrictions, x); },
        }
        proof {
            assert forall|g: PropertyField| g != f implies #[trigger] self.field(g) == before.field(g) by {}
            assert forall|g: PropertyField| strictly_sorted(views(#[trigger] self.field(g))) by {
                if g != f {
                    assert(self.field(g) == before.field(g));
                    assert(strictly_sorted(views(before.field(g))));
                }
            }
            assert(self@.sets =~= before@.sets.insert(f, before@.sets[f].insert(x@)));
            assert forall|g: PropertyFlag| #[trigger] self.flag(g) == before.flag(g) by {}
            assert(self@.flags =~= before@.flags);
        }
    }

    /// Declares the property of kind `f`.
    pub fn set_flag(&mut self, f: PropertyFlag)
        requires
            old(self).wf(),
        ensures
            final(self).wf(),
            final(self).name() == old(self).name(),
            final(self)@ == (PropertyModel { flags: old(self)@.flags.insert(f), ..old(self)@ }),
    {
        let ghost before = *self;
        match f {
            PropertyFlag::Transitive => self.transitive = true,
            PropertyFlag::Symmetric => self.symmetric = true,
            PropertyFlag::Asymmetric => self.asymmetric = true,
            PropertyFlag::Functional => self.functional = true,
            PropertyFlag::InverseFunctional => self.inverse_functional = true,
            PropertyFlag::Irreflexive => self.irreflexive = true,
        }
        proof {
            assert forall|g: PropertyField| #[trigger] self.field(g) == before.field(g) by {}
            assert(self@.sets =~= before@.sets);
            assert forall|g: PropertyFlag| g != f implies #[trigger] self.flag(g) == before.flag(g) by {}
            assert(self@.flags =~= before@.flags.insert(f));
        }
    }

    /// Whether the property was declared of kind `f`.
    pub fn has_flag(&self, f: PropertyFlag) -> (r: bool)
        ensures
            r == self@.flags.contains(f),
    {
        match f {
            PropertyFlag::Transitive => self.transitive,
            PropertyFlag::Symmetric => self.symmetric,
            PropertyFlag::Asymmetric => self.asymmetric,
            PropertyFlag::Functional => self.functional,
            PropertyFlag::InverseFunctional => self.inverse_functional,
            PropertyFlag::Irreflexive => self.irreflexive,
        }
    }

    /// The names in set `f`, in increasing order.
    pub fn names(&self, f: PropertyField) -> (r: Vec<String>)
        requires
            self.wf(),
        ensures
            strictly_sorted(views(r@)),
            views(r@).to_set() == self@.sets[f],
    {
        assert(strictly_sorted(views(self.field(f))));
        let v = match f {
            PropertyField::SuperProperties => &self.super_properties,
            PropertyField::DisjointProperties => &self.disjoint_properties,
            PropertyField::InverseProperties => &self.inverse_properties,
            PropertyField::Domain => &self.domain,
            PropertyField::Range => &self.range,
            PropertyField::Restrictions => &self.restrictions,
        };
        assert(v@ == self.field(f));
        clone_strings(v)
    }

    /// Whether the property is transitive.
    pub fn is_transitive(&self) -> (r: bool)
        ensures
            r == self@.flags.contains(PropertyFlag::Transitive),
    {
        self.has_flag(PropertyFlag::Transitive)
    }

    /// Whether the property is symmetric.
    pub fn is_symmetric(&self) -> (r: bool)
        ensures
            r == self@.flags.contains(PropertyFlag::Symmetric),
    {
        self.has_flag(PropertyFlag::Symmetric)
    }

    /// Whether the property is asymmetric.
    pub fn is_asymmetric(&self) -> (r: bool)
        ensures
            r == self@.flags.contains(PropertyFlag::Asymmetric),
    {
        self.has_flag(PropertyFlag::Asymmetric)
    }

    /// Whether the property is functional.
    pub fn is_functional(&self) -> (r: bool)
        ensures
            r == self@.flags.contains(PropertyFlag::Functional),
    {
        self.has_flag(PropertyFlag::Functional)
    }

    /// Whether the property is inverse functional.
    pub fn is_inverse_functional(&self) -> (r: bool)
        ensures
            r == self@.flags.contains(PropertyFlag::InverseFunctional),
    {
        self.has_flag(PropertyFlag::InverseFunctional)
    }

    /// Whether the property is irreflexive.
    pub fn is_irreflexive(&self) -> (r: bool)
        ensures
            r == self@.flags.contains(PropertyFlag::Irreflexive),
    {
        self.has_flag(PropertyFlag::Irreflexive)
    }

    /// The superproperties, with the property itself.
    pub fn super_properties(&self) -> (r: Vec<String>)
        requires
            self.wf(),
        ensures
            strictly_sorted(views(r@)),
            views(r@).to_set() == self@.sets[PropertyField::SuperProperties].insert(self.name()),
    {
        let mut out = self.names(PropertyField::SuperProperties);
        insert_sorted_string(&mut out, to_owned(self.uri.as_str()));
        out
    }

    /// The properties declared disjoint with this one.
    pub fn disjoint_properties(&self) -> (r: Vec<String>)
        requires
            self.wf(),
        ensures
            views(r@).to_set() == self@.sets[PropertyField::DisjointProperties],
    {
        self.names(PropertyField::DisjointProperties)
    }

    /// The properties declared inverse of this one.
    pub fn inverse_properties(&self) -> (r: Vec<String>)
        requires
            self.wf(),
        ensures
            views(r@).to_set() == self@.sets[PropertyField::InverseProperties],
    {
        self.names(PropertyField::InverseProperties)
    }

    /// The property's domain classes.
    pub fn domain(&self) -> (r: Vec<String>)
        requires
            self.wf(),
        ensures
            views(r@).to_set() == self@.sets[PropertyField::Domain],
    {
        self.names(PropertyField::Domain)
    }

    /// The property's range classes.
    pub fn range(&self) -> (r: Vec<String>)
        requires
            self.wf(),
        ensures
            views(r@).to_set() == self@.sets[PropertyField::Range],
    {
        self.names(PropertyField::Range)
    }

    /// The restrictions on this property.
    pub fn restrictions(&self) -> (r: Vec<String>)
        requires
            self.wf(),
        ensures
            views(r@).to_set() == self@.sets[PropertyField::Restrictions],
    {
        self.names(PropertyField::Restrictions)
    }
}

impl View for OwlProperty {
    type V = PropertyModel;

    closed spec fn view(&self) -> PropertyModel {
        PropertyModel {
            sets: Map::new(|f: PropertyField| true, |f: PropertyField| views(self.field(f)).to_set()),
            flags: Set::new(|f: PropertyFlag| self.flag(f)),
        }
    }
}

} // verus!
