use vstd::prelude::*;

use crate::reasoning::owl::{OwlClass, OwlProperty};
use crate::reasoning::keyed::{keyed_map, lemma_keyed_at, lemma_keyed_insert, lemma_keyed_update};
use crate::reasoning::values::{
    RDF_TYPE, RDFS_SUBCLASS_OF, RDFS_SUBPROPERTY_OF, RDFS_DOMAIN, RDFS_RANGE, OWL_THING, OWL_TRANSITIVE_PROPERTY, OWL_SYMMETRIC_PROPERTY, OWL_FUNCTIONAL_PROPERTY, OWL_INVERSE_FUNCTIONAL_PROPERTY, OWL_EQUIVALENT_CLASS, OWL_EQUIVALENT_PROPERTY, OWL_INVERSE_OF, OWL_DISJOINT_WITH, OWL_COMPLEMENT_OF, OWL_ON_PROPERTY, OWL_SOME_VALUES_FROM, OWL_ALL_VALUES_FROM, OWL_HAS_VALUE, OWL_MAX_CARDINALITY, OWL_ASYMMETRIC_PROPERTY, OWL_IRREFLEXIVE_PROPERTY, OWL_PROPERTY_DISJOINT_WITH, OWL_ON_CLASS, OWL_MAX_QUALIFIED_CARDINALITY, RdfValue, ValueModel, Triple, TripleModel, resource_of, string_value_of,
};
use crate::sorted::{insert_sorted_string, insertion_point, sorted_position, strictly_sorted};
use crate::text::{parse_i32, parse_in_range, parse_signed_spec, str_eq, to_owned, views};

verus! {

/// The sets of names that a class keeps.
#[derive(Clone, Copy)]
pub enum ClassField {
    SuperClasses,
    DisjointClasses,
    ComplementaryClasses,
    SvfRestrictions,
    AvfRestrictions,
    QcRestrictions,
    Properties,
    SvfClasses,
    AvfClasses,
    QcClasses,
}

/// The sets of names that a property keeps.
#[derive(Clone, Copy)]
pub enum PropertyField {
    SuperProperties,
    DisjointProperties,
    InverseProperties,
    Domain,
    Range,
    Restrictions,
}

/// The kinds of property that a type statement can declare.
#[derive(Clone, Copy)]
pub enum PropertyFlag {
    Transitive,
    Symmetric,
    Asymmetric,
    Functional,
    InverseFunctional,
    Irreflexive,
}

/// What the schema knows of a class: its sets of names, its `hasValue` terms and its two
/// maximum cardinalities.
pub struct ClassModel {
    pub sets: Map<ClassField, Set<Seq<char>>>,
    pub values: Set<ValueModel>,
    pub max_cardinality: Option<i32>,
    pub max_qualified_cardinality: Option<i32>,
}

/// What the schema knows of a property: its sets of names and the kinds it was declared.
pub struct PropertyModel {
    pub sets: Map<PropertyField, Set<Seq<char>>>,
    pub flags: Set<PropertyFlag>,
}

/// The schema: the classes and the properties it knows, by IRI.
pub struct SchemaModel {
    pub classes: Map<Seq<char>, ClassModel>,
    pub properties: Map<Seq<char>, PropertyModel>,
}

/// A class that nothing has been said of yet.
pub open spec fn empty_class() -> ClassModel {
    ClassModel {
        sets: Map::new(|f: ClassField| true, |f: ClassField| Set::empty()),
        values: Set::empty(),
        max_cardinality: None,
        max_qualified_cardinality: None,
    }
}

/// A property that nothing has been said of yet.
pub open spec fn empty_property() -> PropertyModel {
    PropertyModel { sets: Map::new(|f: PropertyField| true, |f: PropertyField| Set::empty()), flags: Set::empty() }
}

/// What the schema knows of a class; a class it has not met is empty.
pub open spec fn class_at(m: Map<Seq<char>, ClassModel>, k: Seq<char>) -> ClassModel {
    if m.dom().contains(k) {
        m[k]
    } else {
        empty_class()
    }
}

/// What the schema knows of a property; a property it has not met is empty.
pub open spec fn property_at(m: Map<Seq<char>, PropertyModel>, k: Seq<char>) -> PropertyModel {
    if m.dom().contains(k) {
        m[k]
    } else {
        empty_property()
    }
}

/// The classes with `k` among them.
pub open spec fn ensure_class(m: Map<Seq<char>, ClassModel>, k: Seq<char>) -> Map<Seq<char>, ClassModel> {
    m.insert(k, class_at(m, k))
}

/// The properties with `k` among them.
pub open spec fn ensure_property(m: Map<Seq<char>, PropertyModel>, k: Seq<char>) -> Map<Seq<char>, PropertyModel> {
    m.insert(k, property_at(m, k))
}

/// The classes after `x` joins set `f` of class `k`.
pub open spec fn class_add(m: Map<Seq<char>, ClassModel>, k: Seq<char>, f: ClassField, x: Seq<char>) -> Map<Seq<char>, ClassModel> {
    let c = class_at(m, k);
    m.insert(k, ClassModel { sets: c.sets.insert(f, c.sets[f].insert(x)), ..c })
}

/// The properties after `x` joins set `f` of property `k`.
pub open spec fn property_add(m: Map<Seq<char>, PropertyModel>, k: Seq<char>, f: PropertyField, x: Seq<char>) -> Map<Seq<char>, PropertyModel> {
    let p = property_at(m, k);
    m.insert(k, PropertyModel { sets: p.sets.insert(f, p.sets[f].insert(x)), ..p })
}

/// The property kind that a type IRI declares, if any.
pub open spec fn flag_of(class: Seq<char>) -> Option<PropertyFlag> {
    if class == OWL_TRANSITIVE_PROPERTY@ {
        Some(PropertyFlag::Transitive)
    } else if class == OWL_SYMMETRIC_PROPERTY@ {
        Some(PropertyFlag::Symmetric)
    } else if class == OWL_ASYMMETRIC_PROPERTY@ {
        Some(PropertyFlag::Asymmetric)
    } else if class == OWL_FUNCTIONAL_PROPERTY@ {
        Some(PropertyFlag::Functional)
    } else if class == OWL_INVERSE_FUNCTIONAL_PROPERTY@ {
        Some(PropertyFlag::InverseFunctional)
    } else if class == OWL_IRREFLEXIVE_PROPERTY@ {
        Some(PropertyFlag::Irreflexive)
    } else {
        None
    }
}

/// The properties after a type statement on property `k`: `k` is known, with the kind the
/// type declares.
pub open spec fn property_typed(m: Map<Seq<char>, PropertyModel>, k: Seq<char>, class: Seq<char>) -> Map<Seq<char>, PropertyModel> {
    let p = property_at(m, k);
    match flag_of(class) {
        Some(fl) => m.insert(k, PropertyModel { flags: p.flags.insert(fl), ..p }),
        None => ensure_property(m, k),
    }
}

/// A predicate that only schema statements use.
pub open spec fn is_schema_predicate(p: Seq<char>) -> bool {
    p == RDFS_SUBCLASS_OF@ || p == RDFS_SUBPROPERTY_OF@ || p == RDFS_DOMAIN@ || p == RDFS_RANGE@
        || p == OWL_EQUIVALENT_CLASS@ || p == OWL_EQUIVALENT_PROPERTY@ || p == OWL_INVERSE_OF@
        || p == OWL_DISJOINT_WITH@ || p == OWL_COMPLEMENT_OF@ || p == OWL_ON_PROPERTY@
        || p == OWL_SOME_VALUES_FROM@ || p == OWL_ALL_VALUES_FROM@ || p == OWL_HAS_VALUE@
        || p == OWL_MAX_CARDINALITY@ || p == OWL_MAX_QUALIFIED_CARDINALITY@
        || p == OWL_PROPERTY_DISJOINT_WITH@ || p == OWL_ON_CLASS@
}

/// A type that declares a kind of property.
pub open spec fn is_schema_type(o: Seq<char>) -> bool {
    o == OWL_TRANSITIVE_PROPERTY@ || o == OWL_IRREFLEXIVE_PROPERTY@ || o == OWL_SYMMETRIC_PROPERTY@
        || o == OWL_ASYMMETRIC_PROPERTY@ || o == OWL_FUNCTIONAL_PROPERTY@
        || o == OWL_INVERSE_FUNCTIONAL_PROPERTY@
}

/// A statement that belongs to the schema: its predicate is a schema predicate, or it types
/// its subject with a kind of property.
pub open spec fn is_schema_triple_spec(t: TripleModel) -> bool {
    is_schema_predicate(t.predicate) || (t.predicate == RDF_TYPE@ && match resource_of(t.object) {
        Some(o) => is_schema_type(o),
        None => false,
    })
}

/// The value of a decimal text as `str::parse::<i32>` reads it.
pub open spec fn parse_i32_spec(s: Seq<char>) -> Option<i32> {
    match parse_in_range(parse_signed_spec(s), i32::MIN as int, i32::MAX as int) {
        Some(v) => Some(v as i32),
        None => None,
    }
}

/// Whether a new maximum replaces the one kept: when none is kept, or when it is not
/// negative and below the kept one.
pub open spec fn lowers(old: Option<i32>, v: i32) -> bool {
    match old {
        None => true,
        Some(o) => 0 <= v && v < o,
    }
}

/// Two names related both ways through set `f` of classes.
pub open spec fn class_pair(m: Map<Seq<char>, ClassModel>, s: Seq<char>, o: Seq<char>, f: ClassField) -> Map<Seq<char>, ClassModel> {
    class_add(class_add(m, s, f, o), o, f, s)
}

/// Two names related both ways through set `f` of properties.
pub open spec fn property_pair(m: Map<Seq<char>, PropertyModel>, s: Seq<char>, o: Seq<char>, f: PropertyField) -> Map<Seq<char>, PropertyModel> {
    property_add(property_add(m, s, f, o), o, f, s)
}

/// The schema after a statement with a resource object `o`, by its predicate.
pub open spec fn resource_step(sc: SchemaModel, s: Seq<char>, p: Seq<char>, o: Seq<char>) -> SchemaModel {
    let cs = sc.classes;
    let ps = sc.properties;
    if p == RDF_TYPE@ {
        SchemaModel { properties: property_typed(ps, s, o), ..sc }
    } else if p == RDFS_DOMAIN@ {
        if o == OWL_THING@ {
            sc
        } else {
            SchemaModel { classes: ensure_class(cs, o), properties: property_add(ps, s, PropertyField::Domain, o) }
        }
    } else if p == RDFS_RANGE@ {
        if o == OWL_THING@ {
            sc
        } else {
            SchemaModel { classes: ensure_class(cs, o), properties: property_add(ps, s, PropertyField::Range, o) }
        }
    } else if p == RDFS_SUBCLASS_OF@ {
        if o == OWL_THING@ {
            sc
        } else {
            SchemaModel { classes: class_add(ensure_class(cs, o), s, ClassField::SuperClasses, o), ..sc }
        }
    } else if p == RDFS_SUBPROPERTY_OF@ {
        SchemaModel { properties: property_add(ensure_property(ps, o), s, PropertyField::SuperProperties, o), ..sc }
    } else if p == OWL_EQUIVALENT_CLASS@ {
        SchemaModel { classes: class_pair(cs, s, o, ClassField::SuperClasses), ..sc }
    } else if p == OWL_EQUIVALENT_PROPERTY@ {
        SchemaModel { properties: property_pair(ps, s, o, PropertyField::SuperProperties), ..sc }
    } else if p == OWL_INVERSE_OF@ {
        SchemaModel { properties: property_pair(ps, s, o, PropertyField::InverseProperties), ..sc }
    } else if p == OWL_COMPLEMENT_OF@ {
        SchemaModel { classes: class_pair(cs, s, o, ClassField::ComplementaryClasses), ..sc }
    } else if p == OWL_DISJOINT_WITH@ {
        SchemaModel { classes: class_pair(cs, s, o, ClassField::DisjointClasses), ..sc }
    } else if p == OWL_PROPERTY_DISJOINT_WITH@ {
        SchemaModel { properties: property_pair(ps, s, o, PropertyField::DisjointProperties), ..sc }
    } else if p == OWL_ON_PROPERTY@ {
        SchemaModel {
            classes: class_add(cs, s, ClassField::Properties, o),
            properties: property_add(ps, o, PropertyField::Restrictions, s),
        }
    } else if p == OWL_SOME_VALUES_FROM@ {
        SchemaModel { classes: class_add(class_add(cs, o, ClassField::SvfRestrictions, s), s, ClassField::SvfClasses, o), ..sc }
    } else if p == OWL_ALL_VALUES_FROM@ {
        SchemaModel { classes: class_add(class_add(cs, o, ClassField::AvfRestrictions, s), s, ClassField::AvfClasses, o), ..sc }
    } else if p == OWL_ON_CLASS@ {
        SchemaModel { classes: class_add(class_add(cs, o, ClassField::QcRestrictions, s), s, ClassField::QcClasses, o), ..sc }
    } else {
        sc
    }
}

/// The schema after a `hasValue` or maximum-cardinality statement, whatever its object.
pub open spec fn value_step(sc: SchemaModel, t: TripleModel) -> SchemaModel {
    let cs = sc.classes;
    let s = t.subject;
    let c = class_at(cs, s);
    if t.predicate == OWL_HAS_VALUE@ {
        SchemaModel { classes: cs.insert(s, ClassModel { values: c.values.insert(t.object), ..c }), ..sc }
    } else if t.predicate == OWL_MAX_CARDINALITY@ {
        match parse_i32_spec(string_value_of(t.object)) {
            Some(v) => SchemaModel {
                classes: cs.insert(s, if lowers(c.max_cardinality, v) { ClassModel { max_cardinality: Some(v), ..c } } else { c }),
                ..sc
            },
            None => sc,
        }
    } else {
        match parse_i32_spec(string_value_of(t.object)) {
            Some(v) => SchemaModel {
                classes: cs.insert(s, if lowers(c.max_qualified_cardinality, v) { ClassModel { max_qualified_cardinality: Some(v), ..c } } else { c }),
                ..sc
            },
            None => sc,
        }
    }
}

/// What reading one statement does to the schema. A statement outside the schema changes
/// nothing. Statements whose object should be a resource change nothing when it is a
/// literal; domain, range and subclass statements on `owl:Thing` change nothing.
pub open spec fn schema_step(sc: SchemaModel, t: TripleModel) -> SchemaModel {
    if !is_schema_triple_spec(t) {
        sc
    } else if t.predicate == OWL_HAS_VALUE@ || t.predicate == OWL_MAX_CARDINALITY@
        || t.predicate == OWL_MAX_QUALIFIED_CARDINALITY@ {
        value_step(sc, t)
    } else {
        match resource_of(t.object) {
            Some(o) => resource_step(sc, t.subject, t.predicate, o),
            None => sc,
        }
    }
}

/// The classes and properties that schema statements have described.
pub struct Schema {
    class_keys: Vec<String>,
    classes: Vec<OwlClass>,
    property_keys: Vec<String>,
    properties: Vec<OwlProperty>,
}

/// A class seen through its model.
pub open spec fn class_view_fn() -> spec_fn(OwlClass) -> ClassModel {
    |c: OwlClass| c@
}

/// A property seen through its model.
pub open spec fn property_view_fn() -> spec_fn(OwlProperty) -> PropertyModel {
    |p: OwlProperty| p@
}

impl View for Schema {
    type V = SchemaModel;

    closed spec fn view(&self) -> SchemaModel {
        SchemaModel {
            classes: keyed_map(views(self.class_keys@), self.classes@, class_view_fn()),
            properties: keyed_map(views(self.property_keys@), self.properties@, property_view_fn()),
        }
    }
}

impl Schema {
    /// Keys are sorted without repeats, each class or property sits beside its own key and
    /// keeps its lists in order.
    pub closed spec fn wf(&self) -> bool {
        &&& strictly_sorted(views(self.class_keys@))
        &&& self.class_keys@.len() == self.classes@.len()
        &&& forall|i: int| 0 <= i < self.classes@.len() ==> (#[trigger] self.classes@[i]).wf()
            && self.classes@[i].name() == self.class_keys@[i]@
        &&& strictly_sorted(views(self.property_keys@))
        &&& self.property_keys@.len() == self.properties@.len()
        &&& forall|i: int| 0 <= i < self.properties@.len() ==> (#[trigger] self.properties@[i]).wf()
            && self.properties@[i].name() == self.property_keys@[i]@
    }

    /// A schema that knows nothing.
    pub fn new() -> (r: Self)
        ensures
            r.wf(),
            r@.classes == Map::<Seq<char>, ClassModel>::empty(),
            r@.properties == Map::<Seq<char>, PropertyModel>::empty(),
    {
        let r = Schema { class_keys: Vec::new(), classes: Vec::new(), property_keys: Vec::new(), properties: Vec::new() };
        assert(r@.classes =~= Map::<Seq<char>, ClassModel>::empty());
        assert(r@.properties =~= Map::<Seq<char>, PropertyModel>::empty());
        r
    }

    /// Makes sure class `k` is known; returns where it sits.
    fn class_index(&mut self, k: &str) -> (i: usize)
        requires
            old(self).wf(),
        ensures
            final(self).wf(),
            final(self)@ == (SchemaModel { classes: ensure_class(old(self)@.classes, k@), ..old(self)@ }),
            i < final(self).classes@.len(),
            final(self).class_keys@[i as int]@ == k@,
            final(self).property_keys == old(self).property_keys,
            final(self).properties == old(self).properties,
    {
        let ghost ks = views(self.class_keys@);
        let ghost cs = self.classes@;
        let (pos, found) = sorted_position(&self.class_keys, k);
        if found {
            proof {
                lemma_keyed_at(ks, cs, class_view_fn(), pos as int);
                assert(ks[pos as int] == k@);
                assert(self@.classes.insert(k@, class_at(self@.classes, k@)) =~= self@.classes);
            }
        } else {
            let c = OwlClass::new(k);
            proof {
                crate::sorted::lemma_insert_sorted(ks, k@, pos as int);
                lemma_keyed_insert(ks, cs, class_view_fn(), pos as int, k@, c);
            }
            self.class_keys.insert(pos, to_owned(k));
            self.classes.insert(pos, c);
            proof {
                assert(views(self.class_keys@) =~= ks.insert(pos as int, k@));
                assert forall|i: int| 0 <= i < self.classes@.len() implies (#[trigger] self.classes@[i]).wf()
                    && self.classes@[i].name() == self.class_keys@[i]@ by {
                    if i > pos {
                        assert(self.classes@[i] == cs[i - 1]);
                    }
                }
            }
        }
        pos
    }

    /// Makes sure property `k` is known; returns where it sits.
    fn property_index(&mut self, k: &str) -> (i: usize)
        requires
            old(self).wf(),
        ensures
            final(self).wf(),
            final(self)@ == (SchemaModel { properties: ensure_property(old(self)@.properties, k@), ..old(self)@ }),
            i < final(self).properties@.len(),
            final(self).property_keys@[i as int]@ == k@,
            final(self).class_keys == old(self).class_keys,
            final(self).classes == old(self).classes,
    {
        let ghost ks = views(self.property_keys@);
        let ghost ps = self.properties@;
        let (pos, found) = sorted_position(&self.property_keys, k);
        if found {
            proof {
                lemma_keyed_at(ks, ps, property_view_fn(), pos as int);
                assert(ks[pos as int] == k@);
                assert(self@.properties.insert(k@, property_at(self@.properties, k@)) =~= self@.properties);
            }
        } else {
            let p = OwlProperty::new(k);
            proof {
                crate::sorted::lemma_insert_sorted(ks, k@, pos as int);
                lemma_keyed_insert(ks, ps, property_view_fn(), pos as int, k@, p);
            }
            self.property_keys.insert(pos, to_owned(k));
            self.properties.insert(pos, p);
            proof {
                assert(views(self.property_keys@) =~= ks.insert(pos as int, k@));
                assert forall|i: int| 0 <= i < self.properties@.len() implies (#[trigger] self.properties@[i]).wf()
                    && self.properties@[i].name() == self.property_keys@[i]@ by {
                    if i > pos {
                        assert(self.properties@[i] == ps[i - 1]);
                    }
                }
            }
        }
        pos
    }

    /// Replacing the class at a key's place replaces what the schema knows of that class.
    proof fn lemma_class_replaced(s0: Schema, s1: Schema, i: int, c: OwlClass)
        requires
            s0.wf(),
            0 <= i < s0.classes@.len(),
            s1.class_keys == s0.class_keys,
            s1.property_keys == s0.property_keys,
            s1.properties == s0.properties,
            s1.classes@ == s0.classes@.update(i, c),
            c.wf(),
            c.name() == s0.classes@[i].name(),
        ensures
            s1.wf(),
            s1@ == (SchemaModel { classes: s0@.classes.insert(s0.class_keys@[i]@, c@), ..s0@ }),
    {
        let ks = views(s0.class_keys@);
        lemma_keyed_update(ks, s0.classes@, class_view_fn(), i, c);
        assert(ks[i] == s0.class_keys@[i]@);
        assert forall|j: int| 0 <= j < s1.classes@.len() implies (#[trigger] s1.classes@[j]).wf()
            && s1.classes@[j].name() == s1.class_keys@[j]@ by {
            if j != i {
                assert(s1.classes@[j] == s0.classes@[j]);
            }
        }
    }

    /// Replacing the property at a key's place replaces what the schema knows of it.
    proof fn lemma_property_replaced(s0: Schema, s1: Schema, i: int, p: OwlProperty)
        requires
            s0.wf(),
            0 <= i < s0.properties@.len(),
            s1.class_keys == s0.class_keys,
            s1.property_keys == s0.property_keys,
            s1.classes == s0.classes,
            s1.properties@ == s0.properties@.update(i, p),
            p.wf(),
            p.name() == s0.properties@[i].name(),
        ensures
            s1.wf(),
            s1@ == (SchemaModel { properties: s0@.properties.insert(s0.property_keys@[i]@, p@), ..s0@ }),
    {
        let ks = views(s0.property_keys@);
        lemma_keyed_update(ks, s0.properties@, property_view_fn(), i, p);
        assert(ks[i] == s0.property_keys@[i]@);
        assert forall|j: int| 0 <= j < s1.properties@.len() implies (#[trigger] s1.properties@[j]).wf()
            && s1.properties@[j].name() == s1.property_keys@[j]@ by {
            if j != i {
                assert(s1.properties@[j] == s0.properties@[j]);
            }
        }
    }

    /// Puts `x` into set `f` of class `k`.
    fn add_class_name(&mut self, k: &str, f: ClassField, x: &str)
        requires
            old(self).wf(),
        ensures
            final(self).wf(),
            final(self)@ == (SchemaModel { classes: class_add(old(self)@.classes, k@, f, x@), ..old(self)@ }),
    {
        let i = self.class_index(k);
        let ghost s0 = *self;
        proof {
            lemma_keyed_at(views(s0.class_keys@), s0.classes@, class_view_fn(), i as int);
        }
        let mut c = self.classes.remove(i);
        c.add_name(f, to_owned(x));
        let ghost cv = c;
        self.classes.insert(i, c);
        proof {
            assert(self.classes@ =~= s0.classes@.update(i as int, cv));
            Self::lemma_class_replaced(s0, *self, i as int, cv);
            assert(self@.classes =~= class_add(old(self)@.classes, k@, f, x@));
        }
    }

    /// Puts a term into the `hasValue` set of class `k`.
    fn add_class_value(&mut self, k: &str, v: RdfValue)
        requires
            old(self).wf(),
        ensures
            final(self).wf(),
            final(self)@ == (SchemaModel {
                classes: old(self)@.classes.insert(
                    k@,
                    ClassModel { values: class_at(old(self)@.classes, k@).values.insert(v@), ..class_at(old(self)@.classes, k@) },
                ),
                ..old(self)@
            }),
    {
        let i = self.class_index(k);
        let ghost s0 = *self;
        proof {
            lemma_keyed_at(views(s0.class_keys@), s0.classes@, class_view_fn(), i as int);
        }
        let ghost vm = v@;
        let mut c = self.classes.remove(i);
        c.add_value(v);
        let ghost cv = c;
        self.classes.insert(i, c);
        proof {
            assert(self.classes@ =~= s0.classes@.update(i as int, cv));
            Self::lemma_class_replaced(s0, *self, i as int, cv);
            assert(self@.classes =~= old(self)@.classes.insert(
                k@,
                ClassModel { values: class_at(old(self)@.classes, k@).values.insert(vm), ..class_at(old(self)@.classes, k@) },
            ));
        }
    }

    /// Keeps `v` as a maximum cardinality of class `k` when it lowers the one kept.
    fn lower_max(&mut self, k: &str, qualified: bool, v: i32)
        requires
            old(self).wf(),
        ensures
            final(self).wf(),
            final(self)@ == (SchemaModel {
                classes: old(self)@.classes.insert(k@, {
                    let c = class_at(old(self)@.classes, k@);
                    if qualified {
                        if lowers(c.max_qualified_cardinality, v) { ClassModel { max_qualified_cardinality: Some(v), ..c } } else { c }
                    } else {
                        if lowers(c.max_cardinality, v) { ClassModel { max_cardinality: Some(v), ..c } } else { c }
                    }
                }),
                ..old(self)@
            }),
    {
        let i = self.class_index(k);
        let ghost s0 = *self;
        proof {
            lemma_keyed_at(views(s0.class_keys@), s0.classes@, class_view_fn(), i as int);
        }
        let mut c = self.classes.remove(i);
        let ghost c0 = class_at(old(self)@.classes, k@);
        assert(c@ == c0);
        let kept = c.max_of(qualified);
        let lower = match kept {
            None => true,
            Some(o) => 0 <= v && v < o,
        };
        if lower {
            c.set_max(qualified, v);
        }
        let ghost cv = c;
        self.classes.insert(i, c);
        proof {
            assert(self.classes@ =~= s0.classes@.update(i as int, cv));
            Self::lemma_class_replaced(s0, *self, i as int, cv);
            let want = if qualified {
                if lowers(c0.max_qualified_cardinality, v) { ClassModel { max_qualified_cardinality: Some(v), ..c0 } } else { c0 }
            } else {
                if lowers(c0.max_cardinality, v) { ClassModel { max_cardinality: Some(v), ..c0 } } else { c0 }
            };
            assert(cv@ == want);
            assert(self@.classes =~= old(self)@.classes.insert(k@, want));
        }
    }

    /// Puts `x` into set `f` of property `k`.
    fn add_property_name(&mut self, k: &str, f: PropertyField, x: &str)
        requires
            old(self).wf(),
        ensures
            final(self).wf(),
            final(self)@ == (SchemaModel { properties: property_add(old(self)@.properties, k@, f, x@), ..old(self)@ }),
    {
        let i = self.property_index(k);
        let ghost s0 = *self;
        proof {
            lemma_keyed_at(views(s0.property_keys@), s0.properties@, property_view_fn(), i as int);
        }
        let mut p = self.properties.remove(i);
        p.add_name(f, to_owned(x));
        let ghost pv = p;
        self.properties.insert(i, p);
        proof {
            assert(self.properties@ =~= s0.properties@.update(i as int, pv));
            Self::lemma_property_replaced(s0, *self, i as int, pv);
            assert(self@.properties =~= property_add(old(self)@.properties, k@, f, x@));
        }
    }

    /// Declares property `k` of the kind that type `class` names, if it names one.
    fn add_property_type(&mut self, k: &str, class: &str)
        requires
            old(self).wf(),
        ensures
            final(self).wf(),
            final(self)@ == (SchemaModel { properties: property_typed(old(self)@.properties, k@, class@), ..old(self)@ }),
    {
        let i = self.property_index(k);
        let flag = if str_eq(class, OWL_TRANSITIVE_PROPERTY) {
            Some(PropertyFlag::Transitive)
        } else if str_eq(class, OWL_SYMMETRIC_PROPERTY) {
            Some(PropertyFlag::Symmetric)
        } else if str_eq(class, OWL_ASYMMETRIC_PROPERTY) {
            Some(PropertyFlag::Asymmetric)
        } else if str_eq(class, OWL_FUNCTIONAL_PROPERTY) {
            Some(PropertyFlag::Functional)
        } else if str_eq(class, OWL_INVERSE_FUNCTIONAL_PROPERTY) {
            Some(PropertyFlag::InverseFunctional)
        } else if str_eq(class, OWL_IRREFLEXIVE_PROPERTY) {
            Some(PropertyFlag::Irreflexive)
        } else {
            None
        };
        assert(flag == flag_of(class@));
        match flag {
            Some(fl) => {
                let ghost s0 = *self;
                proof {
                    lemma_keyed_at(views(s0.property_keys@), s0.properties@, property_view_fn(), i as int);
                }
                let mut p = self.properties.remove(i);
                p.set_flag(fl);
                let ghost pv = p;
                self.properties.insert(i, p);
                proof {
                    assert(self.properties@ =~= s0.properties@.update(i as int, pv));
                    Self::lemma_property_replaced(s0, *self, i as int, pv);
                    assert(self@.properties =~= property_typed(old(self)@.properties, k@, class@));
                }
            },
            None => {},
        }
    }

    /// Whether a statement belongs to the schema.
    pub fn is_schema_triple(triple: &Triple) -> (r: bool)
        ensures
            r == is_schema_triple_spec(triple@),
    {
        let p = triple.predicate.as_str();
        if str_eq(p, RDFS_SUBCLASS_OF) || str_eq(p, RDFS_SUBPROPERTY_OF) || str_eq(p, RDFS_DOMAIN)
            || str_eq(p, RDFS_RANGE) || str_eq(p, OWL_EQUIVALENT_CLASS) || str_eq(p, OWL_EQUIVALENT_PROPERTY)
            || str_eq(p, OWL_INVERSE_OF) || str_eq(p, OWL_DISJOINT_WITH) || str_eq(p, OWL_COMPLEMENT_OF)
            || str_eq(p, OWL_ON_PROPERTY) || str_eq(p, OWL_SOME_VALUES_FROM) || str_eq(p, OWL_ALL_VALUES_FROM)
            || str_eq(p, OWL_HAS_VALUE) || str_eq(p, OWL_MAX_CARDINALITY)
            || str_eq(p, OWL_MAX_QUALIFIED_CARDINALITY) || str_eq(p, OWL_PROPERTY_DISJOINT_WITH)
            || str_eq(p, OWL_ON_CLASS) {
            return true;
        }
        if !str_eq(p, RDF_TYPE) {
            return false;
        }
        match triple.object.as_resource() {
            Some(o) => str_eq(o, OWL_TRANSITIVE_PROPERTY) || str_eq(o, OWL_IRREFLEXIVE_PROPERTY)
                || str_eq(o, OWL_SYMMETRIC_PROPERTY) || str_eq(o, OWL_ASYMMETRIC_PROPERTY)
                || str_eq(o, OWL_FUNCTIONAL_PROPERTY) || str_eq(o, OWL_INVERSE_FUNCTIONAL_PROPERTY),
            None => false,
        }
    }

    /// Relates `s` and `o` both ways through set `f` of classes.
    fn class_pair_exec(&mut self, s: &str, o: &str, f: ClassField)
        requires
            old(self).wf(),
        ensures
            final(self).wf(),
            final(self)@ == (SchemaModel { classes: class_pair(old(self)@.classes, s@, o@, f), ..old(self)@ }),
    {
        self.add_class_name(s, f, o);
        self.add_class_name(o, f, s);
    }

    /// Relates `s` and `o` both ways through set `f` of properties.
    fn property_pair_exec(&mut self, s: &str, o: &str, f: PropertyField)
        requires
            old(self).wf(),
        ensures
            final(self).wf(),
            final(self)@ == (SchemaModel { properties: property_pair(old(self)@.properties, s@, o@, f), ..old(self)@ }),
    {
        self.add_property_name(s, f, o);
        self.add_property_name(o, f, s);
    }

    /// A domain or range statement, unless its object is `owl:Thing`.
    fn domain_or_range(&mut self, s: &str, o: &str, f: PropertyField)
        requires
            old(self).wf(),
        ensures
            final(self).wf(),
            final(self)@ == (if o@ == OWL_THING@ {
                old(self)@
            } else {
                SchemaModel { classes: ensure_class(old(self)@.classes, o@), properties: property_add(old(self)@.properties, s@, f, o@) }
            }),
    {
        if !str_eq(o, OWL_THING) {
            self.class_index(o);
            self.add_property_name(s, f, o);
        }
    }

    /// What a statement with a resource object does, by its predicate.
    fn resource_step_exec(&mut self, s: &str, p: &str, o: &str)
        requires
            old(self).wf(),
        ensures
            final(self).wf(),
            final(self)@ == resource_step(old(self)@, s@, p@, o@),
    {
        if str_eq(p, RDF_TYPE) {
            self.add_property_type(s, o);
        } else if str_eq(p, RDFS_DOMAIN) {
            self.domain_or_range(s, o, PropertyField::Domain);
        } else if str_eq(p, RDFS_RANGE) {
            self.domain_or_range(s, o, PropertyField::Range);
        } else if str_eq(p, RDFS_SUBCLASS_OF) {
            if !str_eq(o, OWL_THING) {
                self.class_index(o);
                self.add_class_name(s, ClassField::SuperClasses, o);
            }
        } else if str_eq(p, RDFS_SUBPROPERTY_OF) {
            self.property_index(o);
            self.add_property_name(s, PropertyField::SuperProperties, o);
        } else if str_eq(p, OWL_EQUIVALENT_CLASS) {
            self.class_pair_exec(s, o, ClassField::SuperClasses);
        } else if str_eq(p, OWL_EQUIVALENT_PROPERTY) {
            self.property_pair_exec(s, o, PropertyField::SuperProperties);
        } else if str_eq(p, OWL_INVERSE_OF) {
            self.property_pair_exec(s, o, PropertyField::InverseProperties);
        } else if str_eq(p, OWL_COMPLEMENT_OF) {
            self.class_pair_exec(s, o, ClassField::ComplementaryClasses);
        } else if str_eq(p, OWL_DISJOINT_WITH) {
            self.class_pair_exec(s, o, ClassField::DisjointClasses);
        } else if str_eq(p, OWL_PROPERTY_DISJOINT_WITH) {
            self.property_pair_exec(s, o, PropertyField::DisjointProperties);
        } else if str_eq(p, OWL_ON_PROPERTY) {
            self.add_property_name(o, PropertyField::Restrictions, s);
            self.add_class_name(s, ClassField::Properties, o);
        } else if str_eq(p, OWL_SOME_VALUES_FROM) {
            self.add_class_name(o, ClassField::SvfRestrictions, s);
            self.add_class_name(s, ClassField::SvfClasses, o);
        } else if str_eq(p, OWL_ALL_VALUES_FROM) {
            self.add_class_name(o, ClassField::AvfRestrictions, s);
            self.add_class_name(s, ClassField::AvfClasses, o);
        } else if str_eq(p, OWL_ON_CLASS) {
            self.add_class_name(o, ClassField::QcRestrictions, s);
            self.add_class_name(s, ClassField::QcClasses, o);
        }
    }

    /// Reads one statement into the schema, as `schema_step` states.
    pub fn process_triple(&mut self, triple: &Triple)
        requires
            old(self).wf(),
        ensures
            final(self).wf(),
            final(self)@ == schema_step(old(self)@, triple@),
    {
        if !Self::is_schema_triple(triple) {
            return;
        }
        let s = triple.subject.as_str();
        let p = triple.predicate.as_str();
        if str_eq(p, OWL_HAS_VALUE) {
            self.add_class_value(s, triple.object.duplicate());
        } else if str_eq(p, OWL_MAX_CARDINALITY) {
            match parse_i32(triple.object.string_value()) {
                Some(v) => self.lower_max(s, false, v),
                None => {},
            }
        } else if str_eq(p, OWL_MAX_QUALIFIED_CARDINALITY) {
            match parse_i32(triple.object.string_value()) {
                Some(v) => self.lower_max(s, true, v),
                None => {},
            }
        } else {
            match triple.object.as_resource() {
                Some(o) => self.resource_step_exec(s, p, o),
                None => {},
            }
        }
    }

    /// What the schema knows of class `k`, if it has met it.
    pub fn class(&self, k: &str) -> (r: Option<&OwlClass>)
        requires
            self.wf(),
        ensures
            match r {
                Some(c) => self@.classes.dom().contains(k@) && c@ == self@.classes[k@] && c.wf(),
                None => !self@.classes.dom().contains(k@),
            },
    {
        let (pos, found) = sorted_position(&self.class_keys, k);
        if found {
            proof {
                lemma_keyed_at(views(self.class_keys@), self.classes@, class_view_fn(), pos as int);
                assert(views(self.class_keys@)[pos as int] == k@);
            }
            Some(&self.classes[pos])
        } else {
            None
        }
    }

    /// What the schema knows of property `k`, if it has met it.
    pub fn property(&self, k: &str) -> (r: Option<&OwlProperty>)
        requires
            self.wf(),
        ensures
            match r {
                Some(p) => self@.properties.dom().contains(k@) && p@ == self@.properties[k@] && p.wf(),
                None => !self@.properties.dom().contains(k@),
            },
    {
        let (pos, found) = sorted_position(&self.property_keys, k);
        if found {
            proof {
                lemma_keyed_at(views(self.property_keys@), self.properties@, property_view_fn(), pos as int);
                assert(views(self.property_keys@)[pos as int] == k@);
            }
            Some(&self.properties[pos])
        } else {
            None
        }
    }

    /// Whether the schema has met class `k`.
    pub fn has_class(&self, k: &str) -> (r: bool)
        requires
            self.wf(),
        ensures
            r == self@.classes.dom().contains(k@),
    {
        sorted_position(&self.class_keys, k).1
    }

    /// Whether the schema has met property `k`.
    pub fn has_property(&self, k: &str) -> (r: bool)
        requires
            self.wf(),
        ensures
            r == self@.properties.dom().contains(k@),
    {
        sorted_position(&self.property_keys, k).1
    }

    /// Whether class `k` is a restriction: known, and on some property.
    pub fn has_restriction(&self, k: &str) -> (r: bool)
        requires
            self.wf(),
        ensures
            r == (self@.classes.dom().contains(k@)
                && self@.classes[k@].sets[ClassField::Properties] != Set::<Seq<char>>::empty()),
    {
        match self.class(k) {
            Some(c) => c.has_names(ClassField::Properties),
            None => false,
        }
    }

    /// Makes sure the schema knows class `k`.
    pub fn get_class(&mut self, k: &str)
        requires
            old(self).wf(),
        ensures
            final(self).wf(),
            final(self)@ == (SchemaModel { classes: ensure_class(old(self)@.classes, k@), ..old(self)@ }),
    {
        self.class_index(k);
    }

    /// Makes sure the schema knows property `k`.
    pub fn get_property(&mut self, k: &str)
        requires
            old(self).wf(),
        ensures
            final(self).wf(),
            final(self)@ == (SchemaModel { properties: ensure_property(old(self)@.properties, k@), ..old(self)@ }),
    {
        self.property_index(k);
    }
}

} // verus!
