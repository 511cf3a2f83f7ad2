use vstd::prelude::*;

use crate::strmap::StrMap;
use crate::code_intel::names::{ascii_alnum, is_ascii_alnum};
use crate::sorted::{insert_sorted_string, strictly_sorted};
use crate::text::{lower_char, push_char, to_lower_char, str_eq, to_ascii_lowercase, to_ascii_lowercase_spec, to_owned, views};
use crate::words::{join, join_spec};

verus! {

pub const GEO_WKT_LITERAL: &'static str = "http://www.opengis.net/ont/geosparql#wktLiteral";
pub const USE_GEO: &'static str = "sc.use_geo";
pub const USE_FREETEXT: &'static str = "sc.use_freetext";
pub const USE_TEMPORAL: &'static str = "sc.use_temporal";
pub const USE_ENTITY: &'static str = "sc.use_entity";
pub const GEO_PREDICATES_LIST: &'static str = "sc.geo.predicates";
pub const FREETEXT_PREDICATES_LIST: &'static str = "sc.freetext.predicates";
pub const TEMPORAL_PREDICATES_LIST: &'static str = "sc.temporal.predicates";
pub const RDF_CLOUD_TRIPLE_STORE_CONF_OPTIMIZERS: &'static str = "query.optimizers";
pub const FILTER_FUNCTION_OPTIMIZER_CLASS: &'static str = "mvm.rya.indexing.FilterFunctionOptimizer";
pub const ENTITY_CENTRIC_INDEXER_CLASS: &'static str = "mvm.rya.indexing.fjall.entity.EntityCentricIndex";
pub const ENTITY_OPTIMIZER_CLASS: &'static str = "mvm.rya.indexing.fjall.entity.EntityOptimizer";
pub const FJALL_GEOMESA_INDEXER_CLASS: &'static str = "mvm.rya.indexing.fjall.geo.GeoMesaGeoIndexer";
pub const FJALL_FREETEXT_INDEXER_CLASS: &'static str = "mvm.rya.indexing.fjall.freetext.FjallFreeTextIndexer";
pub const FJALL_TEMPORAL_INDEXER_CLASS: &'static str = "mvm.rya.indexing.fjall.temporal.FjallTemporalIndexer";
pub const USE_PCJ: &'static str = "sc.use_pcj";
pub const USE_OPTIMAL_PCJ: &'static str = "sc.use.optimal.pcj";
pub const FLUO_APP_NAME: &'static str = "rya.indexing.pcj.fluo.fluoAppName";
pub const USE_PCJ_FLUO_UPDATER: &'static str = "rya.indexing.pcj.updater.fluo";
pub const PCJ_STORAGE_TYPE: &'static str = "rya.indexing.pcj.storageType";
pub const PCJ_UPDATER_TYPE: &'static str = "rya.indexing.pcj.updaterType";
pub const PCJ_OPTIMIZER_CLASS: &'static str = "mvm.rya.indexing.pcj.matching.PCJOptimizer";
pub const LEGACY_PRECOMP_JOIN_OPTIMIZER_CLASS: &'static str = "mvm.rya.indexing.external.PrecompJoinOptimizer";
pub const PRECOMPUTED_JOIN_INDEXER_CLASS: &'static str = "mvm.rya.indexing.external.PrecomputedJoinIndexer";

/// A character that belongs to a search token: an ASCII letter or digit, `*` or `_`.
pub open spec fn token_char(c: char) -> bool {
    ascii_alnum(c) || c == '*' || c == '_'
}

/// After the first `n` characters: the tokens completed so far, and the one in progress, in
/// lower case.
pub open spec fn tokens_fold(s: Seq<char>, n: int) -> (Set<Seq<char>>, Seq<char>)
    decreases n,
{
    if n <= 0 || n > s.len() {
        (Set::empty(), Seq::empty())
    } else {
        let p = tokens_fold(s, n - 1);
        let c = s[n - 1];
        if token_char(c) {
            (p.0, p.1.push(lower_char(c)))
        } else if p.1.len() > 0 {
            (p.0.insert(p.1), Seq::empty())
        } else {
            (p.0, Seq::empty())
        }
    }
}

/// The search tokens of a text: its runs of token characters, in lower case.
pub open spec fn tokens_spec(s: Seq<char>) -> Set<Seq<char>> {
    let p = tokens_fold(s, s.len() as int);
    if p.1.len() > 0 {
        p.0.insert(p.1)
    } else {
        p.0
    }
}

/// The search tokens of a text, in increasing order, as `tokens_spec` states them.
pub fn simple_tokenize(input: &str) -> (r: Vec<String>)
    ensures
        strictly_sorted(views(r@)),
        views(r@).to_set() == tokens_spec(input@),
{
    let cs = crate::text::chars_of(input);
    let mut out: Vec<String> = Vec::new();
    let mut cur = String::new();
    let mut i: usize = 0;
    assert(views(out@).to_set() =~= Set::<Seq<char>>::empty());
    while i < cs.len()
        invariant
            i <= cs@.len(),
            cs@ == input@,
            strictly_sorted(views(out@)),
            views(out@).to_set() == tokens_fold(input@, i as int).0,
            cur@ == tokens_fold(input@, i as int).1,
        decreases cs.len() - i,
    {
        let c = cs[i];
        if is_ascii_alnum(c) || c == '*' || c == '_' {
            push_char(&mut cur, to_lower_char(c));
        } else {
            if cur.unicode_len() > 0 {
                let t = cur;
                insert_sorted_string(&mut out, t);
                cur = String::new();
            }
            assert(cur@ =~= Seq::<char>::empty());
        }
        i = i + 1;
    }
    if cur.unicode_len() > 0 {
        insert_sorted_string(&mut out, cur);
    }
    out
}

/// The settings that choose the secondary indexers, by name.
pub struct IndexingConfiguration {
    pub values: StrMap,
}

/// Whether a setting reads as `true`, in any ASCII case.
pub open spec fn flag_set(m: Map<Seq<char>, Seq<char>>, key: Seq<char>) -> bool {
    m.contains_key(key) && to_ascii_lowercase_spec(m[key]) == to_ascii_lowercase_spec("true"@)
}

impl IndexingConfiguration {
    /// A configuration with no setting.
    pub fn new() -> (r: Self)
        ensures
            r.values@ == Map::<Seq<char>, Seq<char>>::empty(),
    {
        let values = StrMap::new();
        IndexingConfiguration { values }
    }

    /// Sets `key` to `value`.
    pub fn set(&mut self, key: &str, value: &str)
        ensures
            final(self).values@ == old(self).values@.insert(key@, value@),
    {
        self.values.insert(to_owned(key), to_owned(value));
    }

    /// Sets `key` to `true` or `false`.
    pub fn set_bool(&mut self, key: &str, value: bool)
        ensures
            final(self).values@ == old(self).values@.insert(key@, if value { "true"@ } else { "false"@ }),
    {
        if value {
            self.set(key, "true");
        } else {
            self.set(key, "false");
        }
    }

    /// Sets `key` to the values joined with commas.
    pub fn set_csv(&mut self, key: &str, values: &Vec<String>)
        ensures
            final(self).values@ == old(self).values@.insert(key@, join_spec(views(values@), ","@)),
    {
        let joined = join(values, ",");
        self.set(key, joined.as_str());
    }

    /// Whether `key` is set to `true`, in any ASCII case.
    pub fn get_bool(&self, key: &str) -> (r: bool)
        ensures
            r == flag_set(self.values@, key@),
    {
        match self.values.get(key) {
            Some(v) => str_eq(to_ascii_lowercase(v.as_str()).as_str(), to_ascii_lowercase("true").as_str()),
            None => false,
        }
    }

    /// The name of the incremental-update application, if set.
    pub fn fluo_app_name(&self) -> (r: Option<String>)
        ensures
            match r {
                Some(v) => self.values@.contains_key(FLUO_APP_NAME@) && v@ == self.values@[FLUO_APP_NAME@],
                None => !self.values@.contains_key(FLUO_APP_NAME@),
            },
    {
        match self.values.get(FLUO_APP_NAME) {
            Some(v) => Some(to_owned(v.as_str())),
            None => None,
        }
    }
}

/// The secondary indexers that the settings ask for, and whether filters should use them.
pub struct AdditionalIndexers {
    pub classes: Vec<&'static str>,
    pub use_filter_index: bool,
}

/// The names of a list of classes.
pub open spec fn class_names(v: Seq<&'static str>) -> Seq<Seq<char>> {
    v.map_values(|s: &'static str| s@)
}

/// The geo, free-text and temporal indexers that are switched on, in that order.
pub open spec fn additional_spec(m: Map<Seq<char>, Seq<char>>) -> Seq<Seq<char>> {
    (if flag_set(m, USE_GEO@) { seq![FJALL_GEOMESA_INDEXER_CLASS@] } else { Seq::empty() })
        + (if flag_set(m, USE_FREETEXT@) { seq![FJALL_FREETEXT_INDEXER_CLASS@] } else { Seq::empty() })
        + (if flag_set(m, USE_TEMPORAL@) { seq![FJALL_TEMPORAL_INDEXER_CLASS@] } else { Seq::empty() })
}

/// Whether any of the geo, free-text and temporal indexers is switched on.
pub open spec fn filter_index_spec(m: Map<Seq<char>, Seq<char>>) -> bool {
    flag_set(m, USE_GEO@) || flag_set(m, USE_FREETEXT@) || flag_set(m, USE_TEMPORAL@)
}

fn push_class(v: &mut Vec<&'static str>, c: &'static str)
    ensures
        class_names(final(v)@) == class_names(old(v)@).push(c@),
{
    let ghost before = class_names(v@);
    v.push(c);
    assert(class_names(v@) =~= before.push(c@));
}

/// The geo, free-text and temporal indexers that the settings switch on.
pub fn configured_additional_indexers(conf: &IndexingConfiguration) -> (r: AdditionalIndexers)
    ensures
        class_names(r.classes@) == additional_spec(conf.values@),
        r.use_filter_index == filter_index_spec(conf.values@),
{
    let mut classes: Vec<&'static str> = Vec::new();
    let mut use_filter_index = false;
    let geo = conf.get_bool(USE_GEO);
    if geo {
        push_class(&mut classes, FJALL_GEOMESA_INDEXER_CLASS);
        use_filter_index = true;
    }
    let ghost a = class_names(classes@);
    let free = conf.get_bool(USE_FREETEXT);
    if free {
        push_class(&mut classes, FJALL_FREETEXT_INDEXER_CLASS);
        use_filter_index = true;
    }
    let ghost b = class_names(classes@);
    let temporal = conf.get_bool(USE_TEMPORAL);
    if temporal {
        push_class(&mut classes, FJALL_TEMPORAL_INDEXER_CLASS);
        use_filter_index = true;
    }
    assert(class_names(classes@) =~= additional_spec(conf.values@));
    AdditionalIndexers { classes, use_filter_index }
}

/// The query optimizer for precomputed joins, when either setting asks for it.
pub fn configured_pcj_optimizer(conf: &IndexingConfiguration) -> (r: Option<&'static str>)
    ensures
        (flag_set(conf.values@, USE_PCJ@) || flag_set(conf.values@, USE_OPTIMAL_PCJ@)) ==> r == Some(PCJ_OPTIMIZER_CLASS),
        !(flag_set(conf.values@, USE_PCJ@) || flag_set(conf.values@, USE_OPTIMAL_PCJ@)) ==> r is None,
{
    if conf.get_bool(USE_PCJ) || conf.get_bool(USE_OPTIMAL_PCJ) {
        Some(PCJ_OPTIMIZER_CLASS)
    } else {
        None
    }
}

/// The indexers and optimizers to configure, with the setting names they go under.
pub struct IndexerConfigurationPlan {
    pub additional_indexers_key: &'static str,
    pub optimizer_key: &'static str,
    pub additional_indexers: Vec<&'static str>,
    pub optimizers: Vec<&'static str>,
    pub pcj_optimizer: Option<&'static str>,
}

/// Whether the settings ask for precomputed joins.
pub open spec fn pcj_spec(m: Map<Seq<char>, Seq<char>>) -> bool {
    flag_set(m, USE_PCJ@) || flag_set(m, USE_OPTIMAL_PCJ@)
}

/// The indexers of a plan: the switched-on secondary indexers, the entity index when asked
/// for, and the precomputed-join indexer when joins are.
pub open spec fn plan_indexers_spec(m: Map<Seq<char>, Seq<char>>) -> Seq<Seq<char>> {
    additional_spec(m) + (if flag_set(m, USE_ENTITY@) { seq![ENTITY_CENTRIC_INDEXER_CLASS@] } else { Seq::empty() })
        + (if pcj_spec(m) { seq![PRECOMPUTED_JOIN_INDEXER_CLASS@] } else { Seq::empty() })
}

/// The optimizers of a plan: the filter optimizer when a secondary indexer is on, and the
/// entity optimizer when the entity index is asked for.
pub open spec fn plan_optimizers_spec(m: Map<Seq<char>, Seq<char>>) -> Seq<Seq<char>> {
    (if filter_index_spec(m) { seq![FILTER_FUNCTION_OPTIMIZER_CLASS@] } else { Seq::empty() })
        + (if flag_set(m, USE_ENTITY@) { seq![ENTITY_OPTIMIZER_CLASS@] } else { Seq::empty() })
}

/// The plan that the settings describe, as the specs above state it.
pub fn configured_indexer_plan(conf: &IndexingConfiguration) -> (r: IndexerConfigurationPlan)
    ensures
        r.additional_indexers_key@ == crate::fjall::CONF_ADDITIONAL_INDEXERS@,
        r.optimizer_key@ == RDF_CLOUD_TRIPLE_STORE_CONF_OPTIMIZERS@,
        class_names(r.additional_indexers@) == plan_indexers_spec(conf.values@),
        class_names(r.optimizers@) == plan_optimizers_spec(conf.values@),
        pcj_spec(conf.values@) ==> r.pcj_optimizer == Some(PCJ_OPTIMIZER_CLASS),
        !pcj_spec(conf.values@) ==> r.pcj_optimizer is None,
{
    let additional = configured_additional_indexers(conf);
    let mut classes = additional.classes;
    let mut optimizers: Vec<&'static str> = Vec::new();
    if additional.use_filter_index {
        push_class(&mut optimizers, FILTER_FUNCTION_OPTIMIZER_CLASS);
    }
    let ghost o1 = class_names(optimizers@);
    let ghost c1 = class_names(classes@);
    if conf.get_bool(USE_ENTITY) {
        push_class(&mut classes, ENTITY_CENTRIC_INDEXER_CLASS);
        push_class(&mut optimizers, ENTITY_OPTIMIZER_CLASS);
    }
    let ghost c2 = class_names(classes@);
    let pcj_optimizer = configured_pcj_optimizer(conf);
    if pcj_optimizer.is_some() {
        push_class(&mut classes, PRECOMPUTED_JOIN_INDEXER_CLASS);
    }
    assert(class_names(classes@) =~= plan_indexers_spec(conf.values@));
    assert(class_names(optimizers@) =~= plan_optimizers_spec(conf.values@));
    IndexerConfigurationPlan {
        additional_indexers_key: crate::fjall::CONF_ADDITIONAL_INDEXERS,
        optimizer_key: RDF_CLOUD_TRIPLE_STORE_CONF_OPTIMIZERS,
        additional_indexers: classes,
        optimizers,
        pcj_optimizer,
    }
}

/// The filter optimizer's fixture: it always names the geo, free-text and temporal indexers.
pub struct FilterFunctionOptimizerFixture {
    pub initialized: bool,
    pub geo_indexer_class: Option<&'static str>,
    pub free_text_indexer_class: Option<&'static str>,
    pub temporal_indexer_class: Option<&'static str>,
}

impl FilterFunctionOptimizerFixture {
    /// The fixture, whatever the settings.
    pub fn from_config(conf: &IndexingConfiguration) -> (r: Self)
        ensures
            r.initialized,
            r.geo_indexer_class == Some(FJALL_GEOMESA_INDEXER_CLASS),
            r.free_text_indexer_class == Some(FJALL_FREETEXT_INDEXER_CLASS),
            r.temporal_indexer_class == Some(FJALL_TEMPORAL_INDEXER_CLASS),
    {
        FilterFunctionOptimizerFixture {
            initialized: true,
            geo_indexer_class: Some(FJALL_GEOMESA_INDEXER_CLASS),
            free_text_indexer_class: Some(FJALL_FREETEXT_INDEXER_CLASS),
            temporal_indexer_class: Some(FJALL_TEMPORAL_INDEXER_CLASS),
        }
    }
}

} // verus!
