use vstd::prelude::*;

pub mod codec;
pub mod iterators;
pub mod scan;

use crate::strmap::StrMap;
use crate::text::{concat, push_str, str_eq, to_owned, views};

verus! {

pub const CONF_ADDITIONAL_INDEXERS: &'static str = "ac.additional.indexers";
pub const CONF_FLUSH_EACH_UPDATE: &'static str = "ac.dao.flush";
pub const CONF_FJALL_DATA_DIR: &'static str = "fjall.data.dir";
pub const ITERATOR_SETTINGS_SIZE: &'static str = "ac.iterators.size";
pub const ITERATOR_SETTINGS_BASE: &'static str = "ac.iterators.%d.";
pub const ITERATOR_SETTINGS_NAME: &'static str = "ac.iterators.%d.name";
pub const ITERATOR_SETTINGS_KIND: &'static str = "ac.iterators.%d.iterator";
pub const ITERATOR_SETTINGS_PRIORITY: &'static str = "ac.iterators.%d.priority";
pub const ITERATOR_SETTINGS_OPTIONS_SIZE: &'static str = "ac.iterators.%d.optionsSize";
pub const ITERATOR_SETTINGS_OPTIONS_KEY: &'static str = "ac.iterators.%d.option.%d.name";
pub const ITERATOR_SETTINGS_OPTIONS_VALUE: &'static str = "ac.iterators.%d.option.%d.value";
pub const CONF_TBL_PREFIX: &'static str = "rdf.tablePrefix";
pub const CONF_QUERY_AUTH: &'static str = "query.auth";
pub const CONF_CV: &'static str = "conf.cv";
pub const CONF_INFER: &'static str = "query.infer";
pub const VERSION_SUBJECT_RYA: &'static str = "urn:omrya/version";
pub const VERSION_PREDICATE_RYA: &'static str = "urn:omrya/versionPredicate";
pub const VERSION_RYA: &'static str = "3.2.10-SNAPSHOT";
pub const FIRST_ENTRY_IN_ROW_ITERATOR_ID: &'static str = "omrya::fjall::iterators::first_entry_in_row";
pub const DEFAULT_CONNECTOR_ID: &'static str = "in-memory-fjall-connector";
pub const DEFAULT_MULTI_TABLE_BATCH_WRITER_ID: &'static str = "in-memory-multi-table-batch-writer";
pub const FJALL_DATETIME_DEFAULT_OFFSET_MINUTES: i32 = 0;
pub const TBL_PRFX_DEF: &'static str = "rya_";
pub const TBL_SPO_SUFFIX: &'static str = "spo";
pub const TBL_PO_SUFFIX: &'static str = "po";
pub const TBL_OSP_SUFFIX: &'static str = "osp";
pub const TBL_NS_SUFFIX: &'static str = "ns";
pub const TBL_EVAL_SUFFIX: &'static str = "eval";
pub const TBL_STATS_SUFFIX: &'static str = "prospects";
pub const TBL_SEL_SUFFIX: &'static str = "selectivity";
pub const ENTITY_INDEX_SUFFIX: &'static str = "entity";
pub const FREETEXT_DOC_INDEX_SUFFIX: &'static str = "freetext";
pub const FREETEXT_TERM_INDEX_SUFFIX: &'static str = "freetext_term";
pub const GEO_INDEX_SUFFIX: &'static str = "geo";
pub const TEMPORAL_INDEX_SUFFIX: &'static str = "temporal";

/// The names of the core tables: a prefix followed by each table's suffix.
pub struct TablePrefixLayoutStrategy {
    table_prefix: String,
}

impl TablePrefixLayoutStrategy {
    pub closed spec fn prefix(self) -> Seq<char> {
        self.table_prefix@
    }

    pub fn new(table_prefix: &str) -> (r: Self)
        ensures
            r.prefix() == table_prefix@,
    {
        TablePrefixLayoutStrategy { table_prefix: to_owned(table_prefix) }
    }

    /// The layout with the default prefix.
    pub fn default_layout() -> (r: Self)
        ensures
            r.prefix() == TBL_PRFX_DEF@,
    {
        Self::new(TBL_PRFX_DEF)
    }

    pub fn table_prefix(&self) -> (r: &str)
        ensures
            r@ == self.prefix(),
    {
        self.table_prefix.as_str()
    }

    pub fn spo(&self) -> (r: String)
        ensures
            r@ == self.prefix() + TBL_SPO_SUFFIX@,
    {
        concat(self.table_prefix.as_str(), TBL_SPO_SUFFIX)
    }

    pub fn po(&self) -> (r: String)
        ensures
            r@ == self.prefix() + TBL_PO_SUFFIX@,
    {
        concat(self.table_prefix.as_str(), TBL_PO_SUFFIX)
    }

    pub fn osp(&self) -> (r: String)
        ensures
            r@ == self.prefix() + TBL_OSP_SUFFIX@,
    {
        concat(self.table_prefix.as_str(), TBL_OSP_SUFFIX)
    }

    pub fn ns(&self) -> (r: String)
        ensures
            r@ == self.prefix() + TBL_NS_SUFFIX@,
    {
        concat(self.table_prefix.as_str(), TBL_NS_SUFFIX)
    }

    pub fn eval(&self) -> (r: String)
        ensures
            r@ == self.prefix() + TBL_EVAL_SUFFIX@,
    {
        concat(self.table_prefix.as_str(), TBL_EVAL_SUFFIX)
    }

    pub fn prospects(&self) -> (r: String)
        ensures
            r@ == self.prefix() + TBL_STATS_SUFFIX@,
    {
        concat(self.table_prefix.as_str(), TBL_STATS_SUFFIX)
    }

    pub fn selectivity(&self) -> (r: String)
        ensures
            r@ == self.prefix() + TBL_SEL_SUFFIX@,
    {
        concat(self.table_prefix.as_str(), TBL_SEL_SUFFIX)
    }
}

impl Clone for TablePrefixLayoutStrategy {
    fn clone(&self) -> (r: Self)
        ensures
            r.prefix() == self.prefix(),
    {
        TablePrefixLayoutStrategy { table_prefix: self.table_prefix.clone() }
    }
}

/// Whether a connector reaches a real instance or a mock one.
#[derive(Clone, Copy, Debug, PartialEq, Eq, Structural)]
pub enum FjallInstanceKind {
    Real,
    Mock,
}

/// A connector to a store instance.
pub struct FjallConnector {
    pub id: String,
    pub instance_kind: FjallInstanceKind,
}

impl FjallConnector {
    /// The default connector: the in-memory id, a real instance.
    pub fn default_connector() -> (r: Self)
        ensures
            r.id@ == DEFAULT_CONNECTOR_ID@,
            r.instance_kind == FjallInstanceKind::Real,
    {
        FjallConnector { id: to_owned(DEFAULT_CONNECTOR_ID), instance_kind: FjallInstanceKind::Real }
    }

    /// A connector to a mock instance.
    pub fn mock(id: &str) -> (r: Self)
        ensures
            r.id@ == id@,
            r.instance_kind == FjallInstanceKind::Mock,
    {
        FjallConnector { id: to_owned(id), instance_kind: FjallInstanceKind::Mock }
    }

    pub fn is_mock_instance(&self) -> (r: bool)
        ensures
            r == (self.instance_kind == FjallInstanceKind::Mock),
    {
        self.instance_kind == FjallInstanceKind::Mock
    }
}

impl Clone for FjallConnector {
    fn clone(&self) -> (r: Self)
        ensures
            r.id@ == self.id@,
            r.instance_kind == self.instance_kind,
    {
        FjallConnector { id: self.id.clone(), instance_kind: self.instance_kind }
    }
}

/// A writer that writes to several tables at once.
pub struct MultiTableBatchWriter {
    pub id: String,
}

impl MultiTableBatchWriter {
    /// The default writer, with the in-memory id.
    pub fn default_writer() -> (r: Self)
        ensures
            r.id@ == DEFAULT_MULTI_TABLE_BATCH_WRITER_ID@,
    {
        MultiTableBatchWriter { id: to_owned(DEFAULT_MULTI_TABLE_BATCH_WRITER_ID) }
    }
}

impl Clone for MultiTableBatchWriter {
    fn clone(&self) -> (r: Self)
        ensures
            r.id@ == self.id@,
    {
        MultiTableBatchWriter { id: self.id.clone() }
    }
}

/// A secondary index kept beside the core tables; implemented by the users of the store.
pub trait FjallIndexer {
    fn get_table_name(&self) -> Option<String>;

    fn set_conf(&mut self, conf: &FjallRdfConfiguration) -> Result<(), String>;

    fn set_connector(&mut self, connector: FjallConnector) -> Result<(), String>;

    fn set_multi_table_batch_writer(&mut self, writer: MultiTableBatchWriter) -> Result<(), String>;

    fn init(&mut self) -> Result<(), String>;

    fn store_statement(&mut self, statement: &crate::domain::RyaStatement) -> Result<(), String>;

    fn delete_statement(&mut self, statement: &crate::domain::RyaStatement) -> Result<(), String>;

    fn flush(&mut self) -> Result<(), String>;

    fn destroy(&mut self) -> Result<(), String>;

    fn purge(&mut self, configuration: &FjallRdfConfiguration) -> Result<(), String>;

    fn drop_and_destroy(&mut self) -> Result<(), String>;
}

/// The secondary indexers that the build knows of.
#[derive(Clone, Copy, Debug, PartialEq, Eq, Structural)]
pub enum BuildFixIndexerKind {
    NullFreeText,
    NullGeo,
    NullTemporal,
    EntityCentric,
    FreeText,
    GeoMesaGeo,
    Temporal,
}

impl BuildFixIndexerKind {
    /// The name of the indexer in the registry.
    pub fn registry_name(&self) -> (r: &'static str)
        ensures
            r@ == indexer_registry_name(*self),
    {
        match self {
            BuildFixIndexerKind::NullFreeText => "omrya::fjall::indexers::null_free_text",
            BuildFixIndexerKind::NullGeo => "omrya::fjall::indexers::null_geo",
            BuildFixIndexerKind::NullTemporal => "omrya::fjall::indexers::null_temporal",
            BuildFixIndexerKind::EntityCentric => "omrya::fjall::indexers::entity_centric",
            BuildFixIndexerKind::FreeText => "omrya::fjall::indexers::free_text",
            BuildFixIndexerKind::GeoMesaGeo => "omrya::fjall::indexers::geomesa_geo",
            BuildFixIndexerKind::Temporal => "omrya::fjall::indexers::temporal",
        }
    }

    /// Every indexer kind, in declaration order.
    pub fn all_indexer_kinds() -> (r: [BuildFixIndexerKind; 7])
        ensures
            r@ == seq![
                BuildFixIndexerKind::NullFreeText,
                BuildFixIndexerKind::NullGeo,
                BuildFixIndexerKind::NullTemporal,
                BuildFixIndexerKind::EntityCentric,
                BuildFixIndexerKind::FreeText,
                BuildFixIndexerKind::GeoMesaGeo,
                BuildFixIndexerKind::Temporal,
            ],
    {
        let r = [
            BuildFixIndexerKind::NullFreeText,
            BuildFixIndexerKind::NullGeo,
            BuildFixIndexerKind::NullTemporal,
            BuildFixIndexerKind::EntityCentric,
            BuildFixIndexerKind::FreeText,
            BuildFixIndexerKind::GeoMesaGeo,
            BuildFixIndexerKind::Temporal,
        ];
        assert(r@ =~= seq![
            BuildFixIndexerKind::NullFreeText,
            BuildFixIndexerKind::NullGeo,
            BuildFixIndexerKind::NullTemporal,
            BuildFixIndexerKind::EntityCentric,
            BuildFixIndexerKind::FreeText,
            BuildFixIndexerKind::GeoMesaGeo,
            BuildFixIndexerKind::Temporal,
        ]);
        r
    }

    /// Whether the indexer starts its internal state when it is given a configuration: every
    /// kind but the null ones.
    pub fn initializes_from_conf(&self) -> (r: bool)
        ensures
            r == !(*self == BuildFixIndexerKind::NullFreeText || *self == BuildFixIndexerKind::NullGeo
                || *self == BuildFixIndexerKind::NullTemporal),
    {
        match self {
            BuildFixIndexerKind::NullFreeText | BuildFixIndexerKind::NullGeo
            | BuildFixIndexerKind::NullTemporal => false,
            _ => true,
        }
    }
}

/// The registry name of an indexer kind.
pub open spec fn indexer_registry_name(k: BuildFixIndexerKind) -> Seq<char> {
    match k {
        BuildFixIndexerKind::NullFreeText => "omrya::fjall::indexers::null_free_text"@,
        BuildFixIndexerKind::NullGeo => "omrya::fjall::indexers::null_geo"@,
        BuildFixIndexerKind::NullTemporal => "omrya::fjall::indexers::null_temporal"@,
        BuildFixIndexerKind::EntityCentric => "omrya::fjall::indexers::entity_centric"@,
        BuildFixIndexerKind::FreeText => "omrya::fjall::indexers::free_text"@,
        BuildFixIndexerKind::GeoMesaGeo => "omrya::fjall::indexers::geomesa_geo"@,
        BuildFixIndexerKind::Temporal => "omrya::fjall::indexers::temporal"@,
    }
}

/// An indexer that records the set-up calls it receives.
pub struct BuildFixFjallIndexer {
    kind: BuildFixIndexerKind,
    conf_seen: bool,
    connector_seen: Option<FjallConnector>,
    writer_seen: Option<MultiTableBatchWriter>,
    internal_init_count: usize,
}

impl BuildFixFjallIndexer {
    pub closed spec fn kind_spec(self) -> BuildFixIndexerKind {
        self.kind
    }

    pub closed spec fn conf_seen_spec(self) -> bool {
        self.conf_seen
    }

    pub closed spec fn connector_id(self) -> Option<Seq<char>> {
        match self.connector_seen {
            Some(c) => Some(c.id@),
            None => None,
        }
    }

    pub closed spec fn writer_id(self) -> Option<Seq<char>> {
        match self.writer_seen {
            Some(w) => Some(w.id@),
            None => None,
        }
    }

    pub closed spec fn init_count(self) -> usize {
        self.internal_init_count
    }

    /// A fresh indexer of the kind that has seen nothing.
    pub fn new(kind: BuildFixIndexerKind) -> (r: Self)
        ensures
            r.kind_spec() == kind,
            !r.conf_seen_spec(),
            r.connector_id() is None,
            r.writer_id() is None,
            r.init_count() == 0,
    {
        BuildFixFjallIndexer { kind, conf_seen: false, connector_seen: None, writer_seen: None, internal_init_count: 0 }
    }

    pub fn kind(&self) -> (r: BuildFixIndexerKind)
        ensures
            r == self.kind_spec(),
    {
        self.kind
    }

    pub fn conf_seen(&self) -> (r: bool)
        ensures
            r == self.conf_seen_spec(),
    {
        self.conf_seen
    }

    pub fn connector_seen(&self) -> (r: Option<&FjallConnector>)
        ensures
            match r {
                Some(c) => self.connector_id() == Some(c.id@),
                None => self.connector_id() is None,
            },
    {
        match &self.connector_seen {
            Some(c) => Some(c),
            None => None,
        }
    }

    pub fn writer_seen(&self) -> (r: Option<&MultiTableBatchWriter>)
        ensures
            match r {
                Some(w) => self.writer_id() == Some(w.id@),
                None => self.writer_id() is None,
            },
    {
        match &self.writer_seen {
            Some(w) => Some(w),
            None => None,
        }
    }

    pub fn internal_init_count(&self) -> (r: usize)
        ensures
            r == self.init_count(),
    {
        self.internal_init_count
    }

    fn init_internal_once(&mut self)
        ensures
            final(self).init_count() == if old(self).init_count() == 0 { 1 } else { old(self).init_count() },
            final(self).kind_spec() == old(self).kind_spec(),
            final(self).conf_seen_spec() == old(self).conf_seen_spec(),
            final(self).connector_id() == old(self).connector_id(),
            final(self).writer_id() == old(self).writer_id(),
    {
        if self.internal_init_count == 0 {
            self.internal_init_count = 1;
        }
    }
}

impl FjallIndexer for BuildFixFjallIndexer {
    fn get_table_name(&self) -> (r: Option<String>)
        ensures
            r is None,
    {
        None
    }

    fn set_conf(&mut self, conf: &FjallRdfConfiguration) -> (r: Result<(), String>)
        ensures
            r is Ok,
            final(self).conf_seen_spec(),
            final(self).init_count() == if old(self).kind_spec().initializes_from_conf_spec() && old(self).init_count() == 0 {
                1
            } else {
                old(self).init_count()
            },
            final(self).kind_spec() == old(self).kind_spec(),
            final(self).connector_id() == old(self).connector_id(),
            final(self).writer_id() == old(self).writer_id(),
    {
        self.conf_seen = true;
        if self.kind.initializes_from_conf() {
            self.init_internal_once();
        }
        Ok(())
    }

    fn set_connector(&mut self, connector: FjallConnector) -> (r: Result<(), String>)
        ensures
            r is Ok,
            final(self).connector_id() == Some(connector.id@),
            final(self).kind_spec() == old(self).kind_spec(),
            final(self).conf_seen_spec() == old(self).conf_seen_spec(),
            final(self).writer_id() == old(self).writer_id(),
            final(self).init_count() == old(self).init_count(),
    {
        self.connector_seen = Some(connector);
        Ok(())
    }

    fn set_multi_table_batch_writer(&mut self, writer: MultiTableBatchWriter) -> (r: Result<(), String>)
        ensures
            r is Ok,
            final(self).writer_id() == Some(writer.id@),
            final(self).kind_spec() == old(self).kind_spec(),
            final(self).conf_seen_spec() == old(self).conf_seen_spec(),
            final(self).connector_id() == old(self).connector_id(),
            final(self).init_count() == old(self).init_count(),
    {
        self.writer_seen = Some(writer);
        Ok(())
    }

    fn init(&mut self) -> (r: Result<(), String>)
        ensures
            r is Ok,
    {
        Ok(())
    }

    fn store_statement(&mut self, statement: &crate::domain::RyaStatement) -> (r: Result<(), String>)
        ensures
            r is Ok,
    {
        Ok(())
    }

    fn delete_statement(&mut self, statement: &crate::domain::RyaStatement) -> (r: Result<(), String>)
        ensures
            r is Ok,
    {
        Ok(())
    }

    fn flush(&mut self) -> (r: Result<(), String>)
        ensures
            r is Ok,
    {
        Ok(())
    }

    fn destroy(&mut self) -> (r: Result<(), String>)
        ensures
            r is Ok,
    {
        Ok(())
    }

    fn purge(&mut self, configuration: &FjallRdfConfiguration) -> (r: Result<(), String>)
        ensures
            r is Ok,
    {
        Ok(())
    }

    fn drop_and_destroy(&mut self) -> (r: Result<(), String>)
        ensures
            r is Ok,
    {
        Ok(())
    }
}

impl BuildFixIndexerKind {
    pub open spec fn initializes_from_conf_spec(self) -> bool {
        !(self == BuildFixIndexerKind::NullFreeText || self == BuildFixIndexerKind::NullGeo
            || self == BuildFixIndexerKind::NullTemporal)
    }
}

/// The configuration of a store: string values by key.
pub struct FjallRdfConfiguration {
    values: StrMap,
}

impl FjallRdfConfiguration {
    pub closed spec fn map(self) -> Map<Seq<char>, Seq<char>> {
        self.values@
    }

    /// An empty configuration.
    pub fn new() -> (r: Self)
        ensures
            r.map() == Map::<Seq<char>, Seq<char>>::empty(),
    {
        FjallRdfConfiguration { values: StrMap::new() }
    }

    /// A copy of the parent configuration.
    pub fn from_parent(parent: &Self) -> (r: Self)
        ensures
            r.map() == parent.map(),
    {
        FjallRdfConfiguration { values: parent.values.clone() }
    }

    /// The value of a key.
    pub fn get(&self, key: &str) -> (r: Option<&String>)
        ensures
            match r {
                Some(v) => self.map().contains_key(key@) && self.map()[key@] == v@,
                None => !self.map().contains_key(key@),
            },
    {
        self.values.get(key)
    }

    /// Sets the value of a key.
    pub fn set(&mut self, key: &str, value: &str)
        ensures
            final(self).map() == old(self).map().insert(key@, value@),
    {
        self.values.insert(to_owned(key), to_owned(value));
    }

    pub fn set_cv(&mut self, visibility: &str)
        ensures
            final(self).map() == old(self).map().insert(CONF_CV@, visibility@),
    {
        self.set(CONF_CV, visibility);
    }

    pub fn cv(&self) -> (r: Option<&String>)
        ensures
            match r {
                Some(v) => self.map().contains_key(CONF_CV@) && self.map()[CONF_CV@] == v@,
                None => !self.map().contains_key(CONF_CV@),
            },
    {
        self.get(CONF_CV)
    }

    /// Whether inference is on: the value is `true` in any case.
    pub fn is_infer(&self) -> (r: bool)
        ensures
            r == flag_value(self.map(), CONF_INFER@, false),
    {
        self.flag(CONF_INFER, false)
    }

    pub fn set_infer(&mut self, infer: bool)
        ensures
            final(self).map() == old(self).map().insert(CONF_INFER@, bool_text(infer)),
    {
        self.set(CONF_INFER, bool_str(infer));
    }

    /// Whether each update is flushed: the value is `true` in any case, or absent.
    pub fn flush_each_update(&self) -> (r: bool)
        ensures
            r == flag_value(self.map(), CONF_FLUSH_EACH_UPDATE@, true),
    {
        self.flag(CONF_FLUSH_EACH_UPDATE, true)
    }

    pub fn set_flush(&mut self, flush: bool)
        ensures
            final(self).map() == old(self).map().insert(CONF_FLUSH_EACH_UPDATE@, bool_text(flush)),
    {
        self.set(CONF_FLUSH_EACH_UPDATE, bool_str(flush));
    }

    fn flag(&self, key: &str, absent: bool) -> (r: bool)
        ensures
            r == flag_value(self.map(), key@, absent),
    {
        match self.get(key) {
            Some(v) => crate::text::eq_ignore_ascii_case(v.as_str(), "true"),
            None => absent,
        }
    }

    pub fn set_table_prefix(&mut self, prefix: &str)
        ensures
            final(self).map() == old(self).map().insert(CONF_TBL_PREFIX@, prefix@),
    {
        self.set(CONF_TBL_PREFIX, prefix);
    }

    pub fn table_prefix(&self) -> (r: Option<&String>)
        ensures
            match r {
                Some(v) => self.map().contains_key(CONF_TBL_PREFIX@) && self.map()[CONF_TBL_PREFIX@] == v@,
                None => !self.map().contains_key(CONF_TBL_PREFIX@),
            },
    {
        self.get(CONF_TBL_PREFIX)
    }

    pub fn set_fjall_data_dir(&mut self, path: &str)
        ensures
            final(self).map() == old(self).map().insert(CONF_FJALL_DATA_DIR@, path@),
    {
        self.set(CONF_FJALL_DATA_DIR, path);
    }

    pub fn fjall_data_dir(&self) -> (r: Option<&String>)
        ensures
            match r {
                Some(v) => self.map().contains_key(CONF_FJALL_DATA_DIR@) && self.map()[CONF_FJALL_DATA_DIR@] == v@,
                None => !self.map().contains_key(CONF_FJALL_DATA_DIR@),
            },
    {
        self.get(CONF_FJALL_DATA_DIR)
    }

    /// The table prefix, an error when it is not set.
    pub fn required_table_prefix(&self) -> (r: Result<&String, String>)
        ensures
            r is Ok <==> self.map().contains_key(CONF_TBL_PREFIX@),
            r matches Ok(v) ==> v@ == self.map()[CONF_TBL_PREFIX@],
            r matches Err(e) ==> e@ == missing_prefix_message(),
    {
        match self.table_prefix() {
            Some(p) => Ok(p),
            None => Err(to_owned("Configuration key: rdf.tablePrefix not set.  Cannot generate table name.")),
        }
    }

    /// The table layout of the configured prefix, or of the default prefix.
    pub fn table_layout_strategy(&self) -> (r: TablePrefixLayoutStrategy)
        ensures
            r.prefix() == if self.map().contains_key(CONF_TBL_PREFIX@) {
                self.map()[CONF_TBL_PREFIX@]
            } else {
                TBL_PRFX_DEF@
            },
    {
        match self.table_prefix() {
            Some(p) => TablePrefixLayoutStrategy::new(p.as_str()),
            None => TablePrefixLayoutStrategy::new(TBL_PRFX_DEF),
        }
    }

    fn secondary_index_table_name(&self, suffix: &str) -> (r: Result<String, String>)
        ensures
            r is Ok <==> self.map().contains_key(CONF_TBL_PREFIX@),
            r matches Ok(v) ==> v@ == self.map()[CONF_TBL_PREFIX@] + suffix@,
            r matches Err(e) ==> e@ == missing_prefix_message(),
    {
        let p = self.required_table_prefix()?;
        Ok(concat(p.as_str(), suffix))
    }

    pub fn entity_index_table_name(&self) -> (r: Result<String, String>)
        ensures
            r is Ok <==> self.map().contains_key(CONF_TBL_PREFIX@),
            r matches Ok(v) ==> v@ == self.map()[CONF_TBL_PREFIX@] + ENTITY_INDEX_SUFFIX@,
            r matches Err(e) ==> e@ == missing_prefix_message(),
    {
        self.secondary_index_table_name(ENTITY_INDEX_SUFFIX)
    }

    pub fn freetext_doc_table_name(&self) -> (r: Result<String, String>)
        ensures
            r is Ok <==> self.map().contains_key(CONF_TBL_PREFIX@),
            r matches Ok(v) ==> v@ == self.map()[CONF_TBL_PREFIX@] + FREETEXT_DOC_INDEX_SUFFIX@,
            r matches Err(e) ==> e@ == missing_prefix_message(),
    {
        self.secondary_index_table_name(FREETEXT_DOC_INDEX_SUFFIX)
    }

    pub fn freetext_term_table_name(&self) -> (r: Result<String, String>)
        ensures
            r is Ok <==> self.map().contains_key(CONF_TBL_PREFIX@),
            r matches Ok(v) ==> v@ == self.map()[CONF_TBL_PREFIX@] + FREETEXT_TERM_INDEX_SUFFIX@,
            r matches Err(e) ==> e@ == missing_prefix_message(),
    {
        self.secondary_index_table_name(FREETEXT_TERM_INDEX_SUFFIX)
    }

    /// The document and term tables of the free-text index.
    pub fn freetext_table_names(&self) -> (r: Result<Vec<String>, String>)
        ensures
            r is Ok <==> self.map().contains_key(CONF_TBL_PREFIX@),
            r matches Ok(v) ==> views(v@) == seq![
                self.map()[CONF_TBL_PREFIX@] + FREETEXT_DOC_INDEX_SUFFIX@,
                self.map()[CONF_TBL_PREFIX@] + FREETEXT_TERM_INDEX_SUFFIX@,
            ],
            r matches Err(e) ==> e@ == missing_prefix_message(),
    {
        let doc = self.freetext_doc_table_name()?;
        let term = self.freetext_term_table_name()?;
        let mut v: Vec<String> = Vec::new();
        v.push(doc);
        v.push(term);
        assert(views(v@) =~= seq![
            self.map()[CONF_TBL_PREFIX@] + FREETEXT_DOC_INDEX_SUFFIX@,
            self.map()[CONF_TBL_PREFIX@] + FREETEXT_TERM_INDEX_SUFFIX@,
        ]);
        Ok(v)
    }

    pub fn geo_index_table_name(&self) -> (r: Result<String, String>)
        ensures
            r is Ok <==> self.map().contains_key(CONF_TBL_PREFIX@),
            r matches Ok(v) ==> v@ == self.map()[CONF_TBL_PREFIX@] + GEO_INDEX_SUFFIX@,
            r matches Err(e) ==> e@ == missing_prefix_message(),
    {
        self.secondary_index_table_name(GEO_INDEX_SUFFIX)
    }

    pub fn temporal_index_table_name(&self) -> (r: Result<String, String>)
        ensures
            r is Ok <==> self.map().contains_key(CONF_TBL_PREFIX@),
            r matches Ok(v) ==> v@ == self.map()[CONF_TBL_PREFIX@] + TEMPORAL_INDEX_SUFFIX@,
            r matches Err(e) ==> e@ == missing_prefix_message(),
    {
        self.secondary_index_table_name(TEMPORAL_INDEX_SUFFIX)
    }
}

impl Clone for FjallRdfConfiguration {
    fn clone(&self) -> (r: Self)
        ensures
            r.map() == self.map(),
    {
        FjallRdfConfiguration { values: self.values.clone() }
    }
}

pub open spec fn missing_prefix_message() -> Seq<char> {
    "Configuration key: rdf.tablePrefix not set.  Cannot generate table name."@
}

/// The text of a boolean.
pub open spec fn bool_text(b: bool) -> Seq<char> {
    if b {
        "true"@
    } else {
        "false"@
    }
}

/// The text of a boolean.
pub fn bool_str(b: bool) -> (r: &'static str)
    ensures
        r@ == bool_text(b),
{
    if b {
        "true"
    } else {
        "false"
    }
}

/// A flag read from a configuration: the value is `true` in any case; `absent` when unset.
pub open spec fn flag_value(m: Map<Seq<char>, Seq<char>>, key: Seq<char>, absent: bool) -> bool {
    if m.contains_key(key) {
        crate::text::to_ascii_lowercase_spec(m[key]) == crate::text::to_ascii_lowercase_spec("true"@)
    } else {
        absent
    }
}

} // verus!
