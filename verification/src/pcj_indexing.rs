use vstd::prelude::*;

use crate::fjall::{FjallRdfConfiguration, CONF_TBL_PREFIX};
use crate::text::{push_str, str_eq, to_ascii_lowercase, to_ascii_lowercase_spec, to_owned};

verus! {

pub const PCJ_STORAGE_TYPE: &'static str = "rya.indexing.pcj.storageType";
pub const PCJ_UPDATER_TYPE: &'static str = "rya.indexing.pcj.updaterType";
pub const USE_PCJ_FLUO_UPDATER: &'static str = "rya.indexing.pcj.updater.fluo";
pub const FLUO_APP_NAME: &'static str = "rya.indexing.pcj.fluo.fluoAppName";
pub const FJALL_COORDINATORS: &'static str = "sc.fjall.coordinators";
pub const FJALL_INSTANCE: &'static str = "sc.fjall.instancename";
pub const FJALL_USERNAME: &'static str = "sc.fjall.username";
pub const FJALL_PASSWORD: &'static str = "sc.fjall.password";
pub const STATEMENT_VISIBILITY: &'static str = "sc.fjall.authorizations";
pub const PRECOMPUTED_JOIN_INDEXER_ID: &'static str = "omrya::pcj::precomputed_join_indexer";
pub const RYA_INDEXING_PCJ_ARTIFACT_ID: &'static str = "rya.indexing.pcj";

/// Where precomputed joins are stored.
#[derive(Clone, Copy, PartialEq, Eq, Structural)]
pub enum PrecomputedJoinStorageType {
    Fjall,
}

impl PrecomputedJoinStorageType {
    /// The storage type of its exact name, `FJALL`.
    pub fn parse(value: &str) -> (r: Result<Self, String>)
        ensures
            value@ == "FJALL"@ ==> r == Ok::<Self, String>(PrecomputedJoinStorageType::Fjall),
            value@ != "FJALL"@ ==> (r matches Err(e) && e@ == "Unsupported PrecomputedJoinStorageType: "@ + value@),
    {
        if str_eq(value, "FJALL") {
            Ok(PrecomputedJoinStorageType::Fjall)
        } else {
            let mut e = to_owned("Unsupported PrecomputedJoinStorageType: ");
            push_str(&mut e, value);
            Err(e)
        }
    }

    /// The name of the storage type.
    pub fn as_text(&self) -> (r: &'static str)
        ensures
            r@ == "FJALL"@,
    {
        "FJALL"
    }
}

/// How precomputed joins are kept up to date.
#[derive(Clone, Copy, PartialEq, Eq, Structural)]
pub enum PrecomputedJoinUpdaterType {
    Fluo,
    NoUpdate,
}

impl PrecomputedJoinUpdaterType {
    /// The updater type of its exact name, `FLUO` or `NO_UPDATE`.
    pub fn parse(value: &str) -> (r: Result<Self, String>)
        ensures
            value@ == "FLUO"@ ==> r == Ok::<Self, String>(PrecomputedJoinUpdaterType::Fluo),
            value@ != "FLUO"@ && value@ == "NO_UPDATE"@ ==> r == Ok::<Self, String>(PrecomputedJoinUpdaterType::NoUpdate),
            value@ != "FLUO"@ && value@ != "NO_UPDATE"@ ==> (r matches Err(e) && e@ == "Unsupported PrecomputedJoinUpdaterType: "@ + value@),
    {
        if str_eq(value, "FLUO") {
            Ok(PrecomputedJoinUpdaterType::Fluo)
        } else if str_eq(value, "NO_UPDATE") {
            Ok(PrecomputedJoinUpdaterType::NoUpdate)
        } else {
            let mut e = to_owned("Unsupported PrecomputedJoinUpdaterType: ");
            push_str(&mut e, value);
            Err(e)
        }
    }

    /// The name of the updater type.
    pub fn as_text(&self) -> (r: &'static str)
        ensures
            r@ == match self {
                PrecomputedJoinUpdaterType::Fluo => "FLUO"@,
                PrecomputedJoinUpdaterType::NoUpdate => "NO_UPDATE"@,
            },
    {
        match self {
            PrecomputedJoinUpdaterType::Fluo => "FLUO",
            PrecomputedJoinUpdaterType::NoUpdate => "NO_UPDATE",
        }
    }
}

/// The value of a setting, if set.
pub open spec fn setting(m: Map<Seq<char>, Seq<char>>, k: Seq<char>) -> Option<Seq<char>> {
    if m.contains_key(k) {
        Some(m[k])
    } else {
        None
    }
}

fn setting_exec(config: &FjallRdfConfiguration, k: &str) -> (r: Option<String>)
    ensures
        crate::code_intel::manifests::opt_view(r) == setting(config.map(), k@),
{
    match config.get(k) {
        Some(v) => Some(to_owned(v.as_str())),
        None => None,
    }
}

/// The settings of the precomputed-join indexer.
pub struct PrecomputedJoinIndexerConfig {
    pub config: FjallRdfConfiguration,
}

impl PrecomputedJoinIndexerConfig {
    /// The settings, copied.
    pub fn new(config: &FjallRdfConfiguration) -> (r: Self)
        ensures
            r.config.map() == config.map(),
    {
        PrecomputedJoinIndexerConfig { config: config.clone() }
    }

    /// The storage type, if set; a name that is not one fails.
    pub fn pcj_storage_type(&self) -> (r: Result<Option<PrecomputedJoinStorageType>, String>)
        ensures
            match setting(self.config.map(), PCJ_STORAGE_TYPE@) {
                None => r == Ok::<Option<PrecomputedJoinStorageType>, String>(None),
                Some(v) => if v == "FJALL"@ {
                    r == Ok::<Option<PrecomputedJoinStorageType>, String>(Some(PrecomputedJoinStorageType::Fjall))
                } else {
                    r matches Err(e) && e@ == "Unsupported PrecomputedJoinStorageType: "@ + v
                },
            },
    {
        match self.config.get(PCJ_STORAGE_TYPE) {
            None => Ok(None),
            Some(v) => match PrecomputedJoinStorageType::parse(v.as_str()) {
                Ok(t) => Ok(Some(t)),
                Err(e) => Err(e),
            },
        }
    }

    /// The updater type, if set; a name that is not one fails.
    pub fn pcj_updater_type(&self) -> (r: Result<Option<PrecomputedJoinUpdaterType>, String>)
        ensures
            match setting(self.config.map(), PCJ_UPDATER_TYPE@) {
                None => r == Ok::<Option<PrecomputedJoinUpdaterType>, String>(None),
                Some(v) => if v == "FLUO"@ {
                    r == Ok::<Option<PrecomputedJoinUpdaterType>, String>(Some(PrecomputedJoinUpdaterType::Fluo))
                } else if v == "NO_UPDATE"@ {
                    r == Ok::<Option<PrecomputedJoinUpdaterType>, String>(Some(PrecomputedJoinUpdaterType::NoUpdate))
                } else {
                    r matches Err(e) && e@ == "Unsupported PrecomputedJoinUpdaterType: "@ + v
                },
            },
    {
        match self.config.get(PCJ_UPDATER_TYPE) {
            None => Ok(None),
            Some(v) => match PrecomputedJoinUpdaterType::parse(v.as_str()) {
                Ok(t) => Ok(Some(t)),
                Err(e) => Err(e),
            },
        }
    }

    /// Whether the incremental updater is switched on (`true` in any ASCII case).
    pub fn use_fluo_updater(&self) -> (r: bool)
        ensures
            r == (self.config.map().contains_key(USE_PCJ_FLUO_UPDATER@) && to_ascii_lowercase_spec(
                self.config.map()[USE_PCJ_FLUO_UPDATER@],
            ) == to_ascii_lowercase_spec("true"@)),
    {
        match self.config.get(USE_PCJ_FLUO_UPDATER) {
            Some(v) => str_eq(to_ascii_lowercase(v.as_str()).as_str(), to_ascii_lowercase("true").as_str()),
            None => false,
        }
    }

    /// The settings.
    pub fn config(&self) -> (r: &FjallRdfConfiguration)
        ensures
            r.map() == self.config.map(),
    {
        &self.config
    }
}

/// The settings of the precomputed-join storage.
pub struct FjallPcjStorageConfig {
    pub config: FjallRdfConfiguration,
}

impl FjallPcjStorageConfig {
    /// The settings, copied.
    pub fn new(config: &FjallRdfConfiguration) -> (r: Self)
        ensures
            r.config.map() == config.map(),
    {
        FjallPcjStorageConfig { config: config.clone() }
    }

    /// The store's instance name: the table prefix, or the older prefix setting.
    pub fn rya_instance_name(&self) -> (r: Result<String, String>)
        ensures
            match setting(self.config.map(), CONF_TBL_PREFIX@) {
                Some(v) => r matches Ok(x) && x@ == v,
                None => match setting(self.config.map(), "sc.tablePrefix"@) {
                    Some(v) => r matches Ok(x) && x@ == v,
                    None => r matches Err(e) && e@ == "Missing configuration: "@ + CONF_TBL_PREFIX@,
                },
            },
    {
        match setting_exec(&self.config, CONF_TBL_PREFIX) {
            Some(v) => Ok(v),
            None => match setting_exec(&self.config, "sc.tablePrefix") {
                Some(v) => Ok(v),
                None => {
                    let mut e = to_owned("Missing configuration: ");
                    push_str(&mut e, CONF_TBL_PREFIX);
                    Err(e)
                },
            },
        }
    }
}

/// The settings of the incremental updater.
pub struct FluoPcjUpdaterConfig {
    pub config: FjallRdfConfiguration,
}

impl FluoPcjUpdaterConfig {
    /// The settings, copied.
    pub fn new(config: &FjallRdfConfiguration) -> (r: Self)
        ensures
            r.config.map() == config.map(),
    {
        FluoPcjUpdaterConfig { config: config.clone() }
    }

    /// The updater application's name.
    pub fn fluo_app_name(&self) -> (r: Option<String>)
        ensures
            crate::code_intel::manifests::opt_view(r) == setting(self.config.map(), FLUO_APP_NAME@),
    {
        setting_exec(&self.config, FLUO_APP_NAME)
    }

    /// The store's coordinators.
    pub fn fjall_coordinators(&self) -> (r: Option<String>)
        ensures
            crate::code_intel::manifests::opt_view(r) == setting(self.config.map(), FJALL_COORDINATORS@),
    {
        setting_exec(&self.config, FJALL_COORDINATORS)
    }

    /// The updater's coordinators: the store's, under `/fluo`.
    pub fn fluo_coordinators(&self) -> (r: Option<String>)
        ensures
            crate::code_intel::manifests::opt_view(r) == match setting(self.config.map(), FJALL_COORDINATORS@) {
                Some(c) => Some(c + "/fluo"@),
                None => None,
            },
    {
        match setting_exec(&self.config, FJALL_COORDINATORS) {
            Some(c) => {
                let mut out = c;
                push_str(&mut out, "/fluo");
                Some(out)
            },
            None => None,
        }
    }

    /// The store's instance.
    pub fn fjall_instance(&self) -> (r: Option<String>)
        ensures
            crate::code_intel::manifests::opt_view(r) == setting(self.config.map(), FJALL_INSTANCE@),
    {
        setting_exec(&self.config, FJALL_INSTANCE)
    }

    /// The store's user name.
    pub fn fjall_username(&self) -> (r: Option<String>)
        ensures
            crate::code_intel::manifests::opt_view(r) == setting(self.config.map(), FJALL_USERNAME@),
    {
        setting_exec(&self.config, FJALL_USERNAME)
    }

    /// The store's password.
    pub fn fjall_password(&self) -> (r: Option<String>)
        ensures
            crate::code_intel::manifests::opt_view(r) == setting(self.config.map(), FJALL_PASSWORD@),
    {
        setting_exec(&self.config, FJALL_PASSWORD)
    }

    /// The visibility given to statements.
    pub fn statement_visibility(&self) -> (r: Option<String>)
        ensures
            crate::code_intel::manifests::opt_view(r) == setting(self.config.map(), STATEMENT_VISIBILITY@),
    {
        setting_exec(&self.config, STATEMENT_VISIBILITY)
    }
}

/// An updater that does nothing but count what it is given.
pub struct NoOpUpdater {
    pub add_count: usize,
    pub delete_count: usize,
    pub flush_count: usize,
    pub closed: bool,
}

impl NoOpUpdater {
    /// An updater with nothing counted.
    pub fn new() -> (r: Self)
        ensures
            r.add_count == 0 && r.delete_count == 0 && r.flush_count == 0 && !r.closed,
    {
        NoOpUpdater { add_count: 0, delete_count: 0, flush_count: 0, closed: false }
    }

    /// Counts added statements.
    pub fn add_statements(&mut self, statements: &[crate::domain::RyaStatement])
        requires
            old(self).add_count + statements.len() <= usize::MAX,
        ensures
            final(self).add_count == old(self).add_count + statements.len(),
            final(self).delete_count == old(self).delete_count,
            final(self).flush_count == old(self).flush_count,
            final(self).closed == old(self).closed,
    {
        self.add_count = self.add_count + statements.len();
    }

    /// Counts deleted statements.
    pub fn delete_statements(&mut self, statements: &[crate::domain::RyaStatement])
        requires
            old(self).delete_count + statements.len() <= usize::MAX,
        ensures
            final(self).delete_count == old(self).delete_count + statements.len(),
            final(self).add_count == old(self).add_count,
            final(self).flush_count == old(self).flush_count,
            final(self).closed == old(self).closed,
    {
        self.delete_count = self.delete_count + statements.len();
    }

    /// Counts a flush.
    pub fn flush(&mut self)
        requires
            old(self).flush_count < usize::MAX,
        ensures
            final(self).flush_count == old(self).flush_count + 1,
            final(self).add_count == old(self).add_count,
            final(self).delete_count == old(self).delete_count,
            final(self).closed == old(self).closed,
    {
        self.flush_count = self.flush_count + 1;
    }

    /// Marks the updater closed.
    pub fn close(&mut self)
        ensures
            final(self).closed,
            final(self).add_count == old(self).add_count,
            final(self).delete_count == old(self).delete_count,
            final(self).flush_count == old(self).flush_count,
    {
        self.closed = true;
    }

    /// How many statements were added.
    pub fn add_count(&self) -> (r: usize)
        ensures
            r == self.add_count,
    {
        self.add_count
    }

    /// How many statements were deleted.
    pub fn delete_count(&self) -> (r: usize)
        ensures
            r == self.delete_count,
    {
        self.delete_count
    }

    /// How many flushes there were.
    pub fn flush_count(&self) -> (r: usize)
        ensures
            r == self.flush_count,
    {
        self.flush_count
    }

    /// Whether the updater was closed.
    pub fn closed(&self) -> (r: bool)
        ensures
            r == self.closed,
    {
        self.closed
    }
}

/// Supplies fresh updaters that do nothing.
pub struct NoOpUpdaterSupplier;

impl NoOpUpdaterSupplier {
    /// A fresh updater with nothing counted.
    pub fn get(&self) -> (r: NoOpUpdater)
        ensures
            r.add_count == 0 && r.delete_count == 0 && r.flush_count == 0 && !r.closed,
    {
        NoOpUpdater::new()
    }
}

} // verus!
