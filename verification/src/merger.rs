use vstd::prelude::*;

use crate::domain::{iri_model, opt_str_view, RyaIri, RyaStatement, RyaStatementModel};
use crate::fjall::{FjallRdfConfiguration, CONF_QUERY_AUTH};
use crate::fjall_mr::{
    lookup_setting, AC_AUTH_PROP, AC_INSTANCE_PROP, AC_MOCK_PROP, AC_PWD_PROP, AC_USERNAME_PROP,
    TABLE_PREFIX_PROPERTY,
};
use crate::strmap::StrMap;
use crate::text::{concat, push_str, split_char, split_spec, str_eq, to_owned, views};
use crate::words::{trim, trim_spec};

verus! {

pub const CHILD_SUFFIX: &'static str = ".child";
pub const START_TIME_PROP: &'static str = "tool.start.time";
pub const USE_START_TIME_DIALOG: &'static str = "dialog";
pub const USE_MERGE_FILE_INPUT: &'static str = "use.merge.file.input";
pub const MERGE_FILE_INPUT_PATH: &'static str = "merge.file.input.path";
pub const COPY_TABLE_LIST_PROP: &'static str = "copy.table.list";
pub const CREATE_CHILD_INSTANCE_TYPE_PROP: &'static str = "create.child.instance.type";
pub const PARENT_TIME_OFFSET_PROP: &'static str = "time.offset";
pub const CHILD_TIME_OFFSET_PROP: &'static str = "time.offset.child";
pub const NTP_SERVER_HOST_PROP: &'static str = "ntp.server.host";
pub const DEFAULT_TIME_SERVER_HOST: &'static str = "time-a.nist.gov";
pub const PARENT_TOMCAT_URL_PROP: &'static str = "tomcat.url";
pub const CHILD_TOMCAT_URL_PROP: &'static str = "tomcat.url.child";
pub const COPY_RUN_TIME_PROP: &'static str = "copy.run.time";
pub const USE_NTP_SERVER_PROP: &'static str = "use.ntp.server";
pub const USE_COPY_FILE_OUTPUT: &'static str = "use.copy.file.output";
pub const COPY_FILE_OUTPUT_PATH: &'static str = "copy.file.output.path";
pub const COPY_FILE_OUTPUT_COMPRESSION_TYPE: &'static str = "copy.file.output.compression.type";
pub const USE_COPY_FILE_OUTPUT_DIRECTORY_CLEAR: &'static str = "use.copy.file.output.directory.clear";
pub const COPY_FILE_IMPORT_DIRECTORY: &'static str = "copy.file.import.directory";
pub const USE_COPY_FILE_IMPORT: &'static str = "use.copy.file.import";
pub const QUERY_STRING_PROP: &'static str = "ac.copy.query";
pub const QUERY_FILE_PROP: &'static str = "ac.copy.queryfile";
pub const PARENT_USER_NAME: &'static str = "parent_user";
pub const PARENT_PASSWORD: &'static str = "parent_pwd";
pub const PARENT_INSTANCE: &'static str = "parent_instance";
pub const PARENT_TABLE_PREFIX: &'static str = "pt_";
pub const PARENT_AUTH: &'static str = "parent_auth";
pub const CHILD_USER_NAME: &'static str = "child_user";
pub const CHILD_PASSWORD: &'static str = "child_pwd";
pub const CHILD_INSTANCE: &'static str = "child_instance";
pub const CHILD_TABLE_PREFIX: &'static str = "ct_";
pub const CHILD_AUTH: &'static str = "child_auth";
pub const COPY_COMMAND: &'static str = "omrya merger copy";
pub const MERGE_COMMAND: &'static str = "omrya merger merge";
/// The property naming the coordinators of an instance.
pub const AC_COORDINATOR_PROP: &'static str = "ac.coordinator";

pub const CONFIG_USE_MOCK_INSTANCE: &'static str = "sc.use_mock_instance";
pub const CONFIG_FJALL_INSTANCE: &'static str = "sc.fjall.instancename";
pub const CONFIG_FJALL_USER: &'static str = "sc.fjall.username";
pub const CONFIG_FJALL_PASSWORD: &'static str = "sc.fjall.password";
pub const CONFIG_FJALL_AUTHS: &'static str = "sc.fjall.auths";
pub const CONFIG_FJALL_COORDINATORS: &'static str = "sc.fjall.coordinators";
pub const CONFIG_FJALL_TBL_PREFIX: &'static str = "sc.fjall.tableprefix";
pub const RDF_TBL_PREFIX: &'static str = "rdf.tablePrefix";

// ---------------------------------------------------------------------------
// Time
// ---------------------------------------------------------------------------

/// A unit of calendar time.
#[derive(Clone, Copy, PartialEq, Eq, Structural)]
pub enum CalendarUnit {
    Millisecond,
    Second,
    Minute,
    Hour,
    Day,
    Week,
    Month,
    Year,
}

/// The milliseconds of a unit; a month is 31 days and a year 365.
pub open spec fn unit_millis(u: CalendarUnit) -> int {
    match u {
        CalendarUnit::Millisecond => 1,
        CalendarUnit::Second => 1000,
        CalendarUnit::Minute => 60000,
        CalendarUnit::Hour => 3600000,
        CalendarUnit::Day => 86400000,
        CalendarUnit::Week => 604800000,
        CalendarUnit::Month => 2678400000,
        CalendarUnit::Year => 31536000000,
    }
}

impl CalendarUnit {
    pub fn milliseconds(self) -> (r: i64)
        ensures
            r == unit_millis(self),
    {
        match self {
            CalendarUnit::Millisecond => 1,
            CalendarUnit::Second => 1000,
            CalendarUnit::Minute => 60 * 1000,
            CalendarUnit::Hour => 60 * 60 * 1000,
            CalendarUnit::Day => 24 * 60 * 60 * 1000,
            CalendarUnit::Week => 7 * 24 * 60 * 60 * 1000,
            CalendarUnit::Month => 31 * 24 * 60 * 60 * 1000,
            CalendarUnit::Year => 365 * 24 * 60 * 60 * 1000,
        }
    }
}

/// Before or after a time.
#[derive(Clone, Copy, PartialEq, Eq, Structural)]
pub enum Occurrence {
    Before,
    After,
}

pub open spec fn occurrence_sign(o: Occurrence) -> int {
    match o {
        Occurrence::Before => -1,
        Occurrence::After => 1,
    }
}

/// The time `duration` units before or after a time.
pub open spec fn time_from_spec(t: int, duration: int, unit: CalendarUnit, o: Occurrence) -> int {
    t + occurrence_sign(o) * (duration * unit_millis(unit))
}

/// The time `duration` units before or after `time_millis`.
pub fn time_from(time_millis: i64, duration: i64, unit: CalendarUnit, occurrence: Occurrence) -> (r: i64)
    requires
        occurrence == Occurrence::Before ==> duration > i64::MIN,
        i64::MIN <= occurrence_sign(occurrence) * duration * unit_millis(unit) <= i64::MAX,
        i64::MIN <= time_from_spec(time_millis as int, duration as int, unit, occurrence) <= i64::MAX,
    ensures
        r == time_from_spec(time_millis as int, duration as int, unit, occurrence),
{
    let signed = match occurrence {
        Occurrence::Before => -duration,
        Occurrence::After => duration,
    };
    proof {
        match occurrence {
            Occurrence::Before => {
                assert(occurrence_sign(occurrence) == -1);
                assert(signed == occurrence_sign(occurrence) * duration) by (nonlinear_arith)
                    requires
                        occurrence_sign(occurrence) == -1,
                        signed == -duration,
                ;
            },
            Occurrence::After => {
                assert(occurrence_sign(occurrence) == 1);
                assert(signed == occurrence_sign(occurrence) * duration) by (nonlinear_arith)
                    requires
                        occurrence_sign(occurrence) == 1,
                        signed == duration,
                ;
            },
        }
        assert(signed * unit_millis(unit) == occurrence_sign(occurrence) * duration * unit_millis(
            unit,
        )) by (nonlinear_arith)
            requires
                signed == occurrence_sign(occurrence) * duration,
        ;
        assert(occurrence_sign(occurrence) * (duration * unit_millis(unit)) == occurrence_sign(
            occurrence,
        ) * duration * unit_millis(unit)) by (nonlinear_arith);
    }
    let span = signed * unit.milliseconds();
    time_millis + span
}

/// The time a day before.
pub fn day_before(time_millis: i64) -> (r: i64)
    requires
        time_millis >= i64::MIN + 86400000,
    ensures
        r == time_millis - 86400000,
{
    time_from(time_millis, 1, CalendarUnit::Day, Occurrence::Before)
}

/// The time a month (31 days) before.
pub fn month_before(time_millis: i64) -> (r: i64)
    requires
        time_millis >= i64::MIN + 2678400000,
    ensures
        r == time_millis - 2678400000,
{
    time_from(time_millis, 1, CalendarUnit::Month, Occurrence::Before)
}

// ---------------------------------------------------------------------------
// Statements for the tools
// ---------------------------------------------------------------------------

/// The IRI of a local name in the `#:` namespace.
pub fn create_rya_uri(local_name: &str) -> (r: RyaIri)
    ensures
        r@ == iri_model("#:"@ + local_name@),
{
    proof {
        reveal_strlit("#:");
        assert(("#:"@ + local_name@)[1] == ':');
    }
    let r = RyaIri::from_namespace("#:", local_name);
    proof {
        assert(crate::text::has_char("#:"@ + local_name@, ':'));
    }
    r.unwrap()
}

/// A statement of three names in the `#:` namespace, with the given timestamp if any.
pub fn create_rya_statement(subject: &str, predicate: &str, object: &str, timestamp: Option<u64>) -> (r: RyaStatement)
    ensures
        r.subject@ == iri_model("#:"@ + subject@),
        r.predicate@ == iri_model("#:"@ + predicate@),
        r.object@ == iri_model("#:"@ + object@),
        r.context is None,
        r.qualifier is None,
        r.column_visibility is None,
        r.value is None,
        timestamp matches Some(t) ==> r.timestamp == t,
{
    let mut statement = RyaStatement::new(create_rya_uri(subject), create_rya_uri(predicate), create_rya_uri(object).into_type());
    match timestamp {
        Some(t) => {
            statement.timestamp = t;
        },
        None => {},
    }
    statement
}

/// A copy of a statement.
pub fn copy_rya_statement(statement: &RyaStatement) -> (r: RyaStatement)
    ensures
        r@ == statement@,
{
    statement.clone()
}

/// A `-Dkey=value` argument.
pub fn make_argument(key: &str, value: &str) -> (r: String)
    ensures
        r@ == "-D"@ + key@ + "="@ + value@,
{
    let mut out = to_owned("-D");
    push_str(&mut out, key);
    push_str(&mut out, "=");
    push_str(&mut out, value);
    out
}

/// The start time argument: `dialog` when the dialog is on, else the time.
pub fn start_time_string(start_time_millis: u64, dialog_enabled: bool) -> (r: String)
    ensures
        r@ == if dialog_enabled {
            USE_START_TIME_DIALOG@
        } else {
            crate::text::decimal(start_time_millis as nat)
        },
{
    if dialog_enabled {
        to_owned(USE_START_TIME_DIALOG)
    } else {
        crate::text::u64_to_string(start_time_millis)
    }
}

// ---------------------------------------------------------------------------
// Tool configuration
// ---------------------------------------------------------------------------

/// The settings of a copy or merge tool, by name.
pub struct ToolConfig {
    values: StrMap,
}

impl ToolConfig {
    pub closed spec fn view(self) -> Map<Seq<char>, Seq<char>> {
        self.values@
    }

    pub fn new() -> (r: Self)
        ensures
            r.view() == Map::<Seq<char>, Seq<char>>::empty(),
    {
        ToolConfig { values: StrMap::new() }
    }

    pub fn set(&mut self, key: &str, value: &str)
        ensures
            final(self).view() == old(self).view().insert(key@, value@),
    {
        self.values.insert(to_owned(key), to_owned(value));
    }

    pub fn get(&self, key: &str) -> (r: Option<&str>)
        ensures
            opt_str_view(r) == lookup_setting(self.view(), key@),
    {
        match self.values.get(key) {
            Some(v) => Some(v.as_str()),
            None => None,
        }
    }

    pub fn contains_key(&self, key: &str) -> (r: bool)
        ensures
            r == self.view().contains_key(key@),
    {
        self.values.contains_key(key)
    }
}

/// The keys that take a copy of each key's value, in order of key.
pub open spec fn duplicate_keys_spec() -> Seq<(Seq<char>, Seq<Seq<char>>)> {
    seq![
        (AC_AUTH_PROP@, seq![CONFIG_FJALL_AUTHS@, CONF_QUERY_AUTH@]),
        ("ac.auth.child"@, seq!["sc.fjall.auths.child"@, "query.auth.child"@]),
        (AC_COORDINATOR_PROP@, seq![CONFIG_FJALL_COORDINATORS@]),
        ("ac.coordinator.child"@, seq!["sc.fjall.coordinators.child"@]),
        (AC_INSTANCE_PROP@, seq![CONFIG_FJALL_INSTANCE@]),
        ("ac.instance.child"@, seq!["sc.fjall.instancename.child"@]),
        (AC_MOCK_PROP@, seq![CONFIG_USE_MOCK_INSTANCE@]),
        ("ac.mock.child"@, seq!["sc.use_mock_instance.child"@]),
        (AC_PWD_PROP@, seq![CONFIG_FJALL_PASSWORD@]),
        ("ac.pwd.child"@, seq!["sc.fjall.password.child"@]),
        (AC_USERNAME_PROP@, seq![CONFIG_FJALL_USER@]),
        ("ac.username.child"@, seq!["sc.fjall.username.child"@]),
        (TABLE_PREFIX_PROPERTY@, seq![CONFIG_FJALL_TBL_PREFIX@, RDF_TBL_PREFIX@]),
        ("rdf.tablePrefix.child"@, seq!["sc.fjall.tableprefix.child"@, "rdf.tablePrefix.child"@]),
    ]
}

pub open spec fn dup_entry_view(e: (&'static str, Vec<&'static str>)) -> (Seq<char>, Seq<Seq<char>>) {
    (e.0@, e.1@.map_values(|s: &'static str| s@))
}

fn entry(key: &'static str, dups: Vec<&'static str>) -> (r: (&'static str, Vec<&'static str>))
    ensures
        r.0 == key,
        r.1@ == dups@,
{
    (key, dups)
}

/// The keys whose values are copied to other keys, with those keys, in order of key.
pub fn duplicate_key_map() -> (r: Vec<(&'static str, Vec<&'static str>)>)
    ensures
        r@.map_values(|e: (&'static str, Vec<&'static str>)| dup_entry_view(e)) == duplicate_keys_spec(),
{
    let v = vec![
        entry(AC_AUTH_PROP, vec![CONFIG_FJALL_AUTHS, CONF_QUERY_AUTH]),
        entry("ac.auth.child", vec!["sc.fjall.auths.child", "query.auth.child"]),
        entry(AC_COORDINATOR_PROP, vec![CONFIG_FJALL_COORDINATORS]),
        entry("ac.coordinator.child", vec!["sc.fjall.coordinators.child"]),
        entry(AC_INSTANCE_PROP, vec![CONFIG_FJALL_INSTANCE]),
        entry("ac.instance.child", vec!["sc.fjall.instancename.child"]),
        entry(AC_MOCK_PROP, vec![CONFIG_USE_MOCK_INSTANCE]),
        entry("ac.mock.child", vec!["sc.use_mock_instance.child"]),
        entry(AC_PWD_PROP, vec![CONFIG_FJALL_PASSWORD]),
        entry("ac.pwd.child", vec!["sc.fjall.password.child"]),
        entry(AC_USERNAME_PROP, vec![CONFIG_FJALL_USER]),
        entry("ac.username.child", vec!["sc.fjall.username.child"]),
        entry(TABLE_PREFIX_PROPERTY, vec![CONFIG_FJALL_TBL_PREFIX, RDF_TBL_PREFIX]),
        entry("rdf.tablePrefix.child", vec!["sc.fjall.tableprefix.child", "rdf.tablePrefix.child"]),
    ];
    assert(v@.len() == 14);
    assert(v@[0int].1@.map_values(|s: &'static str| s@) =~= duplicate_keys_spec()[0int].1);
    assert(v@[1int].1@.map_values(|s: &'static str| s@) =~= duplicate_keys_spec()[1int].1);
    assert(v@[2int].1@.map_values(|s: &'static str| s@) =~= duplicate_keys_spec()[2int].1);
    assert(v@[3int].1@.map_values(|s: &'static str| s@) =~= duplicate_keys_spec()[3int].1);
    assert(v@[4int].1@.map_values(|s: &'static str| s@) =~= duplicate_keys_spec()[4int].1);
    assert(v@[5int].1@.map_values(|s: &'static str| s@) =~= duplicate_keys_spec()[5int].1);
    assert(v@[6int].1@.map_values(|s: &'static str| s@) =~= duplicate_keys_spec()[6int].1);
    assert(v@[7int].1@.map_values(|s: &'static str| s@) =~= duplicate_keys_spec()[7int].1);
    assert(v@[8int].1@.map_values(|s: &'static str| s@) =~= duplicate_keys_spec()[8int].1);
    assert(v@[9int].1@.map_values(|s: &'static str| s@) =~= duplicate_keys_spec()[9int].1);
    assert(v@[10int].1@.map_values(|s: &'static str| s@) =~= duplicate_keys_spec()[10int].1);
    assert(v@[11int].1@.map_values(|s: &'static str| s@) =~= duplicate_keys_spec()[11int].1);
    assert(v@[12int].1@.map_values(|s: &'static str| s@) =~= duplicate_keys_spec()[12int].1);
    assert(v@[13int].1@.map_values(|s: &'static str| s@) =~= duplicate_keys_spec()[13int].1);
    assert(v@.map_values(|e: (&'static str, Vec<&'static str>)| dup_entry_view(e)) =~= duplicate_keys_spec());
    v
}

/// The settings after `v` is set under each key in turn.
pub open spec fn set_all(m: Map<Seq<char>, Seq<char>>, ks: Seq<Seq<char>>, v: Seq<char>) -> Map<Seq<char>, Seq<char>>
    decreases ks.len(),
{
    if ks.len() == 0 {
        m
    } else {
        set_all(m, ks.drop_last(), v).insert(ks.last(), v)
    }
}

/// The settings after each set key's value is copied to its duplicate keys, key by key.
pub open spec fn duplicates_applied(m: Map<Seq<char>, Seq<char>>, es: Seq<(Seq<char>, Seq<Seq<char>>)>) -> Map<
    Seq<char>,
    Seq<char>,
>
    decreases es.len(),
{
    if es.len() == 0 {
        m
    } else {
        let m1 = duplicates_applied(m, es.drop_last());
        let e = es.last();
        if m1.contains_key(e.0) {
            set_all(m1, e.1, m1[e.0])
        } else {
            m1
        }
    }
}

fn set_keys(config: &mut ToolConfig, keys: &Vec<&'static str>, value: &str)
    ensures
        final(config).view() == set_all(old(config).view(), keys@.map_values(|s: &'static str| s@), value@),
{
    let ghost m0 = config.view();
    let mut i: usize = 0;
    while i < keys.len()
        invariant
            i <= keys.len(),
            config.view() == set_all(m0, keys@.map_values(|s: &'static str| s@).take(i as int), value@),
        decreases keys.len() - i,
    {
        config.set(keys[i], value);
        assert(keys@.map_values(|s: &'static str| s@).take(i + 1).drop_last() =~= keys@.map_values(
            |s: &'static str| s@,
        ).take(i as int));
        i = i + 1;
    }
    assert(keys@.map_values(|s: &'static str| s@).take(i as int) =~= keys@.map_values(|s: &'static str| s@));
}

/// Copies the value of each set key to its duplicate keys.
pub fn set_duplicate_keys(config: &mut ToolConfig)
    ensures
        final(config).view() == duplicates_applied(old(config).view(), duplicate_keys_spec()),
{
    let map = duplicate_key_map();
    let ghost es = map@.map_values(|e: (&'static str, Vec<&'static str>)| dup_entry_view(e));
    let ghost m0 = config.view();
    let mut i: usize = 0;
    while i < map.len()
        invariant
            i <= map.len(),
            es == map@.map_values(|e: (&'static str, Vec<&'static str>)| dup_entry_view(e)),
            config.view() == duplicates_applied(m0, es.take(i as int)),
        decreases map.len() - i,
    {
        assert(es.take(i + 1).drop_last() =~= es.take(i as int));
        let key = map[i].0;
        match config.get(key) {
            Some(v) => {
                let value = to_owned(v);
                set_keys(config, &map[i].1, value.as_str());
            },
            None => {},
        }
        i = i + 1;
    }
    assert(es.take(i as int) =~= es);
}

/// Sets a property and its duplicate keys to a value.
pub fn set_duplicate_keys_for_property(config: &mut ToolConfig, property: &str, value: &str)
    ensures
        final(config).view() == ({
            let m = old(config).view().insert(property@, value@);
            match crate::seqs::first_index_of(duplicate_keys_spec().map_values(|e: (Seq<char>, Seq<Seq<char>>)| e.0), property@) {
                Some(i) => set_all(m, duplicate_keys_spec()[i].1, value@),
                None => m,
            }
        }),
{
    config.set(property, value);
    let map = duplicate_key_map();
    let ghost es = map@.map_values(|e: (&'static str, Vec<&'static str>)| dup_entry_view(e));
    let ghost keys = es.map_values(|e: (Seq<char>, Seq<Seq<char>>)| e.0);
    let mut i: usize = 0;
    while i < map.len() && !str_eq(map[i].0, property)
        invariant
            i <= map.len(),
            es == map@.map_values(|e: (&'static str, Vec<&'static str>)| dup_entry_view(e)),
            keys == es.map_values(|e: (Seq<char>, Seq<Seq<char>>)| e.0),
            forall|k: int| 0 <= k < i ==> keys[k] != property@,
        decreases map.len() - i,
    {
        i = i + 1;
    }
    if i < map.len() {
        proof {
            crate::seqs::lemma_first_index_of_at(keys, property@, i as int);
        }
        set_keys(config, &map[i].1, value);
    } else {
        proof {
            crate::seqs::lemma_first_index_of_none(keys, property@);
        }
    }
}

/// Copies a parent property to its `.child` property (the empty text when unset).
pub fn copy_parent_prop_to_child(config: &mut ToolConfig, parent_property_name: &str)
    ensures
        final(config).view() == old(config).view().insert(
            parent_property_name@ + CHILD_SUFFIX@,
            match lookup_setting(old(config).view(), parent_property_name@) {
                Some(v) => v,
                None => Seq::<char>::empty(),
            },
        ),
{
    let value = match config.get(parent_property_name) {
        Some(v) => to_owned(v),
        None => String::new(),
    };
    let key = concat(parent_property_name, CHILD_SUFFIX);
    config.set(key.as_str(), value.as_str());
}

/// Sets a property of the child from the parent's `.child` property (the empty text when
/// unset).
pub fn convert_child_prop_to_parent_prop(child_config: &mut ToolConfig, parent_config: &ToolConfig, parent_property_name: &str)
    ensures
        final(child_config).view() == old(child_config).view().insert(
            parent_property_name@,
            match lookup_setting(parent_config.view(), parent_property_name@ + CHILD_SUFFIX@) {
                Some(v) => v,
                None => Seq::<char>::empty(),
            },
        ),
{
    let key = concat(parent_property_name, CHILD_SUFFIX);
    let value = match parent_config.get(key.as_str()) {
        Some(v) => to_owned(v),
        None => String::new(),
    };
    child_config.set(parent_property_name, value.as_str());
}

/// The kind of instance a child is created as.
#[derive(Clone, Copy, PartialEq, Eq, Structural)]
pub enum InstanceType {
    Mock,
    Mini,
    Distributed,
}

impl InstanceType {
    pub fn as_config_value(self) -> (r: &'static str)
        ensures
            r@ == match self {
                InstanceType::Mock => "MOCK"@,
                InstanceType::Mini => "MINI"@,
                InstanceType::Distributed => "DISTRIBUTED"@,
            },
    {
        match self {
            InstanceType::Mock => "MOCK",
            InstanceType::Mini => "MINI",
            InstanceType::Distributed => "DISTRIBUTED",
        }
    }
}

// ---------------------------------------------------------------------------
// Merging
// ---------------------------------------------------------------------------

/// What a merge did.
pub struct MergeReport {
    pub added_to_parent: usize,
    pub deleted_from_parent: usize,
    pub visibility_updates: usize,
}

/// The visibility of a row kept in both instances: one side's when the other is empty or
/// equal, else either of them.
pub open spec fn combined_visibility(p: Seq<char>, c: Seq<char>) -> Seq<char> {
    if p.len() == 0 {
        c
    } else if c.len() == 0 || p == c {
        p
    } else {
        "("@ + p + ")|("@ + c + ")"@
    }
}

pub fn combine_column_visibilities(parent: &str, child: &str) -> (r: String)
    ensures
        r@ == combined_visibility(parent@, child@),
{
    if parent.unicode_len() == 0 {
        to_owned(child)
    } else if child.unicode_len() == 0 || str_eq(parent, child) {
        to_owned(parent)
    } else {
        let mut out = to_owned("(");
        push_str(&mut out, parent);
        push_str(&mut out, ")|(");
        push_str(&mut out, child);
        push_str(&mut out, ")");
        out
    }
}

/// The query authorizations of a configuration: its comma-separated list, trimmed, without
/// empty entries.
pub open spec fn auth_list(m: Map<Seq<char>, Seq<char>>) -> Set<Seq<char>> {
    let text = match lookup_setting(m, CONF_QUERY_AUTH@) {
        Some(v) => v,
        None => Seq::<char>::empty(),
    };
    split_spec(text, ',').map_values(|p: Seq<char>| trim_spec(p)).filter(|p: Seq<char>| p.len() > 0).to_set()
}

/// The distinct query authorizations of a configuration, in increasing order.
pub fn query_auths(config: &FjallRdfConfiguration) -> (r: Vec<String>)
    ensures
        crate::sorted::strictly_sorted(views(r@)),
        views(r@).to_set() == auth_list(config.map()),
{
    let text = match config.get(CONF_QUERY_AUTH) {
        Some(v) => v.clone(),
        None => String::new(),
    };
    let ghost m = config.map();
    assert(text@ == match lookup_setting(m, CONF_QUERY_AUTH@) {
        Some(v) => v,
        None => Seq::<char>::empty(),
    }) by {
        reveal_strlit("");
    }
    let parts = split_char(text.as_str(), ',');
    let ghost all = views(parts@).map_values(|p: Seq<char>| trim_spec(p));
    let mut out: Vec<String> = Vec::new();
    let mut i: usize = 0;
    assert(views(out@).to_set() =~= all.take(0).filter(|p: Seq<char>| p.len() > 0).to_set()) by {
        assert(all.take(0) =~= Seq::<Seq<char>>::empty());
        crate::seqs::lemma_filter_take_zero(all, |p: Seq<char>| p.len() > 0);
    }
    while i < parts.len()
        invariant
            i <= parts.len(),
            all == views(parts@).map_values(|p: Seq<char>| trim_spec(p)),
            crate::sorted::strictly_sorted(views(out@)),
            views(out@).to_set() == all.take(i as int).filter(|p: Seq<char>| p.len() > 0).to_set(),
        decreases parts.len() - i,
    {
        let t = trim(parts[i].as_str());
        proof {
            crate::seqs::lemma_filter_take_step(all, |p: Seq<char>| p.len() > 0, i as int);
        }
        if t.unicode_len() > 0 {
            let ghost before = views(out@);
            crate::sorted::insert_sorted_string(&mut out, t);
            proof {
                let f = all.take(i as int).filter(|p: Seq<char>| p.len() > 0);
                crate::seqs::lemma_insert_to_set(f, f.len() as int, all[i as int]);
                assert(f.insert(f.len() as int, all[i as int]) =~= f.push(all[i as int]));
            }
        }
        i = i + 1;
    }
    assert(all.take(i as int) =~= all);
    out
}

/// Whether a visibility is allowed by the given authorizations.
pub fn visibility_authorized(visibility: &str, auths: &Vec<String>) -> (r: bool)
    ensures
        r == crate::pcj::visibility_allowed_spec(visibility@, views(auths@)),
{
    crate::pcj::visibility_allowed(visibility, auths)
}

// ---------------------------------------------------------------------------
// Parent and child instances
// ---------------------------------------------------------------------------

/// The settings of one instance of a dual-instance test.
pub struct FjallInstanceConfig {
    pub label: String,
    pub is_mock: bool,
    pub should_create_indices: bool,
    pub is_read_only: bool,
    pub initially_exists: bool,
    pub user: String,
    pub password: String,
    pub instance: String,
    pub table_prefix: String,
    pub auth: String,
}

/// A parent and a child instance.
pub struct FjallDualInstanceDriver {
    pub is_mock: bool,
    pub should_create_indices: bool,
    pub is_parent_read_only: bool,
    pub is_child_read_only: bool,
    pub does_child_initially_exist: bool,
    pub parent: FjallInstanceConfig,
    pub child: FjallInstanceConfig,
}

impl FjallDualInstanceDriver {
    /// The two instances: the parent exists from the start; a mock instance has its own user,
    /// a real one `root`.
    pub fn new(
        is_mock: bool,
        should_create_indices: bool,
        is_parent_read_only: bool,
        is_child_read_only: bool,
        does_child_initially_exist: bool,
    ) -> (r: Self)
        ensures
            r.is_mock == is_mock,
            r.should_create_indices == should_create_indices,
            r.is_parent_read_only == is_parent_read_only,
            r.is_child_read_only == is_child_read_only,
            r.does_child_initially_exist == does_child_initially_exist,
            r.parent.label@ == "Parent"@,
            r.parent.is_mock == is_mock,
            r.parent.should_create_indices == should_create_indices,
            r.parent.is_read_only == is_parent_read_only,
            r.parent.initially_exists,
            r.parent.user@ == if is_mock {
                PARENT_USER_NAME@
            } else {
                "root"@
            },
            r.parent.password@ == PARENT_PASSWORD@,
            r.parent.instance@ == PARENT_INSTANCE@,
            r.parent.table_prefix@ == PARENT_TABLE_PREFIX@,
            r.parent.auth@ == PARENT_AUTH@,
            r.child.label@ == "Child"@,
            r.child.is_mock == is_mock,
            r.child.should_create_indices == should_create_indices,
            r.child.is_read_only == is_child_read_only,
            r.child.initially_exists == does_child_initially_exist,
            r.child.user@ == if is_mock {
                CHILD_USER_NAME@
            } else {
                "root"@
            },
            r.child.password@ == CHILD_PASSWORD@,
            r.child.instance@ == CHILD_INSTANCE@,
            r.child.table_prefix@ == CHILD_TABLE_PREFIX@,
            r.child.auth@ == CHILD_AUTH@,
    {
        let parent_user = if is_mock {
            PARENT_USER_NAME
        } else {
            "root"
        };
        let child_user = if is_mock {
            CHILD_USER_NAME
        } else {
            "root"
        };
        FjallDualInstanceDriver {
            is_mock,
            should_create_indices,
            is_parent_read_only,
            is_child_read_only,
            does_child_initially_exist,
            parent: FjallInstanceConfig {
                label: to_owned("Parent"),
                is_mock,
                should_create_indices,
                is_read_only: is_parent_read_only,
                initially_exists: true,
                user: to_owned(parent_user),
                password: to_owned(PARENT_PASSWORD),
                instance: to_owned(PARENT_INSTANCE),
                table_prefix: to_owned(PARENT_TABLE_PREFIX),
                auth: to_owned(PARENT_AUTH),
            },
            child: FjallInstanceConfig {
                label: to_owned("Child"),
                is_mock,
                should_create_indices,
                is_read_only: is_child_read_only,
                initially_exists: does_child_initially_exist,
                user: to_owned(child_user),
                password: to_owned(CHILD_PASSWORD),
                instance: to_owned(CHILD_INSTANCE),
                table_prefix: to_owned(CHILD_TABLE_PREFIX),
                auth: to_owned(CHILD_AUTH),
            },
        }
    }

    /// The tool settings of the parent.
    pub fn parent_config(&self) -> (r: ToolConfig)
        ensures
            r.view() == instance_settings(self.parent),
    {
        instance_tool_config(&self.parent)
    }

    /// The tool settings of the child.
    pub fn child_config(&self) -> (r: ToolConfig)
        ensures
            r.view() == instance_settings(self.child),
    {
        instance_tool_config(&self.child)
    }
}

/// The tool settings of an instance, with the duplicate keys set.
pub open spec fn instance_settings(i: FjallInstanceConfig) -> Map<Seq<char>, Seq<char>> {
    let m = Map::<Seq<char>, Seq<char>>::empty().insert(AC_MOCK_PROP@, crate::fjall::bool_text(i.is_mock)).insert(
        AC_INSTANCE_PROP@,
        i.instance@,
    ).insert(AC_USERNAME_PROP@, i.user@).insert(AC_PWD_PROP@, i.password@).insert(
        TABLE_PREFIX_PROPERTY@,
        i.table_prefix@,
    ).insert(AC_AUTH_PROP@, i.auth@).insert(AC_COORDINATOR_PROP@, "localhost"@);
    duplicates_applied(m, duplicate_keys_spec())
}

fn instance_tool_config(instance: &FjallInstanceConfig) -> (r: ToolConfig)
    ensures
        r.view() == instance_settings(*instance),
{
    let mut config = ToolConfig::new();
    config.set(AC_MOCK_PROP, crate::fjall::bool_str(instance.is_mock));
    config.set(AC_INSTANCE_PROP, instance.instance.as_str());
    config.set(AC_USERNAME_PROP, instance.user.as_str());
    config.set(AC_PWD_PROP, instance.password.as_str());
    config.set(TABLE_PREFIX_PROPERTY, instance.table_prefix.as_str());
    config.set(AC_AUTH_PROP, instance.auth.as_str());
    config.set(AC_COORDINATOR_PROP, "localhost");
    set_duplicate_keys(&mut config);
    config
}

// ---------------------------------------------------------------------------
// Startup scripts
// ---------------------------------------------------------------------------

#[derive(Clone, Copy, PartialEq, Eq, Structural)]
pub enum StartupScriptKind {
    CopyTool,
    MergeTool,
    BatchCopyTool,
    BatchMergeTool,
}

#[derive(Clone, Copy, PartialEq, Eq, Structural)]
pub enum StartupScriptPlatform {
    Unix,
    Windows,
}

/// A script that starts a tool.
pub struct StartupScript {
    pub name: &'static str,
    pub platform: StartupScriptPlatform,
    pub command: &'static str,
    pub launch_command: &'static str,
    pub artifact_pattern: &'static str,
    pub config_path: &'static str,
    pub log_config_path: Option<&'static str>,
}

/// The script file name of a tool on a platform.
pub open spec fn script_name(kind: StartupScriptKind, platform: StartupScriptPlatform) -> Seq<char> {
    let base = match kind {
        StartupScriptKind::CopyTool => "copy_tool"@,
        StartupScriptKind::MergeTool => "merge_tool"@,
        StartupScriptKind::BatchCopyTool => "batch_copy_tool"@,
        StartupScriptKind::BatchMergeTool => "batch_merge_tool"@,
    };
    base + match platform {
        StartupScriptPlatform::Unix => ".sh"@,
        StartupScriptPlatform::Windows => ".bat"@,
    }
}

/// Whether a tool copies rather than merges.
pub open spec fn copies(kind: StartupScriptKind) -> bool {
    kind == StartupScriptKind::CopyTool || kind == StartupScriptKind::BatchCopyTool
}

/// Whether a tool runs interactively, with its own logging settings.
pub open spec fn interactive(kind: StartupScriptKind) -> bool {
    kind == StartupScriptKind::CopyTool || kind == StartupScriptKind::MergeTool
}

/// The script that starts a tool on a platform.
pub fn startup_script(kind: StartupScriptKind, platform: StartupScriptPlatform) -> (r: StartupScript)
    ensures
        r.name@ == script_name(kind, platform),
        r.platform == platform,
        r.command@ == if copies(kind) {
            COPY_COMMAND@
        } else {
            MERGE_COMMAND@
        },
        r.launch_command@ == r.command@,
        r.artifact_pattern@ == "omrya-*"@,
        r.config_path@ == if copies(kind) {
            "config/copy_tool.toml"@
        } else {
            "config/merge_tool.toml"@
        },
        match r.log_config_path {
            Some(p) => interactive(kind) && p@ == if copies(kind) {
                "config/copy_tool_logging.toml"@
            } else {
                "config/merge_tool_logging.toml"@
            },
            None => !interactive(kind),
        },
{
    let unix = match platform {
        StartupScriptPlatform::Unix => true,
        StartupScriptPlatform::Windows => false,
    };
    let (name, command, config_path, log_config_path): (&'static str, &'static str, &'static str, Option<&'static str>) = match kind {
        StartupScriptKind::CopyTool => (
            if unix {
                "copy_tool.sh"
            } else {
                "copy_tool.bat"
            },
            COPY_COMMAND,
            "config/copy_tool.toml",
            Some("config/copy_tool_logging.toml"),
        ),
        StartupScriptKind::MergeTool => (
            if unix {
                "merge_tool.sh"
            } else {
                "merge_tool.bat"
            },
            MERGE_COMMAND,
            "config/merge_tool.toml",
            Some("config/merge_tool_logging.toml"),
        ),
        StartupScriptKind::BatchCopyTool => (
            if unix {
                "batch_copy_tool.sh"
            } else {
                "batch_copy_tool.bat"
            },
            COPY_COMMAND,
            "config/copy_tool.toml",
            None,
        ),
        StartupScriptKind::BatchMergeTool => (
            if unix {
                "batch_merge_tool.sh"
            } else {
                "batch_merge_tool.bat"
            },
            MERGE_COMMAND,
            "config/merge_tool.toml",
            None,
        ),
    };
    proof {
        reveal_strlit("copy_tool");
        reveal_strlit("merge_tool");
        reveal_strlit("batch_copy_tool");
        reveal_strlit("batch_merge_tool");
        reveal_strlit(".sh");
        reveal_strlit(".bat");
        reveal_strlit("copy_tool.sh");
        reveal_strlit("copy_tool.bat");
        reveal_strlit("merge_tool.sh");
        reveal_strlit("merge_tool.bat");
        reveal_strlit("batch_copy_tool.sh");
        reveal_strlit("batch_copy_tool.bat");
        reveal_strlit("batch_merge_tool.sh");
        reveal_strlit("batch_merge_tool.bat");
        assert(name@ =~= script_name(kind, platform));
    }
    StartupScript {
        name,
        platform,
        command,
        launch_command: command,
        artifact_pattern: "omrya-*",
        config_path,
        log_config_path,
    }
}

} // verus!
