use vstd::prelude::*;

use crate::build_info::strs;
use crate::seqs::{first_index_of, lemma_first_index_of_at, lemma_first_index_of_none};
use crate::text::{
    contains, contains_seq, ends_with, ends_with_seq, parse_in_range, parse_u64,
    parse_unsigned_spec, replace_char, replace_char_spec, split_char, split_once_char,
    split_once_spec, split_spec, starts_with, starts_with_seq, str_eq, to_ascii_lowercase,
    to_ascii_lowercase_spec, trim_start_matches, trim_start_matches_spec, views,
};

verus! {

#[derive(Clone, Copy, Debug, PartialEq, Eq)]
pub struct ApacheRatCheckConfig {
    pub plugin_group_id: &'static str,
    pub plugin_artifact_id: &'static str,
    pub active_in_default_build: bool,
    pub execution_id: &'static str,
    pub goal: &'static str,
    pub excludes: &'static [&'static str],
}

#[derive(Clone, Copy, Debug, PartialEq, Eq)]
pub struct ApacheRatModuleConfig {
    pub module_dir: &'static str,
    pub configured_in_plugin_management: bool,
    pub excludes: &'static [&'static str],
}

#[derive(Clone, Copy, Debug, PartialEq, Eq)]
pub struct EclipseLifecycleMapping {
    pub plugin_group_id: &'static str,
    pub plugin_artifact_id: &'static str,
    pub plugin_version: &'static str,
    pub affects_maven_build: bool,
    pub ignored_execution: PluginExecutionIgnore,
}

#[derive(Clone, Copy, Debug, PartialEq, Eq)]
pub struct PluginExecutionIgnore {
    pub plugin_group_id: &'static str,
    pub plugin_artifact_id: &'static str,
    pub version_range: &'static str,
    pub goal: &'static str,
    pub action: &'static str,
}

#[derive(Clone, Copy, Debug, PartialEq, Eq)]
pub struct JavaSourceLicenseHeader {
    pub path: &'static str,
    pub package_name: &'static str,
    pub header_position: LicenseHeaderPosition,
}

#[derive(Clone, Copy, Debug, PartialEq, Eq)]
pub struct JavaSourceLicenseCorrection {
    pub source: JavaSourceLicenseHeader,
    pub required_header_marker: &'static str,
    pub removed_header_markers: &'static [&'static str],
}

#[derive(Clone, Copy, Debug, PartialEq, Eq)]
pub struct FileLicenseHeader {
    pub path: &'static str,
    pub comment_style: LicenseCommentStyle,
    pub header_position: FileLicenseHeaderPosition,
}

#[derive(Clone, Copy, Debug, PartialEq, Eq)]
pub struct DeletedGeneratedTestArtifact {
    pub path: &'static str,
    pub reason: &'static str,
}

#[derive(Clone, Copy, Debug, PartialEq, Eq, Structural)]
pub enum LicenseHeaderPosition {
    AfterPackageDeclaration,
    BeforePackageDeclaration,
}

#[derive(Clone, Copy, Debug, PartialEq, Eq, Structural)]
pub enum LicenseCommentStyle {
    Html,
    Xml,
    Shell,
    WindowsBatch,
}

#[derive(Clone, Copy, Debug, PartialEq, Eq, Structural)]
pub enum FileLicenseHeaderPosition {
    FileStart,
    AfterXmlDeclaration,
    AfterShebang,
}

pub const TINKERPOP_LOG4J_PATH: &'static str =
    "extras/tinkerpop.rya/src/test/java/com/tinkerpop/blueprints/impls/sail/log4j.properties";

pub const ASF_SOURCE_LICENSE_MARKER: &'static str =
    "Licensed to the Apache Software Foundation (ASF)";

/// A module's RAT settings as values.
pub open spec fn rat_module(c: ApacheRatModuleConfig) -> (Seq<char>, bool, Seq<Seq<char>>) {
    (c.module_dir@, c.configured_in_plugin_management, strs(c.excludes@))
}

/// A Java license header as values.
pub open spec fn java_header(h: JavaSourceLicenseHeader) -> (
    Seq<char>,
    Seq<char>,
    LicenseHeaderPosition,
) {
    (h.path@, h.package_name@, h.header_position)
}

/// A license correction as values.
pub open spec fn java_correction(c: JavaSourceLicenseCorrection) -> (
    (Seq<char>, Seq<char>, LicenseHeaderPosition),
    Seq<char>,
    Seq<Seq<char>>,
) {
    (java_header(c.source), c.required_header_marker@, strs(c.removed_header_markers@))
}

/// A file license header as values.
pub open spec fn file_header(h: FileLicenseHeader) -> (
    Seq<char>,
    LicenseCommentStyle,
    FileLicenseHeaderPosition,
) {
    (h.path@, h.comment_style, h.header_position)
}

/// A deleted artifact as values.
pub open spec fn artifact(a: DeletedGeneratedTestArtifact) -> (Seq<char>, Seq<char>) {
    (a.path@, a.reason@)
}

pub open spec fn path_of_java_header(e: (Seq<char>, Seq<char>, LicenseHeaderPosition)) -> Seq<char> {
    e.0
}

pub open spec fn path_of_java_correction(
    e: ((Seq<char>, Seq<char>, LicenseHeaderPosition), Seq<char>, Seq<Seq<char>>),
) -> Seq<char> {
    e.0.0
}

pub open spec fn path_of_file_header(
    e: (Seq<char>, LicenseCommentStyle, FileLicenseHeaderPosition),
) -> Seq<char> {
    e.0
}

pub open spec fn path_of_artifact(e: (Seq<char>, Seq<char>)) -> Seq<char> {
    e.0
}

pub open spec fn path_of_rat_module(e: (Seq<char>, bool, Seq<Seq<char>>)) -> Seq<char> {
    e.0
}

impl ApacheRatModuleConfig {
    pub fn plugin_group_id(&self) -> (r: &'static str)
        ensures
            r@ == "org.apache.rat"@,
    {
        "org.apache.rat"
    }

    pub fn plugin_artifact_id(&self) -> (r: &'static str)
        ensures
            r@ == "apache-rat-plugin"@,
    {
        "apache-rat-plugin"
    }
}

/// The RAT check that runs in the default build; it excludes nothing globally.
pub fn apache_rat_check_config() -> (r: ApacheRatCheckConfig)
    ensures
        r.plugin_group_id@ == "org.apache.rat"@,
        r.plugin_artifact_id@ == "apache-rat-plugin"@,
        r.active_in_default_build,
        r.execution_id@ == "check-licenses"@,
        r.goal@ == "check"@,
        r.excludes@.len() == 0,
{
    ApacheRatCheckConfig {
        plugin_group_id: "org.apache.rat",
        plugin_artifact_id: "apache-rat-plugin",
        active_in_default_build: true,
        execution_id: "check-licenses",
        goal: "check",
        excludes: &[],
    }
}

/// The Eclipse mapping that ignores the RAT check in the IDE.
pub fn apache_rat_eclipse_lifecycle_mapping() -> (r: EclipseLifecycleMapping)
    ensures
        r.plugin_group_id@ == "org.eclipse.m2e"@,
        r.plugin_artifact_id@ == "lifecycle-mapping"@,
        r.plugin_version@ == "1.0.0"@,
        !r.affects_maven_build,
        r.ignored_execution.plugin_group_id@ == "org.apache.rat"@,
        r.ignored_execution.plugin_artifact_id@ == "apache-rat-plugin"@,
        r.ignored_execution.version_range@ == "[0.11,)"@,
        r.ignored_execution.goal@ == "check"@,
        r.ignored_execution.action@ == "ignore"@,
{
    EclipseLifecycleMapping {
        plugin_group_id: "org.eclipse.m2e",
        plugin_artifact_id: "lifecycle-mapping",
        plugin_version: "1.0.0",
        affects_maven_build: false,
        ignored_execution: PluginExecutionIgnore {
            plugin_group_id: "org.apache.rat",
            plugin_artifact_id: "apache-rat-plugin",
            version_range: "[0.11,)",
            goal: "check",
            action: "ignore",
        },
    }
}

/// The numeric components of a dotted version (before any `-`), when all parse as `u64`.
pub open spec fn dotted_parts(version: Seq<char>) -> Seq<Seq<char>> {
    let base = match split_once_spec(version, '-') {
        Some((b, _)) => b,
        None => version,
    };
    split_spec(base, '.')
}

/// The numeric components of a dotted version (before any `-`), when all parse as `u64`.
pub open spec fn dotted_version(version: Seq<char>) -> Option<Seq<int>> {
    let parts = dotted_parts(version);
    if forall|i: int|
        0 <= i < parts.len() ==> parse_in_range(#[trigger] parse_unsigned_spec(parts[i]), 0, u64::MAX as int) is Some {
        Some(parts.map_values(|p: Seq<char>| parse_unsigned_spec(p)->0))
    } else {
        None
    }
}

/// Lexicographic `>=` on integer sequences, a shorter prefix sorting first (as `Vec` compares).
pub open spec fn seq_ge(a: Seq<int>, b: Seq<int>) -> bool
    decreases a.len(),
{
    if b.len() == 0 {
        true
    } else if a.len() == 0 {
        false
    } else if a[0] != b[0] {
        a[0] > b[0]
    } else {
        seq_ge(a.drop_first(), b.drop_first())
    }
}

/// The numeric components of a dotted version.
fn parse_dotted_version(version: &str) -> (r: Option<Vec<u64>>)
    ensures
        match r {
            Some(v) => dotted_version(version@) matches Some(d) && d == v@.map_values(
                |x: u64| x as int,
            ),
            None => dotted_version(version@) is None,
        },
{
    let base = match split_once_char(version, '-') {
        Some((b, _)) => b,
        None => crate::text::to_owned(version),
    };
    assert(base@ == match split_once_spec(version@, '-') {
        Some((b, _)) => b,
        None => version@,
    });
    let parts = split_char(base.as_str(), '.');
    let ghost pv = views(parts@);
    assert(pv == dotted_parts(version@));
    let mut out: Vec<u64> = Vec::new();
    let mut i: usize = 0;
    while i < parts.len()
        invariant
            pv == views(parts@),
            pv == dotted_parts(version@),
            i <= parts@.len(),
            out@.len() == i,
            forall|k: int|
                0 <= k < i ==> parse_in_range(#[trigger] parse_unsigned_spec(pv[k]), 0, u64::MAX as int)
                    == Some(out@[k] as int),
        decreases parts.len() - i,
    {
        assert(pv[i as int] == parts@[i as int]@);
        match parse_u64(parts[i].as_str()) {
            Some(v) => {
                out.push(v);
            },
            None => {
                assert(parse_in_range(parse_unsigned_spec(pv[i as int]), 0, u64::MAX as int) is None);
                assert(!(forall|k: int|
                    0 <= k < pv.len() ==> parse_in_range(#[trigger] parse_unsigned_spec(pv[k]), 0, u64::MAX as int) is Some));
                assert(dotted_version(version@) is None);
                return None;
            },
        }
        i = i + 1;
    }
    proof {
        let d = pv.map_values(|p: Seq<char>| parse_unsigned_spec(p)->0);
        assert forall|k: int| 0 <= k < pv.len() implies parse_in_range(
            #[trigger] parse_unsigned_spec(pv[k]),
            0,
            u64::MAX as int,
        ) is Some by {}
        assert(d =~= out@.map_values(|x: u64| x as int));
    }
    Some(out)
}

fn seq_ge_exec(a: &[u64], b: &[u64]) -> (r: bool)
    ensures
        r == seq_ge(a@.map_values(|x: u64| x as int), b@.map_values(|x: u64| x as int)),
{
    let ghost am = a@.map_values(|x: u64| x as int);
    let ghost bm = b@.map_values(|x: u64| x as int);
    let mut i: usize = 0;
    assert(am.skip(0) =~= am);
    assert(bm.skip(0) =~= bm);
    while i < a.len() && i < b.len()
        invariant
            am == a@.map_values(|x: u64| x as int),
            bm == b@.map_values(|x: u64| x as int),
            i <= a.len(),
            i <= b.len(),
            seq_ge(am, bm) == seq_ge(am.skip(i as int), bm.skip(i as int)),
        decreases a.len() - i,
    {
        if a[i] != b[i] {
            return a[i] > b[i];
        }
        assert(am.skip(i as int).drop_first() =~= am.skip(i + 1));
        assert(bm.skip(i as int).drop_first() =~= bm.skip(i + 1));
        i = i + 1;
    }
    i == b.len()
}

/// Whether `version` is at least `lower_bound`, both read as dotted versions.
pub open spec fn satisfies_lower_bound(version: Seq<char>, lower_bound: Seq<char>) -> bool {
    match (dotted_version(version), dotted_version(lower_bound)) {
        (Some(v), Some(l)) => seq_ge(v, l),
        _ => false,
    }
}

fn version_satisfies_lower_bound(version: &str, lower_bound: &str) -> (r: bool)
    ensures
        r == satisfies_lower_bound(version@, lower_bound@),
{
    match (parse_dotted_version(version), parse_dotted_version(lower_bound)) {
        (Some(v), Some(l)) => seq_ge_exec(v.as_slice(), l.as_slice()),
        _ => false,
    }
}

/// Whether the Eclipse mapping ignores the given plugin execution: the RAT check, at version 0.11
/// or later.
pub fn eclipse_mapping_ignores_execution(
    group_id: &str,
    artifact_id: &str,
    version: &str,
    goal: &str,
) -> (r: bool)
    ensures
        r == (group_id@ == "org.apache.rat"@ && artifact_id@ == "apache-rat-plugin"@ && goal@
            == "check"@ && satisfies_lower_bound(version@, "0.11"@)),
{
    let mapping = apache_rat_eclipse_lifecycle_mapping();
    let ignored = mapping.ignored_execution;
    !mapping.affects_maven_build && str_eq(group_id, ignored.plugin_group_id) && str_eq(
        artifact_id,
        ignored.plugin_artifact_id,
    ) && str_eq(goal, ignored.goal) && str_eq(ignored.action, "ignore")
        && version_satisfies_lower_bound(version, "0.11")
}

/// A path with leading `./` removed and `\` turned to `/`.
pub open spec fn normalized_path(path: Seq<char>) -> Seq<char> {
    replace_char_spec(trim_start_matches_spec(path, "./"@), '\\', '/')
}

fn normalize_path(path: &str) -> (r: String)
    ensures
        r@ == normalized_path(path@),
{
    let trimmed = trim_start_matches(path, "./");
    replace_char(trimmed.as_str(), '\\', '/')
}

/// Whether a RAT exclusion pattern matches a path.
pub open spec fn rat_matches(pattern: Seq<char>, path: Seq<char>) -> bool {
    let n = normalized_path(path);
    let lower = to_ascii_lowercase_spec(n);
    if pattern == "**/*.ntriples"@ {
        ends_with_seq(lower, ".ntriples"@)
    } else if pattern == "**/*.trig"@ {
        ends_with_seq(lower, ".trig"@)
    } else if pattern == "**/*.ttl"@ {
        ends_with_seq(lower, ".ttl"@)
    } else if pattern == "**/*.owl"@ {
        ends_with_seq(lower, ".owl"@)
    } else if pattern == "**/*.nt"@ {
        ends_with_seq(lower, ".nt"@)
    } else if pattern == "**/*.data"@ {
        ends_with_seq(lower, ".data"@)
    } else if pattern == "**/resources/META-INF/services/**"@ {
        contains_seq(n, "/resources/META-INF/services/"@) || starts_with_seq(
            n,
            "resources/META-INF/services/"@,
        )
    } else if pattern == "blueprints.log"@ {
        n == "blueprints.log"@ || ends_with_seq(n, "/blueprints.log"@)
    } else {
        n == pattern
    }
}

fn rat_pattern_matches(pattern: &str, path: &str) -> (r: bool)
    ensures
        r == rat_matches(pattern@, path@),
{
    let normalized = normalize_path(path);
    let lower = to_ascii_lowercase(normalized.as_str());
    if str_eq(pattern, "**/*.ntriples") {
        ends_with(lower.as_str(), ".ntriples")
    } else if str_eq(pattern, "**/*.trig") {
        ends_with(lower.as_str(), ".trig")
    } else if str_eq(pattern, "**/*.ttl") {
        ends_with(lower.as_str(), ".ttl")
    } else if str_eq(pattern, "**/*.owl") {
        ends_with(lower.as_str(), ".owl")
    } else if str_eq(pattern, "**/*.nt") {
        ends_with(lower.as_str(), ".nt")
    } else if str_eq(pattern, "**/*.data") {
        ends_with(lower.as_str(), ".data")
    } else if str_eq(pattern, "**/resources/META-INF/services/**") {
        contains(normalized.as_str(), "/resources/META-INF/services/") || starts_with(
            normalized.as_str(),
            "resources/META-INF/services/",
        )
    } else if str_eq(pattern, "blueprints.log") {
        str_eq(normalized.as_str(), "blueprints.log") || ends_with(
            normalized.as_str(),
            "/blueprints.log",
        )
    } else {
        str_eq(normalized.as_str(), pattern)
    }
}

/// Whether the global RAT exclusions cover `path`; there are none, so never.
pub fn is_apache_rat_excluded(path: &str) -> (r: bool)
    ensures
        !r,
{
    let excludes: &'static [&'static str] = apache_rat_check_config().excludes;
    let mut i: usize = 0;
    while i < excludes.len()
        invariant
            excludes@.len() == 0,
        decreases excludes.len() - i,
    {
        if rat_pattern_matches(excludes[i], path) {
            return true;
        }
        i = i + 1;
    }
    false
}

/// The RAT settings of a module, looked up by its normalized path.
pub fn apache_rat_module_config(module_dir: &str) -> (r: Option<ApacheRatModuleConfig>)
    ensures
        match first_index_of(
            apache_rat_module_configs_keys(),
            normalized_path(module_dir@),
        ) {
            Some(i) => r matches Some(x) && rat_module(x) == apache_rat_module_configs_table()[i],
            None => r is None,
        },
{
    let normalized = normalize_path(module_dir);
    let table = apache_rat_module_configs();
    let ghost keys = apache_rat_module_configs_keys();
    let mut i: usize = 0;
    while i < table.len()
        invariant
            table@.map_values(|x: ApacheRatModuleConfig| rat_module(x))
                == apache_rat_module_configs_table(),
            keys == apache_rat_module_configs_keys(),
            normalized@ == normalized_path(module_dir@),
            keys.len() == apache_rat_module_configs_table().len(),
            forall|j: int| 0 <= j < keys.len() ==> keys[j] == path_of_rat_module(#[trigger] apache_rat_module_configs_table()[j]),
            i <= table@.len(),
            forall|j: int| 0 <= j < i ==> keys[j] != normalized@,
        decreases table.len() - i,
    {
        assert(rat_module(table@[i as int]) == apache_rat_module_configs_table()[i as int]);
        assert(keys[i as int] == path_of_rat_module(apache_rat_module_configs_table()[i as int]));
        if str_eq(table[i].module_dir, normalized.as_str()) {
            proof {
                lemma_first_index_of_at(keys, normalized@, i as int);
            }
            return Some(table[i]);
        }
        i = i + 1;
    }
    proof {
        lemma_first_index_of_none(keys, normalized@);
    }
    None
}

/// The exclusions of the module at `module_dir`, if it has RAT settings.
pub open spec fn module_excludes(module_dir: Seq<char>) -> Option<Seq<Seq<char>>> {
    match first_index_of(apache_rat_module_configs_keys(), normalized_path(module_dir)) {
        Some(i) => Some(apache_rat_module_configs_table()[i].2),
        None => None,
    }
}

/// Whether one of the module's exclusions matches `path`.
pub open spec fn excluded_for_module(module_dir: Seq<char>, path: Seq<char>) -> bool {
    module_excludes(module_dir) is Some && exists|k: int|
        0 <= k < module_excludes(module_dir)->0.len() && rat_matches(
            #[trigger] module_excludes(module_dir)->0[k],
            path,
        )
}

/// Whether the module's RAT exclusions cover `path`.
pub fn is_apache_rat_excluded_for_module(module_dir: &str, path: &str) -> (r: bool)
    ensures
        r == excluded_for_module(module_dir@, path@),
{
    match apache_rat_module_config(module_dir) {
        Some(config) => {
            let excludes = config.excludes;
            let ghost pats = strs(excludes@);
            proof {
                crate::seqs::lemma_first_index_of(
                    apache_rat_module_configs_keys(),
                    normalized_path(module_dir@),
                );
            }
            assert(module_excludes(module_dir@) == Some(pats));
            let mut i: usize = 0;
            while i < excludes.len()
                invariant
                    pats == strs(excludes@),
                    module_excludes(module_dir@) == Some(pats),
                    i <= excludes@.len(),
                    forall|k: int| 0 <= k < i ==> !rat_matches(#[trigger] pats[k], path@),
                decreases excludes.len() - i,
            {
                if rat_pattern_matches(excludes[i], path) {
                    assert(pats[i as int] == excludes@[i as int]@);
                    assert(rat_matches(pats[i as int], path@));
                    assert(0 <= i < pats.len());
                    assert(module_excludes(module_dir@)->0[i as int] == pats[i as int]);
                    return true;
                }
                i = i + 1;
            }
            false
        },
        None => false,
    }
}

/// The TinkerPop log4j override was removed.
pub fn tinkerpop_log4j_override_removed() -> (r: bool)
    ensures
        r,
{
    true
}

/// Whether the TinkerPop module's RAT exclusions cover `path`.
pub fn tinkerpop_rat_excludes_blueprints_log(path: &str) -> (r: bool)
    ensures
        r == excluded_for_module("extras/tinkerpop.rya"@, path@),
{
    is_apache_rat_excluded_for_module("extras/tinkerpop.rya", path)
}

/// The paths of the entries of [`apache_rat_module_configs_table`].
pub open spec fn apache_rat_module_configs_keys() -> Seq<Seq<char>> {
    apache_rat_module_configs_table().map_values(|e| path_of_rat_module(e))
}

/// The per-module RAT exclusions, as values.
pub open spec fn apache_rat_module_configs_table() -> Seq<(Seq<char>, bool, Seq<Seq<char>>)> {
    seq![
        ("dao/fjall.rya"@, true, seq!["**/*.ntriples"@, "**/*.trig"@]),
        ("extras/indexing"@, true, seq!["**/*.ttl"@, "**/resources/META-INF/services/**"@]),
        ("extras/rya.prospector"@, true, seq!["**/resources/META-INF/services/**"@]),
        ("extras/tinkerpop.rya"@, true, seq!["blueprints.log"@]),
        ("osgi"@, true, seq!["**/resources/META-INF/services/**"@, "sesame-runtime-osgi/openrdf-sesame-osgi.bnd"@]),
        ("sail"@, true, seq!["**/*.trig"@, "**/*.owl"@, "**/*.nt"@, "**/resources/META-INF/services/**"@]),
        ("web/web.rya"@, true, seq!["**/*.trig"@, "**/*.nt"@, "**/*.data"@]),
    ]
}

/// The per-module RAT exclusions.
pub fn apache_rat_module_configs() -> (r: &'static [ApacheRatModuleConfig])
    ensures
        r@.map_values(|x: ApacheRatModuleConfig| rat_module(x)) == apache_rat_module_configs_table(),
{
    let r: &'static [ApacheRatModuleConfig] = &[
        ApacheRatModuleConfig { module_dir: "dao/fjall.rya", configured_in_plugin_management: true, excludes: &["**/*.ntriples", "**/*.trig"] },
        ApacheRatModuleConfig { module_dir: "extras/indexing", configured_in_plugin_management: true, excludes: &["**/*.ttl", "**/resources/META-INF/services/**"] },
        ApacheRatModuleConfig { module_dir: "extras/rya.prospector", configured_in_plugin_management: true, excludes: &["**/resources/META-INF/services/**"] },
        ApacheRatModuleConfig { module_dir: "extras/tinkerpop.rya", configured_in_plugin_management: true, excludes: &["blueprints.log"] },
        ApacheRatModuleConfig { module_dir: "osgi", configured_in_plugin_management: true, excludes: &["**/resources/META-INF/services/**", "sesame-runtime-osgi/openrdf-sesame-osgi.bnd"] },
        ApacheRatModuleConfig { module_dir: "sail", configured_in_plugin_management: true, excludes: &["**/*.trig", "**/*.owl", "**/*.nt", "**/resources/META-INF/services/**"] },
        ApacheRatModuleConfig { module_dir: "web/web.rya", configured_in_plugin_management: true, excludes: &["**/*.trig", "**/*.nt", "**/*.data"] },
    ];
    assert(rat_module(r@[0]) =~= apache_rat_module_configs_table()[0]);
    assert(rat_module(r@[1]) =~= apache_rat_module_configs_table()[1]);
    assert(rat_module(r@[2]) =~= apache_rat_module_configs_table()[2]);
    assert(rat_module(r@[3]) =~= apache_rat_module_configs_table()[3]);
    assert(rat_module(r@[4]) =~= apache_rat_module_configs_table()[4]);
    assert(rat_module(r@[5]) =~= apache_rat_module_configs_table()[5]);
    assert(rat_module(r@[6]) =~= apache_rat_module_configs_table()[6]);
    assert(r@.map_values(|x: ApacheRatModuleConfig| rat_module(x)) =~= apache_rat_module_configs_table());
    r
}

/// The paths of the entries of [`rya_32_pcj_license_headers_table`].
pub open spec fn rya_32_pcj_license_headers_keys() -> Seq<Seq<char>> {
    rya_32_pcj_license_headers_table().map_values(|e| path_of_java_header(e))
}

/// The Java sources whose license headers were checked in this change, as values.
pub open spec fn rya_32_pcj_license_headers_table() -> Seq<(Seq<char>, Seq<char>, LicenseHeaderPosition)> {
    seq![
        ("extras/indexing/src/main/java/mvm/rya/indexing/external/tupleSet/FjallPcjSerializer.java"@, "mvm.rya.indexing.external.tupleSet"@, LicenseHeaderPosition::AfterPackageDeclaration),
        ("extras/indexing/src/main/java/mvm/rya/indexing/external/tupleSet/PcjTables.java"@, "mvm.rya.indexing.external.tupleSet"@, LicenseHeaderPosition::AfterPackageDeclaration),
        ("extras/indexing/src/test/java/mvm/rya/indexing/external/PcjIntegrationTestingUtil.java"@, "mvm.rya.indexing.external"@, LicenseHeaderPosition::AfterPackageDeclaration),
        ("extras/indexing/src/test/java/mvm/rya/indexing/external/tupleSet/FjallIndexSetTest.java"@, "mvm.rya.indexing.external.tupleSet"@, LicenseHeaderPosition::AfterPackageDeclaration),
        ("extras/indexing/src/test/java/mvm/rya/indexing/external/tupleSet/FjallPcjSerialzerTest.java"@, "mvm.rya.indexing.external.tupleSet"@, LicenseHeaderPosition::AfterPackageDeclaration),
        ("extras/indexing/src/test/java/mvm/rya/indexing/external/tupleSet/PcjTablesIntegrationTests.java"@, "mvm.rya.indexing.external.tupleSet"@, LicenseHeaderPosition::AfterPackageDeclaration),
        ("extras/indexing/src/test/java/mvm/rya/indexing/external/tupleSet/PcjTablesTests.java"@, "mvm.rya.indexing.external.tupleSet"@, LicenseHeaderPosition::AfterPackageDeclaration),
    ]
}

/// The Java sources whose license headers were checked in this change.
pub fn rya_32_pcj_license_headers() -> (r: &'static [JavaSourceLicenseHeader])
    ensures
        r@.map_values(|x: JavaSourceLicenseHeader| java_header(x)) == rya_32_pcj_license_headers_table(),
{
    let r: &'static [JavaSourceLicenseHeader] = &[
        JavaSourceLicenseHeader { path: "extras/indexing/src/main/java/mvm/rya/indexing/external/tupleSet/FjallPcjSerializer.java", package_name: "mvm.rya.indexing.external.tupleSet", header_position: LicenseHeaderPosition::AfterPackageDeclaration },
        JavaSourceLicenseHeader { path: "extras/indexing/src/main/java/mvm/rya/indexing/external/tupleSet/PcjTables.java", package_name: "mvm.rya.indexing.external.tupleSet", header_position: LicenseHeaderPosition::AfterPackageDeclaration },
        JavaSourceLicenseHeader { path: "extras/indexing/src/test/java/mvm/rya/indexing/external/PcjIntegrationTestingUtil.java", package_name: "mvm.rya.indexing.external", header_position: LicenseHeaderPosition::AfterPackageDeclaration },
        JavaSourceLicenseHeader { path: "extras/indexing/src/test/java/mvm/rya/indexing/external/tupleSet/FjallIndexSetTest.java", package_name: "mvm.rya.indexing.external.tupleSet", header_position: LicenseHeaderPosition::AfterPackageDeclaration },
        JavaSourceLicenseHeader { path: "extras/indexing/src/test/java/mvm/rya/indexing/external/tupleSet/FjallPcjSerialzerTest.java", package_name: "mvm.rya.indexing.external.tupleSet", header_position: LicenseHeaderPosition::AfterPackageDeclaration },
        JavaSourceLicenseHeader { path: "extras/indexing/src/test/java/mvm/rya/indexing/external/tupleSet/PcjTablesIntegrationTests.java", package_name: "mvm.rya.indexing.external.tupleSet", header_position: LicenseHeaderPosition::AfterPackageDeclaration },
        JavaSourceLicenseHeader { path: "extras/indexing/src/test/java/mvm/rya/indexing/external/tupleSet/PcjTablesTests.java", package_name: "mvm.rya.indexing.external.tupleSet", header_position: LicenseHeaderPosition::AfterPackageDeclaration },
    ];
    assert(java_header(r@[0]) =~= rya_32_pcj_license_headers_table()[0]);
    assert(java_header(r@[1]) =~= rya_32_pcj_license_headers_table()[1]);
    assert(java_header(r@[2]) =~= rya_32_pcj_license_headers_table()[2]);
    assert(java_header(r@[3]) =~= rya_32_pcj_license_headers_table()[3]);
    assert(java_header(r@[4]) =~= rya_32_pcj_license_headers_table()[4]);
    assert(java_header(r@[5]) =~= rya_32_pcj_license_headers_table()[5]);
    assert(java_header(r@[6]) =~= rya_32_pcj_license_headers_table()[6]);
    assert(r@.map_values(|x: JavaSourceLicenseHeader| java_header(x)) =~= rya_32_pcj_license_headers_table());
    r
}

/// The paths of the entries of [`commit_58_indexing_test_license_headers_table`].
pub open spec fn commit_58_indexing_test_license_headers_keys() -> Seq<Seq<char>> {
    commit_58_indexing_test_license_headers_table().map_values(|e| path_of_java_header(e))
}

/// The Java sources whose license headers were checked in this change, as values.
pub open spec fn commit_58_indexing_test_license_headers_table() -> Seq<(Seq<char>, Seq<char>, LicenseHeaderPosition)> {
    seq![
        ("extras/indexing/src/test/java/mvm/rya/indexing/external/tupleSet/FjallIndexSetColumnVisibilityTest.java"@, "mvm.rya.indexing.external.tupleSet"@, LicenseHeaderPosition::AfterPackageDeclaration),
        ("extras/indexing/src/test/java/mvm/rya/indexing/pcj/matching/FlattenedOptionalTest.java"@, "mvm.rya.indexing.pcj.matching"@, LicenseHeaderPosition::AfterPackageDeclaration),
        ("extras/indexing/src/test/java/mvm/rya/indexing/pcj/matching/JoinSegmentPCJMatcherTest.java"@, "mvm.rya.indexing.pcj.matching"@, LicenseHeaderPosition::AfterPackageDeclaration),
        ("extras/indexing/src/test/java/mvm/rya/indexing/pcj/matching/JoinSegmentTest.java"@, "mvm.rya.indexing.pcj.matching"@, LicenseHeaderPosition::AfterPackageDeclaration),
        ("extras/indexing/src/test/java/mvm/rya/indexing/pcj/matching/OptionalJoinSegmentPCJMatcherTest.java"@, "mvm.rya.indexing.pcj.matching"@, LicenseHeaderPosition::AfterPackageDeclaration),
        ("extras/indexing/src/test/java/mvm/rya/indexing/pcj/matching/OptionalJoinSegmentTest.java"@, "mvm.rya.indexing.pcj.matching"@, LicenseHeaderPosition::AfterPackageDeclaration),
        ("extras/indexing/src/test/java/mvm/rya/indexing/pcj/matching/PCJNodeConsolidatorTest.java"@, "mvm.rya.indexing.pcj.matching"@, LicenseHeaderPosition::AfterPackageDeclaration),
        ("extras/indexing/src/test/java/mvm/rya/indexing/pcj/matching/PCJOptimizerTest.java"@, "mvm.rya.indexing.pcj.matching"@, LicenseHeaderPosition::AfterPackageDeclaration),
        ("extras/indexing/src/test/java/mvm/rya/indexing/pcj/matching/PCJOptimizerUtilitesTest.java"@, "mvm.rya.indexing.pcj.matching"@, LicenseHeaderPosition::AfterPackageDeclaration),
    ]
}

/// The Java sources whose license headers were checked in this change.
pub fn commit_58_indexing_test_license_headers() -> (r: &'static [JavaSourceLicenseHeader])
    ensures
        r@.map_values(|x: JavaSourceLicenseHeader| java_header(x)) == commit_58_indexing_test_license_headers_table(),
{
    let r: &'static [JavaSourceLicenseHeader] = &[
        JavaSourceLicenseHeader { path: "extras/indexing/src/test/java/mvm/rya/indexing/external/tupleSet/FjallIndexSetColumnVisibilityTest.java", package_name: "mvm.rya.indexing.external.tupleSet", header_position: LicenseHeaderPosition::AfterPackageDeclaration },
        JavaSourceLicenseHeader { path: "extras/indexing/src/test/java/mvm/rya/indexing/pcj/matching/FlattenedOptionalTest.java", package_name: "mvm.rya.indexing.pcj.matching", header_position: LicenseHeaderPosition::AfterPackageDeclaration },
        JavaSourceLicenseHeader { path: "extras/indexing/src/test/java/mvm/rya/indexing/pcj/matching/JoinSegmentPCJMatcherTest.java", package_name: "mvm.rya.indexing.pcj.matching", header_position: LicenseHeaderPosition::AfterPackageDeclaration },
        JavaSourceLicenseHeader { path: "extras/indexing/src/test/java/mvm/rya/indexing/pcj/matching/JoinSegmentTest.java", package_name: "mvm.rya.indexing.pcj.matching", header_position: LicenseHeaderPosition::AfterPackageDeclaration },
        JavaSourceLicenseHeader { path: "extras/indexing/src/test/java/mvm/rya/indexing/pcj/matching/OptionalJoinSegmentPCJMatcherTest.java", package_name: "mvm.rya.indexing.pcj.matching", header_position: LicenseHeaderPosition::AfterPackageDeclaration },
        JavaSourceLicenseHeader { path: "extras/indexing/src/test/java/mvm/rya/indexing/pcj/matching/OptionalJoinSegmentTest.java", package_name: "mvm.rya.indexing.pcj.matching", header_position: LicenseHeaderPosition::AfterPackageDeclaration },
        JavaSourceLicenseHeader { path: "extras/indexing/src/test/java/mvm/rya/indexing/pcj/matching/PCJNodeConsolidatorTest.java", package_name: "mvm.rya.indexing.pcj.matching", header_position: LicenseHeaderPosition::AfterPackageDeclaration },
        JavaSourceLicenseHeader { path: "extras/indexing/src/test/java/mvm/rya/indexing/pcj/matching/PCJOptimizerTest.java", package_name: "mvm.rya.indexing.pcj.matching", header_position: LicenseHeaderPosition::AfterPackageDeclaration },
        JavaSourceLicenseHeader { path: "extras/indexing/src/test/java/mvm/rya/indexing/pcj/matching/PCJOptimizerUtilitesTest.java", package_name: "mvm.rya.indexing.pcj.matching", header_position: LicenseHeaderPosition::AfterPackageDeclaration },
    ];
    assert(java_header(r@[0]) =~= commit_58_indexing_test_license_headers_table()[0]);
    assert(java_header(r@[1]) =~= commit_58_indexing_test_license_headers_table()[1]);
    assert(java_header(r@[2]) =~= commit_58_indexing_test_license_headers_table()[2]);
    assert(java_header(r@[3]) =~= commit_58_indexing_test_license_headers_table()[3]);
    assert(java_header(r@[4]) =~= commit_58_indexing_test_license_headers_table()[4]);
    assert(java_header(r@[5]) =~= commit_58_indexing_test_license_headers_table()[5]);
    assert(java_header(r@[6]) =~= commit_58_indexing_test_license_headers_table()[6]);
    assert(java_header(r@[7]) =~= commit_58_indexing_test_license_headers_table()[7]);
    assert(java_header(r@[8]) =~= commit_58_indexing_test_license_headers_table()[8]);
    assert(r@.map_values(|x: JavaSourceLicenseHeader| java_header(x)) =~= commit_58_indexing_test_license_headers_table());
    r
}

/// The paths of the entries of [`commit_79_api_source_license_headers_table`].
pub open spec fn commit_79_api_source_license_headers_keys() -> Seq<Seq<char>> {
    commit_79_api_source_license_headers_table().map_values(|e| path_of_java_header(e))
}

/// The Java sources whose license headers were checked in this change, as values.
pub open spec fn commit_79_api_source_license_headers_table() -> Seq<(Seq<char>, Seq<char>, LicenseHeaderPosition)> {
    seq![
        ("common/rya.api/src/main/java/mvm/rya/api/instance/RyaDetailsToConfiguration.java"@, "mvm.rya.api.instance"@, LicenseHeaderPosition::BeforePackageDeclaration),
    ]
}

/// The Java sources whose license headers were checked in this change.
pub fn commit_79_api_source_license_headers() -> (r: &'static [JavaSourceLicenseHeader])
    ensures
        r@.map_values(|x: JavaSourceLicenseHeader| java_header(x)) == commit_79_api_source_license_headers_table(),
{
    let r: &'static [JavaSourceLicenseHeader] = &[
        JavaSourceLicenseHeader { path: "common/rya.api/src/main/java/mvm/rya/api/instance/RyaDetailsToConfiguration.java", package_name: "mvm.rya.api.instance", header_position: LicenseHeaderPosition::BeforePackageDeclaration },
    ];
    assert(java_header(r@[0]) =~= commit_79_api_source_license_headers_table()[0]);
    assert(r@.map_values(|x: JavaSourceLicenseHeader| java_header(x)) =~= commit_79_api_source_license_headers_table());
    r
}

/// The paths of the entries of [`commit_74_rya_merger_java_license_headers_table`].
pub open spec fn commit_74_rya_merger_java_license_headers_keys() -> Seq<Seq<char>> {
    commit_74_rya_merger_java_license_headers_table().map_values(|e| path_of_java_header(e))
}

/// The Java sources whose license headers were checked in this change, as values.
pub open spec fn commit_74_rya_merger_java_license_headers_table() -> Seq<(Seq<char>, Seq<char>, LicenseHeaderPosition)> {
    seq![
        ("extras/rya.merger/src/test/java/mvm/rya/fjall/mr/merge/CopyToolTest.java"@, "mvm.rya.fjall.mr.merge"@, LicenseHeaderPosition::AfterPackageDeclaration),
        ("extras/rya.merger/src/test/java/mvm/rya/fjall/mr/merge/MergeToolTest.java"@, "mvm.rya.fjall.mr.merge"@, LicenseHeaderPosition::AfterPackageDeclaration),
        ("extras/rya.merger/src/test/java/mvm/rya/fjall/mr/merge/demo/CopyToolDemo.java"@, "mvm.rya.fjall.mr.merge.demo"@, LicenseHeaderPosition::AfterPackageDeclaration),
        ("extras/rya.merger/src/test/java/mvm/rya/fjall/mr/merge/demo/MergeToolDemo.java"@, "mvm.rya.fjall.mr.merge.demo"@, LicenseHeaderPosition::AfterPackageDeclaration),
        ("extras/rya.merger/src/test/java/mvm/rya/fjall/mr/merge/demo/util/DemoUtilities.java"@, "mvm.rya.fjall.mr.merge.demo.util"@, LicenseHeaderPosition::AfterPackageDeclaration),
        ("extras/rya.merger/src/test/java/mvm/rya/fjall/mr/merge/driver/FjallDualInstanceDriver.java"@, "mvm.rya.fjall.mr.merge.driver"@, LicenseHeaderPosition::AfterPackageDeclaration),
        ("extras/rya.merger/src/test/java/mvm/rya/fjall/mr/merge/driver/MiniFjallClusterDriver.java"@, "mvm.rya.fjall.mr.merge.driver"@, LicenseHeaderPosition::AfterPackageDeclaration),
        ("extras/rya.merger/src/test/java/mvm/rya/fjall/mr/merge/util/TestUtils.java"@, "mvm.rya.fjall.mr.merge.util"@, LicenseHeaderPosition::AfterPackageDeclaration),
    ]
}

/// The Java sources whose license headers were checked in this change.
pub fn commit_74_rya_merger_java_license_headers() -> (r: &'static [JavaSourceLicenseHeader])
    ensures
        r@.map_values(|x: JavaSourceLicenseHeader| java_header(x)) == commit_74_rya_merger_java_license_headers_table(),
{
    let r: &'static [JavaSourceLicenseHeader] = &[
        JavaSourceLicenseHeader { path: "extras/rya.merger/src/test/java/mvm/rya/fjall/mr/merge/CopyToolTest.java", package_name: "mvm.rya.fjall.mr.merge", header_position: LicenseHeaderPosition::AfterPackageDeclaration },
        JavaSourceLicenseHeader { path: "extras/rya.merger/src/test/java/mvm/rya/fjall/mr/merge/MergeToolTest.java", package_name: "mvm.rya.fjall.mr.merge", header_position: LicenseHeaderPosition::AfterPackageDeclaration },
        JavaSourceLicenseHeader { path: "extras/rya.merger/src/test/java/mvm/rya/fjall/mr/merge/demo/CopyToolDemo.java", package_name: "mvm.rya.fjall.mr.merge.demo", header_position: LicenseHeaderPosition::AfterPackageDeclaration },
        JavaSourceLicenseHeader { path: "extras/rya.merger/src/test/java/mvm/rya/fjall/mr/merge/demo/MergeToolDemo.java", package_name: "mvm.rya.fjall.mr.merge.demo", header_position: LicenseHeaderPosition::AfterPackageDeclaration },
        JavaSourceLicenseHeader { path: "extras/rya.merger/src/test/java/mvm/rya/fjall/mr/merge/demo/util/DemoUtilities.java", package_name: "mvm.rya.fjall.mr.merge.demo.util", header_position: LicenseHeaderPosition::AfterPackageDeclaration },
        JavaSourceLicenseHeader { path: "extras/rya.merger/src/test/java/mvm/rya/fjall/mr/merge/driver/FjallDualInstanceDriver.java", package_name: "mvm.rya.fjall.mr.merge.driver", header_position: LicenseHeaderPosition::AfterPackageDeclaration },
        JavaSourceLicenseHeader { path: "extras/rya.merger/src/test/java/mvm/rya/fjall/mr/merge/driver/MiniFjallClusterDriver.java", package_name: "mvm.rya.fjall.mr.merge.driver", header_position: LicenseHeaderPosition::AfterPackageDeclaration },
        JavaSourceLicenseHeader { path: "extras/rya.merger/src/test/java/mvm/rya/fjall/mr/merge/util/TestUtils.java", package_name: "mvm.rya.fjall.mr.merge.util", header_position: LicenseHeaderPosition::AfterPackageDeclaration },
    ];
    assert(java_header(r@[0]) =~= commit_74_rya_merger_java_license_headers_table()[0]);
    assert(java_header(r@[1]) =~= commit_74_rya_merger_java_license_headers_table()[1]);
    assert(java_header(r@[2]) =~= commit_74_rya_merger_java_license_headers_table()[2]);
    assert(java_header(r@[3]) =~= commit_74_rya_merger_java_license_headers_table()[3]);
    assert(java_header(r@[4]) =~= commit_74_rya_merger_java_license_headers_table()[4]);
    assert(java_header(r@[5]) =~= commit_74_rya_merger_java_license_headers_table()[5]);
    assert(java_header(r@[6]) =~= commit_74_rya_merger_java_license_headers_table()[6]);
    assert(java_header(r@[7]) =~= commit_74_rya_merger_java_license_headers_table()[7]);
    assert(r@.map_values(|x: JavaSourceLicenseHeader| java_header(x)) =~= commit_74_rya_merger_java_license_headers_table());
    r
}

/// The paths of the entries of [`rya_7_sail_license_corrections_table`].
pub open spec fn rya_7_sail_license_corrections_keys() -> Seq<Seq<char>> {
    rya_7_sail_license_corrections_table().map_values(|e| path_of_java_correction(e))
}

/// The corrected Sail license headers, as values.
pub open spec fn rya_7_sail_license_corrections_table() -> Seq<((Seq<char>, Seq<char>, LicenseHeaderPosition), Seq<char>, Seq<Seq<char>>)> {
    seq![
        (("extras/indexing/src/main/java/mvm/rya/sail/config/RyaFjallSailConfig.java"@, "mvm.rya.sail.config"@, LicenseHeaderPosition::AfterPackageDeclaration), ASF_SOURCE_LICENSE_MARKER@, seq!["#%L"@, "mvm.rya.rya.sail.impl"@, "Copyright (C) 2014 Rya"@, "#L%"@]),
        (("extras/indexing/src/main/java/mvm/rya/sail/config/RyaFjallSailFactory.java"@, "mvm.rya.sail.config"@, LicenseHeaderPosition::AfterPackageDeclaration), ASF_SOURCE_LICENSE_MARKER@, seq!["#%L"@, "mvm.rya.rya.sail.impl"@, "Copyright (C) 2014 Rya"@, "#L%"@]),
    ]
}

/// The corrected Sail license headers.
pub fn rya_7_sail_license_corrections() -> (r: &'static [JavaSourceLicenseCorrection])
    ensures
        r@.map_values(|x: JavaSourceLicenseCorrection| java_correction(x)) == rya_7_sail_license_corrections_table(),
{
    let r: &'static [JavaSourceLicenseCorrection] = &[
        JavaSourceLicenseCorrection { source: JavaSourceLicenseHeader { path: "extras/indexing/src/main/java/mvm/rya/sail/config/RyaFjallSailConfig.java", package_name: "mvm.rya.sail.config", header_position: LicenseHeaderPosition::AfterPackageDeclaration }, required_header_marker: ASF_SOURCE_LICENSE_MARKER, removed_header_markers: &["#%L", "mvm.rya.rya.sail.impl", "Copyright (C) 2014 Rya", "#L%"] },
        JavaSourceLicenseCorrection { source: JavaSourceLicenseHeader { path: "extras/indexing/src/main/java/mvm/rya/sail/config/RyaFjallSailFactory.java", package_name: "mvm.rya.sail.config", header_position: LicenseHeaderPosition::AfterPackageDeclaration }, required_header_marker: ASF_SOURCE_LICENSE_MARKER, removed_header_markers: &["#%L", "mvm.rya.rya.sail.impl", "Copyright (C) 2014 Rya", "#L%"] },
    ];
    assert(java_correction(r@[0]) =~= rya_7_sail_license_corrections_table()[0]);
    assert(java_correction(r@[1]) =~= rya_7_sail_license_corrections_table()[1]);
    assert(r@.map_values(|x: JavaSourceLicenseCorrection| java_correction(x)) =~= rya_7_sail_license_corrections_table());
    r
}

/// The paths of the entries of [`commit_74_rya_merger_file_license_headers_table`].
pub open spec fn commit_74_rya_merger_file_license_headers_keys() -> Seq<Seq<char>> {
    commit_74_rya_merger_file_license_headers_table().map_values(|e| path_of_file_header(e))
}

/// The non-Java merger files that gained license headers, as values.
pub open spec fn commit_74_rya_merger_file_license_headers_table() -> Seq<(Seq<char>, LicenseCommentStyle, FileLicenseHeaderPosition)> {
    seq![
        ("extras/rya.merger/README.md"@, LicenseCommentStyle::Html, FileLicenseHeaderPosition::FileStart),
        ("extras/rya.merger/config/configuration.xml"@, LicenseCommentStyle::Xml, FileLicenseHeaderPosition::AfterXmlDeclaration),
        ("extras/rya.merger/config/copy_tool_configuration.xml"@, LicenseCommentStyle::Xml, FileLicenseHeaderPosition::AfterXmlDeclaration),
        ("extras/rya.merger/config/copy_tool_log4j.xml"@, LicenseCommentStyle::Xml, FileLicenseHeaderPosition::AfterXmlDeclaration),
        ("extras/rya.merger/config/log4j.xml"@, LicenseCommentStyle::Xml, FileLicenseHeaderPosition::AfterXmlDeclaration),
        ("extras/rya.merger/startup_scripts/copy_tool.bat"@, LicenseCommentStyle::WindowsBatch, FileLicenseHeaderPosition::FileStart),
        ("extras/rya.merger/startup_scripts/copy_tool.sh"@, LicenseCommentStyle::Shell, FileLicenseHeaderPosition::AfterShebang),
        ("extras/rya.merger/startup_scripts/hadoop_copy_tool.bat"@, LicenseCommentStyle::WindowsBatch, FileLicenseHeaderPosition::FileStart),
        ("extras/rya.merger/startup_scripts/hadoop_copy_tool.sh"@, LicenseCommentStyle::Shell, FileLicenseHeaderPosition::AfterShebang),
        ("extras/rya.merger/startup_scripts/hadoop_merge_tool.bat"@, LicenseCommentStyle::WindowsBatch, FileLicenseHeaderPosition::FileStart),
        ("extras/rya.merger/startup_scripts/hadoop_merge_tool.sh"@, LicenseCommentStyle::Shell, FileLicenseHeaderPosition::AfterShebang),
        ("extras/rya.merger/startup_scripts/merge_tool.bat"@, LicenseCommentStyle::WindowsBatch, FileLicenseHeaderPosition::FileStart),
        ("extras/rya.merger/startup_scripts/merge_tool.sh"@, LicenseCommentStyle::Shell, FileLicenseHeaderPosition::AfterShebang),
    ]
}

/// The non-Java merger files that gained license headers.
pub fn commit_74_rya_merger_file_license_headers() -> (r: &'static [FileLicenseHeader])
    ensures
        r@.map_values(|x: FileLicenseHeader| file_header(x)) == commit_74_rya_merger_file_license_headers_table(),
{
    let r: &'static [FileLicenseHeader] = &[
        FileLicenseHeader { path: "extras/rya.merger/README.md", comment_style: LicenseCommentStyle::Html, header_position: FileLicenseHeaderPosition::FileStart },
        FileLicenseHeader { path: "extras/rya.merger/config/configuration.xml", comment_style: LicenseCommentStyle::Xml, header_position: FileLicenseHeaderPosition::AfterXmlDeclaration },
        FileLicenseHeader { path: "extras/rya.merger/config/copy_tool_configuration.xml", comment_style: LicenseCommentStyle::Xml, header_position: FileLicenseHeaderPosition::AfterXmlDeclaration },
        FileLicenseHeader { path: "extras/rya.merger/config/copy_tool_log4j.xml", comment_style: LicenseCommentStyle::Xml, header_position: FileLicenseHeaderPosition::AfterXmlDeclaration },
        FileLicenseHeader { path: "extras/rya.merger/config/log4j.xml", comment_style: LicenseCommentStyle::Xml, header_position: FileLicenseHeaderPosition::AfterXmlDeclaration },
        FileLicenseHeader { path: "extras/rya.merger/startup_scripts/copy_tool.bat", comment_style: LicenseCommentStyle::WindowsBatch, header_position: FileLicenseHeaderPosition::FileStart },
        FileLicenseHeader { path: "extras/rya.merger/startup_scripts/copy_tool.sh", comment_style: LicenseCommentStyle::Shell, header_position: FileLicenseHeaderPosition::AfterShebang },
        FileLicenseHeader { path: "extras/rya.merger/startup_scripts/hadoop_copy_tool.bat", comment_style: LicenseCommentStyle::WindowsBatch, header_position: FileLicenseHeaderPosition::FileStart },
        FileLicenseHeader { path: "extras/rya.merger/startup_scripts/hadoop_copy_tool.sh", comment_style: LicenseCommentStyle::Shell, header_position: FileLicenseHeaderPosition::AfterShebang },
        FileLicenseHeader { path: "extras/rya.merger/startup_scripts/hadoop_merge_tool.bat", comment_style: LicenseCommentStyle::WindowsBatch, header_position: FileLicenseHeaderPosition::FileStart },
        FileLicenseHeader { path: "extras/rya.merger/startup_scripts/hadoop_merge_tool.sh", comment_style: LicenseCommentStyle::Shell, header_position: FileLicenseHeaderPosition::AfterShebang },
        FileLicenseHeader { path: "extras/rya.merger/startup_scripts/merge_tool.bat", comment_style: LicenseCommentStyle::WindowsBatch, header_position: FileLicenseHeaderPosition::FileStart },
        FileLicenseHeader { path: "extras/rya.merger/startup_scripts/merge_tool.sh", comment_style: LicenseCommentStyle::Shell, header_position: FileLicenseHeaderPosition::AfterShebang },
    ];
    assert(file_header(r@[0]) =~= commit_74_rya_merger_file_license_headers_table()[0]);
    assert(file_header(r@[1]) =~= commit_74_rya_merger_file_license_headers_table()[1]);
    assert(file_header(r@[2]) =~= commit_74_rya_merger_file_license_headers_table()[2]);
    assert(file_header(r@[3]) =~= commit_74_rya_merger_file_license_headers_table()[3]);
    assert(file_header(r@[4]) =~= commit_74_rya_merger_file_license_headers_table()[4]);
    assert(file_header(r@[5]) =~= commit_74_rya_merger_file_license_headers_table()[5]);
    assert(file_header(r@[6]) =~= commit_74_rya_merger_file_license_headers_table()[6]);
    assert(file_header(r@[7]) =~= commit_74_rya_merger_file_license_headers_table()[7]);
    assert(file_header(r@[8]) =~= commit_74_rya_merger_file_license_headers_table()[8]);
    assert(file_header(r@[9]) =~= commit_74_rya_merger_file_license_headers_table()[9]);
    assert(file_header(r@[10]) =~= commit_74_rya_merger_file_license_headers_table()[10]);
    assert(file_header(r@[11]) =~= commit_74_rya_merger_file_license_headers_table()[11]);
    assert(file_header(r@[12]) =~= commit_74_rya_merger_file_license_headers_table()[12]);
    assert(r@.map_values(|x: FileLicenseHeader| file_header(x)) =~= commit_74_rya_merger_file_license_headers_table());
    r
}

/// The paths of the entries of [`commit_74_removed_generated_test_artifacts_table`].
pub open spec fn commit_74_removed_generated_test_artifacts_keys() -> Seq<Seq<char>> {
    commit_74_removed_generated_test_artifacts_table().map_values(|e| path_of_artifact(e))
}

/// The generated merger test files that were deleted, as values.
pub open spec fn commit_74_removed_generated_test_artifacts_table() -> Seq<(Seq<char>, Seq<char>)> {
    seq![
        ("extras/rya.merger/resources/test/merge_tool_file_input/ct_spo/files/._SUCCESS.crc"@, "generated Hadoop checksum marker without a license header"@),
        ("extras/rya.merger/resources/test/merge_tool_file_input/ct_spo/files/_SUCCESS"@, "generated Hadoop success marker without a license header"@),
    ]
}

/// The generated merger test files that were deleted.
pub fn commit_74_removed_generated_test_artifacts() -> (r: &'static [DeletedGeneratedTestArtifact])
    ensures
        r@.map_values(|x: DeletedGeneratedTestArtifact| artifact(x)) == commit_74_removed_generated_test_artifacts_table(),
{
    let r: &'static [DeletedGeneratedTestArtifact] = &[
        DeletedGeneratedTestArtifact { path: "extras/rya.merger/resources/test/merge_tool_file_input/ct_spo/files/._SUCCESS.crc", reason: "generated Hadoop checksum marker without a license header" },
        DeletedGeneratedTestArtifact { path: "extras/rya.merger/resources/test/merge_tool_file_input/ct_spo/files/_SUCCESS", reason: "generated Hadoop success marker without a license header" },
    ];
    assert(artifact(r@[0]) =~= commit_74_removed_generated_test_artifacts_table()[0]);
    assert(artifact(r@[1]) =~= commit_74_removed_generated_test_artifacts_table()[1]);
    assert(r@.map_values(|x: DeletedGeneratedTestArtifact| artifact(x)) =~= commit_74_removed_generated_test_artifacts_table());
    r
}

/// The Sail license correction for a path: the first entry whose path is `path` with `\\` turned to `/`.
pub fn rya_7_license_correction_for_path(path: &str) -> (r: Option<JavaSourceLicenseCorrection>)
    ensures
        match first_index_of(rya_7_sail_license_corrections_keys(), replace_char_spec(path@, '\\', '/')) {
            Some(i) => r matches Some(x) && java_correction(x) == rya_7_sail_license_corrections_table()[i],
            None => r is None,
        },
{
    let normalized = replace_char(path, '\\', '/');
    let table = rya_7_sail_license_corrections();
    let ghost keys = rya_7_sail_license_corrections_keys();
    let mut i: usize = 0;
    while i < table.len()
        invariant
            table@.map_values(|x: JavaSourceLicenseCorrection| java_correction(x)) == rya_7_sail_license_corrections_table(),
            keys == rya_7_sail_license_corrections_keys(),
            normalized@ == replace_char_spec(path@, '\\', '/'),
            keys.len() == rya_7_sail_license_corrections_table().len(),
            forall|j: int| 0 <= j < keys.len() ==> keys[j] == path_of_java_correction(#[trigger] rya_7_sail_license_corrections_table()[j]),
            i <= table@.len(),
            forall|j: int| 0 <= j < i ==> keys[j] != normalized@,
        decreases table.len() - i,
    {
        assert(java_correction(table@[i as int]) == rya_7_sail_license_corrections_table()[i as int]);
        assert(keys[i as int] == path_of_java_correction(rya_7_sail_license_corrections_table()[i as int]));
        if str_eq(table[i].source.path, normalized.as_str()) {
            proof {
                lemma_first_index_of_at(keys, normalized@, i as int);
            }
            return Some(table[i]);
        }
        i = i + 1;
    }
    proof {
        lemma_first_index_of_none(keys, normalized@);
    }
    None
}

/// The PCJ license header for a path: the first entry whose path is `path` with `\\` turned to `/`.
pub fn rya_32_license_header_for_path(path: &str) -> (r: Option<JavaSourceLicenseHeader>)
    ensures
        match first_index_of(rya_32_pcj_license_headers_keys(), replace_char_spec(path@, '\\', '/')) {
            Some(i) => r matches Some(x) && java_header(x) == rya_32_pcj_license_headers_table()[i],
            None => r is None,
        },
{
    let normalized = replace_char(path, '\\', '/');
    let table = rya_32_pcj_license_headers();
    let ghost keys = rya_32_pcj_license_headers_keys();
    let mut i: usize = 0;
    while i < table.len()
        invariant
            table@.map_values(|x: JavaSourceLicenseHeader| java_header(x)) == rya_32_pcj_license_headers_table(),
            keys == rya_32_pcj_license_headers_keys(),
            normalized@ == replace_char_spec(path@, '\\', '/'),
            keys.len() == rya_32_pcj_license_headers_table().len(),
            forall|j: int| 0 <= j < keys.len() ==> keys[j] == path_of_java_header(#[trigger] rya_32_pcj_license_headers_table()[j]),
            i <= table@.len(),
            forall|j: int| 0 <= j < i ==> keys[j] != normalized@,
        decreases table.len() - i,
    {
        assert(java_header(table@[i as int]) == rya_32_pcj_license_headers_table()[i as int]);
        assert(keys[i as int] == path_of_java_header(rya_32_pcj_license_headers_table()[i as int]));
        if str_eq(table[i].path, normalized.as_str()) {
            proof {
                lemma_first_index_of_at(keys, normalized@, i as int);
            }
            return Some(table[i]);
        }
        i = i + 1;
    }
    proof {
        lemma_first_index_of_none(keys, normalized@);
    }
    None
}

/// The indexing test license header for a path: the first entry whose path is `path` with `\\` turned to `/`.
pub fn commit_58_license_header_for_path(path: &str) -> (r: Option<JavaSourceLicenseHeader>)
    ensures
        match first_index_of(commit_58_indexing_test_license_headers_keys(), replace_char_spec(path@, '\\', '/')) {
            Some(i) => r matches Some(x) && java_header(x) == commit_58_indexing_test_license_headers_table()[i],
            None => r is None,
        },
{
    let normalized = replace_char(path, '\\', '/');
    let table = commit_58_indexing_test_license_headers();
    let ghost keys = commit_58_indexing_test_license_headers_keys();
    let mut i: usize = 0;
    while i < table.len()
        invariant
            table@.map_values(|x: JavaSourceLicenseHeader| java_header(x)) == commit_58_indexing_test_license_headers_table(),
            keys == commit_58_indexing_test_license_headers_keys(),
            normalized@ == replace_char_spec(path@, '\\', '/'),
            keys.len() == commit_58_indexing_test_license_headers_table().len(),
            forall|j: int| 0 <= j < keys.len() ==> keys[j] == path_of_java_header(#[trigger] commit_58_indexing_test_license_headers_table()[j]),
            i <= table@.len(),
            forall|j: int| 0 <= j < i ==> keys[j] != normalized@,
        decreases table.len() - i,
    {
        assert(java_header(table@[i as int]) == commit_58_indexing_test_license_headers_table()[i as int]);
        assert(keys[i as int] == path_of_java_header(commit_58_indexing_test_license_headers_table()[i as int]));
        if str_eq(table[i].path, normalized.as_str()) {
            proof {
                lemma_first_index_of_at(keys, normalized@, i as int);
            }
            return Some(table[i]);
        }
        i = i + 1;
    }
    proof {
        lemma_first_index_of_none(keys, normalized@);
    }
    None
}

/// The API source license header for a path: the first entry whose path is `path` with `\\` turned to `/`.
pub fn commit_79_api_source_license_header_for_path(path: &str) -> (r: Option<JavaSourceLicenseHeader>)
    ensures
        match first_index_of(commit_79_api_source_license_headers_keys(), replace_char_spec(path@, '\\', '/')) {
            Some(i) => r matches Some(x) && java_header(x) == commit_79_api_source_license_headers_table()[i],
            None => r is None,
        },
{
    let normalized = replace_char(path, '\\', '/');
    let table = commit_79_api_source_license_headers();
    let ghost keys = commit_79_api_source_license_headers_keys();
    let mut i: usize = 0;
    while i < table.len()
        invariant
            table@.map_values(|x: JavaSourceLicenseHeader| java_header(x)) == commit_79_api_source_license_headers_table(),
            keys == commit_79_api_source_license_headers_keys(),
            normalized@ == replace_char_spec(path@, '\\', '/'),
            keys.len() == commit_79_api_source_license_headers_table().len(),
            forall|j: int| 0 <= j < keys.len() ==> keys[j] == path_of_java_header(#[trigger] commit_79_api_source_license_headers_table()[j]),
            i <= table@.len(),
            forall|j: int| 0 <= j < i ==> keys[j] != normalized@,
        decreases table.len() - i,
    {
        assert(java_header(table@[i as int]) == commit_79_api_source_license_headers_table()[i as int]);
        assert(keys[i as int] == path_of_java_header(commit_79_api_source_license_headers_table()[i as int]));
        if str_eq(table[i].path, normalized.as_str()) {
            proof {
                lemma_first_index_of_at(keys, normalized@, i as int);
            }
            return Some(table[i]);
        }
        i = i + 1;
    }
    proof {
        lemma_first_index_of_none(keys, normalized@);
    }
    None
}

/// The merger Java license header for a path: the first entry whose path is `path` with `\\` turned to `/`.
pub fn commit_74_rya_merger_java_license_header_for_path(path: &str) -> (r: Option<JavaSourceLicenseHeader>)
    ensures
        match first_index_of(commit_74_rya_merger_java_license_headers_keys(), replace_char_spec(path@, '\\', '/')) {
            Some(i) => r matches Some(x) && java_header(x) == commit_74_rya_merger_java_license_headers_table()[i],
            None => r is None,
        },
{
    let normalized = replace_char(path, '\\', '/');
    let table = commit_74_rya_merger_java_license_headers();
    let ghost keys = commit_74_rya_merger_java_license_headers_keys();
    let mut i: usize = 0;
    while i < table.len()
        invariant
            table@.map_values(|x: JavaSourceLicenseHeader| java_header(x)) == commit_74_rya_merger_java_license_headers_table(),
            keys == commit_74_rya_merger_java_license_headers_keys(),
            normalized@ == replace_char_spec(path@, '\\', '/'),
            keys.len() == commit_74_rya_merger_java_license_headers_table().len(),
            forall|j: int| 0 <= j < keys.len() ==> keys[j] == path_of_java_header(#[trigger] commit_74_rya_merger_java_license_headers_table()[j]),
            i <= table@.len(),
            forall|j: int| 0 <= j < i ==> keys[j] != normalized@,
        decreases table.len() - i,
    {
        assert(java_header(table@[i as int]) == commit_74_rya_merger_java_license_headers_table()[i as int]);
        assert(keys[i as int] == path_of_java_header(commit_74_rya_merger_java_license_headers_table()[i as int]));
        if str_eq(table[i].path, normalized.as_str()) {
            proof {
                lemma_first_index_of_at(keys, normalized@, i as int);
            }
            return Some(table[i]);
        }
        i = i + 1;
    }
    proof {
        lemma_first_index_of_none(keys, normalized@);
    }
    None
}

/// The merger file license header for a path: the first entry whose path is `path` with `\\` turned to `/`.
pub fn commit_74_rya_merger_file_license_header_for_path(path: &str) -> (r: Option<FileLicenseHeader>)
    ensures
        match first_index_of(commit_74_rya_merger_file_license_headers_keys(), replace_char_spec(path@, '\\', '/')) {
            Some(i) => r matches Some(x) && file_header(x) == commit_74_rya_merger_file_license_headers_table()[i],
            None => r is None,
        },
{
    let normalized = replace_char(path, '\\', '/');
    let table = commit_74_rya_merger_file_license_headers();
    let ghost keys = commit_74_rya_merger_file_license_headers_keys();
    let mut i: usize = 0;
    while i < table.len()
        invariant
            table@.map_values(|x: FileLicenseHeader| file_header(x)) == commit_74_rya_merger_file_license_headers_table(),
            keys == commit_74_rya_merger_file_license_headers_keys(),
            normalized@ == replace_char_spec(path@, '\\', '/'),
            keys.len() == commit_74_rya_merger_file_license_headers_table().len(),
            forall|j: int| 0 <= j < keys.len() ==> keys[j] == path_of_file_header(#[trigger] commit_74_rya_merger_file_license_headers_table()[j]),
            i <= table@.len(),
            forall|j: int| 0 <= j < i ==> keys[j] != normalized@,
        decreases table.len() - i,
    {
        assert(file_header(table@[i as int]) == commit_74_rya_merger_file_license_headers_table()[i as int]);
        assert(keys[i as int] == path_of_file_header(commit_74_rya_merger_file_license_headers_table()[i as int]));
        if str_eq(table[i].path, normalized.as_str()) {
            proof {
                lemma_first_index_of_at(keys, normalized@, i as int);
            }
            return Some(table[i]);
        }
        i = i + 1;
    }
    proof {
        lemma_first_index_of_none(keys, normalized@);
    }
    None
}

/// The deleted merger artifact for a path: the first entry whose path is `path` with `\\` turned to `/`.
pub fn commit_74_removed_generated_test_artifact_for_path(path: &str) -> (r: Option<DeletedGeneratedTestArtifact>)
    ensures
        match first_index_of(commit_74_removed_generated_test_artifacts_keys(), replace_char_spec(path@, '\\', '/')) {
            Some(i) => r matches Some(x) && artifact(x) == commit_74_removed_generated_test_artifacts_table()[i],
            None => r is None,
        },
{
    let normalized = replace_char(path, '\\', '/');
    let table = commit_74_removed_generated_test_artifacts();
    let ghost keys = commit_74_removed_generated_test_artifacts_keys();
    let mut i: usize = 0;
    while i < table.len()
        invariant
            table@.map_values(|x: DeletedGeneratedTestArtifact| artifact(x)) == commit_74_removed_generated_test_artifacts_table(),
            keys == commit_74_removed_generated_test_artifacts_keys(),
            normalized@ == replace_char_spec(path@, '\\', '/'),
            keys.len() == commit_74_removed_generated_test_artifacts_table().len(),
            forall|j: int| 0 <= j < keys.len() ==> keys[j] == path_of_artifact(#[trigger] commit_74_removed_generated_test_artifacts_table()[j]),
            i <= table@.len(),
            forall|j: int| 0 <= j < i ==> keys[j] != normalized@,
        decreases table.len() - i,
    {
        assert(artifact(table@[i as int]) == commit_74_removed_generated_test_artifacts_table()[i as int]);
        assert(keys[i as int] == path_of_artifact(commit_74_removed_generated_test_artifacts_table()[i as int]));
        if str_eq(table[i].path, normalized.as_str()) {
            proof {
                lemma_first_index_of_at(keys, normalized@, i as int);
            }
            return Some(table[i]);
        }
        i = i + 1;
    }
    proof {
        lemma_first_index_of_none(keys, normalized@);
    }
    None
}
} // verus!
