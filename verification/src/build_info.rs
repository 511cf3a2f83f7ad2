use vstd::prelude::*;

use crate::text::{ends_with, parse_in_range, parse_u64, split_char, split_once_char, views};

verus! {

pub const RYA_VERSION: &'static str = "0.1.0";
pub const MAVEN_MIN_VERSION: &'static str = "3.0.4";
pub const JAVA_SOURCE_VERSION: &'static str = "1.7";
pub const JAVA_TARGET_VERSION: &'static str = "1.7";
pub const FJALL_VERSION: &'static str = "1.6.4";
pub const GEOMESA_VERSION: &'static str = "1.2.0";
pub const GEOMESA_RUNTIME_GROUP_ID: &'static str = "org.locationtech.geomesa";
pub const GEOMESA_FJALL_RUNTIME_ARTIFACT_ID: &'static str = "geomesa-fjall-distributed-runtime";
pub const LEGACY_GEOMESA_RUNTIME_ARTIFACT_ID: &'static str = "geomesa-distributed-runtime";
pub const ZOOKEEPER_VERSION: &'static str = "3.4.6";
pub const ZOOKEEPER_GROUP_ID: &'static str = "org.apache.zookeeper";
pub const ZOOKEEPER_ARTIFACT_ID: &'static str = "zookeeper";
pub const RYA_MAPREDUCE_MODULE: &'static str = "mapreduce";
pub const RYA_MAPREDUCE_ARTIFACT_ID: &'static str = "rya.mapreduce";
pub const RYA_MERGER_MODULE: &'static str = "extras/rya.merger";
pub const RYA_MERGER_ARTIFACT_ID: &'static str = "rya.merger";
pub const FJALL_RYA_MODULE: &'static str = "dao/fjall.rya";
pub const FJALL_RYA_ARTIFACT_ID: &'static str = "fjall.rya";
pub const ANIMAL_SNIFFER_GROUP_ID: &'static str = "org.codehaus.mojo";
pub const ANIMAL_SNIFFER_ARTIFACT_ID: &'static str = "animal-sniffer-maven-plugin";
pub const ANIMAL_SNIFFER_VERSION: &'static str = "1.15";
pub const ANIMAL_SNIFFER_SIGNATURE_GROUP_ID: &'static str = "org.codehaus.mojo.signature";
pub const ANIMAL_SNIFFER_SIGNATURE_ARTIFACT_ID: &'static str = "java18";
pub const ANIMAL_SNIFFER_SIGNATURE_VERSION: &'static str = "1.0";

#[derive(Clone, Copy, Debug, PartialEq, Eq)]
pub struct MavenRepository {
    pub id: &'static str,
    pub url: &'static str,
}

#[derive(Clone, Copy, Debug, PartialEq, Eq)]
pub struct MavenDependency {
    pub group_id: &'static str,
    pub artifact_id: &'static str,
    pub version: &'static str,
}

#[derive(Clone, Copy, Debug, PartialEq, Eq)]
pub struct MavenScopedDependency {
    pub group_id: &'static str,
    pub artifact_id: &'static str,
    pub version: &'static str,
    pub scope: &'static str,
}

#[derive(Clone, Copy, Debug, PartialEq, Eq)]
pub struct MavenClassifiedScopedDependency {
    pub group_id: &'static str,
    pub artifact_id: &'static str,
    pub version: &'static str,
    pub classifier: Option<&'static str>,
    pub scope: &'static str,
}

#[derive(Clone, Copy, Debug, PartialEq, Eq)]
pub struct AssemblyDependencySet {
    pub output_directory: &'static str,
    pub includes: &'static [&'static str],
}

#[derive(Clone, Copy, Debug, PartialEq, Eq)]
pub struct MavenPluginExecution {
    pub group_id: &'static str,
    pub artifact_id: &'static str,
    pub version: &'static str,
    pub goals: &'static [&'static str],
}

#[derive(Clone, Copy, Debug, PartialEq, Eq)]
pub struct MavenRatConfiguration {
    pub excludes: &'static [&'static str],
}

#[derive(Clone, Copy, Debug, PartialEq, Eq)]
pub struct MavenShadeProfile {
    pub id: &'static str,
    pub transformer: &'static str,
}

#[derive(Clone, Copy, Debug, PartialEq, Eq)]
pub struct ManagedMavenPlugin {
    pub group_id: &'static str,
    pub artifact_id: &'static str,
    pub version: &'static str,
    pub signature: Option<MavenDependency>,
    pub execution_phase: Option<&'static str>,
    pub goals: &'static [&'static str],
}

#[derive(Clone, Copy, Debug, PartialEq, Eq)]
pub struct EnabledMavenPlugin {
    pub group_id: &'static str,
    pub artifact_id: &'static str,
}

#[derive(Clone, Copy, Debug, PartialEq, Eq)]
pub struct MavenModule {
    pub path: &'static str,
    pub artifact_id: &'static str,
    pub name: &'static str,
}

/// The texts of a sequence of string slices.
pub open spec fn strs(v: Seq<&'static str>) -> Seq<Seq<char>> {
    v.map_values(|s: &'static str| s@)
}

/// The three coordinates of a dependency.
pub open spec fn dep(d: MavenDependency) -> (Seq<char>, Seq<char>, Seq<char>) {
    (d.group_id@, d.artifact_id@, d.version@)
}

/// The coordinates and the scope of a classified dependency.
pub open spec fn classified(d: MavenClassifiedScopedDependency) -> (
    Seq<char>,
    Seq<char>,
    Seq<char>,
    Option<Seq<char>>,
    Seq<char>,
) {
    (d.group_id@, d.artifact_id@, d.version@, crate::domain::opt_str_view(d.classifier), d.scope@)
}

pub fn rya_version() -> (r: &'static str)
    ensures
        r@ == RYA_VERSION@,
{
    RYA_VERSION
}

pub fn maven_min_version() -> (r: &'static str)
    ensures
        r@ == MAVEN_MIN_VERSION@,
{
    MAVEN_MIN_VERSION
}

pub fn java_source_version() -> (r: &'static str)
    ensures
        r@ == JAVA_SOURCE_VERSION@,
{
    JAVA_SOURCE_VERSION
}

pub fn java_target_version() -> (r: &'static str)
    ensures
        r@ == JAVA_TARGET_VERSION@,
{
    JAVA_TARGET_VERSION
}

pub fn geomesa_version() -> (r: &'static str)
    ensures
        r@ == GEOMESA_VERSION@,
{
    GEOMESA_VERSION
}

pub fn fjall_version() -> (r: &'static str)
    ensures
        r@ == FJALL_VERSION@,
{
    FJALL_VERSION
}

pub fn zookeeper_version() -> (r: &'static str)
    ensures
        r@ == ZOOKEEPER_VERSION@,
{
    ZOOKEEPER_VERSION
}

/// The LocationTech snapshot, release and third-party repositories.
pub fn locationtech_repositories() -> (r: &'static [MavenRepository])
    ensures
        r@.len() == 3,
        r@[0].id@ == "LocationTech - SNAPSHOT"@,
        r@[0].url@ == "https://repo.locationtech.org/content/repositories/snapshots/"@,
        r@[1].id@ == "LocationTech - RELEASE"@,
        r@[1].url@ == "https://repo.locationtech.org/content/repositories/releases/"@,
        r@[2].id@ == "LocationTech - Third Party"@,
        r@[2].url@ == "https://repo.locationtech.org/content/repositories/thirdparty/"@,
{
    &[
        MavenRepository {
            id: "LocationTech - SNAPSHOT",
            url: "https://repo.locationtech.org/content/repositories/snapshots/",
        },
        MavenRepository {
            id: "LocationTech - RELEASE",
            url: "https://repo.locationtech.org/content/repositories/releases/",
        },
        MavenRepository {
            id: "LocationTech - Third Party",
            url: "https://repo.locationtech.org/content/repositories/thirdparty/",
        },
    ]
}

/// The top-level modules of the build, in order.
pub fn top_level_modules() -> (r: &'static [&'static str])
    ensures
        strs(r@) == seq![
            "common"@,
            "dao"@,
            "extras"@,
            RYA_MAPREDUCE_MODULE@,
            "osgi"@,
            "pig"@,
            "sail"@,
            "spark"@,
            "test"@,
            "web"@,
        ],
{
    let r: &'static [&'static str] = &[
        "common",
        "dao",
        "extras",
        RYA_MAPREDUCE_MODULE,
        "osgi",
        "pig",
        "sail",
        "spark",
        "test",
        "web",
    ];
    assert(strs(r@) =~= seq![
        "common"@,
        "dao"@,
        "extras"@,
        RYA_MAPREDUCE_MODULE@,
        "osgi"@,
        "pig"@,
        "sail"@,
        "spark"@,
        "test"@,
        "web"@,
    ]);
    r
}

pub fn rya_mapreduce_module() -> (r: MavenModule)
    ensures
        r.path@ == RYA_MAPREDUCE_MODULE@,
        r.artifact_id@ == RYA_MAPREDUCE_ARTIFACT_ID@,
        r.name@ == "Apache Rya MapReduce Tools"@,
{
    MavenModule {
        path: RYA_MAPREDUCE_MODULE,
        artifact_id: RYA_MAPREDUCE_ARTIFACT_ID,
        name: "Apache Rya MapReduce Tools",
    }
}

pub fn rya_mapreduce_dependency() -> (r: MavenDependency)
    ensures
        dep(r) == ("org.apache.rya"@, RYA_MAPREDUCE_ARTIFACT_ID@, RYA_VERSION@),
{
    MavenDependency {
        group_id: "org.apache.rya",
        artifact_id: RYA_MAPREDUCE_ARTIFACT_ID,
        version: RYA_VERSION,
    }
}

/// The dependencies of the MapReduce module, in order.
pub fn rya_mapreduce_dependencies() -> (r: &'static [MavenDependency])
    ensures
        r@.map_values(|d: MavenDependency| dep(d)) == seq![
            ("org.apache.rya"@, "rya.api"@, RYA_VERSION@),
            ("org.apache.rya"@, "fjall.rya"@, RYA_VERSION@),
            ("org.apache.rya"@, "rya.indexing"@, RYA_VERSION@),
            ("org.apache.fjall"@, "fjall-core"@, FJALL_VERSION@),
            ("commons-lang"@, "commons-lang"@, "${commons.lang.version}"@),
            ("org.openrdf.sesame"@, "sesame-rio-ntriples"@, "${openrdf.sesame.version}"@),
            ("org.openrdf.sesame"@, "sesame-rio-nquads"@, "${openrdf.sesame.version}"@),
        ],
{
    let r: &'static [MavenDependency] = &[
        MavenDependency { group_id: "org.apache.rya", artifact_id: "rya.api", version: RYA_VERSION },
        MavenDependency {
            group_id: "org.apache.rya",
            artifact_id: "fjall.rya",
            version: RYA_VERSION,
        },
        MavenDependency {
            group_id: "org.apache.rya",
            artifact_id: "rya.indexing",
            version: RYA_VERSION,
        },
        MavenDependency {
            group_id: "org.apache.fjall",
            artifact_id: "fjall-core",
            version: FJALL_VERSION,
        },
        MavenDependency {
            group_id: "commons-lang",
            artifact_id: "commons-lang",
            version: "${commons.lang.version}",
        },
        MavenDependency {
            group_id: "org.openrdf.sesame",
            artifact_id: "sesame-rio-ntriples",
            version: "${openrdf.sesame.version}",
        },
        MavenDependency {
            group_id: "org.openrdf.sesame",
            artifact_id: "sesame-rio-nquads",
            version: "${openrdf.sesame.version}",
        },
    ];
    assert(r@.map_values(|d: MavenDependency| dep(d)) =~= seq![
        ("org.apache.rya"@, "rya.api"@, RYA_VERSION@),
        ("org.apache.rya"@, "fjall.rya"@, RYA_VERSION@),
        ("org.apache.rya"@, "rya.indexing"@, RYA_VERSION@),
        ("org.apache.fjall"@, "fjall-core"@, FJALL_VERSION@),
        ("commons-lang"@, "commons-lang"@, "${commons.lang.version}"@),
        ("org.openrdf.sesame"@, "sesame-rio-ntriples"@, "${openrdf.sesame.version}"@),
        ("org.openrdf.sesame"@, "sesame-rio-nquads"@, "${openrdf.sesame.version}"@),
    ]);
    r
}

pub fn rya_merger_module() -> (r: MavenModule)
    ensures
        r.path@ == RYA_MERGER_MODULE@,
        r.artifact_id@ == RYA_MERGER_ARTIFACT_ID@,
        r.name@ == "Apache Rya Merger Tools"@,
{
    MavenModule {
        path: RYA_MERGER_MODULE,
        artifact_id: RYA_MERGER_ARTIFACT_ID,
        name: "Apache Rya Merger Tools",
    }
}

pub fn rya_merger_dependency() -> (r: MavenDependency)
    ensures
        dep(r) == ("org.apache.rya"@, RYA_MERGER_ARTIFACT_ID@, RYA_VERSION@),
{
    MavenDependency {
        group_id: "org.apache.rya",
        artifact_id: RYA_MERGER_ARTIFACT_ID,
        version: RYA_VERSION,
    }
}

pub fn fjall_rya_module() -> (r: MavenModule)
    ensures
        r.path@ == FJALL_RYA_MODULE@,
        r.artifact_id@ == FJALL_RYA_ARTIFACT_ID@,
        r.name@ == "Apache Rya Fjall DAO"@,
{
    MavenModule {
        path: FJALL_RYA_MODULE,
        artifact_id: FJALL_RYA_ARTIFACT_ID,
        name: "Apache Rya Fjall DAO",
    }
}

/// The runtime dependencies of the Fjall DAO module, in order.
pub fn fjall_rya_runtime_dependencies() -> (r: &'static [MavenDependency])
    ensures
        r@.map_values(|d: MavenDependency| dep(d)) == seq![
            ("org.apache.rya"@, "rya.api"@, RYA_VERSION@),
            ("org.apache.fjall"@, "fjall-core"@, FJALL_VERSION@),
            ("org.openrdf.sesame"@, "sesame-rio-ntriples"@, "${openrdf.sesame.version}"@),
            ("org.openrdf.sesame"@, "sesame-rio-nquads"@, "${openrdf.sesame.version}"@),
            (
                "org.openrdf.sesame"@,
                "sesame-queryalgebra-evaluation"@,
                "${openrdf.sesame.version}"@,
            ),
        ],
{
    let r: &'static [MavenDependency] = &[
        MavenDependency { group_id: "org.apache.rya", artifact_id: "rya.api", version: RYA_VERSION },
        MavenDependency {
            group_id: "org.apache.fjall",
            artifact_id: "fjall-core",
            version: FJALL_VERSION,
        },
        MavenDependency {
            group_id: "org.openrdf.sesame",
            artifact_id: "sesame-rio-ntriples",
            version: "${openrdf.sesame.version}",
        },
        MavenDependency {
            group_id: "org.openrdf.sesame",
            artifact_id: "sesame-rio-nquads",
            version: "${openrdf.sesame.version}",
        },
        MavenDependency {
            group_id: "org.openrdf.sesame",
            artifact_id: "sesame-queryalgebra-evaluation",
            version: "${openrdf.sesame.version}",
        },
    ];
    assert(r@.map_values(|d: MavenDependency| dep(d)) =~= seq![
        ("org.apache.rya"@, "rya.api"@, RYA_VERSION@),
        ("org.apache.fjall"@, "fjall-core"@, FJALL_VERSION@),
        ("org.openrdf.sesame"@, "sesame-rio-ntriples"@, "${openrdf.sesame.version}"@),
        ("org.openrdf.sesame"@, "sesame-rio-nquads"@, "${openrdf.sesame.version}"@),
        ("org.openrdf.sesame"@, "sesame-queryalgebra-evaluation"@, "${openrdf.sesame.version}"@),
    ]);
    r
}

/// The test dependencies of the Fjall DAO module, in order.
pub fn fjall_rya_test_dependencies() -> (r: &'static [MavenClassifiedScopedDependency])
    ensures
        r@.map_values(|d: MavenClassifiedScopedDependency| classified(d)) == seq![
            (
                "org.openrdf.sesame"@,
                "sesame-rio-trig"@,
                "${openrdf.sesame.version}"@,
                None,
                "test"@,
            ),
            ("junit"@, "junit"@, "${junit.version}"@, None, "test"@),
            ("org.apache.mrunit"@, "mrunit"@, "1.1.0"@, Some("hadoop2"@), "test"@),
            ("org.apache.fjall"@, "fjall-minicluster"@, FJALL_VERSION@, None, "test"@),
        ],
{
    let r: &'static [MavenClassifiedScopedDependency] = &[
        MavenClassifiedScopedDependency {
            group_id: "org.openrdf.sesame",
            artifact_id: "sesame-rio-trig",
            version: "${openrdf.sesame.version}",
            classifier: None,
            scope: "test",
        },
        MavenClassifiedScopedDependency {
            group_id: "junit",
            artifact_id: "junit",
            version: "${junit.version}",
            classifier: None,
            scope: "test",
        },
        MavenClassifiedScopedDependency {
            group_id: "org.apache.mrunit",
            artifact_id: "mrunit",
            version: "1.1.0",
            classifier: Some("hadoop2"),
            scope: "test",
        },
        MavenClassifiedScopedDependency {
            group_id: "org.apache.fjall",
            artifact_id: "fjall-minicluster",
            version: FJALL_VERSION,
            classifier: None,
            scope: "test",
        },
    ];
    assert(r@.map_values(|d: MavenClassifiedScopedDependency| classified(d)) =~= seq![
        ("org.openrdf.sesame"@, "sesame-rio-trig"@, "${openrdf.sesame.version}"@, None, "test"@),
        ("junit"@, "junit"@, "${junit.version}"@, None, "test"@),
        ("org.apache.mrunit"@, "mrunit"@, "1.1.0"@, Some("hadoop2"@), "test"@),
        ("org.apache.fjall"@, "fjall-minicluster"@, FJALL_VERSION@, None, "test"@),
    ]);
    r
}

pub fn geomesa_fjall_runtime_dependency() -> (r: MavenDependency)
    ensures
        dep(r) == (GEOMESA_RUNTIME_GROUP_ID@, GEOMESA_FJALL_RUNTIME_ARTIFACT_ID@, GEOMESA_VERSION@),
{
    MavenDependency {
        group_id: GEOMESA_RUNTIME_GROUP_ID,
        artifact_id: GEOMESA_FJALL_RUNTIME_ARTIFACT_ID,
        version: GEOMESA_VERSION,
    }
}

pub fn zookeeper_dependency() -> (r: MavenDependency)
    ensures
        dep(r) == (ZOOKEEPER_GROUP_ID@, ZOOKEEPER_ARTIFACT_ID@, ZOOKEEPER_VERSION@),
{
    MavenDependency {
        group_id: ZOOKEEPER_GROUP_ID,
        artifact_id: ZOOKEEPER_ARTIFACT_ID,
        version: ZOOKEEPER_VERSION,
    }
}

pub fn indexing_fjall_minicluster_test_dependency() -> (r: MavenScopedDependency)
    ensures
        r.group_id@ == "org.apache.fjall"@,
        r.artifact_id@ == "fjall-minicluster"@,
        r.version@ == FJALL_VERSION@,
        r.scope@ == "test"@,
{
    MavenScopedDependency {
        group_id: "org.apache.fjall",
        artifact_id: "fjall-minicluster",
        version: FJALL_VERSION,
        scope: "test",
    }
}

pub fn indexing_example_fjall_ext_dependency_set() -> (r: AssemblyDependencySet)
    ensures
        r.output_directory@ == "fjall/lib/ext"@,
        strs(r.includes@) == seq![
            "org.apache.rya:rya.indexing:*:fjall-server"@,
            "org.locationtech.geomesa:geomesa-fjall-distributed-runtime:*"@,
        ],
{
    let includes: &'static [&'static str] = &[
        "org.apache.rya:rya.indexing:*:fjall-server",
        "org.locationtech.geomesa:geomesa-fjall-distributed-runtime:*",
    ];
    assert(strs(includes@) =~= seq![
        "org.apache.rya:rya.indexing:*:fjall-server"@,
        "org.locationtech.geomesa:geomesa-fjall-distributed-runtime:*"@,
    ]);
    AssemblyDependencySet { output_directory: "fjall/lib/ext", includes }
}

pub fn fjall_rya_failsafe_plugin() -> (r: MavenPluginExecution)
    ensures
        r.group_id@ == "org.apache.maven.plugins"@,
        r.artifact_id@ == "maven-failsafe-plugin"@,
        r.version@ == "${maven-failsafe-plugin.version}"@,
        strs(r.goals@) == seq!["integration-test"@, "verify"@],
{
    let goals: &'static [&'static str] = &["integration-test", "verify"];
    assert(strs(goals@) =~= seq!["integration-test"@, "verify"@]);
    MavenPluginExecution {
        group_id: "org.apache.maven.plugins",
        artifact_id: "maven-failsafe-plugin",
        version: "${maven-failsafe-plugin.version}",
        goals,
    }
}

pub fn fjall_rya_rat_configuration() -> (r: MavenRatConfiguration)
    ensures
        strs(r.excludes@) == seq!["**/*.ntriples"@, "**/*.trig"@],
{
    let excludes: &'static [&'static str] = &["**/*.ntriples", "**/*.trig"];
    assert(strs(excludes@) =~= seq!["**/*.ntriples"@, "**/*.trig"@]);
    MavenRatConfiguration { excludes }
}

pub fn fjall_rya_mr_shade_profile() -> (r: MavenShadeProfile)
    ensures
        r.id@ == "mr"@,
        r.transformer@ == "org.apache.maven.plugins.shade.resource.ServicesResourceTransformer"@,
{
    MavenShadeProfile {
        id: "mr",
        transformer: "org.apache.maven.plugins.shade.resource.ServicesResourceTransformer",
    }
}

pub fn animal_sniffer_managed_plugin() -> (r: ManagedMavenPlugin)
    ensures
        r.group_id@ == ANIMAL_SNIFFER_GROUP_ID@,
        r.artifact_id@ == ANIMAL_SNIFFER_ARTIFACT_ID@,
        r.version@ == ANIMAL_SNIFFER_VERSION@,
        r.signature matches Some(s) && dep(s) == (
            ANIMAL_SNIFFER_SIGNATURE_GROUP_ID@,
            ANIMAL_SNIFFER_SIGNATURE_ARTIFACT_ID@,
            ANIMAL_SNIFFER_SIGNATURE_VERSION@,
        ),
        crate::domain::opt_str_view(r.execution_phase) == Some("test"@),
        strs(r.goals@) == seq!["check"@],
{
    let goals: &'static [&'static str] = &["check"];
    assert(strs(goals@) =~= seq!["check"@]);
    ManagedMavenPlugin {
        group_id: ANIMAL_SNIFFER_GROUP_ID,
        artifact_id: ANIMAL_SNIFFER_ARTIFACT_ID,
        version: ANIMAL_SNIFFER_VERSION,
        signature: Some(
            MavenDependency {
                group_id: ANIMAL_SNIFFER_SIGNATURE_GROUP_ID,
                artifact_id: ANIMAL_SNIFFER_SIGNATURE_ARTIFACT_ID,
                version: ANIMAL_SNIFFER_SIGNATURE_VERSION,
            },
        ),
        execution_phase: Some("test"),
        goals,
    }
}

pub fn animal_sniffer_enabled_plugin() -> (r: EnabledMavenPlugin)
    ensures
        r.group_id@ == ANIMAL_SNIFFER_GROUP_ID@,
        r.artifact_id@ == ANIMAL_SNIFFER_ARTIFACT_ID@,
{
    EnabledMavenPlugin { group_id: ANIMAL_SNIFFER_GROUP_ID, artifact_id: ANIMAL_SNIFFER_ARTIFACT_ID }
}

/// Whether `artifact_id` names the retired GeoMesa runtime.
pub fn is_legacy_geomesa_runtime_artifact(artifact_id: &str) -> (r: bool)
    ensures
        r == (artifact_id@ == LEGACY_GEOMESA_RUNTIME_ARTIFACT_ID@),
{
    crate::text::str_eq(artifact_id, LEGACY_GEOMESA_RUNTIME_ARTIFACT_ID)
}

/// Whether `version` is a snapshot version (ends with `-SNAPSHOT`).
pub fn is_snapshot_version(version: &str) -> (r: bool)
    ensures
        r == crate::text::ends_with_seq(version@, "-SNAPSHOT"@),
{
    ends_with(version, "-SNAPSHOT")
}

/// The value of a version component, when it parses as a `u64`.
pub open spec fn component(s: Seq<char>) -> Option<int> {
    parse_in_range(crate::text::parse_unsigned_spec(s), 0, u64::MAX as int)
}

/// The `major.minor.patch` triple of a version, ignoring anything after the first `-`.
pub open spec fn version_triple(version: Seq<char>) -> Option<(int, int, int)> {
    let base = match crate::text::split_once_spec(version, '-') {
        Some((b, _)) => b,
        None => version,
    };
    let parts = crate::text::split_spec(base, '.');
    if parts.len() == 3 && component(parts[0]) is Some && component(parts[1]) is Some && component(
        parts[2],
    ) is Some {
        Some((component(parts[0])->0, component(parts[1])->0, component(parts[2])->0))
    } else {
        None
    }
}

/// Lexicographic order on version triples.
pub open spec fn triple_ge(a: (int, int, int), b: (int, int, int)) -> bool {
    a.0 > b.0 || (a.0 == b.0 && (a.1 > b.1 || (a.1 == b.1 && a.2 >= b.2)))
}

/// The `major.minor.patch` triple of a version.
pub fn parse_version(version: &str) -> (r: Option<(u64, u64, u64)>)
    ensures
        match r {
            Some((a, b, c)) => version_triple(version@) == Some((a as int, b as int, c as int)),
            None => version_triple(version@) is None,
        },
{
    let base = match split_once_char(version, '-') {
        Some((b, _)) => b,
        None => crate::text::to_owned(version),
    };
    let parts = split_char(base.as_str(), '.');
    proof {
        assert(views(parts@).len() == parts@.len());
    }
    if parts.len() != 3 {
        return None;
    }
    assert(views(parts@)[0] == parts@[0]@);
    assert(views(parts@)[1] == parts@[1]@);
    assert(views(parts@)[2] == parts@[2]@);
    let major = match parse_u64(parts[0].as_str()) {
        Some(v) => v,
        None => return None,
    };
    let minor = match parse_u64(parts[1].as_str()) {
        Some(v) => v,
        None => return None,
    };
    let patch = match parse_u64(parts[2].as_str()) {
        Some(v) => v,
        None => return None,
    };
    Some((major, minor, patch))
}

/// Whether `version` is at least the minimum supported Maven version; `false` when either
/// does not parse.
pub fn is_supported_maven_version(version: &str) -> (r: bool)
    ensures
        r == (version_triple(version@) is Some && version_triple(MAVEN_MIN_VERSION@) is Some
            && triple_ge(version_triple(version@)->0, version_triple(MAVEN_MIN_VERSION@)->0)),
{
    match (parse_version(version), parse_version(MAVEN_MIN_VERSION)) {
        (Some(v), Some(m)) => v.0 > m.0 || (v.0 == m.0 && (v.1 > m.1 || (v.1 == m.1 && v.2 >= m.2))),
        _ => false,
    }
}

} // verus!
