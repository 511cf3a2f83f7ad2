use vstd::prelude::*;

use crate::domain::opt_str_view;
use crate::text::{starts_with, starts_with_seq, str_eq, strip_prefix_or_keep, strip_prefix_or_self};

verus! {

/// A Java module that was retired in the Apache move clean-up.
#[derive(Clone, Copy, Debug, PartialEq, Eq)]
pub struct RetiredJavaModule {
    pub root: &'static str,
    pub reason: &'static str,
    pub retained_rust_fixture: Option<&'static str>,
}

pub const RYA_7_COMMIT: &'static str = "80faf06d48165e65271a52856238896521fcf218";
pub const RYA_7_SUBJECT: &'static str = "RYA-7 POM and License Clean-up for Apache Move";

/// A retired module as values: root, reason and retained fixture.
pub type RetiredModel = (Seq<char>, Seq<char>, Option<Seq<char>>);

pub open spec fn retired_model(m: RetiredJavaModule) -> RetiredModel {
    (m.root@, m.reason@, opt_str_view(m.retained_rust_fixture))
}

/// The retired partition modules, as values.
pub open spec fn retired_modules_table() -> Seq<RetiredModel> {
    seq![
        ("partition/common-query"@, "legacy Cloudbase iterator and filter module removed during Apache move cleanup"@, Some("src/partition.rs"@)),
        ("partition/iterator-test"@, "ad hoc Cloudbase iterator test harness removed during Apache move cleanup"@, None),
        ("partition/mr.partition.rdf"@, "legacy Hadoop MapReduce partition RDF module removed during Apache move cleanup"@, Some("src/partition.rs"@)),
        ("partition/partition.rdf"@, "legacy Sesame/Cloudbase partition Sail module removed during Apache move cleanup"@, Some("src/partition.rs"@)),
    ]
}

/// The retired partition modules.
pub fn rya_7_retired_partition_modules() -> (r: &'static [RetiredJavaModule])
    ensures
        r@.map_values(|m: RetiredJavaModule| retired_model(m)) == retired_modules_table(),
{
    let r: &'static [RetiredJavaModule] = &[
        RetiredJavaModule { root: "partition/common-query", reason: "legacy Cloudbase iterator and filter module removed during Apache move cleanup", retained_rust_fixture: Some("src/partition.rs") },
        RetiredJavaModule { root: "partition/iterator-test", reason: "ad hoc Cloudbase iterator test harness removed during Apache move cleanup", retained_rust_fixture: None },
        RetiredJavaModule { root: "partition/mr.partition.rdf", reason: "legacy Hadoop MapReduce partition RDF module removed during Apache move cleanup", retained_rust_fixture: Some("src/partition.rs") },
        RetiredJavaModule { root: "partition/partition.rdf", reason: "legacy Sesame/Cloudbase partition Sail module removed during Apache move cleanup", retained_rust_fixture: Some("src/partition.rs") },
    ];
    assert(retired_model(r@[0]) == retired_modules_table()[0]);
    assert(retired_model(r@[1]) == retired_modules_table()[1]);
    assert(retired_model(r@[2]) == retired_modules_table()[2]);
    assert(retired_model(r@[3]) == retired_modules_table()[3]);
    assert(r@.map_values(|m: RetiredJavaModule| retired_model(m)) =~= retired_modules_table());
    r
}

/// The test files deleted with the retired modules, as values.
pub open spec fn deleted_test_paths_table() -> Seq<Seq<char>> {
    seq![
        "partition/common-query/src/test/java/GVDateFilterTest.java"@,
        "partition/common-query/src/test/java/GVFrequencyFilterTest.java"@,
        "partition/common-query/src/test/java/IteratorTest.java"@,
        "partition/common-query/src/test/java/JTSFilterTest.java"@,
        "partition/common-query/src/test/java/OGCFilterTest.java"@,
        "partition/mr.partition.rdf/src/test/java/mvm/mmrts/rdf/partition/mr/compat/ChangeShardDateFormatToolTest.java"@,
        "partition/mr.partition.rdf/src/test/java/mvm/mmrts/rdf/partition/mr/fileinput/RdfFileInputToolTest.java"@,
        "partition/mr.partition.rdf/src/test/java/mvm/mmrts/rdf/partition/mr/fileinput/bulk/EmbedKeyRangePartitionerTest.java"@,
        "partition/partition.rdf/src/test/java/mvm/mmrts/rdf/partition/PartitionConnectionTest.java"@,
        "partition/partition.rdf/src/test/java/mvm/mmrts/rdf/partition/shard/DateHashModShardValueGeneratorTest.java"@,
        "partition/partition.rdf/src/test/java/mvm/mmrts/rdf/partition/utils/RdfIOTest.java"@,
    ]
}

/// The test files deleted with the retired modules.
pub fn rya_7_deleted_test_paths_in_part_3() -> (r: &'static [&'static str])
    ensures
        r@.map_values(|s: &'static str| s@) == deleted_test_paths_table(),
{
    let r: &'static [&'static str] = &[
        "partition/common-query/src/test/java/GVDateFilterTest.java",
        "partition/common-query/src/test/java/GVFrequencyFilterTest.java",
        "partition/common-query/src/test/java/IteratorTest.java",
        "partition/common-query/src/test/java/JTSFilterTest.java",
        "partition/common-query/src/test/java/OGCFilterTest.java",
        "partition/mr.partition.rdf/src/test/java/mvm/mmrts/rdf/partition/mr/compat/ChangeShardDateFormatToolTest.java",
        "partition/mr.partition.rdf/src/test/java/mvm/mmrts/rdf/partition/mr/fileinput/RdfFileInputToolTest.java",
        "partition/mr.partition.rdf/src/test/java/mvm/mmrts/rdf/partition/mr/fileinput/bulk/EmbedKeyRangePartitionerTest.java",
        "partition/partition.rdf/src/test/java/mvm/mmrts/rdf/partition/PartitionConnectionTest.java",
        "partition/partition.rdf/src/test/java/mvm/mmrts/rdf/partition/shard/DateHashModShardValueGeneratorTest.java",
        "partition/partition.rdf/src/test/java/mvm/mmrts/rdf/partition/utils/RdfIOTest.java",
    ];
    assert(r@.map_values(|s: &'static str| s@) =~= deleted_test_paths_table());
    r
}

/// A repository path without one leading `./`.
pub open spec fn normalized_repo_path(path: Seq<char>) -> Seq<char> {
    strip_prefix_or_self(path, "./"@)
}

/// Whether `path` is the module root itself or lies below it.
pub open spec fn under_root(path: Seq<char>, root: Seq<char>) -> bool {
    path == root || (starts_with_seq(path, root) && path.len() > root.len() && path[root.len() as int]
        == '/')
}

/// The index of the first retired module whose root holds `path`, from `k` on.
pub open spec fn first_module_from(path: Seq<char>, t: Seq<RetiredModel>, k: int) -> Option<int>
    decreases t.len() - k,
{
    if k < 0 || k >= t.len() {
        None
    } else if under_root(path, t[k].0) {
        Some(k)
    } else {
        first_module_from(path, t, k + 1)
    }
}

/// The retired module that holds `path`, as values.
pub open spec fn retired_module_spec(path: Seq<char>) -> Option<RetiredModel> {
    match first_module_from(normalized_repo_path(path), retired_modules_table(), 0) {
        Some(k) => Some(retired_modules_table()[k]),
        None => None,
    }
}

fn is_under_root(path: &str, root: &str) -> (r: bool)
    ensures
        r == under_root(path@, root@),
{
    if str_eq(path, root) {
        return true;
    }
    if !starts_with(path, root) {
        return false;
    }
    let cs = crate::text::chars_of(path);
    let n = crate::text::chars_of(root).len();
    if n < cs.len() {
        cs[n] == '/'
    } else {
        false
    }
}

/// The first retired module whose root is `path` (after removing a leading `./`) or a parent
/// directory of it.
pub fn rya7_retired_module_for_path(path: &str) -> (r: Option<RetiredJavaModule>)
    ensures
        match r {
            Some(m) => retired_module_spec(path@) == Some(retired_model(m)),
            None => retired_module_spec(path@) is None,
        },
{
    let normalized = strip_prefix_or_keep(path, "./");
    let table = rya_7_retired_partition_modules();
    let ghost t = retired_modules_table();
    let mut i: usize = 0;
    while i < table.len()
        invariant
            table@.map_values(|m: RetiredJavaModule| retired_model(m)) == t,
            t == retired_modules_table(),
            normalized@ == normalized_repo_path(path@),
            i <= table@.len(),
            first_module_from(normalized@, t, 0) == first_module_from(normalized@, t, i as int),
        decreases table.len() - i,
    {
        assert(retired_model(table@[i as int]) == t[i as int]);
        if is_under_root(normalized.as_str(), table[i].root) {
            return Some(table[i]);
        }
        i = i + 1;
    }
    None
}

/// Whether `path` (after removing a leading `./`) is one of the deleted test files.
pub fn is_rya7_deleted_test_path(path: &str) -> (r: bool)
    ensures
        r == deleted_test_paths_table().contains(normalized_repo_path(path@)),
{
    let normalized = strip_prefix_or_keep(path, "./");
    let table = rya_7_deleted_test_paths_in_part_3();
    let ghost t = deleted_test_paths_table();
    let mut i: usize = 0;
    while i < table.len()
        invariant
            table@.map_values(|s: &'static str| s@) == t,
            t == deleted_test_paths_table(),
            normalized@ == normalized_repo_path(path@),
            i <= table@.len(),
            forall|k: int| 0 <= k < i ==> t[k] != normalized@,
        decreases table.len() - i,
    {
        assert(t[i as int] == table@[i as int]@);
        if str_eq(table[i], normalized.as_str()) {
            assert(t[i as int] == normalized@);
            return true;
        }
        i = i + 1;
    }
    false
}

/// The fixture retained for the retired module that holds `path`.
pub fn retained_fixture_for_rya7_path(path: &str) -> (r: Option<&'static str>)
    ensures
        opt_str_view(r) == match retired_module_spec(path@) {
            Some(m) => m.2,
            None => None,
        },
{
    match rya7_retired_module_for_path(path) {
        Some(m) => m.retained_rust_fixture,
        None => None,
    }
}

} // verus!
