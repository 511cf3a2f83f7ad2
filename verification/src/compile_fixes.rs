use vstd::prelude::*;

use crate::seqs::{lemma_filter_take_step, lemma_filter_take_zero, lemma_take_full};
use crate::text::{str_eq, strip_prefix_or_keep, strip_prefix_or_self};

verus! {

#[derive(Clone, Copy, Debug, PartialEq, Eq, Structural)]
pub enum JavaCompileFixKind {
    PropagatesInferenceEngineException,
    UsesSailConfigFactoryImport,
    RemovesStaleDuplicatePcjTest,
    RemovesMergeConflictDuplicateBlock,
}

#[derive(Clone, Copy, Debug, PartialEq, Eq)]
pub struct JavaCompileFix {
    pub path: &'static str,
    pub symbol: &'static str,
    pub kind: JavaCompileFixKind,
    pub retained_rust_fixture: Option<&'static str>,
}

pub const RYA_11_COMPILE_FIX_COMMIT: &'static str = "358c13b83dc04887f95afee1c326971602d31647";
pub const RYA_11_COMPILE_FIX_SUBJECT: &'static str = "RYA-11 fixing compile errors";
pub const MERGE_CONFLICT_FIX_COMMIT: &'static str = "8ac8b394aefd51be7b9e854a1e14db48d9152e2e";
pub const RYA_SAIL_CONFIG_FACTORY_IMPORT: &'static str = "mvm.rya.sail.config.RyaSailFactory";
pub const REMOVED_INDEXING_FACTORY_IMPORT: &'static str = "mvm.rya.indexing.RyaSailFactory";
pub const REMOVED_DIRECT_AUTH_EXAMPLE_STEP: &'static str =
    "Running SPARQL Example: Add with Visibilities and Query with Authorizations";

/// A compile fix as values: path, symbol, kind and retained fixture.
pub type FixModel = (Seq<char>, Seq<char>, JavaCompileFixKind, Option<Seq<char>>);

pub open spec fn fix_model(f: JavaCompileFix) -> FixModel {
    (f.path@, f.symbol@, f.kind, crate::domain::opt_str_view(f.retained_rust_fixture))
}

/// A repository path without one leading `./`.
pub open spec fn normalized_repo_path(path: Seq<char>) -> Seq<char> {
    strip_prefix_or_self(path, "./"@)
}

/// Holds of the fixes recorded for `path`.
pub open spec fn fix_for_path(path: Seq<char>) -> spec_fn(FixModel) -> bool {
    |f: FixModel| f.0 == path
}

/// The fixes recorded for a path, in table order.
pub open spec fn fixes_for(path: Seq<char>) -> Seq<FixModel> {
    rya_11_compile_fixes_table().filter(fix_for_path(normalized_repo_path(path)))
}

/// The fixes recorded for a path (after removing a leading `./`), in table order.
pub fn compile_fixes_for_path(path: &str) -> (r: Vec<JavaCompileFix>)
    ensures
        r@.map_values(|f: JavaCompileFix| fix_model(f)) == fixes_for(path@),
{
    let normalized = strip_prefix_or_keep(path, "./");
    let table = rya_11_compile_fixes();
    let ghost t = rya_11_compile_fixes_table();
    let ghost pred = fix_for_path(normalized@);
    let mut out: Vec<JavaCompileFix> = Vec::new();
    let mut i: usize = 0;
    proof {
        lemma_filter_take_zero(t, pred);
    }
    while i < table.len()
        invariant
            table@.map_values(|f: JavaCompileFix| fix_model(f)) == t,
            t == rya_11_compile_fixes_table(),
            pred == fix_for_path(normalized@),
            normalized@ == normalized_repo_path(path@),
            i <= table@.len(),
            out@.map_values(|f: JavaCompileFix| fix_model(f)) == t.take(i as int).filter(pred),
        decreases table.len() - i,
    {
        proof {
            lemma_filter_take_step(t, pred, i as int);
        }
        assert(fix_model(table@[i as int]) == t[i as int]);
        let f = table[i];
        if str_eq(f.path, normalized.as_str()) {
            let ghost before = out@;
            out.push(f);
            assert(out@.map_values(|f: JavaCompileFix| fix_model(f)) =~= before.map_values(
                |f: JavaCompileFix| fix_model(f),
            ).push(fix_model(f)));
        }
        i = i + 1;
    }
    proof {
        lemma_take_full(t);
    }
    out
}

/// Whether some fix for `path` with the given symbol propagates the inference engine exception.
pub fn requires_inference_engine_exception(path: &str, symbol: &str) -> (r: bool)
    ensures
        r == exists|k: int|
            0 <= k < fixes_for(path@).len() && (#[trigger] fixes_for(path@)[k]).2
                == JavaCompileFixKind::PropagatesInferenceEngineException && fixes_for(path@)[k].1
                == symbol@,
{
    let fixes = compile_fixes_for_path(path);
    let ghost fs = fixes_for(path@);
    let mut i: usize = 0;
    while i < fixes.len()
        invariant
            fixes@.map_values(|f: JavaCompileFix| fix_model(f)) == fs,
            fs == fixes_for(path@),
            i <= fixes@.len(),
            forall|k: int|
                0 <= k < i ==> !((#[trigger] fs[k]).2
                    == JavaCompileFixKind::PropagatesInferenceEngineException && fs[k].1
                    == symbol@),
        decreases fixes.len() - i,
    {
        assert(fs[i as int] == fix_model(fixes@[i as int]));
        if fixes[i].kind == JavaCompileFixKind::PropagatesInferenceEngineException && str_eq(
            fixes[i].symbol,
            symbol,
        ) {
            return true;
        }
        i = i + 1;
    }
    false
}

/// Whether some fix for `path` has the given kind.
fn has_fix_kind(path: &str, kind: JavaCompileFixKind) -> (r: bool)
    ensures
        r == exists|k: int| 0 <= k < fixes_for(path@).len() && (#[trigger] fixes_for(path@)[k]).2 == kind,
{
    let fixes = compile_fixes_for_path(path);
    let ghost fs = fixes_for(path@);
    let mut i: usize = 0;
    while i < fixes.len()
        invariant
            fixes@.map_values(|f: JavaCompileFix| fix_model(f)) == fs,
            fs == fixes_for(path@),
            i <= fixes@.len(),
            forall|k: int| 0 <= k < i ==> (#[trigger] fs[k]).2 != kind,
        decreases fixes.len() - i,
    {
        assert(fs[i as int] == fix_model(fixes@[i as int]));
        if fixes[i].kind == kind {
            return true;
        }
        i = i + 1;
    }
    false
}

/// Whether the path switched to the Sail configuration factory import.
pub fn uses_sail_config_factory_import(path: &str) -> (r: bool)
    ensures
        r == exists|k: int|
            0 <= k < fixes_for(path@).len() && (#[trigger] fixes_for(path@)[k]).2
                == JavaCompileFixKind::UsesSailConfigFactoryImport,
{
    has_fix_kind(path, JavaCompileFixKind::UsesSailConfigFactoryImport)
}

/// Whether the path is the stale duplicate PCJ test that was removed.
pub fn is_removed_stale_pcj_test(path: &str) -> (r: bool)
    ensures
        r == exists|k: int|
            0 <= k < fixes_for(path@).len() && (#[trigger] fixes_for(path@)[k]).2
                == JavaCompileFixKind::RemovesStaleDuplicatePcjTest,
{
    has_fix_kind(path, JavaCompileFixKind::RemovesStaleDuplicatePcjTest)
}

/// The retained fixture of the first fix for `path` that names one.
pub open spec fn first_retained_fixture(fs: Seq<FixModel>) -> Option<Seq<char>>
    decreases fs.len(),
{
    if fs.len() == 0 {
        None
    } else if fs[0].3 is Some {
        fs[0].3
    } else {
        first_retained_fixture(fs.drop_first())
    }
}

/// The retained fixture of the first fix for `path` that names one.
pub fn retained_fixture_for_compile_fix(path: &str) -> (r: Option<&'static str>)
    ensures
        crate::domain::opt_str_view(r) == first_retained_fixture(fixes_for(path@)),
{
    let fixes = compile_fixes_for_path(path);
    let ghost fs = fixes_for(path@);
    let mut i: usize = 0;
    assert(fs.skip(0) =~= fs);
    while i < fixes.len()
        invariant
            fixes@.map_values(|f: JavaCompileFix| fix_model(f)) == fs,
            fs == fixes_for(path@),
            i <= fixes@.len(),
            first_retained_fixture(fs) == first_retained_fixture(fs.skip(i as int)),
        decreases fixes.len() - i,
    {
        assert(fs[i as int] == fix_model(fixes@[i as int]));
        assert(fs.skip(i as int)[0] == fs[i as int]);
        if let Some(fixture) = fixes[i].retained_rust_fixture {
            return Some(fixture);
        }
        assert(fs.skip(i as int).drop_first() =~= fs.skip(i + 1));
        i = i + 1;
    }
    None
}

/// The RYA-11 compile fixes, as values.
pub open spec fn rya_11_compile_fixes_table() -> Seq<FixModel> {
    seq![
        ("extras/indexing/src/test/java/mvm/rya/indexing/external/FjallConstantPcjIntegrationTest.java"@, "init"@, JavaCompileFixKind::PropagatesInferenceEngineException, Some("src/pcj.rs"@)),
        ("extras/indexing/src/test/java/mvm/rya/indexing/external/FjallPcjIntegrationTest.java"@, "init"@, JavaCompileFixKind::PropagatesInferenceEngineException, Some("src/pcj.rs"@)),
        ("extras/indexing/src/test/java/mvm/rya/indexing/external/PcjIntegrationTestingUtil.java"@, "getPcjRepo"@, JavaCompileFixKind::PropagatesInferenceEngineException, Some("src/store.rs"@)),
        ("extras/indexing/src/test/java/mvm/rya/indexing/external/PcjIntegrationTestingUtil.java"@, "getNonPcjRepo"@, JavaCompileFixKind::PropagatesInferenceEngineException, Some("src/store.rs"@)),
        ("extras/indexing/src/test/java/mvm/rya/indexing/external/PrecompJoinOptimizerIntegrationTest.java"@, "test methods creating PCJ repositories"@, JavaCompileFixKind::PropagatesInferenceEngineException, Some("src/pcj.rs"@)),
        ("extras/indexing/src/test/java/mvm/rya/indexing/external/PrecompJoinOptimizerIntegrationTest.java"@, "stale merge-conflict test body"@, JavaCompileFixKind::RemovesMergeConflictDuplicateBlock, Some("src/pcj.rs"@)),
        ("extras/indexing/src/test/java/mvm/rya/indexing/external/tupleSet/FjallIndexSetTest.java"@, "init"@, JavaCompileFixKind::PropagatesInferenceEngineException, Some("src/pcj.rs"@)),
        ("extras/indexing/src/test/java/mvm/rya/indexing/external/FjallIndexSetTest2.java"@, "class"@, JavaCompileFixKind::RemovesStaleDuplicatePcjTest, Some("src/pcj.rs"@)),
        ("extras/indexingExample/src/main/java/RyaDirectExample.java"@, "RyaSailFactory import"@, JavaCompileFixKind::UsesSailConfigFactoryImport, Some("src/store.rs"@)),
        ("extras/indexingExample/src/main/java/RyaDirectExample.java"@, "createPCJ"@, JavaCompileFixKind::PropagatesInferenceEngineException, Some("src/pcj.rs"@)),
    ]
}

/// The RYA-11 compile fixes.
pub fn rya_11_compile_fixes() -> (r: &'static [JavaCompileFix])
    ensures
        r@.map_values(|f: JavaCompileFix| fix_model(f)) == rya_11_compile_fixes_table(),
{
    let r: &'static [JavaCompileFix] = &[
        JavaCompileFix { path: "extras/indexing/src/test/java/mvm/rya/indexing/external/FjallConstantPcjIntegrationTest.java", symbol: "init", kind: JavaCompileFixKind::PropagatesInferenceEngineException, retained_rust_fixture: Some("src/pcj.rs") },
        JavaCompileFix { path: "extras/indexing/src/test/java/mvm/rya/indexing/external/FjallPcjIntegrationTest.java", symbol: "init", kind: JavaCompileFixKind::PropagatesInferenceEngineException, retained_rust_fixture: Some("src/pcj.rs") },
        JavaCompileFix { path: "extras/indexing/src/test/java/mvm/rya/indexing/external/PcjIntegrationTestingUtil.java", symbol: "getPcjRepo", kind: JavaCompileFixKind::PropagatesInferenceEngineException, retained_rust_fixture: Some("src/store.rs") },
        JavaCompileFix { path: "extras/indexing/src/test/java/mvm/rya/indexing/external/PcjIntegrationTestingUtil.java", symbol: "getNonPcjRepo", kind: JavaCompileFixKind::PropagatesInferenceEngineException, retained_rust_fixture: Some("src/store.rs") },
        JavaCompileFix { path: "extras/indexing/src/test/java/mvm/rya/indexing/external/PrecompJoinOptimizerIntegrationTest.java", symbol: "test methods creating PCJ repositories", kind: JavaCompileFixKind::PropagatesInferenceEngineException, retained_rust_fixture: Some("src/pcj.rs") },
        JavaCompileFix { path: "extras/indexing/src/test/java/mvm/rya/indexing/external/PrecompJoinOptimizerIntegrationTest.java", symbol: "stale merge-conflict test body", kind: JavaCompileFixKind::RemovesMergeConflictDuplicateBlock, retained_rust_fixture: Some("src/pcj.rs") },
        JavaCompileFix { path: "extras/indexing/src/test/java/mvm/rya/indexing/external/tupleSet/FjallIndexSetTest.java", symbol: "init", kind: JavaCompileFixKind::PropagatesInferenceEngineException, retained_rust_fixture: Some("src/pcj.rs") },
        JavaCompileFix { path: "extras/indexing/src/test/java/mvm/rya/indexing/external/FjallIndexSetTest2.java", symbol: "class", kind: JavaCompileFixKind::RemovesStaleDuplicatePcjTest, retained_rust_fixture: Some("src/pcj.rs") },
        JavaCompileFix { path: "extras/indexingExample/src/main/java/RyaDirectExample.java", symbol: "RyaSailFactory import", kind: JavaCompileFixKind::UsesSailConfigFactoryImport, retained_rust_fixture: Some("src/store.rs") },
        JavaCompileFix { path: "extras/indexingExample/src/main/java/RyaDirectExample.java", symbol: "createPCJ", kind: JavaCompileFixKind::PropagatesInferenceEngineException, retained_rust_fixture: Some("src/pcj.rs") },
    ];
    assert(fix_model(r@[0]) == rya_11_compile_fixes_table()[0]);
    assert(fix_model(r@[1]) == rya_11_compile_fixes_table()[1]);
    assert(fix_model(r@[2]) == rya_11_compile_fixes_table()[2]);
    assert(fix_model(r@[3]) == rya_11_compile_fixes_table()[3]);
    assert(fix_model(r@[4]) == rya_11_compile_fixes_table()[4]);
    assert(fix_model(r@[5]) == rya_11_compile_fixes_table()[5]);
    assert(fix_model(r@[6]) == rya_11_compile_fixes_table()[6]);
    assert(fix_model(r@[7]) == rya_11_compile_fixes_table()[7]);
    assert(fix_model(r@[8]) == rya_11_compile_fixes_table()[8]);
    assert(fix_model(r@[9]) == rya_11_compile_fixes_table()[9]);
    assert(r@.map_values(|f: JavaCompileFix| fix_model(f)) =~= rya_11_compile_fixes_table());
    r
}
} // verus!
