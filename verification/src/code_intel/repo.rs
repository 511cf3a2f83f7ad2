use vstd::prelude::*;

use crate::code_intel::graph::{
    CODE_NS, CodeTriple, GraphModel, RDF_TYPE, RepoCodeGraph, TripleText, add_triple, cat,
    empty_graph, record_file_spec, record_import_spec, record_manifest_spec,
    record_vulnerability_spec, triple_views,
};
use crate::code_intel::names::{
    file_uri, file_uri_spec, is_javascript_like, is_javascript_like_spec, is_manifest_path,
    is_manifest_path_spec, is_vulnerability_data_path, is_vulnerability_data_path_spec,
    language_for_path, language_spec, manifest_manager, manifest_manager_spec,
};
use crate::code_intel::scan::{
    cve_ids, cve_ids_spec, js_import_package, js_import_package_spec, package_refs,
    package_refs_spec,
};
use crate::code_intel::syntax::{analyze_rust_file, record_rust_syntax_spec, rust_syntax_tree};
use crate::fjall_mr::{lines_of, text_lines};
use crate::text::{ends_with, ends_with_seq, views};

verus! {

/// The most files of a repository that are read.
pub const MAX_REPO_FILES: usize = 400;

/// The most bytes of a file that are read.
pub const MAX_FILE_BYTES: usize = 65536;

/// The graph after recording the imports of the first `n` lines of a JavaScript file.
pub open spec fn js_imports_fold(g: GraphModel, file: Seq<char>, ls: Seq<Seq<char>>, n: int) -> GraphModel
    decreases n,
{
    if n <= 0 || n > ls.len() {
        g
    } else {
        let g0 = js_imports_fold(g, file, ls, n - 1);
        match js_import_package_spec(ls[n - 1]) {
            Some(p) => record_import_spec(g0, file, p),
            None => g0,
        }
    }
}

/// The graph after recording the packages a JavaScript-like file imports, line by line.
pub open spec fn javascript_spec(g: GraphModel, file: Seq<char>, content: Seq<char>) -> GraphModel {
    let ls = text_lines(content);
    js_imports_fold(g, file, ls, ls.len() as int)
}

/// Records the packages a JavaScript-like file imports, as `javascript_spec` states it.
pub fn analyze_javascript_like_file(graph: &mut RepoCodeGraph, file_uri: &str, content: &str)
    requires
        old(graph).wf(),
    ensures
        final(graph).wf(),
        final(graph).model() == javascript_spec(old(graph).model(), file_uri@, content@),
{
    let lines = lines_of(content);
    let ghost ls = views(lines@);
    let ghost g0 = graph.model();
    let mut i: usize = 0;
    while i < lines.len()
        invariant
            ls == views(lines@),
            ls == text_lines(content@),
            i <= lines@.len(),
            graph.wf(),
            graph.model() == js_imports_fold(g0, file_uri@, ls, i as int),
        decreases lines.len() - i,
    {
        match js_import_package(lines[i].as_str()) {
            Some(import_name) => graph.record_import(file_uri, import_name.as_str()),
            None => {},
        }
        i = i + 1;
    }
}

/// The graph after recording a vulnerability of one package reference for each of the
/// first `j` CVE ids.
pub open spec fn cves_fold(g: GraphModel, r: Seq<char>, cves: Seq<Seq<char>>, j: int) -> GraphModel
    decreases j,
{
    if j <= 0 || j > cves.len() {
        g
    } else {
        record_vulnerability_spec(cves_fold(g, r, cves, j - 1), r, cves[j - 1])
    }
}

/// The graph after recording every CVE id for each of the first `i` package references.
pub open spec fn refs_fold(g: GraphModel, refs: Seq<Seq<char>>, cves: Seq<Seq<char>>, i: int) -> GraphModel
    decreases i,
{
    if i <= 0 || i > refs.len() {
        g
    } else {
        cves_fold(refs_fold(g, refs, cves, i - 1), refs[i - 1], cves, cves.len() as int)
    }
}

/// The graph after recording vulnerability data: each package reference it mentions has
/// each CVE id it mentions, both in increasing order.
pub open spec fn vulnerability_spec(g: GraphModel, content: Seq<char>) -> GraphModel {
    let cves = cve_ids_spec(content);
    if cves.len() == 0 {
        g
    } else {
        let refs = package_refs_spec(content);
        refs_fold(g, refs, cves, refs.len() as int)
    }
}

/// Records vulnerability data, as `vulnerability_spec` states it.
pub fn analyze_vulnerability_data(graph: &mut RepoCodeGraph, content: &str)
    requires
        old(graph).wf(),
    ensures
        final(graph).wf(),
        final(graph).model() == vulnerability_spec(old(graph).model(), content@),
{
    let cves = cve_ids(content);
    if cves.len() == 0 {
        return;
    }
    let refs = package_refs(content);
    let ghost cv = views(cves@);
    let ghost rv = views(refs@);
    let ghost g0 = graph.model();
    let mut i: usize = 0;
    while i < refs.len()
        invariant
            cv == views(cves@),
            rv == views(refs@),
            i <= refs@.len(),
            graph.wf(),
            graph.model() == refs_fold(g0, rv, cv, i as int),
        decreases refs.len() - i,
    {
        let ghost gi = graph.model();
        let mut j: usize = 0;
        while j < cves.len()
            invariant
                cv == views(cves@),
                rv == views(refs@),
                i < refs@.len(),
                j <= cves@.len(),
                graph.wf(),
                graph.model() == cves_fold(gi, rv[i as int], cv, j as int),
            decreases cves.len() - j,
        {
            graph.record_vulnerability(refs[i].as_str(), cves[j].as_str());
            j = j + 1;
        }
        i = i + 1;
    }
}

/// Paths and contents of files, as texts.
pub open spec fn file_views(files: Seq<(String, String)>) -> Seq<(Seq<char>, Seq<char>)> {
    files.map_values(|f: (String, String)| (f.0@, f.1@))
}

/// The graph after the first pass over the first `n` files: each root manifest records
/// its dependencies.
pub open spec fn manifests_fold(
    g: GraphModel,
    repo: Seq<char>,
    files: Seq<(Seq<char>, Seq<char>)>,
    n: int,
) -> GraphModel
    decreases n,
{
    if n <= 0 || n > files.len() {
        g
    } else {
        let g0 = manifests_fold(g, repo, files, n - 1);
        let path = files[n - 1].0;
        if is_manifest_path_spec(path) {
            match manifest_manager_spec(path) {
                Some(m) => record_manifest_spec(
                    g0,
                    repo,
                    file_uri_spec(repo, path),
                    m,
                    files[n - 1].1,
                ),
                None => g0,
            }
        } else {
            g0
        }
    }
}

/// The graph after the second pass records one file: the file itself, then what its
/// Rust syntax tree or JavaScript imports say, then its vulnerability data; or the
/// failure of parsing a Rust file.
pub open spec fn file_step(g: GraphModel, repo: Seq<char>, path: Seq<char>, content: Seq<char>) -> Result<
    GraphModel,
    Seq<char>,
> {
    let f = file_uri_spec(repo, path);
    let g1 = record_file_spec(g, repo, f, path, language_spec(path), text_lines(content).len());
    let analysed = if ends_with_seq(path, ".rs"@) {
        record_rust_syntax_spec(g1, f, path, content, rust_syntax_tree(content))
    } else if is_javascript_like_spec(path) {
        Ok(javascript_spec(g1, f, content))
    } else {
        Ok(g1)
    };
    match analysed {
        Ok(g2) => Ok(
            if is_vulnerability_data_path_spec(path) {
                vulnerability_spec(g2, content)
            } else {
                g2
            },
        ),
        Err(e) => Err(e),
    }
}

/// The graph after the second pass over the first `n` files, or the first failure.
pub open spec fn files_fold(
    g: GraphModel,
    repo: Seq<char>,
    files: Seq<(Seq<char>, Seq<char>)>,
    n: int,
) -> Result<GraphModel, Seq<char>>
    decreases n,
{
    if n <= 0 || n > files.len() {
        Ok(g)
    } else {
        match files_fold(g, repo, files, n - 1) {
            Ok(g0) => file_step(g0, repo, files[n - 1].0, files[n - 1].1),
            Err(e) => Err(e),
        }
    }
}

proof fn lemma_files_fold_err(
    g: GraphModel,
    repo: Seq<char>,
    files: Seq<(Seq<char>, Seq<char>)>,
    k: int,
    e: Seq<char>,
)
    requires
        0 < k <= files.len(),
        files_fold(g, repo, files, k) == Err::<GraphModel, Seq<char>>(e),
    ensures
        files_fold(g, repo, files, files.len() as int) == Err::<GraphModel, Seq<char>>(e),
    decreases files.len() - k,
{
    if k < files.len() {
        lemma_files_fold_err(g, repo, files, k + 1, e);
    }
}

/// The code graph of a repository's files: the repository, then the manifests' packages,
/// then each file; its triples in the order first added, or the first failure to parse a
/// Rust file.
pub open spec fn repo_triples_spec(files: Seq<(Seq<char>, Seq<char>)>, repo: Seq<char>) -> Result<
    Seq<TripleText>,
    Seq<char>,
> {
    let g0 = add_triple(empty_graph(repo), (repo, RDF_TYPE@, CODE_NS@ + "Repository"@));
    let g1 = manifests_fold(g0, repo, files, files.len() as int);
    match files_fold(g1, repo, files, files.len() as int) {
        Ok(g) => Ok(g.triples),
        Err(e) => Err(e),
    }
}

/// The code graph of a repository's files, given as paths (with `/`) and contents, as
/// `repo_triples_spec` states it.
pub fn repo_sources_to_rdf_triples(files: &Vec<(String, String)>, repo_uri: &str) -> (r: Result<
    Vec<CodeTriple>,
    String,
>)
    requires
        forall|i: int|
            0 <= i < files@.len() && is_manifest_path_spec(#[trigger] files@[i].0@)
                ==> files@[i].1@.len() <= i32::MAX,
    ensures
        match repo_triples_spec(file_views(files@), repo_uri@) {
            Ok(ts) => r matches Ok(v) && triple_views(v@) == ts,
            Err(e) => r matches Err(x) && x@ == e,
        },
{
    let ghost fv = file_views(files@);
    let mut graph = RepoCodeGraph::new(repo_uri);
    let c = cat(CODE_NS, "Repository");
    graph.triple(repo_uri, RDF_TYPE, c.as_str());
    let ghost g0 = graph.model();
    let mut i: usize = 0;
    while i < files.len()
        invariant
            fv == file_views(files@),
            i <= files@.len(),
            forall|k: int|
                0 <= k < files@.len() && is_manifest_path_spec(#[trigger] files@[k].0@)
                    ==> files@[k].1@.len() <= i32::MAX,
            graph.wf(),
            graph.model() == manifests_fold(g0, repo_uri@, fv, i as int),
        decreases files.len() - i,
    {
        let path = files[i].0.as_str();
        let content = files[i].1.as_str();
        assert(fv[i as int] == (path@, content@));
        if is_manifest_path(path) {
            match manifest_manager(path) {
                Some(manager) => {
                    let f = file_uri(repo_uri, path);
                    graph.record_manifest(repo_uri, f.as_str(), manager, content);
                },
                None => {},
            }
        }
        i = i + 1;
    }
    let ghost g1 = graph.model();
    assert(fv.len() == files@.len());
    assert(g0 == add_triple(empty_graph(repo_uri@), (repo_uri@, RDF_TYPE@, CODE_NS@ + "Repository"@)));
    assert(g1 == manifests_fold(g0, repo_uri@, fv, fv.len() as int));
    let mut i: usize = 0;
    while i < files.len()
        invariant
            fv == file_views(files@),
            i <= files@.len(),
            graph.wf(),
            files_fold(g1, repo_uri@, fv, i as int) == Ok::<GraphModel, Seq<char>>(graph.model()),
            fv.len() == files@.len(),
            g1 == manifests_fold(
                add_triple(empty_graph(repo_uri@), (repo_uri@, RDF_TYPE@, CODE_NS@ + "Repository"@)),
                repo_uri@,
                fv,
                fv.len() as int,
            ),
        decreases files.len() - i,
    {
        let path = files[i].0.as_str();
        let content = files[i].1.as_str();
        assert(fv[i as int] == (path@, content@));
        let ghost before = graph.model();
        let f = file_uri(repo_uri, path);
        let language = language_for_path(path);
        let line_count = lines_of(content).len();
        graph.record_file(repo_uri, f.as_str(), path, language, line_count);
        if ends_with(path, ".rs") {
            match analyze_rust_file(&mut graph, f.as_str(), path, content) {
                Ok(()) => {},
                Err(e) => {
                    proof {
                        assert(ends_with_seq(path@, ".rs"@));
                        assert(file_step(before, repo_uri@, path@, content@) == Err::<
                            GraphModel,
                            Seq<char>,
                        >(e@));
                        assert(files_fold(g1, repo_uri@, fv, i + 1) == file_step(
                            before,
                            repo_uri@,
                            fv[i as int].0,
                            fv[i as int].1,
                        ));
                        lemma_files_fold_err(g1, repo_uri@, fv, i + 1, e@);
                    }
                    return Err(e);
                },
            }
        } else if is_javascript_like(path) {
            analyze_javascript_like_file(&mut graph, f.as_str(), content);
        }
        if is_vulnerability_data_path(path) {
            analyze_vulnerability_data(&mut graph, content);
        }
        i = i + 1;
    }
    Ok(graph.into_triples())
}

} // verus!
