use vstd::prelude::*;

use crate::code_intel::manifests::{dep_views, manifest_dependencies, manifest_dependencies_spec};
use crate::code_intel::names::{
    package_key, package_key_spec, pascal_case, pascal_case_spec, slug, slug_spec,
};
use crate::code_intel::scan::{parse_package_ref, parse_package_ref_spec};
use crate::seqs::{first_index_of, lemma_first_index_of, lemma_first_index_of_at};
use crate::sorted::{
    insertion_point, lemma_sorted_distinct, sorted_position, strictly_sorted, upsert_sorted,
    upsert_spec,
};
use crate::text::{
    decimal, push_str, replace_char, replace_char_spec, str_eq, u64_to_string, views,
};
use crate::words::{trim, trim_spec};

verus! {

/// The namespace of code entities.
pub const CODE_NS: &'static str = "http://omrya.local/code/";

/// The namespace of packages.
pub const PKG_NS: &'static str = "http://omrya.local/pkg/";

/// The namespace of security facts.
pub const SEC_NS: &'static str = "http://omrya.local/sec/";

/// The RDF type predicate.
pub const RDF_TYPE: &'static str = "http://www.w3.org/1999/02/22-rdf-syntax-ns#type";

/// A subject, predicate and object as texts.
pub type TripleText = (Seq<char>, Seq<char>, Seq<char>);

/// One fact of a repository's code graph.
#[derive(Debug, PartialEq, Eq)]
pub struct CodeTriple {
    pub subject: String,
    pub predicate: String,
    pub object: String,
}

impl CodeTriple {
    /// The triple's texts.
    pub open spec fn text(self) -> TripleText {
        (self.subject@, self.predicate@, self.object@)
    }

    /// The subject, predicate and object.
    pub fn into_tuple(self) -> (r: (String, String, String))
        ensures
            (r.0@, r.1@, r.2@) == self.text(),
    {
        (self.subject, self.predicate, self.object)
    }
}

/// The texts of a list of triples.
pub open spec fn triple_views(v: Seq<CodeTriple>) -> Seq<TripleText> {
    v.map_values(|t: CodeTriple| t.text())
}

/// A package the graph has named: its name in the graph, its manager, name and version.
pub struct PackageFact {
    pub uri: String,
    pub manager: String,
    pub name: String,
    pub version: Option<String>,
}

/// The graph as texts: the repository's name, the package keys in increasing order with
/// each package's graph name and package name, and the triples in the order first added.
pub struct GraphModel {
    pub repo: Seq<char>,
    pub keys: Seq<Seq<char>>,
    pub packages: Seq<(Seq<char>, Seq<char>)>,
    pub triples: Seq<TripleText>,
}

/// `g` with other triples.
pub open spec fn with_triples(g: GraphModel, ts: Seq<TripleText>) -> GraphModel {
    GraphModel { repo: g.repo, keys: g.keys, packages: g.packages, triples: ts }
}

/// `g` with a triple added, unless it holds it already.
pub open spec fn add_triple(g: GraphModel, t: TripleText) -> GraphModel {
    if g.triples.contains(t) {
        g
    } else {
        with_triples(g, g.triples.push(t))
    }
}

/// The graph of a repository before any fact.
pub open spec fn empty_graph(repo: Seq<char>) -> GraphModel {
    GraphModel { repo, keys: Seq::empty(), packages: Seq::empty(), triples: Seq::empty() }
}

/// `a` followed by `b`.
pub fn cat(a: &str, b: &str) -> (r: String)
    ensures
        r@ == a@ + b@,
{
    let mut out = String::new();
    push_str(&mut out, a);
    push_str(&mut out, b);
    out
}

/// The graph name of a package.
pub open spec fn package_uri_spec(manager: Seq<char>, name: Seq<char>) -> Seq<char> {
    PKG_NS@ + slug_spec(manager) + "/"@ + slug_spec(name)
}

/// The class of a package of the given manager.
pub open spec fn package_class_spec(manager: Seq<char>) -> Seq<char> {
    if manager == "cargo"@ {
        PKG_NS@ + "CargoCrate"@
    } else if manager == "npm"@ {
        PKG_NS@ + "NpmPackage"@
    } else {
        PKG_NS@ + pascal_case_spec(manager) + "Package"@
    }
}

/// The graph after naming a package, and the package's graph name: a package already known
/// by its key keeps its name and adds nothing; a new one gets its type, name, manager and
/// (non-blank) version.
pub open spec fn package_spec(
    g: GraphModel,
    manager: Seq<char>,
    name: Seq<char>,
    version: Option<Seq<char>>,
) -> (GraphModel, Seq<char>) {
    let key = package_key_spec(manager, name);
    match first_index_of(g.keys, key) {
        Some(i) => (g, g.packages[i].0),
        None => {
            let uri = package_uri_spec(manager, name);
            let g1 = add_triple(g, (uri, RDF_TYPE@, package_class_spec(manager)));
            let g2 = add_triple(g1, (uri, PKG_NS@ + "name"@, name));
            let g3 = add_triple(g2, (uri, PKG_NS@ + "manager"@, manager));
            let g4 = match version {
                Some(v) => if trim_spec(v).len() > 0 {
                    add_triple(g3, (uri, PKG_NS@ + "hasVersion"@, v))
                } else {
                    g3
                },
                None => g3,
            };
            let kp = upsert_spec(g4.keys, g4.packages, key, (uri, name));
            (GraphModel { repo: g4.repo, keys: kp.0, packages: kp.1, triples: g4.triples }, uri)
        },
    }
}

/// The graph after recording the first `n` dependencies of a manifest.
pub open spec fn manifest_deps_fold(
    g: GraphModel,
    repo: Seq<char>,
    manifest: Seq<char>,
    manager: Seq<char>,
    ds: Seq<(Seq<char>, Option<Seq<char>>)>,
    n: int,
) -> GraphModel
    decreases n,
{
    if n <= 0 || n > ds.len() {
        g
    } else {
        let g0 = manifest_deps_fold(g, repo, manifest, manager, ds, n - 1);
        let pk = package_spec(g0, manager, ds[n - 1].0, ds[n - 1].1);
        let g1 = add_triple(pk.0, (manifest, CODE_NS@ + "dependsOnPackage"@, pk.1));
        add_triple(g1, (repo, CODE_NS@ + "dependsOnPackage"@, pk.1))
    }
}

/// The graph after recording a manifest: its type, the repository's link to it, and each
/// dependency it lists, as a package both depend on.
pub open spec fn record_manifest_spec(
    g: GraphModel,
    repo: Seq<char>,
    manifest: Seq<char>,
    manager: Seq<char>,
    content: Seq<char>,
) -> GraphModel {
    let g1 = add_triple(g, (manifest, RDF_TYPE@, CODE_NS@ + "PackageManifest"@));
    let g2 = add_triple(g1, (repo, CODE_NS@ + "hasManifest"@, manifest));
    let ds = manifest_dependencies_spec(manager, content);
    manifest_deps_fold(g2, repo, manifest, manager, ds, ds.len() as int)
}

/// The graph after recording a source file: the repository contains it, and its type,
/// path, language and line count.
pub open spec fn record_file_spec(
    g: GraphModel,
    repo: Seq<char>,
    file: Seq<char>,
    path: Seq<char>,
    language: Seq<char>,
    line_count: nat,
) -> GraphModel {
    let g1 = add_triple(g, (repo, CODE_NS@ + "containsFile"@, file));
    let g2 = add_triple(g1, (file, RDF_TYPE@, CODE_NS@ + "SourceFile"@));
    let g3 = add_triple(g2, (file, CODE_NS@ + "path"@, path));
    let g4 = add_triple(g3, (file, CODE_NS@ + "language"@, language));
    add_triple(g4, (file, CODE_NS@ + "lineCount"@, decimal(line_count)))
}

/// The graph after recording a symbol a file defines (and exports, if it does).
pub open spec fn record_symbol_spec(
    g: GraphModel,
    file: Seq<char>,
    symbol: Seq<char>,
    name: Seq<char>,
    kind: Seq<char>,
    exported: bool,
) -> GraphModel {
    let g1 = add_triple(g, (symbol, RDF_TYPE@, CODE_NS@ + kind));
    let g2 = add_triple(g1, (symbol, CODE_NS@ + "name"@, name));
    let g3 = add_triple(g2, (symbol, CODE_NS@ + "definedIn"@, file));
    let g4 = add_triple(g3, (file, CODE_NS@ + "defines"@, symbol));
    if exported {
        add_triple(g4, (file, CODE_NS@ + "exports"@, symbol))
    } else {
        g4
    }
}

/// The first known package, from index `i` on, whose name is the import's name, or is it
/// once `-` is read as `_`.
pub open spec fn package_for_import_from(
    ps: Seq<(Seq<char>, Seq<char>)>,
    name: Seq<char>,
    i: int,
) -> Option<Seq<char>>
    decreases ps.len() - i,
{
    if i < 0 || i >= ps.len() {
        None
    } else if ps[i].1 == name || replace_char_spec(ps[i].1, '-', '_') == replace_char_spec(
        name,
        '-',
        '_',
    ) {
        Some(ps[i].0)
    } else {
        package_for_import_from(ps, name, i + 1)
    }
}

/// The graph name of the first known package, in key order, that an import names.
pub open spec fn package_for_import_spec(g: GraphModel, name: Seq<char>) -> Option<Seq<char>> {
    package_for_import_from(g.packages, name, 0)
}

/// The graph after recording an import of a file: the package it names, a standard crate,
/// or else a module of the repository.
pub open spec fn record_import_spec(g: GraphModel, file: Seq<char>, import: Seq<char>) -> GraphModel {
    let t = trim_spec(import);
    if t.len() == 0 {
        g
    } else {
        match package_for_import_spec(g, t) {
            Some(p) => add_triple(g, (file, CODE_NS@ + "imports"@, p)),
            None => if t == "std"@ || t == "core"@ || t == "alloc"@ {
                let pk = package_spec(g, "cargo"@, t, None);
                add_triple(pk.0, (file, CODE_NS@ + "imports"@, pk.1))
            } else {
                let m = g.repo + "/module/"@ + slug_spec(t);
                let g1 = add_triple(g, (m, RDF_TYPE@, CODE_NS@ + "Module"@));
                let g2 = add_triple(g1, (m, CODE_NS@ + "name"@, t));
                add_triple(g2, (file, CODE_NS@ + "imports"@, m))
            },
        }
    }
}

/// The graph after recording that a function calls a name.
pub open spec fn record_call_spec(g: GraphModel, caller: Seq<char>, call: Seq<char>) -> GraphModel {
    let t = trim_spec(call);
    if t.len() == 0 {
        g
    } else {
        let callee = g.repo + "/symbol/"@ + slug_spec(t);
        let g1 = add_triple(g, (callee, RDF_TYPE@, CODE_NS@ + "Callable"@));
        let g2 = add_triple(g1, (callee, CODE_NS@ + "name"@, t));
        let g3 = add_triple(g2, (caller, CODE_NS@ + "calls"@, callee));
        add_triple(g3, (caller, CODE_NS@ + "references"@, callee))
    }
}

/// The graph after recording that the package a reference names has a vulnerability.
pub open spec fn record_vulnerability_spec(g: GraphModel, package_ref: Seq<char>, cve: Seq<char>) -> GraphModel {
    match parse_package_ref_spec(package_ref) {
        Some((m, n, v)) => {
            let pk = package_spec(g, m, n, v);
            let vuln = SEC_NS@ + "vuln/"@ + cve;
            let g1 = add_triple(pk.0, (vuln, RDF_TYPE@, SEC_NS@ + "Vulnerability"@));
            let g2 = add_triple(g1, (vuln, SEC_NS@ + "cve"@, cve));
            add_triple(g2, (pk.1, SEC_NS@ + "hasVulnerability"@, vuln))
        },
        None => g,
    }
}

/// The graph name and package name of a package.
pub open spec fn package_view(p: PackageFact) -> (Seq<char>, Seq<char>) {
    (p.uri@, p.name@)
}

/// The code graph of a repository as it is built: its triples, each once, in the order
/// first added, and the packages named so far, kept in order of their keys.
pub struct RepoCodeGraph {
    repo_uri: String,
    keys: Vec<String>,
    packages: Vec<PackageFact>,
    triples: Vec<CodeTriple>,
}

impl RepoCodeGraph {
    /// The graph as texts.
    pub closed spec fn model(&self) -> GraphModel {
        GraphModel {
            repo: self.repo_uri@,
            keys: views(self.keys@),
            packages: self.packages@.map_values(|p: PackageFact| package_view(p)),
            triples: triple_views(self.triples@),
        }
    }

    /// The package keys are in increasing order, one package for each.
    pub closed spec fn wf(&self) -> bool {
        strictly_sorted(views(self.keys@)) && self.keys@.len() == self.packages@.len()
    }

    /// An empty graph of a repository.
    pub fn new(repo_uri: &str) -> (r: Self)
        ensures
            r.wf(),
            r.model() == empty_graph(repo_uri@),
    {
        let r = RepoCodeGraph {
            repo_uri: repo_uri.to_string(),
            keys: Vec::new(),
            packages: Vec::new(),
            triples: Vec::new(),
        };
        assert(r.model().keys =~= Seq::<Seq<char>>::empty());
        assert(r.model().packages =~= Seq::<(Seq<char>, Seq<char>)>::empty());
        assert(r.model().triples =~= Seq::<TripleText>::empty());
        r
    }

    /// The repository's name.
    pub fn repo_uri(&self) -> (r: &str)
        ensures
            r@ == self.model().repo,
    {
        self.repo_uri.as_str()
    }

    /// The triples, in the order first added.
    pub fn into_triples(self) -> (r: Vec<CodeTriple>)
        ensures
            triple_views(r@) == self.model().triples,
    {
        self.triples
    }

    /// Adds a triple unless the graph holds it already.
    pub fn triple(&mut self, subject: &str, predicate: &str, object: &str)
        requires
            old(self).wf(),
        ensures
            final(self).wf(),
            final(self).model() == add_triple(old(self).model(), (subject@, predicate@, object@)),
    {
        let ghost t = (subject@, predicate@, object@);
        let ghost before = self.model();
        let mut i: usize = 0;
        while i < self.triples.len()
            invariant
                i <= self.triples@.len(),
                self.wf(),
                t == (subject@, predicate@, object@),
                self.model() == before,
                before.triples == triple_views(self.triples@),
                forall|k: int| 0 <= k < i ==> before.triples[k] != t,
            decreases self.triples.len() - i,
        {
            let x = &self.triples[i];
            assert(before.triples[i as int] == self.triples@[i as int].text());
            if str_eq(x.subject.as_str(), subject) && str_eq(x.predicate.as_str(), predicate)
                && str_eq(x.object.as_str(), object) {
                assert(before.triples[i as int] == t);
                return;
            }
            i = i + 1;
        }
        self.triples.push(
            CodeTriple {
                subject: subject.to_string(),
                predicate: predicate.to_string(),
                object: object.to_string(),
            },
        );
        assert(triple_views(self.triples@) =~= before.triples.push(t));
    }

    /// Names a package, as `package_spec` states it, and returns its graph name.
    pub fn package(&mut self, manager: &str, name: &str, version: Option<&str>) -> (r: String)
        requires
            old(self).wf(),
        ensures
            final(self).wf(),
            (final(self).model(), r@) == package_spec(
                old(self).model(),
                manager@,
                name@,
                match version {
                    Some(v) => Some(v@),
                    None => None,
                },
            ),
    {
        let key = package_key(manager, name);
        let ghost ks = views(self.keys@);
        let (pos, found) = sorted_position(&self.keys, key.as_str());
        proof {
            lemma_first_index_of(ks, key@);
        }
        if found {
            proof {
                match first_index_of(ks, key@) {
                    Some(i) => {
                        if i != pos {
                            lemma_sorted_distinct(ks, i, pos as int);
                        }
                    },
                    None => {
                        assert(ks[pos as int] == key@);
                    },
                }
            }
            return self.packages[pos].uri.clone();
        }
        proof {
            if let Some(i) = first_index_of(ks, key@) {
                assert(ks.contains(key@));
            }
        }
        let ms = slug(manager);
        let ns = slug(name);
        let mut uri = cat(PKG_NS, ms.as_str());
        push_str(&mut uri, "/");
        push_str(&mut uri, ns.as_str());
        let class = if str_eq(manager, "cargo") {
            cat(PKG_NS, "CargoCrate")
        } else if str_eq(manager, "npm") {
            cat(PKG_NS, "NpmPackage")
        } else {
            let p = pascal_case(manager);
            let mut c = cat(PKG_NS, p.as_str());
            push_str(&mut c, "Package");
            c
        };
        self.triple(uri.as_str(), RDF_TYPE, class.as_str());
        let p = cat(PKG_NS, "name");
        self.triple(uri.as_str(), p.as_str(), name);
        let p = cat(PKG_NS, "manager");
        self.triple(uri.as_str(), p.as_str(), manager);
        match version {
            Some(v) => {
                let tv = trim(v);
                if tv.unicode_len() > 0 {
                    let p = cat(PKG_NS, "hasVersion");
                    self.triple(uri.as_str(), p.as_str(), v);
                }
            },
            None => {},
        }
        let ghost g4 = self.model();
        let ghost items = self.packages@;
        let fact = PackageFact {
            uri: uri.clone(),
            manager: manager.to_string(),
            name: name.to_string(),
            version: match version {
                Some(v) => Some(v.to_string()),
                None => None,
            },
        };
        upsert_sorted(&mut self.keys, &mut self.packages, key, fact);
        proof {
            let c = choose|c: int| insertion_point(ks, key@, c);
            assert(self.packages@.map_values(|p: PackageFact| package_view(p)) =~= items.map_values(
                |p: PackageFact| package_view(p),
            ).insert(c, (uri@, name@)));
        }
        uri
    }

    /// Records a manifest, as `record_manifest_spec` states it.
    pub fn record_manifest(
        &mut self,
        repo_uri: &str,
        manifest_uri: &str,
        manager: &str,
        content: &str,
    )
        requires
            old(self).wf(),
            content@.len() <= i32::MAX,
        ensures
            final(self).wf(),
            final(self).model() == record_manifest_spec(
                old(self).model(),
                repo_uri@,
                manifest_uri@,
                manager@,
                content@,
            ),
    {
        let c = cat(CODE_NS, "PackageManifest");
        self.triple(manifest_uri, RDF_TYPE, c.as_str());
        let c = cat(CODE_NS, "hasManifest");
        self.triple(repo_uri, c.as_str(), manifest_uri);
        let deps = manifest_dependencies(manager, content);
        let ghost ds = dep_views(deps@);
        let ghost g2 = self.model();
        let depends = cat(CODE_NS, "dependsOnPackage");
        let mut i: usize = 0;
        while i < deps.len()
            invariant
                ds == dep_views(deps@),
                i <= deps@.len(),
                depends@ == CODE_NS@ + "dependsOnPackage"@,
                self.wf(),
                self.model() == manifest_deps_fold(
                    g2,
                    repo_uri@,
                    manifest_uri@,
                    manager@,
                    ds,
                    i as int,
                ),
            decreases deps.len() - i,
        {
            let d = &deps[i];
            let version = match &d.1 {
                Some(v) => Some(v.as_str()),
                None => None,
            };
            let package_uri = self.package(manager, d.0.as_str(), version);
            self.triple(manifest_uri, depends.as_str(), package_uri.as_str());
            self.triple(repo_uri, depends.as_str(), package_uri.as_str());
            i = i + 1;
        }
    }

    /// Records a source file, as `record_file_spec` states it.
    pub fn record_file(
        &mut self,
        repo_uri: &str,
        file_uri: &str,
        path_text: &str,
        language: &str,
        line_count: usize,
    )
        requires
            old(self).wf(),
        ensures
            final(self).wf(),
            final(self).model() == record_file_spec(
                old(self).model(),
                repo_uri@,
                file_uri@,
                path_text@,
                language@,
                line_count as nat,
            ),
    {
        let p = cat(CODE_NS, "containsFile");
        self.triple(repo_uri, p.as_str(), file_uri);
        let p = cat(CODE_NS, "SourceFile");
        self.triple(file_uri, RDF_TYPE, p.as_str());
        let p = cat(CODE_NS, "path");
        self.triple(file_uri, p.as_str(), path_text);
        let p = cat(CODE_NS, "language");
        self.triple(file_uri, p.as_str(), language);
        let p = cat(CODE_NS, "lineCount");
        let n = u64_to_string(line_count as u64);
        self.triple(file_uri, p.as_str(), n.as_str());
    }

    /// Records a symbol, as `record_symbol_spec` states it.
    pub fn record_symbol(
        &mut self,
        file_uri: &str,
        symbol_uri: &str,
        name: &str,
        kind: &str,
        exported: bool,
    )
        requires
            old(self).wf(),
        ensures
            final(self).wf(),
            final(self).model() == record_symbol_spec(
                old(self).model(),
                file_uri@,
                symbol_uri@,
                name@,
                kind@,
                exported,
            ),
    {
        let p = cat(CODE_NS, kind);
        self.triple(symbol_uri, RDF_TYPE, p.as_str());
        let p = cat(CODE_NS, "name");
        self.triple(symbol_uri, p.as_str(), name);
        let p = cat(CODE_NS, "definedIn");
        self.triple(symbol_uri, p.as_str(), file_uri);
        let p = cat(CODE_NS, "defines");
        self.triple(file_uri, p.as_str(), symbol_uri);
        if exported {
            let p = cat(CODE_NS, "exports");
            self.triple(file_uri, p.as_str(), symbol_uri);
        }
    }

    /// The graph name of the first known package an import names, as
    /// `package_for_import_spec` states it.
    pub fn package_for_import(&self, import_name: &str) -> (r: Option<String>)
        requires
            self.wf(),
        ensures
            match package_for_import_spec(self.model(), import_name@) {
                Some(p) => r matches Some(x) && x@ == p,
                None => r is None,
            },
    {
        let normalized = replace_char(import_name, '-', '_');
        let ghost ps = self.model().packages;
        let mut i: usize = 0;
        while i < self.packages.len()
            invariant
                ps == self.model().packages,
                ps.len() == self.packages@.len(),
                normalized@ == replace_char_spec(import_name@, '-', '_'),
                i <= self.packages@.len(),
                package_for_import_from(ps, import_name@, 0) == package_for_import_from(
                    ps,
                    import_name@,
                    i as int,
                ),
            decreases self.packages.len() - i,
        {
            let p = &self.packages[i];
            assert(ps[i as int] == package_view(self.packages@[i as int]));
            let package_name = replace_char(p.name.as_str(), '-', '_');
            if str_eq(p.name.as_str(), import_name) || str_eq(
                package_name.as_str(),
                normalized.as_str(),
            ) {
                return Some(p.uri.clone());
            }
            i = i + 1;
        }
        None
    }

    /// Records an import, as `record_import_spec` states it.
    pub fn record_import(&mut self, file_uri: &str, import_name: &str)
        requires
            old(self).wf(),
        ensures
            final(self).wf(),
            final(self).model() == record_import_spec(old(self).model(), file_uri@, import_name@),
    {
        let t = trim(import_name);
        let t = t.as_str();
        if t.unicode_len() == 0 {
            return;
        }
        let imports = cat(CODE_NS, "imports");
        match self.package_for_import(t) {
            Some(package) => {
                self.triple(file_uri, imports.as_str(), package.as_str());
                return;
            },
            None => {},
        }
        if str_eq(t, "std") || str_eq(t, "core") || str_eq(t, "alloc") {
            let package = self.package("cargo", t, None);
            self.triple(file_uri, imports.as_str(), package.as_str());
            return;
        }
        let s = slug(t);
        let mut module_uri = cat(self.repo_uri.as_str(), "/module/");
        push_str(&mut module_uri, s.as_str());
        let c = cat(CODE_NS, "Module");
        self.triple(module_uri.as_str(), RDF_TYPE, c.as_str());
        let c = cat(CODE_NS, "name");
        self.triple(module_uri.as_str(), c.as_str(), t);
        self.triple(file_uri, imports.as_str(), module_uri.as_str());
    }

    /// Records a call, as `record_call_spec` states it.
    pub fn record_call(&mut self, caller_uri: &str, call_name: &str)
        requires
            old(self).wf(),
        ensures
            final(self).wf(),
            final(self).model() == record_call_spec(old(self).model(), caller_uri@, call_name@),
    {
        let t = trim(call_name);
        let t = t.as_str();
        if t.unicode_len() == 0 {
            return;
        }
        let s = slug(t);
        let mut callee = cat(self.repo_uri.as_str(), "/symbol/");
        push_str(&mut callee, s.as_str());
        let c = cat(CODE_NS, "Callable");
        self.triple(callee.as_str(), RDF_TYPE, c.as_str());
        let c = cat(CODE_NS, "name");
        self.triple(callee.as_str(), c.as_str(), t);
        let c = cat(CODE_NS, "calls");
        self.triple(caller_uri, c.as_str(), callee.as_str());
        let c = cat(CODE_NS, "references");
        self.triple(caller_uri, c.as_str(), callee.as_str());
    }

    /// Records a vulnerability, as `record_vulnerability_spec` states it.
    pub fn record_vulnerability(&mut self, package_ref: &str, cve: &str)
        requires
            old(self).wf(),
        ensures
            final(self).wf(),
            final(self).model() == record_vulnerability_spec(old(self).model(), package_ref@, cve@),
    {
        let (manager, name, version) = match parse_package_ref(package_ref) {
            Some(p) => p,
            None => return,
        };
        let v = match &version {
            Some(x) => Some(x.as_str()),
            None => None,
        };
        let package = self.package(manager.as_str(), name.as_str(), v);
        let mut vuln = cat(SEC_NS, "vuln/");
        push_str(&mut vuln, cve);
        let c = cat(SEC_NS, "Vulnerability");
        self.triple(vuln.as_str(), RDF_TYPE, c.as_str());
        let c = cat(SEC_NS, "cve");
        self.triple(vuln.as_str(), c.as_str(), cve);
        let c = cat(SEC_NS, "hasVulnerability");
        self.triple(package.as_str(), c.as_str(), vuln.as_str());
    }
}

} // verus!
