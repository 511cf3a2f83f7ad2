use vstd::prelude::*;

use crate::code_intel::graph::{
    CODE_NS, GraphModel, RDF_TYPE, TripleText, add_triple, empty_graph, manifest_deps_fold,
    package_spec, record_call_spec, record_file_spec, record_import_spec, record_manifest_spec,
    record_symbol_spec, record_vulnerability_spec,
};
use crate::code_intel::repo::{
    cves_fold, file_step, files_fold, javascript_spec, js_imports_fold, manifests_fold, refs_fold,
    repo_triples_spec, vulnerability_spec,
};
use crate::code_intel::syntax::{
    SyntaxNode, record_rust_syntax_spec, visit_children_spec, visit_spec,
};

verus! {

/// The graph holds no triple twice, and its first triple types the repository.
pub open spec fn distinct_triples(g: GraphModel) -> bool {
    &&& g.triples.no_duplicates()
    &&& g.triples.len() > 0
    &&& g.triples[0] == (g.repo, RDF_TYPE@, CODE_NS@ + "Repository"@)
}

/// Adding a triple keeps the triples distinct.
pub broadcast proof fn lemma_add_triple_distinct(g: GraphModel, t: TripleText)
    requires
        distinct_triples(g),
    ensures
        #[trigger] distinct_triples(add_triple(g, t)),
        add_triple(g, t).repo == g.repo,
{
    if !g.triples.contains(t) {
        let s = g.triples.push(t);
        assert forall|i: int, j: int| 0 <= i < s.len() && 0 <= j < s.len() && i != j implies s[i]
            != s[j] by {
            if i == g.triples.len() {
                assert(s[j] == g.triples[j]);
            } else if j == g.triples.len() {
                assert(s[i] == g.triples[i]);
            }
        }
        assert(s[0] == g.triples[0]);
    }
}

/// Naming a package keeps the triples distinct.
pub broadcast proof fn lemma_package_distinct(
    g: GraphModel,
    manager: Seq<char>,
    name: Seq<char>,
    version: Option<Seq<char>>,
)
    requires
        distinct_triples(g),
    ensures
        #[trigger] distinct_triples(package_spec(g, manager, name, version).0),
        package_spec(g, manager, name, version).0.repo == g.repo,
{
    broadcast use lemma_add_triple_distinct;

}

proof fn lemma_manifest_deps_distinct(
    g: GraphModel,
    repo: Seq<char>,
    manifest: Seq<char>,
    manager: Seq<char>,
    ds: Seq<(Seq<char>, Option<Seq<char>>)>,
    n: int,
)
    requires
        distinct_triples(g),
    ensures
        distinct_triples(manifest_deps_fold(g, repo, manifest, manager, ds, n)),
        manifest_deps_fold(g, repo, manifest, manager, ds, n).repo == g.repo,
    decreases n,
{
    broadcast use {lemma_add_triple_distinct, lemma_package_distinct};

    if 0 < n <= ds.len() {
        lemma_manifest_deps_distinct(g, repo, manifest, manager, ds, n - 1);
    }
}

/// Recording a manifest keeps the triples distinct.
pub broadcast proof fn lemma_manifest_distinct(g: GraphModel, a: Seq<char>, b: Seq<char>, c: Seq<char>, d: Seq<char>)
    requires
        distinct_triples(g),
    ensures
        #[trigger] distinct_triples(record_manifest_spec(g, a, b, c, d)),
        record_manifest_spec(g, a, b, c, d).repo == g.repo,
{
    broadcast use {lemma_add_triple_distinct, lemma_package_distinct};

    let g1 = add_triple(g, (b, RDF_TYPE@, CODE_NS@ + "PackageManifest"@));
    let g2 = add_triple(g1, (a, CODE_NS@ + "hasManifest"@, b));
    let ds = crate::code_intel::manifests::manifest_dependencies_spec(c, d);
    lemma_manifest_deps_distinct(g2, a, b, c, ds, ds.len() as int);
}

/// Recording a file keeps the triples distinct.
pub broadcast proof fn lemma_file_distinct(g: GraphModel, a: Seq<char>, b: Seq<char>, c: Seq<char>, d: Seq<char>, n: nat)
    requires
        distinct_triples(g),
    ensures
        #[trigger] distinct_triples(record_file_spec(g, a, b, c, d, n)),
        record_file_spec(g, a, b, c, d, n).repo == g.repo,
{
    broadcast use lemma_add_triple_distinct;

}

/// Recording a symbol keeps the triples distinct.
pub broadcast proof fn lemma_symbol_distinct(g: GraphModel, a: Seq<char>, b: Seq<char>, c: Seq<char>, d: Seq<char>, flag: bool)
    requires
        distinct_triples(g),
    ensures
        #[trigger] distinct_triples(record_symbol_spec(g, a, b, c, d, flag)),
        record_symbol_spec(g, a, b, c, d, flag).repo == g.repo,
{
    broadcast use lemma_add_triple_distinct;

}

/// Recording an import keeps the triples distinct.
pub broadcast proof fn lemma_import_distinct(g: GraphModel, a: Seq<char>, b: Seq<char>)
    requires
        distinct_triples(g),
    ensures
        #[trigger] distinct_triples(record_import_spec(g, a, b)),
        record_import_spec(g, a, b).repo == g.repo,
{
    broadcast use {lemma_add_triple_distinct, lemma_package_distinct};

}

/// Recording a call keeps the triples distinct.
pub broadcast proof fn lemma_call_distinct(g: GraphModel, a: Seq<char>, b: Seq<char>)
    requires
        distinct_triples(g),
    ensures
        #[trigger] distinct_triples(record_call_spec(g, a, b)),
        record_call_spec(g, a, b).repo == g.repo,
{
    broadcast use lemma_add_triple_distinct;

}

/// Recording a vulnerability keeps the triples distinct.
pub broadcast proof fn lemma_vulnerability_distinct(g: GraphModel, a: Seq<char>, b: Seq<char>)
    requires
        distinct_triples(g),
    ensures
        #[trigger] distinct_triples(record_vulnerability_spec(g, a, b)),
        record_vulnerability_spec(g, a, b).repo == g.repo,
{
    broadcast use {lemma_add_triple_distinct, lemma_package_distinct};

}

proof fn lemma_visit_distinct(
    g: GraphModel,
    file: Seq<char>,
    src: Seq<u8>,
    node: SyntaxNode,
    cur: Option<Seq<char>>,
)
    requires
        distinct_triples(g),
    ensures
        distinct_triples(visit_spec(g, file, src, node, cur)),
        visit_spec(g, file, src, node, cur).repo == g.repo,
    decreases node, 1nat, 0int,
{
    broadcast use {lemma_manifest_distinct, lemma_file_distinct, lemma_symbol_distinct, lemma_import_distinct, lemma_call_distinct, lemma_vulnerability_distinct};

    let kind = node.kind@;
    let text = crate::code_intel::syntax::node_text_spec(src, node.start as int, node.end as int);
    if kind == "use_declaration"@ {
        let g1 = match crate::code_intel::scan::rust_import_root_spec(text) {
            Some(n) => record_import_spec(g, file, n),
            None => g,
        };
        lemma_visit_children_distinct(g1, file, src, node, 0, cur);
    } else if crate::code_intel::syntax::is_symbol_kind(kind) && node.name is Some {
        let r = node.name->0;
        let name = crate::code_intel::syntax::node_text_spec(src, r.0 as int, r.1 as int);
        let symbol = crate::code_intel::names::symbol_uri_spec(file, name);
        let exported = crate::text::starts_with_seq(crate::words::trim_start_spec(text), "pub "@);
        let g1 = record_symbol_spec(
            g,
            file,
            symbol,
            name,
            crate::code_intel::names::rust_symbol_kind_spec(kind),
            exported,
        );
        let ctx = if kind == "function_item"@ {
            Some(symbol)
        } else {
            cur
        };
        lemma_visit_children_distinct(g1, file, src, node, 0, ctx);
    } else if kind == "call_expression"@ {
        let g1 = match cur {
            Some(caller) => match crate::code_intel::syntax::call_target(node) {
                Some(r) => record_call_spec(
                    g,
                    caller,
                    crate::code_intel::syntax::node_text_spec(src, r.0 as int, r.1 as int),
                ),
                None => g,
            },
            None => g,
        };
        lemma_visit_children_distinct(g1, file, src, node, 0, cur);
    } else {
        lemma_visit_children_distinct(g, file, src, node, 0, cur);
    }
}

proof fn lemma_visit_children_distinct(
    g: GraphModel,
    file: Seq<char>,
    src: Seq<u8>,
    node: SyntaxNode,
    i: int,
    cur: Option<Seq<char>>,
)
    requires
        distinct_triples(g),
    ensures
        distinct_triples(visit_children_spec(g, file, src, node, i, cur)),
        visit_children_spec(g, file, src, node, i, cur).repo == g.repo,
    decreases node, 0nat, node.children@.len() - i,
{
    if 0 <= i < node.children@.len() {
        lemma_visit_distinct(g, file, src, node.children@[i], cur);
        let g1 = visit_spec(g, file, src, node.children@[i], cur);
        lemma_visit_children_distinct(g1, file, src, node, i + 1, cur);
    }
}

proof fn lemma_js_distinct(g: GraphModel, file: Seq<char>, ls: Seq<Seq<char>>, n: int)
    requires
        distinct_triples(g),
    ensures
        distinct_triples(js_imports_fold(g, file, ls, n)),
        js_imports_fold(g, file, ls, n).repo == g.repo,
    decreases n,
{
    broadcast use {lemma_manifest_distinct, lemma_file_distinct, lemma_symbol_distinct, lemma_import_distinct, lemma_call_distinct, lemma_vulnerability_distinct};

    if 0 < n <= ls.len() {
        lemma_js_distinct(g, file, ls, n - 1);
    }
}

proof fn lemma_cves_distinct(g: GraphModel, r: Seq<char>, cves: Seq<Seq<char>>, j: int)
    requires
        distinct_triples(g),
    ensures
        distinct_triples(cves_fold(g, r, cves, j)),
        cves_fold(g, r, cves, j).repo == g.repo,
    decreases j,
{
    broadcast use {lemma_manifest_distinct, lemma_file_distinct, lemma_symbol_distinct, lemma_import_distinct, lemma_call_distinct, lemma_vulnerability_distinct};

    if 0 < j <= cves.len() {
        lemma_cves_distinct(g, r, cves, j - 1);
    }
}

proof fn lemma_refs_distinct(g: GraphModel, refs: Seq<Seq<char>>, cves: Seq<Seq<char>>, i: int)
    requires
        distinct_triples(g),
    ensures
        distinct_triples(refs_fold(g, refs, cves, i)),
        refs_fold(g, refs, cves, i).repo == g.repo,
    decreases i,
{
    if 0 < i <= refs.len() {
        lemma_refs_distinct(g, refs, cves, i - 1);
        lemma_cves_distinct(refs_fold(g, refs, cves, i - 1), refs[i - 1], cves, cves.len() as int);
    }
}

proof fn lemma_file_step_distinct(g: GraphModel, repo: Seq<char>, path: Seq<char>, content: Seq<char>)
    requires
        distinct_triples(g),
    ensures
        file_step(g, repo, path, content) matches Ok(g2) ==> distinct_triples(g2) && g2.repo == g.repo,
{
    broadcast use {lemma_manifest_distinct, lemma_file_distinct, lemma_symbol_distinct, lemma_import_distinct, lemma_call_distinct, lemma_vulnerability_distinct};

    let f = crate::code_intel::names::file_uri_spec(repo, path);
    let g1 = record_file_spec(
        g,
        repo,
        f,
        path,
        crate::code_intel::names::language_spec(path),
        crate::fjall_mr::text_lines(content).len(),
    );
    match crate::code_intel::syntax::rust_syntax_tree(content) {
        Ok(tree) => lemma_visit_distinct(g1, f, vstd::utf8::encode_utf8(content), tree, None),
        Err(_) => {},
    }
    let ls = crate::fjall_mr::text_lines(content);
    lemma_js_distinct(g1, f, ls, ls.len() as int);
    let analysed = if crate::text::ends_with_seq(path, ".rs"@) {
        record_rust_syntax_spec(g1, f, path, content, crate::code_intel::syntax::rust_syntax_tree(content))
    } else if crate::code_intel::names::is_javascript_like_spec(path) {
        Ok(javascript_spec(g1, f, content))
    } else {
        Ok(g1)
    };
    if let Ok(g2) = analysed {
        let refs = crate::code_intel::scan::package_refs_spec(content);
        let cves = crate::code_intel::scan::cve_ids_spec(content);
        lemma_refs_distinct(g2, refs, cves, refs.len() as int);
    }
}

proof fn lemma_manifests_distinct(g: GraphModel, repo: Seq<char>, files: Seq<(Seq<char>, Seq<char>)>, n: int)
    requires
        distinct_triples(g),
    ensures
        distinct_triples(manifests_fold(g, repo, files, n)),
        manifests_fold(g, repo, files, n).repo == g.repo,
    decreases n,
{
    broadcast use {lemma_manifest_distinct, lemma_file_distinct, lemma_symbol_distinct, lemma_import_distinct, lemma_call_distinct, lemma_vulnerability_distinct};

    if 0 < n <= files.len() {
        lemma_manifests_distinct(g, repo, files, n - 1);
    }
}

proof fn lemma_files_distinct(g: GraphModel, repo: Seq<char>, files: Seq<(Seq<char>, Seq<char>)>, n: int)
    requires
        distinct_triples(g),
    ensures
        files_fold(g, repo, files, n) matches Ok(g2) ==> distinct_triples(g2) && g2.repo == g.repo,
    decreases n,
{
    if 0 < n <= files.len() {
        lemma_files_distinct(g, repo, files, n - 1);
        if let Ok(g0) = files_fold(g, repo, files, n - 1) {
            lemma_file_step_distinct(g0, repo, files[n - 1].0, files[n - 1].1);
        }
    }
}

/// The code graph of a repository holds each triple once, and its first triple types the
/// repository.
pub proof fn law_code_graph_triples_distinct(files: Seq<(Seq<char>, Seq<char>)>, repo: Seq<char>)
    ensures
        repo_triples_spec(files, repo) matches Ok(ts) ==> ts.no_duplicates() && ts.len() > 0 && ts[0]
            == (repo, RDF_TYPE@, CODE_NS@ + "Repository"@),
{
    let g0 = add_triple(empty_graph(repo), (repo, RDF_TYPE@, CODE_NS@ + "Repository"@));
    assert(g0.triples =~= seq![(repo, RDF_TYPE@, CODE_NS@ + "Repository"@)]);
    assert(distinct_triples(g0));
    lemma_manifests_distinct(g0, repo, files, files.len() as int);
    let g1 = manifests_fold(g0, repo, files, files.len() as int);
    lemma_files_distinct(g1, repo, files, files.len() as int);
}

/// Asking a second time for the package of a manager and a name gives the first answer
/// again, whatever version comes with it, and leaves the graph as the first call left it.
pub proof fn law_package_idempotent(
    g: GraphModel,
    manager: Seq<char>,
    name: Seq<char>,
    v1: Option<Seq<char>>,
    v2: Option<Seq<char>>,
)
    requires
        crate::sorted::strictly_sorted(g.keys),
        g.keys.len() == g.packages.len(),
    ensures
        ({
            let first = package_spec(g, manager, name, v1);
            package_spec(first.0, manager, name, v2) == first
        }),
{
    let key = crate::code_intel::names::package_key_spec(manager, name);
    crate::seqs::lemma_first_index_of(g.keys, key);
    if crate::seqs::first_index_of(g.keys, key) is None {
        crate::sorted::lemma_insertion_point_exists(g.keys, key);
        let c = choose|i: int| crate::sorted::insertion_point(g.keys, key, i);
        let first = package_spec(g, manager, name, v1);
        let ks = first.0.keys;
        assert(ks == g.keys.insert(c, key));
        assert forall|j: int| 0 <= j < c implies ks[j] != key by {
            assert(ks[j] == g.keys[j]);
        }
        crate::seqs::lemma_first_index_of_at(ks, key, c);
    }
}

/// Which listed group an extension belongs to: Rust, the JavaScript family, JSX,
/// TypeScript, TSX, TOML, JSON, Markdown; anything else (or no extension) is group 8.
pub open spec fn extension_group(e: Option<Seq<char>>) -> int {
    match e {
        Some(x) => if x == seq!['r', 's'] {
            0
        } else if x == seq!['j', 's'] || x == seq!['m', 'j', 's'] || x == seq!['c', 'j', 's'] {
            1
        } else if x == seq!['j', 's', 'x'] {
            2
        } else if x == seq!['t', 's'] {
            3
        } else if x == seq!['t', 's', 'x'] {
            4
        } else if x == seq!['t', 'o', 'm', 'l'] {
            5
        } else if x == seq!['j', 's', 'o', 'n'] {
            6
        } else if x == seq!['m', 'd'] {
            7
        } else {
            8
        },
        None => 8,
    }
}

proof fn lemma_language_literals()
    ensures
        "rs"@ == seq!['r', 's'],
        "js"@ == seq!['j', 's'],
        "mjs"@ == seq!['m', 'j', 's'],
        "cjs"@ == seq!['c', 'j', 's'],
        "jsx"@ == seq!['j', 's', 'x'],
        "ts"@ == seq!['t', 's'],
        "tsx"@ == seq!['t', 's', 'x'],
        "toml"@ == seq!['t', 'o', 'm', 'l'],
        "json"@ == seq!['j', 's', 'o', 'n'],
        "md"@ == seq!['m', 'd'],
        "Rust"@.len() == 4 && "Rust"@[0] == 'R',
        "JavaScript"@.len() == 10 && "JavaScript"@[0] == 'J',
        "JSX"@.len() == 3 && "JSX"@[0] == 'J',
        "TypeScript"@.len() == 10 && "TypeScript"@[0] == 'T',
        "TSX"@.len() == 3 && "TSX"@[0] == 'T',
        "TOML"@.len() == 4 && "TOML"@[0] == 'T',
        "JSON"@.len() == 4 && "JSON"@[0] == 'J',
        "Markdown"@.len() == 8 && "Markdown"@[0] == 'M',
{
    reveal_strlit("rs");
    reveal_strlit("js");
    reveal_strlit("mjs");
    reveal_strlit("cjs");
    reveal_strlit("jsx");
    reveal_strlit("ts");
    reveal_strlit("tsx");
    reveal_strlit("toml");
    reveal_strlit("json");
    reveal_strlit("md");
    reveal_strlit("Rust");
    reveal_strlit("JavaScript");
    reveal_strlit("JSX");
    reveal_strlit("TypeScript");
    reveal_strlit("TSX");
    reveal_strlit("TOML");
    reveal_strlit("JSON");
    reveal_strlit("Markdown");
    reveal_strlit("Text");
    assert("rs"@ =~= seq!['r', 's']);
    assert("js"@ =~= seq!['j', 's']);
    assert("mjs"@ =~= seq!['m', 'j', 's']);
    assert("cjs"@ =~= seq!['c', 'j', 's']);
    assert("jsx"@ =~= seq!['j', 's', 'x']);
    assert("ts"@ =~= seq!['t', 's']);
    assert("tsx"@ =~= seq!['t', 's', 'x']);
    assert("toml"@ =~= seq!['t', 'o', 'm', 'l']);
    assert("json"@ =~= seq!['j', 's', 'o', 'n']);
    assert("md"@ =~= seq!['m', 'd']);
}

/// A file's language follows its extension: `rs` is Rust; `js`, `mjs` and `cjs` are
/// JavaScript; `jsx` is JSX; `ts` is TypeScript; `tsx` is TSX; `toml` is TOML; `json` is
/// JSON; `md` is Markdown; and files of two different listed groups never share a language.
pub proof fn law_language_by_extension(path: Seq<char>, other: Seq<char>)
    ensures
        crate::code_intel::names::extension_spec(path) == Some("rs"@) ==> crate::code_intel::names::language_spec(path) == "Rust"@,
        crate::code_intel::names::extension_spec(path) == Some("js"@) ==> crate::code_intel::names::language_spec(path) == "JavaScript"@,
        crate::code_intel::names::extension_spec(path) == Some("mjs"@) ==> crate::code_intel::names::language_spec(path) == "JavaScript"@,
        crate::code_intel::names::extension_spec(path) == Some("cjs"@) ==> crate::code_intel::names::language_spec(path) == "JavaScript"@,
        crate::code_intel::names::extension_spec(path) == Some("jsx"@) ==> crate::code_intel::names::language_spec(path) == "JSX"@,
        crate::code_intel::names::extension_spec(path) == Some("ts"@) ==> crate::code_intel::names::language_spec(path) == "TypeScript"@,
        crate::code_intel::names::extension_spec(path) == Some("tsx"@) ==> crate::code_intel::names::language_spec(path) == "TSX"@,
        crate::code_intel::names::extension_spec(path) == Some("toml"@) ==> crate::code_intel::names::language_spec(path) == "TOML"@,
        crate::code_intel::names::extension_spec(path) == Some("json"@) ==> crate::code_intel::names::language_spec(path) == "JSON"@,
        crate::code_intel::names::extension_spec(path) == Some("md"@) ==> crate::code_intel::names::language_spec(path) == "Markdown"@,
        extension_group(crate::code_intel::names::extension_spec(path)) < 8
            && extension_group(crate::code_intel::names::extension_spec(other)) < 8
            && extension_group(crate::code_intel::names::extension_spec(path)) != extension_group(
            crate::code_intel::names::extension_spec(other),
        ) ==> crate::code_intel::names::language_spec(path) != crate::code_intel::names::language_spec(other),
{
    lemma_language_literals();
    assert(seq!['j', 's', 'x'][0] != seq!['m', 'j', 's'][0]);
    assert(seq!['j', 's', 'x'][0] != seq!['c', 'j', 's'][0]);
    assert(seq!['t', 's', 'x'][0] != seq!['m', 'j', 's'][0]);
    assert(seq!['t', 's', 'x'][0] != seq!['c', 'j', 's'][0]);
    assert(seq!['t', 's', 'x'][0] != seq!['j', 's', 'x'][0]);
    assert(seq!['j', 's', 'o', 'n'][0] != seq!['t', 'o', 'm', 'l'][0]);
    assert("rs"@[0] != "js"@[0]);
    assert("rs"@.len() != "mjs"@.len());
    assert("rs"@.len() != "cjs"@.len());
    assert("rs"@.len() != "jsx"@.len());
    assert("rs"@[0] != "ts"@[0]);
    assert("rs"@.len() != "tsx"@.len());
    assert("rs"@.len() != "toml"@.len());
    assert("rs"@.len() != "json"@.len());
    assert("rs"@[0] != "md"@[0]);
    assert("js"@.len() != "mjs"@.len());
    assert("js"@.len() != "cjs"@.len());
    assert("js"@.len() != "jsx"@.len());
    assert("js"@[0] != "ts"@[0]);
    assert("js"@.len() != "tsx"@.len());
    assert("js"@.len() != "toml"@.len());
    assert("js"@.len() != "json"@.len());
    assert("js"@[0] != "md"@[0]);
    assert("mjs"@[0] != "cjs"@[0]);
    assert("mjs"@[0] != "jsx"@[0]);
    assert("mjs"@.len() != "ts"@.len());
    assert("mjs"@[0] != "tsx"@[0]);
    assert("mjs"@.len() != "toml"@.len());
    assert("mjs"@.len() != "json"@.len());
    assert("mjs"@.len() != "md"@.len());
    assert("cjs"@[0] != "jsx"@[0]);
    assert("cjs"@.len() != "ts"@.len());
    assert("cjs"@[0] != "tsx"@[0]);
    assert("cjs"@.len() != "toml"@.len());
    assert("cjs"@.len() != "json"@.len());
    assert("cjs"@.len() != "md"@.len());
    assert("jsx"@.len() != "ts"@.len());
    assert("jsx"@[0] != "tsx"@[0]);
    assert("jsx"@.len() != "toml"@.len());
    assert("jsx"@.len() != "json"@.len());
    assert("jsx"@.len() != "md"@.len());
    assert("ts"@.len() != "tsx"@.len());
    assert("ts"@.len() != "toml"@.len());
    assert("ts"@.len() != "json"@.len());
    assert("ts"@[0] != "md"@[0]);
    assert("tsx"@.len() != "toml"@.len());
    assert("tsx"@.len() != "json"@.len());
    assert("tsx"@.len() != "md"@.len());
    assert("toml"@[0] != "json"@[0]);
    assert("toml"@.len() != "md"@.len());
    assert("json"@.len() != "md"@.len());
}

/// A character a slug may hold: a lower-case ASCII letter, a digit or `-`.
pub open spec fn slug_char(c: char) -> bool {
    ('a' <= c <= 'z') || ('0' <= c <= '9') || c == '-'
}

proof fn lemma_slug_raw_shape(s: Seq<char>)
    ensures
        forall|i: int| 0 <= i < crate::code_intel::names::slug_raw(s).len() ==> slug_char(#[trigger] crate::code_intel::names::slug_raw(s)[i]),
        (forall|i: int| 0 <= i < s.len() ==> ('a' <= #[trigger] s[i] <= 'z') || ('0' <= s[i] <= '9')) ==> crate::code_intel::names::slug_raw(s) == s,
    decreases s.len(),
{
    if s.len() > 0 {
        lemma_slug_raw_shape(s.drop_last());
        let p = crate::code_intel::names::slug_raw(s.drop_last());
        let r = crate::code_intel::names::slug_raw(s);
        assert forall|i: int| 0 <= i < r.len() implies slug_char(#[trigger] r[i]) by {
            if i < p.len() {
                assert(r[i] == p[i]);
            }
        }
        if forall|i: int| 0 <= i < s.len() ==> ('a' <= #[trigger] s[i] <= 'z') || ('0' <= s[i] <= '9') {
            assert forall|i: int| 0 <= i < s.drop_last().len() implies ('a' <= #[trigger] s.drop_last()[i] <= 'z') || ('0' <= s.drop_last()[i] <= '9') by {
                assert(s.drop_last()[i] == s[i]);
            }
            assert(s.last() == s[s.len() - 1]);
            assert(s.drop_last().push(s.last()) =~= s);
        }
    }
}

proof fn lemma_trim_start_dash(t: Seq<char>)
    ensures
        crate::words::trim_start_char_spec(t, '-') == t.skip(t.len() - crate::words::trim_start_char_spec(t, '-').len()),
        crate::words::trim_start_char_spec(t, '-').len() <= t.len(),
        crate::words::trim_start_char_spec(t, '-').len() > 0 ==> crate::words::trim_start_char_spec(t, '-')[0] != '-',
    decreases t.len(),
{
    if t.len() > 0 && t[0] == '-' {
        lemma_trim_start_dash(t.drop_first());
        let u = crate::words::trim_start_char_spec(t, '-');
        assert(t.drop_first().skip(t.drop_first().len() - u.len()) =~= t.skip(t.len() - u.len()));
    } else {
        assert(t.skip(0) =~= t);
    }
}

proof fn lemma_trim_end_dash(t: Seq<char>)
    ensures
        crate::words::trim_end_char_spec(t, '-') == t.take(crate::words::trim_end_char_spec(t, '-').len() as int),
        crate::words::trim_end_char_spec(t, '-').len() <= t.len(),
        crate::words::trim_end_char_spec(t, '-').len() > 0 ==> crate::words::trim_end_char_spec(t, '-').last() != '-',
    decreases t.len(),
{
    if t.len() > 0 && t.last() == '-' {
        lemma_trim_end_dash(t.drop_last());
        let u = crate::words::trim_end_char_spec(t, '-');
        assert(t.drop_last().take(u.len() as int) =~= t.take(u.len() as int));
    } else {
        assert(t.take(t.len() as int) =~= t);
    }
}

/// A slug holds only lower-case ASCII letters, digits and `-`, neither starts nor ends with
/// `-`, keeps a text of lower-case letters and digits as it is, and its short form has at
/// most 96 characters.
pub proof fn law_slug_shape(s: Seq<char>)
    ensures
        ({
            let t = crate::code_intel::names::slug_trimmed_spec(s);
            &&& forall|i: int| 0 <= i < t.len() ==> slug_char(#[trigger] t[i])
            &&& t.len() > 0 ==> t[0] != '-' && t.last() != '-'
        }),
        (forall|i: int| 0 <= i < s.len() ==> ('a' <= #[trigger] s[i] <= 'z') || ('0' <= s[i] <= '9')) ==> crate::code_intel::names::slug_trimmed_spec(s) == s,
        crate::code_intel::names::short_slug_spec(s).len() <= 96,
{
    lemma_slug_raw_shape(s);
    let r = crate::code_intel::names::slug_raw(s);
    lemma_trim_start_dash(r);
    let a = crate::words::trim_start_char_spec(r, '-');
    lemma_trim_end_dash(a);
    let t = crate::words::trim_end_char_spec(a, '-');
    assert forall|i: int| 0 <= i < t.len() implies slug_char(#[trigger] t[i]) by {
        assert(t[i] == a[i]);
        assert(a[i] == r[i + (r.len() - a.len())]);
    }
    if t.len() > 0 {
        assert(t[0] == a[0]);
    }
    if forall|i: int| 0 <= i < s.len() ==> ('a' <= #[trigger] s[i] <= 'z') || ('0' <= s[i] <= '9') {
        if s.len() > 0 {
            assert(r[0] == s[0]);
            assert(r.last() == s[s.len() - 1]);
        }
    }
    reveal_strlit("item");
}

proof fn lemma_add_keeps(g: GraphModel, t: TripleText)
    ensures
        add_triple(g, t).triples.contains(t),
        forall|x: TripleText| #[trigger] g.triples.contains(x) ==> add_triple(g, t).triples.contains(x),
        add_triple(g, t).repo == g.repo,
{
    if !g.triples.contains(t) {
        let r = g.triples.push(t);
        assert(r[g.triples.len() as int] == t);
        assert forall|x: TripleText| #[trigger] g.triples.contains(x) implies r.contains(x) by {
            let i = choose|i: int| 0 <= i < g.triples.len() && g.triples[i] == x;
            assert(r[i] == x);
        }
    }
}

/// Recording a source file keeps every earlier triple and states that the repository
/// contains the file, that it is a source file, and its path, language and line count.
pub proof fn law_record_file(g: GraphModel, repo: Seq<char>, file: Seq<char>, path: Seq<char>, language: Seq<char>, n: nat)
    ensures
        ({
            let r = record_file_spec(g, repo, file, path, language, n).triples;
            &&& r.contains((repo, CODE_NS@ + "containsFile"@, file))
            &&& r.contains((file, RDF_TYPE@, CODE_NS@ + "SourceFile"@))
            &&& r.contains((file, CODE_NS@ + "path"@, path))
            &&& r.contains((file, CODE_NS@ + "language"@, language))
            &&& r.contains((file, CODE_NS@ + "lineCount"@, crate::text::decimal(n)))
            &&& forall|x: TripleText| #[trigger] g.triples.contains(x) ==> r.contains(x)
        }),
{
    let g1 = add_triple(g, (repo, CODE_NS@ + "containsFile"@, file));
    let g2 = add_triple(g1, (file, RDF_TYPE@, CODE_NS@ + "SourceFile"@));
    let g3 = add_triple(g2, (file, CODE_NS@ + "path"@, path));
    let g4 = add_triple(g3, (file, CODE_NS@ + "language"@, language));
    lemma_add_keeps(g, (repo, CODE_NS@ + "containsFile"@, file));
    lemma_add_keeps(g1, (file, RDF_TYPE@, CODE_NS@ + "SourceFile"@));
    lemma_add_keeps(g2, (file, CODE_NS@ + "path"@, path));
    lemma_add_keeps(g3, (file, CODE_NS@ + "language"@, language));
    lemma_add_keeps(g4, (file, CODE_NS@ + "lineCount"@, crate::text::decimal(n)));
}

/// Recording a symbol keeps every earlier triple and states its kind, its name, the file
/// that defines it, and, when exported, that the file exports it.
pub proof fn law_record_symbol(g: GraphModel, file: Seq<char>, symbol: Seq<char>, name: Seq<char>, kind: Seq<char>, exported: bool)
    ensures
        ({
            let r = record_symbol_spec(g, file, symbol, name, kind, exported).triples;
            &&& r.contains((symbol, RDF_TYPE@, CODE_NS@ + kind))
            &&& r.contains((symbol, CODE_NS@ + "name"@, name))
            &&& r.contains((symbol, CODE_NS@ + "definedIn"@, file))
            &&& r.contains((file, CODE_NS@ + "defines"@, symbol))
            &&& exported ==> r.contains((file, CODE_NS@ + "exports"@, symbol))
            &&& forall|x: TripleText| #[trigger] g.triples.contains(x) ==> r.contains(x)
        }),
{
    let g1 = add_triple(g, (symbol, RDF_TYPE@, CODE_NS@ + kind));
    let g2 = add_triple(g1, (symbol, CODE_NS@ + "name"@, name));
    let g3 = add_triple(g2, (symbol, CODE_NS@ + "definedIn"@, file));
    let g4 = add_triple(g3, (file, CODE_NS@ + "defines"@, symbol));
    lemma_add_keeps(g, (symbol, RDF_TYPE@, CODE_NS@ + kind));
    lemma_add_keeps(g1, (symbol, CODE_NS@ + "name"@, name));
    lemma_add_keeps(g2, (symbol, CODE_NS@ + "definedIn"@, file));
    lemma_add_keeps(g3, (file, CODE_NS@ + "defines"@, symbol));
    lemma_add_keeps(g4, (file, CODE_NS@ + "exports"@, symbol));
}

/// Recording a call by a non-blank name keeps every earlier triple and states that the
/// caller calls and references the callable of that name in the repository.
pub proof fn law_record_call(g: GraphModel, caller: Seq<char>, call: Seq<char>)
    ensures
        crate::words::trim_spec(call).len() > 0 ==> ({
            let t = crate::words::trim_spec(call);
            let callee = g.repo + "/symbol/"@ + crate::code_intel::names::slug_spec(t);
            let r = record_call_spec(g, caller, call).triples;
            &&& r.contains((callee, RDF_TYPE@, CODE_NS@ + "Callable"@))
            &&& r.contains((callee, CODE_NS@ + "name"@, t))
            &&& r.contains((caller, CODE_NS@ + "calls"@, callee))
            &&& r.contains((caller, CODE_NS@ + "references"@, callee))
            &&& forall|x: TripleText| #[trigger] g.triples.contains(x) ==> r.contains(x)
        }),
        crate::words::trim_spec(call).len() == 0 ==> record_call_spec(g, caller, call) == g,
{
    let t = crate::words::trim_spec(call);
    if t.len() > 0 {
        let callee = g.repo + "/symbol/"@ + crate::code_intel::names::slug_spec(t);
        let g1 = add_triple(g, (callee, RDF_TYPE@, CODE_NS@ + "Callable"@));
        let g2 = add_triple(g1, (callee, CODE_NS@ + "name"@, t));
        let g3 = add_triple(g2, (caller, CODE_NS@ + "calls"@, callee));
        lemma_add_keeps(g, (callee, RDF_TYPE@, CODE_NS@ + "Callable"@));
        lemma_add_keeps(g1, (callee, CODE_NS@ + "name"@, t));
        lemma_add_keeps(g2, (caller, CODE_NS@ + "calls"@, callee));
        lemma_add_keeps(g3, (caller, CODE_NS@ + "references"@, callee));
    }
}


/// Naming a package keeps every triple of the graph.
pub proof fn lemma_package_keeps(g: GraphModel, m: Seq<char>, n: Seq<char>, v: Option<Seq<char>>)
    ensures
        forall|x: TripleText| #[trigger] g.triples.contains(x) ==> package_spec(g, m, n, v).0.triples.contains(x),
        package_spec(g, m, n, v).0.repo == g.repo,
{
    let key = crate::code_intel::names::package_key_spec(m, n);
    match crate::seqs::first_index_of(g.keys, key) {
        Some(i) => {},
        None => {
            let uri = crate::code_intel::graph::package_uri_spec(m, n);
            let g1 = add_triple(g, (uri, RDF_TYPE@, crate::code_intel::graph::package_class_spec(m)));
            let g2 = add_triple(g1, (uri, crate::code_intel::graph::PKG_NS@ + "name"@, n));
            let g3 = add_triple(g2, (uri, crate::code_intel::graph::PKG_NS@ + "manager"@, m));
            lemma_add_keeps(g, (uri, RDF_TYPE@, crate::code_intel::graph::package_class_spec(m)));
            lemma_add_keeps(g1, (uri, crate::code_intel::graph::PKG_NS@ + "name"@, n));
            lemma_add_keeps(g2, (uri, crate::code_intel::graph::PKG_NS@ + "manager"@, m));
            match v {
                Some(w) => {
                    lemma_add_keeps(g3, (uri, crate::code_intel::graph::PKG_NS@ + "hasVersion"@, w));
                },
                None => {},
            }
        },
    }
}

/// Recording a vulnerability of a package reference keeps every earlier triple and states
/// that the vulnerability named by the CVE is a vulnerability with that CVE, and that the
/// referenced package has it; a reference that does not parse changes nothing.
pub proof fn law_record_vulnerability(g: GraphModel, package_ref: Seq<char>, cve: Seq<char>)
    ensures
        crate::code_intel::scan::parse_package_ref_spec(package_ref) matches Some((m, n, v)) ==> ({
            let pk = package_spec(g, m, n, v).1;
            let vuln = crate::code_intel::graph::SEC_NS@ + "vuln/"@ + cve;
            let r = record_vulnerability_spec(g, package_ref, cve).triples;
            &&& r.contains((vuln, RDF_TYPE@, crate::code_intel::graph::SEC_NS@ + "Vulnerability"@))
            &&& r.contains((vuln, crate::code_intel::graph::SEC_NS@ + "cve"@, cve))
            &&& r.contains((pk, crate::code_intel::graph::SEC_NS@ + "hasVulnerability"@, vuln))
            &&& forall|x: TripleText| #[trigger] g.triples.contains(x) ==> r.contains(x)
        }),
        crate::code_intel::scan::parse_package_ref_spec(package_ref) is None ==> record_vulnerability_spec(g, package_ref, cve) == g,
{
    match crate::code_intel::scan::parse_package_ref_spec(package_ref) {
        Some((m, n, v)) => {
            let pk = package_spec(g, m, n, v);
            let vuln = crate::code_intel::graph::SEC_NS@ + "vuln/"@ + cve;
            lemma_package_keeps(g, m, n, v);
            let g1 = add_triple(pk.0, (vuln, RDF_TYPE@, crate::code_intel::graph::SEC_NS@ + "Vulnerability"@));
            let g2 = add_triple(g1, (vuln, crate::code_intel::graph::SEC_NS@ + "cve"@, cve));
            lemma_add_keeps(pk.0, (vuln, RDF_TYPE@, crate::code_intel::graph::SEC_NS@ + "Vulnerability"@));
            lemma_add_keeps(g1, (vuln, crate::code_intel::graph::SEC_NS@ + "cve"@, cve));
            lemma_add_keeps(g2, (pk.1, crate::code_intel::graph::SEC_NS@ + "hasVulnerability"@, vuln));
        },
        None => {},
    }
}

/// The package an import names is a known package whose name is the import's name, or is
/// it once `-` is read as `_`; when no known package has such a name, there is none.
pub proof fn law_package_for_import(g: GraphModel, name: Seq<char>)
    ensures
        crate::code_intel::graph::package_for_import_spec(g, name) matches Some(p) ==> exists|i: int|
            0 <= i < g.packages.len() && #[trigger] g.packages[i].0 == p && (g.packages[i].1 == name
                || crate::text::replace_char_spec(g.packages[i].1, '-', '_')
                    == crate::text::replace_char_spec(name, '-', '_')),
        (forall|i: int| 0 <= i < g.packages.len() ==> #[trigger] g.packages[i].1 != name
            && crate::text::replace_char_spec(g.packages[i].1, '-', '_')
                != crate::text::replace_char_spec(name, '-', '_'))
            ==> crate::code_intel::graph::package_for_import_spec(g, name) is None,
{
    lemma_package_for_import_from(g.packages, name, 0);
}

proof fn lemma_package_for_import_from(ps: Seq<(Seq<char>, Seq<char>)>, name: Seq<char>, i: int)
    requires
        0 <= i,
    ensures
        crate::code_intel::graph::package_for_import_from(ps, name, i) matches Some(p) ==> exists|j: int|
            i <= j < ps.len() && #[trigger] ps[j].0 == p && (ps[j].1 == name
                || crate::text::replace_char_spec(ps[j].1, '-', '_')
                    == crate::text::replace_char_spec(name, '-', '_')),
        (forall|j: int| i <= j < ps.len() ==> #[trigger] ps[j].1 != name
            && crate::text::replace_char_spec(ps[j].1, '-', '_')
                != crate::text::replace_char_spec(name, '-', '_'))
            ==> crate::code_intel::graph::package_for_import_from(ps, name, i) is None,
    decreases ps.len() - i,
{
    if i < ps.len() {
        lemma_package_for_import_from(ps, name, i + 1);
    }
}

/// Recording an import by a non-blank name keeps every earlier triple and states that the
/// file imports what the name refers to: the known package it names; else, for `std`,
/// `core` and `alloc`, that crate; else a module of the repository with that name.
pub proof fn law_record_import(g: GraphModel, file: Seq<char>, import: Seq<char>)
    ensures
        crate::words::trim_spec(import).len() == 0 ==> record_import_spec(g, file, import) == g,
        crate::words::trim_spec(import).len() > 0 ==> forall|x: TripleText| #[trigger] g.triples.contains(x)
            ==> record_import_spec(g, file, import).triples.contains(x),
        crate::words::trim_spec(import).len() > 0 ==> (crate::code_intel::graph::package_for_import_spec(
            g,
            crate::words::trim_spec(import),
        ) matches Some(p) ==> record_import_spec(g, file, import).triples.contains((file, CODE_NS@ + "imports"@, p))),
        ({
            let t = crate::words::trim_spec(import);
            let m = g.repo + "/module/"@ + crate::code_intel::names::slug_spec(t);
            let r = record_import_spec(g, file, import).triples;
            t.len() > 0 && crate::code_intel::graph::package_for_import_spec(g, t) is None && t != "std"@ && t
                != "core"@ && t != "alloc"@ ==> {
                &&& r.contains((m, RDF_TYPE@, CODE_NS@ + "Module"@))
                &&& r.contains((m, CODE_NS@ + "name"@, t))
                &&& r.contains((file, CODE_NS@ + "imports"@, m))
            }
        }),
        ({
            let t = crate::words::trim_spec(import);
            let pk = package_spec(g, "cargo"@, t, None).1;
            crate::code_intel::graph::package_for_import_spec(g, t) is None && (t == "std"@ || t == "core"@ || t
                == "alloc"@) ==> record_import_spec(g, file, import).triples.contains((file, CODE_NS@ + "imports"@, pk))
        }),
{
    reveal_strlit("std");
    reveal_strlit("core");
    reveal_strlit("alloc");
    let t = crate::words::trim_spec(import);
    if t.len() > 0 {
        match crate::code_intel::graph::package_for_import_spec(g, t) {
            Some(p) => {
                lemma_add_keeps(g, (file, CODE_NS@ + "imports"@, p));
            },
            None => {
                if t == "std"@ || t == "core"@ || t == "alloc"@ {
                    let pk = package_spec(g, "cargo"@, t, None);
                    lemma_package_keeps(g, "cargo"@, t, None);
                    lemma_add_keeps(pk.0, (file, CODE_NS@ + "imports"@, pk.1));
                } else {
                    let m = g.repo + "/module/"@ + crate::code_intel::names::slug_spec(t);
                    let g1 = add_triple(g, (m, RDF_TYPE@, CODE_NS@ + "Module"@));
                    let g2 = add_triple(g1, (m, CODE_NS@ + "name"@, t));
                    lemma_add_keeps(g, (m, RDF_TYPE@, CODE_NS@ + "Module"@));
                    lemma_add_keeps(g1, (m, CODE_NS@ + "name"@, t));
                    lemma_add_keeps(g2, (file, CODE_NS@ + "imports"@, m));
                }
            },
        }
    }
}


/// The class of an item kind that defines a symbol is the item's name with its first
/// letter in upper case: `function_item` gives `Function`, and so on for structs, enums,
/// traits and impls; any other kind gives `Symbol`.
pub proof fn law_symbol_kind(stem: Seq<char>, kind: Seq<char>)
    ensures
        (stem == "function"@ || stem == "struct"@ || stem == "enum"@ || stem == "trait"@ || stem == "impl"@)
            ==> crate::code_intel::names::rust_symbol_kind_spec(stem + "_item"@) == seq![
            crate::text::upper_char(stem[0]),
        ] + stem.skip(1),
        kind != "function_item"@ && kind != "struct_item"@ && kind != "enum_item"@ && kind != "trait_item"@
            && kind != "impl_item"@ ==> crate::code_intel::names::rust_symbol_kind_spec(kind) == "Symbol"@,
{
    reveal_strlit("_item");
    reveal_strlit("function");
    reveal_strlit("struct");
    reveal_strlit("enum");
    reveal_strlit("trait");
    reveal_strlit("impl");
    reveal_strlit("function_item");
    reveal_strlit("struct_item");
    reveal_strlit("enum_item");
    reveal_strlit("trait_item");
    reveal_strlit("impl_item");
    reveal_strlit("Function");
    reveal_strlit("Struct");
    reveal_strlit("Enum");
    reveal_strlit("Trait");
    reveal_strlit("Impl");
    assert(crate::text::upper_char('f') == 'F');
    assert(crate::text::upper_char('s') == 'S');
    assert(crate::text::upper_char('e') == 'E');
    assert(crate::text::upper_char('t') == 'T');
    assert(crate::text::upper_char('i') == 'I');
    if stem == "function"@ {
        assert(stem + "_item"@ =~= "function_item"@);
        assert(seq![crate::text::upper_char(stem[0])] + stem.skip(1) =~= "Function"@);
    } else if stem == "struct"@ {
        assert(stem + "_item"@ =~= "struct_item"@);
        assert("struct_item"@ != "function_item"@) by { assert("struct_item"@.len() != "function_item"@.len()); }
        assert(seq![crate::text::upper_char(stem[0])] + stem.skip(1) =~= "Struct"@);
    } else if stem == "enum"@ {
        assert(stem + "_item"@ =~= "enum_item"@);
        assert("enum_item"@ != "function_item"@) by { assert("enum_item"@.len() != "function_item"@.len()); }
        assert("enum_item"@ != "struct_item"@) by { assert("enum_item"@.len() != "struct_item"@.len()); }
        assert(seq![crate::text::upper_char(stem[0])] + stem.skip(1) =~= "Enum"@);
    } else if stem == "trait"@ {
        assert(stem + "_item"@ =~= "trait_item"@);
        assert("trait_item"@ != "function_item"@) by { assert("trait_item"@.len() != "function_item"@.len()); }
        assert("trait_item"@ != "struct_item"@) by { assert("trait_item"@[0] != "struct_item"@[0]); }
        assert("trait_item"@ != "enum_item"@) by { assert("trait_item"@.len() != "enum_item"@.len()); }
        assert(seq![crate::text::upper_char(stem[0])] + stem.skip(1) =~= "Trait"@);
    } else if stem == "impl"@ {
        assert(stem + "_item"@ =~= "impl_item"@);
        assert("impl_item"@ != "function_item"@) by { assert("impl_item"@.len() != "function_item"@.len()); }
        assert("impl_item"@ != "struct_item"@) by { assert("impl_item"@.len() != "struct_item"@.len()); }
        assert("impl_item"@ != "enum_item"@) by { assert("impl_item"@[0] != "enum_item"@[0]); }
        assert("impl_item"@ != "trait_item"@) by { assert("impl_item"@.len() != "trait_item"@.len()); }
        assert(seq![crate::text::upper_char(stem[0])] + stem.skip(1) =~= "Impl"@);
    }
}


/// A path has a package manager exactly when it is a manifest: `Cargo.toml` is managed by
/// `cargo` and `package.json` by `npm`.
pub proof fn law_manifest_manager(path: Seq<char>)
    ensures
        crate::code_intel::names::manifest_manager_spec(path) is Some <==> crate::code_intel::names::is_manifest_path_spec(path),
        path == "Cargo.toml"@ ==> crate::code_intel::names::manifest_manager_spec(path) == Some("cargo"@),
        path == "package.json"@ ==> crate::code_intel::names::manifest_manager_spec(path) == Some("npm"@),
{
    reveal_strlit("Cargo.toml");
    reveal_strlit("package.json");
    reveal_strlit("cargo");
    reveal_strlit("npm");
    assert("Cargo.toml"@.len() != "package.json"@.len());
}

} // verus!
