use omrya::code_intel::graph::CodeTriple;
use omrya::code_intel::manifests::{cargo_dependencies, npm_dependencies, quoted_value};
use omrya::code_intel::names::{hash_slug, language_for_path, pascal_case, slug};
use omrya::code_intel::repo_sources_to_rdf_triples;
use omrya::code_intel::scan::{
    cve_ids, js_import_package, package_refs, parse_package_ref, rust_import_root,
};

fn render(triples: &[CodeTriple]) -> String {
    triples
        .iter()
        .map(|triple| format!("{} {} {}", triple.subject, triple.predicate, triple.object))
        .collect::<Vec<_>>()
        .join("\n")
}

fn fixture_files() -> Vec<(String, String)> {
    vec![
        (
            "Cargo.toml".to_string(),
            r#"
[package]
name = "fixture"
version = "0.1.0"

[dependencies]
serde = "1"
tree-sitter = { version = "0.26" }
"#
            .to_string(),
        ),
        (
            "package.json".to_string(),
            r#"
{
  "dependencies": {
    "express": "4.18.2"
  }
}
"#
            .to_string(),
        ),
        (
            "src/lib.rs".to_string(),
            r#"
use serde::Serialize;

pub fn auth_middleware() {
    verify_token();
}

fn verify_token() {}
"#
            .to_string(),
        ),
        (
            "src/auth.js".to_string(),
            r#"
const express = require("express");
export function authMiddleware(req, res, next) { next(); }
"#
            .to_string(),
        ),
        (
            "sbom.json".to_string(),
            r#"
{
  "components": [{"purl": "pkg:npm/express@4.18.2"}],
  "vulnerabilities": [{"id": "CVE-2024-12345", "affects": [{"ref": "pkg:npm/express@4.18.2"}]}]
}
"#
            .to_string(),
        ),
    ]
}

#[test]
fn repo_to_rdf_triples_extracts_packages_imports_symbols_calls_and_cves() {
    let files = fixture_files();
    let triples =
        repo_sources_to_rdf_triples(&files, "http://omrya.local/code/repo/fixture").unwrap();
    let rendered = render(&triples);

    assert!(rendered.contains("http://omrya.local/pkg/cargo/serde"));
    assert!(rendered.contains("http://omrya.local/pkg/npm/express"));
    assert!(
        rendered.contains("http://omrya.local/code/imports http://omrya.local/pkg/cargo/serde")
    );
    assert!(
        rendered.contains("http://omrya.local/code/imports http://omrya.local/pkg/npm/express")
    );
    assert!(rendered.contains("http://omrya.local/code/defines"));
    assert!(rendered.contains("auth_middleware"));
    assert!(rendered.contains("http://omrya.local/code/calls"));
    assert!(rendered.contains("verify_token"));
    assert!(rendered.contains("http://omrya.local/sec/hasVulnerability"));
    assert!(rendered.contains("CVE-2024-12345"));
}

#[test]
fn code_graph_triples_are_distinct_and_start_with_the_repository() {
    let files = fixture_files();
    let triples = repo_sources_to_rdf_triples(&files, "http://omrya.local/code/repo/x").unwrap();
    let first = repo_sources_to_rdf_triples(&files, "http://omrya.local/code/repo/x")
        .unwrap()
        .into_iter()
        .next()
        .unwrap()
        .into_tuple();
    assert_eq!(
        first,
        (
            "http://omrya.local/code/repo/x".to_string(),
            "http://www.w3.org/1999/02/22-rdf-syntax-ns#type".to_string(),
            "http://omrya.local/code/Repository".to_string()
        )
    );
    let rendered: Vec<String> = render(&triples).lines().map(|l| l.to_string()).collect();
    let mut sorted = rendered.clone();
    sorted.sort();
    sorted.dedup();
    assert_eq!(sorted.len(), rendered.len());
    let rendered = rendered.join("\n");
    assert!(rendered.contains(
        "http://omrya.local/code/repo/x/file/src-lib-rs http://omrya.local/code/lineCount 8"
    ));
    assert!(rendered.contains(
        "http://omrya.local/pkg/cargo/tree-sitter http://omrya.local/pkg/hasVersion 0.26"
    ));
    assert!(rendered.contains(
        "http://omrya.local/code/repo/x/file/src-lib-rs http://omrya.local/code/exports http://omrya.local/code/repo/x/file/src-lib-rs/symbol/auth-middleware"
    ));
    assert!(!rendered.contains("symbol/verify-token http://omrya.local/code/calls"));
}

#[test]
fn broken_rust_source_still_parses_with_error_nodes() {
    let files = vec![("src/x.rs".to_string(), "fn (".to_string())];
    let triples = repo_sources_to_rdf_triples(&files, "r").unwrap();
    assert!(render(&triples).contains("r/file/src-x-rs http://omrya.local/code/language Rust"));
}

#[test]
fn slugs_and_cases() {
    assert_eq!(slug("Hello, World!"), "hello-world");
    assert_eq!(slug("--a--b--"), "a-b");
    assert_eq!(slug(&"x".repeat(100)).len(), 96);
    let s = slug("!!!");
    assert!(s.starts_with("item-"));
    assert_eq!(s.len(), 21);
    assert_eq!(hash_slug(255), "item-00000000000000ff");
    assert_eq!(pascal_case("pypi"), "Pypi");
    assert_eq!(pascal_case("my-custom_mgr"), "MyCustomMgr");
}

#[test]
fn languages_by_extension() {
    assert_eq!(language_for_path("src/main.rs"), "Rust");
    assert_eq!(language_for_path("a/b.mjs"), "JavaScript");
    assert_eq!(language_for_path("x.tsx"), "TSX");
    assert_eq!(language_for_path(".bashrc"), "Text");
    assert_eq!(language_for_path("README"), "Text");
}

#[test]
fn manifests_list_dependencies() {
    let deps = cargo_dependencies(
        "[package]\nname = \"x\"\n[dependencies]\nserde = \"1\" # comment\nlocal = { path = \"../local\", version = \"../x\" }\ntokio = { version = \"1.0\", features = [\"full\"] }\n[features]\na = \"b\"\n",
    );
    assert_eq!(
        deps,
        vec![
            ("serde".to_string(), Some("1".to_string())),
            ("local".to_string(), None),
            ("tokio".to_string(), Some("1.0".to_string())),
        ]
    );
    let deps = npm_dependencies(
        "{\n  \"name\": \"x\",\n  \"devDependencies\": {\n    \"jest\": \"29\",\n    \"@types/node\": \"20\"\n  },\n  \"other\": \"y\"\n}\n",
    );
    assert_eq!(
        deps,
        vec![
            ("jest".to_string(), Some("29".to_string())),
            ("@types/node".to_string(), Some("20".to_string())),
        ]
    );
    assert_eq!(quoted_value("= \"abc\" x"), Some("abc".to_string()));
    assert_eq!(quoted_value("no quotes"), None);
}

#[test]
fn imports_and_references() {
    assert_eq!(rust_import_root("use ::std::fmt;"), Some("std".to_string()));
    assert_eq!(rust_import_root("use crate::a::{b, c};"), Some("crate".to_string()));
    assert_eq!(rust_import_root("fn main() {}"), None);
    assert_eq!(js_import_package("import x from '@scope/pkg/sub';"), Some("@scope/pkg".to_string()));
    assert_eq!(js_import_package("import 'lodash/fp';"), Some("lodash".to_string()));
    assert_eq!(js_import_package("const a = require(\"b/c\")"), Some("b".to_string()));
    assert_eq!(js_import_package("let x = 1;"), None);
    assert_eq!(
        cve_ids("CVE-2024-0001, CVE-2023-99999 and CVE-1 and CVE-2024-0001"),
        vec!["CVE-2023-99999".to_string(), "CVE-2024-0001".to_string()]
    );
    assert_eq!(
        package_refs("[\"pkg:npm/b@1\", {ref: pkg:cargo/a@2}] pkg:npm/b@1"),
        vec!["pkg:cargo/a@2".to_string(), "pkg:npm/b@1".to_string()]
    );
    assert_eq!(
        parse_package_ref("pkg:npm/@scope/name@1.2?x=y"),
        Some(("npm".to_string(), "@scope/name".to_string(), Some("1.2".to_string())))
    );
    assert_eq!(
        parse_package_ref("pkg:npm/@scope"),
        Some(("npm".to_string(), "@scope".to_string(), None))
    );
    assert_eq!(parse_package_ref("npm/x"), None);
}
