use omrya::avr::findings::detect_code_findings;
use omrya::avr::ingest::{ingest_triples, language_for, AVR_NS, AVR_PLAIN_ENGLISH};
use omrya::code_intel::graph::{CODE_NS, RDF_TYPE};

#[test]
fn secret_line_is_reported_with_trimmed_snippet() {
    let found = detect_code_findings("src/config.rs", "fn main() {}\n    let password = read();\n");
    assert_eq!(found.len(), 1);
    assert_eq!(found[0].kind, "SecretExposureCandidate");
    assert_eq!(found[0].operator, "SearchCredentialSurfaces");
    assert_eq!(found[0].line, 2);
    assert_eq!(found[0].snippet, "let password = read();");
}

#[test]
fn one_line_can_match_several_patterns_in_order() {
    let found = detect_code_findings(
        "q.rs",
        "let q = format!(\"SELECT ?s WHERE {{ ?s ?p {} }}\", x); // unsafe",
    );
    let kinds: Vec<&str> = found.iter().map(|f| f.kind).collect();
    assert_eq!(
        kinds,
        vec![
            "SPARQLInjectionCandidate",
            "DynamicQueryConstruction",
            "MemorySafetyReviewSurface"
        ]
    );
    assert!(found.iter().all(|f| f.line == 1));
}

#[test]
fn manifest_paths_get_a_dependency_finding() {
    let found = detect_code_findings("crates/a/Cargo.toml", "[package]\nname = \"a\"\n");
    assert_eq!(found.len(), 1);
    assert_eq!(found[0].kind, "DependencyGraphSurface");
    assert_eq!(found[0].line, 1);
    assert_eq!(found[0].snippet, "manifest: crates/a/Cargo.toml");
    assert!(detect_code_findings("notes.md", "plain words\n").is_empty());
}

#[test]
fn findings_stop_after_eighty() {
    let content = "unsafe {}\n".repeat(200);
    let found = detect_code_findings("lib.rs", &content);
    assert_eq!(found.len(), 80);
    assert_eq!(found[79].line, 80);
    let many = "let token = unsafe { x };\n".repeat(100);
    let found = detect_code_findings("package.json", &many);
    assert_eq!(found.len(), 81);
    assert_eq!(found[80].kind, "DependencyGraphSurface");
}

#[test]
fn languages_follow_the_last_extension() {
    assert_eq!(language_for("src/main.rs"), "Rust");
    assert_eq!(language_for("web/app.test.tsx"), "TypeScript");
    assert_eq!(language_for("Makefile"), "Text");
    assert_eq!(language_for("include/x.hpp"), "C++");
    assert_eq!(language_for("archive.tar.gz"), "Text");
}

#[test]
fn ingest_without_findings_notes_the_silence() {
    let files = vec![
        ("README.md".to_string(), Some("hello\nworld\n".to_string())),
        ("logo.png".to_string(), None),
    ];
    let ts = ingest_triples("/tmp/demo", "map the code", "Demo Repo", 1700000000, &files);
    let repo = format!("{CODE_NS}repo/demo-repo");
    assert_eq!(ts.len(), 12 + 1 + 6 + 5 + 1);
    assert_eq!(ts[0], (repo.clone(), RDF_TYPE.to_string(), format!("{CODE_NS}Repository")));
    assert_eq!(ts[1].2, "/tmp/demo");
    let campaign = ts[3].0.clone();
    assert!(campaign.starts_with(&format!("{AVR_NS}campaign/repo-")));
    assert!(campaign.ends_with("-1700000000"));
    assert_eq!(campaign.len(), format!("{AVR_NS}campaign/repo-").len() + 16 + 1 + 10);
    assert_eq!(ts[5].2, "map the code");
    assert_eq!(ts[12], (repo.clone(), format!("{CODE_NS}indexedFileCount"), "2".to_string()));
    let file = format!("{repo}/file/readme-md");
    assert_eq!(ts[13], (repo.clone(), format!("{CODE_NS}containsFile"), file.clone()));
    assert_eq!(ts[16], (file.clone(), format!("{CODE_NS}language"), "Markdown".to_string()));
    assert_eq!(ts[18], (file, format!("{CODE_NS}lineCount"), "2".to_string()));
    assert_eq!(ts[19].2, format!("{repo}/file/logo-png"));
    assert_eq!(
        ts[24],
        (
            campaign,
            format!("{AVR_NS}observedSignal"),
            "No static exploit-memory hypotheses matched the bounded pattern set".to_string()
        )
    );
}

#[test]
fn ingest_links_each_finding_to_its_evidence() {
    let files = vec![("src/db.rs".to_string(), Some("x\nlet api_key = k;\n".to_string()))];
    let ts = ingest_triples("https://example.com/r.git", "audit", "r", 5, &files);
    assert_eq!(ts.len(), 12 + 1 + 6 + 16);
    let campaign = ts[3].0.clone();
    let hyp = format!("{campaign}/hypothesis/1-secretexposurecandidate");
    assert_eq!(ts[19], (campaign.clone(), format!("{AVR_NS}hasHypothesis"), hyp.clone()));
    assert_eq!(
        ts[22],
        (
            hyp.clone(),
            AVR_PLAIN_ENGLISH.to_string(),
            "Possible SecretExposureCandidate in src/db.rs:2. This is a review lead, not proof; inspect the linked probe and evidence before acting.".to_string()
        )
    );
    assert_eq!(ts[25].0, format!("{campaign}/probe/1-searchcredentialsurfaces"));
    let evidence = format!("{campaign}/evidence/1");
    assert_eq!(ts[32], (evidence.clone(), format!("{CODE_NS}line"), "2".to_string()));
    assert_eq!(ts[34], (evidence, format!("{CODE_NS}snippet"), "let api_key = k;".to_string()));
    assert!(ts.iter().all(|t| !t.1.ends_with("observedSignal")));
}

#[test]
fn ingest_campaign_depends_on_the_target_hash() {
    let files: Vec<(String, Option<String>)> = Vec::new();
    let a = ingest_triples("one", "o", "r", 7, &files);
    let b = ingest_triples("two", "o", "r", 7, &files);
    let c = ingest_triples("one", "o", "r", 7, &files);
    assert_ne!(a[3].0, b[3].0);
    assert_eq!(a[3].0, c[3].0);
}
