use vstd::prelude::*;

use crate::avr::findings::{
    CodeFinding, FindingModel, detect_code_findings, finding_model, finding_models, findings_spec,
    lemma_findings_bound,
};
use crate::code_intel::graph::{CODE_NS, RDF_TYPE, TripleText};
use crate::code_intel::names::{
    default_hash, hex_digits, hex_digits_exec, short_slug, short_slug_spec, str_default_hash,
};
use crate::fjall_mr::{lines_of, text_lines};
use crate::text::{chars_of, decimal, last_index, push_str, str_eq, substring, u64_to_string};

verus! {

/// The namespace of analysis campaigns.
pub const AVR_NS: &'static str = "http://omrya.local/avr/";

/// The predicate of plain-English explanations.
pub const AVR_PLAIN_ENGLISH: &'static str = "http://omrya.local/avr/plainEnglish";

/// A subject, predicate and object.
pub type Text3 = (String, String, String);

/// The texts of a list of triples.
pub open spec fn text3_views(v: Seq<Text3>) -> Seq<TripleText> {
    v.map_values(|t: Text3| (t.0@, t.1@, t.2@))
}

fn push3(out: &mut Vec<Text3>, s: &str, p: &str, o: &str)
    ensures
        text3_views(final(out)@) == text3_views(old(out)@).push((s@, p@, o@)),
{
    let ghost before = text3_views(out@);
    out.push((s.to_string(), p.to_string(), o.to_string()));
    assert(text3_views(out@) =~= before.push((s@, p@, o@)));
}

fn cat(a: &str, b: &str) -> (r: String)
    ensures
        r@ == a@ + b@,
{
    let mut s = crate::text::to_owned(a);
    push_str(&mut s, b);
    s
}

/// What follows the last `.` of a path, or the whole path.
pub open spec fn last_part(path: Seq<char>) -> Seq<char> {
    match last_index(path, '.') {
        Some(i) => path.skip(i + 1),
        None => path,
    }
}

/// The language of a path by what follows its last dot.
pub open spec fn language_for_spec(path: Seq<char>) -> Seq<char> {
    let e = last_part(path);
    if e == "rs"@ {
        "Rust"@
    } else if e == "py"@ {
        "Python"@
    } else if e == "js"@ || e == "mjs"@ || e == "cjs"@ {
        "JavaScript"@
    } else if e == "ts"@ || e == "tsx"@ {
        "TypeScript"@
    } else if e == "java"@ {
        "Java"@
    } else if e == "go"@ {
        "Go"@
    } else if e == "rb"@ {
        "Ruby"@
    } else if e == "php"@ {
        "PHP"@
    } else if e == "c"@ || e == "h"@ {
        "C"@
    } else if e == "cc"@ || e == "cpp"@ || e == "hpp"@ {
        "C++"@
    } else if e == "toml"@ {
        "TOML"@
    } else if e == "json"@ {
        "JSON"@
    } else if e == "xml"@ {
        "XML"@
    } else if e == "md"@ {
        "Markdown"@
    } else {
        "Text"@
    }
}

/// The language of a path, as `language_for_spec` states it.
pub fn language_for(path: &str) -> (r: &'static str)
    ensures
        r@ == language_for_spec(path@),
{
    let cs = chars_of(path);
    let n = cs.len();
    let tail = match crate::text::rfind_char(cs.as_slice(), '.') {
        Some(i) => {
            proof {
                crate::text::lemma_last_index_before(cs@, '.', n as int);
            }
            let t = substring(cs.as_slice(), i + 1, n);
            assert(t@ =~= path@.skip(i + 1));
            t
        },
        None => crate::text::to_owned(path),
    };
    let e = tail.as_str();
    if str_eq(e, "rs") {
        "Rust"
    } else if str_eq(e, "py") {
        "Python"
    } else if str_eq(e, "js") || str_eq(e, "mjs") || str_eq(e, "cjs") {
        "JavaScript"
    } else if str_eq(e, "ts") || str_eq(e, "tsx") {
        "TypeScript"
    } else if str_eq(e, "java") {
        "Java"
    } else if str_eq(e, "go") {
        "Go"
    } else if str_eq(e, "rb") {
        "Ruby"
    } else if str_eq(e, "php") {
        "PHP"
    } else if str_eq(e, "c") || str_eq(e, "h") {
        "C"
    } else if str_eq(e, "cc") || str_eq(e, "cpp") || str_eq(e, "hpp") {
        "C++"
    } else if str_eq(e, "toml") {
        "TOML"
    } else if str_eq(e, "json") {
        "JSON"
    } else if str_eq(e, "xml") {
        "XML"
    } else if str_eq(e, "md") {
        "Markdown"
    } else {
        "Text"
    }
}

/// The name of the analysed repository.
pub open spec fn repo_uri_spec(repo_name: Seq<char>) -> Seq<char> {
    CODE_NS@ + "repo/"@ + short_slug_spec(repo_name)
}

/// The name of the analysis campaign: the target's hash and the start time in seconds.
pub open spec fn campaign_uri_spec(target: Seq<char>, started: u64) -> Seq<char> {
    AVR_NS@ + "campaign/repo-"@ + hex_digits(default_hash(target), 16) + "-"@ + decimal(started as nat)
}

/// The triples that open an analysis: the repository, the campaign and its components.
pub open spec fn header_spec(target: Seq<char>, objective: Seq<char>, repo: Seq<char>, campaign: Seq<char>) -> Seq<TripleText> {
    let plain = AVR_PLAIN_ENGLISH@;
    let uses = AVR_NS@ + "usesComponent"@;
    seq![
        (repo, RDF_TYPE@, CODE_NS@ + "Repository"@),
        (repo, CODE_NS@ + "sourceTarget"@, target),
        (repo, plain, "Repository opened from "@ + target
            + ". Omrya indexes files as SourceFile nodes and links generated hypotheses back to file paths."@),
        (campaign, RDF_TYPE@, AVR_NS@ + "OffensiveQueryEvolutionCampaign"@),
        (campaign, AVR_NS@ + "authorizedScope"@, "local repository analysis only"@),
        (campaign, AVR_NS@ + "objective"@, objective),
        (campaign, plain, "One authorized repository analysis run. It connects the repository to hypotheses, generated probes, and evidence so the graph can be audited."@),
        (campaign, AVR_NS@ + "analyzesRepository"@, repo),
        (campaign, uses, AVR_NS@ + "component/graphrag-retriever"@),
        (campaign, uses, AVR_NS@ + "component/offensive-query-planner"@),
        (campaign, uses, AVR_NS@ + "component/static-oracle"@),
        (campaign, uses, AVR_NS@ + "component/evidence-writer"@),
    ]
}

/// The sixteen triples of finding number `idx` in a file: the hypothesis, its probe and its
/// evidence.
pub open spec fn finding_triples(campaign: Seq<char>, file: Seq<char>, path: Seq<char>, f: FindingModel, idx: nat) -> Seq<TripleText> {
    let plain = AVR_PLAIN_ENGLISH@;
    let hyp = campaign + "/hypothesis/"@ + decimal(idx) + "-"@ + short_slug_spec(f.0);
    let probe = campaign + "/probe/"@ + decimal(idx) + "-"@ + short_slug_spec(f.1);
    let evid = campaign + "/evidence/"@ + decimal(idx);
    let line = decimal(f.3 as nat);
    seq![
        (campaign, AVR_NS@ + "hasHypothesis"@, hyp),
        (hyp, RDF_TYPE@, AVR_NS@ + "VulnerabilityHypothesis"@),
        (hyp, AVR_NS@ + "failureClass"@, f.0),
        (hyp, plain, "Possible "@ + f.0 + " in "@ + path + ":"@ + line
            + ". This is a review lead, not proof; inspect the linked probe and evidence before acting."@),
        (hyp, AVR_NS@ + "targetsComponent"@, file),
        (hyp, AVR_NS@ + "generatedProbe"@, probe),
        (probe, RDF_TYPE@, AVR_NS@ + "CodeQueryProbe"@),
        (probe, AVR_NS@ + "mutatedBy"@, AVR_NS@ + "operator/"@ + f.1),
        (probe, AVR_NS@ + "queryIntent"@, f.2),
        (probe, plain, "Generated follow-up analysis idea: "@ + f.2),
        (hyp, AVR_NS@ + "supportedByEvidence"@, evid),
        (evid, RDF_TYPE@, AVR_NS@ + "Evidence"@),
        (evid, CODE_NS@ + "path"@, path),
        (evid, CODE_NS@ + "line"@, line),
        (evid, plain, "Evidence came from "@ + path + ":"@ + line
            + ". The snippet is the source text that triggered this generated hypothesis."@),
        (evid, CODE_NS@ + "snippet"@, f.4),
    ]
}

/// The triples of the first `k` findings of a file, numbered on from `start`.
pub open spec fn findings_triples(campaign: Seq<char>, file: Seq<char>, path: Seq<char>, fs: Seq<FindingModel>, start: nat, k: int) -> Seq<TripleText>
    decreases k,
{
    if k <= 0 || k > fs.len() {
        Seq::empty()
    } else {
        findings_triples(campaign, file, path, fs, start, k - 1) + finding_triples(campaign, file, path, fs[k - 1], start + k as nat)
    }
}

/// The triples of one listed file, and how many findings it adds: the file node, and, where
/// its text could be read, its line count and its findings.
pub open spec fn file_triples(repo: Seq<char>, campaign: Seq<char>, path: Seq<char>, content: Option<Seq<char>>, start: nat) -> (Seq<TripleText>, nat) {
    let file = repo + "/file/"@ + short_slug_spec(path);
    let language = language_for_spec(path);
    let base = seq![
        (repo, CODE_NS@ + "containsFile"@, file),
        (file, RDF_TYPE@, CODE_NS@ + "SourceFile"@),
        (file, CODE_NS@ + "path"@, path),
        (file, CODE_NS@ + "language"@, language),
        (file, AVR_PLAIN_ENGLISH@, path + " is an indexed "@ + language
            + " source file. Hypotheses target this node when a bounded analysis pattern matched the file."@),
    ];
    match content {
        None => (base, 0),
        Some(c) => {
            let fs = findings_spec(path, c);
            (
                base + seq![(file, CODE_NS@ + "lineCount"@, decimal(text_lines(c).len()))]
                    + findings_triples(campaign, file, path, fs, start, fs.len() as int),
                fs.len(),
            )
        },
    }
}

/// The triples of the first `n` files and the number of findings among them.
pub open spec fn files_triples(repo: Seq<char>, campaign: Seq<char>, files: Seq<(Seq<char>, Option<Seq<char>>)>, n: int) -> (Seq<TripleText>, nat)
    decreases n,
{
    if n <= 0 || n > files.len() {
        (Seq::empty(), 0)
    } else {
        let p = files_triples(repo, campaign, files, n - 1);
        let f = file_triples(repo, campaign, files[n - 1].0, files[n - 1].1, p.1);
        (p.0 + f.0, p.1 + f.1)
    }
}

/// The triples of a repository analysis: the header, the number of listed files, each
/// file's triples, and a note when nothing matched.
pub open spec fn ingest_spec(
    target: Seq<char>,
    objective: Seq<char>,
    repo_name: Seq<char>,
    started: u64,
    files: Seq<(Seq<char>, Option<Seq<char>>)>,
) -> Seq<TripleText> {
    let repo = repo_uri_spec(repo_name);
    let campaign = campaign_uri_spec(target, started);
    let ft = files_triples(repo, campaign, files, files.len() as int);
    header_spec(target, objective, repo, campaign) + seq![(repo, CODE_NS@ + "indexedFileCount"@, decimal(files.len()))]
        + ft.0 + if ft.1 == 0 {
        seq![(campaign, AVR_NS@ + "observedSignal"@, "No static exploit-memory hypotheses matched the bounded pattern set"@)]
    } else {
        Seq::empty()
    }
}

/// Paths and optional contents as texts.
pub open spec fn source_views(files: Seq<(String, Option<String>)>) -> Seq<(Seq<char>, Option<Seq<char>>)> {
    files.map_values(|f: (String, Option<String>)| (f.0@, crate::code_intel::manifests::opt_view(f.1)))
}

proof fn lemma_files_count(repo: Seq<char>, campaign: Seq<char>, files: Seq<(Seq<char>, Option<Seq<char>>)>, n: int)
    requires
        0 <= n <= files.len(),
    ensures
        files_triples(repo, campaign, files, n).1 <= 86 * n,
    decreases n,
{
    if n > 0 {
        lemma_files_count(repo, campaign, files, n - 1);
        if let Some(c) = files[n - 1].1 {
            let ls = text_lines(c);
            lemma_findings_bound(ls, ls.len() as int);
        }
    }
}

fn push_header(out: &mut Vec<Text3>, target: &str, objective: &str, repo: &str, campaign: &str)
    ensures
        text3_views(final(out)@) == text3_views(old(out)@) + header_spec(target@, objective@, repo@, campaign@),
{
    let ghost before = text3_views(out@);
    push3(out, repo, RDF_TYPE, cat(CODE_NS, "Repository").as_str());
    push3(out, repo, cat(CODE_NS, "sourceTarget").as_str(), target);
    let mut t = cat("Repository opened from ", target);
    push_str(&mut t, ". Omrya indexes files as SourceFile nodes and links generated hypotheses back to file paths.");
    push3(out, repo, AVR_PLAIN_ENGLISH, t.as_str());
    push3(out, campaign, RDF_TYPE, cat(AVR_NS, "OffensiveQueryEvolutionCampaign").as_str());
    push3(out, campaign, cat(AVR_NS, "authorizedScope").as_str(), "local repository analysis only");
    push3(out, campaign, cat(AVR_NS, "objective").as_str(), objective);
    push3(out, campaign, AVR_PLAIN_ENGLISH,
        "One authorized repository analysis run. It connects the repository to hypotheses, generated probes, and evidence so the graph can be audited.");
    push3(out, campaign, cat(AVR_NS, "analyzesRepository").as_str(), repo);
    let uses = cat(AVR_NS, "usesComponent");
    push3(out, campaign, uses.as_str(), cat(AVR_NS, "component/graphrag-retriever").as_str());
    push3(out, campaign, uses.as_str(), cat(AVR_NS, "component/offensive-query-planner").as_str());
    push3(out, campaign, uses.as_str(), cat(AVR_NS, "component/static-oracle").as_str());
    push3(out, campaign, uses.as_str(), cat(AVR_NS, "component/evidence-writer").as_str());
    assert(text3_views(out@) =~= before + header_spec(target@, objective@, repo@, campaign@));
}

fn push_finding(out: &mut Vec<Text3>, campaign: &str, file: &str, path: &str, f: &CodeFinding, idx: usize)
    ensures
        text3_views(final(out)@) == text3_views(old(out)@) + finding_triples(campaign@, file@, path@, finding_model(*f), idx as nat),
{
    let ghost before = text3_views(out@);
    let plain = AVR_PLAIN_ENGLISH;
    let n = u64_to_string(idx as u64);
    let mut hyp = cat(campaign, "/hypothesis/");
    push_str(&mut hyp, n.as_str());
    push_str(&mut hyp, "-");
    push_str(&mut hyp, short_slug(f.kind).as_str());
    let mut probe = cat(campaign, "/probe/");
    push_str(&mut probe, n.as_str());
    push_str(&mut probe, "-");
    push_str(&mut probe, short_slug(f.operator).as_str());
    let evid = cat(cat(campaign, "/evidence/").as_str(), n.as_str());
    let line = u64_to_string(f.line as u64);
    push3(out, campaign, cat(AVR_NS, "hasHypothesis").as_str(), hyp.as_str());
    push3(out, hyp.as_str(), RDF_TYPE, cat(AVR_NS, "VulnerabilityHypothesis").as_str());
    push3(out, hyp.as_str(), cat(AVR_NS, "failureClass").as_str(), f.kind);
    let mut t = cat("Possible ", f.kind);
    push_str(&mut t, " in ");
    push_str(&mut t, path);
    push_str(&mut t, ":");
    push_str(&mut t, line.as_str());
    push_str(&mut t, ". This is a review lead, not proof; inspect the linked probe and evidence before acting.");
    push3(out, hyp.as_str(), plain, t.as_str());
    push3(out, hyp.as_str(), cat(AVR_NS, "targetsComponent").as_str(), file);
    push3(out, hyp.as_str(), cat(AVR_NS, "generatedProbe").as_str(), probe.as_str());
    push3(out, probe.as_str(), RDF_TYPE, cat(AVR_NS, "CodeQueryProbe").as_str());
    push3(out, probe.as_str(), cat(AVR_NS, "mutatedBy").as_str(), cat(cat(AVR_NS, "operator/").as_str(), f.operator).as_str());
    push3(out, probe.as_str(), cat(AVR_NS, "queryIntent").as_str(), f.query_intent);
    push3(out, probe.as_str(), plain, cat("Generated follow-up analysis idea: ", f.query_intent).as_str());
    push3(out, hyp.as_str(), cat(AVR_NS, "supportedByEvidence").as_str(), evid.as_str());
    push3(out, evid.as_str(), RDF_TYPE, cat(AVR_NS, "Evidence").as_str());
    push3(out, evid.as_str(), cat(CODE_NS, "path").as_str(), path);
    push3(out, evid.as_str(), cat(CODE_NS, "line").as_str(), line.as_str());
    let mut e = cat("Evidence came from ", path);
    push_str(&mut e, ":");
    push_str(&mut e, line.as_str());
    push_str(&mut e, ". The snippet is the source text that triggered this generated hypothesis.");
    push3(out, evid.as_str(), plain, e.as_str());
    push3(out, evid.as_str(), cat(CODE_NS, "snippet").as_str(), f.snippet.as_str());
    assert(text3_views(out@) =~= before + finding_triples(campaign@, file@, path@, finding_model(*f), idx as nat));
}

fn push_file(out: &mut Vec<Text3>, repo: &str, campaign: &str, path: &str, content: &Option<String>, start: usize) -> (added: usize)
    requires
        start + 86 <= usize::MAX,
    ensures
        ({
            let ft = file_triples(repo@, campaign@, path@, crate::code_intel::manifests::opt_view(*content), start as nat);
            text3_views(final(out)@) == text3_views(old(out)@) + ft.0 && added == ft.1
        }),
        added <= 86,
{
    let ghost before = text3_views(out@);
    let file = cat(cat(repo, "/file/").as_str(), short_slug(path).as_str());
    let language = language_for(path);
    push3(out, repo, cat(CODE_NS, "containsFile").as_str(), file.as_str());
    push3(out, file.as_str(), RDF_TYPE, cat(CODE_NS, "SourceFile").as_str());
    push3(out, file.as_str(), cat(CODE_NS, "path").as_str(), path);
    push3(out, file.as_str(), cat(CODE_NS, "language").as_str(), language);
    let mut t = cat(path, " is an indexed ");
    push_str(&mut t, language);
    push_str(&mut t, " source file. Hypotheses target this node when a bounded analysis pattern matched the file.");
    push3(out, file.as_str(), AVR_PLAIN_ENGLISH, t.as_str());
    let ghost base = text3_views(out@);
    match content {
        None => {
            assert(base =~= before + file_triples(repo@, campaign@, path@, None, start as nat).0);
            0
        },
        Some(c) => {
            let count = lines_of(c.as_str()).len();
            push3(out, file.as_str(), cat(CODE_NS, "lineCount").as_str(), u64_to_string(count as u64).as_str());
            let fs = detect_code_findings(path, c.as_str());
            let ghost fm = finding_models(fs@);
            proof {
                let ls = text_lines(c@);
                lemma_findings_bound(ls, ls.len() as int);
            }
            let ghost mid = text3_views(out@);
            assert(fs@.len() == fm.len());
            assert(mid + findings_triples(campaign@, file@, path@, fm, start as nat, 0) =~= mid);
            let mut k: usize = 0;
            while k < fs.len()
                invariant
                    k <= fs@.len(),
                    fm == finding_models(fs@),
                    fm == findings_spec(path@, c@),
                    fs@.len() <= 86,
                    start + 86 <= usize::MAX,
                    text3_views(out@) == mid + findings_triples(campaign@, file@, path@, fm, start as nat, k as int),
                decreases fs.len() - k,
            {
                assert(fm[k as int] == finding_model(fs@[k as int]));
                push_finding(out, campaign, file.as_str(), path, &fs[k], start + k + 1);
                k = k + 1;
            }
            assert(text3_views(out@) =~= before + file_triples(repo@, campaign@, path@, Some(c@), start as nat).0);
            fs.len()
        },
    }
}

/// The triples of a repository analysis, as `ingest_spec` states them, from the
/// repository's listed files (with their texts where they could be read) and the start time.
pub fn ingest_triples(
    target: &str,
    objective: &str,
    repo_name: &str,
    started_seconds: u64,
    files: &Vec<(String, Option<String>)>,
) -> (r: Vec<Text3>)
    requires
        86 * files@.len() + 86 <= usize::MAX,
    ensures
        text3_views(r@) == ingest_spec(target@, objective@, repo_name@, started_seconds, source_views(files@)),
{
    let ghost fv = source_views(files@);
    let repo = cat(cat(CODE_NS, "repo/").as_str(), short_slug(repo_name).as_str());
    let mut campaign = cat(AVR_NS, "campaign/repo-");
    let hex = hex_digits_exec(str_default_hash(target), 16);
    push_str(&mut campaign, hex.as_str());
    push_str(&mut campaign, "-");
    push_str(&mut campaign, u64_to_string(started_seconds).as_str());
    let mut out: Vec<Text3> = Vec::new();
    push_header(&mut out, target, objective, repo.as_str(), campaign.as_str());
    push3(&mut out, repo.as_str(), cat(CODE_NS, "indexedFileCount").as_str(), u64_to_string(files.len() as u64).as_str());
    let ghost head = text3_views(out@);
    let mut count: usize = 0;
    let mut i: usize = 0;
    while i < files.len()
        invariant
            i <= files@.len(),
            fv == source_views(files@),
            86 * files@.len() + 86 <= usize::MAX,
            ({
                let ft = files_triples(repo@, campaign@, fv, i as int);
                text3_views(out@) == head + ft.0 && count == ft.1
            }),
        decreases files.len() - i,
    {
        proof {
            lemma_files_count(repo@, campaign@, fv, i as int);
        }
        assert(fv[i as int] == (files@[i as int].0@, crate::code_intel::manifests::opt_view(files@[i as int].1)));
        let added = push_file(&mut out, repo.as_str(), campaign.as_str(), files[i].0.as_str(), &files[i].1, count);
        count = count + added;
        i = i + 1;
    }
    if count == 0 {
        push3(&mut out, campaign.as_str(), cat(AVR_NS, "observedSignal").as_str(),
            "No static exploit-memory hypotheses matched the bounded pattern set");
    }
    assert(text3_views(out@) =~= ingest_spec(target@, objective@, repo_name@, started_seconds, fv));
    out
}


/// A file's language follows what comes after its last dot: `rs` is Rust, `py` Python, `js`,
/// `mjs` and `cjs` JavaScript, `ts` and `tsx` TypeScript, `java` Java, `go` Go, `rb` Ruby,
/// `php` PHP, `c` and `h` C, `cc`, `cpp` and `hpp` C++, `toml` TOML, `json` JSON, `xml` XML
/// and `md` Markdown.
pub proof fn law_language_by_last_extension(path: Seq<char>)
    ensures
        last_part(path) == "rs"@ ==> language_for_spec(path) == "Rust"@,
        last_part(path) == "py"@ ==> language_for_spec(path) == "Python"@,
        last_part(path) == "js"@ ==> language_for_spec(path) == "JavaScript"@,
        last_part(path) == "mjs"@ ==> language_for_spec(path) == "JavaScript"@,
        last_part(path) == "cjs"@ ==> language_for_spec(path) == "JavaScript"@,
        last_part(path) == "ts"@ ==> language_for_spec(path) == "TypeScript"@,
        last_part(path) == "tsx"@ ==> language_for_spec(path) == "TypeScript"@,
        last_part(path) == "java"@ ==> language_for_spec(path) == "Java"@,
        last_part(path) == "go"@ ==> language_for_spec(path) == "Go"@,
        last_part(path) == "rb"@ ==> language_for_spec(path) == "Ruby"@,
        last_part(path) == "php"@ ==> language_for_spec(path) == "PHP"@,
        last_part(path) == "c"@ ==> language_for_spec(path) == "C"@,
        last_part(path) == "h"@ ==> language_for_spec(path) == "C"@,
        last_part(path) == "cc"@ ==> language_for_spec(path) == "C++"@,
        last_part(path) == "cpp"@ ==> language_for_spec(path) == "C++"@,
        last_part(path) == "hpp"@ ==> language_for_spec(path) == "C++"@,
        last_part(path) == "toml"@ ==> language_for_spec(path) == "TOML"@,
        last_part(path) == "json"@ ==> language_for_spec(path) == "JSON"@,
        last_part(path) == "xml"@ ==> language_for_spec(path) == "XML"@,
        last_part(path) == "md"@ ==> language_for_spec(path) == "Markdown"@,
{
    reveal_strlit("rs");
    reveal_strlit("py");
    reveal_strlit("js");
    reveal_strlit("mjs");
    reveal_strlit("cjs");
    reveal_strlit("ts");
    reveal_strlit("tsx");
    reveal_strlit("java");
    reveal_strlit("go");
    reveal_strlit("rb");
    reveal_strlit("php");
    reveal_strlit("c");
    reveal_strlit("h");
    reveal_strlit("cc");
    reveal_strlit("cpp");
    reveal_strlit("hpp");
    reveal_strlit("toml");
    reveal_strlit("json");
    reveal_strlit("xml");
    reveal_strlit("md");
    assert("rs"@[0] != "py"@[0]);
    assert("rs"@[0] != "js"@[0]);
    assert("rs"@.len() != "mjs"@.len());
    assert("rs"@.len() != "cjs"@.len());
    assert("rs"@[0] != "ts"@[0]);
    assert("rs"@.len() != "tsx"@.len());
    assert("rs"@.len() != "java"@.len());
    assert("rs"@[0] != "go"@[0]);
    assert("rs"@[1] != "rb"@[1]);
    assert("rs"@.len() != "php"@.len());
    assert("rs"@.len() != "c"@.len());
    assert("rs"@.len() != "h"@.len());
    assert("rs"@[0] != "cc"@[0]);
    assert("rs"@.len() != "cpp"@.len());
    assert("rs"@.len() != "hpp"@.len());
    assert("rs"@.len() != "toml"@.len());
    assert("rs"@.len() != "json"@.len());
    assert("rs"@.len() != "xml"@.len());
    assert("rs"@[0] != "md"@[0]);
    assert("py"@[0] != "js"@[0]);
    assert("py"@.len() != "mjs"@.len());
    assert("py"@.len() != "cjs"@.len());
    assert("py"@[0] != "ts"@[0]);
    assert("py"@.len() != "tsx"@.len());
    assert("py"@.len() != "java"@.len());
    assert("py"@[0] != "go"@[0]);
    assert("py"@[0] != "rb"@[0]);
    assert("py"@.len() != "php"@.len());
    assert("py"@.len() != "c"@.len());
    assert("py"@.len() != "h"@.len());
    assert("py"@[0] != "cc"@[0]);
    assert("py"@.len() != "cpp"@.len());
    assert("py"@.len() != "hpp"@.len());
    assert("py"@.len() != "toml"@.len());
    assert("py"@.len() != "json"@.len());
    assert("py"@.len() != "xml"@.len());
    assert("py"@[0] != "md"@[0]);
    assert("js"@.len() != "mjs"@.len());
    assert("js"@.len() != "cjs"@.len());
    assert("js"@[0] != "ts"@[0]);
    assert("js"@.len() != "tsx"@.len());
    assert("js"@.len() != "java"@.len());
    assert("js"@[0] != "go"@[0]);
    assert("js"@[0] != "rb"@[0]);
    assert("js"@.len() != "php"@.len());
    assert("js"@.len() != "c"@.len());
    assert("js"@.len() != "h"@.len());
    assert("js"@[0] != "cc"@[0]);
    assert("js"@.len() != "cpp"@.len());
    assert("js"@.len() != "hpp"@.len());
    assert("js"@.len() != "toml"@.len());
    assert("js"@.len() != "json"@.len());
    assert("js"@.len() != "xml"@.len());
    assert("js"@[0] != "md"@[0]);
    assert("mjs"@[0] != "cjs"@[0]);
    assert("mjs"@.len() != "ts"@.len());
    assert("mjs"@[0] != "tsx"@[0]);
    assert("mjs"@.len() != "java"@.len());
    assert("mjs"@.len() != "go"@.len());
    assert("mjs"@.len() != "rb"@.len());
    assert("mjs"@[0] != "php"@[0]);
    assert("mjs"@.len() != "c"@.len());
    assert("mjs"@.len() != "h"@.len());
    assert("mjs"@.len() != "cc"@.len());
    assert("mjs"@[0] != "cpp"@[0]);
    assert("mjs"@[0] != "hpp"@[0]);
    assert("mjs"@.len() != "toml"@.len());
    assert("mjs"@.len() != "json"@.len());
    assert("mjs"@[0] != "xml"@[0]);
    assert("mjs"@.len() != "md"@.len());
    assert("cjs"@.len() != "ts"@.len());
    assert("cjs"@[0] != "tsx"@[0]);
    assert("cjs"@.len() != "java"@.len());
    assert("cjs"@.len() != "go"@.len());
    assert("cjs"@.len() != "rb"@.len());
    assert("cjs"@[0] != "php"@[0]);
    assert("cjs"@.len() != "c"@.len());
    assert("cjs"@.len() != "h"@.len());
    assert("cjs"@.len() != "cc"@.len());
    assert("cjs"@[1] != "cpp"@[1]);
    assert("cjs"@[0] != "hpp"@[0]);
    assert("cjs"@.len() != "toml"@.len());
    assert("cjs"@.len() != "json"@.len());
    assert("cjs"@[0] != "xml"@[0]);
    assert("cjs"@.len() != "md"@.len());
    assert("ts"@.len() != "tsx"@.len());
    assert("ts"@.len() != "java"@.len());
    assert("ts"@[0] != "go"@[0]);
    assert("ts"@[0] != "rb"@[0]);
    assert("ts"@.len() != "php"@.len());
    assert("ts"@.len() != "c"@.len());
    assert("ts"@.len() != "h"@.len());
    assert("ts"@[0] != "cc"@[0]);
    assert("ts"@.len() != "cpp"@.len());
    assert("ts"@.len() != "hpp"@.len());
    assert("ts"@.len() != "toml"@.len());
    assert("ts"@.len() != "json"@.len());
    assert("ts"@.len() != "xml"@.len());
    assert("ts"@[0] != "md"@[0]);
    assert("tsx"@.len() != "java"@.len());
    assert("tsx"@.len() != "go"@.len());
    assert("tsx"@.len() != "rb"@.len());
    assert("tsx"@[0] != "php"@[0]);
    assert("tsx"@.len() != "c"@.len());
    assert("tsx"@.len() != "h"@.len());
    assert("tsx"@.len() != "cc"@.len());
    assert("tsx"@[0] != "cpp"@[0]);
    assert("tsx"@[0] != "hpp"@[0]);
    assert("tsx"@.len() != "toml"@.len());
    assert("tsx"@.len() != "json"@.len());
    assert("tsx"@[0] != "xml"@[0]);
    assert("tsx"@.len() != "md"@.len());
    assert("java"@.len() != "go"@.len());
    assert("java"@.len() != "rb"@.len());
    assert("java"@.len() != "php"@.len());
    assert("java"@.len() != "c"@.len());
    assert("java"@.len() != "h"@.len());
    assert("java"@.len() != "cc"@.len());
    assert("java"@.len() != "cpp"@.len());
    assert("java"@.len() != "hpp"@.len());
    assert("java"@[0] != "toml"@[0]);
    assert("java"@[1] != "json"@[1]);
    assert("java"@.len() != "xml"@.len());
    assert("java"@.len() != "md"@.len());
    assert("go"@[0] != "rb"@[0]);
    assert("go"@.len() != "php"@.len());
    assert("go"@.len() != "c"@.len());
    assert("go"@.len() != "h"@.len());
    assert("go"@[0] != "cc"@[0]);
    assert("go"@.len() != "cpp"@.len());
    assert("go"@.len() != "hpp"@.len());
    assert("go"@.len() != "toml"@.len());
    assert("go"@.len() != "json"@.len());
    assert("go"@.len() != "xml"@.len());
    assert("go"@[0] != "md"@[0]);
    assert("rb"@.len() != "php"@.len());
    assert("rb"@.len() != "c"@.len());
    assert("rb"@.len() != "h"@.len());
    assert("rb"@[0] != "cc"@[0]);
    assert("rb"@.len() != "cpp"@.len());
    assert("rb"@.len() != "hpp"@.len());
    assert("rb"@.len() != "toml"@.len());
    assert("rb"@.len() != "json"@.len());
    assert("rb"@.len() != "xml"@.len());
    assert("rb"@[0] != "md"@[0]);
    assert("php"@.len() != "c"@.len());
    assert("php"@.len() != "h"@.len());
    assert("php"@.len() != "cc"@.len());
    assert("php"@[0] != "cpp"@[0]);
    assert("php"@[0] != "hpp"@[0]);
    assert("php"@.len() != "toml"@.len());
    assert("php"@.len() != "json"@.len());
    assert("php"@[0] != "xml"@[0]);
    assert("php"@.len() != "md"@.len());
    assert("c"@[0] != "h"@[0]);
    assert("c"@.len() != "cc"@.len());
    assert("c"@.len() != "cpp"@.len());
    assert("c"@.len() != "hpp"@.len());
    assert("c"@.len() != "toml"@.len());
    assert("c"@.len() != "json"@.len());
    assert("c"@.len() != "xml"@.len());
    assert("c"@.len() != "md"@.len());
    assert("h"@.len() != "cc"@.len());
    assert("h"@.len() != "cpp"@.len());
    assert("h"@.len() != "hpp"@.len());
    assert("h"@.len() != "toml"@.len());
    assert("h"@.len() != "json"@.len());
    assert("h"@.len() != "xml"@.len());
    assert("h"@.len() != "md"@.len());
    assert("cc"@.len() != "cpp"@.len());
    assert("cc"@.len() != "hpp"@.len());
    assert("cc"@.len() != "toml"@.len());
    assert("cc"@.len() != "json"@.len());
    assert("cc"@.len() != "xml"@.len());
    assert("cc"@[0] != "md"@[0]);
    assert("cpp"@[0] != "hpp"@[0]);
    assert("cpp"@.len() != "toml"@.len());
    assert("cpp"@.len() != "json"@.len());
    assert("cpp"@[0] != "xml"@[0]);
    assert("cpp"@.len() != "md"@.len());
    assert("hpp"@.len() != "toml"@.len());
    assert("hpp"@.len() != "json"@.len());
    assert("hpp"@[0] != "xml"@[0]);
    assert("hpp"@.len() != "md"@.len());
    assert("toml"@[0] != "json"@[0]);
    assert("toml"@.len() != "xml"@.len());
    assert("toml"@.len() != "md"@.len());
    assert("json"@.len() != "xml"@.len());
    assert("json"@.len() != "md"@.len());
    assert("xml"@.len() != "md"@.len());
}

} // verus!
