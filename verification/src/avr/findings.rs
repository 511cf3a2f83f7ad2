use vstd::prelude::*;

use crate::fjall_mr::{lines_of, text_lines};
use crate::text::{
    chars_of, contains, contains_seq, ends_with, ends_with_seq, push_str, substring,
    to_ascii_lowercase, to_ascii_lowercase_spec, views,
};
use crate::words::{trim, trim_spec};

verus! {

/// A line of source that matched an analysis pattern: the kind of lead, the operator that
/// follows it up, the intent of the follow-up query, the line number and the line's text.
pub struct CodeFinding {
    pub kind: &'static str,
    pub operator: &'static str,
    pub query_intent: &'static str,
    pub line: usize,
    pub snippet: String,
}

/// A finding as texts and a line number.
pub type FindingModel = (Seq<char>, Seq<char>, Seq<char>, int, Seq<char>);

/// The texts of a finding.
pub open spec fn finding_model(f: CodeFinding) -> FindingModel {
    (f.kind@, f.operator@, f.query_intent@, f.line as int, f.snippet@)
}

/// The texts of a list of findings.
pub open spec fn finding_models(v: Seq<CodeFinding>) -> Seq<FindingModel> {
    v.map_values(|f: CodeFinding| finding_model(f))
}

/// At most the first 220 characters of a text.
pub open spec fn first_220(s: Seq<char>) -> Seq<char> {
    if s.len() <= 220 {
        s
    } else {
        s.take(220)
    }
}

/// The finding of a pattern on line `i` (numbered from 0) of a source.
pub open spec fn finding_at(kind: Seq<char>, operator: Seq<char>, intent: Seq<char>, i: int, line: Seq<char>) -> FindingModel {
    (kind, operator, intent, i + 1, first_220(trim_spec(line)))
}

/// `s` holds one of the needles.
pub open spec fn holds_any(s: Seq<char>, needles: Seq<Seq<char>>) -> bool {
    exists|k: int| 0 <= k < needles.len() && contains_seq(s, #[trigger] needles[k])
}

pub open spec fn secret_words() -> Seq<Seq<char>> {
    seq!["password"@, "secret"@, "api_key"@, "apikey"@, "token"@]
}

pub open spec fn assignment_marks() -> Seq<Seq<char>> {
    seq!["="@, ":"@, "const"@, "let"@, "var"@]
}

pub open spec fn command_words() -> Seq<Seq<char>> {
    seq!["command::new"@, "std::process"@, "system("@, "exec("@, "popen("@]
}

pub open spec fn network_words() -> Seq<Seq<char>> {
    seq!["reqwest"@, "fetch("@, "http.get"@, "requests.get"@, "urlopen"@]
}

/// Whether a query is built on the line.
pub open spec fn sparql_rule(lower: Seq<char>) -> bool {
    (contains_seq(lower, "sparql"@) || contains_seq(lower, "select "@)) && (contains_seq(lower, "where"@)
        || contains_seq(lower, "query"@))
}

/// Whether a query text is put together from pieces on the line.
pub open spec fn dynamic_rule(line: Seq<char>, lower: Seq<char>) -> bool {
    (contains_seq(lower, "select "@) || contains_seq(lower, "where "@)) && (contains_seq(line, "format!("@)
        || contains_seq(line, " + "@) || contains_seq(line, "${"@))
}

/// Whether the line may hold a credential.
pub open spec fn secret_rule(lower: Seq<char>) -> bool {
    holds_any(lower, secret_words()) && holds_any(lower, assignment_marks())
}

/// Whether the line runs a command.
pub open spec fn command_rule(lower: Seq<char>) -> bool {
    holds_any(lower, command_words())
}

/// Whether the line makes a network request.
pub open spec fn network_rule(lower: Seq<char>) -> bool {
    holds_any(lower, network_words())
}

/// Whether the line crosses a memory-safety boundary.
pub open spec fn unsafe_rule(lower: Seq<char>) -> bool {
    contains_seq(lower, "unsafe"@) || contains_seq(lower, "transmute"@) || contains_seq(lower, "from_raw"@)
}

/// A finding when the rule holds, else none.
pub open spec fn if_rule(b: bool, f: FindingModel) -> Seq<FindingModel> {
    if b {
        seq![f]
    } else {
        Seq::empty()
    }
}

/// The findings of line `i` of a source, in the order of the patterns.
pub open spec fn line_findings(line: Seq<char>, i: int) -> Seq<FindingModel> {
    let lower = to_ascii_lowercase_spec(line);
    if_rule(sparql_rule(lower), finding_at("SPARQLInjectionCandidate"@, "MutateSparqlConstruction"@,
        "Find query construction paths where untrusted symbols can enter SPARQL text."@, i, line))
    + if_rule(dynamic_rule(line, lower), finding_at("DynamicQueryConstruction"@, "TraceQueryStringFlow"@,
        "Trace dynamic query assembly and evolve probes around variable interpolation."@, i, line))
    + if_rule(secret_rule(lower), finding_at("SecretExposureCandidate"@, "SearchCredentialSurfaces"@,
        "Cluster credential-like constants for evidence review and sanitization."@, i, line))
    + if_rule(command_rule(lower), finding_at("CommandExecutionSurface"@, "TraceCommandArguments"@,
        "Trace command construction and argument provenance under local review."@, i, line))
    + if_rule(network_rule(lower), finding_at("NetworkRequestSurface"@, "TraceOutboundRequestInputs"@,
        "Find outbound request construction points for SSRF-style policy review."@, i, line))
    + if_rule(unsafe_rule(lower), finding_at("MemorySafetyReviewSurface"@, "TraceUnsafeBoundary"@,
        "Collect unsafe boundaries for targeted code-audit query evolution."@, i, line))
}

/// The findings of the first `n` lines, and whether the scan stopped: it stops after the
/// line that brings the findings to 80 or more.
pub open spec fn findings_fold(ls: Seq<Seq<char>>, n: int) -> (Seq<FindingModel>, bool)
    decreases n,
{
    if n <= 0 || n > ls.len() {
        (Seq::empty(), false)
    } else {
        let p = findings_fold(ls, n - 1);
        if p.1 {
            p
        } else {
            let acc = p.0 + line_findings(ls[n - 1], n - 1);
            (acc, acc.len() >= 80)
        }
    }
}

/// A manifest path, which seeds the dependency graph.
pub open spec fn is_manifest_like(path: Seq<char>) -> bool {
    ends_with_seq(path, "Cargo.toml"@) || ends_with_seq(path, "package.json"@) || ends_with_seq(path, "pom.xml"@)
}

/// The findings of a source file: those of its lines, then one for a manifest.
pub open spec fn findings_spec(path: Seq<char>, content: Seq<char>) -> Seq<FindingModel> {
    let ls = text_lines(content);
    findings_fold(ls, ls.len() as int).0 + if is_manifest_like(path) {
        seq![(
            "DependencyGraphSurface"@,
            "ExpandDependencyQueries"@,
            "Use manifest files as seeds for dependency and version-risk graph expansion."@,
            1int,
            "manifest: "@ + path,
        )]
    } else {
        Seq::empty()
    }
}

proof fn lemma_fold_stays(ls: Seq<Seq<char>>, i: int, n: int)
    requires
        0 <= i <= n <= ls.len(),
        findings_fold(ls, i).1,
    ensures
        findings_fold(ls, n) == findings_fold(ls, i),
    decreases n - i,
{
    if i < n {
        lemma_fold_stays(ls, i, n - 1);
    }
}

/// At most 85 findings come from the lines: the scan stops once it has 80.
pub proof fn lemma_findings_bound(ls: Seq<Seq<char>>, n: int)
    ensures
        findings_fold(ls, n).0.len() <= 85,
        !findings_fold(ls, n).1 ==> findings_fold(ls, n).0.len() < 80,
    decreases n,
{
    if 0 < n <= ls.len() {
        lemma_findings_bound(ls, n - 1);
    }
}

fn any_of(s: &str, needles: &[&str]) -> (r: bool)
    ensures
        r == holds_any(s@, needles@.map_values(|w: &str| w@)),
{
    let ghost ns = needles@.map_values(|w: &str| w@);
    let mut k: usize = 0;
    while k < needles.len()
        invariant
            k <= needles@.len(),
            ns == needles@.map_values(|w: &str| w@),
            forall|j: int| 0 <= j < k ==> !contains_seq(s@, #[trigger] ns[j]),
        decreases needles.len() - k,
    {
        assert(ns[k as int] == needles@[k as int]@);
        if contains(s, needles[k]) {
            return true;
        }
        k = k + 1;
    }
    false
}

fn sparql_line(l: &str) -> (r: bool)
    ensures
        r == sparql_rule(l@),
{
    (contains(l, "sparql") || contains(l, "select ")) && (contains(l, "where") || contains(l, "query"))
}

fn dynamic_line(line: &str, l: &str) -> (r: bool)
    ensures
        r == dynamic_rule(line@, l@),
{
    (contains(l, "select ") || contains(l, "where ")) && (contains(line, "format!(") || contains(line, " + ")
        || contains(line, "${"))
}

fn secret_line(l: &str) -> (r: bool)
    ensures
        r == secret_rule(l@),
{
    let words = ["password", "secret", "api_key", "apikey", "token"];
    let marks = ["=", ":", "const", "let", "var"];
    assert(words@.map_values(|w: &str| w@) =~= secret_words());
    assert(marks@.map_values(|w: &str| w@) =~= assignment_marks());
    any_of(l, &words) && any_of(l, &marks)
}

fn command_line(l: &str) -> (r: bool)
    ensures
        r == command_rule(l@),
{
    let words = ["command::new", "std::process", "system(", "exec(", "popen("];
    assert(words@.map_values(|w: &str| w@) =~= command_words());
    any_of(l, &words)
}

fn network_line(l: &str) -> (r: bool)
    ensures
        r == network_rule(l@),
{
    let words = ["reqwest", "fetch(", "http.get", "requests.get", "urlopen"];
    assert(words@.map_values(|w: &str| w@) =~= network_words());
    any_of(l, &words)
}

fn unsafe_line(l: &str) -> (r: bool)
    ensures
        r == unsafe_rule(l@),
{
    contains(l, "unsafe") || contains(l, "transmute") || contains(l, "from_raw")
}

fn finding(kind: &'static str, operator: &'static str, query_intent: &'static str, i: usize, line: &str) -> (r: CodeFinding)
    requires
        i < usize::MAX,
    ensures
        finding_model(r) == finding_at(kind@, operator@, query_intent@, i as int, line@),
{
    let t = trim(line);
    let tc = chars_of(t.as_str());
    let snippet = if tc.len() <= 220 {
        t
    } else {
        substring(tc.as_slice(), 0, 220)
    };
    CodeFinding { kind, operator, query_intent, line: i + 1, snippet }
}

fn push_if(out: &mut Vec<CodeFinding>, b: bool, f: CodeFinding)
    ensures
        finding_models(final(out)@) == finding_models(old(out)@) + if_rule(b, finding_model(f)),
{
    let ghost before = finding_models(out@);
    if b {
        out.push(f);
        assert(finding_models(out@) =~= before + seq![finding_model(f)]);
    } else {
        assert(before + if_rule(b, finding_model(f)) =~= before);
    }
}

fn add_line_findings(out: &mut Vec<CodeFinding>, line: &str, i: usize)
    requires
        i < usize::MAX,
    ensures
        finding_models(final(out)@) == finding_models(old(out)@) + line_findings(line@, i as int),
{
    let lower = to_ascii_lowercase(line);
    let l = lower.as_str();
    let ghost before = finding_models(out@);
    let f1 = finding("SPARQLInjectionCandidate", "MutateSparqlConstruction",
        "Find query construction paths where untrusted symbols can enter SPARQL text.", i, line);
    push_if(out, sparql_line(l), f1);
    let ghost s1 = finding_models(out@);
    let f2 = finding("DynamicQueryConstruction", "TraceQueryStringFlow",
        "Trace dynamic query assembly and evolve probes around variable interpolation.", i, line);
    push_if(out, dynamic_line(line, l), f2);
    let f3 = finding("SecretExposureCandidate", "SearchCredentialSurfaces",
        "Cluster credential-like constants for evidence review and sanitization.", i, line);
    push_if(out, secret_line(l), f3);
    let f4 = finding("CommandExecutionSurface", "TraceCommandArguments",
        "Trace command construction and argument provenance under local review.", i, line);
    push_if(out, command_line(l), f4);
    let f5 = finding("NetworkRequestSurface", "TraceOutboundRequestInputs",
        "Find outbound request construction points for SSRF-style policy review.", i, line);
    push_if(out, network_line(l), f5);
    let f6 = finding("MemorySafetyReviewSurface", "TraceUnsafeBoundary",
        "Collect unsafe boundaries for targeted code-audit query evolution.", i, line);
    push_if(out, unsafe_line(l), f6);
    assert(finding_models(out@) =~= before + line_findings(line@, i as int));
}

/// The findings of a source file, as `findings_spec` states them.
pub fn detect_code_findings(path: &str, content: &str) -> (r: Vec<CodeFinding>)
    ensures
        finding_models(r@) == findings_spec(path@, content@),
{
    let lines = lines_of(content);
    let ghost ls = views(lines@);
    let mut out: Vec<CodeFinding> = Vec::new();
    let mut stopped = false;
    let mut i: usize = 0;
    assert(finding_models(out@) =~= Seq::<FindingModel>::empty());
    while i < lines.len() && !stopped
        invariant
            ls == views(lines@),
            ls == text_lines(content@),
            i <= lines@.len(),
            (finding_models(out@), stopped) == findings_fold(ls, i as int),
        decreases lines.len() - i,
    {
        assert(ls[i as int] == lines@[i as int]@);
        add_line_findings(&mut out, lines[i].as_str(), i);
        if out.len() >= 80 {
            stopped = true;
        }
        i = i + 1;
    }
    proof {
        if stopped {
            lemma_fold_stays(ls, i as int, ls.len() as int);
        }
    }
    if ends_with(path, "Cargo.toml") || ends_with(path, "package.json") || ends_with(path, "pom.xml") {
        let mut snippet = crate::text::to_owned("manifest: ");
        push_str(&mut snippet, path);
        let ghost before = finding_models(out@);
        out.push(CodeFinding {
            kind: "DependencyGraphSurface",
            operator: "ExpandDependencyQueries",
            query_intent: "Use manifest files as seeds for dependency and version-risk graph expansion.",
            line: 1,
            snippet,
        });
        assert(finding_models(out@) =~= before + seq![finding_models(out@).last()]);
    } else {
        assert(finding_models(out@) + Seq::<FindingModel>::empty() =~= finding_models(out@));
    }
    out
}

} // verus!
