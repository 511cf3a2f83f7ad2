use vstd::prelude::*;

use crate::code_intel::manifests::opt_view;
use crate::intparse::parse_usize_text;
use crate::sorted::{insert_sorted_string, strictly_sorted};
use crate::strmap::StrMap;
use crate::bytes::str_bytes;
use crate::code_intel::names::{hex_digits, hex_digits_exec};
use crate::text::{decimal, push_str, u64_to_string, parse_in_range, parse_unsigned_spec, str_eq, to_ascii_lowercase, to_ascii_lowercase_spec, to_owned, views};
use crate::words::{trim, trim_spec};

verus! {

/// The log table that the server keeps.
pub const DEFAULT_TABLE: &'static str = "sro";

/// A request as the server reads it: method, path, query parameters, headers and body.
pub struct HttpRequest {
    pub method: String,
    pub path: String,
    pub query: StrMap,
    pub headers: StrMap,
    pub body: String,
}

/// The counts the server reports.
pub struct ServerCounts {
    pub requests: u64,
    pub signins: u64,
    pub sparql_queries: u64,
    pub metrics_requests: u64,
    pub log_views: u64,
}

/// The server's own state: its counts and its session tokens.
pub struct ServerState {
    pub counts: ServerCounts,
    pub sessions: Vec<String>,
}

/// The counts as a tuple: requests, sign-ins, queries, metrics requests, log views.
pub type CountsModel = (u64, u64, u64, u64, u64);

/// The counts of a state.
pub open spec fn counts_of(s: ServerState) -> CountsModel {
    (s.counts.requests, s.counts.signins, s.counts.sparql_queries, s.counts.metrics_requests, s.counts.log_views)
}

/// The options of a query request, in this order: `query.auth`, `conf.cv`, `query.infer`,
/// `query.resultformat`, transaction time, as-of, after, before, time to live, now, valid at,
/// valid from and valid to.
pub struct SparqlOptions {
    pub values: Vec<Option<String>>,
}

/// What the server does for a request.
pub enum Action {
    /// Answer with a status, a content type and a body.
    Respond { status: u16, content_type: &'static str, body: String },
    /// Serve the query page.
    Page,
    /// Serve the icon.
    Favicon,
    /// Report the metrics.
    Metrics,
    /// List the analysis datasets.
    DatasetCatalog,
    /// Insert the named analysis dataset.
    Seed { dataset: &'static str },
    /// Analyse a repository and insert its triples.
    Ingest { target: String, objective: String, mode: String },
    /// Open a session for a user.
    Signin { user: String, password: String },
    /// Run a query with its options.
    Sparql { query: String, options: SparqlOptions },
    /// Show the last lines of the log.
    Logs { limit: usize },
    /// Fail the request with a message.
    Fail { message: String },
}

/// What the server does, as texts.
pub enum ActionModel {
    Respond(u16, Seq<char>, Seq<char>),
    Page,
    Favicon,
    Metrics,
    DatasetCatalog,
    Seed(Seq<char>),
    Ingest(Seq<char>, Seq<char>, Seq<char>),
    Signin(Seq<char>, Seq<char>),
    Sparql(Seq<char>, Seq<Option<Seq<char>>>),
    Logs(usize),
    Fail(Seq<char>),
}

/// Optional texts as texts.
pub open spec fn opt_views(v: Seq<Option<String>>) -> Seq<Option<Seq<char>>> {
    v.map_values(|o: Option<String>| opt_view(o))
}

impl View for Action {
    type V = ActionModel;

    open spec fn view(&self) -> ActionModel {
        match self {
            Action::Respond { status, content_type, body } => ActionModel::Respond(*status, content_type@, body@),
            Action::Page => ActionModel::Page,
            Action::Favicon => ActionModel::Favicon,
            Action::Metrics => ActionModel::Metrics,
            Action::DatasetCatalog => ActionModel::DatasetCatalog,
            Action::Seed { dataset } => ActionModel::Seed(dataset@),
            Action::Ingest { target, objective, mode } => ActionModel::Ingest(target@, objective@, mode@),
            Action::Signin { user, password } => ActionModel::Signin(user@, password@),
            Action::Sparql { query, options } => ActionModel::Sparql(query@, opt_views(options.values@)),
            Action::Logs { limit } => ActionModel::Logs(*limit),
            Action::Fail { message } => ActionModel::Fail(message@),
        }
    }
}

/// The value of a parameter, if bound.
pub open spec fn param(q: Map<Seq<char>, Seq<char>>, k: Seq<char>) -> Option<Seq<char>> {
    if q.contains_key(k) {
        Some(q[k])
    } else {
        None
    }
}

/// The value of a parameter, or of its second name.
pub open spec fn param_or(q: Map<Seq<char>, Seq<char>>, k: Seq<char>, alt: Seq<char>) -> Option<Seq<char>> {
    if q.contains_key(k) {
        Some(q[k])
    } else {
        param(q, alt)
    }
}

/// The options of a query request taken from its parameters.
pub open spec fn sparql_options_spec(q: Map<Seq<char>, Seq<char>>) -> Seq<Option<Seq<char>>> {
    seq![
        param(q, "query.auth"@),
        param_or(q, "conf.cv"@, "visibility"@),
        param(q, "query.infer"@),
        param(q, "query.resultformat"@),
        param_or(q, "temporal.txTime"@, "txTime"@),
        param_or(q, "temporal.asOf"@, "asOf"@),
        param_or(q, "temporal.after"@, "after"@),
        param_or(q, "temporal.before"@, "before"@),
        param_or(q, "temporal.ttl"@, "ttl"@),
        param_or(q, "temporal.now"@, "now"@),
        param_or(q, "temporal.validAt"@, "validAt"@),
        param_or(q, "temporal.validFrom"@, "validFrom"@),
        param_or(q, "temporal.validTo"@, "validTo"@),
    ]
}

/// Whether a request carries a session token of the server: `Err` says what is wrong.
pub open spec fn token_check(headers: Map<Seq<char>, Seq<char>>, sessions: Set<Seq<char>>) -> Result<(), Seq<char>> {
    match param(headers, "x-omrya-token"@) {
        None => Err("Missing session token. Run `omrya signin --user <name> --password <secret>`."@),
        Some(t) => if sessions.contains(t) {
            Ok(())
        } else {
            Err("Invalid session token. Sign in again."@)
        },
    }
}

/// The dataset whose name equals `name` but for ASCII case.
pub open spec fn dataset_spec(name: Seq<char>) -> Option<Seq<char>> {
    if to_ascii_lowercase_spec("memory"@) == to_ascii_lowercase_spec(name) {
        Some("memory"@)
    } else if to_ascii_lowercase_spec("lineage"@) == to_ascii_lowercase_spec(name) {
        Some("lineage"@)
    } else if to_ascii_lowercase_spec("self-improve"@) == to_ascii_lowercase_spec(name) {
        Some("self-improve"@)
    } else {
        None
    }
}

/// A refusal for want of a session: status 401 and the reason.
pub open spec fn unauthorized(e: Seq<char>) -> ActionModel {
    ActionModel::Respond(401, "text/plain"@, e + "\n"@)
}

/// What the server does for a request, and which counts it raises, given its method, path,
/// parameters, headers, body and sessions.
pub open spec fn route_spec(
    method: Seq<char>,
    path: Seq<char>,
    q: Map<Seq<char>, Seq<char>>,
    headers: Map<Seq<char>, Seq<char>>,
    body: Seq<char>,
    sessions: Set<Seq<char>>,
    before: CountsModel,
) -> (CountsModel, ActionModel) {
    let c = ((before.0 + 1) as u64, before.1, before.2, before.3, before.4);
    let get = method == "GET"@;
    let post = method == "POST"@;
    let auth = token_check(headers, sessions);
    if get && (path == "/"@ || path == "/sparql.html"@) {
        (c, ActionModel::Page)
    } else if get && path == "/favicon.ico"@ {
        (c, ActionModel::Favicon)
    } else if get && path == "/health"@ {
        (c, ActionModel::Respond(200, "text/plain"@, "ok\n"@))
    } else if get && path == "/metrics"@ {
        ((c.0, c.1, c.2, (c.3 + 1) as u64, c.4), ActionModel::Metrics)
    } else if get && path == "/avr/datasets"@ {
        (c, ActionModel::DatasetCatalog)
    } else if post && path == "/avr/seed"@ {
        match auth {
            Err(e) => (c, unauthorized(e)),
            Ok(_) => {
                let name = match param(q, "dataset"@) {
                    Some(n) => n,
                    None => "memory"@,
                };
                match dataset_spec(name) {
                    Some(d) => (c, ActionModel::Seed(d)),
                    None => (c, ActionModel::Fail("Unknown AVR dataset: "@ + name)),
                }
            },
        }
    } else if post && path == "/avr/repo/ingest"@ {
        match auth {
            Err(e) => (c, unauthorized(e)),
            Ok(_) => match param(q, "target"@) {
                Some(t) => if trim_spec(t).len() == 0 {
                    (c, ActionModel::Fail("Missing authorized repository target"@))
                } else {
                    let objective = match param(q, "objective"@) {
                        Some(o) => o,
                        None => "authorized offensive query evolution"@,
                    };
                    let mode = match param(q, "mode"@) {
                        Some(m) => m,
                        None => "clone"@,
                    };
                    (c, ActionModel::Ingest(t, objective, mode))
                },
                None => (c, ActionModel::Fail("Missing authorized repository target"@)),
            },
        }
    } else if path == "/signin"@ {
        match param(q, "user"@) {
            Some(u) => if u.len() == 0 {
                (c, ActionModel::Fail("Missing user"@))
            } else {
                match param(q, "password"@) {
                    Some(p) => if p.len() == 0 {
                        (c, ActionModel::Fail("Missing password"@))
                    } else {
                        ((c.0, (c.1 + 1) as u64, c.2, c.3, c.4), ActionModel::Signin(u, p))
                    },
                    None => (c, ActionModel::Fail("Missing password"@)),
                }
            },
            None => (c, ActionModel::Fail("Missing user"@)),
        }
    } else if path == "/sparql"@ {
        match auth {
            Err(e) => (c, unauthorized(e)),
            Ok(_) => {
                let query = match param(q, "query"@) {
                    Some(x) => if trim_spec(x).len() == 0 { body } else { x },
                    None => body,
                };
                if trim_spec(query).len() == 0 {
                    (c, ActionModel::Respond(400, "text/plain"@, "Missing SPARQL query\n"@))
                } else {
                    ((c.0, c.1, (c.2 + 1) as u64, c.3, c.4), ActionModel::Sparql(query, sparql_options_spec(q)))
                }
            },
        }
    } else if get && path == "/logs"@ {
        match auth {
            Err(e) => (c, unauthorized(e)),
            Ok(_) => {
                let table = match param(q, "table"@) {
                    Some(t) => t,
                    None => DEFAULT_TABLE@,
                };
                if to_ascii_lowercase_spec(table) != to_ascii_lowercase_spec(DEFAULT_TABLE@) {
                    (c, ActionModel::Respond(404, "text/plain"@, "Unknown log table\n"@))
                } else {
                    let limit = match param(q, "limit"@) {
                        Some(l) => match parse_in_range(parse_unsigned_spec(l), 0, usize::MAX as int) {
                            Some(v) => v as usize,
                            None => 50usize,
                        },
                        None => 50usize,
                    };
                    ((c.0, c.1, c.2, c.3, (c.4 + 1) as u64), ActionModel::Logs(limit))
                }
            },
        }
    } else {
        (c, ActionModel::Respond(404, "text/plain"@, "Not found\n"@))
    }
}

fn param_exec(q: &StrMap, k: &str) -> (r: Option<String>)
    ensures
        opt_view(r) == param(q@, k@),
{
    match q.get(k) {
        Some(v) => Some(to_owned(v.as_str())),
        None => None,
    }
}

fn param_or_exec(q: &StrMap, k: &str, alt: &str) -> (r: Option<String>)
    ensures
        opt_view(r) == param_or(q@, k@, alt@),
{
    match q.get(k) {
        Some(v) => Some(to_owned(v.as_str())),
        None => param_exec(q, alt),
    }
}

/// The options of a query request, as `sparql_options_spec` states them.
pub fn sparql_options(q: &StrMap) -> (r: SparqlOptions)
    ensures
        opt_views(r.values@) == sparql_options_spec(q@),
{
    let mut v: Vec<Option<String>> = Vec::new();
    v.push(param_exec(q, "query.auth"));
    v.push(param_or_exec(q, "conf.cv", "visibility"));
    v.push(param_exec(q, "query.infer"));
    v.push(param_exec(q, "query.resultformat"));
    v.push(param_or_exec(q, "temporal.txTime", "txTime"));
    v.push(param_or_exec(q, "temporal.asOf", "asOf"));
    v.push(param_or_exec(q, "temporal.after", "after"));
    v.push(param_or_exec(q, "temporal.before", "before"));
    v.push(param_or_exec(q, "temporal.ttl", "ttl"));
    v.push(param_or_exec(q, "temporal.now", "now"));
    v.push(param_or_exec(q, "temporal.validAt", "validAt"));
    v.push(param_or_exec(q, "temporal.validFrom", "validFrom"));
    v.push(param_or_exec(q, "temporal.validTo", "validTo"));
    assert(opt_views(v@) =~= sparql_options_spec(q@));
    SparqlOptions { values: v }
}

/// Whether the request carries a session token of the server, as `token_check` states.
pub fn require_token(request: &HttpRequest, sessions: &Vec<String>) -> (r: Result<(), String>)
    ensures
        match token_check(request.headers@, views(sessions@).to_set()) {
            Ok(_) => r is Ok,
            Err(e) => r matches Err(x) && x@ == e,
        },
{
    match request.headers.get("x-omrya-token") {
        None => Err(to_owned("Missing session token. Run `omrya signin --user <name> --password <secret>`.")),
        Some(t) => {
            let mut i: usize = 0;
            while i < sessions.len()
                invariant
                    i <= sessions@.len(),
                    param(request.headers@, "x-omrya-token"@) == Some(t@),
                    forall|j: int| 0 <= j < i ==> views(sessions@)[j] != t@,
                decreases sessions.len() - i,
            {
                if str_eq(sessions[i].as_str(), t.as_str()) {
                    assert(views(sessions@).to_set().contains(t@)) by {
                        assert(views(sessions@)[i as int] == t@);
                    }
                    return Ok(());
                }
                i = i + 1;
            }
            assert(!views(sessions@).to_set().contains(t@));
            Err(to_owned("Invalid session token. Sign in again."))
        },
    }
}

/// The dataset whose name matches `name` but for ASCII case, as `dataset_spec` states.
pub fn avr_dataset(name: &str) -> (r: Option<&'static str>)
    ensures
        match dataset_spec(name@) {
            Some(d) => r matches Some(x) && x@ == d,
            None => r is None,
        },
{
    let lower = to_ascii_lowercase(name);
    if str_eq(to_ascii_lowercase("memory").as_str(), lower.as_str()) {
        Some("memory")
    } else if str_eq(to_ascii_lowercase("lineage").as_str(), lower.as_str()) {
        Some("lineage")
    } else if str_eq(to_ascii_lowercase("self-improve").as_str(), lower.as_str()) {
        Some("self-improve")
    } else {
        None
    }
}

fn is_blank(s: &str) -> (r: bool)
    ensures
        r == (trim_spec(s@).len() == 0),
{
    trim(s).unicode_len() == 0
}

/// What the server does for a request, as `route_spec` states: the counts it raises are
/// raised in `state`, the sessions are left as they are.
pub fn route(state: &mut ServerState, request: &HttpRequest) -> (r: Action)
    requires
        old(state).counts.requests < u64::MAX,
        old(state).counts.signins < u64::MAX,
        old(state).counts.sparql_queries < u64::MAX,
        old(state).counts.metrics_requests < u64::MAX,
        old(state).counts.log_views < u64::MAX,
    ensures
        final(state).sessions == old(state).sessions,
        (counts_of(*final(state)), r@) == route_spec(
            request.method@,
            request.path@,
            request.query@,
            request.headers@,
            request.body@,
            views(old(state).sessions@).to_set(),
            counts_of(*old(state)),
        ),
{
    state.counts.requests = state.counts.requests + 1;
    let m = request.method.as_str();
    let p = request.path.as_str();
    let get = str_eq(m, "GET");
    let post = str_eq(m, "POST");
    if get && (str_eq(p, "/") || str_eq(p, "/sparql.html")) {
        Action::Page
    } else if get && str_eq(p, "/favicon.ico") {
        Action::Favicon
    } else if get && str_eq(p, "/health") {
        Action::Respond { status: 200, content_type: "text/plain", body: to_owned("ok\n") }
    } else if get && str_eq(p, "/metrics") {
        state.counts.metrics_requests = state.counts.metrics_requests + 1;
        Action::Metrics
    } else if get && str_eq(p, "/avr/datasets") {
        Action::DatasetCatalog
    } else if post && str_eq(p, "/avr/seed") {
        match require_token(request, &state.sessions) {
            Err(e) => unauthorized_exec(e),
            Ok(_) => {
                let name = match param_exec(&request.query, "dataset") {
                    Some(n) => n,
                    None => to_owned("memory"),
                };
                match avr_dataset(name.as_str()) {
                    Some(d) => Action::Seed { dataset: d },
                    None => {
                        let mut msg = to_owned("Unknown AVR dataset: ");
                        crate::text::push_str(&mut msg, name.as_str());
                        Action::Fail { message: msg }
                    },
                }
            },
        }
    } else if post && str_eq(p, "/avr/repo/ingest") {
        match require_token(request, &state.sessions) {
            Err(e) => unauthorized_exec(e),
            Ok(_) => match param_exec(&request.query, "target") {
                Some(t) => if is_blank(t.as_str()) {
                    Action::Fail { message: to_owned("Missing authorized repository target") }
                } else {
                    let objective = match param_exec(&request.query, "objective") {
                        Some(o) => o,
                        None => to_owned("authorized offensive query evolution"),
                    };
                    let mode = match param_exec(&request.query, "mode") {
                        Some(x) => x,
                        None => to_owned("clone"),
                    };
                    Action::Ingest { target: t, objective, mode }
                },
                None => Action::Fail { message: to_owned("Missing authorized repository target") },
            },
        }
    } else if str_eq(p, "/signin") {
        match param_exec(&request.query, "user") {
            Some(u) => if u.unicode_len() == 0 {
                Action::Fail { message: to_owned("Missing user") }
            } else {
                match param_exec(&request.query, "password") {
                    Some(pw) => if pw.unicode_len() == 0 {
                        Action::Fail { message: to_owned("Missing password") }
                    } else {
                        state.counts.signins = state.counts.signins + 1;
                        Action::Signin { user: u, password: pw }
                    },
                    None => Action::Fail { message: to_owned("Missing password") },
                }
            },
            None => Action::Fail { message: to_owned("Missing user") },
        }
    } else if str_eq(p, "/sparql") {
        match require_token(request, &state.sessions) {
            Err(e) => unauthorized_exec(e),
            Ok(_) => {
                let query = match param_exec(&request.query, "query") {
                    Some(x) => if is_blank(x.as_str()) {
                        to_owned(request.body.as_str())
                    } else {
                        x
                    },
                    None => to_owned(request.body.as_str()),
                };
                if is_blank(query.as_str()) {
                    Action::Respond { status: 400, content_type: "text/plain", body: to_owned("Missing SPARQL query\n") }
                } else {
                    state.counts.sparql_queries = state.counts.sparql_queries + 1;
                    Action::Sparql { query, options: sparql_options(&request.query) }
                }
            },
        }
    } else if get && str_eq(p, "/logs") {
        match require_token(request, &state.sessions) {
            Err(e) => unauthorized_exec(e),
            Ok(_) => {
                let table = match param_exec(&request.query, "table") {
                    Some(t) => t,
                    None => to_owned(DEFAULT_TABLE),
                };
                if !str_eq(to_ascii_lowercase(table.as_str()).as_str(), to_ascii_lowercase(DEFAULT_TABLE).as_str()) {
                    Action::Respond { status: 404, content_type: "text/plain", body: to_owned("Unknown log table\n") }
                } else {
                    let limit = match param_exec(&request.query, "limit") {
                        Some(l) => match parse_usize_text(l.as_str()) {
                            Ok(v) => v,
                            Err(_) => 50,
                        },
                        None => 50,
                    };
                    state.counts.log_views = state.counts.log_views + 1;
                    Action::Logs { limit }
                }
            },
        }
    } else {
        Action::Respond { status: 404, content_type: "text/plain", body: to_owned("Not found\n") }
    }
}

fn unauthorized_exec(e: String) -> (r: Action)
    ensures
        r@ == unauthorized(e@),
{
    let mut b = e;
    crate::text::push_str(&mut b, "\n");
    Action::Respond { status: 401, content_type: "text/plain", body: b }
}

/// Keeps a new session token; the tokens stay in increasing order without repeats.
pub fn open_session(state: &mut ServerState, token: String)
    requires
        strictly_sorted(views(old(state).sessions@)),
    ensures
        strictly_sorted(views(final(state).sessions@)),
        views(final(state).sessions@).to_set() == views(old(state).sessions@).to_set().insert(token@),
        counts_of(*final(state)) == counts_of(*old(state)),
{
    insert_sorted_string(&mut state.sessions, token);
}

/// The FNV-1a hash of bytes.
pub open spec fn fnv_hash(b: Seq<u8>) -> u64
    decreases b.len(),
{
    if b.len() == 0 {
        0xcbf29ce484222325u64
    } else {
        (fnv_hash(b.drop_last()) ^ (b.last() as u64)).wrapping_mul(0x100000001b3u64)
    }
}

/// The text a session token is made from: user, password and the clock's nanoseconds,
/// parted by colons.
pub open spec fn token_text(user: Seq<char>, password: Seq<char>, nanos: u128) -> Seq<char> {
    user + ":"@ + password + ":"@ + decimal(nanos as nat)
}

fn u128_to_string(n: u128) -> (r: String)
    ensures
        r@ == decimal(n as nat),
    decreases n,
{
    if n < 10 {
        u64_to_string(n as u64)
    } else {
        let mut out = u128_to_string(n / 10);
        let d = u64_to_string((n % 10) as u64);
        push_str(&mut out, d.as_str());
        assert(out@ =~= decimal(n as nat));
        out
    }
}

/// A session token: the 16 hexadecimal digits of the FNV-1a hash of the UTF-8 bytes of
/// `token_text`.
pub fn make_token(user: &str, password: &str, nanos: u128) -> (r: String)
    ensures
        r@ == hex_digits(fnv_hash(vstd::utf8::encode_utf8(token_text(user@, password@, nanos))), 16),
{
    let mut t = to_owned(user);
    push_str(&mut t, ":");
    push_str(&mut t, password);
    push_str(&mut t, ":");
    push_str(&mut t, u128_to_string(nanos).as_str());
    proof {
        reveal_strlit(":");
    }
    assert(t@ =~= token_text(user@, password@, nanos));
    let b = str_bytes(t.as_str());
    let mut h: u64 = 0xcbf29ce484222325u64;
    let mut i: usize = 0;
    while i < b.len()
        invariant
            i <= b@.len(),
            h == fnv_hash(b@.take(i as int)),
        decreases b.len() - i,
    {
        assert(b@.take(i as int + 1).drop_last() =~= b@.take(i as int));
        h = (h ^ (b[i] as u64)).wrapping_mul(0x100000001b3u64);
        i = i + 1;
    }
    assert(b@.take(i as int) =~= b@);
    hex_digits_exec(h, 16)
}


proof fn lemma_route_literals()
    ensures
        "/"@.len() != "/sparql.html"@.len(),
        "/"@.len() != "/favicon.ico"@.len(),
        "/"@.len() != "/health"@.len(),
        "/"@.len() != "/metrics"@.len(),
        "/"@.len() != "/avr/datasets"@.len(),
        "/"@.len() != "/avr/seed"@.len(),
        "/"@.len() != "/avr/repo/ingest"@.len(),
        "/"@.len() != "/signin"@.len(),
        "/"@.len() != "/sparql"@.len(),
        "/"@.len() != "/logs"@.len(),
        "/sparql.html"@[1] != "/favicon.ico"@[1],
        "/sparql.html"@.len() != "/health"@.len(),
        "/sparql.html"@.len() != "/metrics"@.len(),
        "/sparql.html"@.len() != "/avr/datasets"@.len(),
        "/sparql.html"@.len() != "/avr/seed"@.len(),
        "/sparql.html"@.len() != "/avr/repo/ingest"@.len(),
        "/sparql.html"@.len() != "/signin"@.len(),
        "/sparql.html"@.len() != "/sparql"@.len(),
        "/sparql.html"@.len() != "/logs"@.len(),
        "/favicon.ico"@.len() != "/health"@.len(),
        "/favicon.ico"@.len() != "/metrics"@.len(),
        "/favicon.ico"@.len() != "/avr/datasets"@.len(),
        "/favicon.ico"@.len() != "/avr/seed"@.len(),
        "/favicon.ico"@.len() != "/avr/repo/ingest"@.len(),
        "/favicon.ico"@.len() != "/signin"@.len(),
        "/favicon.ico"@.len() != "/sparql"@.len(),
        "/favicon.ico"@.len() != "/logs"@.len(),
        "/health"@.len() != "/metrics"@.len(),
        "/health"@.len() != "/avr/datasets"@.len(),
        "/health"@.len() != "/avr/seed"@.len(),
        "/health"@.len() != "/avr/repo/ingest"@.len(),
        "/health"@[1] != "/signin"@[1],
        "/health"@[1] != "/sparql"@[1],
        "/health"@.len() != "/logs"@.len(),
        "/metrics"@.len() != "/avr/datasets"@.len(),
        "/metrics"@.len() != "/avr/seed"@.len(),
        "/metrics"@.len() != "/avr/repo/ingest"@.len(),
        "/metrics"@.len() != "/signin"@.len(),
        "/metrics"@.len() != "/sparql"@.len(),
        "/metrics"@.len() != "/logs"@.len(),
        "/avr/datasets"@.len() != "/avr/seed"@.len(),
        "/avr/datasets"@.len() != "/avr/repo/ingest"@.len(),
        "/avr/datasets"@.len() != "/signin"@.len(),
        "/avr/datasets"@.len() != "/sparql"@.len(),
        "/avr/datasets"@.len() != "/logs"@.len(),
        "/avr/seed"@.len() != "/avr/repo/ingest"@.len(),
        "/avr/seed"@.len() != "/signin"@.len(),
        "/avr/seed"@.len() != "/sparql"@.len(),
        "/avr/seed"@.len() != "/logs"@.len(),
        "/avr/repo/ingest"@.len() != "/signin"@.len(),
        "/avr/repo/ingest"@.len() != "/sparql"@.len(),
        "/avr/repo/ingest"@.len() != "/logs"@.len(),
        "/signin"@[2] != "/sparql"@[2],
        "/signin"@.len() != "/logs"@.len(),
        "/sparql"@.len() != "/logs"@.len(),
        "GET"@[0] != "POST"@[0],
{
    reveal_strlit("/");
    reveal_strlit("/sparql.html");
    reveal_strlit("/favicon.ico");
    reveal_strlit("/health");
    reveal_strlit("/metrics");
    reveal_strlit("/avr/datasets");
    reveal_strlit("/avr/seed");
    reveal_strlit("/avr/repo/ingest");
    reveal_strlit("/signin");
    reveal_strlit("/sparql");
    reveal_strlit("/logs");
    reveal_strlit("GET");
    reveal_strlit("POST");
    reveal_strlit("x-omrya-token");
    assert("/"@.len() != "/sparql.html"@.len());
    assert("/"@.len() != "/favicon.ico"@.len());
    assert("/"@.len() != "/health"@.len());
    assert("/"@.len() != "/metrics"@.len());
    assert("/"@.len() != "/avr/datasets"@.len());
    assert("/"@.len() != "/avr/seed"@.len());
    assert("/"@.len() != "/avr/repo/ingest"@.len());
    assert("/"@.len() != "/signin"@.len());
    assert("/"@.len() != "/sparql"@.len());
    assert("/"@.len() != "/logs"@.len());
    assert("/sparql.html"@[1] != "/favicon.ico"@[1]);
    assert("/sparql.html"@.len() != "/health"@.len());
    assert("/sparql.html"@.len() != "/metrics"@.len());
    assert("/sparql.html"@.len() != "/avr/datasets"@.len());
    assert("/sparql.html"@.len() != "/avr/seed"@.len());
    assert("/sparql.html"@.len() != "/avr/repo/ingest"@.len());
    assert("/sparql.html"@.len() != "/signin"@.len());
    assert("/sparql.html"@.len() != "/sparql"@.len());
    assert("/sparql.html"@.len() != "/logs"@.len());
    assert("/favicon.ico"@.len() != "/health"@.len());
    assert("/favicon.ico"@.len() != "/metrics"@.len());
    assert("/favicon.ico"@.len() != "/avr/datasets"@.len());
    assert("/favicon.ico"@.len() != "/avr/seed"@.len());
    assert("/favicon.ico"@.len() != "/avr/repo/ingest"@.len());
    assert("/favicon.ico"@.len() != "/signin"@.len());
    assert("/favicon.ico"@.len() != "/sparql"@.len());
    assert("/favicon.ico"@.len() != "/logs"@.len());
    assert("/health"@.len() != "/metrics"@.len());
    assert("/health"@.len() != "/avr/datasets"@.len());
    assert("/health"@.len() != "/avr/seed"@.len());
    assert("/health"@.len() != "/avr/repo/ingest"@.len());
    assert("/health"@[1] != "/signin"@[1]);
    assert("/health"@[1] != "/sparql"@[1]);
    assert("/health"@.len() != "/logs"@.len());
    assert("/metrics"@.len() != "/avr/datasets"@.len());
    assert("/metrics"@.len() != "/avr/seed"@.len());
    assert("/metrics"@.len() != "/avr/repo/ingest"@.len());
    assert("/metrics"@.len() != "/signin"@.len());
    assert("/metrics"@.len() != "/sparql"@.len());
    assert("/metrics"@.len() != "/logs"@.len());
    assert("/avr/datasets"@.len() != "/avr/seed"@.len());
    assert("/avr/datasets"@.len() != "/avr/repo/ingest"@.len());
    assert("/avr/datasets"@.len() != "/signin"@.len());
    assert("/avr/datasets"@.len() != "/sparql"@.len());
    assert("/avr/datasets"@.len() != "/logs"@.len());
    assert("/avr/seed"@.len() != "/avr/repo/ingest"@.len());
    assert("/avr/seed"@.len() != "/signin"@.len());
    assert("/avr/seed"@.len() != "/sparql"@.len());
    assert("/avr/seed"@.len() != "/logs"@.len());
    assert("/avr/repo/ingest"@.len() != "/signin"@.len());
    assert("/avr/repo/ingest"@.len() != "/sparql"@.len());
    assert("/avr/repo/ingest"@.len() != "/logs"@.len());
    assert("/signin"@[2] != "/sparql"@[2]);
    assert("/signin"@.len() != "/logs"@.len());
    assert("/sparql"@.len() != "/logs"@.len());
    assert("GET"@[0] != "POST"@[0]);
}

/// Every request counts once; the query, seeding, ingest and log routes refuse a request
/// without a session token with status 401 and change no other count; and a query with a
/// known token and a non-blank text is run with that text.
pub proof fn law_route_guards(
    method: Seq<char>,
    path: Seq<char>,
    q: Map<Seq<char>, Seq<char>>,
    headers: Map<Seq<char>, Seq<char>>,
    body: Seq<char>,
    sessions: Set<Seq<char>>,
    c: CountsModel,
)
    requires
        c.0 < u64::MAX,
    ensures
        route_spec(method, path, q, headers, body, sessions, c).0.0 == c.0 + 1,
        (path == "/sparql"@ || (method == "POST"@ && (path == "/avr/seed"@ || path == "/avr/repo/ingest"@))
            || (method == "GET"@ && path == "/logs"@)) && !headers.contains_key("x-omrya-token"@) ==> ({
            let r = route_spec(method, path, q, headers, body, sessions, c);
            &&& r.1 matches ActionModel::Respond(status, _, _) && status == 401
            &&& r.0 == ((c.0 + 1) as u64, c.1, c.2, c.3, c.4)
        }),
        path == "/sparql"@ && headers.contains_key("x-omrya-token"@) && sessions.contains(headers["x-omrya-token"@])
            && q.contains_key("query"@) && trim_spec(q["query"@]).len() > 0 ==> (
            route_spec(method, path, q, headers, body, sessions, c).1 matches ActionModel::Sparql(text, _) && text == q["query"@]),
{
    lemma_route_literals();
}

} // verus!
