use omrya::server::{
    make_token, open_session, route, sparql_options, Action, HttpRequest, ServerCounts,
    ServerState,
};
use omrya::strmap::StrMap;

fn request(method: &str, path: &str, query: &[(&str, &str)], token: Option<&str>, body: &str) -> HttpRequest {
    let mut q = StrMap::new();
    for (k, v) in query {
        q.insert(k.to_string(), v.to_string());
    }
    let mut h = StrMap::new();
    if let Some(t) = token {
        h.insert("x-omrya-token".to_string(), t.to_string());
    }
    HttpRequest { method: method.to_string(), path: path.to_string(), query: q, headers: h, body: body.to_string() }
}

fn fresh() -> ServerState {
    ServerState {
        counts: ServerCounts { requests: 0, signins: 0, sparql_queries: 0, metrics_requests: 0, log_views: 0 },
        sessions: Vec::new(),
    }
}

#[test]
fn static_routes_and_counts() {
    let mut st = fresh();
    assert!(matches!(route(&mut st, &request("GET", "/", &[], None, "")), Action::Page));
    assert!(matches!(route(&mut st, &request("GET", "/metrics", &[], None, "")), Action::Metrics));
    match route(&mut st, &request("GET", "/health", &[], None, "")) {
        Action::Respond { status, body, .. } => {
            assert_eq!(status, 200);
            assert_eq!(body, "ok\n");
        }
        _ => panic!("health"),
    }
    match route(&mut st, &request("POST", "/health", &[], None, "")) {
        Action::Respond { status, body, .. } => {
            assert_eq!(status, 404);
            assert_eq!(body, "Not found\n");
        }
        _ => panic!("not found"),
    }
    assert_eq!(st.counts.requests, 4);
    assert_eq!(st.counts.metrics_requests, 1);
}

#[test]
fn protected_routes_need_a_known_token() {
    let mut st = fresh();
    match route(&mut st, &request("POST", "/sparql", &[("query", "SELECT * WHERE {}")], None, "")) {
        Action::Respond { status, body, .. } => {
            assert_eq!(status, 401);
            assert!(body.starts_with("Missing session token."));
        }
        _ => panic!("missing"),
    }
    match route(&mut st, &request("GET", "/logs", &[], Some("nope"), "")) {
        Action::Respond { status, body, .. } => {
            assert_eq!(status, 401);
            assert_eq!(body, "Invalid session token. Sign in again.\n");
        }
        _ => panic!("invalid"),
    }
}

#[test]
fn signin_then_query_with_options() {
    let mut st = fresh();
    let token = match route(&mut st, &request("POST", "/signin", &[("user", "ana"), ("password", "pw")], None, "")) {
        Action::Signin { user, password } => make_token(&user, &password, 12345),
        _ => panic!("signin"),
    };
    assert_eq!(token.len(), 16);
    assert_eq!(token, make_token("ana", "pw", 12345));
    assert_ne!(token, make_token("ana", "pw", 12346));
    open_session(&mut st, token.clone());
    assert_eq!(st.counts.signins, 1);
    let req = request(
        "POST",
        "/sparql",
        &[("query", "  "), ("visibility", "A&B"), ("asOf", "10"), ("temporal.asOf", "20")],
        Some(&token),
        "SELECT ?s WHERE { ?s ?p ?o }",
    );
    match route(&mut st, &req) {
        Action::Sparql { query, options } => {
            assert_eq!(query, "SELECT ?s WHERE { ?s ?p ?o }");
            assert_eq!(options.values[0], None);
            assert_eq!(options.values[1], Some("A&B".to_string()));
            assert_eq!(options.values[5], Some("20".to_string()));
        }
        _ => panic!("sparql"),
    }
    assert_eq!(st.counts.sparql_queries, 1);
    assert_eq!(sparql_options(&req.query).values.len(), 13);
    let empty = request("POST", "/sparql", &[], Some(&token), " ");
    match route(&mut st, &empty) {
        Action::Respond { status, body, .. } => {
            assert_eq!(status, 400);
            assert_eq!(body, "Missing SPARQL query\n");
        }
        _ => panic!("empty"),
    }
    match route(&mut st, &request("GET", "/logs", &[("table", "SRO"), ("limit", "7")], Some(&token), "")) {
        Action::Logs { limit } => assert_eq!(limit, 7),
        _ => panic!("logs"),
    }
    match route(&mut st, &request("GET", "/logs", &[("limit", "x")], Some(&token), "")) {
        Action::Logs { limit } => assert_eq!(limit, 50),
        _ => panic!("logs default"),
    }
    match route(&mut st, &request("POST", "/avr/seed", &[("dataset", "LINEAGE")], Some(&token), "")) {
        Action::Seed { dataset } => assert_eq!(dataset, "lineage"),
        _ => panic!("seed"),
    }
    match route(&mut st, &request("POST", "/avr/seed", &[("dataset", "other")], Some(&token), "")) {
        Action::Fail { message } => assert_eq!(message, "Unknown AVR dataset: other"),
        _ => panic!("unknown"),
    }
    match route(&mut st, &request("POST", "/avr/repo/ingest", &[("target", " ")], Some(&token), "")) {
        Action::Fail { message } => assert_eq!(message, "Missing authorized repository target"),
        _ => panic!("target"),
    }
    assert_eq!(st.counts.log_views, 2);
}

#[test]
fn signin_needs_both_fields() {
    let mut st = fresh();
    match route(&mut st, &request("GET", "/signin", &[("user", "ana")], None, "")) {
        Action::Fail { message } => assert_eq!(message, "Missing password"),
        _ => panic!("password"),
    }
    match route(&mut st, &request("GET", "/signin", &[("user", "")], None, "")) {
        Action::Fail { message } => assert_eq!(message, "Missing user"),
        _ => panic!("user"),
    }
    assert_eq!(st.counts.signins, 0);
}

#[test]
fn token_is_the_fnv_hash_of_its_text() {
    let mut h: u64 = 0xcbf29ce484222325;
    for b in "u:p:7".bytes() {
        h ^= u64::from(b);
        h = h.wrapping_mul(0x100000001b3);
    }
    assert_eq!(make_token("u", "p", 7), format!("{h:016x}"));
}
