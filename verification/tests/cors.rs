use ahash::AHashSet;
use bolt_core::cors::{
    add_cors_response_headers, add_preflight_headers_simple, add_preflight_headers_with_config,
    apply_cors_headers, apply_cors_preflight, apply_cors_preflight_to_vec, apply_cors_to_vec,
    build_cors_config, cors_config_from_parts, CorsConfig,
};
use bolt_core::metadata::RouteMetadata;
use bolt_core::middleware::cors::{
    add_cors_headers_with_config, CorsMiddleware, CorsRequest,
};
use bolt_core::router::Router;
use bolt_core::state::AppState;
use regex::Regex;
use std::collections::HashMap;

fn strings(items: &[&str]) -> Vec<String> {
    items.iter().map(|s| s.to_string()).collect()
}

fn pair(k: &str, v: &str) -> (String, String) {
    (k.to_string(), v.to_string())
}

fn config(origins: &[&str], credentials: bool) -> CorsConfig {
    build_cors_config(
        strings(origins),
        credentials,
        strings(&["POST", "GET"]),
        strings(&["content-type"]),
        vec![],
        600,
    )
}

fn state(global: Option<CorsConfig>, routes: &[(&str, &str, usize)], meta: Vec<(usize, RouteMetadata)>) -> AppState {
    let mut router = Router::new();
    for (m, p, id) in routes {
        router.register(m, p, *id).unwrap();
    }
    let mut metadata = HashMap::new();
    for (id, m) in meta {
        metadata.insert(id, m);
    }
    AppState {
        debug: false,
        max_header_size: 8192,
        global_cors_config: global,
        cors_origin_regexes: vec![],
        router: Some(router),
        route_metadata: Some(metadata),
    }
}

#[test]
fn configurations_are_assembled_from_lists() {
    let cfg = build_cors_config(
        strings(&["https://a.test", "https://b.test"]),
        true,
        strings(&["POST", "GET"]),
        strings(&["content-type", "x-a"]),
        strings(&["x-total"]),
        3600,
    );
    assert!(!cfg.allow_all_origins);
    assert!(cfg.credentials);
    assert_eq!(cfg.origin_set.len(), 2);
    assert!(cfg.origin_set.contains("https://b.test"));
    assert_eq!(cfg.methods_str, "POST, GET");
    assert_eq!(cfg.headers_str, "content-type, x-a");
    assert_eq!(cfg.expose_headers_str, "x-total");
    assert_eq!(cfg.max_age_str, "3600");
    assert_eq!(cfg.methods_header.as_deref(), Some("POST, GET"));
    assert_eq!(cfg.headers_header.as_deref(), Some("content-type, x-a"));
    assert_eq!(cfg.expose_headers_header.as_deref(), Some("x-total"));
    assert_eq!(cfg.max_age_header.as_deref(), Some("3600"));
    assert_eq!(cfg.max_age, 3600);
    let cfg = build_cors_config(strings(&["*"]), false, strings(&["bad\nmethod"]), vec![], vec![], 0);
    assert!(cfg.allow_all_origins);
    assert_eq!(cfg.methods_header, None);
    assert_eq!(cfg.headers_header.as_deref(), Some(""));
    assert_eq!(cfg.expose_headers_header, None);
    assert_eq!(cfg.max_age_header.as_deref(), Some("0"));
}

#[test]
fn absent_settings_take_their_defaults() {
    let cfg = cors_config_from_parts(None, None, None, None, None, None);
    assert!(cfg.origins.is_empty() && !cfg.allow_all_origins && !cfg.credentials);
    assert_eq!(cfg.methods_str, "GET, POST, PUT, PATCH, DELETE, OPTIONS");
    assert_eq!(
        cfg.headers_str,
        "accept, accept-encoding, authorization, content-type, dnt, origin, user-agent, x-csrftoken, x-requested-with"
    );
    assert_eq!(cfg.max_age, 86400);
    assert_eq!(cfg.expose_headers_header, None);
    let cfg = cors_config_from_parts(
        Some(strings(&["*"])),
        Some(true),
        Some(vec![]),
        Some(strings(&["x"])),
        Some(strings(&["y"])),
        Some(5),
    );
    assert!(cfg.allow_all_origins && cfg.credentials);
    assert_eq!(cfg.methods_str, "");
    assert_eq!(cfg.headers_str, "x");
    assert_eq!(cfg.expose_headers_header.as_deref(), Some("y"));
    assert_eq!(cfg.max_age_str, "5");
}

#[test]
fn listed_origins_are_reflected() {
    let cfg = config(&["https://a.test"], true);
    let mut headers = vec![pair("Access-Control-Allow-Origin", "stale"), pair("x", "1")];
    assert!(apply_cors_headers(&mut headers, Some("https://a.test"), &cfg, None, None));
    assert_eq!(
        headers,
        vec![
            pair("x", "1"),
            pair("access-control-allow-origin", "https://a.test"),
            pair("vary", "Origin"),
            pair("access-control-allow-credentials", "true"),
        ]
    );
    let mut headers = vec![pair("x", "1")];
    assert!(!apply_cors_headers(&mut headers, Some("https://b.test"), &cfg, None, None));
    assert!(!apply_cors_headers(&mut headers, None, &cfg, None, None));
    assert_eq!(headers, vec![pair("x", "1")]);
}

#[test]
fn wildcard_without_credentials_answers_with_a_star() {
    let cfg = build_cors_config(strings(&["*"]), false, vec![], vec![], strings(&["x-a", "x-b"]), 1);
    let mut headers = Vec::new();
    assert!(apply_cors_headers(&mut headers, None, &cfg, None, None));
    assert_eq!(
        headers,
        vec![pair("access-control-allow-origin", "*"), pair("access-control-expose-headers", "x-a, x-b")]
    );
}

#[test]
fn wildcard_with_credentials_reflects_the_origin() {
    let cfg = config(&["*"], true);
    let mut headers = Vec::new();
    assert!(apply_cors_to_vec(&mut headers, Some("https://any.test"), &cfg, None, None));
    assert_eq!(
        headers,
        vec![
            pair("access-control-allow-origin", "https://any.test"),
            pair("vary", "Origin"),
            pair("access-control-allow-credentials", "true"),
        ]
    );
    assert!(!headers.iter().any(|(_, v)| v == "*"));
    let mut headers = Vec::new();
    assert!(!apply_cors_to_vec(&mut headers, None, &cfg, None, None));
    assert!(headers.is_empty());
}

#[test]
fn an_origin_that_cannot_be_sent_is_not_reflected() {
    let cfg = config(&["*"], true);
    let mut headers = Vec::new();
    assert!(apply_cors_headers(&mut headers, Some("https://a.test\r\nx: y"), &cfg, None, None));
    assert_eq!(
        headers,
        vec![pair("vary", "Origin"), pair("access-control-allow-credentials", "true")]
    );
}

#[test]
fn global_origins_and_expressions_are_fallbacks() {
    let empty = config(&[], false);
    let mut global = AHashSet::new();
    global.insert("https://g.test".to_string());
    let res = vec![Regex::new(r"^https://.*\.example\.com$").unwrap()];
    let mut h = Vec::new();
    assert!(apply_cors_headers(&mut h, Some("https://g.test"), &empty, Some(&global), None));
    let mut h = Vec::new();
    assert!(apply_cors_headers(&mut h, Some("https://x.example.com"), &empty, Some(&global), Some(&res)));
    let mut h = Vec::new();
    // An expression counts whether or not a set of origins applies.
    assert!(apply_cors_headers(&mut h, Some("https://x.example.com"), &empty, None, Some(&res)));
    let mut h = Vec::new();
    assert!(!apply_cors_headers(&mut h, Some("https://x.example.org"), &empty, None, Some(&res)));
    assert!(!apply_cors_headers(&mut h, Some("https://x.example.org"), &empty, Some(&global), Some(&res)));
    let own = config(&["https://a.test"], false);
    assert!(!apply_cors_headers(&mut h, Some("https://g.test"), &own, Some(&global), None));
    assert!(apply_cors_headers(&mut h, Some("https://x.example.com"), &own, Some(&global), Some(&res)));
    let mut with_regex = config(&["https://a.test"], false);
    with_regex.compiled_origin_regexes = vec![Regex::new(r"^https://own\.").unwrap()];
    let mut h = Vec::new();
    assert!(apply_cors_headers(&mut h, Some("https://own.test"), &with_regex, None, Some(&res)));
    assert!(!apply_cors_headers(&mut h, Some("https://x.example.com"), &with_regex, None, Some(&res)));
}

#[test]
fn preflight_headers() {
    let cfg = config(&["https://a.test"], false);
    let mut headers = vec![pair("Vary", "Origin")];
    apply_cors_preflight(&mut headers, &cfg);
    assert_eq!(
        headers,
        vec![
            pair("Vary", "Origin"),
            pair("access-control-allow-methods", "POST, GET"),
            pair("access-control-allow-headers", "content-type"),
            pair("access-control-max-age", "600"),
            pair("vary", "Access-Control-Request-Method, Access-Control-Request-Headers"),
        ]
    );
    let n = headers.len();
    let mut marked = vec![pair("vary", "Access-Control-Request-Method")];
    add_preflight_headers_with_config(&mut marked, &cfg);
    assert_eq!(marked.len(), 4);
    assert_eq!(n, 5);
    let mut fresh = vec![pair("x", "1")];
    apply_cors_preflight_to_vec(&mut fresh, &cfg);
    assert_eq!(fresh.len(), 5);
    assert_eq!(fresh[0], pair("x", "1"));
    assert_eq!(fresh[4].0, "vary");
}

#[test]
fn plain_lists_work_as_configurations() {
    let mut headers = Vec::new();
    assert!(add_cors_response_headers(
        &mut headers,
        Some("https://a.test"),
        &strings(&["https://a.test"]),
        true,
        &strings(&["x-a"]),
    ));
    assert_eq!(
        headers,
        vec![
            pair("access-control-allow-origin", "https://a.test"),
            pair("vary", "Origin"),
            pair("access-control-allow-credentials", "true"),
            pair("access-control-expose-headers", "x-a"),
        ]
    );
    let mut headers = Vec::new();
    assert!(!add_cors_response_headers(&mut headers, Some("https://a.test"), &[], false, &[]));
    let mut headers = Vec::new();
    add_preflight_headers_simple(&mut headers, &strings(&["GET"]), &strings(&["a", "b"]), 70000000000);
    assert_eq!(
        headers,
        vec![
            pair("access-control-allow-methods", "GET"),
            pair("access-control-allow-headers", "a, b"),
            pair("access-control-max-age", "70000000000"),
            pair("vary", "Access-Control-Request-Method, Access-Control-Request-Headers"),
        ]
    );
}

#[test]
fn preflight_round_trip() {
    let own = config(&["https://a.test"], false);
    let s = state(
        None,
        &[("POST", "/api", 1)],
        vec![(1, RouteMetadata { cors_config: Some(own), ..Default::default() })],
    );
    let service = CorsMiddleware::new().new_transform();
    let req = CorsRequest {
        origin: Some("https://a.test"),
        method: "OPTIONS",
        path: "/api",
        asks_for_method: true,
    };
    let mut headers = vec![pair("allow", "POST")];
    let status = service.call(&req, Some(&s), 404, &mut headers);
    assert_eq!(status, 204);
    assert!(headers.contains(&pair("access-control-allow-origin", "https://a.test")));
    assert!(headers.contains(&pair("access-control-allow-methods", "POST, GET")));
    assert!(headers.contains(&pair("vary", "Origin")));
    assert!(headers.contains(&pair("access-control-max-age", "600")));
    let denied = CorsRequest { origin: Some("https://evil.test"), ..req };
    let mut headers = vec![pair("allow", "POST")];
    assert_eq!(service.call(&denied, Some(&s), 404, &mut headers), 404);
    assert_eq!(headers, vec![pair("allow", "POST")]);
}

#[test]
fn the_cors_step_on_ordinary_responses() {
    let global = config(&["https://g.test"], false);
    let mut skip = AHashSet::new();
    skip.insert("cors".to_string());
    let s = state(
        Some(global),
        &[("GET", "/open", 1), ("GET", "/skipped", 2)],
        vec![(2, RouteMetadata { skip, ..Default::default() })],
    );
    let service = CorsMiddleware::default().new_transform();
    let mut headers = vec![pair("x-bolt-skip-cors", "1"), pair("a", "b")];
    let same_origin = CorsRequest { origin: None, method: "GET", path: "/open", asks_for_method: false };
    assert_eq!(service.call(&same_origin, Some(&s), 200, &mut headers), 200);
    assert_eq!(headers, vec![pair("a", "b")]);
    let req = CorsRequest { origin: Some("https://g.test"), method: "GET", path: "/open", asks_for_method: false };
    let mut headers = vec![pair("a", "b")];
    assert_eq!(service.call(&req, Some(&s), 200, &mut headers), 200);
    assert_eq!(
        headers,
        vec![pair("a", "b"), pair("access-control-allow-origin", "https://g.test"), pair("vary", "Origin")]
    );
    let mut headers = vec![pair("X-Bolt-Skip-Cors", "1"), pair("a", "b")];
    assert_eq!(service.call(&req, Some(&s), 200, &mut headers), 200);
    assert_eq!(headers, vec![pair("a", "b")]);
    let skipped = CorsRequest { path: "/skipped", ..req };
    let mut headers = vec![pair("a", "b")];
    service.call(&skipped, Some(&s), 200, &mut headers);
    assert_eq!(headers, vec![pair("a", "b")]);
    let unknown = CorsRequest { path: "/nowhere", ..req };
    let mut headers = vec![];
    assert_eq!(service.call(&unknown, Some(&s), 404, &mut headers), 404);
    assert_eq!(headers.len(), 2);
    let mut headers = vec![pair("a", "b")];
    service.call(&req, None, 200, &mut headers);
    assert_eq!(headers, vec![pair("a", "b")]);
    let options = CorsRequest { method: "OPTIONS", ..req };
    let mut headers = vec![];
    assert_eq!(service.call(&options, Some(&s), 200, &mut headers), 200);
    assert!(headers.contains(&pair("access-control-allow-methods", "POST, GET")));
}

#[test]
fn state_fallbacks_for_route_configurations() {
    let global = config(&["https://g.test"], false);
    let mut s = state(Some(global), &[], vec![]);
    s.cors_origin_regexes = vec![Regex::new(r"\.partner\.test$").unwrap()];
    let empty = config(&[], true);
    let mut h = Vec::new();
    assert!(add_cors_headers_with_config(&mut h, Some("https://g.test"), &empty, &s));
    let mut h = Vec::new();
    assert!(add_cors_headers_with_config(&mut h, Some("https://x.partner.test"), &empty, &s));
    assert!(h.contains(&pair("access-control-allow-credentials", "true")));
    let mut h = Vec::new();
    assert!(!add_cors_headers_with_config(&mut h, Some("https://other.test"), &empty, &s));
    assert!(s.is_test_mode());
    assert!(s.get_router().is_some());
    assert!(s.get_route_metadata(1).is_none());
}

#[test]
fn an_origin_that_matches_an_expression_is_allowed() {
    let cfg = build_cors_config(vec![], false, strings(&["GET"]), vec![], vec![], 60);
    let cfg = bolt_core::cors::with_origin_regexes(cfg, strings(&["^https://.*\\.example\\.com$"])).unwrap();
    let mut headers = Vec::new();
    assert!(apply_cors_headers(&mut headers, Some("https://a.example.com"), &cfg, None, None));
    assert!(headers.contains(&pair("access-control-allow-origin", "https://a.example.com")));
    assert!(headers.iter().any(|(k, v)| k == "vary" && v == "Origin"));
    let mut headers = Vec::new();
    assert!(!apply_cors_headers(&mut headers, Some("https://a.example.org"), &cfg, None, None));
    assert!(headers.is_empty());
}

#[test]
fn a_preflight_is_judged_by_the_route_before_the_global_configuration() {
    let own = build_cors_config(
        strings(&["https://a.test"]),
        true,
        strings(&["POST", "GET"]),
        strings(&["content-type"]),
        vec![],
        600,
    );
    let global = config(&["https://g.test"], false);
    let s = state(
        Some(global),
        &[("POST", "/api", 1), ("OPTIONS", "/own", 2), ("GET", "/plain", 3)],
        vec![
            (1, RouteMetadata { cors_config: Some(own), ..Default::default() }),
            (
                2,
                RouteMetadata {
                    cors_config: Some(config(&["https://o.test"], false)),
                    ..Default::default()
                },
            ),
        ],
    );
    let service = CorsMiddleware::new().new_transform();
    let ask = |origin: &'static str, path: &'static str| {
        let req = CorsRequest { origin: Some(origin), method: "OPTIONS", path, asks_for_method: true };
        let mut headers = Vec::new();
        let status = service.call(&req, Some(&s), 404, &mut headers);
        (status, headers)
    };
    let (status, headers) = ask("https://a.test", "/api");
    assert_eq!(status, 204);
    assert!(headers.contains(&pair("access-control-allow-origin", "https://a.test")));
    assert!(headers.contains(&pair("access-control-allow-credentials", "true")));
    assert!(headers.contains(&pair("access-control-allow-methods", "POST, GET")));
    assert!(headers.iter().any(|(k, v)| k == "vary" && v.contains("Origin")));
    // The origin of the global configuration is not allowed for this route.
    assert_eq!(ask("https://g.test", "/api"), (404, vec![]));
    // A route for OPTIONS itself is asked too.
    assert_eq!(ask("https://o.test", "/own").0, 204);
    assert_eq!(ask("https://g.test", "/own").0, 404);
    // Routes that say nothing, and paths without routes, fall back.
    assert_eq!(ask("https://g.test", "/plain").0, 204);
    assert_eq!(ask("https://g.test", "/nowhere").0, 204);
    assert_eq!(ask("https://a.test", "/plain").0, 404);
}
