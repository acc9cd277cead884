use ahash::{AHashMap, AHashSet};
use bolt_core::core_handler::{
    handler_error_response, process_handler_result, CoreHandlerResult, HandlerOutcome,
    ResponseFlags,
};
use bolt_core::request::{build_meta, mirror_name, ConnectionInfo};
use bolt_core::cors::{apply_cors_headers, build_cors_config, with_origin_regexes};
use bolt_core::metadata::{RateLimitConfig, RouteMetadata};
use bolt_core::middleware::auth::{AuthConfig, AuthRejection};
use bolt_core::middleware::rate_limit::rate_limit_store;
use bolt_core::middleware::{add_cors_headers, process_middleware, rejection_reply, MiddlewareEntry};
use bolt_core::permissions::Guard;
use bolt_core::response_builder::ParsedResponseMeta;
use bolt_core::response_meta::{ResponseMeta, ResponseType};
use bolt_core::router::RegistrationError;
use bolt_core::server::{
    register_middleware_metadata, register_routes, start_server_async, wants_reuse_port,
    worker_count, RouteSpec, StartError,
};
use bolt_core::state::AppState;
use bolt_core::websocket::{handle_test_websocket, TestUpgrade, WebSocketRouter};
use std::collections::HashMap;

fn pair(k: &str, v: &str) -> (String, String) {
    (k.to_string(), v.to_string())
}

fn headers(items: &[(&str, &str)]) -> AHashMap<String, String> {
    items.iter().map(|(k, v)| (k.to_string(), v.to_string())).collect()
}

fn route(method: &str, path: &str, handler_id: usize) -> RouteSpec {
    RouteSpec { method: method.to_string(), path: path.to_string(), handler_id }
}

#[test]
fn routes_are_registered_in_order() {
    let router = register_routes(&vec![
        route("GET", "/items/{id}", 1),
        route("GET", "/items/new", 2),
        route("POST", "/items", 3),
    ])
    .unwrap();
    assert_eq!(router.find("GET", "/items/7").unwrap().handler_id(), 1);
    assert_eq!(router.find("GET", "/items/new").unwrap().handler_id(), 2);
    assert_eq!(router.find("POST", "/items").unwrap().handler_id(), 3);
    assert!(register_routes(&vec![]).unwrap().find("GET", "/").is_none());
    assert!(matches!(
        register_routes(&vec![route("GET", "/a", 1), route("FETCH", "/b", 2)]),
        Err(RegistrationError::UnsupportedMethod(m)) if m == "FETCH"
    ));
    assert!(matches!(
        register_routes(&vec![route("GET", "/a", 1), route("GET", "/a", 2)]),
        Err(RegistrationError::Duplicate(_))
    ));
    assert!(matches!(
        register_routes(&vec![route("GET", "/a/{x}", 1), route("GET", "/a/{y}", 2)]),
        Err(RegistrationError::Rejected(_))
    ));
}

#[test]
fn unreadable_metadata_falls_back_to_defaults() {
    let limited = RouteMetadata {
        rate_limit_config: Some(RateLimitConfig { rps: 1, burst: 1, key_type: "ip".to_string() }),
        ..Default::default()
    };
    let (installed, failed) = register_middleware_metadata(vec![
        (1, Some(RouteMetadata::default())),
        (2, None),
        (3, Some(limited)),
        (4, None),
        (1, Some(RouteMetadata { needs_query: false, ..Default::default() })),
    ]);
    assert_eq!(failed, vec![2, 4]);
    assert_eq!(installed.len(), 2);
    assert!(!installed[&1].needs_query);
    assert!(installed[&3].rate_limit_config.is_some());
    assert!(!installed.contains_key(&2));
}

#[test]
fn server_settings() {
    assert_eq!(worker_count(None), 2);
    assert_eq!(worker_count(Some("8")), 8);
    assert_eq!(worker_count(Some("0")), 2);
    assert_eq!(worker_count(Some("-3")), 2);
    assert_eq!(worker_count(Some("four")), 2);
    assert!(wants_reuse_port(Some("1")));
    assert!(wants_reuse_port(Some("TRUE")));
    assert!(wants_reuse_port(Some("true")));
    assert!(!wants_reuse_port(Some("yes")));
    assert!(!wants_reuse_port(Some("0")));
    assert!(!wants_reuse_port(None));
    let refused = start_server_async(false, Some(true), None, None, Some("4"), None);
    assert_eq!(refused.as_ref().err(), Some(&StartError::RoutesNotRegistered));
    assert_eq!(refused.unwrap_err().message(), "Routes not registered");
    let s = start_server_async(true, None, None, None, None, None).unwrap();
    assert!(!s.debug && !s.reuse_port);
    assert_eq!((s.max_header_size, s.workers), (8192, 2));
    assert!(s.cors_allowed_origins.is_empty());
    let s = start_server_async(
        true,
        Some(true),
        Some(1024),
        Some(vec!["https://a.test".to_string()]),
        Some("4"),
        Some("true"),
    )
    .unwrap();
    assert!(s.debug && s.reuse_port);
    assert_eq!((s.max_header_size, s.workers), (1024, 4));
    assert_eq!(s.cors_allowed_origins, vec!["https://a.test"]);
}

#[test]
fn origin_expressions_are_compiled() {
    let cfg = build_cors_config(vec![], true, vec![], vec![], vec![], 1);
    let cfg = with_origin_regexes(cfg, vec![r"^https://.*\.a\.test$".to_string()]).unwrap();
    assert_eq!(cfg.compiled_origin_regexes.len(), 1);
    assert_eq!(cfg.origin_regexes, vec![r"^https://.*\.a\.test$"]);
    assert!(cfg.credentials);
    let mut global = AHashSet::new();
    global.insert("https://g.test".to_string());
    let mut h = Vec::new();
    assert!(apply_cors_headers(&mut h, Some("https://x.a.test"), &cfg, Some(&global), None));
    let cfg = build_cors_config(vec![], true, vec![], vec![], vec![], 1);
    assert!(with_origin_regexes(cfg, vec!["ok".to_string(), "(unclosed".to_string()]).is_err());
}

#[test]
fn metadata_responses() {
    let flags = ResponseFlags { skip_compression: false, skip_cors: false, is_head_request: false };
    let parsed = ParsedResponseMeta {
        status_code: 201,
        meta: ResponseMeta {
            response_type: ResponseType::Json,
            custom_content_type: None,
            custom_headers: Some(vec![pair("X-A", "1")]),
            cookies: None,
        },
        body: b"{}".to_vec(),
    };
    match process_handler_result(HandlerOutcome::Meta(parsed), flags, None, None) {
        CoreHandlerResult::Simple(status, headers, body) => {
            assert_eq!(status, 201);
            assert_eq!(headers, vec![pair("content-type", "application/json"), pair("x-a", "1")]);
            assert_eq!(body, b"{}");
        }
        _ => panic!("expected a simple response"),
    }
    let parsed = ParsedResponseMeta {
        status_code: 200,
        meta: ResponseMeta {
            response_type: ResponseType::File,
            custom_content_type: Some("application/pdf".to_string()),
            custom_headers: Some(vec![pair("X-Bolt-File-Path", "/tmp/a.pdf"), pair("x-bolt-file-path", "/tmp/b")]),
            cookies: None,
        },
        body: Vec::new(),
    };
    match process_handler_result(HandlerOutcome::Meta(parsed), flags, None, None) {
        CoreHandlerResult::File { path, status, headers, .. } => {
            assert_eq!(path, "/tmp/a.pdf");
            assert_eq!(status, 200);
            assert_eq!(headers, vec![pair("content-type", "application/pdf")]);
        }
        _ => panic!("expected a file response"),
    }
}

#[test]
fn declared_middleware_runs_in_order() {
    let store = rate_limit_store();
    let cors = || build_cors_config(vec!["https://a.test".to_string()], false, vec!["GET".to_string()], vec![], vec![], 5);
    let auth = || AuthConfig {
        mode: Some("api_key".to_string()),
        header: Some("x-key".to_string()),
        secret: None,
        algorithms: None,
        api_keys: Some(["k".to_string()].into_iter().collect()),
    };
    let entries = vec![
        MiddlewareEntry::Other,
        MiddlewareEntry::Cors(cors()),
        MiddlewareEntry::RateLimit(RateLimitConfig { rps: 1, burst: 1, key_type: "ip".to_string() }),
        MiddlewareEntry::Auth(auth()),
    ];
    let reply = process_middleware("OPTIONS", &headers(&[("origin", "https://a.test")]), None, 1, &entries, &store).unwrap();
    assert_eq!(reply.status, 204);
    assert!(reply.body.is_empty());
    assert_eq!(
        reply.headers,
        vec![
            pair("access-control-allow-origin", "https://a.test"),
            pair("vary", "Origin"),
            pair("access-control-allow-methods", "GET"),
            pair("access-control-allow-headers", ""),
            pair("access-control-max-age", "5"),
            pair("vary", "Access-Control-Request-Method, Access-Control-Request-Headers"),
        ]
    );
    assert!(process_middleware("OPTIONS", &headers(&[]), None, 1, &vec![MiddlewareEntry::Auth(auth())], &store).is_none());
    let ok = headers(&[("x-key", "k")]);
    assert!(process_middleware("GET", &ok, Some("1.1.1.1"), 9, &entries, &store).is_none());
    assert_eq!(process_middleware("GET", &ok, Some("1.1.1.1"), 9, &entries, &store).unwrap().status, 429);
    let reply = process_middleware("GET", &headers(&[]), Some("2.2.2.2"), 9, &entries, &store).unwrap();
    assert_eq!(reply.status, 401);
    assert_eq!(
        reply.headers,
        vec![pair("www-authenticate", "ApiKey"), pair("content-type", "application/json")]
    );
    assert_eq!(reply.body, br#"{"detail":"Missing API key"}"#);
    assert!(process_middleware("GET", &headers(&[]), None, 9, &vec![MiddlewareEntry::Other], &store).is_none());
    let mut h = vec![pair("a", "b")];
    add_cors_headers(&mut h, Some("https://a.test"), &entries);
    assert_eq!(h.len(), 3);
    let mut h = vec![pair("a", "b")];
    add_cors_headers(&mut h, Some("https://a.test"), &vec![MiddlewareEntry::Other]);
    assert_eq!(h.len(), 1);
    let r = rejection_reply(&AuthRejection { status: 500, scheme: None, detail: "a \"b\"".to_string() });
    assert_eq!(r.headers, vec![pair("content-type", "application/json")]);
    assert_eq!(r.body, br#"{"detail":"a \"b\""}"#);
}

#[test]
fn test_clients_pass_the_same_checks() {
    let mut router = WebSocketRouter::new();
    router.register("/ws", 1).unwrap();
    router.register("/rooms/{room}", 2).unwrap();
    let mut metadata = HashMap::new();
    metadata.insert(2usize, RouteMetadata { guards: vec![Guard::IsAuthenticated], ..Default::default() });
    let state = AppState {
        debug: true,
        max_header_size: 8192,
        global_cors_config: Some(build_cors_config(vec!["https://a.test".to_string()], false, vec![], vec![], vec![], 1)),
        cors_origin_regexes: vec![],
        router: None,
        route_metadata: Some(metadata),
    };
    let store = rate_limit_store();
    let h = vec![pair("Origin", "https://a.test"), pair("Cookie", "s=1; t=2")];
    match handle_test_websocket(&router, &state, &store, "/ws/", &h) {
        TestUpgrade::Found { handler_id, path_params, headers, cookies, auth_ctx } => {
            assert_eq!(handler_id, 1);
            assert!(path_params.is_empty());
            assert_eq!(headers.get("origin").map(|s| s.as_str()), Some("https://a.test"));
            assert_eq!(cookies.get("t").map(|s| s.as_str()), Some("2"));
            assert!(auth_ctx.is_none());
        }
        _ => panic!("expected the connection to be opened"),
    }
    assert!(matches!(
        handle_test_websocket(&router, &state, &store, "/ws", &vec![pair("origin", "https://b.test")]),
        TestUpgrade::OriginDenied(o) if o == "https://b.test"
    ));
    assert!(matches!(handle_test_websocket(&router, &state, &store, "/nope", &vec![]), TestUpgrade::NotFound));
    assert!(matches!(
        handle_test_websocket(&router, &state, &store, "/rooms/lobby", &vec![]),
        TestUpgrade::Unauthorized
    ));
}

#[test]
fn the_environment_mirrors_the_headers() {
    assert_eq!(mirror_name("x-forwarded-for"), "HTTP_X_FORWARDED_FOR");
    assert_eq!(mirror_name("content-type"), "CONTENT_TYPE");
    assert_eq!(mirror_name("Content-Length"), "CONTENT_LENGTH");
    assert_eq!(mirror_name("X_y-Z9"), "HTTP_X_Y_Z9");
    assert_eq!(mirror_name("content-length"), "CONTENT_LENGTH");
    assert_eq!(mirror_name(""), "HTTP_");
    let info = ConnectionInfo { server_name: "example.test", server_port: 8000, scheme: "https", remote_addr: Some("10.0.0.9") };
    let meta = build_meta(&headers(&[("accept", "*/*"), ("content-type", "text/plain")]), &info);
    assert_eq!(meta.len(), 6);
    assert_eq!(meta["HTTP_ACCEPT"], "*/*");
    assert_eq!(meta["CONTENT_TYPE"], "text/plain");
    assert_eq!(meta["SERVER_NAME"], "example.test");
    assert_eq!(meta["SERVER_PORT"], "8000");
    assert_eq!(meta["wsgi.url_scheme"], "https");
    assert_eq!(meta["REMOTE_ADDR"], "10.0.0.9");
    let info = ConnectionInfo { remote_addr: None, ..info };
    assert_eq!(build_meta(&headers(&[]), &info).len(), 3);
}

#[test]
fn failures_of_handlers_are_minimized() {
    let (status, headers, _) = handler_error_response("boom", false).to_tuple();
    assert_eq!(status, 500);
    assert_eq!(headers, vec![pair("content-type", "application/json")]);
    match handler_error_response("ValueError: \"x\"", true) {
        CoreHandlerResult::Error(reply) => {
            assert_eq!(reply.body, br#"{"detail":"ValueError: \"x\""}"#)
        }
        _ => panic!("expected an error"),
    }
    match handler_error_response("ValueError: secret", false) {
        CoreHandlerResult::Error(reply) => {
            assert_eq!(reply.body, br#"{"detail":"Internal Server Error"}"#)
        }
        _ => panic!("expected an error"),
    }
}
