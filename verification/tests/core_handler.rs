use ahash::{AHashMap, AHashSet};
use bolt_core::core_handler::{
    add_cors_headers_to_vec, build_401_response, build_403_response, build_404_response,
    build_py_request, find_route, get_effective_cors_config, handle_automatic_options,
    needs_cookies, needs_headers, needs_query_params, parse_cookies_inline,
    process_handler_result, process_request_pre_dispatch, should_skip_compression,
    should_skip_cors, validate_auth_and_guards, AuthGuardResult, CoreHandlerResult,
    HandlerOutcome, PreDispatchResult, RequestDependencies, RequestInput, ResponseFlags,
    StreamingDescriptor,
};
use bolt_core::cors::{build_cors_config, CorsConfig};
use bolt_core::metadata::{RateLimitConfig, RouteMetadata};
use bolt_core::middleware::auth::AuthBackend;
use bolt_core::middleware::rate_limit::rate_limit_store;
use bolt_core::permissions::Guard;
use bolt_core::router::Router;
use std::collections::HashMap;

fn strings(items: &[&str]) -> Vec<String> {
    items.iter().map(|s| s.to_string()).collect()
}

fn pair(k: &str, v: &str) -> (String, String) {
    (k.to_string(), v.to_string())
}

fn flags(skip_compression: bool, skip_cors: bool, is_head_request: bool) -> ResponseFlags {
    ResponseFlags { skip_compression, skip_cors, is_head_request }
}

fn input(method: &str, path: &str, headers: &[(&str, &str)], query: Option<&str>) -> RequestInput {
    let mut map = AHashMap::new();
    for (k, v) in headers {
        map.insert(k.to_string(), v.to_string());
    }
    RequestInput {
        method: method.to_string(),
        path: path.to_string(),
        headers: map,
        body: b"body".to_vec(),
        query_string: query.map(|q| q.to_string()),
        peer_addr: Some("10.0.0.1".to_string()),
    }
}

#[test]
fn test_add_cors_headers_wildcard() {
    let cors_cfg = CorsConfig {
        origins: vec!["*".to_string()],
        origin_regexes: vec![],
        compiled_origin_regexes: vec![],
        origin_set: AHashSet::new(),
        allow_all_origins: true,
        credentials: false,
        methods: vec![],
        headers: vec![],
        expose_headers: vec![],
        max_age: 86400,
        methods_str: String::new(),
        headers_str: String::new(),
        expose_headers_str: String::new(),
        max_age_str: "86400".to_string(),
        methods_header: None,
        headers_header: None,
        expose_headers_header: None,
        max_age_header: None,
    };

    let mut headers = Vec::new();
    add_cors_headers_to_vec(&mut headers, Some("https://example.com"), &cors_cfg);

    assert!(headers.iter().any(|(k, v)| k == "access-control-allow-origin" && v == "*"));
}

#[test]
fn test_should_skip_cors() {
    assert!(!should_skip_cors(None));

    let meta = RouteMetadata::default();
    assert!(!should_skip_cors(Some(&meta)));

    let mut skip_set = AHashSet::new();
    skip_set.insert("cors".to_string());
    let meta_skip = RouteMetadata { skip: skip_set, ..Default::default() };
    assert!(should_skip_cors(Some(&meta_skip)));
}

#[test]
fn metadata_switches() {
    assert!(needs_query_params(None) && needs_headers(None) && needs_cookies(None));
    assert!(!should_skip_compression(None));
    let mut skip = AHashSet::new();
    skip.insert("compression".to_string());
    let meta = RouteMetadata {
        skip,
        needs_headers: false,
        needs_cookies: false,
        needs_query: false,
        ..Default::default()
    };
    assert!(should_skip_compression(Some(&meta)));
    assert!(!should_skip_cors(Some(&meta)));
    assert!(!needs_query_params(Some(&meta)));
    assert!(!needs_headers(Some(&meta)));
    assert!(!needs_cookies(Some(&meta)));
}

#[test]
fn effective_cors_prefers_the_route() {
    let global = build_cors_config(strings(&["https://g.test"]), false, vec![], vec![], vec![], 1);
    let own = build_cors_config(strings(&["https://r.test"]), false, vec![], vec![], vec![], 2);
    let with_own = RouteMetadata { cors_config: Some(own), ..Default::default() };
    let without = RouteMetadata::default();
    assert_eq!(get_effective_cors_config(Some(&with_own), Some(&global)).unwrap().max_age, 2);
    assert_eq!(get_effective_cors_config(Some(&without), Some(&global)).unwrap().max_age, 1);
    assert_eq!(get_effective_cors_config(None, Some(&global)).unwrap().max_age, 1);
    assert!(get_effective_cors_config(Some(&without), None).is_none());
}

#[test]
fn plain_answers() {
    let cfg = build_cors_config(strings(&["https://a.test"]), true, vec![], vec![], vec![], 60);
    let (status, headers, body) = build_404_response(Some("https://a.test"), Some(&cfg)).to_tuple();
    assert_eq!(status, 404);
    assert_eq!(body, b"Not Found");
    assert_eq!(
        headers,
        vec![
            pair("content-type", "text/plain; charset=utf-8"),
            pair("access-control-allow-origin", "https://a.test"),
            pair("vary", "Origin"),
            pair("access-control-allow-credentials", "true"),
        ]
    );
    let (status, headers, body) = build_404_response(Some("https://b.test"), Some(&cfg)).to_tuple();
    assert_eq!((status, headers.len(), body.len()), (404, 1, 9));
    let (status, headers, body) = build_401_response(None, None).to_tuple();
    assert_eq!(status, 401);
    assert_eq!(
        headers,
        vec![pair("content-type", "application/json"), pair("www-authenticate", "Bearer")]
    );
    assert_eq!(body, br#"{"detail":"Authentication required"}"#);
    let (status, _, body) = build_403_response(None, None).to_tuple();
    assert_eq!(status, 403);
    assert_eq!(body, br#"{"detail":"Permission denied"}"#);
}

#[test]
fn automatic_options_lists_the_methods() {
    let mut router = Router::new();
    router.register("GET", "/api", 1).unwrap();
    router.register("POST", "/api", 2).unwrap();
    let cfg = build_cors_config(vec![], false, vec![], vec![], vec![], 60);
    match handle_automatic_options(&router, "/api", None) {
        Some(CoreHandlerResult::Simple(status, headers, body)) => {
            assert_eq!(status, 204);
            assert_eq!(
                headers,
                vec![pair("allow", "GET, POST"), pair("content-type", "application/json")]
            );
            assert!(body.is_empty());
        }
        _ => panic!("expected an answer"),
    }
    match handle_automatic_options(&router, "/other", Some(&cfg)) {
        Some(CoreHandlerResult::Simple(status, headers, body)) => {
            assert_eq!(status, 204);
            assert!(headers.is_empty() && body.is_empty());
        }
        _ => panic!("expected an answer"),
    }
    assert!(handle_automatic_options(&router, "/other", None).is_none());
}

#[test]
fn routes_are_found_with_their_captures() {
    let mut router = Router::new();
    router.register("GET", "/items/{id}", 9).unwrap();
    let found = find_route(&router, "GET", "/items/42").unwrap();
    assert_eq!(found.handler_id, 9);
    assert_eq!(found.path_params.get("id").map(|s| s.as_str()), Some("42"));
    assert!(find_route(&router, "POST", "/items/42").is_none());
}

#[test]
fn cookies_are_split_without_decoding() {
    let c = parse_cookies_inline(Some("a=1; b = 2 ;c=x=y; =skipped; lonely; d=%20; a=3"));
    assert_eq!(c.len(), 4);
    assert_eq!(c.get("a").map(|s| s.as_str()), Some("3"));
    assert_eq!(c.get("b ").map(|s| s.as_str()), Some(" 2"));
    assert_eq!(c.get("c").map(|s| s.as_str()), Some("x=y"));
    assert_eq!(c.get("d").map(|s| s.as_str()), Some("%20"));
    assert!(parse_cookies_inline(None).is_empty());
    assert!(parse_cookies_inline(Some("")).is_empty());
}

#[test]
fn requests_carry_only_what_the_handler_wants() {
    let inp = input("POST", "/x", &[("cookie", "s=1"), ("x-a", "b")], None);
    let mut params = AHashMap::new();
    params.insert("id".to_string(), "7".to_string());
    let req = build_py_request(&inp, params.clone(), AHashMap::new(), None, true, true, &inp.headers);
    assert_eq!(req.method(), "POST");
    assert_eq!(req.path(), "/x");
    assert_eq!(req.body(), &b"body".to_vec());
    assert_eq!(req.headers.len(), 2);
    assert_eq!(req.cookies.get("s").map(|s| s.as_str()), Some("1"));
    assert_eq!(req.path_params.get("id").map(|s| s.as_str()), Some("7"));
    assert!(req.context().is_none());
    let req = build_py_request(&inp, params, AHashMap::new(), None, false, false, &inp.headers);
    assert!(req.headers.is_empty());
    assert!(req.cookies.is_empty());
}

#[test]
fn tuples_become_simple_responses() {
    let cfg = build_cors_config(strings(&["*"]), false, vec![], vec![], vec![], 60);
    let outcome = HandlerOutcome::Tuple(201, vec![pair("x-a", "1")], b"hi".to_vec());
    match process_handler_result(outcome, flags(false, false, false), None, Some(&cfg)) {
        CoreHandlerResult::Simple(status, headers, body) => {
            assert_eq!(status, 201);
            assert_eq!(headers, vec![pair("x-a", "1"), pair("access-control-allow-origin", "*")]);
            assert_eq!(body, b"hi");
        }
        _ => panic!("expected a simple response"),
    }
    let outcome = HandlerOutcome::Tuple(201, vec![pair("x-a", "1")], b"hi".to_vec());
    match process_handler_result(outcome, flags(false, true, true), None, Some(&cfg)) {
        CoreHandlerResult::Simple(status, headers, body) => {
            assert_eq!(status, 201);
            assert_eq!(headers, vec![pair("x-a", "1")]);
            assert!(body.is_empty());
        }
        _ => panic!("expected a simple response"),
    }
}

#[test]
fn head_answers_like_get_without_body() {
    let cfg = build_cors_config(strings(&["https://a.test"]), false, vec![], vec![], vec![], 60);
    let make = || HandlerOutcome::Tuple(200, vec![pair("content-length", "2")], b"hi".to_vec());
    let get = process_handler_result(make(), flags(false, false, false), Some("https://a.test"), Some(&cfg));
    let head = process_handler_result(make(), flags(false, false, true), Some("https://a.test"), Some(&cfg));
    let (gs, gh, gb) = get.to_tuple();
    let (hs, hh, hb) = head.to_tuple();
    assert_eq!(gs, hs);
    assert_eq!(gh, hh);
    assert_eq!(gb, b"hi");
    assert!(hb.is_empty());
}

#[test]
fn the_file_mark_makes_a_file_response() {
    let outcome = HandlerOutcome::Tuple(
        1000,
        vec![
            pair("X-Bolt-File-Path", "/tmp/first"),
            pair("content-type", "application/pdf"),
            pair("x-bolt-file-path", "/tmp/x.bin"),
        ],
        Vec::new(),
    );
    match process_handler_result(outcome, flags(true, false, true), None, None) {
        CoreHandlerResult::File { path, status, headers, skip_compression, is_head_request } => {
            assert_eq!(path, "/tmp/x.bin");
            assert_eq!(status, 200);
            assert_eq!(headers, vec![pair("content-type", "application/pdf")]);
            assert!(skip_compression && is_head_request);
        }
        _ => panic!("expected a file response"),
    }
}

#[test]
fn streaming_objects_become_streams() {
    let d = StreamingDescriptor {
        status_code: None,
        headers: vec![pair("x-a", "1")],
        media_type: Some("text/event-stream".to_string()),
        is_async_generator: Some(true),
        has_content: true,
    };
    match process_handler_result(HandlerOutcome::Streaming(d), flags(false, false, false), None, None)
    {
        CoreHandlerResult::Streaming { status, headers, is_async_generator, media_type, .. } => {
            assert_eq!(status, 200);
            assert_eq!(headers, vec![pair("x-a", "1"), pair("content-type", "text/event-stream")]);
            assert!(is_async_generator);
            assert_eq!(media_type, "text/event-stream");
        }
        _ => panic!("expected a stream"),
    }
    let d = StreamingDescriptor {
        status_code: Some(206),
        headers: vec![pair("Content-Type", "text/plain")],
        media_type: None,
        is_async_generator: None,
        has_content: true,
    };
    match process_handler_result(HandlerOutcome::Streaming(d), flags(false, false, false), None, None)
    {
        CoreHandlerResult::Streaming { status, headers, is_async_generator, media_type, .. } => {
            assert_eq!(status, 206);
            assert_eq!(headers, vec![pair("Content-Type", "text/plain")]);
            assert!(!is_async_generator);
            assert_eq!(media_type, "application/octet-stream");
        }
        _ => panic!("expected a stream"),
    }
    let d = StreamingDescriptor {
        status_code: None,
        headers: vec![],
        media_type: None,
        is_async_generator: None,
        has_content: false,
    };
    let (status, _, _) =
        process_handler_result(HandlerOutcome::Streaming(d), flags(false, false, false), None, None)
            .to_tuple();
    assert_eq!(status, 500);
}

#[test]
fn unsupported_values_are_errors() {
    match process_handler_result(HandlerOutcome::Unsupported, flags(false, false, false), None, None)
    {
        CoreHandlerResult::Error(reply) => {
            assert_eq!(reply.status, 500);
            assert_eq!(reply.headers, vec![pair("content-type", "application/json")]);
            assert_eq!(
                reply.body,
                br#"{"detail":"Handler returned unsupported response type (expected tuple or StreamingResponse)"}"#
            );
        }
        _ => panic!("expected an error"),
    }
}

#[test]
fn results_as_tuples() {
    let file = CoreHandlerResult::File {
        path: "/x".to_string(),
        status: 200,
        headers: vec![],
        skip_compression: false,
        is_head_request: false,
    };
    assert_eq!(file.to_tuple(), (200, vec![], b"[file content]".to_vec()));
    let stream = CoreHandlerResult::Streaming {
        status: 200,
        headers: vec![],
        is_async_generator: false,
        media_type: String::new(),
        skip_compression: false,
        skip_cors: false,
        is_head_request: false,
    };
    assert_eq!(stream.to_tuple(), (200, vec![], b"[streaming content]".to_vec()));
}

#[test]
fn guards_without_backends() {
    let headers = AHashMap::new();
    assert!(matches!(
        validate_auth_and_guards(&headers, &vec![], &vec![]),
        AuthGuardResult::Allow(None)
    ));
    assert!(matches!(
        validate_auth_and_guards(&headers, &vec![], &vec![Guard::AllowAny]),
        AuthGuardResult::Allow(None)
    ));
    assert!(matches!(
        validate_auth_and_guards(&headers, &vec![], &vec![Guard::IsAuthenticated]),
        AuthGuardResult::Unauthorized
    ));
}

#[test]
fn guards_with_an_api_key() {
    let mut keys = AHashSet::new();
    keys.insert("k1".to_string());
    let backends = vec![AuthBackend::ApiKey { api_keys: keys, header: "X-API-Key".to_string() }];
    let mut headers = AHashMap::new();
    headers.insert("x-api-key".to_string(), "ApiKey k1".to_string());
    match validate_auth_and_guards(&headers, &backends, &vec![Guard::IsAuthenticated]) {
        AuthGuardResult::Allow(Some(ctx)) => {
            assert_eq!(ctx.backend, "api_key");
            assert_eq!(ctx.user_id.as_deref(), Some("apikey:k1"));
        }
        _ => panic!("expected the caller to pass"),
    }
    assert!(matches!(
        validate_auth_and_guards(&headers, &backends, &vec![Guard::IsStaff]),
        AuthGuardResult::Forbidden
    ));
    assert!(matches!(
        validate_auth_and_guards(
            &headers,
            &backends,
            &vec![Guard::HasPermission("x".to_string())]
        ),
        AuthGuardResult::Forbidden
    ));
    headers.insert("x-api-key".to_string(), "wrong".to_string());
    assert!(matches!(
        validate_auth_and_guards(&headers, &backends, &vec![Guard::IsAuthenticated]),
        AuthGuardResult::Unauthorized
    ));
}

#[test]
fn pre_dispatch_answers_unrouted_requests() {
    let mut router = Router::new();
    router.register("GET", "/api", 1).unwrap();
    let metadata = HashMap::new();
    let store = rate_limit_store();
    let deps = RequestDependencies {
        router: &router,
        route_metadata: &metadata,
        global_cors_config: None,
        rate_limits: &store,
        debug: false,
    };
    match process_request_pre_dispatch(&input("GET", "/nope", &[], None), &deps) {
        PreDispatchResult::Error(r) => {
            let (status, headers, body) = r.to_tuple();
            assert_eq!(status, 404);
            assert_eq!(headers, vec![pair("content-type", "text/plain; charset=utf-8")]);
            assert_eq!(body, b"Not Found");
        }
        _ => panic!("expected an answer"),
    }
    match process_request_pre_dispatch(&input("OPTIONS", "/api", &[], None), &deps) {
        PreDispatchResult::Error(r) => {
            let (status, headers, _) = r.to_tuple();
            assert_eq!(status, 204);
            assert_eq!(headers[0], pair("allow", "GET"));
        }
        _ => panic!("expected an answer"),
    }
    match process_request_pre_dispatch(&input("POST", "/api", &[], None), &deps) {
        PreDispatchResult::Error(r) => assert_eq!(r.to_tuple().0, 404),
        _ => panic!("expected an answer"),
    }
}

#[test]
fn pre_dispatch_hands_routed_requests_on() {
    let mut router = Router::new();
    router.register("HEAD", "/items/{id}", 5).unwrap();
    let mut metadata = HashMap::new();
    let mut skip = AHashSet::new();
    skip.insert("compression".to_string());
    metadata.insert(5usize, RouteMetadata { skip, ..Default::default() });
    let store = rate_limit_store();
    let deps = RequestDependencies {
        router: &router,
        route_metadata: &metadata,
        global_cors_config: None,
        rate_limits: &store,
        debug: false,
    };
    match process_request_pre_dispatch(&input("HEAD", "/items/42", &[], Some("a=1&b=%41")), &deps) {
        PreDispatchResult::Ready {
            handler_id,
            path_params,
            query_params,
            auth_ctx,
            route_metadata,
            skip_compression,
            skip_cors,
            is_head_request,
        } => {
            assert_eq!(handler_id, 5);
            assert_eq!(path_params.get("id").map(|s| s.as_str()), Some("42"));
            assert_eq!(query_params.get("a").map(|s| s.as_str()), Some("1"));
            assert_eq!(query_params.get("b").map(|s| s.as_str()), Some("A"));
            assert!(auth_ctx.is_none());
            assert!(route_metadata.is_some());
            assert!(skip_compression && !skip_cors && is_head_request);
        }
        _ => panic!("expected the handler to be called"),
    }
}

#[test]
fn pre_dispatch_applies_guards_and_limits() {
    let mut router = Router::new();
    router.register("GET", "/guarded", 1).unwrap();
    router.register("GET", "/limited", 2).unwrap();
    let mut metadata = HashMap::new();
    metadata.insert(1usize, RouteMetadata { guards: vec![Guard::IsAuthenticated], ..Default::default() });
    metadata.insert(
        2usize,
        RouteMetadata {
            rate_limit_config: Some(RateLimitConfig { rps: 2, burst: 2, key_type: "ip".to_string() }),
            ..Default::default()
        },
    );
    let store = rate_limit_store();
    let deps = RequestDependencies {
        router: &router,
        route_metadata: &metadata,
        global_cors_config: None,
        rate_limits: &store,
        debug: false,
    };
    match process_request_pre_dispatch(&input("GET", "/guarded", &[], None), &deps) {
        PreDispatchResult::Error(r) => assert_eq!(r.to_tuple().0, 401),
        _ => panic!("expected an answer"),
    }
    let mut statuses = Vec::new();
    for _ in 0..4 {
        match process_request_pre_dispatch(&input("GET", "/limited", &[], None), &deps) {
            PreDispatchResult::Ready { .. } => statuses.push(200),
            PreDispatchResult::Error(r) => {
                let (status, headers, _) = r.to_tuple();
                let retry: u64 = headers
                    .iter()
                    .find(|(k, _)| k == "retry-after")
                    .map(|(_, v)| v.parse().unwrap())
                    .unwrap();
                assert!(retry >= 1);
                statuses.push(status);
            }
        }
    }
    assert_eq!(statuses, vec![200, 200, 429, 429]);
}

#[test]
fn typed_path_parameters_end_to_end() {
    let mut router = Router::new();
    router.register("GET", "/items/{id}", 1).unwrap();
    let mut metadata = HashMap::new();
    let mut param_types = AHashMap::new();
    param_types.insert("id".to_string(), bolt_core::type_coercion::TYPE_INT);
    metadata.insert(1usize, RouteMetadata { param_types, ..Default::default() });
    let store = rate_limit_store();
    let deps = RequestDependencies {
        router: &router,
        route_metadata: &metadata,
        global_cors_config: None,
        rate_limits: &store,
        debug: false,
    };
    for (path, expected) in [("/items/42", Ok(42i64)), ("/items/abc", Err(422u16))] {
        match process_request_pre_dispatch(&input("GET", path, &[], None), &deps) {
            PreDispatchResult::Ready { handler_id, path_params, query_params, route_metadata, .. } => {
                assert_eq!(handler_id, 1);
                let types = &route_metadata.unwrap().param_types;
                let checked = bolt_core::request_pipeline::validate_and_cache_typed_params(
                    &path_params,
                    &query_params,
                    types,
                );
                match (checked, expected) {
                    (Ok((path, _)), Ok(id)) => {
                        assert!(matches!(
                            path.get("id"),
                            Some(bolt_core::type_coercion::CoercedValue::Int(v)) if *v == id
                        ));
                    }
                    (Err(reply), Err(status)) => {
                        assert_eq!(reply.status, status);
                        let body = String::from_utf8(reply.body).unwrap();
                        assert!(body.contains("'id'"));
                        assert!(body.contains("Invalid integer 'abc'"));
                    }
                    _ => panic!("unexpected outcome for {}", path),
                }
            }
            _ => panic!("expected the handler to be called"),
        }
    }
}

#[test]
fn a_large_file_is_streamed_and_head_has_the_same_headers() {
    let mut router = Router::new();
    router.register("GET", "/files/{p:path}", 1).unwrap();
    router.register("HEAD", "/files/{p:path}", 1).unwrap();
    let size: u64 = 15 * 1024 * 1024;
    let mut seen = Vec::new();
    for method in ["GET", "HEAD"] {
        let found = router.find(method, "/files/a/x.bin").unwrap();
        assert_eq!(found.path_params.get("p").map(|s| s.as_str()), Some("a/x.bin"));
        let outcome = HandlerOutcome::Tuple(
            200,
            vec![pair("content-type", "application/x-thing"), pair("x-bolt-file-path", "/tmp/x.bin")],
            Vec::new(),
        );
        match process_handler_result(outcome, flags(false, false, method == "HEAD"), None, None) {
            CoreHandlerResult::File { path, status, headers, skip_compression, is_head_request } => {
                assert_eq!(path, "/tmp/x.bin");
                let plan = bolt_core::handler::plan_file_delivery(size, is_head_request);
                let reply = bolt_core::handler::build_file_response(
                    status,
                    headers,
                    skip_compression,
                    is_head_request,
                    size,
                    Vec::new(),
                );
                seen.push((plan, reply.status, reply.headers, reply.body));
            }
            _ => panic!("expected a file response"),
        }
    }
    assert_eq!(seen[0].0, bolt_core::handler::FileDelivery::Chunked);
    assert_eq!(seen[1].0, bolt_core::handler::FileDelivery::Omitted);
    assert_eq!(seen[0].1, 200);
    assert_eq!(seen[0].1, seen[1].1);
    assert_eq!(seen[0].2, seen[1].2);
    assert_eq!(
        seen[1].2,
        vec![pair("content-type", "application/x-thing"), pair("content-length", "15728640")]
    );
    assert!(seen[1].3.is_empty());
}
