use ahash::{AHashMap, AHashSet};
use bolt_core::fast_dispatch::{
    fast_dispatch_full, fast_dispatch_sync, fast_inject_path_only, fast_inject_query_only,
    fast_inject_simple, fast_serialize_json, ArgSource, CallStrategy, DispatchInfo,
    DispatchMode, FastResult, MissingParam, ParamPlan,
};
use bolt_core::headers::{
    header_append, header_get, header_index, header_insert, header_remove, is_header_text,
};
use bolt_core::logging::{log_response, LogConfig, LogLevel};
use bolt_core::metadata::RateLimitConfig;
use bolt_core::middleware::auth::{
    api_key_context, authenticate, check_api_key_auth, check_auth, check_jwt_auth,
    choose_algorithm, extract_api_key, extract_bearer, jwt_outcome, parse_algorithm,
    AuthBackend, AuthConfig, JwtAlgorithm,
};
use bolt_core::middleware::rate_limit::{
    check_rate_limit, get_rate_limit_body, rate_limit_key, rate_limit_reply, rate_limit_store,
};
use bolt_core::numbers::{
    decimal_of, hexadecimal_of, read_i64, read_unsigned, signed_decimal_of, two_digits_of,
};
use bolt_core::permissions::{evaluate_guards, Guard, GuardResult};
use bolt_core::request::{parse_field, PyRequest, RequestField, RequestValue};
use bolt_core::state::{get_max_sync_streaming_threads, resolve_setting};
use bolt_core::streaming::{admit_sync_stream, is_event_stream, plan_batch, BatchSizer};
use bolt_core::text::{
    chars_of, contains_sub, ends_with, find_char, join_strings, lowercase, rfind_char,
    same_ignoring_case, split, starts_with, string_of, trim,
};

fn headers(items: &[(&str, &str)]) -> AHashMap<String, String> {
    items.iter().map(|(k, v)| (k.to_string(), v.to_string())).collect()
}

fn pair(k: &str, v: &str) -> (String, String) {
    (k.to_string(), v.to_string())
}

fn chars(s: &str) -> Vec<char> {
    s.chars().collect()
}

fn plan(name: &str, source: u8, has_default: bool) -> ParamPlan {
    ParamPlan { name: name.to_string(), source, has_default }
}

#[test]
fn four_requests_against_a_limit_of_two() {
    let store = rate_limit_store();
    let config = RateLimitConfig { rps: 2, burst: 2, key_type: "ip".to_string() };
    let h = headers(&[]);
    let mut statuses = Vec::new();
    for _ in 0..4 {
        match check_rate_limit(&store, 1, &h, Some("10.0.0.1"), &config) {
            None => statuses.push(200),
            Some(reply) => {
                let retry: u64 = reply.headers[0].1.parse().unwrap();
                assert_eq!(reply.headers[0].0, "retry-after");
                assert!(retry >= 1);
                assert_eq!(reply.headers[1], pair("x-ratelimit-limit", "2"));
                assert_eq!(reply.headers[2], pair("x-ratelimit-burst", "2"));
                statuses.push(reply.status);
            }
        }
    }
    assert_eq!(statuses, vec![200, 200, 429, 429]);
    assert!(check_rate_limit(&store, 1, &h, Some("10.0.0.2"), &config).is_none());
    assert!(check_rate_limit(&store, 2, &h, Some("10.0.0.1"), &config).is_none());
    let zero = RateLimitConfig { rps: 0, burst: 0, key_type: "ip".to_string() };
    assert!(check_rate_limit(&store, 3, &h, None, &zero).is_none());
    assert!(check_rate_limit(&store, 3, &h, None, &zero).is_some());
}

#[test]
fn bucket_keys() {
    let h = headers(&[("x-forwarded-for", " 1.1.1.1 , 2.2.2.2"), ("x-real-ip", "3.3.3.3")]);
    assert_eq!(rate_limit_key(&h, Some("9.9.9.9"), "ip"), "1.1.1.1");
    let h = headers(&[("x-real-ip", "3.3.3.3"), ("remote-addr", "4.4.4.4")]);
    assert_eq!(rate_limit_key(&h, Some("9.9.9.9"), "ip"), "3.3.3.3");
    let h = headers(&[("remote-addr", "4.4.4.4,5")]);
    assert_eq!(rate_limit_key(&h, Some("9.9.9.9"), "ip"), "4.4.4.4");
    let h = headers(&[("x-api-key", "k")]);
    assert_eq!(rate_limit_key(&h, Some("9.9.9.9"), "ip"), "9.9.9.9");
    assert_eq!(rate_limit_key(&h, None, "ip"), "unknown");
    assert_eq!(rate_limit_key(&h, None, "X-API-Key"), "k");
    assert_eq!(rate_limit_key(&h, Some("9.9.9.9"), "x-other"), "unknown");
    let h = headers(&[("x-forwarded-for", "")]);
    assert_eq!(rate_limit_key(&h, Some("9.9.9.9"), "ip"), "");
}

#[test]
fn the_answer_over_the_limit() {
    let r = rate_limit_reply(0, 5, 10);
    assert_eq!(r.status, 429);
    assert_eq!(r.headers[0], pair("retry-after", "1"));
    assert_eq!(
        String::from_utf8(r.body).unwrap(),
        r#"{"detail":"Rate limit exceeded. Try again in 1 seconds.","retry_after":1}"#
    );
    let r = rate_limit_reply(30, 5, 10);
    assert_eq!(r.headers[0], pair("retry-after", "30"));
    assert_eq!(
        String::from_utf8(get_rate_limit_body(30)).unwrap(),
        r#"{"detail":"Rate limit exceeded. Try again in 30 seconds.","retry_after":30}"#
    );
}

#[test]
fn tokens_are_taken_from_the_header() {
    assert_eq!(extract_bearer("Bearer abc"), "abc");
    assert_eq!(extract_bearer("bearer abc"), "bearer abc");
    assert_eq!(extract_bearer("Bearer"), "Bearer");
    assert_eq!(extract_bearer("Bearer "), "");
    assert_eq!(extract_api_key("ApiKey k"), "k");
    assert_eq!(extract_api_key("Bearer k"), "k");
    assert_eq!(extract_api_key("k"), "k");
    assert_eq!(parse_algorithm("RS512"), JwtAlgorithm::RS512);
    assert_eq!(parse_algorithm("ES384"), JwtAlgorithm::ES384);
    assert_eq!(parse_algorithm("none"), JwtAlgorithm::HS256);
    assert_eq!(choose_algorithm(&vec![]), JwtAlgorithm::HS256);
    assert_eq!(choose_algorithm(&vec!["HS384".to_string(), "RS256".to_string()]), JwtAlgorithm::HS384);
}

#[test]
fn api_keys_are_checked_against_the_set() {
    let mut keys = AHashSet::new();
    keys.insert("k1".to_string());
    let keys = Some(keys);
    let r = check_api_key_auth(None, &keys).unwrap();
    assert_eq!((r.status, r.scheme.as_deref(), r.detail.as_str()), (401, Some("ApiKey"), "Missing API key"));
    let r = check_api_key_auth(Some(&"nope".to_string()), &keys).unwrap();
    assert_eq!((r.status, r.detail.as_str()), (401, "Invalid API key"));
    assert!(check_api_key_auth(Some(&"ApiKey k1".to_string()), &keys).is_none());
    assert!(check_api_key_auth(Some(&"anything".to_string()), &None).is_none());
    assert!(check_api_key_auth(Some(&"anything".to_string()), &Some(AHashSet::new())).is_none());
}

fn hs256_token(claims: &str, secret: &str) -> String {
    let header = jsonwebtoken::Header::new(jsonwebtoken::Algorithm::HS256);
    let value: serde_json::Value = serde_json::from_str(claims).unwrap();
    jsonwebtoken::encode(&header, &value, &jsonwebtoken::EncodingKey::from_secret(secret.as_bytes()))
        .unwrap()
}

#[test]
fn tokens_are_verified() {
    let secret = Some("s3cret".to_string());
    let r = check_jwt_auth(None, &secret, &None).unwrap();
    assert_eq!(
        (r.status, r.scheme.as_deref(), r.detail.as_str()),
        (401, Some("Bearer"), "Missing authorization header")
    );
    let r = check_jwt_auth(Some(&"Bearer x".to_string()), &None, &None).unwrap();
    assert_eq!((r.status, r.scheme), (500, None));
    let r = check_jwt_auth(Some(&"Bearer x".to_string()), &Some(String::new()), &None).unwrap();
    assert_eq!(r.status, 500);
    let good = hs256_token(r#"{"sub":"u1","exp":4102444800}"#, "s3cret");
    assert!(check_jwt_auth(Some(&format!("Bearer {}", good)), &secret, &None).is_none());
    assert!(check_jwt_auth(Some(&good), &secret, &Some(vec!["HS256".to_string()])).is_none());
    let r = check_jwt_auth(Some(&format!("Bearer {}", good)), &Some("other".to_string()), &None).unwrap();
    assert_eq!((r.status, r.scheme.as_deref()), (401, Some("Bearer")));
    assert!(r.detail.starts_with("Invalid JWT token: "));
    let expired = hs256_token(r#"{"sub":"u1","exp":1000}"#, "s3cret");
    assert!(check_jwt_auth(Some(&expired), &secret, &None).is_some());
    let r = jwt_outcome(Some("bad".to_string())).unwrap();
    assert_eq!((r.status, r.detail.as_str()), (401, "Invalid JWT token: bad"));
    assert!(jwt_outcome(None).is_none());
}

#[test]
fn the_mode_selects_the_check() {
    let mut keys = AHashSet::new();
    keys.insert("k1".to_string());
    let config = AuthConfig {
        mode: Some("api_key".to_string()),
        header: Some("X-API-Key".to_string()),
        secret: None,
        algorithms: None,
        api_keys: Some(keys),
    };
    assert!(check_auth(&headers(&[("x-api-key", "k1")]), &config).is_none());
    assert_eq!(check_auth(&headers(&[("x-api-key", "k2")]), &config).unwrap().status, 401);
    assert_eq!(check_auth(&headers(&[("authorization", "k1")]), &config).unwrap().detail, "Missing API key");
    let other = AuthConfig { mode: Some("session".to_string()), header: None, secret: None, algorithms: None, api_keys: None };
    assert!(check_auth(&headers(&[]), &other).is_none());
    let jwt = AuthConfig { mode: None, header: None, secret: Some("s".to_string()), algorithms: None, api_keys: None };
    assert_eq!(check_auth(&headers(&[]), &jwt).unwrap().detail, "Missing authorization header");
    let token = hs256_token(r#"{"exp":4102444800}"#, "s");
    assert!(check_auth(&headers(&[("authorization", &format!("Bearer {}", token))]), &jwt).is_none());
}

#[test]
fn the_first_backend_that_succeeds_wins() {
    let mut keys = AHashSet::new();
    keys.insert("k1".to_string());
    let backends = vec![
        AuthBackend::Jwt { secret: "s".to_string(), algorithms: vec![], header: "Authorization".to_string() },
        AuthBackend::ApiKey { api_keys: keys, header: "x-api-key".to_string() },
    ];
    assert!(authenticate(&headers(&[]), &backends).is_none());
    assert!(authenticate(&headers(&[]), &vec![]).is_none());
    let ctx = authenticate(&headers(&[("authorization", "garbage"), ("x-api-key", "k1")]), &backends).unwrap();
    assert_eq!(ctx.backend, "api_key");
    assert!(!ctx.is_staff && !ctx.is_admin && ctx.permissions.is_empty() && ctx.claims.is_none());
    let token = hs256_token(
        r#"{"sub":"u7","exp":4102444800,"is_staff":true,"is_superuser":false,"permissions":["a.view",3,"a.add"]}"#,
        "s",
    );
    let ctx = authenticate(
        &headers(&[("authorization", &format!("Bearer {}", token)), ("x-api-key", "k1")]),
        &backends,
    )
    .unwrap();
    assert_eq!(ctx.backend, "jwt");
    assert_eq!(ctx.user_id.as_deref(), Some("u7"));
    assert!(ctx.is_staff && !ctx.is_admin);
    assert_eq!(ctx.permissions, vec!["a.view", "a.add"]);
    assert_eq!(ctx.claims.as_ref().unwrap()["sub"], "u7");
    assert_eq!(api_key_context("k").user_id.as_deref(), Some("apikey:k"));
}

#[test]
fn guards_are_asked_in_order() {
    let mut ctx = api_key_context("k");
    ctx.permissions = vec!["a.view".to_string(), "a.add".to_string()];
    ctx.is_staff = true;
    let p = |s: &str| s.to_string();
    assert_eq!(evaluate_guards(&vec![], None), GuardResult::Allow);
    assert_eq!(evaluate_guards(&vec![Guard::AllowAny], None), GuardResult::Allow);
    assert_eq!(evaluate_guards(&vec![Guard::AllowAny, Guard::IsStaff], None), GuardResult::Unauthorized);
    assert_eq!(evaluate_guards(&vec![Guard::IsStaff, Guard::IsAdmin], Some(&ctx)), GuardResult::Forbidden);
    assert_eq!(evaluate_guards(&vec![Guard::IsAuthenticated, Guard::IsStaff], Some(&ctx)), GuardResult::Allow);
    assert_eq!(evaluate_guards(&vec![Guard::HasPermission(p("a.view"))], Some(&ctx)), GuardResult::Allow);
    assert_eq!(evaluate_guards(&vec![Guard::HasPermission(p("a.del"))], Some(&ctx)), GuardResult::Forbidden);
    assert_eq!(evaluate_guards(&vec![Guard::HasPermission(p("a.view"))], None), GuardResult::Unauthorized);
    assert_eq!(
        evaluate_guards(&vec![Guard::HasAnyPermission(vec![p("x"), p("a.add")])], Some(&ctx)),
        GuardResult::Allow
    );
    assert_eq!(evaluate_guards(&vec![Guard::HasAnyPermission(vec![])], Some(&ctx)), GuardResult::Forbidden);
    assert_eq!(
        evaluate_guards(&vec![Guard::HasAllPermissions(vec![p("a.view"), p("a.add")])], Some(&ctx)),
        GuardResult::Allow
    );
    assert_eq!(
        evaluate_guards(&vec![Guard::HasAllPermissions(vec![p("a.view"), p("x")])], Some(&ctx)),
        GuardResult::Forbidden
    );
    assert_eq!(evaluate_guards(&vec![Guard::HasAllPermissions(vec![])], Some(&ctx)), GuardResult::Allow);
}

#[test]
fn responses_are_logged_by_level() {
    let config = LogConfig::new("info", vec!["/health".to_string()], Some(100));
    assert_eq!(log_response("/a", 200, 150, false, &config), Some(LogLevel::Info));
    assert_eq!(log_response("/a", 200, 99, false, &config), None);
    assert_eq!(log_response("/a", 200, 100, false, &config), Some(LogLevel::Info));
    assert_eq!(log_response("/a", 302, 150, true, &config), None);
    assert_eq!(log_response("/a", 404, 1, true, &config), Some(LogLevel::Warning));
    assert_eq!(log_response("/a", 500, 1, true, &config), Some(LogLevel::Error));
    assert_eq!(log_response("/a", 600, 1, true, &config), Some(LogLevel::Info));
    assert_eq!(log_response("/health", 500, 1, false, &config), None);
    assert!(config.is_enabled(3) && !config.is_enabled(4));
    assert!(config.should_log_path("/a") && !config.should_log_path("/health"));
    let warn = LogConfig::new("WARN", vec![], None);
    assert_eq!(log_response("/a", 200, 1, false, &warn), None);
    assert_eq!(log_response("/a", 404, 1, false, &warn), Some(LogLevel::Warning));
    let error = LogConfig::new("Error", vec![], None);
    assert_eq!(log_response("/a", 404, 1, false, &error), None);
    assert_eq!(log_response("/a", 503, 1, false, &error), Some(LogLevel::Error));
    let off = LogConfig::new("quiet", vec![], None);
    assert_eq!(log_response("/a", 500, 1, false, &off), None);
    assert!(LogConfig::new("debug", vec![], None).is_enabled(4));
    assert!(LogConfig::new("warning", vec![], None).is_enabled(2));
}

#[test]
fn dispatch_information() {
    let info = DispatchInfo::new(7, 0, true, false, 201, false, false, false, true, false, None);
    assert_eq!(info.handler_id(), 7);
    assert_eq!(info.mode, DispatchMode::RequestOnly);
    assert_eq!(info.mode_int(), 0);
    assert!(!info.use_fast_inject);
    assert_eq!(fast_dispatch_full(&info), (CallStrategy::WithRequest, 201));
    let info = DispatchInfo::new(7, 5, true, false, 200, false, false, false, true, false, Some(vec![plan("id", 0, false)]));
    assert_eq!(info.mode_int(), 1);
    assert!(info.use_fast_inject);
    assert_eq!(fast_dispatch_sync(&info), (CallStrategy::FastInject, 200));
    let info = DispatchInfo::new(7, 1, true, false, 200, false, false, false, true, false, Some(vec![]));
    assert_eq!(info.strategy(), CallStrategy::Injector);
    let info = DispatchInfo::new(7, 1, true, false, 200, false, false, false, false, false, None);
    assert_eq!(info.strategy(), CallStrategy::Bare);
    assert_eq!(fast_serialize_json(true, 204), FastResult::Json(204));
    assert_eq!(fast_serialize_json(false, 204), FastResult::Fallback);
}

#[test]
fn arguments_are_drawn_by_plan() {
    let path = headers(&[("id", "1")]);
    let query = headers(&[("q", "x")]);
    let plans = vec![plan("id", 0, false), plan("q", 1, false), plan("page", 1, true), plan("id", 2, true)];
    assert_eq!(
        fast_inject_simple(&path, &query, &plans).unwrap(),
        vec![ArgSource::Path, ArgSource::Query, ArgSource::Default, ArgSource::Default]
    );
    assert!(matches!(
        fast_inject_simple(&path, &query, &vec![plan("id", 0, false), plan("slug", 0, true), plan("z", 1, false)]),
        Err(MissingParam::Path(n)) if n == "slug"
    ));
    assert!(matches!(
        fast_inject_simple(&path, &query, &vec![plan("z", 1, false)]),
        Err(MissingParam::Query(n)) if n == "z"
    ));
    assert_eq!(fast_inject_path_only(&path, &vec!["id".to_string()]), None);
    assert_eq!(
        fast_inject_path_only(&path, &vec!["id".to_string(), "a".to_string(), "b".to_string()]).as_deref(),
        Some("a")
    );
    assert_eq!(
        fast_inject_query_only(&query, &vec!["q".to_string(), "r".to_string()]),
        vec![ArgSource::Query, ArgSource::Default]
    );
}

#[test]
fn the_batch_size_adapts() {
    let mut sizer = BatchSizer::new(8, 2, 20);
    assert_eq!(sizer.size(), 8);
    sizer.record(8);
    assert_eq!(sizer.size(), 16);
    sizer.record(16);
    assert_eq!(sizer.size(), 20);
    sizer.record(25);
    assert_eq!(sizer.size(), 20);
    sizer.record(19);
    sizer.record(0);
    assert_eq!(sizer.size(), 20);
    sizer.record(5);
    assert_eq!(sizer.size(), 10);
    sizer.record(1);
    sizer.record(1);
    sizer.record(10);
    assert_eq!(sizer.size(), 20);
    for _ in 0..12 {
        sizer.record(0);
    }
    assert_eq!(sizer.size(), 2);
    for _ in 0..3 {
        sizer.record(0);
    }
    assert_eq!(sizer.size(), 2);
    assert_eq!(BatchSizer::new(0, 0, 0).size(), 1);
    assert_eq!(BatchSizer::new(50, 5, 3).size(), 5);
    assert_eq!(BatchSizer::new(50, 1, 32).size(), 32);
    let mut top = BatchSizer::new(usize::MAX - 1, 1, usize::MAX);
    top.record(usize::MAX);
    assert_eq!(top.size(), usize::MAX);
    assert!(admit_sync_stream(999, 1000));
    assert!(!admit_sync_stream(1000, 1000));
    assert!(!admit_sync_stream(0, 0));
    assert!(is_event_stream("text/event-stream"));
    assert!(!is_event_stream("text/event-stream; charset=utf-8"));
}

#[test]
fn numeric_settings() {
    assert_eq!(get_max_sync_streaming_threads(None, None), 1000);
    assert_eq!(get_max_sync_streaming_threads(Some("64"), Some(5)), 64);
    assert_eq!(get_max_sync_streaming_threads(Some("0"), Some(5)), 5);
    assert_eq!(get_max_sync_streaming_threads(Some("many"), Some(0)), 1000);
    assert_eq!(get_max_sync_streaming_threads(Some(" 64"), None), 1000);
    assert_eq!(resolve_setting(Some("3"), Some(9), 4, 7), 9);
    assert_eq!(resolve_setting(Some("3"), Some(2), 4, 7), 7);
    assert_eq!(resolve_setting(Some("4"), None, 4, 7), 4);
}

#[test]
fn requests_are_indexed_by_name() {
    let req = PyRequest {
        method: "GET".to_string(),
        path: "/p".to_string(),
        body: vec![1],
        path_params: headers(&[("a", "1")]),
        query_params: headers(&[]),
        headers: headers(&[("h", "v")]),
        cookies: headers(&[]),
        context: None,
    };
    assert_eq!(req.get("auth"), Some(RequestField::Context));
    assert_eq!(req.get("context"), Some(RequestField::Context));
    assert_eq!(req.get("nothing"), None);
    assert_eq!(req.get_item("params"), Ok(RequestField::Params));
    assert_eq!(req.get_item("auth"), Err("auth".to_string()));
    assert_eq!(parse_field("query"), Some(RequestField::Query));
    assert_eq!(parse_field("cookies"), Some(RequestField::Cookies));
    assert_eq!(parse_field("Method"), None);
    assert!(matches!(req.field(RequestField::Method), RequestValue::Text("GET")));
    assert!(matches!(req.field(RequestField::Path), RequestValue::Text("/p")));
    assert!(matches!(req.field(RequestField::Body), RequestValue::Bytes(b) if b == &vec![1]));
    assert!(matches!(req.field(RequestField::Params), RequestValue::Table(m) if m.len() == 1));
    assert!(matches!(req.field(RequestField::Headers), RequestValue::Table(m) if m.contains_key("h")));
    assert!(matches!(req.field(RequestField::Context), RequestValue::Context(None)));
}

#[test]
fn header_lists() {
    let mut h = vec![pair("A", "1"), pair("b", "2"), pair("a", "3")];
    assert_eq!(header_index(&h, "a"), Some(0));
    assert_eq!(header_get(&h, "B").map(|s| s.as_str()), Some("2"));
    assert_eq!(header_get(&h, "c"), None);
    header_append(&mut h, "b", "4");
    assert_eq!(h.len(), 4);
    header_insert(&mut h, "a", "5");
    assert_eq!(h, vec![pair("b", "2"), pair("b", "4"), pair("a", "5")]);
    header_remove(&mut h, "B");
    assert_eq!(h, vec![pair("a", "5")]);
    header_remove(&mut h, "zzz");
    assert_eq!(h, vec![pair("a", "5")]);
    assert!(is_header_text("plain\ttext"));
    assert!(!is_header_text("caf\u{e9}"));
    assert!(!is_header_text("a\nb"));
}

#[test]
fn text_helpers() {
    assert_eq!(chars_of("h\u{e9}llo"), chars("h\u{e9}llo"));
    assert_eq!(string_of(&chars("ab")), "ab");
    assert_eq!(lowercase(&chars("AbC-\u{c9}Z")), chars("abc-\u{c9}z"));
    assert!(same_ignoring_case(&chars("Content-Type"), &chars("content-type")));
    assert!(!same_ignoring_case(&chars("a"), &chars("ab")));
    assert_eq!(find_char(&chars("a=b=c"), '='), Some(1));
    assert_eq!(rfind_char(&chars("a=b=c"), '='), Some(3));
    assert_eq!(find_char(&chars("abc"), '='), None);
    assert_eq!(rfind_char(&chars(""), '='), None);
    assert!(starts_with(&chars("Bearer x"), &chars("Bearer ")));
    assert!(!starts_with(&chars("Bear"), &chars("Bearer ")));
    assert!(starts_with(&chars("x"), &chars("")));
    assert!(ends_with(&chars("2024Z"), &chars("Z")));
    assert!(!ends_with(&chars(""), &chars("Z")));
    assert!(contains_sub(&chars("keep-alive, upgrade"), &chars("upgrade")));
    assert!(contains_sub(&chars("abc"), &chars("")));
    assert!(!contains_sub(&chars("upgrad"), &chars("upgrade")));
    assert_eq!(split(&chars("a,,b,"), ','), vec![chars("a"), chars(""), chars("b"), chars("")]);
    assert_eq!(split(&chars(""), ','), vec![chars("")]);
    assert_eq!(trim(&chars(" \t a b \u{a0}\n")), chars("a b"));
    assert_eq!(trim(&chars(" \u{3000} ")), chars(""));
    assert_eq!(trim(&chars("")), chars(""));
    assert_eq!(join_strings(&vec!["a".to_string(), "b".to_string(), "c".to_string()], ", "), "a, b, c");
    assert_eq!(join_strings(&vec!["a".to_string()], ", "), "a");
    assert_eq!(join_strings(&vec![], ", "), "");
}

#[test]
fn numerals() {
    assert_eq!(decimal_of(0), chars("0"));
    assert_eq!(decimal_of(u64::MAX), chars("18446744073709551615"));
    assert_eq!(hexadecimal_of(0), chars("0"));
    assert_eq!(hexadecimal_of(255), chars("ff"));
    assert_eq!(hexadecimal_of(4096), chars("1000"));
    assert_eq!(two_digits_of(7), chars("07"));
    assert_eq!(two_digits_of(59), chars("59"));
    assert_eq!(signed_decimal_of(-1), chars("-1"));
    assert_eq!(signed_decimal_of(i64::MIN), chars("-9223372036854775808"));
    assert_eq!(read_i64(&chars("+12")), Some(12));
    assert_eq!(read_i64(&chars("-12")), Some(-12));
    assert_eq!(read_i64(&chars("")), None);
    assert_eq!(read_unsigned(&chars("65535"), 65535), Some(65535));
    assert_eq!(read_unsigned(&chars("65536"), 65535), None);
    assert_eq!(read_unsigned(&chars("-1"), 65535), None);
    assert_eq!(read_unsigned(&chars("+0"), 0), Some(0));
    assert_eq!(read_unsigned(&chars("99999999999999999999999999"), u64::MAX), None);
}

#[test]
fn chunks_are_sent_in_the_order_of_the_source() {
    let chunk = |n: u8| Some(vec![n, n]);
    let (sent, done) = plan_batch(vec![chunk(1), chunk(2), chunk(3)], 3);
    assert_eq!(sent, vec![vec![1, 1], vec![2, 2], vec![3, 3]]);
    assert!(!done);
    let (sent, done) = plan_batch(vec![chunk(1), chunk(2)], 3);
    assert_eq!(sent, vec![vec![1, 1], vec![2, 2]]);
    assert!(done);
    let (sent, done) = plan_batch(vec![chunk(1), None, chunk(3)], 3);
    assert_eq!(sent, vec![vec![1, 1]]);
    assert!(done);
    let (sent, done) = plan_batch(vec![], 0);
    assert!(sent.is_empty() && !done);
    let (sent, done) = plan_batch(vec![None], 1);
    assert!(sent.is_empty() && done);
    // However the items are cut into batches, the client sees them in order.
    let source: Vec<u8> = (0..23).collect();
    for size in 1..8usize {
        let mut seen = Vec::new();
        let mut rest = source.as_slice();
        loop {
            let take = rest.len().min(size);
            let mut items: Vec<Option<Vec<u8>>> = rest[..take].iter().map(|b| Some(vec![*b])).collect();
            if take < size {
                items.push(None);
            }
            rest = &rest[take..];
            let (sent, done) = plan_batch(items, size);
            seen.extend(sent.into_iter().flatten());
            if done {
                break;
            }
        }
        assert_eq!(seen, source);
    }
}

#[test]
fn a_bucket_is_made_with_at_least_one_token() {
    let config = |rps: u32, burst: u32| RateLimitConfig { rps, burst, key_type: "ip".to_string() };
    assert_eq!(bolt_core::middleware::rate_limit::bucket_rates(&config(5, 9)), (5, 9));
    assert_eq!(bolt_core::middleware::rate_limit::bucket_rates(&config(0, 3)), (1, 3));
    assert_eq!(bolt_core::middleware::rate_limit::bucket_rates(&config(7, 0)), (7, 1));
    assert_eq!(bolt_core::middleware::rate_limit::bucket_rates(&config(0, 0)), (1, 1));
}

#[test]
fn a_rate_limit_is_assembled_with_defaults() {
    let c = bolt_core::metadata::rate_limit_config_from_parts(None, None, None);
    assert_eq!((c.rps, c.burst, c.key_type.as_str()), (100, 200, "ip"));
    let c = bolt_core::metadata::rate_limit_config_from_parts(Some(7), None, Some("x-key".to_string()));
    assert_eq!((c.rps, c.burst, c.key_type.as_str()), (7, 14, "x-key"));
    let c = bolt_core::metadata::rate_limit_config_from_parts(Some(7), Some(3), None);
    assert_eq!((c.rps, c.burst), (7, 3));
    let c = bolt_core::metadata::rate_limit_config_from_parts(Some(u32::MAX), None, None);
    assert_eq!(c.burst, u32::MAX);
    let c = bolt_core::metadata::rate_limit_config_from_parts(Some(0), None, None);
    assert_eq!((c.rps, c.burst), (0, 0));
}
