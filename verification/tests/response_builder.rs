use bolt_core::response_builder::{
    build_rate_limit_response, build_response_from_meta, build_response_with_headers,
    build_sse_response, extract_file_path_from_meta, is_header_name, is_header_value,
    meta_to_headers, meta_to_headers_without_file_path, strip_file_mark,
};
use bolt_core::response_meta::{CookieData, ResponseMeta, ResponseType};

fn pair(k: &str, v: &str) -> (String, String) {
    (k.to_string(), v.to_string())
}

fn cookie(name: &str, value: &str) -> CookieData {
    CookieData {
        name: name.to_string(),
        value: value.to_string(),
        path: "/".to_string(),
        max_age: None,
        expires: None,
        domain: None,
        secure: false,
        httponly: false,
        samesite: None,
    }
}

#[test]
fn test_build_response_with_headers() {
    let headers = vec![
        ("content-type".to_string(), "application/json".to_string()),
        ("x-custom".to_string(), "value".to_string()),
    ];

    let response = build_response_with_headers(200, headers, false, b"test".to_vec());

    assert_eq!(response.status, 200);
}

#[test]
fn test_build_rate_limit_response() {
    let response = build_rate_limit_response(60, 100, 200, b"{}".to_vec());
    assert_eq!(response.status, 429);
}

#[test]
fn test_build_response_from_meta_json() {
    let meta = ResponseMeta {
        response_type: ResponseType::Json,
        custom_content_type: None,
        custom_headers: None,
        cookies: None,
    };
    let response = build_response_from_meta(200, meta, b"{}".to_vec(), false);
    assert_eq!(response.status, 200);
}

#[test]
fn test_build_response_from_meta_with_custom_content_type() {
    let meta = ResponseMeta {
        response_type: ResponseType::Json,
        custom_content_type: Some("application/vnd.api+json".to_string()),
        custom_headers: None,
        cookies: None,
    };
    let response = build_response_from_meta(200, meta, b"{}".to_vec(), false);
    assert_eq!(response.status, 200);
}

#[test]
fn test_build_response_from_meta_with_headers() {
    let meta = ResponseMeta {
        response_type: ResponseType::Json,
        custom_content_type: None,
        custom_headers: Some(vec![
            ("X-Custom".to_string(), "value".to_string()),
            ("X-Another".to_string(), "test".to_string()),
        ]),
        cookies: None,
    };
    let response = build_response_from_meta(200, meta, b"{}".to_vec(), false);
    assert_eq!(response.status, 200);
}

#[test]
fn test_build_response_from_meta_with_cookies() {
    let meta = ResponseMeta {
        response_type: ResponseType::Json,
        custom_content_type: None,
        custom_headers: None,
        cookies: Some(vec![CookieData {
            name: "session".to_string(),
            value: "abc123".to_string(),
            path: "/".to_string(),
            max_age: Some(3600),
            expires: None,
            domain: None,
            secure: true,
            httponly: true,
            samesite: Some("Lax".to_string()),
        }]),
    };
    let response = build_response_from_meta(200, meta, b"{}".to_vec(), false);
    assert_eq!(response.status, 200);
}

#[test]
fn test_build_response_from_meta_html() {
    let meta = ResponseMeta {
        response_type: ResponseType::Html,
        custom_content_type: None,
        custom_headers: None,
        cookies: None,
    };
    let response = build_response_from_meta(200, meta, b"<html></html>".to_vec(), false);
    assert_eq!(response.status, 200);
}

#[test]
fn test_build_response_from_meta_plaintext() {
    let meta = ResponseMeta {
        response_type: ResponseType::PlainText,
        custom_content_type: None,
        custom_headers: None,
        cookies: None,
    };
    let response = build_response_from_meta(200, meta, b"Hello, World!".to_vec(), false);
    assert_eq!(response.status, 200);
}

#[test]
fn headers_that_cannot_be_sent_are_left_out() {
    let headers = vec![
        pair("Content-Type", "text/plain"),
        pair("bad name", "x"),
        pair("x-bad-value", "a\nb"),
        pair("", "empty"),
        pair("x-ok", "caf\u{e9}\t!"),
        pair("Content-Encoding", "gzip"),
    ];
    let r = build_response_with_headers(201, headers, true, b"t".to_vec());
    assert_eq!(r.status, 201);
    assert_eq!(r.body, b"t");
    assert_eq!(
        r.headers,
        vec![
            pair("content-type", "text/plain"),
            pair("x-ok", "caf\u{e9}\t!"),
            pair("content-encoding", "identity"),
        ]
    );
}

#[test]
fn header_names_and_values() {
    assert!(is_header_name("X-Custom_1.a~b"));
    assert!(is_header_name("a\"b"));
    assert!(!is_header_name(""));
    assert!(!is_header_name("a:b"));
    assert!(!is_header_name("a b"));
    assert!(!is_header_name("caf\u{e9}"));
    assert!(!is_header_name(&"a".repeat(65536)));
    assert!(is_header_name(&"a".repeat(65535)));
    assert!(is_header_value(""));
    assert!(is_header_value("a\tb \u{e9}"));
    assert!(!is_header_value("a\rb"));
    assert!(!is_header_value("a\u{7f}"));
}

#[test]
fn sse_headers_defeat_caches() {
    let r = build_sse_response(200, vec![pair("X-A", "1"), pair("Cache-Control", "max-age=1")], true);
    assert_eq!(r.status, 200);
    assert_eq!(
        r.headers,
        vec![
            pair("X-A", "1"),
            pair("content-type", "text/event-stream"),
            pair("x-accel-buffering", "no"),
            pair("cache-control", "no-cache, no-store, must-revalidate"),
            pair("pragma", "no-cache"),
            pair("expires", "0"),
            pair("content-encoding", "identity"),
        ]
    );
    assert!(r.body.is_empty());
}

#[test]
fn rate_limit_answer_names_the_limits() {
    let r = build_rate_limit_response(60, 100, 200, b"{}".to_vec());
    assert_eq!(
        r.headers,
        vec![
            pair("retry-after", "60"),
            pair("x-ratelimit-limit", "100"),
            pair("x-ratelimit-burst", "200"),
            pair("content-type", "application/json"),
        ]
    );
    assert_eq!(r.body, b"{}");
}

#[test]
fn metadata_is_written_as_headers() {
    let meta = ResponseMeta {
        response_type: ResponseType::Html,
        custom_content_type: None,
        custom_headers: Some(vec![pair("X-Custom", "value"), pair("X-Bolt-File-Path", "/f")]),
        cookies: Some(vec![cookie("a", "1"), cookie("b;", "2"), cookie("c", "3\n"), cookie("d", "4")]),
    };
    assert_eq!(
        meta_to_headers(&meta),
        vec![
            pair("content-type", "text/html; charset=utf-8"),
            pair("x-custom", "value"),
            pair("x-bolt-file-path", "/f"),
            pair("set-cookie", "a=1; Path=/"),
            pair("set-cookie", "d=4; Path=/"),
        ]
    );
    assert_eq!(
        meta_to_headers_without_file_path(&meta),
        vec![
            pair("content-type", "text/html; charset=utf-8"),
            pair("x-custom", "value"),
            pair("set-cookie", "a=1; Path=/"),
            pair("set-cookie", "d=4; Path=/"),
        ]
    );
    assert_eq!(extract_file_path_from_meta(&meta).as_deref(), Some("/f"));
}

#[test]
fn redirects_have_no_content_type_of_their_own() {
    let meta = ResponseMeta {
        response_type: ResponseType::Redirect,
        custom_content_type: None,
        custom_headers: None,
        cookies: None,
    };
    assert!(meta_to_headers(&meta).is_empty());
    assert!(extract_file_path_from_meta(&meta).is_none());
    let meta = ResponseMeta {
        response_type: ResponseType::Redirect,
        custom_content_type: Some("text/x".to_string()),
        custom_headers: None,
        cookies: None,
    };
    assert_eq!(meta_to_headers(&meta), vec![pair("content-type", "text/x")]);
}

#[test]
fn a_rejected_cookie_leaves_the_other_headers() {
    let with = ResponseMeta {
        response_type: ResponseType::Json,
        custom_content_type: None,
        custom_headers: Some(vec![pair("X-A", "1")]),
        cookies: Some(vec![cookie("ok", "1"), cookie("bad;name", "x"), cookie("bad", "v\r")]),
    };
    let without = ResponseMeta {
        response_type: ResponseType::Json,
        custom_content_type: None,
        custom_headers: Some(vec![pair("X-A", "1")]),
        cookies: Some(vec![cookie("ok", "1")]),
    };
    assert_eq!(meta_to_headers(&with), meta_to_headers(&without));
    let a = build_response_from_meta(200, with, vec![], false);
    let b = build_response_from_meta(200, without, vec![], false);
    assert_eq!(a.headers, b.headers);
    assert_eq!(
        a.headers,
        vec![
            pair("content-type", "application/json"),
            pair("x-a", "1"),
            pair("set-cookie", "ok=1; Path=/"),
        ]
    );
}

#[test]
fn the_file_mark_is_never_sent() {
    assert_eq!(
        strip_file_mark(vec![pair("a", "1"), pair("X-BOLT-FILE-PATH", "/x"), pair("b", "2")]),
        vec![pair("a", "1"), pair("b", "2")]
    );
}
