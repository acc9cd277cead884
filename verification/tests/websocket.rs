use ahash::AHashMap;
use bolt_core::cors::build_cors_config;
use bolt_core::metadata::{RateLimitConfig, RouteMetadata};
use bolt_core::middleware::rate_limit::rate_limit_store;
use bolt_core::permissions::Guard;
use bolt_core::state::AppState;
use bolt_core::websocket::{
    admit_connection, close_code_number, create_receive_fn, create_send_fn,
    get_channel_buffer_size, get_client_timeout, get_heartbeat_interval, get_max_connections,
    handle_websocket_upgrade_with_handler, is_origin_allowed, is_websocket_upgrade,
    normalize_path, release_connection, validate_origin, AppEvent, AppMessage, ClientFrame,
    CloseKind, SendError, SendToClient, UpgradeDecision, WebSocketActor, WebSocketRouter,
    WsEffect, WsMessage, WsState, MAX_MESSAGE_SIZE,
};
use regex::Regex;
use std::collections::HashMap;

fn headers(items: &[(&str, &str)]) -> AHashMap<String, String> {
    items.iter().map(|(k, v)| (k.to_string(), v.to_string())).collect()
}

fn show(effects: &[WsEffect]) -> Vec<String> {
    effects.iter().map(|e| format!("{:?}", e)).collect()
}

fn state(origins: Option<&[&str]>, meta: Vec<(usize, RouteMetadata)>) -> AppState {
    AppState {
        debug: false,
        max_header_size: 8192,
        global_cors_config: origins.map(|o| {
            build_cors_config(o.iter().map(|s| s.to_string()).collect(), false, vec![], vec![], vec![], 1)
        }),
        cors_origin_regexes: vec![],
        router: None,
        route_metadata: Some(meta.into_iter().collect::<HashMap<_, _>>()),
    }
}

fn message(kind: Option<&str>) -> AppMessage {
    AppMessage {
        kind: kind.map(|k| k.to_string()),
        subprotocol: None,
        text: None,
        bytes: None,
        code: None,
        reason: None,
    }
}

#[test]
fn sends_before_accept_are_dropped() {
    let mut actor = WebSocketActor::new(0, 5000, 10000);
    assert_eq!(actor.state(), WsState::Connecting);
    assert!(actor.handle(SendToClient(WsMessage::SendText("early".to_string()))).is_empty());
    assert!(actor.handle(SendToClient(WsMessage::SendBinary(vec![1]))).is_empty());
    assert_eq!(actor.state(), WsState::Connecting);
    assert!(actor.handle(SendToClient(WsMessage::Accept { subprotocol: None })).is_empty());
    assert_eq!(actor.state(), WsState::Accepted);
    assert_eq!(
        show(&actor.handle(SendToClient(WsMessage::SendText("a".to_string())))),
        vec![r#"SendText("a")"#]
    );
    assert_eq!(
        show(&actor.handle(SendToClient(WsMessage::SendBinary(vec![1, 2])))),
        vec!["SendBinary([1, 2])"]
    );
    assert!(actor.handle(SendToClient(WsMessage::Text("not for the client".to_string()))).is_empty());
}

#[test]
fn echo_then_close() {
    let mut actor = WebSocketActor::new(0, 5000, 10000);
    let mut to_app = Vec::new();
    for (at, text) in [(10, "a"), (20, "b")] {
        for e in actor.handle_frame(ClientFrame::Text(text.to_string()), at) {
            match e {
                WsEffect::ToApplication(m) => to_app.push(m),
                other => panic!("unexpected {:?}", other),
            }
        }
    }
    let mut to_client = Vec::new();
    to_client.extend(actor.handle(SendToClient(WsMessage::Accept { subprotocol: None })));
    for m in to_app {
        match create_receive_fn(Some(m)) {
            AppEvent::Receive { text: Some(t), bytes: None } => {
                let reply = create_send_fn(AppMessage { text: Some(t), ..message(Some("websocket.send")) });
                to_client.extend(actor.handle(SendToClient(reply.unwrap())));
            }
            other => panic!("unexpected {:?}", other),
        }
    }
    let close = create_send_fn(AppMessage { code: Some(1000), ..message(Some("websocket.close")) });
    to_client.extend(actor.handle(SendToClient(close.unwrap())));
    assert_eq!(
        show(&to_client),
        vec![r#"SendText("a")"#, r#"SendText("b")"#, "Close { code: 1000, reason: None }", "Stop"]
    );
    assert_eq!(actor.state(), WsState::Closing);
    assert!(matches!(actor.stopped(), WsMessage::Disconnect { code: 1000 }));
}

#[test]
fn frames_of_the_client() {
    let mut actor = WebSocketActor::new(0, 5000, 10000);
    assert_eq!(show(&actor.handle_frame(ClientFrame::Ping(vec![7]), 1)), vec!["Pong([7])"]);
    assert!(actor.handle_frame(ClientFrame::Pong, 2).is_empty());
    assert!(actor.handle_frame(ClientFrame::Other, 2).is_empty());
    assert_eq!(
        show(&actor.handle_frame(ClientFrame::Binary(vec![1, 2]), 3)),
        vec!["ToApplication(Binary([1, 2]))"]
    );
    assert_eq!(
        show(&actor.handle_frame(ClientFrame::Close(Some(CloseKind::Away)), 4)),
        vec!["ToApplication(Disconnect { code: 1001 })", "EchoClose", "Stop"]
    );
    assert!(matches!(actor.stopped(), WsMessage::Disconnect { code: 1001 }));
    let mut actor = WebSocketActor::new(0, 5000, 10000);
    assert_eq!(
        show(&actor.handle_frame(ClientFrame::Close(None), 4)),
        vec!["ToApplication(Disconnect { code: 1000 })", "EchoClose", "Stop"]
    );
    let mut actor = WebSocketActor::new(0, 5000, 10000);
    assert_eq!(
        show(&actor.handle_frame(ClientFrame::ProtocolError, 4)),
        vec!["ToApplication(Disconnect { code: 1002 })", "Stop"]
    );
    assert!(matches!(actor.stopped(), WsMessage::Disconnect { code: 1002 }));
}

#[test]
fn oversize_messages_close_with_1009() {
    let mut actor = WebSocketActor::new(0, 5000, 10000);
    let fits = "x".repeat(MAX_MESSAGE_SIZE);
    assert_eq!(actor.handle_frame(ClientFrame::Text(fits), 1).len(), 1);
    assert_eq!(actor.state(), WsState::Connecting);
    let big = "x".repeat(MAX_MESSAGE_SIZE + 1);
    assert_eq!(
        show(&actor.handle_frame(ClientFrame::Text(big), 2)),
        vec![r#"Close { code: 1009, reason: Some("Message too large") }"#, "Stop"]
    );
    assert!(matches!(actor.stopped(), WsMessage::Disconnect { code: 1009 }));
    let mut actor = WebSocketActor::new(0, 5000, 10000);
    assert_eq!(actor.handle_frame(ClientFrame::Binary(vec![0; MAX_MESSAGE_SIZE + 1]), 2).len(), 2);
    assert_eq!(actor.state(), WsState::Closing);
}

#[test]
fn silent_clients_are_dropped() {
    let mut actor = WebSocketActor::new(1000, 5000, 10000);
    assert_eq!(actor.heartbeat_interval(), 5000);
    assert_eq!(show(&actor.start_heartbeat(6000)), vec!["Ping"]);
    assert_eq!(show(&actor.start_heartbeat(11000)), vec!["Ping"]);
    actor.handle_frame(ClientFrame::Pong, 11500);
    assert_eq!(show(&actor.start_heartbeat(21500)), vec!["Ping"]);
    assert_eq!(
        show(&actor.start_heartbeat(21501)),
        vec!["ToApplication(Disconnect { code: 1001 })", "Stop"]
    );
    assert_eq!(actor.state(), WsState::Closing);
    assert!(matches!(actor.stopped(), WsMessage::Disconnect { code: 1001 }));
    let mut early = WebSocketActor::new(1000, 5000, 10);
    assert_eq!(show(&early.start_heartbeat(500)), vec!["Ping"]);
}

#[test]
fn close_with_a_reason() {
    let mut actor = WebSocketActor::new(0, 1, 1);
    let effects =
        actor.handle(SendToClient(WsMessage::Close { code: 4000, reason: "bye".to_string() }));
    assert_eq!(show(&effects), vec![r#"Close { code: 4000, reason: Some("bye") }"#, "Stop"]);
    assert!(matches!(actor.stopped(), WsMessage::Disconnect { code: 4000 }));
}

#[test]
fn close_codes() {
    let table = [
        (CloseKind::Normal, 1000),
        (CloseKind::Away, 1001),
        (CloseKind::Protocol, 1002),
        (CloseKind::Unsupported, 1003),
        (CloseKind::Abnormal, 1006),
        (CloseKind::Invalid, 1007),
        (CloseKind::Policy, 1008),
        (CloseKind::Size, 1009),
        (CloseKind::Extension, 1010),
        (CloseKind::Error, 1011),
        (CloseKind::Restart, 1012),
        (CloseKind::Again, 1013),
        (CloseKind::Other(4321), 4321),
        (CloseKind::Unknown, 1000),
    ];
    for (kind, code) in table {
        assert_eq!(close_code_number(kind), code);
    }
}

#[test]
fn messages_of_the_application() {
    assert!(matches!(create_send_fn(message(None)), Err(SendError::MissingType)));
    assert!(matches!(
        create_send_fn(AppMessage { subprotocol: Some("chat".to_string()), ..message(Some("websocket.accept")) }),
        Ok(WsMessage::Accept { subprotocol: Some(p) }) if p == "chat"
    ));
    assert!(matches!(
        create_send_fn(AppMessage {
            text: Some("t".to_string()),
            bytes: Some(vec![1]),
            ..message(Some("websocket.send"))
        }),
        Ok(WsMessage::SendText(t)) if t == "t"
    ));
    assert!(matches!(
        create_send_fn(AppMessage { bytes: Some(vec![1]), ..message(Some("websocket.send")) }),
        Ok(WsMessage::SendBinary(b)) if b == vec![1]
    ));
    assert!(matches!(
        create_send_fn(message(Some("websocket.send"))),
        Err(SendError::MissingPayload)
    ));
    assert!(matches!(
        create_send_fn(message(Some("websocket.close"))),
        Ok(WsMessage::Close { code: 1000, reason }) if reason.is_empty()
    ));
    assert!(matches!(
        create_send_fn(AppMessage { code: Some(4001), reason: Some("r".to_string()), ..message(Some("websocket.close")) }),
        Ok(WsMessage::Close { code: 4001, reason }) if reason == "r"
    ));
    assert!(matches!(
        create_send_fn(message(Some("websocket.ping"))),
        Err(SendError::UnknownType(t)) if t == "websocket.ping"
    ));
    assert!(matches!(create_send_fn(message(Some(""))), Err(SendError::UnknownType(t)) if t.is_empty()));
}

#[test]
fn events_for_the_application() {
    assert!(matches!(
        create_receive_fn(Some(WsMessage::Binary(vec![9]))),
        AppEvent::Receive { text: None, bytes: Some(b) } if b == vec![9]
    ));
    assert!(matches!(
        create_receive_fn(Some(WsMessage::Disconnect { code: 1006 })),
        AppEvent::Disconnect { code: 1006 }
    ));
    assert!(matches!(create_receive_fn(None), AppEvent::Disconnect { code: 1000 }));
    assert!(matches!(
        create_receive_fn(Some(WsMessage::SendText("x".to_string()))),
        AppEvent::Receive { text: None, bytes: None }
    ));
}

#[test]
fn websocket_routes() {
    let mut router = WebSocketRouter::new();
    assert!(router.is_empty());
    router.register("/ws", 1).unwrap();
    router.register("/ws", 2).unwrap();
    router.register("/rooms/{room}", 3).unwrap();
    assert!(router.register("/rooms/{other}", 4).is_err());
    assert!(!router.is_empty());
    let (route, params) = router.find("/ws").unwrap();
    assert_eq!((route.handler_id, route.path.as_str()), (2, "/ws"));
    assert!(params.is_empty());
    let (route, params) = router.find("/rooms/lobby").unwrap();
    assert_eq!(route.handler_id, 3);
    assert_eq!(params.get("room").map(|s| s.as_str()), Some("lobby"));
    assert!(router.find("/ws/").is_none());
    assert_eq!(router.get_all_paths(), vec!["/ws", "/rooms/{room}"]);
    assert_eq!(normalize_path("/ws/"), "/ws");
    assert_eq!(normalize_path("/"), "/");
    assert_eq!(normalize_path("/ws"), "/ws");
    assert_eq!(normalize_path(""), "");
}

#[test]
fn upgrade_headers() {
    assert!(is_websocket_upgrade(Some("keep-alive, Upgrade"), Some("WebSocket")));
    assert!(is_websocket_upgrade(Some("upgrade"), Some("websocket")));
    assert!(!is_websocket_upgrade(Some("keep-alive"), Some("websocket")));
    assert!(!is_websocket_upgrade(Some("upgrade"), Some("websocket2")));
    assert!(!is_websocket_upgrade(None, Some("websocket")));
    assert!(!is_websocket_upgrade(Some("upgrade"), None));
}

#[test]
fn origins_fail_secure() {
    let none = state(None, vec![]);
    assert!(validate_origin(None, &none));
    assert!(!validate_origin(Some("https://a.test"), &none));
    let some = state(Some(&["https://a.test"]), vec![]);
    assert!(validate_origin(Some("https://a.test"), &some));
    assert!(!validate_origin(Some("https://b.test"), &some));
    let all = state(Some(&["*"]), vec![]);
    assert!(validate_origin(Some("https://b.test"), &all));
    let cfg = build_cors_config(vec![], false, vec![], vec![], vec![], 1);
    let res = vec![Regex::new(r"^https://.*\.a\.test$").unwrap()];
    assert!(is_origin_allowed("https://x.a.test", &cfg, &res));
    assert!(!is_origin_allowed("https://x.b.test", &cfg, &res));
}

#[test]
fn the_connection_cap_is_never_passed() {
    let cap = 3;
    let mut active = 0;
    let mut refused = 0;
    for _ in 0..5 {
        match admit_connection(active, cap) {
            Some(n) => active = n,
            None => refused += 1,
        }
        assert!(active <= cap);
    }
    assert_eq!((active, refused), (3, 2));
    active = release_connection(active);
    assert_eq!(active, 2);
    assert_eq!(admit_connection(active, cap), Some(3));
    assert_eq!(release_connection(0), 0);
    assert_eq!(admit_connection(0, 0), None);
}

#[test]
fn upgrade_decisions() {
    let ok = headers(&[("connection", "Upgrade"), ("upgrade", "websocket"), ("origin", "https://a.test")]);
    let s = state(Some(&["https://a.test"]), vec![]);
    let store = rate_limit_store();
    assert!(matches!(
        handle_websocket_upgrade_with_handler(&ok, None, 1, &s, &store, 2, 3),
        UpgradeDecision::Accept { active: 3 }
    ));
    match handle_websocket_upgrade_with_handler(&ok, None, 1, &s, &store, 3, 3) {
        UpgradeDecision::Reject(r) => {
            assert_eq!(r.status, 503);
            assert_eq!(r.body, br#"{"detail":"Too many WebSocket connections"}"#);
        }
        _ => panic!("expected a refusal"),
    }
    match handle_websocket_upgrade_with_handler(&headers(&[("connection", "close")]), None, 1, &s, &store, 0, 3) {
        UpgradeDecision::Reject(r) => {
            assert_eq!(r.status, 400);
            assert_eq!(r.body, b"Expected WebSocket upgrade request");
        }
        _ => panic!("expected a refusal"),
    }
    let foreign = headers(&[("connection", "Upgrade"), ("upgrade", "websocket"), ("origin", "https://b.test")]);
    match handle_websocket_upgrade_with_handler(&foreign, None, 1, &s, &store, 0, 3) {
        UpgradeDecision::Reject(r) => {
            assert_eq!(r.status, 403);
            assert_eq!(r.body, br#"{"detail":"Origin not allowed"}"#);
        }
        _ => panic!("expected a refusal"),
    }
    let guarded = state(
        Some(&["https://a.test"]),
        vec![(1, RouteMetadata { guards: vec![Guard::IsAuthenticated], ..Default::default() })],
    );
    match handle_websocket_upgrade_with_handler(&ok, None, 1, &guarded, &store, 0, 3) {
        UpgradeDecision::Reject(r) => assert_eq!(r.status, 401),
        _ => panic!("expected a refusal"),
    }
    let limited = state(
        Some(&["https://a.test"]),
        vec![(
            7,
            RouteMetadata {
                rate_limit_config: Some(RateLimitConfig { rps: 1, burst: 1, key_type: "ip".to_string() }),
                ..Default::default()
            },
        )],
    );
    assert!(matches!(
        handle_websocket_upgrade_with_handler(&ok, Some("1.2.3.4"), 7, &limited, &store, 0, 3),
        UpgradeDecision::Accept { active: 1 }
    ));
    match handle_websocket_upgrade_with_handler(&ok, Some("1.2.3.4"), 7, &limited, &store, 1, 3) {
        UpgradeDecision::Reject(r) => assert_eq!(r.status, 429),
        _ => panic!("expected a refusal"),
    }
}

#[test]
fn settings_of_the_websocket_layer() {
    assert_eq!(get_max_connections(None, None), 10000);
    assert_eq!(get_max_connections(Some("0"), Some(5)), 0);
    assert_eq!(get_max_connections(Some("x"), Some(5)), 5);
    assert_eq!(get_channel_buffer_size(None, None), 100);
    assert_eq!(get_channel_buffer_size(Some("+16"), None), 16);
    assert_eq!(get_heartbeat_interval(None, None), 5);
    assert_eq!(get_heartbeat_interval(Some("-1"), Some(9)), 9);
    assert_eq!(get_client_timeout(None, None), 10);
    assert_eq!(get_client_timeout(Some("18446744073709551616"), None), 10);
    assert_eq!(get_client_timeout(Some("18446744073709551615"), None), u64::MAX);
}
