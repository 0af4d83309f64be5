use std::sync::Arc;

use browsr::config::AppConfig;
use browsr::json::{Json, JsonNumber};
use browsr::protocol::{frame_action, FrameAction, FrameKind, IncomingKind, Timestamp};
use browsr::state::{AppState, ResolveOutcome};

fn obj(fields: Vec<(&str, Json)>) -> Json {
    Json::Object(Arc::new(fields.into_iter().map(|(k, v)| (k.to_string(), v)).collect()))
}

fn s(text: &str) -> Json {
    Json::String(text.into())
}

fn n(v: u64) -> Json {
    Json::Number(JsonNumber::PosInt(v))
}

fn at(secs: i64) -> Timestamp {
    Timestamp { secs, nanos: 0 }
}

#[test]
fn raw_text_that_is_not_json_is_refused_with_the_readers_message() {
    let mut state = AppState::new(AppConfig::default());
    let r = state.process_raw_text_at(at(7), "not json");
    assert_eq!(r, Err("expected ident at line 1 column 2".to_string()));
    assert_eq!(state.snapshot().last_message_at, Some(at(7)));
    let r = state.process_raw_text_at(at(8), "");
    assert_eq!(r, Err("EOF while parsing a value at line 1 column 0".to_string()));
    let r = state.process_raw_text_at(at(9), "{\"type\":\"hello\"} trailing");
    assert_eq!(r, Err("trailing characters at line 1 column 18".to_string()));
    assert!(state.snapshot().last_hello.is_none());
}

#[test]
fn raw_hello_text_is_read_and_cached() {
    let mut state = AppState::new(AppConfig::default());
    let raw = r#"{"type":"hello","payload":{"tabs":[{"id":3,"title":"a"}],"windows":[{"id":-1}],"n":1.5}}"#;
    let r = state.process_raw_text_at(at(1), raw);
    assert_eq!(r, Ok((IncomingKind::Hello, None)));
    let snap = state.snapshot();
    let tabs = Json::Array(Arc::new(vec![obj(vec![("id", n(3)), ("title", s("a"))])]));
    let windows = Json::Array(Arc::new(vec![obj(vec![("id", Json::Number(JsonNumber::NegInt(-1)))])]));
    assert_eq!(snap.last_tabs, Some(tabs.clone()));
    assert_eq!(snap.last_windows, Some(windows.clone()));
    // serde_json keeps the entries of an object ordered by key.
    let hello = obj(vec![
        (
            "payload",
            obj(vec![
                ("n", Json::Number(JsonNumber::Float("1.5".to_string()))),
                ("tabs", tabs),
                ("windows", windows),
            ]),
        ),
        ("type", s("hello")),
    ]);
    assert_eq!(snap.last_hello, Some(hello));
    assert_eq!(snap.last_message_at, Some(at(1)));
}

#[test]
fn raw_event_and_other_kinds() {
    let mut state = AppState::new(AppConfig::default());
    assert_eq!(
        state.process_raw_text(" {\"type\":\"event\",\"x\":null,\"ok\":true} "),
        Ok((IncomingKind::Event, None))
    );
    assert_eq!(
        state.snapshot().recent_events,
        vec![obj(vec![("ok", Json::Bool(true)), ("type", s("event")), ("x", Json::Null)])]
    );
    assert_eq!(state.process_raw_text("{\"type\":\"log\"}"), Ok((IncomingKind::Log, None)));
    assert_eq!(state.process_raw_text("[1,2]"), Ok((IncomingKind::Unknown, None)));
    assert_eq!(state.process_raw_text("{\"type\":\"keepalive\"}"), Ok((IncomingKind::Keepalive, None)));
}

#[test]
fn raw_response_reaches_its_command() {
    let mut state = AppState::new(AppConfig::default());
    assert_eq!(
        state.process_raw_text("{\"type\":\"response\",\"id\":\"nobody\"}"),
        Ok((IncomingKind::Response, Some(ResolveOutcome::UnknownRequest)))
    );
    assert_eq!(
        state.process_raw_text("{\"type\":\"response\"}"),
        Err("response message missing id".to_string())
    );
    let (tx, _outbox) = tokio::sync::mpsc::channel(4);
    state.set_extension_sender(tx);
    let (_out, mut rx) = state.begin_command("r1").expect("connected");
    assert_eq!(state.snapshot().pending_requests, 1);
    let raw = "{\"type\":\"response\",\"id\":\"r1\",\"ok\":true,\"data\":{\"n\":2}}";
    assert_eq!(
        state.process_raw_text(raw),
        Ok((IncomingKind::Response, Some(ResolveOutcome::Delivered)))
    );
    assert_eq!(state.snapshot().pending_requests, 0);
    let got = rx.try_recv().expect("reply delivered");
    assert_eq!(
        got,
        obj(vec![
            ("data", obj(vec![("n", n(2))])),
            ("id", s("r1")),
            ("ok", Json::Bool(true)),
            ("type", s("response")),
        ])
    );
}

#[test]
fn frames_are_processed_dropped_ignored_or_end_the_connection() {
    let mut config = AppConfig::default();
    config.max_incoming_ws_bytes = 10;
    assert_eq!(frame_action(&config, FrameKind::Text(0)), FrameAction::Process);
    assert_eq!(frame_action(&config, FrameKind::Text(10)), FrameAction::Process);
    assert_eq!(frame_action(&config, FrameKind::Text(11)), FrameAction::DropTooLarge);
    assert_eq!(frame_action(&config, FrameKind::Binary), FrameAction::Ignore);
    assert_eq!(frame_action(&config, FrameKind::Ping), FrameAction::Ignore);
    assert_eq!(frame_action(&config, FrameKind::Pong), FrameAction::Ignore);
    assert_eq!(frame_action(&config, FrameKind::Close), FrameAction::Stop);
    assert_eq!(frame_action(&config, FrameKind::ReadError), FrameAction::Stop);
}

#[test]
fn connection_stays_until_disconnect() {
    let mut state = AppState::new(AppConfig::default());
    let (tx, _outbox) = tokio::sync::mpsc::channel(4);
    state.set_extension_sender_at(tx, at(42));
    state.record_message_at(at(43));
    state.cache_tabs(n(1));
    state.cache_windows(n(2));
    state.push_event(n(3));
    let _ = state.process_raw_text_at(at(44), "{\"type\":\"hello\"}");
    let _ = state.process_raw_text_at(at(45), "garbage");
    let _ = state.begin_command("c1").expect("connected");
    let _ = state.resolve_pending("c1", n(4));
    assert!(state.extension_connected());
    assert_eq!(state.snapshot().connected_since, Some(at(42)));
    assert!(state.clear_extension_sender());
    assert!(!state.extension_connected());
}
