use std::sync::Arc;

use browsr::config::AppConfig;
use browsr::json::{Json, JsonNumber};
use browsr::protocol::{IncomingKind, Timestamp};
use browsr::state::{AppState, CommandOutcome, ResolveOutcome, SendCommandError, failure_payload};
use tokio::sync::mpsc;

fn obj(fields: Vec<(&str, Json)>) -> Json {
    Json::Object(Arc::new(fields.into_iter().map(|(k, v)| (k.to_string(), v)).collect()))
}

fn s(text: &str) -> Json {
    Json::String(text.into())
}

fn n(v: u64) -> Json {
    Json::Number(JsonNumber::PosInt(v))
}

fn arr(items: Vec<Json>) -> Json {
    Json::Array(Arc::new(items))
}

fn state_with_limit(limit: usize) -> AppState {
    let mut config = AppConfig::default();
    config.recent_events_limit = limit;
    AppState::new(config)
}

fn connected() -> (AppState, mpsc::Receiver<String>) {
    let mut state = state_with_limit(500);
    let (tx, rx) = mpsc::channel(8);
    state.set_extension_sender(tx);
    (state, rx)
}

#[test]
fn new_state_is_idle() {
    let state = state_with_limit(5);
    let snap = state.snapshot();
    assert!(!snap.connected);
    assert!(snap.connected_since.is_none());
    assert!(snap.last_message_at.is_none());
    assert!(snap.last_hello.is_none());
    assert!(snap.last_tabs.is_none());
    assert!(snap.last_windows.is_none());
    assert_eq!(snap.pending_requests, 0);
    assert!(snap.recent_events.is_empty());
    assert_eq!(state.config().recent_events_limit, 5);
}

#[test]
fn connecting_records_the_time() {
    let (state, _rx) = connected();
    assert!(state.extension_connected());
    let since = state.snapshot().connected_since.expect("connected since");
    assert!(since.secs > 1_600_000_000);
    let mut other = state_with_limit(1);
    let (tx, _rx2) = mpsc::channel(1);
    other.set_extension_sender_at(tx, Timestamp { secs: 5, nanos: 6 });
    assert_eq!(other.snapshot().connected_since, Some(Timestamp { secs: 5, nanos: 6 }));
}

#[test]
fn events_keep_only_the_newest() {
    let mut state = state_with_limit(3);
    for i in 0..5u64 {
        state.push_event(n(i));
    }
    assert_eq!(state.snapshot().recent_events, vec![n(2), n(3), n(4)]);
    let mut none = state_with_limit(0);
    none.push_event(n(1));
    assert!(none.snapshot().recent_events.is_empty());
}

#[test]
fn caches_read_back() {
    let mut state = state_with_limit(1);
    state.cache_tabs(arr(vec![n(1)]));
    assert_eq!(state.get_tabs_cache(), Some(arr(vec![n(1)])));
    state.cache_windows(arr(vec![n(2)]));
    state.cache_hello(s("hi"));
    let snap = state.snapshot();
    assert_eq!(snap.last_windows, Some(arr(vec![n(2)])));
    assert_eq!(snap.last_hello, Some(s("hi")));
}

#[test]
fn command_without_connection_is_refused() {
    let mut state = state_with_limit(1);
    let r = state.begin_command("req-1");
    assert!(matches!(r, Err(SendCommandError::ExtensionNotConnected)));
    assert_eq!(state.snapshot().pending_requests, 0);
}

#[test]
fn command_reply_round_trip() {
    let (mut state, mut outbox_rx) = connected();
    let (outbox, mut reply) = state.begin_command("req-1").expect("connected");
    assert_eq!(state.snapshot().pending_requests, 1);
    outbox.try_send("raw".to_string()).expect("outbox open");
    assert_eq!(outbox_rx.try_recv().expect("forwarded"), "raw");
    let message = obj(vec![("type", s("response")), ("id", s("req-1")), ("ok", Json::Bool(true))]);
    assert_eq!(state.resolve_pending("req-1", message.clone()), ResolveOutcome::Delivered);
    assert_eq!(state.snapshot().pending_requests, 0);
    let got = reply.try_recv().expect("reply delivered");
    assert_eq!(got, message);
    let done = state.finish_command("req-1", CommandOutcome::Replied(got.clone()));
    assert_eq!(done, Ok(got));
    assert_eq!(state.resolve_pending("req-1", Json::Null), ResolveOutcome::UnknownRequest);
}

#[test]
fn reply_to_a_command_that_stopped_waiting() {
    let (mut state, _rx) = connected();
    let (_outbox, reply) = state.begin_command("req-2").expect("connected");
    drop(reply);
    assert_eq!(state.resolve_pending("req-2", Json::Null), ResolveOutcome::ReceiverGone);
    assert_eq!(state.snapshot().pending_requests, 0);
}

#[test]
fn failed_commands_stop_waiting() {
    let (mut state, _rx) = connected();
    for (id, outcome, expected) in [
        ("a", CommandOutcome::SendFailed, SendCommandError::TransportClosed),
        ("b", CommandOutcome::ReplyDropped, SendCommandError::ResponseDropped),
        ("c", CommandOutcome::TimedOut, SendCommandError::Timeout),
    ] {
        let _ = state.begin_command(id).expect("connected");
        assert_eq!(state.snapshot().pending_requests, 1);
        assert_eq!(state.finish_command(id, outcome), Err(expected));
        assert_eq!(state.snapshot().pending_requests, 0);
    }
}

#[test]
fn disconnect_fails_every_waiting_command() {
    let (mut state, _rx) = connected();
    let (_o1, mut r1) = state.begin_command("one").expect("connected");
    let (_o2, mut r2) = state.begin_command("two").expect("connected");
    assert!(state.clear_extension_sender());
    assert!(!state.extension_connected());
    assert_eq!(state.snapshot().pending_requests, 0);
    assert_eq!(
        r1.try_recv().expect("failed"),
        failure_payload("one", "EXTENSION_DISCONNECTED", "extension session disconnected")
    );
    assert_eq!(
        r2.try_recv().expect("failed"),
        failure_payload("two", "EXTENSION_DISCONNECTED", "extension session disconnected")
    );
    assert!(!state.clear_extension_sender());
}

#[test]
fn failure_payload_shape() {
    let p = failure_payload("id-9", "CODE", "msg");
    assert_eq!(
        p,
        obj(vec![
            ("type", s("response")),
            ("id", s("id-9")),
            ("ok", Json::Bool(false)),
            ("error", obj(vec![("code", s("CODE")), ("message", s("msg"))])),
        ])
    );
}

#[test]
fn hello_caches_payload() {
    let mut state = state_with_limit(5);
    let hello = obj(vec![
        ("type", s("hello")),
        ("payload", obj(vec![("windows", arr(vec![n(1)])), ("tabs", arr(vec![n(2)]))])),
    ]);
    let r = state.process_text_message(Ok(hello.clone()));
    assert_eq!(r, Ok((IncomingKind::Hello, None)));
    let snap = state.snapshot();
    assert_eq!(snap.last_hello, Some(hello));
    assert_eq!(snap.last_windows, Some(arr(vec![n(1)])));
    assert_eq!(snap.last_tabs, Some(arr(vec![n(2)])));
    assert!(snap.last_message_at.is_some());
}

#[test]
fn messages_of_each_kind() {
    let (mut state, _rx) = connected();
    let event = obj(vec![("type", s("event")), ("name", s("tab_created"))]);
    assert_eq!(state.process_text_message(Ok(event.clone())), Ok((IncomingKind::Event, None)));
    assert_eq!(state.snapshot().recent_events, vec![event]);
    let log = obj(vec![("type", s("log"))]);
    assert_eq!(state.process_text_message(Ok(log)), Ok((IncomingKind::Log, None)));
    let keepalive = obj(vec![("type", s("keepalive"))]);
    assert_eq!(state.process_text_message(Ok(keepalive)), Ok((IncomingKind::Keepalive, None)));
    assert_eq!(state.process_text_message(Ok(Json::Null)), Ok((IncomingKind::Unknown, None)));
    let (_o, _r) = state.begin_command("x").expect("connected");
    let response = obj(vec![("type", s("response")), ("id", s("x"))]);
    assert_eq!(
        state.process_text_message(Ok(response)),
        Ok((IncomingKind::Response, Some(ResolveOutcome::Delivered)))
    );
    let stray = obj(vec![("type", s("response")), ("id", s("nobody"))]);
    assert_eq!(
        state.process_text_message(Ok(stray)),
        Ok((IncomingKind::Response, Some(ResolveOutcome::UnknownRequest)))
    );
}

#[test]
fn bad_messages_are_refused_but_noted() {
    let mut state = state_with_limit(5);
    let r = state.process_text_message_at(Timestamp { secs: 1, nanos: 2 }, Err("bad json".into()));
    assert_eq!(r, Err("bad json".to_string()));
    assert_eq!(state.snapshot().last_message_at, Some(Timestamp { secs: 1, nanos: 2 }));
    let no_id = obj(vec![("type", s("response")), ("id", n(3))]);
    let r = state.process_text_message(Ok(no_id));
    assert_eq!(r, Err("response message missing id".to_string()));
}

#[test]
fn tab_cache_upsert_and_remove() {
    let mut state = state_with_limit(1);
    let tab = |id: u64, title: &str| obj(vec![("id", n(id)), ("title", s(title))]);
    state.upsert_tab_cache_entry(&tab(1, "x"));
    assert_eq!(state.get_tabs_cache(), None);
    state.cache_tabs(arr(vec![tab(1, "a"), tab(2, "b")]));
    state.upsert_tab_cache_entry(&tab(2, "B"));
    state.upsert_tab_cache_entry(&tab(3, "c"));
    state.upsert_tab_cache_entry(&s("no id"));
    assert_eq!(state.get_tabs_cache(), Some(arr(vec![tab(1, "a"), tab(2, "B"), tab(3, "c")])));
    state.remove_tab_cache_entry(1);
    assert_eq!(state.get_tabs_cache(), Some(arr(vec![tab(2, "B"), tab(3, "c")])));
    state.upsert_tab_cache_entries(&vec![tab(3, "C"), tab(4, "d")]);
    assert_eq!(
        state.get_tabs_cache(),
        Some(arr(vec![tab(2, "B"), tab(3, "C"), tab(4, "d")]))
    );
    state.cache_windows(arr(vec![tab(7, "w")]));
    state.upsert_window_cache_entry(&tab(7, "W"));
    assert_eq!(state.snapshot().last_windows, Some(arr(vec![tab(7, "W")])));
}

#[test]
fn command_round_trip_leaves_state_as_before() {
    let (mut state, _rx) = connected();
    state.cache_tabs(arr(vec![n(1)]));
    let before = state.snapshot();
    let (_o, _r) = state.begin_command("rt").expect("connected");
    let reply = obj(vec![("type", s("response")), ("id", s("rt"))]);
    let _ = state.process_text_message(Ok(reply));
    let after = state.snapshot();
    assert_eq!(after.pending_requests, before.pending_requests);
    assert_eq!(after.last_tabs, before.last_tabs);
    assert_eq!(after.recent_events, before.recent_events);
    assert_eq!(after.connected, before.connected);
}
