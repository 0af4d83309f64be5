use std::sync::Arc;

use browsr::config::{AppConfig, ConfigOverrides, wants_log_file};
use browsr::json::{Json, JsonNumber};
use browsr::protocol::{CommandEnvelope, IncomingKind, Timestamp, classify_incoming};

fn obj(fields: Vec<(&str, Json)>) -> Json {
    Json::Object(Arc::new(fields.into_iter().map(|(k, v)| (k.to_string(), v)).collect()))
}

fn is_uuid_v4(s: &str) -> bool {
    let chars: Vec<char> = s.chars().collect();
    chars.len() == 36
        && chars.iter().enumerate().all(|(i, c)| {
            if [8, 13, 18, 23].contains(&i) {
                *c == '-'
            } else {
                c.is_ascii_digit() || ('a'..='f').contains(c)
            }
        })
        && chars[14] == '4'
        && "89ab".contains(chars[19])
}

#[test]
fn default_config() {
    let c = AppConfig::default();
    assert_eq!(c.bind_host, "127.0.0.1");
    assert_eq!(c.port, 17373);
    assert_eq!(c.ws_path, "/ws");
    assert_eq!(c.request_timeout_ms, 8000);
    assert_eq!(c.max_incoming_ws_bytes, 20_000_000);
    assert_eq!(c.recent_events_limit, 500);
    assert_eq!(c.bind_address(), "127.0.0.1:17373");
}

#[test]
fn no_overrides_gives_defaults() {
    let c = AppConfig::from_overrides(ConfigOverrides::default());
    let d = AppConfig::default();
    assert_eq!(c.bind_host, d.bind_host);
    assert_eq!(c.port, d.port);
    assert_eq!(c.ws_path, d.ws_path);
    assert_eq!(c.request_timeout_ms, d.request_timeout_ms);
    assert_eq!(c.max_incoming_ws_bytes, d.max_incoming_ws_bytes);
    assert_eq!(c.recent_events_limit, d.recent_events_limit);
}

#[test]
fn overrides_apply_and_bad_numbers_keep_defaults() {
    let c = AppConfig::from_overrides(ConfigOverrides {
        host: Some("0.0.0.0".into()),
        port: Some("8080".into()),
        ws_path: Some("/ext".into()),
        request_timeout_ms: Some("250".into()),
        max_ws_bytes: Some("many".into()),
        events_limit: Some("3".into()),
    });
    assert_eq!(c.bind_host, "0.0.0.0");
    assert_eq!(c.port, 8080);
    assert_eq!(c.ws_path, "/ext");
    assert_eq!(c.request_timeout_ms, 250);
    assert_eq!(c.max_incoming_ws_bytes, 20_000_000);
    assert_eq!(c.recent_events_limit, 3);
    assert_eq!(c.bind_address(), "0.0.0.0:8080");
    let too_big = AppConfig::from_overrides(ConfigOverrides {
        port: Some("70000".into()),
        ..ConfigOverrides::default()
    });
    assert_eq!(too_big.port, 17373);
}

#[test]
fn ws_text_size_limit() {
    let mut c = AppConfig::default();
    c.max_incoming_ws_bytes = 10;
    assert!(c.admits_ws_text(10));
    assert!(!c.admits_ws_text(11));
}

#[test]
fn classify_each_kind() {
    let of = |t: &str| obj(vec![("type", Json::String(t.into()))]);
    assert_eq!(classify_incoming(&of("hello")), IncomingKind::Hello);
    assert_eq!(classify_incoming(&of("event")), IncomingKind::Event);
    assert_eq!(classify_incoming(&of("log")), IncomingKind::Log);
    assert_eq!(classify_incoming(&of("response")), IncomingKind::Response);
    assert_eq!(classify_incoming(&of("keepalive")), IncomingKind::Keepalive);
    assert_eq!(classify_incoming(&of("Hello")), IncomingKind::Unknown);
    assert_eq!(classify_incoming(&obj(vec![])), IncomingKind::Unknown);
    assert_eq!(
        classify_incoming(&obj(vec![("type", Json::Number(JsonNumber::PosInt(1)))])),
        IncomingKind::Unknown
    );
    assert_eq!(classify_incoming(&Json::String("hello".into())), IncomingKind::Unknown);
}

#[test]
fn envelope_assembly() {
    let e = CommandEnvelope::assemble(
        "list_tabs",
        Json::Null,
        "abc".into(),
        1700000000123,
        "0f0e0d0c-0b0a-4908-8706-050403020100",
    );
    assert_eq!(e.kind, "command");
    assert_eq!(e.id, "abc");
    assert_eq!(e.command, "list_tabs");
    assert_eq!(e.trace_id, "srv-1700000000123-0f0e0d0c-0b0a-4908-8706-050403020100");
    assert_eq!(e.args, Json::Null);
}

#[test]
fn new_envelope_has_fresh_ids_and_current_time() {
    let a = CommandEnvelope::new("focus_tab", Json::Bool(true));
    let b = CommandEnvelope::new("focus_tab", Json::Bool(true));
    assert!(is_uuid_v4(&a.id));
    assert_ne!(a.id, b.id);
    assert_eq!(a.kind, "command");
    assert_eq!(a.command, "focus_tab");
    let rest = a.trace_id.strip_prefix("srv-").expect("trace prefix");
    let (millis, uuid) = rest.split_once('-').expect("trace parts");
    let millis: i64 = millis.parse().expect("millis");
    assert!(millis > 1_600_000_000_000);
    assert!(is_uuid_v4(uuid));
    assert_ne!(uuid, a.id);
}

#[test]
fn timestamp_millis_formula() {
    let t = Timestamp { secs: 1_700_000_000, nanos: 987_654_321 };
    assert_eq!(t.timestamp_millis(), 1_700_000_000_987);
    let before = Timestamp { secs: -1, nanos: 500_000_000 };
    assert_eq!(before.timestamp_millis(), -500);
}

#[test]
fn log_flag_is_read_after_the_program_name() {
    let args = |v: &[&str]| v.iter().map(|a| a.to_string()).collect::<Vec<String>>();
    assert!(wants_log_file(&args(&["browsr", "--log"])));
    assert!(wants_log_file(&args(&["browsr", "-v", "--log"])));
    assert!(!wants_log_file(&args(&["--log"])));
    assert!(!wants_log_file(&args(&["browsr", "--logs"])));
    assert!(!wants_log_file(&args(&[])));
}
