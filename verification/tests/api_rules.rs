use std::sync::Arc;

use browsr::api::{
    active_tab_command, close_tab_command, focus_tab_command, group_tabs_command,
    list_tabs_command, list_windows_command, move_tab_command, open_tab_command,
    reload_tab_command, snapshot_tab_command, tab_state_command, ApiError, CreatePropertiesRequest, GroupPropertiesRequest, GroupTabsRequest, MoveTabRequest,
    OpenTabRequest, ReloadTabRequest, SnapshotRequest, check_command_response, filter_tabs,
    group_tabs_args, move_args, no_args, open_tab_args, reload_args, snapshot_args, tab_args,
    tabs_from_response, tabs_listing, true_value, window_args,
};
use browsr::config::AppConfig;
use browsr::json::{Json, JsonNumber};
use browsr::state::{AppState, SendCommandError};

fn obj(fields: Vec<(&str, Json)>) -> Json {
    Json::Object(Arc::new(fields.into_iter().map(|(k, v)| (k.to_string(), v)).collect()))
}

fn s(text: &str) -> Json {
    Json::String(text.into())
}

fn n(v: u64) -> Json {
    Json::Number(JsonNumber::PosInt(v))
}

fn arr(items: Vec<Json>) -> Json {
    Json::Array(Arc::new(items))
}

fn tab(id: u64, window: u64, title: &str, url: &str) -> Json {
    obj(vec![("id", n(id)), ("windowId", n(window)), ("title", s(title)), ("url", s(url))])
}

fn gateway(message: &str) -> ApiError {
    ApiError { status: 502, code: "EXTENSION_ERROR", message: message.to_string() }
}

#[test]
fn successful_reply_gives_result() {
    let reply = obj(vec![("ok", Json::Bool(true)), ("result", n(5))]);
    assert_eq!(check_command_response(reply), Ok(n(5)));
}

#[test]
fn reply_errors() {
    assert_eq!(
        check_command_response(obj(vec![])),
        Err(gateway("extension response missing ok field"))
    );
    assert_eq!(
        check_command_response(obj(vec![("ok", s("yes"))])),
        Err(gateway("extension response missing ok field"))
    );
    assert_eq!(
        check_command_response(obj(vec![("ok", Json::Bool(true))])),
        Err(gateway("extension success response missing result field"))
    );
    let failed = obj(vec![
        ("ok", Json::Bool(false)),
        ("error", obj(vec![("code", s("NO_TAB")), ("message", s("tab 3 not found"))])),
    ]);
    assert_eq!(
        check_command_response(failed),
        Err(gateway("extension command failed (NO_TAB): tab 3 not found"))
    );
    assert_eq!(
        check_command_response(obj(vec![("ok", Json::Bool(false))])),
        Err(gateway(
            "extension command failed (COMMAND_FAILED): extension returned error without message"
        ))
    );
}

#[test]
fn send_errors_map_to_answers() {
    let e = ApiError::from_send_error(SendCommandError::ExtensionNotConnected);
    assert_eq!((e.status, e.code), (503, "EXTENSION_NOT_CONNECTED"));
    assert_eq!(e.message, "extension is not connected to /ws");
    let e = ApiError::from_send_error(SendCommandError::TransportClosed);
    assert_eq!((e.status, e.code), (503, "EXTENSION_DISCONNECTED"));
    assert_eq!(e.message, "extension connection closed before command could be sent");
    let e = ApiError::from_send_error(SendCommandError::Timeout);
    assert_eq!((e.status, e.code), (504, "EXTENSION_TIMEOUT"));
    assert_eq!(e.message, "extension command timed out");
    let e = ApiError::from_send_error(SendCommandError::ResponseDropped);
    assert_eq!((e.status, e.code), (502, "EXTENSION_RESPONSE_DROPPED"));
    assert_eq!(e.message, "extension response channel dropped unexpectedly");
    let e = ApiError::from_send_error(SendCommandError::InvalidMessage("boom".into()));
    assert_eq!((e.status, e.code), (500, "COMMAND_SERIALIZATION_FAILED"));
    assert_eq!(e.message, "boom");
    assert_eq!(ApiError::bad_gateway("x".into()), gateway("x"));
    assert_eq!(ApiError::new(418, "TEA", "pot".into()).status, 418);
}

#[test]
fn error_payload_shape() {
    let e = gateway("bad");
    assert_eq!(
        e.payload(),
        obj(vec![
            ("ok", Json::Bool(false)),
            ("error", obj(vec![("code", s("EXTENSION_ERROR")), ("message", s("bad"))])),
        ])
    );
}

#[test]
fn tabs_field_is_required() {
    let list = arr(vec![n(1)]);
    assert_eq!(tabs_from_response(&obj(vec![("tabs", list.clone())])), Ok(list));
    assert_eq!(
        tabs_from_response(&obj(vec![])),
        Err(gateway("extension response missing tabs field"))
    );
}

#[test]
fn filter_by_window_and_text() {
    let tabs = arr(vec![
        tab(1, 10, "Google Search", "https://google.com"),
        tab(2, 20, "Rust docs", "https://doc.rust-lang.org"),
        tab(3, 10, "News", "https://EXAMPLE.org/rust"),
        obj(vec![("id", n(4)), ("windowId", s("10"))]),
    ]);
    assert_eq!(
        filter_tabs(tabs.clone(), Some(10), None),
        arr(vec![tab(1, 10, "Google Search", "https://google.com"), tab(3, 10, "News", "https://EXAMPLE.org/rust")])
    );
    assert_eq!(
        filter_tabs(tabs.clone(), None, Some("GOOGLE")),
        arr(vec![tab(1, 10, "Google Search", "https://google.com")])
    );
    assert_eq!(
        filter_tabs(tabs.clone(), None, Some("rust")),
        arr(vec![tab(2, 20, "Rust docs", "https://doc.rust-lang.org"), tab(3, 10, "News", "https://EXAMPLE.org/rust")])
    );
    assert_eq!(
        filter_tabs(tabs.clone(), Some(10), Some("example")),
        arr(vec![tab(3, 10, "News", "https://EXAMPLE.org/rust")])
    );
    assert_eq!(filter_tabs(s("not a list"), Some(1), None), arr(vec![]));
}

#[test]
fn filtering_twice_changes_nothing() {
    let tabs = arr(vec![
        tab(1, 10, "Alpha", "a"),
        tab(2, 10, "beta", "b"),
        tab(3, 11, "ALPHABET", "c"),
    ]);
    let once = filter_tabs(tabs, Some(10), Some("alpha"));
    let twice = filter_tabs(once.clone(), Some(10), Some("alpha"));
    assert_eq!(once, twice);
}

#[test]
fn listing_filters_only_when_asked() {
    let tabs = s("kept as is");
    assert_eq!(tabs_listing(tabs.clone(), None, None), obj(vec![("tabs", tabs.clone())]));
    assert_eq!(tabs_listing(tabs, Some(1), None), obj(vec![("tabs", arr(vec![]))]));
}

#[test]
fn command_arguments() {
    assert_eq!(no_args(), obj(vec![]));
    assert_eq!(window_args(None), obj(vec![]));
    assert_eq!(window_args(Some(4)), obj(vec![("windowId", n(4))]));
    assert_eq!(tab_args(9), obj(vec![("tabId", n(9))]));
    assert!(true_value());
    let snap = SnapshotRequest { include_html: true, include_text: false, include_selection: true };
    assert_eq!(
        snapshot_args(9, &snap),
        obj(vec![
            ("tabId", n(9)),
            ("includeHtml", Json::Bool(true)),
            ("includeText", Json::Bool(false)),
            ("includeSelection", Json::Bool(true)),
        ])
    );
    let reload = ReloadTabRequest { bypass_cache: false, wait_for_complete: true };
    assert_eq!(
        reload_args(2, &reload),
        obj(vec![
            ("tabId", n(2)),
            ("bypassCache", Json::Bool(false)),
            ("waitForComplete", Json::Bool(true)),
        ])
    );
    assert_eq!(
        move_args(2, &MoveTabRequest { index: 0, window_id: Some(5) }),
        obj(vec![("tabId", n(2)), ("index", n(0)), ("windowId", n(5))])
    );
    assert_eq!(
        move_args(2, &MoveTabRequest { index: 3, window_id: None }),
        obj(vec![("tabId", n(2)), ("index", n(3))])
    );
}

#[test]
fn open_tab_arguments() {
    let minimal = OpenTabRequest {
        url: "https://a.example".into(),
        active: None,
        window_id: None,
        index: None,
        opener_tab_id: None,
    };
    assert_eq!(open_tab_args(minimal), obj(vec![("url", s("https://a.example"))]));
    let full = OpenTabRequest {
        url: "u".into(),
        active: Some(false),
        window_id: Some(1),
        index: Some(2),
        opener_tab_id: Some(3),
    };
    assert_eq!(
        open_tab_args(full),
        obj(vec![
            ("url", s("u")),
            ("active", Json::Bool(false)),
            ("windowId", n(1)),
            ("index", n(2)),
            ("openerTabId", n(3)),
        ])
    );
}

#[test]
fn group_tabs_arguments() {
    let bare = GroupTabsRequest {
        tab_ids: vec![1, 2],
        group_id: None,
        create_properties: None,
        group_properties: None,
    };
    assert_eq!(group_tabs_args(bare), obj(vec![("tabIds", arr(vec![n(1), n(2)]))]));
    let full = GroupTabsRequest {
        tab_ids: vec![],
        group_id: Some(7),
        create_properties: Some(CreatePropertiesRequest { window_id: Some(3) }),
        group_properties: Some(GroupPropertiesRequest {
            title: Some("Work".into()),
            color: None,
            collapsed: Some(true),
        }),
    };
    assert_eq!(
        group_tabs_args(full),
        obj(vec![
            ("tabIds", arr(vec![])),
            ("groupId", n(7)),
            ("createProperties", obj(vec![("windowId", n(3))])),
            ("groupProperties", obj(vec![("title", s("Work")), ("collapsed", Json::Bool(true))])),
        ])
    );
}

#[test]
fn replies_update_the_caches() {
    let mut state = AppState::new(AppConfig::default());
    state.note_windows_result(&obj(vec![("windows", arr(vec![tab(8, 8, "w", "")]))]));
    state.cache_tabs(arr(vec![tab(1, 10, "a", "a")]));
    state.note_tab_result(&obj(vec![("tab", tab(2, 10, "b", "b"))]));
    state.note_tab_result(&obj(vec![("other", n(1))]));
    state.note_focus_result(&obj(vec![
        ("tab", tab(1, 10, "A", "a")),
        ("window", tab(8, 8, "W", "")),
    ]));
    state.note_group_result(&obj(vec![("tabs", arr(vec![tab(3, 10, "c", "c")]))]));
    assert_eq!(
        state.get_tabs_cache(),
        Some(arr(vec![tab(1, 10, "A", "a"), tab(2, 10, "b", "b"), tab(3, 10, "c", "c")]))
    );
    assert_eq!(state.snapshot().last_windows, Some(arr(vec![tab(8, 8, "W", "")])));
    assert_eq!(state.tabs_for_listing(Some(true)), None);
    assert!(state.tabs_for_listing(None).is_some());
    assert!(state.tabs_for_listing(Some(false)).is_some());
}

#[test]
fn empty_search_keeps_every_tab() {
    let tabs = arr(vec![tab(1, 10, "A", "a"), tab(2, 11, "", "")]);
    assert_eq!(filter_tabs(tabs.clone(), None, Some("")), tabs);
    assert_eq!(filter_tabs(tabs.clone(), Some(10), Some("")), filter_tabs(tabs.clone(), Some(10), None));
}

#[test]
fn filtering_in_two_steps() {
    let tabs = arr(vec![
        tab(1, 10, "Alpha", "a"),
        tab(2, 10, "beta", "b"),
        tab(3, 11, "ALPHABET", "c"),
    ]);
    let by_window = filter_tabs(tabs.clone(), Some(10), None);
    assert_eq!(filter_tabs(by_window, None, Some("alpha")), filter_tabs(tabs, Some(10), Some("alpha")));
}

#[test]
fn each_endpoint_names_its_command() {
    assert_eq!(list_windows_command().name, "list_windows");
    assert_eq!(list_windows_command().args, obj(vec![]));
    assert_eq!(list_tabs_command(Some(2)).name, "list_tabs");
    assert_eq!(list_tabs_command(Some(2)).args, obj(vec![("windowId", n(2))]));
    assert_eq!(active_tab_command(None).name, "get_active_tab");
    assert_eq!(tab_state_command(4).name, "get_tab_state");
    assert_eq!(tab_state_command(4).args, obj(vec![("tabId", n(4))]));
    assert_eq!(focus_tab_command(4).name, "focus_tab");
    assert_eq!(close_tab_command(4).name, "close_tab");
    let snap = SnapshotRequest { include_html: true, include_text: true, include_selection: true };
    assert_eq!(snapshot_tab_command(1, &snap).name, "snapshot_tab");
    let open = OpenTabRequest { url: "u".into(), active: None, window_id: None, index: None, opener_tab_id: None };
    assert_eq!(open_tab_command(open).name, "open_tab");
    let reload = ReloadTabRequest { bypass_cache: true, wait_for_complete: false };
    assert_eq!(reload_tab_command(1, &reload).name, "reload_tab");
    assert_eq!(move_tab_command(1, &MoveTabRequest { index: 1, window_id: None }).name, "move_tab");
    let group = GroupTabsRequest { tab_ids: vec![5], group_id: None, create_properties: None, group_properties: None };
    let c = group_tabs_command(group);
    assert_eq!(c.name, "group_tabs");
    assert_eq!(c.args, obj(vec![("tabIds", arr(vec![n(5)]))]));
}
