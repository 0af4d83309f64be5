//! The HTTP side: the arguments each endpoint sends to the extension, how a
//! reply is read, how tabs are filtered, what is cached from a reply, and
//! the errors the endpoints answer with.
use vstd::prelude::*;

use crate::json::{clone_items, lemma_find_key_at, lemma_find_key_none, pairs_of, Json, JsonNumber};
use crate::state::{
    cached_list_after, upserted, upserted_all, AppState, SendCommandError, StateView,
};
use crate::text::{contains_text, lowercase_of, occurs_at, text_contains, to_lowercase};

verus! {

pub const STATUS_INTERNAL_SERVER_ERROR: u16 = 500;

pub const STATUS_BAD_GATEWAY: u16 = 502;

pub const STATUS_SERVICE_UNAVAILABLE: u16 = 503;

pub const STATUS_GATEWAY_TIMEOUT: u16 = 504;

/// An error answer: the HTTP status, a code and a message.
#[derive(Debug, Clone, PartialEq, Eq)]
pub struct ApiError {
    pub status: u16,
    pub code: &'static str,
    pub message: String,
}

/// `e` is a 502 `EXTENSION_ERROR` with the message `message`.
pub open spec fn is_bad_gateway(e: ApiError, message: Seq<char>) -> bool {
    e.status == STATUS_BAD_GATEWAY && e.code@ == "EXTENSION_ERROR"@ && e.message@ == message
}

/// `e` has the status, code and message given.
pub open spec fn is_api_error(e: ApiError, status: u16, code: Seq<char>, message: Seq<char>) -> bool {
    e.status == status && e.code@ == code && e.message@ == message
}

impl ApiError {
    pub fn new(status: u16, code: &'static str, message: String) -> (e: ApiError)
        ensures
            e.status == status,
            e.code == code,
            e.message == message,
    {
        ApiError { status, code, message }
    }

    /// A failure of the extension or of its reply.
    pub fn bad_gateway(message: String) -> (e: ApiError)
        ensures
            e.status == STATUS_BAD_GATEWAY,
            e.code@ == "EXTENSION_ERROR"@,
            e.message == message,
    {
        ApiError::new(STATUS_BAD_GATEWAY, "EXTENSION_ERROR", message)
    }

    /// The answer to a command that got no reply.
    pub fn from_send_error(error: SendCommandError) -> (e: ApiError)
        ensures
            match error {
                SendCommandError::ExtensionNotConnected => is_api_error(
                    e,
                    STATUS_SERVICE_UNAVAILABLE,
                    "EXTENSION_NOT_CONNECTED"@,
                    "extension is not connected to /ws"@,
                ),
                SendCommandError::TransportClosed => is_api_error(
                    e,
                    STATUS_SERVICE_UNAVAILABLE,
                    "EXTENSION_DISCONNECTED"@,
                    "extension connection closed before command could be sent"@,
                ),
                SendCommandError::Timeout => is_api_error(
                    e,
                    STATUS_GATEWAY_TIMEOUT,
                    "EXTENSION_TIMEOUT"@,
                    "extension command timed out"@,
                ),
                SendCommandError::ResponseDropped => is_api_error(
                    e,
                    STATUS_BAD_GATEWAY,
                    "EXTENSION_RESPONSE_DROPPED"@,
                    "extension response channel dropped unexpectedly"@,
                ),
                SendCommandError::InvalidMessage(message) => e.status
                    == STATUS_INTERNAL_SERVER_ERROR && e.code@ == "COMMAND_SERIALIZATION_FAILED"@
                    && e.message == message,
            },
    {
        match error {
            SendCommandError::ExtensionNotConnected => ApiError::new(
                STATUS_SERVICE_UNAVAILABLE,
                "EXTENSION_NOT_CONNECTED",
                "extension is not connected to /ws".to_owned(),
            ),
            SendCommandError::TransportClosed => ApiError::new(
                STATUS_SERVICE_UNAVAILABLE,
                "EXTENSION_DISCONNECTED",
                "extension connection closed before command could be sent".to_owned(),
            ),
            SendCommandError::Timeout => ApiError::new(
                STATUS_GATEWAY_TIMEOUT,
                "EXTENSION_TIMEOUT",
                "extension command timed out".to_owned(),
            ),
            SendCommandError::ResponseDropped => ApiError::new(
                STATUS_BAD_GATEWAY,
                "EXTENSION_RESPONSE_DROPPED",
                "extension response channel dropped unexpectedly".to_owned(),
            ),
            SendCommandError::InvalidMessage(message) => ApiError::new(
                STATUS_INTERNAL_SERVER_ERROR,
                "COMMAND_SERIALIZATION_FAILED",
                message,
            ),
        }
    }

    /// The body of the answer: `{"ok": false, "error": {"code": .., "message": ..}}`.
    pub fn payload(&self) -> (r: Json)
        ensures
            r.pairs() matches Some(p) && {
                &&& p.len() == 2
                &&& p[0].0 == "ok"@ && p[0].1 == Json::Bool(false)
                &&& p[1].0 == "error"@
                &&& p[1].1.pairs() matches Some(e) && {
                    &&& e.len() == 2
                    &&& e[0].0 == "code"@ && e[0].1.text() == Some(self.code@)
                    &&& e[1].0 == "message"@ && e[1].1.text() == Some(self.message@)
                }
            },
    {
        let error = Json::object_of(
            vec![
                ("code".to_owned(), Json::string(self.code)),
                ("message".to_owned(), Json::string(self.message.as_str())),
            ],
        );
        Json::object_of(vec![("ok".to_owned(), Json::Bool(false)), ("error".to_owned(), error)])
    }
}

// ---------------------------------------------------------------------------
// Reading a reply
// ---------------------------------------------------------------------------

/// A string of the reply's `error` object, or `fallback`.
pub open spec fn error_text(response: Json, key: Seq<char>, fallback: Seq<char>) -> Seq<char> {
    match response.field("error"@) {
        Some(e) => match e.text_field(key) {
            Some(t) => t,
            None => fallback,
        },
        None => fallback,
    }
}

/// The message for a command that the extension reports as failed.
pub open spec fn command_failure_message(code: Seq<char>, message: Seq<char>) -> Seq<char> {
    "extension command failed ("@ + code + "): "@ + message
}

/// The reply's `ok` flag.
pub open spec fn ok_flag(response: Json) -> Option<bool> {
    match response.field("ok"@) {
        Some(v) => v.flag(),
        None => None,
    }
}

/// What `check_command_response` gives for `response`.
pub open spec fn command_result(response: Json, r: Result<Json, ApiError>) -> bool {
    match ok_flag(response) {
        None => r matches Err(e) && is_bad_gateway(e, "extension response missing ok field"@),
        Some(true) => match response.field("result"@) {
            Some(result) => r == Ok::<Json, ApiError>(result),
            None => r matches Err(e) && is_bad_gateway(
                e,
                "extension success response missing result field"@,
            ),
        },
        Some(false) => r matches Err(e) && is_bad_gateway(
            e,
            command_failure_message(
                error_text(response, "code"@, "COMMAND_FAILED"@),
                error_text(response, "message"@, "extension returned error without message"@),
            ),
        ),
    }
}

fn error_text_exec<'a>(response: &'a Json, key: &str, fallback: &'a str) -> (r: &'a str)
    ensures
        r@ == error_text(*response, key@, fallback@),
{
    match response.get("error") {
        Some(e) => match e.get(key) {
            Some(v) => match v.as_str() {
                Some(s) => s,
                None => fallback,
            },
            None => fallback,
        },
        None => fallback,
    }
}

/// Reads the extension's reply to a command: the `result` of a reply whose
/// `ok` is true; otherwise a 502 that says what went wrong.
pub fn check_command_response(response: Json) -> (r: Result<Json, ApiError>)
    ensures
        command_result(response, r),
{
    let ok = match response.get("ok") {
        Some(v) => match v.as_bool() {
            Some(b) => b,
            None => {
                return Err(ApiError::bad_gateway("extension response missing ok field".to_owned()));
            },
        },
        None => {
            return Err(ApiError::bad_gateway("extension response missing ok field".to_owned()));
        },
    };
    if ok {
        match response.get("result") {
            Some(result) => Ok(result.duplicate()),
            None => Err(
                ApiError::bad_gateway("extension success response missing result field".to_owned()),
            ),
        }
    } else {
        let code = error_text_exec(&response, "code", "COMMAND_FAILED");
        let message = error_text_exec(
            &response,
            "message",
            "extension returned error without message",
        );
        let mut text = "extension command failed (".to_owned();
        text.append(code);
        text.append("): ");
        text.append(message);
        Err(ApiError::bad_gateway(text))
    }
}

/// The `tabs` of a reply to `list_tabs`; a reply without them is a 502.
pub fn tabs_from_response(response: &Json) -> (r: Result<Json, ApiError>)
    ensures
        match response.field("tabs"@) {
            Some(tabs) => r == Ok::<Json, ApiError>(tabs),
            None => r matches Err(e) && is_bad_gateway(e, "extension response missing tabs field"@),
        },
{
    match response.get("tabs") {
        Some(tabs) => Ok(tabs.duplicate()),
        None => Err(ApiError::bad_gateway("extension response missing tabs field".to_owned())),
    }
}

// ---------------------------------------------------------------------------
// Filtering tabs
// ---------------------------------------------------------------------------

/// The tab lies in window `window_id`.
pub open spec fn in_window(tab: Json, window_id: u32) -> bool {
    tab.unsigned_field("windowId"@) == Some(window_id as u64)
}

pub open spec fn text_or_empty(t: Option<Seq<char>>) -> Seq<char> {
    match t {
        Some(s) => s,
        None => Seq::empty(),
    }
}

/// The tab's title or address, lower-cased, holds `needle`.
pub open spec fn mentions(tab: Json, needle: Seq<char>) -> bool {
    contains_text(lowercase_of(text_or_empty(tab.text_field("title"@))), needle) || contains_text(
        lowercase_of(text_or_empty(tab.text_field("url"@))),
        needle,
    )
}

/// The tabs of the list `tabs` (none when it is not an array) that lie in
/// the window asked for and whose title or address holds the search text,
/// both compared in lower case; in their order.
pub open spec fn filtered_tabs(tabs: Json, window_id: Option<u32>, q: Option<Seq<char>>) -> Seq<
    Json,
> {
    let list = match tabs.elements() {
        Some(l) => l,
        None => Seq::empty(),
    };
    let by_window = match window_id {
        Some(id) => list.filter(|t: Json| in_window(t, id)),
        None => list,
    };
    match q {
        Some(s) => by_window.filter(|t: Json| mentions(t, lowercase_of(s))),
        None => by_window,
    }
}

pub open spec fn opt_view(q: Option<&str>) -> Option<Seq<char>> {
    match q {
        Some(s) => Some(s@),
        None => None,
    }
}

fn in_window_exec(tab: &Json, window_id: u32) -> (r: bool)
    ensures
        r == in_window(*tab, window_id),
{
    match tab.get("windowId") {
        Some(v) => match v.as_u64() {
            Some(n) => n == window_id as u64,
            None => false,
        },
        None => false,
    }
}

fn text_or_empty_exec<'a>(tab: &'a Json, key: &str) -> (r: &'a str)
    ensures
        r@ == text_or_empty(tab.text_field(key@)),
{
    proof {
        reveal_strlit("");
    }
    match tab.get(key) {
        Some(v) => match v.as_str() {
            Some(s) => s,
            None => "",
        },
        None => "",
    }
}

fn mentions_exec(tab: &Json, needle: &str) -> (r: bool)
    ensures
        r == mentions(*tab, needle@),
{
    let title = to_lowercase(text_or_empty_exec(tab, "title"));
    let url = to_lowercase(text_or_empty_exec(tab, "url"));
    text_contains(title.as_str(), needle) || text_contains(url.as_str(), needle)
}

fn keep_in_window(list: &Vec<Json>, window_id: u32) -> (r: Vec<Json>)
    ensures
        r@ == list@.filter(|t: Json| in_window(t, window_id)),
{
    let ghost keep = |t: Json| in_window(t, window_id);
    let mut r: Vec<Json> = Vec::new();
    let mut i: usize = 0;
    while i < list.len()
        invariant
            i <= list@.len(),
            keep == (|t: Json| in_window(t, window_id)),
            r@ == list@.take(i as int).filter(keep),
        decreases list@.len() - i,
    {
        let tab = &list[i];
        proof {
            list@.take(i as int).lemma_filter_push(list@[i as int], keep);
            assert(list@.take(i + 1) =~= list@.take(i as int).push(list@[i as int]));
        }
        if in_window_exec(tab, window_id) {
            r.push(tab.duplicate());
        }
        i = i + 1;
    }
    assert(list@.take(list@.len() as int) =~= list@);
    r
}

fn keep_mentioning(list: &Vec<Json>, needle: &str) -> (r: Vec<Json>)
    ensures
        r@ == list@.filter(|t: Json| mentions(t, needle@)),
{
    let ghost keep = |t: Json| mentions(t, needle@);
    let mut r: Vec<Json> = Vec::new();
    let mut i: usize = 0;
    while i < list.len()
        invariant
            i <= list@.len(),
            keep == (|t: Json| mentions(t, needle@)),
            r@ == list@.take(i as int).filter(keep),
        decreases list@.len() - i,
    {
        let tab = &list[i];
        proof {
            list@.take(i as int).lemma_filter_push(list@[i as int], keep);
            assert(list@.take(i + 1) =~= list@.take(i as int).push(list@[i as int]));
        }
        if mentions_exec(tab, needle) {
            r.push(tab.duplicate());
        }
        i = i + 1;
    }
    assert(list@.take(list@.len() as int) =~= list@);
    r
}

/// The tabs of `tabs` that lie in window `window_id` and whose title or
/// address holds `q`, ignoring case; a value that is not an array counts as
/// an empty list.
pub fn filter_tabs(tabs: Json, window_id: Option<u32>, q: Option<&str>) -> (r: Json)
    ensures
        r.elements() == Some(filtered_tabs(tabs, window_id, opt_view(q))),
        q matches Some(search) && search@.len() == 0 ==> r.elements() == Some(
            filtered_tabs(tabs, window_id, None),
        ),
{
    let list: Vec<Json> = match tabs.as_array() {
        Some(items) => clone_items(items),
        None => Vec::new(),
    };
    let by_window = match window_id {
        Some(id) => keep_in_window(&list, id),
        None => list,
    };
    let found = match q {
        Some(search) => {
            let needle = to_lowercase(search);
            let kept = keep_mentioning(&by_window, needle.as_str());
            proof {
                if search@.len() == 0 {
                    let pq = |t: Json| mentions(t, needle@);
                    assert forall|i: int| 0 <= i < by_window@.len() implies pq(
                        #[trigger] by_window@[i],
                    ) by {
                        let title = lowercase_of(text_or_empty(by_window@[i].text_field("title"@)));
                        assert(title.subrange(0, 0) =~= needle@);
                        assert(occurs_at(title, needle@, 0));
                    }
                    lemma_filter_keeps_all(by_window@, pq);
                }
            }
            kept
        },
        None => by_window,
    };
    Json::array(found)
}

/// The answer of the tab listing: `{"tabs": ..}`, filtered when a window or
/// a search text is asked for, the list as it is otherwise.
pub fn tabs_listing(tabs: Json, window_id: Option<u32>, q: Option<&str>) -> (r: Json)
    ensures
        r.pairs() matches Some(p) && p.len() == 1 && p[0].0 == "tabs"@ && if window_id is Some
            || q is Some {
            p[0].1.elements() == Some(filtered_tabs(tabs, window_id, opt_view(q)))
        } else {
            p[0].1 == tabs
        },
{
    let listed = if window_id.is_some() || q.is_some() {
        filter_tabs(tabs, window_id, q)
    } else {
        tabs
    };
    Json::object_of(vec![("tabs".to_owned(), listed)])
}

// ---------------------------------------------------------------------------
// Command arguments
// ---------------------------------------------------------------------------

/// The JSON number of `n`.
pub open spec fn number(n: u32) -> Json {
    Json::Number(JsonNumber::PosInt(n as u64))
}

/// One entry when `value` is given, none otherwise.
pub open spec fn optional_entry(key: Seq<char>, value: Option<Json>) -> Seq<(Seq<char>, Json)> {
    match value {
        Some(v) => seq![(key, v)],
        None => Seq::empty(),
    }
}

pub open spec fn optional_number(n: Option<u32>) -> Option<Json> {
    match n {
        Some(v) => Some(number(v)),
        None => None,
    }
}

pub open spec fn optional_flag(b: Option<bool>) -> Option<Json> {
    match b {
        Some(v) => Some(Json::Bool(v)),
        None => None,
    }
}

pub open spec fn optional_string(s: Option<String>) -> Option<Json> {
    match s {
        Some(v) => Some(Json::String(v)),
        None => None,
    }
}

fn push_optional(fields: &mut Vec<(String, Json)>, key: &str, value: Option<Json>)
    ensures
        pairs_of(final(fields)@) == pairs_of(old(fields)@) + optional_entry(key@, value),
{
    let ghost before = pairs_of(fields@);
    match value {
        Some(v) => {
            fields.push((key.to_owned(), v));
            assert(pairs_of(fields@) =~= before + optional_entry(key@, value));
        },
        None => {
            assert(pairs_of(fields@) =~= before + optional_entry(key@, value));
        },
    }
}

fn number_json(n: u32) -> (r: Json)
    ensures
        r == number(n),
{
    Json::Number(JsonNumber::PosInt(n as u64))
}

fn optional_number_json(n: Option<u32>) -> (r: Option<Json>)
    ensures
        r == optional_number(n),
{
    match n {
        Some(v) => Some(number_json(v)),
        None => None,
    }
}

fn optional_flag_json(b: Option<bool>) -> (r: Option<Json>)
    ensures
        r == optional_flag(b),
{
    match b {
        Some(v) => Some(Json::Bool(v)),
        None => None,
    }
}

fn optional_string_json(s: Option<String>) -> (r: Option<Json>)
    ensures
        r == optional_string(s),
{
    match s {
        Some(v) => Some(Json::String(v)),
        None => None,
    }
}

/// The arguments `{}`.
pub fn no_args() -> (r: Json)
    ensures
        r.pairs() == Some(Seq::<(Seq<char>, Json)>::empty()),
{
    Json::empty_object()
}

/// The arguments that name a window when one is given: `{"windowId": id}` or `{}`.
pub fn window_args(window_id: Option<u32>) -> (r: Json)
    ensures
        r.pairs() == Some(optional_entry("windowId"@, optional_number(window_id))),
{
    let mut fields: Vec<(String, Json)> = Vec::new();
    push_optional(&mut fields, "windowId", optional_number_json(window_id));
    assert(pairs_of(fields@) =~= optional_entry("windowId"@, optional_number(window_id)));
    Json::object_of(fields)
}

/// The arguments `{"tabId": tab_id}`.
pub fn tab_args(tab_id: u32) -> (r: Json)
    ensures
        r.pairs() == Some(seq![("tabId"@, number(tab_id))]),
{
    let fields = vec![("tabId".to_owned(), number_json(tab_id))];
    assert(pairs_of(fields@) =~= seq![("tabId"@, number(tab_id))]);
    Json::object_of(fields)
}

/// The body of a snapshot request; each part is included unless turned off.
#[derive(Debug, Clone, PartialEq, Eq)]
pub struct SnapshotRequest {
    pub include_html: bool,
    pub include_text: bool,
    pub include_selection: bool,
}

/// The default of each part of a snapshot request: included.
pub fn true_value() -> (r: bool)
    ensures
        r,
{
    true
}

/// The arguments of `snapshot_tab`.
pub fn snapshot_args(tab_id: u32, body: &SnapshotRequest) -> (r: Json)
    ensures
        r.pairs() == Some(
            seq![
                ("tabId"@, number(tab_id)),
                ("includeHtml"@, Json::Bool(body.include_html)),
                ("includeText"@, Json::Bool(body.include_text)),
                ("includeSelection"@, Json::Bool(body.include_selection)),
            ],
        ),
{
    let fields = vec![
        ("tabId".to_owned(), number_json(tab_id)),
        ("includeHtml".to_owned(), Json::Bool(body.include_html)),
        ("includeText".to_owned(), Json::Bool(body.include_text)),
        ("includeSelection".to_owned(), Json::Bool(body.include_selection)),
    ];
    let ghost expected = seq![
        ("tabId"@, number(tab_id)),
        ("includeHtml"@, Json::Bool(body.include_html)),
        ("includeText"@, Json::Bool(body.include_text)),
        ("includeSelection"@, Json::Bool(body.include_selection)),
    ];
    assert(pairs_of(fields@) =~= expected);
    Json::object_of(fields)
}

/// The body of a request to open a tab.
#[derive(Debug, Clone, PartialEq, Eq)]
pub struct OpenTabRequest {
    pub url: String,
    pub active: Option<bool>,
    pub window_id: Option<u32>,
    pub index: Option<u32>,
    pub opener_tab_id: Option<u32>,
}

/// The arguments of `open_tab`: the address, then each option that is given.
pub open spec fn open_tab_pairs(body: OpenTabRequest) -> Seq<(Seq<char>, Json)> {
    seq![("url"@, Json::String(body.url))] + optional_entry("active"@, optional_flag(body.active))
        + optional_entry("windowId"@, optional_number(body.window_id)) + optional_entry(
        "index"@,
        optional_number(body.index),
    ) + optional_entry("openerTabId"@, optional_number(body.opener_tab_id))
}

/// The arguments of `open_tab`.
pub fn open_tab_args(body: OpenTabRequest) -> (r: Json)
    ensures
        r.pairs() == Some(open_tab_pairs(body)),
{
    let ghost whole = body;
    let OpenTabRequest { url, active, window_id, index, opener_tab_id } = body;
    let mut fields: Vec<(String, Json)> = vec![("url".to_owned(), Json::String(url))];
    push_optional(&mut fields, "active", optional_flag_json(active));
    push_optional(&mut fields, "windowId", optional_number_json(window_id));
    push_optional(&mut fields, "index", optional_number_json(index));
    push_optional(&mut fields, "openerTabId", optional_number_json(opener_tab_id));
    assert(pairs_of(fields@) =~= open_tab_pairs(whole));
    Json::object_of(fields)
}

/// The body of a reload request.
#[derive(Debug, Clone, PartialEq, Eq)]
pub struct ReloadTabRequest {
    pub bypass_cache: bool,
    pub wait_for_complete: bool,
}

/// The arguments of `reload_tab`.
pub fn reload_args(tab_id: u32, body: &ReloadTabRequest) -> (r: Json)
    ensures
        r.pairs() == Some(
            seq![
                ("tabId"@, number(tab_id)),
                ("bypassCache"@, Json::Bool(body.bypass_cache)),
                ("waitForComplete"@, Json::Bool(body.wait_for_complete)),
            ],
        ),
{
    let fields = vec![
        ("tabId".to_owned(), number_json(tab_id)),
        ("bypassCache".to_owned(), Json::Bool(body.bypass_cache)),
        ("waitForComplete".to_owned(), Json::Bool(body.wait_for_complete)),
    ];
    let ghost expected = seq![
        ("tabId"@, number(tab_id)),
        ("bypassCache"@, Json::Bool(body.bypass_cache)),
        ("waitForComplete"@, Json::Bool(body.wait_for_complete)),
    ];
    assert(pairs_of(fields@) =~= expected);
    Json::object_of(fields)
}

/// The body of a request to move a tab.
#[derive(Debug, Clone, PartialEq, Eq)]
pub struct MoveTabRequest {
    pub index: u32,
    pub window_id: Option<u32>,
}

/// The arguments of `move_tab`.
pub fn move_args(tab_id: u32, body: &MoveTabRequest) -> (r: Json)
    ensures
        r.pairs() == Some(
            seq![("tabId"@, number(tab_id)), ("index"@, number(body.index))] + optional_entry(
                "windowId"@,
                optional_number(body.window_id),
            ),
        ),
{
    let mut fields = vec![
        ("tabId".to_owned(), number_json(tab_id)),
        ("index".to_owned(), number_json(body.index)),
    ];
    let ghost start = pairs_of(fields@);
    assert(start =~= seq![("tabId"@, number(tab_id)), ("index"@, number(body.index))]);
    push_optional(&mut fields, "windowId", optional_number_json(body.window_id));
    Json::object_of(fields)
}

/// Where a new tab group goes.
#[derive(Debug, Clone, PartialEq, Eq)]
pub struct CreatePropertiesRequest {
    pub window_id: Option<u32>,
}

/// How a tab group looks.
#[derive(Debug, Clone, PartialEq, Eq)]
pub struct GroupPropertiesRequest {
    pub title: Option<String>,
    pub color: Option<String>,
    pub collapsed: Option<bool>,
}

/// The body of a request to group tabs.
#[derive(Debug, Clone, PartialEq, Eq)]
pub struct GroupTabsRequest {
    pub tab_ids: Vec<u32>,
    pub group_id: Option<u32>,
    pub create_properties: Option<CreatePropertiesRequest>,
    pub group_properties: Option<GroupPropertiesRequest>,
}

/// The entries of the `groupProperties` object.
pub open spec fn group_property_pairs(g: GroupPropertiesRequest) -> Seq<(Seq<char>, Json)> {
    optional_entry("title"@, optional_string(g.title)) + optional_entry(
        "color"@,
        optional_string(g.color),
    ) + optional_entry("collapsed"@, optional_flag(g.collapsed))
}

/// `r` holds the arguments of `group_tabs` for `body`: `tabIds`, then
/// `groupId`, `createProperties` and `groupProperties` when given.
pub open spec fn group_args_match(r: Json, body: GroupTabsRequest) -> bool {
    r.pairs() matches Some(p) && {
        let n_group = if body.group_id is Some {
            1int
        } else {
            0
        };
        let n_create = if body.create_properties is Some {
            1int
        } else {
            0
        };
        let n_props = if body.group_properties is Some {
            1int
        } else {
            0
        };
        &&& p.len() == 1 + n_group + n_create + n_props
        &&& p[0].0 == "tabIds"@
        &&& p[0].1.elements() == Some(body.tab_ids@.map_values(|t: u32| number(t)))
        &&& body.group_id matches Some(g) ==> p[1] == ("groupId"@, number(g))
        &&& body.create_properties matches Some(c) ==> {
            &&& p[1 + n_group].0 == "createProperties"@
            &&& p[1 + n_group].1.pairs() == Some(
                optional_entry("windowId"@, optional_number(c.window_id)),
            )
        }
        &&& body.group_properties matches Some(g) ==> {
            &&& p[1 + n_group + n_create].0 == "groupProperties"@
            &&& p[1 + n_group + n_create].1.pairs() == Some(group_property_pairs(g))
        }
    }
}

/// The arguments of `group_tabs`.
pub fn group_tabs_args(body: GroupTabsRequest) -> (r: Json)
    ensures
        group_args_match(r, body),
{
    let ghost whole = body;
    let GroupTabsRequest { tab_ids, group_id, create_properties, group_properties } = body;
    let mut ids: Vec<Json> = Vec::new();
    let mut i: usize = 0;
    while i < tab_ids.len()
        invariant
            i <= tab_ids@.len(),
            ids@ == tab_ids@.take(i as int).map_values(|t: u32| number(t)),
        decreases tab_ids@.len() - i,
    {
        ids.push(number_json(tab_ids[i]));
        assert(tab_ids@.take(i + 1).map_values(|t: u32| number(t)) =~= tab_ids@.take(
            i as int,
        ).map_values(|t: u32| number(t)).push(number(tab_ids@[i as int])));
        i = i + 1;
    }
    assert(tab_ids@.take(i as int) =~= tab_ids@);
    let tab_list = Json::array(ids);
    let mut fields: Vec<(String, Json)> = vec![("tabIds".to_owned(), tab_list)];
    push_optional(&mut fields, "groupId", optional_number_json(group_id));
    let create = match create_properties {
        Some(c) => {
            let mut create_fields: Vec<(String, Json)> = Vec::new();
            push_optional(&mut create_fields, "windowId", optional_number_json(c.window_id));
            assert(pairs_of(create_fields@) =~= optional_entry(
                "windowId"@,
                optional_number(c.window_id),
            ));
            Some(Json::object_of(create_fields))
        },
        None => None,
    };
    push_optional(&mut fields, "createProperties", create);
    let props = match group_properties {
        Some(g) => {
            let ghost whole_g = g;
            let GroupPropertiesRequest { title, color, collapsed } = g;
            let mut group_fields: Vec<(String, Json)> = Vec::new();
            push_optional(&mut group_fields, "title", optional_string_json(title));
            push_optional(&mut group_fields, "color", optional_string_json(color));
            push_optional(&mut group_fields, "collapsed", optional_flag_json(collapsed));
            assert(pairs_of(group_fields@) =~= group_property_pairs(whole_g));
            Some(Json::object_of(group_fields))
        },
        None => None,
    };
    push_optional(&mut fields, "groupProperties", props);
    Json::object_of(fields)
}

// ---------------------------------------------------------------------------
// The command each endpoint sends
// ---------------------------------------------------------------------------

/// A command to send to the extension: its name and its arguments.
#[derive(Debug, Clone, PartialEq)]
pub struct ExtensionCommand {
    pub name: &'static str,
    pub args: Json,
}

/// The windows listing sends `list_windows` with `{}`.
pub fn list_windows_command() -> (c: ExtensionCommand)
    ensures
        c.name@ == "list_windows"@,
        c.args.pairs() == Some(Seq::<(Seq<char>, Json)>::empty()),
{
    ExtensionCommand { name: "list_windows", args: no_args() }
}

/// Fetching the tabs sends `list_tabs`, naming the window when one is given.
pub fn list_tabs_command(window_id: Option<u32>) -> (c: ExtensionCommand)
    ensures
        c.name@ == "list_tabs"@,
        c.args.pairs() == Some(optional_entry("windowId"@, optional_number(window_id))),
{
    ExtensionCommand { name: "list_tabs", args: window_args(window_id) }
}

/// The active tab sends `get_active_tab`, naming the window when one is given.
pub fn active_tab_command(window_id: Option<u32>) -> (c: ExtensionCommand)
    ensures
        c.name@ == "get_active_tab"@,
        c.args.pairs() == Some(optional_entry("windowId"@, optional_number(window_id))),
{
    ExtensionCommand { name: "get_active_tab", args: window_args(window_id) }
}

/// A tab's state sends `get_tab_state` with `{"tabId": tab_id}`.
pub fn tab_state_command(tab_id: u32) -> (c: ExtensionCommand)
    ensures
        c.name@ == "get_tab_state"@,
        c.args.pairs() == Some(seq![("tabId"@, number(tab_id))]),
{
    ExtensionCommand { name: "get_tab_state", args: tab_args(tab_id) }
}

/// Focusing a tab sends `focus_tab` with `{"tabId": tab_id}`.
pub fn focus_tab_command(tab_id: u32) -> (c: ExtensionCommand)
    ensures
        c.name@ == "focus_tab"@,
        c.args.pairs() == Some(seq![("tabId"@, number(tab_id))]),
{
    ExtensionCommand { name: "focus_tab", args: tab_args(tab_id) }
}

/// Closing a tab sends `close_tab` with `{"tabId": tab_id}`.
pub fn close_tab_command(tab_id: u32) -> (c: ExtensionCommand)
    ensures
        c.name@ == "close_tab"@,
        c.args.pairs() == Some(seq![("tabId"@, number(tab_id))]),
{
    ExtensionCommand { name: "close_tab", args: tab_args(tab_id) }
}

/// A snapshot sends `snapshot_tab` with the arguments of `snapshot_args`.
pub fn snapshot_tab_command(tab_id: u32, body: &SnapshotRequest) -> (c: ExtensionCommand)
    ensures
        c.name@ == "snapshot_tab"@,
        c.args.pairs() == Some(
            seq![
                ("tabId"@, number(tab_id)),
                ("includeHtml"@, Json::Bool(body.include_html)),
                ("includeText"@, Json::Bool(body.include_text)),
                ("includeSelection"@, Json::Bool(body.include_selection)),
            ],
        ),
{
    ExtensionCommand { name: "snapshot_tab", args: snapshot_args(tab_id, body) }
}

/// Opening a tab sends `open_tab` with the arguments of `open_tab_args`.
pub fn open_tab_command(body: OpenTabRequest) -> (c: ExtensionCommand)
    ensures
        c.name@ == "open_tab"@,
        c.args.pairs() == Some(open_tab_pairs(body)),
{
    ExtensionCommand { name: "open_tab", args: open_tab_args(body) }
}

/// Reloading a tab sends `reload_tab` with the arguments of `reload_args`.
pub fn reload_tab_command(tab_id: u32, body: &ReloadTabRequest) -> (c: ExtensionCommand)
    ensures
        c.name@ == "reload_tab"@,
        c.args.pairs() == Some(
            seq![
                ("tabId"@, number(tab_id)),
                ("bypassCache"@, Json::Bool(body.bypass_cache)),
                ("waitForComplete"@, Json::Bool(body.wait_for_complete)),
            ],
        ),
{
    ExtensionCommand { name: "reload_tab", args: reload_args(tab_id, body) }
}

/// Moving a tab sends `move_tab` with the arguments of `move_args`.
pub fn move_tab_command(tab_id: u32, body: &MoveTabRequest) -> (c: ExtensionCommand)
    ensures
        c.name@ == "move_tab"@,
        c.args.pairs() == Some(
            seq![("tabId"@, number(tab_id)), ("index"@, number(body.index))] + optional_entry(
                "windowId"@,
                optional_number(body.window_id),
            ),
        ),
{
    ExtensionCommand { name: "move_tab", args: move_args(tab_id, body) }
}

/// Grouping tabs sends `group_tabs` with the arguments of `group_tabs_args`.
pub fn group_tabs_command(body: GroupTabsRequest) -> (c: ExtensionCommand)
    ensures
        c.name@ == "group_tabs"@,
        group_args_match(c.args, body),
{
    ExtensionCommand { name: "group_tabs", args: group_tabs_args(body) }
}

// ---------------------------------------------------------------------------
// What a reply puts in the caches
// ---------------------------------------------------------------------------

/// The state after `tab` was put into the cached tabs.
pub open spec fn tab_upserted(before: StateView, after: StateView, tab: Json) -> bool {
    &&& after == (StateView { last_tabs: after.last_tabs, ..before })
    &&& cached_list_after(before.last_tabs, after.last_tabs, |l: Seq<Json>| upserted(l, tab))
}

impl AppState {
    /// The cached tabs that a listing may use: none when a refresh is asked
    /// for, so that the list is fetched anew.
    pub fn tabs_for_listing(&self, refresh: Option<bool>) -> (r: Option<Json>)
        ensures
            r == if refresh == Some(true) {
                None
            } else {
                self@.last_tabs
            },
    {
        let refresh = match refresh {
            Some(b) => b,
            None => false,
        };
        if refresh {
            None
        } else {
            self.get_tabs_cache()
        }
    }

    /// Caches the `windows` of a reply to `list_windows`, when it has them.
    pub fn note_windows_result(&mut self, result: &Json)
        ensures
            match result.field("windows"@) {
                Some(w) => final(self)@ == (StateView { last_windows: Some(w), ..old(self)@ }),
                None => final(self)@ == old(self)@,
            },
    {
        if let Some(windows) = result.get("windows") {
            self.cache_windows(windows.duplicate());
        }
    }

    /// Puts the `tab` of a reply into the cached tabs, when it has one.
    pub fn note_tab_result(&mut self, result: &Json)
        ensures
            match result.field("tab"@) {
                Some(t) => tab_upserted(old(self)@, final(self)@, t),
                None => final(self)@ == old(self)@,
            },
    {
        if let Some(tab) = result.get("tab") {
            self.upsert_tab_cache_entry(tab);
        }
    }

    /// Puts the `tab` and the `window` of a reply to `focus_tab` into the
    /// caches, each when the reply has it.
    pub fn note_focus_result(&mut self, result: &Json)
        ensures
            final(self)@ == (StateView {
                last_tabs: final(self)@.last_tabs,
                last_windows: final(self)@.last_windows,
                ..old(self)@
            }),
            match result.field("tab"@) {
                Some(t) => cached_list_after(
                    old(self)@.last_tabs,
                    final(self)@.last_tabs,
                    |l: Seq<Json>| upserted(l, t),
                ),
                None => final(self)@.last_tabs == old(self)@.last_tabs,
            },
            match result.field("window"@) {
                Some(w) => cached_list_after(
                    old(self)@.last_windows,
                    final(self)@.last_windows,
                    |l: Seq<Json>| upserted(l, w),
                ),
                None => final(self)@.last_windows == old(self)@.last_windows,
            },
    {
        if let Some(tab) = result.get("tab") {
            self.upsert_tab_cache_entry(tab);
        }
        if let Some(window) = result.get("window") {
            self.upsert_window_cache_entry(window);
        }
    }

    /// Puts each of the `tabs` of a reply to `group_tabs` into the cached tabs,
    /// when the reply has an array of them.
    pub fn note_group_result(&mut self, result: &Json)
        ensures
            match result.field("tabs"@) {
                Some(t) => match t.elements() {
                    Some(items) => final(self)@ == (StateView {
                        last_tabs: final(self)@.last_tabs,
                        ..old(self)@
                    }) && cached_list_after(
                        old(self)@.last_tabs,
                        final(self)@.last_tabs,
                        |l: Seq<Json>| upserted_all(l, items),
                    ),
                    None => final(self)@ == old(self)@,
                },
                None => final(self)@ == old(self)@,
            },
    {
        if let Some(tabs) = result.get("tabs") {
            if let Some(items) = tabs.as_array() {
                self.upsert_tab_cache_entries(items);
            }
        }
    }
}

} // verus!

verus! {

proof fn lemma_filter_keeps_all(s: Seq<Json>, p: spec_fn(Json) -> bool)
    requires
        forall|i: int| 0 <= i < s.len() ==> p(#[trigger] s[i]),
    ensures
        s.filter(p) == s,
    decreases s.len(),
{
    reveal(Seq::filter);
    if s.len() > 0 {
        lemma_filter_keeps_all(s.drop_last(), p);
        assert(s.drop_last().push(s.last()) =~= s);
    }
}

/// Without a window or a search text, every element of an array of tabs is
/// kept, in order.
pub proof fn law_filter_without_criteria_keeps_all(tabs: Json)
    requires
        tabs.elements() is Some,
    ensures
        Some(filtered_tabs(tabs, None, None)) == tabs.elements(),
{
}

/// Filtering by window and then by search text gives what filtering by both
/// at once gives.
pub proof fn law_filter_in_two_steps(tabs: Json, by_window: Json, window_id: Option<u32>, q: Option<Seq<char>>)
    requires
        by_window.elements() == Some(filtered_tabs(tabs, window_id, None)),
    ensures
        filtered_tabs(by_window, None, q) == filtered_tabs(tabs, window_id, q),
{
}

/// Filtering the filtered tabs again with the same window and search text
/// gives them back unchanged.
pub proof fn law_filter_tabs_idempotent(tabs: Json, again: Json, window_id: Option<u32>, q: Option<Seq<char>>)
    requires
        again.elements() == Some(filtered_tabs(tabs, window_id, q)),
    ensures
        filtered_tabs(again, window_id, q) == filtered_tabs(tabs, window_id, q),
{
    let list = match tabs.elements() {
        Some(l) => l,
        None => Seq::empty(),
    };
    let by_window = match window_id {
        Some(id) => list.filter(|t: Json| in_window(t, id)),
        None => list,
    };
    let result = filtered_tabs(tabs, window_id, q);
    if let Some(id) = window_id {
        let pw = |t: Json| in_window(t, id);
        assert forall|i: int| 0 <= i < result.len() implies pw(#[trigger] result[i]) by {
            match q {
                Some(s) => {
                    let pq = |t: Json| mentions(t, lowercase_of(s));
                    assert(by_window.filter(pq).contains(result[i]));
                    by_window.lemma_filter_contains_rev(pq, result[i]);
                    let k = choose|k: int| 0 <= k < by_window.len() && by_window[k] == result[i];
                    list.lemma_filter_pred(pw, k);
                },
                None => {
                    list.lemma_filter_pred(pw, i);
                },
            }
        }
        lemma_filter_keeps_all(result, pw);
    }
    if let Some(s) = q {
        let pq = |t: Json| mentions(t, lowercase_of(s));
        assert forall|i: int| 0 <= i < result.len() implies pq(#[trigger] result[i]) by {
            by_window.lemma_filter_pred(pq, i);
        }
        lemma_filter_keeps_all(result, pq);
    }
}

/// Every group property that a request to group tabs gives (title, color,
/// collapsed) is sent in `groupProperties` under its own key with the given
/// value, and a property that is not given is not sent; the tab ids are sent
/// in `tabIds`, in order.
pub proof fn law_group_properties_are_sent(r: Json, body: GroupTabsRequest, g: GroupPropertiesRequest)
    requires
        group_args_match(r, body),
        body.group_properties == Some(g),
    ensures
        r.field("tabIds"@) matches Some(ids) && ids.elements() == Some(
            body.tab_ids@.map_values(|t: u32| Json::Number(JsonNumber::PosInt(t as u64))),
        ),
        r.field("groupProperties"@) matches Some(gp) && {
            &&& match g.title {
                Some(t) => gp.field("title"@) == Some(Json::String(t)),
                None => gp.field("title"@) is None,
            }
            &&& match g.color {
                Some(c) => gp.field("color"@) == Some(Json::String(c)),
                None => gp.field("color"@) is None,
            }
            &&& match g.collapsed {
                Some(b) => gp.field("collapsed"@) == Some(Json::Bool(b)),
                None => gp.field("collapsed"@) is None,
            }
        },
{
    reveal_strlit("tabIds");
    reveal_strlit("groupId");
    reveal_strlit("createProperties");
    reveal_strlit("groupProperties");
    reveal_strlit("title");
    reveal_strlit("color");
    reveal_strlit("collapsed");
    let p = r.pairs()->0;
    let n_group: int = if body.group_id is Some { 1 } else { 0 };
    let n_create: int = if body.create_properties is Some { 1 } else { 0 };
    let k = 1 + n_group + n_create;
    assert("tabIds"@.len() != "groupProperties"@.len());
    assert("groupId"@.len() != "groupProperties"@.len());
    assert("createProperties"@ != "groupProperties"@);
    assert("tabIds"@ != "groupId"@);
    assert("tabIds"@ != "createProperties"@);
    lemma_find_key_at(p, "tabIds"@, 0);
    assert(body.tab_ids@.map_values(|t: u32| Json::Number(JsonNumber::PosInt(t as u64)))
        =~= body.tab_ids@.map_values(|t: u32| number(t)));
    lemma_find_key_at(p, "groupProperties"@, k);
    let q = group_property_pairs(g);
    let t_entry = optional_entry("title"@, optional_string(g.title));
    let c_entry = optional_entry("color"@, optional_string(g.color));
    let b_entry = optional_entry("collapsed"@, optional_flag(g.collapsed));
    assert(q == t_entry + c_entry + b_entry);
    assert("title"@[0] != "color"@[0]);
    assert("title"@.len() != "collapsed"@.len());
    assert("color"@ != "collapsed"@);
    if g.title is Some {
        lemma_find_key_at(q, "title"@, 0);
    } else {
        lemma_find_key_none(q, "title"@);
    }
    if g.color is Some {
        lemma_find_key_at(q, "color"@, t_entry.len() as int);
    } else {
        lemma_find_key_none(q, "color"@);
    }
    if g.collapsed is Some {
        lemma_find_key_at(q, "collapsed"@, (t_entry.len() + c_entry.len()) as int);
    } else {
        lemma_find_key_none(q, "collapsed"@);
    }
}

/// Two tabs that a search cannot tell apart: the same window, and the same
/// title and address once lower-cased.
pub open spec fn alike_in_lower_case(a: Json, b: Json) -> bool {
    &&& a.unsigned_field("windowId"@) == b.unsigned_field("windowId"@)
    &&& lowercase_of(text_or_empty(a.text_field("title"@))) == lowercase_of(
        text_or_empty(b.text_field("title"@)),
    )
    &&& lowercase_of(text_or_empty(a.text_field("url"@))) == lowercase_of(
        text_or_empty(b.text_field("url"@)),
    )
}

proof fn lemma_filter_aligned(
    l1: Seq<Json>,
    l2: Seq<Json>,
    p1: spec_fn(Json) -> bool,
    p2: spec_fn(Json) -> bool,
)
    requires
        l1.len() == l2.len(),
        forall|i: int| 0 <= i < l1.len() ==> alike_in_lower_case(#[trigger] l1[i], l2[i]),
        forall|i: int| 0 <= i < l1.len() ==> p1(#[trigger] l1[i]) == p2(l2[i]),
    ensures
        l1.filter(p1).len() == l2.filter(p2).len(),
        forall|i: int|
            0 <= i < l1.filter(p1).len() ==> alike_in_lower_case(
                #[trigger] l1.filter(p1)[i],
                l2.filter(p2)[i],
            ),
    decreases l1.len(),
{
    reveal(Seq::filter);
    if l1.len() > 0 {
        let r1 = l1.drop_last();
        let r2 = l2.drop_last();
        assert forall|i: int| 0 <= i < r1.len() implies alike_in_lower_case(#[trigger] r1[i], r2[i])
            && p1(r1[i]) == p2(r2[i]) by {
            assert(r1[i] == l1[i] && r2[i] == l2[i]);
        }
        lemma_filter_aligned(r1, r2, p1, p2);
        assert(alike_in_lower_case(l1[l1.len() - 1], l2[l2.len() - 1]));
        assert(p1(l1[l1.len() - 1]) == p2(l2[l2.len() - 1]));
    }
}

/// The search ignores case: tab lists that differ only in the case of the
/// titles and addresses of their tabs, searched for texts that differ only
/// in case, keep tabs at the same places, as many on each side.
pub proof fn law_search_ignores_case(
    tabs1: Json,
    tabs2: Json,
    window_id: Option<u32>,
    q1: Seq<char>,
    q2: Seq<char>,
)
    requires
        lowercase_of(q1) == lowercase_of(q2),
        tabs1.elements() matches Some(l1) && tabs2.elements() matches Some(l2) && l1.len()
            == l2.len() && forall|i: int|
            0 <= i < l1.len() ==> alike_in_lower_case(#[trigger] l1[i], l2[i]),
    ensures
        filtered_tabs(tabs1, window_id, Some(q1)).len() == filtered_tabs(
            tabs2,
            window_id,
            Some(q2),
        ).len(),
        forall|i: int|
            0 <= i < filtered_tabs(tabs1, window_id, Some(q1)).len() ==> alike_in_lower_case(
                #[trigger] filtered_tabs(tabs1, window_id, Some(q1))[i],
                filtered_tabs(tabs2, window_id, Some(q2))[i],
            ),
{
    let l1 = tabs1.elements()->0;
    let l2 = tabs2.elements()->0;
    let (b1, b2) = match window_id {
        Some(w) => {
            let pw = |t: Json| in_window(t, w);
            lemma_filter_aligned(l1, l2, pw, pw);
            (l1.filter(pw), l2.filter(pw))
        },
        None => (l1, l2),
    };
    let p1 = |t: Json| mentions(t, lowercase_of(q1));
    let p2 = |t: Json| mentions(t, lowercase_of(q2));
    lemma_filter_aligned(b1, b2, p1, p2);
}

/// What the search keeps: a tab is in the result exactly when it is in the
/// list, lies in the window asked for (if one is), and its lower-cased title
/// or lower-cased address holds the lower-cased search text.
pub proof fn law_search_keeps_matching_tabs(tabs: Json, window_id: Option<u32>, q: Seq<char>, tab: Json)
    ensures
        filtered_tabs(tabs, window_id, Some(q)).contains(tab) <==> ((tabs.elements() matches Some(
            list,
        ) && list.contains(tab)) && (match window_id {
            Some(w) => tab.unsigned_field("windowId"@) == Some(w as u64),
            None => true,
        }) && (contains_text(lowercase_of(text_or_empty(tab.text_field("title"@))), lowercase_of(q))
            || contains_text(lowercase_of(text_or_empty(tab.text_field("url"@))), lowercase_of(q)))),
{
    let list = match tabs.elements() {
        Some(l) => l,
        None => Seq::empty(),
    };
    let pq = |t: Json| mentions(t, lowercase_of(q));
    let by_window = match window_id {
        Some(w) => list.filter(|t: Json| in_window(t, w)),
        None => list,
    };
    if by_window.filter(pq).contains(tab) {
        by_window.lemma_filter_contains_rev(pq, tab);
        if let Some(w) = window_id {
            list.lemma_filter_contains_rev(|t: Json| in_window(t, w), tab);
        }
    }
    if list.contains(tab) && (match window_id {
        Some(w) => in_window(tab, w),
        None => true,
    }) && pq(tab) {
        let i = choose|i: int| 0 <= i < list.len() && list[i] == tab;
        if let Some(w) = window_id {
            list.lemma_filter_contains(|t: Json| in_window(t, w), i);
        }
        assert(by_window.contains(tab));
        let j = choose|j: int| 0 <= j < by_window.len() && by_window[j] == tab;
        by_window.lemma_filter_contains(pq, j);
    }
}

} // verus!
