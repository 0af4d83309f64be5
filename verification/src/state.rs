//! What the server knows of the extension: the connection, the caches of its
//! last hello, tabs and windows, its recent events, and the commands that wait
//! for a reply.
use std::collections::VecDeque;
use vstd::prelude::*;

use crate::channels::{
    left_for_receiver, outbox_channel, outbox_clone, pending_channels, pending_ids, pending_insert,
    pending_len, pending_new, pending_remove, reply_channel, reply_receiver_channel, reply_send,
    Outbox, PendingMap, ReplyReceiver,
};
use crate::config::AppConfig;
use crate::json::{clone_items, json_error_of_text, json_of_text, parse_json_text, Json};
use crate::protocol::{classify_incoming, kind_of_type, utc_now, IncomingKind, Timestamp};

verus! {

/// Why a command got no reply.
#[derive(Debug, PartialEq, Eq)]
pub enum SendCommandError {
    ExtensionNotConnected,
    TransportClosed,
    Timeout,
    ResponseDropped,
    InvalidMessage(String),
}

/// What became of a reply from the extension.
#[derive(Debug, Clone, Copy, PartialEq, Eq, Structural)]
pub enum ResolveOutcome {
    /// The waiting command received it.
    Delivered,
    /// The command had stopped waiting.
    ReceiverGone,
    /// No command waits under that id.
    UnknownRequest,
}

/// How the exchange of one command with the extension ended.
#[derive(Debug)]
pub enum CommandOutcome {
    /// The command could not be written to the extension's socket.
    SendFailed,
    /// The extension replied.
    Replied(Json),
    /// The reply channel closed without a reply.
    ReplyDropped,
    /// No reply came within the request timeout.
    TimedOut,
}

/// A copy of what the server knows of the extension.
#[derive(Debug, Clone)]
pub struct ExtensionSnapshot {
    pub connected: bool,
    pub connected_since: Option<Timestamp>,
    pub last_message_at: Option<Timestamp>,
    pub last_hello: Option<Json>,
    pub last_tabs: Option<Json>,
    pub last_windows: Option<Json>,
    pub pending_requests: usize,
    pub recent_events: Vec<Json>,
}

struct ExtensionConnection {
    sender: Outbox,
}

/// The shared state of the server.
pub struct AppState {
    config: AppConfig,
    ext_connection: Option<ExtensionConnection>,
    connected_since: Option<Timestamp>,
    last_message_at: Option<Timestamp>,
    last_hello: Option<Json>,
    last_tabs: Option<Json>,
    last_windows: Option<Json>,
    recent_events: VecDeque<Json>,
    pending: PendingMap,
}

/// The state as a mathematical value.
pub struct StateView {
    pub config: AppConfig,
    /// The channel that commands go out on, while connected.
    pub outbox: Option<nat>,
    pub connected_since: Option<Timestamp>,
    pub last_message_at: Option<Timestamp>,
    pub last_hello: Option<Json>,
    pub last_tabs: Option<Json>,
    pub last_windows: Option<Json>,
    /// Oldest first.
    pub recent_events: Seq<Json>,
    /// The ids of the commands that wait for a reply, each with the channel
    /// its reply is handed to.
    pub pending: Map<Seq<char>, nat>,
}

/// The last `n` elements of `s` (all of them when there are no more than `n`).
pub open spec fn keep_last<A>(s: Seq<A>, n: nat) -> Seq<A> {
    if s.len() <= n {
        s
    } else {
        s.subrange(s.len() - n, s.len() as int)
    }
}

impl StateView {
    /// Whether the extension is connected.
    pub open spec fn connected(self) -> bool {
        self.outbox is Some
    }

    /// The state of a server that has just started.
    pub open spec fn initial(config: AppConfig) -> StateView {
        StateView {
            config,
            outbox: None,
            connected_since: None,
            last_message_at: None,
            last_hello: None,
            last_tabs: None,
            last_windows: None,
            recent_events: Seq::empty(),
            pending: Map::empty(),
        }
    }

    /// The state after the extension connected at `now`, reached through the
    /// channel `outbox`.
    pub open spec fn connect(self, now: Timestamp, outbox: nat) -> StateView {
        StateView { outbox: Some(outbox), connected_since: Some(now), ..self }
    }

    /// The state after the connection was dropped: every waiting command is
    /// failed and forgotten. Without a connection nothing changes.
    pub open spec fn disconnect(self) -> StateView {
        if self.connected() {
            StateView { outbox: None, pending: Map::empty(), ..self }
        } else {
            self
        }
    }

    /// The state after a message arrived at `now`.
    pub open spec fn heard_at(self, now: Timestamp) -> StateView {
        StateView { last_message_at: Some(now), ..self }
    }

    /// The state after `event` was recorded: the newest events, no more than the limit.
    pub open spec fn with_event(self, event: Json) -> StateView {
        StateView {
            recent_events: keep_last(
                self.recent_events.push(event),
                self.config.recent_events_limit as nat,
            ),
            ..self
        }
    }

    /// The state after the command `id` started to wait for its reply on
    /// channel `channel`.
    pub open spec fn awaiting(self, id: Seq<char>, channel: nat) -> StateView {
        StateView { pending: self.pending.insert(id, channel), ..self }
    }

    /// The state after the command `id` stopped waiting.
    pub open spec fn settled(self, id: Seq<char>) -> StateView {
        StateView { pending: self.pending.remove(id), ..self }
    }

    /// The state after a hello message: it is kept, and the windows and tabs
    /// of its payload, where it has them, are cached.
    pub open spec fn after_hello(self, message: Json) -> StateView {
        let payload = message.field("payload"@);
        let windows = match payload {
            Some(p) => p.field("windows"@),
            None => None,
        };
        let tabs = match payload {
            Some(p) => p.field("tabs"@),
            None => None,
        };
        StateView {
            last_hello: Some(message),
            last_windows: match windows {
                Some(w) => Some(w),
                None => self.last_windows,
            },
            last_tabs: match tabs {
                Some(t) => Some(t),
                None => self.last_tabs,
            },
            ..self
        }
    }

    /// The state after a well-formed message from the extension (one that is
    /// not a response without an id).
    pub open spec fn after_message(self, message: Json) -> StateView {
        match kind_of_type(message.text_field("type"@)) {
            IncomingKind::Hello => self.after_hello(message),
            IncomingKind::Event => self.with_event(message),
            IncomingKind::Response => match message.text_field("id"@) {
                Some(id) => self.settled(id),
                None => self,
            },
            _ => self,
        }
    }
}

/// A response that names no request.
pub open spec fn response_without_id(message: Json) -> bool {
    kind_of_type(message.text_field("type"@)) == IncomingKind::Response && message.text_field(
        "id"@,
    ) is None
}

/// How taking in the message `parsed` that arrived at `now` goes: `before`
/// becomes `after`, and `r` is the message's kind (with what became of it, for
/// a response) or why it was refused.
pub open spec fn message_handled(
    before: StateView,
    now: Timestamp,
    parsed: Result<Json, String>,
    r: Result<(IncomingKind, Option<ResolveOutcome>), String>,
    after: StateView,
) -> bool {
    match parsed {
        Err(e) => r == Err::<(IncomingKind, Option<ResolveOutcome>), String>(e) && after
            == before.heard_at(now),
        Ok(message) => if response_without_id(message) {
            &&& r matches Err(e) && e@ == "response message missing id"@
            &&& after == before.heard_at(now)
        } else {
            &&& r matches Ok(handled) && {
                let id = message.text_field("id"@)->0;
                let is_response = handled.0 == IncomingKind::Response;
                &&& handled.0 == kind_of_type(message.text_field("type"@))
                &&& (handled.1 is Some <==> is_response)
                &&& (handled.1 == Some(ResolveOutcome::UnknownRequest) <==> is_response
                    && !before.pending.dom().contains(id))
                &&& is_response && before.pending.dom().contains(id) ==> left_for_receiver(
                    before.pending[id],
                ) == (if handled.1 == Some(ResolveOutcome::Delivered) {
                    Some(message)
                } else {
                    None
                })
            }
            &&& after == before.heard_at(now).after_message(message)
        },
    }
}

/// Whether `parsed` is what reading the text `raw` as JSON gives: the value
/// read, or the message that says why the text is not JSON.
pub open spec fn read_from_text(raw: Seq<char>, parsed: Result<Json, String>) -> bool {
    match parsed {
        Ok(j) => json_of_text(raw) == Some(j),
        Err(e) => json_of_text(raw) is None && e@ == json_error_of_text(raw),
    }
}

/// The id that a tab or window object carries.
pub open spec fn entry_id(entry: Json) -> Option<u64> {
    entry.unsigned_field("id"@)
}

/// The position of the first entry that carries `id`.
pub open spec fn find_entry(list: Seq<Json>, id: u64) -> Option<int>
    decreases list.len(),
{
    if list.len() == 0 {
        None
    } else if entry_id(list[0]) == Some(id) {
        Some(0)
    } else {
        match find_entry(list.drop_first(), id) {
            Some(i) => Some(i + 1),
            None => None,
        }
    }
}

/// The list after putting `entry` in: it replaces the first entry with the
/// same id, or goes at the end; an entry without an id changes nothing.
pub open spec fn upserted(list: Seq<Json>, entry: Json) -> Seq<Json> {
    match entry_id(entry) {
        Some(id) => match find_entry(list, id) {
            Some(i) => list.update(i, entry),
            None => list.push(entry),
        },
        None => list,
    }
}

/// The list after putting each of `entries` in, in order.
pub open spec fn upserted_all(list: Seq<Json>, entries: Seq<Json>) -> Seq<Json>
    decreases entries.len(),
{
    if entries.len() == 0 {
        list
    } else {
        upserted(upserted_all(list, entries.drop_last()), entries.last())
    }
}

/// The list without the entries that carry `id`.
pub open spec fn without_id(list: Seq<Json>, id: u64) -> Seq<Json> {
    list.filter(|t: Json| entry_id(t) != Some(id))
}

/// A cached list after the change `f` when it is an array; otherwise it stays.
pub open spec fn cached_list_after(
    before: Option<Json>,
    after: Option<Json>,
    f: spec_fn(Seq<Json>) -> Seq<Json>,
) -> bool {
    match before {
        Some(b) => match b.elements() {
            Some(items) => after matches Some(a) && a.elements() == Some(f(items)),
            None => after == before,
        },
        None => after == before,
    }
}

proof fn lemma_find_entry_at(list: Seq<Json>, id: u64, i: int)
    requires
        0 <= i < list.len(),
        entry_id(list[i]) == Some(id),
        forall|j: int| 0 <= j < i ==> entry_id(list[j]) != Some(id),
    ensures
        find_entry(list, id) == Some(i),
    decreases i,
{
    if i > 0 {
        lemma_find_entry_at(list.drop_first(), id, i - 1);
    }
}

proof fn lemma_find_entry_none(list: Seq<Json>, id: u64)
    requires
        forall|j: int| 0 <= j < list.len() ==> entry_id(list[j]) != Some(id),
    ensures
        find_entry(list, id) is None,
    decreases list.len(),
{
    if list.len() > 0 {
        lemma_find_entry_none(list.drop_first(), id);
    }
}

pub proof fn lemma_find_entry_bounds(list: Seq<Json>, id: u64)
    ensures
        find_entry(list, id) matches Some(i) ==> 0 <= i < list.len() && entry_id(list[i]) == Some(
            id,
        ),
        find_entry(list, id) is None ==> forall|j: int|
            0 <= j < list.len() ==> entry_id(#[trigger] list[j]) != Some(id),
    decreases list.len(),
{
    if list.len() > 0 {
        lemma_find_entry_bounds(list.drop_first(), id);
        if find_entry(list, id) is None {
            assert forall|j: int| 0 <= j < list.len() implies entry_id(#[trigger] list[j]) != Some(
                id,
            ) by {
                if j > 0 {
                    assert(list[j] == list.drop_first()[j - 1]);
                }
            }
        }
    }
}

/// `list` with `entry` put in, as `upserted` says.
fn upsert_entry(list: &Vec<Json>, entry: &Json) -> (r: Vec<Json>)
    ensures
        r@ == upserted(list@, *entry),
{
    let mut r = clone_items(list);
    match entry.get("id") {
        Some(v) => match v.as_u64() {
            Some(id) => {
                let mut i: usize = 0;
                while i < r.len()
                    invariant
                        r@ == list@,
                        i <= r@.len(),
                        entry_id(*entry) == Some(id),
                        forall|j: int| 0 <= j < i ==> entry_id(r@[j]) != Some(id),
                    decreases r@.len() - i,
                {
                    let same = match r[i].get("id") {
                        Some(w) => match w.as_u64() {
                            Some(other) => other == id,
                            None => false,
                        },
                        None => false,
                    };
                    if same {
                        proof {
                            lemma_find_entry_at(list@, id, i as int);
                        }
                        r.set(i, entry.duplicate());
                        return r;
                    }
                    i = i + 1;
                }
                proof {
                    lemma_find_entry_none(list@, id);
                }
                r.push(entry.duplicate());
                r
            },
            None => r,
        },
        None => r,
    }
}

/// `list` without the entries that carry `id`.
fn remove_entries(list: &Vec<Json>, id: u64) -> (r: Vec<Json>)
    ensures
        r@ == without_id(list@, id),
{
    let ghost keep = |t: Json| entry_id(t) != Some(id);
    let mut r: Vec<Json> = Vec::new();
    let mut i: usize = 0;
    while i < list.len()
        invariant
            i <= list@.len(),
            keep == (|t: Json| entry_id(t) != Some(id)),
            r@ == list@.take(i as int).filter(keep),
        decreases list@.len() - i,
    {
        let item = &list[i];
        let same = match item.get("id") {
            Some(w) => match w.as_u64() {
                Some(other) => other == id,
                None => false,
            },
            None => false,
        };
        proof {
            list@.take(i as int).lemma_filter_push(list@[i as int], keep);
            assert(list@.take(i + 1) =~= list@.take(i as int).push(list@[i as int]));
        }
        if !same {
            r.push(item.duplicate());
        }
        i = i + 1;
    }
    assert(list@.take(list@.len() as int) =~= list@);
    r
}

impl View for AppState {
    type V = StateView;

    closed spec fn view(&self) -> StateView {
        StateView {
            config: self.config,
            outbox: match self.ext_connection {
                Some(c) => Some(outbox_channel(c.sender)),
                None => None,
            },
            connected_since: self.connected_since,
            last_message_at: self.last_message_at,
            last_hello: self.last_hello,
            last_tabs: self.last_tabs,
            last_windows: self.last_windows,
            recent_events: self.recent_events@,
            pending: pending_channels(self.pending),
        }
    }
}

impl AppState {
    /// A server that has just started: not connected, nothing cached, no
    /// events, no command waiting.
    pub fn new(config: AppConfig) -> (s: AppState)
        ensures
            s@ == StateView::initial(config),
    {
        let pending = pending_new();
        assert(pending_channels(pending) =~= Map::<Seq<char>, nat>::empty());
        AppState {
            config,
            ext_connection: None,
            connected_since: None,
            last_message_at: None,
            last_hello: None,
            last_tabs: None,
            last_windows: None,
            recent_events: VecDeque::new(),
            pending,
        }
    }

    /// The settings.
    pub fn config(&self) -> (r: &AppConfig)
        ensures
            *r == self@.config,
    {
        &self.config
    }

    /// Takes `sender` as the way to the extension, connected at `now`.
    pub fn set_extension_sender_at(&mut self, sender: Outbox, now: Timestamp)
        ensures
            final(self)@ == old(self)@.connect(now, outbox_channel(sender)),
    {
        self.ext_connection = Some(ExtensionConnection { sender });
        self.connected_since = Some(now);
    }

    /// Takes `sender` as the way to the extension, connected now.
    pub fn set_extension_sender(&mut self, sender: Outbox)
        ensures
            exists|now: Timestamp| final(self)@ == old(self)@.connect(now, outbox_channel(sender)),
    {
        let now = utc_now();
        self.set_extension_sender_at(sender, now);
    }

    /// Drops the way to the extension. When there was one, every command that
    /// waits is answered with an `EXTENSION_DISCONNECTED` failure and
    /// forgotten; the result says whether there was one.
    pub fn clear_extension_sender(&mut self) -> (had_connection: bool)
        ensures
            had_connection == old(self)@.connected(),
            final(self)@ == old(self)@.disconnect(),
            had_connection ==> forall|id: Seq<char>|
                #[trigger] old(self)@.pending.dom().contains(id) ==> failure_left_for(
                    old(self)@.pending[id],
                    id,
                    "EXTENSION_DISCONNECTED"@,
                    "extension session disconnected"@,
                ),
    {
        let had_connection = self.ext_connection.is_some();
        self.ext_connection = None;
        let ghost cleared = self@;
        assert(cleared.pending == old(self)@.pending);
        if had_connection {
            self.fail_all_pending("EXTENSION_DISCONNECTED", "extension session disconnected");
        }
        had_connection
    }

    /// Whether the extension is connected.
    pub fn extension_connected(&self) -> (r: bool)
        ensures
            r == self@.connected(),
    {
        self.ext_connection.is_some()
    }

    /// Notes that a message arrived at `now`.
    pub fn record_message_at(&mut self, now: Timestamp)
        ensures
            final(self)@ == old(self)@.heard_at(now),
    {
        self.last_message_at = Some(now);
    }

    /// Notes that a message arrived now.
    pub fn record_message(&mut self)
        ensures
            exists|now: Timestamp| final(self)@ == old(self)@.heard_at(now),
    {
        let now = utc_now();
        self.record_message_at(now);
    }

    /// Keeps the extension's last hello message.
    pub fn cache_hello(&mut self, message: Json)
        ensures
            final(self)@ == (StateView { last_hello: Some(message), ..old(self)@ }),
    {
        self.last_hello = Some(message);
    }

    /// Keeps the extension's last list of tabs.
    pub fn cache_tabs(&mut self, tabs: Json)
        ensures
            final(self)@ == (StateView { last_tabs: Some(tabs), ..old(self)@ }),
    {
        self.last_tabs = Some(tabs);
    }

    /// Keeps the extension's last list of windows.
    pub fn cache_windows(&mut self, windows: Json)
        ensures
            final(self)@ == (StateView { last_windows: Some(windows), ..old(self)@ }),
    {
        self.last_windows = Some(windows);
    }

    /// The cached list of tabs.
    pub fn get_tabs_cache(&self) -> (r: Option<Json>)
        ensures
            r == self@.last_tabs,
    {
        match &self.last_tabs {
            Some(t) => Some(t.duplicate()),
            None => None,
        }
    }

    /// Records an event from the extension; only the newest events, up to the
    /// configured limit, are kept.
    pub fn push_event(&mut self, event: Json)
        ensures
            final(self)@ == old(self)@.with_event(event),
    {
        let limit = self.config.recent_events_limit;
        let mut events: VecDeque<Json> = VecDeque::new();
        std::mem::swap(&mut events, &mut self.recent_events);
        let ghost all = events@.push(event);
        events.push_back(event);
        while events.len() > limit
            invariant
                all.len() <= limit + 1 || events@.len() <= all.len(),
                events@.len() <= all.len(),
                events@ == all.subrange(all.len() - events@.len(), all.len() as int),
                events@.len() >= if all.len() <= limit {
                    all.len()
                } else {
                    limit as nat
                },
            decreases events@.len(),
        {
            events.pop_front();
        }
        proof {
            if all.len() <= limit {
                assert(events@ =~= all);
            }
        }
        self.recent_events = events;
    }

    /// A copy of everything the server knows of the extension.
    pub fn snapshot(&self) -> (s: ExtensionSnapshot)
        ensures
            s.connected == self@.connected(),
            s.connected_since == self@.connected_since,
            s.last_message_at == self@.last_message_at,
            s.last_hello == self@.last_hello,
            s.last_tabs == self@.last_tabs,
            s.last_windows == self@.last_windows,
            s.pending_requests as nat == self@.pending.dom().len(),
            s.recent_events@ == self@.recent_events,
    {
        let mut recent_events: Vec<Json> = Vec::new();
        let mut i: usize = 0;
        while i < self.recent_events.len()
            invariant
                i <= self.recent_events@.len(),
                recent_events@ == self.recent_events@.take(i as int),
            decreases self.recent_events@.len() - i,
        {
            recent_events.push(self.recent_events[i].duplicate());
            assert(self.recent_events@.take(i + 1) =~= self.recent_events@.take(i as int).push(
                self.recent_events@[i as int],
            ));
            i = i + 1;
        }
        assert(self.recent_events@.take(i as int) =~= self.recent_events@);
        ExtensionSnapshot {
            connected: self.ext_connection.is_some(),
            connected_since: self.connected_since,
            last_message_at: self.last_message_at,
            last_hello: match &self.last_hello {
                Some(m) => Some(m.duplicate()),
                None => None,
            },
            last_tabs: match &self.last_tabs {
                Some(m) => Some(m.duplicate()),
                None => None,
            },
            last_windows: match &self.last_windows {
                Some(m) => Some(m.duplicate()),
                None => None,
            },
            pending_requests: pending_len(&self.pending),
            recent_events,
        }
    }

    /// Hands the extension's reply `payload` to the command `id` that waits
    /// for it; that command no longer waits.
    pub fn resolve_pending(&mut self, id: &str, payload: Json) -> (r: ResolveOutcome)
        ensures
            final(self)@ == old(self)@.settled(id@),
            (r == ResolveOutcome::UnknownRequest) == !old(self)@.pending.dom().contains(id@),
            old(self)@.pending.dom().contains(id@) ==> left_for_receiver(old(self)@.pending[id@])
                == (if r == ResolveOutcome::Delivered {
                Some(payload)
            } else {
                None
            }),
    {
        match pending_remove(&mut self.pending, id) {
            Some((_, reply)) => match reply_send(reply, payload) {
                Ok(()) => ResolveOutcome::Delivered,
                Err(_) => ResolveOutcome::ReceiverGone,
            },
            None => ResolveOutcome::UnknownRequest,
        }
    }

    /// The first half of sending a command: when the extension is connected,
    /// the command `request_id` starts to wait for its reply and the way to
    /// the extension and the reply's channel come back.
    pub fn begin_command(&mut self, request_id: &str) -> (r: Result<
        (Outbox, ReplyReceiver),
        SendCommandError,
    >)
        ensures
            old(self)@.connected() ==> (r matches Ok(halves) && {
                &&& Some(outbox_channel(halves.0)) == old(self)@.outbox
                &&& !old(self)@.pending.contains_value(reply_receiver_channel(halves.1))
                &&& final(self)@ == old(self)@.awaiting(request_id@, reply_receiver_channel(halves.1))
            }),
            !old(self)@.connected() ==> r == Err::<(Outbox, ReplyReceiver), SendCommandError>(
                SendCommandError::ExtensionNotConnected,
            ) && final(self)@ == old(self)@,
    {
        let outbox = match &self.ext_connection {
            Some(conn) => outbox_clone(&conn.sender),
            None => {
                return Err(SendCommandError::ExtensionNotConnected);
            },
        };
        let (reply_tx, reply_rx) = reply_channel(&self.pending);
        pending_insert(&mut self.pending, request_id.to_owned(), reply_tx);
        Ok((outbox, reply_rx))
    }

    /// The second half of sending a command: the reply, or the error that
    /// says why there is none; a command without a reply stops waiting.
    pub fn finish_command(&mut self, request_id: &str, outcome: CommandOutcome) -> (r: Result<
        Json,
        SendCommandError,
    >)
        ensures
            match outcome {
                CommandOutcome::Replied(message) => r == Ok::<Json, SendCommandError>(message)
                    && final(self)@ == old(self)@,
                CommandOutcome::SendFailed => r == Err::<Json, SendCommandError>(
                    SendCommandError::TransportClosed,
                ) && final(self)@ == old(self)@.settled(request_id@),
                CommandOutcome::ReplyDropped => r == Err::<Json, SendCommandError>(
                    SendCommandError::ResponseDropped,
                ) && final(self)@ == old(self)@.settled(request_id@),
                CommandOutcome::TimedOut => r == Err::<Json, SendCommandError>(
                    SendCommandError::Timeout,
                ) && final(self)@ == old(self)@.settled(request_id@),
            },
    {
        match outcome {
            CommandOutcome::Replied(message) => Ok(message),
            CommandOutcome::SendFailed => {
                let _ = pending_remove(&mut self.pending, request_id);
                Err(SendCommandError::TransportClosed)
            },
            CommandOutcome::ReplyDropped => {
                let _ = pending_remove(&mut self.pending, request_id);
                Err(SendCommandError::ResponseDropped)
            },
            CommandOutcome::TimedOut => {
                let _ = pending_remove(&mut self.pending, request_id);
                Err(SendCommandError::Timeout)
            },
        }
    }

    /// Answers every waiting command with a failure made of `code` and
    /// `message`, and forgets it.
    fn fail_all_pending(&mut self, code: &str, message: &str)
        ensures
            final(self)@ == (StateView { pending: Map::empty(), ..old(self)@ }),
            forall|id: Seq<char>|
                #[trigger] old(self)@.pending.dom().contains(id) ==> failure_left_for(
                    old(self)@.pending[id],
                    id,
                    code@,
                    message@,
                ),
    {
        let ids = pending_ids(&self.pending);
        let ghost names = ids@.map_values(|s: String| s@);
        let ghost start = pending_channels(self.pending);
        let mut i: usize = 0;
        while i < ids.len()
            invariant
                i <= ids@.len(),
                names == ids@.map_values(|s: String| s@),
                names.to_set() == start.dom(),
                names.no_duplicates(),
                start == old(self)@.pending,
                forall|k: Seq<char>|
                    #[trigger] pending_channels(self.pending).dom().contains(k) <==> start.dom().contains(k)
                        && !names.take(i as int).contains(k),
                forall|k: Seq<char>|
                    #[trigger] pending_channels(self.pending).dom().contains(k) ==> pending_channels(
                        self.pending,
                    )[k] == start[k],
                forall|k: Seq<char>|
                    #[trigger] names.take(i as int).contains(k) ==> failure_left_for(
                        start[k],
                        k,
                        code@,
                        message@,
                    ),
                self@ == (StateView { pending: pending_channels(self.pending), ..old(self)@ }),
            decreases ids@.len() - i,
        {
            let id = &ids[i];
            let ghost name = names[i as int];
            proof {
                assert(name == ids@[i as int]@);
                assert(names.contains(name));
                assert(names.to_set().contains(name));
                if names.take(i as int).contains(name) {
                    let j = choose|j: int| 0 <= j < i && names.take(i as int)[j] == name;
                    assert(names[j] == names[i as int]);
                }
            }
            let removed = pending_remove(&mut self.pending, id.as_str());
            if let Some((_, reply)) = removed {
                let payload = failure_payload(id.as_str(), code, message);
                let _ = reply_send(reply, payload);
            }
            proof {
                let before = names.take(i as int);
                let after = names.take(i + 1);
                assert(after =~= before.push(name));
                assert forall|k: Seq<char>| #[trigger] after.contains(k) <==> (before.contains(k)
                    || k == name) by {
                    if after.contains(k) {
                        let j = choose|j: int| 0 <= j < after.len() && after[j] == k;
                        if j < i {
                            assert(before[j] == k);
                        }
                    }
                    if before.contains(k) {
                        let j = choose|j: int| 0 <= j < before.len() && before[j] == k;
                        assert(after[j] == k);
                    }
                    if k == name {
                        assert(after[i as int] == k);
                    }
                }
            }
            i = i + 1;
        }
        proof {
            assert(names.take(i as int) =~= names);
            assert(pending_channels(self.pending) =~= Map::<Seq<char>, nat>::empty());
            assert forall|id: Seq<char>| #[trigger] old(self)@.pending.dom().contains(id) implies failure_left_for(
                old(self)@.pending[id],
                id,
                code@,
                message@,
            ) by {
                assert(names.to_set().contains(id));
                assert(names.take(i as int).contains(id));
            }
        }
    }

    /// Takes in a message from the extension that arrived at `now` (`parsed`
    /// is its text read as JSON, or why that failed): the arrival time is
    /// noted first; then a hello is cached with the windows and tabs of its
    /// payload, an event is recorded, and a response goes to the command
    /// that waits for it. A response without an id is refused.
    pub fn process_text_message_at(&mut self, now: Timestamp, parsed: Result<Json, String>) -> (r:
        Result<(IncomingKind, Option<ResolveOutcome>), String>)
        ensures
            message_handled(old(self)@, now, parsed, r, final(self)@),
    {
        self.record_message_at(now);
        let message = match parsed {
            Ok(m) => m,
            Err(e) => {
                return Err(e);
            },
        };
        let kind = classify_incoming(&message);
        match kind {
            IncomingKind::Hello => {
                let windows = match message.get("payload") {
                    Some(p) => match p.get("windows") {
                        Some(w) => Some(w.duplicate()),
                        None => None,
                    },
                    None => None,
                };
                let tabs = match message.get("payload") {
                    Some(p) => match p.get("tabs") {
                        Some(t) => Some(t.duplicate()),
                        None => None,
                    },
                    None => None,
                };
                self.cache_hello(message);
                if let Some(w) = windows {
                    self.cache_windows(w);
                }
                if let Some(t) = tabs {
                    self.cache_tabs(t);
                }
                Ok((kind, None))
            },
            IncomingKind::Event => {
                self.push_event(message);
                Ok((kind, None))
            },
            IncomingKind::Response => {
                let id = match message.get("id") {
                    Some(v) => match v.as_str() {
                        Some(s) => s.to_owned(),
                        None => {
                            proof {
                                reveal_strlit("response message missing id");
                            }
                            return Err("response message missing id".to_owned());
                        },
                    },
                    None => {
                        return Err("response message missing id".to_owned());
                    },
                };
                let outcome = self.resolve_pending(id.as_str(), message);
                Ok((kind, Some(outcome)))
            },
            _ => Ok((kind, None)),
        }
    }

    /// Takes in the text of a message from the extension that arrived at
    /// `now`: the text is read as JSON and the result taken in as
    /// `process_text_message_at` does, so that text that is not JSON is
    /// refused with the reader's message, after its arrival is noted.
    pub fn process_raw_text_at(&mut self, now: Timestamp, raw: &str) -> (r: Result<
        (IncomingKind, Option<ResolveOutcome>),
        String,
    >)
        ensures
            exists|parsed: Result<Json, String>|
                read_from_text(raw@, parsed) && message_handled(
                    old(self)@,
                    now,
                    parsed,
                    r,
                    final(self)@,
                ),
    {
        let parsed = parse_json_text(raw);
        let ghost read = parsed;
        let r = self.process_text_message_at(now, parsed);
        assert(read_from_text(raw@, read));
        r
    }

    /// Takes in the text of a message from the extension that arrived now,
    /// as `process_raw_text_at` does.
    pub fn process_raw_text(&mut self, raw: &str) -> (r: Result<
        (IncomingKind, Option<ResolveOutcome>),
        String,
    >)
        ensures
            exists|now: Timestamp, parsed: Result<Json, String>|
                read_from_text(raw@, parsed) && message_handled(
                    old(self)@,
                    now,
                    parsed,
                    r,
                    final(self)@,
                ),
    {
        let now = utc_now();
        self.process_raw_text_at(now, raw)
    }

    /// Takes in a message from the extension that arrived now, as
    /// `process_text_message_at` does.
    pub fn process_text_message(&mut self, parsed: Result<Json, String>) -> (r: Result<
        (IncomingKind, Option<ResolveOutcome>),
        String,
    >)
        ensures
            exists|now: Timestamp| message_handled(old(self)@, now, parsed, r, final(self)@),
    {
        let now = utc_now();
        self.process_text_message_at(now, parsed)
    }

    /// Puts `tab` into the cached list of tabs, by its id.
    pub fn upsert_tab_cache_entry(&mut self, tab: &Json)
        ensures
            final(self)@ == (StateView { last_tabs: final(self)@.last_tabs, ..old(self)@ }),
            cached_list_after(
                old(self)@.last_tabs,
                final(self)@.last_tabs,
                |l: Seq<Json>| upserted(l, *tab),
            ),
    {
        let updated = match &self.last_tabs {
            Some(cache) => match cache.as_array() {
                Some(items) => Some(Json::array(upsert_entry(items, tab))),
                None => None,
            },
            None => None,
        };
        if let Some(list) = updated {
            self.last_tabs = Some(list);
        }
    }

    /// Puts `window` into the cached list of windows, by its id.
    pub fn upsert_window_cache_entry(&mut self, window: &Json)
        ensures
            final(self)@ == (StateView { last_windows: final(self)@.last_windows, ..old(self)@ }),
            cached_list_after(
                old(self)@.last_windows,
                final(self)@.last_windows,
                |l: Seq<Json>| upserted(l, *window),
            ),
    {
        let updated = match &self.last_windows {
            Some(cache) => match cache.as_array() {
                Some(items) => Some(Json::array(upsert_entry(items, window))),
                None => None,
            },
            None => None,
        };
        if let Some(list) = updated {
            self.last_windows = Some(list);
        }
    }

    /// Puts each of `tabs`, in order, into the cached list of tabs.
    pub fn upsert_tab_cache_entries(&mut self, tabs: &Vec<Json>)
        ensures
            final(self)@ == (StateView { last_tabs: final(self)@.last_tabs, ..old(self)@ }),
            cached_list_after(
                old(self)@.last_tabs,
                final(self)@.last_tabs,
                |l: Seq<Json>| upserted_all(l, tabs@),
            ),
    {
        let updated = match &self.last_tabs {
            Some(cache) => match cache.as_array() {
                Some(items) => {
                    let mut list = clone_items(items);
                    let mut i: usize = 0;
                    while i < tabs.len()
                        invariant
                            i <= tabs@.len(),
                            list@ == upserted_all(items@, tabs@.take(i as int)),
                        decreases tabs@.len() - i,
                    {
                        list = upsert_entry(&list, &tabs[i]);
                        assert(tabs@.take(i + 1).drop_last() =~= tabs@.take(i as int));
                        i = i + 1;
                    }
                    assert(tabs@.take(i as int) =~= tabs@);
                    Some(Json::array(list))
                },
                None => None,
            },
            None => None,
        };
        if let Some(list) = updated {
            self.last_tabs = Some(list);
        }
    }

    /// Takes out of the cached list of tabs the entries with id `tab_id`.
    pub fn remove_tab_cache_entry(&mut self, tab_id: u64)
        ensures
            final(self)@ == (StateView { last_tabs: final(self)@.last_tabs, ..old(self)@ }),
            cached_list_after(
                old(self)@.last_tabs,
                final(self)@.last_tabs,
                |l: Seq<Json>| without_id(l, tab_id),
            ),
    {
        let updated = match &self.last_tabs {
            Some(cache) => match cache.as_array() {
                Some(items) => Some(Json::array(remove_entries(items, tab_id))),
                None => None,
            },
            None => None,
        };
        if let Some(list) = updated {
            self.last_tabs = Some(list);
        }
    }
}

/// `j` is `{"type": "response", "id": id, "ok": false, "error": {"code":
/// code, "message": message}}`, its entries in that order.
pub open spec fn is_failure_payload(j: Json, id: Seq<char>, code: Seq<char>, message: Seq<char>) -> bool {
    j.pairs() matches Some(p) && {
        &&& p.len() == 4
        &&& p[0].0 == "type"@ && p[0].1.text() == Some("response"@)
        &&& p[1].0 == "id"@ && p[1].1.text() == Some(id)
        &&& p[2].0 == "ok"@ && p[2].1 == Json::Bool(false)
        &&& p[3].0 == "error"@
        &&& p[3].1.pairs() matches Some(e) && {
            &&& e.len() == 2
            &&& e[0].0 == "code"@ && e[0].1.text() == Some(code)
            &&& e[1].0 == "message"@ && e[1].1.text() == Some(message)
        }
    }
}

/// What reply channel `channel` holds after the failure for command `id` was
/// sent on it: that failure, unless the receiver had gone.
pub open spec fn failure_left_for(channel: nat, id: Seq<char>, code: Seq<char>, message: Seq<char>) -> bool {
    match left_for_receiver(channel) {
        Some(v) => is_failure_payload(v, id, code, message),
        None => true,
    }
}

/// The failure that a waiting command receives when the extension goes away.
pub fn failure_payload(id: &str, code: &str, message: &str) -> (r: Json)
    ensures
        is_failure_payload(r, id@, code@, message@),
{
    let error = Json::object_of(
        vec![("code".to_owned(), Json::string(code)), ("message".to_owned(), Json::string(message))],
    );
    Json::object_of(
        vec![
            ("type".to_owned(), Json::string("response")),
            ("id".to_owned(), Json::string(id)),
            ("ok".to_owned(), Json::Bool(false)),
            ("error".to_owned(), error),
        ],
    )
}

} // verus!

verus! {

/// The log of recent events never holds more than the configured limit, and
/// it holds the newest events in the order they came, the last one last.
pub proof fn law_recent_events_keep_newest(v: StateView, event: Json)
    ensures
        v.with_event(event).recent_events.len() <= v.config.recent_events_limit,
        v.with_event(event).recent_events.len() == if v.recent_events.len() + 1
            <= v.config.recent_events_limit {
            v.recent_events.len() + 1
        } else {
            v.config.recent_events_limit as nat
        },
        v.config.recent_events_limit > 0 ==> v.with_event(event).recent_events.last() == event,
        forall|i: int|
            0 <= i < v.with_event(event).recent_events.len() ==> #[trigger] v.with_event(
                event,
            ).recent_events[i] == v.recent_events.push(event)[v.recent_events.len() + 1
                - v.with_event(event).recent_events.len() + i],
{
}

/// After the connection is dropped, the extension is not connected, no
/// channel is set for commands and no command waits; dropping it again
/// changes nothing.
pub proof fn law_disconnect_fails_all_pending(v: StateView)
    ensures
        !v.disconnect().connected(),
        v.disconnect().outbox is None,
        v.connected() ==> v.disconnect().pending == Map::<Seq<char>, nat>::empty(),
        v.disconnect().disconnect() == v.disconnect(),
{
}

/// Once connected, the extension is connected, since the moment given, and
/// later commands go out on the channel of the sender just set.
pub proof fn law_connect_then_connected(v: StateView, now: Timestamp, outbox: nat)
    ensures
        v.connect(now, outbox).connected(),
        v.connect(now, outbox).outbox == Some(outbox),
        v.connect(now, outbox).connected_since == Some(now),
        v.connect(now, outbox).pending == v.pending,
{
}

/// A command whose reply came, or that gave up, no longer waits: a second
/// reply with its id finds no command.
pub proof fn law_settled_request_is_gone(v: StateView, id: Seq<char>, channel: nat)
    ensures
        !v.settled(id).pending.dom().contains(id),
        v.awaiting(id, channel).pending.dom().contains(id),
{
}

/// A reply reaches the command that waits for it, and that command alone:
/// once the command `id` waits on a new channel (one that no other waiting
/// command holds), a response taken in for `id` is left on that very channel
/// when it is delivered, and on no channel when the receiver is gone; the
/// command stops waiting, and every other command keeps waiting on its own
/// channel, which is not this one.
pub proof fn law_reply_reaches_its_command(
    v: StateView,
    id: Seq<char>,
    channel: nat,
    now: Timestamp,
    reply: Json,
    r: Result<(IncomingKind, Option<ResolveOutcome>), String>,
    after: StateView,
)
    requires
        !v.pending.contains_value(channel),
        kind_of_type(reply.text_field("type"@)) == IncomingKind::Response,
        reply.text_field("id"@) == Some(id),
        message_handled(v.awaiting(id, channel), now, Ok(reply), r, after),
    ensures
        r matches Ok((kind, Some(outcome))) && kind == IncomingKind::Response && outcome
            != ResolveOutcome::UnknownRequest && left_for_receiver(channel) == (
        if outcome == ResolveOutcome::Delivered {
            Some(reply)
        } else {
            None
        }),
        !after.pending.dom().contains(id),
        forall|other: Seq<char>|
            other != id && #[trigger] v.pending.dom().contains(other) ==> after.pending.dom().contains(
                other,
            ) && after.pending[other] == v.pending[other] && v.pending[other] != channel,
{
    assert(v.awaiting(id, channel).pending.dom().contains(id));
    assert forall|other: Seq<char>|
        other != id && #[trigger] v.pending.dom().contains(other) implies v.pending[other]
        != channel by {
        if v.pending[other] == channel {
            assert(v.pending.contains_value(channel));
        }
    }
}

/// A command leaves nothing behind: once it has started to wait (which it
/// does only when the extension is connected), if it gives up (it fails or
/// times out, and its id stops waiting) the state is the state before it
/// began; if its reply comes, only the moment of the last message differs.
/// Other commands keep waiting, and no cache, event or connection field
/// changes.
pub proof fn law_command_leaves_no_trace(
    v: StateView,
    id: Seq<char>,
    channel: nat,
    now: Timestamp,
    reply: Json,
    r: Result<(IncomingKind, Option<ResolveOutcome>), String>,
    after: StateView,
)
    requires
        !v.pending.dom().contains(id),
        kind_of_type(reply.text_field("type"@)) == IncomingKind::Response,
        reply.text_field("id"@) == Some(id),
        message_handled(v.awaiting(id, channel), now, Ok(reply), r, after),
    ensures
        v.awaiting(id, channel).settled(id) == v,
        after == v.heard_at(now),
{
    assert(v.pending.insert(id, channel).remove(id) =~= v.pending);
}

/// One of the changes that the state goes through between a connect and a
/// disconnect: a message noted, a hello, tabs or windows cached, an event
/// recorded, a command that starts or stops waiting, a message taken in.
pub enum Change {
    Heard(Timestamp),
    Hello(Json),
    Tabs(Json),
    Windows(Json),
    Event(Json),
    Await(Seq<char>, nat),
    Settle(Seq<char>),
    Message(Json),
}

impl StateView {
    /// The state after `change`.
    pub open spec fn changed_by(self, change: Change) -> StateView {
        match change {
            Change::Heard(now) => self.heard_at(now),
            Change::Hello(m) => StateView { last_hello: Some(m), ..self },
            Change::Tabs(t) => StateView { last_tabs: Some(t), ..self },
            Change::Windows(w) => StateView { last_windows: Some(w), ..self },
            Change::Event(e) => self.with_event(e),
            Change::Await(id, c) => self.awaiting(id, c),
            Change::Settle(id) => self.settled(id),
            Change::Message(m) => self.after_message(m),
        }
    }

    /// The state after `changes`, the first one first.
    pub open spec fn changed_by_all(self, changes: Seq<Change>) -> StateView
        decreases changes.len(),
    {
        if changes.len() == 0 {
            self
        } else {
            self.changed_by(changes[0]).changed_by_all(changes.drop_first())
        }
    }
}

/// Taking in a message, however it goes, is a change of the kinds above: the
/// moment is noted, and a message that is not refused is then taken in.
pub proof fn law_message_is_a_change(
    before: StateView,
    now: Timestamp,
    parsed: Result<Json, String>,
    r: Result<(IncomingKind, Option<ResolveOutcome>), String>,
    after: StateView,
)
    requires
        message_handled(before, now, parsed, r, after),
    ensures
        after == before.changed_by(Change::Heard(now)) || exists|m: Json|
            after == #[trigger] before.changed_by(Change::Heard(now)).changed_by(
                Change::Message(m),
            ),
{
    if let Ok(m) = parsed {
        if !response_without_id(m) {
            assert(after == before.changed_by(Change::Heard(now)).changed_by(Change::Message(m)));
        }
    }
}

/// While connected, the connection stays put: after the extension connects
/// at `now` through `outbox`, whatever changes follow that are not a
/// disconnect, the extension is still connected, through the same channel,
/// and since the same moment.
pub proof fn law_connection_stays_until_disconnect(
    v: StateView,
    now: Timestamp,
    outbox: nat,
    changes: Seq<Change>,
)
    ensures
        v.connect(now, outbox).changed_by_all(changes).connected(),
        v.connect(now, outbox).changed_by_all(changes).outbox == Some(outbox),
        v.connect(now, outbox).changed_by_all(changes).connected_since == Some(now),
{
    lemma_changes_keep_connection(v.connect(now, outbox), changes);
}

proof fn lemma_changes_keep_connection(v: StateView, changes: Seq<Change>)
    ensures
        v.changed_by_all(changes).outbox == v.outbox,
        v.changed_by_all(changes).connected_since == v.connected_since,
    decreases changes.len(),
{
    if changes.len() > 0 {
        let next = v.changed_by(changes[0]);
        assert(next.outbox == v.outbox && next.connected_since == v.connected_since);
        lemma_changes_keep_connection(next, changes.drop_first());
    }
}

/// After a tab is put into a list by its id, the first entry with that id is
/// that tab; entries with other ids are kept.
pub proof fn law_upserted_entry_is_found(list: Seq<Json>, entry: Json, id: u64)
    requires
        entry_id(entry) == Some(id),
    ensures
        find_entry(upserted(list, entry), id) matches Some(i) && upserted(list, entry)[i] == entry,
        forall|j: int|
            0 <= j < list.len() && entry_id(list[j]) != Some(id) ==> #[trigger] upserted(
                list,
                entry,
            ).contains(list[j]),
{
    lemma_find_entry_bounds(list, id);
    let r = upserted(list, entry);
    match find_entry(list, id) {
        Some(i) => {
            assert forall|j: int| 0 <= j < i implies entry_id(r[j]) != Some(id) by {
                if entry_id(list[j]) == Some(id) {
                    lemma_first_entry(list, id, j);
                }
            }
            lemma_find_entry_at(r, id, i);
            assert forall|j: int|
                0 <= j < list.len() && entry_id(list[j]) != Some(id) implies #[trigger] r.contains(
                list[j],
            ) by {
                assert(r[j] == list[j]);
            }
        },
        None => {
            lemma_find_entry_at(r, id, list.len() as int);
            assert forall|j: int|
                0 <= j < list.len() && entry_id(list[j]) != Some(id) implies #[trigger] r.contains(
                list[j],
            ) by {
                assert(r[j] == list[j]);
            }
        },
    }
}

proof fn lemma_first_entry(list: Seq<Json>, id: u64, j: int)
    requires
        0 <= j < list.len(),
        entry_id(list[j]) == Some(id),
    ensures
        find_entry(list, id) matches Some(i) && i <= j,
    decreases j,
{
    if j > 0 && entry_id(list[0]) != Some(id) {
        lemma_first_entry(list.drop_first(), id, j - 1);
    }
}

/// After the entries with an id are taken out of a list, none is left.
pub proof fn law_removed_entry_is_gone(list: Seq<Json>, id: u64)
    ensures
        find_entry(without_id(list, id), id) is None,
{
    let r = without_id(list, id);
    assert forall|j: int| 0 <= j < r.len() implies entry_id(r[j]) != Some(id) by {
        list.lemma_filter_pred(|t: Json| entry_id(t) != Some(id), j);
    }
    lemma_find_entry_none(r, id);
}

/// Taking out the entries of one id keeps every other entry, in order: a list
/// with no entry of that id comes back unchanged, an entry added at the end
/// is kept exactly when its id differs, and every entry whose id differs is
/// still there, while none with that id is.
pub proof fn law_removal_keeps_other_entries(list: Seq<Json>, id: u64, last: Json)
    ensures
        (forall|j: int| 0 <= j < list.len() ==> entry_id(#[trigger] list[j]) != Some(id))
            ==> without_id(list, id) == list,
        without_id(list.push(last), id) == if entry_id(last) == Some(id) {
            without_id(list, id)
        } else {
            without_id(list, id).push(last)
        },
        forall|j: int|
            0 <= j < list.len() && entry_id(#[trigger] list[j]) != Some(id) ==> without_id(
                list,
                id,
            ).contains(list[j]),
        forall|t: Json| #[trigger] without_id(list, id).contains(t) ==> list.contains(t) && entry_id(t) != Some(id),
{
    let keep = |t: Json| entry_id(t) != Some(id);
    list.lemma_filter_push(last, keep);
    if forall|j: int| 0 <= j < list.len() ==> entry_id(#[trigger] list[j]) != Some(id) {
        lemma_keeps_all_without_id(list, id);
    }
    assert forall|j: int| 0 <= j < list.len() && entry_id(#[trigger] list[j]) != Some(id) implies without_id(
        list,
        id,
    ).contains(list[j]) by {
        list.lemma_filter_contains(keep, j);
    }
    assert forall|t: Json| #[trigger] without_id(list, id).contains(t) implies list.contains(t)
        && entry_id(t) != Some(id) by {
        list.lemma_filter_contains_rev(keep, t);
    }
}

proof fn lemma_keeps_all_without_id(list: Seq<Json>, id: u64)
    requires
        forall|j: int| 0 <= j < list.len() ==> entry_id(#[trigger] list[j]) != Some(id),
    ensures
        without_id(list, id) == list,
    decreases list.len(),
{
    if list.len() > 0 {
        let rest = list.drop_last();
        assert forall|j: int| 0 <= j < rest.len() implies entry_id(#[trigger] rest[j]) != Some(id) by {
            assert(rest[j] == list[j]);
        }
        lemma_keeps_all_without_id(rest, id);
        rest.lemma_filter_push(list.last(), |t: Json| entry_id(t) != Some(id));
        assert(rest.push(list.last()) =~= list);
    }
}

/// Only event messages go into the log of recent events: taking in any
/// other message (a hello, a response, a log line, a keepalive, a message of
/// unknown type, or text that is refused) leaves the log as it was, and an
/// event is added to it as `push_event` adds one.
pub proof fn law_only_events_are_recorded(
    before: StateView,
    now: Timestamp,
    parsed: Result<Json, String>,
    r: Result<(IncomingKind, Option<ResolveOutcome>), String>,
    after: StateView,
)
    requires
        message_handled(before, now, parsed, r, after),
    ensures
        match parsed {
            Ok(m) => if m.text_field("type"@) == Some("event"@) {
                after.recent_events == before.with_event(m).recent_events
            } else {
                after.recent_events == before.recent_events
            },
            Err(_) => after.recent_events == before.recent_events,
        },
        after.config == before.config,
{
    reveal_strlit("event");
    reveal_strlit("hello");
    reveal_strlit("log");
    reveal_strlit("response");
    reveal_strlit("keepalive");
    assert("event"@[0] != "hello"@[0]);
    assert("event"@.len() != "log"@.len());
    assert("event"@.len() != "response"@.len());
    assert("event"@.len() != "keepalive"@.len());
    if let Ok(m) = parsed {
        let t = m.text_field("type"@);
        if t == Some("event"@) {
            assert(kind_of_type(t) == IncomingKind::Event);
        } else {
            assert(kind_of_type(t) != IncomingKind::Event);
        }
    }
}

} // verus!
