//! The messages exchanged with the extension: commands going out, and the
//! kinds of message coming in.
use vstd::prelude::*;

use crate::config::AppConfig;
use crate::json::Json;
use crate::text::{push_signed_decimal, same_text, signed_decimal};

verus! {

/// A point in time, as seconds and nanoseconds since the Unix epoch (UTC).
#[derive(Debug, Clone, Copy, PartialEq, Eq, Structural)]
pub struct Timestamp {
    pub secs: i64,
    pub nanos: u32,
}

/// The seconds of any date that chrono can represent lie strictly between
/// these bounds (its years stay within about ±262,000).
pub const TIMESTAMP_SECS_BOUND: i64 = 10_000_000_000_000;

impl Timestamp {
    /// Milliseconds since the epoch, as chrono's `timestamp_millis` counts them.
    pub open spec fn millis_spec(self) -> int {
        self.secs * 1000 + self.nanos / 1_000_000
    }

    /// Milliseconds since the epoch.
    pub fn timestamp_millis(&self) -> (r: i64)
        requires
            -TIMESTAMP_SECS_BOUND < self.secs < TIMESTAMP_SECS_BOUND,
        ensures
            r as int == self.millis_spec(),
    {
        self.secs * 1000 + (self.nanos / 1_000_000) as i64
    }
}

/// Calls `chrono::Utc::now` and keeps its seconds and nanoseconds. The time
/// itself is not stated: only that it is a date chrono can represent (it
/// panics otherwise) and that its nanoseconds are below one second, as the
/// system clock gives them.
#[verifier::external_body]
pub(crate) fn utc_now() -> (t: Timestamp)
    ensures
        -TIMESTAMP_SECS_BOUND < t.secs < TIMESTAMP_SECS_BOUND,
        t.nanos < 1_000_000_000,
{
    let now = chrono::Utc::now();
    Timestamp { secs: now.timestamp(), nanos: now.timestamp_subsec_nanos() }
}

pub open spec fn is_lower_hex(c: char) -> bool {
    ('0' <= c && c <= '9') || ('a' <= c && c <= 'f')
}

/// The text of a version-4 UUID: 36 characters, lower-case hexadecimal digits
/// in groups of 8-4-4-4-12 parted by hyphens, the version digit `4`, and the
/// variant digit one of `8`, `9`, `a`, `b`.
pub open spec fn is_uuid_v4_text(s: Seq<char>) -> bool {
    &&& s.len() == 36
    &&& forall|i: int|
        0 <= i < 36 ==> if i == 8 || i == 13 || i == 18 || i == 23 {
            #[trigger] s[i] == '-'
        } else {
            is_lower_hex(s[i])
        }
    &&& s[14] == '4'
    &&& (s[19] == '8' || s[19] == '9' || s[19] == 'a' || s[19] == 'b')
}

/// Calls `uuid::Uuid::new_v4` and writes it with `to_string`. The UUID is
/// random; only the shape of its text is stated.
#[verifier::external_body]
pub(crate) fn new_uuid_v4() -> (s: String)
    ensures
        is_uuid_v4_text(s@),
{
    uuid::Uuid::new_v4().to_string()
}

/// The trace id of a command: `srv-`, the milliseconds, `-`, a UUID.
pub open spec fn trace_text(millis: int, uuid: Seq<char>) -> Seq<char> {
    seq!['s', 'r', 'v', '-'] + signed_decimal(millis) + seq!['-'] + uuid
}

/// A command for the extension.
#[derive(Debug, Clone)]
pub struct CommandEnvelope {
    /// Always `command`; written as `type` on the wire.
    pub kind: String,
    pub id: String,
    /// Written as `traceId` on the wire.
    pub trace_id: String,
    pub command: String,
    pub args: Json,
}

impl CommandEnvelope {
    /// The command `command` with arguments `args`, request id `id` and the
    /// trace id made from `millis` and `trace_uuid`.
    pub fn assemble(command: &str, args: Json, id: String, millis: i64, trace_uuid: &str) -> (e:
        CommandEnvelope)
        ensures
            e.kind@ == "command"@,
            e.id@ == id@,
            e.trace_id@ == trace_text(millis as int, trace_uuid@),
            e.command@ == command@,
            e.args == args,
    {
        proof {
            reveal_strlit("srv-");
            reveal_strlit("-");
        }
        let mut trace_id = "srv-".to_owned();
        push_signed_decimal(&mut trace_id, millis);
        trace_id.append("-");
        trace_id.append(trace_uuid);
        assert(trace_id@ =~= trace_text(millis as int, trace_uuid@));
        CommandEnvelope {
            kind: "command".to_owned(),
            id,
            trace_id,
            command: command.to_owned(),
            args,
        }
    }

    /// A new command: a fresh random request id, and a trace id made from the
    /// current time and another random UUID.
    pub fn new(command: &str, args: Json) -> (e: CommandEnvelope)
        ensures
            e.kind@ == "command"@,
            is_uuid_v4_text(e.id@),
            exists|millis: int, uuid: Seq<char>|
                is_uuid_v4_text(uuid) && e.trace_id@ == #[trigger] trace_text(millis, uuid),
            e.command@ == command@,
            e.args == args,
    {
        let id = new_uuid_v4();
        let millis = utc_now().timestamp_millis();
        let trace_uuid = new_uuid_v4();
        let e = CommandEnvelope::assemble(command, args, id, millis, trace_uuid.as_str());
        assert(is_uuid_v4_text(trace_uuid@) && e.trace_id@ == trace_text(millis as int, trace_uuid@));
        e
    }
}

/// The kinds of message the extension sends.
#[derive(Debug, Clone, Copy, PartialEq, Eq, Structural)]
pub enum IncomingKind {
    Hello,
    Event,
    Log,
    Response,
    Keepalive,
    Unknown,
}

/// The kind that a message's `type` names.
pub open spec fn kind_of_type(t: Option<Seq<char>>) -> IncomingKind {
    match t {
        Some(s) => if s == "hello"@ {
            IncomingKind::Hello
        } else if s == "event"@ {
            IncomingKind::Event
        } else if s == "log"@ {
            IncomingKind::Log
        } else if s == "response"@ {
            IncomingKind::Response
        } else if s == "keepalive"@ {
            IncomingKind::Keepalive
        } else {
            IncomingKind::Unknown
        },
        None => IncomingKind::Unknown,
    }
}

/// The kind of a message from its `type` string; a message without one, or
/// with one not listed, is `Unknown`.
pub fn classify_incoming(message: &Json) -> (k: IncomingKind)
    ensures
        k == kind_of_type(message.text_field("type"@)),
{
    match message.get("type") {
        Some(t) => match t.as_str() {
            Some(s) => {
                if same_text(s, "hello") {
                    IncomingKind::Hello
                } else if same_text(s, "event") {
                    IncomingKind::Event
                } else if same_text(s, "log") {
                    IncomingKind::Log
                } else if same_text(s, "response") {
                    IncomingKind::Response
                } else if same_text(s, "keepalive") {
                    IncomingKind::Keepalive
                } else {
                    IncomingKind::Unknown
                }
            },
            None => IncomingKind::Unknown,
        },
        None => IncomingKind::Unknown,
    }
}


/// What came in on the extension's websocket.
#[derive(Debug, Clone, Copy, PartialEq, Eq, Structural)]
pub enum FrameKind {
    /// A text message of this many bytes.
    Text(usize),
    Binary,
    Ping,
    Pong,
    Close,
    /// The socket could not be read.
    ReadError,
}

/// What the connection does with what came in.
#[derive(Debug, Clone, Copy, PartialEq, Eq, Structural)]
pub enum FrameAction {
    /// Take the text in as a message.
    Process,
    /// Drop the text unread: it is larger than the configured maximum.
    DropTooLarge,
    /// Go on to the next frame.
    Ignore,
    /// Stop reading: the extension is gone.
    Stop,
}

/// The decision for one frame: a text is taken in when the settings admit
/// its size and dropped otherwise; binary messages, pings and pongs are
/// passed over; a close or a read error ends the connection.
pub fn frame_action(config: &AppConfig, frame: FrameKind) -> (a: FrameAction)
    ensures
        a == match frame {
            FrameKind::Text(len) => if len <= config.max_incoming_ws_bytes {
                FrameAction::Process
            } else {
                FrameAction::DropTooLarge
            },
            FrameKind::Binary | FrameKind::Ping | FrameKind::Pong => FrameAction::Ignore,
            FrameKind::Close | FrameKind::ReadError => FrameAction::Stop,
        },
{
    match frame {
        FrameKind::Text(len) => if config.admits_ws_text(len) {
            FrameAction::Process
        } else {
            FrameAction::DropTooLarge
        },
        FrameKind::Binary | FrameKind::Ping | FrameKind::Pong => FrameAction::Ignore,
        FrameKind::Close | FrameKind::ReadError => FrameAction::Stop,
    }
}

} // verus!
