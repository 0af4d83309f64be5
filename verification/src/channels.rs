//! The outside pieces that the state holds: tokio's channel ends and the
//! `DashMap` of requests that wait for a reply.
use vstd::prelude::*;

use crate::json::Json;

verus! {

#[verifier::external_type_specification]
#[verifier::external_body]
#[verifier::reject_recursive_types(K)]
#[verifier::reject_recursive_types(V)]
#[verifier::reject_recursive_types(S)]
pub struct ExDashMap<K, V, S>(dashmap::DashMap<K, V, S>);

#[verifier::external_type_specification]
#[verifier::external_body]
#[verifier::reject_recursive_types(T)]
pub struct ExOneshotSender<T>(tokio::sync::oneshot::Sender<T>);

#[verifier::external_type_specification]
#[verifier::external_body]
#[verifier::reject_recursive_types(T)]
pub struct ExOneshotReceiver<T>(tokio::sync::oneshot::Receiver<T>);

/// The error type of the reply receiver's `Future` impl: Verus asks for it to
/// be declared wherever `oneshot::Receiver` stands in a signature.
#[verifier::external_type_specification]
#[verifier::external_body]
pub struct ExRecvError(tokio::sync::oneshot::error::RecvError);

#[verifier::external_type_specification]
#[verifier::external_body]
#[verifier::reject_recursive_types(T)]
pub struct ExMpscSender<T>(tokio::sync::mpsc::Sender<T>);

/// The sending half of the channel to the extension's socket.
pub type Outbox = tokio::sync::mpsc::Sender<String>;

/// Where the reply to one command is delivered.
pub type ReplySender = tokio::sync::oneshot::Sender<Json>;

/// Where the reply to one command is awaited.
pub type ReplyReceiver = tokio::sync::oneshot::Receiver<Json>;

/// The requests that wait for a reply, by request id.
pub type PendingMap = dashmap::DashMap<String, ReplySender>;

/// The channel that a reply sender sends on, by an identity of its own.
pub uninterp spec fn reply_sender_channel(s: ReplySender) -> nat;

/// The channel that a reply receiver listens on, by the same identity.
pub uninterp spec fn reply_receiver_channel(r: ReplyReceiver) -> nat;

/// What reply channel `channel` holds for its receiver: the value its sender
/// sent, or nothing when that one send found the receiver gone (a one-shot
/// channel is sent on at most once, since sending consumes its sender).
pub uninterp spec fn left_for_receiver(channel: nat) -> Option<Json>;

/// The channel of an outbox, by an identity of its own; clones of a sender
/// share their channel.
pub uninterp spec fn outbox_channel(s: Outbox) -> nat;

/// What a `PendingMap` holds: each request id with the channel of the reply
/// sender stored under it.
pub uninterp spec fn pending_channels(m: PendingMap) -> Map<Seq<char>, nat>;

/// Calls `DashMap::new`: the map starts without entries.
#[verifier::external_body]
pub(crate) fn pending_new() -> (m: PendingMap)
    ensures
        pending_channels(m).dom() == Set::<Seq<char>>::empty(),
{
    dashmap::DashMap::new()
}

/// Calls `DashMap::insert`: afterwards `key` holds `reply` (its earlier entry,
/// if any, is replaced) and nothing else changes.
#[verifier::external_body]
pub(crate) fn pending_insert(m: &mut PendingMap, key: String, reply: ReplySender)
    ensures
        pending_channels(*final(m)) == pending_channels(*old(m)).insert(
            key@,
            reply_sender_channel(reply),
        ),
{
    m.insert(key, reply);
}

/// Calls `DashMap::remove`: afterwards `key` is not held; its entry comes back
/// exactly when it was held, with the reply sender stored under it.
#[verifier::external_body]
pub(crate) fn pending_remove(m: &mut PendingMap, key: &str) -> (r: Option<(String, ReplySender)>)
    ensures
        pending_channels(*final(m)) == pending_channels(*old(m)).remove(key@),
        r is Some <==> pending_channels(*old(m)).dom().contains(key@),
        r matches Some(entry) ==> entry.0@ == key@ && reply_sender_channel(entry.1)
            == pending_channels(*old(m))[key@],
{
    m.remove(key)
}

/// Calls `DashMap::len`: the number of ids held.
#[verifier::external_body]
pub(crate) fn pending_len(m: &PendingMap) -> (r: usize)
    ensures
        r as nat == pending_channels(*m).dom().len(),
{
    m.len()
}

/// Calls `DashMap::iter` and takes the key of each entry: each id held, once.
#[verifier::external_body]
pub(crate) fn pending_ids(m: &PendingMap) -> (ids: Vec<String>)
    ensures
        ids@.map_values(|s: String| s@).to_set() == pending_channels(*m).dom(),
        ids@.map_values(|s: String| s@).no_duplicates(),
{
    m.iter().map(|entry| entry.key().clone()).collect()
}

/// Calls `tokio::sync::oneshot::channel`: the two halves of one new channel.
/// The channel is a new allocation, so it is none of the channels whose
/// senders the map `m` still holds; `m` itself is only read for that claim.
#[verifier::external_body]
pub(crate) fn reply_channel(m: &PendingMap) -> (r: (ReplySender, ReplyReceiver))
    ensures
        reply_sender_channel(r.0) == reply_receiver_channel(r.1),
        !pending_channels(*m).contains_value(reply_sender_channel(r.0)),
{
    let _ = m;
    tokio::sync::oneshot::channel()
}

/// Calls `oneshot::Sender::send`, which never waits. When the receiver has not
/// gone, `value` is left in the channel for it and the call gives `Ok`;
/// otherwise nothing is left and the value comes back. Which of the two
/// happens depends on the receiver and is not known here; that a receiver
/// still present when `Ok` comes back will in the end read the value is not
/// stated either (it may still go away without reading).
#[verifier::external_body]
pub(crate) fn reply_send(reply: ReplySender, value: Json) -> (r: Result<(), Json>)
    ensures
        left_for_receiver(reply_sender_channel(reply)) == (if r is Ok {
            Some(value)
        } else {
            None
        }),
        r matches Err(v) ==> v == value,
{
    reply.send(value)
}

/// Calls `mpsc::Sender::clone`: another handle on the same channel.
#[verifier::external_body]
pub(crate) fn outbox_clone(outbox: &Outbox) -> (r: Outbox)
    ensures
        outbox_channel(r) == outbox_channel(*outbox),
{
    outbox.clone()
}

} // verus!
