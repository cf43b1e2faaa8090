//! The outside channel and waker types that flow through the engine.
//!
//! The library never sends or receives on these: it only carries them from where they are
//! made to where the program around it uses them.

use vstd::prelude::*;

use tokio::sync::mpsc::{Receiver, Sender};

use crate::reactor::Event;
use crate::spawner::SpawnerMsg;
use crate::workflow::Message;

verus! {

/// The sending half of a bounded `tokio` channel.
#[verifier::external_type_specification]
#[verifier::external_body]
#[verifier::reject_recursive_types(T)]
pub struct ExSender<T>(tokio::sync::mpsc::Sender<T>);

/// The receiving half of a bounded `tokio` channel.
#[verifier::external_type_specification]
#[verifier::external_body]
#[verifier::reject_recursive_types(T)]
pub struct ExReceiver<T>(tokio::sync::mpsc::Receiver<T>);

/// The sending half of a `tokio` one-shot channel.
#[verifier::external_type_specification]
#[verifier::external_body]
#[verifier::reject_recursive_types(T)]
pub struct ExOneshotSender<T>(tokio::sync::oneshot::Sender<T>);

/// The receiving half of a `tokio` one-shot channel.
#[verifier::external_type_specification]
#[verifier::external_body]
#[verifier::reject_recursive_types(T)]
pub struct ExOneshotReceiver<T>(tokio::sync::oneshot::Receiver<T>);

/// The error a `tokio` one-shot receiver yields when its sender is gone. It is the output
/// of the receiver's `Future` impl, so the receiver's type cannot be declared without it.
#[verifier::external_type_specification]
#[verifier::external_body]
pub struct ExOneshotRecvError(tokio::sync::oneshot::error::RecvError);

/// The handle that resumes a suspended future.
#[verifier::external_type_specification]
#[verifier::external_body]
pub struct ExWaker(std::task::Waker);

/// How many messages a channel of the engine holds before a sender has to wait.
pub const CHANNEL_CAPACITY: usize = 20;

/// The most messages a `tokio` bounded channel can be made to hold: its semaphore refuses
/// more than `usize::MAX >> 3` permits.
pub open spec fn max_channel_buffer() -> usize {
    (usize::MAX / 8) as usize
}

/// The number of messages the channel of a job's receiver was made to hold, as its
/// `max_capacity` reports it.
pub uninterp spec fn message_capacity(rx: Receiver<Message>) -> usize;

/// The number of messages the channel of a spawner's sender was made to hold, as its
/// `max_capacity` reports it.
pub uninterp spec fn spawner_capacity(tx: Sender<SpawnerMsg>) -> usize;

/// Whether messages sent on `tx` arrive on `rx`: the two are ends of one channel.
pub uninterp spec fn reports_to(tx: Sender<Message>, rx: Receiver<Message>) -> bool;

/// Whether messages sent on `tx` arrive on `rx`: the two are ends of one channel.
pub uninterp spec fn spawner_pair(tx: Sender<SpawnerMsg>, rx: Receiver<SpawnerMsg>) -> bool;

/// Whether events sent on `a` and on `b` arrive on the same channel.
pub uninterp spec fn same_event_channel(a: Sender<Event>, b: Sender<Event>) -> bool;

/// Whether the value sent on `tx` arrives on `rx`: the two are ends of one one-shot channel.
pub uninterp spec fn oneshot_pair(
    tx: tokio::sync::oneshot::Sender<()>,
    rx: tokio::sync::oneshot::Receiver<()>,
) -> bool;

/// Calls `tokio::sync::mpsc::channel` for the messages nodes send to their job: the two
/// halves are ends of one channel, which holds up to `buffer` messages. `channel` panics on
/// a buffer of 0 or above `usize::MAX >> 3`.
#[verifier::external_body]
pub(crate) fn message_channel(buffer: usize) -> (pair: (Sender<Message>, Receiver<Message>))
    requires
        0 < buffer <= max_channel_buffer(),
    ensures
        message_capacity(pair.1) == buffer,
        reports_to(pair.0, pair.1),
{
    tokio::sync::mpsc::channel::<Message>(buffer)
}

/// Calls `tokio::sync::mpsc::channel` for the messages the spawner receives: the two halves
/// are ends of one channel, which holds up to `buffer` messages. `channel` panics on a
/// buffer of 0 or above `usize::MAX >> 3`.
#[verifier::external_body]
pub(crate) fn spawner_message_channel(buffer: usize) -> (pair: (Sender<SpawnerMsg>, Receiver<SpawnerMsg>))
    requires
        0 < buffer <= max_channel_buffer(),
    ensures
        spawner_capacity(pair.0) == buffer,
        spawner_pair(pair.0, pair.1),
{
    tokio::sync::mpsc::channel::<SpawnerMsg>(buffer)
}

/// Calls `Clone::clone` on a sender of node messages: the copy sends to the same channel,
/// so it reaches exactly the receivers the original reaches.
#[verifier::external_body]
pub(crate) fn clone_message_sender(tx: &Sender<Message>) -> (copy: Sender<Message>)
    ensures
        forall|rx: Receiver<Message>| #[trigger] reports_to(copy, rx) == reports_to(*tx, rx),
{
    tx.clone()
}

/// Calls `Clone::clone` on a sender of reactor events: the copy sends to the same channel as
/// the original, and so to the same channel as any sender the original shares one with.
#[verifier::external_body]
pub(crate) fn clone_event_sender(tx: &Sender<Event>) -> (copy: Sender<Event>)
    ensures
        same_event_channel(copy, *tx),
        forall|other: Sender<Event>| #[trigger] same_event_channel(*tx, other) ==> same_event_channel(copy, other),
{
    tx.clone()
}

/// Calls `tokio::sync::oneshot::channel`, which cannot fail: the two halves are ends of one
/// channel.
#[verifier::external_body]
pub(crate) fn oneshot_channel() -> (pair: (tokio::sync::oneshot::Sender<()>, tokio::sync::oneshot::Receiver<()>))
    ensures
        oneshot_pair(pair.0, pair.1),
{
    tokio::sync::oneshot::channel::<()>()
}

} // verus!
