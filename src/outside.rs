//! The calls this library makes into other crates, each with the contract
//! it is believed to meet.

use vstd::prelude::*;

use rand::seq::{IndexedRandom, IteratorRandom};
use tokio::sync::broadcast::{Receiver, Sender};

use crate::wire::RegisterRoomEvent;

verus! {

#[verifier::external_type_specification]
#[verifier::external_body]
#[verifier::reject_recursive_types(T)]
pub struct ExBroadcastSender<T>(tokio::sync::broadcast::Sender<T>);

#[verifier::external_type_specification]
#[verifier::external_body]
#[verifier::reject_recursive_types(T)]
pub struct ExBroadcastReceiver<T>(tokio::sync::broadcast::Receiver<T>);

/// The channel a sending half belongs to.
pub uninterp spec fn sender_channel(s: Sender<RegisterRoomEvent>) -> int;

/// The channel a receiving half belongs to.
pub uninterp spec fn receiver_channel(r: Receiver<RegisterRoomEvent>) -> int;

/// The events handed to a sending half, oldest first.
pub uninterp spec fn sent_events(s: Sender<RegisterRoomEvent>) -> Seq<RegisterRoomEvent>;

/// Relies on tokio's `broadcast::channel`: a bounded channel of room events
/// and its first receiver, which belongs to the same channel; nothing has
/// been sent yet. It panics on a zero capacity and on one above
/// `usize::MAX / 2`, which `requires` leaves out.
#[verifier::external_body]
pub(crate) fn event_channel(capacity: usize) -> (r: (Sender<RegisterRoomEvent>, Receiver<
    RegisterRoomEvent,
>))
    requires
        0 < capacity <= usize::MAX / 2,
    ensures
        receiver_channel(r.1) == sender_channel(r.0),
        sent_events(r.0) == Seq::<RegisterRoomEvent>::empty(),
{
    tokio::sync::broadcast::channel(capacity)
}

/// Relies on tokio's `broadcast::Sender::send`: hands one event to every
/// current receiver of the sender's channel. How many receivers got it (or
/// none) depends on other tasks and is not stated; the event joins the
/// sender's sent events.
#[verifier::external_body]
pub(crate) fn broadcast_event(sender: &mut Sender<RegisterRoomEvent>, event: RegisterRoomEvent)
    ensures
        sender_channel(*final(sender)) == sender_channel(*old(sender)),
        sent_events(*final(sender)) == sent_events(*old(sender)).push(event),
{
    let _ = sender.send(event);
}

/// Relies on tokio's `broadcast::Sender::subscribe`: a receiver of the
/// events sent from now on. It panics only once `usize::MAX >> 2` receivers
/// are alive at the same time.
#[verifier::external_body]
pub(crate) fn subscribe_events(sender: &Sender<RegisterRoomEvent>) -> (r: Receiver<RegisterRoomEvent>)
    ensures
        receiver_channel(r) == sender_channel(*sender),
{
    sender.subscribe()
}

/// Relies on uuid's `Uuid::new_v4` and `Uuid::as_u128`: a random
/// version-4 identifier, as its 128-bit value. Nothing can be promised of a
/// random value.
#[verifier::external_body]
pub(crate) fn random_uuid() -> u128 {
    uuid::Uuid::new_v4().as_u128()
}

/// Relies on rand's `IndexedRandom::choose` with the thread-local
/// generator: `None` exactly for an empty slice, else one of its elements.
#[verifier::external_body]
pub(crate) fn choose_byte(items: &[u8]) -> (r: Option<u8>)
    ensures
        items@.len() == 0 <==> r is None,
        r is Some ==> items@.contains(r->0),
{
    items.choose(&mut rand::rng()).copied()
}

/// Relies on rand's `IteratorRandom::choose_multiple` over the byte range
/// `low..=high` with the thread-local generator: `amount` distinct values of
/// the range, or all of them where the range is shorter.
#[verifier::external_body]
pub(crate) fn sample_byte_range(low: u8, high: u8, amount: usize) -> (r: Vec<u8>)
    requires
        low <= high,
        amount <= 256,
    ensures
        r@.len() == if amount <= high - low + 1 { amount as int } else { high - low + 1 },
        forall|i: int| 0 <= i < r@.len() ==> low <= #[trigger] r@[i] <= high,
{
    (low..=high).choose_multiple(&mut rand::rng(), amount)
}

/// Relies on `String::from_utf8`: ASCII bytes are valid UTF-8, and each
/// byte becomes the character of the same code.
#[verifier::external_body]
pub(crate) fn ascii_string(bytes: Vec<u8>) -> (r: String)
    requires
        forall|i: int| 0 <= i < bytes@.len() ==> #[trigger] bytes@[i] < 128,
    ensures
        r@ == Seq::new(bytes@.len(), |i: int| bytes@[i] as char),
{
    match String::from_utf8(bytes) {
        Ok(s) => s,
        Err(_) => String::new(),
    }
}

} // verus!
