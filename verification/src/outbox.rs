//! Queues to the sessions of a server.
//!
//! Nobody but this module reaches the sending end of a queue, so what has been put into a
//! queue is exactly what its log says.
use vstd::prelude::*;

verus! {

/// `tokio::sync::mpsc::Sender`: the sending end of a bounded channel.
#[verifier::external_type_specification]
#[verifier::external_body]
#[verifier::reject_recursive_types(T)]
pub struct ExTokioSender<T>(tokio::sync::mpsc::Sender<T>);

/// `tokio::sync::mpsc::Receiver`: the receiving end of a bounded channel.
#[verifier::external_type_specification]
#[verifier::external_body]
#[verifier::reject_recursive_types(T)]
pub struct ExTokioReceiver<T>(tokio::sync::mpsc::Receiver<T>);

/// What became of a message at one session.
#[derive(Debug, Clone, Copy, PartialEq, Eq, Structural)]
pub enum Delivery {
    Delivered,
    Full,
    Closed,
}

/// The largest number of messages that a channel can hold.
pub open spec fn channel_capacity_max() -> int {
    usize::MAX as int / 8
}

/// `tokio::sync::mpsc::channel`: an empty channel that holds up to `capacity` messages. It
/// panics on a capacity of 0 and on one above an eighth of the range of `usize`. Nothing is
/// stated of the two ends: what comes out of one is up to whoever holds the other.
#[verifier::external_body]
fn channel<T>(capacity: usize) -> (ends: (
    tokio::sync::mpsc::Sender<T>,
    tokio::sync::mpsc::Receiver<T>,
))
    requires
        0 < capacity <= channel_capacity_max(),
{
    tokio::sync::mpsc::channel(capacity)
}

/// `tokio::sync::mpsc::Sender::try_send`: puts a message into a channel without waiting.
/// Whether the channel has room, and whether its receiver is still there, is up to the
/// receiver, so nothing is stated of the outcome.
#[verifier::external_body]
fn try_deliver<T>(sender: &tokio::sync::mpsc::Sender<T>, message: T) -> (delivery: Delivery) {
    match sender.try_send(message) {
        Ok(()) => Delivery::Delivered,
        Err(tokio::sync::mpsc::error::TrySendError::Full(_)) => Delivery::Full,
        Err(tokio::sync::mpsc::error::TrySendError::Closed(_)) => Delivery::Closed,
    }
}

/// A channel of this capacity may have these ends.
pub closed spec fn may_open<T>(
    capacity: usize,
    sender: tokio::sync::mpsc::Sender<T>,
    receiver: tokio::sync::mpsc::Receiver<T>,
) -> bool {
    call_ensures(channel::<T>, (capacity,), (sender, receiver))
}

/// Putting this message into this channel may end this way.
pub closed spec fn may_deliver<T>(
    sender: tokio::sync::mpsc::Sender<T>,
    message: T,
    delivery: Delivery,
) -> bool {
    call_ensures(try_deliver::<T>, (&sender, message), delivery)
}

/// Putting a copy of these bytes into this channel may end this way.
pub open spec fn may_deliver_bytes(
    sender: tokio::sync::mpsc::Sender<Vec<u8>>,
    bytes: Seq<u8>,
    delivery: Delivery,
) -> bool {
    exists|copy: Vec<u8>| copy@ == bytes && #[trigger] may_deliver(sender, copy, delivery)
}

/// The sending end of a queue.
#[verifier::reject_recursive_types(T)]
pub struct Outbox<T: View> {
    sender: tokio::sync::mpsc::Sender<T>,
    log: Ghost<Seq<(T::V, Delivery)>>,
}

impl<T: View> Outbox<T> {
    /// The channel that messages are put into.
    pub closed spec fn end(self) -> tokio::sync::mpsc::Sender<T> {
        self.sender
    }

    /// Every message that was put into the queue, in order, and what became of it.
    pub closed spec fn sent(self) -> Seq<(T::V, Delivery)> {
        self.log@
    }

    /// The two ends of a queue that nothing was put into.
    pub fn open(capacity: usize) -> (ends: (Outbox<T>, tokio::sync::mpsc::Receiver<T>))
        requires
            0 < capacity <= channel_capacity_max(),
        ensures
            may_open(capacity, ends.0.end(), ends.1),
            ends.0.sent() == Seq::<(T::V, Delivery)>::empty(),
    {
        let (sender, receiver) = channel(capacity);
        (Outbox { sender, log: Ghost(Seq::empty()) }, receiver)
    }

    /// Puts a message into the queue once, without waiting.
    pub fn put(&mut self, message: T) -> (delivery: Delivery)
        ensures
            final(self).end() == old(self).end(),
            final(self).sent() == old(self).sent().push((message@, delivery)),
            may_deliver(old(self).end(), message, delivery),
    {
        let ghost content = message@;
        let delivery: Delivery = try_deliver(&self.sender, message);
        proof {
            self.log@ = self.log@.push((content, delivery));
        }
        delivery
    }
}

} // verus!
