//! Bounded queues of frames: `flume` channels.
//!
//! The two ends of a channel are shared with other threads, so what a channel holds is not a fact
//! about one end. What is: which channel an end belongs to, and what has gone through that end.

use vstd::prelude::*;

use bytes::Bytes;
use flume::{Receiver, Sender, TryRecvError, TrySendError};

use crate::ext::buffer;

verus! {

/// The sending end of a channel.
#[verifier::external_type_specification]
#[verifier::external_body]
#[verifier::reject_recursive_types(T)]
pub struct ExSender<T>(Sender<T>);

/// The receiving end of a channel.
#[verifier::external_type_specification]
#[verifier::external_body]
#[verifier::reject_recursive_types(T)]
pub struct ExReceiver<T>(Receiver<T>);

/// The channel that a sending end belongs to.
pub uninterp spec fn sender_channel(tx: Sender<Bytes>) -> int;

/// The channel that a receiving end belongs to.
pub uninterp spec fn receiver_channel(rx: Receiver<Bytes>) -> int;

/// The number of frames that a sending end's channel was made to hold.
pub uninterp spec fn sender_capacity(tx: Sender<Bytes>) -> nat;

/// The number of frames that a receiving end's channel was made to hold.
pub uninterp spec fn receiver_capacity(rx: Receiver<Bytes>) -> nat;

/// The frames that this end was told to send, oldest first, each with whether the channel took it,
/// and with how often the receiving end that was held then had been asked for a frame (zero where
/// none was held).
pub uninterp spec fn sender_offers(tx: Sender<Bytes>) -> Seq<(Seq<u8>, bool, nat)>;

/// What each request for a frame from this end gave, oldest first.
pub uninterp spec fn receiver_takes(rx: Receiver<Bytes>) -> Seq<Take>;

/// What a request for a frame gave.
pub enum Take {
    /// The channel's oldest frame.
    Frame(Seq<u8>),
    /// Nothing: the channel was empty.
    Empty,
    /// Nothing: the channel was empty, and had no sending end left.
    Disconnected,
}

/// What a request for a frame gave.
pub enum Taken {
    /// The channel's oldest frame.
    Frame(Bytes),
    /// Nothing: the channel was empty.
    Empty,
    /// Nothing: the channel was empty, and had no sending end left.
    Disconnected,
}

impl View for Taken {
    type V = Take;

    open spec fn view(&self) -> Take {
        match *self {
            Taken::Frame(frame) => Take::Frame(buffer::frame_bytes(frame)),
            Taken::Empty => Take::Empty,
            Taken::Disconnected => Take::Disconnected,
        }
    }
}

/// How often the receiving end that is held has been asked for a frame; zero where none is held.
pub open spec fn times_asked(held: Option<&Receiver<Bytes>>) -> nat {
    match held {
        Some(rx) => receiver_takes(*rx).len(),
        None => 0,
    }
}

/// How a frame that was to be sent fared.
pub enum Offer {
    /// The channel took it.
    Sent,
    /// The channel was full; the frame comes back.
    Full(Bytes),
    /// The channel had no receiving end left; the frame comes back.
    Disconnected(Bytes),
}

/// `flume::bounded`: the two ends of a new channel that holds `capacity` frames, with nothing sent
/// or received yet.
#[verifier::external_body]
pub(crate) fn bounded(capacity: usize) -> (ends: (Sender<Bytes>, Receiver<Bytes>))
    ensures
        sender_channel(ends.0) == receiver_channel(ends.1),
        sender_capacity(ends.0) == capacity,
        receiver_capacity(ends.1) == capacity,
        sender_offers(ends.0).len() == 0,
        receiver_takes(ends.1).len() == 0,
{
    flume::bounded(capacity)
}

/// `Receiver::clone`: a second receiving end of the same channel, through which nothing has been
/// received yet.
#[verifier::external_body]
pub(crate) fn clone_receiver(rx: &Receiver<Bytes>) -> (other: Receiver<Bytes>)
    ensures
        receiver_channel(other) == receiver_channel(*rx),
        receiver_capacity(other) == receiver_capacity(*rx),
        receiver_takes(other).len() == 0,
{
    rx.clone()
}

/// `Sender::try_send`: the frame is offered to the channel, once; where the channel does not take
/// it, the same frame comes back. A channel is disconnected when its last receiving end is dropped,
/// so it is not while `held` is one of its receiving ends. Whether a channel is full depends on
/// what the other threads do, so nothing is said of it.
#[verifier::external_body]
pub(crate) fn try_send(
    tx: &mut Sender<Bytes>,
    held: Option<&Receiver<Bytes>>,
    frame: Bytes,
) -> (offer: Offer)
    ensures
        sender_offers(*final(tx)) == sender_offers(*old(tx)).push(
            (buffer::frame_bytes(frame), offer is Sent, times_asked(held)),
        ),
        sender_channel(*final(tx)) == sender_channel(*old(tx)),
        sender_capacity(*final(tx)) == sender_capacity(*old(tx)),
        offer matches Offer::Full(back) ==> back == frame,
        offer matches Offer::Disconnected(back) ==> back == frame,
        (held matches Some(rx) && receiver_channel(*rx) == sender_channel(*old(tx))) ==> !(offer
            is Disconnected),
{
    match tx.try_send(frame) {
        Ok(()) => Offer::Sent,
        Err(TrySendError::Full(back)) => Offer::Full(back),
        Err(TrySendError::Disconnected(back)) => Offer::Disconnected(back),
    }
}

/// `Receiver::try_recv`: asks the channel for its oldest frame, once. Whether there is one depends
/// on what the other threads do, so nothing is said of it. `flume` adds one to the capacity on the
/// way, so the largest of all capacities is left out.
#[verifier::external_body]
pub(crate) fn try_recv(rx: &mut Receiver<Bytes>) -> (taken: Taken)
    requires
        receiver_capacity(*old(rx)) < usize::MAX,
    ensures
        receiver_takes(*final(rx)) == receiver_takes(*old(rx)).push(taken@),
        receiver_channel(*final(rx)) == receiver_channel(*old(rx)),
        receiver_capacity(*final(rx)) == receiver_capacity(*old(rx)),
{
    match rx.try_recv() {
        Ok(frame) => Taken::Frame(frame),
        Err(TryRecvError::Empty) => Taken::Empty,
        Err(TryRecvError::Disconnected) => Taken::Disconnected,
    }
}

} // verus!
