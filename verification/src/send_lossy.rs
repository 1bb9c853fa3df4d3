//! Lossy sending to a bounded queue: where the queue is full, its oldest frame makes way.

use vstd::prelude::*;

use bytes::Bytes;
use flume::{Receiver, Sender};

use crate::ext::buffer;
use crate::ext::queue;
use crate::ext::queue::{try_recv, try_send, Offer, Taken};

verus! {

/// Result of a lossy send attempt.
#[derive(Debug, Clone, Copy, PartialEq, Eq, Structural)]
pub enum SendLossyResult {
    /// Message sent without dropping anything.
    Sent,
    /// Message sent after dropping that many older messages.
    SentLossy(usize),
    /// Could not send after exhausting all retries.
    ExhaustedRetries,
}

/// How often a lossy send tries again when the channel is full.
pub const MAX_SEND_RETRIES: usize = 10;

/// The result of a send that the channel took after `dropped` older messages made way.
pub open spec fn sent_after(dropped: nat) -> SendLossyResult {
    if dropped == 0 {
        SendLossyResult::Sent
    } else {
        SendLossyResult::SentLossy(dropped as usize)
    }
}

/// What follows an offer that the channel took or did not take, after `failed` offers that it did
/// not take and `dropped` messages that made way: the result, or nothing where the oldest message
/// is to be dropped and the offer repeated.
pub open spec fn next_step(
    failed: nat,
    dropped: nat,
    retries: nat,
    accepted: bool,
) -> Option<SendLossyResult> {
    if accepted {
        Some(sent_after(dropped))
    } else if failed >= retries {
        Some(SendLossyResult::ExhaustedRetries)
    } else {
        None
    }
}

/// Decides what follows an offer; see `next_step`.
pub fn send_step(failed: usize, dropped: usize, retries: usize, accepted: bool) -> (step: Option<
    SendLossyResult,
>)
    ensures
        step == next_step(failed as nat, dropped as nat, retries as nat, accepted),
{
    if accepted {
        if dropped == 0 {
            Some(SendLossyResult::Sent)
        } else {
            Some(SendLossyResult::SentLossy(dropped))
        }
    } else if failed >= retries {
        Some(SendLossyResult::ExhaustedRetries)
    } else {
        None
    }
}

/// `message`, offered `times` times and never taken, where the receiving end had been asked `asked`
/// times before the first offer, and once more before each of the others.
pub open spec fn refused(message: Seq<u8>, times: nat, asked: nat) -> Seq<(Seq<u8>, bool, nat)> {
    Seq::new(times, |i: int| (message, false, (asked + i) as nat))
}

/// The number of frames that a run of requests gave.
pub open spec fn frames_taken(takes: Seq<queue::Take>) -> nat
    decreases takes.len(),
{
    if takes.len() == 0 {
        0
    } else {
        frames_taken(takes.drop_last()) + if takes.last() is Frame {
            1nat
        } else {
            0nat
        }
    }
}

/// One lossy send of `message`, seen at the two ends of its queue: `offers` is what it told the
/// sending end to send, `takes` what it asked the receiving end for, which had been asked `asked`
/// times before.
///
/// Each offer that is not taken is followed by one request for the oldest frame before the next
/// offer is made, as long as there are retries left; the first offer that is taken ends it.
pub open spec fn lossy_run(
    message: Seq<u8>,
    retries: nat,
    asked: nat,
    offers: Seq<(Seq<u8>, bool, nat)>,
    takes: Seq<queue::Take>,
    result: SendLossyResult,
) -> bool {
    if result is ExhaustedRetries {
        &&& takes.len() == retries
        &&& offers == refused(message, retries + 1, asked)
    } else {
        &&& takes.len() <= retries
        &&& offers == refused(message, takes.len(), asked).push(
            (message, true, asked + takes.len()),
        )
        &&& result == sent_after(frames_taken(takes))
    }
}

/// What `after` holds beyond `before`.
pub open spec fn appended<A>(before: Seq<A>, after: Seq<A>) -> Seq<A> {
    after.skip(before.len() as int)
}

/// Whether the ends of a queue, which had seen `offers0` and `takes0`, have since seen one lossy
/// send of `message` with that result, and nothing else.
pub open spec fn lossy_sent(
    message: Seq<u8>,
    retries: nat,
    offers0: Seq<(Seq<u8>, bool, nat)>,
    takes0: Seq<queue::Take>,
    offers1: Seq<(Seq<u8>, bool, nat)>,
    takes1: Seq<queue::Take>,
    result: SendLossyResult,
) -> bool {
    &&& offers1 == offers0 + appended(offers0, offers1)
    &&& takes1 == takes0 + appended(takes0, takes1)
    &&& lossy_run(
        message,
        retries,
        takes0.len(),
        appended(offers0, offers1),
        appended(takes0, takes1),
        result,
    )
}

/// Attempt to send a message on a bounded channel, dropping oldest messages if full.
///
/// If the channel is full, the oldest message is taken out of it and the offer is repeated, up to
/// `retries` times.
pub fn send_lossy(
    tx: &mut Sender<Bytes>,
    rx: &mut Receiver<Bytes>,
    message: Bytes,
    retries: usize,
) -> (result: SendLossyResult)
    requires
        queue::sender_channel(*old(tx)) == queue::receiver_channel(*old(rx)),
        queue::receiver_capacity(*old(rx)) < usize::MAX,
    ensures
        lossy_sent(
            buffer::frame_bytes(message),
            retries as nat,
            queue::sender_offers(*old(tx)),
            queue::receiver_takes(*old(rx)),
            queue::sender_offers(*final(tx)),
            queue::receiver_takes(*final(rx)),
            result,
        ),
        queue::sender_channel(*final(tx)) == queue::sender_channel(*old(tx)),
        queue::sender_capacity(*final(tx)) == queue::sender_capacity(*old(tx)),
        queue::receiver_channel(*final(rx)) == queue::receiver_channel(*old(rx)),
        queue::receiver_capacity(*final(rx)) == queue::receiver_capacity(*old(rx)),
{
    let ghost m = buffer::frame_bytes(message);
    let ghost offers0 = queue::sender_offers(*tx);
    let ghost takes0 = queue::receiver_takes(*rx);
    let ghost asked = takes0.len();
    let ghost mut takes: Seq<queue::Take> = Seq::empty();
    let mut pending = message;
    let mut failed: usize = 0;
    let mut dropped: usize = 0;
    assert(refused(m, 0, asked) =~= Seq::empty());
    loop
        invariant
            queue::sender_channel(*tx) == queue::receiver_channel(*rx),
            queue::sender_channel(*tx) == queue::sender_channel(*old(tx)),
            queue::sender_capacity(*tx) == queue::sender_capacity(*old(tx)),
            queue::receiver_channel(*rx) == queue::receiver_channel(*old(rx)),
            queue::receiver_capacity(*rx) == queue::receiver_capacity(*old(rx)),
            queue::receiver_capacity(*rx) < usize::MAX,
            offers0 == queue::sender_offers(*old(tx)),
            takes0 == queue::receiver_takes(*old(rx)),
            asked == takes0.len(),
            m == buffer::frame_bytes(message),
            m == buffer::frame_bytes(pending),
            failed <= retries,
            dropped <= failed,
            takes.len() == failed,
            frames_taken(takes) == dropped,
            queue::sender_offers(*tx) == offers0 + refused(m, failed as nat, asked),
            queue::receiver_takes(*rx) == takes0 + takes,
        decreases retries - failed,
    {
        let offer = try_send(tx, Some(&*rx), pending);
        let accepted = matches!(offer, Offer::Sent);
        if let Some(result) = send_step(failed, dropped, retries, accepted) {
            proof {
                let offers = refused(m, failed as nat, asked).push(
                    (m, accepted, asked + failed as nat),
                );
                assert(queue::sender_offers(*tx) =~= offers0 + offers);
                assert(appended(offers0, queue::sender_offers(*tx)) =~= offers);
                assert(appended(takes0, queue::receiver_takes(*rx)) =~= takes);
                if !accepted {
                    assert(offers =~= refused(m, failed as nat + 1, asked));
                }
            }
            return result;
        }
        match offer {
            Offer::Full(rejected) => {
                let ghost before = takes;
                let taken = try_recv(rx);
                if matches!(taken, Taken::Frame(_)) {
                    dropped = dropped + 1;
                }
                proof {
                    takes = before.push(taken@);
                    assert(takes.drop_last() =~= before);
                    assert(queue::receiver_takes(*rx) =~= takes0 + takes);
                    assert(queue::sender_offers(*tx) =~= offers0 + refused(
                        m,
                        failed as nat + 1,
                        asked,
                    ));
                }
                failed = failed + 1;
                pending = rejected;
            },
            Offer::Sent | Offer::Disconnected(_) => {
                // The channel would have taken the frame, and it has a receiving end: `rx`.
                assert(false);
                return SendLossyResult::ExhaustedRetries;
            },
        }
    }
}

/// The content of a first-in, first-out queue of capacity `capacity` after it has been told and
/// asked what `offers` and `takes` say, each offer after as many requests as it says, of which
/// there have been `asked` before; nothing where such a queue would not have answered as they say
/// it did.
pub open spec fn fifo_after(
    content: Seq<Seq<u8>>,
    capacity: nat,
    asked: nat,
    offers: Seq<(Seq<u8>, bool, nat)>,
    takes: Seq<queue::Take>,
) -> Option<Seq<Seq<u8>>>
    decreases offers.len() + takes.len(),
{
    if takes.len() > 0 && (offers.len() == 0 || asked < offers[0].2) {
        if content.len() > 0 {
            if takes[0] == queue::Take::Frame(content[0]) {
                fifo_after(content.drop_first(), capacity, asked + 1, offers, takes.drop_first())
            } else {
                None
            }
        } else if takes[0] is Empty {
            fifo_after(content, capacity, asked + 1, offers, takes.drop_first())
        } else {
            None
        }
    } else if offers.len() > 0 {
        if offers[0].2 != asked || offers[0].1 != (content.len() < capacity) {
            None
        } else if offers[0].1 {
            fifo_after(content.push(offers[0].0), capacity, asked, offers.drop_first(), takes)
        } else {
            fifo_after(content, capacity, asked, offers.drop_first(), takes)
        }
    } else {
        Some(content)
    }
}

/// On a queue that nobody else uses meanwhile, a lossy send never costs more than the oldest
/// message: where there is room, the message joins the queue; where there is none, the oldest
/// message makes way for it, and no other; and a queue that can hold nothing, or that may not be
/// tried twice, stays as it is.
pub proof fn law_full_queue_drops_its_oldest(
    content: Seq<Seq<u8>>,
    capacity: nat,
    message: Seq<u8>,
    retries: nat,
    asked: nat,
    offers: Seq<(Seq<u8>, bool, nat)>,
    takes: Seq<queue::Take>,
    result: SendLossyResult,
)
    requires
        content.len() <= capacity,
        lossy_run(message, retries, asked, offers, takes, result),
        fifo_after(content, capacity, asked, offers, takes) is Some,
    ensures
        content.len() < capacity ==> {
            &&& result is Sent
            &&& fifo_after(content, capacity, asked, offers, takes) == Some(content.push(message))
        },
        (content.len() == capacity && capacity > 0 && retries > 0) ==> {
            &&& result == SendLossyResult::SentLossy(1)
            &&& fifo_after(content, capacity, asked, offers, takes) == Some(
                content.drop_first().push(message),
            )
        },
        (content.len() == capacity && (capacity == 0 || retries == 0)) ==> {
            &&& result is ExhaustedRetries
            &&& fifo_after(content, capacity, asked, offers, takes) == Some(content)
        },
{
    reveal_with_fuel(fifo_after, 4);
    assert(offers[0].2 == asked);
    let rest = offers.drop_first();
    if content.len() < capacity {
        assert(offers[0].1);
        assert(takes.len() == 0);
        assert(rest =~= Seq::empty());
    } else if retries == 0 {
        assert(rest =~= Seq::empty());
        if !(result is ExhaustedRetries) {
            assert(offers[0].1);
        }
    } else if capacity == 0 {
        lemma_empty_refuses_all(content, asked, offers, takes);
        if !(result is ExhaustedRetries) {
            assert(offers.last().1);
        }
    } else {
        assert(!offers[0].1);
        assert(offers.len() >= 2);
        assert(rest[0] == offers[1]);
        assert(rest[0].2 == asked + 1);
        assert(takes.len() >= 1);
        let left = takes.drop_first();
        assert(rest[0].1);
        assert(takes.len() == 1);
        assert(rest.drop_first() =~= Seq::empty());
        assert(left =~= Seq::empty());
        assert(takes.drop_last() =~= Seq::empty());
        assert(frames_taken(takes.drop_last()) == 0);
    }
}

/// A queue of capacity zero refuses every offer and has nothing to give.
proof fn lemma_empty_refuses_all(
    content: Seq<Seq<u8>>,
    asked: nat,
    offers: Seq<(Seq<u8>, bool, nat)>,
    takes: Seq<queue::Take>,
)
    requires
        content.len() == 0,
        fifo_after(content, 0, asked, offers, takes) is Some,
    ensures
        fifo_after(content, 0, asked, offers, takes) == Some(content),
        forall|i: int| 0 <= i < offers.len() ==> !(#[trigger] offers[i]).1,
    decreases offers.len() + takes.len(),
{
    if takes.len() > 0 && (offers.len() == 0 || asked < offers[0].2) {
        lemma_empty_refuses_all(content, asked + 1, offers, takes.drop_first());
    } else if offers.len() > 0 {
        let rest = offers.drop_first();
        lemma_empty_refuses_all(content, asked, rest, takes);
        assert forall|i: int| 0 <= i < offers.len() implies !(#[trigger] offers[i]).1 by {
            if i > 0 {
                assert(offers[i] == rest[i - 1]);
            }
        }
    }
}

} // verus!
