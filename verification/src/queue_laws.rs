//! What goes into and comes out of a client's queues, and what is made of it on the way.

use vstd::prelude::*;

use bytes::Bytes;
use flume::{Receiver, Sender};
use zstd_safe::CCtx;

use crate::compression;
use crate::compression::{decompress, keep_if_shorter, Compressor};
use crate::ext::queue::{Take, Taken};
use crate::ext::{buffer, queue, zstd};
use crate::poller::{datagram_step, next_frame, write_step, WriteAction, WriteEvent};
use crate::send_lossy;
use crate::send_lossy::{send_step, SendLossyResult};

verus! {

proof fn lemma_frames_taken_counts(takes: Seq<Take>)
    ensures
        send_lossy::frames_taken(takes) == takes.filter(|t: Take| t is Frame).len(),
    decreases takes.len(),
{
    reveal(Seq::filter);
    if takes.len() > 0 {
        lemma_frames_taken_counts(takes.drop_last());
    }
}

/// A lossy send offers the message, and nothing else, again and again: each offer but the last is
/// refused, and is followed by exactly one request for the oldest frame before the next offer. It
/// is given up only after as many retries as allowed. The result counts the frames that were taken
/// out.
pub proof fn law_lossy_send(
    message: Seq<u8>,
    retries: nat,
    offers0: Seq<(Seq<u8>, bool, nat)>,
    takes0: Seq<Take>,
    offers1: Seq<(Seq<u8>, bool, nat)>,
    takes1: Seq<Take>,
    result: SendLossyResult,
)
    requires
        send_lossy::lossy_sent(message, retries, offers0, takes0, offers1, takes1, result),
        retries <= usize::MAX,
    ensures
        ({
            let n = offers1.len() - offers0.len();
            let dropped = takes1.skip(takes0.len() as int).filter(|t: Take| t is Frame).len();
            &&& n >= 1
            &&& offers1.take(offers0.len() as int) == offers0
            &&& takes1.take(takes0.len() as int) == takes0
            &&& takes1.len() - takes0.len() == n - 1
            &&& n - 1 <= retries
            &&& forall|i: int|
                offers0.len() <= i < offers1.len() ==> {
                    &&& (#[trigger] offers1[i]).0 == message
                    &&& offers1[i].2 == takes0.len() + (i - offers0.len())
                    &&& i < offers1.len() - 1 ==> !offers1[i].1
                }
            &&& offers1.last().1 <==> result != SendLossyResult::ExhaustedRetries
            &&& !offers1.last().1 ==> n == retries + 1
            &&& result == SendLossyResult::Sent <==> offers1.last().1 && dropped == 0
            &&& offers1.last().1 && dropped > 0 ==> result == SendLossyResult::SentLossy(
                dropped as usize,
            )
        }),
{
    let offers = offers1.skip(offers0.len() as int);
    let takes = takes1.skip(takes0.len() as int);
    lemma_frames_taken_counts(takes);
    assert(offers1 =~= offers0 + offers);
    assert(takes1 =~= takes0 + takes);
    assert(offers1.take(offers0.len() as int) =~= offers0);
    assert(takes1.take(takes0.len() as int) =~= takes0);
    assert(offers1.last() == offers.last());
    assert forall|i: int| offers0.len() <= i < offers1.len() implies {
        &&& (#[trigger] offers1[i]).0 == message
        &&& offers1[i].2 == takes0.len() + (i - offers0.len())
        &&& i < offers1.len() - 1 ==> !offers1[i].1
    } by {
        assert(offers1[i] == offers[i - offers0.len()]);
    }
    lemma_frames_taken_bound(takes);
}

proof fn lemma_frames_taken_bound(takes: Seq<Take>)
    ensures
        send_lossy::frames_taken(takes) <= takes.len(),
    decreases takes.len(),
{
    if takes.len() > 0 {
        lemma_frames_taken_bound(takes.drop_last());
    }
}

/// What `send_lossy` does and returns.
pub proof fn law_send_lossy(
    tx: &mut Sender<Bytes>,
    rx: &mut Receiver<Bytes>,
    message: Bytes,
    retries: usize,
    result: SendLossyResult,
)
    requires
        call_ensures(send_lossy::send_lossy, (tx, rx, message, retries), result),
    ensures
        ({
            let offers0 = queue::sender_offers(*old(tx));
            let offers1 = queue::sender_offers(*final(tx));
            let takes0 = queue::receiver_takes(*old(rx));
            let takes1 = queue::receiver_takes(*final(rx));
            let dropped = takes1.skip(takes0.len() as int).filter(|t: Take| t is Frame).len();
            &&& offers1.len() > offers0.len()
            &&& offers1.take(offers0.len() as int) == offers0
            &&& takes1.take(takes0.len() as int) == takes0
            &&& offers1.len() - offers0.len() == takes1.len() - takes0.len() + 1
            &&& offers1.len() - offers0.len() <= retries + 1
            &&& forall|i: int|
                offers0.len() <= i < offers1.len() ==> {
                    &&& (#[trigger] offers1[i]).0 == buffer::frame_bytes(message)
                    &&& offers1[i].2 == takes0.len() + (i - offers0.len())
                    &&& i < offers1.len() - 1 ==> !offers1[i].1
                }
            &&& offers1.last().1 <==> result != SendLossyResult::ExhaustedRetries
            &&& !offers1.last().1 ==> offers1.len() - offers0.len() == retries + 1
            &&& result == SendLossyResult::Sent <==> offers1.last().1 && dropped == 0
            &&& offers1.last().1 && dropped > 0 ==> result == SendLossyResult::SentLossy(
                dropped as usize,
            )
        }),
{
    law_lossy_send(
        buffer::frame_bytes(message),
        retries as nat,
        queue::sender_offers(*old(tx)),
        queue::receiver_takes(*old(rx)),
        queue::sender_offers(*final(tx)),
        queue::receiver_takes(*final(rx)),
        result,
    );
}

/// What `send_step` returns: an offer that is taken ends the send, with the number of messages
/// dropped; one that is not is repeated until there are no retries left.
pub proof fn law_send_step(
    failed: usize,
    dropped: usize,
    retries: usize,
    accepted: bool,
    step: Option<SendLossyResult>,
)
    requires
        call_ensures(send_step, (failed, dropped, retries, accepted), step),
    ensures
        step is None <==> !accepted && failed < retries,
        accepted && dropped == 0 ==> step == Some(SendLossyResult::Sent),
        accepted && dropped > 0 ==> step == Some(SendLossyResult::SentLossy(dropped)),
        !accepted && failed >= retries ==> step == Some(SendLossyResult::ExhaustedRetries),
{
}

/// How a first-in, first-out queue answers: a request gives its oldest frame, or nothing where it
/// is empty; an offer joins its end exactly where there is room.
pub proof fn law_fifo_answers(
    content: Seq<Seq<u8>>,
    capacity: nat,
    asked: nat,
    offers: Seq<(Seq<u8>, bool, nat)>,
    takes: Seq<Take>,
)
    ensures
        offers.len() == 0 && takes.len() == 0 ==> send_lossy::fifo_after(
            content,
            capacity,
            asked,
            offers,
            takes,
        ) == Some(content),
        (offers.len() > 0 && offers[0].2 == asked) ==> send_lossy::fifo_after(
            content,
            capacity,
            asked,
            offers,
            takes,
        ) == (if content.len() < capacity && offers[0].1 {
            send_lossy::fifo_after(
                content.push(offers[0].0),
                capacity,
                asked,
                offers.drop_first(),
                takes,
            )
        } else if content.len() >= capacity && !offers[0].1 {
            send_lossy::fifo_after(content, capacity, asked, offers.drop_first(), takes)
        } else {
            None
        }),
        (takes.len() > 0 && (offers.len() == 0 || asked < offers[0].2)) ==> send_lossy::fifo_after(
            content,
            capacity,
            asked,
            offers,
            takes,
        ) == (if content.len() > 0 && takes[0] == Take::Frame(content[0]) {
            send_lossy::fifo_after(
                content.drop_first(),
                capacity,
                asked + 1,
                offers,
                takes.drop_first(),
            )
        } else if content.len() == 0 && takes[0] is Empty {
            send_lossy::fifo_after(content, capacity, asked + 1, offers, takes.drop_first())
        } else {
            None
        }),
{
    reveal_with_fuel(send_lossy::fifo_after, 2);
}

/// What `next_frame` does and returns: the control queue is asked once; where it is open and has
/// nothing, the data queue is asked once, and what it gives is returned; else what the control
/// queue gave, and the data queue is left alone.
pub proof fn law_next_frame(
    control_rx: &mut Receiver<Bytes>,
    data_rx: &mut Receiver<Bytes>,
    next: Taken,
)
    requires
        call_ensures(next_frame, (control_rx, data_rx), next),
    ensures
        ({
            let control0 = queue::receiver_takes(*old(control_rx));
            let control1 = queue::receiver_takes(*final(control_rx));
            let data0 = queue::receiver_takes(*old(data_rx));
            let data1 = queue::receiver_takes(*final(data_rx));
            &&& control1.len() == control0.len() + 1
            &&& control1.take(control0.len() as int) == control0
            &&& control1.last() is Empty ==> data1 == data0.push(next@)
            &&& !(control1.last() is Empty) ==> data1 == data0 && next@ == control1.last()
        }),
{
    let control0 = queue::receiver_takes(*old(control_rx));
    assert(queue::receiver_takes(*final(control_rx)).take(control0.len() as int) =~= control0);
}

/// What `write_step` and `datagram_step` return: what came out of a queue is written, a closed
/// queue ends it, and after a write the next frame is asked for. A write that fails ends only the
/// writing to the stream.
pub proof fn law_write_steps(event: WriteEvent, write: WriteAction, datagram: WriteAction)
    requires
        call_ensures(write_step, (event,), write),
        call_ensures(datagram_step, (event,), datagram),
    ensures
        event matches WriteEvent::Frame(f) ==> write == WriteAction::Write(f) && datagram
            == WriteAction::Write(f),
        event is QueueClosed ==> write is Stop && datagram is Stop,
        event is Written ==> write is Receive && datagram is Receive,
        event is WriteFailed ==> write is Stop && datagram is Receive,
{
}

/// What compression gives: the frame that zstd makes at that level, wherever zstd makes one that
/// is shorter; nothing only where zstd failed in a run on that input at that level, or where its
/// frame is not shorter.
pub proof fn law_compress_outcome(level: int, input: Seq<u8>, outcome: Option<Seq<u8>>)
    requires
        compression::compress_outcome(level, input, outcome),
    ensures
        outcome matches Some(out) ==> {
            &&& out == zstd::zstd_compressed(level, input)
            &&& out.len() < input.len()
            &&& zstd::zstd_content(out) == Some(input)
        },
        outcome is None ==> {
            ||| zstd::zstd_compressed(level, input).len() >= input.len()
            ||| exists|cctx: CCtx<'static>| #[trigger]
                zstd::compressions(cctx) == seq![(level, input, None::<Seq<u8>>)]
        },
{
}

/// What `Compressor::compress` returns, of a compressor of that level.
pub proof fn law_compress(compressor: &Compressor, input: &[u8], compressed: Option<Vec<u8>>)
    requires
        call_ensures(Compressor::compress, (compressor, input), compressed),
    ensures
        compressed matches Some(out) ==> {
            &&& out@ == zstd::zstd_compressed(compressor.level(), input@)
            &&& out@.len() < input@.len()
            &&& zstd::zstd_content(out@) == Some(input@)
        },
        compressed is None ==> {
            ||| zstd::zstd_compressed(compressor.level(), input@).len() >= input@.len()
            ||| exists|cctx: CCtx<'static>| #[trigger]
                zstd::compressions(cctx) == seq![
                    (compressor.level(), input@, None::<Seq<u8>>),
                ]
        },
{
    law_compress_outcome(compressor.level(), input@, compression::viewed(compressed));
}

/// The level that `Compressor::new` makes a compressor of, and what `keep_if_shorter` keeps.
pub proof fn law_compression_parts(
    level: i32,
    compressor: Compressor,
    output: Vec<u8>,
    input_len: usize,
    kept: Option<Vec<u8>>,
)
    requires
        call_ensures(Compressor::new, (level,), compressor),
        call_ensures(keep_if_shorter, (output, input_len), kept),
    ensures
        compressor.level() == level,
        output@.len() < input_len ==> kept == Some(output),
        output@.len() >= input_len ==> kept is None,
{
}

/// Whatever is short enough that what zstd makes of it can be in memory can be compressed.
pub proof fn law_compressible(len: nat)
    ensures
        len + len / 256 + 64 <= isize::MAX ==> compression::compressible(len),
{
}

/// What `decompress` returns: the whole content, exactly where there is one that is no longer than
/// the bound.
pub proof fn law_decompress(input: &[u8], max_size: usize, content: Option<Vec<u8>>)
    requires
        call_ensures(decompress, (input, max_size), content),
    ensures
        content is Some <==> (zstd::zstd_content(input@) is Some && (zstd::zstd_content(
            input@,
        )->0).len() <= max_size),
        content matches Some(out) ==> zstd::zstd_content(input@) == Some(out@),
{
}

} // verus!
