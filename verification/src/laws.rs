//! What holds of the library as a whole.

use vstd::prelude::*;

use std::sync::Arc;

use tokio::sync::oneshot;

use crate::channel::{RawChannel, SinkChannelFilter};
use crate::compression;
use crate::connected_client;
use crate::connected_client::{
    ClientSettings, ClientState, DeliveryView, Metadata, ShutdownReason,
    ADVERTISE_CHANNEL_BATCH_SIZE,
};
use crate::ext::{queue, signal, zstd};
use crate::framing;
use crate::framing::StreamOpCode;
use crate::le;
use crate::poller;
use crate::poller::{ChannelRequest, ReadStep};
use crate::send_lossy;
use crate::send_lossy::SendLossyResult;

verus! {

/// The binary message that a stream frame carries: its payload, decompressed where its opcode says
/// so. Nothing where the length field is not that of the payload, or the frame is not a binary one.
pub open spec fn stream_message(frame: Seq<u8>) -> Option<Seq<u8>> {
    let header = framing::stream_header(frame.take(framing::STREAM_FRAME_HEADER_SIZE as int));
    let payload = frame.skip(framing::STREAM_FRAME_HEADER_SIZE as int);
    if header.1 != payload.len() {
        None
    } else if header.0 == StreamOpCode::Binary.code() {
        Some(payload)
    } else if header.0 == StreamOpCode::CompressedBinary.code() {
        zstd::zstd_content(payload)
    } else {
        None
    }
}

/// The binary message that a datagram carries: its payload, decompressed.
pub open spec fn datagram_message(datagram: Seq<u8>) -> Option<Seq<u8>> {
    match framing::parsed_datagram(datagram) {
        Some((_, payload)) => zstd::zstd_content(payload),
        None => None,
    }
}

/// Whether a datagram carries the message as the next datagram of the channel, and is no longer
/// than allowed.
pub open spec fn carries_as_datagram(
    state: ClientState,
    channel_id: u64,
    message: Seq<u8>,
    datagram: Seq<u8>,
) -> bool {
    &&& datagram_message(datagram) == Some(message)
    &&& datagram.len() <= state.settings.max_datagram_size
    &&& framing::parsed_datagram(datagram) matches Some((header, _)) && header
        == connected_client::next_header(state, channel_id)
}

/// What is handed to a client carries the message that was logged: either datagrams, each of which
/// is no longer than allowed, on a topic for datagrams, with the channel and its sequence number;
/// or frames of the stream. Each of them carries the message. A datagram uses its sequence number
/// up. Nothing but queues and sequence numbers changes. The length field of a frame holds lengths
/// below 2^32.
pub proof fn law_message_is_carried(
    before: ClientState,
    channel: RawChannel,
    message: Seq<u8>,
    after: ClientState,
    result: SendLossyResult,
)
    requires
        connected_client::message_sent(before, channel, message, after, result),
        message.len() <= u32::MAX,
    ensures
        ({
            let datagrams = send_lossy::appended(before.datagram_offers, after.datagram_offers);
            let frames = send_lossy::appended(before.data_offers, after.data_offers);
            ||| {
                &&& frames.len() == 0
                &&& datagrams.len() > 0
                &&& forall|i: int|
                    0 <= i < datagrams.len() ==> carries_as_datagram(
                        before,
                        channel.spec_id(),
                        message,
                        (#[trigger] datagrams[i]).0,
                    )
                &&& connected_client::datagram_topic(
                    before.settings.patterns,
                    channel.spec_topic(),
                )
                &&& after.sequences == connected_client::sequence_used(
                    before,
                    channel.spec_id(),
                ).sequences
            }
            ||| {
                &&& datagrams.len() == 0
                &&& frames.len() > 0
                &&& forall|i: int|
                    0 <= i < frames.len() ==> stream_message((#[trigger] frames[i]).0) == Some(
                        message,
                    )
            }
        }),
        after == (ClientState {
            data_offers: after.data_offers,
            data_takes: after.data_takes,
            datagram_offers: after.datagram_offers,
            datagram_takes: after.datagram_takes,
            sequences: after.sequences,
            ..before
        }),
{
    let compressed = chosen_delivery(before, channel, message, after, result);
    let datagrams = send_lossy::appended(before.datagram_offers, after.datagram_offers);
    let frames = send_lossy::appended(before.data_offers, after.data_offers);
    match connected_client::delivery(before, channel, message, compressed) {
        DeliveryView::Datagram(datagram) => {
            lemma_datagram_carries(before, channel, message, compressed);
            assert(frames =~= Seq::empty());
        },
        DeliveryView::Stream(frame) => {
            lemma_stream_carries(before, channel, message, compressed);
            assert(datagrams =~= Seq::empty());
        },
    }
}

/// What compression made of a message that was sent.
spec fn chosen_delivery(
    before: ClientState,
    channel: RawChannel,
    message: Seq<u8>,
    after: ClientState,
    result: SendLossyResult,
) -> Option<Seq<u8>> {
    choose|compressed: Option<Seq<u8>>|
        {
            &&& #[trigger] compression::compress_outcome(
                before.settings.level,
                message,
                compressed,
            )
            &&& connected_client::handed_over(
                connected_client::after_choice(before, channel, compressed),
                connected_client::delivery(before, channel, message, compressed),
                after,
                result,
            )
        }
}

proof fn lemma_datagram_carries(
    state: ClientState,
    channel: RawChannel,
    message: Seq<u8>,
    compressed: Option<Seq<u8>>,
)
    requires
        compression::compress_outcome(state.settings.level, message, compressed),
    ensures
        connected_client::delivery(state, channel, message, compressed) matches
            DeliveryView::Datagram(datagram) ==> carries_as_datagram(
            state,
            channel.spec_id(),
            message,
            datagram,
        ),
{
    if connected_client::delivery(state, channel, message, compressed) is Datagram {
        let header = connected_client::next_header(state, channel.spec_id());
        framing::law_datagram_parse_undoes_encode(header, compressed->0);
        le::lemma_le_bytes_len(header.channel_id as nat, 8);
        le::lemma_le_bytes_len(header.sequence as nat, 4);
        le::lemma_le_bytes_len(header.flags as nat, 2);
    }
}

proof fn lemma_stream_carries(
    state: ClientState,
    channel: RawChannel,
    message: Seq<u8>,
    compressed: Option<Seq<u8>>,
)
    requires
        compression::compress_outcome(state.settings.level, message, compressed),
        message.len() <= u32::MAX,
    ensures
        connected_client::delivery(state, channel, message, compressed) matches
            DeliveryView::Stream(frame) ==> stream_message(frame) == Some(message),
{
    match compressed {
        Some(payload) => {
            framing::law_stream_header_announces_frame(StreamOpCode::CompressedBinary, payload);
        },
        None => {
            framing::law_stream_header_announces_frame(StreamOpCode::Binary, message);
        },
    }
}

/// A client's backlog keeps the newest messages: a message that goes in the stream joins the
/// backlog; where the backlog is full, the oldest of it makes way, and nothing else. This is of a
/// backlog that nobody drains meanwhile, and that can hold something.
pub proof fn law_backlog_keeps_the_newest(
    before: ClientState,
    channel: RawChannel,
    message: Seq<u8>,
    after: ClientState,
    result: SendLossyResult,
    backlog: Seq<Seq<u8>>,
)
    requires
        connected_client::message_sent(before, channel, message, after, result),
        message.len() <= u32::MAX,
        send_lossy::appended(before.data_offers, after.data_offers).len() > 0,
        0 < before.settings.data_queue.capacity,
        backlog.len() <= before.settings.data_queue.capacity,
        send_lossy::fifo_after(
            backlog,
            before.settings.data_queue.capacity,
            before.data_takes.len(),
            send_lossy::appended(before.data_offers, after.data_offers),
            send_lossy::appended(before.data_takes, after.data_takes),
        ) is Some,
    ensures
        exists|frame: Seq<u8>|
            {
                &&& #[trigger] stream_message(frame) == Some(message)
                &&& send_lossy::fifo_after(
                    backlog,
                    before.settings.data_queue.capacity,
                    before.data_takes.len(),
                    send_lossy::appended(before.data_offers, after.data_offers),
                    send_lossy::appended(before.data_takes, after.data_takes),
                ) == Some(
                    if backlog.len() < before.settings.data_queue.capacity {
                        backlog.push(frame)
                    } else {
                        backlog.drop_first().push(frame)
                    },
                )
            },
{
    let compressed = chosen_delivery(before, channel, message, after, result);
    match connected_client::delivery(before, channel, message, compressed) {
        DeliveryView::Datagram(_) => {
            assert(send_lossy::appended(before.data_offers, after.data_offers) =~= Seq::empty());
        },
        DeliveryView::Stream(frame) => {
            lemma_stream_carries(before, channel, message, compressed);
            send_lossy::law_full_queue_drops_its_oldest(
                backlog,
                before.settings.data_queue.capacity,
                frame,
                send_lossy::MAX_SEND_RETRIES as nat,
                before.data_takes.len(),
                send_lossy::appended(before.data_offers, after.data_offers),
                send_lossy::appended(before.data_takes, after.data_takes),
                result,
            );
            assert(stream_message(frame) == Some(message));
        },
    }
}

/// A message goes by datagram exactly where its topic is one for datagrams and, once compressed, it
/// is short enough; in every other case it goes in the stream.
pub proof fn law_datagram_exactly_where_it_fits(
    state: ClientState,
    channel: RawChannel,
    message: Seq<u8>,
    compressed: Option<Seq<u8>>,
)
    ensures
        connected_client::delivery(state, channel, message, compressed) is Datagram <==> {
            &&& connected_client::datagram_topic(state.settings.patterns, channel.spec_topic())
            &&& compressed matches Some(payload) && framing::DATAGRAM_HEADER_SIZE + payload.len()
                <= state.settings.max_datagram_size
        },
{
}

/// The client after datagram sequence numbers of those channels have been used up, in order.
pub open spec fn sequences_used(state: ClientState, channel_ids: Seq<u64>) -> ClientState
    decreases channel_ids.len(),
{
    if channel_ids.len() == 0 {
        state
    } else {
        connected_client::sequence_used(
            sequences_used(state, channel_ids.drop_last()),
            channel_ids.last(),
        )
    }
}

/// How often the channel occurs.
pub open spec fn occurrences(channel_ids: Seq<u64>, channel_id: u64) -> nat
    decreases channel_ids.len(),
{
    if channel_ids.len() == 0 {
        0
    } else {
        occurrences(channel_ids.drop_last(), channel_id) + if channel_ids.last() == channel_id {
            1nat
        } else {
            0nat
        }
    }
}

/// Each channel's sequence numbers count that channel's datagrams, modulo 2^32, however the
/// datagrams of the channels are mixed; in a new client they start at zero.
pub proof fn law_sequence_counts_per_channel(
    state: ClientState,
    channel_ids: Seq<u64>,
    channel_id: u64,
)
    ensures
        connected_client::next_sequence(
            sequences_used(state, channel_ids).sequences,
            channel_id,
        ) == (connected_client::next_sequence(state.sequences, channel_id) + occurrences(
            channel_ids,
            channel_id,
        )) % 0x1_0000_0000,
        forall|settings: ClientSettings, shutdown_tx: oneshot::Sender<ShutdownReason>|
            connected_client::next_sequence(
                #[trigger] connected_client::fresh_client(settings, shutdown_tx).sequences,
                channel_id,
            ) == 0,
    decreases channel_ids.len(),
{
    if channel_ids.len() > 0 {
        law_sequence_counts_per_channel(state, channel_ids.drop_last(), channel_id);
    }
}

/// The first reason that a client is shut down for is the one that it is shut down for.
pub proof fn law_first_shutdown_reason_stays(
    state: ClientState,
    first: ShutdownReason,
    second: ShutdownReason,
)
    ensures
        connected_client::shut_down(connected_client::shut_down(state, first), second)
            == connected_client::shut_down(state, first),
        state.pending is Some ==> connected_client::shut_down(state, first).shutdown == Some(
            first,
        ),
{
}

/// A client whose control queue did not take every frame has been shut down, and unless it had been
/// before, the reason went through its shutdown signal; one whose queue did take them is as it was,
/// but for what its queue was offered.
pub proof fn law_refused_control_shuts_down(
    before: ClientState,
    frames: Seq<Seq<u8>>,
    after: ClientState,
)
    requires
        connected_client::controls_sent(before, frames, after),
    ensures
        ({
            let offers = send_lossy::appended(before.control_offers, after.control_offers);
            if connected_client::all_taken(offers) {
                after == (ClientState { control_offers: after.control_offers, ..before })
            } else {
                &&& after.pending is None
                &&& before.pending matches Some(tx) ==> {
                    &&& after.shutdown == Some(ShutdownReason::ControlPlaneQueueFull)
                    &&& signal::sent_if_any(tx, ShutdownReason::ControlPlaneQueueFull)
                }
            }
        }),
{
}

/// A client that has been told of channels knows each of them, and what it knew of any other
/// channel stays.
pub proof fn law_advertised_channels_are_known(
    known: Map<u64, Arc<RawChannel>>,
    added: Seq<Arc<RawChannel>>,
    channel_id: u64,
)
    ensures
        (exists|i: int|
            0 <= i < added.len() && (#[trigger] added[i]).spec_id() == channel_id) ==> {
            &&& connected_client::cached(known, added).contains_key(channel_id)
            &&& connected_client::cached(known, added)[channel_id].spec_id() == channel_id
            &&& added.contains(connected_client::cached(known, added)[channel_id])
        },
        (forall|i: int|
            0 <= i < added.len() ==> (#[trigger] added[i]).spec_id() != channel_id) ==> {
            &&& connected_client::cached(known, added).contains_key(channel_id)
                == known.contains_key(channel_id)
            &&& connected_client::cached(known, added)[channel_id] == known[channel_id]
        },
    decreases added.len(),
{
    if added.len() > 0 {
        let earlier = added.drop_last();
        law_advertised_channels_are_known(known, earlier, channel_id);
        assert(forall|i: int| 0 <= i < earlier.len() ==> earlier[i] == #[trigger] added[i]);
        assert(added[added.len() - 1] == added.last());
        if added.last().spec_id() != channel_id {
            if exists|i: int|
                0 <= i < added.len() && (#[trigger] added[i]).spec_id() == channel_id {
                let i = choose|i: int|
                    0 <= i < added.len() && (#[trigger] added[i]).spec_id() == channel_id;
                assert(earlier[i].spec_id() == channel_id);
                let found = connected_client::cached(known, earlier)[channel_id];
                let j = choose|j: int| 0 <= j < earlier.len() && earlier[j] == found;
                assert(added[j] == found);
            } else {
                assert forall|i: int| 0 <= i < earlier.len() implies (#[trigger]
                earlier[i]).spec_id() != channel_id by {
                    assert(added[i] == earlier[i]);
                }
            }
        }
    }
}

/// Whether the number that the request makes the client give out is not in use.
pub open spec fn number_unused(state: ClientState, request: ChannelRequest) -> bool {
    (request matches ChannelRequest::Subscribe(id) && connected_client::subscribes(state, id))
        ==> forall|channel_id: u64| #[trigger]
        state.subscriptions.contains_key(channel_id) ==> state.subscriptions[channel_id]
            != state.next_subscription_id
}

/// Whether none of the requests makes the client give out a number that is in use.
pub open spec fn numbers_unused(state: ClientState, requests: Seq<ChannelRequest>) -> bool {
    forall|i: int|
        0 <= i < requests.len() ==> number_unused(
            poller::all_requested(state, requests.take(i)),
            #[trigger] requests[i],
        )
}

/// Whether a client has a channel after requests, given whether it did before and whether it can
/// subscribe to it: what the last request about the channel says, of those that it can make.
pub open spec fn wanted(
    before: bool,
    admitted: bool,
    requests: Seq<ChannelRequest>,
    channel_id: u64,
) -> bool
    decreases requests.len(),
{
    if requests.len() == 0 {
        before
    } else if admitted && requests.last() == ChannelRequest::Subscribe(channel_id) {
        true
    } else if requests.last() == ChannelRequest::Unsubscribe(channel_id) {
        false
    } else {
        wanted(before, admitted, requests.drop_last(), channel_id)
    }
}

/// Requests change neither what a client has been told of nor what the filter has excluded.
proof fn lemma_requests_keep_filter(state: ClientState, requests: Seq<ChannelRequest>)
    ensures
        poller::all_requested(state, requests).channels == state.channels,
        poller::all_requested(state, requests).excluded == state.excluded,
    decreases requests.len(),
{
    if requests.len() > 0 {
        lemma_requests_keep_filter(state, requests.drop_last());
    }
}

/// Whether a client is subscribed to a channel is what its last request about that channel says,
/// whatever else it has requested, as long as no subscription number is given out while it is in
/// use. A channel that it cannot subscribe to it does not get by asking.
pub proof fn law_last_request_decides(
    state: ClientState,
    requests: Seq<ChannelRequest>,
    channel_id: u64,
)
    requires
        numbers_unused(state, requests),
    ensures
        poller::all_requested(state, requests).subscriptions.contains_key(channel_id) == wanted(
            state.subscriptions.contains_key(channel_id),
            connected_client::admitted(state, channel_id),
            requests,
            channel_id,
        ),
    decreases requests.len(),
{
    if requests.len() > 0 {
        let earlier = requests.drop_last();
        assert(requests.take(requests.len() - 1) =~= earlier);
        assert(number_unused(
            poller::all_requested(state, earlier),
            requests[requests.len() - 1],
        ));
        assert forall|i: int| 0 <= i < earlier.len() implies number_unused(
            poller::all_requested(state, earlier.take(i)),
            #[trigger] earlier[i],
        ) by {
            assert(earlier.take(i) =~= requests.take(i));
            assert(earlier[i] == requests[i]);
        }
        law_last_request_decides(state, earlier, channel_id);
        lemma_requests_keep_filter(state, earlier);
    }
}

/// How many subscription numbers the requests make a client give out.
pub open spec fn numbers_given(state: ClientState, requests: Seq<ChannelRequest>) -> nat
    decreases requests.len(),
{
    if requests.len() == 0 {
        0
    } else {
        let earlier = poller::all_requested(state, requests.drop_last());
        let given = numbers_given(state, requests.drop_last());
        match requests.last() {
            ChannelRequest::Subscribe(id) => if connected_client::subscribes(earlier, id) {
                given + 1
            } else {
                given
            },
            ChannelRequest::Unsubscribe(_) => given,
        }
    }
}

/// The numbers that a client has given out that had given out none before, after requests that
/// make it give out at most 2^32: from 1 upwards, then 0.
proof fn lemma_numbers_given(state: ClientState, requests: Seq<ChannelRequest>)
    requires
        state.subscriptions.dom() == Set::<u64>::empty(),
        state.next_subscription_id == 1,
        numbers_given(state, requests) <= 0x1_0000_0000,
    ensures
        ({
            let after = poller::all_requested(state, requests);
            let given = numbers_given(state, requests);
            &&& after.next_subscription_id == (1 + given) % 0x1_0000_0000
            &&& forall|c: u64| #[trigger]
                after.subscriptions.contains_key(c) ==> {
                    ||| 1 <= after.subscriptions[c] <= given
                    ||| after.subscriptions[c] == 0 && given == 0x1_0000_0000
                }
        }),
    decreases requests.len(),
{
    if requests.len() > 0 {
        lemma_numbers_given(state, requests.drop_last());
    }
}

/// Of more requests, no fewer numbers are given out.
proof fn lemma_numbers_given_grows(state: ClientState, requests: Seq<ChannelRequest>, n: int)
    requires
        0 <= n < requests.len(),
    ensures
        numbers_given(state, requests.take(n + 1)) <= numbers_given(state, requests),
    decreases requests.len(),
{
    if n + 1 < requests.len() {
        let earlier = requests.drop_last();
        lemma_numbers_given_grows(state, earlier, n);
        assert(earlier.take(n + 1) =~= requests.take(n + 1));
    } else {
        assert(requests.take(n + 1) =~= requests);
    }
}

/// The first 2^32 subscription numbers that a client gives out are not in use, however many
/// requests it takes.
pub proof fn law_numbers_are_unused(state: ClientState, requests: Seq<ChannelRequest>)
    requires
        state.subscriptions.dom() == Set::<u64>::empty(),
        state.next_subscription_id == 1,
        numbers_given(state, requests) <= 0x1_0000_0000,
    ensures
        numbers_unused(state, requests),
{
    assert forall|i: int| 0 <= i < requests.len() implies number_unused(
        poller::all_requested(state, requests.take(i)),
        #[trigger] requests[i],
    ) by {
        lemma_numbers_given_grows(state, requests, i);
        assert(requests.take(i + 1).drop_last() =~= requests.take(i));
        assert(requests.take(i + 1).last() == requests[i]);
        lemma_numbers_given(state, requests.take(i));
    }
}

/// A second subscribe request for the same channel changes nothing, and is not passed on.
pub proof fn law_subscribe_is_idempotent(state: ClientState, channel_id: u64)
    ensures
        ({
            let once = connected_client::subscribed(state, channel_id);
            &&& connected_client::admitted(state, channel_id)
                ==> once.subscriptions.contains_key(channel_id)
            &&& connected_client::subscribed(once, channel_id) == once
            &&& !poller::passed_on(once, ChannelRequest::Subscribe(channel_id))
        }),
{
}

/// Unsubscribing from a channel that was subscribed to last leaves the subscriptions as they were
/// before, where the subscription's number was not in use.
pub proof fn law_unsubscribe_undoes_subscribe(state: ClientState, channel_id: u64)
    requires
        !state.subscriptions.contains_key(channel_id),
        number_unused(state, ChannelRequest::Subscribe(channel_id)),
    ensures
        connected_client::unsubscribed(
            connected_client::subscribed(state, channel_id),
            channel_id,
        ).subscriptions == state.subscriptions,
{
    assert(connected_client::unsubscribed(
        connected_client::subscribed(state, channel_id),
        channel_id,
    ).subscriptions =~= state.subscriptions);
}

/// No two channels have the same subscription number, whatever a client requests.
pub proof fn law_subscription_numbers_distinct(
    state: ClientState,
    requests: Seq<ChannelRequest>,
)
    requires
        connected_client::one_to_one(state.subscriptions),
    ensures
        connected_client::one_to_one(poller::all_requested(state, requests).subscriptions),
    decreases requests.len(),
{
    if requests.len() > 0 {
        law_subscription_numbers_distinct(state, requests.drop_last());
    }
}

/// The batches that channels are advertised in hold at most 100 channels each and at least one, and
/// are together all the channels, in order.
pub proof fn law_batches_are_all_channels(channels: Seq<Arc<RawChannel>>)
    ensures
        ({
            let count = connected_client::batch_count(channels.len());
            let batches = Seq::new(count, |i: int| connected_client::batch(channels, i));
            &&& connected_client::joined(batches) == channels
            &&& forall|i: int|
                0 <= i < count ==> 1 <= (#[trigger] batches[i]).len()
                    <= ADVERTISE_CHANNEL_BATCH_SIZE
        }),
{
    let count = connected_client::batch_count(channels.len());
    let batches = Seq::new(count, |i: int| connected_client::batch(channels, i));
    lemma_batches_joined(channels, count);
    assert(channels.take(channels.len() as int) =~= channels);
}

proof fn lemma_batches_joined(channels: Seq<Arc<RawChannel>>, count: nat)
    requires
        count <= connected_client::batch_count(channels.len()),
    ensures
        connected_client::joined(Seq::new(count, |i: int| connected_client::batch(channels, i)))
            == channels.take(
            connected_client::at_most(count * ADVERTISE_CHANNEL_BATCH_SIZE, channels.len()),
        ),
    decreases count,
{
    let batches = Seq::new(count, |i: int| connected_client::batch(channels, i));
    if count == 0 {
        assert(channels.take(0) =~= Seq::empty());
    } else {
        let fewer = (count - 1) as nat;
        lemma_batches_joined(channels, fewer);
        assert(batches.drop_last() =~= Seq::new(
            fewer,
            |i: int| connected_client::batch(channels, i),
        ));
        assert(connected_client::joined(batches) =~= channels.take(
            connected_client::at_most(count * ADVERTISE_CHANNEL_BATCH_SIZE, channels.len()),
        ));
    }
}

/// The number of the identifier that is taken after `taken` others.
pub open spec fn nth_client_id(first: u64, taken: nat) -> u64
    decreases taken,
{
    if taken == 0 {
        first
    } else {
        connected_client::following(nth_client_id(first, (taken - 1) as nat))
    }
}

/// No client has the identifier of another, among the first 2^64 clients.
pub proof fn law_client_ids_distinct(first: u64, a: nat, b: nat)
    requires
        a < b < 0x1_0000_0000_0000_0000,
    ensures
        nth_client_id(first, a) != nth_client_id(first, b),
{
    lemma_nth_client_id(first, a);
    lemma_nth_client_id(first, b);
}

proof fn lemma_nth_client_id(first: u64, taken: nat)
    ensures
        nth_client_id(first, taken) == (first + taken) % 0x1_0000_0000_0000_0000,
    decreases taken,
{
    if taken > 0 {
        lemma_nth_client_id(first, (taken - 1) as nat);
    }
}

/// A text that a client sends in a frame is handled as that text, if it is within the limit; a
/// frame that announces more than the limit ends the reading.
pub proof fn law_sent_text_is_handled(text: Seq<char>)
    requires
        vstd::utf8::encode_utf8(text).len() <= u32::MAX,
    ensures
        ({
            let payload = vstd::utf8::encode_utf8(text);
            let frame = framing::stream_frame(StreamOpCode::Text, payload);
            let header = frame.take(framing::STREAM_FRAME_HEADER_SIZE as int);
            let rest = frame.skip(framing::STREAM_FRAME_HEADER_SIZE as int);
            if payload.len() > framing::MAX_MESSAGE_SIZE {
                poller::step_after_header(Some(header)) == ReadStep::Stop
            } else {
                &&& poller::step_after_header(Some(header)) == (ReadStep::Payload {
                    opcode: StreamOpCode::Text.code(),
                    len: rest.len() as usize,
                })
                &&& poller::frame_requests(StreamOpCode::Text.code(), rest)
                    == poller::text_requests(text)
            }
        }),
{
    broadcast use vstd::utf8::encode_utf8_valid_utf8;
    broadcast use vstd::utf8::encode_utf8_decode_utf8;

    let payload = vstd::utf8::encode_utf8(text);
    framing::law_stream_header_announces_frame(StreamOpCode::Text, payload);
}

/// Whatever the answers let through was there, with an answer that let it through.
proof fn lemma_selected_passes<T>(items: Seq<T>, answers: Seq<bool>, item: T)
    requires
        connected_client::selected(items, answers).contains(item),
    ensures
        exists|i: int| 0 <= i < items.len() && #[trigger] items[i] == item && answers[i],
    decreases items.len(),
{
    if items.len() > 0 {
        let earlier = items.drop_last();
        let kept = connected_client::selected(items, answers);
        let at = choose|j: int| 0 <= j < kept.len() && kept[j] == item;
        if answers[items.len() - 1] && at == kept.len() - 1 {
            assert(items[items.len() - 1] == item);
        } else {
            assert(connected_client::selected(earlier, answers)[at] == item);
            lemma_selected_passes(earlier, answers, item);
            let i = choose|i: int| 0 <= i < earlier.len() && #[trigger] earlier[i] == item
                && answers[i];
            assert(items[i] == item);
        }
    }
}

/// What the filter's answers do to a channel that it does not accept among them.
proof fn lemma_filter_rejects(
    state: ClientState,
    channels: Seq<Arc<RawChannel>>,
    answers: Seq<bool>,
    channel_id: u64,
)
    requires
        forall|i: int|
            0 <= i < channels.len() && (#[trigger] channels[i]).spec_id() == channel_id
                ==> !answers[i],
    ensures
        ({
            let after = connected_client::after_filter(state, channels, answers);
            let asked = exists|i: int|
                0 <= i < channels.len() && (#[trigger] channels[i]).spec_id() == channel_id;
            &&& after.excluded.contains(channel_id) == (state.excluded.contains(channel_id)
                || asked)
            &&& after.subscriptions.contains_key(channel_id) == (state.subscriptions.contains_key(
                channel_id,
            ) && !asked)
        }),
    decreases channels.len(),
{
    if channels.len() > 0 {
        let earlier = channels.drop_last();
        assert(forall|i: int| 0 <= i < earlier.len() ==> #[trigger] earlier[i] == channels[i]);
        assert(channels[channels.len() - 1] == channels.last());
        lemma_filter_rejects(state, earlier, answers, channel_id);
        if exists|i: int|
            0 <= i < channels.len() && (#[trigger] channels[i]).spec_id() == channel_id {
            let i = choose|i: int|
                0 <= i < channels.len() && (#[trigger] channels[i]).spec_id() == channel_id;
            if i < earlier.len() {
                assert(earlier[i].spec_id() == channel_id);
            }
        }
    }
}

/// The filter's answers exclude only channels that it rejects.
proof fn lemma_filter_excludes_rejected(
    state: ClientState,
    channels: Seq<Arc<RawChannel>>,
    answers: Seq<bool>,
    channel_id: u64,
)
    requires
        connected_client::after_filter(state, channels, answers).excluded.contains(channel_id),
        !state.excluded.contains(channel_id),
    ensures
        exists|i: int|
            0 <= i < channels.len() && (#[trigger] channels[i]).spec_id() == channel_id
                && !answers[i],
    decreases channels.len(),
{
    if channels.len() > 0 {
        let earlier = channels.drop_last();
        if !answers[channels.len() - 1] && channels.last().spec_id() == channel_id {
            assert(channels[channels.len() - 1] == channels.last());
        } else {
            lemma_filter_excludes_rejected(state, earlier, answers, channel_id);
            let i = choose|i: int|
                0 <= i < earlier.len() && (#[trigger] earlier[i]).spec_id() == channel_id
                    && !answers[i];
            assert(channels[i] == earlier[i]);
        }
    }
}

/// The answers of the filter and the frames that channels were added with.
spec fn chosen_answers<
    F: SinkChannelFilter,
    D,
    A: Fn(&RawChannel) -> Option<D>,
    R: Fn(&Vec<D>) -> String,
>(
    filter: Option<Arc<F>>,
    describe: A,
    render: R,
    before: ClientState,
    channels: Seq<Arc<RawChannel>>,
    after: ClientState,
) -> (Seq<bool>, Seq<Seq<Seq<u8>>>) {
    choose|answers: Seq<bool>, frames: Seq<Seq<Seq<u8>>>|
        {
            &&& #[trigger] connected_client::filtered(filter, channels, answers)
            &&& #[trigger] connected_client::advertisements(
                describe,
                render,
                connected_client::selected(channels, answers),
                frames,
            )
            &&& connected_client::controls_sent(
                ClientState {
                    channels: connected_client::cached(
                        before.channels,
                        connected_client::selected(channels, answers),
                    ),
                    ..connected_client::after_filter(before, channels, answers)
                },
                connected_client::joined(frames),
                after,
            )
        }
}

/// A channel that the filter excludes stays excluded, until the filter accepts it: a client to
/// which channels are added is not told of it, is not subscribed to it even if it was before, does
/// not get it by asking, and so is not sent its messages; nor is the context asked for it.
pub proof fn law_excluded_channel_stays_excluded<
    F: SinkChannelFilter,
    D,
    A: Fn(&RawChannel) -> Option<D>,
    R: Fn(&Vec<D>) -> String,
>(
    filter: Arc<F>,
    describe: A,
    render: R,
    before: ClientState,
    channels: Seq<Arc<RawChannel>>,
    after: ClientState,
    channel_id: u64,
    requests: Seq<ChannelRequest>,
)
    requires
        connected_client::channels_added(
            Some(filter),
            describe,
            render,
            before,
            channels,
            after,
        ),
        connected_client::none_excluded(before.subscriptions, before.excluded),
        before.excluded.contains(channel_id) || exists|i: int|
            0 <= i < channels.len() && (#[trigger] channels[i]).spec_id() == channel_id,
        forall|i: int|
            0 <= i < channels.len() && (#[trigger] channels[i]).spec_id() == channel_id
                ==> !filter.may_answer(channels[i].spec_descriptor(), true),
    ensures
        after.excluded.contains(channel_id),
        after.channels.contains_key(channel_id) == before.channels.contains_key(channel_id),
        !poller::all_requested(after, requests).subscriptions.contains_key(channel_id),
        !poller::passed_on(
            poller::all_requested(after, requests),
            ChannelRequest::Subscribe(channel_id),
        ),
{
    let (answers, frames) = chosen_answers(
        Some(filter),
        describe,
        render,
        before,
        channels,
        after,
    );
    assert forall|i: int|
        0 <= i < channels.len() && (#[trigger] channels[i]).spec_id()
            == channel_id implies !answers[i] by {
        assert(filter.may_answer(channels[i].spec_descriptor(), answers[i]));
    }
    let kept = connected_client::selected(channels, answers);
    assert forall|j: int| 0 <= j < kept.len() implies (#[trigger] kept[j]).spec_id()
        != channel_id by {
        assert(kept.contains(kept[j]));
        lemma_selected_passes(channels, answers, kept[j]);
    }
    law_advertised_channels_are_known(before.channels, kept, channel_id);
    lemma_filter_rejects(before, channels, answers, channel_id);
    lemma_never_subscribed(after, requests, channel_id);
    lemma_requests_keep_filter(after, requests);
}

/// Only channels that the filter rejects become excluded; without a filter, none does.
pub proof fn law_only_rejected_channels_are_excluded<
    F: SinkChannelFilter,
    D,
    A: Fn(&RawChannel) -> Option<D>,
    R: Fn(&Vec<D>) -> String,
>(
    filter: Option<Arc<F>>,
    describe: A,
    render: R,
    before: ClientState,
    channels: Seq<Arc<RawChannel>>,
    after: ClientState,
    channel_id: u64,
)
    requires
        connected_client::channels_added(filter, describe, render, before, channels, after),
        after.excluded.contains(channel_id),
        !before.excluded.contains(channel_id),
    ensures
        filter matches Some(f) && exists|i: int|
            0 <= i < channels.len() && (#[trigger] channels[i]).spec_id() == channel_id
                && f.may_answer(channels[i].spec_descriptor(), false),
{
    let (answers, frames) = chosen_answers(filter, describe, render, before, channels, after);
    lemma_filter_excludes_rejected(before, channels, answers, channel_id);
    let i = choose|i: int|
        0 <= i < channels.len() && (#[trigger] channels[i]).spec_id() == channel_id
            && !answers[i];
    assert(!answers[i]);
    assert(channels[i].spec_id() == channel_id);
}

/// A client that subscribes to a channel is subscribed to it, unless the filter has excluded the
/// channel; its other subscriptions stay as they are, where the number that it gives out is not in
/// use; and the context is asked exactly where it was not subscribed before.
pub proof fn law_subscribe_grants(state: ClientState, channel_id: u64)
    requires
        !state.excluded.contains(channel_id),
        number_unused(state, ChannelRequest::Subscribe(channel_id)),
    ensures
        ({
            let after = connected_client::subscribed(state, channel_id);
            &&& after.subscriptions.contains_key(channel_id)
            &&& after.subscriptions.remove(channel_id) == state.subscriptions.remove(channel_id)
            &&& poller::passed_on(state, ChannelRequest::Subscribe(channel_id))
                == !state.subscriptions.contains_key(channel_id)
            &&& state.subscriptions.contains_key(channel_id) ==> after == state
        }),
{
    assert(connected_client::subscribed(state, channel_id).subscriptions.remove(channel_id)
        =~= state.subscriptions.remove(channel_id));
}

/// A client that cannot subscribe to a channel, or does not ask for it, does not get it.
proof fn lemma_never_subscribed(
    state: ClientState,
    requests: Seq<ChannelRequest>,
    channel_id: u64,
)
    requires
        !state.subscriptions.contains_key(channel_id),
        !connected_client::admitted(state, channel_id) || forall|i: int|
            0 <= i < requests.len() ==> #[trigger] requests[i] != ChannelRequest::Subscribe(
                channel_id,
            ),
    ensures
        !poller::all_requested(state, requests).subscriptions.contains_key(channel_id),
    decreases requests.len(),
{
    if requests.len() > 0 {
        let earlier = requests.drop_last();
        assert(requests[requests.len() - 1] == requests.last());
        assert(forall|i: int| 0 <= i < earlier.len() ==> #[trigger] earlier[i] == requests[i]);
        lemma_never_subscribed(state, earlier, channel_id);
        lemma_requests_keep_filter(state, earlier);
    }
}

/// After a client has unsubscribed from a channel, whatever else it requests, a message that is
/// logged on the channel changes nothing of it, until it asks for the channel again. Its other
/// subscriptions stay, and the context is asked once to unsubscribe it.
pub proof fn law_unsubscribed_gets_nothing<E: Fn(u64, u64, &[u8]) -> Vec<u8>>(
    state: ClientState,
    requests: Seq<ChannelRequest>,
    encode: E,
    channel: RawChannel,
    msg: &[u8],
    metadata: Metadata,
    after: ClientState,
    result: Option<SendLossyResult>,
)
    requires
        forall|i: int|
            0 <= i < requests.len() ==> #[trigger] requests[i] != ChannelRequest::Subscribe(
                channel.spec_id(),
            ),
        connected_client::logged(
            encode,
            poller::all_requested(
                connected_client::unsubscribed(state, channel.spec_id()),
                requests,
            ),
            channel,
            msg,
            metadata,
            after,
            result,
        ),
    ensures
        after == poller::all_requested(
            connected_client::unsubscribed(state, channel.spec_id()),
            requests,
        ),
        result is None,
        !after.subscriptions.contains_key(channel.spec_id()),
        connected_client::unsubscribed(state, channel.spec_id()).subscriptions
            == state.subscriptions.remove(channel.spec_id()),
        poller::context_asked(state, seq![ChannelRequest::Unsubscribe(channel.spec_id())]) == seq![
            ChannelRequest::Unsubscribe(channel.spec_id()),
        ],
{
    lemma_never_subscribed(
        connected_client::unsubscribed(state, channel.spec_id()),
        requests,
        channel.spec_id(),
    );
    let one = seq![ChannelRequest::Unsubscribe(channel.spec_id())];
    reveal_with_fuel(poller::context_asked, 2);
    assert(one.drop_last() =~= Seq::empty());
    assert(poller::context_asked(state, one) =~= one);
}

/// A control message is never dropped to make room: a queue that nobody else uses meanwhile takes
/// it where there is room, and the client stays as it is; where there is none, the queue stays as
/// it is and the client is shut down, with that reason unless there was one before.
pub proof fn law_control_queue_drops_nothing(
    before: ClientState,
    frame: Seq<u8>,
    after: ClientState,
    content: Seq<Seq<u8>>,
)
    requires
        connected_client::controls_sent(before, seq![frame], after),
        content.len() <= before.settings.control_queue.capacity,
        send_lossy::fifo_after(
            content,
            before.settings.control_queue.capacity,
            0,
            send_lossy::appended(before.control_offers, after.control_offers),
            Seq::empty(),
        ) is Some,
    ensures
        ({
            let left = send_lossy::fifo_after(
                content,
                before.settings.control_queue.capacity,
                0,
                send_lossy::appended(before.control_offers, after.control_offers),
                Seq::empty(),
            );
            if content.len() < before.settings.control_queue.capacity {
                &&& left == Some(content.push(frame))
                &&& after == (ClientState { control_offers: after.control_offers, ..before })
            } else {
                &&& left == Some(content)
                &&& after.pending is None
                &&& before.pending matches Some(tx) ==> {
                    &&& after.shutdown == Some(ShutdownReason::ControlPlaneQueueFull)
                    &&& signal::sent_if_any(tx, ShutdownReason::ControlPlaneQueueFull)
                }
                &&& before.pending is None ==> after.shutdown == before.shutdown
            }
        }),
{
    let offers = send_lossy::appended(before.control_offers, after.control_offers);
    reveal_with_fuel(send_lossy::fifo_after, 3);
    assert(offers[0].0 == frame && offers[0].2 == 0);
    assert(offers.drop_first() =~= Seq::empty());
    assert(connected_client::all_taken(offers) <==> offers[0].1);
}

/// The datagram queue keeps the newest messages, as the backlog does: a datagram that carries the
/// message joins it, and where it is full, the oldest datagram makes way, and nothing else. This is
/// of a queue that nobody drains meanwhile, and that can hold something.
pub proof fn law_datagram_queue_keeps_the_newest(
    before: ClientState,
    channel: RawChannel,
    message: Seq<u8>,
    after: ClientState,
    result: SendLossyResult,
    content: Seq<Seq<u8>>,
)
    requires
        connected_client::message_sent(before, channel, message, after, result),
        send_lossy::appended(before.datagram_offers, after.datagram_offers).len() > 0,
        0 < before.settings.datagram_queue.capacity,
        content.len() <= before.settings.datagram_queue.capacity,
        send_lossy::fifo_after(
            content,
            before.settings.datagram_queue.capacity,
            before.datagram_takes.len(),
            send_lossy::appended(before.datagram_offers, after.datagram_offers),
            send_lossy::appended(before.datagram_takes, after.datagram_takes),
        ) is Some,
    ensures
        exists|datagram: Seq<u8>|
            {
                &&& #[trigger] carries_as_datagram(before, channel.spec_id(), message, datagram)
                &&& send_lossy::fifo_after(
                    content,
                    before.settings.datagram_queue.capacity,
                    before.datagram_takes.len(),
                    send_lossy::appended(before.datagram_offers, after.datagram_offers),
                    send_lossy::appended(before.datagram_takes, after.datagram_takes),
                ) == Some(
                    if content.len() < before.settings.datagram_queue.capacity {
                        content.push(datagram)
                    } else {
                        content.drop_first().push(datagram)
                    },
                )
            },
{
    let compressed = chosen_delivery(before, channel, message, after, result);
    match connected_client::delivery(before, channel, message, compressed) {
        DeliveryView::Datagram(datagram) => {
            lemma_datagram_carries(before, channel, message, compressed);
            send_lossy::law_full_queue_drops_its_oldest(
                content,
                before.settings.datagram_queue.capacity,
                datagram,
                send_lossy::MAX_SEND_RETRIES as nat,
                before.datagram_takes.len(),
                send_lossy::appended(before.datagram_offers, after.datagram_offers),
                send_lossy::appended(before.datagram_takes, after.datagram_takes),
                result,
            );
            assert(carries_as_datagram(before, channel.spec_id(), message, datagram));
        },
        DeliveryView::Stream(_) => {
            assert(send_lossy::appended(before.datagram_offers, after.datagram_offers)
                =~= Seq::empty());
        },
    }
}

/// The frames among what requests gave, in order.
pub open spec fn frames_of(takes: Seq<queue::Take>) -> Seq<Seq<u8>>
    decreases takes.len(),
{
    if takes.len() == 0 {
        Seq::empty()
    } else {
        match takes.last() {
            queue::Take::Frame(frame) => frames_of(takes.drop_last()).push(frame),
            _ => frames_of(takes.drop_last()),
        }
    }
}

/// What a queue gives is what it held, oldest first, each frame once, and what it did not give it
/// still holds. A request finds nothing only where everything has been given. This is of a queue
/// that is told nothing meanwhile.
pub proof fn law_queue_gives_in_order(
    content: Seq<Seq<u8>>,
    capacity: nat,
    asked: nat,
    takes: Seq<queue::Take>,
)
    requires
        send_lossy::fifo_after(content, capacity, asked, Seq::empty(), takes) is Some,
    ensures
        content == frames_of(takes) + send_lossy::fifo_after(
            content,
            capacity,
            asked,
            Seq::empty(),
            takes,
        )->0,
        (exists|i: int| 0 <= i < takes.len() && !(#[trigger] takes[i] is Frame)) ==> frames_of(
            takes,
        ) == content,
    decreases takes.len(),
{
    if takes.len() > 0 {
        let rest = takes.drop_first();
        let left = if content.len() > 0 {
            content.drop_first()
        } else {
            content
        };
        law_queue_gives_in_order(left, capacity, asked + 1, rest);
        lemma_frames_of_first(takes);
        if content.len() > 0 {
            assert(content =~= seq![content[0]] + left);
            assert(content =~= frames_of(takes) + send_lossy::fifo_after(
                content,
                capacity,
                asked,
                Seq::empty(),
                takes,
            )->0);
            if exists|i: int| 0 <= i < takes.len() && !(#[trigger] takes[i] is Frame) {
                let i = choose|i: int| 0 <= i < takes.len() && !(#[trigger] takes[i] is Frame);
                assert(rest[i - 1] == takes[i]);
                assert(frames_of(takes) =~= content);
            }
        } else {
            assert(content =~= Seq::empty());
            assert(frames_of(takes) =~= Seq::empty());
        }
    } else {
        assert(content =~= frames_of(takes) + content);
    }
}

proof fn lemma_frames_of_first(takes: Seq<queue::Take>)
    requires
        takes.len() > 0,
    ensures
        frames_of(takes) == (match takes[0] {
            queue::Take::Frame(frame) => seq![frame] + frames_of(takes.drop_first()),
            _ => frames_of(takes.drop_first()),
        }),
    decreases takes.len(),
{
    if takes.len() > 1 {
        lemma_frames_of_first(takes.drop_last());
        assert(takes.drop_last().drop_first() =~= takes.drop_first().drop_last());
        assert(takes.drop_first().last() == takes.last());
        assert(frames_of(takes) =~= (match takes[0] {
            queue::Take::Frame(frame) => seq![frame] + frames_of(takes.drop_first()),
            _ => frames_of(takes.drop_first()),
        }));
    } else {
        reveal_with_fuel(frames_of, 2);
        assert(takes.drop_first() =~= Seq::empty());
        assert(takes.drop_last() =~= Seq::empty());
        assert(frames_of(takes) =~= (match takes[0] {
            queue::Take::Frame(frame) => seq![frame] + frames_of(takes.drop_first()),
            _ => frames_of(takes.drop_first()),
        }));
    }
}

/// Whether `nexts` is what rounds of the write loop gave, one after the other: before round `i`,
/// the control queue had given `controls[i]` and the data queue `datas[i]`.
pub open spec fn rounds(
    controls: Seq<Seq<queue::Take>>,
    datas: Seq<Seq<queue::Take>>,
    nexts: Seq<queue::Take>,
) -> bool {
    &&& controls.len() == nexts.len() + 1
    &&& datas.len() == nexts.len() + 1
    &&& forall|i: int|
        0 <= i < nexts.len() ==> poller::one_round(
            controls[i],
            datas[i],
            controls[i + 1],
            datas[i + 1],
            #[trigger] nexts[i],
        )
}

/// For each round, whether it gave a control message.
pub open spec fn from_control(control: Seq<queue::Take>) -> Seq<bool> {
    control.map_values(|take: queue::Take| take is Frame)
}

/// For each round, whether it did not give a control message.
pub open spec fn not_from_control(control: Seq<queue::Take>) -> Seq<bool> {
    control.map_values(|take: queue::Take| !(take is Frame))
}

/// Whether each round that found a control message gave it, and each round that did not find the
/// control queue open and empty left the data queue alone.
pub open spec fn control_goes_first(
    control: Seq<queue::Take>,
    datas: Seq<Seq<queue::Take>>,
    nexts: Seq<queue::Take>,
) -> bool {
    forall|i: int|
        0 <= i < control.len() ==> {
            &&& #[trigger] control[i] is Frame ==> nexts[i] == control[i]
            &&& !(control[i] is Empty) ==> datas[i + 1] == datas[i]
        }
}

/// Over any number of rounds, what goes out is whole frames of the two queues, unaltered, each
/// once: the rounds that gave a control message gave those of the control queue, in its order, and
/// the other rounds gave the frames of the data queue, in its order. The data queue is asked in a
/// round only where the control queue has just said that it is open and holds nothing.
pub proof fn law_rounds_give_whole_frames_in_order(
    controls: Seq<Seq<queue::Take>>,
    datas: Seq<Seq<queue::Take>>,
    nexts: Seq<queue::Take>,
)
    requires
        rounds(controls, datas, nexts),
    ensures
        ({
            let control = send_lossy::appended(controls[0], controls.last());
            let data = send_lossy::appended(datas[0], datas.last());
            &&& controls.last() == controls[0] + control
            &&& datas.last() == datas[0] + data
            &&& control.len() == nexts.len()
            &&& frames_of(connected_client::selected(nexts, from_control(control))) == frames_of(
                control,
            )
            &&& frames_of(connected_client::selected(nexts, not_from_control(control)))
                == frames_of(data)
            &&& control_goes_first(control, datas, nexts)
        }),
    decreases nexts.len(),
{
    let control = send_lossy::appended(controls[0], controls.last());
    let data = send_lossy::appended(datas[0], datas.last());
    if nexts.len() == 0 {
        assert(control =~= Seq::empty());
        assert(data =~= Seq::empty());
        assert(controls.last() =~= controls[0] + control);
        assert(datas.last() =~= datas[0] + data);
    } else {
        let n = nexts.len() - 1;
        let fewer = nexts.drop_last();
        let controls0 = controls.drop_last();
        let datas0 = datas.drop_last();
        assert forall|i: int| 0 <= i < fewer.len() implies poller::one_round(
            controls0[i],
            datas0[i],
            controls0[i + 1],
            datas0[i + 1],
            #[trigger] fewer[i],
        ) by {
            assert(fewer[i] == nexts[i]);
        }
        law_rounds_give_whole_frames_in_order(controls0, datas0, fewer);
        let control0 = send_lossy::appended(controls0[0], controls0.last());
        let data0 = send_lossy::appended(datas0[0], datas0.last());
        assert(poller::one_round(controls[n], datas[n], controls[n + 1], datas[n + 1], nexts[n]));
        assert(controls0.last() == controls[n] && datas0.last() == datas[n]);
        let got = controls.last().last();
        assert(control =~= control0.push(got));
        assert(controls.last() =~= controls[0] + control);
        assert(control.drop_last() =~= control0);
        assert(from_control(control).drop_last() =~= from_control(control0));
        assert(not_from_control(control).drop_last() =~= not_from_control(control0));
        connected_client::lemma_selected_ignores_later(
            fewer,
            from_control(control0),
            from_control(control),
        );
        connected_client::lemma_selected_ignores_later(
            fewer,
            not_from_control(control0),
            not_from_control(control),
        );
        let kept = connected_client::selected(nexts, from_control(control));
        let others = connected_client::selected(nexts, not_from_control(control));
        if got is Frame {
            assert(data =~= data0);
            assert(kept.drop_last() =~= connected_client::selected(
                fewer,
                from_control(control0),
            ));
        } else {
            assert(others.drop_last() =~= connected_client::selected(
                fewer,
                not_from_control(control0),
            ));
            if got is Empty {
                assert(data =~= data0.push(nexts.last()));
                assert(data.drop_last() =~= data0);
            } else {
                assert(data =~= data0);
            }
        }
        assert(datas.last() =~= datas[0] + data);
        assert forall|i: int| 0 <= i < control.len() implies {
            &&& #[trigger] control[i] is Frame ==> nexts[i] == control[i]
            &&& !(control[i] is Empty) ==> datas[i + 1] == datas[i]
        } by {
            if i < n {
                assert(control[i] == control0[i]);
                assert(fewer[i] == nexts[i]);
                assert(datas0[i] == datas[i] && datas0[i + 1] == datas[i + 1]);
            }
        }
    }
}

/// What a client asks for in the bytes that it sends, frame by frame, up to the first frame that is
/// too long or not whole.
pub open spec fn read_requests(bytes: Seq<u8>) -> Seq<ChannelRequest>
    decreases bytes.len(),
{
    let header = framing::STREAM_FRAME_HEADER_SIZE as int;
    if bytes.len() < header {
        Seq::empty()
    } else {
        match poller::step_after_header(Some(bytes.take(header))) {
            ReadStep::Payload { opcode, len } => if bytes.len() < header + len {
                Seq::empty()
            } else {
                poller::frame_requests(opcode, bytes.subrange(header, header + len))
                    + read_requests(bytes.skip(header + len))
            },
            _ => Seq::empty(),
        }
    }
}

/// The client after the read loop has read the bytes that it sent, and what its context has been
/// asked meanwhile: each frame is handled in the state that the frames before it left.
pub open spec fn after_reading(state: ClientState, bytes: Seq<u8>) -> (
    ClientState,
    Seq<ChannelRequest>,
)
    decreases bytes.len(),
{
    let header = framing::STREAM_FRAME_HEADER_SIZE as int;
    if bytes.len() < header {
        (state, Seq::empty())
    } else {
        match poller::step_after_header(Some(bytes.take(header))) {
            ReadStep::Payload { opcode, len } => if bytes.len() < header + len {
                (state, Seq::empty())
            } else {
                let requests = poller::frame_requests(
                    opcode,
                    bytes.subrange(header, header + len),
                );
                let rest = after_reading(
                    poller::all_requested(state, requests),
                    bytes.skip(header + len),
                );
                (rest.0, poller::context_asked(state, requests) + rest.1)
            },
            _ => (state, Seq::empty()),
        }
    }
}

proof fn lemma_requests_in_turn(
    state: ClientState,
    first: Seq<ChannelRequest>,
    second: Seq<ChannelRequest>,
)
    ensures
        poller::all_requested(poller::all_requested(state, first), second)
            == poller::all_requested(state, first + second),
        poller::context_asked(state, first) + poller::context_asked(
            poller::all_requested(state, first),
            second,
        ) == poller::context_asked(state, first + second),
    decreases second.len(),
{
    if second.len() == 0 {
        assert(first + second =~= first);
        assert(poller::context_asked(state, first) + Seq::<ChannelRequest>::empty()
            =~= poller::context_asked(state, first));
    } else {
        lemma_requests_in_turn(state, first, second.drop_last());
        assert((first + second).drop_last() =~= first + second.drop_last());
        assert(poller::context_asked(state, first) + poller::context_asked(
            poller::all_requested(state, first),
            second,
        ) =~= poller::context_asked(state, first + second));
    }
}

/// Reading frame after frame does what the requests of all the frames do in turn, and the context
/// is asked what it is to be asked after them, up to the first frame that is too long or not whole.
pub proof fn law_reading_does_all_requests(state: ClientState, bytes: Seq<u8>)
    ensures
        after_reading(state, bytes) == (
            poller::all_requested(state, read_requests(bytes)),
            poller::context_asked(state, read_requests(bytes)),
        ),
    decreases bytes.len(),
{
    let header = framing::STREAM_FRAME_HEADER_SIZE as int;
    if bytes.len() >= header {
        if let ReadStep::Payload { opcode, len } = poller::step_after_header(
            Some(bytes.take(header)),
        ) {
            if bytes.len() >= header + len {
                let requests = poller::frame_requests(
                    opcode,
                    bytes.subrange(header, header + len),
                );
                let rest = bytes.skip(header + len);
                law_reading_does_all_requests(poller::all_requested(state, requests), rest);
                lemma_requests_in_turn(state, requests, read_requests(rest));
            }
        }
    }
}

/// The bytes of frames, one after the other, and what follows them.
pub open spec fn stream_of(frames: Seq<(StreamOpCode, Seq<u8>)>, rest: Seq<u8>) -> Seq<u8>
    decreases frames.len(),
{
    if frames.len() == 0 {
        rest
    } else {
        framing::stream_frame(frames[0].0, frames[0].1) + stream_of(frames.drop_first(), rest)
    }
}

/// What frames ask for, in order.
pub open spec fn requests_in(frames: Seq<(StreamOpCode, Seq<u8>)>) -> Seq<ChannelRequest>
    decreases frames.len(),
{
    if frames.len() == 0 {
        Seq::empty()
    } else {
        poller::frame_requests(frames[0].0.code(), frames[0].1) + requests_in(frames.drop_first())
    }
}

/// Of frames that are sent one after the other, each within the limit, every one is read, in order,
/// and then what follows them.
pub proof fn law_sent_frames_are_read(frames: Seq<(StreamOpCode, Seq<u8>)>, rest: Seq<u8>)
    requires
        forall|i: int|
            0 <= i < frames.len() ==> (#[trigger] frames[i]).1.len() <= framing::MAX_MESSAGE_SIZE,
    ensures
        read_requests(stream_of(frames, rest)) == requests_in(frames) + read_requests(rest),
    decreases frames.len(),
{
    if frames.len() == 0 {
        assert(Seq::<ChannelRequest>::empty() + read_requests(rest) =~= read_requests(rest));
    } else {
        let op = frames[0].0;
        let payload = frames[0].1;
        let later = frames.drop_first();
        assert(frames[0].1.len() <= framing::MAX_MESSAGE_SIZE);
        assert forall|i: int| 0 <= i < later.len() implies (#[trigger] later[i]).1.len()
            <= framing::MAX_MESSAGE_SIZE by {
            assert(later[i] == frames[i + 1]);
        }
        law_sent_frames_are_read(later, rest);
        lemma_frame_is_read(op, payload, stream_of(later, rest));
        assert(read_requests(stream_of(frames, rest)) =~= requests_in(frames) + read_requests(
            rest,
        ));
    }
}

proof fn lemma_frame_is_read(op: StreamOpCode, payload: Seq<u8>, rest: Seq<u8>)
    requires
        payload.len() <= framing::MAX_MESSAGE_SIZE,
    ensures
        read_requests(framing::stream_frame(op, payload) + rest) == poller::frame_requests(
            op.code(),
            payload,
        ) + read_requests(rest),
{
    let header = framing::STREAM_FRAME_HEADER_SIZE as int;
    let frame = framing::stream_frame(op, payload);
    let bytes = frame + rest;
    framing::law_stream_header_announces_frame(op, payload);
    assert(bytes.take(header) =~= frame.take(header));
    assert(bytes.subrange(header, header + payload.len()) =~= frame.skip(header));
    assert(bytes.skip(header + payload.len()) =~= rest);
}

/// A frame that is cut short, or announces more than the limit, asks for nothing, and ends the
/// reading.
pub proof fn law_cut_or_long_frame_ends_the_reading(
    op: StreamOpCode,
    payload: Seq<u8>,
    rest: Seq<u8>,
    cut: nat,
)
    requires
        payload.len() <= u32::MAX,
        cut < framing::stream_frame(op, payload).len(),
    ensures
        read_requests(framing::stream_frame(op, payload).take(cut as int)).len() == 0,
        payload.len() > framing::MAX_MESSAGE_SIZE ==> read_requests(
            framing::stream_frame(op, payload) + rest,
        ).len() == 0,
{
    let header = framing::STREAM_FRAME_HEADER_SIZE as int;
    let frame = framing::stream_frame(op, payload);
    framing::law_stream_header_announces_frame(op, payload);
    assert((frame + rest).take(header) =~= frame.take(header));
    if cut >= header {
        assert(frame.take(cut as int).take(header) =~= frame.take(header));
    }
}

} // verus!
