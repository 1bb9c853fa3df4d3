//! Connected clients: what each is subscribed to, and what it is sent.
//!
//! Three queues lead to a client: control messages and message data for its reliable stream, and
//! datagrams.

use vstd::prelude::*;

use std::collections::{HashMap, HashSet};
use std::sync::Arc;

use bimap::BiHashMap;
use bytes::Bytes;
use flume::{Receiver, Sender};
use regex::Regex;
use tokio::sync::oneshot;

use crate::channel::{RawChannel, SinkChannelFilter};
use crate::compression;
use crate::compression::Compressor;
use crate::decimal;
use crate::error::FoxgloveError;
use crate::ext::{buffer, pairs, pattern, queue, signal};
use crate::framing;
use crate::framing::{
    encode_binary_frame, encode_compressed_binary_frame, encode_datagram_frame, encode_json_frame,
    DatagramHeader, StreamOpCode,
};
use crate::send_lossy;
use crate::send_lossy::{SendLossyResult, MAX_SEND_RETRIES};

verus! {

broadcast use vstd::std_specs::hash::group_hash_axioms;

/// Unique client identifier.
#[derive(Debug, Clone, Copy, PartialEq, Eq, Hash, Structural)]
pub struct ClientId(u64);

/// The supply of client identifiers.
pub struct ClientIds {
    next: u64,
}

impl ClientIds {
    /// The number of the next identifier.
    pub closed spec fn next_value(self) -> u64 {
        self.next
    }

    /// A supply that begins with 1.
    pub fn new() -> (ids: Self)
        ensures
            ids.next_value() == 1,
    {
        ClientIds { next: 1 }
    }
}

/// The number that follows `n`; zero follows the last.
pub open spec fn following(n: u64) -> u64 {
    if n == u64::MAX {
        0
    } else {
        (n + 1) as u64
    }
}

impl ClientId {
    /// The identifier's number.
    pub closed spec fn value(self) -> u64 {
        self.0
    }

    /// Takes the next identifier out of the supply.
    pub fn next(ids: &mut ClientIds) -> (id: Self)
        ensures
            id.value() == old(ids).next_value(),
            final(ids).next_value() == following(old(ids).next_value()),
    {
        let id: u64 = ids.next;
        ids.next = id.wrapping_add(1);
        ClientId(id)
    }

    /// The identifier's number in decimal.
    pub fn to_text(&self) -> (text: String)
        ensures
            text@ == decimal::decimal(self.value() as nat),
    {
        let mut text = String::new();
        decimal::push_decimal(&mut text, self.0);
        text
    }
}

/// Identifies a client among the sinks that messages are logged to.
#[derive(Debug, Clone, Copy, PartialEq, Eq, Hash, Structural)]
pub struct SinkId(pub u64);

/// What is known of a message besides its bytes.
#[derive(Debug, Clone, Copy)]
pub struct Metadata {
    /// When the message was logged, in nanoseconds since the epoch.
    pub log_time: u64,
}

/// Largest number of channels in one advertisement.
pub const ADVERTISE_CHANNEL_BATCH_SIZE: usize = 100;

/// Reason the client is being shut down.
#[derive(Debug, Clone, Copy, PartialEq, Eq, Structural)]
pub enum ShutdownReason {
    /// The client went away.
    ClientDisconnected,
    /// The server is stopping.
    ServerStopped,
    /// The client did not keep up with control messages.
    ControlPlaneQueueFull,
}

/// Which channel a client's queue is, and how many frames it was made to hold.
pub struct QueueView {
    /// The channel.
    pub channel: int,
    /// The number of frames.
    pub capacity: nat,
}

/// The queue that a sending end leads to.
pub open spec fn queue_of(tx: Sender<Bytes>) -> QueueView {
    QueueView { channel: queue::sender_channel(tx), capacity: queue::sender_capacity(tx) }
}

/// What stays the same of a client.
#[verifier::ext_equal]
pub struct ClientSettings {
    /// The client's identifier.
    pub id: ClientId,
    /// The sink that the client is.
    pub sink_id: SinkId,
    /// What the client is called in logs.
    pub label: Seq<char>,
    /// The zstd level of the messages that it is sent.
    pub level: int,
    /// The patterns of the topics that go by datagram.
    pub patterns: Seq<Seq<char>>,
    /// The longest datagram.
    pub max_datagram_size: usize,
    /// The queue of its message data.
    pub data_queue: QueueView,
    /// The queue of its control messages.
    pub control_queue: QueueView,
    /// The queue of its datagrams.
    pub datagram_queue: QueueView,
}

/// What a client is, seen from outside.
#[verifier::ext_equal]
pub struct ClientState {
    /// What stays the same of it.
    pub settings: ClientSettings,
    /// The subscription number of each channel that it is subscribed to.
    pub subscriptions: Map<u64, u64>,
    /// The number of the next subscription.
    pub next_subscription_id: u32,
    /// The sequence number of the next datagram of each channel that has had one.
    pub sequences: Map<u64, u32>,
    /// The channels that it has been told of.
    pub channels: Map<u64, Arc<RawChannel>>,
    /// The channels that the filter has excluded.
    pub excluded: Set<u64>,
    /// The sending end of its shutdown signal, until it is shut down.
    pub pending: Option<oneshot::Sender<ShutdownReason>>,
    /// The reason that it was shut down for, once it was.
    pub shutdown: Option<ShutdownReason>,
    /// The frames offered to its data queue, whether the queue took them, and how many times a
    /// frame had been taken out of the queue before.
    pub data_offers: Seq<(Seq<u8>, bool, nat)>,
    /// What was taken out of its data queue to make room.
    pub data_takes: Seq<queue::Take>,
    /// The frames offered to its control queue, and whether the queue took them.
    pub control_offers: Seq<(Seq<u8>, bool, nat)>,
    /// The datagrams offered to its datagram queue, whether the queue took them, and how many times
    /// a datagram had been taken out of the queue before.
    pub datagram_offers: Seq<(Seq<u8>, bool, nat)>,
    /// What was taken out of its datagram queue through the end that it holds.
    pub datagram_takes: Seq<queue::Take>,
}

/// A connected WebTransport client session.
pub struct ConnectedClient<F: SinkChannelFilter> {
    id: ClientId,
    label: String,
    sink_id: SinkId,
    channel_filter: Option<Arc<F>>,
    channels: HashMap<u64, Arc<RawChannel>>,
    excluded: HashSet<u64>,
    data_plane_tx: Sender<Bytes>,
    data_plane_rx: Receiver<Bytes>,
    control_plane_tx: Sender<Bytes>,
    datagram_tx: Sender<Bytes>,
    datagram_rx: Receiver<Bytes>,
    subscriptions: BiHashMap<u64, u64>,
    next_subscription_id: u32,
    datagram_sequences: HashMap<u64, u32>,
    compressor: Compressor,
    datagram_patterns: Vec<Regex>,
    max_datagram_size: usize,
    shutdown_tx: Option<oneshot::Sender<ShutdownReason>>,
    shutdown_reason: Ghost<Option<ShutdownReason>>,
}

/// A client that is subscribed to nothing, has been told of nothing and has been offered nothing.
pub open spec fn fresh_client(
    settings: ClientSettings,
    shutdown_tx: oneshot::Sender<ShutdownReason>,
) -> ClientState {
    ClientState {
        settings,
        subscriptions: Map::empty(),
        next_subscription_id: 1,
        sequences: Map::empty(),
        channels: Map::empty(),
        excluded: Set::empty(),
        pending: Some(shutdown_tx),
        shutdown: None,
        data_offers: Seq::empty(),
        data_takes: Seq::empty(),
        control_offers: Seq::empty(),
        datagram_offers: Seq::empty(),
        datagram_takes: Seq::empty(),
    }
}

/// The texts of compiled patterns.
pub open spec fn pattern_texts(patterns: Seq<Regex>) -> Seq<Seq<char>> {
    patterns.map_values(|p: Regex| pattern::pattern_text(p))
}

/// Whether no two channels have the same subscription number.
pub open spec fn one_to_one(subscriptions: Map<u64, u64>) -> bool {
    forall|a: u64, b: u64|
        #![trigger subscriptions[a], subscriptions[b]]
        subscriptions.contains_key(a) && subscriptions.contains_key(b) && subscriptions[a]
            == subscriptions[b] ==> a == b
}

/// Whether no channel that the filter has excluded is subscribed to.
pub open spec fn none_excluded(subscriptions: Map<u64, u64>, excluded: Set<u64>) -> bool {
    forall|channel_id: u64| #[trigger]
        subscriptions.contains_key(channel_id) ==> !excluded.contains(channel_id)
}

/// Whether a topic goes by datagram: one of the patterns matches somewhere in it.
pub open spec fn datagram_topic(patterns: Seq<Seq<char>>, topic: Seq<char>) -> bool {
    exists|i: int|
        0 <= i < patterns.len() && pattern::pattern_matches(#[trigger] patterns[i], topic)
}

/// The sequence number of a channel's next datagram.
pub open spec fn next_sequence(sequences: Map<u64, u32>, channel_id: u64) -> u32 {
    if sequences.contains_key(channel_id) {
        sequences[channel_id]
    } else {
        0
    }
}

/// The number that follows `n`; zero follows the last.
pub open spec fn following_u32(n: u32) -> u32 {
    if n == u32::MAX {
        0
    } else {
        (n + 1) as u32
    }
}

/// The client after a datagram sequence number has been used up.
pub open spec fn sequence_used(state: ClientState, channel_id: u64) -> ClientState {
    ClientState {
        sequences: state.sequences.insert(
            channel_id,
            following_u32(next_sequence(state.sequences, channel_id)),
        ),
        ..state
    }
}

/// The client after a shutdown: the reason of the first one stays.
pub open spec fn shut_down(state: ClientState, reason: ShutdownReason) -> ClientState {
    if state.pending is Some {
        ClientState { pending: None, shutdown: Some(reason), ..state }
    } else {
        state
    }
}

/// Whether a client that was shut down between `before` and `after` has sent the reason through its
/// shutdown signal: what went through is that reason, unless the receiving end was gone.
pub open spec fn signalled(before: ClientState, after: ClientState) -> bool {
    match (before.pending, after.pending) {
        (Some(tx), None) => match after.shutdown {
            Some(reason) => signal::sent_if_any(tx, reason),
            None => false,
        },
        _ => true,
    }
}

/// Whether a client can subscribe to a channel: the filter has not excluded it.
pub open spec fn admitted(state: ClientState, channel_id: u64) -> bool {
    !state.excluded.contains(channel_id)
}

/// Whether a subscribe request gives a client a new subscription.
pub open spec fn subscribes(state: ClientState, channel_id: u64) -> bool {
    !state.subscriptions.contains_key(channel_id) && admitted(state, channel_id)
}

/// The client after a subscribe request: a channel that it can subscribe to and is not subscribed
/// to gets the next subscription number, and the channel that had that number loses it.
pub open spec fn subscribed(state: ClientState, channel_id: u64) -> ClientState {
    if subscribes(state, channel_id) {
        ClientState {
            subscriptions: pairs::with_pair(
                state.subscriptions,
                channel_id,
                state.next_subscription_id as u64,
            ),
            next_subscription_id: following_u32(state.next_subscription_id),
            ..state
        }
    } else {
        state
    }
}

/// The client after an unsubscribe request.
pub open spec fn unsubscribed(state: ClientState, channel_id: u64) -> ClientState {
    ClientState { subscriptions: state.subscriptions.remove(channel_id), ..state }
}

/// What a message becomes on its way to a client.
pub enum DeliveryView {
    /// A datagram.
    Datagram(Seq<u8>),
    /// A frame of the reliable stream.
    Stream(Seq<u8>),
}

/// A message on its way to a client.
pub enum Delivery {
    /// A datagram, delivered or lost.
    Datagram(Bytes),
    /// A frame of the reliable stream.
    Stream(Bytes),
}

impl View for Delivery {
    type V = DeliveryView;

    open spec fn view(&self) -> DeliveryView {
        match *self {
            Delivery::Datagram(frame) => DeliveryView::Datagram(buffer::frame_bytes(frame)),
            Delivery::Stream(frame) => DeliveryView::Stream(buffer::frame_bytes(frame)),
        }
    }
}

/// The header of the next datagram of a channel.
pub open spec fn next_header(state: ClientState, channel_id: u64) -> DatagramHeader {
    DatagramHeader {
        channel_id,
        sequence: next_sequence(state.sequences, channel_id),
        flags: 0,
    }
}

/// How a message of a channel goes to a client: by datagram, where the topic is one for datagrams
/// and the compressed message is short enough; else in the stream, compressed where compression
/// made it shorter.
pub open spec fn delivery(
    state: ClientState,
    channel: RawChannel,
    message: Seq<u8>,
    compressed: Option<Seq<u8>>,
) -> DeliveryView {
    match compressed {
        None => DeliveryView::Stream(framing::stream_frame(StreamOpCode::Binary, message)),
        Some(payload) => if datagram_topic(state.settings.patterns, channel.spec_topic())
            && framing::fits_datagram(payload.len(), state.settings.max_datagram_size) {
            DeliveryView::Datagram(
                framing::datagram_frame(next_header(state, channel.spec_id()), payload),
            )
        } else {
            DeliveryView::Stream(
                framing::stream_frame(StreamOpCode::CompressedBinary, payload),
            )
        },
    }
}

/// The client after it has been chosen how a message goes to it: a compressed message of a topic
/// for datagrams uses up a sequence number, even where it then turns out too long.
pub open spec fn after_choice(
    state: ClientState,
    channel: RawChannel,
    compressed: Option<Seq<u8>>,
) -> ClientState {
    if compressed is Some && datagram_topic(state.settings.patterns, channel.spec_topic()) {
        sequence_used(state, channel.spec_id())
    } else {
        state
    }
}

/// Whether `after` is the client `before` once `sent` has been sent lossily to its queue, with that
/// result.
pub open spec fn handed_over(
    before: ClientState,
    sent: DeliveryView,
    after: ClientState,
    result: SendLossyResult,
) -> bool {
    match sent {
        DeliveryView::Datagram(datagram) => {
            &&& send_lossy::lossy_sent(
                datagram,
                MAX_SEND_RETRIES as nat,
                before.datagram_offers,
                before.datagram_takes,
                after.datagram_offers,
                after.datagram_takes,
                result,
            )
            &&& after == ClientState {
                datagram_offers: after.datagram_offers,
                datagram_takes: after.datagram_takes,
                ..before
            }
        },
        DeliveryView::Stream(frame) => {
            &&& send_lossy::lossy_sent(
                frame,
                MAX_SEND_RETRIES as nat,
                before.data_offers,
                before.data_takes,
                after.data_offers,
                after.data_takes,
                result,
            )
            &&& after == ClientState {
                data_offers: after.data_offers,
                data_takes: after.data_takes,
                ..before
            }
        },
    }
}

/// Whether `after` is the client `before` once it has been sent a message of a channel that it is
/// subscribed to, with that result of the lossy send.
pub open spec fn message_sent(
    before: ClientState,
    channel: RawChannel,
    message: Seq<u8>,
    after: ClientState,
    result: SendLossyResult,
) -> bool {
    exists|compressed: Option<Seq<u8>>|
        {
            &&& #[trigger] compression::compress_outcome(
                before.settings.level,
                message,
                compressed,
            )
            &&& handed_over(
                after_choice(before, channel, compressed),
                delivery(before, channel, message, compressed),
                after,
                result,
            )
        }
}

/// Whether `after` is the client `before` once a message has been logged: it has been sent what
/// `encode` makes of the message where it is subscribed to the channel, and is as it was where it
/// is not.
pub open spec fn logged<E: Fn(u64, u64, &[u8]) -> Vec<u8>>(
    encode: E,
    before: ClientState,
    channel: RawChannel,
    msg: &[u8],
    metadata: Metadata,
    after: ClientState,
    result: Option<SendLossyResult>,
) -> bool {
    if before.subscriptions.contains_key(channel.spec_id()) {
        exists|encoded: Vec<u8>|
            {
                &&& #[trigger] call_ensures(
                    encode,
                    (channel.spec_id(), metadata.log_time, msg),
                    encoded,
                )
                &&& result matches Some(r) && message_sent(before, channel, encoded@, after, r)
            }
    } else {
        after == before && result is None
    }
}

/// Whether `after` is the client `before` once `frames` have been offered to its control queue, in
/// order: where the queue did not take one of them, the client has been shut down.
pub open spec fn controls_sent(
    before: ClientState,
    frames: Seq<Seq<u8>>,
    after: ClientState,
) -> bool {
    let offers = send_lossy::appended(before.control_offers, after.control_offers);
    &&& after.control_offers == before.control_offers + offers
    &&& offers.len() == frames.len()
    &&& forall|i: int|
        0 <= i < frames.len() ==> (#[trigger] offers[i]).0 == frames[i] && offers[i].2 == 0
    &&& after == ClientState {
        control_offers: after.control_offers,
        ..if all_taken(offers) {
            before
        } else {
            shut_down(before, ShutdownReason::ControlPlaneQueueFull)
        }
    }
    &&& signalled(before, after)
}

/// Whether each of the offers was taken.
pub open spec fn all_taken(offers: Seq<(Seq<u8>, bool, nat)>) -> bool {
    forall|i: int| 0 <= i < offers.len() ==> (#[trigger] offers[i]).1
}

/// The channels that a client has been told of after it has been told of those too.
pub open spec fn cached(
    channels: Map<u64, Arc<RawChannel>>,
    added: Seq<Arc<RawChannel>>,
) -> Map<u64, Arc<RawChannel>>
    decreases added.len(),
{
    if added.len() == 0 {
        channels
    } else {
        cached(channels, added.drop_last()).insert(added.last().spec_id(), added.last())
    }
}

/// The values among the answers, in order.
pub open spec fn given<D>(answers: Seq<Option<D>>) -> Seq<D>
    decreases answers.len(),
{
    if answers.len() == 0 {
        Seq::empty()
    } else {
        match answers.last() {
            Some(value) => given(answers.drop_last()).push(value),
            None => given(answers.drop_last()),
        }
    }
}

/// Whether `describe` may have answered so for the channels, one answer each.
pub open spec fn described<D, A: Fn(&RawChannel) -> Option<D>>(
    describe: A,
    channels: Seq<Arc<RawChannel>>,
    answers: Seq<Option<D>>,
) -> bool {
    &&& answers.len() == channels.len()
    &&& forall|i: int|
        0 <= i < channels.len() ==> call_ensures(
            describe,
            (&*#[trigger] channels[i],),
            answers[i],
        )
}

/// Whether `frames` are what advertises the channels: one frame with the text that `render` makes
/// of the descriptions of those that can be described; none where there is no such channel.
pub open spec fn advertisement<D, A: Fn(&RawChannel) -> Option<D>, R: Fn(&Vec<D>) -> String>(
    describe: A,
    render: R,
    channels: Seq<Arc<RawChannel>>,
    frames: Seq<Seq<u8>>,
) -> bool {
    exists|answers: Seq<Option<D>>|
        {
            &&& #[trigger] described(describe, channels, answers)
            &&& if given(answers).len() == 0 {
                frames.len() == 0
            } else {
                exists|list: Vec<D>, text: String|
                    {
                        &&& list@ == given(answers)
                        &&& #[trigger] call_ensures(render, (&list,), text)
                        &&& frames == seq![
                            framing::stream_frame(
                                StreamOpCode::Text,
                                vstd::utf8::encode_utf8(text@),
                            ),
                        ]
                    }
            }
        }
}

/// Whether the two functions can be asked about anything, and every text that `render` makes fits
/// in a frame.
pub open spec fn renders<D, A: Fn(&RawChannel) -> Option<D>, R: Fn(&Vec<D>) -> String>(
    describe: A,
    render: R,
) -> bool {
    &&& forall|channel: &RawChannel| call_requires(describe, (channel,))
    &&& forall|list: &Vec<D>| call_requires(render, (list,))
    &&& forall|list: &Vec<D>, text: String| #[trigger]
        call_ensures(render, (list,), text) ==> framing::fits_stream_frame(
            vstd::utf8::encode_utf8(text@).len(),
        )
}

/// The items that the answers let through, in order.
pub open spec fn selected<T>(items: Seq<T>, answers: Seq<bool>) -> Seq<T>
    decreases items.len(),
{
    if items.len() == 0 {
        Seq::empty()
    } else if answers[items.len() - 1] {
        selected(items.drop_last(), answers).push(items.last())
    } else {
        selected(items.drop_last(), answers)
    }
}

/// Whether the filter may have answered so for the channels, one answer each; where there is no
/// filter, every channel passes.
pub open spec fn filtered<F: SinkChannelFilter>(
    filter: Option<Arc<F>>,
    channels: Seq<Arc<RawChannel>>,
    answers: Seq<bool>,
) -> bool {
    &&& answers.len() == channels.len()
    &&& forall|i: int|
        #![trigger answers[i]]
        0 <= i < answers.len() ==> match filter {
            Some(f) => f.may_answer(channels[i].spec_descriptor(), answers[i]),
            None => answers[i],
        }
}

/// The number of batches that so many channels are advertised in.
pub open spec fn batch_count(channels: nat) -> nat {
    ((channels + ADVERTISE_CHANNEL_BATCH_SIZE - 1) / ADVERTISE_CHANNEL_BATCH_SIZE as int) as nat
}

/// The smaller of the two.
pub open spec fn at_most(n: int, limit: nat) -> int {
    if n < limit {
        n
    } else {
        limit as int
    }
}

/// The batch of that number: full, but for the last.
pub open spec fn batch<T>(items: Seq<T>, number: int) -> Seq<T> {
    items.subrange(
        at_most(number * ADVERTISE_CHANNEL_BATCH_SIZE, items.len()),
        at_most((number + 1) * ADVERTISE_CHANNEL_BATCH_SIZE, items.len()),
    )
}

/// All the parts, one after the other.
pub open spec fn joined<T>(parts: Seq<Seq<T>>) -> Seq<T>
    decreases parts.len(),
{
    if parts.len() == 0 {
        Seq::empty()
    } else {
        joined(parts.drop_last()) + parts.last()
    }
}

/// Whether `frames` are what advertises the channels batch by batch.
pub open spec fn advertisements<D, A: Fn(&RawChannel) -> Option<D>, R: Fn(&Vec<D>) -> String>(
    describe: A,
    render: R,
    channels: Seq<Arc<RawChannel>>,
    frames: Seq<Seq<Seq<u8>>>,
) -> bool {
    &&& frames.len() == batch_count(channels.len())
    &&& forall|i: int|
        0 <= i < frames.len() ==> advertisement(
            describe,
            render,
            batch(channels, i),
            #[trigger] frames[i],
        )
}

/// The client once the filter has answered for channels, in order: a channel that it rejects is
/// excluded, and the client is no longer subscribed to it; one that it accepts is not excluded.
pub open spec fn after_filter(
    state: ClientState,
    channels: Seq<Arc<RawChannel>>,
    answers: Seq<bool>,
) -> ClientState
    decreases channels.len(),
{
    if channels.len() == 0 {
        state
    } else {
        let earlier = after_filter(state, channels.drop_last(), answers);
        let channel_id = channels.last().spec_id();
        if answers[channels.len() - 1] {
            ClientState { excluded: earlier.excluded.remove(channel_id), ..earlier }
        } else {
            ClientState {
                excluded: earlier.excluded.insert(channel_id),
                ..unsubscribed(earlier, channel_id)
            }
        }
    }
}

/// Whether `after` is the client `before` once the channels have been added: those that the filter
/// rejects are excluded, and those that pass it have been advertised to the client.
pub open spec fn channels_added<
    F: SinkChannelFilter,
    D,
    A: Fn(&RawChannel) -> Option<D>,
    R: Fn(&Vec<D>) -> String,
>(
    filter: Option<Arc<F>>,
    describe: A,
    render: R,
    before: ClientState,
    channels: Seq<Arc<RawChannel>>,
    after: ClientState,
) -> bool {
    exists|answers: Seq<bool>, frames: Seq<Seq<Seq<u8>>>|
        {
            &&& #[trigger] filtered(filter, channels, answers)
            &&& #[trigger] advertisements(describe, render, selected(channels, answers), frames)
            &&& controls_sent(
                ClientState {
                    channels: cached(before.channels, selected(channels, answers)),
                    ..after_filter(before, channels, answers)
                },
                joined(frames),
                after,
            )
        }
}

/// Whether `render` can be asked about the channel, and every text that it makes fits in a frame.
pub open spec fn renders_removal<U: Fn(u64) -> String>(render: U, channel_id: u64) -> bool {
    &&& call_requires(render, (channel_id,))
    &&& forall|text: String| #[trigger]
        call_ensures(render, (channel_id,), text) ==> framing::fits_stream_frame(
            vstd::utf8::encode_utf8(text@).len(),
        )
}

/// Whether `after` is the client `before` once it has been told, in the text that `render` makes of
/// it, that a channel is gone.
pub open spec fn channel_unadvertised<U: Fn(u64) -> String>(
    render: U,
    before: ClientState,
    channel_id: u64,
    after: ClientState,
) -> bool {
    exists|text: String|
        {
            &&& #[trigger] call_ensures(render, (channel_id,), text)
            &&& controls_sent(
                ClientState { channels: before.channels.remove(channel_id), ..before },
                seq![framing::stream_frame(StreamOpCode::Text, vstd::utf8::encode_utf8(text@))],
                after,
            )
        }
}

/// What is let through depends on no later answers.
pub proof fn lemma_selected_ignores_later<T>(items: Seq<T>, answers: Seq<bool>, more: Seq<bool>)
    requires
        items.len() <= answers.len(),
        answers.len() <= more.len(),
        forall|i: int| 0 <= i < items.len() ==> answers[i] == #[trigger] more[i],
    ensures
        selected(items, answers) == selected(items, more),
    decreases items.len(),
{
    if items.len() > 0 {
        lemma_selected_ignores_later(items.drop_last(), answers, more);
    }
}

/// The filter's answers change nothing of what a client has been told of.
proof fn lemma_filter_keeps_channels(
    state: ClientState,
    channels: Seq<Arc<RawChannel>>,
    answers: Seq<bool>,
)
    ensures
        after_filter(state, channels, answers).channels == state.channels,
    decreases channels.len(),
{
    if channels.len() > 0 {
        lemma_filter_keeps_channels(state, channels.drop_last(), answers);
    }
}

/// What the filter does depends on no later answers.
proof fn lemma_filter_ignores_later(
    state: ClientState,
    channels: Seq<Arc<RawChannel>>,
    answers: Seq<bool>,
    more: Seq<bool>,
)
    requires
        channels.len() <= answers.len(),
        answers.len() <= more.len(),
        forall|i: int| 0 <= i < channels.len() ==> answers[i] == #[trigger] more[i],
    ensures
        after_filter(state, channels, answers) == after_filter(state, channels, more),
    decreases channels.len(),
{
    if channels.len() > 0 {
        lemma_filter_ignores_later(state, channels.drop_last(), answers, more);
    }
}

proof fn lemma_cached_in_turn(
    channels: Map<u64, Arc<RawChannel>>,
    first: Seq<Arc<RawChannel>>,
    second: Seq<Arc<RawChannel>>,
)
    ensures
        cached(cached(channels, first), second) == cached(channels, first + second),
    decreases second.len(),
{
    if second.len() == 0 {
        assert(first + second =~= first);
    } else {
        lemma_cached_in_turn(channels, first, second.drop_last());
        assert((first + second).drop_last() =~= first + second.drop_last());
    }
}

proof fn lemma_controls_in_turn(
    before: ClientState,
    first: Seq<Seq<u8>>,
    middle: ClientState,
    channels: Map<u64, Arc<RawChannel>>,
    second: Seq<Seq<u8>>,
    after: ClientState,
)
    requires
        controls_sent(before, first, middle),
        controls_sent(ClientState { channels, ..middle }, second, after),
    ensures
        controls_sent(ClientState { channels, ..before }, first + second, after),
{
    let a = send_lossy::appended(before.control_offers, middle.control_offers);
    let b = send_lossy::appended(middle.control_offers, after.control_offers);
    let c = send_lossy::appended(before.control_offers, after.control_offers);
    assert(c =~= a + b);
    assert(after.control_offers =~= before.control_offers + c);
    assert forall|i: int| 0 <= i < (first + second).len() implies (#[trigger] c[i]).0 == (first
        + second)[i] && c[i].2 == 0 by {
        if i < first.len() {
            assert(c[i] == a[i]);
        } else {
            assert(c[i] == b[i - first.len()]);
        }
    }
    if all_taken(a) && all_taken(b) {
        assert(all_taken(c));
    } else if !all_taken(a) {
        let i = choose|i: int| 0 <= i < a.len() && !(#[trigger] a[i]).1;
        assert(!c[i].1);
    } else {
        let i = choose|i: int| 0 <= i < b.len() && !(#[trigger] b[i]).1;
        assert(!c[a.len() + i].1);
    }
}

impl<F: SinkChannelFilter> View for ConnectedClient<F> {
    type V = ClientState;

    closed spec fn view(&self) -> ClientState {
        ClientState {
            settings: ClientSettings {
                id: self.id,
                sink_id: self.sink_id,
                label: self.label@,
                level: self.compressor.level(),
                patterns: pattern_texts(self.datagram_patterns@),
                max_datagram_size: self.max_datagram_size,
                data_queue: queue_of(self.data_plane_tx),
                control_queue: queue_of(self.control_plane_tx),
                datagram_queue: queue_of(self.datagram_tx),
            },
            subscriptions: pairs::pairs(self.subscriptions),
            next_subscription_id: self.next_subscription_id,
            sequences: self.datagram_sequences@,
            channels: self.channels@,
            excluded: self.excluded@,
            pending: self.shutdown_tx,
            shutdown: self.shutdown_reason@,
            data_offers: queue::sender_offers(self.data_plane_tx),
            data_takes: queue::receiver_takes(self.data_plane_rx),
            control_offers: queue::sender_offers(self.control_plane_tx),
            datagram_offers: queue::sender_offers(self.datagram_tx),
            datagram_takes: queue::receiver_takes(self.datagram_rx),
        }
    }
}

impl<F: SinkChannelFilter> ConnectedClient<F> {
    /// What holds of every client: the two ends that it holds of a queue belong together, and can
    /// be used; no two channels have the same subscription number; it is subscribed to no channel
    /// that the filter has excluded; and it can still be shut down unless it has been.
    pub closed spec fn wf(&self) -> bool {
        &&& queue::sender_channel(self.data_plane_tx) == queue::receiver_channel(
            self.data_plane_rx,
        )
        &&& queue::sender_channel(self.datagram_tx) == queue::receiver_channel(self.datagram_rx)
        &&& queue::receiver_capacity(self.data_plane_rx) < usize::MAX
        &&& queue::receiver_capacity(self.datagram_rx) < usize::MAX
        &&& one_to_one(pairs::pairs(self.subscriptions))
        &&& none_excluded(pairs::pairs(self.subscriptions), self.excluded@)
        &&& self.shutdown_tx is Some <==> self.shutdown_reason@ is None
    }

    /// What `wf` says of what is seen of a client from outside.
    pub proof fn law_client_invariant(&self)
        requires
            self.wf(),
        ensures
            one_to_one(self@.subscriptions),
            none_excluded(self@.subscriptions, self@.excluded),
            self@.pending is Some <==> self@.shutdown is None,
    {
    }

    /// The filter that chooses the channels that the client gets to see, if there is one.
    pub closed spec fn filter(&self) -> Option<Arc<F>> {
        self.channel_filter
    }

    /// A client that is subscribed to nothing and has been told of nothing, with its ends of the
    /// queues that lead to it.
    pub fn new(
        id: ClientId,
        sink_id: SinkId,
        label: String,
        channel_filter: Option<Arc<F>>,
        compressor: Compressor,
        datagram_patterns: Vec<Regex>,
        max_datagram_size: usize,
        data_plane_tx: Sender<Bytes>,
        data_plane_rx: Receiver<Bytes>,
        control_plane_tx: Sender<Bytes>,
        datagram_tx: Sender<Bytes>,
        datagram_rx: Receiver<Bytes>,
        shutdown_tx: oneshot::Sender<ShutdownReason>,
    ) -> (client: Self)
        requires
            queue::sender_channel(data_plane_tx) == queue::receiver_channel(data_plane_rx),
            queue::sender_channel(datagram_tx) == queue::receiver_channel(datagram_rx),
            queue::receiver_capacity(data_plane_rx) < usize::MAX,
            queue::receiver_capacity(datagram_rx) < usize::MAX,
        ensures
            client@ == (ClientState {
                data_offers: queue::sender_offers(data_plane_tx),
                data_takes: queue::receiver_takes(data_plane_rx),
                control_offers: queue::sender_offers(control_plane_tx),
                datagram_offers: queue::sender_offers(datagram_tx),
                datagram_takes: queue::receiver_takes(datagram_rx),
                ..fresh_client(
                    (ClientSettings {
                        id,
                        sink_id,
                        label: label@,
                        level: compressor.level(),
                        patterns: pattern_texts(datagram_patterns@),
                        max_datagram_size,
                        data_queue: queue_of(data_plane_tx),
                        control_queue: queue_of(control_plane_tx),
                        datagram_queue: queue_of(datagram_tx),
                    }),
                    shutdown_tx,
                )
            }),
            client.filter() == channel_filter,
            client.wf(),
    {
        let client = ConnectedClient {
            id,
            label,
            sink_id,
            channel_filter,
            channels: HashMap::new(),
            excluded: HashSet::new(),
            data_plane_tx,
            data_plane_rx,
            control_plane_tx,
            datagram_tx,
            datagram_rx,
            subscriptions: pairs::new_table(),
            next_subscription_id: 1,
            datagram_sequences: HashMap::new(),
            compressor,
            datagram_patterns,
            max_datagram_size,
            shutdown_tx: Some(shutdown_tx),
            shutdown_reason: Ghost(None),
        };
        assert(client@.subscriptions =~= Map::empty());
        client
    }

    /// Whether one of the datagram patterns matches the channel's topic.
    pub fn is_datagram_channel(&self, channel: &RawChannel) -> (matched: bool)
        ensures
            matched == datagram_topic(self@.settings.patterns, channel.spec_topic()),
    {
        let topic = channel.topic();
        let ghost patterns = self@.settings.patterns;
        for i in 0..self.datagram_patterns.len()
            invariant
                patterns == self@.settings.patterns,
                patterns.len() == self.datagram_patterns@.len(),
                topic@ == channel.spec_topic(),
                forall|j: int|
                    0 <= j < i ==> !pattern::pattern_matches(#[trigger] patterns[j], topic@),
        {
            assert(patterns[i as int] == pattern::pattern_text(self.datagram_patterns@[i as int]));
            if pattern::is_match(&self.datagram_patterns[i], topic) {
                return true;
            }
        }
        false
    }

    /// Get the next datagram sequence number for a channel.
    pub fn next_datagram_seq(&mut self, channel_id: u64) -> (sequence: u32)
        requires
            old(self).wf(),
        ensures
            sequence == next_sequence(old(self)@.sequences, channel_id),
            final(self)@ == sequence_used(old(self)@, channel_id),
            final(self).wf(),
            final(self).filter() == old(self).filter(),
    {
        let sequence: u32 = match self.datagram_sequences.get(&channel_id) {
            Some(counter) => *counter,
            None => 0,
        };
        self.datagram_sequences.insert(channel_id, sequence.wrapping_add(1));
        sequence
    }

    /// Shutdown the client with a reason.
    pub fn shutdown(&mut self, reason: ShutdownReason)
        requires
            old(self).wf(),
        ensures
            final(self)@ == shut_down(old(self)@, reason),
            signalled(old(self)@, final(self)@),
            final(self).wf(),
            final(self).filter() == old(self).filter(),
    {
        if let Some(tx) = self.shutdown_tx.take() {
            let _ = signal::send_reason(tx, reason);
            proof {
                self.shutdown_reason@ = Some(reason);
            }
        }
    }

    /// Handle a subscribe request from the client. The result is whether the context is to be asked
    /// to subscribe this sink to the channel. A channel that the filter has excluded stays so.
    pub fn on_subscribe(&mut self, channel_id: u64) -> (ask_context: bool)
        requires
            old(self).wf(),
        ensures
            ask_context == subscribes(old(self)@, channel_id),
            final(self)@ == subscribed(old(self)@, channel_id),
            final(self).wf(),
            final(self).filter() == old(self).filter(),
    {
        if pairs::contains_left(&self.subscriptions, channel_id) {
            return false;
        }
        if self.excluded.contains(&channel_id) {
            return false;
        }
        let sub_id: u32 = self.next_subscription_id;
        self.next_subscription_id = sub_id.wrapping_add(1);
        pairs::insert(&mut self.subscriptions, channel_id, sub_id as u64);
        true
    }

    /// Handle an unsubscribe request from the client. The context is then to be asked to
    /// unsubscribe this sink from the channel.
    pub fn on_unsubscribe(&mut self, channel_id: u64)
        requires
            old(self).wf(),
        ensures
            final(self)@ == unsubscribed(old(self)@, channel_id),
            final(self).wf(),
            final(self).filter() == old(self).filter(),
    {
        pairs::remove_by_left(&mut self.subscriptions, channel_id);
    }

    /// Chooses how a message of a channel goes to the client, given what compression made of it.
    pub fn choose_delivery(
        &mut self,
        channel: &RawChannel,
        message: &[u8],
        compressed: Option<Vec<u8>>,
    ) -> (chosen: Delivery)
        requires
            old(self).wf(),
            framing::fits_stream_frame(message@.len()),
            compressed matches Some(c) ==> framing::DATAGRAM_HEADER_SIZE + c@.len() <= isize::MAX,
        ensures
            chosen@ == delivery(
                old(self)@,
                *channel,
                message@,
                compression::viewed(compressed),
            ),
            final(self)@ == after_choice(old(self)@, *channel, compression::viewed(compressed)),
            final(self).wf(),
            final(self).filter() == old(self).filter(),
    {
        match compressed {
            Some(payload) => {
                if self.is_datagram_channel(channel) {
                    let sequence: u32 = self.next_datagram_seq(channel.id());
                    if let Some(datagram) = encode_datagram_frame(
                        channel.id(),
                        sequence,
                        payload.as_slice(),
                        self.max_datagram_size,
                    ) {
                        return Delivery::Datagram(datagram);
                    }
                    // Too long for a datagram even so: it goes in the stream.
                }
                Delivery::Stream(encode_compressed_binary_frame(payload.as_slice()))
            },
            None => Delivery::Stream(encode_binary_frame(message)),
        }
    }

    /// Hands a message to the queue that it belongs in. The result is that of the lossy send.
    pub fn hand_over(&mut self, sent: Delivery) -> (result: SendLossyResult)
        requires
            old(self).wf(),
        ensures
            handed_over(old(self)@, sent@, final(self)@, result),
            final(self).wf(),
            final(self).filter() == old(self).filter(),
    {
        match sent {
            Delivery::Datagram(datagram) => send_lossy::send_lossy(
                &mut self.datagram_tx,
                &mut self.datagram_rx,
                datagram,
                MAX_SEND_RETRIES,
            ),
            Delivery::Stream(frame) => send_lossy::send_lossy(
                &mut self.data_plane_tx,
                &mut self.data_plane_rx,
                frame,
                MAX_SEND_RETRIES,
            ),
        }
    }

    /// Sends an encoded message of a channel to the client. The result is that of the lossy send.
    fn send_message(&mut self, channel: &RawChannel, message: &[u8]) -> (result: SendLossyResult)
        requires
            old(self).wf(),
            compression::compressible(message@.len()),
        ensures
            message_sent(old(self)@, *channel, message@, final(self)@, result),
            final(self).wf(),
            final(self).filter() == old(self).filter(),
    {
        let compressed = self.compressor.compress(message);
        let ghost outcome = compression::viewed(compressed);
        let ghost before = self@;
        let chosen = self.choose_delivery(channel, message, compressed);
        let result = self.hand_over(chosen);
        assert(compression::compress_outcome(before.settings.level, message@, outcome));
        result
    }

    /// Sends a message of a channel to the client, if it is subscribed to the channel. `encode`
    /// makes the binary protocol message out of the channel's identifier, the log time and the
    /// message. The result is that of the lossy send, if there was one.
    pub fn log<E: Fn(u64, u64, &[u8]) -> Vec<u8>>(
        &mut self,
        channel: &RawChannel,
        msg: &[u8],
        metadata: &Metadata,
        encode: &E,
    ) -> (done: Result<Option<SendLossyResult>, FoxgloveError>)
        requires
            old(self).wf(),
            call_requires(*encode, (channel.spec_id(), metadata.log_time, msg)),
            forall|encoded: Vec<u8>| #[trigger]
                call_ensures(*encode, (channel.spec_id(), metadata.log_time, msg), encoded)
                    ==> compression::compressible(encoded@.len()),
        ensures
            done matches Ok(result) && logged(
                *encode,
                old(self)@,
                *channel,
                msg,
                *metadata,
                final(self)@,
                result,
            ),
            final(self).wf(),
            final(self).filter() == old(self).filter(),
    {
        if !pairs::contains_left(&self.subscriptions, channel.id()) {
            return Ok(None);
        }
        let encoded = encode(channel.id(), metadata.log_time, msg);
        let result = self.send_message(channel, encoded.as_slice());
        assert(call_ensures(*encode, (channel.spec_id(), metadata.log_time, msg), encoded));
        Ok(Some(result))
    }

    /// Send a control-plane message (JSON, reliable).
    pub fn send_control(&mut self, frame: Bytes)
        requires
            old(self).wf(),
        ensures
            controls_sent(old(self)@, seq![buffer::frame_bytes(frame)], final(self)@),
            final(self).wf(),
            final(self).filter() == old(self).filter(),
    {
        let ghost before = self@;
        let offer = queue::try_send(&mut self.control_plane_tx, None, frame);
        let ghost offers = seq![(buffer::frame_bytes(frame), offer is Sent, 0nat)];
        assert(self@.control_offers =~= before.control_offers + offers);
        if !matches!(offer, queue::Offer::Sent) {
            self.shutdown(ShutdownReason::ControlPlaneQueueFull);
        }
        proof {
            assert(send_lossy::appended(before.control_offers, self@.control_offers) =~= offers);
            assert(offers[0].1 == (offer is Sent));
        }
    }

    /// Advertise channels to this client. `describe` describes a channel, where it can be
    /// described; `render` makes the JSON text of an advertisement out of descriptions.
    pub fn advertise_channels<D, A: Fn(&RawChannel) -> Option<D>, R: Fn(&Vec<D>) -> String>(
        &mut self,
        channels: &Vec<Arc<RawChannel>>,
        describe: &A,
        render: &R,
    )
        requires
            old(self).wf(),
            renders(*describe, *render),
        ensures
            exists|frames: Seq<Seq<u8>>|
                {
                    &&& #[trigger] advertisement(*describe, *render, channels@, frames)
                    &&& controls_sent(
                        (ClientState {
                            channels: cached(old(self)@.channels, channels@),
                            ..old(self)@
                        }),
                        frames,
                        final(self)@,
                    )
                },
            final(self).wf(),
            final(self).filter() == old(self).filter(),
    {
        let ghost before = self@;
        let ghost mut answers: Seq<Option<D>> = Seq::empty();
        let mut list: Vec<D> = Vec::new();
        assert(channels@.take(0) =~= Seq::empty());
        for i in 0..channels.len()
            invariant
                self.wf(),
                self.filter() == old(self).filter(),
                before == old(self)@,
                renders(*describe, *render),
                self@ == (ClientState {
                    channels: cached(before.channels, channels@.take(i as int)),
                    ..before
                }),
                described(*describe, channels@.take(i as int), answers),
                list@ == given(answers),
        {
            let channel = &channels[i];
            self.channels.insert(channel.id(), Arc::clone(channel));
            let answer = describe(channel);
            proof {
                let done = channels@.take(i as int);
                let next = channels@.take(i + 1);
                let previous = answers;
                answers = answers.push(answer);
                assert(answers.drop_last() =~= previous);
                assert(next.drop_last() =~= done);
                assert forall|j: int| 0 <= j < next.len() implies call_ensures(
                    *describe,
                    (&*#[trigger] next[j],),
                    answers[j],
                ) by {
                    if j < i {
                        assert(next[j] == done[j]);
                    }
                }
            }
            if let Some(description) = answer {
                list.push(description);
            }
        }
        assert(channels@.take(channels@.len() as int) =~= channels@);
        let ghost cached_state = self@;
        if list.len() > 0 {
            let text = render(&list);
            let ghost frames = seq![
                framing::stream_frame(StreamOpCode::Text, vstd::utf8::encode_utf8(text@)),
            ];
            proof {
                assert(list@ == given(answers));
                assert(call_ensures(*render, (&list,), text));
                assert(advertisement(*describe, *render, channels@, frames));
            }
            self.send_control(encode_json_frame(text.as_str()));
            assert(controls_sent(cached_state, frames, self@));
        } else {
            let ghost frames = Seq::<Seq<u8>>::empty();
            proof {
                assert(advertisement(*describe, *render, channels@, frames));
                assert(send_lossy::appended(self@.control_offers, self@.control_offers)
                    =~= Seq::empty());
                assert(controls_sent(cached_state, frames, self@));
            }
        }
    }

    /// Whether the client gets to see a channel.
    fn passes_filter(&self, channel: &RawChannel) -> (answer: bool)
        ensures
            match self.filter() {
                Some(f) => f.may_answer(channel.spec_descriptor(), answer),
                None => answer,
            },
    {
        match &self.channel_filter {
            Some(filter) => filter.should_subscribe(channel.descriptor()),
            None => true,
        }
    }

    /// Adds channels: those that the filter rejects are excluded, and those that pass it are
    /// advertised to the client, in batches. The result is the channels that the client is
    /// subscribed to at once: none, for clients subscribe by themselves.
    pub fn add_channels<D, A: Fn(&RawChannel) -> Option<D>, R: Fn(&Vec<D>) -> String>(
        &mut self,
        channels: &Vec<Arc<RawChannel>>,
        describe: &A,
        render: &R,
    ) -> (subscribed_to: Option<Vec<u64>>)
        requires
            old(self).wf(),
            renders(*describe, *render),
        ensures
            subscribed_to is None,
            channels_added(
                old(self).filter(),
                *describe,
                *render,
                old(self)@,
                channels@,
                final(self)@,
            ),
            final(self).wf(),
            final(self).filter() == old(self).filter(),
    {
        let ghost mut answers: Seq<bool> = Seq::empty();
        let mut kept: Vec<Arc<RawChannel>> = Vec::new();
        assert(channels@.take(0) =~= Seq::empty());
        for i in 0..channels.len()
            invariant
                self.wf(),
                self.filter() == old(self).filter(),
                self@ == after_filter(old(self)@, channels@.take(i as int), answers),
                filtered(self.filter(), channels@.take(i as int), answers),
                kept@ == selected(channels@.take(i as int), answers),
        {
            let answer = self.passes_filter(&channels[i]);
            proof {
                let done = channels@.take(i as int);
                let next = channels@.take(i + 1);
                let previous = answers;
                answers = answers.push(answer);
                assert(next.drop_last() =~= done);
                lemma_selected_ignores_later(done, previous, answers);
                lemma_filter_ignores_later(old(self)@, done, previous, answers);
                assert forall|j: int|
                    #![trigger answers[j]]
                    0 <= j < answers.len() implies match self.filter() {
                    Some(f) => f.may_answer(next[j].spec_descriptor(), answers[j]),
                    None => answers[j],
                } by {
                    if j < i {
                        assert(answers[j] == previous[j]);
                        assert(next[j] == done[j]);
                    }
                }
            }
            if answer {
                self.excluded.remove(&channels[i].id());
                kept.push(Arc::clone(&channels[i]));
            } else {
                self.excluded.insert(channels[i].id());
                pairs::remove_by_left(&mut self.subscriptions, channels[i].id());
            }
        }
        assert(channels@.take(channels@.len() as int) =~= channels@);

        let ghost before = self@;
        let ghost mut frames: Seq<Seq<Seq<u8>>> = Seq::empty();
        let mut start: usize = 0;
        proof {
            assert(kept@.take(0) =~= Seq::empty());
            assert(send_lossy::appended(before.control_offers, before.control_offers)
                =~= Seq::empty());
            assert(before =~= ClientState {
                channels: cached(before.channels, kept@.take(0)),
                ..before
            });
            lemma_filter_keeps_channels(old(self)@, channels@, answers);
        }
        while start < kept.len()
            invariant
                self.wf(),
                self.filter() == old(self).filter(),
                renders(*describe, *render),
                start == at_most(
                    frames.len() * ADVERTISE_CHANNEL_BATCH_SIZE,
                    kept@.len(),
                ),
                forall|i: int|
                    0 <= i < frames.len() ==> advertisement(
                        *describe,
                        *render,
                        batch(kept@, i),
                        #[trigger] frames[i],
                    ),
                frames.len() <= batch_count(kept@.len()),
                controls_sent(
                    (ClientState {
                        channels: cached(before.channels, kept@.take(start as int)),
                        ..before
                    }),
                    joined(frames),
                    self@,
                ),
            decreases kept.len() - start,
        {
            let end: usize = if kept.len() - start < ADVERTISE_CHANNEL_BATCH_SIZE {
                kept.len()
            } else {
                start + ADVERTISE_CHANNEL_BATCH_SIZE
            };
            let mut part: Vec<Arc<RawChannel>> = Vec::new();
            for i in start..end
                invariant
                    end <= kept@.len(),
                    part@ == kept@.subrange(start as int, i as int),
            {
                part.push(Arc::clone(&kept[i]));
                assert(part@ =~= kept@.subrange(start as int, i + 1));
            }
            let ghost middle = self@;
            self.advertise_channels(&part, describe, render);
            proof {
                let number = frames.len() as int;
                assert(part@ =~= batch(kept@, number));
                let frame = choose|frame: Seq<Seq<u8>>|
                    {
                        &&& #[trigger] advertisement(*describe, *render, part@, frame)
                        &&& controls_sent(
                            ClientState { channels: cached(middle.channels, part@), ..middle },
                            frame,
                            self@,
                        )
                    };
                let told = cached(before.channels, kept@.take(end as int));
                lemma_cached_in_turn(before.channels, kept@.take(start as int), part@);
                assert(kept@.take(start as int) + part@ =~= kept@.take(end as int));
                lemma_controls_in_turn(
                    ClientState {
                        channels: cached(before.channels, kept@.take(start as int)),
                        ..before
                    },
                    joined(frames),
                    middle,
                    told,
                    frame,
                    self@,
                );
                let previous = frames;
                frames = frames.push(frame);
                assert(frames.drop_last() =~= previous);
            }
            start = end;
        }
        proof {
            assert(kept@.take(start as int) =~= kept@);
            assert(filtered(old(self).filter(), channels@, answers));
            assert(advertisements(*describe, *render, selected(channels@, answers), frames));
        }
        None
    }

    /// Unadvertise a channel. `render` makes the JSON text that tells the client of it.
    fn unadvertise_channel<U: Fn(u64) -> String>(&mut self, channel_id: u64, render: &U)
        requires
            old(self).wf(),
            renders_removal(*render, channel_id),
        ensures
            channel_unadvertised(*render, old(self)@, channel_id, final(self)@),
            final(self).wf(),
            final(self).filter() == old(self).filter(),
    {
        self.channels.remove(&channel_id);
        let text = render(channel_id);
        assert(call_ensures(*render, (channel_id,), text));
        self.send_control(encode_json_frame(text.as_str()));
    }

    /// Removes a channel: the client is no longer subscribed to it, and is told that it is gone.
    /// `render` makes the JSON text that tells it.
    pub fn remove_channel<U: Fn(u64) -> String>(&mut self, channel: &RawChannel, render: &U)
        requires
            old(self).wf(),
            renders_removal(*render, channel.spec_id()),
        ensures
            channel_unadvertised(
                *render,
                unsubscribed(old(self)@, channel.spec_id()),
                channel.spec_id(),
                final(self)@,
            ),
            final(self).wf(),
            final(self).filter() == old(self).filter(),
    {
        pairs::remove_by_left(&mut self.subscriptions, channel.id());
        self.unadvertise_channel(channel.id(), render);
    }

    /// Whether the client is subscribed to channels without asking for it: it is not.
    pub fn auto_subscribe(&self) -> (automatic: bool)
        ensures
            !automatic,
    {
        false
    }

    /// The client's identifier.
    pub fn id(&self) -> (id: ClientId)
        ensures
            id == self@.settings.id,
    {
        self.id
    }

    /// The sink that the client is.
    pub fn sink_id(&self) -> (sink_id: SinkId)
        ensures
            sink_id == self@.settings.sink_id,
    {
        self.sink_id
    }

    /// What the client is called in logs.
    pub fn label(&self) -> (label: &str)
        ensures
            label@ == self@.settings.label,
    {
        self.label.as_str()
    }
}

} // verus!
