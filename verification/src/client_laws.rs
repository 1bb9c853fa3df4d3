//! What each operation on a client does, in terms of what is seen of the client.

use vstd::prelude::*;

use std::sync::Arc;

use bytes::Bytes;
use flume::{Receiver, Sender};
use regex::Regex;
use tokio::sync::oneshot;
use zstd_safe::CCtx;

use crate::channel::{RawChannel, SinkChannelFilter};
use crate::compression;
use crate::compression::Compressor;
use crate::connected_client;
use crate::connected_client::{
    ClientId, ClientIds, ClientSettings, ClientState, ConnectedClient, Delivery, DeliveryView,
    Metadata, ShutdownReason, SinkId,
};
use crate::ext::queue::Take;
use crate::ext::{buffer, pattern, queue, signal, zstd};
use crate::framing;
use crate::framing::{DatagramHeader, StreamOpCode};
use crate::queue_laws;
use crate::send_lossy;
use crate::send_lossy::SendLossyResult;

verus! {

/// A topic goes by datagram where any of the patterns matches it, whichever it is, and only there.
pub proof fn law_any_pattern_makes_a_datagram(
    patterns: Seq<Seq<char>>,
    topic: Seq<char>,
    at: int,
)
    ensures
        (0 <= at < patterns.len() && pattern::pattern_matches(patterns[at], topic))
            ==> connected_client::datagram_topic(patterns, topic),
        (forall|i: int|
            0 <= i < patterns.len() ==> !pattern::pattern_matches(#[trigger] patterns[i], topic))
            ==> !connected_client::datagram_topic(patterns, topic),
{
}

/// What `ConnectedClient::is_datagram_channel` returns: whether any of the client's patterns
/// matches the topic of the channel.
pub proof fn law_is_datagram_channel<F: SinkChannelFilter>(
    client: &ConnectedClient<F>,
    channel: &RawChannel,
    matched: bool,
    at: int,
)
    requires
        call_ensures(ConnectedClient::<F>::is_datagram_channel, (client, channel), matched),
    ensures
        (0 <= at < client@.settings.patterns.len() && pattern::pattern_matches(
            client@.settings.patterns[at],
            channel.spec_topic(),
        )) ==> matched,
        matched ==> exists|i: int|
            0 <= i < client@.settings.patterns.len() && pattern::pattern_matches(
                #[trigger] client@.settings.patterns[i],
                channel.spec_topic(),
            ),
{
    law_any_pattern_makes_a_datagram(client@.settings.patterns, channel.spec_topic(), at);
}

/// A channel's next sequence number, and the state once it is used up: the number after it, modulo
/// 2^32, comes next on that channel, and nothing else changes.
pub proof fn law_sequence_used(state: ClientState, channel_id: u64, other: u64)
    ensures
        ({
            let next = connected_client::next_sequence(state.sequences, channel_id);
            let after = connected_client::sequence_used(state, channel_id);
            &&& next == (if state.sequences.contains_key(channel_id) {
                state.sequences[channel_id]
            } else {
                0
            })
            &&& after.sequences.contains_key(channel_id)
            &&& after.sequences[channel_id] == (next + 1) % 0x1_0000_0000
            &&& other != channel_id ==> {
                &&& after.sequences.contains_key(other) == state.sequences.contains_key(other)
                &&& after.sequences[other] == state.sequences[other]
            }
            &&& after == (ClientState { sequences: after.sequences, ..state })
        }),
{
}

/// What `ConnectedClient::next_datagram_seq` does and returns.
pub proof fn law_next_datagram_seq<F: SinkChannelFilter>(
    client: &mut ConnectedClient<F>,
    channel_id: u64,
    sequence: u32,
    other: u64,
)
    requires
        call_ensures(
            ConnectedClient::<F>::next_datagram_seq,
            (client, channel_id),
            sequence,
        ),
    ensures
        old(client)@.sequences.contains_key(channel_id) ==> {
            sequence == old(client)@.sequences[channel_id]
        },
        !old(client)@.sequences.contains_key(channel_id) ==> sequence == 0,
        final(client)@.sequences.contains_key(channel_id),
        final(client)@.sequences[channel_id] == (sequence + 1) % 0x1_0000_0000,
        other != channel_id ==> {
            let before = old(client)@.sequences;
            &&& final(client)@.sequences.contains_key(other) == before.contains_key(other)
            &&& final(client)@.sequences[other] == old(client)@.sequences[other]
        },
        final(client)@ == (ClientState { sequences: final(client)@.sequences, ..old(client)@ }),
{
}

/// The state after a shutdown: only a client that has not been shut down before takes the reason.
pub proof fn law_shut_down(state: ClientState, reason: ShutdownReason)
    ensures
        state.pending is None ==> connected_client::shut_down(state, reason) == state,
        state.pending is Some ==> connected_client::shut_down(state, reason) == (ClientState {
            pending: None,
            shutdown: Some(reason),
            ..state
        }),
{
}

/// What `ConnectedClient::shutdown` does: the first reason is taken and goes through the signal,
/// if its receiving end is there; a later one changes nothing.
pub proof fn law_shutdown<F: SinkChannelFilter>(
    client: &mut ConnectedClient<F>,
    reason: ShutdownReason,
)
    requires
        call_ensures(ConnectedClient::<F>::shutdown, (client, reason), ()),
    ensures
        old(client)@.pending is None ==> final(client)@ == old(client)@,
        old(client)@.pending matches Some(tx) ==> {
            &&& final(client)@ == (ClientState {
                pending: None,
                shutdown: Some(reason),
                ..old(client)@
            })
            &&& signal::reason_sent(tx) matches Some(r) ==> r == reason
        },
{
}

/// The state after a subscribe request: a channel that is not subscribed to and not excluded gets
/// the next number, which only another channel that had the same number loses; the number after
/// it, modulo 2^32, is next; nothing else changes. Any other request changes nothing.
pub proof fn law_subscribed(state: ClientState, channel_id: u64, other: u64)
    ensures
        ({
            let after = connected_client::subscribed(state, channel_id);
            let number = state.next_subscription_id;
            &&& (state.subscriptions.contains_key(channel_id) || state.excluded.contains(
                channel_id,
            )) ==> after == state
            &&& (!state.subscriptions.contains_key(channel_id) && !state.excluded.contains(
                channel_id,
            )) ==> {
                &&& after.subscriptions.contains_key(channel_id)
                &&& after.subscriptions[channel_id] == number
                &&& other != channel_id ==> {
                    &&& after.subscriptions.contains_key(other) == (
                    state.subscriptions.contains_key(other) && state.subscriptions[other]
                        != number)
                    &&& after.subscriptions.contains_key(other) ==> after.subscriptions[other]
                        == state.subscriptions[other]
                }
                &&& after.next_subscription_id == (number + 1) % 0x1_0000_0000
                &&& after == (ClientState {
                    subscriptions: after.subscriptions,
                    next_subscription_id: after.next_subscription_id,
                    ..state
                })
            }
        }),
{
}

/// The state after an unsubscribe request: the channel is not subscribed to; nothing else changes.
pub proof fn law_unsubscribed(state: ClientState, channel_id: u64, other: u64)
    ensures
        ({
            let after = connected_client::unsubscribed(state, channel_id);
            &&& !after.subscriptions.contains_key(channel_id)
            &&& other != channel_id ==> {
                &&& after.subscriptions.contains_key(other) == state.subscriptions.contains_key(
                    other,
                )
                &&& after.subscriptions[other] == state.subscriptions[other]
            }
            &&& after == (ClientState { subscriptions: after.subscriptions, ..state })
        }),
{
}

/// What `ConnectedClient::on_subscribe` does and returns.
pub proof fn law_on_subscribe<F: SinkChannelFilter>(
    client: &mut ConnectedClient<F>,
    channel_id: u64,
    ask_context: bool,
    other: u64,
)
    requires
        call_ensures(ConnectedClient::<F>::on_subscribe, (client, channel_id), ask_context),
    ensures
        ask_context <==> {
            &&& !old(client)@.subscriptions.contains_key(channel_id)
            &&& !old(client)@.excluded.contains(channel_id)
        },
        !ask_context ==> final(client)@ == old(client)@,
        ask_context ==> {
            let number = old(client)@.next_subscription_id;
            let before = old(client)@.subscriptions;
            let after = final(client)@.subscriptions;
            &&& after.contains_key(channel_id)
            &&& after[channel_id] == number
            &&& (other != channel_id && before.contains_key(other) && before[other] != number) ==> {
                &&& after.contains_key(other)
                &&& after[other] == before[other]
            }
            &&& (other != channel_id && !(before.contains_key(other) && before[other] != number))
                ==> !after.contains_key(other)
            &&& final(client)@.next_subscription_id == (number + 1) % 0x1_0000_0000
            &&& final(client)@ == (ClientState {
                subscriptions: final(client)@.subscriptions,
                next_subscription_id: final(client)@.next_subscription_id,
                ..old(client)@
            })
        },
{
    law_subscribed(old(client)@, channel_id, other);
}

/// What `ConnectedClient::on_unsubscribe` does.
pub proof fn law_on_unsubscribe<F: SinkChannelFilter>(
    client: &mut ConnectedClient<F>,
    channel_id: u64,
)
    requires
        call_ensures(ConnectedClient::<F>::on_unsubscribe, (client, channel_id), ()),
    ensures
        final(client)@ == (ClientState {
            subscriptions: old(client)@.subscriptions.remove(channel_id),
            ..old(client)@
        }),
{
}

/// How a message goes, given what compression made of it: by datagram exactly where there is a
/// shorter frame, any of the patterns matches the topic, and the datagram is no longer than
/// allowed; else in the stream, as that frame where there is one, and as it is where there is
/// none. A sequence number is used up exactly where there is a frame and a pattern matches.
pub proof fn law_delivery(
    state: ClientState,
    channel: RawChannel,
    message: Seq<u8>,
    compressed: Option<Seq<u8>>,
)
    ensures
        ({
            let sent = connected_client::delivery(state, channel, message, compressed);
            let after = connected_client::after_choice(state, channel, compressed);
            let matched = exists|i: int|
                0 <= i < state.settings.patterns.len() && pattern::pattern_matches(
                    #[trigger] state.settings.patterns[i],
                    channel.spec_topic(),
                );
            let id = channel.spec_id();
            let sequence = if state.sequences.contains_key(id) {
                state.sequences[id]
            } else {
                0
            };
            &&& compressed is None ==> {
                &&& sent == DeliveryView::Stream(
                    framing::stream_frame(StreamOpCode::Binary, message),
                )
                &&& after == state
            }
            &&& compressed matches Some(payload) ==> {
                &&& matched && payload.len() + 14 <= state.settings.max_datagram_size ==> sent
                    == DeliveryView::Datagram(
                    framing::datagram_frame(
                        DatagramHeader { channel_id: id, sequence, flags: 0 },
                        payload,
                    ),
                )
                &&& !(matched && payload.len() + 14 <= state.settings.max_datagram_size) ==> sent
                    == DeliveryView::Stream(
                    framing::stream_frame(StreamOpCode::CompressedBinary, payload),
                )
                &&& !matched ==> after == state
                &&& matched ==> {
                    &&& after.sequences == state.sequences.insert(
                        id,
                        ((sequence + 1) % 0x1_0000_0000) as u32,
                    )
                    &&& after == (ClientState { sequences: after.sequences, ..state })
                }
            }
        }),
{
    let sequence = connected_client::next_sequence(state.sequences, channel.spec_id());
    assert(((sequence + 1) % 0x1_0000_0000) as u32 == connected_client::following_u32(sequence));
}

/// What `ConnectedClient::choose_delivery` does and returns.
pub proof fn law_choose_delivery<F: SinkChannelFilter>(
    client: &mut ConnectedClient<F>,
    channel: &RawChannel,
    message: &[u8],
    compressed: Option<Vec<u8>>,
    chosen: Delivery,
)
    requires
        call_ensures(
            ConnectedClient::<F>::choose_delivery,
            (client, channel, message, compressed),
            chosen,
        ),
    ensures
        ({
            let matched = exists|i: int|
                0 <= i < old(client)@.settings.patterns.len() && pattern::pattern_matches(
                    #[trigger] old(client)@.settings.patterns[i],
                    channel.spec_topic(),
                );
            let id = channel.spec_id();
            let sequence = if old(client)@.sequences.contains_key(id) {
                old(client)@.sequences[id]
            } else {
                0
            };
            &&& compressed is None ==> {
                &&& chosen matches Delivery::Stream(f) && buffer::frame_bytes(f)
                    == framing::stream_frame(StreamOpCode::Binary, message@)
                &&& final(client)@ == old(client)@
            }
            &&& compressed matches Some(payload) ==> {
                if matched && payload@.len() + 14 <= old(client)@.settings.max_datagram_size {
                    chosen matches Delivery::Datagram(d) && buffer::frame_bytes(d)
                        == framing::datagram_frame(
                        DatagramHeader { channel_id: id, sequence, flags: 0 },
                        payload@,
                    )
                } else {
                    chosen matches Delivery::Stream(f) && buffer::frame_bytes(f)
                        == framing::stream_frame(StreamOpCode::CompressedBinary, payload@)
                }
            }
            &&& (compressed is Some && !matched) ==> final(client)@ == old(client)@
            &&& (compressed is Some && matched) ==> final(client)@ == (ClientState {
                sequences: old(client)@.sequences.insert(
                    id,
                    ((sequence + 1) % 0x1_0000_0000) as u32,
                ),
                ..old(client)@
            })
        }),
{
    law_delivery(old(client)@, *channel, message@, compression::viewed(compressed));
}

/// What `ConnectedClient::hand_over` does: a datagram goes to the datagram queue, a frame of the
/// stream to the data queue, each by a lossy send of at most ten retries; nothing else changes.
pub proof fn law_hand_over<F: SinkChannelFilter>(
    client: &mut ConnectedClient<F>,
    sent: Delivery,
    result: SendLossyResult,
    at: int,
)
    requires
        call_ensures(ConnectedClient::<F>::hand_over, (client, sent), result),
    ensures
        ({
            let datagrams0 = old(client)@.datagram_offers;
            let datagrams1 = final(client)@.datagram_offers;
            let frames0 = old(client)@.data_offers;
            let frames1 = final(client)@.data_offers;
            let datagrams_lost = final(client)@.datagram_takes.skip(
                old(client)@.datagram_takes.len() as int,
            ).filter(|t: Take| t is Frame).len();
            let frames_lost = final(client)@.data_takes.skip(
                old(client)@.data_takes.len() as int,
            ).filter(|t: Take| t is Frame).len();
            &&& sent matches Delivery::Datagram(d) ==> {
                &&& datagrams1.len() > datagrams0.len()
                &&& datagrams1.len() <= datagrams0.len() + 11
                &&& datagrams1.take(datagrams0.len() as int) == datagrams0
                &&& datagrams0.len() <= at < datagrams1.len() ==> datagrams1[at].0
                    == buffer::frame_bytes(d)
                &&& datagrams0.len() <= at < datagrams1.len() - 1 ==> !datagrams1[at].1
                &&& datagrams1.last().1 ==> result == (if datagrams_lost == 0 {
                    SendLossyResult::Sent
                } else {
                    SendLossyResult::SentLossy(datagrams_lost as usize)
                })
                &&& datagrams1.last().1 <==> result != SendLossyResult::ExhaustedRetries
                &&& !datagrams1.last().1 ==> datagrams1.len() == datagrams0.len() + 11
                &&& final(client)@.datagram_takes.len() - old(client)@.datagram_takes.len()
                    == datagrams1.len() - datagrams0.len() - 1
                &&& final(client)@.datagram_takes.take(old(client)@.datagram_takes.len() as int)
                    == old(client)@.datagram_takes
                &&& final(client)@ == (ClientState {
                    datagram_offers: datagrams1,
                    datagram_takes: final(client)@.datagram_takes,
                    ..old(client)@
                })
            }
            &&& sent matches Delivery::Stream(f) ==> {
                &&& frames1.len() > frames0.len()
                &&& frames1.len() <= frames0.len() + 11
                &&& frames1.take(frames0.len() as int) == frames0
                &&& frames0.len() <= at < frames1.len() ==> frames1[at].0 == buffer::frame_bytes(f)
                &&& frames0.len() <= at < frames1.len() - 1 ==> !frames1[at].1
                &&& frames1.last().1 ==> result == (if frames_lost == 0 {
                    SendLossyResult::Sent
                } else {
                    SendLossyResult::SentLossy(frames_lost as usize)
                })
                &&& frames1.last().1 <==> result != SendLossyResult::ExhaustedRetries
                &&& !frames1.last().1 ==> frames1.len() == frames0.len() + 11
                &&& final(client)@.data_takes.len() - old(client)@.data_takes.len()
                    == frames1.len() - frames0.len() - 1
                &&& final(client)@.data_takes.take(old(client)@.data_takes.len() as int)
                    == old(client)@.data_takes
                &&& final(client)@ == (ClientState {
                    data_offers: frames1,
                    data_takes: final(client)@.data_takes,
                    ..old(client)@
                })
            }
        }),
{
    match sent {
        Delivery::Datagram(d) => {
            queue_laws::law_lossy_send(
                buffer::frame_bytes(d),
                10,
                old(client)@.datagram_offers,
                old(client)@.datagram_takes,
                final(client)@.datagram_offers,
                final(client)@.datagram_takes,
                result,
            );
        },
        Delivery::Stream(f) => {
            queue_laws::law_lossy_send(
                buffer::frame_bytes(f),
                10,
                old(client)@.data_offers,
                old(client)@.data_takes,
                final(client)@.data_offers,
                final(client)@.data_takes,
                result,
            );
        },
    }
}

/// Where a message that is sent goes. Where zstd made a shorter frame of it, any of the patterns
/// matches the topic, and the datagram is no longer than allowed, every new offer is to the
/// datagram queue, and is the datagram of the channel, its next sequence number, no flags and that
/// frame. Where zstd made a shorter frame otherwise, every new offer is to the data queue, and is
/// that frame behind opcode 3. Where it did not, or failed, every new offer is to the data queue,
/// and is the message behind opcode 2. In each there is at least one offer and at most eleven, the
/// last of which alone may be taken, and nothing but the queue and the sequence number changes.
pub proof fn law_message_sent(
    before: ClientState,
    channel: RawChannel,
    message: Seq<u8>,
    after: ClientState,
    result: SendLossyResult,
    at: int,
)
    requires
        connected_client::message_sent(before, channel, message, after, result),
    ensures
        ({
            let id = channel.spec_id();
            let sequence = if before.sequences.contains_key(id) {
                before.sequences[id]
            } else {
                0
            };
            let matched = exists|i: int|
                0 <= i < before.settings.patterns.len() && pattern::pattern_matches(
                    #[trigger] before.settings.patterns[i],
                    channel.spec_topic(),
                );
            let packed = zstd::zstd_compressed(before.settings.level, message);
            let failed = exists|cctx: CCtx<'static>| #[trigger]
                zstd::compressions(cctx) == seq![
                    (before.settings.level, message, None::<Seq<u8>>),
                ];
            let fits = packed.len() + 14 <= before.settings.max_datagram_size;
            let datagrams0 = before.datagram_offers;
            let datagrams1 = after.datagram_offers;
            let frames0 = before.data_offers;
            let frames1 = after.data_offers;
            ||| {
                &&& packed.len() < message.len() && matched && fits
                &&& zstd::zstd_content(packed) == Some(message)
                &&& datagrams0.len() < datagrams1.len() <= datagrams0.len() + 11
                &&& datagrams1.take(datagrams0.len() as int) == datagrams0
                &&& datagrams0.len() <= at < datagrams1.len() ==> datagrams1[at].0
                    == framing::datagram_frame(
                    DatagramHeader { channel_id: id, sequence, flags: 0 },
                    packed,
                )
                &&& datagrams0.len() <= at < datagrams1.len() - 1 ==> !datagrams1[at].1
                &&& datagrams1.last().1 <==> result != SendLossyResult::ExhaustedRetries
                &&& !datagrams1.last().1 ==> datagrams1.len() == datagrams0.len() + 11
                &&& after.datagram_takes.len() - before.datagram_takes.len() == datagrams1.len()
                    - datagrams0.len() - 1
                &&& after == (ClientState {
                    datagram_offers: datagrams1,
                    datagram_takes: after.datagram_takes,
                    sequences: before.sequences.insert(
                        id,
                        ((sequence + 1) % 0x1_0000_0000) as u32,
                    ),
                    ..before
                })
            }
            ||| {
                &&& packed.len() < message.len() && !(matched && fits)
                &&& zstd::zstd_content(packed) == Some(message)
                &&& frames0.len() < frames1.len() <= frames0.len() + 11
                &&& frames1.take(frames0.len() as int) == frames0
                &&& frames0.len() <= at < frames1.len() ==> frames1[at].0 == framing::stream_frame(
                    StreamOpCode::CompressedBinary,
                    packed,
                )
                &&& frames0.len() <= at < frames1.len() - 1 ==> !frames1[at].1
                &&& frames1.last().1 <==> result != SendLossyResult::ExhaustedRetries
                &&& !frames1.last().1 ==> frames1.len() == frames0.len() + 11
                &&& after.data_takes.len() - before.data_takes.len() == frames1.len()
                    - frames0.len() - 1
                &&& after == (ClientState {
                    data_offers: frames1,
                    data_takes: after.data_takes,
                    sequences: if matched {
                        before.sequences.insert(id, ((sequence + 1) % 0x1_0000_0000) as u32)
                    } else {
                        before.sequences
                    },
                    ..before
                })
            }
            ||| {
                &&& packed.len() >= message.len() || failed
                &&& frames0.len() < frames1.len() <= frames0.len() + 11
                &&& frames1.take(frames0.len() as int) == frames0
                &&& frames0.len() <= at < frames1.len() ==> frames1[at].0 == framing::stream_frame(
                    StreamOpCode::Binary,
                    message,
                )
                &&& frames0.len() <= at < frames1.len() - 1 ==> !frames1[at].1
                &&& frames1.last().1 <==> result != SendLossyResult::ExhaustedRetries
                &&& !frames1.last().1 ==> frames1.len() == frames0.len() + 11
                &&& after.data_takes.len() - before.data_takes.len() == frames1.len()
                    - frames0.len() - 1
                &&& after == (ClientState {
                    data_offers: frames1,
                    data_takes: after.data_takes,
                    ..before
                })
            }
        }),
{
    let compressed = choose|compressed: Option<Seq<u8>>|
        {
            &&& #[trigger] compression::compress_outcome(
                before.settings.level,
                message,
                compressed,
            )
            &&& connected_client::handed_over(
                connected_client::after_choice(before, channel, compressed),
                connected_client::delivery(before, channel, message, compressed),
                after,
                result,
            )
        };
    queue_laws::law_compress_outcome(before.settings.level, message, compressed);
    law_delivery(before, channel, message, compressed);
    match connected_client::delivery(before, channel, message, compressed) {
        DeliveryView::Datagram(d) => {
            queue_laws::law_lossy_send(
                d,
                10,
                before.datagram_offers,
                before.datagram_takes,
                after.datagram_offers,
                after.datagram_takes,
                result,
            );
        },
        DeliveryView::Stream(f) => {
            queue_laws::law_lossy_send(
                f,
                10,
                before.data_offers,
                before.data_takes,
                after.data_offers,
                after.data_takes,
                result,
            );
        },
    }
}

/// What `ConnectedClient::log` does: a client that is not subscribed to the channel stays as it
/// is; one that is, is sent what `encode` makes of the channel, the log time and the message.
pub proof fn law_log<F: SinkChannelFilter, E: Fn(u64, u64, &[u8]) -> Vec<u8>>(
    client: &mut ConnectedClient<F>,
    channel: &RawChannel,
    msg: &[u8],
    metadata: &Metadata,
    encode: &E,
    done: Result<Option<SendLossyResult>, crate::error::FoxgloveError>,
)
    requires
        call_ensures(
            ConnectedClient::<F>::log::<E>,
            (client, channel, msg, metadata, encode),
            done,
        ),
    ensures
        done is Ok,
        !old(client)@.subscriptions.contains_key(channel.spec_id()) ==> {
            &&& final(client)@ == old(client)@
            &&& done->Ok_0 is None
        },
        old(client)@.subscriptions.contains_key(channel.spec_id()) ==> done->Ok_0 is Some
            && exists|encoded: Vec<u8>|
            {
                &&& #[trigger] call_ensures(
                    *encode,
                    (channel.spec_id(), metadata.log_time, msg),
                    encoded,
                )
                &&& connected_client::message_sent(
                    old(client)@,
                    *channel,
                    encoded@,
                    final(client)@,
                    done->Ok_0->0,
                )
            },
{
}

/// What sending control frames does: each is offered to the control queue once, in order, behind
/// what was offered before. Where the queue took all of them nothing else changes; where it did
/// not, a client that has not been shut down before is shut down for that reason, which goes
/// through its signal.
pub proof fn law_controls_sent(
    before: ClientState,
    frames: Seq<Seq<u8>>,
    after: ClientState,
    at: int,
)
    requires
        connected_client::controls_sent(before, frames, after),
    ensures
        ({
            let offers0 = before.control_offers;
            let offers1 = after.control_offers;
            let refused = exists|i: int|
                offers0.len() <= i < offers1.len() && !(#[trigger] offers1[i]).1;
            &&& offers1.len() == offers0.len() + frames.len()
            &&& offers1.take(offers0.len() as int) == offers0
            &&& 0 <= at < frames.len() ==> {
                &&& offers1[offers0.len() + at].0 == frames[at]
                &&& offers1[offers0.len() + at].2 == 0
            }
            &&& (!refused || before.pending is None) ==> after == (ClientState {
                control_offers: offers1,
                ..before
            })
            &&& refused ==> {
                before.pending matches Some(tx) ==> {
                    &&& after == (ClientState {
                        control_offers: offers1,
                        pending: None,
                        shutdown: Some(ShutdownReason::ControlPlaneQueueFull),
                        ..before
                    })
                    &&& signal::reason_sent(tx) matches Some(r) ==> r
                        == ShutdownReason::ControlPlaneQueueFull
                }
            }
        }),
{
    let offers0 = before.control_offers;
    let offers1 = after.control_offers;
    let offers = send_lossy::appended(offers0, offers1);
    assert(offers1.take(offers0.len() as int) =~= offers0);
    assert(forall|i: int|
        0 <= i < offers.len() ==> #[trigger] offers[i] == offers1[offers0.len() + i]);
    if connected_client::all_taken(offers) {
        assert forall|i: int| offers0.len() <= i < offers1.len() implies (#[trigger]
        offers1[i]).1 by {
            assert(offers[i - offers0.len()].1);
        }
    } else {
        let i = choose|i: int| 0 <= i < offers.len() && !(#[trigger] offers[i]).1;
        assert(!offers1[offers0.len() + i].1);
    }
}

/// What `ConnectedClient::send_control` does.
pub proof fn law_send_control<F: SinkChannelFilter>(client: &mut ConnectedClient<F>, frame: Bytes)
    requires
        call_ensures(ConnectedClient::<F>::send_control, (client, frame), ()),
    ensures
        ({
            let offers1 = final(client)@.control_offers;
            &&& offers1.len() == old(client)@.control_offers.len() + 1
            &&& offers1.drop_last() == old(client)@.control_offers
            &&& offers1.last().0 == buffer::frame_bytes(frame)
            &&& (offers1.last().1 || old(client)@.pending is None) ==> final(client)@ == (
            ClientState { control_offers: offers1, ..old(client)@ })
            &&& !offers1.last().1 ==> {
                old(client)@.pending matches Some(tx) ==> {
                    &&& final(client)@ == (ClientState {
                        control_offers: offers1,
                        pending: None,
                        shutdown: Some(ShutdownReason::ControlPlaneQueueFull),
                        ..old(client)@
                    })
                    &&& signal::reason_sent(tx) matches Some(r) ==> r
                        == ShutdownReason::ControlPlaneQueueFull
                }
            }
        }),
{
    let frames = seq![buffer::frame_bytes(frame)];
    law_controls_sent(old(client)@, frames, final(client)@, 0);
    let offers0 = old(client)@.control_offers;
    let offers1 = final(client)@.control_offers;
    assert(offers1.drop_last() =~= offers1.take(offers0.len() as int));
    assert(offers1.last() == offers1[offers0.len() as int]);
}

/// What telling a client that a channel is gone does: exactly one frame more is offered to its
/// control queue, whether or not it knew the channel, and that is the text frame of a text that
/// `render` may give for the channel; it no longer knows the channel, and knows the others still.
/// A client whose queue refuses that frame is shut down, unless it was before.
pub proof fn law_channel_unadvertised<U: Fn(u64) -> String>(
    render: U,
    before: ClientState,
    channel_id: u64,
    after: ClientState,
)
    requires
        connected_client::channel_unadvertised(render, before, channel_id, after),
    ensures
        after.control_offers.len() == before.control_offers.len() + 1,
        after.control_offers.drop_last() == before.control_offers,
        exists|text: String| #[trigger]
            call_ensures(render, (channel_id,), text) && after.control_offers.last().0
                == framing::stream_frame(StreamOpCode::Text, vstd::utf8::encode_utf8(text@)),
        after.channels == before.channels.remove(channel_id),
        after == (ClientState {
            channels: after.channels,
            control_offers: after.control_offers,
            pending: after.pending,
            shutdown: after.shutdown,
            ..before
        }),
        (after.control_offers.last().1 || before.pending is None) ==> {
            &&& after.pending == before.pending
            &&& after.shutdown == before.shutdown
        },
        (!after.control_offers.last().1 && before.pending is Some) ==> {
            &&& after.pending is None
            &&& after.shutdown == Some(ShutdownReason::ControlPlaneQueueFull)
        },
{
    let text = choose|text: String|
        {
            &&& #[trigger] call_ensures(render, (channel_id,), text)
            &&& connected_client::controls_sent(
                ClientState { channels: before.channels.remove(channel_id), ..before },
                seq![framing::stream_frame(StreamOpCode::Text, vstd::utf8::encode_utf8(text@))],
                after,
            )
        };
    let frames = seq![framing::stream_frame(StreamOpCode::Text, vstd::utf8::encode_utf8(text@))];
    let told = ClientState { channels: before.channels.remove(channel_id), ..before };
    law_controls_sent(told, frames, after, 0);
    let offers0 = before.control_offers;
    let offers1 = after.control_offers;
    assert(offers1.drop_last() =~= offers1.take(offers0.len() as int));
    assert(offers1.last() == offers1[offers0.len() as int]);
}

/// What `ConnectedClient::remove_channel` does: the client is not subscribed to the channel and
/// does not know it, whether or not it was and did, and exactly one frame more is offered to its
/// control queue, which is the text frame of a text that `render` may give for the channel.
/// A client whose queue refuses that frame is shut down, unless it was before. Nothing else
/// changes.
pub proof fn law_remove_channel<F: SinkChannelFilter, U: Fn(u64) -> String>(
    client: &mut ConnectedClient<F>,
    channel: &RawChannel,
    render: &U,
)
    requires
        call_ensures(
            ConnectedClient::<F>::remove_channel::<U>,
            (client, channel, render),
            (),
        ),
    ensures
        final(client)@.subscriptions == old(client)@.subscriptions.remove(channel.spec_id()),
        final(client)@.channels == old(client)@.channels.remove(channel.spec_id()),
        final(client)@.control_offers.len() == old(client)@.control_offers.len() + 1,
        final(client)@.control_offers.drop_last() == old(client)@.control_offers,
        exists|text: String|
            {
                &&& #[trigger] call_ensures(*render, (channel.spec_id(),), text)
                &&& final(client)@.control_offers.last().0 == framing::stream_frame(
                    StreamOpCode::Text,
                    vstd::utf8::encode_utf8(text@),
                )
            },
        final(client)@ == (ClientState {
            subscriptions: final(client)@.subscriptions,
            channels: final(client)@.channels,
            control_offers: final(client)@.control_offers,
            pending: final(client)@.pending,
            shutdown: final(client)@.shutdown,
            ..old(client)@
        }),
        (final(client)@.control_offers.last().1 || old(client)@.pending is None) ==> {
            &&& final(client)@.pending == old(client)@.pending
            &&& final(client)@.shutdown == old(client)@.shutdown
        },
        (!final(client)@.control_offers.last().1 && old(client)@.pending is Some) ==> {
            &&& final(client)@.pending is None
            &&& final(client)@.shutdown == Some(ShutdownReason::ControlPlaneQueueFull)
        },
{
    law_channel_unadvertised(
        *render,
        connected_client::unsubscribed(old(client)@, channel.spec_id()),
        channel.spec_id(),
        final(client)@,
    );
}

/// A new client: subscribed to nothing, told of nothing, with nothing excluded and nothing
/// offered.
pub proof fn law_fresh_client(
    settings: ClientSettings,
    shutdown_tx: oneshot::Sender<ShutdownReason>,
)
    ensures
        ({
            let client = connected_client::fresh_client(settings, shutdown_tx);
            &&& client.settings == settings
            &&& client.subscriptions.dom() == Set::<u64>::empty()
            &&& client.next_subscription_id == 1
            &&& client.sequences.dom() == Set::<u64>::empty()
            &&& client.channels.dom() == Set::<u64>::empty()
            &&& client.excluded == Set::<u64>::empty()
            &&& client.pending == Some(shutdown_tx)
            &&& client.shutdown is None
            &&& client.data_offers.len() == 0 && client.data_takes.len() == 0
            &&& client.control_offers.len() == 0
            &&& client.datagram_offers.len() == 0 && client.datagram_takes.len() == 0
        }),
{
    let client = connected_client::fresh_client(settings, shutdown_tx);
    assert(client.subscriptions.dom() =~= Set::<u64>::empty());
    assert(client.sequences.dom() =~= Set::<u64>::empty());
    assert(client.channels.dom() =~= Set::<u64>::empty());
}

/// What `ConnectedClient::new` makes: a client of that identifier, sink, label, level, longest
/// datagram, filter and queues, with all the patterns, in order, that is subscribed to nothing and
/// has been told of nothing.
pub proof fn law_new_client<F: SinkChannelFilter>(
    named: (ClientId, SinkId, String),
    filter: Option<Arc<F>>,
    compressor: Compressor,
    patterns: Vec<Regex>,
    max_datagram_size: usize,
    data: (Sender<Bytes>, Receiver<Bytes>),
    control_tx: Sender<Bytes>,
    datagrams: (Sender<Bytes>, Receiver<Bytes>),
    shutdown_tx: oneshot::Sender<ShutdownReason>,
    client: ConnectedClient<F>,
    at: int,
)
    requires
        call_ensures(
            ConnectedClient::<F>::new,
            (
                named.0,
                named.1,
                named.2,
                filter,
                compressor,
                patterns,
                max_datagram_size,
                data.0,
                data.1,
                control_tx,
                datagrams.0,
                datagrams.1,
                shutdown_tx,
            ),
            client,
        ),
    ensures
        client@.settings.id == named.0,
        client@.settings.sink_id == named.1,
        client@.settings.label == named.2@,
        client@.settings.level == compressor.level(),
        client@.settings.patterns.len() == patterns@.len(),
        0 <= at < patterns@.len() ==> client@.settings.patterns[at] == pattern::pattern_text(
            patterns@[at],
        ),
        client@.settings.max_datagram_size == max_datagram_size,
        client@.settings.data_queue.channel == queue::sender_channel(data.0),
        client@.settings.data_queue.capacity == queue::sender_capacity(data.0),
        client@.settings.control_queue.channel == queue::sender_channel(control_tx),
        client@.settings.control_queue.capacity == queue::sender_capacity(control_tx),
        client@.settings.datagram_queue.channel == queue::sender_channel(datagrams.0),
        client@.settings.datagram_queue.capacity == queue::sender_capacity(datagrams.0),
        client@.data_offers == queue::sender_offers(data.0),
        client@.data_takes == queue::receiver_takes(data.1),
        client@.control_offers == queue::sender_offers(control_tx),
        client@.datagram_offers == queue::sender_offers(datagrams.0),
        client@.datagram_takes == queue::receiver_takes(datagrams.1),
        client@.subscriptions.dom() == Set::<u64>::empty(),
        client@.next_subscription_id == 1,
        client@.sequences.dom() == Set::<u64>::empty(),
        client@.channels.dom() == Set::<u64>::empty(),
        client@.excluded == Set::<u64>::empty(),
        client@.pending == Some(shutdown_tx),
        client@.shutdown is None,
        client.filter() == filter,
{
    assert(client@.subscriptions.dom() =~= Set::<u64>::empty());
    assert(client@.sequences.dom() =~= Set::<u64>::empty());
    assert(client@.channels.dom() =~= Set::<u64>::empty());
}

/// What `ClientId::next` does and returns: the supply's number, after which the supply has the
/// next, modulo 2^64; and a new supply has 1.
pub proof fn law_client_ids(ids: &mut ClientIds, id: ClientId, fresh: ClientIds)
    requires
        call_ensures(ClientId::next, (ids,), id),
        call_ensures(ClientIds::new, (), fresh),
    ensures
        id.value() == old(ids).next_value(),
        final(ids).next_value() == (old(ids).next_value() + 1) % 0x1_0000_0000_0000_0000,
        fresh.next_value() == 1,
{
}

/// What a client says of itself.
pub proof fn law_client_getters<F: SinkChannelFilter>(
    client: &ConnectedClient<F>,
    id: ClientId,
    sink_id: SinkId,
    label: &str,
    automatic: bool,
)
    requires
        call_ensures(ConnectedClient::<F>::id, (client,), id),
        call_ensures(ConnectedClient::<F>::sink_id, (client,), sink_id),
        call_ensures(ConnectedClient::<F>::label, (client,), label),
        call_ensures(ConnectedClient::<F>::auto_subscribe, (client,), automatic),
    ensures
        id == client@.settings.id,
        sink_id == client@.settings.sink_id,
        label@ == client@.settings.label,
        !automatic,
{
}

} // verus!
