use std::sync::Arc;

use bytes::Bytes;
use tokio::sync::oneshot;

use foxglove_webtransport::channel::{
    AllChannels, ChannelDescriptor, RawChannel, SinkChannelFilter, SinkChannelFilterFn,
};
use foxglove_webtransport::compression::decompress;
use foxglove_webtransport::connected_client::{
    ClientId, ClientIds, ConnectedClient, Delivery, Metadata, ShutdownReason, SinkId,
};
use foxglove_webtransport::ext::queue::Taken;
use foxglove_webtransport::framing::parse_datagram_frame;
use foxglove_webtransport::poller::next_frame;
use foxglove_webtransport::send_lossy::SendLossyResult;
use foxglove_webtransport::server::{open_session, ServerOptions, SessionQueues, SessionSettings};

struct Session<F: SinkChannelFilter> {
    client: ConnectedClient<F>,
    queues: SessionQueues,
    shutdown_rx: oneshot::Receiver<ShutdownReason>,
}

fn session_with<F: SinkChannelFilter>(options: ServerOptions<F>) -> Session<F> {
    let (settings, _) = SessionSettings::new(options);
    let mut ids = ClientIds::new();
    let (shutdown_tx, shutdown_rx) = oneshot::channel();
    let (client, queues) =
        open_session(&settings, &mut ids, SinkId(7), String::from("peer"), shutdown_tx);
    Session { client, queues, shutdown_rx }
}

fn options() -> ServerOptions<AllChannels> {
    ServerOptions::default()
}

fn channel(id: u64, topic: &str) -> RawChannel {
    RawChannel::new(ChannelDescriptor::new(id, String::from(topic)))
}

/// One byte that says what follows, the channel, the time, the message.
fn encode(channel_id: u64, log_time: u64, msg: &[u8]) -> Vec<u8> {
    let mut out = vec![1u8];
    out.extend_from_slice(&channel_id.to_le_bytes());
    out.extend_from_slice(&log_time.to_le_bytes());
    out.extend_from_slice(msg);
    out
}

fn log<F: SinkChannelFilter>(
    client: &mut ConnectedClient<F>,
    channel: &RawChannel,
    msg: &[u8],
) -> Option<SendLossyResult> {
    client.log(channel, msg, &Metadata { log_time: 99 }, &encode).expect("should be logged")
}

fn drained(rx: &flume::Receiver<Bytes>) -> Vec<Bytes> {
    rx.drain().collect()
}

#[test]
fn client_ids_count_up_from_one() {
    let mut ids = ClientIds::new();
    let first = ClientId::next(&mut ids);
    let second = ClientId::next(&mut ids);
    assert_ne!(first, second);
    assert_eq!(first.to_text(), "1");
    assert_eq!(second.to_text(), "2");
    for _ in 0..8 {
        ClientId::next(&mut ids);
    }
    assert_eq!(ClientId::next(&mut ids).to_text(), "11");
}

#[test]
fn a_new_client_knows_who_it_is() {
    let session = session_with(options());
    assert_eq!(session.client.id().to_text(), "1");
    assert_eq!(session.client.sink_id(), SinkId(7));
    assert_eq!(session.client.label(), "peer");
    assert!(!session.client.auto_subscribe());
}

#[test]
fn only_subscribers_get_messages() {
    let mut session = session_with(options());
    let ch = channel(5, "/t");
    log(&mut session.client, &ch, &[1, 2, 3]);
    assert!(drained(&session.queues.data_plane_rx).is_empty());
    assert!(drained(&session.queues.datagram_rx).is_empty());
    assert!(session.client.on_subscribe(5));
    log(&mut session.client, &channel(6, "/t"), &[1, 2, 3]);
    assert!(drained(&session.queues.data_plane_rx).is_empty());
    log(&mut session.client, &ch, &[1, 2, 3]);
    assert_eq!(drained(&session.queues.data_plane_rx).len(), 1);
    session.client.on_unsubscribe(5);
    log(&mut session.client, &ch, &[1, 2, 3]);
    assert!(drained(&session.queues.data_plane_rx).is_empty());
}

#[test]
fn a_second_subscribe_is_not_passed_on() {
    let mut session = session_with(options());
    assert!(session.client.on_subscribe(5));
    assert!(!session.client.on_subscribe(5));
    assert!(session.client.on_subscribe(6));
    session.client.on_unsubscribe(5);
    assert!(!session.client.on_subscribe(6));
    assert!(session.client.on_subscribe(5));
}

#[test]
fn short_messages_go_uncompressed() {
    let mut session = session_with(options());
    session.client.on_subscribe(5);
    log(&mut session.client, &channel(5, "/t"), &[1, 2, 3]);
    let frames = drained(&session.queues.data_plane_rx);
    let message = encode(5, 99, &[1, 2, 3]);
    let mut expected = vec![2, message.len() as u8, 0, 0, 0];
    expected.extend_from_slice(&message);
    assert_eq!(frames, vec![Bytes::from(expected)]);
}

#[test]
fn long_messages_go_compressed() {
    let mut session = session_with(options());
    session.client.on_subscribe(5);
    let msg = vec![3u8; 4000];
    log(&mut session.client, &channel(5, "/t"), &msg);
    let frames = drained(&session.queues.data_plane_rx);
    assert_eq!(frames.len(), 1);
    assert_eq!(frames[0][0], 3);
    let len = u32::from_le_bytes([frames[0][1], frames[0][2], frames[0][3], frames[0][4]]);
    assert_eq!(len as usize, frames[0].len() - 5);
    assert_eq!(decompress(&frames[0][5..], 5000).unwrap(), encode(5, 99, &msg));
}

#[test]
fn datagrams_carry_the_message_and_count_per_channel() {
    let mut session = session_with(ServerOptions {
        datagram_topic_patterns: vec![String::from("/lidars/.*")],
        ..options()
    });
    session.client.on_subscribe(5);
    session.client.on_subscribe(6);
    let msg = vec![3u8; 4000];
    for id in [5, 6, 5, 5] {
        log(&mut session.client, &channel(id, "/lidars/front"), &msg);
    }
    assert!(drained(&session.queues.data_plane_rx).is_empty());
    let datagrams = drained(&session.queues.datagram_rx);
    let mut seen: Vec<(u64, u32)> = Vec::new();
    for datagram in &datagrams {
        assert!(datagram.len() <= 1200);
        let (header, payload) = parse_datagram_frame(datagram).unwrap();
        assert_eq!(header.flags, 0);
        seen.push((header.channel_id, header.sequence));
        assert_eq!(decompress(payload, 5000).unwrap(), encode(header.channel_id, 99, &msg));
    }
    assert_eq!(seen, vec![(5, 0), (6, 0), (5, 1), (5, 2)]);
}

#[test]
fn other_topics_stay_in_the_stream() {
    let mut session = session_with(ServerOptions {
        datagram_topic_patterns: vec![String::from("^/lidars/")],
        ..options()
    });
    session.client.on_subscribe(5);
    log(&mut session.client, &channel(5, "/x/lidars/front"), &vec![3u8; 4000]);
    assert_eq!(drained(&session.queues.data_plane_rx).len(), 1);
    assert!(drained(&session.queues.datagram_rx).is_empty());
    assert!(session.client.is_datagram_channel(&channel(5, "/lidars/front")));
    assert!(!session.client.is_datagram_channel(&channel(5, "/x/lidars/front")));
}

#[test]
fn what_is_too_long_for_a_datagram_falls_back() {
    let mut session = session_with(ServerOptions {
        datagram_topic_patterns: vec![String::from(".*")],
        max_datagram_size: 20,
        ..options()
    });
    session.client.on_subscribe(5);
    let ch = channel(5, "/t");
    let msg = vec![3u8; 4000];
    log(&mut session.client, &ch, &msg);
    assert!(drained(&session.queues.datagram_rx).is_empty());
    let frames = drained(&session.queues.data_plane_rx);
    assert_eq!(frames.len(), 1);
    assert_eq!(frames[0][0], 3);
    // A sequence number was used up all the same.
    assert_eq!(session.client.next_datagram_seq(5), 1);
}

#[test]
fn what_does_not_compress_is_no_datagram() {
    let mut session = session_with(ServerOptions {
        datagram_topic_patterns: vec![String::from(".*")],
        ..options()
    });
    session.client.on_subscribe(5);
    log(&mut session.client, &channel(5, "/t"), &[1]);
    assert!(drained(&session.queues.datagram_rx).is_empty());
    assert_eq!(drained(&session.queues.data_plane_rx)[0][0], 2);
    assert_eq!(session.client.next_datagram_seq(5), 0);
}

#[test]
fn a_full_data_queue_drops_its_oldest() {
    let mut session = session_with(ServerOptions { message_backlog_size: 2, ..options() });
    session.client.on_subscribe(5);
    let ch = channel(5, "/t");
    let results: Vec<_> = (0..4u8).map(|n| log(&mut session.client, &ch, &[n])).collect();
    assert_eq!(
        results,
        vec![
            Some(SendLossyResult::Sent),
            Some(SendLossyResult::Sent),
            Some(SendLossyResult::SentLossy(1)),
            Some(SendLossyResult::SentLossy(1)),
        ]
    );
    let frames = drained(&session.queues.data_plane_rx);
    let last: Vec<u8> = frames.iter().map(|f| f[f.len() - 1]).collect();
    assert_eq!(last, vec![2, 3]);
}

#[test]
fn a_full_datagram_queue_drops_its_oldest() {
    let mut session = session_with(ServerOptions {
        datagram_topic_patterns: vec![String::from(".*")],
        message_backlog_size: 2,
        ..options()
    });
    session.client.on_subscribe(5);
    let results: Vec<_> = (0..4)
        .map(|_| log(&mut session.client, &channel(5, "/t"), &vec![3u8; 4000]))
        .collect();
    assert_eq!(
        results,
        vec![
            Some(SendLossyResult::Sent),
            Some(SendLossyResult::Sent),
            Some(SendLossyResult::SentLossy(1)),
            Some(SendLossyResult::SentLossy(1)),
        ]
    );
    let sequences: Vec<u32> = drained(&session.queues.datagram_rx)
        .iter()
        .map(|d| parse_datagram_frame(d).unwrap().0.sequence)
        .collect();
    assert_eq!(sequences, vec![2, 3]);
}

#[test]
fn choosing_a_delivery() {
    let mut session = session_with(ServerOptions {
        datagram_topic_patterns: vec![String::from("d")],
        max_datagram_size: 16,
        ..options()
    });
    let chosen = session.client.choose_delivery(&channel(1, "d"), &[9], Some(vec![4, 4]));
    match chosen {
        Delivery::Datagram(d) => {
            assert_eq!(&d[..], &[1, 0, 0, 0, 0, 0, 0, 0, 0, 0, 0, 0, 0, 0, 4, 4])
        }
        Delivery::Stream(_) => panic!("should be a datagram"),
    }
    let chosen = session.client.choose_delivery(&channel(1, "d"), &[9], Some(vec![4, 4, 4]));
    match chosen {
        Delivery::Stream(f) => assert_eq!(&f[..], &[3, 3, 0, 0, 0, 4, 4, 4]),
        Delivery::Datagram(_) => panic!("should be a frame"),
    }
    let chosen = session.client.choose_delivery(&channel(1, "s"), &[9], Some(vec![4, 4]));
    match chosen {
        Delivery::Stream(f) => assert_eq!(&f[..], &[3, 2, 0, 0, 0, 4, 4]),
        Delivery::Datagram(_) => panic!("should be a frame"),
    }
    let chosen = session.client.choose_delivery(&channel(1, "d"), &[9], None);
    match chosen {
        Delivery::Stream(f) => assert_eq!(&f[..], &[2, 1, 0, 0, 0, 9]),
        Delivery::Datagram(_) => panic!("should be a frame"),
    }
}

#[test]
fn the_first_shutdown_reason_is_signalled() {
    let mut session = session_with(options());
    assert!(session.shutdown_rx.try_recv().is_err());
    session.client.shutdown(ShutdownReason::ServerStopped);
    session.client.shutdown(ShutdownReason::ClientDisconnected);
    assert_eq!(session.shutdown_rx.try_recv().unwrap(), ShutdownReason::ServerStopped);
}

#[test]
fn a_full_control_queue_disconnects() {
    let mut session = session_with(ServerOptions { message_backlog_size: 1, ..options() });
    session.client.send_control(Bytes::from(vec![1]));
    assert!(session.shutdown_rx.try_recv().is_err());
    session.client.send_control(Bytes::from(vec![2]));
    assert_eq!(session.shutdown_rx.try_recv().unwrap(), ShutdownReason::ControlPlaneQueueFull);
    assert_eq!(drained(&session.queues.control_plane_rx), vec![Bytes::from(vec![1])]);
}

fn describe(channel: &RawChannel) -> Option<u64> {
    if channel.topic() == "hidden" {
        None
    } else {
        Some(channel.id())
    }
}

fn render(ids: &Vec<u64>) -> String {
    format!("{:?}", ids)
}

fn text_of(frame: &Bytes) -> String {
    assert_eq!(frame[0], 1);
    String::from_utf8(frame[5..].to_vec()).unwrap()
}

#[test]
fn channels_are_advertised_in_batches() {
    let mut session = session_with(options());
    let channels: Vec<Arc<RawChannel>> = (0..205).map(|i| Arc::new(channel(i, "t"))).collect();
    assert!(session.client.add_channels(&channels, &describe, &render).is_none());
    let frames = drained(&session.queues.control_plane_rx);
    let ids = |range: std::ops::Range<u64>| render(&range.collect::<Vec<u64>>());
    let texts: Vec<String> = frames.iter().map(text_of).collect();
    assert_eq!(texts, vec![ids(0..100), ids(100..200), ids(200..205)]);
}

#[test]
fn no_channels_no_advertisement() {
    let mut session = session_with(options());
    assert!(session.client.add_channels(&vec![], &describe, &render).is_none());
    let hidden = vec![Arc::new(channel(1, "hidden"))];
    session.client.add_channels(&hidden, &describe, &render);
    assert!(drained(&session.queues.control_plane_rx).is_empty());
}

#[test]
fn what_cannot_be_described_is_left_out() {
    let mut session = session_with(options());
    let channels =
        vec![Arc::new(channel(1, "t")), Arc::new(channel(2, "hidden")), Arc::new(channel(3, "t"))];
    session.client.advertise_channels(&channels, &describe, &render);
    let frames = drained(&session.queues.control_plane_rx);
    assert_eq!(frames.len(), 1);
    assert_eq!(text_of(&frames[0]), "[1, 3]");
}

#[test]
fn the_filter_chooses_the_channels() {
    let filter = SinkChannelFilterFn::new(|c: &ChannelDescriptor| c.topic() == "yes" && c.id() > 1);
    let mut session = session_with(ServerOptions {
        channel_filter: Some(Arc::new(filter)),
        ..ServerOptions::default()
    });
    let channels =
        vec![Arc::new(channel(1, "yes")), Arc::new(channel(2, "yes")), Arc::new(channel(3, "no"))];
    session.client.add_channels(&channels, &describe, &render);
    let frames = drained(&session.queues.control_plane_rx);
    assert_eq!(frames.len(), 1);
    assert_eq!(text_of(&frames[0]), "[2]");
    assert!(AllChannels.should_subscribe(&ChannelDescriptor::new(1, String::from("no"))));
}

#[test]
fn a_removed_channel_is_unsubscribed_and_unadvertised() {
    let mut session = session_with(options());
    session.client.on_subscribe(5);
    session.client.on_subscribe(6);
    session.client.remove_channel(&channel(5, "/t"), &|id: u64| format!("gone {}", id));
    let frames = drained(&session.queues.control_plane_rx);
    assert_eq!(frames.len(), 1);
    assert_eq!(text_of(&frames[0]), "gone 5");
    assert!(session.client.on_subscribe(5));
    assert!(!session.client.on_subscribe(6));
}

fn only_yes() -> ServerOptions<impl SinkChannelFilter> {
    let filter = SinkChannelFilterFn::new(|c: &ChannelDescriptor| c.topic() == "yes");
    ServerOptions { channel_filter: Some(Arc::new(filter)), ..ServerOptions::default() }
}

#[test]
fn an_excluded_channel_cannot_be_had_by_asking() {
    let mut session = session_with(only_yes());
    let yes = channel(1, "yes");
    let no = channel(2, "no");
    let channels = vec![Arc::new(channel(1, "yes")), Arc::new(channel(2, "no"))];
    session.client.add_channels(&channels, &describe, &render);
    assert!(session.client.on_subscribe(1));
    assert!(!session.client.on_subscribe(2));
    assert_eq!(log(&mut session.client, &no, &[1]), None);
    assert!(drained(&session.queues.data_plane_rx).is_empty());
    assert_eq!(log(&mut session.client, &yes, &[1]), Some(SendLossyResult::Sent));
}

#[test]
fn what_the_filter_has_not_rejected_can_be_asked_for() {
    let mut session = session_with(only_yes());
    assert!(session.client.on_subscribe(1));
    assert!(!session.client.on_subscribe(1));
    let yes = channel(1, "yes");
    session.client.add_channels(&vec![Arc::new(channel(1, "yes"))], &describe, &render);
    assert_eq!(log(&mut session.client, &yes, &[1]), Some(SendLossyResult::Sent));
    session.client.remove_channel(&yes, &|id: u64| format!("gone {}", id));
    assert!(session.client.on_subscribe(1));
}

#[test]
fn a_rejected_channel_loses_its_subscription() {
    let mut session = session_with(only_yes());
    assert!(session.client.on_subscribe(2));
    session.client.add_channels(&vec![Arc::new(channel(2, "no"))], &describe, &render);
    assert_eq!(log(&mut session.client, &channel(2, "no"), &[1]), None);
    assert!(!session.client.on_subscribe(2));
    session.client.add_channels(&vec![Arc::new(channel(2, "yes"))], &describe, &render);
    assert!(session.client.on_subscribe(2));
}

#[test]
fn without_a_filter_any_channel_can_be_asked_for() {
    let mut session = session_with(options());
    assert!(session.client.on_subscribe(123));
}

#[test]
fn logging_leaves_the_datagram_queue_alone() {
    let mut session = session_with(ServerOptions {
        datagram_topic_patterns: vec![String::from("d")],
        ..options()
    });
    session.client.on_subscribe(5);
    let sent = log(&mut session.client, &channel(5, "d"), &vec![3u8; 4000]);
    assert_eq!(sent, Some(SendLossyResult::Sent));
    assert_eq!(session.queues.datagram_rx.len(), 1);
    assert_eq!(log(&mut session.client, &channel(6, "d"), &vec![3u8; 4000]), None);
    log(&mut session.client, &channel(5, "s"), &vec![3u8; 4000]);
    log(&mut session.client, &channel(5, "s"), &[1]);
    assert_eq!(session.queues.datagram_rx.len(), 1);
    assert_eq!(session.queues.data_plane_rx.len(), 2);
}

#[test]
fn the_largest_backlog_can_be_used() {
    let mut session = session_with(ServerOptions { message_backlog_size: usize::MAX, ..options() });
    let queues = &mut session.queues;
    let next = next_frame(&mut queues.control_plane_rx, &mut queues.data_plane_rx);
    assert!(matches!(next, Taken::Empty));
    session.client.on_subscribe(5);
    let sent = log(&mut session.client, &channel(5, "/t"), &[1]);
    assert_eq!(sent, Some(SendLossyResult::Sent));
    let queues = &mut session.queues;
    let next = next_frame(&mut queues.control_plane_rx, &mut queues.data_plane_rx);
    assert!(matches!(next, Taken::Frame(_)));
}
