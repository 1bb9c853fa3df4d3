use bytes::Bytes;
use tokio::sync::oneshot;

use foxglove_webtransport::channel::AllChannels;
use foxglove_webtransport::connected_client::{ClientIds, ConnectedClient, ShutdownReason, SinkId};
use foxglove_webtransport::ext::queue::Taken;
use foxglove_webtransport::framing::encode_json_frame;
use foxglove_webtransport::poller::{
    after_header, after_payload, apply_requests, client_requests, datagram_step, finish,
    handle_client_json, next_frame, write_step, ChannelRequest, FrameOutcome, LoopEnd, ReadStep,
    WriteAction, WriteEvent,
};
use foxglove_webtransport::server::{open_session, ServerOptions, SessionSettings};

fn client() -> (ConnectedClient<AllChannels>, oneshot::Receiver<ShutdownReason>) {
    let (settings, _) = SessionSettings::new(ServerOptions::default());
    let (shutdown_tx, shutdown_rx) = oneshot::channel();
    let (client, _) = open_session(
        &settings,
        &mut ClientIds::new(),
        SinkId(1),
        String::from("peer"),
        shutdown_tx,
    );
    (client, shutdown_rx)
}

use ChannelRequest::{Subscribe, Unsubscribe};

fn handled(client: &mut ConnectedClient<AllChannels>, text: &str) -> Vec<ChannelRequest> {
    handle_client_json(client, text).expect("should be JSON")
}

#[test]
fn subscribe_messages() {
    let (mut client, _rx) = client();
    let text = r#"{"op":"subscribe","channels":[{"id":3},{"id":4},{"id":3}]}"#;
    assert_eq!(handled(&mut client, text), vec![Subscribe(3), Subscribe(4)]);
    assert!(!client.on_subscribe(3));
    assert!(!client.on_subscribe(4));
}

#[test]
fn unsubscribe_messages() {
    let (mut client, _rx) = client();
    client.on_subscribe(3);
    let text = r#"{"op":"unsubscribe","channelIds":[3,9]}"#;
    assert_eq!(handled(&mut client, text), vec![Unsubscribe(3), Unsubscribe(9)]);
    assert!(client.on_subscribe(3));
}

#[test]
fn entries_without_a_number_are_passed_over() {
    let (mut client, _rx) = client();
    let text = r#"{"op":"subscribe","channels":[{"id":"3"},{"id":-4},{"no":5},7,{"id":1.5},{"id":8}]}"#;
    assert_eq!(handled(&mut client, text), vec![Subscribe(8)]);
    let text = r#"{"op":"unsubscribe","channelIds":["3",-4,null,{"id":5},8]}"#;
    assert_eq!(handled(&mut client, text), vec![Unsubscribe(8)]);
}

#[test]
fn other_messages_ask_for_nothing() {
    let (mut client, _rx) = client();
    for text in ["", "not json", "{"] {
        assert!(handle_client_json(&mut client, text).is_none(), "{text}");
    }
    for text in [
        "[]",
        "3",
        "{}",
        r#"{"op":3}"#,
        r#"{"op":"getParameters"}"#,
        r#"{"op":"subscribe"}"#,
        r#"{"op":"subscribe","channels":{"id":3}}"#,
        r#"{"op":"subscribe","channelIds":[3]}"#,
        r#"{"op":"unsubscribe","channels":[{"id":3}]}"#,
        r#"{"op":"Subscribe","channels":[{"id":3}]}"#,
        r#"["op","subscribe"]"#,
    ] {
        assert!(handled(&mut client, text).is_empty(), "{text}");
    }
}

#[test]
fn requests_of_a_document() {
    let value = serde_json::from_str(r#"{"channels":[{"id":1},{"id":1}],"op":"subscribe"}"#).unwrap();
    assert_eq!(client_requests(&value), vec![Subscribe(1), Subscribe(1)]);
    let value = serde_json::from_str(r#"{"op":"unsubscribe","channelIds":[18446744073709551615]}"#).unwrap();
    assert_eq!(client_requests(&value), vec![Unsubscribe(u64::MAX)]);
}

#[test]
fn the_last_request_decides() {
    let (mut client, _rx) = client();
    let requests = vec![Subscribe(1), Subscribe(2), Unsubscribe(1), Unsubscribe(2), Subscribe(2)];
    assert_eq!(apply_requests(&mut client, &requests), requests);
    assert!(client.on_subscribe(1));
    assert!(!client.on_subscribe(2));
}

#[test]
fn a_sent_text_is_handled() {
    let (mut client, _rx) = client();
    let frame = encode_json_frame(r#"{"op":"subscribe","channels":[{"id":3}]}"#);
    let mut header = [0u8; 5];
    header.copy_from_slice(&frame[..5]);
    let step = after_header(Some(header));
    assert_eq!(step, ReadStep::Payload { opcode: 1, len: frame.len() - 5 });
    let (step, outcome) = after_payload(&mut client, 1, Some(&frame[5..]));
    assert_eq!(step, ReadStep::Header);
    assert!(matches!(outcome, FrameOutcome::Asked(asked) if asked == vec![Subscribe(3)]));
}

/// Reads the bytes as the read loop does, and gives what the context is to be asked meanwhile.
fn read(client: &mut ConnectedClient<AllChannels>, mut bytes: &[u8]) -> Vec<ChannelRequest> {
    let mut asked = Vec::new();
    let mut step = ReadStep::Header;
    loop {
        step = match step {
            ReadStep::Header => {
                let header = bytes.get(..5).map(|h| h.try_into().unwrap());
                bytes = bytes.get(5..).unwrap_or_default();
                after_header(header)
            }
            ReadStep::Payload { opcode, len } => {
                let (next, outcome) = after_payload(client, opcode, bytes.get(..len));
                bytes = bytes.get(len..).unwrap_or_default();
                if let FrameOutcome::Asked(requests) = outcome {
                    asked.extend(requests);
                }
                next
            }
            ReadStep::Stop => return asked,
        };
    }
}

#[test]
fn frames_are_read_one_after_the_other() {
    let (mut client, _rx) = client();
    let mut bytes = Vec::new();
    bytes.extend_from_slice(&encode_json_frame(r#"{"op":"subscribe","channels":[{"id":3}]}"#));
    bytes.extend_from_slice(&[2, 1, 0, 0, 0, 9]);
    bytes.extend_from_slice(&encode_json_frame("no json"));
    bytes.extend_from_slice(&encode_json_frame(r#"{"op":"unsubscribe","channelIds":[3]}"#));
    let last = encode_json_frame(r#"{"op":"subscribe","channels":[{"id":4}]}"#);
    bytes.extend_from_slice(&last);
    let asked = vec![Subscribe(3), Unsubscribe(3), Subscribe(4)];
    assert_eq!(read(&mut client, &bytes), asked);
    // Cut short, the last frame asks for nothing.
    let (mut client, _rx) = self::client();
    assert_eq!(read(&mut client, &bytes[..bytes.len() - 1]), asked[..2]);
    // After a frame that is too long, nothing is read.
    let (mut client, _rx) = self::client();
    let mut long = vec![1, 1, 0, 0, 1];
    long.extend_from_slice(&last);
    assert!(read(&mut client, &long).is_empty());
}

#[test]
fn too_long_a_message_ends_the_reading() {
    assert_eq!(
        after_header(Some([1, 0, 0, 0, 1])),
        ReadStep::Payload { opcode: 1, len: 16 * 1024 * 1024 }
    );
    assert_eq!(after_header(Some([1, 1, 0, 0, 1])), ReadStep::Stop);
    assert_eq!(after_header(Some([1, 255, 255, 255, 255])), ReadStep::Stop);
    assert_eq!(after_header(Some([77, 0, 0, 0, 0])), ReadStep::Payload { opcode: 77, len: 0 });
    assert_eq!(after_header(None), ReadStep::Stop);
}

#[test]
fn other_frames_do_not_end_the_reading() {
    let (mut client, _rx) = client();
    let text = br#"{"op":"subscribe","channels":[{"id":3}]}"#;
    for opcode in [2, 3] {
        let (step, outcome) = after_payload(&mut client, opcode, Some(&text[..]));
        assert_eq!(step, ReadStep::Header);
        assert!(matches!(outcome, FrameOutcome::Binary));
    }
    for opcode in [0, 4, 255] {
        let (step, outcome) = after_payload(&mut client, opcode, Some(&text[..]));
        assert_eq!(step, ReadStep::Header);
        assert!(matches!(outcome, FrameOutcome::UnknownOpcode));
    }
    let (step, outcome) = after_payload(&mut client, 1, Some(&[0xff, 0xfe]));
    assert_eq!(step, ReadStep::Header);
    assert!(matches!(outcome, FrameOutcome::NotUtf8));
    let (step, outcome) = after_payload(&mut client, 1, Some(b"not json"));
    assert_eq!(step, ReadStep::Header);
    assert!(matches!(outcome, FrameOutcome::NotJson));
    let (step, outcome) = after_payload(&mut client, 1, None);
    assert_eq!(step, ReadStep::Stop);
    assert!(matches!(outcome, FrameOutcome::Truncated));
    assert!(client.on_subscribe(3));
}

#[test]
fn control_messages_go_first() {
    let (control_tx, mut control_rx) = flume::bounded(4);
    let (data_tx, mut data_rx) = flume::bounded(4);
    data_tx.send(Bytes::from(vec![1])).unwrap();
    control_tx.send(Bytes::from(vec![2])).unwrap();
    data_tx.send(Bytes::from(vec![3])).unwrap();
    control_tx.send(Bytes::from(vec![4])).unwrap();
    let mut order = Vec::new();
    while let Taken::Frame(frame) = next_frame(&mut control_rx, &mut data_rx) {
        order.push(frame[0]);
    }
    assert_eq!(order, vec![2, 4, 1, 3]);
}

#[test]
fn a_closed_queue_ends_the_writing() {
    let (control_tx, mut control_rx) = flume::bounded(4);
    let (data_tx, mut data_rx) = flume::bounded(4);
    assert!(matches!(next_frame(&mut control_rx, &mut data_rx), Taken::Empty));
    data_tx.send(Bytes::from(vec![1])).unwrap();
    control_tx.send(Bytes::from(vec![2])).unwrap();
    drop(control_tx);
    assert!(matches!(next_frame(&mut control_rx, &mut data_rx), Taken::Frame(f) if f[0] == 2));
    assert!(matches!(next_frame(&mut control_rx, &mut data_rx), Taken::Disconnected));
    assert_eq!(data_rx.len(), 1);
    let (_control_tx, mut control_rx) = flume::bounded(4);
    drop(data_tx);
    assert!(matches!(next_frame(&mut control_rx, &mut data_rx), Taken::Frame(f) if f[0] == 1));
    assert!(matches!(next_frame(&mut control_rx, &mut data_rx), Taken::Disconnected));
}

#[test]
fn write_loop_steps() {
    let frame = Bytes::from(vec![1]);
    assert!(matches!(write_step(WriteEvent::Frame(frame.clone())), WriteAction::Write(f) if f == frame));
    assert!(matches!(write_step(WriteEvent::Written), WriteAction::Receive));
    assert!(matches!(write_step(WriteEvent::WriteFailed), WriteAction::Stop));
    assert!(matches!(write_step(WriteEvent::QueueClosed), WriteAction::Stop));
}

#[test]
fn datagram_loop_steps() {
    let frame = Bytes::from(vec![1]);
    assert!(matches!(datagram_step(WriteEvent::Frame(frame.clone())), WriteAction::Write(f) if f == frame));
    assert!(matches!(datagram_step(WriteEvent::Written), WriteAction::Receive));
    assert!(matches!(datagram_step(WriteEvent::WriteFailed), WriteAction::Receive));
    assert!(matches!(datagram_step(WriteEvent::QueueClosed), WriteAction::Stop));
}

#[test]
fn a_broken_stream_disconnects() {
    for end in [LoopEnd::WriteLoop, LoopEnd::ReadLoop] {
        let (mut client, mut rx) = client();
        finish(&mut client, end);
        assert_eq!(rx.try_recv().unwrap(), ShutdownReason::ClientDisconnected);
    }
    for end in [LoopEnd::DatagramLoop, LoopEnd::Shutdown] {
        let (mut client, mut rx) = client();
        finish(&mut client, end);
        assert!(rx.try_recv().is_err());
    }
}
