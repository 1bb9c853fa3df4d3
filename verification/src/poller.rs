//! The decisions of a client's I/O loops: what each does after each thing that happens.
//!
//! The loops themselves wait for streams and queues; here is what they do with what they get.

use vstd::prelude::*;

use bytes::Bytes;
use flume::Receiver;
use serde_json::Value;

use crate::channel::SinkChannelFilter;
use crate::connected_client;
use crate::connected_client::{ClientState, ConnectedClient, ShutdownReason};
use crate::ext::queue::Taken;
use crate::ext::{json, queue, text};
use crate::framing;
use crate::framing::{parse_stream_header, StreamOpCode, MAX_MESSAGE_SIZE};

verus! {

/// A request about one channel: of a client to the server, or of a client's sink to its context.
#[derive(Debug, Clone, Copy, PartialEq, Eq, Structural)]
pub enum ChannelRequest {
    /// Subscribe to the channel.
    Subscribe(u64),
    /// Unsubscribe from the channel.
    Unsubscribe(u64),
}

/// The number that a document is, if it is one and an integer from 0 to 2^64 - 1.
pub open spec fn number(json: json::Json) -> Option<u64> {
    match json {
        json::Json::Number(n) => n,
        _ => None,
    }
}

/// The channel that an entry of a subscribe request names: the number that is its `id`.
pub open spec fn entry_id(entry: json::Json) -> Option<u64> {
    match json::member(entry, "id"@) {
        Some(id) => number(id),
        None => None,
    }
}

/// The documents of the list that the member of that name is; none where it is not a list.
pub open spec fn listed(json: json::Json, name: Seq<char>) -> Seq<json::Json> {
    match json::member(json, name) {
        Some(json::Json::Array(items)) => items,
        _ => Seq::empty(),
    }
}

/// What a JSON message of a client asks for, in order: `{"op": "subscribe", "channels": [{"id": n},
/// ..]}` and `{"op": "unsubscribe", "channelIds": [n, ..]}` ask for something, once for each number
/// that is there; nothing else does.
pub open spec fn requests_of(json: json::Json) -> Seq<ChannelRequest> {
    match json::member(json, "op"@) {
        Some(json::Json::Str(op)) => if op == "subscribe"@ {
            connected_client::given(
                listed(json, "channels"@).map_values(|entry: json::Json| entry_id(entry)),
            ).map_values(|id: u64| ChannelRequest::Subscribe(id))
        } else if op == "unsubscribe"@ {
            connected_client::given(
                listed(json, "channelIds"@).map_values(|id: json::Json| number(id)),
            ).map_values(|id: u64| ChannelRequest::Unsubscribe(id))
        } else {
            Seq::empty()
        },
        _ => Seq::empty(),
    }
}

fn same_text(a: &str, b: &str) -> (same: bool)
    ensures
        same == (a@ == b@),
{
    a.to_owned() == b.to_owned()
}

/// The documents of the list that the member of that name is, if it is a list.
fn list_of<'a>(value: &'a Value, name: &str) -> (items: Option<&'a Vec<Value>>)
    ensures
        match items {
            Some(list) => listed(json::json_of(*value), name@) == list@.map_values(
                |v: Value| json::json_of(v),
            ),
            None => listed(json::json_of(*value), name@).len() == 0,
        },
{
    match json::get(value, name) {
        Some(member) => json::as_array(member),
        None => None,
    }
}

/// What a JSON message of a client asks for; see `requests_of`.
pub fn client_requests(value: &Value) -> (requests: Vec<ChannelRequest>)
    ensures
        requests@ == requests_of(json::json_of(*value)),
{
    let mut requests: Vec<ChannelRequest> = Vec::new();
    let op = match json::get(value, "op") {
        Some(member) => match json::as_str(member) {
            Some(op) => op,
            None => {
                return requests;
            },
        },
        None => {
            return requests;
        },
    };
    let ghost document = json::json_of(*value);
    if same_text(op, "subscribe") {
        let ghost listed_entries = listed(document, "channels"@);
        let ghost ids = listed_entries.map_values(|entry: json::Json| entry_id(entry));
        let items = match list_of(value, "channels") {
            Some(items) => items,
            None => {
                assert(ids =~= Seq::empty());
                assert(requests@ =~= requests_of(document));
                return requests;
            },
        };
        assert(ids.take(0) =~= Seq::empty());
        assert(requests@ =~= connected_client::given(ids.take(0)).map_values(
            |id: u64| ChannelRequest::Subscribe(id),
        ));
        for i in 0..items.len()
            invariant
                ids.len() == items@.len(),
                forall|j: int|
                    0 <= j < items@.len() ==> ids[j] == entry_id(
                        json::json_of(#[trigger] items@[j]),
                    ),
                requests@ == connected_client::given(ids.take(i as int)).map_values(
                    |id: u64| ChannelRequest::Subscribe(id),
                ),
        {
            let item = &items[i];
            let found: Option<u64> = match json::get(item, "id") {
                Some(member) => json::as_u64(member),
                None => None,
            };
            assert(ids.take(i + 1).drop_last() =~= ids.take(i as int));
            assert(ids[i as int] == entry_id(json::json_of(items@[i as int])));
            if let Some(id) = found {
                requests.push(ChannelRequest::Subscribe(id));
            }
            assert(requests@ =~= connected_client::given(ids.take(i + 1)).map_values(
                |id: u64| ChannelRequest::Subscribe(id),
            ));
        }
        assert(ids.take(ids.len() as int) =~= ids);
    } else if same_text(op, "unsubscribe") {
        let ghost listed_entries = listed(document, "channelIds"@);
        let ghost ids = listed_entries.map_values(|id: json::Json| number(id));
        let items = match list_of(value, "channelIds") {
            Some(items) => items,
            None => {
                assert(ids =~= Seq::empty());
                assert(requests@ =~= requests_of(document));
                return requests;
            },
        };
        assert(ids.take(0) =~= Seq::empty());
        assert(requests@ =~= connected_client::given(ids.take(0)).map_values(
            |id: u64| ChannelRequest::Unsubscribe(id),
        ));
        for i in 0..items.len()
            invariant
                ids.len() == items@.len(),
                forall|j: int|
                    0 <= j < items@.len() ==> ids[j] == number(json::json_of(#[trigger] items@[j])),
                requests@ == connected_client::given(ids.take(i as int)).map_values(
                    |id: u64| ChannelRequest::Unsubscribe(id),
                ),
        {
            let found: Option<u64> = json::as_u64(&items[i]);
            assert(ids.take(i + 1).drop_last() =~= ids.take(i as int));
            assert(ids[i as int] == number(json::json_of(items@[i as int])));
            if let Some(id) = found {
                requests.push(ChannelRequest::Unsubscribe(id));
            }
            assert(requests@ =~= connected_client::given(ids.take(i + 1)).map_values(
                |id: u64| ChannelRequest::Unsubscribe(id),
            ));
        }
        assert(ids.take(ids.len() as int) =~= ids);
    }
    requests
}

/// The client after a request.
pub open spec fn requested(state: ClientState, request: ChannelRequest) -> ClientState {
    match request {
        ChannelRequest::Subscribe(id) => connected_client::subscribed(state, id),
        ChannelRequest::Unsubscribe(id) => connected_client::unsubscribed(state, id),
    }
}

/// The client after requests, in order.
pub open spec fn all_requested(
    state: ClientState,
    requests: Seq<ChannelRequest>,
) -> ClientState
    decreases requests.len(),
{
    if requests.len() == 0 {
        state
    } else {
        requested(all_requested(state, requests.drop_last()), requests.last())
    }
}

/// Whether the context is to be asked the same that a client in that state asks for: not where the
/// client asks for a channel that it is subscribed to, or cannot subscribe to.
pub open spec fn passed_on(state: ClientState, request: ChannelRequest) -> bool {
    match request {
        ChannelRequest::Subscribe(id) => connected_client::subscribes(state, id),
        ChannelRequest::Unsubscribe(_) => true,
    }
}

/// What the context is to be asked after requests of a client, in order.
pub open spec fn context_asked(
    state: ClientState,
    requests: Seq<ChannelRequest>,
) -> Seq<ChannelRequest>
    decreases requests.len(),
{
    if requests.len() == 0 {
        Seq::empty()
    } else {
        let asked = context_asked(state, requests.drop_last());
        if passed_on(all_requested(state, requests.drop_last()), requests.last()) {
            asked.push(requests.last())
        } else {
            asked
        }
    }
}

/// Does what a client requests. The result is what its context is then to be asked, in order.
pub fn apply_requests<F: SinkChannelFilter>(
    client: &mut ConnectedClient<F>,
    requests: &Vec<ChannelRequest>,
) -> (asked: Vec<ChannelRequest>)
    requires
        old(client).wf(),
    ensures
        final(client)@ == all_requested(old(client)@, requests@),
        asked@ == context_asked(old(client)@, requests@),
        final(client).wf(),
        final(client).filter() == old(client).filter(),
{
    let mut asked: Vec<ChannelRequest> = Vec::new();
    let ghost before = client@;
    assert(requests@.take(0) =~= Seq::empty());
    for i in 0..requests.len()
        invariant
            before == old(client)@,
            client.wf(),
            client.filter() == old(client).filter(),
            client@ == all_requested(before, requests@.take(i as int)),
            asked@ == context_asked(before, requests@.take(i as int)),
    {
        assert(requests@.take(i + 1).drop_last() =~= requests@.take(i as int));
        let request = requests[i];
        match request {
            ChannelRequest::Subscribe(id) => {
                if client.on_subscribe(id) {
                    asked.push(request);
                }
            },
            ChannelRequest::Unsubscribe(id) => {
                client.on_unsubscribe(id);
                asked.push(request);
            },
        }
    }
    assert(requests@.take(requests@.len() as int) =~= requests@);
    asked
}

/// What the text of a client's message asks for; nothing where it is not JSON.
pub open spec fn text_requests(text: Seq<char>) -> Seq<ChannelRequest> {
    match json::json_parsed(text) {
        Some(document) => requests_of(document),
        None => Seq::empty(),
    }
}

/// Handle a JSON message from the client.
///
/// Parses the `"op"` field and dispatches to the appropriate handler. The result is what the
/// client's context is then to be asked, in order; nothing where the text is not JSON.
pub fn handle_client_json<F: SinkChannelFilter>(
    client: &mut ConnectedClient<F>,
    text: &str,
) -> (asked: Option<Vec<ChannelRequest>>)
    requires
        old(client).wf(),
    ensures
        final(client)@ == all_requested(old(client)@, text_requests(text@)),
        asked is Some <==> json::json_parsed(text@) is Some,
        asked matches Some(list) ==> list@ == context_asked(
            old(client)@,
            text_requests(text@),
        ),
        final(client).wf(),
        final(client).filter() == old(client).filter(),
{
    match json::parse(text) {
        Some(value) => {
            let requests = client_requests(&value);
            Some(apply_requests(client, &requests))
        },
        None => None,
    }
}

/// What the read loop reads next.
#[derive(Debug, Clone, Copy, PartialEq, Eq, Structural)]
pub enum ReadStep {
    /// The header of a frame.
    Header,
    /// The payload of the frame whose header has been read.
    Payload {
        /// The frame's opcode byte.
        opcode: u8,
        /// The payload's length.
        len: usize,
    },
    /// Nothing: the client is gone, or it has announced too long a message.
    Stop,
}

/// What the read loop reads after a header, or after the stream has ended in place of one.
pub open spec fn step_after_header(header: Option<Seq<u8>>) -> ReadStep {
    match header {
        None => ReadStep::Stop,
        Some(bytes) => {
            let (opcode, len) = framing::stream_header(bytes);
            if len > MAX_MESSAGE_SIZE {
                ReadStep::Stop
            } else {
                ReadStep::Payload { opcode, len: len as usize }
            }
        },
    }
}

/// Decides what the read loop reads after a header, or after the stream has ended in place of one.
pub fn after_header(header: Option<[u8; 5]>) -> (step: ReadStep)
    ensures
        step == step_after_header(
            match header {
                Some(bytes) => Some(bytes@),
                None => None,
            },
        ),
{
    match header {
        None => ReadStep::Stop,
        Some(bytes) => {
            let (opcode, len) = parse_stream_header(&bytes);
            let len: usize = len as usize;
            if len > MAX_MESSAGE_SIZE {
                return ReadStep::Stop;
            }
            ReadStep::Payload { opcode, len }
        },
    }
}

/// What a frame of a client asks for: only a frame of text that is UTF-8 asks for anything.
pub open spec fn frame_requests(opcode: u8, payload: Seq<u8>) -> Seq<ChannelRequest> {
    if opcode == StreamOpCode::Text.code() && vstd::utf8::valid_utf8(payload) {
        text_requests(vstd::utf8::decode_utf8(payload))
    } else {
        Seq::empty()
    }
}

/// What came of a frame of a client.
pub enum FrameOutcome {
    /// The client's context is to be asked that, in order.
    Asked(Vec<ChannelRequest>),
    /// Nothing: the frame is said to be text, but is not UTF-8.
    NotUtf8,
    /// Nothing: the text is not JSON.
    NotJson,
    /// Nothing: clients have no such messages to send.
    Binary,
    /// Nothing: there is no such opcode.
    UnknownOpcode,
    /// Nothing: the stream ended before the end of the frame.
    Truncated,
}

/// Whether `outcome` is what comes of a frame of a client in that state.
pub open spec fn frame_outcome(
    state: ClientState,
    opcode: u8,
    payload: Seq<u8>,
    outcome: FrameOutcome,
) -> bool {
    if opcode == StreamOpCode::Text.code() {
        if !vstd::utf8::valid_utf8(payload) {
            outcome is NotUtf8
        } else if json::json_parsed(vstd::utf8::decode_utf8(payload)) is None {
            outcome is NotJson
        } else {
            outcome matches FrameOutcome::Asked(asked) && asked@ == context_asked(
                state,
                frame_requests(opcode, payload),
            )
        }
    } else if opcode == StreamOpCode::Binary.code() || opcode
        == StreamOpCode::CompressedBinary.code() {
        outcome is Binary
    } else {
        outcome is UnknownOpcode
    }
}

/// Handles a frame of the client, given its payload, or none where the stream ended before the end
/// of it. The result is what the read loop reads next, and what came of the frame.
pub fn after_payload<F: SinkChannelFilter>(
    client: &mut ConnectedClient<F>,
    opcode: u8,
    payload: Option<&[u8]>,
) -> (done: (ReadStep, FrameOutcome))
    requires
        old(client).wf(),
    ensures
        match payload {
            Some(bytes) => {
                &&& done.0 == ReadStep::Header
                &&& final(client)@ == all_requested(old(client)@, frame_requests(opcode, bytes@))
                &&& frame_outcome(old(client)@, opcode, bytes@, done.1)
            },
            None => {
                &&& done.0 == ReadStep::Stop
                &&& final(client)@ == old(client)@
                &&& done.1 is Truncated
            },
        },
        final(client).wf(),
        final(client).filter() == old(client).filter(),
{
    let bytes = match payload {
        Some(bytes) => bytes,
        None => {
            return (ReadStep::Stop, FrameOutcome::Truncated);
        },
    };
    let outcome = match StreamOpCode::from_u8(opcode) {
        Some(StreamOpCode::Text) => {
            // JSON message from client (subscribe, unsubscribe, etc.)
            match text::from_utf8(bytes) {
                Ok(text) => match handle_client_json(client, text) {
                    Some(asked) => FrameOutcome::Asked(asked),
                    None => FrameOutcome::NotJson,
                },
                Err(_) => FrameOutcome::NotUtf8,
            }
        },
        Some(StreamOpCode::Binary) | Some(StreamOpCode::CompressedBinary) => FrameOutcome::Binary,
        None => {
            assert(StreamOpCode::Text.code() != opcode);
            assert(StreamOpCode::Binary.code() != opcode);
            assert(StreamOpCode::CompressedBinary.code() != opcode);
            FrameOutcome::UnknownOpcode
        },
    };
    (ReadStep::Header, outcome)
}

/// What one look at a client's control queue and data queue does and gives: control messages go
/// before message data. The data queue is asked only where the control queue is open and no control
/// message is waiting; a queue that is closed ends the writing.
pub open spec fn one_round(
    control0: Seq<queue::Take>,
    data0: Seq<queue::Take>,
    control1: Seq<queue::Take>,
    data1: Seq<queue::Take>,
    next: queue::Take,
) -> bool {
    let control = control1.last();
    &&& control1 == control0.push(control)
    &&& if control is Empty {
        data1 == data0.push(next)
    } else {
        data1 == data0 && next == control
    }
}

/// The frame that goes out next, if one is waiting; else whether a queue is closed.
pub fn next_frame(control_rx: &mut Receiver<Bytes>, data_rx: &mut Receiver<Bytes>) -> (next: Taken)
    requires
        queue::receiver_capacity(*old(control_rx)) < usize::MAX,
        queue::receiver_capacity(*old(data_rx)) < usize::MAX,
    ensures
        one_round(
            queue::receiver_takes(*old(control_rx)),
            queue::receiver_takes(*old(data_rx)),
            queue::receiver_takes(*final(control_rx)),
            queue::receiver_takes(*final(data_rx)),
            next@,
        ),
        queue::receiver_channel(*final(control_rx)) == queue::receiver_channel(*old(control_rx)),
        queue::receiver_channel(*final(data_rx)) == queue::receiver_channel(*old(data_rx)),
        queue::receiver_capacity(*final(control_rx)) == queue::receiver_capacity(
            *old(control_rx),
        ),
        queue::receiver_capacity(*final(data_rx)) == queue::receiver_capacity(*old(data_rx)),
{
    let control = queue::try_recv(control_rx);
    if !matches!(control, Taken::Empty) {
        return control;
    }
    queue::try_recv(data_rx)
}

/// What happens in the write loop.
pub enum WriteEvent {
    /// One of the queues gave a frame.
    Frame(Bytes),
    /// The queue that was asked has no sending end left.
    QueueClosed,
    /// The frame has been written to the stream.
    Written,
    /// Writing to the stream failed.
    WriteFailed,
}

/// What the write loop does next.
pub enum WriteAction {
    /// Ask the queues for a frame.
    Receive,
    /// Write the frame to the stream.
    Write(Bytes),
    /// Nothing more.
    Stop,
}

/// Decides what the write loop does next: it writes frame after frame, until a queue is closed or
/// the stream fails.
pub fn write_step(event: WriteEvent) -> (action: WriteAction)
    ensures
        action == (match event {
            WriteEvent::Frame(frame) => WriteAction::Write(frame),
            WriteEvent::QueueClosed => WriteAction::Stop,
            WriteEvent::Written => WriteAction::Receive,
            WriteEvent::WriteFailed => WriteAction::Stop,
        }),
{
    match event {
        WriteEvent::Frame(frame) => WriteAction::Write(frame),
        WriteEvent::Written => WriteAction::Receive,
        WriteEvent::QueueClosed | WriteEvent::WriteFailed => WriteAction::Stop,
    }
}

/// Decides what the datagram loop does next, with the frames in place of which there are datagrams:
/// it sends datagram after datagram until the queue is closed. A datagram that cannot be sent is
/// lost.
pub fn datagram_step(event: WriteEvent) -> (action: WriteAction)
    ensures
        action == (match event {
            WriteEvent::Frame(datagram) => WriteAction::Write(datagram),
            WriteEvent::QueueClosed => WriteAction::Stop,
            WriteEvent::Written => WriteAction::Receive,
            WriteEvent::WriteFailed => WriteAction::Receive,
        }),
{
    match event {
        WriteEvent::Frame(datagram) => WriteAction::Write(datagram),
        WriteEvent::QueueClosed => WriteAction::Stop,
        WriteEvent::Written | WriteEvent::WriteFailed => WriteAction::Receive,
    }
}

/// What ended a client's I/O.
#[derive(Debug, Clone, Copy, PartialEq, Eq, Structural)]
pub enum LoopEnd {
    /// The write loop stopped: the connection is broken.
    WriteLoop,
    /// The datagram loop stopped.
    DatagramLoop,
    /// The read loop stopped: the client is gone.
    ReadLoop,
    /// The client was shut down, or can no longer be.
    Shutdown,
}

/// Ends a client's I/O: where the stream to or from it stopped, it counts as disconnected.
pub fn finish<F: SinkChannelFilter>(client: &mut ConnectedClient<F>, end: LoopEnd)
    requires
        old(client).wf(),
    ensures
        final(client)@ == (match end {
            LoopEnd::WriteLoop | LoopEnd::ReadLoop => connected_client::shut_down(
                old(client)@,
                ShutdownReason::ClientDisconnected,
            ),
            LoopEnd::DatagramLoop | LoopEnd::Shutdown => old(client)@,
        }),
        connected_client::signalled(old(client)@, final(client)@),
        final(client).wf(),
        final(client).filter() == old(client).filter(),
{
    match end {
        LoopEnd::WriteLoop | LoopEnd::ReadLoop => client.shutdown(
            ShutdownReason::ClientDisconnected,
        ),
        LoopEnd::DatagramLoop | LoopEnd::Shutdown => {},
    }
}

} // verus!
