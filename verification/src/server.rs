//! The server: what it is set up with, and what it does with each client that connects.

use vstd::prelude::*;
use vstd::string::StringExecFns;

use std::sync::Arc;

use bytes::Bytes;
use flume::Receiver;
use regex::Regex;
use tokio::sync::oneshot;
use tokio_util::sync::CancellationToken;

use crate::channel::SinkChannelFilter;
use crate::compression::{Compressor, DEFAULT_COMPRESSION_LEVEL};
use crate::connected_client;
use crate::connected_client::{
    ClientId, ClientIds, ConnectedClient, QueueView, ShutdownReason, SinkId,
};
use crate::decimal;
use crate::error::FoxgloveError;
use crate::ext::{pattern, queue, signal};

verus! {

/// Default message backlog size per client.
pub const DEFAULT_MESSAGE_BACKLOG_SIZE: usize = 1024;

/// Default maximum QUIC datagram size.
pub const DEFAULT_MAX_DATAGRAM_SIZE: usize = 1200;

/// The port that a server listens on unless it is told another.
pub const DEFAULT_PORT: u16 = 8766;

/// TLS identity for the WebTransport server.
///
/// QUIC mandates TLS 1.3: there is no unencrypted mode.
#[derive(Debug)]
pub struct TlsIdentity {
    /// Filesystem path to a PEM-encoded x509 certificate chain.
    pub cert_path: String,
    /// Filesystem path to a PEM-encoded PKCS8 private key.
    pub key_path: String,
}

impl Clone for TlsIdentity {
    fn clone(&self) -> (other: Self)
        ensures
            other == *self,
    {
        TlsIdentity { cert_path: self.cert_path.clone(), key_path: self.key_path.clone() }
    }
}

/// Options for creating a WebTransport server.
pub struct ServerOptions<F: SinkChannelFilter> {
    /// The host to bind to.
    pub host: String,
    /// The port to bind to; 0 for any that is free.
    pub port: u16,
    /// The certificate and the key.
    pub tls: TlsIdentity,
    /// The zstd level of the messages that clients are sent.
    pub compression_level: i32,
    /// The number of frames that each queue of a client holds.
    pub message_backlog_size: usize,
    /// The longest datagram.
    pub max_datagram_size: usize,
    /// The patterns of the topics that go by datagram.
    pub datagram_topic_patterns: Vec<String>,
    /// The filter that chooses the channels that clients get to see, if there is one.
    pub channel_filter: Option<Arc<F>>,
}

impl<F: SinkChannelFilter> Default for ServerOptions<F> {
    fn default() -> (options: Self)
        ensures
            options.host@ == "0.0.0.0"@,
            options.port == 8766,
            options.tls.cert_path@.len() == 0,
            options.tls.key_path@.len() == 0,
            options.compression_level == 1,
            options.message_backlog_size == 1024,
            options.max_datagram_size == 1200,
            options.datagram_topic_patterns@.len() == 0,
            options.channel_filter is None,
    {
        ServerOptions {
            host: String::from_str("0.0.0.0"),
            port: DEFAULT_PORT,
            tls: TlsIdentity { cert_path: String::new(), key_path: String::new() },
            compression_level: DEFAULT_COMPRESSION_LEVEL,
            message_backlog_size: DEFAULT_MESSAGE_BACKLOG_SIZE,
            max_datagram_size: DEFAULT_MAX_DATAGRAM_SIZE,
            datagram_topic_patterns: Vec::new(),
            channel_filter: None,
        }
    }
}

/// The texts of strings.
pub open spec fn texts(strings: Seq<String>) -> Seq<Seq<char>> {
    strings.map_values(|s: String| s@)
}

/// The texts among `patterns` that are patterns, in order.
pub open spec fn compiling(patterns: Seq<Seq<char>>) -> Seq<Seq<char>>
    decreases patterns.len(),
{
    if patterns.len() == 0 {
        Seq::empty()
    } else if pattern::pattern_compiles(patterns.last()) {
        compiling(patterns.drop_last()).push(patterns.last())
    } else {
        compiling(patterns.drop_last())
    }
}

/// The texts among `patterns` that are not patterns, in order.
pub open spec fn not_compiling(patterns: Seq<Seq<char>>) -> Seq<Seq<char>>
    decreases patterns.len(),
{
    if patterns.len() == 0 {
        Seq::empty()
    } else if pattern::pattern_compiles(patterns.last()) {
        not_compiling(patterns.drop_last())
    } else {
        not_compiling(patterns.drop_last()).push(patterns.last())
    }
}

/// Keeps what came of compiling a pattern, where something did, and else the pattern's text.
pub fn keep_compiled(
    kept: &mut Vec<Regex>,
    rejected: &mut Vec<String>,
    text: &String,
    compiled: Option<Regex>,
)
    ensures
        match compiled {
            Some(p) => {
                &&& final(kept)@ == old(kept)@.push(p)
                &&& final(rejected)@ == old(rejected)@
            },
            None => {
                &&& final(kept)@ == old(kept)@
                &&& final(rejected)@ == old(rejected)@.push(*text)
            },
        },
{
    match compiled {
        Some(p) => kept.push(p),
        None => rejected.push(text.clone()),
    }
}

/// Compiles datagram topic patterns. Texts that are not patterns are passed over; the second result
/// is those.
pub fn compile_patterns(patterns: &Vec<String>) -> (compiled: (Vec<Regex>, Vec<String>))
    ensures
        connected_client::pattern_texts(compiled.0@) == compiling(texts(patterns@)),
        texts(compiled.1@) == not_compiling(texts(patterns@)),
{
    let mut kept: Vec<Regex> = Vec::new();
    let mut rejected: Vec<String> = Vec::new();
    let ghost all = texts(patterns@);
    assert(all.take(0) =~= Seq::empty());
    assert(connected_client::pattern_texts(kept@) =~= Seq::empty());
    assert(texts(rejected@) =~= Seq::empty());
    for i in 0..patterns.len()
        invariant
            all == texts(patterns@),
            connected_client::pattern_texts(kept@) == compiling(all.take(i as int)),
            texts(rejected@) == not_compiling(all.take(i as int)),
    {
        let ghost kept_before = kept@;
        let ghost rejected_before = rejected@;
        let compiled = pattern::compile(patterns[i].as_str());
        keep_compiled(&mut kept, &mut rejected, &patterns[i], compiled);
        proof {
            assert(all.take(i + 1).drop_last() =~= all.take(i as int));
            assert(all[i as int] == patterns@[i as int]@);
            if pattern::pattern_compiles(all[i as int]) {
                assert(connected_client::pattern_texts(kept@) =~= connected_client::pattern_texts(
                    kept_before,
                ).push(all[i as int]));
            } else {
                assert(texts(rejected@) =~= texts(rejected_before).push(all[i as int]));
            }
        }
    }
    assert(all.take(all.len() as int) =~= all);
    (kept, rejected)
}

/// The text of the address that a server binds to: host, colon, port.
pub fn bind_address(host: &str, port: u16) -> (address: String)
    ensures
        address@ == host@ + ":"@ + decimal::decimal(port as nat),
{
    let mut address = String::from_str(host);
    address.append(":");
    decimal::push_decimal(&mut address, port as u64);
    address
}

/// The error where the address to bind to is not one.
pub fn invalid_bind_address(reason: &str) -> (error: FoxgloveError)
    ensures
        error matches FoxgloveError::ValueError(text) && text@ == "Invalid bind address: "@
            + reason@,
{
    FoxgloveError::ValueError(String::from_str("Invalid bind address: ").concat(reason))
}

/// The error where the certificate or the key cannot be loaded.
pub fn invalid_tls_identity(reason: &str) -> (error: FoxgloveError)
    ensures
        error matches FoxgloveError::ValueError(text) && text@ == "Failed to load TLS identity: "@
            + reason@,
{
    FoxgloveError::ValueError(String::from_str("Failed to load TLS identity: ").concat(reason))
}

/// What every client of a server is set up with.
pub struct SessionSettings<F: SinkChannelFilter> {
    compression_level: i32,
    message_backlog_size: usize,
    max_datagram_size: usize,
    datagram_patterns: Vec<Regex>,
    channel_filter: Option<Arc<F>>,
}

/// What every client of a server is set up with, seen from outside.
#[verifier::ext_equal]
pub struct SessionSettingsView<F: SinkChannelFilter> {
    /// The zstd level.
    pub compression_level: i32,
    /// The number of frames that each queue holds.
    pub message_backlog_size: usize,
    /// The longest datagram.
    pub max_datagram_size: usize,
    /// The patterns of the topics that go by datagram.
    pub patterns: Seq<Seq<char>>,
    /// The filter, if there is one.
    pub filter: Option<Arc<F>>,
}

impl<F: SinkChannelFilter> View for SessionSettings<F> {
    type V = SessionSettingsView<F>;

    closed spec fn view(&self) -> SessionSettingsView<F> {
        SessionSettingsView {
            compression_level: self.compression_level,
            message_backlog_size: self.message_backlog_size,
            max_datagram_size: self.max_datagram_size,
            patterns: connected_client::pattern_texts(self.datagram_patterns@),
            filter: self.channel_filter,
        }
    }
}

impl<F: SinkChannelFilter> SessionSettings<F> {
    /// What the clients of a server with those options are set up with. The second result is the
    /// texts among the topic patterns that are not patterns, in order.
    pub fn new(options: ServerOptions<F>) -> (settings: (Self, Vec<String>))
        ensures
            settings.0@ == (SessionSettingsView {
                compression_level: options.compression_level,
                message_backlog_size: options.message_backlog_size,
                max_datagram_size: options.max_datagram_size,
                patterns: compiling(texts(options.datagram_topic_patterns@)),
                filter: options.channel_filter,
            }),
            texts(settings.1@) == not_compiling(texts(options.datagram_topic_patterns@)),
    {
        let (datagram_patterns, rejected) = compile_patterns(&options.datagram_topic_patterns);
        let settings = SessionSettings {
            compression_level: options.compression_level,
            message_backlog_size: options.message_backlog_size,
            max_datagram_size: options.max_datagram_size,
            datagram_patterns,
            channel_filter: options.channel_filter,
        };
        (settings, rejected)
    }
}

/// The receiving ends that a client's I/O loops drain.
pub struct SessionQueues {
    /// Of the queue of message data.
    pub data_plane_rx: Receiver<Bytes>,
    /// Of the queue of control messages.
    pub control_plane_rx: Receiver<Bytes>,
    /// Of the queue of datagrams.
    pub datagram_rx: Receiver<Bytes>,
}

/// Copies of the patterns.
fn clone_patterns(patterns: &Vec<Regex>) -> (copies: Vec<Regex>)
    ensures
        connected_client::pattern_texts(copies@) == connected_client::pattern_texts(patterns@),
{
    let mut copies: Vec<Regex> = Vec::new();
    for i in 0..patterns.len()
        invariant
            copies@.len() == i,
            forall|j: int|
                0 <= j < i ==> pattern::pattern_text(#[trigger] copies@[j])
                    == pattern::pattern_text(patterns@[j]),
    {
        copies.push(pattern::clone_pattern(&patterns[i]));
    }
    assert(connected_client::pattern_texts(copies@) =~= connected_client::pattern_texts(
        patterns@,
    ));
    copies
}

/// The number of frames that each queue of a client is made to hold: the backlog size, or one less
/// where no queue can be made so long.
pub open spec fn queue_capacity(message_backlog_size: usize) -> nat {
    if message_backlog_size == usize::MAX {
        (usize::MAX - 1) as nat
    } else {
        message_backlog_size as nat
    }
}

/// Opens a session for a client that has connected from the address `label`: the client, with the
/// next identifier and new queues, and the receiving ends of those queues. `shutdown_tx` is the
/// sending end of its shutdown signal.
pub fn open_session<F: SinkChannelFilter>(
    settings: &SessionSettings<F>,
    ids: &mut ClientIds,
    sink_id: SinkId,
    label: String,
    shutdown_tx: oneshot::Sender<ShutdownReason>,
) -> (session: (ConnectedClient<F>, SessionQueues))
    ensures
        ({
            let client = session.0;
            let queues = session.1;
            let kept = client@.settings;
            let backlog = queue_capacity(settings@.message_backlog_size);
            &&& client@ == connected_client::fresh_client(kept, shutdown_tx)
            &&& kept.id.value() == old(ids).next_value()
            &&& kept.sink_id == sink_id
            &&& kept.label == label@
            &&& kept.level == settings@.compression_level
            &&& kept.patterns == settings@.patterns
            &&& kept.max_datagram_size == settings@.max_datagram_size
            &&& kept.data_queue == (QueueView {
                channel: queue::receiver_channel(queues.data_plane_rx),
                capacity: backlog,
            })
            &&& kept.control_queue == (QueueView {
                channel: queue::receiver_channel(queues.control_plane_rx),
                capacity: backlog,
            })
            &&& kept.datagram_queue == (QueueView {
                channel: queue::receiver_channel(queues.datagram_rx),
                capacity: backlog,
            })
            &&& queue::receiver_capacity(queues.data_plane_rx) == backlog
            &&& queue::receiver_capacity(queues.control_plane_rx) == backlog
            &&& queue::receiver_capacity(queues.datagram_rx) == backlog
            &&& client.filter() == settings@.filter
            &&& client.wf()
        }),
        final(ids).next_value() == connected_client::following(old(ids).next_value()),
{
    let backlog: usize = if settings.message_backlog_size == usize::MAX {
        usize::MAX - 1
    } else {
        settings.message_backlog_size
    };
    let (data_tx, data_rx) = queue::bounded(backlog);
    let (control_tx, control_rx) = queue::bounded(backlog);
    let (datagram_tx, datagram_rx) = queue::bounded(backlog);
    let queues = SessionQueues {
        data_plane_rx: queue::clone_receiver(&data_rx),
        control_plane_rx: control_rx,
        datagram_rx: queue::clone_receiver(&datagram_rx),
    };
    let filter = match &settings.channel_filter {
        Some(filter) => Some(Arc::clone(filter)),
        None => None,
    };
    let client = ConnectedClient::new(
        ClientId::next(ids),
        sink_id,
        label,
        filter,
        Compressor::new(settings.compression_level),
        clone_patterns(&settings.datagram_patterns),
        settings.max_datagram_size,
        data_tx,
        data_rx,
        control_tx,
        datagram_tx,
        datagram_rx,
        shutdown_tx,
    );
    assert(client@ =~= connected_client::fresh_client(client@.settings, shutdown_tx));
    (client, queues)
}

/// What happens in the accept loop.
#[derive(Debug, Clone, Copy, PartialEq, Eq, Structural)]
pub enum AcceptEvent {
    /// The server has been stopped.
    Cancelled,
    /// A connection came to nothing.
    ConnectionFailed,
    /// A connection was made, but its session came to nothing.
    SessionFailed,
    /// A client has connected.
    Connected,
}

/// What the accept loop does next.
#[derive(Debug, Clone, Copy, PartialEq, Eq, Structural)]
pub enum AcceptAction {
    /// Wait for the next connection.
    Accept,
    /// Open a session for the client, then wait for the next connection.
    OpenSession,
    /// Nothing more.
    Stop,
}

/// Decides what the accept loop does next: only a stop ends it.
pub fn accept_step(event: AcceptEvent) -> (action: AcceptAction)
    ensures
        action == (match event {
            AcceptEvent::Cancelled => AcceptAction::Stop,
            AcceptEvent::ConnectionFailed => AcceptAction::Accept,
            AcceptEvent::SessionFailed => AcceptAction::Accept,
            AcceptEvent::Connected => AcceptAction::OpenSession,
        }),
{
    match event {
        AcceptEvent::Cancelled => AcceptAction::Stop,
        AcceptEvent::ConnectionFailed | AcceptEvent::SessionFailed => AcceptAction::Accept,
        AcceptEvent::Connected => AcceptAction::OpenSession,
    }
}

/// The address of a socket.
#[derive(Debug)]
pub struct SocketAddress {
    /// The text of the IP address.
    pub ip: String,
    /// The port.
    pub port: u16,
}

/// A running WebTransport server.
pub struct ServerHandle {
    addr: SocketAddress,
    cancel: CancellationToken,
}

impl ServerHandle {
    /// The address the server is bound to.
    pub closed spec fn address(&self) -> SocketAddress {
        self.addr
    }

    /// Whether the server has been stopped through this handle.
    pub closed spec fn stopped(&self) -> bool {
        signal::cancelled(self.cancel)
    }

    /// The token that stops the server.
    pub closed spec fn token(&self) -> int {
        signal::token_of(self.cancel)
    }

    /// The handle of a server that is bound to `addr` and stops when `cancel` is cancelled.
    pub fn new(addr: SocketAddress, cancel: CancellationToken) -> (handle: Self)
        ensures
            handle.address() == addr,
            handle.stopped() == signal::cancelled(cancel),
            handle.token() == signal::token_of(cancel),
    {
        ServerHandle { addr, cancel }
    }

    /// Returns the port the server is listening on.
    pub fn port(&self) -> (port: u16)
        ensures
            port == self.address().port,
    {
        self.addr.port
    }

    /// Returns the address the server is bound to.
    pub fn addr(&self) -> (addr: &SocketAddress)
        ensures
            *addr == self.address(),
    {
        &self.addr
    }

    /// Stop the server.
    pub fn stop(&mut self)
        ensures
            final(self).stopped(),
            final(self).token() == old(self).token(),
            final(self).address() == old(self).address(),
    {
        signal::cancel(&mut self.cancel);
    }
}

} // verus!
