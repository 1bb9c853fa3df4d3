//! Public builder API for the WebTransport server.

use vstd::prelude::*;
use vstd::string::StringExecFns;

use std::sync::Arc;

use crate::channel::{AllChannels, ChannelDescriptor, SinkChannelFilter, SinkChannelFilterFn};
use crate::context::Context;
use crate::error::FoxgloveError;
use crate::server;
use crate::server::{
    ServerHandle, ServerOptions, SocketAddress, TlsIdentity, DEFAULT_MAX_DATAGRAM_SIZE,
    DEFAULT_MESSAGE_BACKLOG_SIZE, DEFAULT_PORT,
};

verus! {

/// A WebTransport server for compressed live visualization over QUIC.
///
/// After the server is started, a client connects over WebTransport (HTTP/3) and receives
/// zstd-compressed message data.
///
/// ### Compression
///
/// All binary message payloads are zstd-compressed before transmission. The compression level is
/// configurable (1 = fastest, 19 = best ratio). Level 1 is recommended for real-time use.
///
/// ### Datagrams
///
/// Topics matching the `datagram_topics` patterns are sent as QUIC datagrams (unreliable,
/// unordered). This avoids head-of-line blocking for high-frequency sensor data like point clouds.
/// Messages that exceed the datagram size after compression fall back to reliable stream delivery.
///
/// ### TLS
///
/// QUIC mandates TLS 1.3. A certificate and private key must be provided.
#[must_use]
pub struct WebTransportServer<F: SinkChannelFilter> {
    host: String,
    port: u16,
    tls: Option<TlsIdentity>,
    compression_level: i32,
    message_backlog_size: Option<usize>,
    max_datagram_size: Option<usize>,
    datagram_topic_patterns: Vec<String>,
    channel_filter: Option<Arc<F>>,
    context: Arc<Context>,
}

/// What a server has been told, seen from outside.
#[verifier::ext_equal]
pub struct ServerView<F: SinkChannelFilter> {
    /// The host to bind to.
    pub host: Seq<char>,
    /// The port to bind to.
    pub port: u16,
    /// The certificate and the key, if they are given.
    pub tls: Option<TlsIdentity>,
    /// The zstd level.
    pub compression_level: int,
    /// The message backlog size, if it is given.
    pub message_backlog_size: Option<usize>,
    /// The longest datagram, if it is given.
    pub max_datagram_size: Option<usize>,
    /// The patterns of the topics that go by datagram.
    pub patterns: Seq<Seq<char>>,
    /// The filter, if there is one.
    pub filter: Option<Arc<F>>,
    /// The context.
    pub context: Arc<Context>,
}

/// The compression level that stands for `level`: the nearest from 1 to 19.
pub open spec fn clamped_level(level: int) -> int {
    if level < 1 {
        1
    } else if level > 19 {
        19
    } else {
        level
    }
}

impl<F: SinkChannelFilter> View for WebTransportServer<F> {
    type V = ServerView<F>;

    closed spec fn view(&self) -> ServerView<F> {
        ServerView {
            host: self.host@,
            port: self.port,
            tls: self.tls,
            compression_level: self.compression_level as int,
            message_backlog_size: self.message_backlog_size,
            max_datagram_size: self.max_datagram_size,
            patterns: server::texts(self.datagram_topic_patterns@),
            filter: self.channel_filter,
            context: self.context,
        }
    }
}

/// What a server that has been told nothing does.
pub open spec fn is_default<F: SinkChannelFilter>(view: ServerView<F>) -> bool {
    &&& view.host == "0.0.0.0"@
    &&& view.port == 8766
    &&& view.tls is None
    &&& view.compression_level == 1
    &&& view.message_backlog_size is None
    &&& view.max_datagram_size is None
    &&& view.patterns.len() == 0
    &&& view.filter is None
    &&& view.context.spec_id() == 0
}

impl<F: SinkChannelFilter> Default for WebTransportServer<F> {
    fn default() -> (server: Self)
        ensures
            is_default(server@),
    {
        WebTransportServer {
            host: String::from_str("0.0.0.0"),
            port: DEFAULT_PORT,
            tls: None,
            compression_level: 1,
            message_backlog_size: None,
            max_datagram_size: None,
            datagram_topic_patterns: Vec::new(),
            channel_filter: None,
            context: Context::get_default(),
        }
    }
}

impl WebTransportServer<AllChannels> {
    /// Creates a new WebTransport server builder with default options.
    pub fn new() -> (server: Self)
        ensures
            is_default(server@),
    {
        WebTransportServer::default()
    }
}

impl<F: SinkChannelFilter> WebTransportServer<F> {
    /// The compression level is one that zstd has.
    #[verifier::type_invariant]
    closed spec fn level_in_range(self) -> bool {
        1 <= self.compression_level <= 19
    }

    /// Set the bind address and port.
    ///
    /// `port` may be 0, in which case an available port will be automatically selected.
    /// Default: `0.0.0.0:8766`.
    pub fn bind(self, host: &str, port: u16) -> (server: Self)
        ensures
            server@ == (ServerView { host: host@, port, ..self@ }),
    {
        proof {
            use_type_invariant(&self);
        }
        WebTransportServer { host: String::from_str(host), port, ..self }
    }

    /// Set the TLS identity (required).
    ///
    /// QUIC mandates TLS 1.3: the server will not start without a certificate.
    pub fn tls(self, identity: TlsIdentity) -> (server: Self)
        ensures
            server@ == (ServerView { tls: Some(identity), ..self@ }),
    {
        proof {
            use_type_invariant(&self);
        }
        WebTransportServer { tls: Some(identity), ..self }
    }

    /// Set the zstd compression level.
    ///
    /// Range: 1 (fastest) to 19 (best ratio). Default: 1.
    pub fn compression_level(self, level: i32) -> (server: Self)
        ensures
            server@ == (ServerView {
                compression_level: clamped_level(level as int),
                ..self@
            }),
    {
        let compression_level: i32 = if level < 1 {
            1
        } else if level > 19 {
            19
        } else {
            level
        };
        WebTransportServer { compression_level, ..self }
    }

    /// Set the message backlog size per client.
    ///
    /// When the outbox fills, oldest messages are dropped.
    /// Default: 1024.
    pub fn message_backlog_size(self, size: usize) -> (server: Self)
        ensures
            server@ == (ServerView { message_backlog_size: Some(size), ..self@ }),
    {
        proof {
            use_type_invariant(&self);
        }
        WebTransportServer { message_backlog_size: Some(size), ..self }
    }

    /// Set the maximum QUIC datagram size.
    ///
    /// Messages larger than this (after compression and with the 14-byte header) use reliable
    /// streams.
    /// Default: 1200 bytes.
    pub fn max_datagram_size(self, size: usize) -> (server: Self)
        ensures
            server@ == (ServerView { max_datagram_size: Some(size), ..self@ }),
    {
        proof {
            use_type_invariant(&self);
        }
        WebTransportServer { max_datagram_size: Some(size), ..self }
    }

    /// Set topic patterns for datagram (unreliable) delivery.
    ///
    /// Topics matching any of these regex patterns will be sent as QUIC datagrams when the
    /// compressed message fits within the datagram size.
    ///
    /// Example: `["/lidars/.*", "/camera/.*/compressed"]`
    pub fn datagram_topics(self, patterns: Vec<String>) -> (server: Self)
        ensures
            server@ == (ServerView { patterns: server::texts(patterns@), ..self@ }),
    {
        proof {
            use_type_invariant(&self);
        }
        WebTransportServer { datagram_topic_patterns: patterns, ..self }
    }

    /// Set a channel filter for connected clients.
    pub fn channel_filter<G: SinkChannelFilter>(self, filter: Arc<G>) -> (server:
        WebTransportServer<G>)
        ensures
            server@ == with_filter(self@, filter),
    {
        proof {
            use_type_invariant(&self);
        }
        WebTransportServer {
            host: self.host,
            port: self.port,
            tls: self.tls,
            compression_level: self.compression_level,
            message_backlog_size: self.message_backlog_size,
            max_datagram_size: self.max_datagram_size,
            datagram_topic_patterns: self.datagram_topic_patterns,
            channel_filter: Some(filter),
            context: self.context,
        }
    }

    /// Set a channel filter function for connected clients.
    pub fn channel_filter_fn<G: Fn(&ChannelDescriptor) -> bool>(self, filter: G) -> (server:
        WebTransportServer<SinkChannelFilterFn<G>>)
        requires
            forall|channel: &ChannelDescriptor| call_requires(filter, (channel,)),
        ensures
            server@.filter matches Some(f) && f.function() == filter && server@ == with_filter(
                self@,
                f,
            ),
    {
        self.channel_filter(Arc::new(SinkChannelFilterFn::new(filter)))
    }

    /// Set the context for this server.
    pub fn context(self, context: &Arc<Context>) -> (server: Self)
        ensures
            server@ == (ServerView { context: *context, ..self@ }),
    {
        proof {
            use_type_invariant(&self);
        }
        WebTransportServer { context: Arc::clone(context), ..self }
    }

    /// What the server is to be started with, and in which context. Without a TLS identity it
    /// cannot be started.
    pub fn into_options(self) -> (options: Result<(ServerOptions<F>, Arc<Context>), FoxgloveError>)
        ensures
            options is Ok <==> self@.tls is Some,
            options matches Ok((o, context)) ==> {
                &&& started_with(self@, o)
                &&& 1 <= o.compression_level <= 19
                &&& context == self@.context
            },
            options matches Err(error) ==> error matches FoxgloveError::ValueError(text) && text@
                == "TLS identity is required for WebTransport (QUIC mandates TLS 1.3)"@,
    {
        proof {
            use_type_invariant(&self);
        }
        let tls = match self.tls {
            Some(tls) => tls,
            None => {
                return Err(
                    FoxgloveError::ValueError(
                        String::from_str(
                            "TLS identity is required for WebTransport (QUIC mandates TLS 1.3)",
                        ),
                    ),
                );
            },
        };
        let options = ServerOptions {
            host: self.host,
            port: self.port,
            tls,
            compression_level: self.compression_level,
            message_backlog_size: match self.message_backlog_size {
                Some(size) => size,
                None => DEFAULT_MESSAGE_BACKLOG_SIZE,
            },
            max_datagram_size: match self.max_datagram_size {
                Some(size) => size,
                None => DEFAULT_MAX_DATAGRAM_SIZE,
            },
            datagram_topic_patterns: self.datagram_topic_patterns,
            channel_filter: self.channel_filter,
        };
        Ok((options, self.context))
    }
}

/// What a server has been told once it has been told a filter.
pub open spec fn with_filter<F: SinkChannelFilter, G: SinkChannelFilter>(
    view: ServerView<F>,
    filter: Arc<G>,
) -> ServerView<G> {
    ServerView {
        host: view.host,
        port: view.port,
        tls: view.tls,
        compression_level: view.compression_level,
        message_backlog_size: view.message_backlog_size,
        max_datagram_size: view.max_datagram_size,
        patterns: view.patterns,
        filter: Some(filter),
        context: view.context,
    }
}

/// The value, or `default` where there is none.
pub open spec fn or_default(value: Option<usize>, default: usize) -> usize {
    match value {
        Some(v) => v,
        None => default,
    }
}

/// Whether `options` are what a server is started with that has been told that and has a TLS
/// identity.
pub open spec fn started_with<F: SinkChannelFilter>(
    view: ServerView<F>,
    options: ServerOptions<F>,
) -> bool {
    &&& options.host@ == view.host
    &&& options.port == view.port
    &&& Some(options.tls) == view.tls
    &&& options.compression_level == view.compression_level
    &&& options.message_backlog_size == or_default(view.message_backlog_size, 1024)
    &&& options.max_datagram_size == or_default(view.max_datagram_size, 1200)
    &&& server::texts(options.datagram_topic_patterns@) == view.patterns
    &&& options.channel_filter == view.filter
}

/// Handle to a running WebTransport server.
pub struct WebTransportServerHandle {
    inner: ServerHandle,
}

impl WebTransportServerHandle {
    /// The address the server is bound to.
    pub closed spec fn address(&self) -> SocketAddress {
        self.inner.address()
    }

    /// Whether the server has been stopped through this handle.
    pub closed spec fn stopped(&self) -> bool {
        self.inner.stopped()
    }

    /// The token that stops the server.
    pub closed spec fn token(&self) -> int {
        self.inner.token()
    }

    /// The handle of the server that `inner` is a handle of.
    pub fn new(inner: ServerHandle) -> (handle: Self)
        ensures
            handle.address() == inner.address(),
            handle.stopped() == inner.stopped(),
            handle.token() == inner.token(),
    {
        WebTransportServerHandle { inner }
    }

    /// Returns the port the server is listening on.
    pub fn port(&self) -> (port: u16)
        ensures
            port == self.address().port,
    {
        self.inner.port()
    }

    /// Stop the server.
    pub fn stop(&mut self)
        ensures
            final(self).stopped(),
            final(self).token() == old(self).token(),
            final(self).address() == old(self).address(),
    {
        self.inner.stop();
    }
}

} // verus!
