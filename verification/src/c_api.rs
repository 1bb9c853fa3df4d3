//! What the C interface does with the values behind its pointers.

use vstd::prelude::*;
use vstd::string::StringExecFns;

use std::sync::Arc;

use crate::channel::SinkChannelFilter;
use crate::context::Context;
use crate::error::FoxgloveError;
use crate::ext::text;
use crate::server;
use crate::server::TlsIdentity;
use crate::webtransport_server;
use crate::webtransport_server::{WebTransportServer, WebTransportServerHandle};

verus! {

/// What a function of the C interface returns.
#[derive(Debug, Clone, Copy, PartialEq, Eq, Structural)]
pub enum ErrorCode {
    /// Nothing went wrong.
    Success,
    /// A value is not acceptable.
    ValueError,
    /// A text is not UTF-8.
    Utf8Error,
    /// The sink has been closed.
    SinkClosed,
    /// Something else.
    Unspecified,
}

/// The code of an error.
pub fn error_code(error: &FoxgloveError) -> (code: ErrorCode)
    ensures
        code == (match *error {
            FoxgloveError::ValueError(_) => ErrorCode::ValueError,
            FoxgloveError::Utf8Error(_) => ErrorCode::Utf8Error,
            FoxgloveError::SinkClosed => ErrorCode::SinkClosed,
            FoxgloveError::Unspecified(_) => ErrorCode::Unspecified,
        }),
{
    match error {
        FoxgloveError::ValueError(_) => ErrorCode::ValueError,
        FoxgloveError::Utf8Error(_) => ErrorCode::Utf8Error,
        FoxgloveError::SinkClosed => ErrorCode::SinkClosed,
        FoxgloveError::Unspecified(_) => ErrorCode::Unspecified,
    }
}

/// A server of the C interface: running, or closed.
pub struct FoxgloveWebTransportServer(Option<WebTransportServerHandle>);

impl FoxgloveWebTransportServer {
    /// The handle of a running server.
    pub closed spec fn handle(&self) -> Option<WebTransportServerHandle> {
        self.0
    }

    /// The running server that `handle` is a handle of.
    pub fn new(handle: WebTransportServerHandle) -> (server: Self)
        ensures
            server.handle() == Some(handle),
    {
        FoxgloveWebTransportServer(Some(handle))
    }

    /// The handle of a running server.
    pub fn as_ref(&self) -> (handle: Option<&WebTransportServerHandle>)
        ensures
            match handle {
                Some(h) => self.handle() == Some(*h),
                None => self.handle() is None,
            },
    {
        self.0.as_ref()
    }

    /// Closes the server, and hands out the handle of one that was running.
    pub fn take(&mut self) -> (handle: Option<WebTransportServerHandle>)
        ensures
            handle == old(self).handle(),
            final(self).handle() is None,
    {
        self.0.take()
    }
}

/// Options for creating a WebTransport server.
///
/// QUIC mandates TLS 1.3: `tls_cert_path` and `tls_key_path` are required. Texts are there as their
/// bytes, which may turn out not to be UTF-8.
pub struct FoxgloveWebTransportServerOptions<G: SinkChannelFilter> {
    /// The context; the default context where there is none.
    pub context: Option<Arc<Context>>,
    /// Host address to bind to. If empty, defaults to "0.0.0.0".
    pub host: Vec<u8>,
    /// Port to bind to. May be 0 for automatic selection.
    pub port: u16,
    /// Path to a PEM-encoded x509 certificate file. Required.
    pub tls_cert_path: Vec<u8>,
    /// Path to a PEM-encoded PKCS8 private key file. Required.
    pub tls_key_path: Vec<u8>,
    /// zstd compression level (1 = fastest, 19 = best ratio). Default: 1.
    pub compression_level: i32,
    /// Message backlog size per client. Default, for 0: 1024.
    pub message_backlog_size: usize,
    /// Maximum QUIC datagram size. Messages exceeding this (after compression) fall back to
    /// reliable streams. Default, for 0: 1200.
    pub max_datagram_size: usize,
    /// Topic patterns for unreliable datagram delivery.
    pub datagram_topic_patterns: Vec<Vec<u8>>,
    /// Optional channel filter.
    pub sink_channel_filter: Option<Arc<G>>,
}

/// Why a server is not built.
pub enum Refusal {
    /// A text is not UTF-8.
    Utf8(Seq<char>),
    /// A value is not acceptable.
    Value(Seq<char>),
}

/// The error that says so.
pub open spec fn says(error: FoxgloveError, refusal: Refusal) -> bool {
    match refusal {
        Refusal::Utf8(text) => error matches FoxgloveError::Utf8Error(t) && t@ == text,
        Refusal::Value(text) => error matches FoxgloveError::ValueError(t) && t@ == text,
    }
}

/// The text that bytes are the UTF-8 encoding of; else the text of the error.
pub open spec fn decoded(bytes: Seq<u8>) -> Result<Seq<char>, Seq<char>> {
    if vstd::utf8::valid_utf8(bytes) {
        Ok(vstd::utf8::decode_utf8(bytes))
    } else {
        Err(text::utf8_error_text(bytes))
    }
}

/// The bytes of vectors.
pub open spec fn byte_texts(vectors: Seq<Vec<u8>>) -> Seq<Seq<u8>> {
    vectors.map_values(|v: Vec<u8>| v@)
}

/// The error of the first pattern that is not UTF-8.
pub open spec fn first_bad_pattern(patterns: Seq<Seq<u8>>) -> Option<Seq<char>>
    decreases patterns.len(),
{
    if patterns.len() == 0 {
        None
    } else {
        match decoded(patterns[0]) {
            Err(reason) => Some(reason),
            Ok(_) => first_bad_pattern(patterns.drop_first()),
        }
    }
}

/// Why a server with those options is not built, if it is not: the first thing that is wrong.
pub open spec fn refusal<G: SinkChannelFilter>(
    options: FoxgloveWebTransportServerOptions<G>,
) -> Option<Refusal> {
    match (
        decoded(options.host@),
        decoded(options.tls_cert_path@),
        decoded(options.tls_key_path@),
    ) {
        (Err(reason), _, _) => Some(Refusal::Utf8("host is invalid: "@ + reason)),
        (_, Err(reason), _) => Some(Refusal::Utf8("tls_cert_path is invalid: "@ + reason)),
        (_, _, Err(reason)) => Some(Refusal::Utf8("tls_key_path is invalid: "@ + reason)),
        (Ok(_), Ok(cert), Ok(key)) => if cert.len() == 0 || key.len() == 0 {
            Some(
                Refusal::Value("TLS certificate and key paths are required for WebTransport"@),
            )
        } else {
            match first_bad_pattern(byte_texts(options.datagram_topic_patterns@)) {
                Some(reason) => Some(
                    Refusal::Utf8("datagram topic pattern is invalid: "@ + reason),
                ),
                None => None,
            }
        },
    }
}

/// The texts that the bytes are the UTF-8 encodings of.
pub open spec fn decoded_all(texts: Seq<Seq<u8>>) -> Seq<Seq<char>> {
    texts.map_values(|t: Seq<u8>| decoded(t)->Ok_0)
}

/// The size, unless it is zero.
pub open spec fn unless_zero(size: usize) -> Option<usize> {
    if size > 0 {
        Some(size)
    } else {
        None
    }
}

/// Whether a server has been told what options that are in order say.
pub open spec fn told<G: SinkChannelFilter>(
    options: FoxgloveWebTransportServerOptions<G>,
    view: webtransport_server::ServerView<G>,
) -> bool {
    &&& view.host == (if decoded(options.host@)->Ok_0.len() == 0 {
        "0.0.0.0"@
    } else {
        decoded(options.host@)->Ok_0
    })
    &&& view.port == options.port
    &&& view.tls matches Some(tls) && tls.cert_path@ == decoded(options.tls_cert_path@)->Ok_0
        && tls.key_path@ == decoded(options.tls_key_path@)->Ok_0
    &&& view.compression_level == webtransport_server::clamped_level(
        options.compression_level as int,
    )
    &&& view.message_backlog_size == unless_zero(options.message_backlog_size)
    &&& view.max_datagram_size == unless_zero(options.max_datagram_size)
    &&& view.patterns == decoded_all(byte_texts(options.datagram_topic_patterns@))
    &&& view.filter == options.sink_channel_filter
    &&& match options.context {
        Some(context) => view.context == context,
        None => view.context.spec_id() == 0,
    }
}

fn utf8_error(what: &str, reason: &str) -> (error: FoxgloveError)
    ensures
        error matches FoxgloveError::Utf8Error(text) && text@ == what@ + reason@,
{
    FoxgloveError::Utf8Error(String::from_str(what).concat(reason))
}

/// The text that the bytes are the UTF-8 encoding of; else the error that says that it is `what`.
fn decode(bytes: &Vec<u8>, what: &str) -> (result: Result<String, FoxgloveError>)
    ensures
        match result {
            Ok(text) => decoded(bytes@) == Ok::<Seq<char>, Seq<char>>(text@),
            Err(error) => decoded(bytes@) matches Err(reason) && says(
                error,
                Refusal::Utf8(what@ + reason),
            ),
        },
{
    match text::from_utf8(bytes.as_slice()) {
        Ok(text) => Ok(String::from_str(text)),
        Err(reason) => Err(utf8_error(what, reason.as_str())),
    }
}

/// The patterns, where each of them is UTF-8; else the error of the first that is not.
fn collect_patterns(patterns: &Vec<Vec<u8>>) -> (collected: Result<Vec<String>, FoxgloveError>)
    ensures
        match collected {
            Ok(list) => {
                &&& first_bad_pattern(byte_texts(patterns@)) is None
                &&& server::texts(list@) == decoded_all(byte_texts(patterns@))
            },
            Err(error) => first_bad_pattern(byte_texts(patterns@)) matches Some(reason) && says(
                error,
                Refusal::Utf8("datagram topic pattern is invalid: "@ + reason),
            ),
        },
{
    let mut list: Vec<String> = Vec::new();
    let ghost all = byte_texts(patterns@);
    assert(all.skip(0) =~= all);
    for i in 0..patterns.len()
        invariant
            all == byte_texts(patterns@),
            first_bad_pattern(all) == first_bad_pattern(all.skip(i as int)),
            list@.len() == i,
            forall|j: int| 0 <= j < i ==> (#[trigger] list@[j])@ == decoded(all[j])->Ok_0,
    {
        assert(all.skip(i as int).drop_first() =~= all.skip(i + 1));
        assert(all.skip(i as int)[0] == patterns@[i as int]@);
        match decode(&patterns[i], "datagram topic pattern is invalid: ") {
            Ok(text) => {
                list.push(text);
            },
            Err(error) => {
                return Err(error);
            },
        }
    }
    assert(all.skip(all.len() as int).len() == 0);
    assert(server::texts(list@) =~= decoded_all(all));
    Ok(list)
}

/// Builds the server that the options describe.
pub fn build_server<G: SinkChannelFilter>(options: FoxgloveWebTransportServerOptions<G>) -> (built:
    Result<WebTransportServer<G>, FoxgloveError>)
    ensures
        match built {
            Ok(server) => refusal(options) is None && told(options, server@),
            Err(error) => refusal(options) matches Some(r) && says(error, r),
        },
{
    let host = match decode(&options.host, "host is invalid: ") {
        Ok(host) => host,
        Err(error) => {
            return Err(error);
        },
    };
    let cert_path = match decode(&options.tls_cert_path, "tls_cert_path is invalid: ") {
        Ok(path) => path,
        Err(error) => {
            return Err(error);
        },
    };
    let key_path = match decode(&options.tls_key_path, "tls_key_path is invalid: ") {
        Ok(path) => path,
        Err(error) => {
            return Err(error);
        },
    };
    if cert_path.as_str().is_empty() || key_path.as_str().is_empty() {
        return Err(
            FoxgloveError::ValueError(
                String::from_str("TLS certificate and key paths are required for WebTransport"),
            ),
        );
    }
    let level: i32 = if options.compression_level < 1 {
        1
    } else {
        options.compression_level
    };
    let mut builder: WebTransportServer<G> = WebTransportServer::default();
    builder = builder.tls(TlsIdentity { cert_path, key_path }).compression_level(level);
    if !host.as_str().is_empty() {
        builder = builder.bind(host.as_str(), options.port);
    } else {
        builder = builder.bind("0.0.0.0", options.port);
    }
    if options.message_backlog_size > 0 {
        builder = builder.message_backlog_size(options.message_backlog_size);
    }
    if options.max_datagram_size > 0 {
        builder = builder.max_datagram_size(options.max_datagram_size);
    }
    if options.datagram_topic_patterns.len() > 0 {
        match collect_patterns(&options.datagram_topic_patterns) {
            Ok(list) => {
                builder = builder.datagram_topics(list);
            },
            Err(error) => {
                return Err(error);
            },
        }
    }
    if let Some(filter) = options.sink_channel_filter {
        builder = builder.channel_filter(filter);
    }
    if let Some(context) = options.context {
        builder = builder.context(&context);
    }
    assert(builder@.patterns =~= decoded_all(byte_texts(options.datagram_topic_patterns@)));
    Ok(builder)
}

/// The port on which a server is listening; 0 where there is no server, or it is closed.
pub fn server_port(server: Option<&FoxgloveWebTransportServer>) -> (port: u16)
    ensures
        port == (match server {
            Some(s) => match s.handle() {
                Some(handle) => handle.address().port,
                None => 0,
            },
            None => 0,
        }),
{
    match server {
        Some(server) => match server.as_ref() {
            Some(handle) => handle.port(),
            None => 0,
        },
        None => 0,
    }
}

/// Stops a server. The result is the code, and the handle of a server that was running, which is
/// now stopped.
pub fn stop_server(server: Option<FoxgloveWebTransportServer>) -> (outcome: (
    ErrorCode,
    Option<WebTransportServerHandle>,
))
    ensures
        match server {
            None => outcome == (ErrorCode::ValueError, None::<WebTransportServerHandle>),
            Some(s) => match s.handle() {
                None => outcome == (ErrorCode::SinkClosed, None::<WebTransportServerHandle>),
                Some(handle) => {
                    &&& outcome.0 == ErrorCode::Success
                    &&& outcome.1 matches Some(stopped) && stopped.stopped() && stopped.token()
                        == handle.token() && stopped.address() == handle.address()
                },
            },
        },
{
    let mut server = match server {
        Some(server) => server,
        None => {
            return (ErrorCode::ValueError, None);
        },
    };
    match server.take() {
        Some(handle) => {
            let mut handle = handle;
            handle.stop();
            (ErrorCode::Success, Some(handle))
        },
        None => (ErrorCode::SinkClosed, None),
    }
}

} // verus!
