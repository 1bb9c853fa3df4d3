//! What a server that is being built has been told, through either interface, and what is started
//! with it.

use vstd::prelude::*;

use std::sync::Arc;

use crate::c_api;
use crate::c_api::{
    build_server, error_code, server_port, stop_server, ErrorCode, FoxgloveWebTransportServer,
    FoxgloveWebTransportServerOptions,
};
use crate::channel::{AllChannels, ChannelDescriptor, SinkChannelFilter, SinkChannelFilterFn};
use crate::context::Context;
use crate::error::FoxgloveError;
use crate::ext::text;
use crate::server;
use crate::server::{ServerHandle, ServerOptions, TlsIdentity};
use crate::webtransport_server;
use crate::webtransport_server::{ServerView, WebTransportServer, WebTransportServerHandle};

verus! {

/// A level is brought into the range from 1 to 19, and one that is in it stays.
pub proof fn law_level_in_range(level: int)
    ensures
        ({
            let kept = webtransport_server::clamped_level(level);
            &&& 1 <= level <= 19 ==> kept == level
            &&& level < 1 ==> kept == 1
            &&& level > 19 ==> kept == 19
        }),
{
}

/// What a server that has been told nothing but its TLS identity is started with.
pub proof fn law_started_with_defaults(
    fresh: WebTransportServer<AllChannels>,
    identity: TlsIdentity,
    told: WebTransportServer<AllChannels>,
    started: Result<(ServerOptions<AllChannels>, Arc<Context>), FoxgloveError>,
    not_started: Result<(ServerOptions<AllChannels>, Arc<Context>), FoxgloveError>,
)
    requires
        call_ensures(WebTransportServer::<AllChannels>::new, (), fresh),
        call_ensures(WebTransportServer::<AllChannels>::tls, (fresh, identity), told),
        call_ensures(WebTransportServer::<AllChannels>::into_options, (told,), started),
        call_ensures(WebTransportServer::<AllChannels>::into_options, (fresh,), not_started),
    ensures
        started matches Ok((options, context)) && {
            &&& options.host@ == "0.0.0.0"@
            &&& options.port == 8766
            &&& options.tls == identity
            &&& options.compression_level == 1
            &&& options.message_backlog_size == 1024
            &&& options.max_datagram_size == 1200
            &&& options.datagram_topic_patterns@.len() == 0
            &&& options.channel_filter is None
            &&& context.spec_id() == 0
        },
        not_started matches Err(FoxgloveError::ValueError(text)) && text@
            == "TLS identity is required for WebTransport (QUIC mandates TLS 1.3)"@,
{
    assert(server::texts(started->Ok_0.0.datagram_topic_patterns@).len()
        == started->Ok_0.0.datagram_topic_patterns@.len());
}

/// What a server that has been told nothing is: the default one, which a new one is too.
pub proof fn law_default_server<F: SinkChannelFilter>(server: WebTransportServer<F>)
    requires
        call_ensures(WebTransportServer::<F>::default, (), server),
    ensures
        server@.host == "0.0.0.0"@,
        server@.port == 8766,
        server@.tls is None,
        server@.compression_level == 1,
        server@.message_backlog_size is None,
        server@.max_datagram_size is None,
        server@.patterns.len() == 0,
        server@.filter is None,
        server@.context.spec_id() == 0,
{
}

/// What a server that has been told everything is started with: all of it, the level brought into
/// its range.
pub proof fn law_started_with_what_it_was_told(
    servers: Seq<WebTransportServer<AllChannels>>,
    address: (&str, u16),
    identity: TlsIdentity,
    level: i32,
    sizes: (usize, usize),
    patterns: Vec<String>,
    context: &Arc<Context>,
    started: Result<(ServerOptions<AllChannels>, Arc<Context>), FoxgloveError>,
    at: int,
)
    requires
        servers.len() == 8,
        call_ensures(
            WebTransportServer::<AllChannels>::bind,
            (servers[0], address.0, address.1),
            servers[1],
        ),
        call_ensures(WebTransportServer::<AllChannels>::tls, (servers[1], identity), servers[2]),
        call_ensures(
            WebTransportServer::<AllChannels>::compression_level,
            (servers[2], level),
            servers[3],
        ),
        call_ensures(
            WebTransportServer::<AllChannels>::message_backlog_size,
            (servers[3], sizes.0),
            servers[4],
        ),
        call_ensures(
            WebTransportServer::<AllChannels>::max_datagram_size,
            (servers[4], sizes.1),
            servers[5],
        ),
        call_ensures(
            WebTransportServer::<AllChannels>::datagram_topics,
            (servers[5], patterns),
            servers[6],
        ),
        call_ensures(
            WebTransportServer::<AllChannels>::context,
            (servers[6], context),
            servers[7],
        ),
        call_ensures(WebTransportServer::<AllChannels>::into_options, (servers[7],), started),
    ensures
        started matches Ok((options, in_context)) && {
            &&& options.host@ == address.0@
            &&& options.port == address.1
            &&& options.tls == identity
            &&& 1 <= level <= 19 ==> options.compression_level == level
            &&& level < 1 ==> options.compression_level == 1
            &&& level > 19 ==> options.compression_level == 19
            &&& options.message_backlog_size == sizes.0
            &&& options.max_datagram_size == sizes.1
            &&& options.datagram_topic_patterns@.len() == patterns@.len()
            &&& 0 <= at < patterns@.len() ==> options.datagram_topic_patterns@[at]@
                == patterns@[at]@
            &&& options.channel_filter == servers[0]@.filter
            &&& in_context == *context
        },
{
    let given = started->Ok_0.0.datagram_topic_patterns@;
    assert(server::texts(given) == server::texts(patterns@));
    assert(server::texts(given).len() == given.len());
    assert(server::texts(patterns@).len() == patterns@.len());
    if 0 <= at < patterns@.len() {
        assert(server::texts(given)[at] == given[at]@);
        assert(server::texts(patterns@)[at] == patterns@[at]@);
    }
}

/// What each of the builder's methods changes: that one thing, and nothing else.
pub proof fn law_builder_steps<F: SinkChannelFilter>(
    server: WebTransportServer<F>,
    address: (&str, u16),
    identity: TlsIdentity,
    level: i32,
    size: usize,
    patterns: Vec<String>,
    context: &Arc<Context>,
    after: Seq<WebTransportServer<F>>,
    at: int,
)
    requires
        after.len() == 7,
        call_ensures(
            WebTransportServer::<F>::bind,
            (server, address.0, address.1),
            after[0],
        ),
        call_ensures(WebTransportServer::<F>::tls, (server, identity), after[1]),
        call_ensures(WebTransportServer::<F>::compression_level, (server, level), after[2]),
        call_ensures(WebTransportServer::<F>::message_backlog_size, (server, size), after[3]),
        call_ensures(WebTransportServer::<F>::max_datagram_size, (server, size), after[4]),
        call_ensures(WebTransportServer::<F>::datagram_topics, (server, patterns), after[5]),
        call_ensures(WebTransportServer::<F>::context, (server, context), after[6]),
    ensures
        after[0]@ == (ServerView { host: address.0@, port: address.1, ..server@ }),
        after[1]@ == (ServerView { tls: Some(identity), ..server@ }),
        after[2]@ == (ServerView {
            compression_level: if level < 1 {
                1
            } else if level > 19 {
                19
            } else {
                level as int
            },
            ..server@
        }),
        after[3]@ == (ServerView { message_backlog_size: Some(size), ..server@ }),
        after[4]@ == (ServerView { max_datagram_size: Some(size), ..server@ }),
        after[5]@ == (ServerView { patterns: after[5]@.patterns, ..server@ }),
        after[5]@.patterns.len() == patterns@.len(),
        0 <= at < patterns@.len() ==> after[5]@.patterns[at] == patterns@[at]@,
        after[6]@ == (ServerView { context: *context, ..server@ }),
{
}

/// What setting a filter does: the server has that filter, and is told nothing else.
pub proof fn law_builder_filter<
    F: SinkChannelFilter,
    G: SinkChannelFilter,
    H: Fn(&ChannelDescriptor) -> bool,
>(
    server: WebTransportServer<F>,
    filter: Arc<G>,
    function: H,
    filtered: WebTransportServer<G>,
    asking: WebTransportServer<SinkChannelFilterFn<H>>,
)
    requires
        call_ensures(WebTransportServer::<F>::channel_filter::<G>, (server, filter), filtered),
        call_ensures(
            WebTransportServer::<F>::channel_filter_fn::<H>,
            (server, function),
            asking,
        ),
    ensures
        filtered@.filter == Some(filter),
        filtered@.host == server@.host && filtered@.port == server@.port,
        filtered@.tls == server@.tls,
        filtered@.compression_level == server@.compression_level,
        filtered@.message_backlog_size == server@.message_backlog_size,
        filtered@.max_datagram_size == server@.max_datagram_size,
        filtered@.patterns == server@.patterns,
        filtered@.context == server@.context,
        asking@.filter matches Some(f) && f.function() == function,
        asking@.host == server@.host && asking@.port == server@.port,
        asking@.tls == server@.tls,
        asking@.compression_level == server@.compression_level,
        asking@.message_backlog_size == server@.message_backlog_size,
        asking@.max_datagram_size == server@.max_datagram_size,
        asking@.patterns == server@.patterns,
        asking@.context == server@.context,
{
}

/// What `WebTransportServer::into_options` returns, for any server.
pub proof fn law_into_options<F: SinkChannelFilter>(
    server: WebTransportServer<F>,
    started: Result<(ServerOptions<F>, Arc<Context>), FoxgloveError>,
    at: int,
)
    requires
        call_ensures(WebTransportServer::<F>::into_options, (server,), started),
    ensures
        started is Ok <==> server@.tls is Some,
        started matches Err(error) ==> error matches FoxgloveError::ValueError(text) && text@
            == "TLS identity is required for WebTransport (QUIC mandates TLS 1.3)"@,
        started matches Ok((options, context)) ==> {
            &&& options.host@ == server@.host
            &&& options.port == server@.port
            &&& server@.tls == Some(options.tls)
            &&& options.compression_level == server@.compression_level
            &&& 1 <= options.compression_level <= 19
            &&& server@.message_backlog_size matches Some(size) ==> options.message_backlog_size
                == size
            &&& server@.message_backlog_size is None ==> options.message_backlog_size == 1024
            &&& server@.max_datagram_size matches Some(size) ==> options.max_datagram_size == size
            &&& server@.max_datagram_size is None ==> options.max_datagram_size == 1200
            &&& options.datagram_topic_patterns@.len() == server@.patterns.len()
            &&& 0 <= at < server@.patterns.len() ==> options.datagram_topic_patterns@[at]@
                == server@.patterns[at]
            &&& options.channel_filter == server@.filter
            &&& context == server@.context
        },
{
    if started is Ok {
        let given = started->Ok_0.0.datagram_topic_patterns@;
        assert(server::texts(given).len() == given.len());
        if 0 <= at < given.len() {
            assert(server::texts(given)[at] == given[at]@);
        }
    }
}

proof fn lemma_first_bad_pattern(patterns: Seq<Seq<u8>>, at: int)
    ensures
        c_api::first_bad_pattern(patterns) is None <==> forall|i: int|
            0 <= i < patterns.len() ==> vstd::utf8::valid_utf8(#[trigger] patterns[i]),
        (0 <= at < patterns.len() && !vstd::utf8::valid_utf8(patterns[at]) && forall|i: int|
            0 <= i < at ==> vstd::utf8::valid_utf8(#[trigger] patterns[i]))
            ==> c_api::first_bad_pattern(patterns) == Some(text::utf8_error_text(patterns[at])),
    decreases patterns.len(),
{
    if patterns.len() > 0 {
        let rest = patterns.drop_first();
        lemma_first_bad_pattern(rest, at - 1);
        assert(forall|i: int|
            #![trigger rest[i]]
            0 <= i < rest.len() ==> rest[i] == patterns[i + 1]);
        assert(forall|i: int|
            #![trigger patterns[i]]
            1 <= i < patterns.len() ==> patterns[i] == rest[i - 1]);
    }
}

/// Which options of the C interface a server is built from, and how those that it is not built
/// from are refused: the first thing that is wrong, of the host, the certificate's path, the key's
/// path, whether the paths are there, and the patterns, is what the error says.
pub proof fn law_build_server_refusals<G: SinkChannelFilter>(
    options: FoxgloveWebTransportServerOptions<G>,
    built: Result<WebTransportServer<G>, FoxgloveError>,
    at: int,
)
    requires
        call_ensures(build_server::<G>, (options,), built),
    ensures
        ({
            let host = options.host@;
            let cert = options.tls_cert_path@;
            let key = options.tls_key_path@;
            let patterns = options.datagram_topic_patterns@;
            let named = vstd::utf8::valid_utf8(host) && vstd::utf8::valid_utf8(cert)
                && vstd::utf8::valid_utf8(key);
            let there = vstd::utf8::decode_utf8(cert).len() > 0 && vstd::utf8::decode_utf8(
                key,
            ).len() > 0;
            &&& built is Ok <==> {
                &&& named && there
                &&& forall|i: int|
                    0 <= i < patterns.len() ==> vstd::utf8::valid_utf8((#[trigger] patterns[i])@)
            }
            &&& !vstd::utf8::valid_utf8(host) ==> {
                built matches Err(FoxgloveError::Utf8Error(t)) && t@ == "host is invalid: "@
                    + text::utf8_error_text(host)
            }
            &&& (vstd::utf8::valid_utf8(host) && !vstd::utf8::valid_utf8(cert)) ==> {
                built matches Err(FoxgloveError::Utf8Error(t)) && t@
                    == "tls_cert_path is invalid: "@ + text::utf8_error_text(cert)
            }
            &&& (vstd::utf8::valid_utf8(host) && vstd::utf8::valid_utf8(cert)
                && !vstd::utf8::valid_utf8(key)) ==> {
                built matches Err(FoxgloveError::Utf8Error(t)) && t@ == "tls_key_path is invalid: "@
                    + text::utf8_error_text(key)
            }
            &&& (named && !there) ==> {
                built matches Err(FoxgloveError::ValueError(t)) && t@
                    == "TLS certificate and key paths are required for WebTransport"@
            }
            &&& (named && there && 0 <= at < patterns.len() && !vstd::utf8::valid_utf8(
                patterns[at]@,
            ) && forall|i: int|
                0 <= i < at ==> vstd::utf8::valid_utf8((#[trigger] patterns[i])@)) ==> {
                built matches Err(FoxgloveError::Utf8Error(t)) && t@
                    == "datagram topic pattern is invalid: "@ + text::utf8_error_text(
                    patterns[at]@,
                )
            }
        }),
{
    let patterns = options.datagram_topic_patterns@;
    let all = c_api::byte_texts(patterns);
    lemma_first_bad_pattern(all, at);
    assert(all.len() == patterns.len());
    assert(forall|i: int|
        #![trigger all[i]]
        #![trigger patterns[i]]
        0 <= i < patterns.len() ==> all[i] == patterns[i]@);
}

/// What a server that is built from options of the C interface has been told: what they say, with
/// the host that stands for an empty one, the level brought into its range, and nothing for sizes
/// that are zero.
pub proof fn law_build_server_tells<G: SinkChannelFilter>(
    options: FoxgloveWebTransportServerOptions<G>,
    built: Result<WebTransportServer<G>, FoxgloveError>,
    at: int,
)
    requires
        call_ensures(build_server::<G>, (options,), built),
        built is Ok,
    ensures
        ({
            let view = built->Ok_0@;
            let host = vstd::utf8::decode_utf8(options.host@);
            let level = options.compression_level;
            let patterns = options.datagram_topic_patterns@;
            &&& host.len() > 0 ==> view.host == host
            &&& host.len() == 0 ==> view.host == "0.0.0.0"@
            &&& view.port == options.port
            &&& view.tls matches Some(tls) && tls.cert_path@ == vstd::utf8::decode_utf8(
                options.tls_cert_path@,
            ) && tls.key_path@ == vstd::utf8::decode_utf8(options.tls_key_path@)
            &&& 1 <= level <= 19 ==> view.compression_level == level
            &&& level < 1 ==> view.compression_level == 1
            &&& level > 19 ==> view.compression_level == 19
            &&& view.message_backlog_size is Some <==> options.message_backlog_size > 0
            &&& view.message_backlog_size matches Some(n) ==> n == options.message_backlog_size
            &&& view.max_datagram_size is Some <==> options.max_datagram_size > 0
            &&& view.max_datagram_size matches Some(n) ==> n == options.max_datagram_size
            &&& view.patterns.len() == patterns.len()
            &&& 0 <= at < patterns.len() ==> view.patterns[at] == vstd::utf8::decode_utf8(
                patterns[at]@,
            )
            &&& view.filter == options.sink_channel_filter
            &&& options.context matches Some(context) ==> view.context == context
            &&& options.context is None ==> view.context.spec_id() == 0
        }),
{
    law_build_server_refusals(options, built, at);
    let patterns = options.datagram_topic_patterns@;
    let all = c_api::byte_texts(patterns);
    assert(all.len() == patterns.len());
    assert(c_api::decoded_all(all).len() == all.len());
    if 0 <= at < patterns.len() {
        assert(all[at] == patterns[at]@);
        assert(c_api::decoded_all(all)[at] == c_api::decoded(all[at])->Ok_0);
    }
}

/// What is started with options of the C interface that a server is built from.
pub proof fn law_c_options_start<G: SinkChannelFilter>(
    options: FoxgloveWebTransportServerOptions<G>,
    built: Result<WebTransportServer<G>, FoxgloveError>,
    started: Result<(ServerOptions<G>, Arc<Context>), FoxgloveError>,
    at: int,
)
    requires
        call_ensures(build_server::<G>, (options,), built),
        built is Ok,
        call_ensures(WebTransportServer::<G>::into_options, (built->Ok_0,), started),
    ensures
        started matches Ok((made, context)) && {
            let host = vstd::utf8::decode_utf8(options.host@);
            let patterns = options.datagram_topic_patterns@;
            &&& made.host@ == (if host.len() > 0 {
                host
            } else {
                "0.0.0.0"@
            })
            &&& made.port == options.port
            &&& made.tls.cert_path@ == vstd::utf8::decode_utf8(options.tls_cert_path@)
            &&& made.tls.key_path@ == vstd::utf8::decode_utf8(options.tls_key_path@)
            &&& 1 <= options.compression_level <= 19 ==> made.compression_level
                == options.compression_level
            &&& options.compression_level < 1 ==> made.compression_level == 1
            &&& options.compression_level > 19 ==> made.compression_level == 19
            &&& options.message_backlog_size > 0 ==> made.message_backlog_size
                == options.message_backlog_size
            &&& options.message_backlog_size == 0 ==> made.message_backlog_size == 1024
            &&& options.max_datagram_size > 0 ==> made.max_datagram_size
                == options.max_datagram_size
            &&& options.max_datagram_size == 0 ==> made.max_datagram_size == 1200
            &&& made.datagram_topic_patterns@.len() == patterns.len()
            &&& 0 <= at < patterns.len() ==> made.datagram_topic_patterns@[at]@
                == vstd::utf8::decode_utf8(patterns[at]@)
            &&& made.channel_filter == options.sink_channel_filter
            &&& options.context matches Some(c) ==> context == c
            &&& options.context is None ==> context.spec_id() == 0
        },
{
    law_build_server_tells(options, built, at);
    law_into_options(built->Ok_0, started, at);
}

/// What `error_code` returns: each error has a code of its own, and none has that of success.
pub proof fn law_error_code(error: &FoxgloveError, code: ErrorCode)
    requires
        call_ensures(error_code, (error,), code),
    ensures
        code != ErrorCode::Success,
        code == ErrorCode::ValueError <==> *error is ValueError,
        code == ErrorCode::Utf8Error <==> *error is Utf8Error,
        code == ErrorCode::SinkClosed <==> *error is SinkClosed,
        code == ErrorCode::Unspecified <==> *error is Unspecified,
{
}

/// What the functions of the C interface do with a running server: its port is that of the address
/// it is bound to, and stopping it cancels the token that it stops at.
pub proof fn law_running_server(
    inner: ServerHandle,
    handle: WebTransportServerHandle,
    server: FoxgloveWebTransportServer,
    port: u16,
    outcome: (ErrorCode, Option<WebTransportServerHandle>),
)
    requires
        call_ensures(WebTransportServerHandle::new, (inner,), handle),
        call_ensures(FoxgloveWebTransportServer::new, (handle,), server),
        call_ensures(server_port, (Some(&server),), port),
        call_ensures(stop_server, (Some(server),), outcome),
    ensures
        port == inner.address().port,
        outcome.0 == ErrorCode::Success,
        outcome.1 matches Some(stopped) && stopped.stopped() && stopped.token() == inner.token()
            && stopped.address() == inner.address(),
{
}

/// What the functions of the C interface do where there is no running server: there is no port,
/// and stopping fails, with one code for no server and another for one that is closed. A server
/// that its handle has been taken out of is closed.
pub proof fn law_closed_server(
    server: &mut FoxgloveWebTransportServer,
    handle: Option<WebTransportServerHandle>,
    ports: (u16, u16),
    outcomes: (
        (ErrorCode, Option<WebTransportServerHandle>),
        (ErrorCode, Option<WebTransportServerHandle>),
    ),
)
    requires
        call_ensures(FoxgloveWebTransportServer::take, (server,), handle),
        call_ensures(server_port, (None::<&FoxgloveWebTransportServer>,), ports.0),
        call_ensures(stop_server, (None::<FoxgloveWebTransportServer>,), outcomes.0),
        call_ensures(server_port, (Some(&*final(server)),), ports.1),
        call_ensures(stop_server, (Some(*final(server)),), outcomes.1),
    ensures
        handle == old(server).handle(),
        ports == (0u16, 0u16),
        outcomes.0 == (ErrorCode::ValueError, None::<WebTransportServerHandle>),
        outcomes.1 == (ErrorCode::SinkClosed, None::<WebTransportServerHandle>),
{
}

/// What a server of the C interface shows: the handle of a running one.
pub proof fn law_handle_of_server(
    server: &FoxgloveWebTransportServer,
    shown: Option<&WebTransportServerHandle>,
)
    requires
        call_ensures(FoxgloveWebTransportServer::as_ref, (server,), shown),
    ensures
        shown is Some <==> server.handle() is Some,
        shown matches Some(h) ==> server.handle() == Some(*h),
{
}

/// What a handle of a server says, and what stopping through it does.
pub proof fn law_handle(
    inner: ServerHandle,
    made: WebTransportServerHandle,
    handle: &mut WebTransportServerHandle,
    port: u16,
)
    requires
        call_ensures(WebTransportServerHandle::new, (inner,), made),
        *old(handle) == made,
        call_ensures(WebTransportServerHandle::port, (&made,), port),
        call_ensures(WebTransportServerHandle::stop, (handle,), ()),
    ensures
        port == inner.address().port,
        made.stopped() == inner.stopped(),
        final(handle).stopped(),
        final(handle).token() == inner.token(),
        final(handle).address() == inner.address(),
{
}

} // verus!
