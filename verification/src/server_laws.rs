//! What a server makes of its options, and what it sets each client up with.

use vstd::prelude::*;

use std::sync::Arc;

use regex::Regex;
use tokio::sync::oneshot;
use tokio_util::sync::CancellationToken;

use crate::channel::{
    AllChannels, ChannelDescriptor, RawChannel, SinkChannelFilter, SinkChannelFilterFn,
};
use crate::connected_client;
use crate::connected_client::{ClientId, ClientIds, ConnectedClient, ShutdownReason, SinkId};
use crate::context::Context;
use crate::decimal;
use crate::decimal::push_decimal;
use crate::error::FoxgloveError;
use crate::ext::{pattern, queue, signal};
use crate::server;
use crate::server::{
    accept_step, bind_address, compile_patterns, invalid_bind_address, invalid_tls_identity,
    keep_compiled, open_session, AcceptAction, AcceptEvent, ServerHandle, ServerOptions,
    SessionQueues, SessionSettings, SocketAddress, TlsIdentity,
};

verus! {

/// The number that decimal digits stand for.
pub open spec fn digits_value(text: Seq<char>) -> int {
    text.fold_left(0int, |value: int, c: char| 10 * value + (c as int - '0' as int))
}

/// A decimal numeral is made of decimal digits, does not begin with a zero unless it is that of
/// zero, and stands for its number.
pub proof fn law_decimal_numeral(n: nat)
    ensures
        ({
            let text = decimal::decimal(n);
            &&& text.len() >= 1
            &&& forall|i: int| 0 <= i < text.len() ==> '0' <= #[trigger] text[i] <= '9'
            &&& text[0] == '0' ==> n == 0 && text.len() == 1
            &&& digits_value(text) == n
        }),
    decreases n,
{
    let f = |value: int, c: char| 10 * value + (c as int - '0' as int);
    let text = decimal::decimal(n);
    let c = decimal::digit(n);
    assert(c as int == n % 10 + 48);
    assert('0' as int == 48 && '9' as int == 57);
    if n < 10 {
        assert(text.drop_last() =~= Seq::<char>::empty());
        assert(text.drop_last().fold_left(0int, f) == 0int);
        assert(text.fold_left(0int, f) == f(0int, c));
    } else {
        law_decimal_numeral(n / 10);
        let earlier = decimal::decimal(n / 10);
        assert(text.drop_last() =~= earlier);
        assert(text.fold_left(0int, f) == f(earlier.fold_left(0int, f), c));
        assert(text[0] == earlier[0]);
    }
}

/// What `push_decimal` and `ClientId::to_text` write: what was there stays, and digits follow that
/// stand for the number.
pub proof fn law_written_numbers(out: &mut String, n: u64, id: &ClientId, text: String)
    requires
        call_ensures(push_decimal, (out, n), ()),
        call_ensures(ClientId::to_text, (id,), text),
    ensures
        final(out)@.take(old(out)@.len() as int) == old(out)@,
        digits_value(final(out)@.skip(old(out)@.len() as int)) == n,
        digits_value(text@) == id.value(),
        text@.len() >= 1,
        text@[0] == '0' ==> text@.len() == 1,
        forall|i: int| 0 <= i < text@.len() ==> '0' <= #[trigger] text@[i] <= '9',
{
    law_decimal_numeral(n as nat);
    law_decimal_numeral(id.value() as nat);
    assert(final(out)@.take(old(out)@.len() as int) =~= old(out)@);
    assert(final(out)@.skip(old(out)@.len() as int) =~= decimal::decimal(n as nat));
}

/// What `bind_address` returns: the host, a colon, and digits that stand for the port.
pub proof fn law_bind_address(host: &str, port: u16, address: String)
    requires
        call_ensures(bind_address, (host, port), address),
    ensures
        ({
            let n = host@.len() as int;
            let digits = address@.skip(n + 1);
            &&& address@.len() >= n + 2
            &&& address@.take(n) == host@
            &&& address@[n] == ':'
            &&& digits_value(digits) == port
            &&& digits[0] == '0' ==> digits.len() == 1
            &&& forall|i: int| 0 <= i < digits.len() ==> '0' <= #[trigger] digits[i] <= '9'
        }),
{
    law_decimal_numeral(port as nat);
    reveal_strlit(":");
    let n = host@.len() as int;
    assert(address@.take(n) =~= host@);
    assert(address@.skip(n + 1) =~= decimal::decimal(port as nat));
}

/// What the errors of a server that cannot be set up say.
pub proof fn law_setup_errors(reason: &str, address: FoxgloveError, tls: FoxgloveError)
    requires
        call_ensures(invalid_bind_address, (reason,), address),
        call_ensures(invalid_tls_identity, (reason,), tls),
    ensures
        address matches FoxgloveError::ValueError(text) && text@ == "Invalid bind address: "@
            + reason@,
        tls matches FoxgloveError::ValueError(text) && text@ == "Failed to load TLS identity: "@
            + reason@,
{
}

/// The patterns among texts are those that compile, in order, and the others are those that do
/// not.
pub proof fn law_patterns_sorted(patterns: Seq<Seq<char>>)
    ensures
        server::compiling(patterns) == patterns.filter(
            |p: Seq<char>| pattern::pattern_compiles(p),
        ),
        server::not_compiling(patterns) == patterns.filter(
            |p: Seq<char>| !pattern::pattern_compiles(p),
        ),
    decreases patterns.len(),
{
    reveal(Seq::filter);
    if patterns.len() > 0 {
        law_patterns_sorted(patterns.drop_last());
    }
}

/// What `compile_patterns` returns: for each of the texts that compile, in order, a pattern of
/// that text; and the texts that do not, in order.
pub proof fn law_compile_patterns(
    patterns: &Vec<String>,
    compiled: (Vec<Regex>, Vec<String>),
    at: int,
)
    requires
        call_ensures(compile_patterns, (patterns,), compiled),
    ensures
        ({
            let all = patterns@.map_values(|s: String| s@);
            let good = all.filter(|p: Seq<char>| pattern::pattern_compiles(p));
            let bad = all.filter(|p: Seq<char>| !pattern::pattern_compiles(p));
            &&& compiled.0@.len() == good.len()
            &&& compiled.1@.len() == bad.len()
            &&& 0 <= at < good.len() ==> pattern::pattern_text(compiled.0@[at]) == good[at]
            &&& 0 <= at < bad.len() ==> compiled.1@[at]@ == bad[at]
        }),
{
    let all = patterns@.map_values(|s: String| s@);
    law_patterns_sorted(all);
    assert(all =~= server::texts(patterns@));
    assert(connected_client::pattern_texts(compiled.0@).len() == compiled.0@.len());
    assert(server::texts(compiled.1@).len() == compiled.1@.len());
    if 0 <= at < compiled.0@.len() {
        assert(connected_client::pattern_texts(compiled.0@)[at] == pattern::pattern_text(
            compiled.0@[at],
        ));
    }
    if 0 <= at < compiled.1@.len() {
        assert(server::texts(compiled.1@)[at] == compiled.1@[at]@);
    }
}

/// What `keep_compiled` does: what came of a pattern goes behind what was kept before, and the
/// text of a pattern that nothing came of goes behind what was rejected before.
pub proof fn law_keep_compiled(
    kept: &mut Vec<Regex>,
    rejected: &mut Vec<String>,
    text: &String,
    compiled: Option<Regex>,
)
    requires
        call_ensures(keep_compiled, (kept, rejected, text, compiled), ()),
    ensures
        compiled matches Some(p) ==> {
            &&& final(kept)@.len() == old(kept)@.len() + 1
            &&& final(kept)@.drop_last() == old(kept)@
            &&& final(kept)@.last() == p
            &&& final(rejected)@ == old(rejected)@
        },
        compiled is None ==> {
            &&& final(rejected)@.len() == old(rejected)@.len() + 1
            &&& final(rejected)@.drop_last() == old(rejected)@
            &&& final(rejected)@.last()@ == text@
            &&& final(kept)@ == old(kept)@
        },
{
}

/// What `SessionSettings::new` makes of a server's options.
pub proof fn law_session_settings<F: SinkChannelFilter>(
    options: ServerOptions<F>,
    settings: (SessionSettings<F>, Vec<String>),
    at: int,
)
    requires
        call_ensures(SessionSettings::<F>::new, (options,), settings),
    ensures
        ({
            let all = options.datagram_topic_patterns@.map_values(|s: String| s@);
            let bad = all.filter(|p: Seq<char>| !pattern::pattern_compiles(p));
            &&& settings.0@.compression_level == options.compression_level
            &&& settings.0@.message_backlog_size == options.message_backlog_size
            &&& settings.0@.max_datagram_size == options.max_datagram_size
            &&& settings.0@.filter == options.channel_filter
            &&& settings.0@.patterns == all.filter(|p: Seq<char>| pattern::pattern_compiles(p))
            &&& settings.1@.len() == bad.len()
            &&& 0 <= at < bad.len() ==> settings.1@[at]@ == bad[at]
        }),
{
    let all = options.datagram_topic_patterns@.map_values(|s: String| s@);
    law_patterns_sorted(all);
    assert(all =~= server::texts(options.datagram_topic_patterns@));
    assert(server::texts(settings.1@).len() == settings.1@.len());
    if 0 <= at < settings.1@.len() {
        assert(server::texts(settings.1@)[at] == settings.1@[at]@);
    }
}

/// What a session of a server with those options is: the client has the next identifier, the
/// level, the longest datagram and the filter of the options, and those of the patterns that
/// compile; each of its three queues holds as many frames as the backlog says, or one fewer where
/// no queue can be made so long, and its other end is the one that is handed out; and it is
/// subscribed to nothing, told of nothing and offered nothing. The next session gets the
/// identifier that follows.
pub proof fn law_session<F: SinkChannelFilter>(
    options: ServerOptions<F>,
    made: (SessionSettings<F>, Vec<String>),
    settings: &SessionSettings<F>,
    ids: &mut ClientIds,
    sink_id: SinkId,
    label: String,
    shutdown_tx: oneshot::Sender<ShutdownReason>,
    session: (ConnectedClient<F>, SessionQueues),
)
    requires
        call_ensures(SessionSettings::<F>::new, (options,), made),
        *settings == made.0,
        call_ensures(
            open_session::<F>,
            (settings, ids, sink_id, label, shutdown_tx),
            session,
        ),
    ensures
        ({
            let client = session.0@;
            let queues = session.1;
            let size = options.message_backlog_size;
            let backlog = if size < usize::MAX {
                size as int
            } else {
                usize::MAX - 1
            };
            &&& client.settings.id.value() == old(ids).next_value()
            &&& client.settings.sink_id == sink_id
            &&& client.settings.label == label@
            &&& client.settings.level == options.compression_level
            &&& client.settings.max_datagram_size == options.max_datagram_size
            &&& client.settings.patterns == options.datagram_topic_patterns@.map_values(
                |s: String| s@,
            ).filter(|p: Seq<char>| pattern::pattern_compiles(p))
            &&& session.0.filter() == options.channel_filter
            &&& client.settings.data_queue.capacity == backlog
            &&& client.settings.control_queue.capacity == backlog
            &&& client.settings.datagram_queue.capacity == backlog
            &&& queue::receiver_capacity(queues.data_plane_rx) == backlog
            &&& queue::receiver_capacity(queues.control_plane_rx) == backlog
            &&& queue::receiver_capacity(queues.datagram_rx) == backlog
            &&& client.settings.data_queue.channel == queue::receiver_channel(
                queues.data_plane_rx,
            )
            &&& client.settings.control_queue.channel == queue::receiver_channel(
                queues.control_plane_rx,
            )
            &&& client.settings.datagram_queue.channel == queue::receiver_channel(
                queues.datagram_rx,
            )
            &&& client.subscriptions.dom() == Set::<u64>::empty()
            &&& client.next_subscription_id == 1
            &&& client.sequences.dom() == Set::<u64>::empty()
            &&& client.channels.dom() == Set::<u64>::empty()
            &&& client.excluded == Set::<u64>::empty()
            &&& client.pending == Some(shutdown_tx)
            &&& client.shutdown is None
            &&& client.data_offers.len() == 0 && client.data_takes.len() == 0
            &&& client.control_offers.len() == 0
            &&& client.datagram_offers.len() == 0 && client.datagram_takes.len() == 0
        }),
        final(ids).next_value() == (old(ids).next_value() + 1) % 0x1_0000_0000_0000_0000,
{
    law_session_settings(options, made, 0);
    let client = session.0@;
    assert(client.subscriptions.dom() =~= Set::<u64>::empty());
    assert(client.sequences.dom() =~= Set::<u64>::empty());
    assert(client.channels.dom() =~= Set::<u64>::empty());
}

/// What `accept_step` decides: a stop, and nothing else, ends the loop, and a client that has
/// connected, and nothing else, gets a session.
pub proof fn law_accept_step(event: AcceptEvent, action: AcceptAction)
    requires
        call_ensures(accept_step, (event,), action),
    ensures
        action == AcceptAction::Stop <==> event == AcceptEvent::Cancelled,
        action == AcceptAction::OpenSession <==> event == AcceptEvent::Connected,
        action == AcceptAction::Accept <==> event == AcceptEvent::ConnectionFailed || event
            == AcceptEvent::SessionFailed,
{
}

/// What a handle says of the server, and what stopping does: the token that the server stops at is
/// cancelled.
pub proof fn law_server_handle(
    addr: SocketAddress,
    cancel: CancellationToken,
    made: ServerHandle,
    handle: &mut ServerHandle,
    port: u16,
    shown: &SocketAddress,
)
    requires
        call_ensures(ServerHandle::new, (addr, cancel), made),
        *old(handle) == made,
        call_ensures(ServerHandle::port, (&made,), port),
        call_ensures(ServerHandle::addr, (&made,), shown),
        call_ensures(ServerHandle::stop, (handle,), ()),
    ensures
        port == addr.port,
        *shown == addr,
        made.stopped() == signal::cancelled(cancel),
        final(handle).stopped(),
        final(handle).token() == signal::token_of(cancel),
        final(handle).address() == addr,
{
}

/// What is read of a channel is what it was described with.
pub proof fn law_channel_parts(
    id: u64,
    topic: String,
    descriptor: ChannelDescriptor,
    channel: RawChannel,
    shown: (u64, &str, &ChannelDescriptor),
    of_descriptor: (u64, &str),
)
    requires
        call_ensures(ChannelDescriptor::new, (id, topic), descriptor),
        call_ensures(RawChannel::new, (descriptor,), channel),
        call_ensures(RawChannel::id, (&channel,), shown.0),
        call_ensures(RawChannel::topic, (&channel,), shown.1),
        call_ensures(RawChannel::descriptor, (&channel,), shown.2),
        call_ensures(ChannelDescriptor::id, (shown.2,), of_descriptor.0),
        call_ensures(ChannelDescriptor::topic, (shown.2,), of_descriptor.1),
    ensures
        shown.0 == id && channel.spec_id() == id && of_descriptor.0 == id,
        shown.1@ == topic@ && channel.spec_topic() == topic@ && of_descriptor.1@ == topic@,
{
}

/// The filter of all channels rejects none, and a filter that asks a function answers only what
/// the function may answer.
pub proof fn law_filters<G: Fn(&ChannelDescriptor) -> bool>(
    channel: ChannelDescriptor,
    answer: bool,
    function: G,
    asking: SinkChannelFilterFn<G>,
)
    requires
        call_ensures(SinkChannelFilterFn::<G>::new, (function,), asking),
    ensures
        AllChannels.may_answer(channel, answer) ==> answer,
        asking.may_answer(channel, answer) ==> call_ensures(function, (&channel,), answer),
{
}

/// What the two filters answer when they are asked.
pub proof fn law_filters_asked<G: Fn(&ChannelDescriptor) -> bool>(
    channel: &ChannelDescriptor,
    all: bool,
    asking: &SinkChannelFilterFn<G>,
    asked: bool,
)
    requires
        call_ensures(AllChannels::should_subscribe, (&AllChannels, channel), all),
        call_ensures(SinkChannelFilterFn::<G>::should_subscribe, (asking, channel), asked),
    ensures
        all,
        call_ensures(asking.function(), (channel,), asked),
{
}

/// What a server's options are unless something else is said.
pub proof fn law_default_options<F: SinkChannelFilter>(options: ServerOptions<F>)
    requires
        call_ensures(ServerOptions::<F>::default, (), options),
    ensures
        options.host@ == "0.0.0.0"@,
        options.port == 8766,
        options.tls.cert_path@.len() == 0 && options.tls.key_path@.len() == 0,
        options.compression_level == 1,
        options.message_backlog_size == 1024,
        options.max_datagram_size == 1200,
        options.datagram_topic_patterns@.len() == 0,
        options.channel_filter is None,
{
}

/// A copy of a TLS identity names the same certificate and the same key.
pub proof fn law_identity_copy(identity: &TlsIdentity, copy: TlsIdentity)
    requires
        call_ensures(TlsIdentity::clone, (identity,), copy),
    ensures
        copy.cert_path@ == identity.cert_path@,
        copy.key_path@ == identity.key_path@,
{
}

/// A context has the number that it was made with; the default context has the number 0.
pub proof fn law_contexts(
    id: u64,
    context: Arc<Context>,
    shown: u64,
    standard: Arc<Context>,
    standard_shown: u64,
)
    requires
        call_ensures(Context::new, (id,), context),
        call_ensures(Context::id, (&*context,), shown),
        call_ensures(Context::get_default, (), standard),
        call_ensures(Context::id, (&*standard,), standard_shown),
    ensures
        shown == id,
        standard_shown == 0,
{
}

} // verus!
