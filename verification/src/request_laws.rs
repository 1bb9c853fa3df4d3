//! What a client's messages ask for, and what comes of it.

use vstd::prelude::*;

use serde_json::Value;

use crate::channel::SinkChannelFilter;
use crate::connected_client;
use crate::connected_client::{ClientState, ConnectedClient, ShutdownReason};
use crate::ext::json::Json;
use crate::ext::{json, signal};
use crate::framing::StreamOpCode;
use crate::poller;
use crate::poller::{
    after_header, after_payload, apply_requests, client_requests, finish, handle_client_json,
    ChannelRequest, FrameOutcome, LoopEnd, ReadStep,
};
use crate::wire_laws;

verus! {

/// The request that one entry of a subscribe message makes: an object with a number as its `id`
/// asks for that channel.
pub open spec fn subscribe_entry(entry: Json) -> Option<ChannelRequest> {
    match entry {
        Json::Object(members) => if members.contains_key("id"@) {
            match members["id"@] {
                Json::Number(Some(n)) => Some(ChannelRequest::Subscribe(n)),
                _ => None,
            }
        } else {
            None
        },
        _ => None,
    }
}

/// The request that one entry of an unsubscribe message makes: a number asks to leave that
/// channel.
pub open spec fn unsubscribe_entry(entry: Json) -> Option<ChannelRequest> {
    match entry {
        Json::Number(Some(n)) => Some(ChannelRequest::Unsubscribe(n)),
        _ => None,
    }
}

proof fn lemma_given_subscribes(items: Seq<Json>)
    ensures
        connected_client::given(
            items.map_values(|entry: Json| poller::entry_id(entry)),
        ).map_values(|id: u64| ChannelRequest::Subscribe(id)) == items.filter_map(
            |entry: Json| subscribe_entry(entry),
        ),
    decreases items.len(),
{
    let ids = items.map_values(|entry: Json| poller::entry_id(entry));
    let asked = |id: u64| ChannelRequest::Subscribe(id);
    let f = |entry: Json| subscribe_entry(entry);
    if items.len() > 0 {
        lemma_given_subscribes(items.drop_last());
        assert(ids.drop_last() =~= items.drop_last().map_values(
            |entry: Json| poller::entry_id(entry),
        ));
        assert(ids.last() == poller::entry_id(items.last()));
        assert(connected_client::given(ids).map_values(asked) =~= items.filter_map(f));
    } else {
        assert(connected_client::given(ids).map_values(asked) =~= items.filter_map(f));
    }
}

proof fn lemma_given_unsubscribes(items: Seq<Json>)
    ensures
        connected_client::given(items.map_values(|id: Json| poller::number(id))).map_values(
            |id: u64| ChannelRequest::Unsubscribe(id),
        ) == items.filter_map(|entry: Json| unsubscribe_entry(entry)),
    decreases items.len(),
{
    let ids = items.map_values(|id: Json| poller::number(id));
    let asked = |id: u64| ChannelRequest::Unsubscribe(id);
    let f = |entry: Json| unsubscribe_entry(entry);
    if items.len() > 0 {
        lemma_given_unsubscribes(items.drop_last());
        assert(ids.drop_last() =~= items.drop_last().map_values(|id: Json| poller::number(id)));
        assert(ids.last() == poller::number(items.last()));
        assert(connected_client::given(ids).map_values(asked) =~= items.filter_map(f));
    } else {
        assert(connected_client::given(ids).map_values(asked) =~= items.filter_map(f));
    }
}

/// Every entry of a list that makes a request makes it, wherever in the list it is, and as many
/// requests are made as there are such entries.
proof fn lemma_filter_map_is_whole<A, B>(items: Seq<A>, f: spec_fn(A) -> Option<B>, at: int)
    ensures
        0 <= at < items.len() ==> (f(items[at]) matches Some(b) ==> items.filter_map(f).contains(
            b,
        )),
        items.filter_map(f).len() == items.filter(|a: A| f(a) is Some).len(),
    decreases items.len(),
{
    reveal(Seq::filter);
    if items.len() > 0 {
        let earlier = items.drop_last();
        let found = items.filter_map(f);
        lemma_filter_map_is_whole(earlier, f, at);
        if 0 <= at < items.len() && f(items[at]) is Some {
            let b = f(items[at])->0;
            if at < earlier.len() {
                assert(earlier[at] == items[at]);
                let j = choose|j: int|
                    0 <= j < earlier.filter_map(f).len() && earlier.filter_map(f)[j] == b;
                assert(found[j] == b);
            } else {
                assert(found[found.len() - 1] == b);
            }
        }
    }
}

/// A subscribe message asks for the channel of every entry of its list that names one, in the
/// order of the list, and for nothing else: of any entry, wherever it stands, and of as many as
/// there are.
pub proof fn law_subscribe_message(
    document: Json,
    members: Map<Seq<char>, Json>,
    items: Seq<Json>,
    at: int,
    entry: Map<Seq<char>, Json>,
    n: u64,
)
    requires
        document == Json::Object(members),
        members.contains_key("op"@),
        members["op"@] == Json::Str("subscribe"@),
        members.contains_key("channels"@),
        members["channels"@] == Json::Array(items),
    ensures
        poller::requests_of(document) == items.filter_map(|entry: Json| subscribe_entry(entry)),
        poller::requests_of(document).len() == items.filter(
            |entry: Json| subscribe_entry(entry) is Some,
        ).len(),
        (0 <= at < items.len() && items[at] == Json::Object(entry) && entry.contains_key("id"@)
            && entry["id"@] == Json::Number(Some(n))) ==> poller::requests_of(document).contains(
            ChannelRequest::Subscribe(n),
        ),
{
    let f = |entry: Json| subscribe_entry(entry);
    lemma_given_subscribes(items);
    lemma_filter_map_is_whole(items, f, at);
    let named = |entry: Json| subscribe_entry(entry) is Some;
    let passes = |a: Json| f(a) is Some;
    assert(named =~= passes);
}

/// An unsubscribe message asks to leave the channel of every number in its list, in the order of
/// the list, and for nothing else.
pub proof fn law_unsubscribe_message(
    document: Json,
    members: Map<Seq<char>, Json>,
    items: Seq<Json>,
    at: int,
    n: u64,
)
    requires
        document == Json::Object(members),
        members.contains_key("op"@),
        members["op"@] == Json::Str("unsubscribe"@),
        members.contains_key("channelIds"@),
        members["channelIds"@] == Json::Array(items),
    ensures
        poller::requests_of(document) == items.filter_map(|entry: Json| unsubscribe_entry(entry)),
        poller::requests_of(document).len() == items.filter(
            |entry: Json| unsubscribe_entry(entry) is Some,
        ).len(),
        (0 <= at < items.len() && items[at] == Json::Number(Some(n))) ==> poller::requests_of(
            document,
        ).contains(ChannelRequest::Unsubscribe(n)),
{
    reveal_strlit("subscribe");
    reveal_strlit("unsubscribe");
    assert("subscribe"@.len() != "unsubscribe"@.len());
    let f = |entry: Json| unsubscribe_entry(entry);
    lemma_given_unsubscribes(items);
    lemma_filter_map_is_whole(items, f, at);
    let named = |entry: Json| unsubscribe_entry(entry) is Some;
    let passes = |a: Json| f(a) is Some;
    assert(named =~= passes);
}

/// A message asks for nothing unless it is an object whose `op` is one of the two, with the list
/// that belongs to it.
pub proof fn law_other_messages_ask_for_nothing(document: Json)
    requires
        poller::requests_of(document).len() > 0,
    ensures
        document matches Json::Object(members) && members.contains_key("op"@) && {
            ||| {
                &&& members["op"@] == Json::Str("subscribe"@)
                &&& members.contains_key("channels"@)
                &&& members["channels"@] is Array
            }
            ||| {
                &&& members["op"@] == Json::Str("unsubscribe"@)
                &&& members.contains_key("channelIds"@)
                &&& members["channelIds"@] is Array
            }
        },
{
    let ids = poller::listed(document, "channels"@).map_values(
        |entry: Json| poller::entry_id(entry),
    );
    let left = poller::listed(document, "channelIds"@).map_values(
        |id: Json| poller::number(id),
    );
    if poller::listed(document, "channels"@).len() == 0 {
        assert(connected_client::given(ids).len() == 0);
    }
    if poller::listed(document, "channelIds"@).len() == 0 {
        assert(connected_client::given(left).len() == 0);
    }
}

/// What `client_requests` returns for a subscribe message: the channel of every entry that names
/// one, in order.
pub proof fn law_client_requests_of_subscribe(
    value: &Value,
    requests: Vec<ChannelRequest>,
    members: Map<Seq<char>, Json>,
    items: Seq<Json>,
)
    requires
        call_ensures(client_requests, (value,), requests),
        json::json_of(*value) == Json::Object(members),
        members.contains_key("op"@),
        members["op"@] == Json::Str("subscribe"@),
        members.contains_key("channels"@),
        members["channels"@] == Json::Array(items),
    ensures
        requests@ == items.filter_map(|entry: Json| subscribe_entry(entry)),
{
    lemma_given_subscribes(items);
}

/// What `client_requests` returns for an unsubscribe message: every number of its list, in order.
pub proof fn law_client_requests_of_unsubscribe(
    value: &Value,
    requests: Vec<ChannelRequest>,
    members: Map<Seq<char>, Json>,
    items: Seq<Json>,
)
    requires
        call_ensures(client_requests, (value,), requests),
        json::json_of(*value) == Json::Object(members),
        members.contains_key("op"@),
        members["op"@] == Json::Str("unsubscribe"@),
        members.contains_key("channelIds"@),
        members["channelIds"@] == Json::Array(items),
    ensures
        requests@ == items.filter_map(|entry: Json| unsubscribe_entry(entry)),
{
    reveal_strlit("subscribe");
    reveal_strlit("unsubscribe");
    assert("subscribe"@.len() != "unsubscribe"@.len());
    lemma_given_unsubscribes(items);
}

/// Requests are done one by one, in order, each in the state that those before it left; and each
/// is passed on to the context exactly where it is one to unsubscribe, or one to subscribe to a
/// channel that is neither subscribed to nor excluded.
pub proof fn law_requests_one_by_one(
    state: ClientState,
    requests: Seq<ChannelRequest>,
    request: ChannelRequest,
)
    ensures
        poller::all_requested(state, Seq::empty()) == state,
        poller::context_asked(state, Seq::empty()).len() == 0,
        ({
            let middle = poller::all_requested(state, requests);
            let asked = poller::context_asked(state, requests);
            &&& poller::all_requested(state, requests.push(request)) == (match request {
                ChannelRequest::Subscribe(id) => connected_client::subscribed(middle, id),
                ChannelRequest::Unsubscribe(id) => connected_client::unsubscribed(middle, id),
            })
            &&& poller::context_asked(state, requests.push(request)) == (match request {
                ChannelRequest::Subscribe(id) => if middle.subscriptions.contains_key(id)
                    || middle.excluded.contains(id) {
                    asked
                } else {
                    asked.push(request)
                },
                ChannelRequest::Unsubscribe(id) => asked.push(request),
            })
        }),
{
    assert(requests.push(request).drop_last() =~= requests);
}

/// What `apply_requests` does and returns: what its requests do one by one.
pub proof fn law_apply_requests<F: SinkChannelFilter>(
    client: &mut ConnectedClient<F>,
    requests: &Vec<ChannelRequest>,
    asked: Vec<ChannelRequest>,
)
    requires
        call_ensures(apply_requests::<F>, (client, requests), asked),
    ensures
        final(client)@ == poller::all_requested(old(client)@, requests@),
        asked@ == poller::context_asked(old(client)@, requests@),
{
}

/// What `handle_client_json` does and returns: what the requests of the document do that the text
/// is, and nothing where it is none.
pub proof fn law_handle_client_json<F: SinkChannelFilter>(
    client: &mut ConnectedClient<F>,
    text: &str,
    asked: Option<Vec<ChannelRequest>>,
)
    requires
        call_ensures(handle_client_json::<F>, (client, text), asked),
    ensures
        match json::json_parsed(text@) {
            Some(document) => {
                &&& final(client)@ == poller::all_requested(
                    old(client)@,
                    poller::requests_of(document),
                )
                &&& asked matches Some(list) && list@ == poller::context_asked(
                    old(client)@,
                    poller::requests_of(document),
                )
            },
            None => final(client)@ == old(client)@ && asked is None,
        },
{
}

/// What `after_payload` does and returns: a text frame with a JSON text does what the text asks
/// for; no other frame changes anything. Only a frame that is not whole ends the reading.
pub proof fn law_after_payload<F: SinkChannelFilter>(
    client: &mut ConnectedClient<F>,
    opcode: u8,
    payload: Option<&[u8]>,
    done: (ReadStep, FrameOutcome),
)
    requires
        call_ensures(after_payload::<F>, (client, opcode, payload), done),
    ensures
        payload is None ==> {
            &&& done.0 == ReadStep::Stop
            &&& done.1 is Truncated
            &&& final(client)@ == old(client)@
        },
        payload matches Some(bytes) ==> {
            let asks = if opcode == 1 && vstd::utf8::valid_utf8(bytes@) {
                json::json_parsed(vstd::utf8::decode_utf8(bytes@))
            } else {
                None
            };
            &&& done.0 == ReadStep::Header
            &&& asks matches Some(document) ==> {
                &&& final(client)@ == poller::all_requested(
                    old(client)@,
                    poller::requests_of(document),
                )
                &&& done.1 matches FrameOutcome::Asked(list) && list@ == poller::context_asked(
                    old(client)@,
                    poller::requests_of(document),
                )
            }
            &&& asks is None ==> final(client)@ == old(client)@ && !(done.1 is Asked)
            &&& done.1 is NotJson <==> opcode == 1 && vstd::utf8::valid_utf8(bytes@) && asks is None
            &&& done.1 is NotUtf8 <==> opcode == 1 && !vstd::utf8::valid_utf8(bytes@)
            &&& done.1 is Binary <==> opcode == 2 || opcode == 3
            &&& done.1 is UnknownOpcode <==> opcode == 0 || opcode > 3
        },
{
    assert(StreamOpCode::Text.code() == 1);
    assert(StreamOpCode::Binary.code() == 2);
    assert(StreamOpCode::CompressedBinary.code() == 3);
}

/// What `after_header` returns: the reading ends where there is no header, or where it announces
/// more than 16 MiB; else the payload that it announces is read.
pub proof fn law_after_header(header: Option<[u8; 5]>, step: ReadStep)
    requires
        call_ensures(after_header, (header,), step),
    ensures
        header is None ==> step == ReadStep::Stop,
        header matches Some(h) ==> {
            let len = h@[1] + h@[2] * 0x100 + h@[3] * 0x1_0000 + h@[4] * 0x100_0000;
            if len > 16 * 1024 * 1024 {
                step == ReadStep::Stop
            } else {
                step == (ReadStep::Payload { opcode: h@[0], len: len as usize })
            }
        },
{
    if header is Some {
        wire_laws::law_stream_header_reads_bytes((header->0)@);
    }
}

/// What `finish` does: a client whose stream stopped, one way or the other, and that has not been
/// shut down before, is shut down as disconnected, and that goes through its signal; otherwise
/// nothing changes.
pub proof fn law_finish<F: SinkChannelFilter>(client: &mut ConnectedClient<F>, end: LoopEnd)
    requires
        call_ensures(finish::<F>, (client, end), ()),
    ensures
        (end == LoopEnd::DatagramLoop || end == LoopEnd::Shutdown) ==> final(client)@ == old(
            client,
        )@,
        (end == LoopEnd::WriteLoop || end == LoopEnd::ReadLoop) ==> {
            match old(client)@.pending {
                None => final(client)@ == old(client)@,
                Some(tx) => {
                    &&& final(client)@ == (ClientState {
                        pending: None,
                        shutdown: Some(ShutdownReason::ClientDisconnected),
                        ..old(client)@
                    })
                    &&& signal::reason_sent(tx) matches Some(r) ==> r
                        == ShutdownReason::ClientDisconnected
                },
            }
        },
{
}

} // verus!
