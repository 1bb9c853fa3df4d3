//! Which channels a client is told of when channels are added, and in which frames.

use vstd::prelude::*;

use std::sync::Arc;

use crate::channel::{RawChannel, SinkChannelFilter};
use crate::client_laws;
use crate::connected_client;
use crate::connected_client::{ClientState, ConnectedClient, ShutdownReason};
use crate::framing;
use crate::framing::StreamOpCode;

verus! {

/// Whether the filter answers for each of the channels as `pass` says; where there is no filter,
/// every channel passes.
pub open spec fn decides<F: SinkChannelFilter>(
    filter: Option<Arc<F>>,
    channels: Seq<Arc<RawChannel>>,
    pass: spec_fn(Arc<RawChannel>) -> bool,
) -> bool {
    match filter {
        Some(f) => forall|i: int, answer: bool|
            0 <= i < channels.len() && #[trigger] f.may_answer(
                channels[i].spec_descriptor(),
                answer,
            ) ==> answer == pass(channels[i]),
        None => forall|i: int| 0 <= i < channels.len() ==> pass(#[trigger] channels[i]),
    }
}

/// Whether `describe` answers for every channel as `desc` says.
pub open spec fn describes<D, A: Fn(&RawChannel) -> Option<D>>(
    describe: A,
    desc: spec_fn(Arc<RawChannel>) -> Option<D>,
) -> bool {
    forall|channel: Arc<RawChannel>, answer: Option<D>| #[trigger]
        call_ensures(describe, (&*channel,), answer) ==> answer == desc(channel)
}

/// Whether the frame is the text frame of a text that `render` may give for those descriptions.
pub open spec fn renders_as<D, R: Fn(&Vec<D>) -> String>(
    render: R,
    descriptions: Seq<D>,
    frame: Seq<u8>,
) -> bool {
    exists|list: Vec<D>, text: String|
        {
            &&& list@ == descriptions
            &&& #[trigger] call_ensures(render, (&list,), text)
            &&& frame == framing::stream_frame(
                StreamOpCode::Text,
                vstd::utf8::encode_utf8(text@),
            )
        }
}

/// Whether the frame tells of the channel: it is the text frame of a text that `render` may give
/// for descriptions among which there is one that `describe` may give for the channel.
pub open spec fn tells_of<D, A: Fn(&RawChannel) -> Option<D>, R: Fn(&Vec<D>) -> String>(
    describe: A,
    render: R,
    channel: Arc<RawChannel>,
    frame: Seq<u8>,
) -> bool {
    exists|descriptions: Seq<D>, d: D|
        {
            &&& #[trigger] renders_as(render, descriptions, frame)
            &&& #[trigger] descriptions.contains(d)
            &&& call_ensures(describe, (&*channel,), Some(d))
        }
}

proof fn lemma_selected_is_filter<T>(items: Seq<T>, answers: Seq<bool>, keep: spec_fn(T) -> bool)
    requires
        items.len() <= answers.len(),
        forall|i: int| 0 <= i < items.len() ==> #[trigger] answers[i] == keep(items[i]),
    ensures
        connected_client::selected(items, answers) == items.filter(keep),
    decreases items.len(),
{
    reveal(Seq::filter);
    if items.len() > 0 {
        assert forall|i: int| 0 <= i < items.drop_last().len() implies #[trigger] answers[i]
            == keep(items.drop_last()[i]) by {
            assert(items.drop_last()[i] == items[i]);
        }
        lemma_selected_is_filter(items.drop_last(), answers, keep);
        assert(answers[items.len() - 1] == keep(items.last()));
    }
}

proof fn lemma_given_is_filter_map<T, D>(
    items: Seq<T>,
    answers: Seq<Option<D>>,
    desc: spec_fn(T) -> Option<D>,
)
    requires
        items.len() == answers.len(),
        forall|i: int| 0 <= i < items.len() ==> #[trigger] answers[i] == desc(items[i]),
    ensures
        connected_client::given(answers) == items.filter_map(desc),
    decreases items.len(),
{
    if items.len() > 0 {
        assert forall|i: int| 0 <= i < items.drop_last().len() implies #[trigger]
            answers.drop_last()[i] == desc(items.drop_last()[i]) by {
            assert(answers.drop_last()[i] == answers[i]);
            assert(items.drop_last()[i] == items[i]);
        }
        lemma_given_is_filter_map(items.drop_last(), answers.drop_last(), desc);
        assert(answers.last() == desc(items.last()));
        match answers.last() {
            Some(d) => {
                assert(connected_client::given(answers.drop_last()).push(d)
                    =~= connected_client::given(answers.drop_last()) + seq![d]);
            },
            None => {},
        }
    }
}

/// A value among the answers is given.
proof fn lemma_given_contains<D>(answers: Seq<Option<D>>, at: int)
    requires
        0 <= at < answers.len(),
        answers[at] is Some,
    ensures
        connected_client::given(answers).contains(answers[at]->0),
    decreases answers.len(),
{
    let earlier = connected_client::given(answers.drop_last());
    let d = answers[at]->0;
    if at == answers.len() - 1 {
        assert(connected_client::given(answers) == earlier.push(d));
        assert(connected_client::given(answers)[earlier.len() as int] == d);
    } else {
        lemma_given_contains(answers.drop_last(), at);
        let i = choose|i: int| 0 <= i < earlier.len() && earlier[i] == d;
        assert(connected_client::given(answers)[i] == d);
    }
}

/// An item that its answer lets through is among what is let through.
proof fn lemma_selected_contains<T>(items: Seq<T>, answers: Seq<bool>, at: int)
    requires
        0 <= at < items.len() <= answers.len(),
        answers[at],
    ensures
        connected_client::selected(items, answers).contains(items[at]),
    decreases items.len(),
{
    let earlier = connected_client::selected(items.drop_last(), answers);
    if at == items.len() - 1 {
        assert(connected_client::selected(items, answers)[earlier.len() as int] == items[at]);
    } else {
        lemma_selected_contains(items.drop_last(), answers, at);
        let i = choose|i: int| 0 <= i < earlier.len() && earlier[i] == items[at];
        assert(connected_client::selected(items, answers)[i] == items[at]);
    }
}

/// What is let through was there.
proof fn lemma_selected_from<T>(items: Seq<T>, answers: Seq<bool>, item: T)
    requires
        connected_client::selected(items, answers).contains(item),
    ensures
        items.contains(item),
    decreases items.len(),
{
    if items.len() > 0 {
        let all = connected_client::selected(items, answers);
        let earlier = connected_client::selected(items.drop_last(), answers);
        let k = choose|k: int| 0 <= k < all.len() && all[k] == item;
        if k < earlier.len() {
            assert(earlier[k] == item);
            lemma_selected_from(items.drop_last(), answers, item);
            let i = choose|i: int|
                0 <= i < items.drop_last().len() && items.drop_last()[i] == item;
            assert(items[i] == item);
        } else {
            assert(items[items.len() - 1] == item);
        }
    }
}

/// Each item of a part is among all the parts.
proof fn lemma_joined_contains<T>(parts: Seq<Seq<T>>, part: int, at: int)
    requires
        0 <= part < parts.len(),
        0 <= at < parts[part].len(),
    ensures
        connected_client::joined(parts).contains(parts[part][at]),
    decreases parts.len(),
{
    let earlier = connected_client::joined(parts.drop_last());
    if part == parts.len() - 1 {
        assert(connected_client::joined(parts)[earlier.len() + at] == parts[part][at]);
    } else {
        lemma_joined_contains(parts.drop_last(), part, at);
        let i = choose|i: int| 0 <= i < earlier.len() && earlier[i] == parts[part][at];
        assert(connected_client::joined(parts)[i] == parts[part][at]);
    }
}

/// Where each part is one frame that stands for a list that is not empty, or nothing for an empty
/// list, the frames of all the parts stand for the lists that are not empty, in order.
proof fn lemma_joined_frames<D, R: Fn(&Vec<D>) -> String>(
    render: R,
    lists: Seq<Seq<D>>,
    frames: Seq<Seq<Seq<u8>>>,
)
    requires
        lists.len() == frames.len(),
        forall|b: int|
            #![trigger lists[b]]
            #![trigger frames[b]]
            0 <= b < lists.len() ==> if lists[b].len() == 0 {
                frames[b].len() == 0
            } else {
                frames[b].len() == 1 && renders_as(render, lists[b], frames[b][0])
            },
    ensures
        ({
            let told = lists.filter(|list: Seq<D>| list.len() > 0);
            let all = connected_client::joined(frames);
            &&& all.len() == told.len()
            &&& forall|k: int|
                0 <= k < told.len() ==> renders_as(render, #[trigger] told[k], all[k])
        }),
    decreases lists.len(),
{
    reveal(Seq::filter);
    if lists.len() > 0 {
        let n = lists.len() - 1;
        assert forall|b: int| 0 <= b < n implies if #[trigger] lists.drop_last()[b].len() == 0 {
            frames.drop_last()[b].len() == 0
        } else {
            frames.drop_last()[b].len() == 1 && renders_as(
                render,
                lists.drop_last()[b],
                frames.drop_last()[b][0],
            )
        } by {
            assert(lists.drop_last()[b] == lists[b]);
            assert(frames.drop_last()[b] == frames[b]);
        }
        lemma_joined_frames(render, lists.drop_last(), frames.drop_last());
        assert(lists.last() == lists[n]);
        assert(frames.last() == frames[n]);
    }
}

/// Of channels one after the other, the last of an identifier is the one that is known, and what
/// was known of any other identifier stays.
pub proof fn law_last_channel_is_known(
    known: Map<u64, Arc<RawChannel>>,
    added: Seq<Arc<RawChannel>>,
    channel_id: u64,
    last: int,
)
    ensures
        (0 <= last < added.len() && added[last].spec_id() == channel_id && forall|j: int|
            last < j < added.len() ==> (#[trigger] added[j]).spec_id() != channel_id) ==> {
            &&& connected_client::cached(known, added).contains_key(channel_id)
            &&& connected_client::cached(known, added)[channel_id] == added[last]
        },
        (forall|j: int| 0 <= j < added.len() ==> (#[trigger] added[j]).spec_id() != channel_id)
            ==> {
            &&& connected_client::cached(known, added).contains_key(channel_id)
                == known.contains_key(channel_id)
            &&& connected_client::cached(known, added)[channel_id] == known[channel_id]
        },
    decreases added.len(),
{
    if added.len() > 0 {
        let earlier = added.drop_last();
        law_last_channel_is_known(known, earlier, channel_id, last);
        assert(forall|j: int| 0 <= j < earlier.len() ==> #[trigger] earlier[j] == added[j]);
        assert(added.last() == added[added.len() - 1]);
    }
}

/// Some channel of an identifier that was added is known.
proof fn lemma_some_channel_is_known(
    known: Map<u64, Arc<RawChannel>>,
    added: Seq<Arc<RawChannel>>,
    at: int,
)
    requires
        0 <= at < added.len(),
    ensures
        ({
            let channel_id = added[at].spec_id();
            let after = connected_client::cached(known, added);
            &&& after.contains_key(channel_id)
            &&& added.contains(after[channel_id])
            &&& after[channel_id].spec_id() == channel_id
        }),
    decreases added.len(),
{
    let earlier = added.drop_last();
    assert(added.last() == added[added.len() - 1]);
    if added.last().spec_id() != added[at].spec_id() {
        assert(earlier[at] == added[at]);
        lemma_some_channel_is_known(known, earlier, at);
        let channel = connected_client::cached(known, earlier)[added[at].spec_id()];
        let i = choose|i: int| 0 <= i < earlier.len() && earlier[i] == channel;
        assert(added[i] == channel);
    }
}

/// What the filter's answers do: whether a channel is excluded is what the last answer about it
/// says; a client stays subscribed to a channel unless one of the answers about it rejects it; and
/// nothing else changes.
pub proof fn law_filter_answers(
    before: ClientState,
    channels: Seq<Arc<RawChannel>>,
    answers: Seq<bool>,
    channel_id: u64,
    last: int,
)
    requires
        channels.len() <= answers.len(),
    ensures
        ({
            let after = connected_client::after_filter(before, channels, answers);
            &&& (0 <= last < channels.len() && channels[last].spec_id() == channel_id && forall|
                j: int,
            |
                last < j < channels.len() ==> (#[trigger] channels[j]).spec_id() != channel_id)
                ==> after.excluded.contains(channel_id) == !answers[last]
            &&& (forall|j: int|
                0 <= j < channels.len() ==> (#[trigger] channels[j]).spec_id() != channel_id)
                ==> after.excluded.contains(channel_id) == before.excluded.contains(channel_id)
            &&& after.subscriptions.contains_key(channel_id) <==> {
                &&& before.subscriptions.contains_key(channel_id)
                &&& forall|j: int|
                    0 <= j < channels.len() && (#[trigger] channels[j]).spec_id() == channel_id
                        ==> answers[j]
            }
            &&& after.subscriptions.contains_key(channel_id) ==> after.subscriptions[channel_id]
                == before.subscriptions[channel_id]
            &&& after == (ClientState {
                subscriptions: after.subscriptions,
                excluded: after.excluded,
                ..before
            })
        }),
    decreases channels.len(),
{
    if channels.len() > 0 {
        let earlier = channels.drop_last();
        law_filter_answers(before, earlier, answers, channel_id, last);
        assert(forall|j: int|
            #![trigger earlier[j]]
            #![trigger channels[j]]
            0 <= j < earlier.len() ==> earlier[j] == channels[j]);
        assert(channels.last() == channels[channels.len() - 1]);
        if forall|j: int|
            0 <= j < earlier.len() && (#[trigger] earlier[j]).spec_id() == channel_id
                ==> answers[j] {
        } else {
            let j = choose|j: int|
                0 <= j < earlier.len() && (#[trigger] earlier[j]).spec_id() == channel_id
                    && !answers[j];
            assert(channels[j] == earlier[j]);
        }
    }
}

/// The filter's answers and the frames that channels were added with.
proof fn chosen_addition<
    F: SinkChannelFilter,
    D,
    A: Fn(&RawChannel) -> Option<D>,
    R: Fn(&Vec<D>) -> String,
>(
    filter: Option<Arc<F>>,
    describe: A,
    render: R,
    before: ClientState,
    channels: Seq<Arc<RawChannel>>,
    after: ClientState,
) -> (chosen: (Seq<bool>, Seq<Seq<Seq<u8>>>))
    requires
        connected_client::channels_added(filter, describe, render, before, channels, after),
    ensures
        connected_client::filtered(filter, channels, chosen.0),
        connected_client::advertisements(
            describe,
            render,
            connected_client::selected(channels, chosen.0),
            chosen.1,
        ),
        connected_client::controls_sent(
            (ClientState {
                channels: connected_client::cached(
                    before.channels,
                    connected_client::selected(channels, chosen.0),
                ),
                ..connected_client::after_filter(before, channels, chosen.0)
            }),
            connected_client::joined(chosen.1),
            after,
        ),
{
    choose|answers: Seq<bool>, frames: Seq<Seq<Seq<u8>>>|
        {
            &&& #[trigger] connected_client::filtered(filter, channels, answers)
            &&& #[trigger] connected_client::advertisements(
                describe,
                render,
                connected_client::selected(channels, answers),
                frames,
            )
            &&& connected_client::controls_sent(
                ClientState {
                    channels: connected_client::cached(
                        before.channels,
                        connected_client::selected(channels, answers),
                    ),
                    ..connected_client::after_filter(before, channels, answers)
                },
                connected_client::joined(frames),
                after,
            )
        }
}

/// Whatever a client was told of before, it is told of a channel that is added and that the filter
/// cannot reject: it knows a channel of that identifier among the added ones, and, where
/// `describe` cannot fail to describe the channel, one of the frames that its control queue is
/// newly offered tells of it.
pub proof fn law_added_channel_is_told_of<
    F: SinkChannelFilter,
    D,
    A: Fn(&RawChannel) -> Option<D>,
    R: Fn(&Vec<D>) -> String,
>(
    filter: Option<Arc<F>>,
    describe: A,
    render: R,
    before: ClientState,
    channels: Seq<Arc<RawChannel>>,
    after: ClientState,
    at: int,
)
    requires
        connected_client::channels_added(filter, describe, render, before, channels, after),
        0 <= at < channels.len(),
        filter matches Some(f) ==> !f.may_answer(channels[at].spec_descriptor(), false),
    ensures
        after.channels.contains_key(channels[at].spec_id()),
        channels.contains(after.channels[channels[at].spec_id()]),
        after.channels[channels[at].spec_id()].spec_id() == channels[at].spec_id(),
        (forall|j: int|
            at < j < channels.len() ==> (#[trigger] channels[j]).spec_id()
                != channels[at].spec_id()) ==> !after.excluded.contains(channels[at].spec_id()),
        after.control_offers.len() >= before.control_offers.len(),
        after.control_offers.take(before.control_offers.len() as int) == before.control_offers,
        !call_ensures(describe, (&*channels[at],), None::<D>) ==> exists|k: int|
            before.control_offers.len() <= k < after.control_offers.len() && tells_of(
                describe,
                render,
                channels[at],
                (#[trigger] after.control_offers[k]).0,
            ),
{
    let (answers, frames) = chosen_addition(filter, describe, render, before, channels, after);
    let kept = connected_client::selected(channels, answers);
    let all = connected_client::joined(frames);
    let channel = channels[at];
    let channel_id = channel.spec_id();
    let told = ClientState {
        channels: connected_client::cached(before.channels, kept),
        ..connected_client::after_filter(before, channels, answers)
    };
    assert(answers[at]);
    law_filter_answers(before, channels, answers, channel_id, at);
    client_laws::law_controls_sent(told, all, after, 0);
    lemma_selected_contains(channels, answers, at);
    let m = choose|m: int| 0 <= m < kept.len() && kept[m] == channel;
    lemma_some_channel_is_known(before.channels, kept, m);
    lemma_selected_from(channels, answers, after.channels[channel_id]);
    if !call_ensures(describe, (&*channel,), None::<D>) {
        let b = m / 100;
        let part = connected_client::batch(kept, b);
        assert(0 <= b < frames.len());
        assert(part[m - 100 * b] == kept[m]);
        assert(connected_client::advertisement(describe, render, part, frames[b]));
        let descs = choose|descs: Seq<Option<D>>|
            {
                &&& #[trigger] connected_client::described(describe, part, descs)
                &&& if connected_client::given(descs).len() == 0 {
                    frames[b].len() == 0
                } else {
                    exists|list: Vec<D>, text: String|
                        {
                            &&& list@ == connected_client::given(descs)
                            &&& #[trigger] call_ensures(render, (&list,), text)
                            &&& frames[b] == seq![
                                framing::stream_frame(
                                    StreamOpCode::Text,
                                    vstd::utf8::encode_utf8(text@),
                                ),
                            ]
                        }
                }
            };
        let j = m - 100 * b;
        assert(call_ensures(describe, (&*part[j],), descs[j]));
        assert(descs[j] is Some);
        lemma_given_contains(descs, j);
        let list = connected_client::given(descs);
        assert(list.contains(descs[j]->0));
        assert(renders_as(render, list, frames[b][0]));
        assert(tells_of(describe, render, channel, frames[b][0]));
        lemma_joined_contains(frames, b, 0);
        let k = choose|k: int| 0 <= k < all.len() && all[k] == frames[b][0];
        client_laws::law_controls_sent(told, all, after, k);
        let place = before.control_offers.len() + k;
        assert(after.control_offers[place].0 == frames[b][0]);
    }
}

/// What adding channels does, where the filter and `describe` answer the same whenever they are
/// asked. The channels that pass are taken in order, a hundred at a time, and so are their
/// descriptions; for each hundred in which some channel has a description, one frame is offered to
/// the control queue, the text frame of a text that `render` may give for those descriptions, and
/// there are no other frames. Whatever the client was told of before has no part in that.
pub proof fn law_channels_are_advertised<
    F: SinkChannelFilter,
    D,
    A: Fn(&RawChannel) -> Option<D>,
    R: Fn(&Vec<D>) -> String,
>(
    filter: Option<Arc<F>>,
    describe: A,
    render: R,
    before: ClientState,
    channels: Seq<Arc<RawChannel>>,
    after: ClientState,
    pass: spec_fn(Arc<RawChannel>) -> bool,
    desc: spec_fn(Arc<RawChannel>) -> Option<D>,
)
    requires
        connected_client::channels_added(filter, describe, render, before, channels, after),
        decides(filter, channels, pass),
        describes(describe, desc),
    ensures
        ({
            let kept = channels.filter(pass);
            let lists = Seq::new(
                ((kept.len() + 99) / 100) as nat,
                |b: int|
                    kept.subrange(
                        100 * b,
                        if 100 * b + 100 < kept.len() {
                            100 * b + 100
                        } else {
                            kept.len() as int
                        },
                    ).filter_map(desc),
            );
            let told = lists.filter(|list: Seq<D>| list.len() > 0);
            let offers0 = before.control_offers;
            let offers1 = after.control_offers;
            &&& offers1.len() == offers0.len() + told.len()
            &&& offers1.take(offers0.len() as int) == offers0
            &&& forall|k: int|
                0 <= k < told.len() ==> renders_as(
                    render,
                    #[trigger] told[k],
                    offers1[offers0.len() + k].0,
                )
        }),
{
    let (answers, frames) = chosen_addition(filter, describe, render, before, channels, after);
    assert forall|i: int| 0 <= i < channels.len() implies #[trigger] answers[i] == pass(
        channels[i],
    ) by {
        match filter {
            Some(f) => {
                assert(f.may_answer(channels[i].spec_descriptor(), answers[i]));
            },
            None => {},
        }
    }
    lemma_selected_is_filter(channels, answers, pass);
    let kept = channels.filter(pass);
    let lists = Seq::new(
        ((kept.len() + 99) / 100) as nat,
        |b: int|
            kept.subrange(
                100 * b,
                if 100 * b + 100 < kept.len() {
                    100 * b + 100
                } else {
                    kept.len() as int
                },
            ).filter_map(desc),
    );
    assert forall|b: int|
        #![trigger lists[b]]
        #![trigger frames[b]]
        0 <= b < lists.len() implies if lists[b].len() == 0 {
        frames[b].len() == 0
    } else {
        frames[b].len() == 1 && renders_as(render, lists[b], frames[b][0])
    } by {
        let part = kept.subrange(
            100 * b,
            if 100 * b + 100 < kept.len() {
                100 * b + 100
            } else {
                kept.len() as int
            },
        );
        assert(part =~= connected_client::batch(kept, b));
        assert(connected_client::advertisement(describe, render, part, frames[b]));
        let descs = choose|descs: Seq<Option<D>>|
            {
                &&& #[trigger] connected_client::described(describe, part, descs)
                &&& if connected_client::given(descs).len() == 0 {
                    frames[b].len() == 0
                } else {
                    exists|list: Vec<D>, text: String|
                        {
                            &&& list@ == connected_client::given(descs)
                            &&& #[trigger] call_ensures(render, (&list,), text)
                            &&& frames[b] == seq![
                                framing::stream_frame(
                                    StreamOpCode::Text,
                                    vstd::utf8::encode_utf8(text@),
                                ),
                            ]
                        }
                }
            };
        assert forall|j: int| 0 <= j < part.len() implies #[trigger] descs[j] == desc(part[j]) by {
            assert(call_ensures(describe, (&*part[j],), descs[j]));
        }
        lemma_given_is_filter_map(part, descs, desc);
        assert(lists[b] == connected_client::given(descs));
    }
    lemma_joined_frames(render, lists, frames);
    let told = lists.filter(|list: Seq<D>| list.len() > 0);
    let all = connected_client::joined(frames);
    let state = ClientState {
        channels: connected_client::cached(before.channels, kept),
        ..connected_client::after_filter(before, channels, answers)
    };
    law_filter_answers(before, channels, answers, 0, 0);
    client_laws::law_controls_sent(state, all, after, 0);
    assert forall|k: int| 0 <= k < told.len() implies renders_as(
        render,
        #[trigger] told[k],
        after.control_offers[before.control_offers.len() + k].0,
    ) by {
        client_laws::law_controls_sent(state, all, after, k);
    }
}

/// What adding channels makes of one identifier, where the filter answers the same whenever it is
/// asked: the client knows the last channel of that identifier that passes, and what it knew
/// before where none passes; it is excluded where the last channel of that identifier does not
/// pass, and stays as it was where there is none; the client stays subscribed to it where every
/// channel of that identifier passes. Nothing else changes but for the control queue, and for the
/// shutdown of a client whose queue refuses a frame.
pub proof fn law_channels_are_sorted<
    F: SinkChannelFilter,
    D,
    A: Fn(&RawChannel) -> Option<D>,
    R: Fn(&Vec<D>) -> String,
>(
    filter: Option<Arc<F>>,
    describe: A,
    render: R,
    before: ClientState,
    channels: Seq<Arc<RawChannel>>,
    after: ClientState,
    pass: spec_fn(Arc<RawChannel>) -> bool,
    channel_id: u64,
    last: int,
)
    requires
        connected_client::channels_added(filter, describe, render, before, channels, after),
        decides(filter, channels, pass),
    ensures
        ({
            let kept = channels.filter(pass);
            let refused = exists|i: int|
                before.control_offers.len() <= i < after.control_offers.len() && !(#[trigger]
                after.control_offers[i]).1;
            &&& (0 <= last < kept.len() && kept[last].spec_id() == channel_id && forall|j: int|
                last < j < kept.len() ==> (#[trigger] kept[j]).spec_id() != channel_id) ==> {
                &&& after.channels.contains_key(channel_id)
                &&& after.channels[channel_id] == kept[last]
            }
            &&& (forall|j: int|
                0 <= j < kept.len() ==> (#[trigger] kept[j]).spec_id() != channel_id) ==> {
                &&& after.channels.contains_key(channel_id) == before.channels.contains_key(
                    channel_id,
                )
                &&& after.channels[channel_id] == before.channels[channel_id]
            }
            &&& (0 <= last < channels.len() && channels[last].spec_id() == channel_id && forall|
                j: int,
            |
                last < j < channels.len() ==> (#[trigger] channels[j]).spec_id() != channel_id)
                ==> after.excluded.contains(channel_id) == !pass(channels[last])
            &&& (forall|j: int|
                0 <= j < channels.len() ==> (#[trigger] channels[j]).spec_id() != channel_id)
                ==> after.excluded.contains(channel_id) == before.excluded.contains(channel_id)
            &&& after.subscriptions.contains_key(channel_id) <==> {
                &&& before.subscriptions.contains_key(channel_id)
                &&& forall|j: int|
                    0 <= j < channels.len() && (#[trigger] channels[j]).spec_id() == channel_id
                        ==> pass(channels[j])
            }
            &&& after.subscriptions.contains_key(channel_id) ==> after.subscriptions[channel_id]
                == before.subscriptions[channel_id]
            &&& after == (ClientState {
                channels: after.channels,
                excluded: after.excluded,
                subscriptions: after.subscriptions,
                control_offers: after.control_offers,
                pending: after.pending,
                shutdown: after.shutdown,
                ..before
            })
            &&& (!refused || before.pending is None) ==> {
                &&& after.pending == before.pending
                &&& after.shutdown == before.shutdown
            }
            &&& (refused && before.pending is Some) ==> {
                &&& after.pending is None
                &&& after.shutdown == Some(ShutdownReason::ControlPlaneQueueFull)
            }
        }),
{
    let (answers, frames) = chosen_addition(filter, describe, render, before, channels, after);
    assert forall|i: int| 0 <= i < channels.len() implies #[trigger] answers[i] == pass(
        channels[i],
    ) by {
        match filter {
            Some(f) => {
                assert(f.may_answer(channels[i].spec_descriptor(), answers[i]));
            },
            None => {},
        }
    }
    lemma_selected_is_filter(channels, answers, pass);
    let kept = channels.filter(pass);
    let state = ClientState {
        channels: connected_client::cached(before.channels, kept),
        ..connected_client::after_filter(before, channels, answers)
    };
    law_last_channel_is_known(before.channels, kept, channel_id, last);
    law_filter_answers(before, channels, answers, channel_id, last);
    client_laws::law_controls_sent(state, connected_client::joined(frames), after, 0);
}

/// What `ConnectedClient::add_channels` does, as seen of one of the channels: the client is told
/// of it, unless the filter can reject it, whatever it was told of before. No channel is
/// subscribed to at once.
pub proof fn law_add_channels_tells<
    F: SinkChannelFilter,
    D,
    A: Fn(&RawChannel) -> Option<D>,
    R: Fn(&Vec<D>) -> String,
>(
    client: &mut ConnectedClient<F>,
    channels: &Vec<Arc<RawChannel>>,
    describe: &A,
    render: &R,
    subscribed_to: Option<Vec<u64>>,
    at: int,
)
    requires
        call_ensures(
            ConnectedClient::<F>::add_channels::<D, A, R>,
            (client, channels, describe, render),
            subscribed_to,
        ),
        0 <= at < channels@.len(),
        old(client).filter() matches Some(f) ==> !f.may_answer(
            channels@[at].spec_descriptor(),
            false,
        ),
    ensures
        subscribed_to is None,
        final(client)@.channels.contains_key(channels@[at].spec_id()),
        channels@.contains(final(client)@.channels[channels@[at].spec_id()]),
        !call_ensures(*describe, (&*channels@[at],), None::<D>) ==> exists|k: int|
            old(client)@.control_offers.len() <= k < final(client)@.control_offers.len()
                && tells_of(
                *describe,
                *render,
                channels@[at],
                (#[trigger] final(client)@.control_offers[k]).0,
            ),
{
    law_added_channel_is_told_of(
        old(client).filter(),
        *describe,
        *render,
        old(client)@,
        channels@,
        final(client)@,
        at,
    );
}

/// What `ConnectedClient::add_channels` offers to the control queue, where the filter and
/// `describe` answer the same whenever they are asked: one frame for each hundred of the channels
/// that pass in which some channel has a description, whatever the client was told of before.
pub proof fn law_add_channels_frames<
    F: SinkChannelFilter,
    D,
    A: Fn(&RawChannel) -> Option<D>,
    R: Fn(&Vec<D>) -> String,
>(
    client: &mut ConnectedClient<F>,
    channels: &Vec<Arc<RawChannel>>,
    describe: &A,
    render: &R,
    subscribed_to: Option<Vec<u64>>,
    pass: spec_fn(Arc<RawChannel>) -> bool,
    desc: spec_fn(Arc<RawChannel>) -> Option<D>,
)
    requires
        call_ensures(
            ConnectedClient::<F>::add_channels::<D, A, R>,
            (client, channels, describe, render),
            subscribed_to,
        ),
        decides(old(client).filter(), channels@, pass),
        describes(*describe, desc),
    ensures
        ({
            let kept = channels@.filter(pass);
            let lists = Seq::new(
                ((kept.len() + 99) / 100) as nat,
                |b: int|
                    kept.subrange(
                        100 * b,
                        if 100 * b + 100 < kept.len() {
                            100 * b + 100
                        } else {
                            kept.len() as int
                        },
                    ).filter_map(desc),
            );
            let told = lists.filter(|list: Seq<D>| list.len() > 0);
            let offers0 = old(client)@.control_offers;
            let offers1 = final(client)@.control_offers;
            &&& offers1.len() == offers0.len() + told.len()
            &&& offers1.take(offers0.len() as int) == offers0
            &&& forall|k: int|
                0 <= k < told.len() ==> renders_as(
                    *render,
                    #[trigger] told[k],
                    offers1[offers0.len() + k].0,
                )
        }),
{
    law_channels_are_advertised(
        old(client).filter(),
        *describe,
        *render,
        old(client)@,
        channels@,
        final(client)@,
        pass,
        desc,
    );
}

/// What `ConnectedClient::add_channels` makes of one identifier, where the filter answers the same
/// whenever it is asked, as far as the client's subscriptions, what it knows and what is excluded
/// go.
pub proof fn law_add_channels_sorts<
    F: SinkChannelFilter,
    D,
    A: Fn(&RawChannel) -> Option<D>,
    R: Fn(&Vec<D>) -> String,
>(
    client: &mut ConnectedClient<F>,
    channels: &Vec<Arc<RawChannel>>,
    describe: &A,
    render: &R,
    subscribed_to: Option<Vec<u64>>,
    pass: spec_fn(Arc<RawChannel>) -> bool,
    at: int,
    other: u64,
)
    requires
        call_ensures(
            ConnectedClient::<F>::add_channels::<D, A, R>,
            (client, channels, describe, render),
            subscribed_to,
        ),
        decides(old(client).filter(), channels@, pass),
        0 <= at < channels@.len(),
        forall|j: int|
            0 <= j < channels@.len() && j != at ==> (#[trigger] channels@[j]).spec_id()
                != channels@[at].spec_id(),
        forall|j: int| 0 <= j < channels@.len() ==> (#[trigger] channels@[j]).spec_id() != other,
    ensures
        ({
            let id = channels@[at].spec_id();
            let before = old(client)@;
            let after = final(client)@;
            &&& after.excluded.contains(id) <==> !pass(channels@[at])
            &&& pass(channels@[at]) ==> {
                &&& after.channels.contains_key(id)
                &&& after.channels[id] == channels@[at]
                &&& after.subscriptions.contains_key(id) == before.subscriptions.contains_key(id)
                &&& after.subscriptions.contains_key(id) ==> after.subscriptions[id]
                    == before.subscriptions[id]
            }
            &&& !pass(channels@[at]) ==> {
                &&& after.channels.contains_key(id) == before.channels.contains_key(id)
                &&& after.channels[id] == before.channels[id]
                &&& !after.subscriptions.contains_key(id)
            }
            &&& after.excluded.contains(other) == before.excluded.contains(other)
            &&& after.channels.contains_key(other) == before.channels.contains_key(other)
            &&& after.channels[other] == before.channels[other]
            &&& after.subscriptions.contains_key(other) == before.subscriptions.contains_key(other)
            &&& after.subscriptions.contains_key(other) ==> after.subscriptions[other]
                == before.subscriptions[other]
            &&& after.settings == before.settings
            &&& after.next_subscription_id == before.next_subscription_id
            &&& after.sequences == before.sequences
            &&& after.data_offers == before.data_offers && after.data_takes == before.data_takes
            &&& after.datagram_offers == before.datagram_offers
            &&& after.datagram_takes == before.datagram_takes
            &&& final(client).filter() == old(client).filter()
        }),
{
    let before = old(client)@;
    let after = final(client)@;
    let id = channels@[at].spec_id();
    let kept = channels@.filter(pass);
    lemma_filter_from(channels@, pass);
    assert forall|j: int| 0 <= j < kept.len() implies (#[trigger] kept[j]).spec_id() != other by {
        let i = choose|i: int| 0 <= i < channels@.len() && channels@[i] == kept[j];
        assert(channels@[i].spec_id() != other);
    }
    law_channels_are_sorted(
        old(client).filter(),
        *describe,
        *render,
        before,
        channels@,
        after,
        pass,
        other,
        0,
    );
    law_channels_are_sorted(
        old(client).filter(),
        *describe,
        *render,
        before,
        channels@,
        after,
        pass,
        id,
        at,
    );
    if pass(channels@[at]) {
        lemma_last_kept(channels@, pass, at);
        let m = choose|m: int|
            {
                &&& 0 <= m < kept.len()
                &&& #[trigger] kept[m] == channels@[at]
                &&& forall|j: int| m < j < kept.len() ==> (#[trigger] kept[j]).spec_id() != id
            };
        law_channels_are_sorted(
            old(client).filter(),
            *describe,
            *render,
            before,
            channels@,
            after,
            pass,
            id,
            m,
        );
    } else {
        assert forall|j: int| 0 <= j < kept.len() implies (#[trigger] kept[j]).spec_id() != id by {
            let i = choose|i: int| 0 <= i < channels@.len() && channels@[i] == kept[j];
            assert(pass(kept[j]));
            assert(i != at);
            assert(channels@[i].spec_id() != id);
        }
    }
}

/// What passes was there, and passes.
proof fn lemma_filter_from<T>(items: Seq<T>, keep: spec_fn(T) -> bool)
    ensures
        forall|j: int|
            0 <= j < items.filter(keep).len() ==> {
                &&& items.contains(#[trigger] items.filter(keep)[j])
                &&& keep(items.filter(keep)[j])
            },
    decreases items.len(),
{
    reveal(Seq::filter);
    if items.len() > 0 {
        let earlier = items.drop_last();
        let found = items.filter(keep);
        lemma_filter_from(earlier, keep);
        assert forall|j: int| 0 <= j < found.len() implies {
            &&& items.contains(#[trigger] found[j])
            &&& keep(found[j])
        } by {
            if j < earlier.filter(keep).len() {
                assert(found[j] == earlier.filter(keep)[j]);
                let i = choose|i: int| 0 <= i < earlier.len() && earlier[i] == found[j];
                assert(items[i] == found[j]);
            } else {
                assert(items[items.len() - 1] == found[j]);
            }
        }
    }
}

/// A channel that passes, and that no other has the identifier of, is the last of its identifier
/// among those that pass.
proof fn lemma_last_kept(
    channels: Seq<Arc<RawChannel>>,
    pass: spec_fn(Arc<RawChannel>) -> bool,
    at: int,
)
    requires
        0 <= at < channels.len(),
        pass(channels[at]),
        forall|j: int|
            at < j < channels.len() ==> (#[trigger] channels[j]).spec_id()
                != channels[at].spec_id(),
    ensures
        ({
            let kept = channels.filter(pass);
            exists|m: int|
                {
                    &&& 0 <= m < kept.len()
                    &&& #[trigger] kept[m] == channels[at]
                    &&& forall|j: int|
                        m < j < kept.len() ==> (#[trigger] kept[j]).spec_id()
                            != channels[at].spec_id()
                }
        }),
    decreases channels.len(),
{
    reveal(Seq::filter);
    let earlier = channels.drop_last();
    let kept = channels.filter(pass);
    if at == channels.len() - 1 {
        assert(kept[kept.len() - 1] == channels[at]);
    } else {
        assert forall|j: int| at < j < earlier.len() implies (#[trigger] earlier[j]).spec_id()
            != earlier[at].spec_id() by {
            assert(earlier[j] == channels[j]);
        }
        lemma_last_kept(earlier, pass, at);
        let before = earlier.filter(pass);
        let m = choose|m: int|
            {
                &&& 0 <= m < before.len()
                &&& #[trigger] before[m] == channels[at]
                &&& forall|j: int|
                    m < j < before.len() ==> (#[trigger] before[j]).spec_id()
                        != channels[at].spec_id()
            };
        assert(kept[m] == channels[at]);
        assert forall|j: int| m < j < kept.len() implies (#[trigger] kept[j]).spec_id()
            != channels[at].spec_id() by {
            if j < before.len() {
                assert(kept[j] == before[j]);
            } else {
                assert(kept[j] == channels[channels.len() - 1]);
            }
        }
    }
}

/// What `ConnectedClient::advertise_channels` does, where `describe` answers the same whenever it
/// is asked: the client knows the last of the channels of each identifier, and its control queue
/// is offered one frame, the text frame of a text that `render` may give for the descriptions;
/// none where no channel has one.
pub proof fn law_advertise_channels<
    F: SinkChannelFilter,
    D,
    A: Fn(&RawChannel) -> Option<D>,
    R: Fn(&Vec<D>) -> String,
>(
    client: &mut ConnectedClient<F>,
    channels: &Vec<Arc<RawChannel>>,
    describe: &A,
    render: &R,
    desc: spec_fn(Arc<RawChannel>) -> Option<D>,
    channel_id: u64,
    last: int,
)
    requires
        call_ensures(
            ConnectedClient::<F>::advertise_channels::<D, A, R>,
            (client, channels, describe, render),
            (),
        ),
        describes(*describe, desc),
    ensures
        ({
            let offers0 = old(client)@.control_offers;
            let offers1 = final(client)@.control_offers;
            let list = channels@.filter_map(desc);
            &&& list.len() == 0 ==> offers1 == offers0
            &&& list.len() > 0 ==> {
                &&& offers1.len() == offers0.len() + 1
                &&& offers1.drop_last() == offers0
                &&& renders_as(*render, list, offers1.last().0)
            }
            &&& (0 <= last < channels@.len() && channels@[last].spec_id() == channel_id && forall|
                j: int,
            |
                last < j < channels@.len() ==> (#[trigger] channels@[j]).spec_id() != channel_id)
                ==> {
                &&& final(client)@.channels.contains_key(channel_id)
                &&& final(client)@.channels[channel_id] == channels@[last]
            }
            &&& (forall|j: int|
                0 <= j < channels@.len() ==> (#[trigger] channels@[j]).spec_id() != channel_id)
                ==> {
                let known = old(client)@.channels;
                &&& final(client)@.channels.contains_key(channel_id) == known.contains_key(
                    channel_id,
                )
                &&& final(client)@.channels[channel_id] == old(client)@.channels[channel_id]
            }
            &&& final(client)@.subscriptions == old(client)@.subscriptions
            &&& final(client)@.excluded == old(client)@.excluded
        }),
{
    let before = old(client)@;
    let after = final(client)@;
    let frames = choose|frames: Seq<Seq<u8>>|
        {
            &&& #[trigger] connected_client::advertisement(*describe, *render, channels@, frames)
            &&& connected_client::controls_sent(
                ClientState {
                    channels: connected_client::cached(before.channels, channels@),
                    ..before
                },
                frames,
                after,
            )
        };
    let descs = choose|descs: Seq<Option<D>>|
        {
            &&& #[trigger] connected_client::described(*describe, channels@, descs)
            &&& if connected_client::given(descs).len() == 0 {
                frames.len() == 0
            } else {
                exists|list: Vec<D>, text: String|
                    {
                        &&& list@ == connected_client::given(descs)
                        &&& #[trigger] call_ensures(*render, (&list,), text)
                        &&& frames == seq![
                            framing::stream_frame(
                                StreamOpCode::Text,
                                vstd::utf8::encode_utf8(text@),
                            ),
                        ]
                    }
            }
        };
    assert forall|j: int| 0 <= j < channels@.len() implies #[trigger] descs[j] == desc(
        channels@[j],
    ) by {
        assert(call_ensures(*describe, (&*channels@[j],), descs[j]));
    }
    lemma_given_is_filter_map(channels@, descs, desc);
    let state = ClientState {
        channels: connected_client::cached(before.channels, channels@),
        ..before
    };
    client_laws::law_controls_sent(state, frames, after, 0);
    law_last_channel_is_known(before.channels, channels@, channel_id, last);
    let offers0 = before.control_offers;
    let offers1 = after.control_offers;
    if frames.len() == 0 {
        assert(offers1 =~= offers1.take(offers0.len() as int));
    } else {
        assert(offers1.drop_last() =~= offers1.take(offers0.len() as int));
        assert(offers1.last() == offers1[offers0.len() as int]);
        assert(renders_as(*render, connected_client::given(descs), frames[0]));
    }
}

} // verus!
