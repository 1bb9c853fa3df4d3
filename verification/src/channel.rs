//! Channels that messages are logged on, and filters that choose among them.

use vstd::prelude::*;

verus! {

/// What a channel filter sees of a channel.
#[derive(Debug)]
pub struct ChannelDescriptor {
    id: u64,
    topic: String,
}

impl ChannelDescriptor {
    /// The channel's ID.
    pub closed spec fn spec_id(&self) -> u64 {
        self.id
    }

    /// The channel's topic.
    pub closed spec fn spec_topic(&self) -> Seq<char> {
        self.topic@
    }

    /// Describes the channel of that ID and topic.
    pub fn new(id: u64, topic: String) -> (descriptor: Self)
        ensures
            descriptor.spec_id() == id,
            descriptor.spec_topic() == topic@,
    {
        ChannelDescriptor { id, topic }
    }

    /// The channel's ID.
    pub fn id(&self) -> (id: u64)
        ensures
            id == self.spec_id(),
    {
        self.id
    }

    /// The channel's topic.
    pub fn topic(&self) -> (topic: &str)
        ensures
            topic@ == self.spec_topic(),
    {
        self.topic.as_str()
    }
}

/// A channel that messages are logged on.
#[derive(Debug)]
pub struct RawChannel {
    descriptor: ChannelDescriptor,
}

impl RawChannel {
    /// What filters see of the channel.
    pub closed spec fn spec_descriptor(&self) -> ChannelDescriptor {
        self.descriptor
    }

    /// The channel's ID.
    pub open spec fn spec_id(&self) -> u64 {
        self.spec_descriptor().spec_id()
    }

    /// The channel's topic.
    pub open spec fn spec_topic(&self) -> Seq<char> {
        self.spec_descriptor().spec_topic()
    }

    /// The channel that `descriptor` describes.
    pub fn new(descriptor: ChannelDescriptor) -> (channel: Self)
        ensures
            channel.spec_descriptor() == descriptor,
    {
        RawChannel { descriptor }
    }

    /// The channel's ID.
    pub fn id(&self) -> (id: u64)
        ensures
            id == self.spec_id(),
    {
        self.descriptor.id()
    }

    /// The channel's topic.
    pub fn topic(&self) -> (topic: &str)
        ensures
            topic@ == self.spec_topic(),
    {
        self.descriptor.topic()
    }

    /// What filters see of the channel.
    pub fn descriptor(&self) -> (descriptor: &ChannelDescriptor)
        ensures
            *descriptor == self.spec_descriptor(),
    {
        &self.descriptor
    }
}

/// Chooses the channels that a client gets to see.
pub trait SinkChannelFilter {
    /// Whether the filter may answer so for that channel. A filter need not answer the same each
    /// time, and one that does not say may answer anything.
    open spec fn may_answer(&self, channel: ChannelDescriptor, answer: bool) -> bool {
        true
    }

    /// Whether the client gets to see the channel.
    fn should_subscribe(&self, channel: &ChannelDescriptor) -> (answer: bool)
        ensures
            self.may_answer(*channel, answer),
    ;
}

/// The filter that lets every channel through.
#[derive(Debug, Clone, Copy)]
pub struct AllChannels;

impl SinkChannelFilter for AllChannels {
    open spec fn may_answer(&self, channel: ChannelDescriptor, answer: bool) -> bool {
        answer
    }

    fn should_subscribe(&self, channel: &ChannelDescriptor) -> (answer: bool) {
        true
    }
}

/// The filter that asks a function.
pub struct SinkChannelFilterFn<F: Fn(&ChannelDescriptor) -> bool>(F);

impl<F: Fn(&ChannelDescriptor) -> bool> SinkChannelFilterFn<F> {
    /// The function can be asked about every channel.
    #[verifier::type_invariant]
    closed spec fn total(self) -> bool {
        forall|channel: &ChannelDescriptor| call_requires(self.0, (channel,))
    }

    /// The function that is asked.
    pub closed spec fn function(self) -> F {
        self.0
    }

    /// The filter that asks `filter`.
    pub fn new(filter: F) -> (made: Self)
        requires
            forall|channel: &ChannelDescriptor| call_requires(filter, (channel,)),
        ensures
            made.function() == filter,
    {
        SinkChannelFilterFn(filter)
    }
}

impl<F: Fn(&ChannelDescriptor) -> bool> SinkChannelFilter for SinkChannelFilterFn<F> {
    open spec fn may_answer(&self, channel: ChannelDescriptor, answer: bool) -> bool {
        call_ensures(self.function(), (&channel,), answer)
    }

    fn should_subscribe(&self, channel: &ChannelDescriptor) -> (answer: bool) {
        proof {
            use_type_invariant(self);
        }
        (self.0)(channel)
    }
}

} // verus!
