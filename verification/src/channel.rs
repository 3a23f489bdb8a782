//! The bounded single-producer, single-consumer channel that links two shards,
//! and its two ends, each labelled with the shards it joins.

use rtrb::{Consumer, PopError, Producer, PushError, RingBuffer};
use vstd::prelude::*;

verus! {

/// The number of requests that one channel can hold.
pub const CHANNEL_CAPACITY: usize = 100;

/// `rtrb::Producer`, the sending end of a channel. What the channel holds is
/// shared with the receiving end and changes whenever that end is used, so a
/// value of this type says nothing of it.
#[verifier::external_type_specification]
#[verifier::external_body]
#[verifier::reject_recursive_types(T)]
pub struct ExProducer<T>(Producer<T>);

/// `rtrb::Consumer`, the receiving end of a channel, as opaque as the sending
/// end.
#[verifier::external_type_specification]
#[verifier::external_body]
#[verifier::reject_recursive_types(T)]
pub struct ExConsumer<T>(Consumer<T>);

/// Calls `rtrb::RingBuffer::new`, which allocates a queue of `capacity` slots
/// and hands out its two ends. Assumed without proof: the call returns where
/// the slots fit into the address space and twice their number into `usize`.
/// Nothing is claimed of the ends.
#[verifier::external_body]
pub(crate) fn open_channel<T>(capacity: usize) -> (ends: (Producer<T>, Consumer<T>))
    requires
        capacity <= isize::MAX,
        capacity * vstd::layout::size_of::<T>() <= isize::MAX,
{
    RingBuffer::new(capacity)
}

/// Calls `rtrb::Producer::push`, which never waits. Assumed without proof: a
/// message that comes back, which it does from a full queue, is the message
/// that was handed in. When the queue is full is for the other end to decide,
/// so nothing is claimed of it.
#[verifier::external_body]
pub(crate) fn try_push<T>(queue: &mut Producer<T>, message: T) -> (refused: Option<T>)
    ensures
        refused matches Some(m) ==> m == message,
{
    match queue.push(message) {
        Ok(()) => None,
        Err(PushError::Full(m)) => Some(m),
    }
}

/// Calls `rtrb::Consumer::pop`, which never waits. What waits in the queue is
/// for the other end to decide, so nothing is claimed of the result.
#[verifier::external_body]
pub(crate) fn try_pop<T>(queue: &mut Consumer<T>) -> (message: Option<T>)
{
    match queue.pop() {
        Ok(m) => Some(m),
        Err(PopError::Empty) => None,
    }
}

/// What an end of a channel knows of its channel: the shard that sends over
/// it, the shard that receives from it, and how many messages it was made to
/// hold.
#[derive(Clone, Copy, Debug, PartialEq, Eq, Structural)]
pub struct ChannelLabel {
    pub from: usize,
    pub to: usize,
    pub capacity: usize,
}

/// The sending end of a channel, with the channel's label.
#[verifier::reject_recursive_types(T)]
pub struct Outbound<T> {
    label: ChannelLabel,
    queue: Producer<T>,
}

/// The receiving end of a channel, with the channel's label.
#[verifier::reject_recursive_types(T)]
pub struct Inbound<T> {
    label: ChannelLabel,
    queue: Consumer<T>,
}

impl<T> View for Outbound<T> {
    type V = ChannelLabel;

    closed spec fn view(&self) -> ChannelLabel {
        self.label
    }
}

impl<T> View for Inbound<T> {
    type V = ChannelLabel;

    closed spec fn view(&self) -> ChannelLabel {
        self.label
    }
}

/// The label of the channel from shard `src` to shard `dst`.
pub open spec fn label_of(src: usize, dst: usize) -> ChannelLabel {
    ChannelLabel { from: src, to: dst, capacity: CHANNEL_CAPACITY }
}

/// Makes the channel from shard `src` to shard `dst` and hands out its two
/// ends, both labelled with the two shards and [`CHANNEL_CAPACITY`], for which
/// the channel is made.
pub fn link<T>(src: usize, dst: usize) -> (ends: (Outbound<T>, Inbound<T>))
    requires
        CHANNEL_CAPACITY * vstd::layout::size_of::<T>() <= isize::MAX,
    ensures
        ends.0@ == label_of(src, dst),
        ends.1@ == label_of(src, dst),
{
    let label = ChannelLabel { from: src, to: dst, capacity: CHANNEL_CAPACITY };
    let (producer, consumer) = open_channel::<T>(CHANNEL_CAPACITY);
    (Outbound { label, queue: producer }, Inbound { label, queue: consumer })
}

impl<T> Outbound<T> {
    /// The label of the channel.
    pub fn label(&self) -> (label: ChannelLabel)
        ensures
            label == self@,
    {
        self.label
    }

    /// Offers `message` to the channel, without waiting. A channel that is
    /// full hands the message back. The end stays the end of its channel.
    pub fn offer(&mut self, message: T) -> (refused: Option<T>)
        ensures
            final(self)@ == old(self)@,
            refused matches Some(m) ==> m == message,
    {
        try_push(&mut self.queue, message)
    }
}

impl<T> Inbound<T> {
    /// The label of the channel.
    pub fn label(&self) -> (label: ChannelLabel)
        ensures
            label == self@,
    {
        self.label
    }

    /// Asks the channel for the message that has waited longest, without
    /// waiting for one. The end stays the end of its channel.
    pub fn poll(&mut self) -> (waiting: Option<T>)
        ensures
            final(self)@ == old(self)@,
    {
        try_pop(&mut self.queue)
    }
}

} // verus!
