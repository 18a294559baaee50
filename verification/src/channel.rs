//! The notification channel: a bounded multi-producer queue of task ids.
//!
//! The queue itself is `crossbeam::channel`. Its contents are shared with
//! every thread that holds a sender, so nothing in this module says what the
//! queue holds at a given moment; callers are verified for whatever arrives.
//! What the contracts do speak of is which channel a half belongs to.

use vstd::prelude::*;

verus! {

/// The sending half of a `crossbeam::channel` channel, opaque to the verifier.
#[verifier::external_type_specification]
#[verifier::external_body]
#[verifier::reject_recursive_types(T)]
pub struct ExSender<T>(crossbeam::channel::Sender<T>);

/// The receiving half of a `crossbeam::channel` channel, opaque to the
/// verifier.
#[verifier::external_type_specification]
#[verifier::external_body]
#[verifier::reject_recursive_types(T)]
pub struct ExReceiver<T>(crossbeam::channel::Receiver<T>);

/// The channel that a sender feeds. Two senders feed the same channel
/// exactly if one is a clone of the other, however many clones lie between.
pub uninterp spec fn channel_of(sender: crossbeam::channel::Sender<usize>) -> int;

/// The channel that a receiver takes from.
pub uninterp spec fn source_of(receiver: crossbeam::channel::Receiver<usize>) -> int;

/// The largest capacity a notification channel is created with.
pub const MAX_CAPACITY: usize = 0x10_0000;

/// Calls `crossbeam::channel::bounded` for a channel of task ids.
///
/// `bounded` panics when the capacity is too large for its index
/// arithmetic and hands out a rendezvous channel for capacity zero; both are
/// excluded here. The claim is that the two halves belong to one channel.
#[verifier::external_body]
pub(crate) fn bounded_ids(cap: usize) -> (halves: (
    crossbeam::channel::Sender<usize>,
    crossbeam::channel::Receiver<usize>,
))
    requires
        0 < cap <= MAX_CAPACITY,
    ensures
        channel_of(halves.0) == source_of(halves.1),
{
    crossbeam::channel::bounded(cap)
}

/// Calls `crossbeam::channel::Sender::send` with a task id.
///
/// `send` blocks while the channel is full and returns an error once every
/// receiver is gone; the result is `true` when the id was queued. Nothing
/// else is claimed.
#[verifier::external_body]
pub(crate) fn send_id(sender: &crossbeam::channel::Sender<usize>, id: usize) -> (queued: bool) {
    sender.send(id).is_ok()
}

/// Calls `crossbeam::channel::Receiver::recv`.
///
/// `recv` blocks while the channel is empty and some sender is alive. The
/// result is the id received, or `None` once the channel is empty and every
/// sender is gone. Which id arrives depends on the other threads, so nothing
/// is claimed of it.
#[verifier::external_body]
pub(crate) fn recv_id(receiver: &crossbeam::channel::Receiver<usize>) -> (id: Option<usize>) {
    receiver.recv().ok()
}

/// Calls `Clone::clone` of `crossbeam::channel::Sender`. The claim is that
/// the clone feeds the channel of the sender that it was made from.
#[verifier::external_body]
pub(crate) fn clone_sender(sender: &crossbeam::channel::Sender<usize>) -> (copy:
    crossbeam::channel::Sender<usize>)
    ensures
        channel_of(copy) == channel_of(*sender),
{
    sender.clone()
}

/// Calls `crossbeam::channel::Sender::same_channel`. The claim is that the
/// answer is whether the two senders feed the same channel.
#[verifier::external_body]
pub(crate) fn same_channel(
    a: &crossbeam::channel::Sender<usize>,
    b: &crossbeam::channel::Sender<usize>,
) -> (same: bool)
    ensures
        same == (channel_of(*a) == channel_of(*b)),
{
    a.same_channel(b)
}

} // verus!
