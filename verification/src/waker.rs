//! Wakers: the capability to make a dormant task ready again.

use vstd::prelude::*;
use crate::channel::{channel_of, clone_sender, same_channel, send_id};

verus! {

/// What a waker makes ready: one task of one executor.
pub struct Target {
    /// The id of the task.
    pub task: nat,
    /// The notification channel of the executor that owns the task.
    pub channel: int,
}

/// A capability that, when invoked, sends the id of one task into the
/// notification channel of the executor that owns the task.
///
/// A waker may be cloned, moved to another thread and invoked any number of
/// times. A waker without a channel does nothing when invoked; it serves
/// run loops that poll every task again without waiting for a wake.
pub struct Waker {
    task: usize,
    sender: Option<crossbeam::channel::Sender<usize>>,
}

impl Waker {
    /// What this waker makes ready, or `None` for a waker that does
    /// nothing.
    pub closed spec fn target(&self) -> Option<Target> {
        match self.sender {
            Some(sender) => Some(Target { task: self.task as nat, channel: channel_of(sender) }),
            None => None,
        }
    }

    /// A waker for task `task` that sends into the channel of `sender`.
    pub(crate) fn new(task: usize, sender: crossbeam::channel::Sender<usize>) -> (waker: Waker)
        ensures
            waker.target() == Some(Target { task: task as nat, channel: channel_of(sender) }),
    {
        Waker { task, sender: Some(sender) }
    }

    /// A waker that does nothing when invoked.
    pub fn noop() -> (waker: Waker)
        ensures
            waker.target() is None,
    {
        Waker { task: 0, sender: None }
    }

    /// The id of the task that this waker makes ready, if any.
    pub fn task_id(&self) -> (id: Option<usize>)
        ensures
            id is Some <==> self.target() is Some,
            id is Some ==> id->0 as nat == self.target()->0.task,
    {
        match &self.sender {
            Some(_) => Some(self.task),
            None => None,
        }
    }

    /// Makes the task ready: its id is sent into the notification channel
    /// of its executor, which polls the task once for every id it receives
    /// while the task is live.
    ///
    /// The send blocks while the channel is full. Where the executor is
    /// gone the wake is lost, which is harmless.
    pub fn wake_by_ref(&self) {
        match &self.sender {
            Some(sender) => {
                let _ = send_id(sender, self.task);
            },
            None => {},
        }
    }

    /// Makes the task ready and gives the waker up.
    pub fn wake(self) {
        self.wake_by_ref();
    }

    /// Whether this waker and `other` make the same task of the same
    /// executor ready.
    pub fn will_wake(&self, other: &Waker) -> (same: bool)
        ensures
            same == (self.target() == other.target()),
    {
        match (&self.sender, &other.sender) {
            (Some(a), Some(b)) => self.task == other.task && same_channel(a, b),
            (None, None) => true,
            _ => false,
        }
    }
}

impl Clone for Waker {
    /// Another waker for the same task of the same executor.
    fn clone(&self) -> (copy: Waker)
        ensures
            copy.target() == self.target(),
    {
        match &self.sender {
            Some(sender) => Waker { task: self.task, sender: Some(clone_sender(sender)) },
            None => Waker { task: self.task, sender: None },
        }
    }
}

} // verus!
