//! Suspendable computations, the context they are polled in, and tasks.

use std::collections::VecDeque;
use vstd::prelude::*;
use crate::channel::{channel_of, clone_sender, send_id};
use crate::poll::Poll;
use crate::waker::{Target, Waker};

verus! {

/// What a computation is handed for one poll: the waker of the task that
/// polls it, and the means to spawn further computations.
pub struct Context<C> {
    waker: Waker,
    spawned: VecDeque<C>,
}

/// A context as the contracts see it.
pub struct ContextView<C> {
    /// What the waker of the context makes ready, if anything.
    pub target: Option<Target>,
    /// The computations spawned through the context so far, oldest first.
    pub spawned: Seq<C>,
}

impl<C> View for Context<C> {
    type V = ContextView<C>;

    closed spec fn view(&self) -> ContextView<C> {
        ContextView { target: self.waker.target(), spawned: self.spawned@ }
    }
}

impl<C> ContextView<C> {
    /// The context at the start of a poll on behalf of `target`.
    pub open spec fn fresh(target: Option<Target>) -> ContextView<C> {
        ContextView { target, spawned: Seq::empty() }
    }
}

impl<C> Context<C> {
    /// A context for one poll on behalf of the task that `waker` makes
    /// ready. Nothing is spawned through it yet.
    pub fn from_waker(waker: Waker) -> (cx: Context<C>)
        ensures
            cx@ == ContextView::<C>::fresh(waker.target()),
    {
        Context { waker, spawned: VecDeque::new() }
    }

    /// The waker of the task that is being polled.
    pub fn waker(&self) -> (waker: &Waker)
        ensures
            waker.target() == self@.target,
    {
        &self.waker
    }

    /// Gives up the context for the computations spawned through it, oldest
    /// first.
    pub fn into_spawned(self) -> (spawned: VecDeque<C>)
        ensures
            spawned@ == self@.spawned,
    {
        self.spawned
    }
}

/// Spawns `computation` from inside a poll: it becomes a task of the
/// executor that runs the poll, scheduled behind everything that the
/// executor was told of before the poll returned. Nothing is polled here.
pub fn spawn<C>(cx: &mut Context<C>, computation: C)
    ensures
        final(cx)@ == (ContextView {
            target: old(cx)@.target,
            spawned: old(cx)@.spawned.push(computation),
        }),
{
    cx.spawned.push_back(computation);
}

/// A computation that is advanced by polling and may suspend.
///
/// A poll either finishes the computation or leaves it waiting. A
/// computation that waits arranges for the waker of the context to be
/// invoked once it can make progress: the channel-driven executor does not
/// poll it again before that, the run queue polls it again in any case.
pub trait Computation: Sized {
    /// What a poll may do: `before` and `after` are the computation around
    /// the poll, `cx` is the context at its start, `spawned` is what the
    /// context holds as spawned at its end, `out` is the outcome. An
    /// implementation that says nothing keeps the default.
    open spec fn polled(
        before: Self,
        cx: ContextView<Self>,
        after: Self,
        spawned: Seq<Self>,
        out: Poll<()>,
    ) -> bool {
        true
    }

    /// Advances the computation by one step.
    fn poll(&mut self, cx: &mut Context<Self>) -> (out: Poll<()>)
        ensures
            Self::polled(*old(self), old(cx)@, *final(self), final(cx)@.spawned, out),
    ;
}

/// Polls `computation` once with a waker that does nothing, for a run loop
/// that polls every waiting computation again by itself. The second part of
/// the result holds what the computation spawned, oldest first.
pub fn poll_unwoken<C: Computation>(computation: &mut C) -> (out: (Poll<()>, VecDeque<C>))
    ensures
        C::polled(
            *old(computation),
            ContextView::<C>::fresh(None),
            *final(computation),
            out.1@,
            out.0,
        ),
{
    let mut cx = Context::from_waker(Waker::noop());
    let outcome = computation.poll(&mut cx);
    (outcome, cx.into_spawned())
}

/// One computation together with what it takes to schedule it: its id and
/// a sender of the notification channel of its executor.
///
/// A task owns its computation, and a poll borrows the task mutably, so two
/// polls of one task cannot overlap; no lock guards the computation.
pub struct Task<C> {
    id: usize,
    computation: C,
    executor: crossbeam::channel::Sender<usize>,
}

/// A task as the contracts see it.
pub struct TaskView<C> {
    /// The id under which the executor knows the task.
    pub id: nat,
    /// The computation in its present state.
    pub computation: C,
    /// The notification channel into which the task is scheduled.
    pub channel: int,
}

impl<C> TaskView<C> {
    /// What a waker of the task makes ready.
    pub open spec fn target(self) -> Target {
        Target { task: self.id, channel: self.channel }
    }
}

impl<C> View for Task<C> {
    type V = TaskView<C>;

    closed spec fn view(&self) -> TaskView<C> {
        TaskView {
            id: self.id as nat,
            computation: self.computation,
            channel: channel_of(self.executor),
        }
    }
}

impl<C: Computation> Task<C> {
    /// Wraps `computation` as the task `id` of the executor that receives
    /// from the channel of `sender`, and schedules it: the id is sent into
    /// the channel. Nothing is polled.
    pub(crate) fn spawn(
        computation: C,
        id: usize,
        sender: &crossbeam::channel::Sender<usize>,
    ) -> (task: Task<C>)
        ensures
            task@ == (TaskView { id: id as nat, computation, channel: channel_of(*sender) }),
    {
        let task = Task { id, computation, executor: clone_sender(sender) };
        task.schedule();
        task
    }

    /// The id under which the executor knows the task.
    pub fn id(&self) -> (id: usize)
        ensures
            id as nat == self@.id,
    {
        self.id
    }

    /// Schedules the task: its id is sent into the notification channel.
    pub fn schedule(&self) {
        let _ = send_id(&self.executor, self.id);
    }

    /// A new waker for the task.
    pub fn waker(&self) -> (waker: Waker)
        ensures
            waker.target() == Some(self@.target()),
    {
        Waker::new(self.id, clone_sender(&self.executor))
    }

    /// Advances the computation by exactly one step and hands it a new
    /// waker for the task. The second part of the result holds what the
    /// computation spawned, oldest first.
    pub fn poll(&mut self) -> (out: (Poll<()>, VecDeque<C>))
        ensures
            final(self)@.id == old(self)@.id,
            final(self)@.channel == old(self)@.channel,
            C::polled(
                old(self)@.computation,
                ContextView::<C>::fresh(Some(old(self)@.target())),
                final(self)@.computation,
                out.1@,
                out.0,
            ),
    {
        let mut cx = Context::from_waker(self.waker());
        let outcome = self.computation.poll(&mut cx);
        (outcome, cx.into_spawned())
    }
}

} // verus!
