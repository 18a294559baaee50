//! The channel-driven executor.
//!
//! Tasks live in a table and are known by their index in it, which is never
//! used twice. The notification channel carries ids: one for every spawn and
//! one for every wake. The run loop receives an id, polls that task once if
//! it is still live, and goes back to the channel. A task that reported
//! ready leaves the table and is not polled again, whatever arrives later.

use std::collections::VecDeque;
use vstd::prelude::*;
use crate::channel::{bounded_ids, channel_of, clone_sender, recv_id, source_of};
use crate::poll::Poll;
use crate::task::{Computation, ContextView, Task, TaskView};
use crate::waker::{Target, Waker};

verus! {

/// The capacity of the notification channel of an executor.
pub const SCHEDULED_CAPACITY: usize = 1000;

/// One id taken from the notification channel, and what the run loop did
/// with it.
pub struct Turn {
    /// The id that arrived.
    pub task: nat,
    /// The outcome of the poll, or `None` where the id named no live task
    /// and nothing was polled.
    pub outcome: Option<Poll<()>>,
}

impl Turn {
    /// Whether the turn polled its task.
    pub open spec fn polled(self) -> bool {
        self.outcome is Some
    }

    /// Whether the turn polled its task and found it ready.
    pub open spec fn completed(self) -> bool {
        self.outcome is Some && self.outcome->0 is Ready
    }
}

/// Why a run ended.
#[derive(Debug, Clone, Copy, PartialEq, Eq, Structural)]
pub enum RunEnd {
    /// Every task has completed.
    Idle,
    /// The turns allowed for the run are used up and some task is live.
    OutOfFuel,
    /// The channel is empty and has no sender left.
    Closed,
}

/// An executor as the contracts see it.
pub struct ExecutorView<C> {
    /// The notification channel of the executor.
    pub channel: int,
    /// The table of tasks by id: the computation of a live task, `None` for
    /// a task that has completed.
    pub slots: Seq<Option<C>>,
    /// Every turn of the run loop so far, oldest first.
    pub log: Seq<Turn>,
}

/// The number of live tasks in a table.
pub open spec fn count_live<C>(slots: Seq<Option<C>>) -> nat
    decreases slots.len(),
{
    if slots.len() == 0 {
        0
    } else {
        count_live(slots.drop_last()) + if slots.last() is Some {
            1nat
        } else {
            0nat
        }
    }
}

/// The slots of newly spawned computations.
pub open spec fn as_live<C>(spawned: Seq<C>) -> Seq<Option<C>> {
    spawned.map_values(|c: C| Some(c))
}

impl<C> ExecutorView<C> {
    /// Whether `id` names a task that has not completed.
    pub open spec fn is_live(self, id: nat) -> bool {
        id < self.slots.len() && self.slots[id as int] is Some
    }

    /// Whether `id` names a task that has completed.
    pub open spec fn is_done(self, id: nat) -> bool {
        id < self.slots.len() && self.slots[id as int] is None
    }

    /// The number of live tasks.
    pub open spec fn live(self) -> nat {
        count_live(self.slots)
    }

    /// What a waker of task `id` of this executor makes ready.
    pub open spec fn target(self, id: nat) -> Target {
        Target { task: id, channel: self.channel }
    }

    /// The context in which this executor polls task `id`: its waker makes
    /// that task ready, and nothing is spawned yet.
    pub open spec fn context(self, id: nat) -> ContextView<C> {
        ContextView::<C>::fresh(Some(self.target(id)))
    }

    /// The executor after `computation` was spawned: it is live under the
    /// next unused id.
    pub open spec fn after_spawn(self, computation: C) -> ExecutorView<C> {
        ExecutorView { slots: self.slots.push(Some(computation)), ..self }
    }

    /// The executor after a turn for an id that names no live task:
    /// nothing but the log has changed.
    pub open spec fn after_stale(self, id: nat) -> ExecutorView<C> {
        ExecutorView { log: self.log.push(Turn { task: id, outcome: None }), ..self }
    }

    /// The executor after a turn that polled the live task `id`: the poll
    /// left the computation as `after` with the outcome `out` and spawned
    /// `spawned`. A ready task leaves the table, a pending one stays, and
    /// the spawned computations are live under the next unused ids.
    pub open spec fn after_poll(self, id: nat, after: C, out: Poll<()>, spawned: Seq<C>)
        -> ExecutorView<C> {
        let slot = if out is Ready {
            None
        } else {
            Some(after)
        };
        ExecutorView {
            channel: self.channel,
            slots: self.slots.update(id as int, slot) + as_live(spawned),
            log: self.log.push(Turn { task: id, outcome: Some(out) }),
        }
    }

    /// What holds of the log of every executor: a poll that was ready is
    /// the last poll of its task.
    pub open spec fn consistent(self) -> bool {
        &&& forall|k: int|
            0 <= k < self.log.len() && self.log[k].completed() ==> self.is_done(
                #[trigger] self.log[k].task,
            )
        &&& forall|i: int, j: int|
            0 <= i < j < self.log.len() && self.log[i].completed() && #[trigger] self.log[i].task
                == #[trigger] self.log[j].task ==> !self.log[j].polled()
    }

    /// Whether `later` may be this executor at a later time: ids are not
    /// taken back, a completed task stays completed, and the log only
    /// grows.
    pub open spec fn precedes(self, later: ExecutorView<C>) -> bool {
        &&& self.channel == later.channel
        &&& self.slots.len() <= later.slots.len()
        &&& forall|t: nat| self.is_done(t) ==> later.is_done(t)
        &&& self.log.len() <= later.log.len()
        &&& forall|k: int| 0 <= k < self.log.len() ==> later.log[k] == self.log[k]
    }

    /// Whether no turn of `later` that is not yet in the log of this
    /// executor is for task `id`.
    pub open spec fn undelivered_until(self, later: ExecutorView<C>, id: nat) -> bool {
        forall|k: int| self.log.len() <= k < later.log.len() ==> later.log[k].task != id
    }
}

/// Appending a slot adds to the number of live tasks what the slot holds.
pub proof fn lemma_count_push<C>(slots: Seq<Option<C>>, slot: Option<C>)
    ensures
        count_live(slots.push(slot)) == count_live(slots) + if slot is Some {
            1nat
        } else {
            0nat
        },
{
    assert(slots.push(slot).drop_last() == slots);
}

/// Replacing a slot changes the number of live tasks by what the two slots
/// hold.
pub proof fn lemma_count_update<C>(slots: Seq<Option<C>>, i: int, slot: Option<C>)
    requires
        0 <= i < slots.len(),
    ensures
        count_live(slots.update(i, slot)) + if slots[i] is Some {
            1nat
        } else {
            0nat
        } == count_live(slots) + if slot is Some {
            1nat
        } else {
            0nat
        },
    decreases slots.len(),
{
    if i == slots.len() - 1 {
        assert(slots.update(i, slot).drop_last() == slots.drop_last());
    } else {
        lemma_count_update(slots.drop_last(), i, slot);
        assert(slots.update(i, slot).drop_last() == slots.drop_last().update(i, slot));
    }
}

/// A table holds no more live tasks than slots, and none exactly where
/// every slot is empty.
pub proof fn lemma_count_bounds<C>(slots: Seq<Option<C>>)
    ensures
        count_live(slots) <= slots.len(),
        count_live(slots) == 0 <==> forall|i: int| 0 <= i < slots.len() ==> slots[i] is None,
    decreases slots.len(),
{
    if slots.len() > 0 {
        let front = slots.drop_last();
        lemma_count_bounds(front);
        if count_live(slots) == 0 {
            assert forall|i: int| 0 <= i < slots.len() implies slots[i] is None by {
                if i < front.len() {
                    assert(front[i] == slots[i]);
                }
            }
        }
        if forall|i: int| 0 <= i < slots.len() ==> slots[i] is None {
            assert forall|i: int| 0 <= i < front.len() implies front[i] is None by {
                assert(front[i] == slots[i]);
            }
        }
    }
}

/// Spawning keeps the log consistent and moves the executor forward.
pub proof fn lemma_spawn_moves_forward<C>(before: ExecutorView<C>, computation: C)
    requires
        before.consistent(),
    ensures
        before.after_spawn(computation).consistent(),
        before.precedes(before.after_spawn(computation)),
        before.after_spawn(computation).is_live(before.slots.len()),
{
}

/// A turn for an id that names no live task keeps the log consistent and
/// moves the executor forward.
pub proof fn lemma_stale_turn_moves_forward<C>(before: ExecutorView<C>, id: nat)
    requires
        before.consistent(),
        !before.is_live(id),
    ensures
        before.after_stale(id).consistent(),
        before.precedes(before.after_stale(id)),
{
}

/// A turn that polls a live task keeps the log consistent and moves the
/// executor forward.
pub proof fn lemma_poll_turn_moves_forward<C>(
    before: ExecutorView<C>,
    id: nat,
    after: C,
    out: Poll<()>,
    spawned: Seq<C>,
)
    requires
        before.consistent(),
        before.is_live(id),
    ensures
        before.after_poll(id, after, out, spawned).consistent(),
        before.precedes(before.after_poll(id, after, out, spawned)),
{
    let next = before.after_poll(id, after, out, spawned);
    assert forall|k: int|
        0 <= k < next.log.len() && next.log[k].completed() implies next.is_done(
        #[trigger] next.log[k].task,
    ) by {
        if k < before.log.len() {
            assert(before.is_done(before.log[k].task));
        }
    }
    assert forall|i: int, j: int|
        0 <= i < j < next.log.len() && next.log[i].completed() && #[trigger] next.log[i].task
            == #[trigger] next.log[j].task implies !next.log[j].polled() by {
        assert(before.is_done(before.log[i].task));
    }
}

/// A task that reported ready is never polled again: in the log of an
/// executor no turn after a ready poll of a task polls that task.
pub proof fn lemma_ready_is_final<C>(executor: ExecutorView<C>, first: int, second: int)
    requires
        executor.consistent(),
        0 <= first < second < executor.log.len(),
        executor.log[first].completed(),
        executor.log[first].task == executor.log[second].task,
    ensures
        !executor.log[second].polled(),
        executor.is_done(executor.log[first].task),
{
}

/// A turn touches the task whose id arrived and no other: every other task
/// is after the turn as it was before, so a waiting task is not polled
/// unless its id arrives, and is polled when it does.
pub proof fn lemma_turn_polls_the_delivered_task<C>(
    before: ExecutorView<C>,
    id: nat,
    after: C,
    out: Poll<()>,
    spawned: Seq<C>,
    other: nat,
)
    requires
        other < before.slots.len(),
        other != id,
    ensures
        before.after_stale(id).slots[other as int] == before.slots[other as int],
        before.is_live(id) ==> before.after_poll(id, after, out, spawned).slots[other as int]
            == before.slots[other as int],
        before.is_live(id) ==> before.after_poll(id, after, out, spawned).log.last()
            == (Turn { task: id, outcome: Some(out) }),
{
}

/// A single-consumer executor over a channel of task ids.
pub struct MiniTokio<C: Computation> {
    tasks: Vec<Option<Task<C>>>,
    live: usize,
    scheduled: crossbeam::channel::Receiver<usize>,
    sender: crossbeam::channel::Sender<usize>,
    log: Ghost<Seq<Turn>>,
}

impl<C: Computation> View for MiniTokio<C> {
    type V = ExecutorView<C>;

    closed spec fn view(&self) -> ExecutorView<C> {
        ExecutorView {
            channel: channel_of(self.sender),
            slots: self.tasks@.map_values(
                |slot: Option<Task<C>>|
                    match slot {
                        Some(task) => Some(task@.computation),
                        None => None,
                    },
            ),
            log: self.log@,
        }
    }
}

impl<C: Computation> MiniTokio<C> {
    /// What holds of every executor between two calls: the executor
    /// receives from the channel that it sends into, each live task is
    /// stored under its own id and schedules itself into that channel, the
    /// count of live tasks is right, and the log is consistent.
    pub closed spec fn wf(&self) -> bool {
        &&& source_of(self.scheduled) == channel_of(self.sender)
        &&& forall|i: int|
            0 <= i < self.tasks@.len() && (#[trigger] self.tasks@[i]) is Some ==> {
                &&& self.tasks@[i]->0@.id == i
                &&& self.tasks@[i]->0@.channel == channel_of(self.sender)
            }
        &&& self.live as nat == self@.live()
        &&& self@.consistent()
    }

    /// An executor without tasks, on a fresh notification channel.
    pub fn new() -> (executor: MiniTokio<C>)
        ensures
            executor.wf(),
            executor@.slots == Seq::<Option<C>>::empty(),
            executor@.log == Seq::<Turn>::empty(),
    {
        let (sender, scheduled) = bounded_ids(SCHEDULED_CAPACITY);
        let executor = MiniTokio {
            tasks: Vec::new(),
            live: 0,
            scheduled,
            sender,
            log: Ghost(Seq::empty()),
        };
        assert(executor@.slots == Seq::<Option<C>>::empty());
        executor
    }

    /// The log of an executor is consistent, and the table holds no more
    /// live tasks than slots.
    pub proof fn lemma_log_is_consistent(&self)
        requires
            self.wf(),
        ensures
            self@.consistent(),
            self@.live() <= self@.slots.len(),
    {
        lemma_count_bounds(self@.slots);
    }

    /// The number of tasks spawned so far; the next task gets this id.
    pub fn len(&self) -> (n: usize)
        ensures
            n == self@.slots.len(),
    {
        self.tasks.len()
    }

    /// The number of tasks that have not completed.
    pub fn live(&self) -> (n: usize)
        requires
            self.wf(),
        ensures
            n as nat == self@.live(),
            n == 0 <==> forall|t: nat| !self@.is_live(t),
    {
        proof {
            lemma_count_bounds(self@.slots);
            if self.live == 0 {
                assert forall|t: nat| !self@.is_live(t) by {
                    if t < self@.slots.len() {
                        assert(self@.slots[t as int] is None);
                    }
                }
            }
            if forall|t: nat| !self@.is_live(t) {
                assert forall|i: int| 0 <= i < self@.slots.len() implies self@.slots[i] is None by {
                    assert(!self@.is_live(i as nat));
                }
            }
        }
        self.live
    }

    /// Whether `id` names a task that has not completed.
    pub fn is_live(&self, id: usize) -> (live: bool)
        ensures
            live == self@.is_live(id as nat),
    {
        id < self.tasks.len() && self.tasks[id].is_some()
    }

    /// The live task `id`, or `None` where `id` names no live task.
    pub fn task(&self, id: usize) -> (task: Option<&Task<C>>)
        requires
            self.wf(),
        ensures
            task is Some <==> self@.is_live(id as nat),
            task is Some ==> task->0@ == (TaskView {
                id: id as nat,
                computation: self@.slots[id as int]->0,
                channel: self@.channel,
            }),
    {
        if id < self.tasks.len() {
            self.tasks[id].as_ref()
        } else {
            None
        }
    }

    /// A waker for the task `id` of this executor, whether or not such a
    /// task is live: to wake a task that has completed is harmless.
    pub fn waker(&self, id: usize) -> (waker: Waker)
        ensures
            waker.target() == Some(self@.target(id as nat)),
    {
        Waker::new(id, clone_sender(&self.sender))
    }

    /// Spawns `computation`: it becomes a live task under the next unused
    /// id, and the id is sent into the notification channel. Nothing is
    /// polled.
    pub fn spawn(&mut self, computation: C)
        requires
            old(self).wf(),
        ensures
            final(self).wf(),
            final(self)@ == old(self)@.after_spawn(computation),
    {
        let id = self.tasks.len();
        let task = Task::spawn(computation, id, &self.sender);
        proof {
            lemma_count_push(self@.slots, Some(computation));
            lemma_count_bounds(self@.slots);
            lemma_spawn_moves_forward(self@, computation);
        }
        self.tasks.push(Some(task));
        assert(self.live < self.tasks.len());
        self.live = self.live + 1;
        assert(self@.slots == old(self)@.slots.push(Some(computation)));
    }

    /// Spawns every computation of `spawned`, oldest first.
    fn adopt(&mut self, spawned: VecDeque<C>)
        requires
            old(self).wf(),
        ensures
            final(self).wf(),
            final(self)@ == (ExecutorView {
                slots: old(self)@.slots + as_live(spawned@),
                ..old(self)@
            }),
    {
        let mut rest = spawned;
        let ghost mut admitted: Seq<C> = Seq::empty();
        assert(old(self)@.slots + as_live(admitted) == old(self)@.slots);
        while rest.len() > 0
            invariant
                self.wf(),
                admitted + rest@ == spawned@,
                self@.slots == old(self)@.slots + as_live(admitted),
                self@.log == old(self)@.log,
                self@.channel == old(self)@.channel,
            decreases rest.len(),
        {
            let next = rest.pop_front();
            match next {
                Some(computation) => {
                    let ghost before = admitted;
                    proof {
                        admitted = admitted.push(computation);
                        assert(as_live(admitted) == as_live(before).push(Some(computation)));
                        assert(admitted + rest@ == before + (seq![computation] + rest@));
                        assert(seq![computation] + rest@ == spawned@.skip(before.len() as int));
                        assert(before + spawned@.skip(before.len() as int) == spawned@);
                    }
                    self.spawn(computation);
                    assert(self@.slots == old(self)@.slots + as_live(admitted));
                },
                None => {},
            }
        }
        assert(admitted == spawned@);
    }

    /// Serves one id from the notification channel.
    ///
    /// Where `id` names a live task, the task is polled exactly once; if it
    /// reports ready it leaves the table, and what it spawned joins the
    /// table. Where `id` names no live task, nothing is polled. Either way
    /// the turn is logged, and no other task is touched.
    pub fn dispatch(&mut self, id: usize) -> (outcome: Option<Poll<()>>)
        requires
            old(self).wf(),
        ensures
            final(self).wf(),
            old(self)@.precedes(final(self)@),
            final(self)@.log == old(self)@.log.push(Turn { task: id as nat, outcome }),
            outcome is Some <==> old(self)@.is_live(id as nat),
            forall|t: int|
                0 <= t < old(self)@.slots.len() && t != id ==> final(self)@.slots[t] == old(
                    self,
                )@.slots[t],
            !old(self)@.is_live(id as nat) ==> final(self)@ == old(self)@.after_stale(id as nat),
            old(self)@.is_live(id as nat) ==> exists|after: C, spawned: Seq<C>|
                {
                    &&& #[trigger] C::polled(
                        old(self)@.slots[id as int]->0,
                        old(self)@.context(id as nat),
                        after,
                        spawned,
                        outcome->0,
                    )
                    &&& final(self)@ == old(self)@.after_poll(
                        id as nat,
                        after,
                        outcome->0,
                        spawned,
                    )
                },
    {
        if !self.is_live(id) {
            proof {
                lemma_stale_turn_moves_forward(self@, id as nat);
                self.log@ = self.log@.push(Turn { task: id as nat, outcome: None });
            }
            return None;
        }
        let ghost before = self@;
        proof {
            lemma_count_update(before.slots, id as int, None);
        }
        let taken = self.tasks[id].take();
        let mut task = taken.unwrap();
        self.live = self.live - 1;
        let ghost vacated = self@.slots;
        assert(vacated == before.slots.update(id as int, None));
        let (out, spawned) = task.poll();
        let ghost after = task@.computation;
        let ghost slot = if out is Ready {
            None
        } else {
            Some(after)
        };
        match out {
            Poll::Ready(_) => {},
            Poll::Pending => {
                proof {
                    lemma_count_update(vacated, id as int, Some(after));
                    lemma_count_bounds(vacated.update(id as int, Some(after)));
                }
                self.tasks.set(id, Some(task));
                assert(self@.slots == vacated.update(id as int, Some(after)));
                self.live = self.live + 1;
            },
        }
        assert(self@.slots == before.slots.update(id as int, slot));
        assert(self@.log == before.log);
        assert(forall|i: int|
            0 <= i < self.tasks@.len() && (#[trigger] self.tasks@[i]) is Some ==> {
                &&& self.tasks@[i]->0@.id == i
                &&& self.tasks@[i]->0@.channel == channel_of(self.sender)
            });
        assert(self.live as nat == self@.live());
        assert(self@.consistent()) by {
            assert forall|k: int|
                0 <= k < self@.log.len() && self@.log[k].completed() implies self@.is_done(
                #[trigger] self@.log[k].task,
            ) by {
                assert(before.is_done(before.log[k].task));
            }
        }
        assert(self.wf());
        self.adopt(spawned);
        proof {
            lemma_poll_turn_moves_forward(before, id as nat, after, out, spawned@);
            self.log@ = self.log@.push(Turn { task: id as nat, outcome: Some(out) });
            assert(self@ == before.after_poll(id as nat, after, out, spawned@));
            assert(C::polled(
                before.slots[id as int]->0,
                before.context(id as nat),
                after,
                spawned@,
                out,
            ));
        }
        let outcome = Some(out);
        assert(outcome->0 == out);
        outcome
    }

    /// Runs the loop: receives an id from the notification channel,
    /// blocking while it is empty, and serves it, until every task has
    /// completed, `fuel` turns are made, or the channel is closed.
    ///
    /// Whatever arrives, a task is touched only in a turn for its own id.
    pub fn run(&mut self, fuel: u64) -> (end: RunEnd)
        requires
            old(self).wf(),
        ensures
            final(self).wf(),
            old(self)@.precedes(final(self)@),
            final(self)@.log.len() <= old(self)@.log.len() + fuel,
            end is Idle <==> final(self)@.live() == 0,
            end is OutOfFuel ==> final(self)@.log.len() == old(self)@.log.len() + fuel,
            old(self)@.live() == 0 || fuel == 0 ==> final(self)@ == old(self)@ && !(end is Closed),
            forall|t: nat|
                t < old(self)@.slots.len() && old(self)@.undelivered_until(final(self)@, t)
                    ==> final(self)@.slots[t as int] == old(self)@.slots[t as int],
    {
        let mut left: u64 = fuel;
        while left > 0 && self.live > 0
            invariant
                self.wf(),
                left <= fuel,
                old(self)@.precedes(self@),
                self@.log.len() == old(self)@.log.len() + (fuel - left),
                left == fuel ==> self@ == old(self)@,
                old(self)@.live() == 0 || fuel == 0 ==> left == fuel,
                forall|t: nat|
                    t < old(self)@.slots.len() && old(self)@.undelivered_until(self@, t)
                        ==> self@.slots[t as int] == old(self)@.slots[t as int],
            decreases left,
        {
            let received = recv_id(&self.scheduled);
            match received {
                Some(id) => {
                    let ghost before = self@;
                    let _ = self.dispatch(id);
                    left = left - 1;
                    proof {
                        assert forall|t: nat|
                            t < old(self)@.slots.len() && old(self)@.undelivered_until(
                                self@,
                                t,
                            ) implies self@.slots[t as int] == old(self)@.slots[t as int] by {
                            assert(self@.log[before.log.len() as int].task != t);
                            assert(old(self)@.undelivered_until(before, t)) by {
                                assert forall|k: int|
                                    old(self)@.log.len() <= k < before.log.len() implies before.log[k].task
                                    != t by {
                                    assert(self@.log[k] == before.log[k]);
                                }
                            }
                        }
                    }
                },
                None => {
                    return RunEnd::Closed;
                },
            }
        }
        if self.live == 0 {
            RunEnd::Idle
        } else {
            RunEnd::OutOfFuel
        }
    }
}

} // verus!
