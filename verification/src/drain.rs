//! The drain-to-completion run queue.
//!
//! The queue holds the computations themselves. A turn takes the one at the
//! front and polls it with a waker that does nothing; a computation that is
//! still pending goes to the back of the queue, behind whatever it spawned.
//! Nothing here waits for a wake: the queue fits computations that become
//! ready by being polled again, and no others.

use std::collections::VecDeque;
use vstd::prelude::*;
use crate::poll::Poll;
use crate::task::{poll_unwoken, Computation, ContextView};

verus! {

/// A run queue as the contracts see it.
pub struct RunQueueView<C> {
    /// The computations that wait for a poll, the next one first.
    pub queue: Seq<C>,
    /// Every computation that was polled, as it was when its poll began,
    /// the oldest poll first.
    pub polled: Seq<C>,
}

impl<C> RunQueueView<C> {
    /// The run queue after `computation` was spawned: it waits behind all
    /// others.
    pub open spec fn after_spawn(self, computation: C) -> RunQueueView<C> {
        RunQueueView { queue: self.queue.push(computation), polled: self.polled }
    }

    /// The run queue after a turn that polled its front: the poll left the
    /// computation as `after` with the outcome `out` and spawned `spawned`.
    /// The computations that waited keep their order, what was spawned
    /// follows them, and the polled computation comes last if it is still
    /// pending.
    pub open spec fn after_turn(self, after: C, out: Poll<()>, spawned: Seq<C>) -> RunQueueView<C> {
        RunQueueView {
            queue: self.queue.drop_first() + spawned + if out is Ready {
                Seq::<C>::empty()
            } else {
                seq![after]
            },
            polled: self.polled.push(self.queue[0]),
        }
    }

    /// The run queue after `turns` turns, where each computation was ready
    /// at its poll and spawned nothing.
    pub open spec fn after_ready_turns(self, turns: nat) -> RunQueueView<C>
        decreases turns,
    {
        if turns == 0 || self.queue.len() == 0 {
            self
        } else {
            self.after_turn(self.queue[0], Poll::Ready(()), Seq::empty()).after_ready_turns(
                (turns - 1) as nat,
            )
        }
    }

    /// Whether `later` may be this run queue `turns` turns later, as far as
    /// the order of service goes: the polls of those turns follow the
    /// earlier ones, the computations that wait now are polled first and in
    /// their order, and those of them that were not reached still wait at
    /// the front, in their order.
    pub open spec fn served_in_order(self, later: RunQueueView<C>, turns: nat) -> bool {
        &&& later.polled.len() == self.polled.len() + turns
        &&& later.polled.take(self.polled.len() as int) == self.polled
        &&& forall|k: int|
            0 <= k < turns && k < self.queue.len() ==> later.polled[self.polled.len() + k]
                == self.queue[k]
        &&& turns <= self.queue.len() ==> {
            &&& later.queue.len() >= self.queue.len() - turns
            &&& later.queue.take(self.queue.len() - turns) == self.queue.skip(turns as int)
        }
    }
}

/// A turn serves the computation at the front, and no computation
/// overtakes another: each one that waited is one place nearer to the front
/// afterwards, and everything that the turn adds stands behind them all.
pub proof fn lemma_turn_keeps_order<C>(
    before: RunQueueView<C>,
    after: C,
    out: Poll<()>,
    spawned: Seq<C>,
)
    requires
        before.queue.len() > 0,
    ensures
        before.after_turn(after, out, spawned).polled.last() == before.queue[0],
        before.after_turn(after, out, spawned).queue.len() == before.queue.len() - 1
            + spawned.len() + if out is Ready {
            0int
        } else {
            1int
        },
        forall|i: int|
            1 <= i < before.queue.len() ==> before.after_turn(after, out, spawned).queue[i - 1]
                == before.queue[i],
        forall|k: int|
            0 <= k < spawned.len() ==> before.after_turn(after, out, spawned).queue[before.queue.len()
                - 1 + k] == spawned[k],
        out is Pending ==> before.after_turn(after, out, spawned).queue.last() == after,
        before.served_in_order(before.after_turn(after, out, spawned), 1),
{
    let next = before.after_turn(after, out, spawned);
    assert(next.polled.take(before.polled.len() as int) == before.polled);
    assert(next.queue.take(before.queue.len() - 1) == before.queue.skip(1));
}

/// Orderly service adds up: a turn after `turns` turns of orderly service
/// makes `turns + 1` turns of orderly service.
pub proof fn lemma_service_extends<C>(
    start: RunQueueView<C>,
    middle: RunQueueView<C>,
    turns: nat,
    after: C,
    out: Poll<()>,
    spawned: Seq<C>,
)
    requires
        start.served_in_order(middle, turns),
        middle.queue.len() > 0,
    ensures
        start.served_in_order(middle.after_turn(after, out, spawned), turns + 1),
{
    let end = middle.after_turn(after, out, spawned);
    let base = start.polled.len() as int;
    let waiting = start.queue.len();
    let kept = end.polled.take(base);
    assert(kept == start.polled) by {
        assert(middle.polled.take(base) == start.polled);
        assert forall|i: int| 0 <= i < base implies #[trigger] kept[i] == start.polled[i] by {
            assert(middle.polled.take(base)[i] == middle.polled[i]);
        }
    }
    assert forall|k: int| 0 <= k < turns + 1 && k < waiting implies end.polled[base + k]
        == #[trigger] start.queue[k] by {
        if k < turns {
            assert(middle.polled[base + k] == start.queue[k]);
        } else {
            let front = middle.queue.take(waiting - turns);
            assert(front[0] == middle.queue[0]);
            assert(start.queue.skip(turns as int)[0] == start.queue[k]);
        }
    }
    if turns + 1 <= waiting {
        let front = middle.queue.take(waiting - turns);
        let reached = end.queue.take(waiting - turns - 1);
        let expected = start.queue.skip(turns as int + 1);
        assert(reached == expected) by {
            assert forall|i: int| 0 <= i < waiting - turns - 1 implies #[trigger] reached[i]
                == expected[i] by {
                assert(front[i + 1] == middle.queue[i + 1]);
                assert(start.queue.skip(turns as int)[i + 1] == start.queue[turns + 1 + i]);
            }
        }
    }
}

/// Computations that are ready at their first poll complete in the order
/// in which they were spawned: after `turns` turns the first `turns` of
/// them were polled, in that order, and the others still wait.
pub proof fn lemma_ready_tasks_complete_in_order<C>(start: RunQueueView<C>, turns: nat)
    requires
        turns <= start.queue.len(),
    ensures
        start.after_ready_turns(turns).queue == start.queue.skip(turns as int),
        start.after_ready_turns(turns).polled == start.polled + start.queue.take(turns as int),
    decreases turns,
{
    if turns == 0 {
        assert(start.queue.skip(0) == start.queue);
        assert(start.polled + start.queue.take(0) == start.polled);
    } else {
        let next = start.after_turn(start.queue[0], Poll::Ready(()), Seq::empty());
        assert(next.queue == start.queue.skip(1));
        lemma_ready_tasks_complete_in_order(next, (turns - 1) as nat);
        assert(start.queue.skip(1).skip(turns - 1) == start.queue.skip(turns as int));
        assert(next.polled + next.queue.take(turns - 1) == start.polled + start.queue.take(
            turns as int,
        ));
    }
}

/// A run queue of computations that are polled in turn until all are done.
pub struct RunQueue<C: Computation> {
    tasks: VecDeque<C>,
    polled: Ghost<Seq<C>>,
}

impl<C: Computation> View for RunQueue<C> {
    type V = RunQueueView<C>;

    closed spec fn view(&self) -> RunQueueView<C> {
        RunQueueView { queue: self.tasks@, polled: self.polled@ }
    }
}

impl<C: Computation> RunQueue<C> {
    /// An empty run queue.
    pub fn new() -> (queue: RunQueue<C>)
        ensures
            queue@ == (RunQueueView::<C> { queue: Seq::empty(), polled: Seq::empty() }),
    {
        RunQueue { tasks: VecDeque::new(), polled: Ghost(Seq::empty()) }
    }

    /// The number of computations that wait for a poll.
    pub fn len(&self) -> (n: usize)
        ensures
            n == self@.queue.len(),
    {
        self.tasks.len()
    }

    /// Spawns `computation`: it goes to the back of the queue. Nothing is
    /// polled.
    pub fn spawn(&mut self, computation: C)
        ensures
            final(self)@ == old(self)@.after_spawn(computation),
    {
        self.tasks.push_back(computation);
    }

    /// Puts the computations of `spawned` at the back of the queue, oldest
    /// first.
    fn adopt(&mut self, spawned: VecDeque<C>)
        ensures
            final(self)@ == (RunQueueView {
                queue: old(self)@.queue + spawned@,
                polled: old(self)@.polled,
            }),
    {
        let mut rest = spawned;
        let ghost mut moved: Seq<C> = Seq::empty();
        assert(old(self)@.queue + moved == old(self)@.queue);
        while rest.len() > 0
            invariant
                moved + rest@ == spawned@,
                self@.queue == old(self)@.queue + moved,
                self@.polled == old(self)@.polled,
            decreases rest.len(),
        {
            let next = rest.pop_front();
            match next {
                Some(computation) => {
                    let ghost before = moved;
                    proof {
                        moved = moved.push(computation);
                        assert(seq![computation] + rest@ == spawned@.skip(before.len() as int));
                        assert(moved + rest@ == before + (seq![computation] + rest@));
                        assert(before + spawned@.skip(before.len() as int) == spawned@);
                    }
                    self.tasks.push_back(computation);
                    assert(self@.queue == old(self)@.queue + moved);
                },
                None => {},
            }
        }
        assert(moved == spawned@);
    }

    /// Makes one turn: takes the computation at the front of the queue and
    /// polls it exactly once. A ready computation is dropped; a pending one
    /// goes to the back, behind what it spawned. On an empty queue nothing
    /// happens and the result is `None`.
    pub fn turn(&mut self) -> (outcome: Option<Poll<()>>)
        ensures
            outcome is Some <==> old(self)@.queue.len() > 0,
            old(self)@.queue.len() == 0 ==> final(self)@ == old(self)@,
            old(self)@.queue.len() > 0 ==> exists|after: C, spawned: Seq<C>|
                {
                    &&& #[trigger] C::polled(
                        old(self)@.queue[0],
                        ContextView::<C>::fresh(None),
                        after,
                        spawned,
                        outcome->0,
                    )
                    &&& final(self)@ == old(self)@.after_turn(after, outcome->0, spawned)
                },
    {
        let front = self.tasks.pop_front();
        match front {
            None => None,
            Some(mut computation) => {
                proof {
                    self.polled@ = self.polled@.push(computation);
                }
                let (out, spawned) = poll_unwoken(&mut computation);
                let ghost after = computation;
                self.adopt(spawned);
                match out {
                    Poll::Ready(_) => {},
                    Poll::Pending => {
                        self.tasks.push_back(computation);
                    },
                }
                assert(self@.polled == old(self)@.after_turn(after, out, spawned@).polled);
                assert(self@.queue == old(self)@.after_turn(after, out, spawned@).queue);
                let outcome = Some(out);
                assert(outcome->0 == out);
                outcome
            },
        }
    }

    /// Runs the loop: makes turn after turn until the queue is empty or
    /// `fuel` turns are made. The result tells whether the queue is empty.
    ///
    /// Whatever the polls answer, the computations that wait at the start
    /// are polled first and in their order.
    pub fn run(&mut self, fuel: u64) -> (idle: bool)
        ensures
            idle == (final(self)@.queue.len() == 0),
            final(self)@.polled.len() <= old(self)@.polled.len() + fuel,
            !idle ==> final(self)@.polled.len() == old(self)@.polled.len() + fuel,
            old(self)@.served_in_order(
                final(self)@,
                (final(self)@.polled.len() - old(self)@.polled.len()) as nat,
            ),
            old(self)@.queue.len() == 0 || fuel == 0 ==> final(self)@ == old(self)@,
    {
        let mut left: u64 = fuel;
        assert(old(self)@.served_in_order(self@, 0)) by {
            assert(self@.polled.take(self@.polled.len() as int) == self@.polled);
            assert(self@.queue.take(self@.queue.len() as int) == self@.queue.skip(0));
        }
        while left > 0 && self.tasks.len() > 0
            invariant
                left <= fuel,
                old(self)@.served_in_order(self@, (fuel - left) as nat),
                old(self)@.queue.len() == 0 || left == fuel ==> self@ == old(self)@,
            decreases left,
        {
            let ghost middle = self@;
            let outcome = self.turn();
            proof {
                let (after, spawned) = choose|after: C, spawned: Seq<C>|
                    {
                        &&& #[trigger] C::polled(
                            middle.queue[0],
                            ContextView::<C>::fresh(None),
                            after,
                            spawned,
                            outcome->0,
                        )
                        &&& self@ == middle.after_turn(after, outcome->0, spawned)
                    };
                lemma_service_extends(
                    old(self)@,
                    middle,
                    (fuel - left) as nat,
                    after,
                    outcome->0,
                    spawned,
                );
            }
            left = left - 1;
        }
        self.tasks.len() == 0
    }
}

} // verus!
