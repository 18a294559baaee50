//! A one-shot deadline that a task can wait for.
//!
//! A [`Delay`] decides; it does not sleep. Each poll is given the reading of
//! a monotonic clock and the waker of the task that polls, and answers with
//! the outcome and with what has to happen to the delay's timer. The caller
//! owns the timer itself: one background thread per delay that sleeps for
//! [`Delay::remaining`] and then wakes whatever waker it was last handed.

use vstd::prelude::*;
use crate::poll::Poll;
use crate::waker::{Target, Waker};

verus! {

/// What the caller has to do to the timer of a delay after a poll.
#[derive(Debug, Clone, Copy, PartialEq, Eq, Structural)]
pub enum TimerAction {
    /// Nothing: the delay is over, or its timer runs and wakes the right
    /// task already.
    Keep,
    /// Start the timer of this delay and hand it the waker of this poll.
    Start,
    /// The timer runs but would wake another task: hand it the waker of
    /// this poll instead.
    Rebind,
}

/// A deadline on a monotonic clock, and the waker that its timer will wake.
pub struct Delay {
    /// The clock reading from which on the delay is over.
    pub when: u64,
    waker: Option<Waker>,
}

/// A delay as the contracts see it.
pub struct DelayView {
    /// The clock reading from which on the delay is over.
    pub when: nat,
    /// Whether the timer was started.
    pub armed: bool,
    /// What the timer wakes, if it wakes anything.
    pub target: Option<Target>,
}

/// One poll as the contracts see it.
pub struct PollAt {
    /// The clock reading at the poll.
    pub now: nat,
    /// What the waker of the poll makes ready, if anything.
    pub target: Option<Target>,
}

impl View for Delay {
    type V = DelayView;

    closed spec fn view(&self) -> DelayView {
        DelayView {
            when: self.when as nat,
            armed: self.waker is Some,
            target: match self.waker {
                Some(w) => w.target(),
                None => None,
            },
        }
    }
}

impl DelayView {
    /// The outcome of a poll at clock reading `now`: ready with the fixed
    /// completion value from the deadline on, pending before it.
    pub open spec fn outcome(self, now: nat) -> Poll<&'static str> {
        if now >= self.when {
            Poll::Ready("done")
        } else {
            Poll::Pending
        }
    }

    /// What a poll asks of the timer: nothing from the deadline on; before
    /// it, to start the timer if it does not run, and to rebind it if it
    /// runs for another task than the one that polls.
    pub open spec fn action(self, poll: PollAt) -> TimerAction {
        if poll.now >= self.when {
            TimerAction::Keep
        } else if !self.armed {
            TimerAction::Start
        } else if self.target == poll.target {
            TimerAction::Keep
        } else {
            TimerAction::Rebind
        }
    }

    /// The delay after a poll.
    pub open spec fn after(self, poll: PollAt) -> DelayView {
        match self.action(poll) {
            TimerAction::Keep => self,
            _ => DelayView { when: self.when, armed: true, target: poll.target },
        }
    }

    /// The delay after the polls `polls`, made in that order.
    pub open spec fn after_all(self, polls: Seq<PollAt>) -> DelayView
        decreases polls.len(),
    {
        if polls.len() == 0 {
            self
        } else {
            self.after_all(polls.drop_last()).after(polls.last())
        }
    }

    /// How many of the polls `polls`, made in that order, ask for the timer
    /// to be started.
    pub open spec fn starts(self, polls: Seq<PollAt>) -> nat
        decreases polls.len(),
    {
        if polls.len() == 0 {
            0
        } else {
            let before = self.after_all(polls.drop_last());
            let last: nat = if before.action(polls.last()) == TimerAction::Start {
                1
            } else {
                0
            };
            self.starts(polls.drop_last()) + last
        }
    }
}

impl Delay {
    /// A delay that is over from clock reading `when` on. Its timer is not
    /// started.
    pub fn new(when: u64) -> (delay: Delay)
        ensures
            delay@ == (DelayView { when: when as nat, armed: false, target: None }),
    {
        Delay { when, waker: None }
    }

    /// Whether the delay is over at clock reading `now`.
    pub fn is_elapsed(&self, now: u64) -> (over: bool)
        ensures
            over == (now >= self@.when),
            over == (self@.outcome(now as nat) is Ready),
    {
        now >= self.when
    }

    /// How long the timer has to sleep at clock reading `now` before it
    /// wakes the task: the time left to the deadline, and nothing once the
    /// deadline has passed.
    pub fn remaining(&self, now: u64) -> (left: u64)
        ensures
            now < self@.when ==> left == self@.when - now,
            now >= self@.when ==> left == 0,
    {
        if now < self.when {
            self.when - now
        } else {
            0
        }
    }

    /// The waker that the timer has to wake, if the timer was started.
    pub fn waker(&self) -> (waker: Option<&Waker>)
        ensures
            waker is Some <==> self@.armed,
            waker is Some ==> waker->0.target() == self@.target,
    {
        self.waker.as_ref()
    }

    /// Polls the delay at clock reading `now` on behalf of the task that
    /// `waker` makes ready.
    ///
    /// From the deadline on the poll is ready and changes nothing. Before
    /// it, the first poll keeps a clone of `waker` and asks for the timer;
    /// a later poll replaces the kept waker and asks to rebind the timer
    /// if the kept waker would wake another task.
    pub fn poll(&mut self, now: u64, waker: &Waker) -> (out: (Poll<&'static str>, TimerAction))
        ensures
            out.0 == old(self)@.outcome(now as nat),
            out.1 == old(self)@.action((PollAt { now: now as nat, target: waker.target() })),
            final(self)@ == old(self)@.after((PollAt { now: now as nat, target: waker.target() })),
    {
        if now >= self.when {
            return (Poll::Ready("done"), TimerAction::Keep);
        }
        let action = match &self.waker {
            None => TimerAction::Start,
            Some(kept) => {
                if kept.will_wake(waker) {
                    TimerAction::Keep
                } else {
                    TimerAction::Rebind
                }
            },
        };
        match action {
            TimerAction::Keep => {},
            _ => {
                self.waker = Some(waker.clone());
            },
        }
        (Poll::Pending, action)
    }
}

/// For a delay, the outcome of every poll follows the clock alone: pending
/// at every reading before the deadline, ready with the completion value at
/// every reading from the deadline on, however many polls came before and
/// whatever their wakers were.
pub proof fn lemma_outcome_follows_clock(delay: DelayView, polls: Seq<PollAt>, now: nat)
    ensures
        delay.after_all(polls).when == delay.when,
        now < delay.when ==> delay.after_all(polls).outcome(now) is Pending,
        now >= delay.when ==> delay.after_all(polls).outcome(now) == Poll::Ready("done"),
    decreases polls.len(),
{
    if polls.len() > 0 {
        lemma_outcome_follows_clock(delay, polls.drop_last(), now);
    }
}

/// On a clock that never runs backwards a delay that was ready once is
/// ready at every later poll.
pub proof fn lemma_ready_stays_ready(
    delay: DelayView,
    earlier: Seq<PollAt>,
    first: nat,
    later: Seq<PollAt>,
    then: nat,
)
    requires
        first <= then,
        delay.after_all(earlier).outcome(first) is Ready,
    ensures
        delay.after_all(later).outcome(then) == Poll::Ready("done"),
{
    lemma_outcome_follows_clock(delay, earlier, first);
    lemma_outcome_follows_clock(delay, later, then);
}

/// Once the timer of a delay was started it stays started, and no poll asks
/// to start it again.
pub proof fn lemma_armed_stays_armed(delay: DelayView, polls: Seq<PollAt>)
    requires
        delay.armed,
    ensures
        delay.after_all(polls).armed,
        delay.starts(polls) == 0,
    decreases polls.len(),
{
    if polls.len() > 0 {
        lemma_armed_stays_armed(delay, polls.drop_last());
    }
}

/// Over any number of polls a delay asks for its timer at most once, and
/// not at all when no poll came before the deadline.
pub proof fn lemma_at_most_one_timer(delay: DelayView, polls: Seq<PollAt>)
    ensures
        delay.starts(polls) <= 1,
        delay.starts(polls) == 1 ==> delay.after_all(polls).armed,
        !delay.armed && delay.after_all(polls).armed ==> delay.starts(polls) == 1,
        (forall|i: int| 0 <= i < polls.len() ==> polls[i].now >= delay.when) ==> delay.starts(
            polls,
        ) == 0,
    decreases polls.len(),
{
    if polls.len() > 0 {
        let front = polls.drop_last();
        lemma_at_most_one_timer(delay, front);
        lemma_outcome_follows_clock(delay, front, polls.last().now);
        if delay.armed {
            lemma_armed_stays_armed(delay, polls);
        }
        if forall|i: int| 0 <= i < polls.len() ==> polls[i].now >= delay.when {
            assert(forall|i: int| 0 <= i < front.len() ==> front[i] == polls[i]);
            assert(polls.last() == polls[polls.len() - 1]);
        }
    }
}

} // verus!
