use mini_tokio::delay::{Delay, TimerAction};
use mini_tokio::executor::MiniTokio;
use mini_tokio::poll::Poll;
use mini_tokio::task::{Computation, Context};
use mini_tokio::waker::Waker;

/// A computation that is never spawned; it gives the executor a type.
struct Idle;

impl Computation for Idle {
    fn poll(&mut self, _cx: &mut Context<Self>) -> Poll<()> {
        Poll::Ready(())
    }
}

#[test]
fn new_delay_keeps_its_deadline_and_no_waker() {
    let delay = Delay::new(250);
    assert_eq!(delay.when, 250);
    assert!(delay.waker().is_none());
}

#[test]
fn delay_is_pending_before_its_deadline_and_ready_from_it_on() {
    let waker = Waker::noop();
    let mut delay = Delay::new(10);
    for now in 0..10 {
        assert_eq!(delay.poll(now, &waker).0, Poll::Pending);
    }
    assert_eq!(delay.poll(9, &waker).0, Poll::Pending);
    assert_eq!(delay.poll(10, &waker).0, Poll::Ready("done"));
    assert_eq!(delay.poll(10, &waker).0, Poll::Ready("done"));
    assert_eq!(delay.poll(11, &waker).0, Poll::Ready("done"));
    assert_eq!(delay.poll(u64::MAX, &waker).0, Poll::Ready("done"));
}

#[test]
fn delay_with_deadline_zero_is_ready_at_once() {
    let mut delay = Delay::new(0);
    assert_eq!(delay.poll(0, &Waker::noop()), (Poll::Ready("done"), TimerAction::Keep));
    assert!(delay.waker().is_none());
}

#[test]
fn outcome_follows_the_clock_reading_alone() {
    let waker = Waker::noop();
    let mut delay = Delay::new(100);
    assert_eq!(delay.poll(100, &waker).0, Poll::Ready("done"));
    assert_eq!(delay.poll(99, &waker).0, Poll::Pending);
    assert_eq!(delay.poll(100, &waker).0, Poll::Ready("done"));
}

#[test]
fn first_pending_poll_asks_for_the_timer_and_no_later_poll_does() {
    let waker = Waker::noop();
    let mut delay = Delay::new(10);
    assert_eq!(delay.poll(3, &waker), (Poll::Pending, TimerAction::Start));
    assert!(delay.waker().is_some());
    let mut starts = 1;
    for now in [3, 4, 9, 10, 11, 2, 12] {
        if delay.poll(now, &waker).1 == TimerAction::Start {
            starts += 1;
        }
    }
    assert_eq!(starts, 1);
}

#[test]
fn ready_poll_asks_nothing_of_the_timer_and_keeps_no_waker() {
    let executor: MiniTokio<Idle> = MiniTokio::new();
    let mut delay = Delay::new(10);
    assert_eq!(delay.poll(10, &executor.waker(0)), (Poll::Ready("done"), TimerAction::Keep));
    assert!(delay.waker().is_none());
    assert_eq!(delay.poll(25, &executor.waker(1)), (Poll::Ready("done"), TimerAction::Keep));
    assert!(delay.waker().is_none());
}

#[test]
fn timer_is_rebound_when_another_task_polls() {
    let executor: MiniTokio<Idle> = MiniTokio::new();
    let first = executor.waker(0);
    let second = executor.waker(1);
    let mut delay = Delay::new(100);

    assert_eq!(delay.poll(1, &first), (Poll::Pending, TimerAction::Start));
    assert_eq!(delay.waker().unwrap().task_id(), Some(0));
    assert_eq!(delay.poll(2, &first), (Poll::Pending, TimerAction::Keep));
    assert_eq!(delay.poll(3, &first.clone()), (Poll::Pending, TimerAction::Keep));
    assert_eq!(delay.waker().unwrap().task_id(), Some(0));

    assert_eq!(delay.poll(4, &second), (Poll::Pending, TimerAction::Rebind));
    assert_eq!(delay.waker().unwrap().task_id(), Some(1));
    assert!(delay.waker().unwrap().will_wake(&second));
    assert_eq!(delay.poll(5, &second), (Poll::Pending, TimerAction::Keep));

    assert_eq!(delay.poll(6, &Waker::noop()), (Poll::Pending, TimerAction::Rebind));
    assert_eq!(delay.waker().unwrap().task_id(), None);
    assert_eq!(delay.poll(7, &Waker::noop()), (Poll::Pending, TimerAction::Keep));

    // A ready poll leaves the kept waker as it is.
    assert_eq!(delay.poll(100, &first), (Poll::Ready("done"), TimerAction::Keep));
    assert_eq!(delay.waker().unwrap().task_id(), None);
}

#[test]
fn timer_is_rebound_for_the_same_id_on_another_executor() {
    let here: MiniTokio<Idle> = MiniTokio::new();
    let there: MiniTokio<Idle> = MiniTokio::new();
    let mut delay = Delay::new(100);
    assert_eq!(delay.poll(1, &here.waker(0)), (Poll::Pending, TimerAction::Start));
    assert_eq!(delay.poll(2, &there.waker(0)), (Poll::Pending, TimerAction::Rebind));
    assert!(delay.waker().unwrap().will_wake(&there.waker(0)));
    assert!(!delay.waker().unwrap().will_wake(&here.waker(0)));
    assert_eq!(delay.poll(3, &there.waker(0)), (Poll::Pending, TimerAction::Keep));
}

#[test]
fn remaining_is_the_time_left_to_the_deadline() {
    let delay = Delay::new(1000);
    assert_eq!(delay.remaining(0), 1000);
    assert_eq!(delay.remaining(1), 999);
    assert_eq!(delay.remaining(400), 600);
    assert_eq!(delay.remaining(999), 1);
    assert_eq!(delay.remaining(1000), 0);
    assert_eq!(delay.remaining(1001), 0);
    assert_eq!(delay.remaining(u64::MAX), 0);
    assert_eq!(Delay::new(u64::MAX).remaining(0), u64::MAX);
}

#[test]
fn is_elapsed_tells_whether_the_deadline_has_passed() {
    let delay = Delay::new(10);
    assert!(!delay.is_elapsed(0));
    assert!(!delay.is_elapsed(9));
    assert!(delay.is_elapsed(10));
    assert!(delay.is_elapsed(11));
}
