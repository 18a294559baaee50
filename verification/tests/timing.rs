use std::sync::{Arc, Mutex};
use std::time::{Duration, Instant};

use mini_tokio::delay::{Delay, TimerAction};
use mini_tokio::executor::{MiniTokio, RunEnd};
use mini_tokio::poll::Poll;
use mini_tokio::task::{Computation, Context};
use mini_tokio::waker::Waker;

type Timers = crossbeam::channel::Sender<(u64, Arc<Mutex<Waker>>)>;
type Events = Arc<Mutex<Vec<(&'static str, Duration)>>>;

/// A computation that waits for a delay, if it has one, and then leaves a
/// word among the events. The timer of the delay is a thread that sleeps
/// and then wakes whatever waker it was last handed.
struct Sleeper {
    epoch: Instant,
    delay: Option<Delay>,
    slot: Option<Arc<Mutex<Waker>>>,
    timers: Timers,
    word: &'static str,
    events: Events,
    polls: Arc<Mutex<u32>>,
}

impl Computation for Sleeper {
    fn poll(&mut self, cx: &mut Context<Self>) -> Poll<()> {
        *self.polls.lock().unwrap() += 1;
        let mut word = self.word;
        if let Some(delay) = &mut self.delay {
            let now = self.epoch.elapsed().as_millis() as u64;
            let (outcome, action) = delay.poll(now, cx.waker());
            match action {
                TimerAction::Keep => {}
                TimerAction::Start => {
                    let slot = Arc::new(Mutex::new(cx.waker().clone()));
                    self.slot = Some(slot.clone());
                    self.timers.send((delay.remaining(now), slot)).unwrap();
                }
                TimerAction::Rebind => {
                    *self.slot.as_ref().unwrap().lock().unwrap() = cx.waker().clone();
                }
            }
            match outcome {
                Poll::Ready(value) => word = value,
                Poll::Pending => return Poll::Pending,
            }
        }
        self.events.lock().unwrap().push((word, self.epoch.elapsed()));
        Poll::Ready(())
    }
}

/// Runs `body` beside a thread that serves the timers asked for in it.
fn with_timers(body: impl FnOnce(Timers)) {
    let (timers, requests) = crossbeam::channel::unbounded::<(u64, Arc<Mutex<Waker>>)>();
    crossbeam::thread::scope(|scope| {
        scope.spawn(move |inner| {
            for (left, slot) in requests.iter() {
                inner.spawn(move |_| {
                    let _ = crossbeam::channel::after(Duration::from_millis(left)).recv();
                    slot.lock().unwrap().wake_by_ref();
                });
            }
        });
        body(timers);
    })
    .unwrap();
}

#[test]
fn delayed_task_completes_after_its_deadline_without_busy_polling() {
    let events: Events = Arc::new(Mutex::new(Vec::new()));
    let polls = Arc::new(Mutex::new(0));
    with_timers(|timers| {
        let epoch = Instant::now();
        let mut executor = MiniTokio::new();
        executor.spawn(Sleeper {
            epoch,
            delay: Some(Delay::new(50)),
            slot: None,
            timers,
            word: "",
            events: events.clone(),
            polls: polls.clone(),
        });
        assert_eq!(executor.run(u64::MAX), RunEnd::Idle);
        let returned = epoch.elapsed();
        assert!(returned >= Duration::from_millis(50));
        assert!(returned < Duration::from_millis(2000));
    });
    let events = events.lock().unwrap();
    assert_eq!(events.len(), 1);
    assert_eq!(events[0].0, "done");
    assert!(events[0].1 >= Duration::from_millis(50));
    // One poll at the spawn, one after the wake of the timer.
    assert_eq!(*polls.lock().unwrap(), 2);
}

#[test]
fn immediate_task_finishes_before_the_delayed_one() {
    let events: Events = Arc::new(Mutex::new(Vec::new()));
    with_timers(|timers| {
        let epoch = Instant::now();
        let mut executor = MiniTokio::new();
        executor.spawn(Sleeper {
            epoch,
            delay: Some(Delay::new(10)),
            slot: None,
            timers: timers.clone(),
            word: "",
            events: events.clone(),
            polls: Arc::new(Mutex::new(0)),
        });
        executor.spawn(Sleeper {
            epoch,
            delay: None,
            slot: None,
            timers,
            word: "immediate",
            events: events.clone(),
            polls: Arc::new(Mutex::new(0)),
        });
        assert_eq!(executor.run(u64::MAX), RunEnd::Idle);
    });
    let events = events.lock().unwrap();
    assert_eq!(events.len(), 2);
    assert_eq!(events[0].0, "immediate");
    assert_eq!(events[1].0, "done");
    assert!(events[1].1 >= Duration::from_millis(10));
    assert!(events[0].1 <= events[1].1);
}

#[test]
fn wake_from_another_thread_resumes_the_run_loop() {
    let events: Events = Arc::new(Mutex::new(Vec::new()));
    let polls = Arc::new(Mutex::new(0));
    with_timers(|timers| {
        let epoch = Instant::now();
        let mut executor = MiniTokio::new();
        executor.spawn(Sleeper {
            epoch,
            delay: Some(Delay::new(30)),
            slot: None,
            timers: timers.clone(),
            word: "",
            events: events.clone(),
            polls: polls.clone(),
        });
        // An early wake from another thread finds the delay still pending.
        let early = Arc::new(Mutex::new(executor.waker(0)));
        timers.send((5, early)).unwrap();
        assert_eq!(executor.run(u64::MAX), RunEnd::Idle);
        assert!(epoch.elapsed() >= Duration::from_millis(30));
    });
    assert_eq!(events.lock().unwrap().len(), 1);
    assert_eq!(*polls.lock().unwrap(), 3);
}
