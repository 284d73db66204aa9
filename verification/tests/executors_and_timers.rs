use std::cell::Cell;
use std::time::Duration;

use embedded_svc::asyncify::{blocking_unblocker, BlockingFuture, Unblocker};
use embedded_svc::event_bus::{AsyncEventBus, AsyncPostbox, Postbox, PostboxProvider};
use embedded_svc::executor::{SpawnError, Spawner, TasksSpawner};
use embedded_svc::nonblocking_mqtt::{convert_event, EnqueueFuture, Event, NextFuture, Payload};
use embedded_svc::timer::{AsyncTimer, OnceTimer, PeriodicTimer};

struct Counter(u32, bool);

impl Spawner<u32> for Counter {
    type Task = u32;
    type Error = ();

    fn can_spawn(&self) -> bool {
        !self.1
    }

    fn spawn(&mut self, fut: u32) -> Result<u32, ()> {
        if self.1 {
            return Err(());
        }
        self.0 += 1;
        Ok(fut * 10)
    }
}

#[test]
fn tasks_spawner_keeps_at_most_capacity() {
    let spawner: TasksSpawner<Counter, u32, 2> = TasksSpawner::new(Counter(0, false));
    let spawner = spawner.spawn(1).ok().unwrap();
    let spawner = spawner.spawn(2).ok().unwrap();
    let (counter, tasks) = spawner.release();
    assert_eq!(tasks, vec![10, 20]);
    assert_eq!(counter.0, 2);
    let full: TasksSpawner<Counter, u32, 1> = TasksSpawner::new(Counter(0, false));
    let full = full.spawn(1).ok().unwrap();
    assert!(matches!(full.spawn(2), Err(SpawnError::QueueFull)));
    let failing: TasksSpawner<Counter, u32, 4> = TasksSpawner::new(Counter(0, true));
    assert!(matches!(failing.spawn(1), Err(SpawnError::QueueFull)));
    assert_eq!(SpawnError::QueueFull.message(), "Queue Full Error");
}

struct MockTimer {
    scheduled: Option<Duration>,
    every: bool,
    fail: bool,
}

impl OnceTimer for MockTimer {
    type Error = &'static str;

    fn never_fails(&self) -> bool {
        !self.fail
    }

    fn cancel(&mut self) -> Result<bool, &'static str> {
        if self.fail {
            return Err("cancel failed");
        }
        Ok(self.scheduled.take().is_some())
    }

    fn after(&mut self, duration: Duration) -> Result<(), &'static str> {
        self.scheduled = Some(duration);
        self.every = false;
        Ok(())
    }
}

impl PeriodicTimer for MockTimer {
    fn every(&mut self, duration: Duration) -> Result<(), &'static str> {
        self.scheduled = Some(duration);
        self.every = true;
        Ok(())
    }
}

#[test]
fn async_timer_forgets_old_firing_when_rescheduled() {
    let waker = std::task::Waker::noop();
    let mut timer = AsyncTimer::new(MockTimer { scheduled: None, every: false, fail: false });
    timer.fire();
    timer.after(Duration::from_millis(5)).unwrap();
    assert!(!timer.poll_tick(waker));
    timer.fire();
    assert!(timer.poll_tick(waker));
    assert!(!timer.poll_tick(waker));
    timer.every(Duration::from_millis(1)).unwrap();
    timer.fire();
    assert!(timer.poll_tick(waker));
    let mut failing = AsyncTimer::new(MockTimer { scheduled: None, every: false, fail: true });
    assert_eq!(failing.after(Duration::from_millis(1)), Err("cancel failed"));
}

struct LogPostbox(Cell<u32>);

impl Postbox<u32> for LogPostbox {
    type Error = ();

    fn never_fails(&self) -> bool {
        false
    }

    fn post_answer(&self, _payload: u32, _wait: Option<Duration>, _r: Result<bool, ()>) -> bool {
        unreachable!("a specification, never called at run time")
    }

    fn post(&self, payload: &u32, _wait: Option<Duration>) -> Result<bool, ()> {
        if *payload == 0 {
            return Err(());
        }
        self.0.set(self.0.get() + payload);
        Ok(true)
    }
}

struct Provider;

impl PostboxProvider<u32> for Provider {
    type Error = ();
    type Postbox = LogPostbox;

    fn never_fails(&self) -> bool {
        true
    }

    fn postbox(&self) -> Result<LogPostbox, ()> {
        Ok(LogPostbox(Cell::new(0)))
    }
}

#[test]
fn event_bus_postbox_posts_through() {
    let bus = AsyncEventBus::new(7u8, Provider);
    let postbox: AsyncPostbox<u8, LogPostbox> = bus.postbox::<u32>().unwrap();
    assert!(postbox.send_blocking(3u32, None).is_ok());
    assert!(postbox.send_blocking(0u32, Some(Duration::from_secs(1))).is_err());
}

#[test]
fn mqtt_events_convert_messages_only() {
    let double = |m: &u8| u16::from(*m) * 2;
    assert!(matches!(convert_event(&Event::Received(21u8), &double), Event::Received(42)));
    assert!(matches!(convert_event(&Event::<u8>::Published(9), &double), Event::Published(9)));
    assert!(matches!(convert_event(&Event::<u8>::Connected(true), &double), Event::Connected(true)));
    assert_eq!(EnqueueFuture::<()>(Ok(5)).poll(), Ok(5));
    assert_eq!(EnqueueFuture::<&str>(Err("x")).poll(), Err("x"));
}

#[test]
fn mqtt_payload_hand_over() {
    let waker = std::task::Waker::noop();
    let mut payload: Payload<Option<Result<Event<u8>, ()>>> = Payload::new();
    let mut future = NextFuture::new();
    let id = |m: &u8| *m;
    let err = |e: &()| *e;
    assert!(future.poll(&mut payload, waker, &id, &err).is_none());
    assert!(payload.post(Some(Ok(Event::Received(1)))).is_none());
    assert!(payload.post(None).is_some());
    assert!(!payload.consumed());
    assert!(matches!(future.poll(&mut payload, waker, &id, &err), Some(Some(Ok(Event::Received(1))))));
    assert!(future.release(&mut payload));
    assert!(payload.consumed());
}

#[test]
fn blocking_unblocker_runs_work() {
    let unblocker = blocking_unblocker();
    assert_eq!(Unblocker::unblock(&unblocker, || 2 + 3), 5);
    let mut future: BlockingFuture<_> = unblocker.unblock(|| "done");
    assert_eq!(future.poll(), "done");
}
