use std::cell::RefCell;
use std::rc::Rc;
use std::time::Duration;

use embedded_svc::event_bus::Postbox;
use embedded_svc::pinned_timer::{Error, OnceTimerService, PeriodicTimerService, Pinned};

#[derive(Clone, Default)]
struct Bus(Rc<RefCell<Vec<u32>>>);

impl Postbox<u32> for Bus {
    type Error = ();

    fn never_fails(&self) -> bool {
        true
    }

    fn post_answer(&self, _payload: u32, _wait: Option<Duration>, _r: Result<bool, ()>) -> bool {
        unreachable!("a specification, never called at run time")
    }

    fn post(&self, payload: &u32, _wait: Option<Duration>) -> Result<bool, ()> {
        self.0.borrow_mut().push(*payload);
        Ok(true)
    }
}

struct FireAtOnce(bool);

impl OnceTimerService for FireAtOnce {
    type Timer = Duration;
    type Error = &'static str;

    fn after<F: Fn()>(&self, duration: Duration, callback: F) -> Result<Duration, &'static str> {
        if self.0 {
            return Err("no timers left");
        }
        callback();
        Ok(duration)
    }
}

impl PeriodicTimerService for FireAtOnce {
    type Timer = Duration;
    type Error = &'static str;

    fn every<F: Fn()>(&self, duration: Duration, callback: F) -> Result<Duration, &'static str> {
        callback();
        callback();
        Ok(duration)
    }
}

#[test]
fn pinned_once_timer_posts_its_id_and_hands_its_callback_over() {
    let bus = Bus::default();
    let mut pinned = Pinned::new(FireAtOnce(false), bus.clone());
    let first = pinned.after(Duration::from_millis(1), "first").ok().unwrap();
    let second = pinned.after(Duration::from_millis(2), "second").ok().unwrap();
    assert_eq!(*first.inner(), Duration::from_millis(1));
    assert_eq!(*bus.0.borrow(), vec![0, 1]);
    assert_eq!(pinned.take_fired(1), "second");
    assert_eq!(pinned.drop_timer(first), "first");
    let _ = second;
}

#[test]
fn pinned_periodic_timer_keeps_its_callback() {
    let bus = Bus::default();
    let mut pinned = Pinned::new(FireAtOnce(false), bus.clone());
    let timer = pinned.every(Duration::from_millis(5), 7u8).ok().unwrap();
    assert_eq!(*bus.0.borrow(), vec![0, 0]);
    assert_eq!(pinned.fired_callback(0), 7);
    assert_eq!(pinned.fired_callback(0), 7);
    assert_eq!(pinned.drop_timer(timer), 7);
}

#[test]
fn pinned_timer_failure_is_a_timer_error() {
    let mut pinned = Pinned::new(FireAtOnce(true), Bus::default());
    assert!(matches!(pinned.after(Duration::from_millis(1), ()), Err(Error::TimerError("no timers left"))));
}
