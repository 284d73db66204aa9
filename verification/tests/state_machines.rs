use std::sync::Arc;
use std::task::{Wake, Waker};

use embedded_svc::asynch_mutex::{Mutex, TryLockError};
use embedded_svc::asyncify_mqtt_client::{AsyncPostbox as MqttAsyncPostbox, AsyncState, NextFuture as MqttNextFuture, NextPoll};
use embedded_svc::asyncs::yield_now;
use embedded_svc::asyncs_signal::{as_receiver, as_sender, MutexSignal, Signal as _};
use embedded_svc::atomic_swap::{AtomicOption, AtomicSwap};
use embedded_svc::event_bus::SubscriptionState;
use embedded_svc::mqtt::{ConnState, ConnStateGuard, Connection, NextStep, PostStep, Postbox};
use embedded_svc::nonblocking_signal::{Signal, SignalError, WaitPoll};
use embedded_svc::pinned_timer::State;
use embedded_svc::timer::Notification;
use embedded_svc::waker::{MultiWakerRegistration, SingleWakerRegistration};
use embedded_svc::zerocopy::{Channel, GetStep, SetStep};

fn waker() -> &'static Waker {
    Waker::noop()
}

#[test]
fn mqtt_post_then_next_delivers_event() {
    let mut guard: ConnStateGuard<ConnState<u32, ()>> = ConnStateGuard::new_default();
    let mut postbox = Postbox::new();
    let mut connection = Connection::new();
    assert!(matches!(connection.next(&mut guard), NextStep::Wait));
    assert!(matches!(postbox.post(&mut guard, Ok(7)), PostStep::Posted));
    assert!(matches!(postbox.post(&mut guard, Ok(8)), PostStep::Wait(Ok(8))));
    assert!(matches!(connection.next(&mut guard), NextStep::Event(Ok(7))));
    assert!(matches!(postbox.post(&mut guard, Ok(8)), PostStep::Posted));
    guard.close();
    assert!(matches!(connection.next(&mut guard), NextStep::Closed));
    assert!(matches!(postbox.post(&mut guard, Ok(9)), PostStep::Closed));
}

#[test]
fn async_mqtt_post_then_poll() {
    let mut state: Option<AsyncState<u8, ()>> = Some(AsyncState::new());
    let mut future = MqttNextFuture::new();
    let mut postbox = MqttAsyncPostbox::new();
    assert!(matches!(future.poll(&mut state, waker()), NextPoll::Pending));
    assert!(matches!(postbox.post(&mut state, Ok(3)), PostStep::Posted));
    assert!(matches!(postbox.post(&mut state, Ok(4)), PostStep::Wait(Ok(4))));
    assert!(matches!(future.poll(&mut state, waker()), NextPoll::Ready(Some(Ok(3)))));
    state = None;
    assert!(matches!(future.poll(&mut state, waker()), NextPoll::Ready(None)));
}

#[test]
fn zerocopy_set_get_done() {
    let mut channel = Channel::new();
    assert!(matches!(channel.get(), GetStep::Wait));
    assert!(matches!(channel.set(10u32), SetStep::Stored));
    assert!(!channel.released());
    assert!(matches!(channel.set(11u32), SetStep::Busy(_)));
    match channel.get() {
        GetStep::Data(d) => *d += 1,
        _ => panic!("data expected"),
    }
    match channel.get() {
        GetStep::Data(d) => assert_eq!(*d, 11),
        _ => panic!("data expected"),
    }
    assert!(channel.done());
    assert!(channel.released());
    assert!(!channel.done());
    channel.close();
    assert!(matches!(channel.set(12u32), SetStep::Closed));
    assert!(matches!(channel.get(), GetStep::Quit));
}

#[test]
fn pinned_timer_state_add_lookup_remove() {
    let mut state: State<&'static str> = State::new();
    let a = state.add("a");
    let b = state.add("b");
    assert_eq!((a, b), (0, 1));
    assert_eq!(state.callback_ref(b), "b");
    assert_eq!(state.remove(a), "a");
    assert_eq!(state.callback_ref(b), "b");
    let c = state.add("c");
    assert_eq!(c, 2);
    assert_eq!(state.remove(c), "c");
}

#[test]
fn subscription_state_deliver_then_poll() {
    let mut state: SubscriptionState<u16, ()> = SubscriptionState::new();
    assert_eq!(state.poll_next(waker()), None);
    assert!(state.deliver(&5));
    assert!(!state.deliver(&6));
    assert_eq!(state.poll_next(waker()), Some(5));
    assert_eq!(state.poll_next(waker()), None);
    assert!(state.deliver(&6));
    state.cancel_wait();
    assert_eq!(state.poll_next(waker()), Some(6));
}

#[test]
fn signal_then_poll_takes_value_once() {
    let mut signal = Signal::new();
    assert!(!signal.signaled());
    assert!(matches!(signal.poll_wait(waker()), Ok(WaitPoll::Pending)));
    signal.signal(42u8);
    assert!(signal.signaled());
    assert!(matches!(signal.poll_wait(waker()), Ok(WaitPoll::Ready(42))));
    assert!(!signal.signaled());
    signal.signal(1);
    signal.signal(2);
    assert!(matches!(signal.poll_wait(waker()), Ok(WaitPoll::Ready(2))));
    signal.reset();
    assert!(!signal.signaled());
}

struct Task;

impl Wake for Task {
    fn wake(self: Arc<Self>) {}
}

#[test]
fn signal_poll_from_other_task_overflows() {
    let first = Waker::from(Arc::new(Task));
    let second = Waker::from(Arc::new(Task));
    let mut signal: Signal<u8> = Signal::new();
    assert!(matches!(signal.poll_wait(&first), Ok(WaitPoll::Pending)));
    assert!(matches!(signal.poll_wait(&first), Ok(WaitPoll::Pending)));
    assert!(matches!(signal.poll_wait(&second), Err(SignalError::WakerOverflow)));
}

#[test]
fn mutex_signal_through_sender_and_receiver() {
    let mut signal: MutexSignal<u32> = MutexSignal::new();
    as_sender(&mut signal).send(5);
    assert!(signal.signaled());
    assert!(matches!(as_receiver(&mut signal).recv(waker()), Ok(WaitPoll::Ready(5))));
    assert_eq!(signal.try_get(), None);
    signal.signal(6);
    assert_eq!(signal.try_get(), Some(6));
}

#[test]
fn atomic_option_swaps() {
    let mut flag = AtomicOption::new(None);
    assert_eq!(flag.swap(Some(())), None);
    assert_eq!(flag.swap(None), Some(()));
    assert_eq!(flag.swap(None), None);
}

#[test]
fn async_mutex_locks_exclusively() {
    let mut mutex: Mutex<SingleWakerRegistration, u32> = Mutex::new(3);
    {
        let mut guard = mutex.try_lock().unwrap();
        assert_eq!(*guard.get(), 3);
        guard.set(4);
    }
    assert!(matches!(mutex.try_lock(), Err(TryLockError)));
    assert!(!mutex.poll_lock(waker()));
    mutex.unlock();
    assert!(mutex.poll_lock(waker()));
    assert_eq!(TryLockError.message(), "TryLockError");
}

#[test]
fn waker_registrations() {
    let mut single = SingleWakerRegistration::new();
    assert!(!single.occupied());
    single.register(waker());
    assert!(single.occupied());
    single.wake();
    assert!(!single.occupied());
    let mut multi = MultiWakerRegistration::<2>::new();
    assert!(multi.register(waker()).is_ok());
    assert!(multi.register(waker()).is_ok());
    assert!(multi.register(waker()).is_err());
    multi.wake();
    assert!(multi.register(waker()).is_ok());
}

#[test]
fn notification_is_consumed_once() {
    let mut notification = Notification::new();
    assert!(!notification.poll_wait(waker()));
    notification.notify();
    assert!(notification.poll_wait(waker()));
    assert!(!notification.poll_wait(waker()));
    notification.notify();
    notification.reset();
    assert!(!notification.poll_wait(waker()));
}

#[test]
fn yield_now_completes_on_second_poll() {
    let mut pause = yield_now();
    assert!(!pause.poll(waker()));
    assert!(pause.poll(waker()));
}

#[test]
fn async_mutex_guard_unlock_frees_the_mutex() {
    let mut mutex: Mutex<SingleWakerRegistration, u32> = Mutex::new(5);
    let mut guard = mutex.try_lock().unwrap();
    guard.set(6);
    guard.unlock();
    let again = mutex.try_lock().ok().unwrap();
    assert_eq!(*again.get(), 6);
}
