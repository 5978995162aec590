use uio::executor::NotifyHandle;
use uio::future::{Progress, Value};
use uio::future_value::FutureValue;
use uio::task::TaskWaker;

#[test]
fn set_then_poll_returns_the_value_exactly_once() {
    let mut wakers = vec![TaskWaker::new()];
    let mut v: Value<i32> = Value::new();

    assert!(matches!(v.poll(NotifyHandle::for_waker(0)), Progress::Pending));
    assert!(v.has_waker());

    v.set(7, &mut wakers);
    assert!(wakers[0].is_ready_to_poll());
    assert!(v.has_value());
    assert!(!v.has_waker());

    assert!(matches!(v.poll(NotifyHandle::empty()), Progress::Ready(7)));
    assert!(!v.has_value());
    assert!(matches!(v.poll(NotifyHandle::empty()), Progress::Pending));
}

#[test]
fn set_without_registrant_fires_nothing() {
    let mut wakers = vec![TaskWaker::new()];
    let mut v: Value<u8> = Value::new();
    v.set(1, &mut wakers);
    assert!(!wakers[0].is_ready_to_poll());
    assert!(matches!(v.poll(NotifyHandle::empty()), Progress::Ready(1)));
}

#[test]
fn last_registrant_wins() {
    let mut wakers = vec![TaskWaker::new(), TaskWaker::new()];
    let mut v: Value<i32> = Value::new();
    assert!(matches!(v.poll(NotifyHandle::for_waker(0)), Progress::Pending));
    assert!(matches!(v.poll(NotifyHandle::for_waker(1)), Progress::Pending));
    v.set(3, &mut wakers);
    assert!(!wakers[0].is_ready_to_poll());
    assert!(wakers[1].is_ready_to_poll());
}

#[test]
fn take_waker_and_take_value_empty_the_slot() {
    let mut wakers = vec![TaskWaker::new()];
    let mut v: Value<i32> = Value::new();
    assert!(v.take_waker().is_none());
    assert!(matches!(v.poll(NotifyHandle::for_waker(0)), Progress::Pending));
    assert!(v.take_waker().is_some());
    v.set(9, &mut wakers);
    assert!(!wakers[0].is_ready_to_poll());
    assert_eq!(v.take_value(), 9);
    assert!(!v.has_value());
}

#[test]
fn future_value_set_replaces_and_wakes() {
    let mut wakers = vec![TaskWaker::new()];
    let mut v: FutureValue<i32> = FutureValue::new();
    assert!(matches!(v.poll(NotifyHandle::for_waker(0)), Progress::Pending));
    v.set(1, &mut wakers);
    assert!(wakers[0].is_ready_to_poll());
    v.set(2, &mut wakers);
    assert!(matches!(v.poll(NotifyHandle::empty()), Progress::Ready(2)));
    assert!(matches!(v.poll(NotifyHandle::empty()), Progress::Pending));
}
