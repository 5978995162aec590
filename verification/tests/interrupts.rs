use uio::executor::NotifyHandle;
use uio::interrupt::{Waker, WakerRef};
use uio::task::TaskWaker;

#[test]
fn parked_handle_fires_once() {
    let mut wakers = vec![TaskWaker::new()];
    let mut slot = Waker::new();
    assert!(!slot.has_waker());
    assert!(!slot.try_wake(&mut wakers));

    slot.set_waker(NotifyHandle::for_waker(0));
    assert!(slot.has_waker());
    assert!(slot.try_wake(&mut wakers));
    assert!(wakers[0].is_ready_to_poll());
    assert!(!slot.has_waker());
    assert!(!slot.try_wake(&mut wakers));
}

#[test]
fn take_waker_does_not_fire() {
    let mut wakers = vec![TaskWaker::new()];
    let mut slot = Waker::new();
    slot.set_waker(NotifyHandle::for_waker(0));
    let taken = slot.take_waker();
    assert!(taken.is_some());
    assert!(!wakers[0].is_ready_to_poll());
    assert!(slot.take_waker().is_none());
    taken.unwrap().notify(&mut wakers);
    assert!(wakers[0].is_ready_to_poll());
}

#[test]
fn waker_ref_forwards_to_its_slot() {
    let mut wakers = vec![TaskWaker::new()];
    let mut slots = vec![Waker::new(), Waker::new()];

    let re = WakerRef::new(1);
    re.set_waker(&mut slots, NotifyHandle::for_waker(0));
    assert!(slots[1].has_waker());
    assert!(!slots[0].has_waker());

    assert!(re.try_wake(&mut slots, &mut wakers));
    assert!(wakers[0].is_ready_to_poll());
    assert!(!re.try_wake(&mut slots, &mut wakers));
}

#[test]
fn empty_and_dangling_refs_are_no_ops() {
    let mut wakers = vec![TaskWaker::new()];
    let mut slots = vec![Waker::new()];

    let empty = WakerRef::new_empty();
    empty.set_waker(&mut slots, NotifyHandle::for_waker(0));
    assert!(!slots[0].has_waker());
    assert!(!empty.try_wake(&mut slots, &mut wakers));
    assert!(empty.take_waker(&mut slots).is_none());

    let dangling = WakerRef::new(9);
    dangling.set_waker(&mut slots, NotifyHandle::for_waker(0));
    assert!(!dangling.try_wake(&mut slots, &mut wakers));
    assert!(dangling.take_waker(&mut slots).is_none());
}

#[test]
fn assign_repoints_a_reference() {
    let mut wakers = vec![TaskWaker::new()];
    let mut slots = vec![Waker::new()];
    slots[0].set_waker(NotifyHandle::for_waker(0));

    let mut re = WakerRef::new_empty();
    re.assign(&WakerRef::new(0));
    assert!(re.try_wake(&mut slots, &mut wakers));
    assert!(wakers[0].is_ready_to_poll());
}

#[test]
fn input_with_waker_keeps_and_frees_the_pin() {
    let pin: u8 = 17;
    let wrapped = uio::digital::InputWithWaker::new(pin, WakerRef::new(0));
    assert_eq!(wrapped.free(), 17);
}
