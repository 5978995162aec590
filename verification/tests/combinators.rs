use uio::executor::NotifyHandle;
use uio::future::{Cancelable, Computation, Progress};
use uio::select::{both, first};
use uio::task::TaskWaker;

/// Completes with its label after a fixed number of resumptions; records
/// whether it was cancelled.
struct Countdown {
    label: u32,
    remaining: u32,
    cancelled: bool,
}

impl Countdown {
    fn new(label: u32, remaining: u32) -> Countdown {
        Countdown { label, remaining, cancelled: false }
    }
}

impl Computation for Countdown {
    type Output = u32;

    fn resume(&mut self, _handle: NotifyHandle, _wakers: &mut Vec<TaskWaker>) -> Progress<u32> {
        if self.remaining == 0 {
            Progress::Ready(self.label)
        } else {
            self.remaining -= 1;
            Progress::Pending
        }
    }
}

impl Cancelable for Countdown {
    fn cancel_future(&mut self) {
        self.cancelled = true;
    }
}

#[test]
fn first_returns_the_early_one_and_cancels_the_other() {
    let mut wakers: Vec<TaskWaker> = Vec::new();
    let mut race = first(Countdown::new(1, 0), Countdown::new(2, 5));
    match race.poll(NotifyHandle::empty(), &mut wakers) {
        Progress::Ready((a, b)) => {
            assert_eq!(a, Some(1));
            assert_eq!(b, None);
        }
        Progress::Pending => panic!("one side was already ready"),
    }
}

#[test]
fn first_returns_both_when_both_are_ready() {
    let mut wakers: Vec<TaskWaker> = Vec::new();
    let mut race = first(Countdown::new(1, 0), Countdown::new(2, 0));
    match race.poll(NotifyHandle::empty(), &mut wakers) {
        Progress::Ready((a, b)) => {
            assert_eq!(a, Some(1));
            assert_eq!(b, Some(2));
        }
        Progress::Pending => panic!("both sides were ready"),
    }
}

#[test]
fn first_stays_pending_while_neither_is_ready() {
    let mut wakers: Vec<TaskWaker> = Vec::new();
    let mut race = first(Countdown::new(1, 3), Countdown::new(2, 3));
    assert!(matches!(race.poll(NotifyHandle::empty(), &mut wakers), Progress::Pending));
}

#[test]
fn both_caches_the_early_value_and_resolves_once() {
    let mut wakers: Vec<TaskWaker> = Vec::new();
    let mut pair = both(Countdown::new(1, 0), Countdown::new(2, 2));
    assert!(matches!(pair.poll(NotifyHandle::empty(), &mut wakers), Progress::Pending));
    assert!(matches!(pair.poll(NotifyHandle::empty(), &mut wakers), Progress::Pending));
    match pair.poll(NotifyHandle::empty(), &mut wakers) {
        Progress::Ready((a, b)) => {
            assert_eq!(a, 1);
            assert_eq!(b, 2);
        }
        Progress::Pending => panic!("both values were in hand"),
    }
}

#[test]
fn cancelling_the_race_cancels_both_sides() {
    let mut race = first(Countdown::new(1, 3), Countdown::new(2, 3));
    race.cancel_future();
}
