use uio::executor::NotifyHandle;
use uio::future::Progress;
use uio::timer::{duration_to_ticks, DelayExt, WakeAfter};

#[test]
fn whole_seconds_and_milliseconds() {
    // 1 s + 500 ms at 1 kHz: 1000 ticks plus 500.
    assert_eq!(duration_to_ticks(1, 500_000_000, 1_000), Ok(1_500));
}

#[test]
fn microseconds_count_only_at_high_frequencies() {
    // 250 µs at 1 MHz: (1_000_000 / 1_000_000) * 250 = 250 ticks.
    assert_eq!(duration_to_ticks(0, 250_000, 1_000_000), Ok(250));
    // The same duration at 1 kHz is below one tick.
    assert_eq!(duration_to_ticks(0, 250_000, 1_000), Ok(0));
}

#[test]
fn sub_microsecond_remainder_needs_a_faster_than_nanosecond_tick() {
    // 999 ns at 1 GHz: the frequency is not strictly above 1e9, so nothing.
    assert_eq!(duration_to_ticks(0, 999, 1_000_000_000), Ok(0));
    // At 2 GHz the remainder contributes (2e9 / 1e9) * 999.
    assert_eq!(duration_to_ticks(0, 999, 2_000_000_000), Ok(1_998));
}

#[test]
fn overflowing_durations_are_rejected() {
    assert_eq!(duration_to_ticks(2, 0, u32::MAX), Err(()));
    assert_eq!(duration_to_ticks(4_294_967_295, 0, 2), Err(()));
    assert_eq!(duration_to_ticks(4_294_967, 295_000_000, 1_000), Ok(4_294_967_295));
    assert_eq!(duration_to_ticks(4_294_967, 296_000_000, 1_000), Err(()));
}

/// A timer that records the armed request and fires when told to.
struct ScriptedTimer {
    armed: Option<(u64, u32)>,
    fired: bool,
    refuse: bool,
}

impl WakeAfter for ScriptedTimer {
    type Error = &'static str;

    fn signaled(&self) -> bool {
        self.fired
    }

    fn wake_after(&mut self, _waker: NotifyHandle, secs: u64, nanos: u32) -> Result<(), &'static str> {
        if self.refuse {
            return Err("the timer is busy");
        }
        self.armed = Some((secs, nanos));
        Ok(())
    }

    fn wake_signaled(&self) -> bool {
        self.fired
    }
}

#[test]
fn delay_arms_once_then_waits_for_the_signal() {
    let mut timer = ScriptedTimer { armed: None, fired: false, refuse: false };
    let mut delay = timer.delay(2, 500);

    assert!(matches!(delay.poll(&mut timer, NotifyHandle::empty()), Progress::Pending));
    assert_eq!(timer.armed, Some((2, 500)));

    assert!(matches!(delay.poll(&mut timer, NotifyHandle::empty()), Progress::Pending));
    timer.fired = true;
    assert!(matches!(delay.poll(&mut timer, NotifyHandle::empty()), Progress::Ready(Ok(()))));
}

#[test]
fn delay_reports_the_timer_error() {
    let mut timer = ScriptedTimer { armed: None, fired: false, refuse: true };
    let mut delay = timer.delay(1, 0);
    match delay.poll(&mut timer, NotifyHandle::empty()) {
        Progress::Ready(Err(e)) => assert_eq!(e, "the timer is busy"),
        _ => panic!("the refusal should surface"),
    }
}

#[test]
fn irq_future_suspends_once() {
    let mut fut = uio::scratch::IrqFuture::new_with_sleep(2);
    assert!(matches!(fut.poll(NotifyHandle::empty()), Progress::Pending));
    assert!(matches!(fut.poll(NotifyHandle::empty()), Progress::Ready(())));
    let mut fut = uio::scratch::IrqFuture::new();
    assert!(matches!(fut.poll(NotifyHandle::empty()), Progress::Pending));
    assert!(matches!(fut.poll(NotifyHandle::empty()), Progress::Ready(())));
}
