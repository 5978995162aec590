//! Timer-based delays: converting a duration to hardware ticks, and a
//! computation that completes once an armed timer fires.

use vstd::prelude::*;

use crate::executor::NotifyHandle;
use crate::future::Progress;

verus! {

/// Ticks contributed by the sub-second part of a duration, staged by unit:
/// whole milliseconds first, then whole microseconds of the remainder, then
/// the remaining nanoseconds when the tick runs faster than a nanosecond.
/// Each stage truncates, so a tick slower than its unit contributes nothing.
pub open spec fn subsec_ticks(tick_frequency: int, subsec_nanos: int) -> int {
    let millis = if subsec_nanos > 1_000_000 {
        subsec_nanos / 1_000_000
    } else {
        0
    };
    let after_millis = subsec_nanos - millis * 1_000_000;
    let micros = if after_millis > 1_000 {
        after_millis / 1_000
    } else {
        0
    };
    let after_micros = after_millis - micros * 1_000;
    (tick_frequency / 1_000) * millis + (tick_frequency / 1_000_000) * micros + (if after_micros
        > 0 && tick_frequency > 1_000_000_000 {
        (tick_frequency / 1_000_000_000) * after_micros
    } else {
        0
    })
}

/// Convert a duration of `seconds` plus `subsec_nanos` nanoseconds into ticks
/// of a timer running at `tick_frequency` ticks per second.  Fails exactly
/// when the total does not fit the tick counter's width.
pub fn duration_to_ticks(seconds: u32, subsec_nanos: u32, tick_frequency: u32) -> (r: Result<
    u32,
    (),
>)
    requires
        subsec_nanos < 1_000_000_000,
    ensures
        r matches Ok(t) ==> t == tick_frequency * seconds + subsec_ticks(
            tick_frequency as int,
            subsec_nanos as int,
        ),
        r is Ok <==> tick_frequency * seconds + subsec_ticks(
            tick_frequency as int,
            subsec_nanos as int,
        ) <= u32::MAX,
{
    let sec_ticks = match tick_frequency.checked_mul(seconds) {
        Some(st) => st,
        None => {
            proof {
                lemma_subsec_ticks_bounds(tick_frequency as int, subsec_nanos as int);
            }
            return Err(());
        },
    };
    let mut subsec = subsec_nanos;
    let mut ticks_to_add: u64 = 0;
    if subsec > 1_000_000 {
        let millis = subsec / 1_000_000;
        proof {
            assert(millis <= 999) by (nonlinear_arith)
                requires
                    subsec < 1_000_000_000,
                    millis == subsec / 1_000_000,
            ;
            assert(((tick_frequency / 1_000) as int) * (millis as int) <= 4_294_967_295
                * 999) by (nonlinear_arith)
                requires
                    tick_frequency / 1_000 <= 4_294_967_295,
                    millis <= 999,
            ;
            assert(millis * 1_000_000 <= subsec) by (nonlinear_arith)
                requires
                    millis == subsec / 1_000_000,
            ;
            assert(subsec - millis * 1_000_000 < 1_000_000) by (nonlinear_arith)
                requires
                    millis == subsec / 1_000_000,
            ;
        }
        ticks_to_add = ticks_to_add + ((tick_frequency / 1_000) as u64) * (millis as u64);
        subsec = subsec - millis * 1_000_000;
    }
    if subsec > 1_000 {
        let micros = subsec / 1_000;
        proof {
            assert(micros <= 1_000) by (nonlinear_arith)
                requires
                    subsec <= 1_000_000,
                    micros == subsec / 1_000,
            ;
            assert(((tick_frequency / 1_000_000) as int) * (micros as int) <= 4_294_967_295
                * 1_000) by (nonlinear_arith)
                requires
                    tick_frequency / 1_000_000 <= 4_294_967_295,
                    micros <= 1_000,
            ;
            assert(micros * 1_000 <= subsec) by (nonlinear_arith)
                requires
                    micros == subsec / 1_000,
            ;
            assert(subsec - micros * 1_000 < 1_000) by (nonlinear_arith)
                requires
                    micros == subsec / 1_000,
            ;
        }
        ticks_to_add = ticks_to_add + ((tick_frequency / 1_000_000) as u64) * (micros as u64);
        subsec = subsec - micros * 1_000;
    }
    if subsec > 0 && tick_frequency > 1_000_000_000 {
        proof {
            assert(((tick_frequency / 1_000_000_000) as int) * (subsec as int) <= 4_294_967_295
                * 1_000) by (nonlinear_arith)
                requires
                    tick_frequency / 1_000_000_000 <= 4_294_967_295,
                    subsec <= 1_000,
            ;
        }
        ticks_to_add = ticks_to_add + ((tick_frequency / 1_000_000_000) as u64) * (subsec as u64);
    }
    if ticks_to_add > 0xFFFF_FFFFu64 {
        return Err(());
    }
    match sec_ticks.checked_add(ticks_to_add as u32) {
        Some(total) => Ok(total),
        None => Err(()),
    }
}

/// The sub-second contribution is non-negative and fits well inside the tick
/// counter's width.
proof fn lemma_subsec_ticks_bounds(tick_frequency: int, subsec_nanos: int)
    requires
        0 <= tick_frequency <= u32::MAX,
        0 <= subsec_nanos < 1_000_000_000,
    ensures
        0 <= subsec_ticks(tick_frequency, subsec_nanos),
{
    let millis = if subsec_nanos > 1_000_000 {
        subsec_nanos / 1_000_000
    } else {
        0
    };
    let after_millis = subsec_nanos - millis * 1_000_000;
    assert(0 <= millis && millis * 1_000_000 <= subsec_nanos) by (nonlinear_arith)
        requires
            0 <= subsec_nanos,
            millis == if subsec_nanos > 1_000_000 {
                subsec_nanos / 1_000_000
            } else {
                0
            },
    ;
    let micros = if after_millis > 1_000 {
        after_millis / 1_000
    } else {
        0
    };
    assert(0 <= micros && micros * 1_000 <= after_millis) by (nonlinear_arith)
        requires
            0 <= after_millis,
            micros == if after_millis > 1_000 {
                after_millis / 1_000
            } else {
                0
            },
    ;
    assert(0 <= (tick_frequency / 1_000) * millis) by (nonlinear_arith)
        requires
            0 <= tick_frequency / 1_000,
            0 <= millis,
    ;
    assert(0 <= (tick_frequency / 1_000_000) * micros) by (nonlinear_arith)
        requires
            0 <= tick_frequency / 1_000_000,
            0 <= micros,
    ;
    let after_micros = after_millis - micros * 1_000;
    if after_micros > 0 && tick_frequency > 1_000_000_000 {
        assert(0 <= (tick_frequency / 1_000_000_000) * after_micros) by (nonlinear_arith)
            requires
                0 <= tick_frequency / 1_000_000_000,
                0 <= after_micros,
        ;
    }
}

/// The timer capability: arm a wake-up after a duration, and report whether
/// the armed wake-up has fired.
pub trait WakeAfter {
    /// The timer's error.
    type Error;

    /// Whether the armed wake-up has fired, as the timer's own state sees it.
    spec fn signaled(&self) -> bool;

    /// Arm the timer: after `secs` seconds plus `nanos` nanoseconds, invoke
    /// `waker`.
    fn wake_after(&mut self, waker: NotifyHandle, secs: u64, nanos: u32) -> Result<
        (),
        Self::Error,
    >;

    /// Whether the armed wake-up has fired.
    fn wake_signaled(&self) -> (r: bool)
        ensures
            r == self.signaled(),
    ;
}

/// An in-flight delay: arms the timer on its first attempt, then waits for
/// the signal.
pub struct DelayFuture {
    secs: u64,
    nanos: u32,
    timer_started: bool,
}

impl DelayFuture {
    /// The delay's whole seconds.
    pub closed spec fn secs_spec(self) -> u64 {
        self.secs
    }

    /// The delay's sub-second nanoseconds.
    pub closed spec fn nanos_spec(self) -> u32 {
        self.nanos
    }

    /// Whether the timer has been armed.
    pub closed spec fn started_spec(self) -> bool {
        self.timer_started
    }

    /// A delay of `secs` seconds plus `nanos` nanoseconds, not yet armed.
    pub fn new(secs: u64, nanos: u32) -> (r: DelayFuture)
        ensures
            r.secs_spec() == secs,
            r.nanos_spec() == nanos,
            !r.started_spec(),
    {
        DelayFuture { secs, nanos, timer_started: false }
    }

    /// One attempt.  The first attempt arms the timer with `handle` and
    /// reports not-ready (or the timer's error, leaving the delay unarmed);
    /// later attempts leave the timer untouched and are ready exactly when
    /// it has signaled.
    pub fn poll<T: WakeAfter>(&mut self, timer: &mut T, handle: NotifyHandle) -> (r: Progress<
        Result<(), T::Error>,
    >)
        ensures
            old(self).started_spec() ==> *final(self) == *old(self) && *final(timer) == *old(timer)
                && (if old(timer).signaled() {
                r == Progress::Ready(Ok::<(), T::Error>(()))
            } else {
                r is Pending
            }),
            !old(self).started_spec() ==> (r is Pending ==> final(self).started_spec() && final(self).secs_spec() == old(self).secs_spec() && final(self).nanos_spec() == old(self).nanos_spec()) && (r matches Progress::Ready(res) ==> res is Err && *final(self)
                == *old(self)),
    {
        if self.timer_started {
            if timer.wake_signaled() {
                Progress::Ready(Ok(()))
            } else {
                Progress::Pending
            }
        } else {
            match timer.wake_after(handle, self.secs, self.nanos) {
                Err(e) => Progress::Ready(Err(e)),
                Ok(()) => {
                    self.timer_started = true;
                    Progress::Pending
                },
            }
        }
    }
}

/// Delays for any timer.
pub trait DelayExt: WakeAfter {
    /// Begin a delay of `secs` seconds plus `nanos` nanoseconds.
    fn delay(&mut self, secs: u64, nanos: u32) -> DelayFuture;
}

impl<T: WakeAfter> DelayExt for T {
    fn delay(&mut self, secs: u64, nanos: u32) -> DelayFuture {
        DelayFuture::new(secs, nanos)
    }
}

} // verus!
