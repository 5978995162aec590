//! Digital-input capabilities: wait until a pin reads high or low.
//!
//! A pin implementation polls the hardware level on each resume and arms the
//! notification handle (typically through an interrupt slot) before reporting
//! not-ready.

use vstd::prelude::*;

use crate::executor::NotifyHandle;
use crate::future::Progress;
use crate::interrupt::WakerRef;
use crate::task::TaskWaker;

verus! {

/// An input pin whose level can be awaited.
pub trait AsyncInputPin {
    /// The pin's error.
    type Error;

    /// Attempt: ready once the pin reads high; otherwise arm `handle` and
    /// report not-ready.
    fn poll_high(&mut self, handle: NotifyHandle, wakers: &mut Vec<TaskWaker>) -> Progress<
        Result<(), Self::Error>,
    >;

    /// Attempt: ready once the pin reads low; otherwise arm `handle` and
    /// report not-ready.
    fn poll_low(&mut self, handle: NotifyHandle, wakers: &mut Vec<TaskWaker>) -> Progress<
        Result<(), Self::Error>,
    >;
}

/// An in-flight wait for a high level.
pub struct HighInputFuture {}

impl HighInputFuture {
    /// One attempt: exactly one poll of the pin for a high level.
    pub fn poll<P: AsyncInputPin>(
        &self,
        pin: &mut P,
        handle: NotifyHandle,
        wakers: &mut Vec<TaskWaker>,
    ) -> Progress<Result<(), P::Error>> {
        pin.poll_high(handle, wakers)
    }
}

/// An in-flight wait for a low level.
pub struct LowInputFuture {}

impl LowInputFuture {
    /// One attempt: exactly one poll of the pin for a low level.
    pub fn poll<P: AsyncInputPin>(
        &self,
        pin: &mut P,
        handle: NotifyHandle,
        wakers: &mut Vec<TaskWaker>,
    ) -> Progress<Result<(), P::Error>> {
        pin.poll_low(handle, wakers)
    }
}

impl crate::future::Cancelable for HighInputFuture {
    /// The in-flight marker holds no pending state of its own; abandoning a
    /// level wait armed inside the pin is the pin's business.
    fn cancel_future(&mut self) {
    }
}

impl crate::future::Cancelable for LowInputFuture {
    /// The in-flight marker holds no pending state of its own.
    fn cancel_future(&mut self) {
    }
}

/// Level waiting for any awaitable pin.
pub trait AsyncInputExt {
    /// The pin's error.
    type Error;

    /// Begin waiting until the pin reads high.
    fn wait_until_high(&mut self) -> HighInputFuture;

    /// Begin waiting until the pin reads low.
    fn wait_until_low(&mut self) -> LowInputFuture;
}

impl<T: AsyncInputPin> AsyncInputExt for T {
    type Error = T::Error;

    fn wait_until_high(&mut self) -> HighInputFuture {
        HighInputFuture {  }
    }

    fn wait_until_low(&mut self) -> LowInputFuture {
        LowInputFuture {  }
    }
}

/// A hardware pin paired with the interrupt slot that wakes waiters on level
/// changes.
pub struct InputWithWaker<P> {
    pin: P,
    waker: WakerRef,
}

impl<P> InputWithWaker<P> {
    /// The wrapped pin.
    pub closed spec fn pin_spec(self) -> P {
        self.pin
    }

    /// The interrupt slot that resumes waiters.
    pub closed spec fn waker_spec(self) -> WakerRef {
        self.waker
    }

    /// Pair `pin` with the interrupt slot referenced by `waker`.
    pub fn new(pin: P, waker: WakerRef) -> (r: InputWithWaker<P>)
        ensures
            r.pin_spec() == pin,
            r.waker_spec() == waker,
    {
        InputWithWaker { pin, waker }
    }

    /// Take the pin back out.
    pub fn free(self) -> (r: P)
        ensures
            r == self.pin_spec(),
    {
        self.pin
    }
}

} // verus!
