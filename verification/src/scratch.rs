//! A minimal interrupt-style computation, useful for exercising the
//! executor: its first attempt arms an external wake-up and reports
//! not-ready, and any later attempt is ready.
//!
//! The wake-up itself comes from outside — whoever owns the waker storage
//! (a timer thread, interrupt glue, or a test) invokes the handle after the
//! configured sleep time.

use vstd::prelude::*;

use crate::executor::NotifyHandle;
use crate::future::{Computation, Progress};
use crate::task::TaskWaker;

verus! {

/// A computation that suspends once and completes when next resumed.
pub struct IrqFuture {
    sleep_time: u64,
    value: Option<()>,
}

impl IrqFuture {
    /// The sleep the external wake-up is asked to perform, in seconds.
    pub closed spec fn sleep_spec(self) -> u64 {
        self.sleep_time
    }

    /// Whether the computation has already been resumed once.
    pub closed spec fn armed(self) -> bool {
        self.value is Some
    }

    /// With the default sleep of five seconds.
    pub fn new() -> (r: IrqFuture)
        ensures
            r.sleep_spec() == 5,
            !r.armed(),
    {
        IrqFuture::new_with_sleep(5)
    }

    /// With a sleep of `sleep_time` seconds.
    pub fn new_with_sleep(sleep_time: u64) -> (r: IrqFuture)
        ensures
            r.sleep_spec() == sleep_time,
            !r.armed(),
    {
        IrqFuture { sleep_time, value: None }
    }

    /// One attempt: the first arms the external wake-up and reports
    /// not-ready; any later one is ready.
    pub fn poll(&mut self, _handle: NotifyHandle) -> (r: Progress<()>)
        ensures
            final(self).armed(),
            final(self).sleep_spec() == old(self).sleep_spec(),
            r is Pending <==> !old(self).armed(),
    {
        if self.value.is_some() {
            Progress::Ready(())
        } else {
            self.value = Some(());
            Progress::Pending
        }
    }
}

impl Computation for IrqFuture {
    type Output = ();

    /// Resuming is exactly one poll.
    fn resume(&mut self, handle: NotifyHandle, _wakers: &mut Vec<TaskWaker>) -> Progress<()> {
        self.poll(handle)
    }
}

} // verus!
