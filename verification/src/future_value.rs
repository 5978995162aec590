//! A plain resumable value slot.
//!
//! Unlike [`crate::future::Value`], `set` here is not single-shot: a later
//! `set` replaces any value that has not been consumed yet.

use vstd::prelude::*;

use crate::executor::{notified, NotifyHandle};
use crate::future::{Computation, Progress};
use crate::task::TaskWaker;

verus! {

/// An optional value plus an optional resumption handle.
pub struct FutureValue<T> {
    value: Option<T>,
    waker: Option<NotifyHandle>,
}

impl<T> FutureValue<T> {
    /// The stored value, if any.
    pub closed spec fn val(self) -> Option<T> {
        self.value
    }

    /// The registered resumption handle, if any.
    pub closed spec fn registered(self) -> Option<NotifyHandle> {
        self.waker
    }

    /// An empty slot.
    pub fn new() -> (v: FutureValue<T>)
        ensures
            v.val() is None,
            v.registered() is None,
    {
        FutureValue { value: None, waker: None }
    }

    /// Store the value, replacing any unconsumed one, and fire the
    /// registered resumption handle, if any.
    pub fn set(&mut self, value: T, wakers: &mut Vec<TaskWaker>)
        ensures
            final(self).val() == Some(value),
            final(self).registered() is None,
            final(wakers)@ == match old(self).registered() {
                Some(h) => notified(old(wakers)@, h),
                None => old(wakers)@,
            },
    {
        self.value = Some(value);
        let fired = self.waker.take();
        match fired {
            Some(h) => h.notify(wakers),
            None => {},
        }
    }

    /// One poll: take a present value, or register `handle` and report
    /// not-ready.
    pub fn poll(&mut self, handle: NotifyHandle) -> (r: Progress<T>)
        ensures
            match old(self).val() {
                Some(v) => r == Progress::Ready(v) && final(self).val() is None
                    && final(self).registered() == old(self).registered(),
                None => r is Pending && final(self).val() is None && final(self).registered()
                    == Some(handle),
            },
    {
        if self.value.is_some() {
            let v = self.value.take().unwrap();
            Progress::Ready(v)
        } else {
            self.waker = Some(handle);
            Progress::Pending
        }
    }
}

impl<T> Computation for FutureValue<T> {
    type Output = T;

    /// Awaiting the slot is exactly one poll of it.
    fn resume(&mut self, handle: NotifyHandle, _wakers: &mut Vec<TaskWaker>) -> Progress<T> {
        self.poll(handle)
    }
}

} // verus!
