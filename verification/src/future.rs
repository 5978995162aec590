//! Asynchronous values: the progress report, the computation capability, and
//! the single-slot result primitive backing join handles.
//!
//! A [`Value`] is a single-producer/single-consumer one-shot slot: `set`
//! stores a value once and fires any registered resumption handle exactly
//! once; polling either takes the value or registers the caller's handle for
//! later (last registrant wins).

use vstd::prelude::*;

use crate::executor::{notified, NotifyHandle};
use crate::task::TaskWaker;

verus! {

/// One attempt at progress: either a result, or not ready yet.
pub enum Progress<T> {
    /// The computation finished with this value.
    Ready(T),
    /// Not ready; the computation has arranged to be notified.
    Pending,
}

/// A computation that can be asked to abandon pending work.
pub trait Cancelable {
    /// Abandon any pending work; the storage is still released by its owner.
    fn cancel_future(&mut self);
}

/// The computation capability: attempt progress given a notification handle.
///
/// A computation reports ready-with-value or not-ready; before reporting
/// not-ready it must arrange for the handle (or a copy of it) to be invoked
/// when progress becomes possible again.
pub trait Computation {
    /// The value the computation eventually produces.
    type Output;

    /// Attempt progress.  `handle` names the task being resumed; `wakers` is
    /// the caller-owned waker storage the handle points into.
    fn resume(&mut self, handle: NotifyHandle, wakers: &mut Vec<TaskWaker>) -> Progress<
        Self::Output,
    >;
}

/// Single-slot one-shot result: an optional value plus an optional
/// resumption handle.
pub struct Value<T> {
    value: Option<T>,
    waker: Option<NotifyHandle>,
}

impl<T> Value<T> {
    /// The stored value, if it has been set and not yet consumed.
    pub closed spec fn val(self) -> Option<T> {
        self.value
    }

    /// The registered resumption handle, if any.
    pub closed spec fn registered(self) -> Option<NotifyHandle> {
        self.waker
    }

    /// Whether a value is present.
    pub open spec fn holds_value(self) -> bool {
        self.val() is Some
    }

    /// The slot after `set(v)`: the value is stored and the handle has been
    /// taken (and fired).
    pub closed spec fn spec_set(self, v: T) -> Value<T> {
        Value { value: Some(v), waker: None }
    }

    /// The slot and report after one poll with `handle`: a present value is
    /// taken and returned; otherwise `handle` is registered, replacing any
    /// previous registrant, and the poll reports not-ready.
    pub closed spec fn spec_poll(self, handle: NotifyHandle) -> (Value<T>, Progress<T>) {
        match self.val() {
            Some(v) => (Value { value: None, waker: self.registered() }, Progress::Ready(v)),
            None => (Value { value: None, waker: Some(handle) }, Progress::Pending),
        }
    }

    /// An empty slot: no value, no registrant.
    pub fn new() -> (v: Value<T>)
        ensures
            v.val() is None,
            v.registered() is None,
    {
        Value { value: None, waker: None }
    }

    /// Store the value and fire the registered resumption handle, if any,
    /// exactly once.  `set` is single-shot: the slot must be empty.
    pub fn set(&mut self, value: T, wakers: &mut Vec<TaskWaker>)
        requires
            !old(self).holds_value(),
        ensures
            *final(self) == old(self).spec_set(value),
            final(self).val() == Some(value),
            final(self).registered() is None,
            final(wakers)@ == match old(self).registered() {
                Some(h) => notified(old(wakers)@, h),
                None => old(wakers)@,
            },
    {
        self.value = Some(value);
        let fired = self.waker.take();
        match fired {
            Some(h) => h.notify(wakers),
            None => {},
        }
    }

    /// Whether a value is present.
    pub fn has_value(&self) -> (r: bool)
        ensures
            r == self.holds_value(),
    {
        self.value.is_some()
    }

    /// Whether a resumption handle is registered.
    pub fn has_waker(&self) -> (r: bool)
        ensures
            r == (self.registered() is Some),
    {
        self.waker.is_some()
    }

    /// Take the registered resumption handle without firing it.
    pub fn take_waker(&mut self) -> (r: Option<NotifyHandle>)
        ensures
            r == old(self).registered(),
            final(self).registered() is None,
            final(self).val() == old(self).val(),
    {
        self.waker.take()
    }

    /// Take the stored value, leaving the slot empty.
    pub fn take_value(&mut self) -> (r: T)
        requires
            old(self).holds_value(),
        ensures
            Some(r) == old(self).val(),
            final(self).val() is None,
            final(self).registered() == old(self).registered(),
    {
        self.value.take().unwrap()
    }

    /// One poll: take a present value, or register `handle` (replacing any
    /// previous registrant) and report not-ready.
    pub fn poll(&mut self, handle: NotifyHandle) -> (r: Progress<T>)
        ensures
            (*final(self), r) == old(self).spec_poll(handle),
            final(self).val() is None,
            match old(self).val() {
                Some(v) => r == Progress::Ready(v) && final(self).registered() == old(
                    self,
                ).registered(),
                None => r is Pending && final(self).registered() == Some(handle),
            },
    {
        if self.value.is_some() {
            let v = self.value.take().unwrap();
            Progress::Ready(v)
        } else {
            self.waker = Some(handle);
            Progress::Pending
        }
    }
}

impl<T> Computation for Value<T> {
    type Output = T;

    /// Awaiting a value slot is exactly one poll of it.
    fn resume(&mut self, handle: NotifyHandle, _wakers: &mut Vec<TaskWaker>) -> Progress<T> {
        self.poll(handle)
    }
}

/// Setting a slot and then polling it yields the value exactly once: the
/// first poll returns it and empties the slot, and a second poll without an
/// intervening set reports not-ready.
pub proof fn lemma_value_set_once<T>(v0: Value<T>, x: T, h1: NotifyHandle, h2: NotifyHandle)
    requires
        !v0.holds_value(),
    ensures
        ({
            let v1 = v0.spec_set(x);
            let (v2, r2) = v1.spec_poll(h1);
            let (v3, r3) = v2.spec_poll(h2);
            r2 == Progress::<T>::Ready(x) && r3 is Pending && !v2.holds_value()
                && !v3.holds_value()
        }),
{
}

} // verus!
