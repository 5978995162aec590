//! Interrupt-side notification plumbing: a slot where a computation parks its
//! resumption handle for an interrupt to fire, and a reference to such a slot.
//!
//! Slots are caller-owned (a `Vec` of [`Waker`], one per interrupt source);
//! a [`WakerRef`] names one slot by index, or nothing, so interrupt glue can
//! be wired up before the slot exists.

use vstd::prelude::*;

use crate::executor::{notified, NotifyHandle};
use crate::task::TaskWaker;

verus! {

/// A parking slot for one resumption handle.
///
/// A computation stores its handle here before reporting not-ready; the
/// interrupt (or whoever services the source) takes and fires it.
pub struct Waker {
    handle: Option<NotifyHandle>,
}

impl Waker {
    /// The parked handle, if any.
    pub closed spec fn parked(self) -> Option<NotifyHandle> {
        self.handle
    }

    /// An empty slot.
    pub fn new() -> (w: Waker)
        ensures
            w.parked() is None,
    {
        Waker { handle: None }
    }

    /// Park `handle`, replacing any previous one without firing it.
    pub fn set_waker(&mut self, handle: NotifyHandle)
        ensures
            final(self).parked() == Some(handle),
    {
        self.handle = Some(handle);
    }

    /// Take the parked handle without firing it.
    pub fn take_waker(&mut self) -> (r: Option<NotifyHandle>)
        ensures
            r == old(self).parked(),
            final(self).parked() is None,
    {
        self.handle.take()
    }

    /// Take and fire the parked handle; reports whether one was parked.
    /// Safe to call any number of times: an empty slot is a no-op.
    pub fn try_wake(&mut self, wakers: &mut Vec<TaskWaker>) -> (r: bool)
        ensures
            r == (old(self).parked() is Some),
            final(self).parked() is None,
            final(wakers)@ == match old(self).parked() {
                Some(h) => notified(old(wakers)@, h),
                None => old(wakers)@,
            },
    {
        match self.handle.take() {
            Some(h) => {
                h.notify(wakers);
                true
            },
            None => false,
        }
    }

    /// Whether a handle is parked.
    pub fn has_waker(&self) -> (r: bool)
        ensures
            r == (self.parked() is Some),
    {
        self.handle.is_some()
    }
}

/// A reference to one parking slot, or to none.
///
/// Operations through an empty or out-of-range reference are no-ops, so glue
/// code can hold a `WakerRef` before its interrupt source is wired up.
#[derive(Clone, Copy)]
pub struct WakerRef {
    target: Option<usize>,
}

impl WakerRef {
    /// The referenced slot index, if any.
    pub closed spec fn target_spec(self) -> Option<usize> {
        self.target
    }

    /// A reference to no slot.
    pub fn new_empty() -> (r: WakerRef)
        ensures
            r.target_spec() is None,
    {
        WakerRef { target: None }
    }

    /// A reference to the slot at `target`.
    pub fn new(target: usize) -> (r: WakerRef)
        ensures
            r.target_spec() == Some(target),
    {
        WakerRef { target: Some(target) }
    }

    /// Point this reference where `other` points.
    pub fn assign(&mut self, other: &WakerRef)
        ensures
            final(self).target_spec() == other.target_spec(),
    {
        self.target = other.target;
    }

    /// Take and fire the referenced slot's parked handle; reports whether one
    /// was parked.  Empty and out-of-range references report `false`.
    pub fn try_wake(&self, slots: &mut Vec<Waker>, wakers: &mut Vec<TaskWaker>) -> (r: bool)
        ensures
            match self.target_spec() {
                Some(i) => if i < old(slots)@.len() {
                    r == (old(slots)@[i as int].parked() is Some) && final(slots)@[i as int].parked() is None
                        && final(slots)@.len() == old(slots)@.len() && (forall|j: int|
                        0 <= j < old(slots)@.len() && j != i ==> final(slots)@[j] == old(slots)@[j])
                        && final(wakers)@ == match old(slots)@[i as int].parked() {
                        Some(h) => notified(old(wakers)@, h),
                        None => old(wakers)@,
                    }
                } else {
                    !r && final(slots)@ == old(slots)@ && final(wakers)@ == old(wakers)@
                },
                None => !r && final(slots)@ == old(slots)@ && final(wakers)@ == old(wakers)@,
            },
    {
        match self.target {
            Some(i) => {
                if i < slots.len() {
                    let slot = &mut slots[i];
                    slot.try_wake(wakers)
                } else {
                    false
                }
            },
            None => false,
        }
    }

    /// Park `handle` in the referenced slot; a no-op for empty and
    /// out-of-range references.
    pub fn set_waker(&self, slots: &mut Vec<Waker>, handle: NotifyHandle)
        ensures
            match self.target_spec() {
                Some(i) => if i < old(slots)@.len() {
                    final(slots)@[i as int].parked() == Some(handle) && final(slots)@.len() == old(
                        slots,
                    )@.len() && (forall|j: int|
                        0 <= j < old(slots)@.len() && j != i ==> final(slots)@[j] == old(slots)@[j])
                } else {
                    final(slots)@ == old(slots)@
                },
                None => final(slots)@ == old(slots)@,
            },
    {
        match self.target {
            Some(i) => {
                if i < slots.len() {
                    let slot = &mut slots[i];
                    slot.set_waker(handle);
                }
            },
            None => {},
        }
    }

    /// Take the referenced slot's parked handle without firing it; `None` for
    /// empty and out-of-range references.
    pub fn take_waker(&self, slots: &mut Vec<Waker>) -> (r: Option<NotifyHandle>)
        ensures
            match self.target_spec() {
                Some(i) => if i < old(slots)@.len() {
                    r == old(slots)@[i as int].parked() && final(slots)@[i as int].parked() is None
                        && final(slots)@.len() == old(slots)@.len() && (forall|j: int|
                        0 <= j < old(slots)@.len() && j != i ==> final(slots)@[j] == old(slots)@[j])
                } else {
                    r is None && final(slots)@ == old(slots)@
                },
                None => r is None && final(slots)@ == old(slots)@,
            },
    {
        match self.target {
            Some(i) => {
                if i < slots.len() {
                    let slot = &mut slots[i];
                    slot.take_waker()
                } else {
                    None
                }
            },
            None => None,
        }
    }
}

} // verus!
