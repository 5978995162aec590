//! Per-task lifecycle state and the task wrapper handed to the executor.
//!
//! A [`TaskWaker`] is the three-bit state machine attached to one task slot:
//! a readiness bit consumed by the run loop, a live bit (started and not yet
//! finished), and a reference bit guarding exclusive binding of the waker to
//! one task.  Every update is a pure bit transform of the previous state.
//!
//! Wakers are caller-owned: they live in a `Vec<TaskWaker>` allocated by the
//! caller and are addressed by index, so a notification handle is just an
//! index and never a pointer into task memory.

use vstd::prelude::*;

verus! {

/// Bit marking a task as ready to be polled by the run loop.
pub const READY_BIT: u8 = 0x01;
/// Bit marking a task as started and not yet finished.
pub const LIVE_BIT: u8 = 0x02;
/// Bit marking the waker as bound to a task.
pub const REFERENCE_BIT: u8 = 0x04;

/// Lifecycle and readiness state of one task slot.
///
/// One waker belongs to at most one live task at a time; binding and
/// unbinding are themselves guarded transitions ([`TaskWaker::try_take_reference`]
/// and [`TaskWaker::release_reference`]).
#[derive(Clone, Copy)]
pub struct TaskWaker {
    flags: u8,
}

impl TaskWaker {
    /// The readiness bit: the run loop polls the task only while this is set.
    pub closed spec fn ready(self) -> bool {
        (self.flags & READY_BIT) != 0
    }

    /// Started and not yet finished.
    pub closed spec fn live(self) -> bool {
        (self.flags & LIVE_BIT) != 0
    }

    /// Bound to a task.
    pub closed spec fn held(self) -> bool {
        (self.flags & REFERENCE_BIT) != 0
    }

    /// State after setting the readiness bit.
    pub closed spec fn with_ready(self) -> TaskWaker {
        TaskWaker { flags: self.flags | READY_BIT }
    }

    /// State after clearing the readiness bit.
    pub closed spec fn without_ready(self) -> TaskWaker {
        TaskWaker { flags: self.flags & !READY_BIT }
    }

    /// State after marking the task started.
    pub closed spec fn with_started(self) -> TaskWaker {
        TaskWaker { flags: self.flags | LIVE_BIT }
    }

    /// State after marking the task finished.
    pub closed spec fn with_finished(self) -> TaskWaker {
        TaskWaker { flags: self.flags & !LIVE_BIT }
    }

    /// State after binding the waker to a task.
    pub closed spec fn with_reference(self) -> TaskWaker {
        TaskWaker { flags: self.flags | REFERENCE_BIT }
    }

    /// State after releasing the binding.
    pub closed spec fn without_reference(self) -> TaskWaker {
        TaskWaker { flags: self.flags & !REFERENCE_BIT }
    }

    /// A fresh waker: not ready, not live, not bound.
    pub fn new() -> (w: TaskWaker)
        ensures
            !w.ready(),
            !w.live(),
            !w.held(),
    {
        let w = TaskWaker { flags: 0 };
        proof {
            assert(((0u8 & READY_BIT) == 0) && ((0u8 & LIVE_BIT) == 0)
                && ((0u8 & REFERENCE_BIT) == 0)) by (bit_vector);
        }
        w
    }

    /// True when the task is not live: either never started or finished.
    pub fn is_finished(&self) -> (r: bool)
        ensures
            r == !self.live(),
    {
        (self.flags & LIVE_BIT) == 0
    }

    /// Mark the task started.
    pub fn set_started(&mut self)
        ensures
            *final(self) == old(self).with_started(),
            final(self).live(),
            final(self).ready() == old(self).ready(),
            final(self).held() == old(self).held(),
    {
        let ghost f = self.flags;
        self.flags = self.flags | LIVE_BIT;
        proof {
            assert((((f | 0x02u8) & 0x02) != 0) && (((f | 0x02u8) & 0x01) == (f & 0x01))
                && (((f | 0x02u8) & 0x04) == (f & 0x04))) by (bit_vector);
        }
    }

    /// Mark the task finished.
    pub fn set_finished(&mut self)
        ensures
            *final(self) == old(self).with_finished(),
            !final(self).live(),
            final(self).ready() == old(self).ready(),
            final(self).held() == old(self).held(),
    {
        let ghost f = self.flags;
        self.flags = self.flags & !LIVE_BIT;
        proof {
            assert((((f & !0x02u8) & 0x02) == 0) && (((f & !0x02u8) & 0x01) == (f & 0x01))
                && (((f & !0x02u8) & 0x04) == (f & 0x04))) by (bit_vector);
        }
    }

    /// Read the readiness bit.
    pub fn is_ready_to_poll(&self) -> (r: bool)
        ensures
            r == self.ready(),
    {
        (self.flags & READY_BIT) != 0
    }

    /// Set the readiness bit.  This is the whole effect of a notification.
    pub fn set_ready_to_poll(&mut self)
        ensures
            *final(self) == old(self).with_ready(),
            final(self).ready(),
            final(self).live() == old(self).live(),
            final(self).held() == old(self).held(),
    {
        let ghost f = self.flags;
        self.flags = self.flags | READY_BIT;
        proof {
            assert((((f | 0x01u8) & 0x01) != 0) && (((f | 0x01u8) & 0x02) == (f & 0x02))
                && (((f | 0x01u8) & 0x04) == (f & 0x04))) by (bit_vector);
        }
    }

    /// Clear the readiness bit; the run loop does this before resuming a task.
    pub fn clear_ready_to_poll(&mut self)
        ensures
            *final(self) == old(self).without_ready(),
            !final(self).ready(),
            final(self).live() == old(self).live(),
            final(self).held() == old(self).held(),
    {
        let ghost f = self.flags;
        self.flags = self.flags & !READY_BIT;
        proof {
            assert((((f & !0x01u8) & 0x01) == 0) && (((f & !0x01u8) & 0x02) == (f & 0x02))
                && (((f & !0x01u8) & 0x04) == (f & 0x04))) by (bit_vector);
        }
    }

    /// Bind the waker to a task.  Fails, changing nothing, when it is
    /// already bound: a waker must never be shared between two tasks.
    pub fn try_take_reference(&mut self) -> (r: bool)
        ensures
            r == !old(self).held(),
            r ==> *final(self) == old(self).with_reference(),
            !r ==> *final(self) == *old(self),
            final(self).held(),
            final(self).ready() == old(self).ready(),
            final(self).live() == old(self).live(),
    {
        let ghost f = self.flags;
        if (self.flags & REFERENCE_BIT) != 0 {
            false
        } else {
            self.flags = self.flags | REFERENCE_BIT;
            proof {
                assert((((f | 0x04u8) & 0x04) != 0) && (((f | 0x04u8) & 0x01) == (f & 0x01))
                    && (((f | 0x04u8) & 0x02) == (f & 0x02))) by (bit_vector);
            }
            true
        }
    }

    /// Release the binding.  Fails, changing nothing, when the waker is not
    /// currently bound: a release must match an earlier successful take.
    pub fn release_reference(&mut self) -> (r: bool)
        ensures
            r == old(self).held(),
            r ==> *final(self) == old(self).without_reference(),
            !r ==> *final(self) == *old(self),
            !final(self).held(),
            final(self).ready() == old(self).ready(),
            final(self).live() == old(self).live(),
    {
        let ghost f = self.flags;
        if (self.flags & REFERENCE_BIT) == 0 {
            false
        } else {
            self.flags = self.flags & !REFERENCE_BIT;
            proof {
                assert((((f & !0x04u8) & 0x04) == 0) && (((f & !0x04u8) & 0x01) == (f & 0x01))
                    && (((f & !0x04u8) & 0x02) == (f & 0x02))) by (bit_vector);
            }
            true
        }
    }
}

/// Setting the readiness bit twice is the same as setting it once.
pub proof fn lemma_with_ready_idempotent(w: TaskWaker)
    ensures
        w.with_ready().with_ready() == w.with_ready(),
{
    let f = w.flags;
    assert(((f | 0x01u8) | 0x01) == (f | 0x01)) by (bit_vector);
}

/// A waker reference is exclusive: binding marks the waker held, no lifecycle
/// or readiness transition releases it, and only a release makes it takeable
/// again.  Together with the contract of [`TaskWaker::try_take_reference`]
/// (which fails exactly when the waker is held) this means a waker belongs to
/// at most one task at a time, and re-acquisition succeeds only after a
/// matching release.
pub proof fn lemma_reference_exclusive(w: TaskWaker)
    ensures
        w.with_reference().held(),
        !w.without_reference().held(),
        w.with_started().held() == w.held(),
        w.with_finished().held() == w.held(),
        w.with_ready().held() == w.held(),
        w.without_ready().held() == w.held(),
{
    let f = w.flags;
    assert((((f | 0x04u8) & 0x04) != 0) && (((f & !0x04u8) & 0x04) == 0)
        && (((f | 0x02u8) & 0x04) == (f & 0x04)) && (((f & !0x02u8) & 0x04) == (f & 0x04))
        && (((f | 0x01u8) & 0x04) == (f & 0x04)) && (((f & !0x01u8) & 0x04) == (f & 0x04)))
        by (bit_vector);
}

/// The borrowed binding of one task to one waker.
///
/// Creating it takes the waker's reference bit; releasing it gives the bit
/// back.  A waker whose bit is already taken cannot be bound again, and a
/// binding may only be released while the task is not live — destroying a
/// running task would leave the ready queue pointing at a dead slot.
pub struct TaskData {
    pub(crate) waker: usize,
}

impl TaskData {
    /// The index of the bound waker in the caller-owned waker storage.
    pub closed spec fn waker_index(self) -> usize {
        self.waker
    }

    /// Bind the waker at `waker`.  The waker must not already be bound to a
    /// task: sharing a waker between two tasks is fatal.
    pub fn new(waker: usize, wakers: &mut Vec<TaskWaker>) -> (d: TaskData)
        requires
            (waker as int) < old(wakers)@.len(),
            !old(wakers)@[waker as int].held(),
        ensures
            d.waker_index() == waker,
            final(wakers)@ == old(wakers)@.update(
                waker as int,
                old(wakers)@[waker as int].with_reference(),
            ),
    {
        let mut w = wakers[waker];
        let taken = w.try_take_reference();
        wakers.set(waker, w);
        TaskData { waker }
    }

    /// Release the binding.  The binding must be held and the task must not
    /// be live: releasing twice, or destroying a still-running task, is
    /// fatal.
    pub fn release(self, wakers: &mut Vec<TaskWaker>)
        requires
            (self.waker_index() as int) < old(wakers)@.len(),
            old(wakers)@[self.waker_index() as int].held(),
            !old(wakers)@[self.waker_index() as int].live(),
        ensures
            final(wakers)@ == old(wakers)@.update(
                self.waker_index() as int,
                old(wakers)@[self.waker_index() as int].without_reference(),
            ),
    {
        let mut w = wakers[self.waker];
        let released = w.release_reference();
        wakers.set(self.waker, w);
    }
}

/// A task: a suspended computation together with the binding to its waker.
///
/// The caller creates the task and hands it to the executor's `start`, which
/// places it into a slot and schedules it.
pub struct Task<C> {
    pub(crate) computation: C,
    pub(crate) data: TaskData,
}

impl<C> Task<C> {
    /// The index of the task's waker in the caller-owned waker storage.
    pub closed spec fn waker_index(self) -> usize {
        self.data.waker
    }

    /// The wrapped computation.
    pub closed spec fn comp(self) -> C {
        self.computation
    }

    /// Create a task around `computation`, binding the waker at `waker`.
    /// The waker must not already be bound: reusing a waker that another
    /// task still holds is fatal.
    pub fn new(computation: C, waker: usize, wakers: &mut Vec<TaskWaker>) -> (t: Task<C>)
        requires
            (waker as int) < old(wakers)@.len(),
            !old(wakers)@[waker as int].held(),
        ensures
            t.waker_index() == waker,
            t.comp() == computation,
            final(wakers)@ == old(wakers)@.update(
                waker as int,
                old(wakers)@[waker as int].with_reference(),
            ),
    {
        let data = TaskData::new(waker, wakers);
        Task { computation, data }
    }

    /// Split the task into its computation and the index of its bound waker;
    /// the executor does this when moving the task into a slot.
    pub fn into_parts(self) -> (r: (C, usize))
        ensures
            r.0 == self.comp(),
            r.1 == self.waker_index(),
    {
        let Task { computation, data } = self;
        (computation, data.waker)
    }

    /// Drop a task that was never started (or has finished), releasing its
    /// waker for reuse and handing the computation back.
    pub fn release(self, wakers: &mut Vec<TaskWaker>) -> (c: C)
        requires
            (self.waker_index() as int) < old(wakers)@.len(),
            old(wakers)@[self.waker_index() as int].held(),
            !old(wakers)@[self.waker_index() as int].live(),
        ensures
            c == self.comp(),
            final(wakers)@ == old(wakers)@.update(
                self.waker_index() as int,
                old(wakers)@[self.waker_index() as int].without_reference(),
            ),
    {
        let Task { computation, data } = self;
        data.release(wakers);
        computation
    }
}

} // verus!
