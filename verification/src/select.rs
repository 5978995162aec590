//! Racing combinators over computations: resolve when the first of two is
//! ready, or when both are.

use vstd::prelude::*;

use crate::executor::NotifyHandle;
use crate::future::{Cancelable, Computation, Progress};
use crate::task::TaskWaker;

verus! {

/// Resolves as soon as at least one of two computations is ready; the one
/// still pending, if any, is cancelled before the result is returned.
pub struct FirstFuture<T, U> where T: Cancelable, U: Cancelable {
    fut1: T,
    fut2: U,
}

impl<T, U> FirstFuture<T, U> where T: Cancelable, U: Cancelable {
    /// The two raced computations.
    pub closed spec fn parts(self) -> (T, U) {
        (self.fut1, self.fut2)
    }
}

impl<T, U> FirstFuture<T, U> where T: Computation + Cancelable, U: Computation + Cancelable {
    /// Resume both computations and map the attempt through
    /// [`FirstFuture::resolve`], which fixes the outcome for each of the four
    /// cases; a ready result always carries at least one value.  The
    /// resumptions themselves are the raced computations' own work and carry
    /// no contract here.
    pub fn poll(&mut self, handle: NotifyHandle, wakers: &mut Vec<TaskWaker>) -> (r: Progress<
        (Option<T::Output>, Option<U::Output>),
    >)
        ensures
            r matches Progress::Ready(v) ==> v.0 is Some || v.1 is Some,
    {
        let r1 = self.fut1.resume(handle, wakers);
        let r2 = self.fut2.resume(handle, wakers);
        self.resolve(r1, r2)
    }

    /// Map one attempt's two progress reports to the race's outcome: pending
    /// only while both sides are, ready with exactly the values that were
    /// ready — and when exactly one side is ready, the other is cancelled
    /// before the result is returned.
    pub fn resolve(&mut self, r1: Progress<T::Output>, r2: Progress<U::Output>) -> (r: Progress<
        (Option<T::Output>, Option<U::Output>),
    >)
        ensures
            (r1 is Pending && r2 is Pending) <==> r is Pending,
            r1 matches Progress::Ready(a) ==> (r2 matches Progress::Ready(b) ==> r
                == Progress::Ready((Some(a), Some(b)))),
            r1 matches Progress::Ready(a) ==> (r2 is Pending ==> r == Progress::Ready(
                (Some(a), None::<U::Output>),
            )),
            r1 is Pending ==> (r2 matches Progress::Ready(b) ==> r == Progress::Ready(
                (None::<T::Output>, Some(b)),
            )),
    {
        match (r1, r2) {
            (Progress::Pending, Progress::Pending) => Progress::Pending,
            (Progress::Ready(v1), Progress::Ready(v2)) => Progress::Ready((Some(v1), Some(v2))),
            (Progress::Ready(v1), Progress::Pending) => {
                self.fut2.cancel_future();
                Progress::Ready((Some(v1), None))
            },
            (Progress::Pending, Progress::Ready(v2)) => {
                self.fut1.cancel_future();
                Progress::Ready((None, Some(v2)))
            },
        }
    }
}

impl<T, U> Computation for FirstFuture<T, U> where
    T: Computation + Cancelable,
    U: Computation + Cancelable,
 {
    type Output = (Option<T::Output>, Option<U::Output>);

    fn resume(&mut self, handle: NotifyHandle, wakers: &mut Vec<TaskWaker>) -> Progress<
        Self::Output,
    > {
        self.poll(handle, wakers)
    }
}

impl<T, U> Cancelable for FirstFuture<T, U> where T: Cancelable, U: Cancelable {
    fn cancel_future(&mut self) {
        self.fut1.cancel_future();
        self.fut2.cancel_future();
    }
}

/// Race two computations: ready as soon as either is.
pub fn first<T: Cancelable, U: Cancelable>(fut1: T, fut2: U) -> (r: FirstFuture<T, U>)
    ensures
        r.parts() == (fut1, fut2),
{
    FirstFuture { fut1, fut2 }
}

/// Resolves once both of two computations have produced a value, resuming
/// each at most once per attempt and caching whichever completes first.
pub struct BothFuture<T, U> where T: Computation, U: Computation {
    fut1: T,
    fut2: U,
    fut1_value: Option<T::Output>,
    fut2_value: Option<U::Output>,
}

impl<T, U> BothFuture<T, U> where T: Computation, U: Computation {
    /// The cached result of the first computation, if it is already done.
    pub closed spec fn cached1(self) -> Option<T::Output> {
        self.fut1_value
    }

    /// The cached result of the second computation, if it is already done.
    pub closed spec fn cached2(self) -> Option<U::Output> {
        self.fut2_value
    }

    /// Resume whichever computations have not produced a value yet; once
    /// both values are in hand, take them and report ready.  A value cached
    /// earlier is returned unchanged, and when both values are already
    /// cached the attempt is ready with exactly them, resuming nothing.
    pub fn poll(&mut self, handle: NotifyHandle, wakers: &mut Vec<TaskWaker>) -> (r: Progress<
        (T::Output, U::Output),
    >)
        ensures
            r matches Progress::Ready(v) ==> final(self).cached1() is None
                && final(self).cached2() is None && (old(self).cached1() matches Some(a) ==> v.0
                == a) && (old(self).cached2() matches Some(b) ==> v.1 == b),
            r is Pending ==> !(final(self).cached1() is Some && final(self).cached2() is Some),
            old(self).cached1() is Some && old(self).cached2() is Some ==> r == Progress::Ready(
                (old(self).cached1()->Some_0, old(self).cached2()->Some_0),
            ) && final(wakers)@ == old(wakers)@,
    {
        if self.fut1_value.is_none() {
            match self.fut1.resume(handle, wakers) {
                Progress::Pending => {},
                Progress::Ready(v) => {
                    self.fut1_value = Some(v);
                },
            }
        }
        if self.fut2_value.is_none() {
            match self.fut2.resume(handle, wakers) {
                Progress::Pending => {},
                Progress::Ready(v) => {
                    self.fut2_value = Some(v);
                },
            }
        }
        if self.fut1_value.is_some() && self.fut2_value.is_some() {
            let a = self.fut1_value.take().unwrap();
            let b = self.fut2_value.take().unwrap();
            Progress::Ready((a, b))
        } else {
            Progress::Pending
        }
    }
}

impl<T, U> Computation for BothFuture<T, U> where T: Computation, U: Computation {
    type Output = (T::Output, U::Output);

    fn resume(&mut self, handle: NotifyHandle, wakers: &mut Vec<TaskWaker>) -> Progress<
        Self::Output,
    > {
        self.poll(handle, wakers)
    }
}

impl<T, U> Cancelable for BothFuture<T, U> where
    T: Computation + Cancelable,
    U: Computation + Cancelable,
 {
    fn cancel_future(&mut self) {
        self.fut1.cancel_future();
        self.fut2.cancel_future();
    }
}

/// Wait for both computations: ready once each has produced its value.
pub fn both<T: Computation, U: Computation>(fut1: T, fut2: U) -> (r: BothFuture<T, U>)
    ensures
        r.cached1() is None,
        r.cached2() is None,
{
    BothFuture { fut1, fut2, fut1_value: None, fut2_value: None }
}

} // verus!
