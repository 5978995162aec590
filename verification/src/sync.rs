//! Bounded channel over caller-supplied storage, with intrusive wait lists
//! and reference-counted endpoints.
//!
//! The buffer is a ring of capacity N holding at most N−1 live elements (the
//! classic reserved-slot trick); read and write cursors wrap modulo N.  A
//! failed send or receive leaves the operation's notification handle on the
//! channel's LIFO wait list for that direction; a successful operation in the
//! opposite direction, or the disappearance of the opposite side, wakes it.
//!
//! The channel is send-disconnected once the receiver count reaches zero, and
//! receive-disconnected once the sender count reaches zero *and* the buffer
//! has drained, so buffered items survive the senders.

use vstd::prelude::*;

use crate::executor::{notified, NotifyHandle};
use crate::future::Progress;
use crate::task::TaskWaker;

verus! {

/// The peer side of the channel is gone; a blocking send cannot complete.
#[derive(Clone, Copy, Debug, PartialEq, Eq, Structural)]
pub struct SendError {}

/// The peer side of the channel is gone and the buffer has drained.
#[derive(Clone, Copy, Debug, PartialEq, Eq, Structural)]
pub struct RecvError {}

/// Why a non-blocking send failed; the message is handed back.
pub enum TrySendError<T> {
    /// The ring already holds its N−1 live elements.
    Full(T),
    /// The receive side is gone (or nothing can ever complete).
    Disconnected(T),
}

/// Why a non-blocking receive failed.
#[derive(Clone, Copy, Debug, PartialEq, Eq, Structural)]
pub enum TryRecvError {
    /// No live element in the ring.
    Empty,
    /// All senders are gone and the buffer has drained.
    Disconnected,
}

/// The waker sequence after notifying every handle in `hs`, most recently
/// registered first.
pub open spec fn notified_all(wakers: Seq<TaskWaker>, hs: Seq<NotifyHandle>) -> Seq<TaskWaker>
    decreases hs.len(),
{
    if hs.len() == 0 {
        wakers
    } else {
        notified_all(notified(wakers, hs.last()), hs.drop_last())
    }
}

/// A bounded ring-buffer channel with wait lists and endpoint counts.
pub struct Channel<T> {
    buffer: Vec<Option<T>>,
    read_pos: usize,
    write_pos: usize,
    waiting_senders: Vec<NotifyHandle>,
    waiting_receivers: Vec<NotifyHandle>,
    sender_count: usize,
    receiver_count: usize,
}

impl<T> Channel<T> {
    /// The backing capacity N; the channel holds at most N−1 live elements.
    pub closed spec fn cap(self) -> int {
        self.buffer@.len() as int
    }

    /// The live region of the ring, oldest first, as stored slots.
    pub closed spec fn live(self) -> Seq<Option<T>> {
        if self.write_pos >= self.read_pos {
            self.buffer@.subrange(self.read_pos as int, self.write_pos as int)
        } else {
            self.buffer@.subrange(self.read_pos as int, self.cap()) + self.buffer@.subrange(
                0,
                self.write_pos as int,
            )
        }
    }

    /// The buffered elements, oldest first.
    pub closed spec fn items(self) -> Seq<T> {
        Seq::new(self.live().len(), |i: int| self.live()[i]->Some_0)
    }

    /// How many sender endpoints are alive.
    pub closed spec fn senders(self) -> int {
        self.sender_count as int
    }

    /// How many receiver endpoints are alive.
    pub closed spec fn receivers(self) -> int {
        self.receiver_count as int
    }

    /// Handles of blocked senders, most recently blocked last.
    pub closed spec fn send_waiters(self) -> Seq<NotifyHandle> {
        self.waiting_senders@
    }

    /// Handles of blocked receivers, most recently blocked last.
    pub closed spec fn recv_waiters(self) -> Seq<NotifyHandle> {
        self.waiting_receivers@
    }

    /// Well-formedness: the cursors index the ring and every live slot holds
    /// an element.
    pub closed spec fn wf(self) -> bool {
        &&& self.cap() >= 1
        &&& (self.read_pos as int) < self.cap()
        &&& (self.write_pos as int) < self.cap()
        &&& (forall|i: int| 0 <= i < self.live().len() ==> (#[trigger] self.live()[i]) is Some)
    }

    /// Nothing buffered.
    pub open spec fn empty_spec(self) -> bool {
        self.items().len() == 0
    }

    /// All N−1 live slots are in use.
    pub open spec fn full_spec(self) -> bool {
        self.items().len() == self.cap() - 1
    }

    /// Nothing can complete any more: the senders are gone and the buffer
    /// has drained, or the receivers are gone.
    pub open spec fn disconnected_spec(self) -> bool {
        (self.senders() == 0 && self.empty_spec()) || self.receivers() == 0
    }

    /// A channel over the caller's backing array: capacity is the array's
    /// length, the ring starts empty, and no endpoints exist yet.
    pub fn new(buffer: Vec<T>) -> (c: Channel<T>)
        requires
            buffer@.len() >= 1,
        ensures
            c.wf(),
            c.cap() == buffer@.len(),
            c.items() == Seq::<T>::empty(),
            c.senders() == 0,
            c.receivers() == 0,
            c.send_waiters() == Seq::<NotifyHandle>::empty(),
            c.recv_waiters() == Seq::<NotifyHandle>::empty(),
    {
        let n = buffer.len();
        let mut slots: Vec<Option<T>> = Vec::new();
        loop
            invariant
                slots@.len() <= n,
            ensures
                slots@.len() == n,
            decreases n - slots@.len(),
        {
            if slots.len() == n {
                break ;
            }
            slots.push(None);
        }
        let c = Channel {
            buffer: slots,
            read_pos: 0,
            write_pos: 0,
            waiting_senders: Vec::new(),
            waiting_receivers: Vec::new(),
            sender_count: 0,
            receiver_count: 0,
        };
        proof {
            assert(c.items() =~= Seq::<T>::empty());
        }
        c
    }

    /// Hand out the first sender/receiver pair, setting both endpoint counts
    /// to one.
    pub fn split(&mut self) -> (r: (Sender, Receiver))
        requires
            old(self).wf(),
        ensures
            final(self).wf(),
            final(self).senders() == 1,
            final(self).receivers() == 1,
            final(self).items() == old(self).items(),
            final(self).cap() == old(self).cap(),
            final(self).send_waiters() == old(self).send_waiters(),
            final(self).recv_waiters() == old(self).recv_waiters(),
    {
        self.sender_count = 1;
        self.receiver_count = 1;
        (Sender {  }, Receiver {  })
    }

    /// The backing capacity N.
    pub fn capacity(&self) -> (r: usize)
        ensures
            r as int == self.cap(),
    {
        self.buffer.len()
    }

    /// Whether nothing is buffered.
    pub fn is_empty(&self) -> (r: bool)
        requires
            self.wf(),
        ensures
            r == self.empty_spec(),
    {
        self.read_pos == self.write_pos
    }

    /// Whether all N−1 live slots are in use.
    pub fn is_full(&self) -> (r: bool)
        requires
            self.wf(),
        ensures
            r == self.full_spec(),
    {
        if self.read_pos == 0 {
            self.write_pos == self.buffer.len() - 1
        } else if self.read_pos > self.write_pos {
            self.write_pos + 1 == self.read_pos
        } else {
            false
        }
    }

    /// Whether the channel is disconnected for the asking side.
    pub fn is_disconnected(&self) -> (r: bool)
        requires
            self.wf(),
        ensures
            r == self.disconnected_spec(),
    {
        if self.sender_count == 0 && self.is_empty() {
            true
        } else if self.receiver_count == 0 {
            true
        } else {
            false
        }
    }

    /// Pop and notify the most recently blocked receiver, if any.
    fn wake_one_receiver(&mut self, wakers: &mut Vec<TaskWaker>) -> (r: bool)
        ensures
            r == (old(self).recv_waiters().len() > 0),
            final(self).recv_waiters() == if old(self).recv_waiters().len() > 0 {
                old(self).recv_waiters().drop_last()
            } else {
                old(self).recv_waiters()
            },
            final(wakers)@ == if old(self).recv_waiters().len() > 0 {
                notified(old(wakers)@, old(self).recv_waiters().last())
            } else {
                old(wakers)@
            },
            final(self).send_waiters() == old(self).send_waiters(),
            final(self).buffer == old(self).buffer,
            final(self).read_pos == old(self).read_pos,
            final(self).write_pos == old(self).write_pos,
            final(self).sender_count == old(self).sender_count,
            final(self).receiver_count == old(self).receiver_count,
    {
        match self.waiting_receivers.pop() {
            Some(h) => {
                h.notify(wakers);
                true
            },
            None => false,
        }
    }

    /// Pop and notify the most recently blocked sender, if any.
    fn wake_one_sender(&mut self, wakers: &mut Vec<TaskWaker>) -> (r: bool)
        ensures
            r == (old(self).send_waiters().len() > 0),
            final(self).send_waiters() == if old(self).send_waiters().len() > 0 {
                old(self).send_waiters().drop_last()
            } else {
                old(self).send_waiters()
            },
            final(wakers)@ == if old(self).send_waiters().len() > 0 {
                notified(old(wakers)@, old(self).send_waiters().last())
            } else {
                old(wakers)@
            },
            final(self).recv_waiters() == old(self).recv_waiters(),
            final(self).buffer == old(self).buffer,
            final(self).read_pos == old(self).read_pos,
            final(self).write_pos == old(self).write_pos,
            final(self).sender_count == old(self).sender_count,
            final(self).receiver_count == old(self).receiver_count,
    {
        match self.waiting_senders.pop() {
            Some(h) => {
                h.notify(wakers);
                true
            },
            None => false,
        }
    }

    /// Notify every blocked receiver, most recently blocked first, emptying
    /// the wait list; done when the last sender goes away so the receivers
    /// observe the disconnect instead of blocking forever.
    pub fn wake_all_receivers(&mut self, wakers: &mut Vec<TaskWaker>)
        ensures
            final(self).recv_waiters() == Seq::<NotifyHandle>::empty(),
            final(wakers)@ == notified_all(old(wakers)@, old(self).recv_waiters()),
            final(self).send_waiters() == old(self).send_waiters(),
            final(self).items() == old(self).items(),
            final(self).cap() == old(self).cap(),
            final(self).senders() == old(self).senders(),
            final(self).receivers() == old(self).receivers(),
            old(self).wf() ==> final(self).wf(),
    {
        loop
            invariant
                notified_all(wakers@, self.recv_waiters()) == notified_all(
                    old(wakers)@,
                    old(self).recv_waiters(),
                ),
                self.send_waiters() == old(self).send_waiters(),
                self.buffer == old(self).buffer,
                self.read_pos == old(self).read_pos,
                self.write_pos == old(self).write_pos,
                self.sender_count == old(self).sender_count,
                self.receiver_count == old(self).receiver_count,
            ensures
                self.recv_waiters().len() == 0,
                notified_all(wakers@, self.recv_waiters()) == notified_all(
                    old(wakers)@,
                    old(self).recv_waiters(),
                ),
                self.send_waiters() == old(self).send_waiters(),
                self.buffer == old(self).buffer,
                self.read_pos == old(self).read_pos,
                self.write_pos == old(self).write_pos,
                self.sender_count == old(self).sender_count,
                self.receiver_count == old(self).receiver_count,
            decreases self.recv_waiters().len(),
        {
            if !self.wake_one_receiver(wakers) {
                break ;
            }
        }
    }

    /// Notify every blocked sender, most recently blocked first, emptying
    /// the wait list; done when the last receiver goes away.
    pub fn wake_all_senders(&mut self, wakers: &mut Vec<TaskWaker>)
        ensures
            final(self).send_waiters() == Seq::<NotifyHandle>::empty(),
            final(wakers)@ == notified_all(old(wakers)@, old(self).send_waiters()),
            final(self).recv_waiters() == old(self).recv_waiters(),
            final(self).items() == old(self).items(),
            final(self).cap() == old(self).cap(),
            final(self).senders() == old(self).senders(),
            final(self).receivers() == old(self).receivers(),
            old(self).wf() ==> final(self).wf(),
    {
        loop
            invariant
                notified_all(wakers@, self.send_waiters()) == notified_all(
                    old(wakers)@,
                    old(self).send_waiters(),
                ),
                self.recv_waiters() == old(self).recv_waiters(),
                self.buffer == old(self).buffer,
                self.read_pos == old(self).read_pos,
                self.write_pos == old(self).write_pos,
                self.sender_count == old(self).sender_count,
                self.receiver_count == old(self).receiver_count,
            ensures
                self.send_waiters().len() == 0,
                notified_all(wakers@, self.send_waiters()) == notified_all(
                    old(wakers)@,
                    old(self).send_waiters(),
                ),
                self.recv_waiters() == old(self).recv_waiters(),
                self.buffer == old(self).buffer,
                self.read_pos == old(self).read_pos,
                self.write_pos == old(self).write_pos,
                self.sender_count == old(self).sender_count,
                self.receiver_count == old(self).receiver_count,
            decreases self.send_waiters().len(),
        {
            if !self.wake_one_sender(wakers) {
                break ;
            }
        }
    }

    /// Non-blocking send.  Disconnect is checked before fullness; on success
    /// the message is appended and the most recently blocked receiver, if
    /// any, is woken.
    pub fn try_send(&mut self, message: T, wakers: &mut Vec<TaskWaker>) -> (r: Result<
        (),
        TrySendError<T>,
    >)
        requires
            old(self).wf(),
        ensures
            final(self).wf(),
            final(self).cap() == old(self).cap(),
            final(self).senders() == old(self).senders(),
            final(self).receivers() == old(self).receivers(),
            final(self).send_waiters() == old(self).send_waiters(),
            old(self).disconnected_spec() ==> r == Err::<(), TrySendError<T>>(TrySendError::Disconnected(message))
                && final(self).items() == old(self).items() && final(self).recv_waiters() == old(self).recv_waiters() && final(wakers)@ == old(wakers)@,
            !old(self).disconnected_spec() && old(self).full_spec() ==> r == Err::<(), TrySendError<T>>(TrySendError::Full(message)) && final(self).items() == old(self).items() && final(self).recv_waiters() == old(self).recv_waiters() && final(wakers)@ == old(wakers)@,
            !old(self).disconnected_spec() && !old(self).full_spec() ==> r == Ok::<(), TrySendError<T>>(()) && final(self).items() == old(self).items().push(message) && final(self).recv_waiters() == if old(self).recv_waiters().len() > 0 {
                old(self).recv_waiters().drop_last()
            } else {
                old(self).recv_waiters()
            } && final(wakers)@ == if old(self).recv_waiters().len() > 0 {
                notified(old(wakers)@, old(self).recv_waiters().last())
            } else {
                old(wakers)@
            },
            !old(self).disconnected_spec() && !old(self).full_spec() ==> final(self).model()
                == model_send(old(self).model(), message),
    {
        if self.is_disconnected() {
            Err(TrySendError::Disconnected(message))
        } else if self.is_full() {
            Err(TrySendError::Full(message))
        } else {
            let ghost pre = *self;
            let w = self.write_pos;
            let n = self.buffer.len();
            self.buffer.set(w, Some(message));
            let next = w + 1;
            self.write_pos = if next == n {
                0
            } else {
                next
            };
            proof {
                lemma_ring_push(pre, *self, message);
            }
            self.wake_one_receiver(wakers);
            Ok(())
        }
    }

    /// Non-blocking receive.  Disconnect is checked before emptiness; on
    /// success the oldest element is taken and the most recently blocked
    /// sender, if any, is woken.
    pub fn try_recv(&mut self, wakers: &mut Vec<TaskWaker>) -> (r: Result<T, TryRecvError>)
        requires
            old(self).wf(),
        ensures
            final(self).wf(),
            final(self).cap() == old(self).cap(),
            final(self).senders() == old(self).senders(),
            final(self).receivers() == old(self).receivers(),
            final(self).recv_waiters() == old(self).recv_waiters(),
            old(self).disconnected_spec() ==> r == Err::<T, TryRecvError>(TryRecvError::Disconnected) && final(self).items() == old(self).items() && final(self).send_waiters() == old(self).send_waiters()
                && final(wakers)@ == old(wakers)@,
            !old(self).disconnected_spec() && old(self).empty_spec() ==> r == Err::<T, TryRecvError>(TryRecvError::Empty) && final(self).items() == old(self).items() && final(self).send_waiters() == old(self).send_waiters() && final(wakers)@ == old(wakers)@,
            !old(self).disconnected_spec() && !old(self).empty_spec() ==> r == Ok::<T, TryRecvError>(old(self).items()[0]) && final(self).items() == old(self).items().drop_first() && final(self).send_waiters()
                == if old(self).send_waiters().len() > 0 {
                old(self).send_waiters().drop_last()
            } else {
                old(self).send_waiters()
            } && final(wakers)@ == if old(self).send_waiters().len() > 0 {
                notified(old(wakers)@, old(self).send_waiters().last())
            } else {
                old(wakers)@
            },
            !old(self).disconnected_spec() && !old(self).empty_spec() ==> final(self).model()
                == model_recv(old(self).model()),
    {
        if self.is_disconnected() {
            Err(TryRecvError::Disconnected)
        } else if self.is_empty() {
            Err(TryRecvError::Empty)
        } else {
            let ghost pre = *self;
            let rp = self.read_pos;
            proof {
                assert(pre.live()[0] is Some);
                assert(pre.live()[0] == pre.buffer@[rp as int]);
            }
            let taken = self.buffer[rp].take();
            let value = taken.unwrap();
            let n = self.buffer.len();
            let next = rp + 1;
            self.read_pos = if next == n {
                0
            } else {
                next
            };
            proof {
                lemma_ring_pop(pre, *self, value);
            }
            self.wake_one_sender(wakers);
            Ok(value)
        }
    }

    /// Record one more live sender endpoint.
    pub fn add_sender(&mut self)
        requires
            old(self).senders() < usize::MAX,
        ensures
            final(self).senders() == old(self).senders() + 1,
            final(self).receivers() == old(self).receivers(),
            final(self).items() == old(self).items(),
            final(self).cap() == old(self).cap(),
            final(self).send_waiters() == old(self).send_waiters(),
            final(self).recv_waiters() == old(self).recv_waiters(),
            old(self).wf() ==> final(self).wf(),
    {
        self.sender_count = self.sender_count + 1;
    }

    /// Record one more live receiver endpoint.
    pub fn add_receiver(&mut self)
        requires
            old(self).receivers() < usize::MAX,
        ensures
            final(self).receivers() == old(self).receivers() + 1,
            final(self).senders() == old(self).senders(),
            final(self).items() == old(self).items(),
            final(self).cap() == old(self).cap(),
            final(self).send_waiters() == old(self).send_waiters(),
            final(self).recv_waiters() == old(self).recv_waiters(),
            old(self).wf() ==> final(self).wf(),
    {
        self.receiver_count = self.receiver_count + 1;
    }

    /// Drop one sender endpoint.  When the last one goes, every blocked
    /// receiver is woken so it observes the disconnect.  The count must be
    /// positive: a release without a matching endpoint is fatal.
    pub fn drop_sender(&mut self, wakers: &mut Vec<TaskWaker>)
        requires
            old(self).senders() > 0,
        ensures
            final(self).senders() == old(self).senders() - 1,
            final(self).receivers() == old(self).receivers(),
            final(self).items() == old(self).items(),
            final(self).cap() == old(self).cap(),
            final(self).send_waiters() == old(self).send_waiters(),
            old(self).senders() == 1 ==> final(self).recv_waiters()
                == Seq::<NotifyHandle>::empty() && final(wakers)@ == notified_all(
                old(wakers)@,
                old(self).recv_waiters(),
            ),
            old(self).senders() > 1 ==> final(self).recv_waiters() == old(self).recv_waiters()
                && final(wakers)@ == old(wakers)@,
            old(self).wf() ==> final(self).wf(),
    {
        self.sender_count = self.sender_count - 1;
        if self.sender_count == 0 {
            self.wake_all_receivers(wakers);
        }
    }

    /// Drop one receiver endpoint.  When the last one goes, every blocked
    /// sender is woken so it observes the disconnect.  The count must be
    /// positive: a release without a matching endpoint is fatal.
    pub fn drop_receiver(&mut self, wakers: &mut Vec<TaskWaker>)
        requires
            old(self).receivers() > 0,
        ensures
            final(self).receivers() == old(self).receivers() - 1,
            final(self).senders() == old(self).senders(),
            final(self).items() == old(self).items(),
            final(self).cap() == old(self).cap(),
            final(self).recv_waiters() == old(self).recv_waiters(),
            old(self).receivers() == 1 ==> final(self).send_waiters()
                == Seq::<NotifyHandle>::empty() && final(wakers)@ == notified_all(
                old(wakers)@,
                old(self).send_waiters(),
            ),
            old(self).receivers() > 1 ==> final(self).send_waiters() == old(self).send_waiters()
                && final(wakers)@ == old(wakers)@,
            old(self).wf() ==> final(self).wf(),
    {
        self.receiver_count = self.receiver_count - 1;
        if self.receiver_count == 0 {
            self.wake_all_senders(wakers);
        }
    }

    /// Link a blocked send operation's handle onto the sender wait list.
    pub fn add_waiting_sender(&mut self, handle: NotifyHandle)
        ensures
            final(self).send_waiters() == old(self).send_waiters().push(handle),
            final(self).recv_waiters() == old(self).recv_waiters(),
            final(self).items() == old(self).items(),
            final(self).cap() == old(self).cap(),
            final(self).senders() == old(self).senders(),
            final(self).receivers() == old(self).receivers(),
            old(self).wf() ==> final(self).wf(),
    {
        self.waiting_senders.push(handle);
    }

    /// Unlink every sender wait-list entry naming the same waker as `handle`.
    ///
    /// An in-flight send abandoned after blocking must call this, so the
    /// channel holds no registration for an operation that no longer exists.
    pub fn unlink_waiting_sender(&mut self, handle: NotifyHandle)
        ensures
            final(self).send_waiters() == old(self).send_waiters().filter(
                |h: NotifyHandle| h.spec_target() != handle.spec_target(),
            ),
            final(self).recv_waiters() == old(self).recv_waiters(),
            final(self).items() == old(self).items(),
            final(self).cap() == old(self).cap(),
            final(self).senders() == old(self).senders(),
            final(self).receivers() == old(self).receivers(),
            old(self).wf() ==> final(self).wf(),
    {
        let kept = keep_other_targets(&self.waiting_senders, handle);
        self.waiting_senders = kept;
    }

    /// Unlink every receiver wait-list entry naming the same waker as
    /// `handle`.
    ///
    /// An in-flight receive abandoned after blocking must call this, so the
    /// channel holds no registration for an operation that no longer exists.
    pub fn unlink_waiting_receiver(&mut self, handle: NotifyHandle)
        ensures
            final(self).recv_waiters() == old(self).recv_waiters().filter(
                |h: NotifyHandle| h.spec_target() != handle.spec_target(),
            ),
            final(self).send_waiters() == old(self).send_waiters(),
            final(self).items() == old(self).items(),
            final(self).cap() == old(self).cap(),
            final(self).senders() == old(self).senders(),
            final(self).receivers() == old(self).receivers(),
            old(self).wf() ==> final(self).wf(),
    {
        let kept = keep_other_targets(&self.waiting_receivers, handle);
        self.waiting_receivers = kept;
    }

    /// Destroy the channel, reclaiming its backing storage.  Both endpoint
    /// counts must have reached zero: tearing the channel down under a live
    /// sender or receiver is fatal.  Elements still buffered are still in
    /// the returned storage.
    pub fn dispose(self) -> (r: Vec<Option<T>>)
        requires
            self.wf(),
            self.senders() == 0,
            self.receivers() == 0,
        ensures
            r@.len() == self.cap(),
            forall|k: int|
                0 <= k < self.items().len() ==> r@.contains(Some(#[trigger] self.items()[k])),
    {
        proof {
            assert forall|k: int|
                0 <= k < self.items().len() implies self.buffer@.contains(
                Some(#[trigger] self.items()[k]),
            ) by {
                assert(self.live()[k] is Some);
                assert(self.live()[k] == Some(self.items()[k]));
                if self.write_pos >= self.read_pos {
                    assert(self.buffer@[self.read_pos + k] == Some(self.items()[k]));
                } else if k < self.cap() - self.read_pos {
                    assert(self.buffer@[self.read_pos + k] == Some(self.items()[k]));
                } else {
                    assert(self.buffer@[k - (self.cap() - self.read_pos)] == Some(
                        self.items()[k],
                    ));
                }
            }
        }
        self.buffer
    }

    /// Link a blocked receive operation's handle onto the receiver wait list.
    pub fn add_waiting_receiver(&mut self, handle: NotifyHandle)
        ensures
            final(self).recv_waiters() == old(self).recv_waiters().push(handle),
            final(self).send_waiters() == old(self).send_waiters(),
            final(self).items() == old(self).items(),
            final(self).cap() == old(self).cap(),
            final(self).senders() == old(self).senders(),
            final(self).receivers() == old(self).receivers(),
            old(self).wf() ==> final(self).wf(),
    {
        self.waiting_receivers.push(handle);
    }
}

/// The entries of `list` whose target differs from `handle`'s, in order.
fn keep_other_targets(list: &Vec<NotifyHandle>, handle: NotifyHandle) -> (kept: Vec<NotifyHandle>)
    ensures
        kept@ == list@.filter(|h: NotifyHandle| h.spec_target() != handle.spec_target()),
{
    let ghost pred = |h: NotifyHandle| h.spec_target() != handle.spec_target();
    let n = list.len();
    let mut kept: Vec<NotifyHandle> = Vec::new();
    let mut i: usize = 0;
    while i < n
        invariant
            i <= n,
            n == list@.len(),
            kept@ == list@.subrange(0, i as int).filter(
                |h: NotifyHandle| h.spec_target() != handle.spec_target(),
            ),
        decreases n - i,
    {
        let h = list[i];
        let ghost pre = list@.subrange(0, i as int);
        if !h.same_target(&handle) {
            kept.push(h);
        }
        proof {
            reveal(Seq::filter);
            assert(list@.subrange(0, i + 1).drop_last() =~= pre);
            assert(list@.subrange(0, i + 1).last() == h);
        }
        i = i + 1;
    }
    proof {
        assert(list@.subrange(0, n as int) =~= list@);
    }
    kept
}

/// Appending one element to a non-full, well-formed ring: the post state of a
/// successful `try_send` before any waking.
proof fn lemma_ring_push<T>(pre: Channel<T>, post: Channel<T>, message: T)
    requires
        pre.wf(),
        !pre.full_spec(),
        post.buffer@ == pre.buffer@.update(pre.write_pos as int, Some(message)),
        post.read_pos == pre.read_pos,
        (post.write_pos as int) == if pre.write_pos as int + 1 == pre.cap() {
            0int
        } else {
            pre.write_pos as int + 1
        },
    ensures
        post.wf(),
        post.items() == pre.items().push(message),
{
    assert(post.live() =~= pre.live().push(Some(message)));
    assert(post.items() =~= pre.items().push(message));
    assert forall|i: int| 0 <= i < post.live().len() implies (#[trigger] post.live()[i])
        is Some by {
        if i < pre.live().len() {
            assert(pre.live()[i] is Some);
        }
    }
}

/// Taking the oldest element out of a non-empty, well-formed ring: the post
/// state of a successful `try_recv` before any waking.
proof fn lemma_ring_pop<T>(pre: Channel<T>, post: Channel<T>, value: T)
    requires
        pre.wf(),
        !pre.empty_spec(),
        Some(value) == pre.buffer@[pre.read_pos as int],
        post.buffer@ == pre.buffer@.update(pre.read_pos as int, None),
        post.write_pos == pre.write_pos,
        (post.read_pos as int) == if pre.read_pos as int + 1 == pre.cap() {
            0int
        } else {
            pre.read_pos as int + 1
        },
    ensures
        post.wf(),
        post.items() == pre.items().drop_first(),
        value == pre.items()[0],
{
    assert(pre.live()[0] == pre.buffer@[pre.read_pos as int]);
    assert(post.live() =~= pre.live().drop_first());
    assert(post.items() =~= pre.items().drop_first());
    assert forall|i: int| 0 <= i < post.live().len() implies (#[trigger] post.live()[i])
        is Some by {
        assert(pre.live()[i + 1] is Some);
    }
}

/// The sending capability of one channel.
///
/// Duplicate it with [`Channel::add_sender`] and retire it with
/// [`Channel::drop_sender`]; the channel counts its live senders.
pub struct Sender {}

impl Sender {
    /// The capacity of the channel this endpoint sends into.
    pub fn capacity<T>(&self, channel: &Channel<T>) -> (r: usize)
        ensures
            r as int == channel.cap(),
    {
        channel.capacity()
    }

    /// Begin a blocking send of `message`: the returned operation is polled
    /// until the message is accepted or the receive side is gone.
    pub fn send<T>(&self, message: T) -> (f: SendFuture<T>)
        ensures
            f.pending_value() == Some(message),
    {
        SendFuture { value: Some(message) }
    }
}

/// The receiving capability of one channel.
///
/// Duplicate it with [`Channel::add_receiver`] and retire it with
/// [`Channel::drop_receiver`]; the channel counts its live receivers.
pub struct Receiver {}

impl Receiver {
    /// The capacity of the channel this endpoint receives from.
    pub fn capacity<T>(&self, channel: &Channel<T>) -> (r: usize)
        ensures
            r as int == channel.cap(),
    {
        channel.capacity()
    }

    /// Begin a blocking receive: the returned operation is polled until an
    /// element arrives or the send side is gone and the buffer has drained.
    pub fn recv(&self) -> (f: RecvFuture) {
        RecvFuture {  }
    }
}

/// An in-flight blocking send, holding the message while the ring is full.
///
/// A blocked send abandoned before being woken must unlink the handle it
/// registered, through [`Channel::unlink_waiting_sender`].
pub struct SendFuture<T> {
    value: Option<T>,
}

impl<T> SendFuture<T> {
    /// The message still waiting to be accepted, if any.
    pub closed spec fn pending_value(self) -> Option<T> {
        self.value
    }

    /// One attempt: try the send; when the ring is full, keep the message,
    /// link `handle` onto the sender wait list and report not-ready; when the
    /// receive side is gone, give the message up and report the error.
    pub fn poll(
        &mut self,
        channel: &mut Channel<T>,
        handle: NotifyHandle,
        wakers: &mut Vec<TaskWaker>,
    ) -> (r: Progress<Result<(), SendError>>)
        requires
            old(self).pending_value() is Some,
            old(channel).wf(),
        ensures
            final(channel).wf(),
            final(channel).cap() == old(channel).cap(),
            final(channel).senders() == old(channel).senders(),
            final(channel).receivers() == old(channel).receivers(),
            old(channel).disconnected_spec() ==> (r matches Progress::Ready(x) && x == Err::<
                (),
                SendError,
            >(SendError {  })) && final(self).pending_value() is None && final(channel).items()
                == old(channel).items() && final(channel).send_waiters() == old(channel).send_waiters() && final(channel).recv_waiters() == old(channel).recv_waiters()
                && final(wakers)@ == old(wakers)@,
            !old(channel).disconnected_spec() && old(channel).full_spec() ==> r is Pending && final(self).pending_value() == old(self).pending_value() && final(channel).items() == old(channel).items() && final(channel).send_waiters() == old(channel).send_waiters().push(handle)
                && final(channel).recv_waiters() == old(channel).recv_waiters() && final(wakers)@
                == old(wakers)@,
            !old(channel).disconnected_spec() && !old(channel).full_spec() ==> (r
                matches Progress::Ready(x) && x == Ok::<(), SendError>(())) && final(self).pending_value() is None && final(channel).items() == old(channel).items().push(
                old(self).pending_value()->Some_0,
            ) && final(channel).send_waiters() == old(channel).send_waiters() && final(channel).recv_waiters() == if old(channel).recv_waiters().len() > 0 {
                old(channel).recv_waiters().drop_last()
            } else {
                old(channel).recv_waiters()
            } && final(wakers)@ == if old(channel).recv_waiters().len() > 0 {
                notified(old(wakers)@, old(channel).recv_waiters().last())
            } else {
                old(wakers)@
            },
    {
        let message = self.value.take().unwrap();
        match channel.try_send(message, wakers) {
            Ok(()) => Progress::Ready(Ok(())),
            Err(TrySendError::Disconnected(_)) => Progress::Ready(Err(SendError {  })),
            Err(TrySendError::Full(m)) => {
                self.value = Some(m);
                channel.add_waiting_sender(handle);
                Progress::Pending
            },
        }
    }
}

/// An in-flight blocking receive.
///
/// A blocked receive abandoned before being woken must unlink the handle it
/// registered, through [`Channel::unlink_waiting_receiver`].
pub struct RecvFuture {}

impl RecvFuture {
    /// One attempt: try the receive; when the ring is empty, link `handle`
    /// onto the receiver wait list and report not-ready; when the send side
    /// is gone and the buffer has drained, report the error.
    pub fn poll<T>(
        &self,
        channel: &mut Channel<T>,
        handle: NotifyHandle,
        wakers: &mut Vec<TaskWaker>,
    ) -> (r: Progress<Result<T, RecvError>>)
        requires
            old(channel).wf(),
        ensures
            final(channel).wf(),
            final(channel).cap() == old(channel).cap(),
            final(channel).senders() == old(channel).senders(),
            final(channel).receivers() == old(channel).receivers(),
            old(channel).disconnected_spec() ==> (r matches Progress::Ready(x) && x == Err::<
                T,
                RecvError,
            >(RecvError {  })) && final(channel).items() == old(channel).items() && final(channel).send_waiters() == old(channel).send_waiters() && final(channel).recv_waiters() == old(channel).recv_waiters() && final(wakers)@ == old(wakers)@,
            !old(channel).disconnected_spec() && old(channel).empty_spec() ==> r is Pending
                && final(channel).items() == old(channel).items() && final(channel).send_waiters()
                == old(channel).send_waiters() && final(channel).recv_waiters() == old(channel).recv_waiters().push(handle) && final(wakers)@ == old(wakers)@,
            !old(channel).disconnected_spec() && !old(channel).empty_spec() ==> (r
                matches Progress::Ready(x) && x == Ok::<T, RecvError>(old(channel).items()[0]))
                && final(channel).items() == old(channel).items().drop_first() && final(channel).recv_waiters() == old(channel).recv_waiters() && final(channel).send_waiters()
                == if old(channel).send_waiters().len() > 0 {
                old(channel).send_waiters().drop_last()
            } else {
                old(channel).send_waiters()
            } && final(wakers)@ == if old(channel).send_waiters().len() > 0 {
                notified(old(wakers)@, old(channel).send_waiters().last())
            } else {
                old(wakers)@
            },
    {
        match channel.try_recv(wakers) {
            Ok(v) => Progress::Ready(Ok(v)),
            Err(TryRecvError::Disconnected) => Progress::Ready(Err(RecvError {  })),
            Err(TryRecvError::Empty) => {
                channel.add_waiting_receiver(handle);
                Progress::Pending
            },
        }
    }
}

/// The channel's abstract state: what the contracts of [`Channel`]'s
/// operations are phrased over, gathered into one record so whole-sequence
/// laws can be stated by induction.
pub struct ChannelModel<T> {
    /// The buffered elements, oldest first.
    pub items: Seq<T>,
    /// The backing capacity N.
    pub cap: int,
    /// Live sender endpoints.
    pub senders: int,
    /// Live receiver endpoints.
    pub receivers: int,
    /// Blocked senders' handles, most recently blocked last.
    pub send_waiters: Seq<NotifyHandle>,
    /// Blocked receivers' handles, most recently blocked last.
    pub recv_waiters: Seq<NotifyHandle>,
}

/// All N−1 live slots of the model are in use.
pub open spec fn model_full<T>(m: ChannelModel<T>) -> bool {
    m.items.len() == m.cap - 1
}

/// Nothing can complete any more, as the sending side asks it.
pub open spec fn model_disconnected<T>(m: ChannelModel<T>) -> bool {
    (m.senders == 0 && m.items.len() == 0) || m.receivers == 0
}

/// The model after one accepted send: the message is appended and the most
/// recently blocked receiver, if any, leaves the wait list.
pub open spec fn model_send<T>(m: ChannelModel<T>, x: T) -> ChannelModel<T> {
    ChannelModel {
        items: m.items.push(x),
        recv_waiters: if m.recv_waiters.len() > 0 {
            m.recv_waiters.drop_last()
        } else {
            m.recv_waiters
        },
        ..m
    }
}

/// The model after one successful receive: the oldest element leaves and the
/// most recently blocked sender, if any, leaves the wait list.
pub open spec fn model_recv<T>(m: ChannelModel<T>) -> ChannelModel<T> {
    ChannelModel {
        items: m.items.drop_first(),
        send_waiters: if m.send_waiters.len() > 0 {
            m.send_waiters.drop_last()
        } else {
            m.send_waiters
        },
        ..m
    }
}

/// The model after sending every element of `msgs` in order.
pub open spec fn model_after_sends<T>(m: ChannelModel<T>, msgs: Seq<T>) -> ChannelModel<T>
    decreases msgs.len(),
{
    if msgs.len() == 0 {
        m
    } else {
        model_after_sends(model_send(m, msgs[0]), msgs.drop_first())
    }
}

impl<T> Channel<T> {
    /// The channel's abstract state.
    pub open spec fn model(self) -> ChannelModel<T> {
        ChannelModel {
            items: self.items(),
            cap: self.cap(),
            senders: self.senders(),
            receivers: self.receivers(),
            send_waiters: self.send_waiters(),
            recv_waiters: self.recv_waiters(),
        }
    }
}

/// A well-formed channel never buffers more than N−1 elements: the ring keeps
/// one slot in reserve, so a channel over a backing array of length N accepts
/// exactly N−1 sends before `try_send` reports it full.
pub proof fn lemma_capacity_bound<T>(c: Channel<T>)
    requires
        c.wf(),
    ensures
        c.items().len() <= c.cap() - 1,
{
}

/// The counting half of the reserved-slot rule, by induction over a whole
/// burst of sends: while a receiver lives, a channel holding `k` elements
/// accepts exactly `N−1−k` further sends before it is full — none of them is
/// refused on the way, and afterwards the buffer holds the old elements
/// followed by the burst.  From an empty channel the burst is exactly N−1
/// sends, and [`Channel::try_send`]'s contract refuses the next one.
pub proof fn lemma_burst_of_sends_accepted<T>(m: ChannelModel<T>, msgs: Seq<T>)
    requires
        m.senders > 0,
        m.receivers > 0,
        m.items.len() + msgs.len() <= m.cap - 1,
    ensures
        model_after_sends(m, msgs).items == m.items + msgs,
        model_after_sends(m, msgs).cap == m.cap,
        model_after_sends(m, msgs).senders == m.senders,
        model_after_sends(m, msgs).receivers == m.receivers,
        forall|j: int|
            0 <= j < msgs.len() ==> !model_full(
                #[trigger] model_after_sends(m, msgs.subrange(0, j)),
            ) && !model_disconnected(model_after_sends(m, msgs.subrange(0, j))),
    decreases msgs.len(),
{
    if msgs.len() == 0 {
        assert(m.items + msgs =~= m.items);
    } else {
        let m1 = model_send(m, msgs[0]);
        lemma_burst_of_sends_accepted(m1, msgs.drop_first());
        assert(m1.items + msgs.drop_first() =~= m.items + msgs);
        assert forall|j: int|
            0 <= j < msgs.len() implies !model_full(
            #[trigger] model_after_sends(m, msgs.subrange(0, j)),
        ) && !model_disconnected(model_after_sends(m, msgs.subrange(0, j))) by {
            if j == 0 {
                assert(msgs.subrange(0, 0) =~= Seq::<T>::empty());
                assert(model_after_sends(m, msgs.subrange(0, 0)) == m);
            } else {
                assert(msgs.subrange(0, j).drop_first() =~= msgs.drop_first().subrange(0, j - 1));
                assert(msgs.subrange(0, j)[0] == msgs[0]);
                assert(model_after_sends(m, msgs.subrange(0, j)) == model_after_sends(
                    m1,
                    msgs.drop_first().subrange(0, j - 1),
                ));
            }
        }
    }
}

/// The freeing half of the reserved-slot rule: one receive on a full channel
/// opens exactly one slot, and the next accepted send fills it again.
pub proof fn lemma_one_recv_frees_one_slot<T>(m: ChannelModel<T>, x: T)
    requires
        model_full(m),
        m.cap >= 2,
    ensures
        !model_full(model_recv(m)),
        model_full(model_send(model_recv(m), x)),
{
}

/// Buffered elements survive the senders: with every sender gone and elements
/// still buffered, the channel is not yet disconnected for the receiver, so
/// `try_recv` still hands the elements out; only once the buffer has drained
/// does a receive report the disconnect.
pub proof fn lemma_receiver_drains_after_senders<T>(c: Channel<T>)
    requires
        c.wf(),
        c.senders() == 0,
        c.receivers() > 0,
    ensures
        c.disconnected_spec() <==> c.items().len() == 0,
{
}

} // verus!
