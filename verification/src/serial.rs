//! Serial byte transfer: device capabilities for reading and writing chunks,
//! and resumable operations that drive them until a whole buffer is done.

use vstd::prelude::*;

use crate::executor::NotifyHandle;
use crate::future::Progress;
use crate::task::TaskWaker;

verus! {

/// A byte source polled for one chunk at a time.
///
/// An implementation fills `buffer[start..]` with at least one byte, or
/// reports an error, or arms `handle` and reports not-ready; it never touches
/// `buffer[..start]` and never resizes the buffer.  A source that cannot make
/// progress reports not-ready rather than a zero-length read.
pub trait AsyncRead {
    /// The device's error.
    type Error;

    /// Attempt to read into `buffer[start..]`, returning how many bytes were
    /// placed there.
    fn poll_read(
        &mut self,
        handle: NotifyHandle,
        wakers: &mut Vec<TaskWaker>,
        buffer: &mut Vec<u8>,
        start: usize,
    ) -> (r: Progress<Result<usize, Self::Error>>)
        requires
            (start as int) < old(buffer)@.len(),
        ensures
            final(buffer)@.len() == old(buffer)@.len(),
            forall|i: int| 0 <= i < start ==> final(buffer)@[i] == old(buffer)@[i],
            r matches Progress::Ready(res) ==> (res matches Ok(n) ==> 1 <= n && start + n
                <= final(buffer)@.len()),
    ;
}

/// A byte sink polled for one chunk at a time.
///
/// An implementation accepts at least one byte of `buffer[start..]`, or
/// reports an error, or arms `handle` and reports not-ready.
pub trait AsyncWrite {
    /// The device's error.
    type Error;

    /// Attempt to write from `buffer[start..]`, returning how many bytes were
    /// accepted.
    fn poll_write(
        &mut self,
        handle: NotifyHandle,
        wakers: &mut Vec<TaskWaker>,
        buffer: &Vec<u8>,
        start: usize,
    ) -> (r: Progress<Result<usize, Self::Error>>)
        requires
            (start as int) < buffer@.len(),
        ensures
            r matches Progress::Ready(res) ==> (res matches Ok(n) ==> 1 <= n && start + n
                <= buffer@.len()),
    ;
}

/// One in-flight single-chunk read.
pub struct ReadFuture {}

impl ReadFuture {
    /// One attempt: exactly one poll of the reader.
    pub fn poll<R: AsyncRead>(
        &self,
        reader: &mut R,
        handle: NotifyHandle,
        wakers: &mut Vec<TaskWaker>,
        buffer: &mut Vec<u8>,
        start: usize,
    ) -> (r: Progress<Result<usize, R::Error>>)
        requires
            (start as int) < old(buffer)@.len(),
        ensures
            final(buffer)@.len() == old(buffer)@.len(),
            forall|i: int| 0 <= i < start ==> final(buffer)@[i] == old(buffer)@[i],
            r matches Progress::Ready(res) ==> (res matches Ok(n) ==> 1 <= n && start + n
                <= final(buffer)@.len()),
    {
        reader.poll_read(handle, wakers, buffer, start)
    }
}

/// One in-flight single-chunk write.
pub struct WriteFuture {}

impl WriteFuture {
    /// One attempt: exactly one poll of the writer.
    pub fn poll<W: AsyncWrite>(
        &self,
        writer: &mut W,
        handle: NotifyHandle,
        wakers: &mut Vec<TaskWaker>,
        buffer: &Vec<u8>,
        start: usize,
    ) -> (r: Progress<Result<usize, W::Error>>)
        requires
            (start as int) < buffer@.len(),
        ensures
            r matches Progress::Ready(res) ==> (res matches Ok(n) ==> 1 <= n && start + n
                <= buffer@.len()),
    {
        writer.poll_write(handle, wakers, buffer, start)
    }
}

impl crate::future::Cancelable for ReadFuture {
    /// The in-flight marker holds no pending state of its own; abandoning
    /// work queued inside the device is the device's business.
    fn cancel_future(&mut self) {
    }
}

/// Chunked reading for any byte source.
pub trait AsyncReadExt: AsyncRead {
    /// Begin a single-chunk read.
    fn read_some(&mut self) -> ReadFuture;
}

impl<T: AsyncRead> AsyncReadExt for T {
    fn read_some(&mut self) -> ReadFuture {
        ReadFuture {  }
    }
}

/// Chunked writing for any byte sink.
pub trait AsyncWriteExt: AsyncWrite {
    /// Begin a single-chunk write.
    fn write_some(&mut self) -> WriteFuture;
}

impl<T: AsyncWrite> AsyncWriteExt for T {
    fn write_some(&mut self) -> WriteFuture {
        WriteFuture {  }
    }
}

/// Read until `buffer` is completely filled.
///
/// `amount_read` is the operation's progress, owned by the caller across
/// attempts: bytes before it were read by earlier attempts and are kept.
/// Ready-with-`Ok` means the buffer is full; an error reports how many bytes
/// had been read by then; not-ready means the reader has armed `handle`.
pub fn read<R: AsyncRead>(
    reader: &mut R,
    buffer: &mut Vec<u8>,
    amount_read: &mut usize,
    handle: NotifyHandle,
    wakers: &mut Vec<TaskWaker>,
) -> (r: Progress<Result<(), (usize, R::Error)>>)
    requires
        *old(amount_read) <= old(buffer)@.len(),
    ensures
        final(buffer)@.len() == old(buffer)@.len(),
        *old(amount_read) <= *final(amount_read) <= final(buffer)@.len(),
        forall|i: int| 0 <= i < *old(amount_read) ==> final(buffer)@[i] == old(buffer)@[i],
        r matches Progress::Ready(res) ==> (res matches Ok(u) ==> *final(amount_read) == final(buffer)@.len()),
        r matches Progress::Ready(res) ==> (res matches Err(e) ==> e.0 == *final(amount_read)
            && *final(amount_read) < final(buffer)@.len()),
{
    let mut amount = *amount_read;
    let ghost amount0 = amount;
    let ghost buf0 = buffer@;
    loop
        invariant
            amount0 == *old(amount_read),
            buf0 == old(buffer)@,
            amount0 <= amount <= buffer@.len(),
            buffer@.len() == buf0.len(),
            forall|i: int| 0 <= i < amount0 ==> buffer@[i] == buf0[i],
        decreases buffer@.len() - amount,
    {
        if amount == buffer.len() {
            *amount_read = amount;
            return Progress::Ready(Ok(()));
        }
        let ghost buf_pre = buffer@;
        match reader.poll_read(handle, wakers, buffer, amount) {
            Progress::Pending => {
                *amount_read = amount;
                return Progress::Pending;
            },
            Progress::Ready(step) => {
                match step {
                    Ok(read_now) => {
                        proof {
                            assert forall|i: int| 0 <= i < amount0 implies buffer@[i]
                                == buf0[i] by {
                                assert(buffer@[i] == buf_pre[i]);
                            }
                        }
                        amount = amount + read_now;
                    },
                    Err(e) => {
                        proof {
                            assert forall|i: int| 0 <= i < amount0 implies buffer@[i]
                                == buf0[i] by {
                                assert(buffer@[i] == buf_pre[i]);
                            }
                        }
                        *amount_read = amount;
                        return Progress::Ready(Err((amount, e)));
                    },
                }
            },
        }
    }
}

/// Write until all of `buffer` has been accepted.
///
/// `amount_written` is the operation's progress, owned by the caller across
/// attempts.  Ready-with-`Ok` means every byte was accepted; an error reports
/// how many bytes had been accepted by then; not-ready means the writer has
/// armed `handle`.
pub fn write<W: AsyncWrite>(
    writer: &mut W,
    buffer: &Vec<u8>,
    amount_written: &mut usize,
    handle: NotifyHandle,
    wakers: &mut Vec<TaskWaker>,
) -> (r: Progress<Result<(), (usize, W::Error)>>)
    requires
        *old(amount_written) <= buffer@.len(),
    ensures
        *old(amount_written) <= *final(amount_written) <= buffer@.len(),
        r matches Progress::Ready(res) ==> (res matches Ok(u) ==> *final(amount_written)
            == buffer@.len()),
        r matches Progress::Ready(res) ==> (res matches Err(e) ==> e.0 == *final(amount_written)
            && *final(amount_written) < buffer@.len()),
{
    let mut amount = *amount_written;
    let ghost amount0 = amount;
    loop
        invariant
            amount0 == *old(amount_written),
            amount0 <= amount <= buffer@.len(),
        decreases buffer@.len() - amount,
    {
        if amount == buffer.len() {
            *amount_written = amount;
            return Progress::Ready(Ok(()));
        }
        match writer.poll_write(handle, wakers, buffer, amount) {
            Progress::Pending => {
                *amount_written = amount;
                return Progress::Pending;
            },
            Progress::Ready(step) => {
                match step {
                    Ok(wrote_now) => {
                        amount = amount + wrote_now;
                    },
                    Err(e) => {
                        *amount_written = amount;
                        return Progress::Ready(Err((amount, e)));
                    },
                }
            },
        }
    }
}

} // verus!
