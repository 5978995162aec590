use uio::executor::NotifyHandle;
use uio::future::Progress;
use uio::serial::{read, AsyncRead, AsyncReadExt, AsyncWrite, AsyncWriteExt};
use uio::task::TaskWaker;

/// Hands out bytes from a script, at most `chunk` per poll, and reports
/// not-ready once the script is exhausted.
struct ScriptedReader {
    data: Vec<u8>,
    pos: usize,
    chunk: usize,
}

impl AsyncRead for ScriptedReader {
    type Error = ();

    fn poll_read(
        &mut self,
        _handle: NotifyHandle,
        _wakers: &mut Vec<TaskWaker>,
        buffer: &mut Vec<u8>,
        start: usize,
    ) -> Progress<Result<usize, ()>> {
        let space = buffer.len() - start;
        let left = self.data.len() - self.pos;
        let n = space.min(left).min(self.chunk);
        if n == 0 {
            return Progress::Pending;
        }
        for i in 0..n {
            buffer[start + i] = self.data[self.pos + i];
        }
        self.pos += n;
        Progress::Ready(Ok(n))
    }
}

/// Accepts bytes into a sink, at most `chunk` per poll.
struct ScriptedWriter {
    sink: Vec<u8>,
    chunk: usize,
}

impl AsyncWrite for ScriptedWriter {
    type Error = ();

    fn poll_write(
        &mut self,
        _handle: NotifyHandle,
        _wakers: &mut Vec<TaskWaker>,
        buffer: &Vec<u8>,
        start: usize,
    ) -> Progress<Result<usize, ()>> {
        let n = (buffer.len() - start).min(self.chunk);
        if n == 0 {
            return Progress::Pending;
        }
        for i in 0..n {
            self.sink.push(buffer[start + i]);
        }
        Progress::Ready(Ok(n))
    }
}

#[test]
fn read_fills_the_whole_buffer_across_chunks() {
    let mut wakers: Vec<TaskWaker> = Vec::new();
    let mut reader = ScriptedReader { data: vec![1, 2, 3, 4, 5, 6], pos: 0, chunk: 4 };
    let mut buffer = vec![0u8; 6];
    let mut amount = 0usize;

    let r = read(&mut reader, &mut buffer, &mut amount, NotifyHandle::empty(), &mut wakers);
    assert!(matches!(r, Progress::Ready(Ok(()))));
    assert_eq!(amount, 6);
    assert_eq!(buffer, vec![1, 2, 3, 4, 5, 6]);
}

#[test]
fn read_suspends_and_resumes_where_it_left_off() {
    let mut wakers: Vec<TaskWaker> = Vec::new();
    let mut reader = ScriptedReader { data: vec![9, 8], pos: 0, chunk: 2 };
    let mut buffer = vec![0u8; 4];
    let mut amount = 0usize;

    let r = read(&mut reader, &mut buffer, &mut amount, NotifyHandle::empty(), &mut wakers);
    assert!(matches!(r, Progress::Pending));
    assert_eq!(amount, 2);

    reader.data = vec![9, 8, 7, 6];
    let r = read(&mut reader, &mut buffer, &mut amount, NotifyHandle::empty(), &mut wakers);
    assert!(matches!(r, Progress::Ready(Ok(()))));
    assert_eq!(buffer, vec![9, 8, 7, 6]);
}

#[test]
fn write_pushes_the_whole_buffer_across_chunks() {
    let mut wakers: Vec<TaskWaker> = Vec::new();
    let mut writer = ScriptedWriter { sink: Vec::new(), chunk: 3 };
    let buffer = vec![1u8, 2, 3, 4, 5];
    let mut amount = 0usize;

    let r = uio::serial::write(&mut writer, &buffer, &mut amount, NotifyHandle::empty(), &mut wakers);
    assert!(matches!(r, Progress::Ready(Ok(()))));
    assert_eq!(amount, 5);
    assert_eq!(writer.sink, vec![1, 2, 3, 4, 5]);
}

/// Reports one chunk, then fails.
struct FailingReader {
    polls: usize,
}

impl AsyncRead for FailingReader {
    type Error = u8;

    fn poll_read(
        &mut self,
        _handle: NotifyHandle,
        _wakers: &mut Vec<TaskWaker>,
        buffer: &mut Vec<u8>,
        start: usize,
    ) -> Progress<Result<usize, u8>> {
        self.polls += 1;
        if self.polls == 1 {
            buffer[start] = 1;
            Progress::Ready(Ok(1))
        } else {
            Progress::Ready(Err(7))
        }
    }
}

#[test]
fn read_reports_the_error_with_the_progress_so_far() {
    let mut wakers: Vec<TaskWaker> = Vec::new();
    let mut reader = FailingReader { polls: 0 };
    let mut buffer = vec![0u8; 3];
    let mut amount = 0usize;

    match read(&mut reader, &mut buffer, &mut amount, NotifyHandle::empty(), &mut wakers) {
        Progress::Ready(Err((done, e))) => {
            assert_eq!(done, 1);
            assert_eq!(e, 7);
        }
        _ => panic!("the device error should surface"),
    }
    assert_eq!(amount, 1);
}

#[test]
fn single_chunk_futures_poll_the_device_once() {
    let mut wakers: Vec<TaskWaker> = Vec::new();
    let mut reader = ScriptedReader { data: vec![5, 6, 7], pos: 0, chunk: 2 };
    let op = reader.read_some();
    let mut buffer = vec![0u8; 3];
    let r = op.poll(&mut reader, NotifyHandle::empty(), &mut wakers, &mut buffer, 0);
    assert!(matches!(r, Progress::Ready(Ok(2))));
    assert_eq!(&buffer[..2], &[5, 6]);

    let mut writer = ScriptedWriter { sink: Vec::new(), chunk: 8 };
    let op = writer.write_some();
    let out = vec![1u8, 2];
    let r = op.poll(&mut writer, NotifyHandle::empty(), &mut wakers, &out, 0);
    assert!(matches!(r, Progress::Ready(Ok(2))));
    assert_eq!(writer.sink, vec![1, 2]);
}
