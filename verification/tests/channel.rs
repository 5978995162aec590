use uio::executor::NotifyHandle;
use uio::future::Progress;
use uio::sync::{Channel, TryRecvError, TrySendError};
use uio::task::TaskWaker;

#[test]
fn accepts_capacity_minus_one_sends() {
    let mut wakers: Vec<TaskWaker> = Vec::new();
    let mut chan = Channel::new(vec![0i32; 4]);
    let (_tx, _rx) = chan.split();

    assert!(matches!(chan.try_send(1, &mut wakers), Ok(())));
    assert!(matches!(chan.try_send(2, &mut wakers), Ok(())));
    assert!(matches!(chan.try_send(3, &mut wakers), Ok(())));
    assert!(matches!(chan.try_send(4, &mut wakers), Err(TrySendError::Full(4))));

    assert!(matches!(chan.try_recv(&mut wakers), Ok(1)));
    assert!(matches!(chan.try_send(4, &mut wakers), Ok(())));
    assert!(matches!(chan.try_send(5, &mut wakers), Err(TrySendError::Full(5))));
}

#[test]
fn receiver_drains_after_all_senders_drop() {
    let mut wakers: Vec<TaskWaker> = Vec::new();
    let mut chan = Channel::new(vec![0i32; 4]);
    let (_tx, _rx) = chan.split();

    assert!(matches!(chan.try_send(10, &mut wakers), Ok(())));
    assert!(matches!(chan.try_send(11, &mut wakers), Ok(())));
    chan.drop_sender(&mut wakers);

    assert!(matches!(chan.try_recv(&mut wakers), Ok(10)));
    assert!(matches!(chan.try_recv(&mut wakers), Ok(11)));
    assert!(matches!(chan.try_recv(&mut wakers), Err(TryRecvError::Disconnected)));
}

#[test]
fn three_slot_ring_round_trip() {
    let mut wakers: Vec<TaskWaker> = Vec::new();
    let mut chan = Channel::new(vec![' '; 3]);
    let (_tx, _rx) = chan.split();

    assert!(matches!(chan.try_send('A', &mut wakers), Ok(())));
    assert!(matches!(chan.try_send('B', &mut wakers), Ok(())));
    assert!(matches!(chan.try_send('C', &mut wakers), Err(TrySendError::Full('C'))));
    assert!(matches!(chan.try_recv(&mut wakers), Ok('A')));
    assert!(matches!(chan.try_send('C', &mut wakers), Ok(())));
    assert!(matches!(chan.try_recv(&mut wakers), Ok('B')));
    assert!(matches!(chan.try_recv(&mut wakers), Ok('C')));
    chan.drop_sender(&mut wakers);
    assert!(matches!(chan.try_recv(&mut wakers), Err(TryRecvError::Disconnected)));
}

#[test]
fn send_fails_once_receiver_is_gone() {
    let mut wakers: Vec<TaskWaker> = Vec::new();
    let mut chan = Channel::new(vec![0u8; 2]);
    let (_tx, _rx) = chan.split();
    chan.drop_receiver(&mut wakers);
    assert!(matches!(chan.try_send(1, &mut wakers), Err(TrySendError::Disconnected(1))));
}

#[test]
fn blocked_sender_is_woken_by_a_receive() {
    let mut wakers = vec![TaskWaker::new()];
    let mut chan = Channel::new(vec![0i32; 2]);
    let (tx, _rx) = chan.split();

    let mut op = tx.send(1);
    assert!(matches!(op.poll(&mut chan, NotifyHandle::empty(), &mut wakers), Progress::Ready(Ok(()))));

    let mut blocked = tx.send(2);
    assert!(matches!(
        blocked.poll(&mut chan, NotifyHandle::for_waker(0), &mut wakers),
        Progress::Pending
    ));
    assert!(!wakers[0].is_ready_to_poll());

    assert!(matches!(chan.try_recv(&mut wakers), Ok(1)));
    assert!(wakers[0].is_ready_to_poll());

    assert!(matches!(
        blocked.poll(&mut chan, NotifyHandle::for_waker(0), &mut wakers),
        Progress::Ready(Ok(()))
    ));
    assert!(matches!(chan.try_recv(&mut wakers), Ok(2)));
}

#[test]
fn blocked_receiver_is_woken_by_a_send() {
    let mut wakers = vec![TaskWaker::new()];
    let mut chan = Channel::new(vec![0i32; 2]);
    let (tx, rx) = chan.split();

    let op = rx.recv();
    assert!(matches!(
        op.poll(&mut chan, NotifyHandle::for_waker(0), &mut wakers),
        Progress::Pending
    ));
    assert!(!wakers[0].is_ready_to_poll());

    let mut send_op = tx.send(5);
    assert!(matches!(
        send_op.poll(&mut chan, NotifyHandle::empty(), &mut wakers),
        Progress::Ready(Ok(()))
    ));
    assert!(wakers[0].is_ready_to_poll());

    assert!(matches!(
        op.poll(&mut chan, NotifyHandle::empty(), &mut wakers),
        Progress::Ready(Ok(5))
    ));
}

#[test]
fn dropping_the_last_receiver_wakes_blocked_senders() {
    let mut wakers = vec![TaskWaker::new()];
    let mut chan = Channel::new(vec![0i32; 2]);
    let (tx, _rx) = chan.split();

    let mut fill = tx.send(1);
    assert!(matches!(fill.poll(&mut chan, NotifyHandle::empty(), &mut wakers), Progress::Ready(Ok(()))));
    let mut blocked = tx.send(2);
    assert!(matches!(
        blocked.poll(&mut chan, NotifyHandle::for_waker(0), &mut wakers),
        Progress::Pending
    ));

    chan.drop_receiver(&mut wakers);
    assert!(wakers[0].is_ready_to_poll());
    assert!(matches!(
        blocked.poll(&mut chan, NotifyHandle::empty(), &mut wakers),
        Progress::Ready(Err(_))
    ));
}

#[test]
fn receive_on_a_fresh_channel_reports_empty() {
    let mut wakers: Vec<TaskWaker> = Vec::new();
    let mut chan = Channel::new(vec![0i32; 4]);
    let (_tx, _rx) = chan.split();
    assert!(matches!(chan.try_recv(&mut wakers), Err(TryRecvError::Empty)));
}

#[test]
fn blocking_receive_reports_the_disconnect() {
    let mut wakers: Vec<TaskWaker> = Vec::new();
    let mut chan = Channel::new(vec![0i32; 4]);
    let (_tx, rx) = chan.split();
    chan.drop_sender(&mut wakers);
    let op = rx.recv();
    assert!(matches!(
        op.poll(&mut chan, NotifyHandle::empty(), &mut wakers),
        Progress::Ready(Err(_))
    ));
}

#[test]
fn an_abandoned_blocked_send_can_unlink_its_registration() {
    let mut wakers = vec![TaskWaker::new(), TaskWaker::new()];
    let mut chan = Channel::new(vec![0i32; 2]);
    let (tx, _rx) = chan.split();

    let mut fill = tx.send(1);
    assert!(matches!(fill.poll(&mut chan, NotifyHandle::empty(), &mut wakers), Progress::Ready(Ok(()))));
    let mut abandoned = tx.send(2);
    assert!(matches!(
        abandoned.poll(&mut chan, NotifyHandle::for_waker(0), &mut wakers),
        Progress::Pending
    ));
    let mut kept = tx.send(3);
    assert!(matches!(
        kept.poll(&mut chan, NotifyHandle::for_waker(1), &mut wakers),
        Progress::Pending
    ));

    chan.unlink_waiting_sender(NotifyHandle::for_waker(0));

    // A receive now wakes only the waiter still linked.
    assert!(matches!(chan.try_recv(&mut wakers), Ok(1)));
    assert!(!wakers[0].is_ready_to_poll());
    assert!(wakers[1].is_ready_to_poll());
}

#[test]
fn dispose_returns_the_backing_storage() {
    let mut wakers: Vec<TaskWaker> = Vec::new();
    let mut chan = Channel::new(vec![0i32; 5]);
    let (_tx, _rx) = chan.split();
    chan.drop_sender(&mut wakers);
    chan.drop_receiver(&mut wakers);
    let storage = chan.dispose();
    assert_eq!(storage.len(), 5);
}

#[test]
fn capacity_is_the_backing_length() {
    let mut chan = Channel::new(vec![0u8; 7]);
    let (tx, rx) = chan.split();
    assert_eq!(chan.capacity(), 7);
    assert_eq!(tx.capacity(&chan), 7);
    assert_eq!(rx.capacity(&chan), 7);
}
