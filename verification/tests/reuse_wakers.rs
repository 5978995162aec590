use uio::task::{Task, TaskWaker};

#[test]
fn reuse_after_drop() {
    let mut wakers = vec![TaskWaker::new()];
    {
        let task = Task::new(0u32, 0, &mut wakers);
        task.release(&mut wakers);
    }
    let task = Task::new(0u32, 0, &mut wakers);
    task.release(&mut wakers);
}

#[test]
fn reference_is_exclusive() {
    let mut w = TaskWaker::new();
    assert!(w.try_take_reference());
    assert!(!w.try_take_reference());
    assert!(w.release_reference());
    assert!(!w.release_reference());
    assert!(w.try_take_reference());
}

#[test]
fn lifecycle_bits_do_not_release_the_reference() {
    let mut w = TaskWaker::new();
    assert!(w.try_take_reference());
    w.set_started();
    w.set_ready_to_poll();
    w.clear_ready_to_poll();
    w.set_finished();
    assert!(!w.try_take_reference());
    assert!(w.release_reference());
    assert!(w.try_take_reference());
}

#[test]
fn lifecycle_bits_track_started_and_finished() {
    let mut w = TaskWaker::new();
    assert!(w.is_finished());
    w.set_started();
    assert!(!w.is_finished());
    assert!(!w.is_ready_to_poll());
    w.set_ready_to_poll();
    assert!(w.is_ready_to_poll());
    w.clear_ready_to_poll();
    assert!(!w.is_ready_to_poll());
    w.set_finished();
    assert!(w.is_finished());
}
