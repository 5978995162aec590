use uio::task_list::TaskList;

#[test]
fn empty_iff_head_is_sentinel() {
    let mut links = vec![0usize; 6];
    let mut list = TaskList::new(0);
    assert!(list.is_empty());

    list.push_front(&mut links, 1);
    assert!(!list.is_empty());
    list.push_front(&mut links, 2);
    assert!(!list.is_empty());

    assert_eq!(list.pop_front(&links), 2);
    assert!(!list.is_empty());
    assert_eq!(list.pop_front(&links), 1);
    assert!(list.is_empty());
}

#[test]
fn take_snapshots_the_whole_chain() {
    let mut links = vec![0usize; 6];
    let mut list = TaskList::new(0);
    list.push_front(&mut links, 1);
    list.push_front(&mut links, 2);

    let mut snapshot = list.take();
    assert!(list.is_empty());
    assert!(!snapshot.is_empty());
    assert_eq!(snapshot.pop_front(&links), 2);
    assert_eq!(snapshot.pop_front(&links), 1);
    assert!(snapshot.is_empty());
}

#[test]
fn merge_into_empty_adopts_the_chain() {
    let mut links = vec![0usize; 6];
    let mut list = TaskList::new(0);
    let mut other = TaskList::new(0);
    other.push_front(&mut links, 4);
    other.push_front(&mut links, 5);

    list.merge(other, &mut links);
    assert_eq!(list.pop_front(&links), 5);
    assert_eq!(list.pop_front(&links), 4);
    assert!(list.is_empty());
}

#[test]
fn merge_into_non_empty_relinks_in_reverse() {
    let mut links = vec![0usize; 6];
    let mut list = TaskList::new(0);
    list.push_front(&mut links, 3);
    let mut other = TaskList::new(0);
    other.push_front(&mut links, 4);
    other.push_front(&mut links, 5);

    list.merge(other, &mut links);
    assert_eq!(list.pop_front(&links), 4);
    assert_eq!(list.pop_front(&links), 5);
    assert_eq!(list.pop_front(&links), 3);
    assert!(list.is_empty());
}
