use coop_executor::{QueueFull, ReadyQueue};

#[test]
fn new_queue_is_empty() {
    let queue = ReadyQueue::new(4);
    assert_eq!(queue.len(), 0);
    assert_eq!(queue.capacity(), 4);
    assert!(queue.is_empty());
    assert!(!queue.is_full());
}

#[test]
fn entries_leave_in_the_order_they_came() {
    let mut queue = ReadyQueue::new(8);
    for task in [5usize, 3, 9, 3, 0] {
        assert_eq!(queue.push(task), Ok(()));
    }
    assert_eq!(queue.len(), 5);
    let mut seen = Vec::new();
    while let Some(task) = queue.pop() {
        seen.push(task);
    }
    assert_eq!(seen, vec![5, 3, 9, 3, 0]);
    assert!(queue.is_empty());
}

#[test]
fn pop_of_empty_queue_gives_nothing() {
    let mut queue = ReadyQueue::new(2);
    assert_eq!(queue.pop(), None);
    assert_eq!(queue.len(), 0);
    assert_eq!(queue.push(7), Ok(()));
    assert_eq!(queue.pop(), Some(7));
    assert_eq!(queue.pop(), None);
}

#[test]
fn full_queue_refuses_and_keeps_its_entries() {
    let mut queue = ReadyQueue::new(2);
    assert_eq!(queue.push(1), Ok(()));
    assert!(!queue.is_full());
    assert_eq!(queue.push(2), Ok(()));
    assert!(queue.is_full());
    assert_eq!(queue.push(3), Err(QueueFull));
    assert_eq!(queue.len(), 2);
    assert_eq!(queue.pop(), Some(1));
    assert_eq!(queue.pop(), Some(2));
    assert_eq!(queue.pop(), None);
}

#[test]
fn room_comes_back_after_a_pop() {
    let mut queue = ReadyQueue::new(1);
    assert_eq!(queue.push(4), Ok(()));
    assert_eq!(queue.push(5), Err(QueueFull));
    assert_eq!(queue.pop(), Some(4));
    assert_eq!(queue.push(5), Ok(()));
    assert_eq!(queue.pop(), Some(5));
}

#[test]
fn queue_without_capacity_refuses_everything() {
    let mut queue = ReadyQueue::new(0);
    assert!(queue.is_empty());
    assert!(queue.is_full());
    assert_eq!(queue.push(0), Err(QueueFull));
    assert_eq!(queue.len(), 0);
    assert_eq!(queue.pop(), None);
}

#[test]
fn a_task_may_stand_in_the_queue_twice() {
    let mut queue = ReadyQueue::new(3);
    assert_eq!(queue.push(6), Ok(()));
    assert_eq!(queue.push(6), Ok(()));
    assert_eq!(queue.len(), 2);
    assert_eq!(queue.pop(), Some(6));
    assert_eq!(queue.pop(), Some(6));
}
