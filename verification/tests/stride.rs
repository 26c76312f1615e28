use os::config::BIGSTRIDE;
use os::mm::MemorySet;
use os::task::manager::TaskManager;
use os::task::TaskControlBlock;

fn task(stride: isize, priority: isize, tag: usize) -> TaskControlBlock {
    let mut t = TaskControlBlock::new(MemorySet::new_bare(), tag);
    t.stride = stride;
    t.priority = priority;
    t
}

#[test]
fn empty_queue_gives_nothing() {
    let mut q = TaskManager::new();
    assert!(q.fetch().is_none());
}

#[test]
fn smallest_pass_is_fetched_and_advanced() {
    let mut q = TaskManager::new();
    q.add(task(50, 2, 1));
    q.add(task(10, 4, 2));
    q.add(task(30, 8, 3));
    let t = q.fetch().unwrap();
    assert_eq!(t.heap_bottom, 2);
    assert_eq!(t.stride, 10 + BIGSTRIDE / 4);
    assert_eq!(q.len(), 2);
    let t = q.fetch().unwrap();
    assert_eq!(t.heap_bottom, 3);
    let t = q.fetch().unwrap();
    assert_eq!(t.heap_bottom, 1);
    assert!(q.fetch().is_none());
}

#[test]
fn equal_passes_come_out_in_queue_order() {
    let mut q = TaskManager::new();
    for tag in 0..4 {
        q.add(task(7, 16, tag));
    }
    for tag in 0..4 {
        assert_eq!(q.fetch().unwrap().heap_bottom, tag);
    }
}

#[test]
fn tasks_at_the_largest_pass_are_still_fetched() {
    let mut q = TaskManager::new();
    q.add(task(isize::MAX, 2 * BIGSTRIDE, 1));
    q.add(task(isize::MAX, 2 * BIGSTRIDE, 2));
    assert!(q.can_fetch());
    let t = q.fetch().unwrap();
    assert_eq!(t.heap_bottom, 1);
    assert_eq!(t.stride, isize::MAX);
    assert_eq!(q.len(), 1);
    q.add(task(isize::MAX - BIGSTRIDE, 1, 3));
    let t = q.fetch().unwrap();
    assert_eq!(t.heap_bottom, 3);
    assert_eq!(t.stride, isize::MAX);
}

#[test]
fn negative_priority_rounds_toward_zero() {
    let mut q = TaskManager::new();
    q.add(task(0, -3, 1));
    let t = q.fetch().unwrap();
    assert_eq!(t.stride, -(BIGSTRIDE / 3));
    assert_eq!(t.stride, BIGSTRIDE / -3);
}

#[test]
fn higher_priority_runs_more_often() {
    let mut q = TaskManager::new();
    q.add(task(0, 2, 1));
    q.add(task(0, 8, 2));
    let mut runs = [0usize; 3];
    for _ in 0..50 {
        let t = q.fetch().unwrap();
        runs[t.heap_bottom] += 1;
        q.add(t);
    }
    assert!(runs[2] > runs[1]);
    assert_eq!(runs[1] + runs[2], 50);
}

#[test]
fn can_fetch_checks_the_task_that_would_be_picked() {
    let mut q = TaskManager::new();
    assert!(q.can_fetch());
    q.add(task(10, 0, 1));
    assert!(!q.can_fetch());
    q.add(task(5, 2, 2));
    assert!(q.can_fetch());
    let t = q.fetch().unwrap();
    assert_eq!(t.heap_bottom, 2);
    assert!(!q.can_fetch());
    let mut q = TaskManager::new();
    q.add(task(isize::MAX - 1, 1, 3));
    assert!(!q.can_fetch());
}
