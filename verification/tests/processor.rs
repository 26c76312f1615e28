use os::mm::{MemorySet, VirtAddr, VirtPageNum};
use os::task::manager::TaskManager;
use os::task::processor::{run_tasks, Processor};
use os::task::{TaskControlBlock, TaskStatus};

fn task(stride: isize, tag: usize) -> TaskControlBlock {
    let mut t = TaskControlBlock::new(MemorySet::new_bare(), tag);
    t.stride = stride;
    t
}

#[test]
fn new_processor_runs_nothing() {
    let mut p = Processor::new();
    assert!(p.current().is_none());
    assert!(p.take_current().is_none());
}

#[test]
fn run_tasks_dispatches_the_smallest_pass() {
    let mut p = Processor::new();
    let mut q = TaskManager::new();
    q.add(task(5, 1));
    q.add(task(3, 2));
    assert!(run_tasks(&mut p, &mut q, 42));
    let cur = p.current().unwrap();
    assert_eq!(cur.heap_bottom, 2);
    assert_eq!(cur.task_status, TaskStatus::Running);
    assert_eq!(p.get_first_time_called(), 42);
    assert_eq!(q.len(), 1);
    let t = p.take_current().unwrap();
    assert_eq!(t.heap_bottom, 2);
    assert!(p.current().is_none());
}

#[test]
fn run_tasks_with_nothing_to_run() {
    let mut p = Processor::new();
    let mut q = TaskManager::new();
    assert!(!run_tasks(&mut p, &mut q, 1));
    assert!(p.current().is_none());
}

#[test]
fn first_time_called_is_kept() {
    let mut p = Processor::new();
    let mut q = TaskManager::new();
    let mut t = task(0, 1);
    t.first_running_time = 9;
    q.add(t);
    assert!(run_tasks(&mut p, &mut q, 42));
    assert_eq!(p.get_first_time_called(), 9);
}

#[test]
fn current_task_syscalls_priority_and_memory() {
    let mut p = Processor::new();
    let mut q = TaskManager::new();
    q.add(task(0, 1));
    assert!(run_tasks(&mut p, &mut q, 1));
    p.count_syscall(93);
    assert_eq!(p.get_sycall_times()[93], 1);
    assert_eq!(p.set_prio(5), 5);
    assert_eq!(p.current().unwrap().priority, 5);
    assert_eq!(p.do_memory_map(VirtAddr(0), VirtAddr(4096), 4), 0);
    assert_eq!(p.do_memory_map(VirtAddr(0), VirtAddr(4096), 4), -1);
    assert!(p.current().unwrap().memory_set.is_mapped(VirtPageNum(0)));
    assert_eq!(p.do_memory_unmap(VirtPageNum(0), VirtPageNum(2)), -1);
    assert_eq!(p.do_memory_unmap(VirtPageNum(0), VirtPageNum(1)), 0);
    assert!(!p.current().unwrap().memory_set.is_mapped(VirtPageNum(0)));
}
