use os::mm::{MemorySet, PhysPageNum, VirtAddr, VirtPageNum};
use os::task::task::DEFAULT_PRIORITY;
use os::task::{
    exit_current_and_run_next, suspend_current_and_run_next, trans_vir2phy, TaskControlBlock,
    TaskManager, TaskStatus,
};

fn task_with(status: TaskStatus) -> TaskControlBlock {
    let mut t = TaskControlBlock::new(MemorySet::new_bare(), 0x10000);
    t.task_status = status;
    t
}

fn manager(statuses: &[TaskStatus]) -> TaskManager {
    TaskManager::new(statuses.iter().map(|s| task_with(*s)).collect())
}

#[test]
fn new_task_block() {
    let t = TaskControlBlock::new(MemorySet::new_bare(), 0x2000);
    assert_eq!(t.task_status, TaskStatus::Ready);
    assert!(t.syscall_times.iter().all(|c| *c == 0));
    assert_eq!(t.first_running_time, 0);
    assert_eq!(t.stride, 0);
    assert_eq!(t.priority, DEFAULT_PRIORITY);
    assert_eq!(t.heap_bottom, 0x2000);
    assert_eq!(t.program_brk, 0x2000);
}

#[test]
fn next_task_is_the_first_ready_after_current() {
    let m = manager(&[TaskStatus::Running, TaskStatus::Exited, TaskStatus::Ready, TaskStatus::Ready]);
    assert_eq!(m.find_next_task(), Some(2));
}

#[test]
fn next_task_wraps_around() {
    let mut m = manager(&[TaskStatus::Ready, TaskStatus::Ready, TaskStatus::Ready]);
    assert_eq!(m.run_next_task(5), Some((0, 1)));
    assert_eq!(m.run_next_task(6), Some((1, 2)));
    // tasks 1 and 2 are running now; only task 0 is ready
    assert_eq!(m.find_next_task(), Some(0));
}

#[test]
fn current_task_runs_again_only_when_alone() {
    let m = manager(&[TaskStatus::Ready, TaskStatus::Exited, TaskStatus::Exited]);
    assert_eq!(m.current_task(), 0);
    assert_eq!(m.find_next_task(), Some(0));
}

#[test]
fn no_ready_task() {
    let mut m = manager(&[TaskStatus::Running, TaskStatus::Exited]);
    assert_eq!(m.find_next_task(), None);
    assert_eq!(m.run_next_task(1), None);
    assert_eq!(m.current_task(), 0);
    assert_eq!(m.task(0).task_status, TaskStatus::Running);
}

#[test]
fn empty_manager_has_no_next_task() {
    let m = TaskManager::new(Vec::new());
    assert_eq!(m.num_app(), 0);
    assert_eq!(m.find_next_task(), None);
}

#[test]
fn run_next_task_records_first_running_time_once() {
    let mut m = manager(&[TaskStatus::Running, TaskStatus::Ready]);
    assert_eq!(m.run_next_task(100), Some((0, 1)));
    assert_eq!(m.current_task(), 1);
    assert_eq!(m.task(1).task_status, TaskStatus::Running);
    assert_eq!(m.task(1).first_running_time, 100);
    m.mark_current_suspended();
    assert_eq!(m.task(1).task_status, TaskStatus::Ready);
    // task 0 is still marked running, so task 1 is dispatched again
    assert_eq!(m.run_next_task(200), Some((1, 1)));
    assert_eq!(m.task(1).first_running_time, 100);
}

#[test]
fn run_first_task_marks_task_zero_running() {
    let mut m = manager(&[TaskStatus::Ready, TaskStatus::Ready]);
    m.run_first_task(1000);
    assert_eq!(m.task(0).task_status, TaskStatus::Running);
    assert_eq!(m.task(0).first_running_time, 1000);
    assert_eq!(m.task(1).task_status, TaskStatus::Ready);
    assert_eq!(m.current_task(), 0);
}

#[test]
fn mark_current_exited() {
    let mut m = manager(&[TaskStatus::Running, TaskStatus::Ready]);
    m.mark_current_exited();
    assert_eq!(m.task(0).task_status, TaskStatus::Exited);
    assert_eq!(m.task(1).task_status, TaskStatus::Ready);
}

#[test]
fn suspend_switches_to_next_ready() {
    let mut m = manager(&[TaskStatus::Running, TaskStatus::Ready]);
    assert_eq!(suspend_current_and_run_next(&mut m, 9), Some((0, 1)));
    assert_eq!(m.task(0).task_status, TaskStatus::Ready);
    assert_eq!(m.task(1).task_status, TaskStatus::Running);
    assert_eq!(m.current_task(), 1);
}

#[test]
fn suspend_of_lone_task_resumes_it() {
    let mut m = manager(&[TaskStatus::Running]);
    assert_eq!(suspend_current_and_run_next(&mut m, 3), Some((0, 0)));
    assert_eq!(m.task(0).task_status, TaskStatus::Running);
    assert_eq!(m.task(0).first_running_time, 3);
}

#[test]
fn exit_of_last_task_leaves_nothing_to_run() {
    let mut m = manager(&[TaskStatus::Running, TaskStatus::Exited]);
    assert_eq!(exit_current_and_run_next(&mut m, 3), None);
    assert_eq!(m.task(0).task_status, TaskStatus::Exited);
}

#[test]
fn count_syscall_counts_only_that_call() {
    let mut m = manager(&[TaskStatus::Running]);
    m.count_syscall(64);
    m.count_syscall(64);
    m.count_syscall(169);
    let times = m.get_syscall_times();
    assert_eq!(times[64], 2);
    assert_eq!(times[169], 1);
    assert_eq!(times.iter().map(|c| *c as u64).sum::<u64>(), 3);
}

#[test]
fn program_break_moves_within_the_heap() {
    let mut m = manager(&[TaskStatus::Running]);
    assert_eq!(m.change_current_program_brk(0x100), Some(0x10000));
    assert_eq!(m.task(0).program_brk, 0x10100);
    assert_eq!(m.change_current_program_brk(-0x80), Some(0x10100));
    assert_eq!(m.task(0).program_brk, 0x10080);
    assert_eq!(m.change_current_program_brk(-0x100), None);
    assert_eq!(m.task(0).program_brk, 0x10080);
}

#[test]
fn memory_map_and_unmap_of_current_task() {
    let mut m = manager(&[TaskStatus::Running, TaskStatus::Ready]);
    assert_eq!(m.do_memory_map(VirtAddr(0x1000), VirtAddr(0x3000), 3), 0);
    assert!(m.task(0).memory_set.is_mapped(VirtPageNum(1)));
    assert!(m.task(0).memory_set.is_mapped(VirtPageNum(2)));
    assert_eq!(m.task(0).memory_set.permission(VirtPageNum(2)).map(|p| p.bits()), Some(2 | 4 | 16));
    assert!(!m.task(1).memory_set.is_mapped(VirtPageNum(1)));
    assert_eq!(m.do_memory_map(VirtAddr(0x2000), VirtAddr(0x4000), 1), -1);
    assert!(!m.task(0).memory_set.is_mapped(VirtPageNum(3)));
    assert_eq!(m.do_memory_unmap(VirtAddr(0x1000), VirtAddr(0x4000)), -1);
    assert_eq!(m.do_memory_unmap(VirtAddr(0x1000), VirtAddr(0x3000)), 0);
    assert!(!m.task(0).memory_set.is_mapped(VirtPageNum(1)));
}

#[test]
fn first_running_time_of_current_task() {
    let mut m = manager(&[TaskStatus::Running, TaskStatus::Ready]);
    m.run_next_task(77);
    assert_eq!(m.get_first_running_time(), 77);
}

#[test]
fn physical_address_keeps_the_page_offset() {
    assert_eq!(trans_vir2phy(0x1234, PhysPageNum(0x80)), 0x80 * 4096 + 0x234);
    assert_eq!(trans_vir2phy(0x5000, PhysPageNum(1)), 4096);
}

#[test]
fn first_task_time_counts_from_its_first_run() {
    let mut m = manager(&[TaskStatus::Ready, TaskStatus::Ready]);
    m.run_first_task(1000);
    assert_eq!(os::syscall::process::sys_task_info(&m, 1000).time, 0);
    assert_eq!(suspend_current_and_run_next(&mut m, 1500), Some((0, 1)));
    assert_eq!(suspend_current_and_run_next(&mut m, 2000), Some((1, 0)));
    assert_eq!(m.task(0).first_running_time, 1000);
    assert_eq!(os::syscall::process::sys_task_info(&m, 2500).time, 1500);
}

#[test]
fn yielding_task_hands_on_and_runs_again_later() {
    let mut m = manager(&[TaskStatus::Running, TaskStatus::Exited, TaskStatus::Ready]);
    assert_eq!(suspend_current_and_run_next(&mut m, 10), Some((0, 2)));
    assert_eq!(m.task(0).task_status, TaskStatus::Ready);
    assert_eq!(suspend_current_and_run_next(&mut m, 20), Some((2, 0)));
    assert_eq!(m.task(0).task_status, TaskStatus::Running);
    assert_eq!(m.current_task(), 0);
}

#[test]
fn exited_task_is_never_dispatched_again() {
    let mut m = manager(&[TaskStatus::Running, TaskStatus::Ready, TaskStatus::Ready]);
    assert_eq!(exit_current_and_run_next(&mut m, 1), Some((0, 1)));
    for now in 2..10 {
        let (_, next) = suspend_current_and_run_next(&mut m, now).unwrap();
        assert_ne!(next, 0);
        assert_eq!(m.task(0).task_status, TaskStatus::Exited);
    }
}
