use os::mm::{MemorySet, VirtPageNum};
use os::syscall::process::{
    mmap_bytes, sys_exit, sys_get_time, sys_mmap, sys_munmap, sys_sbrk, sys_task_info, sys_yield,
};
use os::task::{TaskControlBlock, TaskManager, TaskStatus};

fn manager(n: usize) -> TaskManager {
    let mut tasks = Vec::new();
    for i in 0..n {
        let mut t = TaskControlBlock::new(MemorySet::new_bare(), 0x8000);
        if i == 0 {
            t.task_status = TaskStatus::Running;
        }
        tasks.push(t);
    }
    TaskManager::new(tasks)
}

#[test]
fn get_time_splits_the_clock() {
    let tv = sys_get_time(2_500_123);
    assert_eq!(tv.sec, 2);
    assert_eq!(tv.usec, 500_123);
    let tv = sys_get_time(999_999);
    assert_eq!(tv.sec, 0);
    assert_eq!(tv.usec, 999_999);
}

#[test]
fn task_info_reports_running_counts_and_age() {
    let mut m = manager(2);
    m.run_next_task(100);
    m.count_syscall(410);
    let info = sys_task_info(&m, 130);
    assert_eq!(info.status, TaskStatus::Running);
    assert_eq!(info.syscall_times[410], 1);
    assert_eq!(info.time, 30);
}

#[test]
fn mmap_bytes_rounds_the_end_up() {
    assert_eq!(mmap_bytes(0, 1), 4096);
    assert_eq!(mmap_bytes(4096, 8192), 8192);
    assert_eq!(mmap_bytes(4096, 0), 0);
}

#[test]
fn mmap_refuses_ill_formed_requests() {
    let mut m = manager(1);
    assert_eq!(sys_mmap(&mut m, 0x1001, 4096, 1, true), -1);
    assert_eq!(sys_mmap(&mut m, 0x1000, 4096, 0, true), -1);
    assert_eq!(sys_mmap(&mut m, 0x1000, 4096, 8, true), -1);
    assert_eq!(sys_mmap(&mut m, 0x1000, 4096, 9, true), -1);
    assert_eq!(sys_mmap(&mut m, 0x1000, 4096, 3, false), -1);
    assert!(!m.task(0).memory_set.is_mapped(VirtPageNum(1)));
}

#[test]
fn mmap_maps_whole_pages_once() {
    let mut m = manager(1);
    assert_eq!(sys_mmap(&mut m, 0x1000, 4097, 3, true), 0);
    assert!(m.task(0).memory_set.is_mapped(VirtPageNum(1)));
    assert!(m.task(0).memory_set.is_mapped(VirtPageNum(2)));
    assert!(!m.task(0).memory_set.is_mapped(VirtPageNum(3)));
    assert_eq!(sys_mmap(&mut m, 0x2000, 10, 1, true), -1);
    assert_eq!(sys_mmap(&mut m, 0x3000, 10, 1, true), 0);
}

#[test]
fn munmap_needs_every_page_mapped() {
    let mut m = manager(1);
    assert_eq!(sys_mmap(&mut m, 0x1000, 8192, 1, true), 0);
    assert_eq!(sys_munmap(&mut m, 0x1001, 4096), -1);
    assert_eq!(sys_munmap(&mut m, 0x1000, 3 * 4096), -1);
    assert!(m.task(0).memory_set.is_mapped(VirtPageNum(1)));
    assert_eq!(sys_munmap(&mut m, 0x1000, 8192), 0);
    assert!(!m.task(0).memory_set.is_mapped(VirtPageNum(1)));
    assert!(!m.task(0).memory_set.is_mapped(VirtPageNum(2)));
    assert_eq!(sys_munmap(&mut m, 0x1000, 1), -1);
}

#[test]
fn mmap_then_munmap_restores_the_address_space() {
    let mut m = manager(1);
    assert_eq!(sys_mmap(&mut m, 0x4000, 4096, 7, true), 0);
    assert_eq!(sys_munmap(&mut m, 0x4000, 4096), 0);
    assert_eq!(sys_mmap(&mut m, 0x4000, 4096, 7, true), 0);
}

#[test]
fn sbrk_answers_the_old_break() {
    let mut m = manager(1);
    assert_eq!(sys_sbrk(&mut m, 16), 0x8000);
    assert_eq!(sys_sbrk(&mut m, -8), 0x8010);
    assert_eq!(sys_sbrk(&mut m, -9), -1);
    assert_eq!(m.task(0).program_brk, 0x8008);
}

#[test]
fn yield_answers_zero_and_switches() {
    let mut m = manager(3);
    assert_eq!(sys_yield(&mut m, 10), (0, (0, 1)));
    assert_eq!(m.task(0).task_status, TaskStatus::Ready);
    assert_eq!(m.current_task(), 1);
}

#[test]
fn exit_switches_to_the_next_task() {
    let mut m = manager(2);
    assert_eq!(sys_exit(&mut m, 0, 10), Some((0, 1)));
    assert_eq!(m.task(0).task_status, TaskStatus::Exited);
    assert_eq!(sys_exit(&mut m, 0, 11), None);
}

#[test]
fn sbrk_of_nothing_answers_the_moved_break() {
    let mut m = manager(1);
    assert_eq!(sys_sbrk(&mut m, 100), 0x8000);
    assert_eq!(sys_sbrk(&mut m, 0), 0x8000 + 100);
    assert_eq!(sys_sbrk(&mut m, 0), 0x8000 + 100);
}
