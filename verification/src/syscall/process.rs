//! Process management system calls: what each decides and changes in the task
//! manager, and what it answers.
use crate::config::{MAX_SYSCALL_NUM, PAGE_SIZE};
use crate::mm::{ceil_page, law_map_then_unmap, port_permission, MapPermission, VirtAddr};
use crate::task::{
    dispatched, exit_current_and_run_next, is_next_ready, map_pages_outcome, none_ready,
    suspend_current_and_run_next, unmap_pages_outcome, brk_moved, break_allowed, requested_break, with_status, TaskControlBlock, TaskManager,
    TaskStatus,
};
use vstd::prelude::*;

verus! {

/// A time as seconds and microseconds.
#[derive(Debug)]
pub struct TimeVal {
    pub sec: usize,
    pub usec: usize,
}

/// What a task is told about itself.
pub struct TaskInfo {
    /// Task status in its life cycle
    pub status: TaskStatus,
    /// How many times the task made each system call
    pub syscall_times: [u32; MAX_SYSCALL_NUM],
    /// Milliseconds since the task first ran
    pub time: usize,
}

/// The manager is as it was.
pub open spec fn unchanged(before: TaskManager, after: TaskManager) -> bool {
    after.tasks() == before.tasks() && after.current() == before.current()
}

/// Outside the current task, the manager is as it was.
pub open spec fn others_unchanged(before: TaskManager, after: TaskManager) -> bool {
    &&& after.current() == before.current()
    &&& after.tasks().len() == before.tasks().len()
    &&& forall|j: int|
        0 <= j < before.tasks().len() && j != before.current() ==> #[trigger] after.tasks()[j]
            == before.tasks()[j]
}

/// An mmap request is well-formed: `start` is page aligned, and `port` asks for some
/// of read, write and execute and for nothing else.
pub open spec fn mmap_args_valid(start: usize, port: usize) -> bool {
    start % PAGE_SIZE == 0 && 1 <= port <= 7
}

/// The page-aligned end of an area of `len` bytes from `start`.
pub open spec fn area_end(start: usize, len: usize) -> int {
    ceil_page(start + len) * PAGE_SIZE
}

/// The protection word asks for nothing, or for something besides read, write and
/// execute.
fn port_invalid(port: usize) -> (r: bool)
    ensures
        r == !(1 <= port <= 7),
{
    let r = (port & 0x7 == 0) || (port & !0x7 != 0);
    proof {
        assert(r == !(1 <= port <= 7)) by (bit_vector)
            requires
                r == ((port & 7 == 0) || (port & !7usize != 0)),
        ;
    }
    r
}

/// The page-aligned end of the area of `len` bytes that starts at `start`.
fn aligned_end(start: usize, len: usize) -> (r: VirtAddr)
    requires
        start + len + PAGE_SIZE - 1 <= usize::MAX,
    ensures
        r.0 == area_end(start, len),
        ceil_page(r.0 as int) == ceil_page(start + len),
{
    let end = VirtAddr(start + len).ceil();
    proof {
        let c = ceil_page(start + len);
        let x = start + len;
        assert(c * 4096 <= x + 4095 && c * 4096 + 4095 <= x + 8190 && ceil_page(c * 4096) == c)
            by (nonlinear_arith)
            requires
                c == (x + 4095) / 4096,
                x >= 0,
        ;
        crate::mm::lemma_page_shift(end.0);
    }
    VirtAddr::from(end)
}

/// The number of bytes that an mmap of `len` bytes at `start` covers once its end is
/// rounded up to a page boundary; the free memory the request needs.
pub fn mmap_bytes(start: usize, len: usize) -> (r: usize)
    requires
        start + len + PAGE_SIZE - 1 <= usize::MAX,
    ensures
        r == area_end(start, len) - start,
{
    let ved = aligned_end(start, len);
    proof {
        let x = start + len;
        let c = ceil_page(x);
        assert(c * 4096 >= x) by (nonlinear_arith)
            requires
                c == (x + 4095) / 4096,
                x >= 0,
        ;
    }
    ved.0 - start
}

/// The current task exits and the next ready task is dispatched. Gives back the
/// exiting and the dispatched task, or `None` where no task is left ready.
pub fn sys_exit(manager: &mut TaskManager, _exit_code: i32, now_ms: usize) -> (r: Option<
    (usize, usize),
>)
    requires
        old(manager).tasks().len() > 0,
    ensures
        ({
            let cur = old(manager).current();
            let exited = old(manager).tasks().update(
                cur,
                with_status(old(manager).tasks()[cur], TaskStatus::Exited),
            );
            match r {
                Some((prev, next)) => {
                    &&& prev == cur
                    &&& is_next_ready(exited, cur, next as int)
                    &&& final(manager).current() == next
                    &&& final(manager).tasks() == exited.update(
                        next as int,
                        dispatched(exited[next as int], now_ms),
                    )
                },
                None => {
                    &&& none_ready(exited)
                    &&& final(manager).tasks() == exited
                    &&& final(manager).current() == cur
                },
            }
        }),
{
    exit_current_and_run_next(manager, now_ms)
}

/// The current task gives up the processor: it becomes ready, and the next ready task
/// (itself where no other is ready) is dispatched. Answers 0, with the task switched
/// from and the task switched to.
pub fn sys_yield(manager: &mut TaskManager, now_ms: usize) -> (r: (isize, (usize, usize)))
    requires
        old(manager).tasks().len() > 0,
    ensures
        r.0 == 0,
        ({
            let cur = old(manager).current();
            let suspended = old(manager).tasks().update(
                cur,
                with_status(old(manager).tasks()[cur], TaskStatus::Ready),
            );
            let (prev, next) = r.1;
            &&& prev == cur
            &&& is_next_ready(suspended, cur, next as int)
            &&& final(manager).current() == next
            &&& final(manager).tasks() == suspended.update(
                next as int,
                dispatched(suspended[next as int], now_ms),
            )
        }),
{
    let switch = suspend_current_and_run_next(manager, now_ms);
    (0, switch.unwrap())
}

/// The time `time_us` microseconds after boot, as whole seconds and the microseconds
/// within the second.
pub fn sys_get_time(time_us: usize) -> (r: TimeVal)
    ensures
        r.sec == time_us / 1_000_000,
        r.usec == time_us % 1_000_000,
        r.usec < 1_000_000,
        r.sec * 1_000_000 + r.usec == time_us,
{
    let sec = time_us / 1_000_000;
    let usec = time_us % 1_000_000;
    TimeVal { sec: sec, usec: usec }
}

/// What the current task is told about itself at time `now_ms`: it is running, its
/// system call counts, and the milliseconds since it first ran.
pub fn sys_task_info(manager: &TaskManager, now_ms: usize) -> (r: TaskInfo)
    requires
        manager.tasks().len() > 0,
        now_ms >= manager.tasks()[manager.current()].first_running_time,
    ensures
        r.status == TaskStatus::Running,
        r.syscall_times == manager.tasks()[manager.current()].syscall_times,
        r.time == now_ms - manager.tasks()[manager.current()].first_running_time,
{
    let status = TaskStatus::Running;
    let syscall_times = manager.get_syscall_times();
    let time = now_ms - manager.get_first_running_time();
    TaskInfo { status: status, syscall_times: syscall_times, time: time }
}

/// Maps `len` bytes from `start` into the current task with protection `port`, given
/// whether enough free memory is left for the area. -1, with nothing changed, where
/// the request is ill-formed, memory is short, or a page of the area is mapped
/// already; else 0.
pub fn sys_mmap(
    manager: &mut TaskManager,
    start: usize,
    len: usize,
    port: usize,
    memory_available: bool,
) -> (r: isize)
    requires
        old(manager).tasks().len() > 0,
        mmap_args_valid(start, port) ==> start + len + PAGE_SIZE - 1 <= usize::MAX,
    ensures
        !mmap_args_valid(start, port) ==> r == -1 && unchanged(*old(manager), *final(manager)),
        mmap_args_valid(start, port) && !memory_available ==> r == -1 && unchanged(
            *old(manager),
            *final(manager),
        ),
        mmap_args_valid(start, port) && memory_available ==> {
            &&& others_unchanged(*old(manager), *final(manager))
            &&& map_pages_outcome(
                old(manager).tasks()[old(manager).current()],
                final(manager).tasks()[old(manager).current()],
                (start / PAGE_SIZE) as int,
                ceil_page(start + len),
                port_permission(port),
                r,
            )
        },
{
    let vst = VirtAddr(start);
    if vst.page_offset() != 0 {
        return -1;
    }
    if port_invalid(port) {
        return -1;
    }
    let ved = aligned_end(start, len);
    if !memory_available {
        return -1;
    }
    if manager.do_memory_map(vst, ved, port) == -1 {
        return -1;
    }
    0
}

/// Unmaps `len` bytes from `start` from the current task. -1, with nothing changed,
/// where `start` is not page aligned or a page of the area is not mapped; else 0.
pub fn sys_munmap(manager: &mut TaskManager, start: usize, len: usize) -> (r: isize)
    requires
        old(manager).tasks().len() > 0,
        start % PAGE_SIZE == 0 ==> start + len + PAGE_SIZE - 1 <= usize::MAX,
    ensures
        start % PAGE_SIZE != 0 ==> r == -1 && unchanged(*old(manager), *final(manager)),
        start % PAGE_SIZE == 0 ==> {
            &&& others_unchanged(*old(manager), *final(manager))
            &&& unmap_pages_outcome(
                old(manager).tasks()[old(manager).current()],
                final(manager).tasks()[old(manager).current()],
                (start / PAGE_SIZE) as int,
                ceil_page(start + len),
                r,
            )
        },
{
    let vst = VirtAddr(start);
    if vst.page_offset() != 0 {
        return -1;
    }
    let ved = aligned_end(start, len);
    if manager.do_memory_unmap(vst, ved) == -1 {
        return -1;
    }
    0
}

/// Moves the current task's program break by `size` bytes. Answers the old break, or
/// -1, with nothing changed, where the break would fall below the heap's bottom.
pub fn sys_sbrk(manager: &mut TaskManager, size: i32) -> (r: isize)
    requires
        old(manager).tasks().len() > 0,
        isize::MIN <= requested_break(old(manager).tasks()[old(manager).current()], size)
            <= isize::MAX,
    ensures
        others_unchanged(*old(manager), *final(manager)),
        ({
            let t = old(manager).tasks()[old(manager).current()];
            let u = final(manager).tasks()[old(manager).current()];
            &&& !break_allowed(t, size) ==> r == -1 && u == t
            &&& break_allowed(t, size) ==> r == (t.program_brk as isize) && u == brk_moved(t, size)
        }),
{
    if let Some(old_brk) = manager.change_current_program_brk(size) {
        old_brk as isize
    } else {
        -1
    }
}

/// An munmap of exactly the area that a successful mmap mapped succeeds and gives the
/// task back the address space it had before the mmap.
pub proof fn law_mmap_then_munmap(
    before: TaskControlBlock,
    mapped: TaskControlBlock,
    after: TaskControlBlock,
    s: int,
    e: int,
    perm: MapPermission,
    r_map: isize,
    r_unmap: isize,
)
    requires
        map_pages_outcome(before, mapped, s, e, perm, r_map),
        r_map == 0,
        unmap_pages_outcome(mapped, after, s, e, r_unmap),
    ensures
        r_unmap == 0,
        after.memory_set@ == before.memory_set@,
{
    law_map_then_unmap(before.memory_set@, s, e, perm);
}

/// An mmap request is well-formed exactly when `start` has no page offset and the
/// protection word has some of its three low bits set and no other bit.
pub proof fn law_mmap_args(start: usize, port: usize)
    ensures
        mmap_args_valid(start, port) <==> (start % 4096 == 0 && port & 7 != 0 && port & !7usize
            == 0),
{
    assert((1 <= port <= 7) <==> (port & 7 != 0 && port & !7usize == 0)) by (bit_vector);
}

/// The end of an mmap area is the first page boundary at or past `start + len`.
pub proof fn law_area_end(start: usize, len: usize)
    ensures
        area_end(start, len) % 4096 == 0,
        start + len <= area_end(start, len) < start + len + 4096,
{
    let x = start + len;
    let c = (x + 4095) / 4096;
    assert(c * 4096 % 4096 == 0 && x <= c * 4096 < x + 4096) by (nonlinear_arith)
        requires
            c == (x + 4095) / 4096,
            x >= 0,
    ;
}

} // verus!
