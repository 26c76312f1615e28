//! Task management: which task runs, which runs next, and what each task has used.
//!
//! The task list is walked round-robin: after the current task, the first `Ready`
//! task in list order (wrapping around, the current task last) runs next.
#[allow(clippy::module_inception)]
pub mod manager;
pub mod processor;
#[allow(clippy::module_inception)]
pub mod task;

pub use task::{brk_moved, break_allowed, requested_break, TaskControlBlock, TaskStatus};

use crate::config::{MAX_SYSCALL_NUM, PAGE_SIZE};
use crate::mm::{
    ceil_page, floor_page, map_range, permission_from_port, port_permission, range_mapped,
    range_unmapped, unmap_range, MapPermission, PhysPageNum, VirtAddr,
};
use vstd::prelude::*;

verus! {

/// How many steps forward, wrapping around a list of `n`, task `id` lies after task
/// `current` (the current task itself lies `n` steps on).
pub open spec fn cyclic_distance(current: int, id: int, n: int) -> int {
    if id > current {
        id - current
    } else {
        id + n - current
    }
}

/// `id` is a `Ready` task, and no `Ready` task lies closer after `current`.
pub open spec fn is_next_ready(tasks: Seq<TaskControlBlock>, current: int, id: int) -> bool {
    &&& 0 <= id < tasks.len()
    &&& tasks[id].task_status == TaskStatus::Ready
    &&& forall|j: int|
        0 <= j < tasks.len() && #[trigger] tasks[j].task_status == TaskStatus::Ready
            ==> cyclic_distance(current, id, tasks.len() as int) <= cyclic_distance(
            current,
            j,
            tasks.len() as int,
        )
}

/// No task of the list is `Ready`.
pub open spec fn none_ready(tasks: Seq<TaskControlBlock>) -> bool {
    forall|j: int| 0 <= j < tasks.len() ==> #[trigger] tasks[j].task_status != TaskStatus::Ready
}

/// `t` with its status set to `status`.
pub open spec fn with_status(t: TaskControlBlock, status: TaskStatus) -> TaskControlBlock {
    TaskControlBlock { task_status: status, ..t }
}

/// `t` once it is dispatched at `now_ms`: running, and its first running time
/// recorded if it had none.
pub open spec fn dispatched(t: TaskControlBlock, now_ms: usize) -> TaskControlBlock {
    TaskControlBlock {
        task_status: TaskStatus::Running,
        first_running_time: if t.first_running_time == 0 {
            now_ms
        } else {
            t.first_running_time
        },
        ..t
    }
}

/// `u` differs from `t` at most in its memory set.
pub open spec fn same_but_memory(t: TaskControlBlock, u: TaskControlBlock) -> bool {
    &&& u.task_status == t.task_status
    &&& u.syscall_times == t.syscall_times
    &&& u.first_running_time == t.first_running_time
    &&& u.stride == t.stride
    &&& u.priority == t.priority
    &&& u.heap_bottom == t.heap_bottom
    &&& u.program_brk == t.program_brk
}

/// What mapping pages `[s, e)` with `perm` leaves of task `t` as `u`, and that it
/// answers `r`: the pages are mapped if none of them was, else -1 and nothing changes.
pub open spec fn map_pages_outcome(
    t: TaskControlBlock,
    u: TaskControlBlock,
    s: int,
    e: int,
    perm: MapPermission,
    r: isize,
) -> bool {
    &&& same_but_memory(t, u)
    &&& range_unmapped(t.memory_set@, s, e) ==> r == 0 && u.memory_set@ == map_range(
        t.memory_set@,
        s,
        e,
        perm,
    )
    &&& !range_unmapped(t.memory_set@, s, e) ==> r == -1 && u.memory_set@ == t.memory_set@
}

/// What unmapping pages `[s, e)` leaves of task `t` as `u`, and that it answers `r`:
/// the pages are unmapped if all of them were mapped, else -1 and nothing changes.
pub open spec fn unmap_pages_outcome(
    t: TaskControlBlock,
    u: TaskControlBlock,
    s: int,
    e: int,
    r: isize,
) -> bool {
    &&& same_but_memory(t, u)
    &&& range_mapped(t.memory_set@, s, e) ==> r == 0 && u.memory_set@ == unmap_range(
        t.memory_set@,
        s,
        e,
    )
    &&& !range_mapped(t.memory_set@, s, e) ==> r == -1 && u.memory_set@ == t.memory_set@
}

/// What an mmap of `[start, end)` with protection `port` leaves of task `t` as `u`, and
/// that it answers `r`: the pages that cover the range, with the permission `port`
/// asks for.
pub open spec fn mmap_outcome(
    t: TaskControlBlock,
    u: TaskControlBlock,
    start: VirtAddr,
    end: VirtAddr,
    port: usize,
    r: isize,
) -> bool {
    map_pages_outcome(
        t,
        u,
        floor_page(start.0 as int),
        ceil_page(end.0 as int),
        port_permission(port),
        r,
    )
}

/// What an munmap of `[start, end)` leaves of task `t` as `u`, and that it answers `r`:
/// the pages that cover the range.
pub open spec fn munmap_outcome(
    t: TaskControlBlock,
    u: TaskControlBlock,
    start: VirtAddr,
    end: VirtAddr,
    r: isize,
) -> bool {
    unmap_pages_outcome(t, u, floor_page(start.0 as int), ceil_page(end.0 as int), r)
}

/// The physical address of `vir_addr`, whose page the page table maps to frame `ppn`.
pub fn trans_vir2phy(vir_addr: usize, ppn: PhysPageNum) -> (r: usize)
    requires
        ppn.0 * PAGE_SIZE + vir_addr % PAGE_SIZE <= usize::MAX,
    ensures
        r == ppn.0 * PAGE_SIZE + vir_addr % PAGE_SIZE,
{
    let va = VirtAddr(vir_addr);
    let offset = va.page_offset();
    ppn.addr_at(offset).0
}

/// `t` with one more call of system call `id` counted.
pub open spec fn counted(t: TaskControlBlock, id: int) -> TaskControlBlock {
    TaskControlBlock {
        syscall_times: vstd::array::spec_array_update(
            t.syscall_times,
            id,
            (t.syscall_times[id] + 1) as u32,
        ),
        ..t
    }
}

/// The tasks of the kernel and which of them is current.
pub struct TaskManager {
    num_app: usize,
    tasks: Vec<TaskControlBlock>,
    current_task: usize,
}

impl TaskManager {
    #[verifier::type_invariant]
    spec fn inv(self) -> bool {
        &&& self.tasks.len() == self.num_app
        &&& (self.num_app == 0 || self.current_task < self.num_app)
    }

    /// The tasks, in list order.
    pub closed spec fn tasks(&self) -> Seq<TaskControlBlock> {
        self.tasks@
    }

    /// The index of the current task.
    pub closed spec fn current(&self) -> int {
        self.current_task as int
    }

    /// Where there are tasks at all, the current one is one of them.
    pub open spec fn wf(&self) -> bool {
        self.tasks().len() == 0 || 0 <= self.current() < self.tasks().len()
    }

    /// A manager of `tasks`, with the first task current.
    pub fn new(tasks: Vec<TaskControlBlock>) -> (m: Self)
        ensures
            m.wf(),
            m.tasks() == tasks@,
            m.current() == 0,
    {
        let num_app = tasks.len();
        TaskManager { num_app, tasks, current_task: 0 }
    }

    /// The number of tasks.
    pub fn num_app(&self) -> (r: usize)
        ensures
            self.wf(),
            r == self.tasks().len(),
    {
        proof {
            use_type_invariant(self);
        }
        self.num_app
    }

    /// Task `id`.
    pub fn task(&self, id: usize) -> (r: &TaskControlBlock)
        requires
            id < self.tasks().len(),
        ensures
            self.wf(),
            *r == self.tasks()[id as int],
    {
        proof {
            use_type_invariant(self);
        }
        &self.tasks[id]
    }

    /// The index of the current task.
    pub fn current_task(&self) -> (r: usize)
        ensures
            self.wf(),
            r == self.current(),
    {
        proof {
            use_type_invariant(self);
        }
        self.current_task
    }

    /// Dispatches the first task at `now_ms`: it is running, and its first running time
    /// is recorded if it had none.
    pub fn run_first_task(&mut self, now_ms: usize)
        requires
            old(self).tasks().len() > 0,
        ensures
            final(self).wf(),
            final(self).tasks() == old(self).tasks().update(
                0,
                dispatched(old(self).tasks()[0], now_ms),
            ),
            final(self).current() == old(self).current(),
    {
        proof {
            use_type_invariant(&*self);
        }
        self.tasks[0].task_status = TaskStatus::Running;
        if self.tasks[0].first_running_time == 0 {
            self.tasks[0].first_running_time = now_ms;
        }
    }

    /// Marks the current task `Ready`.
    pub fn mark_current_suspended(&mut self)
        requires
            old(self).tasks().len() > 0,
        ensures
            final(self).wf(),
            final(self).tasks() == old(self).tasks().update(
                old(self).current(),
                with_status(old(self).tasks()[old(self).current()], TaskStatus::Ready),
            ),
            final(self).current() == old(self).current(),
    {
        proof {
            use_type_invariant(&*self);
        }
        let cur = self.current_task;
        self.tasks[cur].task_status = TaskStatus::Ready;
    }

    /// Marks the current task `Exited`.
    pub fn mark_current_exited(&mut self)
        requires
            old(self).tasks().len() > 0,
        ensures
            final(self).wf(),
            final(self).tasks() == old(self).tasks().update(
                old(self).current(),
                with_status(old(self).tasks()[old(self).current()], TaskStatus::Exited),
            ),
            final(self).current() == old(self).current(),
    {
        proof {
            use_type_invariant(&*self);
        }
        let cur = self.current_task;
        self.tasks[cur].task_status = TaskStatus::Exited;
    }

    /// The first `Ready` task after the current one, wrapping around the list, with the
    /// current task looked at last.
    pub fn find_next_task(&self) -> (r: Option<usize>)
        ensures
            self.wf(),
            match r {
                Some(id) => is_next_ready(self.tasks(), self.current(), id as int),
                None => none_ready(self.tasks()),
            },
    {
        proof {
            use_type_invariant(self);
        }
        let n = self.num_app;
        if n == 0 {
            return None;
        }
        let current = self.current_task;
        let mut id: usize = if current + 1 == n {
            0
        } else {
            current + 1
        };
        let mut k: usize = 0;
        while k < n
            invariant
                n == self.tasks@.len(),
                current == self.current_task,
                current < n,
                0 <= k <= n,
                k < n ==> id < n && cyclic_distance(current as int, id as int, n as int) == k + 1,
                forall|j: int|
                    0 <= j < n && cyclic_distance(current as int, j, n as int) <= k
                        ==> #[trigger] self.tasks@[j].task_status != TaskStatus::Ready,
            decreases n - k,
        {
            if self.tasks[id].task_status == TaskStatus::Ready {
                assert forall|j: int|
                    0 <= j < n && #[trigger] self.tasks@[j].task_status == TaskStatus::Ready
                        implies cyclic_distance(current as int, id as int, n as int)
                        <= cyclic_distance(current as int, j, n as int) by {}
                return Some(id);
            }
            id = if id + 1 == n {
                0
            } else {
                id + 1
            };
            k = k + 1;
        }
        assert forall|j: int| 0 <= j < n implies #[trigger] self.tasks@[j].task_status
            != TaskStatus::Ready by {
            assert(cyclic_distance(current as int, j, n as int) <= n);
        }
        None
    }

    /// Dispatches the next task: it becomes running and current, and its first running
    /// time is recorded if it had none. Gives back the previous and the new current
    /// task, or `None`, with nothing changed, where no task is ready.
    pub fn run_next_task(&mut self, now_ms: usize) -> (r: Option<(usize, usize)>)
        ensures
            final(self).wf(),
            match r {
                Some((prev, next)) => {
                    &&& prev == old(self).current()
                    &&& is_next_ready(old(self).tasks(), old(self).current(), next as int)
                    &&& final(self).current() == next
                    &&& final(self).tasks() == old(self).tasks().update(
                        next as int,
                        dispatched(old(self).tasks()[next as int], now_ms),
                    )
                },
                None => {
                    &&& none_ready(old(self).tasks())
                    &&& final(self).tasks() == old(self).tasks()
                    &&& final(self).current() == old(self).current()
                },
            },
    {
        proof {
            use_type_invariant(&*self);
        }
        match self.find_next_task() {
            Some(next) => {
                let current = self.current_task;
                self.tasks[next].task_status = TaskStatus::Running;
                self.current_task = next;
                if self.tasks[next].first_running_time == 0 {
                    self.tasks[next].first_running_time = now_ms;
                }
                Some((current, next))
            },
            None => None,
        }
    }

    /// Moves the current task's program break by `size`; see
    /// [`TaskControlBlock::change_program_brk`].
    pub fn change_current_program_brk(&mut self, size: i32) -> (r: Option<usize>)
        requires
            old(self).tasks().len() > 0,
            isize::MIN <= requested_break(old(self).tasks()[old(self).current()], size)
                <= isize::MAX,
        ensures
            final(self).wf(),
            final(self).current() == old(self).current(),
            final(self).tasks().len() == old(self).tasks().len(),
            forall|j: int|
                0 <= j < old(self).tasks().len() && j != old(self).current() ==> #[trigger] final(self).tasks()[j] == old(self).tasks()[j],
            ({
                let t = old(self).tasks()[old(self).current()];
                let u = final(self).tasks()[old(self).current()];
                &&& !break_allowed(t, size) ==> r == None::<usize> && u == t
                &&& break_allowed(t, size) ==> r == Some(t.program_brk) && u == brk_moved(t, size)
            }),
    {
        proof {
            use_type_invariant(&*self);
        }
        let cur = self.current_task;
        self.tasks[cur].change_program_brk(size)
    }

    /// Counts one more call of system call `syscall_id` by the current task.
    pub fn count_syscall(&mut self, syscall_id: usize)
        requires
            old(self).tasks().len() > 0,
            syscall_id < MAX_SYSCALL_NUM,
            old(self).tasks()[old(self).current()].syscall_times[syscall_id as int] < u32::MAX,
        ensures
            final(self).wf(),
            final(self).current() == old(self).current(),
            final(self).tasks() == old(self).tasks().update(
                old(self).current(),
                counted(old(self).tasks()[old(self).current()], syscall_id as int),
            ),
    {
        proof {
            use_type_invariant(&*self);
        }
        let cur = self.current_task;
        self.tasks[cur].syscall_times[syscall_id] += 1;
    }

    /// How many times the current task has made each system call.
    pub fn get_syscall_times(&self) -> (r: [u32; MAX_SYSCALL_NUM])
        requires
            self.tasks().len() > 0,
        ensures
            self.wf(),
            r == self.tasks()[self.current()].syscall_times,
    {
        proof {
            use_type_invariant(self);
        }
        let cur = self.current_task;
        self.tasks[cur].syscall_times
    }

    /// When the current task first ran.
    pub fn get_first_running_time(&self) -> (r: usize)
        requires
            self.tasks().len() > 0,
        ensures
            self.wf(),
            r == self.tasks()[self.current()].first_running_time,
    {
        proof {
            use_type_invariant(self);
        }
        let cur = self.current_task;
        self.tasks[cur].first_running_time
    }

    /// Maps the pages that cover `[start, end)` into the current task with the
    /// permission that `port` asks for; -1 where one of them is mapped already.
    pub fn do_memory_map(&mut self, start: VirtAddr, end: VirtAddr, port: usize) -> (r: isize)
        requires
            old(self).tasks().len() > 0,
            end.0 + PAGE_SIZE - 1 <= usize::MAX,
        ensures
            final(self).wf(),
            final(self).current() == old(self).current(),
            final(self).tasks().len() == old(self).tasks().len(),
            forall|j: int|
                0 <= j < old(self).tasks().len() && j != old(self).current() ==> #[trigger] final(self).tasks()[j] == old(self).tasks()[j],
            mmap_outcome(
                old(self).tasks()[old(self).current()],
                final(self).tasks()[old(self).current()],
                start,
                end,
                port,
                r,
            ),
    {
        proof {
            use_type_invariant(&*self);
        }
        let cur = self.current_task;
        let permission = permission_from_port(port);
        if self.tasks[cur].memory_set.insert_framed_area(start, end, permission) == -1 {
            return -1;
        }
        0
    }

    /// Unmaps the pages that cover `[start, end)` from the current task; -1 where one of
    /// them is not mapped.
    pub fn do_memory_unmap(&mut self, start: VirtAddr, end: VirtAddr) -> (r: isize)
        requires
            old(self).tasks().len() > 0,
            end.0 + PAGE_SIZE - 1 <= usize::MAX,
        ensures
            final(self).wf(),
            final(self).current() == old(self).current(),
            final(self).tasks().len() == old(self).tasks().len(),
            forall|j: int|
                0 <= j < old(self).tasks().len() && j != old(self).current() ==> #[trigger] final(self).tasks()[j] == old(self).tasks()[j],
            munmap_outcome(
                old(self).tasks()[old(self).current()],
                final(self).tasks()[old(self).current()],
                start,
                end,
                r,
            ),
    {
        proof {
            use_type_invariant(&*self);
        }
        let cur = self.current_task;
        if self.tasks[cur].memory_set.remove_by_given(start, end) == -1 {
            return -1;
        }
        0
    }
}

/// Suspends the current task and dispatches the next one (the suspended task itself
/// where no other is ready).
pub fn suspend_current_and_run_next(manager: &mut TaskManager, now_ms: usize) -> (r: Option<
    (usize, usize),
>)
    requires
        old(manager).tasks().len() > 0,
    ensures
        r is Some,
        ({
            let cur = old(manager).current();
            let suspended = old(manager).tasks().update(
                cur,
                with_status(old(manager).tasks()[cur], TaskStatus::Ready),
            );
            match r {
                Some((prev, next)) => {
                    &&& prev == cur
                    &&& is_next_ready(suspended, cur, next as int)
                    &&& final(manager).current() == next
                    &&& final(manager).tasks() == suspended.update(
                        next as int,
                        dispatched(suspended[next as int], now_ms),
                    )
                },
                None => false,
            }
        }),
{
    proof {
        use_type_invariant(&*manager);
    }
    manager.mark_current_suspended();
    let r = manager.run_next_task(now_ms);
    proof {
        let cur = old(manager).current();
        if r is None {
            assert(manager.tasks()[cur].task_status == TaskStatus::Ready);
        }
    }
    r
}

/// Marks the current task exited and dispatches the next one; `None` where no task is
/// left ready.
pub fn exit_current_and_run_next(manager: &mut TaskManager, now_ms: usize) -> (r: Option<
    (usize, usize),
>)
    requires
        old(manager).tasks().len() > 0,
    ensures
        ({
            let cur = old(manager).current();
            let exited = old(manager).tasks().update(
                cur,
                with_status(old(manager).tasks()[cur], TaskStatus::Exited),
            );
            match r {
                Some((prev, next)) => {
                    &&& prev == cur
                    &&& is_next_ready(exited, cur, next as int)
                    &&& final(manager).current() == next
                    &&& final(manager).tasks() == exited.update(
                        next as int,
                        dispatched(exited[next as int], now_ms),
                    )
                },
                None => {
                    &&& none_ready(exited)
                    &&& final(manager).tasks() == exited
                    &&& final(manager).current() == cur
                },
            }
        }),
{
    manager.mark_current_exited();
    manager.run_next_task(now_ms)
}

/// Only one task is the next ready task after `current`.
pub proof fn law_next_ready_unique(tasks: Seq<TaskControlBlock>, current: int, a: int, b: int)
    requires
        0 <= current < tasks.len(),
        is_next_ready(tasks, current, a),
        is_next_ready(tasks, current, b),
    ensures
        a == b,
{
    let n = tasks.len() as int;
    assert(tasks[b].task_status == TaskStatus::Ready);
    assert(tasks[a].task_status == TaskStatus::Ready);
    assert(cyclic_distance(current, a, n) == cyclic_distance(current, b, n));
}

/// Round robin: the current task is picked again only when no other task is ready.
pub proof fn law_current_runs_last(tasks: Seq<TaskControlBlock>, current: int, other: int)
    requires
        0 <= current < tasks.len(),
        0 <= other < tasks.len(),
        other != current,
        tasks[other].task_status == TaskStatus::Ready,
    ensures
        !is_next_ready(tasks, current, current),
{
    let n = tasks.len() as int;
    assert(cyclic_distance(current, other, n) < cyclic_distance(current, current, n));
}

/// Counting a call raises that call's count by one and leaves every other count and
/// field as it was.
pub proof fn law_counted(t: TaskControlBlock, id: int, other: int)
    requires
        0 <= id < MAX_SYSCALL_NUM,
        0 <= other < MAX_SYSCALL_NUM,
        other != id,
        t.syscall_times[id] < u32::MAX,
    ensures
        counted(t, id).syscall_times[id] == t.syscall_times[id] + 1,
        counted(t, id).syscall_times[other] == t.syscall_times[other],
        counted(t, id).memory_set == t.memory_set,
        counted(t, id).stride == t.stride,
        counted(t, id).task_status == t.task_status,
        counted(t, id).first_running_time == t.first_running_time,
{
    vstd::array::axiom_spec_array_update(t.syscall_times, id, (t.syscall_times[id] + 1) as u32);
}

/// Yielding hands the processor on: where another task is ready, the task that yields
/// is not the one dispatched next. When it is dispatched again later it is running.
pub proof fn law_yield_passes_on(
    tasks: Seq<TaskControlBlock>,
    c: int,
    d: int,
    next: int,
    now_ms: usize,
)
    requires
        0 <= c < tasks.len(),
        0 <= d < tasks.len(),
        d != c,
        tasks[d].task_status == TaskStatus::Ready,
        is_next_ready(tasks.update(c, with_status(tasks[c], TaskStatus::Ready)), c, next),
    ensures
        next != c,
        dispatched(tasks[c], now_ms).task_status == TaskStatus::Running,
{
    let suspended = tasks.update(c, with_status(tasks[c], TaskStatus::Ready));
    assert(suspended[d].task_status == TaskStatus::Ready);
    law_current_runs_last(suspended, c, d);
}

/// An exited task is never dispatched: only a ready task is the next ready task. In
/// particular the task that exits is not the one dispatched after it.
pub proof fn law_exited_never_dispatched(tasks: Seq<TaskControlBlock>, current: int, id: int, c: int)
    requires
        0 <= c < tasks.len(),
        tasks[c].task_status == TaskStatus::Exited,
        is_next_ready(tasks, current, id),
    ensures
        id != c,
{
}

/// Once a task's first running time is recorded (non-zero), nothing the kernel does to
/// the task changes it: dispatching, changing its status, counting its calls, moving
/// its break, or advancing its pass.
pub proof fn law_first_running_time_kept(
    t: TaskControlBlock,
    now_ms: usize,
    status: TaskStatus,
    id: int,
    size: i32,
)
    requires
        t.first_running_time != 0,
    ensures
        dispatched(t, now_ms).first_running_time == t.first_running_time,
        with_status(t, status).first_running_time == t.first_running_time,
        counted(t, id).first_running_time == t.first_running_time,
        brk_moved(t, size).first_running_time == t.first_running_time,
        manager::strided(t).first_running_time == t.first_running_time,
{
}

/// Steps forward from `c` to `x` around a list of `n`, as a remainder.
proof fn lemma_steps_mod(c: int, x: int, n: int)
    requires
        0 <= c < n,
        0 <= x < n,
        x != c,
    ensures
        (x - c) % n == cyclic_distance(c, x, n),
        0 < (x - c) % n < n,
{
    let d = x - c;
    if d > 0 {
        vstd::arithmetic::div_mod::lemma_small_mod(d as nat, n as nat);
    } else {
        vstd::arithmetic::div_mod::lemma_small_mod((d + n) as nat, n as nat);
        vstd::arithmetic::div_mod::lemma_mod_add_multiples_vanish(d, n);
    }
}

/// Round robin: the next ready task after `current` is ready, and it is the first ready
/// task in the order `current + 1, current + 2, ..., n - 1, 0, 1, ..., current`. Every
/// other ready task `j` lies at least as many steps on, counted as `(j - current) mod
/// n`; the current task is picked only when no other task is ready.
pub proof fn law_next_ready_is_first_after_current(
    tasks: Seq<TaskControlBlock>,
    current: int,
    id: int,
    j: int,
)
    requires
        0 <= current < tasks.len(),
        is_next_ready(tasks, current, id),
        0 <= j < tasks.len(),
        tasks[j].task_status == TaskStatus::Ready,
    ensures
        0 <= id < tasks.len(),
        tasks[id].task_status == TaskStatus::Ready,
        j != current ==> id != current && (id - current) % (tasks.len() as int) <= (j - current)
            % (tasks.len() as int),
{
    let n = tasks.len() as int;
    if j != current {
        law_current_runs_last(tasks, current, j);
        lemma_steps_mod(current, id, n);
        lemma_steps_mod(current, j, n);
    }
}

/// No task is ready exactly when `none_ready` says so.
pub proof fn law_none_ready_means_no_ready_task(tasks: Seq<TaskControlBlock>, j: int)
    requires
        none_ready(tasks),
        0 <= j < tasks.len(),
    ensures
        tasks[j].task_status != TaskStatus::Ready,
{
}

/// A dispatched task is running; its first running time is the dispatch time if it had
/// none, else kept; nothing else about it changes.
pub proof fn law_dispatched(t: TaskControlBlock, now_ms: usize)
    ensures
        dispatched(t, now_ms).task_status == TaskStatus::Running,
        t.first_running_time == 0 ==> dispatched(t, now_ms).first_running_time == now_ms,
        t.first_running_time != 0 ==> dispatched(t, now_ms).first_running_time
            == t.first_running_time,
        dispatched(t, now_ms).memory_set == t.memory_set,
        dispatched(t, now_ms).syscall_times == t.syscall_times,
        dispatched(t, now_ms).stride == t.stride,
        dispatched(t, now_ms).priority == t.priority,
        dispatched(t, now_ms).heap_bottom == t.heap_bottom,
        dispatched(t, now_ms).program_brk == t.program_brk,
        with_status(t, TaskStatus::Exited).task_status == TaskStatus::Exited,
        with_status(t, TaskStatus::Ready).task_status == TaskStatus::Ready,
        with_status(t, TaskStatus::Ready).first_running_time == t.first_running_time,
{
}

/// After a successful map of pages `[s, e)` with `perm`, every one of those pages is
/// mapped with exactly `perm`, and every other page is as it was.
pub proof fn law_mapped_pages_carry_permission(
    t: TaskControlBlock,
    u: TaskControlBlock,
    s: int,
    e: int,
    perm: MapPermission,
    v: usize,
)
    requires
        map_pages_outcome(t, u, s, e, perm, 0),
    ensures
        s <= v < e ==> u.memory_set@.dom().contains(v) && u.memory_set@[v] == perm,
        !(s <= v < e) ==> (u.memory_set@.dom().contains(v) == t.memory_set@.dom().contains(v)),
        !(s <= v < e) && t.memory_set@.dom().contains(v) ==> u.memory_set@[v]
            == t.memory_set@[v],
        forall|w: usize| s <= w < e ==> !#[trigger] t.memory_set@.dom().contains(w),
{
    crate::mm::law_map_range_pages(t.memory_set@, s, e, perm, v);
    crate::mm::law_range_unmapped_pages(t.memory_set@, s, e);
}

/// An unmap of pages `[s, e)` that succeeds found every one of them mapped; one that
/// answers -1 found some page of them unmapped and changed nothing.
pub proof fn law_unmap_needs_every_page(
    t: TaskControlBlock,
    u: TaskControlBlock,
    s: int,
    e: int,
    r: isize,
    v: usize,
)
    requires
        unmap_pages_outcome(t, u, s, e, r),
        s <= v < e,
    ensures
        r == 0 ==> t.memory_set@.dom().contains(v) && !u.memory_set@.dom().contains(v),
        !t.memory_set@.dom().contains(v) ==> r == -1 && u.memory_set@ == t.memory_set@,
{
    crate::mm::law_range_mapped_pages(t.memory_set@, s, e);
    crate::mm::law_unmap_range_pages(t.memory_set@, s, e, v);
}

/// Mapping or unmapping pages changes only the task's memory set: its status, call
/// counts, first running time, pass, priority and break stay as they were.
pub proof fn law_memory_ops_touch_only_memory(
    t: TaskControlBlock,
    u: TaskControlBlock,
    s: int,
    e: int,
    perm: MapPermission,
    r: isize,
)
    requires
        map_pages_outcome(t, u, s, e, perm, r) || unmap_pages_outcome(t, u, s, e, r),
    ensures
        u.task_status == t.task_status,
        u.syscall_times == t.syscall_times,
        u.first_running_time == t.first_running_time,
        u.stride == t.stride,
        u.priority == t.priority,
        u.heap_bottom == t.heap_bottom,
        u.program_brk == t.program_brk,
        r == 0 || r == -1,
{
}

} // verus!
