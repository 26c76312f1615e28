//! The control block of one task.
use crate::config::MAX_SYSCALL_NUM;
use crate::mm::MemorySet;
use vstd::prelude::*;

verus! {

/// Where a task stands in its life cycle.
#[derive(Clone, Copy, Debug, PartialEq, Eq, Structural)]
pub enum TaskStatus {
    UnInit,
    Ready,
    Running,
    Exited,
}

/// The break that moving `t`'s break by `size` asks for, reckoned in `isize`.
pub open spec fn requested_break(t: TaskControlBlock, size: i32) -> int {
    (t.program_brk as isize) + size
}

/// The requested break stays at or above the heap's bottom, reckoned in `isize`.
pub open spec fn break_allowed(t: TaskControlBlock, size: i32) -> bool {
    requested_break(t, size) >= (t.heap_bottom as isize)
}

/// `t` with its break moved by `size`.
pub open spec fn brk_moved(t: TaskControlBlock, size: i32) -> TaskControlBlock {
    TaskControlBlock { program_brk: requested_break(t, size) as usize, ..t }
}

/// The priority a task starts with.
pub const DEFAULT_PRIORITY: isize = 16;

/// What the kernel keeps of one task. The pages of the heap between `heap_bottom` and
/// `program_brk` are not recorded in `memory_set`: moving the break only moves the
/// break.
pub struct TaskControlBlock {
    pub task_status: TaskStatus,
    pub memory_set: MemorySet,
    pub syscall_times: [u32; MAX_SYSCALL_NUM],
    pub first_running_time: usize,
    pub stride: isize,
    pub priority: isize,
    pub heap_bottom: usize,
    pub program_brk: usize,
}

impl TaskControlBlock {
    /// A ready task over `memory_set` whose heap starts, empty, at `heap_bottom`.
    pub fn new(memory_set: MemorySet, heap_bottom: usize) -> (t: Self)
        ensures
            t.task_status == TaskStatus::Ready,
            t.memory_set == memory_set,
            forall|i: int| 0 <= i < MAX_SYSCALL_NUM ==> t.syscall_times[i] == 0,
            t.first_running_time == 0,
            t.stride == 0,
            t.priority == DEFAULT_PRIORITY,
            t.heap_bottom == heap_bottom,
            t.program_brk == heap_bottom,
    {
        TaskControlBlock {
            task_status: TaskStatus::Ready,
            memory_set,
            syscall_times: [0u32; MAX_SYSCALL_NUM],
            first_running_time: 0,
            stride: 0,
            priority: DEFAULT_PRIORITY,
            heap_bottom,
            program_brk: heap_bottom,
        }
    }

    /// Moves the program break by `size` bytes and hands back the old break; `None`,
    /// with nothing changed, where the break would fall below the heap's bottom. Both
    /// are compared as `isize`.
    pub fn change_program_brk(&mut self, size: i32) -> (r: Option<usize>)
        requires
            isize::MIN <= requested_break(*old(self), size) <= isize::MAX,
        ensures
            !break_allowed(*old(self), size) ==> r == None::<usize> && *final(self) == *old(self),
            break_allowed(*old(self), size) ==> r == Some(old(self).program_brk) && *final(self)
                == brk_moved(*old(self), size),
    {
        let old_break = self.program_brk;
        let new_brk = self.program_brk as isize + size as isize;
        if new_brk < self.heap_bottom as isize {
            return None;
        }
        self.program_brk = new_brk as usize;
        Some(old_break)
    }
}

/// Once the break has moved by `size`, moving it by nothing succeeds and hands back the
/// moved break: the old break plus `size`.
pub proof fn law_break_moves_by_size(t: TaskControlBlock, size: i32)
    requires
        isize::MIN <= requested_break(t, size) <= isize::MAX,
        break_allowed(t, size),
    ensures
        requested_break(brk_moved(t, size), 0) == requested_break(t, size),
        break_allowed(brk_moved(t, size), 0),
        (brk_moved(t, size).program_brk as isize) == requested_break(t, size),
{
    let v: isize = requested_break(t, size) as isize;
    assert(((v as usize) as isize) == v) by (bit_vector);
}

/// The break may move by `size` exactly when the old break plus `size`, both taken as
/// `isize`, is at or above the heap's bottom; an empty heap can always be left as it
/// is.
pub proof fn law_break_allowed_iff_above_bottom(t: TaskControlBlock, size: i32)
    ensures
        break_allowed(t, size) <==> (t.program_brk as isize) + size >= (t.heap_bottom as isize),
        t.program_brk == t.heap_bottom ==> break_allowed(t, 0),
        requested_break(t, size) == (t.program_brk as isize) + size,
        brk_moved(t, size).program_brk == ((t.program_brk as isize) + size) as usize,
        brk_moved(t, size).heap_bottom == t.heap_bottom,
        brk_moved(t, size).memory_set == t.memory_set,
        brk_moved(t, size).first_running_time == t.first_running_time,
{
}

/// Moving the break by `size` and then by `-size` succeeds both times and puts the
/// break back where it was, when it started at or above the heap's bottom.
pub proof fn law_break_round_trip(t: TaskControlBlock, size: i32)
    requires
        size != i32::MIN,
        t.program_brk >= t.heap_bottom,
        t.program_brk <= isize::MAX,
        t.heap_bottom <= isize::MAX,
        isize::MIN <= (t.program_brk as isize) + size <= isize::MAX,
        (t.program_brk as isize) + size >= (t.heap_bottom as isize),
    ensures
        break_allowed(t, size),
        isize::MIN <= requested_break(brk_moved(t, size), (-size) as i32) <= isize::MAX,
        break_allowed(brk_moved(t, size), (-size) as i32),
        brk_moved(brk_moved(t, size), (-size) as i32).program_brk == t.program_brk,
{
    law_break_moves_by_size(t, size);
    let p = t.program_brk;
    assert(((p as isize) as usize) == p) by (bit_vector);
}

} // verus!
