//! The processor: the task it runs, and what that task asks of it.
use super::manager::{self, fetch_defined, is_min_stride, strided};
use super::{dispatched, mmap_outcome, unmap_pages_outcome, TaskControlBlock};
use crate::config::{MAX_SYSCALL_NUM, PAGE_SIZE};
use crate::mm::{permission_from_port, VirtAddr, VirtPageNum};
use vstd::prelude::*;

verus! {

/// The processor and the task it currently runs.
pub struct Processor {
    current: Option<TaskControlBlock>,
}

impl Processor {
    /// The task the processor runs, if any.
    pub closed spec fn running(&self) -> Option<TaskControlBlock> {
        self.current
    }

    /// A processor that runs nothing.
    pub fn new() -> (p: Self)
        ensures
            p.running() == None::<TaskControlBlock>,
    {
        Processor { current: None }
    }

    /// Takes the current task out, leaving the processor idle.
    pub fn take_current(&mut self) -> (r: Option<TaskControlBlock>)
        ensures
            r == old(self).running(),
            final(self).running() == None::<TaskControlBlock>,
    {
        self.current.take()
    }

    /// The current task, if any.
    pub fn current(&self) -> (r: Option<&TaskControlBlock>)
        ensures
            r == (match self.running() {
                Some(t) => Some(&t),
                None => None::<&TaskControlBlock>,
            }),
    {
        self.current.as_ref()
    }

    /// Counts one more call of system call `syscall_id` by the current task.
    pub fn count_syscall(&mut self, syscall_id: usize)
        requires
            old(self).running() is Some,
            syscall_id < MAX_SYSCALL_NUM,
            old(self).running()->0.syscall_times[syscall_id as int] < u32::MAX,
        ensures
            final(self).running() == Some(
                super::counted(old(self).running()->0, syscall_id as int),
            ),
    {
        match &mut self.current {
            Some(t) => {
                t.syscall_times[syscall_id] += 1;
            },
            None => {},
        }
    }

    /// How many times the current task has made each system call.
    pub fn get_sycall_times(&self) -> (r: [u32; MAX_SYSCALL_NUM])
        requires
            self.running() is Some,
        ensures
            r == self.running()->0.syscall_times,
    {
        self.current.as_ref().unwrap().syscall_times
    }

    /// When the current task first ran.
    pub fn get_first_time_called(&self) -> (r: usize)
        requires
            self.running() is Some,
        ensures
            r == self.running()->0.first_running_time,
    {
        self.current.as_ref().unwrap().first_running_time
    }

    /// Maps the pages that cover `[start, end)` into the current task with the
    /// permission that `port` asks for; -1 where one of them is mapped already.
    pub fn do_memory_map(&mut self, start: VirtAddr, end: VirtAddr, port: usize) -> (r: isize)
        requires
            old(self).running() is Some,
            end.0 + PAGE_SIZE - 1 <= usize::MAX,
        ensures
            final(self).running() is Some,
            mmap_outcome(old(self).running()->0, final(self).running()->0, start, end, port, r),
    {
        let permission = permission_from_port(port);
        match &mut self.current {
            Some(t) => {
                if t.memory_set.insert_framed_area(start, end, permission) == -1 {
                    return -1;
                }
                0
            },
            None => -1,
        }
    }

    /// Unmaps the pages `[vst, ved)` from the current task; -1 where one of them is not
    /// mapped.
    pub fn do_memory_unmap(&mut self, vst: VirtPageNum, ved: VirtPageNum) -> (r: isize)
        requires
            old(self).running() is Some,
        ensures
            final(self).running() is Some,
            unmap_pages_outcome(
                old(self).running()->0,
                final(self).running()->0,
                vst.0 as int,
                ved.0 as int,
                r,
            ),
    {
        match &mut self.current {
            Some(t) => {
                if t.memory_set.remove_pages(vst, ved) == -1 {
                    return -1;
                }
                0
            },
            None => -1,
        }
    }

    /// Sets the priority of the current task and hands it back.
    pub fn set_prio(&mut self, prio: isize) -> (r: isize)
        requires
            old(self).running() is Some,
        ensures
            r == prio,
            final(self).running() == Some(
                TaskControlBlock { priority: prio, ..old(self).running()->0 },
            ),
    {
        match &mut self.current {
            Some(t) => {
                t.priority = prio;
                t.priority
            },
            None => prio,
        }
    }
}

/// One round of the scheduling loop: takes the next task from the queue and makes it
/// the processor's current task, running, with its first running time recorded if it
/// had none. `false`, with nothing changed, where the queue is empty.
pub fn run_tasks(processor: &mut Processor, queue: &mut manager::TaskManager, now_ms: usize) -> (r:
    bool)
    requires
        fetch_defined(old(queue).queue()),
    ensures
        r == (old(queue).queue().len() > 0),
        !r ==> final(queue).queue() == old(queue).queue() && final(processor).running() == old(processor).running(),
        r ==> exists|i: int|
            {
                &&& is_min_stride(old(queue).queue(), i)
                &&& final(queue).queue() == old(queue).queue().remove(i)
                &&& final(processor).running() == Some(
                    dispatched(strided(#[trigger] old(queue).queue()[i]), now_ms),
                )
            },
{
    match queue.fetch() {
        Some(task) => {
            let mut task = task;
            if task.first_running_time == 0 {
                task.first_running_time = now_ms;
            }
            task.task_status = super::TaskStatus::Running;
            processor.current = Some(task);
            true
        },
        None => false,
    }
}

} // verus!
