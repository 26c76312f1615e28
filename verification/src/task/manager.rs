//! The ready queue, scheduled by stride: the task with the smallest pass runs next,
//! and running advances its pass by `BIGSTRIDE / priority`. Among tasks with equal
//! passes the one queued first runs first.
use super::TaskControlBlock;
use crate::config::BIGSTRIDE;
use vstd::prelude::*;

verus! {

/// `i` is the task that `fetch` picks from `q`: no pass in the queue is smaller, and
/// every task queued before it has a larger pass.
pub open spec fn is_min_stride(q: Seq<TaskControlBlock>, i: int) -> bool {
    &&& 0 <= i < q.len()
    &&& forall|j: int| 0 <= j < q.len() ==> q[i].stride <= #[trigger] q[j].stride
    &&& forall|j: int| 0 <= j < i ==> q[i].stride < #[trigger] q[j].stride
}

/// `BIGSTRIDE / priority`, rounded toward zero.
pub open spec fn stride_step(priority: int) -> int {
    if priority > 0 {
        (BIGSTRIDE as int) / priority
    } else {
        -((BIGSTRIDE as int) / (-priority))
    }
}

/// The pass that task `t` advances to when it is picked.
pub open spec fn next_stride(t: TaskControlBlock) -> int {
    t.stride + stride_step(t.priority as int)
}

/// `t` once picked: its pass advanced.
pub open spec fn strided(t: TaskControlBlock) -> TaskControlBlock {
    TaskControlBlock { stride: next_stride(t) as isize, ..t }
}

/// Picking from `q` is defined: the task that would be picked has a non-zero priority
/// and its advanced pass fits in an `isize`.
pub open spec fn fetch_defined(q: Seq<TaskControlBlock>) -> bool {
    forall|i: int|
        #![trigger q[i]]
        is_min_stride(q, i) ==> q[i].priority != 0 && isize::MIN <= next_stride(q[i])
            <= isize::MAX
}

/// The ready queue.
pub struct TaskManager {
    ready_queue: Vec<TaskControlBlock>,
}

impl TaskManager {
    /// The queued tasks, in the order they were added.
    pub closed spec fn queue(&self) -> Seq<TaskControlBlock> {
        self.ready_queue@
    }

    /// An empty queue.
    pub fn new() -> (m: Self)
        ensures
            m.queue() == Seq::<TaskControlBlock>::empty(),
    {
        TaskManager { ready_queue: Vec::new() }
    }

    /// The number of queued tasks.
    pub fn len(&self) -> (r: usize)
        ensures
            r == self.queue().len(),
    {
        self.ready_queue.len()
    }

    /// Puts `task` at the back of the queue.
    pub fn add(&mut self, task: TaskControlBlock)
        ensures
            final(self).queue() == old(self).queue().push(task),
    {
        self.ready_queue.push(task);
    }

    /// Where the task with the smallest pass stands (the first such); `None` where the
    /// queue is empty.
    fn min_stride_index(&self) -> (r: Option<usize>)
        ensures
            match r {
                Some(i) => is_min_stride(self.queue(), i as int),
                None => self.queue().len() == 0,
            },
    {
        let len = self.ready_queue.len();
        if len == 0 {
            return None;
        }
        let mut min_stride: isize = self.ready_queue[0].stride;
        let mut min_stride_index: usize = 0;
        let mut index: usize = 1;
        while index < len
            invariant
                1 <= index <= len,
                len == self.ready_queue@.len(),
                min_stride_index < index,
                self.ready_queue@[min_stride_index as int].stride == min_stride,
                forall|j: int|
                    0 <= j < min_stride_index ==> min_stride < #[trigger] self.ready_queue@[j].stride,
                forall|j: int| 0 <= j < index ==> min_stride <= #[trigger] self.ready_queue@[j].stride,
            decreases len - index,
        {
            let stride = self.ready_queue[index].stride;
            if stride < min_stride {
                min_stride = stride;
                min_stride_index = index;
            }
            index = index + 1;
        }
        Some(min_stride_index)
    }

    /// Whether `fetch` is defined on the queue as it stands.
    pub fn can_fetch(&self) -> (r: bool)
        ensures
            r == fetch_defined(self.queue()),
    {
        match self.min_stride_index() {
            None => true,
            Some(i) => {
                let t = &self.ready_queue[i];
                if t.priority == 0 {
                    false
                } else {
                    let step = stride_step_of(t.priority);
                    let r = t.stride.checked_add(step).is_some();
                    proof {
                        assert forall|j: int| #[trigger]
                            is_min_stride(self.queue(), j) implies j == i by {
                            law_fetch_choice_unique(self.queue(), i as int, j);
                        }
                    }
                    r
                }
            },
        }
    }

    /// Takes out the task with the smallest pass (the first such), advancing its pass;
    /// `None` where the queue is empty.
    pub fn fetch(&mut self) -> (r: Option<TaskControlBlock>)
        requires
            fetch_defined(old(self).queue()),
        ensures
            r is None <==> old(self).queue().len() == 0,
            r is None ==> final(self).queue() == old(self).queue(),
            r matches Some(t) ==> exists|i: int|
                {
                    &&& is_min_stride(old(self).queue(), i)
                    &&& t == strided(#[trigger] old(self).queue()[i])
                    &&& final(self).queue() == old(self).queue().remove(i)
                },
    {
        match self.min_stride_index() {
            None => None,
            Some(min_stride_index) => {
                let ghost q = old(self).ready_queue@;
                let ghost i = min_stride_index as int;
                proof {
                    assert(q[i].priority != 0);
                }
                let mut tcb = self.ready_queue.remove(min_stride_index);
                let step = stride_step_of(tcb.priority);
                tcb.stride = tcb.stride + step;
                assert(tcb == strided(q[i]));
                Some(tcb)
            },
        }
    }
}

/// `BIGSTRIDE / priority`, rounded toward zero.
fn stride_step_of(priority: isize) -> (r: isize)
    requires
        priority != 0,
    ensures
        r == stride_step(priority as int),
{
    if priority > 0 {
        BIGSTRIDE / priority
    } else if priority == isize::MIN {
        assert((BIGSTRIDE as int) / (-(priority as int)) == 0) by (nonlinear_arith)
            requires
                priority == isize::MIN,
                BIGSTRIDE == 1_000_000,
        ;
        0
    } else {
        -(BIGSTRIDE / (-priority))
    }
}

/// The task that `fetch` picks is determined by the queue: there is only one.
pub proof fn law_fetch_choice_unique(q: Seq<TaskControlBlock>, i: int, j: int)
    requires
        is_min_stride(q, i),
        is_min_stride(q, j),
    ensures
        i == j,
{
    if i < j {
        assert(q[j].stride < q[i].stride);
        assert(q[j].stride <= q[i].stride);
    } else if j < i {
        assert(q[i].stride < q[j].stride);
        assert(q[i].stride <= q[j].stride);
    }
}

/// Among tasks with equal passes the scheduler is first-in, first-out: the front of
/// the queue is picked.
pub proof fn law_equal_passes_fifo(q: Seq<TaskControlBlock>)
    requires
        q.len() > 0,
        forall|j: int| 0 <= j < q.len() ==> #[trigger] q[j].stride == q[0].stride,
    ensures
        is_min_stride(q, 0),
{
}

/// Running a task with a priority between one and `BIGSTRIDE` strictly advances its
/// pass, by less for a higher priority.
pub proof fn law_pass_advances(t: TaskControlBlock, u: TaskControlBlock)
    requires
        0 < t.priority <= BIGSTRIDE,
        t.priority <= u.priority <= BIGSTRIDE,
        t.stride == u.stride,
    ensures
        next_stride(t) > t.stride,
        next_stride(u) <= next_stride(t),
{
    let p = t.priority as int;
    let p2 = u.priority as int;
    let b = BIGSTRIDE as int;
    assert(b / p >= 1 && b / p2 <= b / p) by (nonlinear_arith)
        requires
            0 < p <= p2 <= b,
    ;
}

/// The task `fetch` picks has the smallest pass in the queue, and every task queued
/// before it has a strictly larger pass.
pub proof fn law_picked_pass_is_smallest(q: Seq<TaskControlBlock>, i: int, j: int)
    requires
        is_min_stride(q, i),
        0 <= j < q.len(),
    ensures
        0 <= i < q.len(),
        q[i].stride <= q[j].stride,
        j < i ==> q[i].stride < q[j].stride,
{
}

/// Every non-empty queue has a task to pick: the first one with the smallest pass.
pub proof fn law_nonempty_queue_has_pick(q: Seq<TaskControlBlock>, i: int)
    requires
        0 <= i < q.len(),
        forall|j: int| 0 <= j < q.len() ==> q[i].stride <= #[trigger] q[j].stride,
        forall|j: int| 0 <= j < i ==> q[i].stride < #[trigger] q[j].stride,
    ensures
        is_min_stride(q, i),
{
}

/// The step a task of priority `p` advances by is `BIGSTRIDE / p` rounded toward zero:
/// its size times `|p|` is at most `BIGSTRIDE` and one more step would exceed it, and
/// its sign is that of `p`. Picking a task advances its pass by that step and changes
/// nothing else about it.
pub proof fn law_stride_step(t: TaskControlBlock)
    requires
        t.priority != 0,
    ensures
        ({
            let p = t.priority as int;
            let s = stride_step(p);
            let a = if p > 0 {
                p
            } else {
                -p
            };
            let m = if p > 0 {
                s
            } else {
                -s
            };
            &&& m >= 0
            &&& m * a <= BIGSTRIDE < (m + 1) * a
        }),
        next_stride(t) == t.stride + stride_step(t.priority as int),
        isize::MIN <= next_stride(t) <= isize::MAX ==> strided(t).stride == next_stride(t),
        strided(t).priority == t.priority,
        strided(t).task_status == t.task_status,
        strided(t).memory_set == t.memory_set,
        strided(t).first_running_time == t.first_running_time,
{
    let p = t.priority as int;
    let a = if p > 0 {
        p
    } else {
        -p
    };
    let b = BIGSTRIDE as int;
    let m = b / a;
    assert(m >= 0 && m * a <= b < (m + 1) * a) by (nonlinear_arith)
        requires
            a > 0,
            b >= 0,
            m == b / a,
    ;
}

} // verus!
