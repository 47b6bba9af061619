//! The ready queue and the stride policy: insertion order is kept on
//! enqueue, and `fetch` removes and returns the member with the smallest
//! stride, the earliest-added one on a tie.

use vstd::prelude::*;
use std::collections::VecDeque;
use crate::task::{TaskControlBlock, TaskStatus};

verus! {

/// Index `i` holds the queue's first minimum-stride member: no member has a
/// smaller stride, and every earlier member has a strictly greater one.
/// For a non-empty queue exactly one index satisfies this.
pub open spec fn is_first_min(s: Seq<TaskControlBlock>, i: int) -> bool {
    &&& 0 <= i < s.len()
    &&& forall|j: int| 0 <= j < s.len() ==> s[i].stride <= #[trigger] s[j].stride
    &&& forall|j: int| 0 <= j < i ==> s[i].stride < #[trigger] s[j].stride
}

/// The ready queue: the runnable tasks, in insertion order.
pub struct TaskManager {
    ready_queue: VecDeque<TaskControlBlock>,
}

impl View for TaskManager {
    type V = Seq<TaskControlBlock>;

    /// The queue as the sequence of its members, head first.
    closed spec fn view(&self) -> Seq<TaskControlBlock> {
        self.ready_queue@
    }
}

impl TaskManager {
    /// Every member of the ready queue is in `Ready` status.
    pub open spec fn wf(&self) -> bool {
        forall|i: int| 0 <= i < self@.len() ==> (#[trigger] self@[i]).status == TaskStatus::Ready
    }

    /// An empty ready queue.
    pub fn new() -> (r: TaskManager)
        ensures
            r.wf(),
            r@ == Seq::<TaskControlBlock>::empty(),
    {
        TaskManager { ready_queue: VecDeque::new() }
    }

    /// How many tasks are ready.
    pub fn len(&self) -> (r: usize)
        ensures
            r == self@.len(),
    {
        self.ready_queue.len()
    }

    /// Append a runnable task at the tail of the ready queue.
    pub fn add(&mut self, task: TaskControlBlock)
        requires
            old(self).wf(),
            task.status == TaskStatus::Ready,
        ensures
            final(self).wf(),
            final(self)@ == old(self)@.push(task),
    {
        self.ready_queue.push_back(task);
    }

    /// Remove and return the member with the smallest stride; on a tie the
    /// one added earliest wins. The relative order of the remaining members
    /// is unchanged. Returns nothing iff the queue is empty.
    pub fn fetch(&mut self) -> (r: Option<TaskControlBlock>)
        requires
            old(self).wf(),
        ensures
            final(self).wf(),
            old(self)@.len() == 0 ==> r is None && final(self)@ == old(self)@,
            old(self)@.len() > 0 ==> (exists|i: int|
                {
                    &&& #[trigger] is_first_min(old(self)@, i)
                    &&& r == Some(old(self)@[i])
                    &&& final(self)@ == old(self)@.remove(i)
                }),
            r is Some ==> r->0.status == TaskStatus::Ready,
    {
        let n = self.ready_queue.len();
        if n == 0 {
            return None;
        }
        let mut best: usize = 0;
        let mut idx: usize = 1;
        while idx < n
            invariant
                n == self@.len(),
                *self == *old(self),
                0 <= best < idx <= n,
                forall|j: int| 0 <= j < idx ==> self@[best as int].stride <= #[trigger] self@[j].stride,
                forall|j: int| 0 <= j < best ==> self@[best as int].stride < #[trigger] self@[j].stride,
            decreases n - idx,
        {
            if self.ready_queue[idx].stride < self.ready_queue[best].stride {
                best = idx;
            }
            idx += 1;
        }
        proof {
            assert(is_first_min(self@, best as int));
        }
        let r = self.ready_queue.remove(best);
        proof {
            assert(is_first_min(old(self)@, best as int) && r == Some(old(self)@[best as int])
                && final(self)@ == old(self)@.remove(best as int));
        }
        r
    }
}

/// At most one index of a queue holds its first minimum-stride member, so
/// `fetch`'s contract determines the selected task and the queue left
/// behind completely.
pub proof fn lemma_first_min_unique(s: Seq<TaskControlBlock>, i: int, j: int)
    requires
        is_first_min(s, i),
        is_first_min(s, j),
    ensures
        i == j,
{
    if i < j {
        assert(s[j].stride < s[i].stride);
        assert(s[i].stride <= s[j].stride);
    } else if j < i {
        assert(s[i].stride < s[j].stride);
        assert(s[j].stride <= s[i].stride);
    }
}

/// A queue holding exactly one task `t` has its first minimum at the head,
/// and removing it leaves the queue empty: with `fetch`'s contract, adding
/// `t` to an empty queue and fetching once returns `t` and empties the queue.
pub proof fn lemma_single_task_fetch(t: TaskControlBlock)
    ensures
        is_first_min(seq![t], 0),
        seq![t].remove(0).len() == 0,
{
    assert(seq![t].len() == 1);
    assert(seq![t][0] == t);
}

} // verus!
