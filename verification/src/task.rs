//! Task control blocks: per-task scheduling counters, syscall accounting,
//! heap bounds and the mapped-region state.

use vstd::prelude::*;
use crate::mem::AddressSpace;

verus! {

/// Number of distinct syscall identifiers whose invocations are counted.
pub const MAX_SYSCALL_NUM: usize = 500;

/// Stride-scheduling base: each task's pass is `BIG_STRIDE / priority`.
/// Chosen much larger than any expected priority to bound quantization error.
pub const BIG_STRIDE: u64 = 0x10_0000;

/// Where a task stands in its life cycle.
#[derive(Clone, Copy, PartialEq, Eq, Structural, Debug)]
pub enum TaskStatus {
    /// Runnable: present in the ready queue.
    Ready,
    /// Currently executing.
    Running,
    /// Terminated; never re-enqueued.
    Exited,
}

/// Per-task state: life-cycle status, stride-scheduling counters,
/// syscall counts, scheduled time, mapped regions and heap bounds.
pub struct TaskControlBlock {
    /// Life-cycle status; the task sits in the ready queue iff `Ready`.
    pub status: TaskStatus,
    /// Stride counter; grows by `pass` at each dispatch, wrapping silently.
    pub stride: u64,
    /// Per-dispatch stride increment, `BIG_STRIDE / priority`.
    pub pass: u64,
    /// Invocation count per syscall identifier.
    pub syscall_times: [u32; MAX_SYSCALL_NUM],
    /// Cumulative scheduled execution time.
    pub time: usize,
    /// Mapped virtual-page regions, owned exclusively by the task.
    pub address_space: AddressSpace,
    /// Lowest address the program break may shrink to.
    pub heap_base: usize,
    /// Current end of heap, adjusted by sbrk.
    pub program_break: usize,
    /// Opaque handle for the address translator.
    pub translation_token: usize,
}

impl TaskControlBlock {
    /// Well-formed: the break stays within the heap bounds the break
    /// arithmetic relies on, and the region state has no duplicate page.
    pub open spec fn wf(&self) -> bool {
        &&& self.heap_base <= self.program_break <= isize::MAX as usize
        &&& self.address_space.wf()
    }

    /// A fresh task in `Ready` status: zeroed counters, an empty address
    /// space, and a pass derived from the given priority.
    pub fn new(priority: u64, heap_base: usize, translation_token: usize) -> (r: TaskControlBlock)
        requires
            priority >= 1,
            heap_base <= isize::MAX as usize,
        ensures
            r.wf(),
            r.status == TaskStatus::Ready,
            r.stride == 0,
            r.pass == BIG_STRIDE / priority,
            forall|i: int| 0 <= i < MAX_SYSCALL_NUM ==> r.syscall_times@[i] == 0,
            r.time == 0,
            r.address_space@ == Map::<int, int>::empty(),
            r.heap_base == heap_base,
            r.program_break == heap_base,
            r.translation_token == translation_token,
    {
        TaskControlBlock {
            status: TaskStatus::Ready,
            stride: 0,
            pass: BIG_STRIDE / priority,
            syscall_times: [0u32; MAX_SYSCALL_NUM],
            time: 0,
            address_space: AddressSpace::new(),
            heap_base,
            program_break: heap_base,
            translation_token,
        }
    }
}

/// The two tasks agree on everything but `status`.
pub open spec fn eq_except_status(a: TaskControlBlock, b: TaskControlBlock) -> bool {
    &&& a.stride == b.stride
    &&& a.pass == b.pass
    &&& a.syscall_times == b.syscall_times
    &&& a.time == b.time
    &&& a.address_space == b.address_space
    &&& a.heap_base == b.heap_base
    &&& a.program_break == b.program_break
    &&& a.translation_token == b.translation_token
}

/// The two tasks agree on everything but `address_space`.
pub open spec fn eq_except_address_space(a: TaskControlBlock, b: TaskControlBlock) -> bool {
    &&& a.status == b.status
    &&& a.stride == b.stride
    &&& a.pass == b.pass
    &&& a.syscall_times == b.syscall_times
    &&& a.time == b.time
    &&& a.heap_base == b.heap_base
    &&& a.program_break == b.program_break
    &&& a.translation_token == b.translation_token
}

/// The two tasks agree on everything but `program_break`.
pub open spec fn eq_except_break(a: TaskControlBlock, b: TaskControlBlock) -> bool {
    &&& a.status == b.status
    &&& a.stride == b.stride
    &&& a.pass == b.pass
    &&& a.syscall_times == b.syscall_times
    &&& a.time == b.time
    &&& a.address_space == b.address_space
    &&& a.heap_base == b.heap_base
    &&& a.translation_token == b.translation_token
}

} // verus!
