//! Syscall-facing adapters: raw arguments are validated here and turned
//! into operations on the current task, so the collaborators below this
//! layer only ever see well-formed requests. Pointer arguments have
//! already been resolved by the address translator to kernel-accessible
//! locations when these adapters run; reading the timer and performing
//! the actual context switch belong to the surrounding dispatch path.

use vstd::prelude::*;
use crate::addr::{page_ceil, page_floor, VirtAddr, PAGE_SIZE};
use crate::task::{
    eq_except_address_space, eq_except_break, eq_except_status, TaskControlBlock, TaskStatus,
    MAX_SYSCALL_NUM,
};

verus! {

/// A microsecond counter value decomposed into seconds and microseconds.
#[derive(Clone, Copy, PartialEq, Eq, Structural, Debug)]
pub struct TimeVal {
    pub sec: usize,
    pub usec: usize,
}

/// Task information as observed through the syscall boundary.
pub struct TaskInfo {
    /// Task status in its life cycle.
    pub status: TaskStatus,
    /// The number of times the task invoked each syscall.
    pub syscall_times: [u32; MAX_SYSCALL_NUM],
    /// Total running time of the task.
    pub time: usize,
}

/// The decomposition of a microsecond counter value.
pub open spec fn time_val_of(us: usize) -> TimeVal {
    TimeVal { sec: us / 1_000_000, usec: us % 1_000_000 }
}

/// `a` is no later than `b`, comparing seconds first.
pub open spec fn time_val_le(a: TimeVal, b: TimeVal) -> bool {
    a.sec < b.sec || (a.sec == b.sec && a.usec <= b.usec)
}

/// The port argument has no bit set outside the read/write/execute three
/// low bits, and at least one of them set: exactly the values 1 through 7.
pub open spec fn port_valid(port: usize) -> bool {
    0 < port && port < 8
}

/// Finalize the current task's bookkeeping: its status becomes terminal.
/// The dispatch path then reschedules and never returns control to the
/// task; control continuing past that point would be an unrecoverable
/// internal-consistency failure.
pub fn sys_exit(task: &mut TaskControlBlock, _exit_code: i32)
    ensures
        final(task).status == TaskStatus::Exited,
        eq_except_status(*old(task), *final(task)),
{
    task.status = TaskStatus::Exited;
}

/// The current task gives up the processor: it is returned to `Ready`
/// so the dispatch path can re-enqueue it and fetch another task.
/// Always succeeds.
pub fn sys_yield(task: &mut TaskControlBlock) -> (r: isize)
    ensures
        r == 0,
        final(task).status == TaskStatus::Ready,
        eq_except_status(*old(task), *final(task)),
{
    task.status = TaskStatus::Ready;
    0
}

/// Decompose the microsecond counter value read from the timer and write
/// it through the resolved user location. Always succeeds.
pub fn sys_get_time(ts: &mut TimeVal, us: usize) -> (r: isize)
    ensures
        r == 0,
        *final(ts) == time_val_of(us),
{
    *ts = TimeVal { sec: us / 1_000_000, usec: us % 1_000_000 };
    0
}

/// Copy the current task's status, syscall counts and running time into
/// the resolved user location. Always succeeds.
pub fn sys_task_info(task: &TaskControlBlock, ti: &mut TaskInfo) -> (r: isize)
    ensures
        r == 0,
        final(ti).status == task.status,
        final(ti).syscall_times == task.syscall_times,
        final(ti).time == task.time,
{
    *ti = TaskInfo { status: task.status, syscall_times: task.syscall_times, time: task.time };
    0
}

/// Map `[floor(start), ceil(start + len))` of the current task's address
/// space with permissions `port`. Rejects an unaligned `start`, a `port`
/// with no permission bit or a bit outside the three low ones, and any
/// range that meets an existing mapping; `len == 0` succeeds as a no-op.
/// All-or-nothing: every failure leaves the task unchanged.
pub fn sys_mmap(task: &mut TaskControlBlock, start: usize, len: usize, port: usize) -> (r: isize)
    requires
        old(task).address_space.wf(),
        start + len <= usize::MAX,
    ensures
        final(task).address_space.wf(),
        eq_except_address_space(*old(task), *final(task)),
        start as int % (PAGE_SIZE as int) != 0 ==> r == -1 && *final(task) == *old(task),
        start as int % (PAGE_SIZE as int) == 0 && !port_valid(port) ==> r == -1 && *final(task)
            == *old(task),
        start as int % (PAGE_SIZE as int) == 0 && port_valid(port) && len == 0 ==> r == 0
            && *final(task) == *old(task),
        start as int % (PAGE_SIZE as int) == 0 && port_valid(port) && len > 0 ==> ({
            let s = page_floor(start as int);
            let e = page_ceil(start + len);
            if exists|p: int| s <= p < e && old(task).address_space@.contains_key(p) {
                r == -1 && *final(task) == *old(task)
            } else {
                &&& r == 0
                &&& forall|p: int|
                    #![trigger final(task).address_space@.contains_key(p)]
                    s <= p < e ==> final(task).address_space@.contains_key(p)
                        && final(task).address_space@[p] == port as int
                &&& forall|p: int| !(s <= p < e) ==> (final(task).address_space@.contains_key(p)
                    <==> old(task).address_space@.contains_key(p))
                &&& forall|p: int| !(s <= p < e) && old(task).address_space@.contains_key(p)
                    ==> final(task).address_space@[p] == old(task).address_space@[p]
            }
        }),
{
    let start_va = VirtAddr(start);
    if !start_va.aligned() {
        return -1;
    }
    proof {
        assert((port & !0x7usize != 0 || port & 0x7usize == 0) <==> !(0 < port < 8))
            by (bit_vector);
    }
    if port & !0x7 != 0 || port & 0x7 == 0 {
        return -1;
    }
    if len == 0 {
        return 0;
    }
    let end_va = VirtAddr(start + len);
    let start_vpn = start_va.floor();
    let end_vpn = end_va.ceil();
    let r = task.address_space.mmap(start_vpn, end_vpn, port);
    proof {
        let s = page_floor(start as int);
        let e = page_ceil(start + len);
        assert(start_vpn.0 == s && end_vpn.0 == e);
        if exists|p: int| s <= p < e && old(task).address_space@.contains_key(p) {
            let p = choose|p: int| s <= p < e && old(task).address_space@.contains_key(p);
            assert(start_vpn.0 <= p < end_vpn.0 && old(task).address_space@.contains_key(p));
        }
        if exists|p: int|
            start_vpn.0 <= p < end_vpn.0 && old(task).address_space@.contains_key(p) {
            let p = choose|p: int|
                start_vpn.0 <= p < end_vpn.0 && old(task).address_space@.contains_key(p);
            assert(s <= p < e && old(task).address_space@.contains_key(p));
        }
    }
    r
}

/// Unmap `[floor(start), ceil(start + len))` of the current task's address
/// space. Rejects an unaligned `start` and any range containing a page
/// that is not currently mapped; `len == 0` succeeds as a no-op.
/// All-or-nothing: every failure leaves the task unchanged.
pub fn sys_munmap(task: &mut TaskControlBlock, start: usize, len: usize) -> (r: isize)
    requires
        old(task).address_space.wf(),
        start + len <= usize::MAX,
    ensures
        final(task).address_space.wf(),
        eq_except_address_space(*old(task), *final(task)),
        start as int % (PAGE_SIZE as int) != 0 ==> r == -1 && *final(task) == *old(task),
        start as int % (PAGE_SIZE as int) == 0 && len == 0 ==> r == 0
            && *final(task) == *old(task),
        start as int % (PAGE_SIZE as int) == 0 && len > 0 ==> ({
            let s = page_floor(start as int);
            let e = page_ceil(start + len);
            if exists|p: int| s <= p < e && !old(task).address_space@.contains_key(p) {
                r == -1 && *final(task) == *old(task)
            } else {
                &&& r == 0
                &&& forall|p: int| s <= p < e ==> !final(task).address_space@.contains_key(p)
                &&& forall|p: int| !(s <= p < e) ==> (final(task).address_space@.contains_key(p)
                    <==> old(task).address_space@.contains_key(p))
                &&& forall|p: int| !(s <= p < e) && old(task).address_space@.contains_key(p)
                    ==> final(task).address_space@[p] == old(task).address_space@[p]
            }
        }),
{
    let start_va = VirtAddr(start);
    if !start_va.aligned() {
        return -1;
    }
    if len == 0 {
        return 0;
    }
    let end_va = VirtAddr(start + len);
    let start_vpn = start_va.floor();
    let end_vpn = end_va.ceil();
    task.address_space.munmap(start_vpn, end_vpn)
}

/// Adjust the program break by the signed `size`. On success the break
/// moves to `old break + size` and the break value *before* adjustment is
/// returned; a request that would move the break below the heap base or
/// past the address ceiling is rejected with `-1` and changes nothing.
pub fn sys_sbrk(task: &mut TaskControlBlock, size: i32) -> (r: isize)
    requires
        old(task).wf(),
    ensures
        final(task).wf(),
        eq_except_break(*old(task), *final(task)),
        old(task).heap_base <= old(task).program_break + size <= isize::MAX ==> ({
            &&& r == old(task).program_break
            &&& final(task).program_break == old(task).program_break + size
        }),
        !(old(task).heap_base <= old(task).program_break + size <= isize::MAX) ==> (r == -1
            && *final(task) == *old(task)),
{
    let old_break = task.program_break;
    if size >= 0 {
        let delta = size as usize;
        let limit = isize::MAX as usize;
        if delta <= limit - old_break {
            task.program_break = old_break + delta;
            old_break as isize
        } else {
            -1
        }
    } else {
        let delta = (-(size as i64)) as usize;
        if delta <= old_break - task.heap_base {
            task.program_break = old_break - delta;
            old_break as isize
        } else {
            -1
        }
    }
}

/// Two decomposed readings of a non-decreasing microsecond counter are
/// themselves non-decreasing: a later reading never shows an earlier time.
pub proof fn lemma_time_val_monotonic(us1: usize, us2: usize)
    requires
        us1 <= us2,
    ensures
        time_val_le(time_val_of(us1), time_val_of(us2)),
{
    vstd::arithmetic::div_mod::lemma_div_is_ordered(us1 as int, us2 as int, 1_000_000);
    vstd::arithmetic::div_mod::lemma_fundamental_div_mod(us1 as int, 1_000_000);
    vstd::arithmetic::div_mod::lemma_fundamental_div_mod(us2 as int, 1_000_000);
}

} // verus!
