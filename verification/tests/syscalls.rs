use oscore::syscall::{
    sys_exit, sys_get_time, sys_sbrk, sys_task_info, sys_yield, TaskInfo, TimeVal,
};
use oscore::task::{TaskControlBlock, TaskStatus, MAX_SYSCALL_NUM};

#[test]
fn get_time_decomposes_microseconds_exactly() {
    let mut tv = TimeVal { sec: 0, usec: 0 };
    assert_eq!(sys_get_time(&mut tv, 2_500_000), 0);
    assert_eq!(tv.sec, 2);
    assert_eq!(tv.usec, 500_000);

    assert_eq!(sys_get_time(&mut tv, 999_999), 0);
    assert_eq!(tv.sec, 0);
    assert_eq!(tv.usec, 999_999);

    assert_eq!(sys_get_time(&mut tv, 0), 0);
    assert_eq!(tv.sec, 0);
    assert_eq!(tv.usec, 0);
}

#[test]
fn get_time_twice_is_non_decreasing() {
    let mut first = TimeVal { sec: 0, usec: 0 };
    let mut second = TimeVal { sec: 0, usec: 0 };
    // Two readings of the monotonic counter with a delay in between.
    sys_get_time(&mut first, 1_999_998);
    sys_get_time(&mut second, 2_000_003);
    assert!(first.sec < second.sec || (first.sec == second.sec && first.usec <= second.usec));
}

#[test]
fn task_info_copies_status_counters_and_time() {
    let mut t = TaskControlBlock::new(16, 0, 0);
    t.status = TaskStatus::Running;
    t.syscall_times[3] = 7;
    t.syscall_times[MAX_SYSCALL_NUM - 1] = 2;
    t.time = 42;
    let mut ti = TaskInfo { status: TaskStatus::Ready, syscall_times: [0; MAX_SYSCALL_NUM], time: 0 };
    assert_eq!(sys_task_info(&t, &mut ti), 0);
    assert_eq!(ti.status, TaskStatus::Running);
    assert_eq!(ti.syscall_times[3], 7);
    assert_eq!(ti.syscall_times[MAX_SYSCALL_NUM - 1], 2);
    assert_eq!(ti.syscall_times[0], 0);
    assert_eq!(ti.time, 42);
}

#[test]
fn yield_returns_zero_and_marks_ready() {
    let mut t = TaskControlBlock::new(16, 0, 9);
    t.status = TaskStatus::Running;
    assert_eq!(sys_yield(&mut t), 0);
    assert_eq!(t.status, TaskStatus::Ready);
    assert_eq!(t.translation_token, 9);
}

#[test]
fn exit_marks_task_terminal() {
    let mut t = TaskControlBlock::new(16, 0, 0);
    t.status = TaskStatus::Running;
    t.time = 5;
    sys_exit(&mut t, 1);
    assert_eq!(t.status, TaskStatus::Exited);
    assert_eq!(t.time, 5);
}

#[test]
fn sbrk_grow_returns_previous_break() {
    let mut t = TaskControlBlock::new(16, 0x8000, 0);
    let r = sys_sbrk(&mut t, 0x100);
    assert_eq!(r, 0x8000);
    assert_eq!(t.program_break, 0x8100);
}

#[test]
fn sbrk_shrink_returns_previous_break() {
    let mut t = TaskControlBlock::new(16, 0x8000, 0);
    assert_eq!(sys_sbrk(&mut t, 0x100), 0x8000);
    let r = sys_sbrk(&mut t, -0x80);
    assert_eq!(r, 0x8100);
    assert_eq!(t.program_break, 0x8080);
}

#[test]
fn sbrk_below_heap_base_rejected_and_break_unchanged() {
    let mut t = TaskControlBlock::new(16, 0x8000, 0);
    let r = sys_sbrk(&mut t, -1);
    assert_eq!(r, -1);
    assert_eq!(t.program_break, 0x8000);
}

#[test]
fn sbrk_zero_is_a_successful_noop() {
    let mut t = TaskControlBlock::new(16, 0x8000, 0);
    let r = sys_sbrk(&mut t, 0);
    assert_eq!(r, 0x8000);
    assert_eq!(t.program_break, 0x8000);
}
