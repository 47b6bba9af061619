use oscore::manager::TaskManager;
use oscore::task::{TaskControlBlock, TaskStatus, BIG_STRIDE};

fn task_with_stride(stride: u64, tag: usize) -> TaskControlBlock {
    let mut t = TaskControlBlock::new(16, 0, tag);
    t.stride = stride;
    t
}

#[test]
fn fetch_on_empty_queue_returns_nothing() {
    let mut m = TaskManager::new();
    assert!(m.fetch().is_none());
    assert_eq!(m.len(), 0);
}

#[test]
fn fetch_returns_global_minimum_stride() {
    let mut m = TaskManager::new();
    m.add(task_with_stride(7, 0));
    m.add(task_with_stride(3, 1));
    m.add(task_with_stride(5, 2));
    let got = m.fetch().unwrap();
    assert_eq!(got.stride, 3);
    assert_eq!(got.translation_token, 1);
    assert_eq!(m.len(), 2);
}

#[test]
fn fetch_tie_prefers_earliest_added() {
    let mut m = TaskManager::new();
    m.add(task_with_stride(4, 0));
    m.add(task_with_stride(2, 1));
    m.add(task_with_stride(2, 2));
    let got = m.fetch().unwrap();
    assert_eq!(got.stride, 2);
    assert_eq!(got.translation_token, 1);
}

#[test]
fn fetch_removes_member_and_keeps_order_of_rest() {
    let mut m = TaskManager::new();
    m.add(task_with_stride(5, 0));
    m.add(task_with_stride(1, 1));
    m.add(task_with_stride(5, 2));
    m.add(task_with_stride(5, 3));
    assert_eq!(m.fetch().unwrap().translation_token, 1);
    // The three stride-5 members are now tied; repeated fetches must hand
    // them out in their original insertion order.
    assert_eq!(m.fetch().unwrap().translation_token, 0);
    assert_eq!(m.fetch().unwrap().translation_token, 2);
    assert_eq!(m.fetch().unwrap().translation_token, 3);
    assert!(m.fetch().is_none());
}

#[test]
fn add_then_fetch_single_task_empties_queue() {
    let mut m = TaskManager::new();
    let t = task_with_stride(9, 42);
    m.add(t);
    let got = m.fetch().unwrap();
    assert_eq!(got.translation_token, 42);
    assert_eq!(got.status, TaskStatus::Ready);
    assert_eq!(m.len(), 0);
    assert!(m.fetch().is_none());
}

// Stride comparison is a direct numeric comparison with no wraparound
// correction: a task whose stride has just wrapped past zero looks
// extremely small and is favored until the rest of the queue catches up.
// This is the faithful stride-scheduling edge case, kept deliberately.
#[test]
fn fetch_favors_wrapped_stride() {
    let mut m = TaskManager::new();
    let just_wrapped: u64 = u64::MAX.wrapping_add(3); // 2: past the width boundary
    m.add(task_with_stride(u64::MAX - 1, 0));
    m.add(task_with_stride(just_wrapped, 1));
    let got = m.fetch().unwrap();
    assert_eq!(got.translation_token, 1);
    assert_eq!(got.stride, 2);
}

#[test]
fn new_task_derives_pass_from_priority() {
    let t = TaskControlBlock::new(16, 0, 0);
    assert_eq!(t.pass, BIG_STRIDE / 16);
    assert_eq!(t.stride, 0);
    assert_eq!(t.status, TaskStatus::Ready);
    assert_eq!(t.time, 0);
    assert!(t.syscall_times.iter().all(|&c| c == 0));
}
