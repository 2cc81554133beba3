use hyper_scheduler::scheduler::Scheduler;
use hyper_scheduler::task::stack::StackSize;
use hyper_scheduler::task::{
    current, current_is_none, get_id, scope_enter, scope_exit, CoStatus, Coroutine,
    SchedulerStatus,
};
use std::cmp::Ordering;

#[test]
fn init_sets_deadlines() {
    let mut s = SchedulerStatus::new(Some(35), Some(50), 1000);
    assert_eq!(s.co_status, CoStatus::PENDING);
    assert_eq!(s.absolute_deadline, None);
    assert_eq!(s.expected_remaining_execution_time, Some(35));
    s.init(4);
    assert_eq!(s.get_co_id(), 4);
    assert_eq!(s.absolute_deadline, Some(1050));
    assert_eq!(s.worst_start_time, Some(1015));
    assert_eq!(s.worst_start_time.unwrap() + 35, s.absolute_deadline.unwrap() as i128);
}

#[test]
fn latest_start_may_lie_before_the_origin() {
    let mut s = SchedulerStatus::new(Some(80), Some(50), 10);
    s.init(5);
    assert_eq!(s.absolute_deadline, Some(60));
    assert_eq!(s.worst_start_time, Some(-20));
}

#[test]
fn init_without_deadline_only_sets_id() {
    let mut s = SchedulerStatus::new(Some(35), None, 7);
    s.init(9);
    assert_eq!(s.co_id, 9);
    assert_eq!(s.absolute_deadline, None);
    assert_eq!(s.worst_start_time, None);
}

#[test]
fn remaining_time_is_estimate_less_running() {
    let mut s = SchedulerStatus::new(Some(100), Some(500), 0);
    s.curr_start_time = Some(10);
    s.update_running_time(40);
    assert_eq!(s.running_time, 30);
    assert_eq!(s.curr_start_time, None);
    s.update_remaining();
    assert_eq!(s.expected_remaining_execution_time, Some(70));
    s.curr_start_time = Some(50);
    s.update_running_time(200);
    assert_eq!(s.running_time, 180);
    s.update_remaining();
    // overrun: the whole estimate again
    assert_eq!(s.expected_remaining_execution_time, Some(100));
    // a clock reading before the start counts as no time
    s.curr_start_time = Some(500);
    s.update_running_time(400);
    assert_eq!(s.running_time, 180);
}

#[test]
fn status_history_records_each_time() {
    let mut s = SchedulerStatus::new(None, None, 0);
    s.update_status(5, CoStatus::READY);
    s.update_status(9, CoStatus::RUNNING);
    s.update_status(9, CoStatus::SUSPENDED);
    assert_eq!(s.co_status, CoStatus::SUSPENDED);
    assert_eq!(s.status.len(), 2);
    assert_eq!(s.status.get(&9), Some(&CoStatus::SUSPENDED));
    let c = s.clone();
    assert_eq!(c.status.len(), 2);
    assert_eq!(c.co_status, CoStatus::SUSPENDED);
}

#[test]
fn ids_count_up_and_wrap() {
    let mut next = 1u64;
    assert_eq!(get_id(&mut next), 1);
    assert_eq!(get_id(&mut next), 2);
    assert_eq!(next, 3);
    let mut next = u64::MAX;
    assert_eq!(get_id(&mut next), u64::MAX);
    assert_eq!(next, 0);
}

#[test]
fn running_scope() {
    let mut cell = None;
    assert!(current_is_none(&cell));
    scope_enter(&mut cell, 4);
    assert_eq!(current(&cell), Some(4));
    assert!(!current_is_none(&cell));
    scope_exit(&mut cell, 4);
    assert!(current_is_none(&cell));
}

#[test]
fn coroutine_new_and_from_status() {
    let co: Coroutine<u32> = Coroutine::new(1, StackSize::with_extra_size(64), false, &mut 11, 100, Some(5), Some(20));
    assert_eq!(co.get_co_id(), 11);
    assert_eq!(co.get_status(), CoStatus::PENDING);
    assert!(co.is_realtime());
    assert_eq!(co.get_deadline(), Some(120));
    assert_eq!(*co.body(), 1);
    let st = co.get_schedulestatus();
    assert_eq!(st.co_id, 11);
    assert_eq!(st.status.get(&100), Some(&CoStatus::PENDING));

    let mut s = SchedulerStatus::new(Some(1), Some(2), 30);
    s.init(12);
    let c2: Coroutine<u32> = Coroutine::from_status(2, s);
    assert_eq!(c2.get_co_id(), 12);
    assert_eq!(c2.get_deadline(), Some(32));
    assert_eq!(c2.get_schedulestatus().status.get(&30), Some(&CoStatus::PENDING));

    let plain: Coroutine<u32> = Coroutine::new(3, StackSize::default(), false, &mut 13, 0, Some(5), None);
    assert!(!plain.is_realtime());
}

#[test]
fn coroutine_lifecycle_bookkeeping() {
    let mut sched: Scheduler<u32> = Scheduler::new();
    let mut co: Coroutine<u32> = Coroutine::new(0, StackSize::default(), false, &mut 1, 0, Some(10), Some(100));
    co.init(2);
    assert_eq!(co.get_status(), CoStatus::READY);
    co.resume(&mut sched, 4);
    assert_eq!(co.get_status(), CoStatus::RUNNING);
    assert_eq!(sched.get_curr_running_id(), 1);
    assert_eq!(sched.get_status_by_id(1).unwrap().curr_start_time, Some(4));
    co.set_status(CoStatus::SUSPENDED);
    co.suspend(&mut sched, 7);
    let st = sched.get_status_by_id(1).unwrap();
    assert_eq!(st.co_status, CoStatus::SUSPENDED);
    assert_eq!(st.running_time, 3);
    assert_eq!(st.expected_remaining_execution_time, Some(7));
    co.resume(&mut sched, 20);
    let ms = co.complete(2_000_020);
    assert_eq!(ms, 2);
    assert_eq!(co.get_status(), CoStatus::COMPLETED);
    let st = co.get_schedulestatus();
    assert_eq!(st.running_time, 3 + 2_000_000);
    assert_eq!(st.expected_remaining_execution_time, Some(10));
    assert_eq!(st.status.get(&2_000_020), Some(&CoStatus::COMPLETED));
}

#[test]
fn deadline_rank_order() {
    let a = {
        let mut s = SchedulerStatus::new(Some(1), Some(10), 0);
        s.init(1);
        s
    };
    let b = {
        let mut s = SchedulerStatus::new(Some(1), Some(20), 0);
        s.init(2);
        s
    };
    let none = SchedulerStatus::new(None, None, 0);
    assert_eq!(a.cmp(&b), Ordering::Greater);
    assert_eq!(b.cmp(&a), Ordering::Less);
    assert_eq!(a.cmp(&a.clone()), Ordering::Equal);
    assert_eq!(none.cmp(&a), Ordering::Greater);
    assert!(a > b);
    assert!(a == a.clone());
    assert!(a != b);
    let ca: Coroutine<u32> = Coroutine::from_status(0, a.clone());
    let cb: Coroutine<u32> = Coroutine::from_status(0, b.clone());
    assert_eq!(ca.cmp(&cb), Ordering::Greater);
    assert!(ca > cb);
    assert!(ca != cb);
}

#[test]
fn coroutine_new_draws_fresh_ids() {
    let mut next = 7;
    let a: Coroutine<u32> = Coroutine::new(0, StackSize::default(), false, &mut next, 0, None, None);
    let b: Coroutine<u32> = Coroutine::new(0, StackSize::default(), true, &mut next, 3, None, None);
    assert_eq!(a.get_co_id(), 7);
    assert_eq!(b.get_co_id(), 8);
    assert_eq!(next, 9);
    assert_eq!(a.get_status(), CoStatus::PENDING);
    assert_eq!(b.get_status(), CoStatus::READY);
    assert_eq!(b.get_schedulestatus().status.get(&3), Some(&CoStatus::READY));
}
