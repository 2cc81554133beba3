use hyper_scheduler::scheduler::worker::Worker;
use hyper_scheduler::scheduler::Scheduler;
use hyper_scheduler::task::stack::StackSize;
use hyper_scheduler::task::{CoStatus, Coroutine, SchedulerStatus};

fn plain(id: u64) -> Coroutine<u32> {
    Coroutine::new(id as u32, StackSize::default(), false, &mut id.clone(), 0, None, None)
}

fn realtime(id: u64, spawn: u64, eet: u64, rd: u64) -> Coroutine<u32> {
    Coroutine::new(id as u32, StackSize::default(), false, &mut id.clone(), spawn, Some(eet), Some(rd))
}

fn status(id: u64, spawn: u64, eet: Option<u64>, rd: Option<u64>) -> SchedulerStatus {
    let mut s = SchedulerStatus::new(eet, rd, spawn);
    s.init(id);
    s
}

#[test]
fn global_queue_is_fifo() {
    let mut s: Scheduler<u32> = Scheduler::new();
    s.push(plain(1), false);
    s.push(plain(2), false);
    s.push(plain(3), false);
    assert_eq!(s.get_length(), 3);
    assert_eq!(s.pop().unwrap().get_co_id(), 1);
    s.push(plain(4), false);
    assert_eq!(s.pop().unwrap().get_co_id(), 2);
    assert_eq!(s.pop().unwrap().get_co_id(), 3);
    assert_eq!(s.pop().unwrap().get_co_id(), 4);
    assert!(s.pop().is_none());
    assert_eq!(s.get_length(), 0);
}

#[test]
fn realtime_queue_is_earliest_deadline_first() {
    let mut s: Scheduler<u32> = Scheduler::new();
    s.push(realtime(1, 0, 10, 300), true);
    s.push(realtime(2, 0, 10, 100), true);
    s.push(plain(3), true);
    s.push(realtime(4, 0, 10, 200), true);
    assert_eq!(s.get_realtime_length(), 4);
    assert_eq!(s.get_length(), 0);
    // no deadline ranks first, then the earliest deadline
    assert_eq!(s.pop_realtime().unwrap().get_co_id(), 3);
    assert_eq!(s.pop_realtime().unwrap().get_co_id(), 2);
    assert_eq!(s.pop_realtime().unwrap().get_co_id(), 4);
    assert_eq!(s.pop_realtime().unwrap().get_co_id(), 1);
    assert!(s.pop_realtime().is_none());
}

#[test]
fn slot_holds_one_coroutine() {
    let mut s: Scheduler<u32> = Scheduler::new();
    assert!(s.set_slot(plain(1)).is_none());
    let back = s.set_slot(plain(2));
    assert_eq!(back.unwrap().get_co_id(), 2);
    assert_eq!(s.get_slot().unwrap().get_co_id(), 1);
    assert!(s.get_slot().is_none());
}

#[test]
fn status_lookup_prefers_live_then_completed() {
    let mut s: Scheduler<u32> = Scheduler::new();
    assert!(s.get_status_by_id(5).is_none());
    let mut a = status(5, 0, None, None);
    a.co_status = CoStatus::RUNNING;
    s.update_status(5, a);
    assert_eq!(s.get_status_by_id(5).unwrap().co_status, CoStatus::RUNNING);
    let mut b = status(5, 0, None, None);
    b.co_status = CoStatus::COMPLETED;
    s.update_completed_status(5, b);
    assert_eq!(s.get_status_by_id(5).unwrap().co_status, CoStatus::COMPLETED);
    assert!(s.get_status().is_empty());
    assert_eq!(s.get_completed_status().len(), 1);
}

#[test]
fn end_deadline_is_latest_live_deadline() {
    let mut s: Scheduler<u32> = Scheduler::new();
    assert_eq!(s.get_end_ddl(), None);
    s.update_status(1, status(1, 0, None, None));
    assert_eq!(s.get_end_ddl(), None);
    s.update_status(2, status(2, 10, Some(5), Some(100)));
    s.update_status(3, status(3, 0, Some(5), Some(50)));
    assert_eq!(s.get_end_ddl(), Some(110));
}

#[test]
fn spare_time_table() {
    let mut s: Scheduler<u32> = Scheduler::new();
    s.update_ava_time(1, 500);
    s.update_ava_time(2, -3);
    let m = s.get_ava_time();
    assert_eq!(m.get(&1), Some(&500));
    assert_eq!(m.get(&2), Some(&-3));
    let mut n = std::collections::BTreeMap::new();
    n.insert(9u64, 1i128);
    s.update_ava_time_map(n);
    assert_eq!(s.get_ava_time().len(), 1);
}

#[test]
fn running_id_and_cancelled() {
    let mut s: Scheduler<u32> = Scheduler::new();
    assert_eq!(s.get_curr_running_id(), 0);
    s.set_curr_running_id(8);
    assert_eq!(s.get_curr_running_id(), 8);
    s.cancell(plain(4));
    s.reinit_cancelled(77);
}

#[test]
fn worker_picks_realtime_then_local_then_new_then_suspended() {
    let mut s: Scheduler<u32> = Scheduler::new();
    let mut w: Worker<u32> = Worker::new(16, 0);
    s.push(plain(1), false);
    s.push(realtime(2, 0, 5, 90), true);
    s.push(realtime(3, 0, 5, 40), true);
    w.get_task(&mut s);
    assert_eq!(w.get_len(), 3);
    assert_eq!(s.get_length(), 0);
    assert_eq!(s.get_realtime_length(), 0);
    w._spawn_local(9, &mut 9, 0);
    let co = plain(10);
    w.suspend(&mut s, co, 5);
    let mut order = Vec::new();
    loop {
        w.set_curr();
        match w.take_curr() {
            Some(co) => order.push(co.get_co_id()),
            None => break,
        }
    }
    assert_eq!(order, vec![3, 2, 9, 1, 10]);
}

#[test]
fn get_task_respects_capacity() {
    let mut s: Scheduler<u32> = Scheduler::new();
    let mut w: Worker<u32> = Worker::new(2, 1);
    for i in 1..=5 {
        s.push(plain(i), false);
    }
    w.get_task(&mut s);
    assert_eq!(w.get_len(), 2);
    assert!(w.is_full());
    assert_eq!(s.get_length(), 3);
    assert_eq!(w.get_worker_id(), 1);
}

#[test]
fn pick_next_takes_work_only_below_half() {
    let mut s: Scheduler<u32> = Scheduler::new();
    let mut w: Worker<u32> = Worker::new(4, 0);
    s.push(plain(1), false);
    w.pick_next(&mut s);
    assert_eq!(w.take_curr().unwrap().get_co_id(), 1);
    assert_eq!(w.get_len(), 1);
    w._spawn_local(2, &mut 2, 0);
    s.push(plain(3), false);
    // len 2 is not below half of 4: nothing is taken
    w.pick_next(&mut s);
    assert_eq!(s.get_length(), 1);
    assert_eq!(w.take_curr().unwrap().get_co_id(), 2);
}

#[test]
fn preemption_slot_goes_first() {
    let mut s: Scheduler<u32> = Scheduler::new();
    let mut w: Worker<u32> = Worker::new(4, 0);
    assert!(!w.preemptive(&mut s));
    s.set_slot(realtime(7, 0, 1, 10));
    assert!(w.preemptive(&mut s));
    assert_eq!(w.get_len(), 1);
    assert_eq!(w.take_curr().unwrap().get_co_id(), 7);
    assert!(s.get_slot().is_none());
}

#[test]
fn suspended_realtime_waits_with_realtime() {
    let mut s: Scheduler<u32> = Scheduler::new();
    let mut w: Worker<u32> = Worker::new(4, 0);
    let mut co = realtime(5, 0, 10, 100);
    co.resume(&mut s, 3);
    w.suspend(&mut s, co, 8);
    let st = s.get_status_by_id(5).unwrap();
    assert_eq!(st.co_status, CoStatus::SUSPENDED);
    assert_eq!(st.running_time, 5);
    assert_eq!(st.expected_remaining_execution_time, Some(5));
    let back = w.take_realtime().unwrap();
    assert_eq!(back.get_co_id(), 5);
    assert_eq!(back.get_status(), CoStatus::SUSPENDED);
    assert!(w.take_realtime().is_none());
}

#[test]
fn run_co_retires_completed() {
    let mut s: Scheduler<u32> = Scheduler::new();
    let mut w: Worker<u32> = Worker::new(4, 0);
    s.push(plain(1), false);
    w.get_task(&mut s);
    w.set_curr();
    let mut co = w.take_curr().unwrap();
    co.resume(&mut s, 10);
    let co = w.run_co(&mut s, co).expect("still running");
    let mut co = co;
    let ms = co.complete(3_000_010);
    assert_eq!(ms, 3);
    assert!(w.run_co(&mut s, co).is_none());
    assert_eq!(w.get_len(), 0);
    assert!(s.get_status().is_empty());
    let done = s.get_status_by_id(1).unwrap();
    assert_eq!(done.co_status, CoStatus::COMPLETED);
    assert_eq!(done.running_time, 3_000_000);
}

#[test]
fn get_task_takes_only_what_fits() {
    let mut s: Scheduler<u32> = Scheduler::new();
    let mut w: Worker<u32> = Worker::new(3, 0);
    for id in 1..=6 {
        s.push(plain(id), false);
    }
    s.push(realtime(7, 0, 5, 40), true);
    w.get_task(&mut s);
    // one realtime coroutine (taken whatever the capacity), then two of six
    assert_eq!(w.get_len(), 3);
    assert_eq!(s.get_length(), 4);
    assert_eq!(s.pop().unwrap().get_co_id(), 3);
}

#[test]
fn realtime_ids_and_waiting() {
    let mut s: Scheduler<u32> = Scheduler::new();
    s.push(realtime(5, 0, 5, 40), true);
    s.push(realtime(6, 0, 5, 50), true);
    assert_eq!(s.realtime_ids(), vec![(5, 5), (6, 6)]);
    let mut w: Worker<u32> = Worker::new(4, 0);
    assert!(!w.waits_realtime(5));
    w.get_task(&mut s);
    assert!(w.waits_realtime(5));
    assert!(w.waits_realtime(6));
    assert!(s.realtime_ids().is_empty());
}

#[test]
fn spawn_local_draws_an_id_and_is_ready() {
    let mut w: Worker<u32> = Worker::new(4, 0);
    let mut next = 20;
    w._spawn_local(1, &mut next, 0);
    assert_eq!(next, 21);
    w.set_curr();
    let co = w.take_curr().unwrap();
    assert_eq!(co.get_co_id(), 20);
    assert_eq!(co.get_status(), CoStatus::READY);
}

#[test]
fn time_slice_only_for_coroutines_without_deadline() {
    let mut s: Scheduler<u32> = Scheduler::new();
    let mut w: Worker<u32> = Worker::new(4, 0);
    s.push(plain(1), false);
    assert!(!w.time_slice(&mut s, true));
    assert_eq!(s.get_length(), 1);
    // one taken: the worker holds one, no reason to give way
    assert!(!w.time_slice(&mut s, false));
    s.push(plain(2), false);
    assert!(w.time_slice(&mut s, false));
    assert_eq!(w.get_len(), 2);
}

#[test]
fn realtime_comes_out_earliest_deadline_first() {
    let mut w: Worker<u32> = Worker::new(4, 0);
    w.add_realtime(realtime(1, 0, 5, 20));
    w.add_realtime(realtime(2, 0, 5, 40));
    assert_eq!(w.take_realtime().unwrap().get_co_id(), 1);
    assert_eq!(w.take_realtime().unwrap().get_co_id(), 2);
    assert!(w.take_realtime().is_none());
    assert_eq!(w.get_len(), 0);
}

#[test]
fn get_task_moves_realtime_coroutines_unchanged() {
    let mut s: Scheduler<u32> = Scheduler::new();
    let mut w: Worker<u32> = Worker::new(4, 0);
    w.add_realtime(realtime(1, 0, 5, 60));
    s.push(realtime(2, 0, 5, 20), true);
    s.push(realtime(3, 0, 5, 40), true);
    w.get_task(&mut s);
    let a = w.take_realtime().unwrap();
    assert_eq!((a.get_co_id(), *a.body(), a.get_deadline()), (2, 2, Some(20)));
    let b = w.take_realtime().unwrap();
    assert_eq!((b.get_co_id(), *b.body(), b.get_deadline()), (3, 3, Some(40)));
    let c = w.take_realtime().unwrap();
    assert_eq!((c.get_co_id(), *c.body(), c.get_status()), (1, 1, CoStatus::PENDING));
}

#[test]
fn cancelled_coroutines_become_ready() {
    let mut s: Scheduler<u32> = Scheduler::new();
    s.cancell(plain(4));
    s.push(plain(5), false);
    s.reinit_cancelled(9);
    assert_eq!(s.get_length(), 1);
    assert_eq!(s.pop().unwrap().get_co_id(), 5);
}
