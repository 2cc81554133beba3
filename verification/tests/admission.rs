use hyper_scheduler::runtime::{
    AdmissionControl, AdmissionStart, AdmissionStep, AvaUpdate, Runtime, SpawnError, Spawned,
};
use hyper_scheduler::scheduler::Scheduler;
use hyper_scheduler::task::SchedulerStatus;
use std::collections::BTreeMap;

const MS: u64 = 1_000_000;

fn check(rt: &Runtime, eet: u64, rd: u64, id: u64, now: u64) -> SchedulerStatus {
    let mut next = id;
    match rt.admission_control_result(Some(eet), Some(rd), &mut next, now) {
        AdmissionStart::Check(s) => s,
        AdmissionStart::NotRealtime(_) => panic!("realtime expected"),
    }
}

fn running(rt: &Runtime, eet: u64, rd: u64, id: u64, spawn: u64, start: u64) -> SchedulerStatus {
    let mut s = check(rt, eet, rd, id, spawn);
    s.curr_start_time = Some(start);
    s
}

fn decided(step: AdmissionStep) -> (AdmissionControl, Option<u8>, AvaUpdate) {
    match step {
        AdmissionStep::Decided(r, up) => (r.get_ac(), r.get_worker_id(), up),
        AdmissionStep::Retry => panic!("decision expected"),
    }
}

#[test]
fn not_realtime_without_both_times() {
    let rt = Runtime::new(Some(1));
    for (eet, rd) in [(None, None), (Some(1), None), (None, Some(5))] {
        let mut next = 1;
        match rt.admission_control_result(eet, rd, &mut next, 0) {
            AdmissionStart::NotRealtime(r) => {
                assert_eq!(r.get_ac(), AdmissionControl::NOTREALTIME);
                assert_eq!(r.get_worker_id(), None);
                assert_eq!(next, 1);
            }
            AdmissionStart::Check(_) => panic!("not realtime expected"),
        }
    }
}

#[test]
fn runtime_threads() {
    assert_eq!(Runtime::new(None).get_threads(), 1);
    assert_eq!(Runtime::new(Some(0)).get_threads(), 1);
    assert_eq!(Runtime::new(Some(4)).get_threads(), 4);
    assert_eq!(Runtime::default().get_threads(), 1);
}

#[test]
fn unreadable_state_admits() {
    let rt = Runtime::new(Some(2));
    let s = check(&rt, 10 * MS, 50 * MS, 3, 0);
    let (ac, w, up) = decided(rt.is_schedulable(&s, None, 0, None, None, 0));
    assert_eq!(ac, AdmissionControl::SCHEDULABLE);
    assert_eq!(w, Some(1));
    assert!(matches!(up, AvaUpdate::Keep));
}

#[test]
fn idle_worker_admits_with_spare_time() {
    let rt = Runtime::new(Some(1));
    let s = check(&rt, 10 * MS, 50 * MS, 3, 0);
    let (ac, w, up) = decided(rt.is_schedulable(&s, Some(&vec![]), 0, None, None, 5 * MS));
    assert_eq!(ac, AdmissionControl::SCHEDULABLE);
    assert_eq!(w, Some(0));
    // 50 ms deadline - 5 ms now - 10 ms work = 35 ms
    assert!(matches!(up, AvaUpdate::Assign(3, 35_000)));
}

#[test]
fn unsettled_running_coroutine_retries() {
    let rt = Runtime::new(Some(1));
    let s = check(&rt, 10 * MS, 50 * MS, 3, 0);
    let other = check(&rt, 1 * MS, 90 * MS, 1, 0);
    // the running coroutine has no record
    assert!(matches!(rt.is_schedulable(&s, Some(&vec![other.clone()]), 2, None, None, 0), AdmissionStep::Retry));
    // the running coroutine has not started
    assert!(matches!(rt.is_schedulable(&s, Some(&vec![other]), 1, None, None, 0), AdmissionStep::Retry));
}

#[test]
fn non_realtime_running_is_preempted() {
    let rt = Runtime::new(Some(1));
    let s = check(&rt, 10 * MS, 50 * MS, 3, 0);
    let mut plain = SchedulerStatus::new(None, None, 0);
    plain.init(1);
    plain.curr_start_time = Some(0);
    let (ac, _, up) = decided(rt.is_schedulable(&s, Some(&vec![plain]), 1, None, None, 0));
    assert_eq!(ac, AdmissionControl::PREEMPTIVE);
    assert!(matches!(up, AvaUpdate::Assign(3, 40_000)));
}

#[test]
fn fits_after_latest_deadline() {
    let rt = Runtime::new(Some(1));
    let run = running(&rt, 20 * MS, 30 * MS, 1, 0, 0);
    let s = check(&rt, 10 * MS, 100 * MS, 3, 5 * MS);
    // 10 ms of work fits between the latest deadline (30 ms) and this one (105 ms)
    let (ac, _, up) = decided(rt.is_schedulable(&s, Some(&vec![run]), 1, Some(30 * MS), None, 5 * MS));
    assert_eq!(ac, AdmissionControl::SCHEDULABLE);
    // 100 ms to the deadline less the running coroutine's 15 ms left
    assert!(matches!(up, AvaUpdate::Assign(3, 85_000)));
}

#[test]
fn earliest_deadline_preempts() {
    let rt = Runtime::new(Some(1));
    let run = running(&rt, 50 * MS, 200 * MS, 1, 0, 0);
    let s = check(&rt, 30 * MS, 100 * MS, 2, 10 * MS);
    let (ac, w, up) = decided(rt.is_schedulable(&s, Some(&vec![run]), 1, Some(200 * MS), None, 10 * MS));
    assert_eq!(ac, AdmissionControl::PREEMPTIVE);
    assert_eq!(w, Some(0));
    assert!(matches!(up, AvaUpdate::Keep));
}

#[test]
fn later_deadline_queues() {
    let rt = Runtime::new(Some(1));
    let run = running(&rt, 50 * MS, 100 * MS, 1, 0, 0);
    let s = check(&rt, 20 * MS, 190 * MS, 2, 10 * MS);
    // d_new - d_last = 100 ms >= 20 ms: the shortcut admits it
    let (ac, _, _) = decided(rt.is_schedulable(&s, Some(&vec![run.clone()]), 1, Some(100 * MS), None, 10 * MS));
    assert_eq!(ac, AdmissionControl::SCHEDULABLE);
    // without the shortcut: 190 ms - 40 ms left of the running one >= 20 ms
    let (ac, _, _) = decided(rt.is_schedulable(&s, Some(&vec![run]), 1, Some(195 * MS), None, 10 * MS));
    assert_eq!(ac, AdmissionControl::SCHEDULABLE);
}

#[test]
fn too_little_time_is_refused() {
    let rt = Runtime::new(Some(1));
    let run = running(&rt, 50 * MS, 60 * MS, 1, 0, 0);
    let s = check(&rt, 30 * MS, 70 * MS, 2, 10 * MS);
    // 70 ms to the deadline, 40 ms of earlier work, 30 ms needed: fits exactly
    let (ac, _, _) = decided(rt.is_schedulable(&s, Some(&vec![run.clone()]), 1, None, None, 10 * MS));
    assert_eq!(ac, AdmissionControl::SCHEDULABLE);
    let s = check(&rt, 31 * MS, 70 * MS, 2, 10 * MS);
    let (ac, w, up) = decided(rt.is_schedulable(&s, Some(&vec![run]), 1, None, None, 10 * MS));
    assert_eq!(ac, AdmissionControl::UNSCHEDULABLE);
    assert_eq!(w, None);
    assert!(matches!(up, AvaUpdate::Keep));
}

#[test]
fn later_coroutines_keep_their_spare_time() {
    let rt = Runtime::new(Some(1));
    let run = running(&rt, 10 * MS, 20 * MS, 1, 0, 0);
    let later = check(&rt, 30 * MS, 300 * MS, 5, 0);
    let s = check(&rt, 20 * MS, 100 * MS, 2, 0);
    let mut ava = BTreeMap::new();
    ava.insert(5u64, 50_000i128);
    // 50 ms spare - 20 ms new = 30 ms >= 30 ms needed: admitted, spare time taken
    let (ac, _, up) = decided(rt.is_schedulable(&s, Some(&vec![run.clone(), later.clone()]), 1, None, Some(ava.clone()), 0));
    assert_eq!(ac, AdmissionControl::SCHEDULABLE);
    match up {
        AvaUpdate::Replace(m) => assert_eq!(m.get(&5), Some(&30_000)),
        _ => panic!("replaced table expected"),
    }
    let mut tight = BTreeMap::new();
    tight.insert(5u64, 49_999i128);
    let (ac, _, up) = decided(rt.is_schedulable(&s, Some(&vec![run, later]), 1, None, Some(tight), 0));
    assert_eq!(ac, AdmissionControl::UNSCHEDULABLE);
    assert!(matches!(up, AvaUpdate::Keep));
}

#[test]
fn spawning_follows_the_verdict() {
    let rt = Runtime::new(Some(1));
    let mut sched: Scheduler<u32> = Scheduler::new();
    let nr = match rt.admission_control_result(None, None, &mut 1, 0) {
        AdmissionStart::NotRealtime(r) => r,
        _ => panic!(),
    };
    assert!(matches!(rt.micro_process(&mut sched, 7, nr, &mut 40, 0), Ok(Spawned::Queued(40))));
    assert_eq!(sched.get_length(), 1);

    let s = check(&rt, 10 * MS, 50 * MS, 3, 0);
    let r = match rt.is_schedulable(&s, Some(&vec![]), 0, None, None, 0) {
        AdmissionStep::Decided(r, _) => r,
        _ => panic!(),
    };
    assert!(matches!(rt.micro_process(&mut sched, 8, r, &mut 41, 0), Ok(Spawned::Queued(3))));
    assert_eq!(sched.get_realtime_length(), 1);
    assert!(rt.get_status_by_id(&sched, 3).is_some());
    assert_eq!(rt.get_status(&sched).len(), 1);
    assert_eq!(rt.get_completed_status(&sched).len(), 0);

    let mut plain = SchedulerStatus::new(None, None, 0);
    plain.init(1);
    plain.curr_start_time = Some(0);
    let s = check(&rt, 10 * MS, 50 * MS, 4, 0);
    let r = match rt.is_schedulable(&s, Some(&vec![plain]), 1, None, None, 0) {
        AdmissionStep::Decided(r, _) => r,
        _ => panic!(),
    };
    match rt.micro_process(&mut sched, 9, r, &mut 42, 0) {
        Ok(Spawned::Preempting(4, None)) => {}
        _ => panic!("preemption expected"),
    }
    assert_eq!(sched.get_slot().unwrap().get_co_id(), 4);

    let run = running(&rt, 50 * MS, 60 * MS, 1, 0, 0);
    let s = check(&rt, 31 * MS, 70 * MS, 5, 10 * MS);
    let r = match rt.is_schedulable(&s, Some(&vec![run]), 1, None, None, 10 * MS) {
        AdmissionStep::Decided(r, _) => r,
        _ => panic!(),
    };
    assert!(matches!(rt.micro_process(&mut sched, 10, r, &mut 43, 0), Err(SpawnError::Unschedulable)));
}

#[test]
fn ids_are_drawn_only_where_needed() {
    let rt = Runtime::new(Some(1));
    let mut sched: Scheduler<u32> = Scheduler::new();
    let mut next = 5;
    let nr = match rt.admission_control_result(None, Some(MS), &mut next, 0) {
        AdmissionStart::NotRealtime(r) => r,
        _ => panic!(),
    };
    assert_eq!(next, 5);
    assert!(matches!(rt.micro_process(&mut sched, 1, nr, &mut next, 0), Ok(Spawned::Queued(5))));
    assert_eq!(next, 6);
    let s = match rt.admission_control_result(Some(MS), Some(10 * MS), &mut next, 0) {
        AdmissionStart::Check(s) => s,
        _ => panic!(),
    };
    assert_eq!(s.co_id, 6);
    assert_eq!(next, 7);
    let r = match rt.is_schedulable(&s, Some(&vec![]), 0, None, None, 0) {
        AdmissionStep::Decided(r, _) => r,
        _ => panic!(),
    };
    assert!(matches!(rt.micro_process(&mut sched, 2, r, &mut next, 0), Ok(Spawned::Queued(6))));
    assert_eq!(next, 7);
}
