use hyper_scheduler::axum::get_port;
use hyper_scheduler::axum::server::{get_start, init_start, record_latency, ServerStats};
use hyper_scheduler::result::FuncResult;
use hyper_scheduler::runwasm::{get_status_by_name, Registry};
use hyper_scheduler::scheduler::Scheduler;
use hyper_scheduler::task::{CoStatus, SchedulerStatus};
use std::collections::HashMap;

#[test]
fn port_is_3001() {
    assert_eq!(get_port(), 3001);
}

#[test]
fn first_request_time_is_kept() {
    let mut start = None;
    init_start(&mut start, 10);
    init_start(&mut start, 20);
    assert_eq!(get_start(&start), 10);
}

#[test]
fn latency_histogram_counts_from_two() {
    let mut h = HashMap::new();
    record_latency(&mut h, 5);
    assert_eq!(h.get(&5), Some(&2));
    record_latency(&mut h, 5);
    assert_eq!(h.get(&5), Some(&3));
    record_latency(&mut h, -1);
    assert_eq!(h.get(&-1), Some(&2));
}

#[test]
fn throughput_sample_every_ten_thousand() {
    let mut st = ServerStats::new();
    assert_eq!(st.on_connection(0), 1);
    for _ in 0..9998 {
        st.on_connection(0);
    }
    assert_eq!(st.get_throughput().len(), 0);
    st.record_admission(20, 5, 7);
    assert_eq!(st.on_connection(123), 10000);
    assert_eq!(st.get_throughput(), &vec![(123, 10000, 1)]);
}

#[test]
fn admissions_and_averages() {
    let mut st = ServerStats::new();
    assert_eq!(st.average_latencies(), None);
    st.record_admission(20, 10, 100);
    st.record_admission(100, 20, 200);
    st.record_admission(7, 31, 301);
    assert_eq!(st.get_cnt(), (3, 1, 1));
    assert_eq!(st.average_latencies(), Some((200, 20)));
}

#[test]
fn result_read_after_write() {
    let mut r: FuncResult<u8> = FuncResult::new();
    assert_eq!(r.poll_result(1), None);
    r.set_result("[I32(832040)]");
    assert_eq!(r.set_completed(), Some(1));
    assert_eq!(r.poll_result(2), Some("[I32(832040)]".to_string()));
    r.set_result("later");
    assert_eq!(r.poll_result(3), Some("later".to_string()));
    assert_eq!(r.set_completed(), None);
}

#[test]
fn status_by_name_adds_running_stretch() {
    let mut sched: Scheduler<u32> = Scheduler::new();
    let mut names: Registry<u64> = Registry::new();
    assert!(get_status_by_name(&sched, &names, "scc1", 0).is_none());
    names.insert("scc1".to_string(), 4);
    assert!(get_status_by_name(&sched, &names, "scc1", 0).is_none());
    let mut s = SchedulerStatus::new(None, None, 0);
    s.init(4);
    s.co_status = CoStatus::RUNNING;
    s.running_time = 10;
    s.curr_start_time = Some(100);
    sched.update_status(4, s);
    let got = get_status_by_name(&sched, &names, "scc1", 150).unwrap();
    assert_eq!(got.running_time, 60);
    assert_eq!(got.co_status, CoStatus::RUNNING);
    // the stored record is unchanged
    assert_eq!(sched.get_status_by_id(4).unwrap().running_time, 10);
}
