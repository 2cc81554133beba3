use std::collections::HashMap;
use vstd::prelude::*;

verus! {

broadcast use vstd::std_specs::hash::group_hash_axioms;

/// Records `now` as the time of the first request, unless one is recorded already.
pub fn init_start(start: &mut Option<u64>, now: u64)
    ensures
        *final(start) == if old(start).is_none() {
            Some(now)
        } else {
            *old(start)
        },
{
    if start.is_none() {
        *start = Some(now);
    }
}

/// The time of the first request.
pub fn get_start(start: &Option<u64>) -> (r: u64)
    requires
        start.is_some(),
    ensures
        r == start->0,
{
    start.unwrap()
}

/// Counts a coroutine that completed `time` milliseconds after it was spawned in the
/// latency histogram. A time seen for the first time starts at 2, as
/// `*entry(time).or_insert(1) += 1` makes it.
pub fn record_latency(latency: &mut HashMap<i32, i32>, time: i32)
    requires
        old(latency)@.contains_key(time) ==> old(latency)@[time] < i32::MAX,
    ensures
        final(latency)@ == old(latency)@.insert(
            time,
            if old(latency)@.contains_key(time) {
                (old(latency)@[time] + 1) as i32
            } else {
                2
            },
        ),
{
    let n: i32 = match latency.get(&time) {
        Some(c) => *c + 1,
        None => 2,
    };
    latency.insert(time, n);
}

/// `x + 1` as an atomic `fetch_add(1)` leaves a `u32` counter.
pub open spec fn bump(x: u32) -> u32 {
    if x == u32::MAX {
        0
    } else {
        (x + 1) as u32
    }
}

/// The request counters of the service: admitted calls (in all and for the two
/// benchmark deadlines, 20 ms and 100 ms), connections, the accumulated warm-start and
/// scheduling latencies (nanoseconds), and a throughput sample every 10000
/// connections (time since the first request, connections, admitted calls).
pub struct ServerStats {
    cnt: u32,
    cnt_27: u32,
    cnt_30: u32,
    connection: u32,
    warm_start_time: u128,
    sched_time: u128,
    throughput: Vec<(u64, u32, u32)>,
}

impl ServerStats {
    pub closed spec fn cnt_of(self) -> u32 {
        self.cnt
    }

    pub closed spec fn cnt_27_of(self) -> u32 {
        self.cnt_27
    }

    pub closed spec fn cnt_30_of(self) -> u32 {
        self.cnt_30
    }

    pub closed spec fn connection_of(self) -> u32 {
        self.connection
    }

    pub closed spec fn warm_start_of(self) -> u128 {
        self.warm_start_time
    }

    pub closed spec fn sched_time_of(self) -> u128 {
        self.sched_time
    }

    pub closed spec fn throughput_of(self) -> Seq<(u64, u32, u32)> {
        self.throughput@
    }

    /// No call yet; the connection counter starts at 1.
    pub fn new() -> (r: ServerStats)
        ensures
            r.cnt_of() == 0,
            r.cnt_27_of() == 0,
            r.cnt_30_of() == 0,
            r.connection_of() == 1,
            r.warm_start_of() == 0,
            r.sched_time_of() == 0,
            r.throughput_of() == Seq::<(u64, u32, u32)>::empty(),
    {
        ServerStats {
            cnt: 0,
            cnt_27: 0,
            cnt_30: 0,
            connection: 1,
            warm_start_time: 0,
            sched_time: 0,
            throughput: Vec::new(),
        }
    }

    /// Counts a connection made `since_start` nanoseconds after the first request and
    /// returns its number; every 10000th number takes a throughput sample.
    pub fn on_connection(&mut self, since_start: u64) -> (r: u32)
        ensures
            r == old(self).connection_of(),
            final(self).connection_of() == bump(old(self).connection_of()),
            final(self).throughput_of() == if r % 10000 == 0 {
                old(self).throughput_of().push((since_start, r, old(self).cnt_of()))
            } else {
                old(self).throughput_of()
            },
            final(self).cnt_of() == old(self).cnt_of(),
            final(self).cnt_27_of() == old(self).cnt_27_of(),
            final(self).cnt_30_of() == old(self).cnt_30_of(),
            final(self).warm_start_of() == old(self).warm_start_of(),
            final(self).sched_time_of() == old(self).sched_time_of(),
    {
        let c = self.connection;
        self.connection = c.wrapping_add(1);
        if c % 10000 == 0 {
            self.throughput.push((since_start, c, self.cnt));
        }
        c
    }

    /// Counts an admitted call with relative deadline `ddl` (milliseconds) that took
    /// `sched_ns` to schedule and `warm_ns` from arrival to admission.
    pub fn record_admission(&mut self, ddl: u64, sched_ns: u64, warm_ns: u64)
        requires
            old(self).sched_time_of() + sched_ns <= u128::MAX,
            old(self).warm_start_of() + warm_ns <= u128::MAX,
        ensures
            final(self).sched_time_of() == old(self).sched_time_of() + sched_ns,
            final(self).warm_start_of() == old(self).warm_start_of() + warm_ns,
            final(self).cnt_of() == bump(old(self).cnt_of()),
            final(self).cnt_27_of() == if ddl == 20 {
                bump(old(self).cnt_27_of())
            } else {
                old(self).cnt_27_of()
            },
            final(self).cnt_30_of() == if ddl == 100 {
                bump(old(self).cnt_30_of())
            } else {
                old(self).cnt_30_of()
            },
            final(self).connection_of() == old(self).connection_of(),
            final(self).throughput_of() == old(self).throughput_of(),
    {
        self.sched_time = self.sched_time + sched_ns as u128;
        self.warm_start_time = self.warm_start_time + warm_ns as u128;
        self.cnt = self.cnt.wrapping_add(1);
        if ddl == 20 {
            self.cnt_27 = self.cnt_27.wrapping_add(1);
        } else if ddl == 100 {
            self.cnt_30 = self.cnt_30.wrapping_add(1);
        }
    }

    /// The average warm-start and scheduling latencies (nanoseconds, rounded down as
    /// dividing a `Duration` rounds), or `None` before any call was admitted.
    pub fn average_latencies(&self) -> (r: Option<(u128, u128)>)
        ensures
            self.cnt_of() == 0 ==> r is None,
            self.cnt_of() != 0 ==> r == Some(
                (
                    (self.warm_start_of() / (self.cnt_of() as u128)) as u128,
                    (self.sched_time_of() / (self.cnt_of() as u128)) as u128,
                ),
            ),
    {
        if self.cnt == 0 {
            return None;
        }
        let c = self.cnt as u128;
        Some((self.warm_start_time / c, self.sched_time / c))
    }

    /// The number the next connection gets.
    pub fn get_connection(&self) -> (r: u32)
        ensures
            r == self.connection_of(),
    {
        self.connection
    }

    /// The accumulated warm-start and scheduling latencies (nanoseconds).
    pub fn get_totals(&self) -> (r: (u128, u128))
        ensures
            r == (self.warm_start_of(), self.sched_time_of()),
    {
        (self.warm_start_time, self.sched_time)
    }

    pub fn get_cnt(&self) -> (r: (u32, u32, u32))
        ensures
            r == (self.cnt_of(), self.cnt_27_of(), self.cnt_30_of()),
    {
        (self.cnt, self.cnt_27, self.cnt_30)
    }

    /// The throughput samples taken so far.
    pub fn get_throughput(&self) -> (r: &Vec<(u64, u32, u32)>)
        ensures
            r@ == self.throughput_of(),
    {
        &self.throughput
    }
}

/// The first request's time stays: once a start time is recorded, later calls of
/// `init_start` keep it.
pub proof fn lemma_start_kept(first: Option<u64>, after: Option<u64>, now: u64)
    requires
        first is Some,
        after == (if first.is_none() {
            Some(now)
        } else {
            first
        }),
    ensures
        after == first,
{
}

} // verus!
