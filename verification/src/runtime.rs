use crate::scheduler::Scheduler;
use crate::task::stack::StackSize;
use crate::task::{get_id, id_after, same_but_status, since, CoStatus, Coroutine, SchedulerStatus};
use std::collections::BTreeMap;
use vstd::prelude::*;

verus! {

broadcast use vstd::std_specs::btree::group_btree_axioms;

/// The verdict of admission control on a new coroutine.
#[derive(Clone, Copy, Debug, PartialEq, Eq, Structural)]
pub enum AdmissionControl {
    NOTREALTIME,
    PREEMPTIVE,
    SCHEDULABLE,
    UNSCHEDULABLE,
}

/// Admission control's verdict, the worker it picked and the record the coroutine
/// will run with. A coroutine that may run (PREEMPTIVE or SCHEDULABLE) has both; the
/// others have neither.
pub struct SchedulabilityResult {
    ac: AdmissionControl,
    worker_id: Option<u8>,
    costatus: Option<SchedulerStatus>,
}

impl SchedulabilityResult {
    pub closed spec fn ac_of(self) -> AdmissionControl {
        self.ac
    }

    pub closed spec fn worker_of(self) -> Option<u8> {
        self.worker_id
    }

    pub closed spec fn costatus_of(self) -> Option<SchedulerStatus> {
        self.costatus
    }

    #[verifier::type_invariant]
    closed spec fn inv(self) -> bool {
        if self.ac == AdmissionControl::PREEMPTIVE || self.ac == AdmissionControl::SCHEDULABLE {
            self.worker_id is Some && self.costatus is Some
        } else {
            self.worker_id is None && self.costatus is None
        }
    }

    /// A result that lets the coroutine run, on `worker_id`, with record `stat`.
    fn admitted(ac: AdmissionControl, worker_id: u8, stat: SchedulerStatus) -> (r:
        SchedulabilityResult)
        requires
            ac == AdmissionControl::PREEMPTIVE || ac == AdmissionControl::SCHEDULABLE,
        ensures
            r.ac_of() == ac,
            r.worker_of() == Some(worker_id),
            r.costatus_of() == Some(stat),
    {
        SchedulabilityResult { ac, worker_id: Some(worker_id), costatus: Some(stat) }
    }

    /// A result that lets nothing run: NOTREALTIME or UNSCHEDULABLE.
    fn refused(ac: AdmissionControl) -> (r: SchedulabilityResult)
        requires
            ac == AdmissionControl::NOTREALTIME || ac == AdmissionControl::UNSCHEDULABLE,
        ensures
            r.ac_of() == ac,
            r.worker_of() is None,
            r.costatus_of() is None,
    {
        SchedulabilityResult { ac, worker_id: None, costatus: None }
    }

    /// The verdict; what may run (PREEMPTIVE or SCHEDULABLE) is exactly what comes
    /// with a worker and a record.
    pub fn get_ac(&self) -> (r: AdmissionControl)
        ensures
            r == self.ac_of(),
            (r == AdmissionControl::PREEMPTIVE || r == AdmissionControl::SCHEDULABLE)
                <==> self.worker_of() is Some,
            (r == AdmissionControl::PREEMPTIVE || r == AdmissionControl::SCHEDULABLE)
                <==> self.costatus_of() is Some,
    {
        proof {
            use_type_invariant(self);
        }
        self.ac
    }

    pub fn get_worker_id(&self) -> (r: Option<u8>)
        ensures
            r == self.worker_of(),
    {
        self.worker_id
    }
}

/// How the table of spare times changes with a verdict.
pub enum AvaUpdate {
    /// The table stays as it is.
    Keep,
    /// The coroutine with this id gets this spare time (microseconds).
    Assign(u64, i128),
    /// The table becomes this one.
    Replace(BTreeMap<u64, i128>),
}

/// One round of admission control: either the state it looked at was in flux and the
/// round must be tried again on fresh state, or a verdict with its update of the
/// spare-time table.
pub enum AdmissionStep {
    Retry,
    Decided(SchedulabilityResult, AvaUpdate),
}

/// The first step of admission control: a coroutine without both an execution time
/// estimate and a relative deadline is not realtime; the others get a record to test.
pub enum AdmissionStart {
    NotRealtime(SchedulabilityResult),
    Check(SchedulerStatus),
}

/// Why a coroutine was not spawned.
#[derive(Clone, Copy, Debug, PartialEq, Eq, Structural)]
pub enum SpawnError {
    Unschedulable,
}

/// What spawning did.
pub enum Spawned<B> {
    /// The coroutine with this id waits in a run queue.
    Queued(u64),
    /// The coroutine with this id is to preempt the running one: the worker must be
    /// signalled. If the preemption slot was taken, the coroutine comes back to be
    /// offered to the slot again.
    Preempting(u64, Option<Coroutine<B>>),
}

/// Whole microseconds of a duration in nanoseconds, as `Duration::as_micros` counts them.
pub open spec fn micros(d: u64) -> int {
    (d / 1000) as int
}

/// The largest number of whole microseconds a `u64` of nanoseconds holds.
pub open spec fn max_micros() -> int {
    micros(u64::MAX)
}

/// No two records share an id.
pub open spec fn ids_distinct(q: Seq<SchedulerStatus>) -> bool {
    forall|i: int, j: int|
        0 <= i < q.len() && 0 <= j < q.len() && i != j ==> #[trigger] q[i].co_id != #[trigger] q[j].co_id
}

/// Every record is well formed.
pub open spec fn all_wf(q: Seq<SchedulerStatus>) -> bool {
    forall|i: int| 0 <= i < q.len() ==> (#[trigger] q[i]).wf()
}

pub open spec fn has_id(q: Seq<SchedulerStatus>, id: u64) -> bool {
    exists|i: int| 0 <= i < q.len() && (#[trigger] q[i]).co_id == id
}

/// The index of the record of coroutine `id`.
pub open spec fn idx_of(q: Seq<SchedulerStatus>, id: u64) -> int {
    choose|i: int| 0 <= i < q.len() && (#[trigger] q[i]).co_id == id
}

/// The remaining execution time of `s` once the running coroutine `curr` has been
/// charged `elapsed` nanoseconds (down to zero).
pub open spec fn rem_after(s: SchedulerStatus, curr: u64, elapsed: u64) -> u64 {
    let e = s.expected_remaining_execution_time->0;
    if s.co_id == curr && s.absolute_deadline is Some {
        if e > elapsed {
            (e - elapsed) as u64
        } else {
            0
        }
    } else {
        e
    }
}

/// `s` has a deadline, before `bound` where there is a bound.
pub open spec fn counts(s: SchedulerStatus, bound: Option<u64>) -> bool {
    match s.absolute_deadline {
        None => false,
        Some(x) => match bound {
            None => true,
            Some(b) => x < b,
        },
    }
}

/// The total remaining execution time (microseconds) of the records that `counts`.
pub open spec fn sum_us(q: Seq<SchedulerStatus>, curr: u64, elapsed: u64, bound: Option<u64>) -> int
    decreases q.len(),
{
    if q.len() == 0 {
        0
    } else {
        sum_us(q.drop_last(), curr, elapsed, bound) + if counts(q.last(), bound) {
            micros(rem_after(q.last(), curr, elapsed))
        } else {
            0
        }
    }
}

/// `s` has a deadline later than `d`.
pub open spec fn later(s: SchedulerStatus, d: u64) -> bool {
    s.absolute_deadline matches Some(x) && x > d
}

/// Every coroutine with a later deadline that has a spare time keeps enough of it for
/// its remaining execution time once `c` microseconds are taken from it.
pub open spec fn ava_ok(
    m: Map<u64, i128>,
    q: Seq<SchedulerStatus>,
    d: u64,
    c: int,
    curr: u64,
    elapsed: u64,
) -> bool {
    forall|i: int|
        0 <= i < q.len() && later(#[trigger] q[i], d) && m.contains_key(q[i].co_id) ==> m[q[i].co_id]
            - c >= micros(rem_after(q[i], curr, elapsed))
}

/// Some coroutine with a deadline later than `d` has id `k`.
pub open spec fn later_id(q: Seq<SchedulerStatus>, d: u64, k: u64) -> bool {
    exists|i: int| 0 <= i < q.len() && later(#[trigger] q[i], d) && q[i].co_id == k
}

/// The spare-time table after `c` microseconds are taken from every coroutine with a
/// deadline later than `d`.
pub open spec fn ava_after(m: Map<u64, i128>, q: Seq<SchedulerStatus>, d: u64, c: int) -> Map<
    u64,
    i128,
> {
    Map::new(
        |k: u64| m.contains_key(k),
        |k: u64|
            if later_id(q, d, k) {
                (m[k] - c) as i128
            } else {
                m[k]
            },
    )
}

/// No deadline in `q` comes before `d`.
pub open spec fn earliest(q: Seq<SchedulerStatus>, d: u64) -> bool {
    forall|i: int| 0 <= i < q.len() && (#[trigger] q[i]).absolute_deadline is Some ==> d <= q[i].absolute_deadline->0
}

/// Spare times far enough from the ends of `i128` to take a remaining time from.
pub open spec fn ava_in_range(m: Map<u64, i128>) -> bool {
    forall|k: u64| m.contains_key(k) ==> -0x4000_0000_0000_0000_0000_0000_0000_0000 <= #[trigger] m[k]
        <= 0x4000_0000_0000_0000_0000_0000_0000_0000
}

/// The verdict of one round of admission control for record `co` (deadline `d`,
/// remaining time `c`), given the live records `q` of its worker (`None` where they
/// could not be read), the running coroutine `curr`, the latest deadline admitted
/// `end_ddl` and the spare-time table `ava`. `None` means the round must be retried.
pub open spec fn spec_step_ac(
    co: SchedulerStatus,
    q: Option<Seq<SchedulerStatus>>,
    curr: u64,
    end_ddl: Option<u64>,
    ava: Option<Map<u64, i128>>,
    now: u64,
) -> Option<AdmissionControl> {
    let d = co.absolute_deadline->0;
    let c = co.expected_remaining_execution_time->0;
    match q {
        None => Some(AdmissionControl::SCHEDULABLE),
        Some(q) => {
            if q.len() == 0 {
                Some(AdmissionControl::SCHEDULABLE)
            } else if !has_id(q, curr) || q[idx_of(q, curr)].curr_start_time is None {
                None
            } else if q[idx_of(q, curr)].absolute_deadline is None {
                Some(AdmissionControl::PREEMPTIVE)
            } else if end_ddl matches Some(e) && c <= since(d, e) {
                Some(AdmissionControl::SCHEDULABLE)
            } else {
                let elapsed = since(now, q[idx_of(q, curr)].curr_start_time->0);
                if micros(since(d, now)) - sum_us(q, curr, elapsed, Some(d)) < micros(c) {
                    Some(AdmissionControl::UNSCHEDULABLE)
                } else if ava matches Some(m) && !ava_ok(m, q, d, micros(c), curr, elapsed) {
                    Some(AdmissionControl::UNSCHEDULABLE)
                } else if earliest(q, d) {
                    Some(AdmissionControl::PREEMPTIVE)
                } else {
                    Some(AdmissionControl::SCHEDULABLE)
                }
            }
        },
    }
}

/// How one round of admission control changes the spare-time table:
/// 0 keeps it, 1 sets the new coroutine's entry to `spec_step_ava_value`,
/// 2 replaces it with `spec_step_ava_map`.
pub open spec fn spec_step_ava_kind(
    co: SchedulerStatus,
    q: Option<Seq<SchedulerStatus>>,
    curr: u64,
    end_ddl: Option<u64>,
    ava: Option<Map<u64, i128>>,
    now: u64,
) -> int {
    let d = co.absolute_deadline->0;
    let c = co.expected_remaining_execution_time->0;
    match q {
        None => 0,
        Some(q) => {
            if q.len() == 0 {
                1
            } else if !has_id(q, curr) || q[idx_of(q, curr)].curr_start_time is None {
                0
            } else if q[idx_of(q, curr)].absolute_deadline is None {
                1
            } else if end_ddl matches Some(e) && c <= since(d, e) {
                1
            } else if spec_step_ac(co, Some(q), curr, end_ddl, ava, now) == Some(
                AdmissionControl::UNSCHEDULABLE,
            ) {
                0
            } else if ava is Some {
                2
            } else {
                0
            }
        },
    }
}

/// The spare time a round gives the new coroutine where it sets one.
pub open spec fn spec_step_ava_value(
    co: SchedulerStatus,
    q: Seq<SchedulerStatus>,
    curr: u64,
    now: u64,
) -> int {
    let d = co.absolute_deadline->0;
    let c = co.expected_remaining_execution_time->0;
    if q.len() == 0 || q[idx_of(q, curr)].absolute_deadline is None {
        micros((since(d, now) - c) as u64)
    } else {
        let elapsed = since(now, q[idx_of(q, curr)].curr_start_time->0);
        micros(since(d, now)) - sum_us(q, curr, elapsed, None)
    }
}

/// The table a round leaves where it replaces it.
pub open spec fn spec_step_ava_map(
    co: SchedulerStatus,
    q: Seq<SchedulerStatus>,
    ava: Map<u64, i128>,
) -> Map<u64, i128> {
    ava_after(
        ava,
        q,
        co.absolute_deadline->0,
        micros(co.expected_remaining_execution_time->0),
    )
}

/// The round does not take a remaining time from less than it.
pub open spec fn step_no_underflow(
    co: SchedulerStatus,
    q: Option<Seq<SchedulerStatus>>,
    curr: u64,
    now: u64,
) -> bool {
    let d = co.absolute_deadline->0;
    let c = co.expected_remaining_execution_time->0;
    q matches Some(q) ==> (q.len() == 0 || (has_id(q, curr) && q[idx_of(
        q,
        curr,
    )].curr_start_time is Some && q[idx_of(q, curr)].absolute_deadline is None)) ==> c <= since(
        d,
        now,
    )
}

/// The records a snapshot holds.
pub open spec fn snapshot_view(snapshot: Option<&Vec<SchedulerStatus>>) -> Option<Seq<SchedulerStatus>> {
    match snapshot {
        Some(q) => Some(q@),
        None => None,
    }
}

/// The spare times a table holds.
pub open spec fn ava_view(ava: Option<BTreeMap<u64, i128>>) -> Option<Map<u64, i128>> {
    match ava {
        Some(m) => Some(m@),
        None => None,
    }
}

/// `co` is the coroutine spawned with `body` for the admitted record `s`, as
/// `Coroutine::from_status` makes it: the record's id and deadline, PENDING recorded at
/// the spawn time, and the default stack.
pub open spec fn spawned_from<B>(co: Coroutine<B>, s: SchedulerStatus, body: B) -> bool {
    &&& co.spec_id() == s.co_id
    &&& co.spec_body() == body
    &&& co.spec_status() == CoStatus::PENDING
    &&& co.spec_stack_size().spec_size() == 0
    &&& co.deadline() == s.absolute_deadline
    &&& co.sched().co_status == CoStatus::PENDING
    &&& co.sched().history() == s.history().insert(s.spawn_time, CoStatus::PENDING)
    &&& same_but_status(co.sched(), s)
}

/// The number of worker threads is what admission control reads of the runtime.
pub struct Runtime {
    threads: usize,
}

impl Default for Runtime {
    /// One worker.
    fn default() -> (r: Runtime)
        ensures
            r.spec_threads() == 1,
    {
        Runtime::new(None)
    }
}

impl Runtime {
    pub closed spec fn spec_threads(self) -> usize {
        self.threads
    }

    #[verifier::type_invariant]
    closed spec fn inv(self) -> bool {
        self.threads > 0
    }

    /// A runtime over `worker_threads` workers; none given, or zero, means one.
    pub fn new(worker_threads: Option<u8>) -> (r: Runtime)
        ensures
            r.spec_threads() == match worker_threads {
                Some(n) => if n == 0 {
                    1
                } else {
                    n as int
                },
                None => 1,
            },
    {
        let n: u8 = match worker_threads {
            Some(n) => n,
            None => 0,
        };
        let threads: usize = if n == 0 {
            1
        } else {
            n as usize
        };
        Runtime { threads }
    }

    pub fn get_threads(&self) -> (r: usize)
        ensures
            r == self.spec_threads(),
            r > 0,
    {
        proof {
            use_type_invariant(self);
        }
        self.threads
    }

    /// The worker a coroutine goes to: its id modulo the number of workers.
    pub open spec fn worker_for(self, id: u64) -> u8 {
        (id % (self.spec_threads() as u64)) as u8
    }

    /// Starts admission control for a coroutine spawned at `now`. A realtime one
    /// draws its id from `next_id` (see `get_id`); one that is not realtime draws none.
    pub fn admission_control_result(
        &self,
        expected_execution_time: Option<u64>,
        relative_deadline: Option<u64>,
        next_id: &mut u64,
        now: u64,
    ) -> (r: AdmissionStart)
        requires
            relative_deadline matches Some(rd) ==> now + rd <= u64::MAX,
        ensures
            (relative_deadline is None || expected_execution_time is None) <==> r is NotRealtime,
            r matches AdmissionStart::NotRealtime(res) ==> {
                &&& res.ac_of() == AdmissionControl::NOTREALTIME
                &&& res.worker_of() is None
                &&& res.costatus_of() is None
                &&& *final(next_id) == *old(next_id)
            },
            r matches AdmissionStart::Check(s) ==> {
                &&& s.co_id == *old(next_id)
                &&& *final(next_id) == id_after(*old(next_id))
                &&& s.spawn_time == now
                &&& s.absolute_deadline == Some((now + relative_deadline->0) as u64)
                &&& s.expected_execution_time == expected_execution_time
                &&& s.expected_remaining_execution_time == expected_execution_time
                &&& s.worst_start_time == Some(
                    (now + relative_deadline->0 - expected_execution_time->0) as i128,
                )
                &&& s.relative_deadline == relative_deadline
                &&& s.running_time == 0
                &&& s.curr_start_time is None
                &&& s.history() == Map::<u64, crate::task::CoStatus>::empty()
                &&& s.wf()
            },
    {
        if relative_deadline.is_none() || expected_execution_time.is_none() {
            return AdmissionStart::NotRealtime(
                SchedulabilityResult::refused(AdmissionControl::NOTREALTIME),
            );
        }
        let mut co_stat = SchedulerStatus::new(expected_execution_time, relative_deadline, now);
        let id = get_id(next_id);
        co_stat.init(id);
        AdmissionStart::Check(co_stat)
    }

    /// One round of admission control for record `co_stat` at time `now`, on the state
    /// of its worker: the live records (`None` where they could not be read), the
    /// running coroutine, the latest deadline admitted and the spare-time table.
    ///
    /// With no live record the coroutine is SCHEDULABLE. While the running coroutine
    /// has no record or has not started, the round is retried. A running coroutine
    /// without deadline is preempted. Otherwise the running coroutine is charged the
    /// time since it started and the test is earliest-deadline-first: the coroutine is
    /// admitted at once if it fits after the latest deadline; else it must fit before
    /// its deadline after all work with an earlier deadline, and every coroutine with a
    /// later deadline must still fit after it. Admitted with the earliest deadline of
    /// all, it preempts.
    pub fn is_schedulable(
        &self,
        co_stat: &SchedulerStatus,
        snapshot: Option<&Vec<SchedulerStatus>>,
        curr: u64,
        end_ddl: Option<u64>,
        ava: Option<BTreeMap<u64, i128>>,
        now: u64,
    ) -> (r: AdmissionStep)
        requires
            co_stat.absolute_deadline is Some,
            co_stat.expected_remaining_execution_time is Some,
            snapshot matches Some(q) ==> ids_distinct(q@) && all_wf(q@),
            ava matches Some(m) ==> ava_in_range(m@),
            step_no_underflow(*co_stat, snapshot_view(snapshot), curr, now),
        ensures
            ({
                let q = snapshot_view(snapshot);
                let avm = ava_view(ava);
                let ac = spec_step_ac(*co_stat, q, curr, end_ddl, avm, now);
                let kind = spec_step_ava_kind(*co_stat, q, curr, end_ddl, avm, now);
                &&& (r is Retry <==> ac is None)
                &&& (r matches AdmissionStep::Decided(res, up) ==> {
                    &&& res.ac_of() == ac->0
                    &&& (res.costatus_of() matches Some(s) ==> s.equiv(*co_stat))
                    &&& (res.worker_of() matches Some(w) ==> w == self.worker_for(co_stat.co_id))
                    &&& match up {
                        AvaUpdate::Keep => kind == 0,
                        AvaUpdate::Assign(id, t) => kind == 1 && id == co_stat.co_id && t
                            == spec_step_ava_value(*co_stat, q->0, curr, now),
                        AvaUpdate::Replace(m) => kind == 2 && m@ == spec_step_ava_map(
                            *co_stat,
                            q->0,
                            avm->0,
                        ),
                    }
                })
            }),
    {
        proof {
            use_type_invariant(self);
        }
        let id = co_stat.get_co_id();
        let worker_id: u8 = (id % (self.threads as u64)) as u8;
        let d = co_stat.absolute_deadline.unwrap();
        let c = co_stat.expected_remaining_execution_time.unwrap();
        let q = match snapshot {
            None => {
                let res = SchedulabilityResult::admitted(
                    AdmissionControl::SCHEDULABLE,
                    worker_id,
                    co_stat.clone(),
                );
                return AdmissionStep::Decided(res, AvaUpdate::Keep);
            },
            Some(q) => q,
        };
        let d_now: u64 = if d >= now {
            d - now
        } else {
            0
        };
        if q.len() == 0 {
            let avail: i128 = ((d_now - c) / 1000) as i128;
            let res = SchedulabilityResult::admitted(
                AdmissionControl::SCHEDULABLE,
                worker_id,
                co_stat.clone(),
            );
            return AdmissionStep::Decided(res, AvaUpdate::Assign(id, avail));
        }
        let idx = match find_record(q, curr) {
            None => {
                return AdmissionStep::Retry;
            },
            Some(i) => i,
        };
        proof {
            lemma_idx_of(q@, curr, idx as int);
        }
        let start = match q[idx].curr_start_time {
            None => {
                return AdmissionStep::Retry;
            },
            Some(s) => s,
        };
        if q[idx].absolute_deadline.is_none() {
            let avail: i128 = ((d_now - c) / 1000) as i128;
            let res = SchedulabilityResult::admitted(
                AdmissionControl::PREEMPTIVE,
                worker_id,
                co_stat.clone(),
            );
            return AdmissionStep::Decided(res, AvaUpdate::Assign(id, avail));
        }
        let elapsed: u64 = if now >= start {
            now - start
        } else {
            0
        };
        if let Some(e) = end_ddl {
            let d_e: u64 = if d >= e {
                d - e
            } else {
                0
            };
            if c <= d_e {
                let total = sum_remaining(q, curr, elapsed, None);
                let avail: i128 = (d_now / 1000) as i128 - total;
                let res = SchedulabilityResult::admitted(
                    AdmissionControl::SCHEDULABLE,
                    worker_id,
                    co_stat.clone(),
                );
                return AdmissionStep::Decided(res, AvaUpdate::Assign(id, avail));
            }
        }
        let total = sum_remaining(q, curr, elapsed, Some(d));
        let avail: i128 = (d_now / 1000) as i128 - total;
        let c_us: i128 = (c / 1000) as i128;
        if avail < c_us {
            return AdmissionStep::Decided(
                SchedulabilityResult::refused(AdmissionControl::UNSCHEDULABLE),
                AvaUpdate::Keep,
            );
        }
        let mut up = AvaUpdate::Keep;
        if let Some(m) = ava {
            let mut m = m;
            let ok = ava_check_update(&mut m, q, d, c_us, curr, elapsed);
            if !ok {
                return AdmissionStep::Decided(
                    SchedulabilityResult::refused(AdmissionControl::UNSCHEDULABLE),
                    AvaUpdate::Keep,
                );
            }
            up = AvaUpdate::Replace(m);
        }
        let ac = if is_earliest(q, d) {
            AdmissionControl::PREEMPTIVE
        } else {
            AdmissionControl::SCHEDULABLE
        };
        AdmissionStep::Decided(SchedulabilityResult::admitted(ac, worker_id, co_stat.clone()), up)
    }

    /// Spawns a coroutine running `body` as admission control decided: a coroutine
    /// that is not realtime draws its id from `next_id` (see `get_id`) and joins the
    /// global queue; a SCHEDULABLE one joins the realtime queue with its record; a
    /// PREEMPTIVE one is recorded and offered to the preemption slot; an UNSCHEDULABLE
    /// one is refused. The completed records, the cancelled queue, the running id and
    /// the spare-time table stay as they are.
    pub fn micro_process<B>(
        &self,
        sched: &mut Scheduler<B>,
        body: B,
        schedulability_result: SchedulabilityResult,
        next_id: &mut u64,
        now: u64,
    ) -> (r: Result<Spawned<B>, SpawnError>)
        ensures
            final(sched).completed_of() == old(sched).completed_of(),
            final(sched).cancelled_of() == old(sched).cancelled_of(),
            final(sched).curr_running_of() == old(sched).curr_running_of(),
            final(sched).ava_time_of() == old(sched).ava_time_of(),
            schedulability_result.ac_of() == AdmissionControl::NOTREALTIME ==> *final(next_id)
                == id_after(*old(next_id)),
            schedulability_result.ac_of() != AdmissionControl::NOTREALTIME ==> *final(next_id)
                == *old(next_id),
            ({
                let res = schedulability_result;
                match res.ac_of() {
                    AdmissionControl::NOTREALTIME => {
                        &&& r matches Ok(Spawned::Queued(i)) && i == *old(next_id)
                        &&& final(sched).global_of().len() == old(sched).global_of().len() + 1
                        &&& final(sched).global_of().drop_last() == old(sched).global_of()
                        &&& final(sched).global_of().last().spec_id() == *old(next_id)
                        &&& final(sched).global_of().last().spec_body() == body
                        &&& final(sched).global_of().last().deadline() is None
                        &&& final(sched).global_of().last().spec_stack_size().spec_size() == 0
                        &&& final(sched).global_of().last().spec_status() == CoStatus::PENDING
                        &&& final(sched).global_of().last().id_consistent()
                        &&& final(sched).global_of().last().sched().expected_execution_time is None
                        &&& final(sched).realtime_of() == old(sched).realtime_of()
                        &&& final(sched).status_of() == old(sched).status_of()
                        &&& final(sched).slot_of() == old(sched).slot_of()
                    },
                    AdmissionControl::SCHEDULABLE => {
                        let s = res.costatus_of()->0;
                        &&& r matches Ok(Spawned::Queued(i)) && i == s.co_id
                        &&& final(sched).realtime_of().len() == old(sched).realtime_of().len() + 1
                        &&& final(sched).realtime_of().drop_last() == old(sched).realtime_of()
                        &&& final(sched).realtime_of().last().spec_id() == s.co_id
                        &&& final(sched).realtime_of().last().spec_body() == body
                        &&& final(sched).realtime_of().last().deadline() == s.absolute_deadline
                        &&& spawned_from(final(sched).realtime_of().last(), s, body)
                        &&& final(sched).status_of().dom() == old(sched).status_of().dom().insert(
                            s.co_id,
                        )
                        &&& final(sched).status_of()[s.co_id].equiv(
                            final(sched).realtime_of().last().sched(),
                        )
                        &&& final(sched).status_of() == old(sched).status_of().insert(
                            s.co_id,
                            final(sched).status_of()[s.co_id],
                        )
                        &&& final(sched).status_of()[s.co_id].co_status == CoStatus::PENDING
                        &&& final(sched).status_of()[s.co_id].history() == s.history().insert(
                            s.spawn_time,
                            CoStatus::PENDING,
                        )
                        &&& same_but_status(final(sched).status_of()[s.co_id], s)
                        &&& final(sched).global_of() == old(sched).global_of()
                        &&& final(sched).slot_of() == old(sched).slot_of()
                    },
                    AdmissionControl::PREEMPTIVE => {
                        let s = res.costatus_of()->0;
                        &&& r matches Ok(Spawned::Preempting(i, back))
                        &&& r->Ok_0->Preempting_0 == s.co_id
                        &&& (old(sched).slot_of() is None ==> {
                            &&& r->Ok_0->Preempting_1 is None
                            &&& final(sched).slot_of() is Some
                            &&& final(sched).slot_of()->0.spec_id() == s.co_id
                            &&& final(sched).slot_of()->0.spec_body() == body
                            &&& spawned_from(final(sched).slot_of()->0, s, body)
                            &&& final(sched).slot_of()->0.sched().equiv(
                                final(sched).status_of()[s.co_id],
                            )
                        })
                        &&& (old(sched).slot_of() is Some ==> {
                            &&& r->Ok_0->Preempting_1 is Some
                            &&& r->Ok_0->Preempting_1->0.spec_id() == s.co_id
                            &&& r->Ok_0->Preempting_1->0.spec_body() == body
                            &&& spawned_from(r->Ok_0->Preempting_1->0, s, body)
                            &&& r->Ok_0->Preempting_1->0.sched().equiv(
                                final(sched).status_of()[s.co_id],
                            )
                            &&& final(sched).slot_of() == old(sched).slot_of()
                        })
                        &&& final(sched).status_of().dom() == old(sched).status_of().dom().insert(
                            s.co_id,
                        )
                        &&& final(sched).status_of()[s.co_id].co_id == s.co_id
                        &&& final(sched).status_of()[s.co_id].absolute_deadline == s.absolute_deadline
                        &&& final(sched).status_of() == old(sched).status_of().insert(
                            s.co_id,
                            final(sched).status_of()[s.co_id],
                        )
                        &&& final(sched).status_of()[s.co_id].co_status == CoStatus::PENDING
                        &&& final(sched).status_of()[s.co_id].history() == s.history().insert(
                            s.spawn_time,
                            CoStatus::PENDING,
                        )
                        &&& same_but_status(final(sched).status_of()[s.co_id], s)
                        &&& final(sched).global_of() == old(sched).global_of()
                        &&& final(sched).realtime_of() == old(sched).realtime_of()
                    },
                    AdmissionControl::UNSCHEDULABLE => {
                        &&& r == Err::<Spawned<B>, SpawnError>(SpawnError::Unschedulable)
                        &&& *final(sched) == *old(sched)
                    },
                }
            }),
    {
        proof {
            use_type_invariant(&schedulability_result);
        }
        let ac = schedulability_result.get_ac();
        let status = schedulability_result.costatus;
        match ac {
            AdmissionControl::NOTREALTIME => {
                let co = Coroutine::new(body, StackSize::default(), false, next_id, now, None, None);
                let id = co.get_co_id();
                sched.push(co, false);
                Ok(Spawned::Queued(id))
            },
            AdmissionControl::PREEMPTIVE => {
                let co = Coroutine::from_status(body, status.unwrap());
                let cid = co.get_co_id();
                let stat = co.get_schedulestatus();
                sched.update_status(cid, stat);
                let back = sched.set_slot(co);
                Ok(Spawned::Preempting(cid, back))
            },
            AdmissionControl::SCHEDULABLE => {
                let co = Coroutine::from_status(body, status.unwrap());
                let stat = co.get_schedulestatus();
                let cid = co.get_co_id();
                sched.push(co, true);
                sched.update_status(cid, stat);
                Ok(Spawned::Queued(cid))
            },
            AdmissionControl::UNSCHEDULABLE => Err(SpawnError::Unschedulable),
        }
    }

    /// The record of coroutine `id`, live or completed.
    pub fn get_status_by_id<B>(&self, sched: &Scheduler<B>, id: u64) -> (r: Option<
        SchedulerStatus,
    >)
        ensures
            r is Some == sched.status_lookup(id) is Some,
            r matches Some(s) ==> s.equiv(sched.status_lookup(id)->0),
    {
        sched.get_status_by_id(id)
    }

    /// The records of all coroutines that run or wait to run.
    pub fn get_status<B>(&self, sched: &Scheduler<B>) -> (r: BTreeMap<u64, SchedulerStatus>)
        ensures
            r@ == sched.status_of(),
    {
        sched.get_status()
    }

    /// The records of the completed coroutines.
    pub fn get_completed_status<B>(&self, sched: &Scheduler<B>) -> (r: BTreeMap<
        u64,
        SchedulerStatus,
    >)
        ensures
            r@ == sched.completed_of(),
    {
        sched.get_completed_status()
    }
}

/// With distinct ids, the record found for an id is the one `idx_of` names.
pub proof fn lemma_idx_of(q: Seq<SchedulerStatus>, id: u64, i: int)
    requires
        ids_distinct(q),
        0 <= i < q.len(),
        q[i].co_id == id,
    ensures
        has_id(q, id),
        idx_of(q, id) == i,
{
    assert(has_id(q, id));
    let j = idx_of(q, id);
    assert(0 <= j < q.len() && q[j].co_id == id);
}

/// The index of the record of coroutine `id`, if there is one.
fn find_record(q: &Vec<SchedulerStatus>, id: u64) -> (r: Option<usize>)
    ensures
        r matches Some(i) ==> i < q.len() && q@[i as int].co_id == id,
        r is None ==> !has_id(q@, id),
{
    let mut i: usize = 0;
    while i < q.len()
        invariant
            i <= q.len(),
            forall|j: int| 0 <= j < i ==> (#[trigger] q@[j]).co_id != id,
        decreases q.len() - i,
    {
        if q[i].co_id == id {
            return Some(i);
        }
        i = i + 1;
    }
    None
}

/// Whether no deadline in `q` comes before `d`.
fn is_earliest(q: &Vec<SchedulerStatus>, d: u64) -> (r: bool)
    ensures
        r == earliest(q@, d),
{
    let mut i: usize = 0;
    while i < q.len()
        invariant
            i <= q.len(),
            forall|j: int|
                0 <= j < i && (#[trigger] q@[j]).absolute_deadline is Some ==> d
                    <= q@[j].absolute_deadline->0,
        decreases q.len() - i,
    {
        if let Some(x) = q[i].absolute_deadline {
            if x < d {
                assert(!earliest(q@, d)) by {
                    assert(q@[i as int].absolute_deadline is Some);
                }
                return false;
            }
        }
        i = i + 1;
    }
    true
}

/// The remaining time of `s` in whole microseconds, after charging the running
/// coroutine.
fn rem_micros(s: &SchedulerStatus, curr: u64, elapsed: u64) -> (r: i128)
    requires
        s.expected_remaining_execution_time is Some,
    ensures
        r == micros(rem_after(*s, curr, elapsed)),
        0 <= r <= max_micros(),
{
    let e = s.expected_remaining_execution_time.unwrap();
    let rem: u64 = if s.co_id == curr && s.absolute_deadline.is_some() {
        if e > elapsed {
            e - elapsed
        } else {
            0
        }
    } else {
        e
    };
    (rem / 1000) as i128
}

/// The total remaining time (microseconds) of the records with a deadline (before
/// `bound` where there is one).
fn sum_remaining(q: &Vec<SchedulerStatus>, curr: u64, elapsed: u64, bound: Option<u64>) -> (r:
    i128)
    requires
        all_wf(q@),
    ensures
        r == sum_us(q@, curr, elapsed, bound),
        0 <= r <= q.len() * max_micros(),
        r <= 0x1_0000_0000_0000_0000 * max_micros(),
{
    let mut acc: i128 = 0;
    let mut i: usize = 0;
    while i < q.len()
        invariant
            i <= q.len(),
            all_wf(q@),
            acc == sum_us(q@.take(i as int), curr, elapsed, bound),
            0 <= acc <= i * max_micros(),
        decreases q.len() - i,
    {
        let s = &q[i];
        let counted = match s.absolute_deadline {
            None => false,
            Some(x) => match bound {
                None => true,
                Some(b) => x < b,
            },
        };
        proof {
            assert(q@.take(i + 1).drop_last() =~= q@.take(i as int));
            assert(q@.take(i + 1).last() == q@[i as int]);
        }
        assert(i * max_micros() <= (i + 1) * max_micros()) by (nonlinear_arith);
        if counted {
            assert(q@[i as int].wf());
            let u = rem_micros(s, curr, elapsed);
            assert(acc + u <= (i + 1) * max_micros()) by (nonlinear_arith)
                requires
                    acc <= i * max_micros(),
                    u <= max_micros(),
            ;
            acc = acc + u;
        }
        i = i + 1;
    }
    assert(q@.take(q.len() as int) =~= q@);
    assert(q.len() * max_micros() <= 0x1_0000_0000_0000_0000 * max_micros()) by (nonlinear_arith)
        requires
            q.len() <= 0x1_0000_0000_0000_0000,
    ;
    acc
}

/// Checks every record with a deadline later than `d` against its spare time less `c`
/// microseconds, and takes `c` from those spare times.
fn ava_check_update(
    m: &mut BTreeMap<u64, i128>,
    q: &Vec<SchedulerStatus>,
    d: u64,
    c: i128,
    curr: u64,
    elapsed: u64,
) -> (ok: bool)
    requires
        ids_distinct(q@),
        all_wf(q@),
        ava_in_range(old(m)@),
        0 <= c <= max_micros(),
    ensures
        ok == ava_ok(old(m)@, q@, d, c as int, curr, elapsed),
        ok ==> final(m)@ == ava_after(old(m)@, q@, d, c as int),
{
    let ghost m0 = m@;
    assert(m0 == old(m)@);
    let mut i: usize = 0;
    while i < q.len()
        invariant
            i <= q.len(),
            ids_distinct(q@),
            all_wf(q@),
            ava_in_range(m0),
            m0 == old(m)@,
            0 <= c <= max_micros(),
            m@ == ava_after(m0, q@.take(i as int), d, c as int),
            ava_ok(m0, q@.take(i as int), d, c as int, curr, elapsed),
        decreases q.len() - i,
    {
        let s = &q[i];
        let ghost qi = q@.take(i as int);
        let ghost qn = q@.take(i + 1);
        proof {
            assert(qn[i as int] == q@[i as int]);
            assert forall|j: int| 0 <= j < i implies qn[j] == qi[j] && qi[j] == q@[j] by {}
        }
        let is_later = match s.absolute_deadline {
            Some(x) => x > d,
            None => false,
        };
        if is_later {
            let id = s.co_id;
            match m.get(&id) {
                Some(t) => {
                    let t = *t;
                    proof {
                        assert(!later_id(qi, d, id)) by {
                            if later_id(qi, d, id) {
                                let j = choose|j: int|
                                    0 <= j < qi.len() && later(#[trigger] qi[j], d) && qi[j].co_id
                                        == id;
                                assert(q@[j].co_id == q@[i as int].co_id);
                            }
                        }
                        assert(m0.contains_key(id));
                        assert(t == m0[id]);
                    }
                    assert(q@[i as int].wf());
                    let u = rem_micros(s, curr, elapsed);
                    if t - c < u {
                        assert(!ava_ok(m0, q@, d, c as int, curr, elapsed)) by {
                            assert(later(q@[i as int], d));
                        }
                        return false;
                    }
                    m.insert(id, t - c);
                    proof {
                        assert(m@ =~= ava_after(m0, qn, d, c as int)) by {
                            assert forall|k: u64| #[trigger] m0.contains_key(k) implies (later_id(
                                qn,
                                d,
                                k,
                            ) <==> (later_id(qi, d, k) || k == id)) by {
                                if later_id(qn, d, k) {
                                    let j = choose|j: int|
                                        0 <= j < qn.len() && later(#[trigger] qn[j], d)
                                            && qn[j].co_id == k;
                                    if j < i {
                                        assert(later(qi[j], d));
                                    }
                                }
                                if later_id(qi, d, k) {
                                    let j = choose|j: int|
                                        0 <= j < qi.len() && later(#[trigger] qi[j], d)
                                            && qi[j].co_id == k;
                                    assert(later(qn[j], d));
                                }
                                if k == id {
                                    assert(later(qn[i as int], d));
                                }
                            }
                        }
                        assert(ava_ok(m0, qn, d, c as int, curr, elapsed)) by {
                            assert forall|j: int|
                                0 <= j < qn.len() && later(#[trigger] qn[j], d)
                                    && m0.contains_key(qn[j].co_id) implies m0[qn[j].co_id] - c
                                >= micros(rem_after(qn[j], curr, elapsed)) by {
                                if j < i {
                                    assert(later(qi[j], d));
                                }
                            }
                        }
                    }
                },
                None => {
                    proof {
                        assert(!m0.contains_key(id));
                        assert(m@ =~= ava_after(m0, qn, d, c as int)) by {
                            assert forall|k: u64| #[trigger] m0.contains_key(k) implies (later_id(
                                qn,
                                d,
                                k,
                            ) <==> later_id(qi, d, k)) by {
                                if later_id(qn, d, k) {
                                    let j = choose|j: int|
                                        0 <= j < qn.len() && later(#[trigger] qn[j], d)
                                            && qn[j].co_id == k;
                                    if j < i {
                                        assert(later(qi[j], d));
                                    }
                                }
                                if later_id(qi, d, k) {
                                    let j = choose|j: int|
                                        0 <= j < qi.len() && later(#[trigger] qi[j], d)
                                            && qi[j].co_id == k;
                                    assert(later(qn[j], d));
                                }
                            }
                        }
                        assert(ava_ok(m0, qn, d, c as int, curr, elapsed)) by {
                            assert forall|j: int|
                                0 <= j < qn.len() && later(#[trigger] qn[j], d)
                                    && m0.contains_key(qn[j].co_id) implies m0[qn[j].co_id] - c
                                >= micros(rem_after(qn[j], curr, elapsed)) by {
                                if j < i {
                                    assert(later(qi[j], d));
                                }
                            }
                        }
                    }
                },
            }
        } else {
            proof {
                assert(m@ =~= ava_after(m0, qn, d, c as int)) by {
                    assert forall|k: u64| #[trigger] m0.contains_key(k) implies (later_id(qn, d, k)
                        <==> later_id(qi, d, k)) by {
                        if later_id(qn, d, k) {
                            let j = choose|j: int|
                                0 <= j < qn.len() && later(#[trigger] qn[j], d) && qn[j].co_id == k;
                            if j < i {
                                assert(later(qi[j], d));
                            }
                        }
                        if later_id(qi, d, k) {
                            let j = choose|j: int|
                                0 <= j < qi.len() && later(#[trigger] qi[j], d) && qi[j].co_id == k;
                            assert(later(qn[j], d));
                        }
                    }
                }
                assert(ava_ok(m0, qn, d, c as int, curr, elapsed)) by {
                    assert forall|j: int|
                        0 <= j < qn.len() && later(#[trigger] qn[j], d) && m0.contains_key(
                            qn[j].co_id,
                        ) implies m0[qn[j].co_id] - c >= micros(rem_after(qn[j], curr, elapsed)) by {
                        if j < i {
                            assert(later(qi[j], d));
                        }
                    }
                }
            }
        }
        i = i + 1;
    }
    assert(q@.take(q.len() as int) =~= q@);
    true
}

/// Earliest-deadline-first admission: when a round that charged a running realtime
/// coroutine admits the new coroutine without the shortcut after the latest deadline,
/// the new coroutine fits before its deadline after all work with an earlier
/// deadline, and every coroutine with a later deadline keeps enough spare time for
/// its own remaining work once the new one is taken from it.
pub proof fn lemma_admitted_fits(
    co: SchedulerStatus,
    q: Seq<SchedulerStatus>,
    curr: u64,
    end_ddl: Option<u64>,
    ava: Option<Map<u64, i128>>,
    now: u64,
)
    requires
        q.len() > 0,
        has_id(q, curr),
        q[idx_of(q, curr)].curr_start_time is Some,
        q[idx_of(q, curr)].absolute_deadline is Some,
        !(end_ddl matches Some(e) && co.expected_remaining_execution_time->0 <= since(
            co.absolute_deadline->0,
            e,
        )),
        spec_step_ac(co, Some(q), curr, end_ddl, ava, now) == Some(AdmissionControl::SCHEDULABLE)
            || spec_step_ac(co, Some(q), curr, end_ddl, ava, now) == Some(
            AdmissionControl::PREEMPTIVE,
        ),
    ensures
        ({
            let d = co.absolute_deadline->0;
            let c = co.expected_remaining_execution_time->0;
            let elapsed = since(now, q[idx_of(q, curr)].curr_start_time->0);
            &&& micros(since(d, now)) - sum_us(q, curr, elapsed, Some(d)) >= micros(c)
            &&& (ava matches Some(m) ==> ava_ok(m, q, d, micros(c), curr, elapsed))
            &&& (spec_step_ac(co, Some(q), curr, end_ddl, ava, now) == Some(
                AdmissionControl::PREEMPTIVE,
            ) <==> earliest(q, d))
        }),
{
}

/// A round is retried exactly while the running coroutine is unsettled: the worker
/// has live records but none for the running coroutine, or it has not started yet.
pub proof fn lemma_retry_only_while_unsettled(
    co: SchedulerStatus,
    q: Option<Seq<SchedulerStatus>>,
    curr: u64,
    end_ddl: Option<u64>,
    ava: Option<Map<u64, i128>>,
    now: u64,
)
    ensures
        spec_step_ac(co, q, curr, end_ddl, ava, now) is None <==> (q matches Some(s) && s.len() > 0
            && (!has_id(s, curr) || s[idx_of(s, curr)].curr_start_time is None)),
{
}

/// The total remaining work is never negative.
proof fn lemma_sum_us_nonneg(q: Seq<SchedulerStatus>, curr: u64, elapsed: u64, bound: Option<u64>)
    ensures
        sum_us(q, curr, elapsed, bound) >= 0,
    decreases q.len(),
{
    if q.len() > 0 {
        lemma_sum_us_nonneg(q.drop_last(), curr, elapsed, bound);
    }
}

/// No work is due before `d` where no record has a deadline before it.
proof fn lemma_sum_us_none_earlier(q: Seq<SchedulerStatus>, curr: u64, elapsed: u64, d: u64)
    requires
        forall|i: int|
            0 <= i < q.len() && (#[trigger] q[i]).absolute_deadline is Some ==> q[i].absolute_deadline->0
                >= d,
    ensures
        sum_us(q, curr, elapsed, Some(d)) == 0,
    decreases q.len(),
{
    if q.len() > 0 {
        let p = q.drop_last();
        assert forall|i: int|
            0 <= i < p.len() && (#[trigger] p[i]).absolute_deadline is Some implies p[i].absolute_deadline->0
            >= d by {
            assert(p[i] == q[i]);
        }
        lemma_sum_us_none_earlier(p, curr, elapsed, d);
        assert(q.last() == q[q.len() - 1]);
    }
}

/// Work due later never counts against a new coroutine: adding the record of a
/// coroutine that is not running and has no deadline before the new one's (and no
/// spare time recorded) leaves the verdict of a round as it was.
pub proof fn lemma_later_work_ignored(
    co: SchedulerStatus,
    q: Seq<SchedulerStatus>,
    t: SchedulerStatus,
    curr: u64,
    end_ddl: Option<u64>,
    ava: Option<Map<u64, i128>>,
    now: u64,
)
    requires
        ids_distinct(q.push(t)),
        has_id(q, curr),
        t.co_id != curr,
        co.absolute_deadline is Some,
        t.absolute_deadline matches Some(x) ==> x >= co.absolute_deadline->0,
        ava matches Some(m) ==> !m.contains_key(t.co_id),
    ensures
        spec_step_ac(co, Some(q.push(t)), curr, end_ddl, ava, now) == spec_step_ac(
            co,
            Some(q),
            curr,
            end_ddl,
            ava,
            now,
        ),
{
    let q2 = q.push(t);
    let d = co.absolute_deadline->0;
    let i = idx_of(q, curr);
    assert(q2[i] == q[i]);
    lemma_idx_of(q2, curr, i);
    assert(q2.drop_last() =~= q);
    assert(q2.last() == t);
    assert(!counts(t, Some(d)));
    let elapsed = since(now, q[i].curr_start_time->0);
    assert(sum_us(q2, curr, elapsed, Some(d)) == sum_us(q, curr, elapsed, Some(d)));
    assert(earliest(q2, d) == earliest(q, d)) by {
        if earliest(q, d) {
            assert forall|j: int| 0 <= j < q2.len() && (#[trigger] q2[j]).absolute_deadline is Some implies d
                <= q2[j].absolute_deadline->0 by {
                if j < q.len() {
                    assert(q2[j] == q[j]);
                }
            }
        } else {
            let j = choose|j: int| 0 <= j < q.len() && (#[trigger] q[j]).absolute_deadline is Some && !(d
                <= q[j].absolute_deadline->0);
            assert(q2[j] == q[j]);
        }
    }
    if ava is Some {
        let m = ava->0;
        let c = micros(co.expected_remaining_execution_time->0);
        assert(ava_ok(m, q2, d, c, curr, elapsed) == ava_ok(m, q, d, c, curr, elapsed)) by {
            if ava_ok(m, q, d, c, curr, elapsed) {
                assert forall|j: int| 0 <= j < q2.len() && later(#[trigger] q2[j], d) && m.contains_key(
                    q2[j].co_id,
                ) implies m[q2[j].co_id] - c >= micros(rem_after(q2[j], curr, elapsed)) by {
                    if j < q.len() {
                        assert(q2[j] == q[j]);
                    }
                }
            } else {
                let j = choose|j: int|
                    0 <= j < q.len() && later(#[trigger] q[j], d) && m.contains_key(q[j].co_id) && !(
                    m[q[j].co_id] - c >= micros(rem_after(q[j], curr, elapsed)));
                assert(q2[j] == q[j]);
            }
        }
    }
}

/// An urgent coroutine preempts: when a realtime coroutine runs, no live record has a
/// deadline before the new coroutine's, and its remaining time fits before its
/// deadline, it is never refused for lack of time; it preempts unless it fits after
/// the latest deadline anyway, or a coroutine with a later deadline lacks spare time.
pub proof fn lemma_nothing_earlier_preempts(
    co: SchedulerStatus,
    q: Seq<SchedulerStatus>,
    curr: u64,
    end_ddl: Option<u64>,
    ava: Option<Map<u64, i128>>,
    now: u64,
)
    requires
        has_id(q, curr),
        q[idx_of(q, curr)].curr_start_time is Some,
        q[idx_of(q, curr)].absolute_deadline is Some,
        co.absolute_deadline is Some,
        co.expected_remaining_execution_time is Some,
        forall|i: int|
            0 <= i < q.len() && (#[trigger] q[i]).absolute_deadline is Some ==> q[i].absolute_deadline->0
                >= co.absolute_deadline->0,
        micros(co.expected_remaining_execution_time->0) <= micros(
            since(co.absolute_deadline->0, now),
        ),
        ava matches Some(m) ==> ava_ok(
            m,
            q,
            co.absolute_deadline->0,
            micros(co.expected_remaining_execution_time->0),
            curr,
            since(now, q[idx_of(q, curr)].curr_start_time->0),
        ),
    ensures
        spec_step_ac(co, Some(q), curr, end_ddl, ava, now) != Some(AdmissionControl::UNSCHEDULABLE),
        !(end_ddl matches Some(e) && co.expected_remaining_execution_time->0 <= since(
            co.absolute_deadline->0,
            e,
        )) ==> spec_step_ac(co, Some(q), curr, end_ddl, ava, now) == Some(
            AdmissionControl::PREEMPTIVE,
        ),
{
    let d = co.absolute_deadline->0;
    let elapsed = since(now, q[idx_of(q, curr)].curr_start_time->0);
    lemma_sum_us_none_earlier(q, curr, elapsed, d);
}

/// A waiting coroutine's work counts in full: a coroutine that is not running and has
/// an earlier deadline is not charged the running coroutine's time, so when its
/// remaining time alone leaves the new coroutine too little time before its deadline,
/// the new coroutine is refused.
pub proof fn lemma_waiting_work_counts(
    co: SchedulerStatus,
    q: Seq<SchedulerStatus>,
    t: SchedulerStatus,
    curr: u64,
    end_ddl: Option<u64>,
    ava: Option<Map<u64, i128>>,
    now: u64,
)
    requires
        ids_distinct(q.push(t)),
        has_id(q, curr),
        q[idx_of(q, curr)].curr_start_time is Some,
        q[idx_of(q, curr)].absolute_deadline is Some,
        t.co_id != curr,
        co.absolute_deadline is Some,
        co.expected_remaining_execution_time is Some,
        t.absolute_deadline matches Some(x) && x < co.absolute_deadline->0,
        t.expected_remaining_execution_time is Some,
        !(end_ddl matches Some(e) && co.expected_remaining_execution_time->0 <= since(
            co.absolute_deadline->0,
            e,
        )),
        micros(since(co.absolute_deadline->0, now)) - micros(
            t.expected_remaining_execution_time->0,
        ) < micros(co.expected_remaining_execution_time->0),
    ensures
        spec_step_ac(co, Some(q.push(t)), curr, end_ddl, ava, now) == Some(
            AdmissionControl::UNSCHEDULABLE,
        ),
{
    let q2 = q.push(t);
    let d = co.absolute_deadline->0;
    let i = idx_of(q, curr);
    assert(q2[i] == q[i]);
    lemma_idx_of(q2, curr, i);
    assert(q2.drop_last() =~= q);
    assert(q2.last() == t);
    let elapsed = since(now, q[i].curr_start_time->0);
    lemma_sum_us_nonneg(q, curr, elapsed, Some(d));
    assert(rem_after(t, curr, elapsed) == t.expected_remaining_execution_time->0);
    assert(sum_us(q2, curr, elapsed, Some(d)) == sum_us(q, curr, elapsed, Some(d)) + micros(
        t.expected_remaining_execution_time->0,
    ));
}

/// The coroutine that preempts is realtime: one spawned for an admitted record with a
/// deadline and an execution time estimate keeps both, so the worker waits it with the
/// realtime coroutines and never slices it.
pub proof fn lemma_spawned_is_realtime<B>(co: Coroutine<B>, s: SchedulerStatus, body: B)
    requires
        spawned_from(co, s, body),
        s.absolute_deadline is Some,
        s.expected_execution_time is Some,
    ensures
        co.deadline() == s.absolute_deadline,
        co.sched().absolute_deadline is Some && co.sched().expected_execution_time is Some,
        co.spec_id() == s.co_id,
{
}

/// Where nothing counts, no work is due.
proof fn lemma_sum_us_zero(q: Seq<SchedulerStatus>, curr: u64, elapsed: u64, bound: Option<u64>)
    requires
        forall|j: int| 0 <= j < q.len() ==> !counts(#[trigger] q[j], bound),
    ensures
        sum_us(q, curr, elapsed, bound) == 0,
    decreases q.len(),
{
    if q.len() > 0 {
        let p = q.drop_last();
        assert forall|j: int| 0 <= j < p.len() implies !counts(#[trigger] p[j], bound) by {
            assert(p[j] == q[j]);
        }
        lemma_sum_us_zero(p, curr, elapsed, bound);
        assert(q.last() == q[q.len() - 1]);
    }
}

/// Where only record `k` may count, the work due is at most its part.
proof fn lemma_sum_us_one(q: Seq<SchedulerStatus>, curr: u64, elapsed: u64, bound: Option<u64>, k: int)
    requires
        0 <= k < q.len(),
        forall|j: int| 0 <= j < q.len() && j != k ==> !counts(#[trigger] q[j], bound),
    ensures
        sum_us(q, curr, elapsed, bound) <= micros(rem_after(q[k], curr, elapsed)),
    decreases q.len(),
{
    let p = q.drop_last();
    assert(q.last() == q[q.len() - 1]);
    if k == q.len() - 1 {
        assert forall|j: int| 0 <= j < p.len() implies !counts(#[trigger] p[j], bound) by {
            assert(p[j] == q[j]);
        }
        lemma_sum_us_zero(p, curr, elapsed, bound);
    } else {
        assert forall|j: int| 0 <= j < p.len() && j != k implies !counts(#[trigger] p[j], bound) by {
            assert(p[j] == q[j]);
        }
        assert(p[k] == q[k]);
        lemma_sum_us_one(p, curr, elapsed, bound, k);
    }
}

/// The running coroutine is charged the time it has run: when nothing else is due
/// before the new coroutine's deadline, the new coroutine is never refused for lack
/// of time as long as it fits after what is left of the running coroutine's
/// estimate, its estimate less the time since it started (down to zero).
pub proof fn lemma_running_work_charged(
    co: SchedulerStatus,
    q: Seq<SchedulerStatus>,
    curr: u64,
    end_ddl: Option<u64>,
    now: u64,
)
    requires
        ids_distinct(q),
        has_id(q, curr),
        q[idx_of(q, curr)].curr_start_time is Some,
        q[idx_of(q, curr)].absolute_deadline is Some,
        q[idx_of(q, curr)].expected_remaining_execution_time is Some,
        co.absolute_deadline is Some,
        co.expected_remaining_execution_time is Some,
        forall|j: int|
            0 <= j < q.len() && (#[trigger] q[j]).co_id != curr && q[j].absolute_deadline is Some
                ==> q[j].absolute_deadline->0 >= co.absolute_deadline->0,
        ({
            let r = q[idx_of(q, curr)];
            let e = r.expected_remaining_execution_time->0;
            let run = since(now, r.curr_start_time->0);
            let left: int = if e > run {
                e - run
            } else {
                0
            };
            micros(co.expected_remaining_execution_time->0) <= micros(
                since(co.absolute_deadline->0, now),
            ) - micros(left as u64)
        }),
    ensures
        spec_step_ac(co, Some(q), curr, end_ddl, None, now) != Some(AdmissionControl::UNSCHEDULABLE),
{
    let k = idx_of(q, curr);
    let d = co.absolute_deadline->0;
    let elapsed = since(now, q[k].curr_start_time->0);
    assert forall|j: int| 0 <= j < q.len() && j != k implies !counts(#[trigger] q[j], Some(d)) by {
        if q[j].co_id == curr {
            assert(q[k].co_id == curr);
        }
    }
    lemma_sum_us_one(q, curr, elapsed, Some(d), k);
}

} // verus!
