pub mod order;
pub mod stack;

use std::collections::BTreeMap;
use vstd::prelude::*;
use crate::scheduler::Scheduler;
use self::stack::StackSize;

verus! {

broadcast use {vstd::laws_cmp::group_laws_cmp, vstd::std_specs::btree::group_btree_axioms};

/// The id counter after one id is drawn: one more, wrapping around at `u64::MAX`.
pub open spec fn id_after(next: u64) -> u64 {
    if next == u64::MAX {
        0
    } else {
        (next + 1) as u64
    }
}

/// Hands out coroutine ids: returns the counter and advances it by one,
/// wrapping around at `u64::MAX`, as an atomic `fetch_add(1)` does.
pub fn get_id(next: &mut u64) -> (id: u64)
    ensures
        id == *old(next),
        *final(next) == id_after(*old(next)),
{
    let id = *next;
    *next = next.wrapping_add(1);
    id
}

/// The id of the coroutine running on this thread, if any.
pub fn current(cell: &Option<u64>) -> (r: Option<u64>)
    ensures
        r == *cell,
{
    *cell
}

/// Whether no coroutine runs on this thread.
pub fn current_is_none(cell: &Option<u64>) -> (r: bool)
    ensures
        r == cell.is_none(),
{
    cell.is_none()
}

/// Marks coroutine `id` as the one running on this thread; none may be running.
pub fn scope_enter(cell: &mut Option<u64>, id: u64)
    requires
        old(cell).is_none(),
    ensures
        *final(cell) == Some(id),
{
    *cell = Some(id);
}

/// Marks coroutine `id`, the one running on this thread, as no longer running.
pub fn scope_exit(cell: &mut Option<u64>, id: u64)
    requires
        *old(cell) == Some(id),
    ensures
        final(cell).is_none(),
{
    *cell = None;
}

#[derive(Clone, Copy, Debug, PartialEq, Eq, Structural)]
pub enum CoStatus {
    PENDING,
    READY,
    RUNNING,
    SUSPENDED,
    COMPLETED,
    CANCELLED,
}

/// The scheduling record of one coroutine. Times are nanoseconds on the runtime's
/// monotonic clock, durations are nanoseconds.
#[derive(Debug)]
pub struct SchedulerStatus {
    pub status: BTreeMap<u64, CoStatus>,
    pub co_id: u64,
    pub co_status: CoStatus,
    pub curr_start_time: Option<u64>,
    pub running_time: u64,
    pub spawn_time: u64,
    pub expected_execution_time: Option<u64>,
    pub expected_remaining_execution_time: Option<u64>,
    /// The latest time the coroutine may start and still meet its deadline. It can lie
    /// before the clock's origin (be negative) where the expected execution time is
    /// longer than the time from the origin to the deadline.
    pub worst_start_time: Option<i128>,
    pub relative_deadline: Option<u64>,
    pub absolute_deadline: Option<u64>,
}

/// `a - b` on the monotonic clock, which saturates at zero.
pub open spec fn since(a: u64, b: u64) -> u64 {
    if a >= b {
        (a - b) as u64
    } else {
        0
    }
}

impl SchedulerStatus {
    /// The status history: the status recorded at each time.
    pub open spec fn history(self) -> Map<u64, CoStatus> {
        self.status@
    }

    /// Two records that hold the same values.
    pub open spec fn equiv(self, o: SchedulerStatus) -> bool {
        &&& self.history() == o.history()
        &&& self.co_id == o.co_id
        &&& self.co_status == o.co_status
        &&& self.curr_start_time == o.curr_start_time
        &&& self.running_time == o.running_time
        &&& self.spawn_time == o.spawn_time
        &&& self.expected_execution_time == o.expected_execution_time
        &&& self.expected_remaining_execution_time == o.expected_remaining_execution_time
        &&& self.worst_start_time == o.worst_start_time
        &&& self.relative_deadline == o.relative_deadline
        &&& self.absolute_deadline == o.absolute_deadline
    }

    /// A record whose deadline comes with an execution time estimate, as `init` makes
    /// them: the admission test reads both.
    pub open spec fn wf(self) -> bool {
        self.absolute_deadline is Some ==> (self.expected_execution_time is Some
            && self.expected_remaining_execution_time is Some)
    }

    /// `init` can compute the deadlines: a relative deadline comes with an execution
    /// time estimate, and the absolute deadline fits on the clock.
    pub open spec fn can_init(self) -> bool {
        self.relative_deadline matches Some(rd) ==> {
            &&& self.expected_execution_time is Some
            &&& self.spawn_time + rd <= u64::MAX
        }
    }

    /// A fresh record for a coroutine spawned at `spawn_time`.
    pub fn new(
        expected_execution_time: Option<u64>,
        relative_deadline: Option<u64>,
        spawn_time: u64,
    ) -> (r: SchedulerStatus)
        ensures
            r.history() == Map::<u64, CoStatus>::empty(),
            r.co_id == 0,
            r.co_status == CoStatus::PENDING,
            r.curr_start_time is None,
            r.running_time == 0,
            r.spawn_time == spawn_time,
            r.expected_execution_time == expected_execution_time,
            r.expected_remaining_execution_time == expected_execution_time,
            r.worst_start_time is None,
            r.relative_deadline == relative_deadline,
            r.absolute_deadline is None,
    {
        SchedulerStatus {
            status: BTreeMap::new(),
            co_id: 0,
            co_status: CoStatus::PENDING,
            curr_start_time: None,
            running_time: 0,
            spawn_time,
            expected_execution_time,
            expected_remaining_execution_time: expected_execution_time,
            worst_start_time: None,
            relative_deadline,
            absolute_deadline: None,
        }
    }

    /// Gives the record its id and, for a coroutine with a relative deadline, its
    /// absolute deadline (spawn time plus relative deadline) and the latest time it may
    /// start (absolute deadline minus expected execution time).
    pub fn init(&mut self, id: u64)
        requires
            old(self).can_init(),
        ensures
            final(self).co_id == id,
            match old(self).relative_deadline {
                Some(rd) => {
                    &&& final(self).absolute_deadline == Some(
                        (old(self).spawn_time + rd) as u64,
                    )
                    &&& final(self).worst_start_time == Some(
                        (old(self).spawn_time + rd
                            - old(self).expected_execution_time->0) as i128,
                    )
                },
                None => {
                    &&& final(self).absolute_deadline == old(self).absolute_deadline
                    &&& final(self).worst_start_time == old(self).worst_start_time
                },
            },
            final(self).history() == old(self).history(),
            final(self).co_status == old(self).co_status,
            final(self).curr_start_time == old(self).curr_start_time,
            final(self).running_time == old(self).running_time,
            final(self).spawn_time == old(self).spawn_time,
            final(self).expected_execution_time == old(
                self,
            ).expected_execution_time,
            final(self).expected_remaining_execution_time == old(
                self,
            ).expected_remaining_execution_time,
            final(self).relative_deadline == old(self).relative_deadline,
    {
        self.co_id = id;
        if let Some(rd) = self.relative_deadline {
            let eet = self.expected_execution_time.unwrap();
            self.absolute_deadline = Some(self.spawn_time + rd);
            self.worst_start_time = Some(self.spawn_time as i128 + rd as i128 - eet as i128);
        }
    }

    /// Recomputes the expected remaining execution time from the running time so far:
    /// what is left of the estimate, or the whole estimate again once it is overrun.
    pub fn update_remaining(&mut self)
        ensures
            final(self).expected_remaining_execution_time == match old(
                self,
            ).expected_execution_time {
                Some(eet) => Some(
                    if eet >= old(self).running_time {
                        (eet - old(self).running_time) as u64
                    } else {
                        eet
                    },
                ),
                None => old(self).expected_remaining_execution_time,
            },
            final(self).history() == old(self).history(),
            final(self).co_id == old(self).co_id,
            final(self).co_status == old(self).co_status,
            final(self).curr_start_time == old(self).curr_start_time,
            final(self).running_time == old(self).running_time,
            final(self).spawn_time == old(self).spawn_time,
            final(self).expected_execution_time == old(
                self,
            ).expected_execution_time,
            final(self).worst_start_time == old(self).worst_start_time,
            final(self).relative_deadline == old(self).relative_deadline,
            final(self).absolute_deadline == old(self).absolute_deadline,
    {
        if let Some(eet) = self.expected_execution_time {
            if eet >= self.running_time {
                self.expected_remaining_execution_time = Some(eet - self.running_time);
            } else {
                self.expected_remaining_execution_time = Some(eet);
            }
        }
    }

    /// Records `stat` as the current status and in the history at time `now`.
    pub fn update_status(&mut self, now: u64, stat: CoStatus)
        ensures
            final(self).co_status == stat,
            final(self).history() == old(self).history().insert(now, stat),
            final(self).co_id == old(self).co_id,
            final(self).curr_start_time == old(self).curr_start_time,
            final(self).running_time == old(self).running_time,
            final(self).spawn_time == old(self).spawn_time,
            final(self).expected_execution_time == old(
                self,
            ).expected_execution_time,
            final(self).expected_remaining_execution_time == old(
                self,
            ).expected_remaining_execution_time,
            final(self).worst_start_time == old(self).worst_start_time,
            final(self).relative_deadline == old(self).relative_deadline,
            final(self).absolute_deadline == old(self).absolute_deadline,
    {
        self.co_status = stat;
        self.status.insert(now, stat);
    }

    /// The running time after a stretch that started at `curr_start_time` ends at `now`.
    pub open spec fn running_time_after(self, now: u64) -> int {
        match self.curr_start_time {
            Some(start) => self.running_time + since(now, start),
            None => self.running_time as int,
        }
    }

    /// Ends the current running stretch at `now`: adds its length to the running time.
    pub fn update_running_time(&mut self, now: u64)
        requires
            old(self).running_time_after(now) <= u64::MAX,
        ensures
            final(self).running_time == old(self).running_time_after(now),
            final(self).curr_start_time is None,
            final(self).history() == old(self).history(),
            final(self).co_id == old(self).co_id,
            final(self).co_status == old(self).co_status,
            final(self).spawn_time == old(self).spawn_time,
            final(self).expected_execution_time == old(
                self,
            ).expected_execution_time,
            final(self).expected_remaining_execution_time == old(
                self,
            ).expected_remaining_execution_time,
            final(self).worst_start_time == old(self).worst_start_time,
            final(self).relative_deadline == old(self).relative_deadline,
            final(self).absolute_deadline == old(self).absolute_deadline,
    {
        if let Some(start) = self.curr_start_time {
            let d: u64 = if now >= start {
                now - start
            } else {
                0
            };
            self.running_time = self.running_time + d;
        }
        self.curr_start_time = None;
    }

    pub fn get_co_id(&self) -> (r: u64)
        ensures
            r == self.co_id,
    {
        self.co_id
    }
}

/// A coroutine as the scheduler sees it: its id, status, stack request and scheduling
/// record. `body` carries what runs it (the closure and its machine context), which the
/// scheduler only moves around.
pub struct Coroutine<B> {
    body: B,
    status: CoStatus,
    id: u64,
    stack_size: StackSize,
    schedule_status: SchedulerStatus,
}

impl<B> Coroutine<B> {
    pub closed spec fn spec_body(self) -> B {
        self.body
    }

    pub closed spec fn spec_status(self) -> CoStatus {
        self.status
    }

    pub closed spec fn spec_id(self) -> u64 {
        self.id
    }

    pub closed spec fn spec_stack_size(self) -> StackSize {
        self.stack_size
    }

    pub closed spec fn sched(self) -> SchedulerStatus {
        self.schedule_status
    }

    /// The coroutine's id is the id in its record, as the constructors make it.
    pub open spec fn id_consistent(self) -> bool {
        self.spec_id() == self.sched().co_id
    }

    /// The key the run queues order coroutines by: the absolute deadline.
    pub open spec fn deadline(self) -> Option<u64> {
        self.sched().absolute_deadline
    }

    /// A coroutine for a record that admission control has already set up: it takes
    /// its id from the record and records PENDING at the spawn time.
    pub fn from_status(body: B, status: SchedulerStatus) -> (co: Coroutine<B>)
        ensures
            co.spec_body() == body,
            co.spec_status() == CoStatus::PENDING,
            co.spec_id() == status.co_id,
            co.spec_stack_size().spec_size() == 0,
            co.id_consistent(),
            co.sched().co_status == CoStatus::PENDING,
            co.sched().history() == status.history().insert(status.spawn_time, CoStatus::PENDING),
            same_but_status(co.sched(), status),
    {
        let mut co = Coroutine {
            body,
            status: CoStatus::PENDING,
            id: status.co_id,
            stack_size: StackSize::default(),
            schedule_status: status,
        };
        let spawn = co.schedule_status.spawn_time;
        co.schedule_status.update_status(spawn, CoStatus::PENDING);
        co
    }

    /// A new coroutine spawned at `spawn_time`, with the next id drawn from `next_id`
    /// (see `get_id`) and a record that `SchedulerStatus::init` has given its id and
    /// deadlines. It is PENDING; one made to run on this thread (`thread_local`) is
    /// READY at once, as its context is made with it.
    pub fn new(
        body: B,
        stack_size: StackSize,
        thread_local: bool,
        next_id: &mut u64,
        spawn_time: u64,
        expected_execution_time: Option<u64>,
        relative_deadline: Option<u64>,
    ) -> (co: Coroutine<B>)
        requires
            relative_deadline matches Some(rd) ==> {
                &&& expected_execution_time matches Some(eet)
                &&& spawn_time + rd <= u64::MAX
            },
        ensures
            co.spec_id() == *old(next_id),
            *final(next_id) == id_after(*old(next_id)),
            co.spec_body() == body,
            co.spec_status() == (if thread_local {
                CoStatus::READY
            } else {
                CoStatus::PENDING
            }),
            co.spec_stack_size() == stack_size,
            co.id_consistent(),
            co.sched().co_id == *old(next_id),
            co.sched().co_status == co.spec_status(),
            co.sched().history() == (if thread_local {
                Map::<u64, CoStatus>::empty().insert(spawn_time, CoStatus::PENDING).insert(
                    spawn_time,
                    CoStatus::READY,
                )
            } else {
                Map::<u64, CoStatus>::empty().insert(spawn_time, CoStatus::PENDING)
            }),
            co.sched().spawn_time == spawn_time,
            co.sched().curr_start_time is None,
            co.sched().running_time == 0,
            co.sched().expected_execution_time == expected_execution_time,
            co.sched().expected_remaining_execution_time == expected_execution_time,
            co.sched().relative_deadline == relative_deadline,
            co.sched().absolute_deadline == match relative_deadline {
                Some(rd) => Some((spawn_time + rd) as u64),
                None => None::<u64>,
            },
            co.sched().worst_start_time == match relative_deadline {
                Some(rd) => Some((spawn_time + rd - expected_execution_time->0) as i128),
                None => None::<i128>,
            },
    {
        let id = get_id(next_id);
        let mut schedule_status = SchedulerStatus::new(
            expected_execution_time,
            relative_deadline,
            spawn_time,
        );
        schedule_status.update_status(spawn_time, CoStatus::PENDING);
        schedule_status.init(id);
        let mut co = Coroutine { body, status: CoStatus::PENDING, id, stack_size, schedule_status };
        if thread_local {
            co.init(spawn_time);
        }
        co
    }

    pub fn set_status(&mut self, status: CoStatus)
        ensures
            final(self).spec_status() == status,
            final(self).spec_id() == old(self).spec_id(),
            final(self).spec_body() == old(self).spec_body(),
            final(self).spec_stack_size() == old(self).spec_stack_size(),
            final(self).sched() == old(self).sched(),
    {
        self.status = status;
    }

    pub fn get_status(&self) -> (r: CoStatus)
        ensures
            r == self.spec_status(),
    {
        self.status
    }

    /// Marks the coroutine READY at `now`, once its context has been made.
    pub fn init(&mut self, now: u64)
        ensures
            final(self).spec_status() == CoStatus::READY,
            final(self).sched().co_status == CoStatus::READY,
            final(self).sched().history() == old(self).sched().history().insert(
                now,
                CoStatus::READY,
            ),
            same_but_status(final(self).sched(), old(self).sched()),
            final(self).spec_id() == old(self).spec_id(),
            final(self).spec_body() == old(self).spec_body(),
            final(self).spec_stack_size() == old(self).spec_stack_size(),
    {
        self.status = CoStatus::READY;
        self.schedule_status.update_status(now, CoStatus::READY);
    }

    /// The absolute deadline, the key of the run queues.
    pub fn get_deadline(&self) -> (r: Option<u64>)
        ensures
            r == self.deadline(),
    {
        self.schedule_status.absolute_deadline
    }

    pub fn get_co_id(&self) -> (r: u64)
        ensures
            r == self.spec_id(),
    {
        self.id
    }

    pub fn get_stack_size(&self) -> (r: StackSize)
        ensures
            r == self.spec_stack_size(),
    {
        self.stack_size
    }

    /// A copy of the scheduling record.
    pub fn get_schedulestatus(&self) -> (r: SchedulerStatus)
        ensures
            r.equiv(self.sched()),
    {
        self.schedule_status.clone()
    }

    /// A realtime coroutine has both a deadline and an execution time estimate.
    pub fn is_realtime(&self) -> (r: bool)
        ensures
            r == (self.sched().absolute_deadline is Some
                && self.sched().expected_execution_time is Some),
    {
        self.schedule_status.absolute_deadline.is_some()
            && self.schedule_status.expected_execution_time.is_some()
    }

    pub fn body(&self) -> (r: &B)
        ensures
            *r == self.spec_body(),
    {
        &self.body
    }

    pub fn body_mut(&mut self) -> (r: &mut B)
        ensures
            *r == old(self).spec_body(),
            final(self).spec_body() == *final(r),
            final(self).spec_status() == old(self).spec_status(),
            final(self).spec_id() == old(self).spec_id(),
            final(self).spec_stack_size() == old(self).spec_stack_size(),
            final(self).sched() == old(self).sched(),
    {
        &mut self.body
    }

    /// Bookkeeping before the coroutine is switched to at `now`: it is RUNNING, its
    /// running stretch starts now, RUNNING is recorded, and the scheduler gets the new
    /// record and takes it as the running coroutine.
    pub fn resume(&mut self, sched: &mut Scheduler<B>, now: u64)
        ensures
            final(self).spec_status() == CoStatus::RUNNING,
            final(self).sched().co_status == CoStatus::RUNNING,
            final(self).sched().curr_start_time == Some(now),
            final(self).sched().history() == old(self).sched().history().insert(
                now,
                CoStatus::RUNNING,
            ),
            final(self).sched().co_id == old(self).sched().co_id,
            final(self).sched().running_time == old(self).sched().running_time,
            final(self).sched().absolute_deadline == old(self).sched().absolute_deadline,
            final(self).sched().expected_execution_time == old(self).sched().expected_execution_time,
            final(self).sched().expected_remaining_execution_time == old(
                self,
            ).sched().expected_remaining_execution_time,
            final(self).sched().spawn_time == old(self).sched().spawn_time,
            final(self).sched().worst_start_time == old(self).sched().worst_start_time,
            final(self).sched().relative_deadline == old(self).sched().relative_deadline,
            final(self).spec_id() == old(self).spec_id(),
            final(self).spec_body() == old(self).spec_body(),
            final(self).spec_stack_size() == old(self).spec_stack_size(),
            final(sched).status_of() == old(sched).status_of().insert(
                old(self).spec_id(),
                final(sched).status_of()[old(self).spec_id()],
            ),
            final(sched).status_of()[old(self).spec_id()].equiv(final(self).sched()),
            final(sched).completed_of() == old(sched).completed_of(),
            final(sched).curr_running_of() == old(self).spec_id(),
            final(sched).slot_of() == old(sched).slot_of(),
            final(sched).realtime_of() == old(sched).realtime_of(),
            final(sched).global_of() == old(sched).global_of(),
            final(sched).cancelled_of() == old(sched).cancelled_of(),
            final(sched).ava_time_of() == old(sched).ava_time_of(),
    {
        self.schedule_status.curr_start_time = Some(now);
        self.status = CoStatus::RUNNING;
        self.schedule_status.update_status(now, CoStatus::RUNNING);
        let stat = self.get_schedulestatus();
        sched.update_status(self.id, stat);
        sched.set_curr_running_id(self.id);
    }

    /// Bookkeeping when the coroutine is switched away from at `now`: its status is
    /// recorded, its running stretch ends, its remaining estimate is brought up to date
    /// and the scheduler gets the new record.
    pub fn suspend(&mut self, sched: &mut Scheduler<B>, now: u64)
        requires
            old(self).sched().running_time_after(now) <= u64::MAX,
        ensures
            final(self).spec_status() == old(self).spec_status(),
            final(self).sched().co_status == old(self).spec_status(),
            final(self).sched().history() == old(self).sched().history().insert(
                now,
                old(self).spec_status(),
            ),
            final(self).sched().running_time == old(self).sched().running_time_after(now),
            final(self).sched().curr_start_time is None,
            final(self).sched().expected_remaining_execution_time == remaining_after(
                old(self).sched().expected_execution_time,
                old(self).sched().expected_remaining_execution_time,
                final(self).sched().running_time,
            ),
            final(self).sched().co_id == old(self).sched().co_id,
            final(self).sched().absolute_deadline == old(self).sched().absolute_deadline,
            final(self).sched().expected_execution_time == old(self).sched().expected_execution_time,
            final(self).sched().spawn_time == old(self).sched().spawn_time,
            final(self).sched().worst_start_time == old(self).sched().worst_start_time,
            final(self).sched().relative_deadline == old(self).sched().relative_deadline,
            final(self).spec_id() == old(self).spec_id(),
            final(self).spec_body() == old(self).spec_body(),
            final(self).spec_stack_size() == old(self).spec_stack_size(),
            final(sched).status_of() == old(sched).status_of().insert(
                old(self).spec_id(),
                final(sched).status_of()[old(self).spec_id()],
            ),
            final(sched).status_of()[old(self).spec_id()].equiv(final(self).sched()),
            final(sched).completed_of() == old(sched).completed_of(),
            final(sched).same_queues(*old(sched)),
    {
        let now_status = self.status;
        self.schedule_status.update_status(now, now_status);
        self.schedule_status.update_running_time(now);
        self.schedule_status.update_remaining();
        let stat = self.get_schedulestatus();
        sched.update_status(self.id, stat);
    }

    /// The coroutine's function has returned at `now`: it is COMPLETED, its running
    /// time and remaining estimate are brought up to date and COMPLETED is recorded.
    /// Returns the time since spawn in whole milliseconds, cut to `i32` as the latency
    /// statistics keep it.
    pub fn complete(&mut self, now: u64) -> (latency_ms: i32)
        requires
            old(self).sched().running_time_after(now) <= u64::MAX,
        ensures
            final(self).spec_status() == CoStatus::COMPLETED,
            final(self).sched().co_status == CoStatus::COMPLETED,
            final(self).sched().running_time == old(self).sched().running_time_after(now),
            final(self).sched().curr_start_time is None,
            final(self).sched().history() == old(self).sched().history().insert(
                now,
                CoStatus::COMPLETED,
            ),
            final(self).sched().expected_remaining_execution_time == remaining_after(
                old(self).sched().expected_execution_time,
                old(self).sched().expected_remaining_execution_time,
                final(self).sched().running_time,
            ),
            latency_ms == (since(now, old(self).sched().spawn_time) / 1_000_000) as i32,
            final(self).spec_id() == old(self).spec_id(),
            final(self).spec_body() == old(self).spec_body(),
            final(self).spec_stack_size() == old(self).spec_stack_size(),
            final(self).sched().co_id == old(self).sched().co_id,
            final(self).sched().absolute_deadline == old(self).sched().absolute_deadline,
            final(self).sched().spawn_time == old(self).sched().spawn_time,
            final(self).sched().expected_execution_time == old(self).sched().expected_execution_time,
            final(self).sched().worst_start_time == old(self).sched().worst_start_time,
            final(self).sched().relative_deadline == old(self).sched().relative_deadline,
    {
        self.status = CoStatus::COMPLETED;
        self.schedule_status.update_running_time(now);
        self.schedule_status.update_remaining();
        self.schedule_status.update_status(now, CoStatus::COMPLETED);
        let spawn = self.schedule_status.spawn_time;
        let elapsed: u64 = if now >= spawn {
            now - spawn
        } else {
            0
        };
        (elapsed / 1_000_000) as i32
    }
}

/// What `update_remaining` makes of the remaining estimate for a given running time.
pub open spec fn remaining_after(eet: Option<u64>, eret: Option<u64>, running: u64) -> Option<
    u64,
> {
    match eet {
        Some(e) => Some(
            if e >= running {
                (e - running) as u64
            } else {
                e
            },
        ),
        None => eret,
    }
}

/// Two records that agree on everything but the status and its history.
pub open spec fn same_but_status(a: SchedulerStatus, b: SchedulerStatus) -> bool {
    &&& a.co_id == b.co_id
    &&& a.curr_start_time == b.curr_start_time
    &&& a.running_time == b.running_time
    &&& a.spawn_time == b.spawn_time
    &&& a.expected_execution_time == b.expected_execution_time
    &&& a.expected_remaining_execution_time == b.expected_remaining_execution_time
    &&& a.worst_start_time == b.worst_start_time
    &&& a.relative_deadline == b.relative_deadline
    &&& a.absolute_deadline == b.absolute_deadline
}

/// The latest start time leaves exactly the expected execution time before the
/// deadline: once `init` has set them, `worst_start_time + expected_execution_time ==
/// absolute_deadline` and `absolute_deadline == spawn_time + relative_deadline`.
pub proof fn lemma_init_deadlines(before: SchedulerStatus, after: SchedulerStatus, id: u64)
    requires
        before.can_init(),
        before.relative_deadline is Some,
        after.co_id == id,
        after.absolute_deadline == Some(
            (before.spawn_time + before.relative_deadline->0) as u64,
        ),
        after.worst_start_time == Some(
            (before.spawn_time + before.relative_deadline->0
                - before.expected_execution_time->0) as i128,
        ),
        after.expected_execution_time == before.expected_execution_time,
        after.spawn_time == before.spawn_time,
        after.relative_deadline == before.relative_deadline,
    ensures
        after.worst_start_time->0 + after.expected_execution_time->0 == after.absolute_deadline->0,
        after.absolute_deadline->0 == after.spawn_time + after.relative_deadline->0,
        after.worst_start_time->0 <= after.absolute_deadline->0,
{
}

/// The remaining estimate never exceeds the estimate: whatever the running time,
/// `update_remaining` leaves at most the expected execution time.
pub proof fn lemma_remaining_within_estimate(eet: u64, eret: Option<u64>, running: u64)
    ensures
        remaining_after(Some(eet), eret, running)->0 <= eet,
        running <= eet ==> remaining_after(Some(eet), eret, running)->0 + running == eet,
{
}

/// Ids come out in order: two successive calls of `get_id` give consecutive ids
/// unless the counter wraps.
pub proof fn lemma_successive_ids(first: u64, second: u64)
    requires
        second == id_after(first),
    ensures
        first < u64::MAX ==> second == first + 1,
        first != second,
{
}

/// A drawn id is fresh: while every id handed out so far is below the counter and the
/// counter has not reached `u64::MAX`, the id `get_id` draws is none of them, and
/// afterwards every id handed out, the new one included, is below the counter again.
pub proof fn lemma_fresh_id(issued: Set<u64>, before: u64, id: u64, after: u64)
    requires
        forall|k: u64| #[trigger] issued.contains(k) ==> k < before,
        before < u64::MAX,
        id == before,
        after == id_after(before),
    ensures
        !issued.contains(id),
        forall|k: u64| #[trigger] issued.insert(id).contains(k) ==> k < after,
{
}

impl Clone for SchedulerStatus {
    fn clone(&self) -> (r: SchedulerStatus)
        ensures
            r.equiv(*self),
    {
        SchedulerStatus {
            status: self.status.clone(),
            co_id: self.co_id,
            co_status: self.co_status,
            curr_start_time: self.curr_start_time,
            running_time: self.running_time,
            spawn_time: self.spawn_time,
            expected_execution_time: self.expected_execution_time,
            expected_remaining_execution_time: self.expected_remaining_execution_time,
            worst_start_time: self.worst_start_time,
            relative_deadline: self.relative_deadline,
            absolute_deadline: self.absolute_deadline,
        }
    }
}

} // verus!
