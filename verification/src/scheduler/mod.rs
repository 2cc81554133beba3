pub mod worker;

use crate::task::{same_but_status, CoStatus, Coroutine, SchedulerStatus};
use std::collections::{BTreeMap, VecDeque};
use vstd::prelude::*;
use vstd::std_specs::iter::IteratorSpec;

verus! {

broadcast use {vstd::laws_cmp::group_laws_cmp, vstd::std_specs::btree::group_btree_axioms};

/// `a` runs no later than `b` in deadline order: no deadline first, then the earlier
/// deadline. This is the order in which the realtime queue hands coroutines out.
pub open spec fn deadline_first(a: Option<u64>, b: Option<u64>) -> bool {
    match a {
        None => true,
        Some(x) => match b {
            None => false,
            Some(y) => x <= y,
        },
    }
}

/// `co` comes first in deadline order among the coroutines of `q`.
pub open spec fn first_in<B>(co: Coroutine<B>, q: Seq<Coroutine<B>>) -> bool {
    forall|j: int| 0 <= j < q.len() ==> deadline_first(co.deadline(), #[trigger] q[j].deadline())
}

/// The index of a coroutine that comes first in deadline order.
pub fn first_deadline_index<B>(q: &Vec<Coroutine<B>>) -> (i: usize)
    requires
        q.len() > 0,
    ensures
        i < q.len(),
        first_in(q@[i as int], q@),
{
    let mut best: usize = 0;
    let mut j: usize = 1;
    while j < q.len()
        invariant
            0 < j <= q.len(),
            best < j,
            forall|k: int| 0 <= k < j ==> deadline_first(q@[best as int].deadline(), #[trigger] q@[k].deadline()),
        decreases q.len() - j,
    {
        let better = match q[j].get_deadline() {
            None => match q[best].get_deadline() {
                None => false,
                Some(_) => true,
            },
            Some(y) => match q[best].get_deadline() {
                None => false,
                Some(x) => y < x,
            },
        };
        if better {
            best = j;
        }
        j = j + 1;
    }
    best
}

/// `b` is `a` made READY at `now` (see `Coroutine::init`): READY recorded at `now`,
/// nothing else changed.
pub open spec fn made_ready<B>(a: Coroutine<B>, b: Coroutine<B>, now: u64) -> bool {
    &&& b.spec_status() == CoStatus::READY
    &&& b.spec_id() == a.spec_id()
    &&& b.spec_body() == a.spec_body()
    &&& b.spec_stack_size() == a.spec_stack_size()
    &&& b.sched().co_status == CoStatus::READY
    &&& b.sched().history() == a.sched().history().insert(now, CoStatus::READY)
    &&& same_but_status(b.sched(), a.sched())
}

/// The run queues and status tables that spawning threads and the worker share.
pub struct Scheduler<B> {
    slot: Option<Coroutine<B>>,
    realtime_queue: Vec<Coroutine<B>>,
    global_queue: VecDeque<Coroutine<B>>,
    cancelled_queue: VecDeque<Coroutine<B>>,
    co_status: BTreeMap<u64, SchedulerStatus>,
    completed_status: BTreeMap<u64, SchedulerStatus>,
    curr_running_id: u64,
    ava_time: BTreeMap<u64, i128>,
}

impl<B> Scheduler<B> {
    /// The coroutine waiting to preempt the running one.
    pub closed spec fn slot_of(self) -> Option<Coroutine<B>> {
        self.slot
    }

    /// The realtime queue; its order carries no meaning.
    pub closed spec fn realtime_of(self) -> Seq<Coroutine<B>> {
        self.realtime_queue@
    }

    /// The first-in-first-out queue of coroutines without deadline.
    pub closed spec fn global_of(self) -> Seq<Coroutine<B>> {
        self.global_queue@
    }

    pub closed spec fn cancelled_of(self) -> Seq<Coroutine<B>> {
        self.cancelled_queue@
    }

    /// The records of the coroutines that have not completed, by id.
    pub closed spec fn status_of(self) -> Map<u64, SchedulerStatus> {
        self.co_status@
    }

    /// The records of the completed coroutines, by id.
    pub closed spec fn completed_of(self) -> Map<u64, SchedulerStatus> {
        self.completed_status@
    }

    pub closed spec fn curr_running_of(self) -> u64 {
        self.curr_running_id
    }

    /// The time (microseconds) each admitted realtime coroutine has to spare.
    pub closed spec fn ava_time_of(self) -> Map<u64, i128> {
        self.ava_time@
    }

    /// The record of coroutine `id`: the live one, else the completed one.
    pub open spec fn status_lookup(self, id: u64) -> Option<SchedulerStatus> {
        if self.status_of().contains_key(id) {
            Some(self.status_of()[id])
        } else if self.completed_of().contains_key(id) {
            Some(self.completed_of()[id])
        } else {
            None
        }
    }

    /// Only `status_of` may differ between `self` and `o`.
    pub open spec fn same_queues(self, o: Scheduler<B>) -> bool {
        &&& self.slot_of() == o.slot_of()
        &&& self.realtime_of() == o.realtime_of()
        &&& self.global_of() == o.global_of()
        &&& self.cancelled_of() == o.cancelled_of()
        &&& self.curr_running_of() == o.curr_running_of()
        &&& self.ava_time_of() == o.ava_time_of()
    }

    pub fn new() -> (s: Scheduler<B>)
        ensures
            s.slot_of() is None,
            s.realtime_of() == Seq::<Coroutine<B>>::empty(),
            s.global_of() == Seq::<Coroutine<B>>::empty(),
            s.cancelled_of() == Seq::<Coroutine<B>>::empty(),
            s.status_of() == Map::<u64, SchedulerStatus>::empty(),
            s.completed_of() == Map::<u64, SchedulerStatus>::empty(),
            s.curr_running_of() == 0,
            s.ava_time_of() == Map::<u64, i128>::empty(),
    {
        Scheduler {
            slot: None,
            realtime_queue: Vec::new(),
            global_queue: VecDeque::new(),
            cancelled_queue: VecDeque::new(),
            co_status: BTreeMap::new(),
            completed_status: BTreeMap::new(),
            curr_running_id: 0,
            ava_time: BTreeMap::new(),
        }
    }

    /// Puts `co` in the preemption slot if it is free. An occupied slot is left as it
    /// is and `co` comes back, for the caller to offer again once the worker has taken
    /// the slot.
    pub fn set_slot(&mut self, co: Coroutine<B>) -> (r: Option<Coroutine<B>>)
        ensures
            old(self).slot_of() is None ==> r is None && final(self).slot_of() == Some(co),
            old(self).slot_of() is Some ==> r == Some(co) && final(self).slot_of()
                == old(self).slot_of(),
            final(self).realtime_of() == old(self).realtime_of(),
            final(self).global_of() == old(self).global_of(),
            final(self).cancelled_of() == old(self).cancelled_of(),
            final(self).status_of() == old(self).status_of(),
            final(self).completed_of() == old(self).completed_of(),
            final(self).curr_running_of() == old(self).curr_running_of(),
            final(self).ava_time_of() == old(self).ava_time_of(),
    {
        if self.slot.is_none() {
            self.slot = Some(co);
            None
        } else {
            Some(co)
        }
    }

    /// Takes the coroutine out of the preemption slot.
    pub fn get_slot(&mut self) -> (r: Option<Coroutine<B>>)
        ensures
            r == old(self).slot_of(),
            final(self).slot_of() is None,
            final(self).realtime_of() == old(self).realtime_of(),
            final(self).global_of() == old(self).global_of(),
            final(self).cancelled_of() == old(self).cancelled_of(),
            final(self).status_of() == old(self).status_of(),
            final(self).completed_of() == old(self).completed_of(),
            final(self).curr_running_of() == old(self).curr_running_of(),
            final(self).ava_time_of() == old(self).ava_time_of(),
    {
        self.slot.take()
    }

    /// Queues `co`: realtime coroutines into the deadline-ordered queue, the others at
    /// the back of the global queue.
    pub fn push(&mut self, co: Coroutine<B>, realtime: bool)
        ensures
            realtime ==> final(self).realtime_of() == old(self).realtime_of().push(co)
                && final(self).global_of() == old(self).global_of(),
            !realtime ==> final(self).global_of() == old(self).global_of().push(co)
                && final(self).realtime_of() == old(self).realtime_of(),
            final(self).slot_of() == old(self).slot_of(),
            final(self).cancelled_of() == old(self).cancelled_of(),
            final(self).status_of() == old(self).status_of(),
            final(self).completed_of() == old(self).completed_of(),
            final(self).curr_running_of() == old(self).curr_running_of(),
            final(self).ava_time_of() == old(self).ava_time_of(),
    {
        if realtime {
            self.realtime_queue.push(co);
        } else {
            self.global_queue.push_back(co);
        }
    }

    /// Sets a cancelled coroutine aside.
    pub fn cancell(&mut self, co: Coroutine<B>)
        ensures
            final(self).cancelled_of() == old(self).cancelled_of().push(co),
            final(self).slot_of() == old(self).slot_of(),
            final(self).realtime_of() == old(self).realtime_of(),
            final(self).global_of() == old(self).global_of(),
            final(self).status_of() == old(self).status_of(),
            final(self).completed_of() == old(self).completed_of(),
            final(self).curr_running_of() == old(self).curr_running_of(),
            final(self).ava_time_of() == old(self).ava_time_of(),
    {
        self.cancelled_queue.push_back(co);
    }

    /// Takes the realtime coroutine that comes first in deadline order.
    pub fn pop_realtime(&mut self) -> (r: Option<Coroutine<B>>)
        ensures
            old(self).realtime_of().len() == 0 ==> r is None && final(self).realtime_of()
                == old(self).realtime_of(),
            old(self).realtime_of().len() > 0 ==> exists|i: int|
                0 <= i < old(self).realtime_of().len() && r == Some(
                    #[trigger] old(self).realtime_of()[i],
                ) && final(self).realtime_of() == old(self).realtime_of().remove(i),
            r matches Some(co) ==> first_in(co, old(self).realtime_of()),
            final(self).slot_of() == old(self).slot_of(),
            final(self).global_of() == old(self).global_of(),
            final(self).cancelled_of() == old(self).cancelled_of(),
            final(self).status_of() == old(self).status_of(),
            final(self).completed_of() == old(self).completed_of(),
            final(self).curr_running_of() == old(self).curr_running_of(),
            final(self).ava_time_of() == old(self).ava_time_of(),
    {
        if self.realtime_queue.len() == 0 {
            return None;
        }
        let i = first_deadline_index(&self.realtime_queue);
        let co = self.realtime_queue.remove(i);
        Some(co)
    }

    /// Takes the coroutine at the front of the global queue.
    pub fn pop(&mut self) -> (r: Option<Coroutine<B>>)
        ensures
            old(self).global_of().len() == 0 ==> r is None && final(self).global_of()
                == old(self).global_of(),
            old(self).global_of().len() > 0 ==> r == Some(old(self).global_of()[0])
                && final(self).global_of() == old(self).global_of().drop_first(),
            final(self).slot_of() == old(self).slot_of(),
            final(self).realtime_of() == old(self).realtime_of(),
            final(self).cancelled_of() == old(self).cancelled_of(),
            final(self).status_of() == old(self).status_of(),
            final(self).completed_of() == old(self).completed_of(),
            final(self).curr_running_of() == old(self).curr_running_of(),
            final(self).ava_time_of() == old(self).ava_time_of(),
    {
        self.global_queue.pop_front()
    }

    /// The number of coroutines in the global queue.
    pub fn get_length(&self) -> (r: usize)
        ensures
            r == self.global_of().len(),
    {
        self.global_queue.len()
    }

    /// The number of coroutines in the realtime queue.
    pub fn get_realtime_length(&self) -> (r: usize)
        ensures
            r == self.realtime_of().len(),
    {
        self.realtime_queue.len()
    }

    /// Records the live status of coroutine `co_id`.
    pub fn update_status(&mut self, co_id: u64, stat: SchedulerStatus)
        ensures
            final(self).status_of() == old(self).status_of().insert(co_id, stat),
            final(self).completed_of() == old(self).completed_of(),
            final(self).same_queues(*old(self)),
    {
        self.co_status.insert(co_id, stat);
    }

    /// Forgets the live status of coroutine `co_id`.
    fn delete_status(&mut self, co_id: u64)
        ensures
            final(self).status_of() == old(self).status_of().remove(co_id),
            final(self).completed_of() == old(self).completed_of(),
            final(self).same_queues(*old(self)),
    {
        self.co_status.remove(&co_id);
    }

    /// A copy of the live status table.
    pub fn get_status(&self) -> (r: BTreeMap<u64, SchedulerStatus>)
        ensures
            r@ == self.status_of(),
    {
        self.co_status.clone()
    }

    /// A copy of the record of coroutine `id`: the live one if there is one, else the
    /// completed one.
    pub fn get_status_by_id(&self, id: u64) -> (r: Option<SchedulerStatus>)
        ensures
            r is Some == self.status_lookup(id) is Some,
            r matches Some(s) ==> s.equiv(self.status_lookup(id)->0),
    {
        match self.co_status.get(&id) {
            Some(s) => Some(s.clone()),
            None => match self.completed_status.get(&id) {
                Some(s) => Some(s.clone()),
                None => None,
            },
        }
    }

    /// A copy of the completed status table.
    pub fn get_completed_status(&self) -> (r: BTreeMap<u64, SchedulerStatus>)
        ensures
            r@ == self.completed_of(),
    {
        self.completed_status.clone()
    }

    /// Moves coroutine `co_id` to the completed table with record `stat`.
    pub fn update_completed_status(&mut self, co_id: u64, stat: SchedulerStatus)
        ensures
            final(self).completed_of() == old(self).completed_of().insert(co_id, stat),
            final(self).status_of() == old(self).status_of().remove(co_id),
            final(self).same_queues(*old(self)),
    {
        self.completed_status.insert(co_id, stat);
        self.delete_status(co_id);
    }

    pub fn set_curr_running_id(&mut self, co_id: u64)
        ensures
            final(self).curr_running_of() == co_id,
            final(self).slot_of() == old(self).slot_of(),
            final(self).realtime_of() == old(self).realtime_of(),
            final(self).global_of() == old(self).global_of(),
            final(self).cancelled_of() == old(self).cancelled_of(),
            final(self).status_of() == old(self).status_of(),
            final(self).completed_of() == old(self).completed_of(),
            final(self).ava_time_of() == old(self).ava_time_of(),
    {
        self.curr_running_id = co_id;
    }

    pub fn get_curr_running_id(&self) -> (r: u64)
        ensures
            r == self.curr_running_of(),
    {
        self.curr_running_id
    }

    /// Records the spare time (microseconds) of coroutine `co_id`.
    pub fn update_ava_time(&mut self, co_id: u64, available_time: i128)
        ensures
            final(self).ava_time_of() == old(self).ava_time_of().insert(co_id, available_time),
            final(self).slot_of() == old(self).slot_of(),
            final(self).realtime_of() == old(self).realtime_of(),
            final(self).global_of() == old(self).global_of(),
            final(self).cancelled_of() == old(self).cancelled_of(),
            final(self).status_of() == old(self).status_of(),
            final(self).completed_of() == old(self).completed_of(),
            final(self).curr_running_of() == old(self).curr_running_of(),
    {
        self.ava_time.insert(co_id, available_time);
    }

    /// A copy of the spare-time table.
    pub fn get_ava_time(&self) -> (r: BTreeMap<u64, i128>)
        ensures
            r@ == self.ava_time_of(),
    {
        self.ava_time.clone()
    }

    /// Replaces the spare-time table.
    pub fn update_ava_time_map(&mut self, map: BTreeMap<u64, i128>)
        ensures
            final(self).ava_time_of() == map@,
            final(self).slot_of() == old(self).slot_of(),
            final(self).realtime_of() == old(self).realtime_of(),
            final(self).global_of() == old(self).global_of(),
            final(self).cancelled_of() == old(self).cancelled_of(),
            final(self).status_of() == old(self).status_of(),
            final(self).completed_of() == old(self).completed_of(),
            final(self).curr_running_of() == old(self).curr_running_of(),
    {
        self.ava_time = map;
    }

    /// The latest deadline among the live records, if any has one.
    pub fn get_end_ddl(&self) -> (r: Option<u64>)
        ensures
            r matches Some(d) ==> exists|k: u64|
                self.status_of().contains_key(k) && #[trigger] self.status_of()[k].absolute_deadline
                    == Some(d),
            forall|k: u64|
                #[trigger] self.status_of().contains_key(k) && self.status_of()[k].absolute_deadline is Some
                    ==> r is Some && self.status_of()[k].absolute_deadline->0 <= r->0,
    {
        let mut best: Option<u64> = None;
        let ghost m = self.co_status@;
        let ghost v = vstd::std_specs::btree::spec_btree_map_iter(&self.co_status).remaining();
        let ghost mut cnt: int = 0;
        for (k, s) in it: self.co_status.iter()
            invariant
                m == self.co_status@,
                v == vstd::std_specs::btree::spec_btree_map_iter(&self.co_status).remaining(),
                it.seq() == v,
                cnt == it.index(),
                forall|i: int|
                    0 <= i < cnt && (#[trigger] v[i]).1.absolute_deadline is Some ==> best is Some
                        && v[i].1.absolute_deadline->0 <= best->0,
                best matches Some(d) ==> exists|k: u64|
                    m.contains_key(k) && #[trigger] m[k].absolute_deadline == Some(d),
                forall|i: int|
                    0 <= i < it.index() && (#[trigger] it.seq()[i]).1.absolute_deadline is Some ==> best is Some
                        && it.seq()[i].1.absolute_deadline->0 <= best->0,
        {
            proof {
                assert(v[cnt] == (k, s));
                assert(m.contains_key(*v[cnt].0) && m[*v[cnt].0] == *v[cnt].1);
            }
            if let Some(x) = s.absolute_deadline {
                let better = match best {
                    None => true,
                    Some(b) => x > b,
                };
                if better {
                    best = Some(x);
                }
            }
            proof {
                cnt = cnt + 1;
            }
        }
        proof {
            assert forall|k: u64|
                #[trigger] m.contains_key(k) && m[k].absolute_deadline is Some implies best is Some
                && m[k].absolute_deadline->0 <= best->0 by {
                assert(v.contains((&k, &m[k])));
                let i = choose|i: int| 0 <= i < v.len() && v[i] == (&k, &m[k]);
                assert(v[i].1.absolute_deadline is Some);
            }
        }
        best
    }

    /// The ids of the realtime coroutines, in queue order: each coroutine's own id and
    /// the id in its record.
    pub fn realtime_ids(&self) -> (r: Vec<(u64, u64)>)
        ensures
            r@.len() == self.realtime_of().len(),
            forall|i: int|
                0 <= i < r@.len() ==> #[trigger] r@[i] == (
                    self.realtime_of()[i].spec_id(),
                    self.realtime_of()[i].sched().co_id,
                ),
    {
        let mut r: Vec<(u64, u64)> = Vec::new();
        let mut i: usize = 0;
        while i < self.realtime_queue.len()
            invariant
                i <= self.realtime_queue@.len(),
                r@.len() == i,
                forall|j: int|
                    0 <= j < i ==> #[trigger] r@[j] == (
                        self.realtime_queue@[j].spec_id(),
                        self.realtime_queue@[j].sched().co_id,
                    ),
            decreases self.realtime_queue@.len() - i,
        {
            let co = &self.realtime_queue[i];
            let st = co.get_schedulestatus();
            r.push((co.get_co_id(), st.co_id));
            i = i + 1;
        }
        r
    }

    /// Prepares the cancelled coroutines to run again, as of `now` (each becomes READY).
    pub fn reinit_cancelled(&mut self, now: u64)
        ensures
            final(self).cancelled_of().len() == old(self).cancelled_of().len(),
            forall|i: int|
                #![trigger final(self).cancelled_of()[i]]
                0 <= i < final(self).cancelled_of().len() ==> made_ready(
                    old(self).cancelled_of()[i],
                    final(self).cancelled_of()[i],
                    now,
                ),
            final(self).slot_of() == old(self).slot_of(),
            final(self).realtime_of() == old(self).realtime_of(),
            final(self).global_of() == old(self).global_of(),
            final(self).status_of() == old(self).status_of(),
            final(self).completed_of() == old(self).completed_of(),
            final(self).curr_running_of() == old(self).curr_running_of(),
            final(self).ava_time_of() == old(self).ava_time_of(),
    {
        let mut out: VecDeque<Coroutine<B>> = VecDeque::new();
        let ghost c0 = self.cancelled_queue@;
        while self.cancelled_queue.len() > 0
            invariant
                self.cancelled_queue@ == c0.skip(out@.len() as int),
                self.slot_of() == old(self).slot_of(),
                self.realtime_of() == old(self).realtime_of(),
                self.global_of() == old(self).global_of(),
                self.status_of() == old(self).status_of(),
                self.completed_of() == old(self).completed_of(),
                self.curr_running_of() == old(self).curr_running_of(),
                self.ava_time_of() == old(self).ava_time_of(),
                out@.len() <= c0.len(),
                forall|j: int| 0 <= j < out@.len() ==> made_ready(c0[j], #[trigger] out@[j], now),
            decreases self.cancelled_queue@.len(),
        {
            let ghost k = out@.len() as int;
            let mut co = self.cancelled_queue.pop_front().unwrap();
            proof {
                assert(co == c0[k]);
                assert(c0.skip(k).drop_first() =~= c0.skip(k + 1));
            }
            co.init(now);
            out.push_back(co);
        }
        self.cancelled_queue = out;
    }
}

/// A read after a write: once coroutine `id` is moved to the completed table with
/// record `stat`, looking `id` up gives `stat`.
pub proof fn lemma_completed_lookup<B>(
    before: Scheduler<B>,
    after: Scheduler<B>,
    id: u64,
    stat: SchedulerStatus,
)
    requires
        after.completed_of() == before.completed_of().insert(id, stat),
        after.status_of() == before.status_of().remove(id),
    ensures
        after.status_lookup(id) == Some(stat),
{
}

/// A live record hides a completed one of the same id, and a status update never
/// touches the completed table: after `update_status(id, stat)`, looking `id` up
/// gives `stat`.
pub proof fn lemma_update_lookup<B>(
    before: Scheduler<B>,
    after: Scheduler<B>,
    id: u64,
    stat: SchedulerStatus,
)
    requires
        after.status_of() == before.status_of().insert(id, stat),
        after.completed_of() == before.completed_of(),
    ensures
        after.status_lookup(id) == Some(stat),
{
}

/// The global queue is first in, first out: after a coroutine is queued without
/// deadline, the next `pop` still gives the coroutine that was at the front, or the
/// new one if the queue was empty.
pub proof fn lemma_global_fifo<B>(before: Scheduler<B>, after: Scheduler<B>, co: Coroutine<B>)
    requires
        after.global_of() == before.global_of().push(co),
    ensures
        after.global_of().len() > 0,
        before.global_of().len() > 0 ==> after.global_of()[0] == before.global_of()[0],
        before.global_of().len() == 0 ==> after.global_of()[0] == co,
        after.global_of().drop_first() == if before.global_of().len() == 0 {
            Seq::<Coroutine<B>>::empty()
        } else {
            before.global_of().drop_first().push(co)
        },
{
    assert(after.global_of().drop_first() =~= if before.global_of().len() == 0 {
        Seq::<Coroutine<B>>::empty()
    } else {
        before.global_of().drop_first().push(co)
    });
}

} // verus!
