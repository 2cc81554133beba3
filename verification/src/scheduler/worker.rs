use super::{deadline_first, Scheduler};
use crate::task::stack::StackSize;
use crate::task::{id_after, remaining_after, CoStatus, Coroutine, SchedulerStatus};
use std::collections::{HashMap, VecDeque};
use vstd::prelude::*;

verus! {

broadcast use vstd::std_specs::hash::group_hash_axioms;

/// One worker's run queues. Realtime coroutines wait by id with their records in
/// deadline order; coroutines spawned on this worker, taken from the global queue
/// and suspended wait first-in-first-out.
pub struct Worker<B> {
    worker_id: u8,
    new_spawned: VecDeque<Coroutine<B>>,
    local_queue: VecDeque<Coroutine<B>>,
    suspend_queue: VecDeque<Coroutine<B>>,
    realtime_queue: HashMap<u64, Coroutine<B>>,
    realtime_status: Vec<SchedulerStatus>,
    curr: Option<Coroutine<B>>,
    capacity: usize,
    len: usize,
}

/// The index of a record that comes first in deadline order.
fn first_status_index(q: &Vec<SchedulerStatus>) -> (i: usize)
    requires
        q.len() > 0,
    ensures
        i < q.len(),
        forall|j: int|
            0 <= j < q.len() ==> deadline_first(
                q@[i as int].absolute_deadline,
                #[trigger] q@[j].absolute_deadline,
            ),
{
    let mut best: usize = 0;
    let mut j: usize = 1;
    while j < q.len()
        invariant
            0 < j <= q.len(),
            best < j,
            forall|k: int|
                0 <= k < j ==> deadline_first(
                    q@[best as int].absolute_deadline,
                    #[trigger] q@[k].absolute_deadline,
                ),
        decreases q.len() - j,
    {
        let better = match q[j].absolute_deadline {
            None => match q[best].absolute_deadline {
                None => false,
                Some(_) => true,
            },
            Some(y) => match q[best].absolute_deadline {
                None => false,
                Some(x) => y < x,
            },
        };
        if better {
            best = j;
        }
        j = j + 1;
    }
    best
}

impl<B> Worker<B> {
    pub closed spec fn worker_id_of(self) -> u8 {
        self.worker_id
    }

    pub closed spec fn new_spawned_of(self) -> Seq<Coroutine<B>> {
        self.new_spawned@
    }

    pub closed spec fn local_of(self) -> Seq<Coroutine<B>> {
        self.local_queue@
    }

    pub closed spec fn suspended_of(self) -> Seq<Coroutine<B>> {
        self.suspend_queue@
    }

    /// The realtime coroutines waiting on this worker, by id.
    pub closed spec fn realtime_of(self) -> Map<u64, Coroutine<B>> {
        self.realtime_queue@
    }

    /// The records that order the realtime coroutines.
    pub closed spec fn realtime_status_of(self) -> Seq<SchedulerStatus> {
        self.realtime_status@
    }

    /// The coroutine to run next.
    pub closed spec fn curr_of(self) -> Option<Coroutine<B>> {
        self.curr
    }

    pub closed spec fn capacity_of(self) -> usize {
        self.capacity
    }

    /// The number of coroutines this worker holds.
    pub closed spec fn len_of(self) -> usize {
        self.len
    }

    /// The realtime records and the realtime coroutines match one to one, by id and
    /// deadline, and each coroutine carries its own id.
    pub open spec fn wf(self) -> bool {
        let st = self.realtime_status_of();
        let rt = self.realtime_of();
        &&& forall|i: int, j: int|
            0 <= i < st.len() && 0 <= j < st.len() && i != j ==> #[trigger] st[i].co_id
                != #[trigger] st[j].co_id
        &&& forall|i: int|
            0 <= i < st.len() ==> rt.contains_key(#[trigger] st[i].co_id) && rt[st[i].co_id].deadline()
                == st[i].absolute_deadline
        &&& forall|k: u64|
            #[trigger] rt.contains_key(k) ==> exists|i: int|
                0 <= i < st.len() && #[trigger] st[i].co_id == k
        &&& forall|k: u64|
            #[trigger] rt.contains_key(k) ==> rt[k].spec_id() == k && rt[k].id_consistent()
        &&& st.len() == rt.dom().len()
    }

    /// Only the realtime part and the length may differ between `self` and `o`.
    pub open spec fn same_fifo(self, o: Worker<B>) -> bool {
        &&& self.worker_id_of() == o.worker_id_of()
        &&& self.new_spawned_of() == o.new_spawned_of()
        &&& self.local_of() == o.local_of()
        &&& self.suspended_of() == o.suspended_of()
        &&& self.capacity_of() == o.capacity_of()
    }

    /// An empty worker that holds up to `capacity` coroutines.
    pub fn new(capacity: usize, worker_id: u8) -> (w: Worker<B>)
        ensures
            w.wf(),
            w.worker_id_of() == worker_id,
            w.capacity_of() == capacity,
            w.len_of() == 0,
            w.curr_of() is None,
            w.new_spawned_of() == Seq::<Coroutine<B>>::empty(),
            w.local_of() == Seq::<Coroutine<B>>::empty(),
            w.suspended_of() == Seq::<Coroutine<B>>::empty(),
            w.realtime_of() == Map::<u64, Coroutine<B>>::empty(),
            w.realtime_status_of() == Seq::<SchedulerStatus>::empty(),
    {
        let w = Worker {
            worker_id,
            new_spawned: VecDeque::with_capacity(capacity),
            local_queue: VecDeque::with_capacity(capacity),
            suspend_queue: VecDeque::with_capacity(capacity),
            realtime_queue: HashMap::with_capacity(capacity),
            realtime_status: Vec::new(),
            curr: None,
            capacity,
            len: 0,
        };
        assert(w.realtime_of().dom() =~= Set::<u64>::empty());
        w
    }

    pub fn get_worker_id(&self) -> (r: u8)
        ensures
            r == self.worker_id_of(),
    {
        self.worker_id
    }

    pub fn get_len(&self) -> (r: usize)
        ensures
            r == self.len_of(),
    {
        self.len
    }

    /// Whether a realtime coroutine with id `id` waits on this worker.
    pub fn waits_realtime(&self, id: u64) -> (r: bool)
        ensures
            r == self.realtime_of().contains_key(id),
    {
        self.realtime_queue.contains_key(&id)
    }

    /// Whether the worker holds as many coroutines as it may.
    pub fn is_full(&self) -> (r: bool)
        ensures
            r == (self.len_of() >= self.capacity_of()),
    {
        self.len >= self.capacity
    }

    /// Adds a realtime coroutine with its record.
    pub fn add_realtime(&mut self, co: Coroutine<B>)
        requires
            old(self).wf(),
            co.id_consistent(),
            !old(self).realtime_of().contains_key(co.spec_id()),
        ensures
            final(self).wf(),
            final(self).realtime_of() == old(self).realtime_of().insert(co.spec_id(), co),
            final(self).realtime_status_of().len() == old(self).realtime_status_of().len() + 1,
            final(self).same_fifo(*old(self)),
            final(self).curr_of() == old(self).curr_of(),
            final(self).len_of() == old(self).len_of(),
    {
        let stat = co.get_schedulestatus();
        let id = co.get_co_id();
        let ghost st0 = self.realtime_status@;
        let ghost rt0 = self.realtime_queue@;
        self.realtime_status.push(stat);
        self.realtime_queue.insert(id, co);
        proof {
            let st = self.realtime_status@;
            let rt = self.realtime_queue@;
            assert(st[st.len() - 1] == stat);
            assert forall|i: int| 0 <= i < st.len() - 1 implies st[i] == st0[i] by {}
            assert forall|k: u64| #[trigger] rt.contains_key(k) implies exists|i: int|
                0 <= i < st.len() && #[trigger] st[i].co_id == k by {
                if k == id {
                    assert(st[st.len() - 1].co_id == k);
                } else {
                    assert(rt0.contains_key(k));
                    let i = choose|i: int| 0 <= i < st0.len() && #[trigger] st0[i].co_id == k;
                    assert(st[i].co_id == k);
                }
            }
            assert forall|i: int| 0 <= i < st.len() - 1 implies st[i].co_id != id by {
                assert(rt0.contains_key(st0[i].co_id));
            }
            assert(rt.dom() =~= rt0.dom().insert(id));
        }
    }

    /// Takes the realtime coroutine that comes first in deadline order.
    pub fn take_realtime(&mut self) -> (r: Option<Coroutine<B>>)
        requires
            old(self).wf(),
        ensures
            final(self).wf(),
            old(self).realtime_of().dom().len() == 0 <==> r is None,
            r is None ==> final(self).realtime_of() == old(self).realtime_of(),
            r matches Some(co) ==> {
                &&& old(self).realtime_of().contains_key(co.spec_id())
                &&& old(self).realtime_of()[co.spec_id()] == co
                &&& final(self).realtime_of() == old(self).realtime_of().remove(co.spec_id())
                &&& forall|k: u64|
                    #[trigger] old(self).realtime_of().contains_key(k) ==> deadline_first(
                        co.deadline(),
                        old(self).realtime_of()[k].deadline(),
                    )
            },
            final(self).same_fifo(*old(self)),
            final(self).curr_of() == old(self).curr_of(),
            final(self).len_of() == old(self).len_of(),
    {
        if self.realtime_status.len() == 0 {
            proof {
                assert(self.realtime_of().dom().len() == 0);
            }
            return None;
        }
        let ghost st0 = self.realtime_status@;
        let ghost rt0 = self.realtime_queue@;
        let i = first_status_index(&self.realtime_status);
        let stat = self.realtime_status.remove(i);
        let id = stat.get_co_id();
        proof {
            assert(st0[i as int] == stat);
            assert(rt0.contains_key(id));
        }
        let co = self.realtime_queue.remove(&id).unwrap();
        proof {
            let st = self.realtime_status@;
            let rt = self.realtime_queue@;
            assert(st == st0.remove(i as int));
            assert(rt == rt0.remove(id));
            assert forall|k: u64| #[trigger] rt0.contains_key(k) implies deadline_first(
                co.deadline(),
                rt0[k].deadline(),
            ) by {
                let j = choose|j: int| 0 <= j < st0.len() && #[trigger] st0[j].co_id == k;
                assert(deadline_first(st0[i as int].absolute_deadline, st0[j].absolute_deadline));
            }
            assert forall|j: int| 0 <= j < st.len() implies rt.contains_key(#[trigger] st[j].co_id)
                && rt[st[j].co_id].deadline() == st[j].absolute_deadline by {
                let jj = if j < i {
                    j
                } else {
                    j + 1
                };
                assert(st[j] == st0[jj]);
                assert(st0[jj].co_id != st0[i as int].co_id);
            }
            assert forall|k: u64| #[trigger] rt.contains_key(k) implies exists|j: int|
                0 <= j < st.len() && #[trigger] st[j].co_id == k by {
                let jj = choose|j: int| 0 <= j < st0.len() && #[trigger] st0[j].co_id == k;
                assert(jj != i);
                let j = if jj < i {
                    jj
                } else {
                    jj - 1
                };
                assert(st[j] == st0[jj]);
            }
            assert forall|a: int, b: int|
                0 <= a < st.len() && 0 <= b < st.len() && a != b implies #[trigger] st[a].co_id
                != #[trigger] st[b].co_id by {
                let aa = if a < i {
                    a
                } else {
                    a + 1
                };
                let bb = if b < i {
                    b
                } else {
                    b + 1
                };
                assert(st[a] == st0[aa] && st[b] == st0[bb]);
            }
            assert(rt.dom() =~= rt0.dom().remove(id));
        }
        Some(co)
    }

    /// Picks the coroutine to run next: a realtime one first (earliest deadline), then
    /// one spawned on this worker, then one taken from the global queue, then a
    /// suspended one. With none waiting, the choice stays as it was.
    pub fn set_curr(&mut self)
        requires
            old(self).wf(),
        ensures
            final(self).wf(),
            final(self).len_of() == old(self).len_of(),
            final(self).capacity_of() == old(self).capacity_of(),
            final(self).worker_id_of() == old(self).worker_id_of(),
            if old(self).realtime_of().dom().len() > 0 {
                &&& final(self).curr_of() matches Some(co)
                &&& old(self).realtime_of().contains_key(co.spec_id())
                &&& old(self).realtime_of()[co.spec_id()] == co
                &&& final(self).realtime_of() == old(self).realtime_of().remove(co.spec_id())
                &&& forall|k: u64|
                    #[trigger] old(self).realtime_of().contains_key(k) ==> deadline_first(
                        co.deadline(),
                        old(self).realtime_of()[k].deadline(),
                    )
                &&& final(self).same_fifo(*old(self))
            } else if old(self).local_of().len() > 0 {
                &&& final(self).curr_of() == Some(old(self).local_of()[0])
                &&& final(self).local_of() == old(self).local_of().drop_first()
                &&& final(self).new_spawned_of() == old(self).new_spawned_of()
                &&& final(self).suspended_of() == old(self).suspended_of()
                &&& final(self).realtime_of() == old(self).realtime_of()
            } else if old(self).new_spawned_of().len() > 0 {
                &&& final(self).curr_of() == Some(old(self).new_spawned_of()[0])
                &&& final(self).new_spawned_of() == old(self).new_spawned_of().drop_first()
                &&& final(self).local_of() == old(self).local_of()
                &&& final(self).suspended_of() == old(self).suspended_of()
                &&& final(self).realtime_of() == old(self).realtime_of()
            } else if old(self).suspended_of().len() > 0 {
                &&& final(self).curr_of() == Some(old(self).suspended_of()[0])
                &&& final(self).suspended_of() == old(self).suspended_of().drop_first()
                &&& final(self).local_of() == old(self).local_of()
                &&& final(self).new_spawned_of() == old(self).new_spawned_of()
                &&& final(self).realtime_of() == old(self).realtime_of()
            } else {
                &&& final(self).curr_of() == old(self).curr_of()
                &&& final(self).realtime_of() == old(self).realtime_of()
                &&& final(self).realtime_status_of() == old(self).realtime_status_of()
                &&& final(self).same_fifo(*old(self))
            },
    {
        if let Some(co) = self.take_realtime() {
            self.curr = Some(co);
        } else if let Some(co) = self.local_queue.pop_front() {
            self.curr = Some(co);
        } else if let Some(co) = self.new_spawned.pop_front() {
            self.curr = Some(co);
        } else if let Some(co) = self.suspend_queue.pop_front() {
            self.curr = Some(co);
        }
    }

    /// Takes the coroutine picked to run next.
    pub fn take_curr(&mut self) -> (r: Option<Coroutine<B>>)
        ensures
            r == old(self).curr_of(),
            final(self).curr_of() is None,
            final(self).realtime_of() == old(self).realtime_of(),
            final(self).realtime_status_of() == old(self).realtime_status_of(),
            final(self).same_fifo(*old(self)),
            final(self).len_of() == old(self).len_of(),
    {
        self.curr.take()
    }

    /// Takes the coroutine waiting in the scheduler's preemption slot, if any, as the
    /// one to run next.
    pub fn preemptive(&mut self, sched: &mut Scheduler<B>) -> (r: bool)
        requires
            old(self).len_of() < usize::MAX,
        ensures
            r == old(sched).slot_of() is Some,
            r ==> final(self).curr_of() == old(sched).slot_of() && final(self).len_of() == old(
                self,
            ).len_of() + 1,
            !r ==> final(self).curr_of() == old(self).curr_of() && final(self).len_of() == old(
                self,
            ).len_of(),
            final(sched).slot_of() is None,
            final(sched).realtime_of() == old(sched).realtime_of(),
            final(sched).global_of() == old(sched).global_of(),
            final(sched).status_of() == old(sched).status_of(),
            final(sched).completed_of() == old(sched).completed_of(),
            final(sched).cancelled_of() == old(sched).cancelled_of(),
            final(sched).curr_running_of() == old(sched).curr_running_of(),
            final(sched).ava_time_of() == old(sched).ava_time_of(),
            final(self).realtime_of() == old(self).realtime_of(),
            final(self).realtime_status_of() == old(self).realtime_status_of(),
            final(self).same_fifo(*old(self)),
    {
        if let Some(co) = sched.get_slot() {
            self.curr = Some(co);
            self.len = self.len + 1;
            return true;
        }
        false
    }

    /// Moves every realtime coroutine of the scheduler to this worker, then takes
    /// coroutines from the front of the global queue while the worker has room.
    pub fn get_task(&mut self, sched: &mut Scheduler<B>)
        requires
            old(self).wf(),
            rt_ids_fresh(*old(self), old(sched).realtime_of()),
            old(self).len_of() + old(sched).realtime_of().len() + old(sched).global_of().len()
                <= usize::MAX,
        ensures
            final(self).wf(),
            final(sched).realtime_of().len() == 0,
            final(self).realtime_of().dom() == old(self).realtime_of().dom().union(
                ids_of(old(sched).realtime_of()),
            ),
            forall|k: u64|
                #[trigger] old(self).realtime_of().contains_key(k) ==> final(self).realtime_of()[k]
                    == old(self).realtime_of()[k],
            forall|i: int|
                0 <= i < old(sched).realtime_of().len() ==> final(self).realtime_of().contains_key(
                    (#[trigger] old(sched).realtime_of()[i]).spec_id(),
                ) && final(self).realtime_of()[old(sched).realtime_of()[i].spec_id()] == old(
                    sched,
                ).realtime_of()[i],
            ({
                let taken = (final(self).len_of() - old(self).len_of() - old(
                    sched,
                ).realtime_of().len()) as int;
                &&& 0 <= taken <= old(sched).global_of().len()
                &&& final(self).new_spawned_of() == old(self).new_spawned_of() + old(
                    sched,
                ).global_of().take(taken)
                &&& final(sched).global_of() == old(sched).global_of().skip(taken)
                &&& (taken < old(sched).global_of().len() ==> final(self).len_of()
                    >= final(self).capacity_of())
                &&& taken == global_intake(
                    old(self).len_of() + old(sched).realtime_of().len(),
                    old(self).capacity_of() as int,
                    old(sched).global_of().len() as int,
                )
            }),
            final(self).local_of() == old(self).local_of(),
            final(self).suspended_of() == old(self).suspended_of(),
            final(self).capacity_of() == old(self).capacity_of(),
            final(self).worker_id_of() == old(self).worker_id_of(),
            final(self).curr_of() == old(self).curr_of(),
            final(sched).slot_of() == old(sched).slot_of(),
            final(sched).status_of() == old(sched).status_of(),
            final(sched).completed_of() == old(sched).completed_of(),
    {
        let ghost rt_sched0 = sched.realtime_of();
        let ghost rt_self0 = self.realtime_of();
        let ghost len0 = self.len;
        assert forall|j: int| 0 <= j < sched.realtime_of().len() implies rt_sched0.contains(
            #[trigger] sched.realtime_of()[j],
        ) by {
            assert(rt_sched0[j] == sched.realtime_of()[j]);
        }
        while sched.get_realtime_length() > 0
            invariant
                self.wf(),
                rt_ids_fresh(*self, sched.realtime_of()),
                self.len + sched.realtime_of().len() + sched.global_of().len() <= usize::MAX,
                self.len + sched.realtime_of().len() == len0 + rt_sched0.len(),
                self.realtime_of().dom().union(ids_of(sched.realtime_of())) == rt_self0.dom().union(
                    ids_of(rt_sched0),
                ),
                forall|a: int, b: int|
                    0 <= a < rt_sched0.len() && 0 <= b < rt_sched0.len() && a != b ==> #[trigger] rt_sched0[a].spec_id()
                        != #[trigger] rt_sched0[b].spec_id(),
                forall|k: u64|
                    #[trigger] rt_self0.contains_key(k) ==> self.realtime_of().contains_key(k)
                        && self.realtime_of()[k] == rt_self0[k],
                forall|a: int|
                    0 <= a < rt_sched0.len() ==> ids_of(sched.realtime_of()).contains(
                        (#[trigger] rt_sched0[a]).spec_id(),
                    ) || (self.realtime_of().contains_key(rt_sched0[a].spec_id())
                        && self.realtime_of()[rt_sched0[a].spec_id()] == rt_sched0[a]),
                forall|j: int|
                    0 <= j < sched.realtime_of().len() ==> rt_sched0.contains(
                        #[trigger] sched.realtime_of()[j],
                    ),
                self.local_of() == old(self).local_of(),
                self.suspended_of() == old(self).suspended_of(),
                self.new_spawned_of() == old(self).new_spawned_of(),
                self.capacity_of() == old(self).capacity_of(),
                self.worker_id_of() == old(self).worker_id_of(),
                self.curr_of() == old(self).curr_of(),
                sched.global_of() == old(sched).global_of(),
                sched.slot_of() == old(sched).slot_of(),
                sched.status_of() == old(sched).status_of(),
                sched.completed_of() == old(sched).completed_of(),
            decreases sched.realtime_of().len(),
        {
            let ghost q0 = sched.realtime_of();
            let ghost dom0 = self.realtime_of().dom();
            let ghost rt_w0 = self.realtime_of();
            let co = sched.pop_realtime().unwrap();
            let ghost i = choose|i: int|
                0 <= i < q0.len() && Some(co) == Some(#[trigger] q0[i]) && sched.realtime_of()
                    == q0.remove(i);
            proof {
                assert(co == q0[i]);
                assert(co.id_consistent());
                assert(!self.realtime_of().contains_key(co.spec_id()));
            }
            assert(rt_sched0.contains(q0[i]));
            let ghost a0 = choose|a: int| 0 <= a < rt_sched0.len() && rt_sched0[a] == q0[i];
            self.add_realtime(co);
            self.len = self.len + 1;
            proof {
                let q1 = q0.remove(i);
                lemma_ids_of_remove(q0, i);
                assert(rt_sched0[a0] == co);
                assert forall|k: u64| #[trigger] rt_self0.contains_key(k) implies self.realtime_of().contains_key(k)
                    && self.realtime_of()[k] == rt_self0[k] by {
                    assert(rt_w0.contains_key(k));
                }
                assert forall|a: int|
                    0 <= a < rt_sched0.len() implies ids_of(q1).contains(
                    (#[trigger] rt_sched0[a]).spec_id(),
                ) || (self.realtime_of().contains_key(rt_sched0[a].spec_id())
                    && self.realtime_of()[rt_sched0[a].spec_id()] == rt_sched0[a]) by {
                    if rt_sched0[a].spec_id() == co.spec_id() {
                        assert(a == a0);
                    } else if ids_of(q0).contains(rt_sched0[a].spec_id()) {
                        assert(ids_of(q0) == ids_of(q1).insert(q0[i].spec_id()));
                    } else {
                    }
                }
                assert forall|j: int| 0 <= j < q1.len() implies rt_sched0.contains(
                    #[trigger] q1[j],
                ) by {
                    let jj = if j < i {
                        j
                    } else {
                        j + 1
                    };
                    assert(q1[j] == q0[jj]);
                }
                assert forall|a: int, b: int|
                    0 <= a < q1.len() && 0 <= b < q1.len() && a != b implies #[trigger] q1[a].spec_id()
                    != #[trigger] q1[b].spec_id() by {
                    let aa = if a < i {
                        a
                    } else {
                        a + 1
                    };
                    let bb = if b < i {
                        b
                    } else {
                        b + 1
                    };
                    assert(q1[a] == q0[aa] && q1[b] == q0[bb]);
                }
                assert forall|a: int| 0 <= a < q1.len() implies #[trigger] q1[a].id_consistent() by {
                    let aa = if a < i {
                        a
                    } else {
                        a + 1
                    };
                    assert(q1[a] == q0[aa]);
                }
                assert forall|a: int|
                    0 <= a < q1.len() implies !self.realtime_of().contains_key(
                    #[trigger] q1[a].spec_id(),
                ) by {
                    let aa = if a < i {
                        a
                    } else {
                        a + 1
                    };
                    assert(q1[a] == q0[aa]);
                    assert(q0[aa].spec_id() != q0[i].spec_id());
                    assert(!rt_w0.contains_key(q0[aa].spec_id()));
                }
                assert(self.realtime_of().dom() =~= dom0.insert(co.spec_id()));
                assert(self.realtime_of().dom().union(ids_of(q1)) =~= dom0.union(ids_of(q0)));
            }
        }
        proof {
            assert(ids_of(sched.realtime_of()) =~= Set::<u64>::empty());
            assert(self.realtime_of().dom().union(ids_of(sched.realtime_of())) =~= self.realtime_of().dom());
        }
        let ghost g0 = sched.global_of();
        let ghost lenm = self.len;
        let ghost rt_after = self.realtime_of();
        while !self.is_full() && sched.get_length() > 0
            invariant
                self.wf(),
                self.len + sched.global_of().len() <= usize::MAX,
                lenm <= self.len,
                self.len == lenm || self.len <= self.capacity_of(),
                self.realtime_of() == rt_after,
                g0.len() == (self.len - lenm) + sched.global_of().len(),
                self.new_spawned_of() == old(self).new_spawned_of() + g0.take(self.len - lenm),
                sched.global_of() == g0.skip(self.len - lenm),
                self.local_of() == old(self).local_of(),
                self.suspended_of() == old(self).suspended_of(),
                self.capacity_of() == old(self).capacity_of(),
                self.worker_id_of() == old(self).worker_id_of(),
                self.curr_of() == old(self).curr_of(),
                sched.realtime_of().len() == 0,
                sched.slot_of() == old(sched).slot_of(),
                sched.status_of() == old(sched).status_of(),
                sched.completed_of() == old(sched).completed_of(),
            decreases sched.global_of().len(),
        {
            let ghost k = self.len - lenm;
            let ghost ns0 = self.new_spawned_of();
            let co = sched.pop().unwrap();
            self.new_spawned.push_back(co);
            self.len = self.len + 1;
            proof {
                assert(g0.skip(k)[0] == g0[k]);
                assert(g0.take(k + 1) =~= g0.take(k).push(g0[k]));
                assert(g0.skip(k).drop_first() =~= g0.skip(k + 1));
                assert(self.new_spawned_of() =~= old(self).new_spawned_of() + g0.take(k + 1));
            }
        }
        proof {
            let k = self.len - lenm;
            assert(k <= g0.len());
        }
    }

    /// Parks the running coroutine `co`, switched away from at `now`: unless it has
    /// completed it becomes SUSPENDED; its bookkeeping is brought up to date (see
    /// `Coroutine::suspend`); a realtime coroutine waits with the realtime ones, any
    /// other at the back of the suspended queue.
    pub fn suspend(&mut self, sched: &mut Scheduler<B>, co: Coroutine<B>, now: u64)
        requires
            old(self).wf(),
            co.id_consistent(),
            !old(self).realtime_of().contains_key(co.spec_id()),
            co.sched().running_time_after(now) <= u64::MAX,
        ensures
            final(self).wf(),
            ({
                let st = if co.spec_status() == CoStatus::COMPLETED {
                    CoStatus::COMPLETED
                } else {
                    CoStatus::SUSPENDED
                };
                let rt = co.sched().absolute_deadline is Some
                    && co.sched().expected_execution_time is Some;
                let p = if rt {
                    final(self).realtime_of()[co.spec_id()]
                } else {
                    final(self).suspended_of().last()
                };
                &&& rt ==> final(self).realtime_of() == old(self).realtime_of().insert(
                    co.spec_id(),
                    p,
                ) && final(self).suspended_of() == old(self).suspended_of()
                &&& !rt ==> final(self).suspended_of() == old(self).suspended_of().push(p)
                    && final(self).realtime_of() == old(self).realtime_of()
                &&& p.spec_id() == co.spec_id()
                &&& p.spec_body() == co.spec_body()
                &&& p.spec_status() == st
                &&& p.sched().co_status == st
                &&& p.sched().history() == co.sched().history().insert(now, st)
                &&& p.sched().running_time == co.sched().running_time_after(now)
                &&& p.sched().curr_start_time is None
                &&& p.sched().absolute_deadline == co.sched().absolute_deadline
                &&& p.sched().expected_remaining_execution_time == remaining_after(
                    co.sched().expected_execution_time,
                    co.sched().expected_remaining_execution_time,
                    p.sched().running_time,
                )
                &&& p.sched().expected_execution_time == co.sched().expected_execution_time
                &&& p.sched().spawn_time == co.sched().spawn_time
                &&& p.sched().worst_start_time == co.sched().worst_start_time
                &&& p.sched().relative_deadline == co.sched().relative_deadline
                &&& p.sched().co_id == co.sched().co_id
                &&& final(sched).status_of().contains_key(co.spec_id())
                &&& final(sched).status_of()[co.spec_id()].equiv(p.sched())
            }),
            final(sched).status_of() == old(sched).status_of().insert(
                co.spec_id(),
                final(sched).status_of()[co.spec_id()],
            ),
            final(sched).completed_of() == old(sched).completed_of(),
            final(sched).same_queues(*old(sched)),
            final(self).new_spawned_of() == old(self).new_spawned_of(),
            final(self).local_of() == old(self).local_of(),
            final(self).capacity_of() == old(self).capacity_of(),
            final(self).worker_id_of() == old(self).worker_id_of(),
            final(self).curr_of() == old(self).curr_of(),
            final(self).len_of() == old(self).len_of(),
    {
        let mut co = co;
        if co.get_status() != CoStatus::COMPLETED {
            co.set_status(CoStatus::SUSPENDED);
        }
        co.suspend(sched, now);
        if co.is_realtime() {
            self.add_realtime(co);
        } else {
            self.suspend_queue.push_back(co);
        }
    }

    /// Settles the coroutine `co` after a switch back from it: one that has not
    /// completed comes back to the caller; a completed one leaves the worker and its
    /// record moves to the scheduler's completed table.
    pub fn run_co(&mut self, sched: &mut Scheduler<B>, co: Coroutine<B>) -> (r: Option<
        Coroutine<B>,
    >)
        requires
            co.spec_status() == CoStatus::COMPLETED ==> old(self).len_of() >= 1,
        ensures
            co.spec_status() != CoStatus::COMPLETED ==> r == Some(co) && *final(sched) == *old(
                sched,
            ) && final(self).len_of() == old(self).len_of(),
            co.spec_status() == CoStatus::COMPLETED ==> {
                &&& r is None
                &&& final(self).len_of() == old(self).len_of() - 1
                &&& final(sched).completed_of() == old(sched).completed_of().insert(
                    co.spec_id(),
                    final(sched).completed_of()[co.spec_id()],
                )
                &&& final(sched).completed_of()[co.spec_id()].equiv(co.sched())
                &&& final(sched).status_of() == old(sched).status_of().remove(co.spec_id())
                &&& final(sched).same_queues(*old(sched))
            },
            final(self).realtime_of() == old(self).realtime_of(),
            final(self).realtime_status_of() == old(self).realtime_status_of(),
            final(self).curr_of() == old(self).curr_of(),
            final(self).same_fifo(*old(self)),
    {
        if co.get_status() != CoStatus::COMPLETED {
            return Some(co);
        }
        self.len = self.len - 1;
        let id = co.get_co_id();
        let stat = co.get_schedulestatus();
        sched.update_completed_status(id, stat);
        None
    }

    /// Spawns a coroutine running `body` on this worker: it draws its id from
    /// `next_id` (see `get_id`), is spawned and made READY at `now`, and waits at the
    /// back of the local queue.
    pub fn _spawn_local(&mut self, body: B, next_id: &mut u64, now: u64)
        requires
            old(self).len_of() < usize::MAX,
        ensures
            *final(next_id) == id_after(*old(next_id)),
            final(self).local_of().len() == old(self).local_of().len() + 1,
            final(self).local_of().drop_last() == old(self).local_of(),
            final(self).local_of().last().spec_id() == *old(next_id),
            final(self).local_of().last().spec_body() == body,
            final(self).local_of().last().spec_status() == CoStatus::READY,
            final(self).local_of().last().deadline() is None,
            final(self).len_of() == old(self).len_of() + 1,
            final(self).new_spawned_of() == old(self).new_spawned_of(),
            final(self).suspended_of() == old(self).suspended_of(),
            final(self).realtime_of() == old(self).realtime_of(),
            final(self).realtime_status_of() == old(self).realtime_status_of(),
            final(self).curr_of() == old(self).curr_of(),
    {
        let co = Coroutine::new(body, StackSize::default(), true, next_id, now, None, None);
        self.local_queue.push_back(co);
        self.len = self.len + 1;
    }

    /// The time slice of the running coroutine is over: one without deadline gives way
    /// when, after work is taken from the scheduler (see `get_task`), the worker holds
    /// more than one coroutine; a realtime one is never sliced. Returns whether the
    /// running coroutine is to be suspended.
    pub fn time_slice(&mut self, sched: &mut Scheduler<B>, running_realtime: bool) -> (r: bool)
        requires
            old(self).wf(),
            rt_ids_fresh(*old(self), old(sched).realtime_of()),
            old(self).len_of() + old(sched).realtime_of().len() + old(sched).global_of().len()
                <= usize::MAX,
        ensures
            final(self).wf(),
            running_realtime ==> !r && *final(self) == *old(self) && *final(sched) == *old(sched),
            !running_realtime ==> took_tasks(*old(self), *old(sched), *final(self), *final(sched))
                && r == (final(self).len_of() > 1),
    {
        if running_realtime {
            return false;
        }
        let ghost w0 = *self;
        let ghost s0 = *sched;
        self.get_task(sched);
        assert(took_tasks(w0, s0, *self, *sched));
        self.len > 1
    }

    /// With nothing picked to run: takes work from the scheduler when the worker is
    /// less than half full (see `get_task`), then picks the coroutine to run next (see
    /// `set_curr`).
    pub fn pick_next(&mut self, sched: &mut Scheduler<B>)
        requires
            old(self).wf(),
            rt_ids_fresh(*old(self), old(sched).realtime_of()),
            old(self).len_of() + old(sched).realtime_of().len() + old(sched).global_of().len()
                <= usize::MAX,
        ensures
            final(self).wf(),
            old(self).len_of() >= old(self).capacity_of() / 2 ==> *final(sched) == *old(sched)
                && final(self).len_of() == old(self).len_of(),
            exists|mid: Worker<B>|
                {
                    &&& mid.wf()
                    &&& if old(self).len_of() < old(self).capacity_of() / 2 {
                        took_tasks(*old(self), *old(sched), mid, *final(sched))
                    } else {
                        mid == *old(self) && *final(sched) == *old(sched)
                    }
                    &&& #[trigger] picked_next(mid, *final(self))
                },
    {
        let ghost w0 = *self;
        let ghost s0 = *sched;
        if self.len < self.capacity / 2 {
            self.get_task(sched);
            assert(took_tasks(w0, s0, *self, *sched));
        }
        let ghost mid = *self;
        self.set_curr();
        assert(picked_next(mid, *self));
    }
}

/// How many coroutines `get_task` takes from a global queue of `waiting` once the
/// worker holds `held`: as many as fit below `capacity`, at most all of them.
pub open spec fn global_intake(held: int, capacity: int, waiting: int) -> int {
    let room = if capacity > held {
        capacity - held
    } else {
        0
    };
    if waiting < room {
        waiting
    } else {
        room
    }
}

/// What `get_task` does: worker `w0` and scheduler `s0` become `w1` and `s1`. Every
/// realtime coroutine moves to the worker as it is, beside those already there;
/// coroutines move from the front of the global queue to the back of the worker's
/// while it has room; nothing else changes.
pub open spec fn took_tasks<B>(w0: Worker<B>, s0: Scheduler<B>, w1: Worker<B>, s1: Scheduler<B>) -> bool {
    let taken = (w1.len_of() - w0.len_of() - s0.realtime_of().len()) as int;
    &&& s1.realtime_of().len() == 0
    &&& w1.realtime_of().dom() == w0.realtime_of().dom().union(ids_of(s0.realtime_of()))
    &&& forall|k: u64|
        #[trigger] w0.realtime_of().contains_key(k) ==> w1.realtime_of()[k] == w0.realtime_of()[k]
    &&& forall|i: int|
        0 <= i < s0.realtime_of().len() ==> w1.realtime_of().contains_key(
            (#[trigger] s0.realtime_of()[i]).spec_id(),
        ) && w1.realtime_of()[s0.realtime_of()[i].spec_id()] == s0.realtime_of()[i]
    &&& 0 <= taken <= s0.global_of().len()
    &&& w1.new_spawned_of() == w0.new_spawned_of() + s0.global_of().take(taken)
    &&& s1.global_of() == s0.global_of().skip(taken)
    &&& (taken < s0.global_of().len() ==> w1.len_of() >= w1.capacity_of())
    &&& taken == global_intake(
        w0.len_of() + s0.realtime_of().len(),
        w0.capacity_of() as int,
        s0.global_of().len() as int,
    )
    &&& w1.local_of() == w0.local_of()
    &&& w1.suspended_of() == w0.suspended_of()
    &&& w1.capacity_of() == w0.capacity_of()
    &&& w1.worker_id_of() == w0.worker_id_of()
    &&& w1.curr_of() == w0.curr_of()
    &&& s1.slot_of() == s0.slot_of()
    &&& s1.status_of() == s0.status_of()
    &&& s1.completed_of() == s0.completed_of()
}

/// What `set_curr` does: worker `w0` becomes `w1` by taking the coroutine to run
/// next, a realtime one first (earliest deadline), then the front of the local, the
/// newly spawned and the suspended queue; with none waiting nothing changes.
pub open spec fn picked_next<B>(w0: Worker<B>, w1: Worker<B>) -> bool {
    &&& w1.len_of() == w0.len_of()
    &&& w1.capacity_of() == w0.capacity_of()
    &&& w1.worker_id_of() == w0.worker_id_of()
    &&& if w0.realtime_of().dom().len() > 0 {
        &&& w1.curr_of() matches Some(co)
        &&& w0.realtime_of().contains_key(co.spec_id())
        &&& w0.realtime_of()[co.spec_id()] == co
        &&& w1.realtime_of() == w0.realtime_of().remove(co.spec_id())
        &&& forall|k: u64|
            #[trigger] w0.realtime_of().contains_key(k) ==> deadline_first(
                co.deadline(),
                w0.realtime_of()[k].deadline(),
            )
        &&& w1.same_fifo(w0)
    } else if w0.local_of().len() > 0 {
        &&& w1.curr_of() == Some(w0.local_of()[0])
        &&& w1.local_of() == w0.local_of().drop_first()
        &&& w1.new_spawned_of() == w0.new_spawned_of()
        &&& w1.suspended_of() == w0.suspended_of()
        &&& w1.realtime_of() == w0.realtime_of()
    } else if w0.new_spawned_of().len() > 0 {
        &&& w1.curr_of() == Some(w0.new_spawned_of()[0])
        &&& w1.new_spawned_of() == w0.new_spawned_of().drop_first()
        &&& w1.local_of() == w0.local_of()
        &&& w1.suspended_of() == w0.suspended_of()
        &&& w1.realtime_of() == w0.realtime_of()
    } else if w0.suspended_of().len() > 0 {
        &&& w1.curr_of() == Some(w0.suspended_of()[0])
        &&& w1.suspended_of() == w0.suspended_of().drop_first()
        &&& w1.local_of() == w0.local_of()
        &&& w1.new_spawned_of() == w0.new_spawned_of()
        &&& w1.realtime_of() == w0.realtime_of()
    } else {
        &&& w1.curr_of() == w0.curr_of()
        &&& w1.realtime_of() == w0.realtime_of()
        &&& w1.realtime_status_of() == w0.realtime_status_of()
        &&& w1.same_fifo(w0)
    }
}

/// The realtime coroutines `q` of the scheduler have distinct ids, carry their own
/// ids, and none is waiting on worker `w` already.
pub open spec fn rt_ids_fresh<B>(w: Worker<B>, q: Seq<Coroutine<B>>) -> bool {
    &&& forall|i: int, j: int|
        0 <= i < q.len() && 0 <= j < q.len() && i != j ==> #[trigger] q[i].spec_id()
            != #[trigger] q[j].spec_id()
    &&& forall|i: int| 0 <= i < q.len() ==> #[trigger] q[i].id_consistent()
    &&& forall|i: int| 0 <= i < q.len() ==> !w.realtime_of().contains_key(#[trigger] q[i].spec_id())
}

/// The ids of the coroutines of `q`.
pub open spec fn ids_of<B>(q: Seq<Coroutine<B>>) -> Set<u64> {
    Set::new(|k: u64| exists|i: int| 0 <= i < q.len() && (#[trigger] q[i]).spec_id() == k)
}

proof fn lemma_ids_of_remove<B>(q: Seq<Coroutine<B>>, i: int)
    requires
        0 <= i < q.len(),
    ensures
        ids_of(q) == ids_of(q.remove(i)).insert(q[i].spec_id()),
{
    let q1 = q.remove(i);
    assert forall|k: u64| #[trigger] ids_of(q).contains(k) implies ids_of(q1).insert(
        q[i].spec_id(),
    ).contains(k) by {
        let j = choose|j: int| 0 <= j < q.len() && (#[trigger] q[j]).spec_id() == k;
        if j < i {
            assert(q1[j] == q[j]);
        } else if j > i {
            assert(q1[j - 1] == q[j]);
        }
    }
    assert forall|k: u64| #[trigger] ids_of(q1).insert(q[i].spec_id()).contains(k) implies ids_of(
        q,
    ).contains(k) by {
        if k != q[i].spec_id() {
            let j = choose|j: int| 0 <= j < q1.len() && (#[trigger] q1[j]).spec_id() == k;
            if j < i {
                assert(q1[j] == q[j]);
            } else {
                assert(q1[j] == q[j + 1]);
            }
        }
    }
    assert(ids_of(q) =~= ids_of(q1).insert(q[i].spec_id()));
}

/// Realtime coroutines come out earliest deadline first: after `a` and then `b`, with
/// a later deadline and another id, are added (`add_realtime`) to a worker holding no
/// realtime coroutine, `take_realtime` gives `a`, then `b`, then nothing.
pub proof fn lemma_realtime_edf<B>(
    w0: Worker<B>,
    w1: Worker<B>,
    w2: Worker<B>,
    w3: Worker<B>,
    w4: Worker<B>,
    a: Coroutine<B>,
    b: Coroutine<B>,
    p: Coroutine<B>,
    q: Coroutine<B>,
)
    requires
        w0.realtime_of() == Map::<u64, Coroutine<B>>::empty(),
        a.spec_id() != b.spec_id(),
        a.deadline() is Some,
        b.deadline() is Some,
        a.deadline()->0 < b.deadline()->0,
        w1.realtime_of() == w0.realtime_of().insert(a.spec_id(), a),
        w2.realtime_of() == w1.realtime_of().insert(b.spec_id(), b),
        w2.realtime_of().contains_key(p.spec_id()),
        w2.realtime_of()[p.spec_id()] == p,
        w3.realtime_of() == w2.realtime_of().remove(p.spec_id()),
        forall|k: u64|
            #[trigger] w2.realtime_of().contains_key(k) ==> deadline_first(
                p.deadline(),
                w2.realtime_of()[k].deadline(),
            ),
        w3.realtime_of().contains_key(q.spec_id()),
        w3.realtime_of()[q.spec_id()] == q,
        w4.realtime_of() == w3.realtime_of().remove(q.spec_id()),
    ensures
        p == a,
        q == b,
        w4.realtime_of().dom().len() == 0,
{
    assert(w2.realtime_of().contains_key(a.spec_id()));
    assert(w2.realtime_of().contains_key(b.spec_id()));
    assert(w2.realtime_of()[a.spec_id()] == a);
    if p.spec_id() != a.spec_id() {
        assert(p.spec_id() == b.spec_id());
        assert(deadline_first(p.deadline(), a.deadline()));
    }
    assert(w3.realtime_of() =~= Map::<u64, Coroutine<B>>::empty().insert(b.spec_id(), b));
    assert(w4.realtime_of() =~= Map::<u64, Coroutine<B>>::empty());
    assert(w4.realtime_of().dom() =~= Set::<u64>::empty());
}

} // verus!
