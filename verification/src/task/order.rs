use super::{Coroutine, SchedulerStatus};
use std::cmp::Ordering;
use vstd::prelude::*;
use vstd::std_specs::cmp::{PartialEqSpecImpl, PartialOrdSpecImpl};

verus! {

/// The run-queue order on deadlines: a record with no deadline ranks above every
/// record with one, and an earlier deadline ranks above a later one (the reverse of
/// the order of the deadlines themselves).
pub open spec fn deadline_order(a: Option<u64>, b: Option<u64>) -> Ordering {
    match (a, b) {
        (None, None) => Ordering::Equal,
        (None, Some(_)) => Ordering::Greater,
        (Some(_), None) => Ordering::Less,
        (Some(x), Some(y)) => if x < y {
            Ordering::Greater
        } else if x == y {
            Ordering::Equal
        } else {
            Ordering::Less
        },
    }
}

fn order_deadlines(a: Option<u64>, b: Option<u64>) -> (r: Ordering)
    ensures
        r == deadline_order(a, b),
{
    match a {
        None => match b {
            None => Ordering::Equal,
            Some(_) => Ordering::Greater,
        },
        Some(x) => match b {
            None => Ordering::Less,
            Some(y) => if x < y {
                Ordering::Greater
            } else if x == y {
                Ordering::Equal
            } else {
                Ordering::Less
            },
        },
    }
}

fn same_deadline(a: Option<u64>, b: Option<u64>) -> (r: bool)
    ensures
        r == (a == b),
{
    match a {
        None => b.is_none(),
        Some(x) => match b {
            None => false,
            Some(y) => x == y,
        },
    }
}

impl SchedulerStatus {
    /// Records rank by deadline in the run queues (see `deadline_order`).
    pub fn cmp(&self, other: &Self) -> (r: Ordering)
        ensures
            r == deadline_order(self.absolute_deadline, other.absolute_deadline),
    {
        order_deadlines(self.absolute_deadline, other.absolute_deadline)
    }
}

impl PartialEq for SchedulerStatus {
    /// Records are equal in rank when their deadlines are.
    fn eq(&self, other: &Self) -> (r: bool) {
        same_deadline(self.absolute_deadline, other.absolute_deadline)
    }
}

impl PartialEqSpecImpl for SchedulerStatus {
    open spec fn obeys_eq_spec() -> bool {
        true
    }

    open spec fn eq_spec(&self, other: &Self) -> bool {
        self.absolute_deadline == other.absolute_deadline
    }
}

impl PartialOrd for SchedulerStatus {
    fn partial_cmp(&self, other: &Self) -> (r: Option<Ordering>) {
        Some(self.cmp(other))
    }
}

impl PartialOrdSpecImpl for SchedulerStatus {
    open spec fn obeys_partial_cmp_spec() -> bool {
        true
    }

    open spec fn partial_cmp_spec(&self, other: &Self) -> Option<Ordering> {
        Some(deadline_order(self.absolute_deadline, other.absolute_deadline))
    }
}

impl<B> Coroutine<B> {
    /// Coroutines rank by the deadlines of their records.
    pub fn cmp(&self, other: &Self) -> (r: Ordering)
        ensures
            r == deadline_order(self.deadline(), other.deadline()),
    {
        order_deadlines(self.get_deadline(), other.get_deadline())
    }
}

impl<B> PartialEq for Coroutine<B> {
    fn eq(&self, other: &Self) -> (r: bool) {
        same_deadline(self.get_deadline(), other.get_deadline())
    }
}

impl<B> PartialEqSpecImpl for Coroutine<B> {
    open spec fn obeys_eq_spec() -> bool {
        true
    }

    open spec fn eq_spec(&self, other: &Self) -> bool {
        self.deadline() == other.deadline()
    }
}

impl<B> PartialOrd for Coroutine<B> {
    fn partial_cmp(&self, other: &Self) -> (r: Option<Ordering>) {
        Some(self.cmp(other))
    }
}

impl<B> PartialOrdSpecImpl for Coroutine<B> {
    open spec fn obeys_partial_cmp_spec() -> bool {
        true
    }

    open spec fn partial_cmp_spec(&self, other: &Self) -> Option<Ordering> {
        Some(deadline_order(self.deadline(), other.deadline()))
    }
}

} // verus!
