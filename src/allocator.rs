use vstd::prelude::*;

use crate::schedule::Schedule;

verus! {

/// One unit of the request budget: its number and the instant it is due.
#[derive(Debug, Clone, Copy, PartialEq, Eq, Structural)]
pub struct Slot {
    pub index: u64,
    pub deadline_ns: u128,
}

/// Hands out the slots `0 .. total` of a run, one per call, in increasing order,
/// and nothing once they are gone. Shared by all workers of a run, which serialize
/// their calls to it.
#[derive(Debug)]
pub struct Allocator {
    calls: u64,
    schedule: Schedule,
}

/// The slots handed out after `calls` calls on a budget of `total`: `0, 1, ..`,
/// as many as were asked for and the budget holds.
pub open spec fn slots_issued(calls: nat, total: nat) -> Seq<u64> {
    Seq::new(if calls < total { calls } else { total }, |i: int| i as u64)
}

impl Allocator {
    /// The budget of slots.
    pub closed spec fn budget(&self) -> nat {
        self.schedule.total as nat
    }

    /// The timetable that slots are mapped to.
    pub closed spec fn timetable(&self) -> Schedule {
        self.schedule
    }

    /// Every slot handed out so far, in the order they were handed out.
    pub closed spec fn issued(&self) -> Seq<u64> {
        slots_issued(self.calls as nat, self.schedule.total as nat)
    }

    /// An allocator over the slots of `schedule`, whose counter starts at zero.
    pub fn new(schedule: Schedule) -> (r: Allocator)
        ensures
            r.budget() == schedule.total,
            r.timetable() == schedule,
            r.issued() == Seq::<u64>::empty(),
    {
        let r = Allocator { calls: 0, schedule };
        assert(r.issued() =~= Seq::<u64>::empty());
        r
    }

    /// The budget of slots, as given to `new`.
    pub fn total(&self) -> (r: u64)
        ensures
            r == self.budget(),
    {
        self.schedule.total
    }

    /// Whether every slot has been handed out.
    pub fn is_exhausted(&self) -> (r: bool)
        ensures
            r == (self.issued().len() == self.budget()),
    {
        self.calls >= self.schedule.total
    }

    /// Takes the next slot: the lowest one not yet handed out, or `None` once all
    /// `total` have been.
    pub fn next_slot(&mut self) -> (r: Option<u64>)
        ensures
            final(self).budget() == old(self).budget(),
            final(self).timetable() == old(self).timetable(),
            old(self).issued().len() < old(self).budget() ==> r == Some(
                old(self).issued().len() as u64,
            ) && final(self).issued() == old(self).issued().push(old(self).issued().len() as u64),
            old(self).issued().len() == old(self).budget() ==> r is None && final(self).issued()
                == old(self).issued(),
    {
        let n = self.calls;
        if n < self.schedule.total {
            self.calls = n + 1;
            assert(self.issued() =~= old(self).issued().push(n));
            Some(n)
        } else {
            assert(self.issued() =~= old(self).issued());
            None
        }
    }

    /// Takes the next slot with the instant it is due, or `None` once the budget
    /// is spent (and on every call after that).
    pub fn next(&mut self) -> (r: Option<Slot>)
        ensures
            final(self).budget() == old(self).budget(),
            final(self).timetable() == old(self).timetable(),
            old(self).issued().len() < old(self).budget() ==> r == Some(
                Slot {
                    index: old(self).issued().len() as u64,
                    deadline_ns: old(self).timetable().deadline_of(old(self).issued().len() as int)
                        as u128,
                },
            ) && final(self).issued() == old(self).issued().push(old(self).issued().len() as u64),
            old(self).issued().len() == old(self).budget() ==> r is None && final(self).issued()
                == old(self).issued(),
    {
        match self.next_slot() {
            Some(index) => Some(Slot { index, deadline_ns: self.schedule.deadline(index) }),
            None => None,
        }
    }
}

/// Whatever order the calls come in, the slots handed out so far are distinct and
/// strictly increasing, each is below the budget, and no more were handed out than
/// the budget holds.
pub proof fn lemma_issued_unique_increasing_bounded(a: &Allocator)
    ensures
        a.issued().len() <= a.budget() <= u64::MAX,
        forall|i: int| 0 <= i < a.issued().len() ==> a.issued()[i] < a.budget(),
        forall|i: int, j: int|
            0 <= i < j < a.issued().len() ==> #[trigger] a.issued()[i] < #[trigger] a.issued()[j],
{
}

/// Once the allocator reports that it is exhausted, every integer below the budget
/// was handed out, and exactly once.
pub proof fn lemma_exhausted_covers_budget(a: &Allocator)
    requires
        a.issued().len() == a.budget(),
    ensures
        forall|s: u64| s < a.budget() ==> #[trigger] a.issued().contains(s),
        forall|i: int, j: int|
            0 <= i < a.issued().len() && 0 <= j < a.issued().len() && #[trigger] a.issued()[i]
                == #[trigger] a.issued()[j] ==> i == j,
{
    assert forall|s: u64| s < a.budget() implies #[trigger] a.issued().contains(s) by {
        assert(a.issued()[s as int] == s);
    }
}

} // verus!
