use vstd::prelude::*;

use crate::allocator::{lemma_issued_unique_increasing_bounded, Allocator, Slot};
use crate::schedule::Schedule;
use crate::validate::is_anomaly;
use crate::worker::{lemma_sent_every_slot_drawn, transition, Action, Event, Stage, Worker};

verus! {

/// A run: one allocator shared by a fixed set of workers. Each worker is advanced
/// by the events of its own connection; whenever one asks for a slot, the run draws
/// it from the allocator, so slots reach workers only from there.
pub struct Run {
    allocator: Allocator,
    workers: Vec<Worker>,
    owner: Ghost<Seq<int>>,
}

impl Run {
    pub closed spec fn allocator_of(&self) -> Allocator {
        self.allocator
    }

    pub closed spec fn workers_of(&self) -> Seq<Worker> {
        self.workers@
    }

    /// Whether some worker drew slot `s`.
    pub open spec fn drawn_by_some(&self, s: u64) -> bool {
        exists|v: int|
            0 <= v < self.workers_of().len() && #[trigger] self.workers_of()[v].allocated().contains(s)
    }

    /// Whether some worker sent a request for slot `s`.
    pub open spec fn sent_by_some(&self, s: u64) -> bool {
        exists|v: int| 0 <= v < self.workers_of().len() && #[trigger] self.workers_of()[v].sent().contains(s)
    }

    /// What the allocator hands out on the next draw.
    pub open spec fn grant(&self) -> Option<Slot> {
        let a = self.allocator_of();
        if a.issued().len() < a.budget() {
            Some(
                Slot {
                    index: a.issued().len() as u64,
                    deadline_ns: a.timetable().deadline_of(a.issued().len() as int) as u128,
                },
            )
        } else {
            None
        }
    }

    /// Whether the allocator has handed out its whole budget.
    pub open spec fn spent(&self) -> bool {
        self.allocator_of().issued().len() == self.allocator_of().budget()
    }

    /// Where a worker that has just moved to `stage` asking for `a` ends up once the
    /// run has stepped in: a request for a slot is answered by the allocator, and a
    /// worker about to dial finishes instead if the budget is spent.
    pub open spec fn settle(&self, stage: Stage, a: Action) -> (Stage, Action) {
        match a {
            Action::Allocate => transition(stage, Event::Allocated(self.grant())),
            Action::Dial => if self.spent() {
                transition(stage, Event::Allocated(None))
            } else {
                (stage, a)
            },
            _ => (stage, a),
        }
    }

    /// The slots handed out once the run has answered action `a`.
    pub open spec fn issued_after(&self, a: Action) -> Seq<u64> {
        match (a, self.grant()) {
            (Action::Allocate, Some(slot)) => self.allocator_of().issued().push(slot.index),
            _ => self.allocator_of().issued(),
        }
    }

    /// The slots a worker holding `drawn` has drawn once the run has answered action `a`.
    pub open spec fn drawn_after(&self, drawn: Seq<u64>, a: Action) -> Seq<u64> {
        match (a, self.grant()) {
            (Action::Allocate, Some(slot)) => drawn.push(slot.index),
            _ => drawn,
        }
    }

    pub closed spec fn wf(&self) -> bool {
        let issued = self.allocator.issued();
        &&& self.owner@.len() == issued.len()
        &&& forall|w: int| 0 <= w < self.workers@.len() ==> #[trigger] self.workers@[w].wf()
        &&& forall|w: int, i: int|
            0 <= w < self.workers@.len() && 0 <= i < self.workers@[w].allocated().len() ==> {
                let s = #[trigger] self.workers@[w].allocated()[i];
                &&& s < issued.len()
                &&& self.owner@[s as int] == w
            }
        &&& forall|w: int, i: int, j: int|
            0 <= w < self.workers@.len() && 0 <= i < j < self.workers@[w].allocated().len()
                ==> #[trigger] self.workers@[w].allocated()[i]
                < #[trigger] self.workers@[w].allocated()[j]
        &&& forall|s: int|
            0 <= s < issued.len() ==> {
                let w = #[trigger] self.owner@[s];
                &&& 0 <= w < self.workers@.len()
                &&& self.workers@[w].allocated().contains(s as u64)
            }
        &&& forall|w: int|
            0 <= w < self.workers@.len() && #[trigger] self.workers@[w].stage_of() is Finished
                ==> issued.len() == self.allocator.budget()
    }

    /// A run over `schedule` with `connections` workers, none of which has a slot or
    /// a connection yet. Each worker starts with `begin(w)`.
    pub fn new(schedule: Schedule, connections: usize) -> (r: Run)
        ensures
            r.wf(),
            r.workers_of().len() == connections,
            r.allocator_of().budget() == schedule.total,
            r.allocator_of().timetable() == schedule,
            r.allocator_of().issued() == Seq::<u64>::empty(),
            forall|w: int|
                0 <= w < connections ==> (#[trigger] r.workers_of()[w]).stage_of()
                    == Stage::Connecting && r.workers_of()[w].allocated()
                    == Seq::<u64>::empty() && r.workers_of()[w].sent() == Seq::<u64>::empty(),
    {
        let allocator = Allocator::new(schedule);
        let mut workers: Vec<Worker> = Vec::new();
        let mut k: usize = 0;
        while k < connections
            invariant
                0 <= k <= connections,
                workers@.len() == k,
                forall|w: int|
                    0 <= w < k ==> (#[trigger] workers@[w]).wf() && workers@[w].stage_of()
                        == Stage::Connecting && workers@[w].allocated()
                        == Seq::<u64>::empty() && workers@[w].sent() == Seq::<u64>::empty(),
            decreases connections - k,
        {
            let (w, _) = Worker::new();
            workers.push(w);
            k = k + 1;
        }
        Run { allocator, workers, owner: Ghost(Seq::empty()) }
    }

    /// Draws the next slot for worker `w`, which is asking for one, and hands it over.
    fn draw(&mut self, w: usize) -> (r: Action)
        requires
            old(self).wf(),
            w < old(self).workers_of().len(),
            old(self).workers_of()[w as int].stage_of() is Drawing,
        ensures
            final(self).wf(),
            final(self).workers_of().len() == old(self).workers_of().len(),
            forall|v: int|
                0 <= v < old(self).workers_of().len() && v != w ==> #[trigger] final(self).workers_of()[v] == old(self).workers_of()[v],
            final(self).allocator_of().budget() == old(self).allocator_of().budget(),
            final(self).allocator_of().timetable() == old(self).allocator_of().timetable(),
            (final(self).workers_of()[w as int].stage_of(), r) == transition(
                old(self).workers_of()[w as int].stage_of(),
                Event::Allocated(old(self).grant()),
            ),
            final(self).allocator_of().issued() == old(self).issued_after(Action::Allocate),
            final(self).workers_of()[w as int].allocated() == old(self).drawn_after(
                old(self).workers_of()[w as int].allocated(),
                Action::Allocate,
            ),
            final(self).workers_of()[w as int].anomaly_bodies() == old(self).workers_of()[w as int].anomaly_bodies(),
    {
        let ghost old_workers = self.workers@;
        let ghost old_issued = self.allocator.issued();
        proof {
            lemma_issued_unique_increasing_bounded(&self.allocator);
        }
        let grant = self.allocator.next();
        let r = self.workers[w].step(Event::Allocated(grant));
        proof {
            assert(forall|v: int| 0 <= v < self.workers@.len() && v != w ==> self.workers@[v] == old_workers[v]);
            if let Some(slot) = grant {
                assert(slot.index == old_issued.len());
                assert(self.workers@[w as int].allocated() == old_workers[w as int].allocated().push(slot.index));
                self.owner = Ghost(self.owner@.push(w as int));
            } else {
                assert(self.workers@[w as int].allocated() == old_workers[w as int].allocated());
            }
        }
        let ghost issued = self.allocator.issued();
        assert forall|v: int, i: int|
            0 <= v < self.workers@.len() && 0 <= i < self.workers@[v].allocated().len() implies {
            let s = #[trigger] self.workers@[v].allocated()[i];
            &&& s < issued.len()
            &&& self.owner@[s as int] == v
        } by {
            if v != w || i < old_workers[v].allocated().len() {
                assert(self.workers@[v].allocated()[i] == old_workers[v].allocated()[i]);
                assert(self.workers@[v].allocated()[i] < old_issued.len());
            }
        }
        assert forall|v: int, i: int, j: int|
            0 <= v < self.workers@.len() && 0 <= i < j < self.workers@[v].allocated().len()
                implies #[trigger] self.workers@[v].allocated()[i]
            < #[trigger] self.workers@[v].allocated()[j] by {
            if v == w && j == old_workers[v].allocated().len() {
                assert(self.workers@[v].allocated()[i] == old_workers[v].allocated()[i]);
            } else {
                assert(self.workers@[v].allocated()[i] == old_workers[v].allocated()[i]);
                assert(self.workers@[v].allocated()[j] == old_workers[v].allocated()[j]);
            }
        }
        assert forall|s: int| 0 <= s < issued.len() implies {
            let v = #[trigger] self.owner@[s];
            &&& 0 <= v < self.workers@.len()
            &&& self.workers@[v].allocated().contains(s as u64)
        } by {
            if s < old_issued.len() {
                let v = self.owner@[s];
                let i = choose|i: int|
                    0 <= i < old_workers[v].allocated().len() && old_workers[v].allocated()[i]
                        == s as u64;
                assert(self.workers@[v].allocated()[i] == s as u64);
            } else {
                let n = old_workers[w as int].allocated().len() as int;
                assert(self.workers@[w as int].allocated()[n] == s as u64);
            }
        }
        r
    }

    /// Answers worker `w`'s action `a` where the run has a part in it: draws the slot
    /// it asks for, or finishes it instead of dialing once the budget is spent.
    fn settle_action(&mut self, w: usize, a: Action) -> (r: Action)
        requires
            old(self).wf(),
            w < old(self).workers_of().len(),
            a == Action::Allocate ==> old(self).workers_of()[w as int].stage_of() is Drawing,
            a == Action::Dial ==> old(self).workers_of()[w as int].stage_of() is Connecting,
        ensures
            final(self).wf(),
            final(self).workers_of().len() == old(self).workers_of().len(),
            forall|v: int|
                0 <= v < old(self).workers_of().len() && v != w ==> #[trigger] final(self).workers_of()[v] == old(self).workers_of()[v],
            final(self).allocator_of().budget() == old(self).allocator_of().budget(),
            final(self).allocator_of().timetable() == old(self).allocator_of().timetable(),
            (final(self).workers_of()[w as int].stage_of(), r) == old(self).settle(
                old(self).workers_of()[w as int].stage_of(),
                a,
            ),
            final(self).allocator_of().issued() == old(self).issued_after(a),
            final(self).workers_of()[w as int].allocated() == old(self).drawn_after(
                old(self).workers_of()[w as int].allocated(),
                a,
            ),
            final(self).workers_of()[w as int].anomaly_bodies() == old(self).workers_of()[w as int].anomaly_bodies(),
    {
        match a {
            Action::Allocate => self.draw(w),
            Action::Dial => {
                if self.allocator.is_exhausted() {
                    let ghost old_workers = self.workers@;
                    let r = self.workers[w].step(Event::Allocated(None));
                    assert(forall|v: int| 0 <= v < self.workers@.len() && v != w ==> self.workers@[v] == old_workers[v]);
                    assert(self.workers@[w as int].allocated() == old_workers[w as int].allocated());
                    r
                } else {
                    Action::Dial
                }
            },
            _ => a,
        }
    }

    /// Starts worker `w`, which has neither a slot nor a connection yet: it is to
    /// dial, or finishes at once if the budget is already spent. Any other worker is
    /// left as it is and `Unexpected` returned.
    pub fn begin(&mut self, w: usize) -> (r: Action)
        requires
            old(self).wf(),
            w < old(self).workers_of().len(),
        ensures
            final(self).wf(),
            final(self).workers_of().len() == old(self).workers_of().len(),
            forall|v: int|
                0 <= v < old(self).workers_of().len() && v != w ==> #[trigger] final(self).workers_of()[v] == old(self).workers_of()[v],
            final(self).allocator_of().budget() == old(self).allocator_of().budget(),
            final(self).allocator_of().timetable() == old(self).allocator_of().timetable(),
            final(self).allocator_of().issued() == old(self).allocator_of().issued(),
            final(self).workers_of()[w as int].allocated() == old(self).workers_of()[w as int].allocated(),
            old(self).workers_of()[w as int].stage_of() is Connecting ==> (final(self).workers_of()[w as int].stage_of(), r)
                == old(self).settle(Stage::Connecting, Action::Dial),
            !(old(self).workers_of()[w as int].stage_of() is Connecting) ==> r == Action::Unexpected
                && *final(self) == *old(self),
    {
        match self.workers[w].stage() {
            Stage::Connecting => self.settle_action(w, Action::Dial),
            _ => Action::Unexpected,
        }
    }

    /// Hands worker `w` an event of its connection and says what the worker is to do
    /// next. Where the worker then asks for a slot, the slot is drawn here, and where
    /// it is to dial with the budget spent, it finishes here: the action returned is
    /// never `Allocate`. Slots come only from the allocator: an `Allocated` event
    /// changes nothing and gives `Unexpected`.
    pub fn advance(&mut self, w: usize, ev: Event) -> (r: Action)
        requires
            old(self).wf(),
            w < old(self).workers_of().len(),
        ensures
            final(self).wf(),
            final(self).workers_of().len() == old(self).workers_of().len(),
            forall|v: int|
                0 <= v < old(self).workers_of().len() && v != w ==> #[trigger] final(self).workers_of()[v] == old(self).workers_of()[v],
            final(self).allocator_of().budget() == old(self).allocator_of().budget(),
            final(self).allocator_of().timetable() == old(self).allocator_of().timetable(),
            ev is Allocated ==> r == Action::Unexpected && *final(self) == *old(self),
            !(ev is Allocated) ==> {
                let (st, a) = transition(old(self).workers_of()[w as int].stage_of(), ev);
                &&& (final(self).workers_of()[w as int].stage_of(), r) == old(self).settle(st, a)
                &&& final(self).allocator_of().issued() == old(self).issued_after(a)
                &&& final(self).workers_of()[w as int].allocated() == old(self).drawn_after(
                    old(self).workers_of()[w as int].allocated(),
                    a,
                )
            },
            final(self).workers_of()[w as int].anomaly_bodies() == match (
                old(self).workers_of()[w as int].stage_of(),
                ev,
            ) {
                (Stage::Sending { .. }, Event::Response(body)) => if is_anomaly(body@) {
                    old(self).workers_of()[w as int].anomaly_bodies().push(body@)
                } else {
                    old(self).workers_of()[w as int].anomaly_bodies()
                },
                _ => old(self).workers_of()[w as int].anomaly_bodies(),
            },
    {
        if let Event::Allocated(_) = &ev {
            return Action::Unexpected;
        }
        let ghost old_workers = self.workers@;
        let a = self.workers[w].step(ev);
        assert(self.workers@[w as int].allocated() == old_workers[w as int].allocated());
        assert(forall|v: int| 0 <= v < self.workers@.len() && v != w ==> self.workers@[v] == old_workers[v]);
        self.settle_action(w, a)
    }

    /// The number of workers.
    pub fn connections(&self) -> (r: usize)
        ensures
            r == self.workers_of().len(),
    {
        self.workers.len()
    }

    /// Worker `w`.
    pub fn worker(&self, w: usize) -> (r: &Worker)
        requires
            w < self.workers_of().len(),
        ensures
            *r == self.workers_of()[w as int],
    {
        &self.workers[w]
    }

    /// Whether every worker has finished or stopped.
    pub fn is_complete(&self) -> (r: bool)
        ensures
            r == forall|w: int|
                0 <= w < self.workers_of().len() ==> (#[trigger] self.workers_of()[w]).stage_of() is Finished
                    || self.workers_of()[w].stage_of() is Failed,
    {
        let mut k: usize = 0;
        while k < self.workers.len()
            invariant
                0 <= k <= self.workers@.len(),
                forall|w: int|
                    0 <= w < k ==> (#[trigger] self.workers@[w]).stage_of() is Finished
                        || self.workers@[w].stage_of() is Failed,
            decreases self.workers@.len() - k,
        {
            if !self.workers[k].is_done() {
                return false;
            }
            k = k + 1;
        }
        true
    }
}

/// At every moment of a run, however the workers' events interleave: every slot a
/// worker drew or sent was handed out by the allocator, so lies below the budget;
/// each worker has sent exactly the slots it drew, in increasing order; and once any
/// worker has finished, the whole budget has been handed out.
pub proof fn lemma_run_invariant(run: &Run)
    requires
        run.wf(),
    ensures
        run.allocator_of().issued().len() <= run.allocator_of().budget() <= u64::MAX,
        forall|v: int, i: int|
            0 <= v < run.workers_of().len() && 0 <= i < run.workers_of()[v].allocated().len()
                ==> #[trigger] run.workers_of()[v].allocated()[i] < run.allocator_of().issued().len(),
        forall|v: int| 0 <= v < run.workers_of().len() ==> #[trigger] run.workers_of()[v].sent() == run.workers_of()[v].allocated(),
        forall|v: int, i: int, j: int|
            0 <= v < run.workers_of().len() && 0 <= i < j < run.workers_of()[v].allocated().len()
                ==> #[trigger] run.workers_of()[v].allocated()[i] < #[trigger] run.workers_of()[v].allocated()[j],
        forall|v: int|
            0 <= v < run.workers_of().len() && (#[trigger] run.workers_of()[v]).stage_of() is Finished
                ==> run.spent(),
        forall|v: int|
            0 <= v < run.workers_of().len() ==> (#[trigger] run.workers_of()[v]).sent().len()
                <= run.allocator_of().budget(),
{
    lemma_issued_unique_increasing_bounded(&run.allocator);
    assert forall|v: int| 0 <= v < run.workers_of().len() implies (#[trigger] run.workers_of()[v]).sent().len()
        <= run.allocator_of().budget() by {
        let s = run.workers@[v].allocated();
        assert(run.workers@[v].wf());
        lemma_sent_every_slot_drawn(&run.workers@[v]);
        if s.len() > 0 {
            lemma_increasing_at_least_index(s, s.len() - 1);
            assert(s[s.len() - 1] < run.allocator.issued().len());
        }
    }
    assert forall|v: int| 0 <= v < run.workers_of().len() implies #[trigger] run.workers_of()[v].sent() == run.workers_of()[v].allocated() by {
        assert(run.workers@[v].wf());
        lemma_sent_every_slot_drawn(&run.workers@[v]);
    }
}

/// In a strictly increasing sequence of integers from zero up, the entry at `i` is at
/// least `i`.
proof fn lemma_increasing_at_least_index(s: Seq<u64>, i: int)
    requires
        0 <= i < s.len(),
        forall|a: int, b: int| 0 <= a < b < s.len() ==> #[trigger] s[a] < #[trigger] s[b],
    ensures
        s[i] >= i,
    decreases i,
{
    if i > 0 {
        lemma_increasing_at_least_index(s, i - 1);
        assert(s[i - 1] < s[i]);
    }
}

/// However the workers' events interleave, no slot reaches two workers, nor one
/// worker twice, and every slot the allocator handed out went to some worker.
pub proof fn lemma_each_slot_drawn_once(run: &Run)
    requires
        run.wf(),
    ensures
        forall|v1: int, v2: int, i: int, j: int|
            0 <= v1 < run.workers_of().len() && 0 <= v2 < run.workers_of().len() && 0 <= i
                < run.workers_of()[v1].allocated().len() && 0 <= j < run.workers_of()[v2].allocated().len()
                && #[trigger] run.workers_of()[v1].allocated()[i]
                == #[trigger] run.workers_of()[v2].allocated()[j] ==> v1 == v2 && i == j,
        forall|s: u64| s < run.allocator_of().issued().len() ==> #[trigger] run.drawn_by_some(s),
{
    let ws = run.workers_of();
    assert forall|v1: int, v2: int, i: int, j: int|
        0 <= v1 < ws.len() && 0 <= v2 < ws.len() && 0 <= i < ws[v1].allocated().len() && 0 <= j
            < ws[v2].allocated().len() && #[trigger] ws[v1].allocated()[i]
            == #[trigger] ws[v2].allocated()[j] implies v1 == v2 && i == j by {
        let s = ws[v1].allocated()[i];
        assert(run.owner@[s as int] == v1);
        assert(run.owner@[s as int] == v2);
        if i < j {
            assert(ws[v1].allocated()[i] < ws[v1].allocated()[j]);
        } else if j < i {
            assert(ws[v1].allocated()[j] < ws[v1].allocated()[i]);
        }
    }
    assert forall|s: u64| s < run.allocator_of().issued().len() implies #[trigger] run.drawn_by_some(s) by {
        let v = run.owner@[s as int];
        assert(ws[v].allocated().contains(s));
    }
}

/// Once every worker has finished, each slot of the budget was sent by exactly one
/// worker, exactly once: none was lost or duplicated, whatever reconnects happened.
pub proof fn lemma_finished_run_sends_budget_once(run: &Run)
    requires
        run.wf(),
        run.workers_of().len() > 0,
        forall|v: int| 0 <= v < run.workers_of().len() ==> (#[trigger] run.workers_of()[v]).stage_of() is Finished,
    ensures
        forall|s: u64| s < run.allocator_of().budget() ==> #[trigger] run.sent_by_some(s),
        forall|v1: int, v2: int, i: int, j: int|
            0 <= v1 < run.workers_of().len() && 0 <= v2 < run.workers_of().len() && 0 <= i
                < run.workers_of()[v1].sent().len() && 0 <= j < run.workers_of()[v2].sent().len()
                && #[trigger] run.workers_of()[v1].sent()[i]
                == #[trigger] run.workers_of()[v2].sent()[j] ==> v1 == v2 && i == j,
        forall|v: int, i: int|
            0 <= v < run.workers_of().len() && 0 <= i < run.workers_of()[v].sent().len()
                ==> #[trigger] run.workers_of()[v].sent()[i] < run.allocator_of().budget(),
{
    let ws = run.workers_of();
    lemma_each_slot_drawn_once(run);
    lemma_run_invariant(run);
    assert(ws[0].stage_of() is Finished);
    assert forall|v: int| 0 <= v < ws.len() implies #[trigger] ws[v].sent() == ws[v].allocated() by {
        assert(ws[v].wf());
        lemma_sent_every_slot_drawn(&ws[v]);
    }
    assert forall|v1: int, v2: int, i: int, j: int|
        0 <= v1 < ws.len() && 0 <= v2 < ws.len() && 0 <= i < ws[v1].sent().len() && 0 <= j
            < ws[v2].sent().len() && #[trigger] ws[v1].sent()[i] == #[trigger] ws[v2].sent()[j]
        implies v1 == v2 && i == j by {
        assert(ws[v1].sent() == ws[v1].allocated());
        assert(ws[v2].sent() == ws[v2].allocated());
        assert(ws[v1].allocated()[i] == ws[v2].allocated()[j]);
    }
    assert forall|s: u64| s < run.allocator_of().budget() implies #[trigger] run.sent_by_some(s) by {
        assert(s < run.allocator_of().issued().len());
        assert(run.drawn_by_some(s));
        let v = choose|v: int| 0 <= v < ws.len() && #[trigger] ws[v].allocated().contains(s);
        assert(ws[v].sent() == ws[v].allocated());
    }
}

} // verus!
