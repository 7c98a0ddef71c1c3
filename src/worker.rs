use vstd::prelude::*;

use crate::allocator::Slot;
use crate::schedule::{delay_before_send, wait_ns};
use crate::validate::{is_anomaly, is_expected_response};

verus! {

/// A failure that ends a worker.
#[derive(Debug, Clone, Copy, PartialEq, Eq, Structural)]
pub enum Fault {
    /// No connection to the target could be opened.
    Dial,
    /// The open connection failed other than by the peer closing it.
    Transport,
}

/// Where a worker stands. It is connecting while it has no connection, and draining
/// while it draws and sends slots over one. It holds no slot while it dials.
#[derive(Debug, Clone, Copy, PartialEq, Eq, Structural)]
pub enum Stage {
    /// No connection yet, or the last one was closed: opening one.
    Connecting,
    /// Connected, waiting for the connection to accept a request.
    AwaitingReady,
    /// The connection accepted a request at `now_ns`; asking the allocator for a slot.
    Drawing { now_ns: u128 },
    /// The request for the slot has gone out; waiting for its response.
    Sending { slot: Slot },
    /// The budget is spent.
    Finished,
    /// The worker stopped on a fault.
    Failed(Fault),
}

/// What the driver of a worker reports back after carrying out an action.
#[derive(Debug)]
pub enum Event {
    /// The allocator's answer: a slot, or `None` once the budget is spent.
    Allocated(Option<Slot>),
    /// A connection is open.
    Dialed,
    /// Opening a connection failed.
    DialFailed,
    /// The connection accepts a request; `now_ns` is the current time.
    Ready { now_ns: u128 },
    /// The full body of the response to the request sent.
    Response(Vec<u8>),
    /// The peer closed the connection.
    Closed,
    /// The connection failed in another way.
    TransportFailed,
}

/// What the driver is to do next.
#[derive(Debug, Clone, Copy, PartialEq, Eq, Structural)]
pub enum Action {
    /// Ask the allocator for the next slot.
    Allocate,
    /// Open a new connection to the target.
    Dial,
    /// Wait until the connection accepts a request.
    AwaitReady,
    /// Wait `delay_ns`, then send the request for `slot` and read the response.
    Send { slot: Slot, delay_ns: u128 },
    /// The worker is done; its anomalies can be collected.
    Finish,
    /// The worker stopped on a fault.
    Stop(Fault),
    /// The event does not answer what the worker is waiting for; nothing changed.
    Unexpected,
}

/// The stage a worker moves to on an event, and the action it asks for.
pub open spec fn transition(stage: Stage, ev: Event) -> (Stage, Action) {
    match stage {
        Stage::Connecting => match ev {
            Event::Dialed => (Stage::AwaitingReady, Action::AwaitReady),
            Event::DialFailed => (Stage::Failed(Fault::Dial), Action::Stop(Fault::Dial)),
            Event::Allocated(None) => (Stage::Finished, Action::Finish),
            _ => (stage, Action::Unexpected),
        },
        Stage::AwaitingReady => match ev {
            Event::Ready { now_ns } => (Stage::Drawing { now_ns }, Action::Allocate),
            Event::Closed => (Stage::Connecting, Action::Dial),
            Event::TransportFailed => (
                Stage::Failed(Fault::Transport),
                Action::Stop(Fault::Transport),
            ),
            _ => (stage, Action::Unexpected),
        },
        Stage::Drawing { now_ns } => match ev {
            Event::Allocated(Some(slot)) => (
                Stage::Sending { slot },
                Action::Send { slot, delay_ns: wait_ns(now_ns, slot.deadline_ns) },
            ),
            Event::Allocated(None) => (Stage::Finished, Action::Finish),
            _ => (stage, Action::Unexpected),
        },
        Stage::Sending { slot } => match ev {
            Event::Response(_) => (Stage::AwaitingReady, Action::AwaitReady),
            Event::Closed => (Stage::Connecting, Action::Dial),
            Event::TransportFailed => (
                Stage::Failed(Fault::Transport),
                Action::Stop(Fault::Transport),
            ),
            _ => (stage, Action::Unexpected),
        },
        Stage::Finished => (stage, Action::Finish),
        Stage::Failed(f) => (stage, Action::Stop(f)),
    }
}

/// One connection's share of a run: it draws slots, sends one request per slot at
/// the slot's deadline, keeps the bodies that differ from the expected one, and
/// reconnects when the peer closes the connection.
pub struct Worker {
    stage: Stage,
    anomalies: Vec<Vec<u8>>,
    allocated: Ghost<Seq<u64>>,
    sent: Ghost<Seq<u64>>,
}

impl Worker {
    pub closed spec fn stage_of(&self) -> Stage {
        self.stage
    }

    /// The slots this worker drew from the allocator, in order.
    pub closed spec fn allocated(&self) -> Seq<u64> {
        self.allocated@
    }

    /// The slots this worker sent a request for, in order.
    pub closed spec fn sent(&self) -> Seq<u64> {
        self.sent@
    }

    /// The bodies of the responses that differed from the expected one, in order.
    pub closed spec fn anomaly_bodies(&self) -> Seq<Seq<u8>> {
        self.anomalies@.map_values(|b: Vec<u8>| b@)
    }

    pub closed spec fn wf(&self) -> bool {
        &&& self.sent@ == self.allocated@
        &&& match self.stage {
            Stage::Sending { slot } => self.sent@.len() > 0 && self.sent@.last() == slot.index
                && self.anomalies@.len() < self.sent@.len(),
            _ => true,
        }
        &&& self.anomalies@.len() <= self.sent@.len()
        &&& forall|i: int| 0 <= i < self.anomalies@.len() ==> is_anomaly(#[trigger] self.anomalies@[i]@)
    }

    /// A worker with no connection and no slot; its first action is `Dial`.
    pub fn new() -> (r: (Worker, Action))
        ensures
            r.0.wf(),
            r.0.stage_of() == Stage::Connecting,
            r.0.allocated() == Seq::<u64>::empty(),
            r.0.sent() == Seq::<u64>::empty(),
            r.0.anomaly_bodies() == Seq::<Seq<u8>>::empty(),
            r.1 == Action::Dial,
    {
        let w = Worker {
            stage: Stage::Connecting,
            anomalies: Vec::new(),
            allocated: Ghost(Seq::empty()),
            sent: Ghost(Seq::empty()),
        };
        assert(w.anomaly_bodies() =~= Seq::<Seq<u8>>::empty());
        (w, Action::Dial)
    }

    /// Moves the worker on by one event and says what to do next. A slot is drawn
    /// only over a connection that accepts a request, and its request goes out in the
    /// same step, so no dial, and no close of a connection, strands a slot. A body
    /// that differs from the expected one is kept; it never stops the worker.
    pub fn step(&mut self, ev: Event) -> (r: Action)
        requires
            old(self).wf(),
        ensures
            final(self).wf(),
            (final(self).stage_of(), r) == transition(old(self).stage_of(), ev),
            final(self).allocated() == match (old(self).stage_of(), ev) {
                (Stage::Drawing { .. }, Event::Allocated(Some(slot))) => old(self).allocated().push(
                    slot.index,
                ),
                _ => old(self).allocated(),
            },
            final(self).sent() == final(self).allocated(),
            final(self).anomaly_bodies() == match (old(self).stage_of(), ev) {
                (Stage::Sending { .. }, Event::Response(body)) => if is_anomaly(body@) {
                    old(self).anomaly_bodies().push(body@)
                } else {
                    old(self).anomaly_bodies()
                },
                _ => old(self).anomaly_bodies(),
            },
    {
        match self.stage {
            Stage::Connecting => match ev {
                Event::Dialed => {
                    self.stage = Stage::AwaitingReady;
                    Action::AwaitReady
                },
                Event::DialFailed => {
                    self.stage = Stage::Failed(Fault::Dial);
                    Action::Stop(Fault::Dial)
                },
                Event::Allocated(None) => {
                    self.stage = Stage::Finished;
                    Action::Finish
                },
                _ => Action::Unexpected,
            },
            Stage::AwaitingReady => match ev {
                Event::Ready { now_ns } => {
                    self.stage = Stage::Drawing { now_ns };
                    Action::Allocate
                },
                Event::Closed => {
                    self.stage = Stage::Connecting;
                    Action::Dial
                },
                Event::TransportFailed => {
                    self.stage = Stage::Failed(Fault::Transport);
                    Action::Stop(Fault::Transport)
                },
                _ => Action::Unexpected,
            },
            Stage::Drawing { now_ns } => match ev {
                Event::Allocated(Some(slot)) => {
                    self.allocated = Ghost(self.allocated@.push(slot.index));
                    self.sent = Ghost(self.sent@.push(slot.index));
                    self.stage = Stage::Sending { slot };
                    Action::Send { slot, delay_ns: delay_before_send(now_ns, slot.deadline_ns) }
                },
                Event::Allocated(None) => {
                    self.stage = Stage::Finished;
                    Action::Finish
                },
                _ => Action::Unexpected,
            },
            Stage::Sending { slot } => match ev {
                Event::Response(body) => {
                    if !is_expected_response(body.as_slice()) {
                        self.anomalies.push(body);
                        assert(is_anomaly(self.anomalies@[self.anomalies@.len() - 1]@));
                        assert(self.anomaly_bodies() =~= old(self).anomaly_bodies().push(
                            self.anomalies@.last()@,
                        ));
                    }
                    self.stage = Stage::AwaitingReady;
                    Action::AwaitReady
                },
                Event::Closed => {
                    self.stage = Stage::Connecting;
                    Action::Dial
                },
                Event::TransportFailed => {
                    self.stage = Stage::Failed(Fault::Transport);
                    Action::Stop(Fault::Transport)
                },
                _ => Action::Unexpected,
            },
            Stage::Finished => Action::Finish,
            Stage::Failed(f) => Action::Stop(f),
        }
    }

    /// Where the worker stands.
    pub fn stage(&self) -> (r: Stage)
        ensures
            r == self.stage_of(),
    {
        self.stage
    }

    /// The bodies kept so far that differed from the expected one.
    pub fn anomalies(&self) -> (r: &Vec<Vec<u8>>)
        ensures
            r@.map_values(|b: Vec<u8>| b@) == self.anomaly_bodies(),
    {
        &self.anomalies
    }

    /// Whether the worker has finished or stopped on a fault.
    pub fn is_done(&self) -> (r: bool)
        ensures
            r == (self.stage_of() is Finished || self.stage_of() is Failed),
    {
        match self.stage {
            Stage::Finished | Stage::Failed(_) => true,
            _ => false,
        }
    }
}

/// A worker sends a request for every slot it draws, in the step that draws it: it
/// holds no slot while it dials, waits or reconnects, so no slot is skipped or sent
/// twice, and a late worker never fires a burst of held slots.
pub proof fn lemma_sent_every_slot_drawn(w: &Worker)
    requires
        w.wf(),
    ensures
        w.sent() == w.allocated(),
        w.stage_of() matches Stage::Sending { slot } ==> w.sent().len() > 0 && w.sent().last()
            == slot.index,
{
}

/// A close noticed while waiting for readiness, or one after the request went out,
/// sends the worker back to dialing with no slot in hand; once connected it waits
/// for readiness before it draws again. A failed dial ends the worker without a draw.
pub proof fn lemma_reconnect_holds_no_slot(slot: Slot)
    ensures
        transition(Stage::AwaitingReady, Event::Closed) == (Stage::Connecting, Action::Dial),
        transition(Stage::Sending { slot }, Event::Closed) == (Stage::Connecting, Action::Dial),
        transition(Stage::Connecting, Event::Dialed) == (Stage::AwaitingReady, Action::AwaitReady),
        transition(Stage::Connecting, Event::DialFailed) == (
            Stage::Failed(Fault::Dial),
            Action::Stop(Fault::Dial),
        ),
{
}

/// A slot due in the future is sent exactly at its deadline; one whose deadline has
/// passed is sent at once, with no wait.
pub proof fn lemma_send_paced_to_deadline(slot: Slot, now_ns: u128)
    ensures
        transition(Stage::Drawing { now_ns }, Event::Allocated(Some(slot))).1 matches Action::Send {
            slot: s,
            delay_ns,
        } && s == slot && (now_ns < slot.deadline_ns ==> now_ns + delay_ns == slot.deadline_ns)
            && (now_ns >= slot.deadline_ns ==> delay_ns == 0),
{
}

} // verus!
