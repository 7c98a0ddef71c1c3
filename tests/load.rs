use load_generator::allocator::{Allocator, Slot};
use load_generator::run::Run;
use load_generator::schedule::{delay_before_send, PlanError, Schedule};
use load_generator::validate::{expected_response, is_expected_response};
use load_generator::worker::{Action, Event, Fault, Stage, Worker};

const HELLO: &[u8] = br#"{"message":"Hello, World!"}"#;
const GOODBYE: &[u8] = br#"{"message":"Goodbye"}"#;

/// How the simulated server behaves.
#[derive(Clone, Copy)]
enum Server {
    Hello,
    Goodbye,
    ClosesAfterEach,
}

struct Outcome {
    sent_slots: Vec<u64>,
    dials: usize,
}

/// Drives every worker of `run` round-robin against a simulated server until all are done.
fn drive(run: &mut Run, server: Server) -> Outcome {
    let n = run.connections();
    let mut pending: Vec<Action> = (0..n).map(|w| run.begin(w)).collect();
    let mut open: Vec<bool> = vec![false; n];
    let mut sent_slots = Vec::new();
    let mut dials = 0;
    let mut now: u128 = 0;
    while !run.is_complete() {
        for w in 0..n {
            let ev = match pending[w] {
                Action::Dial => {
                    dials += 1;
                    open[w] = true;
                    Event::Dialed
                }
                Action::AwaitReady => {
                    if open[w] {
                        Event::Ready { now_ns: now }
                    } else {
                        Event::Closed
                    }
                }
                Action::Send { slot, delay_ns } => {
                    now += delay_ns;
                    assert_eq!(now.max(slot.deadline_ns), now);
                    sent_slots.push(slot.index);
                    match server {
                        Server::Hello => Event::Response(HELLO.to_vec()),
                        Server::Goodbye => Event::Response(GOODBYE.to_vec()),
                        Server::ClosesAfterEach => {
                            open[w] = false;
                            Event::Response(HELLO.to_vec())
                        }
                    }
                }
                Action::Finish | Action::Stop(_) => continue,
                Action::Allocate | Action::Unexpected => panic!("driver out of step"),
            };
            pending[w] = run.advance(w, ev);
        }
    }
    Outcome { sent_slots, dials }
}

fn total_anomalies(run: &Run) -> Vec<Vec<u8>> {
    let mut all = Vec::new();
    for w in 0..run.connections() {
        all.extend(run.worker(w).anomalies().iter().cloned());
    }
    all
}

#[test]
fn plan_ten_per_second_for_one_second() {
    let s = Schedule::plan(10, 1_000_000_000, 0).unwrap();
    assert_eq!(s.interval_ns, 100_000_000);
    assert_eq!(s.total, 10);
    assert_eq!(s.start_ns, 0);
}

#[test]
fn plan_rounds_interval_and_budget_down() {
    let s = Schedule::plan(3, 1_000_000_000, 7).unwrap();
    assert_eq!(s.interval_ns, 333_333_333);
    assert_eq!(s.total, 3);
    assert_eq!(s.start_ns, 7);
    let s = Schedule::plan(20_000, 10_000_000_000, 100_000_000).unwrap();
    assert_eq!(s.interval_ns, 50_000);
    assert_eq!(s.total, 200_000);
}

#[test]
fn plan_rejects_zero_rate() {
    assert_eq!(Schedule::plan(0, 1_000_000_000, 0), Err(PlanError::ZeroRate));
}

#[test]
fn plan_rejects_rate_above_one_per_nanosecond() {
    assert_eq!(Schedule::plan(1_000_000_001, 1_000, 0), Err(PlanError::RateTooHigh));
    let s = Schedule::plan(1_000_000_000, 1_000, 0).unwrap();
    assert_eq!(s.interval_ns, 1);
    assert_eq!(s.total, 1_000);
}

#[test]
fn plan_zero_duration_has_empty_budget() {
    let s = Schedule::plan(10, 0, 0).unwrap();
    assert_eq!(s.total, 0);
    let mut a = Allocator::new(s);
    assert!(a.is_exhausted());
    assert_eq!(a.next(), None);
}

#[test]
fn deadline_is_start_plus_slot_times_interval() {
    let s = Schedule { start_ns: 100, interval_ns: 100_000_000, total: 10 };
    assert_eq!(s.deadline(0), 100);
    assert_eq!(s.deadline(3), 300_000_100);
    let big = Schedule { start_ns: u64::MAX, interval_ns: u64::MAX, total: u64::MAX };
    assert_eq!(big.deadline(u64::MAX), u64::MAX as u128 + (u64::MAX as u128) * (u64::MAX as u128));
}

#[test]
fn delay_waits_exactly_until_future_deadline() {
    assert_eq!(delay_before_send(100, 250), 150);
    assert_eq!(delay_before_send(0, 1), 1);
}

#[test]
fn delay_is_zero_for_passed_or_present_deadline() {
    assert_eq!(delay_before_send(250, 100), 0);
    assert_eq!(delay_before_send(100, 100), 0);
}

#[test]
fn allocator_hands_out_each_slot_once_in_order() {
    let s = Schedule { start_ns: 5, interval_ns: 10, total: 3 };
    let mut a = Allocator::new(s);
    assert_eq!(a.total(), 3);
    assert_eq!(a.next(), Some(Slot { index: 0, deadline_ns: 5 }));
    assert_eq!(a.next_slot(), Some(1));
    assert_eq!(a.next(), Some(Slot { index: 2, deadline_ns: 25 }));
    assert!(a.is_exhausted());
    assert_eq!(a.next(), None);
    assert_eq!(a.next(), None);
    assert_eq!(a.next_slot(), None);
}

#[test]
fn validator_accepts_expected_body_only() {
    assert_eq!(expected_response(), HELLO.to_vec());
    assert!(is_expected_response(HELLO));
    assert!(!is_expected_response(GOODBYE));
    assert!(!is_expected_response(b""));
    assert!(!is_expected_response(&HELLO[..HELLO.len() - 1]));
    let mut longer = HELLO.to_vec();
    longer.push(b'\n');
    assert!(!is_expected_response(&longer));
    let mut flipped = HELLO.to_vec();
    flipped[12] = b'h';
    assert!(!is_expected_response(&flipped));
}

#[test]
fn validator_gives_same_answer_on_same_bytes() {
    for (body, verdict) in [(HELLO, true), (GOODBYE, false), (b"".as_slice(), false)] {
        let copy = body.to_vec();
        let first = is_expected_response(body);
        let second = is_expected_response(&copy);
        assert_eq!(first, verdict);
        assert_eq!(second, verdict);
    }
}

#[test]
fn worker_reconnects_without_skipping_a_slot() {
    let (mut w, a) = Worker::new();
    assert_eq!(a, Action::Dial);
    let s0 = Slot { index: 0, deadline_ns: 10 };
    let s1 = Slot { index: 1, deadline_ns: 20 };
    let s2 = Slot { index: 2, deadline_ns: 30 };
    assert_eq!(w.step(Event::Dialed), Action::AwaitReady);
    assert_eq!(w.step(Event::Ready { now_ns: 4 }), Action::Allocate);
    assert_eq!(w.step(Event::Allocated(Some(s0))), Action::Send { slot: s0, delay_ns: 6 });
    assert_eq!(w.step(Event::Response(HELLO.to_vec())), Action::AwaitReady);
    assert_eq!(w.step(Event::Ready { now_ns: 25 }), Action::Allocate);
    assert_eq!(w.step(Event::Allocated(Some(s1))), Action::Send { slot: s1, delay_ns: 0 });
    assert_eq!(w.step(Event::Response(HELLO.to_vec())), Action::AwaitReady);
    // the peer closes after two requests; no slot is held meanwhile
    assert_eq!(w.step(Event::Closed), Action::Dial);
    assert_eq!(w.stage(), Stage::Connecting);
    assert_eq!(w.step(Event::Dialed), Action::AwaitReady);
    assert_eq!(w.step(Event::Ready { now_ns: 26 }), Action::Allocate);
    assert_eq!(w.stage(), Stage::Drawing { now_ns: 26 });
    assert_eq!(w.step(Event::Allocated(Some(s2))), Action::Send { slot: s2, delay_ns: 4 });
    assert_eq!(w.step(Event::Response(HELLO.to_vec())), Action::AwaitReady);
    assert_eq!(w.step(Event::Ready { now_ns: 40 }), Action::Allocate);
    assert_eq!(w.step(Event::Allocated(None)), Action::Finish);
    assert_eq!(w.stage(), Stage::Finished);
    assert!(w.is_done());
    assert!(w.anomalies().is_empty());
}

#[test]
fn worker_close_after_send_redials_before_drawing() {
    let (mut w, _) = Worker::new();
    let s0 = Slot { index: 0, deadline_ns: 0 };
    w.step(Event::Dialed);
    w.step(Event::Ready { now_ns: 0 });
    w.step(Event::Allocated(Some(s0)));
    assert_eq!(w.step(Event::Closed), Action::Dial);
    assert_eq!(w.stage(), Stage::Connecting);
    assert_eq!(w.step(Event::Allocated(Some(s0))), Action::Unexpected);
    assert_eq!(w.step(Event::Dialed), Action::AwaitReady);
}

#[test]
fn worker_keeps_mismatched_bodies_and_goes_on() {
    let (mut w, _) = Worker::new();
    w.step(Event::Dialed);
    w.step(Event::Ready { now_ns: 0 });
    w.step(Event::Allocated(Some(Slot { index: 0, deadline_ns: 0 })));
    assert_eq!(w.step(Event::Response(GOODBYE.to_vec())), Action::AwaitReady);
    assert_eq!(w.anomalies(), &vec![GOODBYE.to_vec()]);
    assert_eq!(w.stage(), Stage::AwaitingReady);
}

#[test]
fn worker_stops_on_dial_failure() {
    let (mut w, _) = Worker::new();
    assert_eq!(w.step(Event::DialFailed), Action::Stop(Fault::Dial));
    assert_eq!(w.stage(), Stage::Failed(Fault::Dial));
    assert_eq!(w.step(Event::Dialed), Action::Stop(Fault::Dial));
}

#[test]
fn worker_stops_on_transport_failure() {
    let (mut w, _) = Worker::new();
    w.step(Event::Dialed);
    assert_eq!(w.step(Event::TransportFailed), Action::Stop(Fault::Transport));
    let (mut v, _) = Worker::new();
    v.step(Event::Dialed);
    v.step(Event::Ready { now_ns: 0 });
    v.step(Event::Allocated(Some(Slot { index: 0, deadline_ns: 0 })));
    assert_eq!(v.step(Event::TransportFailed), Action::Stop(Fault::Transport));
    assert!(v.is_done());
}

#[test]
fn worker_ignores_event_out_of_turn() {
    let (mut w, _) = Worker::new();
    assert_eq!(w.step(Event::Ready { now_ns: 0 }), Action::Unexpected);
    assert_eq!(w.stage(), Stage::Connecting);
    assert_eq!(w.step(Event::Allocated(None)), Action::Finish);
    assert_eq!(w.step(Event::Closed), Action::Finish);
}

#[test]
fn run_refuses_slots_not_drawn_from_its_allocator() {
    let s = Schedule::plan(10, 1_000_000_000, 0).unwrap();
    let mut run = Run::new(s, 1);
    let forged = Event::Allocated(Some(Slot { index: 7, deadline_ns: 0 }));
    assert_eq!(run.advance(0, forged), Action::Unexpected);
    assert_eq!(run.begin(0), Action::Dial);
    assert_eq!(run.worker(0).stage(), Stage::Connecting);
    assert_eq!(run.advance(0, Event::Dialed), Action::AwaitReady);
    assert_eq!(run.begin(0), Action::Unexpected);
    assert_eq!(
        run.advance(0, Event::Ready { now_ns: 0 }),
        Action::Send { slot: Slot { index: 0, deadline_ns: 0 }, delay_ns: 0 }
    );
}

#[test]
fn run_dial_failure_takes_no_slot() {
    let s = Schedule::plan(10, 1_000_000_000, 0).unwrap();
    let mut run = Run::new(s, 2);
    assert_eq!(run.begin(0), Action::Dial);
    assert_eq!(run.advance(0, Event::DialFailed), Action::Stop(Fault::Dial));
    assert_eq!(run.begin(1), Action::Dial);
    assert_eq!(run.advance(1, Event::Dialed), Action::AwaitReady);
    let mut sent = Vec::new();
    loop {
        match run.advance(1, Event::Ready { now_ns: 0 }) {
            Action::Send { slot, .. } => sent.push(slot.index),
            Action::Finish => break,
            other => panic!("unexpected action {:?}", other),
        }
        assert_eq!(run.advance(1, Event::Response(HELLO.to_vec())), Action::AwaitReady);
    }
    assert_eq!(sent, (0..10).collect::<Vec<u64>>());
    assert!(run.is_complete());
}

#[test]
fn run_with_spent_budget_finishes_without_dialing() {
    let s = Schedule::plan(10, 0, 0).unwrap();
    let mut run = Run::new(s, 2);
    assert_eq!(run.begin(0), Action::Finish);
    assert_eq!(run.begin(1), Action::Finish);
    assert!(run.is_complete());
}

#[test]
fn run_with_healthy_server_sends_budget_without_anomalies() {
    let s = Schedule::plan(10, 1_000_000_000, 0).unwrap();
    assert_eq!(s.total, 10);
    let mut run = Run::new(s, 2);
    let out = drive(&mut run, Server::Hello);
    assert_eq!(out.sent_slots.len(), 10);
    let mut sorted = out.sent_slots.clone();
    sorted.sort();
    assert_eq!(sorted, (0..10).collect::<Vec<u64>>());
    assert!(total_anomalies(&run).is_empty());
    assert_eq!(out.dials, 2);
    for w in 0..2 {
        assert_eq!(run.worker(w).stage(), Stage::Finished);
    }
}

#[test]
fn run_with_wrong_payload_records_every_response() {
    let s = Schedule::plan(10, 1_000_000_000, 0).unwrap();
    let mut run = Run::new(s, 2);
    let out = drive(&mut run, Server::Goodbye);
    assert_eq!(out.sent_slots.len(), 10);
    let anomalies = total_anomalies(&run);
    assert_eq!(anomalies.len(), 10);
    for a in anomalies {
        assert_eq!(a, GOODBYE.to_vec());
    }
}

#[test]
fn run_with_server_closing_each_connection_loses_no_slot() {
    let s = Schedule::plan(10, 1_000_000_000, 0).unwrap();
    let mut run = Run::new(s, 2);
    let out = drive(&mut run, Server::ClosesAfterEach);
    let mut sorted = out.sent_slots.clone();
    sorted.sort();
    assert_eq!(sorted, (0..10).collect::<Vec<u64>>());
    assert!(out.dials >= 10);
    assert!(total_anomalies(&run).is_empty());
    assert!(run.is_complete());
}

#[test]
fn run_with_more_workers_than_slots_finishes_idle_ones() {
    let s = Schedule::plan(10, 300_000_000, 0).unwrap();
    let mut run = Run::new(s, 5);
    let out = drive(&mut run, Server::Hello);
    assert_eq!(out.sent_slots.len(), 3);
    assert_eq!(out.dials, 5);
    assert!(run.is_complete());
}

#[test]
fn sends_are_paced_to_the_schedule() {
    let s = Schedule::plan(10, 1_000_000_000, 50).unwrap();
    let mut run = Run::new(s, 1);
    assert_eq!(run.begin(0), Action::Dial);
    assert_eq!(run.advance(0, Event::Dialed), Action::AwaitReady);
    let slot0 = Slot { index: 0, deadline_ns: 50 };
    assert_eq!(run.advance(0, Event::Ready { now_ns: 20 }), Action::Send { slot: slot0, delay_ns: 30 });
    assert_eq!(run.advance(0, Event::Response(HELLO.to_vec())), Action::AwaitReady);
    let slot1 = Slot { index: 1, deadline_ns: 100_000_050 };
    // running late: the slot goes out at once, and only that one
    assert_eq!(
        run.advance(0, Event::Ready { now_ns: 300_000_000 }),
        Action::Send { slot: slot1, delay_ns: 0 }
    );
    assert_eq!(run.advance(0, Event::Response(HELLO.to_vec())), Action::AwaitReady);
    let slot2 = Slot { index: 2, deadline_ns: 200_000_050 };
    assert_eq!(
        run.advance(0, Event::Ready { now_ns: 300_000_001 }),
        Action::Send { slot: slot2, delay_ns: 0 }
    );
}
