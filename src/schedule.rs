use vstd::prelude::*;

verus! {

/// Nanoseconds in one second.
pub const NANOS_PER_SECOND: u64 = 1_000_000_000;

/// Why a run cannot be planned from the given rate.
#[derive(Debug, Clone, Copy, PartialEq, Eq, Structural)]
pub enum PlanError {
    /// A rate of zero requests per second leaves no interval between requests.
    ZeroRate,
    /// More than one request per nanosecond: the interval rounds down to zero.
    RateTooHigh,
}

/// The fixed timetable of a run: slot `n` is due at `start_ns + n * interval_ns`,
/// for `n` in `0 .. total`. Times are nanoseconds from the instant the run was planned.
#[derive(Debug, Clone, Copy, PartialEq, Eq, Structural)]
pub struct Schedule {
    pub start_ns: u64,
    pub interval_ns: u64,
    pub total: u64,
}

pub open spec fn interval_for(requests_per_second: u64) -> int
    recommends
        requests_per_second > 0,
{
    NANOS_PER_SECOND as int / requests_per_second as int
}

pub open spec fn total_for(test_duration_ns: u64, interval_ns: int) -> int
    recommends
        interval_ns > 0,
{
    test_duration_ns as int / interval_ns
}

impl Schedule {
    pub open spec fn wf(&self) -> bool {
        self.interval_ns > 0
    }

    /// When slot `n` is due.
    pub open spec fn deadline_of(&self, n: int) -> int {
        self.start_ns + n * self.interval_ns
    }

    /// Plans a run: one request every `1s / requests_per_second`, as many as fit in
    /// `test_duration_ns`, the first one `startup_delay_ns` from now.
    pub fn plan(requests_per_second: u64, test_duration_ns: u64, startup_delay_ns: u64) -> (r:
        Result<Schedule, PlanError>)
        ensures
            requests_per_second == 0 <==> r == Err::<Schedule, PlanError>(PlanError::ZeroRate),
            requests_per_second > NANOS_PER_SECOND <==> r == Err::<Schedule, PlanError>(
                PlanError::RateTooHigh,
            ),
            0 < requests_per_second <= NANOS_PER_SECOND ==> r is Ok,
            r matches Ok(s) ==> s.wf() && s.start_ns == startup_delay_ns && s.interval_ns
                == interval_for(requests_per_second) && s.total == total_for(
                test_duration_ns,
                s.interval_ns as int,
            ),
    {
        if requests_per_second == 0 {
            return Err(PlanError::ZeroRate);
        }
        if requests_per_second > NANOS_PER_SECOND {
            return Err(PlanError::RateTooHigh);
        }
        let interval_ns = NANOS_PER_SECOND / requests_per_second;
        assert(interval_ns > 0) by (nonlinear_arith)
            requires
                interval_ns == NANOS_PER_SECOND as int / requests_per_second as int,
                0 < requests_per_second <= NANOS_PER_SECOND,
        ;
        Ok(Schedule { start_ns: startup_delay_ns, interval_ns, total: test_duration_ns / interval_ns })
    }

    /// The instant at which slot `n` is due.
    pub fn deadline(&self, n: u64) -> (r: u128)
        ensures
            r == self.deadline_of(n as int),
    {
        assert(n as int * self.interval_ns as int <= u64::MAX as int * u64::MAX as int)
            by (nonlinear_arith);
        self.start_ns as u128 + n as u128 * self.interval_ns as u128
    }
}

/// The wait before a send at `now_ns` of a slot due at `deadline_ns`.
pub open spec fn wait_ns(now_ns: u128, deadline_ns: u128) -> u128 {
    if now_ns < deadline_ns {
        (deadline_ns - now_ns) as u128
    } else {
        0
    }
}

/// How long a worker holding a slot due at `deadline_ns` waits at `now_ns` before it
/// sends: until the deadline if it lies ahead, not at all if it has passed.
pub fn delay_before_send(now_ns: u128, deadline_ns: u128) -> (r: u128)
    ensures
        r == wait_ns(now_ns, deadline_ns),
        now_ns < deadline_ns ==> now_ns + r == deadline_ns,
        now_ns >= deadline_ns ==> r == 0,
{
    if now_ns < deadline_ns {
        deadline_ns - now_ns
    } else {
        0
    }
}

} // verus!
