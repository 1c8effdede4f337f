//! Epoch clock: a side-effect-free mapping from wall time to the current
//! epoch number, the seconds elapsed inside it, and the seconds left until
//! the next one.

use vstd::prelude::*;

verus! {

/// Seconds from the Unix epoch to the schedule's genesis instant
/// (2017-06-01 00:00:00 UTC).
pub const EPOCH_GENESIS: u64 = 1496275200;

/// Duration of one epoch, in seconds.
pub const EPOCH_PERIOD: u64 = 10800;

/// A point on the epoch schedule: which epoch, how far into it, how long
/// until the next one.
#[derive(Clone, Copy, Debug, PartialEq, Eq, Structural)]
pub struct Time {
    pub epoch: u64,
    pub elapsed: u64,
    pub till: u64,
}

/// Maps wall-clock seconds to the epoch schedule fixed by a genesis instant
/// and a period.
#[derive(Clone, Copy, Debug, PartialEq, Eq, Structural)]
pub struct Clock {
    pub genesis: u64,
    pub period: u64,
}

/// What `Clock::time_at` must return: the epoch is the number of whole
/// periods since genesis, `elapsed` the remainder, and `till` what is left
/// of the running period.
pub open spec fn time_at_spec(genesis: u64, period: u64, now: u64) -> Time
    recommends
        period >= 1,
        now >= genesis,
{
    Time {
        epoch: (((now - genesis) as u64) / period) as u64,
        elapsed: (((now - genesis) as u64) % period) as u64,
        till: (period - ((now - genesis) as u64) % period) as u64,
    }
}

impl Clock {
    /// Well-formed clocks have a nonzero period and a genesis early enough
    /// that epoch numbers cannot overflow 64 bits.
    pub open spec fn wf(self) -> bool {
        self.period >= 1
    }

    pub fn new(genesis: u64, period: u64) -> (c: Clock)
        requires
            period >= 1,
        ensures
            c.genesis == genesis,
            c.period == period,
            c.wf(),
    {
        Clock { genesis, period }
    }

    /// The deployment's default schedule: three-hour epochs counted from
    /// the genesis instant.
    pub fn new_katzenpost() -> (c: Clock)
        ensures
            c.genesis == EPOCH_GENESIS,
            c.period == EPOCH_PERIOD,
            c.wf(),
    {
        Clock { genesis: EPOCH_GENESIS, period: EPOCH_PERIOD }
    }

    pub fn period(&self) -> (r: u64)
        ensures
            r == self.period,
    {
        self.period
    }

    /// Place a wall-clock instant (seconds since the Unix epoch) on the
    /// schedule.
    pub fn time_at(&self, now: u64) -> (t: Time)
        requires
            self.wf(),
            now >= self.genesis,
        ensures
            t == time_at_spec(self.genesis, self.period, now),
            t.elapsed < self.period,
            t.till >= 1,
            t.elapsed + t.till == self.period,
    {
        let from_genesis: u64 = now - self.genesis;
        let epoch: u64 = from_genesis / self.period;
        let elapsed: u64 = from_genesis % self.period;
        let till: u64 = self.period - elapsed;
        Time { epoch, elapsed, till }
    }

    /// The current point on the schedule, by the system clock.
    pub fn now(&self) -> (t: Option<Time>)
        requires
            self.wf(),
        ensures
            t matches Some(v) ==> v.elapsed < self.period && v.elapsed + v.till == self.period,
    {
        let now = wall_clock_seconds();
        if now >= self.genesis {
            Some(self.time_at(now))
        } else {
            None
        }
    }

    /// Whether the wall-clock second `t` falls inside epoch `e`.
    pub open spec fn in_epoch_spec(self, e: u64, t: u64) -> bool {
        self.genesis + e * self.period <= t < self.genesis + (e + 1) * self.period
    }

    pub fn is_in_epoch(&self, e: u64, t: u64) -> (r: bool)
        requires
            self.wf(),
        ensures
            r == self.in_epoch_spec(e, t),
    {
        let ge: u128 = e as u128;
        let gp: u128 = self.period as u128;
        proof {
            assert(ge * gp <= 0xffffffffffffffffu128 * 0xffffffffffffffffu128) by (nonlinear_arith)
                requires
                    ge <= 0xffffffffffffffffu128,
                    gp <= 0xffffffffffffffffu128,
            ;
        }
        let start: u128 = self.genesis as u128 + ge * gp;
        let end: u128 = start + gp;
        proof {
            assert((e + 1) * self.period == e * self.period + self.period) by (nonlinear_arith);
            assert(ge * gp == e * self.period);
        }
        start <= t as u128 && (t as u128) < end
    }
}

/// Relies on std::time::SystemTime::now and duration_since: seconds since
/// the Unix epoch by the system clock.
#[verifier::external_body]
fn wall_clock_seconds() -> u64 {
    match std::time::SystemTime::now().duration_since(std::time::UNIX_EPOCH) {
        Ok(d) => d.as_secs(),
        Err(_) => 0,
    }
}

} // verus!
