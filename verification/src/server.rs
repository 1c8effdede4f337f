//! The supervisor's epoch-timer rule.
//!
//! The supervisor keeps the key store aligned with the schedule: inside
//! the grace window before a rollover it prepares the next epoch's key,
//! and after a rollover it prunes keys outside the retention window.
//! Workers are told to re-shadow after either action.  The rule itself
//! is decided here; the surrounding program runs the timer and performs
//! the actions.

use vstd::prelude::*;

use crate::clock::Time;

verus! {

/// What the supervisor must do at one timer tick.
#[derive(Clone, Copy, Debug, PartialEq, Eq, Structural)]
pub struct EpochPlan {
    /// The next epoch's key must be ready: the grace window before the
    /// rollover has begun.
    pub ensure_next: bool,
    /// The epoch changed since the last tick: prune the key store and
    /// broadcast an update.
    pub rolled_over: bool,
}

/// Decide the supervisor's actions at a tick: `last_epoch` is the epoch
/// seen at the previous tick, `t` the schedule position now.
pub fn epoch_plan(last_epoch: u64, t: &Time, grace: u64) -> (p: EpochPlan)
    ensures
        p.ensure_next == (t.till < grace),
        p.rolled_over == (t.epoch != last_epoch),
{
    EpochPlan { ensure_next: t.till < grace, rolled_over: t.epoch != last_epoch }
}

} // verus!
