//! The timed trigger for background quota refresh sweeps.
//!
//! Time is carried as a plain tick count (the caller reads its clock and
//! hands in "now"); the schedule only decides when a sweep is due and
//! when the next one falls.

use vstd::prelude::*;

verus! {

/// When the next refresh sweep is due, if one is scheduled.
#[derive(Debug, Default, Clone, PartialEq, Eq, Structural)]
pub struct RefreshSchedule {
    pub next_due: Option<u64>,
}

impl RefreshSchedule {
    /// A schedule with no sweep planned yet.
    pub fn new() -> (r: Self)
        ensures
            r.next_due is None,
    {
        Self { next_due: None }
    }

    /// Forgets the planned sweep; the next tick will plan a fresh one.
    pub fn clear(&mut self)
        ensures
            final(self).next_due is None,
    {
        self.next_due = None;
    }

    /// When the next sweep is due, if planned.
    pub fn next_due(&self) -> (r: Option<u64>)
        ensures
            r == self.next_due,
    {
        self.next_due
    }

    /// Advances the schedule: plans the first sweep one interval out
    /// without triggering; triggers once a planned sweep falls due and
    /// replans; otherwise does nothing.  Returns whether a sweep is due
    /// now.
    pub fn tick(&mut self, now: u64, interval: u64) -> (triggered: bool)
        requires
            now + interval <= u64::MAX,
        ensures
            old(self).next_due is None ==> final(self).next_due == Some((now + interval) as u64)
                && !triggered,
            (old(self).next_due matches Some(due) && now >= due) ==> final(self).next_due == Some(
                (now + interval) as u64,
            ) && triggered,
            (old(self).next_due matches Some(due) && now < due) ==> *final(self) == *old(self)
                && !triggered,
    {
        match self.next_due {
            None => {
                self.next_due = Some(now + interval);
                false
            },
            Some(due) => {
                if now >= due {
                    self.next_due = Some(now + interval);
                    true
                } else {
                    false
                }
            },
        }
    }
}

/// Advances the schedule only when auto-refresh is enabled; a disabled
/// schedule never triggers and never changes.
pub fn auto_refresh_tick(
    enabled: bool,
    schedule: &mut RefreshSchedule,
    now: u64,
    interval: u64,
) -> (triggered: bool)
    requires
        now + interval <= u64::MAX,
    ensures
        !enabled ==> !triggered && *final(schedule) == *old(schedule),
        enabled ==> {
            let planned = Some((now + interval) as u64);
            &&& (old(schedule).next_due is None ==> final(schedule).next_due == planned
                && !triggered)
            &&& ((old(schedule).next_due matches Some(due) && now >= due) ==> final(
                schedule).next_due == planned && triggered)
            &&& ((old(schedule).next_due matches Some(due) && now < due) ==> *final(schedule)
                == *old(schedule) && !triggered)
        },
{
    if !enabled {
        return false;
    }
    schedule.tick(now, interval)
}

} // verus!
