//! A periodic tick schedule: the first tick is due one period after the first
//! poll, and each fired tick schedules the next one period later.  A poll
//! that arrives late fires once and reschedules from the late poll itself, so
//! missed ticks are skipped, never delivered in a burst.

use vstd::prelude::*;

verus! {

/// One period added to a point in time, capped at the largest representable
/// instant.
pub open spec fn next_deadline(now_ms: u64, period_ms: u64) -> u64 {
    if now_ms + period_ms > u64::MAX {
        u64::MAX
    } else {
        (now_ms + period_ms) as u64
    }
}

/// A periodic tick schedule.
#[derive(Clone, Copy, Debug)]
pub struct Every {
    /// The interval between ticks, in milliseconds.
    pub period_ms: u64,
    /// When the next tick is due; `None` until the first poll sets the phase.
    pub next_due_ms: Option<u64>,
}

/// A schedule that produces a tick every `period_ms`, the first one a full
/// period after the first poll.
pub fn every(period_ms: u64) -> (r: Every)
    ensures
        r.period_ms == period_ms,
        r.next_due_ms is None,
{
    Every { period_ms, next_due_ms: None }
}

impl Every {
    /// Poll the schedule at the current time.  The first poll only sets the
    /// phase; afterwards a poll fires exactly when the deadline has passed,
    /// and a fired tick schedules the next one period after the poll.
    pub fn poll_at(&mut self, now_ms: u64) -> (fired: bool)
        ensures
            final(self).period_ms == old(self).period_ms,
            match old(self).next_due_ms {
                None => !fired && final(self).next_due_ms == Some(
                    next_deadline(now_ms, old(self).period_ms),
                ),
                Some(due) => {
                    if now_ms >= due {
                        fired && final(self).next_due_ms == Some(
                            next_deadline(now_ms, old(self).period_ms),
                        )
                    } else {
                        !fired && final(self).next_due_ms == old(self).next_due_ms
                    }
                },
            },
    {
        let deadline: u64 = if now_ms > u64::MAX - self.period_ms {
            u64::MAX
        } else {
            now_ms + self.period_ms
        };
        match self.next_due_ms {
            None => {
                self.next_due_ms = Some(deadline);
                false
            },
            Some(due) => {
                if now_ms >= due {
                    self.next_due_ms = Some(deadline);
                    true
                } else {
                    false
                }
            },
        }
    }
}

} // verus!
