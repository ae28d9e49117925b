//! The coalescing policy of background window-placement persistence: the
//! latest placement is written once the window has been quiet for a while,
//! or once updates have kept coming for the maximum period. The thread and
//! channel that run the policy live with the application.
use vstd::prelude::*;
use crate::config::model::WindowBounds;

verus! {

/// Quiet time after the last placement before it is written, in ms.
pub const QUIET_PERIOD_MS: u64 = 250;

/// Longest a placement waits under continuous updates, in ms.
pub const MAX_COALESCE_PERIOD_MS: u64 = 2000;

/// How long an exit waits for the final flush, in ms.
pub const EXIT_FLUSH_TIMEOUT_MS: u64 = 1000;

/// The normal placement of the main window.
#[derive(Clone, Copy, Debug, PartialEq, Eq, Structural)]
pub struct WindowPlacement {
    pub bounds: Option<WindowBounds>,
    pub maximized: bool,
}

/// How a flush request ended.
#[derive(Clone, Copy, Debug, PartialEq, Eq, Structural)]
pub enum FlushOutcome {
    Flushed,
    TimedOut,
    Disconnected,
}

/// A placement waiting to be written, with when the first and the latest
/// update of this batch arrived (ms on a monotonic clock).
#[derive(Clone, Copy, Debug, PartialEq, Eq, Structural)]
pub struct PendingPlacement {
    pub placement: WindowPlacement,
    pub first_received_ms: u64,
    pub last_received_ms: u64,
}

/// What the worker does next.
#[derive(Clone, Copy, Debug, PartialEq, Eq, Structural)]
pub enum WorkerStep {
    /// Write the pending placement now.
    Persist,
    /// Wait for a message at most this many ms.
    WaitFor(u64),
    /// Nothing is pending: wait for the next message.
    WaitForever,
}

/// `a + b`, saturating at `u64::MAX`.
pub open spec fn sat_add(a: u64, b: u64) -> u64 {
    if a + b > u64::MAX { u64::MAX } else { (a + b) as u64 }
}

/// When a pending placement is due: the earlier of the quiet deadline and
/// the maximum-period deadline.
pub open spec fn due_ms(p: PendingPlacement, quiet_ms: u64, max_ms: u64) -> u64 {
    let quiet = sat_add(p.last_received_ms, quiet_ms);
    let max = sat_add(p.first_received_ms, max_ms);
    if quiet <= max { quiet } else { max }
}

/// The next step for a worker holding `pending` at time `now`.
pub open spec fn step_at(pending: Option<PendingPlacement>, now: u64, quiet_ms: u64, max_ms: u64) -> WorkerStep {
    match pending {
        None => WorkerStep::WaitForever,
        Some(p) => if now >= due_ms(p, quiet_ms, max_ms) {
            WorkerStep::Persist
        } else {
            WorkerStep::WaitFor((due_ms(p, quiet_ms, max_ms) - now) as u64)
        },
    }
}

/// The batch after a placement arrived at `now`: the latest placement wins
/// and the batch keeps the time of its first update.
pub open spec fn received(pending: Option<PendingPlacement>, placement: WindowPlacement, now: u64) -> PendingPlacement {
    match pending {
        Some(p) => PendingPlacement { placement, first_received_ms: p.first_received_ms, last_received_ms: now },
        None => PendingPlacement { placement, first_received_ms: now, last_received_ms: now },
    }
}

/// The coalescing state of one worker.
pub struct Coalescer {
    pub pending: Option<PendingPlacement>,
    pub quiet_ms: u64,
    pub max_ms: u64,
}

impl Coalescer {
    /// A worker with nothing pending.
    pub fn new(quiet_ms: u64, max_ms: u64) -> (c: Self)
        ensures
            c.pending is None,
            c.quiet_ms == quiet_ms,
            c.max_ms == max_ms,
    {
        Coalescer { pending: None, quiet_ms, max_ms }
    }

    /// What to do at time `now`.
    pub fn next_step(&self, now: u64) -> (step: WorkerStep)
        ensures
            step == step_at(self.pending, now, self.quiet_ms, self.max_ms),
    {
        match self.pending {
            None => WorkerStep::WaitForever,
            Some(p) => {
                let quiet = p.last_received_ms.saturating_add(self.quiet_ms);
                let max = p.first_received_ms.saturating_add(self.max_ms);
                let due = if quiet <= max { quiet } else { max };
                if now >= due {
                    WorkerStep::Persist
                } else {
                    WorkerStep::WaitFor(due - now)
                }
            },
        }
    }

    /// Takes in a placement that arrived at `now`.
    pub fn receive(&mut self, placement: WindowPlacement, now: u64)
        ensures
            final(self).pending == Some(received(old(self).pending, placement, now)),
            final(self).quiet_ms == old(self).quiet_ms,
            final(self).max_ms == old(self).max_ms,
    {
        self.pending = match self.pending {
            Some(p) => Some(PendingPlacement { placement, first_received_ms: p.first_received_ms, last_received_ms: now }),
            None => Some(PendingPlacement { placement, first_received_ms: now, last_received_ms: now }),
        };
    }

    /// Takes the pending placement to write; nothing is pending afterwards.
    pub fn take(&mut self) -> (placement: Option<WindowPlacement>)
        ensures
            final(self).pending is None,
            final(self).quiet_ms == old(self).quiet_ms,
            final(self).max_ms == old(self).max_ms,
            placement == match old(self).pending {
                Some(p) => Some(p.placement),
                None => None::<WindowPlacement>,
            },
    {
        let taken = match self.pending {
            Some(p) => Some(p.placement),
            None => None,
        };
        self.pending = None;
        taken
    }
}

/// The batch after the placements of `arrivals` (each with its arrival
/// time) came in one after another.
pub open spec fn received_all(pending: Option<PendingPlacement>, arrivals: Seq<(WindowPlacement, u64)>) -> Option<
    PendingPlacement,
>
    decreases arrivals.len(),
{
    if arrivals.len() == 0 {
        pending
    } else {
        let before = received_all(pending, arrivals.drop_last());
        Some(received(before, arrivals.last().0, arrivals.last().1))
    }
}

/// Coalescing law: however many placements arrive before a batch is
/// written, the batch writes exactly the latest one, keeps the time of the
/// batch's first update, and is due no later than the maximum period after
/// that first update.
pub proof fn lemma_latest_placement_wins(
    pending: Option<PendingPlacement>,
    arrivals: Seq<(WindowPlacement, u64)>,
    quiet_ms: u64,
    max_ms: u64,
)
    requires
        arrivals.len() >= 1,
    ensures
        received_all(pending, arrivals) matches Some(batch) && batch.placement == arrivals.last().0
            && batch.first_received_ms == (match pending {
            Some(p) => p.first_received_ms,
            None => arrivals[0].1,
        }) && batch.last_received_ms == arrivals.last().1 && due_ms(batch, quiet_ms, max_ms) <= sat_add(
            batch.first_received_ms,
            max_ms,
        ),
    decreases arrivals.len(),
{
    let before = received_all(pending, arrivals.drop_last());
    if arrivals.len() > 1 {
        lemma_latest_placement_wins(pending, arrivals.drop_last(), quiet_ms, max_ms);
        assert(arrivals.drop_last()[0] == arrivals[0]);
    } else {
        assert(arrivals.drop_last().len() == 0);
        assert(before == pending);
        assert(arrivals.last() == arrivals[0]);
    }
    assert(received_all(pending, arrivals) == Some(received(before, arrivals.last().0, arrivals.last().1)));
}

} // verus!
