//! Poll-loop engine: the state one polling loop owns (cadence and cursor)
//! and the decision it takes at each cycle boundary.
//!
//! The loop around it performs the outside work — fetching, decoding,
//! delivering, sleeping — and hands the engine one `FetchOutcome` per cycle
//! together with the cycle's start time. The engine mutates its state only
//! here, at the cycle boundary, and tells the caller what to do next.

use vstd::prelude::*;

use crate::cadence::CadenceState;
use crate::fetch::MAX_EPOCH_SECONDS;
use crate::notification::Notification;
use crate::outcome::{FailureKind, FetchOutcome};
use crate::pipeline::{process, sorted_desc, spec_process};

verus! {

/// What the loop must do after one cycle, besides sleeping for the current
/// interval.
#[derive(Debug, Clone, PartialEq, Eq)]
pub enum CycleAction {
    /// Push this non-empty, filtered and sorted batch to the consumer sink.
    Deliver(Vec<Notification>),
    /// The cycle was empty: nothing to deliver.
    Quiet,
    /// The fetch failed: report to the observability sink. Neither cadence
    /// nor cursor moved.
    Report(FailureKind, String),
}

/// State owned by one poll loop: the backoff cadence and the incremental
/// fetch cursor (absent until the first successful fetch).
#[derive(Debug, Clone, Copy, PartialEq, Eq)]
pub struct Engine {
    pub cadence: CadenceState,
    pub cursor: Option<u64>,
}

impl Engine {
    /// Well-formedness: the cadence invariant, and a cursor small enough to
    /// format.
    pub open spec fn wf(self) -> bool {
        &&& self.cadence.wf()
        &&& (self.cursor matches Some(t) ==> t <= MAX_EPOCH_SECONDS)
    }

    /// A fresh engine: no cursor yet, polling at the base interval.
    pub fn new(base_interval_ms: u64, max_interval_ms: u64) -> (e: Engine)
        requires
            0 < base_interval_ms <= max_interval_ms,
            max_interval_ms <= crate::cadence::INTERVAL_CEILING_MS,
        ensures
            e.wf(),
            e.cursor is None,
            e.cadence.current_interval_ms == base_interval_ms,
            e.cadence.base_interval_ms == base_interval_ms,
            e.cadence.max_interval_ms == max_interval_ms,
            e.cadence.empty_streak == 0,
    {
        Engine { cadence: CadenceState::new(base_interval_ms, max_interval_ms), cursor: None }
    }

    /// How long to wait before the next cycle, in milliseconds.
    pub fn current_interval_ms(&self) -> (r: u64)
        ensures
            r == self.cadence.current_interval_ms,
    {
        self.cadence.current_interval_ms
    }

    /// Runs the decision of one poll cycle.
    ///
    /// On a successful fetch the cursor advances to `now_epoch_s` — the
    /// cycle's start time — whether or not the batch was empty; the batch is
    /// filtered and sorted, and the cadence takes the results event or the
    /// empty event depending on whether anything actionable remains. On a
    /// failed fetch the engine is left bit-for-bit unchanged — the cursor
    /// keeps the old window for retry, the cadence does not drift — and the
    /// failure is handed back for reporting.
    pub fn poll_cycle(&mut self, outcome: FetchOutcome, now_epoch_s: u64) -> (action: CycleAction)
        requires
            old(self).wf(),
            now_epoch_s <= MAX_EPOCH_SECONDS,
        ensures
            final(self).wf(),
            final(self).cadence.base_interval_ms == old(self).cadence.base_interval_ms,
            final(self).cadence.max_interval_ms == old(self).cadence.max_interval_ms,
            outcome matches FetchOutcome::Success(items) ==> {
                &&& final(self).cursor == Some(now_epoch_s)
                &&& (spec_process(items@).len() > 0 ==> {
                    &&& final(self).cadence == old(self).cadence.results_step()
                    &&& action matches CycleAction::Deliver(batch) && batch@ == spec_process(
                        items@,
                    ) && sorted_desc(batch@)
                })
                &&& (spec_process(items@).len() == 0 ==> {
                    &&& final(self).cadence == old(self).cadence.empty_step()
                    &&& action is Quiet
                })
            },
            outcome matches FetchOutcome::Failure(kind, msg) ==> {
                &&& *final(self) == *old(self)
                &&& action == CycleAction::Report(kind, msg)
            },
    {
        match outcome {
            FetchOutcome::Success(items) => {
                let batch = process(items);
                self.cursor = Some(now_epoch_s);
                if batch.len() > 0 {
                    self.cadence.cycle_yielded_results();
                    CycleAction::Deliver(batch)
                } else {
                    self.cadence.cycle_was_empty();
                    CycleAction::Quiet
                }
            },
            FetchOutcome::Failure(kind, msg) => CycleAction::Report(kind, msg),
        }
    }
}

} // verus!
