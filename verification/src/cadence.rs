//! Cadence controller: a backoff state machine over poll intervals.
//!
//! After an empty poll cycle the wait interval grows by a fixed factor
//! (6/5, i.e. 1.2) up to a ceiling; any cycle that yields results snaps
//! the interval back to the base. A long run of empty cycles forces a
//! periodic check-in at the base interval so the poller never stays
//! pinned at the ceiling indefinitely.

use vstd::prelude::*;

verus! {

/// Numerator of the multiplicative growth factor applied after an empty cycle.
pub const GROWTH_NUM: u64 = 6;

/// Denominator of the multiplicative growth factor applied after an empty cycle.
pub const GROWTH_DEN: u64 = 5;

/// Number of consecutive empty cycles after which the cadence is forced back
/// to the base interval even though no cycle yielded results.
pub const EMPTY_STREAK_THRESHOLD: u64 = 10;

/// Largest representable interval, chosen so that multiplying an interval by
/// `GROWTH_NUM` can never overflow a `u64`.
pub const INTERVAL_CEILING_MS: u64 = 0x2AAA_AAAA_AAAA_AAAA;

/// Backoff state of one poll loop. All intervals are in milliseconds.
#[derive(Debug, Clone, Copy, PartialEq, Eq, Structural)]
pub struct CadenceState {
    /// Wait before the next cycle.
    pub current_interval_ms: u64,
    /// Fixed floor the interval returns to whenever a cycle yields results.
    pub base_interval_ms: u64,
    /// Fixed ceiling the interval never exceeds.
    pub max_interval_ms: u64,
    /// Number of consecutive empty cycles since the last reset.
    pub empty_streak: u64,
}

impl CadenceState {
    /// Well-formedness: the interval sits between its floor and ceiling, the
    /// ceiling is small enough that growth arithmetic cannot overflow, and
    /// the streak counter never runs past the forced-reset threshold.
    pub open spec fn wf(self) -> bool {
        &&& 0 < self.base_interval_ms
        &&& self.base_interval_ms <= self.current_interval_ms
        &&& self.current_interval_ms <= self.max_interval_ms
        &&& self.max_interval_ms <= INTERVAL_CEILING_MS
        &&& self.empty_streak <= EMPTY_STREAK_THRESHOLD
    }

    /// The interval after one application of the growth factor, capped at the
    /// ceiling: `min(current * 6 / 5, max)`.
    pub open spec fn grown_interval(self) -> int {
        let g = self.current_interval_ms as int * GROWTH_NUM as int / GROWTH_DEN as int;
        if g > self.max_interval_ms { self.max_interval_ms as int } else { g }
    }

    /// State after a cycle that yielded results: the interval snaps back to
    /// the base and the empty streak is cleared, regardless of prior state.
    pub open spec fn results_step(self) -> CadenceState {
        CadenceState {
            current_interval_ms: self.base_interval_ms,
            empty_streak: 0,
            ..self
        }
    }

    /// State after an empty cycle: normally the interval grows and the streak
    /// is counted up; once the streak would run past the threshold, the
    /// interval is instead forced back to the base and the streak cleared.
    pub open spec fn empty_step(self) -> CadenceState {
        if self.empty_streak + 1 > EMPTY_STREAK_THRESHOLD {
            CadenceState {
                current_interval_ms: self.base_interval_ms,
                empty_streak: 0,
                ..self
            }
        } else {
            CadenceState {
                current_interval_ms: self.grown_interval() as u64,
                empty_streak: (self.empty_streak + 1) as u64,
                ..self
            }
        }
    }

    /// Creates the state a poll loop starts from: polling at the base
    /// interval with no empty cycles on record.
    pub fn new(base_interval_ms: u64, max_interval_ms: u64) -> (s: CadenceState)
        requires
            0 < base_interval_ms <= max_interval_ms,
            max_interval_ms <= INTERVAL_CEILING_MS,
        ensures
            s.wf(),
            s.current_interval_ms == base_interval_ms,
            s.base_interval_ms == base_interval_ms,
            s.max_interval_ms == max_interval_ms,
            s.empty_streak == 0,
    {
        CadenceState {
            current_interval_ms: base_interval_ms,
            base_interval_ms,
            max_interval_ms,
            empty_streak: 0,
        }
    }

    /// Records a cycle that yielded results: the interval resets to exactly
    /// the base and the empty streak is zeroed, whatever the prior state.
    pub fn cycle_yielded_results(&mut self)
        requires
            old(self).wf(),
        ensures
            final(self).wf(),
            *final(self) == old(self).results_step(),
            final(self).current_interval_ms == old(self).base_interval_ms,
            final(self).empty_streak == 0,
            final(self).base_interval_ms == old(self).base_interval_ms,
            final(self).max_interval_ms == old(self).max_interval_ms,
    {
        self.current_interval_ms = self.base_interval_ms;
        self.empty_streak = 0;
    }

    /// Records an empty cycle: grows the interval by the fixed factor up to
    /// the ceiling and counts the streak, or forces the check-in reset once
    /// the streak runs past the threshold.
    pub fn cycle_was_empty(&mut self)
        requires
            old(self).wf(),
        ensures
            final(self).wf(),
            *final(self) == old(self).empty_step(),
            final(self).base_interval_ms == old(self).base_interval_ms,
            final(self).max_interval_ms == old(self).max_interval_ms,
    {
        if self.empty_streak + 1 > EMPTY_STREAK_THRESHOLD {
            self.current_interval_ms = self.base_interval_ms;
            self.empty_streak = 0;
        } else {
            let grown = self.current_interval_ms * GROWTH_NUM / GROWTH_DEN;
            self.current_interval_ms =
                if grown > self.max_interval_ms { self.max_interval_ms } else { grown };
            self.empty_streak = self.empty_streak + 1;
            proof {
                lemma_growth_does_not_shrink(old(self).current_interval_ms);
            }
        }
    }
}

/// Growing an interval never shrinks it: `i * 6 / 5 >= i`.
proof fn lemma_growth_does_not_shrink(i: u64)
    ensures
        i as int * GROWTH_NUM as int / GROWTH_DEN as int >= i,
{
    assert(i as int * GROWTH_NUM as int / GROWTH_DEN as int >= i) by (nonlinear_arith);
}

/// On an empty cycle below the forced-reset threshold, the interval moves to
/// exactly `min(current * 6 / 5, max)`; in particular it never decreases, and
/// once at the ceiling it stays at the ceiling.
pub proof fn lemma_empty_cycle_grows(s: CadenceState)
    requires
        s.wf(),
        s.empty_streak + 1 <= EMPTY_STREAK_THRESHOLD,
    ensures
        s.empty_step().current_interval_ms == s.grown_interval(),
        s.empty_step().current_interval_ms >= s.current_interval_ms,
        s.current_interval_ms == s.max_interval_ms
            ==> s.empty_step().current_interval_ms == s.max_interval_ms,
{
    lemma_growth_does_not_shrink(s.current_interval_ms);
}

/// The result event is absorbing: applied to any well-formed state it yields
/// the same fully-reset state, so applying it twice changes nothing more.
pub proof fn lemma_results_absorbing(s: CadenceState)
    requires
        s.wf(),
    ensures
        s.results_step().current_interval_ms == s.base_interval_ms,
        s.results_step().empty_streak == 0,
        s.results_step().results_step() == s.results_step(),
{
}

/// `n` consecutive empty cycles starting from `s`.
pub open spec fn empty_steps(s: CadenceState, n: nat) -> CadenceState
    decreases n,
{
    if n == 0 {
        s
    } else {
        empty_steps(s, (n - 1) as nat).empty_step()
    }
}

/// Up to the threshold, consecutive empty cycles just count the streak: after
/// `n` of them the streak reads `n`, the state stays well formed, and the
/// floor and ceiling are untouched.
proof fn lemma_empty_steps_streak(s: CadenceState, n: nat)
    requires
        s.wf(),
        s.empty_streak == 0,
        n <= EMPTY_STREAK_THRESHOLD,
    ensures
        empty_steps(s, n).wf(),
        empty_steps(s, n).empty_streak == n,
        empty_steps(s, n).base_interval_ms == s.base_interval_ms,
        empty_steps(s, n).max_interval_ms == s.max_interval_ms,
    decreases n,
{
    if n > 0 {
        lemma_empty_steps_streak(s, (n - 1) as nat);
    }
}

/// Forced floor reset: starting from a state with no empty cycles on record,
/// exactly `EMPTY_STREAK_THRESHOLD + 1` consecutive empty cycles bring the
/// interval back to exactly the base, even though unforced backoff alone
/// would have kept it at or near the ceiling.
pub proof fn lemma_forced_floor_reset(s: CadenceState)
    requires
        s.wf(),
        s.empty_streak == 0,
    ensures
        empty_steps(s, (EMPTY_STREAK_THRESHOLD + 1) as nat).current_interval_ms
            == s.base_interval_ms,
        empty_steps(s, (EMPTY_STREAK_THRESHOLD + 1) as nat).empty_streak == 0,
{
    lemma_empty_steps_streak(s, EMPTY_STREAK_THRESHOLD as nat);
}

} // verus!
