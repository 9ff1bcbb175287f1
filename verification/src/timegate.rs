//! The time-sync gate: readiness of the device's clock.
//!
//! The external time-sync source reports `Pending` or `Completed`. Policy:
//! once `Completed` has been observed, readiness stays latched true for the
//! rest of the run, even if a later query reports `Pending` again — this
//! avoids flapping between trustworthy and not on a transient resync.

use vstd::prelude::*;

verus! {

/// What the external time-sync source reports when queried.
#[derive(Clone, Copy, PartialEq, Eq, Structural, Debug)]
pub enum TimeSyncStatus {
    Pending,
    Completed,
}

/// Whether a run of observations latches readiness: true exactly when at
/// least one of them is `Completed`.
pub open spec fn spec_latched_after(obs: Seq<TimeSyncStatus>) -> bool
    decreases obs.len(),
{
    if obs.len() == 0 {
        false
    } else {
        spec_latched_after(obs.drop_last()) || obs.last() == TimeSyncStatus::Completed
    }
}

/// The latch itself. `observed` records every status it was shown,
/// so the latch can be stated as a function of the whole history.
pub struct TimeSyncGate {
    pub latched: bool,
    pub observed: Ghost<Seq<TimeSyncStatus>>,
}

impl TimeSyncGate {
    /// The latch agrees with the observation history.
    pub open spec fn wf(&self) -> bool {
        self.latched == spec_latched_after(self.observed@)
    }

    /// A fresh gate: nothing observed, not latched.
    pub fn new() -> (g: TimeSyncGate)
        ensures
            g.wf(),
            !g.latched,
            g.observed@ == Seq::<TimeSyncStatus>::empty(),
    {
        TimeSyncGate { latched: false, observed: Ghost(Seq::empty()) }
    }

    /// Feeds one status report into the latch, which can only go from
    /// false to true, and does so exactly on a `Completed` report.
    pub fn observe(&mut self, s: TimeSyncStatus)
        requires
            old(self).wf(),
        ensures
            final(self).wf(),
            final(self).observed@ == old(self).observed@.push(s),
            final(self).latched == (old(self).latched || s == TimeSyncStatus::Completed),
    {
        if s == TimeSyncStatus::Completed {
            self.latched = true;
        }
        proof {
            self.observed@ = self.observed@.push(s);
            assert(self.observed@.drop_last() =~= old(self).observed@);
        }
    }

    /// Whether the device's clock may be trusted this tick.
    pub fn is_time_trustworthy(&self) -> (r: bool)
        ensures
            r == self.latched,
    {
        self.latched
    }
}

/// Latching is monotonic over any continuation of the history: a latched
/// gate stays latched whatever is observed afterwards.
pub proof fn lemma_latch_monotonic(obs: Seq<TimeSyncStatus>, more: Seq<TimeSyncStatus>)
    requires
        spec_latched_after(obs),
    ensures
        spec_latched_after(obs + more),
    decreases more.len(),
{
    if more.len() == 0 {
        assert(obs + more == obs);
    } else {
        lemma_latch_monotonic(obs, more.drop_last());
        assert((obs + more).drop_last() == obs + more.drop_last());
    }
}

/// Once `Completed` has been observed, later `Pending` observations never
/// un-latch readiness: after any history that contains one `Completed`
/// report, the latch stands.
pub proof fn lemma_pending_does_not_unlatch(
    before: Seq<TimeSyncStatus>,
    after: Seq<TimeSyncStatus>,
)
    ensures
        spec_latched_after(before + seq![TimeSyncStatus::Completed] + after),
{
    assert(spec_latched_after(before + seq![TimeSyncStatus::Completed])) by {
        assert((before + seq![TimeSyncStatus::Completed]).last() == TimeSyncStatus::Completed);
    }
    lemma_latch_monotonic(before + seq![TimeSyncStatus::Completed], after);
}

} // verus!
