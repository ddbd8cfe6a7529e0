//! Classification of a traffic-signal stage's timing.
//!
//! A stage is configured by three non-negative time quantities: the base
//! `duration`, the no-demand `delay`, and the `additional` extension budget.
//! Variable timing only makes sense when both the delay and the additional
//! budget are non-zero; otherwise the stage degenerates to a fixed duration,
//! and the classifier normalizes it to `Fixed` at construction time.

use vstd::prelude::*;

verus! {

/// One timed phase of a traffic signal's repeating cycle.
///
/// `Fixed(duration)`: the stage always lasts exactly `duration`.
/// `Variable(duration, delay, additional)`: the stage lasts at least
/// `duration`, extends by up to `additional` while demand continues, and
/// ends after `delay` with no demand. All quantities are in the same time
/// unit; the rules here never depend on which one.
#[derive(Clone, Copy, PartialEq, Eq, Structural, Debug)]
pub enum StageType {
    Fixed(u64),
    Variable(u64, u64, u64),
}

/// The normalized stage type for the given knobs: `Fixed(duration)` unless
/// both `delay` and `additional` are non-zero.
pub open spec fn classify_spec(duration: u64, delay: u64, additional: u64) -> StageType {
    if delay == 0 || additional == 0 {
        StageType::Fixed(duration)
    } else {
        StageType::Variable(duration, delay, additional)
    }
}

/// True when the two knobs leave no room for variable timing. Drives the
/// "Fixed timing" / "Variable timing" label that is refreshed on every
/// parameter edit.
pub fn uses_fixed_timing(delay: u64, additional: u64) -> (r: bool)
    ensures
        r == (delay == 0 || additional == 0),
{
    delay == 0 || additional == 0
}

/// Decide the stage type for the given knobs, normalizing a degenerate
/// variable configuration to `Fixed`. Total over its numeric domain.
pub fn classify(duration: u64, delay: u64, additional: u64) -> (r: StageType)
    ensures
        r == classify_spec(duration, delay, additional),
        delay == 0 || additional == 0 ==> r == StageType::Fixed(duration),
        delay > 0 && additional > 0 ==> r == StageType::Variable(duration, delay, additional),
{
    if delay == 0 || additional == 0 {
        StageType::Fixed(duration)
    } else {
        StageType::Variable(duration, delay, additional)
    }
}

/// The classification is a pure function of its three inputs: running it
/// twice over identical knobs yields identical stage types, so the label can
/// be recomputed on every edit without accumulating state.
pub proof fn lemma_classify_deterministic(
    duration1: u64,
    delay1: u64,
    additional1: u64,
    duration2: u64,
    delay2: u64,
    additional2: u64,
)
    requires
        duration1 == duration2,
        delay1 == delay2,
        additional1 == additional2,
    ensures
        classify_spec(duration1, delay1, additional1) == classify_spec(
            duration2,
            delay2,
            additional2,
        ),
{
}

/// A pending change to the timing of one stage of a signal plan, identified
/// by the stage's index within the plan.
#[derive(Clone, Copy, PartialEq, Eq, Structural, Debug)]
pub struct ChangeDuration {
    pub idx: usize,
}

impl ChangeDuration {
    /// Aim a timing change at the stage with the given index.
    pub fn new(idx: usize) -> (s: Self)
        ensures
            s.idx == idx,
    {
        ChangeDuration { idx }
    }

    /// Package the knobs read back from the editor into the edit to apply:
    /// which stage to touch and its new, normalized stage type.
    pub fn stage_edit(&self, duration: u64, delay: u64, additional: u64) -> (r: (
        usize,
        StageType,
    ))
        ensures
            r.0 == self.idx,
            r.1 == classify_spec(duration, delay, additional),
    {
        (self.idx, classify(duration, delay, additional))
    }
}

} // verus!
