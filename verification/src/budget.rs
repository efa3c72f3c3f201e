//! The count of samples taken from one generator state, which V8 refills
//! after 64: past that, what was recovered predicts nothing.
use vstd::prelude::*;
use crate::errors::PredictionLimitError;

verus! {

/// The number of samples that one recovered state accounts for.
pub const MAX_NUM_PREDICTIONS: u8 = 64;

/// Counts the samples consumed from the generator's present pool: those
/// observed and those predicted.
#[derive(Clone, Copy, Debug, PartialEq, Eq, Structural)]
pub struct PredictionBudget {
    consumed: usize,
}

impl View for PredictionBudget {
    type V = nat;

    closed spec fn view(&self) -> nat {
        self.consumed as nat
    }
}

impl PredictionBudget {
    /// A budget of which `observed` samples are consumed already.
    pub fn new(observed: usize) -> (budget: PredictionBudget)
        ensures
            budget@ == observed,
    {
        PredictionBudget { consumed: observed }
    }

    /// The number of samples consumed.
    pub fn consumed(&self) -> (count: usize)
        ensures
            count == self@,
    {
        self.consumed
    }

    /// Whether the pool is used up.
    pub fn is_exhausted(&self) -> (exhausted: bool)
        ensures
            exhausted == (self@ >= MAX_NUM_PREDICTIONS),
    {
        self.consumed >= MAX_NUM_PREDICTIONS as usize
    }

    /// Takes one sample from the pool, or fails and changes nothing where
    /// the pool is used up.
    pub fn increment_prediction_count(&mut self) -> (outcome: Result<(), PredictionLimitError>)
        ensures
            old(self)@ >= MAX_NUM_PREDICTIONS ==> outcome.is_err() && final(self)@ == old(self)@,
            old(self)@ < MAX_NUM_PREDICTIONS ==> outcome.is_ok() && final(self)@ == old(self)@ + 1,
    {
        if self.consumed >= MAX_NUM_PREDICTIONS as usize {
            return Err(PredictionLimitError);
        }
        self.consumed = self.consumed + 1;
        Ok(())
    }

    /// Starts a new pool of which `observed` samples are consumed, where the
    /// present pool is used up; before that nothing changes. Returns whether
    /// a new pool was started.
    pub fn reset(&mut self, observed: usize) -> (restarted: bool)
        ensures
            restarted == (old(self)@ >= MAX_NUM_PREDICTIONS),
            restarted ==> final(self)@ == observed,
            !restarted ==> final(self)@ == old(self)@,
    {
        if self.consumed < MAX_NUM_PREDICTIONS as usize {
            return false;
        }
        self.consumed = observed;
        true
    }
}

/// How many predictions a run on Node.js makes.
#[derive(Clone, Copy, Debug, PartialEq, Eq, Structural)]
pub enum PredictionPlan {
    /// The observed sequence alone fills the pool: nothing can be predicted.
    SequenceTooLong,
    /// All predictions asked for fit the pool.
    Full(usize),
    /// Only so many predictions fit the pool; the rest are cut off.
    Truncated(usize),
}

/// The plan for a sequence of `observed` doubles of which `wanted`
/// predictions are asked.
pub open spec fn plan_for(observed: nat, wanted: nat) -> PredictionPlan {
    if observed >= MAX_NUM_PREDICTIONS {
        PredictionPlan::SequenceTooLong
    } else if observed + wanted > MAX_NUM_PREDICTIONS {
        PredictionPlan::Truncated((MAX_NUM_PREDICTIONS - observed) as usize)
    } else {
        PredictionPlan::Full(wanted as usize)
    }
}

/// Fits the number of predictions asked for to what the pool leaves after
/// the observed sequence.
pub fn plan_predictions(observed: usize, wanted: usize) -> (plan: PredictionPlan)
    ensures
        plan == plan_for(observed as nat, wanted as nat),
{
    let max: usize = MAX_NUM_PREDICTIONS as usize;
    if observed >= max {
        PredictionPlan::SequenceTooLong
    } else if wanted > max - observed {
        PredictionPlan::Truncated(max - observed)
    } else {
        PredictionPlan::Full(wanted)
    }
}

} // verus!
