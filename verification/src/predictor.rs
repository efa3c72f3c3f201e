//! What all predictors offer.
use vstd::prelude::*;
use crate::double::Double;
use crate::errors::PredictionError;
use crate::solver::SolverReport;
use crate::symbolic::{ConstraintSystem, SystemView};

verus! {

/// A predictor of one engine's `Math.random()`. State recovery needs a
/// bit-vector solver, which the caller brings: before a request it asks the
/// solver what the predictor has pending and hands over the solver's report.
pub trait Predictor {
    /// The constraint system that a solver must be asked before the next
    /// request, or `None` where that request reads no report.
    spec fn pending(&self) -> Option<SystemView>;

    /// What the next request returns, given the solver's report on the
    /// pending constraints.
    spec fn next_outcome(&self, report: SolverReport) -> Result<Double, PredictionError>;

    /// The constraint system that a solver must be asked before the next
    /// call of `predict`, or `None` where that call reads no report.
    fn pending_constraints(&self) -> (pending: Option<ConstraintSystem>)
        ensures
            pending.is_some() == self.pending().is_some(),
            pending matches Some(system) ==> self.pending() == Some(system@) && system@.wf(),
    ;

    /// Predicts the next double, given the solver's report on the pending
    /// constraints. A prediction is made only from a recovered state, so
    /// after one nothing is pending: the solver is asked once. A failure
    /// leaves pending what was pending.
    fn predict(&mut self, report: &SolverReport) -> (outcome: Result<Double, PredictionError>)
        ensures
            outcome == old(self).next_outcome(*report),
            outcome.is_ok() ==> final(self).pending().is_none(),
            outcome.is_err() ==> final(self).pending() == old(self).pending(),
    ;
}

} // verus!
