//! Predicts `Math.random()` of Firefox.
use vstd::prelude::*;
use crate::double::Double;
use crate::engine::EngineRule;
use crate::errors::{lift, InitError, PredictionError};
use crate::predictor::Predictor;
use crate::recovery::{RecoveryView, StateRecovery};
use crate::solver::SolverReport;
use crate::symbolic::{solves, ConstraintSystem, SystemView};
use crate::xorshift::{transition_n, GeneratorState};

verus! {

/// A predictor for Firefox: it replays the generator forwards
/// and reads the low 53 bits of the sum of both state words.
#[derive(Debug)]
pub struct FirefoxPredictor {
    recovery: StateRecovery,
}

impl View for FirefoxPredictor {
    type V = RecoveryView;

    closed spec fn view(&self) -> RecoveryView {
        self.recovery@
    }
}

impl FirefoxPredictor {
    /// The rule of Firefox.
    pub open spec fn rule() -> EngineRule {
        EngineRule::WordSum
    }

    /// A predictor for the given observed doubles, oldest first.
    pub fn new(seq: Vec<Double>) -> (predictor: FirefoxPredictor)
        requires
            seq@.len() >= 1,
        ensures
            predictor@ == RecoveryView::fresh(seq@),
    {
        FirefoxPredictor { recovery: StateRecovery::new(seq) }
    }

    /// The observed doubles, oldest first.
    pub fn sequence(&self) -> (observed: &[Double])
        ensures
            observed@ == self@.observed,
            observed@.len() >= 1,
    {
        self.recovery.sequence()
    }

    /// Whether the generator state was recovered.
    pub fn is_solved(&self) -> (solved: bool)
        ensures
            solved == self@.solved,
    {
        self.recovery.is_solved()
    }

    /// The constraint system to hand to a solver while the predictor is not
    /// solved. There is none where an observed double lies outside
    /// `[0, 1)`: no generator hands out such a double.
    pub fn constraints(&self) -> (encoded: Option<ConstraintSystem>)
        ensures
            encoded.is_some() == self@.encoding(Self::rule()).is_some(),
            encoded matches Some(system) ==> {
                &&& self@.encoding(Self::rule()) == Some(system@)
                &&& system@.wf()
                &&& system@.equations.len() == self@.observed.len()
                &&& forall|init: GeneratorState| #[trigger]
                    system@.final_state(init) == transition_n(init, self@.observed.len())
                &&& forall|init: GeneratorState| #[trigger]
                    system@.satisfied_by(init) == solves(Self::rule(), self@.observed, init)
            },
    {
        self.recovery.constraints(EngineRule::WordSum)
    }

    /// Predicts the next double. The first call recovers the generator
    /// state from the solver's report on `constraints()` and fails where
    /// the report yields none; later calls do not read the report. With an
    /// observed double outside `[0, 1)` every call fails with `Unsat`.
    pub fn predict_next(&mut self, report: &SolverReport) -> (outcome: Result<Double, InitError>)
        ensures
            final(self)@ == old(self)@.predict(Self::rule(), *report).0,
            outcome == old(self)@.predict(Self::rule(), *report).1,
    {
        self.recovery.predict_next(EngineRule::WordSum, report)
    }
}

impl Predictor for FirefoxPredictor {
    open spec fn pending(&self) -> Option<SystemView> {
        self@.pending(Self::rule())
    }

    open spec fn next_outcome(&self, report: SolverReport) -> Result<Double, PredictionError> {
        lift(self@.predict(Self::rule(), report).1)
    }

    fn pending_constraints(&self) -> (pending: Option<ConstraintSystem>) {
        if self.is_solved() {
            None
        } else {
            self.constraints()
        }
    }

    fn predict(&mut self, report: &SolverReport) -> (outcome: Result<Double, PredictionError>)
        ensures
            final(self)@ == old(self)@.predict(Self::rule(), *report).0,
    {
        match self.predict_next(report) {
            Ok(d) => Ok(d),
            Err(e) => Err(PredictionError::Init(e)),
        }
    }
}

} // verus!
