//! Predicts `Math.random()` of any V8 engine, given the Node.js version
//! whose rule the engine follows, with no limit on the number of
//! predictions.
use vstd::prelude::*;
use crate::double::Double;
use crate::engine::EngineRule;
use crate::errors::{lift, InitError, PredictionError};
use crate::predictor::Predictor;
use crate::recovery::{RecoveryView, StateRecovery};
use crate::solver::SolverReport;
use crate::symbolic::{solves, ConstraintSystem, SystemView};
use crate::xorshift::{transition_n, GeneratorState};

verus! {

/// The rule of the V8 that ships with a Node.js version, given as a number.
pub open spec fn rule_for_major(nodejs_major_version: i32) -> EngineRule {
    if nodejs_major_version >= 24 {
        EngineRule::V8
    } else {
        EngineRule::LegacyNode
    }
}

/// A V8 predictor's state as contracts see it.
pub struct V8View {
    /// Observed doubles and recovered state.
    pub recovery: RecoveryView,
    /// The Node.js version whose rule the engine follows.
    pub nodejs_major_version: i32,
}

impl V8View {
    /// The engine's rule.
    pub open spec fn rule(self) -> EngineRule {
        rule_for_major(self.nodejs_major_version)
    }

    /// The view after a request for the next double, with what the request
    /// returns.
    pub open spec fn predict(self, report: SolverReport) -> (V8View, Result<Double, InitError>) {
        let (recovery, outcome) = self.recovery.predict(self.rule(), report);
        (V8View { recovery, ..self }, outcome)
    }
}

/// A predictor for V8. It keeps no count of the samples taken: the caller
/// sees to it that no more than one pool's worth is asked for.
#[derive(Debug)]
pub struct V8Predictor {
    recovery: StateRecovery,
    nodejs_major_version: i32,
}

impl View for V8Predictor {
    type V = V8View;

    closed spec fn view(&self) -> V8View {
        V8View { recovery: self.recovery@, nodejs_major_version: self.nodejs_major_version }
    }
}

impl V8Predictor {
    /// A predictor for the given version and observed doubles, oldest first.
    pub fn new(nodejs_major_version: i32, seq: Vec<Double>) -> (predictor: V8Predictor)
        requires
            seq@.len() >= 1,
        ensures
            predictor@ == (V8View { recovery: RecoveryView::fresh(seq@), nodejs_major_version }),
    {
        V8Predictor { recovery: StateRecovery::new(seq), nodejs_major_version }
    }

    /// The engine's rule.
    pub fn rule(&self) -> (rule: EngineRule)
        ensures
            rule == self@.rule(),
    {
        if self.nodejs_major_version >= 24 {
            EngineRule::V8
        } else {
            EngineRule::LegacyNode
        }
    }

    /// The observed doubles, oldest first.
    pub fn sequence(&self) -> (observed: &[Double])
        ensures
            observed@ == self@.recovery.observed,
            observed@.len() >= 1,
    {
        self.recovery.sequence()
    }

    /// Whether the generator state was recovered.
    pub fn is_solved(&self) -> (solved: bool)
        ensures
            solved == self@.recovery.solved,
    {
        self.recovery.is_solved()
    }

    /// The constraint system to hand to a solver while the predictor is not
    /// solved. There is none where an observed double lies outside
    /// `[0, 1)`: no generator hands out such a double.
    pub fn constraints(&self) -> (encoded: Option<ConstraintSystem>)
        ensures
            encoded.is_some() == self@.recovery.encoding(self@.rule()).is_some(),
            encoded matches Some(system) ==> {
                &&& self@.recovery.encoding(self@.rule()) == Some(system@)
                &&& system@.wf()
                &&& system@.equations.len() == self@.recovery.observed.len()
                &&& forall|init: GeneratorState| #[trigger]
                    system@.final_state(init) == transition_n(
                        init,
                        self@.recovery.observed.len(),
                    )
                &&& forall|init: GeneratorState| #[trigger]
                    system@.satisfied_by(init) == solves(
                        self@.rule(),
                        self@.recovery.observed,
                        init,
                    )
            },
    {
        let rule = self.rule();
        self.recovery.constraints(rule)
    }

    /// Predicts the next double. The first call recovers the generator
    /// state from the solver's report on `constraints()` and fails where
    /// the report yields none; later calls do not read the report. With an
    /// observed double outside `[0, 1)` every call fails with `Unsat`.
    pub fn predict_next(&mut self, report: &SolverReport) -> (outcome: Result<Double, InitError>)
        ensures
            final(self)@ == old(self)@.predict(*report).0,
            outcome == old(self)@.predict(*report).1,
    {
        let rule = self.rule();
        self.recovery.predict_next(rule, report)
    }
}

impl Predictor for V8Predictor {
    open spec fn pending(&self) -> Option<SystemView> {
        self@.recovery.pending(self@.rule())
    }

    open spec fn next_outcome(&self, report: SolverReport) -> Result<Double, PredictionError> {
        lift(self@.predict(report).1)
    }

    fn pending_constraints(&self) -> (pending: Option<ConstraintSystem>) {
        if self.is_solved() {
            None
        } else {
            self.constraints()
        }
    }

    fn predict(&mut self, report: &SolverReport) -> (outcome: Result<Double, PredictionError>)
        ensures
            final(self)@ == old(self)@.predict(*report).0,
    {
        match self.predict_next(report) {
            Ok(d) => Ok(d),
            Err(e) => Err(PredictionError::Init(e)),
        }
    }
}

} // verus!
