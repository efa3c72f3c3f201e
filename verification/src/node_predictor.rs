//! Predicts `Math.random()` of Node.js, within the 64 samples that one
//! generator state of V8 accounts for.
use vstd::prelude::*;
use crate::budget::{PredictionBudget, MAX_NUM_PREDICTIONS};
use crate::double::Double;
use crate::engine::EngineRule;
use crate::errors::{lift, PredictionError, PredictionLimitError};
use crate::nodejs_major_version::NodeJsMajorVersion;
use crate::predictor::Predictor;
use crate::recovery::{RecoveryView, StateRecovery};
use crate::solver::SolverReport;
use crate::symbolic::{solves, ConstraintSystem, SystemView};
use crate::xorshift::{transition_n, GeneratorState};

verus! {

/// The rule by which a version of Node.js turns a word into a double.
pub open spec fn rule_for(version: NodeJsMajorVersion) -> EngineRule {
    if version.major() >= 24 {
        EngineRule::V8
    } else {
        EngineRule::LegacyNode
    }
}

/// The rule by which a version of Node.js turns a word into a double.
pub fn rule_of_version(version: NodeJsMajorVersion) -> (rule: EngineRule)
    ensures
        rule == rule_for(version),
{
    if version.as_u8() >= 24 {
        EngineRule::V8
    } else {
        EngineRule::LegacyNode
    }
}

/// A Node.js predictor's state as contracts see it.
pub struct NodeView {
    /// Observed doubles and recovered state.
    pub recovery: RecoveryView,
    /// The version of Node.js.
    pub version: NodeJsMajorVersion,
    /// The samples consumed from the generator's pool: those observed and
    /// those predicted.
    pub consumed: nat,
}

impl NodeView {
    /// The engine's rule.
    pub open spec fn rule(self) -> EngineRule {
        rule_for(self.version)
    }

    /// The pool is used up.
    pub open spec fn exhausted(self) -> bool {
        self.consumed >= MAX_NUM_PREDICTIONS
    }

    /// The number of doubles predicted since the observed doubles were
    /// given.
    pub open spec fn predictions_made(self) -> int {
        self.consumed - self.recovery.observed.len()
    }

    /// The constraint system that a solver must be asked before the next
    /// request: none with the pool used up, none once the state is
    /// recovered, and none where a double lies outside `[0, 1)`.
    pub open spec fn pending(self) -> Option<SystemView> {
        if self.exhausted() {
            None
        } else {
            self.recovery.pending(self.rule())
        }
    }

    /// The view after a request for the next double, with what the request
    /// returns. With the pool used up the request fails with the limit
    /// error and changes nothing. Otherwise it goes on to recovery and
    /// prediction, and a double that is predicted is counted as consumed; a
    /// request that fails predicts nothing and counts nothing.
    pub open spec fn predict(self, report: SolverReport) -> (NodeView, Result<
        Double,
        PredictionError,
    >) {
        if self.exhausted() {
            (self, Err(PredictionError::Limit(PredictionLimitError)))
        } else {
            let (recovery, outcome) = self.recovery.predict(self.rule(), report);
            let consumed = if outcome.is_ok() {
                self.consumed + 1
            } else {
                self.consumed
            };
            (NodeView { recovery, consumed, ..self }, lift(outcome))
        }
    }

    /// The view after `reset`: unchanged before the pool is used up; after
    /// that the new sequence, an unsolved state and a pool of which the new
    /// sequence is consumed.
    pub open spec fn reset(self, new_sequence: Seq<Double>) -> NodeView {
        if !self.exhausted() {
            self
        } else {
            NodeView {
                recovery: RecoveryView { observed: new_sequence, solved: false, ..self.recovery },
                consumed: new_sequence.len(),
                ..self
            }
        }
    }
}

/// A predictor for Node.js. It replays the generator in reverse and reads
/// the first state word, as its version's rule says.
#[derive(Debug)]
pub struct NodePredictor {
    recovery: StateRecovery,
    version: NodeJsMajorVersion,
    budget: PredictionBudget,
}

impl View for NodePredictor {
    type V = NodeView;

    closed spec fn view(&self) -> NodeView {
        NodeView { recovery: self.recovery@, version: self.version, consumed: self.budget@ }
    }
}

impl NodePredictor {
    /// The number of samples that one recovered state accounts for.
    pub const MAX_NUM_PREDICTIONS: u8 = MAX_NUM_PREDICTIONS;

    /// A predictor for the given version and observed doubles, oldest
    /// first. The observed doubles count as consumed from the pool.
    pub fn new(node_js_major_version: NodeJsMajorVersion, seq: Vec<Double>) -> (predictor:
        NodePredictor)
        requires
            seq@.len() >= 1,
        ensures
            predictor@ == (NodeView {
                recovery: RecoveryView::fresh(seq@),
                version: node_js_major_version,
                consumed: seq@.len(),
            }),
    {
        let budget = PredictionBudget::new(seq.len());
        NodePredictor {
            recovery: StateRecovery::new(seq),
            version: node_js_major_version,
            budget,
        }
    }

    /// The observed doubles, oldest first.
    pub fn sequence(&self) -> (observed: &[Double])
        ensures
            observed@ == self@.recovery.observed,
            observed@.len() >= 1,
    {
        self.recovery.sequence()
    }

    /// The version of Node.js.
    pub fn version(&self) -> (version: NodeJsMajorVersion)
        ensures
            version == self@.version,
    {
        self.version
    }

    /// Whether the generator state was recovered.
    pub fn is_solved(&self) -> (solved: bool)
        ensures
            solved == self@.recovery.solved,
    {
        self.recovery.is_solved()
    }

    /// The number of samples consumed from the pool: observed and predicted.
    pub fn samples_consumed(&self) -> (count: usize)
        ensures
            count == self@.consumed,
    {
        self.budget.consumed()
    }

    /// Whether the pool is used up, so that only `reset` helps.
    pub fn is_exhausted(&self) -> (exhausted: bool)
        ensures
            exhausted == self@.exhausted(),
    {
        self.budget.is_exhausted()
    }

    /// The constraint system to hand to a solver while the predictor is not
    /// solved. There is none where an observed double lies outside
    /// `[0, 1)`: no generator hands out such a double.
    pub fn constraints(&self) -> (encoded: Option<ConstraintSystem>)
        ensures
            encoded.is_some() == self@.recovery.encoding(self@.rule()).is_some(),
            encoded matches Some(system) ==> {
                &&& self@.recovery.encoding(self@.rule()) == Some(system@)
                &&& system@.wf()
                &&& system@.equations.len() == self@.recovery.observed.len()
                &&& forall|init: GeneratorState| #[trigger]
                    system@.final_state(init) == transition_n(
                        init,
                        self@.recovery.observed.len(),
                    )
                &&& forall|init: GeneratorState| #[trigger]
                    system@.satisfied_by(init) == solves(
                        self@.rule(),
                        self@.recovery.observed,
                        init,
                    )
            },
    {
        self.recovery.constraints(rule_of_version(self.version))
    }

    /// Predicts the next double. Fails with the limit error, and changes
    /// nothing, once observed and predicted samples together have reached
    /// 64. Otherwise the first call recovers the generator state from the
    /// solver's report on `constraints()`; later calls do not read it. Only
    /// a double that is predicted counts against the pool.
    pub fn predict_next(&mut self, report: &SolverReport) -> (outcome: Result<
        Double,
        PredictionError,
    >)
        ensures
            final(self)@ == old(self)@.predict(*report).0,
            outcome == old(self)@.predict(*report).1,
    {
        if self.budget.is_exhausted() {
            return Err(PredictionError::Limit(PredictionLimitError));
        }
        match self.recovery.predict_next(rule_of_version(self.version), report) {
            Err(e) => Err(PredictionError::Init(e)),
            Ok(d) => {
                let counted = self.budget.increment_prediction_count();
                assert(counted.is_ok());
                Ok(d)
            },
        }
    }

    /// Gives the predictor a new sequence once the pool is used up: the
    /// state must then be recovered anew, and the new sequence counts as
    /// consumed. Before that, nothing changes. Always succeeds.
    pub fn reset(&mut self, new_sequence: Vec<Double>) -> (outcome: Result<
        (),
        PredictionLimitError,
    >)
        requires
            new_sequence@.len() >= 1,
        ensures
            outcome.is_ok(),
            final(self)@ == old(self)@.reset(new_sequence@),
    {
        if self.budget.reset(new_sequence.len()) {
            self.recovery.restart(new_sequence);
        }
        Ok(())
    }
}

impl Predictor for NodePredictor {
    open spec fn pending(&self) -> Option<SystemView> {
        self@.pending()
    }

    open spec fn next_outcome(&self, report: SolverReport) -> Result<Double, PredictionError> {
        self@.predict(report).1
    }

    fn pending_constraints(&self) -> (pending: Option<ConstraintSystem>) {
        if self.is_exhausted() || self.is_solved() {
            None
        } else {
            self.constraints()
        }
    }

    fn predict(&mut self, report: &SolverReport) -> (outcome: Result<Double, PredictionError>)
        ensures
            final(self)@ == old(self)@.predict(*report).0,
    {
        self.predict_next(report)
    }
}

} // verus!
