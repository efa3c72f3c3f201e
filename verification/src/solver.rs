//! What a bit-vector solver reports on a constraint system, and what that
//! report means for state recovery. The solver itself runs outside this
//! library: a caller hands it the system and brings back the report.
use vstd::prelude::*;
use crate::errors::InitError;
use crate::xorshift::GeneratorState;

verus! {

/// The solver's answer to whether the equations can hold.
#[derive(Clone, Copy, Debug, PartialEq, Eq, Structural)]
pub enum Verdict {
    /// Some words solve the equations.
    Sat,
    /// No words solve them.
    Unsat,
    /// The solver gave up.
    Unknown,
}

/// What the model gave for one state term.
#[derive(Clone, Copy, Debug, PartialEq, Eq, Structural)]
pub enum Evaluation {
    /// The model could not evaluate the term.
    Failed,
    /// The term's value is no 64-bit number.
    NotAWord,
    /// The term's value.
    Word(u64),
}

/// The values of the two state terms under the solver's model.
#[derive(Clone, Copy, Debug, PartialEq, Eq, Structural)]
pub struct ModelReport {
    pub state_0: Evaluation,
    pub state_1: Evaluation,
}

/// A solver's whole answer on one constraint system.
#[derive(Clone, Copy, Debug, PartialEq, Eq, Structural)]
pub struct SolverReport {
    pub verdict: Verdict,
    /// The model, where the solver handed one out.
    pub model: Option<ModelReport>,
}

/// The state that a report yields, or the failure that it amounts to. Any
/// verdict but `Sat` means that the observed doubles do not fit the engine;
/// a missing model comes next, then the first state word, then the second.
pub open spec fn interpret(report: SolverReport) -> Result<GeneratorState, InitError> {
    if report.verdict != Verdict::Sat {
        Err(InitError::Unsat)
    } else {
        match report.model {
            None => Err(InitError::MissingModel),
            Some(model) => match model.state_0 {
                Evaluation::Failed => Err(InitError::EvalFailed("sym_state_0")),
                Evaluation::NotAWord => Err(InitError::ConvertFailed("sym_state_0")),
                Evaluation::Word(s0) => match model.state_1 {
                    Evaluation::Failed => Err(InitError::EvalFailed("sym_state_1")),
                    Evaluation::NotAWord => Err(InitError::ConvertFailed("sym_state_1")),
                    Evaluation::Word(s1) => Ok(GeneratorState { s0, s1 }),
                },
            },
        }
    }
}

impl SolverReport {
    /// The report of a solver that found the given words for the state terms.
    pub fn solved(state_0: u64, state_1: u64) -> (report: SolverReport)
        ensures
            report == (SolverReport {
                verdict: Verdict::Sat,
                model: Some(
                    ModelReport {
                        state_0: Evaluation::Word(state_0),
                        state_1: Evaluation::Word(state_1),
                    },
                ),
            }),
            interpret(report) == Ok::<GeneratorState, InitError>(
                GeneratorState { s0: state_0, s1: state_1 },
            ),
    {
        SolverReport {
            verdict: Verdict::Sat,
            model: Some(
                ModelReport {
                    state_0: Evaluation::Word(state_0),
                    state_1: Evaluation::Word(state_1),
                },
            ),
        }
    }

    /// The report of a solver that found no solution.
    pub fn unsat() -> (report: SolverReport)
        ensures
            report == (SolverReport { verdict: Verdict::Unsat, model: None }),
            interpret(report) == Err::<GeneratorState, InitError>(InitError::Unsat),
    {
        SolverReport { verdict: Verdict::Unsat, model: None }
    }

    /// Turns the report into the recovered state words or the failure.
    pub fn extract_state(&self) -> (outcome: Result<GeneratorState, InitError>)
        ensures
            outcome == interpret(*self),
    {
        match self.verdict {
            Verdict::Sat => {},
            _ => {
                return Err(InitError::Unsat);
            },
        }
        let model: ModelReport = match self.model {
            None => {
                return Err(InitError::MissingModel);
            },
            Some(model) => model,
        };
        let s0: u64 = match model.state_0 {
            Evaluation::Failed => {
                return Err(InitError::EvalFailed("sym_state_0"));
            },
            Evaluation::NotAWord => {
                return Err(InitError::ConvertFailed("sym_state_0"));
            },
            Evaluation::Word(word) => word,
        };
        let s1: u64 = match model.state_1 {
            Evaluation::Failed => {
                return Err(InitError::EvalFailed("sym_state_1"));
            },
            Evaluation::NotAWord => {
                return Err(InitError::ConvertFailed("sym_state_1"));
            },
            Evaluation::Word(word) => word,
        };
        Ok(GeneratorState { s0, s1 })
    }
}

} // verus!
