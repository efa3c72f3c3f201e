//! Typed failures of state recovery and of the prediction budget.
use vstd::prelude::*;
use vstd::string::*;

verus! {

/// Why recovering the generator state from the observed samples failed.
#[derive(Debug, Clone, Copy)]
pub enum InitError {
    /// The observed samples cannot come from the modelled generator.
    Unsat,
    /// The solver reported a solution but handed out no model.
    MissingModel,
    /// The model could not evaluate the named state variable.
    EvalFailed(&'static str),
    /// The value of the named state variable is no 64-bit number.
    ConvertFailed(&'static str),
}

impl InitError {
    /// The text shown for this failure.
    pub open spec fn message(self) -> Seq<char> {
        match self {
            InitError::Unsat => "Solver returned UNSAT"@,
            InitError::MissingModel => "Failed to get model from solver"@,
            InitError::EvalFailed(field) => "Failed to evaluate "@ + field@,
            InitError::ConvertFailed(field) => "Failed to convert "@ + field@ + " to u64"@,
        }
    }

    /// Renders the failure as text.
    pub fn to_string(&self) -> (text: String)
        ensures
            text@ == self.message(),
    {
        match self {
            InitError::Unsat => String::from_str("Solver returned UNSAT"),
            InitError::MissingModel => String::from_str("Failed to get model from solver"),
            InitError::EvalFailed(field) => String::from_str("Failed to evaluate ").concat(field),
            InitError::ConvertFailed(field) => String::from_str("Failed to convert ").concat(
                field,
            ).concat(" to u64"),
        }
    }
}

/// The generator's pool of samples is used up: observed samples plus
/// predictions have reached the pool size.
#[derive(Debug, Clone, Copy, PartialEq, Eq, Structural)]
pub struct PredictionLimitError;

impl PredictionLimitError {
    /// The text shown for this failure.
    pub open spec fn message() -> Seq<char> {
        "Prediction count exceeded maximum. 'Initial sequence length' + 'number of predictions' cannot exceed 64! See README for more info!\nPlease call 'reset' with a 'new sequence'! eg. `<instance>.reset(new_sequence)``"@
    }

    /// Renders the failure as text.
    pub fn to_string(&self) -> (text: String)
        ensures
            text@ == Self::message(),
    {
        String::from_str(
            "Prediction count exceeded maximum. 'Initial sequence length' + 'number of predictions' cannot exceed 64! See README for more info!\nPlease call 'reset' with a 'new sequence'! eg. `<instance>.reset(new_sequence)``",
        )
    }
}

/// Why a prediction failed.
#[derive(Debug, Clone, Copy)]
pub enum PredictionError {
    /// The generator's pool is used up.
    Limit(PredictionLimitError),
    /// The generator's state could not be recovered.
    Init(InitError),
}

impl PredictionError {
    /// The text shown for this failure.
    pub open spec fn message(self) -> Seq<char> {
        match self {
            PredictionError::Limit(_) => PredictionLimitError::message(),
            PredictionError::Init(e) => e.message(),
        }
    }

    /// Renders the failure as text.
    pub fn to_string(&self) -> (text: String)
        ensures
            text@ == self.message(),
    {
        match self {
            PredictionError::Limit(e) => e.to_string(),
            PredictionError::Init(e) => e.to_string(),
        }
    }
}

/// A result whose failure is one of state recovery, as a result whose
/// failure is any failure of a prediction.
pub open spec fn lift<T>(outcome: Result<T, InitError>) -> Result<T, PredictionError> {
    match outcome {
        Ok(value) => Ok(value),
        Err(e) => Err(PredictionError::Init(e)),
    }
}

} // verus!
