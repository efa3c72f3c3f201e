use js_randomness_predictor::errors::{InitError, PredictionError, PredictionLimitError};

#[test]
fn init_errors_say_what_failed() {
    assert_eq!(InitError::Unsat.to_string(), "Solver returned UNSAT");
    assert_eq!(InitError::MissingModel.to_string(), "Failed to get model from solver");
    assert_eq!(InitError::EvalFailed("sym_state_0").to_string(), "Failed to evaluate sym_state_0");
    assert_eq!(
        InitError::ConvertFailed("sym_state_1").to_string(),
        "Failed to convert sym_state_1 to u64"
    );
}

#[test]
fn limit_error_points_to_reset() {
    let text = "Prediction count exceeded maximum. 'Initial sequence length' + 'number of predictions' cannot exceed 64! See README for more info!\nPlease call 'reset' with a 'new sequence'! eg. `<instance>.reset(new_sequence)``";
    assert_eq!(PredictionLimitError.to_string(), text);
    assert_eq!(PredictionError::Limit(PredictionLimitError).to_string(), text);
}

#[test]
fn prediction_errors_carry_the_text_of_their_cause() {
    assert_eq!(PredictionError::Init(InitError::Unsat).to_string(), "Solver returned UNSAT");
    assert_eq!(
        PredictionError::Init(InitError::EvalFailed("sym_state_1")).to_string(),
        "Failed to evaluate sym_state_1"
    );
}
