use js_randomness_predictor::budget::{PredictionBudget, MAX_NUM_PREDICTIONS};
use js_randomness_predictor::double::Double;
use js_randomness_predictor::engine::EngineRule;
use js_randomness_predictor::errors::{InitError, PredictionError};
use js_randomness_predictor::solver::SolverReport;
use js_randomness_predictor::xorshift::GeneratorState;
use js_randomness_predictor::{NodeJsMajorVersion, NodePredictor, Predictor};

/// Doubles that the generator of Node.js 24 hands out from `truth`, and a
/// report with which a predictor recovers the generator.
fn observe(truth: GeneratorState, count: usize) -> (Vec<Double>, SolverReport) {
    let mut state = truth;
    let mut observed = vec![];
    for _ in 0..count {
        let word = EngineRule::V8.xor_shift_128_plus_concrete(&mut state);
        observed.push(EngineRule::V8.to_double(word));
    }
    (observed, SolverReport::solved(truth.s0, truth.s1))
}

const TRUTH: GeneratorState = GeneratorState { s0: 0x0123456789abcdef, s1: 0xfedcba9876543210 };

#[test]
fn the_budget_lets_64_samples_through() {
    assert_eq!(MAX_NUM_PREDICTIONS, 64);
    assert_eq!(NodePredictor::MAX_NUM_PREDICTIONS, 64);
    let mut budget = PredictionBudget::new(4);
    assert_eq!(budget.consumed(), 4);
    for taken in 0..60 {
        assert!(!budget.is_exhausted());
        assert!(budget.increment_prediction_count().is_ok());
        assert_eq!(budget.consumed(), 5 + taken);
    }
    assert!(budget.is_exhausted());
    assert!(budget.increment_prediction_count().is_err());
    assert!(budget.increment_prediction_count().is_err());
    assert_eq!(budget.consumed(), 64);
}

#[test]
fn the_budget_restarts_only_when_used_up() {
    let mut budget = PredictionBudget::new(63);
    assert!(!budget.reset(4));
    assert_eq!(budget.consumed(), 63);
    assert!(budget.increment_prediction_count().is_ok());
    assert!(budget.reset(4));
    assert_eq!(budget.consumed(), 4);
    assert!(!budget.is_exhausted());

    let mut budget = PredictionBudget::new(200);
    assert!(budget.is_exhausted());
    assert!(budget.increment_prediction_count().is_err());
    assert_eq!(budget.consumed(), 200);
    assert!(budget.reset(0));
    assert_eq!(budget.consumed(), 0);
}

#[test]
fn observed_and_predicted_never_exceed_64() {
    for observed_count in [1usize, 4, 63] {
        let (observed, report) = observe(TRUTH, observed_count);
        let mut np = NodePredictor::new(NodeJsMajorVersion::V24, observed.clone());
        assert_eq!(np.samples_consumed(), observed_count);

        let mut made = 0;
        for _ in 0..100 {
            match np.predict_next(&report) {
                Ok(_) => made += 1,
                Err(PredictionError::Limit(_)) => {}
                Err(e) => panic!("{}", e.to_string()),
            }
            assert!(observed_count + made <= 64);
            assert_eq!(np.samples_consumed(), observed_count + made);
        }
        assert_eq!(observed_count + made, 64);
        assert!(np.is_exhausted());
        assert_eq!(np.sequence(), &observed[..]);
    }
}

#[test]
fn the_request_past_the_limit_changes_nothing() {
    let (observed, report) = observe(TRUTH, 4);
    let (all, _) = observe(TRUTH, 64);
    let mut np = NodePredictor::new(NodeJsMajorVersion::V24, observed.clone());
    for i in 0..60 {
        assert_eq!(np.predict_next(&report).unwrap(), all[4 + i]);
    }
    for _ in 0..3 {
        assert!(matches!(np.predict_next(&report), Err(PredictionError::Limit(_))));
        assert_eq!(np.samples_consumed(), 64);
        assert!(np.is_solved());
        assert!(np.is_exhausted());
        assert_eq!(np.sequence(), &observed[..]);
        assert_eq!(np.version(), NodeJsMajorVersion::V24);
        assert!(np.pending_constraints().is_none());
    }
}

#[test]
fn a_sequence_as_long_as_the_pool_leaves_nothing_to_predict() {
    let (observed, report) = observe(TRUTH, 64);
    let mut np = NodePredictor::new(NodeJsMajorVersion::V24, observed);
    assert!(np.is_exhausted());
    assert!(np.pending_constraints().is_none());
    assert!(matches!(np.predict_next(&report), Err(PredictionError::Limit(_))));
    assert!(!np.is_solved());
    assert_eq!(np.samples_consumed(), 64);
}

#[test]
fn reset_before_exhaustion_is_a_no_op() {
    let (observed, report) = observe(TRUTH, 4);
    let (all, _) = observe(TRUTH, 64);
    let other = GeneratorState { s0: 77, s1: 99 };
    let (other_observed, _) = observe(other, 5);

    // before any prediction
    let mut np = NodePredictor::new(NodeJsMajorVersion::V24, observed.clone());
    assert!(np.reset(other_observed.clone()).is_ok());
    assert_eq!(np.sequence(), &observed[..]);
    assert_eq!(np.samples_consumed(), 4);
    assert!(!np.is_solved());

    // in the middle, and one before the end
    for made in 0..60 {
        if made == 10 || made == 59 {
            assert!(np.reset(other_observed.clone()).is_ok());
            assert_eq!(np.sequence(), &observed[..]);
            assert_eq!(np.samples_consumed(), 4 + made);
            assert!(np.is_solved());
        }
        assert_eq!(np.predict_next(&report).unwrap(), all[4 + made]);
    }
}

#[test]
fn reset_after_exhaustion_starts_anew() {
    let (observed, report) = observe(TRUTH, 4);
    let other = GeneratorState { s0: 77, s1: 99 };
    let (other_observed, other_report) = observe(other, 5);
    let (other_all, _) = observe(other, 64);

    let mut np = NodePredictor::new(NodeJsMajorVersion::V24, observed);
    for _ in 0..60 {
        np.predict_next(&report).unwrap();
    }
    assert!(np.is_exhausted());
    assert!(np.reset(other_observed.clone()).is_ok());
    assert_eq!(np.sequence(), &other_observed[..]);
    assert_eq!(np.samples_consumed(), 5);
    assert!(!np.is_solved());
    assert!(!np.is_exhausted());
    assert_eq!(np.version(), NodeJsMajorVersion::V24);
    assert!(np.pending_constraints().is_some());

    for i in 0..59 {
        assert_eq!(np.predict_next(&other_report).unwrap(), other_all[5 + i]);
    }
    assert!(matches!(np.predict_next(&other_report), Err(PredictionError::Limit(_))));
}

#[test]
fn a_request_that_fails_in_recovery_counts_nothing() {
    let (observed, report) = observe(TRUTH, 4);
    let (all, _) = observe(TRUTH, 64);
    let mut np = NodePredictor::new(NodeJsMajorVersion::V24, observed);
    for _ in 0..5 {
        assert!(matches!(
            np.predict_next(&SolverReport::unsat()),
            Err(PredictionError::Init(InitError::Unsat))
        ));
        assert_eq!(np.samples_consumed(), 4);
        assert!(!np.is_solved());
        assert!(np.pending_constraints().is_some());
    }
    assert_eq!(np.predict_next(&report).unwrap(), all[4]);
    assert_eq!(np.samples_consumed(), 5);
}

#[test]
fn the_last_sample_of_the_pool_survives_a_failed_request() {
    let (observed, report) = observe(TRUTH, 63);
    let (all, _) = observe(TRUTH, 64);
    let mut np = NodePredictor::new(NodeJsMajorVersion::V24, observed);
    assert!(matches!(
        np.predict_next(&SolverReport::unsat()),
        Err(PredictionError::Init(InitError::Unsat))
    ));
    assert_eq!(np.samples_consumed(), 63);
    assert_eq!(np.predict_next(&report).unwrap(), all[63]);
    assert_eq!(np.samples_consumed(), 64);
    assert!(matches!(np.predict_next(&report), Err(PredictionError::Limit(_))));
    assert_eq!(np.samples_consumed(), 64);
}

#[test]
fn the_legacy_rule_holds_before_version_24() {
    let mut state = TRUTH;
    let mut observed = vec![];
    for _ in 0..4 {
        let word = EngineRule::LegacyNode.xor_shift_128_plus_concrete(&mut state);
        observed.push(EngineRule::LegacyNode.to_double(word));
    }
    let next = EngineRule::LegacyNode.to_double(state.s0);
    let report = SolverReport::solved(TRUTH.s0, TRUTH.s1);
    for version in [NodeJsMajorVersion::V0, NodeJsMajorVersion::V12, NodeJsMajorVersion::V23] {
        let mut np = NodePredictor::new(version, observed.clone());
        assert_eq!(np.predict_next(&report).unwrap(), next);
    }
    let mut np = NodePredictor::new(NodeJsMajorVersion::V24, observed.clone());
    assert_eq!(np.predict_next(&report).unwrap(), EngineRule::V8.to_double(state.s0));
}
