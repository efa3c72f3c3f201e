use js_randomness_predictor::budget::{plan_predictions, PredictionPlan};
use js_randomness_predictor::double::Double;
use js_randomness_predictor::report::{predictions_match, predictions_to_make, PredictionResult};

fn double(value: f64) -> Double {
    Double::from_bits(value.to_bits())
}

fn doubles(values: &[f64]) -> Vec<Double> {
    values.iter().map(|v| double(*v)).collect()
}

#[test]
fn doubles_are_equal_as_numbers() {
    let values = [
        0.0,
        -0.0,
        0.5,
        -0.5,
        1.0,
        0.9999999999999999,
        5e-324,
        -5e-324,
        f64::MAX,
        f64::MIN_POSITIVE,
        f64::INFINITY,
        f64::NEG_INFINITY,
        f64::NAN,
        -f64::NAN,
        f64::from_bits(0x7FF0_0000_0000_0001),
        f64::from_bits(0xFFFF_FFFF_FFFF_FFFF),
    ];
    for a in values {
        for b in values {
            assert_eq!(double(a).equals(double(b)), a == b);
        }
    }
    assert!(double(0.0).equals(double(-0.0)));
    assert!(!double(f64::NAN).equals(double(f64::NAN)));
    assert!(!double(0.5).equals(double(0.5000000000000001)));
}

#[test]
fn a_run_makes_as_many_predictions_as_are_expected() {
    assert_eq!(predictions_to_make(10, &None), 10);
    assert_eq!(predictions_to_make(0, &None), 0);
    assert_eq!(predictions_to_make(10, &Some(doubles(&[0.1, 0.2, 0.3]))), 3);
    assert_eq!(predictions_to_make(10, &Some(vec![])), 0);
}

#[test]
fn predictions_match_where_each_equals_the_expected_double() {
    let predictions = doubles(&[0.25, 0.5, 0.75]);
    assert!(predictions_match(&predictions, &doubles(&[0.25, 0.5, 0.75])));
    assert!(predictions_match(&predictions, &doubles(&[0.25, 0.5, 0.75, 0.1])));
    assert!(!predictions_match(&predictions, &doubles(&[0.25, 0.5, 0.7500000000000001])));
    assert!(!predictions_match(&predictions, &doubles(&[0.5, 0.25, 0.75])));
    assert!(predictions_match(&vec![], &vec![]));
    assert!(predictions_match(&doubles(&[0.0]), &doubles(&[-0.0])));
    assert!(!predictions_match(&doubles(&[0.5]), &doubles(&[f64::NAN])));
}

#[test]
fn a_result_is_accurate_only_against_expected_doubles() {
    let sequence = doubles(&[0.1, 0.2]);
    let predictions = doubles(&[0.25, 0.5]);

    let result = PredictionResult::new(
        "Chrome".to_string(),
        sequence.clone(),
        predictions.clone(),
        Some(doubles(&[0.25, 0.5])),
    );
    assert!(result.is_accurate);
    assert!(result.shows_expected());
    assert_eq!(result.environment, "Chrome");
    assert_eq!(result.sequence, sequence);
    assert_eq!(result.predictions, predictions);
    assert_eq!(result.expected, doubles(&[0.25, 0.5]));

    let result = PredictionResult::new(
        "Chrome".to_string(),
        sequence.clone(),
        predictions.clone(),
        Some(doubles(&[0.25, 0.75])),
    );
    assert!(!result.is_accurate);
    assert!(result.shows_expected());

    let result =
        PredictionResult::new("Chrome".to_string(), sequence.clone(), predictions.clone(), None);
    assert!(!result.is_accurate);
    assert!(!result.shows_expected());
    assert!(result.expected.is_empty());

    let result = PredictionResult::new("Chrome".to_string(), sequence, vec![], Some(vec![]));
    assert!(!result.is_accurate);
    assert!(!result.shows_expected());
}

#[test]
fn predictions_of_a_node_run_are_fitted_to_the_pool() {
    assert_eq!(plan_predictions(4, 10), PredictionPlan::Full(10));
    assert_eq!(plan_predictions(4, 60), PredictionPlan::Full(60));
    assert_eq!(plan_predictions(4, 61), PredictionPlan::Truncated(60));
    assert_eq!(plan_predictions(60, 10), PredictionPlan::Truncated(4));
    assert_eq!(plan_predictions(63, 1), PredictionPlan::Full(1));
    assert_eq!(plan_predictions(63, 2), PredictionPlan::Truncated(1));
    assert_eq!(plan_predictions(0, 0), PredictionPlan::Full(0));
    assert_eq!(plan_predictions(0, usize::MAX), PredictionPlan::Truncated(64));
    assert_eq!(plan_predictions(64, 0), PredictionPlan::SequenceTooLong);
    assert_eq!(plan_predictions(64, 10), PredictionPlan::SequenceTooLong);
    assert_eq!(plan_predictions(usize::MAX, usize::MAX), PredictionPlan::SequenceTooLong);
}
