//! What a run of a predictor amounts to: the predictions, and whether they
//! are the ones that were expected.
use vstd::prelude::*;
use crate::double::Double;

verus! {

/// The outcome of one run.
#[derive(Debug)]
pub struct PredictionResult {
    /// The engine's name.
    pub environment: String,
    /// The observed doubles.
    pub sequence: Vec<Double>,
    /// The predicted doubles.
    pub predictions: Vec<Double>,
    /// The doubles that the caller expected; empty where none were given.
    pub expected: Vec<Double>,
    /// Whether expected doubles were given and each prediction equals the
    /// expected double in its place.
    pub is_accurate: bool,
}

/// Whether each prediction equals the expected double in its place.
pub open spec fn all_match(predictions: Seq<Double>, expected: Seq<Double>) -> bool {
    forall|i: int|
        0 <= i < predictions.len() ==> (#[trigger] predictions[i]).same_number(expected[i])
}

/// The number of predictions that a run makes: as many as doubles are
/// expected or, where none are, as many as asked for.
pub fn predictions_to_make(requested: usize, expected: &Option<Vec<Double>>) -> (count: usize)
    ensures
        count == match *expected {
            Some(e) => e@.len(),
            None => requested as nat,
        },
{
    match expected {
        Some(e) => e.len(),
        None => requested,
    }
}

/// Whether each prediction equals the expected double in its place.
pub fn predictions_match(predictions: &Vec<Double>, expected: &Vec<Double>) -> (matching: bool)
    requires
        predictions@.len() <= expected@.len(),
    ensures
        matching == all_match(predictions@, expected@),
{
    let mut i: usize = 0;
    while i < predictions.len()
        invariant
            i <= predictions@.len() <= expected@.len(),
            forall|k: int| 0 <= k < i ==> (#[trigger] predictions@[k]).same_number(expected@[k]),
        decreases predictions@.len() - i,
    {
        if !predictions[i].equals(expected[i]) {
            return false;
        }
        i = i + 1;
    }
    true
}

impl PredictionResult {
    /// Whether the result shows what was expected and whether it was met: it
    /// does where expected doubles were given.
    pub open spec fn has_expected(&self) -> bool {
        self.expected@.len() > 0
    }

    /// The result of a run. Without expected doubles, or with none, the
    /// result holds none and is not accurate.
    pub fn new(
        environment: String,
        sequence: Vec<Double>,
        predictions: Vec<Double>,
        expected: Option<Vec<Double>>,
    ) -> (result: PredictionResult)
        requires
            expected matches Some(e) ==> predictions@.len() <= e@.len(),
        ensures
            result.environment == environment,
            result.sequence == sequence,
            result.predictions == predictions,
            result.expected@ == match expected {
                Some(e) => e@,
                None => Seq::<Double>::empty(),
            },
            result.is_accurate == (result.has_expected() && all_match(
                predictions@,
                result.expected@,
            )),
    {
        let expected: Vec<Double> = match expected {
            Some(e) => e,
            None => Vec::new(),
        };
        let is_accurate: bool = expected.len() > 0 && predictions_match(&predictions, &expected);
        PredictionResult { environment, sequence, predictions, expected, is_accurate }
    }

    /// Whether the result shows what was expected and whether it was met.
    pub fn shows_expected(&self) -> (shown: bool)
        ensures
            shown == self.has_expected(),
    {
        self.expected.len() > 0
    }
}

} // verus!
