//! Recovers the hidden xorshift128+ state behind a JavaScript engine's
//! `Math.random()` from a few observed outputs and predicts what comes next.
//!
//! A predictor is made from the observed doubles, each given by its bits.
//! Recovering the state takes a bit-vector solver, which the caller brings:
//! while a predictor is not solved, `constraints()` is the system to solve,
//! and the solver's report on it goes into `predict_next`. The first
//! prediction recovers the state from the report; all later ones step the
//! generator and read no report. Observed doubles of which one lies outside
//! `[0, 1)` fit no generator: there is no system to solve, and every
//! prediction fails with `InitError::Unsat`.
pub mod budget;
pub mod chrome_predictor;
pub mod double;
pub mod engine;
pub mod errors;
pub mod firefox_predictor;
pub mod laws;
pub mod node_predictor;
pub mod nodejs_major_version;
pub mod predictor;
pub mod recovery;
pub mod report;
pub mod safari_predictor;
pub mod solver;
pub mod symbolic;
pub mod v8predictor;
pub mod xorshift;

pub use chrome_predictor::ChromePredictor;
pub use firefox_predictor::FirefoxPredictor;
pub use node_predictor::NodePredictor;
pub use nodejs_major_version::NodeJsMajorVersion;
pub use predictor::Predictor;
pub use safari_predictor::SafariPredictor;
pub use v8predictor::V8Predictor;
