//! The protocol that every predictor follows: solve once, fast-forward over
//! what was observed, and from then on step the generator itself.
use vstd::prelude::*;
use crate::double::Double;
use crate::engine::{reproduces, EngineRule, Replay};
use crate::errors::InitError;
use crate::solver::{interpret, SolverReport};
use crate::symbolic::{
    all_unit, encode, encoding_of, is_unit_sequence, solves, ConstraintSystem, SystemView,
};
use crate::xorshift::{transition_back_n, transition_n, GeneratorState};

verus! {

/// The state from which predictions start, given the words that the solver
/// reports for the state after the last tick of the encoding. In reverse
/// replay those words are the state that gave the first observed double, so
/// the generator is stepped past everything observed; in forward replay they
/// are the state after the last observed double.
pub open spec fn ready_state(rule: EngineRule, words: GeneratorState, observed: nat)
    -> GeneratorState {
    match rule.replay() {
        Replay::Reverse => rule.state_after(words, observed),
        Replay::Forward => words,
    }
}

/// The state that gave the first observed double, given the words that the
/// solver reports for the state after the last tick of the encoding.
pub open spec fn origin_state(rule: EngineRule, words: GeneratorState, observed: nat)
    -> GeneratorState {
    match rule.replay() {
        Replay::Reverse => words,
        Replay::Forward => transition_back_n(words, observed),
    }
}

/// Whether the words that a solver reports for the state terms stand for a
/// generator that accounts for every observed double: replayed from the
/// state that gave the first of them, the generator hands out, tick by
/// tick, a word that explains the double observed.
pub fn reproduces_observed(rule: EngineRule, words: GeneratorState, observed: &[Double]) -> (ok:
    bool)
    ensures
        ok == reproduces(rule, origin_state(rule, words, observed@.len()), observed@),
{
    let count: usize = observed.len();
    let mut state: GeneratorState = words;
    match rule.replay_direction() {
        Replay::Reverse => {},
        Replay::Forward => {
            let mut back: usize = 0;
            while back < count
                invariant
                    back <= count,
                    state == transition_back_n(words, back as nat),
                decreases count - back,
            {
                let _ = state.xor_shift_128_plus_reverse();
                back = back + 1;
            }
        },
    }
    let ghost origin = state;
    assert(origin == origin_state(rule, words, count as nat));
    let mut i: usize = 0;
    while i < count
        invariant
            i <= count,
            count == observed@.len(),
            origin == origin_state(rule, words, count as nat),
            state == rule.state_after(origin, i as nat),
            forall|j: int|
                0 <= j < i ==> rule.explains(
                    rule.emitted(rule.state_after(origin, j as nat)),
                    #[trigger] observed@[j],
                ),
        decreases count - i,
    {
        let word: u64 = rule.xor_shift_128_plus_concrete(&mut state);
        let sample: Double = observed[i];
        if !sample.in_unit_interval() || rule.mantissa_of_word(word) != rule.recover_mantissa(
            sample,
        ) {
            assert(!rule.explains(
                rule.emitted(rule.state_after(origin, i as nat)),
                observed@[i as int],
            ));
            return false;
        }
        i = i + 1;
    }
    true
}

/// A predictor's state as contracts see it. The engine's rule is no part of
/// it: each predictor has its own.
pub struct RecoveryView {
    /// The observed doubles, oldest first.
    pub observed: Seq<Double>,
    /// Whether the generator state was recovered.
    pub solved: bool,
    /// The generator state; it counts only once solved.
    pub state: GeneratorState,
}

impl RecoveryView {
    /// The view of a predictor that was just made.
    pub open spec fn fresh(observed: Seq<Double>) -> RecoveryView {
        RecoveryView { observed, solved: false, state: GeneratorState { s0: 0, s1: 0 } }
    }

    /// The constraint system that stands for the observed doubles under the
    /// rule; none where a double lies outside `[0, 1)`.
    pub open spec fn encoding(self, rule: EngineRule) -> Option<SystemView> {
        if all_unit(self.observed) {
            Some(encoding_of(rule, self.observed))
        } else {
            None
        }
    }

    /// The constraint system that a solver must be asked before the next
    /// request: none once the state is recovered, and none where a double
    /// lies outside `[0, 1)`.
    pub open spec fn pending(self, rule: EngineRule) -> Option<SystemView> {
        if self.solved {
            None
        } else {
            self.encoding(rule)
        }
    }

    /// The view after an attempt to recover the state, with the attempt's
    /// result. A solved predictor ignores the report. Observed doubles of
    /// which one lies outside `[0, 1)` fit no generator, whatever the
    /// report. A failure changes nothing.
    pub open spec fn recover(self, rule: EngineRule, report: SolverReport) -> (
        RecoveryView,
        Result<(), InitError>,
    ) {
        if self.solved {
            (self, Ok(()))
        } else if !all_unit(self.observed) {
            (self, Err(InitError::Unsat))
        } else {
            match interpret(report) {
                Err(e) => (self, Err(e)),
                Ok(words) => (
                    RecoveryView {
                        solved: true,
                        state: ready_state(rule, words, self.observed.len()),
                        ..self
                    },
                    Ok(()),
                ),
            }
        }
    }

    /// The view after a request for the next double, with what the request
    /// returns: recovery first, then one tick.
    pub open spec fn predict(self, rule: EngineRule, report: SolverReport) -> (
        RecoveryView,
        Result<Double, InitError>,
    ) {
        let (ready, recovered) = self.recover(rule, report);
        match recovered {
            Err(e) => (ready, Err(e)),
            Ok(_) => (
                RecoveryView { state: rule.next_state(ready.state), ..ready },
                Ok(rule.decode(rule.emitted(ready.state))),
            ),
        }
    }
}

/// Observed doubles, the recovered generator state, and whether it was
/// recovered yet. The engine's rule comes with each call: a predictor of one
/// engine always hands in the same.
#[derive(Debug)]
pub struct StateRecovery {
    observed: Vec<Double>,
    solved: bool,
    state: GeneratorState,
}

impl View for StateRecovery {
    type V = RecoveryView;

    closed spec fn view(&self) -> RecoveryView {
        RecoveryView { observed: self.observed@, solved: self.solved, state: self.state }
    }
}

impl StateRecovery {
    #[verifier::type_invariant]
    spec fn has_observations(&self) -> bool {
        self.observed@.len() >= 1
    }

    /// The state of a predictor for the given observed doubles, not solved
    /// yet.
    pub fn new(observed: Vec<Double>) -> (recovery: StateRecovery)
        requires
            observed@.len() >= 1,
        ensures
            recovery@ == RecoveryView::fresh(observed@),
    {
        StateRecovery { observed, solved: false, state: GeneratorState::zero() }
    }

    /// The observed doubles, oldest first.
    pub fn sequence(&self) -> (observed: &[Double])
        ensures
            observed@ == self@.observed,
            observed@.len() >= 1,
    {
        proof {
            use_type_invariant(self);
        }
        self.observed.as_slice()
    }

    /// Whether the generator state was recovered.
    pub fn is_solved(&self) -> (solved: bool)
        ensures
            solved == self@.solved,
    {
        self.solved
    }

    /// The constraint system whose solution is the generator's state: what a
    /// solver must be asked while the predictor is not solved. There is
    /// none where a double lies outside `[0, 1)`.
    pub fn constraints(&self, rule: EngineRule) -> (encoded: Option<ConstraintSystem>)
        ensures
            encoded.is_some() == self@.encoding(rule).is_some(),
            encoded matches Some(system) ==> {
                &&& self@.encoding(rule) == Some(system@)
                &&& system@.wf()
                &&& system@.equations.len() == self@.observed.len()
                &&& forall|init: GeneratorState| #[trigger]
                    system@.final_state(init) == transition_n(init, self@.observed.len())
                &&& forall|init: GeneratorState| #[trigger]
                    system@.satisfied_by(init) == solves(rule, self@.observed, init)
            },
    {
        encode(rule, &self.observed)
    }

    /// Recovers the generator state from the solver's report on
    /// `constraints()`, once: a solved predictor returns at once, whatever
    /// the report holds. Where a double lies outside `[0, 1)` no solver was
    /// asked and the report is not read: such doubles fit no generator.
    pub fn solve_symbolic_state(&mut self, rule: EngineRule, report: &SolverReport) -> (outcome:
        Result<(), InitError>)
        ensures
            final(self)@ == old(self)@.recover(rule, *report).0,
            outcome == old(self)@.recover(rule, *report).1,
    {
        if self.solved {
            return Ok(());
        }
        if !is_unit_sequence(self.observed.as_slice()) {
            return Err(InitError::Unsat);
        }
        let words: GeneratorState = match report.extract_state() {
            Err(e) => {
                return Err(e);
            },
            Ok(words) => words,
        };
        let mut state: GeneratorState = words;
        match rule.replay_direction() {
            Replay::Forward => {},
            Replay::Reverse => {
                let count: usize = self.observed.len();
                let mut ticks: usize = 0;
                while ticks < count
                    invariant
                        ticks <= count,
                        state == rule.state_after(words, ticks as nat),
                        rule.replay() == Replay::Reverse,
                    decreases count - ticks,
                {
                    let _ = rule.xor_shift_128_plus_concrete(&mut state);
                    ticks = ticks + 1;
                }
            },
        }
        proof {
            use_type_invariant(&*self);
        }
        self.state = state;
        self.solved = true;
        Ok(())
    }

    /// Replaces the observed doubles and forgets that the state was
    /// recovered, so that the next prediction asks a solver again.
    pub fn restart(&mut self, observed: Vec<Double>)
        requires
            observed@.len() >= 1,
        ensures
            final(self)@ == (RecoveryView { observed: observed@, solved: false, ..old(self)@ }),
    {
        self.observed = observed;
        self.solved = false;
    }

    /// Predicts the generator's next double. The first call recovers the
    /// state from the solver's report on `constraints()`; later calls only
    /// step the generator and do not read the report.
    pub fn predict_next(&mut self, rule: EngineRule, report: &SolverReport) -> (outcome: Result<
        Double,
        InitError,
    >)
        ensures
            final(self)@ == old(self)@.predict(rule, *report).0,
            outcome == old(self)@.predict(rule, *report).1,
    {
        match self.solve_symbolic_state(rule, report) {
            Err(e) => {
                return Err(e);
            },
            Ok(_) => {},
        }
        proof {
            use_type_invariant(&*self);
        }
        let mut state: GeneratorState = self.state;
        let word: u64 = rule.xor_shift_128_plus_concrete(&mut state);
        self.state = state;
        Ok(rule.to_double(word))
    }
}

} // verus!
