//! What holds of recovery and prediction as a whole: that a solution of the
//! encoding is a state which reproduces what was observed, that predictions
//! replay the generator from there, and that the budget of a Node.js
//! predictor is kept.
use vstd::prelude::*;
use crate::double::Double;
use crate::engine::{
    lemma_decode_then_recover, lemma_explains_own_outputs, reproduces, EngineRule, Replay,
};
use crate::budget::MAX_NUM_PREDICTIONS;
use crate::errors::{lift, InitError, PredictionError, PredictionLimitError};
use crate::node_predictor::NodeView;
use crate::recovery::{origin_state, ready_state, RecoveryView};
use crate::solver::SolverReport;
use crate::symbolic::{
    all_unit, explains_prefix, lemma_no_solution_outside_unit_interval, replay_order, solves,
};
use crate::xorshift::{
    lemma_back_from_ahead, lemma_back_n_undoes_n, lemma_n_undoes_back_n, transition_back_n,
    transition_n, GeneratorState,
};

verus! {

/// The words for the two unknowns of the encoding under which the generator
/// starts in `origin`.
pub open spec fn unknowns_for(rule: EngineRule, origin: GeneratorState, observed: nat)
    -> GeneratorState {
    match rule.replay() {
        Replay::Reverse => transition_back_n(origin, observed),
        Replay::Forward => origin,
    }
}

/// A generator's states in the direction of replay are ticks, or steps
/// backwards, of the recurrence.
pub proof fn lemma_state_after_iterates(rule: EngineRule, s: GeneratorState, n: nat)
    ensures
        rule.replay() == Replay::Reverse ==> rule.state_after(s, n) == transition_back_n(s, n),
        rule.replay() == Replay::Forward ==> rule.state_after(s, n) == transition_n(s, n),
    decreases n,
{
    if n > 0 {
        lemma_state_after_iterates(rule, s, (n - 1) as nat);
    }
}

/// A generator's ticks add up.
pub proof fn lemma_state_after_adds(rule: EngineRule, s: GeneratorState, a: nat, b: nat)
    ensures
        rule.state_after(rule.state_after(s, a), b) == rule.state_after(s, a + b),
    decreases b,
{
    if b > 0 {
        lemma_state_after_adds(rule, s, a, (b - 1) as nat);
    }
}

/// Predictions start where the observed doubles end: the state from which a
/// solved predictor goes on is the state that gave the first observed
/// double, stepped once for each observed double.
pub proof fn lemma_ready_follows_origin(rule: EngineRule, words: GeneratorState, observed: nat)
    ensures
        ready_state(rule, words, observed) == rule.state_after(
            origin_state(rule, words, observed),
            observed,
        ),
{
    if rule.replay() == Replay::Forward {
        lemma_state_after_iterates(rule, transition_back_n(words, observed), observed);
        lemma_n_undoes_back_n(words, observed);
    }
}

/// What `explains_prefix` says of each double.
pub proof fn lemma_prefix_explains_each(
    rule: EngineRule,
    order: Seq<Double>,
    init: GeneratorState,
    n: nat,
    j: nat,
)
    requires
        explains_prefix(rule, order, init, n),
        1 <= j <= n,
    ensures
        rule.explains(rule.word_of(transition_n(init, j)), order[j - 1]),
    decreases n,
{
    if j < n {
        lemma_prefix_explains_each(rule, order, init, (n - 1) as nat, j);
    }
}

/// `explains_prefix` holds where each double is explained.
pub proof fn lemma_each_explained_is_prefix(
    rule: EngineRule,
    order: Seq<Double>,
    init: GeneratorState,
    n: nat,
)
    requires
        forall|j: nat|
            1 <= j <= n ==> rule.explains(
                rule.word_of(#[trigger] transition_n(init, j)),
                order[j - 1],
            ),
    ensures
        explains_prefix(rule, order, init, n),
    decreases n,
{
    if n > 0 {
        lemma_each_explained_is_prefix(rule, order, init, (n - 1) as nat);
        assert(rule.explains(rule.word_of(transition_n(init, n)), order[n - 1]));
    }
}

/// The word that tick `i` of a generator hands out, where the generator's
/// origin belongs to the unknowns `init` of an encoding of `k` doubles: it
/// is the word of the state that the encoding demands an explanation from.
proof fn lemma_emitted_word(rule: EngineRule, init: GeneratorState, k: nat, i: nat)
    requires
        i < k,
    ensures
        rule.replay() == Replay::Reverse ==> rule.emitted(
            rule.state_after(origin_state(rule, transition_n(init, k), k), i),
        ) == rule.word_of(transition_n(init, (k - i) as nat)),
        rule.replay() == Replay::Forward ==> rule.emitted(
            rule.state_after(origin_state(rule, transition_n(init, k), k), i),
        ) == rule.word_of(transition_n(init, i + 1)),
{
    let words = transition_n(init, k);
    let origin = origin_state(rule, words, k);
    lemma_state_after_iterates(rule, origin, i);
    match rule.replay() {
        Replay::Reverse => {
            lemma_back_from_ahead(init, k, i);
        },
        Replay::Forward => {
            lemma_back_n_undoes_n(init, k);
        },
    }
}

/// Soundness of the encoding. Words that solve the encoding of the observed
/// doubles belong to a generator that accounts for every one of them: the
/// state which the solver's model gives for the state terms determines an
/// origin that reproduces what was observed.
pub proof fn lemma_solution_reproduces(
    rule: EngineRule,
    observed: Seq<Double>,
    init: GeneratorState,
)
    requires
        solves(rule, observed, init),
    ensures
        reproduces(
            rule,
            origin_state(rule, transition_n(init, observed.len()), observed.len()),
            observed,
        ),
{
    let k = observed.len();
    let order = replay_order(rule, observed);
    let origin = origin_state(rule, transition_n(init, k), k);
    assert forall|i: int| 0 <= i < observed.len() implies rule.explains(
        rule.emitted(rule.state_after(origin, i as nat)),
        #[trigger] observed[i],
    ) by {
        lemma_emitted_word(rule, init, k, i as nat);
        match rule.replay() {
            Replay::Reverse => {
                lemma_prefix_explains_each(rule, order, init, k, (k - i) as nat);
                assert(order[k - i - 1] == observed[i]);
            },
            Replay::Forward => {
                lemma_prefix_explains_each(rule, order, init, k, (i + 1) as nat);
            },
        }
    }
}

/// Completeness of the encoding. Where some generator accounts for the
/// observed doubles, the encoding has a solution, under which the state
/// terms take the values from which recovery finds that generator again.
pub proof fn lemma_reproducing_origin_solves(
    rule: EngineRule,
    observed: Seq<Double>,
    origin: GeneratorState,
)
    requires
        reproduces(rule, origin, observed),
    ensures
        solves(rule, observed, unknowns_for(rule, origin, observed.len())),
        origin_state(
            rule,
            transition_n(unknowns_for(rule, origin, observed.len()), observed.len()),
            observed.len(),
        ) == origin,
{
    let k = observed.len();
    let order = replay_order(rule, observed);
    let init = unknowns_for(rule, origin, k);
    match rule.replay() {
        Replay::Reverse => {
            lemma_n_undoes_back_n(origin, k);
        },
        Replay::Forward => {
            lemma_back_n_undoes_n(origin, k);
        },
    }
    assert(origin_state(rule, transition_n(init, k), k) == origin);
    assert forall|j: nat| 1 <= j <= k implies rule.explains(
        rule.word_of(#[trigger] transition_n(init, j)),
        order[j - 1],
    ) by {
        match rule.replay() {
            Replay::Reverse => {
                let i = (k - j) as nat;
                lemma_emitted_word(rule, init, k, i);
                assert(order[j - 1] == observed[i as int]);
            },
            Replay::Forward => {
                let i = (j - 1) as nat;
                lemma_emitted_word(rule, init, k, i);
                assert(order[j - 1] == observed[i as int]);
            },
        }
    }
    lemma_each_explained_is_prefix(rule, order, init, k);
}

/// The words that a solver reports stand for a generator that accounts for
/// the observed doubles exactly when they are the state terms under a
/// solution of the encoding.
pub proof fn lemma_words_reproduce_iff_solution(
    rule: EngineRule,
    observed: Seq<Double>,
    words: GeneratorState,
)
    ensures
        reproduces(rule, origin_state(rule, words, observed.len()), observed) <==> solves(
            rule,
            observed,
            transition_back_n(words, observed.len()),
        ),
        transition_n(transition_back_n(words, observed.len()), observed.len()) == words,
{
    let k = observed.len();
    let init = transition_back_n(words, k);
    let origin = origin_state(rule, words, k);
    lemma_n_undoes_back_n(words, k);
    if solves(rule, observed, init) {
        lemma_solution_reproduces(rule, observed, init);
    }
    if reproduces(rule, origin, observed) {
        lemma_reproducing_origin_solves(rule, observed, origin);
    }
}

/// A generator accounts for its own outputs.
pub proof fn lemma_own_outputs_reproduce(rule: EngineRule, origin: GeneratorState, n: nat)
    ensures
        reproduces(rule, origin, rule.outputs(origin, n)),
{
    let observed = rule.outputs(origin, n);
    assert forall|i: int| 0 <= i < observed.len() implies rule.explains(
        rule.emitted(rule.state_after(origin, i as nat)),
        #[trigger] observed[i],
    ) by {
        lemma_decode_then_recover(rule, rule.emitted(rule.state_after(origin, i as nat)));
    }
}

/// Where the observed doubles are outputs of some generator, a generator
/// that accounts for them hands out exactly those doubles.
pub proof fn lemma_reproduces_outputs_exactly(
    rule: EngineRule,
    truth: GeneratorState,
    candidate: GeneratorState,
    n: nat,
)
    requires
        reproduces(rule, candidate, rule.outputs(truth, n)),
    ensures
        rule.outputs(candidate, n) == rule.outputs(truth, n),
{
    let observed = rule.outputs(truth, n);
    assert forall|i: int| 0 <= i < n implies rule.outputs(candidate, n)[i] == observed[i] by {
        assert(rule.explains(rule.emitted(rule.state_after(candidate, i as nat)), observed[i]));
        lemma_explains_own_outputs(
            rule,
            rule.emitted(rule.state_after(candidate, i as nat)),
            rule.emitted(rule.state_after(truth, i as nat)),
        );
    }
    assert(rule.outputs(candidate, n) =~= observed);
}

/// Round trip. Let the observed doubles be the first `k` outputs of a
/// generator that starts in `truth`. Then the encoding of the observed has a
/// solution. Whatever solution `init` a solver finds, the state at which
/// recovery arrives from it belongs to a generator whose first `k` outputs
/// are the observed doubles. And where `truth` is the only state with those
/// first `k` outputs, the next `m` predictions are the generator's outputs
/// `k` to `k + m`.
pub proof fn lemma_round_trip(
    rule: EngineRule,
    truth: GeneratorState,
    k: nat,
    m: nat,
    init: GeneratorState,
)
    requires
        solves(rule, rule.outputs(truth, k), init),
    ensures
        solves(rule, rule.outputs(truth, k), unknowns_for(rule, truth, k)),
        rule.outputs(origin_state(rule, transition_n(init, k), k), k) == rule.outputs(truth, k),
        (forall|other: GeneratorState| #[trigger]
            rule.outputs(other, k) == rule.outputs(truth, k) ==> other == truth)
            ==> rule.outputs(ready_state(rule, transition_n(init, k), k), m) == rule.outputs(
            truth,
            k + m,
        ).subrange(k as int, (k + m) as int),
{
    let observed = rule.outputs(truth, k);
    let words = transition_n(init, k);
    let origin = origin_state(rule, words, k);
    lemma_own_outputs_reproduce(rule, truth, k);
    lemma_reproducing_origin_solves(rule, observed, truth);
    lemma_solution_reproduces(rule, observed, init);
    lemma_reproduces_outputs_exactly(rule, truth, origin, k);
    if forall|other: GeneratorState| #[trigger]
        rule.outputs(other, k) == rule.outputs(truth, k) ==> other == truth {
        assert(origin == truth);
        lemma_ready_follows_origin(rule, words, k);
        let ready = ready_state(rule, words, k);
        assert forall|j: int| 0 <= j < m implies rule.outputs(ready, m)[j] == rule.outputs(
            truth,
            k + m,
        ).subrange(k as int, (k + m) as int)[j] by {
            lemma_state_after_adds(rule, truth, k, j as nat);
        }
        assert(rule.outputs(ready, m) =~= rule.outputs(truth, k + m).subrange(k as int, (k + m) as int));
    }
}

impl RecoveryView {
    /// The view after `n` requests for the next double.
    pub open spec fn after_predictions(self, rule: EngineRule, report: SolverReport, n: nat)
        -> RecoveryView
        decreases n,
    {
        if n == 0 {
            self
        } else {
            self.after_predictions(rule, report, (n - 1) as nat).predict(rule, report).0
        }
    }

    /// What request number `n`, counted from 0, returns.
    pub open spec fn nth_prediction(self, rule: EngineRule, report: SolverReport, n: nat)
        -> Result<Double, InitError> {
        self.after_predictions(rule, report, n).predict(rule, report).1
    }
}

/// Predictions replay the generator. Once recovery succeeds, request number
/// `n` returns output number `n` of the generator that starts in the
/// recovered state, and leaves the predictor `n + 1` ticks past that state:
/// what is predicted depends on the rule, on the number of observed doubles
/// and on the words of the report, and on nothing else.
pub proof fn lemma_predictions_replay_generator(
    view: RecoveryView,
    rule: EngineRule,
    report: SolverReport,
    n: nat,
)
    requires
        view.recover(rule, report).1.is_ok(),
    ensures
        view.nth_prediction(rule, report, n) == Ok::<Double, InitError>(
            rule.outputs(view.recover(rule, report).0.state, n + 1)[n as int],
        ),
        view.after_predictions(rule, report, n + 1) == (RecoveryView {
            solved: true,
            state: rule.state_after(view.recover(rule, report).0.state, n + 1),
            ..view
        }),
    decreases n,
{
    let start = view.recover(rule, report).0.state;
    let now = view.after_predictions(rule, report, n);
    if n > 0 {
        lemma_predictions_replay_generator(view, rule, report, (n - 1) as nat);
    }
    assert(now.recover(rule, report).0 == (RecoveryView {
        solved: true,
        state: rule.state_after(start, n),
        ..view
    }));
    assert(rule.state_after(start, n + 1) == rule.next_state(rule.state_after(start, n)));
    assert(view.after_predictions(rule, report, n + 1) == now.predict(rule, report).0);
}

/// Until recovery succeeds nothing changes: where recovery fails, every
/// request fails in the same way and leaves the predictor as it was, with
/// the same constraints pending.
pub proof fn lemma_failed_recovery_repeats(
    view: RecoveryView,
    rule: EngineRule,
    report: SolverReport,
    n: nat,
)
    requires
        view.recover(rule, report).1.is_err(),
    ensures
        view.after_predictions(rule, report, n) == view,
        view.nth_prediction(rule, report, n) == Err::<Double, InitError>(
            view.recover(rule, report).1.unwrap_err(),
        ),
    decreases n,
{
    if n > 0 {
        lemma_failed_recovery_repeats(view, rule, report, (n - 1) as nat);
    }
}

/// Observed doubles of which one lies outside `[0, 1)` fit no generator: no
/// words solve them, no solver is asked, and every request fails with
/// `Unsat`, whatever report is handed in.
pub proof fn lemma_doubles_outside_unit_interval_are_unsat(
    view: RecoveryView,
    rule: EngineRule,
    report: SolverReport,
    n: nat,
    init: GeneratorState,
)
    requires
        !view.solved,
        !all_unit(view.observed),
    ensures
        !solves(rule, view.observed, init),
        view.pending(rule).is_none(),
        view.nth_prediction(rule, report, n) == Err::<Double, InitError>(InitError::Unsat),
        view.after_predictions(rule, report, n) == view,
{
    lemma_no_solution_outside_unit_interval(rule, view.observed, init);
    lemma_failed_recovery_repeats(view, rule, report, n);
}

/// Recovery happens once: a solved predictor has nothing pending and reads
/// no report, and a prediction leaves the predictor solved.
pub proof fn lemma_solved_ignores_report(
    view: RecoveryView,
    rule: EngineRule,
    a: SolverReport,
    b: SolverReport,
)
    ensures
        view.solved ==> view.predict(rule, a) == view.predict(rule, b),
        view.solved ==> view.pending(rule).is_none(),
        view.predict(rule, a).1.is_ok() ==> view.predict(rule, a).0.solved,
{
}

impl NodeView {
    /// Observed and predicted samples together are within the pool.
    pub open spec fn within_budget(self) -> bool {
        self.recovery.observed.len() <= self.consumed <= MAX_NUM_PREDICTIONS
    }

    /// The view after one request for each of the reports, in their order.
    pub open spec fn after_requests(self, reports: Seq<SolverReport>) -> NodeView
        decreases reports.len(),
    {
        if reports.len() == 0 {
            self
        } else {
            self.after_requests(reports.drop_last()).predict(reports.last()).0
        }
    }

    /// The number of doubles that those requests predict.
    pub open spec fn predicted_by(self, reports: Seq<SolverReport>) -> nat
        decreases reports.len(),
    {
        if reports.len() == 0 {
            0
        } else {
            let before = self.predicted_by(reports.drop_last());
            if self.after_requests(reports.drop_last()).predict(reports.last()).1.is_ok() {
                before + 1
            } else {
                before
            }
        }
    }
}

/// The budget is kept. Whatever is asked of a Node.js predictor whose
/// observed doubles fit the pool, observed and predicted samples together
/// never exceed 64. The counter counts the doubles observed and those
/// predicted, and nothing else: a request that fails, for the limit or in
/// recovery, leaves it as it was. The observed doubles and the version stay
/// the same.
pub proof fn lemma_budget_is_kept(view: NodeView, reports: Seq<SolverReport>)
    requires
        view.within_budget(),
    ensures
        view.after_requests(reports).within_budget(),
        view.after_requests(reports).recovery.observed == view.recovery.observed,
        view.after_requests(reports).version == view.version,
        view.after_requests(reports).consumed == view.consumed + view.predicted_by(reports),
        view.after_requests(reports).predictions_made() == view.predictions_made()
            + view.predicted_by(reports),
        view.predicted_by(reports) <= reports.len(),
    decreases reports.len(),
{
    if reports.len() > 0 {
        lemma_budget_is_kept(view, reports.drop_last());
    }
}

/// A request that fails counts nothing: the counter after it is the
/// counter before it.
pub proof fn lemma_failed_request_counts_nothing(view: NodeView, report: SolverReport)
    ensures
        view.predict(report).1.is_err() ==> view.predict(report).0.consumed == view.consumed,
        view.predict(report).1.is_ok() ==> view.predict(report).0.consumed == view.consumed + 1,
        view.predict(report).1 matches Err(PredictionError::Init(_)) ==> view.predict(report).0
            == view,
{
}

/// The request that would exceed the budget fails with the limit error and
/// changes nothing, and so does every request after it.
pub proof fn lemma_request_past_limit_fails(
    view: NodeView,
    reports: Seq<SolverReport>,
    report: SolverReport,
)
    requires
        view.within_budget(),
        view.consumed + view.predicted_by(reports) >= MAX_NUM_PREDICTIONS,
    ensures
        view.after_requests(reports).predict(report).1 == Err::<Double, PredictionError>(
            PredictionError::Limit(PredictionLimitError),
        ),
        view.after_requests(reports).predict(report).0 == view.after_requests(reports),
{
    lemma_budget_is_kept(view, reports);
}

/// A request within the budget never fails with the limit error.
pub proof fn lemma_request_within_limit_is_let_through(
    view: NodeView,
    reports: Seq<SolverReport>,
    report: SolverReport,
)
    requires
        view.within_budget(),
        view.consumed + view.predicted_by(reports) < MAX_NUM_PREDICTIONS,
    ensures
        !(view.after_requests(reports).predict(report).1 matches Err(PredictionError::Limit(_))),
        view.after_requests(reports).predict(report).1 == lift(
            view.after_requests(reports).recovery.predict(view.rule(), report).1,
        ),
{
    lemma_budget_is_kept(view, reports);
}

/// Before the pool is used up, `reset` changes nothing.
pub proof fn lemma_reset_before_exhaustion_is_noop(view: NodeView, new_sequence: Seq<Double>)
    requires
        !view.exhausted(),
    ensures
        view.reset(new_sequence) == view,
{
}

/// Once the pool is used up, `reset` takes the new sequence, forgets the
/// recovered state and counts the new sequence as consumed; where the new
/// sequence is shorter than the pool, requests are let through again.
pub proof fn lemma_reset_after_exhaustion_restarts(
    view: NodeView,
    new_sequence: Seq<Double>,
    report: SolverReport,
)
    requires
        view.exhausted(),
    ensures
        view.reset(new_sequence).recovery.observed == new_sequence,
        !view.reset(new_sequence).recovery.solved,
        view.reset(new_sequence).consumed == new_sequence.len(),
        view.reset(new_sequence).predictions_made() == 0,
        view.reset(new_sequence).version == view.version,
        new_sequence.len() < MAX_NUM_PREDICTIONS ==> !(view.reset(new_sequence).predict(report).1
            matches Err(PredictionError::Limit(_))),
{
}

} // verus!
