//! The generator's ticks and an engine's decoding rule as constraints over
//! two unknown 64-bit words, in a form that a bit-vector solver takes: a
//! graph of terms, each built from earlier ones, and equations between terms.
use vstd::prelude::*;
use crate::double::Double;
use crate::engine::{lemma_mantissa_is_a_word, EngineRule, Replay, MASK_53};
use crate::xorshift::{transition, transition_n, wrapping_sum, GeneratorState};

verus! {

/// One of the two unknown words of the generator's state.
#[derive(Clone, Copy, Debug, PartialEq, Eq, Structural)]
pub enum StateVar {
    State0,
    State1,
}

impl StateVar {
    /// The variable's name, as a solver and a failure report know it.
    pub open spec fn label(self) -> Seq<char> {
        match self {
            StateVar::State0 => "sym_state_0"@,
            StateVar::State1 => "sym_state_1"@,
        }
    }

    /// The variable's name.
    pub fn name(self) -> (name: &'static str)
        ensures
            name@ == self.label(),
    {
        match self {
            StateVar::State0 => "sym_state_0",
            StateVar::State1 => "sym_state_1",
        }
    }
}

/// A 64-bit bit-vector term. An operand is the index of an earlier term of
/// the same graph.
#[derive(Clone, Copy, Debug, PartialEq, Eq, Structural)]
pub enum Term {
    /// An unknown state word.
    Var(StateVar),
    /// A fixed word.
    Const(u64),
    /// Bitwise exclusive or.
    Xor(usize, usize),
    /// Left shift of the first operand by the second; zero from 64 on.
    Shl(usize, usize),
    /// Logical right shift of the first operand by the second; zero from 64 on.
    Lshr(usize, usize),
    /// Sum modulo 2^64.
    Add(usize, usize),
    /// Bitwise and.
    And(usize, usize),
}

/// The demand that two terms have the same value.
#[derive(Clone, Copy, Debug, PartialEq, Eq, Structural)]
pub struct Equation {
    pub left: usize,
    pub right: usize,
}

/// Left shift as bit-vector solvers define it.
pub open spec fn shift_left(a: u64, by: u64) -> u64 {
    if by < 64 {
        a << by
    } else {
        0
    }
}

/// Logical right shift as bit-vector solvers define it.
pub open spec fn shift_right(a: u64, by: u64) -> u64 {
    if by < 64 {
        a >> by
    } else {
        0
    }
}

/// Whether the operands of a term at index `at` are earlier terms.
pub open spec fn operands_precede(term: Term, at: int) -> bool {
    match term {
        Term::Var(_) => true,
        Term::Const(_) => true,
        Term::Xor(x, y) => x < at && y < at,
        Term::Shl(x, y) => x < at && y < at,
        Term::Lshr(x, y) => x < at && y < at,
        Term::Add(x, y) => x < at && y < at,
        Term::And(x, y) => x < at && y < at,
    }
}

/// The value of term `i` when the unknown words are those of `init`. A term
/// with an operand that is not earlier has the value 0.
pub open spec fn term_value(terms: Seq<Term>, i: int, init: GeneratorState) -> u64
    decreases i,
{
    if i < 0 || i >= terms.len() || !operands_precede(terms[i], i) {
        0
    } else {
        match terms[i] {
            Term::Var(StateVar::State0) => init.s0,
            Term::Var(StateVar::State1) => init.s1,
            Term::Const(c) => c,
            Term::Xor(x, y) => term_value(terms, x as int, init) ^ term_value(
                terms,
                y as int,
                init,
            ),
            Term::Shl(x, y) => shift_left(
                term_value(terms, x as int, init),
                term_value(terms, y as int, init),
            ),
            Term::Lshr(x, y) => shift_right(
                term_value(terms, x as int, init),
                term_value(terms, y as int, init),
            ),
            Term::Add(x, y) => wrapping_sum(
                term_value(terms, x as int, init),
                term_value(terms, y as int, init),
            ),
            Term::And(x, y) => term_value(terms, x as int, init) & term_value(
                terms,
                y as int,
                init,
            ),
        }
    }
}

/// Terms keep their value when more terms are added behind them.
pub proof fn lemma_value_is_stable(
    before: Seq<Term>,
    after: Seq<Term>,
    i: int,
    init: GeneratorState,
)
    requires
        before.is_prefix_of(after),
        0 <= i < before.len(),
    ensures
        term_value(after, i, init) == term_value(before, i, init),
    decreases i,
{
    assert(after[i] == before[i]);
    if operands_precede(before[i], i) {
        match before[i] {
            Term::Var(_) => {},
            Term::Const(_) => {},
            Term::Xor(x, y) => {
                lemma_value_is_stable(before, after, x as int, init);
                lemma_value_is_stable(before, after, y as int, init);
            },
            Term::Shl(x, y) => {
                lemma_value_is_stable(before, after, x as int, init);
                lemma_value_is_stable(before, after, y as int, init);
            },
            Term::Lshr(x, y) => {
                lemma_value_is_stable(before, after, x as int, init);
                lemma_value_is_stable(before, after, y as int, init);
            },
            Term::Add(x, y) => {
                lemma_value_is_stable(before, after, x as int, init);
                lemma_value_is_stable(before, after, y as int, init);
            },
            Term::And(x, y) => {
                lemma_value_is_stable(before, after, x as int, init);
                lemma_value_is_stable(before, after, y as int, init);
            },
        }
    }
}

/// A constraint system as contracts see it.
pub struct SystemView {
    /// The graph of terms.
    pub terms: Seq<Term>,
    /// The equations that must hold.
    pub equations: Seq<Equation>,
    /// The term of the first state word.
    pub state_0: usize,
    /// The term of the second state word.
    pub state_1: usize,
}

/// The terms of one tick of the generator on the state terms `s0` and `s1`,
/// where `n` terms stand before them: the first state word shifted left by
/// 23 and mixed in, the result shifted right by 17 and mixed in, then the
/// second state word and the second state word shifted right by 26. The
/// last term is the new second state word.
pub open spec fn tick_terms(s0: usize, s1: usize, n: nat) -> Seq<Term> {
    seq![
        Term::Const(23),
        Term::Shl(s0, n as usize),
        Term::Xor(s0, (n + 1) as usize),
        Term::Const(17),
        Term::Lshr((n + 2) as usize, (n + 3) as usize),
        Term::Xor((n + 2) as usize, (n + 4) as usize),
        Term::Xor((n + 5) as usize, s1),
        Term::Const(26),
        Term::Lshr(s1, (n + 7) as usize),
        Term::Xor((n + 6) as usize, (n + 8) as usize),
    ]
}

/// The terms of the demand that a rule makes of the state terms `s0` and
/// `s1`, where `n` terms stand before them.
pub open spec fn constraint_terms(rule: EngineRule, mantissa: u64, s0: usize, s1: usize, n: nat)
    -> Seq<Term> {
    match rule {
        EngineRule::V8 => seq![
            Term::Const(11),
            Term::Lshr(s0, n as usize),
            Term::Const(mantissa),
        ],
        EngineRule::LegacyNode => seq![
            Term::Const(mantissa),
            Term::Const(12),
            Term::Lshr(s0, (n + 1) as usize),
        ],
        EngineRule::WordSum => seq![
            Term::Const(MASK_53),
            Term::Const(mantissa),
            Term::Add(s0, s1),
            Term::And((n + 2) as usize, n as usize),
        ],
    }
}

/// The number of terms that a demand of the rule takes.
pub open spec fn constraint_size(rule: EngineRule) -> nat {
    match rule {
        EngineRule::V8 => 3,
        EngineRule::LegacyNode => 3,
        EngineRule::WordSum => 4,
    }
}

/// The equation of the demand that a rule makes, where `n` terms stand
/// before the terms of the demand.
pub open spec fn constraint_equation(rule: EngineRule, n: nat) -> Equation {
    match rule {
        EngineRule::V8 => Equation { left: (n + 1) as usize, right: (n + 2) as usize },
        EngineRule::LegacyNode => Equation { left: n as usize, right: (n + 2) as usize },
        EngineRule::WordSum => Equation { left: (n + 1) as usize, right: (n + 3) as usize },
    }
}

impl SystemView {
    /// Every operand is an earlier term, and equations and state name terms
    /// of the graph.
    pub open spec fn wf(self) -> bool {
        &&& forall|i: int| 0 <= i < self.terms.len() ==> operands_precede(#[trigger] self.terms[i], i)
        &&& forall|j: int|
            0 <= j < self.equations.len() ==> (#[trigger] self.equations[j]).left
                < self.terms.len() && self.equations[j].right < self.terms.len()
        &&& self.state_0 < self.terms.len()
        &&& self.state_1 < self.terms.len()
    }

    /// The value of term `i` under `init`.
    pub open spec fn value(self, i: int, init: GeneratorState) -> u64 {
        term_value(self.terms, i, init)
    }

    /// Whether equation `j` holds under `init`.
    pub open spec fn holds(self, j: int, init: GeneratorState) -> bool {
        self.value(self.equations[j].left as int, init) == self.value(
            self.equations[j].right as int,
            init,
        )
    }

    /// Whether `init` is a solution: every equation holds under it.
    pub open spec fn satisfied_by(self, init: GeneratorState) -> bool {
        forall|j: int| 0 <= j < self.equations.len() ==> #[trigger] self.holds(j, init)
    }

    /// The state after the last tick when the unknown words are those of
    /// `init`.
    pub open spec fn final_state(self, init: GeneratorState) -> GeneratorState {
        GeneratorState {
            s0: self.value(self.state_0 as int, init),
            s1: self.value(self.state_1 as int, init),
        }
    }

    /// The two unknown words and nothing asked of them: the state before
    /// any tick.
    pub open spec fn initial() -> SystemView {
        SystemView {
            terms: seq![Term::Var(StateVar::State0), Term::Var(StateVar::State1)],
            equations: Seq::empty(),
            state_0: 0,
            state_1: 1,
        }
    }

    /// The system after one tick of the generator on its state terms.
    pub open spec fn ticked(self) -> SystemView {
        SystemView {
            terms: self.terms + tick_terms(self.state_0, self.state_1, self.terms.len()),
            equations: self.equations,
            state_0: self.state_1,
            state_1: (self.terms.len() + 9) as usize,
        }
    }

    /// The system with the demand that the bits which the rule reads from
    /// the state equal `mantissa`.
    pub open spec fn constrained(self, rule: EngineRule, mantissa: u64) -> SystemView {
        SystemView {
            terms: self.terms + constraint_terms(
                rule,
                mantissa,
                self.state_0,
                self.state_1,
                self.terms.len(),
            ),
            equations: self.equations.push(constraint_equation(rule, self.terms.len())),
            ..self
        }
    }
}

/// Adding terms behind a graph changes neither which words solve its
/// equations nor the value of any term that was there.
pub proof fn lemma_extension_keeps_meaning(before: SystemView, after: SystemView)
    requires
        before.wf(),
        before.terms.is_prefix_of(after.terms),
        after.equations == before.equations,
    ensures
        forall|i: int, init: GeneratorState|
            0 <= i < before.terms.len() ==> #[trigger] after.value(i, init) == before.value(
                i,
                init,
            ),
        forall|init: GeneratorState| #[trigger]
            after.satisfied_by(init) == before.satisfied_by(init),
{
    assert forall|i: int, init: GeneratorState| 0 <= i < before.terms.len() implies #[trigger]
        after.value(i, init) == before.value(i, init) by {
        lemma_value_is_stable(before.terms, after.terms, i, init);
    }
    assert forall|init: GeneratorState| #[trigger]
        after.satisfied_by(init) == before.satisfied_by(init) by {
        assert forall|j: int| 0 <= j < before.equations.len() implies #[trigger] after.holds(
            j,
            init,
        ) == before.holds(j, init) by {
            let equation = before.equations[j];
            lemma_value_is_stable(before.terms, after.terms, equation.left as int, init);
            lemma_value_is_stable(before.terms, after.terms, equation.right as int, init);
        }
        if before.satisfied_by(init) {
            assert forall|j: int| 0 <= j < after.equations.len() implies #[trigger] after.holds(
                j,
                init,
            ) by {
                assert(before.holds(j, init));
            }
        }
        if after.satisfied_by(init) {
            assert forall|j: int| 0 <= j < before.equations.len() implies #[trigger] before.holds(
                j,
                init,
            ) by {
                assert(after.holds(j, init));
            }
        }
    }
}

/// Before any tick the state terms are the unknowns themselves, and any
/// words solve the system.
pub proof fn lemma_initial_meaning()
    ensures
        SystemView::initial().wf(),
        forall|init: GeneratorState| #[trigger] SystemView::initial().final_state(init) == init,
        forall|init: GeneratorState| #[trigger] SystemView::initial().satisfied_by(init),
{
}

/// A symbolic tick is a tick of the generator: under any words, the state
/// terms of the ticked system have the values of the state one tick after
/// that of the system before. The same words solve both.
pub proof fn lemma_tick_meaning(before: SystemView)
    requires
        before.wf(),
        before.terms.len() + 10 <= usize::MAX,
    ensures
        before.ticked().wf(),
        before.terms.is_prefix_of(before.ticked().terms),
        forall|init: GeneratorState| #[trigger]
            before.ticked().final_state(init) == transition(before.final_state(init)),
        forall|init: GeneratorState| #[trigger]
            before.ticked().satisfied_by(init) == before.satisfied_by(init),
{
    let after = before.ticked();
    let n = before.terms.len() as int;
    assert forall|i: int| 0 <= i < after.terms.len() implies operands_precede(
        #[trigger] after.terms[i],
        i,
    ) by {
        if i < n {
            assert(after.terms[i] == before.terms[i]);
        }
    }
    lemma_extension_keeps_meaning(before, after);
    assert forall|init: GeneratorState| #[trigger]
        after.final_state(init) == transition(before.final_state(init)) by {
        reveal_with_fuel(term_value, 8);
        lemma_value_is_stable(before.terms, after.terms, before.state_0 as int, init);
        lemma_value_is_stable(before.terms, after.terms, before.state_1 as int, init);
    }
}

/// A demand narrows the solutions to the words under which the bits that
/// the rule reads from the state equal the mantissa, and leaves the state
/// terms as they are.
pub proof fn lemma_constraint_meaning(before: SystemView, rule: EngineRule, mantissa: u64)
    requires
        before.wf(),
        before.terms.len() + constraint_size(rule) <= usize::MAX,
    ensures
        before.constrained(rule, mantissa).wf(),
        before.terms.is_prefix_of(before.constrained(rule, mantissa).terms),
        forall|init: GeneratorState| #[trigger]
            before.constrained(rule, mantissa).final_state(init) == before.final_state(init),
        forall|init: GeneratorState| #[trigger]
            before.constrained(rule, mantissa).satisfied_by(init) == (before.satisfied_by(init)
                && rule.word_mantissa(rule.word_of(before.final_state(init))) == mantissa),
{
    let after = before.constrained(rule, mantissa);
    let grown = SystemView { equations: before.equations, ..after };
    let n = before.terms.len() as int;
    let last = before.equations.len() as int;
    assert forall|i: int| 0 <= i < after.terms.len() implies operands_precede(
        #[trigger] after.terms[i],
        i,
    ) by {
        if i < n {
            assert(after.terms[i] == before.terms[i]);
        }
    }
    assert forall|j: int| 0 <= j < after.equations.len() implies (#[trigger] after.equations[j]).left
        < after.terms.len() && after.equations[j].right < after.terms.len() by {
        if j < last {
            assert(after.equations[j] == before.equations[j]);
        }
    }
    lemma_extension_keeps_meaning(before, grown);
    assert forall|init: GeneratorState| #[trigger]
        after.final_state(init) == before.final_state(init) by {
        lemma_value_is_stable(before.terms, after.terms, before.state_0 as int, init);
        lemma_value_is_stable(before.terms, after.terms, before.state_1 as int, init);
    }
    assert forall|init: GeneratorState| #[trigger]
        after.satisfied_by(init) == (before.satisfied_by(init) && rule.word_mantissa(
            rule.word_of(before.final_state(init)),
        ) == mantissa) by {
        reveal_with_fuel(term_value, 4);
        lemma_value_is_stable(before.terms, after.terms, before.state_0 as int, init);
        lemma_value_is_stable(before.terms, after.terms, before.state_1 as int, init);
        let asked = rule.word_mantissa(rule.word_of(before.final_state(init))) == mantissa;
        assert(after.holds(last, init) == asked);
        assert forall|j: int| 0 <= j < last implies #[trigger] after.holds(j, init) == grown.holds(
            j,
            init,
        ) by {}
        if after.satisfied_by(init) {
            assert(after.holds(last, init));
            assert forall|j: int| 0 <= j < last implies #[trigger] grown.holds(j, init) by {
                assert(after.holds(j, init));
            }
            assert(grown.satisfied_by(init));
        }
        if before.satisfied_by(init) && asked {
            assert(grown.satisfied_by(init));
            assert forall|j: int| 0 <= j < after.equations.len() implies #[trigger] after.holds(
                j,
                init,
            ) by {
                if j < last {
                    assert(grown.holds(j, init));
                }
            }
        }
    }
}

/// What a solver is asked: words for the two unknowns under which every
/// equation holds, and the values that two terms, the state after the last
/// tick, then have.
#[derive(Debug)]
pub struct ConstraintSystem {
    /// The graph of terms.
    pub terms: Vec<Term>,
    /// The equations that must hold.
    pub equations: Vec<Equation>,
    /// The term of the first state word.
    pub state_0: usize,
    /// The term of the second state word.
    pub state_1: usize,
}

impl View for ConstraintSystem {
    type V = SystemView;

    open spec fn view(&self) -> SystemView {
        SystemView {
            terms: self.terms@,
            equations: self.equations@,
            state_0: self.state_0,
            state_1: self.state_1,
        }
    }
}

/// The value at `index`, or 0 where there is none.
fn value_or_zero(values: &Vec<u64>, index: usize) -> (value: u64)
    ensures
        value == if index < values@.len() {
            values@[index as int]
        } else {
            0
        },
{
    if index < values.len() {
        values[index]
    } else {
        0
    }
}

impl ConstraintSystem {
    /// The two unknown words and nothing asked of them.
    pub fn new() -> (system: ConstraintSystem)
        ensures
            system@ == SystemView::initial(),
    {
        let mut terms: Vec<Term> = Vec::new();
        terms.push(Term::Var(StateVar::State0));
        terms.push(Term::Var(StateVar::State1));
        let system = ConstraintSystem { terms, equations: Vec::new(), state_0: 0, state_1: 1 };
        assert(system@.terms =~= SystemView::initial().terms);
        assert(system@.equations =~= SystemView::initial().equations);
        system
    }

    /// The values of all terms under `init`.
    pub fn evaluate(&self, init: GeneratorState) -> (values: Vec<u64>)
        ensures
            values@.len() == self@.terms.len(),
            forall|i: int| 0 <= i < values@.len() ==> values@[i] == #[trigger] self@.value(i, init),
    {
        let mut values: Vec<u64> = Vec::new();
        let mut i: usize = 0;
        while i < self.terms.len()
            invariant
                i <= self.terms@.len(),
                values@.len() == i,
                forall|k: int|
                    0 <= k < i ==> values@[k] == #[trigger] term_value(self.terms@, k, init),
            decreases self.terms@.len() - i,
        {
            let term: Term = self.terms[i];
            proof {
                // the values of earlier operands are among those computed so far
                match term {
                    Term::Xor(x, y) | Term::Shl(x, y) | Term::Lshr(x, y) | Term::Add(x, y)
                    | Term::And(x, y) => {
                        if x < i && y < i {
                            assert(values@[x as int] == term_value(self.terms@, x as int, init));
                            assert(values@[y as int] == term_value(self.terms@, y as int, init));
                        }
                    },
                    _ => {},
                }
            }
            let v: u64 = match term {
                Term::Var(StateVar::State0) => init.s0,
                Term::Var(StateVar::State1) => init.s1,
                Term::Const(c) => c,
                Term::Xor(x, y) => {
                    if x < i && y < i {
                        values[x] ^ values[y]
                    } else {
                        0
                    }
                },
                Term::Shl(x, y) => {
                    if x < i && y < i && values[y] < 64 {
                        values[x] << values[y]
                    } else {
                        0
                    }
                },
                Term::Lshr(x, y) => {
                    if x < i && y < i && values[y] < 64 {
                        values[x] >> values[y]
                    } else {
                        0
                    }
                },
                Term::Add(x, y) => {
                    if x < i && y < i {
                        values[x].wrapping_add(values[y])
                    } else {
                        0
                    }
                },
                Term::And(x, y) => {
                    if x < i && y < i {
                        values[x] & values[y]
                    } else {
                        0
                    }
                },
            };
            assert(v == term_value(self.terms@, i as int, init));
            values.push(v);
            i = i + 1;
        }
        values
    }

    /// Whether `init` is a solution.
    pub fn is_satisfied_by(&self, init: GeneratorState) -> (satisfied: bool)
        ensures
            satisfied == self@.satisfied_by(init),
    {
        let values = self.evaluate(init);
        let mut j: usize = 0;
        while j < self.equations.len()
            invariant
                j <= self.equations@.len(),
                values@.len() == self.terms@.len(),
                forall|i: int|
                    0 <= i < values@.len() ==> values@[i] == #[trigger] self@.value(i, init),
                forall|k: int| 0 <= k < j ==> #[trigger] self@.holds(k, init),
            decreases self.equations@.len() - j,
        {
            let equation: Equation = self.equations[j];
            let left: u64 = value_or_zero(&values, equation.left);
            let right: u64 = value_or_zero(&values, equation.right);
            assert(left == self@.value(equation.left as int, init));
            assert(right == self@.value(equation.right as int, init));
            if left != right {
                assert(!self@.holds(j as int, init));
                return false;
            }
            j = j + 1;
        }
        true
    }

    /// The state after the last tick under `init`.
    pub fn final_state_under(&self, init: GeneratorState) -> (state: GeneratorState)
        ensures
            state == self@.final_state(init),
    {
        let values = self.evaluate(init);
        let s0: u64 = value_or_zero(&values, self.state_0);
        let s1: u64 = value_or_zero(&values, self.state_1);
        assert(s0 == self@.value(self.state_0 as int, init));
        assert(s1 == self@.value(self.state_1 as int, init));
        GeneratorState { s0, s1 }
    }

    /// Adds a term behind the others and returns its index.
    fn push_term(&mut self, term: Term) -> (id: usize)
        ensures
            final(self)@ == (SystemView { terms: old(self)@.terms.push(term), ..old(self)@ }),
            id == old(self)@.terms.len(),
    {
        let id: usize = self.terms.len();
        self.terms.push(term);
        id
    }

    /// Applies one tick of the generator to the state terms.
    pub fn xor_shift_128_plus_symbolic(&mut self)
        ensures
            final(self)@ == old(self)@.ticked(),
    {
        let state_0: usize = self.state_0;
        let state_1: usize = self.state_1;
        let by_23: usize = self.push_term(Term::Const(23));
        let shifted_left: usize = self.push_term(Term::Shl(state_0, by_23));
        let mixed: usize = self.push_term(Term::Xor(state_0, shifted_left));
        let by_17: usize = self.push_term(Term::Const(17));
        let shifted_right: usize = self.push_term(Term::Lshr(mixed, by_17));
        let folded: usize = self.push_term(Term::Xor(mixed, shifted_right));
        let with_state_1: usize = self.push_term(Term::Xor(folded, state_1));
        let by_26: usize = self.push_term(Term::Const(26));
        let state_1_shifted: usize = self.push_term(Term::Lshr(state_1, by_26));
        let next: usize = self.push_term(Term::Xor(with_state_1, state_1_shifted));
        self.state_0 = state_1;
        self.state_1 = next;
        assert(self@.terms =~= old(self)@.ticked().terms);
    }

    /// Demands that the bits which the rule reads from the present state
    /// equal the mantissa recovered from one observed double.
    pub fn constrain_mantissa(&mut self, rule: EngineRule, mantissa: u64)
        ensures
            final(self)@ == old(self)@.constrained(rule, mantissa),
    {
        let state_0: usize = self.state_0;
        let state_1: usize = self.state_1;
        let left: usize;
        let right: usize;
        match rule {
            EngineRule::V8 => {
                let by_11: usize = self.push_term(Term::Const(11));
                left = self.push_term(Term::Lshr(state_0, by_11));
                right = self.push_term(Term::Const(mantissa));
            },
            EngineRule::LegacyNode => {
                left = self.push_term(Term::Const(mantissa));
                let by_12: usize = self.push_term(Term::Const(12));
                right = self.push_term(Term::Lshr(state_0, by_12));
            },
            EngineRule::WordSum => {
                let mask: usize = self.push_term(Term::Const(MASK_53));
                left = self.push_term(Term::Const(mantissa));
                let sum: usize = self.push_term(Term::Add(state_0, state_1));
                right = self.push_term(Term::And(sum, mask));
            },
        }
        self.equations.push(Equation { left, right });
        assert(self@.terms =~= old(self)@.constrained(rule, mantissa).terms);
    }
}

/// The observed doubles in the order in which the ticks of the encoding
/// meet them: last first where the engine replays in reverse.
pub open spec fn replay_order(rule: EngineRule, observed: Seq<Double>) -> Seq<Double> {
    match rule.replay() {
        Replay::Reverse => observed.reverse(),
        Replay::Forward => observed,
    }
}

/// Whether the first `n` doubles of `order` are explained, one after the
/// other, by the states that follow `init` tick by tick.
pub open spec fn explains_prefix(
    rule: EngineRule,
    order: Seq<Double>,
    init: GeneratorState,
    n: nat,
) -> bool
    decreases n,
{
    if n == 0 {
        true
    } else {
        &&& explains_prefix(rule, order, init, (n - 1) as nat)
        &&& rule.explains(rule.word_of(transition_n(init, n)), order[n - 1])
    }
}

/// Whether the words of `init` solve the encoding of `observed`: the state
/// `j + 1` ticks after `init` explains the double that is met as number `j`.
pub open spec fn solves(rule: EngineRule, observed: Seq<Double>, init: GeneratorState) -> bool {
    explains_prefix(rule, replay_order(rule, observed), init, observed.len())
}

/// Every observed double lies in `[0, 1)`.
pub open spec fn all_unit(observed: Seq<Double>) -> bool {
    forall|i: int| 0 <= i < observed.len() ==> (#[trigger] observed[i]).is_unit()
}

/// The encoding of the first `n` doubles of `order`: for each, one tick and
/// then the demand that the state explain the double.
pub open spec fn encoding(rule: EngineRule, order: Seq<Double>, n: nat) -> SystemView
    decreases n,
{
    if n == 0 {
        SystemView::initial()
    } else {
        encoding(rule, order, (n - 1) as nat).ticked().constrained(
            rule,
            rule.sample_mantissa(order[n - 1]) as u64,
        )
    }
}

/// The encoding of the observed doubles.
pub open spec fn encoding_of(rule: EngineRule, observed: Seq<Double>) -> SystemView {
    encoding(rule, replay_order(rule, observed), observed.len())
}

/// The size of an encoding: the two unknowns and, for each double, the terms
/// of a tick and of a demand, and one equation.
pub proof fn lemma_encoding_size(rule: EngineRule, order: Seq<Double>, n: nat)
    ensures
        encoding(rule, order, n).terms.len() == 2 + n * (10 + constraint_size(rule)),
        encoding(rule, order, n).equations.len() == n,
    decreases n,
{
    if n > 0 {
        lemma_encoding_size(rule, order, (n - 1) as nat);
        let before = encoding(rule, order, (n - 1) as nat);
        let ticked = before.ticked();
        let mantissa = rule.sample_mantissa(order[n - 1]) as u64;
        let per_double = 10 + constraint_size(rule);
        assert(tick_terms(before.state_0, before.state_1, before.terms.len()).len() == 10);
        assert(constraint_terms(
            rule,
            mantissa,
            ticked.state_0,
            ticked.state_1,
            ticked.terms.len(),
        ).len() == constraint_size(rule));
        assert(n * per_double == (n - 1) * per_double + per_double) by (nonlinear_arith);
    } else {
        assert(encoding(rule, order, n).terms.len() == 2);
        assert(0 * (10 + constraint_size(rule)) == 0);
    }
}

/// What an encoding means. Its state terms are the unknowns after one tick
/// for each double, and it is solved by exactly the words from which each
/// double is explained by the state after its tick.
pub proof fn lemma_encoding_meaning(rule: EngineRule, order: Seq<Double>, n: nat)
    requires
        n <= order.len(),
        forall|i: int| 0 <= i < n ==> (#[trigger] order[i]).is_unit(),
        encoding(rule, order, n).terms.len() <= usize::MAX,
    ensures
        encoding(rule, order, n).wf(),
        forall|init: GeneratorState| #[trigger]
            encoding(rule, order, n).final_state(init) == transition_n(init, n),
        forall|init: GeneratorState| #[trigger]
            encoding(rule, order, n).satisfied_by(init) == explains_prefix(rule, order, init, n),
    decreases n,
{
    if n == 0 {
        lemma_initial_meaning();
    } else {
        let before = encoding(rule, order, (n - 1) as nat);
        let ticked = before.ticked();
        let mantissa = rule.sample_mantissa(order[n - 1]) as u64;
        let per_double = 10 + constraint_size(rule);
        assert(order[n - 1].is_unit());
        lemma_mantissa_is_a_word(rule, order[n - 1]);
        lemma_encoding_size(rule, order, n);
        lemma_encoding_size(rule, order, (n - 1) as nat);
        assert(n * per_double == (n - 1) * per_double + per_double) by (nonlinear_arith);
        assert(tick_terms(before.state_0, before.state_1, before.terms.len()).len() == 10);
        lemma_encoding_meaning(rule, order, (n - 1) as nat);
        lemma_tick_meaning(before);
        lemma_constraint_meaning(ticked, rule, mantissa);
        let after = ticked.constrained(rule, mantissa);
        assert forall|init: GeneratorState| #[trigger]
            after.final_state(init) == transition_n(init, n) by {
            assert(ticked.final_state(init) == transition(before.final_state(init)));
        }
        assert forall|init: GeneratorState| #[trigger]
            after.satisfied_by(init) == explains_prefix(rule, order, init, n) by {
            assert(ticked.final_state(init) == transition(before.final_state(init)));
            assert(ticked.satisfied_by(init) == before.satisfied_by(init));
        }
    }
}

/// Whether every double lies in `[0, 1)`.
pub fn is_unit_sequence(observed: &[Double]) -> (unit: bool)
    ensures
        unit == all_unit(observed@),
{
    let mut i: usize = 0;
    while i < observed.len()
        invariant
            i <= observed@.len(),
            forall|k: int| 0 <= k < i ==> (#[trigger] observed@[k]).is_unit(),
        decreases observed@.len() - i,
    {
        if !observed[i].in_unit_interval() {
            return false;
        }
        i = i + 1;
    }
    true
}

/// Encodes the observed doubles: one tick per double, in the order of
/// replay, and after each tick the demand that the state explain the double.
/// Where a double lies outside `[0, 1)` nothing explains it, and there is no
/// encoding.
pub fn encode(rule: EngineRule, observed: &Vec<Double>) -> (encoded: Option<ConstraintSystem>)
    ensures
        encoded.is_some() == all_unit(observed@),
        encoded matches Some(system) ==> {
            &&& system@ == encoding_of(rule, observed@)
            &&& system@.wf()
            &&& system@.equations.len() == observed@.len()
            &&& forall|init: GeneratorState| #[trigger]
                system@.final_state(init) == transition_n(init, observed@.len())
            &&& forall|init: GeneratorState| #[trigger]
                system@.satisfied_by(init) == solves(rule, observed@, init)
        },
{
    if !is_unit_sequence(observed.as_slice()) {
        return None;
    }
    let mut system = ConstraintSystem::new();
    let count: usize = observed.len();
    let direction = rule.replay_direction();
    let ghost order = replay_order(rule, observed@);
    let mut done: usize = 0;
    while done < count
        invariant
            count == observed@.len(),
            done <= count,
            all_unit(observed@),
            direction == rule.replay(),
            order == replay_order(rule, observed@),
            system@ == encoding(rule, order, done as nat),
        decreases count - done,
    {
        let at: usize = match direction {
            Replay::Reverse => count - 1 - done,
            Replay::Forward => done,
        };
        let sample: Double = observed[at];
        assert(sample == order[done as int]);
        let mantissa: u64 = rule.recover_mantissa(sample);
        system.xor_shift_128_plus_symbolic();
        system.constrain_mantissa(rule, mantissa);
        done = done + 1;
    }
    let total: usize = system.terms.len();
    proof {
        assert forall|i: int| 0 <= i < count implies (#[trigger] order[i]).is_unit() by {
            match rule.replay() {
                Replay::Reverse => {
                    assert(order[i] == observed@[count - 1 - i]);
                },
                Replay::Forward => {},
            }
        }
        lemma_encoding_meaning(rule, order, count as nat);
        lemma_encoding_size(rule, order, count as nat);
    }
    Some(system)
}

/// A sequence with a double outside `[0, 1)` has no solution: whatever the
/// words, some double is left unexplained.
pub proof fn lemma_no_solution_outside_unit_interval(
    rule: EngineRule,
    observed: Seq<Double>,
    init: GeneratorState,
)
    requires
        !all_unit(observed),
    ensures
        !solves(rule, observed, init),
{
    let order = replay_order(rule, observed);
    let bad = choose|i: int| 0 <= i < observed.len() && !(#[trigger] observed[i]).is_unit();
    let at: int = match rule.replay() {
        Replay::Reverse => observed.len() - 1 - bad,
        Replay::Forward => bad,
    };
    assert(order[at] == observed[bad]);
    lemma_unexplained_breaks_prefix(rule, order, init, observed.len(), (at + 1) as nat);
}

/// A prefix with a double that its state does not explain is not explained.
proof fn lemma_unexplained_breaks_prefix(
    rule: EngineRule,
    order: Seq<Double>,
    init: GeneratorState,
    n: nat,
    j: nat,
)
    requires
        1 <= j <= n,
        !rule.explains(rule.word_of(transition_n(init, j)), order[j - 1]),
    ensures
        !explains_prefix(rule, order, init, n),
    decreases n,
{
    if j < n {
        lemma_unexplained_breaks_prefix(rule, order, init, (n - 1) as nat, j);
    }
}

} // verus!
