use js_randomness_predictor::double::Double;
use js_randomness_predictor::engine::{EngineRule, Replay, MASK_53};
use js_randomness_predictor::recovery::StateRecovery;
use js_randomness_predictor::solver::SolverReport;
use js_randomness_predictor::symbolic::{
    encode, ConstraintSystem, Equation, StateVar, Term,
};
use js_randomness_predictor::xorshift::GeneratorState;

fn double(value: f64) -> Double {
    Double::from_bits(value.to_bits())
}

#[test]
fn state_variables_have_the_names_of_the_solver_constants() {
    assert_eq!(StateVar::State0.name(), "sym_state_0");
    assert_eq!(StateVar::State1.name(), "sym_state_1");
}

#[test]
fn a_new_system_holds_the_two_unknowns() {
    let system = ConstraintSystem::new();
    assert_eq!(system.terms, vec![Term::Var(StateVar::State0), Term::Var(StateVar::State1)]);
    assert!(system.equations.is_empty());
    assert_eq!((system.state_0, system.state_1), (0, 1));
    let init = GeneratorState { s0: 11, s1: 22 };
    assert_eq!(system.evaluate(init), vec![11, 22]);
    assert_eq!(system.final_state_under(init), init);
    assert!(system.is_satisfied_by(init));
}

#[test]
fn a_symbolic_tick_is_a_tick_of_the_generator() {
    let mut system = ConstraintSystem::new();
    system.xor_shift_128_plus_symbolic();
    assert_eq!(
        system.terms,
        vec![
            Term::Var(StateVar::State0),
            Term::Var(StateVar::State1),
            Term::Const(23),
            Term::Shl(0, 2),
            Term::Xor(0, 3),
            Term::Const(17),
            Term::Lshr(4, 5),
            Term::Xor(4, 6),
            Term::Xor(7, 1),
            Term::Const(26),
            Term::Lshr(1, 9),
            Term::Xor(8, 10),
        ]
    );
    assert_eq!((system.state_0, system.state_1), (1, 11));
    assert!(system.equations.is_empty());

    let init = GeneratorState { s0: 0x0123456789abcdef, s1: 0xfedcba9876543210 };
    assert_eq!(
        system.final_state_under(init),
        GeneratorState { s0: 0xfedcba9876543210, s1: 0x4c3b73557711e6f7 }
    );

    // tick after tick, the terms follow the generator
    let mut state = init;
    for _ in 0..20 {
        system.xor_shift_128_plus_symbolic();
        state.xor_shift_128_plus_forward();
    }
    state.xor_shift_128_plus_forward();
    assert_eq!(system.final_state_under(init), state);
}

#[test]
fn each_rule_constrains_the_bits_that_it_reads() {
    let mut system = ConstraintSystem::new();
    system.constrain_mantissa(EngineRule::V8, 5);
    assert_eq!(system.terms[2..], [Term::Const(11), Term::Lshr(0, 2), Term::Const(5)]);
    assert_eq!(system.equations, vec![Equation { left: 3, right: 4 }]);
    assert!(system.is_satisfied_by(GeneratorState { s0: 5 << 11, s1: 0 }));
    assert!(system.is_satisfied_by(GeneratorState { s0: (5 << 11) | 0x7FF, s1: 99 }));
    assert!(!system.is_satisfied_by(GeneratorState { s0: 6 << 11, s1: 0 }));

    let mut system = ConstraintSystem::new();
    system.constrain_mantissa(EngineRule::LegacyNode, 5);
    assert_eq!(system.terms[2..], [Term::Const(5), Term::Const(12), Term::Lshr(0, 3)]);
    assert_eq!(system.equations, vec![Equation { left: 2, right: 4 }]);
    assert!(system.is_satisfied_by(GeneratorState { s0: (5 << 12) | 0xFFF, s1: 0 }));
    assert!(!system.is_satisfied_by(GeneratorState { s0: 5 << 11, s1: 0 }));

    let mut system = ConstraintSystem::new();
    system.constrain_mantissa(EngineRule::WordSum, 5);
    assert_eq!(
        system.terms[2..],
        [Term::Const(MASK_53), Term::Const(5), Term::Add(0, 1), Term::And(4, 2)]
    );
    assert_eq!(system.equations, vec![Equation { left: 3, right: 5 }]);
    assert!(system.is_satisfied_by(GeneratorState { s0: 2, s1: 3 }));
    // the sum wraps, and only its low 53 bits count
    assert!(system.is_satisfied_by(GeneratorState { s0: u64::MAX, s1: 6 }));
    assert!(system.is_satisfied_by(GeneratorState { s0: 1 << 53, s1: 5 }));
    assert!(!system.is_satisfied_by(GeneratorState { s0: 2, s1: 4 }));
}

#[test]
fn shifts_by_the_width_or_more_give_zero() {
    let system = ConstraintSystem {
        terms: vec![
            Term::Var(StateVar::State0),
            Term::Const(63),
            Term::Const(64),
            Term::Const(u64::MAX),
            Term::Shl(0, 1),
            Term::Shl(0, 2),
            Term::Shl(0, 3),
            Term::Lshr(0, 1),
            Term::Lshr(0, 2),
            Term::Lshr(0, 3),
        ],
        equations: vec![],
        state_0: 0,
        state_1: 0,
    };
    let values = system.evaluate(GeneratorState { s0: u64::MAX, s1: 0 });
    assert_eq!(values[4..], [1 << 63, 0, 0, 1, 0, 0]);
}

#[test]
fn a_term_with_an_operand_that_is_not_earlier_has_the_value_zero() {
    let system = ConstraintSystem {
        terms: vec![
            Term::Const(6),
            Term::Xor(0, 1),
            Term::Xor(0, 0),
            Term::Add(0, 7),
            Term::Xor(2, 0),
        ],
        equations: vec![Equation { left: 1, right: 9 }, Equation { left: 0, right: 4 }],
        state_0: 0,
        state_1: 5,
    };
    let init = GeneratorState { s0: 1, s1: 2 };
    assert_eq!(system.evaluate(init), vec![6, 0, 0, 0, 6]);
    // a term that the graph does not hold has the value 0, too
    assert!(system.is_satisfied_by(init));
    assert_eq!(system.final_state_under(init), GeneratorState { s0: 6, s1: 0 });
}

#[test]
fn doubles_outside_the_unit_interval_have_no_encoding() {
    for rule in [EngineRule::V8, EngineRule::LegacyNode, EngineRule::WordSum] {
        assert!(encode(rule, &vec![double(0.25), double(0.5)]).is_some());
        assert!(encode(rule, &vec![double(0.25), double(1.5)]).is_none());
        assert!(encode(rule, &vec![double(1.0)]).is_none());
        assert!(encode(rule, &vec![double(-0.25), double(0.5)]).is_none());
        assert!(encode(rule, &vec![double(f64::NAN)]).is_none());
    }
}

#[test]
fn an_encoding_has_one_equation_for_each_observed_double() {
    let observed = vec![double(0.25), double(0.5), double(0.75)];
    for rule in [EngineRule::V8, EngineRule::LegacyNode, EngineRule::WordSum] {
        let system = encode(rule, &observed).unwrap();
        assert_eq!(system.equations.len(), 3);
        // two unknowns, ten terms for each tick, and the terms of the constraint
        let per_constraint = if rule == EngineRule::WordSum { 4 } else { 3 };
        assert_eq!(system.terms.len(), 2 + 3 * (10 + per_constraint));
    }
}

/// The doubles that a generator hands out from `truth`, and the state it is
/// left in.
fn simulate(rule: EngineRule, truth: GeneratorState, count: usize) -> (Vec<Double>, GeneratorState) {
    let mut state = truth;
    let mut outputs = vec![];
    for _ in 0..count {
        let word = rule.xor_shift_128_plus_concrete(&mut state);
        outputs.push(rule.to_double(word));
    }
    (outputs, state)
}

#[test]
fn round_trip_recovers_the_simulated_generator() {
    let truths = [
        GeneratorState { s0: 0x0123456789abcdef, s1: 0xfedcba9876543210 },
        GeneratorState { s0: 1, s1: 0 },
        GeneratorState { s0: 0xdeadbeefcafef00d, s1: 0x0badc0de12345678 },
    ];
    for rule in [EngineRule::V8, EngineRule::LegacyNode, EngineRule::WordSum] {
        for truth in truths {
            for observed_count in [1usize, 4, 5, 17] {
                let (observed, after_observed) = simulate(rule, truth, observed_count);
                let (expected, _) = simulate(rule, after_observed, 12);

                // the words for the unknowns under which the generator starts in `truth`
                let unknowns = match rule.replay_direction() {
                    Replay::Reverse => after_observed,
                    Replay::Forward => truth,
                };
                let mut recovery = StateRecovery::new(observed);
                let system = recovery.constraints(rule).unwrap();
                assert!(system.is_satisfied_by(unknowns));
                let words = system.final_state_under(unknowns);
                match rule.replay_direction() {
                    Replay::Reverse => assert_eq!(words, truth),
                    Replay::Forward => assert_eq!(words, after_observed),
                }

                let report = SolverReport::solved(words.s0, words.s1);
                let mut predicted = vec![];
                for _ in 0..12 {
                    predicted.push(recovery.predict_next(rule, &report).unwrap());
                }
                assert_eq!(predicted, expected);
            }
        }
    }
}

#[test]
fn a_state_that_does_not_explain_the_observed_is_no_solution() {
    let truth = GeneratorState { s0: 0x0123456789abcdef, s1: 0xfedcba9876543210 };
    for rule in [EngineRule::V8, EngineRule::LegacyNode, EngineRule::WordSum] {
        let (observed, after_observed) = simulate(rule, truth, 4);
        let unknowns = match rule.replay_direction() {
            Replay::Reverse => after_observed,
            Replay::Forward => truth,
        };
        let system = encode(rule, &observed).unwrap();
        assert!(system.is_satisfied_by(unknowns));
        for bit in [12u32, 30, 63] {
            let other = GeneratorState { s0: unknowns.s0 ^ (1 << bit), s1: unknowns.s1 };
            assert!(!system.is_satisfied_by(other));
            let other = GeneratorState { s0: unknowns.s0, s1: unknowns.s1 ^ (1 << bit) };
            assert!(!system.is_satisfied_by(other));
        }
    }
}

#[test]
fn one_observed_double_leaves_many_states() {
    // a single double of Chrome fixes 53 bits of 128: two states that both
    // explain it predict differently
    let observed = vec![double(0.5)];
    let system = encode(EngineRule::V8, &observed).unwrap();
    let first = GeneratorState { s0: 0, s1: 1 << 63 };
    let second = GeneratorState { s0: 1 << 63, s1: 1 << 63 };
    assert!(system.is_satisfied_by(first));
    assert!(system.is_satisfied_by(second));

    let mut predictions = vec![];
    for unknowns in [first, second] {
        let words = system.final_state_under(unknowns);
        let mut recovery = StateRecovery::new(vec![double(0.5)]);
        let report = SolverReport::solved(words.s0, words.s1);
        predictions.push(recovery.predict_next(EngineRule::V8, &report).unwrap());
    }
    assert_eq!(predictions, vec![double(0.0), double(0.5)]);
}
