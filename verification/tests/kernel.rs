use js_randomness_predictor::engine::{EngineRule, Replay};
use js_randomness_predictor::xorshift::GeneratorState;

#[test]
fn reverse_step_returns_the_first_word_and_steps_back() {
    let mut state = GeneratorState { s0: 0x0123456789abcdef, s1: 0xfedcba9876543210 };
    let word = state.xor_shift_128_plus_reverse();
    assert_eq!(word, 0x0123456789abcdef);
    assert_eq!(state, GeneratorState { s0: 0x58a6974eb22e9d8a, s1: 0x0123456789abcdef });

    let mut state = GeneratorState { s0: 1, s1: 2 };
    assert_eq!(state.xor_shift_128_plus_reverse(), 1);
    assert_eq!(state, GeneratorState { s0: 0x0000c00001800003, s1: 1 });
}

#[test]
fn forward_step_ticks_and_returns_the_sum() {
    let mut state = GeneratorState { s0: 0x0123456789abcdef, s1: 0xfedcba9876543210 };
    let word = state.xor_shift_128_plus_forward();
    assert_eq!(word, 0x4b182deded661907);
    assert_eq!(state, GeneratorState { s0: 0xfedcba9876543210, s1: 0x4c3b73557711e6f7 });

    let mut state = GeneratorState { s0: 1, s1: 2 };
    assert_eq!(state.xor_shift_128_plus_forward(), 0x0000000000800045);
    assert_eq!(state, GeneratorState { s0: 2, s1: 0x0000000000800043 });

    // the sum wraps
    let mut state = GeneratorState { s0: u64::MAX, s1: u64::MAX };
    assert_eq!(state.xor_shift_128_plus_forward(), 0xffffffc0007fffbf);
    assert_eq!(state, GeneratorState { s0: u64::MAX, s1: 0xffffffc0007fffc0 });
}

#[test]
fn a_step_back_undoes_a_tick() {
    let mut x: u64 = 0x2545_F491_4F6C_DD1D;
    for _ in 0..500 {
        x ^= x << 13;
        x ^= x >> 7;
        x ^= x << 17;
        let start = GeneratorState { s0: x, s1: x.rotate_left(29) ^ 0x5555 };

        let mut state = start;
        state.xor_shift_128_plus_forward();
        let ticked = state;
        let word = state.xor_shift_128_plus_reverse();
        assert_eq!(state, start);
        assert_eq!(word, ticked.s0);

        let mut state = start;
        state.xor_shift_128_plus_reverse();
        state.xor_shift_128_plus_forward();
        assert_eq!(state, start);
    }
}

#[test]
fn the_zero_state_stays_zero() {
    let mut state = GeneratorState::zero();
    assert_eq!(state, GeneratorState { s0: 0, s1: 0 });
    assert_eq!(state.xor_shift_128_plus_forward(), 0);
    assert_eq!(state.xor_shift_128_plus_reverse(), 0);
    assert_eq!(state, GeneratorState { s0: 0, s1: 0 });
}

#[test]
fn each_rule_steps_in_its_direction() {
    assert_eq!(EngineRule::V8.replay_direction(), Replay::Reverse);
    assert_eq!(EngineRule::LegacyNode.replay_direction(), Replay::Reverse);
    assert_eq!(EngineRule::WordSum.replay_direction(), Replay::Forward);

    let start = GeneratorState { s0: 0x0123456789abcdef, s1: 0xfedcba9876543210 };
    for rule in [EngineRule::V8, EngineRule::LegacyNode] {
        let mut state = start;
        assert_eq!(rule.xor_shift_128_plus_concrete(&mut state), 0x0123456789abcdef);
        assert_eq!(state, GeneratorState { s0: 0x58a6974eb22e9d8a, s1: 0x0123456789abcdef });
    }
    let mut state = start;
    assert_eq!(EngineRule::WordSum.xor_shift_128_plus_concrete(&mut state), 0x4b182deded661907);
    assert_eq!(state, GeneratorState { s0: 0xfedcba9876543210, s1: 0x4c3b73557711e6f7 });
}
