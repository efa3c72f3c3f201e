//! What differs between the engines: which way a predictor replays the
//! generator, which word a tick hands out, and how a word becomes a double.
use vstd::prelude::*;
use vstd::arithmetic::power2::*;
use vstd::arithmetic::div_mod::*;
use vstd::arithmetic::mul::*;
use crate::double::{
    dyadic, is_dyadic, lemma_dyadic_exists, lemma_unit_fields, lemma_unit_is_below_one,
    round_half_even, Double, ONE_BITS,
};
use crate::xorshift::{transition, transition_back, wrapping_sum, GeneratorState};

verus! {

/// The low 53 bits of a word.
pub const MASK_53: u64 = 0x1F_FFFF_FFFF_FFFF;

/// The order in which a predictor meets the generator's states.
#[derive(Clone, Copy, Debug, PartialEq, Eq, Structural)]
pub enum Replay {
    /// Each output comes from the state one tick before the last one: the
    /// engine computes a batch of states ahead and hands them out last first.
    Reverse,
    /// Each output comes from the state one tick after the last one.
    Forward,
}

/// One engine family's way from generator state to observed double.
#[derive(Clone, Copy, Debug, PartialEq, Eq, Structural)]
pub enum EngineRule {
    /// Chrome, and Node.js from version 24 on: the top 53 bits of the first
    /// state word, over 2^53.
    V8,
    /// Node.js before version 24: the top 52 bits of the first state word as
    /// the fraction of a double in `[1, 2)`, less one.
    LegacyNode,
    /// Firefox and Safari: the low 53 bits of the sum of both state words,
    /// over 2^53.
    WordSum,
}

impl EngineRule {
    /// The direction of replay.
    pub open spec fn replay(self) -> Replay {
        match self {
            EngineRule::V8 => Replay::Reverse,
            EngineRule::LegacyNode => Replay::Reverse,
            EngineRule::WordSum => Replay::Forward,
        }
    }

    /// The number of bits of a word that reach the double.
    pub open spec fn precision(self) -> nat {
        match self {
            EngineRule::V8 => 53,
            EngineRule::LegacyNode => 52,
            EngineRule::WordSum => 53,
        }
    }

    /// The word that a generator in state `s` gives a double from.
    pub open spec fn word_of(self, s: GeneratorState) -> u64 {
        match self {
            EngineRule::V8 => s.s0,
            EngineRule::LegacyNode => s.s0,
            EngineRule::WordSum => wrapping_sum(s.s0, s.s1),
        }
    }

    /// The bits of a word that reach the double, as a number.
    pub open spec fn word_mantissa(self, word: u64) -> u64 {
        match self {
            EngineRule::V8 => word >> 11,
            EngineRule::LegacyNode => word >> 12,
            EngineRule::WordSum => word & MASK_53,
        }
    }

    /// The double that a word stands for: its mantissa over 2^53, or over
    /// 2^52 for Node.js before version 24.
    pub open spec fn decode(self, word: u64) -> Double {
        dyadic(self.word_mantissa(word) as nat, self.precision())
    }

    /// The number that the bits behind an observed double must equal:
    /// `floor(value * 2^53)`, or for Node.js before version 24 the fraction
    /// field of `value + 1.0`. A double of magnitude `v` has the value
    /// `v / 2^1074`.
    pub open spec fn sample_mantissa(self, sample: Double) -> nat {
        match self {
            EngineRule::V8 => sample.magnitude() / pow2(1021),
            EngineRule::LegacyNode => round_half_even(sample.magnitude(), 1022) % pow2(52),
            EngineRule::WordSum => sample.magnitude() / pow2(1021),
        }
    }

    /// Whether a word accounts for an observed double. No word accounts for
    /// a double outside `[0, 1)`: the engines hand out no such double.
    pub open spec fn explains(self, word: u64, sample: Double) -> bool {
        sample.is_unit() && self.word_mantissa(word) == self.sample_mantissa(sample)
    }

    /// The generator's state after the tick that starts in `s`, in the
    /// direction of replay.
    pub open spec fn next_state(self, s: GeneratorState) -> GeneratorState {
        match self.replay() {
            Replay::Reverse => transition_back(s),
            Replay::Forward => transition(s),
        }
    }

    /// The word that the tick starting in `s` hands out.
    pub open spec fn emitted(self, s: GeneratorState) -> u64 {
        match self.replay() {
            Replay::Reverse => self.word_of(s),
            Replay::Forward => self.word_of(transition(s)),
        }
    }

    /// The state after `n` ticks from `s`.
    pub open spec fn state_after(self, s: GeneratorState, n: nat) -> GeneratorState
        decreases n,
    {
        if n == 0 {
            s
        } else {
            self.next_state(self.state_after(s, (n - 1) as nat))
        }
    }

    /// The first `n` doubles that a generator in state `s` hands out.
    pub open spec fn outputs(self, s: GeneratorState, n: nat) -> Seq<Double> {
        Seq::new(n, |i: int| self.decode(self.emitted(self.state_after(s, i as nat))))
    }

    /// The direction of replay.
    pub fn replay_direction(self) -> (direction: Replay)
        ensures
            direction == self.replay(),
    {
        match self {
            EngineRule::V8 => Replay::Reverse,
            EngineRule::LegacyNode => Replay::Reverse,
            EngineRule::WordSum => Replay::Forward,
        }
    }

    /// Advances the generator by one tick and returns the word it hands out.
    pub fn xor_shift_128_plus_concrete(self, state: &mut GeneratorState) -> (word: u64)
        ensures
            *final(state) == self.next_state(*old(state)),
            word == self.emitted(*old(state)),
    {
        match self {
            EngineRule::V8 => state.xor_shift_128_plus_reverse(),
            EngineRule::LegacyNode => state.xor_shift_128_plus_reverse(),
            EngineRule::WordSum => state.xor_shift_128_plus_forward(),
        }
    }

    /// The bits of a word that reach the double.
    pub fn mantissa_of_word(self, word: u64) -> (m: u64)
        ensures
            m == self.word_mantissa(word),
            m < pow2(self.precision()),
    {
        proof {
            lemma2_to64_rest();
            assert(word >> 11 < 0x20_0000_0000_0000) by (bit_vector);
            assert(word >> 12 < 0x10_0000_0000_0000) by (bit_vector);
            assert(word & 0x1F_FFFF_FFFF_FFFF < 0x20_0000_0000_0000) by (bit_vector);
        }
        match self {
            EngineRule::V8 => word >> 11,
            EngineRule::LegacyNode => word >> 12,
            EngineRule::WordSum => word & MASK_53,
        }
    }

    /// Turns a generator word into the double that the engine returns.
    pub fn to_double(self, word: u64) -> (d: Double)
        ensures
            d == self.decode(word),
            is_dyadic(d, self.word_mantissa(word) as nat, self.precision()),
            d.is_unit(),
    {
        let m: u64 = self.mantissa_of_word(word);
        proof {
            lemma2_to64_rest();
        }
        match self {
            EngineRule::V8 => Double::from_dyadic(m, 53),
            EngineRule::LegacyNode => Double::from_dyadic(m, 52),
            EngineRule::WordSum => Double::from_dyadic(m, 53),
        }
    }

    /// Recovers from an observed double the number that the generator's bits
    /// must equal.
    pub fn recover_mantissa(self, sample: Double) -> (m: u64)
        requires
            sample.is_unit(),
        ensures
            m == self.sample_mantissa(sample),
    {
        match self {
            EngineRule::V8 => sample.scaled_floor(53),
            EngineRule::LegacyNode => sample.successor_fraction(),
            EngineRule::WordSum => sample.scaled_floor(53),
        }
    }
}

/// Whether a generator that starts in `origin` accounts for the observed
/// doubles: tick by tick, the word it hands out explains the double observed.
pub open spec fn reproduces(rule: EngineRule, origin: GeneratorState, observed: Seq<Double>)
    -> bool {
    forall|i: int|
        0 <= i < observed.len() ==> rule.explains(
            rule.emitted(rule.state_after(origin, i as nat)),
            #[trigger] observed[i],
        )
}

/// Every decoded word lies in `[0, 1)`, and is the one double with its value.
pub proof fn lemma_decode_is_dyadic(rule: EngineRule, word: u64)
    ensures
        is_dyadic(rule.decode(word), rule.word_mantissa(word) as nat, rule.precision()),
        rule.decode(word).is_unit(),
{
    lemma2_to64_rest();
    let m = rule.word_mantissa(word);
    let p = rule.precision();
    assert(word >> 11 < 0x20_0000_0000_0000) by (bit_vector);
    assert(word >> 12 < 0x10_0000_0000_0000) by (bit_vector);
    assert(word & 0x1F_FFFF_FFFF_FFFF < 0x20_0000_0000_0000) by (bit_vector);
    assert(m < pow2(p));
    lemma_dyadic_exists(m as nat, p);
    let d = rule.decode(word);
    assert(is_dyadic(d, m as nat, p));
    // below one: m * 2^(1074 - p) < 2^p * 2^(1074 - p)
    lemma_pow2_adds(p, (1074 - p) as nat);
    lemma_pow2_pos((1074 - p) as nat);
    lemma_mul_strict_inequality(m as int, pow2(p) as int, pow2((1074 - p) as nat) as int);
    lemma_unit_is_below_one(d);
}

/// Decoding a word and recovering the mantissa of the double gives back the
/// bits of the word that were decoded: a generator's own output is explained
/// by the word it came from.
pub proof fn lemma_decode_then_recover(rule: EngineRule, word: u64)
    ensures
        rule.sample_mantissa(rule.decode(word)) == rule.word_mantissa(word),
        rule.explains(word, rule.decode(word)),
{
    lemma_decode_is_dyadic(rule, word);
    lemma2_to64_rest();
    let m = rule.word_mantissa(word) as nat;
    let d = rule.decode(word);
    assert(word >> 12 < 0x10_0000_0000_0000) by (bit_vector);
    match rule {
        EngineRule::LegacyNode => {
            lemma_pow2_pos(1022);
            lemma_pow2_pos(1021);
            lemma_div_by_multiple(m as int, pow2(1022) as int);
            lemma_mod_multiples_basic(m as int, pow2(1022) as int);
            assert(round_half_even(d.magnitude(), 1022) == m);
            lemma_small_mod(m, pow2(52));
        },
        _ => {
            lemma_pow2_pos(1021);
            lemma_div_by_multiple(m as int, pow2(1021) as int);
        },
    }
}

/// A double that some word decodes to is explained by exactly the words that
/// decode to it.
pub proof fn lemma_explains_own_outputs(rule: EngineRule, word: u64, other: u64)
    ensures
        rule.explains(word, rule.decode(other)) <==> rule.decode(word) == rule.decode(other),
{
    lemma_decode_then_recover(rule, other);
    lemma_decode_then_recover(rule, word);
}

/// The number recovered from a double in `[0, 1)` has as many bits as the
/// rule reads from a word.
pub proof fn lemma_mantissa_is_a_word(rule: EngineRule, sample: Double)
    requires
        sample.is_unit(),
    ensures
        rule.sample_mantissa(sample) < pow2(rule.precision()),
        rule.sample_mantissa(sample) <= u64::MAX,
{
    lemma2_to64_rest();
    lemma_unit_fields(sample);
    lemma_unit_is_below_one(sample);
    match rule {
        EngineRule::LegacyNode => {
            lemma_pow2_pos(52);
            lemma_mod_bound(round_half_even(sample.magnitude(), 1022) as int, pow2(52) as int);
        },
        _ => {
            lemma_pow2_pos(1021);
            lemma_pow2_adds(1021, 53);
            lemma_multiply_divide_lt(
                sample.magnitude() as int,
                pow2(1021) as int,
                pow2(53) as int,
            );
        },
    }
}

/// What Node.js before version 24 computes is what `decode` says. The
/// engine puts the top 52 bits of the word into the fraction field of a
/// double in `[1, 2)` and subtracts one; that double exceeds one by the
/// decoded double exactly, so nothing is rounded away.
pub proof fn lemma_legacy_decode_is_fraction_less_one(word: u64)
    ensures
        (Double { bits: (word >> 12) | ONE_BITS }).sign() == 0,
        (Double { bits: (word >> 12) | ONE_BITS }).exponent() == 1023,
        (Double { bits: (word >> 12) | ONE_BITS }).fraction() == word >> 12,
        (Double { bits: (word >> 12) | ONE_BITS }).magnitude() == pow2(1074)
            + EngineRule::LegacyNode.decode(word).magnitude(),
{
    let m = word >> 12;
    let b = m | ONE_BITS;
    assert(b / 0x8000_0000_0000_0000 == 0 && (b / 0x10_0000_0000_0000) % 0x800 == 1023 && b
        % 0x10_0000_0000_0000 == m) by (bit_vector)
        requires
            m == word >> 12,
            b == m | 0x3FF0_0000_0000_0000,
    ;
    lemma_decode_is_dyadic(EngineRule::LegacyNode, word);
    lemma2_to64_rest();
    lemma_pow2_adds(52, 1022);
    lemma_mul_is_distributive_add_other_way(pow2(1022) as int, pow2(52) as int, m as int);
}

} // verus!
