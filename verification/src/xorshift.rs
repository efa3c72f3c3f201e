//! The xorshift128+ recurrence on 64-bit words: the transition that the
//! engines run, in the two directions in which a predictor replays it.
use vstd::prelude::*;

verus! {

/// The generator's whole state: two 64-bit words.
#[derive(Clone, Copy, Debug, PartialEq, Eq, Structural)]
pub struct GeneratorState {
    pub s0: u64,
    pub s1: u64,
}

/// Sum of two words modulo 2^64.
pub open spec fn wrapping_sum(a: u64, b: u64) -> u64 {
    ((a as int + b as int) % 0x1_0000_0000_0000_0000) as u64
}

/// One tick of the generator, as every engine computes it.
pub open spec fn transition(s: GeneratorState) -> GeneratorState {
    let t = s.s0 ^ (s.s0 << 23);
    let t = t ^ (t >> 17);
    let t = t ^ s.s1;
    let t = t ^ (s.s1 >> 26);
    GeneratorState { s0: s.s1, s1: t }
}

/// The state one tick before `s`: what `transition` maps to `s`.
pub open spec fn transition_back(s: GeneratorState) -> GeneratorState {
    let u = s.s1 ^ (s.s0 >> 26);
    let u = u ^ s.s0;
    let u = u ^ (u >> 17) ^ (u >> 34) ^ (u >> 51);
    let u = u ^ (u << 23) ^ (u << 46);
    GeneratorState { s0: u, s1: s.s0 }
}

/// `transition` applied `n` times.
pub open spec fn transition_n(s: GeneratorState, n: nat) -> GeneratorState
    decreases n,
{
    if n == 0 {
        s
    } else {
        transition(transition_n(s, (n - 1) as nat))
    }
}

/// `transition_back` applied `n` times.
pub open spec fn transition_back_n(s: GeneratorState, n: nat) -> GeneratorState
    decreases n,
{
    if n == 0 {
        s
    } else {
        transition_back(transition_back_n(s, (n - 1) as nat))
    }
}

impl GeneratorState {
    /// The all-zero state a predictor holds before it has recovered one.
    pub fn zero() -> (state: GeneratorState)
        ensures
            state == (GeneratorState { s0: 0, s1: 0 }),
    {
        GeneratorState { s0: 0, s1: 0 }
    }

    /// Steps the generator one tick backwards and returns the word that the
    /// state held before: the first state word. This is the order in which
    /// V8 hands out the words of a batch.
    pub fn xor_shift_128_plus_reverse(&mut self) -> (word: u64)
        ensures
            word == old(self).s0,
            *final(self) == transition_back(*old(self)),
    {
        let result: u64 = self.s0;
        let t1: u64 = self.s0;
        let mut t0: u64 = self.s1 ^ (self.s0 >> 26);
        t0 = t0 ^ self.s0;
        t0 = t0 ^ (t0 >> 17) ^ (t0 >> 34) ^ (t0 >> 51);
        t0 = t0 ^ (t0 << 23) ^ (t0 << 46);
        self.s0 = t0;
        self.s1 = t1;
        result
    }

    /// Steps the generator one tick forwards and returns the sum of the two
    /// new state words modulo 2^64, as Firefox and Safari do.
    pub fn xor_shift_128_plus_forward(&mut self) -> (word: u64)
        ensures
            *final(self) == transition(*old(self)),
            word == wrapping_sum(final(self).s0, final(self).s1),
    {
        let mut s1: u64 = self.s0;
        let s0: u64 = self.s1;
        self.s0 = s0;
        s1 = s1 ^ (s1 << 23);
        self.s1 = s1 ^ s0 ^ (s1 >> 17) ^ (s0 >> 26);
        proof {
            let a = old(self).s0;
            let b = old(self).s1;
            assert((a ^ (a << 23)) ^ b ^ ((a ^ (a << 23)) >> 17) ^ (b >> 26) == (((a ^ (a << 23))
                ^ ((a ^ (a << 23)) >> 17)) ^ b) ^ (b >> 26)) by (bit_vector);
        }
        self.s1.wrapping_add(s0)
    }
}

/// Stepping backwards undoes a tick.
pub proof fn lemma_back_undoes_transition(s: GeneratorState)
    ensures
        transition_back(transition(s)) == s,
{
    let a = s.s0;
    let b = s.s1;
    let x = a ^ (a << 23);
    let t = ((x ^ (x >> 17)) ^ b) ^ (b >> 26);
    let u = (t ^ (b >> 26)) ^ b;
    assert(u == x ^ (x >> 17)) by (bit_vector)
        requires
            t == ((x ^ (x >> 17)) ^ b) ^ (b >> 26),
            u == (t ^ (b >> 26)) ^ b,
    ;
    let v = u ^ (u >> 17) ^ (u >> 34) ^ (u >> 51);
    assert(v == x) by (bit_vector)
        requires
            u == x ^ (x >> 17),
            v == u ^ (u >> 17) ^ (u >> 34) ^ (u >> 51),
    ;
    let w = v ^ (v << 23) ^ (v << 46);
    assert(w == a) by (bit_vector)
        requires
            v == a ^ (a << 23),
            w == v ^ (v << 23) ^ (v << 46),
    ;
}

/// A tick undoes a step backwards.
pub proof fn lemma_transition_undoes_back(s: GeneratorState)
    ensures
        transition(transition_back(s)) == s,
{
    let p = s.s0;
    let q = s.s1;
    let u = (q ^ (p >> 26)) ^ p;
    let v = u ^ (u >> 17) ^ (u >> 34) ^ (u >> 51);
    let w = v ^ (v << 23) ^ (v << 46);
    let x = w ^ (w << 23);
    assert(x == v) by (bit_vector)
        requires
            w == v ^ (v << 23) ^ (v << 46),
            x == w ^ (w << 23),
    ;
    let y = x ^ (x >> 17);
    assert(y == u) by (bit_vector)
        requires
            x == u ^ (u >> 17) ^ (u >> 34) ^ (u >> 51),
            y == x ^ (x >> 17),
    ;
    let z = (y ^ p) ^ (p >> 26);
    assert(z == q) by (bit_vector)
        requires
            y == (q ^ (p >> 26)) ^ p,
            z == (y ^ p) ^ (p >> 26),
    ;
}

/// `n` ticks are one tick followed by `n - 1` ticks.
pub proof fn lemma_transition_n_shifts(s: GeneratorState, n: nat)
    requires
        n >= 1,
    ensures
        transition_n(s, n) == transition_n(transition(s), (n - 1) as nat),
    decreases n,
{
    reveal_with_fuel(transition_n, 2);
    if n > 1 {
        lemma_transition_n_shifts(s, (n - 1) as nat);
    }
}

/// `n` steps backwards are one step backwards followed by `n - 1` more.
pub proof fn lemma_transition_back_n_shifts(s: GeneratorState, n: nat)
    requires
        n >= 1,
    ensures
        transition_back_n(s, n) == transition_back_n(transition_back(s), (n - 1) as nat),
    decreases n,
{
    reveal_with_fuel(transition_back_n, 2);
    if n > 1 {
        lemma_transition_back_n_shifts(s, (n - 1) as nat);
    }
}

/// Ticks add up.
pub proof fn lemma_transition_n_adds(s: GeneratorState, a: nat, b: nat)
    ensures
        transition_n(transition_n(s, a), b) == transition_n(s, a + b),
    decreases b,
{
    if b > 0 {
        lemma_transition_n_adds(s, a, (b - 1) as nat);
    }
}

/// `n` steps backwards undo `n` ticks.
pub proof fn lemma_back_n_undoes_n(s: GeneratorState, n: nat)
    ensures
        transition_back_n(transition_n(s, n), n) == s,
    decreases n,
{
    if n > 0 {
        let before = transition_n(s, (n - 1) as nat);
        lemma_transition_back_n_shifts(transition(before), n);
        lemma_back_undoes_transition(before);
        lemma_back_n_undoes_n(s, (n - 1) as nat);
    }
}

/// `n` ticks undo `n` steps backwards.
pub proof fn lemma_n_undoes_back_n(s: GeneratorState, n: nat)
    ensures
        transition_n(transition_back_n(s, n), n) == s,
    decreases n,
{
    if n > 0 {
        let before = transition_back_n(s, (n - 1) as nat);
        lemma_transition_n_shifts(transition_back(before), n);
        lemma_transition_undoes_back(before);
        lemma_n_undoes_back_n(s, (n - 1) as nat);
    }
}

/// Stepping `i` times backwards from the state after `k` ticks gives the
/// state after `k - i` ticks.
pub proof fn lemma_back_from_ahead(s: GeneratorState, k: nat, i: nat)
    requires
        i <= k,
    ensures
        transition_back_n(transition_n(s, k), i) == transition_n(s, (k - i) as nat),
{
    lemma_transition_n_adds(s, (k - i) as nat, i);
    lemma_back_n_undoes_n(transition_n(s, (k - i) as nat), i);
}

} // verus!
