//! IEEE 754 double-precision numbers, carried by their 64 bits.
//!
//! The generators hand out doubles of the form `m / 2^53` or `m / 2^52`.
//! Such a number and the integer `m` determine each other exactly, so the
//! library never rounds: it works on the bit pattern and states what it
//! computes over the number's magnitude in units of `2^-1074`, the smallest
//! double, in which every finite double is a whole number.
use vstd::prelude::*;
use vstd::arithmetic::power2::*;
use vstd::arithmetic::div_mod::*;
use vstd::arithmetic::mul::*;
use vstd::bits::*;

verus! {

/// 2^52: the number of values of the fraction field.
pub const TWO_POW_52: u64 = 0x10_0000_0000_0000;

/// 2^53: the number of values that a generator's double can take.
pub const TWO_POW_53: u64 = 0x20_0000_0000_0000;

/// The bits of the double 1.0.
pub const ONE_BITS: u64 = 0x3FF0_0000_0000_0000;

/// A double-precision number, held as its bit pattern.
#[derive(Clone, Copy, Debug, PartialEq, Eq, Structural)]
pub struct Double {
    pub bits: u64,
}

/// Whether `d` is the number `numerator / 2^shift`.
pub open spec fn is_dyadic(d: Double, numerator: nat, shift: nat) -> bool {
    &&& d.sign() == 0
    &&& d.is_finite()
    &&& d.magnitude() == numerator * pow2((1074 - shift) as nat)
}

/// The double `numerator / 2^shift`, where there is one.
pub open spec fn dyadic(numerator: nat, shift: nat) -> Double {
    choose|d: Double| is_dyadic(d, numerator, shift)
}

/// The integer nearest to `v / 2^n`; of two equally near ones, the even one.
pub open spec fn round_half_even(v: nat, n: nat) -> nat
    recommends
        n >= 1,
{
    let q = v / pow2(n);
    let r = v % pow2(n);
    let half = pow2((n - 1) as nat);
    if r > half || (r == half && q % 2 == 1) {
        q + 1
    } else {
        q
    }
}

impl Double {
    /// The sign bit: 1 for a negative number.
    pub open spec fn sign(self) -> nat {
        self.bits as nat / 0x8000_0000_0000_0000
    }

    /// The 11-bit exponent field.
    pub open spec fn exponent(self) -> nat {
        (self.bits as nat / 0x10_0000_0000_0000) % 0x800
    }

    /// The 52-bit fraction field.
    pub open spec fn fraction(self) -> nat {
        self.bits as nat % 0x10_0000_0000_0000
    }

    /// Neither an infinity nor a NaN.
    pub open spec fn is_finite(self) -> bool {
        self.exponent() != 0x7FF
    }

    /// The absolute value of a finite double, in units of `2^-1074`.
    pub open spec fn magnitude(self) -> nat {
        if self.exponent() == 0 {
            self.fraction()
        } else {
            (0x10_0000_0000_0000 + self.fraction()) * pow2((self.exponent() - 1) as nat)
        }
    }

    /// The number lies in `[0, 1)`, as every output of `Math.random()` does.
    pub open spec fn is_unit(self) -> bool {
        self.bits < ONE_BITS
    }

    /// Not a number.
    pub open spec fn is_nan(self) -> bool {
        self.exponent() == 0x7FF && self.fraction() != 0
    }

    /// Zero, of either sign.
    pub open spec fn is_zero(self) -> bool {
        self.exponent() == 0 && self.fraction() == 0
    }

    /// Equality of the two numbers, as floating-point comparison has it: a
    /// NaN equals nothing, the two zeros equal each other, and otherwise
    /// the bits decide.
    pub open spec fn same_number(self, other: Double) -> bool {
        &&& !self.is_nan()
        &&& !other.is_nan()
        &&& (self.bits == other.bits || (self.is_zero() && other.is_zero()))
    }

    /// Whether the two numbers are equal.
    pub fn equals(self, other: Double) -> (equal: bool)
        ensures
            equal == self.same_number(other),
    {
        let a: u64 = self.bits;
        let b: u64 = other.bits;
        proof {
            lemma_magnitude_bits(a);
            lemma_magnitude_bits(b);
        }
        let a_magnitude: u64 = a & 0x7FFF_FFFF_FFFF_FFFF;
        let b_magnitude: u64 = b & 0x7FFF_FFFF_FFFF_FFFF;
        if a_magnitude > 0x7FF0_0000_0000_0000 || b_magnitude > 0x7FF0_0000_0000_0000 {
            return false;
        }
        a == b || (a_magnitude == 0 && b_magnitude == 0)
    }

    /// The double with the given bits.
    pub fn from_bits(bits: u64) -> (d: Double)
        ensures
            d.bits == bits,
    {
        Double { bits }
    }

    /// The double's bits.
    pub fn to_bits(self) -> (bits: u64)
        ensures
            bits == self.bits,
    {
        self.bits
    }

    /// Whether the number lies in `[0, 1)`.
    pub fn in_unit_interval(self) -> (unit: bool)
        ensures
            unit == self.is_unit(),
    {
        self.bits < ONE_BITS
    }

    /// The double `numerator / 2^shift`, which is exact for a numerator below
    /// 2^53.
    pub fn from_dyadic(numerator: u64, shift: u32) -> (d: Double)
        requires
            numerator < TWO_POW_53,
            shift <= 1022,
        ensures
            is_dyadic(d, numerator as nat, shift as nat),
            d == dyadic(numerator as nat, shift as nat),
            numerator < pow2(shift as nat) ==> d.is_unit(),
    {
        if numerator == 0 {
            let zero = Double { bits: 0 };
            proof {
                lemma_mul_basics(pow2((1074 - shift) as nat) as int);
                lemma_dyadic_is_unique(zero, numerator as nat, shift as nat);
            }
            return zero;
        }
        let mut m: u64 = numerator;
        let mut e: u64 = 1075 - shift as u64;
        let ghost mut doublings: nat = 0;
        proof {
            lemma2_to64();
            lemma2_to64_rest();
        }
        while m < TWO_POW_52
            invariant
                0 < numerator <= m < TWO_POW_53,
                shift <= 1022,
                m == numerator * pow2(doublings),
                e + doublings == 1075 - shift,
                pow2(52) == 0x10_0000_0000_0000,
            decreases TWO_POW_53 - m,
        {
            proof {
                // 2^doublings <= m < 2^52, so fewer than 52 doublings were made.
                lemma_pow2_pos(doublings);
                lemma_mul_inequality(1, numerator as int, pow2(doublings) as int);
                assert(pow2(doublings) <= m);
                if doublings >= 52 {
                    if doublings > 52 {
                        lemma_pow2_strictly_increases(52, doublings);
                    }
                    assert(false);
                }
                lemma_pow2_unfold(doublings + 1);
                lemma_mul_is_associative(numerator as int, pow2(doublings) as int, 2);
            }
            m = m * 2;
            e = e - 1;
            proof {
                doublings = doublings + 1;
            }
        }
        proof {
            lemma_pow2_pos(doublings);
            lemma_mul_inequality(1, numerator as int, pow2(doublings) as int);
            if doublings >= 53 {
                if doublings > 53 {
                    lemma_pow2_strictly_increases(53, doublings);
                }
                assert(false);
            }
            // m * 2^(e-1) == numerator * 2^doublings * 2^(e-1)
            lemma_pow2_adds(doublings, (e - 1) as nat);
            lemma_mul_is_associative(
                numerator as int,
                pow2(doublings) as int,
                pow2((e - 1) as nat) as int,
            );
        }
        let bits: u64 = e * TWO_POW_52 + (m - TWO_POW_52);
        let d = Double { bits };
        assert(d.exponent() == e);
        assert(d.fraction() == m - TWO_POW_52);
        proof {
            if numerator < pow2(shift as nat) {
                // 2^52 <= m < 2^(shift + doublings), so the exponent field is below 1023.
                lemma_pow2_adds(shift as nat, doublings);
                lemma_pow2_pos(doublings);
                lemma_mul_strict_inequality(
                    numerator as int,
                    pow2(shift as nat) as int,
                    pow2(doublings) as int,
                );
                if shift + doublings <= 52 {
                    if shift + doublings < 52 {
                        lemma_pow2_strictly_increases(shift as nat + doublings, 52);
                    }
                    assert(false);
                }
            }
            lemma_dyadic_is_unique(d, numerator as nat, shift as nat);
        }
        d
    }

    /// `floor(value * 2^shift)` for a number in `[0, 1)`: the integer below
    /// which the first `shift` binary places of the number lie.
    pub fn scaled_floor(self, shift: u32) -> (m: u64)
        requires
            self.is_unit(),
            shift <= 63,
        ensures
            m == self.magnitude() / pow2((1074 - shift) as nat),
    {
        let e: u64 = self.bits >> 52;
        let f: u64 = self.bits & 0xF_FFFF_FFFF_FFFF;
        proof {
            lemma_unit_fields(self);
            lemma2_to64();
            lemma2_to64_rest();
            lemma_pow2_pos((1074 - shift) as nat);
        }
        if e == 0 {
            proof {
                lemma_pow2_strictly_increases(52, (1074 - shift) as nat);
                lemma_small_div_converse(f as int, pow2((1074 - shift) as nat) as int);
                lemma_basic_div(f as int, pow2((1074 - shift) as nat) as int);
            }
            return 0;
        }
        let m: u64 = TWO_POW_52 + f;
        let up: u64 = e + shift as u64;
        if up >= 1075 {
            let x: u64 = up - 1075;
            proof {
                lemma_scale_up(m as nat, (1074 - shift) as nat, x as nat);
                assert(pow2(x as nat) <= 1024) by {
                    if x < 10 {
                        lemma_pow2_strictly_increases(x as nat, 10);
                    }
                }
                lemma_mul_inequality(pow2(x as nat) as int, 1024, m as int);
                lemma_mul_is_commutative(pow2(x as nat) as int, m as int);
                lemma_u64_shl_is_mul(m, x);
            }
            m << x
        } else {
            let y: u64 = 1075 - up;
            proof {
                lemma_scale_down(m as nat, (e - 1) as nat, y as nat);
                lemma_pow2_pos(y as nat);
            }
            if y >= 64 {
                proof {
                    lemma_pow2_strictly_increases(53, y as nat);
                    lemma_basic_div(m as int, pow2(y as nat) as int);
                }
                0
            } else {
                proof {
                    lemma_u64_shr_is_div(m, y);
                }
                m >> y
            }
        }
    }

    /// The fraction field of `value + 1.0`, for a number in `[0, 1)`. The sum
    /// lies in `[1, 2]`, where doubles are `2^-52` apart, so the field is the
    /// number's multiple of `2^-52` rounded to nearest, ties to even; a sum
    /// that rounds up to 2.0 has the field 0.
    pub fn successor_fraction(self) -> (m: u64)
        requires
            self.is_unit(),
        ensures
            m == round_half_even(self.magnitude(), 1022) % pow2(52),
    {
        let e: u64 = self.bits >> 52;
        let f: u64 = self.bits & 0xF_FFFF_FFFF_FFFF;
        proof {
            lemma_unit_fields(self);
            lemma2_to64();
            lemma2_to64_rest();
            lemma_pow2_pos(1022);
            lemma_pow2_pos(1021);
        }
        if e == 0 {
            proof {
                lemma_pow2_strictly_increases(52, 1021);
                lemma_pow2_strictly_increases(1021, 1022);
                lemma_basic_div(f as int, pow2(1022) as int);
                lemma_small_mod(f as nat, pow2(1022));
            }
            return 0;
        }
        let m: u64 = TWO_POW_52 + f;
        let s: u64 = 1023 - e;
        proof {
            lemma_scale_down(m as nat, (e - 1) as nat, s as nat);
            lemma_scale_rest(m as nat, (e - 1) as nat, s as nat);
            lemma_pow2_adds((e - 1) as nat, (s - 1) as nat);
            lemma_pow2_pos(s as nat);
            lemma_pow2_pos((s - 1) as nat);
            lemma_pow2_pos((e - 1) as nat);
            lemma_compare_scaled(
                m as nat % pow2(s as nat),
                pow2((s - 1) as nat),
                pow2((e - 1) as nat),
            );
        }
        if s >= 54 {
            proof {
                lemma_pow2_strictly_increases(53, s as nat);
                if s > 54 {
                    lemma_pow2_strictly_increases(53, (s - 1) as nat);
                }
                lemma_basic_div(m as int, pow2(s as nat) as int);
                lemma_small_mod(m as nat, pow2(s as nat));
            }
            return 0;
        }
        let q: u64 = m >> s;
        proof {
            lemma_u64_shr_is_div(m, s);
            lemma_fundamental_div_mod(m as int, pow2(s as nat) as int);
            lemma_mul_is_commutative(q as int, pow2(s as nat) as int);
            lemma_mod_bound(m as int, pow2(s as nat) as int);
            lemma_u64_shl_is_mul(q, s);
            if s < 53 {
                lemma_pow2_strictly_increases((s - 1) as nat, 52);
            }
            lemma_u64_shl_is_mul(1, (s - 1) as u64);
            // the quotient of a 53-bit number by at least 2 has at most 52 bits
            lemma_pow2_unfold(s as nat);
            assert(q < TWO_POW_52) by {
                lemma_mul_inequality(2, pow2(s as nat) as int, q as int);
                lemma_mul_is_commutative(2, q as int);
            }
        }
        let r: u64 = m - (q << s);
        let half: u64 = 1u64 << (s - 1);
        let rounded: u64 = if r > half || (r == half && q % 2 == 1) {
            q + 1
        } else {
            q
        };
        rounded % TWO_POW_52
    }
}

/// A number in `[0, 1)` is not negative and its exponent field is below that
/// of 1.0; its fields are the bits above and below bit 52.
pub proof fn lemma_unit_fields(d: Double)
    requires
        d.is_unit(),
    ensures
        d.sign() == 0,
        d.exponent() <= 1022,
        d.is_finite(),
        d.exponent() == d.bits >> 52,
        d.fraction() == d.bits & 0xF_FFFF_FFFF_FFFF,
{
    let b = d.bits;
    assert(b >> 52 == b / 0x10_0000_0000_0000) by (bit_vector);
    assert(b & 0xF_FFFF_FFFF_FFFF == b % 0x10_0000_0000_0000) by (bit_vector);
}

/// `(m * 2^(p + x)) / 2^p == m * 2^x`.
proof fn lemma_scale_up(m: nat, p: nat, x: nat)
    ensures
        (m * pow2(p + x)) / pow2(p) == m * pow2(x),
{
    lemma_pow2_adds(p, x);
    lemma_pow2_pos(p);
    lemma_mul_is_commutative(pow2(p) as int, pow2(x) as int);
    lemma_mul_is_associative(m as int, pow2(x) as int, pow2(p) as int);
    lemma_div_by_multiple((m * pow2(x)) as int, pow2(p) as int);
}

/// `(m * 2^p) / 2^(p + y) == m / 2^y`.
proof fn lemma_scale_down(m: nat, p: nat, y: nat)
    ensures
        (m * pow2(p)) / pow2(p + y) == m / pow2(y),
{
    lemma_pow2_adds(p, y);
    lemma_pow2_pos(p);
    lemma_pow2_pos(y);
    lemma_div_multiples_vanish_quotient(pow2(p) as int, m as int, pow2(y) as int);
    lemma_mul_is_commutative(pow2(p) as int, m as int);
}

/// `(m * 2^p) % 2^(p + y) == (m % 2^y) * 2^p`.
proof fn lemma_scale_rest(m: nat, p: nat, y: nat)
    ensures
        (m * pow2(p)) % pow2(p + y) == (m % pow2(y)) * pow2(p),
{
    lemma_pow2_adds(p, y);
    lemma_pow2_pos(p);
    lemma_pow2_pos(y);
    lemma_truncate_middle(m as int, pow2(p) as int, pow2(y) as int);
    lemma_mul_is_commutative(pow2(p) as int, m as int);
    lemma_mul_is_commutative(pow2(p) as int, (m % pow2(y)) as int);
}

/// Multiplying both sides by a positive number keeps their order.
proof fn lemma_compare_scaled(a: nat, b: nat, k: nat)
    requires
        k > 0,
    ensures
        (a * k > b * k) == (a > b),
        (a * k == b * k) == (a == b),
{
    if a > b {
        lemma_mul_strict_inequality(b as int, a as int, k as int);
    } else if a < b {
        lemma_mul_strict_inequality(a as int, b as int, k as int);
    }
}

/// Where a finite double's magnitude lies, by its exponent field.
pub proof fn lemma_magnitude_bounds(d: Double)
    requires
        d.is_finite(),
    ensures
        d.exponent() == 0 ==> d.magnitude() < pow2(52),
        d.exponent() >= 1 ==> pow2(51 + d.exponent()) <= d.magnitude() < pow2(52 + d.exponent()),
{
    lemma2_to64_rest();
    let e = d.exponent();
    let f = d.fraction();
    if e >= 1 {
        let p = pow2((e - 1) as nat);
        lemma_pow2_pos((e - 1) as nat);
        lemma_pow2_adds(52, (e - 1) as nat);
        lemma_pow2_adds(53, (e - 1) as nat);
        lemma_mul_inequality(pow2(52) as int, (pow2(52) + f) as int, p as int);
        lemma_mul_strict_inequality((pow2(52) + f) as int, pow2(53) as int, p as int);
    }
}

/// Sign and magnitude determine a finite double: no two bit patterns stand
/// for the same finite number, but for the two zeros, which differ in sign.
pub proof fn lemma_magnitude_determines_bits(a: Double, b: Double)
    requires
        a.is_finite(),
        b.is_finite(),
        a.sign() == b.sign(),
        a.magnitude() == b.magnitude(),
    ensures
        a.bits == b.bits,
{
    lemma_magnitude_bounds(a);
    lemma_magnitude_bounds(b);
    let ea = a.exponent();
    let eb = b.exponent();
    if ea < eb {
        if 52 + ea < 51 + eb {
            lemma_pow2_strictly_increases(52 + ea, 51 + eb);
        }
        assert(false);
    }
    if eb < ea {
        if 52 + eb < 51 + ea {
            lemma_pow2_strictly_increases(52 + eb, 51 + ea);
        }
        assert(false);
    }
    if ea >= 1 {
        lemma_pow2_pos((ea - 1) as nat);
        lemma_compare_scaled(
            0x10_0000_0000_0000 + a.fraction(),
            0x10_0000_0000_0000 + b.fraction(),
            pow2((ea - 1) as nat),
        );
    }
    assert(a.fraction() == b.fraction());
    let x = a.bits;
    let y = b.bits;
    assert(x == (x / 0x8000_0000_0000_0000) * 0x8000_0000_0000_0000 + ((x / 0x10_0000_0000_0000)
        % 0x800) * 0x10_0000_0000_0000 + x % 0x10_0000_0000_0000) by (bit_vector);
    assert(y == (y / 0x8000_0000_0000_0000) * 0x8000_0000_0000_0000 + ((y / 0x10_0000_0000_0000)
        % 0x800) * 0x10_0000_0000_0000 + y % 0x10_0000_0000_0000) by (bit_vector);
}

/// A double that is not negative lies in `[0, 1)` exactly when its magnitude
/// is below that of 1.0, which is `2^1074` units.
pub proof fn lemma_unit_is_below_one(d: Double)
    requires
        d.sign() == 0,
        d.is_finite(),
    ensures
        d.is_unit() <==> d.magnitude() < pow2(1074),
{
    lemma_magnitude_bounds(d);
    let e = d.exponent();
    let b = d.bits;
    assert(b / 0x8000_0000_0000_0000 == 0 ==> (b < 0x3FF0_0000_0000_0000 <==> (b
        / 0x10_0000_0000_0000) % 0x800 < 1023)) by (bit_vector);
    if e <= 1022 {
        if 52 + e < 1074 {
            lemma_pow2_strictly_increases(52 + e, 1074);
        }
    } else {
        if 1074 < 51 + e {
            lemma_pow2_strictly_increases(1074, 51 + e);
        }
    }
}

/// At most one double is `numerator / 2^shift`.
pub proof fn lemma_dyadic_is_unique(d: Double, numerator: nat, shift: nat)
    requires
        is_dyadic(d, numerator, shift),
    ensures
        d == dyadic(numerator, shift),
{
    lemma_magnitude_determines_bits(d, dyadic(numerator, shift));
}

/// How often a positive number below 2^53 must be doubled to reach
/// `[2^52, 2^53)`.
proof fn lemma_normalize(numerator: nat) -> (doublings: nat)
    requires
        0 < numerator < pow2(53),
    ensures
        pow2(52) <= numerator * pow2(doublings) < pow2(53),
        doublings <= 52,
    decreases pow2(53) - numerator,
{
    lemma2_to64();
    lemma2_to64_rest();
    if numerator >= pow2(52) {
        0
    } else {
        let k = lemma_normalize(2 * numerator);
        lemma_pow2_unfold(k + 1);
        lemma_mul_is_associative(numerator as int, 2, pow2(k) as int);
        lemma_mul_is_commutative(numerator as int, 2);
        if k + 1 > 52 {
            lemma_pow2_pos(k + 1);
            if k + 1 > 53 {
                lemma_pow2_strictly_increases(53, k + 1);
            }
            lemma_mul_inequality(1, numerator as int, pow2(k + 1) as int);
            assert(false);
        }
        k + 1
    }
}

/// For a numerator below 2^53 and a shift of at most 1022 there is such a
/// double.
pub proof fn lemma_dyadic_exists(numerator: nat, shift: nat)
    requires
        numerator < pow2(53),
        shift <= 1022,
    ensures
        is_dyadic(dyadic(numerator, shift), numerator, shift),
{
    lemma2_to64_rest();
    if numerator == 0 {
        let zero = Double { bits: 0 };
        lemma_mul_basics(pow2((1074 - shift) as nat) as int);
        assert(is_dyadic(zero, numerator, shift));
    } else {
        let k = lemma_normalize(numerator);
        let m = numerator * pow2(k);
        let e = (1075 - shift - k) as nat;
        let bits = (e * 0x10_0000_0000_0000 + (m - 0x10_0000_0000_0000)) as u64;
        let d = Double { bits };
        assert(d.exponent() == e);
        assert(d.fraction() == m - 0x10_0000_0000_0000);
        lemma_pow2_adds(k, (e - 1) as nat);
        lemma_mul_is_associative(numerator as int, pow2(k) as int, pow2((e - 1) as nat) as int);
        assert(is_dyadic(d, numerator, shift));
    }
}

/// The bits below the sign tell a NaN, which lies above the infinity, and a
/// zero.
proof fn lemma_magnitude_bits(b: u64)
    ensures
        (b & 0x7FFF_FFFF_FFFF_FFFF) > 0x7FF0_0000_0000_0000 <==> (Double { bits: b }).is_nan(),
        (b & 0x7FFF_FFFF_FFFF_FFFF) == 0 <==> (Double { bits: b }).is_zero(),
{
    assert((b & 0x7FFF_FFFF_FFFF_FFFF) > 0x7FF0_0000_0000_0000 <==> ((b / 0x10_0000_0000_0000)
        % 0x800 == 0x7FF && b % 0x10_0000_0000_0000 != 0)) by (bit_vector);
    assert((b & 0x7FFF_FFFF_FFFF_FFFF) == 0 <==> ((b / 0x10_0000_0000_0000) % 0x800 == 0 && b
        % 0x10_0000_0000_0000 == 0)) by (bit_vector);
}

} // verus!
