use js_randomness_predictor::double::{Double, ONE_BITS, TWO_POW_52, TWO_POW_53};
use js_randomness_predictor::engine::EngineRule;
use js_randomness_predictor::symbolic::is_unit_sequence;

fn double(value: f64) -> Double {
    Double::from_bits(value.to_bits())
}

fn float(d: Double) -> f64 {
    f64::from_bits(d.to_bits())
}

/// Words that cover the edges and a spread of bit patterns.
fn sample_words() -> Vec<u64> {
    let mut words = vec![
        0,
        1,
        2,
        0x7FF,
        0x800,
        0xFFF,
        0x1000,
        u64::MAX,
        u64::MAX - 1,
        0x8000_0000_0000_0000,
        0x7FFF_FFFF_FFFF_FFFF,
        0x0123_4567_89AB_CDEF,
        0x001F_FFFF_FFFF_FFFF,
        0x0020_0000_0000_0000,
    ];
    let mut x: u64 = 0x9E37_79B9_7F4A_7C15;
    for _ in 0..2000 {
        x ^= x << 13;
        x ^= x >> 7;
        x ^= x << 17;
        words.push(x);
        // words with few significant bits, too
        words.push(x >> (x % 64));
    }
    words
}

#[test]
fn from_dyadic_is_the_quotient() {
    let two_53 = (1u64 << 53) as f64;
    let two_52 = (1u64 << 52) as f64;
    for word in sample_words() {
        let m53 = word >> 11;
        assert_eq!(float(Double::from_dyadic(m53, 53)), m53 as f64 / two_53);
        let m52 = word >> 12;
        assert_eq!(float(Double::from_dyadic(m52, 52)), m52 as f64 / two_52);
    }
    assert_eq!(Double::from_dyadic(0, 53).to_bits(), 0);
    assert_eq!(float(Double::from_dyadic(1, 53)), 1.1102230246251565e-16);
    assert_eq!(float(Double::from_dyadic(TWO_POW_53 - 1, 53)), 0.9999999999999999);
    assert_eq!(float(Double::from_dyadic(TWO_POW_52, 53)), 0.5);
    assert_eq!(float(Double::from_dyadic(TWO_POW_52, 52)), 1.0);
    assert_eq!(float(Double::from_dyadic(3, 0)), 3.0);
    assert_eq!(float(Double::from_dyadic(1, 1022)), f64::MIN_POSITIVE);
}

#[test]
fn to_double_is_what_the_engines_compute() {
    let two_53 = (1u64 << 53) as f64;
    for word in sample_words() {
        assert_eq!(float(EngineRule::V8.to_double(word)), (word >> 11) as f64 / two_53);
        assert_eq!(
            float(EngineRule::LegacyNode.to_double(word)),
            f64::from_bits((word >> 12) | 0x3FF0000000000000) - 1.0
        );
        assert_eq!(
            float(EngineRule::WordSum.to_double(word)),
            ((word & 0x1FFFFFFFFFFFFF) as f64) / two_53
        );
    }
    assert_eq!(EngineRule::V8.to_double(0x0123_4567_89AB_CDEF).to_bits(), 0x3f72_3456_789a_bc80);
    assert_eq!(
        EngineRule::LegacyNode.to_double(0x0123_4567_89AB_CDEF).to_bits(),
        0x3f72_3456_789a_bc00
    );
    assert_eq!(
        EngineRule::WordSum.to_double(0x0123_4567_89AB_CDEF).to_bits(),
        0x3fba_2b3c_4d5e_6f78
    );
    assert_eq!(float(EngineRule::V8.to_double(u64::MAX)), 0.9999999999999999);
    assert_eq!(float(EngineRule::LegacyNode.to_double(u64::MAX)), 0.9999999999999998);
    assert_eq!(float(EngineRule::WordSum.to_double(0x8000_0000_0000_0000)), 0.0);
}

#[test]
fn scaled_floor_is_the_truncated_product() {
    let two_53 = (1u64 << 53) as f64;
    for word in sample_words() {
        let bits = word % ONE_BITS;
        let value = f64::from_bits(bits);
        assert_eq!(Double::from_bits(bits).scaled_floor(53), (value * two_53) as u64);
        assert_eq!(EngineRule::V8.recover_mantissa(Double::from_bits(bits)), (value * two_53) as u64);
        assert_eq!(
            EngineRule::WordSum.recover_mantissa(Double::from_bits(bits)),
            (value * two_53) as u64
        );
        let two_63 = (1u64 << 63) as f64;
        assert_eq!(Double::from_bits(bits).scaled_floor(63), (value * two_63) as u64);
        assert_eq!(Double::from_bits(bits).scaled_floor(0), 0);
    }
    assert_eq!(double(0.5).scaled_floor(53), 4503599627370496);
    assert_eq!(double(0.1).scaled_floor(53), 900719925474099);
    assert_eq!(double(0.9999999999999999).scaled_floor(53), 9007199254740991);
    assert_eq!(double(1.1102230246251565e-16).scaled_floor(53), 1);
    assert_eq!(double(5.551115123125783e-17).scaled_floor(53), 0);
    assert_eq!(double(5e-324).scaled_floor(53), 0);
    assert_eq!(double(0.0).scaled_floor(53), 0);
    assert_eq!(double(0.75).scaled_floor(1), 1);
    assert_eq!(double(0.75).scaled_floor(2), 3);
}

#[test]
fn successor_fraction_is_the_fraction_of_the_sum_with_one() {
    let mask = (1u64 << 52) - 1;
    for word in sample_words() {
        let bits = word % ONE_BITS;
        let value = f64::from_bits(bits);
        let expected = f64::to_bits(value + 1.0) & mask;
        assert_eq!(Double::from_bits(bits).successor_fraction(), expected);
        assert_eq!(EngineRule::LegacyNode.recover_mantissa(Double::from_bits(bits)), expected);
    }
    // values close to the places where rounding changes
    for exponent in 960u64..1023 {
        for fraction in [0u64, 1, 2, 3, mask / 2, mask / 2 + 1, mask - 1, mask] {
            for spread in 0u64..64 {
                let bits = (exponent << 52) | (fraction ^ (1u64 << spread) & mask);
                let value = f64::from_bits(bits);
                let expected = f64::to_bits(value + 1.0) & mask;
                assert_eq!(Double::from_bits(bits).successor_fraction(), expected);
            }
        }
    }
    assert_eq!(double(0.5).successor_fraction(), 2251799813685248);
    assert_eq!(double(0.1).successor_fraction(), 450359962737050);
    assert_eq!(double(0.36280726230126614).successor_fraction(), 1633938651307292);
    // a tie goes to the even neighbour: down to 0, up to 2
    assert_eq!(double(1.1102230246251565e-16).successor_fraction(), 0);
    assert_eq!(double(3.3306690738754696e-16).successor_fraction(), 2);
    // the sum rounds to 2.0, whose fraction is 0
    assert_eq!(double(0.9999999999999999).successor_fraction(), 0);
    assert_eq!(double(5e-324).successor_fraction(), 0);
    assert_eq!(double(0.0).successor_fraction(), 0);
}

#[test]
fn recovering_the_mantissa_undoes_decoding() {
    for word in sample_words() {
        for rule in [EngineRule::V8, EngineRule::LegacyNode, EngineRule::WordSum] {
            let decoded = rule.to_double(word);
            assert!(decoded.in_unit_interval());
            assert_eq!(rule.recover_mantissa(decoded), rule.mantissa_of_word(word));
        }
    }
    assert_eq!(EngineRule::V8.mantissa_of_word(u64::MAX), TWO_POW_53 - 1);
    assert_eq!(EngineRule::LegacyNode.mantissa_of_word(u64::MAX), TWO_POW_52 - 1);
    assert_eq!(EngineRule::WordSum.mantissa_of_word(u64::MAX), TWO_POW_53 - 1);
    assert_eq!(EngineRule::V8.mantissa_of_word(0x800), 1);
    assert_eq!(EngineRule::V8.mantissa_of_word(0x7FF), 0);
    assert_eq!(EngineRule::LegacyNode.mantissa_of_word(0x1000), 1);
    assert_eq!(EngineRule::LegacyNode.mantissa_of_word(0xFFF), 0);
    assert_eq!(EngineRule::WordSum.mantissa_of_word(0xFFE0_0000_0000_0001), 1);
}

#[test]
fn unit_interval_is_zero_up_to_one() {
    assert!(double(0.0).in_unit_interval());
    assert!(double(5e-324).in_unit_interval());
    assert!(double(0.5).in_unit_interval());
    assert!(double(0.9999999999999999).in_unit_interval());
    assert!(!double(1.0).in_unit_interval());
    assert!(!double(1.5).in_unit_interval());
    assert!(!double(-0.5).in_unit_interval());
    assert!(!double(f64::INFINITY).in_unit_interval());
    assert!(!double(f64::NAN).in_unit_interval());
    assert_eq!(Double::from_bits(ONE_BITS).to_bits(), 1.0f64.to_bits());
}

#[test]
fn unit_sequences_hold_doubles_of_the_unit_interval_only() {
    assert!(is_unit_sequence(&[]));
    assert!(is_unit_sequence(&[double(0.0)]));
    assert!(is_unit_sequence(&[double(0.25), double(0.75), double(0.9999999999999999)]));
    assert!(!is_unit_sequence(&[double(0.25), double(1.0)]));
    assert!(!is_unit_sequence(&[double(-0.25), double(0.5)]));
    assert!(!is_unit_sequence(&[double(0.5), double(f64::NAN), double(0.5)]));
}
