use prompt_triage::id::hex_id;
use prompt_triage::single::Single;

fn single(x: f32) -> Single {
    Single { bits: x.to_bits() }
}

#[test]
fn half_is_where_the_comparison_puts_it() {
    let values = [
        0.0f32, -0.0, 0.25, 0.49999997, 0.5, 0.50000006, 0.75, 1.0, 2.0, 1e30, -0.5, -1.0, -1e30,
        f32::MIN_POSITIVE, f32::MAX, f32::MIN, f32::INFINITY, f32::NEG_INFINITY, f32::NAN, -f32::NAN,
        1e-45,
    ];
    for x in values {
        assert_eq!(single(x).at_least_half(), x >= 0.5, "{x}");
    }
}

#[test]
fn half_agrees_with_the_comparison_on_many_patterns() {
    let mut bits: u32 = 0;
    loop {
        assert_eq!(Single { bits }.at_least_half(), f32::from_bits(bits) >= 0.5, "{bits:x}");
        bits = match bits.checked_add(65_521) {
            Some(next) => next,
            None => break,
        };
    }
}

#[test]
fn hundredths_of_given_probabilities() {
    assert_eq!(single(0.0).hundredths(), Some(0));
    assert_eq!(single(0.67).hundredths(), Some(67));
    assert_eq!(single(0.61).hundredths(), Some(61));
    assert_eq!(single(0.5).hundredths(), Some(50));
    assert_eq!(single(0.125).hundredths(), Some(13));
    assert_eq!(single(0.375).hundredths(), Some(38));
    assert_eq!(single(0.004).hundredths(), Some(0));
    assert_eq!(single(0.9999).hundredths(), Some(100));
    assert_eq!(single(1.0).hundredths(), Some(100));
    assert_eq!(single(1e-45).hundredths(), Some(0));
}

#[test]
fn hundredths_agree_with_rounding_in_double_precision() {
    let mut bits: u32 = 0;
    while bits <= 0x3f80_0000 {
        let p = f32::from_bits(bits);
        let wanted = (p as f64 * 100.0).round();
        assert_eq!(Single { bits }.hundredths(), Some(wanted as u64), "{p}");
        bits += 4_093;
    }
}

#[test]
fn hundredths_are_for_probabilities_only() {
    for x in [-0.0f32, -0.5, 1.0000001, 2.0, f32::NAN, f32::INFINITY, f32::NEG_INFINITY] {
        assert_eq!(single(x).hundredths(), None, "{x}");
    }
}

#[test]
fn zero_is_zero() {
    assert_eq!(Single::zero(), single(0.0));
}

#[test]
fn hundredths_and_verdict_agree_off_fifty() {
    for i in 0..=1000u32 {
        let p = i as f32 / 1000.0;
        let k = single(p).hundredths().unwrap();
        if k != 50 {
            assert_eq!(k > 50, single(p).at_least_half(), "{p}");
        }
        assert!((100.0 * p as f64 - k as f64).abs() <= 0.5);
    }
}

#[test]
fn ids_are_lower_case_hexadecimal() {
    assert_eq!(hex_id(0), "0");
    assert_eq!(hex_id(9), "9");
    assert_eq!(hex_id(15), "f");
    assert_eq!(hex_id(16), "10");
    assert_eq!(hex_id(0xdead_beef), "deadbeef");
    assert_eq!(hex_id(0x0123_4567_89ab_cdef), "123456789abcdef");
    assert_eq!(hex_id(u64::MAX), "ffffffffffffffff");
    for n in [1u64, 77, 4096, 99_999_999_999] {
        assert_eq!(hex_id(n), format!("{n:x}"));
    }
}

#[test]
fn different_numbers_have_different_ids() {
    for n in 0..600u64 {
        assert_ne!(hex_id(n), hex_id(n + 1));
    }
}
