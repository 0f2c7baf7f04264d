use gpubench::float_bits::Float32;
use gpubench::rounding::{multiply, nearest_of_small_units};
use gpubench::score::{round, score_text, Score};
use gpubench::text::{
    join, pad_right, parse_usize, push_decimal, push_hex4, same_text,
};

#[test]
fn numbers_are_written_as_rust_writes_them() {
    for n in [0u128, 9, 10, 99, 100, 1_234_567_890, u64::MAX as u128, u128::MAX] {
        let mut text = String::new();
        push_decimal(&mut text, n);
        assert_eq!(text, format!("{}", n));
    }
    let mut text = "n = ".to_string();
    push_decimal(&mut text, 42);
    assert_eq!(text, "n = 42");
}

#[test]
fn hexadecimal_has_at_least_four_digits() {
    for n in [0u32, 0xF, 0x10DE, 0x8086, 0x1_0000, 0xABC_DEF0, u32::MAX] {
        let mut text = String::new();
        push_hex4(&mut text, n);
        assert_eq!(text, format!("{:04X}", n));
    }
}

#[test]
fn padding_counts_characters() {
    for text in ["", "abc", "độ", "★★★", "longer than the width"] {
        assert_eq!(pad_right(text, 8), format!("{:<8}", text));
    }
    assert_eq!(pad_right("x", 0), "x");
}

#[test]
fn joining_puts_separators_between() {
    let parts = |all: &[&str]| all.iter().map(|s| s.to_string()).collect::<Vec<String>>();
    assert_eq!(join(&parts(&[]), " | "), "");
    assert_eq!(join(&parts(&["a"]), " | "), "a");
    assert_eq!(join(&parts(&["a", "b", ""]), " | "), "a | b | ");
}

#[test]
fn machine_numbers_are_read_as_rust_reads_them() {
    for text in [
        "0", "7", "007", "+3", "+", "", "-1", "1.0", " 1", "1 ", "abc", "18446744073709551615",
        "18446744073709551616", "99999999999999999999999999", "++1", "١",
    ] {
        assert_eq!(parse_usize(text), text.parse::<usize>().ok());
    }
}

#[test]
fn texts_are_compared_whole() {
    assert!(same_text("-d", "-d"));
    assert!(!same_text("-d", "-D"));
    assert!(!same_text("-d", "-dd"));
}

#[test]
fn rounding_goes_to_the_even_neighbour() {
    assert_eq!(round(5, 2), 2);
    assert_eq!(round(7, 2), 4);
    assert_eq!(round(1, 2), 0);
    assert_eq!(round(3, 2), 2);
    assert_eq!(round(u128::MAX, 1), u128::MAX);
    for (num, den) in [(149u64, 2u64), (153, 2), (35, 3), (35, 4), (25, 2), (595, 10), (85, 10)] {
        assert_eq!(
            score_text(num as u128, den as u128),
            format!("{:.0}/100", num as f64 / den as f64)
        );
    }
    assert_eq!(score_text(1, 2), format!("{:.0}/100", 0.5f64));
}

#[test]
fn scores_reach_points_exactly() {
    assert!(Score { num: 595, den: 10 }.is_at_least(59));
    assert!(!Score { num: 595, den: 10 }.is_at_least(60));
    assert!(Score::points(70).is_at_least(70));
    assert!(!Score { num: 35, den: 2 }.is_at_least(18));
}

#[test]
fn nearest_singles_are_those_of_rust() {
    for units in [
        0u32,
        1,
        3,
        0xFF_FFFF,
        0x100_0000,
        0x100_0001,
        0x100_0002,
        0x100_0003,
        0x1FF_FFFF,
        0x3FFF_FFC0,
        0x3FFF_FFDF,
        0x3FFF_FFE0,
        0x3FFF_FFFF,
        0x4000_0000,
        0x7FFF_FFFF,
    ] {
        let exact = units as f64 / 1_073_741_824.0;
        assert_eq!(nearest_of_small_units(units), (exact as f32).to_bits());
    }
}

#[test]
fn products_are_those_of_rust() {
    let values = [
        0.0f32,
        -0.0,
        1.0,
        -1.0,
        0.1,
        3.7,
        -1e9,
        1e-9,
        1e20,
        -1e-20,
        1e-38,
        1e-45,
        f32::MIN_POSITIVE,
        f32::from_bits(0x007F_FFFF),
        f32::from_bits(0x3F7F_FFFF),
        f32::from_bits(0x3F80_0001),
        f32::MAX,
        f32::INFINITY,
        f32::NEG_INFINITY,
        f32::NAN,
    ];
    for a in values {
        for b in values {
            let got = multiply(Float32 { bits: a.to_bits() }, Float32 { bits: b.to_bits() });
            let want = a * b;
            if want.is_nan() {
                assert!(f32::from_bits(got.bits).is_nan(), "{} * {}", a, b);
            } else {
                assert_eq!(got.bits, want.to_bits(), "{} * {}", a, b);
            }
        }
    }
    let mut state = 1u64;
    let mut draw = || {
        state = state.wrapping_mul(6364136223846793005).wrapping_add(1442695040888963407);
        f32::from_bits((state >> 32) as u32)
    };
    for _ in 0..200_000 {
        let (a, b) = (draw(), draw());
        let got = f32::from_bits(
            multiply(Float32 { bits: a.to_bits() }, Float32 { bits: b.to_bits() }).bits,
        );
        let want = a * b;
        assert!(got.to_bits() == want.to_bits() || got.is_nan() && want.is_nan());
    }
}
