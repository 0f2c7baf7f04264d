use gpubench::benchmarks::{
    f32_bytes, lcg_vec, lcg_vec_scaled, make_call, NullProgress, ProgressCall, ProgressCallback,
    PushCount1f, PushMatmul, VRAM_PATTERNS,
};
use gpubench::float_bits::{count_non_finite, largest, smallest, worst, Float32, Float64};
use gpubench::program::PushData;

fn f64_of(value: f64) -> Float64 {
    Float64 { bits: value.to_bits() }
}

fn f32_of(value: f32) -> Float32 {
    Float32 { bits: value.to_bits() }
}

/// The generator in floating point.
fn expected(n: usize, seed: u64) -> Vec<f32> {
    let mut s = seed;
    (0..n)
        .map(|_| {
            s = s.wrapping_mul(6364136223846793005).wrapping_add(1442695040888963407);
            (((s >> 33) as f64 / 1073741824.0) - 1.0) as f32
        })
        .collect()
}

#[test]
fn generated_numbers_are_the_expected_ones() {
    for seed in [0u64, 1, 0xDEAD_BEEF, 0x0BAD_C0DE, u64::MAX] {
        let got: Vec<u32> = lcg_vec(2000, seed).iter().map(|v| v.bits).collect();
        let want: Vec<u32> = expected(2000, seed).iter().map(|v| v.to_bits()).collect();
        assert_eq!(got, want);
    }
    assert!(lcg_vec(0, 5).is_empty());
}

#[test]
fn the_first_number_of_seed_zero() {
    // 1442695040888963407 >> 33 is 167951807, less 2^30 is -905790017.
    assert_eq!(f32::from_bits(lcg_vec(1, 0)[0].bits), -905790017.0f64 as f32 / 1073741824.0);
}

#[test]
fn scaled_numbers_are_the_expected_ones() {
    for scale in [
        1.0f32, 10.0, 50.0, 100.0, 16_777_215.0, 0.5, 0.1, 1e9, -3.7, 1e-30, 1e-38, 1e-42, 1e-45,
        f32::MAX, 0.0, -0.0, f32::INFINITY, f32::MIN_POSITIVE,
    ] {
        let got: Vec<u32> =
            lcg_vec_scaled(2000, 0xAAAA_BBBB, f32_of(scale)).iter().map(|v| v.bits).collect();
        let want: Vec<u32> =
            expected(2000, 0xAAAA_BBBB).iter().map(|v| (v * scale).to_bits()).collect();
        assert_eq!(got, want, "{}", scale);
    }
    for value in lcg_vec_scaled(100, 1, f32_of(f32::NAN)) {
        assert!(f32::from_bits(value.bits).is_nan());
    }
}

#[test]
fn generated_numbers_stay_in_range() {
    for value in lcg_vec(5000, 77) {
        let value = f32::from_bits(value.bits);
        assert!((-1.0..1.0).contains(&value));
    }
    for value in lcg_vec_scaled(5000, 77, f32_of(10.0)) {
        let value = f32::from_bits(value.bits);
        assert!((-10.0..10.0).contains(&value));
    }
}

#[test]
fn generated_numbers_stay_below_one() {
    // A seed whose next state has the largest upper bits: the sample closest to
    // one, which single precision would round up to one.
    let inverse = inverse_of(6364136223846793005);
    let seed = u64::MAX.wrapping_sub(1442695040888963407).wrapping_mul(inverse);
    let value = f32::from_bits(lcg_vec(1, seed)[0].bits);
    assert_eq!(value.to_bits(), 0x3F7F_FFFF);
    assert!(value < 1.0);
    for scale in [1.0f32, 3.0, 10.0, 50.0, 64.0, 100.0, 1_000_003.0, 0.3, 1e9, 1e-37, f32::MAX] {
        let value = f32::from_bits(lcg_vec_scaled(1, seed, f32_of(scale))[0].bits);
        assert!(value < scale);
        assert_eq!(value, f32::from_bits(0x3F7F_FFFF) * scale);
    }
    // The smallest positive numbers have none to spare below them.
    let smallest = f32::from_bits(1);
    assert_eq!(lcg_vec_scaled(1, seed, f32_of(smallest))[0].bits, 1);
    let value = lcg_vec_scaled(1, seed, f32_of(f32::MIN_POSITIVE))[0];
    assert_eq!(f32::from_bits(value.bits), f32::MIN_POSITIVE);
}

/// The inverse of an odd number modulo 2^64.
fn inverse_of(odd: u64) -> u64 {
    let mut inverse = 1u64;
    for _ in 0..6 {
        inverse = inverse.wrapping_mul(2u64.wrapping_sub(odd.wrapping_mul(inverse)));
    }
    inverse
}

#[test]
fn patterns_are_small_exact_numbers() {
    let values: Vec<f32> = VRAM_PATTERNS.iter().map(|b| f32::from_bits(*b)).collect();
    assert_eq!(values, vec![1.0, -2.0, 0.5, 4.0, -0.75, 3.0, 0.25, -1.5]);
}

#[test]
fn numbers_take_four_bytes() {
    assert_eq!(f32_bytes(0), 0);
    assert_eq!(f32_bytes(33_554_432), 134_217_728);
}

#[test]
fn push_constants_lie_in_order() {
    let push = PushCount1f { count: 0x0102_0304, value: f32_of(1.5) };
    let mut expected = 0x0102_0304u32.to_ne_bytes().to_vec();
    expected.extend_from_slice(&1.5f32.to_ne_bytes());
    assert_eq!(push.bytes(), expected);
    assert_eq!(PushMatmul { n: 256 }.bytes(), 256u32.to_ne_bytes().to_vec());
    assert_eq!(PushData::Count1f(push).bytes(), expected);
    assert_eq!(PushData::Matmul(PushMatmul { n: 7 }).bytes(), 7u32.to_ne_bytes().to_vec());
    assert!(PushData::Empty.bytes().is_empty());
}

#[test]
fn floats_compare_as_rust_compares_them() {
    let values = [
        0.0,
        -0.0,
        1.0,
        -1.0,
        1e-3,
        5e-324,
        f64::MAX,
        f64::MIN,
        f64::INFINITY,
        f64::NEG_INFINITY,
        f64::NAN,
    ];
    for a in values {
        assert_eq!(f64_of(a).is_nan(), a.is_nan());
        for b in values {
            assert_eq!(f64_of(a).is_above(f64_of(b)), a > b);
            assert_eq!(f64_of(a).is_at_least(f64_of(b)), a >= b);
            if a != b {
                let larger = f64::from_bits(f64_of(a).max(f64_of(b)).bits);
                assert!(larger == a.max(b) || (larger.is_nan() && a.max(b).is_nan()));
                let smaller = f64::from_bits(f64_of(a).min(f64_of(b)).bits);
                assert!(smaller == a.min(b) || (smaller.is_nan() && a.min(b).is_nan()));
            }
        }
    }
}

#[test]
fn singles_compare_as_rust_compares_them() {
    let values = [0.0f32, -0.0, 1.0, -1.0, 1e-45, f32::MAX, f32::INFINITY, f32::NAN];
    for a in values {
        assert_eq!(f32_of(a).is_finite(), a.is_finite());
        for b in values {
            assert_eq!(f32_of(a).same_value(f32_of(b)), a == b);
        }
    }
}

#[test]
fn extremes_ignore_what_is_no_number() {
    let list = |values: &[f64]| values.iter().map(|v| f64_of(*v)).collect::<Vec<Float64>>();
    assert_eq!(largest(&list(&[1.0, f64::NAN, 7.5, 2.0])).bits, 7.5f64.to_bits());
    assert_eq!(largest(&list(&[-1.0])).bits, 0.0f64.to_bits());
    assert_eq!(largest(&Vec::new()).bits, 0.0f64.to_bits());
    assert_eq!(smallest(&list(&[3.0, f64::NAN, 0.5, 2.0])).bits, 0.5f64.to_bits());
    assert_eq!(smallest(&Vec::new()).bits, f64::INFINITY.to_bits());
}

#[test]
fn errors_that_are_no_numbers_are_the_worst() {
    let list = |values: &[f64]| values.iter().map(|v| f64_of(*v)).collect::<Vec<Float64>>();
    assert_eq!(worst(&list(&[1.0, 7.5, 2.0])).bits, 7.5f64.to_bits());
    assert_eq!(worst(&list(&[1.0, f64::NAN, 7.5])).bits, f64::INFINITY.to_bits());
    assert_eq!(worst(&list(&[f64::NAN, 0.0])).bits, f64::INFINITY.to_bits());
    assert_eq!(worst(&list(&[0.0, -f64::NAN])).bits, f64::INFINITY.to_bits());
    assert_eq!(worst(&list(&[0.5, f64::INFINITY])).bits, f64::INFINITY.to_bits());
    assert_eq!(worst(&Vec::new()).bits, 0.0f64.to_bits());
    for (a, b, want) in [(1.0, 2.0, 2.0), (3.0, 2.0, 3.0), (f64::NAN, 1.0, f64::INFINITY)] {
        assert_eq!(f64_of(a).or_worse(f64_of(b)).bits, f64::to_bits(want));
    }
}

#[test]
fn non_finite_numbers_are_counted() {
    let values = [1.0f32, f32::NAN, f32::INFINITY, -0.0, f32::NEG_INFINITY];
    let values: Vec<Float32> = values.iter().map(|v| f32_of(*v)).collect();
    assert_eq!(count_non_finite(&values), 3);
    assert_eq!(count_non_finite(&Vec::new()), 0);
}

/// Keeps warnings, and nothing else.
#[derive(Debug, Clone, PartialEq)]
struct Warnings {
    lines: Vec<String>,
}

impl ProgressCallback for Warnings {
    fn warn(&mut self, message: &str) {
        self.lines.push(message.to_string());
    }
}

#[test]
fn methods_that_are_not_overridden_do_nothing() {
    let text = |message: &str| message.to_string();
    let quiet = [
        ProgressCall::End,
        ProgressCall::SetPosition { pos: u64::MAX },
        ProgressCall::Begin { total: None, message: text("a") },
        ProgressCall::Begin { total: Some(0), message: text("b") },
        ProgressCall::SetMessage { message: text("") },
        ProgressCall::Log { message: text("c") },
        ProgressCall::End,
    ];
    let mut progress = Warnings { lines: vec![text("before")] };
    let before = progress.clone();
    for call in &quiet {
        make_call(&mut progress, call);
        assert_eq!(progress, before);
        make_call(&mut NullProgress, call);
    }
    make_call(&mut progress, &ProgressCall::Warn { message: text("hot") });
    assert_eq!(progress.lines, vec!["before", "hot"]);
}

/// Keeps every call.
struct Recorder {
    lines: Vec<String>,
}

impl ProgressCallback for Recorder {
    fn begin(&mut self, total: Option<u64>, message: &str) {
        self.lines.push(format!("begin {:?} {}", total, message));
    }

    fn set_position(&mut self, pos: u64) {
        self.lines.push(format!("position {}", pos));
    }

    fn set_message(&mut self, message: &str) {
        self.lines.push(format!("message {}", message));
    }

    fn log(&mut self, message: &str) {
        self.lines.push(format!("log {}", message));
    }

    fn warn(&mut self, message: &str) {
        self.lines.push(format!("warn {}", message));
    }

    fn end(&mut self) {
        self.lines.push("end".to_string());
    }
}

#[test]
fn calls_reach_the_methods_that_they_name() {
    let text = |message: &str| message.to_string();
    let mut progress = Recorder { lines: Vec::new() };
    for call in [
        ProgressCall::Begin { total: Some(3), message: text("a") },
        ProgressCall::SetPosition { pos: 2 },
        ProgressCall::SetMessage { message: text("b") },
        ProgressCall::Log { message: text("c") },
        ProgressCall::Warn { message: text("d") },
        ProgressCall::End,
    ] {
        make_call(&mut progress, &call);
    }
    assert_eq!(
        progress.lines,
        vec!["begin Some(3) a", "position 2", "message b", "log c", "warn d", "end"]
    );
}

#[test]
fn null_progress_takes_everything() {
    let mut progress = NullProgress;
    progress.begin(Some(3), "x");
    progress.set_position(2);
    progress.set_message("y");
    progress.log("z");
    progress.warn("w");
    progress.end();
}
