use gpubench::benchmarks::bandwidth;
use gpubench::benchmarks::matmul::{
    self, MatmulRun, MatmulTest, SizeMeasurement, SizeOutcome, SizeStats, SizeTexts,
};
use gpubench::benchmarks::precision::{self, Check, PrecisionTest};
use gpubench::benchmarks::stability::{self, StressTest};
use gpubench::benchmarks::vram::{setup_error, ChunkReport, VramTest};
use gpubench::benchmarks::{ProgressCall, TestStatus};
use gpubench::float_bits::{Float32, Float64};
use gpubench::score::Score;
use gpubench::session::Event;

fn double(value: f64) -> Float64 {
    Float64 { bits: value.to_bits() }
}

fn single(value: f32) -> Float32 {
    Float32 { bits: value.to_bits() }
}

const PATTERNS: [f32; 8] = [1.0, -2.0, 0.5, 4.0, -0.75, 3.0, 0.25, -1.5];

/// A VRAM test after so many chunks, the last of them wrong.
fn vram_after(nominal: Option<u64>, chunks: u64, wrong: u64) -> VramTest {
    let mut test = VramTest::new(nominal);
    for i in 0..chunks {
        let error_count = if i + wrong >= chunks { 3 } else { 0 };
        let probe = single(PATTERNS[(i % 8) as usize]);
        test.record_chunk(ChunkReport::Checked { error_count, probe });
    }
    test
}

#[test]
fn countable_memory_can_be_tested() {
    for nominal in [0, 24_576, u64::MAX - 1024] {
        assert!(VramTest::can_count(Some(nominal)));
        let chunks = ((nominal + 1024) / 128).max(1);
        assert_eq!(VramTest::new(Some(nominal)).total_chunks, chunks);
    }
    assert!(VramTest::can_count(None));
    assert!(!VramTest::can_count(Some(u64::MAX - 1023)));
    assert!(!VramTest::can_count(Some(u64::MAX)));
}

#[test]
fn vram_points_follow_the_share_of_the_nominal_memory() {
    let points = |chunks| vram_after(Some(12800), chunks, 0).result("x").score;
    assert_eq!(points(100), Score::points(100));
    assert_eq!(points(90), Score::points(100));
    assert_eq!(points(89), Score::points(88));
    assert_eq!(points(75), Score::points(88));
    assert_eq!(points(74), Score::points(72));
    assert_eq!(points(60), Score::points(72));
    assert_eq!(points(59), Score::points(50));
    assert_eq!(points(40), Score::points(50));
    assert_eq!(points(39), Score::points(25));
    assert_eq!(points(108), Score::points(100));
}

#[test]
fn vram_points_follow_the_amount_where_nothing_is_known() {
    let points = |chunks| vram_after(None, chunks, 0).result("x").score;
    assert_eq!(points(63), Score::points(100));
    assert_eq!(points(62), Score::points(85));
    assert_eq!(points(31), Score::points(70));
    assert_eq!(points(15), Score::points(55));
    assert_eq!(points(7), Score::points(40));
}

#[test]
fn vram_results_have_details() {
    let result = vram_after(Some(1024), 8, 0).result("100");
    assert_eq!(result.name, "VRAM Capacity");
    assert_eq!(result.status, TestStatus::Passed);
    assert_eq!(
        result.details,
        "Kiểm tra 8 chunk × 128 MB: khả dụng 1024 MB / danh nghĩa 1024 MB (100%)"
    );
    assert_eq!(result.metric_value, "1024/1024 MB");
    let result = vram_after(None, 8, 0).result("");
    assert_eq!(result.details, "Kiểm tra 8 chunk × 128 MB: khả dụng 1024 MB");
    assert_eq!(result.metric_value, "1024 MB");
}

#[test]
fn wrong_data_fails_the_vram_test() {
    let result = vram_after(Some(1024), 8, 1).result("100");
    assert_eq!(result.status, TestStatus::Failed);
    assert_eq!(result.score, Score { num: 35, den: 2 });
    assert_eq!(
        result.details,
        "Kiểm tra 8 chunk × 128 MB: khả dụng 1024 MB / danh nghĩa 1024 MB (100%) | \
         1 chunk sai dữ liệu — VRAM có vùng hỏng"
    );
    let result = vram_after(Some(12800), 4, 3).result("4");
    assert_eq!(result.score, Score { num: 25, den: 4 });
}

#[test]
fn vram_remarks_are_joined() {
    let result = vram_after(Some(1024), 9, 0).result("100");
    assert_eq!(
        result.details,
        "Kiểm tra 9 chunk × 128 MB: khả dụng 1152 MB / danh nghĩa 1024 MB (100%) | \
         cấp phát vượt mức danh nghĩa (phần vượt có thể là shared memory của Windows)"
    );
    let result = vram_after(Some(1024), 2, 2).result("25");
    assert_eq!(
        result.details,
        "Kiểm tra 2 chunk × 128 MB: khả dụng 256 MB / danh nghĩa 1024 MB (25%) | \
         2 chunk sai dữ liệu — VRAM có vùng hỏng | \
         khả dụng thấp — có thể app khác đang chiếm VRAM hoặc VRAM yếu"
    );
}

#[test]
fn vram_without_chunks_is_an_error() {
    let mut test = VramTest::new(Some(1024));
    assert_eq!(test.record_chunk(ChunkReport::Stopped), None);
    assert!(test.next_chunk().is_none());
    let result = test.result("0");
    assert_eq!(result.status, TestStatus::Error("Allocation failed".to_string()));
    assert_eq!(result.score, Score::points(0));
    assert_eq!(result.details, "Không thể cấp phát VRAM — GPU/driver có vấn đề");
    assert_eq!(result.metric_value, "N/A");
}

#[test]
fn vram_setup_errors_name_the_step() {
    let details = |position| setup_error(position, "e").details;
    assert_eq!(details(0), "Cấp phát result buffer thất bại: e");
    assert_eq!(details(1), "Tạo descriptor pool thất bại: e");
    assert_eq!(details(2), "Alloc fill descriptor: e");
    assert_eq!(details(3), "Alloc verify descriptor: e");
    let result = setup_error(1, "e");
    assert_eq!(result.status, TestStatus::Error(result.details.clone()));
    assert_eq!(result.score, Score::points(0));
}

#[test]
fn vram_probes_are_compared_with_the_pattern() {
    let mut test = VramTest::new(None);
    assert_eq!(VramTest::first_message(), "0 MB đã kiểm tra");
    let report = ChunkReport::Checked { error_count: 0, probe: single(1.5) };
    let warning = test.record_chunk(report).unwrap();
    assert_eq!(
        warning,
        "Chunk #0 (~0 MB): DỮ LIỆU SAI (mismatches=0) — nghi ngờ VRAM hỏng vùng này!"
    );
    assert_eq!(test.next_chunk().unwrap().message, "128 MB đã kiểm tra");
    let report = ChunkReport::Checked { error_count: 0, probe: single(-2.0) };
    assert_eq!(test.record_chunk(report), None);
    assert_eq!(test.integrity_errors, 1);
    assert_eq!(test.total_chunks, 128);
    assert_eq!(VramTest::new(Some(0)).total_chunks, 8);
}

fn texts() -> SizeTexts {
    SizeTexts {
        best_ms: "   1.50".to_string(),
        gflops: " 123.4".to_string(),
        spread: "   5".to_string(),
        max_rel: "1.0e-6".to_string(),
    }
}

fn stats(gflops: f64, spread: f64, non_finite: usize, max_rel: f64) -> SizeStats {
    SizeStats { gflops: double(gflops), spread: double(spread), non_finite, max_rel: double(max_rel) }
}

#[test]
fn matmul_points_follow_the_rate() {
    let score = |gflops| {
        let mut test = MatmulTest::new();
        test.record_size(512, stats(gflops, 0.0, 0, 0.0), &texts());
        test.result("g", "s").score
    };
    for (gflops, points) in [
        (5000.0, 100),
        (4999.9, 90),
        (2000.0, 90),
        (1999.0, 80),
        (1000.0, 80),
        (500.0, 70),
        (499.0, 55),
        (100.0, 55),
        (10.0, 35),
        (9.9, 15),
        (0.0, 15),
    ] {
        assert_eq!(score(gflops), Score::points(points));
    }
}

#[test]
fn matmul_sizes_are_logged() {
    let mut test = MatmulTest::new();
    assert_eq!(
        test.record_size(512, stats(123.4, 5.0, 0, 1e-6), &texts()),
        "512×512:    1.50 ms →  123.4 GFLOPS | spread    5% (verify OK, err 1.0e-6)"
    );
    assert_eq!(
        test.record_size(1024, stats(1.0, 5.0, 7, 1e-6), &texts()),
        "1024×1024:    1.50 ms →  123.4 GFLOPS | spread    5% \
         (verify FAIL: 7 NaN/Inf, err 1.0e-6)"
    );
    assert_eq!(test.record_failure(2048, "out of memory"), "2048×2048: FAILED — out of memory");
    assert_eq!(matmul::stage_message(512), "MatMul 512×512...");
    assert_eq!(matmul::gate_message(), "Correctness gate 256×256...");
}

#[test]
fn wrong_products_fail_whatever_the_rate() {
    for bad in [stats(9000.0, 0.0, 1, 0.0), stats(9000.0, 0.0, 0, 5e-3), stats(9.0, 0.0, 0, f64::NAN)]
    {
        let mut test = MatmulTest::new();
        test.record_size(512, stats(9000.0, 0.0, 0, 0.0), &texts());
        test.record_size(1024, bad, &texts());
        let result = test.result("g", "s");
        assert_eq!(result.status, TestStatus::Failed);
        assert_eq!(result.score, Score::points(15));
        assert_eq!(result.metric_value, "INVALID");
        assert_eq!(
            result.details,
            "Kết quả KHÔNG hợp lệ (NaN/Inf hoặc sai số lớn so với chuẩn CPU) — GPU đang tính sai."
        );
    }
}

#[test]
fn unstable_products_do_not_pass() {
    let mut test = MatmulTest::new();
    test.record_size(512, stats(9000.0, 30.1, 0, 0.0), &texts());
    test.record_size(1024, stats(100.0, 2.0, 0, 4.9e-3), &texts());
    let result = test.result("9000.0", "30");
    assert_eq!(result.status, TestStatus::Warning);
    assert_eq!(result.score, Score::points(65));
    assert_eq!(
        result.details,
        "Peak 9000.0 GFLOPS (đã verify đúng đắn) | dao động 30% \
         — hiệu năng bất ổn giữa các lần chạy"
    );
    assert_eq!(result.metric_value, "9000.0 GFLOPS");
    assert_eq!(result.name, "MatMul Throughput");
}

#[test]
fn failed_sizes_count_only_where_none_went_through() {
    let mut test = MatmulTest::new();
    test.record_failure(512, "e");
    let result = test.result("0.0", "0");
    assert_eq!(result.status, TestStatus::Error("Tất cả kích thước đều lỗi".to_string()));
    assert_eq!(result.score, Score::points(0));
    assert_eq!(result.details, "Không hoàn thành phép matmul nào (hết VRAM?)");
    test.record_size(1024, stats(600.0, 30.0, 0, 0.0), &texts());
    let result = test.result("600.0", "30");
    assert_eq!(result.status, TestStatus::Passed);
    assert_eq!(result.details, "Peak 600.0 GFLOPS (đã verify đúng đắn) | dao động 30%");
}

#[test]
fn the_correctness_limit_is_a_thousandth() {
    assert_eq!(
        matmul::judge_gate(double(0.99e-3), "9.90e-4").unwrap(),
        "Kiểm tra đúng đắn: PASS (max rel err = 9.90e-4)"
    );
    let result = matmul::judge_gate(double(1e-3), "1.00e-3").unwrap_err();
    assert_eq!(result.status, TestStatus::Failed);
    assert_eq!(result.score, Score::points(5));
    assert_eq!(
        result.details,
        "Kết quả không khớp chuẩn CPU f64 (sai số 1.00e-3) — nghi ngờ lỗi phần cứng/driver."
    );
    assert_eq!(result.metric_value, "INVALID");
    for wrong in [f64::INFINITY, f64::NAN, -f64::NAN] {
        assert_eq!(matmul::judge_gate(double(wrong), "x").unwrap_err().score, Score::points(5));
    }
    let result = matmul::gate_crash("lost");
    assert_eq!(result.status, TestStatus::Error("Verify crashed: lost".to_string()));
    assert_eq!(result.details, "Không chạy được phép kiểm tra matmul: lost");
}

#[test]
fn one_wrong_output_closes_the_gate() {
    let fine = vec![double(1e-7); 65_536];
    assert_eq!(matmul::gate_error(&fine), double(1e-7));
    assert!(MatmulRun::new().record_gate(Ok((fine.clone(), "t".to_string()))).is_ok());
    for wrong in [f64::NAN, f64::INFINITY, 1e-3, 0.25] {
        for place in [0, 32_768, 65_535] {
            let mut errors = fine.clone();
            errors[place] = double(wrong);
            let error = f64::from_bits(matmul::gate_error(&errors).bits);
            assert!(error >= 1e-3);
            let mut run = MatmulRun::new();
            let result = run.record_gate(Ok((errors, "t".to_string()))).unwrap_err();
            assert_eq!(result.status, TestStatus::Failed);
            assert_eq!(result.metric_value, "INVALID");
        }
    }
    for count in [0, 65_535, 65_537] {
        let errors = vec![double(0.0); count];
        assert_eq!(matmul::gate_error(&errors), double(f64::INFINITY));
        assert!(MatmulRun::new().record_gate(Ok((errors, "t".to_string()))).is_err());
    }
}

/// A measurement of a size where every result is the same, and so is every
/// error.
fn measured(size: usize, gflops: f64, output: f32, error: f64) -> SizeMeasurement {
    SizeMeasurement {
        gflops: double(gflops),
        spread: double(1.0),
        outputs: vec![single(output); size * size],
        errors: vec![double(error); 64],
    }
}

#[test]
fn measurements_count_wrong_results_and_keep_the_worst_error() {
    let mut measurement = measured(512, 10.0, 1.0, 1e-6);
    measurement.errors[63] = double(2e-3);
    let stats = measurement.stats(512);
    assert_eq!(stats.gflops, double(10.0));
    assert_eq!(stats.spread, double(1.0));
    assert_eq!(stats.non_finite, 0);
    assert_eq!(stats.max_rel, double(2e-3));
    measurement.outputs[7] = single(f32::NAN);
    measurement.outputs[262_143] = single(f32::NEG_INFINITY);
    assert_eq!(measurement.stats(512).non_finite, 2);
    measurement.errors[0] = double(f64::NAN);
    assert_eq!(measurement.stats(512).max_rel, double(2e-3));
    measurement.errors[1] = double(f64::INFINITY);
    assert_eq!(measurement.stats(512).max_rel, double(f64::INFINITY));

    let mut short = measured(512, 10.0, 1.0, 0.0);
    assert_eq!(short.stats(512).max_rel, double(0.0));
    assert_eq!(short.stats(1024).max_rel, double(f64::INFINITY));
    short.errors.pop();
    assert_eq!(short.stats(512).max_rel, double(f64::INFINITY));
    let mut short = measured(512, 10.0, 1.0, 0.0);
    short.outputs.pop();
    assert_eq!(short.stats(512).max_rel, double(f64::INFINITY));
}

#[test]
fn wrong_sizes_are_invalid() {
    for (output, error, invalid) in [
        (1.0f32, 4.9e-3, false),
        (1.0, 5e-3, true),
        (1.0, f64::NAN, false),
        (f32::NAN, f64::NAN, true),
        (f32::INFINITY, 0.0, true),
    ] {
        let mut run = MatmulRun::new();
        let errors = vec![double(0.0); 65_536];
        assert!(run.record_gate(Ok((errors, "t".to_string()))).is_ok());
        let measurement = measured(512, 10.0, output, error);
        run.record(SizeOutcome::Measured { measurement, texts: texts() });
        assert_eq!(run.test.any_invalid, invalid);
    }
}

#[test]
fn matmul_sizes_have_iterations_and_samples() {
    assert_eq!(matmul::SIZES, [512, 1024, 2048]);
    let counts: Vec<usize> = matmul::SIZES.iter().map(|s| matmul::iterations(*s)).collect();
    assert_eq!(counts, vec![10, 5, 3]);
    for size in matmul::SIZES {
        for s in 0..64u64 {
            let index =
                (s.wrapping_mul(2654435761).wrapping_add(97) as usize) % (size * size);
            let position = matmul::sample_position(s, size);
            assert_eq!(position.index, index);
            assert_eq!(position.row, index / size);
            assert_eq!(position.col, index % size);
        }
    }
}

#[test]
fn products_go_from_the_first_to_the_last_size() {
    let mut run = MatmulRun::new();
    let work = run.next().unwrap();
    assert_eq!(work.message, "Correctness gate 256×256...");
    assert_eq!(work.rows, 256);
    assert_eq!(work.seeds, (0xDEAD_BEEF, 0x0BAD_C0DE));
    let errors = vec![double(1e-6); 65_536];
    assert!(run.record_gate(Ok((errors, "1.00e-6".to_string()))).is_ok());
    for size in [512usize, 1024, 2048] {
        let work = run.next().unwrap();
        assert_eq!(work.message, format!("MatMul {}×{}...", size, size));
        assert_eq!(work.rows, size);
        assert_eq!(work.seeds, (0xCAFE_BABE ^ size as u64, 0xFEED_FACE ^ size as u64));
        assert_eq!(work.tasks.len(), 8 + 1 + 3 * (matmul::iterations(size) + 2) + 2 + 4);
        let outcome = if size == 1024 {
            SizeOutcome::Failed { error: "lost".to_string() }
        } else {
            let measurement = measured(size, size as f64, 1.0, 0.0);
            SizeOutcome::Measured { measurement, texts: texts() }
        };
        match run.record(outcome) {
            ProgressCall::Log { message } => {
                assert_ne!(size, 1024);
                assert!(message.starts_with(&format!("{}×{}: ", size, size)));
            }
            ProgressCall::Warn { message } => assert_eq!(message, "1024×1024: FAILED — lost"),
            other => panic!("{:?}", other),
        }
    }
    assert!(run.next().is_none());
    assert!(run.test.any_failed);
    assert_eq!(run.test.best_gflops, double(2048.0));
}

#[test]
fn a_wrong_or_missing_first_product_ends_the_benchmark() {
    let mut run = MatmulRun::new();
    let result = run.record_gate(Err("lost".to_string())).unwrap_err();
    assert_eq!(result.status, TestStatus::Error("Verify crashed: lost".to_string()));
    assert!(run.next().is_none());
    let mut run = MatmulRun::new();
    let errors = vec![double(0.5); 65_536];
    let result = run.record_gate(Ok((errors, "5.00e-1".to_string()))).unwrap_err();
    assert_eq!(result.score, Score::points(5));
    assert!(run.next().is_none());
}

/// The same deviation of all numbers of a computation.
fn deviations(check: Check, deviation: f64) -> Vec<Float64> {
    let count = if check == Check::Identity { 65_536 } else { 262_144 };
    vec![double(deviation); count]
}

#[test]
fn the_three_computations_follow_each_other() {
    let mut test = PrecisionTest::new();
    let mut seen = Vec::new();
    while let Some(work) = test.next() {
        let lengths: Vec<usize> = work.inputs.iter().map(|i| i.len()).collect();
        seen.push((work.check, lengths, work.tasks.len()));
        test.record(&deviations(work.check, 0.0), "0");
    }
    assert_eq!(
        seen,
        vec![
            (Check::Identity, vec![65_536, 65_536], 14),
            (Check::AddSub, vec![262_144, 262_144], 18),
            (Check::Scale, vec![262_144], 15),
        ]
    );
}

#[test]
fn bandwidth_points_follow_the_rate() {
    for (rate, points) in [
        (400.0, 100),
        (399.9, 85),
        (200.0, 85),
        (100.0, 70),
        (99.0, 55),
        (50.0, 55),
        (10.0, 35),
        (9.0, 15),
    ] {
        let result = bandwidth::report_rates(double(rate), double(20.0), "w", "r", "s");
        assert_eq!(result.score, Score::points(points));
    }
}

#[test]
fn bandwidth_results_have_details() {
    let result = bandwidth::report_rates(double(450.0), double(3.0), "450", "450.0", "3");
    assert_eq!(result.name, "Memory Bandwidth");
    assert_eq!(result.status, TestStatus::Passed);
    assert_eq!(result.details, "Bandwidth: 450 GB/s (best of 4 runs, dao động 3%)");
    assert_eq!(result.metric_value, "450.0 GB/s");
    let result = bandwidth::report_rates(double(450.0), double(20.5), "450", "450.0", "20");
    assert_eq!(result.status, TestStatus::Warning);
    assert_eq!(result.score, Score::points(65));
    assert_eq!(
        result.details,
        "Bandwidth: 450 GB/s (best of 4 runs, dao động 20%) — bất ổn giữa các lần chạy"
    );
}

#[test]
fn bandwidth_errors_are_told_apart() {
    let error = bandwidth::stop_error(2, Event::Word(9), "");
    let result = bandwidth::report_error(error);
    assert_eq!(result.status, TestStatus::Failed);
    assert_eq!(result.score, Score::points(10));
    assert_eq!(
        result.details,
        "Đọc lại VRAM sai lệch dữ liệu (mismatches=9) — nghi ngờ VRAM hỏng"
    );
    assert_eq!(result.metric_value, "INVALID");
    let error = bandwidth::stop_error(2, Event::Float(single(3.5)), "3.5");
    assert_eq!(
        bandwidth::report_error(error).details,
        "Phép cộng cho kết quả sai: run 2, got 3.5, expected 3"
    );
    let result = bandwidth::report_error(bandwidth::stop_error(0, Event::Failed, "lost"));
    assert_eq!(result.status, TestStatus::Error("lost".to_string()));
    assert_eq!(result.score, Score::points(0));
    assert_eq!(result.details, "Không thể đo bandwidth: lost");
}

#[test]
fn bandwidth_buffers_follow_the_memory() {
    assert_eq!(bandwidth::choose_rows(None), 4096);
    assert_eq!(bandwidth::choose_rows(Some(4095)), 4096);
    assert_eq!(bandwidth::choose_rows(Some(4096)), 8192);
    assert_eq!(bandwidth::element_count(4096), 16_777_216);
    assert_eq!(
        bandwidth::stage_message(8192),
        "Buffer 8192×8192 f32 = 256 MB, chain 8 ops × 4 runs..."
    );
    assert_eq!(
        bandwidth::stage_message(887),
        "Buffer 887×887 f32 = 3 MB, chain 8 ops × 4 runs..."
    );
    assert_eq!(
        bandwidth::stage_message(4096),
        "Buffer 4096×4096 f32 = 64 MB, chain 8 ops × 4 runs..."
    );
}

#[test]
fn bandwidth_rates_keep_best_and_worst() {
    let mut rates = bandwidth::BandwidthRates::new();
    assert_eq!(rates.best, double(0.0));
    assert_eq!(rates.worst, double(f64::INFINITY));
    for rate in [120.0, 150.0, 110.0, 140.0] {
        rates.record(double(rate));
    }
    assert_eq!(rates.best, double(150.0));
    assert_eq!(rates.worst, double(110.0));
}

#[test]
fn stability_points_follow_the_share_of_faults() {
    let score = |bad| StressTest { iterations: 100, bad_elements: bad }.result(
        double(0.0),
        "r",
        "k",
        "p",
    );
    assert_eq!(score(0).score, Score::points(100));
    assert_eq!(score(0).status, TestStatus::Passed);
    assert_eq!(score(104).score, Score::points(90));
    assert_eq!(score(105).score, Score::points(70));
    assert_eq!(score(10_485).score, Score::points(70));
    assert_eq!(score(10_486).score, Score::points(40));
    assert_eq!(score(1_048_575).score, Score::points(40));
    assert_eq!(score(1_048_576).score, Score::points(10));
    assert_eq!(score(1_048_576).status, TestStatus::Failed);
}

#[test]
fn throttling_costs_points() {
    let test = StressTest { iterations: 7, bad_elements: 0 };
    let result = test.result(double(15.0), "0.00e0", "85", "0.0000");
    assert_eq!(result.score, Score::points(100));
    let result = test.result(double(15.5), "0.00e0", "84", "0.0000");
    assert_eq!(result.score, Score { num: 8500, den: 100 });
    assert_eq!(result.status, TestStatus::Warning);
    assert_eq!(
        result.details,
        "7 vòng | 0 phần tử sai (0.00e0) | hiệu năng giữ 84% — nghi ngờ thermal throttling"
    );
    assert_eq!(result.metric_value, "0.0000%");
    let result = test.result(double(31.0), "0.00e0", "69", "0.0000");
    assert_eq!(result.score, Score { num: 600, den: 10 });
    assert_eq!(result.status, TestStatus::Warning);
    assert_eq!(result.name, "Stability (30s)");
}

#[test]
fn scaled_scores_are_exact_in_double_precision() {
    for points in [100u64, 90, 70, 40, 10] {
        assert_eq!(points as f64 * 0.6, (points * 6) as f64 / 10.0);
        assert_eq!(points as f64 * 0.85, (points * 85) as f64 / 100.0);
    }
}

#[test]
fn stability_without_iterations_is_an_error() {
    let result = StressTest::new().result(double(0.0), "r", "k", "p");
    assert_eq!(result.status, TestStatus::Error("No iterations".to_string()));
    assert_eq!(result.score, Score::points(0));
    assert_eq!(result.details, "Không chạy được vòng lặp nào trong 30s");
    let result = stability::report_crash("lost");
    assert_eq!(result.status, TestStatus::Error("lost".to_string()));
    assert_eq!(result.details, "GPU gặp sự cố trong stress test: lost");
    assert_eq!(result.metric_value, "CRASH");
}

#[test]
fn the_load_lasts_thirty_seconds() {
    assert!(StressTest::goes_on(0));
    assert!(StressTest::goes_on(29_999_999_999));
    assert!(!StressTest::goes_on(30_000_000_000));
}

#[test]
fn the_load_ticks_once_a_second() {
    let mut test = StressTest::new();
    test.record_iteration(3);
    test.record_iteration(4);
    assert!(test.tick(999_999_999, 5_000_000_000).is_none());
    let tick = test.tick(1_000_000_000, 5_999_999_999).unwrap();
    assert_eq!(tick.position, 5);
    assert_eq!(tick.message, "2 vòng | 7 lỗi");
    assert_eq!(test.tick(1_000_000_000, 45_000_000_000).unwrap().position, 30);
    assert_eq!(StressTest::first_message(), "0 vòng | 0 lỗi");
}

#[test]
fn only_early_device_errors_crash_the_load() {
    let mut test = StressTest::new();
    assert!(test.is_crash(true));
    assert!(!test.is_crash(false));
    test.record_iteration(0);
    assert!(!test.is_crash(true));
}

/// Compares outputs with references as the load does.
fn bad(reference: &[f32], outputs: &[f32]) -> u64 {
    let wide = |values: &[f32]| values.iter().map(|v| *v as f64).collect::<Vec<f64>>();
    let diffs: Vec<Float64> = wide(reference)
        .iter()
        .zip(wide(outputs))
        .map(|(r, g)| double((r - g).abs()))
        .collect();
    let tolerances: Vec<Float64> =
        wide(reference).iter().map(|r| double(1e-4 * (1.0 + r.abs()))).collect();
    let reference: Vec<Float32> = reference.iter().map(|v| single(*v)).collect();
    let outputs: Vec<Float32> = outputs.iter().map(|v| single(*v)).collect();
    stability::count_bad(&reference, &outputs, &diffs, &tolerances)
}

#[test]
fn differences_are_held_against_tolerances() {
    assert_eq!(bad(&[0.0, 1.0, 2.0], &[0.0, 1.0, 2.0]), 0);
    assert_eq!(bad(&[0.0, 1.0, 2.0], &[0.00009, 1.00019, 2.1]), 1);
    assert_eq!(bad(&[1.0, 1.0, 1.0, 1.0], &[1.0, 3.0, 1.0, f32::NAN]), 2);
    assert_eq!(bad(&[1.0, 1.0], &[f32::INFINITY, f32::NEG_INFINITY]), 2);
    assert_eq!(bad(&[1.0, 2.0], &[5.0]), 1);
    assert_eq!(bad(&[], &[]), 0);
}

#[test]
fn infinite_outputs_may_repeat_infinite_references() {
    let (inf, nan) = (f32::INFINITY, f32::NAN);
    assert_eq!(bad(&[inf, -inf], &[inf, -inf]), 0);
    assert_eq!(bad(&[inf, -inf], &[nan, nan]), 2);
    assert_eq!(bad(&[inf, -inf], &[1.0, inf]), 0);
    assert_eq!(bad(&[nan, nan], &[nan, 1.0]), 2);
}

#[test]
fn every_output_under_load_is_compared() {
    let reference = vec![single(1.0); 1_048_576];
    let tolerances = vec![double(2e-4); 1_048_576];
    let mut outputs = reference.clone();
    let mut diffs = vec![double(0.0); 1_048_576];
    let mut test = StressTest::new();
    test.record_outputs(&reference, &outputs, &diffs, &tolerances);
    assert_eq!((test.iterations, test.bad_elements), (1, 0));
    for (place, output, diff) in [
        (0, f32::NAN, f64::NAN),
        (500_000, 1.0001, 2e-4),
        (700_000, 1.1, 0.1),
        (1_048_575, f32::INFINITY, f64::INFINITY),
    ] {
        outputs[place] = single(output);
        diffs[place] = double(diff);
    }
    test.record_outputs(&reference, &outputs, &diffs, &tolerances);
    assert_eq!((test.iterations, test.bad_elements), (2, 3));
}

#[test]
fn iterations_end_with_the_time_or_a_failure() {
    let test = StressTest::new();
    let last = 30_000_000_000u128 - 1;
    assert_eq!(test.next_iteration(0, false).unwrap().len(), 2);
    assert_eq!(
        format!("{:?}", test.next_iteration(last, false).unwrap()),
        format!("{:?}", stability::iteration_tasks())
    );
    assert!(test.next_iteration(last + 1, false).is_none());
    assert!(test.next_iteration(0, true).is_none());
    assert!(test.next_iteration(u128::MAX, true).is_none());
}

#[test]
fn quarters_and_totals() {
    assert_eq!(stability::quarter(0), 1);
    assert_eq!(stability::quarter(3), 1);
    assert_eq!(stability::quarter(11), 2);
    assert_eq!(stability::quarter(100), 25);
    assert_eq!(stability::total_elements(0), 1);
    assert_eq!(stability::total_elements(3), 3_145_728);
    assert_eq!(stability::total_elements(u64::MAX), u64::MAX);
}

#[test]
fn precision_points_follow_the_error() {
    for (error, points) in [
        (0.0, 100),
        (9.9e-7, 100),
        (1e-6, 90),
        (1e-5, 75),
        (1e-4, 50),
        (1e-3, 25),
        (1e-1, 5),
        (f64::INFINITY, 5),
        (f64::NAN, 5),
    ] {
        let mut test = PrecisionTest::new();
        test.record(&deviations(Check::Identity, error), "t");
        assert_eq!(test.result("t").score, Score::points(points));
    }
}

#[test]
fn precision_checks_are_logged() {
    let mut test = PrecisionTest::new();
    assert_eq!(PrecisionTest::stage_message(), "Running precision checks...");
    assert_eq!(
        test.record(&deviations(Check::Identity, 2e-5), "2.00e-5"),
        "A×I=A: max_err=2.00e-5"
    );
    assert_eq!(
        test.record(&deviations(Check::AddSub, 1e-5), "1.00e-5"),
        "(A+B)-B≈A: max_err=1.00e-5"
    );
    assert_eq!(
        test.record(&deviations(Check::Scale, 0.0), "0.00e0"),
        "A*2/2≈A: max_err=0.00e0"
    );
    assert_eq!(test.max_error, double(2e-5));
    let result = test.result("2.00e-5");
    assert_eq!(result.name, "Float32 Precision");
    assert_eq!(result.status, TestStatus::Passed);
    assert_eq!(result.details, "Max precision error: 2.00e-5");
    assert_eq!(result.metric_value, "2.00e-5");
}

#[test]
fn numbers_that_do_not_come_back_fail() {
    for wrong in [f64::NAN, -f64::NAN, f64::INFINITY] {
        for place in [0, 100_000, 262_143] {
            let mut test = PrecisionTest::new();
            test.record(&deviations(Check::Identity, 0.0), "t");
            let mut sums = deviations(Check::AddSub, 1e-6);
            sums[place] = double(wrong);
            assert_eq!(
                precision::largest_deviation(Check::AddSub, &sums),
                double(f64::INFINITY)
            );
            test.record(&sums, "t");
            test.record(&deviations(Check::Scale, 0.0), "t");
            assert_eq!(test.max_error, double(f64::INFINITY));
            let result = test.result("inf");
            assert_eq!(result.status, TestStatus::Failed);
            assert_eq!(result.score, Score::points(5));
        }
    }
}

#[test]
fn missing_numbers_count_as_infinite_deviations() {
    for (check, count) in [(Check::Identity, 65_536), (Check::AddSub, 262_144), (Check::Scale, 262_144)]
    {
        assert_eq!(
            precision::largest_deviation(check, &vec![double(0.5); count]),
            double(0.5)
        );
        for count in [0, count - 1, count + 1] {
            assert_eq!(
                precision::largest_deviation(check, &vec![double(0.5); count]),
                double(f64::INFINITY)
            );
        }
    }
}

#[test]
fn precision_crashes_name_the_check() {
    for (check, text) in [
        (Check::Identity, "A×I check failed: e"),
        (Check::AddSub, "Add/sub check failed: e"),
        (Check::Scale, "Scale check failed: e"),
    ] {
        let result = precision::report_crash(check, "e");
        assert_eq!(result.status, TestStatus::Error(text.to_string()));
        assert_eq!(result.details, format!("Precision test gặp sự cố: {}", text));
        assert_eq!(result.score, Score::points(0));
    }
}
