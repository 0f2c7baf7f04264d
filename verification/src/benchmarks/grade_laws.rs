//! What results earn: which points and which status follow from what was
//! measured.
use vstd::prelude::*;

#[allow(unused_imports)]
use super::bandwidth::{self, buffer_rows, measured_result, stop_cause, BandwidthRates};
#[allow(unused_imports)]
use super::matmul::{
    gate_closed, gate_crash_result, gate_open, gate_result, matmul_result, measured, MatmulTest,
    SizeStats,
};
#[allow(unused_imports)]
use super::precision::{crash_view, precision_result};
#[allow(unused_imports)]
use super::stability::{crash_result, element_total, quarter_length, stability_result, StressTest};
#[allow(unused_imports)]
use super::vram::{self, chunk_limit, setup_failure, vram_notes, vram_result, VramTest};
#[allow(unused_imports)]
use super::{ResultView, StatusView};
#[allow(unused_imports)]
use crate::float_bits::{double, Float64};
#[allow(unused_imports)]
use crate::limits::{law_fraction_limits, law_whole_limits};
#[allow(unused_imports)]
use crate::score::Score;
#[allow(unused_imports)]
use crate::session::Event;
#[allow(unused_imports)]
use crate::text::decimal;

verus! {

/// Whether a result has a whole number of points.
pub open spec fn earns(result: ResultView, points: u64) -> bool {
    result.score == (Score { num: points, den: 1 })
}

/// The precision test passes exactly where the largest deviation is below
/// 0.0001, and fails exactly where it is not below 0.001. The points fall by the
/// power of ten that the deviation reaches.
pub proof fn law_precision_passes_small_deviations(max_error: Float64, error_text: Seq<char>)
    ensures
        ({
            let result = precision_result(max_error, error_text);
            &&& result.status is Passed <==> max_error.is_under(1, 10_000)
            &&& result.status is Failed <==> !max_error.is_under(1, 1000)
            &&& result.status is Warning <==> max_error.is_under(1, 1000) && !max_error.is_under(
                1,
                10_000,
            )
            &&& earns(result, 100) <==> double(0x3EB0_C6F7_A0B5_ED8D).above(max_error)
            &&& earns(result, 100) || earns(result, 90) <==> max_error.is_under(1, 100_000)
            &&& earns(result, 75) <==> max_error.is_under(1, 10_000) && !max_error.is_under(
                1,
                100_000,
            )
            &&& earns(result, 50) <==> max_error.is_under(1, 1000) && !max_error.is_under(1, 10_000)
            &&& earns(result, 25) <==> max_error.is_under(1, 10) && !max_error.is_under(1, 1000)
            &&& earns(result, 5) <==> !max_error.is_under(1, 10)
            &&& result.metric_value == error_text
        }),
{
    law_fraction_limits(max_error);
}

/// What the share of bad elements earns: everything where none is bad, and less
/// from one in a million, in ten thousand and in a hundred on.
pub open spec fn earned_by_faults(bad: nat, all: nat, points: nat) -> bool {
    &&& points == 100 <==> bad == 0
    &&& points == 90 <==> 0 < bad && 1_000_000 * bad < all
    &&& points == 70 <==> all <= 1_000_000 * bad && 10_000 * bad < all
    &&& points == 40 <==> all <= 10_000 * bad && 100 * bad < all
    &&& points == 10 <==> all <= 100 * bad
}

/// The stability test passes exactly where fewer than one in a million elements
/// was bad and no more than 15 per cent of the performance was lost. It fails
/// exactly where one in ten thousand was bad, or, where more than 30 per cent was
/// lost, where one in a million was. The points for the faults are cut by 15 per
/// cent where more than 15 per cent was lost, and by 40 where more than 30 was.
pub proof fn law_stability_passes_steady_devices(
    test: StressTest,
    drop_pct: Float64,
    rate_text: Seq<char>,
    kept_text: Seq<char>,
    percent_text: Seq<char>,
)
    requires
        test.iterations > 0,
        test.iterations * 1_048_576 <= u64::MAX,
    ensures
        ({
            let result = stability_result(test, drop_pct, rate_text, kept_text, percent_text);
            let bad = test.bad_elements as nat;
            let all = test.iterations as nat * 1_048_576;
            let kept: nat = if drop_pct.is_beyond(30) {
                60
            } else if drop_pct.is_beyond(15) {
                85
            } else {
                100
            };
            &&& result.status is Passed <==> 1_000_000 * bad < all && !drop_pct.is_beyond(15)
            &&& result.status is Failed <==> all <= 10_000 * bad || drop_pct.is_beyond(30) && all
                <= 1_000_000 * bad
            &&& result.status is Passed || result.status is Failed || result.status is Warning
            &&& result.status is Passed ==> result.score.num >= 80 * result.score.den
            &&& result.status is Failed <==> result.score.num < 50 * result.score.den
            &&& result.score.den > 0
            &&& forall|points: nat| #[trigger]
                earned_by_faults(bad, all, points) ==> result.score.num * 100 == points * kept
                    * result.score.den
            &&& exists|points: nat| #[trigger] earned_by_faults(bad, all, points)
        }),
{
    law_whole_limits(drop_pct);
    let bad = test.bad_elements as nat;
    let all = test.iterations as nat * 1_048_576;
    assert(element_total(test.iterations) == all);
    let points: nat = if bad == 0 {
        100
    } else if 1_000_000 * bad < all {
        90
    } else if 10_000 * bad < all {
        70
    } else if 100 * bad < all {
        40
    } else {
        10
    };
    assert(earned_by_faults(bad, all, points));
}

/// A stability test without an iteration, and one that the device did not
/// survive, are errors without points.
pub proof fn law_stability_needs_iterations(
    test: StressTest,
    drop_pct: Float64,
    rate_text: Seq<char>,
    kept_text: Seq<char>,
    percent_text: Seq<char>,
    error: Seq<char>,
)
    ensures
        ({
            let result = stability_result(test, drop_pct, rate_text, kept_text, percent_text);
            &&& result.status is Error <==> test.iterations == 0
            &&& test.iterations == 0 ==> earns(result, 0)
            &&& crash_result(error).status == StatusView::Error(error)
            &&& earns(crash_result(error), 0)
        }),
{
}

/// As many elements are compared as the iterations have, 1024 times 1024 each, as
/// far as they can be counted.
pub proof fn law_every_iteration_adds_its_elements(fewer: u64, more: u64)
    requires
        fewer < more,
        more * 1_048_576 <= u64::MAX,
    ensures
        element_total(more) - (if fewer == 0 {
            0
        } else {
            element_total(fewer) as int
        }) == (more - fewer) * 1024 * 1024,
        element_total(0) == 1,
{
}

/// The quarters are quarters: four of them are no more than all timings, and four
/// longer ones would be more; there is one timing at least.
pub proof fn law_quarters_are_quarters(timings: nat)
    ensures
        quarter_length(timings) >= 1,
        timings >= 4 ==> 4 * quarter_length(timings) <= timings < 4 * (quarter_length(timings) + 1),
        timings < 4 ==> quarter_length(timings) == 1,
{
}

/// The VRAM test passes exactly where no chunk was wrong and at least three fifths
/// of the nominal memory were found, or 2000 MB where none is known. It fails
/// exactly where a chunk was wrong, or less than two fifths were found. Only a
/// test without a chunk is an error.
pub proof fn law_vram_passes_sound_memory(test: VramTest, percent: Seq<char>)
    requires
        test.wf(),
    ensures
        ({
            let result = vram_result(test, percent);
            let found = 128 * test.chunks;
            let known = test.dedicated_vram_mb matches Some(mb) && mb > 0;
            let nominal = test.dedicated_vram_mb->0;
            &&& result.status is Error <==> test.chunks == 0
            &&& test.chunks == 0 ==> earns(result, 0)
            &&& test.chunks > 0 ==> {
                &&& result.status is Passed <==> test.integrity_errors == 0 && (if known {
                    5 * found >= 3 * nominal
                } else {
                    found >= 2000
                })
                &&& result.status is Failed <==> test.integrity_errors > 0 || known && 5 * found < 2
                    * nominal
            }
        }),
{
}

/// What the memory that was found earns. Where the nominal memory is known, nine
/// tenths of it, three quarters, three fifths and two fifths are the steps;
/// otherwise 8000, 4000, 2000 and 1000 MB.
pub proof fn law_vram_points_follow_the_memory(test: VramTest, percent: Seq<char>)
    requires
        test.wf(),
        test.chunks > 0,
        test.integrity_errors == 0,
    ensures
        ({
            let result = vram_result(test, percent);
            let found = 128 * test.chunks;
            let nominal = test.dedicated_vram_mb->0;
            if test.dedicated_vram_mb matches Some(mb) && mb > 0 {
                &&& earns(result, 100) <==> 10 * found >= 9 * nominal
                &&& earns(result, 88) <==> 10 * found < 9 * nominal && 4 * found >= 3 * nominal
                &&& earns(result, 72) <==> 4 * found < 3 * nominal && 5 * found >= 3 * nominal
                &&& earns(result, 50) <==> 5 * found < 3 * nominal && 5 * found >= 2 * nominal
                &&& earns(result, 25) <==> 5 * found < 2 * nominal
            } else {
                &&& earns(result, 100) <==> found >= 8000
                &&& earns(result, 85) <==> 4000 <= found < 8000
                &&& earns(result, 70) <==> 2000 <= found < 4000
                &&& earns(result, 55) <==> 1000 <= found < 2000
                &&& earns(result, 40) <==> found < 1000
            }
        }),
{
}

/// Wrong chunks cap the points at 35, and each of them divides what is left
/// further: with `e` of them a test earns one part in `1 + e` of what it would
/// earn without, or of 35 where that is less.
pub proof fn law_wrong_chunks_divide_the_points(test: VramTest, sound: VramTest, percent: Seq<char>)
    requires
        test.wf(),
        test.integrity_errors > 0,
        sound == (VramTest { integrity_errors: 0, ..test }),
    ensures
        ({
            let without = vram_result(sound, percent).score.num;
            let score = vram_result(test, percent).score;
            &&& score.den == 1 + test.integrity_errors
            &&& score.num == if without < 35 {
                without
            } else {
                35
            }
        }),
{
    assert(test.integrity_errors <= test.chunks);
}

/// The remarks: one on wrong chunks exactly where there are some, one on too much
/// memory exactly where more than 102 per cent of the nominal memory was found,
/// and one on too little exactly where less than nine tenths were.
pub proof fn law_vram_remarks_fit(measured_mb: nat, nominal_mb: Option<u64>, errors: u64)
    ensures
        ({
            let notes = vram_notes(measured_mb, nominal_mb, errors);
            let wrong: nat = if errors > 0 {
                1
            } else {
                0
            };
            let much: nat = if nominal_mb matches Some(nominal) && 100 * measured_mb > 102 * nominal {
                1
            } else {
                0
            };
            let little: nat = if nominal_mb matches Some(nominal) && 10 * measured_mb < 9 * nominal {
                1
            } else {
                0
            };
            &&& notes.len() == wrong + much + little
            &&& wrong == 1 ==> notes[0] == decimal(errors as nat)
                + " chunk sai dữ liệu — VRAM có vùng hỏng"@
            &&& much == 1 ==> notes[wrong as int]
                == "cấp phát vượt mức danh nghĩa (phần vượt có thể là shared memory của Windows)"@
            &&& little == 1 ==> notes[(wrong + much) as int]
                == "khả dụng thấp — có thể app khác đang chiếm VRAM hoặc VRAM yếu"@
        }),
{
}

/// The chunks that are tried are as many as fit into the nominal memory and a
/// gigabyte more, or into 16 gigabytes where nothing is known of the memory: one
/// more would not fit.
pub proof fn law_chunks_cover_the_memory(dedicated_vram_mb: Option<u64>)
    ensures
        ({
            let target = match dedicated_vram_mb {
                Some(nominal) => nominal + 1024,
                None => 16_384,
            };
            let chunks = chunk_limit(dedicated_vram_mb);
            128 * chunks <= target < 128 * (chunks + 1)
        }),
{
}

/// A setup that failed is an error without points, with the device's own words.
pub proof fn law_failed_setups_are_errors(position: nat, error: Seq<char>)
    ensures
        setup_failure(position, error).status is Error,
        earns(setup_failure(position, error), 0),
        setup_failure(position, error).status->Error_0 == setup_failure(position, error).details,
        exists|words: Seq<char>| setup_failure(position, error).details == words + error,
{
    let words = if position == 0 {
        "Cấp phát result buffer thất bại: "@
    } else if position == 1 {
        "Tạo descriptor pool thất bại: "@
    } else if position == 2 {
        "Alloc fill descriptor: "@
    } else {
        "Alloc verify descriptor: "@
    };
    assert(setup_failure(position, error).details == words + error);
}

/// The bandwidth test passes exactly where the best rate is at least 100 GB/s and
/// the rates differ by no more than 20 per cent. It fails exactly where the best
/// rate is below 50 GB/s.
pub proof fn law_bandwidth_passes_steady_rates(
    best: Float64,
    spread: Float64,
    whole_text: Seq<char>,
    rate_text: Seq<char>,
    spread_text: Seq<char>,
)
    ensures
        ({
            let result = measured_result(best, spread, whole_text, rate_text, spread_text);
            let shaky = spread.is_beyond(20);
            &&& result.status is Passed <==> best.is_from(100) && !shaky
            &&& result.status is Failed <==> !best.is_from(50)
            &&& result.status is Warning <==> best.is_from(50) && !(best.is_from(100) && !shaky)
            &&& earns(result, 100) <==> best.is_from(400) && !shaky
            &&& earns(result, 85) <==> best.is_from(200) && !best.is_from(400) && !shaky
            &&& earns(result, 70) <==> best.is_from(100) && !best.is_from(200) && !shaky
            &&& earns(result, 65) <==> best.is_from(100) && shaky
            &&& earns(result, 55) <==> best.is_from(50) && !best.is_from(100)
            &&& earns(result, 35) <==> best.is_from(10) && !best.is_from(50)
            &&& earns(result, 15) <==> !best.is_from(10)
        }),
{
    law_whole_limits(best);
    law_whole_limits(spread);
}

/// The rates after some runs.
pub open spec fn rates_of(rates: Seq<Float64>) -> BandwidthRates
    decreases rates.len(),
{
    if rates.len() == 0 {
        BandwidthRates { best: double(0), worst: double(0x7FF0_0000_0000_0000) }
    } else {
        rates_of(rates.drop_last()).after(rates.last())
    }
}

/// The best rate is zero or one of the rates, and none is above it; the worst is
/// infinite or one of the rates, and none is below it.
pub proof fn law_best_and_worst_rates_bound_the_runs(rates: Seq<Float64>)
    ensures
        ({
            let both = rates_of(rates);
            &&& !both.best.nan() && !both.worst.nan()
            &&& both.best == double(0) || rates.contains(both.best)
            &&& both.worst == double(0x7FF0_0000_0000_0000) || rates.contains(both.worst)
            &&& forall|i: int| 0 <= i < rates.len() ==> !(#[trigger] rates[i]).above(both.best)
            &&& forall|i: int| 0 <= i < rates.len() ==> !both.worst.above(#[trigger] rates[i])
        }),
    decreases rates.len(),
{
    if rates.len() > 0 {
        let fewer = rates.drop_last();
        law_best_and_worst_rates_bound_the_runs(fewer);
        let last = rates[rates.len() - 1];
        assert(rates.last() == last);
        assert(rates.contains(last));
        assert(forall|i: int| 0 <= i < fewer.len() ==> fewer[i] == rates[i]);
        let before = rates_of(fewer);
        if fewer.contains(before.best) {
            let i = choose|i: int| 0 <= i < fewer.len() && fewer[i] == before.best;
            assert(rates[i] == before.best);
        }
        if fewer.contains(before.worst) {
            let i = choose|i: int| 0 <= i < fewer.len() && fewer[i] == before.worst;
            assert(rates[i] == before.worst);
        }
    }
}

/// A measurement that was stopped by wrong data fails with 10 points; one that
/// the device did not survive is an error without points, in the device's words.
pub proof fn law_wrong_sums_fail(round: usize, event: Event, text: Seq<char>)
    ensures
        ({
            let cause = stop_cause(round, event, text);
            let result = bandwidth::error_result(cause);
            &&& event is Float || event is Word ==> result.status is Failed && earns(result, 10)
                && result.metric_value == "INVALID"@
            &&& event is Failed || event is Done ==> result.status == StatusView::Error(text)
                && earns(result, 0)
        }),
{
}

/// A spread of more than 20 per cent adds a remark to the details, and nothing
/// else does.
pub proof fn law_unsteady_rates_are_remarked(
    best: Float64,
    steady: Float64,
    spread: Float64,
    whole_text: Seq<char>,
    rate_text: Seq<char>,
    spread_text: Seq<char>,
)
    requires
        !steady.is_beyond(20),
    ensures
        ({
            let plain = measured_result(best, steady, whole_text, rate_text, spread_text).details;
            let details = measured_result(best, spread, whole_text, rate_text, spread_text).details;
            &&& plain == "Bandwidth: "@ + whole_text + " GB/s (best of "@ + decimal(4)
                + " runs, dao động "@ + spread_text + "%)"@
            &&& details == if spread.is_beyond(20) {
                plain + " — bất ổn giữa các lần chạy"@
            } else {
                plain
            }
        }),
{
    law_whole_limits(steady);
    law_whole_limits(spread);
    reveal_strlit("");
    let base = "Bandwidth: "@ + whole_text + " GB/s (best of "@ + decimal(4) + " runs, dao động "@
        + spread_text + "%)"@;
    assert(base + ""@ =~= base);
}

/// Buffers of 8192 rows are used exactly where at least 4 gigabytes of memory are
/// known to be there, otherwise buffers of half as many.
pub proof fn law_large_buffers_need_memory(dedicated_vram_mb: Option<u64>)
    ensures
        buffer_rows(dedicated_vram_mb) == 8192 <==> (dedicated_vram_mb matches Some(mb) && mb
            >= 4096),
        buffer_rows(dedicated_vram_mb) == 8192 || buffer_rows(dedicated_vram_mb) == 4096,
{
}

/// A benchmark of products none of which was wrong, and of which some were timed,
/// passes exactly where the best rate is at least 500 GFLOPS and the spread no
/// more than 30 per cent. It fails exactly where the best rate is below 100.
pub proof fn law_matmul_passes_steady_rates(
    test: MatmulTest,
    gflops_text: Seq<char>,
    spread_text: Seq<char>,
)
    requires
        !test.any_invalid,
        !test.any_failed || test.best_gflops.above(double(0)),
    ensures
        ({
            let result = matmul_result(test, gflops_text, spread_text);
            let best = test.best_gflops;
            let shaky = test.worst_spread.is_beyond(30);
            &&& result.status is Passed <==> best.is_from(500) && !shaky
            &&& result.status is Failed <==> !best.is_from(100)
            &&& result.status is Warning <==> best.is_from(100) && !(best.is_from(500) && !shaky)
            &&& earns(result, 100) <==> best.is_from(5000) && !shaky
            &&& earns(result, 90) <==> best.is_from(2000) && !best.is_from(5000) && !shaky
            &&& earns(result, 80) <==> best.is_from(1000) && !best.is_from(2000) && !shaky
            &&& earns(result, 70) <==> best.is_from(500) && !best.is_from(1000) && !shaky
            &&& earns(result, 65) <==> best.is_from(500) && shaky
            &&& earns(result, 55) <==> best.is_from(100) && !best.is_from(500)
            &&& earns(result, 35) <==> best.is_from(10) && !best.is_from(100)
            &&& earns(result, 15) <==> !best.is_from(10)
        }),
{
    law_whole_limits(test.best_gflops);
    law_whole_limits(test.worst_spread);
}

/// A wrong size fails the benchmark with 15 points. Where none was wrong, the
/// benchmark is an error exactly where a size failed and none had a rate.
pub proof fn law_failed_sizes_are_errors(
    test: MatmulTest,
    gflops_text: Seq<char>,
    spread_text: Seq<char>,
)
    requires
        double(0).reaches(test.best_gflops) || test.best_gflops.above(double(0)),
        test.best_gflops.reaches(double(0)),
    ensures
        ({
            let result = matmul_result(test, gflops_text, spread_text);
            &&& test.any_invalid ==> result.status is Failed && earns(result, 15)
                && result.metric_value == "INVALID"@
            &&& result.status is Error <==> !test.any_invalid && test.any_failed
                && !test.best_gflops.above(double(0))
            &&& result.status is Error ==> earns(result, 0)
        }),
{
}

/// No size's spread is above the worst spread, which is zero or the spread of one
/// of the sizes. The best rate is zero or the rate of one of the sizes. A failed
/// size changes neither.
pub proof fn law_worst_spread_is_the_worst(sizes: Seq<SizeStats>)
    ensures
        ({
            let test = measured(sizes);
            &&& !test.worst_spread.nan() && !test.best_gflops.nan()
            &&& test.worst_spread.reaches(double(0)) && test.best_gflops.reaches(double(0))
            &&& forall|i: int|
                0 <= i < sizes.len() ==> !(#[trigger] sizes[i]).spread.above(test.worst_spread)
                    && !sizes[i].gflops.above(test.best_gflops)
            &&& test.worst_spread == double(0) || exists|i: int|
                0 <= i < sizes.len() && (#[trigger] sizes[i]).spread == test.worst_spread
            &&& test.best_gflops == double(0) || exists|i: int|
                0 <= i < sizes.len() && (#[trigger] sizes[i]).gflops == test.best_gflops
            &&& test.any_invalid <==> exists|i: int|
                0 <= i < sizes.len() && !(#[trigger] sizes[i]).valid()
            &&& !test.any_failed
        }),
    decreases sizes.len(),
{
    if sizes.len() > 0 {
        let fewer = sizes.drop_last();
        law_worst_spread_is_the_worst(fewer);
        let before = measured(fewer);
        let last = sizes[sizes.len() - 1];
        assert(sizes.last() == last);
        assert(forall|i: int| 0 <= i < fewer.len() ==> fewer[i] == sizes[i]);
        if before.worst_spread != double(0) {
            let i = choose|i: int|
                0 <= i < fewer.len() && (#[trigger] fewer[i]).spread == before.worst_spread;
            assert(sizes[i].spread == before.worst_spread);
        }
        if before.best_gflops != double(0) {
            let i = choose|i: int|
                0 <= i < fewer.len() && (#[trigger] fewer[i]).gflops == before.best_gflops;
            assert(sizes[i].gflops == before.best_gflops);
        }
        if before.any_invalid {
            let i = choose|i: int| 0 <= i < fewer.len() && !(#[trigger] fewer[i]).valid();
            assert(!sizes[i].valid());
        }
        let test = measured(sizes);
        assert forall|i: int| 0 <= i < sizes.len() implies !(#[trigger] sizes[i]).spread.above(
            test.worst_spread,
        ) && !sizes[i].gflops.above(test.best_gflops) by {
            if i < fewer.len() {
                assert(fewer[i] == sizes[i]);
            }
        }
    }
}

/// One size with a spread of more than 30 per cent keeps the benchmark from
/// passing and from earning more than 65 points; one that is wrong, or off by
/// 0.005, fails it.
pub proof fn law_one_bad_size_keeps_from_passing(
    sizes: Seq<SizeStats>,
    bad: int,
    gflops_text: Seq<char>,
    spread_text: Seq<char>,
)
    requires
        0 <= bad < sizes.len(),
    ensures
        ({
            let result = matmul_result(measured(sizes), gflops_text, spread_text);
            &&& sizes[bad].spread.is_beyond(30) ==> !(result.status is Passed) && result.score.num
                <= 65 * result.score.den
            &&& sizes[bad].non_finite > 0 || !sizes[bad].max_rel.is_under(5, 1000) ==> result.status
                is Failed && earns(result, 15)
        }),
{
    law_worst_spread_is_the_worst(sizes);
    law_fraction_limits(sizes[bad].max_rel);
    law_whole_limits(sizes[bad].spread);
    law_whole_limits(measured(sizes).worst_spread);
    assert(!sizes[bad].spread.above(measured(sizes).worst_spread));
}

/// The correctness gate is open exactly where there are 256 times 256 errors and
/// each is below 0.001. A closed gate fails the benchmark with 5 points; a gate
/// that could not be run is an error without points.
pub proof fn law_gate_opens_for_right_products(
    errors: Seq<Float64>,
    error: Float64,
    text: Seq<char>,
)
    ensures
        gate_open(errors) <==> errors.len() == 256 * 256 && forall|i: int|
            0 <= i < errors.len() ==> (#[trigger] errors[i]).is_under(1, 1000),
        gate_closed(error) <==> !error.is_under(1, 1000),
        gate_result(text).status is Failed,
        earns(gate_result(text), 5),
        gate_result(text).metric_value == "INVALID"@,
        gate_crash_result(text).status == StatusView::Error("Verify crashed: "@ + text),
        earns(gate_crash_result(text), 0),
{
    law_fraction_limits(error);
    assert forall|i: int| 0 <= i < errors.len() implies (double(0x3F50_624D_D2F1_A9FC).above(
        #[trigger] errors[i],
    ) <==> errors[i].is_under(1, 1000)) by {
        law_fraction_limits(errors[i]);
    }
    if gate_open(errors) {
        assert forall|i: int| 0 <= i < errors.len() implies (#[trigger] errors[i]).is_under(
            1,
            1000,
        ) by {
            assert(double(0x3F50_624D_D2F1_A9FC).above(errors[i]));
        }
    }
}

/// A precision test that could not be run is an error without points.
pub proof fn law_crashed_precision_is_an_error(message: Seq<char>)
    ensures
        crash_view(message).status == StatusView::Error(message),
        earns(crash_view(message), 0),
{
}

/// Whatever was measured, a result carries the name of its benchmark and its metric:
/// the rate with its unit, or the share of right elements in per cent.
pub proof fn law_results_carry_their_metric(
    best: Float64,
    spread: Float64,
    sizes: MatmulTest,
    load: StressTest,
    first: Seq<char>,
    second: Seq<char>,
    third: Seq<char>,
)
    ensures
        ({
            let result = measured_result(best, spread, first, second, third);
            result.name == "Memory Bandwidth"@ && result.metric_value == second + " GB/s"@
        }),
        ({
            let result = matmul_result(sizes, first, second);
            &&& result.name == "MatMul Throughput"@
            &&& !(result.status is Error) && !sizes.any_invalid ==> result.metric_value == first
                + " GFLOPS"@
        }),
        ({
            let result = stability_result(load, spread, first, second, third);
            &&& result.name == "Stability (30s)"@
            &&& load.iterations > 0 ==> result.metric_value == third + "%"@
        }),
        ({
            let result = precision_result(best, first);
            result.name == "Float32 Precision"@ && result.details == "Max precision error: "@ + first
        }),
{
}

/// A sum that was read wrong is told with its run and its value, a wrong comparison
/// with the number of mismatches, and an error of the device in its own words.
pub proof fn law_stops_tell_their_cause(round: usize, event: Event, text: Seq<char>)
    ensures
        ({
            let details = bandwidth::error_result(stop_cause(round, event, text)).details;
            match event {
                Event::Float(_) => details == "Phép cộng cho kết quả sai: run "@ + decimal(
                    round as nat,
                ) + ", got "@ + text + ", expected 3"@,
                Event::Word(count) => details == "Đọc lại VRAM sai lệch dữ liệu (mismatches="@
                    + decimal(count as nat) + ") — nghi ngờ VRAM hỏng"@,
                _ => details == "Không thể đo bandwidth: "@ + text,
            }
        }),
{
}

} // verus!
