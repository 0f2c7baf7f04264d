//! Throughput of the matrix product.
//!
//! Counts as fast only what is also right: before anything is timed a product
//! is compared with a reference, and every timed size is checked again. A
//! device that computes wrong values fails, however fast it is.
use vstd::prelude::*;

use super::square::{
    push_square_download, push_square_product, push_square_release, push_square_setup,
    single_product_tasks, square_count,
};
#[allow(unused_imports)]
use super::square::{
    fits, single_product, square_download, square_product, square_release, square_setup,
};
#[allow(unused_imports)]
use super::square_laws::{
    has_square_inputs, lemma_product_to_end, lemma_repeated_products, lemma_square_setup,
    product_of,
};
use super::{BenchmarkResult, ProgressCall, TestStatus};
#[allow(unused_imports)]
use super::{points, ResultView, StatusView};
use crate::float_bits::{count_non_finite, largest, worst, Float32, Float64, INFINITY};
#[allow(unused_imports)]
use crate::float_bits::{
    double, largest_of, law_largest_number_decides, law_non_finite_numbers_are_counted,
    law_worst_error_decides, non_finite_count, worst_of,
};
#[allow(unused_imports)]
use crate::ideal::{lemma_steps_in_parts, Device};
use crate::program::{push_plain, Step, Task};
#[allow(unused_imports)]
use crate::program::{plain_tasks, tasks_view, StepView};
use crate::score::Score;
#[allow(unused_imports)]
use crate::text::decimal;
use crate::text::push_decimal;

verus! {

/// The rows of the matrices of the correctness gate.
pub const GATE_SIZE: usize = 256;

/// The seeds of the factors of the correctness gate.
pub const GATE_SEED_A: u64 = 0xDEAD_BEEF;

pub const GATE_SEED_B: u64 = 0x0BAD_C0DE;

/// How many elements the product of the correctness gate has.
pub const GATE_COUNT: usize = 65_536;

/// How often each size is timed.
pub const REPEATS: usize = 3;

/// The bit pattern of 0.001: a product that is as far off closes the correctness gate.
pub const GATE_LIMIT: u64 = 0x3F50_624D_D2F1_A9FC;

/// The bit pattern of 0.005: the error of a valid product lies below.
pub const ERROR_LIMIT: u64 = 0x3F74_7AE1_47AE_147B;

/// The bit pattern of 30: a larger spread, in per cent, is unstable.
pub const SPREAD_LIMIT: u64 = 0x403E_0000_0000_0000;

/// The bit patterns of the rates, in GFLOPS, that earn more points.
pub const RATE_5000: u64 = 0x40B3_8800_0000_0000;

pub const RATE_2000: u64 = 0x409F_4000_0000_0000;

pub const RATE_1000: u64 = 0x408F_4000_0000_0000;

pub const RATE_500: u64 = 0x407F_4000_0000_0000;

pub const RATE_100: u64 = 0x4059_0000_0000_0000;

pub const RATE_10: u64 = 0x4024_0000_0000_0000;

/// The sizes that are timed, in their order.
pub const SIZES: [usize; 3] = [512, 1024, 2048];

/// How many products one timing of a size takes.
pub open spec fn iteration_count(size: usize) -> usize {
    if size <= 512 {
        10
    } else if size <= 1024 {
        5
    } else {
        3
    }
}

/// How many products one timing of a size takes.
pub fn iterations(size: usize) -> (iterations: usize)
    ensures
        iterations == iteration_count(size),
{
    if size <= 512 {
        10
    } else if size <= 1024 {
        5
    } else {
        3
    }
}

/// The seeds of the factors of a size.
pub open spec fn seeds_of(size: usize) -> (u64, u64) {
    (0xCAFE_BABEu64 ^ (size as u64), 0xFEED_FACEu64 ^ (size as u64))
}

/// The seeds of the factors of a size.
pub fn size_seeds(size: usize) -> (seeds: (u64, u64))
    ensures
        seeds == seeds_of(size),
        seeds.0 == 0xCAFE_BABEu64 ^ (size as u64),
        seeds.1 == 0xFEED_FACEu64 ^ (size as u64),
{
    (0xCAFE_BABEu64 ^ (size as u64), 0xFEED_FACEu64 ^ (size as u64))
}

/// The tasks of the correctness gate: one product of two matrices.
pub fn run_correctness_gate() -> (tasks: Vec<Task>)
    ensures
        tasks_view(tasks@) == plain_tasks(single_product(GATE_SIZE)),
{
    single_product_tasks(GATE_SIZE)
}

/// Products one after the other.
pub open spec fn repeated_product(size: usize, times: nat) -> Seq<StepView> {
    Seq::new(times, |i: int| square_product(size))
}

/// One timing: products with the clock running.
pub open spec fn timed_products(size: usize) -> Seq<StepView> {
    seq![StepView::StartClock] + repeated_product(size, iteration_count(size) as nat)
        + seq![StepView::StopClock]
}

/// Timings one after the other.
pub open spec fn timings(size: usize, repeats: nat) -> Seq<StepView>
    decreases repeats,
{
    if repeats == 0 {
        seq![]
    } else {
        timings(size, (repeats - 1) as nat) + timed_products(size)
    }
}

/// The steps on a size: a product to warm up, the timings, and one more
/// product, which is brought back.
pub open spec fn size_program(size: usize) -> Seq<StepView> {
    square_setup(size).push(square_product(size)) + timings(size, REPEATS as nat) + seq![
        square_product(size),
        square_download(size),
    ] + square_release()
}

/// The tasks on a size.
pub fn run_single_size(size: usize) -> (tasks: Vec<Task>)
    requires
        fits(size),
    ensures
        tasks_view(tasks@) == plain_tasks(size_program(size)),
{
    let mut tasks: Vec<Task> = Vec::new();
    push_square_setup(&mut tasks, size);
    push_square_product(&mut tasks, size);
    let ghost head = square_setup(size).push(square_product(size));
    assert(tasks_view(tasks@) =~= plain_tasks(head));
    let mut repeat: usize = 0;
    assert(plain_tasks(head + timings(size, 0)) =~= plain_tasks(head));
    while repeat < REPEATS
        invariant
            fits(size),
            repeat <= REPEATS,
            tasks_view(tasks@) == plain_tasks(head + timings(size, repeat as nat)),
        decreases REPEATS - repeat,
    {
        push_timed_products(&mut tasks, size);
        repeat = repeat + 1;
        proof {
            let before = head + timings(size, (repeat - 1) as nat);
            assert(head + timings(size, repeat as nat) =~= before + timed_products(size));
            assert(plain_tasks(before + timed_products(size)) =~= plain_tasks(before)
                + plain_tasks(timed_products(size)));
        }
    }
    push_square_product(&mut tasks, size);
    push_square_download(&mut tasks, size);
    push_square_release(&mut tasks);
    assert(tasks_view(tasks@) =~= plain_tasks(size_program(size)));
    tasks
}

fn push_timed_products(tasks: &mut Vec<Task>, size: usize)
    requires
        fits(size),
    ensures
        tasks_view(final(tasks)@) == tasks_view(old(tasks)@) + plain_tasks(timed_products(size)),
{
    let ghost before = tasks_view(tasks@);
    push_plain(tasks, Step::StartClock);
    let count: usize = iterations(size);
    let mut i: usize = 0;
    let ghost clock = seq![StepView::StartClock];
    assert(tasks_view(tasks@) =~= before + plain_tasks(clock + repeated_product(size, 0)));
    while i < count
        invariant
            fits(size),
            i <= count,
            count == iteration_count(size),
            tasks_view(tasks@) == before + plain_tasks(clock + repeated_product(size, i as nat)),
        decreases count - i,
    {
        push_square_product(tasks, size);
        i = i + 1;
        assert(tasks_view(tasks@) =~= before + plain_tasks(
            clock + repeated_product(size, i as nat),
        ));
    }
    push_plain(tasks, Step::StopClock);
    assert(tasks_view(tasks@) =~= before + plain_tasks(timed_products(size)));
}

proof fn lemma_timings(size: usize, repeats: nat)
    ensures
        forall|i: int|
            0 <= i < timings(size, repeats).len() ==> (#[trigger] timings(
                size,
                repeats,
            )[i] is StartClock || timings(size, repeats)[i] is StopClock || timings(
                size,
                repeats,
            )[i] == square_product(size)),
    decreases repeats,
{
    if repeats > 0 {
        lemma_timings(size, (repeats - 1) as nat);
    }
}

/// On a device that computes exactly, what is brought back after the timings
/// is the product of the inputs; no step of the program is out of order, and
/// nothing is left behind.
pub proof fn law_timed_product_is_exact(device: Device, size: usize)
    requires
        device.sound,
        device.bare(),
        fits(size),
        size > 0,
        has_square_inputs(device, size),
    ensures
        ({
            let after = device.after_steps(size_program(size));
            &&& after.sound
            &&& after.bare()
            &&& after.downloads == device.downloads.push(
                product_of(device.inputs[0], device.inputs[1], size as nat),
            )
        }),
{
    let setup = square_setup(size);
    let timed = seq![square_product(size)] + timings(size, REPEATS as nat);
    let end = seq![square_product(size), square_download(size)] + square_release();
    assert(size_program(size) =~= setup + timed + end);
    lemma_steps_in_parts(device, setup + timed, end);
    lemma_steps_in_parts(device, setup, timed);
    lemma_square_setup(device, size);
    lemma_timings(size, REPEATS as nat);
    let ready = device.after_steps(setup);
    assert forall|i: int| 0 <= i < timed.len() implies (#[trigger] timed[i] is StartClock
        || timed[i] is StopClock || timed[i] == square_product(size)) by {
        if i > 0 {
            assert(timed[i] == timings(size, REPEATS as nat)[i - 1]);
        }
    }
    lemma_repeated_products(ready, size, timed);
    lemma_product_to_end(ready.after_steps(timed), size);
}

/// The element that a sample looks at: a fixed walk over the product.
pub open spec fn sample_index(sample: u64, size: nat) -> nat
    recommends
        size > 0,
{
    ((sample * 2654435761 + 97) as u64 as usize) as nat % (size * size)
}

/// An element of a square matrix.
#[derive(Debug, Clone, Copy, PartialEq, Eq, Structural)]
pub struct Position {
    pub index: usize,
    pub row: usize,
    pub col: usize,
}

/// How many elements of each size are compared with the reference.
pub const SAMPLES: u64 = 64;

/// The element that a sample looks at.
pub fn sample_position(sample: u64, size: usize) -> (position: Position)
    requires
        sample < SAMPLES,
        size > 0,
        fits(size),
    ensures
        position.index == sample_index(sample, size as nat),
        position.index == position.row * size + position.col,
        position.row < size,
        position.col < size,
{
    let count: usize = square_count(size);
    let walked: u64 = sample * 2654435761 + 97;
    proof {
        assert(count > 0) by (nonlinear_arith)
            requires
                count == size * size,
                size > 0,
        ;
    }
    let index: usize = (walked as usize) % count;
    let row: usize = index / size;
    let col: usize = index % size;
    proof {
        vstd::arithmetic::div_mod::lemma_fundamental_div_mod(index as int, size as int);
        assert(size * row == row * size) by (nonlinear_arith);
        assert(row < size) by (nonlinear_arith)
            requires
                index < size * size,
                index == size * row + col,
                col >= 0,
        ;
    }
    Position { index, row, col }
}

/// What was measured on a size: the rate in GFLOPS, the spread of the timings
/// in per cent, how many results were no finite numbers, and the largest
/// relative error of the samples.
#[derive(Debug, Clone, Copy, PartialEq, Eq, Structural)]
pub struct SizeStats {
    pub gflops: Float64,
    pub spread: Float64,
    pub non_finite: usize,
    pub max_rel: Float64,
}

impl SizeStats {
    /// Whether the results of a size are right.
    pub open spec fn valid(self) -> bool {
        self.non_finite == 0 && double(ERROR_LIMIT).above(self.max_rel)
    }
}

/// What was measured on a size: the rate in GFLOPS, the spread of the timings
/// in per cent, all results, and the relative errors of the samples.
#[derive(Debug)]
pub struct SizeMeasurement {
    pub gflops: Float64,
    pub spread: Float64,
    pub outputs: Vec<Float32>,
    pub errors: Vec<Float64>,
}

impl SizeMeasurement {
    /// Whether there is a result for every element and an error for every
    /// sample.
    pub open spec fn complete(self, size: usize) -> bool {
        self.outputs.len() == size * size && self.errors.len() == SAMPLES
    }

    /// What the measurement of a size says: how many results are no finite
    /// numbers, and the largest error. That is infinite where anything is missing.
    pub open spec fn stats_view(self, size: usize) -> SizeStats {
        SizeStats {
            gflops: self.gflops,
            spread: self.spread,
            non_finite: non_finite_count(self.outputs@) as usize,
            max_rel: if self.complete(size) {
                largest_of(self.errors@)
            } else {
                double(INFINITY)
            },
        }
    }

    /// What the measurement of a size says.
    pub fn stats(&self, size: usize) -> (stats: SizeStats)
        requires
            size * size * 4 <= usize::MAX,
        ensures
            stats == self.stats_view(size),
            stats.non_finite == non_finite_count(self.outputs@),
    {
        let max_rel: Float64 = if self.outputs.len() == square_count(size) && self.errors.len()
            as u64 == SAMPLES {
            largest(&self.errors)
        } else {
            Float64 { bits: INFINITY }
        };
        SizeStats {
            gflops: self.gflops,
            spread: self.spread,
            non_finite: count_non_finite(&self.outputs),
            max_rel,
        }
    }
}

/// A measurement is valid exactly where everything is there, every result is a
/// finite number, and no error reaches the limit.
pub proof fn law_valid_sizes_have_right_results(measurement: SizeMeasurement, size: usize)
    ensures
        measurement.stats_view(size).valid() <==> {
            &&& measurement.complete(size)
            &&& forall|i: int|
                0 <= i < measurement.outputs.len() ==> (#[trigger] measurement.outputs[i]).finite()
            &&& forall|i: int|
                0 <= i < measurement.errors.len() ==> !(#[trigger] measurement.errors[i]).reaches(
                    double(ERROR_LIMIT),
                )
        },
{
    law_largest_number_decides(measurement.errors@, double(ERROR_LIMIT));
    law_non_finite_numbers_are_counted(measurement.outputs@);
}

/// The numbers of a size as texts, for the log.
pub struct SizeTexts {
    pub best_ms: String,
    pub gflops: String,
    pub spread: String,
    pub max_rel: String,
}

/// The benchmark on its way.
#[derive(Debug, Clone, Copy, PartialEq, Eq, Structural)]
pub struct MatmulTest {
    pub best_gflops: Float64,
    pub worst_spread: Float64,
    pub any_invalid: bool,
    pub any_failed: bool,
}

/// "n×n"
pub open spec fn square_text(size: usize) -> Seq<char> {
    decimal(size as nat) + "×"@ + decimal(size as nat)
}

fn push_square_text(out: &mut String, size: usize)
    ensures
        final(out)@ == old(out)@ + square_text(size),
{
    push_decimal(out, size as u128);
    out.append("×");
    push_decimal(out, size as u128);
    assert(out@ =~= old(out)@ + square_text(size));
}

/// The message of the stage of a size.
pub fn stage_message(size: usize) -> (message: String)
    ensures
        message@ == "MatMul "@ + square_text(size) + "..."@,
{
    let mut message = "MatMul ".to_string();
    push_square_text(&mut message, size);
    message.append("...");
    message
}

/// The message of the stage of the correctness gate.
pub fn gate_message() -> (message: &'static str)
    ensures
        message@ == "Correctness gate 256×256..."@,
{
    "Correctness gate 256×256..."
}

/// The log line of a size.
pub open spec fn size_line(size: usize, stats: SizeStats, texts: SizeTexts) -> Seq<char> {
    square_text(size) + ": "@ + texts.best_ms@ + " ms → "@ + texts.gflops@ + " GFLOPS | spread "@
        + texts.spread@ + "% "@ + (if stats.valid() {
        "(verify OK, err "@ + texts.max_rel@ + ")"@
    } else {
        "(verify FAIL: "@ + decimal(stats.non_finite as nat) + " NaN/Inf, err "@ + texts.max_rel@
            + ")"@
    })
}

impl MatmulTest {
    /// The benchmark before the first size.
    pub fn new() -> (test: MatmulTest)
        ensures
            test == (MatmulTest {
                best_gflops: double(0),
                worst_spread: double(0),
                any_invalid: false,
                any_failed: false,
            }),
    {
        MatmulTest {
            best_gflops: Float64 { bits: 0 },
            worst_spread: Float64 { bits: 0 },
            any_invalid: false,
            any_failed: false,
        }
    }

    /// The benchmark after a size was measured.
    pub open spec fn after(self, stats: SizeStats) -> MatmulTest {
        MatmulTest {
            best_gflops: if stats.gflops.above(self.best_gflops) {
                stats.gflops
            } else {
                self.best_gflops
            },
            worst_spread: if stats.spread.above(self.worst_spread) {
                stats.spread
            } else {
                self.worst_spread
            },
            any_invalid: self.any_invalid || !stats.valid(),
            any_failed: self.any_failed,
        }
    }

    /// The benchmark after a size could not be run.
    pub open spec fn after_failure(self) -> MatmulTest {
        MatmulTest { any_failed: true, ..self }
    }

    /// Takes note of a size and gives the line for the log.
    pub fn record_size(&mut self, size: usize, stats: SizeStats, texts: &SizeTexts) -> (line:
        String)
        ensures
            *final(self) == old(self).after(stats),
            line@ == size_line(size, stats, *texts),
    {
        let limit: Float64 = Float64 { bits: ERROR_LIMIT };
        let valid: bool = stats.non_finite == 0 && limit.is_above(stats.max_rel);
        if !valid {
            self.any_invalid = true;
        }
        if stats.gflops.is_above(self.best_gflops) {
            self.best_gflops = stats.gflops;
        }
        if stats.spread.is_above(self.worst_spread) {
            self.worst_spread = stats.spread;
        }
        let mut line = String::new();
        push_square_text(&mut line, size);
        line.append(": ");
        line.append(texts.best_ms.as_str());
        line.append(" ms → ");
        line.append(texts.gflops.as_str());
        line.append(" GFLOPS | spread ");
        line.append(texts.spread.as_str());
        line.append("% ");
        let mut verdict = String::new();
        if valid {
            verdict.append("(verify OK, err ");
            verdict.append(texts.max_rel.as_str());
            verdict.append(")");
            assert(verdict@ =~= "(verify OK, err "@ + texts.max_rel@ + ")"@);
        } else {
            verdict.append("(verify FAIL: ");
            push_decimal(&mut verdict, stats.non_finite as u128);
            verdict.append(" NaN/Inf, err ");
            verdict.append(texts.max_rel.as_str());
            verdict.append(")");
            assert(verdict@ =~= "(verify FAIL: "@ + decimal(stats.non_finite as nat)
                + " NaN/Inf, err "@ + texts.max_rel@ + ")"@);
        }
        line.append(verdict.as_str());
        assert(line@ =~= size_line(size, stats, *texts));
        line
    }

    /// Takes note of a size that could not be run and gives the warning.
    pub fn record_failure(&mut self, size: usize, error: &str) -> (warning: String)
        ensures
            *final(self) == old(self).after_failure(),
            *final(self) == (MatmulTest { any_failed: true, ..*old(self) }),
            warning@ == square_text(size) + ": FAILED — "@ + error@,
    {
        self.any_failed = true;
        let mut warning = String::new();
        push_square_text(&mut warning, size);
        warning.append(": FAILED — ");
        warning.append(error);
        assert(warning@ =~= square_text(size) + ": FAILED — "@ + error@);
        warning
    }
}

/// Whether an error closes the correctness gate: one that is not below the
/// limit does, and so does one that is no number.
pub open spec fn gate_closed(max_rel: Float64) -> bool {
    !double(GATE_LIMIT).above(max_rel)
}

/// Whether the relative errors of a product leave the correctness gate open:
/// there is one for every element, and each is a number below the limit.
pub open spec fn gate_open(errors: Seq<Float64>) -> bool {
    &&& errors.len() == GATE_COUNT
    &&& forall|i: int|
        0 <= i < errors.len() ==> double(GATE_LIMIT).above(#[trigger] errors[i])
}

/// The error of a product: the worst of its elements, and infinite where one is
/// missing.
pub open spec fn gate_error_of(errors: Seq<Float64>) -> Float64 {
    if errors.len() == GATE_COUNT {
        worst_of(errors)
    } else {
        double(INFINITY)
    }
}

/// The error of the product of the correctness gate, of the relative errors of
/// all its elements.
pub fn gate_error(errors: &Vec<Float64>) -> (error: Float64)
    ensures
        error == gate_error_of(errors@),
        gate_closed(error) <==> !gate_open(errors@),
        error.reaches(double(GATE_LIMIT)) <==> !gate_open(errors@),
{
    proof {
        law_worst_error_decides(errors@, double(GATE_LIMIT));
    }
    if errors.len() == GATE_COUNT {
        worst(errors)
    } else {
        Float64 { bits: INFINITY }
    }
}

/// The result where the correctness gate could not be run.
pub open spec fn gate_crash_result(error: Seq<char>) -> ResultView {
    ResultView {
        name: "MatMul Throughput"@,
        status: StatusView::Error("Verify crashed: "@ + error),
        score: points(0),
        details: "Không chạy được phép kiểm tra matmul: "@ + error,
        metric_value: "N/A"@,
    }
}

/// The result where the correctness gate could not be run.
pub fn gate_crash(error: &str) -> (result: BenchmarkResult)
    ensures
        result@ == gate_crash_result(error@),
        result@.score.wf(),
        result@.score.den <= 100,
{
    let mut message = "Verify crashed: ".to_string();
    message.append(error);
    let mut details = "Không chạy được phép kiểm tra matmul: ".to_string();
    details.append(error);
    BenchmarkResult {
        name: "MatMul Throughput".to_string(),
        status: TestStatus::Error(message),
        score: Score::points(0),
        details,
        metric_value: "N/A".to_string(),
    }
}

/// The result behind a closed gate.
pub open spec fn gate_result(error_text: Seq<char>) -> ResultView {
    ResultView {
        name: "MatMul Throughput"@,
        status: StatusView::Failed,
        score: points(5),
        details: "Kết quả không khớp chuẩn CPU f64 (sai số "@ + error_text
            + ") — nghi ngờ lỗi phần cứng/driver."@,
        metric_value: "INVALID"@,
    }
}

/// The log line of an open gate.
pub open spec fn gate_line(error_text: Seq<char>) -> Seq<char> {
    "Kiểm tra đúng đắn: PASS (max rel err = "@ + error_text + ")"@
}

/// Holds the largest relative error of the first product against its limit. An open
/// gate gives a line for the log, a closed one the result. `error_text` is the
/// error as text.
pub fn judge_gate(max_rel: Float64, error_text: &str) -> (verdict: Result<String, BenchmarkResult>)
    ensures
        verdict is Err <==> gate_closed(max_rel),
        verdict matches Ok(line) ==> line@ == gate_line(error_text@),
        verdict matches Err(result) ==> {
            &&& result@ == gate_result(error_text@)
            &&& result@.score.wf()
            &&& result@.score.den <= 100
        },
{
    let limit: Float64 = Float64 { bits: GATE_LIMIT };
    if !limit.is_above(max_rel) {
        let mut details = "Kết quả không khớp chuẩn CPU f64 (sai số ".to_string();
        details.append(error_text);
        details.append(") — nghi ngờ lỗi phần cứng/driver.");
        Err(
            BenchmarkResult {
                name: "MatMul Throughput".to_string(),
                status: TestStatus::Failed,
                score: Score::points(5),
                details,
                metric_value: "INVALID".to_string(),
            },
        )
    } else {
        let mut line = "Kiểm tra đúng đắn: PASS (max rel err = ".to_string();
        line.append(error_text);
        line.append(")");
        Ok(line)
    }
}

/// The points for a rate in GFLOPS.
pub open spec fn rate_points(gflops: Float64) -> u64 {
    if gflops.reaches(double(RATE_5000)) {
        100
    } else if gflops.reaches(double(RATE_2000)) {
        90
    } else if gflops.reaches(double(RATE_1000)) {
        80
    } else if gflops.reaches(double(RATE_500)) {
        70
    } else if gflops.reaches(double(RATE_100)) {
        55
    } else if gflops.reaches(double(RATE_10)) {
        35
    } else {
        15
    }
}

/// Whether the timings differ too much.
pub open spec fn unstable(spread: Float64) -> bool {
    spread.above(double(SPREAD_LIMIT))
}

/// The points for a rate and a spread: an unstable rate earns at most 65.
pub open spec fn throughput_points(gflops: Float64, spread: Float64) -> u64 {
    if unstable(spread) && rate_points(gflops) > 65 {
        65
    } else {
        rate_points(gflops)
    }
}

/// The status for points.
pub open spec fn throughput_status(points: u64) -> StatusView {
    if points >= 70 {
        StatusView::Passed
    } else if points >= 40 {
        StatusView::Warning
    } else {
        StatusView::Failed
    }
}

/// The result of the benchmark. The texts are the best rate and the worst
/// spread.
pub open spec fn matmul_result(
    test: MatmulTest,
    gflops_text: Seq<char>,
    spread_text: Seq<char>,
) -> ResultView {
    if test.any_invalid {
        ResultView {
            name: "MatMul Throughput"@,
            status: StatusView::Failed,
            score: points(15),
            details:
                "Kết quả KHÔNG hợp lệ (NaN/Inf hoặc sai số lớn so với chuẩn CPU) — GPU đang tính sai."@,
            metric_value: "INVALID"@,
        }
    } else if test.any_failed && test.best_gflops.reaches(double(0)) && double(0).reaches(
        test.best_gflops,
    ) {
        ResultView {
            name: "MatMul Throughput"@,
            status: StatusView::Error("Tất cả kích thước đều lỗi"@),
            score: points(0),
            details: "Không hoàn thành phép matmul nào (hết VRAM?)"@,
            metric_value: "N/A"@,
        }
    } else {
        let reached = throughput_points(test.best_gflops, test.worst_spread);
        ResultView {
            name: "MatMul Throughput"@,
            status: throughput_status(reached),
            score: points(reached),
            details: "Peak "@ + gflops_text + " GFLOPS (đã verify đúng đắn) | dao động "@
                + spread_text + "%"@ + (if unstable(test.worst_spread) {
                " — hiệu năng bất ổn giữa các lần chạy"@
            } else {
                ""@
            }),
            metric_value: gflops_text + " GFLOPS"@,
        }
    }
}

fn grade_rate(gflops: Float64) -> (reached: u64)
    ensures
        reached == rate_points(gflops),
        reached <= 100,
{
    if gflops.is_at_least(Float64 { bits: RATE_5000 }) {
        100
    } else if gflops.is_at_least(Float64 { bits: RATE_2000 }) {
        90
    } else if gflops.is_at_least(Float64 { bits: RATE_1000 }) {
        80
    } else if gflops.is_at_least(Float64 { bits: RATE_500 }) {
        70
    } else if gflops.is_at_least(Float64 { bits: RATE_100 }) {
        55
    } else if gflops.is_at_least(Float64 { bits: RATE_10 }) {
        35
    } else {
        15
    }
}

impl MatmulTest {
    /// The result of the benchmark. `gflops_text` is the best rate as text,
    /// `spread_text` the worst spread.
    pub fn result(&self, gflops_text: &str, spread_text: &str) -> (result: BenchmarkResult)
        ensures
            result@ == matmul_result(*self, gflops_text@, spread_text@),
            result@.score.wf(),
            result@.score.den <= 100,
    {
        if self.any_invalid {
            return BenchmarkResult {
                name: "MatMul Throughput".to_string(),
                status: TestStatus::Failed,
                score: Score::points(15),
                details: "Kết quả KHÔNG hợp lệ (NaN/Inf hoặc sai số lớn so với chuẩn CPU) — GPU đang tính sai.".to_string(),
                metric_value: "INVALID".to_string(),
            };
        }
        let zero: Float64 = Float64 { bits: 0 };
        if self.any_failed && self.best_gflops.is_at_least(zero) && zero.is_at_least(
            self.best_gflops,
        ) {
            return BenchmarkResult {
                name: "MatMul Throughput".to_string(),
                status: TestStatus::Error("Tất cả kích thước đều lỗi".to_string()),
                score: Score::points(0),
                details: "Không hoàn thành phép matmul nào (hết VRAM?)".to_string(),
                metric_value: "N/A".to_string(),
            };
        }
        let shaky: bool = self.worst_spread.is_above(Float64 { bits: SPREAD_LIMIT });
        let rate: u64 = grade_rate(self.best_gflops);
        let reached: u64 = if shaky && rate > 65 {
            65
        } else {
            rate
        };
        let status: TestStatus = if reached >= 70 {
            TestStatus::Passed
        } else if reached >= 40 {
            TestStatus::Warning
        } else {
            TestStatus::Failed
        };
        let mut details = "Peak ".to_string();
        details.append(gflops_text);
        details.append(" GFLOPS (đã verify đúng đắn) | dao động ");
        details.append(spread_text);
        details.append("%");
        details.append(
            if shaky {
                " — hiệu năng bất ổn giữa các lần chạy"
            } else {
                ""
            },
        );
        let mut metric_value = gflops_text.to_string();
        metric_value.append(" GFLOPS");
        BenchmarkResult {
            name: "MatMul Throughput".to_string(),
            status,
            score: Score::points(reached),
            details,
            metric_value,
        }
    }
}

/// How far the benchmark is.
#[derive(Debug, Clone, Copy, PartialEq, Eq, Structural)]
pub enum Phase {
    /// The product that has to be right comes first.
    Gate,
    /// The size of this number is next.
    Size(usize),
    Done,
}

/// The benchmark from its first product to its result.
#[derive(Debug, Clone, Copy, PartialEq, Eq, Structural)]
pub struct MatmulRun {
    pub phase: Phase,
    pub test: MatmulTest,
}

/// What is to be done next: a message for the progress display, matrices of so
/// many rows from two seeds, and the tasks on them.
pub struct MatmulWork {
    pub message: String,
    pub rows: usize,
    pub seeds: (u64, u64),
    pub tasks: Vec<Task>,
}

/// What running a size brought: what was measured with its texts, or an error.
pub enum SizeOutcome {
    Measured { measurement: SizeMeasurement, texts: SizeTexts },
    Failed { error: String },
}

/// The rows of the matrices of a phase.
pub open spec fn rows_at(phase: Phase) -> usize {
    match phase {
        Phase::Gate => GATE_SIZE,
        Phase::Size(index) => SIZES@[index as int],
        Phase::Done => 0,
    }
}

/// The seeds of the factors of a phase.
pub open spec fn seeds_at(phase: Phase) -> (u64, u64) {
    match phase {
        Phase::Gate => (GATE_SEED_A, GATE_SEED_B),
        _ => seeds_of(rows_at(phase)),
    }
}

/// The steps of a phase.
pub open spec fn steps_at(phase: Phase) -> Seq<StepView> {
    match phase {
        Phase::Gate => single_product(rows_at(phase)),
        Phase::Size(_) => size_program(rows_at(phase)),
        Phase::Done => seq![],
    }
}

impl MatmulRun {
    pub open spec fn wf(self) -> bool {
        self.phase matches Phase::Size(index) ==> index < SIZES@.len()
    }

    /// The phase after a size.
    pub open spec fn next_phase(self) -> Phase {
        match self.phase {
            Phase::Gate => Phase::Size(0),
            Phase::Size(index) => if index + 1 < SIZES@.len() {
                Phase::Size((index + 1) as usize)
            } else {
                Phase::Done
            },
            Phase::Done => Phase::Done,
        }
    }

    /// The phase after the first product, which was right or not.
    pub open spec fn after_gate(right: bool) -> Phase {
        if right {
            Phase::Size(0)
        } else {
            Phase::Done
        }
    }

    /// Before the first product.
    pub fn new() -> (run: MatmulRun)
        ensures
            run.wf(),
            run.phase is Gate,
            run.test == measured(seq![]),
    {
        MatmulRun { phase: Phase::Gate, test: MatmulTest::new() }
    }

    /// What is to be done next, if anything.
    pub fn next(&self) -> (work: Option<MatmulWork>)
        requires
            self.wf(),
        ensures
            work is None <==> self.phase is Done,
            work matches Some(work) ==> {
                &&& work.rows == rows_at(self.phase)
                &&& work.seeds == seeds_at(self.phase)
                &&& tasks_view(work.tasks@) == plain_tasks(steps_at(self.phase))
            },
            work matches Some(work) ==> match self.phase {
                Phase::Gate => {
                    &&& work.message@ == "Correctness gate 256×256..."@
                    &&& work.rows == GATE_SIZE
                    &&& work.seeds == (GATE_SEED_A, GATE_SEED_B)
                    &&& tasks_view(work.tasks@) == plain_tasks(single_product(GATE_SIZE))
                },
                Phase::Size(index) => {
                    let size = SIZES@[index as int];
                    &&& work.message@ == "MatMul "@ + square_text(size) + "..."@
                    &&& work.rows == size
                    &&& work.seeds == seeds_of(size)
                    &&& work.seeds == (
                        0xCAFE_BABEu64 ^ (size as u64),
                        0xFEED_FACEu64 ^ (size as u64),
                    )
                    &&& tasks_view(work.tasks@) == plain_tasks(size_program(size))
                },
                Phase::Done => false,
            },
    {
        match self.phase {
            Phase::Gate => Some(
                MatmulWork {
                    message: gate_message().to_string(),
                    rows: GATE_SIZE,
                    seeds: (GATE_SEED_A, GATE_SEED_B),
                    tasks: run_correctness_gate(),
                },
            ),
            Phase::Size(index) => {
                let size: usize = SIZES[index];
                assert(fits(512) && fits(1024) && fits(2048));
                assert(size == 512 || size == 1024 || size == 2048);
                Some(
                    MatmulWork {
                        message: stage_message(size),
                        rows: size,
                        seeds: size_seeds(size),
                        tasks: run_single_size(size),
                    },
                )
            },
            Phase::Done => None,
        }
    }

    /// Takes note of the first product: the relative errors of all its elements
    /// and the worst of them as text, or why it could not be computed. An open
    /// gate gives a line for the log and leads to the sizes; otherwise the
    /// benchmark has its result.
    pub fn record_gate(&mut self, outcome: Result<(Vec<Float64>, String), String>) -> (verdict: Result<
        String,
        BenchmarkResult,
    >)
        requires
            old(self).phase is Gate,
        ensures
            final(self).wf(),
            final(self).test == old(self).test,
            final(self).phase == MatmulRun::after_gate(
                outcome matches Ok((errors, _)) && gate_open(errors@),
            ),
            final(self).phase == if verdict is Ok {
                Phase::Size(0)
            } else {
                Phase::Done
            },
            match outcome {
                Err(error) => verdict matches Err(result) && result@ == gate_crash_result(error@),
                Ok((errors, text)) => if gate_open(errors@) {
                    verdict matches Ok(line) && line@ == gate_line(text@)
                } else {
                    verdict matches Err(result) && result@ == gate_result(text@)
                },
            },
            verdict matches Err(result) ==> result@.score.wf() && result@.score.den <= 100,
    {
        let verdict: Result<String, BenchmarkResult> = match outcome {
            Err(error) => Err(gate_crash(error.as_str())),
            Ok((errors, text)) => judge_gate(gate_error(&errors), text.as_str()),
        };
        self.phase = match verdict {
            Ok(_) => Phase::Size(0),
            Err(_) => Phase::Done,
        };
        verdict
    }

    /// Takes note of a size and goes on to the next. What is to be shown of it is a
    /// line for the log, or a warning.
    pub fn record(&mut self, outcome: SizeOutcome) -> (note: ProgressCall)
        requires
            old(self).wf(),
            old(self).phase is Size,
        ensures
            final(self).wf(),
            final(self).phase == old(self).next_phase(),
            outcome matches SizeOutcome::Measured { measurement, .. } ==> final(self).test
                == old(self).test.after(measurement.stats_view(rows_at(old(self).phase))),
            match outcome {
                SizeOutcome::Measured { measurement, texts } => {
                    let size = SIZES@[old(self).phase->Size_0 as int];
                    let stats = measurement.stats_view(size);
                    &&& final(self).test == old(self).test.after(stats)
                    &&& note matches ProgressCall::Log { message } && message@ == size_line(
                        size,
                        stats,
                        texts,
                    )
                },
                SizeOutcome::Failed { error } => {
                    &&& final(self).test == old(self).test.after_failure()
                    &&& final(self).test == (MatmulTest { any_failed: true, ..old(self).test })
                    &&& note matches ProgressCall::Warn { message } && message@ == square_text(
                        SIZES@[old(self).phase->Size_0 as int],
                    ) + ": FAILED — "@ + error@
                },
            },
    {
        let index: usize = match self.phase {
            Phase::Size(index) => index,
            _ => 0,
        };
        let size: usize = SIZES[index];
        let note: ProgressCall = match outcome {
            SizeOutcome::Measured { measurement, texts } => {
                assert(size == 512 || size == 1024 || size == 2048);
                assert(512 * 512 * 4 <= usize::MAX && 1024 * 1024 * 4 <= usize::MAX && 2048 * 2048
                    * 4 <= usize::MAX);
                let stats: SizeStats = measurement.stats(size);
                ProgressCall::Log { message: self.test.record_size(size, stats, &texts) }
            },
            SizeOutcome::Failed { error } => ProgressCall::Warn {
                message: self.test.record_failure(size, error.as_str()),
            },
        };
        self.phase = if index + 1 < SIZES.len() {
            Phase::Size(index + 1)
        } else {
            Phase::Done
        };
        note
    }
}

/// The benchmark after sizes were measured one after the other.
pub open spec fn measured(sizes: Seq<SizeStats>) -> MatmulTest
    decreases sizes.len(),
{
    if sizes.len() == 0 {
        MatmulTest {
            best_gflops: double(0),
            worst_spread: double(0),
            any_invalid: false,
            any_failed: false,
        }
    } else {
        measured(sizes.drop_last()).after(sizes.last())
    }
}

proof fn lemma_measured(sizes: Seq<SizeStats>)
    ensures
        !measured(sizes).best_gflops.nan(),
        !measured(sizes).worst_spread.nan(),
        forall|i: int|
            0 <= i < sizes.len() ==> !(#[trigger] sizes[i]).valid() ==> measured(
                sizes,
            ).any_invalid,
        forall|i: int|
            0 <= i < sizes.len() ==> !(#[trigger] sizes[i]).gflops.above(
                measured(sizes).best_gflops,
            ),
    decreases sizes.len(),
{
    if sizes.len() > 0 {
        lemma_measured(sizes.drop_last());
        let before = sizes.drop_last();
        assert forall|i: int| 0 <= i < sizes.len() implies !(#[trigger] sizes[i]).gflops.above(
            measured(sizes).best_gflops,
        ) by {
            if i < sizes.len() - 1 {
                assert(before[i] == sizes[i]);
            }
        }
        assert forall|i: int| 0 <= i < sizes.len() && !(#[trigger] sizes[i]).valid() implies measured(
            sizes,
        ).any_invalid by {
            if i < sizes.len() - 1 {
                assert(before[i] == sizes[i]);
            }
        }
    }
}

/// Correctness is a hard gate: one size with wrong results fails the
/// benchmark, whatever the rates are.
pub proof fn law_wrong_results_fail(
    sizes: Seq<SizeStats>,
    wrong: int,
    gflops_text: Seq<char>,
    spread_text: Seq<char>,
)
    requires
        0 <= wrong < sizes.len(),
        !sizes[wrong].valid(),
    ensures
        matmul_result(measured(sizes), gflops_text, spread_text).status is Failed,
        matmul_result(measured(sizes), gflops_text, spread_text).score == points(15),
{
    lemma_measured(sizes);
}

/// The best rate is one that no size exceeds.
pub proof fn law_best_rate_is_the_best(sizes: Seq<SizeStats>, i: int)
    requires
        0 <= i < sizes.len(),
    ensures
        !sizes[i].gflops.above(measured(sizes).best_gflops),
        !measured(sizes).best_gflops.nan(),
{
    lemma_measured(sizes);
}

/// A higher rate never earns fewer points at the same spread, and an unstable
/// device does not pass.
pub proof fn law_faster_scores_no_less(slow: Float64, fast: Float64, spread: Float64)
    requires
        fast.reaches(slow),
    ensures
        throughput_points(slow, spread) <= throughput_points(fast, spread),
        unstable(spread) ==> !(throughput_status(throughput_points(fast, spread)) is Passed),
{
}

} // verus!
