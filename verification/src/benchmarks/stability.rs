//! Stability under load.
//!
//! The same matrix product runs over and over for thirty seconds. Every
//! result is compared with the first one, element by element. The first and
//! the last quarter of the timings show whether the device slows down.
use vstd::prelude::*;

#[allow(unused_imports)]
use super::square::{fits, square_download, square_product, square_release, square_setup};
use super::square::{
    push_square_download, push_square_product, push_square_release, push_square_setup,
};
use super::{BenchmarkResult, TestStatus};
#[allow(unused_imports)]
use super::{points, ResultView, StatusView};
#[allow(unused_imports)]
use crate::float_bits::double;
use crate::float_bits::{Float32, Float64};
#[allow(unused_imports)]
use crate::program::{plain_tasks, tasks_view, StepView};
use crate::program::Task;
use crate::score::Score;
#[allow(unused_imports)]
use crate::text::decimal;
use crate::text::push_decimal;

verus! {

/// The rows of the matrices.
pub const SIZE: usize = 1024;

/// How many elements a matrix has.
pub const ELEMENTS: usize = 1_048_576;

/// How long the load lasts.
pub const DURATION_SECS: u64 = 30;

/// The seeds of the factors.
pub const SEED_A: u64 = 0xA5A5_5A5A;

pub const SEED_B: u64 = 0x5A5A_A5A5;

/// How many nanoseconds a second has.
pub const NANOS_PER_SEC: u128 = 1_000_000_000;

/// The bit patterns of 15 and 30: larger losses, in per cent, cost points.
pub const DROP_15: u64 = 0x402E_0000_0000_0000;

pub const DROP_30: u64 = 0x403E_0000_0000_0000;

/// The steps that make the reference.
pub open spec fn reference_program() -> Seq<StepView> {
    square_setup(SIZE) + seq![square_product(SIZE), square_download(SIZE)]
}

/// The tasks that make the reference.
pub fn reference_tasks() -> (tasks: Vec<Task>)
    ensures
        tasks_view(tasks@) == plain_tasks(reference_program()),
{
    let mut tasks: Vec<Task> = Vec::new();
    assert(fits(SIZE));
    push_square_setup(&mut tasks, SIZE);
    push_square_product(&mut tasks, SIZE);
    push_square_download(&mut tasks, SIZE);
    assert(tasks_view(tasks@) =~= plain_tasks(reference_program()));
    tasks
}

/// The steps of an iteration.
pub open spec fn iteration_program() -> Seq<StepView> {
    seq![square_product(SIZE), square_download(SIZE)]
}

/// The tasks of an iteration.
pub fn iteration_tasks() -> (tasks: Vec<Task>)
    ensures
        tasks_view(tasks@) == plain_tasks(iteration_program()),
{
    let mut tasks: Vec<Task> = Vec::new();
    assert(fits(SIZE));
    push_square_product(&mut tasks, SIZE);
    push_square_download(&mut tasks, SIZE);
    assert(tasks_view(tasks@) =~= plain_tasks(iteration_program()));
    tasks
}

/// The tasks after the last iteration.
pub fn release_tasks() -> (tasks: Vec<Task>)
    ensures
        tasks_view(tasks@) == plain_tasks(square_release()),
{
    let mut tasks: Vec<Task> = Vec::new();
    push_square_release(&mut tasks);
    assert(tasks_view(tasks@) =~= plain_tasks(square_release()));
    tasks
}

/// Whether an element is bad: it is neither equal to the reference, which may be
/// infinite, nor off by a number within the tolerance.
pub open spec fn is_bad(
    reference: Float32,
    output: Float32,
    diff: Float64,
    tolerance: Float64,
) -> bool {
    !output.equals(reference) && !tolerance.reaches(diff)
}

/// How many of the first `n` elements are bad.
pub open spec fn bad_count(
    reference: Seq<Float32>,
    outputs: Seq<Float32>,
    diffs: Seq<Float64>,
    tolerances: Seq<Float64>,
    n: nat,
) -> nat
    decreases n,
{
    if n == 0 {
        0
    } else {
        let last = n - 1;
        bad_count(reference, outputs, diffs, tolerances, last as nat) + if is_bad(
            reference[last],
            outputs[last],
            diffs[last],
            tolerances[last],
        ) {
            1nat
        } else {
            0nat
        }
    }
}

/// The count is zero exactly where no element is bad. One that is no number, and
/// so is its difference, is always found.
pub proof fn law_every_output_is_compared(
    reference: Seq<Float32>,
    outputs: Seq<Float32>,
    diffs: Seq<Float64>,
    tolerances: Seq<Float64>,
    n: nat,
)
    ensures
        bad_count(reference, outputs, diffs, tolerances, n) <= n,
        bad_count(reference, outputs, diffs, tolerances, n) == 0 <==> forall|i: int|
            0 <= i < n ==> !is_bad(reference[i], #[trigger] outputs[i], diffs[i], tolerances[i]),
        forall|i: int|
            0 <= i < n && (#[trigger] outputs[i]).nan() && diffs[i].nan() ==> bad_count(
                reference,
                outputs,
                diffs,
                tolerances,
                n,
            ) > 0,
    decreases n,
{
    if n > 0 {
        law_every_output_is_compared(reference, outputs, diffs, tolerances, (n - 1) as nat);
        assert(outputs[n - 1] == outputs[n - 1]);
    }
}

/// How many pairs two sequences form.
pub open spec fn pair_count(first: nat, second: nat) -> nat {
    if first <= second {
        first
    } else {
        second
    }
}

/// How many elements there are to compare.
pub open spec fn compared_count(
    reference: Seq<Float32>,
    outputs: Seq<Float32>,
    diffs: Seq<Float64>,
    tolerances: Seq<Float64>,
) -> nat {
    pair_count(
        pair_count(reference.len(), outputs.len()),
        pair_count(diffs.len(), tolerances.len()),
    )
}

fn shorter(first: usize, second: usize) -> (length: usize)
    ensures
        length == pair_count(first as nat, second as nat),
{
    if first <= second {
        first
    } else {
        second
    }
}

/// Counts the bad elements.
pub fn count_bad(
    reference: &Vec<Float32>,
    outputs: &Vec<Float32>,
    diffs: &Vec<Float64>,
    tolerances: &Vec<Float64>,
) -> (bad: u64)
    ensures
        bad == bad_count(
            reference@,
            outputs@,
            diffs@,
            tolerances@,
            compared_count(reference@, outputs@, diffs@, tolerances@),
        ),
        bad <= compared_count(reference@, outputs@, diffs@, tolerances@),
{
    let pairs: usize = shorter(
        shorter(reference.len(), outputs.len()),
        shorter(diffs.len(), tolerances.len()),
    );
    let mut bad: u64 = 0;
    let mut i: usize = 0;
    while i < pairs
        invariant
            i <= pairs,
            pairs <= reference.len(),
            pairs <= outputs.len(),
            pairs <= diffs.len(),
            pairs <= tolerances.len(),
            bad <= i,
            bad == bad_count(reference@, outputs@, diffs@, tolerances@, i as nat),
        decreases pairs - i,
    {
        if !outputs[i].same_value(reference[i]) && !tolerances[i].is_at_least(diffs[i]) {
            bad = bad + 1;
        }
        i = i + 1;
    }
    bad
}

/// "so many iterations, so many faults"
pub open spec fn progress_text(iterations: u64, bad_elements: u64) -> Seq<char> {
    decimal(iterations as nat) + " vòng | "@ + decimal(bad_elements as nat) + " lỗi"@
}

/// How many seconds of the load are over after so many nanoseconds; no more than
/// all of them.
pub open spec fn seconds_over(elapsed_nanos: u128) -> u64 {
    if elapsed_nanos / NANOS_PER_SEC < DURATION_SECS {
        (elapsed_nanos / NANOS_PER_SEC) as u64
    } else {
        DURATION_SECS
    }
}

/// Whether the display changes so many nanoseconds after it last did.
pub open spec fn ticks(since_last_nanos: u128) -> bool {
    since_last_nanos >= NANOS_PER_SEC
}

/// Whether the load is still on after so many nanoseconds.
pub open spec fn in_time(elapsed_nanos: u128) -> bool {
    elapsed_nanos < DURATION_SECS * NANOS_PER_SEC
}

/// What the progress display shows after a second.
pub struct Tick {
    pub position: u64,
    pub message: String,
}

/// The load on its way.
#[derive(Debug, Clone, Copy, PartialEq, Eq, Structural)]
pub struct StressTest {
    pub iterations: u64,
    pub bad_elements: u64,
}

impl StressTest {
    /// Before the first iteration.
    pub fn new() -> (test: StressTest)
        ensures
            test == (StressTest { iterations: 0, bad_elements: 0 }),
    {
        StressTest { iterations: 0, bad_elements: 0 }
    }

    /// The message of the progress display before the first iteration.
    pub fn first_message() -> (message: &'static str)
        ensures
            message@ == "0 vòng | 0 lỗi"@,
    {
        "0 vòng | 0 lỗi"
    }

    /// Whether another iteration begins after so many nanoseconds.
    pub fn goes_on(elapsed_nanos: u128) -> (goes_on: bool)
        ensures
            goes_on == in_time(elapsed_nanos),
            goes_on == (elapsed_nanos < DURATION_SECS * NANOS_PER_SEC),
    {
        elapsed_nanos < DURATION_SECS as u128 * NANOS_PER_SEC
    }

    /// The tasks of the next iteration. There is none once the time is over or
    /// the device has failed.
    pub fn next_iteration(&self, elapsed_nanos: u128, failed: bool) -> (tasks: Option<Vec<Task>>)
        ensures
            tasks is Some <==> !failed && in_time(elapsed_nanos),
            tasks is Some <==> !failed && elapsed_nanos < DURATION_SECS * NANOS_PER_SEC,
            tasks matches Some(tasks) ==> tasks_view(tasks@) == plain_tasks(iteration_program()),
    {
        if !failed && StressTest::goes_on(elapsed_nanos) {
            Some(iteration_tasks())
        } else {
            None
        }
    }

    /// The load after an iteration with so many bad elements.
    pub open spec fn after(self, bad: nat) -> StressTest {
        StressTest {
            iterations: (self.iterations + 1) as u64,
            bad_elements: (self.bad_elements + bad) as u64,
        }
    }

    /// Takes note of an iteration with so many bad elements.
    pub fn record_iteration(&mut self, bad: u64)
        requires
            old(self).iterations < u64::MAX,
            old(self).bad_elements + bad <= u64::MAX,
        ensures
            *final(self) == old(self).after(bad as nat),
            final(self).iterations == old(self).iterations + 1,
            final(self).bad_elements == old(self).bad_elements + bad,
    {
        self.bad_elements = self.bad_elements + bad;
        self.iterations = self.iterations + 1;
    }

    /// Takes note of an iteration: of every element with its reference, the
    /// difference between the two, and the tolerance.
    pub fn record_outputs(
        &mut self,
        reference: &Vec<Float32>,
        outputs: &Vec<Float32>,
        diffs: &Vec<Float64>,
        tolerances: &Vec<Float64>,
    )
        requires
            old(self).iterations < u64::MAX,
            old(self).bad_elements + ELEMENTS <= u64::MAX,
            reference.len() == ELEMENTS,
            outputs.len() == ELEMENTS,
            diffs.len() == ELEMENTS,
            tolerances.len() == ELEMENTS,
        ensures
            *final(self) == old(self).after(
                bad_count(reference@, outputs@, diffs@, tolerances@, ELEMENTS as nat),
            ),
            final(self).iterations == old(self).iterations + 1,
            final(self).bad_elements == old(self).bad_elements + bad_count(
                reference@,
                outputs@,
                diffs@,
                tolerances@,
                ELEMENTS as nat,
            ),
    {
        self.record_iteration(count_bad(reference, outputs, diffs, tolerances));
    }

    /// What the progress display shows, once a second has passed since it last
    /// changed.
    pub fn tick(&self, since_last_nanos: u128, elapsed_nanos: u128) -> (tick: Option<Tick>)
        ensures
            tick is Some <==> ticks(since_last_nanos),
            tick is Some <==> since_last_nanos >= NANOS_PER_SEC,
            tick matches Some(tick) ==> {
                &&& tick.position == seconds_over(elapsed_nanos)
                &&& tick.position == if elapsed_nanos / NANOS_PER_SEC < DURATION_SECS {
                    elapsed_nanos / NANOS_PER_SEC
                } else {
                    DURATION_SECS as u128
                }
                &&& tick.message@ == progress_text(self.iterations, self.bad_elements)
            },
    {
        if since_last_nanos < NANOS_PER_SEC {
            return None;
        }
        let seconds: u128 = elapsed_nanos / NANOS_PER_SEC;
        let position: u64 = if seconds < DURATION_SECS as u128 {
            seconds as u64
        } else {
            DURATION_SECS
        };
        let mut message = String::new();
        push_decimal(&mut message, self.iterations as u128);
        message.append(" vòng | ");
        push_decimal(&mut message, self.bad_elements as u128);
        message.append(" lỗi");
        assert(message@ =~= progress_text(self.iterations, self.bad_elements));
        Some(Tick { position, message })
    }

    /// Whether a device error ends the test without a result.
    pub open spec fn crashes(self, failed: bool) -> bool {
        failed && self.iterations == 0
    }

    /// Whether a device error ends the test without a result: only one before
    /// the first iteration was through does.
    pub fn is_crash(&self, failed: bool) -> (crash: bool)
        ensures
            crash == self.crashes(failed),
            crash == (failed && self.iterations == 0),
    {
        failed && self.iterations == 0
    }
}

/// How many timings the first and the last quarter have; at least one.
pub open spec fn quarter_length(timings: nat) -> nat {
    if timings / 4 > 0 {
        timings / 4
    } else {
        1
    }
}

/// How many timings the first and the last quarter have.
pub fn quarter(timings: usize) -> (length: usize)
    ensures
        length == quarter_length(timings as nat),
        timings > 0 ==> length <= timings,
{
    if timings / 4 > 0 {
        timings / 4
    } else {
        1
    }
}

/// How many elements were compared; counted up to the largest number, and at
/// least one.
pub open spec fn element_total(iterations: u64) -> nat {
    let all = iterations as nat * 1_048_576;
    if all > u64::MAX {
        u64::MAX as nat
    } else if all == 0 {
        1
    } else {
        all
    }
}

/// How many elements were compared.
pub fn total_elements(iterations: u64) -> (total: u64)
    ensures
        total == element_total(iterations),
{
    let all: u128 = iterations as u128 * 1_048_576;
    if all > u64::MAX as u128 {
        u64::MAX
    } else if all == 0 {
        1
    } else {
        all as u64
    }
}

/// The points for the share of bad elements.
pub open spec fn fault_points(bad: nat, total: nat) -> u64 {
    if bad == 0 {
        100
    } else if bad * 1_000_000 < total {
        90
    } else if bad * 10_000 < total {
        70
    } else if bad * 100 < total {
        40
    } else {
        10
    }
}

/// Whether the device slowed down.
pub open spec fn throttled(drop_pct: Float64) -> bool {
    drop_pct.above(double(DROP_15))
}

/// The score: a slower end costs fifteen per cent of the points, a much slower
/// one forty.
pub open spec fn stress_score(bad: nat, total: nat, drop_pct: Float64) -> Score {
    let reached = fault_points(bad, total);
    if drop_pct.above(double(DROP_30)) {
        Score { num: (reached * 6) as u64, den: 10 }
    } else if drop_pct.above(double(DROP_15)) {
        Score { num: (reached * 85) as u64, den: 100 }
    } else {
        points(reached)
    }
}

/// The status for a score.
pub open spec fn stress_status(score: Score, drop_pct: Float64) -> StatusView {
    if score.reaches(80) && !throttled(drop_pct) {
        StatusView::Passed
    } else if score.reaches(50) {
        StatusView::Warning
    } else {
        StatusView::Failed
    }
}

/// The result of a test in which the device did not even do one iteration.
pub open spec fn crash_result(error: Seq<char>) -> ResultView {
    ResultView {
        name: "Stability (30s)"@,
        status: StatusView::Error(error),
        score: points(0),
        details: "GPU gặp sự cố trong stress test: "@ + error,
        metric_value: "CRASH"@,
    }
}

/// The result of a test in which the device did not even do one iteration.
pub fn report_crash(error: &str) -> (result: BenchmarkResult)
    ensures
        result@ == crash_result(error@),
        result@.score.wf(),
        result@.score.den <= 100,
{
    let mut details = "GPU gặp sự cố trong stress test: ".to_string();
    details.append(error);
    BenchmarkResult {
        name: "Stability (30s)".to_string(),
        status: TestStatus::Error(error.to_string()),
        score: Score::points(0),
        details,
        metric_value: "CRASH".to_string(),
    }
}

/// The result of the test. The texts are the share of bad elements, the
/// performance that was kept in per cent, and the share in per cent.
pub open spec fn stability_result(
    test: StressTest,
    drop_pct: Float64,
    rate_text: Seq<char>,
    kept_text: Seq<char>,
    percent_text: Seq<char>,
) -> ResultView {
    if test.iterations == 0 {
        ResultView {
            name: "Stability (30s)"@,
            status: StatusView::Error("No iterations"@),
            score: points(0),
            details: "Không chạy được vòng lặp nào trong 30s"@,
            metric_value: "N/A"@,
        }
    } else {
        let score = stress_score(
            test.bad_elements as nat,
            element_total(test.iterations),
            drop_pct,
        );
        ResultView {
            name: "Stability (30s)"@,
            status: stress_status(score, drop_pct),
            score,
            details: decimal(test.iterations as nat) + " vòng | "@ + decimal(
                test.bad_elements as nat,
            ) + " phần tử sai ("@ + rate_text + ") | hiệu năng giữ "@ + kept_text + "%"@ + (
            if throttled(drop_pct) {
                " — nghi ngờ thermal throttling"@
            } else {
                ""@
            }),
            metric_value: percent_text + "%"@,
        }
    }
}

fn grade_faults(bad: u64, total: u64) -> (reached: u64)
    ensures
        reached == fault_points(bad as nat, total as nat),
        10 <= reached <= 100,
{
    let faults: u128 = bad as u128;
    let all: u128 = total as u128;
    if bad == 0 {
        100
    } else if faults * 1_000_000 < all {
        90
    } else if faults * 10_000 < all {
        70
    } else if faults * 100 < all {
        40
    } else {
        10
    }
}

impl StressTest {
    /// The result of the test. `drop_pct` is the performance that was lost, in
    /// per cent; the texts are the share of bad elements, the performance that
    /// was kept in per cent, and the share in per cent.
    pub fn result(
        &self,
        drop_pct: Float64,
        rate_text: &str,
        kept_text: &str,
        percent_text: &str,
    ) -> (result: BenchmarkResult)
        ensures
            result@ == stability_result(*self, drop_pct, rate_text@, kept_text@, percent_text@),
            result@.score.wf(),
            result@.score.den <= 100,
            self.iterations > 0 ==> result@.score.reaches(5),
    {
        if self.iterations == 0 {
            return BenchmarkResult {
                name: "Stability (30s)".to_string(),
                status: TestStatus::Error("No iterations".to_string()),
                score: Score::points(0),
                details: "Không chạy được vòng lặp nào trong 30s".to_string(),
                metric_value: "N/A".to_string(),
            };
        }
        let reached: u64 = grade_faults(self.bad_elements, total_elements(self.iterations));
        let slower: bool = drop_pct.is_above(Float64 { bits: DROP_15 });
        let score: Score = if drop_pct.is_above(Float64 { bits: DROP_30 }) {
            Score { num: reached * 6, den: 10 }
        } else if slower {
            Score { num: reached * 85, den: 100 }
        } else {
            Score::points(reached)
        };
        let status: TestStatus = if score.is_at_least(80) && !slower {
            TestStatus::Passed
        } else if score.is_at_least(50) {
            TestStatus::Warning
        } else {
            TestStatus::Failed
        };
        let mut details = String::new();
        push_decimal(&mut details, self.iterations as u128);
        details.append(" vòng | ");
        push_decimal(&mut details, self.bad_elements as u128);
        details.append(" phần tử sai (");
        details.append(rate_text);
        details.append(") | hiệu năng giữ ");
        details.append(kept_text);
        details.append("%");
        details.append(
            if slower {
                " — nghi ngờ thermal throttling"
            } else {
                ""
            },
        );
        let mut metric_value = percent_text.to_string();
        metric_value.append("%");
        let result = BenchmarkResult {
            name: "Stability (30s)".to_string(),
            status,
            score,
            details,
            metric_value,
        };
        assert(result@.details =~= stability_result(
            *self,
            drop_pct,
            rate_text@,
            kept_text@,
            percent_text@,
        ).details);
        result
    }
}

/// More bad elements never earn more points, and a device that slowed down
/// does not pass.
pub proof fn law_faults_and_throttling_cost_points(
    fewer: nat,
    more: nat,
    total: nat,
    drop_pct: Float64,
)
    requires
        fewer <= more,
    ensures
        stress_score(more, total, drop_pct).den == stress_score(fewer, total, drop_pct).den,
        stress_score(more, total, drop_pct).num <= stress_score(fewer, total, drop_pct).num,
        throttled(drop_pct) ==> !(stress_status(
            stress_score(fewer, total, drop_pct),
            drop_pct,
        ) is Passed),
{
}

/// A device that never errs and never slows down earns all points and passes.
pub proof fn law_steady_devices_pass(
    test: StressTest,
    drop_pct: Float64,
    rate_text: Seq<char>,
    kept_text: Seq<char>,
    percent_text: Seq<char>,
)
    requires
        test.iterations > 0,
        test.bad_elements == 0,
        !throttled(drop_pct),
    ensures
        stability_result(test, drop_pct, rate_text, kept_text, percent_text).score == points(100),
        stability_result(test, drop_pct, rate_text, kept_text, percent_text).status is Passed,
{
}

} // verus!
