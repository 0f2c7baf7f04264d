//! The health report: the overall score, its rating, and the lines that
//! present them.
use vstd::prelude::*;

use crate::benchmarks::{BenchmarkResult, TestStatus};
#[allow(unused_imports)]
use crate::benchmarks::StatusView;
#[allow(unused_imports)]
use crate::score::{out_of_hundred, Score};
use crate::score::score_text;
use crate::text::pad_right;
#[allow(unused_imports)]
use crate::text::padded_right;

verus! {

/// The colours of the report.
#[derive(Debug, Clone, Copy, PartialEq, Eq, Structural)]
pub enum Colour {
    BrightGreen,
    Green,
    Yellow,
    Red,
    BrightRed,
}

/// How healthy a GPU is.
#[derive(Debug, Clone, Copy, PartialEq, Eq, Structural)]
pub enum HealthRating {
    Excellent,
    Good,
    Fair,
    Poor,
}

impl HealthRating {
    /// The rating in words.
    pub open spec fn label_view(self) -> Seq<char> {
        match self {
            HealthRating::Excellent => "★★★★★ EXCELLENT"@,
            HealthRating::Good => "★★★★☆ GOOD"@,
            HealthRating::Fair => "★★★☆☆ FAIR"@,
            HealthRating::Poor => "★★☆☆☆ POOR"@,
        }
    }

    /// The rating's colour.
    pub open spec fn label_colour(self) -> Colour {
        match self {
            HealthRating::Excellent => Colour::BrightGreen,
            HealthRating::Good => Colour::Green,
            HealthRating::Fair => Colour::Yellow,
            HealthRating::Poor => Colour::Red,
        }
    }

    /// What the rating means.
    pub open spec fn description_view(self) -> Seq<char> {
        match self {
            HealthRating::Excellent =>
                "GPU hoạt động xuất sắc! Sẵn sàng cho mọi tác vụ ML/AI và lập trình GPU."@,
            HealthRating::Good =>
                "GPU hoạt động ổn định. Phù hợp cho phần lớn tác vụ lập trình và training."@,
            HealthRating::Fair =>
                "GPU có dấu hiệu giảm hiệu năng. Vẫn dùng được nhưng cần theo dõi."@,
            HealthRating::Poor =>
                "GPU có vấn đề nghiêm trọng! Không nên dùng cho tác vụ nặng hoặc production."@,
        }
    }

    /// The rating in words, and its colour.
    pub fn label(&self) -> (label: (&'static str, Colour))
        ensures
            label.0@ == self.label_view(),
            label.1 == self.label_colour(),
    {
        match self {
            HealthRating::Excellent => ("★★★★★ EXCELLENT", Colour::BrightGreen),
            HealthRating::Good => ("★★★★☆ GOOD", Colour::Green),
            HealthRating::Fair => ("★★★☆☆ FAIR", Colour::Yellow),
            HealthRating::Poor => ("★★☆☆☆ POOR", Colour::Red),
        }
    }

    /// What the rating means.
    pub fn description(&self) -> (description: &'static str)
        ensures
            description@ == self.description_view(),
    {
        match self {
            HealthRating::Excellent => {
                "GPU hoạt động xuất sắc! Sẵn sàng cho mọi tác vụ ML/AI và lập trình GPU."
            },
            HealthRating::Good => {
                "GPU hoạt động ổn định. Phù hợp cho phần lớn tác vụ lập trình và training."
            },
            HealthRating::Fair => {
                "GPU có dấu hiệu giảm hiệu năng. Vẫn dùng được nhưng cần theo dõi."
            },
            HealthRating::Poor => {
                "GPU có vấn đề nghiêm trọng! Không nên dùng cho tác vụ nặng hoặc production."
            },
        }
    }
}

/// The mean of some scores, as an exact fraction.
#[derive(Debug, Clone, Copy, PartialEq, Eq, Structural)]
pub struct Mean {
    pub num: u128,
    pub den: u128,
}

impl Mean {
    /// From 0 to 100 points, small enough to compare.
    pub open spec fn wf(self) -> bool {
        self.den > 0 && 100 * self.den <= u128::MAX && self.num <= 100 * self.den
    }

    /// Whether the mean is at least so many points.
    pub open spec fn reaches(self, points: nat) -> bool {
        self.num >= points * self.den
    }

    /// Whether the mean is at least so many points.
    pub fn is_at_least(&self, points: u8) -> (reaches: bool)
        requires
            self.wf(),
            points <= 100,
        ensures
            reaches == self.reaches(points as nat),
    {
        assert(points * self.den <= 100 * self.den) by (nonlinear_arith)
            requires
                points <= 100,
                self.den >= 0,
        ;
        self.num >= points as u128 * self.den
    }
}

/// The denominator of the sum of scores.
pub open spec fn sum_den(scores: Seq<Score>) -> nat
    decreases scores.len(),
{
    if scores.len() == 0 {
        1
    } else {
        sum_den(scores.drop_last()) * scores.last().den as nat
    }
}

/// The numerator of the sum of scores.
pub open spec fn sum_num(scores: Seq<Score>) -> nat
    decreases scores.len(),
{
    if scores.len() == 0 {
        0
    } else {
        sum_num(scores.drop_last()) * scores.last().den as nat + scores.last().num as nat
            * sum_den(scores.drop_last())
    }
}

/// The scores of results.
pub open spec fn scores_of(results: Seq<BenchmarkResult>) -> Seq<Score> {
    results.map_values(|result: BenchmarkResult| result.score)
}

/// Whether all scores lie between 0 and 100 points and their mean can be
/// computed exactly.
pub open spec fn countable(scores: Seq<Score>) -> bool {
    &&& forall|i: int| 0 <= i < scores.len() ==> (#[trigger] scores[i]).wf()
    &&& sum_den(scores) * (100 * scores.len()) <= u128::MAX
}

/// The mean of scores; zero where there is none.
pub open spec fn is_mean(mean: Mean, scores: Seq<Score>) -> bool {
    if scores.len() == 0 {
        mean == (Mean { num: 0, den: 1 })
    } else {
        mean.num == sum_num(scores) && mean.den == sum_den(scores) * scores.len()
    }
}

proof fn lemma_sums(scores: Seq<Score>)
    requires
        forall|i: int| 0 <= i < scores.len() ==> (#[trigger] scores[i]).wf(),
    ensures
        sum_den(scores) >= 1,
        sum_num(scores) <= sum_den(scores) * (100 * scores.len()),
    decreases scores.len(),
{
    if scores.len() > 0 {
        let fewer = scores.drop_last();
        let last = scores.last();
        assert(scores[scores.len() - 1] == last);
        assert forall|i: int| 0 <= i < fewer.len() implies (#[trigger] fewer[i]).wf() by {
            assert(fewer[i] == scores[i]);
        }
        lemma_sums(fewer);
        let n = sum_num(fewer) as int;
        let d = sum_den(fewer) as int;
        let k = fewer.len() as int;
        let b = last.den as int;
        let a = last.num as int;
        assert(d * b >= 1) by (nonlinear_arith)
            requires
                d >= 1,
                b >= 1,
        ;
        assert(n * b + a * d <= (d * b) * (100 * (k + 1))) by (nonlinear_arith)
            requires
                0 <= n <= d * (100 * k),
                0 <= a <= 100 * b,
                d >= 1,
                b >= 1,
                k >= 0,
        ;
    }
}

proof fn lemma_den_grows(scores: Seq<Score>, n: int)
    requires
        0 <= n <= scores.len(),
        forall|i: int| 0 <= i < scores.len() ==> (#[trigger] scores[i]).den > 0,
    ensures
        sum_den(scores.take(n)) <= sum_den(scores),
        sum_den(scores) >= 1,
    decreases scores.len(),
{
    if scores.len() > 0 {
        let fewer = scores.drop_last();
        assert forall|i: int| 0 <= i < fewer.len() implies (#[trigger] fewer[i]).den > 0 by {
            assert(fewer[i] == scores[i]);
        }
        assert(scores[scores.len() - 1] == scores.last());
        let d = sum_den(fewer) as int;
        let b = scores.last().den as int;
        if n < scores.len() {
            lemma_den_grows(fewer, n);
            assert(fewer.take(n) =~= scores.take(n));
        } else {
            lemma_den_grows(fewer, fewer.len() as int);
            assert(scores.take(n) =~= scores);
        }
        assert(d <= d * b && d * b >= 1) by (nonlinear_arith)
            requires
                d >= 1,
                b >= 1,
        ;
    } else {
        assert(scores.take(n) =~= scores);
    }
}

/// The denominator of a sum grows by no more than the last denominator.
proof fn lemma_one_more_den(scores: Seq<Score>, n: int, before: nat, bound: nat)
    requires
        0 <= n < scores.len(),
        sum_den(scores.take(n)) <= before,
        scores[n].den <= bound,
    ensures
        sum_den(scores.take(n + 1)) <= before * bound,
{
    let more = scores.take(n + 1);
    assert(more.drop_last() =~= scores.take(n));
    assert(more.last() == scores[n]);
    vstd::arithmetic::mul::lemma_mul_upper_bound(
        sum_den(scores.take(n)) as int,
        before as int,
        scores[n].den as int,
        bound as int,
    );
}

/// Five results can be averaged where all but one of their scores have
/// denominators of at most 100. Those of the five benchmarks do: only the score
/// of the VRAM benchmark, which counts faults, can have a larger one.
pub proof fn law_five_results_can_be_averaged(scores: Seq<Score>, large: int)
    requires
        scores.len() == 5,
        forall|i: int| 0 <= i < 5 ==> (#[trigger] scores[i]).wf(),
        forall|i: int| 0 <= i < 5 && i != large ==> (#[trigger] scores[i]).den <= 100,
    ensures
        countable(scores),
{
    let most = 0xFFFF_FFFF_FFFF_FFFFnat;
    let b0 = if large == 0 {
        most
    } else {
        100
    };
    let b1 = if large == 1 {
        most
    } else {
        100
    };
    let b2 = if large == 2 {
        most
    } else {
        100
    };
    let b3 = if large == 3 {
        most
    } else {
        100
    };
    let b4 = if large == 4 {
        most
    } else {
        100
    };
    assert(scores.take(0) =~= seq![]);
    lemma_one_more_den(scores, 0, 1, b0);
    lemma_one_more_den(scores, 1, 1 * b0, b1);
    lemma_one_more_den(scores, 2, 1 * b0 * b1, b2);
    lemma_one_more_den(scores, 3, 1 * b0 * b1 * b2, b3);
    lemma_one_more_den(scores, 4, 1 * b0 * b1 * b2 * b3, b4);
    assert(scores.take(5) =~= scores);
    assert(1 * b0 * b1 * b2 * b3 * b4 <= 100 * 100 * 100 * 100 * most);
    let den = sum_den(scores);
    let all = 100 * scores.len();
    assert(den * all == den * 500) by (nonlinear_arith)
        requires
            all == 500,
    ;
}

/// Whether the mean of the results' scores can be computed exactly.
pub fn can_be_averaged(results: &Vec<BenchmarkResult>) -> (fits: bool)
    ensures
        fits == countable(scores_of(results@)),
{
    let ghost scores = scores_of(results@);
    let mut den: u128 = 1;
    let mut i: usize = 0;
    assert(scores.take(0) =~= seq![]);
    while i < results.len()
        invariant
            i <= results.len(),
            scores == scores_of(results@),
            forall|j: int| 0 <= j < i ==> (#[trigger] scores[j]).wf(),
            den == sum_den(scores.take(i as int)),
        decreases results.len() - i,
    {
        let score: Score = results[i].score;
        assert(scores[i as int] == score);
        if score.den == 0 || score.num as u128 > 100 * score.den as u128 {
            assert(!scores[i as int].wf());
            return false;
        }
        let ghost so_far = scores.take(i + 1);
        assert(so_far.drop_last() =~= scores.take(i as int));
        assert(so_far.last() == score);
        match den.checked_mul(score.den as u128) {
            Some(product) => {
                den = product;
            },
            None => {
                proof {
                    if countable(scores) {
                        lemma_den_grows(scores, i + 1);
                        let d = sum_den(scores) as int;
                        let k = scores.len() as int;
                        assert(d <= d * (100 * k)) by (nonlinear_arith)
                            requires
                                d >= 1,
                                k >= 1,
                        ;
                    }
                }
                return false;
            },
        }
        i = i + 1;
    }
    assert(scores.take(i as int) =~= scores);
    let share: u128 = 100 * results.len() as u128;
    den.checked_mul(share).is_some()
}

fn average(results: &Vec<BenchmarkResult>) -> (mean: Mean)
    requires
        countable(scores_of(results@)),
    ensures
        is_mean(mean, scores_of(results@)),
        mean.wf(),
{
    let ghost scores = scores_of(results@);
    if results.len() == 0 {
        return Mean { num: 0, den: 1 };
    }
    let count: usize = results.len();
    let mut num: u128 = 0;
    let mut den: u128 = 1;
    let mut i: usize = 0;
    assert(scores.take(0) =~= seq![]);
    while i < count
        invariant
            i <= count,
            count == results.len(),
            count > 0,
            scores == scores_of(results@),
            countable(scores),
            num == sum_num(scores.take(i as int)),
            den == sum_den(scores.take(i as int)),
        decreases count - i,
    {
        let score: Score = results[i].score;
        proof {
            let so_far = scores.take(i as int);
            let now = scores.take(i + 1);
            assert(scores[i as int] == score);
            assert(now.drop_last() =~= so_far);
            assert(now.last() == score);
            assert forall|j: int| 0 <= j < now.len() implies (#[trigger] now[j]).wf() by {
                assert(now[j] == scores[j]);
            }
            lemma_sums(now);
            lemma_den_grows(scores, i + 1);
            let d = sum_den(now) as int;
            let whole = sum_den(scores) as int;
            let k = now.len() as int;
            let all = scores.len() as int;
            assert(d * (100 * k) <= whole * (100 * all)) by (nonlinear_arith)
                requires
                    0 <= d <= whole,
                    0 <= k <= all,
            ;
            assert(d <= d * (100 * k)) by (nonlinear_arith)
                requires
                    d >= 1,
                    k >= 1,
            ;
            let scaled = num * score.den;
            let added = score.num * den;
            assert(scaled >= 0 && added >= 0) by (nonlinear_arith)
                requires
                    scaled == num * score.den,
                    added == score.num * den,
                    num >= 0,
                    den >= 0,
                    score.num >= 0,
                    score.den >= 0,
            ;
            assert(sum_num(now) == scaled + added);
            assert(sum_den(now) == den * score.den);
        }
        num = num * score.den as u128 + score.num as u128 * den;
        den = den * score.den as u128;
        i = i + 1;
    }
    assert(scores.take(i as int) =~= scores);
    proof {
        lemma_sums(scores);
        let d = sum_den(scores) as int;
        let k = scores.len() as int;
        assert(d * (100 * k) == 100 * (d * k) && d * k >= 1) by (nonlinear_arith)
            requires
                d >= 1,
                k >= 1,
        ;
    }
    Mean { num, den: den * count as u128 }
}

/// A report on a GPU.
#[derive(Debug)]
pub struct HealthReport {
    pub gpu_name: String,
    pub results: Vec<BenchmarkResult>,
    pub overall: Mean,
    pub rating: HealthRating,
}

/// The rating for a mean.
pub open spec fn rating_of(mean: Mean) -> HealthRating {
    if mean.reaches(80) {
        HealthRating::Excellent
    } else if mean.reaches(60) {
        HealthRating::Good
    } else if mean.reaches(40) {
        HealthRating::Fair
    } else {
        HealthRating::Poor
    }
}

/// Makes the report on results: their mean, and its rating.
pub fn generate_report(gpu_name: &str, results: Vec<BenchmarkResult>) -> (report: HealthReport)
    requires
        countable(scores_of(results@)),
    ensures
        report.gpu_name@ == gpu_name@,
        report.results == results,
        is_mean(report.overall, scores_of(results@)),
        report.overall.wf(),
        report.rating == rating_of(report.overall),
{
    let overall: Mean = average(&results);
    let rating: HealthRating = if overall.is_at_least(80) {
        HealthRating::Excellent
    } else if overall.is_at_least(60) {
        HealthRating::Good
    } else if overall.is_at_least(40) {
        HealthRating::Fair
    } else {
        HealthRating::Poor
    };
    HealthReport { gpu_name: gpu_name.to_string(), results, overall, rating }
}

/// The mean lies between the bounds that all scores lie between.
pub proof fn law_mean_lies_between_the_scores(scores: Seq<Score>, mean: Mean, low: nat, high: nat)
    requires
        scores.len() > 0,
        is_mean(mean, scores),
        forall|i: int|
            0 <= i < scores.len() ==> (#[trigger] scores[i]).den > 0 && low * scores[i].den
                <= scores[i].num <= high * scores[i].den,
    ensures
        low * mean.den <= mean.num <= high * mean.den,
{
    lemma_between(scores, low, high);
    let d = sum_den(scores) as int;
    let k = scores.len() as int;
    assert(low * (d * k) == d * (low * k) && high * (d * k) == d * (high * k)) by (nonlinear_arith);
}

proof fn lemma_between(scores: Seq<Score>, low: nat, high: nat)
    requires
        forall|i: int|
            0 <= i < scores.len() ==> (#[trigger] scores[i]).den > 0 && low * scores[i].den
                <= scores[i].num <= high * scores[i].den,
    ensures
        sum_den(scores) * (low * scores.len()) <= sum_num(scores),
        sum_num(scores) <= sum_den(scores) * (high * scores.len()),
        sum_den(scores) >= 1,
    decreases scores.len(),
{
    if scores.len() > 0 {
        let fewer = scores.drop_last();
        assert forall|i: int| 0 <= i < fewer.len() implies (#[trigger] fewer[i]).den > 0 && low
            * fewer[i].den <= fewer[i].num <= high * fewer[i].den by {
            assert(fewer[i] == scores[i]);
        }
        lemma_between(fewer, low, high);
        assert(scores[scores.len() - 1] == scores.last());
        let n = sum_num(fewer) as int;
        let d = sum_den(fewer) as int;
        let k = fewer.len() as int;
        let b = scores.last().den as int;
        let a = scores.last().num as int;
        lemma_between_step(n, d, k, a, b, low as int, high as int);
    } else {
        assert(sum_den(scores) * (low * 0) == 0) by (nonlinear_arith);
    }
}

proof fn lemma_between_step(n: int, d: int, k: int, a: int, b: int, low: int, high: int)
    by (nonlinear_arith)
    requires
        d >= 1,
        b >= 1,
        k >= 0,
        d * (low * k) <= n <= d * (high * k),
        low * b <= a <= high * b,
    ensures
        (d * b) * (low * (k + 1)) <= n * b + a * d,
        n * b + a * d <= (d * b) * (high * (k + 1)),
        d * b >= 1,
{
    assert((d * (low * k)) * b <= n * b);
    assert(n * b <= (d * (high * k)) * b);
    assert((low * b) * d <= a * d);
    assert(a * d <= (high * b) * d);
    assert((d * b) * (low * (k + 1)) == (d * (low * k)) * b + (low * b) * d);
    assert((d * b) * (high * (k + 1)) == (d * (high * k)) * b + (high * b) * d);
}

/// The colour of a number of points.
pub open spec fn colour_of(num: nat, den: nat) -> Colour {
    if num >= 80 * den {
        Colour::BrightGreen
    } else if num >= 60 * den {
        Colour::Green
    } else if num >= 40 * den {
        Colour::Yellow
    } else {
        Colour::Red
    }
}

/// A number of points out of a hundred, and its colour.
pub fn score_color(num: u128, den: u128) -> (score: (String, Colour))
    requires
        0 < den,
        100 * den <= u128::MAX,
    ensures
        score.0@ == out_of_hundred(num as nat, den as nat),
        score.1 == colour_of(num as nat, den as nat),
{
    let colour: Colour = if num >= 80 * den {
        Colour::BrightGreen
    } else if num >= 60 * den {
        Colour::Green
    } else if num >= 40 * den {
        Colour::Yellow
    } else {
        Colour::Red
    };
    (score_text(num, den), colour)
}

/// The icon of a status.
pub open spec fn icon_view(status: StatusView) -> Seq<char> {
    match status {
        StatusView::Passed => "✓"@,
        StatusView::Warning => "⚠"@,
        _ => "✗"@,
    }
}

/// The colour of a status.
pub open spec fn status_colour(status: StatusView) -> Colour {
    match status {
        StatusView::Passed => Colour::BrightGreen,
        StatusView::Warning => Colour::Yellow,
        StatusView::Failed => Colour::Red,
        StatusView::Error(_) => Colour::BrightRed,
    }
}

/// The icon of a status, and its colour.
pub fn status_icon(status: &TestStatus) -> (icon: (&'static str, Colour))
    ensures
        icon.0@ == icon_view(status@),
        icon.1 == status_colour(status@),
{
    match status {
        TestStatus::Passed => ("✓", Colour::BrightGreen),
        TestStatus::Warning => ("⚠", Colour::Yellow),
        TestStatus::Failed => ("✗", Colour::Red),
        TestStatus::Error(_) => ("✗", Colour::BrightRed),
    }
}

/// A status in words.
pub open spec fn status_view(status: StatusView) -> Seq<char> {
    match status {
        StatusView::Passed => "PASSED"@,
        StatusView::Warning => "WARNING"@,
        StatusView::Failed => "FAILED"@,
        StatusView::Error(message) => "ERROR: "@ + message,
    }
}

/// A status in words, and its colour.
pub fn status_label(status: &TestStatus) -> (label: (String, Colour))
    ensures
        label.0@ == status_view(status@),
        label.1 == status_colour(status@),
{
    match status {
        TestStatus::Passed => ("PASSED".to_string(), Colour::BrightGreen),
        TestStatus::Warning => ("WARNING".to_string(), Colour::Yellow),
        TestStatus::Failed => ("FAILED".to_string(), Colour::Red),
        TestStatus::Error(message) => {
            let mut text = "ERROR: ".to_string();
            text.append(message.as_str());
            (text, Colour::BrightRed)
        },
    }
}

/// The widths of the first three columns of the table.
pub const NAME_WIDTH: usize = 25;

pub const STATUS_WIDTH: usize = 15;

pub const METRIC_WIDTH: usize = 18;

/// A row of the table, filled up to the columns' widths.
pub struct ReportRow {
    pub name: String,
    pub status: String,
    pub status_colour: Colour,
    pub metric: String,
    pub score: String,
    pub score_colour: Colour,
}

/// The row of a result.
pub fn report_row(result: &BenchmarkResult) -> (row: ReportRow)
    requires
        result@.score.wf(),
    ensures
        row.name@ == padded_right(result@.name, NAME_WIDTH as nat),
        row.status@ == padded_right(status_view(result@.status), STATUS_WIDTH as nat),
        row.status_colour == status_colour(result@.status),
        row.metric@ == padded_right(result@.metric_value, METRIC_WIDTH as nat),
        row.score@ == out_of_hundred(result@.score.num as nat, result@.score.den as nat),
        row.score_colour == colour_of(result@.score.num as nat, result@.score.den as nat),
{
    let (status, status_colour) = status_label(&result.status);
    let (score, score_colour) = score_color(result.score.num as u128, result.score.den as u128);
    ReportRow {
        name: pad_right(result.name.as_str(), NAME_WIDTH),
        status: pad_right(status.as_str(), STATUS_WIDTH),
        status_colour,
        metric: pad_right(result.metric_value.as_str(), METRIC_WIDTH),
        score,
        score_colour,
    }
}

/// The heading of a result's details.
pub fn detail_heading(name: &str) -> (heading: String)
    ensures
        heading@ == "• "@ + name@ + ":"@,
{
    let mut heading = "• ".to_string();
    heading.append(name);
    heading.append(":");
    heading
}

/// The kinds of work that a GPU is rated for.
#[derive(Debug, Clone, Copy, PartialEq, Eq, Structural)]
pub enum Work {
    Training,
    Inference,
    Shaders,
    Compute,
    Graphics,
}

impl Work {
    /// The name of the work.
    pub open spec fn name_view(self) -> Seq<char> {
        match self {
            Work::Training => "ML/AI Training"@,
            Work::Inference => "Deep Learning Inference"@,
            Work::Shaders => "Shader Compilation"@,
            Work::Compute => "GPU Compute (General)"@,
            Work::Graphics => "3D Rendering/Graphics"@,
        }
    }

    /// How many points the work asks for.
    pub open spec fn demand(self) -> u8 {
        match self {
            Work::Training => 75,
            Work::Inference => 60,
            Work::Shaders => 50,
            Work::Compute => 45,
            Work::Graphics => 55,
        }
    }
}

/// Whether a GPU suits a kind of work.
pub struct WorkRow {
    pub name: String,
    pub suitable: bool,
    pub icon: &'static str,
    pub label: &'static str,
    pub colour: Colour,
}

/// The width of the names of the kinds of work.
pub const WORK_WIDTH: usize = 30;

/// Whether a row tells how a mean suits a kind of work.
pub open spec fn tells(row: WorkRow, work: Work, mean: Mean) -> bool {
    &&& row.name@ == padded_right(work.name_view(), WORK_WIDTH as nat)
    &&& row.suitable == mean.reaches(work.demand() as nat)
    &&& row.icon@ == if row.suitable {
        "✓"@
    } else {
        "✗"@
    }
    &&& row.label@ == if row.suitable {
        "Phù hợp"@
    } else {
        "Không khuyến khích"@
    }
    &&& row.colour == if row.suitable {
        Colour::BrightGreen
    } else {
        Colour::Red
    }
}

fn work_row(work: Work, mean: Mean) -> (row: WorkRow)
    requires
        mean.wf(),
    ensures
        tells(row, work, mean),
{
    let (name, demand): (&'static str, u8) = match work {
        Work::Training => ("ML/AI Training", 75),
        Work::Inference => ("Deep Learning Inference", 60),
        Work::Shaders => ("Shader Compilation", 50),
        Work::Compute => ("GPU Compute (General)", 45),
        Work::Graphics => ("3D Rendering/Graphics", 55),
    };
    let suitable: bool = mean.is_at_least(demand);
    WorkRow {
        name: pad_right(name, WORK_WIDTH),
        suitable,
        icon: if suitable {
            "✓"
        } else {
            "✗"
        },
        label: if suitable {
            "Phù hợp"
        } else {
            "Không khuyến khích"
        },
        colour: if suitable {
            Colour::BrightGreen
        } else {
            Colour::Red
        },
    }
}

/// The kinds of work in the order of the report.
pub open spec fn all_work() -> Seq<Work> {
    seq![Work::Training, Work::Inference, Work::Shaders, Work::Compute, Work::Graphics]
}

/// How a mean suits each kind of work.
pub fn work_rows(mean: Mean) -> (rows: Vec<WorkRow>)
    requires
        mean.wf(),
    ensures
        rows.len() == all_work().len(),
        forall|i: int| 0 <= i < rows.len() ==> tells(#[trigger] rows[i], all_work()[i], mean),
{
    let mut rows: Vec<WorkRow> = Vec::new();
    rows.push(work_row(Work::Training, mean));
    rows.push(work_row(Work::Inference, mean));
    rows.push(work_row(Work::Shaders, mean));
    rows.push(work_row(Work::Compute, mean));
    rows.push(work_row(Work::Graphics, mean));
    rows
}

/// A GPU that suits training suits every kind of work, and an excellent GPU
/// suits training.
pub proof fn law_training_is_the_hardest_work(mean: Mean, work: Work)
    requires
        mean.wf(),
    ensures
        mean.reaches(Work::Training.demand() as nat) ==> mean.reaches(work.demand() as nat),
        rating_of(mean) is Excellent ==> mean.reaches(Work::Training.demand() as nat),
{
}

} // verus!
