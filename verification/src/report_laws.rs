//! What the report says of scores: how each counts, and which rating and colour
//! follow.
use vstd::prelude::*;

#[allow(unused_imports)]
use crate::benchmarks::StatusView;
#[allow(unused_imports)]
use crate::report::{
    all_work, colour_of, icon_view, is_mean, rating_of, status_colour, status_view, sum_den,
    sum_num, tells, Mean, Work, WorkRow,
};
#[allow(unused_imports)]
use crate::score::{out_of_hundred, rounded, Score};
#[allow(unused_imports)]
use crate::text::decimal;
#[allow(unused_imports)]
use crate::text_laws::law_rounding_is_nearest;

verus! {

/// A mean of at least 80 points is excellent, one below that of at least 60 is
/// good, one below that of at least 40 is fair, and one below that is poor. The
/// colours of scores have the same limits.
pub proof fn law_ratings_have_limits(mean: Mean, num: nat, den: nat)
    ensures
        rating_of(mean) is Excellent <==> mean.num >= 80 * mean.den,
        rating_of(mean) is Good <==> 60 * mean.den <= mean.num < 80 * mean.den,
        rating_of(mean) is Fair <==> 40 * mean.den <= mean.num < 60 * mean.den,
        rating_of(mean) is Poor <==> mean.num < 40 * mean.den,
        colour_of(num, den) is BrightGreen <==> num >= 80 * den,
        colour_of(num, den) is Green <==> 60 * den <= num < 80 * den,
        colour_of(num, den) is Yellow <==> 40 * den <= num < 60 * den,
        colour_of(num, den) is Red <==> num < 40 * den,
{
}

proof fn lemma_one_score_changed(scores: Seq<Score>, i: int, num: u64)
    requires
        0 <= i < scores.len(),
    ensures
        ({
            let changed = scores.update(i, Score { num, den: scores[i].den });
            &&& sum_den(changed) == sum_den(scores)
            &&& (sum_num(changed) - sum_num(scores)) * scores[i].den == (num - scores[i].num)
                * sum_den(scores)
        }),
    decreases scores.len(),
{
    let changed = scores.update(i, Score { num, den: scores[i].den });
    let fewer = scores.drop_last();
    let b = scores.last().den as int;
    let d = sum_den(fewer) as int;
    let delta = num - scores[i].num;
    if i == scores.len() - 1 {
        assert(changed.drop_last() =~= fewer);
        assert(num * d - scores[i].num * d == delta * d) by (nonlinear_arith)
            requires
                delta == num - scores[i].num,
        ;
        assert((delta * d) * b == delta * (d * b)) by (nonlinear_arith);
    } else {
        assert(changed.drop_last() =~= fewer.update(i, Score { num, den: scores[i].den }));
        lemma_one_score_changed(fewer, i, num);
        let n = sum_num(fewer) as int;
        let m = sum_num(changed.drop_last()) as int;
        let e = scores[i].den as int;
        assert(fewer[i] == scores[i]);
        assert(changed.last() == scores.last());
        assert(m * b - n * b == (m - n) * b) by (nonlinear_arith);
        assert(((m - n) * b) * e == delta * (d * b)) by (nonlinear_arith)
            requires
                (m - n) * e == delta * d,
        ;
    }
}

/// Every score counts the same: where one score rises and the others stay, the
/// mean rises by that much divided by the number of scores, whichever score it is.
pub proof fn law_every_score_counts_the_same(
    scores: Seq<Score>,
    i: int,
    num: u64,
    before: Mean,
    after: Mean,
)
    requires
        0 <= i < scores.len(),
        is_mean(before, scores),
        is_mean(after, scores.update(i, Score { num, den: scores[i].den })),
    ensures
        after.den == before.den,
        (after.num - before.num) * scores[i].den * scores.len() == (num - scores[i].num)
            * before.den,
{
    lemma_one_score_changed(scores, i, num);
    let change = after.num - before.num;
    let delta = num - scores[i].num;
    let e = scores[i].den as int;
    let d = sum_den(scores) as int;
    let k = scores.len() as int;
    assert((change * e) * k == delta * (d * k)) by (nonlinear_arith)
        requires
            change * e == delta * d,
    ;
}

/// Equal scores are their own mean, however many there are; no scores have a mean
/// of zero.
pub proof fn law_equal_scores_are_their_mean(score: Score, count: nat, mean: Mean)
    requires
        score.den > 0,
        is_mean(mean, Seq::new(count, |i: int| score)),
    ensures
        count == 0 ==> mean.num == 0,
        count > 0 ==> mean.num * score.den == score.num * mean.den,
{
    if count > 0 {
        lemma_equal_scores(score, count);
        let scores = Seq::new(count, |i: int| score);
        let n = sum_num(scores) as int;
        let d = sum_den(scores) as int;
        let a = score.num as int;
        let b = score.den as int;
        let k = count as int;
        assert(a * (d * k) == (a * k) * d) by (nonlinear_arith);
    }
}

proof fn lemma_equal_scores(score: Score, count: nat)
    ensures
        sum_num(Seq::new(count, |i: int| score)) * score.den == score.num * count * sum_den(
            Seq::new(count, |i: int| score),
        ),
    decreases count,
{
    let scores = Seq::new(count, |i: int| score);
    let a = score.num as int;
    let b = score.den as int;
    if count == 0 {
        assert(0 * b == a * 0 * 1) by (nonlinear_arith);
    } else {
        let fewer = Seq::new((count - 1) as nat, |i: int| score);
        assert(scores.drop_last() =~= fewer);
        lemma_equal_scores(score, (count - 1) as nat);
        let n = sum_num(fewer) as int;
        let d = sum_den(fewer) as int;
        let k = count as int;
        assert((n * b + a * d) * b == a * k * (d * b)) by (nonlinear_arith)
            requires
                n * b == a * (k - 1) * d,
        ;
    }
}

/// A score is told out of a hundred, as the nearest whole number: all points are
/// told as a hundred, none as zero, and scores that differ by more than a point
/// are told differently.
pub proof fn law_scores_are_told_out_of_a_hundred(num: nat, den: nat, points: nat)
    requires
        den > 0,
    ensures
        num == points * den ==> out_of_hundred(num, den) == decimal(points) + "/100"@,
        2 * num > (2 * points - 1) * den && 2 * num < (2 * points + 1) * den ==> out_of_hundred(
            num,
            den,
        ) == decimal(points) + "/100"@,
{
    let near = rounded(num, den) as int;
    let k = points as int;
    let d = den as int;
    law_rounding_is_nearest(num, den, points);
    if 2 * num > (2 * points - 1) * den && 2 * num < (2 * points + 1) * den {
        assert((2 * k - 1) * d == 2 * (k * d) - d && (2 * k + 1) * d == 2 * (k * d) + d)
            by (nonlinear_arith);
        assert(near == k) by (nonlinear_arith)
            requires
                2 * (near * d) <= 2 * num + d,
                2 * (near * d) >= 2 * num - d,
                2 * num > 2 * (k * d) - d,
                2 * num < 2 * (k * d) + d,
                d > 0,
        ;
    }
    if num == points * den {
        assert((2 * k - 1) * d < 2 * (k * d) && (2 * k + 1) * d > 2 * (k * d)) by (nonlinear_arith)
            requires
                d > 0,
        ;
    }
}

/// A kind of work is suitable exactly from its points on: 75 for training, 60 for
/// inference, 55 for graphics, 50 for shaders and 45 for computing.
pub proof fn law_work_has_limits(row: WorkRow, work: Work, mean: Mean)
    requires
        tells(row, work, mean),
    ensures
        work is Training ==> (row.suitable <==> mean.num >= 75 * mean.den),
        work is Inference ==> (row.suitable <==> mean.num >= 60 * mean.den),
        work is Graphics ==> (row.suitable <==> mean.num >= 55 * mean.den),
        work is Shaders ==> (row.suitable <==> mean.num >= 50 * mean.den),
        work is Compute ==> (row.suitable <==> mean.num >= 45 * mean.den),
        row.colour is BrightGreen <==> row.suitable,
        row.colour is Red <==> !row.suitable,
{
}

/// Every kind of work is told, once.
pub proof fn law_all_work_is_told(work: Work, i: int, j: int)
    ensures
        all_work().contains(work),
        0 <= i < j < all_work().len() ==> all_work()[i] != all_work()[j],
{
    let all = all_work();
    assert(all[0] is Training && all[1] is Inference && all[2] is Shaders && all[3] is Compute
        && all[4] is Graphics);
    match work {
        Work::Training => assert(all[0] == work),
        Work::Inference => assert(all[1] == work),
        Work::Shaders => assert(all[2] == work),
        Work::Compute => assert(all[3] == work),
        Work::Graphics => assert(all[4] == work),
    }
}

/// A status is told by its colour: two statuses of one colour are of one kind. An
/// error is told with its message.
pub proof fn law_statuses_have_colours(status: StatusView, other: StatusView, message: Seq<char>)
    ensures
        status_colour(status) == status_colour(other) ==> {
            &&& status is Passed <==> other is Passed
            &&& status is Warning <==> other is Warning
            &&& status is Failed <==> other is Failed
        },
        status_view(StatusView::Error(message)) == "ERROR: "@ + message,
        status is Failed || status is Error ==> icon_view(status) == icon_view(StatusView::Failed),
{
}

} // verus!
