//! Benchmark scores as exact fractions.
use vstd::prelude::*;

#[allow(unused_imports)]
use crate::text::decimal;
use crate::text::push_decimal;

verus! {

/// A score between 0 and 100 points, as an exact fraction.
#[derive(Debug, Clone, Copy, PartialEq, Eq, Structural)]
pub struct Score {
    pub num: u64,
    pub den: u64,
}

/// The whole number nearest to a fraction; of two that are equally near, the
/// even one.
pub open spec fn rounded(num: nat, den: nat) -> nat
    recommends
        den > 0,
{
    let below = num / den;
    let rest = num % den;
    if 2 * rest < den {
        below
    } else if 2 * rest > den {
        below + 1
    } else if below % 2 == 0 {
        below
    } else {
        below + 1
    }
}

/// Rounds a fraction to the nearest whole number, halves to the even one.
pub fn round(num: u128, den: u128) -> (nearest: u128)
    requires
        den > 0,
    ensures
        nearest == rounded(num as nat, den as nat),
{
    let below: u128 = num / den;
    let rest: u128 = num % den;
    proof {
        if below == u128::MAX {
            assert(num / den <= num) by (nonlinear_arith)
                requires
                    den > 0,
            ;
            assert(den == 1) by (nonlinear_arith)
                requires
                    num / den == u128::MAX,
                    num <= u128::MAX,
                    den > 0,
            ;
            assert(rest == 0);
        }
    }
    if rest < den - rest {
        below
    } else if rest > den - rest {
        below + 1
    } else if below % 2 == 0 {
        below
    } else {
        below + 1
    }
}

/// A number of points out of a hundred, rounded.
pub open spec fn out_of_hundred(num: nat, den: nat) -> Seq<char> {
    decimal(rounded(num, den)) + "/100"@
}

/// Formats a number of points out of a hundred.
pub fn score_text(num: u128, den: u128) -> (text: String)
    requires
        den > 0,
    ensures
        text@ == out_of_hundred(num as nat, den as nat),
{
    let mut text = String::new();
    push_decimal(&mut text, round(num, den));
    text.append("/100");
    assert(text@ =~= out_of_hundred(num as nat, den as nat));
    text
}

impl Score {
    /// A fraction of a whole, from 0 to 100 points.
    pub open spec fn wf(self) -> bool {
        self.den > 0 && self.num <= 100 * self.den
    }

    /// Whether the score is at least so many points.
    pub open spec fn reaches(self, points: nat) -> bool {
        self.num >= points * self.den
    }

    /// A whole number of points.
    pub fn points(points: u64) -> (score: Score)
        ensures
            score == (Score { num: points, den: 1 }),
            points <= 100 ==> score.wf(),
    {
        Score { num: points, den: 1 }
    }

    /// Whether the score is at least so many points.
    pub fn is_at_least(&self, points: u64) -> (reaches: bool)
        ensures
            reaches == self.reaches(points as nat),
    {
        proof {
            assert(points * self.den <= 0xFFFF_FFFF_FFFF_FFFF * 0xFFFF_FFFF_FFFF_FFFF) by (nonlinear_arith)
                requires
                    0 <= points <= 0xFFFF_FFFF_FFFF_FFFF,
                    0 <= self.den <= 0xFFFF_FFFF_FFFF_FFFF,
            ;
        }
        self.num as u128 >= points as u128 * self.den as u128
    }
}

} // verus!
