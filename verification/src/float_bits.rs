//! Floating-point numbers as their IEEE 754 bit patterns.
//!
//! The library never computes with floating-point numbers. It holds their bit
//! patterns, orders them, and tells which of them are numbers at all. Both
//! take integer comparisons only: apart from the sign, the bit pattern of a
//! larger number is the larger integer.
use vstd::arithmetic::power2::pow2;
use vstd::prelude::*;

verus! {

/// The exact value of a finite, non-negative bit pattern, in units of the
/// smallest positive number of its format. `hidden` is the weight of the
/// hidden bit, 2 to the number of fraction bits.
pub open spec fn magnitude_units(magnitude: nat, hidden: nat) -> nat
    recommends
        hidden > 0,
{
    let exponent = magnitude / hidden;
    let fraction = magnitude % hidden;
    if exponent == 0 {
        fraction
    } else {
        (hidden + fraction) * pow2((exponent - 1) as nat)
    }
}

/// A larger bit pattern has the larger value.
pub proof fn law_magnitudes_order_values(a: nat, b: nat, hidden: nat)
    requires
        hidden > 0,
    ensures
        a < b <==> magnitude_units(a, hidden) < magnitude_units(b, hidden),
        a == b <==> magnitude_units(a, hidden) == magnitude_units(b, hidden),
{
    if a < b {
        lemma_magnitude_units_grow(a, b, hidden);
    } else if b < a {
        lemma_magnitude_units_grow(b, a, hidden);
    }
}

proof fn lemma_magnitude_units_grow(a: nat, b: nat, hidden: nat)
    requires
        hidden > 0,
        a < b,
    ensures
        magnitude_units(a, hidden) < magnitude_units(b, hidden),
{
    let ea = a / hidden;
    let fa = a % hidden;
    let eb = b / hidden;
    let fb = b % hidden;
    vstd::arithmetic::div_mod::lemma_fundamental_div_mod(a as int, hidden as int);
    vstd::arithmetic::div_mod::lemma_fundamental_div_mod(b as int, hidden as int);
    vstd::arithmetic::div_mod::lemma_div_is_ordered(a as int, b as int, hidden as int);
    assert(0 <= fa < hidden && 0 <= fb < hidden);
    if ea == eb {
        assert(fa < fb);
        if ea > 0 {
            let weight = pow2((ea - 1) as nat);
            vstd::arithmetic::power2::lemma_pow2_pos((ea - 1) as nat);
            assert((hidden + fa) * weight < (hidden + fb) * weight) by (nonlinear_arith)
                requires
                    fa < fb,
                    weight > 0,
            ;
        }
    } else {
        assert(ea < eb);
        let weight_b = pow2((eb - 1) as nat);
        vstd::arithmetic::power2::lemma_pow2_pos((eb - 1) as nat);
        if ea == 0 {
            assert(fa < (hidden + fb) * weight_b) by (nonlinear_arith)
                requires
                    fa < hidden,
                    fb >= 0,
                    weight_b > 0,
            ;
        } else {
            let weight_a = pow2((ea - 1) as nat);
            vstd::arithmetic::power2::lemma_pow2_pos((ea - 1) as nat);
            vstd::arithmetic::power2::lemma_pow2_unfold(ea);
            assert(pow2(ea) == 2 * weight_a);
            if ea < eb - 1 {
                vstd::arithmetic::power2::lemma_pow2_strictly_increases(ea, (eb - 1) as nat);
            }
            assert(2 * weight_a <= weight_b);
            assert((hidden + fa) * weight_a < (hidden + fb) * weight_b) by (nonlinear_arith)
                requires
                    fa < hidden,
                    fb >= 0,
                    weight_a > 0,
                    2 * weight_a <= weight_b,
            ;
        }
    }
}

/// A single-precision number, as its bit pattern.
#[derive(Debug, Clone, Copy, PartialEq, Eq, Structural)]
pub struct Float32 {
    pub bits: u32,
}

impl Float32 {
    /// The bit pattern without the sign.
    pub open spec fn magnitude(self) -> nat {
        if self.bits >= 0x8000_0000 {
            (self.bits - 0x8000_0000) as nat
        } else {
            self.bits as nat
        }
    }

    /// The place of the number in the order of all numbers; zero for both
    /// zeros.
    pub open spec fn rank(self) -> int {
        if self.bits >= 0x8000_0000 {
            -(self.magnitude() as int)
        } else {
            self.magnitude() as int
        }
    }

    pub open spec fn nan(self) -> bool {
        self.magnitude() > 0x7F80_0000
    }

    pub open spec fn finite(self) -> bool {
        self.magnitude() < 0x7F80_0000
    }

    /// The exact value of a finite number, in units of 2 to the power of -149.
    pub open spec fn units(self) -> int {
        if self.bits >= 0x8000_0000 {
            -(magnitude_units(self.magnitude(), 0x80_0000) as int)
        } else {
            magnitude_units(self.magnitude(), 0x80_0000) as int
        }
    }

    /// Whether two numbers compare as equal: both are numbers, of one rank.
    pub open spec fn equals(self, other: Float32) -> bool {
        !self.nan() && !other.nan() && self.rank() == other.rank()
    }

    /// Whether this is a number and not an infinity.
    pub fn is_finite(&self) -> (finite: bool)
        ensures
            finite == self.finite(),
    {
        let magnitude: u32 = if self.bits >= 0x8000_0000 {
            self.bits - 0x8000_0000
        } else {
            self.bits
        };
        magnitude < 0x7F80_0000
    }

    /// Whether two numbers compare as equal.
    pub fn same_value(&self, other: Float32) -> (same: bool)
        ensures
            same == self.equals(other),
    {
        let a: u32 = if self.bits >= 0x8000_0000 {
            self.bits - 0x8000_0000
        } else {
            self.bits
        };
        let b: u32 = if other.bits >= 0x8000_0000 {
            other.bits - 0x8000_0000
        } else {
            other.bits
        };
        if a > 0x7F80_0000 || b > 0x7F80_0000 {
            false
        } else if a == 0 && b == 0 {
            true
        } else {
            self.bits == other.bits
        }
    }
}

/// Finite numbers compare as equal exactly where their values are the same.
pub proof fn law_equal_floats_have_equal_values(a: Float32, b: Float32)
    requires
        a.finite(),
        b.finite(),
    ensures
        a.equals(b) <==> a.units() == b.units(),
{
    law_magnitudes_order_values(a.magnitude(), b.magnitude(), 0x80_0000);
    law_magnitudes_order_values(a.magnitude(), 0, 0x80_0000);
    law_magnitudes_order_values(b.magnitude(), 0, 0x80_0000);
    assert(magnitude_units(0, 0x80_0000) == 0);
}

/// How many of the numbers are not finite.
pub open spec fn non_finite_count(values: Seq<Float32>) -> nat
    decreases values.len(),
{
    if values.len() == 0 {
        0
    } else {
        non_finite_count(values.drop_last()) + if values.last().finite() {
            0nat
        } else {
            1nat
        }
    }
}

/// None is counted exactly where all numbers are finite, and no more are
/// counted than there are.
pub proof fn law_non_finite_numbers_are_counted(values: Seq<Float32>)
    ensures
        non_finite_count(values) == 0 <==> forall|i: int|
            0 <= i < values.len() ==> (#[trigger] values[i]).finite(),
        non_finite_count(values) <= values.len(),
    decreases values.len(),
{
    if values.len() > 0 {
        let fewer = values.drop_last();
        law_non_finite_numbers_are_counted(fewer);
        assert(forall|i: int| 0 <= i < fewer.len() ==> fewer[i] == values[i]);
        assert(values.last() == values[values.len() - 1]);
        if forall|i: int| 0 <= i < fewer.len() ==> (#[trigger] fewer[i]).finite() {
            assert forall|i: int| 0 <= i < values.len() - 1 implies (#[trigger] values[i]).finite() by {
                assert(fewer[i].finite());
            }
        } else {
            let i = choose|i: int| 0 <= i < fewer.len() && !(#[trigger] fewer[i]).finite();
            assert(!values[i].finite());
        }
    }
}

/// Counts the numbers that are not finite.
pub fn count_non_finite(values: &Vec<Float32>) -> (count: usize)
    ensures
        count == non_finite_count(values@),
        count <= values.len(),
{
    let mut count: usize = 0;
    let mut i: usize = 0;
    assert(values@.take(0) =~= seq![]);
    while i < values.len()
        invariant
            i <= values.len(),
            count <= i,
            count == non_finite_count(values@.take(i as int)),
        decreases values.len() - i,
    {
        assert(values@.take(i + 1).drop_last() =~= values@.take(i as int));
        if !values[i].is_finite() {
            count = count + 1;
        }
        i = i + 1;
    }
    assert(values@.take(i as int) =~= values@);
    count
}

/// A double-precision number, as its bit pattern.
#[derive(Debug, Clone, Copy, PartialEq, Eq, Structural)]
pub struct Float64 {
    pub bits: u64,
}

impl Float64 {
    /// The bit pattern without the sign.
    pub open spec fn magnitude(self) -> nat {
        if self.bits >= 0x8000_0000_0000_0000 {
            (self.bits - 0x8000_0000_0000_0000) as nat
        } else {
            self.bits as nat
        }
    }

    /// The place of the number in the order of all numbers; zero for both
    /// zeros.
    pub open spec fn rank(self) -> int {
        if self.bits >= 0x8000_0000_0000_0000 {
            -(self.magnitude() as int)
        } else {
            self.magnitude() as int
        }
    }

    pub open spec fn nan(self) -> bool {
        self.magnitude() > 0x7FF0_0000_0000_0000
    }

    pub open spec fn finite(self) -> bool {
        self.magnitude() < 0x7FF0_0000_0000_0000
    }

    /// The exact value of a finite number, in units of 2 to the power of
    /// -1074.
    pub open spec fn units(self) -> int {
        if self.bits >= 0x8000_0000_0000_0000 {
            -(magnitude_units(self.magnitude(), 0x10_0000_0000_0000) as int)
        } else {
            magnitude_units(self.magnitude(), 0x10_0000_0000_0000) as int
        }
    }

    /// Whether both are numbers and this is the larger.
    pub open spec fn above(self, other: Float64) -> bool {
        !self.nan() && !other.nan() && self.rank() > other.rank()
    }

    /// Whether both are numbers and this is not the smaller.
    pub open spec fn reaches(self, other: Float64) -> bool {
        !self.nan() && !other.nan() && self.rank() >= other.rank()
    }

    /// Whether this is no number.
    pub fn is_nan(&self) -> (nan: bool)
        ensures
            nan == self.nan(),
    {
        if self.bits >= 0x8000_0000_0000_0000 {
            self.bits - 0x8000_0000_0000_0000 > 0x7FF0_0000_0000_0000
        } else {
            self.bits > 0x7FF0_0000_0000_0000
        }
    }

    fn order(&self) -> (rank: i64)
        ensures
            rank == self.rank(),
    {
        if self.bits >= 0x8000_0000_0000_0000 {
            -((self.bits - 0x8000_0000_0000_0000) as i64)
        } else {
            self.bits as i64
        }
    }

    /// Whether this is larger than the other.
    pub fn is_above(&self, other: Float64) -> (above: bool)
        ensures
            above == self.above(other),
    {
        !self.is_nan() && !other.is_nan() && self.order() > other.order()
    }

    /// Whether this is as large as the other, or larger.
    pub fn is_at_least(&self, other: Float64) -> (reaches: bool)
        ensures
            reaches == self.reaches(other),
    {
        !self.is_nan() && !other.is_nan() && self.order() >= other.order()
    }

    /// The larger of two numbers, or the one that is a number.
    pub open spec fn larger(self, other: Float64) -> Float64 {
        if self.nan() || other.above(self) {
            other
        } else {
            self
        }
    }

    /// The larger of two numbers, or the one that is a number.
    pub fn max(self, other: Float64) -> (larger: Float64)
        ensures
            larger == self.larger(other),
    {
        if self.is_nan() || other.is_above(self) {
            other
        } else {
            self
        }
    }

    /// The smaller of two numbers, or the one that is a number.
    pub open spec fn smaller(self, other: Float64) -> Float64 {
        if self.nan() || self.above(other) {
            other
        } else {
            self
        }
    }

    /// The smaller of two numbers, or the one that is a number.
    pub fn min(self, other: Float64) -> (smaller: Float64)
        ensures
            smaller == self.smaller(other),
    {
        if self.is_nan() || self.is_above(other) {
            other
        } else {
            self
        }
    }
}

impl Float64 {
    /// The worse of two errors, which is the larger one. An error that is no
    /// number is worse than any: it counts as infinite.
    pub open spec fn worse(self, other: Float64) -> Float64 {
        if self.nan() || other.nan() {
            double(INFINITY)
        } else if other.above(self) {
            other
        } else {
            self
        }
    }

    /// The worse of two errors.
    pub fn or_worse(self, other: Float64) -> (worse: Float64)
        ensures
            worse == self.worse(other),
    {
        if self.is_nan() || other.is_nan() {
            Float64 { bits: INFINITY }
        } else if other.is_above(self) {
            other
        } else {
            self
        }
    }
}

/// The worst of some errors; zero where there is none, and infinity where one
/// of them is no number.
pub open spec fn worst_of(errors: Seq<Float64>) -> Float64
    decreases errors.len(),
{
    if errors.len() == 0 {
        double(ZERO)
    } else {
        worst_of(errors.drop_last()).worse(errors.last())
    }
}

/// Finds the worst of some errors.
pub fn worst(errors: &Vec<Float64>) -> (worst: Float64)
    ensures
        worst == worst_of(errors@),
{
    let mut worst: Float64 = Float64 { bits: ZERO };
    let mut i: usize = 0;
    assert(errors@.take(0) =~= seq![]);
    while i < errors.len()
        invariant
            i <= errors.len(),
            worst == worst_of(errors@.take(i as int)),
        decreases errors.len() - i,
    {
        assert(errors@.take(i + 1).drop_last() =~= errors@.take(i as int));
        worst = worst.or_worse(errors[i]);
        i = i + 1;
    }
    assert(errors@.take(i as int) =~= errors@);
    worst
}

/// The worst of some errors is a number. It stays below a limit exactly where
/// every error does; an error that is no number never does.
pub proof fn law_worst_error_decides(errors: Seq<Float64>, limit: Float64)
    requires
        limit.above(double(ZERO)),
    ensures
        !worst_of(errors).nan(),
        limit.above(worst_of(errors)) <==> forall|i: int|
            0 <= i < errors.len() ==> limit.above(#[trigger] errors[i]),
    decreases errors.len(),
{
    if errors.len() > 0 {
        let fewer = errors.drop_last();
        law_worst_error_decides(fewer, limit);
        assert(forall|i: int| 0 <= i < fewer.len() ==> fewer[i] == errors[i]);
        assert(errors.last() == errors[errors.len() - 1]);
        if limit.above(worst_of(errors)) {
            assert(limit.above(worst_of(fewer)));
            assert(limit.above(errors.last()));
            assert forall|i: int| 0 <= i < errors.len() implies limit.above(
                #[trigger] errors[i],
            ) by {
                if i < fewer.len() {
                    assert(limit.above(fewer[i]));
                }
            }
        }
        if forall|i: int| 0 <= i < errors.len() ==> limit.above(#[trigger] errors[i]) {
            assert forall|i: int| 0 <= i < fewer.len() implies limit.above(
                #[trigger] fewer[i],
            ) by {
                assert(limit.above(errors[i]));
            }
            assert(limit.above(errors[errors.len() - 1]));
        }
    }
}

/// The worst of some errors is infinite where one is no number, and the largest
/// of them otherwise.
pub proof fn law_worst_error_is_the_largest(errors: Seq<Float64>)
    ensures
        if exists|i: int| 0 <= i < errors.len() && (#[trigger] errors[i]).nan() {
            worst_of(errors) == double(INFINITY)
        } else {
            is_largest(worst_of(errors), errors)
        },
    decreases errors.len(),
{
    if errors.len() > 0 {
        let fewer = errors.drop_last();
        law_worst_error_is_the_largest(fewer);
        assert(forall|i: int| 0 <= i < fewer.len() ==> fewer[i] == errors[i]);
        let last = errors[errors.len() - 1];
        assert(errors.last() == last);
        if exists|i: int| 0 <= i < fewer.len() && (#[trigger] fewer[i]).nan() {
            let i = choose|i: int| 0 <= i < fewer.len() && (#[trigger] fewer[i]).nan();
            assert(errors[i].nan());
        } else if !last.nan() {
            assert forall|i: int| 0 <= i < errors.len() implies !(#[trigger] errors[i]).nan() by {
                if i < fewer.len() {
                    assert(!fewer[i].nan());
                }
            }
            let worst = worst_of(fewer);
            if fewer.contains(worst) {
                let i = choose|i: int| 0 <= i < fewer.len() && fewer[i] == worst;
                assert(errors[i] == worst);
            }
            assert(errors.contains(last));
        }
    }
}

/// Finite numbers are ordered by their values.
pub proof fn law_floats_order_values(a: Float64, b: Float64)
    requires
        a.finite(),
        b.finite(),
    ensures
        a.above(b) <==> a.units() > b.units(),
        a.reaches(b) <==> a.units() >= b.units(),
{
    law_magnitudes_order_values(a.magnitude(), b.magnitude(), 0x10_0000_0000_0000);
    law_magnitudes_order_values(a.magnitude(), 0, 0x10_0000_0000_0000);
    law_magnitudes_order_values(b.magnitude(), 0, 0x10_0000_0000_0000);
    assert(magnitude_units(0, 0x10_0000_0000_0000) == 0);
}

/// The bit pattern of zero.
pub const ZERO: u64 = 0;

/// The bit pattern of positive infinity.
pub const INFINITY: u64 = 0x7FF0_0000_0000_0000;

/// The double-precision number of a bit pattern.
pub open spec fn double(bits: u64) -> Float64 {
    Float64 { bits }
}

/// The single-precision number of a bit pattern.
pub open spec fn single(bits: u32) -> Float32 {
    Float32 { bits }
}

/// The largest of zero and the numbers of a sequence, whatever is no number
/// left out.
pub open spec fn is_largest(largest: Float64, values: Seq<Float64>) -> bool {
    &&& !largest.nan()
    &&& largest == double(ZERO) || values.contains(largest) && largest.above(double(ZERO))
    &&& forall|i: int| 0 <= i < values.len() ==> !(#[trigger] values[i]).above(largest)
}

/// The largest of zero and the numbers of a sequence, whatever is no number
/// left out, and of equal ones the first.
pub open spec fn largest_of(values: Seq<Float64>) -> Float64
    decreases values.len(),
{
    if values.len() == 0 {
        double(ZERO)
    } else {
        largest_of(values.drop_last()).larger(values.last())
    }
}

/// The largest number is the largest. It stays below a limit exactly where no
/// number reaches the limit.
pub proof fn law_largest_number_decides(values: Seq<Float64>, limit: Float64)
    requires
        limit.above(double(ZERO)),
    ensures
        is_largest(largest_of(values), values),
        limit.above(largest_of(values)) <==> forall|i: int|
            0 <= i < values.len() ==> !(#[trigger] values[i]).reaches(limit),
    decreases values.len(),
{
    if values.len() > 0 {
        let fewer = values.drop_last();
        law_largest_number_decides(fewer, limit);
        let best = largest_of(fewer);
        let last = values[values.len() - 1];
        assert(values.last() == last);
        assert(forall|i: int| 0 <= i < fewer.len() ==> fewer[i] == values[i]);
        if fewer.contains(best) {
            let i = choose|i: int| 0 <= i < fewer.len() && fewer[i] == best;
            assert(values[i] == best);
        }
        assert(values.contains(last));
        if forall|i: int| 0 <= i < values.len() ==> !(#[trigger] values[i]).reaches(limit) {
            assert forall|i: int| 0 <= i < fewer.len() implies !(#[trigger] fewer[i]).reaches(
                limit,
            ) by {
                assert(!values[i].reaches(limit));
            }
            assert(!last.reaches(limit));
        } else {
            let i = choose|i: int| 0 <= i < values.len() && (#[trigger] values[i]).reaches(limit);
            if i < fewer.len() {
                assert(fewer[i].reaches(limit));
            }
        }
    }
}

/// Finds the largest of zero and the given numbers.
pub fn largest(values: &Vec<Float64>) -> (largest: Float64)
    ensures
        largest == largest_of(values@),
        is_largest(largest, values@),
{
    let mut best: Float64 = Float64 { bits: ZERO };
    let mut i: usize = 0;
    assert(values@.take(0) =~= seq![]);
    while i < values.len()
        invariant
            i <= values.len(),
            best == largest_of(values@.take(i as int)),
        decreases values.len() - i,
    {
        assert(values@.take(i + 1).drop_last() =~= values@.take(i as int));
        best = best.max(values[i]);
        i = i + 1;
    }
    assert(values@.take(i as int) =~= values@);
    proof {
        law_largest_number_decides(values@, double(INFINITY));
    }
    best
}

/// The smallest of the numbers of a sequence, whatever is no number left out;
/// infinity where there is none below it.
pub open spec fn is_smallest(smallest: Float64, values: Seq<Float64>) -> bool {
    &&& !smallest.nan()
    &&& smallest == double(INFINITY) || values.contains(smallest)
    &&& forall|i: int| 0 <= i < values.len() ==> !smallest.above(#[trigger] values[i])
}

/// The smallest of the given numbers.
pub fn smallest(values: &Vec<Float64>) -> (smallest: Float64)
    ensures
        is_smallest(smallest, values@),
{
    let mut best: Float64 = Float64 { bits: INFINITY };
    let mut i: usize = 0;
    while i < values.len()
        invariant
            i <= values.len(),
            is_smallest(best, values@.take(i as int)),
        decreases values.len() - i,
    {
        let ghost before = values@.take(i as int);
        let value: Float64 = values[i];
        let ghost now = values@.take(i + 1);
        proof {
            assert(now =~= before.push(value));
            assert(now[i as int] == value);
            assert(forall|j: int| 0 <= j < i ==> now[j] == before[j]);
            if before.contains(best) {
                let k = choose|k: int| 0 <= k < before.len() && before[k] == best;
                assert(now[k] == best);
            }
        }
        best = best.min(value);
        i = i + 1;
        assert(is_smallest(best, now));
    }
    assert(values@.take(i as int) =~= values@);
    best
}

} // verus!
