//! What limits that are given as bit patterns mean in numbers.
use vstd::arithmetic::power2::pow2;
use vstd::prelude::*;

#[allow(unused_imports)]
use crate::float_bits::{double, law_magnitudes_order_values, magnitude_units, Float32};
use crate::float_bits::Float64;

verus! {

impl Float64 {
    /// Whether this is a number, and at least `n`.
    pub open spec fn is_from(self, n: nat) -> bool {
        !self.nan() && self.units() >= n * pow2(1074)
    }

    /// Whether this is a number, and more than `n`.
    pub open spec fn is_beyond(self, n: nat) -> bool {
        !self.nan() && self.units() > n * pow2(1074)
    }

    /// Whether this is a number, and less than a fraction.
    pub open spec fn is_under(self, num: nat, den: nat) -> bool {
        !self.nan() && self.units() * den < num * pow2(1074)
    }
}

/// Numbers are ordered by their values, infinities among them.
proof fn lemma_order(a: Float64, b: Float64)
    requires
        !a.nan(),
        !b.nan(),
    ensures
        a.above(b) <==> a.units() > b.units(),
        a.reaches(b) <==> a.units() >= b.units(),
{
    law_magnitudes_order_values(a.magnitude(), b.magnitude(), 0x10_0000_0000_0000);
    law_magnitudes_order_values(a.magnitude(), 0, 0x10_0000_0000_0000);
    law_magnitudes_order_values(b.magnitude(), 0, 0x10_0000_0000_0000);
    assert(magnitude_units(0, 0x10_0000_0000_0000) == 0);
}

/// The value of a bit pattern with the exponent `exponent` and `digits` in
/// front of it.
proof fn lemma_value(bits: u64, exponent: nat, digits: nat)
    requires
        bits < 0x7FF0_0000_0000_0000,
        exponent > 0,
        bits as nat / 0x10_0000_0000_0000 == exponent,
        bits as nat % 0x10_0000_0000_0000 + 0x10_0000_0000_0000 == digits,
    ensures
        double(bits).units() == digits * pow2((exponent - 1) as nat),
{
}

/// A bit pattern that stands for a whole number.
proof fn lemma_whole(x: Float64, bits: u64, n: nat, exponent: nat)
    requires
        bits < 0x7FF0_0000_0000_0000,
        0 < exponent <= 1075,
        bits as nat / 0x10_0000_0000_0000 == exponent,
        bits as nat % 0x10_0000_0000_0000 + 0x10_0000_0000_0000 == n * pow2(
            (1075 - exponent) as nat,
        ),
    ensures
        x.reaches(double(bits)) <==> x.is_from(n),
        x.above(double(bits)) <==> x.is_beyond(n),
{
    let step = pow2((1075 - exponent) as nat);
    let scale = pow2((exponent - 1) as nat);
    lemma_value(bits, exponent, n * step);
    vstd::arithmetic::power2::lemma_pow2_adds((1075 - exponent) as nat, (exponent - 1) as nat);
    assert((n * step) * scale == n * (step * scale)) by (nonlinear_arith);
    if !x.nan() {
        lemma_order(x, double(bits));
    }
}

/// A bit pattern that stands for the smallest number that is not below a
/// fraction.
proof fn lemma_fraction(x: Float64, bits: u64, num: nat, den: nat, exponent: nat, digits: nat)
    requires
        bits < 0x7FF0_0000_0000_0000,
        den > 0,
        0 < exponent <= 1075,
        bits as nat / 0x10_0000_0000_0000 == exponent,
        bits as nat % 0x10_0000_0000_0000 + 0x10_0000_0000_0000 == digits,
        digits > 0x10_0000_0000_0000,
        (digits - 1) * den < num * pow2((1075 - exponent) as nat),
        num * pow2((1075 - exponent) as nat) < digits * den,
    ensures
        double(bits).above(x) <==> x.is_under(num, den),
{
    let near = pow2((1075 - exponent) as nat);
    let scale = pow2((exponent - 1) as nat);
    let before = (bits - 1) as u64;
    lemma_value(bits, exponent, digits);
    lemma_value(before, exponent, (digits - 1) as nat);
    vstd::arithmetic::power2::lemma_pow2_adds((1075 - exponent) as nat, (exponent - 1) as nat);
    vstd::arithmetic::power2::lemma_pow2_pos((exponent - 1) as nat);
    let limit = (digits * scale) as int;
    let under = ((digits - 1) * scale) as int;
    let whole = num * pow2(1074);
    assert(under * den < whole && whole < limit * den) by (nonlinear_arith)
        requires
            under == (digits - 1) * scale,
            limit == digits * scale,
            whole == num * (near * scale),
            (digits - 1) * den < num * near,
            num * near < digits * den,
            scale > 0,
    ;
    if !x.nan() {
        lemma_order(double(bits), x);
        lemma_order(double(before), x);
        let u = x.units();
        if double(bits).above(x) {
            assert(x.rank() <= double(before).rank());
            assert(u * den <= under * den) by (nonlinear_arith)
                requires
                    u <= under,
                    den > 0,
            ;
        } else {
            assert(limit * den <= u * den) by (nonlinear_arith)
                requires
                    limit <= u,
                    den > 0,
            ;
        }
    }
}

proof fn lemma_powers()
    ensures
        pow2(40) == 0x100_0000_0000,
        pow2(42) == 0x400_0000_0000,
        pow2(43) == 0x800_0000_0000,
        pow2(44) == 0x1000_0000_0000,
        pow2(45) == 0x2000_0000_0000,
        pow2(46) == 0x4000_0000_0000,
        pow2(47) == 0x8000_0000_0000,
        pow2(48) == 0x1_0000_0000_0000,
        pow2(49) == 0x2_0000_0000_0000,
        pow2(56) == 0x100_0000_0000_0000,
        pow2(60) == 0x1000_0000_0000_0000,
        pow2(62) == 0x4000_0000_0000_0000,
        pow2(66) == 0x4_0000_0000_0000_0000,
        pow2(69) == 0x20_0000_0000_0000_0000,
{
    vstd::arithmetic::power2::lemma2_to64();
    vstd::arithmetic::power2::lemma_pow2_adds(32, 8);
    vstd::arithmetic::power2::lemma_pow2_adds(32, 10);
    vstd::arithmetic::power2::lemma_pow2_adds(32, 11);
    vstd::arithmetic::power2::lemma_pow2_adds(32, 12);
    vstd::arithmetic::power2::lemma_pow2_adds(32, 13);
    vstd::arithmetic::power2::lemma_pow2_adds(32, 14);
    vstd::arithmetic::power2::lemma_pow2_adds(32, 15);
    vstd::arithmetic::power2::lemma_pow2_adds(32, 16);
    vstd::arithmetic::power2::lemma_pow2_adds(32, 17);
    vstd::arithmetic::power2::lemma_pow2_adds(32, 24);
    vstd::arithmetic::power2::lemma_pow2_adds(32, 28);
    vstd::arithmetic::power2::lemma_pow2_adds(32, 30);
    vstd::arithmetic::power2::lemma_pow2_adds(64, 2);
    vstd::arithmetic::power2::lemma_pow2_adds(64, 5);
}

/// The bit patterns of whole numbers stand for these numbers.
pub proof fn law_whole_limits(x: Float64)
    ensures
        x.reaches(double(0x4024_0000_0000_0000)) <==> x.is_from(10),
        x.above(double(0x402E_0000_0000_0000)) <==> x.is_beyond(15),
        x.above(double(0x4034_0000_0000_0000)) <==> x.is_beyond(20),
        x.above(double(0x403E_0000_0000_0000)) <==> x.is_beyond(30),
        x.reaches(double(0x4049_0000_0000_0000)) <==> x.is_from(50),
        x.reaches(double(0x4059_0000_0000_0000)) <==> x.is_from(100),
        x.reaches(double(0x4069_0000_0000_0000)) <==> x.is_from(200),
        x.reaches(double(0x4079_0000_0000_0000)) <==> x.is_from(400),
        x.reaches(double(0x407F_4000_0000_0000)) <==> x.is_from(500),
        x.reaches(double(0x408F_4000_0000_0000)) <==> x.is_from(1000),
        x.reaches(double(0x409F_4000_0000_0000)) <==> x.is_from(2000),
        x.reaches(double(0x40B3_8800_0000_0000)) <==> x.is_from(5000),
{
    lemma_powers();
    lemma_whole(x, 0x4024_0000_0000_0000, 10, 1026);
    lemma_whole(x, 0x402E_0000_0000_0000, 15, 1026);
    lemma_whole(x, 0x4034_0000_0000_0000, 20, 1027);
    lemma_whole(x, 0x403E_0000_0000_0000, 30, 1027);
    lemma_whole(x, 0x4049_0000_0000_0000, 50, 1028);
    lemma_whole(x, 0x4059_0000_0000_0000, 100, 1029);
    lemma_whole(x, 0x4069_0000_0000_0000, 200, 1030);
    lemma_whole(x, 0x4079_0000_0000_0000, 400, 1031);
    lemma_whole(x, 0x407F_4000_0000_0000, 500, 1031);
    lemma_whole(x, 0x408F_4000_0000_0000, 1000, 1032);
    lemma_whole(x, 0x409F_4000_0000_0000, 2000, 1033);
    lemma_whole(x, 0x40B3_8800_0000_0000, 5000, 1035);
}

/// The bit patterns of decimal fractions, which double precision rounds up, part
/// the numbers below these fractions from the others.
pub proof fn law_fraction_limits(x: Float64)
    ensures
        double(0x3FB9_9999_9999_999A).above(x) <==> x.is_under(1, 10),
        double(0x3F74_7AE1_47AE_147B).above(x) <==> x.is_under(5, 1000),
        double(0x3F50_624D_D2F1_A9FC).above(x) <==> x.is_under(1, 1000),
        double(0x3F1A_36E2_EB1C_432D).above(x) <==> x.is_under(1, 10_000),
        double(0x3EE4_F8B5_88E3_68F1).above(x) <==> x.is_under(1, 100_000),
{
    lemma_powers();
    lemma_fraction(x, 0x3FB9_9999_9999_999A, 1, 10, 1019, 7205759403792794);
    lemma_fraction(x, 0x3F74_7AE1_47AE_147B, 5, 1000, 1015, 5764607523034235);
    lemma_fraction(x, 0x3F50_624D_D2F1_A9FC, 1, 1000, 1013, 4611686018427388);
    lemma_fraction(x, 0x3F1A_36E2_EB1C_432D, 1, 10_000, 1009, 7378697629483821);
    lemma_fraction(x, 0x3EE4_F8B5_88E3_68F1, 1, 100_000, 1006, 5902958103587057);
}

/// A bit pattern is no number where its exponent has all bits and its fraction is
/// not zero; it is finite where its exponent has not all bits. The rest are the two
/// infinities. The same holds in single precision.
pub proof fn law_patterns_are_told_apart(x: Float64, y: Float32)
    ensures
        ({
            let exponent = (x.bits / 0x10_0000_0000_0000) % 0x800;
            let fraction = x.bits % 0x10_0000_0000_0000;
            &&& x.nan() <==> exponent == 0x7FF && fraction != 0
            &&& x.finite() <==> exponent != 0x7FF
        }),
        ({
            let exponent = (y.bits / 0x80_0000) % 0x100;
            let fraction = y.bits % 0x80_0000;
            &&& y.nan() <==> exponent == 0xFF && fraction != 0
            &&& y.finite() <==> exponent != 0xFF
        }),
{
}

/// What is no number is neither above nor below anything, does not reach anything,
/// and equals nothing, not even itself. Infinity is above every other number, and
/// both zeros are equal.
pub proof fn law_comparisons_need_numbers(a: Float64, b: Float64, x: Float32, y: Float32)
    ensures
        a.nan() || b.nan() ==> !a.above(b) && !a.reaches(b),
        !a.nan() && !b.nan() ==> (a.reaches(b) <==> !b.above(a)),
        a.above(b) ==> a.reaches(b) && !b.reaches(a),
        !b.nan() && b.bits != 0x7FF0_0000_0000_0000 ==> double(0x7FF0_0000_0000_0000).above(b),
        double(0).reaches(double(0x8000_0000_0000_0000)) && double(0x8000_0000_0000_0000).reaches(
            double(0),
        ),
        x.nan() || y.nan() ==> !x.equals(y),
        !x.nan() && x.bits == y.bits ==> x.equals(y),
        x.equals(y) && x.bits != y.bits ==> x.bits % 0x8000_0000 == 0 && y.bits % 0x8000_0000 == 0,
        x.bits % 0x8000_0000 == 0 && y.bits % 0x8000_0000 == 0 ==> x.equals(y),
{
}

} // verus!
