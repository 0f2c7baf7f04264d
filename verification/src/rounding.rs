//! Rounding to single precision, and the product of two single-precision
//! numbers.
//!
//! Values are counted in units of 2 to the power of -149, the smallest positive
//! number of single precision, and given as fractions of whole numbers.
use vstd::arithmetic::power2::pow2;
use vstd::prelude::*;

use crate::float_bits::Float32;
#[allow(unused_imports)]
use crate::float_bits::{law_magnitudes_order_values, magnitude_units};
use crate::score::round;
#[allow(unused_imports)]
use crate::score::rounded;
#[allow(unused_imports)]
use crate::text_laws::law_rounding_is_nearest;

verus! {

/// How many binary digits a number has.
pub open spec fn bit_length(n: nat) -> nat
    decreases n,
{
    if n == 0 {
        0
    } else {
        bit_length(n / 2) + 1
    }
}

/// A number of `n` binary digits lies between two powers of two.
pub proof fn lemma_bit_length(n: nat)
    requires
        n > 0,
    ensures
        bit_length(n) > 0,
        pow2((bit_length(n) - 1) as nat) <= n,
        n < pow2(bit_length(n)),
    decreases n,
{
    vstd::arithmetic::power2::lemma2_to64();
    let half = n / 2;
    if half == 0 {
        assert(bit_length(0) == 0);
        assert(bit_length(n) == 1);
    } else {
        lemma_bit_length(half);
        let length = bit_length(half);
        vstd::arithmetic::power2::lemma_pow2_unfold(length);
        vstd::arithmetic::power2::lemma_pow2_unfold(length + 1);
    }
}

/// A number below a power of two has no more binary digits.
pub proof fn lemma_short(n: nat, digits: nat)
    requires
        n < pow2(digits),
    ensures
        bit_length(n) <= digits,
{
    if n > 0 {
        lemma_bit_length(n);
        if bit_length(n) > digits {
            let below = (bit_length(n) - 1) as nat;
            if digits < below {
                vstd::arithmetic::power2::lemma_pow2_strictly_increases(digits, below);
            }
        }
    }
}

/// A number shifted to the left has as many more binary digits.
proof fn lemma_longer(n: nat, shift: nat)
    requires
        n > 0,
    ensures
        bit_length(n * pow2(shift)) == bit_length(n) + shift,
        n * pow2(shift) > 0,
    decreases shift,
{
    vstd::arithmetic::power2::lemma2_to64();
    if shift > 0 {
        lemma_longer(n, (shift - 1) as nat);
        vstd::arithmetic::power2::lemma_pow2_unfold(shift);
        let less = n * pow2((shift - 1) as nat);
        assert(n * (2 * pow2((shift - 1) as nat)) == 2 * less) by (nonlinear_arith)
            requires
                less == n * pow2((shift - 1) as nat),
        ;
        assert((2 * less) / 2 == less);
    }
}

/// A number shifted to the right has as many fewer binary digits.
proof fn lemma_shorter(n: nat, shift: nat)
    ensures
        bit_length(n / pow2(shift)) == if bit_length(n) > shift {
            (bit_length(n) - shift) as nat
        } else {
            0
        },
    decreases shift,
{
    vstd::arithmetic::power2::lemma2_to64();
    if shift == 0 {
        assert(n / 1 == n);
    } else {
        let less = (shift - 1) as nat;
        vstd::arithmetic::power2::lemma_pow2_unfold(shift);
        vstd::arithmetic::power2::lemma_pow2_pos(less);
        vstd::arithmetic::div_mod::lemma_div_denominator(n as int, 2, pow2(less) as int);
        lemma_shorter(n / 2, less);
    }
}

/// The exponent of the single-precision numbers round a value: the value has
/// 24 binary digits above it, or it is zero.
pub open spec fn single_exponent(num: nat, den: nat) -> nat
    recommends
        den > 0,
{
    let length = bit_length(num / den);
    if length > 24 {
        (length - 24) as nat
    } else {
        0
    }
}

/// The binary digits of the single-precision number nearest to a value; of two
/// that are equally near, those that are even.
pub open spec fn single_digits(num: nat, den: nat) -> nat
    recommends
        den > 0,
{
    rounded(num, den * pow2(single_exponent(num, den)))
}

/// The value of the single-precision number nearest to a value, whatever its
/// size.
pub open spec fn nearest_units(num: nat, den: nat) -> nat
    recommends
        den > 0,
{
    single_digits(num, den) * pow2(single_exponent(num, den))
}

/// The bit pattern of the single-precision number nearest to a value; that of
/// infinity where the value is too large.
pub open spec fn nearest_magnitude(num: nat, den: nat) -> nat
    recommends
        den > 0,
{
    let magnitude = single_exponent(num, den) * 0x80_0000 + single_digits(num, den);
    if magnitude < 0x7F80_0000 {
        magnitude
    } else {
        0x7F80_0000
    }
}

/// A rounded fraction is near to it.
pub proof fn lemma_rounded_is_near(n: nat, unit: nat)
    requires
        unit > 0,
    ensures
        2 * (rounded(n, unit) * unit) <= 2 * n + unit,
        2 * n <= 2 * (rounded(n, unit) * unit) + unit,
{
    vstd::arithmetic::div_mod::lemma_fundamental_div_mod(n as int, unit as int);
    let below = n / unit;
    assert(unit * below == below * unit && (below + 1) * unit == below * unit + unit)
        by (nonlinear_arith);
}

/// A fraction does not round past a whole number.
proof fn lemma_rounded_stays(n: nat, unit: nat, low: nat, high: nat)
    requires
        unit > 0,
        low * unit <= n,
        n <= high * unit,
    ensures
        low <= rounded(n, unit) <= high,
{
    vstd::arithmetic::div_mod::lemma_fundamental_div_mod(n as int, unit as int);
    let below = n / unit;
    let rest = n % unit;
    assert(low <= below && below <= high) by (nonlinear_arith)
        requires
            n == unit * below + rest,
            0 <= rest < unit,
            low * unit <= n,
            n <= high * unit,
    ;
    if below == high {
        assert(unit * below == high * unit) by (nonlinear_arith)
            requires
                below == high,
        ;
        assert(rest == 0);
    }
}

/// The digits of a value fit, and a value with an exponent has all of them.
pub proof fn lemma_single_digits(num: nat, den: nat)
    requires
        den > 0,
    ensures
        single_digits(num, den) <= 0x100_0000,
        single_exponent(num, den) > 0 ==> single_digits(num, den) >= 0x80_0000,
{
    vstd::arithmetic::power2::lemma2_to64();
    let whole = num / den;
    let exponent = single_exponent(num, den);
    let step = pow2(exponent);
    vstd::arithmetic::power2::lemma_pow2_pos(exponent);
    vstd::arithmetic::power2::lemma_pow2_adds(24, exponent);
    let unit = den * step;
    assert(unit > 0) by (nonlinear_arith)
        requires
            unit == den * step,
            den > 0,
            step > 0,
    ;
    vstd::arithmetic::div_mod::lemma_fundamental_div_mod(num as int, den as int);
    let rest = num % den;
    if whole > 0 {
        lemma_bit_length(whole);
        if bit_length(whole) < 24 + exponent {
            vstd::arithmetic::power2::lemma_pow2_strictly_increases(
                bit_length(whole),
                24 + exponent,
            );
        }
    } else {
        vstd::arithmetic::power2::lemma_pow2_pos(24 + exponent);
    }
    assert(whole < 0x100_0000 * step);
    assert(num <= 0x100_0000 * unit) by (nonlinear_arith)
        requires
            num == den * whole + rest,
            0 <= rest < den,
            whole < 0x100_0000 * step,
            unit == den * step,
    ;
    let low: nat = if exponent > 0 {
        0x80_0000
    } else {
        0
    };
    if exponent > 0 {
        vstd::arithmetic::power2::lemma_pow2_adds(23, exponent);
        assert(0x80_0000 * step <= whole);
        assert(0x80_0000 * unit <= num) by (nonlinear_arith)
            requires
                num == den * whole + rest,
                0 <= rest,
                0x80_0000 * step <= whole,
                unit == den * step,
                den > 0,
        ;
    }
    lemma_rounded_stays(num, unit, low, 0x100_0000);
}

proof fn lemma_assembled(exponent: nat, digits: nat)
    requires
        digits <= 0x100_0000,
        exponent > 0 ==> digits >= 0x80_0000,
    ensures
        magnitude_units(exponent * 0x80_0000 + digits, 0x80_0000) == digits * pow2(exponent),
{
    vstd::arithmetic::power2::lemma2_to64();
    let magnitude = exponent * 0x80_0000 + digits;
    if digits < 0x80_0000 {
        assert(magnitude / 0x80_0000 == 0 && magnitude % 0x80_0000 == digits);
    } else if digits < 0x100_0000 {
        assert(magnitude / 0x80_0000 == exponent + 1);
        assert(magnitude % 0x80_0000 == digits - 0x80_0000);
    } else {
        assert(magnitude / 0x80_0000 == exponent + 2);
        assert(magnitude % 0x80_0000 == 0);
        vstd::arithmetic::power2::lemma_pow2_unfold(exponent + 1);
        let step = pow2(exponent);
        assert(0x80_0000 * (2 * step) == 0x100_0000 * step) by (nonlinear_arith);
    }
}

/// The bit pattern that is nearest to a value, where it is no infinity, stands
/// for the nearest value.
pub proof fn law_nearest_pattern_has_the_nearest_value(num: nat, den: nat)
    requires
        den > 0,
        nearest_magnitude(num, den) < 0x7F80_0000,
    ensures
        magnitude_units(nearest_magnitude(num, den), 0x80_0000) == nearest_units(num, den),
{
    lemma_single_digits(num, den);
    lemma_assembled(single_exponent(num, den), single_digits(num, den));
}

/// The value of the single-precision number nearest to a value of either sign.
pub open spec fn nearest_signed(units: int) -> int {
    if units >= 0 {
        nearest_units(units as nat, 1) as int
    } else {
        -(nearest_units((-units) as nat, 1) as int)
    }
}

/// A value of no more than `digits` binary digits is rounded by no more than
/// half of what the first 24 of them leave over.
pub proof fn law_rounding_errors_are_small(units: int, digits: nat)
    requires
        digits >= 24,
        -pow2(digits) < units < pow2(digits),
    ensures
        -pow2((digits - 24) as nat) <= 2 * (nearest_signed(units) - units) <= pow2(
            (digits - 24) as nat,
        ),
{
    let size: nat = if units >= 0 {
        units as nat
    } else {
        (-units) as nat
    };
    let most = (digits - 24) as nat;
    assert(size / 1 == size);
    lemma_short(size, digits);
    let exponent = single_exponent(size, 1);
    let step = pow2(exponent);
    vstd::arithmetic::power2::lemma_pow2_pos(exponent);
    if exponent < most {
        vstd::arithmetic::power2::lemma_pow2_strictly_increases(exponent, most);
    }
    assert(1 * step == step);
    lemma_rounded_is_near(size, step);
}

/// A number of single precision, and its double, are rounded to themselves.
pub proof fn law_singles_and_their_doubles_are_kept(value: Float32)
    ensures
        nearest_signed(value.units()) == value.units(),
        nearest_signed(2 * value.units()) == 2 * value.units(),
{
    let magnitude = value.magnitude();
    lemma_pattern(magnitude);
    let digits = pattern_digits(magnitude);
    let exponent = pattern_exponent(magnitude);
    lemma_kept(digits, exponent);
    vstd::arithmetic::power2::lemma2_to64();
    let step = pow2(exponent);
    if digits >= 0x80_0000 {
        vstd::arithmetic::power2::lemma_pow2_unfold(exponent + 1);
        lemma_kept(digits, exponent + 1);
        assert(digits * (2 * step) == 2 * (digits * step)) by (nonlinear_arith);
    } else {
        lemma_kept(2 * digits, 0);
        assert(digits * 1 == digits && (2 * digits) * 1 == 2 * digits) by (nonlinear_arith);
    }
    assert(nearest_units(0, 1) == 0) by {
        lemma_kept(0, 0);
    }
}

/// No more than 24 binary digits are rounded to themselves.
proof fn lemma_kept(digits: nat, exponent: nat)
    requires
        digits < 0x100_0000,
        exponent > 0 ==> digits >= 0x80_0000,
    ensures
        nearest_units(digits * pow2(exponent), 1) == digits * pow2(exponent),
{
    vstd::arithmetic::power2::lemma2_to64();
    let step = pow2(exponent);
    let units = digits * step;
    assert(units / 1 == units);
    vstd::arithmetic::power2::lemma_pow2_pos(exponent);
    lemma_short(digits, 24);
    if exponent > 0 {
        lemma_longer(digits, exponent);
        lemma_bit_length(digits);
        if bit_length(digits) < 24 {
            if bit_length(digits) < 23 {
                vstd::arithmetic::power2::lemma_pow2_strictly_increases(bit_length(digits), 23);
            }
        }
        assert(bit_length(digits) == 24);
    } else {
        assert(digits * 1 == digits);
    }
    assert(single_exponent(units, 1) == exponent);
    assert(1 * step == step);
    lemma_rounded_stays(units, step, digits, digits);
}

/// The binary digits of a bit pattern.
pub open spec fn pattern_digits(magnitude: nat) -> nat {
    if magnitude / 0x80_0000 == 0 {
        magnitude % 0x80_0000
    } else {
        0x80_0000 + magnitude % 0x80_0000
    }
}

/// The exponent of a bit pattern.
pub open spec fn pattern_exponent(magnitude: nat) -> nat {
    if magnitude / 0x80_0000 == 0 {
        0
    } else {
        (magnitude / 0x80_0000 - 1) as nat
    }
}

proof fn lemma_pattern(magnitude: nat)
    ensures
        magnitude_units(magnitude, 0x80_0000) == pattern_digits(magnitude) * pow2(
            pattern_exponent(magnitude),
        ),
        pattern_digits(magnitude) < 0x100_0000,
        pattern_exponent(magnitude) > 0 ==> pattern_digits(magnitude) >= 0x80_0000,
{
    vstd::arithmetic::power2::lemma2_to64();
    let digits = pattern_digits(magnitude);
    let step = pow2(pattern_exponent(magnitude));
    if magnitude / 0x80_0000 == 0 {
        assert(digits * step == digits) by (nonlinear_arith)
            requires
                step == 1,
        ;
    }
}

/// The exponent of a value is not above that of a bit pattern that is not
/// below it.
proof fn lemma_exponent_below(num: nat, den: nat, magnitude: nat)
    requires
        den > 0,
        num <= den * magnitude_units(magnitude, 0x80_0000),
    ensures
        single_exponent(num, den) <= pattern_exponent(magnitude),
{
    let whole = num / den;
    let value = magnitude_units(magnitude, 0x80_0000);
    let exponent = pattern_exponent(magnitude);
    let digits = pattern_digits(magnitude);
    lemma_pattern(magnitude);
    vstd::arithmetic::power2::lemma2_to64();
    vstd::arithmetic::power2::lemma_pow2_pos(exponent);
    vstd::arithmetic::power2::lemma_pow2_adds(24, exponent);
    vstd::arithmetic::div_mod::lemma_fundamental_div_mod(num as int, den as int);
    let rest = num % den;
    assert(whole <= value) by (nonlinear_arith)
        requires
            num == den * whole + rest,
            0 <= rest,
            num <= den * value,
            den > 0,
    ;
    let step = pow2(exponent);
    assert(digits * step < 0x100_0000 * step) by (nonlinear_arith)
        requires
            digits < 0x100_0000,
            step > 0,
    ;
    lemma_short(whole, 24 + exponent);
}

/// A value that a bit pattern reaches does not round to more than it.
pub proof fn lemma_rounds_to_no_more(num: nat, den: nat, magnitude: nat)
    requires
        den > 0,
        magnitude < 0x7F80_0000,
        num <= den * magnitude_units(magnitude, 0x80_0000),
    ensures
        nearest_magnitude(num, den) <= magnitude,
{
    let exponent = single_exponent(num, den);
    let upper = pattern_exponent(magnitude);
    let digits = pattern_digits(magnitude);
    lemma_pattern(magnitude);
    lemma_exponent_below(num, den, magnitude);
    let more = (upper - exponent) as nat;
    vstd::arithmetic::power2::lemma_pow2_adds(more, exponent);
    vstd::arithmetic::power2::lemma_pow2_pos(exponent);
    let step = pow2(exponent);
    let unit = den * step;
    let limit = digits * pow2(more);
    assert(unit > 0) by (nonlinear_arith)
        requires
            unit == den * step,
            den > 0,
            step > 0,
    ;
    assert(den * (digits * (pow2(more) * step)) == limit * unit) by (nonlinear_arith)
        requires
            limit == digits * pow2(more),
            unit == den * step,
    ;
    lemma_rounded_stays(num, unit, 0, limit);
    let got = single_digits(num, den);
    assert(got * step <= limit * step) by (nonlinear_arith)
        requires
            got <= limit,
            step > 0,
    ;
    assert(limit * step == digits * (pow2(more) * step)) by (nonlinear_arith)
        requires
            limit == digits * pow2(more),
    ;
    lemma_single_digits(num, den);
    lemma_assembled(exponent, got);
    law_magnitudes_order_values(magnitude, exponent * 0x80_0000 + got, 0x80_0000);
}

/// A value that stays a little below a bit pattern does not round up to it,
/// unless the pattern is so small that the next one below is further away.
pub proof fn lemma_rounds_below(num: nat, den: nat, magnitude: nat)
    requires
        den > 0,
        0x80_0000 < magnitude < 0x7F80_0000,
        num * 0x100_0000 <= (den * magnitude_units(magnitude, 0x80_0000)) * 0xFF_FFFF,
    ensures
        nearest_magnitude(num, den) < magnitude,
{
    let exponent = single_exponent(num, den);
    let upper = pattern_exponent(magnitude);
    let digits = pattern_digits(magnitude);
    let value = magnitude_units(magnitude, 0x80_0000);
    lemma_pattern(magnitude);
    let top = den * value;
    assert(num <= top);
    lemma_exponent_below(num, den, magnitude);
    lemma_rounds_to_no_more(num, den, magnitude);
    vstd::arithmetic::power2::lemma2_to64();
    vstd::arithmetic::power2::lemma_pow2_pos(exponent);
    let step = pow2(exponent);
    let high = pow2(upper);
    assert(0x80_0000 <= digits);
    if exponent < upper {
        vstd::arithmetic::power2::lemma_pow2_strictly_increases(exponent, upper);
    }
    assert(0x80_0000 * step < digits * high) by {
        if exponent == upper {
            if digits == 0x80_0000 {
                lemma_power_of_two_from_below(num, den, upper);
            }
            assert(0x80_0000 * step < digits * high) by (nonlinear_arith)
                requires
                    step == high,
                    high > 0,
                    digits > 0x80_0000,
            ;
        } else {
            assert(0x80_0000 * step < digits * high) by (nonlinear_arith)
                requires
                    step < high,
                    digits >= 0x80_0000,
                    step > 0,
            ;
        }
    }
    let unit = den * step;
    assert(unit > 0 && 0x80_0000 * unit < top) by (nonlinear_arith)
        requires
            unit == den * step,
            top == den * value,
            value == digits * high,
            0x80_0000 * step < digits * high,
            den > 0,
            step > 0,
    ;
    lemma_rounded_is_near(num, unit);
    let got = single_digits(num, den);
    if nearest_magnitude(num, den) == magnitude {
        law_nearest_pattern_has_the_nearest_value(num, den);
        assert(got * step == value);
        assert(got * unit == top) by (nonlinear_arith)
            requires
                unit == den * step,
                top == den * value,
                got * step == value,
        ;
        assert(false);
    }
}

/// A value below a power of two has a lower exponent than it.
proof fn lemma_power_of_two_from_below(num: nat, den: nat, upper: nat)
    requires
        den > 0,
        upper > 0,
        num * 0x100_0000 <= (den * (0x80_0000 * pow2(upper))) * 0xFF_FFFF,
    ensures
        single_exponent(num, den) < upper,
{
    vstd::arithmetic::power2::lemma2_to64();
    vstd::arithmetic::power2::lemma_pow2_pos(upper);
    vstd::arithmetic::power2::lemma_pow2_adds(23, upper);
    let value = 0x80_0000 * pow2(upper);
    let whole = num / den;
    vstd::arithmetic::div_mod::lemma_fundamental_div_mod(num as int, den as int);
    let rest = num % den;
    let top = den * value;
    assert(top > 0) by (nonlinear_arith)
        requires
            top == den * value,
            den > 0,
            value > 0,
    ;
    assert(num < top);
    assert(whole < value) by (nonlinear_arith)
        requires
            num == den * whole + rest,
            0 <= rest,
            num < den * value,
            den > 0,
    ;
    lemma_short(whole, 23 + upper);
}

/// Rounding a fraction whose terms have a common factor.
proof fn lemma_common_factor(num: nat, den: nat, factor: nat)
    requires
        den > 0,
        factor > 0,
    ensures
        rounded(factor * num, factor * den) == rounded(num, den),
        (factor * num) / (factor * den) == num / den,
{
    vstd::arithmetic::div_mod::lemma_fundamental_div_mod(num as int, den as int);
    let below = num / den;
    let rest = num % den;
    assert(factor * num == below * (factor * den) + factor * rest && 0 <= factor * rest && factor
        * rest < factor * den) by (nonlinear_arith)
        requires
            num == den * below + rest,
            0 <= rest < den,
            factor > 0,
    ;
    vstd::arithmetic::div_mod::lemma_fundamental_div_mod_converse(
        (factor * num) as int,
        (factor * den) as int,
        below as int,
        (factor * rest) as int,
    );
    assert((2 * rest < den <==> 2 * (factor * rest) < factor * den) && (2 * rest > den <==> 2 * (
    factor * rest) > factor * den)) by (nonlinear_arith)
        requires
            factor > 0,
    ;
}

/// The nearest number does not depend on how a value is written.
proof fn lemma_same_value(num: nat, den: nat, factor: nat)
    requires
        den > 0,
        factor > 0,
    ensures
        nearest_magnitude(factor * num, factor * den) == nearest_magnitude(num, den),
{
    lemma_common_factor(num, den, factor);
    let step = pow2(single_exponent(num, den));
    vstd::arithmetic::power2::lemma_pow2_pos(single_exponent(num, den));
    let unit = den * step;
    assert(unit > 0 && (factor * den) * step == factor * unit) by (nonlinear_arith)
        requires
            unit == den * step,
            den > 0,
            step > 0,
    ;
    lemma_common_factor(num, unit, factor);
}

fn count_bits(n: u64) -> (length: u32)
    ensures
        length == bit_length(n as nat),
        length <= 64,
{
    proof {
        vstd::arithmetic::power2::lemma2_to64();
        lemma_short(n as nat, 64);
    }
    let mut rest: u64 = n;
    let mut length: u32 = 0;
    while rest > 0
        invariant
            length + bit_length(rest as nat) == bit_length(n as nat),
            bit_length(n as nat) <= 64,
        decreases rest,
    {
        rest = rest / 2;
        length = length + 1;
    }
    length
}

fn power_of_two(exponent: u32) -> (power: u64)
    requires
        exponent < 64,
    ensures
        power == pow2(exponent as nat),
{
    proof {
        vstd::arithmetic::power2::lemma2_to64();
    }
    let mut power: u64 = 1;
    let mut i: u32 = 0;
    while i < exponent
        invariant
            i <= exponent,
            exponent < 64,
            power == pow2(i as nat),
        decreases exponent - i,
    {
        proof {
            vstd::arithmetic::power2::lemma2_to64();
            vstd::arithmetic::power2::lemma_pow2_unfold((i + 1) as nat);
            if i + 1 < 63 {
                vstd::arithmetic::power2::lemma_pow2_strictly_increases((i + 1) as nat, 63);
            }
            assert(pow2(63) == 0x8000_0000_0000_0000) by {
                vstd::arithmetic::power2::lemma_pow2_unfold(64);
            }
        }
        power = power * 2;
        i = i + 1;
    }
    power
}

/// The numerator of a number times a power of two.
pub open spec fn shifted_num(n: nat, shift: int) -> nat {
    if shift >= 0 {
        n * pow2(shift as nat)
    } else {
        n
    }
}

/// The denominator of a number times a power of two.
pub open spec fn shifted_den(shift: int) -> nat {
    if shift >= 0 {
        1
    } else {
        pow2((-shift) as nat)
    }
}

proof fn lemma_shifted(n: nat, shift: int)
    requires
        n > 0,
    ensures
        shifted_den(shift) > 0,
        single_exponent(shifted_num(n, shift), shifted_den(shift)) == if bit_length(n) + shift > 24 {
            (bit_length(n) + shift - 24) as nat
        } else {
            0
        },
{
    if shift >= 0 {
        lemma_longer(n, shift as nat);
        assert(shifted_num(n, shift) / 1 == shifted_num(n, shift));
    } else {
        vstd::arithmetic::power2::lemma_pow2_pos((-shift) as nat);
        lemma_shorter(n, (-shift) as nat);
    }
}

/// The digits of a number times a power of two, where they are all there.
proof fn lemma_exact_digits(n: nat, shift: int, exponent: nat)
    requires
        n > 0,
        exponent <= shift,
        exponent == single_exponent(shifted_num(n, shift), shifted_den(shift)),
    ensures
        single_digits(shifted_num(n, shift), shifted_den(shift)) == n * pow2(
            (shift - exponent) as nat,
        ),
{
    let more = (shift - exponent) as nat;
    let digits = n * pow2(more);
    let unit = pow2(exponent);
    vstd::arithmetic::power2::lemma_pow2_adds(more, exponent);
    vstd::arithmetic::power2::lemma_pow2_pos(exponent);
    assert(n * (pow2(more) * unit) == digits * unit) by (nonlinear_arith)
        requires
            digits == n * pow2(more),
    ;
    assert(1 * unit == unit);
    lemma_rounded_stays(digits * unit, unit, digits, digits);
}

/// The digits of a number times a power of two, where some are cut off.
proof fn lemma_cut_digits(n: nat, shift: int, exponent: nat)
    requires
        n > 0,
        exponent > shift,
        exponent == single_exponent(shifted_num(n, shift), shifted_den(shift)),
    ensures
        single_digits(shifted_num(n, shift), shifted_den(shift)) == rounded(
            n,
            pow2((exponent - shift) as nat),
        ),
{
    let cut = (exponent - shift) as nat;
    vstd::arithmetic::power2::lemma_pow2_pos(cut);
    if shift >= 0 {
        let factor = pow2(shift as nat);
        vstd::arithmetic::power2::lemma_pow2_pos(shift as nat);
        vstd::arithmetic::power2::lemma_pow2_adds(shift as nat, cut);
        lemma_common_factor(n, pow2(cut), factor);
        assert(n * factor == factor * n) by (nonlinear_arith);
        assert(1 * pow2(exponent) == pow2(exponent));
    } else {
        vstd::arithmetic::power2::lemma_pow2_adds((-shift) as nat, exponent);
    }
}

/// The bit pattern of the single-precision number nearest to a number times a
/// power of two.
fn nearest(n: u64, shift: i32) -> (magnitude: u32)
    requires
        n < 0x1_0000_0000_0000,
        -149 <= shift <= 400,
    ensures
        magnitude == nearest_magnitude(
            shifted_num(n as nat, shift as int),
            shifted_den(shift as int),
        ),
{
    if n == 0 {
        proof {
            lemma_nothing(shift as int);
        }
        return 0;
    }
    let length: i32 = count_bits(n) as i32;
    proof {
        vstd::arithmetic::power2::lemma2_to64();
        vstd::arithmetic::power2::lemma_pow2_adds(24, 24);
        lemma_short(n as nat, 48);
        lemma_bit_length(n as nat);
        lemma_shifted(n as nat, shift as int);
        lemma_single_digits(shifted_num(n as nat, shift as int), shifted_den(shift as int));
    }
    let exponent: i32 = if length + shift > 24 {
        length + shift - 24
    } else {
        0
    };
    let digits: u64 = if exponent <= shift {
        proof {
            lemma_exact_digits(n as nat, shift as int, exponent as nat);
        }
        n * power_of_two((shift - exponent) as u32)
    } else {
        proof {
            lemma_cut_digits(n as nat, shift as int, exponent as nat);
        }
        let cut: i32 = exponent - shift;
        if cut >= 60 {
            proof {
                lemma_all_cut(n as nat, cut as nat);
            }
            0
        } else {
            proof {
                vstd::arithmetic::power2::lemma_pow2_pos(cut as nat);
            }
            round(n as u128, power_of_two(cut as u32) as u128) as u64
        }
    };
    let magnitude: u32 = exponent as u32 * 0x80_0000 + digits as u32;
    if magnitude < 0x7F80_0000 {
        magnitude
    } else {
        0x7F80_0000
    }
}

proof fn lemma_nothing(shift: int)
    ensures
        nearest_magnitude(shifted_num(0, shift), shifted_den(shift)) == 0,
{
    let den = shifted_den(shift);
    if shift >= 0 {
        assert(0 * pow2(shift as nat) == 0) by (nonlinear_arith);
    } else {
        vstd::arithmetic::power2::lemma_pow2_pos((-shift) as nat);
    }
    vstd::arithmetic::power2::lemma2_to64();
    vstd::arithmetic::div_mod::lemma_div_of0(den as int);
    assert(bit_length(0) == 0);
    assert(den * 1 == den);
    lemma_rounded_stays(0, den, 0, 0);
}

proof fn lemma_all_cut(n: nat, cut: nat)
    requires
        n < 0x1_0000_0000_0000,
        cut >= 60,
    ensures
        rounded(n, pow2(cut)) == 0,
{
    vstd::arithmetic::power2::lemma2_to64();
    vstd::arithmetic::power2::lemma_pow2_adds(28, 32);
    if cut > 60 {
        vstd::arithmetic::power2::lemma_pow2_strictly_increases(60, cut);
    }
    vstd::arithmetic::div_mod::lemma_basic_div(n as int, pow2(cut) as int);
    vstd::arithmetic::div_mod::lemma_small_mod(n, pow2(cut));
}

/// The bit pattern of the single-precision number nearest to a number of
/// 2 to the power of -30.
pub fn nearest_of_small_units(n: u32) -> (magnitude: u32)
    ensures
        magnitude == nearest_magnitude(n as nat * pow2(119), 1),
{
    nearest(n as u64, 119)
}

/// Whether a product has no value: one factor has none, or an infinity meets a
/// zero.
pub open spec fn no_product(a: Float32, b: Float32) -> bool {
    ||| a.nan()
    ||| b.nan()
    ||| a.magnitude() == 0x7F80_0000 && b.magnitude() == 0
    ||| a.magnitude() == 0 && b.magnitude() == 0x7F80_0000
}

/// The bit pattern of a product without its sign: the nearest to the exact
/// product.
pub open spec fn product_magnitude(a: Float32, b: Float32) -> nat {
    if a.magnitude() == 0x7F80_0000 || b.magnitude() == 0x7F80_0000 {
        0x7F80_0000
    } else {
        nearest_magnitude(
            magnitude_units(a.magnitude(), 0x80_0000) * magnitude_units(b.magnitude(), 0x80_0000),
            pow2(149),
        )
    }
}

/// Whether a number is the product of two in single precision. A product that
/// has no value is any bit pattern that is no number.
pub open spec fn is_product(product: Float32, a: Float32, b: Float32) -> bool {
    if no_product(a, b) {
        product.nan()
    } else {
        &&& product.magnitude() == product_magnitude(a, b)
        &&& product.bits >= 0x8000_0000 <==> (a.bits >= 0x8000_0000) != (b.bits >= 0x8000_0000)
    }
}

proof fn lemma_product(a: nat, b: nat)
    ensures
        nearest_magnitude(
            magnitude_units(a, 0x80_0000) * magnitude_units(b, 0x80_0000),
            pow2(149),
        ) == nearest_magnitude(
            shifted_num(
                pattern_digits(a) * pattern_digits(b),
                pattern_exponent(a) + pattern_exponent(b) - 149,
            ),
            shifted_den(pattern_exponent(a) + pattern_exponent(b) - 149),
        ),
{
    lemma_pattern(a);
    lemma_pattern(b);
    let x = pattern_digits(a);
    let y = pattern_digits(b);
    let e = pattern_exponent(a);
    let f = pattern_exponent(b);
    let n = x * y;
    let shift = e + f - 149;
    vstd::arithmetic::power2::lemma_pow2_adds(e, f);
    let power = pow2(e + f);
    assert((x * pow2(e)) * (y * pow2(f)) == n * power) by (nonlinear_arith)
        requires
            n == x * y,
            power == pow2(e) * pow2(f),
    ;
    vstd::arithmetic::power2::lemma_pow2_pos(149);
    vstd::arithmetic::power2::lemma_pow2_pos(e + f);
    if shift >= 0 {
        let rest = pow2(shift as nat);
        let factor = pow2(149);
        vstd::arithmetic::power2::lemma_pow2_adds(149, shift as nat);
        assert(n * (factor * rest) == factor * (n * rest)) by (nonlinear_arith);
        lemma_same_value(n * rest, 1, factor);
        assert(factor * 1 == factor);
    } else {
        let rest = pow2((-shift) as nat);
        vstd::arithmetic::power2::lemma_pow2_adds(e + f, (-shift) as nat);
        vstd::arithmetic::power2::lemma_pow2_pos((-shift) as nat);
        assert(n * power == power * n) by (nonlinear_arith);
        lemma_same_value(n, rest, power);
    }
}

fn split_pattern(magnitude: u32) -> (parts: (u64, i32))
    requires
        magnitude < 0x7F80_0000,
    ensures
        parts.0 == pattern_digits(magnitude as nat),
        parts.1 == pattern_exponent(magnitude as nat),
        parts.0 < 0x100_0000,
        0 <= parts.1 <= 253,
{
    let exponent: u32 = magnitude / 0x80_0000;
    let fraction: u32 = magnitude % 0x80_0000;
    if exponent == 0 {
        (fraction as u64, 0)
    } else {
        (0x80_0000 + fraction as u64, (exponent - 1) as i32)
    }
}

/// The product of two numbers in single precision.
pub fn multiply(a: Float32, b: Float32) -> (product: Float32)
    ensures
        is_product(product, a, b),
{
    let negative: bool = (a.bits >= 0x8000_0000) != (b.bits >= 0x8000_0000);
    let first: u32 = if a.bits >= 0x8000_0000 {
        a.bits - 0x8000_0000
    } else {
        a.bits
    };
    let second: u32 = if b.bits >= 0x8000_0000 {
        b.bits - 0x8000_0000
    } else {
        b.bits
    };
    if first > 0x7F80_0000 || second > 0x7F80_0000 {
        return Float32 { bits: 0x7FC0_0000 };
    }
    if first == 0x7F80_0000 || second == 0x7F80_0000 {
        if first == 0 || second == 0 {
            return Float32 { bits: 0x7FC0_0000 };
        }
        return Float32 {
            bits: if negative {
                0xFF80_0000
            } else {
                0x7F80_0000
            },
        };
    }
    let (x, e) = split_pattern(first);
    let (y, f) = split_pattern(second);
    proof {
        assert(x * y < 0x1_0000_0000_0000) by (nonlinear_arith)
            requires
                0 <= x < 0x100_0000,
                0 <= y < 0x100_0000,
        ;
        lemma_product(first as nat, second as nat);
    }
    let magnitude: u32 = nearest(x * y, e + f - 149);
    Float32 {
        bits: if negative {
            magnitude + 0x8000_0000
        } else {
            magnitude
        },
    }
}

/// A product that single precision holds is exact: where the values of two finite
/// numbers multiply to that of a third, the product has its value.
pub proof fn law_exact_products_are_exact(a: Float32, b: Float32, exact: Float32, product: Float32)
    requires
        a.finite(),
        b.finite(),
        exact.finite(),
        a.units() * b.units() == exact.units() * pow2(149),
        is_product(product, a, b),
    ensures
        product.finite(),
        product.units() == exact.units(),
{
    let x = magnitude_units(a.magnitude(), 0x80_0000) as int;
    let y = magnitude_units(b.magnitude(), 0x80_0000) as int;
    let z = magnitude_units(exact.magnitude(), 0x80_0000) as int;
    let one = pow2(149) as int;
    vstd::arithmetic::power2::lemma_pow2_pos(149);
    assert(x * y == one * z) by (nonlinear_arith)
        requires
            a.units() * b.units() == exact.units() * one,
            a.units() == x || a.units() == -x,
            b.units() == y || b.units() == -y,
            exact.units() == z || exact.units() == -z,
            x >= 0,
            y >= 0,
            z >= 0,
            one > 0,
    ;
    assert(one * 1 == one);
    lemma_same_value(z as nat, 1, one as nat);
    let magnitude = exact.magnitude();
    lemma_pattern(magnitude);
    lemma_kept(pattern_digits(magnitude), pattern_exponent(magnitude));
    assert(z <= 1 * z);
    lemma_rounds_to_no_more(z as nat, 1, magnitude);
    law_nearest_pattern_has_the_nearest_value(z as nat, 1);
    law_magnitudes_order_values(nearest_magnitude(z as nat, 1), magnitude, 0x80_0000);
    assert(product.magnitude() == magnitude);
    if z > 0 {
        assert((a.units() < 0) != (b.units() < 0) <==> exact.units() < 0) by (nonlinear_arith)
            requires
                a.units() * b.units() == exact.units() * one,
                one > 0,
                exact.units() == z || exact.units() == -z,
                z > 0,
        ;
        assert(x > 0 && y > 0) by (nonlinear_arith)
            requires
                x * y == one * z,
                one > 0,
                z > 0,
                x >= 0,
                y >= 0,
        ;
    }
}

/// The order of the factors does not matter, and the sign of a product is that of
/// its factors together. A product with something that is no number is no number.
pub proof fn law_factors_can_be_swapped(a: Float32, b: Float32, product: Float32)
    requires
        is_product(product, a, b),
    ensures
        is_product(product, b, a),
        a.nan() || b.nan() ==> product.nan(),
        a.finite() && b.finite() ==> !product.nan(),
        a.finite() && b.finite() && a.units() >= 0 && b.units() >= 0 ==> product.units() >= 0,
{
    let x = magnitude_units(a.magnitude(), 0x80_0000);
    let y = magnitude_units(b.magnitude(), 0x80_0000);
    assert(x * y == y * x) by (nonlinear_arith);
    law_magnitudes_order_values(a.magnitude(), 0, 0x80_0000);
    law_magnitudes_order_values(b.magnitude(), 0, 0x80_0000);
    assert(magnitude_units(0, 0x80_0000) == 0);
    if a.finite() && b.finite() && (x == 0 || y == 0) {
        assert(x * y == 0) by (nonlinear_arith)
            requires
                x == 0 || y == 0,
        ;
        vstd::arithmetic::power2::lemma_pow2_pos(149);
        lemma_rounds_to_no_more(0, pow2(149), 0);
    }
}

/// Among the numbers with as many digits behind the point the nearest is taken, and
/// of two that are as near the one with the even digits.
pub proof fn law_nearest_digits_are_nearest(num: nat, den: nat, other: nat)
    requires
        den > 0,
    ensures
        ({
            let unit = den * pow2(single_exponent(num, den));
            let off = single_digits(num, den) * unit - num;
            let other_off = other * unit - num;
            &&& -other_off <= off <= other_off || other_off <= off <= -other_off
            &&& 2 * (num % unit) == unit ==> single_digits(num, den) % 2 == 0
        }),
{
    let unit = den * pow2(single_exponent(num, den));
    vstd::arithmetic::power2::lemma_pow2_pos(single_exponent(num, den));
    assert(unit > 0) by (nonlinear_arith)
        requires
            unit == den * pow2(single_exponent(num, den)),
            den > 0,
            pow2(single_exponent(num, den)) > 0,
    ;
    law_rounding_is_nearest(num, unit, other);
}

/// A value from 2 to the power of 128 on, which is 2 to the power of 277 units, is
/// rounded to infinity, and one that single precision holds is not.
pub proof fn law_large_values_are_infinite(num: nat, den: nat, value: Float32)
    requires
        den > 0,
        value.finite(),
    ensures
        num >= den * pow2(277) ==> nearest_magnitude(num, den) == 0x7F80_0000,
        num <= den * magnitude_units(value.magnitude(), 0x80_0000) ==> nearest_magnitude(num, den)
            <= value.magnitude(),
{
    if num >= den * pow2(277) {
        let whole = num / den;
        vstd::arithmetic::div_mod::lemma_div_is_ordered(
            (den * pow2(277)) as int,
            num as int,
            den as int,
        );
        vstd::arithmetic::div_mod::lemma_div_multiples_vanish(pow2(277) as int, den as int);
        vstd::arithmetic::power2::lemma_pow2_pos(277);
        lemma_bit_length(whole);
        if bit_length(whole) < 277 {
            vstd::arithmetic::power2::lemma_pow2_strictly_increases(bit_length(whole), 277);
        }
        assert(bit_length(whole) >= 278);
        lemma_single_digits(num, den);
        assert(single_exponent(num, den) >= 254);
    }
    if num <= den * magnitude_units(value.magnitude(), 0x80_0000) {
        lemma_rounds_to_no_more(num, den, value.magnitude());
    }
}

} // verus!
