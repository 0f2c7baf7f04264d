//! What the generated numbers and the bytes of push constants are.
#[allow(unused_imports)]
use vstd::arithmetic::power2::pow2;
use vstd::prelude::*;

#[allow(unused_imports)]
use super::{big_endian, lcg_next, lcg_sample, lcg_single, lcg_state, little_endian, word_byte};
#[allow(unused_imports)]
use crate::rounding::{
    law_nearest_pattern_has_the_nearest_value, law_rounding_errors_are_small,
    lemma_rounds_to_no_more, nearest_magnitude,
};
#[allow(unused_imports)]
use crate::float_bits::magnitude_units;

verus! {

/// Different states are followed by different ones, so no state is left out before
/// all have come.
pub proof fn law_states_do_not_merge(a: u64, b: u64)
    requires
        a != b,
    ensures
        lcg_next(a) != lcg_next(b),
{
    let x = a * 6364136223846793005 + 1442695040888963407;
    let y = b * 6364136223846793005 + 1442695040888963407;
    let modulus = 0x1_0000_0000_0000_0000int;
    if x % modulus == y % modulus {
        let k = x / modulus - y / modulus;
        let d = a - b;
        assert(d * 6364136223846793005 == k * modulus);
        assert(d == modulus * (k * 13877824140714322085 - d * 4787856489426250814));
        assert(-modulus < d < modulus);
    }
}

/// Every state of a seed follows the one before it, and the seed comes first.
pub proof fn law_states_follow_the_seed(seed: u64, steps: nat)
    ensures
        lcg_state(seed, 0) == seed,
        lcg_state(seed, steps + 1) == lcg_next(lcg_state(seed, steps)),
        lcg_state(lcg_next(seed), steps) == lcg_state(seed, steps + 1),
    decreases steps,
{
    if steps > 0 {
        law_states_follow_the_seed(seed, (steps - 1) as nat);
    }
}

/// The upper half of the states gives numbers from zero on, the lower half those
/// below, evenly: a state that is further up by 2 to the power of 33 gives the next
/// number.
pub proof fn law_samples_are_spread_evenly(state: u64)
    ensures
        -0x4000_0000 <= lcg_sample(state) < 0x4000_0000,
        state >= 0x8000_0000_0000_0000 <==> lcg_sample(state) >= 0,
        state + 0x2_0000_0000 <= u64::MAX ==> lcg_sample((state + 0x2_0000_0000) as u64)
            == lcg_sample(state) + 1,
{
}

/// The number of a sample is off by no more than 64 parts in 2 to the power of 30.
pub proof fn law_numbers_are_near_their_samples(sample: int)
    requires
        -0x4000_0000 <= sample < 0x4000_0000,
    ensures
        ({
            let part = pow2(119) as int;
            -64 * part <= lcg_single(sample).units() - sample * part <= 64 * part
        }),
{
    let part = pow2(119) as int;
    vstd::arithmetic::power2::lemma2_to64();
    vstd::arithmetic::power2::lemma_pow2_adds(30, 119);
    vstd::arithmetic::power2::lemma_pow2_adds(7, 119);
    vstd::arithmetic::power2::lemma_pow2_unfold(150);
    vstd::arithmetic::power2::lemma_pow2_pos(119);
    vstd::arithmetic::power2::lemma_pow2_adds(23, 126);
    assert(-0x4000_0000 * part <= sample * part && sample * part <= 0x3FFF_FFFF * part)
        by (nonlinear_arith)
        requires
            -0x4000_0000 <= sample <= 0x3FFF_FFFF,
            part > 0,
    ;
    law_rounding_errors_are_small(sample * part, 150);
    let n = if sample < 0 {
        (-sample) as nat
    } else {
        sample as nat
    };
    assert((-sample) * part == -(sample * part)) by (nonlinear_arith);
    assert(0x3F80_0000nat / 0x80_0000 == 127 && 0x3F80_0000nat % 0x80_0000 == 0);
    assert(magnitude_units(0x3F80_0000, 0x80_0000) == 0x80_0000 * pow2(126));
    assert(n * pow2(119) <= 1 * magnitude_units(0x3F80_0000, 0x80_0000));
    lemma_rounds_to_no_more(n * pow2(119), 1, 0x3F80_0000);
    law_nearest_pattern_has_the_nearest_value(n * pow2(119), 1);
    if sample >= 0 && nearest_magnitude(n * pow2(119), 1) >= 0x3F80_0000 {
        vstd::arithmetic::power2::lemma_pow2_adds(6, 119);
        assert(0x3F7F_FFFFnat / 0x80_0000 == 126 && 0x3F7F_FFFFnat % 0x80_0000 == 0x7F_FFFF);
        assert(lcg_single(sample).units() == 0xFF_FFFF * pow2(125));
        vstd::arithmetic::power2::lemma_pow2_adds(24, 125);
    }
}

/// The bytes of a word make up the word, and those of words come one after the
/// other: the least significant first, or the most significant.
pub proof fn law_bytes_make_up_the_words(words: Seq<u32>, i: int)
    requires
        0 <= i < words.len(),
    ensures
        little_endian(words).len() == 4 * words.len(),
        big_endian(words).len() == 4 * words.len(),
        little_endian(words)[4 * i] + 0x100 * little_endian(words)[4 * i + 1] + 0x1_0000
            * little_endian(words)[4 * i + 2] + 0x100_0000 * little_endian(words)[4 * i + 3]
            == words[i],
        big_endian(words)[4 * i + 3] + 0x100 * big_endian(words)[4 * i + 2] + 0x1_0000
            * big_endian(words)[4 * i + 1] + 0x100_0000 * big_endian(words)[4 * i] == words[i],
{
    let word = words[i];
    assert((4 * i) / 4 == i && (4 * i + 1) / 4 == i && (4 * i + 2) / 4 == i && (4 * i + 3) / 4 == i);
    assert(word_byte(word, 0) + 0x100 * word_byte(word, 1) + 0x1_0000 * word_byte(word, 2)
        + 0x100_0000 * word_byte(word, 3) == word);
}

} // verus!
