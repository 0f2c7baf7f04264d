//! What a benchmark makes of everything that was measured, from its start to its
//! end.
#[allow(unused_imports)]
use vstd::arithmetic::power2::pow2;
use vstd::prelude::*;

#[allow(unused_imports)]
use super::bandwidth::numbers_in;
#[allow(unused_imports)]
use super::matmul::{
    law_timed_product_is_exact, matmul_result, measured, rows_at, sample_index, seeds_at, seeds_of,
    size_line, steps_at, MatmulRun, MatmulTest, Phase, SizeMeasurement, SizeStats, SizeTexts, SIZES,
};
#[allow(unused_imports)]
use super::precision::{
    are_inputs, check_at, check_program, deviation_of, identity_element, precision_result, Check,
    PrecisionTest, ADD_RANGE, IDENTITY_RANGE, SCALE_RANGE,
};
#[allow(unused_imports)]
use super::square::fits;
#[allow(unused_imports)]
use super::square_laws::{
    has_square_inputs, holds_squares, identity_of, law_single_product_is_exact, product_of,
};
#[allow(unused_imports)]
use super::clock_laws::{clock_starts, law_the_clock_times_the_products};
#[allow(unused_imports)]
use super::precision_laws::{
    has_vector_inputs, law_add_sub_check_is_exact, law_identity_check_is_exact,
    law_scale_check_is_exact,
};
#[allow(unused_imports)]
use super::vram::VramTest;
#[allow(unused_imports)]
use super::stability::{
    bad_count, in_time, iteration_program, seconds_over, stability_result, ticks, StressTest, SIZE,
};
#[allow(unused_imports)]
use super::are_scaled;
#[allow(unused_imports)]
use super::stability_laws::lemma_product_and_download;
#[allow(unused_imports)]
use crate::float_bits::{
    double, largest_of, law_largest_number_decides, law_worst_error_decides, non_finite_count,
    single, Float32, Float64,
};
#[allow(unused_imports)]
use crate::ideal::{one, Device};
#[allow(unused_imports)]
use crate::limits::{law_fraction_limits, law_whole_limits};
#[allow(unused_imports)]
use crate::text::decimal;

verus! {

/// Whether all numbers of a computation came back, each with a deviation below a
/// fraction.
pub open spec fn all_under(deviations: Seq<Float64>, count: nat, num: nat, den: nat) -> bool {
    &&& deviations.len() == count
    &&& forall|i: int| 0 <= i < deviations.len() ==> (#[trigger] deviations[i]).is_under(num, den)
}

proof fn lemma_deviations(
    before: Float64,
    check: Check,
    deviations: Seq<Float64>,
    count: nat,
    bits: u64,
    num: nat,
    den: nat,
)
    requires
        !before.nan(),
        count == if check is Identity {
            65_536nat
        } else {
            262_144
        },
        double(bits).above(double(0)),
        bits < 0x7FF0_0000_0000_0000,
        forall|x: Float64| #[trigger] double(bits).above(x) <==> x.is_under(num, den),
    ensures
        ({
            let after = before.worse(deviation_of(check, deviations));
            &&& !after.nan()
            &&& double(bits).above(after) <==> double(bits).above(before) && all_under(
                deviations,
                count,
                num,
                den,
            )
        }),
{
    let limit = double(bits);
    law_worst_error_decides(deviations, limit);
    if deviations.len() == count {
        if all_under(deviations, count, num, den) {
            assert forall|i: int| 0 <= i < deviations.len() implies limit.above(
                #[trigger] deviations[i],
            ) by {
                assert(deviations[i].is_under(num, den));
            }
        } else {
            let i = choose|i: int|
                0 <= i < deviations.len() && !(#[trigger] deviations[i]).is_under(num, den);
            assert(!limit.above(deviations[i]));
        }
    }
}

/// The test after three computations with these deviations.
pub open spec fn checked(
    identity: Seq<Float64>,
    add_sub: Seq<Float64>,
    scale: Seq<Float64>,
) -> PrecisionTest {
    PrecisionTest { done: 0, max_error: double(0) }.after(identity).after(add_sub).after(scale)
}

/// The precision test passes exactly where every single number of all three
/// computations came back, with a deviation below 0.0001. It fails exactly where
/// one is missing, is no number, or has a deviation that is not below 0.001.
pub proof fn law_every_number_has_to_come_back(
    identity: Seq<Float64>,
    add_sub: Seq<Float64>,
    scale: Seq<Float64>,
    error_text: Seq<char>,
)
    ensures
        ({
            let test = checked(identity, add_sub, scale);
            let result = precision_result(test.max_error, error_text);
            &&& test.done == 3
            &&& !test.max_error.nan()
            &&& result.status is Passed <==> {
                &&& all_under(identity, 65_536, 1, 10_000)
                &&& all_under(add_sub, 262_144, 1, 10_000)
                &&& all_under(scale, 262_144, 1, 10_000)
            }
            &&& result.status is Failed <==> !{
                &&& all_under(identity, 65_536, 1, 1000)
                &&& all_under(add_sub, 262_144, 1, 1000)
                &&& all_under(scale, 262_144, 1, 1000)
            }
        }),
{
    let e4 = 0x3F1A_36E2_EB1C_432Du64;
    let e3 = 0x3F50_624D_D2F1_A9FCu64;
    assert forall|x: Float64| #[trigger] double(e4).above(x) <==> x.is_under(1, 10_000) by {
        law_fraction_limits(x);
    }
    assert forall|x: Float64| #[trigger] double(e3).above(x) <==> x.is_under(1, 1000) by {
        law_fraction_limits(x);
    }
    let start = PrecisionTest { done: 0, max_error: double(0) };
    let first = start.after(identity);
    let second = first.after(add_sub);
    lemma_deviations(double(0), Check::Identity, identity, 65_536, e4, 1, 10_000);
    lemma_deviations(double(0), Check::Identity, identity, 65_536, e3, 1, 1000);
    lemma_deviations(first.max_error, Check::AddSub, add_sub, 262_144, e4, 1, 10_000);
    lemma_deviations(first.max_error, Check::AddSub, add_sub, 262_144, e3, 1, 1000);
    lemma_deviations(second.max_error, Check::Scale, scale, 262_144, e4, 1, 10_000);
    lemma_deviations(second.max_error, Check::Scale, scale, 262_144, e3, 1, 1000);
    law_fraction_limits(checked(identity, add_sub, scale).max_error);
}

/// The inputs of the three computations reach to 10, 100 and 50 on both sides of
/// zero.
pub proof fn law_inputs_reach_far()
    ensures
        single(IDENTITY_RANGE).units() == 10 * one(),
        single(ADD_RANGE).units() == 100 * one(),
        single(SCALE_RANGE).units() == 50 * one(),
{
    vstd::arithmetic::power2::lemma2_to64();
    vstd::arithmetic::power2::lemma_pow2_adds(20, 129);
    vstd::arithmetic::power2::lemma_pow2_adds(17, 132);
    vstd::arithmetic::power2::lemma_pow2_adds(18, 131);
    assert(IDENTITY_RANGE as nat / 0x80_0000 == 130 && IDENTITY_RANGE as nat % 0x80_0000
        == 0x20_0000);
    assert(ADD_RANGE as nat / 0x80_0000 == 133 && ADD_RANGE as nat % 0x80_0000 == 0x48_0000);
    assert(SCALE_RANGE as nat / 0x80_0000 == 132 && SCALE_RANGE as nat % 0x80_0000 == 0x48_0000);
    assert(0xA0_0000 * pow2(129) == 10 * (0x10_0000 * pow2(129)));
    assert(0xC8_0000 * pow2(132) == 100 * (0x2_0000 * pow2(132)));
    assert(0xC8_0000 * pow2(131) == 50 * (0x4_0000 * pow2(131)));
}

/// No two of the three computations are the same, and their programs differ.
pub proof fn law_the_computations_differ(i: nat, j: nat)
    requires
        i < j < 3,
    ensures
        check_at(i) != check_at(j),
        check_program(check_at(i)).len() != check_program(check_at(j)).len(),
{
}

/// The places of the bad elements: the element is not equal to its reference, and
/// the difference is more than the tolerance, or one of them is no number.
pub open spec fn bad_elements(
    reference: Seq<Float32>,
    outputs: Seq<Float32>,
    diffs: Seq<Float64>,
    tolerances: Seq<Float64>,
    n: nat,
) -> Set<int> {
    Set::new(
        |i: int|
            {
                &&& 0 <= i < n
                &&& !outputs[i].equals(reference[i])
                &&& diffs[i].nan() || tolerances[i].nan() || diffs[i].above(tolerances[i])
            },
    )
}

/// Every bad element is counted, once, and nothing else is.
pub proof fn law_every_bad_element_is_counted(
    reference: Seq<Float32>,
    outputs: Seq<Float32>,
    diffs: Seq<Float64>,
    tolerances: Seq<Float64>,
    n: nat,
)
    ensures
        bad_elements(reference, outputs, diffs, tolerances, n).finite(),
        bad_count(reference, outputs, diffs, tolerances, n) == bad_elements(
            reference,
            outputs,
            diffs,
            tolerances,
            n,
        ).len(),
    decreases n,
{
    let all = bad_elements(reference, outputs, diffs, tolerances, n);
    if n == 0 {
        assert(all =~= Set::empty());
    } else {
        let last = (n - 1) as nat;
        law_every_bad_element_is_counted(reference, outputs, diffs, tolerances, last);
        let fewer = bad_elements(reference, outputs, diffs, tolerances, last);
        if all.contains(last as int) {
            assert(all =~= fewer.insert(last as int));
        } else {
            assert(all =~= fewer);
        }
    }
}

/// The sum of counts.
pub open spec fn total(counts: Seq<nat>) -> nat
    decreases counts.len(),
{
    if counts.len() == 0 {
        0
    } else {
        counts[0] + total(counts.skip(1))
    }
}

/// The load after iterations with these many bad elements.
pub open spec fn loaded(start: StressTest, counts: Seq<nat>) -> StressTest
    decreases counts.len(),
{
    if counts.len() == 0 {
        start
    } else {
        loaded(start.after(counts[0]), counts.skip(1))
    }
}

/// The load counts every iteration and every bad element of each.
pub proof fn law_the_load_counts_everything(start: StressTest, counts: Seq<nat>)
    requires
        start.iterations + counts.len() <= u64::MAX,
        start.bad_elements + total(counts) <= u64::MAX,
    ensures
        loaded(start, counts).iterations == start.iterations + counts.len(),
        loaded(start, counts).bad_elements == start.bad_elements + total(counts),
    decreases counts.len(),
{
    if counts.len() > 0 {
        law_the_load_counts_everything(start.after(counts[0]), counts.skip(1));
    }
}

/// The load lasts thirty seconds, and the display counts the whole seconds that
/// are over, up to all thirty.
pub proof fn law_the_load_lasts_thirty_seconds(elapsed_nanos: u128)
    ensures
        in_time(elapsed_nanos) <==> elapsed_nanos < 30_000_000_000,
        seconds_over(elapsed_nanos) <= 30,
        seconds_over(elapsed_nanos) * 1_000_000_000 <= elapsed_nanos,
        in_time(elapsed_nanos) <==> elapsed_nanos < (seconds_over(elapsed_nanos) + 1)
            * 1_000_000_000 && seconds_over(elapsed_nanos) < 30,
{
}

/// Every iteration multiplies anew: whatever the result's buffer holds, what is
/// brought back is the product of the inputs.
pub proof fn law_every_iteration_multiplies_anew(device: Device, contents: Seq<int>)
    requires
        holds_squares(device, 1024),
        contents.len() == 1_048_576,
    ensures
        ({
            let stale = device.holding(super::square::C_BUFFER, contents);
            let after = stale.after_steps(iteration_program());
            &&& after.sound
            &&& after.downloads == device.downloads.push(
                product_of(device.inputs[0], device.inputs[1], 1024),
            )
        }),
{
    let stale = device.holding(super::square::C_BUFFER, contents);
    assert(holds_squares(stale, SIZE));
    lemma_product_and_download(stale);
}

/// Losing more than 15 per cent of the performance adds a remark to the details,
/// and nothing else does.
pub proof fn law_throttling_is_remarked(
    test: StressTest,
    steady: Float64,
    slow: Float64,
    rate_text: Seq<char>,
    kept_text: Seq<char>,
    percent_text: Seq<char>,
)
    requires
        test.iterations > 0,
        !steady.is_beyond(15),
    ensures
        ({
            let plain = stability_result(test, steady, rate_text, kept_text, percent_text);
            let result = stability_result(test, slow, rate_text, kept_text, percent_text);
            &&& plain.details == decimal(test.iterations as nat) + " vòng | "@ + decimal(test.bad_elements as nat) + " phần tử sai ("@ + rate_text
                + ") | hiệu năng giữ "@ + kept_text + "%"@
            &&& result.details == if slow.is_beyond(15) {
                plain.details + " — nghi ngờ thermal throttling"@
            } else {
                plain.details
            }
        }),
{
    law_whole_limits(steady);
    law_whole_limits(slow);
    reveal_strlit("");
    let plain = stability_result(test, steady, rate_text, kept_text, percent_text);
    let text = decimal(test.iterations as nat);
    let base = text + " vòng | "@ + decimal(test.bad_elements as nat) + " phần tử sai ("@
        + rate_text + ") | hiệu năng giữ "@ + kept_text + "%"@;
    assert(base + ""@ =~= base);
    assert(plain.details =~= base);
}

/// The sizes are 512, 1024 and 2048 rows: each is twice the one before.
pub proof fn law_sizes_double(index: int)
    requires
        0 <= index < SIZES@.len(),
    ensures
        SIZES@.len() == 3,
        SIZES@[0] == 512,
        index > 0 ==> SIZES@[index] == 2 * SIZES@[index - 1],
{
}

/// After the correctness gate every size has its turn, in order, and once; then
/// the benchmark is done.
pub proof fn law_every_size_has_its_turn(test: MatmulTest)
    ensures
        ({
            let gate = MatmulRun { phase: Phase::Gate, test };
            let first = MatmulRun { phase: gate.next_phase(), test };
            let second = MatmulRun { phase: first.next_phase(), test };
            let third = MatmulRun { phase: second.next_phase(), test };
            &&& first.phase == Phase::Size(0)
            &&& second.phase == Phase::Size(1)
            &&& third.phase == Phase::Size(2)
            &&& third.next_phase() is Done
        }),
{
}

/// Different sizes have different factors, and the two factors of a size differ.
pub proof fn law_factors_differ(size: usize, other: usize)
    ensures
        size != other ==> seeds_of(size).0 != seeds_of(other).0 && seeds_of(size).1 != seeds_of(
            other,
        ).1,
        seeds_of(size).0 != seeds_of(size).1,
        seeds_of(size).0 ^ seeds_of(size).1 == 0x3413_4070,
        seeds_of(0).0 == 0xCAFE_BABE,
{
    let a = size as u64;
    let b = other as u64;
    assert(a != b ==> 0xCAFE_BABEu64 ^ a != 0xCAFE_BABEu64 ^ b && 0xFEED_FACEu64 ^ a
        != 0xFEED_FACEu64 ^ b) by (bit_vector);
    assert((0xCAFE_BABEu64 ^ a) ^ (0xFEED_FACEu64 ^ a) == 0x3413_4070u64) by (bit_vector);
    assert(0xCAFE_BABEu64 ^ a != 0xFEED_FACEu64 ^ a) by (bit_vector);
    assert(0xCAFE_BABEu64 ^ 0u64 == 0xCAFE_BABEu64) by (bit_vector);
}

/// The 64 samples of a size look at 64 different elements.
pub proof fn law_samples_look_at_different_elements(first: u64, second: u64, size: nat)
    requires
        first < second < 64,
        size == 512 || size == 1024 || size == 2048,
    ensures
        sample_index(first, size) < size * size,
        sample_index(second, size) < size * size,
        sample_index(first, size) != sample_index(second, size),
{
    lemma_walk(first);
    lemma_walk(second);
    lemma_walk_goes_on(first, second);
    let x = ((first * 2654435761 + 97) as u64 as usize) as nat;
    let y = ((second * 2654435761 + 97) as u64 as usize) as nat;
    lemma_coarser(x);
    lemma_coarser(y);
    assert(size * size == 0x4_0000 || size * size == 0x10_0000 || size * size == 0x40_0000);
}

/// The samples walk over the elements in steps of one length, from the same one on.
pub proof fn law_samples_walk_in_even_steps(sample: u64, size: nat)
    requires
        sample < 63,
        size == 512 || size == 1024 || size == 2048,
    ensures
        sample_index(0, size) == 97,
        (sample_index((sample + 1) as u64, size) - sample_index(sample, size)) % (size * size) as int
            == 2654435761int % (size * size) as int,
{
    let a = (sample * 2654435761 + 97) as u64;
    let b = ((sample + 1) * 2654435761 + 97) as u64;
    let x = (a as usize) as int;
    let y = (b as usize) as int;
    assert((a as usize) % 0x40_0000usize == a % 0x40_0000u64) by (bit_vector);
    assert((b as usize) % 0x40_0000usize == b % 0x40_0000u64) by (bit_vector);
    assert(x % 0x40_0000 == a as int % 0x40_0000 && y % 0x40_0000 == b as int % 0x40_0000);
    assert(b - a == 2654435761);
    lemma_steps(x, y, a as int, b as int);
    assert(size * size == 0x4_0000 || size * size == 0x10_0000 || size * size == 0x40_0000);
}

proof fn lemma_steps(x: int, y: int, a: int, b: int)
    requires
        x >= 0,
        y >= 0,
        a >= 0,
        b - a == 2654435761,
        x % 0x40_0000 == a % 0x40_0000,
        y % 0x40_0000 == b % 0x40_0000,
    ensures
        (y % 0x4_0000 - x % 0x4_0000) % 0x4_0000 == 2654435761int % 0x4_0000,
        (y % 0x10_0000 - x % 0x10_0000) % 0x10_0000 == 2654435761int % 0x10_0000,
        (y % 0x40_0000 - x % 0x40_0000) % 0x40_0000 == 2654435761int % 0x40_0000,
{
    let p = a / 0x40_0000 - x / 0x40_0000;
    let q = b / 0x40_0000 - y / 0x40_0000;
    assert(a - x == p * 0x40_0000 && b - y == q * 0x40_0000);
    let t = p - q;
    assert(y - x == 2654435761 + t * 0x40_0000);
    vstd::arithmetic::div_mod::lemma_sub_mod_noop(y, x, 0x4_0000);
    vstd::arithmetic::div_mod::lemma_sub_mod_noop(y, x, 0x10_0000);
    vstd::arithmetic::div_mod::lemma_sub_mod_noop(y, x, 0x40_0000);
    vstd::arithmetic::div_mod::lemma_mod_multiples_vanish(16 * t, 2654435761, 0x4_0000);
    vstd::arithmetic::div_mod::lemma_mod_multiples_vanish(4 * t, 2654435761, 0x10_0000);
    vstd::arithmetic::div_mod::lemma_mod_multiples_vanish(t, 2654435761, 0x40_0000);
}

/// The walk's steps are the same in machine words of any length, up to the
/// elements of the smallest size.
proof fn lemma_walk(sample: u64)
    requires
        sample < 64,
    ensures
        ((sample * 2654435761 + 97) as u64 as usize) as nat % 0x4_0000 == (sample * 2654435761
            + 97) % 0x4_0000,
{
    let a = (sample * 2654435761 + 97) as u64;
    assert((a as usize) % 0x4_0000usize == a % 0x4_0000u64) by (bit_vector);
}

proof fn lemma_coarser(x: nat)
    ensures
        (x % 0x10_0000) % 0x4_0000 == x % 0x4_0000,
        (x % 0x40_0000) % 0x4_0000 == x % 0x4_0000,
{
}

/// The walk's step is odd, so it comes back only after as many steps as there are
/// elements.
proof fn lemma_walk_goes_on(first: u64, second: u64)
    requires
        first < second < 64,
    ensures
        (first * 2654435761 + 97) % 0x4_0000 != (second * 2654435761 + 97) % 0x4_0000,
{
    let a = first * 2654435761 + 97;
    let b = second * 2654435761 + 97;
    let d = second - first;
    if a % 0x4_0000 == b % 0x4_0000 {
        let k = b / 0x4_0000 - a / 0x4_0000;
        assert(d * 2654435761 == k * 0x4_0000);
        assert(d == 0x4_0000 * (k * 208721 - d * 2113481470));
    }
}

/// The sizes that were measured.
pub open spec fn measured_ones(outcomes: Seq<Option<SizeStats>>) -> Seq<SizeStats>
    decreases outcomes.len(),
{
    if outcomes.len() == 0 {
        seq![]
    } else {
        match outcomes.last() {
            Some(stats) => measured_ones(outcomes.drop_last()).push(stats),
            None => measured_ones(outcomes.drop_last()),
        }
    }
}

/// The benchmark after sizes that were measured, and others that could not be
/// run.
pub open spec fn tried(outcomes: Seq<Option<SizeStats>>) -> MatmulTest
    decreases outcomes.len(),
{
    if outcomes.len() == 0 {
        measured(seq![])
    } else {
        match outcomes.last() {
            Some(stats) => tried(outcomes.drop_last()).after(stats),
            None => tried(outcomes.drop_last()).after_failure(),
        }
    }
}

/// A size that could not be run is remembered, and changes nothing else: rate,
/// spread and correctness are those of the sizes that were measured.
pub proof fn law_failed_sizes_change_nothing_else(outcomes: Seq<Option<SizeStats>>)
    ensures
        tried(outcomes).best_gflops == measured(measured_ones(outcomes)).best_gflops,
        tried(outcomes).worst_spread == measured(measured_ones(outcomes)).worst_spread,
        tried(outcomes).any_invalid == measured(measured_ones(outcomes)).any_invalid,
        tried(outcomes).any_failed <==> exists|i: int|
            0 <= i < outcomes.len() && #[trigger] outcomes[i] is None,
    decreases outcomes.len(),
{
    if outcomes.len() > 0 {
        let fewer = outcomes.drop_last();
        law_failed_sizes_change_nothing_else(fewer);
        assert(forall|i: int| 0 <= i < fewer.len() ==> fewer[i] == outcomes[i]);
        assert(outcomes.last() == outcomes[outcomes.len() - 1]);
        if tried(fewer).any_failed {
            let i = choose|i: int| 0 <= i < fewer.len() && #[trigger] fewer[i] is None;
            assert(outcomes[i] is None);
        }
        if outcomes.last() is Some {
            let ones = measured_ones(outcomes);
            assert(ones.drop_last() =~= measured_ones(fewer));
        }
    }
}

/// A spread of more than 30 per cent adds a remark to the details, and nothing
/// else does.
pub proof fn law_unsteady_products_are_remarked(
    test: MatmulTest,
    spread: Float64,
    gflops_text: Seq<char>,
    spread_text: Seq<char>,
)
    requires
        !test.any_invalid,
        !test.any_failed,
        !test.worst_spread.is_beyond(30),
    ensures
        ({
            let shaky = MatmulTest { worst_spread: spread, ..test };
            let plain = matmul_result(test, gflops_text, spread_text).details;
            let details = matmul_result(shaky, gflops_text, spread_text).details;
            &&& plain == "Peak "@ + gflops_text + " GFLOPS (đã verify đúng đắn) | dao động "@
                + spread_text + "%"@
            &&& details == if spread.is_beyond(30) {
                plain + " — hiệu năng bất ổn giữa các lần chạy"@
            } else {
                plain
            }
        }),
{
    law_whole_limits(spread);
    law_whole_limits(test.worst_spread);
    reveal_strlit("");
    let base = "Peak "@ + gflops_text + " GFLOPS (đã verify đúng đắn) | dao động "@ + spread_text
        + "%"@;
    assert(base + ""@ =~= base);
}

/// How many of all results of a size are no finite numbers.
pub open spec fn non_finite_ones(values: Seq<Float32>) -> Set<int> {
    Set::new(|i: int| 0 <= i < values.len() && !values[i].finite())
}

/// Every result that is no finite number is counted, once.
pub proof fn law_every_non_finite_result_is_counted(values: Seq<Float32>)
    ensures
        non_finite_ones(values).finite(),
        non_finite_count(values) == non_finite_ones(values).len(),
    decreases values.len(),
{
    if values.len() == 0 {
        assert(non_finite_ones(values) =~= Set::empty());
    } else {
        let fewer = values.drop_last();
        law_every_non_finite_result_is_counted(fewer);
        assert(forall|i: int| 0 <= i < fewer.len() ==> fewer[i] == values[i]);
        let last = values.len() - 1;
        assert(values.last() == values[last]);
        if values[last].finite() {
            assert(non_finite_ones(values) =~= non_finite_ones(fewer));
        } else {
            assert(non_finite_ones(values) =~= non_finite_ones(fewer).insert(last));
        }
    }
}

/// A size is right exactly where each of its rows times rows results is a finite
/// number, and there are 64 errors none of which is from 0.005 on.
pub proof fn law_right_sizes(measurement: SizeMeasurement, size: usize)
    requires
        measurement.outputs.len() <= usize::MAX,
    ensures
        measurement.stats_view(size).valid() ==> {
            &&& measurement.outputs.len() == size * size
            &&& measurement.errors.len() == 64
            &&& non_finite_ones(measurement.outputs@) =~= Set::empty()
            &&& forall|i: int|
                0 <= i < 64 ==> (#[trigger] measurement.errors[i]).nan()
                    || measurement.errors[i].is_under(5, 1000)
        },
        measurement.outputs.len() == size * size && measurement.errors.len() == 64
            && non_finite_ones(measurement.outputs@) =~= Set::empty() && (forall|i: int|
            0 <= i < 64 ==> (#[trigger] measurement.errors[i]).nan()
                || measurement.errors[i].is_under(5, 1000)) ==> measurement.stats_view(
            size,
        ).valid(),
{
    super::matmul::law_valid_sizes_have_right_results(measurement, size);
    assert forall|i: int| 0 <= i < measurement.errors.len() implies (
    !#[trigger] measurement.errors[i].reaches(double(super::matmul::ERROR_LIMIT))
        <==> measurement.errors[i].nan() || measurement.errors[i].is_under(5, 1000)) by {
        law_fraction_limits(measurement.errors[i]);
    }
    let wrong = non_finite_ones(measurement.outputs@);
    if measurement.stats_view(size).valid() {
        assert(wrong =~= Set::empty());
    }
    if wrong =~= Set::empty() {
        assert forall|i: int| 0 <= i < measurement.outputs.len() implies (
        #[trigger] measurement.outputs[i]).finite() by {
            assert(!wrong.contains(i));
        }
    }
}

/// What is counted fits together: as many elements as rows times rows, and as many
/// bytes as four times the numbers.
pub proof fn law_counts_fit_together()
    ensures
        super::matmul::GATE_SIZE == 256,
        super::matmul::GATE_COUNT == 256 * 256,
        super::precision::IDENTITY_SIZE == 256,
        super::precision::check_count(Check::Identity) == 256 * 256,
        super::precision::VECTOR_COUNT == 512 * 512,
        super::precision::check_count(Check::AddSub) == super::precision::VECTOR_COUNT,
        super::precision::check_count(Check::Scale) == super::precision::VECTOR_COUNT,
        super::precision::VECTOR_BYTES == 4 * super::precision::VECTOR_COUNT,
        super::stability::SIZE == 1024,
        super::stability::ELEMENTS == 1024 * 1024,
        super::vram::CHUNK_MB == 128,
        super::vram::CHUNK_BYTES == 128 * 1024 * 1024,
        4 * super::vram::CHUNK_F32_COUNT == super::vram::CHUNK_BYTES,
        super::matmul::SAMPLES == 64,
{
}

/// The seeds of the inputs differ from one another.
pub proof fn law_seeds_differ()
    ensures
        super::matmul::GATE_SEED_A != super::matmul::GATE_SEED_B,
        super::stability::SEED_A != super::stability::SEED_B,
        super::precision::ADD_SEED_A != super::precision::ADD_SEED_B,
        super::matmul::GATE_SEED_A == 0xDEAD_BEEF,
        super::matmul::GATE_SEED_B == 0x0BAD_C0DE,
        super::stability::SEED_A == 0xA5A5_5A5A,
        super::stability::SEED_B == 0x5A5A_A5A5,
        super::precision::IDENTITY_SEED == 0x1234_5678,
        super::precision::ADD_SEED_A == 0xAAAA_BBBB,
        super::precision::ADD_SEED_B == 0xBBBB_AAAA,
        super::precision::SCALE_SEED == 0xCCCC_DDDD,
{
}

/// The inputs of the computations: of the first, numbers up to 10 and a matrix that
/// has ones where row and column are the same and zeros elsewhere; of the second,
/// numbers up to 100 from two different seeds; of the third, numbers up to 50.
pub proof fn law_inputs_fit_the_computations(check: Check, inputs: Seq<Seq<Float32>>)
    requires
        are_inputs(check, inputs),
    ensures
        check is Identity ==> inputs.len() == 2 && inputs[0].len() == 65_536 && inputs[1].len()
            == 65_536 && forall|row: int, col: int|
            0 <= row < 256 && 0 <= col < 256 ==> (#[trigger] inputs[1][row * 256 + col]).units()
                == if row == col {
                one()
            } else {
                0
            },
        check is AddSub ==> inputs.len() == 2 && exists|first: u64, second: u64, range: Float32|
            {
                &&& first != second
                &&& range.units() == 100 * one()
                &&& #[trigger] are_scaled(inputs[0], 262_144, first, range)
                &&& #[trigger] are_scaled(inputs[1], 262_144, second, range)
            },
        check is Scale ==> inputs.len() == 1 && exists|seed: u64, range: Float32|
            {
                &&& range.units() == 50 * one()
                &&& #[trigger] are_scaled(inputs[0], 262_144, seed, range)
            },
        check is Identity ==> exists|seed: u64, range: Float32|
            {
                &&& range.units() == 10 * one()
                &&& #[trigger] are_scaled(inputs[0], 65_536, seed, range)
            },
{
    law_inputs_reach_far();
    if check is Identity {
        super::precision_laws::lemma_factors();
        assert forall|row: int, col: int| 0 <= row < 256 && 0 <= col < 256 implies (
        #[trigger] inputs[1][row * 256 + col]).units() == if row == col {
            one()
        } else {
            0
        } by {
            let at = row * 256 + col;
            assert(at / 256 == row && at % 256 == col);
            assert(inputs[1][at] == identity_element(256, at));
        }
    }
}

/// The display changes once a second, and not before.
pub proof fn law_the_display_changes_once_a_second(since_last_nanos: u128)
    ensures
        ticks(since_last_nanos) <==> since_last_nanos >= 1_000_000_000,
{
}

/// An error of the device ends the load without a result only before the first
/// iteration is through: after one, none does.
pub proof fn law_later_errors_do_not_crash(test: StressTest, bad: nat)
    requires
        test.iterations < u64::MAX,
    ensures
        !test.crashes(false),
        !test.after(bad).crashes(true),
        (StressTest { iterations: 0, bad_elements: 0 }).crashes(true),
{
}

/// A wrong first product ends the benchmark: no size is timed. A right one leads to
/// the first size.
pub proof fn law_wrong_products_end_the_benchmark()
    ensures
        MatmulRun::after_gate(false) is Done,
        MatmulRun::after_gate(true) == Phase::Size(0),
{
}

/// The line of a size says that it is right exactly where every result is finite
/// and the largest error below 0.005; otherwise it tells how many are not.
pub proof fn law_lines_tell_the_verdict(size: usize, stats: SizeStats, texts: SizeTexts)
    ensures
        ({
            let line = size_line(size, stats, texts);
            let rows = decimal(size as nat);
            let front = rows + "×"@ + rows + ": "@ + texts.best_ms@ + " ms → "@ + texts.gflops@
                + " GFLOPS | spread "@ + texts.spread@ + "% "@;
            line == if stats.non_finite == 0 && stats.max_rel.is_under(5, 1000) {
                front + ("(verify OK, err "@ + texts.max_rel@ + ")"@)
            } else {
                front + ("(verify FAIL: "@ + decimal(stats.non_finite as nat) + " NaN/Inf, err "@
                    + texts.max_rel@ + ")"@)
            }
        }),
{
    law_fraction_limits(stats.max_rel);
}

/// What was measured of a size is kept: the rate, the spread, and, where nothing is
/// missing, an error that no error exceeds and that is zero or one of them.
pub proof fn law_measurements_are_kept(measurement: SizeMeasurement, size: usize)
    ensures
        ({
            let stats = measurement.stats_view(size);
            &&& stats.gflops == measurement.gflops
            &&& stats.spread == measurement.spread
            &&& measurement.outputs.len() == size * size && measurement.errors.len() == 64 ==> {
                &&& forall|i: int|
                    0 <= i < 64 ==> !(#[trigger] measurement.errors[i]).above(stats.max_rel)
                &&& stats.max_rel == double(0) || measurement.errors@.contains(stats.max_rel)
            }
            &&& measurement.outputs.len() != size * size || measurement.errors.len() != 64
                ==> stats.max_rel == double(0x7FF0_0000_0000_0000)
        }),
{
    law_largest_number_decides(measurement.errors@, double(0x7FF0_0000_0000_0000));
    assert forall|i: int| 0 <= i < measurement.errors.len() implies !(
    #[trigger] measurement.errors[i]).above(largest_of(measurement.errors@)) by {
        assert(!measurement.errors@[i].above(largest_of(measurement.errors@)));
    }
}

/// However many iterations there were, no more elements are counted than a counter
/// holds.
pub proof fn law_elements_are_counted_as_far_as_possible(iterations: u64)
    ensures
        ({
            let all = iterations as nat * 1024 * 1024;
            &&& all > u64::MAX ==> super::stability::element_total(iterations) == u64::MAX
            &&& 0 < all <= u64::MAX ==> super::stability::element_total(iterations) == all
        }),
{
}

/// The correctness gate multiplies matrices of 256 rows; each size after it has
/// twice the rows of the one before. What is timed of a size, and what is brought
/// back, are products of matrices of its rows.
pub proof fn law_every_phase_multiplies_its_rows(device: Device, phase: Phase)
    requires
        phase is Gate || (phase matches Phase::Size(index) && index < 3),
        device.sound,
        device.bare(),
        has_square_inputs(device, rows_at(phase)),
    ensures
        phase is Gate ==> rows_at(phase) == 256,
        phase == Phase::Size(0) ==> rows_at(phase) == 512,
        phase == Phase::Size(1) ==> rows_at(phase) == 1024,
        phase == Phase::Size(2) ==> rows_at(phase) == 2048,
        ({
            let after = device.after_steps(steps_at(phase));
            &&& after.sound
            &&& after.bare()
            &&& after.downloads == device.downloads.push(
                product_of(device.inputs[0], device.inputs[1], rows_at(phase) as nat),
            )
        }),
        phase is Gate <==> clock_starts(steps_at(phase)) =~= Set::empty(),
        phase is Size ==> clock_starts(steps_at(phase)).len() == 3,
{
    let rows = rows_at(phase);
    assert(fits(256) && fits(512) && fits(1024) && fits(2048));
    if phase is Gate {
        law_single_product_is_exact(device, rows);
        let steps = steps_at(phase);
        assert forall|i: int| 0 <= i < steps.len() implies !(#[trigger] steps[i] is StartClock) by {
        }
        assert(clock_starts(steps) =~= Set::empty());
    } else {
        law_timed_product_is_exact(device, rows);
        law_the_clock_times_the_products(rows);
        if clock_starts(steps_at(phase)) =~= Set::empty() {
            assert(clock_starts(steps_at(phase)).len() == 0);
        }
    }
}

/// The factors of the phases are all different.
pub proof fn law_every_phase_has_its_factors(index: usize, other: usize)
    requires
        index < other < 3,
    ensures
        seeds_at(Phase::Size(index)).0 != seeds_at(Phase::Size(other)).0,
        seeds_at(Phase::Size(index)).1 != seeds_at(Phase::Size(other)).1,
        seeds_at(Phase::Gate) == (0xDEAD_BEEFu64, 0x0BAD_C0DEu64),
{
    law_factors_differ(rows_at(Phase::Size(index)), rows_at(Phase::Size(other)));
}

/// Whether a device has the inputs of a computation.
pub open spec fn has_inputs_of(device: Device, check: Check) -> bool {
    match check {
        Check::Identity => has_square_inputs(device, 256) && device.inputs[1] == identity_of(256),
        Check::AddSub => has_vector_inputs(device, 2),
        Check::Scale => has_vector_inputs(device, 1),
    }
}

/// Each of the three computations gives back its first input, on a device that
/// computes exactly.
pub proof fn law_every_computation_gives_back_its_input(device: Device, done: nat)
    requires
        done < 3,
        device.sound,
        device.bare(),
        has_inputs_of(device, check_at(done)),
    ensures
        ({
            let after = device.after_steps(check_program(check_at(done)));
            &&& after.sound
            &&& after.bare()
            &&& after.downloads == device.downloads.push(device.inputs[0])
        }),
{
    match check_at(done) {
        Check::Identity => law_identity_check_is_exact(device),
        Check::AddSub => law_add_sub_check_is_exact(device),
        Check::Scale => law_scale_check_is_exact(device),
    }
}

/// Buffers of a multiple of 1024 rows are told in megabytes: four times the square
/// of the multiple.
pub proof fn law_buffers_are_told_in_megabytes(k: nat, rows: usize)
    requires
        rows == 1024 * k,
    ensures
        super::bandwidth::stage_text(rows) == "Buffer "@ + decimal(rows as nat) + "×"@ + decimal(
            rows as nat,
        ) + " f32 = "@ + decimal(4 * k * k) + " MB, chain "@ + decimal(8) + " ops × "@ + decimal(4)
            + " runs..."@,
{
    let bytes = (rows * rows * 4) as nat;
    assert(bytes == (4 * k * k) * 1_048_576) by (nonlinear_arith)
        requires
            rows == 1024 * k,
            bytes == rows * rows * 4,
    ;
    assert(bytes / 1_048_576 == 4 * k * k && bytes % 1_048_576 == 0);
}

/// The memory that was found is told: 128 megabytes for every chunk, and the
/// nominal memory where it is known.
pub proof fn law_memory_that_was_found_is_told(test: VramTest, percent: Seq<char>)
    requires
        test.chunks > 0,
    ensures
        ({
            let result = super::vram::vram_result(test, percent);
            let found = decimal(test.chunks as nat * 128);
            result.metric_value == match test.dedicated_vram_mb {
                Some(nominal) => found + "/"@ + decimal(nominal as nat) + " MB"@,
                None => found + " MB"@,
            }
        }),
        super::vram::checked_message(test.verified_mb()) == decimal(test.chunks as nat * 128)
            + " MB đã kiểm tra"@,
{
}

/// One more row adds twice the rows and one more number. Buffers of 4096 rows are 64
/// megabytes each, those of 8192 rows four times as much.
pub proof fn law_buffers_are_squares(rows: usize)
    requires
        rows < usize::MAX,
    ensures
        numbers_in(0) == 0,
        numbers_in((rows + 1) as usize) - numbers_in(rows) == 2 * rows + 1,
        4 * numbers_in(4096) == 64 * 0x10_0000,
        numbers_in(8192) == 4 * numbers_in(4096),
{
    assert((rows + 1) * (rows + 1) - rows * rows == 2 * rows + 1) by (nonlinear_arith);
}

} // verus!
