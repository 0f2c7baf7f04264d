//! What the three computations do on a device that computes exactly, and what
//! they do where every result is rounded to single precision.
#[allow(unused_imports)]
use vstd::arithmetic::power2::pow2;
use vstd::prelude::*;

#[allow(unused_imports)]
use super::precision::{
    add_sub_program, check_count, deviation_of, error_points, identity_element, precision_result,
    scale_program, two_passes, vector_binding, vector_push, Check, ADD_RANGE, ADD_SEED_A,
    ADD_SEED_B, A_BUFFER, B_BUFFER, C_BUFFER, D_BUFFER, ERROR_E4, FIRST_SET, HALF, IDENTITY_SIZE,
    LOCAL_SIZE, MINUS_ONE, PLUS_ONE, SECOND_SET, TWO, VECTOR_COUNT,
};
#[allow(unused_imports)]
use super::square::{fits, single_product};
#[allow(unused_imports)]
use super::square_laws::{
    has_square_inputs, identity_of, law_identity_keeps_the_matrix, law_single_product_is_exact,
};
#[allow(unused_imports)]
use crate::compute::{lemma_pool_sizes, Kernel};
#[allow(unused_imports)]
use super::{are_scaled, law_scaled_numbers_stay_in_range};
#[allow(unused_imports)]
use crate::float_bits::{
    double, law_floats_order_values, law_worst_error_decides, single, Float32, Float64,
};
#[allow(unused_imports)]
use crate::rounding::{
    law_rounding_errors_are_small, law_singles_and_their_doubles_are_kept, nearest_signed,
};
#[allow(unused_imports)]
use crate::ideal::{
    count_push, lemma_add, lemma_commands_in_parts, lemma_next_step, lemma_one_more_command,
    lemma_scale, one, times, BoundSet, Device,
};
#[allow(unused_imports)]
use crate::program::{compute_barrier, dispatch_1d};

verus! {

/// The factors of the passes in units.
pub proof fn lemma_factors()
    ensures
        single(PLUS_ONE).units() == one(),
        single(MINUS_ONE).units() == -one(),
        single(TWO).units() == 2 * one(),
        2 * single(HALF).units() == one(),
        single(0).units() == 0,
        one() > 0,
{
    vstd::arithmetic::power2::lemma_pow2_pos(149);
    vstd::arithmetic::power2::lemma_pow2_adds(23, 126);
    vstd::arithmetic::power2::lemma_pow2_adds(23, 127);
    vstd::arithmetic::power2::lemma_pow2_adds(23, 125);
    vstd::arithmetic::power2::lemma_pow2_adds(1, 149);
    vstd::arithmetic::power2::lemma_pow2_adds(1, 148);
    vstd::arithmetic::power2::lemma2_to64();
    assert(PLUS_ONE as nat / 0x80_0000 == 127 && PLUS_ONE as nat % 0x80_0000 == 0);
    assert(TWO as nat / 0x80_0000 == 128 && TWO as nat % 0x80_0000 == 0);
    assert(HALF as nat / 0x80_0000 == 126 && HALF as nat % 0x80_0000 == 0);
    assert(single(MINUS_ONE).magnitude() == PLUS_ONE as nat);
}

/// The values of the identity matrix that is uploaded.
pub proof fn law_identity_matrix_is_the_identity(n: nat, index: int)
    requires
        n > 0,
        0 <= index < n * n,
    ensures
        identity_element(n, index).finite(),
        identity_element(n, index).units() == identity_of(n)[index],
{
    lemma_factors();
}

/// On a device that computes exactly, a matrix times the identity matrix comes
/// back as it was; no step is out of order, and nothing is left behind.
pub proof fn law_identity_check_is_exact(device: Device)
    requires
        device.sound,
        device.bare(),
        has_square_inputs(device, IDENTITY_SIZE),
        device.inputs[1] == identity_of(IDENTITY_SIZE as nat),
    ensures
        ({
            let after = device.after_steps(single_product(IDENTITY_SIZE));
            &&& after.sound
            &&& after.bare()
            &&& after.downloads == device.downloads.push(device.inputs[0])
        }),
{
    assert(fits(IDENTITY_SIZE));
    law_single_product_is_exact(device, IDENTITY_SIZE);
    law_identity_keeps_the_matrix(device.inputs[0], IDENTITY_SIZE as nat);
}

/// Whether the first `count` inputs of a device are vectors of the right
/// length.
pub open spec fn has_vector_inputs(device: Device, count: nat) -> bool {
    &&& device.inputs.len() >= count
    &&& forall|i: int| 0 <= i < count ==> (#[trigger] device.inputs[i]).len() == VECTOR_COUNT
}

/// A device between the binding and the release of (A + B) - B.
pub open spec fn holds_sum(device: Device) -> bool {
    &&& device.sound
    &&& device.pool is Some
    &&& device.sets.dom() =~= set![FIRST_SET, SECOND_SET]
    &&& device.sets[FIRST_SET].kernel == Kernel::VectorAdd
    &&& device.sets[SECOND_SET].kernel == Kernel::VectorAdd
    &&& device.sets[FIRST_SET].bindings =~= three(A_BUFFER, B_BUFFER, C_BUFFER)
    &&& device.sets[SECOND_SET].bindings =~= three(C_BUFFER, B_BUFFER, D_BUFFER)
    &&& device.buffers.dom() =~= set![A_BUFFER, B_BUFFER, C_BUFFER, D_BUFFER]
    &&& device.buffers[A_BUFFER].len() == VECTOR_COUNT
    &&& device.buffers[B_BUFFER].len() == VECTOR_COUNT
    &&& device.buffers[C_BUFFER].len() == VECTOR_COUNT
    &&& device.buffers[D_BUFFER].len() == VECTOR_COUNT
}

/// Three buffers behind the first three bindings.
pub open spec fn three(a: usize, b: usize, c: usize) -> Map<u32, usize> {
    Map::<u32, usize>::empty().insert(0, a).insert(1, b).insert(2, c)
}

/// Two buffers behind the first two bindings.
pub open spec fn two(a: usize, b: usize) -> Map<u32, usize> {
    Map::<u32, usize>::empty().insert(0, a).insert(1, b)
}

proof fn lemma_two_bound(a: usize, b: usize)
    ensures
        Device::rebound(Map::empty(), seq![vector_binding(0, a), vector_binding(1, b)]) == two(
            a,
            b,
        ),
{
    let all = seq![vector_binding(0, a), vector_binding(1, b)];
    let first = seq![vector_binding(0, a)];
    assert(all.drop_last() =~= first);
    assert(first.drop_last() =~= seq![]);
    reveal_with_fuel(Device::rebound, 3);
}

proof fn lemma_three_bound(a: usize, b: usize, c: usize)
    ensures
        Device::rebound(
            Map::empty(),
            seq![vector_binding(0, a), vector_binding(1, b), vector_binding(2, c)],
        ) == three(a, b, c),
{
    let all = seq![vector_binding(0, a), vector_binding(1, b), vector_binding(2, c)];
    let first = seq![vector_binding(0, a), vector_binding(1, b)];
    assert(all.drop_last() =~= first);
    lemma_two_bound(a, b);
    reveal_with_fuel(Device::rebound, 2);
}

/// Allocation and upload for (A + B) - B.
proof fn lemma_sum_uploaded(device: Device)
    requires
        device.sound,
        device.bare(),
        has_vector_inputs(device, 2),
    ensures
        ({
            let after = device.after_steps(add_sub_program().take(6));
            &&& after.sound
            &&& after.pool is None
            &&& after.sets == Map::<usize, BoundSet>::empty()
            &&& after.buffers.dom() =~= set![A_BUFFER, B_BUFFER, C_BUFFER, D_BUFFER]
            &&& after.buffers[A_BUFFER] == device.inputs[0]
            &&& after.buffers[B_BUFFER] == device.inputs[1]
            &&& after.buffers[C_BUFFER].len() == VECTOR_COUNT
            &&& after.buffers[D_BUFFER].len() == VECTOR_COUNT
            &&& after.downloads == device.downloads
        }),
{
    let steps = add_sub_program();
    lemma_next_step(device, steps, 0);
    lemma_next_step(device, steps, 1);
    lemma_next_step(device, steps, 2);
    lemma_next_step(device, steps, 3);
    lemma_next_step(device, steps, 4);
    lemma_next_step(device, steps, 5);
    assert(steps.take(0) =~= seq![]);
    let d4 = device.after_steps(steps.take(4));
    assert(d4.sound);
    assert(d4.buffers.dom() =~= set![A_BUFFER, B_BUFFER, C_BUFFER, D_BUFFER]);
    let d6 = device.after_steps(steps.take(6));
    assert(d6.sound);
    assert(d6.buffers[A_BUFFER] =~= device.inputs[0]);
    assert(d6.buffers[B_BUFFER] =~= device.inputs[1]);
}

/// The descriptor sets of (A + B) - B.
proof fn lemma_sum_bound(device: Device)
    requires
        device.sound,
        device.pool is None,
        device.sets == Map::<usize, BoundSet>::empty(),
        device.buffers.dom() =~= set![A_BUFFER, B_BUFFER, C_BUFFER, D_BUFFER],
        device.buffers[A_BUFFER].len() == VECTOR_COUNT,
        device.buffers[B_BUFFER].len() == VECTOR_COUNT,
        device.buffers[C_BUFFER].len() == VECTOR_COUNT,
        device.buffers[D_BUFFER].len() == VECTOR_COUNT,
    ensures
        ({
            let steps = add_sub_program();
            let after = device.after_step(steps[6]).after_step(steps[7]).after_step(
                steps[8],
            ).after_step(steps[9]).after_step(steps[10]);
            &&& holds_sum(after)
            &&& after.buffers == device.buffers
            &&& after.downloads == device.downloads
        }),
{
    let steps = add_sub_program();
    lemma_pool_sizes();
    lemma_three_bound(A_BUFFER, B_BUFFER, C_BUFFER);
    lemma_three_bound(C_BUFFER, B_BUFFER, D_BUFFER);
    let d9 = device.after_step(steps[6]).after_step(steps[7]).after_step(steps[8]);
    assert(d9.sound);
    let d10 = d9.after_step(steps[9]);
    assert(d10.sound);
    let d11 = d10.after_step(steps[10]);
    assert(d11.sound);
}

/// The two passes of (A + B) - B leave A in D.
proof fn lemma_sum_passes(device: Device)
    requires
        holds_sum(device),
    ensures
        ({
            let after = device.after_step(add_sub_program()[11]);
            &&& holds_sum(after)
            &&& after.buffers[D_BUFFER] == device.buffers[A_BUFFER]
            &&& after.downloads == device.downloads
        }),
{
    let idle = device.idle();
    let plus = single(PLUS_ONE);
    let minus = single(MINUS_ONE);
    let count = VECTOR_COUNT;
    let first = dispatch_1d(
        Kernel::VectorAdd,
        FIRST_SET,
        vector_push(PLUS_ONE),
        count as u32,
        LOCAL_SIZE,
    );
    let second = dispatch_1d(
        Kernel::VectorAdd,
        SECOND_SET,
        vector_push(MINUS_ONE),
        count as u32,
        LOCAL_SIZE,
    );
    let half = first.push(compute_barrier());
    assert(two_passes(Kernel::VectorAdd, PLUS_ONE, MINUS_ONE) =~= half + second);
    lemma_one_more_command(idle, first, compute_barrier());
    lemma_commands_in_parts(idle, half, second);
    assert(vector_push(PLUS_ONE) == count_push(count, plus));
    assert(vector_push(MINUS_ONE) == count_push(count, minus));
    lemma_add(idle, FIRST_SET, A_BUFFER, B_BUFFER, C_BUFFER, count, plus);
    let added = idle.after_commands(half);
    lemma_add(added, SECOND_SET, C_BUFFER, B_BUFFER, D_BUFFER, count, minus);
    lemma_factors();
    let a = device.buffers[A_BUFFER];
    let b = device.buffers[B_BUFFER];
    let after = device.after_step(add_sub_program()[11]);
    assert forall|i: int| 0 <= i < count implies #[trigger] after.buffers[D_BUFFER][i] == a[i] by {
        vstd::arithmetic::div_mod::lemma_div_multiples_vanish(b[i], one());
        vstd::arithmetic::div_mod::lemma_div_multiples_vanish(-b[i], one());
        assert(b[i] * one() == one() * b[i]) by (nonlinear_arith);
        assert(b[i] * (-one()) == one() * (-b[i])) by (nonlinear_arith);
        assert(after.buffers[D_BUFFER][i] == added.buffers[C_BUFFER][i] + times(
            b[i],
            minus.units(),
        ));
    }
    assert(after.buffers[D_BUFFER] =~= a);
}

/// The end of (A + B) - B.
proof fn lemma_sum_released(device: Device)
    requires
        holds_sum(device),
    ensures
        ({
            let steps = add_sub_program();
            let after = device.after_step(steps[12]).after_step(steps[13]).after_step(
                steps[14],
            ).after_step(steps[15]).after_step(steps[16]).after_step(steps[17]);
            &&& after.sound
            &&& after.bare()
            &&& after.downloads == device.downloads.push(device.buffers[D_BUFFER])
        }),
{
    let d = device.buffers[D_BUFFER];
    assert(d.take(VECTOR_COUNT as int) =~= d);
}

/// On a device that computes exactly, a sum minus what was added comes back as
/// it was; no step is out of order, and nothing is left behind.
pub proof fn law_add_sub_check_is_exact(device: Device)
    requires
        device.sound,
        device.bare(),
        has_vector_inputs(device, 2),
    ensures
        ({
            let after = device.after_steps(add_sub_program());
            &&& after.sound
            &&& after.bare()
            &&& after.downloads == device.downloads.push(device.inputs[0])
        }),
{
    let steps = add_sub_program();
    assert(steps.len() == 18);
    lemma_sum_uploaded(device);
    let d6 = device.after_steps(steps.take(6));
    lemma_next_step(device, steps, 6);
    lemma_next_step(device, steps, 7);
    lemma_next_step(device, steps, 8);
    lemma_next_step(device, steps, 9);
    lemma_next_step(device, steps, 10);
    lemma_next_step(device, steps, 11);
    lemma_next_step(device, steps, 12);
    lemma_next_step(device, steps, 13);
    lemma_next_step(device, steps, 14);
    lemma_next_step(device, steps, 15);
    lemma_next_step(device, steps, 16);
    lemma_next_step(device, steps, 17);
    assert(steps.take(18) =~= steps);
    lemma_sum_bound(d6);
    let d11 = device.after_steps(steps.take(11));
    lemma_sum_passes(d11);
    lemma_sum_released(d11.after_step(steps[11]));
}

/// On a device that rounds every result to the nearest number of single
/// precision, a sum minus what was added comes back with a deviation of no more
/// than 2 to the power of -17 plus 2 to the power of -18, where both numbers
/// lie between -100 and 100.
pub proof fn law_rounded_sums_nearly_come_back(a: int, b: int)
    requires
        -100 * one() <= a <= 100 * one(),
        -100 * one() <= b <= 100 * one(),
    ensures
        ({
            let back = nearest_signed(nearest_signed(a + b) - b);
            -(pow2(132) + pow2(131)) <= back - a <= pow2(132) + pow2(131)
        }),
{
    vstd::arithmetic::power2::lemma2_to64();
    vstd::arithmetic::power2::lemma_pow2_adds(8, 149);
    vstd::arithmetic::power2::lemma_pow2_adds(7, 149);
    vstd::arithmetic::power2::lemma_pow2_adds(17, 132);
    vstd::arithmetic::power2::lemma_pow2_unfold(133);
    vstd::arithmetic::power2::lemma_pow2_unfold(132);
    vstd::arithmetic::power2::lemma_pow2_pos(131);
    law_rounding_errors_are_small(a + b, 157);
    law_rounding_errors_are_small(nearest_signed(a + b) - b, 156);
}

/// The numbers of (A + B) - B meet the bounds of the rounded sums.
pub proof fn law_rounded_sums_of_the_inputs_nearly_come_back(
    a: Seq<Float32>,
    b: Seq<Float32>,
    index: int,
)
    requires
        are_scaled(a, VECTOR_COUNT as nat, ADD_SEED_A, single(ADD_RANGE)),
        are_scaled(b, VECTOR_COUNT as nat, ADD_SEED_B, single(ADD_RANGE)),
        0 <= index < VECTOR_COUNT,
    ensures
        ({
            let back = nearest_signed(
                nearest_signed(a[index].units() + b[index].units()) - b[index].units(),
            );
            -(pow2(132) + pow2(131)) <= back - a[index].units() <= pow2(132) + pow2(131)
        }),
{
    vstd::arithmetic::power2::lemma2_to64();
    vstd::arithmetic::power2::lemma_pow2_adds(17, 132);
    assert(ADD_RANGE as nat / 0x80_0000 == 133 && ADD_RANGE as nat % 0x80_0000 == 0x48_0000);
    assert(single(ADD_RANGE).units() == 0xC8_0000 * pow2(132));
    assert(0xC8_0000 * pow2(132) == 100 * (0x2_0000 * pow2(132)));
    vstd::arithmetic::power2::lemma_pow2_pos(132);
    law_scaled_numbers_stay_in_range(ADD_SEED_A, index, single(ADD_RANGE), a[index]);
    law_scaled_numbers_stay_in_range(ADD_SEED_B, index, single(ADD_RANGE), b[index]);
    law_rounded_sums_nearly_come_back(a[index].units(), b[index].units());
}

/// On a device that rounds every result to the nearest number of single
/// precision, a number times one, plus zeros, and a number doubled and halved
/// come back as they were.
pub proof fn law_rounded_products_come_back(value: Float32)
    ensures
        nearest_signed(nearest_signed(times(value.units(), one())) + 0) == value.units(),
        nearest_signed(nearest_signed(2 * value.units()) / 2) == value.units(),
{
    law_singles_and_their_doubles_are_kept(value);
    vstd::arithmetic::power2::lemma_pow2_pos(149);
    vstd::arithmetic::div_mod::lemma_div_multiples_vanish(value.units(), one());
    assert(value.units() * one() == one() * value.units()) by (nonlinear_arith);
}

/// A test that passes so far still passes after a computation whose numbers all
/// come back with a deviation of no more than 2 to the power of -17 plus 2 to
/// the power of -18.
pub proof fn law_rounding_devices_pass(
    before: Float64,
    check: Check,
    deviations: Seq<Float64>,
    error_text: Seq<char>,
)
    requires
        error_points(before) >= 75,
        deviations.len() == check_count(check),
        forall|i: int|
            0 <= i < deviations.len() ==> (#[trigger] deviations[i]).finite()
                && deviations[i].units() <= pow2(1057) + pow2(1056),
    ensures
        precision_result(before.worse(deviation_of(check, deviations)), error_text).status
            is Passed,
{
    let limit = double(ERROR_E4);
    vstd::arithmetic::power2::lemma2_to64();
    vstd::arithmetic::power2::lemma_pow2_adds(26, 26);
    vstd::arithmetic::power2::lemma_pow2_adds(52, 1008);
    vstd::arithmetic::power2::lemma_pow2_adds(4, 1056);
    vstd::arithmetic::power2::lemma_pow2_unfold(1057);
    vstd::arithmetic::power2::lemma_pow2_pos(1056);
    vstd::arithmetic::power2::lemma_pow2_pos(1008);
    assert(ERROR_E4 as nat / 0x10_0000_0000_0000 == 1009);
    let rest = ERROR_E4 as nat % 0x10_0000_0000_0000;
    assert(limit.units() == (0x10_0000_0000_0000 + rest) * pow2(1008));
    assert((0x10_0000_0000_0000 + rest) * pow2(1008) >= 0x10_0000_0000_0000 * pow2(1008))
        by (nonlinear_arith)
        requires
            rest >= 0,
            pow2(1008) > 0,
    ;
    assert forall|i: int| 0 <= i < deviations.len() implies limit.above(
        #[trigger] deviations[i],
    ) by {
        law_floats_order_values(limit, deviations[i]);
    }
    law_worst_error_decides(deviations, limit);
}

/// A device between the binding and the release of A * 2 / 2.
pub open spec fn holds_scaled(device: Device) -> bool {
    &&& device.sound
    &&& device.pool is Some
    &&& device.sets.dom() =~= set![FIRST_SET, SECOND_SET]
    &&& device.sets[FIRST_SET].kernel == Kernel::Scale
    &&& device.sets[SECOND_SET].kernel == Kernel::Scale
    &&& device.sets[FIRST_SET].bindings =~= two(A_BUFFER, C_BUFFER)
    &&& device.sets[SECOND_SET].bindings =~= two(C_BUFFER, D_BUFFER)
    &&& device.buffers.dom() =~= set![A_BUFFER, C_BUFFER, D_BUFFER]
    &&& device.buffers[A_BUFFER].len() == VECTOR_COUNT
    &&& device.buffers[C_BUFFER].len() == VECTOR_COUNT
    &&& device.buffers[D_BUFFER].len() == VECTOR_COUNT
}

/// Allocation and upload for A * 2 / 2.
proof fn lemma_scaled_uploaded(device: Device)
    requires
        device.sound,
        device.bare(),
        has_vector_inputs(device, 1),
    ensures
        ({
            let after = device.after_steps(scale_program().take(4));
            &&& after.sound
            &&& after.pool is None
            &&& after.sets == Map::<usize, BoundSet>::empty()
            &&& after.buffers.dom() =~= set![A_BUFFER, C_BUFFER, D_BUFFER]
            &&& after.buffers[A_BUFFER] == device.inputs[0]
            &&& after.buffers[C_BUFFER].len() == VECTOR_COUNT
            &&& after.buffers[D_BUFFER].len() == VECTOR_COUNT
            &&& after.downloads == device.downloads
        }),
{
    let steps = scale_program();
    lemma_next_step(device, steps, 0);
    lemma_next_step(device, steps, 1);
    lemma_next_step(device, steps, 2);
    lemma_next_step(device, steps, 3);
    assert(steps.take(0) =~= seq![]);
    let d3 = device.after_steps(steps.take(3));
    assert(d3.sound);
    let d4 = device.after_steps(steps.take(4));
    assert(d4.sound);
    assert(d4.buffers[A_BUFFER] =~= device.inputs[0]);
}

/// The descriptor sets of A * 2 / 2.
proof fn lemma_scaled_bound(device: Device)
    requires
        device.sound,
        device.pool is None,
        device.sets == Map::<usize, BoundSet>::empty(),
        device.buffers.dom() =~= set![A_BUFFER, C_BUFFER, D_BUFFER],
        device.buffers[A_BUFFER].len() == VECTOR_COUNT,
        device.buffers[C_BUFFER].len() == VECTOR_COUNT,
        device.buffers[D_BUFFER].len() == VECTOR_COUNT,
    ensures
        ({
            let steps = scale_program();
            let after = device.after_step(steps[4]).after_step(steps[5]).after_step(
                steps[6],
            ).after_step(steps[7]).after_step(steps[8]);
            &&& holds_scaled(after)
            &&& after.buffers == device.buffers
            &&& after.downloads == device.downloads
        }),
{
    let steps = scale_program();
    lemma_pool_sizes();
    lemma_two_bound(A_BUFFER, C_BUFFER);
    lemma_two_bound(C_BUFFER, D_BUFFER);
    let d7 = device.after_step(steps[4]).after_step(steps[5]).after_step(steps[6]);
    assert(d7.sound);
    let d8 = d7.after_step(steps[7]);
    assert(d8.sound);
    let d9 = d8.after_step(steps[8]);
    assert(d9.sound);
}

/// The two passes of A * 2 / 2 leave A in D.
proof fn lemma_scaled_passes(device: Device)
    requires
        holds_scaled(device),
    ensures
        ({
            let after = device.after_step(scale_program()[9]);
            &&& holds_scaled(after)
            &&& after.buffers[D_BUFFER] == device.buffers[A_BUFFER]
            &&& after.downloads == device.downloads
        }),
{
    let idle = device.idle();
    let double = single(TWO);
    let halve = single(HALF);
    let count = VECTOR_COUNT;
    let first = dispatch_1d(Kernel::Scale, FIRST_SET, vector_push(TWO), count as u32, LOCAL_SIZE);
    let second = dispatch_1d(
        Kernel::Scale,
        SECOND_SET,
        vector_push(HALF),
        count as u32,
        LOCAL_SIZE,
    );
    let half = first.push(compute_barrier());
    assert(two_passes(Kernel::Scale, TWO, HALF) =~= half + second);
    lemma_one_more_command(idle, first, compute_barrier());
    lemma_commands_in_parts(idle, half, second);
    assert(vector_push(TWO) == count_push(count, double));
    assert(vector_push(HALF) == count_push(count, halve));
    lemma_scale(idle, FIRST_SET, A_BUFFER, C_BUFFER, count, double);
    let doubled = idle.after_commands(half);
    lemma_scale(doubled, SECOND_SET, C_BUFFER, D_BUFFER, count, halve);
    lemma_factors();
    let a = device.buffers[A_BUFFER];
    let after = device.after_step(scale_program()[9]);
    let h = halve.units();
    assert forall|i: int| 0 <= i < count implies #[trigger] after.buffers[D_BUFFER][i] == a[i] by {
        vstd::arithmetic::div_mod::lemma_div_multiples_vanish(2 * a[i], one());
        vstd::arithmetic::div_mod::lemma_div_multiples_vanish(a[i], one());
        assert(a[i] * (2 * one()) == one() * (2 * a[i])) by (nonlinear_arith);
        assert((2 * a[i]) * h == one() * a[i]) by (nonlinear_arith)
            requires
                2 * h == one(),
        ;
        assert(doubled.buffers[C_BUFFER][i] == 2 * a[i]);
        assert(after.buffers[D_BUFFER][i] == times(doubled.buffers[C_BUFFER][i], h));
    }
    assert(after.buffers[D_BUFFER] =~= a);
}

/// The end of A * 2 / 2.
proof fn lemma_scaled_released(device: Device)
    requires
        holds_scaled(device),
    ensures
        ({
            let steps = scale_program();
            let after = device.after_step(steps[10]).after_step(steps[11]).after_step(
                steps[12],
            ).after_step(steps[13]).after_step(steps[14]);
            &&& after.sound
            &&& after.bare()
            &&& after.downloads == device.downloads.push(device.buffers[D_BUFFER])
        }),
{
    let d = device.buffers[D_BUFFER];
    assert(d.take(VECTOR_COUNT as int) =~= d);
}

/// On a device that computes exactly, a doubled number halved comes back as it
/// was; no step is out of order, and nothing is left behind.
pub proof fn law_scale_check_is_exact(device: Device)
    requires
        device.sound,
        device.bare(),
        has_vector_inputs(device, 1),
    ensures
        ({
            let after = device.after_steps(scale_program());
            &&& after.sound
            &&& after.bare()
            &&& after.downloads == device.downloads.push(device.inputs[0])
        }),
{
    let steps = scale_program();
    assert(steps.len() == 15);
    lemma_scaled_uploaded(device);
    let d4 = device.after_steps(steps.take(4));
    lemma_next_step(device, steps, 4);
    lemma_next_step(device, steps, 5);
    lemma_next_step(device, steps, 6);
    lemma_next_step(device, steps, 7);
    lemma_next_step(device, steps, 8);
    lemma_next_step(device, steps, 9);
    lemma_next_step(device, steps, 10);
    lemma_next_step(device, steps, 11);
    lemma_next_step(device, steps, 12);
    lemma_next_step(device, steps, 13);
    lemma_next_step(device, steps, 14);
    assert(steps.take(15) =~= steps);
    lemma_scaled_bound(d4);
    let d9 = device.after_steps(steps.take(9));
    lemma_scaled_passes(d9);
    lemma_scaled_released(d9.after_step(steps[9]));
}

} // verus!
