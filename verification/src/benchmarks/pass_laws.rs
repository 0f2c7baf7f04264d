//! What the passes of the computations do to whatever the buffers hold, and what
//! is found where a device computes something else.
use vstd::prelude::*;

#[allow(unused_imports)]
use super::bandwidth::{
    chain, chain_step, op_set, push_of, run_program, verify_bind, verify_step, warm_program,
    ADDED_VALUE, A_BUFFER, B_BUFFER, C_BUFFER, EXPECTED_VALUE, LOCAL_SIZE, RESULT_BUFFER,
    START_VALUE, VERIFY_SET,
};
#[allow(unused_imports)]
use super::bandwidth_laws::{chain_end, countable, lemma_chain_values, lemma_filled, set_up};
#[allow(unused_imports)]
use super::precision::{
    add_sub_program, scale_program, vector_push, D_BUFFER, FIRST_SET, HALF, MINUS_ONE, PLUS_ONE,
    SECOND_SET, TWO, VECTOR_COUNT,
};
#[allow(unused_imports)]
use super::precision_laws::{holds_scaled, holds_sum, lemma_factors};
#[allow(unused_imports)]
use crate::compute::Kernel;
#[allow(unused_imports)]
use crate::float_bits::{law_equal_floats_have_equal_values, single, Float32};
#[allow(unused_imports)]
use crate::ideal::{
    count_push, differing, law_mismatches_are_counted, lemma_add, lemma_commands_in_parts,
    lemma_next_step, lemma_one_more_command, lemma_scale, lemma_verify, one, times, Device,
};
#[allow(unused_imports)]
use crate::program::{compute_barrier, dispatch_1d, transfer_barrier, Command};
#[allow(unused_imports)]
use crate::session::{outcome_of, steps_of, Event};

verus! {

proof fn lemma_times_one(units: int)
    ensures
        times(units, one()) == units,
        times(units, -one()) == -units,
        times(units, 2 * one()) == 2 * units,
{
    vstd::arithmetic::power2::lemma_pow2_pos(149);
    vstd::arithmetic::div_mod::lemma_div_multiples_vanish(units, one());
    vstd::arithmetic::div_mod::lemma_div_multiples_vanish(-units, one());
    vstd::arithmetic::div_mod::lemma_div_multiples_vanish(2 * units, one());
    assert(units * one() == one() * units) by (nonlinear_arith);
    assert(units * (-one()) == one() * (-units)) by (nonlinear_arith);
    assert(units * (2 * one()) == one() * (2 * units)) by (nonlinear_arith);
}

proof fn lemma_times_half(units: int)
    ensures
        times(units, single(HALF).units()) == units / 2,
{
    lemma_factors();
    let h = single(HALF).units();
    assert(units * h / (2 * h) == units / 2) by (nonlinear_arith)
        requires
            h > 0,
    ;
}

proof fn lemma_chain_sums(device: Device, count: usize, ops: nat)
    requires
        set_up(device, count),
        device == device.idle(),
        countable(count),
    ensures
        ({
            let after = device.after_commands(chain(count, ops));
            &&& set_up(after, count)
            &&& after.reads == device.reads
            &&& after.kernel_writes == Set::<usize>::empty()
            &&& after.transfer_writes == Set::<usize>::empty()
            &&& after.buffers[B_BUFFER] == device.buffers[B_BUFFER]
            &&& after.buffers[chain_end(ops)] == Seq::new(
                count as nat,
                |i: int| device.buffers[A_BUFFER][i] + ops * device.buffers[B_BUFFER][i],
            )
        }),
    decreases ops,
{
    let a = device.buffers[A_BUFFER];
    let b = device.buffers[B_BUFFER];
    if ops == 0 {
        assert(a =~= Seq::new(count as nat, |i: int| a[i] + 0 * b[i]));
    } else {
        let last = (ops - 1) as nat;
        lemma_chain_sums(device, count, last);
        let before = device.after_commands(chain(count, last));
        let set = op_set(last);
        let from = chain_end(last);
        let to = chain_end(ops);
        let value = single(START_VALUE);
        let data = push_of(count, START_VALUE);
        let add = dispatch_1d(Kernel::VectorAdd, set, data, count as u32, LOCAL_SIZE);
        assert(data == count_push(count, value));
        lemma_commands_in_parts(device, chain(count, last), add);
        assert(chain(count, ops) =~= (chain(count, last) + add).push(compute_barrier()));
        lemma_one_more_command(device, chain(count, last) + add, compute_barrier());
        lemma_add(before, set, from, B_BUFFER, to, count, value);
        lemma_chain_values();
        let after = device.after_commands(chain(count, ops));
        assert forall|i: int| 0 <= i < count implies #[trigger] after.buffers[to][i] == a[i] + ops
            * b[i] by {
            lemma_times_one(b[i]);
            assert(before.buffers[from][i] == a[i] + last * b[i]);
            assert(last * b[i] + b[i] == ops * b[i]) by (nonlinear_arith)
                requires
                    last == ops - 1,
            ;
        }
        assert(after.buffers[to] =~= Seq::new(count as nat, |i: int| a[i] + ops * b[i]));
        assert(after.kernel_writes =~= Set::<usize>::empty());
    }
}

/// The chain adds what the second buffer holds eight times to what the first one
/// holds, number by number, whatever that is.
pub proof fn law_the_chain_adds_eight_times(device: Device, count: usize)
    requires
        set_up(device, count),
        countable(count),
    ensures
        ({
            let after = device.after_step(chain_step(count));
            &&& set_up(after, count)
            &&& after.reads == device.reads
            &&& after.buffers[B_BUFFER] == device.buffers[B_BUFFER]
            &&& forall|i: int|
                0 <= i < count ==> #[trigger] after.buffers[A_BUFFER][i]
                    == device.buffers[A_BUFFER][i] + 8 * device.buffers[B_BUFFER][i]
        }),
{
    lemma_chain_sums(device.idle(), count, 8);
}

/// Before a run the first buffer is filled with ones, whatever it held, and
/// before the first run the second one with quarters.
pub proof fn law_runs_start_from_ones(device: Device, count: usize, run: usize)
    requires
        set_up(device, count),
        countable(count),
    ensures
        ({
            let warm = device.after_steps(steps_of(warm_program(count)).take(4));
            let after = device.after_steps(steps_of(run_program(count, run)).take(2));
            &&& warm.sound
            &&& forall|i: int| 0 <= i < count ==> #[trigger] warm.buffers[A_BUFFER][i] == one()
            &&& forall|i: int|
                0 <= i < count ==> 4 * #[trigger] warm.buffers[B_BUFFER][i] == one()
            &&& warm.buffers[B_BUFFER].len() == count
            &&& after.sound
            &&& after.buffers[A_BUFFER].len() == count
            &&& forall|i: int| 0 <= i < count ==> #[trigger] after.buffers[A_BUFFER][i] == one()
            &&& after.buffers[B_BUFFER] == device.buffers[B_BUFFER]
        }),
{
    lemma_chain_values();
    let w = steps_of(warm_program(count));
    let t = steps_of(run_program(count, run));
    assert(w.len() == 5 && t.len() == 9);
    lemma_next_step(device, w, 0);
    lemma_next_step(device, w, 1);
    lemma_next_step(device, w, 2);
    lemma_next_step(device, w, 3);
    lemma_next_step(device, t, 0);
    lemma_next_step(device, t, 1);
    assert(w.take(0) =~= seq![] && t.take(0) =~= seq![]);
    lemma_filled(device, A_BUFFER, count, START_VALUE);
    let first = device.after_steps(w.take(2));
    lemma_filled(first, B_BUFFER, count, ADDED_VALUE);
}

proof fn lemma_sums_compared(device: Device, count: usize)
    requires
        set_up(device, count),
        countable(count),
    ensures
        ({
            let after = device.after_step(verify_bind(count)).after_step(verify_step(count));
            &&& set_up(after, count)
            &&& after.reads == device.reads
            &&& after.buffers[A_BUFFER] == device.buffers[A_BUFFER]
            &&& after.buffers[RESULT_BUFFER] == seq![
                differing(device.buffers[A_BUFFER], 3 * one()).len() as int,
            ]
        }),
{
    let expected = single(EXPECTED_VALUE);
    lemma_chain_values();
    let bindings = verify_bind(count)->bindings;
    let first = seq![bindings[0]];
    assert(bindings.drop_last() =~= first);
    assert(first.drop_last() =~= seq![]);
    reveal_with_fuel(Device::rebound, 3);
    let bound = device.after_step(verify_bind(count));
    assert(bound.sound);
    let idle = bound.idle();
    let none = Seq::<Command>::empty();
    let reset = Command::FillBuffer { buffer: RESULT_BUFFER, offset: 0, size: 4, word: 0 };
    let c1 = none.push(reset);
    let c2 = c1.push(transfer_barrier());
    let data = push_of(count, EXPECTED_VALUE);
    let verify = dispatch_1d(Kernel::Verify, VERIFY_SET, data, count as u32, LOCAL_SIZE);
    assert(verify_step(count)->commands =~= c2 + verify);
    lemma_one_more_command(idle, none, reset);
    lemma_one_more_command(idle, c1, transfer_barrier());
    lemma_commands_in_parts(idle, c2, verify);
    let reset_done = idle.after_commands(c2);
    assert(reset_done.buffers[RESULT_BUFFER] =~= seq![0int]);
    assert(reset_done.sound);
    assert(data == count_push(count, expected));
    lemma_verify(reset_done, VERIFY_SET, A_BUFFER, RESULT_BUFFER, count, expected);
    law_mismatches_are_counted(reset_done.buffers[A_BUFFER], expected.units());
}

/// Whatever the first buffer holds after the chain was timed, the run reads its
/// first number, and then how many of all its numbers are not three. The run goes
/// on only where the first is three and the second is none.
pub proof fn law_every_wrong_sum_is_found(
    device: Device,
    count: usize,
    run: usize,
    contents: Seq<int>,
)
    requires
        set_up(device, count),
        countable(count),
        contents.len() == count,
    ensures
        ({
            let tasks = run_program(count, run);
            let t = steps_of(tasks);
            let timed = device.after_steps(t.take(5));
            let after = timed.holding(A_BUFFER, contents).after_steps(t.skip(5));
            &&& t[4] is StopClock
            &&& after.sound
            &&& after.reads == device.reads.push(contents[0]).push(
                differing(contents, 3 * one()).len() as int,
            )
            &&& t[5] is ReadFloat && t[8] is ReadWord
            &&& forall|f: Float32| #[trigger]
                f.finite() ==> (outcome_of(tasks[5].expect, Event::Float(f)) is Accepted
                    <==> f.units() == 3 * one())
            &&& forall|f: Float32|
                !f.finite() ==> #[trigger] outcome_of(
                    tasks[5].expect,
                    Event::Float(f),
                ) is Mismatch
            &&& forall|n: u32|
                (#[trigger] outcome_of(tasks[8].expect, Event::Word(n)) is Accepted <==> n == 0)
            &&& forall|i: int|
                0 <= i < tasks.len() ==> (#[trigger] tasks[i]).round == run && (tasks[i].expect
                    is Success <==> i != 5 && i != 8)
        }),
        forall|i: int|
            0 <= i < count && #[trigger] contents[i] != 3 * one() ==> differing(
                contents,
                3 * one(),
            ).len() > 0,
{
    lemma_chain_values();
    let tasks = run_program(count, run);
    let t = steps_of(tasks);
    assert(t.len() == 9);
    lemma_next_step(device, t, 0);
    lemma_next_step(device, t, 1);
    lemma_next_step(device, t, 2);
    lemma_next_step(device, t, 3);
    lemma_next_step(device, t, 4);
    assert(t.take(0) =~= seq![]);
    lemma_filled(device, A_BUFFER, count, START_VALUE);
    let d2 = device.after_steps(t.take(2));
    assert(t[3] == chain_step(count));
    law_the_chain_adds_eight_times(d2, count);
    let timed = device.after_steps(t.take(5));
    assert(set_up(timed, count));
    let changed = timed.holding(A_BUFFER, contents);
    assert(set_up(changed, count));
    let rest = t.skip(5);
    assert(rest.len() == 4);
    lemma_next_step(changed, rest, 0);
    lemma_next_step(changed, rest, 1);
    lemma_next_step(changed, rest, 2);
    lemma_next_step(changed, rest, 3);
    assert(rest.take(0) =~= seq![] && rest.take(4) =~= rest);
    let read = changed.after_step(rest[0]);
    assert(set_up(read, count));
    assert(rest[1] == verify_bind(count) && rest[2] == verify_step(count));
    lemma_sums_compared(read, count);
    let three = single(EXPECTED_VALUE);
    assert forall|f: Float32| #[trigger] f.finite() implies (outcome_of(
        tasks[5].expect,
        Event::Float(f),
    ) is Accepted <==> f.units() == 3 * one()) by {
        law_equal_floats_have_equal_values(f, three);
    }
    law_mismatches_are_counted(contents, 3 * one());
}

/// The first pass of (A + B) - B leaves A + B in the third buffer. Whatever that
/// buffer has come to hold, the second pass leaves it less B in the fourth, and
/// does not look at A.
pub open spec fn sums_are_taken_back(device: Device, contents: Seq<int>, split: int) -> bool {
    let commands = add_sub_program()[11]->commands;
    let added = device.idle().after_commands(commands.take(split));
    let after = added.holding(C_BUFFER, contents).after_commands(commands.skip(split)).idle();
    &&& 0 <= split <= commands.len()
    &&& added.sound
    &&& forall|i: int|
        0 <= i < 262_144 ==> #[trigger] added.buffers[C_BUFFER][i] == device.buffers[A_BUFFER][i]
            + device.buffers[B_BUFFER][i]
    &&& after.sound
    &&& after.buffers[D_BUFFER].len() == 262_144
    &&& forall|i: int|
        0 <= i < 262_144 ==> #[trigger] after.buffers[D_BUFFER][i] == contents[i]
            - device.buffers[B_BUFFER][i]
}

/// The sum is computed by one pass and taken back by another, over all numbers.
pub proof fn law_sums_are_computed_and_taken_back(device: Device, contents: Seq<int>)
    requires
        holds_sum(device),
        contents.len() == 262_144,
    ensures
        add_sub_program()[11] is Execute,
        exists|split: int| #[trigger] sums_are_taken_back(device, contents, split),
{
    let idle = device.idle();
    let plus = single(PLUS_ONE);
    let minus = single(MINUS_ONE);
    let count = VECTOR_COUNT;
    let n = count as u32;
    let data = vector_push(PLUS_ONE);
    let first = dispatch_1d(Kernel::VectorAdd, FIRST_SET, data, n, 256);
    let less = vector_push(MINUS_ONE);
    let second = dispatch_1d(Kernel::VectorAdd, SECOND_SET, less, n, 256);
    let half = first.push(compute_barrier());
    let commands = add_sub_program()[11]->commands;
    let split = half.len() as int;
    assert(commands =~= half + second);
    assert(commands.take(split) =~= half && commands.skip(split) =~= second);
    lemma_one_more_command(idle, first, compute_barrier());
    assert(data == count_push(count, plus) && less == count_push(count, minus));
    lemma_add(idle, FIRST_SET, A_BUFFER, B_BUFFER, C_BUFFER, count, plus);
    let added = idle.after_commands(half);
    assert(added.kernel_writes =~= Set::<usize>::empty());
    let changed = added.holding(C_BUFFER, contents);
    lemma_add(changed, SECOND_SET, C_BUFFER, B_BUFFER, D_BUFFER, count, minus);
    lemma_factors();
    let b = device.buffers[B_BUFFER];
    let after = changed.after_commands(second).idle();
    assert forall|i: int| 0 <= i < 262_144 implies #[trigger] added.buffers[C_BUFFER][i]
        == device.buffers[A_BUFFER][i] + b[i] by {
        lemma_times_one(b[i]);
    }
    assert forall|i: int| 0 <= i < 262_144 implies #[trigger] after.buffers[D_BUFFER][i]
        == contents[i] - b[i] by {
        lemma_times_one(b[i]);
    }
    assert(sums_are_taken_back(device, contents, split));
}

/// The first pass of A * 2 / 2 leaves twice A in the third buffer. Whatever that
/// buffer has come to hold, the second pass leaves half of it in the fourth.
pub open spec fn doubles_are_halved(device: Device, contents: Seq<int>, split: int) -> bool {
    let commands = scale_program()[9]->commands;
    let doubled = device.idle().after_commands(commands.take(split));
    let after = doubled.holding(C_BUFFER, contents).after_commands(commands.skip(split)).idle();
    &&& 0 <= split <= commands.len()
    &&& doubled.sound
    &&& forall|i: int|
        0 <= i < 262_144 ==> #[trigger] doubled.buffers[C_BUFFER][i] == 2
            * device.buffers[A_BUFFER][i]
    &&& after.sound
    &&& after.buffers[D_BUFFER].len() == 262_144
    &&& forall|i: int|
        0 <= i < 262_144 ==> #[trigger] after.buffers[D_BUFFER][i] == contents[i] / 2
}

/// The numbers are doubled by one pass and halved by another, all of them.
pub proof fn law_numbers_are_doubled_and_halved(device: Device, contents: Seq<int>)
    requires
        holds_scaled(device),
        contents.len() == 262_144,
    ensures
        scale_program()[9] is Execute,
        exists|split: int| #[trigger] doubles_are_halved(device, contents, split),
{
    let idle = device.idle();
    let double = single(TWO);
    let halve = single(HALF);
    let count = VECTOR_COUNT;
    let n = count as u32;
    let data = vector_push(TWO);
    let first = dispatch_1d(Kernel::Scale, FIRST_SET, data, n, 256);
    let less = vector_push(HALF);
    let second = dispatch_1d(Kernel::Scale, SECOND_SET, less, n, 256);
    let half = first.push(compute_barrier());
    let commands = scale_program()[9]->commands;
    let split = half.len() as int;
    assert(commands =~= half + second);
    assert(commands.take(split) =~= half && commands.skip(split) =~= second);
    lemma_one_more_command(idle, first, compute_barrier());
    assert(data == count_push(count, double) && less == count_push(count, halve));
    lemma_scale(idle, FIRST_SET, A_BUFFER, C_BUFFER, count, double);
    let doubled = idle.after_commands(half);
    assert(doubled.kernel_writes =~= Set::<usize>::empty());
    let changed = doubled.holding(C_BUFFER, contents);
    lemma_scale(changed, SECOND_SET, C_BUFFER, D_BUFFER, count, halve);
    lemma_factors();
    let after = changed.after_commands(second).idle();
    assert forall|i: int| 0 <= i < 262_144 implies #[trigger] doubled.buffers[C_BUFFER][i] == 2
        * device.buffers[A_BUFFER][i] by {
        lemma_times_one(device.buffers[A_BUFFER][i]);
    }
    assert forall|i: int| 0 <= i < 262_144 implies #[trigger] after.buffers[D_BUFFER][i]
        == contents[i] / 2 by {
        lemma_times_half(contents[i]);
    }
    assert(doubles_are_halved(device, contents, split));
}

} // verus!
