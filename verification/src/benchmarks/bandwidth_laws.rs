//! What the bandwidth measurement does on a device without faults.
use vstd::arithmetic::power2::pow2;
use vstd::prelude::*;

#[allow(unused_imports)]
use super::bandwidth::{
    add_bindings, bandwidth_program, chain, chain_step, fill_steps, op_set, push_of,
    release_program, run_program, runs_program, setup_steps, verify_bind, verify_step,
    warm_program, AC_SET, ADDED_VALUE, A_BUFFER, B_BUFFER, CA_SET, C_BUFFER, EXPECTED_VALUE,
    FILL_SET, LOCAL_SIZE, OPS, RESULT_BUFFER, RUNS, START_VALUE, VERIFY_SET,
};
#[allow(unused_imports)]
use crate::compute::{lemma_pool_sizes, Binding, Kernel};
#[allow(unused_imports)]
use crate::float_bits::{magnitude_units, single};
#[allow(unused_imports)]
use crate::ideal::{
    lemma_add, lemma_commands_in_parts, lemma_fill, lemma_next_step, lemma_no_mismatches,
    lemma_one_more_command, lemma_one_more_step, lemma_steps_in_parts, lemma_verify, one, times,
    BoundSet, Device, PoolRest,
};
#[allow(unused_imports)]
use crate::program::{compute_barrier, dispatch_1d, transfer_barrier, Command, StepView};
#[allow(unused_imports)]
use crate::session::steps_of;

verus! {

/// The values of the chain in units: one, a quarter, and three.
pub proof fn lemma_chain_values()
    ensures
        single(START_VALUE).units() == one(),
        4 * single(ADDED_VALUE).units() == one(),
        single(EXPECTED_VALUE).units() == 3 * one(),
        one() > 0,
{
    vstd::arithmetic::power2::lemma_pow2_pos(149);
    vstd::arithmetic::power2::lemma_pow2_adds(23, 126);
    vstd::arithmetic::power2::lemma_pow2_adds(23, 124);
    vstd::arithmetic::power2::lemma_pow2_adds(2, 147);
    vstd::arithmetic::power2::lemma_pow2_adds(22, 127);
    vstd::arithmetic::power2::lemma2_to64();
    assert(START_VALUE as nat / 0x80_0000 == 127 && START_VALUE as nat % 0x80_0000 == 0);
    assert(ADDED_VALUE as nat / 0x80_0000 == 125 && ADDED_VALUE as nat % 0x80_0000 == 0);
    assert(EXPECTED_VALUE as nat / 0x80_0000 == 128 && EXPECTED_VALUE as nat % 0x80_0000
        == 0x40_0000);
    assert(magnitude_units(EXPECTED_VALUE as nat, 0x80_0000) == (0x80_0000 + 0x40_0000) * pow2(
        127,
    ));
}

/// A buffer that holds one value throughout.
pub open spec fn constant(count: usize, value: int) -> Seq<int> {
    Seq::new(count as nat, |i: int| value)
}

/// A device that is set up for the measurement: everything is alive, and both
/// additions are bound.
pub open spec fn set_up(device: Device, count: usize) -> bool {
    &&& device.sound
    &&& device.pool is Some
    &&& device.sets.dom() =~= set![FILL_SET, VERIFY_SET, AC_SET, CA_SET]
    &&& device.sets[FILL_SET].kernel == Kernel::Fill
    &&& device.sets[VERIFY_SET].kernel == Kernel::Verify
    &&& device.sets[AC_SET].kernel == Kernel::VectorAdd
    &&& device.sets[CA_SET].kernel == Kernel::VectorAdd
    &&& device.sets[AC_SET].bindings =~= Map::<u32, usize>::empty().insert(0, A_BUFFER).insert(
        1,
        B_BUFFER,
    ).insert(2, C_BUFFER)
    &&& device.sets[CA_SET].bindings =~= Map::<u32, usize>::empty().insert(0, C_BUFFER).insert(
        1,
        B_BUFFER,
    ).insert(2, A_BUFFER)
    &&& device.buffers.dom() =~= set![A_BUFFER, B_BUFFER, C_BUFFER, RESULT_BUFFER]
    &&& device.buffers[A_BUFFER].len() == count
    &&& device.buffers[B_BUFFER].len() == count
    &&& device.buffers[C_BUFFER].len() == count
    &&& device.buffers[RESULT_BUFFER].len() == 1
}

/// A device that is set up and holds the number to add.
pub open spec fn ready(device: Device, count: usize) -> bool {
    &&& set_up(device, count)
    &&& device.buffers[B_BUFFER] == constant(count, single(ADDED_VALUE).units())
}

/// Whether so many elements can be handled.
pub open spec fn countable(count: usize) -> bool {
    0 < count && count * 4 <= usize::MAX && count + 255 <= u32::MAX
}

proof fn lemma_three_bound(old: Map<u32, usize>, from: usize, to: usize, bytes: u64)
    ensures
        Device::rebound(old, add_bindings(from, to, bytes)) == old.insert(0, from).insert(
            1,
            B_BUFFER,
        ).insert(2, to),
{
    let all = add_bindings(from, to, bytes);
    let none = Seq::<Binding>::empty();
    let first = none.push(all[0]);
    let second = first.push(all[1]);
    assert(all.drop_last() =~= second);
    assert(second.drop_last() =~= first);
    assert(first.drop_last() =~= none);
    reveal_with_fuel(Device::rebound, 4);
}

/// The first five steps of the setup: the buffers and the pool.
proof fn lemma_allocated(device: Device, count: usize)
    requires
        device.sound,
        device.bare(),
        countable(count),
    ensures
        ({
            let after = device.after_steps(setup_steps((count * 4) as u64).take(5));
            &&& after.sound
            &&& after.pool == Some(PoolRest { sets: 4, storage_buffers: 36 })
            &&& after.sets == Map::<usize, BoundSet>::empty()
            &&& after.buffers.dom() =~= set![A_BUFFER, B_BUFFER, C_BUFFER, RESULT_BUFFER]
            &&& after.buffers[A_BUFFER].len() == count
            &&& after.buffers[B_BUFFER].len() == count
            &&& after.buffers[C_BUFFER].len() == count
            &&& after.buffers[RESULT_BUFFER].len() == 1
            &&& after.reads == device.reads
        }),
{
    let steps = setup_steps((count * 4) as u64);
    lemma_pool_sizes();
    lemma_next_step(device, steps, 0);
    lemma_next_step(device, steps, 1);
    lemma_next_step(device, steps, 2);
    lemma_next_step(device, steps, 3);
    lemma_next_step(device, steps, 4);
    assert(steps.take(0) =~= seq![]);
    let d1 = device.after_steps(steps.take(1));
    assert(d1.sound);
    let d2 = device.after_steps(steps.take(2));
    assert(d2.sound);
    let d3 = device.after_steps(steps.take(3));
    assert(d3.sound);
    let d4 = device.after_steps(steps.take(4));
    assert(d4.sound);
}

/// The setup leads from a bare device to one that is set up.
proof fn lemma_setup(device: Device, count: usize)
    requires
        device.sound,
        device.bare(),
        countable(count),
    ensures
        set_up(device.after_steps(setup_steps((count * 4) as u64)), count),
        device.after_steps(setup_steps((count * 4) as u64)).reads == device.reads,
{
    let bytes = (count * 4) as u64;
    let steps = setup_steps(bytes);
    lemma_allocated(device, count);
    let d5 = device.after_steps(steps.take(5));
    lemma_next_step(device, steps, 5);
    lemma_next_step(device, steps, 6);
    lemma_next_step(device, steps, 7);
    lemma_next_step(device, steps, 8);
    let d9 = device.after_steps(steps.take(9));
    assert(d9 == d5.after_step(steps[5]).after_step(steps[6]).after_step(steps[7]).after_step(
        steps[8],
    ));
    lemma_sets_allocated(d5, count);
    lemma_next_step(device, steps, 9);
    lemma_next_step(device, steps, 10);
    assert(steps.take(11) =~= steps);
    lemma_additions_bound(d9, count);
}

/// The next four steps of the setup: the descriptor sets.
proof fn lemma_sets_allocated(device: Device, count: usize)
    requires
        device.sound,
        device.pool == Some(PoolRest { sets: 4, storage_buffers: 36 }),
        device.sets == Map::<usize, BoundSet>::empty(),
    ensures
        ({
            let steps = setup_steps((count * 4) as u64);
            let after = device.after_step(steps[5]).after_step(steps[6]).after_step(
                steps[7],
            ).after_step(steps[8]);
            &&& after.sound
            &&& after.pool is Some
            &&& after.sets.dom() =~= set![FILL_SET, VERIFY_SET, AC_SET, CA_SET]
            &&& after.sets[FILL_SET].kernel == Kernel::Fill
            &&& after.sets[VERIFY_SET].kernel == Kernel::Verify
            &&& after.sets[AC_SET] == (BoundSet {
                kernel: Kernel::VectorAdd,
                bindings: Map::empty(),
            })
            &&& after.sets[CA_SET] == (BoundSet {
                kernel: Kernel::VectorAdd,
                bindings: Map::empty(),
            })
            &&& after.buffers == device.buffers
            &&& after.reads == device.reads
        }),
{
}

/// The last two steps of the setup: the additions are bound.
proof fn lemma_additions_bound(device: Device, count: usize)
    requires
        countable(count),
        device.sound,
        device.pool is Some,
        device.sets.dom() =~= set![FILL_SET, VERIFY_SET, AC_SET, CA_SET],
        device.sets[FILL_SET].kernel == Kernel::Fill,
        device.sets[VERIFY_SET].kernel == Kernel::Verify,
        device.sets[AC_SET] == (BoundSet { kernel: Kernel::VectorAdd, bindings: Map::empty() }),
        device.sets[CA_SET] == (BoundSet { kernel: Kernel::VectorAdd, bindings: Map::empty() }),
        device.buffers.dom() =~= set![A_BUFFER, B_BUFFER, C_BUFFER, RESULT_BUFFER],
        device.buffers[A_BUFFER].len() == count,
        device.buffers[B_BUFFER].len() == count,
        device.buffers[C_BUFFER].len() == count,
        device.buffers[RESULT_BUFFER].len() == 1,
    ensures
        ({
            let steps = setup_steps((count * 4) as u64);
            let after = device.after_step(steps[9]).after_step(steps[10]);
            &&& set_up(after, count)
            &&& after.reads == device.reads
        }),
{
    let bytes = (count * 4) as u64;
    let steps = setup_steps(bytes);
    lemma_three_bound(Map::empty(), A_BUFFER, C_BUFFER, bytes);
    lemma_three_bound(Map::empty(), C_BUFFER, A_BUFFER, bytes);
    let once = device.after_step(steps[9]);
    assert(once.sound);
    let twice = once.after_step(steps[10]);
    assert(twice.sound);
}

/// What binding and filling one of the large buffers does.
pub proof fn lemma_filled(device: Device, buffer: usize, count: usize, value: u32)
    requires
        set_up(device, count),
        countable(count),
        buffer == A_BUFFER || buffer == B_BUFFER,
    ensures
        ({
            let steps = fill_steps(buffer, count, value);
            let bound = device.after_step(steps[0]);
            let filled = bound.after_step(steps[1]);
            &&& set_up(bound, count)
            &&& bound.buffers == device.buffers
            &&& bound.reads == device.reads
            &&& set_up(filled, count)
            &&& filled.buffers == device.buffers.insert(
                buffer,
                constant(count, single(value).units()),
            )
            &&& filled.reads == device.reads
        }),
{
    let steps = fill_steps(buffer, count, value);
    let bindings = seq![Binding { binding: 0u32, buffer, bytes: (count * 4) as u64 }];
    assert(bindings.drop_last() =~= seq![]);
    reveal_with_fuel(Device::rebound, 2);
    let bound = device.after_step(steps[0]);
    assert(bound.sound);
    let idle = bound.idle();
    assert(push_of(count, value) == crate::ideal::count_push(count, single(value)));
    lemma_fill(idle, FILL_SET, buffer, count, single(value));
    assert(constant(count, single(value).units()) =~= Seq::new(
        count as nat,
        |i: int| single(value).units(),
    ));
}

/// The buffer that holds the result after so many additions.
pub open spec fn chain_end(ops: nat) -> usize {
    if ops % 2 == 0 {
        A_BUFFER
    } else {
        C_BUFFER
    }
}

/// After some additions of the chain their result lies in one of the two
/// buffers that take turns, and nothing is pending.
proof fn lemma_chain(device: Device, count: usize, ops: nat, start: int)
    requires
        ready(device, count),
        device == device.idle(),
        countable(count),
        device.buffers[A_BUFFER] == constant(count, start),
    ensures
        ({
            let after = device.after_commands(chain(count, ops));
            &&& ready(after, count)
            &&& after.reads == device.reads
            &&& after.kernel_writes == Set::<usize>::empty()
            &&& after.transfer_writes == Set::<usize>::empty()
            &&& after.buffers[chain_end(ops)] == constant(
                count,
                start + ops * single(ADDED_VALUE).units(),
            )
        }),
    decreases ops,
{
    let added = single(ADDED_VALUE).units();
    if ops == 0 {
        assert(constant(count, start) =~= constant(count, start + 0 * added));
    } else {
        let last = (ops - 1) as nat;
        lemma_chain(device, count, last, start);
        let before = device.after_commands(chain(count, last));
        let set = op_set(last);
        let from = chain_end(last);
        let to = chain_end(ops);
        let value = single(START_VALUE);
        let add = dispatch_1d(
            Kernel::VectorAdd,
            set,
            push_of(count, START_VALUE),
            count as u32,
            LOCAL_SIZE,
        );
        assert(push_of(count, START_VALUE) == crate::ideal::count_push(count, value));
        lemma_commands_in_parts(device, chain(count, last), add);
        assert(chain(count, ops) =~= (chain(count, last) + add).push(compute_barrier()));
        lemma_one_more_command(device, chain(count, last) + add, compute_barrier());
        lemma_add(before, set, from, B_BUFFER, to, count, value);
        lemma_chain_values();
        let now = start + last * added;
        let sum = Seq::new(
            count as nat,
            |i: int| before.buffers[from][i] + times(before.buffers[B_BUFFER][i], value.units()),
        );
        assert(times(added, one()) == added) by {
            vstd::arithmetic::div_mod::lemma_div_multiples_vanish(added, one());
            assert(added * one() == one() * added) by (nonlinear_arith);
        }
        assert(now + added == start + ops * added) by (nonlinear_arith)
            requires
                now == start + last * added,
                last == ops - 1,
        ;
        assert(sum =~= constant(count, start + ops * added));
        let after = device.after_commands(chain(count, ops));
        assert(after.kernel_writes =~= Set::<usize>::empty());
    }
}

/// Running the whole chain from a start of one leaves the expected number.
proof fn lemma_chain_step(device: Device, count: usize)
    requires
        ready(device, count),
        countable(count),
        device.buffers[A_BUFFER] == constant(count, single(START_VALUE).units()),
    ensures
        ({
            let after = device.after_step(chain_step(count));
            &&& ready(after, count)
            &&& after.reads == device.reads
            &&& after.buffers[A_BUFFER] == constant(count, single(EXPECTED_VALUE).units())
        }),
{
    lemma_chain_values();
    lemma_chain(device.idle(), count, OPS as nat, single(START_VALUE).units());
    assert(single(START_VALUE).units() + 8 * single(ADDED_VALUE).units() == single(
        EXPECTED_VALUE,
    ).units());
}

/// Comparing a buffer that holds the expected number counts no mismatch.
proof fn lemma_verified(device: Device, count: usize)
    requires
        ready(device, count),
        countable(count),
        device.buffers[A_BUFFER] == constant(count, single(EXPECTED_VALUE).units()),
    ensures
        ({
            let bound = device.after_step(verify_bind(count));
            let after = bound.after_step(verify_step(count));
            &&& ready(bound, count)
            &&& bound.reads == device.reads
            &&& ready(after, count)
            &&& after.reads == device.reads
            &&& after.buffers[RESULT_BUFFER] == seq![0int]
        }),
{
    let expected = single(EXPECTED_VALUE);
    let bindings = verify_bind(count)->bindings;
    let first = seq![bindings[0]];
    assert(bindings.drop_last() =~= first);
    assert(first.drop_last() =~= seq![]);
    reveal_with_fuel(Device::rebound, 3);
    let bound = device.after_step(verify_bind(count));
    assert(bound.sound);
    let idle = bound.idle();
    let none = Seq::<Command>::empty();
    let reset = Command::FillBuffer { buffer: RESULT_BUFFER, offset: 0, size: 4, word: 0 };
    let c1 = none.push(reset);
    let c2 = c1.push(transfer_barrier());
    let verify = dispatch_1d(
        Kernel::Verify,
        VERIFY_SET,
        push_of(count, EXPECTED_VALUE),
        count as u32,
        LOCAL_SIZE,
    );
    assert(verify_step(count)->commands =~= c2 + verify);
    lemma_one_more_command(idle, none, reset);
    lemma_one_more_command(idle, c1, transfer_barrier());
    lemma_commands_in_parts(idle, c2, verify);
    let reset_done = idle.after_commands(c2);
    assert(reset_done.buffers[RESULT_BUFFER] =~= seq![0int]);
    assert(reset_done.sound);
    assert(push_of(count, EXPECTED_VALUE) == crate::ideal::count_push(count, expected));
    lemma_verify(reset_done, VERIFY_SET, A_BUFFER, RESULT_BUFFER, count, expected);
    lemma_no_mismatches(reset_done.buffers[A_BUFFER], expected.units(), count as nat);
    let after = bound.after_step(verify_step(count));
    assert(after.buffers[RESULT_BUFFER] =~= seq![0int]);
}

/// The device after each of the steps of a run.
#[verifier::spinoff_prover]
#[verifier::rlimit(30)]
proof fn lemma_run_steps(device: Device, count: usize, run: usize)
    requires
        ready(device, count),
        countable(count),
    ensures
        ({
            let t = run_program(count, run);
            let d1 = device.after_step(t[0].step);
            let d2 = d1.after_step(t[1].step);
            let d3 = d2.after_step(t[2].step);
            let d4 = d3.after_step(t[3].step);
            let d5 = d4.after_step(t[4].step);
            let d6 = d5.after_step(t[5].step);
            let d7 = d6.after_step(t[6].step);
            let d8 = d7.after_step(t[7].step);
            let d9 = d8.after_step(t[8].step);
            &&& set_up(d1, count)
            &&& set_up(d2, count)
            &&& set_up(d3, count)
            &&& set_up(d4, count)
            &&& set_up(d5, count)
            &&& set_up(d6, count)
            &&& set_up(d7, count)
            &&& set_up(d8, count)
            &&& ready(d9, count)
            &&& d9.reads == device.reads.push(single(EXPECTED_VALUE).units()).push(0)
        }),
{
    let fill = fill_steps(A_BUFFER, count, START_VALUE);
    let t = run_program(count, run);
    assert(t[0].step == fill[0] && t[1].step == fill[1]);
    assert(t[3].step == chain_step(count));
    assert(t[6].step == verify_bind(count) && t[7].step == verify_step(count));
    lemma_filled(device, A_BUFFER, count, START_VALUE);
    let d2 = device.after_step(t[0].step).after_step(t[1].step);
    let d3 = d2.after_step(t[2].step);
    assert(d3 == d2);
    lemma_chain_step(d2, count);
    let d4 = d3.after_step(t[3].step);
    let d5 = d4.after_step(t[4].step);
    assert(d5 == d4);
    let d6 = d5.after_step(t[5].step);
    assert(ready(d6, count));
    lemma_verified(d6, count);
}

/// The device after some of the steps of a run.
#[verifier::spinoff_prover]
proof fn lemma_run(device: Device, count: usize, run: usize, done: int)
    requires
        ready(device, count),
        countable(count),
        0 <= done <= 9,
    ensures
        set_up(device.after_steps(steps_of(run_program(count, run)).take(done)), count),
        done == 9 ==> {
            let after = device.after_steps(steps_of(run_program(count, run)));
            &&& ready(after, count)
            &&& after.reads == device.reads.push(single(EXPECTED_VALUE).units()).push(0)
        },
{
    let t = steps_of(run_program(count, run));
    assert(t.len() == 9);
    lemma_run_steps(device, count, run);
    lemma_next_step(device, t, 0);
    lemma_next_step(device, t, 1);
    lemma_next_step(device, t, 2);
    lemma_next_step(device, t, 3);
    lemma_next_step(device, t, 4);
    lemma_next_step(device, t, 5);
    lemma_next_step(device, t, 6);
    lemma_next_step(device, t, 7);
    lemma_next_step(device, t, 8);
    assert(t.take(0) =~= seq![]);
    assert(t.take(9) =~= t);
}

/// What some runs read: the expected number and no mismatch, over and over.
pub open spec fn clean_reads(runs: nat) -> Seq<int>
    decreases runs,
{
    if runs == 0 {
        seq![]
    } else {
        clean_reads((runs - 1) as nat).push(single(EXPECTED_VALUE).units()).push(0)
    }
}

proof fn lemma_runs(device: Device, count: usize, runs: nat)
    requires
        ready(device, count),
        countable(count),
    ensures
        ({
            let after = device.after_steps(steps_of(runs_program(count, runs)));
            &&& ready(after, count)
            &&& after.reads == device.reads + clean_reads(runs)
        }),
    decreases runs,
{
    if runs == 0 {
        assert(steps_of(runs_program(count, 0)) =~= seq![]);
        assert(device.reads + clean_reads(0) =~= device.reads);
    } else {
        let fewer = (runs - 1) as nat;
        lemma_runs(device, count, fewer);
        let first = steps_of(runs_program(count, fewer));
        let last = steps_of(run_program(count, fewer as usize));
        assert(steps_of(runs_program(count, runs)) =~= first + last);
        lemma_steps_in_parts(device, first, last);
        lemma_run(device.after_steps(first), count, fewer as usize, 9);
        assert(device.after_steps(first + last).reads =~= device.reads + clean_reads(runs));
    }
}

proof fn lemma_runs_length(count: usize, runs: nat)
    ensures
        runs_program(count, runs).len() == 9 * runs,
    decreases runs,
{
    if runs > 0 {
        lemma_runs_length(count, (runs - 1) as nat);
    }
}

proof fn lemma_runs_so_far(device: Device, count: usize, runs: nat, done: int)
    requires
        ready(device, count),
        countable(count),
        0 <= done <= runs_program(count, runs).len(),
    ensures
        set_up(device.after_steps(steps_of(runs_program(count, runs)).take(done)), count),
    decreases runs,
{
    let all = steps_of(runs_program(count, runs));
    lemma_runs_length(count, runs);
    if runs == 0 {
        assert(all.take(done) =~= seq![]);
    } else {
        let fewer = (runs - 1) as nat;
        lemma_runs_length(count, fewer);
        let first = steps_of(runs_program(count, fewer));
        let last = steps_of(run_program(count, fewer as usize));
        assert(all =~= first + last);
        if done <= first.len() {
            assert(all.take(done) =~= first.take(done));
            lemma_runs_so_far(device, count, fewer, done);
        } else {
            let rest = done - first.len();
            assert(all.take(done) =~= first + last.take(rest));
            lemma_steps_in_parts(device, first, last.take(rest));
            lemma_runs(device, count, fewer);
            lemma_run(device.after_steps(first), count, fewer as usize, rest);
        }
    }
}

/// The device after some of the tasks before the first run.
proof fn lemma_warm(device: Device, count: usize, done: int)
    requires
        set_up(device, count),
        countable(count),
        0 <= done <= 5,
    ensures
        set_up(device.after_steps(steps_of(warm_program(count)).take(done)), count),
        done == 5 ==> {
            let after = device.after_steps(steps_of(warm_program(count)));
            &&& ready(after, count)
            &&& after.reads == device.reads
        },
{
    let t = steps_of(warm_program(count));
    let s0 = Seq::<StepView>::empty();
    let s1 = s0.push(t[0]);
    let s2 = s1.push(t[1]);
    let s3 = s2.push(t[2]);
    let s4 = s3.push(t[3]);
    let s5 = s4.push(t[4]);
    lemma_one_more_step(device, s0, t[0]);
    lemma_one_more_step(device, s1, t[1]);
    lemma_one_more_step(device, s2, t[2]);
    lemma_one_more_step(device, s3, t[3]);
    lemma_one_more_step(device, s4, t[4]);
    lemma_filled(device, A_BUFFER, count, START_VALUE);
    let d2 = device.after_steps(s2);
    lemma_filled(d2, B_BUFFER, count, ADDED_VALUE);
    let d4 = device.after_steps(s4);
    lemma_chain_step(d4, count);
    assert(t.take(5) =~= t);
    assert(t =~= s5);
    assert(t.take(0) =~= s0 && t.take(1) =~= s1 && t.take(2) =~= s2);
    assert(t.take(3) =~= s3 && t.take(4) =~= s4);
}

proof fn lemma_release(device: Device, count: usize)
    requires
        set_up(device, count),
    ensures
        device.after_steps(release_program()).sound,
        device.after_steps(release_program()).bare(),
        device.after_steps(release_program()).reads == device.reads,
{
    let steps = release_program();
    let s0 = Seq::<StepView>::empty();
    let s1 = s0.push(steps[0]);
    let s2 = s1.push(steps[1]);
    let s3 = s2.push(steps[2]);
    let s4 = s3.push(steps[3]);
    let s5 = s4.push(steps[4]);
    lemma_one_more_step(device, s0, steps[0]);
    lemma_one_more_step(device, s1, steps[1]);
    lemma_one_more_step(device, s2, steps[2]);
    lemma_one_more_step(device, s3, steps[3]);
    lemma_one_more_step(device, s4, steps[4]);
    assert(steps =~= s5);
}

/// On a device without faults every run reads the expected number and counts
/// no mismatch; no step is out of order, and nothing is left behind.
pub proof fn law_sound_memory_measures_clean(device: Device, count: usize)
    requires
        device.sound,
        device.bare(),
        countable(count),
    ensures
        ({
            let after = device.after_steps(steps_of(bandwidth_program(count)));
            &&& after.sound
            &&& after.bare()
            &&& after.reads == device.reads + clean_reads(RUNS as nat)
        }),
{
    let setup = setup_steps((count * 4) as u64);
    let warm = steps_of(warm_program(count));
    let runs = steps_of(runs_program(count, RUNS as nat));
    let all = steps_of(bandwidth_program(count));
    assert(all =~= setup + warm + runs + release_program());
    lemma_steps_in_parts(device, setup + warm + runs, release_program());
    lemma_steps_in_parts(device, setup + warm, runs);
    lemma_steps_in_parts(device, setup, warm);
    lemma_setup(device, count);
    let d1 = device.after_steps(setup);
    lemma_warm(d1, count, 5);
    let d2 = d1.after_steps(warm);
    lemma_runs(d2, count, RUNS as nat);
    lemma_release(d2.after_steps(runs), count);
}

/// Wherever the measurement is stopped between its setup and its end, what a
/// task leaves to do releases everything, unless it leaves nothing to do.
pub proof fn law_stopped_measurements_release_all(device: Device, count: usize, done: int)
    requires
        device.sound,
        device.bare(),
        countable(count),
        11 <= done <= 11 + 5 + 9 * RUNS,
    ensures
        ({
            let after = device.after_steps(
                steps_of(bandwidth_program(count)).take(done),
            ).after_steps(release_program());
            after.sound && after.bare()
        }),
        done < 11 + 5 + 9 * RUNS ==> {
            let task = bandwidth_program(count)[done];
            &&& task.on_failure == release_program() || task.step is ReadWord && task.on_failure
                == Seq::<StepView>::empty()
            &&& !(task.expect is Success) ==> task.on_mismatch == release_program()
        },
{
    let setup = setup_steps((count * 4) as u64);
    let warm = steps_of(warm_program(count));
    let runs = steps_of(runs_program(count, RUNS as nat));
    let all = steps_of(bandwidth_program(count));
    lemma_runs_length(count, RUNS as nat);
    lemma_setup(device, count);
    let d1 = device.after_steps(setup);
    if done <= 16 {
        let some = warm.take(done - 11);
        assert(all.take(done) =~= setup + some);
        lemma_steps_in_parts(device, setup, some);
        lemma_warm(d1, count, done - 11);
    } else {
        let some = runs.take(done - 16);
        assert(all.take(done) =~= setup + warm + some);
        lemma_steps_in_parts(device, setup + warm, some);
        lemma_steps_in_parts(device, setup, warm);
        lemma_warm(d1, count, 5);
        lemma_runs_so_far(d1.after_steps(warm), count, RUNS as nat, done - 16);
    }
    lemma_release(device.after_steps(all.take(done)), count);
    if 16 <= done && done < 11 + 5 + 9 * RUNS {
        lemma_run_tasks(count, RUNS as nat, done - 16);
    }
}

proof fn lemma_run_tasks(count: usize, runs: nat, index: int)
    requires
        0 <= index < runs_program(count, runs).len(),
    ensures
        ({
            let task = runs_program(count, runs)[index];
            &&& task.on_failure == release_program() || task.step is ReadWord && task.on_failure
                == Seq::<StepView>::empty()
            &&& !(task.expect is Success) ==> task.on_mismatch == release_program()
        }),
    decreases runs,
{
    if runs > 0 {
        let fewer = (runs - 1) as nat;
        if index < runs_program(count, fewer).len() {
            lemma_run_tasks(count, fewer, index);
        } else {
            let run = run_program(count, fewer as usize);
            let place = index - runs_program(count, fewer).len();
            assert(runs_program(count, runs)[index] == run[place]);
        }
    }
}

} // verus!
