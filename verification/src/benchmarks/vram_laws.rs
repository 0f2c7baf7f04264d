//! What the VRAM test does on a device without faults.
use vstd::prelude::*;

#[allow(unused_imports)]
use super::vram::{
    chunk_buffer, chunk_commands, chunk_pattern, chunk_program, chunk_push, cleanup_program,
    lemma_patterns_are_finite, setup_program, ChunkReport, VramTest, CHUNK_BYTES, CHUNK_F32_COUNT,
    FILL_SET, LOCAL_SIZE, RESULT_BUFFER, VERIFY_SET,
};
#[allow(unused_imports)]
use crate::compute::{lemma_pool_sizes, Binding, Kernel};
#[allow(unused_imports)]
use crate::ideal::{
    lemma_commands_in_parts, lemma_dispatch, lemma_next_step, lemma_no_mismatches,
    lemma_one_more_command, lemma_one_more_step, prepared, Device,
};
#[allow(unused_imports)]
use crate::program::{
    compute_barrier, dispatch_1d, group_count, transfer_barrier, Command, StepView,
};
#[allow(unused_imports)]
use crate::session::steps_of;

verus! {

/// A device that is set up for the test and holds `chunks` chunks.
pub open spec fn holds_chunks(device: Device, chunks: nat) -> bool {
    &&& device.sound
    &&& device.pool is Some
    &&& device.sets.dom() =~= set![FILL_SET, VERIFY_SET]
    &&& device.sets[FILL_SET].kernel == Kernel::Fill
    &&& device.sets[VERIFY_SET].kernel == Kernel::Verify
    &&& forall|buffer: usize| #[trigger]
        device.buffers.dom().contains(buffer) <==> buffer <= chunks
    &&& device.buffers[RESULT_BUFFER].len() == 1
}

/// The setup leads from a bare device to one without chunks.
pub proof fn lemma_setup(device: Device)
    requires
        device.sound,
        device.bare(),
    ensures
        holds_chunks(device.after_steps(steps_of(setup_program())), 0),
        device.after_steps(steps_of(setup_program())).reads == device.reads,
{
    lemma_pool_sizes();
    let s0 = Seq::<StepView>::empty();
    let t = setup_program();
    let s1 = s0.push(t[0].step);
    let s2 = s1.push(t[1].step);
    let s3 = s2.push(t[2].step);
    let s4 = s3.push(t[3].step);
    lemma_one_more_step(device, s0, t[0].step);
    lemma_one_more_step(device, s1, t[1].step);
    lemma_one_more_step(device, s2, t[2].step);
    lemma_one_more_step(device, s3, t[3].step);
    assert(steps_of(t) =~= s4);
}

/// The commands on a chunk leave the pattern in the chunk and a counter of
/// zero.
proof fn lemma_chunk_commands(device: Device, buffer: usize, pattern: crate::float_bits::Float32)
    requires
        device.sound,
        device == device.idle(),
        buffer != RESULT_BUFFER,
        device.buffers.dom().contains(RESULT_BUFFER),
        device.buffers[RESULT_BUFFER].len() == 1,
        device.buffers.dom().contains(buffer),
        device.buffers[buffer].len() == CHUNK_F32_COUNT,
        device.sets.dom().contains(FILL_SET),
        device.sets.dom().contains(VERIFY_SET),
        device.sets[FILL_SET].kernel == Kernel::Fill,
        device.sets[VERIFY_SET].kernel == Kernel::Verify,
        device.sets[FILL_SET].bindings.dom().contains(0),
        device.sets[FILL_SET].bindings[0] == buffer,
        device.sets[VERIFY_SET].bindings.dom().contains(0),
        device.sets[VERIFY_SET].bindings[0] == buffer,
        device.sets[VERIFY_SET].bindings.dom().contains(1),
        device.sets[VERIFY_SET].bindings[1] == RESULT_BUFFER,
    ensures
        device.after_commands(chunk_commands(pattern)).idle() == (Device {
            buffers: device.buffers.insert(
                buffer,
                Seq::new(CHUNK_F32_COUNT as nat, |i: int| pattern.units()),
            ).insert(RESULT_BUFFER, seq![0int]),
            ..device
        }),
{
    let none = Seq::<Command>::empty();
    let reset = Command::FillBuffer { buffer: RESULT_BUFFER, offset: 0, size: 4, word: 0 };
    let c1 = none.push(reset);
    let c2 = c1.push(transfer_barrier());
    let data = chunk_push(pattern);
    let groups = group_count(CHUNK_F32_COUNT as nat, LOCAL_SIZE as nat) as u32;
    assert(group_count(33_554_432, 256) == 131_072);
    assert(groups == 131_072);
    let fill = dispatch_1d(Kernel::Fill, FILL_SET, data, CHUNK_F32_COUNT as u32, LOCAL_SIZE);
    let verify = dispatch_1d(Kernel::Verify, VERIFY_SET, data, CHUNK_F32_COUNT as u32, LOCAL_SIZE);
    let c3 = c2 + fill;
    let c4 = c3 + seq![compute_barrier()];
    let c5 = c4 + verify;
    assert(chunk_commands(pattern) =~= c5);

    lemma_one_more_command(device, none, reset);
    lemma_one_more_command(device, c1, transfer_barrier());
    lemma_commands_in_parts(device, c2, fill);
    assert(c4 =~= c3.push(compute_barrier()));
    lemma_one_more_command(device, c3, compute_barrier());
    lemma_commands_in_parts(device, c4, verify);

    let d2 = device.after_commands(c2);
    assert(d2.buffers[RESULT_BUFFER] =~= seq![0int]);
    assert(d2.sound);
    lemma_dispatch(d2, Kernel::Fill, FILL_SET, data, groups, 1);
    let p3 = prepared(d2, Kernel::Fill, FILL_SET, data);
    assert(p3.may_dispatch());
    let d3 = device.after_commands(c3);
    let filled = Seq::new(CHUNK_F32_COUNT as nat, |i: int| pattern.units());
    assert(d3.buffers[buffer] =~= filled);
    assert(d3.sound);
    let d4 = device.after_commands(c4);
    assert(d4.sound);
    lemma_dispatch(d4, Kernel::Verify, VERIFY_SET, data, groups, 1);
    let p5 = prepared(d4, Kernel::Verify, VERIFY_SET, data);
    assert(p5.may_dispatch());
    lemma_no_mismatches(filled, pattern.units(), CHUNK_F32_COUNT as nat);
    let d5 = device.after_commands(c5);
    assert(d5.buffers[RESULT_BUFFER] =~= seq![0int]);
    assert(d5.sound);
    let expected = device.buffers.insert(buffer, filled).insert(RESULT_BUFFER, seq![0int]);
    assert(d5.buffers =~= expected);
    assert(d5.idle() == (Device { buffers: expected, ..device }));
}

/// On sound memory a chunk is checked with no mismatch, its first number is
/// the pattern, and the chunk stays alive.
pub proof fn law_sound_memory_checks_clean(device: Device, index: nat)
    requires
        index + 1 <= usize::MAX,
        holds_chunks(device, index),
    ensures
        ({
            let after = device.after_steps(steps_of(chunk_program(index)));
            &&& holds_chunks(after, index + 1)
            &&& after.reads == device.reads.push(0).push(chunk_pattern(index).units())
        }),
{
    let pattern = chunk_pattern(index);
    let steps = steps_of(chunk_program(index));
    assert(steps.take(0) =~= seq![]);
    assert(steps.take(6) =~= steps);
    lemma_next_step(device, steps, 0);
    lemma_next_step(device, steps, 1);
    lemma_next_step(device, steps, 2);
    lemma_next_step(device, steps, 3);
    lemma_next_step(device, steps, 4);
    lemma_next_step(device, steps, 5);
    lemma_chunk_bound(device, index);
    let bound = device.after_steps(steps.take(3));
    lemma_chunk_commands(bound.idle(), chunk_buffer(index), pattern);
    let after = device.after_steps(steps);
    assert(after.reads =~= device.reads.push(0).push(pattern.units()));
}

/// A chunk that was checked without a fault is not counted as wrong.
pub proof fn law_clean_chunks_are_not_wrong(test: VramTest, probe: crate::float_bits::Float32)
    requires
        test.wf(),
        probe.finite(),
        probe.units() == chunk_pattern(test.chunks as nat).units(),
    ensures
        !test.is_wrong(0, probe),
        test.after(ChunkReport::Checked { error_count: 0, probe }).integrity_errors
            == test.integrity_errors,
{
    lemma_patterns_are_finite(test.chunks as nat);
    crate::float_bits::law_equal_floats_have_equal_values(
        probe,
        chunk_pattern(test.chunks as nat),
    );
}

/// The device after the setup and so many chunks.
pub open spec fn with_chunks(device: Device, chunks: nat) -> Device
    decreases chunks,
{
    if chunks == 0 {
        device.after_steps(steps_of(setup_program()))
    } else {
        with_chunks(device, (chunks - 1) as nat).after_steps(
            steps_of(chunk_program((chunks - 1) as nat)),
        )
    }
}

proof fn lemma_with_chunks(device: Device, chunks: nat)
    requires
        device.sound,
        device.bare(),
        chunks <= usize::MAX,
    ensures
        holds_chunks(with_chunks(device, chunks), chunks),
    decreases chunks,
{
    if chunks == 0 {
        lemma_setup(device);
    } else {
        lemma_with_chunks(device, (chunks - 1) as nat);
        law_sound_memory_checks_clean(
            with_chunks(device, (chunks - 1) as nat),
            (chunks - 1) as nat,
        );
    }
}

proof fn lemma_release_chunks(device: Device, chunks: nat, released: nat)
    requires
        holds_chunks(device, chunks),
        chunks <= usize::MAX,
        released <= chunks,
    ensures
        ({
            let steps = Seq::new(
                released,
                |i: int| StepView::DestroyBuffer { buffer: chunk_buffer(i as nat) },
            );
            let after = device.after_steps(steps);
            &&& after.sound
            &&& after.pool == device.pool
            &&& after.sets == device.sets
            &&& forall|buffer: usize| #[trigger]
                after.buffers.dom().contains(buffer) <==> buffer == 0 || released < buffer
                    <= chunks
        }),
    decreases released,
{
    let release = |i: int| StepView::DestroyBuffer { buffer: chunk_buffer(i as nat) };
    let steps = Seq::new(released, release);
    if released > 0 {
        let fewer = Seq::new((released - 1) as nat, release);
        lemma_release_chunks(device, chunks, (released - 1) as nat);
        lemma_one_more_step(device, fewer, release(released - 1));
        assert(steps =~= fewer.push(release(released - 1)));
    } else {
        assert(steps =~= seq![]);
    }
}

/// Whatever happened to the chunks before, the cleanup releases every chunk that
/// the device holds, and everything else that the test allocated.
pub proof fn law_all_memory_is_released(device: Device, chunks: nat)
    requires
        holds_chunks(device, chunks),
        chunks <= usize::MAX,
    ensures
        device.after_steps(cleanup_program(chunks)).sound,
        device.after_steps(cleanup_program(chunks)).bare(),
{
    lemma_release_chunks(device, chunks, chunks);
    let chunk_steps = Seq::new(
        chunks,
        |i: int| StepView::DestroyBuffer { buffer: chunk_buffer(i as nat) },
    );
    let no_pool = chunk_steps.push(StepView::DestroyPool);
    let drop_result = StepView::DestroyBuffer { buffer: RESULT_BUFFER };
    lemma_one_more_step(device, chunk_steps, StepView::DestroyPool);
    lemma_one_more_step(device, no_pool, drop_result);
    assert(cleanup_program(chunks) =~= no_pool.push(drop_result));
}

/// On a device without faults, the cleanup after any number of chunks leaves
/// nothing behind.
pub proof fn law_clean_runs_release_all(device: Device, chunks: nat)
    requires
        device.sound,
        device.bare(),
        chunks <= usize::MAX,
    ensures
        with_chunks(device, chunks).after_steps(cleanup_program(chunks)).sound,
        with_chunks(device, chunks).after_steps(cleanup_program(chunks)).bare(),
{
    lemma_with_chunks(device, chunks);
    law_all_memory_is_released(with_chunks(device, chunks), chunks);
}

/// Where the setup fails at a task, what the tasks before it allocated is
/// released.
pub proof fn law_failed_setup_releases_all(device: Device, stop: int)
    requires
        device.sound,
        device.bare(),
        0 <= stop < setup_program().len(),
    ensures
        ({
            let after = device.after_steps(steps_of(setup_program()).take(stop)).after_steps(
                setup_program()[stop].on_failure,
            );
            after.sound && after.bare()
        }),
{
    lemma_pool_sizes();
    let s0 = Seq::<StepView>::empty();
    let t = setup_program();
    let s1 = s0.push(t[0].step);
    let s2 = s1.push(t[1].step);
    let s3 = s2.push(t[2].step);
    lemma_one_more_step(device, s0, t[0].step);
    lemma_one_more_step(device, s1, t[1].step);
    lemma_one_more_step(device, s2, t[2].step);
    let drop_result = StepView::DestroyBuffer { buffer: RESULT_BUFFER };
    let all = steps_of(t);
    if stop == 0 {
        assert(all.take(0) =~= s0);
    } else if stop == 1 {
        assert(all.take(1) =~= s1);
        lemma_one_more_step(device.after_steps(s1), s0, drop_result);
        assert(t[1].on_failure =~= s0.push(drop_result));
    } else {
        let before = device.after_steps(all.take(stop));
        if stop == 2 {
            assert(all.take(2) =~= s2);
        } else {
            assert(all.take(3) =~= s3);
        }
        lemma_one_more_step(before, s0, StepView::DestroyPool);
        lemma_one_more_step(before, s0.push(StepView::DestroyPool), drop_result);
        assert(t[stop].on_failure =~= s0.push(StepView::DestroyPool).push(drop_result));
    }
}

/// Where the device fails on a chunk, the chunk is released again: the device
/// is left as it was before, and the chunks before it stay alive.
pub proof fn law_failed_chunks_are_released(device: Device, index: nat, stop: int)
    requires
        index + 1 <= usize::MAX,
        holds_chunks(device, index),
        stop == 0 || 3 <= stop < chunk_program(index).len(),
    ensures
        holds_chunks(
            device.after_steps(steps_of(chunk_program(index)).take(stop)).after_steps(
                chunk_program(index)[stop].on_failure,
            ),
            index,
        ),
{
    let buffer = chunk_buffer(index);
    let t = chunk_program(index);
    let steps = steps_of(t);
    assert(steps.take(0) =~= seq![]);
    if stop > 0 {
        lemma_next_step(device, steps, 0);
        lemma_next_step(device, steps, 1);
        lemma_next_step(device, steps, 2);
        lemma_next_step(device, steps, 3);
        lemma_next_step(device, steps, 4);
        let bound = device.after_steps(steps.take(3));
        lemma_chunk_bound(device, index);
        lemma_chunk_commands(bound.idle(), buffer, chunk_pattern(index));
        let before = device.after_steps(steps.take(stop));
        let s0 = Seq::<StepView>::empty();
        let drop_chunk = StepView::DestroyBuffer { buffer };
        lemma_one_more_step(before, s0, drop_chunk);
        assert(t[stop].on_failure =~= s0.push(drop_chunk));
    }
}

/// The first three steps on a chunk: it is there, and bound to both kernels.
pub proof fn lemma_chunk_bound(device: Device, index: nat)
    requires
        index + 1 <= usize::MAX,
        holds_chunks(device, index),
    ensures
        ({
            let t = chunk_program(index);
            let bound = device.after_step(t[0].step).after_step(t[1].step).after_step(t[2].step);
            let buffer = chunk_buffer(index);
            &&& holds_chunks(bound, index + 1)
            &&& bound.reads == device.reads
            &&& bound.buffers[buffer].len() == CHUNK_F32_COUNT
            &&& bound.sets[FILL_SET].bindings.dom().contains(0)
            &&& bound.sets[FILL_SET].bindings[0] == buffer
            &&& bound.sets[VERIFY_SET].bindings.dom().contains(0)
            &&& bound.sets[VERIFY_SET].bindings[0] == buffer
            &&& bound.sets[VERIFY_SET].bindings.dom().contains(1)
            &&& bound.sets[VERIFY_SET].bindings[1] == RESULT_BUFFER
        }),
{
    let buffer = chunk_buffer(index);
    let t = chunk_program(index);
    let fill_bindings = seq![Binding { binding: 0, buffer, bytes: CHUNK_BYTES }];
    let verify_bindings = seq![
        Binding { binding: 0, buffer, bytes: CHUNK_BYTES },
        Binding { binding: 1, buffer: RESULT_BUFFER, bytes: 4 },
    ];
    assert(fill_bindings.drop_last() =~= seq![]);
    assert(verify_bindings.drop_last() =~= fill_bindings);
    reveal_with_fuel(Device::rebound, 3);
    let d1 = device.after_step(t[0].step);
    assert(d1.sound);
    let d2 = d1.after_step(t[1].step);
    assert(d2.sound);
    let d3 = d2.after_step(t[2].step);
    assert(d3.sound);
}

} // verus!
