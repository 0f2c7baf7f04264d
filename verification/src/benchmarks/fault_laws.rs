//! What the programs find on a device that does not keep what was written, or
//! does not compute what it should.
use vstd::prelude::*;

#[allow(unused_imports)]
use super::vram::{
    chunk_buffer, chunk_commands, chunk_pattern, chunk_program, chunk_push, ChunkReading,
    ChunkReport, VramTest, CHUNK_F32_COUNT, FILL_SET, RESULT_BUFFER, VERIFY_SET,
};
#[allow(unused_imports)]
use super::vram_laws::{holds_chunks, lemma_chunk_bound};
#[allow(unused_imports)]
use crate::compute::Kernel;
#[allow(unused_imports)]
use crate::float_bits::Float32;
#[allow(unused_imports)]
use crate::ideal::{
    count_push, differing, law_mismatches_are_counted, lemma_commands_in_parts, lemma_fill,
    lemma_next_step, lemma_one_more_command, lemma_verify, mismatches, Device,
};
#[allow(unused_imports)]
use crate::program::{compute_barrier, dispatch_1d, transfer_barrier, Command};
#[allow(unused_imports)]
use crate::session::{steps_of, Event};
#[allow(unused_imports)]
use crate::text::decimal;

verus! {

/// Whether faults that show up in a chunk after `split` of its commands are
/// found: before, the pattern fills all 33 554 432 numbers of the chunk; after,
/// whatever the chunk has come to hold, as many mismatches are read as numbers
/// differ from the pattern, and then the first number itself.
pub open spec fn faults_are_found(
    device: Device,
    index: nat,
    contents: Seq<int>,
    split: int,
) -> bool {
    let steps = steps_of(chunk_program(index));
    let commands = steps[3]->commands;
    let buffer = chunk_buffer(index);
    let pattern = chunk_pattern(index).units();
    let filled = device.after_steps(steps.take(3)).idle().after_commands(commands.take(split));
    let checked = filled.holding(buffer, contents).after_commands(commands.skip(split)).idle();
    let after = checked.after_step(steps[4]).after_step(steps[5]);
    &&& 0 <= split <= commands.len()
    &&& steps.len() == 6
    &&& steps[3] is Execute
    &&& filled.buffers[buffer] == Seq::new(33_554_432, |i: int| pattern)
    &&& after.sound
    &&& after.buffers[buffer] == contents
    &&& after.reads == device.reads.push(differing(contents, pattern).len() as int).push(
        contents[0],
    )
}

/// Every number of a chunk is compared after the chunk was filled: whatever the
/// memory holds by then, the counter tells how many of all its numbers differ
/// from the pattern. One that differs, wherever it lies, makes it positive.
pub proof fn law_every_fault_of_a_chunk_is_counted(device: Device, index: nat, contents: Seq<int>)
    requires
        index + 1 <= usize::MAX,
        holds_chunks(device, index),
        contents.len() == 33_554_432,
    ensures
        exists|split: int| #[trigger] faults_are_found(device, index, contents, split),
        forall|i: int|
            0 <= i < contents.len() && #[trigger] contents[i] != chunk_pattern(index).units()
                ==> differing(contents, chunk_pattern(index).units()).len() > 0,
{
    let pattern = chunk_pattern(index);
    let buffer = chunk_buffer(index);
    let steps = steps_of(chunk_program(index));
    assert(steps.len() == 6);
    assert(steps.take(0) =~= seq![]);
    lemma_next_step(device, steps, 0);
    lemma_next_step(device, steps, 1);
    lemma_next_step(device, steps, 2);
    lemma_chunk_bound(device, index);
    let bound = device.after_steps(steps.take(3)).idle();
    let none = Seq::<Command>::empty();
    let reset = Command::FillBuffer { buffer: RESULT_BUFFER, offset: 0, size: 4, word: 0 };
    let c1 = none.push(reset);
    let c2 = c1.push(transfer_barrier());
    let data = count_push(CHUNK_F32_COUNT, pattern);
    assert(data == chunk_push(pattern));
    let fill = dispatch_1d(Kernel::Fill, FILL_SET, data, CHUNK_F32_COUNT as u32, 256);
    let verify = dispatch_1d(Kernel::Verify, VERIFY_SET, data, CHUNK_F32_COUNT as u32, 256);
    let c3 = c2 + fill;
    let c4 = c3.push(compute_barrier());
    let commands = steps[3]->commands;
    assert(commands == chunk_commands(pattern));
    assert(commands =~= c4 + verify);
    let split = c4.len() as int;
    assert(commands.take(split) =~= c4);
    assert(commands.skip(split) =~= verify);

    lemma_one_more_command(bound, none, reset);
    lemma_one_more_command(bound, c1, transfer_barrier());
    lemma_commands_in_parts(bound, c2, fill);
    lemma_one_more_command(bound, c3, compute_barrier());
    let d2 = bound.after_commands(c2);
    assert(d2.buffers[RESULT_BUFFER] =~= seq![0int]);
    assert(d2.sound);
    lemma_fill(d2, FILL_SET, buffer, CHUNK_F32_COUNT, pattern);
    let filled = bound.after_commands(c4);
    assert(filled.sound);
    assert(filled.kernel_writes =~= Set::<usize>::empty());
    assert(filled.transfer_writes =~= Set::<usize>::empty());
    let changed = filled.holding(buffer, contents);
    assert(changed.buffers[RESULT_BUFFER] =~= seq![0int]);
    lemma_verify(changed, VERIFY_SET, buffer, RESULT_BUFFER, CHUNK_F32_COUNT, pattern);
    law_mismatches_are_counted(contents, pattern.units());
    let checked = changed.after_commands(verify).idle();
    assert(checked.sound);
    let count = differing(contents, pattern.units()).len() as int;
    assert(checked.buffers[RESULT_BUFFER] =~= seq![count]);
    let after = checked.after_step(steps[4]).after_step(steps[5]);
    assert(after.sound);
    assert(after.reads =~= device.reads.push(count).push(contents[0]));
    assert(filled.buffers[buffer] =~= Seq::new(33_554_432, |i: int| pattern.units()));
    assert(faults_are_found(device, index, contents, split));
}

/// A chunk is checked exactly where its first number was read: the report has
/// this number, and the counter that was read last before it. A chunk on which
/// the device failed before is not checked.
pub proof fn law_checked_chunks_have_both_readings(
    events: Seq<Event>,
    count: u32,
    between: Seq<Event>,
    probe: Float32,
)
    requires
        forall|i: int|
            0 <= i < events.len() ==> #[trigger] events[i] is Done || events[i] is Failed,
        forall|i: int|
            0 <= i < between.len() ==> #[trigger] between[i] is Done || between[i] is Failed,
    ensures
        ({
            let fresh = ChunkReading { error_count: 0, report: ChunkReport::Stopped };
            let counted = events.push(Event::Word(count)) + between;
            &&& fresh.after_all(events).report is Stopped
            &&& fresh.after_all(counted).report is Stopped
            &&& fresh.after_all(counted.push(Event::Float(probe))).report
                == (ChunkReport::Checked { error_count: count, probe })
        }),
{
    let fresh = ChunkReading { error_count: 0, report: ChunkReport::Stopped };
    lemma_silent_events(fresh, events);
    let first = events.push(Event::Word(count));
    assert(first.drop_last() =~= events);
    lemma_events_in_parts(fresh, first, between);
    lemma_silent_events(fresh.after_all(first), between);
    let counted = first + between;
    assert(counted.push(Event::Float(probe)).drop_last() =~= counted);
}

proof fn lemma_silent_events(reading: ChunkReading, events: Seq<Event>)
    requires
        forall|i: int|
            0 <= i < events.len() ==> #[trigger] events[i] is Done || events[i] is Failed,
    ensures
        reading.after_all(events) == reading,
    decreases events.len(),
{
    if events.len() > 0 {
        assert(forall|i: int|
            0 <= i < events.drop_last().len() ==> events.drop_last()[i] == events[i]);
        lemma_silent_events(reading, events.drop_last());
        assert(events.last() == events[events.len() - 1]);
    }
}

proof fn lemma_events_in_parts(reading: ChunkReading, first: Seq<Event>, second: Seq<Event>)
    ensures
        reading.after_all(first + second) == reading.after_all(first).after_all(second),
    decreases second.len(),
{
    if second.len() == 0 {
        assert(first + second =~= first);
    } else {
        assert((first + second).drop_last() =~= first + second.drop_last());
        lemma_events_in_parts(reading, first, second.drop_last());
    }
}

/// The test after chunks were checked one after the other.
pub open spec fn tested(start: VramTest, reports: Seq<ChunkReport>) -> VramTest
    decreases reports.len(),
{
    if reports.len() == 0 {
        start
    } else {
        tested(start, reports.drop_last()).after(reports.last())
    }
}

/// The numbers of the chunks that were wrong: mismatches were counted, or the
/// first number was not the pattern of the chunk.
pub open spec fn wrong_chunks(reports: Seq<ChunkReport>) -> Set<int> {
    Set::new(
        |i: int|
            {
                &&& 0 <= i < reports.len()
                &&& reports[i] matches ChunkReport::Checked { error_count, probe } && (error_count
                    > 0 || !probe.equals(chunk_pattern(i as nat)))
            },
    )
}

/// Every checked chunk counts as memory, and every wrong one of them as wrong,
/// once. A single wrong one is not forgotten.
pub proof fn law_every_wrong_chunk_is_counted(start: VramTest, reports: Seq<ChunkReport>)
    requires
        start.chunks == 0,
        start.integrity_errors == 0,
        reports.len() < u64::MAX,
        forall|i: int| 0 <= i < reports.len() ==> #[trigger] reports[i] is Checked,
    ensures
        ({
            let test = tested(start, reports);
            &&& test.chunks == reports.len()
            &&& wrong_chunks(reports).finite()
            &&& test.integrity_errors == wrong_chunks(reports).len()
            &&& test.integrity_errors <= test.chunks
            &&& test.stopped == start.stopped
            &&& test.total_chunks == start.total_chunks
            &&& test.dedicated_vram_mb == start.dedicated_vram_mb
        }),
        forall|i: int| #[trigger]
            wrong_chunks(reports).contains(i) ==> tested(start, reports).integrity_errors > 0,
    decreases reports.len(),
{
    if reports.len() == 0 {
        assert(wrong_chunks(reports) =~= Set::empty());
    } else {
        let fewer = reports.drop_last();
        assert(forall|i: int| 0 <= i < fewer.len() ==> fewer[i] == reports[i]);
        law_every_wrong_chunk_is_counted(start, fewer);
        let last = reports.len() - 1;
        assert(reports.last() == reports[last]);
        if wrong_chunks(reports).contains(last) {
            assert(wrong_chunks(reports) =~= wrong_chunks(fewer).insert(last));
        } else {
            assert(wrong_chunks(reports) =~= wrong_chunks(fewer));
        }
        assert forall|i: int| #[trigger] wrong_chunks(reports).contains(i) implies tested(
            start,
            reports,
        ).integrity_errors > 0 by {
            if wrong_chunks(reports).len() == 0 {
                assert(wrong_chunks(reports) =~= Set::empty());
            }
        }
    }
}

/// A device that stops ends the test where it is: nothing is counted any more,
/// and no further chunk follows.
pub proof fn law_stopped_tests_keep_their_count(test: VramTest)
    ensures
        test.after(ChunkReport::Stopped) == (VramTest { stopped: true, ..test }),
{
}

/// A chunk gives a warning exactly where it is counted as wrong, and the warning
/// tells where the chunk begins, at 128 megabytes for each before it.
pub proof fn law_wrong_chunks_are_warned_about(test: VramTest, report: ChunkReport)
    requires
        test.wf(),
        test.chunks < test.total_chunks,
    ensures
        test.warning_for(report) is Some <==> test.after(report).integrity_errors
            > test.integrity_errors,
        test.warning_for(report) is Some ==> report is Checked && test.warning_for(report)->0
            == "Chunk #"@ + decimal(test.chunks as nat) + " (~"@ + decimal(
            test.chunks as nat * 128,
        ) + " MB): DỮ LIỆU SAI (mismatches="@ + decimal(report->error_count as nat)
            + ") — nghi ngờ VRAM hỏng vùng này!"@,
{
}

/// The test goes on until the device fails or all chunks are through, and each
/// chunk that was checked brings it closer to its end.
pub proof fn law_the_test_comes_to_its_end(test: VramTest, report: ChunkReport)
    requires
        test.wf(),
        test.goes_on(),
    ensures
        report is Stopped ==> !test.after(report).goes_on(),
        report is Checked ==> test.total_chunks - test.after(report).chunks == test.total_chunks
            - test.chunks - 1,
        report is Checked ==> (test.after(report).goes_on() <==> test.chunks + 1
            < test.total_chunks),
{
}

/// The patterns go round after eight chunks, and no two of eight chunks in a row
/// have the same.
pub proof fn law_patterns_take_turns(index: nat, near: nat)
    requires
        0 < near < 8,
    ensures
        chunk_pattern(index + 8) == chunk_pattern(index),
        chunk_pattern(index + near) != chunk_pattern(index),
{
    assert((index + 8) % 8 == index % 8);
    let a = index % 8;
    let b = (index + near) % 8;
    assert(a != b && a < 8 && b < 8);
}

} // verus!
