//! What is told of devices, how their memory is asked for, and how kernels are
//! laid out.
use vstd::prelude::*;

#[allow(unused_imports)]
use crate::compute::{descriptor_writes, layout_bindings, push_range, Binding, Kernel};
#[allow(unused_imports)]
use crate::float_bits::Float32;
#[allow(unused_imports)]
use crate::gpu_info::{is_dedicated, is_largest_local, MemoryHeap};
#[allow(unused_imports)]
use crate::memory::{
    holdings, law_buffers_lie_in_the_memory_asked_for, law_read_brings_the_bytes,
    law_upload_writes_the_start, no_type_error, number_download, number_upload, property_names,
    release_steps, requested, requested_on_device, requested_on_host, single_read, BufferEvent,
    BufferStep, BufferView, Holdings, Stage, TransferState,
};
#[allow(unused_imports)]
use crate::program::{
    compute_barrier, dispatch_1d, dispatch_2d, group_count, law_groups_cover_elements,
    transfer_barrier, Command, Expect, PushData,
};
#[allow(unused_imports)]
use crate::session::{outcome_of, Event};
#[allow(unused_imports)]
use crate::text::decimal;
#[allow(unused_imports)]
use crate::vulkan::{
    api_version_view, device_kind, device_type_view, driver_version_view, includes, lacks,
    law_first_suitable_is_the_first, suitable, vendor_name_text,
};

verus! {

/// A version that is put together of three numbers is told as those numbers: in
/// Vulkan's own encoding, and in that of NVIDIA. A driver version of Intel is put
/// together of two. All other vendors have Vulkan's encoding.
pub proof fn law_versions_are_told_as_put_together(
    major: u32,
    minor: u32,
    patch: u32,
    vendor: u32,
)
    ensures
        major < 128 && minor < 1024 && patch < 4096 ==> {
            let version = (major * 0x40_0000 + minor * 0x1000 + patch) as u32;
            let text = decimal(major as nat) + "."@ + decimal(minor as nat) + "."@ + decimal(
                patch as nat,
            );
            &&& api_version_view(version) == text
            &&& vendor != 0x10DE && vendor != 0x8086 ==> driver_version_view(vendor, version)
                == text
        },
        major < 1024 && minor < 256 && patch < 0x4000 ==> driver_version_view(
            0x10DE,
            (major * 0x40_0000 + minor * 0x4000 + patch) as u32,
        ) == decimal(major as nat) + "."@ + decimal(minor as nat) + "."@ + decimal(patch as nat),
        major < 0x4_0000 && minor < 0x4000 ==> driver_version_view(
            0x8086,
            (major * 0x4000 + minor) as u32,
        ) == decimal(major as nat) + "."@ + decimal(minor as nat),
{
    if major < 128 && minor < 1024 && patch < 4096 {
        let version = (major * 0x40_0000 + minor * 0x1000 + patch) as u32;
        assert((version >> 22) & 0x7f == major && (version >> 12) & 0x3ff == minor && version & 0xfff
            == patch) by (bit_vector)
            requires
                version == major * 0x40_0000 + minor * 0x1000 + patch,
                major < 128,
                minor < 1024,
                patch < 4096,
        ;
    }
    if major < 1024 && minor < 256 && patch < 0x4000 {
        let version = (major * 0x40_0000 + minor * 0x4000 + patch) as u32;
        assert((version >> 22) & 0x3ff == major && (version >> 14) & 0xff == minor && version
            & 0x3fff == patch) by (bit_vector)
            requires
                version == major * 0x40_0000 + minor * 0x4000 + patch,
                major < 1024,
                minor < 256,
                patch < 0x4000,
        ;
    }
    if major < 0x4_0000 && minor < 0x4000 {
        let version = (major * 0x4000 + minor) as u32;
        assert((version >> 14) == major && version & 0x3fff == minor) by (bit_vector)
            requires
                version == major * 0x4000 + minor,
                major < 0x4_0000,
                minor < 0x4000,
        ;
    }
}

/// The top bits of a version do not count in Vulkan's encoding.
pub proof fn law_variants_do_not_count(version: u32, variant: u32)
    requires
        version < 0x2000_0000,
        variant < 8,
    ensures
        api_version_view((variant * 0x2000_0000 + version) as u32) == api_version_view(version),
{
    let whole = (variant * 0x2000_0000 + version) as u32;
    assert((whole >> 22) & 0x7f == (version >> 22) & 0x7f && (whole >> 12) & 0x3ff == (version
        >> 12) & 0x3ff && whole & 0xfff == version & 0xfff) by (bit_vector)
        requires
            whole == variant * 0x2000_0000 + version,
            version < 0x2000_0000,
            variant < 8,
    ;
}

/// Six vendors have names, and no other has.
pub proof fn law_six_vendors_are_known(vendor_id: u32)
    ensures
        vendor_name_text(0x1002) == "AMD"@,
        vendor_name_text(0x10DE) == "NVIDIA"@,
        vendor_name_text(0x8086) == "Intel"@,
        vendor_name_text(0x13B5) == "ARM"@,
        vendor_name_text(0x5143) == "Qualcomm"@,
        vendor_name_text(0x1010) == "ImgTec"@,
        !(set![0x1002u32, 0x10DEu32, 0x8086u32, 0x13B5u32, 0x5143u32, 0x1010u32].contains(
            vendor_id,
        )) ==> vendor_name_text(vendor_id) == "Unknown"@,
{
}

/// The numbers from 1 to 4 stand for four kinds of devices, and no other number
/// does.
pub proof fn law_four_kinds_are_known(raw: i32, other: i32)
    ensures
        device_kind(raw) is Other <==> raw < 1 || raw > 4,
        1 <= raw <= 4 && device_kind(raw) == device_kind(other) ==> raw == other,
        device_kind(2) is Discrete,
        device_kind(1) is Integrated,
        device_kind(3) is Virtual,
        raw < 1 || raw > 4 ==> device_type_view(raw) == "Unknown"@,
{
}

/// Flags include others exactly where they have each of them, and lack others
/// exactly where they have none of them.
pub proof fn law_included_flags_are_all_there(flags: u32, some: u32, more: u32, bit: u32)
    requires
        bit < 32,
    ensures
        includes(flags, 1u32 << bit) <==> flags & (1u32 << bit) != 0,
        includes(flags, some | more) <==> includes(flags, some) && includes(flags, more),
        includes(flags, 0),
        lacks(flags, 1u32 << bit) <==> flags & (1u32 << bit) == 0,
        lacks(flags, some | more) <==> lacks(flags, some) && lacks(flags, more),
        lacks(flags, 0),
{
    assert((flags & (1u32 << bit) == (1u32 << bit)) <==> flags & (1u32 << bit) != 0)
        by (bit_vector)
        requires
            bit < 32,
    ;
    assert((flags & (some | more) == (some | more)) <==> flags & some == some && flags & more
        == more) by (bit_vector);
    assert((flags & (some | more) == 0) <==> flags & some == 0 && flags & more == 0)
        by (bit_vector);
    assert(flags & 0 == 0) by (bit_vector);
}

proof fn lemma_low_flags(flags: u32)
    ensures
        includes(flags, 1) <==> flags % 2 == 1,
        includes(flags, 2) <==> (flags / 2) % 2 == 1,
        lacks(flags, 2) <==> (flags / 2) % 2 == 0,
        includes(flags, 6) <==> (flags / 2) % 2 == 1 && (flags / 4) % 2 == 1,
{
    assert((flags & 1 == 1) <==> flags % 2 == 1) by (bit_vector);
    assert((flags & 2 == 2) <==> (flags / 2) % 2 == 1) by (bit_vector);
    assert((flags & 2 == 0) <==> (flags / 2) % 2 == 0) by (bit_vector);
    assert((flags & 6 == 6) <==> (flags / 2) % 2 == 1 && (flags / 4) % 2 == 1) by (bit_vector);
}

/// Whether a heap is in the device's own memory: its lowest flag says so.
pub open spec fn is_local(heap: MemoryHeap) -> bool {
    heap.flags % 2 == 1
}

/// The dedicated memory is that of the largest heap of the device's own, in whole
/// megabytes, rounded down: no such heap has a megabyte more. There is none
/// exactly where all such heaps are empty. Other heaps do not count.
pub proof fn law_dedicated_memory_is_the_largest_heap(mb: Option<u64>, heaps: Seq<MemoryHeap>)
    requires
        is_dedicated(mb, heaps),
    ensures
        mb is None <==> forall|i: int|
            0 <= i < heaps.len() && is_local(#[trigger] heaps[i]) ==> heaps[i].size == 0,
        mb matches Some(n) ==> {
            &&& forall|i: int|
                0 <= i < heaps.len() && is_local(#[trigger] heaps[i]) ==> heaps[i].size < (n + 1)
                    * 0x10_0000
            &&& exists|i: int|
                0 <= i < heaps.len() && is_local(#[trigger] heaps[i]) && heaps[i].size >= n
                    * 0x10_0000 && heaps[i].size > 0
        },
{
    let bytes = choose|bytes: u64| #[trigger]
        is_largest_local(bytes, heaps) && mb == if bytes > 0 {
            Some((bytes / 1_048_576) as u64)
        } else {
            None
        };
    assert forall|i: int| 0 <= i < heaps.len() implies (is_local(#[trigger] heaps[i]) <==> includes(
        heaps[i].flags,
        1,
    )) by {
        lemma_low_flags(heaps[i].flags);
    }
    if bytes > 0 {
        let i = choose|i: int|
            0 <= i < heaps.len() && includes((#[trigger] heaps[i]).flags, 1) && heaps[i].size
                == bytes;
        assert(is_local(heaps[i]));
    } else {
        assert forall|i: int| 0 <= i < heaps.len() && is_local(#[trigger] heaps[i]) implies heaps[i].size
            == 0 by {
            assert(includes(heaps[i].flags, 1));
        }
    }
}

/// A buffer in the device's own memory can be copied from and to, besides what it
/// was asked for. Once it is ready it lies in memory of the device's own that the
/// host does not see.
pub proof fn law_device_buffers_are_hidden(
    size: u64,
    usage: u32,
    memory_types: Seq<u32>,
    events: Seq<BufferEvent>,
)
    requires
        memory_types.len() <= 32,
    ensures
        ({
            let start = requested_on_device(size, usage);
            let buffer = start.after_all(memory_types, events);
            &&& start.stage is Creating
            &&& start.current() == Some(BufferStep::CreateBuffer { size, usage: start.usage })
            &&& buffer.usage == start.usage
            &&& buffer.usage % 4 == 3
            &&& buffer.usage / 4 == usage / 4
            &&& buffer.stage matches Stage::Ready { memory_type } ==> {
                &&& memory_type < memory_types.len()
                &&& memory_types[memory_type as int] % 2 == 1
                &&& (memory_types[memory_type as int] / 2) % 2 == 0
            }
        }),
{
    let start = requested_on_device(size, usage);
    law_buffers_lie_in_the_memory_asked_for(start, memory_types, events);
    assert((usage | 2u32 | 1u32) % 4 == 3 && (usage | 2u32 | 1u32) / 4 == usage / 4)
        by (bit_vector);
    if let Stage::Ready { memory_type } = start.after_all(memory_types, events).stage {
        lemma_low_flags(memory_types[memory_type as int]);
    }
}

/// A buffer for transfers can be copied from and to, and nothing else. Once it is
/// ready it lies in memory that the host sees, and sees without a flush.
pub proof fn law_staging_buffers_are_seen_by_the_host(
    size: u64,
    memory_types: Seq<u32>,
    events: Seq<BufferEvent>,
)
    requires
        memory_types.len() <= 32,
    ensures
        ({
            let start = requested_on_host(size);
            let buffer = start.after_all(memory_types, events);
            &&& start.stage is Creating
            &&& start.current() == Some(BufferStep::CreateBuffer { size, usage: 3 })
            &&& buffer.stage matches Stage::Ready { memory_type } ==> {
                &&& memory_type < memory_types.len()
                &&& (memory_types[memory_type as int] / 2) % 2 == 1
                &&& (memory_types[memory_type as int] / 4) % 2 == 1
            }
        }),
{
    let start = requested_on_host(size);
    assert(1u32 | 2u32 == 3u32 && 2u32 | 4u32 == 6u32) by (bit_vector);
    law_buffers_lie_in_the_memory_asked_for(start, memory_types, events);
    if let Stage::Ready { memory_type } = start.after_all(memory_types, events).stage {
        lemma_low_flags(memory_types[memory_type as int]);
    }
}

/// The memory that is allocated is as large as the device requires, and of the
/// first type that it allows and that suits the buffer; the buffer is ready with
/// memory of this type, or is given up where there is no such type.
pub proof fn law_memory_is_what_is_required(
    size: u64,
    usage: u32,
    mem_properties: u32,
    avoided: u32,
    memory_types: Seq<u32>,
    required: u64,
    type_bits: u32,
)
    requires
        memory_types.len() <= 32,
    ensures
        ({
            let start = requested(size, usage, mem_properties, avoided);
            let created = start.after(memory_types, BufferEvent::Created { required, type_bits });
            let allocated = created.after(memory_types, BufferEvent::Done);
            let bound = allocated.after(memory_types, BufferEvent::Done);
            if exists|i: int|
                0 <= i < memory_types.len() && #[trigger] suitable(
                    memory_types,
                    type_bits,
                    mem_properties,
                    avoided,
                    i,
                ) {
                &&& created.current() matches Some(
                    BufferStep::AllocateMemory { size: bytes, memory_type },
                ) && {
                    &&& bytes == required
                    &&& suitable(memory_types, type_bits, mem_properties, avoided, memory_type as int)
                    &&& forall|i: int|
                        0 <= i < memory_type ==> !#[trigger] suitable(
                            memory_types,
                            type_bits,
                            mem_properties,
                            avoided,
                            i,
                        )
                    &&& bound.stage == Stage::Ready { memory_type }
                }
                &&& allocated.current() == Some(BufferStep::BindMemory)
                &&& bound.error is None
            } else {
                &&& created.current() == Some(BufferStep::DestroyBuffer)
                &&& allocated.stage is Failed
                &&& created.error == Some(no_type_error(size, property_names(mem_properties)))
            }
        }),
{
    law_first_suitable_is_the_first(memory_types, type_bits, mem_properties, avoided, 0);
}

/// What exists after steps that all succeed.
pub open spec fn holdings_after(start: Holdings, steps: Seq<BufferStep>) -> Holdings
    decreases steps.len(),
{
    if steps.len() == 0 {
        start
    } else {
        holdings_after(start, steps.drop_last()).after(steps.last(), false)
    }
}

/// Releasing a buffer leaves neither the buffer nor its memory.
pub proof fn law_released_buffers_leave_nothing(memory_type: u32)
    ensures
        holdings_after(holdings(Stage::Ready { memory_type }), release_steps()) == (Holdings {
            buffer: false,
            memory: false,
            sound: true,
        }),
{
    let steps = release_steps();
    assert(steps.drop_last().drop_last() =~= seq![]);
    reveal_with_fuel(holdings_after, 3);
}

/// As many numbers come back as were sent, and the same; a single read brings the
/// four bytes at its offset. The device keeps what it holds, and no staging buffer
/// is left behind.
pub proof fn law_all_numbers_are_moved(
    state: TransferState,
    count: usize,
    place: usize,
    noise: spec_fn(int) -> u8,
)
    requires
        state.sound,
        state.staging is None,
        place < count,
        count * 4 <= usize::MAX,
        state.host.len() == count * 4,
        state.device.len() == count * 4,
    ensures
        ({
            let sent = state.after_all(number_upload(count), noise);
            let back = sent.after_all(number_download(count), noise);
            let one = sent.after_all(single_read((place * 4) as u64), noise);
            &&& sent.sound && back.sound && one.sound
            &&& sent.staging is None && back.staging is None && one.staging is None
            &&& sent.device == state.host
            &&& back.device == state.host && one.device == state.host
            &&& back.received == state.host
            &&& one.received == state.host.subrange(4 * place, 4 * place + 4)
        }),
{
    law_upload_writes_the_start(state, noise);
    let sent = state.after_all(number_upload(count), noise);
    assert(state.host + state.device.skip(state.host.len() as int) =~= state.host);
    law_read_brings_the_bytes(sent, 0, (count * 4) as u64, noise);
    law_read_brings_the_bytes(sent, (place * 4) as u64, 4, noise);
    assert(state.host.subrange(0, count * 4) =~= state.host);
}

/// The bindings of a pipeline are numbered from zero, without a gap; each is one
/// storage buffer that compute shaders see. The push constants begin at zero and
/// are as large as asked for, and there are none where none are asked for.
pub proof fn law_pipelines_number_their_bindings(buffers: u32, bytes: u32)
    ensures
        layout_bindings(buffers).len() == buffers,
        forall|i: int|
            0 <= i < buffers ==> {
                let binding = #[trigger] layout_bindings(buffers)[i];
                &&& binding.binding == i
                &&& binding.descriptor_type == 7
                &&& binding.descriptor_count == 1
                &&& binding.stage_flags == 0x20
            },
        push_range(bytes) is None <==> bytes == 0,
        push_range(bytes) matches Some(range) ==> range.offset == 0 && range.size == bytes
            && range.stage_flags == 0x20,
{
}

/// Every binding is written, once and in order: the buffer from its start, with
/// all of its bytes, behind the number of the binding.
pub proof fn law_every_binding_is_written(bindings: Seq<Binding>)
    ensures
        descriptor_writes(bindings).len() == bindings.len(),
        forall|i: int|
            0 <= i < bindings.len() ==> {
                let write = #[trigger] descriptor_writes(bindings)[i];
                &&& write.binding == bindings[i].binding
                &&& write.buffer == bindings[i].buffer
                &&& write.offset == 0
                &&& write.range == bindings[i].bytes
                &&& write.descriptor_type == 7
            },
{
}

/// A failed step is a failure, whatever was expected. Otherwise a step is accepted
/// where its success was all that was expected; where a number was expected, it
/// has to bring an equal one; where a word was, the same.
pub proof fn law_events_are_held_against_expectations(
    expect: Expect,
    event: Event,
    wanted: Float32,
    word: u32,
)
    ensures
        outcome_of(expect, event) is Failed <==> event is Failed,
        !(event is Failed) ==> outcome_of(Expect::Success, event) is Accepted,
        outcome_of(Expect::FloatIs(wanted), event) is Accepted <==> (event matches Event::Float(got)
            && got.equals(wanted)),
        outcome_of(Expect::WordIs(word), event) is Accepted <==> event == Event::Word(word),
        wanted.nan() ==> !(outcome_of(Expect::FloatIs(wanted), event) is Accepted),
{
}

/// A memory type may be used only where the device allows it, by the bit of its
/// number, and where it has the properties.
pub proof fn law_usable_memory_is_allowed(
    memory_types: Seq<u32>,
    type_filter: u32,
    properties: u32,
    avoided: u32,
    index: u32,
)
    requires
        index < 32,
    ensures
        suitable(memory_types, type_filter, properties, avoided, index as int) <==> {
            &&& (type_filter >> index) % 2 == 1
            &&& includes(memory_types[index as int], properties)
            &&& lacks(memory_types[index as int], avoided)
        },
        type_filter == 0 ==> !suitable(memory_types, type_filter, properties, avoided, index as int),
{
    assert((type_filter & (1u32 << index) != 0) <==> (type_filter >> index) % 2 == 1)
        by (bit_vector)
        requires
            index < 32,
    ;
    assert(0u32 & (1u32 << index) == 0) by (bit_vector);
}

/// The barriers name the stages and accesses of what they order: kernels write
/// shader data, transfers write transfer data, and the kernels after both may read
/// and write.
pub proof fn law_barriers_order_the_writes()
    ensures
        compute_barrier() == (Command::MemoryBarrier {
            src_stage: 0x800,
            dst_stage: 0x800,
            src_access: 0x40,
            dst_access: 0x60,
        }),
        transfer_barrier() == (Command::MemoryBarrier {
            src_stage: 0x1000,
            dst_stage: 0x800,
            src_access: 0x1000,
            dst_access: 0x60,
        }),
{
}

/// A dispatch starts the kernel that it binds, with the set and the push constants
/// that it was given, in one layer of groups: no more of them in a line than the
/// elements need, and enough for all.
pub proof fn law_dispatches_start_what_they_bind(
    kernel: Kernel,
    set: usize,
    data: PushData,
    count: u32,
    local: u32,
)
    requires
        local > 0,
        count + local - 1 <= u32::MAX,
        !(data is Empty),
    ensures
        ({
            let line = dispatch_1d(kernel, set, data, count, local);
            let square = dispatch_2d(kernel, set, data, count, local);
            &&& line.len() == 4 && square.len() == 4
            &&& line[0] matches Command::BindPipeline { bind_point, kernel: bound } && bound
                == kernel && bind_point == 1
            &&& line[1] matches Command::BindDescriptorSet { set: bound, first_set, .. } && bound
                == set && first_set == 0
            &&& line[2] matches Command::PushConstants { data: pushed, range_offset, .. } && pushed
                == data && range_offset == 0
            &&& line[3] matches Command::Dispatch { x, y, z } && {
                &&& x * local >= count
                &&& count > 0 ==> (x - 1) * local < count
                &&& y == 1 && z == 1
                &&& square[3] == Command::Dispatch { x, y: x, z: 1 }
            }
            &&& square.take(3) == line.take(3)
        }),
{
    law_groups_cover_elements(count as nat, local as nat);
    let groups = group_count(count as nat, local as nat);
    assert(groups <= count + local - 1) by (nonlinear_arith)
        requires
            groups == (count + local - 1) / (local as int),
            local > 0,
            count >= 0,
    ;
    let line = dispatch_1d(kernel, set, data, count, local);
    let square = dispatch_2d(kernel, set, data, count, local);
    assert(square.take(3) =~= line.take(3));
}

/// A buffer that cannot be made keeps the device's own words, with what was tried in
/// front of them, and keeps them while it is released. It is released the way it was
/// made, backwards.
pub proof fn law_errors_keep_the_words(
    buffer: BufferView,
    memory_types: Seq<u32>,
    words: String,
    event: BufferEvent,
)
    ensures
        ({
            let failed = buffer.after(memory_types, BufferEvent::Failed(words));
            let next = buffer.after(memory_types, event);
            &&& buffer.stage is Creating ==> failed.error == Some(words@) && failed.current() is None
            &&& buffer.stage is Allocating ==> failed.error == Some(
                "Memory allocation failed: "@ + words@,
            ) && failed.current() == Some(BufferStep::DestroyBuffer)
            &&& buffer.stage is Binding ==> failed.error == Some(
                "Bind buffer memory failed: "@ + words@,
            ) && failed.current() == Some(BufferStep::FreeMemory)
            &&& buffer.stage is Freeing ==> next.error == buffer.error && next.current() == Some(
                BufferStep::DestroyBuffer,
            )
            &&& buffer.stage is Destroying ==> next.error == buffer.error && next.current() is None
        }),
{
}

} // verus!
