//! Buffers in device memory: how they are made, released, written and read.
use ash::vk;
use vstd::prelude::*;

#[allow(unused_imports)]
use crate::text::decimal;
use crate::text::push_decimal;
#[allow(unused_imports)]
use crate::vulkan::{first_suitable, includes, lacks, law_first_suitable_is_the_first};
use crate::vulkan::VulkanContext;

verus! {

/// The usages of buffers.
pub const USAGE_TRANSFER_SRC: u32 = 0x1;

pub const USAGE_TRANSFER_DST: u32 = 0x2;

pub const USAGE_STORAGE_BUFFER: u32 = 0x20;

/// The properties of memory.
pub const MEMORY_DEVICE_LOCAL: u32 = 0x1;

pub const MEMORY_HOST_VISIBLE: u32 = 0x2;

pub const MEMORY_HOST_COHERENT: u32 = 0x4;

/// A step on a buffer and its memory.
#[derive(Debug, Clone, Copy, PartialEq, Eq, Structural)]
pub enum BufferStep {
    /// Creates the buffer and asks what memory it needs.
    CreateBuffer { size: u64, usage: u32 },
    AllocateMemory { size: u64, memory_type: u32 },
    /// Binds the memory to the buffer from the start.
    BindMemory,
    FreeMemory,
    DestroyBuffer,
}

/// What a step brought.
pub enum BufferEvent {
    /// The buffer is there and needs so many bytes of one of these memory
    /// types.
    Created { required: u64, type_bits: u32 },
    Done,
    /// The step failed with an error.
    Failed(String),
}

/// How far a buffer is.
#[derive(Debug, Clone, Copy, PartialEq, Eq, Structural)]
pub enum Stage {
    Creating,
    Allocating { size: u64, memory_type: u32 },
    Binding { memory_type: u32 },
    Ready { memory_type: u32 },
    Freeing,
    Destroying,
    Failed,
}

/// A buffer with bound device memory, or on the way to one.
#[derive(Debug)]
pub struct GpuBuffer {
    pub size: u64,
    pub usage: u32,
    pub mem_properties: u32,
    /// The properties that the memory must not have.
    pub avoided: u32,
    pub stage: Stage,
    pub error: Option<String>,
}

/// A buffer, with the error as a character sequence.
pub struct BufferView {
    pub size: u64,
    pub usage: u32,
    pub mem_properties: u32,
    /// The properties that the memory must not have.
    pub avoided: u32,
    pub stage: Stage,
    pub error: Option<Seq<char>>,
}

impl View for GpuBuffer {
    type V = BufferView;

    open spec fn view(&self) -> BufferView {
        BufferView {
            size: self.size,
            usage: self.usage,
            mem_properties: self.mem_properties,
            avoided: self.avoided,
            stage: self.stage,
            error: match self.error {
                Some(error) => Some(error@),
                None => None,
            },
        }
    }
}

/// What the `Debug` format of `ash::vk::MemoryPropertyFlags` writes.
pub uninterp spec fn property_names(flags: u32) -> Seq<char>;

/// The `Debug` format of `ash::vk::MemoryPropertyFlags`: a text that the flags
/// alone decide. Which text is not stated.
#[verifier::external_body]
fn property_flags_text(flags: u32) -> (text: String)
    ensures
        text@ == property_names(flags),
{
    format!("{:?}", vk::MemoryPropertyFlags::from_raw(flags))
}

/// The error where no memory type will do. `names` are the properties.
pub open spec fn no_type_error(size: u64, names: Seq<char>) -> Seq<char> {
    "No suitable memory type for size="@ + decimal(size as nat) + ", flags="@ + names
}

/// The error where no memory type will do. `names` are the properties.
pub fn no_type_message(size: u64, names: &str) -> (message: String)
    ensures
        message@ == no_type_error(size, names@),
{
    let mut message = "No suitable memory type for size=".to_string();
    push_decimal(&mut message, size as u128);
    message.append(", flags=");
    message.append(names);
    message
}

/// Whether an event can answer the step of a stage.
pub open spec fn answers(stage: Stage, event: BufferEvent) -> bool {
    match stage {
        Stage::Creating => !(event is Done),
        Stage::Ready { .. } => false,
        Stage::Failed => false,
        _ => !(event is Created),
    }
}

impl BufferView {
    /// The step to perform next, if there is one.
    pub open spec fn current(self) -> Option<BufferStep> {
        match self.stage {
            Stage::Creating => Some(BufferStep::CreateBuffer { size: self.size, usage: self.usage }),
            Stage::Allocating { size, memory_type } => Some(
                BufferStep::AllocateMemory { size, memory_type },
            ),
            Stage::Binding { .. } => Some(BufferStep::BindMemory),
            Stage::Freeing => Some(BufferStep::FreeMemory),
            Stage::Destroying => Some(BufferStep::DestroyBuffer),
            Stage::Ready { .. } => None,
            Stage::Failed => None,
        }
    }

    /// The buffer after its step brought an event, on a device with these
    /// memory types.
    pub open spec fn after(self, memory_types: Seq<u32>, event: BufferEvent) -> BufferView {
        match self.stage {
            Stage::Creating => match event {
                BufferEvent::Created { required, type_bits } => match first_suitable(
                    memory_types,
                    type_bits,
                    self.mem_properties,
                    self.avoided,
                    0,
                ) {
                    Some(memory_type) => BufferView {
                        stage: Stage::Allocating { size: required, memory_type },
                        ..self
                    },
                    None => BufferView {
                        stage: Stage::Destroying,
                        error: Some(
                            no_type_error(self.size, property_names(self.mem_properties)),
                        ),
                        ..self
                    },
                },
                BufferEvent::Failed(error) => BufferView {
                    stage: Stage::Failed,
                    error: Some(error@),
                    ..self
                },
                BufferEvent::Done => self,
            },
            Stage::Allocating { size, memory_type } => match event {
                BufferEvent::Failed(error) => BufferView {
                    stage: Stage::Destroying,
                    error: Some("Memory allocation failed: "@ + error@),
                    ..self
                },
                _ => BufferView { stage: Stage::Binding { memory_type }, ..self },
            },
            Stage::Binding { memory_type } => match event {
                BufferEvent::Failed(error) => BufferView {
                    stage: Stage::Freeing,
                    error: Some("Bind buffer memory failed: "@ + error@),
                    ..self
                },
                _ => BufferView { stage: Stage::Ready { memory_type }, ..self },
            },
            Stage::Freeing => BufferView { stage: Stage::Destroying, ..self },
            Stage::Destroying => BufferView { stage: Stage::Failed, ..self },
            Stage::Ready { .. } => self,
            Stage::Failed => self,
        }
    }
}

/// A buffer that is yet to be made.
pub open spec fn requested(
    size: u64,
    usage: u32,
    mem_properties: u32,
    avoided: u32,
) -> BufferView {
    BufferView { size, usage, mem_properties, avoided, stage: Stage::Creating, error: None }
}

/// A buffer in the device's own memory that is yet to be made.
pub open spec fn requested_on_device(size: u64, usage: u32) -> BufferView {
    requested(
        size,
        usage | USAGE_TRANSFER_DST | USAGE_TRANSFER_SRC,
        MEMORY_DEVICE_LOCAL,
        MEMORY_HOST_VISIBLE,
    )
}

/// A buffer for transfers that is yet to be made.
pub open spec fn requested_on_host(size: u64) -> BufferView {
    requested(
        size,
        USAGE_TRANSFER_SRC | USAGE_TRANSFER_DST,
        MEMORY_HOST_VISIBLE | MEMORY_HOST_COHERENT,
        0,
    )
}

impl GpuBuffer {
    /// A new buffer with the given usage and memory properties.
    pub fn new(size: u64, usage: u32, mem_properties: u32) -> (buffer: GpuBuffer)
        ensures
            buffer@ == requested(size, usage, mem_properties, 0),
    {
        GpuBuffer {
            size,
            usage,
            mem_properties,
            avoided: 0,
            stage: Stage::Creating,
            error: None,
        }
    }

    /// A buffer in the device's own memory, which the host does not see. A
    /// device that has no such memory makes none: the error is that no memory
    /// type is suitable.
    pub fn device_local(size: u64, usage: u32) -> (buffer: GpuBuffer)
        ensures
            buffer@ == requested_on_device(size, usage),
            buffer@ == requested(
                size,
                usage | USAGE_TRANSFER_DST | USAGE_TRANSFER_SRC,
                MEMORY_DEVICE_LOCAL,
                MEMORY_HOST_VISIBLE,
            ),
    {
        GpuBuffer {
            size,
            usage: usage | USAGE_TRANSFER_DST | USAGE_TRANSFER_SRC,
            mem_properties: MEMORY_DEVICE_LOCAL,
            avoided: MEMORY_HOST_VISIBLE,
            stage: Stage::Creating,
            error: None,
        }
    }

    /// A buffer that the host sees, for transfers.
    pub fn staging(size: u64) -> (buffer: GpuBuffer)
        ensures
            buffer@ == requested_on_host(size),
            buffer@ == requested(
                size,
                USAGE_TRANSFER_SRC | USAGE_TRANSFER_DST,
                MEMORY_HOST_VISIBLE | MEMORY_HOST_COHERENT,
                0,
            ),
    {
        GpuBuffer::new(
            size,
            USAGE_TRANSFER_SRC | USAGE_TRANSFER_DST,
            MEMORY_HOST_VISIBLE | MEMORY_HOST_COHERENT,
        )
    }

    /// The step to perform next, if there is one.
    pub fn current(&self) -> (step: Option<BufferStep>)
        ensures
            step == self@.current(),
    {
        match self.stage {
            Stage::Creating => Some(BufferStep::CreateBuffer { size: self.size, usage: self.usage }),
            Stage::Allocating { size, memory_type } => Some(
                BufferStep::AllocateMemory { size, memory_type },
            ),
            Stage::Binding { .. } => Some(BufferStep::BindMemory),
            Stage::Freeing => Some(BufferStep::FreeMemory),
            Stage::Destroying => Some(BufferStep::DestroyBuffer),
            Stage::Ready { .. } => None,
            Stage::Failed => None,
        }
    }

    /// Takes note of what the current step brought.
    pub fn advance(&mut self, ctx: &VulkanContext, event: BufferEvent)
        requires
            ctx.wf(),
            answers(old(self)@.stage, event),
        ensures
            final(self)@ == old(self)@.after(ctx.memory_types@, event),
    {
        match self.stage {
            Stage::Creating => match event {
                BufferEvent::Created { required, type_bits } => {
                    match ctx.find_memory_type_without(
                        type_bits,
                        self.mem_properties,
                        self.avoided,
                    ) {
                        Some(memory_type) => {
                            self.stage = Stage::Allocating { size: required, memory_type };
                        },
                        None => {
                            let names: String = property_flags_text(self.mem_properties);
                            self.error = Some(no_type_message(self.size, names.as_str()));
                            self.stage = Stage::Destroying;
                        },
                    }
                },
                BufferEvent::Failed(error) => {
                    self.error = Some(error);
                    self.stage = Stage::Failed;
                },
                BufferEvent::Done => {},
            },
            Stage::Allocating { memory_type, .. } => match event {
                BufferEvent::Failed(error) => {
                    let mut message = "Memory allocation failed: ".to_string();
                    message.append(error.as_str());
                    self.error = Some(message);
                    self.stage = Stage::Destroying;
                },
                _ => {
                    self.stage = Stage::Binding { memory_type };
                },
            },
            Stage::Binding { memory_type } => match event {
                BufferEvent::Failed(error) => {
                    let mut message = "Bind buffer memory failed: ".to_string();
                    message.append(error.as_str());
                    self.error = Some(message);
                    self.stage = Stage::Freeing;
                },
                _ => {
                    self.stage = Stage::Ready { memory_type };
                },
            },
            Stage::Freeing => {
                self.stage = Stage::Destroying;
            },
            Stage::Destroying => {
                self.stage = Stage::Failed;
            },
            Stage::Ready { .. } => {},
            Stage::Failed => {},
        }
    }

    /// The steps that release a buffer and its memory.
    pub fn destroy(&self) -> (steps: Vec<BufferStep>)
        ensures
            steps@ == release_steps(),
            steps@ == seq![BufferStep::DestroyBuffer, BufferStep::FreeMemory],
    {
        vec![BufferStep::DestroyBuffer, BufferStep::FreeMemory]
    }
}

/// What exists on the device: the buffer, and its memory. `sound` tells
/// whether every step so far was allowed.
pub struct Holdings {
    pub buffer: bool,
    pub memory: bool,
    pub sound: bool,
}

impl Holdings {
    /// What exists after a step that succeeded or failed.
    pub open spec fn after(self, step: BufferStep, failed: bool) -> Holdings {
        match step {
            BufferStep::CreateBuffer { .. } => Holdings {
                buffer: self.buffer || !failed,
                sound: self.sound && !self.buffer,
                ..self
            },
            BufferStep::AllocateMemory { .. } => Holdings {
                memory: self.memory || !failed,
                sound: self.sound && !self.memory,
                ..self
            },
            BufferStep::BindMemory => Holdings {
                sound: self.sound && self.buffer && self.memory,
                ..self
            },
            BufferStep::FreeMemory => Holdings {
                memory: false,
                sound: self.sound && self.memory,
                ..self
            },
            BufferStep::DestroyBuffer => Holdings {
                buffer: false,
                sound: self.sound && self.buffer,
                ..self
            },
        }
    }
}

/// What exists at a stage.
pub open spec fn holdings(stage: Stage) -> Holdings {
    Holdings {
        buffer: stage is Allocating || stage is Binding || stage is Ready || stage is Freeing
            || stage is Destroying,
        memory: stage is Binding || stage is Ready || stage is Freeing,
        sound: true,
    }
}

/// Whatever the steps bring, what exists is what the stage stands for: both
/// the buffer and its memory once it is ready, nothing once it has failed. A
/// buffer that failed has an error, and one that is ready has none.
pub proof fn law_failed_buffers_leave_nothing(
    buffer: BufferView,
    memory_types: Seq<u32>,
    event: BufferEvent,
)
    requires
        answers(buffer.stage, event),
        buffer.error is Some <==> buffer.stage is Freeing || buffer.stage is Destroying
            || buffer.stage is Failed,
    ensures
        ({
            let next = buffer.after(memory_types, event);
            &&& holdings(next.stage) == holdings(buffer.stage).after(
                buffer.current()->0,
                event is Failed,
            )
            &&& next.error is Some <==> next.stage is Freeing || next.stage is Destroying
                || next.stage is Failed
            &&& holdings(Stage::Failed) == (Holdings { buffer: false, memory: false, sound: true })
            &&& next.stage is Ready ==> holdings(next.stage) == (Holdings {
                buffer: true,
                memory: true,
                sound: true,
            })
        }),
{
}

impl BufferView {
    /// Whether the memory of the buffer, where it has or gets some, is of a
    /// type with the properties that were asked for and none of the avoided.
    pub open spec fn placed(self, memory_types: Seq<u32>) -> bool {
        match self.stage {
            Stage::Allocating { memory_type, .. } => self.allows(memory_types, memory_type),
            Stage::Binding { memory_type } => self.allows(memory_types, memory_type),
            Stage::Ready { memory_type } => self.allows(memory_types, memory_type),
            _ => true,
        }
    }

    /// Whether the buffer may lie in memory of a type.
    pub open spec fn allows(self, memory_types: Seq<u32>, memory_type: u32) -> bool {
        &&& memory_type < memory_types.len()
        &&& includes(memory_types[memory_type as int], self.mem_properties)
        &&& lacks(memory_types[memory_type as int], self.avoided)
    }

    /// The buffer after its steps brought some events.
    pub open spec fn after_all(
        self,
        memory_types: Seq<u32>,
        events: Seq<BufferEvent>,
    ) -> BufferView
        decreases events.len(),
    {
        if events.len() == 0 {
            self
        } else {
            self.after_all(memory_types, events.drop_last()).after(memory_types, events.last())
        }
    }
}

/// Whatever the steps bring, a buffer keeps its size, its usage and what it
/// asks of its memory, and its memory is of a type that it allows.
pub proof fn law_buffers_lie_in_the_memory_asked_for(
    buffer: BufferView,
    memory_types: Seq<u32>,
    events: Seq<BufferEvent>,
)
    requires
        memory_types.len() <= 32,
        buffer.placed(memory_types),
    ensures
        ({
            let after = buffer.after_all(memory_types, events);
            &&& after.placed(memory_types)
            &&& after.size == buffer.size
            &&& after.usage == buffer.usage
            &&& after.mem_properties == buffer.mem_properties
            &&& after.avoided == buffer.avoided
        }),
    decreases events.len(),
{
    if events.len() > 0 {
        law_buffers_lie_in_the_memory_asked_for(buffer, memory_types, events.drop_last());
        let before = buffer.after_all(memory_types, events.drop_last());
        if let BufferEvent::Created { type_bits, .. } = events.last() {
            law_first_suitable_is_the_first(
                memory_types,
                type_bits,
                before.mem_properties,
                before.avoided,
                0,
            );
        }
    }
}

/// A device-local buffer that is ready has the size asked for, can be copied
/// from and to, and lies in the device's own memory, which the host does not
/// see.
pub proof fn law_device_local_buffers_are_hidden_from_the_host(
    size: u64,
    usage: u32,
    memory_types: Seq<u32>,
    events: Seq<BufferEvent>,
)
    requires
        memory_types.len() <= 32,
    ensures
        ({
            let buffer = requested(
                size,
                usage | USAGE_TRANSFER_DST | USAGE_TRANSFER_SRC,
                MEMORY_DEVICE_LOCAL,
                MEMORY_HOST_VISIBLE,
            ).after_all(memory_types, events);
            &&& buffer.size == size
            &&& buffer.usage == usage | USAGE_TRANSFER_DST | USAGE_TRANSFER_SRC
            &&& buffer.stage matches Stage::Ready { memory_type } ==> {
                &&& memory_type < memory_types.len()
                &&& includes(memory_types[memory_type as int], MEMORY_DEVICE_LOCAL)
                &&& !includes(memory_types[memory_type as int], MEMORY_HOST_VISIBLE)
            }
        }),
{
    let buffer = requested(
        size,
        usage | USAGE_TRANSFER_DST | USAGE_TRANSFER_SRC,
        MEMORY_DEVICE_LOCAL,
        MEMORY_HOST_VISIBLE,
    );
    law_buffers_lie_in_the_memory_asked_for(buffer, memory_types, events);
}

/// Every step leads closer to the end of the creation.
pub open spec fn steps_left(stage: Stage) -> nat {
    match stage {
        Stage::Creating => 5,
        Stage::Allocating { .. } => 4,
        Stage::Binding { .. } => 3,
        Stage::Freeing => 2,
        Stage::Destroying => 1,
        Stage::Ready { .. } => 0,
        Stage::Failed => 0,
    }
}

/// The creation of a buffer comes to an end: no step leads back.
pub proof fn law_creation_ends(buffer: BufferView, memory_types: Seq<u32>, event: BufferEvent)
    requires
        answers(buffer.stage, event),
    ensures
        steps_left(buffer.after(memory_types, event).stage) < steps_left(buffer.stage),
        steps_left(buffer.stage) == 0 <==> buffer.current() is None,
{
}

/// Releasing a buffer that is ready leaves nothing.
pub proof fn law_destroy_leaves_nothing(buffer: BufferView)
    requires
        buffer.stage is Ready,
    ensures
        holdings(buffer.stage).after(BufferStep::DestroyBuffer, false).after(
            BufferStep::FreeMemory,
            false,
        ) == (Holdings { buffer: false, memory: false, sound: true }),
{
}

/// A copy between two buffers, in bytes.
#[derive(Debug, Clone, Copy, PartialEq, Eq, Structural)]
pub struct CopyRegion {
    pub src_offset: u64,
    pub dst_offset: u64,
    pub size: u64,
}

/// A step of a transfer between the host and a device buffer, by way of a
/// staging buffer.
#[derive(Debug, Clone, Copy, PartialEq, Eq, Structural)]
pub enum TransferStep {
    CreateStaging { bytes: u64 },
    /// Copies so many bytes of the host's data to the staging buffer.
    WriteStaging { bytes: u64 },
    CopyToDevice { region: CopyRegion },
    CopyFromDevice { region: CopyRegion },
    /// Copies so many bytes of the staging buffer to the host.
    ReadStaging { bytes: u64 },
    DestroyStaging,
}

/// The steps of an upload.
pub open spec fn upload_steps(bytes: u64) -> Seq<TransferStep> {
    seq![
        TransferStep::CreateStaging { bytes },
        TransferStep::WriteStaging { bytes },
        TransferStep::CopyToDevice {
            region: CopyRegion { src_offset: 0, dst_offset: 0, size: bytes },
        },
        TransferStep::DestroyStaging,
    ]
}

/// The steps of a read of `bytes` bytes from an offset.
pub open spec fn read_steps(offset: u64, bytes: u64) -> Seq<TransferStep> {
    seq![
        TransferStep::CreateStaging { bytes },
        TransferStep::CopyFromDevice {
            region: CopyRegion { src_offset: offset, dst_offset: 0, size: bytes },
        },
        TransferStep::ReadStaging { bytes },
        TransferStep::DestroyStaging,
    ]
}

/// The steps of an upload of so many single-precision numbers.
pub open spec fn number_upload(count: usize) -> Seq<TransferStep> {
    upload_steps((count * 4) as u64)
}

/// The steps of a download of so many single-precision numbers.
pub open spec fn number_download(count: usize) -> Seq<TransferStep> {
    read_steps(0, (count * 4) as u64)
}

/// The steps of a read of the four bytes at an offset.
pub open spec fn single_read(byte_offset: u64) -> Seq<TransferStep> {
    read_steps(byte_offset, 4)
}

/// The steps that release a buffer and its memory.
pub open spec fn release_steps() -> Seq<BufferStep> {
    seq![BufferStep::DestroyBuffer, BufferStep::FreeMemory]
}

/// Uploads single-precision numbers to the start of a device buffer.
pub fn upload_f32(count: usize) -> (steps: Vec<TransferStep>)
    requires
        count * 4 <= usize::MAX,
    ensures
        steps@ == number_upload(count),
        steps@ == upload_steps((count * 4) as u64),
{
    let bytes: u64 = (count * 4) as u64;
    vec![
        TransferStep::CreateStaging { bytes },
        TransferStep::WriteStaging { bytes },
        TransferStep::CopyToDevice {
            region: CopyRegion { src_offset: 0, dst_offset: 0, size: bytes },
        },
        TransferStep::DestroyStaging,
    ]
}

fn read_plan(offset: u64, bytes: u64) -> (steps: Vec<TransferStep>)
    ensures
        steps@ == read_steps(offset, bytes),
{
    vec![
        TransferStep::CreateStaging { bytes },
        TransferStep::CopyFromDevice {
            region: CopyRegion { src_offset: offset, dst_offset: 0, size: bytes },
        },
        TransferStep::ReadStaging { bytes },
        TransferStep::DestroyStaging,
    ]
}

/// Downloads single-precision numbers from the start of a device buffer.
pub fn download_f32(count: usize) -> (steps: Vec<TransferStep>)
    requires
        count * 4 <= usize::MAX,
    ensures
        steps@ == number_download(count),
        steps@ == read_steps(0, (count * 4) as u64),
{
    read_plan(0, (count * 4) as u64)
}

/// Reads the single-precision number at a byte offset.
pub fn read_f32_at(byte_offset: u64) -> (steps: Vec<TransferStep>)
    ensures
        steps@ == single_read(byte_offset),
        steps@ == read_steps(byte_offset, 4),
{
    read_plan(byte_offset, 4)
}

/// Reads the word at a byte offset.
pub fn read_u32_at(byte_offset: u64) -> (steps: Vec<TransferStep>)
    ensures
        steps@ == single_read(byte_offset),
        steps@ == read_steps(byte_offset, 4),
{
    read_plan(byte_offset, 4)
}

/// Memory during a transfer: what the host hands over, the device buffer, the
/// staging buffer while there is one, and what the host got back.
pub struct TransferState {
    pub host: Seq<u8>,
    pub device: Seq<u8>,
    pub staging: Option<Seq<u8>>,
    pub received: Seq<u8>,
    /// Whether every step so far was allowed.
    pub sound: bool,
}

/// The contents of a buffer after a region of another was copied over it.
pub open spec fn copied(from: Seq<u8>, to: Seq<u8>, region: CopyRegion) -> Seq<u8> {
    Seq::new(
        to.len(),
        |i: int|
            if region.dst_offset <= i < region.dst_offset + region.size {
                from[region.src_offset + (i - region.dst_offset)]
            } else {
                to[i]
            },
    )
}

/// Whether a region lies within both buffers.
pub open spec fn within(from: Seq<u8>, to: Seq<u8>, region: CopyRegion) -> bool {
    region.src_offset + region.size <= from.len() && region.dst_offset + region.size <= to.len()
}

impl TransferState {
    /// Memory after a step. `noise` is what a new buffer happens to hold.
    pub open spec fn after(self, step: TransferStep, noise: spec_fn(int) -> u8) -> TransferState {
        match step {
            TransferStep::CreateStaging { bytes } => TransferState {
                staging: Some(Seq::new(bytes as nat, noise)),
                sound: self.sound && self.staging is None && bytes > 0,
                ..self
            },
            TransferStep::WriteStaging { bytes } => TransferState {
                staging: Some(
                    copied(
                        self.host,
                        self.staging->0,
                        CopyRegion { src_offset: 0, dst_offset: 0, size: bytes },
                    ),
                ),
                sound: self.sound && self.staging is Some && within(
                    self.host,
                    self.staging->0,
                    CopyRegion { src_offset: 0, dst_offset: 0, size: bytes },
                ),
                ..self
            },
            TransferStep::CopyToDevice { region } => TransferState {
                device: copied(self.staging->0, self.device, region),
                sound: self.sound && self.staging is Some && within(
                    self.staging->0,
                    self.device,
                    region,
                ),
                ..self
            },
            TransferStep::CopyFromDevice { region } => TransferState {
                staging: Some(copied(self.device, self.staging->0, region)),
                sound: self.sound && self.staging is Some && within(
                    self.device,
                    self.staging->0,
                    region,
                ),
                ..self
            },
            TransferStep::ReadStaging { bytes } => TransferState {
                received: (self.staging->0).take(bytes as int),
                sound: self.sound && self.staging is Some && bytes <= (self.staging->0).len(),
                ..self
            },
            TransferStep::DestroyStaging => TransferState {
                staging: None,
                sound: self.sound && self.staging is Some,
                ..self
            },
        }
    }

    /// Memory after some steps.
    pub open spec fn after_all(
        self,
        steps: Seq<TransferStep>,
        noise: spec_fn(int) -> u8,
    ) -> TransferState
        decreases steps.len(),
    {
        if steps.len() == 0 {
            self
        } else {
            self.after_all(steps.drop_last(), noise).after(steps.last(), noise)
        }
    }
}

proof fn lemma_four_steps(state: TransferState, steps: Seq<TransferStep>, noise: spec_fn(int) -> u8)
    requires
        steps.len() == 4,
    ensures
        state.after_all(steps, noise) == state.after(steps[0], noise).after(
            steps[1],
            noise,
        ).after(steps[2], noise).after(steps[3], noise),
{
    let three = steps.drop_last();
    let two = three.drop_last();
    let first = two.drop_last();
    assert(first.drop_last() =~= seq![]);
    reveal_with_fuel(TransferState::after_all, 5);
}

/// An upload puts all of the host's data at the start of the device buffer,
/// keeps the rest of it, and leaves no staging buffer behind.
pub proof fn law_upload_writes_the_start(state: TransferState, noise: spec_fn(int) -> u8)
    requires
        state.sound,
        state.staging is None,
        0 < state.host.len() <= u64::MAX,
        state.host.len() <= state.device.len(),
    ensures
        state.after_all(upload_steps(state.host.len() as u64), noise) == (TransferState {
            device: state.host + state.device.skip(state.host.len() as int),
            ..state
        }),
{
    let bytes = state.host.len() as u64;
    let steps = upload_steps(bytes);
    lemma_four_steps(state, steps, noise);
    let written = state.after(steps[0], noise).after(steps[1], noise);
    assert(written.staging->0 =~= state.host);
    let done = written.after(steps[2], noise).after(steps[3], noise);
    assert(done.device =~= state.host + state.device.skip(bytes as int));
}

/// A read brings the bytes of the device buffer from the offset on, changes
/// nothing on the device, and leaves no staging buffer behind.
pub proof fn law_read_brings_the_bytes(
    state: TransferState,
    offset: u64,
    bytes: u64,
    noise: spec_fn(int) -> u8,
)
    requires
        state.sound,
        state.staging is None,
        0 < bytes,
        offset + bytes <= state.device.len(),
    ensures
        state.after_all(read_steps(offset, bytes), noise) == (TransferState {
            received: state.device.subrange(offset as int, offset + bytes),
            ..state
        }),
{
    let steps = read_steps(offset, bytes);
    lemma_four_steps(state, steps, noise);
    let fetched = state.after(steps[0], noise).after(steps[1], noise);
    assert(fetched.staging->0 =~= state.device.subrange(offset as int, offset + bytes));
    let read = fetched.after(steps[2], noise);
    assert(read.received =~= state.device.subrange(offset as int, offset + bytes));
}

/// What was uploaded is what a download of as many numbers gives back.
pub proof fn law_download_gives_back_the_upload(
    state: TransferState,
    count: usize,
    noise: spec_fn(int) -> u8,
)
    requires
        state.sound,
        state.staging is None,
        0 < count,
        count * 4 <= usize::MAX,
        state.host.len() == count * 4,
        state.host.len() <= state.device.len(),
    ensures
        ({
            let bytes = (count * 4) as u64;
            let after = state.after_all(upload_steps(bytes), noise).after_all(
                read_steps(0, bytes),
                noise,
            );
            &&& after.sound
            &&& after.staging is None
            &&& after.received == state.host
        }),
{
    law_download_gives_back_the_start_of_the_upload(state, count, count, noise);
    assert(state.host.take(4 * count) =~= state.host);
}

/// The start of what was uploaded is what a download of fewer numbers gives
/// back.
pub proof fn law_download_gives_back_the_start_of_the_upload(
    state: TransferState,
    count: usize,
    n: usize,
    noise: spec_fn(int) -> u8,
)
    requires
        state.sound,
        state.staging is None,
        0 < n <= count,
        count * 4 <= usize::MAX,
        state.host.len() == count * 4,
        state.host.len() <= state.device.len(),
    ensures
        ({
            let after = state.after_all(upload_steps((count * 4) as u64), noise).after_all(
                read_steps(0, (n * 4) as u64),
                noise,
            );
            &&& after.sound
            &&& after.staging is None
            &&& after.received == state.host.take(4 * n)
        }),
{
    let fetched = (n * 4) as u64;
    law_upload_writes_the_start(state, noise);
    let uploaded = state.after_all(upload_steps((count * 4) as u64), noise);
    law_read_brings_the_bytes(uploaded, 0, fetched, noise);
    assert(uploaded.device.subrange(0, fetched as int) =~= state.host.take(4 * n));
}

} // verus!
