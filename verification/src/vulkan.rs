//! What Vulkan tells about devices: names, versions, queues and memory types.
use ash::vk;
use vstd::prelude::*;
use vstd::utf8::{decode_utf8, valid_utf8};

#[allow(unused_imports)]
use crate::text::decimal;
use crate::text::push_decimal;

verus! {

/// The vendor's name for a PCI vendor id.
pub open spec fn vendor_name_text(vendor_id: u32) -> Seq<char> {
    if vendor_id == 0x1002 {
        "AMD"@
    } else if vendor_id == 0x10DE {
        "NVIDIA"@
    } else if vendor_id == 0x8086 {
        "Intel"@
    } else if vendor_id == 0x13B5 {
        "ARM"@
    } else if vendor_id == 0x5143 {
        "Qualcomm"@
    } else if vendor_id == 0x1010 {
        "ImgTec"@
    } else {
        "Unknown"@
    }
}

/// Decodes a PCI vendor id to a readable name.
pub fn vendor_name(vendor_id: u32) -> (name: &'static str)
    ensures
        name@ == vendor_name_text(vendor_id),
{
    match vendor_id {
        0x1002 => "AMD",
        0x10DE => "NVIDIA",
        0x8086 => "Intel",
        0x13B5 => "ARM",
        0x5143 => "Qualcomm",
        0x1010 => "ImgTec",
        _ => "Unknown",
    }
}

/// `ash::vk::api_version_major`: bits 22 to 28 of a version.
pub assume_specification[ ash::vk::api_version_major ](version: u32) -> (major: u32)
    ensures
        major == (version >> 22) & 0x7f,
;

/// `ash::vk::api_version_minor`: bits 12 to 21 of a version.
pub assume_specification[ ash::vk::api_version_minor ](version: u32) -> (minor: u32)
    ensures
        minor == (version >> 12) & 0x3ff,
;

/// `ash::vk::api_version_patch`: the lowest 12 bits of a version.
pub assume_specification[ ash::vk::api_version_patch ](version: u32) -> (patch: u32)
    ensures
        patch == version & 0xfff,
;

/// Three numbers with dots between them.
pub open spec fn dotted3(a: u32, b: u32, c: u32) -> Seq<char> {
    decimal(a as nat) + "."@ + decimal(b as nat) + "."@ + decimal(c as nat)
}

/// A version in Vulkan's own encoding: 7 bits, 10 bits and 12 bits.
pub open spec fn api_version_view(version: u32) -> Seq<char> {
    dotted3((version >> 22) & 0x7f, (version >> 12) & 0x3ff, version & 0xfff)
}

/// A driver version as its vendor means it: NVIDIA has 10 bits, 8 bits and 14
/// bits, Intel 18 bits and 14 bits, everyone else Vulkan's own encoding.
pub open spec fn driver_version_view(vendor_id: u32, driver_version: u32) -> Seq<char> {
    if vendor_id == 0x10DE {
        dotted3(
            (driver_version >> 22) & 0x3ff,
            (driver_version >> 14) & 0xff,
            driver_version & 0x3fff,
        )
    } else if vendor_id == 0x8086 {
        decimal((driver_version >> 14) as nat) + "."@ + decimal((driver_version & 0x3fff) as nat)
    } else {
        api_version_view(driver_version)
    }
}

fn join_version(a: u32, b: u32, c: u32) -> (text: String)
    ensures
        text@ == dotted3(a, b, c),
{
    let mut text = String::new();
    push_decimal(&mut text, a as u128);
    text.append(".");
    push_decimal(&mut text, b as u128);
    text.append(".");
    push_decimal(&mut text, c as u128);
    assert(text@ =~= dotted3(a, b, c));
    text
}

/// Formats a version in Vulkan's own encoding.
pub fn format_api_version(version: u32) -> (text: String)
    ensures
        text@ == api_version_view(version),
{
    join_version(
        ash::vk::api_version_major(version),
        ash::vk::api_version_minor(version),
        ash::vk::api_version_patch(version),
    )
}

/// Formats a driver version as its vendor means it.
pub fn format_driver_version(vendor_id: u32, driver_version: u32) -> (text: String)
    ensures
        text@ == driver_version_view(vendor_id, driver_version),
{
    match vendor_id {
        0x10DE => join_version(
            (driver_version >> 22) & 0x3ff,
            (driver_version >> 14) & 0xff,
            driver_version & 0x3fff,
        ),
        0x8086 => {
            let mut text = String::new();
            push_decimal(&mut text, (driver_version >> 14) as u128);
            text.append(".");
            push_decimal(&mut text, (driver_version & 0x3fff) as u128);
            assert(text@ =~= driver_version_view(vendor_id, driver_version));
            text
        },
        _ => format_api_version(driver_version),
    }
}

/// What `String::from_utf8_lossy` makes of bytes.
pub uninterp spec fn lossy_text(bytes: Seq<u8>) -> Seq<char>;

/// `String::from_utf8_lossy`: the text of bytes, decided by the bytes alone.
/// Bytes that are valid UTF-8 give the text that they encode. What stands in
/// place of invalid bytes is not stated.
#[verifier::external_body]
fn text_of_bytes(bytes: &Vec<u8>) -> (text: String)
    ensures
        text@ == lossy_text(bytes@),
        valid_utf8(bytes@) ==> text@ == decode_utf8(bytes@),
{
    String::from_utf8_lossy(bytes).into_owned()
}

/// How many bytes stand before the first zero byte; all, if there is none.
pub open spec fn c_length(raw: Seq<u8>) -> nat
    decreases raw.len(),
{
    if raw.len() == 0 || raw[0] == 0 {
        0
    } else {
        1 + c_length(raw.skip(1))
    }
}

proof fn lemma_c_length(raw: Seq<u8>, n: nat)
    requires
        n <= raw.len(),
        forall|i: int| 0 <= i < n ==> raw[i] != 0,
        n == raw.len() || raw[n as int] == 0,
    ensures
        c_length(raw) == n,
    decreases n,
{
    if n > 0 {
        lemma_c_length(raw.skip(1), (n - 1) as nat);
    }
}

/// The bytes of a C string that has its place in a longer array.
pub fn c_bytes(raw: &Vec<u8>) -> (bytes: Vec<u8>)
    ensures
        bytes@ == raw@.take(c_length(raw@) as int),
        forall|i: int| 0 <= i < bytes.len() ==> bytes[i] != 0,
        bytes.len() < raw.len() ==> raw[bytes.len() as int] == 0,
{
    let mut bytes: Vec<u8> = Vec::new();
    while bytes.len() < raw.len() && raw[bytes.len()] != 0
        invariant
            bytes.len() <= raw.len(),
            bytes@ == raw@.take(bytes.len() as int),
            forall|i: int| 0 <= i < bytes.len() ==> bytes[i] != 0,
        decreases raw.len() - bytes.len(),
    {
        let byte: u8 = raw[bytes.len()];
        bytes.push(byte);
        assert(bytes@ =~= raw@.take(bytes.len() as int));
    }
    proof {
        assert forall|i: int| 0 <= i < bytes.len() implies raw@[i] != 0 by {
            assert(bytes[i] == raw@[i]);
        }
        lemma_c_length(raw@, bytes@.len());
    }
    bytes
}

/// Extracts the text of a C string that has its place in a longer array.
pub fn vk_string(raw: &Vec<u8>) -> (text: String)
    ensures
        text@ == lossy_text(raw@.take(c_length(raw@) as int)),
        valid_utf8(raw@.take(c_length(raw@) as int)) ==> text@ == decode_utf8(
            raw@.take(c_length(raw@) as int),
        ),
{
    text_of_bytes(&c_bytes(raw))
}

/// The kinds of devices.
#[derive(Debug, Clone, Copy, PartialEq, Eq, Structural)]
pub enum DeviceKind {
    Discrete,
    Integrated,
    Virtual,
    Cpu,
    Other,
}

/// The kind that a number stands for.
pub open spec fn device_kind(raw: i32) -> DeviceKind {
    if raw == 2 {
        DeviceKind::Discrete
    } else if raw == 1 {
        DeviceKind::Integrated
    } else if raw == 3 {
        DeviceKind::Virtual
    } else if raw == 4 {
        DeviceKind::Cpu
    } else {
        DeviceKind::Other
    }
}

/// `ash::vk::PhysicalDeviceType::from_raw`, told apart by the constants of that
/// type: discrete is 2, integrated 1, virtual 3, and a CPU 4.
#[verifier::external_body]
fn classify_device(raw: i32) -> (kind: DeviceKind)
    ensures
        kind == device_kind(raw),
{
    match vk::PhysicalDeviceType::from_raw(raw) {
        vk::PhysicalDeviceType::DISCRETE_GPU => DeviceKind::Discrete,
        vk::PhysicalDeviceType::INTEGRATED_GPU => DeviceKind::Integrated,
        vk::PhysicalDeviceType::VIRTUAL_GPU => DeviceKind::Virtual,
        vk::PhysicalDeviceType::CPU => DeviceKind::Cpu,
        _ => DeviceKind::Other,
    }
}

/// The name of a kind of device.
pub open spec fn device_type_view(raw: i32) -> Seq<char> {
    match device_kind(raw) {
        DeviceKind::Discrete => "Discrete GPU"@,
        DeviceKind::Integrated => "Integrated GPU"@,
        DeviceKind::Virtual => "Virtual GPU"@,
        DeviceKind::Cpu => "CPU (Software Rendering)"@,
        DeviceKind::Other => "Unknown"@,
    }
}

/// Formats the kind of a device, given as Vulkan's number for it.
pub fn device_type_str(dt: i32) -> (name: &'static str)
    ensures
        name@ == device_type_view(dt),
{
    match classify_device(dt) {
        DeviceKind::Discrete => "Discrete GPU",
        DeviceKind::Integrated => "Integrated GPU",
        DeviceKind::Virtual => "Virtual GPU",
        DeviceKind::Cpu => "CPU (Software Rendering)",
        DeviceKind::Other => "Unknown",
    }
}

/// Whether all of some flags are among others.
pub open spec fn includes(flags: u32, wanted: u32) -> bool {
    flags & wanted == wanted
}

/// The flag of queues that take compute work.
pub const QUEUE_COMPUTE: u32 = 0x2;

/// `ash::vk::QueueFlags::contains`: whether every wanted flag is set.
#[verifier::external_body]
fn queue_flags_contain(flags: u32, wanted: u32) -> (contain: bool)
    ensures
        contain == includes(flags, wanted),
{
    vk::QueueFlags::from_raw(flags).contains(vk::QueueFlags::from_raw(wanted))
}

/// `ash::vk::MemoryPropertyFlags::contains`: whether every wanted flag is set.
#[verifier::external_body]
fn property_flags_contain(flags: u32, wanted: u32) -> (contain: bool)
    ensures
        contain == includes(flags, wanted),
{
    vk::MemoryPropertyFlags::from_raw(flags).contains(vk::MemoryPropertyFlags::from_raw(wanted))
}

/// Why no context can be made of a device.
#[derive(Debug, Clone, Copy, PartialEq, Eq, Structural)]
pub enum ContextError {
    NoComputeQueue,
}

impl ContextError {
    /// The error as text.
    pub fn message(&self) -> (message: &'static str)
        ensures
            message@ == "No compute queue family found"@,
    {
        "No compute queue family found"
    }
}

/// What the benchmarks need to know of a device: the queue family that takes
/// compute work, and the properties of each memory type.
#[derive(Debug)]
pub struct VulkanContext {
    pub compute_queue_family: u32,
    pub memory_types: Vec<u32>,
}

/// Whether flags have none of the avoided ones.
pub open spec fn lacks(flags: u32, avoided: u32) -> bool {
    flags & avoided == 0
}

/// Where nothing is to be avoided, all flags will do.
pub proof fn law_nothing_is_avoided(flags: u32)
    ensures
        lacks(flags, 0),
{
    assert(flags & 0 == 0) by (bit_vector);
}

/// Whether a memory type may be used: the filter names it, and it has all
/// properties and none of the avoided ones.
pub open spec fn suitable(
    memory_types: Seq<u32>,
    type_filter: u32,
    properties: u32,
    avoided: u32,
    index: int,
) -> bool {
    &&& type_filter & (1u32 << (index as u32)) != 0
    &&& includes(memory_types[index], properties)
    &&& lacks(memory_types[index], avoided)
}

/// The first memory type from an index on that may be used.
pub open spec fn first_suitable(
    memory_types: Seq<u32>,
    type_filter: u32,
    properties: u32,
    avoided: u32,
    from: nat,
) -> Option<u32>
    decreases memory_types.len() - from,
{
    if from >= memory_types.len() {
        None
    } else if suitable(memory_types, type_filter, properties, avoided, from as int) {
        Some(from as u32)
    } else {
        first_suitable(memory_types, type_filter, properties, avoided, from + 1)
    }
}

/// The first memory type that may be used may be used, and none before it.
pub proof fn law_first_suitable_is_the_first(
    memory_types: Seq<u32>,
    type_filter: u32,
    properties: u32,
    avoided: u32,
    from: nat,
)
    requires
        memory_types.len() <= 32,
    ensures
        match first_suitable(memory_types, type_filter, properties, avoided, from) {
            None => forall|i: int|
                from <= i < memory_types.len() ==> !#[trigger] suitable(
                    memory_types,
                    type_filter,
                    properties,
                    avoided,
                    i,
                ),
            Some(index) => {
                &&& from <= index < memory_types.len()
                &&& suitable(memory_types, type_filter, properties, avoided, index as int)
                &&& forall|i: int|
                    from <= i < index ==> !#[trigger] suitable(
                        memory_types,
                        type_filter,
                        properties,
                        avoided,
                        i,
                    )
            },
        },
    decreases memory_types.len() - from,
{
    if from < memory_types.len() && !suitable(memory_types, type_filter, properties, avoided, from as int) {
        law_first_suitable_is_the_first(memory_types, type_filter, properties, avoided, from + 1);
    }
}

impl VulkanContext {
    /// Vulkan has at most 32 memory types.
    pub open spec fn wf(self) -> bool {
        self.memory_types.len() <= 32
    }

    /// Chooses the first queue family that takes compute work.
    pub fn new(queue_flags: &Vec<u32>, memory_types: Vec<u32>) -> (context: Result<
        VulkanContext,
        ContextError,
    >)
        requires
            queue_flags.len() <= u32::MAX,
        ensures
            context is Err <==> forall|i: int|
                0 <= i < queue_flags.len() ==> !includes(#[trigger] queue_flags[i], QUEUE_COMPUTE),
            context matches Ok(context) ==> {
                &&& context.memory_types == memory_types
                &&& context.compute_queue_family < queue_flags.len()
                &&& includes(queue_flags[context.compute_queue_family as int], QUEUE_COMPUTE)
                &&& forall|i: int|
                    0 <= i < context.compute_queue_family ==> !includes(
                        #[trigger] queue_flags[i],
                        QUEUE_COMPUTE,
                    )
            },
    {
        let mut i: usize = 0;
        while i < queue_flags.len()
            invariant
                i <= queue_flags.len(),
                queue_flags.len() <= u32::MAX,
                forall|j: int| 0 <= j < i ==> !includes(#[trigger] queue_flags[j], QUEUE_COMPUTE),
            decreases queue_flags.len() - i,
        {
            if queue_flags_contain(queue_flags[i], QUEUE_COMPUTE) {
                return Ok(VulkanContext { compute_queue_family: i as u32, memory_types });
            }
            i = i + 1;
        }
        Err(ContextError::NoComputeQueue)
    }

    /// Finds the first memory type that satisfies both the filter and the
    /// properties.
    pub fn find_memory_type(&self, type_filter: u32, properties: u32) -> (found: Option<u32>)
        requires
            self.wf(),
        ensures
            found == first_suitable(self.memory_types@, type_filter, properties, 0, 0),
    {
        self.find_memory_type_without(type_filter, properties, 0)
    }

    /// Finds the first memory type that satisfies both the filter and the
    /// properties, and has none of the avoided properties.
    pub fn find_memory_type_without(&self, type_filter: u32, properties: u32, avoided: u32) -> (found:
        Option<u32>)
        requires
            self.wf(),
        ensures
            found == first_suitable(self.memory_types@, type_filter, properties, avoided, 0),
    {
        let mut i: u32 = 0;
        while (i as usize) < self.memory_types.len()
            invariant
                self.wf(),
                i <= self.memory_types.len(),
                first_suitable(self.memory_types@, type_filter, properties, avoided, 0)
                    == first_suitable(
                    self.memory_types@,
                    type_filter,
                    properties,
                    avoided,
                    i as nat,
                ),
            decreases self.memory_types.len() - i,
        {
            let flags: u32 = self.memory_types[i as usize];
            if (type_filter & (1u32 << i)) != 0 && property_flags_contain(flags, properties) && (flags
                & avoided) == 0 {
                assert(suitable(self.memory_types@, type_filter, properties, avoided, i as int));
                return Some(i);
            }
            assert(!suitable(self.memory_types@, type_filter, properties, avoided, i as int));
            i = i + 1;
        }
        None
    }
}

} // verus!
