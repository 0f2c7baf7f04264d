//! Discovered GPUs.
use ash::vk;
use vstd::prelude::*;
#[allow(unused_imports)]
use vstd::utf8::{decode_utf8, valid_utf8};

#[allow(unused_imports)]
use crate::vulkan::{
    api_version_view, c_length, device_type_view, driver_version_view, includes, lossy_text,
    vendor_name_text,
};
use crate::vulkan::{
    device_type_str, format_api_version, format_driver_version, vendor_name, vk_string,
};

verus! {

/// A memory heap: its size in bytes and its flags.
#[derive(Debug, Clone, Copy, PartialEq, Eq, Structural)]
pub struct MemoryHeap {
    pub size: u64,
    pub flags: u32,
}

/// What Vulkan tells of a physical device.
#[derive(Debug)]
pub struct DeviceDescription {
    /// The name as a C string in an array of fixed size.
    pub device_name: Vec<u8>,
    pub device_type: i32,
    pub vendor_id: u32,
    pub driver_version: u32,
    pub api_version: u32,
    pub memory_heaps: Vec<MemoryHeap>,
}

/// Information about a discovered GPU.
#[derive(Debug, Clone)]
pub struct GpuInfo {
    pub name: String,
    pub device_type: String,
    pub vendor: String,
    pub vendor_id: u32,
    pub driver_version: String,
    pub api_version: String,
    pub dedicated_vram_mb: Option<u64>,
    pub device_index: usize,
}

/// Information about a GPU, with the texts as character sequences.
pub struct GpuView {
    pub name: Seq<char>,
    pub device_type: Seq<char>,
    pub vendor: Seq<char>,
    pub vendor_id: u32,
    pub driver_version: Seq<char>,
    pub api_version: Seq<char>,
    pub dedicated_vram_mb: Option<u64>,
    pub device_index: usize,
}

impl View for GpuInfo {
    type V = GpuView;

    open spec fn view(&self) -> GpuView {
        GpuView {
            name: self.name@,
            device_type: self.device_type@,
            vendor: self.vendor@,
            vendor_id: self.vendor_id,
            driver_version: self.driver_version@,
            api_version: self.api_version@,
            dedicated_vram_mb: self.dedicated_vram_mb,
            device_index: self.device_index,
        }
    }
}

/// The flag of heaps in the device's own memory.
pub const HEAP_DEVICE_LOCAL: u32 = 0x1;

/// `ash::vk::MemoryHeapFlags::contains`: whether every wanted flag is set.
#[verifier::external_body]
fn heap_flags_contain(flags: u32, wanted: u32) -> (contain: bool)
    ensures
        contain == includes(flags, wanted),
{
    vk::MemoryHeapFlags::from_raw(flags).contains(vk::MemoryHeapFlags::from_raw(wanted))
}

/// Whether a number is the size of the largest heap in the device's own
/// memory; zero where there is none.
pub open spec fn is_largest_local(bytes: u64, heaps: Seq<MemoryHeap>) -> bool {
    &&& forall|i: int|
        0 <= i < heaps.len() && includes((#[trigger] heaps[i]).flags, HEAP_DEVICE_LOCAL)
            ==> heaps[i].size <= bytes
    &&& bytes == 0 || exists|i: int|
        0 <= i < heaps.len() && includes((#[trigger] heaps[i]).flags, HEAP_DEVICE_LOCAL)
            && heaps[i].size == bytes
}

fn largest_local_heap(heaps: &Vec<MemoryHeap>) -> (bytes: u64)
    ensures
        is_largest_local(bytes, heaps@),
{
    let mut bytes: u64 = 0;
    let mut i: usize = 0;
    while i < heaps.len()
        invariant
            i <= heaps.len(),
            forall|j: int|
                0 <= j < i && includes((#[trigger] heaps[j]).flags, HEAP_DEVICE_LOCAL)
                    ==> heaps[j].size <= bytes,
            bytes == 0 || exists|j: int|
                0 <= j < i && includes((#[trigger] heaps[j]).flags, HEAP_DEVICE_LOCAL)
                    && heaps[j].size == bytes,
        decreases heaps.len() - i,
    {
        let heap: MemoryHeap = heaps[i];
        if heap_flags_contain(heap.flags, HEAP_DEVICE_LOCAL) && heap.size > bytes {
            bytes = heap.size;
        }
        i = i + 1;
    }
    bytes
}

/// Whether a number of megabytes is the dedicated memory of a device: the
/// largest heap of its own, in whole megabytes. A device without such a heap
/// has none.
pub open spec fn is_dedicated(mb: Option<u64>, heaps: Seq<MemoryHeap>) -> bool {
    exists|bytes: u64| #[trigger]
        is_largest_local(bytes, heaps) && mb == if bytes > 0 {
            Some((bytes / 1_048_576) as u64)
        } else {
            None
        }
}

/// A device has one amount of dedicated memory.
pub proof fn law_dedicated_memory_is_unique(
    first: Option<u64>,
    second: Option<u64>,
    heaps: Seq<MemoryHeap>,
)
    requires
        is_dedicated(first, heaps),
        is_dedicated(second, heaps),
    ensures
        first == second,
{
    let a = choose|bytes: u64| #[trigger]
        is_largest_local(bytes, heaps) && first == if bytes > 0 {
            Some((bytes / 1_048_576) as u64)
        } else {
            None
        };
    let b = choose|bytes: u64| #[trigger]
        is_largest_local(bytes, heaps) && second == if bytes > 0 {
            Some((bytes / 1_048_576) as u64)
        } else {
            None
        };
    assert(a == b);
}

/// Whether information is that of a described device.
pub open spec fn describes(gpu: GpuView, device: DeviceDescription, index: nat) -> bool {
    &&& gpu.name == lossy_text(
        device.device_name@.take(c_length(device.device_name@) as int),
    )
    &&& valid_utf8(device.device_name@.take(c_length(device.device_name@) as int)) ==> gpu.name
        == decode_utf8(device.device_name@.take(c_length(device.device_name@) as int))
    &&& gpu.device_type == device_type_view(device.device_type)
    &&& gpu.vendor == vendor_name_text(device.vendor_id)
    &&& gpu.vendor_id == device.vendor_id
    &&& gpu.driver_version == driver_version_view(device.vendor_id, device.driver_version)
    &&& gpu.api_version == api_version_view(device.api_version)
    &&& is_dedicated(gpu.dedicated_vram_mb, device.memory_heaps@)
    &&& gpu.device_index == index
}

fn describe(device: &DeviceDescription, device_index: usize) -> (gpu: GpuInfo)
    ensures
        describes(gpu@, *device, device_index as nat),
{
    let bytes: u64 = largest_local_heap(&device.memory_heaps);
    let dedicated_vram_mb: Option<u64> = if bytes > 0 {
        Some(bytes / (1024 * 1024))
    } else {
        None
    };
    assert(is_largest_local(bytes, device.memory_heaps@));
    GpuInfo {
        name: vk_string(&device.device_name),
        device_type: device_type_str(device.device_type).to_string(),
        vendor: vendor_name(device.vendor_id).to_string(),
        vendor_id: device.vendor_id,
        driver_version: format_driver_version(device.vendor_id, device.driver_version),
        api_version: format_api_version(device.api_version),
        dedicated_vram_mb,
        device_index,
    }
}

/// The information about every device, in their order.
pub fn enumerate_gpus(devices: &Vec<DeviceDescription>) -> (gpus: Vec<GpuInfo>)
    ensures
        gpus.len() == devices.len(),
        forall|i: int|
            0 <= i < devices.len() ==> describes((#[trigger] gpus[i])@, devices[i], i as nat),
{
    let mut gpus: Vec<GpuInfo> = Vec::new();
    let mut i: usize = 0;
    while i < devices.len()
        invariant
            i <= devices.len(),
            gpus.len() == i,
            forall|j: int|
                0 <= j < i ==> describes((#[trigger] gpus[j])@, devices[j], j as nat),
        decreases devices.len() - i,
    {
        gpus.push(describe(&devices[i], i));
        i = i + 1;
    }
    gpus
}

} // verus!
