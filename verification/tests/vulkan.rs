use ash::vk;
use gpubench::gpu_info::{enumerate_gpus, DeviceDescription, MemoryHeap, HEAP_DEVICE_LOCAL};
use gpubench::vulkan::{
    c_bytes, device_type_str, format_api_version, format_driver_version, vendor_name, vk_string,
    ContextError, VulkanContext, QUEUE_COMPUTE,
};

#[test]
fn vendors_have_names() {
    assert_eq!(vendor_name(0x1002), "AMD");
    assert_eq!(vendor_name(0x10DE), "NVIDIA");
    assert_eq!(vendor_name(0x8086), "Intel");
    assert_eq!(vendor_name(0x13B5), "ARM");
    assert_eq!(vendor_name(0x5143), "Qualcomm");
    assert_eq!(vendor_name(0x1010), "ImgTec");
    assert_eq!(vendor_name(0), "Unknown");
    assert_eq!(vendor_name(0x10DF), "Unknown");
}

#[test]
fn nvidia_driver_versions_have_three_parts() {
    let version = (536 << 22) | (23 << 14) | 5;
    assert_eq!(format_driver_version(0x10DE, version), "536.23.5");
    assert_eq!(format_driver_version(0x10DE, u32::MAX), "1023.255.16383");
}

#[test]
fn intel_driver_versions_have_two_parts() {
    let version = (101 << 14) | 4502;
    assert_eq!(format_driver_version(0x8086, version), "101.4502");
    assert_eq!(format_driver_version(0x8086, u32::MAX), "262143.16383");
}

#[test]
fn other_driver_versions_are_vulkan_versions() {
    let version = vk::make_api_version(0, 2, 0, 279);
    assert_eq!(format_driver_version(0x1002, version), "2.0.279");
    assert_eq!(format_driver_version(0, u32::MAX), "127.1023.4095");
}

#[test]
fn api_versions_are_formatted() {
    assert_eq!(format_api_version(vk::API_VERSION_1_2), "1.2.0");
    assert_eq!(format_api_version(vk::make_api_version(0, 1, 3, 281)), "1.3.281");
    assert_eq!(format_api_version(vk::make_api_version(3, 1, 0, 0)), "1.0.0");
}

#[test]
fn device_names_end_at_the_first_zero() {
    let raw = b"GeForce\0\0junk".to_vec();
    assert_eq!(c_bytes(&raw), b"GeForce".to_vec());
    assert_eq!(vk_string(&raw), "GeForce");
    assert_eq!(vk_string(&b"\0abc".to_vec()), "");
    assert_eq!(vk_string(&b"no end".to_vec()), "no end");
    assert_eq!(vk_string(&Vec::new()), "");
}

#[test]
fn device_names_are_utf8() {
    let mut raw = "Thẻ đồ họa".as_bytes().to_vec();
    raw.push(0);
    assert_eq!(vk_string(&raw), "Thẻ đồ họa");
    assert_eq!(vk_string(&vec![b'a', 0xFF, b'b', 0]), "a\u{FFFD}b");
}

#[test]
fn device_types_have_names() {
    let name = |dt: vk::PhysicalDeviceType| device_type_str(dt.as_raw());
    assert_eq!(name(vk::PhysicalDeviceType::DISCRETE_GPU), "Discrete GPU");
    assert_eq!(name(vk::PhysicalDeviceType::INTEGRATED_GPU), "Integrated GPU");
    assert_eq!(name(vk::PhysicalDeviceType::VIRTUAL_GPU), "Virtual GPU");
    assert_eq!(name(vk::PhysicalDeviceType::CPU), "CPU (Software Rendering)");
    assert_eq!(name(vk::PhysicalDeviceType::OTHER), "Unknown");
    assert_eq!(device_type_str(-1), "Unknown");
    assert_eq!(device_type_str(5), "Unknown");
}

#[test]
fn flags_are_those_of_vulkan() {
    assert_eq!(QUEUE_COMPUTE, vk::QueueFlags::COMPUTE.as_raw());
    assert_eq!(HEAP_DEVICE_LOCAL, vk::MemoryHeapFlags::DEVICE_LOCAL.as_raw());
}

#[test]
fn the_first_compute_queue_is_chosen() {
    let graphics = vk::QueueFlags::GRAPHICS.as_raw();
    let transfer = vk::QueueFlags::TRANSFER.as_raw();
    let compute = vk::QueueFlags::COMPUTE.as_raw();
    let context = VulkanContext::new(&vec![graphics, transfer | compute, compute], vec![1, 6]);
    let context = context.unwrap();
    assert_eq!(context.compute_queue_family, 1);
    assert_eq!(context.memory_types, vec![1, 6]);
}

#[test]
fn devices_without_compute_queues_are_refused() {
    let error = VulkanContext::new(&vec![1, 4], vec![1]).unwrap_err();
    assert_eq!(error, ContextError::NoComputeQueue);
    assert_eq!(error.message(), "No compute queue family found");
    assert!(VulkanContext::new(&Vec::new(), Vec::new()).is_err());
}

#[test]
fn the_first_suitable_memory_type_is_found() {
    let context = VulkanContext::new(&vec![2], vec![0, 1, 6, 7, 14]).unwrap();
    assert_eq!(context.find_memory_type(0xFFFF_FFFF, 1), Some(1));
    assert_eq!(context.find_memory_type(0xFFFF_FFFF, 6), Some(2));
    assert_eq!(context.find_memory_type(0b11000, 6), Some(3));
    assert_eq!(context.find_memory_type(0b10000, 6), Some(4));
    assert_eq!(context.find_memory_type(0b00010, 6), None);
    assert_eq!(context.find_memory_type(0, 0), None);
    assert_eq!(context.find_memory_type(1, 0), Some(0));
    assert_eq!(context.find_memory_type(0xFFFF_FFE0, 1), None);
}

#[test]
fn avoided_memory_types_are_passed_over() {
    let context = VulkanContext::new(&vec![2], vec![0, 3, 7, 9, 1]).unwrap();
    assert_eq!(context.find_memory_type_without(0b11111, 1, 2), Some(3));
    assert_eq!(context.find_memory_type_without(0b11111, 1, 2 | 8), Some(4));
    assert_eq!(context.find_memory_type_without(0b00111, 1, 2), None);
    assert_eq!(context.find_memory_type_without(0b11111, 1, 0), Some(1));
    assert_eq!(context.find_memory_type_without(0b11111, 2, 2), None);
}

#[test]
fn all_32_memory_types_are_looked_at() {
    let mut types = vec![0u32; 32];
    types[31] = 1;
    let context = VulkanContext::new(&vec![2], types).unwrap();
    assert_eq!(context.find_memory_type(1 << 31, 1), Some(31));
}

fn described(heaps: Vec<MemoryHeap>) -> DeviceDescription {
    let mut device_name = b"Radeon".to_vec();
    device_name.resize(256, 0);
    DeviceDescription {
        device_name,
        device_type: 2,
        vendor_id: 0x1002,
        driver_version: vk::make_api_version(0, 2, 0, 1),
        api_version: vk::API_VERSION_1_2,
        memory_heaps: heaps,
    }
}

#[test]
fn gpus_are_described_in_order() {
    let mb = 1024 * 1024;
    let devices = vec![
        described(vec![
            MemoryHeap { size: 64 * 1024 * mb, flags: 0 },
            MemoryHeap { size: 256 * mb, flags: 1 },
            MemoryHeap { size: 8176 * mb + 5, flags: 3 },
        ]),
        described(vec![MemoryHeap { size: 512 * mb, flags: 2 }]),
        described(vec![MemoryHeap { size: 1000, flags: 1 }]),
    ];
    let gpus = enumerate_gpus(&devices);
    assert_eq!(gpus.len(), 3);
    assert_eq!(gpus[0].name, "Radeon");
    assert_eq!(gpus[0].device_type, "Discrete GPU");
    assert_eq!(gpus[0].vendor, "AMD");
    assert_eq!(gpus[0].vendor_id, 0x1002);
    assert_eq!(gpus[0].driver_version, "2.0.1");
    assert_eq!(gpus[0].api_version, "1.2.0");
    assert_eq!(gpus[0].dedicated_vram_mb, Some(8176));
    assert_eq!(gpus[0].device_index, 0);
    assert_eq!(gpus[1].dedicated_vram_mb, None);
    assert_eq!(gpus[1].device_index, 1);
    assert_eq!(gpus[2].dedicated_vram_mb, Some(0));
    assert_eq!(gpus[2].device_index, 2);
    assert!(enumerate_gpus(&Vec::new()).is_empty());
}
