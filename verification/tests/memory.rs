use ash::vk;
use gpubench::memory::{
    download_f32, no_type_message, read_f32_at, read_u32_at, upload_f32, BufferEvent, BufferStep,
    CopyRegion, GpuBuffer, Stage, TransferStep, MEMORY_DEVICE_LOCAL, MEMORY_HOST_COHERENT,
    MEMORY_HOST_VISIBLE, USAGE_STORAGE_BUFFER, USAGE_TRANSFER_DST, USAGE_TRANSFER_SRC,
};
use gpubench::vulkan::VulkanContext;

fn context() -> VulkanContext {
    VulkanContext::new(&vec![2], vec![6, 1]).unwrap()
}

fn created(required: u64, type_bits: u32) -> BufferEvent {
    BufferEvent::Created { required, type_bits }
}

#[test]
fn usages_and_properties_are_those_of_vulkan() {
    assert_eq!(USAGE_TRANSFER_SRC, vk::BufferUsageFlags::TRANSFER_SRC.as_raw());
    assert_eq!(USAGE_TRANSFER_DST, vk::BufferUsageFlags::TRANSFER_DST.as_raw());
    assert_eq!(USAGE_STORAGE_BUFFER, vk::BufferUsageFlags::STORAGE_BUFFER.as_raw());
    assert_eq!(MEMORY_DEVICE_LOCAL, vk::MemoryPropertyFlags::DEVICE_LOCAL.as_raw());
    assert_eq!(MEMORY_HOST_VISIBLE, vk::MemoryPropertyFlags::HOST_VISIBLE.as_raw());
    assert_eq!(MEMORY_HOST_COHERENT, vk::MemoryPropertyFlags::HOST_COHERENT.as_raw());
}

#[test]
fn device_local_buffers_become_ready() {
    let ctx = context();
    let mut buffer = GpuBuffer::device_local(1000, USAGE_STORAGE_BUFFER);
    assert_eq!(buffer.current(), Some(BufferStep::CreateBuffer { size: 1000, usage: 0x23 }));
    buffer.advance(&ctx, created(1024, 0b11));
    assert_eq!(
        buffer.current(),
        Some(BufferStep::AllocateMemory { size: 1024, memory_type: 1 })
    );
    buffer.advance(&ctx, BufferEvent::Done);
    assert_eq!(buffer.current(), Some(BufferStep::BindMemory));
    buffer.advance(&ctx, BufferEvent::Done);
    assert_eq!(buffer.current(), None);
    assert_eq!(buffer.stage, Stage::Ready { memory_type: 1 });
    assert_eq!(buffer.size, 1000);
    assert!(buffer.error.is_none());
    assert_eq!(buffer.destroy(), vec![BufferStep::DestroyBuffer, BufferStep::FreeMemory]);
}

#[test]
fn device_local_buffers_are_hidden_from_the_host() {
    let ctx = VulkanContext::new(&vec![2], vec![0, 7, 3, 9, 1]).unwrap();
    let mut buffer = GpuBuffer::device_local(64, USAGE_STORAGE_BUFFER);
    buffer.advance(&ctx, created(64, 0b11111));
    assert_eq!(buffer.current(), Some(BufferStep::AllocateMemory { size: 64, memory_type: 3 }));
    let mut buffer = GpuBuffer::device_local(64, USAGE_STORAGE_BUFFER);
    buffer.advance(&ctx, created(64, 0b10111));
    assert_eq!(buffer.current(), Some(BufferStep::AllocateMemory { size: 64, memory_type: 4 }));

    let mut buffer = GpuBuffer::device_local(64, USAGE_STORAGE_BUFFER);
    buffer.advance(&ctx, created(64, 0b00111));
    assert_eq!(buffer.current(), Some(BufferStep::DestroyBuffer));
    buffer.advance(&ctx, BufferEvent::Done);
    assert_eq!(buffer.stage, Stage::Failed);
    assert_eq!(
        buffer.error.unwrap(),
        "No suitable memory type for size=64, flags=DEVICE_LOCAL"
    );

    let mut buffer = GpuBuffer::new(64, USAGE_STORAGE_BUFFER, MEMORY_DEVICE_LOCAL);
    buffer.advance(&ctx, created(64, 0b00111));
    assert_eq!(buffer.current(), Some(BufferStep::AllocateMemory { size: 64, memory_type: 1 }));
}

#[test]
fn staging_buffers_lie_in_host_memory() {
    let ctx = context();
    let mut buffer = GpuBuffer::staging(16);
    assert_eq!(buffer.current(), Some(BufferStep::CreateBuffer { size: 16, usage: 3 }));
    buffer.advance(&ctx, created(64, 0b11));
    assert_eq!(buffer.current(), Some(BufferStep::AllocateMemory { size: 64, memory_type: 0 }));
}

#[test]
fn a_failed_creation_leaves_nothing_to_release() {
    let ctx = context();
    let mut buffer = GpuBuffer::staging(16);
    buffer.advance(&ctx, BufferEvent::Failed("A host memory allocation has failed".to_string()));
    assert_eq!(buffer.current(), None);
    assert_eq!(buffer.stage, Stage::Failed);
    assert_eq!(buffer.error.unwrap(), "A host memory allocation has failed");
}

#[test]
fn a_missing_memory_type_destroys_the_buffer() {
    let ctx = context();
    let mut buffer = GpuBuffer::staging(4096);
    buffer.advance(&ctx, created(4096, 0b10));
    assert_eq!(buffer.current(), Some(BufferStep::DestroyBuffer));
    buffer.advance(&ctx, BufferEvent::Done);
    assert_eq!(buffer.stage, Stage::Failed);
    assert_eq!(
        buffer.error.unwrap(),
        "No suitable memory type for size=4096, flags=HOST_VISIBLE | HOST_COHERENT"
    );
    assert_eq!(
        no_type_message(7, "DEVICE_LOCAL"),
        "No suitable memory type for size=7, flags=DEVICE_LOCAL"
    );
}

#[test]
fn a_failed_allocation_destroys_the_buffer() {
    let ctx = context();
    let mut buffer = GpuBuffer::new(8, 0x20, 1);
    buffer.advance(&ctx, created(8, 0b10));
    buffer.advance(&ctx, BufferEvent::Failed("ERROR_OUT_OF_DEVICE_MEMORY".to_string()));
    assert_eq!(buffer.current(), Some(BufferStep::DestroyBuffer));
    buffer.advance(&ctx, BufferEvent::Done);
    assert_eq!(buffer.stage, Stage::Failed);
    assert_eq!(
        buffer.error.unwrap(),
        "Memory allocation failed: ERROR_OUT_OF_DEVICE_MEMORY"
    );
}

#[test]
fn a_failed_binding_releases_memory_and_buffer() {
    let ctx = context();
    let mut buffer = GpuBuffer::new(8, 0x20, 1);
    buffer.advance(&ctx, created(8, 0b10));
    buffer.advance(&ctx, BufferEvent::Done);
    buffer.advance(&ctx, BufferEvent::Failed("ERROR_UNKNOWN".to_string()));
    assert_eq!(buffer.current(), Some(BufferStep::FreeMemory));
    buffer.advance(&ctx, BufferEvent::Done);
    assert_eq!(buffer.current(), Some(BufferStep::DestroyBuffer));
    buffer.advance(&ctx, BufferEvent::Done);
    assert_eq!(buffer.current(), None);
    assert_eq!(buffer.stage, Stage::Failed);
    assert_eq!(buffer.error.unwrap(), "Bind buffer memory failed: ERROR_UNKNOWN");
}

/// Performs a transfer on plain bytes.
fn perform(steps: &[TransferStep], host: &[u8], device: &mut Vec<u8>) -> Vec<u8> {
    let mut staging: Option<Vec<u8>> = None;
    let mut received = Vec::new();
    for step in steps {
        match *step {
            TransferStep::CreateStaging { bytes } => {
                assert!(staging.is_none());
                staging = Some(vec![0xAA; bytes as usize]);
            }
            TransferStep::WriteStaging { bytes } => {
                let n = bytes as usize;
                staging.as_mut().unwrap()[..n].copy_from_slice(&host[..n]);
            }
            TransferStep::CopyToDevice { region } => {
                let (from, to, n) = plain(region);
                device[to..to + n].copy_from_slice(&staging.as_ref().unwrap()[from..from + n]);
            }
            TransferStep::CopyFromDevice { region } => {
                let (from, to, n) = plain(region);
                staging.as_mut().unwrap()[to..to + n].copy_from_slice(&device[from..from + n]);
            }
            TransferStep::ReadStaging { bytes } => {
                received = staging.as_ref().unwrap()[..bytes as usize].to_vec();
            }
            TransferStep::DestroyStaging => {
                assert!(staging.take().is_some());
            }
        }
    }
    assert!(staging.is_none());
    received
}

fn plain(region: CopyRegion) -> (usize, usize, usize) {
    (region.src_offset as usize, region.dst_offset as usize, region.size as usize)
}

#[test]
fn downloads_give_back_uploads() {
    let host: Vec<u8> = (1..=12).collect();
    let mut device = vec![0xEE; 16];
    perform(&upload_f32(3), &host, &mut device);
    assert_eq!(&device[..12], &host[..]);
    assert_eq!(&device[12..], &[0xEE; 4]);
    assert_eq!(perform(&download_f32(3), &[], &mut device), host);
    for n in 1..=3 {
        assert_eq!(perform(&download_f32(n), &[], &mut device), host[..4 * n]);
    }
}

#[test]
fn single_reads_take_four_bytes_at_an_offset() {
    let mut device: Vec<u8> = (0..16).collect();
    assert_eq!(perform(&read_f32_at(8), &[], &mut device), vec![8, 9, 10, 11]);
    assert_eq!(perform(&read_u32_at(0), &[], &mut device), vec![0, 1, 2, 3]);
    assert_eq!(perform(&read_u32_at(12), &[], &mut device), vec![12, 13, 14, 15]);
    assert_eq!(read_f32_at(4), read_u32_at(4));
}
