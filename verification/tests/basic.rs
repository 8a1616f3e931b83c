use gensokyo::types::{bound_to_alignment, Dimension3D, Format};
use gensokyo::policy::{BufferStorageType, GsMemoryType};
use gensokyo::device::{GsDevice, PhysicalLimits};
use gensokyo::buffer::{GsBufUniformInfo, GsBufVertexInfo};
use gensokyo::allocator::GsBufferAllocator;
use gensokyo::error::AllocatorError;

fn test_device() -> GsDevice {
    GsDevice::new(
        PhysicalLimits {
            min_uniform_buffer_offset_alignment: 64,
            buffer_alignment: 16,
            image_alignment: 16,
        },
        vec![0x1, 0x2 | 0x4, 0x2 | 0x8],
        0xffff_ffff,
        0xffff_ffff,
        1 << 20,
    )
}

#[test]
fn align_rounds_up_to_multiple() {
    assert_eq!(bound_to_alignment(100, 16), 112);
    assert_eq!(bound_to_alignment(96, 16), 96);
}

#[test]
fn memory_policy_flags() {
    assert_eq!(GsMemoryType::DeviceMemory.property_flags(), 0x1);
    assert_eq!(GsMemoryType::HostMemory.property_flags(), 0x2 | 0x4);
    assert!(GsMemoryType::DeviceMemory.requires_staging());
    assert!(!GsMemoryType::HostMemory.requires_staging());
}

#[test]
fn two_uniform_blocks_get_prefix_sum_offsets() {
    let mut device = test_device();
    let mut allocator = GsBufferAllocator::new(&device, BufferStorageType::Host);
    let a = allocator
        .assign_uniform(&mut device, GsBufUniformInfo::new(0, 1, 64))
        .unwrap();
    let b = allocator
        .assign_uniform(&mut device, GsBufUniformInfo::new(1, 1, 64))
        .unwrap();
    let distributor = allocator.allocate(&mut device).unwrap();
    let ha = distributor.acquire_uniform(a);
    let hb = distributor.acquire_uniform(b);
    assert_eq!(ha.block.memory_offset, 0);
    assert_eq!(hb.block.memory_offset, 64);
    let repo = distributor.into_repository();
    let up = repo.data_uploader(&mut device).unwrap();
    drop(up);
    let _ = repo;
}

#[test]
fn empty_allocator_is_refused() {
    let mut device = test_device();
    let allocator = GsBufferAllocator::new(&device, BufferStorageType::Host);
    match allocator.allocate(&mut device) {
        Err(AllocatorError::NoResourceAttached) => {}
        _ => panic!("expected the configuration error"),
    }
}

#[test]
fn image_byte_size_counts_pixels() {
    let d = Dimension3D { width: 4, height: 4, depth: 1 };
    assert_eq!(Format::Rgba8Unorm.bytes_per_pixel(), 4);
    let _ = d;
}

#[test]
fn fresh_common_uniform_reports_its_size() {
    let info = GsBufUniformInfo::new(0, 1, 64);
    assert_eq!(info.estimate_size(), 64);
    let two = GsBufUniformInfo::new(1, 2, 64);
    assert_eq!(two.estimate_size(), 128);
}

#[test]
fn vertex_info_keeps_its_size() {
    let info = GsBufVertexInfo::new(256);
    assert_eq!(info.estimate_size, 256);
}

#[test]
fn device_upload_leaves_no_staging_alive() {
    let mut device = test_device();
    let mut allocator = GsBufferAllocator::new(&device, BufferStorageType::Device);
    let index = allocator
        .assign_vertex(&mut device, GsBufVertexInfo::new(64))
        .unwrap();
    let distributor = allocator.allocate(&mut device).unwrap();
    let handle = distributor.acquire_vertex(index);
    let repo = distributor.into_repository();
    let mut uploader = repo.data_uploader(&mut device).unwrap();
    let pattern: Vec<u8> = (0..64u8).collect();
    uploader.upload(&repo, &mut device, handle.repository_index, &pattern);
    uploader.finish(&repo, &mut device);
    // the staging block came and went: it exists but is no longer live.
    assert_eq!(device.memories.len(), 2);
    assert!(device.memories[0].live);
    assert!(!device.memories[1].live);
}

#[test]
fn release_destroys_buffers_before_freeing_memory() {
    let mut device = test_device();
    let mut allocator = GsBufferAllocator::new(&device, BufferStorageType::Host);
    allocator
        .assign_uniform(&mut device, GsBufUniformInfo::new(0, 1, 64))
        .unwrap();
    allocator
        .assign_uniform(&mut device, GsBufUniformInfo::new(1, 1, 64))
        .unwrap();
    let repo = allocator.allocate(&mut device).unwrap().into_repository();
    let calls_before = device.calls.len();
    repo.release(&mut device);
    let tail = &device.calls[calls_before..];
    assert_eq!(tail.len(), 3);
    assert!(matches!(tail[0], gensokyo::device::NativeCall::DestroyBuffer(_)));
    assert!(matches!(tail[1], gensokyo::device::NativeCall::DestroyBuffer(_)));
    assert!(matches!(tail[2], gensokyo::device::NativeCall::FreeMemory(_)));
}

#[test]
fn host_write_reads_back_unchanged() {
    let mut device = test_device();
    let mut allocator = GsBufferAllocator::new(&device, BufferStorageType::Host);
    let index = allocator
        .assign_uniform(&mut device, GsBufUniformInfo::new(0, 1, 64))
        .unwrap();
    let distributor = allocator.allocate(&mut device).unwrap();
    let handle = distributor.acquire_uniform(index);
    let repo = distributor.into_repository();
    let mut uploader = repo.data_uploader(&mut device).unwrap();
    let pattern: Vec<u8> = (0..64u8).map(|b| b.wrapping_mul(3)).collect();
    uploader.upload(&repo, &mut device, handle.repository_index, &pattern);
    uploader.finish(&repo, &mut device);
    let read = repo.read_back(&device, handle.repository_index);
    assert_eq!(read, pattern);
}

#[test]
fn zero_count_uniform_estimates_zero() {
    let info = GsBufUniformInfo::new(0, 0, 64);
    assert_eq!(info.estimate_size(), 0);
}
