use gensokyo::types::{Dimension2D, Dimension3D, Format};
use gensokyo::device::{GsDevice, ImageEvent, ImageLayout, PhysicalLimits};
use gensokyo::image::{
    DepthStencilAttachmentInfo, ImageData, ImageSource, ImageStorageInfo, ImagePipelineStage,
    SampleImageInfo,
};
use gensokyo::image_allocator::{collect_barrier_bundle, GsImageAllocator};
use gensokyo::error::AllocatorError;
use gensokyo::policy::ImageStorageType;

fn test_device() -> GsDevice {
    GsDevice::new(
        PhysicalLimits {
            min_uniform_buffer_offset_alignment: 64,
            buffer_alignment: 16,
            image_alignment: 16,
        },
        vec![0x1, 0x2 | 0x4, 0x2 | 0x8],
        0xffff_ffff,
        0xffff_ffff,
        1 << 20,
    )
}

fn four_by_four_pixels() -> ImageStorageInfo {
    let dimension = Dimension3D { width: 4, height: 4, depth: 1 };
    let bytes: Vec<u8> = (0..64u8).map(|b| b.wrapping_mul(5)).collect();
    ImageStorageInfo {
        source: ImageSource::UploadData(ImageData::new(bytes, 64)),
        dimension,
        format: Format::Rgba8Unorm,
    }
}

#[test]
fn attaching_a_sample_image_records_its_bytes() {
    let mut device = test_device();
    let mut allocator = GsImageAllocator::new(&device, ImageStorageType::Device);
    let info = SampleImageInfo::new(0, 1, ImagePipelineStage::FragmentStage, four_by_four_pixels());
    let index = allocator.attach_sample_image(&mut device, info).unwrap();
    assert_eq!(index.value, 0);
    assert_eq!(allocator.infos.len(), 1);
    assert_eq!(allocator.infos[0].byte_size, 64);
    assert_eq!(device.images[allocator.infos[0].image_id].layout, ImageLayout::Undefined);
}

#[test]
fn barrier_bundles_group_by_recipe() {
    let mut device = test_device();
    let mut allocator = GsImageAllocator::new(&device, ImageStorageType::Device);
    let info = SampleImageInfo::new(0, 1, ImagePipelineStage::FragmentStage, four_by_four_pixels());
    allocator.attach_sample_image(&mut device, info).unwrap();
    allocator
        .attach_depth_stencil_image(
            &mut device,
            DepthStencilAttachmentInfo::new(
                Dimension2D { width: 4, height: 4 },
                Format::D32Sfloat,
            ),
        )
        .unwrap();
    let (samples, depths) = collect_barrier_bundle(&allocator.infos);
    assert_eq!(samples, vec![0]);
    assert_eq!(depths, vec![1]);
}

#[test]
fn image_allocate_uploads_and_transitions() {
    let mut device = test_device();
    let mut allocator = GsImageAllocator::new(&device, ImageStorageType::Device);
    let info = SampleImageInfo::new(2, 1, ImagePipelineStage::FragmentStage, four_by_four_pixels());
    let sample_ix = allocator.attach_sample_image(&mut device, info).unwrap();
    let depth_ix = allocator
        .attach_depth_stencil_image(
            &mut device,
            DepthStencilAttachmentInfo::new(
                Dimension2D { width: 4, height: 4 },
                Format::D32Sfloat,
            ),
        )
        .unwrap();
    let distributor = allocator.allocate(&mut device).unwrap();

    // exactly one staging repository was created and destroyed: the image
    // block is the only allocation that survives.
    assert_eq!(device.memories.len(), 2);
    assert!(device.memories[0].live);
    assert!(!device.memories[1].live);

    // the sampled image went through exactly barrier, copy, barrier and
    // its handle reports the shader-read layout.
    let handle = distributor.acquire_sample_image(sample_ix);
    let events = &device.images[handle.image_id].events;
    assert_eq!(events.len(), 3);
    assert_eq!(
        events[0],
        ImageEvent::Barrier { from: ImageLayout::Undefined, to: ImageLayout::TransferDstOptimal },
    );
    assert_eq!(events[1], ImageEvent::Copy);
    assert_eq!(
        events[2],
        ImageEvent::Barrier {
            from: ImageLayout::TransferDstOptimal,
            to: ImageLayout::ShaderReadOnlyOptimal,
        },
    );
    let binding = handle.binding_info();
    assert_eq!(binding.layout, ImageLayout::ShaderReadOnlyOptimal);
    assert_eq!(binding.content.binding, 2);

    // the pixel bytes landed in the image's region of the block.
    let group = &distributor.group;
    let offset = group.offsets[0];
    let expected: Vec<u8> = (0..64u8).map(|b| b.wrapping_mul(5)).collect();
    assert_eq!(device.memories[group.memory_id].data[offset..offset + 64], expected[..]);

    // the depth attachment went through exactly its one barrier.
    let depth = distributor.acquire_depth_stencil_image(depth_ix);
    let depth_events = &device.images[depth.image_id].events;
    assert_eq!(depth_events.len(), 1);
    assert_eq!(
        depth_events[0],
        ImageEvent::Barrier {
            from: ImageLayout::Undefined,
            to: ImageLayout::DepthStencilAttachmentOptimal,
        },
    );

    // release destroys the images first, then frees the block.
    let repo = distributor.into_repository();
    let calls_before = device.calls.len();
    repo.release(&mut device);
    let tail = &device.calls[calls_before..];
    assert_eq!(tail.len(), 3);
    assert!(matches!(tail[0], gensokyo::device::NativeCall::DestroyImage(_)));
    assert!(matches!(tail[1], gensokyo::device::NativeCall::DestroyImage(_)));
    assert!(matches!(tail[2], gensokyo::device::NativeCall::FreeMemory(_)));
}

#[test]
fn image_allocate_refuses_an_empty_allocator() {
    let mut device = test_device();
    let allocator = GsImageAllocator::new(&device, ImageStorageType::Device);
    match allocator.allocate(&mut device) {
        Err(AllocatorError::NoResourceAttached) => {}
        _ => panic!("expected the configuration error"),
    }
}
