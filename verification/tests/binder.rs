use gensokyo::descriptor::{
    BufferDescriptorType, DescriptorBindingContent, DescriptorSetConfig, GsDescBindingStage,
    GsDescriptorAllocator, GsDescriptorType,
};
use gensokyo::device::{GsDevice, NativeCall, PhysicalLimits};
use gensokyo::error::AllocatorError;

fn test_device() -> GsDevice {
    GsDevice::new(
        PhysicalLimits {
            min_uniform_buffer_offset_alignment: 64,
            buffer_alignment: 16,
            image_alignment: 16,
        },
        vec![0x1, 0x2 | 0x4],
        0xffff_ffff,
        0xffff_ffff,
        1 << 20,
    )
}

#[test]
fn binder_allocates_one_set_per_config_in_order() {
    let mut device = test_device();
    let mut allocator = GsDescriptorAllocator::new();
    let mut config = DescriptorSetConfig::init();
    config.add_buffer_binding(
        DescriptorBindingContent {
            binding: 0,
            count: 1,
            descriptor_type: GsDescriptorType::Buffer(BufferDescriptorType::UniformBuffer),
        },
        GsDescBindingStage::vertex(),
    );
    allocator.attach_descriptor_set(config);
    allocator.attach_descriptor_set(DescriptorSetConfig::init());
    let repo = allocator.allocate(&mut device).unwrap();
    assert_eq!(repo.sets.len(), 2);
    assert_eq!(repo.sets[0].set_index(), 0);
    assert_eq!(repo.sets[1].set_index(), 1);
    let pool = repo.pool;
    repo.release(&mut device);
    assert!(!device.pools[pool].live);
    assert_eq!(*device.calls.last().unwrap(), NativeCall::DestroyDescriptorPool(pool));
}

#[test]
fn binder_refuses_an_empty_allocation() {
    let mut device = test_device();
    let allocator = GsDescriptorAllocator::new();
    match allocator.allocate(&mut device) {
        Err(AllocatorError::NoResourceAttached) => {}
        _ => panic!("expected the configuration error"),
    }
}
