use vstd::prelude::*;
use crate::types::vkuint;
use crate::device::{GsDevice, NativeCall};
use crate::error::AllocatorError;

verus! {

/// The kinds of buffer-backed descriptors the binder accepts.
#[derive(Debug, Clone, Copy, PartialEq, Eq, Structural)]
pub enum BufferDescriptorType {
    UniformBuffer,
    DynamicUniformBuffer,
}

/// The kinds of image-backed descriptors the binder accepts.
#[derive(Debug, Clone, Copy, PartialEq, Eq, Structural)]
pub enum ImageDescriptorType {
    CombinedImageSampler,
}

/// What a descriptor binds: a buffer or an image.
#[derive(Debug, Clone, Copy, PartialEq, Eq, Structural)]
pub enum GsDescriptorType {
    Buffer(BufferDescriptorType),
    Image(ImageDescriptorType),
}

/// The binding slot, descriptor count and descriptor type a resource
/// declares for descriptor-set use.
#[derive(Debug, Clone, Copy, PartialEq, Eq, Structural)]
pub struct DescriptorBindingContent {
    pub binding: vkuint,
    pub count: vkuint,
    pub descriptor_type: GsDescriptorType,
}

/// The shader stages a binding is visible to, as a bitmask.
#[derive(Debug, Clone, Copy, PartialEq, Eq, Structural)]
pub struct GsDescBindingStage {
    pub bits: vkuint,
}

/// Stage bit for the vertex shader.
pub const SHADER_STAGE_VERTEX: vkuint = 0x1;
/// Stage bit for the fragment shader.
pub const SHADER_STAGE_FRAGMENT: vkuint = 0x10;

impl GsDescBindingStage {
    pub fn vertex() -> (r: GsDescBindingStage)
        ensures
            r.bits == SHADER_STAGE_VERTEX,
    {
        GsDescBindingStage { bits: SHADER_STAGE_VERTEX }
    }

    pub fn fragment() -> (r: GsDescBindingStage)
        ensures
            r.bits == SHADER_STAGE_FRAGMENT,
    {
        GsDescBindingStage { bits: SHADER_STAGE_FRAGMENT }
    }
}


/// One descriptor set's worth of binding requests: the binding contents
/// in append order, each with the stages it is visible to.
pub struct DescriptorSetConfig {
    pub bindings: Vec<DescriptorBindingContent>,
    pub stage_flags: Vec<vkuint>,
}

impl DescriptorSetConfig {
    pub open spec fn wf(self) -> bool {
        self.bindings@.len() == self.stage_flags@.len()
    }

    pub fn init() -> (r: DescriptorSetConfig)
        ensures
            r.wf(),
            r.bindings@.len() == 0,
    {
        DescriptorSetConfig { bindings: Vec::new(), stage_flags: Vec::new() }
    }

    /// Append one buffer-backed binding request.
    pub fn add_buffer_binding(&mut self, content: DescriptorBindingContent, stage: GsDescBindingStage)
        requires
            old(self).wf(),
        ensures
            final(self).wf(),
            final(self).bindings@ == old(self).bindings@.push(content),
            final(self).stage_flags@ == old(self).stage_flags@.push(stage.bits),
    {
        self.bindings.push(content);
        self.stage_flags.push(stage.bits);
    }

    /// Append one image-backed binding request.
    pub fn add_image_binding(&mut self, content: DescriptorBindingContent, stage: GsDescBindingStage)
        requires
            old(self).wf(),
        ensures
            final(self).wf(),
            final(self).bindings@ == old(self).bindings@.push(content),
            final(self).stage_flags@ == old(self).stage_flags@.push(stage.bits),
    {
        self.bindings.push(content);
        self.stage_flags.push(stage.bits);
    }
}

/// One allocated descriptor set: the native set object and the `set`
/// value shader code addresses it by.
pub struct DescriptorSet {
    pub handle: usize,
    pub set_index: usize,
}

impl DescriptorSet {
    /// The `set` value used in shader code for this set.
    pub fn set_index(&self) -> (r: usize)
        ensures
            r == self.set_index,
    {
        self.set_index
    }
}

/// Gathers descriptor-set configurations and, in one `allocate` call,
/// creates one pool sized to them and one set per configuration, in
/// append order. `allocate` consumes the allocator: it runs at most once
/// per instance.
pub struct GsDescriptorAllocator {
    pub configs: Vec<DescriptorSetConfig>,
}

impl GsDescriptorAllocator {
    pub fn new() -> (r: GsDescriptorAllocator)
        ensures
            r.configs@.len() == 0,
    {
        GsDescriptorAllocator { configs: Vec::new() }
    }

    /// Append one set configuration; the token is its position.
    pub fn attach_descriptor_set(&mut self, config: DescriptorSetConfig) -> (r: usize)
        ensures
            r == old(self).configs@.len(),
            final(self).configs@.len() == old(self).configs@.len() + 1,
    {
        let index = self.configs.len();
        self.configs.push(config);
        index
    }

    /// Create one pool with room for every configuration and allocate one
    /// set per configuration, in append order. Fails with
    /// `NoResourceAttached` exactly when no configuration was appended.
    pub fn allocate(self, device: &mut GsDevice) -> (r: Result<
        GsDescriptorRepository,
        AllocatorError,
    >)
        requires
            old(device).wf(),
            self.configs@.len() <= vkuint::MAX,
        ensures
            final(device).wf(),
            final(device).same_config(*old(device)),
            final(device).buffers@ == old(device).buffers@,
            final(device).images@ == old(device).images@,
            final(device).memories@ == old(device).memories@,
            final(device).recording == old(device).recording,
            final(device).spec_live_memory_ids() == old(device).spec_live_memory_ids(),
            r is Ok <==> self.configs@.len() > 0,
            r is Err ==> r == Result::<GsDescriptorRepository, AllocatorError>::Err(
                AllocatorError::NoResourceAttached,
            ) && *final(device) == *old(device),
            r matches Ok(repo) ==> {
                &&& repo.wf(*final(device))
                &&& repo.pool == old(device).pools@.len()
                &&& repo.sets@.len() == self.configs@.len()
                &&& forall|i: int|
                    0 <= i < repo.sets@.len() ==> (#[trigger] repo.sets@[i]).set_index == i
                &&& forall|i: int|
                    0 <= i < repo.sets@.len() ==> (#[trigger] repo.sets@[i]).handle == old(
                        device,
                    ).sets@.len() + i
                &&& final(device).sets@.len() == old(device).sets@.len() + self.configs@.len()
            },
    {
        if self.configs.len() == 0 {
            return Err(AllocatorError::NoResourceAttached);
        }
        let n = self.configs.len();
        let pool = match device.create_descriptor_pool(n as vkuint) {
            Ok(p) => p,
            Err(e) => {
                proof {
                    assert(false);
                }
                return Err(e);
            },
        };
        let ghost base = *device;
        let mut sets: Vec<DescriptorSet> = Vec::new();
        let mut k: usize = 0;
        while k < n
            invariant
                k <= n,
                device.wf(),
                device.same_config(base),
                device.buffers@ == base.buffers@,
                device.images@ == base.images@,
                device.memories@ == base.memories@,
                device.pools@ == base.pools@,
                device.recording == base.recording,
                device.calls@ == base.calls@,
                device.spec_live_memory_ids() == base.spec_live_memory_ids(),
                pool < device.pools@.len(),
                device.pools@[pool as int].live,
                sets@.len() == k,
                device.sets@.len() == base.sets@.len() + k,
                forall|i: int| 0 <= i < k ==> (#[trigger] sets@[i]).set_index == i,
                forall|i: int|
                    0 <= i < k ==> (#[trigger] sets@[i]).handle == base.sets@.len() + i,
            decreases n - k,
        {
            let handle = device.allocate_descriptor_set(pool);
            sets.push(DescriptorSet { handle, set_index: k });
            k = k + 1;
        }
        Ok(GsDescriptorRepository { pool, sets })
    }
}

/// Owns the descriptor pool and the sets allocated from it until it is
/// released; the sets die with the pool.
pub struct GsDescriptorRepository {
    pub pool: usize,
    pub sets: Vec<DescriptorSet>,
}

impl GsDescriptorRepository {
    pub open spec fn wf(self, d: GsDevice) -> bool {
        &&& self.pool < d.pools@.len()
        &&& d.pools@[self.pool as int].live
    }

    /// Destroy the pool; every set allocated from it dies with it.
    pub fn release(self, device: &mut GsDevice)
        requires
            old(device).wf(),
            self.wf(*old(device)),
        ensures
            final(device).wf(),
            final(device).same_config(*old(device)),
            final(device).buffers@ == old(device).buffers@,
            final(device).images@ == old(device).images@,
            final(device).memories@ == old(device).memories@,
            final(device).sets@ == old(device).sets@,
            final(device).recording == old(device).recording,
            !final(device).pools@[self.pool as int].live,
            final(device).calls@ == old(device).calls@.push(
                NativeCall::DestroyDescriptorPool(self.pool),
            ),
    {
        device.destroy_descriptor_pool(self.pool);
    }
}

} // verus!
