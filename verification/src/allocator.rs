use vstd::prelude::*;
use crate::types::{vkbytes, vkuint, spec_align_up, bound_to_alignment, lemma_align_up};
use crate::device::{BufferObj, GsDevice, NativeCall};
use crate::error::{AllocatorError, ObjectKind};
use crate::memory::{
    lemma_spaces_sum_monotone, lemma_spaces_sum_nonnegative, spaces_to_offsets, spec_spaces_sum,
    MemorySelector,
};
use crate::policy::{
    spec_contains_flags, BufferStorageType, GsMemoryType, BUFFER_USAGE_INDEX_BUFFER,
    BUFFER_USAGE_TRANSFER_SRC, BUFFER_USAGE_UNIFORM_BUFFER, BUFFER_USAGE_VERTEX_BUFFER,
};
use crate::buffer::{
    BufferBlockIndex, BufferDescriptor, BufferKind, GsBufImgsrcInfo, GsBufIndexInfo,
    GsBufUniformInfo, GsBufVertexInfo, IUniform, UniformUsage,
};

verus! {

/// The bookkeeping a successful buffer allocation produces: the storage
/// class, the one memory block, and per resource its native buffer, its
/// aligned size, its offset in the block, and its descriptor.
pub struct BufferGroup {
    pub storage_type: BufferStorageType,
    pub memory_id: usize,
    pub buffer_ids: Vec<usize>,
    pub spaces: Vec<vkbytes>,
    pub offsets: Vec<vkbytes>,
    pub descriptors: Vec<BufferDescriptor>,
}

impl BufferGroup {
    /// How many resources share the memory block.
    pub open spec fn n(self) -> int {
        self.buffer_ids@.len() as int
    }

    /// The group's resources are exactly the live buffers bound into its
    /// memory block, at prefix-sum offsets, with their class-completed
    /// usage flags; no live image intrudes on the block.
    pub open spec fn wf(self, d: GsDevice) -> bool {
        &&& self.spaces@.len() == self.n()
        &&& self.offsets@.len() == self.n()
        &&& self.descriptors@.len() == self.n()
        &&& 1 <= self.n()
        &&& self.memory_id < d.memories@.len()
        &&& d.memories@[self.memory_id as int].live
        &&& d.memories@[self.memory_id as int].size == spec_spaces_sum(self.spaces@, self.n())
        &&& spec_contains_flags(
            d.memories@[self.memory_id as int].property_flags,
            self.storage_type.memory_type().spec_property_flags(),
        )
        &&& forall|i: int|
            0 <= i < self.n() ==> #[trigger] self.offsets@[i] == spec_spaces_sum(self.spaces@, i)
        &&& forall|i: int| 0 <= i < self.n() ==> 1 <= #[trigger] self.spaces@[i]
        &&& forall|i: int, j: int|
            0 <= i < j < self.n() ==> #[trigger] self.buffer_ids@[i] != #[trigger] self.buffer_ids@[j]
        &&& forall|i: int|
            0 <= i < self.n() ==> (#[trigger] self.buffer_ids@[i]) < d.buffers@.len()
        &&& forall|i: int|
            0 <= i < self.n() ==> {
                let b = d.buffers@[(#[trigger] self.buffer_ids@[i]) as int];
                &&& b.live
                &&& b.bound == Some((self.memory_id, self.offsets@[i]))
                &&& b.size == self.descriptors@[i].size
                &&& b.size <= self.spaces@[i]
                &&& self.spaces@[i] == spec_align_up(b.size as int, d.limits.buffer_alignment as int)
                &&& b.usage == self.storage_type.memory_type().spec_complement_usage(
                    self.descriptors@[i].usage,
                )
            }
        &&& forall|i: int|
            0 <= i < self.n() ==> ((#[trigger] self.descriptors@[i]).kind == BufferKind::Uniform
                <==> self.descriptors@[i].uniform is Some)
        &&& forall|b: int|
            0 <= b < d.buffers@.len() && (#[trigger] d.buffers@[b]).live && (d.buffers@[b].bound
                matches Some((m, _)) && m == self.memory_id) ==> exists|i: int|
                0 <= i < self.n() && self.buffer_ids@[i] == b
        &&& forall|im: int|
            0 <= im < d.images@.len() && (#[trigger] d.images@[im]).live ==> !(
            d.images@[im].bound matches Some((m, _)) && m == self.memory_id)
    }
}

/// Gathers buffer descriptors for one storage class, creating the native
/// object for each to learn its true memory demands, and in one `allocate`
/// call lays them all out in a single fresh memory block.
///
/// `allocate` takes the allocator by value: once it has run, successfully
/// or not, the instance is consumed and no second allocation can be asked
/// of it.
pub struct GsBufferAllocator {
    pub storage_type: BufferStorageType,
    pub buffer_ids: Vec<usize>,
    pub spaces: Vec<vkbytes>,
    pub descriptors: Vec<BufferDescriptor>,
    pub selector: MemorySelector,
}

impl GsBufferAllocator {
    pub open spec fn n(self) -> int {
        self.buffer_ids@.len() as int
    }

    pub open spec fn wf(self, d: GsDevice) -> bool {
        &&& self.spaces@.len() == self.n()
        &&& self.descriptors@.len() == self.n()
        &&& self.selector.wf()
        &&& self.selector.memory_types@ == d.memory_types@
        &&& self.selector.require_flags == self.storage_type.memory_type().spec_property_flags()
        &&& spec_spaces_sum(self.spaces@, self.n()) <= vkbytes::MAX
        &&& forall|i: int| 0 <= i < self.n() ==> 1 <= #[trigger] self.spaces@[i]
        &&& forall|i: int, j: int|
            0 <= i < j < self.n() ==> #[trigger] self.buffer_ids@[i] != #[trigger] self.buffer_ids@[j]
        &&& forall|i: int|
            0 <= i < self.n() ==> (#[trigger] self.buffer_ids@[i]) < d.buffers@.len()
        &&& forall|i: int|
            0 <= i < self.n() ==> {
                let b = d.buffers@[(#[trigger] self.buffer_ids@[i]) as int];
                &&& b.live
                &&& b.bound is None
                &&& b.size == self.descriptors@[i].size
                &&& b.size <= self.spaces@[i]
                &&& self.spaces@[i] == spec_align_up(b.size as int, d.limits.buffer_alignment as int)
                &&& b.usage == self.storage_type.memory_type().spec_complement_usage(
                    self.descriptors@[i].usage,
                )
            }
        &&& forall|i: int|
            0 <= i < self.n() ==> ((#[trigger] self.descriptors@[i]).kind == BufferKind::Uniform
                <==> self.descriptors@[i].uniform is Some)
    }

    /// A fresh allocator fixed to one storage class.
    pub fn new(device: &GsDevice, storage_type: BufferStorageType) -> (r: GsBufferAllocator)
        requires
            device.wf(),
        ensures
            r.wf(*device),
            r.storage_type == storage_type,
            r.n() == 0,
            r.selector.candidate_bits == 0xffff_ffffu32,
    {
        GsBufferAllocator {
            storage_type,
            buffer_ids: Vec::new(),
            spaces: Vec::new(),
            descriptors: Vec::new(),
            selector: MemorySelector::init(
                device,
                storage_type.memory_type().property_flags(),
            ),
        }
    }

    /// What `assign` leaves unchanged on the device.
    pub open spec fn assign_frame(d0: GsDevice, d1: GsDevice) -> bool {
        &&& d1.wf()
        &&& d1.same_config(d0)
        &&& d1.images@ == d0.images@
        &&& d1.memories@ == d0.memories@
        &&& d1.pools@ == d0.pools@
        &&& d1.sets@ == d0.sets@
        &&& d1.recording == d0.recording
    }

    /// Append one descriptor of `kind` with estimated size `size` and the
    /// class-completed usage `usage`.
    fn assign_descriptor(
        &mut self,
        device: &mut GsDevice,
        descriptor: BufferDescriptor,
    ) -> (r: Result<BufferBlockIndex, AllocatorError>)
        requires
            old(self).wf(*old(device)),
            old(device).wf(),
            !old(device).recording,
            spec_spaces_sum(old(self).spaces@, old(self).n()) + spec_align_up(
                descriptor.size as int,
                old(device).limits.buffer_alignment as int,
            ) <= vkbytes::MAX,
            descriptor.size + old(device).limits.buffer_alignment - 1 <= vkbytes::MAX,
            descriptor.kind == BufferKind::Uniform <==> descriptor.uniform is Some,
        ensures
            final(self).wf(*final(device)),
            final(self).storage_type == old(self).storage_type,
            Self::assign_frame(*old(device), *final(device)),
            forall|b: int|
                0 <= b < old(device).buffers@.len() ==> (#[trigger] final(device).buffers@[b])
                    == old(device).buffers@[b],
            old(device).buffers@.len() <= final(device).buffers@.len() <= old(device).buffers@.len() + 1,
            descriptor.size > 0 ==> (r is Ok <==> old(self).selector.spec_would_accept(
                old(device).buffer_type_bits,
            )),
            r is Err ==> {
                &&& final(self).n() == old(self).n()
                &&& final(self).buffer_ids@ == old(self).buffer_ids@
                &&& final(self).spaces@ == old(self).spaces@
                &&& final(self).descriptors@ == old(self).descriptors@
                &&& final(device).spec_live_memory_ids() == old(device).spec_live_memory_ids()
                &&& forall|b: int|
                    old(device).buffers@.len() <= b < final(device).buffers@.len() ==> !(
                    #[trigger] final(device).buffers@[b]).live
            },
            descriptor.size == 0 ==> r == Result::<BufferBlockIndex, AllocatorError>::Err(
                AllocatorError::NativeCreation(ObjectKind::Buffer),
            ) && final(device).buffers@ == old(device).buffers@,
            r is Err ==> final(self).selector.candidate_bits == old(self).selector.candidate_bits,
            r matches Ok(ix) ==> {
                &&& final(self).selector.candidate_bits == (old(self).selector.candidate_bits
                    & old(device).buffer_type_bits)
                &&& final(self).selector.spec_has_suitable()
                &&& descriptor.size > 0
                &&& ix.value == old(self).n()
                &&& final(self).n() == old(self).n() + 1
                &&& final(self).buffer_ids@.len() == old(self).n() + 1
                &&& (forall|j: int|
                    0 <= j < old(self).n() ==> final(self).buffer_ids@[j] == old(self).buffer_ids@[j])
                &&& final(self).buffer_ids@[old(self).n()] == old(device).buffers@.len()
                &&& final(self).spaces@ == old(self).spaces@.push(
                    spec_align_up(
                        descriptor.size as int,
                        old(device).limits.buffer_alignment as int,
                    ) as vkbytes,
                )
                &&& final(self).descriptors@ == old(self).descriptors@.push(descriptor)
                &&& final(device).buffers@.len() == old(device).buffers@.len() + 1
                &&& final(device).buffers@[old(device).buffers@.len() as int].live
                &&& final(device).buffers@[old(device).buffers@.len() as int].bound is None
                &&& final(device).spec_live_memory_ids() == old(device).spec_live_memory_ids()
            },
    {
        let usage = self.storage_type.memory_type().complement_usage(descriptor.usage);
        let id = match device.create_buffer(descriptor.size, usage) {
            Ok(id) => id,
            Err(e) => {
                return Err(e);
            },
        };
        let req = device.buffer_requirements(id);
        match self.selector.try_types(req.memory_type_bits) {
            Ok(_) => {},
            Err(e) => {
                device.destroy_buffer(id);
                return Err(e);
            },
        }
        let space = bound_to_alignment(req.size, req.alignment);
        let index = BufferBlockIndex { value: self.buffer_ids.len() };
        self.buffer_ids.push(id);
        self.spaces.push(space);
        self.descriptors.push(descriptor);
        proof {
            let n0 = old(self).buffer_ids@.len() as int;
            crate::memory::lemma_spaces_sum_push(old(self).spaces@, space, n0);
            assert(spec_spaces_sum(self.spaces@, n0 + 1) == spec_spaces_sum(old(self).spaces@, n0)
                + space);
            assert forall|i: int| 0 <= i < n0 + 1 implies {
                let b = device.buffers@[(#[trigger] self.buffer_ids@[i]) as int];
                &&& b.live
                &&& b.bound is None
            } by {
                if i < n0 {
                    assert(self.buffer_ids@[i] == old(self).buffer_ids@[i]);
                    assert(old(self).descriptors@[i] == old(self).descriptors@[i]);
                    assert(old(self).buffer_ids@[i] < old(device).buffers@.len());
                    assert(old(device).buffers@[old(self).buffer_ids@[i] as int].live);
                } else {
                    assert(self.buffer_ids@[i] == id);
                }
            };
        }
        Ok(index)
    }

    /// Append a vertex buffer descriptor.
    pub fn assign_vertex(&mut self, device: &mut GsDevice, info: GsBufVertexInfo) -> (r: Result<
        BufferBlockIndex,
        AllocatorError,
    >)
        requires
            old(self).wf(*old(device)),
            old(device).wf(),
            !old(device).recording,
            spec_spaces_sum(old(self).spaces@, old(self).n()) + spec_align_up(
                info.estimate_size as int,
                old(device).limits.buffer_alignment as int,
            ) <= vkbytes::MAX,
            info.estimate_size + old(device).limits.buffer_alignment - 1 <= vkbytes::MAX,
        ensures
            final(self).wf(*final(device)),
            final(self).storage_type == old(self).storage_type,
            Self::assign_frame(*old(device), *final(device)),
            final(device).spec_live_memory_ids() == old(device).spec_live_memory_ids(),
            forall|b: int|
                0 <= b < old(device).buffers@.len() ==> (#[trigger] final(device).buffers@[b])
                    == old(device).buffers@[b],
            final(device).buffers@.len() <= old(device).buffers@.len() + 1,
            final(device).buffers@.len() >= old(device).buffers@.len(),
            r matches Ok(ix2) ==> final(device).buffers@.len() == old(device).buffers@.len() + 1
                && final(self).buffer_ids@.len() == old(self).n() + 1 && (forall|j: int|
                0 <= j < old(self).n() ==> final(self).buffer_ids@[j] == old(self).buffer_ids@[j])
                && final(self).buffer_ids@[old(self).n()] == old(device).buffers@.len() && final(device).buffers@[old(device).buffers@.len() as int].bound is None && final(self).spaces@
                == old(self).spaces@.push(
                spec_align_up(
                    final(self).descriptors@[old(self).n()].size as int,
                    old(device).limits.buffer_alignment as int,
                ) as vkbytes,
            ),
            info.estimate_size == 0 ==> r == Result::<BufferBlockIndex, AllocatorError>::Err(
                AllocatorError::NativeCreation(ObjectKind::Buffer),
            ),
            info.estimate_size > 0 ==> (r is Ok <==> old(self).selector.spec_would_accept(
                old(device).buffer_type_bits,
            )),
            r is Err ==> final(self).n() == old(self).n() && final(self).selector.candidate_bits == old(self).selector.candidate_bits && (forall|b: int|
                old(device).buffers@.len() <= b < final(device).buffers@.len() ==> !(
                #[trigger] final(device).buffers@[b]).live),
            r matches Ok(ix) ==> {
                &&& final(self).selector.candidate_bits == (old(self).selector.candidate_bits
                    & old(device).buffer_type_bits)
                &&& final(self).selector.spec_has_suitable()
                &&& ix.value == old(self).n()
                &&& final(self).n() == old(self).n() + 1
                &&& final(self).descriptors@ == old(self).descriptors@.push(
                    (BufferDescriptor {
                        kind: BufferKind::Vertex,
                        size: info.estimate_size,
                        usage: BUFFER_USAGE_VERTEX_BUFFER,
                        uniform: None,
                    }),
                )
            },
    {
        self.assign_descriptor(
            device,
            BufferDescriptor {
                kind: BufferKind::Vertex,
                size: info.estimate_size,
                usage: BUFFER_USAGE_VERTEX_BUFFER,
                uniform: None,
            },
        )
    }

    /// Append an index buffer descriptor.
    pub fn assign_index(&mut self, device: &mut GsDevice, info: GsBufIndexInfo) -> (r: Result<
        BufferBlockIndex,
        AllocatorError,
    >)
        requires
            old(self).wf(*old(device)),
            old(device).wf(),
            !old(device).recording,
            spec_spaces_sum(old(self).spaces@, old(self).n()) + spec_align_up(
                info.estimate_size as int,
                old(device).limits.buffer_alignment as int,
            ) <= vkbytes::MAX,
            info.estimate_size + old(device).limits.buffer_alignment - 1 <= vkbytes::MAX,
        ensures
            final(self).wf(*final(device)),
            final(self).storage_type == old(self).storage_type,
            Self::assign_frame(*old(device), *final(device)),
            final(device).spec_live_memory_ids() == old(device).spec_live_memory_ids(),
            forall|b: int|
                0 <= b < old(device).buffers@.len() ==> (#[trigger] final(device).buffers@[b])
                    == old(device).buffers@[b],
            final(device).buffers@.len() <= old(device).buffers@.len() + 1,
            final(device).buffers@.len() >= old(device).buffers@.len(),
            r matches Ok(ix2) ==> final(device).buffers@.len() == old(device).buffers@.len() + 1
                && final(self).buffer_ids@.len() == old(self).n() + 1 && (forall|j: int|
                0 <= j < old(self).n() ==> final(self).buffer_ids@[j] == old(self).buffer_ids@[j])
                && final(self).buffer_ids@[old(self).n()] == old(device).buffers@.len() && final(device).buffers@[old(device).buffers@.len() as int].bound is None && final(self).spaces@
                == old(self).spaces@.push(
                spec_align_up(
                    final(self).descriptors@[old(self).n()].size as int,
                    old(device).limits.buffer_alignment as int,
                ) as vkbytes,
            ),
            info.estimate_size == 0 ==> r == Result::<BufferBlockIndex, AllocatorError>::Err(
                AllocatorError::NativeCreation(ObjectKind::Buffer),
            ),
            info.estimate_size > 0 ==> (r is Ok <==> old(self).selector.spec_would_accept(
                old(device).buffer_type_bits,
            )),
            r is Err ==> final(self).n() == old(self).n() && final(self).selector.candidate_bits == old(self).selector.candidate_bits && (forall|b: int|
                old(device).buffers@.len() <= b < final(device).buffers@.len() ==> !(
                #[trigger] final(device).buffers@[b]).live),
            r matches Ok(ix) ==> {
                &&& final(self).selector.candidate_bits == (old(self).selector.candidate_bits
                    & old(device).buffer_type_bits)
                &&& final(self).selector.spec_has_suitable()
                &&& ix.value == old(self).n()
                &&& final(self).n() == old(self).n() + 1
                &&& final(self).descriptors@ == old(self).descriptors@.push(
                    (BufferDescriptor {
                        kind: BufferKind::Index,
                        size: info.estimate_size,
                        usage: BUFFER_USAGE_INDEX_BUFFER,
                        uniform: None,
                    }),
                )
            },
    {
        self.assign_descriptor(
            device,
            BufferDescriptor {
                kind: BufferKind::Index,
                size: info.estimate_size,
                usage: BUFFER_USAGE_INDEX_BUFFER,
                uniform: None,
            },
        )
    }

    /// Append an image-source staging block descriptor.
    pub fn assign_imgsrc(&mut self, device: &mut GsDevice, info: GsBufImgsrcInfo) -> (r: Result<
        BufferBlockIndex,
        AllocatorError,
    >)
        requires
            old(self).wf(*old(device)),
            old(device).wf(),
            !old(device).recording,
            spec_spaces_sum(old(self).spaces@, old(self).n()) + spec_align_up(
                info.estimate_size as int,
                old(device).limits.buffer_alignment as int,
            ) <= vkbytes::MAX,
            info.estimate_size + old(device).limits.buffer_alignment - 1 <= vkbytes::MAX,
        ensures
            final(self).wf(*final(device)),
            final(self).storage_type == old(self).storage_type,
            Self::assign_frame(*old(device), *final(device)),
            final(device).spec_live_memory_ids() == old(device).spec_live_memory_ids(),
            forall|b: int|
                0 <= b < old(device).buffers@.len() ==> (#[trigger] final(device).buffers@[b])
                    == old(device).buffers@[b],
            final(device).buffers@.len() <= old(device).buffers@.len() + 1,
            final(device).buffers@.len() >= old(device).buffers@.len(),
            r matches Ok(ix2) ==> final(device).buffers@.len() == old(device).buffers@.len() + 1
                && final(self).buffer_ids@.len() == old(self).n() + 1 && (forall|j: int|
                0 <= j < old(self).n() ==> final(self).buffer_ids@[j] == old(self).buffer_ids@[j])
                && final(self).buffer_ids@[old(self).n()] == old(device).buffers@.len() && final(device).buffers@[old(device).buffers@.len() as int].bound is None && final(self).spaces@
                == old(self).spaces@.push(
                spec_align_up(
                    final(self).descriptors@[old(self).n()].size as int,
                    old(device).limits.buffer_alignment as int,
                ) as vkbytes,
            ),
            info.estimate_size == 0 ==> r == Result::<BufferBlockIndex, AllocatorError>::Err(
                AllocatorError::NativeCreation(ObjectKind::Buffer),
            ),
            info.estimate_size > 0 ==> (r is Ok <==> old(self).selector.spec_would_accept(
                old(device).buffer_type_bits,
            )),
            r is Err ==> final(self).n() == old(self).n() && final(self).selector.candidate_bits == old(self).selector.candidate_bits && (forall|b: int|
                old(device).buffers@.len() <= b < final(device).buffers@.len() ==> !(
                #[trigger] final(device).buffers@[b]).live),
            r matches Ok(ix) ==> {
                &&& final(self).selector.candidate_bits == (old(self).selector.candidate_bits
                    & old(device).buffer_type_bits)
                &&& final(self).selector.spec_has_suitable()
                &&& ix.value == old(self).n()
                &&& final(self).n() == old(self).n() + 1
                &&& final(self).descriptors@ == old(self).descriptors@.push(
                    (BufferDescriptor {
                        kind: BufferKind::ImgSrc,
                        size: info.estimate_size,
                        usage: BUFFER_USAGE_TRANSFER_SRC,
                        uniform: None,
                    }),
                )
            },
    {
        self.assign_descriptor(
            device,
            BufferDescriptor {
                kind: BufferKind::ImgSrc,
                size: info.estimate_size,
                usage: BUFFER_USAGE_TRANSFER_SRC,
                uniform: None,
            },
        )
    }

    /// Append a uniform buffer descriptor. The descriptor first learns the
    /// device's uniform offset alignment, which fixes its estimated size.
    pub fn assign_uniform(&mut self, device: &mut GsDevice, info: GsBufUniformInfo) -> (r: Result<
        BufferBlockIndex,
        AllocatorError,
    >)
        requires
            old(self).wf(*old(device)),
            old(device).wf(),
            !old(device).recording,
            info.spec_estimate_size_at(old(device).limits.min_uniform_buffer_offset_alignment)
                <= vkbytes::MAX,
            (info.usage matches UniformUsage::Dynamic { slice_size, .. } ==> slice_size + old(device).limits.min_uniform_buffer_offset_alignment - 1 <= vkbytes::MAX),
            spec_spaces_sum(old(self).spaces@, old(self).n()) + spec_align_up(
                info.spec_estimate_size_at(
                    old(device).limits.min_uniform_buffer_offset_alignment,
                ),
                old(device).limits.buffer_alignment as int,
            ) <= vkbytes::MAX,
            info.spec_estimate_size_at(old(device).limits.min_uniform_buffer_offset_alignment)
                + old(device).limits.buffer_alignment - 1 <= vkbytes::MAX,
        ensures
            final(self).wf(*final(device)),
            final(self).storage_type == old(self).storage_type,
            Self::assign_frame(*old(device), *final(device)),
            final(device).spec_live_memory_ids() == old(device).spec_live_memory_ids(),
            forall|b: int|
                0 <= b < old(device).buffers@.len() ==> (#[trigger] final(device).buffers@[b])
                    == old(device).buffers@[b],
            final(device).buffers@.len() <= old(device).buffers@.len() + 1,
            final(device).buffers@.len() >= old(device).buffers@.len(),
            r matches Ok(ix2) ==> final(device).buffers@.len() == old(device).buffers@.len() + 1
                && final(self).buffer_ids@.len() == old(self).n() + 1 && (forall|j: int|
                0 <= j < old(self).n() ==> final(self).buffer_ids@[j] == old(self).buffer_ids@[j])
                && final(self).buffer_ids@[old(self).n()] == old(device).buffers@.len() && final(device).buffers@[old(device).buffers@.len() as int].bound is None && final(self).spaces@
                == old(self).spaces@.push(
                spec_align_up(
                    final(self).descriptors@[old(self).n()].size as int,
                    old(device).limits.buffer_alignment as int,
                ) as vkbytes,
            ),
            r is Err ==> final(self).n() == old(self).n() && final(self).selector.candidate_bits == old(self).selector.candidate_bits && (forall|b: int|
                old(device).buffers@.len() <= b < final(device).buffers@.len() ==> !(
                #[trigger] final(device).buffers@[b]).live),
            info.spec_estimate_size_at(old(device).limits.min_uniform_buffer_offset_alignment)
                > 0 ==> (r is Ok <==> old(self).selector.spec_would_accept(
                old(device).buffer_type_bits,
            )),
            r matches Ok(ix) ==> {
                &&& final(self).selector.candidate_bits == (old(self).selector.candidate_bits
                    & old(device).buffer_type_bits)
                &&& final(self).selector.spec_has_suitable()
                &&& ix.value == old(self).n()
                &&& final(self).n() == old(self).n() + 1
                &&& final(self).descriptors@ == old(self).descriptors@.push(
                    (BufferDescriptor {
                        kind: BufferKind::Uniform,
                        size: info.spec_estimate_size_at(
                            old(device).limits.min_uniform_buffer_offset_alignment,
                        ) as vkbytes,
                        usage: BUFFER_USAGE_UNIFORM_BUFFER,
                        uniform: Some(
                            (IUniform {
                                usage: info.usage,
                                binding: info.binding,
                                alignment: old(device).limits.min_uniform_buffer_offset_alignment,
                                element_size: info.element_size,
                            }),
                        ),
                    }),
                )
            },
    {
        let mut info = info;
        info.set_alignment(device);
        let size = info.estimate_size();
        self.assign_descriptor(
            device,
            BufferDescriptor {
                kind: BufferKind::Uniform,
                size,
                usage: BUFFER_USAGE_UNIFORM_BUFFER,
                uniform: Some(info.into_index()),
            },
        )
    }
}


/// Whether `b` occurs among the first `k` entries of `ids`.
pub open spec fn spec_in_prefix(ids: Seq<usize>, k: int, b: int) -> bool {
    exists|j: int| 0 <= j < k && ids[j] == b
}

/// Destroy every buffer in `ids`, the cleanup an allocator owes for its
/// phase-one objects when phase two cannot finish.
fn cleanup_buffers(device: &mut GsDevice, ids: &Vec<usize>)
    requires
        old(device).wf(),
        forall|i: int| 0 <= i < ids@.len() ==> (#[trigger] ids@[i]) < old(device).buffers@.len(),
        forall|i: int|
            0 <= i < ids@.len() ==> old(device).buffers@[(#[trigger] ids@[i]) as int].live,
        forall|i: int, j: int|
            0 <= i < j < ids@.len() ==> #[trigger] ids@[i] != #[trigger] ids@[j],
    ensures
        final(device).wf(),
        final(device).same_config(*old(device)),
        final(device).images@ == old(device).images@,
        final(device).memories@ == old(device).memories@,
        final(device).pools@ == old(device).pools@,
        final(device).sets@ == old(device).sets@,
        final(device).recording == old(device).recording,
        final(device).buffers@.len() == old(device).buffers@.len(),
        forall|i: int|
            0 <= i < ids@.len() ==> !final(device).buffers@[(#[trigger] ids@[i]) as int].live,
        forall|b: int|
            0 <= b < old(device).buffers@.len() && !spec_in_prefix(ids@, ids@.len() as int, b)
                ==> (#[trigger] final(device).buffers@[b]) == old(device).buffers@[b],
{
    let n = ids.len();
    let mut k: usize = 0;
    while k < n
        invariant
            k <= n,
            n == ids@.len(),
            device.wf(),
            device.same_config(*old(device)),
            device.images@ == old(device).images@,
            device.memories@ == old(device).memories@,
            device.pools@ == old(device).pools@,
            device.sets@ == old(device).sets@,
            device.recording == old(device).recording,
            device.buffers@.len() == old(device).buffers@.len(),
            forall|i: int| 0 <= i < n ==> (#[trigger] ids@[i]) < old(device).buffers@.len(),
            forall|i: int, j: int|
                0 <= i < j < n ==> #[trigger] ids@[i] != #[trigger] ids@[j],
            forall|i: int|
                k <= i < n ==> device.buffers@[(#[trigger] ids@[i]) as int].live,
            forall|i: int|
                0 <= i < k ==> !device.buffers@[(#[trigger] ids@[i]) as int].live,
            forall|b: int|
                0 <= b < old(device).buffers@.len() && !spec_in_prefix(ids@, k as int, b) ==> (
                #[trigger] device.buffers@[b]) == old(device).buffers@[b],
        decreases n - k,
    {
        let id = ids[k];
        device.destroy_buffer(id);
        k = k + 1;
    }
}

/// Converts a finished buffer allocation into typed, range-bound handles:
/// each `acquire` pairs the shared memory block with one resource's offset,
/// size and binding metadata. Acquiring the same index again yields an
/// equal, independent handle over the same resource.
pub struct GsBufferDistributor {
    pub group: BufferGroup,
}

/// Owns the memory block and buffer objects of one allocation until it is
/// released; upload and update sessions go through it.
pub struct GsBufferRepository {
    pub group: BufferGroup,
}

impl GsBufferAllocator {
    /// Lay every appended resource out in one fresh memory block: pick the
    /// one memory type satisfying every resource and the class, allocate
    /// the sum of aligned sizes, and bind each resource at its prefix-sum
    /// offset, in append order.
    ///
    /// The allocator is consumed: success hands its bookkeeping to the
    /// distributor, and on failure the phase-one objects are destroyed and
    /// no partially-bound state survives.
    ///
    /// Fails with `NoResourceAttached` when nothing was appended, with
    /// `NoSuitableMemoryType` when no memory type satisfies the combined
    /// bitmask and the class's properties, and with a memory creation
    /// error when the total exceeds what the device will grant.
    pub fn allocate(self, device: &mut GsDevice) -> (r: Result<
        GsBufferDistributor,
        AllocatorError,
    >)
        requires
            self.wf(*old(device)),
            old(device).wf(),
            !old(device).recording,
        ensures
            final(device).wf(),
            final(device).same_config(*old(device)),
            final(device).images@ == old(device).images@,
            final(device).pools@ == old(device).pools@,
            final(device).sets@ == old(device).sets@,
            final(device).recording == old(device).recording,
            r is Ok <==> (self.n() >= 1 && self.selector.spec_has_suitable() && spec_spaces_sum(
                self.spaces@,
                self.n(),
            ) <= old(device).allocation_capacity),
            (r == Result::<GsBufferDistributor, AllocatorError>::Err(
                AllocatorError::NoResourceAttached,
            )) <==> self.n() == 0,
            self.n() >= 1 && !self.selector.spec_has_suitable() ==> r == Result::<
                GsBufferDistributor,
                AllocatorError,
            >::Err(AllocatorError::NoSuitableMemoryType),
            self.n() >= 1 && self.selector.spec_has_suitable() && spec_spaces_sum(
                self.spaces@,
                self.n(),
            ) > old(device).allocation_capacity ==> r == Result::<
                GsBufferDistributor,
                AllocatorError,
            >::Err(AllocatorError::NativeCreation(ObjectKind::Memory)),
            r is Err ==> {
                &&& final(device).spec_live_memory_ids() == old(device).spec_live_memory_ids()
                &&& final(device).memories@ == old(device).memories@
                &&& final(device).buffers@.len() == old(device).buffers@.len()
                &&& forall|i: int|
                    0 <= i < self.n() ==> !final(device).buffers@[(
                    #[trigger] self.buffer_ids@[i]) as int].live
                &&& forall|b: int|
                    0 <= b < old(device).buffers@.len() && !spec_in_prefix(
                        self.buffer_ids@,
                        self.n(),
                        b,
                    ) ==> (#[trigger] final(device).buffers@[b]) == old(device).buffers@[b]
            },
            r matches Ok(dist) ==> {
                &&& dist.group.wf(*final(device))
                &&& dist.group.storage_type == self.storage_type
                &&& dist.group.buffer_ids@ == self.buffer_ids@
                &&& dist.group.spaces@ == self.spaces@
                &&& dist.group.descriptors@ == self.descriptors@
                &&& dist.group.memory_id == old(device).memories@.len()
                &&& final(device).memories@.len() == old(device).memories@.len() + 1
                &&& final(device).buffers@.len() == old(device).buffers@.len()
                &&& final(device).spec_live_memory_ids() == old(device).spec_live_memory_ids().insert(old(device).memories@.len() as int)
                &&& final(device).memories@[dist.group.memory_id as int].mapped
                    == self.storage_type.memory_type().spec_is_persistently_mapped()
                &&& final(device).memories@[dist.group.memory_id as int].size == spec_spaces_sum(
                    self.spaces@,
                    self.n(),
                )
                &&& forall|b: int|
                    0 <= b < old(device).buffers@.len() && !spec_in_prefix(
                        self.buffer_ids@,
                        self.n(),
                        b,
                    ) ==> (#[trigger] final(device).buffers@[b]) == old(device).buffers@[b]
                &&& forall|j: int|
                    0 <= j < old(device).memories@.len() ==> (
                    #[trigger] final(device).memories@[j]) == old(device).memories@[j]
            },
    {
        let GsBufferAllocator { storage_type, buffer_ids, spaces, descriptors, selector } = self;
        if buffer_ids.len() == 0 {
            return Err(AllocatorError::NoResourceAttached);
        }
        let optimal = match selector.optimal_memory() {
            Ok(i) => i,
            Err(e) => {
                cleanup_buffers(device, &buffer_ids);
                return Err(e);
            },
        };
        let n = buffer_ids.len();
        let ghost spaces_seq = spaces@;
        let mut total: vkbytes = 0;
        let mut k: usize = 0;
        while k < n
            invariant
                k <= n,
                n == spaces_seq.len(),
                spaces@ == spaces_seq,
                spec_spaces_sum(spaces_seq, n as int) <= vkbytes::MAX,
                total == spec_spaces_sum(spaces_seq, k as int),
            decreases n - k,
        {
            proof {
                lemma_spaces_sum_monotone(spaces_seq, k + 1, n as int);
                lemma_spaces_sum_nonnegative(spaces_seq, k as int);
            }
            total = total + spaces[k];
            k = k + 1;
        }
        proof {
            lemma_spaces_sum_monotone(spaces_seq, 1, n as int);
            reveal_with_fuel(spec_spaces_sum, 2);
            assert(spec_spaces_sum(spaces_seq, 1) == spaces_seq[0]);
            assert(1 <= self.spaces@[0]);
            assert(total >= 1);
            assert(optimal < device.memory_types@.len());
        }
        let mem = match device.allocate_memory(total, optimal) {
            Ok(m) => m,
            Err(e) => {
                cleanup_buffers(device, &buffer_ids);
                return Err(e);
            },
        };
        let offsets = spaces_to_offsets(&spaces);
        let ghost dev_after_alloc = *device;
        let mut k: usize = 0;
        while k < n
            invariant
                k <= n,
                n == buffer_ids@.len(),
                n == spaces@.len(),
                n == offsets@.len(),
                n >= 1,
                device.wf(),
                device.same_config(dev_after_alloc),
                device.images@ == dev_after_alloc.images@,
                device.memories@ == dev_after_alloc.memories@,
                device.pools@ == dev_after_alloc.pools@,
                device.sets@ == dev_after_alloc.sets@,
                device.recording == dev_after_alloc.recording,
                device.buffers@.len() == dev_after_alloc.buffers@.len(),
                mem < device.memories@.len(),
                device.memories@[mem as int].live,
                device.memories@[mem as int].size == spec_spaces_sum(spaces@, n as int),
                forall|i: int|
                    0 <= i < n ==> #[trigger] offsets@[i] == spec_spaces_sum(spaces@, i),
                forall|i: int| 0 <= i < n ==> 1 <= #[trigger] spaces@[i],
                forall|i: int, j: int|
                    0 <= i < j < n ==> #[trigger] buffer_ids@[i] != #[trigger] buffer_ids@[j],
                forall|i: int|
                    0 <= i < n ==> (#[trigger] buffer_ids@[i]) < dev_after_alloc.buffers@.len(),
                forall|i: int|
                    k <= i < n ==> device.buffers@[(#[trigger] buffer_ids@[i]) as int]
                        == dev_after_alloc.buffers@[buffer_ids@[i] as int],
                forall|i: int|
                    0 <= i < n ==> {
                        let b = dev_after_alloc.buffers@[(#[trigger] buffer_ids@[i]) as int];
                        &&& b.live
                        &&& b.bound is None
                        &&& b.size == descriptors@[i].size
                        &&& b.size <= spaces@[i]
                        &&& b.usage == storage_type.memory_type().spec_complement_usage(
                            descriptors@[i].usage,
                        )
                    },
                n == descriptors@.len(),
                forall|i: int|
                    0 <= i < k ==> device.buffers@[(#[trigger] buffer_ids@[i]) as int] == (
                    BufferObj {
                        bound: Some((mem, offsets@[i])),
                        ..dev_after_alloc.buffers@[buffer_ids@[i] as int]
                    }),
                forall|b: int|
                    0 <= b < dev_after_alloc.buffers@.len() && !spec_in_prefix(
                        buffer_ids@,
                        k as int,
                        b,
                    ) ==> (#[trigger] device.buffers@[b]) == dev_after_alloc.buffers@[b],
            decreases n - k,
        {
            proof {
                lemma_spaces_sum_monotone(spaces@, k + 1, n as int);
                lemma_spaces_sum_nonnegative(spaces@, k as int);
            }
            let id = buffer_ids[k];
            let off = offsets[k];
            device.bind_buffer(id, mem, off);
            k = k + 1;
        }
        if storage_type.memory_type().is_persistently_mapped() {
            proof {
                crate::policy::lemma_contains_flags_split(
                    device.memories@[mem as int].property_flags,
                    crate::policy::MEMORY_PROPERTY_HOST_VISIBLE,
                    crate::policy::MEMORY_PROPERTY_HOST_COHERENT,
                );
            }
            device.map_memory(mem);
        }
        Ok(
            GsBufferDistributor {
                group: BufferGroup {
                    storage_type,
                    memory_id: mem,
                    buffer_ids,
                    spaces,
                    offsets,
                    descriptors,
                },
            },
        )
    }
}


impl BufferGroup {
    /// The arrays describe the same resources, one entry each.
    pub open spec fn shape_ok(self) -> bool {
        &&& self.spaces@.len() == self.n()
        &&& self.offsets@.len() == self.n()
        &&& self.descriptors@.len() == self.n()
    }

    /// The range-bound view of resource `v`.
    pub open spec fn spec_block(self, v: int) -> crate::buffer::BufferBlock {
        crate::buffer::BufferBlock {
            buffer: self.buffer_ids@[v],
            size: self.spaces@[v],
            memory_offset: self.offsets@[v],
        }
    }

    fn block_at(&self, v: usize) -> (r: crate::buffer::BufferBlock)
        requires
            self.shape_ok(),
            v < self.n(),
        ensures
            r == self.spec_block(v as int),
    {
        crate::buffer::BufferBlock {
            buffer: self.buffer_ids[v],
            size: self.spaces[v],
            memory_offset: self.offsets[v],
        }
    }
}

impl GsBufferDistributor {
    /// Acquire the vertex buffer handle for `index`.
    pub fn acquire_vertex(&self, index: BufferBlockIndex) -> (r: crate::buffer::GsVertexBlock)
        requires
            self.group.shape_ok(),
            index.value < self.group.n(),
            self.group.descriptors@[index.value as int].kind == BufferKind::Vertex,
        ensures
            r.block == self.group.spec_block(index.value as int),
            r.repository_index == index.value,
    {
        crate::buffer::GsVertexBlock {
            block: self.group.block_at(index.value),
            repository_index: index.value,
        }
    }

    /// Acquire the index buffer handle for `index`.
    pub fn acquire_index(&self, index: BufferBlockIndex) -> (r: crate::buffer::GsIndexBlock)
        requires
            self.group.shape_ok(),
            index.value < self.group.n(),
            self.group.descriptors@[index.value as int].kind == BufferKind::Index,
        ensures
            r.block == self.group.spec_block(index.value as int),
            r.repository_index == index.value,
    {
        crate::buffer::GsIndexBlock {
            block: self.group.block_at(index.value),
            repository_index: index.value,
        }
    }

    /// Acquire the image-source staging block handle for `index`.
    pub fn acquire_imgsrc(&self, index: BufferBlockIndex) -> (r: crate::buffer::GsImgsrcBlock)
        requires
            self.group.shape_ok(),
            index.value < self.group.n(),
            self.group.descriptors@[index.value as int].kind == BufferKind::ImgSrc,
        ensures
            r.block == self.group.spec_block(index.value as int),
            r.repository_index == index.value,
    {
        crate::buffer::GsImgsrcBlock {
            block: self.group.block_at(index.value),
            repository_index: index.value,
        }
    }

    /// Acquire the uniform buffer handle for `index`, carrying the binding
    /// metadata recorded when the descriptor was appended.
    pub fn acquire_uniform(&self, index: BufferBlockIndex) -> (r: crate::buffer::GsUniformBuffer)
        requires
            self.group.shape_ok(),
            index.value < self.group.n(),
            self.group.descriptors@[index.value as int].kind == BufferKind::Uniform,
            self.group.descriptors@[index.value as int].uniform is Some,
        ensures
            r.block == self.group.spec_block(index.value as int),
            r.repository_index == index.value,
            r.iuniform == self.group.descriptors@[index.value as int].uniform->0,
    {
        let iuniform = match &self.group.descriptors[index.value].uniform {
            Some(u) => *u,
            None => {
                proof {
                    assert(false);
                }
                IUniform {
                    usage: UniformUsage::Common,
                    binding: crate::descriptor::DescriptorBindingContent {
                        binding: 0,
                        count: 0,
                        descriptor_type: crate::descriptor::GsDescriptorType::Buffer(
                            crate::descriptor::BufferDescriptorType::UniformBuffer,
                        ),
                    },
                    alignment: 0,
                    element_size: 0,
                }
            },
        };
        crate::buffer::GsUniformBuffer {
            iuniform,
            block: self.group.block_at(index.value),
            repository_index: index.value,
        }
    }

    /// Give the bookkeeping, and with it ownership of the memory block and
    /// buffers, to a repository. The distributor is consumed: the handles
    /// already acquired stay valid, the metadata to mint new ones moves on.
    pub fn into_repository(self) -> (r: GsBufferRepository)
        ensures
            r.group == self.group,
    {
        GsBufferRepository { group: self.group }
    }
}

/// The destroy calls `release` makes for the first `k` buffers, in order.
pub open spec fn spec_destroy_calls(ids: Seq<usize>, k: int) -> Seq<NativeCall> {
    Seq::new(k as nat, |i: int| NativeCall::DestroyBuffer(ids[i]))
}

impl GsBufferRepository {
    pub open spec fn wf(self, d: GsDevice) -> bool {
        self.group.wf(d)
    }

    /// The storage class this repository was allocated for.
    pub fn storage_type(&self) -> (r: BufferStorageType)
        ensures
            r == self.group.storage_type,
    {
        self.group.storage_type
    }

    /// Read a handle's bytes back through the mapped memory range it was
    /// written through.
    pub fn read_back(&self, device: &GsDevice, repository_index: usize) -> (r: Vec<u8>)
        requires
            device.wf(),
            self.wf(*device),
            repository_index < self.group.n(),
            device.memories@[self.group.memory_id as int].mapped,
        ensures
            r@ == device.memories@[self.group.memory_id as int].data@.subrange(
                self.group.offsets@[repository_index as int] as int,
                self.group.offsets@[repository_index as int]
                    + self.group.spaces@[repository_index as int],
            ),
    {
        proof {
            lemma_spaces_sum_monotone(
                self.group.spaces@,
                repository_index + 1,
                self.group.n(),
            );
            lemma_spaces_sum_nonnegative(self.group.spaces@, repository_index as int);
        }
        device.read_mapped(
            self.group.memory_id,
            self.group.offsets[repository_index],
            self.group.spaces[repository_index],
        )
    }

    /// Release everything this repository owns: destroy each buffer
    /// object, in order, and only then free the memory block — the order
    /// the native interface demands.
    pub fn release(self, device: &mut GsDevice)
        requires
            old(device).wf(),
            self.wf(*old(device)),
        ensures
            final(device).wf(),
            final(device).same_config(*old(device)),
            final(device).images@ == old(device).images@,
            final(device).pools@ == old(device).pools@,
            final(device).sets@ == old(device).sets@,
            final(device).recording == old(device).recording,
            final(device).buffers@.len() == old(device).buffers@.len(),
            final(device).memories@.len() == old(device).memories@.len(),
            forall|i: int|
                0 <= i < self.group.n() ==> !final(device).buffers@[(
                #[trigger] self.group.buffer_ids@[i]) as int].live,
            !final(device).memories@[self.group.memory_id as int].live,
            final(device).spec_live_memory_ids() == old(device).spec_live_memory_ids().remove(
                self.group.memory_id as int,
            ),
            final(device).calls@ == old(device).calls@ + spec_destroy_calls(
                self.group.buffer_ids@,
                self.group.n(),
            ).push(NativeCall::FreeMemory(self.group.memory_id)),
            forall|b: int|
                0 <= b < old(device).buffers@.len() && !spec_in_prefix(
                    self.group.buffer_ids@,
                    self.group.n(),
                    b,
                ) ==> (#[trigger] final(device).buffers@[b]) == old(device).buffers@[b],
            forall|j: int|
                0 <= j < old(device).memories@.len() && j != self.group.memory_id ==> (
                #[trigger] final(device).memories@[j]) == old(device).memories@[j],
            final(device).memories@[self.group.memory_id as int] == (crate::device::MemoryObj {
                live: false,
                mapped: false,
                ..old(device).memories@[self.group.memory_id as int]
            }),
    {
        let n = self.group.buffer_ids.len();
        let ghost pre = *device;
        let mut k: usize = 0;
        while k < n
            invariant
                k <= n,
                n == self.group.buffer_ids@.len(),
                device.wf(),
                device.same_config(pre),
                device.images@ == pre.images@,
                device.memories@ == pre.memories@,
                device.pools@ == pre.pools@,
                device.sets@ == pre.sets@,
                device.recording == pre.recording,
                device.buffers@.len() == pre.buffers@.len(),
                forall|i: int, j: int|
                    0 <= i < j < n ==> #[trigger] self.group.buffer_ids@[i]
                        != #[trigger] self.group.buffer_ids@[j],
                forall|i: int|
                    0 <= i < n ==> (#[trigger] self.group.buffer_ids@[i]) < pre.buffers@.len(),
                forall|i: int|
                    k <= i < n ==> device.buffers@[(#[trigger] self.group.buffer_ids@[i]) as int]
                        == pre.buffers@[self.group.buffer_ids@[i] as int],
                forall|i: int|
                    0 <= i < n ==> pre.buffers@[(#[trigger] self.group.buffer_ids@[i]) as int].live,
                forall|i: int|
                    0 <= i < k ==> !device.buffers@[(
                    #[trigger] self.group.buffer_ids@[i]) as int].live,
                forall|b: int|
                    0 <= b < pre.buffers@.len() && !spec_in_prefix(
                        self.group.buffer_ids@,
                        k as int,
                        b,
                    ) ==> (#[trigger] device.buffers@[b]) == pre.buffers@[b],
                device.calls@ == pre.calls@ + spec_destroy_calls(
                    self.group.buffer_ids@,
                    k as int,
                ),
            decreases n - k,
        {
            let id = self.group.buffer_ids[k];
            device.destroy_buffer(id);
            proof {
                assert(device.calls@ =~= pre.calls@ + spec_destroy_calls(
                    self.group.buffer_ids@,
                    k + 1,
                ));
            }
            k = k + 1;
        }
        proof {
            assert(!device.spec_has_live_binding(self.group.memory_id as int)) by {
                assert forall|b: int|
                    !(0 <= b < device.buffers@.len() && (#[trigger] device.buffers@[b]).live && (
                    device.buffers@[b].bound matches Some((m, _)) && m
                        == self.group.memory_id)) by {
                    if 0 <= b < device.buffers@.len() && device.buffers@[b].live {
                        assert(device.buffers@[b] == pre.buffers@[b]) by {
                            if spec_in_prefix(self.group.buffer_ids@, n as int, b) {
                                let j = choose|j: int|
                                    0 <= j < n && self.group.buffer_ids@[j] == b;
                                assert(!device.buffers@[(
                                #[trigger] self.group.buffer_ids@[j]) as int].live);
                                assert(false);
                            }
                        };
                    }
                };
            };
        }
        device.free_memory(self.group.memory_id);
        proof {
            assert(final(device).spec_live_memory_ids() =~= old(device).spec_live_memory_ids().remove(self.group.memory_id as int));
        }
    }
}


/// A buffer group stays well formed across device changes that leave its
/// members, its memory block's identity and every other block's claim on
/// it untouched.
pub proof fn lemma_group_wf_preserved(g: BufferGroup, d0: GsDevice, d1: GsDevice)
    requires
        g.wf(d0),
        d0.limits == d1.limits,
        g.memory_id < d1.memories@.len(),
        d1.memories@[g.memory_id as int].live == d0.memories@[g.memory_id as int].live,
        d1.memories@[g.memory_id as int].size == d0.memories@[g.memory_id as int].size,
        d1.memories@[g.memory_id as int].property_flags == d0.memories@[g.memory_id
            as int].property_flags,
        d1.buffers@.len() >= d0.buffers@.len(),
        forall|i: int|
            0 <= i < g.n() ==> d1.buffers@[(#[trigger] g.buffer_ids@[i]) as int] == d0.buffers@[
                g.buffer_ids@[i] as int],
        forall|b: int|
            0 <= b < d1.buffers@.len() ==> ((b < d0.buffers@.len() && #[trigger] d1.buffers@[b]
                == d0.buffers@[b]) || !(d1.buffers@[b].live && (d1.buffers@[b].bound matches Some(
                (m, _),
            ) && m == g.memory_id))),
        forall|im: int|
            0 <= im < d1.images@.len() ==> ((im < d0.images@.len() && #[trigger] d1.images@[im]
                == d0.images@[im]) || !((d1.images@[im]).live && (d1.images@[im].bound
                matches Some((m, _)) && m == g.memory_id))),
    ensures
        g.wf(d1),
{
    assert forall|b: int|
        0 <= b < d1.buffers@.len() && (#[trigger] d1.buffers@[b]).live && (d1.buffers@[b].bound
            matches Some((m, _)) && m == g.memory_id) implies exists|i: int|
        0 <= i < g.n() && g.buffer_ids@[i] == b by {
        assert(b < d0.buffers@.len() && d1.buffers@[b] == d0.buffers@[b]);
    };
    assert forall|im: int|
        0 <= im < d1.images@.len() && (#[trigger] d1.images@[im]).live implies !(
    d1.images@[im].bound matches Some((m, _)) && m == g.memory_id) by {
        if im < d0.images@.len() && d1.images@[im] == d0.images@[im] {
        }
    };
}


/// The law of the layout: in any well-formed allocation the first offset
/// is zero, each next offset is the previous one plus the previous
/// resource's aligned size, every offset is a multiple of the device's
/// buffer alignment, and every resource's bytes end within the block.
pub proof fn lemma_group_offsets(g: BufferGroup, d: GsDevice)
    requires
        g.wf(d),
        d.wf(),
    ensures
        g.offsets@[0] == 0,
        forall|i: int|
            0 <= i < g.n() - 1 ==> #[trigger] g.offsets@[i + 1] == g.offsets@[i] + g.spaces@[i],
        forall|i: int, j: int|
            0 <= i <= j < g.n() ==> #[trigger] g.offsets@[i] <= #[trigger] g.offsets@[j],
        forall|i: int|
            0 <= i < g.n() ==> (#[trigger] g.offsets@[i]) as int % (
            d.limits.buffer_alignment as int) == 0,
        forall|i: int|
            0 <= i < g.n() ==> #[trigger] g.offsets@[i] + d.buffers@[g.buffer_ids@[i] as int].size
                <= d.memories@[g.memory_id as int].size,
{
    assert forall|i: int, j: int|
        0 <= i <= j < g.n() implies #[trigger] g.offsets@[i] <= #[trigger] g.offsets@[j] by {
        lemma_spaces_sum_monotone(g.spaces@, i, j);
    };
    assert forall|i: int|
        0 <= i < g.n() implies (#[trigger] g.offsets@[i]) as int % (
    d.limits.buffer_alignment as int) == 0 by {
        lemma_spaces_sum_aligned(g, d, i);
    };
    assert forall|i: int|
        0 <= i < g.n() implies #[trigger] g.offsets@[i] + d.buffers@[g.buffer_ids@[i]
            as int].size <= d.memories@[g.memory_id as int].size by {
        lemma_spaces_sum_monotone(g.spaces@, i + 1, g.n());
        assert(d.buffers@[(#[trigger] g.buffer_ids@[i]) as int].size <= g.spaces@[i]);
    };
}

/// Each prefix sum of alignment-rounded sizes is itself a multiple of the
/// alignment.
proof fn lemma_spaces_sum_aligned(g: BufferGroup, d: GsDevice, n: int)
    requires
        g.wf(d),
        d.wf(),
        0 <= n <= g.n(),
    ensures
        spec_spaces_sum(g.spaces@, n) % (d.limits.buffer_alignment as int) == 0,
    decreases n,
{
    let a = d.limits.buffer_alignment as int;
    if n == 0 {
        assert(0int % a == 0) by (nonlinear_arith)
            requires
                a > 0,
        ;
    } else {
        lemma_spaces_sum_aligned(g, d, n - 1);
        let b = d.buffers@[(#[trigger] g.buffer_ids@[n - 1]) as int];
        assert(g.spaces@[n - 1] == spec_align_up(b.size as int, a));
        crate::types::lemma_align_up(b.size as int, a);
        lemma_spaces_sum_nonnegative(g.spaces@, n - 1);
        vstd::arithmetic::div_mod::lemma_add_mod_noop(
            spec_spaces_sum(g.spaces@, n - 1),
            g.spaces@[n - 1] as int,
            a,
        );
        assert(0int % a == 0) by (nonlinear_arith)
            requires
                a > 0,
        ;
    }
}

} // verus!
