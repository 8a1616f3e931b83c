use vstd::prelude::*;
use crate::types::{vkbytes, vkuint, spec_align_up, bound_to_alignment, lemma_align_up};
use crate::device::GsDevice;
use crate::descriptor::{
    BufferDescriptorType, DescriptorBindingContent, GsDescriptorType,
};
use crate::policy::{
    BUFFER_USAGE_INDEX_BUFFER, BUFFER_USAGE_TRANSFER_SRC, BUFFER_USAGE_UNIFORM_BUFFER,
    BUFFER_USAGE_VERTEX_BUFFER,
};

verus! {

/// The token an `assign` call hands back: the resource's position in the
/// allocation, consumed once when the matching handle is acquired.
#[derive(Debug, Clone, Copy, PartialEq, Eq, Structural)]
pub struct BufferBlockIndex {
    pub value: usize,
}

/// What kind of buffer a descriptor asks for.
#[derive(Debug, Clone, Copy, PartialEq, Eq, Structural)]
pub enum BufferKind {
    Vertex,
    Index,
    Uniform,
    ImgSrc,
}

/// One buffer resource request, reduced to what the allocator lays out:
/// its kind, its estimated byte size, the usage flags its kind demands, and
/// any descriptor binding metadata it carries.
pub struct BufferDescriptor {
    pub kind: BufferKind,
    pub size: vkbytes,
    pub usage: vkuint,
    pub uniform: Option<IUniform>,
}

/// Describes a vertex buffer to allocate.
#[derive(Debug, Clone, Copy, PartialEq, Eq, Structural)]
pub struct GsBufVertexInfo {
    pub estimate_size: vkbytes,
}

impl GsBufVertexInfo {
    pub fn new(estimate_size: vkbytes) -> (r: GsBufVertexInfo)
        ensures
            r.estimate_size == estimate_size,
    {
        GsBufVertexInfo { estimate_size }
    }
}

/// Describes an index buffer to allocate.
#[derive(Debug, Clone, Copy, PartialEq, Eq, Structural)]
pub struct GsBufIndexInfo {
    pub estimate_size: vkbytes,
}

impl GsBufIndexInfo {
    pub fn new(estimate_size: vkbytes) -> (r: GsBufIndexInfo)
        ensures
            r.estimate_size == estimate_size,
    {
        GsBufIndexInfo { estimate_size }
    }
}

/// Describes an image-source block: staging space for one image's pixels.
#[derive(Debug, Clone, Copy, PartialEq, Eq, Structural)]
pub struct GsBufImgsrcInfo {
    pub estimate_size: vkbytes,
}

impl GsBufImgsrcInfo {
    pub fn new(estimate_size: vkbytes) -> (r: GsBufImgsrcInfo)
        ensures
            r.estimate_size == estimate_size,
    {
        GsBufImgsrcInfo { estimate_size }
    }
}

/// Whether a uniform block is read whole or as dynamically offset slices.
#[derive(Debug, Clone, Copy, PartialEq, Eq, Structural)]
pub enum UniformUsage {
    Common,
    Dynamic { slice_count: vkuint, slice_size: vkbytes },
}

/// Describes a uniform buffer to allocate: how it is read, which binding
/// slot it serves, the size of one element, and the offset alignment the
/// device demands of uniform blocks (learned when the descriptor joins an
/// allocator).
#[derive(Debug, Clone, Copy, PartialEq, Eq, Structural)]
pub struct GsBufUniformInfo {
    pub usage: UniformUsage,
    pub binding: DescriptorBindingContent,
    pub element_size: vkbytes,
    pub alignment: vkbytes,
}

impl GsBufUniformInfo {
    /// The bytes this descriptor asks for, were the device to demand
    /// `alignment` of uniform offsets: one element per descriptor for a
    /// common block, one aligned slice per slice and descriptor for a
    /// dynamic block.
    pub open spec fn spec_estimate_size_at(self, alignment: vkbytes) -> int {
        match self.usage {
            UniformUsage::Common => self.binding.count * self.element_size,
            UniformUsage::Dynamic { slice_count, slice_size } => spec_align_up(
                slice_size as int,
                alignment as int,
            ) * slice_count * self.binding.count,
        }
    }

    /// The bytes this descriptor asks for under its recorded alignment.
    pub open spec fn spec_estimate_size(self) -> int {
        self.spec_estimate_size_at(self.alignment)
    }

    /// Prepare to create a common uniform buffer.
    pub fn new(binding: vkuint, descriptor_count: vkuint, element_size: vkbytes) -> (r:
        GsBufUniformInfo)
        ensures
            r.usage == UniformUsage::Common,
            r.binding == (DescriptorBindingContent {
                binding,
                count: descriptor_count,
                descriptor_type: GsDescriptorType::Buffer(BufferDescriptorType::UniformBuffer),
            }),
            r.element_size == element_size,
            r.alignment == 0,
    {
        GsBufUniformInfo {
            usage: UniformUsage::Common,
            binding: DescriptorBindingContent {
                binding,
                count: descriptor_count,
                descriptor_type: GsDescriptorType::Buffer(BufferDescriptorType::UniformBuffer),
            },
            element_size,
            alignment: 0,
        }
    }

    /// Prepare to create a dynamic uniform buffer of `slice_count` slices
    /// of `slice_size` bytes each.
    pub fn new_dyn(
        binding: vkuint,
        descriptor_count: vkuint,
        slice_size: vkbytes,
        slice_count: usize,
    ) -> (r: GsBufUniformInfo)
        requires
            slice_count <= vkuint::MAX,
            slice_size * slice_count <= vkbytes::MAX,
        ensures
            r.usage == (UniformUsage::Dynamic {
                slice_count: slice_count as vkuint,
                slice_size,
            }),
            r.binding == (DescriptorBindingContent {
                binding,
                count: descriptor_count,
                descriptor_type: GsDescriptorType::Buffer(
                    BufferDescriptorType::DynamicUniformBuffer,
                ),
            }),
            r.element_size == slice_size * slice_count,
            r.alignment == 0,
    {
        GsBufUniformInfo {
            usage: UniformUsage::Dynamic { slice_count: slice_count as vkuint, slice_size },
            binding: DescriptorBindingContent {
                binding,
                count: descriptor_count,
                descriptor_type: GsDescriptorType::Buffer(
                    BufferDescriptorType::DynamicUniformBuffer,
                ),
            },
            element_size: slice_size * slice_count,
            alignment: 0,
        }
    }

    /// Record the uniform offset alignment the device demands; the
    /// allocator calls this when the descriptor joins it.
    pub fn set_alignment(&mut self, device: &GsDevice)
        ensures
            *final(self) == (GsBufUniformInfo {
                alignment: device.limits.min_uniform_buffer_offset_alignment,
                ..*old(self)
            }),
    {
        self.alignment = device.limits.min_uniform_buffer_offset_alignment;
    }

    /// The bytes this descriptor asks of the allocation.
    pub fn estimate_size(&self) -> (r: vkbytes)
        requires
            self.spec_estimate_size() <= vkbytes::MAX,
            (self.usage matches UniformUsage::Dynamic { slice_size, .. } ==> 0 < self.alignment
                && slice_size + self.alignment - 1 <= vkbytes::MAX),
        ensures
            r == self.spec_estimate_size(),
    {
        match self.usage {
            UniformUsage::Common => (self.binding.count as vkbytes) * self.element_size,
            UniformUsage::Dynamic { slice_count, slice_size } => {
                if self.binding.count == 0 || slice_count == 0 {
                    proof {
                        let a = spec_align_up(slice_size as int, self.alignment as int);
                        let sc = slice_count as int;
                        let c = self.binding.count as int;
                        assert(a * sc * c == 0) by (nonlinear_arith)
                            requires
                                sc == 0 || c == 0,
                        ;
                    }
                    return 0;
                }
                let aligned = bound_to_alignment(slice_size, self.alignment);
                proof {
                    let a = aligned as int;
                    let sc = slice_count as int;
                    let c = self.binding.count as int;
                    assert(a * sc <= a * sc * c && a * sc * c == self.spec_estimate_size())
                        by (nonlinear_arith)
                        requires
                            a >= 0,
                            sc >= 1,
                            c >= 1,
                            a == spec_align_up(
                                slice_size as int,
                                self.alignment as int,
                            ),
                            self.spec_estimate_size() == spec_align_up(
                                slice_size as int,
                                self.alignment as int,
                            ) * sc * c,
                    ;
                }
                (aligned * (slice_count as vkbytes)) * (self.binding.count as vkbytes)
            },
        }
    }

    /// The descriptor's binding metadata, carried on to the handle.
    pub fn into_index(self) -> (r: IUniform)
        ensures
            r == (IUniform {
                usage: self.usage,
                binding: self.binding,
                alignment: self.alignment,
                element_size: self.element_size,
            }),
    {
        IUniform {
            usage: self.usage,
            binding: self.binding,
            alignment: self.alignment,
            element_size: self.element_size,
        }
    }
}

/// The uniform metadata the allocator keeps for one appended uniform
/// descriptor, handed to the matching handle at distribution.
#[derive(Debug, Clone, Copy, PartialEq, Eq, Structural)]
pub struct IUniform {
    pub usage: UniformUsage,
    pub binding: DescriptorBindingContent,
    pub alignment: vkbytes,
    pub element_size: vkbytes,
}

/// A range-bound view into the shared memory block: the native buffer that
/// backs it, the bytes it spans, and where in the block it begins.
#[derive(Debug, Clone, Copy, PartialEq, Eq, Structural)]
pub struct BufferBlock {
    /// The native buffer object's index on the device.
    pub buffer: usize,
    pub size: vkbytes,
    pub memory_offset: vkbytes,
}

/// A typed handle to a vertex buffer inside a repository.
#[derive(Debug, Clone, Copy, PartialEq, Eq, Structural)]
pub struct GsVertexBlock {
    pub block: BufferBlock,
    pub repository_index: usize,
}

/// A typed handle to an index buffer inside a repository.
#[derive(Debug, Clone, Copy, PartialEq, Eq, Structural)]
pub struct GsIndexBlock {
    pub block: BufferBlock,
    pub repository_index: usize,
}

/// A typed handle to an image-source staging block inside a repository.
#[derive(Debug, Clone, Copy, PartialEq, Eq, Structural)]
pub struct GsImgsrcBlock {
    pub block: BufferBlock,
    pub repository_index: usize,
}

/// What a buffer handle exposes for descriptor-set recording: the binding
/// content, which elements are addressed, the native buffer, and the bytes
/// of one element.
pub struct DescriptorBufferBindingInfo {
    pub content: DescriptorBindingContent,
    pub element_indices: Vec<vkuint>,
    pub buffer_handle: usize,
    pub element_size: vkbytes,
}

/// A typed handle to a uniform buffer inside a repository, carrying the
/// binding metadata recorded when the descriptor was appended.
#[derive(Debug, Clone, Copy, PartialEq, Eq, Structural)]
pub struct GsUniformBuffer {
    pub iuniform: IUniform,
    pub block: BufferBlock,
    pub repository_index: usize,
}

impl GsUniformBuffer {
    pub fn new(block: BufferBlock, info: IUniform, repository_index: usize) -> (r:
        GsUniformBuffer)
        ensures
            r == (GsUniformBuffer { iuniform: info, block, repository_index }),
    {
        GsUniformBuffer { iuniform: info, block, repository_index }
    }

    /// The uniform offset alignment recorded for this block.
    pub fn alignment(&self) -> (r: vkbytes)
        ensures
            r == self.iuniform.alignment,
    {
        self.iuniform.alignment
    }

    /// The bytes one bound element spans: the element itself for a common
    /// block, one aligned slice for a dynamic block.
    pub open spec fn spec_alignment_size(self) -> int {
        match self.iuniform.usage {
            UniformUsage::Common => self.iuniform.element_size as int,
            UniformUsage::Dynamic { slice_size, .. } => spec_align_up(
                slice_size as int,
                self.iuniform.alignment as int,
            ),
        }
    }

    pub fn alignment_size(&self) -> (r: vkbytes)
        requires
            (self.iuniform.usage matches UniformUsage::Dynamic { slice_size, .. } ==> 0
                < self.iuniform.alignment && slice_size + self.iuniform.alignment - 1
                <= vkbytes::MAX),
        ensures
            r == self.spec_alignment_size(),
    {
        match self.iuniform.usage {
            UniformUsage::Common => self.iuniform.element_size,
            UniformUsage::Dynamic { slice_count: _, slice_size } => bound_to_alignment(
                slice_size,
                self.iuniform.alignment,
            ),
        }
    }

    /// What descriptor-set recording needs of this block.
    pub fn binding_info(&self, sub_block_indices: Option<Vec<vkuint>>) -> (r:
        DescriptorBufferBindingInfo)
        requires
            (self.iuniform.usage matches UniformUsage::Dynamic { slice_size, .. } ==> 0
                < self.iuniform.alignment && slice_size + self.iuniform.alignment - 1
                <= vkbytes::MAX),
        ensures
            r.content == self.iuniform.binding,
            r.buffer_handle == self.block.buffer,
            r.element_size == self.spec_alignment_size(),
            sub_block_indices matches Some(v) ==> r.element_indices@ == v@,
            sub_block_indices is None ==> r.element_indices@ == seq![0u32],
    {
        let element_indices = match sub_block_indices {
            Some(v) => v,
            None => {
                let mut d: Vec<vkuint> = Vec::new();
                d.push(0);
                proof {
                    assert(d@ =~= seq![0u32]);
                }
                d
            },
        };
        DescriptorBufferBindingInfo {
            content: self.iuniform.binding,
            element_indices,
            buffer_handle: self.block.buffer,
            element_size: self.alignment_size(),
        }
    }
}

/// Describes a uniform block by its binding slot, descriptor count and
/// element size.
#[derive(Debug, Clone, Copy, PartialEq, Eq, Structural)]
pub struct UniformBlockInfo {
    pub binding: DescriptorBindingContent,
    pub element_size: vkbytes,
    pub estimate_size: vkbytes,
}

impl UniformBlockInfo {
    /// One element of `element_size` bytes per descriptor.
    pub fn new(binding: vkuint, count: vkuint, element_size: vkbytes) -> (r: UniformBlockInfo)
        requires
            count * element_size <= vkbytes::MAX,
        ensures
            r.binding == (DescriptorBindingContent {
                binding,
                count,
                descriptor_type: GsDescriptorType::Buffer(BufferDescriptorType::UniformBuffer),
            }),
            r.element_size == element_size,
            r.estimate_size == count * element_size,
    {
        UniformBlockInfo {
            binding: DescriptorBindingContent {
                binding,
                count,
                descriptor_type: GsDescriptorType::Buffer(BufferDescriptorType::UniformBuffer),
            },
            element_size,
            estimate_size: (count as vkbytes) * element_size,
        }
    }
}

/// A uniform block handle carrying its binding content and element size.
#[derive(Debug, Clone, Copy, PartialEq, Eq, Structural)]
pub struct HaUniformBlock {
    pub binding: DescriptorBindingContent,
    pub block: BufferBlock,
    pub repository_index: usize,
    pub element_size: vkbytes,
}

impl HaUniformBlock {
    pub fn new(info: &UniformBlockInfo, block: BufferBlock, repository_index: usize) -> (r:
        HaUniformBlock)
        ensures
            r == (HaUniformBlock {
                binding: info.binding,
                block,
                repository_index,
                element_size: info.element_size,
            }),
    {
        HaUniformBlock {
            binding: info.binding,
            element_size: info.element_size,
            block,
            repository_index,
        }
    }

    /// What descriptor-set recording needs of this block.
    pub fn binding_info(&self, sub_block_indices: Option<Vec<vkuint>>) -> (r:
        DescriptorBufferBindingInfo)
        ensures
            r.content == self.binding,
            r.buffer_handle == self.block.buffer,
            r.element_size == self.element_size,
            sub_block_indices matches Some(v) ==> r.element_indices@ == v@,
            sub_block_indices is None ==> r.element_indices@ == seq![0u32],
    {
        let element_indices = match sub_block_indices {
            Some(v) => v,
            None => {
                let mut d: Vec<vkuint> = Vec::new();
                d.push(0);
                proof {
                    assert(d@ =~= seq![0u32]);
                }
                d
            },
        };
        DescriptorBufferBindingInfo {
            content: self.binding,
            element_indices,
            buffer_handle: self.block.buffer,
            element_size: self.element_size,
        }
    }
}

} // verus!
