use vstd::prelude::*;
use crate::types::{vkbytes, vkuint, Dimension3D, Format, spec_align_up};
use crate::error::{AllocatorError, ObjectKind};
use crate::policy::{
    contains_flags, spec_contains_flags, BUFFER_USAGE_TRANSFER_DST, BUFFER_USAGE_TRANSFER_SRC,
    IMAGE_USAGE_TRANSFER_DST, MEMORY_PROPERTY_HOST_VISIBLE,
};

verus! {

/// The alignment and size limits a physical device reports.
#[derive(Debug, Clone, Copy, PartialEq, Eq, Structural)]
pub struct PhysicalLimits {
    /// Alignment every uniform block offset must honour.
    pub min_uniform_buffer_offset_alignment: vkbytes,
    /// Alignment the device demands for buffer placements.
    pub buffer_alignment: vkbytes,
    /// Alignment the device demands for image placements.
    pub image_alignment: vkbytes,
}

impl PhysicalLimits {
    pub open spec fn wf(self) -> bool {
        &&& 0 < self.min_uniform_buffer_offset_alignment
        &&& 0 < self.buffer_alignment
        &&& 0 < self.image_alignment
    }
}

/// What the device reports a resource needs from memory: a byte size, a
/// placement alignment, and a bitmask of compatible memory type indices.
#[derive(Debug, Clone, Copy, PartialEq, Eq, Structural)]
pub struct MemoryRequirements {
    pub size: vkbytes,
    pub alignment: vkbytes,
    pub memory_type_bits: vkuint,
}

/// The layouts an image of this subsystem moves through.
#[derive(Debug, Clone, Copy, PartialEq, Eq, Structural)]
pub enum ImageLayout {
    Undefined,
    TransferDstOptimal,
    ShaderReadOnlyOptimal,
    DepthStencilAttachmentOptimal,
}

/// One observable transition of an image: a layout barrier, or a copy of
/// bytes from a buffer landing in the image while its layout stands still.
#[derive(Debug, Clone, Copy, PartialEq, Eq, Structural)]
pub enum ImageEvent {
    Barrier { from: ImageLayout, to: ImageLayout },
    Copy,
}

/// One call into the native device that creates or destroys an object, in
/// the order the device received them.
#[derive(Debug, Clone, Copy, PartialEq, Eq, Structural)]
pub enum NativeCall {
    CreateBuffer(usize),
    CreateImage(usize),
    AllocateMemory(usize),
    BindBuffer(usize),
    BindImage(usize),
    MapMemory(usize),
    UnmapMemory(usize),
    BeginTransfer,
    SubmitTransfer,
    CreateDescriptorPool(usize),
    DestroyBuffer(usize),
    DestroyImage(usize),
    DestroyDescriptorPool(usize),
    FreeMemory(usize),
}

/// A buffer object the device created: its declared size and usage, whether
/// it is still alive, and where it is bound.
pub struct BufferObj {
    pub size: vkbytes,
    pub usage: vkuint,
    pub live: bool,
    /// The memory block and byte offset the buffer is bound to.
    pub bound: Option<(usize, vkbytes)>,
}

/// An image object the device created.
pub struct ImageObj {
    pub extent: Dimension3D,
    pub format: Format,
    pub usage: vkuint,
    /// The bytes the image occupies: extent volume times bytes per pixel.
    pub byte_size: vkbytes,
    pub live: bool,
    pub bound: Option<(usize, vkbytes)>,
    /// The layout the image is in now.
    pub layout: ImageLayout,
    /// Every barrier and copy the image has been through, in order.
    pub events: Vec<ImageEvent>,
}

/// One native memory allocation: its size, the memory type it came from,
/// whether it is alive and mapped, and its bytes.
pub struct MemoryObj {
    pub size: vkbytes,
    pub type_index: usize,
    pub property_flags: vkuint,
    pub live: bool,
    pub mapped: bool,
    pub data: Vec<u8>,
}

/// A descriptor pool object.
pub struct DescriptorPoolObj {
    pub max_sets: vkuint,
    pub live: bool,
}

/// A descriptor set object and the pool it was allocated from.
pub struct DescriptorSetObj {
    pub pool: usize,
}

/// The bytes an image's extent spans in the given format.
pub open spec fn spec_image_byte_size(extent: Dimension3D, format: Format) -> int {
    extent.width * extent.height * extent.depth * format.spec_bytes_per_pixel()
}

/// `dst` with the range starting at `offset` replaced by `src`.
pub open spec fn spec_overwrite(dst: Seq<u8>, offset: int, src: Seq<u8>) -> Seq<u8>
    recommends
        0 <= offset,
        offset + src.len() <= dst.len(),
{
    dst.subrange(0, offset) + src + dst.subrange(offset + src.len(), dst.len() as int)
}

/// Reading back the overwritten range yields exactly what was written.
pub proof fn lemma_overwrite_reads_back(dst: Seq<u8>, offset: int, src: Seq<u8>)
    requires
        0 <= offset,
        offset + src.len() <= dst.len(),
    ensures
        spec_overwrite(dst, offset, src).len() == dst.len(),
        spec_overwrite(dst, offset, src).subrange(offset, offset + src.len()) == src,
{
    assert(spec_overwrite(dst, offset, src).subrange(offset, offset + src.len()) =~= src);
}

/// Outside the overwritten range the bytes are untouched.
pub proof fn lemma_overwrite_elsewhere(dst: Seq<u8>, offset: int, src: Seq<u8>, lo: int, hi: int)
    requires
        0 <= offset,
        offset + src.len() <= dst.len(),
        0 <= lo <= hi <= dst.len(),
        hi <= offset || offset + src.len() <= lo,
    ensures
        spec_overwrite(dst, offset, src).subrange(lo, hi) == dst.subrange(lo, hi),
{
    assert(spec_overwrite(dst, offset, src).subrange(lo, hi) =~= dst.subrange(lo, hi));
}

/// The device model this subsystem allocates from: it hands out buffer,
/// image, memory and pool objects by index, keeps each memory block's bytes,
/// tracks image layouts and transfer events, and records every lifecycle
/// call in order.
pub struct GsDevice {
    pub limits: PhysicalLimits,
    /// The property flags of each available memory type, by index.
    pub memory_types: Vec<vkuint>,
    /// Which memory types buffers accept, one bit per type index.
    pub buffer_type_bits: vkuint,
    /// Which memory types images accept, one bit per type index.
    pub image_type_bits: vkuint,
    /// The largest single memory allocation the device grants.
    pub allocation_capacity: vkbytes,
    pub buffers: Vec<BufferObj>,
    pub images: Vec<ImageObj>,
    pub memories: Vec<MemoryObj>,
    pub pools: Vec<DescriptorPoolObj>,
    pub sets: Vec<DescriptorSetObj>,
    /// Whether a one-shot transfer command stream is being recorded.
    pub recording: bool,
    pub calls: Vec<NativeCall>,
}

impl GsDevice {
    /// Whether a bound region of `len` bytes at `bound` lies inside a memory
    /// block of this device.
    pub open spec fn bound_in_range(self, bound: Option<(usize, vkbytes)>, len: vkbytes) -> bool {
        bound matches Some((m, off)) ==> {
            &&& m < self.memories@.len()
            &&& off + len <= self.memories@[m as int].size
        }
    }

    pub open spec fn wf(self) -> bool {
        &&& self.limits.wf()
        &&& self.memory_types@.len() <= 32
        &&& self.allocation_capacity + self.limits.buffer_alignment <= vkbytes::MAX
        &&& self.allocation_capacity + self.limits.image_alignment <= vkbytes::MAX
        &&& forall|i: int| 0 <= i < self.memories@.len() ==> (#[trigger] self.memories@[i]).size
            <= self.allocation_capacity
        &&& forall|i: int| 0 <= i < self.memories@.len() ==> {
            &&& (#[trigger] self.memories@[i]).data@.len() == self.memories@[i].size
            &&& self.memories@[i].type_index < self.memory_types@.len()
        }
        &&& forall|i: int| 0 <= i < self.buffers@.len() ==> self.bound_in_range(
            (#[trigger] self.buffers@[i]).bound,
            self.buffers@[i].size,
        )
        &&& forall|i: int| 0 <= i < self.images@.len() ==> self.bound_in_range(
            (#[trigger] self.images@[i]).bound,
            self.images@[i].byte_size,
        )
        &&& forall|i: int| 0 <= i < self.sets@.len() ==> (#[trigger] self.sets@[i]).pool
            < self.pools@.len()
    }

    /// The indices of the memory blocks that are currently allocated and
    /// not yet freed.
    pub open spec fn spec_live_memory_ids(self) -> Set<int> {
        Set::new(
            |i: int| 0 <= i < self.memories@.len() && self.memories@[i].live,
        )
    }

    /// Whether the device's static configuration is unchanged.
    pub open spec fn same_config(self, o: GsDevice) -> bool {
        &&& self.limits == o.limits
        &&& self.memory_types@ == o.memory_types@
        &&& self.buffer_type_bits == o.buffer_type_bits
        &&& self.image_type_bits == o.image_type_bits
        &&& self.allocation_capacity == o.allocation_capacity
    }

    /// A fresh device with the given configuration and no objects.
    pub fn new(
        limits: PhysicalLimits,
        memory_types: Vec<vkuint>,
        buffer_type_bits: vkuint,
        image_type_bits: vkuint,
        allocation_capacity: vkbytes,
    ) -> (r: GsDevice)
        requires
            limits.wf(),
            memory_types@.len() <= 32,
            allocation_capacity + limits.buffer_alignment <= vkbytes::MAX,
            allocation_capacity + limits.image_alignment <= vkbytes::MAX,
        ensures
            r.wf(),
            r.limits == limits,
            r.memory_types@ == memory_types@,
            r.buffer_type_bits == buffer_type_bits,
            r.image_type_bits == image_type_bits,
            r.allocation_capacity == allocation_capacity,
            r.buffers@.len() == 0,
            r.images@.len() == 0,
            r.memories@.len() == 0,
            r.pools@.len() == 0,
            r.sets@.len() == 0,
            r.recording == false,
            r.calls@.len() == 0,
    {
        GsDevice {
            limits,
            memory_types,
            buffer_type_bits,
            image_type_bits,
            allocation_capacity,
            buffers: Vec::new(),
            images: Vec::new(),
            memories: Vec::new(),
            pools: Vec::new(),
            sets: Vec::new(),
            recording: false,
            calls: Vec::new(),
        }
    }

    /// Create an unbound buffer object. The device rejects a zero-sized
    /// buffer; any other request succeeds and returns the new buffer's index.
    pub fn create_buffer(&mut self, size: vkbytes, usage: vkuint) -> (r: Result<
        usize,
        AllocatorError,
    >)
        requires
            old(self).wf(),
        ensures
            final(self).wf(),
            final(self).same_config(*old(self)),
            final(self).images@ == old(self).images@,
            final(self).memories@ == old(self).memories@,
            final(self).pools@ == old(self).pools@,
            final(self).sets@ == old(self).sets@,
            final(self).recording == old(self).recording,
            size == 0 ==> r == Result::<usize, AllocatorError>::Err(
                AllocatorError::NativeCreation(ObjectKind::Buffer),
            ) && final(self).buffers@ == old(self).buffers@ && final(self).calls@ == old(
                self,
            ).calls@,
            size > 0 ==> {
                &&& (r matches Ok(id) && id == old(self).buffers@.len())
                &&& final(self).buffers@ == old(self).buffers@.push(
                    BufferObj { size, usage, live: true, bound: None },
                )
                &&& final(self).calls@ == old(self).calls@.push(
                    NativeCall::CreateBuffer(old(self).buffers@.len() as usize),
                )
            },
    {
        if size == 0 {
            return Err(AllocatorError::NativeCreation(ObjectKind::Buffer));
        }
        let id = self.buffers.len();
        self.buffers.push(BufferObj { size, usage, live: true, bound: None });
        self.calls.push(NativeCall::CreateBuffer(id));
        Ok(id)
    }

    /// What the created buffer needs from memory. The model reports the
    /// buffer's own size, the device-wide buffer alignment, and the
    /// device-wide buffer memory type mask.
    pub open spec fn spec_buffer_requirements(self, id: int) -> MemoryRequirements {
        MemoryRequirements {
            size: self.buffers@[id].size,
            alignment: self.limits.buffer_alignment,
            memory_type_bits: self.buffer_type_bits,
        }
    }

    pub fn buffer_requirements(&self, id: usize) -> (r: MemoryRequirements)
        requires
            id < self.buffers@.len(),
        ensures
            r == self.spec_buffer_requirements(id as int),
    {
        MemoryRequirements {
            size: self.buffers[id].size,
            alignment: self.limits.buffer_alignment,
            memory_type_bits: self.buffer_type_bits,
        }
    }

    /// Create an unbound image object in its initial layout. The device
    /// rejects an image with no bytes (an empty extent or an undefined
    /// format); any other request succeeds and returns the image's index.
    pub fn create_image(
        &mut self,
        extent: Dimension3D,
        format: Format,
        usage: vkuint,
        initial_layout: ImageLayout,
    ) -> (r: Result<usize, AllocatorError>)
        requires
            old(self).wf(),
            spec_image_byte_size(extent, format) <= vkbytes::MAX,
        ensures
            final(self).wf(),
            final(self).same_config(*old(self)),
            final(self).buffers@ == old(self).buffers@,
            final(self).memories@ == old(self).memories@,
            final(self).pools@ == old(self).pools@,
            final(self).sets@ == old(self).sets@,
            final(self).recording == old(self).recording,
            spec_image_byte_size(extent, format) == 0 ==> r == Result::<
                usize,
                AllocatorError,
            >::Err(AllocatorError::NativeCreation(ObjectKind::Image)) && final(self).images@ == old(
                self,
            ).images@ && final(self).calls@ == old(self).calls@,
            spec_image_byte_size(extent, format) > 0 ==> {
                let img = final(self).images@[old(self).images@.len() as int];
                &&& (r matches Ok(id) && id == old(self).images@.len())
                &&& final(self).images@.len() == old(self).images@.len() + 1
                &&& forall|j: int| 0 <= j < old(self).images@.len() ==> final(self).images@[j]
                    == old(self).images@[j]
                &&& img.extent == extent
                &&& img.format == format
                &&& img.usage == usage
                &&& img.byte_size == spec_image_byte_size(extent, format)
                &&& img.live == true
                &&& img.bound is None
                &&& img.layout == initial_layout
                &&& img.events@ == Seq::<ImageEvent>::empty()
                &&& final(self).calls@ == old(self).calls@.push(
                    NativeCall::CreateImage(old(self).images@.len() as usize),
                )
            },
    {
        let bpp = format.bytes_per_pixel();
        if extent.width == 0 || extent.height == 0 || extent.depth == 0 || bpp == 0 {
            proof {
                let w = extent.width as int;
                let h = extent.height as int;
                let d = extent.depth as int;
                let b = bpp as int;
                assert(w * h * d * b == 0) by (nonlinear_arith)
                    requires
                        w == 0 || h == 0 || d == 0 || b == 0,
                ;
            }
            return Err(AllocatorError::NativeCreation(ObjectKind::Image));
        }
        proof {
            let w = extent.width as int;
            let h = extent.height as int;
            let d = extent.depth as int;
            let b = bpp as int;
            assert(w * h <= w * h * d * b && w * h * d <= w * h * d * b && 1 <= w * h * d
                * b) by (nonlinear_arith)
                requires
                    w >= 1,
                    h >= 1,
                    d >= 1,
                    b >= 1,
            ;
        }
        let byte_size = (((extent.width as usize) * (extent.height as usize)) * (
        extent.depth as usize)) * bpp;
        let id = self.images.len();
        self.images.push(
            ImageObj {
                extent,
                format,
                usage,
                byte_size,
                live: true,
                bound: None,
                layout: initial_layout,
                events: Vec::new(),
            },
        );
        self.calls.push(NativeCall::CreateImage(id));
        Ok(id)
    }

    /// What the created image needs from memory.
    pub open spec fn spec_image_requirements(self, id: int) -> MemoryRequirements {
        MemoryRequirements {
            size: self.images@[id].byte_size,
            alignment: self.limits.image_alignment,
            memory_type_bits: self.image_type_bits,
        }
    }

    pub fn image_requirements(&self, id: usize) -> (r: MemoryRequirements)
        requires
            id < self.images@.len(),
        ensures
            r == self.spec_image_requirements(id as int),
    {
        MemoryRequirements {
            size: self.images[id].byte_size,
            alignment: self.limits.image_alignment,
            memory_type_bits: self.image_type_bits,
        }
    }
}


/// A vector of `n` zero bytes, the content of freshly allocated memory.
pub fn zero_bytes(n: vkbytes) -> (r: Vec<u8>)
    ensures
        r@.len() == n,
        forall|i: int| 0 <= i < n ==> r@[i] == 0u8,
{
    let mut v: Vec<u8> = Vec::new();
    let mut k: vkbytes = 0;
    while k < n
        invariant
            k <= n,
            v@.len() == k,
            forall|i: int| 0 <= i < k ==> v@[i] == 0u8,
        decreases n - k,
    {
        v.push(0u8);
        k = k + 1;
    }
    v
}

/// Copy `src` over `dst` starting at `offset`.
pub fn write_bytes(dst: &mut Vec<u8>, offset: vkbytes, src: &Vec<u8>)
    requires
        offset + src@.len() <= old(dst)@.len(),
    ensures
        final(dst)@ == spec_overwrite(old(dst)@, offset as int, src@),
{
    let n = src.len();
    let dst_len = dst.len();
    let mut k: vkbytes = 0;
    while k < n
        invariant
            k <= n,
            n == src@.len(),
            dst_len == dst@.len(),
            offset + n <= dst_len,
            dst@.len() == old(dst)@.len(),
            forall|i: int| 0 <= i < k ==> dst@[offset + i] == src@[i],
            forall|i: int| 0 <= i < dst@.len() && !(offset <= i < offset + k) ==> dst@[i] == old(
                dst,
            )@[i],
        decreases n - k,
    {
        let b = src[k];
        dst[offset + k] = b;
        k = k + 1;
    }
    proof {
        assert(dst@ =~= spec_overwrite(old(dst)@, offset as int, src@));
    }
}

impl GsDevice {
    /// Allocate one memory block of `size` bytes from the memory type at
    /// `type_index`, zero-filled and unmapped. The device rejects an empty
    /// allocation, one beyond its capacity, and an unknown memory type;
    /// every other request succeeds with the new block's index.
    pub fn allocate_memory(&mut self, size: vkbytes, type_index: usize) -> (r: Result<
        usize,
        AllocatorError,
    >)
        requires
            old(self).wf(),
        ensures
            final(self).wf(),
            final(self).same_config(*old(self)),
            final(self).buffers@ == old(self).buffers@,
            final(self).images@ == old(self).images@,
            final(self).pools@ == old(self).pools@,
            final(self).sets@ == old(self).sets@,
            final(self).recording == old(self).recording,
            (size == 0 || size > old(self).allocation_capacity || type_index >= old(
                self,
            ).memory_types@.len()) ==> {
                &&& r == Result::<usize, AllocatorError>::Err(
                    AllocatorError::NativeCreation(ObjectKind::Memory),
                )
                &&& final(self).memories@ == old(self).memories@
                &&& final(self).calls@ == old(self).calls@
            },
            (0 < size && size <= old(self).allocation_capacity && type_index < old(
                self,
            ).memory_types@.len()) ==> {
                let m = final(self).memories@[old(self).memories@.len() as int];
                &&& (r matches Ok(id) && id == old(self).memories@.len())
                &&& final(self).memories@.len() == old(self).memories@.len() + 1
                &&& forall|j: int| 0 <= j < old(self).memories@.len() ==> final(self).memories@[j]
                    == old(self).memories@[j]
                &&& m.size == size
                &&& m.type_index == type_index
                &&& m.property_flags == old(self).memory_types@[type_index as int]
                &&& m.live == true
                &&& m.mapped == false
                &&& m.data@.len() == size
                &&& forall|i: int| 0 <= i < size ==> m.data@[i] == 0u8
                &&& final(self).calls@ == old(self).calls@.push(
                    NativeCall::AllocateMemory(old(self).memories@.len() as usize),
                )
            },
    {
        if size == 0 || size > self.allocation_capacity || type_index >= self.memory_types.len() {
            return Err(AllocatorError::NativeCreation(ObjectKind::Memory));
        }
        let id = self.memories.len();
        let flags = self.memory_types[type_index];
        self.memories.push(
            MemoryObj {
                size,
                type_index,
                property_flags: flags,
                live: true,
                mapped: false,
                data: zero_bytes(size),
            },
        );
        self.calls.push(NativeCall::AllocateMemory(id));
        Ok(id)
    }

    /// Bind a live, unbound buffer to a region of a live memory block. The
    /// underlying interface forbids rebinding and out-of-range regions, so
    /// those are demanded of the caller rather than reported back.
    pub fn bind_buffer(&mut self, buf: usize, mem: usize, offset: vkbytes)
        requires
            old(self).wf(),
            buf < old(self).buffers@.len(),
            old(self).buffers@[buf as int].live,
            old(self).buffers@[buf as int].bound is None,
            mem < old(self).memories@.len(),
            old(self).memories@[mem as int].live,
            offset + old(self).buffers@[buf as int].size <= old(self).memories@[mem as int].size,
        ensures
            final(self).wf(),
            final(self).same_config(*old(self)),
            final(self).images@ == old(self).images@,
            final(self).memories@ == old(self).memories@,
            final(self).pools@ == old(self).pools@,
            final(self).sets@ == old(self).sets@,
            final(self).recording == old(self).recording,
            final(self).buffers@ == old(self).buffers@.update(
                buf as int,
                BufferObj {
                    size: old(self).buffers@[buf as int].size,
                    usage: old(self).buffers@[buf as int].usage,
                    live: true,
                    bound: Some((mem, offset)),
                },
            ),
            final(self).calls@ == old(self).calls@.push(NativeCall::BindBuffer(buf)),
    {
        let size = self.buffers[buf].size;
        let usage = self.buffers[buf].usage;
        self.buffers[buf] = BufferObj { size, usage, live: true, bound: Some((mem, offset)) };
        self.calls.push(NativeCall::BindBuffer(buf));
    }

    /// Bind a live, unbound image to a region of a live memory block.
    pub fn bind_image(&mut self, img: usize, mem: usize, offset: vkbytes)
        requires
            old(self).wf(),
            img < old(self).images@.len(),
            old(self).images@[img as int].live,
            old(self).images@[img as int].bound is None,
            mem < old(self).memories@.len(),
            old(self).memories@[mem as int].live,
            offset + old(self).images@[img as int].byte_size <= old(self).memories@[mem
                as int].size,
        ensures
            final(self).wf(),
            final(self).same_config(*old(self)),
            final(self).buffers@ == old(self).buffers@,
            final(self).memories@ == old(self).memories@,
            final(self).pools@ == old(self).pools@,
            final(self).sets@ == old(self).sets@,
            final(self).recording == old(self).recording,
            final(self).images@.len() == old(self).images@.len(),
            forall|j: int| 0 <= j < old(self).images@.len() && j != img ==> final(self).images@[j]
                == old(self).images@[j],
            final(self).images@[img as int] == (ImageObj {
                bound: Some((mem, offset)),
                ..old(self).images@[img as int]
            }),
            final(self).calls@ == old(self).calls@.push(NativeCall::BindImage(img)),
    {
        self.images[img].bound = Some((mem, offset));
        self.calls.push(NativeCall::BindImage(img));
    }

    /// Map a live block of host-visible memory. Mapping an already mapped
    /// block leaves it mapped.
    pub fn map_memory(&mut self, mem: usize)
        requires
            old(self).wf(),
            mem < old(self).memories@.len(),
            old(self).memories@[mem as int].live,
            spec_contains_flags(
                old(self).memories@[mem as int].property_flags,
                MEMORY_PROPERTY_HOST_VISIBLE,
            ),
        ensures
            final(self).wf(),
            final(self).same_config(*old(self)),
            final(self).buffers@ == old(self).buffers@,
            final(self).images@ == old(self).images@,
            final(self).pools@ == old(self).pools@,
            final(self).sets@ == old(self).sets@,
            final(self).recording == old(self).recording,
            final(self).memories@ == old(self).memories@.update(
                mem as int,
                MemoryObj { mapped: true, ..old(self).memories@[mem as int] },
            ),
            final(self).calls@ == old(self).calls@.push(NativeCall::MapMemory(mem)),
    {
        self.memories[mem].mapped = true;
        self.calls.push(NativeCall::MapMemory(mem));
        proof {
            assert(final(self).memories@ =~= old(self).memories@.update(
                mem as int,
                MemoryObj { mapped: true, ..old(self).memories@[mem as int] },
            ));
        }
    }

    /// Unmap a live block of memory.
    pub fn unmap_memory(&mut self, mem: usize)
        requires
            old(self).wf(),
            mem < old(self).memories@.len(),
            old(self).memories@[mem as int].live,
        ensures
            final(self).wf(),
            final(self).same_config(*old(self)),
            final(self).buffers@ == old(self).buffers@,
            final(self).images@ == old(self).images@,
            final(self).pools@ == old(self).pools@,
            final(self).sets@ == old(self).sets@,
            final(self).recording == old(self).recording,
            final(self).memories@ == old(self).memories@.update(
                mem as int,
                MemoryObj { mapped: false, ..old(self).memories@[mem as int] },
            ),
            final(self).calls@ == old(self).calls@.push(NativeCall::UnmapMemory(mem)),
    {
        self.memories[mem].mapped = false;
        self.calls.push(NativeCall::UnmapMemory(mem));
        proof {
            assert(final(self).memories@ =~= old(self).memories@.update(
                mem as int,
                MemoryObj { mapped: false, ..old(self).memories@[mem as int] },
            ));
        }
    }

    /// Write `bytes` into a mapped memory block at `offset`, as the host
    /// does through a mapped pointer.
    pub fn write_mapped(&mut self, mem: usize, offset: vkbytes, bytes: &Vec<u8>)
        requires
            old(self).wf(),
            mem < old(self).memories@.len(),
            old(self).memories@[mem as int].live,
            old(self).memories@[mem as int].mapped,
            offset + bytes@.len() <= old(self).memories@[mem as int].size,
        ensures
            final(self).wf(),
            final(self).same_config(*old(self)),
            final(self).buffers@ == old(self).buffers@,
            final(self).images@ == old(self).images@,
            final(self).pools@ == old(self).pools@,
            final(self).sets@ == old(self).sets@,
            final(self).recording == old(self).recording,
            final(self).calls@ == old(self).calls@,
            final(self).memories@.len() == old(self).memories@.len(),
            forall|j: int| 0 <= j < old(self).memories@.len() && j != mem ==> final(self).memories@[j] == old(self).memories@[j],
            final(self).memories@[mem as int] == (MemoryObj {
                data: final(self).memories@[mem as int].data,
                ..old(self).memories@[mem as int]
            }),
            final(self).memories@[mem as int].data@ == spec_overwrite(
                old(self).memories@[mem as int].data@,
                offset as int,
                bytes@,
            ),
    {
        let m = &mut self.memories[mem];
        write_bytes(&mut m.data, offset, bytes);
    }

    /// Read `len` bytes back from a mapped memory block at `offset`.
    pub fn read_mapped(&self, mem: usize, offset: vkbytes, len: vkbytes) -> (r: Vec<u8>)
        requires
            self.wf(),
            mem < self.memories@.len(),
            self.memories@[mem as int].live,
            self.memories@[mem as int].mapped,
            offset + len <= self.memories@[mem as int].size,
        ensures
            r@ == self.memories@[mem as int].data@.subrange(offset as int, offset + len),
    {
        let m = &self.memories[mem];
        let m_len = m.data.len();
        let mut v: Vec<u8> = Vec::new();
        let mut k: vkbytes = 0;
        while k < len
            invariant
                k <= len,
                m_len == m.data@.len(),
                offset + len <= m_len,
                m.data@ == self.memories@[mem as int].data@,
                v@.len() == k,
                forall|i: int| 0 <= i < k ==> v@[i] == m.data@[offset + i],
            decreases len - k,
        {
            let b = m.data[offset + k];
            v.push(b);
            k = k + 1;
        }
        proof {
            assert(v@ =~= self.memories@[mem as int].data@.subrange(offset as int, offset + len));
        }
        v
    }
}


impl GsDevice {
    /// Whether some live buffer or image is still bound into memory block
    /// `mem`. The native interface forbids freeing such a block.
    pub open spec fn spec_has_live_binding(self, mem: int) -> bool {
        ||| exists|i: int|
            0 <= i < self.buffers@.len() && (#[trigger] self.buffers@[i]).live
                && (self.buffers@[i].bound matches Some((m, _)) && m == mem)
        ||| exists|i: int|
            0 <= i < self.images@.len() && (#[trigger] self.images@[i]).live
                && (self.images@[i].bound matches Some((m, _)) && m == mem)
    }

    /// Open the one-shot transfer command stream.
    pub fn begin_transfer(&mut self)
        requires
            old(self).wf(),
            !old(self).recording,
        ensures
            final(self).wf(),
            final(self).same_config(*old(self)),
            final(self).buffers@ == old(self).buffers@,
            final(self).images@ == old(self).images@,
            final(self).memories@ == old(self).memories@,
            final(self).pools@ == old(self).pools@,
            final(self).sets@ == old(self).sets@,
            final(self).recording == true,
            final(self).calls@ == old(self).calls@.push(NativeCall::BeginTransfer),
    {
        self.recording = true;
        self.calls.push(NativeCall::BeginTransfer);
    }

    /// Submit the one-shot transfer command stream and block until the
    /// device has executed it.
    pub fn submit_transfer(&mut self)
        requires
            old(self).wf(),
            old(self).recording,
        ensures
            final(self).wf(),
            final(self).same_config(*old(self)),
            final(self).buffers@ == old(self).buffers@,
            final(self).images@ == old(self).images@,
            final(self).memories@ == old(self).memories@,
            final(self).pools@ == old(self).pools@,
            final(self).sets@ == old(self).sets@,
            final(self).recording == false,
            final(self).calls@ == old(self).calls@.push(NativeCall::SubmitTransfer),
    {
        self.recording = false;
        self.calls.push(NativeCall::SubmitTransfer);
    }

    /// Record a layout barrier for a live image. The barrier's source layout
    /// must be the layout the image is actually in, so a verified caller can
    /// never record a mismatched transition.
    pub fn cmd_image_barrier(&mut self, img: usize, from: ImageLayout, to: ImageLayout)
        requires
            old(self).wf(),
            old(self).recording,
            img < old(self).images@.len(),
            old(self).images@[img as int].live,
            old(self).images@[img as int].layout == from,
        ensures
            final(self).wf(),
            final(self).same_config(*old(self)),
            final(self).buffers@ == old(self).buffers@,
            final(self).memories@ == old(self).memories@,
            final(self).pools@ == old(self).pools@,
            final(self).sets@ == old(self).sets@,
            final(self).recording == old(self).recording,
            final(self).calls@ == old(self).calls@,
            final(self).images@.len() == old(self).images@.len(),
            forall|j: int| 0 <= j < old(self).images@.len() && j != img ==> final(self).images@[j]
                == old(self).images@[j],
            ({
                let before = old(self).images@[img as int];
                let after = final(self).images@[img as int];
                &&& after.extent == before.extent
                &&& after.format == before.format
                &&& after.usage == before.usage
                &&& after.byte_size == before.byte_size
                &&& after.live == before.live
                &&& after.bound == before.bound
                &&& after.layout == to
                &&& after.events@ == before.events@.push(ImageEvent::Barrier { from, to })
            }),
    {
        self.images[img].layout = to;
        self.images[img].events.push(ImageEvent::Barrier { from, to });
    }

    /// Record a copy of `size` bytes between bound regions of two live
    /// buffers; the source must carry transfer-source usage and the
    /// destination transfer-destination usage.
    pub fn cmd_copy_buffer_to_buffer(
        &mut self,
        src: usize,
        src_offset: vkbytes,
        dst: usize,
        dst_offset: vkbytes,
        size: vkbytes,
    )
        requires
            old(self).wf(),
            old(self).recording,
            src < old(self).buffers@.len(),
            dst < old(self).buffers@.len(),
            old(self).buffers@[src as int].live,
            old(self).buffers@[dst as int].live,
            old(self).buffers@[src as int].bound is Some,
            old(self).buffers@[dst as int].bound is Some,
            src_offset + size <= old(self).buffers@[src as int].size,
            dst_offset + size <= old(self).buffers@[dst as int].size,
            spec_contains_flags(old(self).buffers@[src as int].usage, BUFFER_USAGE_TRANSFER_SRC),
            spec_contains_flags(old(self).buffers@[dst as int].usage, BUFFER_USAGE_TRANSFER_DST),
            old(self).memories@[old(self).buffers@[src as int].bound->Some_0.0 as int].live,
            old(self).memories@[old(self).buffers@[dst as int].bound->Some_0.0 as int].live,
        ensures
            final(self).wf(),
            final(self).same_config(*old(self)),
            final(self).buffers@ == old(self).buffers@,
            final(self).images@ == old(self).images@,
            final(self).pools@ == old(self).pools@,
            final(self).sets@ == old(self).sets@,
            final(self).recording == old(self).recording,
            final(self).calls@ == old(self).calls@,
            final(self).memories@.len() == old(self).memories@.len(),
            ({
                let (sm, soff) = old(self).buffers@[src as int].bound->Some_0;
                let (dm, doff) = old(self).buffers@[dst as int].bound->Some_0;
                let moved = old(self).memories@[sm as int].data@.subrange(
                    soff + src_offset,
                    soff + src_offset + size,
                );
                &&& forall|j: int| 0 <= j < old(self).memories@.len() && j != dm ==> final(self).memories@[j] == old(self).memories@[j]
                &&& final(self).memories@[dm as int] == (MemoryObj {
                    data: final(self).memories@[dm as int].data,
                    ..old(self).memories@[dm as int]
                })
                &&& final(self).memories@[dm as int].data@ == spec_overwrite(
                    old(self).memories@[dm as int].data@,
                    doff + dst_offset,
                    moved,
                )
            }),
    {
        let (sm, soff) = self.buffers[src].bound.unwrap();
        let (dm, doff) = self.buffers[dst].bound.unwrap();
        let moved = copy_out(&self.memories[sm].data, soff + src_offset, size);
        let m = &mut self.memories[dm];
        write_bytes(&mut m.data, doff + dst_offset, &moved);
    }

    /// Record a copy of a whole image's bytes out of a live buffer into the
    /// image's bound region. The image must stand in the transfer
    /// destination layout when the copy executes.
    pub fn cmd_copy_buffer_to_image(&mut self, src: usize, img: usize)
        requires
            old(self).wf(),
            old(self).recording,
            src < old(self).buffers@.len(),
            img < old(self).images@.len(),
            old(self).buffers@[src as int].live,
            old(self).images@[img as int].live,
            old(self).buffers@[src as int].bound is Some,
            old(self).images@[img as int].bound is Some,
            old(self).images@[img as int].byte_size <= old(self).buffers@[src as int].size,
            old(self).images@[img as int].layout == ImageLayout::TransferDstOptimal,
            spec_contains_flags(old(self).buffers@[src as int].usage, BUFFER_USAGE_TRANSFER_SRC),
            spec_contains_flags(old(self).images@[img as int].usage, IMAGE_USAGE_TRANSFER_DST),
            old(self).memories@[old(self).buffers@[src as int].bound->Some_0.0 as int].live,
            old(self).memories@[old(self).images@[img as int].bound->Some_0.0 as int].live,
        ensures
            final(self).wf(),
            final(self).same_config(*old(self)),
            final(self).buffers@ == old(self).buffers@,
            final(self).pools@ == old(self).pools@,
            final(self).sets@ == old(self).sets@,
            final(self).recording == old(self).recording,
            final(self).calls@ == old(self).calls@,
            final(self).memories@.len() == old(self).memories@.len(),
            final(self).images@.len() == old(self).images@.len(),
            forall|j: int| 0 <= j < old(self).images@.len() && j != img ==> final(self).images@[j]
                == old(self).images@[j],
            ({
                let before = old(self).images@[img as int];
                let after = final(self).images@[img as int];
                &&& after.extent == before.extent
                &&& after.format == before.format
                &&& after.usage == before.usage
                &&& after.byte_size == before.byte_size
                &&& after.live == before.live
                &&& after.bound == before.bound
                &&& after.layout == before.layout
                &&& after.events@ == before.events@.push(ImageEvent::Copy)
            }),
            ({
                let (sm, soff) = old(self).buffers@[src as int].bound->Some_0;
                let (dm, doff) = old(self).images@[img as int].bound->Some_0;
                let moved = old(self).memories@[sm as int].data@.subrange(
                    soff as int,
                    soff + old(self).images@[img as int].byte_size,
                );
                &&& forall|j: int| 0 <= j < old(self).memories@.len() && j != dm ==> final(self).memories@[j] == old(self).memories@[j]
                &&& final(self).memories@[dm as int] == (MemoryObj {
                    data: final(self).memories@[dm as int].data,
                    ..old(self).memories@[dm as int]
                })
                &&& final(self).memories@[dm as int].data@ == spec_overwrite(
                    old(self).memories@[dm as int].data@,
                    doff as int,
                    moved,
                )
            }),
    {
        let (sm, soff) = self.buffers[src].bound.unwrap();
        let (dm, doff) = self.images[img].bound.unwrap();
        let size = self.images[img].byte_size;
        let moved = copy_out(&self.memories[sm].data, soff, size);
        let m = &mut self.memories[dm];
        write_bytes(&mut m.data, doff, &moved);
        self.images[img].events.push(ImageEvent::Copy);
    }

    /// Destroy a live buffer object.
    pub fn destroy_buffer(&mut self, buf: usize)
        requires
            old(self).wf(),
            buf < old(self).buffers@.len(),
            old(self).buffers@[buf as int].live,
        ensures
            final(self).wf(),
            final(self).same_config(*old(self)),
            final(self).images@ == old(self).images@,
            final(self).memories@ == old(self).memories@,
            final(self).pools@ == old(self).pools@,
            final(self).sets@ == old(self).sets@,
            final(self).recording == old(self).recording,
            final(self).buffers@ == old(self).buffers@.update(
                buf as int,
                (BufferObj { live: false, ..old(self).buffers@[buf as int] }),
            ),
            final(self).calls@ == old(self).calls@.push(NativeCall::DestroyBuffer(buf)),
    {
        self.buffers[buf].live = false;
        self.calls.push(NativeCall::DestroyBuffer(buf));
        proof {
            assert(final(self).buffers@ =~= old(self).buffers@.update(
                buf as int,
                (BufferObj { live: false, ..old(self).buffers@[buf as int] }),
            ));
        }
    }

    /// Destroy a live image object.
    pub fn destroy_image(&mut self, img: usize)
        requires
            old(self).wf(),
            img < old(self).images@.len(),
            old(self).images@[img as int].live,
        ensures
            final(self).wf(),
            final(self).same_config(*old(self)),
            final(self).buffers@ == old(self).buffers@,
            final(self).memories@ == old(self).memories@,
            final(self).pools@ == old(self).pools@,
            final(self).sets@ == old(self).sets@,
            final(self).recording == old(self).recording,
            final(self).images@.len() == old(self).images@.len(),
            forall|j: int| 0 <= j < old(self).images@.len() && j != img ==> final(self).images@[j]
                == old(self).images@[j],
            final(self).images@[img as int] == (ImageObj {
                live: false,
                ..old(self).images@[img as int]
            }),
            final(self).calls@ == old(self).calls@.push(NativeCall::DestroyImage(img)),
    {
        self.images[img].live = false;
        self.calls.push(NativeCall::DestroyImage(img));
    }

    /// Free a live memory block. The native interface forbids freeing
    /// memory that still has a live resource bound into it, so resource
    /// objects must be destroyed first.
    pub fn free_memory(&mut self, mem: usize)
        requires
            old(self).wf(),
            mem < old(self).memories@.len(),
            old(self).memories@[mem as int].live,
            !old(self).spec_has_live_binding(mem as int),
        ensures
            final(self).wf(),
            final(self).same_config(*old(self)),
            final(self).buffers@ == old(self).buffers@,
            final(self).images@ == old(self).images@,
            final(self).pools@ == old(self).pools@,
            final(self).sets@ == old(self).sets@,
            final(self).recording == old(self).recording,
            final(self).memories@.len() == old(self).memories@.len(),
            forall|j: int| 0 <= j < old(self).memories@.len() && j != mem ==> final(self).memories@[j] == old(self).memories@[j],
            final(self).memories@[mem as int] == (MemoryObj {
                live: false,
                mapped: false,
                ..old(self).memories@[mem as int]
            }),
            final(self).calls@ == old(self).calls@.push(NativeCall::FreeMemory(mem)),
    {
        self.memories[mem].live = false;
        self.memories[mem].mapped = false;
        self.calls.push(NativeCall::FreeMemory(mem));
    }

    /// Create a descriptor pool sized for `max_sets` sets. The device
    /// rejects a pool with room for no set at all.
    pub fn create_descriptor_pool(&mut self, max_sets: vkuint) -> (r: Result<
        usize,
        AllocatorError,
    >)
        requires
            old(self).wf(),
        ensures
            final(self).wf(),
            final(self).same_config(*old(self)),
            final(self).buffers@ == old(self).buffers@,
            final(self).images@ == old(self).images@,
            final(self).memories@ == old(self).memories@,
            final(self).sets@ == old(self).sets@,
            final(self).recording == old(self).recording,
            max_sets == 0 ==> r == Result::<usize, AllocatorError>::Err(
                AllocatorError::NativeCreation(ObjectKind::DescriptorPool),
            ) && final(self).pools@ == old(self).pools@ && final(self).calls@ == old(self).calls@,
            max_sets > 0 ==> {
                &&& (r matches Ok(id) && id == old(self).pools@.len())
                &&& final(self).pools@ == old(self).pools@.push(
                    (DescriptorPoolObj { max_sets, live: true }),
                )
                &&& final(self).calls@ == old(self).calls@.push(
                    NativeCall::CreateDescriptorPool(old(self).pools@.len() as usize),
                )
            },
    {
        if max_sets == 0 {
            return Err(AllocatorError::NativeCreation(ObjectKind::DescriptorPool));
        }
        let id = self.pools.len();
        self.pools.push(DescriptorPoolObj { max_sets, live: true });
        self.calls.push(NativeCall::CreateDescriptorPool(id));
        Ok(id)
    }

    /// Allocate one descriptor set from a live pool.
    pub fn allocate_descriptor_set(&mut self, pool: usize) -> (r: usize)
        requires
            old(self).wf(),
            pool < old(self).pools@.len(),
            old(self).pools@[pool as int].live,
        ensures
            final(self).wf(),
            final(self).same_config(*old(self)),
            final(self).buffers@ == old(self).buffers@,
            final(self).images@ == old(self).images@,
            final(self).memories@ == old(self).memories@,
            final(self).pools@ == old(self).pools@,
            final(self).recording == old(self).recording,
            final(self).calls@ == old(self).calls@,
            r == old(self).sets@.len(),
            final(self).sets@ == old(self).sets@.push((DescriptorSetObj { pool })),
    {
        let id = self.sets.len();
        self.sets.push(DescriptorSetObj { pool });
        id
    }

    /// Destroy a live descriptor pool; the sets allocated from it die with
    /// it.
    pub fn destroy_descriptor_pool(&mut self, pool: usize)
        requires
            old(self).wf(),
            pool < old(self).pools@.len(),
            old(self).pools@[pool as int].live,
        ensures
            final(self).wf(),
            final(self).same_config(*old(self)),
            final(self).buffers@ == old(self).buffers@,
            final(self).images@ == old(self).images@,
            final(self).memories@ == old(self).memories@,
            final(self).sets@ == old(self).sets@,
            final(self).recording == old(self).recording,
            final(self).pools@ == old(self).pools@.update(
                pool as int,
                (DescriptorPoolObj { live: false, ..old(self).pools@[pool as int] }),
            ),
            final(self).calls@ == old(self).calls@.push(NativeCall::DestroyDescriptorPool(pool)),
    {
        self.pools[pool].live = false;
        self.calls.push(NativeCall::DestroyDescriptorPool(pool));
        proof {
            assert(final(self).pools@ =~= old(self).pools@.update(
                pool as int,
                (DescriptorPoolObj { live: false, ..old(self).pools@[pool as int] }),
            ));
        }
    }
}

/// `len` bytes of `src` starting at `offset`, as an owned vector.
fn copy_out(src: &Vec<u8>, offset: vkbytes, len: vkbytes) -> (r: Vec<u8>)
    requires
        offset + len <= src@.len(),
    ensures
        r@ == src@.subrange(offset as int, offset + len),
{
    let src_len = src.len();
    let mut v: Vec<u8> = Vec::new();
    let mut k: vkbytes = 0;
    while k < len
        invariant
            k <= len,
            src_len == src@.len(),
            offset + len <= src_len,
            v@.len() == k,
            forall|i: int| 0 <= i < k ==> v@[i] == src@[offset + i],
        decreases len - k,
    {
        let b = src[offset + k];
        v.push(b);
        k = k + 1;
    }
    proof {
        assert(v@ =~= src@.subrange(offset as int, offset + len));
    }
    v
}

} // verus!
