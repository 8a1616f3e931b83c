use vstd::prelude::*;
use crate::types::{
    bound_to_alignment, lemma_align_up, spec_align_up, vkbytes, vkuint, Dimension3D,
};
use crate::device::{
    lemma_overwrite_elsewhere, lemma_overwrite_reads_back, GsDevice, ImageEvent, ImageLayout,
    ImageObj, MemoryObj, NativeCall, spec_image_byte_size, spec_overwrite,
};
use crate::error::{AllocatorError, ObjectKind};
use crate::memory::{
    lemma_spaces_sum_monotone, lemma_spaces_sum_nonnegative, MemorySelector,
};
use crate::policy::{
    lemma_contains_flags_split, lemma_or_contains, spec_contains_flags, ImageStorageType,
    GsMemoryType, IMAGE_USAGE_DEPTH_STENCIL_ATTACHMENT, IMAGE_USAGE_SAMPLED,
    IMAGE_USAGE_TRANSFER_DST,
};
use crate::descriptor::DescriptorBindingContent;
use crate::image::{
    DepthStencilAttachmentInfo, GsDepthStencilAttachment, GsSampleImage, ImagePipelineStage,
    ImageSource, ImageStorageInfo, SampleImageInfo,
};
use crate::allocator::{spec_in_prefix, BufferGroup, GsBufferAllocator, GsBufferRepository};
use crate::buffer::{BufferKind, GsBufImgsrcInfo};
use crate::memory::spec_spaces_sum;
use crate::policy::{BufferStorageType, BUFFER_USAGE_TRANSFER_SRC};
use crate::transfer::spec_staging_possible;

verus! {

/// Which transition recipe an image follows: sampled images are filled
/// through staging and end shader-readable; depth-stencil images skip the
/// copy and end attachment-ready.
pub enum ImageVariety {
    Sample { stage: ImagePipelineStage, binding: DescriptorBindingContent },
    DepthStencil,
}

/// One image joined to an allocation: its recipe, the native image the
/// allocator created for it, its aligned size in the block, its byte size,
/// and the storage describing its content.
pub struct ImageAllotInfo {
    pub variety: ImageVariety,
    pub image_id: usize,
    pub space: vkbytes,
    pub byte_size: vkbytes,
    pub storage: ImageStorageInfo,
}

impl ImageAllotInfo {
    pub open spec fn is_sample(self) -> bool {
        self.variety is Sample
    }

    /// The pixel bytes this image is to be filled with.
    pub open spec fn spec_pixels(self) -> Seq<u8> {
        match self.storage.source {
            ImageSource::UploadData(d) => d.data@,
            ImageSource::NoSource => Seq::empty(),
        }
    }

    /// The layout this image must be in once the allocation's transfer
    /// stream has run.
    pub open spec fn spec_final_layout(self) -> ImageLayout {
        match self.variety {
            ImageVariety::Sample { .. } => ImageLayout::ShaderReadOnlyOptimal,
            ImageVariety::DepthStencil => ImageLayout::DepthStencilAttachmentOptimal,
        }
    }

    /// The usage flags an image of this recipe is created with.
    pub open spec fn spec_usage(self) -> vkuint {
        match self.variety {
            ImageVariety::Sample { .. } => IMAGE_USAGE_SAMPLED | IMAGE_USAGE_TRANSFER_DST,
            ImageVariety::DepthStencil => IMAGE_USAGE_DEPTH_STENCIL_ATTACHMENT,
        }
    }

    /// The exact event trail the transfer pipeline leaves on this image:
    /// a barrier into the transfer-destination layout, one copy, and a
    /// barrier into the final layout for sampled images; one barrier into
    /// the attachment layout for depth-stencil images.
    pub open spec fn spec_transition_events(self) -> Seq<ImageEvent> {
        match self.variety {
            ImageVariety::Sample { .. } => seq![
                ImageEvent::Barrier {
                    from: ImageLayout::Undefined,
                    to: ImageLayout::TransferDstOptimal,
                },
                ImageEvent::Copy,
                ImageEvent::Barrier {
                    from: ImageLayout::TransferDstOptimal,
                    to: ImageLayout::ShaderReadOnlyOptimal,
                },
            ],
            ImageVariety::DepthStencil => seq![
                ImageEvent::Barrier {
                    from: ImageLayout::Undefined,
                    to: ImageLayout::DepthStencilAttachmentOptimal,
                },
            ],
        }
    }
}

/// The sum of the first `n` images' aligned sizes.
pub open spec fn spec_image_space_sum(infos: Seq<ImageAllotInfo>, n: int) -> int
    decreases n,
{
    if n <= 0 {
        0
    } else {
        spec_image_space_sum(infos, n - 1) + infos[n - 1].space
    }
}

pub proof fn lemma_image_space_sum_monotone(infos: Seq<ImageAllotInfo>, i: int, j: int)
    requires
        0 <= i <= j <= infos.len(),
    ensures
        spec_image_space_sum(infos, i) <= spec_image_space_sum(infos, j),
    decreases j - i,
{
    if i < j {
        lemma_image_space_sum_monotone(infos, i, j - 1);
    }
}

pub proof fn lemma_image_space_sum_nonnegative(infos: Seq<ImageAllotInfo>, n: int)
    requires
        0 <= n <= infos.len(),
    ensures
        0 <= spec_image_space_sum(infos, n),
    decreases n,
{
    if n > 0 {
        lemma_image_space_sum_nonnegative(infos, n - 1);
    }
}

pub proof fn lemma_image_space_sum_push(infos: Seq<ImageAllotInfo>, x: ImageAllotInfo, n: int)
    requires
        0 <= n <= infos.len(),
    ensures
        spec_image_space_sum(infos.push(x), n) == spec_image_space_sum(infos, n),
    decreases n,
{
    if n > 0 {
        lemma_image_space_sum_push(infos, x, n - 1);
    }
}

/// The staging bytes the first `n` images ask for: each sampled image's
/// byte size rounded up to the buffer alignment, nothing for the others.
pub open spec fn spec_staging_space_sum(infos: Seq<ImageAllotInfo>, align: int, n: int) -> int
    decreases n,
{
    if n <= 0 {
        0
    } else {
        spec_staging_space_sum(infos, align, n - 1) + (if infos[n - 1].is_sample() {
            spec_align_up(infos[n - 1].byte_size as int, align)
        } else {
            0
        })
    }
}

pub proof fn lemma_staging_space_sum_nonnegative(infos: Seq<ImageAllotInfo>, align: int, n: int)
    requires
        0 <= n <= infos.len(),
        0 < align,
        forall|i: int| 0 <= i < n ==> (#[trigger] infos[i]).byte_size >= 0,
    ensures
        0 <= spec_staging_space_sum(infos, align, n),
    decreases n,
{
    if n > 0 {
        lemma_staging_space_sum_nonnegative(infos, align, n - 1);
        if infos[n - 1].is_sample() {
            lemma_align_up(infos[n - 1].byte_size as int, align);
        }
    }
}

pub proof fn lemma_staging_space_sum_push(
    infos: Seq<ImageAllotInfo>,
    x: ImageAllotInfo,
    align: int,
    n: int,
)
    requires
        0 <= n <= infos.len(),
    ensures
        spec_staging_space_sum(infos.push(x), align, n) == spec_staging_space_sum(
            infos,
            align,
            n,
        ),
    decreases n,
{
    if n > 0 {
        lemma_staging_space_sum_push(infos, x, align, n - 1);
    }
}

/// Gathers image descriptors for one storage class, creating the native
/// image for each to learn its true memory demands, and in one `allocate`
/// call lays them out in one fresh memory block, fills the sampled ones
/// through a transient staging repository, and drives every layout
/// transition in one one-shot command stream.
///
/// `allocate` takes the allocator by value: it runs at most once per
/// instance.
pub struct GsImageAllocator {
    pub storage_type: ImageStorageType,
    pub infos: Vec<ImageAllotInfo>,
    pub selector: MemorySelector,
}

/// The token an `attach` call hands back: the image's position in the
/// allocation, consumed when the matching handle is acquired.
#[derive(Debug, Clone, Copy, PartialEq, Eq, Structural)]
pub struct ImageAllotIndex {
    pub value: usize,
}

impl GsImageAllocator {
    pub open spec fn n(self) -> int {
        self.infos@.len() as int
    }

    pub open spec fn wf(self, d: GsDevice) -> bool {
        &&& self.selector.wf()
        &&& self.selector.memory_types@ == d.memory_types@
        &&& self.selector.require_flags == self.storage_type.memory_type().spec_property_flags()
        &&& spec_image_space_sum(self.infos@, self.n()) <= vkbytes::MAX
        &&& spec_staging_space_sum(self.infos@, d.limits.buffer_alignment as int, self.n())
            <= vkbytes::MAX
        &&& forall|i: int, j: int|
            0 <= i < j < self.n() ==> (#[trigger] self.infos@[i]).image_id != (
            #[trigger] self.infos@[j]).image_id
        &&& forall|i: int|
            0 <= i < self.n() ==> (#[trigger] self.infos@[i]).image_id < d.images@.len()
        &&& forall|i: int|
            0 <= i < self.n() ==> {
                let info = #[trigger] self.infos@[i];
                let img = d.images@[info.image_id as int];
                &&& img.live
                &&& img.bound is None
                &&& img.byte_size == info.byte_size
                &&& 1 <= info.byte_size
                &&& info.byte_size <= info.space
                &&& info.space == spec_align_up(info.byte_size as int, d.limits.image_alignment as int)
                &&& img.usage == info.spec_usage()
                &&& img.layout == ImageLayout::Undefined
                &&& img.events@ == Seq::<ImageEvent>::empty()
                &&& img.extent == info.storage.dimension
                &&& img.format == info.storage.format
                &&& (info.is_sample() <==> (info.storage.source matches ImageSource::UploadData(
                    dd,
                ) && dd.data@.len() == info.byte_size))
                &&& (!info.is_sample() ==> info.storage.source is NoSource)
            }
    }

    /// A fresh image allocator fixed to one storage class.
    pub fn new(device: &GsDevice, storage_type: ImageStorageType) -> (r: GsImageAllocator)
        requires
            device.wf(),
        ensures
            r.wf(*device),
            r.storage_type == storage_type,
            r.n() == 0,
            r.selector.candidate_bits == 0xffff_ffffu32,
    {
        GsImageAllocator {
            storage_type,
            infos: Vec::new(),
            selector: MemorySelector::init(
                device,
                storage_type.memory_type().property_flags(),
            ),
        }
    }

    /// What attaching leaves unchanged on the device.
    pub open spec fn attach_frame(d0: GsDevice, d1: GsDevice) -> bool {
        &&& d1.wf()
        &&& d1.same_config(d0)
        &&& d1.buffers@ == d0.buffers@
        &&& d1.memories@ == d0.memories@
        &&& d1.pools@ == d0.pools@
        &&& d1.sets@ == d0.sets@
        &&& d1.recording == d0.recording
        &&& d1.spec_live_memory_ids() == d0.spec_live_memory_ids()
        &&& d1.images@.len() >= d0.images@.len()
        &&& forall|im: int|
            0 <= im < d0.images@.len() ==> (#[trigger] d1.images@[im]) == d0.images@[im]
        &&& forall|im: int|
            d0.images@.len() <= im < d1.images@.len() ==> !(#[trigger] d1.images@[im]).live || (
            d1.images@[im].bound is None)
    }

    /// Attach one image with the given recipe, storage and usage.
    fn attach_image(&mut self, device: &mut GsDevice, variety: ImageVariety, storage: ImageStorageInfo) -> (r: Result<
        ImageAllotIndex,
        AllocatorError,
    >)
        requires
            old(self).wf(*old(device)),
            old(device).wf(),
            !old(device).recording,
            spec_image_byte_size(storage.dimension, storage.format) + old(device).limits.image_alignment - 1 <= vkbytes::MAX,
            spec_image_byte_size(storage.dimension, storage.format) + old(device).limits.buffer_alignment - 1 <= vkbytes::MAX,
            spec_image_space_sum(old(self).infos@, old(self).n()) + spec_align_up(
                spec_image_byte_size(storage.dimension, storage.format),
                old(device).limits.image_alignment as int,
            ) <= vkbytes::MAX,
            spec_staging_space_sum(
                old(self).infos@,
                old(device).limits.buffer_alignment as int,
                old(self).n(),
            ) + spec_align_up(
                spec_image_byte_size(storage.dimension, storage.format),
                old(device).limits.buffer_alignment as int,
            ) <= vkbytes::MAX,
            (variety is Sample <==> (storage.source matches ImageSource::UploadData(dd)
                && dd.data@.len() == spec_image_byte_size(storage.dimension, storage.format))),
            (!(variety is Sample) ==> storage.source is NoSource),
        ensures
            final(self).wf(*final(device)),
            final(self).storage_type == old(self).storage_type,
            Self::attach_frame(*old(device), *final(device)),
            spec_image_byte_size(storage.dimension, storage.format) == 0 ==> r == Result::<
                ImageAllotIndex,
                AllocatorError,
            >::Err(AllocatorError::NativeCreation(ObjectKind::Image)),
            spec_image_byte_size(storage.dimension, storage.format) > 0 ==> (r is Ok <==> old(self).selector.spec_would_accept(old(device).image_type_bits)),
            r is Err ==> final(self).n() == old(self).n() && final(self).infos@ == old(self).infos@ && final(self).selector.candidate_bits == old(self).selector.candidate_bits,
            r matches Ok(ix) ==> {
                let info = final(self).infos@[old(self).n()];
                &&& ix.value == old(self).n()
                &&& final(self).n() == old(self).n() + 1
                &&& forall|j: int|
                    0 <= j < old(self).n() ==> final(self).infos@[j] == old(self).infos@[j]
                &&& info.variety == variety
                &&& info.storage == storage
                &&& info.image_id == old(device).images@.len()
                &&& info.byte_size == spec_image_byte_size(storage.dimension, storage.format)
                &&& final(device).images@.len() == old(device).images@.len() + 1
                &&& final(self).selector.candidate_bits == (old(self).selector.candidate_bits
                    & old(device).image_type_bits)
                &&& final(self).selector.spec_has_suitable()
            },
    {
        let usage = match &variety {
            ImageVariety::Sample { .. } => IMAGE_USAGE_SAMPLED | IMAGE_USAGE_TRANSFER_DST,
            ImageVariety::DepthStencil => IMAGE_USAGE_DEPTH_STENCIL_ATTACHMENT,
        };
        let id = match device.create_image(
            storage.dimension,
            storage.format,
            usage,
            ImageLayout::Undefined,
        ) {
            Ok(id) => id,
            Err(e) => {
                return Err(e);
            },
        };
        let req = device.image_requirements(id);
        match self.selector.try_types(req.memory_type_bits) {
            Ok(_) => {},
            Err(e) => {
                device.destroy_image(id);
                return Err(e);
            },
        }
        let space = bound_to_alignment(req.size, req.alignment);
        let index = ImageAllotIndex { value: self.infos.len() };
        let ghost pre = self.infos@;
        self.infos.push(
            ImageAllotInfo { variety, image_id: id, space, byte_size: req.size, storage },
        );
        proof {
            let n0 = pre.len() as int;
            lemma_image_space_sum_push(pre, self.infos@[n0], n0);
            lemma_staging_space_sum_push(
                pre,
                self.infos@[n0],
                device.limits.buffer_alignment as int,
                n0,
            );
            lemma_align_up(
                self.infos@[n0].byte_size as int,
                device.limits.buffer_alignment as int,
            );
            assert forall|i: int| 0 <= i < n0 + 1 implies {
                let info = #[trigger] self.infos@[i];
                info.image_id < device.images@.len() && device.images@[info.image_id as int].live
                    && device.images@[info.image_id as int].bound is None
            } by {
                if i < n0 {
                    assert(self.infos@[i] == pre[i]);
                    assert(pre[i].image_id < old(device).images@.len());
                }
            };
        }
        Ok(index)
    }

    /// Attach a sampled image carrying its decoded pixel bytes; the image
    /// ends shader-readable after `allocate`.
    pub fn attach_sample_image(&mut self, device: &mut GsDevice, info: SampleImageInfo) -> (r:
        Result<ImageAllotIndex, AllocatorError>)
        requires
            old(self).wf(*old(device)),
            old(device).wf(),
            !old(device).recording,
            spec_image_byte_size(info.storage.dimension, info.storage.format) + old(device).limits.image_alignment - 1 <= vkbytes::MAX,
            spec_image_byte_size(info.storage.dimension, info.storage.format) + old(device).limits.buffer_alignment - 1 <= vkbytes::MAX,
            spec_image_space_sum(old(self).infos@, old(self).n()) + spec_align_up(
                spec_image_byte_size(info.storage.dimension, info.storage.format),
                old(device).limits.image_alignment as int,
            ) <= vkbytes::MAX,
            spec_staging_space_sum(
                old(self).infos@,
                old(device).limits.buffer_alignment as int,
                old(self).n(),
            ) + spec_align_up(
                spec_image_byte_size(info.storage.dimension, info.storage.format),
                old(device).limits.buffer_alignment as int,
            ) <= vkbytes::MAX,
            info.storage.source matches ImageSource::UploadData(dd) && dd.data@.len()
                == spec_image_byte_size(info.storage.dimension, info.storage.format),
        ensures
            final(self).wf(*final(device)),
            final(self).storage_type == old(self).storage_type,
            Self::attach_frame(*old(device), *final(device)),
            spec_image_byte_size(info.storage.dimension, info.storage.format) == 0 ==> r
                == Result::<ImageAllotIndex, AllocatorError>::Err(
                AllocatorError::NativeCreation(ObjectKind::Image),
            ),
            spec_image_byte_size(info.storage.dimension, info.storage.format) > 0 ==> (r is Ok
                <==> old(self).selector.spec_would_accept(old(device).image_type_bits)),
            r is Err ==> final(self).n() == old(self).n() && final(self).infos@ == old(self).infos@,
            r matches Ok(ix) ==> {
                let rec = final(self).infos@[old(self).n()];
                &&& ix.value == old(self).n()
                &&& final(self).n() == old(self).n() + 1
                &&& forall|j: int|
                    0 <= j < old(self).n() ==> final(self).infos@[j] == old(self).infos@[j]
                &&& rec.variety == (ImageVariety::Sample {
                    stage: info.pipeline_stage,
                    binding: info.binding,
                })
                &&& rec.storage == info.storage
                &&& rec.image_id == old(device).images@.len()
                &&& final(device).images@.len() == old(device).images@.len() + 1
            },
    {
        self.attach_image(
            device,
            ImageVariety::Sample { stage: info.pipeline_stage, binding: info.binding },
            info.storage,
        )
    }

    /// Attach a depth-stencil attachment; the image ends in the
    /// depth-stencil attachment layout after `allocate`.
    pub fn attach_depth_stencil_image(
        &mut self,
        device: &mut GsDevice,
        info: DepthStencilAttachmentInfo,
    ) -> (r: Result<ImageAllotIndex, AllocatorError>)
        requires
            old(self).wf(*old(device)),
            old(device).wf(),
            !old(device).recording,
            ({
                let dim3 = (Dimension3D {
                    width: info.dimension.width,
                    height: info.dimension.height,
                    depth: 1,
                });
                &&& spec_image_byte_size(dim3, info.format) + old(device).limits.image_alignment
                    - 1 <= vkbytes::MAX
                &&& spec_image_byte_size(dim3, info.format) + old(device).limits.buffer_alignment
                    - 1 <= vkbytes::MAX
                &&& spec_image_space_sum(old(self).infos@, old(self).n()) + spec_align_up(
                    spec_image_byte_size(dim3, info.format),
                    old(device).limits.image_alignment as int,
                ) <= vkbytes::MAX
                &&& spec_staging_space_sum(
                    old(self).infos@,
                    old(device).limits.buffer_alignment as int,
                    old(self).n(),
                ) + spec_align_up(
                    spec_image_byte_size(dim3, info.format),
                    old(device).limits.buffer_alignment as int,
                ) <= vkbytes::MAX
            }),
        ensures
            final(self).wf(*final(device)),
            final(self).storage_type == old(self).storage_type,
            Self::attach_frame(*old(device), *final(device)),
            ({
                let dim3 = (Dimension3D {
                    width: info.dimension.width,
                    height: info.dimension.height,
                    depth: 1,
                });
                &&& (spec_image_byte_size(dim3, info.format) == 0 ==> r == Result::<
                    ImageAllotIndex,
                    AllocatorError,
                >::Err(AllocatorError::NativeCreation(ObjectKind::Image)))
                &&& (spec_image_byte_size(dim3, info.format) > 0 ==> (r is Ok <==> old(self).selector.spec_would_accept(old(device).image_type_bits)))
            }),
            r is Err ==> final(self).n() == old(self).n() && final(self).infos@ == old(self).infos@,
            r matches Ok(ix) ==> {
                let rec = final(self).infos@[old(self).n()];
                &&& ix.value == old(self).n()
                &&& final(self).n() == old(self).n() + 1
                &&& forall|j: int|
                    0 <= j < old(self).n() ==> final(self).infos@[j] == old(self).infos@[j]
                &&& rec.variety == ImageVariety::DepthStencil
                &&& rec.storage.format == info.format
                &&& rec.storage.dimension == (Dimension3D {
                    width: info.dimension.width,
                    height: info.dimension.height,
                    depth: 1,
                })
                &&& rec.storage.source is NoSource
                &&& rec.image_id == old(device).images@.len()
                &&& final(device).images@.len() == old(device).images@.len() + 1
            },
    {
        let storage = ImageStorageInfo {
            source: ImageSource::NoSource,
            dimension: Dimension3D {
                width: info.dimension.width,
                height: info.dimension.height,
                depth: 1,
            },
            format: info.format,
        };
        self.attach_image(device, ImageVariety::DepthStencil, storage)
    }
}


/// The bookkeeping a successful image allocation produces.
pub struct ImageGroup {
    pub storage_type: ImageStorageType,
    pub memory_id: usize,
    pub infos: Vec<ImageAllotInfo>,
    pub offsets: Vec<vkbytes>,
}

impl ImageGroup {
    pub open spec fn n(self) -> int {
        self.infos@.len() as int
    }

    pub open spec fn shape_ok(self) -> bool {
        self.offsets@.len() == self.n()
    }

    /// Shared facts about the block: identity, size, and class flags.
    pub open spec fn block_ok(self, d: GsDevice) -> bool {
        &&& self.shape_ok()
        &&& 1 <= self.n()
        &&& self.memory_id < d.memories@.len()
        &&& d.memories@[self.memory_id as int].live
        &&& d.memories@[self.memory_id as int].size == spec_image_space_sum(self.infos@, self.n())
        &&& spec_contains_flags(
            d.memories@[self.memory_id as int].property_flags,
            self.storage_type.memory_type().spec_property_flags(),
        )
        &&& forall|i: int|
            0 <= i < self.n() ==> #[trigger] self.offsets@[i] == spec_image_space_sum(
                self.infos@,
                i,
            )
        &&& forall|i: int, j: int|
            0 <= i < j < self.n() ==> (#[trigger] self.infos@[i]).image_id != (
            #[trigger] self.infos@[j]).image_id
        &&& forall|i: int|
            0 <= i < self.n() ==> (#[trigger] self.infos@[i]).image_id < d.images@.len()
    }

    /// Each member image is live, bound at its offset, and settled in its
    /// final layout.
    #[verifier::opaque]
    pub open spec fn members_ok(self, d: GsDevice) -> bool {
        forall|i: int|
            0 <= i < self.n() ==> {
                let info = #[trigger] self.infos@[i];
                let img = d.images@[info.image_id as int];
                &&& img.live
                &&& img.bound == Some((self.memory_id, self.offsets@[i]))
                &&& img.byte_size == info.byte_size
                &&& info.byte_size <= info.space
                &&& img.layout == info.spec_final_layout()
            }
    }

    /// Only the group's images claim its memory block, and no live buffer
    /// does.
    #[verifier::opaque]
    pub open spec fn exclusive_ok(self, d: GsDevice) -> bool {
        &&& forall|im: int|
            0 <= im < d.images@.len() && (#[trigger] d.images@[im]).live && (d.images@[im].bound
                matches Some((m, _)) && m == self.memory_id) ==> exists|i: int|
                0 <= i < self.n() && self.infos@[i].image_id == im
        &&& forall|b: int|
            0 <= b < d.buffers@.len() && (#[trigger] d.buffers@[b]).live ==> !(
            d.buffers@[b].bound matches Some((m, _)) && m == self.memory_id)
    }

    /// The group's images are exactly the live images bound into its
    /// memory block, at prefix-sum offsets, each already in its final
    /// layout with its full transition trail behind it; no live buffer
    /// intrudes on the block.
    pub open spec fn wf(self, d: GsDevice) -> bool {
        &&& self.block_ok(d)
        &&& self.members_ok(d)
        &&& self.exclusive_ok(d)
    }
}

/// An image group stays well formed across device changes that leave its
/// members, its memory block and every other object's claim on it alone.
#[verifier::spinoff_prover]
pub proof fn lemma_image_group_wf_preserved(g: ImageGroup, d0: GsDevice, d1: GsDevice)
    requires
        g.wf(d0),
        d0.limits == d1.limits,
        g.memory_id < d1.memories@.len(),
        d1.memories@[g.memory_id as int].live == d0.memories@[g.memory_id as int].live,
        d1.memories@[g.memory_id as int].size == d0.memories@[g.memory_id as int].size,
        d1.memories@[g.memory_id as int].property_flags == d0.memories@[g.memory_id
            as int].property_flags,
        d1.images@.len() >= d0.images@.len(),
        forall|i: int|
            0 <= i < g.n() ==> d1.images@[(#[trigger] g.infos@[i]).image_id as int] == d0.images@[
                g.infos@[i].image_id as int],
        forall|im: int|
            0 <= im < d1.images@.len() ==> ((im < d0.images@.len() && #[trigger] d1.images@[im]
                == d0.images@[im]) || !((d1.images@[im]).live && (d1.images@[im].bound
                matches Some((m, _)) && m == g.memory_id))),
        forall|b: int|
            0 <= b < d1.buffers@.len() ==> ((b < d0.buffers@.len() && #[trigger] d1.buffers@[b]
                == d0.buffers@[b]) || !(d1.buffers@[b].live && (d1.buffers@[b].bound matches Some(
                (m, _),
            ) && m == g.memory_id))),
    ensures
        g.wf(d1),
{
    lemma_image_members_preserved(g, d0, d1);
    lemma_image_exclusive_preserved(g, d0, d1);
}

/// The destroy calls releasing an image group makes, in order.
pub open spec fn spec_image_destroy_calls(infos: Seq<ImageAllotInfo>, k: int) -> Seq<NativeCall> {
    Seq::new(k as nat, |i: int| NativeCall::DestroyImage(infos[i].image_id))
}

/// Converts finished image bookkeeping into typed handles; each `acquire`
/// pairs the shared block with one image's identity, binding metadata and
/// final layout. `into_repository` hands everything to the long-lived
/// owner.
pub struct GsImageDistributor {
    pub group: ImageGroup,
}

/// Owns the memory block and image objects of one allocation until it is
/// released.
pub struct GsImageRepository {
    pub group: ImageGroup,
}

impl GsImageDistributor {
    /// Acquire the sampled-image handle for `index`; its binding
    /// information reports the shader-read layout the transfer stream left
    /// the image in.
    pub fn acquire_sample_image(&self, index: ImageAllotIndex) -> (r: GsSampleImage)
        requires
            self.group.shape_ok(),
            index.value < self.group.n(),
            self.group.infos@[index.value as int].variety is Sample,
        ensures
            r.image_id == self.group.infos@[index.value as int].image_id,
            r.binding == self.group.infos@[index.value as int].variety->Sample_binding,
            r.layout == ImageLayout::ShaderReadOnlyOptimal,
            r.repository_index == index.value,
    {
        let info = &self.group.infos[index.value];
        let binding = match &info.variety {
            ImageVariety::Sample { stage: _, binding } => *binding,
            ImageVariety::DepthStencil => {
                proof {
                    assert(false);
                }
                DescriptorBindingContent {
                    binding: 0,
                    count: 0,
                    descriptor_type: crate::descriptor::GsDescriptorType::Image(
                        crate::descriptor::ImageDescriptorType::CombinedImageSampler,
                    ),
                }
            },
        };
        GsSampleImage {
            image_id: info.image_id,
            binding,
            layout: ImageLayout::ShaderReadOnlyOptimal,
            repository_index: index.value,
        }
    }

    /// Acquire the depth-stencil attachment handle for `index`.
    pub fn acquire_depth_stencil_image(&self, index: ImageAllotIndex) -> (r:
        GsDepthStencilAttachment)
        requires
            self.group.shape_ok(),
            index.value < self.group.n(),
            self.group.infos@[index.value as int].variety is DepthStencil,
        ensures
            r.image_id == self.group.infos@[index.value as int].image_id,
            r.format == self.group.infos@[index.value as int].storage.format,
            r.layout == ImageLayout::DepthStencilAttachmentOptimal,
            r.repository_index == index.value,
    {
        let info = &self.group.infos[index.value];
        GsDepthStencilAttachment {
            image_id: info.image_id,
            format: info.storage.format,
            layout: ImageLayout::DepthStencilAttachmentOptimal,
            repository_index: index.value,
        }
    }

    /// Give the bookkeeping, and ownership of the block and images, to a
    /// repository.
    pub fn into_repository(self) -> (r: GsImageRepository)
        ensures
            r.group == self.group,
    {
        GsImageRepository { group: self.group }
    }
}

impl GsImageRepository {
    pub open spec fn wf(self, d: GsDevice) -> bool {
        self.group.wf(d)
    }

    /// Release everything this repository owns: destroy each image
    /// object, in order, and only then free the memory block — the order
    /// the native interface demands.
    #[verifier::rlimit(100)]
    pub fn release(self, device: &mut GsDevice)
        requires
            old(device).wf(),
            self.group.wf(*old(device)),
        ensures
            final(device).wf(),
            final(device).same_config(*old(device)),
            final(device).buffers@ == old(device).buffers@,
            final(device).pools@ == old(device).pools@,
            final(device).sets@ == old(device).sets@,
            final(device).recording == old(device).recording,
            final(device).images@.len() == old(device).images@.len(),
            final(device).memories@.len() == old(device).memories@.len(),
            forall|i: int|
                0 <= i < self.group.n() ==> !final(device).images@[(
                #[trigger] self.group.infos@[i]).image_id as int].live,
            !final(device).memories@[self.group.memory_id as int].live,
            final(device).spec_live_memory_ids() == old(device).spec_live_memory_ids().remove(
                self.group.memory_id as int,
            ),
            final(device).calls@ == old(device).calls@ + spec_image_destroy_calls(
                self.group.infos@,
                self.group.n(),
            ).push(NativeCall::FreeMemory(self.group.memory_id)),
    {
        proof {
            lemma_image_members_facts(self.group, *old(device));
        }
        let n = self.group.infos.len();
        let ghost pre = *device;
        let mut k: usize = 0;
        while k < n
            invariant
                k <= n,
                n == self.group.n(),
                device.wf(),
                device.same_config(pre),
                device.buffers@ == pre.buffers@,
                device.memories@ == pre.memories@,
                device.pools@ == pre.pools@,
                device.sets@ == pre.sets@,
                device.recording == pre.recording,
                device.images@.len() == pre.images@.len(),
                forall|i: int, j: int|
                    0 <= i < j < n ==> (#[trigger] self.group.infos@[i]).image_id != (
                    #[trigger] self.group.infos@[j]).image_id,
                forall|i: int|
                    0 <= i < n ==> (#[trigger] self.group.infos@[i]).image_id < pre.images@.len(),
                forall|i: int|
                    k <= i < n ==> device.images@[(#[trigger] self.group.infos@[i]).image_id
                        as int] == pre.images@[self.group.infos@[i].image_id as int],
                forall|i: int|
                    0 <= i < n ==> pre.images@[(#[trigger] self.group.infos@[i]).image_id
                        as int].live,
                forall|i: int|
                    0 <= i < k ==> !device.images@[(#[trigger] self.group.infos@[i]).image_id
                        as int].live,
                forall|im: int|
                    0 <= im < pre.images@.len() && !spec_image_in_prefix(
                        self.group.infos@,
                        k as int,
                        im,
                    ) ==> (#[trigger] device.images@[im]) == pre.images@[im],
                device.calls@ == pre.calls@ + spec_image_destroy_calls(
                    self.group.infos@,
                    k as int,
                ),
            decreases n - k,
        {
            proof {
                reveal(spec_image_in_prefix);
            }
            let id = self.group.infos[k].image_id;
            device.destroy_image(id);
            proof {
                assert(device.calls@ =~= pre.calls@ + spec_image_destroy_calls(
                    self.group.infos@,
                    k + 1,
                ));
            }
            k = k + 1;
        }
        proof {
            reveal(spec_image_in_prefix);
            lemma_image_exclusive_facts(self.group, pre);
            assert(!device.spec_has_live_binding(self.group.memory_id as int)) by {
                assert forall|b: int|
                    !(0 <= b < device.buffers@.len() && (#[trigger] device.buffers@[b]).live && (
                    device.buffers@[b].bound matches Some((m, _)) && m
                        == self.group.memory_id)) by {
                    if 0 <= b < device.buffers@.len() && device.buffers@[b].live {
                        assert(device.buffers@[b] == pre.buffers@[b]);
                    }
                };
                assert forall|im: int|
                    !(0 <= im < device.images@.len() && (#[trigger] device.images@[im]).live && (
                    device.images@[im].bound matches Some((m, _)) && m
                        == self.group.memory_id)) by {
                    if 0 <= im < device.images@.len() && device.images@[im].live {
                        assert(device.images@[im] == pre.images@[im]) by {
                            if spec_image_in_prefix(self.group.infos@, n as int, im) {
                                let j = choose|j: int|
                                    0 <= j < n && self.group.infos@[j].image_id == im;
                                assert(!device.images@[(
                                #[trigger] self.group.infos@[j]).image_id as int].live);
                                assert(false);
                            }
                        };
                    }
                };
            };
        }
        device.free_memory(self.group.memory_id);
        proof {
            assert(final(device).spec_live_memory_ids() =~= old(device).spec_live_memory_ids().remove(self.group.memory_id as int));
        }
    }
}

/// Whether `im` is the image of one of the first `k` records.
#[verifier::opaque]
pub open spec fn spec_image_in_prefix(infos: Seq<ImageAllotInfo>, k: int, im: int) -> bool {
    exists|j: int| 0 <= j < k && infos[j].image_id == im
}




/// The raw member facts, available without opening the whole invariant.
pub proof fn lemma_image_members_facts(g: ImageGroup, d: GsDevice)
    requires
        g.block_ok(d),
        g.members_ok(d),
    ensures
        forall|i: int|
            0 <= i < g.n() ==> {
                let info = #[trigger] g.infos@[i];
                let img = d.images@[info.image_id as int];
                &&& img.live
                &&& img.bound == Some((g.memory_id, g.offsets@[i]))
                &&& img.byte_size == info.byte_size
                &&& info.byte_size <= info.space
                &&& img.layout == info.spec_final_layout()
            },
{
    reveal(ImageGroup::members_ok);
}

/// The raw exclusivity facts, available without opening the whole
/// invariant.
pub proof fn lemma_image_exclusive_facts(g: ImageGroup, d: GsDevice)
    requires
        g.exclusive_ok(d),
    ensures
        forall|im: int|
            0 <= im < d.images@.len() && (#[trigger] d.images@[im]).live && (d.images@[im].bound
                matches Some((m, _)) && m == g.memory_id) ==> spec_image_in_prefix(
                g.infos@,
                g.n(),
                im,
            ),
        forall|b: int|
            0 <= b < d.buffers@.len() && (#[trigger] d.buffers@[b]).live ==> !(
            d.buffers@[b].bound matches Some((m, _)) && m == g.memory_id),
{
    reveal(ImageGroup::exclusive_ok);
    reveal(spec_image_in_prefix);
}

/// The block and member facts survive any device change that keeps the
/// member images and the block's vital fields.
proof fn lemma_image_members_preserved(g: ImageGroup, d0: GsDevice, d1: GsDevice)
    requires
        g.block_ok(d0),
        g.members_ok(d0),
        d1.images@.len() >= d0.images@.len(),
        g.memory_id < d1.memories@.len(),
        d1.memories@[g.memory_id as int].live == d0.memories@[g.memory_id as int].live,
        d1.memories@[g.memory_id as int].size == d0.memories@[g.memory_id as int].size,
        d1.memories@[g.memory_id as int].property_flags == d0.memories@[g.memory_id
            as int].property_flags,
        forall|i: int|
            0 <= i < g.n() ==> d1.images@[(#[trigger] g.infos@[i]).image_id as int] == d0.images@[
                g.infos@[i].image_id as int],
    ensures
        g.block_ok(d1),
        g.members_ok(d1),
{
    reveal(ImageGroup::members_ok);
}

/// Exclusive claim on the block survives any device change under which
/// every object is either untouched or keeps off the block.
proof fn lemma_image_exclusive_preserved(g: ImageGroup, d0: GsDevice, d1: GsDevice)
    requires
        g.block_ok(d0),
        g.exclusive_ok(d0),
        d1.images@.len() >= d0.images@.len(),
        forall|im: int|
            0 <= im < d1.images@.len() ==> ((im < d0.images@.len() && #[trigger] d1.images@[im]
                == d0.images@[im]) || !((d1.images@[im]).live && (d1.images@[im].bound
                matches Some((m, _)) && m == g.memory_id))),
        forall|b: int|
            0 <= b < d1.buffers@.len() ==> ((b < d0.buffers@.len() && #[trigger] d1.buffers@[b]
                == d0.buffers@[b]) || !(d1.buffers@[b].live && (d1.buffers@[b].bound matches Some(
                (m, _),
            ) && m == g.memory_id))),
    ensures
        g.exclusive_ok(d1),
{
    reveal(ImageGroup::exclusive_ok);
    assert forall|im: int|
        0 <= im < d1.images@.len() && (#[trigger] d1.images@[im]).live && (d1.images@[im].bound
            matches Some((m, _)) && m == g.memory_id) implies exists|i: int|
        0 <= i < g.n() && g.infos@[i].image_id == im by {
        assert(im < d0.images@.len() && d1.images@[im] == d0.images@[im]);
    };
    assert forall|b: int|
        0 <= b < d1.buffers@.len() && (#[trigger] d1.buffers@[b]).live implies !(
    d1.buffers@[b].bound matches Some((m, _)) && m == g.memory_id) by {
        if b < d0.buffers@.len() && d1.buffers@[b] == d0.buffers@[b] {
        }
    };
}



/// Group the attached images by transition recipe: the indices of the
/// sampled records and of the depth-stencil records, each in append order.
pub fn collect_barrier_bundle(infos: &Vec<ImageAllotInfo>) -> (r: (Vec<usize>, Vec<usize>))
    ensures
        spec_indices_ok(r.0@, infos@, true),
        spec_indices_ok(r.1@, infos@, false),
        forall|i: int|
            0 <= i < infos@.len() && (#[trigger] infos@[i]).is_sample() ==> spec_index_listed(
                r.0@,
                i,
            ),
        forall|i: int|
            0 <= i < infos@.len() && !(#[trigger] infos@[i]).is_sample() ==> spec_index_listed(
                r.1@,
                i,
            ),
{
    let n = infos.len();
    let mut samples: Vec<usize> = Vec::new();
    let mut depths: Vec<usize> = Vec::new();
    let mut k: usize = 0;
    while k < n
        invariant
            k <= n,
            n == infos@.len(),
            forall|j: int|
                0 <= j < samples@.len() ==> (#[trigger] samples@[j]) < k && infos@[
                    samples@[j] as int].is_sample(),
            forall|j: int|
                0 <= j < depths@.len() ==> (#[trigger] depths@[j]) < k && !infos@[
                    depths@[j] as int].is_sample(),
            forall|i: int, j: int|
                0 <= i < j < samples@.len() ==> #[trigger] samples@[i] < #[trigger] samples@[j],
            forall|i: int, j: int|
                0 <= i < j < depths@.len() ==> #[trigger] depths@[i] < #[trigger] depths@[j],
            forall|i: int|
                0 <= i < k && (#[trigger] infos@[i]).is_sample() ==> samples@.contains(
                    i as usize,
                ),
            forall|i: int|
                0 <= i < k && !(#[trigger] infos@[i]).is_sample() ==> depths@.contains(
                    i as usize,
                ),
        decreases n - k,
    {
        let is_sample = match &infos[k].variety {
            ImageVariety::Sample { .. } => true,
            ImageVariety::DepthStencil => false,
        };
        if is_sample {
            let ghost pre = samples@;
            samples.push(k);
            proof {
                assert forall|i: int|
                    0 <= i < k + 1 && (#[trigger] infos@[i]).is_sample() implies samples@.contains(
                    i as usize,
                ) by {
                    if i < k {
                        let w = choose|w: int| 0 <= w < pre.len() && pre[w] == i as usize;
                        assert(samples@[w] == i as usize);
                    } else {
                        assert(samples@[pre.len() as int] == k as usize);
                    }
                };
            }
        } else {
            let ghost pre = depths@;
            depths.push(k);
            proof {
                assert forall|i: int|
                    0 <= i < k + 1 && !(#[trigger] infos@[i]).is_sample() implies depths@.contains(
                    i as usize,
                ) by {
                    if i < k {
                        let w = choose|w: int| 0 <= w < pre.len() && pre[w] == i as usize;
                        assert(depths@[w] == i as usize);
                    } else {
                        assert(depths@[pre.len() as int] == k as usize);
                    }
                };
            }
        }
        k = k + 1;
    }
    proof {
        reveal(spec_index_listed);
    }
    (samples, depths)
}

/// Whether record `i` is named by `indices`.
#[verifier::opaque]
pub open spec fn spec_index_listed(indices: Seq<usize>, i: int) -> bool {
    indices.contains(i as usize)
}

/// The indices name records of one recipe (`sample` chooses which), each
/// in range, in strictly increasing order.
pub open spec fn spec_indices_ok(
    indices: Seq<usize>,
    infos: Seq<ImageAllotInfo>,
    sample: bool,
) -> bool {
    &&& forall|j: int|
        0 <= j < indices.len() ==> (#[trigger] indices[j]) < infos.len() && infos[
            indices[j] as int].is_sample() == sample
    &&& forall|i: int, j: int|
        0 <= i < j < indices.len() ==> #[trigger] indices[i] < #[trigger] indices[j]
}


/// Listed indices grow strictly with their position.
pub proof fn lemma_indices_increasing(
    indices: Seq<usize>,
    infos: Seq<ImageAllotInfo>,
    sample: bool,
    a: int,
    b: int,
)
    requires
        spec_indices_ok(indices, infos, sample),
        0 <= a < b < indices.len(),
    ensures
        indices[a] < indices[b],
{
}

/// Records that are not sampled add nothing to the staging demand.
pub proof fn lemma_staging_sum_skip(infos: Seq<ImageAllotInfo>, align: int, a: int, b: int)
    requires
        0 <= a <= b <= infos.len(),
        forall|i: int| a <= i < b ==> !(#[trigger] infos[i]).is_sample(),
    ensures
        spec_staging_space_sum(infos, align, b) == spec_staging_space_sum(infos, align, a),
    decreases b - a,
{
    if a < b {
        lemma_staging_sum_skip(infos, align, a, b - 1);
    }
}

/// One sampled record raises the staging demand by its aligned byte size.
pub proof fn lemma_staging_sum_step(infos: Seq<ImageAllotInfo>, align: int, i: int)
    requires
        0 <= i < infos.len(),
        infos[i].is_sample(),
    ensures
        spec_staging_space_sum(infos, align, i + 1) == spec_staging_space_sum(infos, align, i)
            + spec_align_up(infos[i].byte_size as int, align),
{
}

/// Transitions sampled images from their initial layout into the
/// shader-readable layout: stages their pixel bytes in a transient
/// staging repository, records one transfer barrier, one copy and one
/// final barrier per image, and destroys the staging repository once the
/// stream has executed.
pub struct SampleImageBarrierBundle {
    pub info_indices: Vec<usize>,
    pub dst_stage: ImagePipelineStage,
    pub staging_repository: Option<GsBufferRepository>,
}

impl SampleImageBarrierBundle {
    pub fn new(dst_stage: ImagePipelineStage, indices: Vec<usize>) -> (r:
        SampleImageBarrierBundle)
        ensures
            r.info_indices@ == indices@,
            r.dst_stage == dst_stage,
            r.staging_repository is None,
    {
        SampleImageBarrierBundle { info_indices: indices, dst_stage, staging_repository: None }
    }

    /// What the staging repository promises once built: one transfer-source
    /// block per listed record, sized to that record's byte size, in a
    /// fresh mapped block of its own.
    pub open spec fn staging_ok(
        self,
        infos: Seq<ImageAllotInfo>,
        d: GsDevice,
    ) -> bool {
        match self.staging_repository {
            Some(st) => {
                &&& st.group.wf(d)
                &&& st.group.storage_type == BufferStorageType::Staging
                &&& st.group.n() == self.info_indices@.len()
                &&& d.memories@[st.group.memory_id as int].mapped
                &&& forall|j: int|
                    0 <= j < self.info_indices@.len() ==> (#[trigger] st.group.descriptors@[
                        j]).size == infos[self.info_indices@[j] as int].byte_size
                    && st.group.descriptors@[j].usage == BUFFER_USAGE_TRANSFER_SRC
            },
            None => false,
        }
    }

    /// Create the staging repository: one staging buffer per listed image,
    /// sized to its pixel bytes, laid out in one fresh mapped block.
    ///
    /// Fails with `Transfer` exactly when no memory type can hold staging
    /// buffers or the staged bytes exceed what the device grants at once.
    pub fn create_staging_repository(
        &mut self,
        device: &mut GsDevice,
        infos: &Vec<ImageAllotInfo>,
    ) -> (r: Result<(), AllocatorError>)
        requires
            old(device).wf(),
            !old(device).recording,
            old(self).staging_repository is None,
            1 <= old(self).info_indices@.len(),
            spec_indices_ok(old(self).info_indices@, infos@, true),
            forall|i: int|
                0 <= i < infos@.len() && (#[trigger] infos@[i]).is_sample()
                    ==> spec_index_listed(old(self).info_indices@, i),
            forall|i: int|
                0 <= i < infos@.len() ==> 1 <= (#[trigger] infos@[i]).byte_size <= old(device).allocation_capacity,
            spec_staging_space_sum(
                infos@,
                old(device).limits.buffer_alignment as int,
                infos@.len() as int,
            ) <= vkbytes::MAX,
        ensures
            final(device).wf(),
            final(device).same_config(*old(device)),
            final(device).images@ == old(device).images@,
            final(device).pools@ == old(device).pools@,
            final(device).sets@ == old(device).sets@,
            final(device).recording == false,
            final(self).info_indices@ == old(self).info_indices@,
            final(self).dst_stage == old(self).dst_stage,
            final(device).buffers@.len() >= old(device).buffers@.len(),
            forall|b: int|
                0 <= b < old(device).buffers@.len() ==> (#[trigger] final(device).buffers@[b])
                    == old(device).buffers@[b],
            final(device).memories@.len() >= old(device).memories@.len(),
            forall|j: int|
                0 <= j < old(device).memories@.len() ==> ((#[trigger] final(device).memories@[
                j]).live == old(device).memories@[j].live && final(device).memories@[j].size
                    == old(device).memories@[j].size && final(device).memories@[j].property_flags
                    == old(device).memories@[j].property_flags && final(device).memories@[j].data@
                    == old(device).memories@[j].data@ && final(device).memories@[j].mapped == old(device).memories@[j].mapped),
            r is Ok <==> (spec_staging_possible(*old(device)) && spec_staging_space_sum(
                infos@,
                old(device).limits.buffer_alignment as int,
                infos@.len() as int,
            ) <= old(device).allocation_capacity),
            r is Err ==> r == Result::<(), AllocatorError>::Err(AllocatorError::Transfer) && final(self).staging_repository is None && final(device).spec_live_memory_ids() == old(device).spec_live_memory_ids() && (forall|b: int|
                old(device).buffers@.len() <= b < final(device).buffers@.len() ==> !(
                #[trigger] final(device).buffers@[b]).live),
            r is Ok ==> {
                let st = final(self).staging_repository->0;
                &&& final(self).staging_ok(infos@, *final(device))
                &&& st.group.memory_id == old(device).memories@.len()
                &&& final(device).spec_live_memory_ids() == old(device).spec_live_memory_ids().insert(st.group.memory_id as int)
                &&& forall|b: int|
                    old(device).buffers@.len() <= b < final(device).buffers@.len() ==> (!(
                    #[trigger] final(device).buffers@[b]).live || (final(device).buffers@[b].bound
                        matches Some((m, _)) && m == st.group.memory_id))
            },
    {
        let ghost base = *device;
        let mut stalloc = GsBufferAllocator::new(device, BufferStorageType::Staging);
        let n = self.info_indices.len();
        let ghost align = device.limits.buffer_alignment as int;
        let mut k: usize = 0;
        while k < n
            invariant
                k <= n,
                n == self.info_indices@.len(),
                *self == *old(self),
                self.staging_repository is None,
                base == *old(device),
                device.wf(),
                device.same_config(base),
                device.images@ == base.images@,
                device.memories@ == base.memories@,
                device.pools@ == base.pools@,
                device.sets@ == base.sets@,
                device.recording == base.recording,
                !device.recording,
                align == base.limits.buffer_alignment as int,
                spec_indices_ok(self.info_indices@, infos@, true),
                forall|i: int|
                    0 <= i < infos@.len() && (#[trigger] infos@[i]).is_sample()
                        ==> spec_index_listed(self.info_indices@, i),
                forall|i: int|
                    0 <= i < infos@.len() ==> 1 <= (#[trigger] infos@[i]).byte_size
                        <= base.allocation_capacity,
                spec_staging_space_sum(infos@, align, infos@.len() as int) <= vkbytes::MAX,
                stalloc.wf(*device),
                stalloc.storage_type == BufferStorageType::Staging,
                stalloc.n() == k,
                spec_spaces_sum(stalloc.spaces@, k as int) == spec_staging_space_sum(
                    infos@,
                    align,
                    (if k == 0 {
                        0int
                    } else {
                        self.info_indices@[k - 1] + 1
                    }),
                ),
                forall|j: int|
                    0 <= j < k ==> (#[trigger] stalloc.descriptors@[j]).size == infos@[
                        self.info_indices@[j] as int].byte_size && stalloc.descriptors@[j].usage
                        == BUFFER_USAGE_TRANSFER_SRC && stalloc.descriptors@[j].kind
                        == BufferKind::ImgSrc,
                k == 0 ==> stalloc.selector.candidate_bits == 0xffff_ffffu32,
                k >= 1 ==> stalloc.selector.candidate_bits == (0xffff_ffffu32
                    & device.buffer_type_bits) && stalloc.selector.spec_has_suitable()
                    && spec_staging_possible(base),
                forall|b: int|
                    0 <= b < base.buffers@.len() ==> (#[trigger] device.buffers@[b])
                        == base.buffers@[b],
                forall|j: int|
                    0 <= j < k ==> (#[trigger] stalloc.buffer_ids@[j]) == base.buffers@.len() + j,
                device.buffers@.len() == base.buffers@.len() + k,
                device.spec_live_memory_ids() == base.spec_live_memory_ids(),
            decreases n - k,
        {
            let idx = self.info_indices[k];
            let size = infos[idx].byte_size;
            proof {
                let kk = k as int;
                let upto: int = if kk == 0 {
                    0int
                } else {
                    self.info_indices@[kk - 1] + 1
                };
                assert(infos@[idx as int].is_sample());
                assert forall|i: int| upto <= i < idx as int implies !(
                #[trigger] infos@[i]).is_sample() by {
                    if infos@[i].is_sample() {
                        reveal(spec_index_listed);
                        assert(self.info_indices@.contains(i as usize));
                        let w = choose|w: int|
                            0 <= w < self.info_indices@.len() && self.info_indices@[w] == i
                                as usize;
                        if w < kk {
                            if w < kk - 1 {
                                lemma_indices_increasing(
                                    self.info_indices@,
                                    infos@,
                                    true,
                                    w,
                                    kk - 1,
                                );
                            }
                            assert(false);
                        } else {
                            if kk < w {
                                lemma_indices_increasing(
                                    self.info_indices@,
                                    infos@,
                                    true,
                                    kk,
                                    w,
                                );
                            }
                            assert(false);
                        }
                    }
                };
                lemma_staging_sum_skip(infos@, align, upto, idx as int);
                lemma_staging_sum_step(infos@, align, idx as int);
                lemma_staging_space_sum_bounds(infos@, align, idx + 1, infos@.len() as int);
                crate::types::lemma_align_up(size as int, align);
            }
            let ghost pre_dev = *device;
            let ghost pre_stalloc = stalloc;
            match stalloc.assign_imgsrc(device, GsBufImgsrcInfo::new(size)) {
                Ok(_) => {},
                Err(e) => {
                    proof {
                        if k >= 1 {
                            crate::policy::lemma_and_idempotent(
                                0xffff_ffffu32,
                                pre_dev.buffer_type_bits,
                            );
                            assert(false);
                        }
                        assert(!spec_staging_possible(base));
                        assert(pre_dev.buffers@.len() == base.buffers@.len());
                        assert forall|b: int|
                            base.buffers@.len() <= b < device.buffers@.len() implies !(
                        #[trigger] device.buffers@[b]).live by {
                            assert(pre_dev.buffers@.len() <= b < device.buffers@.len());
                        };
                    }
                    return Err(AllocatorError::Transfer);
                },
            }
            proof {
                if k >= 1 {
                    crate::policy::lemma_and_idempotent(0xffff_ffffu32, pre_dev.buffer_type_bits);
                }
                let kk = k as int;
                let upto: int = if kk == 0 {
                    0int
                } else {
                    self.info_indices@[kk - 1] + 1
                };
                crate::memory::lemma_spaces_sum_push(
                    pre_stalloc.spaces@,
                    stalloc.spaces@[kk],
                    kk,
                );
                assert(pre_stalloc.spaces@.push(stalloc.spaces@[kk]) =~= stalloc.spaces@);
                assert(spec_spaces_sum(stalloc.spaces@, kk) == spec_spaces_sum(
                    pre_stalloc.spaces@,
                    kk,
                ));
                assert(stalloc.spaces@[kk] == spec_align_up(size as int, align));
            }
            k = k + 1;
        }
        let infos_len = infos.len();
        proof {
            assert(infos@.len() == infos_len);
            lemma_staging_sum_skip2_tail(infos@, align, self.info_indices@, n as int);
        }
        let ghost stalloc_snap = stalloc;
        let ghost pre_alloc_dev = *device;
        let dist = match stalloc.allocate(device) {
            Ok(d) => d,
            Err(e) => {
                proof {
                    assert forall|b: int|
                        base.buffers@.len() <= b < device.buffers@.len() implies !(
                    #[trigger] device.buffers@[b]).live by {
                        let j = b - base.buffers@.len();
                        assert(stalloc_snap.buffer_ids@[j] == b);
                        assert(!device.buffers@[(
                        #[trigger] stalloc_snap.buffer_ids@[j]) as int].live);
                    };
                }
                match e {
                    AllocatorError::NativeCreation(_) => {
                        return Err(AllocatorError::Transfer);
                    },
                    _ => {
                        proof {
                            assert(false);
                        }
                        return Err(AllocatorError::Transfer);
                    },
                }
            },
        };
        let st = dist.into_repository();
        proof {
            let f = device.memories@[st.group.memory_id as int].property_flags;
            lemma_contains_flags_split(
                f,
                crate::policy::MEMORY_PROPERTY_HOST_VISIBLE,
                crate::policy::MEMORY_PROPERTY_HOST_COHERENT,
            );
        }
        let ghost pre_map_dev = *device;
        device.map_memory(st.group.memory_id);
        proof {
            crate::allocator::lemma_group_wf_preserved(st.group, pre_map_dev, *device);
            assert forall|b: int|
                base.buffers@.len() <= b < device.buffers@.len() implies (!(
            #[trigger] device.buffers@[b]).live || (device.buffers@[b].bound matches Some(
                (m, _),
            ) && m == st.group.memory_id)) by {
                let j = b - base.buffers@.len();
                assert(st.group.buffer_ids@[j] == b);
                assert(device.buffers@[(#[trigger] st.group.buffer_ids@[j]) as int].bound
                    == Some((st.group.memory_id, st.group.offsets@[j])));
            };
            assert(device.spec_live_memory_ids() =~= base.spec_live_memory_ids().insert(
                st.group.memory_id as int,
            ));
        }
        self.staging_repository = Some(st);
        Ok(())
    }
}

/// Past the last listed record every record is unsampled, so the staging
/// demand stops growing.
pub proof fn lemma_staging_space_sum_bounds(
    infos: Seq<ImageAllotInfo>,
    align: int,
    a: int,
    b: int,
)
    requires
        0 <= a <= b <= infos.len(),
        0 < align,
        forall|i: int| 0 <= i < infos.len() ==> 1 <= (#[trigger] infos[i]).byte_size,
    ensures
        spec_staging_space_sum(infos, align, a) <= spec_staging_space_sum(infos, align, b),
    decreases b - a,
{
    if a < b {
        lemma_staging_space_sum_bounds(infos, align, a, b - 1);
        if infos[b - 1].is_sample() {
            crate::types::lemma_align_up(infos[b - 1].byte_size as int, align);
        }
    }
}

/// Helper for the tail of the staging loop.
pub proof fn lemma_staging_sum_skip2_tail(
    infos: Seq<ImageAllotInfo>,
    align: int,
    indices: Seq<usize>,
    n: int,
)
    requires
        n == indices.len(),
        1 <= n,
        infos.len() <= usize::MAX,
        spec_indices_ok(indices, infos, true),
        forall|i: int|
            0 <= i < infos.len() && (#[trigger] infos[i]).is_sample() ==> spec_index_listed(
                indices,
                i,
            ),
    ensures
        spec_staging_space_sum(infos, align, indices[n - 1] + 1) == spec_staging_space_sum(
            infos,
            align,
            infos.len() as int,
        ),
{
    let last = indices[n - 1] as int;
    assert forall|i: int| last + 1 <= i < infos.len() implies !(
    #[trigger] infos[i]).is_sample() by {
        if infos[i].is_sample() {
            reveal(spec_index_listed);
            assert(indices.contains(i as usize));
            let w = choose|w: int| 0 <= w < indices.len() && indices[w] == i as usize;
            if w < n - 1 {
                lemma_indices_increasing(indices, infos, true, w, n - 1);
            }
            assert(false);
        }
    };
    lemma_staging_sum_skip(infos, align, last + 1, infos.len() as int);
}


impl SampleImageBarrierBundle {
    /// Copy every listed image's pixel bytes into its staging slot through
    /// the mapped staging block.
    pub fn upload_staging_data(&self, device: &mut GsDevice, infos: &Vec<ImageAllotInfo>)
        requires
            old(device).wf(),
            self.staging_ok(infos@, *old(device)),
            spec_indices_ok(self.info_indices@, infos@, true),
            forall|i: int|
                0 <= i < infos@.len() ==> ((#[trigger] infos@[i]).is_sample() <==> (
                infos@[i].storage.source matches ImageSource::UploadData(dd) && dd.data@.len()
                    == infos@[i].byte_size)),
        ensures
            final(device).wf(),
            self.staging_ok(infos@, *final(device)),
            final(device).same_config(*old(device)),
            final(device).buffers@ == old(device).buffers@,
            final(device).images@ == old(device).images@,
            final(device).pools@ == old(device).pools@,
            final(device).sets@ == old(device).sets@,
            final(device).recording == old(device).recording,
            final(device).calls@ == old(device).calls@,
            final(device).memories@.len() == old(device).memories@.len(),
            final(device).spec_live_memory_ids() == old(device).spec_live_memory_ids(),
            ({
                let st = self.staging_repository->0;
                let sm = st.group.memory_id as int;
                &&& forall|j: int|
                    0 <= j < old(device).memories@.len() && j != sm ==> (
                    #[trigger] final(device).memories@[j]) == old(device).memories@[j]
                &&& final(device).memories@[sm] == (MemoryObj {
                    data: final(device).memories@[sm].data,
                    ..old(device).memories@[sm]
                })
                &&& forall|j: int|
                    0 <= j < self.info_indices@.len() ==> final(device).memories@[sm
                        ].data@.subrange(
                        #[trigger] st.group.offsets@[j] as int,
                        st.group.offsets@[j] + infos@[self.info_indices@[j] as int].byte_size,
                    ) == infos@[self.info_indices@[j] as int].spec_pixels()
            }),
    {
        let st = match &self.staging_repository {
            Some(st) => st,
            None => {
                proof {
                    assert(false);
                }
                return ;
            },
        };
        let ghost entry = *device;
        let ghost sm = st.group.memory_id as int;
        let n = self.info_indices.len();
        let mut j: usize = 0;
        while j < n
            invariant
                j <= n,
                n == self.info_indices@.len(),
                entry == *old(device),
                device.wf(),
                device.same_config(entry),
                device.buffers@ == entry.buffers@,
                device.images@ == entry.images@,
                device.pools@ == entry.pools@,
                device.sets@ == entry.sets@,
                device.recording == entry.recording,
                device.calls@ == entry.calls@,
                device.memories@.len() == entry.memories@.len(),
                self.staging_repository matches Some(st2) && st2 == st,
                sm == st.group.memory_id as int,
                self.staging_ok(infos@, *device),
                self.staging_ok(infos@, entry),
                spec_indices_ok(self.info_indices@, infos@, true),
                forall|i: int|
                    0 <= i < infos@.len() ==> ((#[trigger] infos@[i]).is_sample() <==> (
                    infos@[i].storage.source matches ImageSource::UploadData(dd) && dd.data@.len()
                        == infos@[i].byte_size)),
                forall|jj: int|
                    0 <= jj < entry.memories@.len() && jj != sm ==> (
                    #[trigger] device.memories@[jj]) == entry.memories@[jj],
                device.memories@[sm] == (MemoryObj {
                    data: device.memories@[sm].data,
                    ..entry.memories@[sm]
                }),
                forall|jj: int|
                    0 <= jj < j ==> device.memories@[sm].data@.subrange(
                        #[trigger] st.group.offsets@[jj] as int,
                        st.group.offsets@[jj] + infos@[self.info_indices@[jj] as int].byte_size,
                    ) == infos@[self.info_indices@[jj] as int].spec_pixels(),
            decreases n - j,
        {
            let idx = self.info_indices[j];
            proof {
                crate::memory::lemma_spaces_sum_monotone(st.group.spaces@, j + 1, st.group.n());
                crate::memory::lemma_spaces_sum_nonnegative(st.group.spaces@, j as int);
                let bj = device.buffers@[(#[trigger] st.group.buffer_ids@[j as int]) as int];
                assert(bj.size == st.group.descriptors@[j as int].size);
                assert(bj.size <= st.group.spaces@[j as int]);
                assert(st.group.descriptors@[j as int].size == infos@[idx as int].byte_size);
                assert(infos@[idx as int].is_sample());
            }
            let ghost pre = *device;
            match &infos[idx].storage.source {
                ImageSource::UploadData(d) => {
                    device.write_mapped(
                        st.group.memory_id,
                        st.group.offsets[j],
                        &d.data,
                    );
                },
                ImageSource::NoSource => {
                    proof {
                        assert(false);
                    }
                },
            }
            proof {
                let written = infos@[idx as int].spec_pixels();
                lemma_overwrite_reads_back(
                    pre.memories@[sm].data@,
                    st.group.offsets@[j as int] as int,
                    written,
                );
                assert forall|jj: int| 0 <= jj < j implies device.memories@[sm].data@.subrange(
                    #[trigger] st.group.offsets@[jj] as int,
                    st.group.offsets@[jj] + infos@[self.info_indices@[jj] as int].byte_size,
                ) == infos@[self.info_indices@[jj] as int].spec_pixels() by {
                    crate::memory::lemma_spaces_sum_monotone(st.group.spaces@, jj + 1, j as int);
                    crate::memory::lemma_spaces_sum_nonnegative(st.group.spaces@, jj);
                    let bjj = device.buffers@[(#[trigger] st.group.buffer_ids@[jj]) as int];
                    assert(bjj.size == st.group.descriptors@[jj].size);
                    assert(bjj.size <= st.group.spaces@[jj]);
                    lemma_overwrite_elsewhere(
                        pre.memories@[sm].data@,
                        st.group.offsets@[j as int] as int,
                        written,
                        st.group.offsets@[jj] as int,
                        st.group.offsets@[jj] + infos@[self.info_indices@[jj] as int].byte_size,
                    );
                };
            }
            j = j + 1;
        }
    }

    /// Destroy the staging repository once the transfer stream has
    /// executed: its buffers first, then its memory block.
    pub fn cleanup(self, device: &mut GsDevice)
        requires
            old(device).wf(),
            self.staging_repository matches Some(st) ==> st.group.wf(*old(device)),
        ensures
            final(device).wf(),
            final(device).same_config(*old(device)),
            final(device).images@ == old(device).images@,
            final(device).pools@ == old(device).pools@,
            final(device).sets@ == old(device).sets@,
            final(device).recording == old(device).recording,
            final(device).buffers@.len() == old(device).buffers@.len(),
            final(device).memories@.len() == old(device).memories@.len(),
            self.staging_repository is None ==> *final(device) == *old(device),
            self.staging_repository matches Some(st) ==> {
                &&& final(device).spec_live_memory_ids() == old(device).spec_live_memory_ids().remove(st.group.memory_id as int)
                &&& !final(device).memories@[st.group.memory_id as int].live
                &&& forall|jj: int|
                    0 <= jj < old(device).memories@.len() && jj != st.group.memory_id ==> (
                    #[trigger] final(device).memories@[jj]) == old(device).memories@[jj]
                &&& forall|b: int|
                    0 <= b < old(device).buffers@.len() && !spec_in_prefix(
                        st.group.buffer_ids@,
                        st.group.n(),
                        b,
                    ) ==> (#[trigger] final(device).buffers@[b]) == old(device).buffers@[b]
                &&& forall|i: int|
                    0 <= i < st.group.n() ==> !final(device).buffers@[(
                    #[trigger] st.group.buffer_ids@[i]) as int].live
            },
    {
        match self.staging_repository {
            Some(st) => {
                st.release(device);
            },
            None => {},
        }
    }
}

/// Transitions depth-stencil images from their initial layout straight
/// into the attachment layout: one barrier per image, no copy.
pub struct DSImageBarrierBundle {
    pub info_indices: Vec<usize>,
}

impl DSImageBarrierBundle {
    pub fn new(indices: Vec<usize>) -> (r: DSImageBarrierBundle)
        ensures
            r.info_indices@ == indices@,
    {
        DSImageBarrierBundle { info_indices: indices }
    }

    /// Record the final barrier for every listed image: initial layout to
    /// depth-stencil attachment, leaving exactly that one transition in
    /// each image's trail.
    pub fn make_barrier_transform(&self, device: &mut GsDevice, infos: &Vec<ImageAllotInfo>)
        requires
            old(device).wf(),
            old(device).recording,
            spec_indices_ok(self.info_indices@, infos@, false),
            forall|i: int, j: int|
                0 <= i < j < infos@.len() ==> (#[trigger] infos@[i]).image_id != (
                #[trigger] infos@[j]).image_id,
            forall|j: int|
                0 <= j < self.info_indices@.len() ==> {
                    let info = infos@[(#[trigger] self.info_indices@[j]) as int];
                    let img = old(device).images@[info.image_id as int];
                    &&& info.image_id < old(device).images@.len()
                    &&& img.live
                    &&& img.layout == ImageLayout::Undefined
                    &&& img.events@ == Seq::<ImageEvent>::empty()
                },
        ensures
            final(device).wf(),
            final(device).same_config(*old(device)),
            final(device).buffers@ == old(device).buffers@,
            final(device).memories@ == old(device).memories@,
            final(device).pools@ == old(device).pools@,
            final(device).sets@ == old(device).sets@,
            final(device).recording == old(device).recording,
            final(device).calls@ == old(device).calls@,
            final(device).images@.len() == old(device).images@.len(),
            spec_depth_phase(self.info_indices@, infos@, *old(device), *final(device)),
    {
        proof {
            reveal(spec_depth_phase);
        }
        let ghost entry = *device;
        let n = self.info_indices.len();
        let mut j: usize = 0;
        while j < n
            invariant
                j <= n,
                n == self.info_indices@.len(),
                entry == *old(device),
                device.wf(),
                device.same_config(entry),
                device.buffers@ == entry.buffers@,
                device.memories@ == entry.memories@,
                device.pools@ == entry.pools@,
                device.sets@ == entry.sets@,
                device.recording == entry.recording,
                device.recording,
                device.calls@ == entry.calls@,
                device.images@.len() == entry.images@.len(),
                spec_indices_ok(self.info_indices@, infos@, false),
                forall|a: int, b: int|
                    0 <= a < b < infos@.len() ==> (#[trigger] infos@[a]).image_id != (
                    #[trigger] infos@[b]).image_id,
                forall|jj: int|
                    0 <= jj < n ==> {
                        let info = infos@[(#[trigger] self.info_indices@[jj]) as int];
                        let img = entry.images@[info.image_id as int];
                        &&& info.image_id < entry.images@.len()
                        &&& img.live
                        &&& img.layout == ImageLayout::Undefined
                        &&& img.events@ == Seq::<ImageEvent>::empty()
                    },
                forall|im: int|
                    0 <= im < entry.images@.len() && !spec_listed_image(
                        self.info_indices@,
                        infos@,
                        im,
                    ) ==> (#[trigger] device.images@[im]) == entry.images@[im],
                forall|jj: int|
                    j <= jj < n ==> (#[trigger] device.images@[infos@[self.info_indices@[jj]
                        as int].image_id as int]) == entry.images@[infos@[self.info_indices@[jj]
                        as int].image_id as int],
                forall|jj: int|
                    0 <= jj < j ==> {
                        let info = infos@[(#[trigger] self.info_indices@[jj]) as int];
                        let before = entry.images@[info.image_id as int];
                        let after = device.images@[info.image_id as int];
                        &&& after.layout == ImageLayout::DepthStencilAttachmentOptimal
                        &&& after.events@ == info.spec_transition_events()
                        &&& after.live == before.live
                        &&& after.bound == before.bound
                        &&& after.byte_size == before.byte_size
                        &&& after.usage == before.usage
                        &&& after.extent == before.extent
                        &&& after.format == before.format
                    },
            decreases n - j,
        {
            proof {
                reveal(spec_listed_image);
            }
            let idx = self.info_indices[j];
            let id = infos[idx].image_id;
            proof {
                assert(device.images@[infos@[self.info_indices@[j as int] as int].image_id
                    as int] == entry.images@[infos@[self.info_indices@[j as int]
                    as int].image_id as int]);
            }
            device.cmd_image_barrier(
                id,
                ImageLayout::Undefined,
                ImageLayout::DepthStencilAttachmentOptimal,
            );
            proof {
                let me = infos@[idx as int];
                assert(device.images@[me.image_id as int].events@ =~= me.spec_transition_events());
                assert forall|jj: int|
                    j + 1 <= jj < n implies (#[trigger] device.images@[infos@[
                self.info_indices@[jj] as int].image_id as int]) == entry.images@[infos@[
                    self.info_indices@[jj] as int].image_id as int] by {
                    if self.info_indices@[jj] != idx {
                        lemma_indices_increasing(
                            self.info_indices@,
                            infos@,
                            false,
                            j as int,
                            jj,
                        );
                    }
                };
            }
            j = j + 1;
        }
        proof {
            reveal(spec_listed_image);
        }
    }
}

/// Whether `im` is the image of a record named by `indices`.
#[verifier::opaque]
pub open spec fn spec_listed_image(
    indices: Seq<usize>,
    infos: Seq<ImageAllotInfo>,
    im: int,
) -> bool {
    exists|j: int| 0 <= j < indices.len() && infos[indices[j] as int].image_id == im
}


impl SampleImageBarrierBundle {
    /// The per-image facts the transfer stream starts from: live, bound
    /// into `mem`, in the initial layout with an empty trail.
    pub open spec fn pre_transform_ok(
        self,
        infos: Seq<ImageAllotInfo>,
        d: GsDevice,
        mem: usize,
    ) -> bool {
        forall|j: int|
            0 <= j < self.info_indices@.len() ==> {
                let info = infos[(#[trigger] self.info_indices@[j]) as int];
                let img = d.images@[info.image_id as int];
                &&& info.image_id < d.images@.len()
                &&& img.live
                &&& img.layout == ImageLayout::Undefined
                &&& img.events@ == Seq::<ImageEvent>::empty()
                &&& img.byte_size == info.byte_size
                &&& 1 <= info.byte_size
                &&& img.usage == info.spec_usage()
                &&& (img.bound matches Some((m, _)) && m == mem)
            }
    }

    /// Listed images occupy ordered, disjoint regions of the block.
    pub open spec fn regions_ordered(
        self,
        infos: Seq<ImageAllotInfo>,
        d: GsDevice,
    ) -> bool {
        forall|a: int, b: int|
            0 <= a < b < self.info_indices@.len() ==> {
                let ia = infos[(#[trigger] self.info_indices@[a]) as int];
                let ib = infos[(#[trigger] self.info_indices@[b]) as int];
                d.images@[ia.image_id as int].bound->Some_0.1 + ia.byte_size <= d.images@[
                    ib.image_id as int].bound->Some_0.1
            }
    }

    /// Record the whole transition of every listed image, in one stream:
    /// a barrier from the initial layout into the transfer-destination
    /// layout, the copy of its staged pixel bytes, and a barrier into the
    /// shader-readable layout — exactly these three, in this order.
    pub fn make_barrier_transform(
        &self,
        device: &mut GsDevice,
        infos: &Vec<ImageAllotInfo>,
        mem: usize,
    )
        requires
            old(device).wf(),
            old(device).recording,
            self.staging_ok(infos@, *old(device)),
            spec_indices_ok(self.info_indices@, infos@, true),
            forall|a: int, b: int|
                0 <= a < b < infos@.len() ==> (#[trigger] infos@[a]).image_id != (
                #[trigger] infos@[b]).image_id,
            mem < old(device).memories@.len(),
            old(device).memories@[mem as int].live,
            (self.staging_repository matches Some(st) && st.group.memory_id != mem),
            self.pre_transform_ok(infos@, *old(device), mem),
            self.regions_ordered(infos@, *old(device)),
            forall|i: int|
                0 <= i < infos@.len() ==> ((#[trigger] infos@[i]).is_sample() <==> (
                infos@[i].storage.source matches ImageSource::UploadData(dd) && dd.data@.len()
                    == infos@[i].byte_size)),
            ({
                let st = self.staging_repository->0;
                forall|j: int|
                    0 <= j < self.info_indices@.len() ==> old(device).memories@[
                        st.group.memory_id as int].data@.subrange(
                        #[trigger] st.group.offsets@[j] as int,
                        st.group.offsets@[j] + infos@[self.info_indices@[j] as int].byte_size,
                    ) == infos@[self.info_indices@[j] as int].spec_pixels()
            }),
        ensures
            final(device).wf(),
            final(device).same_config(*old(device)),
            final(device).buffers@ == old(device).buffers@,
            final(device).pools@ == old(device).pools@,
            final(device).sets@ == old(device).sets@,
            final(device).recording == old(device).recording,
            final(device).calls@ == old(device).calls@,
            final(device).images@.len() == old(device).images@.len(),
            final(device).memories@.len() == old(device).memories@.len(),
            final(device).spec_live_memory_ids() == old(device).spec_live_memory_ids(),
            forall|jm: int|
                0 <= jm < old(device).memories@.len() && jm != mem ==> (
                #[trigger] final(device).memories@[jm]) == old(device).memories@[jm],
            final(device).memories@[mem as int] == (MemoryObj {
                data: final(device).memories@[mem as int].data,
                ..old(device).memories@[mem as int]
            }),
            spec_sample_phase(self.info_indices@, infos@, *old(device), *final(device), mem),
    {
        proof {
            reveal(spec_sample_phase);
        }
        let st = match &self.staging_repository {
            Some(st) => st,
            None => {
                proof {
                    assert(false);
                }
                return ;
            },
        };
        let ghost ph0 = *device;
        let n = self.info_indices.len();

        // make image barrier transition for data transfer.
        let mut j: usize = 0;
        while j < n
            invariant
                j <= n,
                n == self.info_indices@.len(),
                ph0 == *old(device),
                device.wf(),
                device.same_config(ph0),
                device.buffers@ == ph0.buffers@,
                device.memories@ == ph0.memories@,
                device.pools@ == ph0.pools@,
                device.sets@ == ph0.sets@,
                device.recording == ph0.recording,
                device.recording,
                device.calls@ == ph0.calls@,
                device.images@.len() == ph0.images@.len(),
                spec_indices_ok(self.info_indices@, infos@, true),
                forall|a: int, b: int|
                    0 <= a < b < infos@.len() ==> (#[trigger] infos@[a]).image_id != (
                    #[trigger] infos@[b]).image_id,
                self.pre_transform_ok(infos@, ph0, mem),
                forall|im: int|
                    0 <= im < ph0.images@.len() && !spec_listed_image(
                        self.info_indices@,
                        infos@,
                        im,
                    ) ==> (#[trigger] device.images@[im]) == ph0.images@[im],
                forall|jj: int|
                    j <= jj < n ==> (#[trigger] device.images@[infos@[self.info_indices@[jj]
                        as int].image_id as int]) == ph0.images@[infos@[self.info_indices@[jj]
                        as int].image_id as int],
                forall|jj: int|
                    0 <= jj < j ==> {
                        let info = infos@[(#[trigger] self.info_indices@[jj]) as int];
                        let before = ph0.images@[info.image_id as int];
                        let after = device.images@[info.image_id as int];
                        &&& after.layout == ImageLayout::TransferDstOptimal
                        &&& after.events@ == seq![
                            ImageEvent::Barrier {
                                from: ImageLayout::Undefined,
                                to: ImageLayout::TransferDstOptimal,
                            },
                        ]
                        &&& after.live == before.live
                        &&& after.bound == before.bound
                        &&& after.byte_size == before.byte_size
                        &&& after.usage == before.usage
                        &&& after.extent == before.extent
                        &&& after.format == before.format
                    },
            decreases n - j,
        {
            proof {
                reveal(spec_listed_image);
            }
            let idx = self.info_indices[j];
            let id = infos[idx].image_id;
            device.cmd_image_barrier(
                id,
                ImageLayout::Undefined,
                ImageLayout::TransferDstOptimal,
            );
            proof {
                let me = infos@[idx as int];
                assert(device.images@[me.image_id as int].events@ =~= seq![
                    ImageEvent::Barrier {
                        from: ImageLayout::Undefined,
                        to: ImageLayout::TransferDstOptimal,
                    },
                ]);
                assert forall|jj: int|
                    j + 1 <= jj < n implies (#[trigger] device.images@[infos@[
                self.info_indices@[jj] as int].image_id as int]) == ph0.images@[infos@[
                    self.info_indices@[jj] as int].image_id as int] by {
                    if self.info_indices@[jj] != idx {
                        lemma_indices_increasing(self.info_indices@, infos@, true, j as int, jj);
                    }
                };
            }
            j = j + 1;
        }
        proof {
            reveal(spec_listed_image);
        }
        let ghost ph1 = *device;

        // copy staged bytes into every image.
        let ghost sm = st.group.memory_id as int;
        let mut j: usize = 0;
        while j < n
            invariant
                j <= n,
                n == self.info_indices@.len(),
                ph0 == *old(device),
                ph1.wf(),
                device.wf(),
                device.same_config(ph1),
                device.buffers@ == ph1.buffers@,
                device.buffers@ == ph0.buffers@,
                device.pools@ == ph1.pools@,
                device.sets@ == ph1.sets@,
                device.recording == ph1.recording,
                device.recording,
                device.calls@ == ph1.calls@,
                device.calls@ == ph0.calls@,
                device.images@.len() == ph1.images@.len(),
                ph1.images@.len() == ph0.images@.len(),
                ph1.memories@ == ph0.memories@,
                device.memories@.len() == ph0.memories@.len(),
                mem < device.memories@.len(),
                ph0.memories@[mem as int].live,
                sm == st.group.memory_id as int,
                sm != mem,
                self.staging_repository matches Some(st2) && st2 == st,
                self.staging_ok(infos@, ph0),
                self.staging_ok(infos@, *device),
                spec_indices_ok(self.info_indices@, infos@, true),
                forall|a: int, b: int|
                    0 <= a < b < infos@.len() ==> (#[trigger] infos@[a]).image_id != (
                    #[trigger] infos@[b]).image_id,
                self.pre_transform_ok(infos@, ph0, mem),
                self.regions_ordered(infos@, ph0),
                forall|i: int|
                    0 <= i < infos@.len() ==> ((#[trigger] infos@[i]).is_sample() <==> (
                    infos@[i].storage.source matches ImageSource::UploadData(dd) && dd.data@.len()
                        == infos@[i].byte_size)),
                forall|jj: int|
                    0 <= jj < n ==> ph0.memories@[sm].data@.subrange(
                        #[trigger] st.group.offsets@[jj] as int,
                        st.group.offsets@[jj] + infos@[self.info_indices@[jj] as int].byte_size,
                    ) == infos@[self.info_indices@[jj] as int].spec_pixels(),
                forall|im: int|
                    0 <= im < ph0.images@.len() && !spec_listed_image(
                        self.info_indices@,
                        infos@,
                        im,
                    ) ==> (#[trigger] device.images@[im]) == ph0.images@[im],
                forall|jj: int|
                    0 <= jj < n ==> {
                        let info = infos@[(#[trigger] self.info_indices@[jj]) as int];
                        let before = ph0.images@[info.image_id as int];
                        let after = device.images@[info.image_id as int];
                        &&& after.layout == ImageLayout::TransferDstOptimal
                        &&& after.live == before.live
                        &&& after.bound == before.bound
                        &&& after.byte_size == before.byte_size
                        &&& after.usage == before.usage
                        &&& after.extent == before.extent
                        &&& after.format == before.format
                    },
                forall|jj: int|
                    j <= jj < n ==> (#[trigger] device.images@[infos@[self.info_indices@[jj]
                        as int].image_id as int]).events@ == seq![
                        ImageEvent::Barrier {
                            from: ImageLayout::Undefined,
                            to: ImageLayout::TransferDstOptimal,
                        },
                    ],
                forall|jj: int|
                    0 <= jj < j ==> (#[trigger] device.images@[infos@[self.info_indices@[jj]
                        as int].image_id as int]).events@ == seq![
                        ImageEvent::Barrier {
                            from: ImageLayout::Undefined,
                            to: ImageLayout::TransferDstOptimal,
                        },
                        ImageEvent::Copy,
                    ],
                forall|jm: int|
                    0 <= jm < ph0.memories@.len() && jm != mem ==> (
                    #[trigger] device.memories@[jm]) == ph0.memories@[jm],
                device.memories@[mem as int] == (MemoryObj {
                    data: device.memories@[mem as int].data,
                    ..ph0.memories@[mem as int]
                }),
                forall|jj: int|
                    0 <= jj < j ==> {
                        let info = infos@[(#[trigger] self.info_indices@[jj]) as int];
                        let off = ph0.images@[info.image_id as int].bound->Some_0.1 as int;
                        device.memories@[mem as int].data@.subrange(off, off + info.byte_size)
                            == info.spec_pixels()
                    },
            decreases n - j,
        {
            proof {
                reveal(spec_listed_image);
            }
            let idx = self.info_indices[j];
            let id = infos[idx].image_id;
            let src = st.group.buffer_ids[j];
            proof {
                let me = infos@[idx as int];
                let sb = device.buffers@[(#[trigger] st.group.buffer_ids@[j as int]) as int];
                assert(sb.size == st.group.descriptors@[j as int].size);
                assert(st.group.descriptors@[j as int].size == me.byte_size);
                assert(sb.usage == GsMemoryType::StagingMemory.spec_complement_usage(
                    st.group.descriptors@[j as int].usage,
                ));
                lemma_or_contains(
                    st.group.descriptors@[j as int].usage,
                    BUFFER_USAGE_TRANSFER_SRC,
                );
                lemma_or_contains(
                    crate::policy::IMAGE_USAGE_SAMPLED,
                    crate::policy::IMAGE_USAGE_TRANSFER_DST,
                );
                assert(device.images@[id as int].usage == me.spec_usage());
                assert(sb.bound == Some((st.group.memory_id, st.group.offsets@[j as int])));
                assert(device.memories@[mem as int].live);
                assert(device.images@[id as int].bound == ph0.images@[id as int].bound);
                assert(device.images@[id as int].bound->Some_0.0 == mem);
                assert(device.memories@[sm].live);
            }
            let ghost pre = *device;
            device.cmd_copy_buffer_to_image(src, id);
            proof {
                let me = infos@[idx as int];
                let off = ph0.images@[me.image_id as int].bound->Some_0.1 as int;
                let soff = st.group.offsets@[j as int] as int;
                let moved = pre.memories@[sm].data@.subrange(soff, soff + me.byte_size);
                assert(pre.memories@[sm] == ph0.memories@[sm]);
                assert(moved == me.spec_pixels());
                lemma_overwrite_reads_back(pre.memories@[mem as int].data@, off, moved);
                assert(device.images@[me.image_id as int].events@ =~= seq![
                    ImageEvent::Barrier {
                        from: ImageLayout::Undefined,
                        to: ImageLayout::TransferDstOptimal,
                    },
                    ImageEvent::Copy,
                ]);
                assert forall|jj: int| 0 <= jj < j implies {
                    let info = infos@[(#[trigger] self.info_indices@[jj]) as int];
                    let off2 = ph0.images@[info.image_id as int].bound->Some_0.1 as int;
                    device.memories@[mem as int].data@.subrange(off2, off2 + info.byte_size)
                        == info.spec_pixels()
                } by {
                    let info = infos@[self.info_indices@[jj] as int];
                    let off2 = ph0.images@[info.image_id as int].bound->Some_0.1 as int;
                    assert(off2 + info.byte_size <= off);
                    lemma_overwrite_elsewhere(
                        pre.memories@[mem as int].data@,
                        off,
                        moved,
                        off2,
                        off2 + info.byte_size,
                    );
                };
                assert forall|jj: int|
                    j + 1 <= jj < n implies (#[trigger] device.images@[infos@[
                self.info_indices@[jj] as int].image_id as int]).events@ == seq![
                    ImageEvent::Barrier {
                        from: ImageLayout::Undefined,
                        to: ImageLayout::TransferDstOptimal,
                    },
                ] by {
                    if self.info_indices@[jj] != idx {
                        lemma_indices_increasing(self.info_indices@, infos@, true, j as int, jj);
                    }
                };
            }
            j = j + 1;
        }
        proof {
            reveal(spec_listed_image);
        }
        let ghost ph2 = *device;

        // make image barrier transition for the final layout.
        let mut j: usize = 0;
        while j < n
            invariant
                j <= n,
                n == self.info_indices@.len(),
                ph0 == *old(device),
                device.wf(),
                device.same_config(ph2),
                device.buffers@ == ph2.buffers@,
                device.buffers@ == ph0.buffers@,
                device.memories@ == ph2.memories@,
                device.pools@ == ph2.pools@,
                device.sets@ == ph2.sets@,
                device.recording == ph2.recording,
                device.recording == ph0.recording,
                device.recording,
                device.calls@ == ph2.calls@,
                device.calls@ == ph0.calls@,
                device.images@.len() == ph2.images@.len(),
                ph2.images@.len() == ph0.images@.len(),
                device.memories@.len() == ph0.memories@.len(),
                mem < device.memories@.len(),
                forall|jm: int|
                    0 <= jm < ph0.memories@.len() && jm != mem ==> (
                    #[trigger] device.memories@[jm]) == ph0.memories@[jm],
                device.memories@[mem as int] == (MemoryObj {
                    data: device.memories@[mem as int].data,
                    ..ph0.memories@[mem as int]
                }),
                spec_indices_ok(self.info_indices@, infos@, true),
                forall|a: int, b: int|
                    0 <= a < b < infos@.len() ==> (#[trigger] infos@[a]).image_id != (
                    #[trigger] infos@[b]).image_id,
                self.pre_transform_ok(infos@, ph0, mem),
                forall|im: int|
                    0 <= im < ph0.images@.len() && !spec_listed_image(
                        self.info_indices@,
                        infos@,
                        im,
                    ) ==> (#[trigger] device.images@[im]) == ph0.images@[im],
                forall|jj: int|
                    j <= jj < n ==> (#[trigger] device.images@[infos@[self.info_indices@[jj]
                        as int].image_id as int]) == ph2.images@[infos@[self.info_indices@[jj]
                        as int].image_id as int],
                forall|jj: int|
                    0 <= jj < n ==> {
                        let info = infos@[(#[trigger] self.info_indices@[jj]) as int];
                        let before = ph0.images@[info.image_id as int];
                        let atcopy = ph2.images@[info.image_id as int];
                        &&& atcopy.layout == ImageLayout::TransferDstOptimal
                        &&& atcopy.events@ == seq![
                            ImageEvent::Barrier {
                                from: ImageLayout::Undefined,
                                to: ImageLayout::TransferDstOptimal,
                            },
                            ImageEvent::Copy,
                        ]
                        &&& atcopy.live == before.live
                        &&& atcopy.bound == before.bound
                        &&& atcopy.byte_size == before.byte_size
                        &&& atcopy.usage == before.usage
                        &&& atcopy.extent == before.extent
                        &&& atcopy.format == before.format
                    },
                forall|jj: int|
                    0 <= jj < j ==> {
                        let info = infos@[(#[trigger] self.info_indices@[jj]) as int];
                        let before = ph0.images@[info.image_id as int];
                        let after = device.images@[info.image_id as int];
                        &&& after.layout == ImageLayout::ShaderReadOnlyOptimal
                        &&& after.events@ == info.spec_transition_events()
                        &&& after.live == before.live
                        &&& after.bound == before.bound
                        &&& after.byte_size == before.byte_size
                        &&& after.usage == before.usage
                        &&& after.extent == before.extent
                        &&& after.format == before.format
                    },
                forall|jj: int|
                    0 <= jj < n ==> {
                        let info = infos@[(#[trigger] self.info_indices@[jj]) as int];
                        let off = ph0.images@[info.image_id as int].bound->Some_0.1 as int;
                        device.memories@[mem as int].data@.subrange(off, off + info.byte_size)
                            == info.spec_pixels()
                    },
            decreases n - j,
        {
            proof {
                reveal(spec_listed_image);
            }
            let idx = self.info_indices[j];
            let id = infos[idx].image_id;
            proof {
                assert(device.images@[infos@[self.info_indices@[j as int] as int].image_id
                    as int] == ph2.images@[infos@[self.info_indices@[j as int]
                    as int].image_id as int]);
                assert(ph2.images@[id as int].layout == ImageLayout::TransferDstOptimal);
                assert(ph2.images@[id as int].live);
            }
            device.cmd_image_barrier(
                id,
                ImageLayout::TransferDstOptimal,
                ImageLayout::ShaderReadOnlyOptimal,
            );
            proof {
                let me = infos@[idx as int];
                assert(device.images@[me.image_id as int].events@
                    =~= me.spec_transition_events());
                assert forall|jj: int|
                    j + 1 <= jj < n implies (#[trigger] device.images@[infos@[
                self.info_indices@[jj] as int].image_id as int]) == ph2.images@[infos@[
                    self.info_indices@[jj] as int].image_id as int] by {
                    if self.info_indices@[jj] != idx {
                        lemma_indices_increasing(self.info_indices@, infos@, true, j as int, jj);
                    }
                };
            }
            j = j + 1;
        }
    }
}


/// Destroy every attached image, the cleanup an image allocator owes for
/// its phase-one objects when phase two cannot finish.
fn cleanup_images(device: &mut GsDevice, infos: &Vec<ImageAllotInfo>)
    requires
        old(device).wf(),
        forall|i: int|
            0 <= i < infos@.len() ==> (#[trigger] infos@[i]).image_id < old(device).images@.len(),
        forall|i: int|
            0 <= i < infos@.len() ==> old(device).images@[(
            #[trigger] infos@[i]).image_id as int].live,
        forall|i: int, j: int|
            0 <= i < j < infos@.len() ==> (#[trigger] infos@[i]).image_id != (
            #[trigger] infos@[j]).image_id,
    ensures
        final(device).wf(),
        final(device).same_config(*old(device)),
        final(device).buffers@ == old(device).buffers@,
        final(device).memories@ == old(device).memories@,
        final(device).pools@ == old(device).pools@,
        final(device).sets@ == old(device).sets@,
        final(device).recording == old(device).recording,
        final(device).images@.len() == old(device).images@.len(),
        forall|i: int|
            0 <= i < infos@.len() ==> !final(device).images@[(
            #[trigger] infos@[i]).image_id as int].live,
        forall|im: int|
            0 <= im < old(device).images@.len() && !spec_image_in_prefix(
                infos@,
                infos@.len() as int,
                im,
            ) ==> (#[trigger] final(device).images@[im]) == old(device).images@[im],
{
    proof {
        reveal(spec_image_in_prefix);
    }
    let n = infos.len();
    let ghost pre = *device;
    let mut k: usize = 0;
    while k < n
        invariant
            k <= n,
            n == infos@.len(),
            device.wf(),
            device.same_config(pre),
            device.buffers@ == pre.buffers@,
            device.memories@ == pre.memories@,
            device.pools@ == pre.pools@,
            device.sets@ == pre.sets@,
            device.recording == pre.recording,
            device.images@.len() == pre.images@.len(),
            forall|i: int|
                0 <= i < n ==> (#[trigger] infos@[i]).image_id < pre.images@.len(),
            forall|i: int, j: int|
                0 <= i < j < n ==> (#[trigger] infos@[i]).image_id != (
                #[trigger] infos@[j]).image_id,
            forall|i: int|
                k <= i < n ==> device.images@[(#[trigger] infos@[i]).image_id as int]
                    == pre.images@[infos@[i].image_id as int],
            forall|i: int|
                0 <= i < n ==> pre.images@[(#[trigger] infos@[i]).image_id as int].live,
            forall|i: int|
                0 <= i < k ==> !device.images@[(#[trigger] infos@[i]).image_id as int].live,
            forall|im: int|
                0 <= im < pre.images@.len() && !spec_image_in_prefix(infos@, k as int, im)
                    ==> (#[trigger] device.images@[im]) == pre.images@[im],
        decreases n - k,
    {
        proof {
            reveal(spec_image_in_prefix);
        }
        let id = infos[k].image_id;
        device.destroy_image(id);
        k = k + 1;
    }
}

/// Destroy every attached image and then free the block they were bound
/// into: the failure path once phase two has already placed them.
fn release_images_and_block(device: &mut GsDevice, infos: &Vec<ImageAllotInfo>, mem: usize)
    requires
        old(device).wf(),
        mem < old(device).memories@.len(),
        old(device).memories@[mem as int].live,
        forall|i: int|
            0 <= i < infos@.len() ==> (#[trigger] infos@[i]).image_id < old(device).images@.len(),
        forall|i: int|
            0 <= i < infos@.len() ==> old(device).images@[(
            #[trigger] infos@[i]).image_id as int].live,
        forall|i: int, j: int|
            0 <= i < j < infos@.len() ==> (#[trigger] infos@[i]).image_id != (
            #[trigger] infos@[j]).image_id,
        spec_block_exclusive(infos@, *old(device), mem),
    ensures
        final(device).wf(),
        final(device).same_config(*old(device)),
        final(device).buffers@ == old(device).buffers@,
        final(device).pools@ == old(device).pools@,
        final(device).sets@ == old(device).sets@,
        final(device).recording == old(device).recording,
        final(device).images@.len() == old(device).images@.len(),
        final(device).memories@.len() == old(device).memories@.len(),
        forall|i: int|
            0 <= i < infos@.len() ==> !final(device).images@[(
            #[trigger] infos@[i]).image_id as int].live,
        final(device).spec_live_memory_ids() == old(device).spec_live_memory_ids().remove(
            mem as int,
        ),
{
    let ghost pre = *device;
    cleanup_images(device, infos);
    proof {
        reveal(spec_block_exclusive);
        reveal(spec_image_in_prefix);
        assert(!device.spec_has_live_binding(mem as int)) by {
            assert forall|b: int|
                !(0 <= b < device.buffers@.len() && (#[trigger] device.buffers@[b]).live && (
                device.buffers@[b].bound matches Some((m, _)) && m == mem)) by {
                if 0 <= b < device.buffers@.len() && device.buffers@[b].live {
                    assert(device.buffers@[b] == pre.buffers@[b]);
                }
            };
            assert forall|im: int|
                !(0 <= im < device.images@.len() && (#[trigger] device.images@[im]).live && (
                device.images@[im].bound matches Some((m, _)) && m == mem)) by {
                if 0 <= im < device.images@.len() && device.images@[im].live {
                    if spec_image_in_prefix(infos@, infos@.len() as int, im) {
                        let j = choose|j: int|
                            0 <= j < infos@.len() && infos@[j].image_id == im;
                        assert(!device.images@[(#[trigger] infos@[j]).image_id as int].live);
                        assert(false);
                    } else {
                        assert(device.images@[im] == pre.images@[im]);
                    }
                }
            };
        };
    }
    device.free_memory(mem);
    proof {
        assert(final(device).spec_live_memory_ids() =~= old(device).spec_live_memory_ids().remove(
            mem as int,
        ));
    }
}



/// Whether any record carries pixels to stage.
pub open spec fn spec_has_sample(infos: Seq<ImageAllotInfo>) -> bool {
    exists|i: int| 0 <= i < infos.len() && (#[trigger] infos[i]).is_sample()
}

/// The state every record's image is in once bound, before the transfer
/// stream: live, bound at its prefix-sum offset in `mem`, initial layout,
/// empty trail, with its recipe's usage and its pixel source consistent.
#[verifier::opaque]
pub open spec fn spec_images_bound(
    infos: Seq<ImageAllotInfo>,
    d: GsDevice,
    mem: usize,
    offsets: Seq<vkbytes>,
) -> bool {
    &&& offsets.len() == infos.len()
    &&& forall|i: int|
        0 <= i < infos.len() ==> #[trigger] offsets[i] == spec_image_space_sum(infos, i)
    &&& forall|i: int, j: int|
        0 <= i < j < infos.len() ==> (#[trigger] infos[i]).image_id != (
        #[trigger] infos[j]).image_id
    &&& forall|i: int| 0 <= i < infos.len() ==> (#[trigger] infos[i]).image_id < d.images@.len()
    &&& forall|i: int|
        0 <= i < infos.len() ==> {
            let info = #[trigger] infos[i];
            let img = d.images@[info.image_id as int];
            &&& img.live
            &&& img.bound == Some((mem, offsets[i]))
            &&& img.byte_size == info.byte_size
            &&& 1 <= info.byte_size
            &&& info.byte_size <= info.space
            &&& img.usage == info.spec_usage()
            &&& img.layout == ImageLayout::Undefined
            &&& img.events@ == Seq::<ImageEvent>::empty()
            &&& (info.is_sample() <==> (info.storage.source matches ImageSource::UploadData(dd)
                && dd.data@.len() == info.byte_size))
        }
}


/// The raw facts behind `spec_images_bound`, available without opening
/// the whole predicate.
pub proof fn lemma_images_bound_facts(
    infos: Seq<ImageAllotInfo>,
    d: GsDevice,
    mem: usize,
    offsets: Seq<vkbytes>,
)
    requires
        spec_images_bound(infos, d, mem, offsets),
    ensures
        offsets.len() == infos.len(),
        forall|i: int|
            0 <= i < infos.len() ==> #[trigger] offsets[i] == spec_image_space_sum(infos, i),
        forall|i: int, j: int|
            0 <= i < j < infos.len() ==> (#[trigger] infos[i]).image_id != (
            #[trigger] infos[j]).image_id,
        forall|i: int| 0 <= i < infos.len() ==> (#[trigger] infos[i]).image_id < d.images@.len(),
        forall|i: int|
            0 <= i < infos.len() ==> {
                let info = #[trigger] infos[i];
                let img = d.images@[info.image_id as int];
                &&& img.live
                &&& img.bound == Some((mem, offsets[i]))
                &&& img.byte_size == info.byte_size
                &&& 1 <= info.byte_size
                &&& info.byte_size <= info.space
                &&& img.usage == info.spec_usage()
                &&& img.layout == ImageLayout::Undefined
                &&& img.events@ == Seq::<ImageEvent>::empty()
                &&& (info.is_sample() <==> (info.storage.source
                    matches ImageSource::UploadData(dd) && dd.data@.len() == info.byte_size))
            },
{
    reveal(spec_images_bound);
}

/// Nothing outside the records claims the block: every live image bound
/// into `mem` is one of the records', and no live buffer is bound there.
#[verifier::opaque]
pub open spec fn spec_block_exclusive(
    infos: Seq<ImageAllotInfo>,
    d: GsDevice,
    mem: usize,
) -> bool {
    &&& forall|im: int|
        0 <= im < d.images@.len() && (#[trigger] d.images@[im]).live && (d.images@[im].bound
            matches Some((m, _)) && m == mem) ==> spec_image_in_prefix(
            infos,
            infos.len() as int,
            im,
        )
    &&& forall|b: int|
        0 <= b < d.buffers@.len() && (#[trigger] d.buffers@[b]).live ==> !(d.buffers@[b].bound
            matches Some((m, _)) && m == mem)
}


/// The block's exclusivity survives device changes that keep the images
/// and every pre-existing buffer, and add only buffers that are dead or
/// bound elsewhere.
pub proof fn lemma_block_exclusive_preserved(
    infos: Seq<ImageAllotInfo>,
    d0: GsDevice,
    d1: GsDevice,
    mem: usize,
)
    requires
        spec_block_exclusive(infos, d0, mem),
        d1.images@ == d0.images@,
        d1.buffers@.len() >= d0.buffers@.len(),
        forall|b: int|
            0 <= b < d0.buffers@.len() ==> #[trigger] d1.buffers@[b] == d0.buffers@[b],
        forall|b: int|
            d0.buffers@.len() <= b < d1.buffers@.len() ==> (!(#[trigger] d1.buffers@[b]).live
                || (d1.buffers@[b].bound matches Some((m, _)) && m != mem)),
    ensures
        spec_block_exclusive(infos, d1, mem),
{
    reveal(spec_block_exclusive);
    assert forall|b: int|
        0 <= b < d1.buffers@.len() && (#[trigger] d1.buffers@[b]).live implies !(
    d1.buffers@[b].bound matches Some((m, _)) && m == mem) by {
        if b < d0.buffers@.len() {
            assert(d1.buffers@[b] == d0.buffers@[b]);
        }
    };
}


/// Everything the sampled-image pass of the transfer stream did, from
/// `d0` (bound, untouched) to `d1`: listed images carry exactly their
/// three-event trail and their pixels, every other image stands as it
/// was.
#[verifier::opaque]
pub open spec fn spec_sample_phase(
    indices: Seq<usize>,
    infos: Seq<ImageAllotInfo>,
    d0: GsDevice,
    d1: GsDevice,
    mem: usize,
) -> bool {
    &&& forall|im: int|
        0 <= im < d0.images@.len() && !spec_listed_image(indices, infos, im) ==> #[trigger] d1.images@[im] == d0.images@[im]
    &&& forall|j: int|
        0 <= j < indices.len() ==> {
            let info = infos[(#[trigger] indices[j]) as int];
            let before = d0.images@[info.image_id as int];
            let after = d1.images@[info.image_id as int];
            &&& after.layout == ImageLayout::ShaderReadOnlyOptimal
            &&& after.events@ == info.spec_transition_events()
            &&& after.live == before.live
            &&& after.bound == before.bound
            &&& after.byte_size == before.byte_size
            &&& after.usage == before.usage
            &&& after.extent == before.extent
            &&& after.format == before.format
        }
    &&& forall|j: int|
        0 <= j < indices.len() ==> {
            let info = infos[(#[trigger] indices[j]) as int];
            let off = d0.images@[info.image_id as int].bound->Some_0.1 as int;
            d1.memories@[mem as int].data@.subrange(off, off + info.byte_size)
                == info.spec_pixels()
        }
}

/// Everything the depth-stencil pass did, from `d0` to `d1`: listed
/// images carry exactly their one-barrier trail, every other image stands
/// as it was.
#[verifier::opaque]
pub open spec fn spec_depth_phase(
    indices: Seq<usize>,
    infos: Seq<ImageAllotInfo>,
    d0: GsDevice,
    d1: GsDevice,
) -> bool {
    &&& forall|im: int|
        0 <= im < d0.images@.len() && !spec_listed_image(indices, infos, im) ==> #[trigger] d1.images@[im] == d0.images@[im]
    &&& forall|j: int|
        0 <= j < indices.len() ==> {
            let info = infos[(#[trigger] indices[j]) as int];
            let before = d0.images@[info.image_id as int];
            let after = d1.images@[info.image_id as int];
            &&& after.layout == ImageLayout::DepthStencilAttachmentOptimal
            &&& after.events@ == info.spec_transition_events()
            &&& after.live == before.live
            &&& after.bound == before.bound
            &&& after.byte_size == before.byte_size
            &&& after.usage == before.usage
            &&& after.extent == before.extent
            &&& after.format == before.format
        }
}

/// Turn the sampled pass's per-listed account into a per-record one:
/// every sampled record was transformed and filled, every other record's
/// image was left alone, and so was every image outside the allocation.
pub proof fn lemma_sample_phase_per_record(
    indices: Seq<usize>,
    infos: Seq<ImageAllotInfo>,
    d0: GsDevice,
    d1: GsDevice,
    mem: usize,
)
    requires
        spec_sample_phase(indices, infos, d0, d1, mem),
        spec_indices_ok(indices, infos, true),
        forall|i: int|
            0 <= i < infos.len() && (#[trigger] infos[i]).is_sample() ==> spec_index_listed(
                indices,
                i,
            ),
        forall|i: int, j: int|
            0 <= i < j < infos.len() ==> (#[trigger] infos[i]).image_id != (
            #[trigger] infos[j]).image_id,
        forall|i: int| 0 <= i < infos.len() ==> (#[trigger] infos[i]).image_id < d0.images@.len(),
        infos.len() <= usize::MAX,
    ensures
        forall|i: int|
            0 <= i < infos.len() && (#[trigger] infos[i]).is_sample() ==> {
                let info = infos[i];
                let before = d0.images@[info.image_id as int];
                let after = d1.images@[info.image_id as int];
                &&& after.layout == ImageLayout::ShaderReadOnlyOptimal
                &&& after.events@ == info.spec_transition_events()
                &&& after.live == before.live
                &&& after.bound == before.bound
                &&& after.byte_size == before.byte_size
                &&& after.usage == before.usage
                &&& d1.memories@[mem as int].data@.subrange(
                    before.bound->Some_0.1 as int,
                    before.bound->Some_0.1 + info.byte_size,
                ) == info.spec_pixels()
            },
        forall|i: int|
            0 <= i < infos.len() && !(#[trigger] infos[i]).is_sample() ==> d1.images@[
                infos[i].image_id as int] == d0.images@[infos[i].image_id as int],
        forall|im: int|
            0 <= im < d0.images@.len() && !spec_image_in_prefix(infos, infos.len() as int, im)
                ==> #[trigger] d1.images@[im] == d0.images@[im],
{
    reveal(spec_sample_phase);
    assert forall|i: int| 0 <= i < infos.len() && (#[trigger] infos[i]).is_sample() implies {
        let info = infos[i];
        let before = d0.images@[info.image_id as int];
        let after = d1.images@[info.image_id as int];
        &&& after.layout == ImageLayout::ShaderReadOnlyOptimal
        &&& after.events@ == info.spec_transition_events()
        &&& after.live == before.live
        &&& after.bound == before.bound
        &&& after.byte_size == before.byte_size
        &&& after.usage == before.usage
        &&& d1.memories@[mem as int].data@.subrange(
            before.bound->Some_0.1 as int,
            before.bound->Some_0.1 + info.byte_size,
        ) == info.spec_pixels()
    } by {
        assert(spec_index_listed(indices, i));
        assert(indices.contains(i as usize)) by {
            reveal(spec_index_listed);
        };
        let w = choose|w: int| 0 <= w < indices.len() && indices[w] == i as usize;
        assert(infos[(#[trigger] indices[w]) as int] == infos[i]);
    };
    assert forall|i: int|
        0 <= i < infos.len() && !(#[trigger] infos[i]).is_sample() implies d1.images@[
        infos[i].image_id as int] == d0.images@[infos[i].image_id as int] by {
        assert(!spec_listed_image(indices, infos, infos[i].image_id as int)) by {
            reveal(spec_listed_image);
            if spec_listed_image(indices, infos, infos[i].image_id as int) {
                let w = choose|w: int|
                    0 <= w < indices.len() && infos[indices[w] as int].image_id == infos[
                        i].image_id;
                assert(infos[(#[trigger] indices[w]) as int].is_sample());
                assert(indices[w] as int != i);
                assert(false);
            }
        };
    };
    assert forall|im: int|
        0 <= im < d0.images@.len() && !spec_image_in_prefix(infos, infos.len() as int, im)
        implies #[trigger] d1.images@[im] == d0.images@[im] by {
        assert(!spec_listed_image(indices, infos, im)) by {
            reveal(spec_listed_image);
            reveal(spec_image_in_prefix);
            if spec_listed_image(indices, infos, im) {
                let w = choose|w: int|
                    0 <= w < indices.len() && infos[indices[w] as int].image_id == im;
                assert(infos[(#[trigger] indices[w]) as int].image_id == im);
                assert(false);
            }
        };
    };
}

/// Turn the depth pass's per-listed account into a per-record one.
pub proof fn lemma_depth_phase_per_record(
    indices: Seq<usize>,
    infos: Seq<ImageAllotInfo>,
    d0: GsDevice,
    d1: GsDevice,
)
    requires
        spec_depth_phase(indices, infos, d0, d1),
        spec_indices_ok(indices, infos, false),
        forall|i: int|
            0 <= i < infos.len() && !(#[trigger] infos[i]).is_sample() ==> spec_index_listed(
                indices,
                i,
            ),
        forall|i: int, j: int|
            0 <= i < j < infos.len() ==> (#[trigger] infos[i]).image_id != (
            #[trigger] infos[j]).image_id,
        forall|i: int| 0 <= i < infos.len() ==> (#[trigger] infos[i]).image_id < d0.images@.len(),
        infos.len() <= usize::MAX,
    ensures
        forall|i: int|
            0 <= i < infos.len() && !(#[trigger] infos[i]).is_sample() ==> {
                let info = infos[i];
                let before = d0.images@[info.image_id as int];
                let after = d1.images@[info.image_id as int];
                &&& after.layout == ImageLayout::DepthStencilAttachmentOptimal
                &&& after.events@ == info.spec_transition_events()
                &&& after.live == before.live
                &&& after.bound == before.bound
                &&& after.byte_size == before.byte_size
                &&& after.usage == before.usage
            },
        forall|i: int|
            0 <= i < infos.len() && (#[trigger] infos[i]).is_sample() ==> d1.images@[
                infos[i].image_id as int] == d0.images@[infos[i].image_id as int],
        forall|im: int|
            0 <= im < d0.images@.len() && !spec_image_in_prefix(infos, infos.len() as int, im)
                ==> #[trigger] d1.images@[im] == d0.images@[im],
{
    reveal(spec_depth_phase);
    assert forall|i: int| 0 <= i < infos.len() && !(#[trigger] infos[i]).is_sample() implies {
        let info = infos[i];
        let before = d0.images@[info.image_id as int];
        let after = d1.images@[info.image_id as int];
        &&& after.layout == ImageLayout::DepthStencilAttachmentOptimal
        &&& after.events@ == info.spec_transition_events()
        &&& after.live == before.live
        &&& after.bound == before.bound
        &&& after.byte_size == before.byte_size
        &&& after.usage == before.usage
    } by {
        assert(spec_index_listed(indices, i));
        assert(indices.contains(i as usize)) by {
            reveal(spec_index_listed);
        };
        let w = choose|w: int| 0 <= w < indices.len() && indices[w] == i as usize;
        assert(infos[(#[trigger] indices[w]) as int] == infos[i]);
    };
    assert forall|i: int|
        0 <= i < infos.len() && (#[trigger] infos[i]).is_sample() implies d1.images@[
        infos[i].image_id as int] == d0.images@[infos[i].image_id as int] by {
        assert(!spec_listed_image(indices, infos, infos[i].image_id as int)) by {
            reveal(spec_listed_image);
            if spec_listed_image(indices, infos, infos[i].image_id as int) {
                let w = choose|w: int|
                    0 <= w < indices.len() && infos[indices[w] as int].image_id == infos[
                        i].image_id;
                assert(!infos[(#[trigger] indices[w]) as int].is_sample());
                assert(indices[w] as int != i);
                assert(false);
            }
        };
    };
    assert forall|im: int|
        0 <= im < d0.images@.len() && !spec_image_in_prefix(infos, infos.len() as int, im)
        implies #[trigger] d1.images@[im] == d0.images@[im] by {
        assert(!spec_listed_image(indices, infos, im)) by {
            reveal(spec_listed_image);
            reveal(spec_image_in_prefix);
            if spec_listed_image(indices, infos, im) {
                let w = choose|w: int|
                    0 <= w < indices.len() && infos[indices[w] as int].image_id == im;
                assert(infos[(#[trigger] indices[w]) as int].image_id == im);
                assert(false);
            }
        };
    };
}

/// Build and fill the staging repository for the sampled records, and
/// group the depth-stencil records; nothing is recorded yet.
#[verifier::rlimit(100)]
pub fn prepare_transfer(
    device: &mut GsDevice,
    infos: &Vec<ImageAllotInfo>,
    mem: usize,
    offsets: &Vec<vkbytes>,
) -> (r: Result<(Option<SampleImageBarrierBundle>, Vec<usize>), AllocatorError>)
    requires
        old(device).wf(),
        !old(device).recording,
        1 <= infos@.len(),
        mem < old(device).memories@.len(),
        old(device).memories@[mem as int].live,
        old(device).memories@[mem as int].size == spec_image_space_sum(
            infos@,
            infos@.len() as int,
        ),
        spec_images_bound(infos@, *old(device), mem, offsets@),
        spec_staging_space_sum(
            infos@,
            old(device).limits.buffer_alignment as int,
            infos@.len() as int,
        ) <= vkbytes::MAX,
        spec_block_exclusive(infos@, *old(device), mem),
    ensures
        final(device).wf(),
        final(device).same_config(*old(device)),
        final(device).pools@ == old(device).pools@,
        final(device).sets@ == old(device).sets@,
        final(device).recording == false,
        final(device).images@.len() == old(device).images@.len(),
        final(device).memories@.len() >= old(device).memories@.len(),
        r is Ok <==> (!spec_has_sample(infos@) || (spec_staging_possible(*old(device))
            && spec_staging_space_sum(
            infos@,
            old(device).limits.buffer_alignment as int,
            infos@.len() as int,
        ) <= old(device).allocation_capacity)),
        r is Err ==> {
            &&& r == Result::<(Option<SampleImageBarrierBundle>, Vec<usize>), AllocatorError>::Err(
                AllocatorError::Transfer,
            )
            &&& final(device).spec_live_memory_ids() == old(device).spec_live_memory_ids().remove(mem as int)
            &&& forall|i: int|
                0 <= i < infos@.len() ==> !final(device).images@[(
                #[trigger] infos@[i]).image_id as int].live
        },
        r matches Ok((bundle_opt, depths)) ==> {
            &&& final(device).images@ == old(device).images@
            &&& mem < final(device).memories@.len()
            &&& final(device).memories@[mem as int].live == old(device).memories@[mem
                as int].live
            &&& final(device).memories@[mem as int].size == old(device).memories@[mem
                as int].size
            &&& final(device).memories@[mem as int].property_flags == old(device).memories@[mem
                as int].property_flags
            &&& final(device).memories@[mem as int].data@ == old(device).memories@[mem
                as int].data@
            &&& final(device).memories@[mem as int].mapped == old(device).memories@[mem
                as int].mapped
            &&& spec_indices_ok(depths@, infos@, false)
            &&& (forall|i: int|
                0 <= i < infos@.len() && !(#[trigger] infos@[i]).is_sample()
                    ==> spec_index_listed(depths@, i))
            &&& (bundle_opt is Some <==> spec_has_sample(infos@))
            &&& (bundle_opt matches Some(bundle) ==> {
                let st = bundle.staging_repository->0;
                &&& final(device).buffers@.len() >= old(device).buffers@.len()
                &&& (forall|b: int|
                    0 <= b < old(device).buffers@.len() ==> (#[trigger] final(device).buffers@[
                    b]) == old(device).buffers@[b])
                &&& spec_indices_ok(bundle.info_indices@, infos@, true)
                &&& (forall|i: int|
                    0 <= i < infos@.len() && (#[trigger] infos@[i]).is_sample()
                        ==> spec_index_listed(bundle.info_indices@, i))
                &&& bundle.staging_ok(infos@, *final(device))
                &&& st.group.memory_id != mem
                &&& st.group.memory_id == old(device).memories@.len()
                &&& final(device).spec_live_memory_ids() == old(device).spec_live_memory_ids().insert(st.group.memory_id as int)
                &&& (forall|j: int|
                    0 <= j < bundle.info_indices@.len() ==> final(device).memories@[
                        st.group.memory_id as int].data@.subrange(
                        #[trigger] st.group.offsets@[j] as int,
                        st.group.offsets@[j] + infos@[bundle.info_indices@[j]
                            as int].byte_size,
                    ) == infos@[bundle.info_indices@[j] as int].spec_pixels())
                &&& (forall|b: int|
                    0 <= b < final(device).buffers@.len() ==> ((b < old(device).buffers@.len() && #[trigger] final(device).buffers@[b] == old(device).buffers@[b]) || !final(device).buffers@[b].live || (final(device).buffers@[b].bound matches Some((m, _)) && m == st.group.memory_id)))
            })
            &&& (bundle_opt is None ==> *final(device) == *old(device))
        },
{
    let ghost d_bound = *old(device);
    let records: usize = infos.len();
    proof {
        assert(infos@.len() == records);
        lemma_images_bound_facts(infos@, *old(device), mem, offsets@);
    }
    let (samples, depths) = collect_barrier_bundle(infos);
    let ghost samples_seq = samples@;
    if samples.len() == 0 {
        proof {
            assert(!spec_has_sample(infos@)) by {
                reveal(spec_index_listed);
                if spec_has_sample(infos@) {
                    let i = choose|i: int| 0 <= i < infos@.len() && infos@[i].is_sample();
                    assert(spec_index_listed(samples_seq, i));
                    assert(samples_seq.contains(i as usize));
                    let w = choose|w: int|
                        0 <= w < samples_seq.len() && samples_seq[w] == i as usize;
                    assert(false);
                }
            };
        }
        return Ok((None, depths));
    }
    let first = samples[0];
    let stage = match &infos[first].variety {
        ImageVariety::Sample { stage, binding: _ } => *stage,
        ImageVariety::DepthStencil => {
            proof {
                assert(false);
            }
            ImagePipelineStage::FragmentStage
        },
    };
    let mut bundle = SampleImageBarrierBundle::new(stage, samples);
    proof {
        assert(spec_has_sample(infos@)) by {
            assert(infos@[bundle.info_indices@[0] as int].is_sample());
        };
        assert forall|i: int|
            0 <= i < infos@.len() implies 1 <= (#[trigger] infos@[i]).byte_size <= old(device).allocation_capacity by {
            lemma_image_space_sum_monotone(infos@, i + 1, infos@.len() as int);
            lemma_image_space_sum_nonnegative(infos@, i);
        };
    }
    let ghost pre_staging = *device;
    match bundle.create_staging_repository(device, infos) {
        Ok(_) => {},
        Err(e) => {
            proof {
                lemma_block_exclusive_preserved(infos@, pre_staging, *device, mem);
            }
            release_images_and_block(device, infos, mem);
            return Err(AllocatorError::Transfer);
        },
    }
    bundle.upload_staging_data(device, infos);
    Ok((Some(bundle), depths))
}


/// Record and run the one-shot transfer stream for every bound image:
/// open it, drive the sampled pass and the depth pass, submit and block.
/// The staging repository is left to the caller to destroy once the
/// stream has executed.
#[verifier::spinoff_prover]
#[verifier::rlimit(100)]
fn record_transition(
    device: &mut GsDevice,
    infos: &Vec<ImageAllotInfo>,
    mem: usize,
    offsets: &Vec<vkbytes>,
    sample_bundle: &Option<SampleImageBarrierBundle>,
    depths: Vec<usize>,
)
    requires
        old(device).wf(),
        !old(device).recording,
        1 <= infos@.len(),
        mem < old(device).memories@.len(),
        old(device).memories@[mem as int].live,
        spec_images_bound(infos@, *old(device), mem, offsets@),
        spec_indices_ok(depths@, infos@, false),
        forall|i: int|
            0 <= i < infos@.len() && !(#[trigger] infos@[i]).is_sample() ==> spec_index_listed(
                depths@,
                i,
            ),
        (sample_bundle is Some <==> spec_has_sample(infos@)),
        sample_bundle matches Some(bundle) ==> {
            let st = bundle.staging_repository->0;
            &&& spec_indices_ok(bundle.info_indices@, infos@, true)
            &&& (forall|i: int|
                0 <= i < infos@.len() && (#[trigger] infos@[i]).is_sample()
                    ==> spec_index_listed(bundle.info_indices@, i))
            &&& bundle.staging_ok(infos@, *old(device))
            &&& st.group.memory_id != mem
            &&& (forall|j: int|
                0 <= j < bundle.info_indices@.len() ==> old(device).memories@[
                    st.group.memory_id as int].data@.subrange(
                    #[trigger] st.group.offsets@[j] as int,
                    st.group.offsets@[j] + infos@[bundle.info_indices@[j] as int].byte_size,
                ) == infos@[bundle.info_indices@[j] as int].spec_pixels())
        },
    ensures
        final(device).wf(),
        final(device).same_config(*old(device)),
        final(device).pools@ == old(device).pools@,
        final(device).sets@ == old(device).sets@,
        final(device).recording == false,
        final(device).images@.len() == old(device).images@.len(),
        final(device).memories@.len() == old(device).memories@.len(),
        final(device).buffers@ == old(device).buffers@,
        final(device).spec_live_memory_ids() == old(device).spec_live_memory_ids(),
        mem < final(device).memories@.len(),
        final(device).memories@[mem as int].live == old(device).memories@[mem as int].live,
        final(device).memories@[mem as int].size == old(device).memories@[mem as int].size,
        final(device).memories@[mem as int].property_flags == old(device).memories@[mem
            as int].property_flags,
        sample_bundle matches Some(bundle) ==> bundle.staging_repository->0.group.wf(
            *final(device),
        ),
        forall|i: int|
            0 <= i < infos@.len() ==> {
                let info = #[trigger] infos@[i];
                let before = old(device).images@[info.image_id as int];
                let after = final(device).images@[info.image_id as int];
                &&& after.live
                &&& after.bound == before.bound
                &&& after.byte_size == before.byte_size
                &&& after.usage == before.usage
                &&& after.layout == info.spec_final_layout()
                &&& after.events@ == info.spec_transition_events()
            },
        forall|im: int|
            0 <= im < old(device).images@.len() && !spec_image_in_prefix(
                infos@,
                infos@.len() as int,
                im,
            ) ==> (#[trigger] final(device).images@[im]) == old(device).images@[im],
        forall|i: int|
            0 <= i < infos@.len() && (#[trigger] infos@[i]).is_sample() ==> final(device).memories@[mem as int].data@.subrange(
                offsets@[i] as int,
                offsets@[i] + infos@[i].byte_size,
            ) == infos@[i].spec_pixels(),
{
    let ghost d0 = *old(device);
    let records: usize = infos.len();
    proof {
        assert(infos@.len() == records);
        lemma_images_bound_facts(infos@, d0, mem, offsets@);
    }
    device.begin_transfer();
    let ghost d_begun = *device;
    match sample_bundle {
        Some(bundle) => {
            let ghost st = bundle.staging_repository->0;
            proof {
                crate::allocator::lemma_group_wf_preserved(st.group, d0, *device);
                assert forall|a: int, b: int|
                    0 <= a < b < bundle.info_indices@.len() implies {
                    let ia = infos@[(#[trigger] bundle.info_indices@[a]) as int];
                    let ib = infos@[(#[trigger] bundle.info_indices@[b]) as int];
                    device.images@[ia.image_id as int].bound->Some_0.1 + ia.byte_size
                        <= device.images@[ib.image_id as int].bound->Some_0.1
                } by {
                    lemma_indices_increasing(bundle.info_indices@, infos@, true, a, b);
                    let ia = bundle.info_indices@[a] as int;
                    let ib = bundle.info_indices@[b] as int;
                    lemma_image_space_sum_monotone(infos@, ia + 1, ib);
                };
            }
            bundle.make_barrier_transform(device, infos, mem);
            proof {
                lemma_sample_phase_per_record(
                    bundle.info_indices@,
                    infos@,
                    d_begun,
                    *device,
                    mem,
                );
            }
        },
        None => {},
    }
    let ghost d_mid = *device;
    let run_depths = depths.len() > 0;
    if run_depths {
        let depth_bundle = DSImageBarrierBundle::new(depths);
        proof {
            assert forall|j: int|
                0 <= j < depth_bundle.info_indices@.len() implies {
                let info = infos@[(#[trigger] depth_bundle.info_indices@[j]) as int];
                let img = device.images@[info.image_id as int];
                &&& info.image_id < device.images@.len()
                &&& img.live
                &&& img.layout == ImageLayout::Undefined
                &&& img.events@ == Seq::<ImageEvent>::empty()
            } by {
                let idx = depth_bundle.info_indices@[j] as int;
                assert(!infos@[idx].is_sample());
                match sample_bundle {
                    Some(_) => {
                        assert(device.images@[infos@[idx].image_id as int] == d_begun.images@[
                            infos@[idx].image_id as int]);
                    },
                    None => {},
                }
            };
        }
        depth_bundle.make_barrier_transform(device, infos);
        proof {
            lemma_depth_phase_per_record(depth_bundle.info_indices@, infos@, d_mid, *device);
        }
    } else {
        proof {
            assert forall|i: int|
                0 <= i < infos@.len() implies (#[trigger] infos@[i]).is_sample() by {
                if !infos@[i].is_sample() {
                    assert(spec_index_listed(depths@, i));
                    assert(depths@.contains(i as usize)) by {
                        reveal(spec_index_listed);
                    };
                    let w = choose|w: int| 0 <= w < depths@.len() && depths@[w] == i as usize;
                    assert(false);
                }
            };
        }
    }
    device.submit_transfer();
    proof {
        match sample_bundle {
            Some(bundle) => {
                let st = bundle.staging_repository->0;
                assert(st.group.wf(*device)) by {
                    assert forall|im: int|
                        0 <= im < device.images@.len() implies ((im < d0.images@.len()
                            && #[trigger] device.images@[im] == d0.images@[im]) || !((
                        device.images@[im]).live && (device.images@[im].bound matches Some(
                            (m, _),
                        ) && m == st.group.memory_id))) by {
                        if spec_image_in_prefix(infos@, infos@.len() as int, im) {
                            assert(exists|i: int|
                                0 <= i < infos@.len() && (#[trigger] infos@[i]).image_id
                                    == im) by {
                                reveal(spec_image_in_prefix);
                            };
                            let i = choose|i: int|
                                0 <= i < infos@.len() && (#[trigger] infos@[i]).image_id == im;
                            assert(device.images@[im].bound == d0.images@[im].bound) by {
                                if infos@[i].is_sample() {
                                    assert(d_mid.images@[im].bound == d_begun.images@[im].bound);
                                } else {
                                    assert(d_mid.images@[im] == d_begun.images@[im]);
                                }
                            };
                            assert(d0.images@[im].bound == Some((mem, offsets@[i as int])));
                        } else {
                            if 0 <= im < d0.images@.len() {
                                assert(device.images@[im] == d0.images@[im]);
                            }
                        }
                    };
                    crate::allocator::lemma_group_wf_preserved(st.group, d0, *device);
                };
            },
            None => {},
        }
    }
}



/// Allocate the one memory block and bind every image at its prefix-sum
/// offset, in append order.
#[verifier::spinoff_prover]
#[verifier::rlimit(100)]
fn place_images(
    device: &mut GsDevice,
    infos: &Vec<ImageAllotInfo>,
    optimal: usize,
    total: vkbytes,
) -> (r: Result<(usize, Vec<vkbytes>), AllocatorError>)
    requires
        old(device).wf(),
        !old(device).recording,
        1 <= infos@.len(),
        optimal < old(device).memory_types@.len(),
        1 <= total,
        total == spec_image_space_sum(infos@, infos@.len() as int),
        total <= vkbytes::MAX,
        forall|i: int, j: int|
            0 <= i < j < infos@.len() ==> (#[trigger] infos@[i]).image_id != (
            #[trigger] infos@[j]).image_id,
        forall|i: int|
            0 <= i < infos@.len() ==> (#[trigger] infos@[i]).image_id < old(device).images@.len(),
        forall|i: int|
            0 <= i < infos@.len() ==> {
                let info = #[trigger] infos@[i];
                let img = old(device).images@[info.image_id as int];
                &&& img.live
                &&& img.bound is None
                &&& img.byte_size == info.byte_size
                &&& 1 <= info.byte_size
                &&& info.byte_size <= info.space
                &&& img.usage == info.spec_usage()
                &&& img.layout == ImageLayout::Undefined
                &&& img.events@ == Seq::<ImageEvent>::empty()
                &&& (info.is_sample() <==> (info.storage.source
                    matches ImageSource::UploadData(dd) && dd.data@.len() == info.byte_size))
            },
    ensures
        final(device).wf(),
        final(device).same_config(*old(device)),
        final(device).buffers@ == old(device).buffers@,
        final(device).pools@ == old(device).pools@,
        final(device).sets@ == old(device).sets@,
        final(device).recording == old(device).recording,
        final(device).images@.len() == old(device).images@.len(),
        r is Ok <==> total <= old(device).allocation_capacity,
        r is Err ==> r == Result::<(usize, Vec<vkbytes>), AllocatorError>::Err(
            AllocatorError::NativeCreation(ObjectKind::Memory),
        ) && final(device).images@ == old(device).images@ && final(device).memories@ == old(device).memories@ && final(device).calls@ == old(device).calls@ && final(device).spec_live_memory_ids() == old(device).spec_live_memory_ids(),
        r matches Ok((mem, offsets)) ==> {
            &&& mem == old(device).memories@.len()
            &&& final(device).memories@.len() == old(device).memories@.len() + 1
            &&& final(device).memories@[mem as int].live
            &&& final(device).memories@[mem as int].size == total
            &&& final(device).memories@[mem as int].property_flags == old(device).memory_types@[optimal as int]
            &&& final(device).spec_live_memory_ids() == old(device).spec_live_memory_ids().insert(mem as int)
            &&& spec_images_bound(infos@, *final(device), mem, offsets@)
            &&& spec_block_exclusive(infos@, *final(device), mem)
            &&& (forall|j: int|
                0 <= j < old(device).memories@.len() ==> (#[trigger] final(device).memories@[j])
                    == old(device).memories@[j])
        },
{
    let ghost d0 = *old(device);
    let n = infos.len();
        let mem = match device.allocate_memory(total, optimal) {
            Ok(m) => m,
            Err(e) => {
                return Err(e);
            },
        };
        let ghost d_alloc = *device;
        let mut offsets: Vec<vkbytes> = Vec::new();
        let mut current: vkbytes = 0;
        let mut k: usize = 0;
        while k < n
            invariant
                k <= n,
                n == infos@.len(),
                spec_image_space_sum(infos@, n as int) <= vkbytes::MAX,
                offsets@.len() == k,
                current == spec_image_space_sum(infos@, k as int),
                forall|i: int|
                    0 <= i < k ==> #[trigger] offsets@[i] == spec_image_space_sum(infos@, i),
            decreases n - k,
        {
            offsets.push(current);
            proof {
                lemma_image_space_sum_monotone(infos@, k + 1, n as int);
                lemma_image_space_sum_nonnegative(infos@, k as int);
            }
            current = current + infos[k].space;
            k = k + 1;
        }
        let mut k: usize = 0;
        while k < n
            invariant
                k <= n,
                n == infos@.len(),
                n >= 1,
                d_alloc.wf(),
                device.wf(),
                device.same_config(d_alloc),
                device.buffers@ == d_alloc.buffers@,
                device.memories@ == d_alloc.memories@,
                device.pools@ == d_alloc.pools@,
                device.sets@ == d_alloc.sets@,
                device.recording == d_alloc.recording,
                device.images@.len() == d_alloc.images@.len(),
                mem < device.memories@.len(),
                device.memories@[mem as int].live,
                device.memories@[mem as int].size == spec_image_space_sum(infos@, n as int),
                offsets@.len() == n,
                forall|i: int|
                    0 <= i < n ==> #[trigger] offsets@[i] == spec_image_space_sum(infos@, i),
                forall|i: int, j: int|
                    0 <= i < j < n ==> (#[trigger] infos@[i]).image_id != (
                    #[trigger] infos@[j]).image_id,
                forall|i: int|
                    0 <= i < n ==> (#[trigger] infos@[i]).image_id < d_alloc.images@.len(),
                forall|i: int|
                    0 <= i < n ==> {
                        let info = #[trigger] infos@[i];
                        let img = d_alloc.images@[info.image_id as int];
                        &&& img.live
                        &&& img.bound is None
                        &&& img.byte_size == info.byte_size
                        &&& 1 <= info.byte_size
                        &&& info.byte_size <= info.space
                        &&& img.usage == info.spec_usage()
                        &&& img.layout == ImageLayout::Undefined
                        &&& img.events@ == Seq::<ImageEvent>::empty()
                        &&& (info.is_sample() <==> (info.storage.source
                            matches ImageSource::UploadData(dd) && dd.data@.len()
                            == info.byte_size))
                    },
                forall|i: int|
                    k <= i < n ==> device.images@[(#[trigger] infos@[i]).image_id as int]
                        == d_alloc.images@[infos@[i].image_id as int],
                forall|i: int|
                    0 <= i < k ==> device.images@[(#[trigger] infos@[i]).image_id as int] == (
                    ImageObj {
                        bound: Some((mem, offsets@[i])),
                        ..d_alloc.images@[infos@[i].image_id as int]
                    }),
                forall|im: int|
                    0 <= im < d_alloc.images@.len() && !spec_image_in_prefix(infos@, k as int, im)
                        ==> (#[trigger] device.images@[im]) == d_alloc.images@[im],
            decreases n - k,
        {
            proof {
                lemma_image_space_sum_monotone(infos@, k + 1, n as int);
                lemma_image_space_sum_nonnegative(infos@, k as int);
            }
            let ghost pre_bind = *device;
            let id = infos[k].image_id;
            let off = offsets[k];
            device.bind_image(id, mem, off);
            proof {
                assert forall|im: int|
                    0 <= im < d_alloc.images@.len() && !spec_image_in_prefix(
                        infos@,
                        k + 1,
                        im,
                    ) implies (#[trigger] device.images@[im]) == d_alloc.images@[im] by {
                    reveal(spec_image_in_prefix);
                    assert(!spec_image_in_prefix(infos@, k as int, im));
                    assert(im != id);
                    assert(pre_bind.images@[im] == d_alloc.images@[im]);
                };
            }
            k = k + 1;
        }
        let ghost d_bound = *device;
        proof {
            assert(spec_images_bound(infos@, d_bound, mem, offsets@)) by {
                reveal(spec_images_bound);
            };
            assert(spec_block_exclusive(infos@, d_bound, mem)) by {
                reveal(spec_block_exclusive);
                reveal(spec_image_in_prefix);
                assert forall|im: int|
                    0 <= im < d_bound.images@.len() && (#[trigger] d_bound.images@[im]).live && (
                    d_bound.images@[im].bound matches Some((m, _)) && m == mem)
                    implies spec_image_in_prefix(infos@, infos@.len() as int, im) by {
                    if !spec_image_in_prefix(infos@, infos@.len() as int, im) {
                        assert(d_bound.images@[im] == d_alloc.images@[im]);
                        assert(d_alloc.images@[im] == d0.images@[im]);
                    }
                };
                assert forall|b: int|
                    0 <= b < d_bound.buffers@.len() && (#[trigger] d_bound.buffers@[b]).live
                    implies !(d_bound.buffers@[b].bound matches Some((m, _)) && m == mem) by {
                    if d_bound.buffers@[b].bound matches Some((m, _)) && m == mem {
                        assert(d0.bound_in_range(
                            d0.buffers@[b].bound,
                            d0.buffers@[b].size,
                        ));
                    }
                };
            };
        }
        proof {
            assert(device.spec_live_memory_ids() =~= d0.spec_live_memory_ids().insert(
                mem as int,
            ));
        }
        Ok((mem, offsets))
}


/// After the transfer has run and the staging repository is gone, only
/// the group's images claim its block and no live buffer does.
#[verifier::spinoff_prover]
#[verifier::rlimit(100)]
proof fn lemma_final_exclusive(
    group: ImageGroup,
    gbundle: Option<SampleImageBarrierBundle>,
    d_bound: GsDevice,
    d_prepared: GsDevice,
    d_recorded: GsDevice,
    d_final: GsDevice,
)
    requires
        d_bound.wf(),
        1 <= group.n(),
        spec_block_exclusive(group.infos@, d_bound, group.memory_id),
        d_prepared.images@ == d_bound.images@,
        d_final.images@ == d_recorded.images@,
        d_final.images@.len() == d_bound.images@.len(),
        forall|im: int|
            0 <= im < d_prepared.images@.len() && !spec_image_in_prefix(
                group.infos@,
                group.infos@.len() as int,
                im,
            ) ==> (#[trigger] d_recorded.images@[im]) == d_prepared.images@[im],
        d_recorded.buffers@ == d_prepared.buffers@,
        gbundle matches Some(bundle) ==> {
            let st = bundle.staging_repository->0;
            &&& st.group.wf(d_recorded)
            &&& st.group.memory_id != group.memory_id
            &&& st.group.memory_id == d_bound.memories@.len()
            &&& d_prepared.buffers@.len() >= d_bound.buffers@.len()
            &&& d_final.buffers@.len() == d_recorded.buffers@.len()
            &&& (forall|b: int|
                0 <= b < d_bound.buffers@.len() ==> (#[trigger] d_prepared.buffers@[b])
                    == d_bound.buffers@[b])
            &&& (forall|b: int|
                0 <= b < d_prepared.buffers@.len() ==> ((b < d_bound.buffers@.len()
                    && #[trigger] d_prepared.buffers@[b] == d_bound.buffers@[b])
                    || !d_prepared.buffers@[b].live || (d_prepared.buffers@[b].bound
                    matches Some((m, _)) && m == st.group.memory_id)))
            &&& (forall|b: int|
                0 <= b < d_recorded.buffers@.len() && !spec_in_prefix(
                    st.group.buffer_ids@,
                    st.group.n(),
                    b,
                ) ==> (#[trigger] d_final.buffers@[b]) == d_recorded.buffers@[b])
            &&& (forall|i: int|
                0 <= i < st.group.n() ==> !d_final.buffers@[(
                #[trigger] st.group.buffer_ids@[i]) as int].live)
        },
        gbundle is None ==> d_prepared == d_bound && d_final.buffers@ == d_recorded.buffers@,
    ensures
        group.exclusive_ok(d_final),
{
    reveal(ImageGroup::exclusive_ok);
        assert forall|im: int|
            0 <= im < d_final.images@.len() && (#[trigger] d_final.images@[im]).live && (
            d_final.images@[im].bound matches Some((m, _)) && m == group.memory_id) implies exists|
            i: int,
        |
            0 <= i < group.n() && group.infos@[i].image_id == im by {
            if spec_image_in_prefix(group.infos@, group.n(), im) {
                assert(exists|i: int|
                    0 <= i < group.n() && group.infos@[i].image_id == im) by {
                    reveal(spec_image_in_prefix);
                };
            } else {
                assert(d_final.images@[im] == d_bound.images@[im]);
                assert(!(d_bound.images@[im].live && (d_bound.images@[im].bound
                    matches Some((m, _)) && m == group.memory_id))) by {
                    reveal(spec_block_exclusive);
                };
                assert(false);
            }
        };
        assert forall|b: int|
            0 <= b < d_final.buffers@.len() && (#[trigger] d_final.buffers@[b]).live
            implies !(d_final.buffers@[b].bound matches Some((m, _)) && m == group.memory_id) by {
            match gbundle {
                Some(bundle) => {
                    let st = bundle.staging_repository->0;
                    if b < d_bound.buffers@.len() {
                assert(d_prepared.buffers@[b] == d_bound.buffers@[b]);
                assert(d_recorded.buffers@[b] == d_prepared.buffers@[b]);
                assert(!spec_in_prefix(
                    st.group.buffer_ids@,
                    st.group.n(),
                    b,
                )) by {
                    if spec_in_prefix(st.group.buffer_ids@, st.group.n(), b) {
                        let j = choose|j: int|
                            0 <= j < st.group.n() && st.group.buffer_ids@[j]
                        == b;
                        assert(d_recorded.buffers@[(
                        #[trigger] st.group.buffer_ids@[j]) as int].bound
                            == Some((st.group.memory_id, st.group.offsets@[j])));
                        assert(d_bound.bound_in_range(
                            d_bound.buffers@[b].bound,
                            d_bound.buffers@[b].size,
                        ));
                        assert(false);
                    }
                };
                assert(d_final.buffers@[b] == d_bound.buffers@[b]);
                assert(!(d_bound.buffers@[b].live && (d_bound.buffers@[b].bound
                    matches Some((m, _)) && m == group.memory_id))) by {
                    reveal(spec_block_exclusive);
                };
                    } else {
                assert(d_prepared.buffers@[b] == d_recorded.buffers@[b]);
                if spec_in_prefix(st.group.buffer_ids@, st.group.n(), b) {
                    let j = choose|j: int|
                        0 <= j < st.group.n() && st.group.buffer_ids@[j] == b;
                    assert(!d_final.buffers@[(
                    #[trigger] st.group.buffer_ids@[j]) as int].live);
                    assert(false);
                } else {
                    assert(d_final.buffers@[b] == d_recorded.buffers@[b]);
                    assert(!d_prepared.buffers@[b].live || (
                    d_prepared.buffers@[b].bound matches Some((m, _)) && m
                        == st.group.memory_id));
                    assert(st.group.memory_id != group.memory_id);
                }
                    }
                },
                None => {
                    assert(d_prepared == d_bound);
                    assert(d_final.buffers@[b] == d_bound.buffers@[b]);
                    assert(!(d_bound.buffers@[b].live && (d_bound.buffers@[b].bound
                matches Some((m, _)) && m == group.memory_id))) by {
                reveal(spec_block_exclusive);
                    };
                },
            }
        };
            
}

/// Staging feasibility depends only on the device's memory types and
/// buffer type bits, which no allocation changes.
pub proof fn lemma_staging_possible_same(d0: GsDevice, d1: GsDevice)
    requires
        d0.memory_types@ == d1.memory_types@,
        d0.buffer_type_bits == d1.buffer_type_bits,
    ensures
        spec_staging_possible(d0) == spec_staging_possible(d1),
{
    if spec_staging_possible(d0) {
        let i = choose|i: int|
            crate::memory::spec_type_suitable(
                d0.memory_types@,
                0xffff_ffffu32 & d0.buffer_type_bits,
                GsMemoryType::StagingMemory.spec_property_flags(),
                i,
            );
        assert(crate::memory::spec_type_suitable(
            d1.memory_types@,
            0xffff_ffffu32 & d1.buffer_type_bits,
            GsMemoryType::StagingMemory.spec_property_flags(),
            i,
        ));
    }
    if spec_staging_possible(d1) {
        let i = choose|i: int|
            crate::memory::spec_type_suitable(
                d1.memory_types@,
                0xffff_ffffu32 & d1.buffer_type_bits,
                GsMemoryType::StagingMemory.spec_property_flags(),
                i,
            );
        assert(crate::memory::spec_type_suitable(
            d0.memory_types@,
            0xffff_ffffu32 & d0.buffer_type_bits,
            GsMemoryType::StagingMemory.spec_property_flags(),
            i,
        ));
    }
}

/// The bound-state atom survives device changes that keep the images.
pub proof fn lemma_images_bound_preserved(
    infos: Seq<ImageAllotInfo>,
    d0: GsDevice,
    d1: GsDevice,
    mem: usize,
    offsets: Seq<vkbytes>,
)
    requires
        spec_images_bound(infos, d0, mem, offsets),
        d1.images@ == d0.images@,
    ensures
        spec_images_bound(infos, d1, mem, offsets),
{
    reveal(spec_images_bound);
}

impl GsImageAllocator {
    /// Lay every attached image out in one fresh memory block: pick the
    /// one memory type satisfying every image and the class, allocate the
    /// sum of aligned sizes, bind each image at its prefix-sum offset in
    /// append order, stage the sampled images' pixel bytes in a transient
    /// staging repository, and drive every layout transition in one
    /// one-shot command stream — per sampled image exactly a barrier into
    /// the transfer-destination layout, one copy, and a barrier into the
    /// shader-readable layout; per depth-stencil image exactly one barrier
    /// into the attachment layout. The staging repository is destroyed
    /// before the call returns: no staging allocation stays reachable.
    ///
    /// The allocator is consumed: once `allocate` has run, successfully or
    /// not, no second allocation can be asked of this instance; on failure
    /// the phase-one images are destroyed and no partially-bound state
    /// survives.
    ///
    /// Fails with `NoResourceAttached` when nothing was attached, with
    /// `NoSuitableMemoryType` when no memory type satisfies the combined
    /// bitmask and the class, with a memory creation error when the total
    /// exceeds what the device grants at once, and with `Transfer` when
    /// the staging repository cannot be built.
    #[verifier::spinoff_prover]
    #[verifier::rlimit(100)]
    pub fn allocate(self, device: &mut GsDevice) -> (r: Result<
        GsImageDistributor,
        AllocatorError,
    >)
        requires
            self.wf(*old(device)),
            old(device).wf(),
            !old(device).recording,
        ensures
            final(device).wf(),
            final(device).same_config(*old(device)),
            final(device).pools@ == old(device).pools@,
            final(device).sets@ == old(device).sets@,
            final(device).recording == false,
            (r == Result::<GsImageDistributor, AllocatorError>::Err(
                AllocatorError::NoResourceAttached,
            )) <==> self.n() == 0,
            self.n() >= 1 && !self.selector.spec_has_suitable() ==> r == Result::<
                GsImageDistributor,
                AllocatorError,
            >::Err(AllocatorError::NoSuitableMemoryType),
            r is Ok <==> (self.n() >= 1 && self.selector.spec_has_suitable()
                && spec_image_space_sum(self.infos@, self.n()) <= old(device).allocation_capacity && (!spec_has_sample(self.infos@) || (spec_staging_possible(
                *old(device),
            ) && spec_staging_space_sum(
                self.infos@,
                old(device).limits.buffer_alignment as int,
                self.n(),
            ) <= old(device).allocation_capacity))),
            r is Err ==> {
                &&& final(device).spec_live_memory_ids() == old(device).spec_live_memory_ids()
                &&& forall|i: int|
                    0 <= i < self.n() ==> !final(device).images@[(
                    #[trigger] self.infos@[i]).image_id as int].live
            },
            r matches Ok(dist) ==> {
                &&& dist.group.wf(*final(device))
                &&& dist.group.storage_type == self.storage_type
                &&& dist.group.infos@ == self.infos@
                &&& dist.group.memory_id == old(device).memories@.len()
                &&& final(device).spec_live_memory_ids() == old(device).spec_live_memory_ids().insert(dist.group.memory_id as int)
                &&& (forall|j: int|
                    0 <= j < self.n() ==> final(device).images@[(
                    #[trigger] self.infos@[j]).image_id as int].events@ == self.infos@[
                        j].spec_transition_events())
                &&& (forall|j: int|
                    0 <= j < self.n() && (#[trigger] self.infos@[j]).is_sample() ==> final(device).memories@[dist.group.memory_id as int].data@.subrange(
                        dist.group.offsets@[j] as int,
                        dist.group.offsets@[j] + self.infos@[j].byte_size,
                    ) == self.infos@[j].spec_pixels())
            },
    {
        let GsImageAllocator { storage_type, infos, selector } = self;
        if infos.len() == 0 {
            return Err(AllocatorError::NoResourceAttached);
        }
        let optimal = match selector.optimal_memory() {
            Ok(i) => i,
            Err(e) => {
                cleanup_images(device, &infos);
                return Err(e);
            },
        };
        let n = infos.len();
        let ghost d0 = *old(device);
        let mut total: vkbytes = 0;
        let mut k: usize = 0;
        while k < n
            invariant
                k <= n,
                n == infos@.len(),
                spec_image_space_sum(infos@, n as int) <= vkbytes::MAX,
                total == spec_image_space_sum(infos@, k as int),
            decreases n - k,
        {
            proof {
                lemma_image_space_sum_monotone(infos@, k + 1, n as int);
                lemma_image_space_sum_nonnegative(infos@, k as int);
            }
            total = total + infos[k].space;
            k = k + 1;
        }
        proof {
            lemma_image_space_sum_monotone(infos@, 1, n as int);
            reveal_with_fuel(spec_image_space_sum, 2);
            assert(spec_image_space_sum(infos@, 1) == infos@[0].space);
            assert(1 <= self.infos@[0].byte_size && self.infos@[0].byte_size <= self.infos@[
                0].space);
            assert(total >= 1);
            assert(optimal < device.memory_types@.len());
        }
        let (mem, offsets) = match place_images(device, &infos, optimal, total) {
            Ok(pair) => pair,
            Err(e) => {
                cleanup_images(device, &infos);
                return Err(e);
            },
        };
        let ghost d_bound = *device;
        let (bundle_opt, depths) = match prepare_transfer(device, &infos, mem, &offsets) {
            Ok(pair) => pair,
            Err(e) => {
                proof {
                    assert(final(device).spec_live_memory_ids() =~= d0.spec_live_memory_ids());
                }
                return Err(AllocatorError::Transfer);
            },
        };
        let ghost d_prepared = *device;
        proof {
            lemma_images_bound_preserved(infos@, d_bound, d_prepared, mem, offsets@);
            lemma_staging_possible_same(d0, d_bound);
        }
        let ghost gbundle = bundle_opt;
        record_transition(device, &infos, mem, &offsets, &bundle_opt, depths);
        let ghost d_recorded = *device;
        match bundle_opt {
            Some(bundle) => {
                bundle.cleanup(device);
            },
            None => {},
        }
        let ghost d_final = *device;
        let group = ImageGroup { storage_type, memory_id: mem, infos, offsets };
        proof {
            assert(group.block_ok(d_final)) by {
                lemma_images_bound_facts(group.infos@, d_bound, mem, group.offsets@);
                assert(d_final.memories@[mem as int].live);
                assert(d_final.memories@[mem as int].size == total);
                assert(d_final.memories@[mem as int].property_flags == d0.memory_types@[
                    optimal as int]);
                assert(spec_contains_flags(
                    d0.memory_types@[optimal as int],
                    storage_type.memory_type().spec_property_flags(),
                ));
            };
            assert(group.members_ok(d_final)) by {
                reveal(ImageGroup::members_ok);
                lemma_images_bound_facts(group.infos@, d_bound, mem, group.offsets@);
            };
            lemma_final_exclusive(group, gbundle, d_bound, d_prepared, d_recorded, d_final);
            assert(d_final.spec_live_memory_ids() =~= d0.spec_live_memory_ids().insert(
                mem as int,
            ));
        }
        Ok(GsImageDistributor { group })
    }
}

} // verus!
