use vstd::prelude::*;
use crate::types::{vkbytes, vkuint, Dimension2D, Dimension3D, Format};
use crate::descriptor::{
    DescriptorBindingContent, GsDescriptorType, ImageDescriptorType,
};
use crate::device::ImageLayout;

verus! {

/// Decoded pixel bytes handed in by an external loader, with their length.
#[derive(Debug, Clone, PartialEq, Eq)]
pub struct ImageData {
    pub data: Vec<u8>,
    pub size: vkbytes,
}

impl ImageData {
    pub fn new(data: Vec<u8>, size: vkbytes) -> (r: ImageData)
        ensures
            r.data@ == data@,
            r.size == size,
    {
        ImageData { data, size }
    }
}

/// Where an image's initial content comes from: embedded pixel bytes to
/// upload, or nothing (the device will render into it).
pub enum ImageSource {
    UploadData(ImageData),
    NoSource,
}

/// What one image stores: its content source, its extent, and the format
/// of its data elements.
pub struct ImageStorageInfo {
    pub source: ImageSource,
    pub dimension: Dimension3D,
    pub format: Format,
}

/// The pipeline stage a sampled image is consumed in.
#[derive(Debug, Clone, Copy, PartialEq, Eq, Structural)]
pub enum ImagePipelineStage {
    VertexStage,
    FragmentStage,
}

/// Describes a sampled image to allocate: the binding slot it will serve,
/// the stage that samples it, and the storage carrying its pixel bytes.
pub struct SampleImageInfo {
    pub binding: DescriptorBindingContent,
    pub pipeline_stage: ImagePipelineStage,
    pub storage: ImageStorageInfo,
}

impl SampleImageInfo {
    pub fn new(
        binding: vkuint,
        count: vkuint,
        pipeline_stage: ImagePipelineStage,
        storage: ImageStorageInfo,
    ) -> (r: SampleImageInfo)
        ensures
            r.binding == (DescriptorBindingContent {
                binding,
                count,
                descriptor_type: GsDescriptorType::Image(
                    ImageDescriptorType::CombinedImageSampler,
                ),
            }),
            r.pipeline_stage == pipeline_stage,
            r.storage == storage,
    {
        SampleImageInfo {
            binding: DescriptorBindingContent {
                binding,
                count,
                descriptor_type: GsDescriptorType::Image(
                    ImageDescriptorType::CombinedImageSampler,
                ),
            },
            pipeline_stage,
            storage,
        }
    }
}

/// Describes a depth-stencil attachment to allocate at the given extent.
pub struct DepthStencilAttachmentInfo {
    pub dimension: Dimension2D,
    pub format: Format,
}

impl DepthStencilAttachmentInfo {
    pub fn new(dimension: Dimension2D, format: Format) -> (r: DepthStencilAttachmentInfo)
        ensures
            r.dimension == dimension,
            r.format == format,
    {
        DepthStencilAttachmentInfo { dimension, format }
    }
}

/// What an image handle exposes for descriptor-set recording: the binding
/// content, the native image, and the layout the image will be in when
/// sampled.
#[derive(Debug, Clone, Copy, PartialEq, Eq, Structural)]
pub struct DescriptorImageBindingInfo {
    pub content: DescriptorBindingContent,
    pub image_handle: usize,
    pub layout: ImageLayout,
}

/// A typed handle to a sampled image inside an image repository.
#[derive(Debug, Clone, Copy, PartialEq, Eq, Structural)]
pub struct GsSampleImage {
    pub image_id: usize,
    pub binding: DescriptorBindingContent,
    pub layout: ImageLayout,
    pub repository_index: usize,
}

impl GsSampleImage {
    /// What descriptor-set recording needs of this image.
    pub fn binding_info(&self) -> (r: DescriptorImageBindingInfo)
        ensures
            r == (DescriptorImageBindingInfo {
                content: self.binding,
                image_handle: self.image_id,
                layout: self.layout,
            }),
    {
        DescriptorImageBindingInfo {
            content: self.binding,
            image_handle: self.image_id,
            layout: self.layout,
        }
    }
}

/// A typed handle to a depth-stencil attachment inside an image repository.
#[derive(Debug, Clone, Copy, PartialEq, Eq, Structural)]
pub struct GsDepthStencilAttachment {
    pub image_id: usize,
    pub format: Format,
    pub layout: ImageLayout,
    pub repository_index: usize,
}

} // verus!
