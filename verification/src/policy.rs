use vstd::prelude::*;
use crate::types::vkuint;

verus! {

/// Memory property bit the device reports for its fastest GPU-local heap.
pub const MEMORY_PROPERTY_DEVICE_LOCAL: vkuint = 0x1;
/// Memory property bit for heaps the host can map.
pub const MEMORY_PROPERTY_HOST_VISIBLE: vkuint = 0x2;
/// Memory property bit for mapped heaps that need no explicit flush.
pub const MEMORY_PROPERTY_HOST_COHERENT: vkuint = 0x4;
/// Memory property bit for host-cached, read-friendly heaps.
pub const MEMORY_PROPERTY_HOST_CACHED: vkuint = 0x8;

/// Buffer usage bit marking a buffer as a source of transfer commands.
pub const BUFFER_USAGE_TRANSFER_SRC: vkuint = 0x1;
/// Buffer usage bit marking a buffer as a destination of transfer commands.
pub const BUFFER_USAGE_TRANSFER_DST: vkuint = 0x2;
/// Buffer usage bit for uniform buffers.
pub const BUFFER_USAGE_UNIFORM_BUFFER: vkuint = 0x10;
/// Buffer usage bit for index buffers.
pub const BUFFER_USAGE_INDEX_BUFFER: vkuint = 0x40;
/// Buffer usage bit for vertex buffers.
pub const BUFFER_USAGE_VERTEX_BUFFER: vkuint = 0x80;

/// Image usage bit marking an image as a destination of transfer commands.
pub const IMAGE_USAGE_TRANSFER_DST: vkuint = 0x2;
/// Image usage bit for images sampled from shaders.
pub const IMAGE_USAGE_SAMPLED: vkuint = 0x4;
/// Image usage bit for color attachments.
pub const IMAGE_USAGE_COLOR_ATTACHMENT: vkuint = 0x10;
/// Image usage bit for depth-stencil attachments.
pub const IMAGE_USAGE_DEPTH_STENCIL_ATTACHMENT: vkuint = 0x20;

/// Whether every bit of `wanted` is set in `flags`.
pub open spec fn spec_contains_flags(flags: vkuint, wanted: vkuint) -> bool {
    flags & wanted == wanted
}

/// Test that every bit of `wanted` is set in `flags`.
pub fn contains_flags(flags: vkuint, wanted: vkuint) -> (r: bool)
    ensures
        r == spec_contains_flags(flags, wanted),
{
    flags & wanted == wanted
}

/// Property flags that contain a union of bits contain each part.
pub proof fn lemma_contains_flags_split(flags: vkuint, a: vkuint, b: vkuint)
    requires
        spec_contains_flags(flags, a | b),
    ensures
        spec_contains_flags(flags, a),
        spec_contains_flags(flags, b),
{
    assert(flags & (a | b) == (a | b) ==> (flags & a == a) && (flags & b == b)) by (bit_vector);
}

/// A union of flags contains its right operand.
pub proof fn lemma_or_contains(flags: vkuint, b: vkuint)
    ensures
        spec_contains_flags(flags | b, b),
{
    assert((flags | b) & b == b) by (bit_vector);
}

/// Narrowing a bitmask by the same bits twice narrows it once.
pub proof fn lemma_and_idempotent(a: vkuint, b: vkuint)
    ensures
        (a & b) & b == a & b,
{
    assert((a & b) & b == a & b) by (bit_vector);
}

/// The four storage classes of device memory the subsystem distinguishes.
///
/// `HostMemory` stays persistently mapped for per-frame updates;
/// `CachedMemory` is host-visible and cached for read-heavy data;
/// `DeviceMemory` is the fastest GPU-local class and never host-visible;
/// `StagingMemory` is transient, host-visible transfer-source memory.
#[derive(Debug, Clone, Copy, PartialEq, Eq, Structural)]
pub enum GsMemoryType {
    HostMemory,
    CachedMemory,
    DeviceMemory,
    StagingMemory,
}

impl GsMemoryType {
    /// The memory property flags a heap must offer to hold this class.
    pub open spec fn spec_property_flags(self) -> vkuint {
        match self {
            GsMemoryType::HostMemory => MEMORY_PROPERTY_HOST_VISIBLE | MEMORY_PROPERTY_HOST_COHERENT,
            GsMemoryType::CachedMemory => MEMORY_PROPERTY_HOST_VISIBLE | MEMORY_PROPERTY_HOST_CACHED,
            GsMemoryType::DeviceMemory => MEMORY_PROPERTY_DEVICE_LOCAL,
            GsMemoryType::StagingMemory => MEMORY_PROPERTY_HOST_VISIBLE | MEMORY_PROPERTY_HOST_COHERENT,
        }
    }

    #[verifier::when_used_as_spec(spec_property_flags)]
    pub fn property_flags(self) -> (r: vkuint)
        ensures
            r == self.spec_property_flags(),
    {
        match self {
            GsMemoryType::HostMemory => MEMORY_PROPERTY_HOST_VISIBLE | MEMORY_PROPERTY_HOST_COHERENT,
            GsMemoryType::CachedMemory => MEMORY_PROPERTY_HOST_VISIBLE | MEMORY_PROPERTY_HOST_CACHED,
            GsMemoryType::DeviceMemory => MEMORY_PROPERTY_DEVICE_LOCAL,
            GsMemoryType::StagingMemory => MEMORY_PROPERTY_HOST_VISIBLE | MEMORY_PROPERTY_HOST_COHERENT,
        }
    }

    /// The usage flags this class adds to every buffer placed in it:
    /// classes filled through staged copies add transfer-destination, the
    /// staging class itself adds transfer-source, and host memory adds
    /// nothing.
    pub open spec fn spec_complement_usage(self, origin: vkuint) -> vkuint {
        match self {
            GsMemoryType::HostMemory => origin,
            GsMemoryType::CachedMemory => origin | BUFFER_USAGE_TRANSFER_DST,
            GsMemoryType::DeviceMemory => origin | BUFFER_USAGE_TRANSFER_DST,
            GsMemoryType::StagingMemory => origin | BUFFER_USAGE_TRANSFER_SRC,
        }
    }

    #[verifier::when_used_as_spec(spec_complement_usage)]
    pub fn complement_usage(self, origin: vkuint) -> (r: vkuint)
        ensures
            r == self.spec_complement_usage(origin),
    {
        match self {
            GsMemoryType::HostMemory => origin,
            GsMemoryType::CachedMemory => origin | BUFFER_USAGE_TRANSFER_DST,
            GsMemoryType::DeviceMemory => origin | BUFFER_USAGE_TRANSFER_DST,
            GsMemoryType::StagingMemory => origin | BUFFER_USAGE_TRANSFER_SRC,
        }
    }

    /// Whether memory of this class is mapped right after allocation and
    /// stays mapped for the repository's lifetime.
    pub open spec fn spec_is_persistently_mapped(self) -> bool {
        self == GsMemoryType::HostMemory
    }

    #[verifier::when_used_as_spec(spec_is_persistently_mapped)]
    pub fn is_persistently_mapped(self) -> (r: bool)
        ensures
            r == self.spec_is_persistently_mapped(),
    {
        matches!(self, GsMemoryType::HostMemory)
    }

    /// Whether the host can map memory of this class at all.
    pub open spec fn spec_is_host_accessible(self) -> bool {
        self != GsMemoryType::DeviceMemory
    }

    #[verifier::when_used_as_spec(spec_is_host_accessible)]
    pub fn is_host_accessible(self) -> (r: bool)
        ensures
            r == self.spec_is_host_accessible(),
    {
        !matches!(self, GsMemoryType::DeviceMemory)
    }

    /// Whether a repository of this class accepts the updater: only classes
    /// that remain host-accessible after allocation do.
    pub open spec fn spec_supports_update(self) -> bool {
        self == GsMemoryType::HostMemory || self == GsMemoryType::StagingMemory
    }

    #[verifier::when_used_as_spec(spec_supports_update)]
    pub fn supports_update(self) -> (r: bool)
        ensures
            r == self.spec_supports_update(),
    {
        matches!(self, GsMemoryType::HostMemory | GsMemoryType::StagingMemory)
    }

    /// Whether filling this class routes caller bytes through a transient
    /// staging buffer and the transfer pipeline.
    pub open spec fn spec_requires_staging(self) -> bool {
        self == GsMemoryType::DeviceMemory
    }

    #[verifier::when_used_as_spec(spec_requires_staging)]
    pub fn requires_staging(self) -> (r: bool)
        ensures
            r == self.spec_requires_staging(),
    {
        matches!(self, GsMemoryType::DeviceMemory)
    }
}

/// The storage class a buffer allocator is fixed to at construction.
#[derive(Debug, Clone, Copy, PartialEq, Eq, Structural)]
pub enum BufferStorageType {
    Host,
    Cached,
    Device,
    Staging,
}

impl BufferStorageType {
    /// The memory class this storage class allocates from.
    pub open spec fn spec_memory_type(self) -> GsMemoryType {
        match self {
            BufferStorageType::Host => GsMemoryType::HostMemory,
            BufferStorageType::Cached => GsMemoryType::CachedMemory,
            BufferStorageType::Device => GsMemoryType::DeviceMemory,
            BufferStorageType::Staging => GsMemoryType::StagingMemory,
        }
    }

    #[verifier::when_used_as_spec(spec_memory_type)]
    pub fn memory_type(self) -> (r: GsMemoryType)
        ensures
            r == self.spec_memory_type(),
    {
        match self {
            BufferStorageType::Host => GsMemoryType::HostMemory,
            BufferStorageType::Cached => GsMemoryType::CachedMemory,
            BufferStorageType::Device => GsMemoryType::DeviceMemory,
            BufferStorageType::Staging => GsMemoryType::StagingMemory,
        }
    }
}

/// The storage class an image allocator is fixed to at construction.
#[derive(Debug, Clone, Copy, PartialEq, Eq, Structural)]
pub enum ImageStorageType {
    Device,
    Cached,
}

impl ImageStorageType {
    /// The memory class this storage class allocates from.
    pub open spec fn spec_memory_type(self) -> GsMemoryType {
        match self {
            ImageStorageType::Device => GsMemoryType::DeviceMemory,
            ImageStorageType::Cached => GsMemoryType::CachedMemory,
        }
    }

    #[verifier::when_used_as_spec(spec_memory_type)]
    pub fn memory_type(self) -> (r: GsMemoryType)
        ensures
            r == self.spec_memory_type(),
    {
        match self {
            ImageStorageType::Device => GsMemoryType::DeviceMemory,
            ImageStorageType::Cached => GsMemoryType::CachedMemory,
        }
    }
}

/// Marker for the persistently mapped host storage class.
#[derive(Debug, Clone, Copy, PartialEq, Eq, Structural)]
pub struct Host;

/// Marker for the host-visible, cached storage class.
#[derive(Debug, Clone, Copy, PartialEq, Eq, Structural)]
pub struct Cached;

/// Marker for the GPU-local storage class the host cannot write directly.
#[derive(Debug, Clone, Copy, PartialEq, Eq, Structural)]
pub struct Device;

/// Marker for the transient, transfer-source staging class.
#[derive(Debug, Clone, Copy, PartialEq, Eq, Structural)]
pub struct Staging;

impl Host {
    pub fn storage_type(self) -> (r: BufferStorageType)
        ensures
            r == BufferStorageType::Host,
    {
        BufferStorageType::Host
    }
}

impl Cached {
    pub fn storage_type(self) -> (r: BufferStorageType)
        ensures
            r == BufferStorageType::Cached,
    {
        BufferStorageType::Cached
    }
}

impl Device {
    pub fn storage_type(self) -> (r: BufferStorageType)
        ensures
            r == BufferStorageType::Device,
    {
        BufferStorageType::Device
    }
}

impl Staging {
    pub fn storage_type(self) -> (r: BufferStorageType)
        ensures
            r == BufferStorageType::Staging,
    {
        BufferStorageType::Staging
    }
}

} // verus!
