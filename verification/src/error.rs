use vstd::prelude::*;

verus! {

/// The kind of native object whose creation was rejected by the device.
#[derive(Debug, Clone, Copy, PartialEq, Eq, Structural)]
pub enum ObjectKind {
    Buffer,
    Image,
    Memory,
    DescriptorPool,
}

/// Every failure an allocate, upload or update call can surface.
///
/// `NoResourceAttached` and `MemoryUnableToUpdate` are configuration errors a
/// caller can detect before allocating; `NoSuitableMemoryType` means no
/// physical memory type satisfies the combined requirement bitmask;
/// `NativeCreation` reports which native object the device refused;
/// `Transfer` means a staging or barrier submission failed.
#[derive(Debug, Clone, Copy, PartialEq, Eq, Structural)]
pub enum AllocatorError {
    NoResourceAttached,
    NoSuitableMemoryType,
    NativeCreation(ObjectKind),
    Transfer,
    MemoryUnableToUpdate,
}

impl AllocatorError {
    /// A human-readable account of the failure.
    pub fn description(&self) -> &'static str {
        match self {
            AllocatorError::NoResourceAttached => "No resource was attached to the allocator.",
            AllocatorError::NoSuitableMemoryType => "No physical memory type satisfies the required properties.",
            AllocatorError::NativeCreation(kind) => match kind {
                ObjectKind::Buffer => "Failed to create Buffer object.",
                ObjectKind::Image => "Failed to create Image object.",
                ObjectKind::Memory => "Failed to allocate Memory object.",
                ObjectKind::DescriptorPool => "Failed to create Descriptor Pool object.",
            },
            AllocatorError::Transfer => "Failed to submit the transfer command stream.",
            AllocatorError::MemoryUnableToUpdate => "This type of memory does not support the updater.",
        }
    }
}

/// Failures while creating the native instance.
#[derive(Debug, Clone, Copy, PartialEq, Eq, Structural)]
pub enum InstanceError {
    EntryCreationError,
    ValidationLayerNotSupportError,
    InstanceCreationError,
    LayerPropertiesEnumerateError,
}

impl InstanceError {
    pub fn description(&self) -> &'static str {
        match self {
            InstanceError::EntryCreationError => "Failed to create Entry Object.",
            InstanceError::ValidationLayerNotSupportError => "Validation Layer is not support.",
            InstanceError::InstanceCreationError => "Failed to create Instance Object.",
            InstanceError::LayerPropertiesEnumerateError => "Failed to enumerate Instance Layer Properties.",
        }
    }
}

/// Failures while initializing the validation layer.
#[derive(Debug, Clone, Copy, PartialEq, Eq, Structural)]
pub enum ValidationError {
    DebugReportCallbackCreationError,
    DebugUtilsCallbackCreationEror,
}

impl ValidationError {
    pub fn description(&self) -> &'static str {
        match self {
            ValidationError::DebugReportCallbackCreationError => "Failed to create DebugReport Callback Object.",
            ValidationError::DebugUtilsCallbackCreationEror => "Failed to create DebugUtils Callback Object.",
        }
    }
}

/// The specific required usage of a pixel format.
#[derive(Debug, Clone, Copy, PartialEq, Eq, Structural)]
pub enum PhysicalFormatUsage {
    DepthStencil,
}

impl PhysicalFormatUsage {
    pub fn description(&self) -> &'static str {
        match self {
            PhysicalFormatUsage::DepthStencil => "Depth or Stencil Buffer",
        }
    }
}

/// Failures while choosing or querying the physical device.
#[derive(Debug, Clone, Copy, PartialEq, Eq, Structural)]
pub enum PhysicalDeviceError {
    NoSuitableDeviceError,
    EnumerateDeviceError,
    GraphicsQueueNotSupportError,
    PresentQueueNotSupportError,
    TransferQueueNotSupportError,
    EnumerateExtensionsError,
    FormatUsageNotSupport(PhysicalFormatUsage),
}

impl PhysicalDeviceError {
    pub fn description(&self) -> &'static str {
        match self {
            PhysicalDeviceError::NoSuitableDeviceError => "No Physical Device suitable for requirements.",
            PhysicalDeviceError::EnumerateDeviceError => "Failed to enumerate Physical Devices.",
            PhysicalDeviceError::GraphicsQueueNotSupportError => "Physical device does not support graphics requirement.",
            PhysicalDeviceError::PresentQueueNotSupportError => "Physical device does not support present requirement.",
            PhysicalDeviceError::TransferQueueNotSupportError => "Physical device does not support transfer requirement",
            PhysicalDeviceError::EnumerateExtensionsError => "Failed to enumerate Device Extensions.",
            PhysicalDeviceError::FormatUsageNotSupport(_) => "Unable to find support format.",
        }
    }
}

/// Failures while creating or querying the presentation surface.
#[derive(Debug, Clone, Copy, PartialEq, Eq, Structural)]
pub enum SurfaceError {
    SurfaceCreationError,
    QueryCapabilitiesError,
    QueryFormatsError,
    QueryPresentModeError,
}

impl SurfaceError {
    pub fn description(&self) -> &'static str {
        match self {
            SurfaceError::SurfaceCreationError => "Failed to create Surface.",
            SurfaceError::QueryCapabilitiesError => "Failed to query surface capabilities.",
            SurfaceError::QueryFormatsError => "Failed to query surface formats.",
            SurfaceError::QueryPresentModeError => "Failed to query surface present mode.",
        }
    }
}

/// Failures while using the command pool and command buffers.
#[derive(Debug, Clone, Copy, PartialEq, Eq, Structural)]
pub enum CommandError {
    QueueFamilyUnavailable,
    PoolCreationError,
    BufferAllocateError,
    RecordBeginError,
    RecordEndError,
}

impl CommandError {
    pub fn description(&self) -> &'static str {
        match self {
            CommandError::QueueFamilyUnavailable => "Graphics Queue Family is not available.",
            CommandError::PoolCreationError => "Failed to create Command Pool.",
            CommandError::BufferAllocateError => "Failed to allocate Command Buffer.",
            CommandError::RecordBeginError => "Failed to begin Command Buffer recording.",
            CommandError::RecordEndError => "Failed to end Command Buffer recording.",
        }
    }
}

/// Failures while creating the logical device.
#[derive(Debug, Clone, Copy, PartialEq, Eq, Structural)]
pub enum LogicalDeviceError {
    DeviceCreationError,
    WaitIdleError,
    QueueOpsUnsupport,
    QueueCountNotEnough,
    Command(CommandError),
}

impl LogicalDeviceError {
    pub fn description(&self) -> &'static str {
        match self {
            LogicalDeviceError::DeviceCreationError => "Failed to create Logical Device.",
            LogicalDeviceError::WaitIdleError => "Device failed to wait idle.",
            LogicalDeviceError::QueueOpsUnsupport => "Not all the operations is support for Device Queues.",
            LogicalDeviceError::QueueCountNotEnough => "No enough queue available on this Device.",
            LogicalDeviceError::Command(e) => e.description(),
        }
    }
}

impl From<CommandError> for LogicalDeviceError {
    fn from(e: CommandError) -> (r: LogicalDeviceError)
        ensures
            r == LogicalDeviceError::Command(e),
    {
        LogicalDeviceError::Command(e)
    }
}

impl vstd::std_specs::convert::FromSpecImpl<CommandError> for LogicalDeviceError {
    open spec fn obeys_from_spec() -> bool {
        true
    }

    open spec fn from_spec(e: CommandError) -> LogicalDeviceError {
        LogicalDeviceError::Command(e)
    }
}

/// Failures while creating a framebuffer.
#[derive(Debug, Clone, Copy, PartialEq, Eq, Structural)]
pub enum FramebufferError {
    FramebufferCreationError,
}

impl FramebufferError {
    pub fn description(&self) -> &'static str {
        match self {
            FramebufferError::FramebufferCreationError => "Failed to create Framebuffer Object.",
        }
    }
}

} // verus!
