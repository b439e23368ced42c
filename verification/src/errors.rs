use vstd::prelude::*;

verus! {

/// Everything that can go wrong during device bring-up and window binding.
///
/// The `i32` payloads carry the raw result code returned by the graphics
/// API call that was refused.
#[derive(Clone, Copy, Debug, PartialEq, Eq, Structural)]
pub enum VulkanError {
    /// The windowing platform could not report its mandatory instance
    /// extensions (for example, no display connection).
    PlatformQueryFailed,
    /// A caller-supplied extension name is not encodable as a C string
    /// (it contains an interior NUL byte).
    InvalidExtensionName,
    /// Device enumeration returned no device of a supported type.
    NoSuitableDevice,
    /// No queue family of the selected physical device advertises
    /// graphics-capable queues.
    UnableToFindQueueFamily,
    /// The API refused to create the instance or the logical device.
    DeviceCreationFailed(i32),
    /// The windowing subsystem refused to create a native window.
    WindowCreationFailed,
    /// The API refused to create a surface for the window.
    SurfaceCreationFailed(i32),
    /// The API refused to create or recreate a swapchain.
    SwapchainCreationFailed(i32),
}

} // verus!
