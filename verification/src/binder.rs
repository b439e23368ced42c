use vstd::prelude::*;

verus! {

/// A window's size in pixels.
#[derive(Clone, Copy, Debug, PartialEq, Eq, Structural)]
pub struct Extent {
    pub width: u32,
    pub height: u32,
}

impl Extent {
    /// A zero-area extent, against which no swapchain can be created.
    pub open spec fn spec_is_zero(self) -> bool {
        self.width == 0 || self.height == 0
    }

    #[verifier::when_used_as_spec(spec_is_zero)]
    pub fn is_zero(self) -> (r: bool)
        ensures
            r == self.spec_is_zero(),
    {
        self.width == 0 || self.height == 0
    }
}

/// Whether the binder's swapchain handle exists and can present.
#[derive(Clone, Copy, Debug, PartialEq, Eq, Structural)]
pub enum SwapchainStatus {
    /// The swapchain exists and matches the surface's current size.
    Healthy,
    /// The swapchain exists but a zero-extent resize left it unusable;
    /// presentation waits for the next usable resize.
    Stale,
    /// The swapchain was destroyed and its replacement is not created yet
    /// (or its creation was refused); presentation waits for a resize.
    Absent,
}

/// The binding between one native window and one presentation chain: the
/// window handle, the surface created against it, and the swapchain
/// created against that surface, with the extent they were sized to.
///
/// The handles are opaque identifiers chosen by the host that performs
/// the actual window, surface and swapchain calls.
#[derive(Clone, Copy, Debug, PartialEq, Eq, Structural)]
pub struct WindowView {
    pub window: u64,
    pub surface: u64,
    pub swapchain: u64,
    pub extent: Extent,
    pub status: SwapchainStatus,
}

impl WindowView {
    /// A fresh binding, as it stands right after the window, surface and
    /// swapchain were all created together at the window's extent.
    pub fn new(window: u64, surface: u64, swapchain: u64, extent: Extent) -> (v: WindowView)
        ensures
            v == (WindowView {
                window,
                surface,
                swapchain,
                extent,
                status: SwapchainStatus::Healthy,
            }),
    {
        WindowView { window, surface, swapchain, extent, status: SwapchainStatus::Healthy }
    }
}

} // verus!
