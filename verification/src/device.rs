use vstd::prelude::*;

use crate::errors::VulkanError;

verus! {

/// One initialized GPU context: the instance it was created under, the
/// physical device chosen by the selector (as its index in the
/// enumeration order), the queue family used for graphics submission, and
/// the logical device opened on it.
///
/// The handles are opaque identifiers chosen by the host that performs
/// the actual API calls. The logical device is never recreated: changing
/// physical device means tearing this value down and constructing a new
/// one.
#[derive(Clone, Copy, Debug, PartialEq, Eq, Structural)]
pub struct Device {
    pub instance: u64,
    pub physical_index: usize,
    pub queue_family_index: u32,
    pub logical: u64,
}

impl Device {
    /// A device context as it stands once every bring-up stage has
    /// succeeded.
    pub fn new(instance: u64, physical_index: usize, queue_family_index: u32, logical: u64) -> (d:
        Device)
        ensures
            d == (Device { instance, physical_index, queue_family_index, logical }),
    {
        Device { instance, physical_index, queue_family_index, logical }
    }

    /// Folds the outcomes of the two window-linking calls — surface
    /// creation against the instance, then swapchain creation against
    /// that surface — into the binder's result. The surface call's
    /// refusal wins; the swapchain outcome counts only once a surface
    /// exists. The caller must not attempt the swapchain call at all once
    /// the surface call has failed (a success passed here in that case is
    /// dropped); the lifecycle machine sequences the two calls so that
    /// the second is only ever asked for after the first succeeded.
    pub fn link_to_window(&self, surface: Result<u64, i32>, swapchain: Result<u64, i32>) -> (r:
        Result<(u64, u64), VulkanError>)
        ensures
            match r {
                Ok(pair) => surface == Ok::<u64, i32>(pair.0) && swapchain == Ok::<u64, i32>(
                    pair.1,
                ),
                Err(e) => {
                    ||| (surface matches Err(code) && e == VulkanError::SurfaceCreationFailed(
                        code,
                    ))
                    ||| (surface is Ok && (swapchain matches Err(code)
                        && e == VulkanError::SwapchainCreationFailed(code)))
                },
            },
    {
        let s = match surface {
            Ok(s) => s,
            Err(code) => {
                return Err(VulkanError::SurfaceCreationFailed(code));
            },
        };
        let sc = match swapchain {
            Ok(sc) => sc,
            Err(code) => {
                return Err(VulkanError::SwapchainCreationFailed(code));
            },
        };
        Ok((s, sc))
    }
}

} // verus!
