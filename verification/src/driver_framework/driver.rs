//! The interface a device driver offers to the registry.

use vstd::prelude::*;
use crate::driver_framework::device::DeviceHandle;

verus! {

/// A device driver. The registry asks it whether it serves a device, starts
/// it, and later stops and releases it. What a driver answers is its own
/// business: the registry promises only what it does with each answer.
pub trait Driver: Send + Sync {
    /// Whether this driver serves `device`; the error says why not.
    fn probe(&self, device: &DeviceHandle) -> Result<(), &'static str>;

    /// Brings `device` into service; the error says why that failed.
    fn start(&self, device: &DeviceHandle) -> Result<(), &'static str>;

    /// Takes `device` out of service; the device itself stays registered.
    fn stop(&self, device: &DeviceHandle);

    /// Gives up whatever the driver still holds for `device`.
    fn release(&self, device: &DeviceHandle);
}

/// How the registry holds a driver.
pub type DriverBox = Box<dyn Driver>;

} // verus!
