//! What bringing up the hardware comes to: the processor's name and
//! whether firmware tables were found.

use vstd::prelude::*;
use vstd::string::*;
use vstd::utf8::*;
use crate::arch::processor::{detect_cpu_features, features_of, CpuFeatures, CpuidLeaves};
use crate::devices::acpi::Rsdp;

verus! {

/// Whether the firmware offers its tables.
#[derive(Debug, Clone, Copy, PartialEq, Eq, Structural)]
pub enum AcpiStatus {
    /// The tables were found and taken in.
    Enabled,
    /// The tables were found, but power management did not come up.
    TablesFound,
    /// No tables were found.
    NotAvailable,
}

/// The vendor text as the processor reports it, or "Unknown" where its
/// twelve bytes are not valid UTF-8.
pub fn get_cpu_vendor_string(vendor: &[u8; 12]) -> (text: &str)
    ensures
        text@ == if valid_utf8(vendor@) {
            decode_utf8(vendor@)
        } else {
            "Unknown"@
        },
{
    match crate::text::utf8_text(vendor.as_slice()) {
        Some(text) => text,
        None => "Unknown",
    }
}

/// Whether the firmware offers its tables: it does where a root pointer
/// was found.
pub fn is_acpi_available(rsdp: &Option<Rsdp>) -> (available: bool)
    ensures
        available == (rsdp is Some),
{
    rsdp.is_some()
}

/// What taking in the firmware tables came to, given whether a root
/// pointer was found.
pub fn init_acpi(rsdp: &Option<Rsdp>) -> (status: AcpiStatus)
    ensures
        status == if rsdp is Some {
            AcpiStatus::Enabled
        } else {
            AcpiStatus::NotAvailable
        },
{
    if rsdp.is_some() {
        AcpiStatus::Enabled
    } else {
        AcpiStatus::NotAvailable
    }
}

/// What is known of the processor.
#[derive(Debug, Clone, Copy)]
pub struct CpuInfo {
    /// The vendor text, as the twelve bytes of the identification leaf 0.
    pub vendor: [u8; 12],
    pub features: CpuFeatures,
}

/// What is known of the processor from its vendor text and its
/// identification leaves.
pub fn init_cpu(vendor: [u8; 12], leaves: &CpuidLeaves) -> (info: CpuInfo)
    ensures
        info.vendor == vendor,
        info.features == features_of(*leaves),
{
    CpuInfo { vendor, features: detect_cpu_features(leaves) }
}

} // verus!
