//! Finding the hardware: firmware tables and the PCI bus.

pub mod acpi;
pub mod pci;
