//! The interrupt controllers and what the rest of the kernel asks of the
//! hardware at boot.

pub mod apic;
pub mod hal;
pub mod ioapic;
