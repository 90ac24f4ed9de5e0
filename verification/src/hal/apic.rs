//! The local interrupt controller of a processor: where it is, which
//! registers enable it and acknowledge an interrupt.

use vstd::prelude::*;
use crate::devices::acpi::HardwareCatalog;

verus! {

/// Where the identifier register lies behind the controller's base.
pub const LAPIC_ID: u64 = 0x20;

/// Where the end-of-interrupt register lies behind the controller's base.
pub const LAPIC_EOI: u64 = 0xB0;

/// Where the spurious interrupt vector register lies behind the
/// controller's base.
pub const LAPIC_SVR: u64 = 0xF0;

/// The bit of the spurious interrupt vector register that enables the
/// controller.
pub const LAPIC_SVR_APIC_ENABLE: u32 = 0x100;

/// The vector that legacy interrupt line 0 is routed to.
pub const LEGACY_VECTOR_BASE: u8 = 0x20;

/// The local interrupt controller as the kernel knows it.
#[derive(Debug, Clone, Copy, PartialEq, Eq, Structural)]
pub struct LocalApic {
    /// The address at which the controller's registers are seen; zero
    /// while the controller is not in use.
    pub base: u64,
}

/// A dword to be written to memory.
#[derive(Debug, Clone, Copy, PartialEq, Eq, Structural)]
pub struct MemoryWrite {
    pub addr: u64,
    pub value: u32,
}

/// How the end of an interrupt is signalled.
#[derive(Debug, Clone, Copy, PartialEq, Eq, Structural)]
pub enum EndOfInterrupt {
    /// By a write to the local interrupt controller.
    LocalApic(MemoryWrite),
    /// By telling the legacy controller which of its lines was served.
    Legacy { irq: u8 },
}

/// The sum of `a` and `b`, wrapping at 64 bits.
pub open spec fn wrapping_sum(a: u64, b: u64) -> u64 {
    ((a + b) % 0x1_0000_0000_0000_0000) as u64
}

/// The spurious interrupt vector register `svr` with the enable bit set.
pub open spec fn with_enable(svr: u32) -> u32 {
    svr | LAPIC_SVR_APIC_ENABLE
}

/// The identifier of a controller from its identifier register: the top
/// byte.
pub open spec fn apic_id_in(register: u32) -> u8 {
    ((register >> 24) & 0xFF) as u8
}

/// The legacy line that is taken to have raised the interrupt `vector`:
/// the line that many above [`LEGACY_VECTOR_BASE`], wrapping below it.
pub open spec fn legacy_irq(vector: u8) -> u8 {
    ((vector + 0x100 - LEGACY_VECTOR_BASE) % 0x100) as u8
}

impl LocalApic {
    /// A controller that is not in use.
    pub fn new() -> (lapic: LocalApic)
        ensures
            lapic.base == 0,
    {
        LocalApic { base: 0 }
    }
}

/// Takes the local interrupt controller at the physical address
/// `phys_addr` into use, where physical memory is mapped at `phys_offset`.
/// What comes back is the address of the spurious interrupt vector
/// register, which the caller is to read and to write back with the
/// enable bit set (see [`enable_in_svr`]); `None` comes back, and the
/// controller is not taken into use, where its address comes to zero.
pub fn init_lapic_phys(lapic: &mut LocalApic, phys_addr: u64, phys_offset: u64) -> (svr: Option<
    u64,
>)
    ensures
        wrapping_sum(phys_addr, phys_offset) == 0 ==> svr is None && *final(lapic) == *old(lapic),
        wrapping_sum(phys_addr, phys_offset) != 0 ==> final(lapic).base == wrapping_sum(
            phys_addr,
            phys_offset,
        ) && svr == Some(wrapping_sum(final(lapic).base, LAPIC_SVR)),
{
    let virt = phys_addr.wrapping_add(phys_offset);
    if virt == 0 {
        return None;
    }
    lapic.base = virt;
    Some(virt.wrapping_add(LAPIC_SVR))
}

/// Takes the local interrupt controller that the firmware tables named
/// into use; see [`init_lapic_phys`]. `None` comes back, and nothing
/// changes, where the tables named none.
pub fn init_from_acpi(lapic: &mut LocalApic, catalog: &HardwareCatalog, phys_offset: u64) -> (svr:
    Option<u64>)
    ensures
        catalog.local_apic_addr == 0 ==> svr is None && *final(lapic) == *old(lapic),
        catalog.local_apic_addr != 0 ==> {
            let phys = (catalog.local_apic_addr as u32) as u64;
            &&& wrapping_sum(phys, phys_offset) == 0 ==> svr is None && *final(lapic) == *old(lapic)
            &&& wrapping_sum(phys, phys_offset) != 0 ==> final(lapic).base == wrapping_sum(
                phys,
                phys_offset,
            ) && svr == Some(wrapping_sum(final(lapic).base, LAPIC_SVR))
        },
{
    match crate::devices::acpi::get_local_apic_address(catalog) {
        Some(phys) => init_lapic_phys(lapic, phys as u64, phys_offset),
        None => None,
    }
}

/// The value to write back to the spurious interrupt vector register that
/// was read as `svr`: the same with the enable bit set.
pub fn enable_in_svr(svr: u32) -> (value: u32)
    ensures
        value == with_enable(svr),
{
    svr | LAPIC_SVR_APIC_ENABLE
}

/// Whether the local interrupt controller is in use.
pub fn is_initialized(lapic: &LocalApic) -> (in_use: bool)
    ensures
        in_use == (lapic.base != 0),
{
    lapic.base != 0
}

/// The write that tells the local interrupt controller that an interrupt
/// was served: a zero to its end-of-interrupt register. `None` while the
/// controller is not in use.
pub fn send_eoi(lapic: &LocalApic) -> (write: Option<MemoryWrite>)
    ensures
        write == if lapic.base == 0 {
            None
        } else {
            Some(MemoryWrite { addr: wrapping_sum(lapic.base, LAPIC_EOI), value: 0 })
        },
{
    if lapic.base == 0 {
        None
    } else {
        Some(MemoryWrite { addr: lapic.base.wrapping_add(LAPIC_EOI), value: 0 })
    }
}

/// The address of the identifier register of the local interrupt
/// controller; `None` while the controller is not in use.
pub fn id_register(lapic: &LocalApic) -> (addr: Option<u64>)
    ensures
        addr == if lapic.base == 0 {
            None
        } else {
            Some(wrapping_sum(lapic.base, LAPIC_ID))
        },
{
    if lapic.base == 0 {
        None
    } else {
        Some(lapic.base.wrapping_add(LAPIC_ID))
    }
}

/// The identifier of the local interrupt controller, given what its
/// identifier register holds; `None` while the controller is not in use.
pub fn local_apic_id(lapic: &LocalApic, register: u32) -> (id: Option<u8>)
    ensures
        id == if lapic.base == 0 {
            None
        } else {
            Some(apic_id_in(register))
        },
{
    if lapic.base == 0 {
        None
    } else {
        Some(((register >> 24) & 0xFF) as u8)
    }
}

/// How the end of the interrupt `vector` is signalled: through the local
/// interrupt controller where it is in use, otherwise through the legacy
/// controller, with the line taken from the vector.
pub fn end_of_interrupt(lapic: &LocalApic, vector: u8) -> (how: EndOfInterrupt)
    ensures
        how == if lapic.base == 0 {
            EndOfInterrupt::Legacy { irq: legacy_irq(vector) }
        } else {
            EndOfInterrupt::LocalApic(
                MemoryWrite { addr: wrapping_sum(lapic.base, LAPIC_EOI), value: 0 },
            )
        },
{
    match send_eoi(lapic) {
        Some(write) => EndOfInterrupt::LocalApic(write),
        None => EndOfInterrupt::Legacy { irq: vector.wrapping_sub(LEGACY_VECTOR_BASE) },
    }
}

} // verus!
