//! Firmware tables: finding the root pointer, checking and walking the
//! tables, and keeping what they say about interrupt controllers, the
//! event timer and the PCI configuration windows.
//!
//! Every function here reads bytes that its caller copied out of physical
//! memory; the addresses found in the tables are handed back for the
//! caller to copy from.

use vstd::prelude::*;
use vstd::string::*;
use vstd::utf8::*;
use crate::bytes::{
    byte_or_zero, bytes_at, checksum, checksum_ok, le16, le32, le64, le_bytes32,
    lemma_le_bytes32, read_u16, read_u32, read_u64, read_u8,
};
use crate::driver_framework::device::{DeviceInfo, DeviceInfoView, Resource, ResourceKind};
use crate::driver_framework::manager::DeviceManager;
use crate::text::{decimal_digits, hex_digits, push_decimal, push_hex};

verus! {

/// The root system description pointer: where the firmware says its
/// tables start.
#[derive(Debug, Clone, Copy)]
pub struct Rsdp {
    pub signature: [u8; 8],
    pub checksum: u8,
    pub oem_id: [u8; 6],
    pub revision: u8,
    pub rsdt_address: u32,
    pub length: u32,
    pub xsdt_address: u64,
    pub extended_checksum: u8,
    pub reserved: [u8; 3],
}

/// The header that every firmware table starts with.
#[derive(Debug, Clone, Copy)]
pub struct AcpiTableHeader {
    pub signature: [u8; 4],
    pub length: u32,
    pub revision: u8,
    pub checksum: u8,
    pub oem_id: [u8; 6],
    pub oem_table_id: [u8; 8],
    pub oem_revision: u32,
    pub creator_id: u32,
    pub creator_revision: u32,
}

/// The root table with 32-bit entries: its header is followed by the
/// addresses of the other tables.
#[derive(Debug, Clone, Copy)]
pub struct Rsdt {
    pub header: AcpiTableHeader,
}

/// The root table with 64-bit entries: its header is followed by the
/// addresses of the other tables.
#[derive(Debug, Clone, Copy)]
pub struct Xsdt {
    pub header: AcpiTableHeader,
}

/// An address in one of several address spaces, as firmware tables
/// write it.
#[derive(Debug, Clone, Copy)]
pub struct GenericAddressStructure {
    pub address_space: u8,
    pub bit_width: u8,
    pub bit_offset: u8,
    pub access_size: u8,
    pub address: u64,
}

/// The fixed description table: the ports through which power
/// management is switched on.
#[derive(Debug, Clone, Copy)]
pub struct Facp {
    pub header: AcpiTableHeader,
    pub firmware_ctrl: u32,
    pub dsdt: u32,
    pub reserved: u8,
    pub preferred_pm_profile: u8,
    pub sci_int: u16,
    pub smi_cmd: u32,
    pub acpi_enable: u8,
    pub acpi_disable: u8,
    pub s4bios_req: u8,
    pub pstate_cnt: u8,
    pub pm1a_evt_blk: u32,
    pub pm1b_evt_blk: u32,
    pub pm1a_cnt_blk: u32,
    pub pm1b_cnt_blk: u32,
    pub pm2_cnt_blk: u32,
    pub pm_tmr_blk: u32,
    pub gpe0_blk: u32,
    pub gpe1_blk: u32,
    pub pm1_evt_len: u8,
    pub pm1_cnt_len: u8,
    pub pm2_cnt_len: u8,
    pub pm_tmr_len: u8,
    pub gpe0_blk_len: u8,
    pub gpe1_blk_len: u8,
    pub gpe1_base: u8,
    pub cst_cnt: u8,
    pub p_lvl2_lat: u16,
    pub p_lvl3_lat: u16,
    pub flush_size: u16,
    pub flush_stride: u16,
    pub duty_offset: u8,
    pub duty_width: u8,
    pub day_alrm: u8,
    pub mon_alrm: u8,
    pub century: u8,
    pub iapc_boot_arch: u16,
    pub reserved2: u8,
    pub flags: u32,
    pub reset_reg: GenericAddressStructure,
    pub reset_value: u8,
    pub reserved3: [u8; 3],
    pub x_firmware_ctrl: u64,
    pub x_dsdt: u64,
    pub x_pm1a_evt_blk: GenericAddressStructure,
    pub x_pm1b_evt_blk: GenericAddressStructure,
    pub x_pm1a_cnt_blk: GenericAddressStructure,
    pub x_pm1b_cnt_blk: GenericAddressStructure,
    pub x_pm2_cnt_blk: GenericAddressStructure,
    pub x_pm_tmr_blk: GenericAddressStructure,
    pub x_gpe0_blk: GenericAddressStructure,
    pub x_gpe1_blk: GenericAddressStructure,
}

/// The start of the interrupt controller table: its header, the address
/// of the local interrupt controller and flags. Entries of varying length
/// follow.
#[derive(Debug, Clone, Copy)]
pub struct Madt {
    pub header: AcpiTableHeader,
    pub local_apic_addr: u32,
    pub flags: u32,
}

/// What every entry of the interrupt controller table starts with.
#[derive(Debug, Clone, Copy)]
pub struct MadtEntryHeader {
    pub entry_type: u8,
    pub length: u8,
}

/// An entry that names a processor's local interrupt controller.
#[derive(Debug, Clone, Copy)]
pub struct MadtLocalApicEntry {
    pub header: MadtEntryHeader,
    pub processor_id: u8,
    pub apic_id: u8,
    pub flags: u32,
}

/// An entry that names an I/O interrupt controller.
#[derive(Debug, Clone, Copy)]
pub struct MadtIoApicEntry {
    pub header: MadtEntryHeader,
    pub io_apic_id: u8,
    pub reserved: u8,
    pub io_apic_addr: u32,
    pub global_system_interrupt_base: u32,
}

/// An entry that routes a legacy interrupt line to another global
/// interrupt.
#[derive(Debug, Clone, Copy)]
pub struct MadtInterruptSourceOverride {
    pub header: MadtEntryHeader,
    pub bus: u8,
    pub source: u8,
    pub gsi: u32,
    pub flags: u16,
}

/// The table of the high precision event timer.
#[derive(Debug, Clone, Copy)]
pub struct Hpet {
    pub header: AcpiTableHeader,
    pub hardware_rev_id: u8,
    pub comparator_count: u8,
    pub counter_size: u8,
    pub reserved: u8,
    pub legacy_replacement: u8,
    pub pci_vendor_id: u16,
    pub hpet_number: u8,
    pub minimum_tick: u16,
    pub page_protection: u8,
    pub address: GenericAddressStructure,
    pub hpet_block_id: u32,
    pub period: u32,
}

/// The start of the table of memory-mapped configuration windows;
/// allocations follow.
#[derive(Debug, Clone, Copy)]
pub struct Mcfg {
    pub header: AcpiTableHeader,
    pub reserved: [u8; 8],
}

/// One memory-mapped configuration window: the buses of one PCI segment.
#[derive(Debug, Clone, Copy)]
pub struct McfgAllocation {
    pub base_address: u64,
    pub pci_segment_group: u16,
    pub start_bus: u8,
    pub end_bus: u8,
    pub reserved: [u8; 4],
}

/// The number of bytes that a [`Rsdp`] takes.
pub const RSDP_SIZE: u64 = 36;

/// The number of bytes that a [`AcpiTableHeader`] takes.
pub const ACPI_TABLE_HEADER_SIZE: u64 = 36;

/// The number of bytes that a [`Rsdt`] takes.
pub const RSDT_SIZE: u64 = 36;

/// The number of bytes that a [`Xsdt`] takes.
pub const XSDT_SIZE: u64 = 36;

/// The number of bytes that a [`GenericAddressStructure`] takes.
pub const GENERIC_ADDRESS_STRUCTURE_SIZE: u64 = 12;

/// The number of bytes that a [`Facp`] takes.
pub const FACP_SIZE: u64 = 244;

/// The number of bytes that a [`Madt`] takes.
pub const MADT_SIZE: u64 = 44;

/// The number of bytes that a [`MadtEntryHeader`] takes.
pub const MADT_ENTRY_HEADER_SIZE: u64 = 2;

/// The number of bytes that a [`MadtLocalApicEntry`] takes.
pub const MADT_LOCAL_APIC_ENTRY_SIZE: u64 = 8;

/// The number of bytes that a [`MadtIoApicEntry`] takes.
pub const MADT_IO_APIC_ENTRY_SIZE: u64 = 12;

/// The number of bytes that a [`MadtInterruptSourceOverride`] takes.
pub const MADT_INTERRUPT_SOURCE_OVERRIDE_SIZE: u64 = 10;

/// The number of bytes that a [`Hpet`] takes.
pub const HPET_SIZE: u64 = 67;

/// The number of bytes that a [`Mcfg`] takes.
pub const MCFG_SIZE: u64 = 44;

/// The number of bytes that a [`McfgAllocation`] takes.
pub const MCFG_ALLOCATION_SIZE: u64 = 16;

impl Rsdp {
    /// Whether `self` is what the bytes of `s` from `at` on hold, read
    /// field by field in little-endian order without padding between the
    /// fields.
    pub open spec fn decoded_from(&self, s: Seq<u8>, at: int) -> bool {
        &&& self.signature@ == bytes_at(s, at + 0, 8)
        &&& self.checksum == byte_or_zero(s, at + 8)
        &&& self.oem_id@ == bytes_at(s, at + 9, 6)
        &&& self.revision == byte_or_zero(s, at + 15)
        &&& self.rsdt_address == le32(s, at + 16)
        &&& self.length == le32(s, at + 20)
        &&& self.xsdt_address == le64(s, at + 24)
        &&& self.extended_checksum == byte_or_zero(s, at + 32)
        &&& self.reserved@ == bytes_at(s, at + 33, 3)
    }

    /// Reads the structure that starts `by` bytes behind `at` in `bytes`.
    pub fn decode(bytes: &[u8], at: u64, by: u64) -> (r: Rsdp)
        requires
            by + 36 <= 0x1_0000_0000,
        ensures
            r.decoded_from(bytes@, at + by),
    {
        let signature: [u8; 8] = [
            read_u8(bytes, at, by + 0),
            read_u8(bytes, at, by + 1),
            read_u8(bytes, at, by + 2),
            read_u8(bytes, at, by + 3),
            read_u8(bytes, at, by + 4),
            read_u8(bytes, at, by + 5),
            read_u8(bytes, at, by + 6),
            read_u8(bytes, at, by + 7),
        ];
        assert(signature@ =~= bytes_at(bytes@, at + by + 0, 8));
        let checksum = read_u8(bytes, at, by + 8);
        let oem_id: [u8; 6] = [
            read_u8(bytes, at, by + 9),
            read_u8(bytes, at, by + 10),
            read_u8(bytes, at, by + 11),
            read_u8(bytes, at, by + 12),
            read_u8(bytes, at, by + 13),
            read_u8(bytes, at, by + 14),
        ];
        assert(oem_id@ =~= bytes_at(bytes@, at + by + 9, 6));
        let revision = read_u8(bytes, at, by + 15);
        let rsdt_address = read_u32(bytes, at, by + 16);
        let length = read_u32(bytes, at, by + 20);
        let xsdt_address = read_u64(bytes, at, by + 24);
        let extended_checksum = read_u8(bytes, at, by + 32);
        let reserved: [u8; 3] = [
            read_u8(bytes, at, by + 33),
            read_u8(bytes, at, by + 34),
            read_u8(bytes, at, by + 35),
        ];
        assert(reserved@ =~= bytes_at(bytes@, at + by + 33, 3));
        Rsdp {
            signature,
            checksum,
            oem_id,
            revision,
            rsdt_address,
            length,
            xsdt_address,
            extended_checksum,
            reserved,
        }
    }
}

impl AcpiTableHeader {
    /// Whether `self` is what the bytes of `s` from `at` on hold, read
    /// field by field in little-endian order without padding between the
    /// fields.
    pub open spec fn decoded_from(&self, s: Seq<u8>, at: int) -> bool {
        &&& self.signature@ == bytes_at(s, at + 0, 4)
        &&& self.length == le32(s, at + 4)
        &&& self.revision == byte_or_zero(s, at + 8)
        &&& self.checksum == byte_or_zero(s, at + 9)
        &&& self.oem_id@ == bytes_at(s, at + 10, 6)
        &&& self.oem_table_id@ == bytes_at(s, at + 16, 8)
        &&& self.oem_revision == le32(s, at + 24)
        &&& self.creator_id == le32(s, at + 28)
        &&& self.creator_revision == le32(s, at + 32)
    }

    /// Reads the structure that starts `by` bytes behind `at` in `bytes`.
    pub fn decode(bytes: &[u8], at: u64, by: u64) -> (r: AcpiTableHeader)
        requires
            by + 36 <= 0x1_0000_0000,
        ensures
            r.decoded_from(bytes@, at + by),
    {
        let signature: [u8; 4] = [
            read_u8(bytes, at, by + 0),
            read_u8(bytes, at, by + 1),
            read_u8(bytes, at, by + 2),
            read_u8(bytes, at, by + 3),
        ];
        assert(signature@ =~= bytes_at(bytes@, at + by + 0, 4));
        let length = read_u32(bytes, at, by + 4);
        let revision = read_u8(bytes, at, by + 8);
        let checksum = read_u8(bytes, at, by + 9);
        let oem_id: [u8; 6] = [
            read_u8(bytes, at, by + 10),
            read_u8(bytes, at, by + 11),
            read_u8(bytes, at, by + 12),
            read_u8(bytes, at, by + 13),
            read_u8(bytes, at, by + 14),
            read_u8(bytes, at, by + 15),
        ];
        assert(oem_id@ =~= bytes_at(bytes@, at + by + 10, 6));
        let oem_table_id: [u8; 8] = [
            read_u8(bytes, at, by + 16),
            read_u8(bytes, at, by + 17),
            read_u8(bytes, at, by + 18),
            read_u8(bytes, at, by + 19),
            read_u8(bytes, at, by + 20),
            read_u8(bytes, at, by + 21),
            read_u8(bytes, at, by + 22),
            read_u8(bytes, at, by + 23),
        ];
        assert(oem_table_id@ =~= bytes_at(bytes@, at + by + 16, 8));
        let oem_revision = read_u32(bytes, at, by + 24);
        let creator_id = read_u32(bytes, at, by + 28);
        let creator_revision = read_u32(bytes, at, by + 32);
        AcpiTableHeader {
            signature,
            length,
            revision,
            checksum,
            oem_id,
            oem_table_id,
            oem_revision,
            creator_id,
            creator_revision,
        }
    }
}

impl Rsdt {
    /// Whether `self` is what the bytes of `s` from `at` on hold, read
    /// field by field in little-endian order without padding between the
    /// fields.
    pub open spec fn decoded_from(&self, s: Seq<u8>, at: int) -> bool {
        &&& self.header.decoded_from(s, at + 0)
    }

    /// Reads the structure that starts `by` bytes behind `at` in `bytes`.
    pub fn decode(bytes: &[u8], at: u64, by: u64) -> (r: Rsdt)
        requires
            by + 36 <= 0x1_0000_0000,
        ensures
            r.decoded_from(bytes@, at + by),
    {
        let header = AcpiTableHeader::decode(bytes, at, by + 0);
        Rsdt {
            header,
        }
    }
}

impl Xsdt {
    /// Whether `self` is what the bytes of `s` from `at` on hold, read
    /// field by field in little-endian order without padding between the
    /// fields.
    pub open spec fn decoded_from(&self, s: Seq<u8>, at: int) -> bool {
        &&& self.header.decoded_from(s, at + 0)
    }

    /// Reads the structure that starts `by` bytes behind `at` in `bytes`.
    pub fn decode(bytes: &[u8], at: u64, by: u64) -> (r: Xsdt)
        requires
            by + 36 <= 0x1_0000_0000,
        ensures
            r.decoded_from(bytes@, at + by),
    {
        let header = AcpiTableHeader::decode(bytes, at, by + 0);
        Xsdt {
            header,
        }
    }
}

impl GenericAddressStructure {
    /// Whether `self` is what the bytes of `s` from `at` on hold, read
    /// field by field in little-endian order without padding between the
    /// fields.
    pub open spec fn decoded_from(&self, s: Seq<u8>, at: int) -> bool {
        &&& self.address_space == byte_or_zero(s, at + 0)
        &&& self.bit_width == byte_or_zero(s, at + 1)
        &&& self.bit_offset == byte_or_zero(s, at + 2)
        &&& self.access_size == byte_or_zero(s, at + 3)
        &&& self.address == le64(s, at + 4)
    }

    /// Reads the structure that starts `by` bytes behind `at` in `bytes`.
    pub fn decode(bytes: &[u8], at: u64, by: u64) -> (r: GenericAddressStructure)
        requires
            by + 12 <= 0x1_0000_0000,
        ensures
            r.decoded_from(bytes@, at + by),
    {
        let address_space = read_u8(bytes, at, by + 0);
        let bit_width = read_u8(bytes, at, by + 1);
        let bit_offset = read_u8(bytes, at, by + 2);
        let access_size = read_u8(bytes, at, by + 3);
        let address = read_u64(bytes, at, by + 4);
        GenericAddressStructure {
            address_space,
            bit_width,
            bit_offset,
            access_size,
            address,
        }
    }
}

impl Facp {
    /// Whether `self` is what the bytes of `s` from `at` on hold, read
    /// field by field in little-endian order without padding between the
    /// fields.
    pub open spec fn decoded_from(&self, s: Seq<u8>, at: int) -> bool {
        &&& self.header.decoded_from(s, at + 0)
        &&& self.firmware_ctrl == le32(s, at + 36)
        &&& self.dsdt == le32(s, at + 40)
        &&& self.reserved == byte_or_zero(s, at + 44)
        &&& self.preferred_pm_profile == byte_or_zero(s, at + 45)
        &&& self.sci_int == le16(s, at + 46)
        &&& self.smi_cmd == le32(s, at + 48)
        &&& self.acpi_enable == byte_or_zero(s, at + 52)
        &&& self.acpi_disable == byte_or_zero(s, at + 53)
        &&& self.s4bios_req == byte_or_zero(s, at + 54)
        &&& self.pstate_cnt == byte_or_zero(s, at + 55)
        &&& self.pm1a_evt_blk == le32(s, at + 56)
        &&& self.pm1b_evt_blk == le32(s, at + 60)
        &&& self.pm1a_cnt_blk == le32(s, at + 64)
        &&& self.pm1b_cnt_blk == le32(s, at + 68)
        &&& self.pm2_cnt_blk == le32(s, at + 72)
        &&& self.pm_tmr_blk == le32(s, at + 76)
        &&& self.gpe0_blk == le32(s, at + 80)
        &&& self.gpe1_blk == le32(s, at + 84)
        &&& self.pm1_evt_len == byte_or_zero(s, at + 88)
        &&& self.pm1_cnt_len == byte_or_zero(s, at + 89)
        &&& self.pm2_cnt_len == byte_or_zero(s, at + 90)
        &&& self.pm_tmr_len == byte_or_zero(s, at + 91)
        &&& self.gpe0_blk_len == byte_or_zero(s, at + 92)
        &&& self.gpe1_blk_len == byte_or_zero(s, at + 93)
        &&& self.gpe1_base == byte_or_zero(s, at + 94)
        &&& self.cst_cnt == byte_or_zero(s, at + 95)
        &&& self.p_lvl2_lat == le16(s, at + 96)
        &&& self.p_lvl3_lat == le16(s, at + 98)
        &&& self.flush_size == le16(s, at + 100)
        &&& self.flush_stride == le16(s, at + 102)
        &&& self.duty_offset == byte_or_zero(s, at + 104)
        &&& self.duty_width == byte_or_zero(s, at + 105)
        &&& self.day_alrm == byte_or_zero(s, at + 106)
        &&& self.mon_alrm == byte_or_zero(s, at + 107)
        &&& self.century == byte_or_zero(s, at + 108)
        &&& self.iapc_boot_arch == le16(s, at + 109)
        &&& self.reserved2 == byte_or_zero(s, at + 111)
        &&& self.flags == le32(s, at + 112)
        &&& self.reset_reg.decoded_from(s, at + 116)
        &&& self.reset_value == byte_or_zero(s, at + 128)
        &&& self.reserved3@ == bytes_at(s, at + 129, 3)
        &&& self.x_firmware_ctrl == le64(s, at + 132)
        &&& self.x_dsdt == le64(s, at + 140)
        &&& self.x_pm1a_evt_blk.decoded_from(s, at + 148)
        &&& self.x_pm1b_evt_blk.decoded_from(s, at + 160)
        &&& self.x_pm1a_cnt_blk.decoded_from(s, at + 172)
        &&& self.x_pm1b_cnt_blk.decoded_from(s, at + 184)
        &&& self.x_pm2_cnt_blk.decoded_from(s, at + 196)
        &&& self.x_pm_tmr_blk.decoded_from(s, at + 208)
        &&& self.x_gpe0_blk.decoded_from(s, at + 220)
        &&& self.x_gpe1_blk.decoded_from(s, at + 232)
    }

    /// Reads the structure that starts `by` bytes behind `at` in `bytes`.
    #[verifier::rlimit(80)]
    pub fn decode(bytes: &[u8], at: u64, by: u64) -> (r: Facp)
        requires
            by + 244 <= 0x1_0000_0000,
        ensures
            r.decoded_from(bytes@, at + by),
    {
        let header = AcpiTableHeader::decode(bytes, at, by + 0);
        let firmware_ctrl = read_u32(bytes, at, by + 36);
        let dsdt = read_u32(bytes, at, by + 40);
        let reserved = read_u8(bytes, at, by + 44);
        let preferred_pm_profile = read_u8(bytes, at, by + 45);
        let sci_int = read_u16(bytes, at, by + 46);
        let smi_cmd = read_u32(bytes, at, by + 48);
        let acpi_enable = read_u8(bytes, at, by + 52);
        let acpi_disable = read_u8(bytes, at, by + 53);
        let s4bios_req = read_u8(bytes, at, by + 54);
        let pstate_cnt = read_u8(bytes, at, by + 55);
        let pm1a_evt_blk = read_u32(bytes, at, by + 56);
        let pm1b_evt_blk = read_u32(bytes, at, by + 60);
        let pm1a_cnt_blk = read_u32(bytes, at, by + 64);
        let pm1b_cnt_blk = read_u32(bytes, at, by + 68);
        let pm2_cnt_blk = read_u32(bytes, at, by + 72);
        let pm_tmr_blk = read_u32(bytes, at, by + 76);
        let gpe0_blk = read_u32(bytes, at, by + 80);
        let gpe1_blk = read_u32(bytes, at, by + 84);
        let pm1_evt_len = read_u8(bytes, at, by + 88);
        let pm1_cnt_len = read_u8(bytes, at, by + 89);
        let pm2_cnt_len = read_u8(bytes, at, by + 90);
        let pm_tmr_len = read_u8(bytes, at, by + 91);
        let gpe0_blk_len = read_u8(bytes, at, by + 92);
        let gpe1_blk_len = read_u8(bytes, at, by + 93);
        let gpe1_base = read_u8(bytes, at, by + 94);
        let cst_cnt = read_u8(bytes, at, by + 95);
        let p_lvl2_lat = read_u16(bytes, at, by + 96);
        let p_lvl3_lat = read_u16(bytes, at, by + 98);
        let flush_size = read_u16(bytes, at, by + 100);
        let flush_stride = read_u16(bytes, at, by + 102);
        let duty_offset = read_u8(bytes, at, by + 104);
        let duty_width = read_u8(bytes, at, by + 105);
        let day_alrm = read_u8(bytes, at, by + 106);
        let mon_alrm = read_u8(bytes, at, by + 107);
        let century = read_u8(bytes, at, by + 108);
        let iapc_boot_arch = read_u16(bytes, at, by + 109);
        let reserved2 = read_u8(bytes, at, by + 111);
        let flags = read_u32(bytes, at, by + 112);
        let reset_reg = GenericAddressStructure::decode(bytes, at, by + 116);
        let reset_value = read_u8(bytes, at, by + 128);
        let reserved3: [u8; 3] = [
            read_u8(bytes, at, by + 129),
            read_u8(bytes, at, by + 130),
            read_u8(bytes, at, by + 131),
        ];
        assert(reserved3@ =~= bytes_at(bytes@, at + by + 129, 3));
        let x_firmware_ctrl = read_u64(bytes, at, by + 132);
        let x_dsdt = read_u64(bytes, at, by + 140);
        let x_pm1a_evt_blk = GenericAddressStructure::decode(bytes, at, by + 148);
        let x_pm1b_evt_blk = GenericAddressStructure::decode(bytes, at, by + 160);
        let x_pm1a_cnt_blk = GenericAddressStructure::decode(bytes, at, by + 172);
        let x_pm1b_cnt_blk = GenericAddressStructure::decode(bytes, at, by + 184);
        let x_pm2_cnt_blk = GenericAddressStructure::decode(bytes, at, by + 196);
        let x_pm_tmr_blk = GenericAddressStructure::decode(bytes, at, by + 208);
        let x_gpe0_blk = GenericAddressStructure::decode(bytes, at, by + 220);
        let x_gpe1_blk = GenericAddressStructure::decode(bytes, at, by + 232);
        Facp {
            header,
            firmware_ctrl,
            dsdt,
            reserved,
            preferred_pm_profile,
            sci_int,
            smi_cmd,
            acpi_enable,
            acpi_disable,
            s4bios_req,
            pstate_cnt,
            pm1a_evt_blk,
            pm1b_evt_blk,
            pm1a_cnt_blk,
            pm1b_cnt_blk,
            pm2_cnt_blk,
            pm_tmr_blk,
            gpe0_blk,
            gpe1_blk,
            pm1_evt_len,
            pm1_cnt_len,
            pm2_cnt_len,
            pm_tmr_len,
            gpe0_blk_len,
            gpe1_blk_len,
            gpe1_base,
            cst_cnt,
            p_lvl2_lat,
            p_lvl3_lat,
            flush_size,
            flush_stride,
            duty_offset,
            duty_width,
            day_alrm,
            mon_alrm,
            century,
            iapc_boot_arch,
            reserved2,
            flags,
            reset_reg,
            reset_value,
            reserved3,
            x_firmware_ctrl,
            x_dsdt,
            x_pm1a_evt_blk,
            x_pm1b_evt_blk,
            x_pm1a_cnt_blk,
            x_pm1b_cnt_blk,
            x_pm2_cnt_blk,
            x_pm_tmr_blk,
            x_gpe0_blk,
            x_gpe1_blk,
        }
    }
}

impl Madt {
    /// Whether `self` is what the bytes of `s` from `at` on hold, read
    /// field by field in little-endian order without padding between the
    /// fields.
    pub open spec fn decoded_from(&self, s: Seq<u8>, at: int) -> bool {
        &&& self.header.decoded_from(s, at + 0)
        &&& self.local_apic_addr == le32(s, at + 36)
        &&& self.flags == le32(s, at + 40)
    }

    /// Reads the structure that starts `by` bytes behind `at` in `bytes`.
    pub fn decode(bytes: &[u8], at: u64, by: u64) -> (r: Madt)
        requires
            by + 44 <= 0x1_0000_0000,
        ensures
            r.decoded_from(bytes@, at + by),
    {
        let header = AcpiTableHeader::decode(bytes, at, by + 0);
        let local_apic_addr = read_u32(bytes, at, by + 36);
        let flags = read_u32(bytes, at, by + 40);
        Madt {
            header,
            local_apic_addr,
            flags,
        }
    }
}

impl MadtEntryHeader {
    /// Whether `self` is what the bytes of `s` from `at` on hold, read
    /// field by field in little-endian order without padding between the
    /// fields.
    pub open spec fn decoded_from(&self, s: Seq<u8>, at: int) -> bool {
        &&& self.entry_type == byte_or_zero(s, at + 0)
        &&& self.length == byte_or_zero(s, at + 1)
    }

    /// Reads the structure that starts `by` bytes behind `at` in `bytes`.
    pub fn decode(bytes: &[u8], at: u64, by: u64) -> (r: MadtEntryHeader)
        requires
            by + 2 <= 0x1_0000_0000,
        ensures
            r.decoded_from(bytes@, at + by),
    {
        let entry_type = read_u8(bytes, at, by + 0);
        let length = read_u8(bytes, at, by + 1);
        MadtEntryHeader {
            entry_type,
            length,
        }
    }
}

impl MadtLocalApicEntry {
    /// Whether `self` is what the bytes of `s` from `at` on hold, read
    /// field by field in little-endian order without padding between the
    /// fields.
    pub open spec fn decoded_from(&self, s: Seq<u8>, at: int) -> bool {
        &&& self.header.decoded_from(s, at + 0)
        &&& self.processor_id == byte_or_zero(s, at + 2)
        &&& self.apic_id == byte_or_zero(s, at + 3)
        &&& self.flags == le32(s, at + 4)
    }

    /// Reads the structure that starts `by` bytes behind `at` in `bytes`.
    pub fn decode(bytes: &[u8], at: u64, by: u64) -> (r: MadtLocalApicEntry)
        requires
            by + 8 <= 0x1_0000_0000,
        ensures
            r.decoded_from(bytes@, at + by),
    {
        let header = MadtEntryHeader::decode(bytes, at, by + 0);
        let processor_id = read_u8(bytes, at, by + 2);
        let apic_id = read_u8(bytes, at, by + 3);
        let flags = read_u32(bytes, at, by + 4);
        MadtLocalApicEntry {
            header,
            processor_id,
            apic_id,
            flags,
        }
    }
}

impl MadtIoApicEntry {
    /// Whether `self` is what the bytes of `s` from `at` on hold, read
    /// field by field in little-endian order without padding between the
    /// fields.
    pub open spec fn decoded_from(&self, s: Seq<u8>, at: int) -> bool {
        &&& self.header.decoded_from(s, at + 0)
        &&& self.io_apic_id == byte_or_zero(s, at + 2)
        &&& self.reserved == byte_or_zero(s, at + 3)
        &&& self.io_apic_addr == le32(s, at + 4)
        &&& self.global_system_interrupt_base == le32(s, at + 8)
    }

    /// Reads the structure that starts `by` bytes behind `at` in `bytes`.
    pub fn decode(bytes: &[u8], at: u64, by: u64) -> (r: MadtIoApicEntry)
        requires
            by + 12 <= 0x1_0000_0000,
        ensures
            r.decoded_from(bytes@, at + by),
    {
        let header = MadtEntryHeader::decode(bytes, at, by + 0);
        let io_apic_id = read_u8(bytes, at, by + 2);
        let reserved = read_u8(bytes, at, by + 3);
        let io_apic_addr = read_u32(bytes, at, by + 4);
        let global_system_interrupt_base = read_u32(bytes, at, by + 8);
        MadtIoApicEntry {
            header,
            io_apic_id,
            reserved,
            io_apic_addr,
            global_system_interrupt_base,
        }
    }
}

impl MadtInterruptSourceOverride {
    /// Whether `self` is what the bytes of `s` from `at` on hold, read
    /// field by field in little-endian order without padding between the
    /// fields.
    pub open spec fn decoded_from(&self, s: Seq<u8>, at: int) -> bool {
        &&& self.header.decoded_from(s, at + 0)
        &&& self.bus == byte_or_zero(s, at + 2)
        &&& self.source == byte_or_zero(s, at + 3)
        &&& self.gsi == le32(s, at + 4)
        &&& self.flags == le16(s, at + 8)
    }

    /// Reads the structure that starts `by` bytes behind `at` in `bytes`.
    pub fn decode(bytes: &[u8], at: u64, by: u64) -> (r: MadtInterruptSourceOverride)
        requires
            by + 10 <= 0x1_0000_0000,
        ensures
            r.decoded_from(bytes@, at + by),
    {
        let header = MadtEntryHeader::decode(bytes, at, by + 0);
        let bus = read_u8(bytes, at, by + 2);
        let source = read_u8(bytes, at, by + 3);
        let gsi = read_u32(bytes, at, by + 4);
        let flags = read_u16(bytes, at, by + 8);
        MadtInterruptSourceOverride {
            header,
            bus,
            source,
            gsi,
            flags,
        }
    }
}

impl Hpet {
    /// Whether `self` is what the bytes of `s` from `at` on hold, read
    /// field by field in little-endian order without padding between the
    /// fields.
    pub open spec fn decoded_from(&self, s: Seq<u8>, at: int) -> bool {
        &&& self.header.decoded_from(s, at + 0)
        &&& self.hardware_rev_id == byte_or_zero(s, at + 36)
        &&& self.comparator_count == byte_or_zero(s, at + 37)
        &&& self.counter_size == byte_or_zero(s, at + 38)
        &&& self.reserved == byte_or_zero(s, at + 39)
        &&& self.legacy_replacement == byte_or_zero(s, at + 40)
        &&& self.pci_vendor_id == le16(s, at + 41)
        &&& self.hpet_number == byte_or_zero(s, at + 43)
        &&& self.minimum_tick == le16(s, at + 44)
        &&& self.page_protection == byte_or_zero(s, at + 46)
        &&& self.address.decoded_from(s, at + 47)
        &&& self.hpet_block_id == le32(s, at + 59)
        &&& self.period == le32(s, at + 63)
    }

    /// Reads the structure that starts `by` bytes behind `at` in `bytes`.
    pub fn decode(bytes: &[u8], at: u64, by: u64) -> (r: Hpet)
        requires
            by + 67 <= 0x1_0000_0000,
        ensures
            r.decoded_from(bytes@, at + by),
    {
        let header = AcpiTableHeader::decode(bytes, at, by + 0);
        let hardware_rev_id = read_u8(bytes, at, by + 36);
        let comparator_count = read_u8(bytes, at, by + 37);
        let counter_size = read_u8(bytes, at, by + 38);
        let reserved = read_u8(bytes, at, by + 39);
        let legacy_replacement = read_u8(bytes, at, by + 40);
        let pci_vendor_id = read_u16(bytes, at, by + 41);
        let hpet_number = read_u8(bytes, at, by + 43);
        let minimum_tick = read_u16(bytes, at, by + 44);
        let page_protection = read_u8(bytes, at, by + 46);
        let address = GenericAddressStructure::decode(bytes, at, by + 47);
        let hpet_block_id = read_u32(bytes, at, by + 59);
        let period = read_u32(bytes, at, by + 63);
        Hpet {
            header,
            hardware_rev_id,
            comparator_count,
            counter_size,
            reserved,
            legacy_replacement,
            pci_vendor_id,
            hpet_number,
            minimum_tick,
            page_protection,
            address,
            hpet_block_id,
            period,
        }
    }
}

impl Mcfg {
    /// Whether `self` is what the bytes of `s` from `at` on hold, read
    /// field by field in little-endian order without padding between the
    /// fields.
    pub open spec fn decoded_from(&self, s: Seq<u8>, at: int) -> bool {
        &&& self.header.decoded_from(s, at + 0)
        &&& self.reserved@ == bytes_at(s, at + 36, 8)
    }

    /// Reads the structure that starts `by` bytes behind `at` in `bytes`.
    pub fn decode(bytes: &[u8], at: u64, by: u64) -> (r: Mcfg)
        requires
            by + 44 <= 0x1_0000_0000,
        ensures
            r.decoded_from(bytes@, at + by),
    {
        let header = AcpiTableHeader::decode(bytes, at, by + 0);
        let reserved: [u8; 8] = [
            read_u8(bytes, at, by + 36),
            read_u8(bytes, at, by + 37),
            read_u8(bytes, at, by + 38),
            read_u8(bytes, at, by + 39),
            read_u8(bytes, at, by + 40),
            read_u8(bytes, at, by + 41),
            read_u8(bytes, at, by + 42),
            read_u8(bytes, at, by + 43),
        ];
        assert(reserved@ =~= bytes_at(bytes@, at + by + 36, 8));
        Mcfg {
            header,
            reserved,
        }
    }
}

impl McfgAllocation {
    /// Whether `self` is what the bytes of `s` from `at` on hold, read
    /// field by field in little-endian order without padding between the
    /// fields.
    pub open spec fn decoded_from(&self, s: Seq<u8>, at: int) -> bool {
        &&& self.base_address == le64(s, at + 0)
        &&& self.pci_segment_group == le16(s, at + 8)
        &&& self.start_bus == byte_or_zero(s, at + 10)
        &&& self.end_bus == byte_or_zero(s, at + 11)
        &&& self.reserved@ == bytes_at(s, at + 12, 4)
    }

    /// Reads the structure that starts `by` bytes behind `at` in `bytes`.
    pub fn decode(bytes: &[u8], at: u64, by: u64) -> (r: McfgAllocation)
        requires
            by + 16 <= 0x1_0000_0000,
        ensures
            r.decoded_from(bytes@, at + by),
    {
        let base_address = read_u64(bytes, at, by + 0);
        let pci_segment_group = read_u16(bytes, at, by + 8);
        let start_bus = read_u8(bytes, at, by + 10);
        let end_bus = read_u8(bytes, at, by + 11);
        let reserved: [u8; 4] = [
            read_u8(bytes, at, by + 12),
            read_u8(bytes, at, by + 13),
            read_u8(bytes, at, by + 14),
            read_u8(bytes, at, by + 15),
        ];
        assert(reserved@ =~= bytes_at(bytes@, at + by + 12, 4));
        McfgAllocation {
            base_address,
            pci_segment_group,
            start_bus,
            end_bus,
            reserved,
        }
    }
}

/// Where the first window that is searched for the root pointer starts.
pub const EBDA_START: u64 = 0x9FC00;

/// Where the first window that is searched for the root pointer ends.
pub const EBDA_END: u64 = 0xA0000;

/// Where the second window that is searched for the root pointer starts.
pub const BIOS_START: u64 = 0xE0000;

/// Where the second window that is searched for the root pointer ends.
pub const BIOS_END: u64 = 0x100000;

/// The signature of the root pointer: "RSD PTR ".
pub open spec fn rsdp_signature() -> Seq<u8> {
    seq![0x52u8, 0x53u8, 0x44u8, 0x20u8, 0x50u8, 0x54u8, 0x52u8, 0x20u8]
}

/// Whether a root pointer lies at `at` in `memory`: the signature is
/// there, and the first twenty bytes sum to zero modulo 256.
pub open spec fn rsdp_found_at(memory: Seq<u8>, at: int) -> bool {
    bytes_at(memory, at, 8) == rsdp_signature() && crate::bytes::byte_sum(
        bytes_at(memory, at, 20),
    ) % 256 == 0
}

/// Where the first root pointer lies among the places `at`, `at + 16`, ...
/// below `span`.
pub open spec fn first_rsdp_from(memory: Seq<u8>, at: int, span: int) -> Option<int>
    decreases span + 16 - at,
{
    if at < 0 || at >= span {
        None
    } else if rsdp_found_at(memory, at) {
        Some(at)
    } else {
        first_rsdp_from(memory, at + 16, span)
    }
}

impl Rsdp {
    /// The twenty bytes that the checksum of the root pointer covers, as
    /// they lie in memory.
    pub open spec fn checked_bytes(&self) -> Seq<u8> {
        self.signature@ + seq![self.checksum] + self.oem_id@ + seq![self.revision] + le_bytes32(
            self.rsdt_address,
        )
    }

    /// Whether the signature is that of a root pointer.
    pub fn is_valid(&self) -> (ok: bool)
        ensures
            ok == (self.signature@ == rsdp_signature()),
    {
        let ok = self.signature[0] == 0x52 && self.signature[1] == 0x53 && self.signature[2]
            == 0x44 && self.signature[3] == 0x20 && self.signature[4] == 0x50
            && self.signature[5] == 0x54 && self.signature[6] == 0x52 && self.signature[7]
            == 0x20;
        proof {
            if ok {
                assert(self.signature@ =~= rsdp_signature());
            }
        }
        ok
    }

    /// Whether the first twenty bytes of the root pointer sum to zero
    /// modulo 256.
    pub fn checksum_valid(&self) -> (ok: bool)
        ensures
            ok == (crate::bytes::byte_sum(self.checked_bytes()) % 256 == 0),
    {
        let a = self.rsdt_address;
        let bytes: [u8; 20] = [
            self.signature[0],
            self.signature[1],
            self.signature[2],
            self.signature[3],
            self.signature[4],
            self.signature[5],
            self.signature[6],
            self.signature[7],
            self.checksum,
            self.oem_id[0],
            self.oem_id[1],
            self.oem_id[2],
            self.oem_id[3],
            self.oem_id[4],
            self.oem_id[5],
            self.revision,
            (a % 0x100) as u8,
            (a / 0x100 % 0x100) as u8,
            (a / 0x1_0000 % 0x100) as u8,
            (a / 0x100_0000) as u8,
        ];
        proof {
            assert(bytes@ =~= self.checked_bytes());
            assert(bytes@.take(20) =~= bytes@);
        }
        checksum(bytes.as_slice(), 20)
    }

    /// The address of the root table: the 64-bit one from revision 2 on,
    /// the 32-bit one before.
    pub fn table_address(&self) -> (addr: u64)
        ensures
            addr == if self.revision >= 2 {
                self.xsdt_address
            } else {
                self.rsdt_address as u64
            },
    {
        if self.revision >= 2 {
            self.xsdt_address
        } else {
            self.rsdt_address as u64
        }
    }
}

/// The bytes that the checksum of a root pointer covers are the first
/// twenty of the bytes it was read from.
pub proof fn lemma_rsdp_checked_bytes(r: Rsdp, s: Seq<u8>, at: int)
    requires
        r.decoded_from(s, at),
    ensures
        r.checked_bytes() == bytes_at(s, at, 20),
{
    lemma_le_bytes32(s, at + 16);
    let head = r.signature@ + seq![r.checksum] + r.oem_id@ + seq![r.revision];
    assert(head =~= bytes_at(s, at, 16));
    assert(bytes_at(s, at, 16) + bytes_at(s, at + 16, 4) =~= bytes_at(s, at, 20));
}

/// Searches `memory` for a root pointer at the places 0, 16, 32, ... below
/// `span` and returns the first found. `memory` holds the bytes of the
/// window searched and, for the last places to count, the bytes behind it
/// that a root pointer there would reach into.
pub fn search_rsdp_in_range(memory: &[u8], span: u64) -> (found: Option<Rsdp>)
    requires
        span <= 0x1_0000_0000,
    ensures
        match first_rsdp_from(memory@, 0, span as int) {
            Some(at) => found is Some && found->Some_0.decoded_from(memory@, at),
            None => found is None,
        },
{
    let mut at: u64 = 0;
    while at < span
        invariant
            span <= 0x1_0000_0000,
            at <= span + 16,
            first_rsdp_from(memory@, at as int, span as int) == first_rsdp_from(
                memory@,
                0,
                span as int,
            ),
        decreases span + 16 - at,
    {
        let candidate = Rsdp::decode(memory, at, 0);
        proof {
            lemma_rsdp_checked_bytes(candidate, memory@, at as int);
        }
        if candidate.is_valid() && candidate.checksum_valid() {
            return Some(candidate);
        }
        at = at + 16;
    }
    None
}

/// Finds the root pointer: first in the window from [`EBDA_START`] to
/// [`EBDA_END`], then in the window from [`BIOS_START`] to [`BIOS_END`].
/// `ebda` and `bios` hold the bytes of the two windows, each followed by
/// the twenty bytes behind it.
pub fn find_rsdp(ebda: &[u8], bios: &[u8]) -> (found: Option<Rsdp>)
    ensures
        match first_rsdp_from(ebda@, 0, EBDA_END - EBDA_START) {
            Some(at) => found is Some && found->Some_0.decoded_from(ebda@, at),
            None => match first_rsdp_from(bios@, 0, BIOS_END - BIOS_START) {
                Some(at) => found is Some && found->Some_0.decoded_from(bios@, at),
                None => found is None,
            },
        },
{
    match search_rsdp_in_range(ebda, EBDA_END - EBDA_START) {
        Some(rsdp) => Some(rsdp),
        None => search_rsdp_in_range(bios, BIOS_END - BIOS_START),
    }
}

/// The four bytes `a`, `b`, `c`, `d` as a table signature.
pub open spec fn signature_of(a: u8, b: u8, c: u8, d: u8) -> Seq<u8> {
    seq![a, b, c, d]
}

/// "RSDT".
pub open spec fn rsdt_signature() -> Seq<u8> {
    signature_of(0x52, 0x53, 0x44, 0x54)
}

/// "XSDT".
pub open spec fn xsdt_signature() -> Seq<u8> {
    signature_of(0x58, 0x53, 0x44, 0x54)
}

/// "FACP".
pub open spec fn facp_signature() -> Seq<u8> {
    signature_of(0x46, 0x41, 0x43, 0x50)
}

/// "APIC".
pub open spec fn madt_signature() -> Seq<u8> {
    signature_of(0x41, 0x50, 0x49, 0x43)
}

/// "HPET".
pub open spec fn hpet_signature() -> Seq<u8> {
    signature_of(0x48, 0x50, 0x45, 0x54)
}

/// "MCFG".
pub open spec fn mcfg_signature() -> Seq<u8> {
    signature_of(0x4D, 0x43, 0x46, 0x47)
}

/// Whether `signature` is the four bytes `a`, `b`, `c`, `d`.
pub fn signature_is(signature: &[u8; 4], a: u8, b: u8, c: u8, d: u8) -> (same: bool)
    ensures
        same == (signature@ == signature_of(a, b, c, d)),
{
    let same = signature[0] == a && signature[1] == b && signature[2] == c && signature[3] == d;
    proof {
        if same {
            assert(signature@ =~= signature_of(a, b, c, d));
        }
    }
    same
}

/// How many addresses follow the header in a root table of `length` bytes
/// whose entries take `width` bytes each.
pub open spec fn root_entry_count(length: u32, width: int) -> int {
    if length < ACPI_TABLE_HEADER_SIZE {
        0
    } else {
        (length - ACPI_TABLE_HEADER_SIZE) / width
    }
}

impl AcpiTableHeader {
    /// Whether `table` holds all the bytes that the header declares, and
    /// they sum to zero modulo 256. `table` holds the bytes of the table
    /// from its header on.
    pub fn checksum_valid(&self, table: &[u8]) -> (ok: bool)
        ensures
            ok == checksum_ok(table@, self.length as int),
    {
        checksum(table, self.length as usize)
    }

    /// The signature as text, or "INVALID" where its bytes are not valid
    /// UTF-8.
    pub fn signature_str(&self) -> (text: &str)
        ensures
            text@ == if valid_utf8(self.signature@) {
                decode_utf8(self.signature@)
            } else {
                "INVALID"@
            },
    {
        match crate::text::utf8_text(self.signature.as_slice()) {
            Some(text) => text,
            None => "INVALID",
        }
    }
}

impl Rsdt {
    /// How many addresses follow the header.
    pub fn entry_count(&self) -> (count: usize)
        ensures
            count == root_entry_count(self.header.length, 4),
    {
        if self.header.length < 36 {
            0
        } else {
            ((self.header.length - 36) / 4) as usize
        }
    }

    /// The address number `index` behind the header, read from the bytes
    /// of the table; `None` where the table has no such entry.
    pub fn table_address(&self, table: &[u8], index: usize) -> (addr: Option<u32>)
        ensures
            addr == if index < root_entry_count(self.header.length, 4) {
                Some(le32(table@, ACPI_TABLE_HEADER_SIZE + 4 * index))
            } else {
                None
            },
    {
        if index >= self.entry_count() {
            return None;
        }
        Some(read_u32(table, 36, 4 * (index as u64)))
    }
}

impl Xsdt {
    /// How many addresses follow the header.
    pub fn entry_count(&self) -> (count: usize)
        ensures
            count == root_entry_count(self.header.length, 8),
    {
        if self.header.length < 36 {
            0
        } else {
            ((self.header.length - 36) / 8) as usize
        }
    }

    /// The address number `index` behind the header, read from the bytes
    /// of the table; `None` where the table has no such entry.
    pub fn table_address(&self, table: &[u8], index: usize) -> (addr: Option<u64>)
        ensures
            addr == if index < root_entry_count(self.header.length, 8) {
                Some(le64(table@, ACPI_TABLE_HEADER_SIZE + 8 * index))
            } else {
                None
            },
    {
        if index >= self.entry_count() {
            return None;
        }
        Some(read_u64(table, 36, 8 * (index as u64)))
    }
}

/// The addresses of the tables that the root table `root` lists, in order.
/// A root table whose checksum fails lists nothing, nor does one that is
/// neither an "RSDT", whose entries are 32-bit addresses, nor an "XSDT",
/// whose entries are 64-bit addresses.
pub open spec fn root_entries(root: Seq<u8>) -> Seq<u64> {
    let length = le32(root, 4);
    if !checksum_ok(root, length as int) {
        Seq::empty()
    } else if bytes_at(root, 0, 4) == rsdt_signature() {
        Seq::new(
            root_entry_count(length, 4) as nat,
            |i: int| le32(root, ACPI_TABLE_HEADER_SIZE + 4 * i) as u64,
        )
    } else if bytes_at(root, 0, 4) == xsdt_signature() {
        Seq::new(
            root_entry_count(length, 8) as nat,
            |i: int| le64(root, ACPI_TABLE_HEADER_SIZE + 8 * i),
        )
    } else {
        Seq::empty()
    }
}

/// The physical addresses of the tables that the root table lists, in
/// order. `root` holds the bytes of the root table from its header on.
pub fn parse_rsdt_xsdt(root: &[u8]) -> (addrs: Vec<u64>)
    ensures
        addrs@ == root_entries(root@),
{
    let mut addrs: Vec<u64> = Vec::new();
    let header = AcpiTableHeader::decode(root, 0, 0);
    if !header.checksum_valid(root) {
        return addrs;
    }
    if signature_is(&header.signature, 0x52, 0x53, 0x44, 0x54) {
        let rsdt = Rsdt { header };
        let count = rsdt.entry_count();
        let mut i: usize = 0;
        while i < count
            invariant
                i <= count,
                count == root_entry_count(header.length, 4),
                rsdt.header == header,
                addrs@ == Seq::new(
                    i as nat,
                    |k: int| le32(root@, ACPI_TABLE_HEADER_SIZE + 4 * k) as u64,
                ),
            decreases count - i,
        {
            match rsdt.table_address(root, i) {
                Some(addr) => {
                    addrs.push(addr as u64);
                },
                None => {},
            }
            i += 1;
            assert(addrs@ =~= Seq::new(
                i as nat,
                |k: int| le32(root@, ACPI_TABLE_HEADER_SIZE + 4 * k) as u64,
            ));
        }
    } else if signature_is(&header.signature, 0x58, 0x53, 0x44, 0x54) {
        let xsdt = Xsdt { header };
        let count = xsdt.entry_count();
        let mut i: usize = 0;
        while i < count
            invariant
                i <= count,
                count == root_entry_count(header.length, 8),
                xsdt.header == header,
                addrs@ == Seq::new(i as nat, |k: int| le64(root@, ACPI_TABLE_HEADER_SIZE + 8 * k)),
            decreases count - i,
        {
            match xsdt.table_address(root, i) {
                Some(addr) => {
                    addrs.push(addr);
                },
                None => {},
            }
            i += 1;
            assert(addrs@ =~= Seq::new(
                i as nat,
                |k: int| le64(root@, ACPI_TABLE_HEADER_SIZE + 8 * k),
            ));
        }
    }
    addrs
}

/// The kinds of entries that the interrupt controller table can hold, by
/// their type codes 0 to 15.
#[derive(Debug, Clone, Copy, PartialEq, Eq, Structural)]
pub enum MadtEntryType {
    LocalApic,
    IoApic,
    InterruptSourceOverride,
    NmiSource,
    LocalApicNmi,
    LocalApicAddressOverride,
    IoSapic,
    LocalSapic,
    PlatformInterruptSources,
    LocalX2Apic,
    LocalX2ApicNmi,
    GicCpuInterface,
    GicDistributor,
    GicMsiFrame,
    GicRedistributor,
    GicInterruptTranslationService,
}

impl MadtEntryType {
    /// The type code of the kind.
    pub open spec fn spec_code(self) -> u8 {
        match self {
            MadtEntryType::LocalApic => 0,
            MadtEntryType::IoApic => 1,
            MadtEntryType::InterruptSourceOverride => 2,
            MadtEntryType::NmiSource => 3,
            MadtEntryType::LocalApicNmi => 4,
            MadtEntryType::LocalApicAddressOverride => 5,
            MadtEntryType::IoSapic => 6,
            MadtEntryType::LocalSapic => 7,
            MadtEntryType::PlatformInterruptSources => 8,
            MadtEntryType::LocalX2Apic => 9,
            MadtEntryType::LocalX2ApicNmi => 10,
            MadtEntryType::GicCpuInterface => 11,
            MadtEntryType::GicDistributor => 12,
            MadtEntryType::GicMsiFrame => 13,
            MadtEntryType::GicRedistributor => 14,
            MadtEntryType::GicInterruptTranslationService => 15,
        }
    }

    /// The type code of the kind.
    #[verifier::when_used_as_spec(spec_code)]
    pub fn code(self) -> (c: u8)
        ensures
            c == self.spec_code(),
    {
        match self {
            MadtEntryType::LocalApic => 0,
            MadtEntryType::IoApic => 1,
            MadtEntryType::InterruptSourceOverride => 2,
            MadtEntryType::NmiSource => 3,
            MadtEntryType::LocalApicNmi => 4,
            MadtEntryType::LocalApicAddressOverride => 5,
            MadtEntryType::IoSapic => 6,
            MadtEntryType::LocalSapic => 7,
            MadtEntryType::PlatformInterruptSources => 8,
            MadtEntryType::LocalX2Apic => 9,
            MadtEntryType::LocalX2ApicNmi => 10,
            MadtEntryType::GicCpuInterface => 11,
            MadtEntryType::GicDistributor => 12,
            MadtEntryType::GicMsiFrame => 13,
            MadtEntryType::GicRedistributor => 14,
            MadtEntryType::GicInterruptTranslationService => 15,
        }
    }

    /// The kind with type code `code`, if there is one.
    pub fn from_code(code: u8) -> (kind: Option<MadtEntryType>)
        ensures
            code <= 15 ==> kind is Some && kind->Some_0.spec_code() == code,
            code > 15 ==> kind is None,
    {
        match code {
            0 => Some(MadtEntryType::LocalApic),
            1 => Some(MadtEntryType::IoApic),
            2 => Some(MadtEntryType::InterruptSourceOverride),
            3 => Some(MadtEntryType::NmiSource),
            4 => Some(MadtEntryType::LocalApicNmi),
            5 => Some(MadtEntryType::LocalApicAddressOverride),
            6 => Some(MadtEntryType::IoSapic),
            7 => Some(MadtEntryType::LocalSapic),
            8 => Some(MadtEntryType::PlatformInterruptSources),
            9 => Some(MadtEntryType::LocalX2Apic),
            10 => Some(MadtEntryType::LocalX2ApicNmi),
            11 => Some(MadtEntryType::GicCpuInterface),
            12 => Some(MadtEntryType::GicDistributor),
            13 => Some(MadtEntryType::GicMsiFrame),
            14 => Some(MadtEntryType::GicRedistributor),
            15 => Some(MadtEntryType::GicInterruptTranslationService),
            _ => None,
        }
    }
}

/// An I/O interrupt controller as the firmware describes it.
#[derive(Debug, Clone, Copy, PartialEq, Eq, Structural)]
pub struct IoApicInfo {
    pub id: u8,
    pub addr: u32,
    pub gsi_base: u32,
}

/// An interrupt source override as the firmware describes it: the legacy
/// line `source` arrives as the global interrupt `gsi`.
#[derive(Debug, Clone, Copy, PartialEq, Eq, Structural)]
pub struct IsoInfo {
    pub bus: u8,
    pub source: u8,
    pub gsi: u32,
    pub flags: u16,
}

/// What the firmware tables said about the machine.
pub struct HardwareCatalog {
    /// The physical address of the local interrupt controller; zero while
    /// it is not known.
    pub local_apic_addr: u64,
    pub ioapics: Vec<IoApicInfo>,
    pub isos: Vec<IsoInfo>,
    /// The physical address of the event timer, once found.
    pub hpet_base: Option<u64>,
    /// The period of the event timer in femtoseconds; zero while it is not
    /// known.
    pub hpet_period_fs: u64,
    pub mcfg_allocs: Vec<McfgAllocation>,
}

impl HardwareCatalog {
    /// A catalog that knows nothing yet.
    pub fn new() -> (catalog: HardwareCatalog)
        ensures
            catalog.local_apic_addr == 0,
            catalog.ioapics@.len() == 0,
            catalog.isos@.len() == 0,
            catalog.hpet_base is None,
            catalog.hpet_period_fs == 0,
            catalog.mcfg_allocs@.len() == 0,
    {
        HardwareCatalog {
            local_apic_addr: 0,
            ioapics: Vec::new(),
            isos: Vec::new(),
            hpet_base: None,
            hpet_period_fs: 0,
            mcfg_allocs: Vec::new(),
        }
    }
}

/// The physical address of the local interrupt controller, once the
/// interrupt controller table gave one that is not zero.
pub fn get_local_apic_address(catalog: &HardwareCatalog) -> (addr: Option<u32>)
    ensures
        addr == if catalog.local_apic_addr == 0 {
            None
        } else {
            Some(catalog.local_apic_addr as u32)
        },
{
    if catalog.local_apic_addr == 0 {
        None
    } else {
        Some(catalog.local_apic_addr as u32)
    }
}

/// The physical address of the event timer, once found.
pub fn get_hpet_address(catalog: &HardwareCatalog) -> (addr: Option<u64>)
    ensures
        addr == catalog.hpet_base,
{
    catalog.hpet_base
}

/// The period of the event timer in femtoseconds, or zero while it is not
/// known.
pub fn get_hpet_period_fs(catalog: &HardwareCatalog) -> (period: u64)
    ensures
        period == catalog.hpet_period_fs,
{
    catalog.hpet_period_fs
}

/// A copy of the list of I/O interrupt controllers, in table order.
pub fn get_ioapics(catalog: &HardwareCatalog) -> (list: Vec<IoApicInfo>)
    ensures
        list@ == catalog.ioapics@,
{
    catalog.ioapics.clone()
}

/// A copy of the list of interrupt source overrides, in table order.
pub fn get_isos(catalog: &HardwareCatalog) -> (list: Vec<IsoInfo>)
    ensures
        list@ == catalog.isos@,
{
    catalog.isos.clone()
}

/// A copy of the list of memory-mapped configuration windows, in table
/// order.
pub fn get_mcfg_allocs(catalog: &HardwareCatalog) -> (list: Vec<McfgAllocation>)
    ensures
        list@ == catalog.mcfg_allocs@,
{
    catalog.mcfg_allocs.clone()
}

/// What an entry of the interrupt controller table contributes.
#[derive(Debug, Clone, Copy, PartialEq, Eq, Structural)]
pub enum MadtRecord {
    IoApic(IoApicInfo),
    Override(IsoInfo),
}

/// The records of the entries of an interrupt controller table of `length`
/// bytes, from the entry at `offset` on. Each entry starts with its type
/// and its length. An I/O interrupt controller (type 1, at least 12 bytes)
/// and an interrupt source override (type 2, at least 10 bytes) give a
/// record; any other entry is skipped by its length. An entry of length
/// zero ends the walk.
pub open spec fn madt_records_from(table: Seq<u8>, length: int, offset: int) -> Seq<MadtRecord>
    decreases length + 256 - offset,
{
    if offset < 0 || offset >= length {
        Seq::empty()
    } else {
        let entry_type = byte_or_zero(table, offset);
        let entry_len = byte_or_zero(table, offset + 1);
        if entry_len == 0 {
            Seq::empty()
        } else {
            let rest = madt_records_from(table, length, offset + entry_len);
            if entry_type == 1 && entry_len >= MADT_IO_APIC_ENTRY_SIZE {
                seq![
                    MadtRecord::IoApic(
                        IoApicInfo {
                            id: byte_or_zero(table, offset + 2),
                            addr: le32(table, offset + 4),
                            gsi_base: le32(table, offset + 8),
                        },
                    ),
                ] + rest
            } else if entry_type == 2 && entry_len >= MADT_INTERRUPT_SOURCE_OVERRIDE_SIZE {
                seq![
                    MadtRecord::Override(
                        IsoInfo {
                            bus: byte_or_zero(table, offset + 2),
                            source: byte_or_zero(table, offset + 3),
                            gsi: le32(table, offset + 4),
                            flags: le16(table, offset + 8),
                        },
                    ),
                ] + rest
            } else {
                rest
            }
        }
    }
}

/// Whether the checksum of `table` holds over the length that its header
/// declares.
pub open spec fn table_valid(table: Seq<u8>) -> bool {
    checksum_ok(table, le32(table, 4) as int)
}

/// The records of the interrupt controller table `table`; none where its
/// checksum fails.
pub open spec fn madt_records_of(table: Seq<u8>) -> Seq<MadtRecord> {
    if table_valid(table) {
        madt_records_from(table, le32(table, 4) as int, MADT_SIZE as int)
    } else {
        Seq::empty()
    }
}

/// The I/O interrupt controllers among `records`, in order.
pub open spec fn ioapics_of(records: Seq<MadtRecord>) -> Seq<IoApicInfo>
    decreases records.len(),
{
    if records.len() == 0 {
        Seq::empty()
    } else {
        match records.last() {
            MadtRecord::IoApic(info) => ioapics_of(records.drop_last()).push(info),
            MadtRecord::Override(_) => ioapics_of(records.drop_last()),
        }
    }
}

/// The interrupt source overrides among `records`, in order.
pub open spec fn overrides_of(records: Seq<MadtRecord>) -> Seq<IsoInfo>
    decreases records.len(),
{
    if records.len() == 0 {
        Seq::empty()
    } else {
        match records.last() {
            MadtRecord::Override(info) => overrides_of(records.drop_last()).push(info),
            MadtRecord::IoApic(_) => overrides_of(records.drop_last()),
        }
    }
}

/// What is registered for an I/O interrupt controller.
pub open spec fn ioapic_device_info(info: IoApicInfo) -> DeviceInfoView {
    DeviceInfoView {
        vendor_id: 0xffff,
        device_id: info.id as u16,
        class: 0x08,
        subclass: 0,
        prog_if: 0,
        resources: seq![
            Resource { kind: ResourceKind::MemoryMapped, addr: info.addr as u64, len: 0x100 },
        ],
        capabilities: Seq::empty(),
        description: "ACPI IOAPIC id="@ + decimal_digits(info.id as nat) + " gsi_base="@
            + decimal_digits(info.gsi_base as nat),
    }
}

/// What is registered for the I/O interrupt controllers among `records`,
/// in order.
pub open spec fn ioapic_devices(records: Seq<MadtRecord>) -> Seq<DeviceInfoView>
    decreases records.len(),
{
    if records.len() == 0 {
        Seq::empty()
    } else {
        match records.last() {
            MadtRecord::IoApic(info) => ioapic_devices(records.drop_last()).push(
                ioapic_device_info(info),
            ),
            MadtRecord::Override(_) => ioapic_devices(records.drop_last()),
        }
    }
}

/// The records of the entries of the interrupt controller table `table`,
/// in table order, whatever its checksum.
pub fn madt_records(table: &[u8]) -> (records: Vec<MadtRecord>)
    ensures
        records@ == madt_records_from(table@, le32(table@, 4) as int, MADT_SIZE as int),
{
    let length: u64 = read_u32(table, 0, 4) as u64;
    let mut records: Vec<MadtRecord> = Vec::new();
    let mut offset: u64 = MADT_SIZE;
    while offset < length
        invariant
            length == le32(table@, 4),
            MADT_SIZE <= offset <= length + 255,
            records@ + madt_records_from(table@, length as int, offset as int)
                == madt_records_from(table@, length as int, MADT_SIZE as int),
        decreases length + 256 - offset,
    {
        let header = MadtEntryHeader::decode(table, offset, 0);
        if header.length == 0 {
            assert(madt_records_from(table@, length as int, offset as int)
                =~= Seq::<MadtRecord>::empty());
            assert(records@ + Seq::<MadtRecord>::empty() =~= records@);
            return records;
        }
        let ghost rest = madt_records_from(
            table@,
            length as int,
            offset as int + header.length as int,
        );
        if header.entry_type == 1 && header.length as u64 >= MADT_IO_APIC_ENTRY_SIZE {
            let entry = MadtIoApicEntry::decode(table, offset, 0);
            let record = MadtRecord::IoApic(
                IoApicInfo {
                    id: entry.io_apic_id,
                    addr: entry.io_apic_addr,
                    gsi_base: entry.global_system_interrupt_base,
                },
            );
            proof {
                assert(records@.push(record) + rest =~= records@ + (seq![record] + rest));
            }
            records.push(record);
        } else if header.entry_type == 2 && header.length as u64
            >= MADT_INTERRUPT_SOURCE_OVERRIDE_SIZE {
            let entry = MadtInterruptSourceOverride::decode(table, offset, 0);
            let record = MadtRecord::Override(
                IsoInfo { bus: entry.bus, source: entry.source, gsi: entry.gsi, flags: entry.flags },
            );
            proof {
                assert(records@.push(record) + rest =~= records@ + (seq![record] + rest));
            }
            records.push(record);
        }
        offset = offset + header.length as u64;
    }
    assert(records@ + Seq::<MadtRecord>::empty() =~= records@);
    records
}

/// Whether `after` is `before` in everything but what the interrupt
/// controller table sets.
pub open spec fn same_timer_and_windows(before: HardwareCatalog, after: HardwareCatalog) -> bool {
    &&& after.hpet_base == before.hpet_base
    &&& after.hpet_period_fs == before.hpet_period_fs
    &&& after.mcfg_allocs@ == before.mcfg_allocs@
}

/// Whether `after` is `before` in what the interrupt controller table
/// sets.
pub open spec fn same_interrupt_controllers(
    before: HardwareCatalog,
    after: HardwareCatalog,
) -> bool {
    &&& after.local_apic_addr == before.local_apic_addr
    &&& after.ioapics@ == before.ioapics@
    &&& after.isos@ == before.isos@
}

/// Whether the catalog went from `before` to `after` by taking in the
/// interrupt controller table `table`. A table whose checksum fails
/// changes nothing. Otherwise the address of the local interrupt
/// controller is the dword behind the header, and the I/O interrupt
/// controllers and interrupt source overrides of the table are added
/// behind those already known.
pub open spec fn catalog_after_madt(
    before: HardwareCatalog,
    after: HardwareCatalog,
    table: Seq<u8>,
) -> bool {
    &&& same_timer_and_windows(before, after)
    &&& if table_valid(table) {
        &&& after.local_apic_addr == le32(table, 36) as u64
        &&& after.ioapics@ == before.ioapics@ + ioapics_of(madt_records_of(table))
        &&& after.isos@ == before.isos@ + overrides_of(madt_records_of(table))
    } else {
        same_interrupt_controllers(before, after)
    }
}

/// Takes in the interrupt controller table: `table` holds its bytes from
/// the header on. Each I/O interrupt controller found is also registered
/// as a device.
pub fn parse_madt(catalog: &mut HardwareCatalog, manager: &mut DeviceManager, table: &[u8])
    requires
        old(manager).wf(),
    ensures
        final(manager).wf(),
        catalog_after_madt(*old(catalog), *final(catalog), table@),
        crate::driver_framework::manager::registered_all(
            old(manager).devices@,
            final(manager).devices@,
            ioapic_devices(madt_records_of(table@)),
        ),
{
    let madt = Madt::decode(table, 0, 0);
    if !madt.header.checksum_valid(table) {
        proof {
            crate::driver_framework::manager::lemma_registered_none(manager.devices@);
        }
        return ;
    }
    catalog.local_apic_addr = madt.local_apic_addr as u64;
    let records = madt_records(table);
    let mut i: usize = 0;
    proof {
        crate::driver_framework::manager::lemma_registered_none(manager.devices@);
    }
    while i < records.len()
        invariant
            i <= records.len(),
            manager.wf(),
            same_timer_and_windows(*old(catalog), *catalog),
            catalog.local_apic_addr == le32(table@, 36) as u64,
            catalog.ioapics@ == old(catalog).ioapics@ + ioapics_of(records@.take(i as int)),
            catalog.isos@ == old(catalog).isos@ + overrides_of(records@.take(i as int)),
            crate::driver_framework::manager::registered_all(
                old(manager).devices@,
                manager.devices@,
                ioapic_devices(records@.take(i as int)),
            ),
        decreases records.len() - i,
    {
        proof {
            assert(records@.take(i as int + 1).drop_last() =~= records@.take(i as int));
        }
        let ghost known = ioapics_of(records@.take(i as int));
        let ghost overrides = overrides_of(records@.take(i as int));
        let ghost devices = ioapic_devices(records@.take(i as int));
        match records[i] {
            MadtRecord::IoApic(info) => {
                catalog.ioapics.push(info);
                let ghost between = manager.devices@;
                let device = ioapic_device(info);
                manager.register_device(device);
                proof {
                    assert(old(catalog).ioapics@ + known.push(info) =~= (old(catalog).ioapics@
                        + known).push(info));
                    crate::driver_framework::manager::lemma_registered_all_chain(
                        old(manager).devices@,
                        between,
                        manager.devices@,
                        devices,
                        seq![ioapic_device_info(info)],
                    );
                    assert(devices + seq![ioapic_device_info(info)] =~= devices.push(
                        ioapic_device_info(info),
                    ));
                }
            },
            MadtRecord::Override(info) => {
                catalog.isos.push(info);
                proof {
                    assert(old(catalog).isos@ + overrides.push(info) =~= (old(catalog).isos@
                        + overrides).push(info));
                }
            },
        }
        i += 1;
    }
    assert(records@.take(i as int) =~= records@);
}

/// What is registered for an I/O interrupt controller.
pub fn ioapic_device(info: IoApicInfo) -> (device: DeviceInfo)
    ensures
        device@ == ioapic_device_info(info),
{
    let mut resources: Vec<Resource> = Vec::new();
    resources.push(Resource { kind: ResourceKind::MemoryMapped, addr: info.addr as u64, len: 0x100 });
    let mut description = String::from_str("ACPI IOAPIC id=");
    push_decimal(&mut description, info.id as u64);
    description.append(" gsi_base=");
    push_decimal(&mut description, info.gsi_base as u64);
    let device = DeviceInfo {
        vendor_id: 0xffff,
        device_id: info.id as u16,
        class: 0x08,
        subclass: 0,
        prog_if: 0,
        resources,
        capabilities: Vec::new(),
        description,
    };
    assert(device@.resources =~= ioapic_device_info(info).resources);
    assert(device@.capabilities =~= ioapic_device_info(info).capabilities);
    device
}

/// Whether `after` is `before` in what the event timer table sets.
pub open spec fn same_timer(before: HardwareCatalog, after: HardwareCatalog) -> bool {
    &&& after.hpet_base == before.hpet_base
    &&& after.hpet_period_fs == before.hpet_period_fs
}

/// Whether the catalog `after` holds what `before` holds.
pub open spec fn same_catalog(before: HardwareCatalog, after: HardwareCatalog) -> bool {
    &&& same_interrupt_controllers(before, after)
    &&& same_timer(before, after)
    &&& after.mcfg_allocs@ == before.mcfg_allocs@
}

/// The address of the event timer in its table: the eight bytes from
/// offset 51 on.
pub open spec fn hpet_address(table: Seq<u8>) -> u64 {
    le64(table, 51)
}

/// The period of the event timer in its table: the dword at offset 63.
pub open spec fn hpet_period(table: Seq<u8>) -> u64 {
    le32(table, 63) as u64
}

/// Whether the event timer table `table` names a timer: its checksum
/// holds and the address in it is not zero.
pub open spec fn hpet_found(table: Seq<u8>) -> bool {
    table_valid(table) && hpet_address(table) != 0
}

/// What is registered for the event timer at `addr`.
pub open spec fn hpet_device_info(addr: u64) -> DeviceInfoView {
    DeviceInfoView {
        vendor_id: 0xffff,
        device_id: 0xffff,
        class: 0x04,
        subclass: 0,
        prog_if: 0,
        resources: seq![Resource { kind: ResourceKind::MemoryMapped, addr, len: 0x1000 }],
        capabilities: Seq::empty(),
        description: "ACPI HPET @ 0x"@ + hex_digits(addr as nat),
    }
}

/// What is registered for the event timer table `table`.
pub open spec fn hpet_devices(table: Seq<u8>) -> Seq<DeviceInfoView> {
    if hpet_found(table) {
        seq![hpet_device_info(hpet_address(table))]
    } else {
        Seq::empty()
    }
}

/// Whether the catalog went from `before` to `after` by taking in the
/// event timer table `table`: where the table names a timer, its address
/// and period are kept; otherwise nothing changes.
pub open spec fn catalog_after_hpet(
    before: HardwareCatalog,
    after: HardwareCatalog,
    table: Seq<u8>,
) -> bool {
    &&& same_interrupt_controllers(before, after)
    &&& after.mcfg_allocs@ == before.mcfg_allocs@
    &&& if hpet_found(table) {
        &&& after.hpet_base == Some(hpet_address(table))
        &&& after.hpet_period_fs == hpet_period(table)
    } else {
        same_timer(before, after)
    }
}

/// Takes in the event timer table: `table` holds its bytes from the header
/// on. A timer found is also registered as a device.
pub fn parse_hpet(catalog: &mut HardwareCatalog, manager: &mut DeviceManager, table: &[u8])
    requires
        old(manager).wf(),
    ensures
        final(manager).wf(),
        catalog_after_hpet(*old(catalog), *final(catalog), table@),
        crate::driver_framework::manager::registered_all(
            old(manager).devices@,
            final(manager).devices@,
            hpet_devices(table@),
        ),
{
    let hpet = Hpet::decode(table, 0, 0);
    if !hpet.header.checksum_valid(table) || hpet.address.address == 0 {
        proof {
            crate::driver_framework::manager::lemma_registered_none(manager.devices@);
        }
        return ;
    }
    let addr = hpet.address.address;
    catalog.hpet_base = Some(addr);
    catalog.hpet_period_fs = hpet.period as u64;
    let mut resources: Vec<Resource> = Vec::new();
    resources.push(Resource { kind: ResourceKind::MemoryMapped, addr, len: 0x1000 });
    let mut description = String::from_str("ACPI HPET @ 0x");
    push_hex(&mut description, addr);
    let device = DeviceInfo {
        vendor_id: 0xffff,
        device_id: 0xffff,
        class: 0x04,
        subclass: 0,
        prog_if: 0,
        resources,
        capabilities: Vec::new(),
        description,
    };
    assert(device@.resources =~= hpet_device_info(addr).resources);
    assert(device@.capabilities =~= hpet_device_info(addr).capabilities);
    manager.register_device(device);
}

/// How many configuration windows a table of `length` bytes holds: as many
/// as fit whole between the 44 bytes at its start and its end.
pub open spec fn mcfg_allocation_count(length: u32) -> int {
    if length < MCFG_SIZE + MCFG_ALLOCATION_SIZE {
        0
    } else {
        (length - MCFG_SIZE) / (MCFG_ALLOCATION_SIZE as int)
    }
}

/// The configuration window number `k` of the table `table`.
pub open spec fn mcfg_allocation_at(table: Seq<u8>, k: int) -> McfgAllocation {
    let at = MCFG_SIZE + MCFG_ALLOCATION_SIZE * k;
    McfgAllocation {
        base_address: le64(table, at),
        pci_segment_group: le16(table, at + 8),
        start_bus: byte_or_zero(table, at + 10),
        end_bus: byte_or_zero(table, at + 11),
        reserved: [
            byte_or_zero(table, at + 12),
            byte_or_zero(table, at + 13),
            byte_or_zero(table, at + 14),
            byte_or_zero(table, at + 15),
        ],
    }
}

/// The configuration windows of the table `table`, in table order.
pub open spec fn mcfg_allocations(table: Seq<u8>) -> Seq<McfgAllocation> {
    Seq::new(
        mcfg_allocation_count(le32(table, 4)) as nat,
        |k: int| mcfg_allocation_at(table, k),
    )
}

/// What is registered for a configuration window.
pub open spec fn mcfg_device_info(window: McfgAllocation) -> DeviceInfoView {
    DeviceInfoView {
        vendor_id: 0xffff,
        device_id: window.pci_segment_group,
        class: 0x06,
        subclass: 0,
        prog_if: 0,
        resources: seq![
            Resource { kind: ResourceKind::MemoryMapped, addr: window.base_address, len: 0 },
        ],
        capabilities: Seq::empty(),
        description: "ACPI MCFG ECAM seg="@ + decimal_digits(window.pci_segment_group as nat)
            + " buses="@ + decimal_digits(window.start_bus as nat) + ".."@ + decimal_digits(
            window.end_bus as nat,
        ) + " @ 0x"@ + hex_digits(window.base_address as nat),
    }
}

/// What is registered for the configuration windows of the table `table`,
/// in table order.
pub open spec fn mcfg_devices(table: Seq<u8>) -> Seq<DeviceInfoView> {
    Seq::new(
        mcfg_allocation_count(le32(table, 4)) as nat,
        |k: int| mcfg_device_info(mcfg_allocation_at(table, k)),
    )
}

/// Whether the catalog went from `before` to `after` by taking in the
/// table of configuration windows `table`: its windows are added behind
/// those already known.
pub open spec fn catalog_after_mcfg(
    before: HardwareCatalog,
    after: HardwareCatalog,
    table: Seq<u8>,
) -> bool {
    &&& same_interrupt_controllers(before, after)
    &&& same_timer(before, after)
    &&& after.mcfg_allocs@ == before.mcfg_allocs@ + mcfg_allocations(table)
}

/// What is registered for a configuration window.
pub fn mcfg_device(window: &McfgAllocation) -> (device: DeviceInfo)
    ensures
        device@ == mcfg_device_info(*window),
{
    let mut resources: Vec<Resource> = Vec::new();
    resources.push(
        Resource { kind: ResourceKind::MemoryMapped, addr: window.base_address, len: 0 },
    );
    let mut description = String::from_str("ACPI MCFG ECAM seg=");
    push_decimal(&mut description, window.pci_segment_group as u64);
    description.append(" buses=");
    push_decimal(&mut description, window.start_bus as u64);
    description.append("..");
    push_decimal(&mut description, window.end_bus as u64);
    description.append(" @ 0x");
    push_hex(&mut description, window.base_address);
    let device = DeviceInfo {
        vendor_id: 0xffff,
        device_id: window.pci_segment_group,
        class: 0x06,
        subclass: 0,
        prog_if: 0,
        resources,
        capabilities: Vec::new(),
        description,
    };
    assert(device@.resources =~= mcfg_device_info(*window).resources);
    assert(device@.capabilities =~= mcfg_device_info(*window).capabilities);
    device
}

/// Takes in the table of configuration windows: `table` holds its bytes
/// from the header on. Each window is also registered as a device.
pub fn parse_mcfg(catalog: &mut HardwareCatalog, manager: &mut DeviceManager, table: &[u8])
    requires
        old(manager).wf(),
    ensures
        final(manager).wf(),
        catalog_after_mcfg(*old(catalog), *final(catalog), table@),
        crate::driver_framework::manager::registered_all(
            old(manager).devices@,
            final(manager).devices@,
            mcfg_devices(table@),
        ),
{
    let header = Mcfg::decode(table, 0, 0);
    let length: u64 = header.header.length as u64;
    let mut offset: u64 = MCFG_SIZE;
    let ghost mut k: int = 0;
    proof {
        crate::driver_framework::manager::lemma_registered_none(manager.devices@);
        assert(catalog.mcfg_allocs@ + Seq::<McfgAllocation>::empty() =~= catalog.mcfg_allocs@);
    }
    while offset + MCFG_ALLOCATION_SIZE <= length
        invariant
            length == le32(table@, 4),
            offset == MCFG_SIZE + MCFG_ALLOCATION_SIZE * k,
            0 <= k <= mcfg_allocation_count(le32(table@, 4)),
            manager.wf(),
            same_interrupt_controllers(*old(catalog), *catalog),
            same_timer(*old(catalog), *catalog),
            catalog.mcfg_allocs@ == old(catalog).mcfg_allocs@ + Seq::new(
                k as nat,
                |j: int| mcfg_allocation_at(table@, j),
            ),
            crate::driver_framework::manager::registered_all(
                old(manager).devices@,
                manager.devices@,
                Seq::new(k as nat, |j: int| mcfg_device_info(mcfg_allocation_at(table@, j))),
            ),
        decreases length - offset,
    {
        let window = McfgAllocation::decode(table, offset, 0);
        proof {
            assert(window.reserved =~= mcfg_allocation_at(table@, k).reserved);
            assert(window == mcfg_allocation_at(table@, k));
        }
        let device = mcfg_device(&window);
        let ghost between = manager.devices@;
        let ghost devices = Seq::new(
            k as nat,
            |j: int| mcfg_device_info(mcfg_allocation_at(table@, j)),
        );
        let ghost windows = Seq::new(k as nat, |j: int| mcfg_allocation_at(table@, j));
        manager.register_device(device);
        catalog.mcfg_allocs.push(window);
        proof {
            crate::driver_framework::manager::lemma_registered_all_chain(
                old(manager).devices@,
                between,
                manager.devices@,
                devices,
                seq![mcfg_device_info(window)],
            );
            assert(devices + seq![mcfg_device_info(window)] =~= Seq::new(
                (k + 1) as nat,
                |j: int| mcfg_device_info(mcfg_allocation_at(table@, j)),
            ));
            assert((old(catalog).mcfg_allocs@ + windows).push(window) =~= old(catalog).mcfg_allocs@
                + Seq::new((k + 1) as nat, |j: int| mcfg_allocation_at(table@, j)));
            k = k + 1;
        }
        offset = offset + MCFG_ALLOCATION_SIZE;
    }
    assert(k == mcfg_allocation_count(le32(table@, 4)));
}

/// How often the control register is asked before waiting for power
/// management to come up is given up.
pub const ACPI_ENABLE_POLLS: u32 = 3_000_000;

/// How long to wait after power management was switched off, in idle
/// loop iterations.
pub const ACPI_SETTLE_DELAY: u32 = 10_000;

/// How long to wait between two looks at the control register, in idle
/// loop iterations.
pub const ACPI_POLL_DELAY: u32 = 10;

/// What switching power management on asks its caller to do next.
#[derive(Debug, Clone, Copy, PartialEq, Eq, Structural)]
pub enum AcpiEnableAction {
    /// Write the byte `value` to the port `port`.
    WritePort { port: u16, value: u8 },
    /// Read a byte from the port `port` and hand it to the next step.
    ReadPort { port: u16 },
    /// Idle for `iterations` loop iterations.
    Delay { iterations: u32 },
    /// Nothing more: `confirmed` says whether the control register showed
    /// power management to be on.
    Done { confirmed: bool },
}

/// How far switching power management on has come: what was asked for
/// last.
#[derive(Debug, Clone, Copy, PartialEq, Eq, Structural)]
pub enum AcpiEnableStage {
    /// Nothing yet.
    Start,
    /// The write that switches power management off.
    Disabled,
    /// The wait behind that write.
    Settled,
    /// The write that switches power management on.
    Enabled,
    /// A look at the control register.
    Polling,
    /// The wait behind a look that did not show power management on.
    Paused,
    /// Nothing more.
    Done,
}

/// Switching power management on, in progress: the disable code and then
/// the enable code are written to the command port, and the control
/// register is watched for the bit that confirms it.
#[derive(Debug, Clone, Copy, PartialEq, Eq, Structural)]
pub struct AcpiEnable {
    pub smi_cmd: u32,
    pub acpi_enable: u8,
    pub acpi_disable: u8,
    pub pm1a_cnt_blk: u32,
    pub stage: AcpiEnableStage,
    /// How many looks at the control register are left.
    pub polls_left: u32,
    /// Whether a look showed power management to be on.
    pub confirmed: bool,
}

/// The state and the action of a step.
pub struct AcpiEnableStep {
    pub state: AcpiEnable,
    pub action: AcpiEnableAction,
}

/// The wait behind switching power management off.
pub open spec fn enable_settling(s: AcpiEnable) -> AcpiEnableStep {
    AcpiEnableStep {
        state: AcpiEnable { stage: AcpiEnableStage::Settled, ..s },
        action: AcpiEnableAction::Delay { iterations: ACPI_SETTLE_DELAY },
    }
}

/// The next look at the control register, or the end where there is no
/// such register or no look is left.
pub open spec fn enable_polling(s: AcpiEnable) -> AcpiEnableStep {
    if s.pm1a_cnt_blk != 0 && s.polls_left > 0 {
        AcpiEnableStep {
            state: AcpiEnable { stage: AcpiEnableStage::Polling, ..s },
            action: AcpiEnableAction::ReadPort { port: s.pm1a_cnt_blk as u16 },
        }
    } else {
        AcpiEnableStep {
            state: AcpiEnable { stage: AcpiEnableStage::Done, ..s },
            action: AcpiEnableAction::Done { confirmed: s.confirmed },
        }
    }
}

/// One step of switching power management on: what is done with the
/// reply to what was asked for last. The disable code is written where the
/// command port and the code are not zero, then comes a wait, then the
/// enable code is written under the same condition. Then the control
/// register is read until its bit 0 is set, with a short wait after each
/// look that does not show it, at most [`ACPI_ENABLE_POLLS`] times.
pub open spec fn enable_next(s: AcpiEnable, reply: u8) -> AcpiEnableStep {
    match s.stage {
        AcpiEnableStage::Start => if s.smi_cmd != 0 && s.acpi_disable != 0 {
            AcpiEnableStep {
                state: AcpiEnable { stage: AcpiEnableStage::Disabled, ..s },
                action: AcpiEnableAction::WritePort {
                    port: s.smi_cmd as u16,
                    value: s.acpi_disable,
                },
            }
        } else {
            enable_settling(s)
        },
        AcpiEnableStage::Disabled => enable_settling(s),
        AcpiEnableStage::Settled => if s.smi_cmd != 0 && s.acpi_enable != 0 {
            AcpiEnableStep {
                state: AcpiEnable { stage: AcpiEnableStage::Enabled, ..s },
                action: AcpiEnableAction::WritePort {
                    port: s.smi_cmd as u16,
                    value: s.acpi_enable,
                },
            }
        } else {
            enable_polling(s)
        },
        AcpiEnableStage::Enabled => enable_polling(s),
        AcpiEnableStage::Polling => if reply & 0x01 != 0 {
            AcpiEnableStep {
                state: AcpiEnable { stage: AcpiEnableStage::Done, confirmed: true, ..s },
                action: AcpiEnableAction::Done { confirmed: true },
            }
        } else {
            AcpiEnableStep {
                state: AcpiEnable {
                    stage: AcpiEnableStage::Paused,
                    polls_left: if s.polls_left > 0 {
                        (s.polls_left - 1) as u32
                    } else {
                        0
                    },
                    ..s
                },
                action: AcpiEnableAction::Delay { iterations: ACPI_POLL_DELAY },
            }
        },
        AcpiEnableStage::Paused => enable_polling(s),
        AcpiEnableStage::Done => AcpiEnableStep {
            state: s,
            action: AcpiEnableAction::Done { confirmed: s.confirmed },
        },
    }
}

/// How many steps switching power management on can still take at most.
pub open spec fn enable_steps_left(s: AcpiEnable) -> nat {
    match s.stage {
        AcpiEnableStage::Start => (2 * s.polls_left + 5) as nat,
        AcpiEnableStage::Disabled => (2 * s.polls_left + 4) as nat,
        AcpiEnableStage::Settled => (2 * s.polls_left + 3) as nat,
        AcpiEnableStage::Enabled => (2 * s.polls_left + 2) as nat,
        AcpiEnableStage::Polling => (2 * s.polls_left) as nat,
        AcpiEnableStage::Paused => (2 * s.polls_left + 1) as nat,
        AcpiEnableStage::Done => 0,
    }
}

/// Switching power management on comes to an end: every step before the
/// end leaves fewer steps to take, whatever the hardware answers.
pub proof fn lemma_enable_terminates(s: AcpiEnable, reply: u8)
    requires
        s.stage != AcpiEnableStage::Done,
        s.stage == AcpiEnableStage::Polling ==> s.polls_left > 0,
    ensures
        enable_steps_left(enable_next(s, reply).state) < enable_steps_left(s),
        enable_next(s, reply).state.stage == AcpiEnableStage::Polling ==> enable_next(
            s,
            reply,
        ).state.polls_left > 0,
{
}

/// Begins switching power management on with the ports and codes that the
/// fixed description table names. Nothing is asked of the hardware yet:
/// the caller calls [`AcpiEnable::step`] until it answers
/// [`AcpiEnableAction::Done`], carrying out each action it is given.
pub fn enable_acpi(facp: &Facp) -> (enable: AcpiEnable)
    ensures
        enable == (AcpiEnable {
            smi_cmd: facp.smi_cmd,
            acpi_enable: facp.acpi_enable,
            acpi_disable: facp.acpi_disable,
            pm1a_cnt_blk: facp.pm1a_cnt_blk,
            stage: AcpiEnableStage::Start,
            polls_left: ACPI_ENABLE_POLLS,
            confirmed: false,
        }),
{
    AcpiEnable {
        smi_cmd: facp.smi_cmd,
        acpi_enable: facp.acpi_enable,
        acpi_disable: facp.acpi_disable,
        pm1a_cnt_blk: facp.pm1a_cnt_blk,
        stage: AcpiEnableStage::Start,
        polls_left: ACPI_ENABLE_POLLS,
        confirmed: false,
    }
}

impl AcpiEnable {
    fn settle(&mut self) -> (action: AcpiEnableAction)
        ensures
            *final(self) == enable_settling(*old(self)).state,
            action == enable_settling(*old(self)).action,
    {
        self.stage = AcpiEnableStage::Settled;
        AcpiEnableAction::Delay { iterations: ACPI_SETTLE_DELAY }
    }

    fn poll(&mut self) -> (action: AcpiEnableAction)
        ensures
            *final(self) == enable_polling(*old(self)).state,
            action == enable_polling(*old(self)).action,
    {
        if self.pm1a_cnt_blk != 0 && self.polls_left > 0 {
            self.stage = AcpiEnableStage::Polling;
            AcpiEnableAction::ReadPort { port: self.pm1a_cnt_blk as u16 }
        } else {
            self.stage = AcpiEnableStage::Done;
            AcpiEnableAction::Done { confirmed: self.confirmed }
        }
    }

    /// One step of switching power management on. `reply` is the byte
    /// that the action of the step before read, or anything where it read
    /// nothing.
    pub fn step(&mut self, reply: u8) -> (action: AcpiEnableAction)
        ensures
            *final(self) == enable_next(*old(self), reply).state,
            action == enable_next(*old(self), reply).action,
    {
        match self.stage {
            AcpiEnableStage::Start => {
                if self.smi_cmd != 0 && self.acpi_disable != 0 {
                    self.stage = AcpiEnableStage::Disabled;
                    AcpiEnableAction::WritePort {
                        port: self.smi_cmd as u16,
                        value: self.acpi_disable,
                    }
                } else {
                    self.settle()
                }
            },
            AcpiEnableStage::Disabled => self.settle(),
            AcpiEnableStage::Settled => {
                if self.smi_cmd != 0 && self.acpi_enable != 0 {
                    self.stage = AcpiEnableStage::Enabled;
                    AcpiEnableAction::WritePort {
                        port: self.smi_cmd as u16,
                        value: self.acpi_enable,
                    }
                } else {
                    self.poll()
                }
            },
            AcpiEnableStage::Enabled => self.poll(),
            AcpiEnableStage::Polling => {
                if reply & 0x01 != 0 {
                    self.stage = AcpiEnableStage::Done;
                    self.confirmed = true;
                    AcpiEnableAction::Done { confirmed: true }
                } else {
                    self.stage = AcpiEnableStage::Paused;
                    if self.polls_left > 0 {
                        self.polls_left = self.polls_left - 1;
                    }
                    AcpiEnableAction::Delay { iterations: ACPI_POLL_DELAY }
                }
            },
            AcpiEnableStage::Paused => self.poll(),
            AcpiEnableStage::Done => AcpiEnableAction::Done { confirmed: self.confirmed },
        }
    }
}

/// How switching power management on begins for the fixed description
/// table `table`: the command port is the dword at offset 48, the enable
/// and disable codes are the bytes at offsets 52 and 53, and the control
/// register is the dword at offset 64.
pub open spec fn enable_from(table: Seq<u8>) -> AcpiEnable {
    AcpiEnable {
        smi_cmd: le32(table, 48),
        acpi_enable: byte_or_zero(table, 52),
        acpi_disable: byte_or_zero(table, 53),
        pm1a_cnt_blk: le32(table, 64),
        stage: AcpiEnableStage::Start,
        polls_left: ACPI_ENABLE_POLLS,
        confirmed: false,
    }
}

/// Takes in the fixed description table: `table` holds its bytes from the
/// header on. What comes back is the switching on of power management,
/// ready to begin.
pub fn parse_facp(table: &[u8]) -> (enable: AcpiEnable)
    ensures
        enable == enable_from(table@),
{
    let facp = Facp::decode(table, 0, 0);
    enable_acpi(&facp)
}

/// What is registered for the table `table` by its kind.
pub open spec fn specific_devices(signature: Seq<u8>, table: Seq<u8>) -> Seq<DeviceInfoView> {
    if signature == madt_signature() {
        ioapic_devices(madt_records_of(table))
    } else if signature == hpet_signature() {
        hpet_devices(table)
    } else if signature == mcfg_signature() {
        mcfg_devices(table)
    } else {
        Seq::empty()
    }
}

/// Whether the catalog went from `before` to `after` by taking in the
/// table `table` of the kind that `signature` names. Tables of other
/// kinds than "APIC", "HPET" and "MCFG" change nothing.
pub open spec fn catalog_after_table(
    before: HardwareCatalog,
    after: HardwareCatalog,
    signature: Seq<u8>,
    table: Seq<u8>,
) -> bool {
    if signature == madt_signature() {
        catalog_after_madt(before, after, table)
    } else if signature == hpet_signature() {
        catalog_after_hpet(before, after, table)
    } else if signature == mcfg_signature() {
        catalog_after_mcfg(before, after, table)
    } else {
        same_catalog(before, after)
    }
}

/// The switching on of power management that the table `table` asks for:
/// only a fixed description table ("FACP") asks for it.
pub open spec fn enable_asked_by(signature: Seq<u8>, table: Seq<u8>) -> Option<AcpiEnable> {
    if signature == facp_signature() {
        Some(enable_from(table))
    } else {
        None
    }
}

/// Takes in the table `table` by the kind that `signature` names. Where
/// the table is a fixed description table, the switching on of power
/// management that it asks for comes back for the caller to carry out.
pub fn parse_specific_table(
    catalog: &mut HardwareCatalog,
    manager: &mut DeviceManager,
    signature: &[u8; 4],
    table: &[u8],
) -> (enable: Option<AcpiEnable>)
    requires
        old(manager).wf(),
    ensures
        final(manager).wf(),
        catalog_after_table(*old(catalog), *final(catalog), signature@, table@),
        crate::driver_framework::manager::registered_all(
            old(manager).devices@,
            final(manager).devices@,
            specific_devices(signature@, table@),
        ),
        enable == enable_asked_by(signature@, table@),
{
    if signature_is(signature, 0x46, 0x41, 0x43, 0x50) {
        proof {
            crate::driver_framework::manager::lemma_registered_none(manager.devices@);
            assert(facp_signature() != madt_signature()) by {
                assert(facp_signature()[0] != madt_signature()[0]);
            }
            assert(facp_signature() != hpet_signature()) by {
                assert(facp_signature()[0] != hpet_signature()[0]);
            }
            assert(facp_signature() != mcfg_signature()) by {
                assert(facp_signature()[0] != mcfg_signature()[0]);
            }
        }
        Some(parse_facp(table))
    } else if signature_is(signature, 0x41, 0x50, 0x49, 0x43) {
        parse_madt(catalog, manager, table);
        None
    } else if signature_is(signature, 0x48, 0x50, 0x45, 0x54) {
        proof {
            assert(hpet_signature() != madt_signature()) by {
                assert(hpet_signature()[0] != madt_signature()[0]);
            }
        }
        parse_hpet(catalog, manager, table);
        None
    } else if signature_is(signature, 0x4D, 0x43, 0x46, 0x47) {
        proof {
            assert(mcfg_signature() != madt_signature()) by {
                assert(mcfg_signature()[0] != madt_signature()[0]);
            }
            assert(mcfg_signature() != hpet_signature()) by {
                assert(mcfg_signature()[0] != hpet_signature()[0]);
            }
        }
        parse_mcfg(catalog, manager, table);
        None
    } else {
        proof {
            crate::driver_framework::manager::lemma_registered_none(manager.devices@);
        }
        None
    }
}

/// The signature as text, or "INVALID" where its bytes are not valid
/// UTF-8.
pub open spec fn signature_text(signature: Seq<u8>) -> Seq<char> {
    if valid_utf8(signature) {
        decode_utf8(signature)
    } else {
        "INVALID"@
    }
}

/// What is registered for a table of `length` bytes at the physical
/// address `table_phys_addr` with the signature `signature`.
pub open spec fn table_device_info(
    table_phys_addr: u64,
    length: u32,
    signature: Seq<u8>,
) -> DeviceInfoView {
    DeviceInfoView {
        vendor_id: 0xffff,
        device_id: 0xffff,
        class: 0xFF,
        subclass: 0,
        prog_if: 0,
        resources: seq![
            Resource {
                kind: ResourceKind::MemoryMapped,
                addr: table_phys_addr,
                len: length as u64,
            },
        ],
        capabilities: Seq::empty(),
        description: "ACPI table: "@ + signature_text(signature),
    }
}

/// What is registered for the table `table` found at `table_phys_addr`:
/// where its checksum holds, a device for the table itself and then what
/// its kind registers; nothing otherwise.
pub open spec fn table_devices(table_phys_addr: u64, table: Seq<u8>) -> Seq<DeviceInfoView> {
    if table_valid(table) {
        seq![table_device_info(table_phys_addr, le32(table, 4), bytes_at(table, 0, 4))]
            + specific_devices(bytes_at(table, 0, 4), table)
    } else {
        Seq::empty()
    }
}

/// Where the table at the physical address `table_phys_addr` is seen when
/// physical memory is mapped at `phys_offset`; the sum wraps at 64 bits.
pub open spec fn table_address_in(table_phys_addr: u64, phys_offset: u64) -> u64 {
    ((table_phys_addr + phys_offset) % 0x1_0000_0000_0000_0000) as u64
}

/// Where the table at the physical address `table_phys_addr` is to be
/// read when physical memory is mapped at `phys_offset`. A table that
/// would be seen at the null address is not read: there is none.
pub fn mapped_table_address(table_phys_addr: u64, phys_offset: u64) -> (at: Option<u64>)
    ensures
        at == if table_address_in(table_phys_addr, phys_offset) == 0 {
            None
        } else {
            Some(table_address_in(table_phys_addr, phys_offset))
        },
{
    let at = table_phys_addr.wrapping_add(phys_offset);
    if at == 0 {
        None
    } else {
        Some(at)
    }
}

/// Takes in the table found at the physical address `table_phys_addr`:
/// `table` holds its bytes from the header on. A table whose checksum
/// fails is dropped whole. Any other is registered as a device and taken
/// in by its kind; where it is a fixed description table, the switching
/// on of power management that it asks for comes back for the caller to
/// carry out.
pub fn print_table_info(
    catalog: &mut HardwareCatalog,
    manager: &mut DeviceManager,
    table_phys_addr: u64,
    table: &[u8],
) -> (enable: Option<AcpiEnable>)
    requires
        old(manager).wf(),
    ensures
        final(manager).wf(),
        crate::driver_framework::manager::registered_all(
            old(manager).devices@,
            final(manager).devices@,
            table_devices(table_phys_addr, table@),
        ),
        table_valid(table@) ==> catalog_after_table(
            *old(catalog),
            *final(catalog),
            bytes_at(table@, 0, 4),
            table@,
        ) && enable == enable_asked_by(bytes_at(table@, 0, 4), table@),
        !table_valid(table@) ==> same_catalog(*old(catalog), *final(catalog)) && enable is None,
{
    let header = AcpiTableHeader::decode(table, 0, 0);
    if !header.checksum_valid(table) {
        proof {
            crate::driver_framework::manager::lemma_registered_none(manager.devices@);
        }
        return None;
    }
    let mut resources: Vec<Resource> = Vec::new();
    resources.push(
        Resource {
            kind: ResourceKind::MemoryMapped,
            addr: table_phys_addr,
            len: header.length as u64,
        },
    );
    let mut description = String::from_str("ACPI table: ");
    description.append(header.signature_str());
    let device = DeviceInfo {
        vendor_id: 0xffff,
        device_id: 0xffff,
        class: 0xFF,
        subclass: 0,
        prog_if: 0,
        resources,
        capabilities: Vec::new(),
        description,
    };
    let ghost expected = table_device_info(table_phys_addr, header.length, header.signature@);
    assert(device@.resources =~= expected.resources);
    assert(device@.capabilities =~= expected.capabilities);
    manager.register_device(device);
    let ghost between = manager.devices@;
    let enable = parse_specific_table(catalog, manager, &header.signature, table);
    proof {
        crate::driver_framework::manager::lemma_registered_all_chain(
            old(manager).devices@,
            between,
            manager.devices@,
            seq![expected],
            specific_devices(header.signature@, table@),
        );
    }
    enable
}

} // verus!
