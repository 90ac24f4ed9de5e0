//! PCI enumeration: which functions exist on the bus, what address windows
//! they decode, and what their capability lists hold.
//!
//! The functions here read a copy of a function's configuration space and
//! the values that sizing its address registers brought back;
//! [`PciScanner`] says which register to read or write next.

use vstd::prelude::*;
use vstd::string::*;
use crate::driver_framework::device::{Capability, DeviceInfo, Resource, ResourceKind};
use crate::driver_framework::manager::DeviceManager;
use crate::text::{hex_byte, hex_digits, push_hex, push_hex_byte};

verus! {

/// How many entries of a capability list are followed before the walk gives
/// up: a corrupt list may run in a circle.
pub const MAX_CAPABILITY_HOPS: u8 = 48;

/// The value that selects a configuration register: the enable bit, then
/// bus, slot and function, then the register's offset rounded down to a
/// dword.
pub open spec fn config_address(bus: u8, slot: u8, func: u8, offset: u8) -> u32 {
    0x8000_0000u32 | ((bus as u32) << 16) | ((slot as u32) << 11) | ((func as u32) << 8)
        | ((offset as u32) & 0xfc)
}

/// The value to write to the configuration address port to select the
/// register at `offset` of function `func` in slot `slot` on bus `bus`.
pub fn pci_config_address(bus: u8, slot: u8, func: u8, offset: u8) -> (addr: u32)
    ensures
        addr == config_address(bus, slot, func, offset),
{
    0x8000_0000u32 | ((bus as u32) << 16) | ((slot as u32) << 11) | ((func as u32) << 8)
        | ((offset as u32) & 0xfc)
}

/// For a slot below 32 and a function below 8 the fields of a configuration
/// address do not overlap: the address is the sum of its parts.
pub proof fn lemma_config_address_fields(bus: u8, slot: u8, func: u8, offset: u8)
    requires
        slot < 32,
        func < 8,
    ensures
        config_address(bus, slot, func, offset) == 0x8000_0000 + bus * 0x1_0000 + slot * 0x800
            + func * 0x100 + (offset - offset % 4),
{
    assert(0x8000_0000u32 | ((bus as u32) << 16) | ((slot as u32) << 11) | ((func as u32) << 8)
        | ((offset as u32) & 0xfc) == 0x8000_0000 + bus * 0x1_0000 + slot * 0x800 + func * 0x100
        + (offset - offset % 4)) by (bit_vector)
        requires
            slot < 32,
            func < 8,
    ;
}

/// The vendor number in the first dword of a function's configuration space.
pub open spec fn vendor_of(vendor_device: u32) -> u16 {
    (vendor_device & 0xFFFF) as u16
}

/// The device number in the first dword of a function's configuration space.
pub open spec fn device_of(vendor_device: u32) -> u16 {
    ((vendor_device >> 16) & 0xFFFF) as u16
}

/// Whether a function answers: an empty position reads as all ones or all
/// zeros in the vendor number.
pub open spec fn is_present(vendor_device: u32) -> bool {
    vendor_of(vendor_device) != 0xFFFF && vendor_of(vendor_device) != 0
}

/// Whether the function whose first dword is `vendor_device` exists.
pub fn function_present(vendor_device: u32) -> (present: bool)
    ensures
        present == is_present(vendor_device),
{
    let vendor = (vendor_device & 0xFFFF) as u16;
    vendor != 0xFFFF && vendor != 0
}

/// How many functions a slot is probed for: all eight where bit 7 of the
/// header type (the third byte of the dword at offset 0x0C) is set,
/// otherwise only the first.
pub open spec fn functions_in_slot(header_dword: u32) -> u8 {
    if (((header_dword >> 16) & 0xFF) as u8) & 0x80 != 0 {
        8
    } else {
        1
    }
}

/// How many functions of a slot to probe, from the dword at offset 0x0C of
/// its first function.
pub fn function_count(header_dword: u32) -> (count: u8)
    ensures
        count == functions_in_slot(header_dword),
{
    let header_type = ((header_dword >> 16) & 0xFF) as u8;
    if header_type & 0x80 != 0 {
        8
    } else {
        1
    }
}

/// The dword of a configuration-space copy that holds the byte at `offset`.
pub open spec fn dword_at(cfg: Seq<u32>, offset: u8) -> u32 {
    cfg[(offset / 4) as int]
}

/// How far the byte at `offset` sits above the low end of its dword, in
/// bits.
pub open spec fn lane_shift(offset: u8) -> u32 {
    ((offset % 4) * 8) as u32
}

/// The 16-bit field at `offset`, as far as it lies in the dword that holds
/// its first byte: a field that runs into the next dword is cut short.
pub open spec fn field16_at(cfg: Seq<u32>, offset: u8) -> u16 {
    ((dword_at(cfg, offset) >> lane_shift(offset)) & 0xFFFF) as u16
}

/// The 32-bit field at `offset`, as far as it lies in the dword that holds
/// its first byte.
pub open spec fn field32_at(cfg: Seq<u32>, offset: u8) -> u32 {
    dword_at(cfg, offset) >> lane_shift(offset)
}

/// The offset `by` bytes above `ptr`, wrapping at the end of the
/// configuration space.
pub open spec fn offset_above(ptr: u8, by: u8) -> u8 {
    ((ptr + by) % 256) as u8
}

/// The dword of `cfg` that holds the byte at `offset`.
pub fn config_dword(cfg: &[u32; 64], offset: u8) -> (d: u32)
    ensures
        d == dword_at(cfg@, offset),
{
    cfg[(offset / 4) as usize]
}

/// The 16-bit field of `cfg` at `offset`.
pub fn config_field16(cfg: &[u32; 64], offset: u8) -> (v: u16)
    ensures
        v == field16_at(cfg@, offset),
{
    let shift: u32 = ((offset % 4) * 8) as u32;
    ((config_dword(cfg, offset) >> shift) & 0xFFFF) as u16
}

/// The 32-bit field of `cfg` at `offset`.
pub fn config_field32(cfg: &[u32; 64], offset: u8) -> (v: u32)
    ensures
        v == field32_at(cfg@, offset),
{
    let shift: u32 = ((offset % 4) * 8) as u32;
    config_dword(cfg, offset) >> shift
}

/// The offset `by` bytes above `ptr`.
pub fn offset_from(ptr: u8, by: u8) -> (off: u8)
    ensures
        off == offset_above(ptr, by),
{
    ((ptr as u16 + by as u16) % 256) as u8
}

/// What an address register describes.
#[derive(Debug, Clone, Copy, PartialEq, Eq, Structural)]
pub enum BarKind {
    /// Nothing: the register reads as zero or as all ones.
    Absent,
    /// A window of I/O ports.
    Io,
    /// A window of memory below 4 GiB.
    Memory32,
    /// A window of memory anywhere; the next register holds the upper half
    /// of its address.
    Memory64,
}

/// What the address register that holds `orig` describes: an
/// I/O window where bit 0 is set, else a memory window, of 64 bits where
/// bits 2..1 hold 2.
pub open spec fn bar_kind(orig: u32) -> BarKind {
    if orig == 0 || orig == 0xFFFF_FFFF {
        BarKind::Absent
    } else if orig & 0x1 == 0x1 {
        BarKind::Io
    } else if (orig >> 1) & 0x3 == 0x2 {
        BarKind::Memory64
    } else {
        BarKind::Memory32
    }
}

/// What the address register that holds `orig` describes.
pub fn classify_bar(orig: u32) -> (kind: BarKind)
    ensures
        kind == bar_kind(orig),
{
    if orig == 0 || orig == 0xFFFF_FFFF {
        BarKind::Absent
    } else if orig & 0x1 == 0x1 {
        BarKind::Io
    } else if (orig >> 1) & 0x3 == 0x2 {
        BarKind::Memory64
    } else {
        BarKind::Memory32
    }
}

/// The size of the window whose address bits read back as `mask` after all
/// ones were written: the two's complement of `mask` in 32 bits.
pub open spec fn window_size32(mask: u32) -> u64 {
    if mask == 0 {
        0
    } else {
        (0x1_0000_0000 - mask) as u64
    }
}

/// The size of the window whose address bits read back as `mask` after all
/// ones were written: the two's complement of `mask` in 64 bits.
pub open spec fn window_size64(mask: u64) -> u64 {
    if mask == 0 {
        0
    } else {
        (0x1_0000_0000_0000_0000 - mask) as u64
    }
}

/// The size of an I/O window from the read-back of its register.
pub open spec fn io_window_size(readback: u32) -> u64 {
    window_size32(readback & 0xFFFF_FFFC)
}

/// The size of a 32-bit memory window from the read-back of its register.
pub open spec fn memory32_window_size(readback: u32) -> u64 {
    window_size32(readback & !0xFu32)
}

/// The read-backs of the two registers of a 64-bit memory window as one
/// mask, without the four flag bits.
pub open spec fn memory64_mask(readback_low: u32, readback_high: u32) -> u64 {
    (((readback_high as u64) << 32) | (readback_low as u64)) & !0xFu64
}

/// The size of a 64-bit memory window from the read-backs of its two
/// registers.
pub open spec fn memory64_window_size(readback_low: u32, readback_high: u32) -> u64 {
    window_size64(memory64_mask(readback_low, readback_high))
}

/// The size of a window is the complement of its mask plus one, in 32 bits.
pub proof fn lemma_window_size32_is_complement(mask: u32)
    ensures
        window_size32(mask) == ((!mask) + 1) % 0x1_0000_0000,
{
    assert(!mask == 0xFFFF_FFFFu32 - mask) by (bit_vector);
}

/// The size of a window is the complement of its mask plus one, in 64 bits.
pub proof fn lemma_window_size64_is_complement(mask: u64)
    ensures
        window_size64(mask) == ((!mask) + 1) % 0x1_0000_0000_0000_0000,
{
    assert(!mask == 0xFFFF_FFFF_FFFF_FFFFu64 - mask) by (bit_vector);
}

/// The size of an I/O window from the read-back of its register.
pub fn io_bar_size(readback: u32) -> (size: u64)
    ensures
        size == io_window_size(readback),
{
    let mask = readback & 0xFFFF_FFFC;
    let inverted = !mask;
    assert(inverted == 0xFFFF_FFFFu32 - mask) by (bit_vector)
        requires
            inverted == !mask,
    ;
    inverted.wrapping_add(1) as u64
}

/// The size of a 32-bit memory window from the read-back of its register.
pub fn memory32_bar_size(readback: u32) -> (size: u64)
    ensures
        size == memory32_window_size(readback),
{
    let mask = readback & !0xFu32;
    let inverted = !mask;
    assert(inverted == 0xFFFF_FFFFu32 - mask) by (bit_vector)
        requires
            inverted == !mask,
    ;
    inverted.wrapping_add(1) as u64
}

/// The size of a 64-bit memory window from the read-backs of its two
/// registers.
pub fn memory64_bar_size(readback_low: u32, readback_high: u32) -> (size: u64)
    ensures
        size == memory64_window_size(readback_low, readback_high),
{
    let mask = (((readback_high as u64) << 32) | (readback_low as u64)) & !0xFu64;
    let inverted = !mask;
    assert(inverted == 0xFFFF_FFFF_FFFF_FFFFu64 - mask) by (bit_vector)
        requires
            inverted == !mask,
    ;
    inverted.wrapping_add(1)
}

/// What address register `index` holds, from the copy of the
/// configuration space.
pub open spec fn bar_content(cfg: Seq<u32>, index: int) -> u32 {
    cfg[4 + index]
}

/// The offset of address register `index` in configuration space.
pub open spec fn bar_register_offset(index: int) -> u8 {
    (0x10 + 4 * index) as u8
}

/// The I/O window of a register that holds `orig` and read back
/// `readback`.
pub open spec fn io_resource(orig: u32, readback: u32) -> Resource {
    Resource {
        kind: ResourceKind::IO,
        addr: (orig & 0xFFFF_FFFC) as u64,
        len: io_window_size(readback),
    }
}

/// The 32-bit memory window of a register that holds `orig` and read
/// back `readback`.
pub open spec fn memory32_resource(orig: u32, readback: u32) -> Resource {
    Resource {
        kind: ResourceKind::MemoryMapped,
        addr: (orig & 0xFFFF_FFF0) as u64,
        len: memory32_window_size(readback),
    }
}

/// The 64-bit memory window of two registers that hold `orig` and
/// `orig_high` and read back `readback_low` and `readback_high`.
pub open spec fn memory64_resource(
    orig: u32,
    orig_high: u32,
    readback_low: u32,
    readback_high: u32,
) -> Resource {
    Resource {
        kind: ResourceKind::MemoryMapped,
        addr: ((orig_high as u64) << 32) | ((orig as u64) & 0xFFFF_FFF0),
        len: memory64_window_size(readback_low, readback_high),
    }
}

/// Whether the window that address register `index` opens has its upper
/// half in the register behind it: the register says so, and it is not
/// the last of the six.
pub open spec fn spans_two_registers(cfg: Seq<u32>, index: int) -> bool {
    bar_kind(bar_content(cfg, index)) == BarKind::Memory64 && index < 5
}

/// The windows of the address registers from `index` on, in order.
/// `readback[i]` is what register `i` read back after all ones were written
/// to it. A 64-bit window takes two registers and is one resource: the
/// register behind it is not looked at on its own. The last register has
/// no register behind it: where it claims a 64-bit window, the window is
/// taken to lie below 4 GiB and is sized from the register's own
/// read-back, and nothing behind the six registers is looked at.
pub open spec fn bars_from(cfg: Seq<u32>, readback: Seq<u32>, index: int) -> Seq<Resource>
    decreases 7 - index,
{
    if index < 0 || index >= 6 {
        Seq::empty()
    } else {
        let orig = bar_content(cfg, index);
        match bar_kind(orig) {
            BarKind::Absent => bars_from(cfg, readback, index + 1),
            BarKind::Io => seq![io_resource(orig, readback[index])] + bars_from(
                cfg,
                readback,
                index + 1,
            ),
            BarKind::Memory32 => seq![memory32_resource(orig, readback[index])] + bars_from(
                cfg,
                readback,
                index + 1,
            ),
            BarKind::Memory64 => if index < 5 {
                seq![
                    memory64_resource(
                        orig,
                        bar_content(cfg, index + 1),
                        readback[index],
                        readback[index + 1],
                    ),
                ] + bars_from(cfg, readback, index + 2)
            } else {
                seq![memory32_resource(orig, readback[index])] + bars_from(
                    cfg,
                    readback,
                    index + 2,
                )
            },
        }
    }
}

/// A 64-bit window at register `index` is one resource, sized from both
/// read-backs, and the next window is looked for two registers on.
pub proof fn lemma_memory64_takes_two_registers(cfg: Seq<u32>, readback: Seq<u32>, index: int)
    requires
        0 <= index,
        spans_two_registers(cfg, index),
    ensures
        bars_from(cfg, readback, index).len() == 1 + bars_from(cfg, readback, index + 2).len(),
        bars_from(cfg, readback, index)[0].len == window_size64(
            memory64_mask(readback[index], readback[index + 1]),
        ),
        bars_from(cfg, readback, index).skip(1) == bars_from(cfg, readback, index + 2),
{
    let first = memory64_resource(
        bar_content(cfg, index),
        bar_content(cfg, index + 1),
        readback[index],
        readback[index + 1],
    );
    let rest = bars_from(cfg, readback, index + 2);
    assert(bars_from(cfg, readback, index) == seq![first] + rest);
    assert((seq![first] + rest).skip(1) =~= rest);
}

/// The windows that a function's address registers describe, in register
/// order. `readback[i]` is what register `i` read back after all ones were
/// written to it; entries of registers that were not sized are not read,
/// and the seventh entry never is.
pub fn bar_resources(cfg: &[u32; 64], readback: &[u32; 7]) -> (found: Vec<Resource>)
    ensures
        found@ == bars_from(cfg@, readback@, 0),
{
    let mut found: Vec<Resource> = Vec::new();
    let mut index: usize = 0;
    while index < 6
        invariant
            index <= 7,
            found@ + bars_from(cfg@, readback@, index as int) == bars_from(cfg@, readback@, 0),
        decreases 7 - index,
    {
        let orig = cfg[4 + index];
        let ghost rest_before = bars_from(cfg@, readback@, index as int);
        match classify_bar(orig) {
            BarKind::Absent => {
                index += 1;
            },
            BarKind::Io => {
                let r = Resource {
                    kind: ResourceKind::IO,
                    addr: (orig & 0xFFFF_FFFC) as u64,
                    len: io_bar_size(readback[index]),
                };
                proof {
                    let rest = bars_from(cfg@, readback@, index as int + 1);
                    assert(found@.push(r) + rest =~= found@ + (seq![r] + rest));
                }
                found.push(r);
                index += 1;
            },
            BarKind::Memory32 => {
                let r = Resource {
                    kind: ResourceKind::MemoryMapped,
                    addr: (orig & 0xFFFF_FFF0) as u64,
                    len: memory32_bar_size(readback[index]),
                };
                proof {
                    let rest = bars_from(cfg@, readback@, index as int + 1);
                    assert(found@.push(r) + rest =~= found@ + (seq![r] + rest));
                }
                found.push(r);
                index += 1;
            },
            BarKind::Memory64 => {
                let r = if index < 5 {
                    let orig_high = cfg[5 + index];
                    Resource {
                        kind: ResourceKind::MemoryMapped,
                        addr: ((orig_high as u64) << 32) | ((orig as u64) & 0xFFFF_FFF0),
                        len: memory64_bar_size(readback[index], readback[index + 1]),
                    }
                } else {
                    Resource {
                        kind: ResourceKind::MemoryMapped,
                        addr: (orig & 0xFFFF_FFF0) as u64,
                        len: memory32_bar_size(readback[index]),
                    }
                };
                proof {
                    let rest = bars_from(cfg@, readback@, index as int + 2);
                    assert(found@.push(r) + rest =~= found@ + (seq![r] + rest));
                }
                found.push(r);
                index += 2;
            },
        }
    }
    assert(found@ + Seq::<Resource>::empty() =~= found@);
    found
}

/// One access to a function's configuration space.
#[derive(Debug, Clone, Copy, PartialEq, Eq, Structural)]
pub enum ConfigOp {
    /// Read the dword at `offset`.
    Read { offset: u8 },
    /// Write `value` to the dword at `offset`.
    Write { offset: u8, value: u32 },
}

/// The accesses that size the address registers from `index` on, in order.
/// A register is sized by writing all ones to it, reading it back and
/// writing back what it held; for a 64-bit window both registers
/// are written, then both read, then both restored. The last register is
/// sized on its own whatever it claims: nothing behind the six registers
/// is read or written.
pub open spec fn sizing_script_from(cfg: Seq<u32>, index: int) -> Seq<ConfigOp>
    decreases 7 - index,
{
    if index < 0 || index >= 6 {
        Seq::empty()
    } else {
        let orig = bar_content(cfg, index);
        let low = bar_register_offset(index);
        let high = bar_register_offset(index + 1);
        match bar_kind(orig) {
            BarKind::Absent => sizing_script_from(cfg, index + 1),
            BarKind::Memory64 => if index < 5 {
                seq![
                    ConfigOp::Write { offset: low, value: 0xFFFF_FFFF },
                    ConfigOp::Write { offset: high, value: 0xFFFF_FFFF },
                    ConfigOp::Read { offset: low },
                    ConfigOp::Read { offset: high },
                    ConfigOp::Write { offset: low, value: orig },
                    ConfigOp::Write { offset: high, value: bar_content(cfg, index + 1) },
                ] + sizing_script_from(cfg, index + 2)
            } else {
                seq![
                    ConfigOp::Write { offset: low, value: 0xFFFF_FFFF },
                    ConfigOp::Read { offset: low },
                    ConfigOp::Write { offset: low, value: orig },
                ] + sizing_script_from(cfg, index + 2)
            },
            _ => seq![
                ConfigOp::Write { offset: low, value: 0xFFFF_FFFF },
                ConfigOp::Read { offset: low },
                ConfigOp::Write { offset: low, value: orig },
            ] + sizing_script_from(cfg, index + 1),
        }
    }
}

/// Whether `op` touches one of the six address registers, which lie at
/// the offsets from 0x10 to 0x24.
pub open spec fn touches_bar_register(op: ConfigOp) -> bool {
    match op {
        ConfigOp::Read { offset } => 0x10 <= offset <= 0x24 && offset % 4 == 0,
        ConfigOp::Write { offset, .. } => 0x10 <= offset <= 0x24 && offset % 4 == 0,
    }
}

/// The most accesses that a sizing script can have: three for each of the
/// six address registers.
pub const MAX_SIZING_ACCESSES: usize = 18;

/// The dwords `cfg` of a configuration space after the access `op`, with
/// each register taken to hold what was last written to it: a write
/// changes the dword it names, a read changes nothing.
pub open spec fn config_after_op(cfg: Seq<u32>, op: ConfigOp) -> Seq<u32> {
    match op {
        ConfigOp::Read { .. } => cfg,
        ConfigOp::Write { offset, value } => cfg.update(offset as int / 4, value),
    }
}

/// The dwords `cfg` after the accesses `script`, made in order.
pub open spec fn config_after(cfg: Seq<u32>, script: Seq<ConfigOp>) -> Seq<u32>
    decreases script.len(),
{
    if script.len() == 0 {
        cfg
    } else {
        config_after_op(config_after(cfg, script.drop_last()), script.last())
    }
}

/// Making one run of accesses and then another is making the two runs one
/// behind the other.
pub proof fn lemma_config_after_concat(cfg: Seq<u32>, first: Seq<ConfigOp>, second: Seq<ConfigOp>)
    ensures
        config_after(cfg, first + second) == config_after(config_after(cfg, first), second),
    decreases second.len(),
{
    if second.len() == 0 {
        assert(first + second =~= first);
    } else {
        assert((first + second).drop_last() =~= first + second.drop_last());
        assert((first + second).last() == second.last());
        lemma_config_after_concat(cfg, first, second.drop_last());
    }
}

/// Writing `probe` to a register, reading it and writing back `orig`
/// leaves the register holding `orig`.
pub proof fn lemma_probe_and_restore(cfg: Seq<u32>, offset: u8, probe: u32, orig: u32)
    requires
        cfg.len() == 64,
    ensures
        config_after(
            cfg,
            seq![
                ConfigOp::Write { offset, value: probe },
                ConfigOp::Read { offset },
                ConfigOp::Write { offset, value: orig },
            ],
        ) == config_after_op(cfg, ConfigOp::Write { offset, value: orig }),
{
    let a = ConfigOp::Write { offset, value: probe };
    let b = ConfigOp::Read { offset };
    let c = ConfigOp::Write { offset, value: orig };
    assert(seq![a, b, c].drop_last() =~= seq![a, b]);
    assert(seq![a, b].drop_last() =~= seq![a]);
    assert(seq![a].drop_last() =~= Seq::<ConfigOp>::empty());
    assert(config_after(cfg, Seq::<ConfigOp>::empty()) == cfg);
    assert(config_after(cfg, seq![a]) == config_after_op(cfg, a));
    assert(config_after(cfg, seq![a, b]) == config_after_op(cfg, a));
    assert(config_after_op(config_after_op(cfg, a), c) =~= config_after_op(cfg, c));
}

/// Writing `probe` to two registers, reading both and writing back what
/// they held leaves both holding what they held.
pub proof fn lemma_probe_and_restore_pair(
    cfg: Seq<u32>,
    low: u8,
    high: u8,
    probe: u32,
    orig: u32,
    orig_high: u32,
)
    requires
        cfg.len() == 64,
    ensures
        config_after(
            cfg,
            seq![
                ConfigOp::Write { offset: low, value: probe },
                ConfigOp::Write { offset: high, value: probe },
                ConfigOp::Read { offset: low },
                ConfigOp::Read { offset: high },
                ConfigOp::Write { offset: low, value: orig },
                ConfigOp::Write { offset: high, value: orig_high },
            ],
        ) == config_after_op(
            config_after_op(cfg, ConfigOp::Write { offset: low, value: orig }),
            ConfigOp::Write { offset: high, value: orig_high },
        ),
{
    let a = ConfigOp::Write { offset: low, value: probe };
    let b = ConfigOp::Write { offset: high, value: probe };
    let c = ConfigOp::Read { offset: low };
    let d = ConfigOp::Read { offset: high };
    let e = ConfigOp::Write { offset: low, value: orig };
    let f = ConfigOp::Write { offset: high, value: orig_high };
    assert(seq![a, b, c, d, e, f].drop_last() =~= seq![a, b, c, d, e]);
    assert(seq![a, b, c, d, e].drop_last() =~= seq![a, b, c, d]);
    assert(seq![a, b, c, d].drop_last() =~= seq![a, b, c]);
    assert(seq![a, b, c].drop_last() =~= seq![a, b]);
    assert(seq![a, b].drop_last() =~= seq![a]);
    assert(seq![a].drop_last() =~= Seq::<ConfigOp>::empty());
    assert(config_after(cfg, Seq::<ConfigOp>::empty()) == cfg);
    let probed = config_after_op(config_after_op(cfg, a), b);
    assert(config_after(cfg, seq![a]) == config_after_op(cfg, a));
    assert(config_after(cfg, seq![a, b]) == probed);
    assert(config_after(cfg, seq![a, b, c]) == probed);
    assert(config_after(cfg, seq![a, b, c, d]) == probed);
    assert(config_after(cfg, seq![a, b, c, d, e]) == config_after_op(probed, e));
    assert(config_after_op(config_after_op(probed, e), f) =~= config_after_op(
        config_after_op(cfg, e),
        f,
    ));
}

/// Sizing leaves the configuration space as it found it: every register
/// that the script writes all ones to is written back to what it held
/// before the script goes on to the next, so that after the whole script
/// each dword holds what it held before.
pub proof fn lemma_sizing_restores(cfg: Seq<u32>, index: int)
    requires
        cfg.len() == 64,
        0 <= index,
    ensures
        config_after(cfg, sizing_script_from(cfg, index)) == cfg,
    decreases 7 - index,
{
    if index < 6 {
        let orig = bar_content(cfg, index);
        let low = bar_register_offset(index);
        let high = bar_register_offset(index + 1);
        match bar_kind(orig) {
            BarKind::Absent => {
                lemma_sizing_restores(cfg, index + 1);
            },
            BarKind::Memory64 => {
                let rest = sizing_script_from(cfg, index + 2);
                lemma_sizing_restores(cfg, index + 2);
                if index < 5 {
                    let orig_high = bar_content(cfg, index + 1);
                    let piece = seq![
                        ConfigOp::Write { offset: low, value: 0xFFFF_FFFF },
                        ConfigOp::Write { offset: high, value: 0xFFFF_FFFF },
                        ConfigOp::Read { offset: low },
                        ConfigOp::Read { offset: high },
                        ConfigOp::Write { offset: low, value: orig },
                        ConfigOp::Write { offset: high, value: orig_high },
                    ];
                    lemma_probe_and_restore_pair(cfg, low, high, 0xFFFF_FFFF, orig, orig_high);
                    assert(config_after(cfg, piece) =~= cfg);
                    lemma_config_after_concat(cfg, piece, rest);
                } else {
                    let piece = seq![
                        ConfigOp::Write { offset: low, value: 0xFFFF_FFFF },
                        ConfigOp::Read { offset: low },
                        ConfigOp::Write { offset: low, value: orig },
                    ];
                    lemma_probe_and_restore(cfg, low, 0xFFFF_FFFF, orig);
                    assert(config_after(cfg, piece) =~= cfg);
                    lemma_config_after_concat(cfg, piece, rest);
                }
            },
            _ => {
                let rest = sizing_script_from(cfg, index + 1);
                lemma_sizing_restores(cfg, index + 1);
                let piece = seq![
                    ConfigOp::Write { offset: low, value: 0xFFFF_FFFF },
                    ConfigOp::Read { offset: low },
                    ConfigOp::Write { offset: low, value: orig },
                ];
                lemma_probe_and_restore(cfg, low, 0xFFFF_FFFF, orig);
                assert(config_after(cfg, piece) =~= cfg);
                lemma_config_after_concat(cfg, piece, rest);
            },
        }
    }
}

/// The accesses that size a function's address registers, in the order in
/// which they are to be made. Every access is to one of the six address
/// registers.
pub fn sizing_script(cfg: &[u32; 64]) -> (script: Vec<ConfigOp>)
    ensures
        script@ == sizing_script_from(cfg@, 0),
        script@.len() <= MAX_SIZING_ACCESSES,
        forall|k: int| 0 <= k < script@.len() ==> touches_bar_register(#[trigger] script@[k]),
{
    let mut script: Vec<ConfigOp> = Vec::new();
    let mut index: usize = 0;
    while index < 6
        invariant
            index <= 7,
            script@ + sizing_script_from(cfg@, index as int) == sizing_script_from(cfg@, 0),
            script@.len() <= 3 * index,
            script@.len() <= MAX_SIZING_ACCESSES,
            forall|k: int| 0 <= k < script@.len() ==> touches_bar_register(#[trigger] script@[k]),
        decreases 7 - index,
    {
        let orig = cfg[4 + index];
        let low: u8 = (0x10 + 4 * index) as u8;
        let ghost before = script@;
        match classify_bar(orig) {
            BarKind::Absent => {
                index += 1;
            },
            BarKind::Memory64 => {
                if index < 5 {
                    let high: u8 = (0x14 + 4 * index) as u8;
                    let orig_high = cfg[5 + index];
                    script.push(ConfigOp::Write { offset: low, value: 0xFFFF_FFFF });
                    script.push(ConfigOp::Write { offset: high, value: 0xFFFF_FFFF });
                    script.push(ConfigOp::Read { offset: low });
                    script.push(ConfigOp::Read { offset: high });
                    script.push(ConfigOp::Write { offset: low, value: orig });
                    script.push(ConfigOp::Write { offset: high, value: orig_high });
                    proof {
                        let piece = seq![
                            ConfigOp::Write { offset: low, value: 0xFFFF_FFFF },
                            ConfigOp::Write { offset: high, value: 0xFFFF_FFFF },
                            ConfigOp::Read { offset: low },
                            ConfigOp::Read { offset: high },
                            ConfigOp::Write { offset: low, value: orig },
                            ConfigOp::Write { offset: high, value: orig_high },
                        ];
                        let rest = sizing_script_from(cfg@, index as int + 2);
                        assert(script@ =~= before + piece);
                        assert(script@ + rest =~= before + (piece + rest));
                    }
                } else {
                    script.push(ConfigOp::Write { offset: low, value: 0xFFFF_FFFF });
                    script.push(ConfigOp::Read { offset: low });
                    script.push(ConfigOp::Write { offset: low, value: orig });
                    proof {
                        let piece = seq![
                            ConfigOp::Write { offset: low, value: 0xFFFF_FFFF },
                            ConfigOp::Read { offset: low },
                            ConfigOp::Write { offset: low, value: orig },
                        ];
                        let rest = sizing_script_from(cfg@, index as int + 2);
                        assert(script@ =~= before + piece);
                        assert(script@ + rest =~= before + (piece + rest));
                    }
                }
                index += 2;
            },
            _ => {
                script.push(ConfigOp::Write { offset: low, value: 0xFFFF_FFFF });
                script.push(ConfigOp::Read { offset: low });
                script.push(ConfigOp::Write { offset: low, value: orig });
                proof {
                    let piece = seq![
                        ConfigOp::Write { offset: low, value: 0xFFFF_FFFF },
                        ConfigOp::Read { offset: low },
                        ConfigOp::Write { offset: low, value: orig },
                    ];
                    let rest = sizing_script_from(cfg@, index as int + 1);
                    assert(script@ =~= before + piece);
                    assert(script@ + rest =~= before + (piece + rest));
                }
                index += 1;
            },
        }
    }
    assert(script@ + Seq::<ConfigOp>::empty() =~= script@);
    script
}

/// What one entry of a capability list turned out to be: a capability to
/// record, or a resource of the function.
#[derive(Debug, Clone, Copy, PartialEq, Eq, Structural)]
pub enum CapabilityEntry {
    Capability(Capability),
    Resource(Resource),
}

/// Whether the status register says that the function has a capability
/// list: bit 4 of the upper word of the dword at offset 0x04.
pub open spec fn has_capability_list(cfg: Seq<u32>) -> bool {
    (((dword_at(cfg, 0x04) >> 16) & 0xFFFF) as u16) & 0x10 != 0
}

/// Where the capability list starts: the byte at offset 0x34.
pub open spec fn first_capability(cfg: Seq<u32>) -> u8 {
    (dword_at(cfg, 0x34) & 0xFF) as u8
}

/// The identifier of the capability at `ptr`: the low byte of its dword.
pub open spec fn capability_id(cfg: Seq<u32>, ptr: u8) -> u8 {
    (dword_at(cfg, ptr) & 0xFF) as u8
}

/// Where the entry behind the one at `ptr` lies: the second byte of its
/// dword.
pub open spec fn next_capability(cfg: Seq<u32>, ptr: u8) -> u8 {
    ((dword_at(cfg, ptr) >> 8) & 0xFF) as u8
}

/// The power-management capability at `ptr`: the capability word from the
/// upper half of its dword, and the control and status word four bytes on.
pub open spec fn power_management_at(cfg: Seq<u32>, ptr: u8) -> Capability {
    Capability::PowerManagement {
        pm_cap: ((dword_at(cfg, ptr) >> 16) & 0xFFFF) as u16,
        pmcsr: field16_at(cfg, offset_above(ptr, 4)),
    }
}

/// How many messages the control word of an MSI capability allows: two to
/// the power of its bits 3..1.
pub open spec fn msi_vectors(ctrl: u16) -> u8 {
    1u8 << (((ctrl >> 1) & 0x7) as u8)
}

/// The MSI capability at `ptr`. The control word lies two bytes on and the
/// low address dword four bytes on. With 64-bit addressing (bit 7 of the
/// control word) the high address dword lies eight and the data word twelve
/// bytes on; without it the data word lies eight bytes on. Bit 8 of the
/// control word says whether single messages can be masked.
pub open spec fn msi_at(cfg: Seq<u32>, ptr: u8) -> Resource {
    let ctrl = field16_at(cfg, offset_above(ptr, 2));
    let addr64 = ctrl & 0x80 != 0;
    let low = field32_at(cfg, offset_above(ptr, 4));
    let high = field32_at(cfg, offset_above(ptr, 8));
    Resource {
        kind: ResourceKind::Msi {
            vectors: msi_vectors(ctrl),
            addr64,
            maskable: ctrl & 0x100 != 0,
            msg_addr: if addr64 {
                ((high as u64) << 32) | (low as u64)
            } else {
                low as u64
            },
            msg_data: if addr64 {
                field16_at(cfg, offset_above(ptr, 12))
            } else {
                field16_at(cfg, offset_above(ptr, 8))
            },
        },
        addr: 0,
        len: 0,
    }
}

/// The number of entries in the table of the MSI-X capability at `ptr`: one
/// more than the low eleven bits of the word two bytes on.
pub open spec fn msix_table_size(cfg: Seq<u32>, ptr: u8) -> u16 {
    ((field16_at(cfg, offset_above(ptr, 2)) & 0x7FF) + 1) as u16
}

/// The MSI-X capability at `ptr`, before its table was looked at: the dword
/// four bytes on holds the number of the memory window in its low three
/// bits and the table's offset in the rest.
pub open spec fn msix_at(cfg: Seq<u32>, ptr: u8) -> Resource {
    let locator = field32_at(cfg, offset_above(ptr, 4));
    Resource {
        kind: ResourceKind::Msix {
            table_bar: (locator & 0x7) as u8,
            table_offset: locator & 0xFFFF_FFF8,
            table_size: msix_table_size(cfg, ptr),
            table_present: false,
            first_entry_masked: false,
        },
        addr: 0,
        len: 0,
    }
}

/// What the capability-list entry at `ptr` is, by its identifier: 0x01 is
/// power management, 0x05 MSI, 0x10 PCI Express, 0x11 MSI-X; of any other
/// the first two dwords are kept as they are.
pub open spec fn entry_at(cfg: Seq<u32>, ptr: u8) -> CapabilityEntry {
    let id = capability_id(cfg, ptr);
    if id == 0x01 {
        CapabilityEntry::Capability(power_management_at(cfg, ptr))
    } else if id == 0x05 {
        CapabilityEntry::Resource(msi_at(cfg, ptr))
    } else if id == 0x10 {
        CapabilityEntry::Capability(
            Capability::PciExpress {
                header: dword_at(cfg, ptr),
                device_cap: dword_at(cfg, offset_above(ptr, 4)),
            },
        )
    } else if id == 0x11 {
        CapabilityEntry::Resource(msix_at(cfg, ptr))
    } else {
        CapabilityEntry::Capability(
            Capability::Other {
                id,
                raw0: dword_at(cfg, ptr),
                raw1: dword_at(cfg, offset_above(ptr, 4)),
            },
        )
    }
}

/// The entries found by following the list from `ptr` for at most `hops`
/// entries; a zero pointer ends the list.
pub open spec fn walk_from(cfg: Seq<u32>, ptr: u8, hops: nat) -> Seq<CapabilityEntry>
    decreases hops,
{
    if ptr == 0 || hops == 0 {
        Seq::empty()
    } else {
        seq![entry_at(cfg, ptr)] + walk_from(cfg, next_capability(cfg, ptr), (hops - 1) as nat)
    }
}

/// The entries of a function's capability list, in list order: none where
/// the status register reports no list.
pub open spec fn capability_entries(cfg: Seq<u32>) -> Seq<CapabilityEntry> {
    if has_capability_list(cfg) {
        walk_from(cfg, first_capability(cfg), MAX_CAPABILITY_HOPS as nat)
    } else {
        Seq::empty()
    }
}

/// A walk never yields more entries than the hops it was given, whatever
/// the list looks like: a list that runs in a circle ends there too.
pub proof fn lemma_walk_is_bounded(cfg: Seq<u32>, ptr: u8, hops: nat)
    ensures
        walk_from(cfg, ptr, hops).len() <= hops,
    decreases hops,
{
    if ptr != 0 && hops != 0 {
        lemma_walk_is_bounded(cfg, next_capability(cfg, ptr), (hops - 1) as nat);
    }
}

/// The capability-list entry of `cfg` at `ptr`.
pub fn decode_capability(cfg: &[u32; 64], ptr: u8) -> (entry: CapabilityEntry)
    ensures
        entry == entry_at(cfg@, ptr),
{
    let head = config_dword(cfg, ptr);
    let id = (head & 0xFF) as u8;
    if id == 0x01 {
        CapabilityEntry::Capability(
            Capability::PowerManagement {
                pm_cap: ((head >> 16) & 0xFFFF) as u16,
                pmcsr: config_field16(cfg, offset_from(ptr, 4)),
            },
        )
    } else if id == 0x05 {
        let ctrl = config_field16(cfg, offset_from(ptr, 2));
        let addr64 = ctrl & 0x80 != 0;
        let low = config_field32(cfg, offset_from(ptr, 4));
        let width: u8 = ((ctrl >> 1) & 0x7) as u8;
        assert(((ctrl >> 1) & 0x7) as u8 <= 7) by (bit_vector);
        let msg_addr = if addr64 {
            let high = config_field32(cfg, offset_from(ptr, 8));
            ((high as u64) << 32) | (low as u64)
        } else {
            low as u64
        };
        let msg_data = if addr64 {
            config_field16(cfg, offset_from(ptr, 12))
        } else {
            config_field16(cfg, offset_from(ptr, 8))
        };
        CapabilityEntry::Resource(
            Resource {
                kind: ResourceKind::Msi {
                    vectors: 1u8 << width,
                    addr64,
                    maskable: ctrl & 0x100 != 0,
                    msg_addr,
                    msg_data,
                },
                addr: 0,
                len: 0,
            },
        )
    } else if id == 0x10 {
        CapabilityEntry::Capability(
            Capability::PciExpress {
                header: head,
                device_cap: config_dword(cfg, offset_from(ptr, 4)),
            },
        )
    } else if id == 0x11 {
        let locator = config_field32(cfg, offset_from(ptr, 4));
        let size_word = config_field16(cfg, offset_from(ptr, 2));
        let size_field = size_word & 0x7FF;
        assert(size_field <= 0x7FF) by (bit_vector)
            requires
                size_field == size_word & 0x7FF,
        ;
        CapabilityEntry::Resource(
            Resource {
                kind: ResourceKind::Msix {
                    table_bar: (locator & 0x7) as u8,
                    table_offset: locator & 0xFFFF_FFF8,
                    table_size: size_field + 1,
                    table_present: false,
                    first_entry_masked: false,
                },
                addr: 0,
                len: 0,
            },
        )
    } else {
        CapabilityEntry::Capability(
            Capability::Other { id, raw0: head, raw1: config_dword(cfg, offset_from(ptr, 4)) },
        )
    }
}

/// The entries of a function's capability list, in list order. The walk
/// follows at most [`MAX_CAPABILITY_HOPS`] entries.
pub fn walk_capabilities(cfg: &[u32; 64]) -> (found: Vec<CapabilityEntry>)
    ensures
        found@ == capability_entries(cfg@),
        found@.len() <= MAX_CAPABILITY_HOPS,
{
    let mut found: Vec<CapabilityEntry> = Vec::new();
    let status_word = ((config_dword(cfg, 0x04) >> 16) & 0xFFFF) as u16;
    if status_word & 0x10 != 0 {
        let mut ptr: u8 = (config_dword(cfg, 0x34) & 0xFF) as u8;
        let mut searched: u8 = 0;
        while ptr != 0 && searched < MAX_CAPABILITY_HOPS
            invariant
                searched <= MAX_CAPABILITY_HOPS,
                found@.len() == searched,
                found@ + walk_from(cfg@, ptr, (MAX_CAPABILITY_HOPS - searched) as nat)
                    == capability_entries(cfg@),
            decreases MAX_CAPABILITY_HOPS - searched,
        {
            let entry = decode_capability(cfg, ptr);
            let next = ((config_dword(cfg, ptr) >> 8) & 0xFF) as u8;
            proof {
                let rest = walk_from(cfg@, next, (MAX_CAPABILITY_HOPS - searched - 1) as nat);
                assert(found@.push(entry) + rest =~= found@ + (seq![entry] + rest));
            }
            found.push(entry);
            ptr = next;
            searched += 1;
        }
        assert(found@ + Seq::<CapabilityEntry>::empty() =~= found@);
    }
    found
}

/// Whether `r` is a window of memory.
pub open spec fn is_memory_window(r: Resource) -> bool {
    r.kind is MemoryMapped
}

/// The windows of memory among `resources`, in order.
pub open spec fn memory_windows(resources: Seq<Resource>) -> Seq<Resource> {
    resources.filter(|r: Resource| is_memory_window(r))
}

/// Where the vector-control dword of the first entry of an MSI-X table
/// lies: twelve bytes into the table, which lies `table_offset` into the
/// window at `base`, seen through the mapping of physical memory at
/// `phys_offset`. The sum wraps at 64 bits.
pub open spec fn vector_control_address(phys_offset: u64, base: u64, table_offset: u32) -> u64 {
    ((phys_offset + base + table_offset + 12) % 0x1_0000_0000_0000_0000) as u64
}

/// The address to read to learn whether the first entry of the table of
/// `entry` is masked. There is one only for an MSI-X entry whose window
/// number names one of the function's memory windows, and only where
/// physical memory is mapped at a non-zero offset.
pub open spec fn msix_probe_address(
    entry: CapabilityEntry,
    bars: Seq<Resource>,
    phys_offset: u64,
) -> Option<u64> {
    match entry {
        CapabilityEntry::Resource(r) => match r.kind {
            ResourceKind::Msix { table_bar, table_offset, .. } => if phys_offset != 0 && table_bar
                < memory_windows(bars).len() {
                Some(
                    vector_control_address(
                        phys_offset,
                        memory_windows(bars)[table_bar as int].addr,
                        table_offset,
                    ),
                )
            } else {
                None
            },
            _ => None,
        },
        _ => None,
    }
}

/// `entry` once the vector-control dword of its table's first entry was
/// read as `vector_control`: the table is there, and bit 0 of the dword
/// says whether the entry is masked. Entries other than MSI-X stay as they
/// are.
pub open spec fn with_vector_control(entry: CapabilityEntry, vector_control: u32) -> CapabilityEntry {
    match entry {
        CapabilityEntry::Resource(r) => match r.kind {
            ResourceKind::Msix { table_bar, table_offset, table_size, .. } => {
                CapabilityEntry::Resource(
                    Resource {
                        kind: ResourceKind::Msix {
                            table_bar,
                            table_offset,
                            table_size,
                            table_present: true,
                            first_entry_masked: vector_control & 0x1 != 0,
                        },
                        addr: r.addr,
                        len: r.len,
                    },
                )
            },
            _ => entry,
        },
        _ => entry,
    }
}

/// The `n`-th window of memory among `bars`, counted from zero.
pub fn nth_memory_window(bars: &Vec<Resource>, n: u8) -> (found: Option<Resource>)
    ensures
        found == if n < memory_windows(bars@).len() {
            Some(memory_windows(bars@)[n as int])
        } else {
            None
        },
{
    let mut seen: usize = 0;
    let mut i: usize = 0;
    while i < bars.len()
        invariant
            i <= bars.len(),
            seen == memory_windows(bars@.take(i as int)).len(),
            seen <= n,
        decreases bars.len() - i,
    {
        let r = bars[i];
        proof {
            let keep = |r: Resource| is_memory_window(r);
            let before = bars@.take(i as int);
            assert(bars@.take(i as int + 1) =~= before.push(bars@[i as int]));
            crate::driver_framework::device::lemma_filter_push(before, bars@[i as int], keep);
            assert(bars@ =~= bars@.take(i as int + 1) + bars@.skip(i as int + 1));
            Seq::filter_distributes_over_add(
                bars@.take(i as int + 1),
                bars@.skip(i as int + 1),
                keep,
            );
        }
        match r.kind {
            ResourceKind::MemoryMapped => {
                if seen == n as usize {
                    return Some(r);
                }
                seen += 1;
            },
            _ => {},
        }
        i += 1;
    }
    assert(bars@.take(i as int) =~= bars@);
    None
}

/// The address to read to learn whether the first entry of the table of
/// `entry` is masked, if there is one.
pub fn probe_address(entry: &CapabilityEntry, bars: &Vec<Resource>, phys_offset: u64) -> (addr:
    Option<u64>)
    ensures
        addr == msix_probe_address(*entry, bars@, phys_offset),
{
    match entry {
        CapabilityEntry::Resource(r) => match r.kind {
            ResourceKind::Msix { table_bar, table_offset, .. } => {
                if phys_offset == 0 {
                    return None;
                }
                match nth_memory_window(bars, table_bar) {
                    Some(window) => {
                        let table = window.addr.wrapping_add(table_offset as u64);
                        Some(phys_offset.wrapping_add(table).wrapping_add(12))
                    },
                    None => None,
                }
            },
            _ => None,
        },
        _ => None,
    }
}

/// `entry` once the vector-control dword of its table's first entry was
/// read as `vector_control`.
pub fn apply_vector_control(entry: CapabilityEntry, vector_control: u32) -> (patched:
    CapabilityEntry)
    ensures
        patched == with_vector_control(entry, vector_control),
{
    match entry {
        CapabilityEntry::Resource(r) => match r.kind {
            ResourceKind::Msix { table_bar, table_offset, table_size, .. } => {
                CapabilityEntry::Resource(
                    Resource {
                        kind: ResourceKind::Msix {
                            table_bar,
                            table_offset,
                            table_size,
                            table_present: true,
                            first_entry_masked: vector_control & 0x1 != 0,
                        },
                        addr: r.addr,
                        len: r.len,
                    },
                )
            },
            _ => entry,
        },
        _ => entry,
    }
}

/// The interrupt line of a function: the low byte of the dword at offset
/// 0x3C.
pub open spec fn interrupt_line(cfg: Seq<u32>) -> u8 {
    (dword_at(cfg, 0x3C) & 0xFF) as u8
}

/// The interrupt resource of a function: one where its interrupt line is
/// neither 0 nor 0xFF, none otherwise.
pub open spec fn interrupt_resources(cfg: Seq<u32>) -> Seq<Resource> {
    if interrupt_line(cfg) != 0 && interrupt_line(cfg) != 0xFF {
        seq![Resource { kind: ResourceKind::Interrupt(interrupt_line(cfg)), addr: 0, len: 0 }]
    } else {
        Seq::empty()
    }
}

/// The resources among `entries`, in order.
pub open spec fn resources_of(entries: Seq<CapabilityEntry>) -> Seq<Resource>
    decreases entries.len(),
{
    if entries.len() == 0 {
        Seq::empty()
    } else {
        match entries.last() {
            CapabilityEntry::Resource(r) => resources_of(entries.drop_last()).push(r),
            CapabilityEntry::Capability(_) => resources_of(entries.drop_last()),
        }
    }
}

/// The capabilities among `entries`, in order.
pub open spec fn capabilities_of(entries: Seq<CapabilityEntry>) -> Seq<Capability>
    decreases entries.len(),
{
    if entries.len() == 0 {
        Seq::empty()
    } else {
        match entries.last() {
            CapabilityEntry::Capability(c) => capabilities_of(entries.drop_last()).push(c),
            CapabilityEntry::Resource(_) => capabilities_of(entries.drop_last()),
        }
    }
}

/// Among some entries there are no more capabilities, and no more
/// resources, than entries.
pub proof fn lemma_entries_split(entries: Seq<CapabilityEntry>)
    ensures
        capabilities_of(entries).len() + resources_of(entries).len() == entries.len(),
    decreases entries.len(),
{
    if entries.len() > 0 {
        lemma_entries_split(entries.drop_last());
    }
}

/// However the capability list of a function looks, what is recorded of it
/// stays within the cap on the walk: capabilities and resources together
/// are at most [`MAX_CAPABILITY_HOPS`].
pub proof fn lemma_capabilities_bounded(cfg: Seq<u32>)
    ensures
        capabilities_of(capability_entries(cfg)).len() + resources_of(
            capability_entries(cfg),
        ).len() <= MAX_CAPABILITY_HOPS,
{
    lemma_entries_split(capability_entries(cfg));
    if has_capability_list(cfg) {
        lemma_walk_is_bounded(cfg, first_capability(cfg), MAX_CAPABILITY_HOPS as nat);
    }
}

/// How a function is described: "PCI bb:ss.f" with bus and slot as two
/// hexadecimal digits each and the function as one.
pub open spec fn pci_description(bus: u8, slot: u8, func: u8) -> Seq<char> {
    "PCI "@ + hex_byte(bus) + ":"@ + hex_byte(slot) + "."@ + hex_digits(func as nat)
}

/// What is registered for the function `func` of slot `slot` on bus `bus`
/// with configuration space `cfg`, address windows `bars` and capability
/// list `entries`. Vendor and device number come from the first dword;
/// class, subclass and programming interface from the three upper bytes of
/// the dword at offset 8. The resources are the address windows, then the
/// interrupt line, then the resources of the capability list.
pub open spec fn function_info(
    bus: u8,
    slot: u8,
    func: u8,
    cfg: Seq<u32>,
    bars: Seq<Resource>,
    entries: Seq<CapabilityEntry>,
) -> crate::driver_framework::device::DeviceInfoView {
    crate::driver_framework::device::DeviceInfoView {
        vendor_id: vendor_of(cfg[0]),
        device_id: device_of(cfg[0]),
        class: ((cfg[2] >> 24) & 0xFF) as u8,
        subclass: ((cfg[2] >> 16) & 0xFF) as u8,
        prog_if: ((cfg[2] >> 8) & 0xFF) as u8,
        resources: bars + interrupt_resources(cfg) + resources_of(entries),
        capabilities: capabilities_of(entries),
        description: pci_description(bus, slot, func),
    }
}

/// What is registered for a function, from the copy of its configuration
/// space, its address windows and the entries of its capability list.
pub fn describe_function(
    bus: u8,
    slot: u8,
    func: u8,
    cfg: &[u32; 64],
    bars: &Vec<Resource>,
    entries: &Vec<CapabilityEntry>,
) -> (info: DeviceInfo)
    ensures
        info@ == function_info(bus, slot, func, cfg@, bars@, entries@),
{
    let mut resources: Vec<Resource> = bars.clone();
    let line = (config_dword(cfg, 0x3C) & 0xFF) as u8;
    if line != 0 && line != 0xFF {
        resources.push(Resource { kind: ResourceKind::Interrupt(line), addr: 0, len: 0 });
    }
    let ghost base = resources@;
    assert(base =~= bars@ + interrupt_resources(cfg@));
    let mut capabilities: Vec<Capability> = Vec::new();
    let mut i: usize = 0;
    while i < entries.len()
        invariant
            i <= entries.len(),
            resources@ == base + resources_of(entries@.take(i as int)),
            capabilities@ == capabilities_of(entries@.take(i as int)),
        decreases entries.len() - i,
    {
        proof {
            assert(entries@.take(i as int + 1).drop_last() =~= entries@.take(i as int));
            let more = resources_of(entries@.take(i as int));
            match entries@[i as int] {
                CapabilityEntry::Resource(r) => {
                    assert((base + more).push(r) =~= base + more.push(r));
                },
                _ => {},
            }
        }
        match entries[i] {
            CapabilityEntry::Resource(r) => {
                resources.push(r);
            },
            CapabilityEntry::Capability(c) => {
                capabilities.push(c);
            },
        }
        i += 1;
    }
    assert(entries@.take(i as int) =~= entries@);
    let mut description = String::from_str("PCI ");
    push_hex_byte(&mut description, bus);
    description.append(":");
    push_hex_byte(&mut description, slot);
    description.append(".");
    push_hex(&mut description, func as u64);
    let head = config_dword(cfg, 0x00);
    let class_reg = config_dword(cfg, 0x08);
    DeviceInfo {
        vendor_id: (head & 0xFFFF) as u16,
        device_id: ((head >> 16) & 0xFFFF) as u16,
        class: ((class_reg >> 24) & 0xFF) as u8,
        subclass: ((class_reg >> 16) & 0xFF) as u8,
        prog_if: ((class_reg >> 8) & 0xFF) as u8,
        resources,
        capabilities,
        description,
    }
}

/// What the scanner asks its caller to do next.
#[derive(Debug, Clone, Copy, PartialEq, Eq, Structural)]
pub enum PciAction {
    /// Read the configuration dword at `offset` of the function and hand
    /// it to the next step.
    ReadConfig { bus: u8, slot: u8, func: u8, offset: u8 },
    /// Write `value` to the configuration dword at `offset` of the
    /// function.
    WriteConfig { bus: u8, slot: u8, func: u8, offset: u8, value: u32 },
    /// Read the dword at the address `addr` and hand it to the next step.
    ReadMemory { addr: u64 },
    /// The scan is over.
    Done,
}

/// Where a scan stands: what the reply handed to the next step is taken
/// to be.
#[derive(Debug, Clone, Copy, PartialEq, Eq, Structural)]
pub enum ScanStage {
    /// Nothing was asked for yet.
    Start,
    /// The first dword of a slot's first function.
    SlotVendor,
    /// The dword at offset 0x0C of a slot's first function.
    SlotHeader,
    /// The first dword of the function `func`.
    FunctionVendor,
    /// The dword number `cursor` of the function's configuration space.
    Snapshot,
    /// The answer to access number `cursor` of the sizing script.
    Sizing,
    /// The vector-control dword for capability-list entry number `cursor`.
    TableProbe,
    /// Nothing: the scan is over.
    Done,
}

/// A scan of the PCI bus in progress. The scan visits every slot of every
/// bus in rising order, and in each slot that answers the functions its
/// header type allows. Of each function that answers it copies the
/// configuration space, sizes the address registers, looks at the tables
/// of its MSI-X capabilities and registers what it found.
pub struct PciScanner {
    /// Where physical memory is mapped; zero where MSI-X tables are not to
    /// be looked at.
    pub phys_offset: u64,
    pub stage: ScanStage,
    pub bus: u8,
    pub slot: u8,
    pub func: u8,
    /// How many functions the current slot is probed for.
    pub functions: u8,
    pub cursor: usize,
    /// The configuration space of the current function, as far as read.
    pub config: [u32; 64],
    /// The accesses that size the current function's address registers.
    pub script: Vec<ConfigOp>,
    /// What each address register read back while it held all ones. The
    /// last of the seven places is never used.
    pub readback: [u32; 7],
    /// The address windows of the current function.
    pub bars: Vec<Resource>,
    /// The capability list of the current function.
    pub entries: Vec<CapabilityEntry>,
}

/// The mathematical content of a [`PciScanner`].
pub struct ScannerView {
    pub phys_offset: u64,
    pub stage: ScanStage,
    pub bus: u8,
    pub slot: u8,
    pub func: u8,
    pub functions: u8,
    pub cursor: int,
    pub config: Seq<u32>,
    pub script: Seq<ConfigOp>,
    pub readback: Seq<u32>,
    pub bars: Seq<Resource>,
    pub entries: Seq<CapabilityEntry>,
}

/// What one step of a scan comes to.
pub struct StepResult {
    /// The scan after the step.
    pub state: ScannerView,
    /// What the caller is to do next.
    pub action: PciAction,
    /// What the step registered, if anything.
    pub registered: Option<crate::driver_framework::device::DeviceInfoView>,
}

impl View for PciScanner {
    type V = ScannerView;

    open spec fn view(&self) -> ScannerView {
        ScannerView {
            phys_offset: self.phys_offset,
            stage: self.stage,
            bus: self.bus,
            slot: self.slot,
            func: self.func,
            functions: self.functions,
            cursor: self.cursor as int,
            config: self.config@,
            script: self.script@,
            readback: self.readback@,
            bars: self.bars@,
            entries: self.entries@,
        }
    }
}

/// The scan turns to the slot `slot` of bus `bus` and asks for the first
/// dword of its first function.
pub open spec fn at_slot(s: ScannerView, bus: u8, slot: u8) -> StepResult {
    StepResult {
        state: ScannerView { stage: ScanStage::SlotVendor, bus, slot, func: 0, ..s },
        action: PciAction::ReadConfig { bus, slot, func: 0, offset: 0 },
        registered: None,
    }
}

/// The scan is over.
pub open spec fn finished(s: ScannerView) -> StepResult {
    StepResult {
        state: ScannerView { stage: ScanStage::Done, ..s },
        action: PciAction::Done,
        registered: None,
    }
}

/// The scan leaves its slot: for the next slot of the bus, behind slot 31
/// for the first slot of the next bus, and behind bus 255 it is over.
pub open spec fn after_slot(s: ScannerView) -> StepResult {
    if s.slot < 31 {
        at_slot(s, s.bus, (s.slot + 1) as u8)
    } else if s.bus < 255 {
        at_slot(s, (s.bus + 1) as u8, 0)
    } else {
        finished(s)
    }
}

/// The scan leaves its function: for the next function that the slot is
/// probed for, or else for the next slot.
pub open spec fn after_function(s: ScannerView) -> StepResult {
    if s.func + 1 < s.functions {
        StepResult {
            state: ScannerView {
                stage: ScanStage::FunctionVendor,
                func: (s.func + 1) as u8,
                ..s
            },
            action: PciAction::ReadConfig {
                bus: s.bus,
                slot: s.slot,
                func: (s.func + 1) as u8,
                offset: 0,
            },
            registered: None,
        }
    } else {
        after_slot(s)
    }
}

/// The scan registers the current function and leaves it.
pub open spec fn registering(s: ScannerView) -> StepResult {
    StepResult {
        registered: Some(function_info(s.bus, s.slot, s.func, s.config, s.bars, s.entries)),
        ..after_function(s)
    }
}

/// The scan looks for the next capability-list entry, from number
/// `s.cursor` on, whose table can be looked at, and asks for its
/// vector-control dword; where there is none left, the function is
/// registered.
pub open spec fn probing_from(s: ScannerView) -> StepResult
    decreases s.entries.len() - s.cursor,
{
    if s.cursor < 0 || s.cursor >= s.entries.len() {
        registering(s)
    } else {
        match msix_probe_address(s.entries[s.cursor], s.bars, s.phys_offset) {
            Some(addr) => StepResult {
                state: ScannerView { stage: ScanStage::TableProbe, ..s },
                action: PciAction::ReadMemory { addr },
                registered: None,
            },
            None => probing_from(ScannerView { cursor: s.cursor + 1, ..s }),
        }
    }
}

/// The access `op` to the configuration space of the current function.
pub open spec fn access(s: ScannerView, op: ConfigOp) -> PciAction {
    match op {
        ConfigOp::Read { offset } => PciAction::ReadConfig {
            bus: s.bus,
            slot: s.slot,
            func: s.func,
            offset,
        },
        ConfigOp::Write { offset, value } => PciAction::WriteConfig {
            bus: s.bus,
            slot: s.slot,
            func: s.func,
            offset,
            value,
        },
    }
}

/// The scan asks for access number `s.cursor` of the sizing script; once
/// the script is through, the address windows are computed from what was
/// read back, the capability list is walked in the copy of the
/// configuration space, and the scan turns to the MSI-X tables.
pub open spec fn sizing_from(s: ScannerView) -> StepResult {
    if 0 <= s.cursor < s.script.len() {
        StepResult {
            state: ScannerView { stage: ScanStage::Sizing, ..s },
            action: access(s, s.script[s.cursor]),
            registered: None,
        }
    } else {
        probing_from(
            ScannerView {
                bars: bars_from(s.config, s.readback, 0),
                entries: capability_entries(s.config),
                cursor: 0,
                ..s
            },
        )
    }
}

/// What was read back so far, once access `op` was answered with `reply`:
/// the answer to a read is kept under the number of the register read.
pub open spec fn readback_after(readback: Seq<u32>, op: ConfigOp, reply: u32) -> Seq<u32> {
    match op {
        ConfigOp::Read { offset } => readback.update((offset - 0x10) / 4, reply),
        ConfigOp::Write { .. } => readback,
    }
}

/// One step of a scan: what the scan `s` does with the reply to what it
/// asked for last.
pub open spec fn next_step(s: ScannerView, reply: u32) -> StepResult {
    match s.stage {
        ScanStage::Start => at_slot(s, 0, 0),
        ScanStage::SlotVendor => if is_present(reply) {
            StepResult {
                state: ScannerView { stage: ScanStage::SlotHeader, ..s },
                action: PciAction::ReadConfig { bus: s.bus, slot: s.slot, func: 0, offset: 0x0C },
                registered: None,
            }
        } else {
            after_slot(s)
        },
        ScanStage::SlotHeader => StepResult {
            state: ScannerView {
                stage: ScanStage::FunctionVendor,
                functions: functions_in_slot(reply),
                func: 0,
                ..s
            },
            action: PciAction::ReadConfig { bus: s.bus, slot: s.slot, func: 0, offset: 0 },
            registered: None,
        },
        ScanStage::FunctionVendor => if is_present(reply) {
            StepResult {
                state: ScannerView {
                    stage: ScanStage::Snapshot,
                    config: s.config.update(0, reply),
                    cursor: 1,
                    ..s
                },
                action: PciAction::ReadConfig {
                    bus: s.bus,
                    slot: s.slot,
                    func: s.func,
                    offset: 4,
                },
                registered: None,
            }
        } else {
            after_function(s)
        },
        ScanStage::Snapshot => {
            let config = s.config.update(s.cursor, reply);
            if s.cursor + 1 < 64 {
                StepResult {
                    state: ScannerView { config, cursor: s.cursor + 1, ..s },
                    action: PciAction::ReadConfig {
                        bus: s.bus,
                        slot: s.slot,
                        func: s.func,
                        offset: (4 * (s.cursor + 1)) as u8,
                    },
                    registered: None,
                }
            } else {
                sizing_from(
                    ScannerView { config, script: sizing_script_from(config, 0), cursor: 0, ..s },
                )
            }
        },
        ScanStage::Sizing => sizing_from(
            ScannerView {
                readback: readback_after(s.readback, s.script[s.cursor], reply),
                cursor: s.cursor + 1,
                ..s
            },
        ),
        ScanStage::TableProbe => probing_from(
            ScannerView {
                entries: s.entries.update(
                    s.cursor,
                    with_vector_control(s.entries[s.cursor], reply),
                ),
                cursor: s.cursor + 1,
                ..s
            },
        ),
        ScanStage::Done => finished(s),
    }
}

/// How a step changes the registry: not at all, or by one device without a
/// driver at its end.
pub open spec fn registry_after(
    before: Seq<crate::driver_framework::manager::RegistryEntry>,
    after: Seq<crate::driver_framework::manager::RegistryEntry>,
    registered: Option<crate::driver_framework::device::DeviceInfoView>,
) -> bool {
    match registered {
        None => after == before,
        Some(info) => {
            &&& after.len() == before.len() + 1
            &&& after.take(before.len() as int) == before
            &&& after.last().device.id == before.len() + 1
            &&& after.last().device.info@ == info
            &&& after.last().driver is None
        },
    }
}

/// Whether the scan is in a state that its own steps can lead to: the
/// position is on the bus, the function is one that the slot is probed
/// for, and the cursor points into what the stage works on.
pub open spec fn scan_wf(s: ScannerView) -> bool {
    &&& s.config.len() == 64
    &&& s.readback.len() == 7
    &&& s.slot < 32
    &&& s.func < 8
    &&& s.functions <= 8
    &&& (s.stage is FunctionVendor || s.stage is Snapshot || s.stage is Sizing
        || s.stage is TableProbe) ==> s.func < s.functions
    &&& s.stage is Snapshot ==> 1 <= s.cursor < 64
    &&& s.stage is Sizing ==> 0 <= s.cursor < s.script.len() <= MAX_SIZING_ACCESSES && forall|k: int|
        0 <= k < s.script.len() ==> touches_bar_register(#[trigger] s.script[k])
    &&& s.stage is TableProbe ==> 0 <= s.cursor < s.entries.len() <= MAX_CAPABILITY_HOPS
}

/// How many steps one function can take at most, from the step that takes
/// its first dword: 64 for its configuration space, 18 for the sizing
/// script, and one for each entry that its capability list can have, and
/// one to spare.
pub const FUNCTION_BUDGET: u32 = 131;

/// How many steps one slot can take at most, from the step that takes the
/// first dword of its first function: two for the slot itself, and those
/// of eight functions.
pub const SLOT_BUDGET: u32 = 1050;

/// How many steps the scan can take at most before it leaves its
/// function.
pub open spec fn steps_in_function(s: ScannerView) -> int {
    match s.stage {
        ScanStage::FunctionVendor => FUNCTION_BUDGET - 1,
        ScanStage::Snapshot => (64 - s.cursor) + MAX_SIZING_ACCESSES + MAX_CAPABILITY_HOPS,
        ScanStage::Sizing => (s.script.len() - s.cursor) + MAX_CAPABILITY_HOPS,
        ScanStage::TableProbe => s.entries.len() - s.cursor,
        _ => 0,
    }
}

/// How many steps the scan can take at most before it leaves its slot.
pub open spec fn steps_in_slot(s: ScannerView) -> int {
    match s.stage {
        ScanStage::SlotVendor => SLOT_BUDGET - 1,
        ScanStage::SlotHeader => SLOT_BUDGET - 2,
        ScanStage::Start => 0,
        ScanStage::Done => 0,
        _ => (s.functions - s.func - 1) * FUNCTION_BUDGET + steps_in_function(s),
    }
}

/// How many steps the scan can take at most before it is over.
pub open spec fn steps_left(s: ScannerView) -> int {
    match s.stage {
        ScanStage::Start => 8192 * SLOT_BUDGET + 1,
        ScanStage::Done => 0,
        _ => (8191 - (s.bus * 32 + s.slot)) * SLOT_BUDGET + steps_in_slot(s),
    }
}

/// Leaving a slot takes the scan on.
pub proof fn lemma_after_slot(s: ScannerView)
    requires
        s.slot < 32,
        s.func < 8,
        s.functions <= 8,
        s.config.len() == 64,
        s.readback.len() == 7,
    ensures
        scan_wf(after_slot(s).state),
        0 <= steps_left(after_slot(s).state) <= (8191 - (s.bus * 32 + s.slot)) * SLOT_BUDGET,
{
}

/// Leaving a function takes the scan on.
pub proof fn lemma_after_function(s: ScannerView)
    requires
        s.slot < 32,
        s.func < s.functions <= 8,
        s.config.len() == 64,
        s.readback.len() == 7,
    ensures
        scan_wf(after_function(s).state),
        0 <= steps_left(after_function(s).state) <= (8191 - (s.bus * 32 + s.slot)) * SLOT_BUDGET
            + (s.functions - s.func - 1) * FUNCTION_BUDGET,
{
    lemma_after_slot(s);
}

/// Looking for the next table to look at takes no more steps than there
/// are entries left.
pub proof fn lemma_probing(s: ScannerView)
    requires
        s.slot < 32,
        s.func < s.functions <= 8,
        s.config.len() == 64,
        s.readback.len() == 7,
        0 <= s.cursor <= s.entries.len() <= MAX_CAPABILITY_HOPS,
    ensures
        scan_wf(probing_from(s).state),
        0 <= steps_left(probing_from(s).state) <= (8191 - (s.bus * 32 + s.slot)) * SLOT_BUDGET + (
        s.functions - s.func - 1) * FUNCTION_BUDGET + (s.entries.len() - s.cursor),
    decreases s.entries.len() - s.cursor,
{
    if s.cursor >= s.entries.len() {
        lemma_after_function(s);
    } else {
        match msix_probe_address(s.entries[s.cursor], s.bars, s.phys_offset) {
            Some(_) => {},
            None => {
                lemma_probing(ScannerView { cursor: s.cursor + 1, ..s });
            },
        }
    }
}

/// The scan comes to an end: every step before the end leaves fewer steps
/// to take, whatever the hardware answers, and leads to a state that the
/// next step can start from.
pub proof fn lemma_scan_progress(s: ScannerView, reply: u32)
    requires
        scan_wf(s),
        s.stage != ScanStage::Done,
    ensures
        scan_wf(next_step(s, reply).state),
        0 <= steps_left(next_step(s, reply).state) < steps_left(s),
{
    match s.stage {
        ScanStage::Start => {},
        ScanStage::SlotVendor => {
            lemma_after_slot(s);
        },
        ScanStage::SlotHeader => {},
        ScanStage::FunctionVendor => {
            lemma_after_function(s);
        },
        ScanStage::Snapshot => {
            if s.cursor + 1 >= 64 {
                let config = s.config.update(s.cursor, reply);
                let t = ScannerView { config, script: sizing_script_from(config, 0), cursor: 0, ..s };
                lemma_sizing_script(config, 0);
                lemma_sizing(t);
            }
        },
        ScanStage::Sizing => {
            let t = ScannerView {
                readback: readback_after(s.readback, s.script[s.cursor], reply),
                cursor: s.cursor + 1,
                ..s
            };
            assert(touches_bar_register(s.script[s.cursor]));
            lemma_sizing(t);
        },
        ScanStage::TableProbe => {
            lemma_probing(
                ScannerView {
                    entries: s.entries.update(
                        s.cursor,
                        with_vector_control(s.entries[s.cursor], reply),
                    ),
                    cursor: s.cursor + 1,
                    ..s
                },
            );
        },
        ScanStage::Done => {},
    }
}

/// Going on with the sizing script, or on to the tables once it is
/// through, takes no more steps than the script has accesses left and the
/// capability list can have entries.
pub proof fn lemma_sizing(s: ScannerView)
    requires
        s.slot < 32,
        s.func < s.functions <= 8,
        s.config.len() == 64,
        s.readback.len() == 7,
        0 <= s.cursor <= s.script.len() <= MAX_SIZING_ACCESSES,
        forall|k: int| 0 <= k < s.script.len() ==> touches_bar_register(#[trigger] s.script[k]),
    ensures
        scan_wf(sizing_from(s).state),
        0 <= steps_left(sizing_from(s).state) <= (8191 - (s.bus * 32 + s.slot)) * SLOT_BUDGET + (
        s.functions - s.func - 1) * FUNCTION_BUDGET + (s.script.len() - s.cursor)
            + MAX_CAPABILITY_HOPS,
{
    if !(0 <= s.cursor < s.script.len()) {
        if has_capability_list(s.config) {
            lemma_walk_is_bounded(s.config, first_capability(s.config), MAX_CAPABILITY_HOPS as nat);
        }
        lemma_probing(
            ScannerView {
                bars: bars_from(s.config, s.readback, 0),
                entries: capability_entries(s.config),
                cursor: 0,
                ..s
            },
        );
    }
}

/// The sizing script of a function has at most three accesses for each of
/// the address registers that are left, and touches no other registers
/// than the six.
pub proof fn lemma_sizing_script(cfg: Seq<u32>, index: int)
    requires
        0 <= index <= 8,
    ensures
        index <= 6 ==> sizing_script_from(cfg, index).len() <= 3 * (6 - index),
        index > 6 ==> sizing_script_from(cfg, index).len() == 0,
        forall|k: int|
            0 <= k < sizing_script_from(cfg, index).len() ==> touches_bar_register(
                #[trigger] sizing_script_from(cfg, index)[k],
            ),
    decreases 8 - index,
{
    if index < 6 {
        let orig = bar_content(cfg, index);
        let low = bar_register_offset(index);
        let high = bar_register_offset(index + 1);
        lemma_sizing_script(cfg, index + 1);
        lemma_sizing_script(cfg, index + 2);
        let whole = sizing_script_from(cfg, index);
        match bar_kind(orig) {
            BarKind::Absent => {},
            BarKind::Memory64 => {
                let rest = sizing_script_from(cfg, index + 2);
                if index < 5 {
                    let piece = seq![
                        ConfigOp::Write { offset: low, value: 0xFFFF_FFFF },
                        ConfigOp::Write { offset: high, value: 0xFFFF_FFFF },
                        ConfigOp::Read { offset: low },
                        ConfigOp::Read { offset: high },
                        ConfigOp::Write { offset: low, value: orig },
                        ConfigOp::Write { offset: high, value: bar_content(cfg, index + 1) },
                    ];
                    assert(whole == piece + rest);
                    assert forall|k: int| 0 <= k < whole.len() implies touches_bar_register(
                        #[trigger] whole[k],
                    ) by {
                        if k >= 6 {
                            assert(whole[k] == rest[k - 6]);
                        }
                    }
                } else {
                    let piece = seq![
                        ConfigOp::Write { offset: low, value: 0xFFFF_FFFF },
                        ConfigOp::Read { offset: low },
                        ConfigOp::Write { offset: low, value: orig },
                    ];
                    assert(whole == piece + rest);
                    assert forall|k: int| 0 <= k < whole.len() implies touches_bar_register(
                        #[trigger] whole[k],
                    ) by {
                        if k >= 3 {
                            assert(whole[k] == rest[k - 3]);
                        }
                    }
                }
            },
            _ => {
                let piece = seq![
                    ConfigOp::Write { offset: low, value: 0xFFFF_FFFF },
                    ConfigOp::Read { offset: low },
                    ConfigOp::Write { offset: low, value: orig },
                ];
                let rest = sizing_script_from(cfg, index + 1);
                assert(whole == piece + rest);
                assert forall|k: int| 0 <= k < whole.len() implies touches_bar_register(
                    #[trigger] whole[k],
                ) by {
                    if k >= 3 {
                        assert(whole[k] == rest[k - 3]);
                    }
                }
            },
        }
    }
}

/// Whether a step that was to come to `expected` did: the scan and the
/// action are as expected, and the registry changed as expected.
pub open spec fn step_matches(
    expected: StepResult,
    state: ScannerView,
    action: PciAction,
    registry_before: Seq<crate::driver_framework::manager::RegistryEntry>,
    registry_now: Seq<crate::driver_framework::manager::RegistryEntry>,
) -> bool {
    &&& state == expected.state
    &&& action == expected.action
    &&& registry_after(registry_before, registry_now, expected.registered)
}

/// The scan before its first step, for physical memory mapped at
/// `phys_offset` (zero: not mapped): it stands before the first slot of
/// the first bus and holds nothing of any function yet.
pub open spec fn scan_start(phys_offset: u64) -> ScannerView {
    ScannerView {
        phys_offset,
        stage: ScanStage::Start,
        bus: 0,
        slot: 0,
        func: 0,
        functions: 1,
        cursor: 0,
        config: Seq::new(64, |i: int| 0u32),
        script: Seq::empty(),
        readback: Seq::new(7, |i: int| 0u32),
        bars: Seq::empty(),
        entries: Seq::empty(),
    }
}

/// Begins a scan of the whole bus that does not look at MSI-X tables.
/// Nothing is asked of the hardware yet: the caller calls
/// [`PciScanner::step`] until it answers [`PciAction::Done`], carrying out
/// each action it is given.
pub fn scan_and_register() -> (scanner: PciScanner)
    ensures
        scanner.wf(),
        scanner@ == scan_start(0),
{
    scan_and_register_with_phys_offset(0)
}

/// Begins a scan of the whole bus. Where `physical_memory_offset` is not
/// zero, physical memory is taken to be mapped at that offset, and the
/// scan looks at the first entry of each MSI-X table it can find.
pub fn scan_and_register_with_phys_offset(physical_memory_offset: u64) -> (scanner: PciScanner)
    ensures
        scanner.wf(),
        scanner@ == scan_start(physical_memory_offset),
{
    let scanner = PciScanner {
        phys_offset: physical_memory_offset,
        stage: ScanStage::Start,
        bus: 0,
        slot: 0,
        func: 0,
        functions: 1,
        cursor: 0,
        config: [0u32; 64],
        script: Vec::new(),
        readback: [0u32; 7],
        bars: Vec::new(),
        entries: Vec::new(),
    };
    assert(scanner.config@ =~= Seq::new(64, |i: int| 0u32));
    assert(scanner.readback@ =~= Seq::new(7, |i: int| 0u32));
    scanner
}

impl PciScanner {
    /// The scan is in a state that its own steps can lead to.
    pub open spec fn wf(&self) -> bool {
        scan_wf(self@)
    }

    /// Whether the scan is in a state that its own steps can lead to.
    pub fn is_wf(&self) -> (ok: bool)
        ensures
            ok == self.wf(),
    {
        if !(self.slot < 32 && self.func < 8 && self.functions <= 8) {
            return false;
        }
        match self.stage {
            ScanStage::FunctionVendor => self.func < self.functions,
            ScanStage::Snapshot => self.func < self.functions && 1 <= self.cursor && self.cursor
                < 64,
            ScanStage::Sizing => {
                if !(self.func < self.functions && self.cursor < self.script.len()
                    && self.script.len() <= MAX_SIZING_ACCESSES) {
                    return false;
                }
                let mut k: usize = 0;
                while k < self.script.len()
                    invariant
                        k <= self.script@.len(),
                        self.stage is Sizing,
                        self.slot < 32 && self.func < 8 && self.functions <= 8,
                        self.func < self.functions,
                        self.cursor < self.script@.len() <= MAX_SIZING_ACCESSES,
                        forall|j: int|
                            0 <= j < k ==> touches_bar_register(#[trigger] self.script@[j]),
                    decreases self.script@.len() - k,
                {
                    let offset = match self.script[k] {
                        ConfigOp::Read { offset } => offset,
                        ConfigOp::Write { offset, .. } => offset,
                    };
                    if !(0x10 <= offset && offset <= 0x24 && offset % 4 == 0) {
                        return false;
                    }
                    k += 1;
                }
                true
            },
            ScanStage::TableProbe => self.func < self.functions && self.cursor
                < self.entries.len() && self.entries.len() <= MAX_CAPABILITY_HOPS as usize,
            _ => true,
        }
    }

    /// Whether the scan is over.
    pub fn is_done(&self) -> (done: bool)
        ensures
            done == (self.stage == ScanStage::Done),
    {
        self.stage == ScanStage::Done
    }

    fn enter_slot(&mut self, bus: u8, slot: u8) -> (action: PciAction)
        requires
            slot < 32,
            old(self).functions <= 8,
        ensures
            final(self).wf(),
            final(self)@ == at_slot(old(self)@, bus, slot).state,
            action == at_slot(old(self)@, bus, slot).action,
    {
        self.stage = ScanStage::SlotVendor;
        self.bus = bus;
        self.slot = slot;
        self.func = 0;
        PciAction::ReadConfig { bus, slot, func: 0, offset: 0 }
    }

    fn leave_slot(&mut self) -> (action: PciAction)
        requires
            old(self).slot < 32,
            old(self).func < 8,
            old(self).functions <= 8,
        ensures
            final(self).wf(),
            final(self)@ == after_slot(old(self)@).state,
            action == after_slot(old(self)@).action,
    {
        if self.slot < 31 {
            let bus = self.bus;
            let slot = self.slot + 1;
            self.enter_slot(bus, slot)
        } else if self.bus < 255 {
            let bus = self.bus + 1;
            self.enter_slot(bus, 0)
        } else {
            self.stage = ScanStage::Done;
            PciAction::Done
        }
    }

    fn leave_function(&mut self) -> (action: PciAction)
        requires
            old(self).slot < 32,
            old(self).func < old(self).functions,
            old(self).functions <= 8,
        ensures
            final(self).wf(),
            final(self)@ == after_function(old(self)@).state,
            action == after_function(old(self)@).action,
    {
        if self.func + 1 < self.functions {
            self.stage = ScanStage::FunctionVendor;
            self.func = self.func + 1;
            PciAction::ReadConfig { bus: self.bus, slot: self.slot, func: self.func, offset: 0 }
        } else {
            self.leave_slot()
        }
    }

    fn continue_probing(&mut self, manager: &mut DeviceManager) -> (action: PciAction)
        requires
            old(self).slot < 32,
            old(self).func < old(self).functions,
            old(self).functions <= 8,
            old(self).entries@.len() <= MAX_CAPABILITY_HOPS,
            old(manager).wf(),
        ensures
            final(self).wf(),
            final(manager).wf(),
            step_matches(
                probing_from(old(self)@),
                final(self)@,
                action,
                old(manager).devices@,
                final(manager).devices@,
            ),
    {
        while self.cursor < self.entries.len()
            invariant
                self.slot < 32,
                self.func < self.functions,
                self.functions <= 8,
                self.entries@.len() <= MAX_CAPABILITY_HOPS,
                probing_from(self@) == probing_from(old(self)@),
                *manager == *old(manager),
                manager.wf(),
            decreases self.entries@.len() - self.cursor,
        {
            match probe_address(&self.entries[self.cursor], &self.bars, self.phys_offset) {
                Some(addr) => {
                    self.stage = ScanStage::TableProbe;
                    return PciAction::ReadMemory { addr };
                },
                None => {
                    self.cursor = self.cursor + 1;
                },
            }
        }
        let info = describe_function(
            self.bus,
            self.slot,
            self.func,
            &self.config,
            &self.bars,
            &self.entries,
        );
        manager.register_device(info);
        self.leave_function()
    }

    fn continue_sizing(&mut self, manager: &mut DeviceManager) -> (action: PciAction)
        requires
            old(self).slot < 32,
            old(self).func < old(self).functions,
            old(self).functions <= 8,
            old(self).script@.len() <= MAX_SIZING_ACCESSES,
            forall|k: int|
                0 <= k < old(self).script@.len() ==> touches_bar_register(
                    #[trigger] old(self).script@[k],
                ),
            old(manager).wf(),
        ensures
            final(self).wf(),
            final(manager).wf(),
            step_matches(
                sizing_from(old(self)@),
                final(self)@,
                action,
                old(manager).devices@,
                final(manager).devices@,
            ),
    {
        if self.cursor < self.script.len() {
            self.stage = ScanStage::Sizing;
            match self.script[self.cursor] {
                ConfigOp::Read { offset } => PciAction::ReadConfig {
                    bus: self.bus,
                    slot: self.slot,
                    func: self.func,
                    offset,
                },
                ConfigOp::Write { offset, value } => PciAction::WriteConfig {
                    bus: self.bus,
                    slot: self.slot,
                    func: self.func,
                    offset,
                    value,
                },
            }
        } else {
            self.bars = bar_resources(&self.config, &self.readback);
            self.entries = walk_capabilities(&self.config);
            self.cursor = 0;
            self.continue_probing(manager)
        }
    }

    /// One step of the scan. `reply` is what the action of the step before
    /// brought back: the dword read, or anything after a write and before
    /// the first step. The step takes the scan on, registers a function
    /// with `manager` once everything about it is known, and says what is
    /// to be done next.
    pub fn step(&mut self, reply: u32, manager: &mut DeviceManager) -> (action: PciAction)
        requires
            old(self).wf(),
            old(manager).wf(),
        ensures
            final(self).wf(),
            final(manager).wf(),
            step_matches(
                next_step(old(self)@, reply),
                final(self)@,
                action,
                old(manager).devices@,
                final(manager).devices@,
            ),
    {
        match self.stage {
            ScanStage::Start => self.enter_slot(0, 0),
            ScanStage::SlotVendor => {
                if function_present(reply) {
                    self.stage = ScanStage::SlotHeader;
                    PciAction::ReadConfig { bus: self.bus, slot: self.slot, func: 0, offset: 0x0C }
                } else {
                    self.leave_slot()
                }
            },
            ScanStage::SlotHeader => {
                self.stage = ScanStage::FunctionVendor;
                self.functions = function_count(reply);
                self.func = 0;
                PciAction::ReadConfig { bus: self.bus, slot: self.slot, func: 0, offset: 0 }
            },
            ScanStage::FunctionVendor => {
                if function_present(reply) {
                    self.stage = ScanStage::Snapshot;
                    self.config[0] = reply;
                    self.cursor = 1;
                    PciAction::ReadConfig {
                        bus: self.bus,
                        slot: self.slot,
                        func: self.func,
                        offset: 4,
                    }
                } else {
                    self.leave_function()
                }
            },
            ScanStage::Snapshot => {
                self.config[self.cursor] = reply;
                if self.cursor + 1 < 64 {
                    self.cursor = self.cursor + 1;
                    PciAction::ReadConfig {
                        bus: self.bus,
                        slot: self.slot,
                        func: self.func,
                        offset: (4 * self.cursor) as u8,
                    }
                } else {
                    self.script = sizing_script(&self.config);
                    self.cursor = 0;
                    self.continue_sizing(manager)
                }
            },
            ScanStage::Sizing => {
                assert(self.cursor < self.script.len());
                match self.script[self.cursor] {
                    ConfigOp::Read { offset } => {
                        self.readback[((offset - 0x10) / 4) as usize] = reply;
                    },
                    ConfigOp::Write { .. } => {},
                }
                self.cursor = self.cursor + 1;
                self.continue_sizing(manager)
            },
            ScanStage::TableProbe => {
                assert(self.cursor < self.entries.len());
                let patched = apply_vector_control(self.entries[self.cursor], reply);
                self.entries[self.cursor] = patched;
                self.cursor = self.cursor + 1;
                self.continue_probing(manager)
            },
            ScanStage::Done => PciAction::Done,
        }
    }
}

} // verus!
