use neutrix::devices::pci::{
    apply_vector_control, bar_resources, classify_bar, config_dword, config_field16,
    config_field32, decode_capability, describe_function, function_count, function_present,
    io_bar_size, memory32_bar_size, memory64_bar_size, nth_memory_window, offset_from,
    pci_config_address, probe_address, scan_and_register, scan_and_register_with_phys_offset,
    sizing_script, walk_capabilities, BarKind, CapabilityEntry, ConfigOp, PciAction, PciScanner,
    ScanStage, MAX_CAPABILITY_HOPS,
};
use neutrix::driver_framework::device::{Capability, Resource, ResourceKind};
use neutrix::driver_framework::manager::DeviceManager;
use std::collections::HashMap;

#[test]
fn config_address_packs_bus_slot_function_and_register() {
    assert_eq!(pci_config_address(0, 0, 0, 0), 0x8000_0000);
    assert_eq!(pci_config_address(1, 2, 3, 0x10), 0x8001_1310);
    assert_eq!(pci_config_address(255, 31, 7, 0xFF), 0x80FF_FFFC);
    assert_eq!(pci_config_address(0, 0, 0, 0x3E), 0x8000_003C);
}

#[test]
fn empty_positions_read_as_all_ones_or_zero() {
    assert!(!function_present(0xFFFF_FFFF));
    assert!(!function_present(0x1234_FFFF));
    assert!(!function_present(0x1234_0000));
    assert!(function_present(0x1237_8086));
    assert!(function_present(0x0000_0001));
}

#[test]
fn multifunction_bit_decides_the_number_of_functions() {
    assert_eq!(function_count(0x0080_0000), 8);
    assert_eq!(function_count(0x0000_0000), 1);
    assert_eq!(function_count(0xFF7F_FFFF), 1);
    assert_eq!(function_count(0x0081_0000), 8);
}

#[test]
fn bar_kinds() {
    assert_eq!(classify_bar(0), BarKind::Absent);
    assert_eq!(classify_bar(0xFFFF_FFFF), BarKind::Absent);
    assert_eq!(classify_bar(0x0000_C001), BarKind::Io);
    assert_eq!(classify_bar(0xFEB0_0000), BarKind::Memory32);
    assert_eq!(classify_bar(0xFEB0_0008), BarKind::Memory32);
    assert_eq!(classify_bar(0xFEB0_0004), BarKind::Memory64);
    assert_eq!(classify_bar(0xFEB0_000C), BarKind::Memory64);
    assert_eq!(classify_bar(0xFEB0_0002), BarKind::Memory32);
}

#[test]
fn bar_size_is_the_complement_of_the_mask_plus_one() {
    for mask in [0xFFFF_F000u32, 0xFFF0_0000, 0xFFFF_FFF0, 0x8000_0000, 0xFFFF_0000] {
        assert_eq!(memory32_bar_size(mask), (!mask).wrapping_add(1) as u64);
    }
    assert_eq!(memory32_bar_size(0xFFFF_F000), 0x1000);
    assert_eq!(memory32_bar_size(0xFFFF_F00C), 0x1000);
    assert_eq!(memory32_bar_size(0xFF00_0008), 0x0100_0000);
    assert_eq!(io_bar_size(0xFFFF_FFE1), 0x20);
    assert_eq!(io_bar_size(0x0000_FF01), 0xFFFF_0100);
    assert_eq!(io_bar_size(0xFFFF_FFFD), 4);
}

#[test]
fn bar_size_of_an_empty_mask_wraps_to_zero() {
    assert_eq!(memory32_bar_size(0), 0);
    assert_eq!(memory32_bar_size(0xF), 0);
    assert_eq!(io_bar_size(3), 0);
    assert_eq!(memory64_bar_size(0xF, 0), 0);
}

#[test]
fn bar64_size_combines_both_masks() {
    let low = 0xFFF0_000Cu32;
    let high = 0xFFFF_FFFFu32;
    let mask = ((high as u64) << 32) | ((low & !0xF) as u64);
    assert_eq!(memory64_bar_size(low, high), (!mask).wrapping_add(1));
    assert_eq!(memory64_bar_size(low, high), 0x10_0000);
    assert_eq!(memory64_bar_size(0x0000_0004, 0xFFFF_FFFE), 0x2_0000_0000);
}

fn empty_config() -> [u32; 64] {
    [0u32; 64]
}

#[test]
fn a_64bit_bar_takes_two_registers() {
    let mut cfg = empty_config();
    cfg[4] = 0xE000_0004;
    cfg[5] = 0x0000_0001;
    cfg[6] = 0x0000_C001;
    cfg[7] = 0xFEB0_0000;
    let mut readback = [0u32; 7];
    readback[0] = 0xF000_0004;
    readback[1] = 0xFFFF_FFFF;
    // register 1 would, read on its own, look like an I/O window
    readback[2] = 0xFFFF_FFE1;
    readback[3] = 0xFFFF_0000;
    let bars = bar_resources(&cfg, &readback);
    assert_eq!(
        bars,
        vec![
            Resource { kind: ResourceKind::MemoryMapped, addr: 0x1_E000_0000, len: 0x1000_0000 },
            Resource { kind: ResourceKind::IO, addr: 0xC000, len: 0x20 },
            Resource { kind: ResourceKind::MemoryMapped, addr: 0xFEB0_0000, len: 0x1_0000 },
        ]
    );
}

#[test]
fn a_64bit_bar_in_the_last_register_is_sized_on_its_own() {
    let mut cfg = empty_config();
    cfg[9] = 0xD000_0004;
    cfg[10] = 0x0000_0002;
    let mut readback = [0u32; 7];
    readback[5] = 0xFFFF_0004;
    readback[6] = 0xFFFF_FFFF;
    let bars = bar_resources(&cfg, &readback);
    assert_eq!(
        bars,
        vec![Resource { kind: ResourceKind::MemoryMapped, addr: 0xD000_0000, len: 0x1_0000 }]
    );
    assert_eq!(
        sizing_script(&cfg),
        vec![
            ConfigOp::Write { offset: 0x24, value: 0xFFFF_FFFF },
            ConfigOp::Read { offset: 0x24 },
            ConfigOp::Write { offset: 0x24, value: 0xD000_0004 },
        ]
    );
}

#[test]
fn sizing_stays_within_the_six_address_registers() {
    let kinds = [0u32, 0x0000_C001, 0xE000_0000, 0xE000_0004, 0xFFFF_FFFF, 4];
    let mut pick = [0usize; 6];
    loop {
        let mut cfg = [0xABCD_1234u32; 64];
        for i in 0..6 {
            cfg[4 + i] = kinds[pick[i]];
        }
        let script = sizing_script(&cfg);
        assert!(script.len() <= 18);
        for op in script.iter() {
            let offset = match op {
                ConfigOp::Read { offset } => *offset,
                ConfigOp::Write { offset, .. } => *offset,
            };
            assert!((0x10..=0x24).contains(&offset) && offset % 4 == 0);
        }
        let mut i = 0;
        while i < 6 && pick[i] == kinds.len() - 1 {
            pick[i] = 0;
            i += 1;
        }
        if i == 6 {
            break;
        }
        pick[i] += 1;
    }
}

#[test]
fn absent_bars_give_no_resources() {
    let mut cfg = empty_config();
    cfg[5] = 0xFFFF_FFFF;
    assert!(bar_resources(&cfg, &[0xFFFF_FFFF; 7]).is_empty());
    assert!(sizing_script(&cfg).is_empty());
}

#[test]
fn sizing_script_saves_probes_and_restores() {
    let mut cfg = empty_config();
    cfg[4] = 0x0000_C001;
    cfg[6] = 0xE000_0004;
    cfg[7] = 0x0000_0001;
    let script = sizing_script(&cfg);
    assert_eq!(
        script,
        vec![
            ConfigOp::Write { offset: 0x10, value: 0xFFFF_FFFF },
            ConfigOp::Read { offset: 0x10 },
            ConfigOp::Write { offset: 0x10, value: 0x0000_C001 },
            ConfigOp::Write { offset: 0x18, value: 0xFFFF_FFFF },
            ConfigOp::Write { offset: 0x1C, value: 0xFFFF_FFFF },
            ConfigOp::Read { offset: 0x18 },
            ConfigOp::Read { offset: 0x1C },
            ConfigOp::Write { offset: 0x18, value: 0xE000_0004 },
            ConfigOp::Write { offset: 0x1C, value: 0x0000_0001 },
        ]
    );
}

#[test]
fn config_fields_honour_the_byte_lane() {
    let mut cfg = empty_config();
    cfg[0x10] = 0xAABB_CCDD;
    cfg[0x11] = 0x1122_3344;
    assert_eq!(config_dword(&cfg, 0x40), 0xAABB_CCDD);
    assert_eq!(config_dword(&cfg, 0x43), 0xAABB_CCDD);
    assert_eq!(config_field16(&cfg, 0x40), 0xCCDD);
    assert_eq!(config_field16(&cfg, 0x42), 0xAABB);
    assert_eq!(config_field16(&cfg, 0x41), 0xBBCC);
    assert_eq!(config_field16(&cfg, 0x43), 0x00AA);
    assert_eq!(config_field32(&cfg, 0x44), 0x1122_3344);
    assert_eq!(config_field32(&cfg, 0x46), 0x0000_1122);
    assert_eq!(offset_from(0xFE, 4), 0x02);
    assert_eq!(offset_from(0x40, 12), 0x4C);
}

fn with_capabilities(first: u8) -> [u32; 64] {
    let mut cfg = empty_config();
    cfg[1] = 0x0010_0000;
    cfg[0x34 / 4] = first as u32;
    cfg
}

#[test]
fn power_management_capability() {
    let mut cfg = with_capabilities(0x40);
    cfg[0x10] = 0xC9C3_0001;
    cfg[0x11] = 0x0000_0008;
    assert_eq!(
        decode_capability(&cfg, 0x40),
        CapabilityEntry::Capability(Capability::PowerManagement { pm_cap: 0xC9C3, pmcsr: 0x0008 })
    );
    assert_eq!(
        walk_capabilities(&cfg),
        vec![CapabilityEntry::Capability(Capability::PowerManagement {
            pm_cap: 0xC9C3,
            pmcsr: 0x0008
        })]
    );
}

#[test]
fn msi_capability_with_32bit_address() {
    let mut cfg = with_capabilities(0x50);
    // control: two messages (bits 3..1 = 1), no 64-bit address, maskable
    cfg[0x14] = 0x0102_0005;
    cfg[0x15] = 0xFEE0_1000;
    cfg[0x16] = 0x0000_4041;
    assert_eq!(
        decode_capability(&cfg, 0x50),
        CapabilityEntry::Resource(Resource {
            kind: ResourceKind::Msi {
                vectors: 2,
                addr64: false,
                maskable: true,
                msg_addr: 0xFEE0_1000,
                msg_data: 0x4041,
            },
            addr: 0,
            len: 0,
        })
    );
}

#[test]
fn msi_capability_with_64bit_address() {
    let mut cfg = with_capabilities(0x50);
    // control: 32 messages (bits 3..1 = 5), 64-bit address, not maskable
    cfg[0x14] = 0x008A_0005;
    cfg[0x15] = 0xFEE0_2000;
    cfg[0x16] = 0x0000_0001;
    cfg[0x17] = 0x0000_4055;
    assert_eq!(
        decode_capability(&cfg, 0x50),
        CapabilityEntry::Resource(Resource {
            kind: ResourceKind::Msi {
                vectors: 32,
                addr64: true,
                maskable: false,
                msg_addr: 0x1_FEE0_2000,
                msg_data: 0x4055,
            },
            addr: 0,
            len: 0,
        })
    );
}

#[test]
fn msix_capability_before_its_table_is_looked_at() {
    let mut cfg = with_capabilities(0x60);
    cfg[0x18] = 0x0007_0011;
    cfg[0x19] = 0x0000_2003;
    assert_eq!(
        decode_capability(&cfg, 0x60),
        CapabilityEntry::Resource(Resource {
            kind: ResourceKind::Msix {
                table_bar: 3,
                table_offset: 0x2000,
                table_size: 8,
                table_present: false,
                first_entry_masked: false,
            },
            addr: 0,
            len: 0,
        })
    );
}

#[test]
fn pci_express_and_other_capabilities_keep_raw_dwords() {
    let mut cfg = with_capabilities(0x70);
    cfg[0x1C] = 0x0002_8010;
    cfg[0x1D] = 0x0000_8FC0;
    cfg[0x20] = 0x1234_0009;
    cfg[0x21] = 0xABCD_EF01;
    assert_eq!(
        walk_capabilities(&cfg),
        vec![
            CapabilityEntry::Capability(Capability::PciExpress {
                header: 0x0002_8010,
                device_cap: 0x0000_8FC0
            }),
            CapabilityEntry::Capability(Capability::Other {
                id: 0x09,
                raw0: 0x1234_0009,
                raw1: 0xABCD_EF01
            }),
        ]
    );
}

#[test]
fn no_capability_list_without_the_status_bit() {
    let mut cfg = with_capabilities(0x40);
    cfg[0x10] = 0x0000_0001;
    cfg[1] = 0;
    assert!(walk_capabilities(&cfg).is_empty());
    cfg[1] = 0xFFEF_FFFF;
    assert!(walk_capabilities(&cfg).is_empty());
}

#[test]
fn a_capability_list_that_runs_in_a_circle_ends_at_the_cap() {
    let mut cfg = with_capabilities(0x40);
    // 0x40 -> 0x50 -> 0x40 -> ...
    cfg[0x10] = 0x0000_5009;
    cfg[0x14] = 0x0000_4010;
    let entries = walk_capabilities(&cfg);
    assert_eq!(entries.len(), MAX_CAPABILITY_HOPS as usize);
    assert_eq!(entries.len(), 48);
    for (i, entry) in entries.iter().enumerate() {
        match entry {
            CapabilityEntry::Capability(Capability::Other { id, .. }) => {
                assert_eq!(i % 2, 0);
                assert_eq!(*id, 0x09);
            }
            CapabilityEntry::Capability(Capability::PciExpress { .. }) => assert_eq!(i % 2, 1),
            other => panic!("unexpected entry {:?}", other),
        }
    }
}

#[test]
fn a_capability_that_points_to_itself_ends_at_the_cap() {
    let mut cfg = with_capabilities(0x44);
    cfg[0x11] = 0x0000_4401;
    assert_eq!(walk_capabilities(&cfg).len(), 48);
}

#[test]
fn memory_windows_are_counted_among_all_resources() {
    let bars = vec![
        Resource { kind: ResourceKind::IO, addr: 0xC000, len: 0x20 },
        Resource { kind: ResourceKind::MemoryMapped, addr: 0xE000_0000, len: 0x1000 },
        Resource { kind: ResourceKind::Interrupt(11), addr: 0, len: 0 },
        Resource { kind: ResourceKind::MemoryMapped, addr: 0xF000_0000, len: 0x2000 },
    ];
    assert_eq!(nth_memory_window(&bars, 0).map(|r| r.addr), Some(0xE000_0000));
    assert_eq!(nth_memory_window(&bars, 1).map(|r| r.addr), Some(0xF000_0000));
    assert_eq!(nth_memory_window(&bars, 2), None);
}

fn msix(table_bar: u8, table_offset: u32) -> CapabilityEntry {
    CapabilityEntry::Resource(Resource {
        kind: ResourceKind::Msix {
            table_bar,
            table_offset,
            table_size: 4,
            table_present: false,
            first_entry_masked: false,
        },
        addr: 0,
        len: 0,
    })
}

#[test]
fn msix_table_is_probed_only_with_a_mapping_and_a_window() {
    let bars = vec![Resource { kind: ResourceKind::MemoryMapped, addr: 0xE000_0000, len: 0x4000 }];
    assert_eq!(
        probe_address(&msix(0, 0x2000), &bars, 0xFFFF_8000_0000_0000),
        Some(0xFFFF_8000_E000_200C)
    );
    assert_eq!(probe_address(&msix(0, 0x2000), &bars, 0), None);
    assert_eq!(probe_address(&msix(1, 0x2000), &bars, 0x1000), None);
    let other = CapabilityEntry::Capability(Capability::Other { id: 9, raw0: 0, raw1: 0 });
    assert_eq!(probe_address(&other, &bars, 0x1000), None);
    assert_eq!(probe_address(&msix(0, 8), &bars, u64::MAX), Some(0xE000_0013));
}

#[test]
fn vector_control_marks_the_table_present() {
    let masked = apply_vector_control(msix(2, 0x800), 0x0000_0001);
    assert_eq!(
        masked,
        CapabilityEntry::Resource(Resource {
            kind: ResourceKind::Msix {
                table_bar: 2,
                table_offset: 0x800,
                table_size: 4,
                table_present: true,
                first_entry_masked: true,
            },
            addr: 0,
            len: 0,
        })
    );
    match apply_vector_control(msix(2, 0x800), 0xFFFF_FFFE) {
        CapabilityEntry::Resource(Resource {
            kind: ResourceKind::Msix { table_present, first_entry_masked, .. },
            ..
        }) => {
            assert!(table_present);
            assert!(!first_entry_masked);
        }
        other => panic!("unexpected entry {:?}", other),
    }
    let other = CapabilityEntry::Capability(Capability::Other { id: 9, raw0: 1, raw1: 2 });
    assert_eq!(apply_vector_control(other, 1), other);
}

#[test]
fn a_function_is_described_from_its_configuration_space() {
    let mut cfg = empty_config();
    cfg[0] = 0x100E_8086;
    cfg[2] = 0x0200_0003;
    cfg[0x3C / 4] = 0x0000_010B;
    let bars = vec![Resource { kind: ResourceKind::MemoryMapped, addr: 0xFEB0_0000, len: 0x2_0000 }];
    let entries = vec![
        CapabilityEntry::Capability(Capability::PowerManagement { pm_cap: 1, pmcsr: 2 }),
        msix(0, 0),
    ];
    let info = describe_function(0, 3, 0, &cfg, &bars, &entries);
    assert_eq!(info.vendor_id, 0x8086);
    assert_eq!(info.device_id, 0x100E);
    assert_eq!(info.class, 0x02);
    assert_eq!(info.subclass, 0x00);
    assert_eq!(info.prog_if, 0x00);
    assert_eq!(info.description, "PCI 00:03.0");
    assert_eq!(info.resources.len(), 3);
    assert_eq!(info.resources[0], bars[0]);
    assert_eq!(info.resources[1].kind, ResourceKind::Interrupt(0x0B));
    assert!(matches!(info.resources[2].kind, ResourceKind::Msix { .. }));
    assert_eq!(info.capabilities, vec![Capability::PowerManagement { pm_cap: 1, pmcsr: 2 }]);
    let info = describe_function(0xAB, 0x1F, 7, &cfg, &bars, &entries);
    assert_eq!(info.description, "PCI ab:1f.7");
}

#[test]
fn interrupt_lines_0_and_255_are_not_resources() {
    let mut cfg = empty_config();
    cfg[0] = 0x0001_0001;
    cfg[0x3C / 4] = 0x0000_01FF;
    assert!(describe_function(0, 0, 0, &cfg, &Vec::new(), &Vec::new()).resources.is_empty());
    cfg[0x3C / 4] = 0x0000_0100;
    assert!(describe_function(0, 0, 0, &cfg, &Vec::new(), &Vec::new()).resources.is_empty());
}

/// A bus of functions whose address registers answer all ones with a mask.
struct Bus {
    config: HashMap<(u8, u8, u8), [u32; 64]>,
    masks: HashMap<(u8, u8, u8, u8), u32>,
    memory: HashMap<u64, u32>,
    log: Vec<PciAction>,
}

impl Bus {
    fn new() -> Bus {
        Bus { config: HashMap::new(), masks: HashMap::new(), memory: HashMap::new(), log: Vec::new() }
    }

    fn read(&self, bus: u8, slot: u8, func: u8, offset: u8) -> u32 {
        match self.config.get(&(bus, slot, func)) {
            Some(cfg) => cfg[(offset / 4) as usize],
            None => 0xFFFF_FFFF,
        }
    }

    fn write(&mut self, bus: u8, slot: u8, func: u8, offset: u8, value: u32) {
        let mask = self.masks.get(&(bus, slot, func, offset)).copied();
        if let Some(cfg) = self.config.get_mut(&(bus, slot, func)) {
            let stored = match mask {
                Some(mask) if value == 0xFFFF_FFFF => mask,
                _ => value,
            };
            cfg[(offset / 4) as usize] = stored;
        }
    }

    fn run(&mut self, mut scanner: PciScanner, manager: &mut DeviceManager) -> usize {
        let mut reply = 0u32;
        let mut steps = 0usize;
        loop {
            let action = scanner.step(reply, manager);
            steps += 1;
            match action {
                PciAction::ReadConfig { bus, slot, func, offset } => {
                    reply = self.read(bus, slot, func, offset);
                }
                PciAction::WriteConfig { bus, slot, func, offset, value } => {
                    self.log.push(action);
                    self.write(bus, slot, func, offset, value);
                    reply = 0;
                }
                PciAction::ReadMemory { addr } => {
                    self.log.push(action);
                    reply = self.memory.get(&addr).copied().unwrap_or(0);
                }
                PciAction::Done => break,
            }
            assert!(steps < 10_000_000);
        }
        assert!(scanner.is_done());
        assert_eq!(scanner.stage, ScanStage::Done);
        steps
    }
}

fn network_card() -> [u32; 64] {
    let mut cfg = [0u32; 64];
    cfg[0] = 0x100E_8086;
    cfg[1] = 0x0010_0007;
    cfg[2] = 0x0200_0003;
    cfg[3] = 0x0000_0000;
    cfg[4] = 0xFEB0_0004;
    cfg[5] = 0x0000_0000;
    cfg[6] = 0x0000_C001;
    cfg[0x34 / 4] = 0x40;
    cfg[0x3C / 4] = 0x0000_010B;
    cfg[0x10] = 0xC9C3_5001;
    cfg[0x11] = 0x0000_0008;
    cfg[0x14] = 0x0003_0011;
    cfg[0x15] = 0x0000_1000;
    cfg
}

#[test]
fn an_empty_bus_registers_nothing() {
    let mut bus = Bus::new();
    let mut manager = DeviceManager::new();
    let steps = bus.run(scan_and_register(), &mut manager);
    assert!(manager.devices.is_empty());
    // one read for each of the 256 * 32 slots, and the step that ends the scan
    assert_eq!(steps, 256 * 32 + 1);
    assert!(bus.log.is_empty());
}

#[test]
fn a_scan_registers_each_function_that_answers() {
    let mut bus = Bus::new();
    bus.config.insert((0, 3, 0), network_card());
    bus.masks.insert((0, 3, 0, 0x10), 0xFFFE_0004);
    bus.masks.insert((0, 3, 0, 0x14), 0xFFFF_FFFF);
    bus.masks.insert((0, 3, 0, 0x18), 0xFFFF_FFC1);
    let mut bridge = [0u32; 64];
    bridge[0] = 0x1237_8086;
    bridge[2] = 0x0600_0000;
    bridge[3] = 0x0080_0000;
    bus.config.insert((2, 31, 0), bridge);
    let mut second = [0u32; 64];
    second[0] = 0x7000_8086;
    second[2] = 0x0601_0000;
    bus.config.insert((2, 31, 5), second);

    let mut manager = DeviceManager::new();
    bus.run(scan_and_register(), &mut manager);
    assert_eq!(manager.devices.len(), 3);

    let card = &manager.devices[0].device.info;
    assert_eq!(manager.devices[0].device.id, 1);
    assert_eq!(card.vendor_id, 0x8086);
    assert_eq!(card.device_id, 0x100E);
    assert_eq!(card.class, 0x02);
    assert_eq!(card.description, "PCI 00:03.0");
    assert_eq!(
        card.resources,
        vec![
            Resource { kind: ResourceKind::MemoryMapped, addr: 0xFEB0_0000, len: 0x2_0000 },
            Resource { kind: ResourceKind::IO, addr: 0xC000, len: 0x40 },
            Resource { kind: ResourceKind::Interrupt(0x0B), addr: 0, len: 0 },
            Resource {
                kind: ResourceKind::Msix {
                    table_bar: 0,
                    table_offset: 0x1000,
                    table_size: 4,
                    table_present: false,
                    first_entry_masked: false,
                },
                addr: 0,
                len: 0,
            },
        ]
    );
    assert_eq!(
        card.capabilities,
        vec![Capability::PowerManagement { pm_cap: 0xC9C3, pmcsr: 0x0008 }]
    );
    assert_eq!(manager.devices[1].device.info.description, "PCI 02:1f.0");
    assert_eq!(manager.devices[1].device.info.class, 0x06);
    assert_eq!(manager.devices[2].device.info.description, "PCI 02:1f.5");
    assert_eq!(manager.devices[2].device.info.subclass, 0x01);

    // the address registers hold again what they held before
    assert_eq!(bus.config[&(0, 3, 0)][4], 0xFEB0_0004);
    assert_eq!(bus.config[&(0, 3, 0)][5], 0x0000_0000);
    assert_eq!(bus.config[&(0, 3, 0)][6], 0x0000_C001);
    assert_eq!(
        bus.log,
        vec![
            PciAction::WriteConfig { bus: 0, slot: 3, func: 0, offset: 0x10, value: 0xFFFF_FFFF },
            PciAction::WriteConfig { bus: 0, slot: 3, func: 0, offset: 0x14, value: 0xFFFF_FFFF },
            PciAction::WriteConfig { bus: 0, slot: 3, func: 0, offset: 0x10, value: 0xFEB0_0004 },
            PciAction::WriteConfig { bus: 0, slot: 3, func: 0, offset: 0x14, value: 0 },
            PciAction::WriteConfig { bus: 0, slot: 3, func: 0, offset: 0x18, value: 0xFFFF_FFFF },
            PciAction::WriteConfig { bus: 0, slot: 3, func: 0, offset: 0x18, value: 0x0000_C001 },
        ]
    );
}

#[test]
fn a_slot_without_the_multifunction_bit_is_probed_for_one_function() {
    let mut bus = Bus::new();
    let mut first = [0u32; 64];
    first[0] = 0x0001_1AF4;
    bus.config.insert((0, 1, 0), first);
    let mut hidden = [0u32; 64];
    hidden[0] = 0x0002_1AF4;
    bus.config.insert((0, 1, 1), hidden);
    let mut manager = DeviceManager::new();
    bus.run(scan_and_register(), &mut manager);
    assert_eq!(manager.devices.len(), 1);
    assert_eq!(manager.devices[0].device.info.device_id, 0x0001);
}

#[test]
fn a_scan_with_a_mapping_looks_at_msix_tables() {
    let mut bus = Bus::new();
    bus.config.insert((0, 3, 0), network_card());
    bus.masks.insert((0, 3, 0, 0x10), 0xFFFE_0004);
    bus.masks.insert((0, 3, 0, 0x14), 0xFFFF_FFFF);
    bus.masks.insert((0, 3, 0, 0x18), 0xFFFF_FFC1);
    let offset = 0xFFFF_8000_0000_0000u64;
    bus.memory.insert(offset + 0xFEB0_0000 + 0x1000 + 12, 0x0000_0001);
    let mut manager = DeviceManager::new();
    bus.run(scan_and_register_with_phys_offset(offset), &mut manager);
    assert_eq!(manager.devices.len(), 1);
    let card = &manager.devices[0].device.info;
    assert_eq!(
        card.resources[3].kind,
        ResourceKind::Msix {
            table_bar: 0,
            table_offset: 0x1000,
            table_size: 4,
            table_present: true,
            first_entry_masked: true,
        }
    );
    assert!(bus.log.contains(&PciAction::ReadMemory { addr: offset + 0xFEB0_100C }));
}

#[test]
fn a_scan_survives_a_circular_capability_list() {
    let mut bus = Bus::new();
    let mut cfg = network_card();
    cfg[0x10] = 0x0000_5009;
    cfg[0x14] = 0x0000_4010;
    bus.config.insert((7, 0, 0), cfg);
    let mut manager = DeviceManager::new();
    bus.run(scan_and_register(), &mut manager);
    assert_eq!(manager.devices.len(), 1);
    assert_eq!(manager.devices[0].device.info.capabilities.len(), 48);
}
