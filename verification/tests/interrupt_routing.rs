use neutrix::arch::idt::{
    default_slot, ensure_idt_initialized, publish_once, register_irq_handler, slot,
    unregister_irq_handler, Exception, VectorSlot, VectorTable,
};
use neutrix::devices::acpi::{HardwareCatalog, IoApicInfo, IsoInfo};
use neutrix::hal::apic::{
    enable_in_svr, end_of_interrupt, id_register, init_from_acpi as init_lapic_from_acpi,
    init_lapic_phys, is_initialized, local_apic_id, send_eoi, EndOfInterrupt, LocalApic,
    MemoryWrite,
};
use neutrix::hal::ioapic::{
    apply_isos_from_acpi, apply_legacy_isa_fallback, default_low, enable_isos_for_local,
    enable_targets, find_ioapic_for_gsi, init_from_acpi, list_ioapics, locate_entry,
    redirection_entries, version_requests, write_redirection_entry_for_gsi, IoApic, IoApicTable,
    RegisterRead, RegisterWrite,
};
use std::collections::HashMap;

fn two_controllers() -> IoApicTable {
    IoApicTable {
        ioapics: vec![
            IoApic { id: 0, phys_addr: 0xFEC0_0000, gsi_base: 0, redir_entries: 24 },
            IoApic { id: 1, phys_addr: 0xFEC0_1000, gsi_base: 24, redir_entries: 8 },
        ],
    }
}

#[test]
fn gsi_resolution_goes_by_range() {
    let table = two_controllers();
    assert_eq!(find_ioapic_for_gsi(&table, 23), Some((0, 23)));
    assert_eq!(find_ioapic_for_gsi(&table, 24), Some((1, 0)));
    assert_eq!(find_ioapic_for_gsi(&table, 31), Some((1, 7)));
    assert_eq!(find_ioapic_for_gsi(&table, 32), None);
    assert_eq!(find_ioapic_for_gsi(&table, 0), Some((0, 0)));
    assert_eq!(find_ioapic_for_gsi(&IoApicTable { ioapics: Vec::new() }, 0), None);
}

#[test]
fn gsi_resolution_takes_the_first_controller_that_serves() {
    let table = IoApicTable {
        ioapics: vec![
            IoApic { id: 0, phys_addr: 0x1000, gsi_base: 16, redir_entries: 8 },
            IoApic { id: 1, phys_addr: 0x2000, gsi_base: 0, redir_entries: 24 },
        ],
    };
    assert_eq!(find_ioapic_for_gsi(&table, 17), Some((0, 1)));
    assert_eq!(find_ioapic_for_gsi(&table, 15), Some((1, 15)));
}

#[test]
fn gsi_range_does_not_wrap_at_32_bits() {
    let table = IoApicTable {
        ioapics: vec![IoApic { id: 0, phys_addr: 0x1000, gsi_base: 0xFFFF_FFF0, redir_entries: 256 }],
    };
    assert_eq!(find_ioapic_for_gsi(&table, 0xFFFF_FFFF), Some((0, 15)));
    assert_eq!(find_ioapic_for_gsi(&table, 5), None);
}

#[test]
fn redirection_count_comes_from_the_version_register() {
    assert_eq!(redirection_entries(0x0017_0011), 24);
    assert_eq!(redirection_entries(0x00FF_0000), 256);
    assert_eq!(redirection_entries(0xFF00_FFFF), 1);
    let io = IoApic { id: 0, phys_addr: 0xFEC0_0000, gsi_base: 0, redir_entries: 24 };
    assert_eq!(io.read_redir_count(0, 0x0017_0011), Some(24));
    assert_eq!(io.read_version(0, 0x0017_0011), Some(0x11));
    assert_eq!(io.read_id(0, 0x0900_0000), Some(9));
    assert_eq!(io.register(0x1000, 1), Some(RegisterRead { base: 0xFEC0_1000, reg: 1 }));
    let null = IoApic { id: 0, phys_addr: 0, gsi_base: 0, redir_entries: 24 };
    assert_eq!(null.read_id(0, 0x0900_0000), None);
    assert_eq!(null.read_version(0, 0x11), None);
    assert_eq!(null.read_redir_count(0, 0x0017_0011), None);
    assert_eq!(null.base(0), None);
    assert_eq!(null.base(0x8000), Some(0x8000));
}

#[test]
fn controllers_are_taken_into_use_with_their_entry_counts() {
    let described = vec![
        IoApicInfo { id: 2, addr: 0xFEC0_0000, gsi_base: 0 },
        IoApicInfo { id: 3, addr: 0, gsi_base: 24 },
        IoApicInfo { id: 4, addr: 0xFEC0_2000, gsi_base: 48 },
    ];
    assert_eq!(
        version_requests(&described, 0),
        vec![
            Some(RegisterRead { base: 0xFEC0_0000, reg: 1 }),
            None,
            Some(RegisterRead { base: 0xFEC0_2000, reg: 1 }),
        ]
    );
    let mut table = IoApicTable { ioapics: Vec::new() };
    init_from_acpi(&mut table, &described, &vec![Some(0x000F_0020), None]);
    assert_eq!(
        list_ioapics(&table),
        vec![
            IoApic { id: 2, phys_addr: 0xFEC0_0000, gsi_base: 0, redir_entries: 16 },
            IoApic { id: 3, phys_addr: 0, gsi_base: 24, redir_entries: 24 },
            IoApic { id: 4, phys_addr: 0xFEC0_2000, gsi_base: 48, redir_entries: 24 },
        ]
    );
    init_from_acpi(&mut table, &Vec::new(), &Vec::new());
    assert_eq!(list_ioapics(&table).len(), 3);
}

#[test]
fn a_redirection_entry_is_written_high_dword_first() {
    let table = two_controllers();
    let writes = write_redirection_entry_for_gsi(&table, 25, 0x0001_0039, 0x0500_0000, 0x10_0000);
    assert_eq!(
        writes,
        vec![
            RegisterWrite { base: 0xFED0_1000, reg: 0x13, value: 0x0500_0000 },
            RegisterWrite { base: 0xFED0_1000, reg: 0x12, value: 0x0001_0039 },
        ]
    );
    assert!(write_redirection_entry_for_gsi(&table, 32, 1, 2, 0).is_empty());
    assert_eq!(locate_entry(&table, 23, 0), Some((0xFEC0_0000, 23)));
}

#[test]
fn entries_beyond_the_register_index_cannot_be_written() {
    let table = IoApicTable {
        ioapics: vec![IoApic { id: 0, phys_addr: 0x1000, gsi_base: 0, redir_entries: 256 }],
    };
    let last = write_redirection_entry_for_gsi(&table, 119, 1, 2, 0);
    assert_eq!(last[0].reg, 0xFF);
    assert_eq!(last[1].reg, 0xFE);
    assert!(write_redirection_entry_for_gsi(&table, 120, 1, 2, 0).is_empty());
    assert!(write_redirection_entry_for_gsi(&table, 255, 1, 2, 0).is_empty());
}

#[test]
fn a_controller_at_address_zero_is_not_written() {
    let table = IoApicTable {
        ioapics: vec![IoApic { id: 0, phys_addr: 0, gsi_base: 0, redir_entries: 24 }],
    };
    assert!(write_redirection_entry_for_gsi(&table, 1, 1, 2, 0).is_empty());
    assert_eq!(write_redirection_entry_for_gsi(&table, 1, 1, 2, 0x4000).len(), 2);
}

#[test]
fn default_entries_are_masked_with_the_legacy_vector() {
    assert_eq!(default_low(0), 0x0001_0020);
    assert_eq!(default_low(1), 0x0001_0021);
    assert_eq!(default_low(15), 0x0001_002F);
    assert_eq!(default_low(0xFF), 0x0001_001F);
}

#[test]
fn overrides_are_programmed_in_order() {
    let table = two_controllers();
    let isos = vec![
        IsoInfo { bus: 0, source: 0, gsi: 2, flags: 0 },
        IsoInfo { bus: 0, source: 9, gsi: 40, flags: 0 },
        IsoInfo { bus: 0, source: 5, gsi: 26, flags: 0 },
    ];
    let writes = apply_isos_from_acpi(&table, &isos, 0);
    assert_eq!(
        writes,
        vec![
            RegisterWrite { base: 0xFEC0_0000, reg: 0x15, value: 0 },
            RegisterWrite { base: 0xFEC0_0000, reg: 0x14, value: 0x0001_0020 },
            RegisterWrite { base: 0xFEC0_1000, reg: 0x15, value: 0 },
            RegisterWrite { base: 0xFEC0_1000, reg: 0x14, value: 0x0001_0025 },
        ]
    );
    assert!(apply_isos_from_acpi(&table, &Vec::new(), 0).is_empty());
}

#[test]
fn the_sixteen_legacy_lines_are_programmed_masked() {
    let table = two_controllers();
    let writes = apply_legacy_isa_fallback(&table, 0);
    assert_eq!(writes.len(), 32);
    for irq in 0..16u32 {
        let high = writes[2 * irq as usize];
        let low = writes[2 * irq as usize + 1];
        assert_eq!(high, RegisterWrite { base: 0xFEC0_0000, reg: (0x11 + 2 * irq) as u8, value: 0 });
        assert_eq!(
            low,
            RegisterWrite { base: 0xFEC0_0000, reg: (0x10 + 2 * irq) as u8, value: 0x0001_0020 + irq }
        );
    }
    let small = IoApicTable {
        ioapics: vec![IoApic { id: 0, phys_addr: 0x1000, gsi_base: 0, redir_entries: 4 }],
    };
    assert_eq!(apply_legacy_isa_fallback(&small, 0).len(), 8);
}

fn apply(regs: &mut HashMap<(u64, u8), u32>, writes: &[RegisterWrite]) {
    for w in writes {
        regs.insert((w.base, w.reg), w.value);
    }
}

#[test]
fn enabling_unmasks_and_routes_to_the_processor() {
    let table = two_controllers();
    let isos = vec![IsoInfo { bus: 0, source: 0, gsi: 26, flags: 0 }];
    let mut regs: HashMap<(u64, u8), u32> = HashMap::new();
    apply(&mut regs, &apply_isos_from_acpi(&table, &isos, 0));
    apply(&mut regs, &apply_legacy_isa_fallback(&table, 0));
    assert_eq!(regs[&(0xFEC0_1000, 0x14)], 0x0001_0020);
    assert_eq!(regs[&(0xFEC0_1000, 0x15)], 0);

    let targets = enable_targets(&table, &isos, 0);
    assert_eq!(targets.len(), 17);
    assert_eq!(targets[0], RegisterRead { base: 0xFEC0_1000, reg: 0x14 });
    assert_eq!(targets[1], RegisterRead { base: 0xFEC0_0000, reg: 0x10 });
    let lows: Vec<u32> = targets.iter().map(|t| regs[&(t.base, t.reg)]).collect();
    let writes = enable_isos_for_local(&table, &isos, 0, 5, &lows);
    assert_eq!(writes.len(), 34);
    assert_eq!(writes[0], RegisterWrite { base: 0xFEC0_1000, reg: 0x15, value: 0x0500_0000 });
    assert_eq!(writes[1], RegisterWrite { base: 0xFEC0_1000, reg: 0x14, value: 0x0000_0020 });

    // after every single write, no entry is unmasked with another destination
    for n in 0..=writes.len() {
        let mut seen = regs.clone();
        apply(&mut seen, &writes[..n]);
        for t in &targets {
            let low = seen[&(t.base, t.reg)];
            let high = seen[&(t.base, t.reg + 1)];
            assert!(low & 0x1_0000 != 0 || high >> 24 == 5, "after {} writes", n);
        }
    }
    apply(&mut regs, &writes);
    for t in &targets {
        assert_eq!(regs[&(t.base, t.reg)] & 0x1_0000, 0);
        assert_eq!(regs[&(t.base, t.reg + 1)] >> 24, 5);
    }
    assert_eq!(regs[&(0xFEC0_0000, 0x12)], 0x0000_0021);
}

#[test]
fn enabling_keeps_the_other_bits_of_the_low_dword() {
    let table = two_controllers();
    let isos = vec![IsoInfo { bus: 0, source: 9, gsi: 9, flags: 0 }];
    let targets = enable_targets(&table, &isos, 0);
    let mut lows = vec![0x0001_0000u32; targets.len()];
    lows[0] = 0x0001_A029;
    let writes = enable_isos_for_local(&table, &isos, 0, 0xFF, &lows);
    assert_eq!(writes[0].value, 0xFF00_0000);
    assert_eq!(writes[1].value, 0x0000_A029);
}

#[test]
fn enabling_leaves_entries_alone_whose_low_dword_was_not_read() {
    let table = two_controllers();
    let isos = vec![IsoInfo { bus: 0, source: 9, gsi: 9, flags: 0 }];
    let writes = enable_isos_for_local(&table, &isos, 0, 1, &vec![0x0001_0029, 0x0001_0020]);
    assert_eq!(writes.len(), 4);
    assert!(enable_isos_for_local(&table, &isos, 0, 1, &Vec::new()).is_empty());
}

#[test]
fn enabling_skips_interrupts_that_no_controller_serves() {
    let table = IoApicTable {
        ioapics: vec![IoApic { id: 0, phys_addr: 0x1000, gsi_base: 4, redir_entries: 4 }],
    };
    let isos = vec![IsoInfo { bus: 0, source: 0, gsi: 100, flags: 0 }];
    let targets = enable_targets(&table, &isos, 0);
    assert_eq!(
        targets,
        vec![
            RegisterRead { base: 0x1000, reg: 0x10 },
            RegisterRead { base: 0x1000, reg: 0x12 },
            RegisterRead { base: 0x1000, reg: 0x14 },
            RegisterRead { base: 0x1000, reg: 0x16 },
        ]
    );
}

#[test]
fn local_apic_is_taken_into_use_once_it_has_an_address() {
    let mut lapic = LocalApic::new();
    assert!(!is_initialized(&lapic));
    assert_eq!(send_eoi(&lapic), None);
    assert_eq!(id_register(&lapic), None);
    assert_eq!(local_apic_id(&lapic, 0x0700_0000), None);
    assert_eq!(init_lapic_phys(&mut lapic, 0, 0), None);
    assert!(!is_initialized(&lapic));
    assert_eq!(init_lapic_phys(&mut lapic, 0xFEE0_0000, 0x1_0000_0000), Some(0x1_FEE0_00F0));
    assert!(is_initialized(&lapic));
    assert_eq!(lapic.base, 0x1_FEE0_0000);
    assert_eq!(send_eoi(&lapic), Some(MemoryWrite { addr: 0x1_FEE0_00B0, value: 0 }));
    assert_eq!(id_register(&lapic), Some(0x1_FEE0_0020));
    assert_eq!(local_apic_id(&lapic, 0x0700_0000), Some(7));
    assert_eq!(enable_in_svr(0x0000_00FF), 0x0000_01FF);
    assert_eq!(enable_in_svr(0x0000_0100), 0x0000_0100);
}

#[test]
fn local_apic_comes_from_the_catalog() {
    let mut lapic = LocalApic::new();
    let mut catalog = HardwareCatalog::new();
    assert_eq!(init_lapic_from_acpi(&mut lapic, &catalog, 0x1000), None);
    assert!(!is_initialized(&lapic));
    catalog.local_apic_addr = 0xFEE0_0000;
    assert_eq!(init_lapic_from_acpi(&mut lapic, &catalog, 0x1000), Some(0xFEE0_10F0));
    assert_eq!(lapic.base, 0xFEE0_1000);
}

#[test]
fn end_of_interrupt_falls_back_to_the_legacy_controller() {
    let mut lapic = LocalApic::new();
    assert_eq!(end_of_interrupt(&lapic, 0x21), EndOfInterrupt::Legacy { irq: 1 });
    assert_eq!(end_of_interrupt(&lapic, 0x2C), EndOfInterrupt::Legacy { irq: 12 });
    assert_eq!(end_of_interrupt(&lapic, 0x20), EndOfInterrupt::Legacy { irq: 0 });
    assert_eq!(end_of_interrupt(&lapic, 0x1F), EndOfInterrupt::Legacy { irq: 0xFF });
    lapic.base = 0x4000;
    assert_eq!(
        end_of_interrupt(&lapic, 0x21),
        EndOfInterrupt::LocalApic(MemoryWrite { addr: 0x40B0, value: 0 })
    );
}

#[test]
fn the_vector_table_starts_with_exceptions_and_placeholders() {
    let table = VectorTable::new();
    assert_eq!(table.slots.len(), 256);
    assert_eq!(slot(&table, 0), VectorSlot::Exception(Exception::DivideError));
    assert_eq!(slot(&table, 2), VectorSlot::Missing);
    assert_eq!(slot(&table, 3), VectorSlot::Exception(Exception::Breakpoint));
    assert_eq!(slot(&table, 8), VectorSlot::Exception(Exception::DoubleFault));
    assert_eq!(slot(&table, 9), VectorSlot::Missing);
    assert_eq!(slot(&table, 14), VectorSlot::Exception(Exception::PageFault));
    assert_eq!(slot(&table, 15), VectorSlot::Missing);
    assert_eq!(slot(&table, 31), VectorSlot::Missing);
    for v in 32..=255u8 {
        assert_eq!(slot(&table, v), VectorSlot::Placeholder);
        assert_eq!(default_slot(v), VectorSlot::Placeholder);
    }
}

#[test]
fn handlers_replace_and_placeholders_return() {
    let mut table = VectorTable::new();
    register_irq_handler(&mut table, 33, 0xFFFF_8000_0010_0000);
    assert_eq!(slot(&table, 33), VectorSlot::Handler(0xFFFF_8000_0010_0000));
    register_irq_handler(&mut table, 33, 0x2000);
    assert_eq!(slot(&table, 33), VectorSlot::Handler(0x2000));
    register_irq_handler(&mut table, 255, 0x3000);
    assert_eq!(slot(&table, 255), VectorSlot::Handler(0x3000));
    assert_eq!(slot(&table, 32), VectorSlot::Placeholder);
    unregister_irq_handler(&mut table, 33);
    assert_eq!(slot(&table, 33), VectorSlot::Placeholder);
    unregister_irq_handler(&mut table, 44);
    assert_eq!(slot(&table, 44), VectorSlot::Placeholder);
    assert_eq!(slot(&table, 255), VectorSlot::Handler(0x3000));
    assert_eq!(slot(&table, 14), VectorSlot::Exception(Exception::PageFault));
}

#[test]
fn the_table_is_built_once() {
    let mut cell: Option<VectorTable> = None;
    ensure_idt_initialized(&mut cell);
    register_irq_handler(cell.as_mut().expect("table"), 40, 0x1234);
    ensure_idt_initialized(&mut cell);
    assert_eq!(slot(cell.as_ref().expect("table"), 40), VectorSlot::Handler(0x1234));
}

#[test]
fn the_first_publisher_wins() {
    let mut published: Option<u64> = None;
    assert_eq!(publish_once(&mut published, 0xA000), 0xA000);
    assert_eq!(publish_once(&mut published, 0xB000), 0xA000);
    assert_eq!(publish_once(&mut published, 0xC000), 0xA000);
    assert_eq!(published, Some(0xA000));
}
