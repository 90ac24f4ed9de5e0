use neutrix::devices::acpi::{
    enable_acpi, find_rsdp, get_hpet_address, get_hpet_period_fs, get_ioapics, get_isos,
    get_local_apic_address, get_mcfg_allocs, madt_records, mapped_table_address, parse_facp,
    parse_hpet, parse_madt, parse_mcfg, parse_rsdt_xsdt, parse_specific_table, print_table_info,
    search_rsdp_in_range,
    AcpiEnableAction, AcpiEnableStage, AcpiTableHeader, Facp, HardwareCatalog, IoApicInfo,
    IsoInfo, MadtEntryType, MadtRecord, McfgAllocation, Rsdp, Rsdt, Xsdt, ACPI_ENABLE_POLLS,
    ACPI_POLL_DELAY, ACPI_SETTLE_DELAY,
};
use neutrix::driver_framework::device::ResourceKind;
use neutrix::driver_framework::manager::DeviceManager;

fn fix_checksum(table: &mut Vec<u8>, at: usize, length: usize) {
    table[at] = 0;
    let sum = table[..length].iter().fold(0u8, |a, &b| a.wrapping_add(b));
    table[at] = 0u8.wrapping_sub(sum);
}

fn table_with(signature: &[u8; 4], body: &[u8]) -> Vec<u8> {
    let mut t = vec![0u8; 36];
    t[0..4].copy_from_slice(signature);
    let length = (36 + body.len()) as u32;
    t[4..8].copy_from_slice(&length.to_le_bytes());
    t[8] = 1;
    t[10..16].copy_from_slice(b"OEMID ");
    t.extend_from_slice(body);
    fix_checksum(&mut t, 9, 36 + body.len());
    t
}

fn rsdp_bytes(revision: u8, rsdt: u32, xsdt: u64) -> Vec<u8> {
    let mut r = vec![0u8; 36];
    r[0..8].copy_from_slice(b"RSD PTR ");
    r[9..15].copy_from_slice(b"BOCHS ");
    r[15] = revision;
    r[16..20].copy_from_slice(&rsdt.to_le_bytes());
    r[20..24].copy_from_slice(&36u32.to_le_bytes());
    r[24..32].copy_from_slice(&xsdt.to_le_bytes());
    fix_checksum(&mut r, 8, 20);
    r
}

fn madt_body() -> Vec<u8> {
    let mut body = Vec::new();
    body.extend_from_slice(&0xFEE0_0000u32.to_le_bytes());
    body.extend_from_slice(&1u32.to_le_bytes());
    // local interrupt controller: type 0, length 8
    body.extend_from_slice(&[0, 8, 0, 0, 1, 0, 0, 0]);
    // I/O interrupt controller: type 1, length 12, id 2, address, first interrupt 0
    body.extend_from_slice(&[1, 12, 2, 0]);
    body.extend_from_slice(&0xFEC0_0000u32.to_le_bytes());
    body.extend_from_slice(&0u32.to_le_bytes());
    // override: type 2, length 10, bus 0, source 0 -> interrupt 2, flags 5
    body.extend_from_slice(&[2, 10, 0, 0]);
    body.extend_from_slice(&2u32.to_le_bytes());
    body.extend_from_slice(&5u16.to_le_bytes());
    // unknown type 9 of length 4 is skipped
    body.extend_from_slice(&[9, 4, 0xAA, 0xBB]);
    // second I/O interrupt controller
    body.extend_from_slice(&[1, 12, 3, 0]);
    body.extend_from_slice(&0xFEC0_1000u32.to_le_bytes());
    body.extend_from_slice(&24u32.to_le_bytes());
    body
}

#[test]
fn rsdp_signature_and_checksum() {
    let bytes = rsdp_bytes(0, 0x1234_5678, 0);
    let rsdp = Rsdp::decode(&bytes, 0, 0);
    assert!(rsdp.is_valid());
    assert!(rsdp.checksum_valid());
    assert_eq!(rsdp.rsdt_address, 0x1234_5678);
    let mut wrong = bytes.clone();
    wrong[0] = b'X';
    assert!(!Rsdp::decode(&wrong, 0, 0).is_valid());
    let mut wrong = bytes.clone();
    wrong[17] ^= 0x01;
    let rsdp = Rsdp::decode(&wrong, 0, 0);
    assert!(rsdp.is_valid());
    assert!(!rsdp.checksum_valid());
}

#[test]
fn rsdp_checksum_covers_only_the_first_twenty_bytes() {
    let mut bytes = rsdp_bytes(2, 0x1000, 0x2000);
    bytes[30] ^= 0xFF;
    assert!(Rsdp::decode(&bytes, 0, 0).checksum_valid());
}

#[test]
fn rsdp_table_address_goes_by_revision() {
    let old = Rsdp::decode(&rsdp_bytes(0, 0x1000, 0xAAAA_BBBB_CCCC), 0, 0);
    assert_eq!(old.table_address(), 0x1000);
    let one = Rsdp::decode(&rsdp_bytes(1, 0x1000, 0xAAAA_BBBB_CCCC), 0, 0);
    assert_eq!(one.table_address(), 0x1000);
    let new = Rsdp::decode(&rsdp_bytes(2, 0x1000, 0xAAAA_BBBB_CCCC), 0, 0);
    assert_eq!(new.table_address(), 0xAAAA_BBBB_CCCC);
}

#[test]
fn search_finds_the_first_aligned_root_pointer() {
    let mut memory = vec![0u8; 0x100 + 20];
    let first = rsdp_bytes(0, 0x1111, 0);
    let second = rsdp_bytes(0, 0x2222, 0);
    memory[0x40..0x40 + 36].copy_from_slice(&first);
    memory[0x80..0x80 + 36].copy_from_slice(&second);
    let found = search_rsdp_in_range(&memory, 0x100).expect("root pointer");
    assert_eq!(found.rsdt_address, 0x1111);
}

#[test]
fn search_skips_unaligned_and_broken_candidates() {
    let mut memory = vec![0u8; 0x100 + 20];
    let rsdp = rsdp_bytes(0, 0x1111, 0);
    memory[0x48..0x48 + 36].copy_from_slice(&rsdp);
    assert!(search_rsdp_in_range(&memory, 0x100).is_none());
    let mut memory = vec![0u8; 0x100 + 20];
    let mut broken = rsdp_bytes(0, 0x1111, 0);
    broken[8] = broken[8].wrapping_add(1);
    memory[0x10..0x10 + 36].copy_from_slice(&broken);
    memory[0x90..0x90 + 36].copy_from_slice(&rsdp_bytes(0, 0x3333, 0));
    assert_eq!(search_rsdp_in_range(&memory, 0x100).expect("second").rsdt_address, 0x3333);
}

#[test]
fn search_stops_at_the_span() {
    let mut memory = vec![0u8; 0x100];
    memory[0x40..0x40 + 36].copy_from_slice(&rsdp_bytes(0, 0x1111, 0));
    assert!(search_rsdp_in_range(&memory, 0x40).is_none());
    assert!(search_rsdp_in_range(&memory, 0x41).is_some());
    assert!(search_rsdp_in_range(&memory, 0).is_none());
}

#[test]
fn find_rsdp_prefers_the_first_window() {
    let mut ebda = vec![0u8; 0x400 + 20];
    let mut bios = vec![0u8; 0x20000 + 20];
    bios[0x1230..0x1230 + 36].copy_from_slice(&rsdp_bytes(0, 0xB105, 0));
    assert_eq!(find_rsdp(&ebda, &bios).expect("bios").rsdt_address, 0xB105);
    ebda[0x3F0..0x3F0 + 36].copy_from_slice(&rsdp_bytes(0, 0xEBDA, 0));
    assert_eq!(find_rsdp(&ebda, &bios).expect("ebda").rsdt_address, 0xEBDA);
    assert!(find_rsdp(&[], &[]).is_none());
}

#[test]
fn header_checksum_and_signature_text() {
    let table = table_with(b"HPET", &[1, 2, 3]);
    let header = AcpiTableHeader::decode(&table, 0, 0);
    assert_eq!(header.length, 39);
    assert!(header.checksum_valid(&table));
    assert_eq!(header.signature_str(), "HPET");
    assert!(!header.checksum_valid(&table[..38]));
    let mut bad = table.clone();
    bad[37] ^= 0x40;
    assert!(!AcpiTableHeader::decode(&bad, 0, 0).checksum_valid(&bad));
    let mut odd = table.clone();
    odd[0] = 0xFF;
    assert_eq!(AcpiTableHeader::decode(&odd, 0, 0).signature_str(), "INVALID");
}

#[test]
fn root_table_entry_counts() {
    let table = table_with(b"RSDT", &[0u8; 13]);
    let header = AcpiTableHeader::decode(&table, 0, 0);
    assert_eq!(Rsdt { header }.entry_count(), 3);
    assert_eq!(Xsdt { header }.entry_count(), 1);
    let mut short = header;
    short.length = 20;
    assert_eq!(Rsdt { header: short }.entry_count(), 0);
    assert_eq!(Xsdt { header: short }.entry_count(), 0);
}

#[test]
fn root_table_addresses() {
    let mut body = Vec::new();
    body.extend_from_slice(&0x1000u32.to_le_bytes());
    body.extend_from_slice(&0x2000u32.to_le_bytes());
    let table = table_with(b"RSDT", &body);
    let rsdt = Rsdt { header: AcpiTableHeader::decode(&table, 0, 0) };
    assert_eq!(rsdt.table_address(&table, 0), Some(0x1000));
    assert_eq!(rsdt.table_address(&table, 1), Some(0x2000));
    assert_eq!(rsdt.table_address(&table, 2), None);
    assert_eq!(parse_rsdt_xsdt(&table), vec![0x1000u64, 0x2000]);

    let mut body = Vec::new();
    body.extend_from_slice(&0x1_0000_1000u64.to_le_bytes());
    body.extend_from_slice(&0x2000u64.to_le_bytes());
    let table = table_with(b"XSDT", &body);
    let xsdt = Xsdt { header: AcpiTableHeader::decode(&table, 0, 0) };
    assert_eq!(xsdt.table_address(&table, 0), Some(0x1_0000_1000));
    assert_eq!(xsdt.table_address(&table, 2), None);
    assert_eq!(parse_rsdt_xsdt(&table), vec![0x1_0000_1000u64, 0x2000]);
}

#[test]
fn root_table_with_bad_checksum_or_other_signature_lists_nothing() {
    let mut body = Vec::new();
    body.extend_from_slice(&0x1000u32.to_le_bytes());
    let mut table = table_with(b"RSDT", &body);
    table[36] ^= 1;
    assert!(parse_rsdt_xsdt(&table).is_empty());
    let table = table_with(b"ABCD", &body);
    assert!(parse_rsdt_xsdt(&table).is_empty());
}

#[test]
fn madt_entry_kinds_by_code() {
    assert_eq!(MadtEntryType::from_code(0), Some(MadtEntryType::LocalApic));
    assert_eq!(MadtEntryType::from_code(1), Some(MadtEntryType::IoApic));
    assert_eq!(MadtEntryType::from_code(2), Some(MadtEntryType::InterruptSourceOverride));
    assert_eq!(MadtEntryType::from_code(15), Some(MadtEntryType::GicInterruptTranslationService));
    assert_eq!(MadtEntryType::from_code(16), None);
    assert_eq!(MadtEntryType::LocalX2Apic.code(), 9);
}

#[test]
fn madt_is_taken_in() {
    let table = table_with(b"APIC", &madt_body());
    let mut catalog = HardwareCatalog::new();
    let mut manager = DeviceManager::new();
    parse_madt(&mut catalog, &mut manager, &table);
    assert_eq!(get_local_apic_address(&catalog), Some(0xFEE0_0000));
    assert_eq!(
        get_ioapics(&catalog),
        vec![
            IoApicInfo { id: 2, addr: 0xFEC0_0000, gsi_base: 0 },
            IoApicInfo { id: 3, addr: 0xFEC0_1000, gsi_base: 24 },
        ]
    );
    assert_eq!(get_isos(&catalog), vec![IsoInfo { bus: 0, source: 0, gsi: 2, flags: 5 }]);
    assert_eq!(manager.devices.len(), 2);
    let first = &manager.devices[0].device;
    assert_eq!(first.id, 1);
    assert_eq!(first.info.vendor_id, 0xffff);
    assert_eq!(first.info.device_id, 2);
    assert_eq!(first.info.class, 0x08);
    assert_eq!(first.info.description, "ACPI IOAPIC id=2 gsi_base=0");
    assert_eq!(first.info.resources.len(), 1);
    assert_eq!(first.info.resources[0].kind, ResourceKind::MemoryMapped);
    assert_eq!(first.info.resources[0].addr, 0xFEC0_0000);
    assert_eq!(first.info.resources[0].len, 0x100);
    assert_eq!(manager.devices[1].device.info.description, "ACPI IOAPIC id=3 gsi_base=24");
}

#[test]
fn madt_with_bad_checksum_changes_nothing() {
    let mut table = table_with(b"APIC", &madt_body());
    table[40] ^= 0x10;
    let mut catalog = HardwareCatalog::new();
    let mut manager = DeviceManager::new();
    parse_madt(&mut catalog, &mut manager, &table);
    assert_eq!(get_local_apic_address(&catalog), None);
    assert!(get_ioapics(&catalog).is_empty());
    assert!(get_isos(&catalog).is_empty());
    assert!(manager.devices.is_empty());
}

#[test]
fn madt_walk_stops_at_an_entry_of_length_zero() {
    let mut body = Vec::new();
    body.extend_from_slice(&0xFEE0_0000u32.to_le_bytes());
    body.extend_from_slice(&0u32.to_le_bytes());
    body.extend_from_slice(&[1, 12, 7, 0]);
    body.extend_from_slice(&0xFEC0_0000u32.to_le_bytes());
    body.extend_from_slice(&0u32.to_le_bytes());
    body.extend_from_slice(&[5, 0, 0, 0]);
    body.extend_from_slice(&[1, 12, 8, 0]);
    body.extend_from_slice(&0xFEC0_1000u32.to_le_bytes());
    body.extend_from_slice(&24u32.to_le_bytes());
    let table = table_with(b"APIC", &body);
    let records = madt_records(&table);
    assert_eq!(
        records,
        vec![MadtRecord::IoApic(IoApicInfo { id: 7, addr: 0xFEC0_0000, gsi_base: 0 })]
    );
}

#[test]
fn madt_entries_that_are_too_short_are_skipped() {
    let mut body = Vec::new();
    body.extend_from_slice(&0u32.to_le_bytes());
    body.extend_from_slice(&0u32.to_le_bytes());
    // an I/O interrupt controller entry of only 8 bytes
    body.extend_from_slice(&[1, 8, 7, 0, 0, 0, 0, 0]);
    // an override of only 8 bytes
    body.extend_from_slice(&[2, 8, 0, 9, 0, 0, 0, 0]);
    body.extend_from_slice(&[2, 10, 0, 9]);
    body.extend_from_slice(&20u32.to_le_bytes());
    body.extend_from_slice(&0u16.to_le_bytes());
    let table = table_with(b"APIC", &body);
    assert_eq!(
        madt_records(&table),
        vec![MadtRecord::Override(IsoInfo { bus: 0, source: 9, gsi: 20, flags: 0 })]
    );
}

fn hpet_table(address: u64, period: u32) -> Vec<u8> {
    let mut body = vec![0u8; 31];
    // the address structure starts at offset 47 of the table; its address at 51
    body[15..23].copy_from_slice(&address.to_le_bytes());
    body[27..31].copy_from_slice(&period.to_le_bytes());
    table_with(b"HPET", &body)
}

#[test]
fn hpet_is_taken_in() {
    let table = hpet_table(0xFED0_0000, 10_000_000);
    let mut catalog = HardwareCatalog::new();
    let mut manager = DeviceManager::new();
    parse_hpet(&mut catalog, &mut manager, &table);
    assert_eq!(get_hpet_address(&catalog), Some(0xFED0_0000));
    assert_eq!(get_hpet_period_fs(&catalog), 10_000_000);
    assert_eq!(manager.devices.len(), 1);
    let info = &manager.devices[0].device.info;
    assert_eq!(info.class, 0x04);
    assert_eq!(info.description, "ACPI HPET @ 0xfed00000");
    assert_eq!(info.resources[0].len, 0x1000);
}

#[test]
fn hpet_without_address_or_with_bad_checksum_is_ignored() {
    let mut catalog = HardwareCatalog::new();
    let mut manager = DeviceManager::new();
    parse_hpet(&mut catalog, &mut manager, &hpet_table(0, 5));
    assert_eq!(get_hpet_address(&catalog), None);
    assert_eq!(get_hpet_period_fs(&catalog), 0);
    let mut table = hpet_table(0xFED0_0000, 5);
    table[60] ^= 1;
    parse_hpet(&mut catalog, &mut manager, &table);
    assert_eq!(get_hpet_address(&catalog), None);
    assert!(manager.devices.is_empty());
}

fn mcfg_table(windows: &[(u64, u16, u8, u8)], trailing: usize) -> Vec<u8> {
    let mut body = vec![0u8; 8];
    for &(base, segment, start, end) in windows {
        body.extend_from_slice(&base.to_le_bytes());
        body.extend_from_slice(&segment.to_le_bytes());
        body.push(start);
        body.push(end);
        body.extend_from_slice(&[0, 0, 0, 0]);
    }
    body.extend(std::iter::repeat(0xEE).take(trailing));
    table_with(b"MCFG", &body)
}

#[test]
fn mcfg_is_taken_in() {
    let table = mcfg_table(&[(0xE000_0000, 0, 0, 255), (0x1_0000_0000, 1, 4, 7)], 5);
    let mut catalog = HardwareCatalog::new();
    let mut manager = DeviceManager::new();
    parse_mcfg(&mut catalog, &mut manager, &table);
    let windows: Vec<McfgAllocation> = get_mcfg_allocs(&catalog);
    assert_eq!(windows.len(), 2);
    assert_eq!(windows[0].base_address, 0xE000_0000);
    assert_eq!(windows[0].end_bus, 255);
    assert_eq!(windows[1].base_address, 0x1_0000_0000);
    assert_eq!(windows[1].pci_segment_group, 1);
    assert_eq!(windows[1].start_bus, 4);
    assert_eq!(manager.devices.len(), 2);
    assert_eq!(
        manager.devices[0].device.info.description,
        "ACPI MCFG ECAM seg=0 buses=0..255 @ 0xe0000000"
    );
    assert_eq!(
        manager.devices[1].device.info.description,
        "ACPI MCFG ECAM seg=1 buses=4..7 @ 0x100000000"
    );
    assert_eq!(manager.devices[1].device.info.device_id, 1);
    assert_eq!(manager.devices[1].device.info.class, 0x06);
    assert_eq!(manager.devices[1].device.info.resources[0].len, 0);
}

#[test]
fn mcfg_without_room_for_a_window_holds_none() {
    let table = mcfg_table(&[], 15);
    let mut catalog = HardwareCatalog::new();
    let mut manager = DeviceManager::new();
    parse_mcfg(&mut catalog, &mut manager, &table);
    assert!(get_mcfg_allocs(&catalog).is_empty());
    assert!(manager.devices.is_empty());
}

fn facp_table(smi_cmd: u32, enable: u8, disable: u8, pm1a: u32) -> Vec<u8> {
    let mut body = vec![0u8; 244 - 36];
    body[12..16].copy_from_slice(&smi_cmd.to_le_bytes());
    body[16] = enable;
    body[17] = disable;
    body[28..32].copy_from_slice(&pm1a.to_le_bytes());
    table_with(b"FACP", &body)
}

#[test]
fn facp_fields_are_read_at_their_offsets() {
    let table = facp_table(0xB2, 0xF1, 0xF0, 0x604);
    let facp = Facp::decode(&table, 0, 0);
    assert_eq!(facp.smi_cmd, 0xB2);
    assert_eq!(facp.acpi_enable, 0xF1);
    assert_eq!(facp.acpi_disable, 0xF0);
    assert_eq!(facp.pm1a_cnt_blk, 0x604);
    assert_eq!(facp.header.length, 244);
    let enable = enable_acpi(&facp);
    assert_eq!(enable, parse_facp(&table));
    assert_eq!(enable.stage, AcpiEnableStage::Start);
    assert_eq!(enable.polls_left, ACPI_ENABLE_POLLS);
}

#[test]
fn enabling_writes_disable_then_enable_then_polls() {
    let mut enable = parse_facp(&facp_table(0xB2, 0xF1, 0xF0, 0x604));
    assert_eq!(enable.step(0), AcpiEnableAction::WritePort { port: 0xB2, value: 0xF0 });
    assert_eq!(enable.step(0), AcpiEnableAction::Delay { iterations: ACPI_SETTLE_DELAY });
    assert_eq!(enable.step(0), AcpiEnableAction::WritePort { port: 0xB2, value: 0xF1 });
    assert_eq!(enable.step(0), AcpiEnableAction::ReadPort { port: 0x604 });
    assert_eq!(enable.step(0x00), AcpiEnableAction::Delay { iterations: ACPI_POLL_DELAY });
    assert_eq!(enable.step(0), AcpiEnableAction::ReadPort { port: 0x604 });
    assert_eq!(enable.step(0x01), AcpiEnableAction::Done { confirmed: true });
    assert_eq!(enable.step(0), AcpiEnableAction::Done { confirmed: true });
    assert_eq!(enable.stage, AcpiEnableStage::Done);
}

#[test]
fn enabling_skips_writes_without_port_or_code() {
    let mut enable = parse_facp(&facp_table(0, 0xF1, 0xF0, 0));
    assert_eq!(enable.step(0), AcpiEnableAction::Delay { iterations: ACPI_SETTLE_DELAY });
    assert_eq!(enable.step(0), AcpiEnableAction::Done { confirmed: false });
    let mut enable = parse_facp(&facp_table(0xB2, 0xF1, 0, 0x604));
    assert_eq!(enable.step(0), AcpiEnableAction::Delay { iterations: ACPI_SETTLE_DELAY });
    assert_eq!(enable.step(0), AcpiEnableAction::WritePort { port: 0xB2, value: 0xF1 });
    assert_eq!(enable.step(0), AcpiEnableAction::ReadPort { port: 0x604 });
}

#[test]
fn enabling_gives_up_after_the_last_poll() {
    let mut enable = parse_facp(&facp_table(0, 0, 0, 0x604));
    enable.polls_left = 2;
    assert_eq!(enable.step(0), AcpiEnableAction::Delay { iterations: ACPI_SETTLE_DELAY });
    assert_eq!(enable.step(0), AcpiEnableAction::ReadPort { port: 0x604 });
    assert_eq!(enable.step(0xFE), AcpiEnableAction::Delay { iterations: ACPI_POLL_DELAY });
    assert_eq!(enable.step(0), AcpiEnableAction::ReadPort { port: 0x604 });
    assert_eq!(enable.step(0xFE), AcpiEnableAction::Delay { iterations: ACPI_POLL_DELAY });
    assert_eq!(enable.step(0), AcpiEnableAction::Done { confirmed: false });
}

#[test]
fn tables_are_taken_in_by_their_kind() {
    let mut catalog = HardwareCatalog::new();
    let mut manager = DeviceManager::new();
    let madt = table_with(b"APIC", &madt_body());
    assert!(parse_specific_table(&mut catalog, &mut manager, b"APIC", &madt).is_none());
    assert_eq!(get_ioapics(&catalog).len(), 2);
    let hpet = hpet_table(0xFED0_0000, 1);
    assert!(parse_specific_table(&mut catalog, &mut manager, b"HPET", &hpet).is_none());
    assert_eq!(get_hpet_address(&catalog), Some(0xFED0_0000));
    let mcfg = mcfg_table(&[(0xE000_0000, 0, 0, 255)], 0);
    assert!(parse_specific_table(&mut catalog, &mut manager, b"MCFG", &mcfg).is_none());
    assert_eq!(get_mcfg_allocs(&catalog).len(), 1);
    let facp = facp_table(0xB2, 1, 2, 0x604);
    let enable = parse_specific_table(&mut catalog, &mut manager, b"FACP", &facp);
    assert_eq!(enable, Some(parse_facp(&facp)));
    let before = manager.devices.len();
    assert!(parse_specific_table(&mut catalog, &mut manager, b"SSDT", &madt).is_none());
    assert_eq!(manager.devices.len(), before);
    assert_eq!(get_ioapics(&catalog).len(), 2);
}

#[test]
fn a_valid_table_is_registered_and_taken_in() {
    let mut catalog = HardwareCatalog::new();
    let mut manager = DeviceManager::new();
    let madt = table_with(b"APIC", &madt_body());
    let enable = print_table_info(&mut catalog, &mut manager, 0x7FE0_1000, &madt);
    assert!(enable.is_none());
    assert_eq!(manager.devices.len(), 3);
    let table_device = &manager.devices[0].device.info;
    assert_eq!(table_device.vendor_id, 0xffff);
    assert_eq!(table_device.device_id, 0xffff);
    assert_eq!(table_device.class, 0xFF);
    assert_eq!(table_device.description, "ACPI table: APIC");
    assert_eq!(table_device.resources[0].addr, 0x7FE0_1000);
    assert_eq!(table_device.resources[0].len, madt.len() as u64);
    assert_eq!(manager.devices[1].device.info.description, "ACPI IOAPIC id=2 gsi_base=0");
    assert_eq!(get_local_apic_address(&catalog), Some(0xFEE0_0000));

    let facp = facp_table(0xB2, 1, 2, 0x604);
    let enable = print_table_info(&mut catalog, &mut manager, 0x7FE0_2000, &facp);
    assert_eq!(enable, Some(parse_facp(&facp)));
    assert_eq!(manager.devices.len(), 4);
    assert_eq!(manager.devices[3].device.info.description, "ACPI table: FACP");
}

#[test]
fn a_table_with_bad_checksum_is_dropped_whole() {
    let mut catalog = HardwareCatalog::new();
    let mut manager = DeviceManager::new();
    let mut madt = table_with(b"APIC", &madt_body());
    madt[50] = madt[50].wrapping_add(1);
    assert!(print_table_info(&mut catalog, &mut manager, 0x1000, &madt).is_none());
    assert!(manager.devices.is_empty());
    assert!(get_ioapics(&catalog).is_empty());
    assert_eq!(get_local_apic_address(&catalog), None);
    let mut facp = facp_table(0xB2, 1, 2, 0x604);
    facp[100] ^= 0xFF;
    assert!(print_table_info(&mut catalog, &mut manager, 0x1000, &facp).is_none());
}

#[test]
fn local_apic_address_of_zero_counts_as_unknown() {
    let mut body = madt_body();
    body[0..4].copy_from_slice(&0u32.to_le_bytes());
    let table = table_with(b"APIC", &body);
    let mut catalog = HardwareCatalog::new();
    let mut manager = DeviceManager::new();
    parse_madt(&mut catalog, &mut manager, &table);
    assert_eq!(get_local_apic_address(&catalog), None);
    assert_eq!(get_ioapics(&catalog).len(), 2);
}

#[test]
fn a_table_at_the_null_address_is_not_read() {
    assert_eq!(
        mapped_table_address(0x7FE0_0000, 0xFFFF_8000_0000_0000),
        Some(0xFFFF_8000_7FE0_0000)
    );
    assert_eq!(mapped_table_address(0x1000, 0), Some(0x1000));
    assert_eq!(mapped_table_address(0, 0), None);
    assert_eq!(mapped_table_address(0x1000, 0xFFFF_FFFF_FFFF_F000), None);
    assert_eq!(mapped_table_address(0x2000, 0xFFFF_FFFF_FFFF_F000), Some(0x1000));
}
