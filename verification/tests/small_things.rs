use neutrix::bootvga::vga_buffer::Color;
use neutrix::devices::acpi::Rsdp;
use neutrix::driver_framework::drivers::vbe_vga::{
    get_boot_phys_offset, set_boot_phys_offset, vbe_color_from_vga_color, BootPhysOffset,
    FONT8X8, VGA8X8,
};
use neutrix::hal::hal::{get_cpu_vendor_string, init_acpi, is_acpi_available, AcpiStatus};
use neutrix::memory::kmalloc::{kmalloc, kmalloc_default, kmalloc_uninit, kvec_with_capacity};

#[test]
fn allocation_helpers() {
    assert_eq!(*kmalloc(41u32), 41);
    assert_eq!(*kmalloc_default::<u64>(), 0);
    assert_eq!(*kmalloc_default::<Option<u8>>(), None);
    let v: Vec<u16> = kvec_with_capacity(12);
    assert!(v.is_empty());
    assert!(v.capacity() >= 12);
    let mut room = kmalloc_uninit::<u32>();
    room.write(7);
    assert_eq!(*kmalloc(String::from("x")), "x");
}

#[test]
fn glyphs_of_the_printable_characters() {
    assert_eq!(VGA8X8::get_glyph(b' '), Some([0u8; 8]));
    assert_eq!(
        VGA8X8::get_glyph(b'A'),
        Some([0x10, 0x38, 0x6c, 0xc6, 0xfe, 0xc6, 0xc6, 0x00])
    );
    assert_eq!(
        VGA8X8::get_glyph(b'~'),
        Some([0x76, 0xdc, 0x00, 0x00, 0x00, 0x00, 0x00, 0x00])
    );
    assert_eq!(VGA8X8::get_glyph(0x1F), None);
    assert_eq!(VGA8X8::get_glyph(0x7F), None);
    assert_eq!(VGA8X8::get_glyph(0xFF), None);
    assert_eq!(VGA8X8::get_glyph(b'!'), Some(FONT8X8[1]));
    assert_eq!(FONT8X8.len(), 95);
}

#[test]
fn text_colours_as_pixels() {
    assert_eq!(vbe_color_from_vga_color(Color::Black), 0xFF000000);
    assert_eq!(vbe_color_from_vga_color(Color::Blue), 0xFF0000AA);
    assert_eq!(vbe_color_from_vga_color(Color::Brown), 0xFFAA5500);
    assert_eq!(vbe_color_from_vga_color(Color::LightGray), 0xFFAAAAAA);
    assert_eq!(vbe_color_from_vga_color(Color::Pink), 0xFFFF55FF);
    assert_eq!(vbe_color_from_vga_color(Color::Yellow), 0xFFFFFF55);
    assert_eq!(vbe_color_from_vga_color(Color::White), 0xFFFFFFFF);
}

#[test]
fn boot_offset_is_kept() {
    let mut cell = BootPhysOffset { value: 0 };
    assert_eq!(get_boot_phys_offset(&cell), 0);
    set_boot_phys_offset(&mut cell, 0xFFFF_8000_0000_0000);
    assert_eq!(get_boot_phys_offset(&cell), 0xFFFF_8000_0000_0000);
}

#[test]
fn vendor_text() {
    assert_eq!(get_cpu_vendor_string(b"GenuineIntel"), "GenuineIntel");
    assert_eq!(get_cpu_vendor_string(b"AuthenticAMD"), "AuthenticAMD");
    let mut odd = *b"GenuineIntel";
    odd[3] = 0xFF;
    assert_eq!(get_cpu_vendor_string(&odd), "Unknown");
}

#[test]
fn firmware_tables_count_as_found_with_a_root_pointer() {
    assert_eq!(init_acpi(&None), AcpiStatus::NotAvailable);
    assert!(!is_acpi_available(&None));
    let rsdp = Rsdp::decode(&[0u8; 36], 0, 0);
    assert_eq!(init_acpi(&Some(rsdp)), AcpiStatus::Enabled);
    assert!(is_acpi_available(&Some(rsdp)));
}
