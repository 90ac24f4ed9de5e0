use neutrix::driver_framework::device::{DeviceInfo, Resource, ResourceKind};
use neutrix::driver_framework::driver::Driver;
use neutrix::driver_framework::drivers::console::{
    boxed_driver, console_clear_first, console_print, console_print_first, console_scroll_mut,
    console_set_colors_first, console_set_cursor_first, fill_byte, get_or_create_console,
    print_byte, product3, scaled, Console, ConsoleDriver, ConsoleSet,
};
use neutrix::driver_framework::drivers::vbe_vga::{
    clear_test_box, draw_char_at, draw_pixel_at, draw_rect_at, draw_row_at, draw_text_absolute,
    framebuffer_info, pitch_of, pixel_offset, plan_mappings, row_of_char, vbe_clear_first,
    vbe_print_first, vbe_print_only, vbe_set_colors_first, vbe_set_cursor_first, vbe_try_print,
    FbMapping, FramebufferInfo, PortWriteWord, VbeVgaDriver, DEFAULT_PITCH, FONT8X8,
};
use neutrix::driver_framework::manager::DeviceManager;

const PITCH: usize = 80;

fn pixel(fb: &[u8], x: usize, y: usize) -> u32 {
    let at = y * PITCH + x * 4;
    u32::from_le_bytes([fb[at], fb[at + 1], fb[at + 2], fb[at + 3]])
}

fn screen() -> Vec<u8> {
    vec![0u8; PITCH * 20]
}

#[test]
fn a_pixel_is_four_bytes_lowest_first() {
    let mut fb = screen();
    draw_pixel_at(&mut fb, PITCH, 2, 1, 0xAABBCCDD);
    assert_eq!(&fb[88..92], &[0xDD, 0xCC, 0xBB, 0xAA]);
    assert_eq!(fb.iter().filter(|&&b| b != 0).count(), 4);
    assert_eq!(pixel_offset(fb.len(), PITCH, 2, 1), Some(88));
}

#[test]
fn pixels_outside_the_framebuffer_are_not_drawn() {
    let mut fb = vec![0u8; 10];
    draw_pixel_at(&mut fb, 4, 0, 2, 0xFFFF_FFFF);
    assert_eq!(fb, vec![0u8; 10]);
    draw_pixel_at(&mut fb, 4, 1, 1, 0xFFFF_FFFF);
    assert_eq!(fb, vec![0u8; 10]);
    draw_pixel_at(&mut fb, 4, usize::MAX, usize::MAX, 0xFFFF_FFFF);
    assert_eq!(fb, vec![0u8; 10]);
    draw_pixel_at(&mut fb, 6, 0, 1, 0x0102_0304);
    assert_eq!(fb, vec![0, 0, 0, 0, 0, 0, 4, 3, 2, 1]);
    assert_eq!(pixel_offset(10, 6, 0, 1), Some(6));
    assert_eq!(pixel_offset(10, 7, 0, 1), None);
    assert_eq!(pixel_offset(10, usize::MAX, 0, 2), None);
}

#[test]
fn rows_and_rectangles() {
    let mut fb = screen();
    draw_row_at(&mut fb, PITCH, 18, 3, 5, 7);
    assert_eq!(pixel(&fb, 17, 3), 0);
    assert_eq!(pixel(&fb, 18, 3), 7);
    assert_eq!(pixel(&fb, 19, 3), 7);
    // the row runs on into the next row of the framebuffer
    assert_eq!(pixel(&fb, 0, 4), 7);
    assert_eq!(pixel(&fb, 2, 4), 7);
    assert_eq!(pixel(&fb, 3, 4), 0);
    let mut fb = screen();
    draw_rect_at(&mut fb, PITCH, 1, 2, 3, 2, 0x00FF_00FF);
    for y in 0..20 {
        for x in 0..20 {
            let inside = (1..4).contains(&x) && (2..4).contains(&y);
            assert_eq!(pixel(&fb, x, y), if inside { 0x00FF_00FF } else { 0 }, "{} {}", x, y);
        }
    }
    draw_rect_at(&mut fb, PITCH, 18, 18, 2, 1000, 1);
    assert_eq!(pixel(&fb, 19, 19), 1);
    assert_eq!(pixel(&fb, 17, 19), 0);
    let mut flat = vec![0u8; 8];
    draw_rect_at(&mut flat, 0, 1, usize::MAX - 1, 1, 3, 0x0505_0505);
    assert_eq!(flat, vec![0, 0, 0, 0, 5, 5, 5, 5]);
}

#[test]
fn a_character_is_drawn_from_its_glyph() {
    let mut fb = screen();
    draw_char_at(&mut fb, PITCH, 4, 2, b'A', 9);
    let glyph = FONT8X8[(b'A' - 0x20) as usize];
    for r in 0..8 {
        assert_eq!(row_of_char(b'A', r as u8), glyph[r]);
        for c in 0..8 {
            let on = glyph[r] & (0x80 >> c) != 0;
            assert_eq!(pixel(&fb, 4 + c, 2 + r), if on { 9 } else { 0 });
        }
    }
    assert_eq!(pixel(&fb, 7, 2), 9);
    assert_eq!(pixel(&fb, 3, 2), 0);
}

#[test]
fn a_character_without_glyph_is_drawn_as_a_pattern() {
    let ch = 0x07u8;
    for r in 0..8u8 {
        let mixed = ch.wrapping_add(r) ^ (ch >> r);
        assert_eq!(row_of_char(ch, r), mixed.rotate_left(r as u32));
    }
    assert_eq!(row_of_char(0x7F, 3), (0x7Fu8.wrapping_add(3) ^ (0x7F >> 3)).rotate_left(3));
    let mut fb = screen();
    draw_char_at(&mut fb, PITCH, 0, 0, ch, 5);
    for r in 0..8usize {
        let bits = row_of_char(ch, r as u8);
        for c in 0..8usize {
            assert_eq!(pixel(&fb, c, r), if bits & (1 << c) != 0 { 5 } else { 0 });
        }
    }
}

#[test]
fn text_advances_nine_pixels_and_leaves_line_feeds_out() {
    let mut fb = screen();
    draw_text_absolute(&mut fb, PITCH, 1, 0, b"!\n!", 3);
    let mut expected = screen();
    draw_char_at(&mut expected, PITCH, 1, 0, b'!', 3);
    draw_char_at(&mut expected, PITCH, 10, 0, b'!', 3);
    assert_eq!(fb, expected);
    assert_ne!(fb, screen());
}

#[test]
fn the_test_box_is_blanked() {
    let mut fb = vec![0xFFu8; DEFAULT_PITCH * 301];
    clear_test_box(&mut fb);
    let at = |x: usize, y: usize| fb[y * DEFAULT_PITCH + x * 4];
    assert_eq!(at(100, 100), 0);
    assert_eq!(at(299, 299), 0);
    assert_eq!(at(99, 100), 0xFF);
    assert_eq!(at(300, 100), 0xFF);
    assert_eq!(at(100, 99), 0xFF);
    assert_eq!(at(100, 300), 0xFF);
}

#[test]
fn geometry_and_pitch() {
    assert_eq!(
        framebuffer_info(1024, 768, 32),
        Some(FramebufferInfo { width: 1024, height: 768, bpp: 32, pitch: 4096 })
    );
    assert_eq!(framebuffer_info(800, 600, 15).map(|i| i.pitch), Some(1600));
    assert_eq!(framebuffer_info(0, 600, 32), None);
    assert_eq!(framebuffer_info(800, 0, 32), None);
    assert_eq!(pitch_of(&None), 4096);
    assert_eq!(pitch_of(&framebuffer_info(10, 10, 24)), 30);
}

fn display(resources: Vec<Resource>) -> DeviceInfo {
    DeviceInfo {
        vendor_id: 0x1234,
        device_id: 0x1111,
        class: 0x03,
        subclass: 0,
        prog_if: 0,
        resources,
        capabilities: Vec::new(),
        description: "PCI 00:02.0".to_string(),
    }
}

#[test]
fn windows_are_mapped_in_whole_pages() {
    let resources = vec![
        Resource { kind: ResourceKind::MemoryMapped, addr: 0xFD00_0800, len: 0x1000 },
        Resource { kind: ResourceKind::IO, addr: 0xC000, len: 0x20 },
        Resource { kind: ResourceKind::MemoryMapped, addr: 0xFEBF_0000, len: 0 },
        Resource { kind: ResourceKind::MemoryMapped, addr: u64::MAX - 0x10, len: 0x100 },
    ];
    assert_eq!(
        plan_mappings(&resources, 0x1_0000_0000),
        vec![
            FbMapping {
                virt_base: 0x1_FD00_0000,
                phys_map_start: 0xFD00_0000,
                bar_phys: 0xFD00_0800,
                pages: 2,
            },
            FbMapping {
                virt_base: 0x1_FEBF_0000,
                phys_map_start: 0xFEBF_0000,
                bar_phys: 0xFEBF_0000,
                pages: 1,
            },
        ]
    );
}

#[test]
fn the_display_mode_is_set_through_the_interface() {
    assert!(VbeVgaDriver::set_vbe_mode_dispi(0, 1024, 768, 32).is_empty());
    assert!(VbeVgaDriver::set_vbe_mode_dispi(0xFFFF, 1024, 768, 32).is_empty());
    let writes = VbeVgaDriver::set_vbe_mode_dispi(0xB0C5, 1024, 768, 32);
    assert_eq!(writes.len(), 10);
    assert_eq!(writes[0], PortWriteWord { port: 0x01CE, value: 4 });
    assert_eq!(writes[1], PortWriteWord { port: 0x01CF, value: 0 });
    assert_eq!(writes[3], PortWriteWord { port: 0x01CF, value: 1024 });
    assert_eq!(writes[5], PortWriteWord { port: 0x01CF, value: 768 });
    assert_eq!(writes[7], PortWriteWord { port: 0x01CF, value: 32 });
    assert_eq!(writes[9], PortWriteWord { port: 0x01CF, value: 0x41 });
}

#[test]
fn the_framebuffer_driver_starts_and_stops() {
    let mut driver = VbeVgaDriver::new();
    assert_eq!(driver.probe(&display(Vec::new())), Ok(()));
    let mut other = display(Vec::new());
    other.class = 0x02;
    assert_eq!(driver.probe(&other), Err("not a display controller"));
    assert_eq!(driver.check_start(), Ok(()));
    assert_eq!(driver.start(Vec::new(), 1024, 768, 32), Err("no MMIO BARs mapped"));
    assert!(!driver.started);
    let created = plan_mappings(
        &vec![Resource { kind: ResourceKind::MemoryMapped, addr: 0xFD00_0800, len: 0x1000 }],
        0x1_0000_0000,
    );
    assert_eq!(driver.start(created.clone(), 1024, 768, 32), Ok(()));
    assert!(driver.started);
    assert_eq!(driver.fb_info.map(|i| i.pitch), Some(4096));
    assert_eq!(driver.get_framebuffer_addrs(), vec![0x1_FD00_0800]);
    assert_eq!(driver.check_start(), Err("already started"));
    assert_eq!(driver.start(created.clone(), 1, 1, 8), Err("already started"));
    assert_eq!(driver.fb_info.map(|i| i.pitch), Some(4096));
    assert_eq!(driver.stop(), created);
    assert!(!driver.started);
    assert!(driver.get_framebuffer_addrs().is_empty());
    assert!(driver.stop().is_empty());
    assert_eq!(driver.start(created, 0, 0, 0), Ok(()));
    assert_eq!(driver.fb_info.map(|i| i.pitch), Some(4096));
}

fn small_console() -> Console {
    Console {
        fb_virt: 0x1000,
        cols: 2,
        rows: 2,
        cur_x: 0,
        cur_y: 0,
        fg: 0x00FF_FFFF,
        bg: 0x0011_2233,
        char_w: 9,
        char_h: 8,
    }
}

#[test]
fn consoles_are_made_once_for_each_framebuffer() {
    let mut set = ConsoleSet { consoles: Vec::new() };
    let info = Some(FramebufferInfo { width: 1024, height: 768, bpp: 32, pitch: 4096 });
    assert_eq!(get_or_create_console(&mut set, 0xA000, &info), 0);
    assert_eq!(get_or_create_console(&mut set, 0xB000, &None), 1);
    assert_eq!(get_or_create_console(&mut set, 0xA000, &None), 0);
    assert_eq!(set.consoles.len(), 2);
    assert_eq!(
        set.consoles[0],
        Console {
            fb_virt: 0xA000,
            cols: 113,
            rows: 96,
            cur_x: 0,
            cur_y: 0,
            fg: 0xFFFF_FFFF,
            bg: 0,
            char_w: 9,
            char_h: 8,
        }
    );
    assert_eq!((set.consoles[1].cols, set.consoles[1].rows), (80, 25));
    let tiny = Some(FramebufferInfo { width: 8, height: 7, bpp: 32, pitch: 32 });
    let at = get_or_create_console(&mut set, 0xC000, &tiny);
    assert_eq!((set.consoles[at].cols, set.consoles[at].rows), (80, 25));
}

#[test]
fn printing_moves_the_cursor() {
    let mut c = small_console();
    c.cols = 20;
    let mut fb = vec![0u8; 72 * 16];
    print_byte(&mut c, &mut fb, 72, b'A');
    assert_eq!((c.cur_x, c.cur_y), (1, 0));
    let mut expected = vec![0u8; 72 * 16];
    draw_char_at(&mut expected, 72, 0, 0, b'A', 0x00FF_FFFF);
    assert_eq!(fb, expected);
    print_byte(&mut c, &mut fb, 72, b'B');
    draw_char_at(&mut expected, 72, 9, 0, b'B', 0x00FF_FFFF);
    assert_eq!(fb, expected);
    assert_eq!((c.cur_x, c.cur_y), (2, 0));
    print_byte(&mut c, &mut fb, 72, b'\r');
    assert_eq!((c.cur_x, c.cur_y), (0, 0));
    print_byte(&mut c, &mut fb, 72, b'\t');
    assert_eq!((c.cur_x, c.cur_y), (8, 0));
    print_byte(&mut c, &mut fb, 72, b'\t');
    assert_eq!((c.cur_x, c.cur_y), (16, 0));
    print_byte(&mut c, &mut fb, 72, b'\t');
    assert_eq!((c.cur_x, c.cur_y), (0, 1));
    print_byte(&mut c, &mut fb, 72, b'\n');
    // the row below the last scrolls the screen up
    assert_eq!((c.cur_x, c.cur_y), (0, 1));
}

#[test]
fn backspace_steps_back_and_blanks() {
    let mut c = small_console();
    let mut fb = vec![0u8; 72 * 16];
    c.cur_x = 1;
    print_byte(&mut c, &mut fb, 72, 8);
    assert_eq!((c.cur_x, c.cur_y), (0, 0));
    let mut expected = vec![0u8; 72 * 16];
    draw_rect_at(&mut expected, 72, 0, 0, 9, 8, 0x0011_2233);
    assert_eq!(fb, expected);
    print_byte(&mut c, &mut fb, 72, 8);
    assert_eq!((c.cur_x, c.cur_y), (0, 0));
    c.cur_y = 1;
    print_byte(&mut c, &mut fb, 72, 8);
    assert_eq!((c.cur_x, c.cur_y), (1, 0));
    draw_rect_at(&mut expected, 72, 9, 0, 9, 8, 0x0011_2233);
    assert_eq!(fb, expected);
}

#[test]
fn the_last_column_wraps_to_the_next_row() {
    let mut c = small_console();
    let mut fb = vec![0u8; 72 * 16];
    console_print(&mut c, &mut fb, 72, b"ab");
    assert_eq!((c.cur_x, c.cur_y), (0, 1));
    console_print(&mut c, &mut fb, 72, b"c");
    assert_eq!((c.cur_x, c.cur_y), (1, 1));
}

#[test]
fn scrolling_moves_rows_up_and_clears_the_last() {
    let mut c = small_console();
    c.cur_x = 1;
    c.cur_y = 1;
    let mut fb: Vec<u8> = (0..72 * 16 + 5).map(|i| (i % 251) as u8).collect();
    let before = fb.clone();
    console_scroll_mut(&mut c, &mut fb, 72, 1);
    assert_eq!((c.cur_x, c.cur_y), (1, 1));
    assert_eq!(&fb[..72 * 8], &before[72 * 8..72 * 16]);
    for j in 0..72 * 8 {
        assert_eq!(fb[72 * 8 + j], [0x33, 0x22, 0x11, 0x00][j % 4]);
    }
    assert_eq!(&fb[72 * 16..], &before[72 * 16..]);
    console_scroll_mut(&mut c, &mut fb, 72, 0);
    assert_eq!(&fb[..72 * 8], &before[72 * 8..72 * 16]);
}

#[test]
fn scrolling_by_all_rows_clears_the_screen() {
    let mut c = small_console();
    c.cur_x = 1;
    c.cur_y = 1;
    let mut fb = vec![0xEEu8; 72 * 16];
    console_scroll_mut(&mut c, &mut fb, 72, 2);
    assert_eq!((c.cur_x, c.cur_y), (0, 0));
    let mut expected = vec![0xEEu8; 72 * 16];
    draw_rect_at(&mut expected, 72, 0, 0, 18, 16, 0x0011_2233);
    assert_eq!(fb, expected);
}

#[test]
fn scrolling_leaves_a_framebuffer_alone_that_is_too_small() {
    let mut c = small_console();
    let mut fb = vec![0xEEu8; 72 * 16 - 1];
    console_scroll_mut(&mut c, &mut fb, 72, 1);
    assert_eq!(fb, vec![0xEEu8; 72 * 16 - 1]);
    let mut fb = vec![0xEEu8; 16];
    console_scroll_mut(&mut c, &mut fb, 0, 1);
    assert_eq!(fb, vec![0xEEu8; 16]);
    console_scroll_mut(&mut c, &mut fb, usize::MAX, 1);
    assert_eq!(fb, vec![0xEEu8; 16]);
}

#[test]
fn the_cleared_area_ends_in_zeros_where_it_is_not_whole_pixels() {
    assert_eq!(fill_byte(0xAABB_CCDD, 0, 6), 0xDD);
    assert_eq!(fill_byte(0xAABB_CCDD, 3, 6), 0xAA);
    assert_eq!(fill_byte(0xAABB_CCDD, 4, 6), 0);
    assert_eq!(fill_byte(0xAABB_CCDD, 5, 6), 0);
    assert_eq!(fill_byte(0xAABB_CCDD, 5, 8), 0xCC);
    assert_eq!(scaled(3, 4), 12);
    assert_eq!(scaled(usize::MAX, 2), usize::MAX);
    assert_eq!(product3(2, 3, 4), Some(24));
    assert_eq!(product3(usize::MAX, 2, 1), None);
    assert_eq!(product3(usize::MAX, 1, 2), None);
}

#[test]
fn a_line_feed_on_the_last_row_scrolls() {
    let mut c = small_console();
    let mut fb = vec![0u8; 72 * 16];
    console_print(&mut c, &mut fb, 72, b"a\nb\n");
    assert_eq!((c.cur_x, c.cur_y), (0, 1));
    let mut expected = vec![0u8; 72 * 16];
    draw_char_at(&mut expected, 72, 0, 0, b'b', 0x00FF_FFFF);
    for j in 0..72 * 8 {
        expected[72 * 8 + j] = [0x33, 0x22, 0x11, 0x00][j % 4];
    }
    assert_eq!(fb, expected);
}

#[test]
fn printing_to_the_first_console() {
    let mut set = ConsoleSet { consoles: Vec::new() };
    let info = Some(FramebufferInfo { width: 18, height: 16, bpp: 32, pitch: 72 });
    let mut fb = vec![0u8; 72 * 16];
    assert!(!console_print_first(&mut set, None, &info, &mut fb, "x"));
    assert!(set.consoles.is_empty());
    assert_eq!(fb, vec![0u8; 72 * 16]);
    assert!(console_print_first(&mut set, Some(0x5000), &info, &mut fb, "x"));
    assert_eq!(set.consoles.len(), 1);
    assert_eq!((set.consoles[0].cols, set.consoles[0].rows), (2, 2));
    assert_eq!((set.consoles[0].cur_x, set.consoles[0].cur_y), (1, 0));
    let mut expected = vec![0u8; 72 * 16];
    draw_char_at(&mut expected, 72, 0, 0, b'x', 0xFFFF_FFFF);
    assert_eq!(fb, expected);
    assert!(vbe_try_print(&mut set, Some(0x5000), &info, &mut fb, "y"));
    assert_eq!((set.consoles[0].cur_x, set.consoles[0].cur_y), (0, 1));
    vbe_print_first(&mut set, Some(0x5000), &info, &mut fb, "z");
    assert_eq!((set.consoles[0].cur_x, set.consoles[0].cur_y), (1, 1));
    vbe_print_only(&mut set, None, &info, &mut fb, "z");
    assert_eq!((set.consoles[0].cur_x, set.consoles[0].cur_y), (1, 1));
    vbe_print_only(&mut set, Some(0x5000), &info, &mut fb, "\r");
    assert_eq!((set.consoles[0].cur_x, set.consoles[0].cur_y), (0, 1));
}

#[test]
fn colours_cursor_and_clearing_of_the_first_console() {
    let mut set = ConsoleSet { consoles: Vec::new() };
    let info = Some(FramebufferInfo { width: 18, height: 16, bpp: 32, pitch: 72 });
    let mut fb = vec![0u8; 72 * 16];
    console_set_colors_first(&mut set, None, &info, 1, 2);
    assert!(set.consoles.is_empty());
    console_set_colors_first(&mut set, Some(0x5000), &info, 1, 2);
    assert_eq!((set.consoles[0].fg, set.consoles[0].bg), (1, 2));
    vbe_set_colors_first(&mut set, Some(0x5000), &info, 3, 0x0403_0201);
    assert_eq!((set.consoles[0].fg, set.consoles[0].bg), (3, 0x0403_0201));
    console_set_cursor_first(&mut set, Some(0x5000), &info, 1, 0);
    assert_eq!((set.consoles[0].cur_x, set.consoles[0].cur_y), (1, 0));
    console_set_cursor_first(&mut set, Some(0x5000), &info, 7, 9);
    assert_eq!((set.consoles[0].cur_x, set.consoles[0].cur_y), (1, 1));
    vbe_set_cursor_first(&mut set, Some(0x5000), &info, 0, 1);
    assert_eq!((set.consoles[0].cur_x, set.consoles[0].cur_y), (0, 1));
    assert!(!console_clear_first(&mut set, None, &info, &mut fb));
    assert!(console_clear_first(&mut set, Some(0x5000), &info, &mut fb));
    assert_eq!((set.consoles[0].cur_x, set.consoles[0].cur_y), (0, 0));
    let mut expected = vec![0u8; 72 * 16];
    draw_rect_at(&mut expected, 72, 0, 0, 18, 16, 0x0403_0201);
    assert_eq!(fb, expected);
    set.consoles[0].cur_x = 1;
    vbe_clear_first(&mut set, Some(0x5000), &info, &mut fb);
    assert_eq!(set.consoles[0].cur_x, 0);
}

#[test]
fn the_console_driver_accepts_every_device() {
    let mut manager = DeviceManager::new();
    let id = manager.register_device(display(Vec::new()));
    assert_eq!(manager.attach_driver(id, boxed_driver()), Ok(()));
    assert_eq!(manager.detach_driver(id), Ok(()));
    let driver = ConsoleDriver::new();
    assert_eq!(driver.probe(&manager.devices[0].device), Ok(()));
    assert_eq!(driver.start(&manager.devices[0].device), Ok(()));
}
