use neutrix::memory::frame::{
    align_frame, find_fallback_fit, find_first_fit, frames_for, set_bit_runtime, set_range,
    test_bit, BootInfoFrameAllocator, MemoryRegion,
};
use neutrix::memory::virtual_alloc::{canonical, VirtualPageAllocator};
use neutrix::rlib::mem::{first_difference, memcmp, memcpy, memmove, memset, slow_byte_cmp};

fn usable(start: u64, end: u64) -> MemoryRegion {
    MemoryRegion { start, end, usable: true }
}

fn reserved(start: u64, end: u64) -> MemoryRegion {
    MemoryRegion { start, end, usable: false }
}

#[test]
fn frames_round_up() {
    assert_eq!(frames_for(0), 0);
    assert_eq!(frames_for(1), 1);
    assert_eq!(frames_for(0x1000), 1);
    assert_eq!(frames_for(0x1001), 2);
    assert_eq!(frames_for(u64::MAX), 0x10_0000_0000_0000);
    assert_eq!(align_frame(0x1234), Some(0x2000));
    assert_eq!(align_frame(0x2000), Some(0x2000));
    assert_eq!(align_frame(0), Some(0));
    assert_eq!(align_frame(u64::MAX), None);
    assert_eq!(align_frame(0xFFFF_FFFF_FFFF_F000), Some(0xFFFF_FFFF_FFFF_F000));
}

#[test]
fn allocator_without_usable_memory_is_empty() {
    let a = BootInfoFrameAllocator::init(&[reserved(0, 0x10_0000)], 0x1000, Some(5));
    assert_eq!(a.num_frames, 0);
    assert_eq!(a.bitmap_bytes, 0);
    assert_eq!(a.bitmap_phys_start, 0);
    assert_eq!(a.next_search, 0);
    assert_eq!(a.phys_offset, 0x1000);
    assert_eq!(a.kernel_reserved_end, Some(5));
    let a = BootInfoFrameAllocator::init(&[], 0, None);
    assert_eq!(a.num_frames, 0);
}

#[test]
fn bitmap_goes_behind_the_kernel() {
    let regions = [
        usable(0x1000, 0x9_F000),
        reserved(0x9_F000, 0x10_0000),
        usable(0x10_0000, 0x800_0000),
    ];
    let a = BootInfoFrameAllocator::init(&regions, 0, Some(0x20_0800));
    assert_eq!(a.num_frames, 0x8000);
    assert_eq!(a.bitmap_bytes, 0x1000);
    assert_eq!(a.bitmap_phys_start, 0x20_1000);
    assert_eq!(find_first_fit(&regions, Some(0x20_0800), 0x1000), 0x20_1000);
    // without a kernel end the first usable region with room is taken
    let a = BootInfoFrameAllocator::init(&regions, 0, None);
    assert_eq!(a.bitmap_phys_start, 0x1000);
}

#[test]
fn bitmap_skips_regions_that_are_too_small() {
    let regions = [usable(0x1000, 0x1800), usable(0x10_0800, 0x800_0000)];
    let a = BootInfoFrameAllocator::init(&regions, 0, None);
    assert_eq!(a.bitmap_bytes, 0x1000);
    assert_eq!(a.bitmap_phys_start, 0x10_1000);
}

#[test]
fn bitmap_falls_back_to_a_region_below_the_kernel_end() {
    let regions = [usable(0x1000, 0x400_0000)];
    assert_eq!(find_first_fit(&regions, Some(0x400_0000), 0x800), 0);
    assert_eq!(find_fallback_fit(&regions, 0x800), 0x1000);
    let a = BootInfoFrameAllocator::init(&regions, 0, Some(0x400_0000));
    assert_eq!(a.bitmap_phys_start, 0x1000);
    assert_eq!(a.bitmap_bytes, 0x800);
}

#[test]
fn a_bitmap_at_address_zero_counts_as_none() {
    let regions = [usable(0, 0x10_0000)];
    let a = BootInfoFrameAllocator::init(&regions, 0, None);
    assert_eq!(a.num_frames, 0x100);
    assert_eq!(a.bitmap_phys_start, 0);
    assert_eq!(a.bitmap_bytes, 0);
    let mut a = a;
    let mut none: [u8; 0] = [];
    assert_eq!(a.allocate_frame(&mut none), None);
    a.free_frame(&mut none, 0x1000);
    a.fill_bitmap(&mut none, &regions);
}

#[test]
fn bits_are_set_and_tested() {
    let mut bitmap = [0u8; 2];
    set_bit_runtime(&mut bitmap, 12, 0, true);
    set_bit_runtime(&mut bitmap, 12, 9, true);
    assert_eq!(bitmap, [0x01, 0x02]);
    assert!(test_bit(&bitmap, 12, 0));
    assert!(!test_bit(&bitmap, 12, 1));
    assert!(test_bit(&bitmap, 12, 9));
    // frames that the bitmap does not cover count as in use and are not touched
    assert!(test_bit(&bitmap, 12, 12));
    assert!(test_bit(&bitmap, 12, 1000));
    set_bit_runtime(&mut bitmap, 12, 13, true);
    assert_eq!(bitmap, [0x01, 0x02]);
    set_bit_runtime(&mut bitmap, 12, 0, false);
    assert_eq!(bitmap, [0x00, 0x02]);
    set_range(&mut bitmap, 12, 2, 11, true);
    assert_eq!(bitmap, [0xFC, 0x07]);
    set_range(&mut bitmap, 12, 4, 100, false);
    assert_eq!(bitmap, [0x0C, 0x00]);
}

#[test]
fn the_bitmap_starts_with_only_free_usable_frames() {
    let regions = [usable(0x2000, 0x5800), reserved(0x6000, 0x8000), usable(0x8000, 0x1_0000)];
    let a = BootInfoFrameAllocator {
        phys_offset: 0,
        kernel_reserved_end: Some(0x2800),
        bitmap_phys_start: 0x9000,
        bitmap_bytes: 2,
        num_frames: 16,
        next_search: 0,
    };
    let mut bitmap = [0u8; 2];
    a.fill_bitmap(&mut bitmap, &regions);
    let free: Vec<u64> = (0..16).filter(|&i| !test_bit(&bitmap, 16, i)).collect();
    // usable: frames 2..6 and 8..16; the kernel takes frames below 3, the bitmap frame 9
    assert_eq!(free, vec![3, 4, 5, 8, 10, 11, 12, 13, 14, 15]);
}

#[test]
fn frames_are_handed_out_first_fit_and_round() {
    let mut a = BootInfoFrameAllocator {
        phys_offset: 0,
        kernel_reserved_end: None,
        bitmap_phys_start: 0x1000,
        bitmap_bytes: 1,
        num_frames: 8,
        next_search: 0,
    };
    let mut bitmap = [0b1110_0101u8];
    assert_eq!(a.allocate_frame(&mut bitmap), Some(0x1000));
    assert_eq!(a.next_search, 2);
    assert_eq!(a.allocate_frame(&mut bitmap), Some(0x3000));
    assert_eq!(a.allocate_frame(&mut bitmap), Some(0x4000));
    assert_eq!(a.next_search, 5);
    assert_eq!(bitmap, [0xFF]);
    assert_eq!(a.allocate_frame(&mut bitmap), None);
    assert_eq!(a.next_search, 5);
    a.free_frame(&mut bitmap, 0x2abc);
    assert_eq!(bitmap, [0b1111_1011]);
    // the search goes round to the frames before where it started
    assert_eq!(a.allocate_frame(&mut bitmap), Some(0x2000));
    assert_eq!(a.next_search, 3);
    a.free_frame(&mut bitmap, 0x8000);
    a.free_frame(&mut bitmap, 0xFFFF_F000);
    assert_eq!(bitmap, [0xFF]);
}

#[test]
fn an_allocator_built_from_regions_hands_out_usable_frames() {
    let regions = [usable(0x1000, 0x4000), reserved(0x4000, 0x6000), usable(0x6000, 0x9000)];
    let mut a = BootInfoFrameAllocator::init(&regions, 0, Some(0x1800));
    assert_eq!(a.num_frames, 9);
    assert_eq!(a.bitmap_bytes, 2);
    assert_eq!(a.bitmap_phys_start, 0x2000);
    let mut bitmap = vec![0u8; a.bitmap_bytes as usize];
    a.fill_bitmap(&mut bitmap, &regions);
    let mut handed = Vec::new();
    while let Some(frame) = a.allocate_frame(&mut bitmap) {
        handed.push(frame);
    }
    assert_eq!(handed, vec![0x3000, 0x6000, 0x7000, 0x8000]);
}

#[test]
fn accepted_addresses() {
    assert!(canonical(0));
    assert!(canonical(0x0000_7FFF_FFFF_FFFF));
    assert!(!canonical(0x0000_8000_0000_0000));
    assert!(!canonical(0xFFFF_7FFF_FFFF_FFFF));
    assert!(canonical(0xFFFF_8000_0000_0000));
    assert!(canonical(u64::MAX));
}

#[test]
fn pages_are_handed_out_one_behind_the_other() {
    let mut a = VirtualPageAllocator::new(0x4444_0000_1234, 0x4444_0000_4000);
    assert_eq!(a.allocate_page(), Some(0x4444_0000_1000));
    assert_eq!(a.allocate_page(), Some(0x4444_0000_2000));
    assert_eq!(a.allocate_page(), Some(0x4444_0000_3000));
    assert_eq!(a.allocate_page(), None);
    assert_eq!(a.allocate_page(), None);
    a.reset();
    assert_eq!(a.allocate_page(), Some(0x4444_0000_1000));
}

#[test]
fn pages_in_the_upper_half_up_to_the_last() {
    let mut a = VirtualPageAllocator::new(0xFFFF_FFFF_FFFF_D000, 0xFFFF_FFFF_FFFF_F000);
    assert_eq!(a.allocate_page(), Some(0xFFFF_FFFF_FFFF_D000));
    assert_eq!(a.allocate_page(), Some(0xFFFF_FFFF_FFFF_E000));
    assert_eq!(a.allocate_page(), None);
    let mut empty = VirtualPageAllocator::new(0x2000, 0x1000);
    assert_eq!(empty.allocate_page(), None);
}

#[test]
fn bytes_are_copied_and_filled() {
    let mut dst = [1u8, 2, 3, 4, 5];
    memcpy(&mut dst, &[9, 8, 7], 2);
    assert_eq!(dst, [9, 8, 3, 4, 5]);
    memcpy(&mut dst, &[0, 0, 0], 0);
    assert_eq!(dst, [9, 8, 3, 4, 5]);
    memset(&mut dst, 0xEE, 4);
    assert_eq!(dst, [0xEE, 0xEE, 0xEE, 0xEE, 5]);
    let src: Vec<u8> = (0..=200).collect();
    let mut big = vec![0u8; 201];
    memcpy(&mut big, &src, 201);
    assert_eq!(big, src);
}

#[test]
fn bytes_are_compared_by_the_first_difference() {
    assert_eq!(memcmp(b"abc", b"abc", 3), 0);
    assert_eq!(memcmp(b"abc", b"abd", 3), -1);
    assert_eq!(memcmp(b"abd", b"abc", 3), 1);
    assert_eq!(memcmp(b"abc", b"abd", 2), 0);
    assert_eq!(memcmp(&[0x00, 5], &[0xFF, 1], 2), -255);
    assert_eq!(memcmp(&[0xFF, 1], &[0x00, 5], 2), 255);
    assert_eq!(memcmp(b"", b"", 0), 0);
    assert_eq!(slow_byte_cmp(b"axc", b"ayd", 3), -1);
    assert_eq!(first_difference(b"zzzz", b"zzza", 4), 25);
    let a: Vec<u8> = (0..100).collect();
    let mut b = a.clone();
    b[77] = 80;
    assert_eq!(memcmp(&a, &b, 100), -3);
    assert_eq!(memcmp(&a, &b, 77), 0);
}

#[test]
fn bytes_are_moved_within_a_buffer() {
    let mut buf = [0u8, 1, 2, 3, 4, 5, 6, 7];
    memmove(&mut buf, 2, 0, 4);
    assert_eq!(buf, [0, 1, 0, 1, 2, 3, 6, 7]);
    let mut buf = [0u8, 1, 2, 3, 4, 5, 6, 7];
    memmove(&mut buf, 0, 2, 4);
    assert_eq!(buf, [2, 3, 4, 5, 4, 5, 6, 7]);
    let mut buf = [0u8, 1, 2, 3];
    memmove(&mut buf, 1, 1, 3);
    assert_eq!(buf, [0, 1, 2, 3]);
    memmove(&mut buf, 0, 3, 0);
    assert_eq!(buf, [0, 1, 2, 3]);
    memmove(&mut buf, 0, 3, 1);
    assert_eq!(buf, [3, 1, 2, 3]);
}
