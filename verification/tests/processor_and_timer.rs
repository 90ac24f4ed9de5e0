use neutrix::arch::processor::{
    bit_set, detect_cpu_features, disable_pit_timer, enable_cpu_features, needs_extended_leaf,
    CpuFeatures, CpuStep, CpuidLeaves, PortWrite, PIT_DISABLED_MESSAGE,
};
use neutrix::arch::tsc_timer::{
    calibrate, calibration_counter, calibration_elapsed, counter_pages, deadline_timer_supported,
    next_deadline, saturating_product, PageMapping, DEFAULT_PERIOD_CYCLES,
};
use neutrix::hal::hal::init_cpu;

fn leaves() -> CpuidLeaves {
    CpuidLeaves {
        max_extended: 0x8000_0008,
        extended_ecx: 0,
        extended_edx: 0,
        basic_ecx: 0,
        basic_edx: 0,
        leaf7_ebx: 0,
        leaf7_ecx: 0,
    }
}

#[test]
fn bits_are_tested_one_by_one() {
    assert!(bit_set(0x8000_0000, 31));
    assert!(!bit_set(0x7FFF_FFFF, 31));
    assert!(bit_set(1, 0));
    assert!(!bit_set(2, 0));
}

#[test]
fn no_flags_no_features() {
    assert_eq!(detect_cpu_features(&leaves()), CpuFeatures::default());
    assert!(!CpuFeatures::default().sse);
    assert!(!CpuFeatures::default().pks);
}

#[test]
fn basic_flags() {
    let mut l = leaves();
    l.basic_edx = (1 << 0) | (1 << 4) | (1 << 5) | (1 << 9) | (1 << 25) | (1 << 26);
    l.basic_ecx = (1 << 0) | (1 << 24) | (1 << 27) | (1 << 28) | (1 << 31);
    let f = detect_cpu_features(&l);
    assert!(f.fpu && f.tsc && f.msr && f.apic && f.sse && f.sse2);
    assert!(f.sse3 && f.tsc_deadline && f.osxsave && f.avx && f.hypervisor);
    assert!(!f.vme && !f.pae && !f.ssse3 && !f.x2apic && !f.rdrand);
    assert!(!f.syscall && !f.avx2);
    let mut expected = CpuFeatures::default();
    expected.fpu = true;
    expected.tsc = true;
    expected.msr = true;
    expected.apic = true;
    expected.sse = true;
    expected.sse2 = true;
    expected.sse3 = true;
    expected.tsc_deadline = true;
    expected.osxsave = true;
    expected.avx = true;
    expected.hypervisor = true;
    assert_eq!(f, expected);
}

#[test]
fn leaf7_flags() {
    let mut l = leaves();
    l.leaf7_ebx = (1 << 5) | (1 << 16) | (1 << 29) | (1 << 31);
    l.leaf7_ecx = (1 << 1) | (1 << 24);
    let f = detect_cpu_features(&l);
    assert!(f.avx2 && f.avx512f && f.sha && f.avx512vl);
    assert!(f.avx512vbmi && f.pks);
    assert!(!f.fsgsbase && !f.umip && !f.sgx_lc);
}

#[test]
fn extended_flags_need_the_extended_leaf() {
    let mut l = leaves();
    l.extended_edx = (1 << 11) | (1 << 20) | (1 << 29);
    l.extended_ecx = (1 << 0) | (1 << 29);
    let f = detect_cpu_features(&l);
    assert!(f.syscall && f.nx && f.lm && f.lahf_lm && f.mwaitx);
    l.max_extended = 0x8000_0000;
    let f = detect_cpu_features(&l);
    assert!(!f.syscall && !f.nx && !f.lm && !f.lahf_lm && !f.mwaitx);
    assert_eq!(f, CpuFeatures::default());
    assert!(needs_extended_leaf(0x8000_0001));
    assert!(!needs_extended_leaf(0x8000_0000));
    assert!(!needs_extended_leaf(7));
}

#[test]
fn nothing_to_enable_without_features() {
    assert!(enable_cpu_features(&CpuFeatures::default()).is_empty());
}

#[test]
fn enabling_goes_in_the_order_of_the_list() {
    let mut f = CpuFeatures::default();
    f.popcnt = true;
    f.tsc = true;
    f.sse = true;
    f.avx = true;
    f.osxsave = true;
    f.sse4_2 = true;
    assert_eq!(
        enable_cpu_features(&f),
        vec![
            CpuStep::EnableSse,
            CpuStep::Message("[CPU] Enabled SSE"),
            CpuStep::Message("[CPU] Enabled TSC"),
            CpuStep::DisablePit,
            CpuStep::Message("[CPU] Enabled SSE4.2"),
            CpuStep::EnableAvx,
            CpuStep::Message("[CPU] Enabled AVX"),
            CpuStep::Message("[CPU] Enabled POPCNT"),
        ]
    );
}

#[test]
fn avx_needs_the_operating_system_flag() {
    let mut f = CpuFeatures::default();
    f.avx = true;
    assert!(enable_cpu_features(&f).is_empty());
    f.avx = false;
    f.osxsave = true;
    assert!(enable_cpu_features(&f).is_empty());
    f.avx2 = true;
    f.threednow = true;
    assert_eq!(
        enable_cpu_features(&f),
        vec![CpuStep::Message("[CPU] Enabled AVX2"), CpuStep::Message("[CPU] Enabled 3DNow!")]
    );
}

#[test]
fn every_listed_feature_has_its_message() {
    let all = CpuidLeaves {
        max_extended: 0xFFFF_FFFF,
        extended_ecx: 0xFFFF_FFFF,
        extended_edx: 0xFFFF_FFFF,
        basic_ecx: 0xFFFF_FFFF,
        basic_edx: 0xFFFF_FFFF,
        leaf7_ebx: 0xFFFF_FFFF,
        leaf7_ecx: 0xFFFF_FFFF,
    };
    let steps = enable_cpu_features(&detect_cpu_features(&all));
    assert_eq!(steps.len(), 36 + 3);
    assert_eq!(steps[0], CpuStep::EnableSse);
    assert_eq!(steps[steps.len() - 1], CpuStep::Message("[CPU] Enabled POPCNT"));
    assert!(steps.contains(&CpuStep::Message("[CPU] Enabled AVX-512VPOPCNTDQ")));
}

#[test]
fn the_interval_timer_is_stopped_with_three_writes() {
    assert_eq!(
        disable_pit_timer(),
        [
            PortWrite { port: 0x43, value: 0x30 },
            PortWrite { port: 0x40, value: 0x00 },
            PortWrite { port: 0x40, value: 0x00 },
        ]
    );
    assert_eq!(PIT_DISABLED_MESSAGE, "[CPU] Disabled PIT timer, switched to TSC timing");
}

#[test]
fn processor_info_holds_vendor_and_features() {
    let mut l = leaves();
    l.basic_edx = 1 << 4;
    let info = init_cpu(*b"GenuineIntel", &l);
    assert_eq!(&info.vendor, b"GenuineIntel");
    assert!(info.features.tsc);
    assert!(!info.features.msr);
}

#[test]
fn the_deadline_timer_needs_three_features() {
    let mut f = CpuFeatures::default();
    assert!(!deadline_timer_supported(&f));
    f.msr = true;
    f.tsc = true;
    assert!(!deadline_timer_supported(&f));
    f.tsc_deadline = true;
    assert!(deadline_timer_supported(&f));
    f.tsc = false;
    assert!(!deadline_timer_supported(&f));
}

#[test]
fn only_a_low_event_timer_is_used_for_calibration() {
    assert_eq!(calibration_counter(None), None);
    assert_eq!(calibration_counter(Some(0xFED0_0000)), Some(0xFED0_00F0));
    assert_eq!(calibration_counter(Some(0xFFFF_FFFF)), Some(0x1_0000_00EF));
    assert_eq!(calibration_counter(Some(0x1_0000_0000)), None);
    assert_eq!(calibration_counter(Some(0)), Some(0xF0));
}

#[test]
fn counter_pages_cover_the_eight_bytes() {
    assert_eq!(
        counter_pages(0xFED0_00F0, 0xFFFF_8000_0000_0000),
        vec![PageMapping { phys_page: 0xFED0_0000, virt_page: 0xFFFF_8000_FED0_0000 }]
    );
    assert_eq!(
        counter_pages(0xFED0_0FFC, 0x1000),
        vec![
            PageMapping { phys_page: 0xFED0_0000, virt_page: 0xFED0_1000 },
            PageMapping { phys_page: 0xFED0_1000, virt_page: 0xFED0_2000 },
        ]
    );
    assert_eq!(counter_pages(0xFED0_0FF8, 0).len(), 1);
    assert_eq!(counter_pages(0xFED0_0FF9, 0).len(), 2);
}

#[test]
fn calibration_waits_for_a_thousand_ticks() {
    assert!(!calibration_elapsed(100, 1099));
    assert!(calibration_elapsed(100, 1100));
    assert!(calibration_elapsed(u64::MAX - 99, 900));
    assert!(!calibration_elapsed(u64::MAX - 99, 899));
    assert!(!calibration_elapsed(5, 5));
}

#[test]
fn period_from_the_two_counters() {
    // an event timer of 100 MHz: 10^7 femtoseconds a tick. While it advanced by
    // 1000 ticks (10 microseconds), the counter advanced by 30000: 3 GHz.
    assert_eq!(calibrate(0, 1000, 0, 30_000, 10_000_000, 10), Some(30_000_000));
    assert_eq!(calibrate(500, 1500, 7, 30_007, 10_000_000, 1), Some(3_000_000));
    // whole quotients: 1 tick of 3 fs against 1 cycle is 333333333333333 Hz
    assert_eq!(calibrate(0, 1, 0, 1, 3, 1000), Some(333_333_333_333_333));
    assert_eq!(calibrate(0, 1, 0, 1, 3, 1), Some(333_333_333_333));
}

#[test]
fn period_counts_round_a_wrapped_counter() {
    assert_eq!(
        calibrate(u64::MAX - 499, 500, u64::MAX - 9_999, 20_000, 10_000_000, 10),
        Some(30_000_000)
    );
}

#[test]
fn no_period_without_progress_or_period() {
    assert_eq!(calibrate(7, 7, 0, 30_000, 10_000_000, 10), None);
    assert_eq!(calibrate(0, 1000, 0, 30_000, 0, 10), None);
    assert_eq!(calibrate(0, 1000, 5, 5, 10_000_000, 10), None);
    assert_eq!(calibrate(0, 1000, 0, 30_000, 10_000_000, 0), None);
    // a frequency below 1000 Hz gives no whole cycle in a millisecond
    assert_eq!(calibrate(0, 1_000_000, 0, 1, 1_000_000_000_000, 1), None);
}

#[test]
fn period_is_cut_to_64_bits() {
    // 2^64 - 1 cycles in one tick of one femtosecond saturates the product with 10^15
    let hz = u128::MAX / 1;
    let cycles = hz / 1000;
    assert_eq!(calibrate(0, 1, 0, u64::MAX, 1, u64::MAX), Some(cycles as u64));
}

#[test]
fn products_saturate() {
    assert_eq!(saturating_product(3, 4), 12);
    assert_eq!(saturating_product(u128::MAX, 2), u128::MAX);
    assert_eq!(saturating_product(1 << 64, 1 << 64), u128::MAX);
    assert_eq!(saturating_product(1 << 64, (1 << 63) - 1), ((1u128 << 63) - 1) << 64);
    assert_eq!(saturating_product(0, u128::MAX), 0);
}

#[test]
fn deadlines_wrap() {
    assert_eq!(next_deadline(100, DEFAULT_PERIOD_CYCLES), 10_000_100);
    assert_eq!(next_deadline(u64::MAX, 2), 1);
    assert_eq!(DEFAULT_PERIOD_CYCLES, 10_000_000);
}
