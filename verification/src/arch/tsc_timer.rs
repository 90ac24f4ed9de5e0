//! The deadline timer of the time-stamp counter: whether the processor has
//! it, how long a period is in counter cycles, and when the next deadline
//! falls.

use vstd::prelude::*;
use crate::arch::processor::CpuFeatures;

verus! {

/// The model-specific register that holds the deadline.
pub const IA32_TSC_DEADLINE: u32 = 0x6E0;

/// The period in counter cycles that is used until the counter was
/// measured against the event timer.
pub const DEFAULT_PERIOD_CYCLES: u64 = 10_000_000;

/// Where the main counter of the event timer lies behind its base.
pub const HPET_MAIN_COUNTER_OFFSET: u64 = 0xF0;

/// How many femtoseconds make a second.
pub const FEMTOSECONDS_PER_SECOND: u128 = 1_000_000_000_000_000;

/// How many ticks the event timer must advance while the counter is
/// measured against it.
pub const CALIBRATION_TICKS: u64 = 1000;

/// The bases of the event timer from which on it is not read without a
/// mapping of its own: 4 GiB.
pub const HPET_LOW_MEMORY_LIMIT: u64 = 0x1_0000_0000;

/// A page of physical memory to be mapped at a virtual address.
#[derive(Debug, Clone, Copy, PartialEq, Eq, Structural)]
pub struct PageMapping {
    pub phys_page: u64,
    pub virt_page: u64,
}

/// Whether the processor has what the deadline timer needs:
/// model-specific registers, the time-stamp counter and its deadline mode.
pub fn deadline_timer_supported(features: &CpuFeatures) -> (supported: bool)
    ensures
        supported == (features.msr && features.tsc_deadline && features.tsc),
{
    features.msr && features.tsc_deadline && features.tsc
}

/// The physical address of the main counter of the event timer, where the
/// timer is known and lies below [`HPET_LOW_MEMORY_LIMIT`]: only then is
/// the counter measured against it.
pub fn calibration_counter(hpet_base: Option<u64>) -> (counter: Option<u64>)
    ensures
        counter == match hpet_base {
            Some(base) => if base < HPET_LOW_MEMORY_LIMIT {
                Some((base + HPET_MAIN_COUNTER_OFFSET) as u64)
            } else {
                None
            },
            None => None,
        },
{
    match hpet_base {
        Some(base) => if base < HPET_LOW_MEMORY_LIMIT {
            Some(base + HPET_MAIN_COUNTER_OFFSET)
        } else {
            None
        },
        None => None,
    }
}

/// How many pages the eight bytes at the physical address `addr` touch.
pub open spec fn pages_touched(addr: u64) -> int {
    (addr % 0x1000 + 8 + 0xFFF) / 0x1000
}

/// The mapping of page number `i` of those that hold the eight bytes at
/// `addr`, where physical memory is mapped at `phys_offset`; the virtual
/// address wraps at 64 bits.
pub open spec fn counter_page(addr: u64, phys_offset: u64, i: int) -> PageMapping {
    let phys = addr - addr % 0x1000 + i * 0x1000;
    PageMapping {
        phys_page: phys as u64,
        virt_page: ((phys_offset + phys) % 0x1_0000_0000_0000_0000) as u64,
    }
}

/// The pages that must be mapped for the eight bytes of the counter at the
/// physical address `addr` to be read, in rising order.
pub fn counter_pages(addr: u64, phys_offset: u64) -> (pages: Vec<PageMapping>)
    requires
        addr <= HPET_LOW_MEMORY_LIMIT + HPET_MAIN_COUNTER_OFFSET,
    ensures
        pages@ == Seq::new(pages_touched(addr) as nat, |i: int| counter_page(addr, phys_offset, i)),
{
    let page_start = addr - addr % 0x1000;
    let needed = (addr % 0x1000 + 8 + 0xFFF) / 0x1000;
    let mut pages: Vec<PageMapping> = Vec::new();
    let mut i: u64 = 0;
    while i < needed
        invariant
            i <= needed <= 2,
            needed == pages_touched(addr),
            page_start == addr - addr % 0x1000,
            addr <= HPET_LOW_MEMORY_LIMIT + HPET_MAIN_COUNTER_OFFSET,
            pages@ == Seq::new(i as nat, |k: int| counter_page(addr, phys_offset, k)),
        decreases needed - i,
    {
        let phys_page = page_start + i * 0x1000;
        pages.push(PageMapping { phys_page, virt_page: phys_offset.wrapping_add(phys_page) });
        i += 1;
        assert(pages@ =~= Seq::new(i as nat, |k: int| counter_page(addr, phys_offset, k)));
    }
    pages
}

/// Whether the event timer has advanced far enough since it read `first`,
/// now that it reads `now`: by at least [`CALIBRATION_TICKS`], counting
/// round where the counter wrapped.
pub fn calibration_elapsed(first: u64, now: u64) -> (elapsed: bool)
    ensures
        elapsed == ((now + 0x1_0000_0000_0000_0000 - first) % 0x1_0000_0000_0000_0000
            >= CALIBRATION_TICKS),
{
    now.wrapping_sub(first) >= CALIBRATION_TICKS
}

/// The lesser of `v` and the greatest 128-bit number.
pub open spec fn saturated(v: int) -> int {
    if v > u128::MAX {
        u128::MAX as int
    } else {
        v
    }
}

/// The product of `a` and `b`, or the greatest 128-bit number where the
/// product is greater.
pub fn saturating_product(a: u128, b: u128) -> (p: u128)
    ensures
        p == saturated(a * b),
{
    match a.checked_mul(b) {
        Some(p) => p,
        None => u128::MAX,
    }
}

/// The period of `desired_ms` milliseconds in cycles of the time-stamp
/// counter, measured against the event timer: while the event timer
/// advanced by `hpet_ticks` ticks of `period_fs` femtoseconds each, the
/// counter advanced by `tsc_ticks` cycles. The frequency of the counter
/// is the whole quotient of `tsc_ticks` times 10^15 by `hpet_ticks` times
/// `period_fs`; the period is the whole quotient of that frequency times
/// `desired_ms` by 1000, cut to 64 bits. Products beyond 128 bits count as
/// the greatest 128-bit number. There is no period where a divisor or the
/// period itself comes to zero.
pub open spec fn calibrated_cycles(hpet_ticks: u64, tsc_ticks: u64, period_fs: u64, desired_ms: u64)
    -> Option<u64> {
    let den = saturated(hpet_ticks * period_fs);
    if hpet_ticks == 0 || den == 0 {
        None
    } else {
        let hz = saturated(tsc_ticks * FEMTOSECONDS_PER_SECOND) / den;
        let cycles = saturated(hz * desired_ms) / 1000;
        if cycles > 0 {
            Some((cycles % 0x1_0000_0000_0000_0000) as u64)
        } else {
            None
        }
    }
}

/// The period of `desired_ms` milliseconds in cycles of the time-stamp
/// counter, from two readings of the event timer, `h1` and `h2`, and the
/// readings of the counter taken with them, `t1` and `t2`; `period_fs` is
/// the period of the event timer in femtoseconds. `None` where nothing
/// can be told from the readings.
pub fn calibrate(h1: u64, h2: u64, t1: u64, t2: u64, period_fs: u64, desired_ms: u64) -> (cycles:
    Option<u64>)
    ensures
        cycles == calibrated_cycles(
            ((h2 + 0x1_0000_0000_0000_0000 - h1) % 0x1_0000_0000_0000_0000) as u64,
            ((t2 + 0x1_0000_0000_0000_0000 - t1) % 0x1_0000_0000_0000_0000) as u64,
            period_fs,
            desired_ms,
        ),
{
    let hdelta = h2.wrapping_sub(h1) as u128;
    let tdelta = t2.wrapping_sub(t1) as u128;
    if hdelta == 0 {
        return None;
    }
    let num = saturating_product(tdelta, FEMTOSECONDS_PER_SECOND);
    let den = saturating_product(hdelta, period_fs as u128);
    if den == 0 {
        return None;
    }
    let hz = num / den;
    let cycles = saturating_product(hz, desired_ms as u128) / 1000;
    if cycles > 0 {
        Some((cycles % 0x1_0000_0000_0000_0000) as u64)
    } else {
        None
    }
}

/// The deadline that follows `now` by `period` cycles, wrapping at 64
/// bits.
pub fn next_deadline(now: u64, period: u64) -> (deadline: u64)
    ensures
        deadline == (now + period) % 0x1_0000_0000_0000_0000,
{
    now.wrapping_add(period)
}

} // verus!
