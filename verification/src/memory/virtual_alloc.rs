//! Handing out pages of virtual addresses, one behind the other.

use vstd::prelude::*;
use x86_64::structures::paging::{Page, Size4KiB};
use x86_64::VirtAddr;

verus! {

/// The size of a page in bytes.
pub const PAGE_SIZE: u64 = 4096;

/// Whether `addr` is a virtual address that the processor accepts: bits
/// 48 to 63 repeat bit 47.
pub open spec fn is_canonical(addr: u64) -> bool {
    addr < 0x0000_8000_0000_0000 || addr >= 0xFFFF_8000_0000_0000
}

/// Whether `a` and `b` lie on the same side of the gap between the
/// addresses that the processor accepts.
pub open spec fn same_half(a: u64, b: u64) -> bool {
    (a < 0x0000_8000_0000_0000) == (b < 0x0000_8000_0000_0000)
}

/// Whether `addr` is a virtual address that the processor accepts.
pub fn canonical(addr: u64) -> (ok: bool)
    ensures
        ok == is_canonical(addr),
{
    addr < 0x0000_8000_0000_0000 || addr >= 0xFFFF_8000_0000_0000
}

/// The start of the page that holds `addr`.
///
/// Trusted: this is `Page::<Size4KiB>::containing_address` of the crate
/// `x86_64`, applied to `VirtAddr::new(addr)`. The source aligns the
/// address down to the page size, which leaves an accepted address
/// accepted; `VirtAddr::new` panics on other addresses.
#[verifier::external_body]
fn page_start(addr: u64) -> (start: u64)
    requires
        is_canonical(addr),
    ensures
        start == addr - addr % PAGE_SIZE,
{
    Page::<Size4KiB>::containing_address(VirtAddr::new(addr)).start_address().as_u64()
}

/// The address `by` bytes behind `addr`.
///
/// Trusted: this is the addition of `u64` to `VirtAddr` of the crate
/// `x86_64`, which panics where the sum overflows or is not an accepted
/// address, and is the plain sum otherwise.
#[verifier::external_body]
fn advance(addr: u64, by: u64) -> (next: u64)
    requires
        is_canonical(addr),
        addr + by <= u64::MAX,
        is_canonical((addr + by) as u64),
    ensures
        next == addr + by,
{
    (VirtAddr::new(addr) + by).as_u64()
}

/// An allocator that hands out the pages of a range of virtual addresses
/// one behind the other and never takes one back.
pub struct VirtualPageAllocator {
    start: u64,
    end: u64,
    next: u64,
}

impl VirtualPageAllocator {
    /// Where the range starts.
    pub closed spec fn start(&self) -> u64 {
        self.start
    }

    /// Where the range ends.
    pub closed spec fn end(&self) -> u64 {
        self.end
    }

    /// Where the next page is taken from.
    pub closed spec fn next(&self) -> u64 {
        self.next
    }

    /// The range lies on one side of the gap, ends at a page boundary, and
    /// the next page is taken from within it.
    pub open spec fn wf(&self) -> bool {
        &&& is_canonical(self.start())
        &&& is_canonical(self.end())
        &&& is_canonical(self.next())
        &&& same_half(self.start(), self.end())
        &&& same_half(self.next(), self.end())
        &&& self.end() % PAGE_SIZE == 0
    }

    /// An allocator for the pages from `start` up to `end`. `end` must be
    /// the start of a page, and both addresses must be accepted by the
    /// processor and lie on the same side of the gap.
    pub fn new(start: u64, end: u64) -> (a: VirtualPageAllocator)
        requires
            is_canonical(start),
            is_canonical(end),
            same_half(start, end),
            end % PAGE_SIZE == 0,
        ensures
            a.wf(),
            a.start() == start,
            a.end() == end,
            a.next() == start,
    {
        VirtualPageAllocator { start, end, next: start }
    }

    /// An allocator for the pages from `start` up to `end`, where the two
    /// addresses make a range that pages can be handed out of; `None`
    /// otherwise.
    pub fn try_new(start: u64, end: u64) -> (a: Option<VirtualPageAllocator>)
        ensures
            a is Some <==> is_canonical(start) && is_canonical(end) && same_half(start, end) && end
                % PAGE_SIZE == 0,
            a is Some ==> a->Some_0.wf() && a->Some_0.start() == start && a->Some_0.end() == end
                && a->Some_0.next() == start,
    {
        if canonical(start) && canonical(end) && (start < 0x0000_8000_0000_0000) == (end
            < 0x0000_8000_0000_0000) && end % PAGE_SIZE == 0 {
            Some(VirtualPageAllocator::new(start, end))
        } else {
            None
        }
    }

    /// Hands out the next page, as the address of its start; `None` once
    /// the range is used up.
    pub fn allocate_page(&mut self) -> (page: Option<u64>)
        requires
            old(self).wf(),
        ensures
            final(self).wf(),
            final(self).start() == old(self).start(),
            final(self).end() == old(self).end(),
            old(self).next() >= old(self).end() ==> page is None && final(self).next() == old(self).next(),
            old(self).next() < old(self).end() ==> page == Some(
                (old(self).next() - old(self).next() % PAGE_SIZE) as u64,
            ) && final(self).next() == old(self).next() + PAGE_SIZE,
    {
        if self.next >= self.end {
            return None;
        }
        let page = page_start(self.next);
        self.next = advance(self.next, PAGE_SIZE);
        Some(page)
    }

    /// Starts over: the next page handed out is the first of the range
    /// again.
    pub fn reset(&mut self)
        requires
            old(self).wf(),
        ensures
            final(self).wf(),
            final(self).start() == old(self).start(),
            final(self).end() == old(self).end(),
            final(self).next() == old(self).start(),
    {
        self.next = self.start;
    }
}

} // verus!
