//! Physical frames: which are free, and handing them out.
//!
//! A bitmap holds one bit for each frame from address zero up to the end
//! of the highest usable region; a set bit means that the frame is in use.
//! The bitmap itself lies in physical memory: this module says where, and
//! works on the bytes that its caller finds there.

use vstd::prelude::*;

verus! {

/// The size of a frame in bytes.
pub const FRAME_SIZE: u64 = 0x1000;

/// A region of physical memory as the boot loader reports it: the bytes
/// from `start` up to, not including, `end`.
#[derive(Debug, Clone, Copy, PartialEq, Eq, Structural)]
pub struct MemoryRegion {
    pub start: u64,
    pub end: u64,
    /// Whether the kernel may use the region.
    pub usable: bool,
}

/// The allocator of physical frames.
#[derive(Debug, Clone, Copy, PartialEq, Eq, Structural)]
pub struct BootInfoFrameAllocator {
    /// Where physical memory is mapped.
    pub phys_offset: u64,
    /// Where the memory that the kernel itself occupies ends, if known.
    pub kernel_reserved_end: Option<u64>,
    /// The physical address of the bitmap; zero where there is none.
    pub bitmap_phys_start: u64,
    /// The size of the bitmap in bytes; zero where there is none.
    pub bitmap_bytes: u64,
    /// How many frames the bitmap covers.
    pub num_frames: u64,
    /// The frame at which the next search for a free frame starts.
    pub next_search: u64,
}

/// How many frames it takes to hold `addr` bytes.
pub open spec fn frames_up(addr: int) -> int {
    (addr + 0xFFF) / 0x1000
}

/// `addr` rounded up to the start of a frame.
pub open spec fn align_up(addr: int) -> int {
    frames_up(addr) * 0x1000
}

/// The highest end of the usable regions among `regions`; zero where none
/// is usable.
pub open spec fn highest_usable(regions: Seq<MemoryRegion>) -> u64
    decreases regions.len(),
{
    if regions.len() == 0 {
        0
    } else {
        let rest = highest_usable(regions.drop_last());
        if regions.last().usable && regions.last().end > rest {
            regions.last().end
        } else {
            rest
        }
    }
}

/// Where the bitmap would start in `region`, once the part of the region
/// below the end of the kernel is left out.
pub open spec fn start_behind_kernel(region: MemoryRegion, kernel_end: Option<u64>) -> int {
    match kernel_end {
        Some(end) => if region.start < end {
            align_up(end as int)
        } else {
            align_up(region.start as int)
        },
        None => align_up(region.start as int),
    }
}

/// Whether `region` can hold a bitmap of `bytes` bytes behind the end of
/// the kernel.
pub open spec fn holds_behind_kernel(region: MemoryRegion, kernel_end: Option<u64>, bytes: int)
    -> bool {
    &&& region.usable
    &&& kernel_end is Some ==> region.end > kernel_end->Some_0
    &&& start_behind_kernel(region, kernel_end) + bytes <= region.end
}

/// Where a bitmap of `bytes` bytes starts in the first of the regions from
/// number `from` on that can hold it behind the end of the kernel; zero
/// where none can.
pub open spec fn first_fit(
    regions: Seq<MemoryRegion>,
    kernel_end: Option<u64>,
    bytes: int,
    from: int,
) -> int
    decreases regions.len() - from,
{
    if from < 0 || from >= regions.len() {
        0
    } else if holds_behind_kernel(regions[from], kernel_end, bytes) {
        start_behind_kernel(regions[from], kernel_end)
    } else {
        first_fit(regions, kernel_end, bytes, from + 1)
    }
}

/// Where a bitmap of `bytes` bytes starts in the first of the usable
/// regions from number `from` on that can hold it at all; zero where none
/// can.
pub open spec fn fallback_fit(regions: Seq<MemoryRegion>, bytes: int, from: int) -> int
    decreases regions.len() - from,
{
    if from < 0 || from >= regions.len() {
        0
    } else if regions[from].usable && align_up(regions[from].start as int) + bytes
        <= regions[from].end {
        align_up(regions[from].start as int)
    } else {
        fallback_fit(regions, bytes, from + 1)
    }
}

/// Where the bitmap of `bytes` bytes goes: behind the kernel where a
/// region has room there, else into the first usable region with room;
/// zero where there is no room, or only at address zero.
pub open spec fn bitmap_place(regions: Seq<MemoryRegion>, kernel_end: Option<u64>, bytes: int)
    -> int {
    if first_fit(regions, kernel_end, bytes, 0) != 0 {
        first_fit(regions, kernel_end, bytes, 0)
    } else {
        fallback_fit(regions, bytes, 0)
    }
}

/// The allocator for the memory that `regions` describe: how many frames
/// there are, and where their bitmap lies.
pub open spec fn allocator_for(
    regions: Seq<MemoryRegion>,
    phys_offset: u64,
    kernel_end: Option<u64>,
) -> BootInfoFrameAllocator {
    let frames = frames_up(highest_usable(regions) as int);
    let bytes = (frames + 7) / 8;
    let place = bitmap_place(regions, kernel_end, bytes);
    BootInfoFrameAllocator {
        phys_offset,
        kernel_reserved_end: kernel_end,
        bitmap_phys_start: place as u64,
        bitmap_bytes: if place == 0 {
            0
        } else {
            bytes as u64
        },
        num_frames: frames as u64,
        next_search: 0,
    }
}

/// How many frames it takes to hold `addr` bytes.
pub fn frames_for(addr: u64) -> (frames: u64)
    ensures
        frames == frames_up(addr as int),
        frames <= 0x10_0000_0000_0000,
{
    if addr % FRAME_SIZE == 0 {
        addr / FRAME_SIZE
    } else {
        addr / FRAME_SIZE + 1
    }
}

/// `addr` rounded up to the start of a frame; `None` where that is beyond
/// 64 bits.
pub fn align_frame(addr: u64) -> (aligned: Option<u64>)
    ensures
        match aligned {
            Some(a) => a == align_up(addr as int),
            None => align_up(addr as int) > u64::MAX,
        },
{
    let frames = frames_for(addr);
    if frames > u64::MAX / FRAME_SIZE {
        None
    } else {
        Some(frames * FRAME_SIZE)
    }
}

/// Whether a bitmap of `bytes` bytes that starts at `start` ends within
/// `end`.
fn fits(start: Option<u64>, bytes: u64, end: u64) -> (ok: bool)
    ensures
        ok == (start is Some && start->Some_0 + bytes <= end),
{
    match start {
        Some(s) => match s.checked_add(bytes) {
            Some(stop) => stop <= end,
            None => false,
        },
        None => false,
    }
}

/// Where a bitmap of `bytes` bytes starts in the first region that can
/// hold it behind the end of the kernel; zero where none can.
pub fn find_first_fit(regions: &[MemoryRegion], kernel_end: Option<u64>, bytes: u64) -> (place:
    u64)
    ensures
        place == first_fit(regions@, kernel_end, bytes as int, 0),
{
    let mut i: usize = 0;
    while i < regions.len()
        invariant
            i <= regions.len(),
            first_fit(regions@, kernel_end, bytes as int, i as int) == first_fit(
                regions@,
                kernel_end,
                bytes as int,
                0,
            ),
        decreases regions.len() - i,
    {
        let region = regions[i];
        let behind_kernel = match kernel_end {
            Some(end) => region.end > end,
            None => true,
        };
        if region.usable && behind_kernel {
            let start = match kernel_end {
                Some(end) => if region.start < end {
                    align_frame(end)
                } else {
                    align_frame(region.start)
                },
                None => align_frame(region.start),
            };
            if fits(start, bytes, region.end) {
                match start {
                    Some(s) => {
                        return s;
                    },
                    None => {},
                }
            }
        }
        i += 1;
    }
    0
}

/// Where a bitmap of `bytes` bytes starts in the first usable region that
/// can hold it; zero where none can.
pub fn find_fallback_fit(regions: &[MemoryRegion], bytes: u64) -> (place: u64)
    ensures
        place == fallback_fit(regions@, bytes as int, 0),
{
    let mut i: usize = 0;
    while i < regions.len()
        invariant
            i <= regions.len(),
            fallback_fit(regions@, bytes as int, i as int) == fallback_fit(
                regions@,
                bytes as int,
                0,
            ),
        decreases regions.len() - i,
    {
        let region = regions[i];
        if region.usable {
            let start = align_frame(region.start);
            if fits(start, bytes, region.end) {
                match start {
                    Some(s) => {
                        return s;
                    },
                    None => {},
                }
            }
        }
        i += 1;
    }
    0
}

impl BootInfoFrameAllocator {
    /// The allocator for the memory that `regions` describe. The bitmap
    /// is not touched: [`BootInfoFrameAllocator::fill_bitmap`] writes it.
    pub fn init(regions: &[MemoryRegion], phys_offset: u64, kernel_reserved_end: Option<u64>) -> (a:
        BootInfoFrameAllocator)
        ensures
            a == allocator_for(regions@, phys_offset, kernel_reserved_end),
    {
        let mut max_addr: u64 = 0;
        let mut i: usize = 0;
        while i < regions.len()
            invariant
                i <= regions.len(),
                max_addr == highest_usable(regions@.take(i as int)),
            decreases regions.len() - i,
        {
            proof {
                assert(regions@.take(i as int + 1).drop_last() =~= regions@.take(i as int));
            }
            if regions[i].usable && regions[i].end > max_addr {
                max_addr = regions[i].end;
            }
            i += 1;
        }
        assert(regions@.take(i as int) =~= regions@);
        let num_frames = frames_for(max_addr);
        let bitmap_bytes = (num_frames + 7) / 8;
        let behind_kernel = find_first_fit(regions, kernel_reserved_end, bitmap_bytes);
        let place = if behind_kernel != 0 {
            behind_kernel
        } else {
            find_fallback_fit(regions, bitmap_bytes)
        };
        BootInfoFrameAllocator {
            phys_offset,
            kernel_reserved_end,
            bitmap_phys_start: place,
            bitmap_bytes: if place == 0 {
                0
            } else {
                bitmap_bytes
            },
            num_frames,
            next_search: 0,
        }
    }
}

/// Whether the bitmap `bitmap` marks frame number `i` as in use.
pub open spec fn frame_used(bitmap: Seq<u8>, i: int) -> bool {
    bitmap[i / 8] & (1u8 << ((i % 8) as u8)) != 0
}

/// Whether frame number `i` lies in a usable region of `regions`: a region
/// covers the frames from the one that holds its first byte to the one
/// that holds its last.
pub open spec fn usable_frame(regions: Seq<MemoryRegion>, i: int) -> bool {
    exists|r: int|
        0 <= r < regions.len() && (#[trigger] regions[r]).usable && regions[r].start / 0x1000 <= i
            < frames_up(regions[r].end as int)
}

/// Whether frame number `i` lies below the end of the kernel.
pub open spec fn kernel_frame(kernel_end: Option<u64>, i: int) -> bool {
    kernel_end is Some && i < frames_up(kernel_end->Some_0 as int)
}

/// Whether frame number `i` holds part of the bitmap.
pub open spec fn bitmap_frame(a: BootInfoFrameAllocator, i: int) -> bool {
    a.bitmap_phys_start / 0x1000 <= i < frames_up(a.bitmap_phys_start + a.bitmap_bytes)
}

/// Whether frame number `i` is in use from the start: every frame is
/// that does not lie in a usable region, that lies below the end of the
/// kernel, or that holds part of the bitmap.
pub open spec fn initially_used(a: BootInfoFrameAllocator, regions: Seq<MemoryRegion>, i: int)
    -> bool {
    !usable_frame(regions, i) || kernel_frame(a.kernel_reserved_end, i) || bitmap_frame(a, i)
}

/// Setting a bit of a byte sets that bit and no other.
pub proof fn lemma_set_bit(b: u8, k: u8, j: u8)
    requires
        k < 8,
        j < 8,
    ensures
        ((b | (1u8 << k)) & (1u8 << j) != 0) == (j == k || (b & (1u8 << j) != 0)),
{
    assert(((b | (1u8 << k)) & (1u8 << j) != 0) == (j == k || (b & (1u8 << j) != 0)))
        by (bit_vector)
        requires
            k < 8,
            j < 8,
    ;
}

/// Clearing a bit of a byte clears that bit and no other.
pub proof fn lemma_clear_bit(b: u8, k: u8, j: u8)
    requires
        k < 8,
        j < 8,
    ensures
        ((b & !(1u8 << k)) & (1u8 << j) != 0) == (j != k && (b & (1u8 << j) != 0)),
{
    assert(((b & !(1u8 << k)) & (1u8 << j) != 0) == (j != k && (b & (1u8 << j) != 0)))
        by (bit_vector)
        requires
            k < 8,
            j < 8,
    ;
}

/// Whether the bitmap marks frame number `idx` as in use. A frame that
/// the bitmap does not cover counts as in use.
pub fn test_bit(bitmap: &[u8], num_frames: u64, idx: u64) -> (used: bool)
    ensures
        used == (idx >= num_frames || idx / 8 >= bitmap@.len() || frame_used(bitmap@, idx as int)),
{
    if idx >= num_frames || idx / 8 >= bitmap.len() as u64 {
        return true;
    }
    let cur = bitmap[(idx / 8) as usize];
    (cur & (1u8 << ((idx % 8) as u8))) != 0
}

/// Marks frame number `idx` as in use or as free. Nothing happens for a
/// frame that the bitmap does not cover.
pub fn set_bit_runtime(bitmap: &mut [u8], num_frames: u64, idx: u64, val: bool)
    ensures
        final(bitmap)@.len() == old(bitmap)@.len(),
        idx >= num_frames || idx / 8 >= old(bitmap)@.len() ==> final(bitmap)@ == old(bitmap)@,
        forall|j: int|
            0 <= j < 8 * old(bitmap)@.len() ==> #[trigger] frame_used(final(bitmap)@, j) == (if j
                == idx && idx < num_frames {
                val
            } else {
                frame_used(old(bitmap)@, j)
            }),
{
    if idx >= num_frames || idx / 8 >= bitmap.len() as u64 {
        return ;
    }
    let at = (idx / 8) as usize;
    let k = (idx % 8) as u8;
    let cur = bitmap[at];
    let new = if val {
        cur | (1u8 << k)
    } else {
        cur & !(1u8 << k)
    };
    bitmap[at] = new;
    proof {
        assert forall|j: int| 0 <= j < 8 * old(bitmap)@.len() implies #[trigger] frame_used(
            bitmap@,
            j,
        ) == (if j == idx && idx < num_frames {
            val
        } else {
            frame_used(old(bitmap)@, j)
        }) by {
            if j / 8 == at {
                lemma_set_bit(cur, k, (j % 8) as u8);
                lemma_clear_bit(cur, k, (j % 8) as u8);
            }
        }
    }
}

/// Marks the frames from number `from` up to, not including, number `to`
/// as in use or as free, as far as the bitmap covers them.
pub fn set_range(bitmap: &mut [u8], num_frames: u64, from: u64, to: u64, val: bool)
    requires
        num_frames <= 8 * old(bitmap)@.len(),
    ensures
        final(bitmap)@.len() == old(bitmap)@.len(),
        forall|j: int|
            0 <= j < 8 * old(bitmap)@.len() ==> #[trigger] frame_used(final(bitmap)@, j) == (if from
                <= j < to && j < num_frames {
                val
            } else {
                frame_used(old(bitmap)@, j)
            }),
{
    let stop = if to < num_frames {
        to
    } else {
        num_frames
    };
    let mut i = from;
    while i < stop
        invariant
            bitmap@.len() == old(bitmap)@.len(),
            num_frames <= 8 * bitmap@.len(),
            stop <= num_frames,
            stop <= to,
            from <= i,
            forall|j: int|
                0 <= j < 8 * bitmap@.len() ==> #[trigger] frame_used(bitmap@, j) == (if from <= j
                    < i && j < stop {
                    val
                } else {
                    frame_used(old(bitmap)@, j)
                }),
        decreases stop - i,
    {
        set_bit_runtime(bitmap, num_frames, i, val);
        i += 1;
    }
}

impl BootInfoFrameAllocator {
    /// The bitmap `bitmap` is the one that this allocator works on: it has
    /// the allocator's size and a bit for each frame.
    pub open spec fn covers(&self, bitmap: Seq<u8>) -> bool {
        &&& bitmap.len() == self.bitmap_bytes
        &&& self.bitmap_bytes != 0 ==> self.num_frames <= 8 * self.bitmap_bytes
        &&& self.num_frames <= 0x10_0000_0000_0000
        &&& self.next_search <= self.num_frames
    }

    /// Whether `bitmap` is the bitmap that this allocator works on.
    pub fn fits_bitmap(&self, bitmap: &[u8]) -> (ok: bool)
        ensures
            ok == self.covers(bitmap@),
    {
        let enough_bits = match self.bitmap_bytes.checked_mul(8) {
            Some(bits) => self.bitmap_bytes == 0 || self.num_frames <= bits,
            None => true,
        };
        bitmap.len() as u64 == self.bitmap_bytes && enough_bits && self.num_frames
            <= 0x10_0000_0000_0000 && self.next_search <= self.num_frames
    }

    /// Writes the bitmap for the memory that `regions` describe: every
    /// frame is marked as in use but the frames of the usable regions that
    /// neither lie below the end of the kernel nor hold the bitmap.
    pub fn fill_bitmap(&self, bitmap: &mut [u8], regions: &[MemoryRegion])
        requires
            self.covers(old(bitmap)@),
        ensures
            self.covers(final(bitmap)@),
            self.bitmap_bytes != 0 ==> forall|i: int|
                0 <= i < self.num_frames ==> #[trigger] frame_used(final(bitmap)@, i)
                    == initially_used(*self, regions@, i),
    {
        if self.bitmap_bytes == 0 {
            return ;
        }
        let frames = self.num_frames;
        let mut b: usize = 0;
        while b < bitmap.len()
            invariant
                b <= bitmap@.len(),
                bitmap@.len() == old(bitmap)@.len(),
                forall|k: int| 0 <= k < b ==> #[trigger] bitmap@[k] == 0xFF,
            decreases bitmap@.len() - b,
        {
            bitmap[b] = 0xFF;
            b += 1;
        }
        proof {
            assert forall|i: int| 0 <= i < 8 * bitmap@.len() implies #[trigger] frame_used(
                bitmap@,
                i,
            ) by {
                assert(bitmap@[i / 8] == 0xFF);
                let j = (i % 8) as u8;
                assert(0xFFu8 & (1u8 << j) != 0) by (bit_vector)
                    requires
                        j < 8,
                ;
            }
        }
        let mut r: usize = 0;
        while r < regions.len()
            invariant
                r <= regions.len(),
                bitmap@.len() == old(bitmap)@.len(),
                self.covers(bitmap@),
                self.bitmap_bytes != 0,
                frames == self.num_frames,
                forall|i: int|
                    0 <= i < frames ==> #[trigger] frame_used(bitmap@, i) == !usable_frame(
                        regions@.take(r as int),
                        i,
                    ),
            decreases regions.len() - r,
        {
            let region = regions[r];
            let ghost before = bitmap@;
            if region.usable {
                set_range(bitmap, frames, region.start / FRAME_SIZE, frames_for(region.end), false);
            }
            proof {
                let seen = regions@.take(r as int);
                let more = regions@.take(r as int + 1);
                assert forall|i: int| 0 <= i < frames implies #[trigger] frame_used(bitmap@, i)
                    == !usable_frame(more, i) by {
                    let here = region.usable && region.start / 0x1000 <= i < frames_up(
                        region.end as int,
                    );
                    assert(frame_used(before, i) == !usable_frame(seen, i));
                    if usable_frame(seen, i) {
                        let w = choose|w: int|
                            0 <= w < seen.len() && (#[trigger] seen[w]).usable && seen[w].start
                                / 0x1000 <= i < frames_up(seen[w].end as int);
                        assert(more[w] == seen[w]);
                    }
                    if here {
                        assert(more[r as int] == region);
                    }
                    if usable_frame(more, i) && !here {
                        let w = choose|w: int|
                            0 <= w < more.len() && (#[trigger] more[w]).usable && more[w].start
                                / 0x1000 <= i < frames_up(more[w].end as int);
                        assert(w < r);
                        assert(seen[w] == more[w]);
                    }
                }
            }
            r += 1;
        }
        assert(regions@.take(r as int) =~= regions@);
        match self.kernel_reserved_end {
            Some(end) => {
                set_range(bitmap, frames, 0, frames_for(end), true);
            },
            None => {},
        }
        let bitmap_end = match self.bitmap_phys_start.checked_add(self.bitmap_bytes) {
            Some(end) => frames_for(end),
            None => u64::MAX,
        };
        set_range(bitmap, frames, self.bitmap_phys_start / FRAME_SIZE, bitmap_end, true);
    }

    /// Hands out a free frame and marks it as in use. The search starts at
    /// the frame behind the one handed out last, runs to the last frame,
    /// and goes on from the first frame up to where it started. What
    /// comes back is the physical address of the frame, or `None` where
    /// no frame is free or there is no bitmap.
    pub fn allocate_frame(&mut self, bitmap: &mut [u8]) -> (frame: Option<u64>)
        requires
            old(self).covers(old(bitmap)@),
        ensures
            final(self).covers(final(bitmap)@),
            final(self).num_frames == old(self).num_frames,
            final(self).bitmap_bytes == old(self).bitmap_bytes,
            final(self).bitmap_phys_start == old(self).bitmap_phys_start,
            final(self).kernel_reserved_end == old(self).kernel_reserved_end,
            final(self).phys_offset == old(self).phys_offset,
            match frame {
                Some(addr) => {
                    let i = addr as int / 0x1000;
                    &&& addr == i * 0x1000
                    &&& 0 <= i < old(self).num_frames
                    &&& !frame_used(old(bitmap)@, i)
                    &&& is_next_free(old(bitmap)@, *old(self), i)
                    &&& final(self).next_search == i + 1
                    &&& forall|j: int|
                        0 <= j < 8 * old(bitmap)@.len() ==> #[trigger] frame_used(
                            final(bitmap)@,
                            j,
                        ) == (j == i || frame_used(old(bitmap)@, j))
                },
                None => {
                    &&& old(self).bitmap_bytes == 0 || forall|j: int|
                        0 <= j < old(self).num_frames ==> #[trigger] frame_used(old(bitmap)@, j)
                    &&& final(bitmap)@ == old(bitmap)@
                    &&& *final(self) == *old(self)
                },
            },
    {
        if self.bitmap_bytes == 0 {
            return None;
        }
        let start = self.next_search;
        let frames = self.num_frames;
        let mut i = start;
        while i < frames
            invariant
                start <= i <= frames,
                bitmap@ == old(bitmap)@,
                *self == *old(self),
                frames == self.num_frames,
                start == self.next_search,
                self.covers(bitmap@),
                self.bitmap_bytes != 0,
                forall|j: int| start <= j < i ==> #[trigger] frame_used(bitmap@, j),
            decreases frames - i,
        {
            if !test_bit(bitmap, frames, i) {
                set_bit_runtime(bitmap, frames, i, true);
                self.next_search = i + 1;
                return Some(i * FRAME_SIZE);
            }
            i += 1;
        }
        let mut i: u64 = 0;
        while i < start
            invariant
                i <= start <= frames,
                bitmap@ == old(bitmap)@,
                *self == *old(self),
                frames == self.num_frames,
                start == self.next_search,
                self.covers(bitmap@),
                self.bitmap_bytes != 0,
                forall|j: int| start <= j < frames ==> #[trigger] frame_used(bitmap@, j),
                forall|j: int| 0 <= j < i ==> #[trigger] frame_used(bitmap@, j),
            decreases start - i,
        {
            if !test_bit(bitmap, frames, i) {
                set_bit_runtime(bitmap, frames, i, true);
                self.next_search = i + 1;
                return Some(i * FRAME_SIZE);
            }
            i += 1;
        }
        None
    }

    /// Marks the frame at the physical address `frame` as free again.
    /// Nothing happens for a frame that the bitmap does not cover.
    pub fn free_frame(&self, bitmap: &mut [u8], frame: u64)
        requires
            self.covers(old(bitmap)@),
        ensures
            self.covers(final(bitmap)@),
            forall|j: int|
                0 <= j < 8 * old(bitmap)@.len() ==> #[trigger] frame_used(final(bitmap)@, j) == (
                frame_used(old(bitmap)@, j) && !(j == frame / 0x1000 && j < self.num_frames)),
    {
        if self.bitmap_bytes == 0 {
            return ;
        }
        set_bit_runtime(bitmap, self.num_frames, frame / FRAME_SIZE, false);
    }
}

/// Whether frame number `i` is the free frame that a search from
/// `a.next_search` comes to first: no frame between there and `i` is free,
/// going round from the last frame to the first where `i` lies before the
/// start of the search.
pub open spec fn is_next_free(bitmap: Seq<u8>, a: BootInfoFrameAllocator, i: int) -> bool {
    if i >= a.next_search {
        forall|j: int| a.next_search <= j < i ==> #[trigger] frame_used(bitmap, j)
    } else {
        &&& forall|j: int| a.next_search <= j < a.num_frames ==> #[trigger] frame_used(bitmap, j)
        &&& forall|j: int| 0 <= j < i ==> #[trigger] frame_used(bitmap, j)
    }
}

} // verus!
