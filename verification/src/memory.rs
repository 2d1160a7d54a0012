//! Memory-map accounting, a boot-time frame allocator and the page-table walk.

use vstd::prelude::*;
use x86_64::structures::paging::{PhysFrame, Size4KiB};
use x86_64::{PhysAddr, VirtAddr};

verus! {

/// Physical memory below this address is never handed out as a frame.
pub const MIN_ALLOCATABLE_PHYS_ADDR: u64 = 0x10_0000;

/// Virtual address of the page that the paging probe maps.
pub const DEMO_PAGE_START: u64 = 0x0000_5555_5555_0000;

/// Size of a 4 KiB frame.
pub const FRAME_SIZE: u64 = 4096;

/// Physical addresses stay below 2^52.
pub const PHYS_ADDR_LIMIT: u64 = 0x10_0000_0000_0000;

/// What a region of the bootloader's memory map holds.
#[derive(Debug, Clone, Copy, PartialEq, Eq, Structural)]
pub enum MemoryRegionKind {
    Usable,
    Bootloader,
    UnknownUefi(u32),
    UnknownBios(u32),
    Other,
}

/// One region of the memory map: physical `start..end`.
#[derive(Debug, Clone, Copy, PartialEq, Eq, Structural)]
pub struct MemoryRegion {
    pub start: u64,
    pub end: u64,
    pub kind: MemoryRegionKind,
}

/// Totals over the bootloader's memory map.
#[derive(Debug, Clone, Copy, PartialEq, Eq, Structural)]
pub struct MemorySummary {
    pub total_regions: usize,
    pub usable_regions: usize,
    pub usable_bytes: u64,
    pub reserved_bytes: u64,
    pub largest_usable_region_bytes: u64,
    pub usable_frames_4k: usize,
}

/// The memory summary that the kernel records at boot, for the monitor to show.
pub struct KernelMemoryRecord {
    summary: Option<MemorySummary>,
}

impl KernelMemoryRecord {
    /// What is recorded.
    pub closed spec fn summary(self) -> Option<MemorySummary> {
        self.summary
    }

    /// Nothing recorded yet.
    pub fn new() -> (r: Self)
        ensures
            r.summary() == None::<MemorySummary>,
    {
        KernelMemoryRecord { summary: None }
    }

    /// Records the summary, in place of any earlier one.
    pub fn set_kernel_memory_summary(&mut self, summary: MemorySummary)
        ensures
            final(self).summary() == Some(summary),
    {
        self.summary = Some(summary);
    }

    /// The recorded summary, if any.
    pub fn kernel_memory_summary(&self) -> (r: Option<MemorySummary>)
        ensures
            r == self.summary(),
    {
        self.summary
    }
}

pub open spec fn region_size(r: MemoryRegion) -> u64 {
    if r.end >= r.start { (r.end - r.start) as u64 } else { 0 }
}

pub open spec fn sat_add(a: u64, b: u64) -> u64 {
    if a + b > u64::MAX { u64::MAX } else { (a + b) as u64 }
}

pub open spec fn is_usable(r: MemoryRegion) -> bool {
    r.kind == MemoryRegionKind::Usable
}

/// Number of usable regions.
pub open spec fn usable_count(s: Seq<MemoryRegion>) -> nat
    decreases s.len(),
{
    if s.len() == 0 { 0 } else { usable_count(s.drop_last()) + if is_usable(s.last()) { 1nat } else { 0nat } }
}

/// Bytes in usable regions, summed with saturation in map order.
pub open spec fn usable_bytes(s: Seq<MemoryRegion>) -> u64
    decreases s.len(),
{
    if s.len() == 0 {
        0
    } else if is_usable(s.last()) {
        sat_add(usable_bytes(s.drop_last()), region_size(s.last()))
    } else {
        usable_bytes(s.drop_last())
    }
}

/// Bytes in the other regions, summed with saturation in map order.
pub open spec fn reserved_bytes(s: Seq<MemoryRegion>) -> u64
    decreases s.len(),
{
    if s.len() == 0 {
        0
    } else if !is_usable(s.last()) {
        sat_add(reserved_bytes(s.drop_last()), region_size(s.last()))
    } else {
        reserved_bytes(s.drop_last())
    }
}

/// Size of the largest usable region (0 when there is none).
pub open spec fn largest_usable(s: Seq<MemoryRegion>) -> u64
    decreases s.len(),
{
    if s.len() == 0 {
        0
    } else {
        let m = largest_usable(s.drop_last());
        if is_usable(s.last()) && region_size(s.last()) > m { region_size(s.last()) } else { m }
    }
}

proof fn lemma_usable_count_bound(s: Seq<MemoryRegion>)
    ensures
        usable_count(s) <= s.len(),
    decreases s.len(),
{
    if s.len() > 0 {
        lemma_usable_count_bound(s.drop_last());
    }
}

/// Totals over a memory map.
pub fn summarize_memory(regions: &[MemoryRegion]) -> (r: MemorySummary)
    ensures
        r.total_regions == regions@.len(),
        r.usable_regions == usable_count(regions@),
        r.usable_bytes == usable_bytes(regions@),
        r.reserved_bytes == reserved_bytes(regions@),
        r.largest_usable_region_bytes == largest_usable(regions@),
        r.usable_frames_4k == (usable_bytes(regions@) / FRAME_SIZE) as usize,
{
    let ghost s = regions@;
    let mut usable_regions: usize = 0;
    let mut usable: u64 = 0;
    let mut reserved: u64 = 0;
    let mut largest: u64 = 0;
    let mut i: usize = 0;
    while i < regions.len()
        invariant
            i <= s.len(),
            s == regions@,
            usable_regions == usable_count(s.take(i as int)),
            usable == usable_bytes(s.take(i as int)),
            reserved == reserved_bytes(s.take(i as int)),
            largest == largest_usable(s.take(i as int)),
            usable_regions <= i,
        decreases s.len() - i,
    {
        proof {
            assert(s.take(i as int + 1).drop_last() =~= s.take(i as int));
            lemma_usable_count_bound(s.take(i as int));
        }
        let region = regions[i];
        let size = region.end.saturating_sub(region.start);
        if region.kind == MemoryRegionKind::Usable {
            usable_regions += 1;
            usable = usable.saturating_add(size);
            if size > largest {
                largest = size;
            }
        } else {
            reserved = reserved.saturating_add(size);
        }
        i += 1;
    }
    assert(s.take(s.len() as int) =~= s);
    MemorySummary {
        total_regions: regions.len(),
        usable_regions,
        usable_bytes: usable,
        reserved_bytes: reserved,
        largest_usable_region_bytes: largest,
        usable_frames_4k: (usable / FRAME_SIZE) as usize,
    }
}

pub fn memory_region_kind_name(kind: MemoryRegionKind) -> (r: &'static str)
    ensures
        r == match kind {
            MemoryRegionKind::Usable => "usable",
            MemoryRegionKind::Bootloader => "bootloader",
            MemoryRegionKind::UnknownUefi(_) => "unknown_uefi",
            MemoryRegionKind::UnknownBios(_) => "unknown_bios",
            MemoryRegionKind::Other => "other",
        },
{
    match kind {
        MemoryRegionKind::Usable => "usable",
        MemoryRegionKind::Bootloader => "bootloader",
        MemoryRegionKind::UnknownUefi(_) => "unknown_uefi",
        MemoryRegionKind::UnknownBios(_) => "unknown_bios",
        MemoryRegionKind::Other => "other",
    }
}

// ---------------------------------------------------------------------------
// Frame allocation

/// First allocatable address of a region.
pub open spec fn frames_start(r: MemoryRegion) -> int {
    if r.start >= MIN_ALLOCATABLE_PHYS_ADDR { r.start as int } else { MIN_ALLOCATABLE_PHYS_ADDR as int }
}

/// How many 4 KiB steps from `frames_start` stay below the region's end.
pub open spec fn region_frame_count(r: MemoryRegion) -> nat {
    if is_usable(r) && frames_start(r) < r.end {
        ((r.end - frames_start(r) + FRAME_SIZE - 1) / (FRAME_SIZE as int)) as nat
    } else {
        0
    }
}

/// The 4 KiB frame that contains an address, by its start address.
pub open spec fn frame_containing(a: int) -> u64 {
    (a - a % (FRAME_SIZE as int)) as u64
}

/// The frames a region offers, in address order.
pub open spec fn region_frames(r: MemoryRegion) -> Seq<u64> {
    Seq::new(region_frame_count(r), |k: int| frame_containing(frames_start(r) + FRAME_SIZE * k))
}

/// All frames the memory map offers, region after region.
pub open spec fn usable_frames(s: Seq<MemoryRegion>) -> Seq<u64>
    decreases s.len(),
{
    if s.len() == 0 { Seq::empty() } else { usable_frames(s.drop_last()) + region_frames(s.last()) }
}

/// `PhysFrame::<Size4KiB>::containing_address(PhysAddr::new(address))`, by its start
/// address: the address rounded down to a multiple of 4096. `PhysAddr::new` panics at
/// 2^52 and above.
#[verifier::external_body]
fn containing_frame_start(address: u64) -> (r: u64)
    requires
        address < PHYS_ADDR_LIMIT,
    ensures
        r == frame_containing(address as int),
{
    PhysFrame::<Size4KiB>::containing_address(PhysAddr::new(address)).start_address().as_u64()
}

/// Hands out the usable frames of the memory map in order, one per call.
pub struct BootInfoFrameAllocator {
    memory_regions: Vec<MemoryRegion>,
    next: usize,
}

pub ghost struct AllocatorView {
    pub regions: Seq<MemoryRegion>,
    pub next: nat,
}

impl View for BootInfoFrameAllocator {
    type V = AllocatorView;

    closed spec fn view(&self) -> AllocatorView {
        AllocatorView { regions: self.memory_regions@, next: self.next as nat }
    }
}

/// Every usable region ends within physical address space.
pub open spec fn regions_in_phys_space(s: Seq<MemoryRegion>) -> bool {
    forall|i: int| 0 <= i < s.len() && is_usable(#[trigger] s[i]) ==> s[i].end <= PHYS_ADDR_LIMIT
}

impl BootInfoFrameAllocator {
    #[verifier::type_invariant]
    spec fn inv(self) -> bool {
        regions_in_phys_space(self.memory_regions@)
    }

    /// An allocator over the given memory map that has handed out nothing yet.
    pub fn init(memory_regions: Vec<MemoryRegion>) -> (r: Self)
        requires
            regions_in_phys_space(memory_regions@),
        ensures
            r@.regions == memory_regions@,
            r@.next == 0,
    {
        Self { memory_regions, next: 0 }
    }

    /// How many frames have been asked for.
    pub fn allocated_frames(&self) -> (r: usize)
        ensures
            r == self@.next,
    {
        self.next
    }

    /// How many usable frames have not been handed out yet (saturating at
    /// `usize::MAX`).
    pub fn remaining_usable_frames_estimate(&self) -> (r: usize)
        ensures
            r == if usable_frames(self@.regions).len() <= self@.next {
                0
            } else if usable_frames(self@.regions).len() - self@.next > usize::MAX {
                usize::MAX
            } else {
                (usable_frames(self@.regions).len() - self@.next) as usize
            },
    {
        proof { use_type_invariant(self); }
        let ghost s = self.memory_regions@;
        let mut total: u128 = 0;
        let mut i: usize = 0;
        while i < self.memory_regions.len()
            invariant
                i <= s.len(),
                s == self.memory_regions@,
                regions_in_phys_space(s),
                total == usable_frames(s.take(i as int)).len(),
                total <= i * 0x100_0000_0000,
            decreases s.len() - i,
        {
            proof {
                lemma_frames_prefix_grows(s, i as int);
                lemma_region_frame_count_bound(s[i as int]);
            }
            let count = Self::frame_count(&self.memory_regions[i]);
            total = total + count as u128;
            i += 1;
        }
        assert(s.take(s.len() as int) =~= s);
        let next = self.next as u128;
        if total <= next {
            0
        } else if total - next > usize::MAX as u128 {
            usize::MAX
        } else {
            (total - next) as usize
        }
    }

    fn frame_count(region: &MemoryRegion) -> (r: u64)
        requires
            is_usable(*region) ==> region.end <= PHYS_ADDR_LIMIT,
        ensures
            r == region_frame_count(*region),
    {
        if region.kind != MemoryRegionKind::Usable {
            return 0;
        }
        let start = if region.start >= MIN_ALLOCATABLE_PHYS_ADDR { region.start } else { MIN_ALLOCATABLE_PHYS_ADDR };
        if start >= region.end {
            return 0;
        }
        (region.end - start + FRAME_SIZE - 1) / FRAME_SIZE
    }

    /// The next usable frame (by its start address), if any is left; the count of
    /// requests goes up either way.
    pub fn allocate_frame(&mut self) -> (r: Option<u64>)
        requires
            old(self)@.next < usize::MAX,
        ensures
            final(self)@.regions == old(self)@.regions,
            final(self)@.next == old(self)@.next + 1,
            r == if old(self)@.next < usable_frames(old(self)@.regions).len() {
                Some(usable_frames(old(self)@.regions)[old(self)@.next as int])
            } else {
                None::<u64>
            },
    {
        let frame = self.nth_usable_frame(self.next);
        proof { use_type_invariant(&*self); }
        self.next = self.next + 1;
        frame
    }

    fn nth_usable_frame(&self, n: usize) -> (r: Option<u64>)
        ensures
            r == if n < usable_frames(self@.regions).len() {
                Some(usable_frames(self@.regions)[n as int])
            } else {
                None::<u64>
            },
    {
        proof { use_type_invariant(self); }
        let ghost s = self.memory_regions@;
        let mut remaining: u64 = n as u64;
        let mut i: usize = 0;
        while i < self.memory_regions.len()
            invariant
                i <= s.len(),
                s == self.memory_regions@,
                regions_in_phys_space(s),
                usable_frames(s.take(i as int)).len() + remaining == n,
            decreases s.len() - i,
        {
            proof {
                assert(s.take(i as int + 1).drop_last() =~= s.take(i as int));
                lemma_frames_prefix_grows(s, i as int);
            }
            let region = self.memory_regions[i];
            let count = Self::frame_count(&region);
            if remaining < count {
                let start = if region.start >= MIN_ALLOCATABLE_PHYS_ADDR { region.start } else { MIN_ALLOCATABLE_PHYS_ADDR };
                proof {
                    lemma_frame_address_in_region(region, remaining as int);
                    lemma_frames_prefix_index(s, i as int, remaining as int);
                }
                let address = start + FRAME_SIZE * remaining;
                return Some(containing_frame_start(address));
            }
            remaining = remaining - count;
            i += 1;
        }
        assert(s.take(s.len() as int) =~= s);
        None
    }
}

proof fn lemma_frames_prefix_grows(s: Seq<MemoryRegion>, i: int)
    requires
        0 <= i < s.len(),
    ensures
        usable_frames(s.take(i + 1)) == usable_frames(s.take(i)) + region_frames(s[i]),
{
    assert(s.take(i + 1).drop_last() =~= s.take(i));
    assert(s.take(i + 1).last() == s[i]);
}

proof fn lemma_frames_prefix_index(s: Seq<MemoryRegion>, i: int, k: int)
    requires
        0 <= i < s.len(),
        0 <= k < region_frame_count(s[i]),
    ensures
        ({
            let p = usable_frames(s.take(i)).len() + k;
            &&& p < usable_frames(s).len()
            &&& usable_frames(s)[p] == region_frames(s[i])[k]
        }),
    decreases s.len(),
{
    lemma_frames_prefix_grows(s, i);
    lemma_frames_extend(s, i + 1);
}

/// The frames of a prefix are a prefix of all frames.
proof fn lemma_frames_extend(s: Seq<MemoryRegion>, j: int)
    requires
        0 <= j <= s.len(),
    ensures
        usable_frames(s.take(j)).len() <= usable_frames(s).len(),
        forall|p: int| 0 <= p < usable_frames(s.take(j)).len() ==> #[trigger] usable_frames(s)[p]
            == usable_frames(s.take(j))[p],
    decreases s.len() - j,
{
    if j < s.len() {
        lemma_frames_extend(s, j + 1);
        lemma_frames_prefix_grows(s, j);
    } else {
        assert(s.take(j) =~= s);
    }
}

proof fn lemma_region_frame_count_bound(r: MemoryRegion)
    requires
        is_usable(r) ==> r.end <= PHYS_ADDR_LIMIT,
    ensures
        region_frame_count(r) <= 0x100_0000_0000,
{
    if is_usable(r) && frames_start(r) < r.end {
        let d = r.end - frames_start(r);
        assert((d + 4095) / 4096 <= 0x100_0000_0000) by (nonlinear_arith)
            requires
                0 < d <= 0x10_0000_0000_0000,
        ;
    }
}

proof fn lemma_frame_address_in_region(r: MemoryRegion, k: int)
    requires
        0 <= k < region_frame_count(r),
        r.end <= PHYS_ADDR_LIMIT,
    ensures
        frames_start(r) + FRAME_SIZE * k < r.end,
{
    let c = region_frame_count(r) as int;
    let d = r.end - frames_start(r);
    assert(c == (d + 4095) / 4096);
    assert(k < c);
    assert(4096 * k < d) by (nonlinear_arith)
        requires
            k < (d + 4095) / 4096,
            k >= 0,
            d > 0,
    ;
}

/// Every frame the allocator hands out starts on a 4 KiB boundary, at or above
/// 1 MiB, inside a usable region of the map.
pub proof fn lemma_frames_aligned_above_floor(s: Seq<MemoryRegion>)
    ensures
        forall|p: int| 0 <= p < usable_frames(s).len() ==> {
            let f = #[trigger] usable_frames(s)[p];
            &&& f % FRAME_SIZE == 0
            &&& f >= MIN_ALLOCATABLE_PHYS_ADDR
            &&& exists|j: int| 0 <= j < s.len() && is_usable(s[j]) && f < s[j].end
        },
    decreases s.len(),
{
    if s.len() > 0 {
        let d = s.drop_last();
        lemma_frames_aligned_above_floor(d);
        let r = s.last();
        assert forall|p: int| 0 <= p < usable_frames(s).len() implies {
            let f = #[trigger] usable_frames(s)[p];
            &&& f % FRAME_SIZE == 0
            &&& f >= MIN_ALLOCATABLE_PHYS_ADDR
            &&& exists|j: int| 0 <= j < s.len() && is_usable(s[j]) && f < s[j].end
        } by {
            let n = usable_frames(d).len();
            if p < n {
                assert(usable_frames(s)[p] == usable_frames(d)[p]);
                let f = usable_frames(d)[p];
                let j = choose|j: int| 0 <= j < d.len() && is_usable(d[j]) && f < d[j].end;
                assert(d[j] == s[j]);
            } else {
                let k = p - n;
                assert(usable_frames(s)[p] == region_frames(r)[k]);
                let a = frames_start(r) + FRAME_SIZE * k;
                lemma_frame_in_region(r, k);
                assert(s[s.len() - 1] == r);
            }
        }
    }
}

proof fn lemma_frame_in_region(r: MemoryRegion, k: int)
    requires
        0 <= k < region_frame_count(r),
    ensures
        frame_containing(frames_start(r) + FRAME_SIZE * k) % FRAME_SIZE == 0,
        frame_containing(frames_start(r) + FRAME_SIZE * k) >= MIN_ALLOCATABLE_PHYS_ADDR,
        frame_containing(frames_start(r) + FRAME_SIZE * k) < r.end,
        is_usable(r),
{
    let a = frames_start(r) + FRAME_SIZE * k;
    let c = region_frame_count(r) as int;
    let d = r.end - frames_start(r);
    assert(4096 * k < d) by (nonlinear_arith)
        requires
            k < (d + 4095) / 4096,
            k >= 0,
            d > 0,
    ;
    assert(a - a % 4096 >= 0x10_0000) by (nonlinear_arith)
        requires
            a >= 0x10_0000,
    ;
    assert((a - a % 4096) % 4096 == 0) by (nonlinear_arith)
        requires
            a >= 0,
    ;
}

/// A memory map whose regions come in address order without overlapping, each
/// starting on a 4 KiB boundary, as the bootloader hands it over.
pub open spec fn map_in_order(s: Seq<MemoryRegion>) -> bool {
    &&& forall|i: int| 0 <= i < s.len() ==> #[trigger] s[i].start % FRAME_SIZE == 0
    &&& forall|i: int, j: int| 0 <= i < j < s.len() ==> #[trigger] s[i].end <= #[trigger] s[j].start
}

proof fn lemma_frame_steps(a: int, b: int)
    requires
        0 <= a,
        a + FRAME_SIZE <= b,
        b < 0x1_0000_0000_0000_0000,
    ensures
        frame_containing(a) < frame_containing(b),
{
    assert(0 <= a % 4096 < 4096);
    assert(0 <= b % 4096 < 4096);
}

proof fn lemma_frame_at_least(fs: int, a: int)
    requires
        0 <= fs <= a < 0x1_0000_0000_0000_0000,
        fs % 4096 == 0,
    ensures
        frame_containing(a) >= fs,
{
    assert(a - a % 4096 >= fs) by (nonlinear_arith)
        requires
            0 <= fs <= a,
            fs % 4096 == 0,
    ;
}

/// Over a map in address order, the allocator never hands out the same frame
/// twice: the frames it hands out only grow.
pub proof fn lemma_frames_never_repeat(s: Seq<MemoryRegion>)
    requires
        map_in_order(s),
    ensures
        forall|p: int, q: int| 0 <= p < q < usable_frames(s).len() ==> usable_frames(s)[p] < usable_frames(s)[q],
    decreases s.len(),
{
    if s.len() > 0 {
        let d = s.drop_last();
        let r = s.last();
        assert(map_in_order(d)) by {
            assert forall|i: int, j: int| 0 <= i < j < d.len() implies #[trigger] d[i].end <= #[trigger] d[j].start by {
                assert(d[i] == s[i] && d[j] == s[j]);
                assert(s[i].end <= s[j].start);
            }
            assert forall|i: int| 0 <= i < d.len() implies #[trigger] d[i].start % FRAME_SIZE == 0 by {
                assert(d[i] == s[i]);
            }
        }
        lemma_frames_never_repeat(d);
        lemma_frames_aligned_above_floor(d);
        let n = usable_frames(d).len();
        let fs = frames_start(r);
        assert(r == s[s.len() - 1]);
        assert(fs % 4096 == 0);
        assert forall|p: int, q: int| 0 <= p < q < usable_frames(s).len() implies usable_frames(s)[p]
            < usable_frames(s)[q] by {
            if q < n {
                assert(usable_frames(s)[p] == usable_frames(d)[p]);
                assert(usable_frames(s)[q] == usable_frames(d)[q]);
            } else {
                let k2 = q - n;
                assert(usable_frames(s)[q] == region_frames(r)[k2]);
                lemma_frame_in_region(r, k2);
                let b = fs + FRAME_SIZE * k2;
                assert(b < r.end) by (nonlinear_arith)
                    requires
                        0 <= k2 < region_frame_count(r),
                        region_frame_count(r) == (r.end - fs + 4095) / 4096,
                        fs < r.end,
                        b == fs + 4096 * k2,
                ;
                if p < n {
                    assert(usable_frames(s)[p] == usable_frames(d)[p]);
                    let f = usable_frames(d)[p];
                    let j = choose|j: int| 0 <= j < d.len() && is_usable(d[j]) && f < d[j].end;
                    assert(d[j] == s[j]);
                    assert(s[j].end <= s[s.len() - 1].start);
                    assert(k2 >= 0);
                    assert(b >= fs) by (nonlinear_arith)
                        requires
                            k2 >= 0,
                            b == fs + 4096 * k2,
                    ;
                    lemma_frame_at_least(fs, b);
                } else {
                    let k1 = p - n;
                    assert(usable_frames(s)[p] == region_frames(r)[k1]);
                    let a = fs + FRAME_SIZE * k1;
                    assert(a + FRAME_SIZE <= b && a >= 0) by (nonlinear_arith)
                        requires
                            0 <= k1 < k2,
                            fs >= 0,
                            a == fs + 4096 * k1,
                            b == fs + 4096 * k2,
                    ;
                    lemma_frame_steps(a, b);
                }
            }
        }
    }
}

/// The map's usable regions are among its regions.
pub proof fn lemma_usable_regions_bounded(s: Seq<MemoryRegion>)
    ensures
        usable_count(s) <= s.len(),
{
    lemma_usable_count_bound(s);
}

// ---------------------------------------------------------------------------
// Page-table walk

#[derive(Debug, Clone, Copy, PartialEq, Eq, Structural)]
pub enum VmPageSize {
    Size4KiB,
    Size2MiB,
    Size1GiB,
}

pub fn vm_page_size_name(page_size: VmPageSize) -> (r: &'static str)
    ensures
        r == match page_size {
            VmPageSize::Size4KiB => "4KiB",
            VmPageSize::Size2MiB => "2MiB",
            VmPageSize::Size1GiB => "1GiB",
        },
{
    match page_size {
        VmPageSize::Size4KiB => "4KiB",
        VmPageSize::Size2MiB => "2MiB",
        VmPageSize::Size1GiB => "1GiB",
    }
}

/// What a walk of the page tables found for one virtual address.
#[derive(Debug, Clone, Copy, PartialEq, Eq, Structural)]
pub struct VmWalkInfo {
    pub virtual_address: u64,
    pub canonical: bool,
    pub p4_index: u16,
    pub p3_index: u16,
    pub p2_index: u16,
    pub p1_index: u16,
    pub page_offset: u16,
    pub p4_flags_bits: u64,
    pub p3_flags_bits: u64,
    pub p2_flags_bits: u64,
    pub p1_flags_bits: u64,
    pub physical_address: Option<u64>,
    pub page_size: Option<VmPageSize>,
}

/// Bits 48..64 replaced by copies of bit 47.
pub open spec fn sign_extend_47(addr: u64) -> u64 {
    if addr & 0x0000_8000_0000_0000 != 0 {
        addr | 0xFFFF_0000_0000_0000
    } else {
        addr & 0x0000_FFFF_FFFF_FFFF
    }
}

/// `VirtAddr::try_new(addr).is_ok()`: bits 48..64 are copies of bit 47.
#[verifier::external_body]
fn virt_addr_is_canonical(addr: u64) -> (r: bool)
    ensures
        r == (sign_extend_47(addr) == addr),
{
    VirtAddr::try_new(addr).is_ok()
}

/// `VirtAddr::new_truncate(addr).p4_index()`: bits 39..48.
#[verifier::external_body]
fn virt_addr_p4_index(addr: u64) -> (r: u16)
    ensures
        r == (addr >> 39u64) % 512,
{
    u16::from(VirtAddr::new_truncate(addr).p4_index())
}

/// `VirtAddr::new_truncate(addr).p3_index()`: bits 30..39.
#[verifier::external_body]
fn virt_addr_p3_index(addr: u64) -> (r: u16)
    ensures
        r == (addr >> 30u64) % 512,
{
    u16::from(VirtAddr::new_truncate(addr).p3_index())
}

/// `VirtAddr::new_truncate(addr).p2_index()`: bits 21..30.
#[verifier::external_body]
fn virt_addr_p2_index(addr: u64) -> (r: u16)
    ensures
        r == (addr >> 21u64) % 512,
{
    u16::from(VirtAddr::new_truncate(addr).p2_index())
}

/// `VirtAddr::new_truncate(addr).p1_index()`: bits 12..21.
#[verifier::external_body]
fn virt_addr_p1_index(addr: u64) -> (r: u16)
    ensures
        r == (addr >> 12u64) % 512,
{
    u16::from(VirtAddr::new_truncate(addr).p1_index())
}

/// `VirtAddr::new_truncate(addr).page_offset()`: bits 0..12.
#[verifier::external_body]
fn virt_addr_page_offset(addr: u64) -> (r: u16)
    ensures
        r == addr % 4096,
{
    u16::from(VirtAddr::new_truncate(addr).page_offset())
}

/// The PRESENT bit of a page-table entry's flags.
pub const PAGE_PRESENT: u64 = 1;

/// The HUGE_PAGE bit of a page-table entry's flags.
pub const PAGE_HUGE: u64 = 0x80;

pub open spec fn flag_set(flags: u64, bit: u64) -> bool {
    flags & bit != 0
}

impl VmWalkInfo {
    /// The walk of an address before any entry is read: its table indices and page
    /// offset, nothing mapped.
    pub fn new(virtual_address: u64, canonical: bool) -> (r: Self)
        ensures
            r == (VmWalkInfo {
                virtual_address,
                canonical,
                p4_index: ((virtual_address >> 39u64) % 512) as u16,
                p3_index: ((virtual_address >> 30u64) % 512) as u16,
                p2_index: ((virtual_address >> 21u64) % 512) as u16,
                p1_index: ((virtual_address >> 12u64) % 512) as u16,
                page_offset: (virtual_address % 4096) as u16,
                p4_flags_bits: 0,
                p3_flags_bits: 0,
                p2_flags_bits: 0,
                p1_flags_bits: 0,
                physical_address: None,
                page_size: None,
            }),
    {
        Self {
            virtual_address,
            canonical,
            p4_index: virt_addr_p4_index(virtual_address),
            p3_index: virt_addr_p3_index(virtual_address),
            p2_index: virt_addr_p2_index(virtual_address),
            p1_index: virt_addr_p1_index(virtual_address),
            page_offset: virt_addr_page_offset(virtual_address),
            p4_flags_bits: 0,
            p3_flags_bits: 0,
            p2_flags_bits: 0,
            p1_flags_bits: 0,
            physical_address: None,
            page_size: None,
        }
    }
}

/// A walk in progress: what was found so far, the level of the next table to read
/// (4 down to 1; 0 once the walk is over) and that table's physical address.
#[derive(Debug, Clone, Copy, PartialEq, Eq, Structural)]
pub struct VmWalk {
    pub info: VmWalkInfo,
    pub level: u8,
    pub table: u64,
}

impl VmWalk {
    /// Starts a walk of `virtual_address` from the level-4 table at
    /// `level_4_table`; a non-canonical address ends the walk at once.
    pub fn start(level_4_table: u64, virtual_address: u64) -> (r: Self)
        ensures
            r.info == VmWalkInfo::new_spec(virtual_address, sign_extend_47(virtual_address) == virtual_address),
            r.level == if sign_extend_47(virtual_address) == virtual_address { 4u8 } else { 0u8 },
            r.table == level_4_table,
    {
        let canonical = virt_addr_is_canonical(virtual_address);
        let info = VmWalkInfo::new(virtual_address, canonical);
        let level = if canonical { 4 } else { 0 };
        Self { info, level, table: level_4_table }
    }

    /// The table to read next and the index of the entry in it, while the walk goes on.
    pub fn next_entry(&self) -> (r: Option<(u64, u16)>)
        ensures
            r == match self.level {
                4u8 => Some((self.table, self.info.p4_index)),
                3u8 => Some((self.table, self.info.p3_index)),
                2u8 => Some((self.table, self.info.p2_index)),
                1u8 => Some((self.table, self.info.p1_index)),
                _ => None::<(u64, u16)>,
            },
    {
        match self.level {
            4 => Some((self.table, self.info.p4_index)),
            3 => Some((self.table, self.info.p3_index)),
            2 => Some((self.table, self.info.p2_index)),
            1 => Some((self.table, self.info.p1_index)),
            _ => None,
        }
    }

    /// Takes in the entry read at the current level (its flag bits and the physical
    /// address it points to): records the flags; a missing entry ends the walk
    /// unmapped, a huge page at level 3 or 2 or any entry at level 1 ends it mapped,
    /// and otherwise the walk goes down to the table the entry points to.
    pub fn advance(&mut self, flags_bits: u64, entry_address: u64)
        requires
            1 <= old(self).level <= 4,
            entry_address < PHYS_ADDR_LIMIT,
        ensures
            ({
                let o = *old(self);
                let level = o.level;
                let va = o.info.virtual_address;
                let info = if level == 4 {
                    VmWalkInfo { p4_flags_bits: flags_bits, ..o.info }
                } else if level == 3 {
                    VmWalkInfo { p3_flags_bits: flags_bits, ..o.info }
                } else if level == 2 {
                    VmWalkInfo { p2_flags_bits: flags_bits, ..o.info }
                } else {
                    VmWalkInfo { p1_flags_bits: flags_bits, ..o.info }
                };
                if !flag_set(flags_bits, PAGE_PRESENT) {
                    *final(self) == VmWalk { info, level: 0, table: o.table }
                } else if level == 3 && flag_set(flags_bits, PAGE_HUGE) {
                    *final(self) == VmWalk {
                        info: VmWalkInfo {
                            physical_address: Some((entry_address + va % 0x4000_0000) as u64),
                            page_size: Some(VmPageSize::Size1GiB),
                            ..info
                        },
                        level: 0,
                        table: o.table,
                    }
                } else if level == 2 && flag_set(flags_bits, PAGE_HUGE) {
                    *final(self) == VmWalk {
                        info: VmWalkInfo {
                            physical_address: Some((entry_address + va % 0x20_0000) as u64),
                            page_size: Some(VmPageSize::Size2MiB),
                            ..info
                        },
                        level: 0,
                        table: o.table,
                    }
                } else if level == 1 {
                    *final(self) == VmWalk {
                        info: VmWalkInfo {
                            physical_address: Some((entry_address + va % 0x1000) as u64),
                            page_size: Some(VmPageSize::Size4KiB),
                            ..info
                        },
                        level: 0,
                        table: o.table,
                    }
                } else {
                    *final(self) == VmWalk { info, level: (level - 1) as u8, table: entry_address }
                }
            }),
    {
        let level = self.level;
        if level == 4 {
            self.info.p4_flags_bits = flags_bits;
        } else if level == 3 {
            self.info.p3_flags_bits = flags_bits;
        } else if level == 2 {
            self.info.p2_flags_bits = flags_bits;
        } else {
            self.info.p1_flags_bits = flags_bits;
        }
        let va = self.info.virtual_address;
        if flags_bits & PAGE_PRESENT == 0 {
            self.level = 0;
            return;
        }
        let huge = flags_bits & PAGE_HUGE != 0;
        if level == 3 && huge {
            let offset = va & 0x3FFF_FFFF;
            assert(offset == va % 0x4000_0000) by (bit_vector)
                requires
                    offset == va & 0x3FFF_FFFF,
            ;
            self.info.physical_address = Some(entry_address + offset);
            self.info.page_size = Some(VmPageSize::Size1GiB);
            self.level = 0;
            return;
        }
        if level == 2 && huge {
            let offset = va & 0x1F_FFFF;
            assert(offset == va % 0x20_0000) by (bit_vector)
                requires
                    offset == va & 0x1F_FFFF,
            ;
            self.info.physical_address = Some(entry_address + offset);
            self.info.page_size = Some(VmPageSize::Size2MiB);
            self.level = 0;
            return;
        }
        if level == 1 {
            let offset = va & 0xfff;
            assert(offset == va % 0x1000) by (bit_vector)
                requires
                    offset == va & 0xfff,
            ;
            self.info.physical_address = Some(entry_address + offset);
            self.info.page_size = Some(VmPageSize::Size4KiB);
            self.level = 0;
            return;
        }
        self.level = level - 1;
        self.table = entry_address;
    }
}

impl VmWalkInfo {
    pub open spec fn new_spec(virtual_address: u64, canonical: bool) -> VmWalkInfo {
        VmWalkInfo {
            virtual_address,
            canonical,
            p4_index: ((virtual_address >> 39u64) % 512) as u16,
            p3_index: ((virtual_address >> 30u64) % 512) as u16,
            p2_index: ((virtual_address >> 21u64) % 512) as u16,
            p1_index: ((virtual_address >> 12u64) % 512) as u16,
            page_offset: (virtual_address % 4096) as u16,
            p4_flags_bits: 0,
            p3_flags_bits: 0,
            p2_flags_bits: 0,
            p1_flags_bits: 0,
            physical_address: None,
            page_size: None,
        }
    }
}

} // verus!
