use jingos::memory::{
    memory_region_kind_name, summarize_memory, vm_page_size_name, BootInfoFrameAllocator, KernelMemoryRecord,
    MemoryRegion, MemoryRegionKind, VmPageSize, VmWalk, PAGE_HUGE, PAGE_PRESENT,
};

fn region(start: u64, end: u64, kind: MemoryRegionKind) -> MemoryRegion {
    MemoryRegion { start, end, kind }
}

fn sample_map() -> Vec<MemoryRegion> {
    vec![
        region(0x0, 0x9_f000, MemoryRegionKind::Usable),
        region(0x9_f000, 0x10_0000, MemoryRegionKind::Bootloader),
        region(0x10_0800, 0x10_3000, MemoryRegionKind::Usable),
        region(0x20_0000, 0x20_2000, MemoryRegionKind::UnknownUefi(7)),
        region(0x30_0000, 0x30_2000, MemoryRegionKind::Usable),
    ]
}

#[test]
fn summary_totals_usable_and_reserved() {
    let summary = summarize_memory(&sample_map());
    assert_eq!(summary.total_regions, 5);
    assert_eq!(summary.usable_regions, 3);
    assert_eq!(summary.usable_bytes, 0x9_f000 + 0x2800 + 0x2000);
    assert_eq!(summary.reserved_bytes, 0x6_1000 + 0x2000);
    assert_eq!(summary.largest_usable_region_bytes, 0x9_f000);
    assert_eq!(summary.usable_frames_4k, ((0x9_f000 + 0x2800 + 0x2000) / 4096) as usize);
}

#[test]
fn summary_of_backwards_region_counts_nothing() {
    let map = vec![region(0x5000, 0x1000, MemoryRegionKind::Usable), region(0x10, 0x8, MemoryRegionKind::Other)];
    let summary = summarize_memory(&map);
    assert_eq!(summary.usable_regions, 1);
    assert_eq!(summary.usable_bytes, 0);
    assert_eq!(summary.reserved_bytes, 0);
    assert_eq!(summary.largest_usable_region_bytes, 0);
}

#[test]
fn empty_map_summary() {
    let summary = summarize_memory(&[]);
    assert_eq!(summary.total_regions, 0);
    assert_eq!(summary.usable_frames_4k, 0);
}

#[test]
fn region_kind_names() {
    assert_eq!(memory_region_kind_name(MemoryRegionKind::Usable), "usable");
    assert_eq!(memory_region_kind_name(MemoryRegionKind::Bootloader), "bootloader");
    assert_eq!(memory_region_kind_name(MemoryRegionKind::UnknownUefi(3)), "unknown_uefi");
    assert_eq!(memory_region_kind_name(MemoryRegionKind::UnknownBios(3)), "unknown_bios");
    assert_eq!(memory_region_kind_name(MemoryRegionKind::Other), "other");
    assert_eq!(vm_page_size_name(VmPageSize::Size4KiB), "4KiB");
    assert_eq!(vm_page_size_name(VmPageSize::Size2MiB), "2MiB");
    assert_eq!(vm_page_size_name(VmPageSize::Size1GiB), "1GiB");
}

#[test]
fn allocator_hands_out_frames_above_one_mebibyte_in_order() {
    let mut allocator = BootInfoFrameAllocator::init(sample_map());
    assert_eq!(allocator.allocated_frames(), 0);
    assert_eq!(allocator.remaining_usable_frames_estimate(), 5);
    // the region below 1 MiB is skipped, an unaligned start is rounded down to its frame
    assert_eq!(allocator.allocate_frame(), Some(0x10_0000));
    assert_eq!(allocator.allocate_frame(), Some(0x10_1000));
    assert_eq!(allocator.allocate_frame(), Some(0x10_2000));
    assert_eq!(allocator.allocate_frame(), Some(0x30_0000));
    assert_eq!(allocator.remaining_usable_frames_estimate(), 1);
    assert_eq!(allocator.allocate_frame(), Some(0x30_1000));
    assert_eq!(allocator.allocate_frame(), None);
    assert_eq!(allocator.allocated_frames(), 6);
    assert_eq!(allocator.remaining_usable_frames_estimate(), 0);
}

#[test]
fn kernel_memory_record_keeps_the_last_summary() {
    let mut record = KernelMemoryRecord::new();
    assert_eq!(record.kernel_memory_summary(), None);
    let summary = summarize_memory(&sample_map());
    record.set_kernel_memory_summary(summary);
    assert_eq!(record.kernel_memory_summary(), Some(summary));
}

#[test]
fn walk_splits_the_address_into_indices() {
    let va: u64 = 0x0000_5555_5555_0123;
    let walk = VmWalk::start(0x1000, va);
    assert!(walk.info.canonical);
    assert_eq!(walk.info.p4_index, ((va >> 39) & 0x1ff) as u16);
    assert_eq!(walk.info.p3_index, ((va >> 30) & 0x1ff) as u16);
    assert_eq!(walk.info.p2_index, ((va >> 21) & 0x1ff) as u16);
    assert_eq!(walk.info.p1_index, ((va >> 12) & 0x1ff) as u16);
    assert_eq!(walk.info.page_offset, 0x123);
    assert_eq!(walk.next_entry(), Some((0x1000, 0xaa)));
}

#[test]
fn non_canonical_address_ends_the_walk() {
    let walk = VmWalk::start(0x1000, 0x0000_8000_0000_0000);
    assert!(!walk.info.canonical);
    assert_eq!(walk.next_entry(), None);
    assert_eq!(walk.info.physical_address, None);
    let walk = VmWalk::start(0x1000, 0xffff_8000_0000_0000);
    assert!(walk.info.canonical);
}

#[test]
fn walk_through_four_levels_to_a_4k_page() {
    let va: u64 = 0x0000_5555_5555_0123;
    let mut walk = VmWalk::start(0x1000, va);
    walk.advance(PAGE_PRESENT | 0x2, 0x2000);
    assert_eq!(walk.next_entry(), Some((0x2000, walk.info.p3_index)));
    walk.advance(PAGE_PRESENT, 0x3000);
    walk.advance(PAGE_PRESENT, 0x4000);
    assert_eq!(walk.next_entry(), Some((0x4000, walk.info.p1_index)));
    walk.advance(PAGE_PRESENT | 0x4, 0x8_0000);
    assert_eq!(walk.next_entry(), None);
    assert_eq!(walk.info.physical_address, Some(0x8_0123));
    assert_eq!(walk.info.page_size, Some(VmPageSize::Size4KiB));
    assert_eq!(walk.info.p4_flags_bits, 0x3);
    assert_eq!(walk.info.p1_flags_bits, 0x5);
}

#[test]
fn huge_pages_end_the_walk_early() {
    let va: u64 = 0x0000_0000_4012_3456;
    let mut walk = VmWalk::start(0x1000, va);
    walk.advance(PAGE_PRESENT, 0x2000);
    walk.advance(PAGE_PRESENT | PAGE_HUGE, 0x8000_0000);
    assert_eq!(walk.info.physical_address, Some(0x8000_0000 + (va & 0x3fff_ffff)));
    assert_eq!(walk.info.page_size, Some(VmPageSize::Size1GiB));

    let mut walk = VmWalk::start(0x1000, va);
    walk.advance(PAGE_PRESENT, 0x2000);
    walk.advance(PAGE_PRESENT, 0x3000);
    walk.advance(PAGE_PRESENT | PAGE_HUGE, 0x60_0000);
    assert_eq!(walk.info.physical_address, Some(0x60_0000 + (va & 0x1f_ffff)));
    assert_eq!(walk.info.page_size, Some(VmPageSize::Size2MiB));
}

#[test]
fn missing_entry_leaves_address_unmapped() {
    let mut walk = VmWalk::start(0x1000, 0x1234_5000);
    walk.advance(PAGE_PRESENT, 0x2000);
    walk.advance(0, 0);
    assert_eq!(walk.next_entry(), None);
    assert_eq!(walk.info.physical_address, None);
    assert_eq!(walk.info.page_size, None);
}

#[test]
fn reserved_regions_beyond_physical_space_are_fine() {
    let map = vec![
        region(0x10_0000, 0x10_2000, MemoryRegionKind::Usable),
        region(0x20_0000_0000_0000, u64::MAX, MemoryRegionKind::Other),
    ];
    let mut allocator = BootInfoFrameAllocator::init(map);
    assert_eq!(allocator.remaining_usable_frames_estimate(), 2);
    assert_eq!(allocator.allocate_frame(), Some(0x10_0000));
    assert_eq!(allocator.allocate_frame(), Some(0x10_1000));
    assert_eq!(allocator.allocate_frame(), None);
}
