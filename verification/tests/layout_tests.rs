use igvm_loader::layout::{
    arch_memory_regions, arch_memory_regions_from_vec, ArchMemRegion, RegionName,
    GIC_V3_DIST_SIZE, GIC_V3_DIST_START, GIC_V3_ITS_SIZE, GIC_V3_REDIST_SIZE,
    MEM_32BIT_RESERVED_SIZE, MEM_32BIT_RESERVED_START, RAM_32BIT_SPACE_SIZE, RAM_64BIT_START,
    RAM_START, UEFI_SIZE, UEFI_START,
};

const GIB: u64 = 1024 * 1024 * 1024;

#[test]
fn ram_fits_below_the_gap() {
    // 2 GiB of RAM is less than the ~2.94 GiB of low space before the
    // 32-bit reserved window: a single RAM region, no high RAM.
    let m = arch_memory_regions(2 * GIB, 4);
    assert_eq!(m.get(RegionName::RAM), Some((RAM_START, 2 * GIB)));
    assert_eq!(m.get(RegionName::RAM_64BIT), None);
    assert_eq!(m.len(), 12);
}

#[test]
fn ram_splits_around_the_gap() {
    // 4 GiB exceeds the low space: the low region fills the whole gap and
    // the rest continues at the 4 GiB boundary, never silently truncated.
    let m = arch_memory_regions(4 * GIB, 4);
    assert_eq!(m.get(RegionName::RAM), Some((RAM_START, RAM_32BIT_SPACE_SIZE)));
    assert_eq!(
        m.get(RegionName::RAM_64BIT),
        Some((RAM_64BIT_START, 4 * GIB - RAM_32BIT_SPACE_SIZE))
    );
    assert_eq!(m.len(), 13);
}

#[test]
fn gic_regions_stack_below_the_distributor() {
    let m = arch_memory_regions(GIB, 8);
    let (dist_base, dist_size) = m.get(RegionName::GIC_V3_DIST).unwrap();
    let (redist_base, redist_size) = m.get(RegionName::GIC_V3_REDIST).unwrap();
    let (its_base, its_size) = m.get(RegionName::GIC_V3_ITS).unwrap();
    assert_eq!((dist_base, dist_size), (GIC_V3_DIST_START, GIC_V3_DIST_SIZE));
    assert_eq!(redist_size, 8 * GIC_V3_REDIST_SIZE);
    // The redistributor area sits immediately below the distributor, and
    // the interrupt-translation service immediately below that: no gap and
    // no overlap among the three.
    assert_eq!(redist_base + redist_size, dist_base);
    assert_eq!(its_size, GIC_V3_ITS_SIZE);
    assert_eq!(its_base + its_size, redist_base);
}

#[test]
fn fixed_regions_have_their_fixed_addresses() {
    let m = arch_memory_regions(GIB, 1);
    assert_eq!(m.get(RegionName::UEFI), Some((UEFI_START, UEFI_SIZE)));
    assert_eq!(
        m.get(RegionName::MEM_32BIT_RESERVED),
        Some((MEM_32BIT_RESERVED_START, MEM_32BIT_RESERVED_SIZE))
    );
    assert_eq!(m.get(RegionName::PCI_MMCONFIG), Some((0x3000_0000, 0x1000_0000)));
    assert_eq!(m.get(RegionName::LEGACY_RTC_MAPPED_IO), Some((0x0901_0000, 0x1000)));
    assert_eq!(m.get(RegionName::PLATFORM_DEVICES), None);
}

#[test]
fn entries_are_ordered_and_disjoint() {
    let m = arch_memory_regions(4 * GIB, 8);
    let entries = m.entries();
    for w in entries.windows(2) {
        // Ordered by base with no overlap between half-open intervals.
        assert!(w[0].base + w[0].size <= w[1].base);
    }
}

#[test]
fn building_from_a_list_keeps_the_last_entry_per_name() {
    let v = vec![
        ArchMemRegion { name: RegionName::RAM, base: RAM_START, size: GIB },
        ArchMemRegion { name: RegionName::UEFI, base: UEFI_START, size: UEFI_SIZE },
        ArchMemRegion { name: RegionName::RAM, base: RAM_START, size: 2 * GIB },
    ];
    let m = arch_memory_regions_from_vec(&v);
    assert_eq!(m.len(), 2);
    assert_eq!(m.get(RegionName::RAM), Some((RAM_START, 2 * GIB)));
    assert_eq!(m.get(RegionName::UEFI), Some((UEFI_START, UEFI_SIZE)));
    // Iteration order follows the region-name order, not insertion order.
    assert_eq!(m.entries()[0].name, RegionName::UEFI);
    assert_eq!(m.entries()[1].name, RegionName::RAM);
}

#[test]
fn zero_vcpus_leaves_an_empty_redistributor_area() {
    let m = arch_memory_regions(GIB, 0);
    let (dist_base, _) = m.get(RegionName::GIC_V3_DIST).unwrap();
    let (redist_base, redist_size) = m.get(RegionName::GIC_V3_REDIST).unwrap();
    assert_eq!(redist_size, 0);
    assert_eq!(redist_base, dist_base);
}

#[test]
fn largest_ram_request_reaches_the_end_of_the_address_space() {
    let m = arch_memory_regions(igvm_loader::layout::MAX_LAYOUT_RAM_SIZE, 4);
    let (base, size) = m.get(RegionName::RAM_64BIT).unwrap();
    // The high region ends exactly at the top of the 64-bit address space.
    assert_eq!(base, RAM_64BIT_START);
    assert_eq!(base.checked_add(size - 1), Some(u64::MAX));
}
