//! Physical address-space layout of an AArch64 guest: fixed platform
//! windows, interrupt-controller regions computed downward from the
//! distributor, and RAM split around the 32-bit reserved hole below 4 GiB.

use vstd::prelude::*;

verus! {

/// 0x0 ~ 0x40_0000 (4 MiB) is reserved to UEFI.
pub const UEFI_START: u64 = 0;
pub const UEFI_SIZE: u64 = 0x040_0000;

/// Below this address resides the interrupt controller, above it the MMIO
/// devices.
pub const MAPPED_IO_START: u64 = 0x0900_0000;

/// The interrupt-controller distributor sits immediately below the mapped
/// IO space.
pub const GIC_V3_DIST_SIZE: u64 = 0x01_0000;
pub const GIC_V3_DIST_START: u64 = MAPPED_IO_START - GIC_V3_DIST_SIZE;

/// Immediately below the distributor is the redistributor area. The size
/// here is for each virtual CPU; the total is `vcpus * GIC_V3_REDIST_SIZE`.
pub const GIC_V3_REDIST_SIZE: u64 = 0x02_0000;

/// Below the redistributor area is the interrupt-translation service.
pub const GIC_V3_ITS_SIZE: u64 = 0x02_0000;

/// Space 0x0900_0000 ~ 0x0905_0000 is reserved for legacy devices.
pub const LEGACY_SERIAL_MAPPED_IO_START: u64 = MAPPED_IO_START;
pub const LEGACY_RTC_MAPPED_IO_START: u64 = 0x0901_0000;
pub const LEGACY_GPIO_MAPPED_IO_START: u64 = 0x0902_0000;

/// Space 0x0905_0000 ~ 0x0906_0000 is reserved for the PCI IO window.
pub const MEM_PCI_IO_START: u64 = 0x0905_0000;
pub const MEM_PCI_IO_SIZE: u64 = 0x10000;

/// 0x1000_0000 (256 MiB) to 0x3000_0000 (768 MiB) is the 32-bit PCI MMIO
/// window.
pub const MEM_32BIT_DEVICES_START: u64 = 0x1000_0000;
pub const MEM_32BIT_DEVICES_SIZE: u64 = 0x2000_0000;

/// PCI MMCONFIG window, after the device space, 256 MiB long.
pub const PCI_MMCONFIG_START: u64 = 0x3000_0000;
pub const PCI_MMCONFIG_SIZE: u64 = 0x1000_0000;

/// One bus with potentially 256 devices (32 slots x 8 functions).
pub const PCI_MMIO_CONFIG_SIZE_PER_SEGMENT: u64 = 4096 * 256;

/// Start of RAM.
pub const RAM_START: u64 = 0x4000_0000;

/// 32-bit reserved window: 64 MiB below the 4 GiB boundary.
pub const MEM_32BIT_RESERVED_START: u64 = 0xfc00_0000;
pub const MEM_32BIT_RESERVED_SIZE: u64 = 0x0400_0000;

/// Start of RAM placed above the 4 GiB boundary.
pub const RAM_64BIT_START: u64 = 0x1_0000_0000;

/// Kernel command line maximum size.
pub const CMDLINE_MAX_SIZE: usize = 2048;

/// The flattened device tree sits at the beginning of RAM.
pub const FDT_START: u64 = RAM_START;
pub const FDT_MAX_SIZE: u64 = 0x20_0000;

/// ACPI tables sit above the device tree.
pub const ACPI_START: u64 = RAM_START + FDT_MAX_SIZE;
pub const ACPI_MAX_SIZE: u64 = 0x20_0000;
pub const RSDP_POINTER: u64 = ACPI_START;

/// Kernel start after the device tree and ACPI areas.
pub const KERNEL_START: u64 = ACPI_START + ACPI_MAX_SIZE;

/// PCI high memory base.
pub const PCI_HIGH_BASE: u64 = 0x2_0000_0000;

/// First usable interrupt.
pub const IRQ_BASE: u32 = 32;

/// Number of supported interrupts.
pub const IRQ_NUM: u32 = 256;

/// Bytes of low address space available to RAM before the 32-bit reserved
/// hole.
pub const RAM_32BIT_SPACE_SIZE: u64 = MEM_32BIT_RESERVED_START - RAM_START;

/// Largest virtual-CPU count for which the interrupt-controller regions,
/// computed downward from the distributor, stay above the firmware window.
pub const MAX_LAYOUT_VCPUS: u64 = 1118;

/// Largest RAM request for which the high RAM region still ends within the
/// 64-bit address width.
pub const MAX_LAYOUT_RAM_SIZE: u64 = 0xFFFF_FFFF_BC00_0000;

/// Role of a region in the guest physical address space. The declaration
/// order is a total order that fixes the iteration order of every produced
/// region table; downstream consumers depend on it being stable.
#[allow(non_camel_case_types)]
#[derive(Debug, Clone, Copy, PartialEq, Eq, Structural)]
pub enum RegionName {
    UEFI,
    GIC_V3_ITS,
    GIC_V3_REDIST,
    GIC_V3_DIST,
    LEGACY_SERIAL_MAPPED_IO,
    LEGACY_RTC_MAPPED_IO,
    LEGACY_GPIO_MAPPED_IO,
    MEM_PCI_IO,
    MEM_32BIT_DEVICES,
    PCI_MMCONFIG,
    RAM,
    MEM_32BIT_RESERVED,
    RAM_64BIT,
    PLATFORM_DEVICES,
}

impl RegionName {
    /// Position of this name in the total order over region names.
    pub open spec fn rank(self) -> int {
        match self {
            RegionName::UEFI => 0,
            RegionName::GIC_V3_ITS => 1,
            RegionName::GIC_V3_REDIST => 2,
            RegionName::GIC_V3_DIST => 3,
            RegionName::LEGACY_SERIAL_MAPPED_IO => 4,
            RegionName::LEGACY_RTC_MAPPED_IO => 5,
            RegionName::LEGACY_GPIO_MAPPED_IO => 6,
            RegionName::MEM_PCI_IO => 7,
            RegionName::MEM_32BIT_DEVICES => 8,
            RegionName::PCI_MMCONFIG => 9,
            RegionName::RAM => 10,
            RegionName::MEM_32BIT_RESERVED => 11,
            RegionName::RAM_64BIT => 12,
            RegionName::PLATFORM_DEVICES => 13,
        }
    }

    /// Executable form of `rank`.
    pub fn rank_val(&self) -> (r: u8)
        ensures
            r as int == self.rank(),
    {
        match self {
            RegionName::UEFI => 0,
            RegionName::GIC_V3_ITS => 1,
            RegionName::GIC_V3_REDIST => 2,
            RegionName::GIC_V3_DIST => 3,
            RegionName::LEGACY_SERIAL_MAPPED_IO => 4,
            RegionName::LEGACY_RTC_MAPPED_IO => 5,
            RegionName::LEGACY_GPIO_MAPPED_IO => 6,
            RegionName::MEM_PCI_IO => 7,
            RegionName::MEM_32BIT_DEVICES => 8,
            RegionName::PCI_MMCONFIG => 9,
            RegionName::RAM => 10,
            RegionName::MEM_32BIT_RESERVED => 11,
            RegionName::RAM_64BIT => 12,
            RegionName::PLATFORM_DEVICES => 13,
        }
    }
}

/// One named region: the half-open byte interval `[base, base + size)`.
#[derive(Debug, Clone, Copy, PartialEq, Eq, Structural)]
pub struct ArchMemRegion {
    pub name: RegionName,
    pub base: u64,
    pub size: u64,
}

/// Whether the half-open byte intervals of `a` and `b` are disjoint.
pub open spec fn regions_disjoint(a: ArchMemRegion, b: ArchMemRegion) -> bool {
    a.base + a.size <= b.base || b.base + b.size <= a.base
}

/// An address-ordered table of named regions: sorted strictly by the region
/// name's rank, so each name appears at most once and iteration order is the
/// name order.
pub struct RegionMap {
    entries: Vec<ArchMemRegion>,
}

impl RegionMap {
    /// The entries, in increasing name order.
    pub closed spec fn view(self) -> Seq<ArchMemRegion> {
        self.entries@
    }

    /// Entries are sorted strictly by name rank.
    pub open spec fn wf(self) -> bool {
        forall|i: int, j: int|
            0 <= i < j < self.view().len() ==> (#[trigger] self.view()[i]).name.rank()
                < (#[trigger] self.view()[j]).name.rank()
    }

    /// Whether the table holds an entry named `n`.
    pub open spec fn contains_name(self, n: RegionName) -> bool {
        exists|i: int| 0 <= i < self.view().len() && (#[trigger] self.view()[i]).name == n
    }

    /// The index of the entry named `n`, when one exists.
    pub open spec fn index_of(self, n: RegionName) -> int {
        choose|i: int| 0 <= i < self.view().len() && (#[trigger] self.view()[i]).name == n
    }

    /// The (base, size) recorded for `n`, when an entry exists.
    pub open spec fn value_of(self, n: RegionName) -> (u64, u64) {
        (self.view()[self.index_of(n)].base, self.view()[self.index_of(n)].size)
    }

    pub fn new() -> (m: RegionMap)
        ensures
            m.view() == Seq::<ArchMemRegion>::empty(),
            m.wf(),
    {
        RegionMap { entries: Vec::new() }
    }

    /// The entries of the table, in name order.
    pub fn entries(&self) -> (r: &Vec<ArchMemRegion>)
        ensures
            r@ == self.view(),
    {
        &self.entries
    }

    pub fn len(&self) -> (n: usize)
        ensures
            n == self.view().len(),
    {
        self.entries.len()
    }

    /// Look up the region recorded under `n`.
    pub fn get(&self, n: RegionName) -> (r: Option<(u64, u64)>)
        requires
            self.wf(),
        ensures
            match r {
                Some(v) => self.contains_name(n) && v == self.value_of(n),
                None => !self.contains_name(n),
            },
    {
        let mut i: usize = 0;
        while i < self.entries.len()
            invariant
                0 <= i <= self.view().len(),
                self.wf(),
                forall|k: int| 0 <= k < i ==> (#[trigger] self.view()[k]).name != n,
            decreases self.view().len() - i,
        {
            let e = self.entries[i];
            if e.name.rank_val() == n.rank_val() {
                proof {
                    assert(e.name == n) by {
                        if e.name != n {
                            assert(e.name.rank() != n.rank());
                        }
                    }
                    lemma_named_entry(*self, n, i as int);
                }
                return Some((e.base, e.size));
            }
            i = i + 1;
        }
        None
    }

    /// Record `(r.base, r.size)` under `r.name`, replacing any entry with
    /// the same name and leaving every other name's entry as it was.
    pub fn insert(&mut self, r: ArchMemRegion)
        requires
            old(self).wf(),
        ensures
            final(self).wf(),
            final(self).contains_name(r.name),
            final(self).value_of(r.name) == (r.base, r.size),
            forall|n: RegionName|
                n != r.name ==> #[trigger] final(self).contains_name(n) == old(
                    self,
                ).contains_name(n),
            forall|n: RegionName|
                n != r.name && old(self).contains_name(n) ==> #[trigger] final(self).value_of(n)
                    == old(self).value_of(n),
    {
        let ghost s = self.view();
        let mut i: usize = 0;
        while i < self.entries.len() && self.entries[i].name.rank_val() < r.name.rank_val()
            invariant
                0 <= i <= s.len(),
                self.view() == s,
                self.wf(),
                forall|k: int| 0 <= k < i ==> (#[trigger] s[k]).name.rank() < r.name.rank(),
            decreases s.len() - i,
        {
            i = i + 1;
        }
        proof {
            assert forall|k: int| i <= k < s.len() implies (#[trigger] s[k]).name.rank()
                >= r.name.rank() by {
                if k > i as int {
                    assert(s[i as int].name.rank() < s[k].name.rank());
                }
            }
        }
        if i < self.entries.len() && self.entries[i].name.rank_val() == r.name.rank_val() {
            proof {
                assert(s[i as int].name == r.name) by {
                    if s[i as int].name != r.name {
                        assert(s[i as int].name.rank() != r.name.rank());
                    }
                }
            }
            self.entries[i] = r;
            proof {
                lemma_replace_entry(s, *self, r, i as int);
            }
        } else {
            proof {
                assert forall|k: int| i <= k < s.len() implies (#[trigger] s[k]).name.rank()
                    > r.name.rank() by {
                    if k > i as int {
                        assert(s[i as int].name.rank() < s[k].name.rank());
                    }
                }
            }
            self.entries.insert(i, r);
            proof {
                lemma_insert_entry(s, *self, r, i as int);
            }
        }
    }
}

/// An entry at index `i` named `n` in a well-formed table is the one that
/// `value_of(n)` reads.
proof fn lemma_named_entry(m: RegionMap, n: RegionName, i: int)
    requires
        m.wf(),
        0 <= i < m.view().len(),
        m.view()[i].name == n,
    ensures
        m.contains_name(n),
        m.index_of(n) == i,
        m.value_of(n) == (m.view()[i].base, m.view()[i].size),
{
    assert(m.contains_name(n));
    let j = m.index_of(n);
    if j != i {
        if j < i {
            assert(m.view()[j].name.rank() < m.view()[i].name.rank());
        } else {
            assert(m.view()[i].name.rank() < m.view()[j].name.rank());
        }
    }
}

/// Overwriting the entry at the index that already carries `r.name` keeps
/// the table well formed and changes only that name's value.
proof fn lemma_replace_entry(s: Seq<ArchMemRegion>, m: RegionMap, r: ArchMemRegion, i: int)
    requires
        0 <= i < s.len(),
        forall|a: int, b: int|
            0 <= a < b < s.len() ==> (#[trigger] s[a]).name.rank() < (#[trigger] s[b]).name.rank(),
        s[i].name == r.name,
        m.view() == s.update(i, r),
    ensures
        m.wf(),
        m.contains_name(r.name),
        m.value_of(r.name) == (r.base, r.size),
        forall|n: RegionName| n != r.name ==> #[trigger] m.contains_name(n) == contains_in(s, n),
        forall|n: RegionName|
            n != r.name && contains_in(s, n) ==> #[trigger] m.value_of(n) == value_in(s, n),
{
    assert forall|a: int, b: int|
        0 <= a < b < m.view().len() implies (#[trigger] m.view()[a]).name.rank() < (
    #[trigger] m.view()[b]).name.rank() by {
        assert(s[a].name.rank() < s[b].name.rank());
        assert(m.view()[a].name.rank() == if a == i {
            r.name.rank()
        } else {
            s[a].name.rank()
        });
    }
    lemma_named_entry(m, r.name, i);
    assert forall|n: RegionName| n != r.name implies #[trigger] m.contains_name(n)
        == contains_in(s, n) by {
        if m.contains_name(n) {
            let k = choose|k: int| 0 <= k < m.view().len() && (#[trigger] m.view()[k]).name == n;
            assert(k != i);
            assert(s[k].name == n);
        }
        if contains_in(s, n) {
            let k = choose|k: int| 0 <= k < s.len() && (#[trigger] s[k]).name == n;
            assert(k != i);
            assert(m.view()[k].name == n);
        }
    }
    assert forall|n: RegionName| n != r.name && contains_in(s, n) implies #[trigger] m.value_of(n)
        == value_in(s, n) by {
        let k = choose|k: int| 0 <= k < s.len() && (#[trigger] s[k]).name == n;
        assert(k != i);
        assert(m.view()[k].name == n);
        lemma_named_entry(m, n, k);
        lemma_named_in(s, n, k);
    }
}

/// Inserting at the position found for a name that is not yet present keeps
/// the table well formed and adds exactly that name.
proof fn lemma_insert_entry(s: Seq<ArchMemRegion>, m: RegionMap, r: ArchMemRegion, i: int)
    requires
        0 <= i <= s.len(),
        forall|a: int, b: int|
            0 <= a < b < s.len() ==> (#[trigger] s[a]).name.rank() < (#[trigger] s[b]).name.rank(),
        forall|k: int| 0 <= k < i ==> (#[trigger] s[k]).name.rank() < r.name.rank(),
        forall|k: int| i <= k < s.len() ==> (#[trigger] s[k]).name.rank() > r.name.rank(),
        m.view() == s.insert(i, r),
    ensures
        m.wf(),
        m.contains_name(r.name),
        m.value_of(r.name) == (r.base, r.size),
        forall|n: RegionName| n != r.name ==> #[trigger] m.contains_name(n) == contains_in(s, n),
        forall|n: RegionName|
            n != r.name && contains_in(s, n) ==> #[trigger] m.value_of(n) == value_in(s, n),
{
    assert forall|a: int, b: int|
        0 <= a < b < m.view().len() implies (#[trigger] m.view()[a]).name.rank() < (
    #[trigger] m.view()[b]).name.rank() by {
        let va = if a < i { s[a] } else if a == i { r } else { s[a - 1] };
        let vb = if b < i { s[b] } else if b == i { r } else { s[b - 1] };
        assert(m.view()[a] == va);
        assert(m.view()[b] == vb);
    }
    lemma_named_entry(m, r.name, i);
    assert forall|n: RegionName| n != r.name implies #[trigger] m.contains_name(n)
        == contains_in(s, n) by {
        if m.contains_name(n) {
            let k = choose|k: int| 0 <= k < m.view().len() && (#[trigger] m.view()[k]).name == n;
            assert(k != i);
            if k < i {
                assert(s[k].name == n);
            } else {
                assert(s[k - 1].name == n);
            }
        }
        if contains_in(s, n) {
            let k = choose|k: int| 0 <= k < s.len() && (#[trigger] s[k]).name == n;
            if k < i {
                assert(m.view()[k].name == n);
            } else {
                assert(m.view()[k + 1].name == n);
            }
        }
    }
    assert forall|n: RegionName| n != r.name && contains_in(s, n) implies #[trigger] m.value_of(n)
        == value_in(s, n) by {
        let k = choose|k: int| 0 <= k < s.len() && (#[trigger] s[k]).name == n;
        lemma_named_in(s, n, k);
        if k < i {
            assert(m.view()[k].name == n);
            lemma_named_entry(m, n, k);
        } else {
            assert(m.view()[k + 1].name == n);
            lemma_named_entry(m, n, k + 1);
        }
    }
}

/// Whether a plain entry sequence holds an entry named `n`.
pub open spec fn contains_in(s: Seq<ArchMemRegion>, n: RegionName) -> bool {
    exists|i: int| 0 <= i < s.len() && (#[trigger] s[i]).name == n
}

/// The (base, size) of the entry named `n` in a plain entry sequence.
pub open spec fn value_in(s: Seq<ArchMemRegion>, n: RegionName) -> (u64, u64) {
    let i = choose|i: int| 0 <= i < s.len() && (#[trigger] s[i]).name == n;
    (s[i].base, s[i].size)
}

/// The name-to-(base, size) mapping that a plain entry sequence describes
/// when read left to right, a later entry replacing an earlier one of the
/// same name.
pub open spec fn map_of_regions(s: Seq<ArchMemRegion>) -> Map<RegionName, (u64, u64)>
    decreases s.len(),
{
    if s.len() == 0 {
        Map::empty()
    } else {
        map_of_regions(s.drop_last()).insert(s.last().name, (s.last().base, s.last().size))
    }
}

/// Build an ordered region table from a plain list of regions; a later
/// list entry wins over an earlier one of the same name.
pub fn arch_memory_regions_from_vec(v: &Vec<ArchMemRegion>) -> (m: RegionMap)
    ensures
        m.wf(),
        forall|n: RegionName|
            #[trigger] m.contains_name(n) == map_of_regions(v@).dom().contains(n),
        forall|n: RegionName|
            m.contains_name(n) ==> #[trigger] m.value_of(n) == map_of_regions(v@)[n],
{
    let mut regions = RegionMap::new();
    let mut i: usize = 0;
    while i < v.len()
        invariant
            0 <= i <= v@.len(),
            regions.wf(),
            forall|n: RegionName|
                #[trigger] regions.contains_name(n) == map_of_regions(v@.take(i as int)).dom().contains(n),
            forall|n: RegionName|
                regions.contains_name(n) ==> #[trigger] regions.value_of(n) == map_of_regions(
                    v@.take(i as int),
                )[n],
        decreases v@.len() - i,
    {
        regions.insert(v[i]);
        proof {
            assert(v@.take(i + 1).drop_last() == v@.take(i as int));
            assert(v@.take(i + 1).last() == v@[i as int]);
        }
        i = i + 1;
    }
    proof {
        assert(v@.take(v@.len() as int) == v@);
    }
    regions
}

/// Compute the address-space layout for a guest with `ram_size` bytes of
/// RAM and `vcpus` virtual CPUs.
///
/// Fixed platform windows keep their fixed addresses; the interrupt
/// controller's redistributor area, the only part that scales with
/// topology, is placed immediately below the distributor and the
/// interrupt-translation service immediately below that. RAM fills the low
/// space up to the 32-bit reserved hole; what does not fit there continues
/// at the 4 GiB boundary. The caller validates its inputs against
/// `MAX_LAYOUT_VCPUS` and `MAX_LAYOUT_RAM_SIZE`, the bounds within which
/// every produced region keeps to the 64-bit address width and no two
/// regions overlap.
///
/// The platform-devices name is left unpopulated: the memory manager
/// appends that region later.
pub fn arch_memory_regions(ram_size: u64, vcpus: u64) -> (m: RegionMap)
    requires
        vcpus <= MAX_LAYOUT_VCPUS,
        ram_size <= MAX_LAYOUT_RAM_SIZE,
    ensures
        m.wf(),
        m.contains_name(RegionName::UEFI),
        m.value_of(RegionName::UEFI) == (UEFI_START, UEFI_SIZE),
        m.contains_name(RegionName::GIC_V3_DIST),
        m.value_of(RegionName::GIC_V3_DIST) == (GIC_V3_DIST_START, GIC_V3_DIST_SIZE),
        m.contains_name(RegionName::GIC_V3_REDIST),
        m.value_of(RegionName::GIC_V3_REDIST).0 as int == GIC_V3_DIST_START as int - vcpus as int
            * GIC_V3_REDIST_SIZE as int,
        m.value_of(RegionName::GIC_V3_REDIST).1 as int == vcpus as int * GIC_V3_REDIST_SIZE as int,
        m.contains_name(RegionName::GIC_V3_ITS),
        m.value_of(RegionName::GIC_V3_ITS).0 as int == m.value_of(
            RegionName::GIC_V3_REDIST,
        ).0 as int - GIC_V3_ITS_SIZE as int,
        m.value_of(RegionName::GIC_V3_ITS).1 == GIC_V3_ITS_SIZE,
        m.contains_name(RegionName::LEGACY_SERIAL_MAPPED_IO),
        m.value_of(RegionName::LEGACY_SERIAL_MAPPED_IO) == (
            LEGACY_SERIAL_MAPPED_IO_START,
            0x1000u64,
        ),
        m.contains_name(RegionName::LEGACY_RTC_MAPPED_IO),
        m.value_of(RegionName::LEGACY_RTC_MAPPED_IO) == (LEGACY_RTC_MAPPED_IO_START, 0x1000u64),
        m.contains_name(RegionName::LEGACY_GPIO_MAPPED_IO),
        m.value_of(RegionName::LEGACY_GPIO_MAPPED_IO) == (LEGACY_GPIO_MAPPED_IO_START, 0x1000u64),
        m.contains_name(RegionName::MEM_PCI_IO),
        m.value_of(RegionName::MEM_PCI_IO) == (MEM_PCI_IO_START, MEM_PCI_IO_SIZE),
        m.contains_name(RegionName::MEM_32BIT_DEVICES),
        m.value_of(RegionName::MEM_32BIT_DEVICES) == (
            MEM_32BIT_DEVICES_START,
            MEM_32BIT_DEVICES_SIZE,
        ),
        m.contains_name(RegionName::PCI_MMCONFIG),
        m.value_of(RegionName::PCI_MMCONFIG) == (PCI_MMCONFIG_START, PCI_MMCONFIG_SIZE),
        m.contains_name(RegionName::MEM_32BIT_RESERVED),
        m.value_of(RegionName::MEM_32BIT_RESERVED) == (
            MEM_32BIT_RESERVED_START,
            MEM_32BIT_RESERVED_SIZE,
        ),
        m.contains_name(RegionName::RAM),
        ram_size <= RAM_32BIT_SPACE_SIZE ==> m.value_of(RegionName::RAM) == (RAM_START, ram_size)
            && !m.contains_name(RegionName::RAM_64BIT),
        ram_size > RAM_32BIT_SPACE_SIZE ==> m.value_of(RegionName::RAM) == (
            RAM_START,
            RAM_32BIT_SPACE_SIZE,
        ) && m.contains_name(RegionName::RAM_64BIT) && m.value_of(RegionName::RAM_64BIT).0
            == RAM_64BIT_START && m.value_of(RegionName::RAM_64BIT).1 as int == ram_size as int
            - RAM_32BIT_SPACE_SIZE as int,
        !m.contains_name(RegionName::PLATFORM_DEVICES),
        forall|i: int, j: int|
            0 <= i < j < m.view().len() ==> (#[trigger] m.view()[i]).base + m.view()[i].size
                <= (#[trigger] m.view()[j]).base,
        forall|i: int, j: int|
            0 <= i < j < m.view().len() ==> regions_disjoint(
                #[trigger] m.view()[i],
                #[trigger] m.view()[j],
            ),
        forall|i: int|
            0 <= i < m.view().len() ==> (#[trigger] m.view()[i]).base + m.view()[i].size
                <= u64::MAX as int + 1,
{
    let mut regions = RegionMap::new();

    regions.insert(
        ArchMemRegion { name: RegionName::UEFI, base: UEFI_START, size: UEFI_SIZE },
    );

    // Interrupt controller: only the redistributor area scales with the
    // number of virtual CPUs, so everything below the distributor is
    // computed, not hard-coded.
    proof {
        lemma_redist_size_bound(vcpus);
    }
    let gic_redists_size = vcpus * GIC_V3_REDIST_SIZE;
    let gic_redist_start = GIC_V3_DIST_START - gic_redists_size;
    let gic_its_start = gic_redist_start - GIC_V3_ITS_SIZE;

    regions.insert(
        ArchMemRegion {
            name: RegionName::GIC_V3_DIST,
            base: GIC_V3_DIST_START,
            size: GIC_V3_DIST_SIZE,
        },
    );
    regions.insert(
        ArchMemRegion {
            name: RegionName::GIC_V3_REDIST,
            base: gic_redist_start,
            size: gic_redists_size,
        },
    );
    regions.insert(
        ArchMemRegion { name: RegionName::GIC_V3_ITS, base: gic_its_start, size: GIC_V3_ITS_SIZE },
    );

    // Legacy MMIO windows.
    regions.insert(
        ArchMemRegion {
            name: RegionName::LEGACY_SERIAL_MAPPED_IO,
            base: LEGACY_SERIAL_MAPPED_IO_START,
            size: 0x1000,
        },
    );
    regions.insert(
        ArchMemRegion {
            name: RegionName::LEGACY_RTC_MAPPED_IO,
            base: LEGACY_RTC_MAPPED_IO_START,
            size: 0x1000,
        },
    );
    regions.insert(
        ArchMemRegion {
            name: RegionName::LEGACY_GPIO_MAPPED_IO,
            base: LEGACY_GPIO_MAPPED_IO_START,
            size: 0x1000,
        },
    );

    // PCI windows.
    regions.insert(
        ArchMemRegion { name: RegionName::MEM_PCI_IO, base: MEM_PCI_IO_START, size: MEM_PCI_IO_SIZE },
    );
    regions.insert(
        ArchMemRegion {
            name: RegionName::MEM_32BIT_DEVICES,
            base: MEM_32BIT_DEVICES_START,
            size: MEM_32BIT_DEVICES_SIZE,
        },
    );
    regions.insert(
        ArchMemRegion {
            name: RegionName::PCI_MMCONFIG,
            base: PCI_MMCONFIG_START,
            size: PCI_MMCONFIG_SIZE,
        },
    );

    // RAM: either it fits before the 32-bit reserved hole, or it fills the
    // low space and continues above 4 GiB. It is never silently truncated.
    if ram_size <= RAM_32BIT_SPACE_SIZE {
        regions.insert(
            ArchMemRegion { name: RegionName::RAM, base: RAM_START, size: ram_size },
        );
    } else {
        regions.insert(
            ArchMemRegion { name: RegionName::RAM, base: RAM_START, size: RAM_32BIT_SPACE_SIZE },
        );
        regions.insert(
            ArchMemRegion {
                name: RegionName::RAM_64BIT,
                base: RAM_64BIT_START,
                size: ram_size - RAM_32BIT_SPACE_SIZE,
            },
        );
    }

    regions.insert(
        ArchMemRegion {
            name: RegionName::MEM_32BIT_RESERVED,
            base: MEM_32BIT_RESERVED_START,
            size: MEM_32BIT_RESERVED_SIZE,
        },
    );

    // The memory manager appends the platform-devices region later; its
    // name stays reserved and correctly ordered but unpopulated here.

    proof {
        lemma_layout_ordered(regions, ram_size, vcpus);
    }
    regions
}

/// Every pair of entries of a freshly computed layout is ordered by base
/// address with no overlap, and ends within the 64-bit address width.
proof fn lemma_layout_ordered(m: RegionMap, ram_size: u64, vcpus: u64)
    requires
        vcpus <= MAX_LAYOUT_VCPUS,
        ram_size <= MAX_LAYOUT_RAM_SIZE,
        m.wf(),
        m.contains_name(RegionName::UEFI),
        m.value_of(RegionName::UEFI) == (UEFI_START, UEFI_SIZE),
        m.contains_name(RegionName::GIC_V3_DIST),
        m.value_of(RegionName::GIC_V3_DIST) == (GIC_V3_DIST_START, GIC_V3_DIST_SIZE),
        m.value_of(RegionName::GIC_V3_REDIST).0 as int == GIC_V3_DIST_START as int - vcpus as int
            * GIC_V3_REDIST_SIZE as int,
        m.value_of(RegionName::GIC_V3_REDIST).1 as int == vcpus as int * GIC_V3_REDIST_SIZE as int,
        m.value_of(RegionName::GIC_V3_ITS).0 as int == m.value_of(
            RegionName::GIC_V3_REDIST,
        ).0 as int - GIC_V3_ITS_SIZE as int,
        m.value_of(RegionName::GIC_V3_ITS).1 == GIC_V3_ITS_SIZE,
        m.value_of(RegionName::LEGACY_SERIAL_MAPPED_IO) == (
            LEGACY_SERIAL_MAPPED_IO_START,
            0x1000u64,
        ),
        m.value_of(RegionName::LEGACY_RTC_MAPPED_IO) == (LEGACY_RTC_MAPPED_IO_START, 0x1000u64),
        m.value_of(RegionName::LEGACY_GPIO_MAPPED_IO) == (LEGACY_GPIO_MAPPED_IO_START, 0x1000u64),
        m.value_of(RegionName::MEM_PCI_IO) == (MEM_PCI_IO_START, MEM_PCI_IO_SIZE),
        m.value_of(RegionName::MEM_32BIT_DEVICES) == (
            MEM_32BIT_DEVICES_START,
            MEM_32BIT_DEVICES_SIZE,
        ),
        m.value_of(RegionName::PCI_MMCONFIG) == (PCI_MMCONFIG_START, PCI_MMCONFIG_SIZE),
        m.value_of(RegionName::MEM_32BIT_RESERVED) == (
            MEM_32BIT_RESERVED_START,
            MEM_32BIT_RESERVED_SIZE,
        ),
        ram_size <= RAM_32BIT_SPACE_SIZE ==> m.value_of(RegionName::RAM) == (RAM_START, ram_size)
            && !m.contains_name(RegionName::RAM_64BIT),
        ram_size > RAM_32BIT_SPACE_SIZE ==> m.value_of(RegionName::RAM) == (
            RAM_START,
            RAM_32BIT_SPACE_SIZE,
        ) && m.value_of(RegionName::RAM_64BIT).0 == RAM_64BIT_START && m.value_of(
            RegionName::RAM_64BIT,
        ).1 as int == ram_size as int - RAM_32BIT_SPACE_SIZE as int,
        !m.contains_name(RegionName::PLATFORM_DEVICES),
    ensures
        forall|i: int, j: int|
            0 <= i < j < m.view().len() ==> (#[trigger] m.view()[i]).base + m.view()[i].size
                <= (#[trigger] m.view()[j]).base,
        forall|i: int, j: int|
            0 <= i < j < m.view().len() ==> regions_disjoint(
                #[trigger] m.view()[i],
                #[trigger] m.view()[j],
            ),
        forall|i: int|
            0 <= i < m.view().len() ==> (#[trigger] m.view()[i]).base + m.view()[i].size
                <= u64::MAX as int + 1,
{
    assert forall|i: int| 0 <= i < m.view().len() implies (#[trigger] m.view()[i]).base
        + m.view()[i].size <= u64::MAX as int + 1 by {
        lemma_entry_band(m, ram_size, vcpus, i);
        lemma_band_mono(m.view()[i].name.rank() + 1, 14, ram_size, vcpus);
    }
    assert forall|i: int, j: int| 0 <= i < j < m.view().len() implies (
    #[trigger] m.view()[i]).base + m.view()[i].size <= (#[trigger] m.view()[j]).base by {
        lemma_entry_band(m, ram_size, vcpus, i);
        lemma_entry_band(m, ram_size, vcpus, j);
        assert(m.view()[i].name.rank() < m.view()[j].name.rank());
        lemma_band_mono(m.view()[i].name.rank() + 1, m.view()[j].name.rank(), ram_size, vcpus);
    }
}

/// Lower address boundary of the band that the region of rank `r` must lie
/// in: each computed region of rank `r` fits between `band(r)` and
/// `band(r + 1)`.
spec fn band(r: int, ram_size: u64, vcpus: u64) -> int {
    let redist_base = GIC_V3_DIST_START as int - vcpus as int * GIC_V3_REDIST_SIZE as int;
    if r <= 0 {
        0
    } else if r == 1 {
        redist_base - GIC_V3_ITS_SIZE as int
    } else if r == 2 {
        redist_base
    } else if r == 3 {
        GIC_V3_DIST_START as int
    } else if r == 4 {
        MAPPED_IO_START as int
    } else if r == 5 {
        LEGACY_RTC_MAPPED_IO_START as int
    } else if r == 6 {
        LEGACY_GPIO_MAPPED_IO_START as int
    } else if r == 7 {
        MEM_PCI_IO_START as int
    } else if r == 8 {
        MEM_32BIT_DEVICES_START as int
    } else if r == 9 {
        PCI_MMCONFIG_START as int
    } else if r == 10 {
        RAM_START as int
    } else if r == 11 {
        MEM_32BIT_RESERVED_START as int
    } else if r == 12 {
        RAM_64BIT_START as int
    } else {
        u64::MAX as int + 1
    }
}

/// The band boundaries are non-decreasing in the rank.
proof fn lemma_band_mono(a: int, b: int, ram_size: u64, vcpus: u64)
    requires
        a <= b,
        vcpus <= MAX_LAYOUT_VCPUS,
    ensures
        band(a, ram_size, vcpus) <= band(b, ram_size, vcpus),
    decreases b - a,
{
    lemma_redist_size_bound(vcpus);
    if a < b {
        lemma_band_mono(a, b - 1, ram_size, vcpus);
        assert(band(b - 1, ram_size, vcpus) <= band(b, ram_size, vcpus));
    }
}

/// The redistributor area of a bounded virtual-CPU count keeps the
/// interrupt-controller regions above the firmware window.
proof fn lemma_redist_size_bound(vcpus: u64)
    requires
        vcpus <= MAX_LAYOUT_VCPUS,
    ensures
        0 <= vcpus as int * GIC_V3_REDIST_SIZE as int <= 0x8bc_0000,
{
    assert(vcpus as int * 0x2_0000 <= 1118 * 0x2_0000);
    assert(0 <= vcpus as int * 0x2_0000);
    assert(vcpus as int * GIC_V3_REDIST_SIZE as int == vcpus as int * 0x2_0000);
}

/// Every entry of a computed layout lies inside the band of its rank.
proof fn lemma_entry_band(m: RegionMap, ram_size: u64, vcpus: u64, i: int)
    requires
        vcpus <= MAX_LAYOUT_VCPUS,
        ram_size <= MAX_LAYOUT_RAM_SIZE,
        m.wf(),
        m.value_of(RegionName::UEFI) == (UEFI_START, UEFI_SIZE),
        m.value_of(RegionName::GIC_V3_DIST) == (GIC_V3_DIST_START, GIC_V3_DIST_SIZE),
        m.value_of(RegionName::GIC_V3_REDIST).0 as int == GIC_V3_DIST_START as int - vcpus as int
            * GIC_V3_REDIST_SIZE as int,
        m.value_of(RegionName::GIC_V3_REDIST).1 as int == vcpus as int * GIC_V3_REDIST_SIZE as int,
        m.value_of(RegionName::GIC_V3_ITS).0 as int == m.value_of(
            RegionName::GIC_V3_REDIST,
        ).0 as int - GIC_V3_ITS_SIZE as int,
        m.value_of(RegionName::GIC_V3_ITS).1 == GIC_V3_ITS_SIZE,
        m.value_of(RegionName::LEGACY_SERIAL_MAPPED_IO) == (
            LEGACY_SERIAL_MAPPED_IO_START,
            0x1000u64,
        ),
        m.value_of(RegionName::LEGACY_RTC_MAPPED_IO) == (LEGACY_RTC_MAPPED_IO_START, 0x1000u64),
        m.value_of(RegionName::LEGACY_GPIO_MAPPED_IO) == (LEGACY_GPIO_MAPPED_IO_START, 0x1000u64),
        m.value_of(RegionName::MEM_PCI_IO) == (MEM_PCI_IO_START, MEM_PCI_IO_SIZE),
        m.value_of(RegionName::MEM_32BIT_DEVICES) == (
            MEM_32BIT_DEVICES_START,
            MEM_32BIT_DEVICES_SIZE,
        ),
        m.value_of(RegionName::PCI_MMCONFIG) == (PCI_MMCONFIG_START, PCI_MMCONFIG_SIZE),
        m.value_of(RegionName::MEM_32BIT_RESERVED) == (
            MEM_32BIT_RESERVED_START,
            MEM_32BIT_RESERVED_SIZE,
        ),
        ram_size <= RAM_32BIT_SPACE_SIZE ==> m.value_of(RegionName::RAM) == (RAM_START, ram_size)
            && !m.contains_name(RegionName::RAM_64BIT),
        ram_size > RAM_32BIT_SPACE_SIZE ==> m.value_of(RegionName::RAM) == (
            RAM_START,
            RAM_32BIT_SPACE_SIZE,
        ) && m.value_of(RegionName::RAM_64BIT).0 == RAM_64BIT_START && m.value_of(
            RegionName::RAM_64BIT,
        ).1 as int == ram_size as int - RAM_32BIT_SPACE_SIZE as int,
        !m.contains_name(RegionName::PLATFORM_DEVICES),
        0 <= i < m.view().len(),
    ensures
        band(m.view()[i].name.rank(), ram_size, vcpus) <= m.view()[i].base,
        m.view()[i].base + m.view()[i].size <= band(m.view()[i].name.rank() + 1, ram_size, vcpus),
{
    let e = m.view()[i];
    lemma_named_entry(m, e.name, i);
    let redist_base = GIC_V3_DIST_START as int - vcpus as int * GIC_V3_REDIST_SIZE as int;
    match e.name {
        RegionName::UEFI => {
            assert(e.base == UEFI_START && e.size == UEFI_SIZE);
            lemma_redist_size_bound(vcpus);
        },
        RegionName::GIC_V3_ITS => {
            assert(e.base as int == redist_base - GIC_V3_ITS_SIZE as int);
            assert(e.size == GIC_V3_ITS_SIZE);
        },
        RegionName::GIC_V3_REDIST => {
            assert(e.base as int == redist_base);
            assert(e.size as int == vcpus as int * GIC_V3_REDIST_SIZE as int);
        },
        RegionName::GIC_V3_DIST => {
            assert(e.base == GIC_V3_DIST_START && e.size == GIC_V3_DIST_SIZE);
        },
        RegionName::LEGACY_SERIAL_MAPPED_IO => {
            assert(e.base == LEGACY_SERIAL_MAPPED_IO_START && e.size == 0x1000);
        },
        RegionName::LEGACY_RTC_MAPPED_IO => {
            assert(e.base == LEGACY_RTC_MAPPED_IO_START && e.size == 0x1000);
        },
        RegionName::LEGACY_GPIO_MAPPED_IO => {
            assert(e.base == LEGACY_GPIO_MAPPED_IO_START && e.size == 0x1000);
        },
        RegionName::MEM_PCI_IO => {
            assert(e.base == MEM_PCI_IO_START && e.size == MEM_PCI_IO_SIZE);
        },
        RegionName::MEM_32BIT_DEVICES => {
            assert(e.base == MEM_32BIT_DEVICES_START && e.size == MEM_32BIT_DEVICES_SIZE);
        },
        RegionName::PCI_MMCONFIG => {
            assert(e.base == PCI_MMCONFIG_START && e.size == PCI_MMCONFIG_SIZE);
        },
        RegionName::RAM => {
            if ram_size <= RAM_32BIT_SPACE_SIZE {
                assert(e.base == RAM_START && e.size == ram_size);
            } else {
                assert(e.base == RAM_START && e.size == RAM_32BIT_SPACE_SIZE);
            }
        },
        RegionName::MEM_32BIT_RESERVED => {
            assert(e.base == MEM_32BIT_RESERVED_START && e.size == MEM_32BIT_RESERVED_SIZE);
        },
        RegionName::RAM_64BIT => {
            assert(m.contains_name(RegionName::RAM_64BIT));
            assert(ram_size > RAM_32BIT_SPACE_SIZE);
            assert(e.base == RAM_64BIT_START);
            assert(e.size as int == ram_size as int - RAM_32BIT_SPACE_SIZE as int);
        },
        RegionName::PLATFORM_DEVICES => {
            assert(m.contains_name(RegionName::PLATFORM_DEVICES));
        },
    }
}

/// In a rank-sorted sequence, the entry at a known index named `n` is the
/// one that `value_in(s, n)` reads.
proof fn lemma_named_in(s: Seq<ArchMemRegion>, n: RegionName, i: int)
    requires
        forall|a: int, b: int|
            0 <= a < b < s.len() ==> (#[trigger] s[a]).name.rank() < (#[trigger] s[b]).name.rank(),
        0 <= i < s.len(),
        s[i].name == n,
    ensures
        contains_in(s, n),
        value_in(s, n) == (s[i].base, s[i].size),
{
    let j = choose|j: int| 0 <= j < s.len() && (#[trigger] s[j]).name == n;
    if j != i {
        if j < i {
            assert(s[j].name.rank() < s[i].name.rank());
        } else {
            assert(s[i].name.rank() < s[j].name.rank());
        }
    }
}

} // verus!
