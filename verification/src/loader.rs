//! The image-import engine of one boot attempt: it writes page data into
//! guest memory under at-most-once acceptance of page ranges, collects
//! initial virtual-CPU registers with per-kind deduplication, and validates
//! startup memory requests against the real memory map.

use vstd::prelude::*;
use crate::guest_mem::{guest_ranges, guest_write, GuestMemoryHandle};
use crate::igvm::{
    has_kind, kinds_distinct, BootPageAcceptance, StartupMemoryType, Vtl, VpRegister, HV_PAGE_SIZE,
};
use crate::tracker::{overlaps_range, range_overlaps, ranges_wf, ImportRegion, RangeTracker};

verus! {

/// Bound on `page_base + page_count` under which every byte address of a
/// page range fits the 64-bit address width: this many pages span the whole
/// address space.
pub const MAX_PAGE_SPAN: u64 = 0x10_0000_0000_0000;

/// A boot-setup-time validation failure. Every error is returned to the
/// caller; none is recoverable by retrying the same call.
#[derive(Debug, Clone, Copy)]
pub enum Error {
    /// The new range overlaps a previously accepted import region.
    OverlapsExistingRegion(ImportRegion),
    /// A parameter-area reference is out of range.
    InvalidParameterAreaIndex(ParameterAreaIndex),
    /// Registers may only be imported at the session's maximum trust level.
    InvalidVtl,
    /// The requested memory is absent, only partially backed, or of a type
    /// the session's trust level does not permit.
    MemoryUnavailable,
    /// The virtual-CPU context memory layout is invalid.
    InvalidVpContextMemory(&'static str),
    /// The supplied data exceeds the declared page count.
    DataTooLarge,
    /// No virtual-CPU context page was configured where one is required.
    NoVpContextPageSet,
    /// A register of this kind was already imported.
    DuplicateRegisterImport,
    /// The range overlaps an existing relocation region.
    RelocationOverlap,
    /// The relocation region alignment is not 4K aligned.
    RelocationAlignment,
    /// The relocation base address is not aligned to the relocation
    /// alignment.
    RelocationBaseGpa,
    /// The relocation minimum address is not aligned to the relocation
    /// alignment.
    RelocationMinimumGpa,
    /// The relocation maximum address is not aligned to the relocation
    /// alignment.
    RelocationMaximumGpa,
    /// The relocation size is not 4K aligned.
    RelocationSize,
    /// A page-table relocation is already set; only a single one is allowed.
    PageTableRelocationSet,
    /// The page-table relocation's used size exceeds the region size.
    PageTableUsedSize,
}

/// Index of a parameter area within a boot image.
#[derive(Debug, Clone, Copy)]
pub struct ParameterAreaIndex(pub u32);

/// Sum of the page counts of a run of page imports.
pub open spec fn sum_page_counts(s: Seq<(u64, u64)>) -> int
    decreases s.len(),
{
    if s.len() == 0 {
        0
    } else {
        sum_page_counts(s.drop_last()) + s.last().1
    }
}

/// The import engine of one boot attempt. It owns the right to write guest
/// memory during boot setup (through a shared, internally synchronized
/// handle), the accepted-range bookkeeping, the register table, and the
/// byte counter; it is created once per boot attempt and consumed to
/// extract its results.
pub struct Loader {
    memory: GuestMemoryHandle,
    regs: Vec<VpRegister>,
    accepted_ranges: RangeTracker,
    max_vtl: Vtl,
    bytes_written: u64,
    imported: Ghost<Seq<(u64, u64)>>,
}

impl Loader {
    /// The accepted page ranges, in increasing order of base page.
    pub closed spec fn accepted(self) -> Seq<ImportRegion> {
        self.accepted_ranges.view()
    }

    /// The imported registers, in import order.
    pub closed spec fn regs_view(self) -> Seq<VpRegister> {
        self.regs@
    }

    /// The running byte counter: reserved capacity of every successful page
    /// import, not literal bytes copied.
    pub closed spec fn total_bytes(self) -> u64 {
        self.bytes_written
    }

    /// The maximum trust level configured for this session.
    pub closed spec fn session_vtl(self) -> Vtl {
        self.max_vtl
    }

    /// The (page_base, page_count) of every successful page import, in
    /// order.
    pub closed spec fn imports(self) -> Seq<(u64, u64)> {
        self.imported@
    }

    /// The accepted ranges are disjoint, registers are deduplicated by
    /// kind, and the byte counter accounts exactly for the successful page
    /// imports.
    pub open spec fn wf(self) -> bool {
        &&& ranges_wf(self.accepted())
        &&& kinds_distinct(self.regs_view())
        &&& self.total_bytes() as int == HV_PAGE_SIZE as int * sum_page_counts(self.imports())
    }

    /// Create the import engine of a fresh boot attempt over the given
    /// guest memory, with `max_vtl` as the session's maximum trust level.
    pub fn new(memory: GuestMemoryHandle, max_vtl: Vtl) -> (l: Loader)
        ensures
            l.wf(),
            l.accepted() == Seq::<ImportRegion>::empty(),
            l.regs_view() == Seq::<VpRegister>::empty(),
            l.imports() == Seq::<(u64, u64)>::empty(),
            l.total_bytes() == 0,
            l.session_vtl() == max_vtl,
    {
        Loader {
            memory,
            regs: Vec::new(),
            accepted_ranges: RangeTracker::new(),
            max_vtl,
            bytes_written: 0,
            imported: Ghost(Seq::empty()),
        }
    }

    /// Create an import engine over freshly backed guest memory, one region
    /// per `(start, size)` pair, for a boot attempt that does not share its
    /// memory with an orchestrator.
    pub fn for_memory_ranges(ranges: &Vec<(u64, u64)>, max_vtl: Vtl) -> (r: Option<Loader>)
        ensures
            r matches Some(l) ==> l.wf() && l.accepted() == Seq::<ImportRegion>::empty()
                && l.regs_view() == Seq::<VpRegister>::empty() && l.imports() == Seq::<
                (u64, u64),
            >::empty() && l.total_bytes() == 0 && l.session_vtl() == max_vtl,
    {
        match GuestMemoryHandle::from_ranges(ranges) {
            Some(memory) => Some(Loader::new(memory, max_vtl)),
            None => None,
        }
    }

    /// Extract the imported initial registers.
    pub fn get_initial_regs(self) -> (r: Vec<VpRegister>)
        ensures
            r@ == self.regs_view(),
    {
        self.regs
    }

    /// Extract the byte counter.
    pub fn gets_total_bytes_written(self) -> (r: u64)
        ensures
            r == self.total_bytes(),
    {
        self.bytes_written
    }

    /// Accept a new page range with a given acceptance into the map of
    /// accepted ranges. The call succeeds exactly when the range overlaps
    /// no range accepted before; on a conflict it reports an overlapping
    /// accepted range and changes nothing.
    pub fn accept_new_range(
        &mut self,
        page_base: u64,
        page_count: u64,
        acceptance: BootPageAcceptance,
    ) -> (r: Result<(), Error>)
        requires
            old(self).wf(),
            1 <= page_count,
            page_base + page_count - 1 <= u64::MAX,
        ensures
            final(self).wf(),
            final(self).regs_view() == old(self).regs_view(),
            final(self).total_bytes() == old(self).total_bytes(),
            final(self).imports() == old(self).imports(),
            final(self).session_vtl() == old(self).session_vtl(),
            (r is Ok) == !range_overlaps(old(self).accepted(), page_base, page_count),
            r is Ok ==> exists|k: int|
                0 <= k <= old(self).accepted().len() && final(self).accepted() == old(self).accepted().insert(k, ImportRegion { page_base, page_count, acceptance }),
            r is Err ==> final(self).accepted() == old(self).accepted() && exists|x: ImportRegion|
                r == Err::<(), Error>(Error::OverlapsExistingRegion(x)) && old(self).accepted().contains(x) && overlaps_range(x, page_base, page_count),
    {
        match self.accepted_ranges.find_overlap(page_base, page_count) {
            Some(overlap) => Err(Error::OverlapsExistingRegion(overlap)),
            None => {
                self.accepted_ranges.insert(
                    ImportRegion { page_base, page_count, acceptance },
                );
                Ok(())
            },
        }
    }

    /// Import pages of boot-image data: accept the page range, check that
    /// the data fits the declared page count, write the data into guest
    /// memory at the range's byte address, and count the range's full byte
    /// capacity. A call that fails at the overlap or the capacity check
    /// changes nothing at all; a failed memory write leaves the range
    /// accepted but the byte counter untouched, and the boot attempt must
    /// be aborted.
    pub fn import_pages(
        &mut self,
        page_base: u64,
        page_count: u64,
        acceptance: BootPageAcceptance,
        data: &[u8],
    ) -> (r: Result<(), Error>)
        requires
            old(self).wf(),
            1 <= page_count,
            page_base + page_count <= MAX_PAGE_SPAN,
            old(self).total_bytes() + page_count * HV_PAGE_SIZE <= u64::MAX,
        ensures
            final(self).wf(),
            final(self).regs_view() == old(self).regs_view(),
            final(self).session_vtl() == old(self).session_vtl(),
            range_overlaps(old(self).accepted(), page_base, page_count) ==> final(self).accepted()
                == old(self).accepted() && final(self).total_bytes() == old(self).total_bytes()
                && final(self).imports() == old(self).imports() && exists|x: ImportRegion|
                r == Err::<(), Error>(Error::OverlapsExistingRegion(x)) && old(self).accepted().contains(x) && overlaps_range(x, page_base, page_count),
            !range_overlaps(old(self).accepted(), page_base, page_count) && page_count
                * HV_PAGE_SIZE < data@.len() ==> final(self).accepted() == old(self).accepted()
                && final(self).total_bytes() == old(self).total_bytes() && final(self).imports()
                == old(self).imports() && r == Err::<(), Error>(Error::DataTooLarge),
            !range_overlaps(old(self).accepted(), page_base, page_count) && page_count
                * HV_PAGE_SIZE >= data@.len() ==> (exists|k: int|
                0 <= k <= old(self).accepted().len() && final(self).accepted() == old(self).accepted().insert(k, ImportRegion { page_base, page_count, acceptance })) && (
            r is Ok ==> final(self).total_bytes() == old(self).total_bytes() + page_count
                * HV_PAGE_SIZE && final(self).imports() == old(self).imports().push(
                (page_base, page_count),
            )) && (r is Err ==> r == Err::<(), Error>(Error::MemoryUnavailable) && final(self).total_bytes() == old(self).total_bytes() && final(self).imports() == old(self).imports()),
    {
        // Track accepted ranges for duplicate imports. A conflict, like a
        // capacity violation below, leaves no trace.
        if let Some(overlap) = self.accepted_ranges.find_overlap(page_base, page_count) {
            return Err(Error::OverlapsExistingRegion(overlap));
        }

        // Page count must be larger or equal to data.
        if page_count * HV_PAGE_SIZE < data.len() as u64 {
            return Err(Error::DataTooLarge);
        }

        self.accepted_ranges.insert(ImportRegion { page_base, page_count, acceptance });

        let wrote = guest_write(&self.memory, page_base * HV_PAGE_SIZE, data);
        let fully_written = match wrote {
            Some(written) => written == data.len(),
            None => false,
        };
        if fully_written {
            self.bytes_written = self.bytes_written + page_count * HV_PAGE_SIZE;
            let ghost prior = self.imported@;
            self.imported = Ghost(self.imported@.push((page_base, page_count)));
            proof {
                assert(self.imported@.drop_last() == prior);
                assert(self.imported@.last() == (page_base, page_count));
                assert(sum_page_counts(self.imported@) == sum_page_counts(prior)
                    + page_count);
            }
            Ok(())
        } else {
            Err(Error::MemoryUnavailable)
        }
    }

    /// Import one initial virtual-CPU register. Only the session's maximum
    /// trust level may import registers, since a single set of registers is
    /// stored; a second import of a register kind already present is a
    /// protocol violation reported to the caller.
    pub fn import_vp_register(&mut self, vtl: Vtl, register: VpRegister) -> (r: Result<(), Error>)
        requires
            old(self).wf(),
        ensures
            final(self).wf(),
            final(self).accepted() == old(self).accepted(),
            final(self).total_bytes() == old(self).total_bytes(),
            final(self).imports() == old(self).imports(),
            final(self).session_vtl() == old(self).session_vtl(),
            vtl != old(self).session_vtl() ==> r == Err::<(), Error>(Error::InvalidVtl) && final(self).regs_view() == old(self).regs_view(),
            vtl == old(self).session_vtl() && has_kind(old(self).regs_view(), register.kind())
                ==> r == Err::<(), Error>(Error::DuplicateRegisterImport) && final(self).regs_view()
                == old(self).regs_view(),
            vtl == old(self).session_vtl() && !has_kind(old(self).regs_view(), register.kind())
                ==> r == Ok::<(), Error>(()) && final(self).regs_view() == old(self).regs_view().push(register),
    {
        // Only importing to the max VTL for registers is allowed, as only
        // one set of registers is stored.
        if vtl != self.max_vtl {
            return Err(Error::InvalidVtl);
        }

        let tag = register.kind_tag();
        let mut i: usize = 0;
        while i < self.regs.len()
            invariant
                *self == *old(self),
                old(self).wf(),
                vtl == old(self).session_vtl(),
                0 <= i <= self.regs@.len(),
                tag as int == register.kind(),
                forall|j: int| 0 <= j < i ==> (#[trigger] self.regs@[j]).kind() != register.kind(),
            decreases self.regs@.len() - i,
        {
            if self.regs[i].kind_tag() == tag {
                return Err(Error::DuplicateRegisterImport);
            }
            i = i + 1;
        }

        let ghost prior = self.regs@;
        self.regs.push(register);
        proof {
            assert forall|a: int, b: int| 0 <= a < b < self.regs@.len() implies (
            #[trigger] self.regs@[a]).kind() != (#[trigger] self.regs@[b]).kind() by {
                if b < prior.len() {
                    assert(prior[a].kind() != prior[b].kind());
                } else {
                    assert(self.regs@[b] == register);
                    assert(prior[a].kind() != register.kind());
                }
            }
        }
        Ok(())
    }

    /// Verify that the requested page range is backed by startup memory of
    /// a permitted type. A memory type other than plain RAM is permitted
    /// only when the session's maximum trust level is the elevated level;
    /// the byte interval itself must fall entirely within a single
    /// contiguous backed range, since any gap between ranges is device
    /// space.
    pub fn verify_startup_memory_available(
        &mut self,
        page_base: u64,
        page_count: u64,
        memory_type: StartupMemoryType,
    ) -> (r: Result<(), Error>)
        requires
            old(self).wf(),
            1 <= page_count,
            page_base + page_count <= MAX_PAGE_SPAN,
        ensures
            final(self).wf(),
            final(self).accepted() == old(self).accepted(),
            final(self).regs_view() == old(self).regs_view(),
            final(self).total_bytes() == old(self).total_bytes(),
            final(self).imports() == old(self).imports(),
            final(self).session_vtl() == old(self).session_vtl(),
            old(self).session_vtl() != Vtl::Vtl2 && memory_type != StartupMemoryType::Ram ==> r
                == Err::<(), Error>(Error::MemoryUnavailable),
            r is Ok ==> old(self).session_vtl() == Vtl::Vtl2 || memory_type
                == StartupMemoryType::Ram,
            r is Err ==> r == Err::<(), Error>(Error::MemoryUnavailable),
    {
        if self.max_vtl == Vtl::Vtl2 {
            // Either memory type is permitted at the elevated level; the
            // protection of protectable RAM is applied elsewhere, later.
        } else if memory_type != StartupMemoryType::Ram {
            return Err(Error::MemoryUnavailable);
        }

        let ranges = guest_ranges(&self.memory);
        if range_within_single_backed(&ranges, page_base, page_count) {
            Ok(())
        } else {
            Err(Error::MemoryUnavailable)
        }
    }
}

/// Whether the byte interval of the page range lies entirely within one of
/// the inclusive byte ranges `(first, last)`.
pub open spec fn spec_range_backed(rs: Seq<(u64, u64)>, page_base: u64, page_count: u64) -> bool {
    exists|i: int|
        0 <= i < rs.len() && (#[trigger] rs[i]).0 <= page_base * HV_PAGE_SIZE && (page_base
            + page_count) * HV_PAGE_SIZE - 1 <= rs[i].1
}

/// Decide whether the byte interval
/// `[page_base * page_size, (page_base + page_count) * page_size - 1]`
/// falls entirely within a single one of the given inclusive byte ranges.
/// Partial containment does not count: the interval must not cross the end
/// of the range that holds its first byte, nor start outside every range.
pub fn range_within_single_backed(ranges: &Vec<(u64, u64)>, page_base: u64, page_count: u64) -> (b:
    bool)
    requires
        1 <= page_count,
        page_base + page_count <= MAX_PAGE_SPAN,
    ensures
        b == spec_range_backed(ranges@, page_base, page_count),
{
    let base_address = page_base * HV_PAGE_SIZE;
    let end_address = base_address + (page_count - 1) * HV_PAGE_SIZE + (HV_PAGE_SIZE - 1);
    assert(end_address as int == (page_base + page_count) * HV_PAGE_SIZE - 1);
    let mut i: usize = 0;
    while i < ranges.len()
        invariant
            0 <= i <= ranges@.len(),
            base_address == page_base * HV_PAGE_SIZE,
            end_address as int == (page_base + page_count) * HV_PAGE_SIZE - 1,
            forall|j: int|
                0 <= j < i ==> !((#[trigger] ranges@[j]).0 <= base_address && end_address
                    <= ranges@[j].1),
        decreases ranges@.len() - i,
    {
        let (first, last) = ranges[i];
        if first <= base_address && end_address <= last {
            assert(spec_range_backed(ranges@, page_base, page_count)) by {
                assert(ranges@[i as int].0 <= base_address && end_address <= ranges@[i as int].1);
            }
            return true;
        }
        i = i + 1;
    }
    false
}

/// The byte counter accounts exactly for the successful page imports: after
/// any run of calls it equals the sum over the run of each import's page
/// count times the page size.
pub proof fn lemma_total_bytes_accounts_imports(l: Loader)
    requires
        l.wf(),
    ensures
        l.total_bytes() as int == HV_PAGE_SIZE as int * sum_page_counts(l.imports()),
{
}

/// No two ranges ever accepted by one import session share a page index.
pub proof fn lemma_accepted_ranges_disjoint(l: Loader)
    requires
        l.wf(),
    ensures
        forall|i: int, j: int|
            0 <= i < j < l.accepted().len() ==> !overlaps_range(
                #[trigger] l.accepted()[i],
                (#[trigger] l.accepted()[j]).page_base,
                l.accepted()[j].page_count,
            ),
{
}

/// Importing two registers of distinct kinds, neither kind present yet,
/// stores both: both stay retrievable from the register table and the table
/// stays duplicate-free, exactly as two `import_vp_register` calls at the
/// session's maximum trust level leave it.
pub proof fn lemma_two_distinct_register_imports(
    s: Seq<VpRegister>,
    r1: VpRegister,
    r2: VpRegister,
)
    requires
        kinds_distinct(s),
        !has_kind(s, r1.kind()),
        !has_kind(s.push(r1), r2.kind()),
    ensures
        kinds_distinct(s.push(r1).push(r2)),
        s.push(r1).push(r2).contains(r1),
        s.push(r1).push(r2).contains(r2),
{
    let t = s.push(r1).push(r2);
    assert(t[s.len() as int] == r1);
    assert(t[s.len() as int + 1] == r2);
    assert(forall|i: int| 0 <= i < s.len() ==> t[i] == s[i]);
    assert forall|a: int, b: int| 0 <= a < b < t.len() implies (#[trigger] t[a]).kind() != (
    #[trigger] t[b]).kind() by {
        if b == s.len() as int {
            assert(s[a].kind() != r1.kind());
        } else if b == s.len() as int + 1 {
            if a < s.len() {
                assert(s.push(r1)[a] == s[a]);
                assert(s.push(r1)[a].kind() != r2.kind());
            } else {
                assert(s.push(r1)[a] == r1);
                assert(s.push(r1)[a].kind() != r2.kind());
            }
        }
    }
}

} // verus!
