//! Accepted-range bookkeeping: a set of pairwise-disjoint page intervals,
//! each recorded with the acceptance kind it was imported under, held sorted
//! by base page so that overlap queries run in logarithmic time.

use vstd::prelude::*;
use crate::igvm::BootPageAcceptance;

verus! {

/// A range of guest pages accepted into the import session: the inclusive
/// page interval `[page_base, page_base + page_count - 1]` and the
/// acceptance kind it was imported under.
#[derive(Debug, Clone, Copy, PartialEq, Eq, Structural)]
pub struct ImportRegion {
    pub page_base: u64,
    pub page_count: u64,
    pub acceptance: BootPageAcceptance,
}

/// A well-formed range: at least one page, and an inclusive end that fits
/// the address width.
pub open spec fn region_wf(r: ImportRegion) -> bool {
    &&& 1 <= r.page_count
    &&& r.page_base + r.page_count - 1 <= u64::MAX
}

/// Whether the inclusive page interval of `a` shares a page index with the
/// inclusive interval `[page_base, page_base + page_count - 1]`.
pub open spec fn overlaps_range(a: ImportRegion, page_base: u64, page_count: u64) -> bool {
    a.page_base <= page_base + page_count - 1 && page_base <= a.page_base + a.page_count - 1
}

/// Whether the inclusive page intervals of `a` and `b` share a page index.
pub open spec fn regions_overlap(a: ImportRegion, b: ImportRegion) -> bool {
    overlaps_range(a, b.page_base, b.page_count)
}

/// Whether some range in `s` overlaps the inclusive page interval
/// `[page_base, page_base + page_count - 1]`.
pub open spec fn range_overlaps(s: Seq<ImportRegion>, page_base: u64, page_count: u64) -> bool {
    exists|i: int| 0 <= i < s.len() && overlaps_range(#[trigger] s[i], page_base, page_count)
}

/// Ranges are well formed, sorted by base page, and each ends strictly
/// before the next begins.
pub open spec fn ranges_wf(s: Seq<ImportRegion>) -> bool {
    &&& forall|i: int| 0 <= i < s.len() ==> region_wf(#[trigger] s[i])
    &&& forall|i: int, j: int|
        0 <= i < j < s.len() ==> (#[trigger] s[i]).page_base + s[i].page_count
            <= (#[trigger] s[j]).page_base
}

/// The accepted page ranges of one import session, sorted by base page and
/// pairwise disjoint.
pub struct RangeTracker {
    ranges: Vec<ImportRegion>,
}

impl RangeTracker {
    /// The recorded ranges, in increasing order of base page.
    pub closed spec fn view(self) -> Seq<ImportRegion> {
        self.ranges@
    }

    /// Every recorded range is well formed, and each range ends strictly
    /// before the next begins.
    pub open spec fn wf(self) -> bool {
        ranges_wf(self.view())
    }

    pub fn new() -> (t: RangeTracker)
        ensures
            t.view() == Seq::<ImportRegion>::empty(),
            t.wf(),
    {
        RangeTracker { ranges: Vec::new() }
    }

    /// The index of the first recorded range whose base page is at least
    /// `page_base`, found by binary search.
    fn lower_bound(&self, page_base: u64) -> (idx: usize)
        requires
            self.wf(),
        ensures
            0 <= idx <= self.view().len(),
            forall|i: int| 0 <= i < idx ==> (#[trigger] self.view()[i]).page_base < page_base,
            forall|i: int|
                idx <= i < self.view().len() ==> (#[trigger] self.view()[i]).page_base >= page_base,
    {
        let mut lo: usize = 0;
        let mut hi: usize = self.ranges.len();
        while lo < hi
            invariant
                self.wf(),
                0 <= lo <= hi <= self.view().len(),
                forall|i: int| 0 <= i < lo ==> (#[trigger] self.view()[i]).page_base < page_base,
                forall|i: int|
                    hi <= i < self.view().len()
                        ==> (#[trigger] self.view()[i]).page_base >= page_base,
            decreases hi - lo,
        {
            let mid: usize = lo + (hi - lo) / 2;
            if self.ranges[mid].page_base < page_base {
                proof {
                    assert forall|i: int| 0 <= i < mid + 1 implies (
                    #[trigger] self.view()[i]).page_base < page_base by {
                        if i < mid as int {
                            assert(self.view()[i].page_base + self.view()[i].page_count
                                <= self.view()[mid as int].page_base);
                            assert(region_wf(self.view()[i]));
                        }
                    }
                }
                lo = mid + 1;
            } else {
                proof {
                    assert forall|i: int| mid <= i < self.view().len() implies (
                    #[trigger] self.view()[i]).page_base >= page_base by {
                        if i > mid as int {
                            assert(self.view()[mid as int].page_base + self.view()[
                                mid as int].page_count <= self.view()[i].page_base);
                            assert(region_wf(self.view()[mid as int]));
                        }
                    }
                }
                hi = mid;
            }
        }
        lo
    }

    /// Look for a recorded range that overlaps the inclusive page interval
    /// `[page_base, page_base + page_count - 1]`, without changing anything.
    pub fn find_overlap(&self, page_base: u64, page_count: u64) -> (r: Option<ImportRegion>)
        requires
            self.wf(),
            1 <= page_count,
            page_base + page_count - 1 <= u64::MAX,
        ensures
            match r {
                Some(x) => self.view().contains(x) && overlaps_range(x, page_base, page_count),
                None => !range_overlaps(self.view(), page_base, page_count),
            },
    {
        let idx = self.lower_bound(page_base);
        let page_end = page_base + (page_count - 1);
        if idx > 0 {
            let prev = self.ranges[idx - 1];
            if prev.page_base + (prev.page_count - 1) >= page_base {
                assert(self.view().contains(self.view()[idx - 1]));
                return Some(prev);
            }
        }
        if idx < self.ranges.len() {
            let next = self.ranges[idx];
            if next.page_base <= page_end {
                assert(self.view().contains(self.view()[idx as int]));
                return Some(next);
            }
        }
        proof {
            assert forall|i: int| 0 <= i < self.view().len() implies !overlaps_range(
                #[trigger] self.view()[i],
                page_base,
                page_count,
            ) by {
                if i < idx as int - 1 {
                    assert(self.view()[i].page_base + self.view()[i].page_count
                        <= self.view()[idx - 1].page_base);
                } else if i > idx as int {
                    assert(self.view()[idx as int].page_base + self.view()[idx as int].page_count
                        <= self.view()[i].page_base);
                }
            }
        }
        None
    }

    /// Record a range that overlaps nothing already recorded, keeping the
    /// ranges sorted and disjoint.
    pub fn insert(&mut self, reg: ImportRegion)
        requires
            old(self).wf(),
            region_wf(reg),
            !range_overlaps(old(self).view(), reg.page_base, reg.page_count),
        ensures
            final(self).wf(),
            exists|k: int|
                0 <= k <= old(self).view().len() && final(self).view() == old(self).view().insert(
                    k,
                    reg,
                ),
            final(self).view().contains(reg),
    {
        let idx = self.lower_bound(reg.page_base);
        proof {
            if idx > 0 {
                assert(overlaps_range(self.view()[idx - 1], reg.page_base, reg.page_count)
                    || self.view()[idx - 1].page_base + self.view()[idx - 1].page_count
                    <= reg.page_base);
            }
            if (idx as int) < self.view().len() {
                assert(overlaps_range(self.view()[idx as int], reg.page_base, reg.page_count)
                    || reg.page_base + reg.page_count <= self.view()[idx as int].page_base);
            }
        }
        self.ranges.insert(idx, reg);
        proof {
            let s = old(self).view();
            assert(final(self).view() == s.insert(idx as int, reg));
            assert(final(self).view()[idx as int] == reg);
            let ghost t = final(self).view();
            assert forall|i: int, j: int|
                0 <= i < j < t.len() implies (#[trigger] t[i]).page_base + t[i].page_count
                    <= (#[trigger] t[j]).page_base by {
                if i < idx as int && j < idx as int {
                    assert(t[i] == s[i]);
                    assert(t[j] == s[j]);
                } else if i < idx as int && j == idx as int {
                    assert(t[i] == s[i]);
                } else if i < idx as int && j > idx as int {
                    assert(t[i] == s[i]);
                    assert(t[j] == s[j - 1]);
                } else if i == idx as int {
                    assert(t[j] == s[j - 1]);
                } else {
                    assert(t[i] == s[i - 1]);
                    assert(t[j] == s[j - 1]);
                }
            }
        }
    }
}

/// No two recorded ranges of a well-formed tracker share a page index.
pub proof fn lemma_tracker_ranges_disjoint(t: RangeTracker)
    requires
        t.wf(),
    ensures
        forall|i: int, j: int|
            0 <= i < j < t.view().len() ==> !regions_overlap(
                #[trigger] t.view()[i],
                #[trigger] t.view()[j],
            ),
{
}

} // verus!
