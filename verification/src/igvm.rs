//! Closed tag sets used by the import protocol: page-acceptance kinds,
//! startup memory types, trust levels, and initial virtual-CPU registers.

use vstd::prelude::*;

verus! {

/// Size in bytes of one guest page as the import protocol counts them.
pub const HV_PAGE_SIZE: u64 = 4096;

/// Trust/visibility semantics under which a range of guest pages is imported.
/// The import engine only compares these tags and reports them back on a
/// conflict; their meaning is the boot orchestrator's concern.
#[derive(Debug, Clone, Copy, PartialEq, Eq, Structural)]
pub enum BootPageAcceptance {
    /// Page is accepted exclusively for the guest and measured.
    Exclusive,
    /// Page is accepted exclusively for the guest but left unmeasured.
    ExclusiveUnmeasured,
    /// Page holds a virtual-CPU context area.
    VpContext,
    /// Page is the error reporting page.
    ErrorPage,
    /// Page holds the secrets area.
    SecretsPage,
    /// Page holds CPUID data.
    CpuidPage,
}

/// Memory type named by a startup memory availability request.
#[derive(Debug, Clone, Copy, PartialEq, Eq, Structural)]
pub enum StartupMemoryType {
    /// Plain RAM.
    Ram,
    /// RAM that the elevated trust level may later protect.
    Vtl2ProtectableRam,
}

/// Virtual trust levels, ordered from least to most privileged. An import
/// session is configured with exactly one maximum level.
#[derive(Debug, Clone, Copy, PartialEq, Eq, Structural)]
pub enum Vtl {
    Vtl0,
    Vtl1,
    Vtl2,
}

/// An initial virtual-CPU register value. Each variant names one machine
/// register identity; the import engine stores at most one value per
/// identity and otherwise treats the payload as opaque.
#[derive(Debug, Clone, Copy, PartialEq, Eq, Structural)]
pub enum VpRegister {
    Cr0(u64),
    Cr3(u64),
    Cr4(u64),
    Efer(u64),
    Pat(u64),
    Rbp(u64),
    Rip(u64),
    Rsi(u64),
    Rsp(u64),
    R8(u64),
    R9(u64),
    R10(u64),
    R11(u64),
    Rflags(u64),
    GdtrBase(u64),
    IdtrBase(u64),
}

impl VpRegister {
    /// The register identity this value belongs to, as a tag: two values for
    /// the same machine register carry the same tag.
    pub open spec fn kind(self) -> int {
        match self {
            VpRegister::Cr0(_) => 0,
            VpRegister::Cr3(_) => 1,
            VpRegister::Cr4(_) => 2,
            VpRegister::Efer(_) => 3,
            VpRegister::Pat(_) => 4,
            VpRegister::Rbp(_) => 5,
            VpRegister::Rip(_) => 6,
            VpRegister::Rsi(_) => 7,
            VpRegister::Rsp(_) => 8,
            VpRegister::R8(_) => 9,
            VpRegister::R9(_) => 10,
            VpRegister::R10(_) => 11,
            VpRegister::R11(_) => 12,
            VpRegister::Rflags(_) => 13,
            VpRegister::GdtrBase(_) => 14,
            VpRegister::IdtrBase(_) => 15,
        }
    }

    /// Executable form of `kind`.
    pub fn kind_tag(&self) -> (t: u8)
        ensures
            t as int == self.kind(),
    {
        match self {
            VpRegister::Cr0(_) => 0,
            VpRegister::Cr3(_) => 1,
            VpRegister::Cr4(_) => 2,
            VpRegister::Efer(_) => 3,
            VpRegister::Pat(_) => 4,
            VpRegister::Rbp(_) => 5,
            VpRegister::Rip(_) => 6,
            VpRegister::Rsi(_) => 7,
            VpRegister::Rsp(_) => 8,
            VpRegister::R8(_) => 9,
            VpRegister::R9(_) => 10,
            VpRegister::R10(_) => 11,
            VpRegister::R11(_) => 12,
            VpRegister::Rflags(_) => 13,
            VpRegister::GdtrBase(_) => 14,
            VpRegister::IdtrBase(_) => 15,
        }
    }
}

/// Whether some register in `s` already carries the register identity `k`.
pub open spec fn has_kind(s: Seq<VpRegister>, k: int) -> bool {
    exists|i: int| 0 <= i < s.len() && #[trigger] s[i].kind() == k
}

/// At most one stored register per register identity.
pub open spec fn kinds_distinct(s: Seq<VpRegister>) -> bool {
    forall|i: int, j: int|
        0 <= i < j < s.len() ==> #[trigger] s[i].kind() != #[trigger] s[j].kind()
}

} // verus!
