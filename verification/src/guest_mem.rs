//! The guest-memory collaborator: a shared, internally synchronized handle
//! through which boot-image bytes are written and whose backed address
//! ranges can be enumerated. The handle is opaque here; the calls into it
//! are the trusted boundary of this crate.

use vstd::prelude::*;
use vm_memory::bitmap::AtomicBitmap;
use vm_memory::{
    Bytes, GuestAddress, GuestAddressSpace, GuestMemoryAtomic, GuestMemoryBackend,
    GuestMemoryMmap, GuestMemoryRegion,
};

verus! {

/// The handle to guest memory that the import engine writes through. It
/// holds vm_memory's `GuestMemoryAtomic<GuestMemoryMmap<AtomicBitmap>>`:
/// reference counted and internally synchronized, so other subsystems may
/// hold the same memory while boot-image import runs, and every write goes
/// through the dirty-tracking bitmap layer. Verus refuses to declare that
/// type (its declaration needs the outside `GuestMemory` trait as a bound),
/// so this struct carries it opaquely.
#[verifier::external_body]
pub struct GuestMemoryHandle {
    mem: GuestMemoryAtomic<GuestMemoryMmap<AtomicBitmap>>,
}

impl GuestMemoryHandle {
    /// Relies on vm_memory's `GuestMemoryMmap::from_ranges` (plus the
    /// `GuestMemoryAtomic` wrapping that makes the result shareable): it
    /// anonymously maps one backed region per `(start, size)` pair and
    /// fails when a mapping cannot be made or the pairs overlap. Nothing is
    /// assumed of the result; the memory's contents and geometry speak only
    /// through the other calls on the handle.
    #[verifier::external_body]
    pub fn from_ranges(ranges: &Vec<(u64, u64)>) -> (r: Option<GuestMemoryHandle>) {
        let pairs: Vec<(GuestAddress, usize)> =
            ranges.iter().map(|p| (GuestAddress(p.0), p.1 as usize)).collect();
        match GuestMemoryMmap::from_ranges(&pairs) {
            Ok(m) => Some(GuestMemoryHandle { mem: GuestMemoryAtomic::new(m) }),
            Err(_) => None,
        }
    }
}

/// Relies on vm_memory's `Bytes::write` (reached through
/// `GuestAddressSpace::memory`): it writes the slice into guest memory at
/// the given absolute byte address and returns how many bytes it wrote,
/// which its documentation bounds by the slice's length; it fails when the
/// destination address is not backed at all.
#[verifier::external_body]
pub(crate) fn guest_write(mem: &GuestMemoryHandle, addr: u64, data: &[u8]) -> (r: Option<usize>)
    ensures
        r matches Some(n) ==> n <= data@.len(),
{
    match mem.mem.memory().write(data, GuestAddress(addr)) {
        Ok(n) => Some(n),
        Err(_) => None,
    }
}

/// Relies on vm_memory's `GuestMemoryBackend::iter` with
/// `GuestMemoryRegion::start_addr` and `last_addr`: one pair per backed
/// region, holding its first and its last byte address. What the pairs are
/// depends on how the memory was assembled, so nothing is assumed of them.
#[verifier::external_body]
pub(crate) fn guest_ranges(mem: &GuestMemoryHandle) -> (r: Vec<(u64, u64)>) {
    mem.mem.memory().iter().map(|reg| (reg.start_addr().0, reg.last_addr().0)).collect()
}

} // verus!
