use igvm_loader::igvm::{BootPageAcceptance, StartupMemoryType, Vtl, VpRegister};
use igvm_loader::loader::{Error, Loader};

const PAGE: u64 = 4096;

/// One backed region of 16 pages at address zero.
fn small_loader(max_vtl: Vtl) -> Loader {
    Loader::for_memory_ranges(&vec![(0, 16 * PAGE)], max_vtl).unwrap()
}

/// Two backed regions of 16 pages each with a 16-page hole between them.
fn gapped_loader(max_vtl: Vtl) -> Loader {
    Loader::for_memory_ranges(&vec![(0, 16 * PAGE), (32 * PAGE, 16 * PAGE)], max_vtl).unwrap()
}

#[test]
fn accepted_ranges_never_share_a_page() {
    let mut l = small_loader(Vtl::Vtl0);
    assert!(l.accept_new_range(0, 4, BootPageAcceptance::Exclusive).is_ok());
    assert!(l.accept_new_range(8, 4, BootPageAcceptance::ExclusiveUnmeasured).is_ok());
    // Touching is not sharing: pages 4..=7 fill the space in between.
    assert!(l.accept_new_range(4, 4, BootPageAcceptance::Exclusive).is_ok());
    // Any shared page index is a conflict that reports the entry hit.
    match l.accept_new_range(9, 1, BootPageAcceptance::Exclusive) {
        Err(Error::OverlapsExistingRegion(hit)) => {
            assert_eq!(hit.page_base, 8);
            assert_eq!(hit.page_count, 4);
            assert!(matches!(hit.acceptance, BootPageAcceptance::ExclusiveUnmeasured));
        }
        other => panic!("expected an overlap conflict, got {:?}", other),
    }
    // The failed call left the tracker unchanged: what was free before the
    // conflict is still free.
    assert!(l.accept_new_range(12, 4, BootPageAcceptance::Exclusive).is_ok());
}

#[test]
fn import_pages_counts_full_page_capacity() {
    let mut l = small_loader(Vtl::Vtl0);
    let data = vec![0xaau8; 4096];
    assert!(l.import_pages(0, 2, BootPageAcceptance::Exclusive, &data).is_ok());
    assert!(l.import_pages(2, 3, BootPageAcceptance::Exclusive, &data).is_ok());
    // The counter tracks reserved capacity, not literal bytes copied.
    assert_eq!(l.gets_total_bytes_written(), 5 * PAGE);
}

#[test]
fn failed_imports_leave_the_counter_and_tracker_unchanged() {
    let mut l = small_loader(Vtl::Vtl0);
    let data = vec![1u8; 4096];
    assert!(l.import_pages(0, 1, BootPageAcceptance::Exclusive, &data).is_ok());

    // Conflict: fails before touching anything.
    assert!(matches!(
        l.import_pages(0, 1, BootPageAcceptance::Exclusive, &data),
        Err(Error::OverlapsExistingRegion(_))
    ));

    // Capacity violation: one page cannot hold two pages of data.
    let big = vec![2u8; 2 * 4096];
    assert!(matches!(
        l.import_pages(4, 1, BootPageAcceptance::Exclusive, &big),
        Err(Error::DataTooLarge)
    ));
    // The capacity failure did not accept the range either: the same range
    // imports cleanly afterwards.
    assert!(l.import_pages(4, 1, BootPageAcceptance::Exclusive, &data).is_ok());

    assert_eq!(l.gets_total_bytes_written(), 2 * PAGE);
}

#[test]
fn import_to_unbacked_memory_fails_loudly() {
    let mut l = small_loader(Vtl::Vtl0);
    let data = vec![3u8; 4096];
    // Page 16 is past the single backed region.
    assert!(matches!(
        l.import_pages(16, 1, BootPageAcceptance::Exclusive, &data),
        Err(Error::MemoryUnavailable)
    ));
    assert_eq!(l.gets_total_bytes_written(), 0);
}

#[test]
fn partially_backed_import_fails_loudly() {
    let mut l = gapped_loader(Vtl::Vtl0);
    let data = vec![4u8; 2 * 4096];
    // Pages 15..=16 start backed but run into the hole.
    assert!(matches!(
        l.import_pages(15, 2, BootPageAcceptance::Exclusive, &data),
        Err(Error::MemoryUnavailable)
    ));
    assert_eq!(l.gets_total_bytes_written(), 0);
}

#[test]
fn registers_import_once_per_kind_at_max_vtl() {
    let mut l = small_loader(Vtl::Vtl2);
    // Only the session's maximum trust level may supply registers.
    assert!(matches!(
        l.import_vp_register(Vtl::Vtl0, VpRegister::Rip(0x1000)),
        Err(Error::InvalidVtl)
    ));
    // Two distinct kinds both succeed and both values are retrievable.
    assert!(l.import_vp_register(Vtl::Vtl2, VpRegister::Rip(0x1000)).is_ok());
    assert!(l.import_vp_register(Vtl::Vtl2, VpRegister::Rsp(0x8000)).is_ok());
    // A second import of a kind already present is reported, not fatal,
    // and does not overwrite.
    assert!(matches!(
        l.import_vp_register(Vtl::Vtl2, VpRegister::Rip(0x2000)),
        Err(Error::DuplicateRegisterImport)
    ));
    let regs = l.get_initial_regs();
    assert_eq!(regs.len(), 2);
    assert!(regs.contains(&VpRegister::Rip(0x1000)));
    assert!(regs.contains(&VpRegister::Rsp(0x8000)));
}

#[test]
fn startup_memory_must_lie_within_one_backed_range() {
    let mut l = gapped_loader(Vtl::Vtl0);
    // Entirely inside the first region.
    assert!(l.verify_startup_memory_available(0, 16, StartupMemoryType::Ram).is_ok());
    // Entirely inside the second region.
    assert!(l.verify_startup_memory_available(32, 16, StartupMemoryType::Ram).is_ok());
    // Starts backed, but its end falls into the unbacked hole: partial
    // containment is an availability violation.
    assert!(matches!(
        l.verify_startup_memory_available(15, 2, StartupMemoryType::Ram),
        Err(Error::MemoryUnavailable)
    ));
    // Spanning the hole from one region into the other fails too: ranges
    // never coalesce across a gap.
    assert!(matches!(
        l.verify_startup_memory_available(0, 48, StartupMemoryType::Ram),
        Err(Error::MemoryUnavailable)
    ));
}

#[test]
fn protectable_ram_needs_the_elevated_trust_level() {
    let mut low = small_loader(Vtl::Vtl0);
    assert!(matches!(
        low.verify_startup_memory_available(0, 1, StartupMemoryType::Vtl2ProtectableRam),
        Err(Error::MemoryUnavailable)
    ));
    let mut high = small_loader(Vtl::Vtl2);
    assert!(high
        .verify_startup_memory_available(0, 1, StartupMemoryType::Vtl2ProtectableRam)
        .is_ok());
    assert!(high.verify_startup_memory_available(0, 1, StartupMemoryType::Ram).is_ok());
}

#[test]
fn a_loader_over_a_shared_handle_starts_empty() {
    let memory =
        igvm_loader::guest_mem::GuestMemoryHandle::from_ranges(&vec![(0, 16 * PAGE)]).unwrap();
    let mut l = Loader::new(memory, Vtl::Vtl0);
    assert!(l.accept_new_range(0, 1, BootPageAcceptance::Exclusive).is_ok());
    let data = vec![9u8; 16];
    assert!(l.import_pages(1, 1, BootPageAcceptance::Exclusive, &data).is_ok());
    assert_eq!(l.get_initial_regs().len(), 0);
}
