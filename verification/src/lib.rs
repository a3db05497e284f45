//! Boot-time guest setup: the physical address-space layout a guest will see,
//! and a measured import engine that loads a boot image into guest memory
//! while tracking which page ranges have been accepted and under what trust
//! semantics.

pub mod guest_mem;
pub mod igvm;
pub mod layout;
pub mod loader;
pub mod tracker;
