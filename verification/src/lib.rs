//! Verified core of an enclave launch library.
//!
//! The crate drives a kernel device that hosts hardware-isolated virtual
//! machines ("enclaves"): it defines the device's fixed ioctl command codes
//! and wire structures, maps raw OS error codes into a typed taxonomy, plans
//! huge-page-backed memory reservations, places an enclave image across the
//! reserved regions, and sequences the launch state machine from slot
//! creation to start.  Everything that decides or computes is verified; the
//! raw device and memory-mapping calls themselves are issued by a thin
//! unverified shell that follows the contracts stated here.

pub mod error;
pub mod launch;
pub mod memory;
pub mod placement;
pub mod protocol;
