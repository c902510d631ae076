//! Capability-mediated request dispatch and cooperative scheduling.
//!
//! The crate models the core of a small capability-based kernel: a registry
//! that issues, revokes, checks and delegates capabilities; a cooperative
//! round-robin scheduler over process and thread tables; and a typed
//! request/response channel whose dispatch decisions are validated against
//! the registry before any external collaborator is touched.

use vstd::prelude::*;

pub mod capability;
pub mod channel;
pub mod hypervisor;
pub mod io;
pub mod memory;
pub mod process;
pub mod scheduling;

verus! {

/// First value of every identifier counter. Capability, process and thread
/// identifiers are handed out from monotonically increasing counters and
/// never reused within a system's lifetime.
pub const FIRST_IDENTIFIER: u64 = 1;

} // verus!

