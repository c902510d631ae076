//! Hypervisor-facing data: the memory layout reported at startup and the
//! errors the integration can raise.
//!
//! Talking to the hypervisor itself — detection, interrupt registration —
//! is an external collaborator's work; the core only consumes the reported
//! layout, so what is verified here is the layout's own consistency.

use vstd::prelude::*;
use vstd::string::StringExecFns;

verus! {

/// Supported hypervisor types.
#[derive(Debug, Clone, Copy, PartialEq, Eq, Structural)]
pub enum HypervisorType {
    Kvm,
    Xen,
    HyperV,
    VMware,
    Qemu,
}

/// Kind of a reported memory region.
#[derive(Debug, Clone, Copy, PartialEq, Eq, Structural)]
pub enum MemoryRegionType {
    Usable,
    Reserved,
    Mmio,
    Hypervisor,
}

/// Memory region descriptor as the hypervisor reports it.
#[derive(Debug, Clone, Copy, PartialEq, Eq, Structural)]
pub struct MemoryRegion {
    pub start: u64,
    pub size: u64,
    pub region_type: MemoryRegionType,
}

/// Memory layout information from the hypervisor, queried once at startup.
#[derive(Debug, Clone)]
pub struct MemoryLayout {
    pub total_memory: u64,
    pub usable_memory: u64,
    pub reserved_regions: Vec<MemoryRegion>,
}

/// A reported region lies inside the address space covered by `total`.
pub open spec fn region_in_bounds(r: MemoryRegion, total: u64) -> bool {
    r.start + r.size <= total
}

impl MemoryLayout {
    /// A layout is consistent when no more memory is usable than exists and
    /// every reserved region lies inside the reported total.
    pub open spec fn consistent(self) -> bool {
        &&& self.usable_memory <= self.total_memory
        &&& (forall|i: int|
            0 <= i < self.reserved_regions@.len() ==> region_in_bounds(
                #[trigger] self.reserved_regions@[i],
                self.total_memory,
            ))
    }

    /// Decide whether the reported layout is consistent; an inconsistent one
    /// must be rejected before any allocator is configured from it.
    pub fn is_consistent(&self) -> (r: bool)
        ensures
            r == self.consistent(),
    {
        if self.usable_memory > self.total_memory {
            return false;
        }
        let mut i: usize = 0;
        while i < self.reserved_regions.len()
            invariant
                i <= self.reserved_regions.len(),
                self.usable_memory <= self.total_memory,
                forall|j: int|
                    0 <= j < i ==> region_in_bounds(
                        #[trigger] self.reserved_regions@[j],
                        self.total_memory,
                    ),
            decreases self.reserved_regions.len() - i,
        {
            let region = self.reserved_regions[i];
            if region.start > self.total_memory || region.size > self.total_memory - region.start {
                return false;
            }
            i += 1;
        }
        true
    }
}

/// Hypervisor-specific errors.
#[derive(Debug, Clone, Copy, PartialEq, Eq, Structural)]
pub enum HypervisorError {
    InitializationFailed,
    UnsupportedFeature,
    HardwareNotSupported,
    InvalidConfiguration,
}

impl HypervisorError {
    /// A human-readable description of the error.
    pub fn message(&self) -> (r: String)
        ensures
            match self {
                HypervisorError::InitializationFailed => r@
                    == "Hypervisor initialization failed"@,
                HypervisorError::UnsupportedFeature => r@ == "Unsupported hypervisor feature"@,
                HypervisorError::HardwareNotSupported => r@ == "Hardware not supported"@,
                HypervisorError::InvalidConfiguration => r@
                    == "Invalid hypervisor configuration"@,
            },
    {
        match self {
            HypervisorError::InitializationFailed => String::from_str(
                "Hypervisor initialization failed",
            ),
            HypervisorError::UnsupportedFeature => String::from_str(
                "Unsupported hypervisor feature",
            ),
            HypervisorError::HardwareNotSupported => String::from_str("Hardware not supported"),
            HypervisorError::InvalidConfiguration => String::from_str(
                "Invalid hypervisor configuration",
            ),
        }
    }
}

} // verus!
