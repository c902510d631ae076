//! Memory management bookkeeping: the heap configuration, allocation
//! statistics, and tracked memory regions.
//!
//! The manager is the core's accountant. It hands out addresses by bump
//! allocation inside the configured heap window and keeps the statistics
//! balanced; the machinery that backs the heap with real storage is an
//! external collaborator and never flows through this logic.

use vstd::prelude::*;

verus! {

/// Memory management configuration.
#[derive(Debug, Clone, Copy, PartialEq, Eq, Structural)]
pub struct MemoryConfig {
    pub heap_start: usize,
    pub heap_size: usize,
    pub page_size: usize,
    pub enable_memory_tagging: bool,
    pub enable_compression: bool,
}

/// Memory management statistics. `used_memory + free_memory` always equals
/// `total_memory`.
#[derive(Debug, Clone, Copy, PartialEq, Eq, Structural, Default)]
pub struct MemoryStats {
    pub total_memory: usize,
    pub used_memory: usize,
    pub free_memory: usize,
    pub allocations: usize,
    pub deallocations: usize,
}

/// Memory management errors.
#[derive(Debug, Clone, Copy, PartialEq, Eq, Structural)]
pub enum MemoryError {
    OutOfMemory,
    InvalidAddress,
    PermissionDenied,
    AllocationFailed,
    DeallocationFailed,
}

/// Memory permissions.
#[derive(Debug, Clone, Copy, PartialEq, Eq, Structural)]
pub struct MemoryPermissions {
    pub read: bool,
    pub write: bool,
    pub execute: bool,
}

/// Memory backing type.
#[derive(Debug, Clone, Copy, PartialEq, Eq, Structural)]
pub enum MemoryBacking {
    Physical,
    Swapped,
    Mapped,
    Shared,
}

/// Memory region descriptor.
#[derive(Debug, Clone, Copy, PartialEq, Eq, Structural)]
pub struct MemoryRegion {
    pub start: usize,
    pub size: usize,
    pub permissions: MemoryPermissions,
    pub backing: MemoryBacking,
}

/// A mapped region matches an unmap request by exact start and size.
pub open spec fn region_matches(r: MemoryRegion, start: usize, size: usize) -> bool {
    r.start == start && r.size == size
}

/// The region table with every region matching (`start`, `size`) removed;
/// the others keep their order.
pub open spec fn without_region(s: Seq<MemoryRegion>, start: usize, size: usize) -> Seq<
    MemoryRegion,
>
    decreases s.len(),
{
    if s.len() == 0 {
        Seq::empty()
    } else {
        let rest = without_region(s.drop_last(), start, size);
        if region_matches(s.last(), start, size) {
            rest
        } else {
            rest.push(s.last())
        }
    }
}

/// Memory manager: bump allocation inside the configured heap window, with
/// balanced statistics and a table of mapped regions.
pub struct MemoryManager {
    pub config: MemoryConfig,
    pub stats: MemoryStats,
    pub regions: Vec<MemoryRegion>,
    pub next_free: usize,
}

impl MemoryManager {
    /// Accounting well-formedness: the heap window fits the address space,
    /// the bump pointer stays inside it, the statistics balance, and no more
    /// is accounted used than was handed out.
    pub open spec fn wf(self) -> bool {
        &&& self.config.heap_start + self.config.heap_size <= usize::MAX
        &&& self.stats.total_memory == self.config.heap_size
        &&& self.stats.used_memory + self.stats.free_memory == self.stats.total_memory
        &&& self.config.heap_start <= self.next_free
        &&& self.next_free <= self.config.heap_start + self.config.heap_size
        &&& self.stats.used_memory <= self.next_free - self.config.heap_start
    }

    /// Create a new memory manager over the configured heap window: nothing
    /// allocated, all of the window free.
    pub fn new(config: MemoryConfig) -> (r: Self)
        requires
            config.heap_start + config.heap_size <= usize::MAX,
        ensures
            r.wf(),
            r.config == config,
            r.stats.total_memory == config.heap_size,
            r.stats.used_memory == 0,
            r.stats.free_memory == config.heap_size,
            r.stats.allocations == 0,
            r.stats.deallocations == 0,
            r.regions@.len() == 0,
            r.next_free == config.heap_start,
    {
        MemoryManager {
            config,
            stats: MemoryStats {
                total_memory: config.heap_size,
                used_memory: 0,
                free_memory: config.heap_size,
                allocations: 0,
                deallocations: 0,
            },
            regions: Vec::new(),
            next_free: config.heap_start,
        }
    }

    /// Allocate `size` bytes by advancing the bump pointer. Fails with
    /// `AllocationFailed` on an empty request and with `OutOfMemory` when the
    /// remaining window is too small; freed memory is accounted but not
    /// reused, as the window is never compacted. The requested permissions
    /// are the external allocator's to enforce; the accounting is the same
    /// for all of them.
    pub fn allocate(&mut self, size: usize, permissions: MemoryPermissions) -> (r: Result<
        usize,
        MemoryError,
    >)
        requires
            old(self).wf(),
            old(self).stats.allocations < usize::MAX,
        ensures
            final(self).wf(),
            final(self).config == old(self).config,
            final(self).regions@ == old(self).regions@,
            size == 0 ==> r == Err::<usize, MemoryError>(MemoryError::AllocationFailed)
                && final(self).stats == old(self).stats
                && final(self).next_free == old(self).next_free,
            size > 0 && size > old(self).config.heap_start + old(self).config.heap_size
                - old(self).next_free ==> r == Err::<usize, MemoryError>(MemoryError::OutOfMemory)
                && final(self).stats == old(self).stats
                && final(self).next_free == old(self).next_free,
            size > 0 && size <= old(self).config.heap_start + old(self).config.heap_size
                - old(self).next_free ==> {
                &&& r == Ok::<usize, MemoryError>(old(self).next_free)
                &&& final(self).next_free == old(self).next_free + size
                &&& final(self).stats.used_memory == old(self).stats.used_memory + size
                &&& final(self).stats.free_memory == old(self).stats.free_memory - size
                &&& final(self).stats.allocations == old(self).stats.allocations + 1
                &&& final(self).stats.deallocations == old(self).stats.deallocations
                &&& final(self).stats.total_memory == old(self).stats.total_memory
            },
    {
        let _ = permissions;
        if size == 0 {
            return Err(MemoryError::AllocationFailed);
        }
        let remaining = self.config.heap_start + self.config.heap_size - self.next_free;
        if size > remaining {
            return Err(MemoryError::OutOfMemory);
        }
        let address = self.next_free;
        self.next_free = self.next_free + size;
        self.stats.allocations = self.stats.allocations + 1;
        self.stats.used_memory = self.stats.used_memory + size;
        self.stats.free_memory = self.stats.free_memory - size;
        Ok(address)
    }

    /// Release `size` bytes of accounting. Fails with `DeallocationFailed`
    /// when more would be released than is accounted used, leaving the
    /// statistics untouched.
    pub fn deallocate(&mut self, address: usize, size: usize) -> (r: Result<(), MemoryError>)
        requires
            old(self).wf(),
            old(self).stats.deallocations < usize::MAX,
        ensures
            final(self).wf(),
            final(self).config == old(self).config,
            final(self).regions@ == old(self).regions@,
            final(self).next_free == old(self).next_free,
            size > old(self).stats.used_memory ==> r == Err::<(), MemoryError>(
                MemoryError::DeallocationFailed,
            ) && final(self).stats == old(self).stats,
            size <= old(self).stats.used_memory ==> {
                &&& r == Ok::<(), MemoryError>(())
                &&& final(self).stats.used_memory == old(self).stats.used_memory - size
                &&& final(self).stats.free_memory == old(self).stats.free_memory + size
                &&& final(self).stats.deallocations == old(self).stats.deallocations + 1
                &&& final(self).stats.allocations == old(self).stats.allocations
                &&& final(self).stats.total_memory == old(self).stats.total_memory
            },
    {
        let _ = address;
        if size > self.stats.used_memory {
            return Err(MemoryError::DeallocationFailed);
        }
        self.stats.deallocations = self.stats.deallocations + 1;
        self.stats.used_memory = self.stats.used_memory - size;
        self.stats.free_memory = self.stats.free_memory + size;
        Ok(())
    }

    /// Get memory statistics.
    pub fn get_stats(&self) -> (r: &MemoryStats)
        ensures
            r == &self.stats,
    {
        &self.stats
    }

    /// Record a mapped memory region. A region whose end would lie beyond
    /// the address space is rejected with `InvalidAddress` and nothing is
    /// recorded.
    pub fn map_region(&mut self, region: MemoryRegion) -> (r: Result<(), MemoryError>)
        requires
            old(self).wf(),
        ensures
            final(self).wf(),
            final(self).config == old(self).config,
            final(self).stats == old(self).stats,
            final(self).next_free == old(self).next_free,
            region.start + region.size > usize::MAX ==> r == Err::<(), MemoryError>(
                MemoryError::InvalidAddress,
            ) && final(self).regions@ == old(self).regions@,
            region.start + region.size <= usize::MAX ==> r == Ok::<(), MemoryError>(()) && final(self).regions@ == old(self).regions@.push(region),
    {
        if region.size > usize::MAX - region.start {
            return Err(MemoryError::InvalidAddress);
        }
        self.regions.push(region);
        Ok(())
    }

    /// Remove every mapped region recorded with exactly this start and size;
    /// the others keep their order. Unmapping a region that was never mapped
    /// is a no-op.
    pub fn unmap_region(&mut self, start: usize, size: usize) -> (r: Result<(), MemoryError>)
        requires
            old(self).wf(),
        ensures
            final(self).wf(),
            final(self).config == old(self).config,
            final(self).stats == old(self).stats,
            final(self).next_free == old(self).next_free,
            r == Ok::<(), MemoryError>(()),
            final(self).regions@ == without_region(old(self).regions@, start, size),
    {
        let mut kept: Vec<MemoryRegion> = Vec::new();
        let mut i: usize = 0;
        while i < self.regions.len()
            invariant
                i <= self.regions.len(),
                kept@ == without_region(self.regions@.subrange(0, i as int), start, size),
            decreases self.regions.len() - i,
        {
            let region = self.regions[i];
            proof {
                let sub_i1 = self.regions@.subrange(0, i + 1 as int);
                assert(sub_i1.drop_last() =~= self.regions@.subrange(0, i as int));
                assert(sub_i1.last() == region);
            }
            if !(region.start == start && region.size == size) {
                kept.push(region);
            }
            i += 1;
        }
        proof {
            assert(self.regions@.subrange(0, self.regions@.len() as int) =~= self.regions@);
        }
        self.regions = kept;
        Ok(())
    }
}

} // verus!
