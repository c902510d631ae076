use rustos_core::hypervisor::HypervisorError;
use rustos_core::hypervisor::MemoryLayout;
use rustos_core::hypervisor::MemoryRegionType;
use rustos_core::io::DeviceCapability;
use rustos_core::io::DeviceDescriptor;
use rustos_core::io::DeviceManager;
use rustos_core::io::DeviceType;
use rustos_core::io::IoSubsystem;
use rustos_core::memory::MemoryBacking;
use rustos_core::memory::MemoryConfig;
use rustos_core::memory::MemoryError;
use rustos_core::memory::MemoryManager;
use rustos_core::memory::MemoryPermissions;
use rustos_core::memory::MemoryRegion;

fn test_config() -> MemoryConfig {
    MemoryConfig {
        heap_start: 0x1000,
        heap_size: 0x100,
        page_size: 4096,
        enable_memory_tagging: true,
        enable_compression: false,
    }
}

fn rw() -> MemoryPermissions {
    MemoryPermissions { read: true, write: true, execute: false }
}

#[test]
fn allocation_bumps_addresses_and_balances_stats() {
    let mut mm = MemoryManager::new(test_config());
    assert_eq!(mm.allocate(0x10, rw()), Ok(0x1000));
    assert_eq!(mm.allocate(0x20, rw()), Ok(0x1010));
    let stats = mm.get_stats();
    assert_eq!(stats.total_memory, 0x100);
    assert_eq!(stats.used_memory, 0x30);
    assert_eq!(stats.free_memory, 0xD0);
    assert_eq!(stats.allocations, 2);
    assert_eq!(stats.deallocations, 0);
}

#[test]
fn empty_allocation_fails() {
    let mut mm = MemoryManager::new(test_config());
    assert_eq!(mm.allocate(0, rw()), Err(MemoryError::AllocationFailed));
    assert_eq!(mm.get_stats().allocations, 0);
}

#[test]
fn exhausted_window_fails_with_out_of_memory() {
    let mut mm = MemoryManager::new(test_config());
    assert_eq!(mm.allocate(0x100, rw()), Ok(0x1000));
    assert_eq!(mm.allocate(1, rw()), Err(MemoryError::OutOfMemory));
    // The failed attempt changed nothing.
    assert_eq!(mm.get_stats().used_memory, 0x100);
    assert_eq!(mm.get_stats().allocations, 1);
}

#[test]
fn deallocation_releases_accounting() {
    let mut mm = MemoryManager::new(test_config());
    let addr = mm.allocate(0x40, rw()).unwrap();
    assert_eq!(mm.deallocate(addr, 0x40), Ok(()));
    let stats = mm.get_stats();
    assert_eq!(stats.used_memory, 0);
    assert_eq!(stats.free_memory, 0x100);
    assert_eq!(stats.deallocations, 1);
}

#[test]
fn releasing_more_than_used_fails() {
    let mut mm = MemoryManager::new(test_config());
    let _ = mm.allocate(0x10, rw()).unwrap();
    assert_eq!(mm.deallocate(0x1000, 0x20), Err(MemoryError::DeallocationFailed));
    assert_eq!(mm.get_stats().used_memory, 0x10);
}

#[test]
fn map_and_unmap_regions() {
    let mut mm = MemoryManager::new(test_config());
    let a = MemoryRegion { start: 0x2000, size: 0x10, permissions: rw(), backing: MemoryBacking::Mapped };
    let b = MemoryRegion { start: 0x3000, size: 0x10, permissions: rw(), backing: MemoryBacking::Shared };
    let a_again = MemoryRegion {
        start: 0x2000,
        size: 0x10,
        permissions: MemoryPermissions { read: true, write: false, execute: false },
        backing: MemoryBacking::Physical,
    };
    assert_eq!(mm.map_region(a), Ok(()));
    assert_eq!(mm.map_region(b), Ok(()));
    assert_eq!(mm.map_region(a_again), Ok(()));
    // Unmapping removes every region with that start and size, keeping the
    // others in order.
    assert_eq!(mm.unmap_region(0x2000, 0x10), Ok(()));
    assert_eq!(mm.regions, vec![b]);
    // Unmapping something never mapped is a quiet no-op.
    assert_eq!(mm.unmap_region(0x7777, 0x10), Ok(()));
    assert_eq!(mm.regions, vec![b]);
}

#[test]
fn region_beyond_address_space_is_rejected() {
    let mut mm = MemoryManager::new(test_config());
    let bad = MemoryRegion {
        start: usize::MAX,
        size: 2,
        permissions: rw(),
        backing: MemoryBacking::Mapped,
    };
    assert_eq!(mm.map_region(bad), Err(MemoryError::InvalidAddress));
    assert!(mm.regions.is_empty());
}

#[test]
fn device_registration_assigns_fresh_ids() {
    let mut dm = DeviceManager::new();
    let disk = DeviceDescriptor {
        device_id: 0,
        device_type: DeviceType::BlockDevice,
        name: "vda".to_string(),
        vendor: "virtio".to_string(),
        capabilities: vec![DeviceCapability::Read, DeviceCapability::Write],
    };
    let nic = DeviceDescriptor {
        device_id: 0,
        device_type: DeviceType::NetworkDevice,
        name: "eth0".to_string(),
        vendor: "virtio".to_string(),
        capabilities: vec![DeviceCapability::Interrupt],
    };
    let disk_id = dm.register_device(disk);
    let nic_id = dm.register_device(nic);
    assert_eq!(disk_id, 1);
    assert_eq!(nic_id, 2);
    let found = dm.get_device(nic_id).unwrap();
    assert_eq!(found.name, "eth0");
    assert_eq!(found.device_id, nic_id);
    assert!(dm.get_device(99).is_none());
    assert_eq!(dm.list_devices().len(), 2);
}

#[test]
fn io_subsystem_records_initialization() {
    let mut io = IoSubsystem::new();
    assert!(!io.initialized);
    assert_eq!(io.initialize(), Ok(()));
    assert!(io.initialized);
    assert_eq!(io.get_device_manager().devices.len(), 0);
}

#[test]
fn memory_layout_consistency() {
    let good = MemoryLayout {
        total_memory: 1024,
        usable_memory: 512,
        reserved_regions: vec![rustos_core::hypervisor::MemoryRegion {
            start: 512,
            size: 512,
            region_type: MemoryRegionType::Reserved,
        }],
    };
    assert!(good.is_consistent());
    let too_usable = MemoryLayout { total_memory: 512, usable_memory: 1024, reserved_regions: vec![] };
    assert!(!too_usable.is_consistent());
    let overflowing_region = MemoryLayout {
        total_memory: 1024,
        usable_memory: 512,
        reserved_regions: vec![rustos_core::hypervisor::MemoryRegion {
            start: 1000,
            size: 100,
            region_type: MemoryRegionType::Mmio,
        }],
    };
    assert!(!overflowing_region.is_consistent());
}

#[test]
fn hypervisor_error_messages_describe_each_variant() {
    assert_eq!(
        HypervisorError::InitializationFailed.message().as_str(),
        "Hypervisor initialization failed",
    );
    assert_eq!(
        HypervisorError::UnsupportedFeature.message().as_str(),
        "Unsupported hypervisor feature",
    );
    assert_eq!(HypervisorError::HardwareNotSupported.message().as_str(), "Hardware not supported");
    assert_eq!(
        HypervisorError::InvalidConfiguration.message().as_str(),
        "Invalid hypervisor configuration",
    );
}
