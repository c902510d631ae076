//! I/O and device management bookkeeping: device descriptors, network
//! descriptions, and the registry that tracks them.
//!
//! Drivers themselves — asynchronous reads and writes, the network stack's
//! internals — are external collaborators; the core only records what is
//! known about each device and hands out identifiers.

use vstd::prelude::*;

verus! {

/// I/O operation types.
#[derive(Debug, Clone)]
pub enum IoOperation {
    Read { buffer: Vec<u8>, offset: u64, length: usize },
    Write { data: Vec<u8>, offset: u64 },
    Flush,
    Sync,
}

/// I/O errors.
#[derive(Debug, Clone, PartialEq, Eq)]
pub enum IoError {
    NotFound,
    PermissionDenied,
    InvalidInput,
    UnexpectedEof,
    Interrupted,
    TimedOut,
    DeviceError(String),
    SystemError(String),
}

/// I/O operation result.
#[derive(Debug)]
pub enum IoResult {
    Success { bytes_transferred: usize },
    Error(IoError),
}

/// Device types.
#[derive(Debug, Clone, Copy, PartialEq, Eq, Structural)]
pub enum DeviceType {
    BlockDevice,
    NetworkDevice,
    CharacterDevice,
    DisplayDevice,
    AudioDevice,
    InputDevice,
}

/// Device capabilities.
#[derive(Debug, Clone, Copy, PartialEq, Eq, Structural)]
pub enum DeviceCapability {
    Read,
    Write,
    Seek,
    Flush,
    DirectMemoryAccess,
    Interrupt,
    PowerManagement,
}

/// Device descriptor: what the core records about a registered device.
#[derive(Debug)]
pub struct DeviceDescriptor {
    pub device_id: u32,
    pub device_type: DeviceType,
    pub name: String,
    pub vendor: String,
    pub capabilities: Vec<DeviceCapability>,
}

/// Network protocols.
#[derive(Debug, Clone, Copy, PartialEq, Eq, Structural)]
pub enum NetworkProtocol {
    Ipv4,
    Ipv6,
    Tcp,
    Udp,
    Icmp,
    Arp,
}

/// Network interface descriptor.
#[derive(Debug, Clone)]
pub struct NetworkInterface {
    pub interface_id: u32,
    pub name: String,
    pub mac_address: [u8; 6],
    pub mtu: u16,
    pub is_up: bool,
    pub ip_addresses: Vec<String>,
}

/// Network packet.
#[derive(Debug, Clone)]
pub struct NetworkPacket {
    pub data: Vec<u8>,
    pub source: String,
    pub destination: String,
    pub protocol: NetworkProtocol,
    pub timestamp: u64,
}

/// Device manager: owns the table of registered device descriptors and hands
/// out device identifiers.
pub struct DeviceManager {
    pub devices: Vec<DeviceDescriptor>,
    pub next_device_id: u32,
}

impl DeviceManager {
    /// Registered identifiers are unique and below the counter.
    pub open spec fn wf(self) -> bool {
        &&& 1 <= self.next_device_id
        &&& (forall|i: int|
            0 <= i < self.devices@.len() ==> (#[trigger] self.devices@[i]).device_id
                < self.next_device_id)
        &&& (forall|i: int, j: int|
            #![trigger self.devices@[i], self.devices@[j]]
            0 <= i < self.devices@.len() && 0 <= j < self.devices@.len() && i != j
                ==> self.devices@[i].device_id != self.devices@[j].device_id)
    }

    /// Create a new device manager with no registered devices.
    pub fn new() -> (r: Self)
        ensures
            r.wf(),
            r.devices@.len() == 0,
            r.next_device_id == 1,
    {
        DeviceManager { devices: Vec::new(), next_device_id: 1 }
    }

    /// Register a new device: a fresh identifier is assigned, recorded in
    /// the stored descriptor, and returned.
    pub fn register_device(&mut self, descriptor: DeviceDescriptor) -> (r: u32)
        requires
            old(self).wf(),
            old(self).next_device_id < u32::MAX,
        ensures
            final(self).wf(),
            r == old(self).next_device_id,
            final(self).next_device_id == old(self).next_device_id + 1,
            final(self).devices@.len() == old(self).devices@.len() + 1,
            forall|i: int|
                0 <= i < old(self).devices@.len() ==> #[trigger] final(self).devices@[i] == old(
                    self,
                ).devices@[i],
            final(self).devices@.last().device_id == r,
            final(self).devices@.last().device_type == descriptor.device_type,
            final(self).devices@.last().name == descriptor.name,
            final(self).devices@.last().vendor == descriptor.vendor,
            final(self).devices@.last().capabilities == descriptor.capabilities,
    {
        let device_id = self.next_device_id;
        self.next_device_id = self.next_device_id + 1;
        self.devices.push(DeviceDescriptor { device_id, ..descriptor });
        device_id
    }

    /// Get the descriptor registered under `device_id`, if any.
    pub fn get_device(&self, device_id: u32) -> (r: Option<&DeviceDescriptor>)
        requires
            self.wf(),
        ensures
            match r {
                Some(d) => exists|i: int|
                    0 <= i < self.devices@.len() && *d == self.devices@[i] && d.device_id
                        == device_id,
                None => forall|i: int|
                    0 <= i < self.devices@.len() ==> (#[trigger] self.devices@[i]).device_id
                        != device_id,
            },
    {
        let mut i: usize = 0;
        while i < self.devices.len()
            invariant
                i <= self.devices.len(),
                forall|j: int| 0 <= j < i ==> (#[trigger] self.devices@[j]).device_id != device_id,
            decreases self.devices.len() - i,
        {
            if self.devices[i].device_id == device_id {
                return Some(&self.devices[i]);
            }
            i += 1;
        }
        None
    }

    /// List all registered devices.
    pub fn list_devices(&self) -> (r: &Vec<DeviceDescriptor>)
        ensures
            r == &self.devices,
    {
        &self.devices
    }
}

/// I/O subsystem manager: the device registry together with a record of
/// whether the subsystem's external stacks have been brought up.
pub struct IoSubsystem {
    pub device_manager: DeviceManager,
    pub initialized: bool,
}

impl IoSubsystem {
    /// Create a new I/O subsystem, not yet initialized.
    pub fn new() -> (r: Self)
        ensures
            r.device_manager.wf(),
            r.device_manager.devices@.len() == 0,
            !r.initialized,
    {
        IoSubsystem { device_manager: DeviceManager::new(), initialized: false }
    }

    /// Record that device probing and the external driver, network and
    /// storage stacks have been brought up. The bring-up itself is the
    /// collaborators' work; the core only tracks that it happened.
    pub fn initialize(&mut self) -> (r: Result<(), IoError>)
        ensures
            r == Ok::<(), IoError>(()),
            final(self).initialized,
            final(self).device_manager == old(self).device_manager,
    {
        self.initialized = true;
        Ok(())
    }

    /// Get the device manager.
    pub fn get_device_manager(&self) -> (r: &DeviceManager)
        ensures
            r == &self.device_manager,
    {
        &self.device_manager
    }
}

} // verus!
