//! Legacy PCI configuration-space access and the data read from it.
//!
//! The address-word composition and the decoding of what comes back are
//! verified here; the two port accesses themselves (address port 0xCF8, data
//! port 0xCFC) are raw port I/O and stay with the surrounding system, which
//! composes each word through this module.

use vstd::prelude::*;

verus! {

/// Enumeration ceiling: buses 0 up to (not including) this bound are
/// scanned. A deliberate scope limit: no bridges are followed.
pub const PCI_MAX_BUS_NUMBER: u8 = 32;

/// Enumeration ceiling for device slots per bus.
pub const PCI_MAX_DEVICE_NUMBER: u8 = 32;

/// The 32-bit address port of legacy configuration mechanism #1.
pub const PCI_CONFIG_ADDRESS_PORT: u16 = 0xCF8;

/// Enable bit of the configuration address word.
pub const PCI_CONFIG_ADDRESS_ENABLE: u32 = 1u32 << 31;

/// The 32-bit data port of legacy configuration mechanism #1.
pub const PCI_CONFIG_DATA_PORT: u16 = 0xCFC;

/// Highest base-address-register index of an endpoint header, exclusive.
pub const PCI_MAX_BARS: u8 = 6;

/// A configuration-space location: bus and device slot, with the function
/// fixed at zero — function scanning is intentionally omitted.
#[derive(Clone, Copy)]
pub struct PciAddress {
    bus: u8,
    device: u8,
}

impl PciAddress {
    #[verifier::type_invariant]
    spec fn type_inv(self) -> bool {
        self.bus < PCI_MAX_BUS_NUMBER && self.device < PCI_MAX_DEVICE_NUMBER
    }

    pub closed spec fn bus_spec(self) -> u8 {
        self.bus
    }

    pub closed spec fn device_spec(self) -> u8 {
        self.device
    }

    /// Construct an address within the enumeration ceiling; values at or
    /// above the ceiling are rejected.
    pub fn new(bus: u8, device: u8) -> (r: Option<PciAddress>)
        ensures
            bus < PCI_MAX_BUS_NUMBER && device < PCI_MAX_DEVICE_NUMBER ==> (
            r matches Some(a) && a.bus_spec() == bus && a.device_spec() == device),
            !(bus < PCI_MAX_BUS_NUMBER && device < PCI_MAX_DEVICE_NUMBER) ==> r is None,
    {
        if bus < PCI_MAX_BUS_NUMBER && device < PCI_MAX_DEVICE_NUMBER {
            Some(PciAddress { bus, device })
        } else {
            None
        }
    }

    pub fn bus(&self) -> (r: u8)
        ensures
            r == self.bus_spec(),
            r < PCI_MAX_BUS_NUMBER,
    {
        proof {
            use_type_invariant(self);
        }
        self.bus
    }

    pub fn device(&self) -> (r: u8)
        ensures
            r == self.device_spec(),
            r < PCI_MAX_DEVICE_NUMBER,
    {
        proof {
            use_type_invariant(self);
        }
        self.device
    }
}

/// The configuration address word of legacy mechanism #1: enable bit, bus in
/// bits 16..24, device in bits 11..16, register offset below.
pub open spec fn spec_config_address(bus: u8, device: u8, register: u16) -> u32 {
    PCI_CONFIG_ADDRESS_ENABLE | (bus as u32) << 16 | (device as u32) << 11 | register as u32
}

/// The address cell identifying a slot inside the synthesized descriptor:
/// bus in bits 16..24, device in bits 11..16.
pub open spec fn spec_slot_addr(bus: u8, device: u8) -> u32 {
    (bus as u32) << 16 | (device as u32) << 11
}

/// Raw legacy port-I/O mechanism to reach PCI configuration registers. The
/// accessor never probes: emptiness of a slot is decided purely by the
/// identity read returning all-ones.
#[derive(Clone, Copy)]
pub struct PciConfigRegion;

impl PciConfigRegion {
    pub fn new() -> PciConfigRegion {
        PciConfigRegion {  }
    }

    /// This accessor does not probe: every function is reported present.
    pub fn function_exists(&self, address: PciAddress) -> (r: bool)
        ensures
            r,
    {
        true
    }

    /// The word written to the address port to select `register` of the
    /// given slot, function 0.
    pub fn config_address(&self, address: PciAddress, register: u16) -> (r: u32)
        requires
            register < 256,
        ensures
            r == spec_config_address(address.bus_spec(), address.device_spec(), register),
    {
        PCI_CONFIG_ADDRESS_ENABLE | (address.bus() as u32) << 16 | (address.device() as u32)
            << 11 | register as u32
    }
}

/// Vendor and device identity of a slot, read from configuration offset 0.
#[derive(Clone, Copy, PartialEq, Eq, Structural)]
pub struct PciIdentity {
    pub vendor_id: u16,
    pub device_id: u16,
}

/// A slot is empty exactly when both identity fields read as all-ones.
pub open spec fn spec_identity_empty(id: PciIdentity) -> bool {
    id.vendor_id == 0xFFFF && id.device_id == 0xFFFF
}

/// The network adapter family the kernel cares about: Realtek RTL8139,
/// vendor 0x10EC with device id 0x8138 or 0x8139.
pub open spec fn spec_recognized_nic(id: PciIdentity) -> bool {
    id.vendor_id == 0x10EC && (id.device_id == 0x8138 || id.device_id == 0x8139)
}

impl PciIdentity {
    /// Split the identity dword read at configuration offset 0: vendor in
    /// the low half, device in the high half.
    pub fn from_dword(v: u32) -> (r: PciIdentity)
        ensures
            r.vendor_id == v & 0xFFFF,
            r.device_id == v >> 16,
    {
        proof {
            assert(v & 0xFFFF <= 0xFFFF && v >> 16 <= 0xFFFF) by (bit_vector);
        }
        PciIdentity { vendor_id: (v & 0xFFFF) as u16, device_id: (v >> 16) as u16 }
    }

    pub fn is_empty(&self) -> (r: bool)
        ensures
            r == spec_identity_empty(*self),
    {
        self.vendor_id == 0xFFFF && self.device_id == 0xFFFF
    }

    pub fn is_recognized_nic(&self) -> (r: bool)
        ensures
            r == spec_recognized_nic(*self),
    {
        self.vendor_id == 0x10EC && (self.device_id == 0x8138 || self.device_id == 0x8139)
    }
}

/// A base address register decoded from configuration space, per BAR index.
#[derive(Clone, Copy, PartialEq, Eq, Structural)]
pub enum BarDescriptor {
    Io { port: u32 },
    Memory32 { address: u32, size: u32, prefetchable: bool },
    Memory64 { address: u64, size: u64, prefetchable: bool },
}

/// Everything the device-tree synthesizer needs to know of one scanned
/// slot: its location, its identity read, its interrupt line, and its
/// decoded base address registers in index order.
#[derive(Clone)]
pub struct PciSlot {
    pub bus: u8,
    pub device: u8,
    pub identity: PciIdentity,
    pub interrupt_line: u8,
    pub bars: Vec<BarDescriptor>,
}

} // verus!
