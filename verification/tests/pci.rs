//! Legacy configuration-space address words and identity decoding.

use earlyboot::pci::{
    PciAddress, PciConfigRegion, PciIdentity, PCI_CONFIG_ADDRESS_PORT, PCI_CONFIG_DATA_PORT,
    PCI_MAX_BUS_NUMBER, PCI_MAX_DEVICE_NUMBER,
};

#[test]
fn config_address_word_layout() {
    let region = PciConfigRegion::new();
    let addr = PciAddress::new(1, 2).unwrap();
    assert_eq!(region.config_address(addr, 0x10), 0x8000_0000 | 1 << 16 | 2 << 11 | 0x10);
}

#[test]
fn config_address_word_enable_bit_always_set() {
    let region = PciConfigRegion::new();
    let addr = PciAddress::new(0, 0).unwrap();
    assert_eq!(region.config_address(addr, 0), 0x8000_0000);
}

#[test]
fn address_rejects_out_of_ceiling_slots() {
    assert!(PciAddress::new(PCI_MAX_BUS_NUMBER, 0).is_none());
    assert!(PciAddress::new(0, PCI_MAX_DEVICE_NUMBER).is_none());
    let a = PciAddress::new(31, 31).unwrap();
    assert_eq!(a.bus(), 31);
    assert_eq!(a.device(), 31);
}

#[test]
fn function_exists_never_probes() {
    let region = PciConfigRegion::new();
    let addr = PciAddress::new(5, 7).unwrap();
    assert!(region.function_exists(addr));
}

#[test]
fn identity_splits_dword() {
    let id = PciIdentity::from_dword(0x8139_10EC);
    assert_eq!(id.vendor_id, 0x10EC);
    assert_eq!(id.device_id, 0x8139);
    assert!(id.is_recognized_nic());
    assert!(!id.is_empty());
}

#[test]
fn all_ones_identity_is_empty() {
    let id = PciIdentity::from_dword(0xFFFF_FFFF);
    assert!(id.is_empty());
    assert!(!id.is_recognized_nic());
}

#[test]
fn other_vendor_is_not_recognized() {
    let id = PciIdentity { vendor_id: 0x8086, device_id: 0x8139 };
    assert!(!id.is_recognized_nic());
    let id2 = PciIdentity { vendor_id: 0x10EC, device_id: 0x8140 };
    assert!(!id2.is_recognized_nic());
    let id3 = PciIdentity { vendor_id: 0x10EC, device_id: 0x8138 };
    assert!(id3.is_recognized_nic());
}

#[test]
fn legacy_port_numbers() {
    assert_eq!(PCI_CONFIG_ADDRESS_PORT, 0xCF8);
    assert_eq!(PCI_CONFIG_DATA_PORT, 0xCFC);
}
