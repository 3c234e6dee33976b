//! Early-boot hardware discovery and console layer of a small kernel.
//!
//! The crate drives a boot-time serial console over two UART families,
//! discovers the console's physical address from a firmware-supplied
//! device-tree property, reads PCI configuration space through the legacy
//! two-port mechanism, and synthesizes a flattened-device-tree blob that
//! describes the machine's memory and its recognized network adapter.

pub mod console;
pub mod devicetree;
pub mod drivers;
pub mod fdt;
pub mod hex;
pub mod pci;
pub mod qemu_serial;
pub mod xlnx_serial;
