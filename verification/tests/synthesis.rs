//! Device-tree synthesis: planned operations and the finished blob.

use earlyboot::devicetree::{DeviceTree, MemoryRegion};
use earlyboot::fdt::{emit, FdtError, FdtOp};
use earlyboot::pci::{BarDescriptor, PciIdentity, PciSlot};

fn be32v(v: u32) -> Vec<u8> {
    v.to_be_bytes().to_vec()
}

fn be64v(v: u64) -> Vec<u8> {
    v.to_be_bytes().to_vec()
}

fn op_eq(op: &FdtOp, kind: u8, name: &[u8], value: &[u8]) -> bool {
    match op {
        FdtOp::BeginNode { name: n } => kind == 1 && n.as_slice() == name && value.is_empty(),
        FdtOp::EndNode => kind == 2 && name.is_empty() && value.is_empty(),
        FdtOp::Property { name: n, value: v } => {
            kind == 3 && n.as_slice() == name && v.as_slice() == value
        },
    }
}

fn find_property<'a>(ops: &'a [FdtOp], wanted: &[u8]) -> Option<&'a [u8]> {
    for op in ops {
        if let FdtOp::Property { name, value } = op {
            if name.as_slice() == wanted {
                return Some(value.as_slice());
            }
        }
    }
    None
}

fn node_names(ops: &[FdtOp]) -> Vec<Vec<u8>> {
    let mut names = Vec::new();
    for op in ops {
        if let FdtOp::BeginNode { name } = op {
            names.push(name.clone());
        }
    }
    names
}

fn rtl8139_slot(bus: u8, device: u8, bars: Vec<BarDescriptor>) -> PciSlot {
    PciSlot {
        bus,
        device,
        identity: PciIdentity { vendor_id: 0x10EC, device_id: 0x8139 },
        interrupt_line: 11,
        bars,
    }
}

fn empty_slot(bus: u8, device: u8) -> PciSlot {
    PciSlot {
        bus,
        device,
        identity: PciIdentity { vendor_id: 0xFFFF, device_id: 0xFFFF },
        interrupt_line: 0,
        bars: Vec::new(),
    }
}

#[test]
fn one_available_region_yields_exact_plan() {
    let regions = vec![MemoryRegion { base: 0x100000, length: 0x1000000, available: true }];
    let slots: Vec<PciSlot> = Vec::new();
    let ops = DeviceTree::plan(&regions, None, &slots);

    let mut reg = be64v(0x100000);
    reg.extend_from_slice(&be64v(0x1000000));
    let expected: Vec<(u8, Vec<u8>, Vec<u8>)> = vec![
        (1, b"".to_vec(), vec![]),
        (3, b"compatible".to_vec(), b"linux,dummy-virt\0".to_vec()),
        (3, b"#address-cells".to_vec(), be32v(2)),
        (3, b"#size-cells".to_vec(), be32v(2)),
        (3, b"#interrupt-cells".to_vec(), be32v(1)),
        (1, b"memory@100000".to_vec(), vec![]),
        (3, b"device_type".to_vec(), b"memory\0".to_vec()),
        (3, b"reg".to_vec(), reg),
        (2, vec![], vec![]),
        (1, b"pci".to_vec(), vec![]),
        (3, b"device_type".to_vec(), b"pci\0".to_vec()),
        (3, b"#address-cells".to_vec(), be32v(1)),
        (3, b"#size-cells".to_vec(), be32v(1)),
        (2, vec![], vec![]),
        (2, vec![], vec![]),
    ];
    assert_eq!(ops.len(), expected.len());
    for (op, (kind, name, value)) in ops.iter().zip(expected.iter()) {
        assert!(op_eq(op, *kind, name, value));
    }
    for name in node_names(&ops) {
        assert!(!name.starts_with(b"virtio_net@"));
    }
}

#[test]
fn unavailable_region_is_omitted() {
    let regions = vec![MemoryRegion { base: 0x9F000, length: 0x1000, available: false }];
    let slots: Vec<PciSlot> = Vec::new();
    let ops = DeviceTree::plan(&regions, None, &slots);
    for name in node_names(&ops) {
        assert!(!name.starts_with(b"memory@"));
    }
}

#[test]
fn chosen_node_carries_bootargs() {
    let regions: Vec<MemoryRegion> = Vec::new();
    let slots: Vec<PciSlot> = Vec::new();
    let cmdline = b"console=ttyS0".to_vec();
    let ops = DeviceTree::plan(&regions, Some(&cmdline), &slots);
    assert!(node_names(&ops).contains(&b"chosen".to_vec()));
    assert_eq!(find_property(&ops, b"bootargs").unwrap(), b"console=ttyS0\0");
}

#[test]
fn recognized_nic_assigned_addresses_memory32() {
    let regions: Vec<MemoryRegion> = Vec::new();
    let slots = vec![rtl8139_slot(
        0,
        2,
        vec![BarDescriptor::Memory32 { address: 0xF0000000, size: 0x100, prefetchable: false }],
    )];
    let ops = DeviceTree::plan(&regions, None, &slots);
    let addr: u32 = 2 << 11;
    assert!(node_names(&ops).contains(&b"virtio_net@1000".to_vec()));
    let mut expected = be32v(0x82000010 | addr);
    expected.extend_from_slice(&be32v(0));
    expected.extend_from_slice(&be32v(0xF0000000));
    expected.extend_from_slice(&be32v(0));
    expected.extend_from_slice(&be32v(0x100));
    let assigned = find_property(&ops, b"assigned-addresses").unwrap();
    assert!(assigned.starts_with(&expected));
    assert_eq!(assigned.len(), 20);
    assert_eq!(find_property(&ops, b"vendor-id").unwrap(), be32v(0x10EC).as_slice());
    assert_eq!(find_property(&ops, b"device-id").unwrap(), be32v(0x8139).as_slice());
    assert_eq!(find_property(&ops, b"interrupts").unwrap(), be32v(11).as_slice());
    assert_eq!(find_property(&ops, b"pci-address").unwrap(), be32v(addr).as_slice());
    let mut reg = Vec::new();
    for cell in [addr, 0, 0, 0, 0] {
        reg.extend_from_slice(&be32v(cell));
    }
    let pci_reg = ops
        .iter()
        .filter_map(|op| match op {
            FdtOp::Property { name, value } if name.as_slice() == b"reg" => Some(value.clone()),
            _ => None,
        })
        .next_back()
        .unwrap();
    assert_eq!(pci_reg, reg);
}

#[test]
fn io_and_memory64_bars_encode_windows() {
    let regions: Vec<MemoryRegion> = Vec::new();
    let slots = vec![rtl8139_slot(
        1,
        3,
        vec![
            BarDescriptor::Io { port: 0xC000 },
            BarDescriptor::Memory64 {
                address: 0x1_2345_6789,
                size: 0x2_0000_0000,
                prefetchable: true,
            },
        ],
    )];
    let ops = DeviceTree::plan(&regions, None, &slots);
    let addr: u32 = 1 << 16 | 3 << 11;
    let mut expected = Vec::new();
    for cell in [0x81000014 | addr, 0, 0xC000, 0, 0x100] {
        expected.extend_from_slice(&be32v(cell));
    }
    for cell in [0x82000010 | addr, 0x1, 0x2345_6789, 0x2, 0] {
        expected.extend_from_slice(&be32v(cell));
    }
    assert_eq!(find_property(&ops, b"assigned-addresses").unwrap(), expected.as_slice());
}

#[test]
fn empty_slot_appears_nowhere() {
    let regions: Vec<MemoryRegion> = Vec::new();
    let with_empty = vec![
        empty_slot(0, 1),
        rtl8139_slot(0, 2, Vec::new()),
        empty_slot(0, 3),
    ];
    let without = vec![rtl8139_slot(0, 2, Vec::new())];
    let a = DeviceTree::plan(&regions, None, &with_empty);
    let b = DeviceTree::plan(&regions, None, &without);
    assert_eq!(a.len(), b.len());
    for (x, y) in a.iter().zip(b.iter()) {
        let same = match (x, y) {
            (FdtOp::BeginNode { name: n1 }, FdtOp::BeginNode { name: n2 }) => n1 == n2,
            (FdtOp::EndNode, FdtOp::EndNode) => true,
            (
                FdtOp::Property { name: n1, value: v1 },
                FdtOp::Property { name: n2, value: v2 },
            ) => n1 == n2 && v1 == v2,
            _ => false,
        };
        assert!(same);
    }
    let names = node_names(&a);
    assert_eq!(names.iter().filter(|n| n.starts_with(b"virtio_net@")).count(), 1);
}

#[test]
fn create_produces_wellformed_blob() {
    let regions = vec![MemoryRegion { base: 0x100000, length: 0x1000000, available: true }];
    let slots = vec![rtl8139_slot(
        0,
        2,
        vec![BarDescriptor::Memory32 { address: 0xF0000000, size: 0x100, prefetchable: false }],
    )];
    let cmdline = b"quiet".to_vec();
    let blob = DeviceTree::create(&regions, Some(&cmdline), &slots).unwrap();
    assert_eq!(&blob[0..4], &[0xD0, 0x0D, 0xFE, 0xED]);
    assert!(blob.len() > 40);
}

#[test]
fn blob_grows_with_the_plan() {
    let regions = vec![MemoryRegion { base: 0x100000, length: 0x1000000, available: true }];
    let slots: Vec<PciSlot> = Vec::new();
    let cmdline = b"quiet".to_vec();
    let small = DeviceTree::create(&regions, None, &slots).unwrap();
    let large = DeviceTree::create(&regions, Some(&cmdline), &slots).unwrap();
    assert!(large.len() > small.len());
}

#[test]
fn emit_rejects_unbalanced_end() {
    let ops = vec![FdtOp::EndNode];
    assert_eq!(emit(&ops), Err(FdtError::Unbalanced));
}

#[test]
fn emit_propagates_encoder_refusal() {
    let ops = vec![FdtOp::BeginNode { name: b"bad\0name".to_vec() }];
    assert_eq!(emit(&ops), Err(FdtError::Encoder));
    let ops2 = vec![FdtOp::Property { name: b"p".to_vec(), value: vec![] }];
    assert_eq!(emit(&ops2), Err(FdtError::Encoder));
}

#[test]
fn hex_unit_addresses_in_names() {
    let regions = vec![
        MemoryRegion { base: 0, length: 0x1000, available: true },
        MemoryRegion { base: 0xABCDEF, length: 0x1000, available: true },
    ];
    let slots: Vec<PciSlot> = Vec::new();
    let ops = DeviceTree::plan(&regions, None, &slots);
    let names = node_names(&ops);
    assert!(names.contains(&b"memory@0".to_vec()));
    assert!(names.contains(&b"memory@abcdef".to_vec()));
}
