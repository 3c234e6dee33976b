//! Synthesis of the flattened-device-tree descriptor on the x86_64 path.
//!
//! Built once per boot from three plain inputs — the boot memory map, the
//! boot command line, and the scanned PCI slots — the descriptor holds the
//! root node with its fixed properties, a `chosen` node when a command line
//! exists, one `memory@<base>` node per available region, and a `pci` node
//! with one `virtio_net@<addr>` child per recognized network adapter. The
//! plan of build operations is computed and verified here; the encoder runs
//! behind the trusted boundary of `fdt`.

use vstd::prelude::*;
use vstd::slice::slice_to_vec;
use vstd::string::*;

use crate::fdt::{
    emit, encoder_accepts, fdt_depth, fdt_ops_accepted, fdt_ops_size, fdt_walk_ended,
    is_node_name_char, op_begin, op_end, op_prop, ops_model, valid_node_label,
    valid_node_name, valid_property_name, FdtError, FdtOp,
};
use crate::fdt::{lemma_fdt_accepted_concat, lemma_fdt_depth_concat};
use crate::fdt::fdt_blob;
use crate::hex::{hex_name_u64, spec_hex_digits, spec_hex_name};
use crate::pci::{spec_identity_empty, spec_recognized_nic, spec_slot_addr, BarDescriptor, PciSlot};

verus! {

/// One entry of the boot memory map; only `available` regions are surfaced
/// in the descriptor.
#[derive(Clone, Copy, PartialEq, Eq, Structural)]
pub struct MemoryRegion {
    pub base: u64,
    pub length: u64,
    pub available: bool,
}

/// Byte sequence of a string literal's text.
pub open spec fn sb(s: &str) -> Seq<u8> {
    s.spec_bytes()
}

/// Big-endian bytes of a 32-bit property cell.
pub open spec fn be32(v: u32) -> Seq<u8> {
    seq![
        ((v >> 24) & 0xFF) as u8,
        ((v >> 16) & 0xFF) as u8,
        ((v >> 8) & 0xFF) as u8,
        (v & 0xFF) as u8,
    ]
}

/// Big-endian bytes of a 64-bit property value.
pub open spec fn be64(v: u64) -> Seq<u8> {
    seq![
        ((v >> 56) & 0xFF) as u8,
        ((v >> 48) & 0xFF) as u8,
        ((v >> 40) & 0xFF) as u8,
        ((v >> 32) & 0xFF) as u8,
        ((v >> 24) & 0xFF) as u8,
        ((v >> 16) & 0xFF) as u8,
        ((v >> 8) & 0xFF) as u8,
        (v & 0xFF) as u8,
    ]
}

/// Value bytes of a string property: the text followed by a NUL terminator.
pub open spec fn string_payload(s: Seq<u8>) -> Seq<u8> {
    s.push(0)
}

/// Value bytes of a property holding an array of 32-bit cells.
pub open spec fn u32_array_payload(cells: Seq<u32>) -> Seq<u8>
    decreases cells.len(),
{
    if cells.len() == 0 {
        Seq::empty()
    } else {
        u32_array_payload(cells.drop_last()) + be32(cells.last())
    }
}

/// The root node's opening operations: its name and fixed properties.
pub open spec fn spec_root_ops() -> Seq<(int, Seq<u8>, Seq<u8>)> {
    seq![
        op_begin(sb("")),
        op_prop(sb("compatible"), string_payload(sb("linux,dummy-virt"))),
        op_prop(sb("#address-cells"), be32(2)),
        op_prop(sb("#size-cells"), be32(2)),
        op_prop(sb("#interrupt-cells"), be32(1)),
    ]
}

/// The `chosen` node: present exactly when a boot command line exists, with
/// the command line as its `bootargs` string property.
pub open spec fn spec_chosen_ops(cmdline: Option<Seq<u8>>) -> Seq<(int, Seq<u8>, Seq<u8>)> {
    match cmdline {
        None => Seq::empty(),
        Some(c) => seq![
            op_begin(sb("chosen")),
            op_prop(sb("bootargs"), string_payload(c)),
            op_end(),
        ],
    }
}

/// One `memory@<base>` node for an available region; nothing for others.
pub open spec fn spec_memory_node_ops(r: MemoryRegion) -> Seq<(int, Seq<u8>, Seq<u8>)> {
    if r.available {
        seq![
            op_begin(sb("memory@") + spec_hex_name(r.base as int)),
            op_prop(sb("device_type"), string_payload(sb("memory"))),
            op_prop(sb("reg"), be64(r.base) + be64(r.length)),
            op_end(),
        ]
    } else {
        Seq::empty()
    }
}

pub open spec fn spec_memory_ops(regions: Seq<MemoryRegion>) -> Seq<(int, Seq<u8>, Seq<u8>)>
    decreases regions.len(),
{
    if regions.len() == 0 {
        Seq::empty()
    } else {
        spec_memory_ops(regions.drop_last()) + spec_memory_node_ops(regions.last())
    }
}

/// The `assigned-addresses` cells contributed by one base address register:
/// an I/O window, a 32-bit memory window, or a 64-bit memory window split
/// into high and low halves.
pub open spec fn spec_bar_cells(addr: u32, b: BarDescriptor) -> Seq<u32> {
    match b {
        BarDescriptor::Io { port } => seq![0x81000014u32 | addr, 0, port, 0, 0x100],
        BarDescriptor::Memory32 { address, size, prefetchable } => seq![
            0x82000010u32 | addr,
            0,
            address,
            0,
            size,
        ],
        BarDescriptor::Memory64 { address, size, prefetchable } => seq![
            0x82000010u32 | addr,
            ((address >> 32) & 0xFFFF_FFFF) as u32,
            (address & 0xFFFF_FFFF) as u32,
            ((size >> 32) & 0xFFFF_FFFF) as u32,
            (size & 0xFFFF_FFFF) as u32,
        ],
    }
}

pub open spec fn spec_assigned_cells(addr: u32, bars: Seq<BarDescriptor>) -> Seq<u32>
    decreases bars.len(),
{
    if bars.len() == 0 {
        Seq::empty()
    } else {
        spec_assigned_cells(addr, bars.drop_last()) + spec_bar_cells(addr, bars.last())
    }
}

/// The `reg` property of a recognized adapter: the standard five-cell
/// configuration-space entry, the slot's address cell followed by zeros.
pub open spec fn spec_nic_reg_cells(addr: u32) -> Seq<u32> {
    seq![addr, 0, 0, 0, 0]
}

/// The `virtio_net@<addr>` node emitted for a slot whose identity matches
/// the recognized network adapter family; nothing for any other identity,
/// an empty slot included.
pub open spec fn spec_nic_node_ops(s: PciSlot) -> Seq<(int, Seq<u8>, Seq<u8>)> {
    let addr = spec_slot_addr(s.bus, s.device);
    if spec_recognized_nic(s.identity) {
        seq![
            op_begin(sb("virtio_net@") + spec_hex_name(addr as int)),
            op_prop(sb("compatible"), string_payload(sb("realtek,rtl8139"))),
            op_prop(sb("vendor-id"), be32(s.identity.vendor_id as u32)),
            op_prop(sb("device-id"), be32(s.identity.device_id as u32)),
            op_prop(sb("interrupts"), be32(s.interrupt_line as u32)),
            op_prop(sb("pci-address"), be32(addr)),
            op_prop(sb("reg"), u32_array_payload(spec_nic_reg_cells(addr))),
            op_prop(
                sb("assigned-addresses"),
                u32_array_payload(spec_assigned_cells(addr, s.bars@)),
            ),
            op_end(),
        ]
    } else {
        Seq::empty()
    }
}

pub open spec fn spec_slots_ops(slots: Seq<PciSlot>) -> Seq<(int, Seq<u8>, Seq<u8>)>
    decreases slots.len(),
{
    if slots.len() == 0 {
        Seq::empty()
    } else {
        spec_slots_ops(slots.drop_last()) + spec_nic_node_ops(slots.last())
    }
}

/// The `pci` node: its fixed properties, then one child per recognized
/// adapter among the scanned slots, in scan order.
pub open spec fn spec_pci_ops(slots: Seq<PciSlot>) -> Seq<(int, Seq<u8>, Seq<u8>)> {
    seq![
        op_begin(sb("pci")),
        op_prop(sb("device_type"), string_payload(sb("pci"))),
        op_prop(sb("#address-cells"), be32(1)),
        op_prop(sb("#size-cells"), be32(1)),
    ] + spec_slots_ops(slots) + seq![op_end()]
}

/// The complete build-operation sequence of the descriptor.
pub open spec fn spec_device_tree_ops(
    regions: Seq<MemoryRegion>,
    cmdline: Option<Seq<u8>>,
    slots: Seq<PciSlot>,
) -> Seq<(int, Seq<u8>, Seq<u8>)> {
    spec_root_ops() + spec_chosen_ops(cmdline) + spec_memory_ops(regions) + spec_pci_ops(slots)
        + seq![op_end()]
}

pub open spec fn opt_vec_view(cmdline: Option<&Vec<u8>>) -> Option<Seq<u8>> {
    match cmdline {
        Some(c) => Some(c@),
        None => None,
    }
}

/// Bytes of a fixed name.
fn name_bytes(s: &str) -> (r: Vec<u8>)
    ensures
        r@ == sb(s),
{
    slice_to_vec(s.as_bytes())
}

/// Name with a unit address: the prefix text followed by the lower-case
/// base-16 digits of `v`.
fn unit_name_bytes(prefix: &str, v: u64) -> (r: Vec<u8>)
    ensures
        r@ == sb(prefix) + spec_hex_name(v as int),
{
    let mut r = slice_to_vec(prefix.as_bytes());
    let mut digits = hex_name_u64(v);
    r.append(&mut digits);
    r
}

fn be32_vec(v: u32) -> (r: Vec<u8>)
    ensures
        r@ == be32(v),
{
    proof {
        assert((v >> 24) & 0xFF <= 0xFF && (v >> 16) & 0xFF <= 0xFF && (v >> 8) & 0xFF <= 0xFF
            && v & 0xFF <= 0xFF) by (bit_vector);
    }
    let mut r: Vec<u8> = Vec::new();
    r.push(((v >> 24) & 0xFF) as u8);
    r.push(((v >> 16) & 0xFF) as u8);
    r.push(((v >> 8) & 0xFF) as u8);
    r.push((v & 0xFF) as u8);
    proof {
        assert(r@ =~= be32(v));
    }
    r
}

fn be64_vec(v: u64) -> (r: Vec<u8>)
    ensures
        r@ == be64(v),
{
    proof {
        assert((v >> 56) & 0xFF <= 0xFF && (v >> 48) & 0xFF <= 0xFF && (v >> 40) & 0xFF <= 0xFF
            && (v >> 32) & 0xFF <= 0xFF && (v >> 24) & 0xFF <= 0xFF && (v >> 16) & 0xFF <= 0xFF
            && (v >> 8) & 0xFF <= 0xFF && v & 0xFF <= 0xFF) by (bit_vector);
    }
    let mut r: Vec<u8> = Vec::new();
    r.push(((v >> 56) & 0xFF) as u8);
    r.push(((v >> 48) & 0xFF) as u8);
    r.push(((v >> 40) & 0xFF) as u8);
    r.push(((v >> 32) & 0xFF) as u8);
    r.push(((v >> 24) & 0xFF) as u8);
    r.push(((v >> 16) & 0xFF) as u8);
    r.push(((v >> 8) & 0xFF) as u8);
    r.push((v & 0xFF) as u8);
    proof {
        assert(r@ =~= be64(v));
    }
    r
}

fn string_payload_vec(s: &[u8]) -> (r: Vec<u8>)
    ensures
        r@ == string_payload(s@),
{
    let mut r = slice_to_vec(s);
    r.push(0);
    r
}

fn u32_array_vec(cells: &Vec<u32>) -> (r: Vec<u8>)
    ensures
        r@ == u32_array_payload(cells@),
{
    let mut r: Vec<u8> = Vec::new();
    let mut i: usize = 0;
    while i < cells.len()
        invariant
            i <= cells@.len(),
            r@ == u32_array_payload(cells@.take(i as int)),
        decreases cells@.len() - i,
    {
        let mut word = be32_vec(cells[i]);
        r.append(&mut word);
        i = i + 1;
        proof {
            assert(cells@.take(i as int).drop_last() =~= cells@.take(i as int - 1));
            assert(cells@.take(i as int).last() == cells@[i as int - 1]);
        }
    }
    proof {
        assert(cells@.take(cells@.len() as int) =~= cells@);
    }
    r
}

fn push_op_begin(out: &mut Vec<FdtOp>, name: Vec<u8>)
    ensures
        ops_model(final(out)@) == ops_model(old(out)@).push(op_begin(name@)),
{
    out.push(FdtOp::BeginNode { name });
    proof {
        assert(ops_model(out@) =~= ops_model(out@.drop_last()).push(op_begin(name@)));
    }
}

fn push_op_prop(out: &mut Vec<FdtOp>, name: Vec<u8>, value: Vec<u8>)
    ensures
        ops_model(final(out)@) == ops_model(old(out)@).push(op_prop(name@, value@)),
{
    out.push(FdtOp::Property { name, value });
    proof {
        assert(ops_model(out@) =~= ops_model(out@.drop_last()).push(op_prop(name@, value@)));
    }
}

fn push_op_end(out: &mut Vec<FdtOp>)
    ensures
        ops_model(final(out)@) == ops_model(old(out)@).push(op_end()),
{
    out.push(FdtOp::EndNode);
    proof {
        assert(ops_model(out@) =~= ops_model(out@.drop_last()).push(op_end()));
    }
}

/// Append the operations of one memory-map entry.
fn push_memory_node(out: &mut Vec<FdtOp>, r: &MemoryRegion)
    ensures
        ops_model(final(out)@) == ops_model(old(out)@) + spec_memory_node_ops(*r),
{
    if r.available {
        push_op_begin(out, unit_name_bytes("memory@", r.base));
        push_op_prop(out, name_bytes("device_type"), string_payload_vec("memory".as_bytes()));
        let mut reg = be64_vec(r.base);
        let mut len_bytes = be64_vec(r.length);
        reg.append(&mut len_bytes);
        push_op_prop(out, name_bytes("reg"), reg);
        push_op_end(out);
        proof {
            assert(ops_model(out@) =~= ops_model(old(out)@) + spec_memory_node_ops(*r));
        }
    } else {
        proof {
            assert(ops_model(out@) =~= ops_model(old(out)@) + spec_memory_node_ops(*r));
        }
    }
}

/// Append the operations of one scanned slot: a `virtio_net@<addr>` node
/// when its identity matches the recognized adapter family, nothing
/// otherwise.
fn push_nic_node(out: &mut Vec<FdtOp>, s: &PciSlot)
    ensures
        ops_model(final(out)@) == ops_model(old(out)@) + spec_nic_node_ops(*s),
{
    if !s.identity.is_recognized_nic() {
        proof {
            assert(ops_model(out@) =~= ops_model(old(out)@) + spec_nic_node_ops(*s));
        }
        return ;
    }
    let addr: u32 = (s.bus as u32) << 16 | (s.device as u32) << 11;
    push_op_begin(out, unit_name_bytes("virtio_net@", addr as u64));
    push_op_prop(out, name_bytes("compatible"), string_payload_vec("realtek,rtl8139".as_bytes()));
    push_op_prop(out, name_bytes("vendor-id"), be32_vec(s.identity.vendor_id as u32));
    push_op_prop(out, name_bytes("device-id"), be32_vec(s.identity.device_id as u32));
    push_op_prop(out, name_bytes("interrupts"), be32_vec(s.interrupt_line as u32));
    push_op_prop(out, name_bytes("pci-address"), be32_vec(addr));
    let mut reg_cells: Vec<u32> = Vec::new();
    reg_cells.push(addr);
    reg_cells.push(0);
    reg_cells.push(0);
    reg_cells.push(0);
    reg_cells.push(0);
    proof {
        assert(reg_cells@ =~= spec_nic_reg_cells(addr));
    }
    push_op_prop(out, name_bytes("reg"), u32_array_vec(&reg_cells));
    let mut acells: Vec<u32> = Vec::new();
    let mut j: usize = 0;
    while j < s.bars.len()
        invariant
            j <= s.bars@.len(),
            acells@ == spec_assigned_cells(addr, s.bars@.take(j as int)),
        decreases s.bars@.len() - j,
    {
        match s.bars[j] {
            BarDescriptor::Io { port } => {
                acells.push(0x81000014u32 | addr);
                acells.push(0);
                acells.push(port);
                acells.push(0);
                acells.push(0x100);
            },
            BarDescriptor::Memory32 { address, size, prefetchable } => {
                acells.push(0x82000010u32 | addr);
                acells.push(0);
                acells.push(address);
                acells.push(0);
                acells.push(size);
            },
            BarDescriptor::Memory64 { address, size, prefetchable } => {
                proof {
                    assert((address >> 32) & 0xFFFF_FFFF <= 0xFFFF_FFFF && address & 0xFFFF_FFFF
                        <= 0xFFFF_FFFF && (size >> 32) & 0xFFFF_FFFF <= 0xFFFF_FFFF && size
                        & 0xFFFF_FFFF <= 0xFFFF_FFFF) by (bit_vector);
                }
                acells.push(0x82000010u32 | addr);
                acells.push(((address >> 32) & 0xFFFF_FFFF) as u32);
                acells.push((address & 0xFFFF_FFFF) as u32);
                acells.push(((size >> 32) & 0xFFFF_FFFF) as u32);
                acells.push((size & 0xFFFF_FFFF) as u32);
            },
        }
        j = j + 1;
        proof {
            assert(s.bars@.take(j as int).drop_last() =~= s.bars@.take(j as int - 1));
            assert(s.bars@.take(j as int).last() == s.bars@[j as int - 1]);
            assert(acells@ =~= spec_assigned_cells(addr, s.bars@.take(j as int)));
        }
    }
    proof {
        assert(s.bars@.take(s.bars@.len() as int) =~= s.bars@);
    }
    push_op_prop(out, name_bytes("assigned-addresses"), u32_array_vec(&acells));
    push_op_end(out);
    proof {
        assert(ops_model(out@) =~= ops_model(old(out)@) + spec_nic_node_ops(*s));
    }
}

/// The device-tree synthesizer. Built once per boot; the finished blob's
/// ownership transfers to whatever hands it to the next boot stage.
pub struct DeviceTree;

impl DeviceTree {
    /// The verified plan: the exact build-operation sequence of the
    /// descriptor for the given memory map, command line, and scanned
    /// slots.
    pub fn plan(
        regions: &Vec<MemoryRegion>,
        cmdline: Option<&Vec<u8>>,
        slots: &Vec<PciSlot>,
    ) -> (r: Vec<FdtOp>)
        ensures
            ops_model(r@) == spec_device_tree_ops(regions@, opt_vec_view(cmdline), slots@),
    {
        let ghost cm = opt_vec_view(cmdline);
        let mut out: Vec<FdtOp> = Vec::new();
        push_op_begin(&mut out, name_bytes(""));
        push_op_prop(
            &mut out,
            name_bytes("compatible"),
            string_payload_vec("linux,dummy-virt".as_bytes()),
        );
        push_op_prop(&mut out, name_bytes("#address-cells"), be32_vec(2));
        push_op_prop(&mut out, name_bytes("#size-cells"), be32_vec(2));
        push_op_prop(&mut out, name_bytes("#interrupt-cells"), be32_vec(1));
        proof {
            assert(ops_model(out@) =~= spec_root_ops());
        }
        match cmdline {
            Some(c) => {
                push_op_begin(&mut out, name_bytes("chosen"));
                push_op_prop(&mut out, name_bytes("bootargs"), string_payload_vec(c.as_slice()));
                push_op_end(&mut out);
            },
            None => {
            },
        }
        proof {
            assert(ops_model(out@) =~= spec_root_ops() + spec_chosen_ops(cm));
        }
        let mut i: usize = 0;
        while i < regions.len()
            invariant
                i <= regions@.len(),
                ops_model(out@) == spec_root_ops() + spec_chosen_ops(cm) + spec_memory_ops(
                    regions@.take(i as int),
                ),
            decreases regions@.len() - i,
        {
            push_memory_node(&mut out, &regions[i]);
            i = i + 1;
            proof {
                assert(regions@.take(i as int).drop_last() =~= regions@.take(i as int - 1));
                assert(regions@.take(i as int).last() == regions@[i as int - 1]);
                assert(ops_model(out@) =~= spec_root_ops() + spec_chosen_ops(cm)
                    + spec_memory_ops(regions@.take(i as int)));
            }
        }
        proof {
            assert(regions@.take(regions@.len() as int) =~= regions@);
        }
        push_op_begin(&mut out, name_bytes("pci"));
        push_op_prop(&mut out, name_bytes("device_type"), string_payload_vec("pci".as_bytes()));
        push_op_prop(&mut out, name_bytes("#address-cells"), be32_vec(1));
        push_op_prop(&mut out, name_bytes("#size-cells"), be32_vec(1));
        let ghost pci_prefix = ops_model(out@);
        let mut k: usize = 0;
        while k < slots.len()
            invariant
                k <= slots@.len(),
                ops_model(out@) == pci_prefix + spec_slots_ops(slots@.take(k as int)),
            decreases slots@.len() - k,
        {
            push_nic_node(&mut out, &slots[k]);
            k = k + 1;
            proof {
                assert(slots@.take(k as int).drop_last() =~= slots@.take(k as int - 1));
                assert(slots@.take(k as int).last() == slots@[k as int - 1]);
                assert(ops_model(out@) =~= pci_prefix + spec_slots_ops(slots@.take(k as int)));
            }
        }
        proof {
            assert(slots@.take(slots@.len() as int) =~= slots@);
        }
        push_op_end(&mut out);
        push_op_end(&mut out);
        proof {
            assert(ops_model(out@) =~= spec_device_tree_ops(regions@, cm, slots@));
        }
        out
    }

    /// Build the descriptor blob. On success the bytes are the encoder's
    /// serialization of exactly the planned operations; and success is owed
    /// outright whenever the plan's total byte cost stays within the
    /// format's 32-bit size fields — the plan's names and nesting are
    /// always acceptable, by `lemma_plan_accepted`. An encoder failure
    /// propagates, since a malformed descriptor cannot be handed on.
    pub fn create(
        regions: &Vec<MemoryRegion>,
        cmdline: Option<&Vec<u8>>,
        slots: &Vec<PciSlot>,
    ) -> (r: Result<Vec<u8>, FdtError>)
        ensures
            r matches Ok(blob) ==> blob@ == fdt_blob(
                spec_device_tree_ops(regions@, opt_vec_view(cmdline), slots@),
            ),
            fdt_ops_size(spec_device_tree_ops(regions@, opt_vec_view(cmdline), slots@))
                <= 0xFFFF_FFFF ==> r is Ok,
    {
        let ops = Self::plan(regions, cmdline, slots);
        proof {
            lemma_plan_accepted(regions@, opt_vec_view(cmdline), slots@);
        }
        emit(&ops)
    }
}

/// The fixed node and property names of the descriptor all have the
/// shape the encoder accepts.
#[verifier::rlimit(100)]
#[verifier::spinoff_prover]
pub proof fn lemma_fixed_names_valid()
    ensures
        valid_property_name(sb("compatible")),
        valid_property_name(sb("#address-cells")),
        valid_property_name(sb("#size-cells")),
        valid_property_name(sb("#interrupt-cells")),
        valid_property_name(sb("bootargs")),
        valid_property_name(sb("device_type")),
        valid_property_name(sb("reg")),
        valid_property_name(sb("vendor-id")),
        valid_property_name(sb("device-id")),
        valid_property_name(sb("interrupts")),
        valid_property_name(sb("pci-address")),
        valid_property_name(sb("assigned-addresses")),
        sb("").len() == 0,
        valid_node_label(sb("chosen")),
        valid_node_label(sb("pci")),
        sb("memory@") == seq![109u8, 101u8, 109u8, 111u8, 114u8, 121u8, 64u8],
        sb("virtio_net@") == seq![118u8, 105u8, 114u8, 116u8, 105u8, 111u8, 95u8, 110u8, 101u8, 116u8, 64u8],
{
    broadcast use vstd::string::is_ascii_spec_bytes;

    reveal_strlit("compatible");
    assert(is_ascii("compatible"));
    assert(sb("compatible") =~= seq![99u8, 111u8, 109u8, 112u8, 97u8, 116u8, 105u8, 98u8, 108u8, 101u8]);
    reveal_strlit("#address-cells");
    assert(is_ascii("#address-cells"));
    assert(sb("#address-cells") =~= seq![35u8, 97u8, 100u8, 100u8, 114u8, 101u8, 115u8, 115u8, 45u8, 99u8, 101u8, 108u8, 108u8, 115u8]);
    reveal_strlit("#size-cells");
    assert(is_ascii("#size-cells"));
    assert(sb("#size-cells") =~= seq![35u8, 115u8, 105u8, 122u8, 101u8, 45u8, 99u8, 101u8, 108u8, 108u8, 115u8]);
    reveal_strlit("#interrupt-cells");
    assert(is_ascii("#interrupt-cells"));
    assert(sb("#interrupt-cells") =~= seq![35u8, 105u8, 110u8, 116u8, 101u8, 114u8, 114u8, 117u8, 112u8, 116u8, 45u8, 99u8, 101u8, 108u8, 108u8, 115u8]);
    reveal_strlit("bootargs");
    assert(is_ascii("bootargs"));
    assert(sb("bootargs") =~= seq![98u8, 111u8, 111u8, 116u8, 97u8, 114u8, 103u8, 115u8]);
    reveal_strlit("device_type");
    assert(is_ascii("device_type"));
    assert(sb("device_type") =~= seq![100u8, 101u8, 118u8, 105u8, 99u8, 101u8, 95u8, 116u8, 121u8, 112u8, 101u8]);
    reveal_strlit("reg");
    assert(is_ascii("reg"));
    assert(sb("reg") =~= seq![114u8, 101u8, 103u8]);
    reveal_strlit("vendor-id");
    assert(is_ascii("vendor-id"));
    assert(sb("vendor-id") =~= seq![118u8, 101u8, 110u8, 100u8, 111u8, 114u8, 45u8, 105u8, 100u8]);
    reveal_strlit("device-id");
    assert(is_ascii("device-id"));
    assert(sb("device-id") =~= seq![100u8, 101u8, 118u8, 105u8, 99u8, 101u8, 45u8, 105u8, 100u8]);
    reveal_strlit("interrupts");
    assert(is_ascii("interrupts"));
    assert(sb("interrupts") =~= seq![105u8, 110u8, 116u8, 101u8, 114u8, 114u8, 117u8, 112u8, 116u8, 115u8]);
    reveal_strlit("pci-address");
    assert(is_ascii("pci-address"));
    assert(sb("pci-address") =~= seq![112u8, 99u8, 105u8, 45u8, 97u8, 100u8, 100u8, 114u8, 101u8, 115u8, 115u8]);
    reveal_strlit("assigned-addresses");
    assert(is_ascii("assigned-addresses"));
    assert(sb("assigned-addresses") =~= seq![97u8, 115u8, 115u8, 105u8, 103u8, 110u8, 101u8, 100u8, 45u8, 97u8, 100u8, 100u8, 114u8, 101u8, 115u8, 115u8, 101u8, 115u8]);
    reveal_strlit("chosen");
    assert(is_ascii("chosen"));
    assert(sb("chosen") =~= seq![99u8, 104u8, 111u8, 115u8, 101u8, 110u8]);
    reveal_strlit("pci");
    assert(is_ascii("pci"));
    assert(sb("pci") =~= seq![112u8, 99u8, 105u8]);
    reveal_strlit("");
    assert(is_ascii(""));
    assert(sb("") =~= seq![]);
    reveal_strlit("memory@");
    assert(is_ascii("memory@"));
    assert(sb("memory@") =~= seq![109u8, 101u8, 109u8, 111u8, 114u8, 121u8, 64u8]);
    reveal_strlit("virtio_net@");
    assert(is_ascii("virtio_net@"));
    assert(sb("virtio_net@") =~= seq![118u8, 105u8, 114u8, 116u8, 105u8, 111u8, 95u8, 110u8, 101u8, 116u8, 64u8]);
}

/// The unit-address digits are node-name characters, and there is at least
/// one of them.
pub proof fn lemma_hex_digits_chars(v: int)
    ensures
        forall|i: int|
            0 <= i < spec_hex_digits(v).len() ==> is_node_name_char(
                #[trigger] spec_hex_digits(v)[i],
            ),
    decreases v,
{
    if v > 0 {
        lemma_hex_digits_chars(v / 16);
        let s = spec_hex_digits(v);
        assert forall|i: int| 0 <= i < s.len() implies is_node_name_char(#[trigger] s[i]) by {
            if i < s.len() - 1 {
                assert(is_node_name_char(spec_hex_digits(v / 16)[i]));
            }
        }
    }
}

pub proof fn lemma_hex_name_chars(v: int)
    requires
        v >= 0,
    ensures
        spec_hex_name(v).len() >= 1,
        forall|i: int|
            0 <= i < spec_hex_name(v).len() ==> is_node_name_char(#[trigger] spec_hex_name(v)[i]),
{
    lemma_hex_digits_chars(v);
    if v > 0 {
        assert(spec_hex_digits(v).len() >= 1);
    }
}

/// `memory@<hex>` is a node name the encoder accepts.
pub proof fn lemma_memory_name_valid(v: int)
    requires
        v >= 0,
    ensures
        valid_node_name(sb("memory@") + spec_hex_name(v)),
{
    lemma_fixed_names_valid();
    lemma_hex_name_chars(v);
    let name = sb("memory@") + spec_hex_name(v);
    assert(name[6] == 64);
    assert(name.take(6) =~= seq![109u8, 101u8, 109u8, 111u8, 114u8, 121u8]);
    assert(valid_node_label(name.take(6)));
    assert forall|i: int| 6 < i < name.len() implies is_node_name_char(#[trigger] name[i]) by {
        if i >= 7 {
            assert(name[i] == spec_hex_name(v)[i - 7]);
        }
    }
    assert(valid_node_name(name));
}

/// `virtio_net@<hex>` is a node name the encoder accepts.
pub proof fn lemma_virtio_net_name_valid(v: int)
    requires
        v >= 0,
    ensures
        valid_node_name(sb("virtio_net@") + spec_hex_name(v)),
{
    lemma_fixed_names_valid();
    lemma_hex_name_chars(v);
    let name = sb("virtio_net@") + spec_hex_name(v);
    assert(name[10] == 64);
    assert(name.take(10) =~= seq![
        118u8,
        105u8,
        114u8,
        116u8,
        105u8,
        111u8,
        95u8,
        110u8,
        101u8,
        116u8,
    ]);
    assert(valid_node_label(name.take(10)));
    assert forall|i: int| 10 < i < name.len() implies is_node_name_char(#[trigger] name[i]) by {
        if i >= 11 {
            assert(name[i] == spec_hex_name(v)[i - 11]);
        }
    }
    assert(valid_node_name(name));
}

/// The root node's opening operations are all accepted from a fresh
/// encoder, and leave one node open.
#[verifier::rlimit(100)]
#[verifier::spinoff_prover]
pub proof fn lemma_root_accepted()
    ensures
        fdt_ops_accepted(spec_root_ops(), 0, false),
        fdt_depth(spec_root_ops()) == 1,
{
    lemma_fixed_names_valid();
    let s = spec_root_ops();
    let o0 = op_begin(sb(""));
    let o1 = op_prop(sb("compatible"), string_payload(sb("linux,dummy-virt")));
    let o2 = op_prop(sb("#address-cells"), be32(2));
    let o3 = op_prop(sb("#size-cells"), be32(2));
    let o4 = op_prop(sb("#interrupt-cells"), be32(1));
    assert(fdt_ops_accepted(Seq::<(int, Seq<u8>, Seq<u8>)>::empty(), 1, false));
    assert(seq![o4].drop_first() =~= Seq::<(int, Seq<u8>, Seq<u8>)>::empty());
    assert(fdt_ops_accepted(seq![o4], 1, false));
    assert(seq![o3, o4].drop_first() =~= seq![o4]);
    assert(fdt_ops_accepted(seq![o3, o4], 1, false));
    assert(seq![o2, o3, o4].drop_first() =~= seq![o3, o4]);
    assert(fdt_ops_accepted(seq![o2, o3, o4], 1, false));
    assert(seq![o1, o2, o3, o4].drop_first() =~= seq![o2, o3, o4]);
    assert(fdt_ops_accepted(seq![o1, o2, o3, o4], 1, false));
    assert(s.drop_first() =~= seq![o1, o2, o3, o4]);
    assert(fdt_ops_accepted(s, 0, false));
    assert(fdt_depth(Seq::<(int, Seq<u8>, Seq<u8>)>::empty()) == 0);
    assert(seq![o0].drop_last() =~= Seq::<(int, Seq<u8>, Seq<u8>)>::empty());
    assert(fdt_depth(seq![o0]) == 1);
    assert(seq![o0, o1].drop_last() =~= seq![o0]);
    assert(fdt_depth(seq![o0, o1]) == 1);
    assert(seq![o0, o1, o2].drop_last() =~= seq![o0, o1]);
    assert(fdt_depth(seq![o0, o1, o2]) == 1);
    assert(seq![o0, o1, o2, o3].drop_last() =~= seq![o0, o1, o2]);
    assert(fdt_depth(seq![o0, o1, o2, o3]) == 1);
    assert(s.drop_last() =~= seq![o0, o1, o2, o3]);
    assert(fdt_depth(s) == 1);
}

/// The `chosen` node's operations are accepted inside the root, whatever
/// came before, and are balanced.
#[verifier::rlimit(100)]
#[verifier::spinoff_prover]
pub proof fn lemma_chosen_accepted(cmdline: Option<Seq<u8>>, e: bool)
    ensures
        fdt_ops_accepted(spec_chosen_ops(cmdline), 1, e),
        fdt_depth(spec_chosen_ops(cmdline)) == 0,
{
    match cmdline {
        None => {
            assert(spec_chosen_ops(cmdline) =~= Seq::<(int, Seq<u8>, Seq<u8>)>::empty());
            assert(fdt_ops_accepted(spec_chosen_ops(cmdline), 1, e));
            assert(fdt_depth(spec_chosen_ops(cmdline)) == 0);
        },
        Some(c) => {
            lemma_fixed_names_valid();
            let s = spec_chosen_ops(cmdline);
            let o0 = op_begin(sb("chosen"));
            let o1 = op_prop(sb("bootargs"), string_payload(c));
            let o2 = op_end();
        assert(fdt_ops_accepted(Seq::<(int, Seq<u8>, Seq<u8>)>::empty(), 1, true));
        assert(seq![o2].drop_first() =~= Seq::<(int, Seq<u8>, Seq<u8>)>::empty());
        assert(fdt_ops_accepted(seq![o2], 2, false));
        assert(seq![o1, o2].drop_first() =~= seq![o2]);
        assert(fdt_ops_accepted(seq![o1, o2], 2, false));
        assert(s.drop_first() =~= seq![o1, o2]);
        assert(fdt_ops_accepted(s, 1, e));
        assert(fdt_depth(Seq::<(int, Seq<u8>, Seq<u8>)>::empty()) == 0);
        assert(seq![o0].drop_last() =~= Seq::<(int, Seq<u8>, Seq<u8>)>::empty());
        assert(fdt_depth(seq![o0]) == 1);
        assert(seq![o0, o1].drop_last() =~= seq![o0]);
        assert(fdt_depth(seq![o0, o1]) == 1);
        assert(s.drop_last() =~= seq![o0, o1]);
        assert(fdt_depth(s) == 0);
        },
    }
}

/// One memory-map entry's operations are accepted inside the root,
/// whatever came before, and are balanced.
#[verifier::rlimit(100)]
#[verifier::spinoff_prover]
pub proof fn lemma_memory_node_accepted(r: MemoryRegion, e: bool)
    ensures
        fdt_ops_accepted(spec_memory_node_ops(r), 1, e),
        fdt_depth(spec_memory_node_ops(r)) == 0,
{
    if r.available {
        lemma_fixed_names_valid();
        lemma_memory_name_valid(r.base as int);
        let s = spec_memory_node_ops(r);
        let o0 = op_begin(sb("memory@") + spec_hex_name(r.base as int));
        let o1 = op_prop(sb("device_type"), string_payload(sb("memory")));
        let o2 = op_prop(sb("reg"), be64(r.base) + be64(r.length));
        let o3 = op_end();
        assert(fdt_ops_accepted(Seq::<(int, Seq<u8>, Seq<u8>)>::empty(), 1, true));
        assert(seq![o3].drop_first() =~= Seq::<(int, Seq<u8>, Seq<u8>)>::empty());
        assert(fdt_ops_accepted(seq![o3], 2, false));
        assert(seq![o2, o3].drop_first() =~= seq![o3]);
        assert(fdt_ops_accepted(seq![o2, o3], 2, false));
        assert(seq![o1, o2, o3].drop_first() =~= seq![o2, o3]);
        assert(fdt_ops_accepted(seq![o1, o2, o3], 2, false));
        assert(s.drop_first() =~= seq![o1, o2, o3]);
        assert(fdt_ops_accepted(s, 1, e));
        assert(fdt_depth(Seq::<(int, Seq<u8>, Seq<u8>)>::empty()) == 0);
        assert(seq![o0].drop_last() =~= Seq::<(int, Seq<u8>, Seq<u8>)>::empty());
        assert(fdt_depth(seq![o0]) == 1);
        assert(seq![o0, o1].drop_last() =~= seq![o0]);
        assert(fdt_depth(seq![o0, o1]) == 1);
        assert(seq![o0, o1, o2].drop_last() =~= seq![o0, o1]);
        assert(fdt_depth(seq![o0, o1, o2]) == 1);
        assert(s.drop_last() =~= seq![o0, o1, o2]);
        assert(fdt_depth(s) == 0);
    } else {
        assert(spec_memory_node_ops(r) =~= Seq::<(int, Seq<u8>, Seq<u8>)>::empty());
        assert(fdt_ops_accepted(spec_memory_node_ops(r), 1, e));
        assert(fdt_depth(spec_memory_node_ops(r)) == 0);
    }
}

/// The whole memory-map segment is accepted inside the root and is
/// balanced.
pub proof fn lemma_memory_ops_accepted(regions: Seq<MemoryRegion>, e: bool)
    ensures
        fdt_ops_accepted(spec_memory_ops(regions), 1, e),
        fdt_depth(spec_memory_ops(regions)) == 0,
    decreases regions.len(),
{
    if regions.len() == 0 {
        assert(spec_memory_ops(regions) =~= Seq::<(int, Seq<u8>, Seq<u8>)>::empty());
        assert(fdt_ops_accepted(spec_memory_ops(regions), 1, e));
        assert(fdt_depth(spec_memory_ops(regions)) == 0);
    } else {
        let a = spec_memory_ops(regions.drop_last());
        let b = spec_memory_node_ops(regions.last());
        lemma_memory_ops_accepted(regions.drop_last(), e);
        lemma_memory_node_accepted(regions.last(), fdt_walk_ended(a, e));
        lemma_fdt_accepted_concat(a, b, 1, e);
        lemma_fdt_depth_concat(a, b);
    }
}

/// One recognized adapter's operations are accepted inside the `pci`
/// node, whatever came before, and are balanced.
#[verifier::rlimit(100)]
#[verifier::spinoff_prover]
pub proof fn lemma_nic_node_accepted(sl: PciSlot, e: bool)
    ensures
        fdt_ops_accepted(spec_nic_node_ops(sl), 2, e),
        fdt_depth(spec_nic_node_ops(sl)) == 0,
{
    if spec_recognized_nic(sl.identity) {
        lemma_fixed_names_valid();
        let addr = spec_slot_addr(sl.bus, sl.device);
        lemma_virtio_net_name_valid(addr as int);
        let s = spec_nic_node_ops(sl);
        let o0 = op_begin(sb("virtio_net@") + spec_hex_name(addr as int));
        let o1 = op_prop(sb("compatible"), string_payload(sb("realtek,rtl8139")));
        let o2 = op_prop(sb("vendor-id"), be32(sl.identity.vendor_id as u32));
        let o3 = op_prop(sb("device-id"), be32(sl.identity.device_id as u32));
        let o4 = op_prop(sb("interrupts"), be32(sl.interrupt_line as u32));
        let o5 = op_prop(sb("pci-address"), be32(addr));
        let o6 = op_prop(sb("reg"), u32_array_payload(spec_nic_reg_cells(addr)));
        let o7 = op_prop(
            sb("assigned-addresses"),
            u32_array_payload(spec_assigned_cells(addr, sl.bars@)),
        );
        let o8 = op_end();
        assert(fdt_ops_accepted(Seq::<(int, Seq<u8>, Seq<u8>)>::empty(), 2, true));
        assert(seq![o8].drop_first() =~= Seq::<(int, Seq<u8>, Seq<u8>)>::empty());
        assert(fdt_ops_accepted(seq![o8], 3, false));
        assert(seq![o7, o8].drop_first() =~= seq![o8]);
        assert(fdt_ops_accepted(seq![o7, o8], 3, false));
        assert(seq![o6, o7, o8].drop_first() =~= seq![o7, o8]);
        assert(fdt_ops_accepted(seq![o6, o7, o8], 3, false));
        assert(seq![o5, o6, o7, o8].drop_first() =~= seq![o6, o7, o8]);
        assert(fdt_ops_accepted(seq![o5, o6, o7, o8], 3, false));
        assert(seq![o4, o5, o6, o7, o8].drop_first() =~= seq![o5, o6, o7, o8]);
        assert(fdt_ops_accepted(seq![o4, o5, o6, o7, o8], 3, false));
        assert(seq![o3, o4, o5, o6, o7, o8].drop_first() =~= seq![o4, o5, o6, o7, o8]);
        assert(fdt_ops_accepted(seq![o3, o4, o5, o6, o7, o8], 3, false));
        assert(seq![o2, o3, o4, o5, o6, o7, o8].drop_first() =~= seq![o3, o4, o5, o6, o7, o8]);
        assert(fdt_ops_accepted(seq![o2, o3, o4, o5, o6, o7, o8], 3, false));
        assert(seq![o1, o2, o3, o4, o5, o6, o7, o8].drop_first() =~= seq![o2, o3, o4, o5, o6, o7, o8]);
        assert(fdt_ops_accepted(seq![o1, o2, o3, o4, o5, o6, o7, o8], 3, false));
        assert(s.drop_first() =~= seq![o1, o2, o3, o4, o5, o6, o7, o8]);
        assert(fdt_ops_accepted(s, 2, e));
        assert(fdt_depth(Seq::<(int, Seq<u8>, Seq<u8>)>::empty()) == 0);
        assert(seq![o0].drop_last() =~= Seq::<(int, Seq<u8>, Seq<u8>)>::empty());
        assert(fdt_depth(seq![o0]) == 1);
        assert(seq![o0, o1].drop_last() =~= seq![o0]);
        assert(fdt_depth(seq![o0, o1]) == 1);
        assert(seq![o0, o1, o2].drop_last() =~= seq![o0, o1]);
        assert(fdt_depth(seq![o0, o1, o2]) == 1);
        assert(seq![o0, o1, o2, o3].drop_last() =~= seq![o0, o1, o2]);
        assert(fdt_depth(seq![o0, o1, o2, o3]) == 1);
        assert(seq![o0, o1, o2, o3, o4].drop_last() =~= seq![o0, o1, o2, o3]);
        assert(fdt_depth(seq![o0, o1, o2, o3, o4]) == 1);
        assert(seq![o0, o1, o2, o3, o4, o5].drop_last() =~= seq![o0, o1, o2, o3, o4]);
        assert(fdt_depth(seq![o0, o1, o2, o3, o4, o5]) == 1);
        assert(seq![o0, o1, o2, o3, o4, o5, o6].drop_last() =~= seq![o0, o1, o2, o3, o4, o5]);
        assert(fdt_depth(seq![o0, o1, o2, o3, o4, o5, o6]) == 1);
        assert(seq![o0, o1, o2, o3, o4, o5, o6, o7].drop_last() =~= seq![o0, o1, o2, o3, o4, o5, o6]);
        assert(fdt_depth(seq![o0, o1, o2, o3, o4, o5, o6, o7]) == 1);
        assert(s.drop_last() =~= seq![o0, o1, o2, o3, o4, o5, o6, o7]);
        assert(fdt_depth(s) == 0);
    } else {
        assert(spec_nic_node_ops(sl) =~= Seq::<(int, Seq<u8>, Seq<u8>)>::empty());
        assert(fdt_ops_accepted(spec_nic_node_ops(sl), 2, e));
        assert(fdt_depth(spec_nic_node_ops(sl)) == 0);
    }
}

/// The whole slot segment is accepted inside the `pci` node and is
/// balanced.
pub proof fn lemma_slots_ops_accepted(slots: Seq<PciSlot>, e: bool)
    ensures
        fdt_ops_accepted(spec_slots_ops(slots), 2, e),
        fdt_depth(spec_slots_ops(slots)) == 0,
    decreases slots.len(),
{
    if slots.len() == 0 {
        assert(spec_slots_ops(slots) =~= Seq::<(int, Seq<u8>, Seq<u8>)>::empty());
        assert(fdt_ops_accepted(spec_slots_ops(slots), 2, e));
        assert(fdt_depth(spec_slots_ops(slots)) == 0);
    } else {
        let a = spec_slots_ops(slots.drop_last());
        let b = spec_nic_node_ops(slots.last());
        lemma_slots_ops_accepted(slots.drop_last(), e);
        lemma_nic_node_accepted(slots.last(), fdt_walk_ended(a, e));
        lemma_fdt_accepted_concat(a, b, 2, e);
        lemma_fdt_depth_concat(a, b);
    }
}

/// The whole `pci` node's operations are accepted inside the root,
/// whatever came before, and are balanced.
#[verifier::rlimit(100)]
#[verifier::spinoff_prover]
pub proof fn lemma_pci_ops_accepted(slots: Seq<PciSlot>, e: bool)
    ensures
        fdt_ops_accepted(spec_pci_ops(slots), 1, e),
        fdt_depth(spec_pci_ops(slots)) == 0,
{
    lemma_fixed_names_valid();
    let o0 = op_begin(sb("pci"));
    let o1 = op_prop(sb("device_type"), string_payload(sb("pci")));
    let o2 = op_prop(sb("#address-cells"), be32(1));
    let o3 = op_prop(sb("#size-cells"), be32(1));
    let hdr = seq![o0, o1, o2, o3];
    assert(fdt_ops_accepted(Seq::<(int, Seq<u8>, Seq<u8>)>::empty(), 2, false));
    assert(seq![o3].drop_first() =~= Seq::<(int, Seq<u8>, Seq<u8>)>::empty());
    assert(fdt_ops_accepted(seq![o3], 2, false));
    assert(seq![o2, o3].drop_first() =~= seq![o3]);
    assert(fdt_ops_accepted(seq![o2, o3], 2, false));
    assert(seq![o1, o2, o3].drop_first() =~= seq![o2, o3]);
    assert(fdt_ops_accepted(seq![o1, o2, o3], 2, false));
    assert(hdr.drop_first() =~= seq![o1, o2, o3]);
    assert(fdt_ops_accepted(hdr, 1, e));
    assert(fdt_depth(Seq::<(int, Seq<u8>, Seq<u8>)>::empty()) == 0);
    assert(seq![o0].drop_last() =~= Seq::<(int, Seq<u8>, Seq<u8>)>::empty());
    assert(fdt_depth(seq![o0]) == 1);
    assert(seq![o0, o1].drop_last() =~= seq![o0]);
    assert(fdt_depth(seq![o0, o1]) == 1);
    assert(seq![o0, o1, o2].drop_last() =~= seq![o0, o1]);
    assert(fdt_depth(seq![o0, o1, o2]) == 1);
    assert(hdr.drop_last() =~= seq![o0, o1, o2]);
    assert(fdt_depth(hdr) == 1);
    let sl = spec_slots_ops(slots);
    lemma_slots_ops_accepted(slots, fdt_walk_ended(hdr, e));
    lemma_fdt_accepted_concat(hdr, sl, 1, e);
    lemma_fdt_depth_concat(hdr, sl);
    let hs = hdr + sl;
    let tail = seq![op_end()];
    assert(fdt_ops_accepted(Seq::<(int, Seq<u8>, Seq<u8>)>::empty(), 1, true));
    assert(tail.drop_first() =~= Seq::<(int, Seq<u8>, Seq<u8>)>::empty());
    assert(fdt_ops_accepted(tail, 2, fdt_walk_ended(hs, e)));
    lemma_fdt_accepted_concat(hs, tail, 1, e);
    lemma_fdt_depth_concat(hs, tail);
    assert(tail.drop_last() =~= Seq::<(int, Seq<u8>, Seq<u8>)>::empty());
    assert(fdt_depth(tail) == -1);
    assert(spec_pci_ops(slots) =~= hs + tail);
    assert(fdt_ops_accepted(spec_pci_ops(slots), 1, e));
}

/// The synthesizer's plan is always acceptable to the encoder: names have
/// the accepted shape, nesting stays within bounds, and every node is
/// closed. All `emit` then still needs is the 32-bit size bound.
#[verifier::rlimit(100)]
#[verifier::spinoff_prover]
pub proof fn lemma_plan_accepted(
    regions: Seq<MemoryRegion>,
    cmdline: Option<Seq<u8>>,
    slots: Seq<PciSlot>,
)
    ensures
        encoder_accepts(spec_device_tree_ops(regions, cmdline, slots)),
{
    lemma_root_accepted();
    let a1 = spec_root_ops();
    let a2 = spec_chosen_ops(cmdline);
    let a3 = spec_memory_ops(regions);
    let a4 = spec_pci_ops(slots);
    let tail = seq![op_end()];
    lemma_chosen_accepted(cmdline, fdt_walk_ended(a1, false));
    lemma_fdt_accepted_concat(a1, a2, 0, false);
    lemma_fdt_depth_concat(a1, a2);
    let b2 = a1 + a2;
    lemma_memory_ops_accepted(regions, fdt_walk_ended(b2, false));
    lemma_fdt_accepted_concat(b2, a3, 0, false);
    lemma_fdt_depth_concat(b2, a3);
    let b3 = b2 + a3;
    lemma_pci_ops_accepted(slots, fdt_walk_ended(b3, false));
    lemma_fdt_accepted_concat(b3, a4, 0, false);
    lemma_fdt_depth_concat(b3, a4);
    let b4 = b3 + a4;
    assert(fdt_ops_accepted(Seq::<(int, Seq<u8>, Seq<u8>)>::empty(), 0, true));
    assert(tail.drop_first() =~= Seq::<(int, Seq<u8>, Seq<u8>)>::empty());
    assert(fdt_ops_accepted(tail, 1, fdt_walk_ended(b4, false)));
    lemma_fdt_accepted_concat(b4, tail, 0, false);
    lemma_fdt_depth_concat(b4, tail);
    assert(fdt_depth(Seq::<(int, Seq<u8>, Seq<u8>)>::empty()) == 0);
    assert(tail.drop_last() =~= Seq::<(int, Seq<u8>, Seq<u8>)>::empty());
    assert(fdt_depth(tail) == -1);
    assert(spec_device_tree_ops(regions, cmdline, slots) =~= b4 + tail);
    assert(encoder_accepts(spec_device_tree_ops(regions, cmdline, slots)));
}

/// A slot that is not a recognized adapter — an empty slot in particular —
/// contributes nothing anywhere: the descriptor is the same as if the slot
/// had not been scanned at all.
pub proof fn lemma_unrecognized_slot_invisible(slots: Seq<PciSlot>, i: int)
    requires
        0 <= i < slots.len(),
        !spec_recognized_nic(slots[i].identity),
    ensures
        spec_slots_ops(slots) == spec_slots_ops(slots.remove(i)),
    decreases slots.len(),
{
    if i == slots.len() - 1 {
        assert(slots.remove(i) =~= slots.drop_last());
        assert(spec_slots_ops(slots) == spec_slots_ops(slots.drop_last()) + spec_nic_node_ops(
            slots.last(),
        ));
        assert(spec_nic_node_ops(slots.last()) =~= Seq::<(int, Seq<u8>, Seq<u8>)>::empty());
        assert(spec_slots_ops(slots.drop_last()) + Seq::<(int, Seq<u8>, Seq<u8>)>::empty()
            =~= spec_slots_ops(slots.drop_last()));
    } else {
        lemma_unrecognized_slot_invisible(slots.drop_last(), i);
        assert(slots.remove(i).drop_last() =~= slots.drop_last().remove(i));
        assert(slots.remove(i).last() == slots.last());
    }
}

/// A slot whose identity read returned all-ones — an empty slot — produces
/// no node and appears in no property: the whole descriptor plan equals the
/// plan without it.
pub proof fn lemma_empty_slot_invisible(
    regions: Seq<MemoryRegion>,
    cmdline: Option<Seq<u8>>,
    slots: Seq<PciSlot>,
    i: int,
)
    requires
        0 <= i < slots.len(),
        spec_identity_empty(slots[i].identity),
    ensures
        spec_device_tree_ops(regions, cmdline, slots) == spec_device_tree_ops(
            regions,
            cmdline,
            slots.remove(i),
        ),
{
    lemma_unrecognized_slot_invisible(slots, i);
}

} // verus!
