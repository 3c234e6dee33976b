//! The flattened-device-tree encoder boundary.
//!
//! The encoder itself (`vm_fdt`) is an external black box: it is driven
//! through a small set of trusted wrappers, and its accumulated state is
//! modeled as the sequence of build operations accepted so far. Each
//! operation is a triple of the structure-block token it stands for
//! (begin-node 1, end-node 2, property 3), the name bytes, and the raw
//! property value bytes. The finished blob is a function of that sequence
//! alone.
//!
//! The wrappers also say when the encoder accepts: the spec functions below
//! restate its checks — nesting depth, node and property name shape, the
//! open-node state, and the 32-bit size limits — over the operations model,
//! so that callers can promise success.

use vstd::prelude::*;

verus! {

#[verifier::external_type_specification]
#[verifier::external_body]
pub struct ExFdtWriter(vm_fdt::FdtWriter);

#[verifier::external_type_specification]
#[verifier::external_body]
pub struct ExFdtWriterNode(vm_fdt::FdtWriterNode);

#[verifier::external_type_specification]
#[verifier::external_body]
pub struct ExFdtError(vm_fdt::Error);

/// A begin-node operation with the node's name.
pub open spec fn op_begin(name: Seq<u8>) -> (int, Seq<u8>, Seq<u8>) {
    (1, name, Seq::empty())
}

/// An end-node operation.
pub open spec fn op_end() -> (int, Seq<u8>, Seq<u8>) {
    (2, Seq::empty(), Seq::empty())
}

/// A property operation with its name and raw value bytes.
pub open spec fn op_prop(name: Seq<u8>, value: Seq<u8>) -> (int, Seq<u8>, Seq<u8>) {
    (3, name, value)
}

/// Nesting depth after a sequence of operations: begins minus ends.
pub open spec fn fdt_depth(ops: Seq<(int, Seq<u8>, Seq<u8>)>) -> int
    decreases ops.len(),
{
    if ops.len() == 0 {
        0
    } else {
        fdt_depth(ops.drop_last()) + (if ops.last().0 == 1 {
            1
        } else if ops.last().0 == 2 {
            -1
        } else {
            0
        })
    }
}

/// The encoder's "node ended" state: the operation accepted last closed a
/// node, so a property may not follow until a node is begun.
pub open spec fn fdt_node_ended(ops: Seq<(int, Seq<u8>, Seq<u8>)>) -> bool {
    ops.len() > 0 && ops.last().0 == 2
}

/// Conservative byte cost of one operation in the encoder's buffers: a
/// begin-node holds a 4-byte token plus the NUL-terminated name padded to 4
/// (at most 8 + name bytes); an end-node one token; a property three header
/// words plus the padded value in the structure block and the
/// NUL-terminated name in the strings block (at most 16 + name + value).
pub open spec fn fdt_op_size(op: (int, Seq<u8>, Seq<u8>)) -> int {
    if op.0 == 1 {
        8 + op.1.len() as int
    } else if op.0 == 2 {
        4
    } else {
        16 + op.1.len() as int + op.2.len() as int
    }
}

/// Conservative total of the encoder's buffers after a sequence of
/// operations: header, reservation map, final end token and padding fit in
/// the base of 64 bytes. Whenever this stays within 32 bits, every length
/// the encoder converts to a 32-bit header field fits.
pub open spec fn fdt_ops_size(ops: Seq<(int, Seq<u8>, Seq<u8>)>) -> int
    decreases ops.len(),
{
    if ops.len() == 0 {
        64
    } else {
        fdt_ops_size(ops.drop_last()) + fdt_op_size(ops.last())
    }
}

/// A prefix of an operation sequence never costs more than the whole.
pub proof fn lemma_fdt_ops_size_take_le(ops: Seq<(int, Seq<u8>, Seq<u8>)>, i: int)
    requires
        0 <= i <= ops.len(),
    ensures
        fdt_ops_size(ops.take(i)) <= fdt_ops_size(ops),
    decreases ops.len(),
{
    if i == ops.len() {
        assert(ops.take(i) =~= ops);
    } else {
        assert(ops.drop_last().take(i) =~= ops.take(i));
        lemma_fdt_ops_size_take_le(ops.drop_last(), i);
    }
}

/// A character the encoder allows in a node name: ASCII alphanumeric or one
/// of `,` `.` `_` `+` `-`.
pub open spec fn is_node_name_char(b: u8) -> bool {
    (48 <= b && b <= 57) || (65 <= b && b <= 90) || (97 <= b && b <= 122) || b == 44 || b == 46
        || b == 95 || b == 43 || b == 45
}

/// An ASCII letter, the only first character the encoder allows in a node
/// name.
pub open spec fn is_ascii_alpha(b: u8) -> bool {
    (65 <= b && b <= 90) || (97 <= b && b <= 122)
}

/// A character the encoder allows in a property name: the node-name set
/// plus `?` and `#`.
pub open spec fn is_property_name_char(b: u8) -> bool {
    is_node_name_char(b) || b == 63 || b == 35
}

/// The node-name part before any unit address: non-empty, at most 31
/// bytes, a letter first, node-name characters throughout.
pub open spec fn valid_node_label(s: Seq<u8>) -> bool {
    0 < s.len() <= 31 && is_ascii_alpha(s[0]) && (forall|i: int|
        0 <= i < s.len() ==> is_node_name_char(#[trigger] s[i]))
}

/// A name the encoder accepts for a node: empty (the root), a plain label,
/// or a label followed by `@` and unit-address characters. Such bytes are
/// ASCII without NUL, so the conversion to text succeeds as well.
pub open spec fn valid_node_name(name: Seq<u8>) -> bool {
    name.len() == 0 || valid_node_label(name) || (exists|k: int|
        0 <= k < name.len() && #[trigger] name[k] == 64 && valid_node_label(name.take(k))
            && (forall|i: int| k < i < name.len() ==> is_node_name_char(#[trigger] name[i])))
}

/// A name the encoder accepts for a property: non-empty, at most 31 bytes,
/// property-name characters throughout.
pub open spec fn valid_property_name(name: Seq<u8>) -> bool {
    0 < name.len() <= 31 && (forall|i: int|
        0 <= i < name.len() ==> is_property_name_char(#[trigger] name[i]))
}

/// The encoder accepts every operation of `ops` in order, starting from the
/// given nesting depth and node-ended state: a begin-node needs depth below
/// 64 and a valid name, an end-node an open node, a property an open node
/// not just closed and a valid name.
pub open spec fn fdt_ops_accepted(ops: Seq<(int, Seq<u8>, Seq<u8>)>, depth: int, ended: bool) -> bool
    decreases ops.len(),
{
    if ops.len() == 0 {
        true
    } else {
        let op = ops[0];
        (if op.0 == 1 {
            depth < 64 && valid_node_name(op.1)
        } else if op.0 == 2 {
            depth > 0
        } else {
            depth > 0 && !ended && valid_property_name(op.1)
        }) && fdt_ops_accepted(
            ops.drop_first(),
            depth + (if op.0 == 1 {
                1
            } else if op.0 == 2 {
                -1
            } else {
                0
            }),
            op.0 == 2,
        )
    }
}

/// The node-ended state after walking `ops` from state `e`.
pub open spec fn fdt_walk_ended(ops: Seq<(int, Seq<u8>, Seq<u8>)>, e: bool) -> bool {
    if ops.len() == 0 {
        e
    } else {
        ops.last().0 == 2
    }
}

/// The encoder, fresh, accepts the whole sequence and is left with every
/// node closed — all `finish` then still needs is the size bound.
pub open spec fn encoder_accepts(ops: Seq<(int, Seq<u8>, Seq<u8>)>) -> bool {
    fdt_ops_accepted(ops, 0, false) && fdt_depth(ops) == 0
}

/// The depth step contributed by one operation can be read off the front as
/// well as the back.
pub proof fn lemma_fdt_depth_first(ops: Seq<(int, Seq<u8>, Seq<u8>)>)
    requires
        ops.len() > 0,
    ensures
        fdt_depth(ops) == (if ops[0].0 == 1 {
            1int
        } else if ops[0].0 == 2 {
            -1int
        } else {
            0int
        }) + fdt_depth(ops.drop_first()),
    decreases ops.len(),
{
    if ops.len() == 1 {
        assert(ops.drop_last() =~= Seq::<(int, Seq<u8>, Seq<u8>)>::empty());
        assert(ops.drop_first() =~= Seq::<(int, Seq<u8>, Seq<u8>)>::empty());
        assert(ops.last() == ops[0]);
    } else {
        lemma_fdt_depth_first(ops.drop_last());
        assert(ops.drop_last().drop_first() =~= ops.drop_first().drop_last());
        assert(ops.drop_last()[0] == ops[0]);
        assert(ops.drop_first().last() == ops.last());
    }
}

/// Depth of a concatenation is the sum of the parts' depths.
pub proof fn lemma_fdt_depth_concat(a: Seq<(int, Seq<u8>, Seq<u8>)>, b: Seq<(int, Seq<u8>, Seq<u8>)>)
    ensures
        fdt_depth(a + b) == fdt_depth(a) + fdt_depth(b),
    decreases b.len(),
{
    if b.len() == 0 {
        assert(a + b =~= a);
    } else {
        assert((a + b).drop_last() =~= a + b.drop_last());
        lemma_fdt_depth_concat(a, b.drop_last());
        assert((a + b).last() == b.last());
    }
}

/// Acceptance of a concatenation: the first part from the starting state,
/// the second from the state the first part leaves behind.
pub proof fn lemma_fdt_accepted_concat(
    a: Seq<(int, Seq<u8>, Seq<u8>)>,
    b: Seq<(int, Seq<u8>, Seq<u8>)>,
    d: int,
    e: bool,
)
    requires
        fdt_ops_accepted(a, d, e),
        fdt_ops_accepted(b, d + fdt_depth(a), fdt_walk_ended(a, e)),
    ensures
        fdt_ops_accepted(a + b, d, e),
    decreases a.len(),
{
    if a.len() == 0 {
        assert(a + b =~= b);
    } else {
        let step: int = if a[0].0 == 1 {
            1
        } else if a[0].0 == 2 {
            -1
        } else {
            0
        };
        lemma_fdt_depth_first(a);
        assert((a + b).drop_first() =~= a.drop_first() + b);
        if a.len() == 1 {
            assert(a.drop_first() =~= Seq::<(int, Seq<u8>, Seq<u8>)>::empty());
            assert(fdt_walk_ended(a.drop_first(), a[0].0 == 2) == fdt_walk_ended(a, e));
        } else {
            assert(a.drop_first().last() == a.last());
        }
        lemma_fdt_accepted_concat(a.drop_first(), b, d + step, a[0].0 == 2);
        assert((a + b)[0] == a[0]);
    }
}

pub uninterp spec fn fdt_ops(w: vm_fdt::FdtWriter) -> Seq<(int, Seq<u8>, Seq<u8>)>;

pub uninterp spec fn fdt_blob(ops: Seq<(int, Seq<u8>, Seq<u8>)>) -> Seq<u8>;

pub uninterp spec fn fdt_node_depth(node: vm_fdt::FdtWriterNode) -> int;

/// Relies on vm_fdt::FdtWriter::new: a fresh writer with no structure-block
/// operation written yet; with no memory reservations it never fails.
#[verifier::external_body]
fn fdt_writer_new() -> (r: Result<vm_fdt::FdtWriter, vm_fdt::Error>)
    ensures
        r is Ok,
        r matches Ok(w) ==> fdt_ops(w) == Seq::<(int, Seq<u8>, Seq<u8>)>::empty(),
{
    vm_fdt::FdtWriter::new()
}

/// Relies on vm_fdt::FdtWriter::begin_node: on success, exactly one
/// begin-node token with the given name is appended to the structure block,
/// and the returned handle remembers the new depth. The call succeeds
/// whenever the depth is below 64 and the name has the accepted shape.
#[verifier::external_body]
fn fdt_begin_node(w: &mut vm_fdt::FdtWriter, name: &[u8]) -> (r: Result<
    vm_fdt::FdtWriterNode,
    vm_fdt::Error,
>)
    ensures
        r matches Ok(node) ==> fdt_ops(*final(w)) == fdt_ops(*old(w)).push(op_begin(name@))
            && fdt_node_depth(node) == fdt_depth(fdt_ops(*old(w))) + 1,
        fdt_depth(fdt_ops(*old(w))) < 64 && valid_node_name(name@) ==> r is Ok,
{
    match core::str::from_utf8(name) {
        Ok(n) => w.begin_node(n),
        Err(_) => Err(vm_fdt::Error::InvalidString),
    }
}

/// Relies on vm_fdt::FdtWriter::property: on success, exactly one property
/// token with the given name and raw value bytes is appended to the
/// structure block. The call succeeds whenever a node is open and not just
/// closed, the name has the accepted shape, and the running size stays
/// within 32 bits (which bounds the value length and the strings block).
#[verifier::external_body]
fn fdt_property(w: &mut vm_fdt::FdtWriter, name: &[u8], value: &[u8]) -> (r: Result<
    (),
    vm_fdt::Error,
>)
    ensures
        r is Ok ==> fdt_ops(*final(w)) == fdt_ops(*old(w)).push(op_prop(name@, value@)),
        fdt_depth(fdt_ops(*old(w))) > 0 && !fdt_node_ended(fdt_ops(*old(w)))
            && valid_property_name(name@) && fdt_ops_size(
            fdt_ops(*old(w)).push(op_prop(name@, value@)),
        ) <= 0xFFFF_FFFF ==> r is Ok,
{
    match core::str::from_utf8(name) {
        Ok(n) => w.property(n, value),
        Err(_) => Err(vm_fdt::Error::InvalidString),
    }
}

/// Relies on vm_fdt::FdtWriter::end_node: on success, exactly one end-node
/// token is appended to the structure block. The call succeeds whenever the
/// handle is the one for the innermost open node.
#[verifier::external_body]
fn fdt_end_node(w: &mut vm_fdt::FdtWriter, node: vm_fdt::FdtWriterNode) -> (r: Result<
    (),
    vm_fdt::Error,
>)
    ensures
        r is Ok ==> fdt_ops(*final(w)) == fdt_ops(*old(w)).push(op_end()),
        fdt_depth(fdt_ops(*old(w))) > 0 && fdt_node_depth(node) == fdt_depth(fdt_ops(*old(w)))
            ==> r is Ok,
{
    w.end_node(node)
}

/// Relies on vm_fdt::FdtWriter::finish: the returned blob is determined by
/// the operations the writer accepted, serialized in order. The call
/// succeeds whenever every node is closed and the total size stays within
/// 32 bits.
#[verifier::external_body]
fn fdt_finish(w: vm_fdt::FdtWriter) -> (r: Result<Vec<u8>, vm_fdt::Error>)
    ensures
        r matches Ok(blob) ==> blob@ == fdt_blob(fdt_ops(w)),
        fdt_depth(fdt_ops(w)) == 0 && fdt_ops_size(fdt_ops(w)) <= 0xFFFF_FFFF ==> r is Ok,
{
    w.finish()
}

/// A build operation of the synthesized descriptor, as plain data.
pub enum FdtOp {
    BeginNode { name: Vec<u8> },
    Property { name: Vec<u8>, value: Vec<u8> },
    EndNode,
}

impl FdtOp {
    /// The structure-block triple this operation stands for.
    pub open spec fn model(&self) -> (int, Seq<u8>, Seq<u8>) {
        match self {
            FdtOp::BeginNode { name } => op_begin(name@),
            FdtOp::Property { name, value } => op_prop(name@, value@),
            FdtOp::EndNode => op_end(),
        }
    }
}

/// The triples of an operation list, in order.
pub open spec fn ops_model(ops: Seq<FdtOp>) -> Seq<(int, Seq<u8>, Seq<u8>)> {
    ops.map(|i: int, op: FdtOp| op.model())
}

/// Errors of descriptor synthesis: both abort the boot sequence, since a
/// malformed descriptor cannot be handed to the next stage.
#[derive(Clone, Copy, PartialEq, Eq, Structural, Debug)]
pub enum FdtError {
    /// The encoder refused an operation or the finished blob.
    Encoder,
    /// An end-node operation had no node left to close.
    Unbalanced,
}

/// Drive the encoder over a list of build operations. On success the blob is
/// the serialization of exactly those operations; and success is owed
/// whenever the encoder accepts the whole sequence, every node is closed,
/// and the total size stays within 32 bits.
pub fn emit(ops: &Vec<FdtOp>) -> (r: Result<Vec<u8>, FdtError>)
    ensures
        r matches Ok(blob) ==> blob@ == fdt_blob(ops_model(ops@)),
        encoder_accepts(ops_model(ops@)) && fdt_ops_size(ops_model(ops@)) <= 0xFFFF_FFFF ==> r
            is Ok,
{
    let ghost m = ops_model(ops@);
    let ghost accept = encoder_accepts(m) && fdt_ops_size(m) <= 0xFFFF_FFFF;
    let mut w = match fdt_writer_new() {
        Ok(w) => w,
        Err(_) => {
            return Err(FdtError::Encoder);
        },
    };
    let mut open_nodes: Vec<vm_fdt::FdtWriterNode> = Vec::new();
    let mut i: usize = 0;
    proof {
        assert(ops@.take(0) =~= Seq::<FdtOp>::empty());
        assert(ops_model(ops@.take(0)) =~= Seq::<(int, Seq<u8>, Seq<u8>)>::empty());
        assert(m.skip(0) =~= m);
    }
    while i < ops.len()
        invariant
            i <= ops@.len(),
            m == ops_model(ops@),
            accept == (encoder_accepts(m) && fdt_ops_size(m) <= 0xFFFF_FFFF),
            fdt_ops(w) == ops_model(ops@.take(i as int)),
            open_nodes@.len() == fdt_depth(ops_model(ops@.take(i as int))),
            forall|k: int|
                0 <= k < open_nodes@.len() ==> fdt_node_depth(#[trigger] open_nodes@[k]) == k
                    + 1,
            accept ==> fdt_ops_accepted(
                m.skip(i as int),
                fdt_depth(ops_model(ops@.take(i as int))),
                fdt_node_ended(ops_model(ops@.take(i as int))),
            ),
        decreases ops@.len() - i,
    {
        proof {
            assert(m.skip(i as int)[0] == ops@[i as int].model());
            assert(m.skip(i as int).drop_first() =~= m.skip(i as int + 1));
        }
        match &ops[i] {
            FdtOp::BeginNode { name } => {
                match fdt_begin_node(&mut w, name.as_slice()) {
                    Ok(node) => {
                        open_nodes.push(node);
                    },
                    Err(_) => {
                        proof {
                            if accept {
                                assert(false);
                            }
                        }
                        return Err(FdtError::Encoder);
                    },
                }
            },
            FdtOp::Property { name, value } => {
                proof {
                    if accept {
                        assert(ops_model(ops@.take(i as int)).push(
                            op_prop(name@, value@),
                        ) =~= ops_model(ops@.take(i as int + 1)));
                        assert(m.take(i as int + 1) =~= ops_model(ops@.take(i as int + 1)));
                        lemma_fdt_ops_size_take_le(m, i as int + 1);
                    }
                }
                match fdt_property(&mut w, name.as_slice(), value.as_slice()) {
                    Ok(_) => {
                    },
                    Err(_) => {
                        proof {
                            if accept {
                                assert(false);
                            }
                        }
                        return Err(FdtError::Encoder);
                    },
                }
            },
            FdtOp::EndNode => {
                match open_nodes.pop() {
                    Some(node) => {
                        match fdt_end_node(&mut w, node) {
                            Ok(_) => {
                            },
                            Err(_) => {
                                proof {
                                    if accept {
                                        assert(false);
                                    }
                                }
                                return Err(FdtError::Encoder);
                            },
                        }
                    },
                    None => {
                        proof {
                            if accept {
                                assert(false);
                            }
                        }
                        return Err(FdtError::Unbalanced);
                    },
                }
            },
        }
        i = i + 1;
        proof {
            assert(ops_model(ops@.take(i as int)) =~= ops_model(
                ops@.take(i as int - 1),
            ).push(ops@[i as int - 1].model()));
            assert(ops_model(ops@.take(i as int)).drop_last() =~= ops_model(
                ops@.take(i as int - 1),
            ));
        }
    }
    proof {
        assert(ops@.take(ops@.len() as int) =~= ops@);
        assert(ops_model(ops@.take(ops@.len() as int)) =~= ops_model(ops@));
        assert(m.skip(ops@.len() as int) =~= Seq::<(int, Seq<u8>, Seq<u8>)>::empty());
    }
    match fdt_finish(w) {
        Ok(blob) => Ok(blob),
        Err(_) => {
            proof {
                if accept {
                    assert(false);
                }
            }
            Err(FdtError::Encoder)
        },
    }
}

} // verus!
