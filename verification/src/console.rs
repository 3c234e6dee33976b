//! The boot console and the discovery of its physical address.
//!
//! The console owns one active serial driver and is the single point other
//! kernel code uses to emit bytes. Its address is discovered from the
//! firmware-supplied `stdout-path` property of the `/chosen` node; the
//! property string is free-form, so every parse failure degrades to the
//! known-good default address rather than aborting. Reading the raw
//! device-tree blob is the surrounding system's part; this module parses the
//! property bytes it was handed and says which follow-up lookup is needed.

use vstd::prelude::*;
use vstd::slice::{slice_subrange, slice_to_vec};

use crate::drivers::{crlf_expand, PhysicalAddress, SerialDriver, SerialPort};
use crate::hex::{parse_hex32, parse_hex_u32};
use crate::qemu_serial::QemuSerial;

verus! {

/// Physical address of UART0 on Qemu's virt machine: the default console
/// address used whenever discovery yields nothing better.
pub const SERIAL_PORT_ADDRESS: u32 = 0x09000000;

/// `s` with its trailing NUL bytes removed.
pub open spec fn strip_trailing_nuls(s: Seq<u8>) -> Seq<u8>
    decreases s.len(),
{
    if s.len() > 0 && s.last() == 0 {
        strip_trailing_nuls(s.drop_last())
    } else {
        s
    }
}

pub open spec fn contains_byte(s: Seq<u8>, b: u8) -> bool {
    exists|i: int| 0 <= i < s.len() && s[i] == b
}

/// Index of the last occurrence of `b` in `s`; -1 when absent.
pub open spec fn last_index_of(s: Seq<u8>, b: u8) -> int
    decreases s.len(),
{
    if s.len() == 0 {
        -1
    } else if s.last() == b {
        s.len() - 1
    } else {
        last_index_of(s.drop_last(), b)
    }
}

/// Index of the first occurrence of `b` in `s`; -1 when absent.
pub open spec fn first_index_of(s: Seq<u8>, b: u8) -> int
    decreases s.len(),
{
    if s.len() == 0 {
        -1
    } else if s[0] == b {
        0
    } else if first_index_of(s.drop_first(), b) == -1 {
        -1
    } else {
        1 + first_index_of(s.drop_first(), b)
    }
}

pub proof fn lemma_last_index_of(s: Seq<u8>, b: u8)
    ensures
        contains_byte(s, b) <==> last_index_of(s, b) >= 0,
        contains_byte(s, b) ==> last_index_of(s, b) < s.len() && s[last_index_of(s, b)] == b,
        contains_byte(s, b) ==> forall|j: int|
            last_index_of(s, b) < j < s.len() ==> s[j] != b,
    decreases s.len(),
{
    if s.len() > 0 {
        lemma_last_index_of(s.drop_last(), b);
        if s.last() != b {
            assert forall|i: int| 0 <= i < s.len() && s[i] == b implies contains_byte(
                s.drop_last(),
                b,
            ) by {
                assert(i < s.len() - 1 || s[i] != b);
                if i < s.len() - 1 {
                    assert(s.drop_last()[i] == b);
                }
            }
            assert(contains_byte(s.drop_last(), b) ==> contains_byte(s, b)) by {
                if contains_byte(s.drop_last(), b) {
                    let i = choose|i: int|
                        0 <= i < s.drop_last().len() && s.drop_last()[i] == b;
                    assert(s[i] == b);
                }
            }
            if contains_byte(s, b) {
                assert forall|j: int| last_index_of(s, b) < j < s.len() implies s[j] != b by {
                    if j < s.len() - 1 {
                        assert(s.drop_last()[j] != b);
                    }
                }
            }
        }
    }
}

pub proof fn lemma_first_index_of(s: Seq<u8>, b: u8)
    ensures
        contains_byte(s, b) <==> first_index_of(s, b) >= 0,
        contains_byte(s, b) ==> first_index_of(s, b) < s.len() && s[first_index_of(s, b)] == b,
        contains_byte(s, b) ==> forall|j: int| 0 <= j < first_index_of(s, b) ==> s[j] != b,
    decreases s.len(),
{
    if s.len() > 0 && s[0] != b {
        lemma_first_index_of(s.drop_first(), b);
        assert forall|i: int| 0 <= i < s.len() && s[i] == b implies contains_byte(
            s.drop_first(),
            b,
        ) by {
            assert(i > 0);
            assert(s.drop_first()[i - 1] == b);
        }
        if contains_byte(s.drop_first(), b) {
            let i = choose|i: int| 0 <= i < s.drop_first().len() && s.drop_first()[i] == b;
            assert(s[i + 1] == b);
            assert forall|j: int| 0 <= j < first_index_of(s, b) implies s[j] != b by {
                if j > 0 {
                    assert(s.drop_first()[j - 1] != b);
                }
            }
        }
    }
}

/// Remove trailing NUL bytes, as firmware property strings are
/// NUL-terminated.
pub fn strip_nuls<'a>(s: &'a [u8]) -> (r: &'a [u8])
    ensures
        r@ == strip_trailing_nuls(s@),
{
    let mut end: usize = s.len();
    proof {
        assert(s@.take(s@.len() as int) =~= s@);
    }
    while end > 0 && s[end - 1] == 0
        invariant
            end <= s.len(),
            strip_trailing_nuls(s@) == strip_trailing_nuls(s@.take(end as int)),
        decreases end,
    {
        proof {
            assert(s@.take(end as int).drop_last() =~= s@.take(end as int - 1));
        }
        end = end - 1;
    }
    proof {
        assert(s@.take(s@.len() as int) =~= s@);
        assert(strip_trailing_nuls(s@.take(end as int)) == s@.take(end as int));
    }
    slice_subrange(s, 0, end)
}

/// Index of the last occurrence of `b` in `s`.
pub fn rfind_byte(s: &[u8], b: u8) -> (r: Option<usize>)
    ensures
        r matches Some(i) ==> i == last_index_of(s@, b) && i < s@.len() && contains_byte(
            s@,
            b,
        ),
        r is None ==> !contains_byte(s@, b),
{
    let mut end: usize = s.len();
    proof {
        assert(s@.take(s@.len() as int) =~= s@);
    }
    while end > 0
        invariant
            end <= s.len(),
            last_index_of(s@, b) == last_index_of(s@.take(end as int), b),
        decreases end,
    {
        proof {
            assert(s@.take(end as int).drop_last() =~= s@.take(end as int - 1));
        }
        if s[end - 1] == b {
            proof {
                lemma_last_index_of(s@, b);
                assert(s@.take(end as int).last() == b);
            }
            return Some(end - 1);
        }
        end = end - 1;
    }
    proof {
        assert(s@.take(0) =~= Seq::<u8>::empty());
        lemma_last_index_of(s@, b);
    }
    None
}

/// Index of the first occurrence of `b` in `s`.
pub fn ffind_byte(s: &[u8], b: u8) -> (r: Option<usize>)
    ensures
        r matches Some(i) ==> i == first_index_of(s@, b) && i < s@.len() && contains_byte(
            s@,
            b,
        ),
        r is None ==> !contains_byte(s@, b),
{
    let mut i: usize = 0;
    while i < s.len()
        invariant
            i <= s.len(),
            forall|j: int| 0 <= j < i ==> s@[j] != b,
        decreases s.len() - i,
    {
        if s[i] == b {
            proof {
                lemma_first_index_of(s@, b);
            }
            return Some(i);
        }
        i = i + 1;
    }
    proof {
        lemma_first_index_of(s@, b);
    }
    None
}

/// What the first parse of the `stdout-path` property decides: either the
/// console address itself, or the name of the alias that must be looked up
/// under `/aliases`.
pub enum ConsoleQuery {
    Resolved(u32),
    NeedsAlias(Vec<u8>),
}

/// Specification-level mirror of `ConsoleQuery`.
pub enum ConsoleQueryModel {
    Resolved(u32),
    NeedsAlias(Seq<u8>),
}

impl ConsoleQuery {
    pub open spec fn model(&self) -> ConsoleQueryModel {
        match self {
            ConsoleQuery::Resolved(a) => ConsoleQueryModel::Resolved(*a),
            ConsoleQuery::NeedsAlias(v) => ConsoleQueryModel::NeedsAlias(v@),
        }
    }
}

/// The address taken from the text after the last `@` of `s`: its base-16
/// value when it parses as a 32-bit integer, the default otherwise.
pub open spec fn spec_at_suffix_addr(s: Seq<u8>) -> u32 {
    match parse_hex_u32(s.subrange(last_index_of(s, 64) + 1, s.len() as int)) {
        Some(v) => v,
        None => SERIAL_PORT_ADDRESS,
    }
}

/// The decision made on the raw `stdout-path` property bytes, in the exact
/// fallback order: absent property — default; `@` present — parse the text
/// after the last `@` as base-16, default on failure; otherwise `:` present
/// — the text before the first `:` is an alias name to look up; otherwise
/// default.
pub open spec fn spec_console_query(prop: Option<Seq<u8>>) -> ConsoleQueryModel {
    match prop {
        None => ConsoleQueryModel::Resolved(SERIAL_PORT_ADDRESS),
        Some(raw) => {
            let s = strip_trailing_nuls(raw);
            if contains_byte(s, 64) {
                ConsoleQueryModel::Resolved(spec_at_suffix_addr(s))
            } else if contains_byte(s, 58) {
                ConsoleQueryModel::NeedsAlias(s.subrange(0, first_index_of(s, 58)))
            } else {
                ConsoleQueryModel::Resolved(SERIAL_PORT_ADDRESS)
            }
        },
    }
}

/// The address taken from an alias's value: the `@`-suffix parse repeated on
/// it, with every failure, including a missing alias, degrading to the
/// default.
pub open spec fn spec_alias_addr(value: Option<Seq<u8>>) -> u32 {
    match value {
        None => SERIAL_PORT_ADDRESS,
        Some(raw) => {
            let s = strip_trailing_nuls(raw);
            if contains_byte(s, 64) {
                spec_at_suffix_addr(s)
            } else {
                SERIAL_PORT_ADDRESS
            }
        },
    }
}

pub open spec fn opt_bytes_view(prop: Option<&[u8]>) -> Option<Seq<u8>> {
    match prop {
        Some(p) => Some(p@),
        None => None,
    }
}

/// First step of console-address discovery: decide on the raw `stdout-path`
/// property bytes, or report that the property named an alias.
pub fn console_address_query(prop: Option<&[u8]>) -> (q: ConsoleQuery)
    ensures
        q.model() == spec_console_query(opt_bytes_view(prop)),
{
    match prop {
        None => ConsoleQuery::Resolved(SERIAL_PORT_ADDRESS),
        Some(raw) => {
            let s = strip_nuls(raw);
            match rfind_byte(s, 64) {
                Some(pos) => {
                    let n = s.len();
                    let suffix = slice_subrange(s, pos + 1, n);
                    match parse_hex32(suffix) {
                        Some(v) => ConsoleQuery::Resolved(v),
                        None => ConsoleQuery::Resolved(SERIAL_PORT_ADDRESS),
                    }
                },
                None => match ffind_byte(s, 58) {
                    Some(pos) => ConsoleQuery::NeedsAlias(
                        slice_to_vec(slice_subrange(s, 0, pos)),
                    ),
                    None => ConsoleQuery::Resolved(SERIAL_PORT_ADDRESS),
                },
            }
        },
    }
}

/// Second step of console-address discovery: the `@`-suffix parse repeated
/// on the alias's value, when the first step asked for an alias lookup.
pub fn console_address_from_alias(value: Option<&[u8]>) -> (addr: u32)
    ensures
        addr == spec_alias_addr(opt_bytes_view(value)),
{
    match value {
        None => SERIAL_PORT_ADDRESS,
        Some(raw) => {
            let s = strip_nuls(raw);
            match rfind_byte(s, 64) {
                Some(pos) => {
                    let n = s.len();
                    let suffix = slice_subrange(s, pos + 1, n);
                    match parse_hex32(suffix) {
                        Some(v) => v,
                        None => SERIAL_PORT_ADDRESS,
                    }
                },
                None => SERIAL_PORT_ADDRESS,
            }
        },
    }
}

/// Stripping trailing NULs keeps every non-NUL byte present.
pub proof fn lemma_strip_keeps_byte(s: Seq<u8>, b: u8)
    requires
        b != 0,
        contains_byte(s, b),
    ensures
        contains_byte(strip_trailing_nuls(s), b),
    decreases s.len(),
{
    if s.len() > 0 && s.last() == 0 {
        let i = choose|i: int| 0 <= i < s.len() && s[i] == b;
        assert(i < s.len() - 1);
        assert(s.drop_last()[i] == b);
        lemma_strip_keeps_byte(s.drop_last(), b);
    }
}

/// Stripping trailing NULs introduces no byte.
pub proof fn lemma_strip_adds_no_byte(s: Seq<u8>, b: u8)
    requires
        contains_byte(strip_trailing_nuls(s), b),
    ensures
        contains_byte(s, b),
    decreases s.len(),
{
    if s.len() > 0 && s.last() == 0 {
        lemma_strip_adds_no_byte(s.drop_last(), b);
        let i = choose|i: int| 0 <= i < s.drop_last().len() && s.drop_last()[i] == b;
        assert(s[i] == b);
    }
}

/// A property string holding an `@` resolves to the base-16 value of the
/// text after its last `@` (trailing NULs stripped), and to the default
/// address whenever that text is not a base-16 32-bit integer.
pub proof fn lemma_at_suffix_governs(prop: Seq<u8>)
    requires
        contains_byte(prop, 64),
    ensures
        ({
            let s = strip_trailing_nuls(prop);
            let suffix = s.subrange(last_index_of(s, 64) + 1, s.len() as int);
            spec_console_query(Some(prop)) == ConsoleQueryModel::Resolved(
                match parse_hex_u32(suffix) {
                    Some(v) => v,
                    None => SERIAL_PORT_ADDRESS,
                },
            )
        }),
{
    lemma_strip_keeps_byte(prop, 64);
}

/// A property of form `alias:rest` without an `@` asks for the alias's
/// value, and an alias value whose `@`-suffix parses as base-16 resolves to
/// exactly that value.
pub proof fn lemma_alias_resolution(prop: Seq<u8>, alias_value: Seq<u8>, v: u32)
    requires
        !contains_byte(prop, 64),
        contains_byte(prop, 58),
        ({
            let a = strip_trailing_nuls(alias_value);
            contains_byte(a, 64) && parse_hex_u32(
                a.subrange(last_index_of(a, 64) + 1, a.len() as int),
            ) == Some(v)
        }),
    ensures
        spec_console_query(Some(prop)) == ConsoleQueryModel::NeedsAlias(
            strip_trailing_nuls(prop).subrange(
                0,
                first_index_of(strip_trailing_nuls(prop), 58),
            ),
        ),
        spec_alias_addr(Some(alias_value)) == v,
{
    if contains_byte(strip_trailing_nuls(prop), 64) {
        lemma_strip_adds_no_byte(prop, 64);
    }
    lemma_strip_keeps_byte(prop, 58);
}

/// An absent `stdout-path` property resolves to exactly the default
/// address.
pub proof fn lemma_absent_property_default()
    ensures
        spec_console_query(None) == ConsoleQueryModel::Resolved(SERIAL_PORT_ADDRESS),
{
}

/// The boot console: owns exactly one serial driver instance; created once
/// at boot, replaced rather than mutated when the kernel relocates the
/// device mapping.
pub struct Console {
    stdout: SerialPort,
}

impl Console {
    /// Bytes emitted through the active driver, as they appeared on the
    /// wire.
    pub closed spec fn transmitted(&self) -> Seq<u8> {
        self.stdout.transmitted()
    }

    /// Address of the active driver's register block.
    pub closed spec fn addr_spec(&self) -> u32 {
        self.stdout.addr_spec()
    }

    /// The active driver's status register reports the transmit buffer
    /// full.
    pub closed spec fn tx_blocked(&self) -> bool {
        self.stdout.tx_blocked()
    }

    /// Take ownership of the driver that will carry console output.
    pub fn new(stdout: SerialPort) -> (r: Console)
        ensures
            r.transmitted() == stdout.transmitted(),
            r.addr_spec() == stdout.addr_spec(),
            r.tx_blocked() == stdout.tx_blocked(),
    {
        Console { stdout }
    }

    /// Emit bytes best-effort: failures beyond the retry bound are absorbed
    /// by the driver's reset-and-continue policy, never surfaced.
    pub fn write_bytes(&mut self, bytes: &[u8])
        ensures
            final(self).addr_spec() == old(self).addr_spec(),
            final(self).tx_blocked() == old(self).tx_blocked(),
            !old(self).tx_blocked() ==> final(self).transmitted() == old(self).transmitted()
                + crlf_expand(bytes@),
            old(self).tx_blocked() ==> final(self).transmitted() == old(self).transmitted(),
    {
        self.stdout.putstr(bytes);
    }

    /// The active driver's configured address, for diagnostics and handoff.
    pub fn get_stdout(&self) -> (r: u32)
        ensures
            r == self.addr_spec(),
            r != 0,
    {
        self.stdout.get_addr()
    }

    /// Replace the owned driver with a fresh one at `stdout` and initialize
    /// it: used when the kernel changes the device's address-space mapping.
    pub fn set_stdout(&mut self, stdout: u32)
        requires
            stdout != 0,
        ensures
            final(self).addr_spec() == stdout,
            final(self).transmitted() == Seq::<u8>::empty(),
            !final(self).tx_blocked(),
    {
        self.stdout = SerialPort::Qemu(QemuSerial::from_addr(PhysicalAddress::from_nonzero(
            stdout,
        )));
        self.stdout.init();
    }

    /// Wait until the active driver reports no byte in flight.
    pub fn wait_empty(&mut self)
        ensures
            final(self).addr_spec() == old(self).addr_spec(),
            final(self).transmitted() == old(self).transmitted(),
            final(self).tx_blocked() == old(self).tx_blocked(),
    {
        self.stdout.wait_empty();
    }
}

impl Default for Console {
    /// A console on the default UART address, used when discovery has not
    /// run or has nothing better.
    fn default() -> (r: Console)
        ensures
            r.addr_spec() == SERIAL_PORT_ADDRESS,
            r.transmitted() == Seq::<u8>::empty(),
            !r.tx_blocked(),
    {
        let mut port = SerialPort::Qemu(QemuSerial::from_addr(PhysicalAddress::from_nonzero(
            SERIAL_PORT_ADDRESS,
        )));
        port.init();
        Console { stdout: port }
    }
}

} // verus!
