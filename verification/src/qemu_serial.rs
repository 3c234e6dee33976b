//! Serial driver for the UART of Qemu's `virt` machine: a single byte-wide
//! output register, no configuration, no backpressure.
//!
//! The register block is modeled as owned state. On hardware the register is
//! reached through volatile accesses to the mapped address; that binding
//! cannot stand in verified code, so the driver here works on the register
//! image, and the MMIO binding mirrors it outside the library.

use vstd::prelude::*;

use crate::drivers::{crlf_expand, lemma_crlf_expand_snoc, PhysicalAddress, SerialDriver, SerialSuccess};

verus! {

/// Register block of the emulated UART: one byte-wide output register.
#[derive(Clone, Copy, PartialEq, Eq, Structural, Debug)]
pub struct QemuPort {
    /// The output register; holds the byte written last.
    pub out: u8,
}

/// Driver instance owning its register block image.
pub struct QemuSerial {
    /// Base address the register block is mapped at.
    pub addr: PhysicalAddress,
    /// Image of the device's register block.
    pub port: QemuPort,
    /// Wire transcript: bytes pushed through the output register, oldest
    /// first.
    pub transmitted: Vec<u8>,
}

impl QemuSerial {
    /// Construct a driver for the register block mapped at `base_addr`.
    pub fn from_addr(base_addr: PhysicalAddress) -> (r: QemuSerial)
        ensures
            r.addr == base_addr,
            r.port == (QemuPort { out: 0 }),
            r.transmitted@ == Seq::<u8>::empty(),
    {
        QemuSerial { addr: base_addr, port: QemuPort { out: 0 }, transmitted: Vec::new() }
    }
}

impl SerialDriver for QemuSerial {
    open spec fn transmitted(&self) -> Seq<u8> {
        self.transmitted@
    }

    open spec fn addr_spec(&self) -> u32 {
        self.addr.value()
    }

    /// The emulated device accepts every byte: it never reports a full
    /// transmit buffer.
    open spec fn tx_blocked(&self) -> bool {
        false
    }

    /// The emulated device needs no configuration: nothing is read or
    /// written and no observable state changes.
    fn init(&mut self)
        ensures
            final(self).addr == old(self).addr,
            final(self).port == old(self).port,
            final(self).transmitted@ == old(self).transmitted@,
    {
    }

    /// The emulated device needs no baud configuration.
    fn set_baud(&self, baud_rate: u32) {
    }

    fn putc(&mut self, c: u8) -> (r: SerialSuccess<u8>)
        ensures
            final(self).addr == old(self).addr,
            final(self).port == (QemuPort { out: c }),
            final(self).transmitted@ == old(self).transmitted@.push(c),
            r == SerialSuccess::Success(c),
    {
        self.port.out = c;
        self.transmitted.push(c);
        SerialSuccess::Success(c)
    }

    /// Receiving is not wired up on this path: a fixed placeholder byte
    /// comes back.
    fn getc(&self) -> (r: SerialSuccess<u8>)
        ensures
            r == SerialSuccess::<u8>::Success(65u8),
    {
        SerialSuccess::Success(65)
    }

    fn putstr(&mut self, s: &[u8])
        ensures
            final(self).addr == old(self).addr,
            final(self).transmitted@ == old(self).transmitted@ + crlf_expand(s@),
    {
        let mut i: usize = 0;
        while i < s.len()
            invariant
                i <= s.len(),
                self.addr == old(self).addr,
                self.transmitted@ == old(self).transmitted@ + crlf_expand(s@.take(i as int)),
            decreases s.len() - i,
        {
            let c = s[i];
            if c == 10 {
                let _ = self.putc(13);
            }
            let _ = self.putc(c);
            proof {
                lemma_crlf_expand_snoc(s@, i as int);
            }
            i = i + 1;
        }
        proof {
            assert(s@.take(s@.len() as int) =~= s@);
        }
    }

    fn get_addr(&self) -> (r: u32) {
        self.addr.get()
    }

    /// The emulated device transmits immediately: there is never a byte in
    /// flight to wait for.
    fn wait_empty(&mut self)
        ensures
            final(self).addr == old(self).addr,
            final(self).port == old(self).port,
            final(self).transmitted@ == old(self).transmitted@,
    {
    }
}

} // verus!
