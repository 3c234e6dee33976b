//! Common serial-driver interface shared by the UART hardware variants.

use vstd::prelude::*;

use crate::qemu_serial::{QemuPort, QemuSerial};
use crate::xlnx_serial::{
    xlnx_tx_full, XlnxRegisters, XlnxSerial, ZYNQ_UART_CR_INIT, ZYNQ_UART_MR_PARITY_NONE,
};

verus! {

/// Outcome of a transmit attempt. `ERetry` is not an error: it reports that
/// the hardware transmit buffer is full, an expected and recoverable form of
/// backpressure.
pub enum SerialSuccess<T> {
    Success(T),
    ERetry,
}

/// A non-zero 32-bit physical hardware address: the base of a UART register
/// block, or an address embedded in a PCI base address register.
#[derive(Clone, Copy)]
pub struct PhysicalAddress {
    val: u32,
}

impl PhysicalAddress {
    #[verifier::type_invariant]
    spec fn type_inv(self) -> bool {
        self.val != 0
    }

    /// The address as a plain integer.
    pub closed spec fn value(self) -> u32 {
        self.val
    }

    /// Constructors reject zero: a zero address never names hardware.
    pub fn new(addr: u32) -> (r: Option<PhysicalAddress>)
        ensures
            addr != 0 ==> (r matches Some(p) && p.value() == addr),
            addr == 0 ==> r is None,
    {
        if addr == 0 {
            None
        } else {
            Some(PhysicalAddress { val: addr })
        }
    }

    /// Constructor for addresses already known to be non-zero.
    pub fn from_nonzero(addr: u32) -> (r: PhysicalAddress)
        requires
            addr != 0,
        ensures
            r.value() == addr,
    {
        PhysicalAddress { val: addr }
    }

    pub fn get(&self) -> (r: u32)
        ensures
            r == self.value(),
            r != 0,
    {
        proof {
            use_type_invariant(self);
        }
        self.val
    }
}

/// The byte stream as it appears on the wire: every line feed is preceded by
/// a carriage return, inserted by `putstr`, since the hardware performs no
/// newline translation.
pub open spec fn crlf_expand(s: Seq<u8>) -> Seq<u8>
    decreases s.len(),
{
    if s.len() == 0 {
        Seq::empty()
    } else {
        (if s[0] == 10 {
            seq![13u8, 10u8]
        } else {
            seq![s[0]]
        }) + crlf_expand(s.drop_first())
    }
}

/// On the wire, a line feed is always immediately preceded by a carriage
/// return: `putstr` transmits `\r` directly before every `\n`.
pub proof fn lemma_crlf_cr_before_lf(s: Seq<u8>, i: int)
    requires
        0 <= i < crlf_expand(s).len(),
        crlf_expand(s)[i] == 10,
    ensures
        i > 0,
        crlf_expand(s)[i - 1] == 13,
    decreases s.len(),
{
    let head: Seq<u8> = if s[0] == 10 {
        seq![13u8, 10u8]
    } else {
        seq![s[0]]
    };
    let rest = crlf_expand(s.drop_first());
    if i < head.len() {
        assert(crlf_expand(s)[i] == head[i]);
        assert(s[0] == 10 && i == 1) by {
            if s[0] == 10 {
                assert(head[0] == 13);
            } else {
                assert(head[0] == s[0]);
            }
        }
        assert(crlf_expand(s)[0] == head[0]);
    } else {
        assert(crlf_expand(s)[i] == rest[i - head.len()]);
        lemma_crlf_cr_before_lf(s.drop_first(), i - head.len());
        assert(i - head.len() > 0);
        assert(crlf_expand(s)[i - 1] == rest[i - head.len() - 1]);
    }
}

/// Appending one input byte extends the wire image by that byte, with a
/// carriage return inserted before a line feed.
pub proof fn lemma_crlf_expand_snoc(s: Seq<u8>, i: int)
    requires
        0 <= i < s.len(),
    ensures
        crlf_expand(s.take(i + 1)) == crlf_expand(s.take(i)) + (if s[i] == 10 {
            seq![13u8, 10u8]
        } else {
            seq![s[i]]
        }),
    decreases i,
{
    let t1 = s.take(i + 1);
    let t0 = s.take(i);
    if i == 0 {
        assert(t1 =~= seq![s[0]]);
        assert(t0 =~= Seq::<u8>::empty());
        assert(t1.drop_first() =~= Seq::<u8>::empty());
        assert(crlf_expand(t0) + (if s[0] == 10 {
            seq![13u8, 10u8]
        } else {
            seq![s[0]]
        }) =~= crlf_expand(t1));
    } else {
        lemma_crlf_expand_snoc(s.drop_first(), i - 1);
        assert(t1.drop_first() =~= s.drop_first().take(i));
        assert(t0.drop_first() =~= s.drop_first().take(i - 1));
        assert(t1[0] == s[0] && t0[0] == s[0]);
        assert(s.drop_first()[i - 1] == s[i]);
        let head: Seq<u8> = if s[0] == 10 {
            seq![13u8, 10u8]
        } else {
            seq![s[0]]
        };
        let tail: Seq<u8> = if s[i] == 10 {
            seq![13u8, 10u8]
        } else {
            seq![s[i]]
        };
        assert(crlf_expand(t1) == head + crlf_expand(s.drop_first().take(i)));
        assert(crlf_expand(t0) == head + crlf_expand(s.drop_first().take(i - 1)));
        assert(crlf_expand(s.drop_first().take(i)) == crlf_expand(s.drop_first().take(i - 1))
            + tail);
        assert(head + (crlf_expand(s.drop_first().take(i - 1)) + tail) =~= (head + crlf_expand(
            s.drop_first().take(i - 1),
        )) + tail);
    }
}

/// The operation set shared by the UART variants. Each implementor models its
/// register block as owned state and keeps a transcript of the bytes pushed
/// through its transmit register, oldest first.
pub trait SerialDriver: Sized {
    /// Bytes that have left through the transmit register, oldest first.
    spec fn transmitted(&self) -> Seq<u8>;

    /// The configured base address of the register block.
    spec fn addr_spec(&self) -> u32;

    /// True when the status register reports the transmit buffer full, so
    /// that an attempted `putc` would return `ERetry`.
    spec fn tx_blocked(&self) -> bool;

    /// Reset and enable the controller. Configuration registers change;
    /// nothing is transmitted.
    fn init(&mut self)
        ensures
            final(self).addr_spec() == old(self).addr_spec(),
            final(self).transmitted() == old(self).transmitted(),
            final(self).tx_blocked() == old(self).tx_blocked(),
    ;

    /// Accepted on every variant; may be a no-op where the hardware needs no
    /// baud configuration.
    fn set_baud(&self, baud_rate: u32);

    /// Attempt to transmit one byte without blocking.
    fn putc(&mut self, c: u8) -> (r: SerialSuccess<u8>)
        ensures
            final(self).addr_spec() == old(self).addr_spec(),
            final(self).tx_blocked() == old(self).tx_blocked(),
            old(self).tx_blocked() ==> r is ERetry && final(self).transmitted()
                == old(self).transmitted(),
            !old(self).tx_blocked() ==> r == SerialSuccess::Success(c) && final(self).transmitted()
                == old(self).transmitted().push(c),
    ;

    /// Receive one byte.
    fn getc(&self) -> (r: SerialSuccess<u8>);

    /// Transmit a byte string with newline expansion and the bounded
    /// retry-then-reset discipline.
    fn putstr(&mut self, s: &[u8])
        ensures
            final(self).addr_spec() == old(self).addr_spec(),
            final(self).tx_blocked() == old(self).tx_blocked(),
            !old(self).tx_blocked() ==> final(self).transmitted() == old(self).transmitted()
                + crlf_expand(s@),
            old(self).tx_blocked() ==> final(self).transmitted() == old(self).transmitted(),
    ;

    /// The configured base address.
    fn get_addr(&self) -> (r: u32)
        ensures
            r == self.addr_spec(),
            r != 0,
    ;

    /// Poll the status register until no byte is in flight. Only reads.
    fn wait_empty(&mut self)
        ensures
            final(self).addr_spec() == old(self).addr_spec(),
            final(self).transmitted() == old(self).transmitted(),
            final(self).tx_blocked() == old(self).tx_blocked(),
    ;
}

/// The closed set of supported UART families, dispatched by a single match
/// per operation.
pub enum SerialPort {
    Qemu(QemuSerial),
    Xlnx(XlnxSerial),
}

impl SerialDriver for SerialPort {
    open spec fn transmitted(&self) -> Seq<u8> {
        match self {
            SerialPort::Qemu(q) => q.transmitted(),
            SerialPort::Xlnx(x) => x.transmitted(),
        }
    }

    open spec fn addr_spec(&self) -> u32 {
        match self {
            SerialPort::Qemu(q) => q.addr_spec(),
            SerialPort::Xlnx(x) => x.addr_spec(),
        }
    }

    open spec fn tx_blocked(&self) -> bool {
        match self {
            SerialPort::Qemu(q) => q.tx_blocked(),
            SerialPort::Xlnx(x) => x.tx_blocked(),
        }
    }

    /// Dispatch to the wrapped variant's `init`: the variant is kept and its
    /// registers change exactly as that variant's `init` says.
    fn init(&mut self)
        ensures
            *old(self) matches SerialPort::Qemu(q0) ==> (*final(self) matches SerialPort::Qemu(q1)
                && q1.addr == q0.addr && q1.port == q0.port && q1.transmitted@
                == q0.transmitted@),
            *old(self) matches SerialPort::Xlnx(x0) ==> (*final(self) matches SerialPort::Xlnx(x1)
                && x1.addr == x0.addr && x1.transmitted@ == x0.transmitted@ && x1.regs
                == (XlnxRegisters {
                control: ZYNQ_UART_CR_INIT,
                mode: ZYNQ_UART_MR_PARITY_NONE,
                ..x0.regs
            })),
    {
        match self {
            SerialPort::Qemu(q) => q.init(),
            SerialPort::Xlnx(x) => x.init(),
        }
    }

    fn set_baud(&self, baud_rate: u32) {
        match self {
            SerialPort::Qemu(q) => q.set_baud(baud_rate),
            SerialPort::Xlnx(x) => x.set_baud(baud_rate),
        }
    }

    /// Dispatch to the wrapped variant's `putc`: the variant is kept and the
    /// outcome and register effects are exactly that variant's.
    fn putc(&mut self, c: u8) -> (r: SerialSuccess<u8>)
        ensures
            *old(self) matches SerialPort::Qemu(q0) ==> (*final(self) matches SerialPort::Qemu(q1)
                && q1.addr == q0.addr && q1.port == (QemuPort { out: c }) && q1.transmitted@
                == q0.transmitted@.push(c)),
            *old(self) matches SerialPort::Xlnx(x0) ==> (*final(self) matches SerialPort::Xlnx(x1)
                && x1.addr == x0.addr && (xlnx_tx_full(x0.regs.channel_sts) ==> x1.regs == x0.regs
                && x1.transmitted@ == x0.transmitted@) && (!xlnx_tx_full(x0.regs.channel_sts)
                ==> x1.regs == (XlnxRegisters { tx_rx_fifo: c as u32, ..x0.regs })
                && x1.transmitted@ == x0.transmitted@.push(c))),
    {
        match self {
            SerialPort::Qemu(q) => q.putc(c),
            SerialPort::Xlnx(x) => x.putc(c),
        }
    }

    fn getc(&self) -> (r: SerialSuccess<u8>)
        ensures
            r == SerialSuccess::<u8>::Success(65u8),
    {
        match self {
            SerialPort::Qemu(q) => q.getc(),
            SerialPort::Xlnx(x) => x.getc(),
        }
    }

    /// Dispatch to the wrapped variant's `putstr`: the variant is kept, the
    /// wire sequence is that variant's, and the Xlnx retry-then-reset effects
    /// carry over.
    fn putstr(&mut self, s: &[u8])
        ensures
            *old(self) matches SerialPort::Qemu(q0) ==> (*final(self) matches SerialPort::Qemu(q1)
                && q1.addr == q0.addr && q1.transmitted@ == q0.transmitted@ + crlf_expand(s@)),
            *old(self) matches SerialPort::Xlnx(x0) ==> (*final(self) matches SerialPort::Xlnx(x1)
                && x1.addr == x0.addr && x1.regs.channel_sts == x0.regs.channel_sts
                && x1.regs.baud_rate_gen == x0.regs.baud_rate_gen && x1.regs.baud_rate_divider
                == x0.regs.baud_rate_divider && (!xlnx_tx_full(x0.regs.channel_sts)
                ==> x1.transmitted@ == x0.transmitted@ + crlf_expand(s@) && x1.regs.control
                == x0.regs.control && x1.regs.mode == x0.regs.mode) && (xlnx_tx_full(
                x0.regs.channel_sts,
            ) ==> x1.transmitted@ == x0.transmitted@ && (s@.len() > 0 ==> x1.regs.control
                == ZYNQ_UART_CR_INIT && x1.regs.mode == ZYNQ_UART_MR_PARITY_NONE) && (s@.len()
                == 0 ==> x1.regs == x0.regs))),
    {
        match self {
            SerialPort::Qemu(q) => q.putstr(s),
            SerialPort::Xlnx(x) => x.putstr(s),
        }
    }

    fn get_addr(&self) -> (r: u32) {
        match self {
            SerialPort::Qemu(q) => q.get_addr(),
            SerialPort::Xlnx(x) => x.get_addr(),
        }
    }

    /// Dispatch to the wrapped variant's `wait_empty`: the variant is kept
    /// and nothing observable changes.
    fn wait_empty(&mut self)
        ensures
            *old(self) matches SerialPort::Qemu(q0) ==> (*final(self) matches SerialPort::Qemu(q1)
                && q1.addr == q0.addr && q1.port == q0.port && q1.transmitted@
                == q0.transmitted@),
            *old(self) matches SerialPort::Xlnx(x0) ==> (*final(self) matches SerialPort::Xlnx(x1)
                && x1.addr == x0.addr && x1.regs == x0.regs && x1.transmitted@
                == x0.transmitted@),
    {
        match self {
            SerialPort::Qemu(q) => q.wait_empty(),
            SerialPort::Xlnx(x) => x.wait_empty(),
        }
    }
}

} // verus!
