//! Serial driver for the Zynq (Xlnx) UART: a register block with control,
//! mode, status and FIFO registers, and real transmit backpressure.
//!
//! The register block is modeled as owned state: the driver reads and writes
//! the image exactly as it would the memory-mapped registers. The status
//! register is written by the hardware alone; the driver only reads it, so
//! tests and the surrounding system set `channel_sts` to reproduce hardware
//! conditions. On hardware every access goes through volatile reads and
//! writes, preceded by data/memory barriers before status reads; that binding
//! cannot stand in verified code and mirrors this driver outside the library.

use vstd::prelude::*;

use crate::drivers::{crlf_expand, lemma_crlf_expand_snoc, PhysicalAddress, SerialDriver, SerialSuccess};

verus! {

/// Status register: a transmission is underway.
pub const ZYNQ_UART_SR_TXACTIVE: u32 = 1u32 << 11;

/// Status register: the transmit buffer is full.
pub const ZYNQ_UART_SR_TXFULL: u32 = 1u32 << 4;

/// Status register: the transmit buffer is empty.
pub const ZYNQ_UART_SR_TXEMPTY: u32 = 1u32 << 3;

/// Control register: transmitter enable.
pub const ZYNQ_UART_CR_TX_EN: u32 = 1u32 << 4;

/// Control register: receiver enable.
pub const ZYNQ_UART_CR_RX_EN: u32 = 1u32 << 2;

/// Control register: transmitter reset.
pub const ZYNQ_UART_CR_TXRST: u32 = 1u32 << 1;

/// Control register: receiver reset.
pub const ZYNQ_UART_CR_RXRST: u32 = 1u32 << 0;

/// Mode register: no parity.
pub const ZYNQ_UART_MR_PARITY_NONE: u32 = 0x00000020;

/// What `init` writes to the control register: reset and re-enable both
/// directions in one store.
pub const ZYNQ_UART_CR_INIT: u32 = ZYNQ_UART_CR_TX_EN | ZYNQ_UART_CR_RX_EN | ZYNQ_UART_CR_TXRST
    | ZYNQ_UART_CR_RXRST;

/// Bound on transmit attempts for one byte before the controller is treated
/// as stuck and reset.
pub const PUTC_RETRY_LIMIT: u32 = 1000;

/// Image of the Zynq UART register block.
#[derive(Clone, Copy, PartialEq, Eq, Structural, Debug)]
pub struct XlnxRegisters {
    /// Control register.
    pub control: u32,
    /// Mode register.
    pub mode: u32,
    /// Baud rate generator register.
    pub baud_rate_gen: u32,
    /// Channel status register; written by the hardware, only read here.
    pub channel_sts: u32,
    /// Transmit/receive FIFO register; holds the byte pushed last.
    pub tx_rx_fifo: u32,
    /// Baud rate divider register.
    pub baud_rate_divider: u32,
}

/// The status register reports the transmit buffer full.
pub open spec fn xlnx_tx_full(status: u32) -> bool {
    status & ZYNQ_UART_SR_TXFULL != 0
}

/// An attempted transmit would be accepted: the transmit buffer is not full.
pub fn xlnx_tx_ready(status: u32) -> (r: bool)
    ensures
        r == !xlnx_tx_full(status),
{
    status & ZYNQ_UART_SR_TXFULL == 0
}

/// The status register reports the transmitter idle: no transmission active
/// and the empty flag clear, so no byte is in flight. The decision for the
/// idle-wait spin that the memory-mapped binding runs.
pub fn xlnx_tx_idle(status: u32) -> (r: bool)
    ensures
        r == (status & ZYNQ_UART_SR_TXACTIVE == 0 && status & ZYNQ_UART_SR_TXEMPTY == 0),
{
    status & ZYNQ_UART_SR_TXACTIVE == 0 && status & ZYNQ_UART_SR_TXEMPTY == 0
}

/// Driver instance owning its register block image.
pub struct XlnxSerial {
    /// Base address the register block is mapped at.
    pub addr: PhysicalAddress,
    /// Image of the device's register block.
    pub regs: XlnxRegisters,
    /// Wire transcript: bytes pushed through the FIFO register, oldest
    /// first.
    pub transmitted: Vec<u8>,
}

impl XlnxSerial {
    /// Construct a driver for the register block mapped at `base_addr`.
    pub fn from_addr(base_addr: PhysicalAddress) -> (r: XlnxSerial)
        ensures
            r.addr == base_addr,
            r.regs == (XlnxRegisters {
                control: 0,
                mode: 0,
                baud_rate_gen: 0,
                channel_sts: 0,
                tx_rx_fifo: 0,
                baud_rate_divider: 0,
            }),
            r.transmitted@ == Seq::<u8>::empty(),
    {
        XlnxSerial {
            addr: base_addr,
            regs: XlnxRegisters {
                control: 0,
                mode: 0,
                baud_rate_gen: 0,
                channel_sts: 0,
                tx_rx_fifo: 0,
                baud_rate_divider: 0,
            },
            transmitted: Vec::new(),
        }
    }

    /// Transmit one byte under the bounded retry discipline: attempt `putc`
    /// up to `PUTC_RETRY_LIMIT` times; on exhaustion reset the controller and
    /// poll the status register before giving the byte up.
    fn put_byte_with_recovery(&mut self, c: u8)
        ensures
            final(self).addr == old(self).addr,
            final(self).regs.channel_sts == old(self).regs.channel_sts,
            final(self).regs.baud_rate_gen == old(self).regs.baud_rate_gen,
            final(self).regs.baud_rate_divider == old(self).regs.baud_rate_divider,
            !xlnx_tx_full(old(self).regs.channel_sts) ==> final(self).transmitted@ == old(self).transmitted@.push(c) && final(self).regs == (XlnxRegisters {
                tx_rx_fifo: c as u32,
                ..old(self).regs
            }),
            xlnx_tx_full(old(self).regs.channel_sts) ==> final(self).transmitted@ == old(self).transmitted@ && final(self).regs == (XlnxRegisters {
                control: ZYNQ_UART_CR_INIT,
                mode: ZYNQ_UART_MR_PARITY_NONE,
                ..old(self).regs
            }),
    {
        let mut attempt: u32 = 0;
        while attempt < PUTC_RETRY_LIMIT
            invariant
                self.addr == old(self).addr,
                self.regs == old(self).regs,
                self.transmitted@ == old(self).transmitted@,
                xlnx_tx_full(self.regs.channel_sts) || attempt == 0,
            ensures
                self.addr == old(self).addr,
                xlnx_tx_full(self.regs.channel_sts),
                self.regs == old(self).regs,
                self.transmitted@ == old(self).transmitted@,
            decreases PUTC_RETRY_LIMIT - attempt,
        {
            match self.putc(c) {
                SerialSuccess::Success(_) => {
                    return ;
                },
                SerialSuccess::ERetry => {
                    attempt = attempt + 1;
                },
            }
        }
        // Every attempt reported a full buffer: treat the controller as
        // stuck, reset it, and wait for the status register to settle.
        self.init();
        self.poll_until_settled();
    }

    /// Bounded poll of the status register after a reset, standing for the
    /// wait-until-idle spin. On hardware the flags clear as the FIFO drains;
    /// the register image here changes only when the environment writes it,
    /// so the poll is bounded instead of open-ended.
    fn poll_until_settled(&mut self)
        ensures
            final(self).addr == old(self).addr,
            final(self).regs == old(self).regs,
            final(self).transmitted@ == old(self).transmitted@,
    {
        let mut attempt: u32 = 0;
        while attempt < PUTC_RETRY_LIMIT && self.regs.channel_sts & ZYNQ_UART_SR_TXEMPTY != 0
            invariant
                self.addr == old(self).addr,
                self.regs == old(self).regs,
                self.transmitted@ == old(self).transmitted@,
            decreases PUTC_RETRY_LIMIT - attempt,
        {
            attempt = attempt + 1;
        }
    }
}

impl SerialDriver for XlnxSerial {
    open spec fn transmitted(&self) -> Seq<u8> {
        self.transmitted@
    }

    open spec fn addr_spec(&self) -> u32 {
        self.addr.value()
    }

    open spec fn tx_blocked(&self) -> bool {
        xlnx_tx_full(self.regs.channel_sts)
    }

    /// Reset and re-enable both directions, then select no parity.
    fn init(&mut self)
        ensures
            final(self).addr == old(self).addr,
            final(self).transmitted@ == old(self).transmitted@,
            final(self).regs == (XlnxRegisters {
                control: ZYNQ_UART_CR_INIT,
                mode: ZYNQ_UART_MR_PARITY_NONE,
                ..old(self).regs
            }),
    {
        self.regs.control = ZYNQ_UART_CR_INIT;
        self.regs.mode = ZYNQ_UART_MR_PARITY_NONE;
    }

    /// Baud configuration is left to firmware on this controller.
    fn set_baud(&self, baud_rate: u32) {
    }

    /// Check the status register's full flag; when set, return `ERetry`
    /// without touching the FIFO register, otherwise push the byte into the
    /// FIFO. On hardware a data and a memory synchronization barrier precede
    /// the status read so that it cannot observe stale cached state.
    fn putc(&mut self, c: u8) -> (r: SerialSuccess<u8>)
        ensures
            final(self).addr == old(self).addr,
            xlnx_tx_full(old(self).regs.channel_sts) ==> r is ERetry && final(self).regs == old(self).regs && final(self).transmitted@ == old(self).transmitted@,
            !xlnx_tx_full(old(self).regs.channel_sts) ==> r == SerialSuccess::Success(c) && final(self).regs == (XlnxRegisters { tx_rx_fifo: c as u32, ..old(self).regs }) && final(self).transmitted@ == old(self).transmitted@.push(c),
    {
        if self.regs.channel_sts & ZYNQ_UART_SR_TXFULL != 0 {
            return SerialSuccess::ERetry;
        }
        self.regs.tx_rx_fifo = c as u32;
        self.transmitted.push(c);
        SerialSuccess::Success(c)
    }

    /// Receiving is not wired up on this path: a fixed placeholder byte
    /// comes back.
    fn getc(&self) -> (r: SerialSuccess<u8>)
        ensures
            r == SerialSuccess::<u8>::Success(65u8),
    {
        SerialSuccess::Success(65)
    }

    /// Iterate the input; transmit a carriage return before every line feed;
    /// move each byte with the bounded retry-then-reset discipline of
    /// `put_byte_with_recovery`.
    fn putstr(&mut self, s: &[u8])
        ensures
            final(self).addr == old(self).addr,
            final(self).regs.channel_sts == old(self).regs.channel_sts,
            final(self).regs.baud_rate_gen == old(self).regs.baud_rate_gen,
            final(self).regs.baud_rate_divider == old(self).regs.baud_rate_divider,
            !xlnx_tx_full(old(self).regs.channel_sts) ==> final(self).regs.control == old(self).regs.control && final(self).regs.mode == old(self).regs.mode,
            xlnx_tx_full(old(self).regs.channel_sts) && s@.len() > 0 ==> final(self).regs.control == ZYNQ_UART_CR_INIT && final(self).regs.mode == ZYNQ_UART_MR_PARITY_NONE,
            xlnx_tx_full(old(self).regs.channel_sts) && s@.len() == 0 ==> final(self).regs == old(self).regs,
    {
        let mut i: usize = 0;
        while i < s.len()
            invariant
                i <= s.len(),
                self.addr == old(self).addr,
                self.regs.channel_sts == old(self).regs.channel_sts,
                self.regs.baud_rate_gen == old(self).regs.baud_rate_gen,
                self.regs.baud_rate_divider == old(self).regs.baud_rate_divider,
                !xlnx_tx_full(old(self).regs.channel_sts) ==> self.transmitted@ == old(self).transmitted@ + crlf_expand(s@.take(i as int)) && self.regs.control == old(self).regs.control && self.regs.mode == old(self).regs.mode,
                xlnx_tx_full(old(self).regs.channel_sts) ==> self.transmitted@ == old(self).transmitted@,
                xlnx_tx_full(old(self).regs.channel_sts) && i == 0 ==> self.regs == old(self).regs,
                xlnx_tx_full(old(self).regs.channel_sts) && i > 0 ==> self.regs.control == ZYNQ_UART_CR_INIT && self.regs.mode == ZYNQ_UART_MR_PARITY_NONE,
            decreases s.len() - i,
        {
            let c = s[i];
            if c == 10 {
                self.put_byte_with_recovery(13);
            }
            self.put_byte_with_recovery(c);
            proof {
                lemma_crlf_expand_snoc(s@, i as int);
            }
            i = i + 1;
        }
        proof {
            assert(s@.take(s@.len() as int) =~= s@);
        }
    }

    fn get_addr(&self) -> (r: u32) {
        self.addr.get()
    }

    /// Poll the status register until neither a transmission is active nor
    /// the empty flag is set, bounded as in `poll_until_settled`.
    fn wait_empty(&mut self)
        ensures
            final(self).regs == old(self).regs,
    {
        let mut attempt: u32 = 0;
        while attempt < PUTC_RETRY_LIMIT && self.regs.channel_sts & ZYNQ_UART_SR_TXACTIVE != 0
            invariant
                self.addr == old(self).addr,
                self.regs == old(self).regs,
                self.transmitted@ == old(self).transmitted@,
            decreases PUTC_RETRY_LIMIT - attempt,
        {
            attempt = attempt + 1;
        }
        let mut attempt2: u32 = 0;
        while attempt2 < PUTC_RETRY_LIMIT && self.regs.channel_sts & ZYNQ_UART_SR_TXEMPTY != 0
            invariant
                self.addr == old(self).addr,
                self.regs == old(self).regs,
                self.transmitted@ == old(self).transmitted@,
            decreases PUTC_RETRY_LIMIT - attempt2,
        {
            attempt2 = attempt2 + 1;
        }
    }
}

} // verus!
