//! Serial-driver behavior against the register-block model.

use earlyboot::console::{Console, SERIAL_PORT_ADDRESS};
use earlyboot::drivers::{PhysicalAddress, SerialDriver, SerialPort, SerialSuccess};
use earlyboot::qemu_serial::QemuSerial;
use earlyboot::xlnx_serial::{
    xlnx_tx_idle, xlnx_tx_ready, XlnxSerial, ZYNQ_UART_CR_INIT, ZYNQ_UART_MR_PARITY_NONE,
    ZYNQ_UART_SR_TXACTIVE, ZYNQ_UART_SR_TXEMPTY, ZYNQ_UART_SR_TXFULL,
};

fn xlnx_at(addr: u32) -> XlnxSerial {
    XlnxSerial::from_addr(PhysicalAddress::new(addr).unwrap())
}

#[test]
fn address_constructor_rejects_zero() {
    assert!(PhysicalAddress::new(0).is_none());
    assert_eq!(PhysicalAddress::new(0xE0000000).unwrap().get(), 0xE0000000);
}

#[test]
fn putc_busy_when_tx_full_leaves_fifo_untouched() {
    let mut uart = xlnx_at(0xE0001000);
    uart.regs.channel_sts = ZYNQ_UART_SR_TXFULL;
    let before = uart.regs;
    let r = uart.putc(b'A');
    assert!(matches!(r, SerialSuccess::ERetry));
    assert_eq!(uart.regs, before);
    assert!(uart.transmitted.is_empty());
}

#[test]
fn putc_delivers_when_tx_not_full() {
    let mut uart = xlnx_at(0xE0001000);
    uart.regs.channel_sts = 0;
    let r = uart.putc(b'A');
    assert!(matches!(r, SerialSuccess::Success(65)));
    assert_eq!(uart.regs.tx_rx_fifo, 65);
    assert_eq!(uart.transmitted, vec![65u8]);
}

#[test]
fn putstr_inserts_cr_before_lf() {
    let mut uart = xlnx_at(0xE0001000);
    uart.putstr(b"hi\n");
    assert_eq!(uart.transmitted, vec![b'h', b'i', b'\r', b'\n']);
}

#[test]
fn putstr_on_stuck_controller_resets_and_drops() {
    let mut uart = xlnx_at(0xE0001000);
    uart.regs.channel_sts = ZYNQ_UART_SR_TXFULL;
    uart.putstr(b"a");
    assert!(uart.transmitted.is_empty());
    assert_eq!(uart.regs.control, ZYNQ_UART_CR_INIT);
    assert_eq!(uart.regs.mode, ZYNQ_UART_MR_PARITY_NONE);
}

#[test]
fn init_writes_control_and_mode() {
    let mut uart = xlnx_at(0xE0001000);
    uart.init();
    assert_eq!(uart.regs.control, ZYNQ_UART_CR_INIT);
    assert_eq!(uart.regs.mode, ZYNQ_UART_MR_PARITY_NONE);
}

#[test]
fn wait_empty_returns_even_when_flags_stay_set() {
    let mut uart = xlnx_at(0xE0001000);
    uart.regs.channel_sts = ZYNQ_UART_SR_TXACTIVE;
    uart.wait_empty();
    assert_eq!(uart.regs.channel_sts, ZYNQ_UART_SR_TXACTIVE);
}

#[test]
fn qemu_putc_always_delivers() {
    let mut uart = QemuSerial::from_addr(PhysicalAddress::new(SERIAL_PORT_ADDRESS).unwrap());
    let r = uart.putc(b'x');
    assert!(matches!(r, SerialSuccess::Success(b'x')));
    assert_eq!(uart.port.out, b'x');
    assert_eq!(uart.transmitted, vec![b'x']);
}

#[test]
fn qemu_putstr_expands_newlines_too() {
    let mut uart = QemuSerial::from_addr(PhysicalAddress::new(SERIAL_PORT_ADDRESS).unwrap());
    uart.putstr(b"a\nb");
    assert_eq!(uart.transmitted, vec![b'a', b'\r', b'\n', b'b']);
}

#[test]
fn getc_returns_fixed_byte() {
    let uart = xlnx_at(0xE0001000);
    assert!(matches!(uart.getc(), SerialSuccess::Success(65)));
}

#[test]
fn serial_port_dispatches_to_variant() {
    let mut port = SerialPort::Xlnx(xlnx_at(0xE0001000));
    port.putstr(b"ok");
    assert_eq!(port.get_addr(), 0xE0001000);
    match port {
        SerialPort::Xlnx(x) => assert_eq!(x.transmitted, vec![b'o', b'k']),
        SerialPort::Qemu(_) => panic!("variant changed"),
    }
}

#[test]
fn console_default_uses_default_address() {
    let console = Console::default();
    assert_eq!(console.get_stdout(), SERIAL_PORT_ADDRESS);
}

#[test]
fn console_set_stdout_replaces_driver() {
    let mut console = Console::default();
    console.write_bytes(b"boot\n");
    console.set_stdout(0x1234_5678);
    assert_eq!(console.get_stdout(), 0x1234_5678);
    console.write_bytes(b"again");
    console.wait_empty();
}

#[test]
fn console_owns_given_driver() {
    let console = Console::new(SerialPort::Qemu(QemuSerial::from_addr(
        PhysicalAddress::new(0x4000).unwrap(),
    )));
    assert_eq!(console.get_stdout(), 0x4000);
}

#[test]
fn idle_and_ready_decisions() {
    assert!(xlnx_tx_idle(0));
    assert!(!xlnx_tx_idle(ZYNQ_UART_SR_TXACTIVE));
    assert!(!xlnx_tx_idle(ZYNQ_UART_SR_TXEMPTY));
    assert!(xlnx_tx_ready(0));
    assert!(!xlnx_tx_ready(ZYNQ_UART_SR_TXFULL));
}
