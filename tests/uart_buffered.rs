use zephyr::kernel::KernelState;
use zephyr::kobj::ThreadId;
use zephyr::poll::PollTarget;
use zephyr::reactor::Reactor;
use zephyr::time::Timeout;
use zephyr::uart_buffered::{UartBufferedRx, UartBufferedTx};

#[test]
fn rx_read_nb_moves_what_fits() {
    let mut k = KernelState::new(ThreadId(1));
    let s = k.define_signal();
    let mut rx = UartBufferedRx::new(s);
    let mut buf = [0u8; 3];
    assert_eq!(rx.read_nb(&mut buf), None);
    for b in [1u8, 2, 3, 4, 5] {
        rx.receive(&mut k, b);
    }
    assert_eq!(k.signal_check(s), Some(0));
    assert_eq!(rx.read_nb(&mut buf), Some(3));
    assert_eq!(buf, [1, 2, 3]);
    assert_eq!(rx.read_nb(&mut buf), Some(2));
    assert_eq!(buf, [4, 5, 3]);
    assert_eq!(rx.read_nb(&mut buf), None);
}

#[test]
fn rx_async_registers_then_wakes_on_data() {
    let mut k = KernelState::new(ThreadId(1));
    let own = k.define_signal();
    let s = k.define_signal();
    let mut reactor = Reactor::new(own);
    let mut rx = UartBufferedRx::new(s).into_async();
    let mut buf = [0u8; 4];
    k.signal_raise(s, 0);
    // Nothing queued: the stale edge is cleared and the reader registered.
    assert_eq!(rx.poll_read(&mut k, &mut reactor, &mut buf, 11), None);
    assert_eq!(k.signal_check(s), None);
    assert_eq!(reactor.wakers, vec![11]);
    assert_eq!(reactor.events[1].target, PollTarget::Signal(s));
    // Data comes in from the interrupt side before the wait.
    rx.uart.receive(&mut k, 9);
    assert_eq!(reactor.poll(&mut k, Some(Timeout(100))).unwrap(), vec![11]);
    assert_eq!(k.waits, 0);
    assert_eq!(rx.poll_read(&mut k, &mut reactor, &mut buf, 11), Some(1));
    assert_eq!(buf[0], 9);
}

#[test]
fn tx_write_nb_fills_up_to_capacity() {
    let mut k = KernelState::new(ThreadId(1));
    let s = k.define_signal();
    let mut tx = UartBufferedTx::new(4, s);
    assert_eq!(tx.write_nb(&[1, 2, 3]), Some(3));
    assert_eq!(tx.write_nb(&[4, 5, 6]), Some(1));
    assert_eq!(tx.fifo, vec![1, 2, 3, 4]);
    assert_eq!(tx.write_nb(&[7]), None);
    assert_eq!(tx.transmit(&mut k), Some(1));
    assert_eq!(k.signal_check(s), Some(0));
    assert_eq!(tx.write_nb(&[7, 8]), Some(1));
    assert_eq!(tx.fifo, vec![2, 3, 4, 7]);
}

#[test]
fn tx_async_pends_when_full() {
    let mut k = KernelState::new(ThreadId(1));
    let own = k.define_signal();
    let s = k.define_signal();
    let mut reactor = Reactor::new(own);
    let mut tx = UartBufferedTx::new(2, s).into_async();
    assert_eq!(tx.poll_write(&mut k, &mut reactor, &[1, 2, 3], 5), Some(2));
    assert_eq!(tx.poll_write(&mut k, &mut reactor, &[3], 5), None);
    assert_eq!(reactor.wakers, vec![5]);
    assert_eq!(tx.uart.transmit(&mut k), Some(1));
    assert_eq!(reactor.poll(&mut k, None).unwrap(), vec![5]);
    assert_eq!(tx.poll_write(&mut k, &mut reactor, &[3], 5), Some(1));
    assert_eq!(tx.uart.fifo, vec![2, 3]);
    assert!(tx.poll_flush());
    assert!(tx.poll_close());
}
