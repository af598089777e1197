use vstd::prelude::*;

use crate::kernel::KernelState;
use crate::kobj::KPollSignal;
use crate::poll::{PollTarget, SignalRef};
use crate::reactor::Reactor;

verus! {

pub open spec fn min_nat(a: nat, b: nat) -> nat {
    if a <= b {
        a
    } else {
        b
    }
}

/// `v` without its first `n` items.
fn drop_front(v: &Vec<u8>, n: usize) -> (r: Vec<u8>)
    requires
        n <= v@.len(),
    ensures
        r@ == v@.subrange(n as int, v@.len() as int),
{
    let mut r: Vec<u8> = Vec::new();
    let mut i: usize = n;
    while i < v.len()
        invariant
            n <= i <= v@.len(),
            r@ == v@.subrange(n as int, i as int),
        decreases v@.len() - i,
    {
        r.push(v[i]);
        i = i + 1;
        assert(r@ =~= v@.subrange(n as int, i as int));
    }
    r
}

/// The kernel raises `signal` in `k2`, leaving the rest of `k1` as it was.
pub open spec fn raised(k1: KernelState, k2: KernelState, signal: SignalRef) -> bool {
    &&& k2.signals@ == k1.signals@.update(signal.0 as int, KPollSignal { signaled: true, result: 0 })
    &&& k2 == (KernelState { signals: k2.signals, ..k1 })
}

/// The kernel clears `signal` in `k2`, leaving the rest of `k1` as it was.
pub open spec fn cleared(k1: KernelState, k2: KernelState, signal: SignalRef) -> bool {
    &&& k2.signals@ == k1.signals@.update(
        signal.0 as int,
        KPollSignal { signaled: false, ..k1.signals@[signal.0 as int] },
    )
    &&& k2 == (KernelState { signals: k2.signals, ..k1 })
}

/// `r` is `r0` with one more slot: `waker` waiting on `signal`.
pub open spec fn registered_on(r0: Reactor, r: Reactor, signal: SignalRef, waker: u64) -> bool {
    &&& r.events@.drop_last() == r0.events@
    &&& r.events@.len() == r0.events@.len() + 1
    &&& r.events@.last().target == PollTarget::Signal(signal)
    &&& r.wakers@ == r0.wakers@.push(waker)
    &&& r.timers == r0.timers
}

/// Receive side of a buffered serial port: the bytes its interrupt handler
/// has queued, and the signal it raises whenever it queues more.
pub struct UartBufferedRx {
    pub fifo: Vec<u8>,
    pub signal: SignalRef,
}

impl UartBufferedRx {
    /// An empty receive queue that announces data through `signal`.
    pub fn new(signal: SignalRef) -> (r: UartBufferedRx)
        ensures
            r.fifo@.len() == 0,
            r.signal == signal,
    {
        UartBufferedRx { fifo: Vec::new(), signal }
    }

    /// The interrupt side: queues `byte` and raises the signal.
    pub fn receive(&mut self, k: &mut KernelState, byte: u8)
        requires
            old(k).wf(),
            old(k).valid_signal(old(self).signal),
        ensures
            final(k).wf(),
            final(self).fifo@ == old(self).fifo@.push(byte),
            final(self).signal == old(self).signal,
            raised(*old(k), *final(k), old(self).signal),
    {
        self.fifo.push(byte);
        k.signal_raise(self.signal, 0);
    }

    /// Reads without waiting: `None` where nothing is queued, else the number
    /// of bytes moved to the front of `buf`, as many as are queued and fit.
    pub fn read_nb(&mut self, buf: &mut [u8]) -> (r: Option<usize>)
        ensures
            final(self).signal == old(self).signal,
            final(buf)@.len() == old(buf)@.len(),
            old(self).fifo@.len() == 0 ==> r is None && final(self).fifo@ == old(self).fifo@
                && final(buf)@ == old(buf)@,
            old(self).fifo@.len() > 0 ==> (r matches Some(n) && {
                &&& n == min_nat(old(self).fifo@.len(), old(buf)@.len())
                &&& final(buf)@.subrange(0, n as int) == old(self).fifo@.subrange(0, n as int)
                &&& final(buf)@.subrange(n as int, old(buf)@.len() as int) == old(buf)@.subrange(
                    n as int,
                    old(buf)@.len() as int,
                )
                &&& final(self).fifo@ == old(self).fifo@.subrange(
                    n as int,
                    old(self).fifo@.len() as int,
                )
            }),
    {
        if self.fifo.len() == 0 {
            return None;
        }
        let n = if self.fifo.len() <= buf.len() {
            self.fifo.len()
        } else {
            buf.len()
        };
        let mut i: usize = 0;
        while i < n
            invariant
                0 <= i <= n,
                n <= self.fifo@.len(),
                n <= buf@.len(),
                buf@.len() == old(buf)@.len(),
                *self == *old(self),
                forall|j: int| 0 <= j < i ==> buf@[j] == self.fifo@[j],
                forall|j: int| i <= j < buf@.len() ==> buf@[j] == old(buf)@[j],
            decreases n - i,
        {
            buf[i] = self.fifo[i];
            i = i + 1;
        }
        assert(buf@.subrange(0, n as int) =~= old(self).fifo@.subrange(0, n as int));
        assert(buf@.subrange(n as int, buf@.len() as int) =~= old(buf)@.subrange(
            n as int,
            old(buf)@.len() as int,
        ));
        self.fifo = drop_front(&self.fifo, n);
        Some(n)
    }

    /// The signal to wait on for data.
    pub fn get_signal(&self) -> (r: SignalRef)
        ensures
            r == self.signal,
    {
        self.signal
    }

    pub fn into_async(self) -> (r: UartBufferedRxAsync)
        ensures
            r.uart == self,
    {
        UartBufferedRxAsync::new(self)
    }
}

/// Transmit side of a buffered serial port: the bytes waiting for its
/// interrupt handler, at most `capacity`, and the signal it raises whenever
/// it frees room.
pub struct UartBufferedTx {
    pub fifo: Vec<u8>,
    pub capacity: usize,
    pub signal: SignalRef,
}

impl UartBufferedTx {
    /// An empty transmit queue of `capacity` bytes that announces room
    /// through `signal`.
    pub fn new(capacity: usize, signal: SignalRef) -> (r: UartBufferedTx)
        ensures
            r.fifo@.len() == 0,
            r.capacity == capacity,
            r.signal == signal,
    {
        UartBufferedTx { fifo: Vec::new(), capacity, signal }
    }

    /// The interrupt side: sends the oldest queued byte, if any, and raises
    /// the signal.
    pub fn transmit(&mut self, k: &mut KernelState) -> (r: Option<u8>)
        requires
            old(k).wf(),
            old(k).valid_signal(old(self).signal),
        ensures
            final(k).wf(),
            final(self).capacity == old(self).capacity,
            final(self).signal == old(self).signal,
            old(self).fifo@.len() == 0 ==> r is None && final(self).fifo@ == old(self).fifo@
                && *final(k) == *old(k),
            old(self).fifo@.len() > 0 ==> r == Some(old(self).fifo@[0]) && final(self).fifo@ == old(
                self,
            ).fifo@.subrange(1, old(self).fifo@.len() as int) && raised(
                *old(k),
                *final(k),
                old(self).signal,
            ),
    {
        if self.fifo.len() == 0 {
            return None;
        }
        let b = self.fifo[0];
        self.fifo = drop_front(&self.fifo, 1);
        k.signal_raise(self.signal, 0);
        Some(b)
    }

    /// Writes without waiting: `None` where the queue is full, else the
    /// number of bytes taken from the front of `buf`, as many as fit.
    pub fn write_nb(&mut self, buf: &[u8]) -> (r: Option<usize>)
        requires
            old(self).fifo@.len() <= old(self).capacity,
        ensures
            final(self).capacity == old(self).capacity,
            final(self).signal == old(self).signal,
            final(self).fifo@.len() <= final(self).capacity,
            old(self).fifo@.len() == old(self).capacity ==> r is None && final(self).fifo@ == old(
                self,
            ).fifo@,
            old(self).fifo@.len() < old(self).capacity ==> (r matches Some(n) && {
                &&& n == min_nat((old(self).capacity - old(self).fifo@.len()) as nat, buf@.len())
                &&& final(self).fifo@ == old(self).fifo@ + buf@.subrange(0, n as int)
            }),
    {
        if self.fifo.len() >= self.capacity {
            return None;
        }
        let room = self.capacity - self.fifo.len();
        let n = if room <= buf.len() {
            room
        } else {
            buf.len()
        };
        let ghost start = self.fifo@;
        let mut i: usize = 0;
        while i < n
            invariant
                0 <= i <= n,
                n <= buf@.len(),
                start.len() + n <= self.capacity,
                self.capacity == old(self).capacity,
                self.signal == old(self).signal,
                start == old(self).fifo@,
                self.fifo@ == start + buf@.subrange(0, i as int),
            decreases n - i,
        {
            self.fifo.push(buf[i]);
            i = i + 1;
            assert(self.fifo@ =~= start + buf@.subrange(0, i as int));
        }
        Some(n)
    }

    /// The signal to wait on for room.
    pub fn get_signal(&self) -> (r: SignalRef)
        ensures
            r == self.signal,
    {
        self.signal
    }

    pub fn into_async(self) -> (r: UartBufferedTxAsync)
        ensures
            r.uart == self,
    {
        UartBufferedTxAsync::new(self)
    }
}

/// Reads from a buffered serial port as a future would.
pub struct UartBufferedRxAsync {
    pub uart: UartBufferedRx,
}

impl UartBufferedRxAsync {
    pub fn new(uart: UartBufferedRx) -> (r: UartBufferedRxAsync)
        ensures
            r.uart == uart,
    {
        UartBufferedRxAsync { uart }
    }

    /// Reads what is queued; `None` means pending. Where nothing is queued
    /// the signal, which only reports an edge, is cleared, `waker` is
    /// registered on it, and the queue is read once more, so that data that
    /// came in between is not left waiting for another edge.
    pub fn poll_read(&mut self, k: &mut KernelState, reactor: &mut Reactor, buf: &mut [u8], waker: u64) -> (r:
        Option<usize>)
        requires
            old(k).wf(),
            old(k).valid_signal(old(self).uart.signal),
            old(reactor).wf(),
        ensures
            final(k).wf(),
            final(reactor).wf(),
            final(self).uart.signal == old(self).uart.signal,
            old(self).uart.fifo@.len() > 0 ==> r is Some && *final(k) == *old(k) && *final(reactor)
                == *old(reactor),
            old(self).uart.fifo@.len() == 0 ==> cleared(*old(k), *final(k), old(self).uart.signal)
                && registered_on(*old(reactor), *final(reactor), old(self).uart.signal, waker)
                && r is None,
    {
        let first = self.uart.read_nb(buf);
        if first.is_some() {
            return first;
        }
        let signal = self.uart.get_signal();
        k.signal_reset(signal);
        reactor.register(&signal, waker);
        assert(reactor.events@.drop_last() =~= old(reactor).events@);
        self.uart.read_nb(buf)
    }
}

/// Writes to a buffered serial port as a future would.
pub struct UartBufferedTxAsync {
    pub uart: UartBufferedTx,
}

impl UartBufferedTxAsync {
    pub fn new(uart: UartBufferedTx) -> (r: UartBufferedTxAsync)
        ensures
            r.uart == uart,
    {
        UartBufferedTxAsync { uart }
    }

    /// Queues what fits; `None` means pending. Where the queue is full the
    /// signal is cleared, `waker` is registered on it, and the write is tried
    /// once more, so that room freed in between is not left waiting for
    /// another edge.
    pub fn poll_write(&mut self, k: &mut KernelState, reactor: &mut Reactor, buf: &[u8], waker: u64) -> (r:
        Option<usize>)
        requires
            old(k).wf(),
            old(k).valid_signal(old(self).uart.signal),
            old(reactor).wf(),
            old(self).uart.fifo@.len() <= old(self).uart.capacity,
        ensures
            final(k).wf(),
            final(reactor).wf(),
            final(self).uart.signal == old(self).uart.signal,
            final(self).uart.fifo@.len() <= final(self).uart.capacity,
            old(self).uart.fifo@.len() < old(self).uart.capacity ==> r is Some && *final(k) == *old(
                k,
            ) && *final(reactor) == *old(reactor),
            old(self).uart.fifo@.len() == old(self).uart.capacity ==> cleared(
                *old(k),
                *final(k),
                old(self).uart.signal,
            ) && registered_on(*old(reactor), *final(reactor), old(self).uart.signal, waker)
                && r is None,
    {
        let first = self.uart.write_nb(buf);
        if first.is_some() {
            return first;
        }
        let signal = self.uart.get_signal();
        k.signal_reset(signal);
        reactor.register(&signal, waker);
        assert(reactor.events@.drop_last() =~= old(reactor).events@);
        self.uart.write_nb(buf)
    }

    /// Nothing is held back: flushing is done at once.
    pub fn poll_flush(&mut self) -> (r: bool)
        ensures
            r,
    {
        true
    }

    /// Closing is done at once.
    pub fn poll_close(&mut self) -> (r: bool)
        ensures
            r,
    {
        true
    }
}

} // verus!
