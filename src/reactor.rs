use vstd::prelude::*;

use crate::kernel::{clock_after_wait, waits_after_wait, KernelState};
use crate::kobj::KPollSignal;
use crate::poll::{KPollEvent, PollError, PollEventFuncs, PollMode, PollTarget, PollableKobj, SignalRef};
use crate::time::{Ticks, Timeout};
use crate::timer::{after_register, TimerReactor};

verus! {

/// Wakers whose event (slots `1..=n`) is ready in `k`, in slot order.
pub open spec fn woken_upto(k: KernelState, evs: Seq<KPollEvent>, ws: Seq<u64>, n: nat) -> Seq<u64>
    decreases n,
{
    if n == 0 {
        Seq::empty()
    } else {
        let p = woken_upto(k, evs, ws, (n - 1) as nat);
        if k.target_ready(evs[n as int].target) {
            p.push(ws[n - 1])
        } else {
            p
        }
    }
}

/// Wakers whose event (slots `1..=n`) is not ready in `k`, in slot order.
pub open spec fn kept_wakers_upto(k: KernelState, evs: Seq<KPollEvent>, ws: Seq<u64>, n: nat) -> Seq<
    u64,
>
    decreases n,
{
    if n == 0 {
        Seq::empty()
    } else {
        let p = kept_wakers_upto(k, evs, ws, (n - 1) as nat);
        if k.target_ready(evs[n as int].target) {
            p
        } else {
            p.push(ws[n - 1])
        }
    }
}

/// Events of slots `1..=n` that are not ready in `k`, as the wait left them,
/// after the first slot, in slot order.
pub open spec fn kept_events_upto(k: KernelState, evs: Seq<KPollEvent>, n: nat) -> Seq<KPollEvent>
    decreases n,
{
    if n == 0 {
        seq![k.polled(evs[0])]
    } else {
        let p = kept_events_upto(k, evs, (n - 1) as nat);
        if k.target_ready(evs[n as int].target) {
            p
        } else {
            p.push(k.polled(evs[n as int]))
        }
    }
}

/// Per-thread registry of wakers waiting on kernel objects and on deadlines.
/// Slot 0 of `events` always waits on the executor's own signal, raised to
/// wake it from another thread; slot `i + 1` belongs to `wakers[i]`.
pub struct Reactor {
    pub events: Vec<KPollEvent>,
    pub wakers: Vec<u64>,
    pub timers: TimerReactor,
}

impl Reactor {
    pub open spec fn wf(&self) -> bool {
        &&& self.events@.len() == self.wakers@.len() + 1
        &&& self.timers.wf()
    }

    /// The signal that slot 0 waits on.
    pub open spec fn signal_slot(&self) -> PollTarget {
        self.events@[0].target
    }

    /// A reactor whose only slot waits on `signal`.
    pub fn new(signal: SignalRef) -> (r: Reactor)
        ensures
            r.wf(),
            r.signal_slot() == PollTarget::Signal(signal),
            r.events@.len() == 1,
            r.timers.tasks@.len() == 0,
    {
        let mut e = KPollEvent::new();
        e.init(&signal, PollMode::NotifyOnly);
        let mut events: Vec<KPollEvent> = Vec::new();
        events.push(e);
        Reactor { events, wakers: Vec::new(), timers: TimerReactor::new() }
    }

    /// Adds a slot in which `waker` waits on `kobj`.
    pub fn register<O: PollableKobj>(&mut self, kobj: &O, waker: u64)
        requires
            old(self).wf(),
        ensures
            final(self).wf(),
            final(self).events@ == old(self).events@.push(
                KPollEvent { target: kobj.target_spec(), mode: PollMode::NotifyOnly, ready: false },
            ),
            final(self).wakers@ == old(self).wakers@.push(waker),
            final(self).timers == old(self).timers,
    {
        let mut e = KPollEvent::new();
        e.init(kobj, PollMode::NotifyOnly);
        self.events.push(e);
        self.wakers.push(waker);
    }

    /// Asks that `waker` be woken no later than `deadline`.
    pub fn register_timer(&mut self, deadline: Ticks, waker: u64)
        requires
            old(self).wf(),
        ensures
            final(self).wf(),
            final(self).timers.tasks@ == after_register(old(self).timers.tasks@, deadline, waker),
            final(self).events == old(self).events,
            final(self).wakers == old(self).wakers,
    {
        self.timers.register(deadline, waker);
    }

    /// One aggregate wait, up to `timeout` (`None`: for ever), over every
    /// slot. Each slot after the first whose object is ready is removed and
    /// its waker returned, to be woken; the others stay, in order. An
    /// interrupted wait removes nothing.
    pub fn poll(&mut self, k: &mut KernelState, timeout: Option<Timeout>) -> (r: Result<
        Vec<u64>,
        PollError,
    >)
        requires
            old(self).wf(),
        ensures
            final(self).wf(),
            final(self).timers == old(self).timers,
            final(k).same_objects(&*old(k)),
            final(k).now.0 >= old(k).now.0,
            old(k).any_ready(old(self).events@) ==> final(k).now == old(k).now && final(k).waits
                == old(k).waits,
            final(self).events@[0].target == old(self).events@[0].target,
            !old(k).any_ready(old(self).events@) ==> {
                &&& final(k).now == clock_after_wait(old(k).now, timeout)
                &&& final(k).waits == waits_after_wait(old(k).waits, timeout)
                &&& final(self).wakers@ == old(self).wakers@
                &&& final(self).events@.len() == old(self).events@.len()
                &&& forall|i: int|
                    0 <= i < old(self).events@.len() ==> #[trigger] final(self).events@[i] == old(
                        k,
                    ).polled(old(self).events@[i])
            },
            match r {
                Ok(woken) => if old(k).any_ready(old(self).events@) {
                    &&& woken@ == woken_upto(
                        *old(k),
                        old(self).events@,
                        old(self).wakers@,
                        old(self).wakers@.len(),
                    )
                    &&& final(self).wakers@ == kept_wakers_upto(
                        *old(k),
                        old(self).events@,
                        old(self).wakers@,
                        old(self).wakers@.len(),
                    )
                    &&& final(self).events@ == kept_events_upto(
                        *old(k),
                        old(self).events@,
                        old(self).wakers@.len(),
                    )
                } else {
                    woken@.len() == 0 && final(self).wakers@ == old(self).wakers@
                },
                Err(_) => !old(k).any_ready(old(self).events@) && final(self).wakers@ == old(
                    self,
                ).wakers@,
            },
            r is Err <==> (!old(k).any_ready(old(self).events@) && match timeout {
                Some(t) => t.0 < 0,
                None => true,
            }),
    {
        let ghost k0 = *k;
        let ghost evs = self.events@;
        let ghost ws = self.wakers@;
        let ready = k.poll_timeout(&mut self.events, timeout);
        match ready {
            Err(e) => {
                return Err(e);
            },
            Ok(false) => {
                return Ok(Vec::new());
            },
            Ok(true) => {},
        }
        let ghost polled = self.events@;
        let mut events: Vec<KPollEvent> = Vec::new();
        events.push(self.events[0]);
        let mut wakers: Vec<u64> = Vec::new();
        let mut woken: Vec<u64> = Vec::new();
        let mut i: usize = 1;
        while i < self.events.len()
            invariant
                1 <= i <= self.events@.len(),
                self.events@ == polled,
                polled.len() == evs.len(),
                evs.len() == ws.len() + 1,
                self.wakers@ == ws,
                forall|j: int| 0 <= j < evs.len() ==> #[trigger] polled[j] == k0.polled(evs[j]),
                woken@ == woken_upto(k0, evs, ws, (i - 1) as nat),
                wakers@ == kept_wakers_upto(k0, evs, ws, (i - 1) as nat),
                events@ == kept_events_upto(k0, evs, (i - 1) as nat),
            decreases polled.len() - i,
        {
            let e = self.events[i];
            assert(e == k0.polled(evs[i as int]));
            if e.ready() {
                woken.push(self.wakers[i - 1]);
            } else {
                events.push(e);
                wakers.push(self.wakers[i - 1]);
            }
            i = i + 1;
        }
        proof {
            lemma_kept_len(k0, evs, ws, ws.len());
        }
        self.events = events;
        self.wakers = wakers;
        Ok(woken)
    }
}

/// A raise of a signal that comes after its reset and before the next
/// aggregate wait is not lost: that wait finds the signal's slot ready, so it
/// returns at once without blocking, whatever its timeout.
pub proof fn lemma_raise_after_reset_seen(
    k0: KernelState,
    k1: KernelState,
    k2: KernelState,
    h: SignalRef,
    result: i32,
    events: Seq<KPollEvent>,
    slot: int,
)
    requires
        k0.valid_signal(h),
        k1.signals@ == k0.signals@.update(
            h.0 as int,
            KPollSignal { signaled: false, ..k0.signals@[h.0 as int] },
        ),
        k2.signals@ == k1.signals@.update(h.0 as int, KPollSignal { signaled: true, result }),
        0 <= slot < events.len(),
        events[slot].target == PollTarget::Signal(h),
    ensures
        k2.target_ready(PollTarget::Signal(h)),
        k2.any_ready(events),
        k2.polled(events[slot]).ready,
{
    assert(k2.target_ready(events[slot].target));
}

proof fn lemma_kept_len(k: KernelState, evs: Seq<KPollEvent>, ws: Seq<u64>, n: nat)
    ensures
        kept_events_upto(k, evs, n).len() == kept_wakers_upto(k, evs, ws, n).len() + 1,
        kept_events_upto(k, evs, n)[0] == k.polled(evs[0]),
    decreases n,
{
    if n > 0 {
        lemma_kept_len(k, evs, ws, (n - 1) as nat);
    }
}

} // verus!
