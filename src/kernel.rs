use vstd::prelude::*;

use crate::errno::{neg_code, NegErr, EAGAIN, EINTR};
use crate::kobj::{KMutex, KPollSignal, KSem, ThreadId};
use crate::poll::{KPollEvent, MutexRef, PollError, PollTarget, SemRef, SignalRef};
use crate::time::{DurationMs, Ticks, Timeout, K_FOREVER};

verus! {

/// The kernel as this process sees it: the clock, the calling thread, and
/// the table of kernel objects, each placed once at a fixed slot and never
/// moved. A thread that would block with nothing able to wake it sees its
/// wait time out or, for a wait without end, interrupted.
pub struct KernelState {
    pub now: Ticks,
    pub current: ThreadId,
    pub sems: Vec<KSem>,
    pub signals: Vec<KPollSignal>,
    pub mutexes: Vec<KMutex>,
    /// Aggregate waits that found nothing ready and had to block.
    pub waits: u64,
    /// Threads blocked in a take or a lock, oldest first.
    pub waiters: Vec<(WaitObj, ThreadId)>,
}

/// A kernel object a thread can block on.
#[derive(Clone, Copy, Debug, PartialEq, Eq, Structural)]
pub enum WaitObj {
    Sem(SemRef),
    Mutex(MutexRef),
}

/// Some thread waits on `o`.
pub open spec fn has_waiter(s: Seq<(WaitObj, ThreadId)>, o: WaitObj) -> bool {
    exists|i: int| 0 <= i < s.len() && (#[trigger] s[i]).0 == o
}

/// Entry `i` is the oldest waiter on `o`.
pub open spec fn first_waiter(s: Seq<(WaitObj, ThreadId)>, o: WaitObj, i: int) -> bool {
    &&& 0 <= i < s.len()
    &&& s[i].0 == o
    &&& forall|j: int| 0 <= j < i ==> (#[trigger] s[j]).0 != o
}

/// `v + 1`, held at the largest value.
pub open spec fn bump(v: u64) -> u64 {
    if v < u64::MAX {
        (v + 1) as u64
    } else {
        v
    }
}

/// `now` moved on by `t` ticks, held at the largest value.
pub open spec fn advance(now: Ticks, t: i64) -> Ticks {
    if now.0 + t <= i64::MAX {
        Ticks((now.0 + t) as i64)
    } else {
        Ticks(i64::MAX)
    }
}

/// The clock after a wait with nothing ready: a positive timeout runs out.
pub open spec fn clock_after_wait(now: Ticks, timeout: Option<Timeout>) -> Ticks {
    match timeout {
        Some(t) => if t.0 > 0 {
            advance(now, t.0)
        } else {
            now
        },
        None => now,
    }
}

/// The count of blocking waits after a wait with nothing ready: only a wait
/// with a zero timeout does not block.
pub open spec fn waits_after_wait(waits: u64, timeout: Option<Timeout>) -> u64 {
    match timeout {
        Some(t) => if t.0 != 0 {
            bump(waits)
        } else {
            waits
        },
        None => bump(waits),
    }
}

/// `n` is `o` after the calling thread released the mutex at `h` once: the
/// release that frees it hands it to the oldest blocked waiter, if any.
pub open spec fn released(o: &KernelState, n: &KernelState, h: MutexRef) -> bool {
    let m = o.mutexes@[h.0 as int].after_unlock();
    if m.owner is Some || !has_waiter(o.waiters@, WaitObj::Mutex(h)) {
        &&& *n == (KernelState { mutexes: n.mutexes, ..*o })
        &&& n.mutexes@ == o.mutexes@.update(h.0 as int, m)
    } else {
        exists|i: int|
            first_waiter(o.waiters@, WaitObj::Mutex(h), i) && #[trigger] o.waiters@[i].0
                == WaitObj::Mutex(h) && n.waiters@ == o.waiters@.remove(i) && n.mutexes@
                == o.mutexes@.update(
                h.0 as int,
                KMutex { owner: Some(o.waiters@[i].1), lock_count: 1 },
            ) && *n == (KernelState { mutexes: n.mutexes, waiters: n.waiters, ..*o })
    }
}

impl KernelState {
    pub open spec fn wf(&self) -> bool {
        &&& forall|i: int| 0 <= i < self.sems@.len() ==> (#[trigger] self.sems@[i]).wf()
        &&& forall|i: int| 0 <= i < self.mutexes@.len() ==> (#[trigger] self.mutexes@[i]).wf()
    }

    pub open spec fn valid_sem(&self, h: SemRef) -> bool {
        h.0 < self.sems@.len()
    }

    pub open spec fn valid_signal(&self, h: SignalRef) -> bool {
        h.0 < self.signals@.len()
    }

    pub open spec fn valid_mutex(&self, h: MutexRef) -> bool {
        h.0 < self.mutexes@.len()
    }

    /// Whether a wait on `t` is satisfied now; a handle of no placed object
    /// is never ready.
    pub open spec fn target_ready(&self, t: PollTarget) -> bool {
        match t {
            PollTarget::Ignore => false,
            PollTarget::Sem(h) => self.valid_sem(h) && self.sems@[h.0 as int].count > 0,
            PollTarget::Signal(h) => self.valid_signal(h) && self.signals@[h.0 as int].signaled,
        }
    }

    /// `e` as a wait finds it.
    pub open spec fn polled(&self, e: KPollEvent) -> KPollEvent {
        KPollEvent { ready: self.target_ready(e.target), ..e }
    }

    pub open spec fn any_ready(&self, es: Seq<KPollEvent>) -> bool {
        exists|i: int| 0 <= i < es.len() && self.target_ready(#[trigger] es[i].target)
    }

    /// `self` is `o` with only the semaphore at `h` changed, to `s`.
    pub open spec fn sem_updated(&self, o: &KernelState, h: SemRef, s: KSem) -> bool {
        &&& self.sems@ == o.sems@.update(h.0 as int, s)
        &&& *self == (KernelState { sems: self.sems, ..*o })
    }

    /// Just the fields that a wait leaves alone.
    pub open spec fn same_objects(&self, o: &KernelState) -> bool {
        &&& self.current == o.current
        &&& self.sems@ == o.sems@
        &&& self.signals@ == o.signals@
        &&& self.mutexes@ == o.mutexes@
    }

    /// A kernel with no objects, at time zero, seen from thread `current`.
    pub fn new(current: ThreadId) -> (r: KernelState)
        ensures
            r.wf(),
            r.now == Ticks(0),
            r.current == current,
            r.sems@.len() == 0,
            r.signals@.len() == 0,
            r.mutexes@.len() == 0,
            r.waits == 0,
            r.waiters@.len() == 0,
    {
        KernelState {
            now: Ticks(0),
            current,
            sems: Vec::new(),
            signals: Vec::new(),
            mutexes: Vec::new(),
            waits: 0,
            waiters: Vec::new(),
        }
    }

    /// The oldest waiter on `o`, if any.
    fn find_waiter(&self, o: WaitObj) -> (r: Option<usize>)
        ensures
            r is None <==> !has_waiter(self.waiters@, o),
            r matches Some(i) ==> first_waiter(self.waiters@, o, i as int),
    {
        let mut i: usize = 0;
        while i < self.waiters.len()
            invariant
                0 <= i <= self.waiters@.len(),
                forall|j: int| 0 <= j < i ==> (#[trigger] self.waiters@[j]).0 != o,
            decreases self.waiters@.len() - i,
        {
            if self.waiters[i].0 == o {
                return Some(i);
            }
            i = i + 1;
        }
        None
    }

    /// Makes calls from thread `t` from now on.
    pub fn set_current(&mut self, t: ThreadId)
        ensures
            *final(self) == (KernelState { current: t, ..*old(self) }),
    {
        self.current = t;
    }

    /// Places and initialises a semaphore; `None` where the limit is zero or
    /// the count above it.
    pub fn define_sem(&mut self, initial_count: u32, limit: u32) -> (r: Option<SemRef>)
        requires
            old(self).wf(),
        ensures
            final(self).wf(),
            r is Some <==> (0 < limit && initial_count <= limit),
            r matches Some(h) ==> h.0 == old(self).sems@.len()
                && final(self).sems@ == old(self).sems@.push(KSem { count: initial_count, limit })
                && *final(self) == (KernelState { sems: final(self).sems, ..*old(self) }),
            r is None ==> *final(self) == *old(self),
    {
        match KSem::init(initial_count, limit) {
            Some(s) => {
                let h = SemRef(self.sems.len());
                self.sems.push(s);
                assert(forall|i: int|
                    0 <= i < self.sems@.len() ==> (#[trigger] self.sems@[i]) == old(self).sems@.push(
                        s,
                    )[i]);
                Some(h)
            },
            None => None,
        }
    }

    /// Places and initialises a poll signal, not signaled.
    pub fn define_signal(&mut self) -> (r: SignalRef)
        requires
            old(self).wf(),
        ensures
            final(self).wf(),
            r.0 == old(self).signals@.len(),
            final(self).signals@ == old(self).signals@.push(
                KPollSignal { signaled: false, result: 0 },
            ),
            *final(self) == (KernelState { signals: final(self).signals, ..*old(self) }),
    {
        let h = SignalRef(self.signals.len());
        self.signals.push(KPollSignal::init());
        h
    }

    /// Places and initialises a mutex, unlocked.
    pub fn define_mutex(&mut self) -> (r: MutexRef)
        requires
            old(self).wf(),
        ensures
            final(self).wf(),
            r.0 == old(self).mutexes@.len(),
            final(self).mutexes@ == old(self).mutexes@.push(KMutex { owner: None, lock_count: 0 }),
            *final(self) == (KernelState { mutexes: final(self).mutexes, ..*old(self) }),
    {
        let h = MutexRef(self.mutexes.len());
        let m = KMutex::uninit();
        self.mutexes.push(m);
        assert(forall|i: int|
            0 <= i < self.mutexes@.len() ==> (#[trigger] self.mutexes@[i]) == old(
                self,
            ).mutexes@.push(m)[i]);
        h
    }

    /// Gives the semaphore at `h`: the oldest thread blocked taking it gets
    /// the unit and goes on; with none blocked the count goes up, to the limit.
    pub fn sem_give(&mut self, h: SemRef)
        requires
            old(self).wf(),
            old(self).valid_sem(h),
        ensures
            final(self).wf(),
            !has_waiter(old(self).waiters@, WaitObj::Sem(h)) ==> final(self).sem_updated(
                &*old(self),
                h,
                old(self).sems@[h.0 as int].after_give(),
            ),
            has_waiter(old(self).waiters@, WaitObj::Sem(h)) ==> exists|i: int|
                first_waiter(old(self).waiters@, WaitObj::Sem(h), i) && final(self).waiters@ == old(
                    self,
                ).waiters@.remove(i) && #[trigger] old(self).waiters@[i].0 == WaitObj::Sem(h) && *final(self)
                    == (KernelState { waiters: final(self).waiters, ..*old(self) }),
    {
        match self.find_waiter(WaitObj::Sem(h)) {
            Some(i) => {
                self.waiters.remove(i);
                return;
            },
            None => {},
        }
        let mut s = self.sems[h.0];
        s.give();
        self.sems.set(h.0, s);
        assert(forall|i: int|
            0 <= i < self.sems@.len() ==> (#[trigger] self.sems@[i]) == old(self).sems@.update(
                h.0 as int,
                s,
            )[i]);
    }

    /// Takes the semaphore at `h` for the calling thread, waiting for ever:
    /// true if taken at once; false where the count is zero, and the thread
    /// is then blocked, queued until a later give hands it that unit.
    pub fn sem_take(&mut self, h: SemRef) -> (r: bool)
        requires
            old(self).wf(),
            old(self).valid_sem(h),
        ensures
            final(self).wf(),
            r == (old(self).sems@[h.0 as int].count > 0),
            r ==> final(self).sem_updated(&*old(self), h, old(self).sems@[h.0 as int].after_take()),
            !r ==> final(self).waiters@ == old(self).waiters@.push((WaitObj::Sem(h), old(self).current))
                && *final(self) == (KernelState { waiters: final(self).waiters, ..*old(self) }),
    {
        if self.sems[h.0].count() > 0 {
            self.sem_try_take(h)
        } else {
            self.waiters.push((WaitObj::Sem(h), self.current));
            false
        }
    }

    /// Takes the semaphore at `h` without waiting: true if taken.
    pub fn sem_try_take(&mut self, h: SemRef) -> (r: bool)
        requires
            old(self).wf(),
            old(self).valid_sem(h),
        ensures
            final(self).wf(),
            r == (old(self).sems@[h.0 as int].count > 0),
            final(self).sem_updated(&*old(self), h, old(self).sems@[h.0 as int].after_take()),
    {
        let mut s = self.sems[h.0];
        let r = s.try_take();
        self.sems.set(h.0, s);
        assert(forall|i: int|
            0 <= i < self.sems@.len() ==> (#[trigger] self.sems@[i]) == old(self).sems@.update(
                h.0 as int,
                s,
            )[i]);
        r
    }

    /// Takes the semaphore at `h`, waiting up to `timeout`: true if taken.
    pub fn sem_take_timeout(&mut self, h: SemRef, timeout: DurationMs) -> (r: bool)
        requires
            old(self).wf(),
            old(self).valid_sem(h),
        ensures
            final(self).wf(),
            r == (old(self).sems@[h.0 as int].count > 0),
            final(self).sem_updated(&*old(self), h, old(self).sems@[h.0 as int].after_take()),
    {
        let mut s = self.sems[h.0];
        let r = s.take_timeout(timeout);
        self.sems.set(h.0, s);
        assert(forall|i: int|
            0 <= i < self.sems@.len() ==> (#[trigger] self.sems@[i]) == old(self).sems@.update(
                h.0 as int,
                s,
            )[i]);
        r
    }

    /// Sets the count of the semaphore at `h` to zero.
    pub fn sem_reset(&mut self, h: SemRef)
        requires
            old(self).wf(),
            old(self).valid_sem(h),
        ensures
            final(self).wf(),
            final(self).sem_updated(&*old(self), 
                h,
                KSem { count: 0, ..old(self).sems@[h.0 as int] },
            ),
    {
        let mut s = self.sems[h.0];
        s.reset();
        self.sems.set(h.0, s);
        assert(forall|i: int|
            0 <= i < self.sems@.len() ==> (#[trigger] self.sems@[i]) == old(self).sems@.update(
                h.0 as int,
                s,
            )[i]);
    }

    /// The count of the semaphore at `h`.
    pub fn sem_count(&self, h: SemRef) -> (r: u32)
        requires
            self.valid_sem(h),
        ensures
            r == self.sems@[h.0 as int].count,
    {
        self.sems[h.0].count()
    }

    /// Raises the signal at `h` with `result`.
    pub fn signal_raise(&mut self, h: SignalRef, result: i32)
        requires
            old(self).wf(),
            old(self).valid_signal(h),
        ensures
            final(self).wf(),
            *final(self) == (KernelState {
                signals: final(self).signals,
                ..*old(self)
            }),
            final(self).signals@ == old(self).signals@.update(
                h.0 as int,
                KPollSignal { signaled: true, result },
            ),
    {
        let mut s = self.signals[h.0];
        s.raise(result);
        self.signals.set(h.0, s);
    }

    /// Clears the signal at `h`.
    pub fn signal_reset(&mut self, h: SignalRef)
        requires
            old(self).wf(),
            old(self).valid_signal(h),
        ensures
            final(self).wf(),
            *final(self) == (KernelState {
                signals: final(self).signals,
                ..*old(self)
            }),
            final(self).signals@ == old(self).signals@.update(
                h.0 as int,
                KPollSignal { signaled: false, ..old(self).signals@[h.0 as int] },
            ),
    {
        let mut s = self.signals[h.0];
        s.reset();
        self.signals.set(h.0, s);
    }

    /// The result of the last raise of the signal at `h`, where it is signaled.
    pub fn signal_check(&self, h: SignalRef) -> (r: Option<i32>)
        requires
            self.valid_signal(h),
        ensures
            r == if self.signals@[h.0 as int].signaled {
                Some(self.signals@[h.0 as int].result)
            } else {
                None
            },
    {
        self.signals[h.0].check()
    }

    /// Initialises the mutex at `h` again: unlocked.
    pub fn mutex_init(&mut self, h: MutexRef)
        requires
            old(self).wf(),
            old(self).valid_mutex(h),
        ensures
            final(self).wf(),
            *final(self) == (KernelState { mutexes: final(self).mutexes, ..*old(self) }),
            final(self).mutexes@ == old(self).mutexes@.update(
                h.0 as int,
                KMutex { owner: None, lock_count: 0 },
            ),
    {
        self.mutexes.set(h.0, KMutex::uninit());
        assert(forall|i: int|
            0 <= i < self.mutexes@.len() ==> (#[trigger] self.mutexes@[i])
                == old(self).mutexes@.update(h.0 as int, KMutex { owner: None, lock_count: 0 })[i]);
    }

    /// Locks the mutex at `h` for the calling thread without waiting: true if locked.
    pub fn mutex_try_lock(&mut self, h: MutexRef) -> (r: bool)
        requires
            old(self).wf(),
            old(self).valid_mutex(h),
            old(self).mutexes@[h.0 as int].held_by(old(self).current)
                ==> old(self).mutexes@[h.0 as int].lock_count < u32::MAX,
        ensures
            final(self).wf(),
            r == old(self).mutexes@[h.0 as int].available_to(old(self).current),
            *final(self) == (KernelState { mutexes: final(self).mutexes, ..*old(self) }),
            final(self).mutexes@ == old(self).mutexes@.update(
                h.0 as int,
                if r {
                    old(self).mutexes@[h.0 as int].after_lock(old(self).current)
                } else {
                    old(self).mutexes@[h.0 as int]
                },
            ),
    {
        let mut m = self.mutexes[h.0];
        let r = m.try_lock(self.current);
        self.mutexes.set(h.0, m);
        assert(forall|i: int|
            0 <= i < self.mutexes@.len() ==> (#[trigger] self.mutexes@[i])
                == old(self).mutexes@.update(h.0 as int, m)[i]);
        r
    }

    /// Locks the mutex at `h` for the calling thread, waiting for ever: true
    /// if granted at once, where it is free or the thread holds it; false
    /// where another thread holds it, and the calling thread is then blocked,
    /// queued until the holder's last release hands the mutex over.
    pub fn mutex_lock(&mut self, h: MutexRef) -> (r: bool)
        requires
            old(self).wf(),
            old(self).valid_mutex(h),
            old(self).mutexes@[h.0 as int].held_by(old(self).current)
                ==> old(self).mutexes@[h.0 as int].lock_count < u32::MAX,
        ensures
            final(self).wf(),
            r == old(self).mutexes@[h.0 as int].available_to(old(self).current),
            r ==> *final(self) == (KernelState { mutexes: final(self).mutexes, ..*old(self) })
                && final(self).mutexes@ == old(self).mutexes@.update(
                h.0 as int,
                old(self).mutexes@[h.0 as int].after_lock(old(self).current),
            ),
            !r ==> final(self).waiters@ == old(self).waiters@.push(
                (WaitObj::Mutex(h), old(self).current),
            ) && *final(self) == (KernelState { waiters: final(self).waiters, ..*old(self) }),
    {
        let free = match self.mutexes[h.0].owner {
            None => true,
            Some(o) => o.0 == self.current.0,
        };
        if free {
            self.mutex_try_lock(h)
        } else {
            self.waiters.push((WaitObj::Mutex(h), self.current));
            false
        }
    }

    /// Releases the mutex at `h` once, for the calling thread, which holds it.
    /// The release that frees it hands it to the oldest blocked waiter, if
    /// any, which then holds it once.
    pub fn mutex_unlock(&mut self, h: MutexRef)
        requires
            old(self).wf(),
            old(self).valid_mutex(h),
            old(self).mutexes@[h.0 as int].held_by(old(self).current),
        ensures
            final(self).wf(),
            released(&*old(self), &*final(self), h),
    {
        let mut m = self.mutexes[h.0];
        m.unlock(self.current);
        if m.owner.is_none() {
            match self.find_waiter(WaitObj::Mutex(h)) {
                Some(i) => {
                    let w = self.waiters[i].1;
                    self.waiters.remove(i);
                    m = KMutex { owner: Some(w), lock_count: 1 };
                },
                None => {},
            }
        }
        self.mutexes.set(h.0, m);
        assert(forall|i: int|
            0 <= i < self.mutexes@.len() ==> (#[trigger] self.mutexes@[i])
                == old(self).mutexes@.update(h.0 as int, m)[i]);
    }

    /// The aggregate wait: marks each event ready or not. Where none is ready
    /// the caller blocks: the clock moves on by a finite timeout and the call
    /// reports a timeout, or, for a wait without end, an interruption.
    pub fn k_poll(&mut self, events: &mut Vec<KPollEvent>, timeout: Timeout) -> (r: i32)
        ensures
            final(events)@.len() == old(events)@.len(),
            forall|i: int|
                0 <= i < old(events)@.len() ==> #[trigger] final(events)@[i] == old(self).polled(
                    old(events)@[i],
                ),
            final(self).same_objects(old(self)),
            final(self).now.0 >= old(self).now.0,
            old(self).any_ready(old(events)@) ==> r == 0 && final(self).now == old(self).now
                && final(self).waits == old(self).waits,
            !old(self).any_ready(old(events)@) ==> {
                &&& r == if timeout.0 < 0 {
                    neg_code(EINTR)
                } else {
                    neg_code(EAGAIN)
                }
                &&& final(self).now == if timeout.0 > 0 {
                    advance(old(self).now, timeout.0)
                } else {
                    old(self).now
                }
                &&& final(self).waits == if timeout.0 != 0 {
                    bump(old(self).waits)
                } else {
                    old(self).waits
                }
            },
    {
        let mut any = false;
        let mut i: usize = 0;
        while i < events.len()
            invariant
                0 <= i <= events@.len(),
                events@.len() == old(events)@.len(),
                forall|j: int| 0 <= j < i ==> #[trigger] events@[j] == self.polled(old(events)@[j]),
                forall|j: int| i <= j < events@.len() ==> #[trigger] events@[j] == old(events)@[j],
                any == exists|j: int| 0 <= j < i && self.target_ready(#[trigger] old(events)@[j].target),
            decreases events@.len() - i,
        {
            let e = events[i];
            let ready = match e.target {
                PollTarget::Ignore => false,
                PollTarget::Sem(h) => h.0 < self.sems.len() && self.sems[h.0].count > 0,
                PollTarget::Signal(h) => h.0 < self.signals.len() && self.signals[h.0].signaled,
            };
            events.set(i, KPollEvent { ready, ..e });
            if ready {
                any = true;
            }
            i = i + 1;
        }
        if any {
            return 0;
        }
        if timeout.0 != 0 && self.waits < u64::MAX {
            self.waits = self.waits + 1;
        }
        if timeout.0 < 0 {
            -(EINTR as i32)
        } else {
            if timeout.0 > 0 {
                self.now = if self.now.0 <= i64::MAX - timeout.0 {
                    Ticks(self.now.0 + timeout.0)
                } else {
                    Ticks(i64::MAX)
                };
            }
            -(EAGAIN as i32)
        }
    }

    /// Waits for any of `events`, up to `timeout` (`None` waits for ever):
    /// true if some event is ready, false on timeout. A wait for ever on no
    /// event at all is refused by the precondition.
    pub fn poll_timeout(&mut self, events: &mut Vec<KPollEvent>, timeout: Option<Timeout>) -> (r:
        Result<bool, PollError>)
        requires
            old(events)@.len() > 0 || timeout is Some,
        ensures
            final(events)@.len() == old(events)@.len(),
            forall|i: int|
                0 <= i < old(events)@.len() ==> #[trigger] final(events)@[i] == old(self).polled(
                    old(events)@[i],
                ),
            final(self).same_objects(old(self)),
            final(self).now.0 >= old(self).now.0,
            r == if old(self).any_ready(old(events)@) {
                Ok(true)
            } else {
                match timeout {
                    Some(t) => if t.0 < 0 {
                        Err(PollError::Canceled)
                    } else {
                        Ok(false)
                    },
                    None => Err(PollError::Canceled),
                }
            },
            old(self).any_ready(old(events)@) ==> final(self).now == old(self).now
                && final(self).waits == old(self).waits,
            !old(self).any_ready(old(events)@) ==> final(self).now == clock_after_wait(
                old(self).now,
                timeout,
            ) && final(self).waits == waits_after_wait(old(self).waits, timeout),
    {
        let t = match timeout {
            Some(t) => t,
            None => Timeout(K_FOREVER),
        };
        let code = self.k_poll(events, t);
        match code.neg_err() {
            Ok(_) => Ok(true),
            Err(e) => {
                if e == EAGAIN {
                    Ok(false)
                } else {
                    assert(e == EINTR);
                    Err(PollError::Canceled)
                }
            },
        }
    }

    /// Waits for any of `events` without end.
    pub fn poll(&mut self, events: &mut Vec<KPollEvent>) -> (r: Result<(), PollError>)
        requires
            old(events)@.len() > 0,
        ensures
            final(events)@.len() == old(events)@.len(),
            forall|i: int|
                0 <= i < old(events)@.len() ==> #[trigger] final(events)@[i] == old(self).polled(
                    old(events)@[i],
                ),
            final(self).same_objects(old(self)),
            final(self).now.0 >= old(self).now.0,
            r == if old(self).any_ready(old(events)@) {
                Ok(())
            } else {
                Err(PollError::Canceled)
            },
    {
        let code = self.k_poll(events, Timeout(K_FOREVER));
        match code.neg_err() {
            Ok(_) => Ok(()),
            Err(e) => {
                assert(e == EINTR);
                Err(PollError::Canceled)
            },
        }
    }
}

/// Mutual exclusion under contention: while a thread holds a mutex, a lock
/// by any other thread is not granted (it blocks and is queued); a release
/// that leaves locks outstanding keeps the holder, and the release that frees
/// the mutex grants it to the oldest waiter alone, once.
pub proof fn lemma_contended_lock(o: KernelState, n: KernelState, h: MutexRef, t: ThreadId)
    requires
        o.valid_mutex(h),
        o.mutexes@[h.0 as int].wf(),
        o.mutexes@[h.0 as int].owner is Some,
        o.mutexes@[h.0 as int].owner != Some(t),
        released(&o, &n, h),
    ensures
        !o.mutexes@[h.0 as int].available_to(t),
        o.mutexes@[h.0 as int].lock_count > 1 ==> n.mutexes@[h.0 as int]
            == o.mutexes@[h.0 as int].after_unlock() && n.mutexes@[h.0 as int].owner
            == o.mutexes@[h.0 as int].owner,
        o.mutexes@[h.0 as int].lock_count == 1 && has_waiter(o.waiters@, WaitObj::Mutex(h))
            ==> exists|i: int|
            first_waiter(o.waiters@, WaitObj::Mutex(h), i) && n.mutexes@[h.0 as int] == (KMutex {
                owner: Some(#[trigger] o.waiters@[i].1),
                lock_count: 1,
            }),
        o.mutexes@[h.0 as int].lock_count == 1 && !has_waiter(o.waiters@, WaitObj::Mutex(h))
            ==> n.mutexes@[h.0 as int].owner is None,
{
}

} // verus!
