use vstd::prelude::*;

use crate::errno::{neg_code, NegErr, EAGAIN, EBUSY, EINVAL, EPERM};
use crate::time::{DurationMs, Timeout, K_FOREVER, K_NO_WAIT};

verus! {

/// Identity of a kernel thread.
#[derive(Clone, Copy, Debug, PartialEq, Eq, Structural)]
pub struct ThreadId(pub u64);

impl ThreadId {
    /// The raw thread identity.
    pub fn tid(&self) -> (r: u64)
        ensures
            r == self.0,
    {
        self.0
    }
}

/// State of a kernel counting semaphore.
#[derive(Clone, Copy, Debug, PartialEq, Eq, Structural)]
pub struct KSem {
    pub count: u32,
    pub limit: u32,
}

impl KSem {
    pub open spec fn wf(&self) -> bool {
        0 < self.limit && self.count <= self.limit
    }

    /// The state after a give: one more, up to the limit.
    pub open spec fn after_give(self) -> KSem {
        KSem { count: if self.count < self.limit { (self.count + 1) as u32 } else { self.count }, ..self }
    }

    /// The state after a successful take, or the same state where the count is zero.
    pub open spec fn after_take(self) -> KSem {
        KSem { count: if self.count > 0 { (self.count - 1) as u32 } else { 0 }, ..self }
    }

    /// Initialises a semaphore; `None` where the limit is zero or the count above it.
    pub fn init(initial_count: u32, limit: u32) -> (r: Option<KSem>)
        ensures
            r is Some <==> (0 < limit && initial_count <= limit),
            r matches Some(s) ==> s.count == initial_count && s.limit == limit && s.wf(),
    {
        if limit == 0 || initial_count > limit {
            None
        } else {
            Some(KSem { count: initial_count, limit })
        }
    }

    /// The kernel's take: succeeds where the count is positive, else reports
    /// busy when told not to wait and a timeout otherwise (no other thread
    /// can give while this one waits).
    pub fn k_sem_take(&mut self, timeout: Timeout) -> (r: i32)
        requires
            old(self).wf(),
        ensures
            *final(self) == old(self).after_take(),
            r == if old(self).count > 0 {
                0
            } else if timeout.0 == K_NO_WAIT {
                neg_code(EBUSY)
            } else {
                neg_code(EAGAIN)
            },
    {
        if self.count > 0 {
            self.count = self.count - 1;
            0
        } else if timeout.0 == K_NO_WAIT {
            -(EBUSY as i32)
        } else {
            -(EAGAIN as i32)
        }
    }

    /// Takes, waiting for ever: the count must be positive, as no other thread
    /// can give while this one waits.
    pub fn take(&mut self)
        requires
            old(self).wf(),
            old(self).count > 0,
        ensures
            *final(self) == old(self).after_take(),
            final(self).count == old(self).count - 1,
    {
        let r = self.k_sem_take(Timeout(K_FOREVER));
        assert(r == 0);
    }

    /// Takes, waiting up to `timeout`: true if taken, false on timeout.
    pub fn take_timeout(&mut self, timeout: DurationMs) -> (r: bool)
        requires
            old(self).wf(),
        ensures
            r == (old(self).count > 0),
            *final(self) == old(self).after_take(),
    {
        let t = if timeout.0 < 0 {
            Timeout(K_FOREVER)
        } else {
            Timeout(timeout.0 as i64 * 10)
        };
        let code = self.k_sem_take(t);
        match code.neg_err() {
            Ok(_) => true,
            Err(e) => {
                assert(e == EBUSY || e == EAGAIN);
                false
            },
        }
    }

    /// Takes without waiting: true if taken, false where the count was zero.
    pub fn try_take(&mut self) -> (r: bool)
        requires
            old(self).wf(),
        ensures
            r == (old(self).count > 0),
            *final(self) == old(self).after_take(),
    {
        let code = self.k_sem_take(Timeout(K_NO_WAIT));
        match code.neg_err() {
            Ok(_) => true,
            Err(e) => {
                assert(e == EBUSY);
                false
            },
        }
    }

    /// Gives: one more, up to the limit.
    pub fn give(&mut self)
        requires
            old(self).wf(),
        ensures
            *final(self) == old(self).after_give(),
            final(self).wf(),
    {
        if self.count < self.limit {
            self.count = self.count + 1;
        }
    }

    /// Sets the count to zero.
    pub fn reset(&mut self)
        requires
            old(self).wf(),
        ensures
            *final(self) == (KSem { count: 0, ..*old(self) }),
            final(self).wf(),
    {
        self.count = 0;
    }

    /// The current count.
    pub fn count(&self) -> (r: u32)
        ensures
            r == self.count,
    {
        self.count
    }
}

/// A give (`true`) or a take that does not wait (`false`).
pub open spec fn sem_run(s: KSem, ops: Seq<bool>) -> (KSem, nat)
    decreases ops.len(),
{
    if ops.len() == 0 {
        (s, 0)
    } else {
        let (prev, taken) = sem_run(s, ops.drop_last());
        if ops.last() {
            (prev.after_give(), taken)
        } else {
            (prev.after_take(), if prev.count > 0 { taken + 1 } else { taken })
        }
    }
}

/// Number of gives in `ops`.
pub open spec fn gives(ops: Seq<bool>) -> nat
    decreases ops.len(),
{
    if ops.len() == 0 {
        0
    } else {
        gives(ops.drop_last()) + if ops.last() { 1nat } else { 0nat }
    }
}

/// Over any run of gives and takes without a reset, the successful takes
/// never exceed the gives plus the initial count; more exactly, the takes plus
/// the count left never exceed them.
pub proof fn lemma_sem_accounting(s: KSem, ops: Seq<bool>)
    requires
        s.wf(),
    ensures
        sem_run(s, ops).1 + sem_run(s, ops).0.count <= gives(ops) + s.count,
        sem_run(s, ops).1 <= gives(ops) + s.count,
        sem_run(s, ops).0.wf(),
    decreases ops.len(),
{
    if ops.len() > 0 {
        lemma_sem_accounting(s, ops.drop_last());
    }
}

/// State of a kernel poll signal.
#[derive(Clone, Copy, Debug, PartialEq, Eq, Structural)]
pub struct KPollSignal {
    pub signaled: bool,
    pub result: i32,
}

impl KPollSignal {
    /// Initialises a signal: not signaled.
    pub fn init() -> (r: KPollSignal)
        ensures
            !r.signaled,
            r.result == 0,
    {
        KPollSignal { signaled: false, result: 0 }
    }

    /// Clears the signaled state.
    pub fn reset(&mut self)
        ensures
            *final(self) == (KPollSignal { signaled: false, ..*old(self) }),
    {
        self.signaled = false;
    }

    /// The result of the last raise where the signal is signaled; the state is kept.
    pub fn check(&self) -> (r: Option<i32>)
        ensures
            r == if self.signaled {
                Some(self.result)
            } else {
                None
            },
    {
        if self.signaled {
            Some(self.result)
        } else {
            None
        }
    }

    /// Signals with `result`.
    pub fn raise(&mut self, result: i32) -> (r: i32)
        ensures
            *final(self) == (KPollSignal { signaled: true, result }),
            r == 0,
    {
        self.signaled = true;
        self.result = result;
        0
    }
}

/// State of a kernel mutex: the owning thread and how many times it locked.
#[derive(Clone, Copy, Debug, PartialEq, Eq, Structural)]
pub struct KMutex {
    pub owner: Option<ThreadId>,
    pub lock_count: u32,
}

impl KMutex {
    pub open spec fn wf(&self) -> bool {
        self.owner is None <==> self.lock_count == 0
    }

    /// Whether `t` may take the mutex now: it is free or `t` holds it.
    pub open spec fn available_to(&self, t: ThreadId) -> bool {
        self.owner is None || self.owner == Some(t)
    }

    pub open spec fn held_by(&self, t: ThreadId) -> bool {
        self.owner == Some(t)
    }

    /// The state after `t` takes the mutex.
    pub open spec fn after_lock(self, t: ThreadId) -> KMutex {
        KMutex { owner: Some(t), lock_count: (self.lock_count + 1) as u32 }
    }

    /// The state after its owner releases the mutex once.
    pub open spec fn after_unlock(self) -> KMutex {
        if self.lock_count <= 1 {
            KMutex { owner: None, lock_count: 0 }
        } else {
            KMutex { owner: self.owner, lock_count: (self.lock_count - 1) as u32 }
        }
    }

    /// Initialises a mutex: unlocked.
    pub fn uninit() -> (r: KMutex)
        ensures
            r.owner is None,
            r.lock_count == 0,
            r.wf(),
    {
        KMutex { owner: None, lock_count: 0 }
    }

    /// The kernel's lock for thread `t`: succeeds where the mutex is free or
    /// `t` holds it, else reports busy when told not to wait and a timeout
    /// otherwise.
    pub fn k_mutex_lock(&mut self, t: ThreadId, timeout: Timeout) -> (r: i32)
        requires
            old(self).wf(),
            old(self).held_by(t) ==> old(self).lock_count < u32::MAX,
        ensures
            *final(self) == if old(self).available_to(t) {
                old(self).after_lock(t)
            } else {
                *old(self)
            },
            r == if old(self).available_to(t) {
                0
            } else if timeout.0 == K_NO_WAIT {
                neg_code(EBUSY)
            } else {
                neg_code(EAGAIN)
            },
            final(self).wf(),
    {
        let free = match self.owner {
            None => true,
            Some(o) => o.0 == t.0,
        };
        if free {
            self.owner = Some(t);
            self.lock_count = self.lock_count + 1;
            0
        } else if timeout.0 == K_NO_WAIT {
            -(EBUSY as i32)
        } else {
            -(EAGAIN as i32)
        }
    }

    /// The kernel's unlock for thread `t`: refused where `t` does not hold it.
    pub fn k_mutex_unlock(&mut self, t: ThreadId) -> (r: i32)
        requires
            old(self).wf(),
        ensures
            *final(self) == if old(self).held_by(t) {
                old(self).after_unlock()
            } else {
                *old(self)
            },
            r == if old(self).held_by(t) {
                0
            } else if old(self).owner is None {
                neg_code(EINVAL)
            } else {
                neg_code(EPERM)
            },
            final(self).wf(),
    {
        match self.owner {
            None => -(EINVAL as i32),
            Some(o) => {
                if o.0 != t.0 {
                    -(EPERM as i32)
                } else {
                    if self.lock_count <= 1 {
                        self.owner = None;
                        self.lock_count = 0;
                    } else {
                        self.lock_count = self.lock_count - 1;
                    }
                    0
                }
            },
        }
    }

    /// Locks for `t`, waiting for ever: it must be free or held by `t`, as no
    /// other thread can release it while this one waits.
    pub fn lock(&mut self, t: ThreadId)
        requires
            old(self).wf(),
            old(self).available_to(t),
            old(self).held_by(t) ==> old(self).lock_count < u32::MAX,
        ensures
            *final(self) == old(self).after_lock(t),
            final(self).wf(),
    {
        let r = self.k_mutex_lock(t, Timeout(K_FOREVER));
        assert(r == 0);
    }

    /// Locks for `t` without waiting: true if locked, false where another
    /// thread holds it.
    pub fn try_lock(&mut self, t: ThreadId) -> (r: bool)
        requires
            old(self).wf(),
            old(self).held_by(t) ==> old(self).lock_count < u32::MAX,
        ensures
            r == old(self).available_to(t),
            *final(self) == if r {
                old(self).after_lock(t)
            } else {
                *old(self)
            },
            final(self).wf(),
    {
        let code = self.k_mutex_lock(t, Timeout(K_NO_WAIT));
        match code.neg_err() {
            Ok(_) => true,
            Err(e) => {
                assert(e == EBUSY);
                false
            },
        }
    }

    /// Releases once, for its owner `t`.
    pub fn unlock(&mut self, t: ThreadId)
        requires
            old(self).wf(),
            old(self).held_by(t),
        ensures
            *final(self) == old(self).after_unlock(),
            final(self).wf(),
    {
        let r = self.k_mutex_unlock(t);
        assert(r == 0);
    }
}

/// While one thread holds a mutex no other thread is granted it, and once its
/// owner has released it as often as it locked it, the next thread is granted
/// it.
pub proof fn lemma_mutual_exclusion(m: KMutex, t1: ThreadId, t2: ThreadId)
    requires
        m.wf(),
        m.held_by(t1),
        t1 != t2,
    ensures
        !m.available_to(t2),
        m.after_unlock().owner is None ==> m.after_unlock().available_to(t2),
        m.after_unlock().owner is Some ==> m.after_unlock().held_by(t1),
        m.available_to(t1),
{
}

} // verus!
