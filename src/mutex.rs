use vstd::prelude::*;

use crate::kernel::{released, KernelState, WaitObj};
use crate::kobj::ThreadId;
use crate::poll::MutexRef;

verus! {

/// The data a mutex guards.
pub struct MutexData<T>(T);

impl<T> MutexData<T> {
    pub closed spec fn value(&self) -> T {
        self.0
    }

    pub fn new(data: T) -> (r: MutexData<T>)
        ensures
            r.value() == data,
    {
        MutexData(data)
    }
}

/// Proof that a thread holds a mutex, handed out by `Mutex::lock` and given
/// back to `Mutex::unlock`.
pub struct MutexGuard {
    mutex: MutexRef,
    thread: ThreadId,
}

impl MutexGuard {
    pub closed spec fn mutex(&self) -> MutexRef {
        self.mutex
    }

    pub closed spec fn thread(&self) -> ThreadId {
        self.thread
    }
}

/// Data reachable only while the kernel mutex placed at `mutex` is held.
pub struct Mutex<T> {
    mutex: MutexRef,
    data: MutexData<T>,
}

impl<T> Mutex<T> {
    pub closed spec fn kobj_spec(&self) -> MutexRef {
        self.mutex
    }

    pub closed spec fn value(&self) -> T {
        self.data.value()
    }

    /// Guards `data` with the kernel mutex at `mutex`, which nothing else may use.
    pub fn new(mutex: MutexRef, data: T) -> (r: Mutex<T>)
        ensures
            r.kobj_spec() == mutex,
            r.value() == data,
    {
        Mutex { mutex, data: MutexData::new(data) }
    }

    /// The kernel mutex.
    pub fn kobj(&self) -> (r: MutexRef)
        ensures
            r == self.kobj_spec(),
    {
        self.mutex
    }

    /// Locks for the calling thread, waiting for ever: a guard where the
    /// mutex is granted at once; `None` where another thread holds it, and the
    /// calling thread is then blocked until the holder's last release hands
    /// it over (see `resume`).
    pub fn lock(&self, k: &mut KernelState) -> (g: Option<MutexGuard>)
        requires
            old(k).wf(),
            old(k).valid_mutex(self.kobj_spec()),
            old(k).mutexes@[self.kobj_spec().0 as int].held_by(old(k).current)
                ==> old(k).mutexes@[self.kobj_spec().0 as int].lock_count < u32::MAX,
        ensures
            final(k).wf(),
            g is Some == old(k).mutexes@[self.kobj_spec().0 as int].available_to(old(k).current),
            g matches Some(g) ==> {
                &&& g.mutex() == self.kobj_spec()
                &&& g.thread() == old(k).current
                &&& *final(k) == (KernelState { mutexes: final(k).mutexes, ..*old(k) })
                &&& final(k).mutexes@ == old(k).mutexes@.update(
                    self.kobj_spec().0 as int,
                    old(k).mutexes@[self.kobj_spec().0 as int].after_lock(old(k).current),
                )
            },
            g is None ==> final(k).waiters@ == old(k).waiters@.push(
                (WaitObj::Mutex(self.kobj_spec()), old(k).current),
            ) && *final(k) == (KernelState { waiters: final(k).waiters, ..*old(k) }),
    {
        if k.mutex_lock(self.mutex) {
            Some(MutexGuard { mutex: self.mutex, thread: k.current })
        } else {
            None
        }
    }

    /// The guard of a calling thread that was blocked in `lock` and has since
    /// been handed the mutex; `None` while it does not hold it.
    pub fn resume(&self, k: &KernelState) -> (g: Option<MutexGuard>)
        requires
            k.valid_mutex(self.kobj_spec()),
        ensures
            g is Some == k.mutexes@[self.kobj_spec().0 as int].held_by(k.current),
            g matches Some(g) ==> g.mutex() == self.kobj_spec() && g.thread() == k.current,
    {
        match k.mutexes[self.mutex.0].owner {
            Some(o) => if o.0 == k.current.0 {
                Some(MutexGuard { mutex: self.mutex, thread: k.current })
            } else {
                None
            },
            None => None,
        }
    }

    /// The guarded data.
    pub fn get(&self, g: &MutexGuard) -> (r: &T)
        requires
            g.mutex() == self.kobj_spec(),
        ensures
            *r == self.value(),
    {
        &self.data.0
    }

    /// Replaces the guarded data.
    pub fn set(&mut self, g: &MutexGuard, value: T)
        requires
            g.mutex() == old(self).kobj_spec(),
        ensures
            final(self).value() == value,
            final(self).kobj_spec() == old(self).kobj_spec(),
    {
        self.data = MutexData(value);
    }

    /// Releases the mutex once; the guard is used up.
    pub fn unlock(&self, k: &mut KernelState, g: MutexGuard)
        requires
            old(k).wf(),
            g.mutex() == self.kobj_spec(),
            old(k).valid_mutex(self.kobj_spec()),
            old(k).current == g.thread(),
            old(k).mutexes@[self.kobj_spec().0 as int].held_by(g.thread()),
        ensures
            final(k).wf(),
            released(&*old(k), &*final(k), self.kobj_spec()),
    {
        k.mutex_unlock(self.mutex);
    }
}

} // verus!
