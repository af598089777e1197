use vstd::prelude::*;

use crate::kernel::KernelState;
use crate::poll::MutexRef;

verus! {

/// Bit `k` of `b`.
pub open spec fn bit(b: u8, k: u8) -> bool {
    (b >> k) & 1u8 == 1u8
}

proof fn lemma_set_bit(b: u8, k: u8, j: u8)
    requires
        k < 8,
        j < 8,
    ensures
        bit(b | (1u8 << k), j) == (j == k || bit(b, j)),
{
    assert(((b | (1u8 << k)) >> j) & 1u8 == 1u8 <==> (j == k || (b >> j) & 1u8 == 1u8))
        by (bit_vector)
        requires k < 8, j < 8;
}

proof fn lemma_clear_bit(b: u8, k: u8, j: u8)
    requires
        k < 8,
        j < 8,
    ensures
        bit(b & !(1u8 << k), j) == (j != k && bit(b, j)),
{
    assert(((b & !(1u8 << k)) >> j) & 1u8 == 1u8 <==> (j != k && (b >> j) & 1u8 == 1u8))
        by (bit_vector)
        requires k < 8, j < 8;
}

/// A fixed pool of kernel mutexes handed out one at a time, with one bit per
/// slot marking it in use.
pub struct MutexPool {
    pub slots: Vec<MutexRef>,
    pub used: Vec<u8>,
}

impl MutexPool {
    pub open spec fn wf(&self) -> bool {
        self.used@.len() == (self.slots@.len() + 7) / 8
    }

    /// Whether slot `i` is in use.
    pub open spec fn in_use(&self, i: int) -> bool {
        bit(self.used@[i / 8], (i % 8) as u8)
    }

    /// A pool over `slots`, all free.
    pub fn new(slots: Vec<MutexRef>) -> (r: MutexPool)
        requires
            slots@.len() + 7 <= usize::MAX,
        ensures
            r.wf(),
            r.slots@ == slots@,
            forall|i: int| 0 <= i < r.slots@.len() ==> !#[trigger] r.in_use(i),
    {
        let n = (slots.len() + 7) / 8;
        let mut used: Vec<u8> = Vec::new();
        let mut i: usize = 0;
        while i < n
            invariant
                0 <= i <= n,
                used@.len() == i,
                forall|j: int| 0 <= j < i ==> used@[j] == 0u8,
            decreases n - i,
        {
            used.push(0u8);
            i = i + 1;
        }
        let r = MutexPool { slots, used };
        assert forall|i: int| 0 <= i < r.slots@.len() implies !#[trigger] r.in_use(i) by {
            let k = (i % 8) as u8;
            assert(((0u8 >> k) & 1u8) == 0u8) by (bit_vector);
        }
        r
    }

    /// Takes the lowest free slot and returns its mutex; `None` where every
    /// slot is in use.
    pub fn alloc_mutex(&mut self) -> (r: Option<usize>)
        requires
            old(self).wf(),
        ensures
            final(self).wf(),
            final(self).slots == old(self).slots,
            r is None <==> forall|i: int| 0 <= i < old(self).slots@.len() ==> #[trigger] old(self).in_use(i),
            r is None ==> final(self).used@ == old(self).used@,
            r matches Some(i) ==> {
                &&& i < old(self).slots@.len()
                &&& !old(self).in_use(i as int)
                &&& forall|j: int| 0 <= j < i ==> #[trigger] old(self).in_use(j)
                &&& forall|j: int|
                    0 <= j < old(self).slots@.len() ==> #[trigger] final(self).in_use(j) == (j == i
                        || old(self).in_use(j))
            },
    {
        let mut i: usize = 0;
        while i < self.slots.len()
            invariant
                0 <= i <= self.slots@.len(),
                *self == *old(self),
                old(self).wf(),
                forall|j: int| 0 <= j < i ==> #[trigger] old(self).in_use(j),
            decreases self.slots@.len() - i,
        {
            let byte = self.used[i / 8];
            let k = (i % 8) as u8;
            assert(old(self).in_use(i as int) == bit(byte, k));
            assert((byte >> k) & 1u8 == 0u8 || (byte >> k) & 1u8 == 1u8) by (bit_vector);
            if (byte >> k) & 1u8 == 0u8 {
                self.used.set(i / 8, byte | (1u8 << k));
                assert forall|j: int| 0 <= j < old(self).slots@.len() implies #[trigger] self.in_use(j)
                    == (j == i || old(self).in_use(j)) by {
                    let jb = (j % 8) as u8;
                    if j / 8 == i / 8 {
                        lemma_set_bit(byte, k, jb);
                        assert(j == i <==> jb == k);
                    }
                }
                return Some(i);
            }
            i = i + 1;
        }
        None
    }

    /// Returns slot `index` to the pool.
    pub fn free_mutex(&mut self, index: usize)
        requires
            old(self).wf(),
            index < old(self).slots@.len(),
        ensures
            final(self).wf(),
            final(self).slots == old(self).slots,
            forall|j: int|
                0 <= j < old(self).slots@.len() ==> #[trigger] final(self).in_use(j) == (j != index
                    && old(self).in_use(j)),
    {
        let byte = self.used[index / 8];
        let k = (index % 8) as u8;
        self.used.set(index / 8, byte & !(1u8 << k));
        assert forall|j: int| 0 <= j < old(self).slots@.len() implies #[trigger] self.in_use(j) == (j
            != index && old(self).in_use(j)) by {
            let jb = (j % 8) as u8;
            if j / 8 == index / 8 {
                lemma_clear_bit(byte, k, jb);
                assert(j == index <==> jb == k);
            }
        }
    }
}

/// A mutex taken from a pool, unlocked when handed out.
pub struct DynMutex {
    pub slot: usize,
    pub mutex: MutexRef,
}

impl DynMutex {
    /// Takes a free mutex from `pool` and initialises it; `None` where the
    /// pool is exhausted.
    pub fn new(pool: &mut MutexPool, k: &mut KernelState) -> (r: Option<DynMutex>)
        requires
            old(pool).wf(),
            old(k).wf(),
            forall|i: int| 0 <= i < old(pool).slots@.len() ==> old(k).valid_mutex(#[trigger] old(pool).slots@[i]),
        ensures
            final(pool).wf(),
            final(k).wf(),
            final(pool).slots == old(pool).slots,
            r is None <==> forall|i: int| 0 <= i < old(pool).slots@.len() ==> #[trigger] old(pool).in_use(i),
            r is None ==> *final(k) == *old(k) && final(pool).used@ == old(pool).used@,
            r matches Some(m) ==> {
                &&& m.slot < old(pool).slots@.len()
                &&& !old(pool).in_use(m.slot as int)
                &&& forall|j: int| 0 <= j < m.slot ==> #[trigger] old(pool).in_use(j)
                &&& forall|j: int|
                    0 <= j < old(pool).slots@.len() ==> #[trigger] final(pool).in_use(j) == (j
                        == m.slot || old(pool).in_use(j))
                &&& m.mutex == old(pool).slots@[m.slot as int]
                &&& final(k).mutexes@[m.mutex.0 as int].owner is None
                &&& *final(k) == (KernelState { mutexes: final(k).mutexes, ..*old(k) })
            },
    {
        match pool.alloc_mutex() {
            Some(slot) => {
                let mutex = pool.slots[slot];
                k.mutex_init(mutex);
                Some(DynMutex { slot, mutex })
            },
            None => None,
        }
    }

    /// Gives the mutex back to `pool`.
    pub fn free(self, pool: &mut MutexPool)
        requires
            old(pool).wf(),
            self.slot < old(pool).slots@.len(),
        ensures
            final(pool).wf(),
            final(pool).slots == old(pool).slots,
            forall|j: int|
                0 <= j < old(pool).slots@.len() ==> #[trigger] final(pool).in_use(j) == (j
                    != self.slot && old(pool).in_use(j)),
    {
        pool.free_mutex(self.slot);
    }
}

} // verus!
