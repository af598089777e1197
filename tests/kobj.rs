use zephyr::errno::{NegErr, EAGAIN, EBUSY, EINTR, EINVAL, EPERM};
use zephyr::poll::{KPollEvent, PollEventFuncs, PollMode};
use zephyr::kernel::{KernelState, WaitObj};
use zephyr::mutex::Mutex;
use zephyr::kobj::{KMutex, KPollSignal, KSem, ThreadId};
use zephyr::mutex_alloc::{DynMutex, MutexPool};
use zephyr::time::{DurationMs, Timeout};

const T1: ThreadId = ThreadId(1);
const T2: ThreadId = ThreadId(2);

#[test]
fn neg_err_splits_codes() {
    assert_eq!(5i32.neg_err(), Ok(5));
    assert_eq!(0i32.neg_err(), Ok(0));
    assert_eq!((-16i32).neg_err(), Err(16));
    assert_eq!(i32::MIN.neg_err(), Err(2_147_483_648));
}

#[test]
fn sem_init_rejects_bad_limits() {
    assert_eq!(KSem::init(0, 0), None);
    assert_eq!(KSem::init(11, 10), None);
    assert_eq!(KSem::init(10, 10), Some(KSem { count: 10, limit: 10 }));
}

#[test]
fn sem_give_and_take_accounting() {
    let mut s = KSem::init(1, 3).unwrap();
    let mut gives = 0u32;
    let mut takes = 0u32;
    let ops = [false, false, true, true, true, true, true, false, false, false, false, true, false];
    for op in ops {
        if op {
            s.give();
            gives += 1;
        } else {
            let before = s.count();
            let took = s.try_take();
            // A take fails exactly when the count is zero.
            assert_eq!(took, before > 0);
            if took {
                takes += 1;
            }
        }
        assert!(takes <= gives + 1);
        assert!(s.count() <= s.limit);
    }
    // The fifth give hit the limit of three.
    assert_eq!(takes, 5);
    assert_eq!(s.count(), 0);
}

#[test]
fn sem_take_codes() {
    let mut s = KSem::init(0, 2).unwrap();
    assert_eq!(s.k_sem_take(Timeout(0)), -(EBUSY as i32));
    assert_eq!(s.k_sem_take(Timeout(100)), -(EAGAIN as i32));
    assert!(!s.take_timeout(DurationMs(10)));
    s.give();
    assert!(s.take_timeout(DurationMs(10)));
    s.give();
    s.give();
    s.give();
    assert_eq!(s.count(), 2);
    s.take();
    assert_eq!(s.count(), 1);
    s.reset();
    assert_eq!(s.count(), 0);
    assert!(!s.try_take());
}

#[test]
fn signal_raise_check_reset() {
    let mut s = KPollSignal::init();
    assert_eq!(s.check(), None);
    assert_eq!(s.raise(7), 0);
    assert_eq!(s.check(), Some(7));
    // Checking leaves the state as it is.
    assert_eq!(s.check(), Some(7));
    s.reset();
    assert_eq!(s.check(), None);
}

#[test]
fn mutex_excludes_other_thread_until_released() {
    let mut m = KMutex::uninit();
    assert!(m.try_lock(T1));
    assert!(!m.try_lock(T2));
    assert_eq!(m.k_mutex_lock(T2, Timeout(0)), -(EBUSY as i32));
    assert_eq!(m.k_mutex_lock(T2, Timeout(50)), -(EAGAIN as i32));
    // The owner may lock again; it must then release twice.
    m.lock(T1);
    assert_eq!(m.lock_count, 2);
    m.unlock(T1);
    assert!(!m.try_lock(T2));
    m.unlock(T1);
    assert_eq!(m.owner, None);
    assert!(m.try_lock(T2));
    assert_eq!(m.owner, Some(T2));
}

#[test]
fn mutex_unlock_errors() {
    let mut m = KMutex::uninit();
    assert_eq!(m.k_mutex_unlock(T1), -(EINVAL as i32));
    m.lock(T1);
    assert_eq!(m.k_mutex_unlock(T2), -(EPERM as i32));
    assert_eq!(m.k_mutex_unlock(T1), 0);
    assert_eq!(m, KMutex { owner: None, lock_count: 0 });
}

#[test]
fn kernel_objects_by_handle() {
    let mut k = KernelState::new(T1);
    assert_eq!(k.define_sem(3, 2), None);
    let s = k.define_sem(0, 10).unwrap();
    for _ in 0..10 {
        k.sem_give(s);
    }
    k.sem_give(s);
    assert_eq!(k.sem_count(s), 10);
    let mut taken = 0;
    while k.sem_try_take(s) {
        taken += 1;
    }
    assert_eq!(taken, 10);
    assert!(!k.sem_take_timeout(s, DurationMs(5)));
    k.sem_give(s);
    k.sem_reset(s);
    assert_eq!(k.sem_count(s), 0);

    let m = k.define_mutex();
    assert!(k.mutex_try_lock(m));
    k.set_current(T2);
    assert!(!k.mutex_try_lock(m));
    k.set_current(T1);
    k.mutex_unlock(m);
    k.set_current(T2);
    assert!(k.mutex_lock(m));
    assert_eq!(k.mutexes[m.0].owner, Some(T2));
}

#[test]
fn mutex_pool_hands_out_lowest_free_slot() {
    let mut k = KernelState::new(T1);
    let slots: Vec<_> = (0..10).map(|_| k.define_mutex()).collect();
    let mut pool = MutexPool::new(slots.clone());
    assert_eq!(pool.used.len(), 2);
    let mut got = Vec::new();
    for _ in 0..10 {
        got.push(DynMutex::new(&mut pool, &mut k).unwrap());
    }
    assert_eq!(got.iter().map(|m| m.slot).collect::<Vec<_>>(), (0..10).collect::<Vec<_>>());
    assert_eq!(got[3].mutex, slots[3]);
    assert!(DynMutex::new(&mut pool, &mut k).is_none());
    assert_eq!(pool.alloc_mutex(), None);
    // A returned mutex is handed out again, unlocked.
    assert!(k.mutex_lock(got[3].mutex));
    let m3 = got.remove(3);
    m3.free(&mut pool);
    let again = DynMutex::new(&mut pool, &mut k).unwrap();
    assert_eq!(again.slot, 3);
    assert_eq!(k.mutexes[again.mutex.0].owner, None);
    pool.free_mutex(9);
    pool.free_mutex(0);
    assert_eq!(pool.alloc_mutex(), Some(0));
    assert_eq!(pool.alloc_mutex(), Some(9));
}

#[test]
fn aggregate_wait_codes() {
    let mut k = KernelState::new(T1);
    let s = k.define_sem(0, 1).unwrap();
    let mut e = KPollEvent::new();
    e.init(&s, PollMode::NotifyOnly);
    let mut events = vec![e, KPollEvent::new()];
    assert_eq!(k.k_poll(&mut events, Timeout(-1)), -(EINTR as i32));
    assert_eq!(k.k_poll(&mut events, Timeout(0)), -(EAGAIN as i32));
    assert_eq!(k.waits, 1);
    assert_eq!(k.poll_timeout(&mut events, Some(Timeout(0))), Ok(false));
    k.sem_give(s);
    assert_eq!(k.k_poll(&mut events, Timeout(-1)), 0);
    assert!(events[0].ready());
    assert!(!events[1].ready());
    // Readiness is only reported: the count is left as it was.
    assert_eq!(k.sem_count(s), 1);
    assert_eq!(k.poll(&mut events), Ok(()));
}

#[test]
fn blocked_take_gets_the_next_give() {
    let mut k = KernelState::new(T1);
    let s = k.define_sem(0, 5).unwrap();
    // A take at count zero blocks the caller.
    assert!(!k.sem_take(s));
    assert_eq!(k.waiters, vec![(WaitObj::Sem(s), T1)]);
    k.set_current(T2);
    assert!(!k.sem_take(s));
    // Each give hands its unit to the oldest blocked taker.
    k.sem_give(s);
    assert_eq!(k.waiters, vec![(WaitObj::Sem(s), T2)]);
    assert_eq!(k.sem_count(s), 0);
    k.sem_give(s);
    assert!(k.waiters.is_empty());
    assert_eq!(k.sem_count(s), 0);
    k.sem_give(s);
    assert_eq!(k.sem_count(s), 1);
    assert!(k.sem_take(s));
    assert_eq!(k.sem_count(s), 0);
}

#[test]
fn contended_lock_waits_for_release() {
    let mut k = KernelState::new(T1);
    let h = k.define_mutex();
    let m = Mutex::new(h, 0u32);
    let g1 = m.lock(&mut k).unwrap();
    let g1b = m.lock(&mut k).unwrap();
    k.set_current(T2);
    assert!(m.lock(&mut k).is_none());
    assert!(m.resume(&k).is_none());
    assert_eq!(k.waiters, vec![(WaitObj::Mutex(h), T2)]);
    k.set_current(T1);
    // The first release leaves one lock outstanding: T2 still waits.
    m.unlock(&mut k, g1b);
    assert_eq!(k.mutexes[h.0].owner, Some(T1));
    m.unlock(&mut k, g1);
    // The release that frees it hands it to T2.
    assert_eq!(k.mutexes[h.0].owner, Some(T2));
    assert_eq!(k.mutexes[h.0].lock_count, 1);
    assert!(k.waiters.is_empty());
    assert!(m.resume(&k).is_none());
    k.set_current(T2);
    let g2 = m.resume(&k).unwrap();
    m.unlock(&mut k, g2);
    assert_eq!(k.mutexes[h.0].owner, None);
}
