use std::cell::RefCell;
use std::collections::BTreeMap;
use std::rc::Rc;

use zephyr::executor::{
    Delay, Executor, SemaphoreStream, SpawnError, Step, TaskEntry, TaskPoll,
};
use zephyr::kernel::KernelState;
use zephyr::kobj::ThreadId;
use zephyr::mutex::Mutex;
use zephyr::poll::{PollError, SignalRef};
use zephyr::reactor::Reactor;
use zephyr::time::{Ticks, Timeout};

type TaskFn = Box<dyn FnMut(&mut Executor, &mut KernelState, u64) -> bool>;

const MAIN: ThreadId = ThreadId(1);
const OTHER: ThreadId = ThreadId(2);

struct Run {
    polls: Vec<u64>,
    steps: Vec<Step>,
}

fn setup() -> (KernelState, Executor, SignalRef) {
    let mut k = KernelState::new(MAIN);
    let signal = k.define_signal();
    let mutex = k.define_mutex();
    let ex = Executor::new(7, mutex, signal, MAIN);
    (k, ex, signal)
}

fn spawn(ex: &mut Executor, tasks: &mut BTreeMap<u64, TaskFn>, f: TaskFn) -> u64 {
    let id = ex.spawn_local_obj().unwrap();
    tasks.insert(id, f);
    id
}

/// Drives the executor until it is done or `max_steps` steps have passed;
/// `on_block` runs whenever the executor's wait was interrupted, standing for
/// another thread that acts while the executor is blocked.
fn run(
    ex: &mut Executor,
    k: &mut KernelState,
    tasks: &mut BTreeMap<u64, TaskFn>,
    max_steps: usize,
    on_block: &mut dyn FnMut(&mut Executor, &mut KernelState),
) -> Run {
    let mut out = Run { polls: Vec::new(), steps: Vec::new() };
    for _ in 0..max_steps {
        let s = ex.step(k);
        out.steps.push(s);
        match s {
            Step::Poll(id) => {
                out.polls.push(id);
                let f = tasks.get_mut(&id).unwrap();
                let done = f(ex, k, id);
                if done {
                    tasks.remove(&id);
                }
                ex.task_polled(id, done);
            }
            Step::Done => break,
            Step::Interrupted => on_block(ex, k),
            _ => {}
        }
    }
    out
}

fn no_block() -> impl FnMut(&mut Executor, &mut KernelState) {
    |_: &mut Executor, _: &mut KernelState| {}
}

#[test]
fn mutex_counter_two_tasks() {
    let (mut k, mut ex, _) = setup();
    let m = k.define_mutex();
    let counter = Rc::new(RefCell::new(Mutex::new(m, 0u64)));
    let mut tasks: BTreeMap<u64, TaskFn> = BTreeMap::new();
    for _ in 0..2 {
        let c = counter.clone();
        spawn(
            &mut ex,
            &mut tasks,
            Box::new(move |_, k, _| {
                for _ in 0..1000 {
                    let mut mx = c.borrow_mut();
                    let g = mx.lock(k).unwrap();
                    let v = *mx.get(&g);
                    mx.set(&g, v + 1);
                    mx.unlock(k, g);
                }
                true
            }),
        );
    }
    let r = run(&mut ex, &mut k, &mut tasks, 100, &mut no_block());
    assert_eq!(*r.steps.last().unwrap(), Step::Done);
    let mx = counter.borrow();
    let g = {
        // Only to read the value back: the lock is free again.
        assert_eq!(k.mutexes[m.0].owner, None);
        mx.lock(&mut k).unwrap()
    };
    assert_eq!(*mx.get(&g), 2000);
    mx.unlock(&mut k, g);
}

#[test]
fn semaphore_stream_takes_in_order() {
    let (mut k, mut ex, _) = setup();
    let sem = k.define_sem(0, 10).unwrap();
    let out: Rc<RefCell<Vec<String>>> = Rc::new(RefCell::new(Vec::new()));
    let mut tasks: BTreeMap<u64, TaskFn> = BTreeMap::new();
    let o = out.clone();
    let stream = SemaphoreStream::new(sem);
    let mut taken = 0;
    spawn(
        &mut ex,
        &mut tasks,
        Box::new(move |ex, k, id| {
            while taken < 10 {
                if stream.poll_next(k, &mut ex.reactor, id) {
                    o.borrow_mut().push(format!("Took {}", taken));
                    taken += 1;
                } else {
                    return false;
                }
            }
            true
        }),
    );
    let mut given = 0;
    let mut producer = |_: &mut Executor, k: &mut KernelState| {
        // The producer thread gives while the executor is blocked.
        if given < 10 {
            k.set_current(OTHER);
            k.sem_give(sem);
            k.set_current(MAIN);
            given += 1;
        }
    };
    let r = run(&mut ex, &mut k, &mut tasks, 1000, &mut producer);
    assert_eq!(*r.steps.last().unwrap(), Step::Done);
    let expected: Vec<String> = (0..10).map(|i| format!("Took {}", i)).collect();
    assert_eq!(*out.borrow(), expected);
    assert_eq!(k.sem_count(sem), 0);
}

#[test]
fn zero_delay_resolves_without_blocking() {
    let (mut k, mut ex, _) = setup();
    let mut tasks: BTreeMap<u64, TaskFn> = BTreeMap::new();
    let delay = Delay::new(k.now, Ticks(0));
    spawn(&mut ex, &mut tasks, Box::new(move |ex, k, id| delay.poll(k.now, &mut ex.reactor, id)));
    spawn(&mut ex, &mut tasks, Box::new(|_, _, _| true));
    let r = run(&mut ex, &mut k, &mut tasks, 100, &mut no_block());
    assert_eq!(*r.steps.last().unwrap(), Step::Done);
    assert_eq!(k.waits, 0);
    assert!(r.steps.iter().all(|s| matches!(s, Step::Poll(_) | Step::Done)));
}

#[test]
fn delay_waits_until_its_deadline() {
    let (mut k, mut ex, _) = setup();
    let mut tasks: BTreeMap<u64, TaskFn> = BTreeMap::new();
    let delay = Delay::new(k.now, Ticks(500));
    spawn(&mut ex, &mut tasks, Box::new(move |ex, k, id| delay.poll(k.now, &mut ex.reactor, id)));
    let r = run(&mut ex, &mut k, &mut tasks, 100, &mut no_block());
    assert_eq!(*r.steps.last().unwrap(), Step::Done);
    // One wait of exactly the remaining time, after which the timer fired.
    assert_eq!(k.waits, 1);
    assert_eq!(k.now, Ticks(500));
    assert!(r.steps.contains(&Step::TimersFired));
}

#[test]
fn drain_leaves_only_pending_task() {
    let (mut k, mut ex, _) = setup();
    let mut tasks: BTreeMap<u64, TaskFn> = BTreeMap::new();
    spawn(&mut ex, &mut tasks, Box::new(|_, _, _| false));
    spawn(&mut ex, &mut tasks, Box::new(|_, _, _| true));
    loop {
        match ex.step(&mut k) {
            Step::Poll(id) => {
                let done = (tasks.get_mut(&id).unwrap())(&mut ex, &mut k, id);
                ex.task_polled(id, done);
            }
            _ => break,
        }
    }
    assert_eq!(ex.tasks.len(), 1);
}

#[test]
fn raise_before_wait_returns_at_once() {
    let (mut k, _, _) = setup();
    let waiter_signal = k.define_signal();
    let own = k.define_signal();
    let mut reactor = Reactor::new(own);
    reactor.register(&waiter_signal, 42);
    k.signal_reset(waiter_signal);
    // Another thread raises between the reset and the wait.
    k.set_current(OTHER);
    k.signal_raise(waiter_signal, 5);
    k.set_current(MAIN);
    let woken = reactor.poll(&mut k, Some(Timeout(1000))).unwrap();
    assert_eq!(woken, vec![42]);
    assert_eq!(k.now, Ticks(0));
    assert_eq!(k.waits, 0);
    assert_eq!(reactor.wakers.len(), 0);
    assert_eq!(reactor.events.len(), 1);
}

#[test]
fn signal_raise_is_seen_after_many_resets() {
    let (mut k, _, _) = setup();
    let s = k.define_signal();
    let own = k.define_signal();
    let mut reactor = Reactor::new(own);
    for i in 0..500 {
        reactor.register(&s, i);
        k.signal_reset(s);
        k.signal_raise(s, i as i32);
        let woken = reactor.poll(&mut k, Some(Timeout(10))).unwrap();
        assert_eq!(woken, vec![i]);
    }
    assert_eq!(k.waits, 0);
}

#[test]
fn wait_without_ready_slot_times_out() {
    let (mut k, _, _) = setup();
    let own = k.define_signal();
    let s = k.define_signal();
    let mut reactor = Reactor::new(own);
    reactor.register(&s, 3);
    let woken = reactor.poll(&mut k, Some(Timeout(250))).unwrap();
    assert!(woken.is_empty());
    assert_eq!(k.now, Ticks(250));
    assert_eq!(k.waits, 1);
    assert_eq!(reactor.wakers, vec![3]);
}

#[test]
fn endless_wait_on_nothing_ready_is_canceled() {
    let (mut k, _, _) = setup();
    let own = k.define_signal();
    let mut reactor = Reactor::new(own);
    assert_eq!(reactor.poll(&mut k, None), Err(PollError::Canceled));
    assert_eq!(k.waits, 1);
}

#[test]
fn all_ready_tasks_polled_before_any_wait() {
    let (mut k, mut ex, _) = setup();
    let mut tasks: BTreeMap<u64, TaskFn> = BTreeMap::new();
    for _ in 0..5 {
        spawn(&mut ex, &mut tasks, Box::new(|_, _, _| true));
    }
    let r = run(&mut ex, &mut k, &mut tasks, 100, &mut no_block());
    assert_eq!(r.polls, vec![0, 1, 2, 3, 4]);
    assert_eq!(
        r.steps,
        vec![Step::Poll(0), Step::Poll(1), Step::Poll(2), Step::Poll(3), Step::Poll(4), Step::Done]
    );
    assert_eq!(k.waits, 0);
}

#[test]
fn completed_task_never_polled_again() {
    let (mut k, mut ex, _) = setup();
    let mut tasks: BTreeMap<u64, TaskFn> = BTreeMap::new();
    let done_id = spawn(&mut ex, &mut tasks, Box::new(|_, _, _| true));
    let other = spawn(&mut ex, &mut tasks, Box::new(|_, _, _| false));
    let _ = run(&mut ex, &mut k, &mut tasks, 2, &mut no_block());
    // Waking the finished task does nothing; the pending one runs again.
    ex.wake(&mut k, done_id);
    ex.wake(&mut k, other);
    assert_eq!(ex.tasks, vec![TaskEntry { id: other, runnable: true }]);
    assert_eq!(ex.get_runnable(), TaskPoll::Ready(other));
    assert_eq!(ex.get_runnable(), TaskPoll::Pending);
    ex.task_polled(other, true);
    ex.task_polled(other, true);
    assert_eq!(ex.get_runnable(), TaskPoll::Finished);
}

#[test]
fn wake_from_other_thread_raises_signal() {
    let (mut k, mut ex, signal) = setup();
    let mut tasks: BTreeMap<u64, TaskFn> = BTreeMap::new();
    let id = spawn(&mut ex, &mut tasks, Box::new(|_, _, _| false));
    assert_eq!(ex.get_runnable(), TaskPoll::Ready(id));
    k.set_current(OTHER);
    ex.wake(&mut k, id);
    assert_eq!(k.signal_check(signal), Some(0));
    // A second wake while already runnable raises nothing new.
    k.signal_reset(signal);
    ex.wake(&mut k, id);
    assert_eq!(k.signal_check(signal), None);
}

#[test]
fn wake_on_own_thread_does_not_raise() {
    let (mut k, mut ex, signal) = setup();
    let mut tasks: BTreeMap<u64, TaskFn> = BTreeMap::new();
    let id = spawn(&mut ex, &mut tasks, Box::new(|_, _, _| false));
    assert_eq!(ex.get_runnable(), TaskPoll::Ready(id));
    ex.wake(&mut k, id);
    assert_eq!(k.signal_check(signal), None);
    assert_eq!(ex.get_runnable(), TaskPoll::Ready(id));
}

#[test]
fn handle_spawns_only_onto_its_executor() {
    let (mut k, mut ex, signal) = setup();
    let m = k.define_mutex();
    let mut other = Executor::new(8, m, signal, MAIN);
    let h = ex.spawner();
    assert_eq!(h.spawn_local_obj(&mut ex), Ok(0));
    assert_eq!(h.spawn_local_obj(&mut ex), Ok(1));
    assert_eq!(h.spawn_local_obj(&mut other), Err(SpawnError::Shutdown));
    assert_eq!(other.tasks.len(), 0);
    assert_eq!(ex.tasks.len(), 2);
}

#[test]
fn empty_executor_is_done_at_once() {
    let (mut k, mut ex, _) = setup();
    assert_eq!(ex.step(&mut k), Step::Done);
    assert_eq!(ex.get_runnable(), TaskPoll::Finished);
}
