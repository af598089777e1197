use vstd::prelude::*;

use crate::kernel::{bump, KernelState};
use crate::kobj::ThreadId;
use crate::poll::{MutexRef, PollTarget, PollableKobj, SemRef, SignalRef};
use crate::poll::KPollEvent;
use crate::reactor::{kept_events_upto, kept_wakers_upto, woken_upto, Reactor};
use crate::time::{Ticks, Timeout};
use crate::timer::{after_register, expired, pending, TimerPoll};

verus! {

/// Scheduling state of one live task; its future is kept by the caller under
/// the same id, which also names its waker.
#[derive(Clone, Copy, Debug, PartialEq, Eq, Structural)]
pub struct TaskEntry {
    pub id: u64,
    pub runnable: bool,
}

/// What the run queue offers next.
#[derive(Clone, Copy, Debug, PartialEq, Eq, Structural)]
pub enum TaskPoll {
    /// No task is left.
    Finished,
    /// The id of the task to poll next; its runnable flag is now clear.
    Ready(u64),
    /// Tasks are left, none of them runnable.
    Pending,
}

/// Why a spawn was refused.
#[derive(Clone, Copy, Debug, PartialEq, Eq, Structural)]
pub enum SpawnError {
    /// The executor the handle was made for is gone.
    Shutdown,
}

/// One step of the run loop.
#[derive(Clone, Copy, Debug, PartialEq, Eq, Structural)]
pub enum Step {
    /// Poll the future of the task with the id once, then call `task_polled`.
    Poll(u64),
    /// Some timers expired and their tasks were woken; nothing blocked.
    TimersFired,
    /// The executor blocked in one aggregate wait and woke the ready tasks.
    Waited,
    /// The aggregate wait was interrupted; nothing was woken.
    Interrupted,
    /// No task is left: the run is over.
    Done,
}

/// No id has two entries.
pub open spec fn unique_ids(s: Seq<TaskEntry>) -> bool {
    forall|i: int, j: int| 0 <= i < j < s.len() ==> #[trigger] s[i].id != #[trigger] s[j].id
}

pub open spec fn has_task(s: Seq<TaskEntry>, id: u64) -> bool {
    exists|i: int| 0 <= i < s.len() && #[trigger] s[i].id == id
}

pub open spec fn none_runnable(s: Seq<TaskEntry>) -> bool {
    forall|i: int| 0 <= i < s.len() ==> !(#[trigger] s[i]).runnable
}

/// `i` is the first runnable entry.
pub open spec fn first_runnable(s: Seq<TaskEntry>, i: int) -> bool {
    &&& 0 <= i < s.len()
    &&& s[i].runnable
    &&& forall|j: int| 0 <= j < i ==> !(#[trigger] s[j]).runnable
}

proof fn lemma_woken_from_wakers(k: KernelState, evs: Seq<KPollEvent>, ws: Seq<u64>, n: nat)
    requires
        n <= ws.len(),
    ensures
        forall|x: u64| #[trigger] woken_upto(k, evs, ws, n).contains(x) ==> ws.contains(x),
    decreases n,
{
    if n > 0 {
        lemma_woken_from_wakers(k, evs, ws, (n - 1) as nat);
        let p = woken_upto(k, evs, ws, (n - 1) as nat);
        assert forall|x: u64| #[trigger] woken_upto(k, evs, ws, n).contains(x) implies ws.contains(
            x,
        ) by {
            if k.target_ready(evs[n as int].target) {
                lemma_push_contains(p, ws[n - 1], x);
            }
        }
    }
}

proof fn lemma_push_contains(s: Seq<u64>, v: u64, x: u64)
    ensures
        s.push(v).contains(x) <==> (s.contains(x) || x == v),
{
    let p = s.push(v);
    if p.contains(x) {
        let k = choose|k: int| 0 <= k < p.len() && p[k] == x;
        if k < s.len() {
            assert(s[k] == x);
        }
    }
    if s.contains(x) {
        let k = choose|k: int| 0 <= k < s.len() && s[k] == x;
        assert(p[k] == x);
    }
    if x == v {
        assert(p[s.len() as int] == x);
    }
}

/// `s` after waking every task whose id is in `ids`.
pub open spec fn woken_tasks(s: Seq<TaskEntry>, ids: Seq<u64>) -> Seq<TaskEntry> {
    Seq::new(
        s.len(),
        |i: int| TaskEntry { id: s[i].id, runnable: s[i].runnable || ids.contains(s[i].id) },
    )
}

/// Tasks are left and none of them is runnable.
pub open spec fn idle(s: Seq<TaskEntry>) -> bool {
    s.len() > 0 && none_runnable(s)
}

/// `d` is the soonest deadline of `s`.
pub open spec fn soonest(s: Seq<(u64, Ticks)>, d: Ticks) -> bool {
    &&& exists|i: int| 0 <= i < s.len() && (#[trigger] s[i]).1 == d
    &&& forall|i: int| 0 <= i < s.len() ==> d.0 <= (#[trigger] s[i]).1.0
}

/// Two kernels with the same objects find the same slots ready.
proof fn lemma_same_readiness(
    k1: KernelState,
    k2: KernelState,
    evs: Seq<KPollEvent>,
    ws: Seq<u64>,
    n: nat,
)
    requires
        k1.sems@ == k2.sems@,
        k1.signals@ == k2.signals@,
    ensures
        woken_upto(k1, evs, ws, n) == woken_upto(k2, evs, ws, n),
        kept_wakers_upto(k1, evs, ws, n) == kept_wakers_upto(k2, evs, ws, n),
        kept_events_upto(k1, evs, n) == kept_events_upto(k2, evs, n),
        k1.any_ready(evs) == k2.any_ready(evs),
        forall|e: KPollEvent| #[trigger] k1.polled(e) == k2.polled(e),
    decreases n,
{
    assert forall|t: PollTarget| #[trigger] k1.target_ready(t) == k2.target_ready(t) by {}
    if n > 0 {
        lemma_same_readiness(k1, k2, evs, ws, (n - 1) as nat);
    }
}

/// A cooperative executor for one thread: it polls each runnable task in
/// turn and, once none is runnable, blocks in one aggregate wait bounded by
/// the soonest timer.
pub struct Executor {
    /// Identity that handles made by `spawner` refer to.
    pub ident: u64,
    pub tasks: Vec<TaskEntry>,
    pub next_id: u64,
    /// Mutex that guards the executor's state against other threads.
    pub mutex: MutexRef,
    /// Signal raised to wake the executor from another thread.
    pub thread_signal: SignalRef,
    /// Thread that runs the executor.
    pub thread: ThreadId,
    pub reactor: Reactor,
    /// Whether the current pass over the run queue has begun.
    pub draining: bool,
}

/// A handle that spawns onto an executor while it lives.
#[derive(Clone, Copy, Debug, PartialEq, Eq, Structural)]
pub struct ExecutorHandle {
    pub executor: u64,
}

impl Executor {
    pub open spec fn wf(&self) -> bool {
        &&& unique_ids(self.tasks@)
        &&& forall|i: int| 0 <= i < self.tasks@.len() ==> (#[trigger] self.tasks@[i]).id < self.next_id
        &&& self.reactor.wf()
        &&& self.reactor.signal_slot() == PollTarget::Signal(self.thread_signal)
    }

    /// An executor with no task, run by `thread`, woken from other threads
    /// through `thread_signal`.
    pub fn new(ident: u64, mutex: MutexRef, thread_signal: SignalRef, thread: ThreadId) -> (r:
        Executor)
        ensures
            r.wf(),
            r.ident == ident,
            r.tasks@.len() == 0,
            r.next_id == 0,
            r.mutex == mutex,
            r.thread_signal == thread_signal,
            r.thread == thread,
            r.reactor.events@.len() == 1,
            r.reactor.timers.tasks@.len() == 0,
            !r.draining,
    {
        Executor {
            ident,
            tasks: Vec::new(),
            next_id: 0,
            mutex,
            thread_signal,
            thread,
            reactor: Reactor::new(thread_signal),
            draining: false,
        }
    }

    /// A handle that spawns onto this executor.
    pub fn spawner(&self) -> (r: ExecutorHandle)
        ensures
            r.executor == self.ident,
    {
        ExecutorHandle { executor: self.ident }
    }

    /// Adds a runnable task and returns its id, under which the caller keeps
    /// its future.
    pub fn spawn_local_obj(&mut self) -> (r: Result<u64, SpawnError>)
        requires
            old(self).wf(),
            old(self).next_id < u64::MAX,
        ensures
            final(self).wf(),
            r == Ok::<u64, SpawnError>(old(self).next_id),
            final(self).tasks@ == old(self).tasks@.push(
                TaskEntry { id: old(self).next_id, runnable: true },
            ),
            final(self).next_id == old(self).next_id + 1,
            *final(self) == (Executor {
                tasks: final(self).tasks,
                next_id: final(self).next_id,
                ..*old(self)
            }),
    {
        let id = self.next_id;
        self.add_task(TaskEntry { id, runnable: true });
        self.next_id = id + 1;
        Ok(id)
    }

    fn add_task(&mut self, task: TaskEntry)
        requires
            old(self).wf(),
            task.id == old(self).next_id,
        ensures
            final(self).tasks@ == old(self).tasks@.push(task),
            *final(self) == (Executor { tasks: final(self).tasks, ..*old(self) }),
    {
        self.tasks.push(task);
    }

    /// Takes the first runnable task off the run queue, clearing its flag.
    pub fn get_runnable(&mut self) -> (r: TaskPoll)
        requires
            old(self).wf(),
        ensures
            final(self).wf(),
            *final(self) == (Executor { tasks: final(self).tasks, ..*old(self) }),
            old(self).tasks@.len() == 0 <==> r is Finished,
            r is Pending <==> (old(self).tasks@.len() > 0 && none_runnable(old(self).tasks@)),
            !(r is Ready) ==> final(self).tasks@ == old(self).tasks@,
            r matches TaskPoll::Ready(id) ==> exists|i: int|
                first_runnable(old(self).tasks@, i) && #[trigger] old(self).tasks@[i].id == id
                    && final(self).tasks@ == old(self).tasks@.update(
                    i,
                    TaskEntry { id, runnable: false },
                ),
    {
        if self.tasks.len() == 0 {
            return TaskPoll::Finished;
        }
        let mut i: usize = 0;
        while i < self.tasks.len()
            invariant
                0 <= i <= self.tasks@.len(),
                self.tasks@ == old(self).tasks@,
                *self == *old(self),
                old(self).wf(),
                forall|j: int| 0 <= j < i ==> !(#[trigger] self.tasks@[j]).runnable,
            decreases self.tasks@.len() - i,
        {
            let t = self.tasks[i];
            if t.runnable {
                self.tasks.set(i, TaskEntry { id: t.id, runnable: false });
                assert(first_runnable(old(self).tasks@, i as int));
                assert forall|a: int, b: int|
                    0 <= a < b < self.tasks@.len() implies #[trigger] self.tasks@[a].id
                    != #[trigger] self.tasks@[b].id by {
                    assert(self.tasks@[a].id == old(self).tasks@[a].id);
                    assert(self.tasks@[b].id == old(self).tasks@[b].id);
                }
                assert forall|a: int| 0 <= a < self.tasks@.len() implies (
                #[trigger] self.tasks@[a]).id < self.next_id by {
                    assert(self.tasks@[a].id == old(self).tasks@[a].id);
                }
                return TaskPoll::Ready(t.id);
            }
            i = i + 1;
        }
        TaskPoll::Pending
    }

    /// Drops the task `id` from the table, if it is there.
    pub fn remove_task(&mut self, id: u64)
        requires
            old(self).wf(),
        ensures
            final(self).wf(),
            *final(self) == (Executor { tasks: final(self).tasks, ..*old(self) }),
            !has_task(final(self).tasks@, id),
            has_task(old(self).tasks@, id) ==> exists|i: int|
                0 <= i < old(self).tasks@.len() && #[trigger] old(self).tasks@[i].id == id
                    && final(self).tasks@ == old(self).tasks@.remove(i),
            !has_task(old(self).tasks@, id) ==> final(self).tasks@ == old(self).tasks@,
    {
        let mut i: usize = 0;
        while i < self.tasks.len()
            invariant
                0 <= i <= self.tasks@.len(),
                *self == *old(self),
                old(self).wf(),
                forall|j: int| 0 <= j < i ==> (#[trigger] self.tasks@[j]).id != id,
            decreases self.tasks@.len() - i,
        {
            if self.tasks[i].id == id {
                let ghost s = self.tasks@;
                self.tasks.remove(i);
                let ghost t = self.tasks@;
                assert forall|a: int| 0 <= a < t.len() implies (#[trigger] t[a]).id != id by {
                    if a < i {
                        assert(t[a] == s[a]);
                    } else {
                        assert(t[a] == s[a + 1]);
                    }
                }
                assert forall|a: int, b: int| 0 <= a < b < t.len() implies #[trigger] t[a].id
                    != #[trigger] t[b].id by {
                    let a2 = if a < i { a } else { a + 1 };
                    let b2 = if b < i { b } else { b + 1 };
                    assert(t[a] == s[a2]);
                    assert(t[b] == s[b2]);
                }
                assert forall|a: int| 0 <= a < t.len() implies (#[trigger] t[a]).id < self.next_id by {
                    if a < i {
                        assert(t[a] == s[a]);
                    } else {
                        assert(t[a] == s[a + 1]);
                    }
                }
                return;
            }
            i = i + 1;
        }
    }

    /// Reports a poll of task `id`: a completed task is dropped and never
    /// polled again; a pending one waits for its waker.
    pub fn task_polled(&mut self, id: u64, completed: bool)
        requires
            old(self).wf(),
        ensures
            final(self).wf(),
            *final(self) == (Executor { tasks: final(self).tasks, ..*old(self) }),
            completed ==> !has_task(final(self).tasks@, id),
            completed && has_task(old(self).tasks@, id) ==> exists|i: int|
                0 <= i < old(self).tasks@.len() && #[trigger] old(self).tasks@[i].id == id
                    && final(self).tasks@ == old(self).tasks@.remove(i),
            !completed || !has_task(old(self).tasks@, id) ==> final(self).tasks@ == old(self).tasks@,
    {
        if completed {
            self.remove_task(id);
        }
    }

    /// Marks task `id` runnable. Where it was not, and the calling thread is
    /// not the executor's, the executor's signal is raised to end its wait.
    pub fn wake(&mut self, k: &mut KernelState, id: u64)
        requires
            old(self).wf(),
            old(k).wf(),
            old(k).valid_signal(old(self).thread_signal),
        ensures
            final(self).wf(),
            final(k).wf(),
            *final(self) == (Executor { tasks: final(self).tasks, ..*old(self) }),
            !has_task(old(self).tasks@, id) ==> final(self).tasks@ == old(self).tasks@ && *final(k)
                == *old(k),
            has_task(old(self).tasks@, id) ==> exists|i: int|
                0 <= i < old(self).tasks@.len() && #[trigger] old(self).tasks@[i].id == id
                    && final(self).tasks@ == old(self).tasks@.update(
                    i,
                    TaskEntry { id, runnable: true },
                ) && if !old(self).tasks@[i].runnable && old(k).current != old(self).thread {
                    &&& final(k).signals@ == old(k).signals@.update(
                        old(self).thread_signal.0 as int,
                        crate::kobj::KPollSignal { signaled: true, result: 0 },
                    )
                    &&& *final(k) == (KernelState { signals: final(k).signals, ..*old(k) })
                } else {
                    *final(k) == *old(k)
                },
    {
        let mut i: usize = 0;
        while i < self.tasks.len()
            invariant
                0 <= i <= self.tasks@.len(),
                *self == *old(self),
                *k == *old(k),
                old(self).wf(),
                old(k).wf(),
                old(k).valid_signal(old(self).thread_signal),
                forall|j: int| 0 <= j < i ==> (#[trigger] self.tasks@[j]).id != id,
            decreases self.tasks@.len() - i,
        {
            let t = self.tasks[i];
            if t.id == id {
                self.tasks.set(i, TaskEntry { id, runnable: true });
                assert forall|a: int, b: int|
                    0 <= a < b < self.tasks@.len() implies #[trigger] self.tasks@[a].id
                    != #[trigger] self.tasks@[b].id by {
                    assert(self.tasks@[a].id == old(self).tasks@[a].id);
                    assert(self.tasks@[b].id == old(self).tasks@[b].id);
                }
                assert forall|a: int| 0 <= a < self.tasks@.len() implies (
                #[trigger] self.tasks@[a]).id < self.next_id by {
                    assert(self.tasks@[a].id == old(self).tasks@[a].id);
                }
                if !t.runnable && k.current.0 != self.thread.0 {
                    k.signal_raise(self.thread_signal, 0);
                }
                return;
            }
            i = i + 1;
        }
    }

    /// Wakes each task of `ids` in turn.
    fn wake_all(&mut self, k: &mut KernelState, ids: &Vec<u64>)
        requires
            old(self).wf(),
            old(k).wf(),
            old(k).valid_signal(old(self).thread_signal),
        ensures
            final(self).wf(),
            final(k).wf(),
            *final(self) == (Executor { tasks: final(self).tasks, ..*old(self) }),
            final(self).tasks@ == woken_tasks(old(self).tasks@, ids@),
            final(k).now == old(k).now,
            final(k).waits == old(k).waits,
            final(k).valid_signal(old(self).thread_signal),
            old(k).current == old(self).thread ==> *final(k) == *old(k),
    {
        let mut i: usize = 0;
        assert(old(self).tasks@ =~= woken_tasks(old(self).tasks@, ids@.take(0)));
        while i < ids.len()
            invariant
                0 <= i <= ids@.len(),
                self.wf(),
                k.wf(),
                k.valid_signal(self.thread_signal),
                *self == (Executor { tasks: self.tasks, ..*old(self) }),
                self.tasks@ == woken_tasks(old(self).tasks@, ids@.take(i as int)),
                k.now == old(k).now,
                k.waits == old(k).waits,
                old(k).current == old(self).thread ==> *k == *old(k),
            decreases ids@.len() - i,
        {
            let ghost before = self.tasks@;
            let id = ids[i];
            self.wake(k, id);
            let ghost after = self.tasks@;
            assert(ids@.take(i + 1) =~= ids@.take(i as int).push(id));
            assert forall|a: int| 0 <= a < after.len() implies #[trigger] after[a] == woken_tasks(
                old(self).tasks@,
                ids@.take(i + 1),
            )[a] by {
                if before[a].id == id {
                    assert(has_task(before, id));
                }
                if has_task(before, id) {
                    let j = choose|j: int|
                        0 <= j < before.len() && #[trigger] before[j].id == id && after
                            == before.update(j, TaskEntry { id, runnable: true });
                    if a != j {
                        assert(before[a].id != id);
                    }
                }
                lemma_push_contains(ids@.take(i as int), id, before[a].id);
            }
            assert(after =~= woken_tasks(old(self).tasks@, ids@.take(i + 1)));
            i = i + 1;
        }
        assert(ids@.take(ids@.len() as int) =~= ids@);
    }

    /// One step of the run loop. A pass over the run queue begins by
    /// clearing the executor's signal. While a task is runnable the step
    /// hands it out to be polled; the executor never blocks while one is.
    /// Once none is, expired timers wake their tasks without blocking; where
    /// none expired, one aggregate wait, bounded by the soonest deadline,
    /// wakes the tasks whose objects became ready. With no task left the run
    /// is over.
    pub fn step(&mut self, k: &mut KernelState) -> (r: Step)
        requires
            old(self).wf(),
            old(k).wf(),
            old(k).valid_signal(old(self).thread_signal),
            old(k).now.0 >= 0,
            old(k).current == old(self).thread,
        ensures
            final(self).wf(),
            final(k).wf(),
            final(k).now.0 >= old(k).now.0,
            final(k).valid_signal(old(self).thread_signal),
            final(self).thread_signal == old(self).thread_signal,
            final(self).ident == old(self).ident,
            final(self).next_id == old(self).next_id,
            r is Done <==> old(self).tasks@.len() == 0,
            r is Poll <==> exists|i: int| first_runnable(old(self).tasks@, i),
            r matches Step::Poll(id) ==> exists|i: int|
                first_runnable(old(self).tasks@, i) && #[trigger] old(self).tasks@[i].id == id
                    && final(self).tasks@ == old(self).tasks@.update(
                    i,
                    TaskEntry { id, runnable: false },
                ),
            *final(self) == (Executor {
                tasks: final(self).tasks,
                reactor: final(self).reactor,
                draining: final(self).draining,
                ..*old(self)
            }),
            final(self).draining == (r is Poll || r is Done),
            r is Poll || r is Done ==> final(self).reactor == old(self).reactor,
            r is Done ==> final(self).tasks@ == old(self).tasks@,
            !(r is Waited || r is Interrupted) ==> final(k).waits == old(k).waits && final(k).now
                == old(k).now,
            // Once no task is runnable: expired timers first, else one wait.
            idle(old(self).tasks@) ==> final(self).reactor.timers.tasks@ == pending(
                old(self).reactor.timers.tasks@,
                old(k).now,
            ),
            r is TimersFired <==> idle(old(self).tasks@) && expired(
                old(self).reactor.timers.tasks@,
                old(k).now,
            ).len() > 0,
            r is TimersFired ==> {
                &&& final(self).tasks@ == woken_tasks(
                    old(self).tasks@,
                    expired(old(self).reactor.timers.tasks@, old(k).now),
                )
                &&& final(self).reactor.events == old(self).reactor.events
                &&& final(self).reactor.wakers == old(self).reactor.wakers
            },
            r is Waited <==> idle(old(self).tasks@) && expired(
                old(self).reactor.timers.tasks@,
                old(k).now,
            ).len() == 0 && (final(k).any_ready(old(self).reactor.events@)
                || old(self).reactor.timers.tasks@.len() > 0),
            r is Interrupted <==> idle(old(self).tasks@) && old(self).reactor.timers.tasks@.len()
                == 0 && !final(k).any_ready(old(self).reactor.events@),
            (r is Waited || r is Interrupted) && final(k).any_ready(old(self).reactor.events@) ==> {
                &&& final(self).tasks@ == woken_tasks(
                    old(self).tasks@,
                    woken_upto(
                        *final(k),
                        old(self).reactor.events@,
                        old(self).reactor.wakers@,
                        old(self).reactor.wakers@.len(),
                    ),
                )
                &&& final(self).reactor.wakers@ == kept_wakers_upto(
                    *final(k),
                    old(self).reactor.events@,
                    old(self).reactor.wakers@,
                    old(self).reactor.wakers@.len(),
                )
                &&& final(self).reactor.events@ == kept_events_upto(
                    *final(k),
                    old(self).reactor.events@,
                    old(self).reactor.wakers@.len(),
                )
                &&& final(k).now == old(k).now
                &&& final(k).waits == old(k).waits
            },
            (r is Waited || r is Interrupted) && !final(k).any_ready(old(self).reactor.events@) ==> {
                &&& final(self).tasks@ == old(self).tasks@
                &&& final(self).reactor.wakers@ == old(self).reactor.wakers@
                &&& final(self).reactor.events@.len() == old(self).reactor.events@.len()
                &&& forall|i: int|
                    0 <= i < old(self).reactor.events@.len()
                        ==> #[trigger] final(self).reactor.events@[i] == final(k).polled(
                        old(self).reactor.events@[i],
                    )
                &&& final(k).waits == bump(old(k).waits)
                &&& old(self).reactor.timers.tasks@.len() == 0 ==> final(k).now == old(k).now
                &&& old(self).reactor.timers.tasks@.len() > 0 ==> soonest(
                    old(self).reactor.timers.tasks@,
                    final(k).now,
                )
            },
            final(k).current == old(k).current,
            final(k).sems@ == old(k).sems@,
            final(k).mutexes@ == old(k).mutexes@,
            old(self).draining ==> final(k).signals@ == old(k).signals@,
            !old(self).draining ==> final(k).signals@ == old(k).signals@.update(
                old(self).thread_signal.0 as int,
                crate::kobj::KPollSignal {
                    signaled: false,
                    ..old(k).signals@[old(self).thread_signal.0 as int]
                },
            ),
    {
        if !self.draining {
            k.signal_reset(self.thread_signal);
            self.draining = true;
        }
        match self.get_runnable() {
            TaskPoll::Ready(id) => {
                return Step::Poll(id);
            },
            TaskPoll::Finished => {
                return Step::Done;
            },
            TaskPoll::Pending => {},
        }
        let ghost ts = self.reactor.timers.tasks@;
        let (tp, expired) = self.reactor.timers.poll(k.now);
        let timeout: Option<Timeout> = match tp {
            TimerPoll::Woken => {
                self.wake_all(k, &expired);
                self.draining = false;
                return Step::TimersFired;
            },
            TimerPoll::Idle => None,
            TimerPoll::Delay(t) => Some(t),
        };
        proof {
            if tp is Delay {
                let t = timeout->0;
                let s = ts;
                let i = choose|i: int| 0 <= i < s.len() && t.0 == (#[trigger] s[i]).1.0 - k.now.0;
                assert(s[i].1.0 == k.now.0 + t.0);
            }
        }
        let ghost k1 = *k;
        let ghost r0 = self.reactor;
        let polled = self.reactor.poll(k, timeout);
        self.draining = false;
        proof {
            lemma_same_readiness(k1, *k, r0.events@, r0.wakers@, r0.wakers@.len());
        }
        match polled {
            Ok(woken) => {
                proof {
                    if k1.any_ready(r0.events@) {
                        lemma_woken_from_wakers(k1, r0.events@, r0.wakers@, r0.wakers@.len());
                    } else {
                        assert(woken_tasks(self.tasks@, woken@) =~= self.tasks@);
                    }
                }
                self.wake_all(k, &woken);
                Step::Waited
            },
            Err(_) => Step::Interrupted,
        }
    }
}

/// Once a completed task is removed it is never handed out again: spawning
/// (under a fresh id), waking, taking a task off the run queue and removing
/// other tasks all keep it absent, and the run queue only hands out ids that
/// are present.
pub proof fn lemma_completed_task_stays_gone(
    s: Seq<TaskEntry>,
    next_id: u64,
    id: u64,
    woken: Seq<u64>,
    i: int,
)
    requires
        !has_task(s, id),
        id < next_id,
    ensures
        !has_task(s.push(TaskEntry { id: next_id, runnable: true }), id),
        !has_task(woken_tasks(s, woken), id),
        0 <= i < s.len() ==> !has_task(s.remove(i), id),
        0 <= i < s.len() ==> !has_task(s.update(i, TaskEntry { id: s[i].id, runnable: false }), id),
        first_runnable(s, i) ==> s[i].id != id,
{
    let p = s.push(TaskEntry { id: next_id, runnable: true });
    if has_task(p, id) {
        let j = choose|j: int| 0 <= j < p.len() && #[trigger] p[j].id == id;
        if j < s.len() {
            assert(s[j].id == id);
        }
    }
    let w = woken_tasks(s, woken);
    if has_task(w, id) {
        let j = choose|j: int| 0 <= j < w.len() && #[trigger] w[j].id == id;
        assert(s[j].id == id);
    }
    if 0 <= i < s.len() {
        let r = s.remove(i);
        if has_task(r, id) {
            let j = choose|j: int| 0 <= j < r.len() && #[trigger] r[j].id == id;
            if j < i {
                assert(s[j].id == id);
            } else {
                assert(s[j + 1].id == id);
            }
        }
        let u = s.update(i, TaskEntry { id: s[i].id, runnable: false });
        if has_task(u, id) {
            let j = choose|j: int| 0 <= j < u.len() && #[trigger] u[j].id == id;
            assert(s[j].id == id);
        }
    }
}

/// Number of runnable tasks.
pub open spec fn runnable_count(s: Seq<TaskEntry>) -> nat
    decreases s.len(),
{
    if s.len() == 0 {
        0
    } else {
        runnable_count(s.drop_last()) + if s.last().runnable { 1nat } else { 0nat }
    }
}

proof fn lemma_count_none(s: Seq<TaskEntry>)
    ensures
        runnable_count(s) == 0 <==> none_runnable(s),
    decreases s.len(),
{
    if s.len() > 0 {
        let d = s.drop_last();
        lemma_count_none(d);
        assert forall|i: int| 0 <= i < d.len() implies #[trigger] d[i] == s[i] by {}
        if none_runnable(s) {
            assert(!s[s.len() - 1].runnable);
            assert(none_runnable(d));
        }
        if runnable_count(s) == 0 {
            assert forall|i: int| 0 <= i < s.len() implies !(#[trigger] s[i]).runnable by {
                if i < d.len() {
                    assert(d[i] == s[i]);
                }
            }
        }
    }
}

proof fn lemma_count_update(s: Seq<TaskEntry>, i: int, e: TaskEntry)
    requires
        0 <= i < s.len(),
    ensures
        runnable_count(s.update(i, e)) + (if s[i].runnable { 1int } else { 0int })
            == runnable_count(s) + (if e.runnable { 1int } else { 0int }),
    decreases s.len(),
{
    let u = s.update(i, e);
    if i == s.len() - 1 {
        assert(u.drop_last() =~= s.drop_last());
    } else {
        assert(u.drop_last() =~= s.drop_last().update(i, e));
        lemma_count_update(s.drop_last(), i, e);
    }
}

proof fn lemma_count_remove(s: Seq<TaskEntry>, i: int)
    requires
        0 <= i < s.len(),
    ensures
        runnable_count(s.remove(i)) + (if s[i].runnable { 1int } else { 0int }) == runnable_count(s),
    decreases s.len(),
{
    let r = s.remove(i);
    if i == s.len() - 1 {
        assert(r =~= s.drop_last());
    } else {
        assert(r.drop_last() =~= s.drop_last().remove(i));
        lemma_count_remove(s.drop_last(), i);
    }
}

/// The run queue drains before the executor blocks: a step only waits when
/// no task is runnable, each step that hands out a task leaves exactly one
/// runnable task fewer, and reporting a completed task never adds one. So
/// with `runnable_count(s)` tasks runnable and futures that complete when
/// polled, that many steps in a row poll before any step can wait.
pub proof fn lemma_drain_before_wait(s: Seq<TaskEntry>, i: int, j: int)
    ensures
        runnable_count(s) > 0 ==> !idle(s),
        first_runnable(s, i) ==> runnable_count(s.update(i, TaskEntry { id: s[i].id, runnable: false }))
            == runnable_count(s) - 1,
        0 <= j < s.len() ==> runnable_count(s.remove(j)) <= runnable_count(s),
{
    lemma_count_none(s);
    if first_runnable(s, i) {
        lemma_count_update(s, i, TaskEntry { id: s[i].id, runnable: false });
    }
    if 0 <= j < s.len() {
        lemma_count_remove(s, j);
    }
}

impl ExecutorHandle {
    /// Spawns onto `ex` where it is the executor this handle was made for.
    pub fn spawn_local_obj(&self, ex: &mut Executor) -> (r: Result<u64, SpawnError>)
        requires
            old(ex).wf(),
            old(ex).next_id < u64::MAX,
        ensures
            final(ex).wf(),
            self.executor == old(ex).ident ==> r == Ok::<u64, SpawnError>(old(ex).next_id)
                && final(ex).tasks@ == old(ex).tasks@.push(
                TaskEntry { id: old(ex).next_id, runnable: true },
            ) && final(ex).next_id == old(ex).next_id + 1,
            self.executor != old(ex).ident ==> r == Err::<u64, SpawnError>(SpawnError::Shutdown)
                && *final(ex) == *old(ex),
    {
        if self.executor == ex.ident {
            ex.spawn_local_obj()
        } else {
            Err(SpawnError::Shutdown)
        }
    }
}

/// Registers `waker` to be woken when `signal` becomes ready.
pub fn current_reactor_register<O: PollableKobj>(reactor: &mut Reactor, signal: &O, waker: u64)
    requires
        old(reactor).wf(),
    ensures
        final(reactor).wf(),
        final(reactor).events@.len() == old(reactor).events@.len() + 1,
        final(reactor).events@.last().target == signal.target_spec(),
        final(reactor).wakers@ == old(reactor).wakers@.push(waker),
        final(reactor).timers == old(reactor).timers,
        final(reactor).events@.drop_last() == old(reactor).events@,
{
    reactor.register(signal, waker);
    assert(reactor.events@.drop_last() =~= old(reactor).events@);
}

/// Registers `waker` to be woken no later than `deadline`.
pub fn current_reactor_register_timer(reactor: &mut Reactor, deadline: Ticks, waker: u64)
    requires
        old(reactor).wf(),
    ensures
        final(reactor).wf(),
        final(reactor).timers.tasks@ == after_register(old(reactor).timers.tasks@, deadline, waker),
        final(reactor).events == old(reactor).events,
        final(reactor).wakers == old(reactor).wakers,
{
    reactor.register_timer(deadline, waker);
}

/// A future that resolves once the clock reaches its deadline.
#[derive(Clone, Copy, Debug, PartialEq, Eq, Structural)]
pub struct Delay(pub Ticks);

impl Delay {
    /// A delay of `dur` from `now`.
    pub fn new(now: Ticks, dur: Ticks) -> (r: Delay)
        requires
            i64::MIN <= now.0 + dur.0 <= i64::MAX,
        ensures
            r.0.0 == now.0 + dur.0,
    {
        Delay(Ticks(now.0 + dur.0))
    }

    /// A delay until `instant`.
    pub fn new_at(instant: Ticks) -> (r: Delay)
        ensures
            r.0 == instant,
    {
        Delay(instant)
    }

    /// Polls at time `now`: ready once `now` reaches the deadline; else
    /// `waker` is registered for the deadline and the delay is pending.
    pub fn poll(&self, now: Ticks, reactor: &mut Reactor, waker: u64) -> (r: bool)
        requires
            old(reactor).wf(),
        ensures
            final(reactor).wf(),
            r == (now.0 >= self.0.0),
            r ==> *final(reactor) == *old(reactor),
            !r ==> final(reactor).timers.tasks@ == after_register(
                old(reactor).timers.tasks@,
                self.0,
                waker,
            ) && final(reactor).events == old(reactor).events && final(reactor).wakers == old(
                reactor,
            ).wakers,
    {
        if now.0 >= self.0.0 {
            true
        } else {
            current_reactor_register_timer(reactor, self.0, waker);
            false
        }
    }
}

/// A stream that yields once for each take of a semaphore.
#[derive(Clone, Copy, Debug, PartialEq, Eq, Structural)]
pub struct SemaphoreStream(pub SemRef);

impl SemaphoreStream {
    pub fn new(sem: SemRef) -> (r: SemaphoreStream)
        ensures
            r.0 == sem,
    {
        SemaphoreStream(sem)
    }

    /// Takes the semaphore without waiting: true (an item) if taken; else
    /// `waker` is registered on the semaphore and the stream is pending.
    pub fn poll_next(&self, k: &mut KernelState, reactor: &mut Reactor, waker: u64) -> (r: bool)
        requires
            old(k).wf(),
            old(k).valid_sem(self.0),
            old(reactor).wf(),
        ensures
            final(k).wf(),
            final(reactor).wf(),
            r == (old(k).sems@[self.0.0 as int].count > 0),
            final(k).sem_updated(&*old(k), self.0, old(k).sems@[self.0.0 as int].after_take()),
            r ==> *final(reactor) == *old(reactor),
            !r ==> final(reactor).events@.last().target == PollTarget::Sem(self.0)
                && final(reactor).events@.drop_last() == old(reactor).events@
                && final(reactor).wakers@ == old(reactor).wakers@.push(waker)
                && final(reactor).timers == old(reactor).timers,
    {
        if k.sem_try_take(self.0) {
            true
        } else {
            current_reactor_register(reactor, &self.0, waker);
            false
        }
    }
}

} // verus!
