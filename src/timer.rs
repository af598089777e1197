use vstd::prelude::*;

use crate::time::{Ticks, Timeout};

verus! {

/// What a pass over the timer registry found.
#[derive(Debug, PartialEq, Eq, Structural)]
pub enum TimerPoll<T> {
    /// No timer is registered.
    Idle,
    /// At least one deadline had passed; its waker was woken and removed.
    Woken,
    /// Nothing expired; holds the wait until the soonest deadline.
    Delay(T),
}

impl<T> TimerPoll<T> {
    /// Applies `f` to the value of `Delay`, keeping the other variants.
    pub fn map<U, F: FnOnce(T) -> U>(self, f: F) -> (r: TimerPoll<U>)
        requires
            self matches TimerPoll::Delay(t) ==> f.requires((t,)),
        ensures
            self is Idle ==> r is Idle,
            self is Woken ==> r is Woken,
            self matches TimerPoll::Delay(t) ==> (r matches TimerPoll::Delay(u) && f.ensures(
                (t,),
                u,
            )),
    {
        match self {
            TimerPoll::Idle => TimerPoll::Idle,
            TimerPoll::Woken => TimerPoll::Woken,
            TimerPoll::Delay(t) => TimerPoll::Delay(f(t)),
        }
    }
}

/// No waker has two entries.
pub open spec fn unique_wakers(s: Seq<(u64, Ticks)>) -> bool {
    forall|i: int, j: int| 0 <= i < j < s.len() ==> #[trigger] s[i].0 != #[trigger] s[j].0
}

/// Whether `w` has an entry.
pub open spec fn has_waker(s: Seq<(u64, Ticks)>, w: u64) -> bool {
    exists|i: int| 0 <= i < s.len() && #[trigger] s[i].0 == w
}

/// The deadline registered for `w`, if any.
pub open spec fn deadline_of(s: Seq<(u64, Ticks)>, w: u64) -> Option<Ticks> {
    if has_waker(s, w) {
        Some(s[choose|i: int| 0 <= i < s.len() && #[trigger] s[i].0 == w].1)
    } else {
        None
    }
}

pub open spec fn min_ticks(a: Ticks, b: Ticks) -> Ticks {
    if a.0 <= b.0 {
        a
    } else {
        b
    }
}

/// The registry after registering `w` with deadline `d`: an existing entry
/// keeps the sooner of its deadline and `d`, else an entry is added.
pub open spec fn after_register(s: Seq<(u64, Ticks)>, d: Ticks, w: u64) -> Seq<(u64, Ticks)> {
    if has_waker(s, w) {
        let i = choose|i: int| 0 <= i < s.len() && #[trigger] s[i].0 == w;
        s.update(i, (w, min_ticks(s[i].1, d)))
    } else {
        s.push((w, d))
    }
}

/// The entries whose deadline is after `now`, in order.
pub open spec fn pending(s: Seq<(u64, Ticks)>, now: Ticks) -> Seq<(u64, Ticks)>
    decreases s.len(),
{
    if s.len() == 0 {
        s
    } else {
        let p = pending(s.drop_last(), now);
        if s.last().1.0 > now.0 {
            p.push(s.last())
        } else {
            p
        }
    }
}

/// The wakers whose deadline is at or before `now`, in order.
pub open spec fn expired(s: Seq<(u64, Ticks)>, now: Ticks) -> Seq<u64>
    decreases s.len(),
{
    if s.len() == 0 {
        Seq::empty()
    } else {
        let e = expired(s.drop_last(), now);
        if s.last().1.0 > now.0 {
            e
        } else {
            e.push(s.last().0)
        }
    }
}

proof fn lemma_pending_from(s: Seq<(u64, Ticks)>, now: Ticks)
    ensures
        forall|k: int|
            0 <= k < pending(s, now).len() ==> exists|i: int|
                0 <= i < s.len() && s[i] == #[trigger] pending(s, now)[k] && s[i].1.0 > now.0,
        pending(s, now).len() <= s.len(),
    decreases s.len(),
{
    if s.len() > 0 {
        let d = s.drop_last();
        lemma_pending_from(d, now);
        assert forall|k: int| 0 <= k < pending(s, now).len() implies exists|i: int|
            0 <= i < s.len() && s[i] == #[trigger] pending(s, now)[k] && s[i].1.0 > now.0 by {
            if k < pending(d, now).len() {
                let i = choose|i: int|
                    0 <= i < d.len() && d[i] == #[trigger] pending(d, now)[k] && d[i].1.0 > now.0;
                assert(s[i] == d[i]);
            } else {
                assert(s[s.len() - 1] == pending(s, now)[k]);
            }
        }
    }
}

proof fn lemma_pending_unique(s: Seq<(u64, Ticks)>, now: Ticks)
    requires
        unique_wakers(s),
    ensures
        unique_wakers(pending(s, now)),
    decreases s.len(),
{
    if s.len() > 0 {
        let d = s.drop_last();
        assert(unique_wakers(d));
        lemma_pending_unique(d, now);
        lemma_pending_from(d, now);
        if s.last().1.0 > now.0 {
            let p = pending(d, now);
            assert forall|i: int, j: int| 0 <= i < j < p.push(s.last()).len() implies #[trigger] p.push(
                s.last(),
            )[i].0 != #[trigger] p.push(s.last())[j].0 by {
                if j == p.len() {
                    let k = choose|k: int| 0 <= k < d.len() && d[k] == #[trigger] p[i] && d[k].1.0 > now.0;
                    assert(s[k] == d[k]);
                }
            }
        }
    }
}

/// Expired wakers are exactly those with an entry at or before `now`.
proof fn lemma_expired_contains(s: Seq<(u64, Ticks)>, now: Ticks, w: u64)
    ensures
        expired(s, now).contains(w) <==> exists|i: int|
            0 <= i < s.len() && #[trigger] s[i].0 == w && s[i].1.0 <= now.0,
    decreases s.len(),
{
    if s.len() > 0 {
        let d = s.drop_last();
        let e = expired(d, now);
        lemma_expired_contains(d, now, w);
        let last = s.len() - 1;
        if exists|i: int| 0 <= i < s.len() && #[trigger] s[i].0 == w && s[i].1.0 <= now.0 {
            let i = choose|i: int| 0 <= i < s.len() && #[trigger] s[i].0 == w && s[i].1.0 <= now.0;
            if i < d.len() {
                assert(d[i] == s[i]);
                assert(d[i].0 == w);
                assert(e.contains(w));
                let k = choose|k: int| 0 <= k < e.len() && e[k] == w;
                if !(s.last().1.0 > now.0) {
                    assert(e.push(s.last().0)[k] == w);
                }
            } else {
                assert(i == last);
                assert(expired(s, now) == e.push(w));
                assert(e.push(w)[e.len() as int] == w);
            }
        }
        if expired(s, now).contains(w) {
            if !(s.last().1.0 > now.0) && s.last().0 == w {
                assert(s[last].0 == w);
            } else {
                let x = expired(s, now);
                let k = choose|k: int| 0 <= k < x.len() && x[k] == w;
                if !(s.last().1.0 > now.0) {
                    assert(k < e.len());
                    assert(e[k] == w);
                }
                assert(e.contains(w));
                let i = choose|i: int| 0 <= i < d.len() && #[trigger] d[i].0 == w && d[i].1.0 <= now.0;
                assert(s[i] == d[i]);
            }
        }
    }
}

/// Registry of the soonest deadline of each waker.
pub struct TimerReactor {
    pub tasks: Vec<(u64, Ticks)>,
}

impl TimerReactor {
    pub open spec fn wf(&self) -> bool {
        unique_wakers(self.tasks@)
    }

    /// An empty registry.
    pub fn new() -> (r: TimerReactor)
        ensures
            r.wf(),
            r.tasks@.len() == 0,
    {
        TimerReactor { tasks: Vec::new() }
    }

    /// Asks that `waker` be woken no later than `new_deadline`; a waker that
    /// is already registered keeps the sooner of its two deadlines.
    pub fn register(&mut self, new_deadline: Ticks, waker: u64)
        requires
            old(self).wf(),
        ensures
            final(self).wf(),
            final(self).tasks@ == after_register(old(self).tasks@, new_deadline, waker),
            deadline_of(final(self).tasks@, waker) == Some(
                match deadline_of(old(self).tasks@, waker) {
                    Some(d) => min_ticks(d, new_deadline),
                    None => new_deadline,
                },
            ),
            forall|w: u64|
                w != waker ==> #[trigger] deadline_of(final(self).tasks@, w) == deadline_of(
                    old(self).tasks@,
                    w,
                ),
    {
        let ghost s = self.tasks@;
        let mut i: usize = 0;
        while i < self.tasks.len()
            invariant
                0 <= i <= self.tasks@.len(),
                self.tasks@ == s,
                s == old(self).tasks@,
                unique_wakers(s),
                forall|j: int| 0 <= j < i ==> #[trigger] s[j].0 != waker,
            decreases s.len() - i,
        {
            if self.tasks[i].0 == waker {
                let cur = self.tasks[i].1;
                assert(has_waker(s, waker));
                let ghost k = choose|k: int| 0 <= k < s.len() && #[trigger] s[k].0 == waker;
                assert(k == i);
                let m = if cur.0 > new_deadline.0 {
                    new_deadline
                } else {
                    cur
                };
                self.tasks.set(i, (waker, m));
                let ghost t = self.tasks@;
                assert(t[i as int].0 == waker);
                assert(has_waker(t, waker));
                let ghost k2 = choose|k: int| 0 <= k < t.len() && #[trigger] t[k].0 == waker;
                assert(k2 == i);
                assert(t == s.update(i as int, (waker, m)));
                assert(m == min_ticks(s[i as int].1, new_deadline));
                assert(after_register(s, new_deadline, waker) == s.update(
                    k,
                    (waker, min_ticks(s[k].1, new_deadline)),
                ));
                assert(deadline_of(s, waker) == Some(s[k].1));
                assert(deadline_of(t, waker) == Some(t[k2].1));
                assert forall|w: u64| w != waker implies #[trigger] deadline_of(t, w) == deadline_of(
                    s,
                    w,
                ) by {
                    if has_waker(s, w) {
                        let a = choose|a: int| 0 <= a < s.len() && #[trigger] s[a].0 == w;
                        assert(t[a].0 == w);
                    }
                    if has_waker(t, w) {
                        let a = choose|a: int| 0 <= a < t.len() && #[trigger] t[a].0 == w;
                        assert(s[a].0 == w);
                    }
                }
                return;
            }
            i = i + 1;
        }
        assert(!has_waker(s, waker));
        self.tasks.push((waker, new_deadline));
        let ghost t = self.tasks@;
        assert(t[s.len() as int].0 == waker);
        assert forall|w: u64| w != waker implies #[trigger] deadline_of(t, w) == deadline_of(s, w) by {
            if has_waker(s, w) {
                let a = choose|a: int| 0 <= a < s.len() && #[trigger] s[a].0 == w;
                assert(t[a].0 == w);
            }
            if has_waker(t, w) {
                let a = choose|a: int| 0 <= a < t.len() && #[trigger] t[a].0 == w;
                assert(s[a].0 == w);
            }
        }
    }

    /// Removes the entries whose deadline is at or before `now` and returns
    /// their wakers, to be woken, with what the pass found: `Idle` where the
    /// registry was empty, `Woken` where some entry expired, else the wait
    /// until the soonest deadline.
    pub fn poll(&mut self, now: Ticks) -> (r: (TimerPoll<Timeout>, Vec<u64>))
        requires
            old(self).wf(),
            forall|i: int|
                0 <= i < old(self).tasks@.len() ==> (#[trigger] old(self).tasks@[i]).1.0 - now.0
                    <= i64::MAX,
        ensures
            final(self).wf(),
            final(self).tasks@ == pending(old(self).tasks@, now),
            r.1@ == expired(old(self).tasks@, now),
            old(self).tasks@.len() == 0 ==> r.0 is Idle,
            old(self).tasks@.len() != 0 && r.1@.len() > 0 ==> r.0 is Woken,
            old(self).tasks@.len() != 0 && r.1@.len() == 0 ==> (r.0 matches TimerPoll::Delay(t) && {
                &&& exists|i: int|
                    0 <= i < old(self).tasks@.len() && t.0 == (#[trigger] old(self).tasks@[i]).1.0
                        - now.0
                &&& forall|i: int|
                    0 <= i < old(self).tasks@.len() ==> t.0 <= (#[trigger] old(
                        self,
                    ).tasks@[i]).1.0 - now.0
                &&& t.0 > 0
            }),
    {
        if self.tasks.len() == 0 {
            let ghost s = self.tasks@;
            assert(pending(s, now) =~= s);
            return (TimerPoll::Idle, Vec::new());
        }
        let ghost s = self.tasks@;
        let mut kept: Vec<(u64, Ticks)> = Vec::new();
        let mut woken: Vec<u64> = Vec::new();
        let mut soonest: Ticks = self.tasks[0].1;
        let mut i: usize = 0;
        while i < self.tasks.len()
            invariant
                self.tasks@ == s,
                s.len() > 0,
                0 <= i <= s.len(),
                kept@ == pending(s.take(i as int), now),
                woken@ == expired(s.take(i as int), now),
                exists|j: int| 0 <= j < s.len() && (#[trigger] s[j]).1 == soonest,
                forall|j: int| 0 <= j < i ==> soonest.0 <= (#[trigger] s[j]).1.0,
                i == 0 ==> soonest == s[0].1,
            decreases s.len() - i,
        {
            let e = self.tasks[i];
            assert(s.take(i as int + 1).drop_last() =~= s.take(i as int));
            if now.0 >= e.1.0 {
                woken.push(e.0);
            } else {
                kept.push(e);
            }
            if e.1.0 < soonest.0 {
                soonest = e.1;
            }
            i = i + 1;
        }
        assert(s.take(s.len() as int) =~= s);
        proof {
            lemma_pending_unique(s, now);
        }
        self.tasks = kept;
        if woken.len() > 0 {
            (TimerPoll::Woken, woken)
        } else {
            proof {
                let j = choose|j: int| 0 <= j < s.len() && (#[trigger] s[j]).1 == soonest;
                if soonest.0 <= now.0 {
                    lemma_expired_contains(s, now, s[j].0);
                    assert(expired(s, now).contains(s[j].0));
                    assert(false);
                }
            }
            (TimerPoll::Delay(soonest.sub_timeout(now)), woken)
        }
    }
}

/// Registering one waker twice, with deadlines `d1` then `d2`, leaves the
/// sooner of the two as its deadline: a pass at `now` wakes it exactly when
/// `now` is at or after that deadline.
pub proof fn lemma_register_twice(s: Seq<(u64, Ticks)>, w: u64, d1: Ticks, d2: Ticks, now: Ticks)
    requires
        unique_wakers(s),
        !has_waker(s, w),
    ensures
        deadline_of(after_register(after_register(s, d1, w), d2, w), w) == Some(min_ticks(d1, d2)),
        expired(after_register(after_register(s, d1, w), d2, w), now).contains(w) <==> now.0 >= min_ticks(
            d1,
            d2,
        ).0,
{
    let s1 = after_register(s, d1, w);
    assert(s1 == s.push((w, d1)));
    assert(s1[s.len() as int].0 == w);
    assert(has_waker(s1, w));
    let k = choose|i: int| 0 <= i < s1.len() && #[trigger] s1[i].0 == w;
    assert(k == s.len());
    let s2 = after_register(s1, d2, w);
    assert(s2 == s1.update(k, (w, min_ticks(d1, d2))));
    assert(s2[k].0 == w);
    assert(has_waker(s2, w));
    let k2 = choose|i: int| 0 <= i < s2.len() && #[trigger] s2[i].0 == w;
    assert(k2 == k);
    lemma_expired_contains(s2, now, w);
}

} // verus!
