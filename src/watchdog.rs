use vstd::prelude::*;
use crate::assoc::{
    keys_unique, lemma_map_of_push, lemma_map_of_remove, lemma_map_of_set, map_of,
};

verus! {

/// A message on the watchdog's control channel.
#[derive(Clone, Copy, Debug, PartialEq, Eq, Structural)]
pub enum TimerSignal {
    /// Arm timer `timer_id` to trip at `deadline`.
    Start { timer_id: u64, deadline: u64 },
    /// Disarm timer `timer_id`; a no-op where it is not armed.
    Stop { timer_id: u64 },
}

/// The deadline of a call started at `now` that may run for `timeout`.
/// `None` where it does not fit in a `u64`: such a call never times out.
pub fn deadline_after(now: u64, timeout: u64) -> (r: Option<u64>)
    ensures
        now + timeout <= u64::MAX ==> r == Some((now + timeout) as u64),
        now + timeout > u64::MAX ==> r is None,
{
    now.checked_add(timeout)
}

/// The armed timers of the epoch watchdog, each with its deadline. A timer
/// trips once its deadline has come: the watchdog then disarms it and the
/// engine's epoch must be advanced, which aborts the running call at its
/// next epoch check.
///
/// Signals are applied before deadlines are checked, so a disarm that
/// arrives together with the deadline wins: a call that completed is never
/// interrupted after the fact.
#[derive(Debug)]
pub struct Watchdog {
    pub timers: Vec<(u64, u64)>,
}

/// The ids of the timers among `s` whose deadline has come by `now`, in order.
pub open spec fn due(s: Seq<(u64, u64)>, now: u64) -> Seq<u64>
    decreases s.len(),
{
    if s.len() == 0 {
        Seq::empty()
    } else if s.last().1 <= now {
        due(s.drop_last(), now).push(s.last().0)
    } else {
        due(s.drop_last(), now)
    }
}

/// The timers among `s` still running at `now`, in order.
pub open spec fn pending(s: Seq<(u64, u64)>, now: u64) -> Seq<(u64, u64)>
    decreases s.len(),
{
    if s.len() == 0 {
        Seq::empty()
    } else if s.last().1 > now {
        pending(s.drop_last(), now).push(s.last())
    } else {
        pending(s.drop_last(), now)
    }
}

proof fn lemma_pending_contains(s: Seq<(u64, u64)>, now: u64, x: (u64, u64))
    ensures
        pending(s, now).contains(x) <==> s.contains(x) && x.1 > now,
    decreases s.len(),
{
    if s.len() > 0 {
        let d = s.drop_last();
        lemma_pending_contains(d, now, x);
        if s.contains(x) && x.1 > now {
            let j = choose|j: int| 0 <= j < s.len() && s[j] == x;
            let p = pending(s, now);
            let pd = pending(d, now);
            if j < d.len() {
                assert(d[j] == x);
                assert(d.contains(x));
                let k = choose|k: int| 0 <= k < pd.len() && pd[k] == x;
                if s.last().1 > now {
                    assert(p == pd.push(s.last()));
                    assert(p[k] == x);
                } else {
                    assert(p[k] == x);
                }
            } else {
                assert(p == pd.push(s.last()));
                assert(p[p.len() - 1] == x);
            }
        }
        if pending(s, now).contains(x) {
            let p = pending(s, now);
            let pd = pending(d, now);
            let j = choose|j: int| 0 <= j < p.len() && p[j] == x;
            if s.last().1 > now {
                assert(p == pd.push(s.last()));
                if j < pd.len() {
                    assert(pd[j] == x);
                    let k = choose|k: int| 0 <= k < d.len() && d[k] == x;
                    assert(s[k] == x);
                } else {
                    assert(s[s.len() - 1] == x);
                }
            } else {
                assert(pd[j] == x);
                let k = choose|k: int| 0 <= k < d.len() && d[k] == x;
                assert(s[k] == x);
            }
        }
    }
}

impl Watchdog {
    pub fn new() -> (r: Watchdog)
        ensures
            r.wf(),
            r@ == Map::<u64, u64>::empty(),
    {
        let r = Watchdog { timers: Vec::new() };
        assert(r@ =~= Map::<u64, u64>::empty());
        r
    }

    pub open spec fn wf(self) -> bool {
        keys_unique(self.timers@)
    }

    /// Armed timer ids and their deadlines.
    pub open spec fn view(self) -> Map<u64, u64> {
        map_of(self.timers@)
    }

    fn find(&self, timer_id: u64) -> (r: Option<usize>)
        requires
            self.wf(),
        ensures
            r is None <==> !self@.contains_key(timer_id),
            r matches Some(i) ==> i < self.timers@.len() && self.timers@[i as int].0 == timer_id,
    {
        let mut i: usize = 0;
        while i < self.timers.len()
            invariant
                i <= self.timers@.len(),
                forall|j: int| 0 <= j < i ==> self.timers@[j].0 != timer_id,
            decreases self.timers@.len() - i,
        {
            if self.timers[i].0 == timer_id {
                return Some(i);
            }
            i = i + 1;
        }
        proof {
            if self@.contains_key(timer_id) {
                let s = self.timers@;
                let j = choose|j: int| 0 <= j < s.len() && s[j].0 == timer_id;
                assert(s[j].0 == timer_id);
            }
        }
        None
    }

    /// Arms `timer_id`, replacing an earlier deadline of it.
    pub fn arm(&mut self, timer_id: u64, deadline: u64)
        requires
            old(self).wf(),
        ensures
            final(self).wf(),
            final(self)@ == old(self)@.insert(timer_id, deadline),
    {
        let ghost s = self.timers@;
        match self.find(timer_id) {
            Some(i) => {
                proof {
                    lemma_map_of_set(s, i as int, deadline);
                }
                self.timers.set(i, (timer_id, deadline));
                assert(self.timers@ =~= s.update(i as int, (s[i as int].0, deadline)));
            },
            None => {
                proof {
                    lemma_map_of_push(s, timer_id, deadline);
                }
                self.timers.push((timer_id, deadline));
            },
        }
    }

    /// Disarms `timer_id`; nothing changes where it is not armed, so a stop
    /// after the call completed, or after the timer tripped, is harmless.
    pub fn disarm(&mut self, timer_id: u64)
        requires
            old(self).wf(),
        ensures
            final(self).wf(),
            final(self)@ == old(self)@.remove(timer_id),
    {
        let ghost s = self.timers@;
        match self.find(timer_id) {
            Some(i) => {
                proof {
                    lemma_map_of_remove(s, i as int);
                }
                self.timers.remove(i);
            },
            None => {
                assert(self@ =~= self@.remove(timer_id));
            },
        }
    }

    /// Applies one control signal.
    pub fn handle(&mut self, signal: TimerSignal)
        requires
            old(self).wf(),
        ensures
            final(self).wf(),
            match signal {
                TimerSignal::Start { timer_id, deadline } => final(self)@ == old(self)@.insert(
                    timer_id,
                    deadline,
                ),
                TimerSignal::Stop { timer_id } => final(self)@ == old(self)@.remove(timer_id),
            },
    {
        match signal {
            TimerSignal::Start { timer_id, deadline } => self.arm(timer_id, deadline),
            TimerSignal::Stop { timer_id } => self.disarm(timer_id),
        }
    }

    /// Trips every timer whose deadline has come by `now`: they are disarmed
    /// and their ids returned, in arming order. Where any is returned the
    /// caller advances the engine's epoch.
    pub fn tick(&mut self, now: u64) -> (r: Vec<u64>)
        requires
            old(self).wf(),
        ensures
            final(self).wf(),
            final(self).timers@ == pending(old(self).timers@, now),
            r@ == due(old(self).timers@, now),
            forall|id: u64|
                #![auto]
                final(self)@.contains_key(id) <==> old(self)@.contains_key(id) && old(self)@[id]
                    > now,
    {
        let ghost s = self.timers@;
        let mut kept: Vec<(u64, u64)> = Vec::new();
        let mut tripped: Vec<u64> = Vec::new();
        let mut i: usize = 0;
        while i < self.timers.len()
            invariant
                s == self.timers@,
                keys_unique(s),
                i <= s.len(),
                kept@ == pending(s.take(i as int), now),
                tripped@ == due(s.take(i as int), now),
                forall|a: int| 0 <= a < kept@.len() ==> exists|j: int| 0 <= j < i && s[j] == #[trigger] kept@[a],
                keys_unique(kept@),
            decreases s.len() - i,
        {
            let e = self.timers[i];
            let ghost t = s.take(i as int + 1);
            assert(t.drop_last() =~= s.take(i as int));
            assert(t.last() == e);
            assert(t.len() > 0);
            assert(pending(t, now) == if e.1 > now {
                pending(s.take(i as int), now).push(e)
            } else {
                pending(s.take(i as int), now)
            });
            assert(due(t, now) == if e.1 <= now {
                due(s.take(i as int), now).push(e.0)
            } else {
                due(s.take(i as int), now)
            });
            if e.1 > now {
                proof {
                    assert forall|a: int, b: int|
                        0 <= a < b < kept@.push(e).len() implies kept@.push(e)[a].0 != kept@.push(
                        e,
                    )[b].0 by {
                        if b == kept@.len() {
                            let j = choose|j: int| 0 <= j < i && s[j] == kept@[a];
                            assert(s[j].0 != s[i as int].0);
                        }
                    }
                    let k2 = kept@.push(e);
                    assert forall|a: int| 0 <= a < k2.len() implies exists|j: int|
                        0 <= j < i + 1 && s[j] == #[trigger] k2[a] by {
                        if a == kept@.len() {
                            assert(s[i as int] == k2[a]);
                        } else {
                            let j = choose|j: int| 0 <= j < i && s[j] == kept@[a];
                            assert(s[j] == k2[a]);
                        }
                    }
                }
                kept.push(e);
            } else {
                tripped.push(e.0);
            }
            i = i + 1;
        }
        assert(s.take(s.len() as int) =~= s);
        proof {
            assert forall|id: u64| #![auto] map_of(kept@).contains_key(id) <==> map_of(s).contains_key(id)
                && map_of(s)[id] > now by {
                lemma_pending_keys(s, now, id);
            }
        }
        self.timers = kept;
        tripped
    }

    /// The earliest deadline among the armed timers, for the watchdog to
    /// sleep until.
    pub fn next_deadline(&self) -> (r: Option<u64>)
        ensures
            r is None <==> self.timers@.len() == 0,
            r matches Some(d) ==> (exists|i: int| 0 <= i < self.timers@.len() && self.timers@[i].1
                == d) && forall|i: int| 0 <= i < self.timers@.len() ==> d <= self.timers@[i].1,
    {
        let mut best: Option<u64> = None;
        let mut i: usize = 0;
        while i < self.timers.len()
            invariant
                i <= self.timers@.len(),
                best is None <==> i == 0,
                best matches Some(d) ==> (exists|j: int| 0 <= j < i && self.timers@[j].1 == d)
                    && forall|j: int| 0 <= j < i ==> d <= self.timers@[j].1,
            decreases self.timers@.len() - i,
        {
            let d = self.timers[i].1;
            best = match best {
                Some(b) if b <= d => Some(b),
                _ => Some(d),
            };
            i = i + 1;
        }
        best
    }
}

proof fn lemma_due_contains(s: Seq<(u64, u64)>, now: u64, j: int)
    requires
        0 <= j < s.len(),
        s[j].1 <= now,
    ensures
        due(s, now).contains(s[j].0),
    decreases s.len(),
{
    let d = s.drop_last();
    if j < d.len() {
        assert(d[j] == s[j]);
        lemma_due_contains(d, now, j);
        let k = choose|k: int| 0 <= k < due(d, now).len() && due(d, now)[k] == s[j].0;
        if s.last().1 <= now {
            assert(due(s, now) == due(d, now).push(s.last().0));
            assert(due(s, now)[k] == s[j].0);
        } else {
            assert(due(s, now)[k] == s[j].0);
        }
    } else {
        assert(s.last() == s[j]);
        let t = due(s, now);
        assert(t == due(d, now).push(s[j].0));
        assert(t[t.len() - 1] == s[j].0);
    }
}

/// A timer whose deadline has come by `now` is among the ids that a tick at
/// `now` trips, so an overdue call is always interrupted.
pub proof fn lemma_overdue_timer_trips(w: Watchdog, now: u64, id: u64)
    requires
        w.wf(),
        w@.contains_key(id),
        w@[id] <= now,
    ensures
        due(w.timers@, now).contains(id),
{
    let s = w.timers@;
    let j = choose|j: int| 0 <= j < s.len() && s[j].0 == id;
    crate::assoc::lemma_map_of_at(s, j);
    lemma_due_contains(s, now, j);
}

/// A timer is pending after a tick exactly when it was armed with a later
/// deadline.
proof fn lemma_pending_keys(s: Seq<(u64, u64)>, now: u64, id: u64)
    requires
        keys_unique(s),
    ensures
        map_of(pending(s, now)).contains_key(id) <==> map_of(s).contains_key(id) && map_of(s)[id]
            > now,
{
    let p = pending(s, now);
    if map_of(p).contains_key(id) {
        let i = choose|i: int| 0 <= i < p.len() && p[i].0 == id;
        assert(p.contains(p[i]));
        lemma_pending_contains(s, now, p[i]);
        let j = choose|j: int| 0 <= j < s.len() && s[j] == p[i];
        crate::assoc::lemma_map_of_at(s, j);
    }
    if map_of(s).contains_key(id) && map_of(s)[id] > now {
        let j = choose|j: int| 0 <= j < s.len() && s[j].0 == id;
        crate::assoc::lemma_map_of_at(s, j);
        lemma_pending_contains(s, now, s[j]);
        assert(s.contains(s[j]));
        assert(p.contains(s[j]));
        let i = choose|i: int| 0 <= i < p.len() && p[i] == s[j];
        assert(p[i].0 == id);
    }
}

} // verus!
