//! The timer heap: pending deadlines in firing order, and the interval
//! re-arm rule. A timer fires no earlier than its deadline; an interval
//! re-arms from the deadline it fired at, not from the clock at dispatch,
//! so its schedule never drifts.

use vstd::prelude::*;
use crate::port::Time;

verus! {

/// A pending deadline and the key its firing packet will carry.
#[derive(Debug, Copy, Clone, PartialEq, Eq, Structural)]
pub struct TimerEntry {
    /// When the timer is due.
    pub deadline: Time,
    /// The registry key its packet is addressed to.
    pub key: u64,
}

/// True when the entries stand in firing order, earliest first.
pub open spec fn deadlines_sorted(s: Seq<TimerEntry>) -> bool {
    forall|i: int, j: int|
        0 <= i < j < s.len() ==> (#[trigger] s[i]).deadline.nanos <= (
        #[trigger] s[j]).deadline.nanos
}

/// Where a deadline of `d` is inserted: after every entry due no later than
/// it, so that equal deadlines fire in insertion order.
pub open spec fn insert_pos(s: Seq<TimerEntry>, d: i64) -> int
    decreases s.len(),
{
    if s.len() == 0 {
        0
    } else if s.first().deadline.nanos <= d {
        1 + insert_pos(s.drop_first(), d)
    } else {
        0
    }
}

/// `insert_pos` is the length of the maximal prefix due no later than `d`.
pub proof fn lemma_insert_pos_splits(s: Seq<TimerEntry>, d: i64)
    ensures
        0 <= insert_pos(s, d) <= s.len(),
        forall|i: int| 0 <= i < insert_pos(s, d) ==> (#[trigger] s[i]).deadline.nanos <= d,
        insert_pos(s, d) < s.len() ==> s[insert_pos(s, d)].deadline.nanos > d,
    decreases s.len(),
{
    if s.len() > 0 && s.first().deadline.nanos <= d {
        lemma_insert_pos_splits(s.drop_first(), d);
        assert(forall|i: int|
            0 <= i < s.drop_first().len() ==> (#[trigger] s.drop_first()[i]) == s[i + 1]);
        assert forall|i: int| 0 <= i < insert_pos(s, d) implies (
        #[trigger] s[i]).deadline.nanos <= d by {
            if i > 0 {
                assert(s.drop_first()[i - 1] == s[i]);
            }
        }
    }
}

/// The ordered set of pending timers.
pub struct TimerHeap {
    /// The pending entries, earliest deadline first.
    pub entries: Vec<TimerEntry>,
}

impl TimerHeap {
    /// The heap's invariant: entries stand in firing order.
    pub open spec fn wf(self) -> bool {
        deadlines_sorted(self.entries@)
    }

    /// An empty heap.
    pub fn new() -> (h: TimerHeap)
        ensures
            h.wf(),
            h.entries@ == Seq::<TimerEntry>::empty(),
    {
        TimerHeap { entries: Vec::new() }
    }

    /// How many timers are pending.
    pub fn len(&self) -> (n: usize)
        ensures
            n == self.entries@.len(),
    {
        self.entries.len()
    }

    /// Inserts a pending timer, keeping order; among equal deadlines the
    /// newcomer fires last.
    pub fn insert(&mut self, entry: TimerEntry)
        requires
            old(self).wf(),
        ensures
            final(self).wf(),
            final(self).entries@ == old(self).entries@.insert(
                insert_pos(old(self).entries@, entry.deadline.nanos),
                entry,
            ),
    {
        let ghost entries0 = self.entries@;
        let d = entry.deadline.nanos;
        let mut idx: usize = 0;
        while idx < self.entries.len() && self.entries[idx].deadline.nanos <= d
            invariant
                idx <= entries0.len(),
                self.entries@ == entries0,
                forall|i: int| 0 <= i < idx ==> (#[trigger] entries0[i]).deadline.nanos <= d,
            decreases entries0.len() - idx,
        {
            idx = idx + 1;
        }
        proof {
            lemma_pos_from_scan(entries0, d, idx as int);
            lemma_insert_pos_splits(entries0, d);
            assert(deadlines_sorted(entries0.insert(idx as int, entry)));
        }
        self.entries.insert(idx, entry);
    }

    /// The earliest pending deadline: what the run loop blocks until. With
    /// the heap in order, no pending timer is due before it.
    pub fn next_deadline(&self) -> (r: Option<Time>)
        requires
            self.wf(),
        ensures
            self.entries@.len() == 0 ==> r is None,
            self.entries@.len() > 0 ==> {
                &&& r matches Some(t) && t == self.entries@[0].deadline
                &&& forall|i: int|
                    0 <= i < self.entries@.len() ==> self.entries@[0].deadline.nanos <= (
                    #[trigger] self.entries@[i]).deadline.nanos
            },
    {
        if self.entries.len() == 0 {
            None
        } else {
            Some(self.entries[0].deadline)
        }
    }

    /// Pops the earliest timer if it is due — and only then: a timer whose
    /// deadline lies after `now` is never popped, so it can never fire early.
    pub fn pop_due(&mut self, now: Time) -> (r: Option<TimerEntry>)
        requires
            old(self).wf(),
        ensures
            final(self).wf(),
            r matches Some(e) ==> {
                &&& old(self).entries@.len() > 0
                &&& e == old(self).entries@[0]
                &&& e.deadline.nanos <= now.nanos
                &&& final(self).entries@ == old(self).entries@.subrange(
                    1,
                    old(self).entries@.len() as int,
                )
            },
            r is None ==> {
                &&& final(self).entries@ == old(self).entries@
                &&& (old(self).entries@.len() == 0 || old(self).entries@[0].deadline.nanos
                    > now.nanos)
            },
    {
        if self.entries.len() > 0 && self.entries[0].deadline.nanos <= now.nanos {
            let e = self.entries.remove(0);
            proof {
                assert(self.entries@ =~= old(self).entries@.subrange(
                    1,
                    old(self).entries@.len() as int,
                ));
            }
            Some(e)
        } else {
            None
        }
    }
}

/// The entries left after the timer with `key` is cancelled.
pub open spec fn entries_without_key(s: Seq<TimerEntry>, key: u64) -> Seq<TimerEntry>
    decreases s.len(),
{
    if s.len() == 0 {
        Seq::empty()
    } else {
        let rest = entries_without_key(s.drop_last(), key);
        if s.last().key == key {
            rest
        } else {
            rest.push(s.last())
        }
    }
}

/// Cancellation keeps the survivors in firing order, and none of them is due
/// later than the latest entry was.
pub proof fn lemma_without_key_stays_sorted(s: Seq<TimerEntry>, key: u64)
    requires
        deadlines_sorted(s),
    ensures
        deadlines_sorted(entries_without_key(s, key)),
        forall|i: int|
            0 <= i < entries_without_key(s, key).len() ==> s.len() > 0 && (
            #[trigger] entries_without_key(s, key)[i]).deadline.nanos
                <= s.last().deadline.nanos,
        entries_without_key(s, key).len() <= s.len(),
    decreases s.len(),
{
    if s.len() > 0 {
        assert(forall|i: int| 0 <= i < s.drop_last().len() ==> (#[trigger] s.drop_last()[i])
            == s[i]);
        lemma_without_key_stays_sorted(s.drop_last(), key);
        assert(s.last() == s[s.len() - 1]);
    }
}

impl TimerHeap {
    /// Removes every entry for `key`: a cancelled timer leaves the heap, so
    /// it can never fire afterwards; the rest keep their order.
    pub fn remove_key(&mut self, key: u64)
        requires
            old(self).wf(),
        ensures
            final(self).wf(),
            final(self).entries@ == entries_without_key(old(self).entries@, key),
    {
        let ghost entries0 = self.entries@;
        let mut kept: Vec<TimerEntry> = Vec::new();
        let mut i: usize = 0;
        while i < self.entries.len()
            invariant
                i <= entries0.len(),
                self.entries@ == entries0,
                kept@ == entries_without_key(entries0.take(i as int), key),
            decreases entries0.len() - i,
        {
            let e = self.entries[i];
            proof {
                assert(entries0.take(i as int + 1).drop_last() =~= entries0.take(i as int));
            }
            if e.key != key {
                kept.push(e);
            }
            i = i + 1;
        }
        proof {
            assert(entries0.take(entries0.len() as int) =~= entries0);
            lemma_without_key_stays_sorted(entries0, key);
        }
        self.entries = kept;
    }
}

/// A scan that stopped at the first entry due after `d` found `insert_pos`.
pub proof fn lemma_pos_from_scan(s: Seq<TimerEntry>, d: i64, idx: int)
    requires
        0 <= idx <= s.len(),
        forall|i: int| 0 <= i < idx ==> (#[trigger] s[i]).deadline.nanos <= d,
        idx < s.len() ==> s[idx].deadline.nanos > d,
    ensures
        insert_pos(s, d) == idx,
    decreases s.len(),
{
    if s.len() > 0 && s.first().deadline.nanos <= d {
        assert(forall|i: int|
            0 <= i < s.drop_first().len() ==> (#[trigger] s.drop_first()[i]) == s[i + 1]);
        lemma_pos_from_scan(s.drop_first(), d, idx - 1);
    }
}

/// The deadline of the `n`-th firing of an interval that starts at `start`
/// with period `period`: exactly `start + n * period`.
pub open spec fn nth_fire(start: int, period: int, n: nat) -> int {
    start + n * period
}

/// An interval: a timer that re-arms itself from the deadline it fired at.
pub struct Interval {
    /// The period between firings, in nanoseconds; positive.
    pub period: i64,
    /// The next deadline.
    pub next: Time,
}

impl Interval {
    /// An interval first due at `start`, then every `period` nanoseconds.
    pub fn new(start: Time, period: i64) -> (iv: Interval)
        requires
            period > 0,
        ensures
            iv.period == period,
            iv.next == start,
    {
        Interval { period, next: start }
    }

    /// The deadline of the next firing.
    pub fn next_deadline(&self) -> (t: Time)
        ensures
            t == self.next,
    {
        self.next
    }

    /// Re-arms after a firing: the new deadline is exactly the fired
    /// deadline plus the period — based on the schedule, not on the clock at
    /// dispatch, so the schedule accumulates no drift.
    pub fn rearm(&mut self)
        requires
            old(self).period > 0,
            old(self).next.nanos + old(self).period <= i64::MAX,
        ensures
            final(self).period == old(self).period,
            final(self).next.nanos == old(self).next.nanos + old(self).period,
    {
        self.next = Time { nanos: self.next.nanos + self.period };
    }
}

/// An interval's schedule is drift-free: after any number of firings, the
/// deadline stands exactly at the start plus that many periods — each re-arm
/// advances the schedule by one period, never by the dispatch latency.
pub proof fn lemma_interval_no_drift(start: int, period: int, n: nat)
    ensures
        nth_fire(start, period, n + 1) == nth_fire(start, period, n) + period,
        nth_fire(start, period, 0) == start,
{
    assert((n + 1) * period == n * period + period) by (nonlinear_arith);
}

} // verus!
