//! The receiver registry: the map from a process-unique key to the receiver
//! that packets for that key are routed to. Keys are never reused while
//! live; a packet for an unregistered key is dropped silently, because
//! cancellation is expected to race with in-flight delivery.

use vstd::prelude::*;

verus! {

/// A receiver capability: the closed set of things a packet can be routed
/// to, each named by its index in the executor's own tables.
#[derive(Debug, Copy, Clone, PartialEq, Eq, Structural)]
pub enum Receiver {
    /// A spawned task, woken by its index in the task set.
    Task(usize),
    /// A timer future, resolved by its index.
    Timer(usize),
    /// A readiness slot of an adapter, re-armed or failed by its index.
    Readiness(usize),
}

/// True when some live entry carries `key`.
pub open spec fn has_key(entries: Seq<(u64, Receiver)>, key: u64) -> bool {
    exists|i: int| 0 <= i < entries.len() && (#[trigger] entries[i]).0 == key
}

/// True when `key` is bound to `rec` by some live entry.
pub open spec fn key_maps_to(entries: Seq<(u64, Receiver)>, key: u64, rec: Receiver) -> bool {
    exists|i: int| 0 <= i < entries.len() && #[trigger] entries[i] == (key, rec)
}

/// With unique keys, a key is bound to at most one receiver.
pub proof fn lemma_key_maps_unique(entries: Seq<(u64, Receiver)>, key: u64, a: Receiver, b: Receiver)
    requires
        keys_unique(entries),
        key_maps_to(entries, key, a),
        key_maps_to(entries, key, b),
    ensures
        a == b,
{
    let i = choose|i: int| 0 <= i < entries.len() && #[trigger] entries[i] == (key, a);
    let j = choose|j: int| 0 <= j < entries.len() && #[trigger] entries[j] == (key, b);
    assert(entries[i].0 == entries[j].0);
}

/// True when no two live entries share a key.
pub open spec fn keys_unique(entries: Seq<(u64, Receiver)>) -> bool {
    forall|i: int, j: int|
        0 <= i < j < entries.len() ==> (#[trigger] entries[i]).0 != (#[trigger] entries[j]).0
}

/// The entries left after `key` is unregistered.
pub open spec fn entries_after_unregister(entries: Seq<(u64, Receiver)>, key: u64) -> Seq<
    (u64, Receiver),
>
    decreases entries.len(),
{
    if entries.len() == 0 {
        Seq::empty()
    } else {
        let rest = entries_after_unregister(entries.drop_last(), key);
        if entries.last().0 == key {
            rest
        } else {
            rest.push(entries.last())
        }
    }
}

/// The registry: its live entries and the next key to hand out.
pub struct Registry {
    /// The live (key, receiver) associations, oldest first.
    pub entries: Vec<(u64, Receiver)>,
    /// The next key to allocate; every live key is below it.
    pub next_key: u64,
}

impl Registry {
    /// The registry's invariant: keys are unique and all below `next_key`,
    /// so a fresh allocation can never collide with a live one.
    pub open spec fn wf(self) -> bool {
        &&& keys_unique(self.entries@)
        &&& forall|i: int|
            0 <= i < self.entries@.len() ==> (#[trigger] self.entries@[i]).0 < self.next_key
    }

    /// An empty registry.
    pub fn new() -> (r: Registry)
        ensures
            r.wf(),
            r.entries@ == Seq::<(u64, Receiver)>::empty(),
            r.next_key == 0,
    {
        Registry { entries: Vec::new(), next_key: 0 }
    }

    /// Allocates a fresh key — one no live registration shares — and binds
    /// the receiver to it.
    pub fn register(&mut self, receiver: Receiver) -> (key: u64)
        requires
            old(self).wf(),
            old(self).next_key < u64::MAX,
        ensures
            final(self).wf(),
            key == old(self).next_key,
            !has_key(old(self).entries@, key),
            final(self).entries@ == old(self).entries@.push((key, receiver)),
            final(self).next_key == old(self).next_key + 1,
    {
        let key = self.next_key;
        self.next_key = self.next_key + 1;
        self.entries.push((key, receiver));
        key
    }

    /// Removes the binding for `key`, if any. Safe to call while a packet for
    /// the key is still in flight: later dispatches simply find nothing.
    pub fn unregister(&mut self, key: u64)
        requires
            old(self).wf(),
        ensures
            final(self).wf(),
            final(self).entries@ == entries_after_unregister(old(self).entries@, key),
            !has_key(final(self).entries@, key),
            final(self).next_key == old(self).next_key,
    {
        let ghost entries0 = self.entries@;
        let mut kept: Vec<(u64, Receiver)> = Vec::new();
        let mut i: usize = 0;
        while i < self.entries.len()
            invariant
                i <= entries0.len(),
                self.entries@ == entries0,
                kept@ == entries_after_unregister(entries0.take(i as int), key),
            decreases entries0.len() - i,
        {
            let e = self.entries[i];
            proof {
                assert(entries0.take(i as int + 1).drop_last() =~= entries0.take(i as int));
            }
            if e.0 != key {
                kept.push(e);
            }
            i = i + 1;
        }
        proof {
            assert(entries0.take(entries0.len() as int) =~= entries0);
        }
        self.entries = kept;
        proof {
            lemma_unregister_removes_key(entries0, key);
            lemma_unregister_keeps_shape(entries0, key, self.next_key);
        }
    }

    /// Finds the receiver bound to `key`: the dispatch lookup. None means the
    /// key was unregistered — the packet is dropped, not an error.
    pub fn lookup(&self, key: u64) -> (r: Option<Receiver>)
        requires
            self.wf(),
        ensures
            r matches Some(rec) ==> key_maps_to(self.entries@, key, rec),
            r is None <==> !has_key(self.entries@, key),
    {
        let mut i: usize = 0;
        while i < self.entries.len()
            invariant
                i <= self.entries@.len(),
                forall|j: int| 0 <= j < i ==> (#[trigger] self.entries@[j]).0 != key,
            decreases self.entries@.len() - i,
        {
            let e = self.entries[i];
            if e.0 == key {
                return Some(e.1);
            }
            i = i + 1;
        }
        None
    }
}

/// Unregistering a key removes every entry that carried it.
pub proof fn lemma_unregister_removes_key(entries: Seq<(u64, Receiver)>, key: u64)
    ensures
        !has_key(entries_after_unregister(entries, key), key),
    decreases entries.len(),
{
    if entries.len() > 0 {
        lemma_unregister_removes_key(entries.drop_last(), key);
    }
}

/// Unregistering keeps the remaining entries as they were: unique, bounded,
/// and each one present in the old registry.
pub proof fn lemma_unregister_keeps_shape(entries: Seq<(u64, Receiver)>, key: u64, bound: u64)
    requires
        keys_unique(entries),
        forall|i: int| 0 <= i < entries.len() ==> (#[trigger] entries[i]).0 < bound,
    ensures
        keys_unique(entries_after_unregister(entries, key)),
        forall|i: int|
            0 <= i < entries_after_unregister(entries, key).len() ==> (
            #[trigger] entries_after_unregister(entries, key)[i]).0 < bound,
        forall|i: int|
            0 <= i < entries_after_unregister(entries, key).len() ==> has_key(
                entries,
                (#[trigger] entries_after_unregister(entries, key)[i]).0,
            ),
    decreases entries.len(),
{
    if entries.len() > 0 {
        assert(forall|i: int|
            0 <= i < entries.drop_last().len() ==> (#[trigger] entries.drop_last()[i])
                == entries[i]);
        lemma_unregister_keeps_shape(entries.drop_last(), key, bound);
        assert(entries.last() == entries[entries.len() - 1]);
        assert forall|i: int|
            0 <= i < entries_after_unregister(entries, key).len() implies has_key(
            entries,
            (#[trigger] entries_after_unregister(entries, key)[i]).0,
        ) by {
            let prev = entries_after_unregister(entries.drop_last(), key);
            if i < prev.len() {
                let k = prev[i].0;
                let w = choose|j: int|
                    0 <= j < entries.drop_last().len() && (#[trigger] entries.drop_last()[j]).0
                        == k;
                assert(entries[w].0 == k);
            }
        }
    }
}

} // verus!
