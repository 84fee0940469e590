//! The executor: owns the port, the task set, the receiver registry and the
//! timer heap, and drives the run loop — drain the ready tasks through the
//! concurrency-safe future cell, fire the timers that are due, block on the
//! port until a packet arrives or the earliest deadline elapses, and route
//! the packet through the registry.

use vstd::prelude::*;
use crate::atomic_future::{
    in_poll_state, wake_next, AtomicFuture, AtomicFutureState, PollDisposition, WakeAction,
};
use crate::port::{Packet, Port, Status, Time, UserPacket};
use crate::registry::{has_key, key_maps_to, lemma_key_maps_unique, Receiver, Registry};
use crate::timer::{insert_pos, lemma_pos_from_scan, Interval, TimerEntry, TimerHeap};

verus! {

/// The behaviour of a spawned task: the closed set of futures the run loop
/// is verified against.
#[derive(Debug, Copy, Clone, PartialEq, Eq, Structural)]
pub enum TaskFuture {
    /// Pending for that many more polls, waking itself after each: a future
    /// that makes its own progress.
    CountDown(u64),
    /// Pending until the packet for `key` is dispatched, then ready: a
    /// future parked on a readiness or timer registration.
    WaitPacket {
        /// The registry key whose packet resolves the future.
        key: u64,
        /// True once that packet was dispatched.
        fired: bool,
    },
}

/// How many more pending polls a future can cause by itself.
pub open spec fn future_measure(f: TaskFuture) -> nat {
    match f {
        TaskFuture::CountDown(n) => n as nat,
        TaskFuture::WaitPacket { .. } => 0,
    }
}

/// Whether a poll-to-rest resolves the future: a countdown always does,
/// once its remaining polls are spent; a packet wait does iff it has fired.
pub open spec fn future_resolves(f: TaskFuture) -> bool {
    match f {
        TaskFuture::CountDown(_) => true,
        TaskFuture::WaitPacket { fired, .. } => fired,
    }
}

/// The future after it has been polled to rest: a countdown is spent, a
/// packet wait is unchanged.
pub open spec fn future_at_rest(f: TaskFuture) -> TaskFuture {
    match f {
        TaskFuture::CountDown(_) => TaskFuture::CountDown(0),
        TaskFuture::WaitPacket { .. } => f,
    }
}

/// True when `v` occurs in `s`.
pub open spec fn in_seq(s: Seq<usize>, v: usize) -> bool {
    exists|i: int| 0 <= i < s.len() && (#[trigger] s[i]) == v
}

/// When a call of the run loop is obliged to report the root resolved: some
/// fuel is given, and the root has either resolved already or stands on the
/// ready queue with a future whose poll-to-rest resolves — then the first
/// drain finishes it.
pub open spec fn run_must_resolve(ex: Executor, root: usize, fuel: u64) -> bool {
    &&& fuel >= 1
    &&& root < ex.tasks@.len()
    &&& (ex.tasks@[root as int].cell.state == AtomicFutureState::Done || (in_seq(ex.ready@, root)
        && future_resolves(ex.tasks@[root as int].future)))
}

/// The future a task holds after the packet for `key` is dispatched to it.
pub open spec fn future_after_fire(f: TaskFuture, key: u64) -> TaskFuture {
    match f {
        TaskFuture::WaitPacket { key: k, fired } => if k == key {
            TaskFuture::WaitPacket { key: k, fired: true }
        } else {
            f
        },
        _ => f,
    }
}

/// One spawned task: its future cell, its behaviour, and whether it is
/// confined to the spawning thread.
#[derive(Clone, Copy)]
pub struct Task {
    /// The concurrency-safe poll state.
    pub cell: AtomicFuture,
    /// What the task does when polled.
    pub future: TaskFuture,
    /// True for `spawn_local` tasks, which must never leave their thread.
    pub local: bool,
}

/// Where a dispatched packet went.
#[derive(Debug, Copy, Clone, PartialEq, Eq, Structural)]
pub enum Dispatched {
    /// The key was not registered; the packet was dropped silently, as a
    /// cancellation racing with an in-flight delivery is expected.
    Dropped,
    /// The packet woke the task with this index.
    Woke(usize),
    /// The packet belongs to the readiness slot with this index; its owner
    /// routes it to the adapter.
    Readiness(usize),
}

/// What routing a packet to the task with index `id` must do: a live task
/// has its waiting future fired and its cell woken — queued if it was idle —
/// and the call reports it; a missing or resolved task is a fatal
/// bookkeeping error, reported and touching nothing.
pub open spec fn routed_to_task(
    ex0: Executor,
    ex1: Executor,
    id: usize,
    key: u64,
    r: Result<Dispatched, Status>,
) -> bool {
    if id < ex0.tasks@.len() && ex0.tasks@[id as int].cell.state != AtomicFutureState::Done {
        &&& r == Ok::<Dispatched, Status>(Dispatched::Woke(id))
        &&& ex1.tasks@[id as int].future == future_after_fire(ex0.tasks@[id as int].future, key)
        &&& ex1.tasks@[id as int].local == ex0.tasks@[id as int].local
        &&& forall|j: int| 0 <= j < ex0.tasks@.len() && j != id ==> ex1.tasks@[j] == ex0.tasks@[j]
        &&& if ex0.tasks@[id as int].cell.state == AtomicFutureState::Idle {
            ex1.ready@ == ex0.ready@.push(id) && ex1.tasks@[id as int].cell.state
                == AtomicFutureState::Polling
        } else {
            ex1.ready@ == ex0.ready@
        }
    } else {
        &&& r matches Err(e) && e == Status::InvariantViolation
        &&& ex1.tasks@ == ex0.tasks@
        &&& ex1.ready@ == ex0.ready@
    }
}

/// The executor.
pub struct Executor {
    /// The wait primitive everything funnels through.
    pub port: Port,
    /// The key-to-receiver map.
    pub registry: Registry,
    /// The pending deadlines.
    pub timers: TimerHeap,
    /// The task set; a task's index is its identity.
    pub tasks: Vec<Task>,
    /// Tasks whose wake claimed a poll, in wake order.
    pub ready: Vec<usize>,
    /// How many worker threads share the port; thread-confined tasks are
    /// accepted only when there is exactly one.
    pub workers: usize,
}

impl Executor {
    /// The executor's invariant: registry and heap are well formed, every
    /// cell obeys its wake/poll accounting, every ready entry names a task
    /// whose cell holds a claimed poll, and no task is queued twice.
    pub open spec fn wf(self) -> bool {
        &&& self.registry.wf()
        &&& self.timers.wf()
        &&& forall|i: int| 0 <= i < self.tasks@.len() ==> (#[trigger] self.tasks@[i]).cell.wf()
        &&& forall|i: int|
            0 <= i < self.ready@.len() ==> (#[trigger] self.ready@[i]) < self.tasks@.len()
        &&& forall|i: int|
            0 <= i < self.ready@.len() ==> in_poll_state(
                self.tasks@[(#[trigger] self.ready@[i]) as int].cell.state,
            )
        &&& forall|i: int, j: int|
            0 <= i < j < self.ready@.len() ==> (#[trigger] self.ready@[i]) != (
            #[trigger] self.ready@[j])
    }

    /// A fresh executor over a fresh port.
    pub fn new() -> (r: Result<Executor, Status>)
        ensures
            r matches Ok(ex) ==> {
                &&& ex.wf()
                &&& ex.tasks@.len() == 0
                &&& ex.ready@.len() == 0
                &&& ex.port.queue@.len() == 0
                &&& ex.port.regs@.len() == 0
                &&& ex.port.objects@.len() == 0
                &&& ex.port.now.nanos == 0
                &&& ex.registry.entries@.len() == 0
                &&& ex.timers.entries@.len() == 0
                &&& ex.workers == 1
            },
            r is Ok,
    {
        match Port::create() {
            Ok(port) => Ok(
                Executor {
                    port,
                    registry: Registry::new(),
                    timers: TimerHeap::new(),
                    tasks: Vec::new(),
                    ready: Vec::new(),
                    workers: 1,
                },
            ),
            Err(e) => Err(e),
        }
    }

    /// A fresh executor whose port a fixed pool of workers will share; any
    /// of them may block on the port and dispatch what arrives.
    pub fn new_multi(workers: usize) -> (r: Result<Executor, Status>)
        requires
            workers >= 1,
        ensures
            r matches Ok(ex) ==> {
                &&& ex.wf()
                &&& ex.workers == workers
                &&& ex.tasks@.len() == 0
                &&& ex.ready@.len() == 0
                &&& ex.port.queue@.len() == 0
                &&& ex.port.regs@.len() == 0
                &&& ex.port.objects@.len() == 0
                &&& ex.port.now.nanos == 0
                &&& ex.registry.entries@.len() == 0
                &&& ex.timers.entries@.len() == 0
            },
            r is Ok,
    {
        match Port::create() {
            Ok(port) => Ok(
                Executor {
                    port,
                    registry: Registry::new(),
                    timers: TimerHeap::new(),
                    tasks: Vec::new(),
                    ready: Vec::new(),
                    workers,
                },
            ),
            Err(e) => Err(e),
        }
    }

    /// Spawns a task that may run on any worker: it enters the task set with
    /// an immediate first poll scheduled.
    pub fn spawn(&mut self, future: TaskFuture) -> (id: usize)
        requires
            old(self).wf(),
        ensures
            final(self).wf(),
            id == old(self).tasks@.len(),
            final(self).tasks@.len() == old(self).tasks@.len() + 1,
            forall|j: int|
                0 <= j < old(self).tasks@.len() ==> final(self).tasks@[j] == old(self).tasks@[j],
            final(self).tasks@[id as int].future == future,
            final(self).tasks@[id as int].local == false,
            final(self).tasks@[id as int].cell.state == AtomicFutureState::Polling,
            final(self).ready@ == old(self).ready@.push(id),
            final(self).port == old(self).port,
            final(self).registry == old(self).registry,
            final(self).timers == old(self).timers,
    {
        self.spawn_inner(future, false)
    }

    /// Spawns a task confined to the current thread. On a single-worker
    /// executor it schedules like `spawn`, with the confinement recorded; on
    /// a multi-worker executor the confinement cannot be honoured, so the
    /// construction is rejected as a programming error rather than tolerated.
    pub fn spawn_local(&mut self, future: TaskFuture) -> (r: Result<usize, Status>)
        requires
            old(self).wf(),
        ensures
            final(self).wf(),
            old(self).workers > 1 ==> {
                &&& r matches Err(e) && e == Status::InvariantViolation
                &&& final(self).tasks@ == old(self).tasks@
                &&& final(self).ready@ == old(self).ready@
            },
            old(self).workers <= 1 ==> (r matches Ok(id) && {
                &&& id == old(self).tasks@.len()
                &&& final(self).tasks@.len() == old(self).tasks@.len() + 1
                &&& forall|j: int|
                    0 <= j < old(self).tasks@.len() ==> final(self).tasks@[j] == old(self).tasks@[j]
                &&& final(self).tasks@[id as int].future == future
                &&& final(self).tasks@[id as int].local == true
                &&& final(self).tasks@[id as int].cell.state == AtomicFutureState::Polling
                &&& final(self).ready@ == old(self).ready@.push(id)
            }),
            final(self).port == old(self).port,
            final(self).registry == old(self).registry,
            final(self).timers == old(self).timers,
    {
        if self.workers > 1 {
            return Err(Status::InvariantViolation);
        }
        Ok(self.spawn_inner(future, true))
    }

    /// Adds a task and schedules its first poll through its cell, as a wake.
    fn spawn_inner(&mut self, future: TaskFuture, local: bool) -> (id: usize)
        requires
            old(self).wf(),
        ensures
            final(self).wf(),
            id == old(self).tasks@.len(),
            final(self).tasks@.len() == old(self).tasks@.len() + 1,
            forall|j: int|
                0 <= j < old(self).tasks@.len() ==> final(self).tasks@[j] == old(self).tasks@[j],
            final(self).tasks@[id as int].future == future,
            final(self).tasks@[id as int].local == local,
            final(self).tasks@[id as int].cell.state == AtomicFutureState::Polling,
            final(self).ready@ == old(self).ready@.push(id),
            final(self).port == old(self).port,
            final(self).registry == old(self).registry,
            final(self).timers == old(self).timers,
    {
        let id = self.tasks.len();
        let mut cell = AtomicFuture::new();
        let _ = cell.wake();
        self.tasks.push(Task { cell, future, local });
        self.ready.push(id);
        id
    }

    /// Wakes a task: from idle the wake claims a poll and queues the task;
    /// during a poll it is banked in the cell; past resolution it is a
    /// programming error, reported rather than absorbed.
    pub fn wake_task(&mut self, id: usize) -> (r: Result<(), Status>)
        requires
            old(self).wf(),
            id < old(self).tasks@.len(),
        ensures
            final(self).wf(),
            final(self).tasks@.len() == old(self).tasks@.len(),
            forall|j: int|
                0 <= j < old(self).tasks@.len() && j != id ==> final(self).tasks@[j] == old(self).tasks@[j],
            final(self).tasks@[id as int].future == old(self).tasks@[id as int].future,
            final(self).tasks@[id as int].local == old(self).tasks@[id as int].local,
            final(self).port == old(self).port,
            final(self).registry == old(self).registry,
            final(self).timers == old(self).timers,
            old(self).tasks@[id as int].cell.state == AtomicFutureState::Done ==> {
                &&& r matches Err(e) && e == Status::InvariantViolation
                &&& final(self).ready@ == old(self).ready@
                &&& final(self).tasks@ == old(self).tasks@
            },
            old(self).tasks@[id as int].cell.state == AtomicFutureState::Idle ==> {
                &&& r is Ok
                &&& final(self).ready@ == old(self).ready@.push(id)
                &&& final(self).tasks@[id as int].cell.state == AtomicFutureState::Polling
            },
            in_poll_state(old(self).tasks@[id as int].cell.state) ==> {
                &&& r is Ok
                &&& final(self).ready@ == old(self).ready@
                &&& final(self).tasks@[id as int].cell.state == wake_next(
                    old(self).tasks@[id as int].cell.state,
                )
            },
    {
        let mut t = self.tasks[id];
        match t.cell.wake() {
            Ok(WakeAction::MustPoll) => {
                self.tasks.set(id, t);
                proof {
                    assert forall|i: int| 0 <= i < self.ready@.len() implies (
                    #[trigger] self.ready@[i]) != id by {
                        assert(in_poll_state(old(self).tasks@[self.ready@[i] as int].cell.state));
                    }
                }
                self.ready.push(id);
                Ok(())
            },
            Ok(WakeAction::Deferred) => {
                self.tasks.set(id, t);
                Ok(())
            },
            Err(e) => Err(e),
        }
    }

    /// Runs one claimed poll to rest: polls the task, drains every wake that
    /// was banked while polling — at most one extra poll per banked wake —
    /// and leaves the task parked or resolved, never mid-poll.
    fn drive_task(&mut self, id: usize)
        requires
            id < old(self).tasks@.len(),
            old(self).tasks@[id as int].cell.wf(),
            in_poll_state(old(self).tasks@[id as int].cell.state),
        ensures
            final(self).tasks@.len() == old(self).tasks@.len(),
            forall|j: int|
                0 <= j < old(self).tasks@.len() && j != id ==> final(self).tasks@[j] == old(self).tasks@[j],
            final(self).tasks@[id as int].cell.wf(),
            final(self).tasks@[id as int].future == future_at_rest(
                old(self).tasks@[id as int].future,
            ),
            final(self).tasks@[id as int].cell.state == if future_resolves(
                old(self).tasks@[id as int].future,
            ) {
                AtomicFutureState::Done
            } else {
                AtomicFutureState::Idle
            },
            final(self).tasks@[id as int].local == old(self).tasks@[id as int].local,
            final(self).ready@ == old(self).ready@,
            final(self).port == old(self).port,
            final(self).registry == old(self).registry,
            final(self).timers == old(self).timers,
        decreases 2 * future_measure(old(self).tasks@[id as int].future) + old(self).tasks@[id as int].cell.banked(),
    {
        let mut t = self.tasks[id];
        let resolved: bool;
        match t.future {
            TaskFuture::CountDown(n) => {
                if n == 0 {
                    resolved = true;
                } else {
                    t.future = TaskFuture::CountDown(n - 1);
                    let _ = t.cell.wake();
                    resolved = false;
                }
            },
            TaskFuture::WaitPacket { key: _, fired } => {
                resolved = fired;
            },
        }
        let disp = t.cell.finish_poll(resolved);
        self.tasks.set(id, t);
        match disp {
            PollDisposition::PollAgain => {
                self.drive_task(id);
            },
            _ => {},
        }
    }

    /// Takes the oldest ready task and polls it to rest.
    pub fn process_ready(&mut self)
        requires
            old(self).wf(),
            old(self).ready@.len() > 0,
        ensures
            final(self).wf(),
            final(self).ready@ == old(self).ready@.subrange(1, old(self).ready@.len() as int),
            final(self).tasks@.len() == old(self).tasks@.len(),
            forall|j: int|
                0 <= j < old(self).tasks@.len() && j != old(self).ready@[0] ==> final(self).tasks@[j] == old(self).tasks@[j],
            final(self).tasks@[old(self).ready@[0] as int].future == future_at_rest(
                old(self).tasks@[old(self).ready@[0] as int].future,
            ),
            final(self).tasks@[old(self).ready@[0] as int].cell.state == if future_resolves(
                old(self).tasks@[old(self).ready@[0] as int].future,
            ) {
                AtomicFutureState::Done
            } else {
                AtomicFutureState::Idle
            },
            final(self).port == old(self).port,
            final(self).registry == old(self).registry,
            final(self).timers == old(self).timers,
    {
        let id = self.ready.remove(0);
        self.drive_task(id);
        proof {
            assert forall|i: int| 0 <= i < self.ready@.len() implies in_poll_state(
                self.tasks@[(#[trigger] self.ready@[i]) as int].cell.state,
            ) by {
                assert(self.ready@[i] == old(self).ready@[i + 1]);
                assert(self.ready@[i] != id);
            }
        }
    }

    /// Drains the ready queue: every task that was on it is polled to rest —
    /// its future advanced as its polls dictate, its cell resolved or parked
    /// — and every task that was not on it is untouched. This is the
    /// non-blocking entry point; it never touches the port.
    pub fn run_until_stalled(&mut self)
        requires
            old(self).wf(),
        ensures
            final(self).wf(),
            final(self).ready@.len() == 0,
            final(self).tasks@.len() == old(self).tasks@.len(),
            forall|i: int|
                0 <= i < old(self).ready@.len() ==> {
                    let id = (#[trigger] old(self).ready@[i]) as int;
                    &&& final(self).tasks@[id].future == future_at_rest(
                        old(self).tasks@[id].future,
                    )
                    &&& final(self).tasks@[id].cell.state == if future_resolves(
                        old(self).tasks@[id].future,
                    ) {
                        AtomicFutureState::Done
                    } else {
                        AtomicFutureState::Idle
                    }
                },
            forall|j: int|
                0 <= j < old(self).tasks@.len() && !in_seq(old(self).ready@, j as usize) ==> final(self).tasks@[j] == old(self).tasks@[j],
            final(self).port == old(self).port,
            final(self).registry == old(self).registry,
            final(self).timers == old(self).timers,
    {
        let ghost ready0 = self.ready@;
        let ghost tasks0 = self.tasks@;
        let ghost k: int = 0;
        while self.ready.len() > 0
            invariant
                self.wf(),
                0 <= k <= ready0.len(),
                self.ready@ == ready0.skip(k),
                self.tasks@.len() == tasks0.len(),
                forall|i: int|
                    0 <= i < k ==> {
                        let id = (#[trigger] ready0[i]) as int;
                        &&& self.tasks@[id].future == future_at_rest(tasks0[id].future)
                        &&& self.tasks@[id].cell.state == if future_resolves(tasks0[id].future) {
                            AtomicFutureState::Done
                        } else {
                            AtomicFutureState::Idle
                        }
                    },
                forall|j: int|
                    0 <= j < tasks0.len() && !in_seq(ready0, j as usize) ==> self.tasks@[j]
                        == tasks0[j],
                forall|i: int| 0 <= i < ready0.len() ==> (#[trigger] ready0[i]) < tasks0.len(),
                forall|i: int|
                    k <= i < ready0.len() ==> self.tasks@[(#[trigger] ready0[i]) as int] == tasks0[(
                    ready0[i]) as int],
                forall|i: int, j: int|
                    0 <= i < j < ready0.len() ==> (#[trigger] ready0[i]) != (#[trigger] ready0[j]),
                self.port == old(self).port,
                self.registry == old(self).registry,
                self.timers == old(self).timers,
            decreases self.ready@.len(),
        {
            proof {
                assert(ready0.skip(k)[0] == ready0[k]);
                assert(ready0.skip(k).subrange(1, ready0.skip(k).len() as int) =~= ready0.skip(
                    k + 1,
                ));
                assert(in_seq(ready0, ready0[k]));
            }
            let ghost pre = self.tasks@;
            self.process_ready();
            proof {
                assert forall|i: int| 0 <= i < k + 1 implies {
                    let id = (#[trigger] ready0[i]) as int;
                    &&& self.tasks@[id].future == future_at_rest(tasks0[id].future)
                    &&& self.tasks@[id].cell.state == if future_resolves(tasks0[id].future) {
                        AtomicFutureState::Done
                    } else {
                        AtomicFutureState::Idle
                    }
                } by {
                    if i < k {
                        assert(ready0[i] != ready0[k]);
                        assert(self.tasks@[ready0[i] as int] == pre[ready0[i] as int]);
                    } else {
                        assert(pre[ready0[k] as int] == tasks0[ready0[k] as int]);
                    }
                }
                k = k + 1;
            }
        }
        proof {
            assert(ready0.skip(ready0.len() as int).len() == 0);
            assert(k == ready0.len());
        }
    }

    /// Registers a timer for `task`: a fresh key is bound to it and the
    /// deadline enters the heap; when it falls due, a user packet with that
    /// key is queued, and its dispatch resolves the task's wait.
    pub fn set_timer(&mut self, deadline: Time, task: usize) -> (key: u64)
        requires
            old(self).wf(),
            old(self).registry.next_key < u64::MAX,
        ensures
            final(self).wf(),
            key == old(self).registry.next_key,
            !has_key(old(self).registry.entries@, key),
            final(self).registry.entries@ == old(self).registry.entries@.push(
                (key, Receiver::Timer(task)),
            ),
            final(self).timers.entries@ == old(self).timers.entries@.insert(
                insert_pos(old(self).timers.entries@, deadline.nanos),
                TimerEntry { deadline, key },
            ),
            final(self).port == old(self).port,
            final(self).tasks@ == old(self).tasks@,
            final(self).ready@ == old(self).ready@,
    {
        let key = self.registry.register(Receiver::Timer(task));
        self.timers.insert(TimerEntry { deadline, key });
        key
    }

    /// Cancels a timer: its heap entries leave, so it can never fire, and
    /// its key is unregistered, so a packet it already queued — the racing
    /// delivery — is dropped on dispatch rather than delivered.
    pub fn cancel_timer(&mut self, key: u64)
        requires
            old(self).wf(),
        ensures
            final(self).wf(),
            final(self).timers.entries@ == crate::timer::entries_without_key(
                old(self).timers.entries@,
                key,
            ),
            final(self).registry.entries@ == crate::registry::entries_after_unregister(
                old(self).registry.entries@,
                key,
            ),
            !has_key(final(self).registry.entries@, key),
            final(self).port == old(self).port,
            final(self).tasks@ == old(self).tasks@,
            final(self).ready@ == old(self).ready@,
    {
        self.timers.remove_key(key);
        self.registry.unregister(key);
    }

    /// Starts an interval for `task`: a fresh key is bound to it and its
    /// first deadline enters the heap; each firing is re-armed with
    /// [`Executor::rearm_interval`].
    pub fn set_interval(&mut self, iv: &Interval, task: usize) -> (key: u64)
        requires
            old(self).wf(),
            old(self).registry.next_key < u64::MAX,
        ensures
            final(self).wf(),
            key == old(self).registry.next_key,
            !has_key(old(self).registry.entries@, key),
            final(self).registry.entries@ == old(self).registry.entries@.push(
                (key, Receiver::Timer(task)),
            ),
            final(self).timers.entries@ == old(self).timers.entries@.insert(
                insert_pos(old(self).timers.entries@, iv.next.nanos),
                TimerEntry { deadline: iv.next, key },
            ),
            final(self).port == old(self).port,
            final(self).tasks@ == old(self).tasks@,
            final(self).ready@ == old(self).ready@,
    {
        let key = self.registry.register(Receiver::Timer(task));
        self.timers.insert(TimerEntry { deadline: iv.next_deadline(), key });
        key
    }

    /// Re-arms a fired interval: its schedule advances by exactly one
    /// period — based on the deadline it fired at, not on the clock at
    /// dispatch, so the schedule accumulates no drift — and it re-enters the
    /// heap under the same key for the next firing.
    pub fn rearm_interval(&mut self, iv: &mut Interval, key: u64)
        requires
            old(self).wf(),
            old(iv).period > 0,
            old(iv).next.nanos + old(iv).period <= i64::MAX,
        ensures
            final(self).wf(),
            final(iv).period == old(iv).period,
            final(iv).next.nanos == old(iv).next.nanos + old(iv).period,
            final(self).timers.entries@ == old(self).timers.entries@.insert(
                insert_pos(old(self).timers.entries@, final(iv).next.nanos),
                TimerEntry { deadline: final(iv).next, key },
            ),
            final(self).port == old(self).port,
            final(self).registry == old(self).registry,
            final(self).tasks@ == old(self).tasks@,
            final(self).ready@ == old(self).ready@,
    {
        iv.rearm();
        self.timers.insert(TimerEntry { deadline: iv.next_deadline(), key });
    }

    /// Binds a fresh key to the readiness slot with index `idx`.
    pub fn register_readiness(&mut self, idx: usize) -> (key: u64)
        requires
            old(self).wf(),
            old(self).registry.next_key < u64::MAX,
        ensures
            final(self).wf(),
            key == old(self).registry.next_key,
            !has_key(old(self).registry.entries@, key),
            final(self).registry.entries@ == old(self).registry.entries@.push(
                (key, Receiver::Readiness(idx)),
            ),
            final(self).port == old(self).port,
            final(self).tasks@ == old(self).tasks@,
            final(self).ready@ == old(self).ready@,
            final(self).timers == old(self).timers,
    {
        self.registry.register(Receiver::Readiness(idx))
    }

    /// Binds a fresh key directly to a task: packets for it wake the task.
    pub fn register_task(&mut self, task: usize) -> (key: u64)
        requires
            old(self).wf(),
            old(self).registry.next_key < u64::MAX,
        ensures
            final(self).wf(),
            key == old(self).registry.next_key,
            !has_key(old(self).registry.entries@, key),
            final(self).registry.entries@ == old(self).registry.entries@.push(
                (key, Receiver::Task(task)),
            ),
            final(self).port == old(self).port,
            final(self).tasks@ == old(self).tasks@,
            final(self).ready@ == old(self).ready@,
            final(self).timers == old(self).timers,
    {
        self.registry.register(Receiver::Task(task))
    }

    /// Queues a user packet for every timer that is due — and none that is
    /// not: a timer set for a deadline never fires before the clock reaches
    /// it. Returns how many fired.
    pub fn fire_due_timers(&mut self) -> (n: usize)
        requires
            old(self).wf(),
        ensures
            final(self).wf(),
            n == insert_pos(old(self).timers.entries@, old(self).port.now.nanos),
            final(self).timers.entries@ == old(self).timers.entries@.skip(n as int),
            final(self).port.queue@.len() == old(self).port.queue@.len() + n,
            forall|i: int|
                0 <= i < old(self).port.queue@.len() ==> final(self).port.queue@[i] == old(self).port.queue@[i],
            forall|i: int|
                0 <= i < n ==> {
                    &&& (#[trigger] old(self).timers.entries@[i]).deadline.nanos <= old(self).port.now.nanos
                    &&& final(self).port.queue@[old(self).port.queue@.len() + i].packet.key == old(self).timers.entries@[i].key
                    &&& final(self).port.queue@[old(self).port.queue@.len() + i].packet.contents
                        is User
                    &&& final(self).port.queue@[old(self).port.queue@.len() + i].source is None
                },
            final(self).port.regs@ == old(self).port.regs@,
            final(self).port.objects@ == old(self).port.objects@,
            final(self).port.now == old(self).port.now,
            final(self).tasks@ == old(self).tasks@,
            final(self).ready@ == old(self).ready@,
            final(self).registry == old(self).registry,
    {
        let now = self.port.now();
        let ghost entries0 = self.timers.entries@;
        let total = self.timers.len();
        proof {
            assert(entries0.len() == total);
        }
        let mut n: usize = 0;
        while self.timers.entries.len() > 0 && self.timers.entries[0].deadline.nanos <= now.nanos
            invariant
                self.wf(),
                now == old(self).port.now,
                n <= entries0.len(),
                entries0.len() <= usize::MAX,
                self.timers.entries@ == entries0.skip(n as int),
                forall|i: int|
                    0 <= i < n ==> (#[trigger] entries0[i]).deadline.nanos <= now.nanos,
                self.port.queue@.len() == old(self).port.queue@.len() + n,
                forall|i: int|
                    0 <= i < old(self).port.queue@.len() ==> self.port.queue@[i] == old(self).port.queue@[i],
                forall|i: int|
                    0 <= i < n ==> {
                        &&& self.port.queue@[old(self).port.queue@.len() + i].packet.key == (
                        #[trigger] entries0[i]).key
                        &&& self.port.queue@[old(self).port.queue@.len() + i].packet.contents
                            is User
                        &&& self.port.queue@[old(self).port.queue@.len() + i].source is None
                    },
                self.port.regs@ == old(self).port.regs@,
                self.port.objects@ == old(self).port.objects@,
                self.port.now == old(self).port.now,
                self.tasks@ == old(self).tasks@,
                self.ready@ == old(self).ready@,
                self.registry == old(self).registry,
            decreases entries0.len() - n,
        {
            let popped = self.timers.pop_due(now);
            match popped {
                Some(e) => {
                    let payload = UserPacket::from_u8_array([0u8; 32]);
                    let p = Packet::from_user_packet(e.key, 0, payload);
                    let _ = self.port.queue(&p);
                    proof {
                        assert(n < entries0.len());
                        assert(entries0.skip(n as int)[0] == entries0[n as int]);
                        assert(entries0.skip(n as int).subrange(
                            1,
                            entries0.skip(n as int).len() as int,
                        ) =~= entries0.skip(n as int + 1));
                    }
                    n = n + 1;
                },
                None => {
                    proof {
                        assert(false);
                    }
                },
            }
        }
        proof {
            if n < entries0.len() {
                assert(self.timers.entries@[0] == entries0[n as int]);
            }
            lemma_pos_from_scan(entries0, now.nanos, n as int);
        }
        n
    }

    /// Routes a packet by its key: to nobody when the key is unregistered —
    /// the expected race with cancellation, dropped silently — to the named
    /// task for task and timer keys, or back to the caller for a readiness
    /// key. A registered key naming a resolved or missing task is a fatal
    /// bookkeeping error, reported rather than absorbed.
    pub fn dispatch(&mut self, packet: &Packet) -> (r: Result<Dispatched, Status>)
        requires
            old(self).wf(),
        ensures
            final(self).wf(),
            final(self).tasks@.len() == old(self).tasks@.len(),
            final(self).port == old(self).port,
            final(self).registry == old(self).registry,
            final(self).timers == old(self).timers,
            !has_key(old(self).registry.entries@, packet.key) <==> r == Ok::<_, Status>(
                Dispatched::Dropped,
            ),
            r == Ok::<_, Status>(Dispatched::Dropped) ==> final(self).tasks@ == old(self).tasks@
                && final(self).ready@ == old(self).ready@,
            forall|id: usize|
                key_maps_to(
                    old(self).registry.entries@,
                    packet.key,
                    Receiver::Task(id),
                ) ==> routed_to_task(*old(self), *final(self), id, packet.key, r),
            forall|id: usize|
                key_maps_to(
                    old(self).registry.entries@,
                    packet.key,
                    Receiver::Timer(id),
                ) ==> routed_to_task(*old(self), *final(self), id, packet.key, r),
            forall|idx: usize|
                key_maps_to(
                    old(self).registry.entries@,
                    packet.key,
                    Receiver::Readiness(idx),
                ) ==> r == Ok::<_, Status>(Dispatched::Readiness(idx)) && final(self).tasks@ == old(
                    self,
                ).tasks@ && final(self).ready@ == old(self).ready@,
            r matches Err(e) ==> e == Status::InvariantViolation,
    {
        let ghost entries0 = self.registry.entries@;
        let key = packet.key();
        let looked = self.registry.lookup(key);
        match looked {
            None => {
                proof {
                    lemma_unmapped_key(entries0, key);
                }
                Ok(Dispatched::Dropped)
            },
            Some(Receiver::Readiness(idx)) => {
                proof {
                    lemma_sole_binding(entries0, key, Receiver::Readiness(idx));
                }
                Ok(Dispatched::Readiness(idx))
            },
            Some(Receiver::Task(id)) => {
                proof {
                    lemma_sole_binding(entries0, key, Receiver::Task(id));
                }
                self.wake_waiter(id, key)
            },
            Some(Receiver::Timer(id)) => {
                proof {
                    lemma_sole_binding(entries0, key, Receiver::Timer(id));
                }
                self.wake_waiter(id, key)
            },
        }
    }

    /// Marks the waiting future fired and wakes its task; a missing or
    /// resolved task is reported as the fatal bookkeeping error it is.
    fn wake_waiter(&mut self, id: usize, key: u64) -> (r: Result<Dispatched, Status>)
        requires
            old(self).wf(),
        ensures
            final(self).wf(),
            final(self).tasks@.len() == old(self).tasks@.len(),
            final(self).port == old(self).port,
            final(self).registry == old(self).registry,
            final(self).timers == old(self).timers,
            routed_to_task(*old(self), *final(self), id, key, r),
            r matches Err(e) ==> e == Status::InvariantViolation,
    {
        if id >= self.tasks.len() {
            return Err(Status::InvariantViolation);
        }
        if self.tasks[id].cell.state == AtomicFutureState::Done {
            return Err(Status::InvariantViolation);
        }
        let mut t = self.tasks[id];
        match t.future {
            TaskFuture::WaitPacket { key: k, fired: _ } => {
                if k == key {
                    t.future = TaskFuture::WaitPacket { key: k, fired: true };
                }
            },
            _ => {},
        }
        self.tasks.set(id, t);
        match self.wake_task(id) {
            Ok(()) => Ok(Dispatched::Woke(id)),
            Err(e) => Err(e),
        }
    }

    /// Whether the task with index `id` has resolved.
    pub fn task_done(&self, id: usize) -> (d: bool)
        requires
            id < self.tasks@.len(),
        ensures
            d == (self.tasks@[id as int].cell.state == AtomicFutureState::Done),
    {
        self.tasks[id].cell.state == AtomicFutureState::Done
    }

    /// Drives the loop until the root task resolves or the fuel runs out:
    /// drain the ready tasks, fire due timers, block on the port until the
    /// earliest pending deadline, dispatch what arrives. Reports whether the
    /// root resolved — a root that never resolves blocks `run` forever, which
    /// the fuel bound models — and propagates a dispatch failure, since a
    /// broken routing table is fatal and never to be absorbed. A root that is
    /// ready and whose poll-to-rest resolves — already resolved, or any
    /// self-driven countdown — is guaranteed to finish with any fuel at all.
    pub fn run(&mut self, root: usize, fuel: u64) -> (r: Result<bool, Status>)
        requires
            old(self).wf(),
            root < old(self).tasks@.len(),
        ensures
            final(self).wf(),
            final(self).tasks@.len() == old(self).tasks@.len(),
            r matches Ok(done) ==> done == (final(self).tasks@[root as int].cell.state
                == AtomicFutureState::Done),
            r matches Err(e) ==> e == Status::InvariantViolation,
            run_must_resolve(*old(self), root, fuel) ==> r == Ok::<bool, Status>(true),
            fuel >= 1 && r is Ok ==> final(self).ready@.len() == 0,
    {
        if fuel == 0 {
            return Ok(self.task_done(root));
        }
        self.run_until_stalled();
        if self.task_done(root) {
            return Ok(true);
        }
        let mut left = fuel - 1;
        while left > 0
            invariant
                self.wf(),
                root < self.tasks@.len(),
                self.tasks@.len() == old(self).tasks@.len(),
                self.ready@.len() == 0,
                !run_must_resolve(*old(self), root, fuel),
            decreases left,
        {
            let _ = self.fire_due_timers();
            let deadline = match self.timers.next_deadline() {
                Some(t) => t,
                None => self.port.now(),
            };
            let waited = self.port.wait(deadline);
            match waited {
                Ok(p) => {
                    match self.dispatch(&p) {
                        Ok(_) => {},
                        Err(e) => {
                            return Err(e);
                        },
                    }
                },
                Err(_) => {
                    if self.timers.len() == 0 {
                        return Ok(self.task_done(root));
                    }
                },
            }
            self.run_until_stalled();
            if self.task_done(root) {
                return Ok(true);
            }
            left = left - 1;
        }
        Ok(self.task_done(root))
    }
}

/// A key with no live entry is bound to nothing.

/// A key with no live entry is bound to nothing.
proof fn lemma_unmapped_key(entries: Seq<(u64, Receiver)>, key: u64)
    requires
        !has_key(entries, key),
    ensures
        forall|rec: Receiver| !#[trigger] key_maps_to(entries, key, rec),
{
    assert forall|rec: Receiver| !#[trigger] key_maps_to(entries, key, rec) by {
        if key_maps_to(entries, key, rec) {
            let i = choose|i: int| 0 <= i < entries.len() && #[trigger] entries[i] == (key, rec);
            assert(entries[i].0 == key);
        }
    }
}

/// With unique keys, every binding of `key` is the one found.
proof fn lemma_sole_binding(entries: Seq<(u64, Receiver)>, key: u64, found: Receiver)
    requires
        crate::registry::keys_unique(entries),
        key_maps_to(entries, key, found),
    ensures
        forall|rec: Receiver| #[trigger] key_maps_to(entries, key, rec) ==> rec == found,
{
    assert forall|rec: Receiver| #[trigger] key_maps_to(entries, key, rec) implies rec
        == found by {
        lemma_key_maps_unique(entries, key, rec, found);
    }
}

} // verus!
