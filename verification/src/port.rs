//! A verified model of the wait primitive: a port that queues notification
//! packets, together with the waitable objects whose signal transitions feed
//! it. The model makes the delivery rules exact: a one-shot registration is
//! consumed by its first delivery; a repeating registration is edge-triggered,
//! firing once per transition of its trigger condition from false to true;
//! cancellation removes the registration, so no new packet is ever produced
//! for it, while packets already queued stay deliverable; closing a waitable
//! stops all further delivery for it.

use vstd::prelude::*;
use crate::Signals;

verus! {

/// No signals.
pub const NONE: Signals = 0;

/// The object is readable.
pub const READABLE: Signals = 0x01;

/// The object is writable.
pub const WRITABLE: Signals = 0x02;

/// The object's peer was closed.
pub const PEER_CLOSED: Signals = 0x04;

/// The first user signal.
pub const USER_0: Signals = 0x0100_0000;

/// The second user signal.
pub const USER_1: Signals = 0x0200_0000;

/// An observed signal state matches a trigger mask when they share a bit.
pub open spec fn mask_matches(observed: Signals, trigger: Signals) -> bool {
    observed & trigger != 0
}

/// The signal state after clearing `clear` and then setting `set`.
pub open spec fn next_signals(s: Signals, clear: Signals, set: Signals) -> Signals {
    (s & !clear) | set
}

/// Exec mirror of [`mask_matches`].
fn mask_matches_exec(observed: Signals, trigger: Signals) -> (r: bool)
    ensures
        r == mask_matches(observed, trigger),
{
    observed & trigger != 0
}

/// The errors a port operation can report.
#[derive(Debug, Copy, Clone, PartialEq, Eq, Structural)]
pub enum Status {
    /// The wait deadline elapsed with no packet: a valid outcome, not a fault.
    TimedOut,
    /// The waitable underlying the operation is closed or unknown.
    HandleClosed,
    /// A bookkeeping rule was broken: a programming error, never expected.
    InvariantViolation,
}

/// A point on the port's monotonic clock, in nanoseconds.
#[derive(Debug, Copy, Clone, PartialEq, Eq, Structural)]
pub struct Time {
    /// Nanoseconds since the clock's origin.
    pub nanos: i64,
}

impl Time {
    /// Wraps a nanosecond count.
    pub fn from_nanos(nanos: i64) -> (t: Time)
        ensures
            t.nanos == nanos,
    {
        Time { nanos }
    }

    /// The nanosecond count.
    pub fn nanos(&self) -> (n: i64)
        ensures
            n == self.nanos,
    {
        self.nanos
    }
}

/// Contents of a user packet: an opaque 32-byte payload.
#[derive(Debug, Copy, Clone, PartialEq, Eq)]
pub struct UserPacket {
    /// The payload bytes.
    pub data: [u8; 32],
}

impl UserPacket {
    /// Wraps a raw payload.
    pub fn from_u8_array(val: [u8; 32]) -> (p: UserPacket)
        ensures
            p.data@ == val@,
    {
        UserPacket { data: val }
    }

    /// The raw payload.
    pub fn as_u8_array(&self) -> (r: &[u8; 32])
        ensures
            r@ == self.data@,
    {
        &self.data
    }

    /// The raw payload, writable.
    pub fn as_mut_u8_array(&mut self) -> (r: &mut [u8; 32])
        ensures
            r@ == old(self).data@,
            final(self).data@ == final(r)@,
    {
        &mut self.data
    }
}

/// Contents of a signal packet: what was asked for and what was seen.
#[derive(Debug, Copy, Clone, PartialEq, Eq, Structural)]
pub struct SignalPacket {
    /// The trigger mask given at registration.
    pub trigger: Signals,
    /// The full signal state observed at delivery.
    pub observed: Signals,
    /// A count of pending operations; one for each delivery here.
    pub count: u64,
}

impl SignalPacket {
    /// The signals asked for at registration.
    pub fn trigger(&self) -> (s: Signals)
        ensures
            s == self.trigger,
    {
        self.trigger
    }

    /// The signals observed at delivery.
    pub fn observed(&self) -> (s: Signals)
        ensures
            s == self.observed,
    {
        self.observed
    }

    /// The per-object count of pending operations.
    pub fn count(&self) -> (c: u64)
        ensures
            c == self.count,
    {
        self.count
    }
}

/// What a packet carries, by origin.
#[derive(Debug, Copy, Clone, PartialEq, Eq)]
pub enum PacketContents {
    /// A user-generated packet.
    User(UserPacket),
    /// A one-shot signal observation.
    SignalOne(SignalPacket),
    /// A repeating signal observation.
    SignalRep(SignalPacket),
}

/// A packet delivered through the port.
#[derive(Debug, Copy, Clone, PartialEq, Eq)]
pub struct Packet {
    /// The key correlating the packet with its registration or sender.
    pub key: u64,
    /// The status carried with the packet.
    pub status: i32,
    /// The packet's contents.
    pub contents: PacketContents,
}

impl Packet {
    /// Builds a user packet.
    pub fn from_user_packet(key: u64, status: i32, user: UserPacket) -> (p: Packet)
        ensures
            p.key == key,
            p.status == status,
            p.contents matches PacketContents::User(u) && u.data@ == user.data@,
    {
        Packet { key, status, contents: PacketContents::User(user) }
    }

    /// The packet's key.
    pub fn key(&self) -> (k: u64)
        ensures
            k == self.key,
    {
        self.key
    }

    /// The packet's status.
    pub fn status(&self) -> (s: i32)
        ensures
            s == self.status,
    {
        self.status
    }

    /// The packet's contents.
    pub fn contents(&self) -> (c: PacketContents)
        ensures
            c == self.contents,
    {
        self.contents
    }
}

/// The mode of a readiness registration.
#[derive(Debug, Copy, Clone, PartialEq, Eq, Structural)]
pub enum WaitAsyncOpts {
    /// Deliver one packet, then stop until re-registered.
    Once,
    /// Deliver on each edge of the trigger condition until cancelled.
    Repeating,
}

/// An outstanding request that the port deliver a packet on signal match.
#[derive(Debug, Copy, Clone, PartialEq, Eq, Structural)]
pub struct Registration {
    /// The waitable whose signals are watched.
    pub obj: usize,
    /// The key stamped on delivered packets.
    pub key: u64,
    /// The trigger mask.
    pub trigger: Signals,
    /// One-shot or repeating.
    pub mode: WaitAsyncOpts,
    /// True when the next match may fire; a repeating registration disarms on
    /// delivery and re-arms when the condition goes false.
    pub armed: bool,
}

/// The signal state of one waitable object.
#[derive(Debug, Copy, Clone, PartialEq, Eq, Structural)]
pub struct Waitable {
    /// The currently asserted signals.
    pub signals: Signals,
    /// False once the object is closed.
    pub open: bool,
}

/// A packet in the port's queue, with the waitable that produced it, if any.
#[derive(Debug, Copy, Clone, PartialEq, Eq)]
pub struct QueuedPacket {
    /// The packet as the waiter will receive it.
    pub packet: Packet,
    /// The source waitable for a signal packet; none for a user packet.
    pub source: Option<usize>,
}

/// Whether a registration fires when its object's signals become `s`.
pub open spec fn reg_fires(r: Registration, obj: int, s: Signals) -> bool {
    r.obj == obj && r.armed && mask_matches(s, r.trigger)
}

/// Whether a registration is consumed by this transition.
pub open spec fn reg_removed(r: Registration, obj: int, s: Signals) -> bool {
    reg_fires(r, obj, s) && r.mode == WaitAsyncOpts::Once
}

/// A surviving registration after its object's signals become `s`.
pub open spec fn reg_after_signal(r: Registration, obj: int, s: Signals) -> Registration {
    if r.obj != obj {
        r
    } else if reg_fires(r, obj, s) {
        Registration { armed: false, ..r }
    } else if !mask_matches(s, r.trigger) {
        Registration { armed: true, ..r }
    } else {
        r
    }
}

/// The packet a firing registration queues when the observed state is `s`.
pub open spec fn fired_packet(r: Registration, s: Signals) -> QueuedPacket {
    QueuedPacket {
        packet: Packet {
            key: r.key,
            status: 0,
            contents: if r.mode == WaitAsyncOpts::Once {
                PacketContents::SignalOne(SignalPacket { trigger: r.trigger, observed: s, count: 1 })
            } else {
                PacketContents::SignalRep(SignalPacket { trigger: r.trigger, observed: s, count: 1 })
            },
        },
        source: Some(r.obj),
    }
}

/// The registrations left after the signals of `obj` become `s`.
pub open spec fn regs_after_signal(regs: Seq<Registration>, obj: int, s: Signals) -> Seq<
    Registration,
>
    decreases regs.len(),
{
    if regs.len() == 0 {
        Seq::empty()
    } else {
        let rest = regs_after_signal(regs.drop_last(), obj, s);
        let r = regs.last();
        if reg_removed(r, obj, s) {
            rest
        } else {
            rest.push(reg_after_signal(r, obj, s))
        }
    }
}

/// The packets queued, in registration order, when the signals of `obj`
/// become `s`.
pub open spec fn fired_packets(regs: Seq<Registration>, obj: int, s: Signals) -> Seq<QueuedPacket>
    decreases regs.len(),
{
    if regs.len() == 0 {
        Seq::empty()
    } else {
        let rest = fired_packets(regs.drop_last(), obj, s);
        let r = regs.last();
        if reg_fires(r, obj, s) {
            rest.push(fired_packet(r, s))
        } else {
            rest
        }
    }
}

/// The registrations left after cancelling key `key` on `obj`.
pub open spec fn regs_after_cancel(regs: Seq<Registration>, obj: int, key: u64) -> Seq<
    Registration,
>
    decreases regs.len(),
{
    if regs.len() == 0 {
        Seq::empty()
    } else {
        let rest = regs_after_cancel(regs.drop_last(), obj, key);
        let r = regs.last();
        if r.obj == obj && r.key == key {
            rest
        } else {
            rest.push(r)
        }
    }
}

/// The registrations left after `obj` is closed.
pub open spec fn regs_after_close(regs: Seq<Registration>, obj: int) -> Seq<Registration>
    decreases regs.len(),
{
    if regs.len() == 0 {
        Seq::empty()
    } else {
        let rest = regs_after_close(regs.drop_last(), obj);
        let r = regs.last();
        if r.obj == obj {
            rest
        } else {
            rest.push(r)
        }
    }
}

/// The model port: a packet queue, the outstanding registrations, the
/// waitable objects it watches, and a monotonic clock.
#[derive(Debug)]
pub struct Port {
    /// Queued packets, oldest first.
    pub queue: Vec<QueuedPacket>,
    /// Outstanding readiness registrations, oldest first.
    pub regs: Vec<Registration>,
    /// The waitable objects, indexed by their id.
    pub objects: Vec<Waitable>,
    /// The clock; `wait` advances it to an elapsed deadline.
    pub now: Time,
}

impl Port {
    /// True when `obj` names a live (created and not closed) waitable.
    pub open spec fn is_live(self, obj: usize) -> bool {
        obj < self.objects@.len() && self.objects@[obj as int].open
    }

    /// Creates an empty port whose clock starts at zero.
    pub fn create() -> (r: Result<Port, Status>)
        ensures
            r matches Ok(p) ==> {
                &&& p.queue@ == Seq::<QueuedPacket>::empty()
                &&& p.regs@ == Seq::<Registration>::empty()
                &&& p.objects@ == Seq::<Waitable>::empty()
                &&& p.now.nanos == 0
            },
            r is Ok,
    {
        Ok(Port { queue: Vec::new(), regs: Vec::new(), objects: Vec::new(), now: Time { nanos: 0 } })
    }

    /// The clock's current reading.
    pub fn now(&self) -> (t: Time)
        ensures
            t == self.now,
    {
        self.now
    }

    /// Creates a new waitable object with no signals asserted.
    pub fn create_waitable(&mut self) -> (id: usize)
        ensures
            id == old(self).objects@.len(),
            final(self).objects@ == old(self).objects@.push(Waitable { signals: 0, open: true }),
            final(self).queue@ == old(self).queue@,
            final(self).regs@ == old(self).regs@,
            final(self).now == old(self).now,
    {
        let id = self.objects.len();
        self.objects.push(Waitable { signals: 0, open: true });
        id
    }

    /// Enqueues a user packet.
    pub fn queue(&mut self, packet: &Packet) -> (r: Result<(), Status>)
        ensures
            r is Ok,
            final(self).queue@ == old(self).queue@.push(
                QueuedPacket { packet: *packet, source: None },
            ),
            final(self).regs@ == old(self).regs@,
            final(self).objects@ == old(self).objects@,
            final(self).now == old(self).now,
    {
        self.queue.push(QueuedPacket { packet: *packet, source: None });
        Ok(())
    }

    /// Blocks until a packet arrives or the deadline elapses. In the model no
    /// transition can happen while a caller waits, so an empty queue times
    /// out, advancing the clock to the deadline.
    pub fn wait(&mut self, deadline: Time) -> (r: Result<Packet, Status>)
        ensures
            old(self).queue@.len() > 0 ==> {
                &&& r matches Ok(p) && p == old(self).queue@[0].packet
                &&& final(self).queue@ == old(self).queue@.subrange(
                    1,
                    old(self).queue@.len() as int,
                )
                &&& final(self).now == old(self).now
            },
            old(self).queue@.len() == 0 ==> {
                &&& r matches Err(e) && e == Status::TimedOut
                &&& final(self).queue@ == old(self).queue@
                &&& final(self).now.nanos == if deadline.nanos > old(self).now.nanos {
                    deadline.nanos
                } else {
                    old(self).now.nanos
                }
            },
            final(self).regs@ == old(self).regs@,
            final(self).objects@ == old(self).objects@,
    {
        if self.queue.len() > 0 {
            let entry = self.queue.remove(0);
            Ok(entry.packet)
        } else {
            if deadline.nanos > self.now.nanos {
                self.now = deadline;
            }
            Err(Status::TimedOut)
        }
    }

    /// Asks the port to deliver a packet with `key` when the signals of `obj`
    /// match `trigger`. A condition already true delivers at once; the
    /// registration then stays only in `Repeating` mode, disarmed until the
    /// condition goes false again.
    pub fn wait_async(
        &mut self,
        obj: usize,
        key: u64,
        trigger: Signals,
        mode: WaitAsyncOpts,
    ) -> (r: Result<(), Status>)
        ensures
            !old(self).is_live(obj) ==> {
                &&& r matches Err(e) && e == Status::HandleClosed
                &&& final(self).queue@ == old(self).queue@
                &&& final(self).regs@ == old(self).regs@
            },
            old(self).is_live(obj) ==> {
                let observed = old(self).objects@[obj as int].signals;
                let reg = Registration { obj, key, trigger, mode, armed: true };
                &&& r is Ok
                &&& if mask_matches(observed, trigger) {
                    &&& final(self).queue@ == old(self).queue@.push(
                        fired_packet(reg, observed),
                    )
                    &&& final(self).regs@ == if mode == WaitAsyncOpts::Repeating {
                        old(self).regs@.push(Registration { armed: false, ..reg })
                    } else {
                        old(self).regs@
                    }
                } else {
                    &&& final(self).queue@ == old(self).queue@
                    &&& final(self).regs@ == old(self).regs@.push(reg)
                }
            },
            final(self).objects@ == old(self).objects@,
            final(self).now == old(self).now,
    {
        if obj >= self.objects.len() || !self.objects[obj].open {
            return Err(Status::HandleClosed);
        }
        let observed = self.objects[obj].signals;
        let reg = Registration { obj, key, trigger, mode, armed: true };
        if mask_matches_exec(observed, trigger) {
            self.queue.push(fired_packet_exec(&reg, observed));
            if mode == WaitAsyncOpts::Repeating {
                self.regs.push(Registration { armed: false, ..reg });
            }
        } else {
            self.regs.push(reg);
        }
        Ok(())
    }

    /// Clears and then sets signal bits on `obj`, delivering a packet for
    /// every armed registration whose trigger the new state matches.
    pub fn signal(&mut self, obj: usize, clear: Signals, set: Signals) -> (r: Result<(), Status>)
        ensures
            !old(self).is_live(obj) ==> {
                &&& r matches Err(e) && e == Status::HandleClosed
                &&& final(self).queue@ == old(self).queue@
                &&& final(self).regs@ == old(self).regs@
                &&& final(self).objects@ == old(self).objects@
            },
            old(self).is_live(obj) ==> {
                let s2 = next_signals(old(self).objects@[obj as int].signals, clear, set);
                &&& r is Ok
                &&& final(self).objects@ == old(self).objects@.update(
                    obj as int,
                    Waitable { signals: s2, open: true },
                )
                &&& final(self).regs@ == regs_after_signal(old(self).regs@, obj as int, s2)
                &&& final(self).queue@ == old(self).queue@ + fired_packets(
                    old(self).regs@,
                    obj as int,
                    s2,
                )
            },
            final(self).now == old(self).now,
    {
        if obj >= self.objects.len() || !self.objects[obj].open {
            return Err(Status::HandleClosed);
        }
        let s2: Signals = (self.objects[obj].signals & !clear) | set;
        self.objects.set(obj, Waitable { signals: s2, open: true });
        let ghost regs0 = self.regs@;
        let mut new_regs: Vec<Registration> = Vec::new();
        let mut i: usize = 0;
        while i < self.regs.len()
            invariant
                i <= regs0.len(),
                self.regs@ == regs0,
                new_regs@ == regs_after_signal(regs0.take(i as int), obj as int, s2),
                self.queue@ == old(self).queue@ + fired_packets(regs0.take(i as int), obj as int, s2),
                self.objects@ == old(self).objects@.update(
                    obj as int,
                    Waitable { signals: s2, open: true },
                ),
                self.now == old(self).now,
            decreases regs0.len() - i,
        {
            let r = self.regs[i];
            proof {
                assert(regs0.take(i as int + 1).drop_last() =~= regs0.take(i as int));
                assert(regs0.take(i as int + 1).last() == regs0[i as int]);
            }
            if r.obj == obj && r.armed && mask_matches_exec(s2, r.trigger) {
                self.queue.push(fired_packet_exec(&r, s2));
                if r.mode == WaitAsyncOpts::Repeating {
                    new_regs.push(Registration { armed: false, ..r });
                }
            } else if r.obj == obj && !mask_matches_exec(s2, r.trigger) {
                new_regs.push(Registration { armed: true, ..r });
            } else {
                new_regs.push(r);
            }
            i = i + 1;
        }
        proof {
            assert(regs0.take(regs0.len() as int) =~= regs0);
        }
        self.regs = new_regs;
        Ok(())
    }

    /// Removes the registration for `(obj, key)`, if any: no new packet is
    /// ever produced for it afterwards, however the trigger is re-satisfied.
    /// Packets already enqueued before the cancellation are unaffected and
    /// stay deliverable; the race with an in-flight delivery is resolved at
    /// dispatch, where an unregistered key is dropped silently.
    pub fn cancel(&mut self, obj: usize, key: u64) -> (r: Result<(), Status>)
        ensures
            obj >= old(self).objects@.len() ==> {
                &&& r matches Err(e) && e == Status::HandleClosed
                &&& final(self).regs@ == old(self).regs@
            },
            obj < old(self).objects@.len() ==> {
                &&& r is Ok
                &&& final(self).regs@ == regs_after_cancel(old(self).regs@, obj as int, key)
            },
            final(self).queue@ == old(self).queue@,
            final(self).objects@ == old(self).objects@,
            final(self).now == old(self).now,
    {
        if obj >= self.objects.len() {
            return Err(Status::HandleClosed);
        }
        let ghost regs0 = self.regs@;
        let mut new_regs: Vec<Registration> = Vec::new();
        let mut i: usize = 0;
        while i < self.regs.len()
            invariant
                i <= regs0.len(),
                self.regs@ == regs0,
                new_regs@ == regs_after_cancel(regs0.take(i as int), obj as int, key),
            decreases regs0.len() - i,
        {
            let r = self.regs[i];
            proof {
                assert(regs0.take(i as int + 1).drop_last() =~= regs0.take(i as int));
            }
            if !(r.obj == obj && r.key == key) {
                new_regs.push(r);
            }
            i = i + 1;
        }
        proof {
            assert(regs0.take(regs0.len() as int) =~= regs0);
        }
        self.regs = new_regs;
        Ok(())
    }

    /// Closes a waitable: its registrations are dropped, so no further packet
    /// is ever delivered for it; packets already queued are unaffected.
    pub fn close_waitable(&mut self, obj: usize) -> (r: Result<(), Status>)
        ensures
            obj >= old(self).objects@.len() ==> {
                &&& r matches Err(e) && e == Status::HandleClosed
                &&& final(self).regs@ == old(self).regs@
                &&& final(self).objects@ == old(self).objects@
            },
            obj < old(self).objects@.len() ==> {
                &&& r is Ok
                &&& final(self).regs@ == regs_after_close(old(self).regs@, obj as int)
                &&& final(self).objects@ == old(self).objects@.update(
                    obj as int,
                    Waitable { signals: old(self).objects@[obj as int].signals, open: false },
                )
            },
            final(self).queue@ == old(self).queue@,
            final(self).now == old(self).now,
    {
        if obj >= self.objects.len() {
            return Err(Status::HandleClosed);
        }
        let signals = self.objects[obj].signals;
        self.objects.set(obj, Waitable { signals, open: false });
        let ghost regs0 = self.regs@;
        let mut new_regs: Vec<Registration> = Vec::new();
        let mut i: usize = 0;
        while i < self.regs.len()
            invariant
                i <= regs0.len(),
                self.regs@ == regs0,
                new_regs@ == regs_after_close(regs0.take(i as int), obj as int),
            decreases regs0.len() - i,
        {
            let r = self.regs[i];
            proof {
                assert(regs0.take(i as int + 1).drop_last() =~= regs0.take(i as int));
            }
            if r.obj != obj {
                new_regs.push(r);
            }
            i = i + 1;
        }
        proof {
            assert(regs0.take(regs0.len() as int) =~= regs0);
        }
        self.regs = new_regs;
        Ok(())
    }
}

/// True when no outstanding registration carries `key`.
pub open spec fn no_reg_with_key(regs: Seq<Registration>, key: u64) -> bool {
    forall|i: int| 0 <= i < regs.len() ==> (#[trigger] regs[i]).key != key
}

/// True when no queued packet carries `key`.
pub open spec fn no_packet_with_key(q: Seq<QueuedPacket>, key: u64) -> bool {
    forall|i: int| 0 <= i < q.len() ==> (#[trigger] q[i]).packet.key != key
}

/// One signal transition, abstractly: the object touched and the signal
/// state it ends up with.
pub struct SignalStep {
    /// The waitable whose signals changed.
    pub obj: int,
    /// Its new signal state.
    pub s: Signals,
}

/// The registrations left after a sequence of signal transitions.
pub open spec fn regs_after_steps(regs: Seq<Registration>, steps: Seq<SignalStep>) -> Seq<
    Registration,
>
    decreases steps.len(),
{
    if steps.len() == 0 {
        regs
    } else {
        regs_after_signal(
            regs_after_steps(regs, steps.drop_last()),
            steps.last().obj,
            steps.last().s,
        )
    }
}

/// Every packet delivered over a sequence of signal transitions.
pub open spec fn packets_after_steps(regs: Seq<Registration>, steps: Seq<SignalStep>) -> Seq<
    QueuedPacket,
>
    decreases steps.len(),
{
    if steps.len() == 0 {
        Seq::empty()
    } else {
        packets_after_steps(regs, steps.drop_last()) + fired_packets(
            regs_after_steps(regs, steps.drop_last()),
            steps.last().obj,
            steps.last().s,
        )
    }
}

/// A key with no outstanding registration stays silent across one signal
/// transition: no packet carries it, and no registration for it reappears.
pub proof fn lemma_silent_key_step(regs: Seq<Registration>, obj: int, s: Signals, key: u64)
    requires
        no_reg_with_key(regs, key),
    ensures
        no_reg_with_key(regs_after_signal(regs, obj, s), key),
        no_packet_with_key(fired_packets(regs, obj, s), key),
    decreases regs.len(),
{
    if regs.len() > 0 {
        assert(forall|i: int| 0 <= i < regs.drop_last().len() ==> (#[trigger] regs.drop_last()[i])
            == regs[i]);
        lemma_silent_key_step(regs.drop_last(), obj, s, key);
        assert(regs.last() == regs[regs.len() - 1]);
    }
}

/// A key with no outstanding registration stays silent forever: however often
/// and in whatever pattern signals are cleared and set afterwards, no packet
/// for that key is ever delivered. This is what cancellation, the consumption
/// of a one-shot registration, and the closing of a waitable each establish.
pub proof fn lemma_silent_key_never_fires(
    regs: Seq<Registration>,
    steps: Seq<SignalStep>,
    key: u64,
)
    requires
        no_reg_with_key(regs, key),
    ensures
        no_reg_with_key(regs_after_steps(regs, steps), key),
        no_packet_with_key(packets_after_steps(regs, steps), key),
    decreases steps.len(),
{
    if steps.len() > 0 {
        lemma_silent_key_never_fires(regs, steps.drop_last(), key);
        lemma_silent_key_step(
            regs_after_steps(regs, steps.drop_last()),
            steps.last().obj,
            steps.last().s,
            key,
        );
    }
}

/// Cancelling `(obj, key)` leaves no registration for the key, provided the
/// key was bound only to `obj` — which the receiver registry's key
/// uniqueness guarantees. With [`lemma_silent_key_never_fires`], satisfying
/// the trigger condition afterwards, however repeatedly, delivers nothing.
pub proof fn lemma_cancel_removes_key(regs: Seq<Registration>, obj: int, key: u64)
    requires
        forall|i: int| 0 <= i < regs.len() && (#[trigger] regs[i]).key == key ==> regs[i].obj
            == obj,
    ensures
        no_reg_with_key(regs_after_cancel(regs, obj, key), key),
    decreases regs.len(),
{
    if regs.len() > 0 {
        assert(forall|i: int| 0 <= i < regs.drop_last().len() ==> (#[trigger] regs.drop_last()[i])
            == regs[i]);
        lemma_cancel_removes_key(regs.drop_last(), obj, key);
        assert(regs.last() == regs[regs.len() - 1]);
    }
}

/// Closing a waitable leaves no registration for a key bound only to it:
/// destruction of the source stops all further delivery for its
/// registrations.
pub proof fn lemma_close_removes_key(regs: Seq<Registration>, obj: int, key: u64)
    requires
        forall|i: int| 0 <= i < regs.len() && (#[trigger] regs[i]).key == key ==> regs[i].obj
            == obj,
    ensures
        no_reg_with_key(regs_after_close(regs, obj), key),
    decreases regs.len(),
{
    if regs.len() > 0 {
        assert(forall|i: int| 0 <= i < regs.drop_last().len() ==> (#[trigger] regs.drop_last()[i])
            == regs[i]);
        lemma_close_removes_key(regs.drop_last(), obj, key);
        assert(regs.last() == regs[regs.len() - 1]);
    }
}

/// A one-shot registration is consumed by the transition that fires it: when
/// every registration for the key is an armed one-shot on `obj` whose trigger
/// the new state matches, the transition leaves no registration for the key,
/// so no further packet follows until an explicit re-registration.
pub proof fn lemma_once_consumed(regs: Seq<Registration>, obj: int, s: Signals, key: u64)
    requires
        forall|i: int| 0 <= i < regs.len() && (#[trigger] regs[i]).key == key ==> {
            &&& regs[i].obj == obj
            &&& regs[i].mode == WaitAsyncOpts::Once
            &&& regs[i].armed
            &&& mask_matches(s, regs[i].trigger)
        },
    ensures
        no_reg_with_key(regs_after_signal(regs, obj, s), key),
    decreases regs.len(),
{
    if regs.len() > 0 {
        assert(forall|i: int| 0 <= i < regs.drop_last().len() ==> (#[trigger] regs.drop_last()[i])
            == regs[i]);
        lemma_once_consumed(regs.drop_last(), obj, s, key);
        assert(regs.last() == regs[regs.len() - 1]);
    }
}

/// Setting a signal again without clearing it first delivers nothing more:
/// when every registration for the key is disarmed — as a repeating
/// registration is just after its delivery — and the new state still matches
/// each one's trigger, the transition fires no packet for the key and leaves
/// every such registration disarmed, so the silence composes over any number
/// of repeated settings.
pub proof fn lemma_disarmed_key_stays_silent(
    regs: Seq<Registration>,
    obj: int,
    s: Signals,
    key: u64,
)
    requires
        forall|i: int|
            0 <= i < regs.len() && (#[trigger] regs[i]).key == key ==> !regs[i].armed && (
            regs[i].obj == obj ==> mask_matches(s, regs[i].trigger)),
    ensures
        no_packet_with_key(fired_packets(regs, obj, s), key),
        forall|i: int|
            0 <= i < regs_after_signal(regs, obj, s).len() && (#[trigger] regs_after_signal(
                regs,
                obj,
                s,
            )[i]).key == key ==> !regs_after_signal(regs, obj, s)[i].armed && (
            regs_after_signal(regs, obj, s)[i].obj == obj ==> mask_matches(
                s,
                regs_after_signal(regs, obj, s)[i].trigger,
            )),
    decreases regs.len(),
{
    if regs.len() > 0 {
        assert(forall|i: int| 0 <= i < regs.drop_last().len() ==> (#[trigger] regs.drop_last()[i])
            == regs[i]);
        lemma_disarmed_key_stays_silent(regs.drop_last(), obj, s, key);
        assert(regs.last() == regs[regs.len() - 1]);
    }
}

/// A repeating registration is edge-triggered. Just after a delivery it is
/// disarmed: while its condition keeps holding it neither fires nor changes,
/// and only after the condition leaves and re-enters does it fire again.
pub proof fn lemma_repeating_is_edge_triggered(
    r: Registration,
    s_held: Signals,
    s_off: Signals,
    s_on: Signals,
)
    requires
        r.mode == WaitAsyncOpts::Repeating,
        !r.armed,
        mask_matches(s_held, r.trigger),
        !mask_matches(s_off, r.trigger),
        mask_matches(s_on, r.trigger),
    ensures
        !reg_fires(r, r.obj as int, s_held),
        reg_after_signal(r, r.obj as int, s_held) == r,
        reg_fires(
            reg_after_signal(reg_after_signal(r, r.obj as int, s_held), r.obj as int, s_off),
            r.obj as int,
            s_on,
        ),
{
}

/// Exec mirror of [`fired_packet`].
fn fired_packet_exec(r: &Registration, s: Signals) -> (p: QueuedPacket)
    ensures
        p == fired_packet(*r, s),
{
    QueuedPacket {
        packet: Packet {
            key: r.key,
            status: 0,
            contents: if r.mode == WaitAsyncOpts::Once {
                PacketContents::SignalOne(SignalPacket { trigger: r.trigger, observed: s, count: 1 })
            } else {
                PacketContents::SignalRep(SignalPacket { trigger: r.trigger, observed: s, count: 1 })
            },
        },
        source: Some(r.obj),
    }
}

} // verus!


