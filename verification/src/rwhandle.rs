//! The readiness adapter: gives a waitable handle a poll-based readable /
//! writable interface over the port. Each direction is an independent slot
//! that re-arms a one-shot registration on every pending poll, remembers the
//! most recent waker — the last caller wins — and treats a delivery that
//! observes peer closure as terminal.

use vstd::prelude::*;
use crate::Signals;
use crate::port::{mask_matches, Port, Status, WaitAsyncOpts, PEER_CLOSED, READABLE, WRITABLE};

verus! {

/// The state of one readiness direction.
#[derive(Debug, Copy, Clone, PartialEq, Eq, Structural)]
pub enum SlotState {
    /// No registration is outstanding; the next poll submits one.
    Unregistered,
    /// A one-shot registration is outstanding; its packet has not arrived.
    AwaitingPacket,
    /// The packet arrived and readiness was observed; the next poll consumes
    /// it and re-arms.
    Delivered,
    /// The packet observed peer closure, or the waitable is gone: terminal.
    Failed,
}

/// What a poll of a readiness slot reports.
#[derive(Debug, Copy, Clone, PartialEq, Eq, Structural)]
pub enum ReadinessPoll {
    /// Readiness was delivered since the last poll; try the operation.
    Ready,
    /// Not ready; a registration is outstanding and the waker is stored.
    Pending,
}

/// One readiness direction: its state and the most recent waker.
#[derive(Debug, Copy, Clone, PartialEq, Eq, Structural)]
pub struct ReadinessSlot {
    /// Where the slot stands in its re-arm cycle.
    pub state: SlotState,
    /// The waker from the most recent pending poll.
    pub waker: Option<u64>,
    /// The registry key this slot's packets carry.
    pub key: u64,
}

impl ReadinessSlot {
    /// A fresh, unarmed slot for `key`.
    pub fn new(key: u64) -> (s: ReadinessSlot)
        ensures
            s.state == SlotState::Unregistered,
            s.waker is None,
            s.key == key,
    {
        ReadinessSlot { state: SlotState::Unregistered, waker: None, key }
    }

    /// Polls the slot. Unregistered: submit a one-shot wait for `mask` or
    /// peer closure on `obj` and park with the waker stored. Awaiting: store
    /// the newest waker — the last caller wins — and stay parked. Delivered:
    /// report ready and clear the registration state, so the next poll
    /// re-arms. Failed, or a dead waitable: report the closure.
    pub fn poll(&mut self, port: &mut Port, obj: usize, mask: Signals, waker: u64) -> (r: Result<
        ReadinessPoll,
        Status,
    >)
        ensures
            call_poll_describes(
                *old(port),
                *final(port),
                *old(self),
                *final(self),
                obj,
                mask,
                waker,
                r,
            ),
    {
        match self.state {
            SlotState::Failed => Err(Status::HandleClosed),
            SlotState::Delivered => {
                self.state = SlotState::Unregistered;
                Ok(ReadinessPoll::Ready)
            },
            SlotState::AwaitingPacket => {
                self.waker = Some(waker);
                Ok(ReadinessPoll::Pending)
            },
            SlotState::Unregistered => {
                if obj >= port.objects.len() || !port.objects[obj].open {
                    self.state = SlotState::Failed;
                    return Err(Status::HandleClosed);
                }
                let observed = port.objects[obj].signals;
                if observed & (mask | PEER_CLOSED) != 0 {
                    return Ok(ReadinessPoll::Ready);
                }
                match port.wait_async(obj, self.key, mask | PEER_CLOSED, WaitAsyncOpts::Once) {
                    Ok(()) => {
                        self.state = SlotState::AwaitingPacket;
                        self.waker = Some(waker);
                        Ok(ReadinessPoll::Pending)
                    },
                    Err(e) => {
                        self.state = SlotState::Failed;
                        Err(e)
                    },
                }
            },
        }
    }

    /// Takes the delivery of this slot's one-shot packet: the stored waker is
    /// handed back to be woken and the registration state is cleared, so the
    /// next poll re-arms. A delivery that observed peer closure is terminal:
    /// every later poll reports the closure, never success.
    pub fn on_packet(&mut self, observed: Signals) -> (r: Result<Option<u64>, Status>)
        ensures
            final(self).key == old(self).key,
            old(self).state != SlotState::AwaitingPacket ==> {
                &&& r matches Err(e) && e == Status::InvariantViolation
                &&& *final(self) == *old(self)
            },
            old(self).state == SlotState::AwaitingPacket ==> {
                &&& r matches Ok(w) && w == old(self).waker
                &&& final(self).waker is None
                &&& final(self).state == if mask_matches(observed, PEER_CLOSED) {
                    SlotState::Failed
                } else {
                    SlotState::Delivered
                }
            },
    {
        if !(self.state == SlotState::AwaitingPacket) {
            return Err(Status::InvariantViolation);
        }
        let waker = self.waker;
        self.waker = None;
        if observed & PEER_CLOSED != 0 {
            self.state = SlotState::Failed;
        } else {
            self.state = SlotState::Delivered;
        }
        Ok(waker)
    }
}

/// A waitable handle with an async readable / writable interface: one slot
/// for each direction, independent of the other, over one shared port.
#[derive(Debug, Copy, Clone, PartialEq, Eq, Structural)]
pub struct RWHandle {
    /// The waitable whose readiness is watched.
    pub obj: usize,
    /// The read-interest slot.
    pub read: ReadinessSlot,
    /// The write-interest slot.
    pub write: ReadinessSlot,
}

impl RWHandle {
    /// Wraps `obj`, with the two registry keys its packets will carry.
    pub fn new(obj: usize, read_key: u64, write_key: u64) -> (h: RWHandle)
        ensures
            h.obj == obj,
            h.read.state == SlotState::Unregistered,
            h.write.state == SlotState::Unregistered,
            h.read.key == read_key,
            h.write.key == write_key,
    {
        RWHandle { obj, read: ReadinessSlot::new(read_key), write: ReadinessSlot::new(write_key) }
    }

    /// Polls for readability; the write slot is untouched.
    pub fn poll_read(&mut self, port: &mut Port, waker: u64) -> (r: Result<ReadinessPoll, Status>)
        ensures
            final(self).write == old(self).write,
            final(self).obj == old(self).obj,
            call_poll_describes(
                *old(port),
                *final(port),
                old(self).read,
                final(self).read,
                old(self).obj,
                READABLE,
                waker,
                r,
            ),
    {
        let obj = self.obj;
        self.read.poll(port, obj, READABLE, waker)
    }

    /// Polls for writability; the read slot is untouched.
    pub fn poll_write(&mut self, port: &mut Port, waker: u64) -> (r: Result<ReadinessPoll, Status>)
        ensures
            final(self).read == old(self).read,
            final(self).obj == old(self).obj,
            call_poll_describes(
                *old(port),
                *final(port),
                old(self).write,
                final(self).write,
                old(self).obj,
                WRITABLE,
                waker,
                r,
            ),
    {
        let obj = self.obj;
        self.write.poll(port, obj, WRITABLE, waker)
    }
}

/// What one slot poll does, as a relation between the states before and
/// after: the contract of [`ReadinessSlot::poll`], reused by both
/// directions.
pub open spec fn call_poll_describes(
    port0: Port,
    port1: Port,
    slot0: ReadinessSlot,
    slot1: ReadinessSlot,
    obj: usize,
    mask: Signals,
    waker: u64,
    r: Result<ReadinessPoll, Status>,
) -> bool {
    &&& port1.objects@ == port0.objects@
    &&& port1.now == port0.now
    &&& slot1.key == slot0.key
    &&& (slot0.state == SlotState::Failed ==> {
        &&& r matches Err(e) && e == Status::HandleClosed
        &&& slot1 == slot0
        &&& port1 == port0
    })
    &&& (slot0.state == SlotState::Delivered ==> {
        &&& r matches Ok(p) && p == ReadinessPoll::Ready
        &&& slot1.state == SlotState::Unregistered
        &&& port1 == port0
    })
    &&& (slot0.state == SlotState::AwaitingPacket ==> {
        &&& r matches Ok(p) && p == ReadinessPoll::Pending
        &&& slot1.state == SlotState::AwaitingPacket
        &&& slot1.waker == Some(waker)
        &&& port1 == port0
    })
    &&& (slot0.state == SlotState::Unregistered ==> {
        &&& port1.queue@ == port0.queue@
        &&& if port0.is_live(obj) && !mask_matches(
            port0.objects@[obj as int].signals,
            mask | PEER_CLOSED,
        ) {
            &&& r matches Ok(p) && p == ReadinessPoll::Pending
            &&& slot1.state == SlotState::AwaitingPacket
            &&& slot1.waker == Some(waker)
            &&& port1.regs@ == port0.regs@.push(
                crate::port::Registration {
                    obj,
                    key: slot0.key,
                    trigger: mask | PEER_CLOSED,
                    mode: WaitAsyncOpts::Once,
                    armed: true,
                },
            )
        } else if port0.is_live(obj) {
            &&& r matches Ok(p) && p == ReadinessPoll::Ready
            &&& slot1.state == SlotState::Unregistered
            &&& port1.regs@ == port0.regs@
        } else {
            &&& r matches Err(e) && e == Status::HandleClosed
            &&& slot1.state == SlotState::Failed
            &&& port1.regs@ == port0.regs@
        }
    })
}

} // verus!
