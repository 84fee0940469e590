//! The concurrency-safe future cell: a three-state machine that makes
//! "poll on wake" safe when many threads wake and poll one future. A wake
//! moves `Idle` to `Polling` and obliges the waker to poll; a wake during a
//! poll is banked as `Repoll` rather than lost; the poller drains banked
//! wakes before parking. Resolution is terminal: a wake past `Done` is a
//! programming error and is rejected, never absorbed.

use vstd::prelude::*;
use crate::port::Status;

verus! {

/// The per-future poll state.
#[derive(Debug, Copy, Clone, PartialEq, Eq, Structural)]
pub enum AtomicFutureState {
    /// Nobody is polling; a wake must start a poll.
    Idle,
    /// Exactly one thread is inside poll.
    Polling,
    /// A wake arrived during the poll; the poller must poll again.
    Repoll,
    /// The future resolved; no further polls or wakes are accepted.
    Done,
}

/// What an accepted wake obliges the waker to do.
#[derive(Debug, Copy, Clone, PartialEq, Eq, Structural)]
pub enum WakeAction {
    /// The waker must poll the future itself.
    MustPoll,
    /// A poll is already in progress; the wake is banked as a repoll.
    Deferred,
}

/// What the poller must do after its poll call returned.
#[derive(Debug, Copy, Clone, PartialEq, Eq, Structural)]
pub enum PollDisposition {
    /// The future is parked again; the next wake restarts it.
    Parked,
    /// A wake raced with the poll; poll again before going idle.
    PollAgain,
    /// The future resolved; the cell is terminal.
    Resolved,
}

/// True while some thread is inside poll.
pub open spec fn in_poll_state(s: AtomicFutureState) -> bool {
    s == AtomicFutureState::Polling || s == AtomicFutureState::Repoll
}

/// The state after an accepted wake.
pub open spec fn wake_next(s: AtomicFutureState) -> AtomicFutureState {
    match s {
        AtomicFutureState::Idle => AtomicFutureState::Polling,
        AtomicFutureState::Polling => AtomicFutureState::Repoll,
        AtomicFutureState::Repoll => AtomicFutureState::Repoll,
        AtomicFutureState::Done => AtomicFutureState::Done,
    }
}

/// Whether a wake in state `s` starts a poll in the waking thread.
pub open spec fn wake_grants_poll(s: AtomicFutureState) -> bool {
    s == AtomicFutureState::Idle
}

/// The state after the poller reports its poll's outcome.
pub open spec fn finish_next(s: AtomicFutureState, resolved: bool) -> AtomicFutureState {
    if resolved {
        AtomicFutureState::Done
    } else if s == AtomicFutureState::Repoll {
        AtomicFutureState::Polling
    } else {
        AtomicFutureState::Idle
    }
}

/// Whether the poller must poll again instead of parking.
pub open spec fn finish_repolls(s: AtomicFutureState, resolved: bool) -> bool {
    !resolved && s == AtomicFutureState::Repoll
}

/// The future cell, with ghost counts of accepted wakes and of polls begun.
#[derive(Clone, Copy)]
pub struct AtomicFuture {
    /// The poll state.
    pub state: AtomicFutureState,
    /// How many wakes were accepted.
    pub wakes: Ghost<nat>,
    /// How many polls were begun.
    pub polls: Ghost<nat>,
}

impl AtomicFuture {
    /// One when a banked wake still owes a poll.
    pub open spec fn banked(self) -> nat {
        if self.state == AtomicFutureState::Repoll {
            1
        } else {
            0
        }
    }

    /// The cell's invariant: every poll begun was paid for by a wake, banked
    /// wakes included, so the poll count never exceeds the wake count.
    pub open spec fn wf(self) -> bool {
        self.polls@ + self.banked() <= self.wakes@
    }

    /// A fresh cell: parked, with no wake or poll yet.
    pub fn new() -> (f: AtomicFuture)
        ensures
            f.state == AtomicFutureState::Idle,
            f.wakes@ == 0,
            f.polls@ == 0,
            f.wf(),
    {
        AtomicFuture {
            state: AtomicFutureState::Idle,
            wakes: Ghost(0),
            polls: Ghost(0),
        }
    }

    /// Requests a poll. From `Idle` the waker must poll itself; during a poll
    /// the wake is banked; past `Done` it is rejected as a programming error.
    pub fn wake(&mut self) -> (r: Result<WakeAction, Status>)
        requires
            old(self).wf(),
        ensures
            final(self).wf(),
            old(self).state == AtomicFutureState::Done ==> {
                &&& r matches Err(e) && e == Status::InvariantViolation
                &&& *final(self) == *old(self)
            },
            old(self).state != AtomicFutureState::Done ==> {
                &&& final(self).state == wake_next(old(self).state)
                &&& final(self).wakes@ == old(self).wakes@ + 1
                &&& if wake_grants_poll(old(self).state) {
                    r matches Ok(a) && a == WakeAction::MustPoll && final(self).polls@ == old(
                        self,
                    ).polls@ + 1
                } else {
                    r matches Ok(a) && a == WakeAction::Deferred && final(self).polls@ == old(
                        self,
                    ).polls@
                }
            },
    {
        match self.state {
            AtomicFutureState::Done => Err(Status::InvariantViolation),
            AtomicFutureState::Idle => {
                self.state = AtomicFutureState::Polling;
                proof {
                    self.wakes@ = self.wakes@ + 1;
                    self.polls@ = self.polls@ + 1;
                }
                Ok(WakeAction::MustPoll)
            },
            AtomicFutureState::Polling => {
                self.state = AtomicFutureState::Repoll;
                proof {
                    self.wakes@ = self.wakes@ + 1;
                }
                Ok(WakeAction::Deferred)
            },
            AtomicFutureState::Repoll => {
                proof {
                    self.wakes@ = self.wakes@ + 1;
                }
                Ok(WakeAction::Deferred)
            },
        }
    }

    /// Reports the outcome of the poll the caller just ran. A pending poll
    /// parks the cell unless a wake was banked meanwhile, in which case the
    /// caller must poll again; a resolved poll is terminal.
    pub fn finish_poll(&mut self, resolved: bool) -> (r: PollDisposition)
        requires
            old(self).wf(),
            in_poll_state(old(self).state),
        ensures
            final(self).wf(),
            final(self).state == finish_next(old(self).state, resolved),
            final(self).wakes@ == old(self).wakes@,
            resolved ==> r == PollDisposition::Resolved && final(self).polls@ == old(self).polls@,
            !resolved ==> if finish_repolls(old(self).state, resolved) {
                r == PollDisposition::PollAgain && final(self).polls@ == old(self).polls@ + 1
            } else {
                r == PollDisposition::Parked && final(self).polls@ == old(self).polls@
            },
    {
        if resolved {
            self.state = AtomicFutureState::Done;
            PollDisposition::Resolved
        } else if self.state == AtomicFutureState::Repoll {
            self.state = AtomicFutureState::Polling;
            proof {
                self.polls@ = self.polls@ + 1;
            }
            PollDisposition::PollAgain
        } else {
            self.state = AtomicFutureState::Idle;
            PollDisposition::Parked
        }
    }
}

/// Polls never outnumber wakes: in every reachable cell, the number of polls
/// begun is at most the number of wakes accepted — at most one poll per wake,
/// and no poll at all without one.
pub proof fn lemma_poll_count_bounded(f: AtomicFuture)
    requires
        f.wf(),
    ensures
        f.polls@ <= f.wakes@,
{
}

/// No two polls ever overlap: only a wake in the idle state starts a poll,
/// every wake that lands while a poll is in progress leaves the cell in a
/// poll-in-progress state without granting a second poller, and only the
/// poller's own finish leaves that state.
pub proof fn lemma_no_overlapping_poll(s: AtomicFutureState)
    ensures
        wake_grants_poll(s) ==> !in_poll_state(s),
        in_poll_state(s) ==> !wake_grants_poll(s) && in_poll_state(wake_next(s)),
{
}

/// No wake is lost: a wake that races with a poll in progress banks a repoll,
/// and the poller, finding the bank full when its poll comes back pending,
/// must poll again rather than park.
pub proof fn lemma_wake_never_lost()
    ensures
        wake_next(AtomicFutureState::Polling) == AtomicFutureState::Repoll,
        finish_repolls(AtomicFutureState::Repoll, false),
        finish_next(AtomicFutureState::Repoll, false) == AtomicFutureState::Polling,
{
}

} // verus!
