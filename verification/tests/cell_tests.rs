//! The concurrency-safe future cell: one poll per wake, no lost wake, and a
//! terminal state that rejects further wakes.

use port_exec::atomic_future::{
    AtomicFuture, AtomicFutureState, PollDisposition, WakeAction,
};
use port_exec::port::Status;

#[test]
fn wake_from_idle_grants_the_poll() {
    let mut cell = AtomicFuture::new();
    assert_eq!(cell.wake(), Ok(WakeAction::MustPoll));
    assert_eq!(cell.state, AtomicFutureState::Polling);
    // The poll came back pending with no racing wake: park.
    assert_eq!(cell.finish_poll(false), PollDisposition::Parked);
    assert_eq!(cell.state, AtomicFutureState::Idle);
}

#[test]
fn wake_during_poll_is_banked_not_lost() {
    let mut cell = AtomicFuture::new();
    assert_eq!(cell.wake(), Ok(WakeAction::MustPoll));
    // A second and third wake race with the poll: neither grants a second
    // poller, the obligation is banked once.
    assert_eq!(cell.wake(), Ok(WakeAction::Deferred));
    assert_eq!(cell.state, AtomicFutureState::Repoll);
    assert_eq!(cell.wake(), Ok(WakeAction::Deferred));
    assert_eq!(cell.state, AtomicFutureState::Repoll);
    // The poller finds the bank full: it must poll again, not park.
    assert_eq!(cell.finish_poll(false), PollDisposition::PollAgain);
    assert_eq!(cell.state, AtomicFutureState::Polling);
    // Nothing banked now: the next pending finish parks.
    assert_eq!(cell.finish_poll(false), PollDisposition::Parked);
}

#[test]
fn done_is_terminal_and_rejects_wakes() {
    let mut cell = AtomicFuture::new();
    assert_eq!(cell.wake(), Ok(WakeAction::MustPoll));
    assert_eq!(cell.finish_poll(true), PollDisposition::Resolved);
    assert_eq!(cell.state, AtomicFutureState::Done);
    // A wake past resolution is a programming error, rejected out loud.
    assert_eq!(cell.wake(), Err(Status::InvariantViolation));
    assert_eq!(cell.state, AtomicFutureState::Done);
}

#[test]
fn poll_count_stays_at_most_wake_count() {
    // Three wakes, each granting or banking exactly one poll: the cell's
    // accounting says polls never outnumber wakes.
    let mut cell = AtomicFuture::new();
    assert_eq!(cell.wake(), Ok(WakeAction::MustPoll)); // wake 1, poll 1
    assert_eq!(cell.wake(), Ok(WakeAction::Deferred)); // wake 2, banked
    assert_eq!(cell.finish_poll(false), PollDisposition::PollAgain); // poll 2
    assert_eq!(cell.finish_poll(false), PollDisposition::Parked);
    assert_eq!(cell.wake(), Ok(WakeAction::MustPoll)); // wake 3, poll 3
    assert_eq!(cell.finish_poll(true), PollDisposition::Resolved);
}
