//! The readiness adapter: re-arming one-shot registrations on pending
//! polls, last-waker-wins, independent directions, and terminal closure.

use port_exec::executor::{Dispatched, Executor};
use port_exec::port::{PacketContents, Status, Time, NONE, PEER_CLOSED, READABLE, WRITABLE};
use port_exec::rwhandle::{ReadinessPoll, RWHandle, SlotState};

#[test]
fn poll_read_arms_once_and_rearms_after_delivery() {
    let mut ex = Executor::new().unwrap();
    let obj = ex.port.create_waitable();
    let read_key = ex.register_readiness(0);
    let write_key = ex.register_readiness(0);
    let mut h = RWHandle::new(obj, read_key, write_key);

    // First poll arms a one-shot wait and parks with the waker stored.
    assert_eq!(h.poll_read(&mut ex.port, 11), Ok(ReadinessPoll::Pending));
    assert_eq!(h.read.state, SlotState::AwaitingPacket);
    // A later poll replaces the waker: the last caller wins.
    assert_eq!(h.poll_read(&mut ex.port, 12), Ok(ReadinessPoll::Pending));
    assert_eq!(h.read.waker, Some(12));

    // Readability arrives; the port queues the one-shot packet.
    assert!(ex.port.signal(obj, NONE, READABLE).is_ok());
    let packet = ex.port.wait(Time::from_nanos(10_000_000)).unwrap();
    assert_eq!(packet.key(), read_key);
    assert_eq!(ex.dispatch(&packet), Ok(Dispatched::Readiness(0)));
    let observed = match packet.contents() {
        PacketContents::SignalOne(sig) => sig.observed(),
        _ => panic!("wrong packet type"),
    };
    // The adapter hands back the stored waker and clears the registration.
    assert_eq!(h.read.on_packet(observed), Ok(Some(12)));
    assert_eq!(h.read.state, SlotState::Delivered);

    // The next poll consumes the delivery, the one after re-arms.
    assert_eq!(h.poll_read(&mut ex.port, 12), Ok(ReadinessPoll::Ready));
    assert_eq!(h.read.state, SlotState::Unregistered);
}

#[test]
fn read_and_write_slots_are_independent() {
    let mut ex = Executor::new().unwrap();
    let obj = ex.port.create_waitable();
    let mut h = RWHandle::new(obj, 1, 2);

    assert_eq!(h.poll_read(&mut ex.port, 5), Ok(ReadinessPoll::Pending));
    assert_eq!(h.poll_write(&mut ex.port, 6), Ok(ReadinessPoll::Pending));
    assert_eq!(h.read.state, SlotState::AwaitingPacket);
    assert_eq!(h.write.state, SlotState::AwaitingPacket);

    // Only writability arrives: the write slot's packet comes, the read
    // slot stays parked.
    assert!(ex.port.signal(obj, NONE, WRITABLE).is_ok());
    let packet = ex.port.wait(Time::from_nanos(1_000)).unwrap();
    assert_eq!(packet.key(), 2);
    assert_eq!(
        ex.port.wait(Time::from_nanos(1_000)),
        Err(Status::TimedOut)
    );
}

#[test]
fn closure_during_registration_is_terminal() {
    let mut ex = Executor::new().unwrap();
    let obj = ex.port.create_waitable();
    let mut h = RWHandle::new(obj, 1, 2);

    assert_eq!(h.poll_read(&mut ex.port, 5), Ok(ReadinessPoll::Pending));
    // The peer closes while the registration is outstanding: the delivery
    // observes the closure and the slot fails for good.
    assert!(ex.port.signal(obj, NONE, PEER_CLOSED).is_ok());
    let packet = ex.port.wait(Time::from_nanos(1_000)).unwrap();
    let observed = match packet.contents() {
        PacketContents::SignalOne(sig) => sig.observed(),
        _ => panic!("wrong packet type"),
    };
    assert_eq!(h.read.on_packet(observed), Ok(Some(5)));
    assert_eq!(h.read.state, SlotState::Failed);
    assert_eq!(h.poll_read(&mut ex.port, 5), Err(Status::HandleClosed));

    // A dead waitable fails the other slot on its next poll too.
    assert!(ex.port.close_waitable(obj).is_ok());
    assert_eq!(h.poll_write(&mut ex.port, 6), Err(Status::HandleClosed));
}

#[test]
fn already_ready_object_reports_ready_without_arming() {
    let mut ex = Executor::new().unwrap();
    let obj = ex.port.create_waitable();
    assert!(ex.port.signal(obj, NONE, READABLE).is_ok());
    let mut h = RWHandle::new(obj, 1, 2);
    // The signal is already asserted at the first poll: readiness is
    // reported at once and no registration is left behind.
    assert_eq!(h.poll_read(&mut ex.port, 5), Ok(ReadinessPoll::Ready));
    assert_eq!(h.read.state, SlotState::Unregistered);
}
