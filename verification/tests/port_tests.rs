//! The port model end to end: user packets, one-shot and repeating signal
//! registrations, cancellation, and closing the source.

use port_exec::port::{
    Packet, PacketContents, Port, Status, Time, UserPacket, WaitAsyncOpts, NONE, USER_0, USER_1,
};

fn ten_ms_after(port: &Port) -> Time {
    Time::from_nanos(port.now().nanos() + 10_000_000)
}

#[test]
fn port_basic() {
    let mut port = Port::create().unwrap();

    // Waiting now should time out.
    let deadline = ten_ms_after(&port);
    assert_eq!(port.wait(deadline), Err(Status::TimedOut));

    // Send a valid packet.
    let packet = Packet::from_user_packet(42, 123, UserPacket::from_u8_array([13; 32]));
    assert!(port.queue(&packet).is_ok());

    // Waiting should succeed this time. We should get back the packet we sent.
    let deadline = ten_ms_after(&port);
    let read_packet = port.wait(deadline).unwrap();
    assert_eq!(read_packet, packet);
}

#[test]
fn wait_async_once() {
    let key = 42;

    let mut port = Port::create().unwrap();
    let event = port.create_waitable();

    assert!(port.wait_async(event, key, USER_0 | USER_1, WaitAsyncOpts::Once).is_ok());

    // Waiting without setting any signal should time out.
    let deadline = ten_ms_after(&port);
    assert_eq!(port.wait(deadline), Err(Status::TimedOut));

    // If we set a signal, we should be able to wait for it.
    assert!(port.signal(event, NONE, USER_0).is_ok());
    let deadline = ten_ms_after(&port);
    let read_packet = port.wait(deadline).unwrap();
    assert_eq!(read_packet.key(), key);
    assert_eq!(read_packet.status(), 0);
    match read_packet.contents() {
        PacketContents::SignalOne(sig) => {
            assert_eq!(sig.trigger(), USER_0 | USER_1);
            assert_eq!(sig.observed(), USER_0);
            assert_eq!(sig.count(), 1);
        }
        _ => panic!("wrong packet type"),
    }

    // Shouldn't get any more packets.
    let deadline = ten_ms_after(&port);
    assert_eq!(port.wait(deadline), Err(Status::TimedOut));

    // Calling wait_async again should result in another packet.
    assert!(port.wait_async(event, key, USER_0, WaitAsyncOpts::Once).is_ok());
    let deadline = ten_ms_after(&port);
    let read_packet = port.wait(deadline).unwrap();
    assert_eq!(read_packet.key(), key);
    assert_eq!(read_packet.status(), 0);
    match read_packet.contents() {
        PacketContents::SignalOne(sig) => {
            assert_eq!(sig.trigger(), USER_0);
            assert_eq!(sig.observed(), USER_0);
            assert_eq!(sig.count(), 1);
        }
        _ => panic!("wrong packet type"),
    }

    // Calling wait_async while the signal is already set enqueues the packet
    // at once; a cancel afterwards leaves that already-enqueued packet
    // deliverable and only stops new ones.
    assert!(port.wait_async(event, key, USER_0, WaitAsyncOpts::Once).is_ok());
    assert!(port.cancel(event, key).is_ok());
    let deadline = ten_ms_after(&port);
    let read_packet = port.wait(deadline).unwrap();
    assert_eq!(read_packet.key(), key);
    match read_packet.contents() {
        PacketContents::SignalOne(sig) => {
            assert_eq!(sig.observed(), USER_0);
            assert_eq!(sig.count(), 1);
        }
        _ => panic!("wrong packet type"),
    }

    // If the event is signalled after the cancel, we shouldn't get a packet:
    // the registration is gone before anything was enqueued.
    assert!(port.signal(event, USER_0, NONE).is_ok()); // clear signal
    assert!(port.wait_async(event, key, USER_0, WaitAsyncOpts::Once).is_ok());
    assert!(port.cancel(event, key).is_ok());
    assert!(port.signal(event, NONE, USER_0).is_ok());
    let deadline = ten_ms_after(&port);
    assert_eq!(port.wait(deadline), Err(Status::TimedOut));
}

#[test]
fn wait_async_repeating() {
    let key = 42;

    let mut port = Port::create().unwrap();
    let event = port.create_waitable();

    assert!(port.wait_async(event, key, USER_0 | USER_1, WaitAsyncOpts::Repeating).is_ok());

    // Waiting without setting any signal should time out.
    let deadline = ten_ms_after(&port);
    assert_eq!(port.wait(deadline), Err(Status::TimedOut));

    // If we set a signal, we should be able to wait for it.
    assert!(port.signal(event, NONE, USER_0).is_ok());
    let deadline = ten_ms_after(&port);
    let read_packet = port.wait(deadline).unwrap();
    assert_eq!(read_packet.key(), key);
    assert_eq!(read_packet.status(), 0);
    match read_packet.contents() {
        PacketContents::SignalRep(sig) => {
            assert_eq!(sig.trigger(), USER_0 | USER_1);
            assert_eq!(sig.observed(), USER_0);
            assert_eq!(sig.count(), 1);
        }
        _ => panic!("wrong packet type"),
    }

    // Should not get any more packets, as a repeating registration is edge
    // triggered rather than level triggered.
    let deadline = ten_ms_after(&port);
    assert_eq!(port.wait(deadline), Err(Status::TimedOut));

    // If we clear and resignal, we should get the same packet again,
    // even though we didn't call wait_async again.
    assert!(port.signal(event, USER_0, NONE).is_ok()); // clear signal
    assert!(port.signal(event, NONE, USER_0).is_ok());
    let deadline = ten_ms_after(&port);
    let read_packet = port.wait(deadline).unwrap();
    assert_eq!(read_packet.key(), key);
    assert_eq!(read_packet.status(), 0);
    match read_packet.contents() {
        PacketContents::SignalRep(sig) => {
            assert_eq!(sig.trigger(), USER_0 | USER_1);
            assert_eq!(sig.observed(), USER_0);
            assert_eq!(sig.count(), 1);
        }
        _ => panic!("wrong packet type"),
    }

    // Cancelling the wait should stop us getting packets...
    assert!(port.cancel(event, key).is_ok());
    let deadline = ten_ms_after(&port);
    assert_eq!(port.wait(deadline), Err(Status::TimedOut));
    // ... even if we clear and resignal
    assert!(port.signal(event, USER_0, NONE).is_ok()); // clear signal
    assert!(port.signal(event, NONE, USER_0).is_ok());
    let deadline = ten_ms_after(&port);
    assert_eq!(port.wait(deadline), Err(Status::TimedOut));

    // Calling wait_async again should result in another packet.
    assert!(port.wait_async(event, key, USER_0, WaitAsyncOpts::Repeating).is_ok());
    let deadline = ten_ms_after(&port);
    let read_packet = port.wait(deadline).unwrap();
    assert_eq!(read_packet.key(), key);
    assert_eq!(read_packet.status(), 0);
    match read_packet.contents() {
        PacketContents::SignalRep(sig) => {
            assert_eq!(sig.trigger(), USER_0);
            assert_eq!(sig.observed(), USER_0);
            assert_eq!(sig.count(), 1);
        }
        _ => panic!("wrong packet type"),
    }

    // Closing the handle should stop us getting packets.
    assert!(port.close_waitable(event).is_ok());
    let deadline = ten_ms_after(&port);
    assert_eq!(port.wait(deadline), Err(Status::TimedOut));
}

#[test]
fn user_packet_payload_round_trip() {
    let mut user = UserPacket::from_u8_array([7; 32]);
    assert_eq!(user.as_u8_array(), &[7u8; 32]);
    user.as_mut_u8_array()[0] = 9;
    assert_eq!(user.as_u8_array()[0], 9);
    assert_eq!(user.as_u8_array()[31], 7);

    let packet = Packet::from_user_packet(5, -1, user);
    assert_eq!(packet.key(), 5);
    assert_eq!(packet.status(), -1);
    match packet.contents() {
        PacketContents::User(u) => assert_eq!(u.as_u8_array()[0], 9),
        _ => panic!("wrong packet type"),
    }
}

#[test]
fn closed_or_unknown_waitable_is_rejected() {
    let mut port = Port::create().unwrap();
    // An id that was never created.
    assert_eq!(port.signal(3, NONE, USER_0), Err(Status::HandleClosed));
    assert_eq!(
        port.wait_async(3, 1, USER_0, WaitAsyncOpts::Once),
        Err(Status::HandleClosed)
    );
    assert_eq!(port.cancel(3, 1), Err(Status::HandleClosed));
    assert_eq!(port.close_waitable(3), Err(Status::HandleClosed));

    // A created then closed waitable refuses new work but never crashes.
    let event = port.create_waitable();
    assert!(port.wait_async(event, 1, USER_0, WaitAsyncOpts::Repeating).is_ok());
    assert!(port.close_waitable(event).is_ok());
    assert_eq!(port.signal(event, NONE, USER_0), Err(Status::HandleClosed));
    assert_eq!(
        port.wait_async(event, 2, USER_0, WaitAsyncOpts::Once),
        Err(Status::HandleClosed)
    );
    let deadline = ten_ms_after(&port);
    assert_eq!(port.wait(deadline), Err(Status::TimedOut));
}

#[test]
fn wait_advances_clock_to_deadline_on_timeout() {
    let mut port = Port::create().unwrap();
    assert_eq!(port.now().nanos(), 0);
    let deadline = Time::from_nanos(5_000);
    assert_eq!(port.wait(deadline), Err(Status::TimedOut));
    assert_eq!(port.now().nanos(), 5_000);
    // An earlier deadline never moves the clock backwards.
    assert_eq!(port.wait(Time::from_nanos(1_000)), Err(Status::TimedOut));
    assert_eq!(port.now().nanos(), 5_000);
}

#[test]
fn enqueued_packets_survive_cancel() {
    let mut port = Port::create().unwrap();
    let event = port.create_waitable();

    // A user packet enqueued before the cancel stays deliverable.
    let packet = Packet::from_user_packet(42, 0, UserPacket::from_u8_array([0; 32]));
    assert!(port.queue(&packet).is_ok());
    assert!(port.cancel(event, 42).is_ok());
    let deadline = ten_ms_after(&port);
    assert_eq!(port.wait(deadline), Ok(packet));

    // So does a signal packet the registration produced before the cancel;
    // only deliveries after the cancel are stopped.
    assert!(port.wait_async(event, 42, USER_0, WaitAsyncOpts::Repeating).is_ok());
    assert!(port.signal(event, NONE, USER_0).is_ok());
    assert!(port.cancel(event, 42).is_ok());
    let deadline = ten_ms_after(&port);
    assert_eq!(port.wait(deadline).unwrap().key(), 42);
    assert!(port.signal(event, USER_0, NONE).is_ok());
    assert!(port.signal(event, NONE, USER_0).is_ok());
    let deadline = ten_ms_after(&port);
    assert_eq!(port.wait(deadline), Err(Status::TimedOut));
}
