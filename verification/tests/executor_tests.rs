//! The run loop end to end: spawning, wake-driven polling, timer firing
//! through the port, and dispatch by key.

use port_exec::executor::{Dispatched, Executor, TaskFuture};
use port_exec::timer::Interval;
use port_exec::port::{Packet, Status, Time, UserPacket};

#[test]
fn run_resolves_a_self_waking_task() {
    let mut ex = Executor::new().unwrap();
    // A future that needs three polls, waking itself after each pending one.
    let root = ex.spawn(TaskFuture::CountDown(2));
    assert_eq!(ex.run(root, 4), Ok(true));
    assert!(ex.task_done(root));
}

#[test]
fn run_until_stalled_drains_every_ready_task() {
    let mut ex = Executor::new().unwrap();
    let a = ex.spawn(TaskFuture::CountDown(0));
    let b = ex.spawn_local(TaskFuture::CountDown(1)).unwrap();
    ex.run_until_stalled();
    assert!(ex.task_done(a));
    assert!(ex.task_done(b));
}

#[test]
fn timer_fires_no_earlier_than_its_deadline() {
    let mut ex = Executor::new().unwrap();
    // Bind a timer for t=500 to the task about to be spawned as index 0.
    let key = ex.set_timer(Time::from_nanos(500), 0);
    let root = ex.spawn(TaskFuture::WaitPacket { key, fired: false });
    assert_eq!(root, 0);
    assert_eq!(ex.run(root, 8), Ok(true));
    // The packet cannot have been delivered before the clock reached the
    // deadline.
    assert!(ex.port.now().nanos() >= 500);
}

#[test]
fn task_parked_on_a_packet_wakes_on_dispatch() {
    let mut ex = Executor::new().unwrap();
    let key = ex.register_task(0);
    let root = ex.spawn(TaskFuture::WaitPacket { key, fired: false });
    assert_eq!(root, 0);
    ex.run_until_stalled();
    assert!(!ex.task_done(root));

    // Deliver the packet by hand and route it: the task wakes and resolves.
    let packet = Packet::from_user_packet(key, 0, UserPacket::from_u8_array([0; 32]));
    assert_eq!(ex.dispatch(&packet), Ok(Dispatched::Woke(root)));
    ex.run_until_stalled();
    assert!(ex.task_done(root));
}

#[test]
fn dispatch_on_an_unregistered_key_is_dropped() {
    let mut ex = Executor::new().unwrap();
    let packet = Packet::from_user_packet(424242, 0, UserPacket::from_u8_array([0; 32]));
    assert_eq!(ex.dispatch(&packet), Ok(Dispatched::Dropped));

    // The same after an explicit unregistration: the race between a
    // cancellation and an in-flight packet ends in a silent drop.
    let key = ex.register_task(0);
    ex.registry.unregister(key);
    let packet = Packet::from_user_packet(key, 0, UserPacket::from_u8_array([0; 32]));
    assert_eq!(ex.dispatch(&packet), Ok(Dispatched::Dropped));
}

#[test]
fn stalled_run_without_timers_returns() {
    let mut ex = Executor::new().unwrap();
    let key = ex.register_task(0);
    let root = ex.spawn(TaskFuture::WaitPacket { key, fired: false });
    // Nothing will ever deliver the packet: the loop reports no resolution.
    assert_eq!(ex.run(root, 4), Ok(false));
    assert!(!ex.task_done(root));
}

#[test]
fn cancelled_timer_never_fires() {
    let mut ex = Executor::new().unwrap();
    let key = ex.set_timer(Time::from_nanos(500), 0);
    let root = ex.spawn(TaskFuture::WaitPacket { key, fired: false });
    ex.cancel_timer(key);
    // However long the loop runs, the cancelled timer resolves nothing.
    assert_eq!(ex.run(root, 8), Ok(false));
    assert!(!ex.task_done(root));
}

#[test]
fn timer_cancel_racing_with_fire_drops_the_packet() {
    let mut ex = Executor::new().unwrap();
    let key = ex.set_timer(Time::from_nanos(0), 0);
    let root = ex.spawn(TaskFuture::WaitPacket { key, fired: false });
    // The deadline is already due: the packet is queued before the cancel.
    assert_eq!(ex.fire_due_timers(), 1);
    ex.cancel_timer(key);
    // The in-flight packet for the cancelled key is dropped silently.
    let packet = ex.port.wait(Time::from_nanos(10)).unwrap();
    assert_eq!(packet.key(), key);
    assert_eq!(ex.dispatch(&packet), Ok(Dispatched::Dropped));
    ex.run_until_stalled();
    assert!(!ex.task_done(root));
}

#[test]
fn spawn_local_is_rejected_on_a_multi_worker_executor() {
    let mut ex = Executor::new_multi(4).unwrap();
    // A thread-confined task cannot be honoured by a worker pool: the
    // construction is rejected, not silently tolerated.
    assert_eq!(
        ex.spawn_local(TaskFuture::CountDown(0)),
        Err(Status::InvariantViolation)
    );
    // An unconfined task is taken as usual, and any worker may run it.
    let root = ex.spawn(TaskFuture::CountDown(1));
    assert_eq!(ex.run(root, 4), Ok(true));
}

#[test]
fn interval_refires_through_the_heap() {
    let mut ex = Executor::new().unwrap();
    let mut iv = Interval::new(Time::from_nanos(100), 50);
    let key = ex.set_interval(&iv, 0);
    let root = ex.spawn(TaskFuture::WaitPacket { key, fired: false });
    assert_eq!(root, 0);

    // Nothing is due before the first deadline; blocking advances the clock
    // to it, and then the interval fires.
    assert_eq!(ex.fire_due_timers(), 0);
    assert_eq!(ex.port.wait(Time::from_nanos(100)), Err(Status::TimedOut));
    assert_eq!(ex.fire_due_timers(), 1);
    let packet = ex.port.wait(Time::from_nanos(100)).unwrap();
    assert_eq!(packet.key(), key);

    // Re-arming is based on the fired deadline, not on the clock at
    // dispatch: the next firing stands exactly one period on, in the heap
    // under the same key, and is not due until then.
    ex.rearm_interval(&mut iv, key);
    assert_eq!(iv.next_deadline(), Time::from_nanos(150));
    assert_eq!(ex.timers.next_deadline(), Some(Time::from_nanos(150)));
    assert_eq!(ex.fire_due_timers(), 0);
    assert_eq!(ex.port.wait(Time::from_nanos(150)), Err(Status::TimedOut));
    assert_eq!(ex.fire_due_timers(), 1);
    assert_eq!(ex.port.wait(Time::from_nanos(150)).unwrap().key(), key);
}

#[test]
fn dispatch_to_a_resolved_task_is_fatal() {
    let mut ex = Executor::new().unwrap();
    let key = ex.register_task(0);
    let root = ex.spawn(TaskFuture::CountDown(0));
    ex.run_until_stalled();
    assert!(ex.task_done(root));
    // The key still routes to the task, but the task is gone: a bookkeeping
    // error, reported rather than silently absorbed.
    let packet = Packet::from_user_packet(key, 0, UserPacket::from_u8_array([0; 32]));
    assert_eq!(ex.dispatch(&packet), Err(Status::InvariantViolation));
}
