//! The timer heap and the interval re-arm rule: timers never fire early,
//! pop in deadline order, and an interval's schedule never drifts.

use port_exec::port::Time;
use port_exec::timer::{Interval, TimerEntry, TimerHeap};

#[test]
fn timers_pop_in_deadline_order() {
    let mut heap = TimerHeap::new();
    heap.insert(TimerEntry { deadline: Time::from_nanos(300), key: 3 });
    heap.insert(TimerEntry { deadline: Time::from_nanos(100), key: 1 });
    heap.insert(TimerEntry { deadline: Time::from_nanos(200), key: 2 });
    assert_eq!(heap.next_deadline(), Some(Time::from_nanos(100)));

    let e = heap.pop_due(Time::from_nanos(1_000)).unwrap();
    assert_eq!(e.key, 1);
    let e = heap.pop_due(Time::from_nanos(1_000)).unwrap();
    assert_eq!(e.key, 2);
    let e = heap.pop_due(Time::from_nanos(1_000)).unwrap();
    assert_eq!(e.key, 3);
    assert_eq!(heap.pop_due(Time::from_nanos(1_000)), None);
}

#[test]
fn timer_never_fires_before_its_deadline() {
    let mut heap = TimerHeap::new();
    heap.insert(TimerEntry { deadline: Time::from_nanos(500), key: 9 });
    // Before the deadline nothing is due, at it the timer pops.
    assert_eq!(heap.pop_due(Time::from_nanos(499)), None);
    assert_eq!(heap.len(), 1);
    let e = heap.pop_due(Time::from_nanos(500)).unwrap();
    assert_eq!(e.key, 9);
}

#[test]
fn equal_deadlines_fire_in_insertion_order() {
    let mut heap = TimerHeap::new();
    heap.insert(TimerEntry { deadline: Time::from_nanos(100), key: 1 });
    heap.insert(TimerEntry { deadline: Time::from_nanos(100), key: 2 });
    heap.insert(TimerEntry { deadline: Time::from_nanos(100), key: 3 });
    assert_eq!(heap.pop_due(Time::from_nanos(100)).unwrap().key, 1);
    assert_eq!(heap.pop_due(Time::from_nanos(100)).unwrap().key, 2);
    assert_eq!(heap.pop_due(Time::from_nanos(100)).unwrap().key, 3);
}

#[test]
fn interval_rearms_from_schedule_without_drift() {
    let mut iv = Interval::new(Time::from_nanos(1_000), 250);
    assert_eq!(iv.next_deadline(), Time::from_nanos(1_000));
    // However late each firing is dispatched, the next deadline is the fired
    // deadline plus the period: after four re-arms, exactly start + 4 * 250.
    iv.rearm();
    iv.rearm();
    iv.rearm();
    iv.rearm();
    assert_eq!(iv.next_deadline(), Time::from_nanos(2_000));
}

#[test]
fn remove_key_leaves_the_rest_in_order() {
    let mut heap = TimerHeap::new();
    heap.insert(TimerEntry { deadline: Time::from_nanos(100), key: 1 });
    heap.insert(TimerEntry { deadline: Time::from_nanos(200), key: 2 });
    heap.insert(TimerEntry { deadline: Time::from_nanos(300), key: 1 });
    heap.insert(TimerEntry { deadline: Time::from_nanos(400), key: 3 });
    heap.remove_key(1);
    assert_eq!(heap.len(), 2);
    assert_eq!(heap.pop_due(Time::from_nanos(1_000)).unwrap().key, 2);
    assert_eq!(heap.pop_due(Time::from_nanos(1_000)).unwrap().key, 3);
}
