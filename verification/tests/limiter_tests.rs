use tcp_scanner::utils::{run_with_timeout, Semaphore};

#[test]
fn single_slot_second_acquire_parks_until_release() {
    let mut gate = Semaphore::new(1);
    let first = gate.acquire();
    let ticket = gate.poll(&first).expect("the only slot is free");
    assert_eq!(ticket.slot(), 0);

    let second = gate.acquire();
    assert!(gate.poll(&second).is_none(), "the second acquire must not complete");

    let woken = gate.release(ticket);
    assert!(woken.is_some(), "exactly one pending waiter resumes");

    let ticket2 = gate.poll(&second).expect("the released slot is claimable");
    assert_eq!(ticket2.slot(), 0);
}

#[test]
fn release_wakes_the_longest_waiting_waiter_first() {
    let mut gate = Semaphore::new(1);
    let holder = gate.acquire();
    let ticket = gate.poll(&holder).unwrap();

    let first_waiter = gate.acquire();
    let second_waiter = gate.acquire();
    assert!(gate.poll(&first_waiter).is_none());
    assert!(gate.poll(&second_waiter).is_none());

    let woken = gate.release(ticket).expect("someone is parked");
    // the first parked acquire is resumed first
    let t = gate.poll(&first_waiter).expect("the woken waiter claims the slot");
    let woken2 = gate.release(t).expect("the second waiter is still parked");
    assert_ne!(woken, woken2);
}

#[test]
fn capacity_bounds_concurrent_claims() {
    let mut gate = Semaphore::new(2);
    let a = gate.acquire();
    let b = gate.acquire();
    let c = gate.acquire();
    let ta = gate.poll(&a).expect("slot for the first");
    let tb = gate.poll(&b).expect("slot for the second");
    assert_ne!(ta.slot(), tb.slot());
    assert!(gate.poll(&c).is_none(), "no third unit of work may be admitted");
    gate.release(ta);
    assert!(gate.poll(&c).is_some());
}

#[test]
fn zero_capacity_admits_nobody() {
    let mut gate = Semaphore::new(0);
    let a = gate.acquire();
    assert!(gate.poll(&a).is_none());
}

#[test]
fn fast_operation_beats_the_timer() {
    // an operation completing at 10ms raced against a 1000ms timer
    assert_eq!(run_with_timeout(1000, Some((10u64, 42i32))), Some(42));
}

#[test]
fn never_completing_operation_times_out() {
    // an operation that never completes raced against a 1ms timer
    assert_eq!(run_with_timeout::<i32>(1, None), None);
}

#[test]
fn completion_at_the_deadline_loses() {
    assert_eq!(run_with_timeout(5, Some((5u64, 7i32))), None);
    assert_eq!(run_with_timeout(5, Some((4u64, 7i32))), Some(7));
}
