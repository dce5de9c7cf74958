use reactive_core::listeners::Listeners;

#[test]
fn invalidate_inside_drains_only_inside() {
    let mut reg = Listeners::new();
    assert_eq!(reg.current_version().as_u64(), 0);
    reg.add_inside_waker(1);
    reg.add_inside_waker(2);
    reg.add_outside_waker(3);
    let woken = reg.invalidate_inside();
    assert_eq!(woken, vec![1, 2]);
    assert_eq!(reg.current_version().as_u64(), 1);
    // The outside waker is still pending and fires on its own side.
    let woken = reg.invalidate_outside();
    assert_eq!(woken, vec![3]);
    assert_eq!(reg.current_version().as_u64(), 2);
}

#[test]
fn invalidation_fires_wakers_in_registration_order() {
    let mut reg = Listeners::new();
    reg.add_outside_waker(30);
    reg.add_outside_waker(10);
    reg.add_outside_waker(20);
    let woken = reg.invalidate_outside();
    assert_eq!(woken, vec![30, 10, 20]);
    // A second invalidation finds nothing registered but still bumps.
    let woken = reg.invalidate_outside();
    assert!(woken.is_empty());
    assert_eq!(reg.current_version().as_u64(), 2);
}

#[test]
fn invalidate_all_bumps_once() {
    let mut reg = Listeners::new();
    reg.add_inside_waker(5);
    reg.add_outside_waker(6);
    let woken = reg.invalidate_all();
    assert_eq!(woken, vec![5, 6]);
    assert_eq!(reg.current_version().as_u64(), 1);
}
