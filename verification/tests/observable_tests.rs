use reactive_core::observable::{NoChange, Observable};
use reactive_core::version::Version;

#[test]
fn version_ordering() {
    let null = Version::new_null();
    let first = Version::new();
    assert!(null.is_null());
    assert!(!first.is_null());
    assert!(first.is_newer_than(&null));
    assert!(!null.is_newer_than(&first));
    let second = first.incremented();
    assert!(second.is_newer_than(&first));
    assert_eq!(second.as_u64(), 2);
    assert!(second.eq_version(&first.incremented()));
}

#[test]
fn three_readers_one_writer() {
    // An observable holds 5; three readers borrow and record the version;
    // a writer takes the exclusive borrow, sets 6 and releases it. The
    // version is one above what the readers saw and all three registered
    // wakers fire exactly once.
    let mut cell = Observable::new(5u32);
    let g1 = cell.borrow();
    let v0 = g1.version();
    cell.release(g1);
    let g2 = cell.borrow();
    assert!(g2.version().eq_version(&v0));
    cell.release(g2);
    let g3 = cell.borrow();
    assert!(g3.version().eq_version(&v0));
    cell.release(g3);
    cell.add_waker(11);
    cell.add_waker(22);
    cell.add_waker(33);
    let guard = cell.borrow_mut();
    cell.set(6);
    let woken = cell.release_mut(guard);
    assert_eq!(woken, vec![11, 22, 33]);
    assert!(cell.version().eq_version(&v0.incremented()));
    let g4 = cell.borrow();
    assert_eq!(*cell.get(), 6);
    cell.release(g4);
}

#[test]
fn exclusive_cycles_strictly_increase_version() {
    // The version after each exclusive borrow-and-release is strictly
    // greater than after the previous one, even when the value is written
    // back unchanged.
    let mut cell = Observable::new(String::from("same"));
    let mut seen: Vec<u64> = vec![cell.version().as_u64()];
    for _ in 0..5 {
        let guard = cell.borrow_mut();
        cell.set(String::from("same"));
        cell.release_mut(guard);
        seen.push(cell.version().as_u64());
    }
    for i in 1..seen.len() {
        assert!(seen[i] > seen[i - 1]);
        assert_eq!(seen[i], seen[i - 1] + 1);
    }
}

#[test]
fn no_change_never_changes() {
    let cell = NoChange(7i64);
    assert_eq!(*cell.borrow_observable(), 7);
    let v = cell.get_version();
    assert_eq!(v.as_u64(), 1);
    cell.add_waker(99);
    assert_eq!(cell.get_version().as_u64(), 1);
}
