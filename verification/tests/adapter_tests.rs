use reactive_core::signals::{FromSignal, ToSignal};
use reactive_core::text_input::{submit_on_key, TextInputState};
use reactive_core::tracked_store::TrackedStore;
use reactive_core::version::Version;

#[test]
fn to_signal_reports_each_version_once() {
    let mut stream = ToSignal::new();
    let v1 = Version::new();
    // The first real version is newer than the null start: one item.
    assert!(stream.poll_change_step(v1));
    // Unchanged version: pending.
    assert!(!stream.poll_change_step(v1));
    let v2 = v1.incremented();
    assert!(stream.poll_change_step(v2));
    assert!(!stream.poll_change_step(v2));
    // A version that moved more than once still yields a single item.
    let v5 = v2.incremented().incremented().incremented();
    assert!(stream.poll_change_step(v5));
    assert!(!stream.poll_change_step(v5));
}

#[test]
fn from_signal_caches_and_versions_items() {
    let mut obs = FromSignal::new(0u32);
    assert_eq!(*obs.borrow_observable(), 0);
    let v1 = obs.get_version(None);
    assert_eq!(v1.as_u64(), 1);
    let v2 = obs.get_version(Some(5));
    assert_eq!(v2.as_u64(), 2);
    assert_eq!(*obs.borrow_observable(), 5);
    let v3 = obs.get_version(None);
    assert!(v3.eq_version(&v2));
    obs.add_waker(4);
}

#[test]
fn tracked_store_observables() {
    let mut node = TrackedStore::new(3i32);
    {
        let view = node.as_observable();
        assert_eq!(*view.borrow_observable(), 3);
        assert_eq!(view.get_version().as_u64(), 0);
    }
    node.add_waker(8);
    let woken = node.write(Some(4));
    assert_eq!(woken, vec![8]);
    assert_eq!(node.get_version().as_u64(), 1);
    let view = node.as_observable();
    assert_eq!(*view.borrow_observable(), 4);
}

#[test]
fn tracked_store_fallbacks() {
    let absent: TrackedStore<String> = TrackedStore::new_absent();
    {
        let view = absent.as_observable_or("fallback".to_string());
        assert_eq!(*view.borrow_observable(), "fallback".to_string());
    }
    {
        let view = absent.as_observable_or_default();
        assert_eq!(*view.borrow_observable(), String::new());
    }
    let present = TrackedStore::new("real".to_string());
    let view = present.as_observable_or("fallback".to_string());
    assert_eq!(*view.borrow_observable(), "real".to_string());
}

#[test]
fn text_input_writes_on_first_pass_and_on_change() {
    let mut state = TextInputState::new();
    // The very first pass writes even without a change.
    assert!(state.poll_step(false));
    assert!(!state.poll_step(false));
    assert!(state.poll_step(true));
    assert!(!state.poll_step(false));
}

#[test]
fn enter_submits_single_line_only() {
    assert!(submit_on_key("Enter", false));
    assert!(!submit_on_key("Enter", true));
    assert!(!submit_on_key("a", false));
    assert!(!submit_on_key("Escape", false));
}
