use reactive_core::spawn::{OwnerPoll, RemoteStep, ScopeRegistry, SpawnState};

#[test]
fn it_works() {
    let result = 2 + 2;
    assert_eq!(result, 4);
}

#[test]
fn spawn_lifecycle_created_to_finished() {
    let mut cell: SpawnState<u32> = SpawnState::new();
    // First owner poll inside the scope registers the proxy.
    let step = cell.owner_poll(true, 7);
    assert!(matches!(step, OwnerPoll::Register));
    // While registered, the owner just suspends.
    assert!(matches!(cell.owner_poll(true, 7), OwnerPoll::Pending));
    // The executor polls the proxy: the future is live.
    assert_eq!(cell.remote_poll_step(), RemoteStep::PollFuture);
    // The future completes; the owner's waker comes back to be fired.
    let waker = cell.remote_finish(41);
    assert_eq!(waker, 7);
    // The owner consumes the result exactly once.
    match cell.owner_poll(true, 7) {
        OwnerPoll::Ready(v) => assert_eq!(v, 41),
        _ => panic!("expected the result"),
    }
}

#[test]
fn abort_makes_detached_proxy_inert() {
    // The owning scope is torn down while the detached handle is
    // mid-suspension: the next poll of the handle observes completion
    // and never reaches for the borrowed future.
    let mut cell: SpawnState<String> = SpawnState::new();
    cell.owner_poll(true, 3);
    assert_eq!(cell.remote_poll_step(), RemoteStep::PollFuture);
    cell.abort();
    assert_eq!(cell.remote_poll_step(), RemoteStep::Complete);
    // Polling again keeps reporting completion.
    assert_eq!(cell.remote_poll_step(), RemoteStep::Complete);
}

#[test]
fn abort_before_registration() {
    let mut cell: SpawnState<()> = SpawnState::new();
    cell.abort();
    assert_eq!(cell.remote_poll_step(), RemoteStep::Complete);
}

#[test]
fn scope_registry_tracks_active_scopes() {
    let mut scopes = ScopeRegistry::new();
    assert!(!scopes.contains(1));
    scopes.enter(1);
    scopes.enter(2);
    assert!(scopes.contains(1));
    assert!(scopes.contains(2));
    assert!(!scopes.contains(3));
    scopes.exit();
    assert!(scopes.contains(1));
    assert!(!scopes.contains(2));
    scopes.exit();
    assert!(!scopes.contains(1));
}
