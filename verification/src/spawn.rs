use vstd::prelude::*;

verus! {

/// State of one scope-confined spawned future.
///
/// The state lives in the cell shared between the owning handle, which sits
/// in the spawning stack frame, and the detached, lifetime-erased proxy
/// handed to the external executor. Every access either side makes goes
/// through this state machine; the host program holds the actual future and
/// polls it only when the machine says to, so tearing the owner down can
/// make the proxy inert by a single transition to `Aborted`.
pub enum SpawnState<R> {
    /// Future constructed but not yet registered with the executor.
    /// Polling the detached proxy in this state is a fatal usage error.
    Created,
    /// The proxy has been registered with the external executor; the owner
    /// retains the only waker able to signal frame-local completion,
    /// recorded here as an opaque token.
    Spawned { local_waker: u64 },
    /// The future produced a result; the owner consumes it exactly once.
    Finished { out: Option<R> },
    /// The owning scope was torn down before completion. The proxy, if
    /// polled again, observes this and reports completion without touching
    /// the borrowed future.
    Aborted,
}

/// What the owner's poll decided.
pub enum OwnerPoll<R> {
    /// Hand the detached proxy to the external executor now, then suspend.
    Register,
    /// Still running; suspend.
    Pending,
    /// The future's result, delivered exactly once.
    Ready(R),
}

/// What the detached proxy's poll is allowed to do next.
#[derive(Clone, Copy, PartialEq, Eq, Structural, Debug)]
pub enum RemoteStep {
    /// The future is live and in scope: poll it through the cell.
    PollFuture,
    /// The cell is aborted: report "done, no further work" immediately,
    /// without reaching for the borrowed future.
    Complete,
}

/// The step a proxy poll takes in a given state; defined exactly on the
/// states in which polling the proxy is legal.
pub open spec fn spec_remote_step<R>(state: SpawnState<R>) -> RemoteStep
    recommends
        state is Spawned || state is Aborted,
{
    if state is Aborted {
        RemoteStep::Complete
    } else {
        RemoteStep::PollFuture
    }
}

impl<R> SpawnState<R> {
    /// A freshly constructed, not yet registered future.
    pub fn new() -> (r: Self)
        ensures
            r is Created,
    {
        SpawnState::Created
    }

    /// The owner's poll.
    ///
    /// On the first poll inside the owning scope the future is registered:
    /// the owner's waker token is stored and the caller must hand the
    /// detached proxy to the executor. Later polls suspend until the proxy
    /// reports a result, which is delivered exactly once. Polling from
    /// outside the owning dynamic scope before registration, polling again
    /// after the result was delivered, and polling an aborted cell are
    /// fatal usage errors, excluded by precondition.
    pub fn owner_poll(&mut self, in_scope: bool, local_waker: u64) -> (r: OwnerPoll<R>)
        requires
            *old(self) is Created ==> in_scope,
            !(*old(self) matches SpawnState::Finished { out: Option::None }),
            !(*old(self) is Aborted),
        ensures
            *old(self) is Created ==> *final(self) == (SpawnState::<R>::Spawned { local_waker })
                && r is Register,
            *old(self) is Spawned ==> *final(self) == *old(self) && r is Pending,
            *old(self) matches SpawnState::Finished { out: Option::Some(res) } ==> *final(self)
                == (SpawnState::Finished { out: Option::<R>::None }) && r == OwnerPoll::Ready(res),
    {
        match self {
            SpawnState::Created => {
                *self = SpawnState::Spawned { local_waker };
                OwnerPoll::Register
            },
            SpawnState::Spawned { .. } => OwnerPoll::Pending,
            SpawnState::Finished { out } => {
                let res = out.take().unwrap();
                OwnerPoll::Ready(res)
            },
            SpawnState::Aborted => unreached(),
        }
    }

    /// The detached proxy's poll, first half: decide whether the borrowed
    /// future may be touched at all.
    ///
    /// Only a registered or aborted cell may be polled by the executor;
    /// polling before registration or after the result was taken is a fatal
    /// usage error, excluded by precondition. An aborted cell reports
    /// `Complete` and is left untouched: this is the transition that makes
    /// scope teardown safe.
    pub fn remote_poll_step(&self) -> (r: RemoteStep)
        requires
            *self is Spawned || *self is Aborted,
        ensures
            r == spec_remote_step(*self),
    {
        match self {
            SpawnState::Aborted => RemoteStep::Complete,
            _ => RemoteStep::PollFuture,
        }
    }

    /// The detached proxy's poll, second half, taken when the borrowed
    /// future it was told to poll returned a result: store the result for
    /// the owner and return the owner's waker token, which the caller must
    /// fire.
    pub fn remote_finish(&mut self, out: R) -> (waker: u64)
        requires
            *old(self) is Spawned,
        ensures
            *final(self) == (SpawnState::Finished { out: Option::Some(out) }),
            *old(self) matches SpawnState::Spawned { local_waker: w } ==> waker == w,
    {
        let waker = match self {
            SpawnState::Spawned { local_waker } => *local_waker,
            _ => unreached(),
        };
        *self = SpawnState::Finished { out: Some(out) };
        waker
    }

    /// Tear-down by the owning scope, from any state: the cell becomes
    /// `Aborted` atomically with the owner's destruction, so the executor
    /// can never observe a half-torn-down state.
    pub fn abort(&mut self)
        ensures
            *final(self) is Aborted,
    {
        *self = SpawnState::Aborted;
    }
}

/// Aborting the owning scope while the detached proxy is mid-suspension
/// makes the proxy's next poll observe completion without touching the
/// borrowed future: whatever state the cell was in, after `abort` it is
/// `Aborted`, and the only step a proxy poll may then take is `Complete` —
/// never `PollFuture`, the one step that reaches the borrowed data.
pub proof fn lemma_abort_quiesces_remote<R>(state: SpawnState<R>)
    requires
        state is Aborted,
    ensures
        spec_remote_step(state) == RemoteStep::Complete,
{
}

/// Registry of the dynamic scopes currently able to guarantee timely
/// abortion, each named by an opaque token.
///
/// A scope pushes its token while it runs its children and pops it on the
/// way out; the spawner's owner poll demands that the spawning frame's
/// token be found here, which keeps the primitive inside the structured-
/// concurrency discipline it depends on.
pub struct ScopeRegistry {
    active: Vec<u64>,
}

impl ScopeRegistry {
    pub closed spec fn tokens(&self) -> Seq<u64> {
        self.active@
    }

    pub fn new() -> (r: Self)
        ensures
            r.tokens() == Seq::<u64>::empty(),
    {
        ScopeRegistry { active: Vec::new() }
    }

    /// Enter a scope: its token becomes active for the duration.
    pub fn enter(&mut self, token: u64)
        ensures
            final(self).tokens() == old(self).tokens().push(token),
    {
        self.active.push(token);
    }

    /// Leave the most recently entered scope.
    pub fn exit(&mut self)
        requires
            old(self).tokens().len() > 0,
        ensures
            final(self).tokens() == old(self).tokens().take(old(self).tokens().len() - 1),
    {
        self.active.pop();
    }

    /// Whether `token` names a currently active scope.
    pub fn contains(&self, token: u64) -> (r: bool)
        ensures
            r == self.tokens().contains(token),
    {
        let mut i: usize = 0;
        while i < self.active.len()
            invariant
                i <= self.active.len(),
                forall|k: int| 0 <= k < i ==> self.active@[k] != token,
            decreases self.active.len() - i,
        {
            if self.active[i] == token {
                return true;
            }
            i = i + 1;
        }
        false
    }
}

} // verus!
