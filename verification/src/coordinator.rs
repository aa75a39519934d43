//! The decisions of the background render coordinator: which request is current, which worker
//! events still matter, and what the worker does next.
use vstd::prelude::*;

use crate::events::RequestIdentity;

verus! {

/// How soon a submitted request may start.
#[derive(Clone, Copy, Debug, PartialEq, Eq, Structural)]
pub enum Dispatch {
    Debounced,
    Immediate,
}

/// The generation that the worker must still be working for, and the identity of the request
/// that the interface waits for. Each submission or cancellation starts a new generation.
#[derive(Clone, Copy, Debug, PartialEq, Eq, Structural)]
pub struct RequestTracker {
    pub desired_generation: u64,
    pub desired_identity: Option<RequestIdentity>,
}

/// What a submission of `identity` does: the desired generation advances by one, wrapping at
/// the largest `u64`, the request carries the new generation (saturating instead of wrapping),
/// and the request becomes the one awaited.
pub open spec fn submitted(
    before: RequestTracker,
    identity: RequestIdentity,
    after: RequestTracker,
    generation: u64,
) -> bool {
    &&& after.desired_generation == (if before.desired_generation == u64::MAX {
        0
    } else {
        before.desired_generation + 1
    })
    &&& generation == (if before.desired_generation == u64::MAX {
        u64::MAX as int
    } else {
        before.desired_generation + 1
    })
    &&& after.desired_identity == Some(identity)
}

impl RequestTracker {
    pub fn new() -> (tracker: RequestTracker)
        ensures
            tracker.desired_generation == 0,
            tracker.desired_identity is None,
    {
        RequestTracker { desired_generation: 0, desired_identity: None }
    }

    /// Starts a new generation for a request and returns the generation that the request
    /// carries.
    pub fn submit(&mut self, identity: RequestIdentity) -> (generation: u64)
        ensures
            submitted(*old(self), identity, *final(self), generation),
    {
        let previous = self.desired_generation;
        self.desired_generation = previous.wrapping_add(1);
        self.desired_identity = Some(identity);
        previous.saturating_add(1)
    }

    /// Starts a new generation that no request carries, so nothing in flight is current.
    pub fn cancel_current(&mut self)
        ensures
            final(self).desired_generation == (if old(self).desired_generation == u64::MAX {
                0
            } else {
                old(self).desired_generation + 1
            }),
            final(self).desired_identity is None,
    {
        self.desired_generation = self.desired_generation.wrapping_add(1);
        self.desired_identity = None;
    }

    pub fn has_current_request(&self) -> (current: bool)
        ensures
            current == self.desired_identity is Some,
    {
        self.desired_identity.is_some()
    }

    pub open spec fn accepts(self, generation: u64, identity: RequestIdentity) -> bool {
        generation == self.desired_generation && self.desired_identity == Some(identity)
    }

    /// Whether an event of the given generation and request identity is still wanted.
    pub fn is_current(&self, generation: u64, identity: RequestIdentity) -> (current: bool)
        ensures
            current == self.accepts(generation, identity),
    {
        generation == self.desired_generation && match self.desired_identity {
            Some(desired) => desired == identity,
            None => false,
        }
    }
}

/// A render stops when the application shuts down or when a newer generation was requested.
pub fn render_is_cancelled(shutting_down: bool, desired_generation: u64, generation: u64) -> (cancelled: bool)
    ensures
        cancelled == (shutting_down || desired_generation != generation),
{
    shutting_down || desired_generation != generation
}

/// What the worker does next with its slot for the latest pending request.
#[derive(Clone, Copy, Debug, PartialEq, Eq, Structural)]
pub enum WorkerStep {
    Stop,
    Take,
    WaitUntilReady,
    WaitForWork,
}

/// The worker stops on shutdown, takes a pending request once its start time has come, waits
/// for that time otherwise, and sleeps until woken while nothing is pending. `pending_ready`
/// tells whether a request is pending and whether its start time has passed.
pub fn take_next(shutdown: bool, pending_ready: Option<bool>) -> (step: WorkerStep)
    ensures
        shutdown ==> step == WorkerStep::Stop,
        !shutdown && pending_ready == Some(true) ==> step == WorkerStep::Take,
        !shutdown && pending_ready == Some(false) ==> step == WorkerStep::WaitUntilReady,
        !shutdown && pending_ready is None ==> step == WorkerStep::WaitForWork,
{
    if shutdown {
        WorkerStep::Stop
    } else {
        match pending_ready {
            Some(true) => WorkerStep::Take,
            Some(false) => WorkerStep::WaitUntilReady,
            None => WorkerStep::WaitForWork,
        }
    }
}

/// After a submission, only events of that submission's generation and request are delivered:
/// anything that an earlier submission started is dropped, whatever its document and revision.
pub proof fn law_only_the_latest_submission_is_delivered(
    before: RequestTracker,
    identity: RequestIdentity,
    after: RequestTracker,
    generation: u64,
    event_generation: u64,
    event_identity: RequestIdentity,
)
    requires
        before.desired_generation < u64::MAX,
        after.desired_generation == before.desired_generation + 1,
        generation == before.desired_generation + 1,
        after.desired_identity == Some(identity),
        event_generation <= before.desired_generation,
    ensures
        !after.accepts(event_generation, event_identity),
        after.accepts(generation, identity),
{
}

/// After a cancellation, no event is delivered until the next submission.
pub proof fn law_nothing_is_delivered_after_cancellation(
    after: RequestTracker,
    event_generation: u64,
    event_identity: RequestIdentity,
)
    requires
        after.desired_identity is None,
    ensures
        !after.accepts(event_generation, event_identity),
{
}

proof fn lemma_submissions_count_up(
    trackers: Seq<RequestTracker>,
    identities: Seq<RequestIdentity>,
    generations: Seq<u64>,
    i: int,
)
    requires
        trackers.len() == identities.len() + 1,
        generations.len() == identities.len(),
        trackers[0].desired_generation + identities.len() <= u64::MAX,
        forall|j: int|
            #![trigger generations[j]]
            0 <= j < identities.len() ==> submitted(
                trackers[j],
                identities[j],
                trackers[j + 1],
                generations[j],
            ),
        0 <= i <= identities.len(),
    ensures
        trackers[i].desired_generation == trackers[0].desired_generation + i,
        i < identities.len() ==> generations[i] == trackers[0].desired_generation + i + 1,
    decreases i,
{
    if i > 0 {
        lemma_submissions_count_up(trackers, identities, generations, i - 1);
        assert(submitted(trackers[i - 1], identities[i - 1], trackers[i], generations[i - 1]));
    }
    if i < identities.len() {
        assert(submitted(trackers[i], identities[i], trackers[i + 1], generations[i]));
    }
}

/// After a series of submissions, and before the generations wrap around, the tracker accepts
/// exactly the events of the last submission's generation and request: whatever an earlier
/// submission started is dropped, even when it carries the same document and revision.
pub proof fn law_only_the_last_of_many_submissions_is_delivered(
    trackers: Seq<RequestTracker>,
    identities: Seq<RequestIdentity>,
    generations: Seq<u64>,
)
    requires
        identities.len() >= 1,
        trackers.len() == identities.len() + 1,
        generations.len() == identities.len(),
        trackers[0].desired_generation + identities.len() <= u64::MAX,
        forall|j: int|
            #![trigger generations[j]]
            0 <= j < identities.len() ==> submitted(
                trackers[j],
                identities[j],
                trackers[j + 1],
                generations[j],
            ),
    ensures
        forall|g: u64, e: RequestIdentity|
            trackers.last().accepts(g, e) <==> (g == generations.last() && e == identities.last()),
        forall|k: int| 0 <= k < identities.len() - 1 ==> #[trigger] generations[k] < generations.last(),
        forall|k: int, e: RequestIdentity|
            0 <= k < identities.len() - 1 ==> !#[trigger] trackers.last().accepts(generations[k], e),
{
    let n = identities.len() as int;
    lemma_submissions_count_up(trackers, identities, generations, n);
    lemma_submissions_count_up(trackers, identities, generations, n - 1);
    assert(submitted(trackers[n - 1], identities[n - 1], trackers[n], generations[n - 1]));
    assert(trackers.last() == trackers[n]);
    assert(generations.last() == generations[n - 1]);
    assert(identities.last() == identities[n - 1]);
    assert forall|k: int| 0 <= k < identities.len() - 1 implies #[trigger] generations[k]
        < generations.last() by {
        lemma_submissions_count_up(trackers, identities, generations, k);
    }
    assert forall|k: int, e: RequestIdentity|
        0 <= k < identities.len() - 1 implies !#[trigger] trackers.last().accepts(generations[k], e) by {
        lemma_submissions_count_up(trackers, identities, generations, k);
    }
}

} // verus!
