use dithering::coordinator::{render_is_cancelled, take_next};
use dithering::{
    AtomicCancellationToken, CancellationCheck, DocumentId, NeverCancel, RequestIdentity,
    RequestTracker, Revision, WorkerStep,
};

fn identity(document: u64, revision: u64) -> RequestIdentity {
    RequestIdentity {
        document_id: DocumentId::new(document),
        revision: Revision::new(revision),
    }
}

#[test]
fn cloned_tokens_share_the_cancelled_state() {
    let first = AtomicCancellationToken::new();
    let second = first.clone();

    assert!(!second.is_cancelled());
    first.cancel();
    assert!(second.is_cancelled());
}

#[test]
fn never_cancel_never_stops() {
    assert!(!NeverCancel.is_cancelled());
}

#[test]
fn only_the_latest_submission_is_current() {
    let mut tracker = RequestTracker::new();
    let first = tracker.submit(identity(1, 1));
    let second = tracker.submit(identity(1, 2));
    assert_eq!((first, second), (1, 2));
    assert!(!tracker.is_current(first, identity(1, 1)));
    assert!(!tracker.is_current(second, identity(1, 1)));
    assert!(tracker.is_current(second, identity(1, 2)));
    assert!(tracker.has_current_request());
}

#[test]
fn a_repeated_identity_is_told_apart_by_its_generation() {
    let mut tracker = RequestTracker::new();
    let first = tracker.submit(identity(1, 1));
    let second = tracker.submit(identity(1, 1));
    assert!(!tracker.is_current(first, identity(1, 1)));
    assert!(tracker.is_current(second, identity(1, 1)));
}

#[test]
fn cancellation_leaves_nothing_current() {
    let mut tracker = RequestTracker::new();
    let generation = tracker.submit(identity(3, 7));
    tracker.cancel_current();
    assert!(!tracker.has_current_request());
    assert!(!tracker.is_current(generation, identity(3, 7)));
    assert_eq!(tracker.desired_generation, 2);
}

#[test]
fn generations_wrap_in_the_tracker_but_requests_saturate() {
    let mut tracker = RequestTracker { desired_generation: u64::MAX, desired_identity: None };
    assert_eq!(tracker.submit(identity(1, 1)), u64::MAX);
    assert_eq!(tracker.desired_generation, 0);
}

#[test]
fn a_render_stops_on_shutdown_or_a_newer_generation() {
    assert!(render_is_cancelled(true, 4, 4));
    assert!(render_is_cancelled(false, 5, 4));
    assert!(!render_is_cancelled(false, 4, 4));
}

#[test]
fn the_worker_takes_only_ready_requests() {
    assert_eq!(take_next(true, Some(true)), WorkerStep::Stop);
    assert_eq!(take_next(false, Some(true)), WorkerStep::Take);
    assert_eq!(take_next(false, Some(false)), WorkerStep::WaitUntilReady);
    assert_eq!(take_next(false, None), WorkerStep::WaitForWork);
}

#[test]
fn three_submissions_keep_only_the_last_one_current() {
    let mut tracker = RequestTracker::new();
    let first = tracker.submit(identity(1, 1));
    let second = tracker.submit(identity(1, 2));
    let third = tracker.submit(identity(1, 3));
    for generation in [first, second] {
        for revision in 1..=3 {
            assert!(!tracker.is_current(generation, identity(1, revision)));
        }
    }
    assert!(tracker.is_current(third, identity(1, 3)));
    assert!(!tracker.is_current(third, identity(1, 2)));
}
