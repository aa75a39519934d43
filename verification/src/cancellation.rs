//! Cooperative cancellation that a render consults at least once per logical row.
use vstd::prelude::*;

use std::sync::atomic::{AtomicBool, Ordering};
use std::sync::Arc;

verus! {

/// Whether the work in progress should stop. Another thread may change the answer at any time.
pub trait CancellationCheck {
    fn is_cancelled(&self) -> bool;
}

/// A check that never asks to stop.
#[derive(Clone, Copy, Debug, Default)]
pub struct NeverCancel;

impl CancellationCheck for NeverCancel {
    fn is_cancelled(&self) -> (cancelled: bool)
        ensures
            !cancelled,
    {
        false
    }
}

/// A shared flag: every clone sees the cancellation that any of them requests.
#[derive(Clone, Debug)]
pub struct AtomicCancellationToken {
    cancelled: Arc<AtomicBool>,
}

impl AtomicCancellationToken {
    pub fn new() -> (token: AtomicCancellationToken) {
        AtomicCancellationToken { cancelled: Arc::new(AtomicBool::new(false)) }
    }

    /// Asks every holder of the shared flag to stop.
    pub fn cancel(&self) {
        self.cancelled.store(true, Ordering::Release);
    }
}

impl Default for AtomicCancellationToken {
    fn default() -> (token: AtomicCancellationToken) {
        AtomicCancellationToken::new()
    }
}

impl CancellationCheck for AtomicCancellationToken {
    fn is_cancelled(&self) -> bool {
        self.cancelled.load(Ordering::Acquire)
    }
}

} // verus!
