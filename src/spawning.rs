use std::sync::atomic::{AtomicBool, Ordering};
use std::sync::Arc;
use tokio::task::{JoinError, JoinHandle};
use vstd::prelude::*;

verus! {

/// tokio's handle of a spawned task, carried through as an opaque value.
#[verifier::external_type_specification]
#[verifier::external_body]
#[verifier::reject_recursive_types(T)]
pub struct ExJoinHandle<T>(JoinHandle<T>);

/// tokio's error for a task that panicked or was aborted; declared because awaiting a
/// `JoinHandle` yields it.
#[verifier::external_type_specification]
#[verifier::external_body]
pub struct ExJoinError(JoinError);

/// Relies on tokio's JoinHandle::abort: asks the runtime to cancel the task; it never panics,
/// and a task that has already completed is left alone.
pub assume_specification<T>[ JoinHandle::<T>::abort ](h: &JoinHandle<T>);

/// The handle of a spawned task body, with which the body can be aborted.
pub struct TaskHandle(JoinHandle<()>);

impl TaskHandle {
    /// Wraps the join handle of a spawned body.
    pub fn new(handle: JoinHandle<()>) -> Self {
        TaskHandle(handle)
    }

    /// Asks the runtime to stop the body. Best effort: a body that is not at a suspension
    /// point runs on until it reaches one.
    pub fn abort(&self) {
        self.0.abort()
    }
}

/// A shared flag that goes from unset to set once and never back.
pub struct FinishFlag {
    flag: Arc<AtomicBool>,
}

impl FinishFlag {
    /// Whether two handles read and set the same flag.
    pub closed spec fn same_flag(&self, other: &Self) -> bool {
        self.flag == other.flag
    }

    /// A new, unset flag.
    pub fn new() -> Self {
        FinishFlag { flag: Arc::new(AtomicBool::new(false)) }
    }

    /// Sets the flag; setting it again does nothing.
    pub fn finish(&self) {
        self.flag.store(true, Ordering::Release)
    }

    /// Whether the flag is set.
    pub fn is_set(&self) -> bool {
        self.flag.load(Ordering::Acquire)
    }

    /// Another handle of the same flag.
    pub fn share(&self) -> (r: Self)
        ensures
            r.same_flag(self),
    {
        FinishFlag { flag: self.flag.clone() }
    }
}

} // verus!
