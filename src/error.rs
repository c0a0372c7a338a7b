use vstd::prelude::*;

verus! {

/// Why a worker could not be started.
#[derive(Clone, Copy, Debug, PartialEq, Eq, Structural)]
pub enum WorkerError {
    /// No worker is registered under the name.
    NotFound,
    /// The worker exists but has no behavior to run.
    NoBehavior,
    /// A blocking start was asked for from inside the scheduler.
    ReentrantBlock,
    /// The shared registry could not be locked.
    RegistryUnavailable,
}

} // verus!
