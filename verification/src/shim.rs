//! Surfacing logic of the isolation shim.
//!
//! The OS secret-manager backend starts its own event-processing runtime
//! inside each call; invoked from a process that already runs one, that
//! panics. Each backend call therefore runs on a freshly spawned,
//! short-lived worker that the caller joins synchronously. The worker
//! writes its result into a shared slot immediately before it exits;
//! this module decides, from that slot alone, what the caller sees. The
//! spawning and joining themselves are plain thread plumbing outside the
//! library.

use vstd::prelude::*;

verus! {

/// What a shim invocation reports to its caller.
#[derive(Debug, Clone, PartialEq, Eq)]
pub enum ShimError<E> {
    /// The worker ran the backend call and the call failed with this
    /// error, carried to the caller verbatim.
    Backend { error: E },
    /// The worker exited without writing its slot: it never completed
    /// the call. The caller itself never panics on this account.
    WorkerVanished,
}

/// The caller's result as a function of the worker's slot.
pub open spec fn spec_surface<T, E>(slot: Option<Result<T, E>>) -> Result<T, ShimError<E>> {
    match slot {
        Some(Ok(v)) => Ok(v),
        Some(Err(e)) => Err(ShimError::Backend { error: e }),
        None => Err(ShimError::WorkerVanished),
    }
}

/// Turns the worker's slot, read after the join, into the caller's
/// result: exactly one invocation's outcome, never a panic.
pub fn surface_worker_outcome<T, E>(slot: Option<Result<T, E>>) -> (r: Result<T, ShimError<E>>)
    ensures
        r == spec_surface(slot),
{
    match slot {
        Some(Ok(v)) => Ok(v),
        Some(Err(e)) => Err(ShimError::Backend { error: e }),
        None => Err(ShimError::WorkerVanished),
    }
}

/// An error raised inside the worker surfaces to the calling thread as
/// that same error; a completed call surfaces its value unchanged; and
/// only a worker that vanished without completing the call is reported
/// as such.
pub proof fn lemma_worker_error_surfaces<T, E>(slot: Option<Result<T, E>>)
    ensures
        forall|e: E| slot == Some(Result::<T, E>::Err(e)) ==> spec_surface(slot) == Err::<
            T,
            ShimError<E>,
        >(ShimError::Backend { error: e }),
        forall|v: T| slot == Some(Result::<T, E>::Ok(v)) ==> spec_surface(slot) == Ok::<
            T,
            ShimError<E>,
        >(v),
        slot is None ==> spec_surface(slot) == Err::<T, ShimError<E>>(ShimError::WorkerVanished),
{
}

} // verus!
