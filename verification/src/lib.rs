//! Verified core of a command-line client for a federated chat protocol:
//! the credential persistence layer (dual-backend secret storage with a
//! permission-hardened file fallback and a concurrency-isolation shim)
//! and the interactive device-verification state machine.

use vstd::prelude::*;

pub mod credential;
pub mod mime;
pub mod sas;
pub mod shim;
pub mod store;
pub mod strutil;

verus! {

/// Name under which per-user state is filed: the prefix directory of the
/// file backend and the service name of the OS secret-manager backend.
pub fn crate_name() -> (r: &'static str)
    ensures
        r@ == "mnotify"@,
{
    "mnotify"
}

} // verus!
