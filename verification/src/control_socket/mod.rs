//! The requests that operators and sessions send to the daemon, and what the
//! daemon answers.
use vstd::prelude::*;
use crate::path::{join_path, joined, DaemonPaths};

pub mod audits;
pub mod defer;
pub mod enqueue;
pub mod history;
pub mod markers;
pub mod reload;
pub mod request;
pub mod review;
pub mod rollback;
pub mod sessions;
pub mod status;
pub mod steps;
pub mod wipe;

verus! {

/// Where requests are taken.
pub fn socket_path(paths: &DaemonPaths) -> (r: String)
    ensures
        r@ == joined(paths.runtime@, "control.sock"@),
{
    join_path(paths.runtime.as_str(), "control.sock")
}

/// Requests are taken in the directory of what runs.
pub proof fn requests_are_taken_where_it_runs(paths: DaemonPaths, r: String)
    requires
        call_ensures(socket_path, (&paths,), r),
    ensures
        r@ == joined(paths.runtime@, "control.sock"@),
{
}

} // verus!
