//! What the connection manager publishes, and what it is asked to do.

use std::sync::Arc;
use vstd::prelude::*;

pub mod command;
pub mod laws;
pub mod snapshot;
pub mod values;

verus! {

/// The manager as a request sees it: the snapshot it last published.
#[derive(Debug, PartialEq, Eq)]
pub struct ManagerHandle {
    pub snapshot: Arc<snapshot::Snapshot>,
}

} // verus!
