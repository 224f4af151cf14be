//! What the handlers share.

use vstd::prelude::*;
use crate::automation::AutomationStore;
use crate::manager::snapshot::Snapshot;
use crate::manager::ManagerHandle;
use crate::scenes::SceneStore;

verus! {

/// What a request is answered from, as it stands when the request reads it: the
/// manager's last snapshot, the automation programs and the presets.
#[derive(Debug, PartialEq, Eq)]
pub struct AppState {
    pub manager: ManagerHandle,
    pub automation: AutomationStore,
    pub scenes: SceneStore,
}

impl AppState {
    /// The snapshot that the manager last published.
    pub open spec fn snap(&self) -> Snapshot {
        *self.manager.snapshot
    }

    /// The snapshot that the manager last published.
    pub fn snapshot(&self) -> (r: &Snapshot)
        ensures
            *r == self.snap(),
    {
        &self.manager.snapshot
    }
}

} // verus!
