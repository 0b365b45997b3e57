//! Game executables the firewall rules apply to.

use vstd::prelude::*;
use crate::text::{seq_contains, str_contains};

verus! {

/// Which launcher installed a game executable.
#[derive(Clone, Copy, PartialEq, Eq, Structural, Debug)]
pub enum ApplicationType {
    Blizzard,
    Valve,
    Unknown,
}

/// The launcher of an executable, by its path: Battle.net installs live under
/// `_retail_`, Steam ones under `steamapps`.
pub fn application_type(path: &str) -> (t: ApplicationType)
    ensures
        t == (if seq_contains(path@, "_retail_"@) {
            ApplicationType::Blizzard
        } else if seq_contains(path@, "steamapps"@) {
            ApplicationType::Valve
        } else {
            ApplicationType::Unknown
        }),
{
    if str_contains(path, "_retail_") {
        ApplicationType::Blizzard
    } else if str_contains(path, "steamapps") {
        ApplicationType::Valve
    } else {
        ApplicationType::Unknown
    }
}

/// Attempts at removing the binary left by an update.
pub const GRAVEYARD_ATTEMPTS: u32 = 20;

/// What a removal attempt found.
#[derive(Clone, Copy, PartialEq, Eq, Structural, Debug)]
pub enum RemoveOutcome {
    /// There was nothing to remove.
    NotFound,
    Removed,
    /// The file could not be removed (it is still held).
    Failed,
}

/// What follows a removal attempt.
#[derive(Clone, Copy, PartialEq, Eq, Structural, Debug)]
pub enum RemoveStep {
    /// Done, nothing to report.
    Done,
    /// Done: report the removal.
    DoneRemoved,
    /// Try again later.
    Retry,
    /// Give up for this run and warn (the next run tries again).
    GiveUp,
}

/// After an update the previous binary is still held for a few seconds, so its
/// removal is retried, [`GRAVEYARD_ATTEMPTS`] times at most.
pub fn graveyard_step(attempt: u32, outcome: RemoveOutcome) -> (s: RemoveStep)
    requires
        1 <= attempt <= GRAVEYARD_ATTEMPTS,
    ensures
        s == (match outcome {
            RemoveOutcome::NotFound => RemoveStep::Done,
            RemoveOutcome::Removed => RemoveStep::DoneRemoved,
            RemoveOutcome::Failed => if attempt == GRAVEYARD_ATTEMPTS {
                RemoveStep::GiveUp
            } else {
                RemoveStep::Retry
            },
        }),
{
    match outcome {
        RemoveOutcome::NotFound => RemoveStep::Done,
        RemoveOutcome::Removed => RemoveStep::DoneRemoved,
        RemoveOutcome::Failed => if attempt == GRAVEYARD_ATTEMPTS {
            RemoveStep::GiveUp
        } else {
            RemoveStep::Retry
        },
    }
}

/// How the firewall session is opened.
#[derive(Clone, Copy, PartialEq, Eq, Structural, Debug)]
pub struct WfpPlan {
    /// Remove the persistent filters first.
    pub wipe_persistent: bool,
    /// Open a persistent session (filters outlive the program).
    pub persistent: bool,
}

/// The firewall session for a setting: when blocks hold only while the program runs,
/// persistent filters are wiped first for safety and the session is dynamic;
/// otherwise the session is persistent.
pub fn wfp_session_plan(dynamic: bool) -> (p: WfpPlan)
    ensures
        p.wipe_persistent == dynamic,
        p.persistent == !dynamic,
{
    WfpPlan { wipe_persistent: dynamic, persistent: !dynamic }
}

} // verus!
