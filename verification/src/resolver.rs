//! The dependency resolver's decisions: what to do for one declared
//! dependency, read off the registry status.

use vstd::prelude::*;
use crate::registry::SvcStatus;
use crate::strutil::starts_with;

verus! {

/// What resolving one dependency requires.
#[derive(PartialEq, Eq, Structural, Clone, Copy, Debug)]
pub enum DepAction {
    /// Already Running, or ran and Stopped: nothing to do.
    Satisfied,
    /// A supervisor is already bringing it up: block until Running.
    WaitRunning,
    /// Nobody owns it: spawn a supervisor, then block until Running.
    SpawnAndWait,
}

/// Decides one dependency from its registry status.  A service already
/// owned by a supervisor is never spawned again, which also breaks
/// dependency cycles.
pub fn dep_action(st: SvcStatus) -> (r: DepAction)
    ensures
        r == DepAction::Satisfied <==> (st == SvcStatus::Running || st == SvcStatus::Stopped),
        r == DepAction::WaitRunning <==> (st == SvcStatus::Readying || st == SvcStatus::Working),
        r == DepAction::SpawnAndWait <==> st == SvcStatus::Unmentioned,
{
    match st {
        SvcStatus::Running => DepAction::Satisfied,
        SvcStatus::Stopped => DepAction::Satisfied,
        SvcStatus::Readying => DepAction::WaitRunning,
        SvcStatus::Working => DepAction::WaitRunning,
        SvcStatus::Unmentioned => DepAction::SpawnAndWait,
    }
}

/// Whether a dependency id is an alias reference.  Aliases are reserved
/// and a dependency naming one is rejected cleanly.
pub fn is_alias_dep(id: &str) -> (r: bool)
    ensures
        r == "alias::"@.is_prefix_of(id@),
{
    starts_with(id, "alias::")
}

} // verus!
