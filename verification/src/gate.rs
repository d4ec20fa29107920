//! The safety gate: how a version-control status report is interpreted.
//!
//! The safety gate is fail-closed: a status collaborator that could not be run, or
//! exited with failure, counts as a dirty tree, because a failing status
//! check is itself evidence that the environment is untrustworthy for
//! destructive file operations.

use vstd::prelude::*;

verus! {

/// A tree is dirty unless the status collaborator ran, exited successfully,
/// and reported a clean tree.
pub open spec fn status_dirty(ran: bool, exit_ok: bool, clean: bool) -> bool {
    !(ran && exit_ok && clean)
}

/// Fail-closed interpretation of a status report: `ran` says the
/// collaborator could be started, `exit_ok` that it exited successfully,
/// `clean` that its output reported nothing pending.
pub fn tree_is_dirty(ran: bool, exit_ok: bool, clean: bool) -> (dirty: bool)
    ensures
        dirty == status_dirty(ran, exit_ok, clean),
{
    !(ran && exit_ok && clean)
}

/// The safety gate blocks the run exactly when the tree is dirty and the caller
/// gave no override.
pub open spec fn gate_blocks(allow_dirty: bool, dirty: bool) -> bool {
    dirty && !allow_dirty
}

} // verus!
