//! The error taxonomy of a synchronization run, and the run's outcome.
//!
//! Every failure is terminal for the run.  A restoration failure does not
//! suppress an earlier error from the member loop: the outcome carries both,
//! with the loop's error as the primary cause.

use vstd::prelude::*;

verus! {

/// Why a synchronization run failed.
pub enum SyncError {
    /// The working tree is dirty (or its status could not be determined)
    /// and no override was given.  Reported before any mutation.
    DirtyTree,
    /// The workspace has fewer than two members; synchronization is
    /// meaningless.  Reported before any mutation.
    TooFewMembers,
    /// The workspace-scope metadata collaborator could not be run, exited
    /// with failure, or produced unusable output.
    MetadataFailed,
    /// The collaborator's answer lacked a usable field: a member's manifest
    /// path had no directory part.
    MalformedOutput,
    /// The root manifest could not be renamed to its concealment name.
    /// Nothing further executes; there is nothing to restore.
    ConcealFailed,
    /// The root lockfile could not be copied over the named member's
    /// lockfile.
    CopyFailed { member: String },
    /// The member-scope metadata collaborator failed for the named member.
    MemberResolveFailed { member: String },
}

/// Mathematical image of [`SyncError`]: member names as character sequences.
#[verifier::ext_equal]
pub enum SyncErrorModel {
    DirtyTree,
    TooFewMembers,
    MetadataFailed,
    MalformedOutput,
    ConcealFailed,
    CopyFailed { member: Seq<char> },
    MemberResolveFailed { member: Seq<char> },
}

impl View for SyncError {
    type V = SyncErrorModel;

    open spec fn view(&self) -> SyncErrorModel {
        match self {
            SyncError::DirtyTree => SyncErrorModel::DirtyTree,
            SyncError::TooFewMembers => SyncErrorModel::TooFewMembers,
            SyncError::MetadataFailed => SyncErrorModel::MetadataFailed,
            SyncError::MalformedOutput => SyncErrorModel::MalformedOutput,
            SyncError::ConcealFailed => SyncErrorModel::ConcealFailed,
            SyncError::CopyFailed { member } => SyncErrorModel::CopyFailed { member: member@ },
            SyncError::MemberResolveFailed { member } => SyncErrorModel::MemberResolveFailed {
                member: member@,
            },
        }
    }
}

/// The model of an optional error.
pub open spec fn view_opt_err(o: Option<SyncError>) -> Option<SyncErrorModel> {
    match o {
        Option::Some(e) => Option::Some(e@),
        Option::None => Option::None,
    }
}

impl SyncError {
    /// A copy of this error, field for field.
    pub fn dup(&self) -> (r: SyncError)
        ensures
            r@ == self@,
    {
        match self {
            SyncError::DirtyTree => SyncError::DirtyTree,
            SyncError::TooFewMembers => SyncError::TooFewMembers,
            SyncError::MetadataFailed => SyncError::MetadataFailed,
            SyncError::MalformedOutput => SyncError::MalformedOutput,
            SyncError::ConcealFailed => SyncError::ConcealFailed,
            SyncError::CopyFailed { member } => SyncError::CopyFailed { member: member.clone() },
            SyncError::MemberResolveFailed { member } => SyncError::MemberResolveFailed {
                member: member.clone(),
            },
        }
    }
}

/// The aggregate result of a run: the first error of the member loop (or of
/// the stages before it), if any, and whether restoring the root manifest
/// failed afterwards.
pub struct Outcome {
    /// The first error encountered, `None` on a clean run.
    pub primary: Option<SyncError>,
    /// Whether the root manifest could not be renamed back.  Surfaced even
    /// when `primary` is already set: a still-concealed manifest breaks the
    /// whole workspace for any other tooling.
    pub restore_failed: bool,
}

/// Mathematical image of [`Outcome`].
#[verifier::ext_equal]
pub struct OutcomeModel {
    pub primary: Option<SyncErrorModel>,
    pub restore_failed: bool,
}

impl View for Outcome {
    type V = OutcomeModel;

    open spec fn view(&self) -> OutcomeModel {
        OutcomeModel { primary: view_opt_err(self.primary), restore_failed: self.restore_failed }
    }
}

impl OutcomeModel {
    /// A run succeeded when the loop raised no error and the manifest was
    /// restored.
    pub open spec fn is_success(self) -> bool {
        self.primary is None && !self.restore_failed
    }
}

impl Outcome {
    /// A copy of this outcome, field for field.
    pub fn dup(&self) -> (r: Outcome)
        ensures
            r@ == self@,
    {
        Outcome {
            primary: match &self.primary {
                Option::Some(e) => Option::Some(e.dup()),
                Option::None => Option::None,
            },
            restore_failed: self.restore_failed,
        }
    }

    /// Whether the run succeeded: no error and the manifest restored.
    pub fn succeeded(&self) -> (r: bool)
        ensures
            r == self@.is_success(),
    {
        match &self.primary {
            Option::Some(_) => false,
            Option::None => !self.restore_failed,
        }
    }
}

} // verus!
