//! The synchronization transaction as a transition system.
//!
//! The run is a dialogue between this library and a thin driver.  [`init`]
//! yields the first action; the driver performs each action against the
//! outside world (the status collaborator, the metadata collaborator, file
//! rename and copy) and hands the outcome back as an event; [`step`] maps
//! the current state and that event to the next state and the next action,
//! until the action is a report.
//!
//! The control flow is the transaction of the tool: safety gate, workspace
//! resolution, manifest concealment, the per-member copy/resolve loop which
//! stops at the first failure, and the unconditional restoration of the
//! manifest.  [`spec_step`] is the transition function in full; `step`
//! returns exactly what it prescribes.

use vstd::prelude::*;
use vstd::pervasive::unreached;
use crate::paths::{joined, has_separator, join_path};
use crate::descriptor::{
    RawMember, RawMemberModel, MemberDescriptor, WorkspaceDescriptor, DescModel, desc_of,
    build_descriptor, lockfile_name,
};
use crate::outcome::{SyncError, SyncErrorModel, Outcome, OutcomeModel, view_opt_err};
use crate::gate::{status_dirty, tree_is_dirty};

verus! {

/// What the caller asked for on the command line.
pub struct Config {
    /// Run even when the working tree is dirty.
    pub allow_dirty: bool,
    /// Forward the offline flag to every metadata invocation.
    pub offline: bool,
}

/// What the driver must do next.
pub enum Action {
    /// Ask the version-control collaborator for a short status of the tree.
    QueryStatus,
    /// Run the metadata collaborator in workspace scope, without transitive
    /// dependencies, forwarding the offline flag as given.
    QueryWorkspace { offline: bool },
    /// Rename the root manifest `from` its real name `to` the sentinel.
    ConcealManifest { from: String, to: String },
    /// Copy the byte contents of the root lockfile `from` onto the member
    /// lockfile `to`, overwriting it.
    CopyLockfile { from: String, to: String },
    /// Run the metadata collaborator from inside `directory`; with the root
    /// manifest concealed it treats the member as a standalone package and
    /// rewrites the member's lockfile in place.
    ResolveMember { directory: String, offline: bool },
    /// Rename the sentinel `from` back `to` the root manifest's real name.
    RestoreManifest { from: String, to: String },
    /// The run is over; report this outcome and stop.
    Report { outcome: Outcome },
}

/// Mathematical image of [`Action`].
#[verifier::ext_equal]
pub enum ActionModel {
    QueryStatus,
    QueryWorkspace { offline: bool },
    ConcealManifest { from: Seq<char>, to: Seq<char> },
    CopyLockfile { from: Seq<char>, to: Seq<char> },
    ResolveMember { directory: Seq<char>, offline: bool },
    RestoreManifest { from: Seq<char>, to: Seq<char> },
    Report { outcome: OutcomeModel },
}

impl View for Action {
    type V = ActionModel;

    open spec fn view(&self) -> ActionModel {
        match self {
            Action::QueryStatus => ActionModel::QueryStatus,
            Action::QueryWorkspace { offline } => ActionModel::QueryWorkspace { offline: *offline },
            Action::ConcealManifest { from, to } => ActionModel::ConcealManifest {
                from: from@,
                to: to@,
            },
            Action::CopyLockfile { from, to } => ActionModel::CopyLockfile {
                from: from@,
                to: to@,
            },
            Action::ResolveMember { directory, offline } => ActionModel::ResolveMember {
                directory: directory@,
                offline: *offline,
            },
            Action::RestoreManifest { from, to } => ActionModel::RestoreManifest {
                from: from@,
                to: to@,
            },
            Action::Report { outcome } => ActionModel::Report { outcome: outcome@ },
        }
    }
}

/// What the driver observed when it performed the pending action.
pub enum Event {
    /// Outcome of [`Action::QueryStatus`]: whether the collaborator could
    /// be run at all, whether it exited successfully, and whether its
    /// output reported a clean tree.
    StatusChecked { ran: bool, exit_ok: bool, clean: bool },
    /// Outcome of [`Action::QueryWorkspace`]: the workspace root and the
    /// member list, as reported.
    WorkspaceLoaded { root: String, members: Vec<RawMember> },
    /// Outcome of [`Action::QueryWorkspace`]: the collaborator could not be
    /// run, exited with failure, or its output could not be read.
    WorkspaceFailed,
    /// Outcome of [`Action::ConcealManifest`].
    Renamed { ok: bool },
    /// Outcome of [`Action::CopyLockfile`].
    Copied { ok: bool },
    /// Outcome of [`Action::ResolveMember`].
    MemberResolved { ok: bool },
    /// Outcome of [`Action::RestoreManifest`].
    Restored { ok: bool },
}

/// Mathematical image of [`Event`].
#[verifier::ext_equal]
pub enum EventModel {
    StatusChecked { ran: bool, exit_ok: bool, clean: bool },
    WorkspaceLoaded { root: Seq<char>, members: Seq<RawMemberModel> },
    WorkspaceFailed,
    Renamed { ok: bool },
    Copied { ok: bool },
    MemberResolved { ok: bool },
    Restored { ok: bool },
}

impl View for Event {
    type V = EventModel;

    open spec fn view(&self) -> EventModel {
        match self {
            Event::StatusChecked { ran, exit_ok, clean } => EventModel::StatusChecked {
                ran: *ran,
                exit_ok: *exit_ok,
                clean: *clean,
            },
            Event::WorkspaceLoaded { root, members } => EventModel::WorkspaceLoaded {
                root: root@,
                members: members@.map_values(|m: RawMember| m@),
            },
            Event::WorkspaceFailed => EventModel::WorkspaceFailed,
            Event::Renamed { ok } => EventModel::Renamed { ok: *ok },
            Event::Copied { ok } => EventModel::Copied { ok: *ok },
            Event::MemberResolved { ok } => EventModel::MemberResolved { ok: *ok },
            Event::Restored { ok } => EventModel::Restored { ok: *ok },
        }
    }
}

/// Where the run stands.
pub enum State {
    /// Waiting for the tree status.
    AwaitStatus,
    /// Gate passed; waiting for the workspace-scope metadata answer.
    AwaitWorkspace,
    /// Descriptor built; waiting for the concealment rename.
    AwaitConceal { desc: WorkspaceDescriptor },
    /// Manifest concealed; waiting for the copy onto member `index`.
    AwaitCopy { desc: WorkspaceDescriptor, index: usize },
    /// Copy done; waiting for the member-scope resolution of member
    /// `index`.
    AwaitResolve { desc: WorkspaceDescriptor, index: usize },
    /// Loop over (successfully or not); waiting for the restoration
    /// rename, with the loop's error, if any, in `pending`.
    AwaitRestore { desc: WorkspaceDescriptor, pending: Option<SyncError> },
    /// The run is over.
    Finished { outcome: Outcome },
}

/// Mathematical image of [`State`].
#[verifier::ext_equal]
pub enum StateModel {
    AwaitStatus,
    AwaitWorkspace,
    AwaitConceal { desc: DescModel },
    AwaitCopy { desc: DescModel, index: int },
    AwaitResolve { desc: DescModel, index: int },
    AwaitRestore { desc: DescModel, pending: Option<SyncErrorModel> },
    Finished { outcome: OutcomeModel },
}

impl View for State {
    type V = StateModel;

    open spec fn view(&self) -> StateModel {
        match self {
            State::AwaitStatus => StateModel::AwaitStatus,
            State::AwaitWorkspace => StateModel::AwaitWorkspace,
            State::AwaitConceal { desc } => StateModel::AwaitConceal { desc: desc@ },
            State::AwaitCopy { desc, index } => StateModel::AwaitCopy {
                desc: desc@,
                index: *index as int,
            },
            State::AwaitResolve { desc, index } => StateModel::AwaitResolve {
                desc: desc@,
                index: *index as int,
            },
            State::AwaitRestore { desc, pending } => StateModel::AwaitRestore {
                desc: desc@,
                pending: view_opt_err(*pending),
            },
            State::Finished { outcome } => StateModel::Finished { outcome: outcome@ },
        }
    }
}

/// A terminal pair: the run is over with this error as primary cause.
pub open spec fn finish(e: SyncErrorModel) -> (StateModel, ActionModel) {
    let o = OutcomeModel { primary: Option::Some(e), restore_failed: false };
    (StateModel::Finished { outcome: o }, ActionModel::Report { outcome: o })
}

/// The copy action for member `i`: root lockfile onto the member's
/// lockfile.
pub open spec fn copy_action(d: DescModel, i: int) -> ActionModel {
    ActionModel::CopyLockfile { from: d.lockfile, to: d.member_lock(i) }
}

/// The restoration action: sentinel back to the manifest's real name.
pub open spec fn restore_action(d: DescModel) -> ActionModel {
    ActionModel::RestoreManifest { from: d.hidden, to: d.manifest }
}

/// The first state and action of a run: the status query, or the workspace
/// query directly when the caller allowed a dirty tree.
pub open spec fn spec_init(c: Config) -> (StateModel, ActionModel) {
    if c.allow_dirty {
        (StateModel::AwaitWorkspace, ActionModel::QueryWorkspace { offline: c.offline })
    } else {
        (StateModel::AwaitStatus, ActionModel::QueryStatus)
    }
}

/// The transition function of the transaction, in full.
///
/// A finished run stays finished and re-issues its report; a state given an
/// event of the wrong shape (which [`step`]'s precondition rules out) also
/// stands still.
pub open spec fn spec_step(c: Config, s: StateModel, e: EventModel) -> (StateModel, ActionModel) {
    match (s, e) {
        (StateModel::AwaitStatus, EventModel::StatusChecked { ran, exit_ok, clean }) => {
            if crate::gate::gate_blocks(c.allow_dirty, status_dirty(ran, exit_ok, clean)) {
                finish(SyncErrorModel::DirtyTree)
            } else {
                (StateModel::AwaitWorkspace, ActionModel::QueryWorkspace { offline: c.offline })
            }
        },
        (StateModel::AwaitWorkspace, EventModel::WorkspaceFailed) => finish(
            SyncErrorModel::MetadataFailed,
        ),
        (StateModel::AwaitWorkspace, EventModel::WorkspaceLoaded { root, members }) => {
            if members.len() < 2 {
                finish(SyncErrorModel::TooFewMembers)
            } else if exists|i: int|
                0 <= i < members.len() && !has_separator(#[trigger] members[i].manifest_path) {
                finish(SyncErrorModel::MalformedOutput)
            } else {
                let d = desc_of(root, members);
                (
                    StateModel::AwaitConceal { desc: d },
                    ActionModel::ConcealManifest { from: d.manifest, to: d.hidden },
                )
            }
        },
        (StateModel::AwaitConceal { desc }, EventModel::Renamed { ok }) => {
            if !ok {
                finish(SyncErrorModel::ConcealFailed)
            } else {
                (StateModel::AwaitCopy { desc, index: 0 }, copy_action(desc, 0))
            }
        },
        (StateModel::AwaitCopy { desc, index }, EventModel::Copied { ok }) => {
            if !ok {
                let p = Option::Some(
                    SyncErrorModel::CopyFailed { member: desc.members[index].name },
                );
                (StateModel::AwaitRestore { desc, pending: p }, restore_action(desc))
            } else {
                (
                    StateModel::AwaitResolve { desc, index },
                    ActionModel::ResolveMember {
                        directory: desc.members[index].directory,
                        offline: c.offline,
                    },
                )
            }
        },
        (StateModel::AwaitResolve { desc, index }, EventModel::MemberResolved { ok }) => {
            if !ok {
                let p = Option::Some(
                    SyncErrorModel::MemberResolveFailed { member: desc.members[index].name },
                );
                (StateModel::AwaitRestore { desc, pending: p }, restore_action(desc))
            } else if index + 1 < desc.members.len() {
                (StateModel::AwaitCopy { desc, index: index + 1 }, copy_action(desc, index + 1))
            } else {
                (
                    StateModel::AwaitRestore { desc, pending: Option::None },
                    restore_action(desc),
                )
            }
        },
        (StateModel::AwaitRestore { desc, pending }, EventModel::Restored { ok }) => {
            let o = OutcomeModel { primary: pending, restore_failed: !ok };
            (StateModel::Finished { outcome: o }, ActionModel::Report { outcome: o })
        },
        (StateModel::Finished { outcome }, _) => (s, ActionModel::Report { outcome }),
        _ => (
            s,
            ActionModel::Report {
                outcome: OutcomeModel {
                    primary: Option::Some(SyncErrorModel::MalformedOutput),
                    restore_failed: false,
                },
            },
        ),
    }
}

/// What every state reached by a run satisfies: descriptors are
/// well-formed, and the loop index stays in range.
pub open spec fn state_inv(s: StateModel) -> bool {
    match s {
        StateModel::AwaitConceal { desc } => desc.wf(),
        StateModel::AwaitCopy { desc, index } => desc.wf() && 0 <= index < desc.members.len(),
        StateModel::AwaitResolve { desc, index } => desc.wf() && 0 <= index < desc.members.len(),
        StateModel::AwaitRestore { desc, pending } => desc.wf(),
        _ => true,
    }
}

/// Which event shape answers which state's pending action.
pub open spec fn expects(s: StateModel, e: EventModel) -> bool {
    match (s, e) {
        (StateModel::AwaitStatus, EventModel::StatusChecked { .. }) => true,
        (StateModel::AwaitWorkspace, EventModel::WorkspaceLoaded { .. }) => true,
        (StateModel::AwaitWorkspace, EventModel::WorkspaceFailed) => true,
        (StateModel::AwaitConceal { .. }, EventModel::Renamed { .. }) => true,
        (StateModel::AwaitCopy { .. }, EventModel::Copied { .. }) => true,
        (StateModel::AwaitResolve { .. }, EventModel::MemberResolved { .. }) => true,
        (StateModel::AwaitRestore { .. }, EventModel::Restored { .. }) => true,
        _ => false,
    }
}

/// The lockfile path of one member.
fn member_lock_of(m: &MemberDescriptor) -> (r: String)
    ensures
        r@ == joined(m.directory@, lockfile_name()),
{
    join_path(m.directory.as_str(), "Cargo.lock")
}

/// Begin a run: the first state and the first action, as
/// [`spec_init`] prescribes.
pub fn init(config: &Config) -> (r: (State, Action))
    ensures
        r.0@ == spec_init(*config).0,
        r.1@ == spec_init(*config).1,
        state_inv(r.0@),
{
    if config.allow_dirty {
        (State::AwaitWorkspace, Action::QueryWorkspace { offline: config.offline })
    } else {
        (State::AwaitStatus, Action::QueryStatus)
    }
}

/// Advance the run by one event: exactly the transition [`spec_step`]
/// prescribes, preserving the state invariant.
///
/// The preconditions hold by construction for a driver that keeps only
/// states handed out by [`init`] and [`step`] and answers each pending
/// action with the event of the matching shape.
pub fn step(config: &Config, state: State, event: Event) -> (r: (State, Action))
    requires
        state_inv(state@),
        expects(state@, event@),
    ensures
        r.0@ == spec_step(*config, state@, event@).0,
        r.1@ == spec_step(*config, state@, event@).1,
        state_inv(r.0@),
{
    match state {
        State::AwaitStatus => match event {
            Event::StatusChecked { ran, exit_ok, clean } => {
                if tree_is_dirty(ran, exit_ok, clean) && !config.allow_dirty {
                    finished_with(SyncError::DirtyTree)
                } else {
                    (State::AwaitWorkspace, Action::QueryWorkspace { offline: config.offline })
                }
            },
            _ => unreached(),
        },
        State::AwaitWorkspace => match event {
            Event::WorkspaceFailed => finished_with(SyncError::MetadataFailed),
            Event::WorkspaceLoaded { root, members } => {
                let ghost raws_v = members@;
                let ghost ms = members@.map_values(|m: RawMember| m@);
                let r = build_descriptor(root, members);
                proof {
                    assert(ms.len() == raws_v.len());
                    assert forall|i: int| 0 <= i < raws_v.len() implies (#[trigger] ms[i])
                        .manifest_path == raws_v[i].manifest_path@ by {}
                    if exists|i: int|
                        0 <= i < raws_v.len() && !has_separator(
                            #[trigger] raws_v[i].manifest_path@,
                        ) {
                        let i = choose|i: int|
                            0 <= i < raws_v.len() && !has_separator(
                                #[trigger] raws_v[i].manifest_path@,
                            );
                        assert(!has_separator(ms[i].manifest_path));
                    }
                    if exists|j: int|
                        0 <= j < ms.len() && !has_separator(#[trigger] ms[j].manifest_path) {
                        let j = choose|j: int|
                            0 <= j < ms.len() && !has_separator(#[trigger] ms[j].manifest_path);
                        assert(!has_separator(raws_v[j].manifest_path@));
                    }
                }
                match r {
                    Result::Ok(desc) => {
                        let from = desc.manifest_path.clone();
                        let to = desc.hidden_path.clone();
                        (State::AwaitConceal { desc }, Action::ConcealManifest { from, to })
                    },
                    Result::Err(e) => finished_with(e),
                }
            },
            _ => unreached(),
        },
        State::AwaitConceal { desc } => match event {
            Event::Renamed { ok } => {
                if !ok {
                    finished_with(SyncError::ConcealFailed)
                } else {
                    proof {
                        assert(desc@.members[0] == desc.members@[0]@);
                    }
                    let from = desc.lockfile_path.clone();
                    let to = member_lock_of(&desc.members[0]);
                    (State::AwaitCopy { desc, index: 0 }, Action::CopyLockfile { from, to })
                }
            },
            _ => unreached(),
        },
        State::AwaitCopy { desc, index } => match event {
            Event::Copied { ok } => {
                proof {
                    assert(desc@.members[index as int] == desc.members@[index as int]@);
                }
                if !ok {
                    let pending = Option::Some(
                        SyncError::CopyFailed { member: desc.members[index].name.clone() },
                    );
                    let from = desc.hidden_path.clone();
                    let to = desc.manifest_path.clone();
                    (State::AwaitRestore { desc, pending }, Action::RestoreManifest { from, to })
                } else {
                    let directory = desc.members[index].directory.clone();
                    (
                        State::AwaitResolve { desc, index },
                        Action::ResolveMember { directory, offline: config.offline },
                    )
                }
            },
            _ => unreached(),
        },
        State::AwaitResolve { desc, index } => match event {
            Event::MemberResolved { ok } => {
                proof {
                    assert(desc@.members[index as int] == desc.members@[index as int]@);
                    assert(desc@.members.len() == desc.members@.len());
                }
                if !ok {
                    let pending = Option::Some(
                        SyncError::MemberResolveFailed {
                            member: desc.members[index].name.clone(),
                        },
                    );
                    let from = desc.hidden_path.clone();
                    let to = desc.manifest_path.clone();
                    (State::AwaitRestore { desc, pending }, Action::RestoreManifest { from, to })
                } else if index < desc.members.len() - 1 {
                    let next = index + 1;
                    proof {
                        assert(desc@.members[next as int] == desc.members@[next as int]@);
                    }
                    let from = desc.lockfile_path.clone();
                    let to = member_lock_of(&desc.members[next]);
                    (State::AwaitCopy { desc, index: next }, Action::CopyLockfile { from, to })
                } else {
                    let from = desc.hidden_path.clone();
                    let to = desc.manifest_path.clone();
                    (
                        State::AwaitRestore { desc, pending: Option::None },
                        Action::RestoreManifest { from, to },
                    )
                }
            },
            _ => unreached(),
        },
        State::AwaitRestore { desc, pending } => match event {
            Event::Restored { ok } => {
                let outcome = Outcome { primary: pending, restore_failed: !ok };
                let report = outcome.dup();
                (State::Finished { outcome }, Action::Report { outcome: report })
            },
            _ => unreached(),
        },
        State::Finished { outcome } => unreached(),
    }
}

/// A finished pair carrying `e` as the primary cause.
fn finished_with(e: SyncError) -> (r: (State, Action))
    ensures
        r.0@ == finish(e@).0,
        r.1@ == finish(e@).1,
        state_inv(r.0@),
{
    let outcome = Outcome { primary: Option::Some(e.dup()), restore_failed: false };
    let report = Outcome { primary: Option::Some(e), restore_failed: false };
    (State::Finished { outcome }, Action::Report { outcome: report })
}

} // verus!
