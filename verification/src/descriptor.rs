//! The workspace descriptor: what one metadata query establishes about the
//! workspace before any mutation.
//!
//! The driver hands over the collaborator's answer as plain values — the
//! workspace root and, per member, an identifier, a package name and a
//! manifest path.  [`build_descriptor`] derives the fixed root file paths
//! and each member's directory, and enforces the at-least-two-members
//! invariant, the hard precondition of the whole transaction.

use vstd::prelude::*;
use crate::paths::{joined, parent_of, has_separator, join_path, parent_dir};
use crate::paths::{lemma_joined_injective_dir, lemma_joined_last_char, lemma_joined_len};
use crate::outcome::SyncError;

verus! {

/// Name of a manifest file, relative to its directory.
pub open spec fn manifest_name() -> Seq<char> {
    "Cargo.toml"@
}

/// Name of a lockfile, relative to its directory.
pub open spec fn lockfile_name() -> Seq<char> {
    "Cargo.lock"@
}

/// The fixed sentinel name the root manifest is concealed under, distinct
/// from any real manifest name.
pub open spec fn hidden_name() -> Seq<char> {
    "_Cargo_sync_temp.toml"@
}

/// One member entry as the metadata collaborator reports it.
pub struct RawMember {
    /// Resolver-assigned identifier, unique within the workspace.
    pub id: String,
    /// Human-readable package name.
    pub name: String,
    /// Path of the member's own manifest file.
    pub manifest_path: String,
}

/// Mathematical image of [`RawMember`].
#[verifier::ext_equal]
pub struct RawMemberModel {
    pub id: Seq<char>,
    pub name: Seq<char>,
    pub manifest_path: Seq<char>,
}

impl View for RawMember {
    type V = RawMemberModel;

    open spec fn view(&self) -> RawMemberModel {
        RawMemberModel { id: self.id@, name: self.name@, manifest_path: self.manifest_path@ }
    }
}

/// One workspace member, ready for synchronization.
pub struct MemberDescriptor {
    /// Resolver-assigned identifier.
    pub id: String,
    /// Human-readable package name, used in error reports.
    pub name: String,
    /// The member's directory: the parent of its manifest path.
    pub directory: String,
}

/// Mathematical image of [`MemberDescriptor`].
#[verifier::ext_equal]
pub struct MemberModel {
    pub id: Seq<char>,
    pub name: Seq<char>,
    pub directory: Seq<char>,
}

impl View for MemberDescriptor {
    type V = MemberModel;

    open spec fn view(&self) -> MemberModel {
        MemberModel { id: self.id@, name: self.name@, directory: self.directory@ }
    }
}

/// Everything one workspace-scope metadata query establishes: the root, the
/// three root file paths, and the members in the collaborator's order.
pub struct WorkspaceDescriptor {
    /// Filesystem path of the workspace root.
    pub root_path: String,
    /// The root manifest file: the root path joined with the manifest name.
    pub manifest_path: String,
    /// The sentinel path the root manifest is concealed under.
    pub hidden_path: String,
    /// The root lockfile: the root path joined with the lockfile name.
    pub lockfile_path: String,
    /// The members, in the order the collaborator reported them.
    pub members: Vec<MemberDescriptor>,
}

/// Mathematical image of [`WorkspaceDescriptor`].
#[verifier::ext_equal]
pub struct DescModel {
    pub root: Seq<char>,
    pub manifest: Seq<char>,
    pub hidden: Seq<char>,
    pub lockfile: Seq<char>,
    pub members: Seq<MemberModel>,
}

impl View for WorkspaceDescriptor {
    type V = DescModel;

    open spec fn view(&self) -> DescModel {
        DescModel {
            root: self.root_path@,
            manifest: self.manifest_path@,
            hidden: self.hidden_path@,
            lockfile: self.lockfile_path@,
            members: self.members@.map_values(|m: MemberDescriptor| m@),
        }
    }
}

impl DescModel {
    /// Well-formedness: the root file paths are derived from the root by
    /// the fixed names, and the workspace has at least two members.
    pub open spec fn wf(self) -> bool {
        &&& self.manifest == joined(self.root, manifest_name())
        &&& self.hidden == joined(self.root, hidden_name())
        &&& self.lockfile == joined(self.root, lockfile_name())
        &&& self.members.len() >= 2
    }

    /// The lockfile path of member `i`: its directory joined with the
    /// lockfile name.
    pub open spec fn member_lock(self, i: int) -> Seq<char> {
        joined(self.members[i].directory, lockfile_name())
    }

    /// No two members share a directory.
    pub open spec fn distinct_dirs(self) -> bool {
        forall|i: int, j: int|
            0 <= i < self.members.len() && 0 <= j < self.members.len() && i != j
                ==> self.members[i].directory != self.members[j].directory
    }

    /// No member lives in the workspace root directory itself, so no
    /// member's lockfile is the root lockfile.
    pub open spec fn dirs_off_root(self) -> bool {
        forall|i: int|
            0 <= i < self.members.len() ==> self.members[i].directory != self.root
    }
}

/// The descriptor a well-formed collaborator answer determines: root file
/// paths by the fixed names, and per member its directory as the parent of
/// its manifest path.
pub open spec fn desc_of(root: Seq<char>, raws: Seq<RawMemberModel>) -> DescModel {
    DescModel {
        root: root,
        manifest: joined(root, manifest_name()),
        hidden: joined(root, hidden_name()),
        lockfile: joined(root, lockfile_name()),
        members: raws.map_values(
            |m: RawMemberModel|
                MemberModel { id: m.id, name: m.name, directory: parent_of(m.manifest_path) },
        ),
    }
}

/// All the path distinctness the transaction relies on: the three root
/// files are pairwise distinct, a member lockfile collides with none of
/// them, and distinct members have distinct lockfiles.
pub proof fn lemma_paths_distinct(d: DescModel)
    requires
        d.wf(),
        d.distinct_dirs(),
        d.dirs_off_root(),
    ensures
        d.manifest != d.hidden,
        d.manifest != d.lockfile,
        d.hidden != d.lockfile,
        forall|i: int|
            0 <= i < d.members.len()
                ==> #[trigger] d.member_lock(i) != d.manifest && d.member_lock(i) != d.hidden
                && d.member_lock(i) != d.lockfile,
        forall|i: int, j: int|
            0 <= i < d.members.len() && 0 <= j < d.members.len() && i != j
                ==> #[trigger] d.member_lock(i) != #[trigger] d.member_lock(j),
{
    reveal_strlit("Cargo.toml");
    reveal_strlit("Cargo.lock");
    reveal_strlit("_Cargo_sync_temp.toml");
    assert(manifest_name().len() == 10);
    assert(lockfile_name().len() == 10);
    assert(hidden_name().len() == 21);
    assert(manifest_name()[9] == 'l');
    assert(lockfile_name()[9] == 'k');
    assert(hidden_name()[20] == 'l');
    lemma_joined_len(d.root, manifest_name(), d.root, hidden_name());
    lemma_joined_last_char(d.root, manifest_name(), d.root, lockfile_name());
    lemma_joined_last_char(d.root, hidden_name(), d.root, lockfile_name());
    assert forall|i: int| 0 <= i < d.members.len() implies #[trigger] d.member_lock(i)
        != d.manifest && d.member_lock(i) != d.hidden && d.member_lock(i) != d.lockfile by {
        let dir = d.members[i].directory;
        lemma_joined_last_char(dir, lockfile_name(), d.root, manifest_name());
        lemma_joined_last_char(dir, lockfile_name(), d.root, hidden_name());
        if d.member_lock(i) == d.lockfile {
            lemma_joined_injective_dir(dir, d.root, lockfile_name());
        }
    }
    assert forall|i: int, j: int|
        0 <= i < d.members.len() && 0 <= j < d.members.len() && i != j implies #[trigger] d
        .member_lock(i) != #[trigger] d.member_lock(j) by {
        if d.member_lock(i) == d.member_lock(j) {
            lemma_joined_injective_dir(
                d.members[i].directory,
                d.members[j].directory,
                lockfile_name(),
            );
        }
    }
}

/// Build the workspace descriptor from the collaborator's answer.
///
/// Rejects a workspace of fewer than two members before anything else, and
/// rejects an answer in which some member's manifest path has no directory
/// part.  On success the descriptor is exactly `desc_of` the answer.
pub fn build_descriptor(root: String, raws: Vec<RawMember>) -> (r: Result<
    WorkspaceDescriptor,
    SyncError,
>)
    ensures
        match r {
            Result::Ok(d) => {
                &&& raws@.len() >= 2
                &&& forall|i: int|
                    0 <= i < raws@.len() ==> has_separator(#[trigger] raws@[i].manifest_path@)
                &&& d@ == desc_of(root@, raws@.map_values(|m: RawMember| m@))
                &&& d@.wf()
            },
            Result::Err(e) => {
                ||| (e@ == crate::outcome::SyncErrorModel::TooFewMembers && raws@.len() < 2)
                ||| (e@ == crate::outcome::SyncErrorModel::MalformedOutput && raws@.len() >= 2
                    && exists|i: int|
                    0 <= i < raws@.len() && !has_separator(#[trigger] raws@[i].manifest_path@))
            },
        },
{
    if raws.len() < 2 {
        return Result::Err(SyncError::TooFewMembers);
    }
    let mut members: Vec<MemberDescriptor> = Vec::new();
    let mut k: usize = 0;
    while k < raws.len()
        invariant
            raws@.len() >= 2,
            0 <= k <= raws@.len(),
            members@.len() == k,
            forall|i: int| 0 <= i < k ==> has_separator(#[trigger] raws@[i].manifest_path@),
            forall|i: int|
                0 <= i < k ==> #[trigger] members@[i]@ == (MemberModel {
                    id: raws@[i].id@,
                    name: raws@[i].name@,
                    directory: parent_of(raws@[i].manifest_path@),
                }),
        decreases raws@.len() - k,
    {
        let raw = &raws[k];
        match parent_dir(raw.manifest_path.as_str()) {
            Option::Some(dir) => {
                members.push(
                    MemberDescriptor { id: raw.id.clone(), name: raw.name.clone(), directory: dir },
                );
            },
            Option::None => {
                proof {
                    assert(exists|i: int|
                        0 <= i < raws@.len() && !has_separator(
                            #[trigger] raws@[i].manifest_path@,
                        )) by {
                        assert(!has_separator(raws@[k as int].manifest_path@));
                    }
                }
                return Result::Err(SyncError::MalformedOutput);
            },
        }
        k = k + 1;
    }
    let ghost root_view = root@;
    let manifest_path = join_path(root.as_str(), "Cargo.toml");
    let hidden_path = join_path(root.as_str(), "_Cargo_sync_temp.toml");
    let lockfile_path = join_path(root.as_str(), "Cargo.lock");
    let d = WorkspaceDescriptor {
        root_path: root,
        manifest_path,
        hidden_path,
        lockfile_path,
        members,
    };
    proof {
        let raw_models = raws@.map_values(|m: RawMember| m@);
        let want = desc_of(root_view, raw_models);
        assert(d@.members.len() == want.members.len());
        assert forall|i: int| 0 <= i < want.members.len() implies d@.members[i]
            == want.members[i] by {
            assert(d@.members[i] == d.members@[i]@);
        }
        assert(d@.members =~= want.members);
        assert(d@ =~= want);
    }
    Result::Ok(d)
}

} // verus!
