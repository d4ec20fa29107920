//! The guarantees of the synchronization transaction, proved over a model
//! of the filesystem.
//!
//! A run is the transition system of [`crate::session`] driven by a
//! sequence of events.  The filesystem is a map from paths to byte
//! contents; each (pending action, event) pair has the effect the driver's
//! primitives have: a successful rename moves a file, a successful copy
//! overwrites the destination with the source's bytes, and a successful
//! member-scope resolution rewrites that member's lockfile as a function —
//! `resolve` — of its directory and the lockfile's current bytes.  A failed
//! primitive changes nothing.
//!
//! On this model the lemmas below state the transaction's guarantees: a
//! workspace of fewer than two members, or a dirty tree without override,
//! is rejected before anything is mutated; a successful run gives every
//! member's lockfile the resolution of the root lockfile's bytes and
//! restores the manifest; a run that fails mid-loop keeps the already
//! synchronized members, leaves the rest untouched, and still restores the
//! manifest; and a second run over an unchanged root lockfile changes
//! nothing.

use vstd::prelude::*;
use crate::paths::{joined, has_separator};
use crate::descriptor::{DescModel, RawMemberModel, desc_of, lemma_paths_distinct, lockfile_name};
use crate::outcome::{SyncErrorModel, OutcomeModel};
use crate::session::{
    Config, StateModel, ActionModel, EventModel, spec_init, spec_step, copy_action,
    restore_action,
};

verus! {

/// The filesystem: byte contents by path.
pub type FsModel = Map<Seq<char>, Seq<u8>>;

/// The member-scope resolver's rewrite: from a member's directory and its
/// lockfile's current bytes to the bytes it leaves behind.
pub type ResolveFn = spec_fn(Seq<char>, Seq<u8>) -> Seq<u8>;

/// Whether performing this action can change the filesystem.
pub open spec fn mutating(a: ActionModel) -> bool {
    match a {
        ActionModel::ConcealManifest { .. } => true,
        ActionModel::CopyLockfile { .. } => true,
        ActionModel::ResolveMember { .. } => true,
        ActionModel::RestoreManifest { .. } => true,
        _ => false,
    }
}

/// The effect of performing the pending action, given the event that
/// reports its outcome.  A failed primitive changes nothing.
pub open spec fn apply_effect(fs: FsModel, a: ActionModel, e: EventModel, resolve: ResolveFn) -> FsModel {
    match (a, e) {
        (ActionModel::ConcealManifest { from, to }, EventModel::Renamed { ok }) => {
            if ok {
                fs.insert(to, fs[from]).remove(from)
            } else {
                fs
            }
        },
        (ActionModel::RestoreManifest { from, to }, EventModel::Restored { ok }) => {
            if ok {
                fs.insert(to, fs[from]).remove(from)
            } else {
                fs
            }
        },
        (ActionModel::CopyLockfile { from, to }, EventModel::Copied { ok }) => {
            if ok {
                fs.insert(to, fs[from])
            } else {
                fs
            }
        },
        (ActionModel::ResolveMember { directory, .. }, EventModel::MemberResolved { ok }) => {
            if ok {
                let p = joined(directory, lockfile_name());
                fs.insert(p, resolve(directory, fs[p]))
            } else {
                fs
            }
        },
        _ => fs,
    }
}

/// The state after the first `n` events, starting from `s0`.
pub open spec fn run_state(c: Config, s0: StateModel, evs: Seq<EventModel>, n: int) -> StateModel
    decreases n,
{
    if n <= 0 {
        s0
    } else {
        spec_step(c, run_state(c, s0, evs, n - 1), evs[n - 1]).0
    }
}

/// The action pending before event `n`: the initial action `a0`, or the
/// action the step before emitted.
pub open spec fn run_pending(
    c: Config,
    s0: StateModel,
    a0: ActionModel,
    evs: Seq<EventModel>,
    n: int,
) -> ActionModel {
    if n <= 0 {
        a0
    } else {
        spec_step(c, run_state(c, s0, evs, n - 1), evs[n - 1]).1
    }
}

/// The filesystem after the first `n` events: each event applies the
/// effect of the action that was pending before it.
pub open spec fn run_fs(
    c: Config,
    s0: StateModel,
    a0: ActionModel,
    fs0: FsModel,
    evs: Seq<EventModel>,
    resolve: ResolveFn,
    n: int,
) -> FsModel
    decreases n,
{
    if n <= 0 {
        fs0
    } else {
        apply_effect(
            run_fs(c, s0, a0, fs0, evs, resolve, n - 1),
            run_pending(c, s0, a0, evs, n - 1),
            evs[n - 1],
            resolve,
        )
    }
}

/// The states a run can occupy before the member-count check has passed.
pub open spec fn pre_mutation_state(s: StateModel) -> bool {
    s is AwaitStatus || s is AwaitWorkspace || s is Finished
}

/// A workspace of fewer than two members is rejected before any filesystem
/// mutation: however the run is driven, while every workspace answer
/// reports fewer than two members, no mutating action is ever pending and
/// the filesystem never changes.
pub proof fn lemma_small_workspace_never_mutates(
    c: Config,
    evs: Seq<EventModel>,
    fs0: FsModel,
    resolve: ResolveFn,
    n: int,
)
    requires
        0 <= n <= evs.len(),
        forall|i: int|
            0 <= i < evs.len() ==> ((#[trigger] evs[i]) matches EventModel::WorkspaceLoaded {
                members,
                ..
            } ==> members.len() < 2),
    ensures
        pre_mutation_state(run_state(c, spec_init(c).0, evs, n)),
        !mutating(run_pending(c, spec_init(c).0, spec_init(c).1, evs, n)),
        run_fs(c, spec_init(c).0, spec_init(c).1, fs0, evs, resolve, n) == fs0,
    decreases n,
{
    if n > 0 {
        lemma_small_workspace_never_mutates(c, evs, fs0, resolve, n - 1);
    }
}

/// With a dirty working tree — or a status check that could not be run or
/// failed — and no override, the run is rejected before any filesystem
/// mutation: no mutating action is ever pending and the filesystem never
/// changes.
pub proof fn lemma_dirty_tree_never_mutates(
    c: Config,
    evs: Seq<EventModel>,
    fs0: FsModel,
    resolve: ResolveFn,
    n: int,
)
    requires
        0 <= n <= evs.len(),
        !c.allow_dirty,
        forall|i: int|
            0 <= i < evs.len() ==> ((#[trigger] evs[i]) matches EventModel::StatusChecked {
                ran,
                exit_ok,
                clean,
            } ==> crate::gate::status_dirty(ran, exit_ok, clean)),
    ensures
        run_state(c, spec_init(c).0, evs, n) is AwaitStatus || run_state(
            c,
            spec_init(c).0,
            evs,
            n,
        ) is Finished,
        !mutating(run_pending(c, spec_init(c).0, spec_init(c).1, evs, n)),
        run_fs(c, spec_init(c).0, spec_init(c).1, fs0, evs, resolve, n) == fs0,
    decreases n,
{
    if n > 0 {
        lemma_dirty_tree_never_mutates(c, evs, fs0, resolve, n - 1);
    }
}

/// Two filesystems agree at a path: present in one exactly when present in
/// the other, and with the same bytes.
pub open spec fn same_at(fs1: FsModel, fs2: FsModel, p: Seq<char>) -> bool {
    fs1.dom().contains(p) == fs2.dom().contains(p) && fs1[p] == fs2[p]
}

/// Whether `p` is the lockfile path of one of the members `i .. i + t`.
pub open spec fn locks_between(d: DescModel, i: int, t: int, p: Seq<char>) -> bool {
    exists|j: int| i <= j < i + t && p == #[trigger] d.member_lock(j)
}

/// The events of `t` members each copied and resolved successfully.
pub open spec fn member_ok_events(t: int) -> Seq<EventModel>
    decreases t,
{
    if t <= 0 {
        Seq::empty()
    } else {
        seq![EventModel::Copied { ok: true }, EventModel::MemberResolved { ok: true }]
            + member_ok_events(t - 1)
    }
}

proof fn lemma_member_ok_events_len(t: int)
    ensures
        t <= 0 ==> member_ok_events(t).len() == 0,
        t > 0 ==> member_ok_events(t).len() == 2 * t,
    decreases t,
{
    if t > 0 {
        lemma_member_ok_events_len(t - 1);
    }
}

proof fn lemma_run_state_prefix(
    c: Config,
    s0: StateModel,
    evs1: Seq<EventModel>,
    evs2: Seq<EventModel>,
    m: int,
)
    requires
        0 <= m <= evs1.len(),
    ensures
        run_state(c, s0, evs1 + evs2, m) == run_state(c, s0, evs1, m),
    decreases m,
{
    if m > 0 {
        lemma_run_state_prefix(c, s0, evs1, evs2, m - 1);
        assert((evs1 + evs2)[m - 1] == evs1[m - 1]);
    }
}

proof fn lemma_run_state_append(
    c: Config,
    s0: StateModel,
    evs1: Seq<EventModel>,
    evs2: Seq<EventModel>,
    n: int,
)
    requires
        0 <= n <= evs2.len(),
    ensures
        run_state(c, s0, evs1 + evs2, evs1.len() + n) == run_state(
            c,
            run_state(c, s0, evs1, evs1.len() as int),
            evs2,
            n,
        ),
    decreases n,
{
    if n == 0 {
        lemma_run_state_prefix(c, s0, evs1, evs2, evs1.len() as int);
    } else {
        lemma_run_state_append(c, s0, evs1, evs2, n - 1);
        assert((evs1 + evs2)[evs1.len() + n - 1] == evs2[n - 1]);
    }
}

proof fn lemma_run_fs_prefix(
    c: Config,
    s0: StateModel,
    a0: ActionModel,
    fs0: FsModel,
    evs1: Seq<EventModel>,
    evs2: Seq<EventModel>,
    resolve: ResolveFn,
    m: int,
)
    requires
        0 <= m <= evs1.len(),
    ensures
        run_fs(c, s0, a0, fs0, evs1 + evs2, resolve, m) == run_fs(
            c,
            s0,
            a0,
            fs0,
            evs1,
            resolve,
            m,
        ),
        run_pending(c, s0, a0, evs1 + evs2, m) == run_pending(c, s0, a0, evs1, m),
    decreases m,
{
    if m > 0 {
        lemma_run_fs_prefix(c, s0, a0, fs0, evs1, evs2, resolve, m - 1);
        lemma_run_state_prefix(c, s0, evs1, evs2, m - 1);
        assert((evs1 + evs2)[m - 1] == evs1[m - 1]);
    }
}

proof fn lemma_run_fs_append(
    c: Config,
    s0: StateModel,
    a0: ActionModel,
    fs0: FsModel,
    evs1: Seq<EventModel>,
    evs2: Seq<EventModel>,
    resolve: ResolveFn,
    n: int,
)
    requires
        0 <= n <= evs2.len(),
    ensures
        run_fs(c, s0, a0, fs0, evs1 + evs2, resolve, evs1.len() + n) == run_fs(
            c,
            run_state(c, s0, evs1, evs1.len() as int),
            run_pending(c, s0, a0, evs1, evs1.len() as int),
            run_fs(c, s0, a0, fs0, evs1, resolve, evs1.len() as int),
            evs2,
            resolve,
            n,
        ),
        run_pending(c, s0, a0, evs1 + evs2, evs1.len() + n) == run_pending(
            c,
            run_state(c, s0, evs1, evs1.len() as int),
            run_pending(c, s0, a0, evs1, evs1.len() as int),
            evs2,
            n,
        ),
    decreases n,
{
    if n == 0 {
        lemma_run_fs_prefix(c, s0, a0, fs0, evs1, evs2, resolve, evs1.len() as int);
    } else {
        lemma_run_fs_append(c, s0, a0, fs0, evs1, evs2, resolve, n - 1);
        lemma_run_state_append(c, s0, evs1, evs2, n - 1);
        assert((evs1 + evs2)[evs1.len() + n - 1] == evs2[n - 1]);
    }
}

/// The member loop, from member `i`, over `t` members that all copy and
/// resolve successfully: it walks to member `i + t` (or, past the last
/// member, to the restoration), rewrites exactly the lockfiles of members
/// `i .. i + t` to the resolution of the root lockfile's bytes, and
/// touches nothing else.
proof fn lemma_member_loop(
    c: Config,
    d: DescModel,
    i: int,
    t: int,
    fs: FsModel,
    resolve: ResolveFn,
)
    requires
        d.wf(),
        d.distinct_dirs(),
        d.dirs_off_root(),
        0 <= i < d.members.len(),
        0 <= t,
        i + t <= d.members.len(),
    ensures
        ({
            let evs = member_ok_events(t);
            let n = evs.len() as int;
            let s0 = StateModel::AwaitCopy { desc: d, index: i };
            let a0 = copy_action(d, i);
            let s_fin = run_state(c, s0, evs, n);
            let a_fin = run_pending(c, s0, a0, evs, n);
            let fs_fin = run_fs(c, s0, a0, fs, evs, resolve, n);
            &&& (i + t < d.members.len() ==> s_fin == StateModel::AwaitCopy {
                desc: d,
                index: i + t,
            } && a_fin == copy_action(d, i + t))
            &&& (i + t == d.members.len() ==> s_fin == StateModel::AwaitRestore {
                desc: d,
                pending: Option::None,
            } && a_fin == restore_action(d))
            &&& forall|j: int|
                i <= j < i + t ==> fs_fin.dom().contains(#[trigger] d.member_lock(j))
                    && fs_fin[d.member_lock(j)] == resolve(
                    d.members[j].directory,
                    fs[d.lockfile],
                )
            &&& forall|p: Seq<char>| !locks_between(d, i, t, p) ==> same_at(fs, fs_fin, p)
        }),
    decreases t,
{
    crate::descriptor::lemma_paths_distinct(d);
    let evs = member_ok_events(t);
    let s0 = StateModel::AwaitCopy { desc: d, index: i };
    let a0 = copy_action(d, i);
    lemma_member_ok_events_len(t);
    if t == 0 {
        assert(run_state(c, s0, evs, 0) == s0);
    } else {
        let pair = seq![
            EventModel::Copied { ok: true },
            EventModel::MemberResolved { ok: true },
        ];
        let rest = member_ok_events(t - 1);
        assert(evs == pair + rest);
        let lock_i = d.member_lock(i);
        // the two events of member i, step by step
        let s1 = spec_step(c, s0, pair[0]).0;
        let a1 = spec_step(c, s0, pair[0]).1;
        assert(s1 == StateModel::AwaitResolve { desc: d, index: i });
        assert(a1 == ActionModel::ResolveMember {
            directory: d.members[i].directory,
            offline: c.offline,
        });
        let s2 = spec_step(c, s1, pair[1]).0;
        let a2 = spec_step(c, s1, pair[1]).1;
        let fs1 = apply_effect(fs, a0, pair[0], resolve);
        assert(fs1 == fs.insert(lock_i, fs[d.lockfile]));
        let fs2 = apply_effect(fs1, a1, pair[1], resolve);
        assert(fs1[lock_i] == fs[d.lockfile]);
        assert(fs2 == fs1.insert(lock_i, resolve(d.members[i].directory, fs[d.lockfile])));
        assert(run_state(c, s0, pair, 1) == s1);
        assert(run_state(c, s0, pair, 2) == s2);
        assert(run_pending(c, s0, a0, pair, 1) == a1);
        assert(run_pending(c, s0, a0, pair, 2) == a2);
        assert(run_fs(c, s0, a0, fs, pair, resolve, 0) == fs);
        assert(run_pending(c, s0, a0, pair, 0) == a0);
        assert(run_fs(c, s0, a0, fs, pair, resolve, 1) == fs1);
        assert(run_fs(c, s0, a0, fs, pair, resolve, 2) == fs2);
        if i + 1 == d.members.len() {
            // t == 1 and the loop is over
            assert(t == 1);
            assert(s2 == StateModel::AwaitRestore { desc: d, pending: Option::None });
            assert(a2 == restore_action(d));
            assert(rest.len() == 0);
            assert(evs =~= pair);
            assert(fs2.dom().contains(lock_i));
            assert(fs2[lock_i] == resolve(d.members[i].directory, fs[d.lockfile]));
            assert forall|p: Seq<char>| !locks_between(d, i, t, p) implies same_at(
                fs,
                fs2,
                p,
            ) by {
                assert(d.member_lock(i) == lock_i);
                assert(p != lock_i);
            }
        } else {
            assert(s2 == StateModel::AwaitCopy { desc: d, index: i + 1 });
            assert(a2 == copy_action(d, i + 1));
            lemma_member_loop(c, d, i + 1, t - 1, fs2, resolve);
            lemma_run_state_append(c, s0, pair, rest, rest.len() as int);
            lemma_run_fs_append(c, s0, a0, fs, pair, rest, resolve, rest.len() as int);
            lemma_member_ok_events_len(t - 1);
            let n = evs.len() as int;
            let s_fin = run_state(c, s0, evs, n);
            let a_fin = run_pending(c, s0, a0, evs, n);
            let fs_fin = run_fs(c, s0, a0, fs, evs, resolve, n);
            assert(s_fin == run_state(c, s2, rest, rest.len() as int));
            assert(a_fin == run_pending(c, s2, a2, rest, rest.len() as int));
            assert(fs_fin == run_fs(c, s2, a2, fs2, rest, resolve, rest.len() as int));
            // the root lockfile is untouched by member i's rewrite
            assert(lock_i != d.lockfile);
            assert(fs2[d.lockfile] == fs[d.lockfile]);
            // members i+1 .. i+t, from the recursive call
            assert forall|j: int|
                i <= j < i + t implies fs_fin.dom().contains(#[trigger] d.member_lock(j))
                && fs_fin[d.member_lock(j)] == resolve(
                d.members[j].directory,
                fs[d.lockfile],
            ) by {
                if j == i {
                    assert(!locks_between(d, i + 1, t - 1, lock_i)) by {
                        if locks_between(d, i + 1, t - 1, lock_i) {
                            let jj = choose|jj: int|
                                i + 1 <= jj < i + t && lock_i == #[trigger] d.member_lock(jj);
                            assert(d.member_lock(i) != d.member_lock(jj));
                        }
                    }
                    assert(same_at(fs2, fs_fin, lock_i));
                    assert(fs2.dom().contains(lock_i));
                } else {
                    assert(fs_fin[d.member_lock(j)] == resolve(
                        d.members[j].directory,
                        fs2[d.lockfile],
                    ));
                }
            }
            // everything outside the rewritten lockfiles is untouched
            assert forall|p: Seq<char>| !locks_between(d, i, t, p) implies same_at(
                fs,
                fs_fin,
                p,
            ) by {
                assert(d.member_lock(i) == lock_i);
                assert(p != lock_i);
                assert(same_at(fs, fs2, p));
                assert(!locks_between(d, i + 1, t - 1, p)) by {
                    if locks_between(d, i + 1, t - 1, p) {
                        let jj = choose|jj: int|
                            i + 1 <= jj < i + t && p == #[trigger] d.member_lock(jj);
                        assert(locks_between(d, i, t, p));
                    }
                }
                assert(same_at(fs2, fs_fin, p));
            }
        }
    }
}

/// The events of a passed safety gate: none when the caller allowed a
/// dirty tree (the status is never queried), else one clean status report.
pub open spec fn gate_events(c: Config) -> Seq<EventModel> {
    if c.allow_dirty {
        Seq::empty()
    } else {
        seq![EventModel::StatusChecked { ran: true, exit_ok: true, clean: true }]
    }
}

/// The workspace-scope metadata answer as an event.
pub open spec fn load_event(root: Seq<char>, raws: Seq<RawMemberModel>) -> EventModel {
    EventModel::WorkspaceLoaded { root, members: raws }
}

/// The events of a fully successful run: gate passed, workspace loaded,
/// manifest concealed, every member copied and resolved, manifest
/// restored.
pub open spec fn success_events(c: Config, root: Seq<char>, raws: Seq<RawMemberModel>) -> Seq<
    EventModel,
> {
    gate_events(c) + seq![load_event(root, raws), EventModel::Renamed { ok: true }]
        + member_ok_events(raws.len() as int) + seq![EventModel::Restored { ok: true }]
}

/// A well-formed workspace answer: at least two members, each with a
/// manifest path that has a directory part, no member in the root
/// directory itself, and no two members sharing a directory.
pub open spec fn usable_answer(root: Seq<char>, raws: Seq<RawMemberModel>) -> bool {
    &&& raws.len() >= 2
    &&& forall|i: int| 0 <= i < raws.len() ==> has_separator((#[trigger] raws[i]).manifest_path)
    &&& desc_of(root, raws).distinct_dirs()
    &&& desc_of(root, raws).dirs_off_root()
}

/// Through the safety check, the workspace answer and the concealment: the run
/// stands at the first member's copy, and the filesystem has exactly the
/// manifest moved to its sentinel name.
proof fn lemma_prologue(
    c: Config,
    root: Seq<char>,
    raws: Seq<RawMemberModel>,
    fs0: FsModel,
    resolve: ResolveFn,
)
    requires
        raws.len() >= 2,
        forall|i: int| 0 <= i < raws.len() ==> has_separator((#[trigger] raws[i]).manifest_path),
    ensures
        ({
            let d = desc_of(root, raws);
            let pro = gate_events(c) + seq![
                load_event(root, raws),
                EventModel::Renamed { ok: true },
            ];
            let n = pro.len() as int;
            &&& run_state(c, spec_init(c).0, pro, n) == StateModel::AwaitCopy {
                desc: d,
                index: 0,
            }
            &&& run_pending(c, spec_init(c).0, spec_init(c).1, pro, n) == copy_action(d, 0)
            &&& run_fs(c, spec_init(c).0, spec_init(c).1, fs0, pro, resolve, n) == fs0.insert(
                d.hidden,
                fs0[d.manifest],
            ).remove(d.manifest)
        }),
{
    let d = desc_of(root, raws);
    let s0 = spec_init(c).0;
    let a0 = spec_init(c).1;
    let pro = gate_events(c) + seq![load_event(root, raws), EventModel::Renamed { ok: true }];
    assert(d.members.len() == raws.len());
    assert(d.wf());
    assert(!(exists|i: int|
        0 <= i < raws.len() && !has_separator(#[trigger] raws[i].manifest_path))) by {
        if exists|i: int| 0 <= i < raws.len() && !has_separator(#[trigger] raws[i].manifest_path) {
            let i = choose|i: int|
                0 <= i < raws.len() && !has_separator(#[trigger] raws[i].manifest_path);
            assert(has_separator(raws[i].manifest_path));
        }
    }
    let fs_c = fs0.insert(d.hidden, fs0[d.manifest]).remove(d.manifest);
    if c.allow_dirty {
        assert(pro =~= seq![load_event(root, raws), EventModel::Renamed { ok: true }]);
        assert(s0 == StateModel::AwaitWorkspace);
        assert(run_state(c, s0, pro, 0) == s0);
        assert(run_fs(c, s0, a0, fs0, pro, resolve, 0) == fs0);
        assert(run_pending(c, s0, a0, pro, 0) == a0);
        let s1 = spec_step(c, s0, pro[0]).0;
        let a1 = spec_step(c, s0, pro[0]).1;
        assert(s1 == StateModel::AwaitConceal { desc: d });
        assert(a1 == ActionModel::ConcealManifest { from: d.manifest, to: d.hidden });
        assert(run_state(c, s0, pro, 1) == s1);
        assert(run_pending(c, s0, a0, pro, 1) == a1);
        assert(run_fs(c, s0, a0, fs0, pro, resolve, 1) == fs0);
        assert(run_state(c, s0, pro, 2) == spec_step(c, s1, pro[1]).0);
        assert(run_state(c, s0, pro, 2) == StateModel::AwaitCopy { desc: d, index: 0 });
        assert(run_pending(c, s0, a0, pro, 2) == copy_action(d, 0));
        assert(run_fs(c, s0, a0, fs0, pro, resolve, 2) == apply_effect(fs0, a1, pro[1], resolve));
        assert(run_fs(c, s0, a0, fs0, pro, resolve, 2) == fs_c);
    } else {
        let status_ev = EventModel::StatusChecked { ran: true, exit_ok: true, clean: true };
        assert(pro =~= seq![status_ev, load_event(root, raws), EventModel::Renamed { ok: true }]);
        assert(s0 == StateModel::AwaitStatus);
        assert(run_state(c, s0, pro, 0) == s0);
        assert(run_fs(c, s0, a0, fs0, pro, resolve, 0) == fs0);
        assert(run_pending(c, s0, a0, pro, 0) == a0);
        let s1 = spec_step(c, s0, pro[0]).0;
        assert(!crate::gate::status_dirty(true, true, true));
        assert(s1 == StateModel::AwaitWorkspace);
        assert(run_state(c, s0, pro, 1) == s1);
        assert(run_fs(c, s0, a0, fs0, pro, resolve, 1) == fs0);
        let s2 = spec_step(c, s1, pro[1]).0;
        let a2 = spec_step(c, s1, pro[1]).1;
        assert(s2 == StateModel::AwaitConceal { desc: d });
        assert(a2 == ActionModel::ConcealManifest { from: d.manifest, to: d.hidden });
        assert(run_state(c, s0, pro, 2) == s2);
        assert(run_pending(c, s0, a0, pro, 2) == a2);
        assert(run_fs(c, s0, a0, fs0, pro, resolve, 2) == fs0);
        assert(run_state(c, s0, pro, 3) == spec_step(c, s2, pro[2]).0);
        assert(run_state(c, s0, pro, 3) == StateModel::AwaitCopy { desc: d, index: 0 });
        assert(run_pending(c, s0, a0, pro, 3) == copy_action(d, 0));
        assert(run_fs(c, s0, a0, fs0, pro, resolve, 3) == apply_effect(fs0, a2, pro[2], resolve));
        assert(run_fs(c, s0, a0, fs0, pro, resolve, 3) == fs_c);
    }
}

/// A successful run: the outcome reports success; every member's lockfile
/// holds the resolution of the root lockfile's bytes; the root manifest is
/// back under its own name with its old contents, the sentinel name is
/// gone, and every other path is untouched.
pub proof fn lemma_successful_run(
    c: Config,
    root: Seq<char>,
    raws: Seq<RawMemberModel>,
    fs0: FsModel,
    resolve: ResolveFn,
)
    requires
        usable_answer(root, raws),
    ensures
        ({
            let d = desc_of(root, raws);
            let evs = success_events(c, root, raws);
            let n = evs.len() as int;
            let s_fin = run_state(c, spec_init(c).0, evs, n);
            let fs_fin = run_fs(c, spec_init(c).0, spec_init(c).1, fs0, evs, resolve, n);
            &&& s_fin == StateModel::Finished {
                outcome: OutcomeModel { primary: Option::None, restore_failed: false },
            }
            &&& forall|j: int|
                0 <= j < d.members.len() ==> fs_fin.dom().contains(#[trigger] d.member_lock(j))
                    && fs_fin[d.member_lock(j)] == resolve(d.members[j].directory, fs0[d.lockfile])
            &&& fs_fin.dom().contains(d.manifest)
            &&& fs_fin[d.manifest] == fs0[d.manifest]
            &&& !fs_fin.dom().contains(d.hidden)
            &&& forall|p: Seq<char>|
                p != d.manifest && p != d.hidden && !locks_between(d, 0, d.members.len() as int, p)
                    ==> same_at(fs0, fs_fin, p)
        }),
{
    let d = desc_of(root, raws);
    let s0 = spec_init(c).0;
    let a0 = spec_init(c).1;
    let len = d.members.len() as int;
    assert(d.members.len() == raws.len());
    assert(d.wf());
    lemma_paths_distinct(d);
    let pro = gate_events(c) + seq![load_event(root, raws), EventModel::Renamed { ok: true }];
    let loop_evs = member_ok_events(len);
    let tail = seq![EventModel::Restored { ok: true }];
    let evs = success_events(c, root, raws);
    assert(evs == pro + (loop_evs + tail)) by {
        assert(evs =~= pro + (loop_evs + tail));
    }
    lemma_prologue(c, root, raws, fs0, resolve);
    let mid_s = run_state(c, s0, pro, pro.len() as int);
    let mid_a = run_pending(c, s0, a0, pro, pro.len() as int);
    let fs_c = run_fs(c, s0, a0, fs0, pro, resolve, pro.len() as int);
    assert(mid_s == StateModel::AwaitCopy { desc: d, index: 0 });
    assert(mid_a == copy_action(d, 0));
    assert(fs_c == fs0.insert(d.hidden, fs0[d.manifest]).remove(d.manifest));
    // the root lockfile is unchanged by the concealment
    assert(fs_c[d.lockfile] == fs0[d.lockfile]);
    lemma_member_ok_events_len(len);
    lemma_run_state_append(c, s0, pro, loop_evs + tail, (loop_evs + tail).len() as int);
    lemma_run_fs_append(c, s0, a0, fs0, pro, loop_evs + tail, resolve, (loop_evs + tail).len() as int);
    let n = evs.len() as int;
    assert(n == pro.len() + (loop_evs + tail).len());
    let s_fin = run_state(c, s0, evs, n);
    let a_fin = run_pending(c, s0, a0, evs, n);
    let fs_fin = run_fs(c, s0, a0, fs0, evs, resolve, n);
    assert(s_fin == run_state(c, mid_s, loop_evs + tail, (loop_evs + tail).len() as int));
    assert(fs_fin == run_fs(c, mid_s, mid_a, fs_c, loop_evs + tail, resolve, (loop_evs + tail).len() as int));
    // split off the loop
    lemma_run_state_append(c, mid_s, loop_evs, tail, 1);
    lemma_run_fs_append(c, mid_s, mid_a, fs_c, loop_evs, tail, resolve, 1);
    lemma_member_loop(c, d, 0, len, fs_c, resolve);
    let s_l = run_state(c, mid_s, loop_evs, loop_evs.len() as int);
    let a_l = run_pending(c, mid_s, mid_a, loop_evs, loop_evs.len() as int);
    let fs_l = run_fs(c, mid_s, mid_a, fs_c, loop_evs, resolve, loop_evs.len() as int);
    assert(s_l == StateModel::AwaitRestore { desc: d, pending: Option::None });
    assert(a_l == restore_action(d));
    assert(s_fin == run_state(c, s_l, tail, 1));
    assert(fs_fin == run_fs(c, s_l, a_l, fs_l, tail, resolve, 1));
    assert(run_state(c, s_l, tail, 0) == s_l);
    assert(run_fs(c, s_l, a_l, fs_l, tail, resolve, 0) == fs_l);
    assert(run_pending(c, s_l, a_l, tail, 0) == a_l);
    assert(s_fin == spec_step(c, s_l, tail[0]).0);
    assert(s_fin == StateModel::Finished {
        outcome: OutcomeModel { primary: Option::None, restore_failed: false },
    });
    assert(fs_fin == apply_effect(fs_l, a_l, tail[0], resolve));
    assert(fs_fin == fs_l.insert(d.manifest, fs_l[d.hidden]).remove(d.hidden));
    // the sentinel still holds the manifest's old bytes after the loop
    assert(!locks_between(d, 0, len, d.hidden)) by {
        if locks_between(d, 0, len, d.hidden) {
            let j = choose|j: int| 0 <= j < len && d.hidden == #[trigger] d.member_lock(j);
        }
    }
    assert(same_at(fs_c, fs_l, d.hidden));
    assert(fs_c.dom().contains(d.hidden));
    assert(fs_l[d.hidden] == fs0[d.manifest]);
    // manifest: restored with its old bytes
    assert(fs_fin.dom().contains(d.manifest));
    assert(fs_fin[d.manifest] == fs0[d.manifest]);
    assert(!fs_fin.dom().contains(d.hidden));
    // member lockfiles: resolved from the root lockfile's bytes
    assert forall|j: int| 0 <= j < len implies fs_fin.dom().contains(#[trigger] d.member_lock(j))
        && fs_fin[d.member_lock(j)] == resolve(d.members[j].directory, fs0[d.lockfile]) by {
        assert(fs_l.dom().contains(d.member_lock(j)));
        assert(fs_l[d.member_lock(j)] == resolve(d.members[j].directory, fs_c[d.lockfile]));
        assert(d.member_lock(j) != d.manifest);
        assert(d.member_lock(j) != d.hidden);
    }
    // everything else: untouched
    assert forall|p: Seq<char>|
        p != d.manifest && p != d.hidden && !locks_between(d, 0, len, p) implies same_at(
        fs0,
        fs_fin,
        p,
    ) by {
        assert(same_at(fs0, fs_c, p));
        assert(same_at(fs_c, fs_l, p));
        assert(same_at(fs_l, fs_fin, p));
    }
}

/// Idempotence: a second successful run over an unchanged root lockfile
/// changes nothing.  After one successful run from `fs0`, a further
/// successful run — under any configuration — leaves the filesystem
/// exactly as the first run left it.
pub proof fn lemma_second_run_changes_nothing(
    c1: Config,
    c2: Config,
    root: Seq<char>,
    raws: Seq<RawMemberModel>,
    fs0: FsModel,
    resolve: ResolveFn,
)
    requires
        usable_answer(root, raws),
    ensures
        ({
            let evs1 = success_events(c1, root, raws);
            let evs2 = success_events(c2, root, raws);
            let fs1 = run_fs(
                c1,
                spec_init(c1).0,
                spec_init(c1).1,
                fs0,
                evs1,
                resolve,
                evs1.len() as int,
            );
            let fs2 = run_fs(
                c2,
                spec_init(c2).0,
                spec_init(c2).1,
                fs1,
                evs2,
                resolve,
                evs2.len() as int,
            );
            fs2 == fs1
        }),
{
    let d = desc_of(root, raws);
    let len = d.members.len() as int;
    lemma_paths_distinct(d);
    lemma_successful_run(c1, root, raws, fs0, resolve);
    let evs1 = success_events(c1, root, raws);
    let fs1 = run_fs(c1, spec_init(c1).0, spec_init(c1).1, fs0, evs1, resolve, evs1.len() as int);
    lemma_successful_run(c2, root, raws, fs1, resolve);
    let evs2 = success_events(c2, root, raws);
    let fs2 = run_fs(c2, spec_init(c2).0, spec_init(c2).1, fs1, evs2, resolve, evs2.len() as int);
    // the root lockfile is not among the touched paths, so the second run
    // resolves from the same bytes
    assert(!locks_between(d, 0, len, d.lockfile)) by {
        if locks_between(d, 0, len, d.lockfile) {
            let j = choose|j: int| 0 <= j < len && d.lockfile == #[trigger] d.member_lock(j);
        }
    }
    assert(same_at(fs0, fs1, d.lockfile));
    assert(fs1[d.lockfile] == fs0[d.lockfile]);
    assert forall|p: Seq<char>| #[trigger]
        fs2.dom().contains(p) == fs1.dom().contains(p) && (fs1.dom().contains(p) ==> fs2[p]
            == fs1[p]) by {
        if p == d.manifest {
            assert(fs2[p] == fs1[p]);
        } else if p == d.hidden {
            assert(!fs1.dom().contains(p));
            assert(!fs2.dom().contains(p));
        } else if locks_between(d, 0, len, p) {
            let j = choose|j: int| 0 <= j < len && p == #[trigger] d.member_lock(j);
            assert(fs1[p] == resolve(d.members[j].directory, fs0[d.lockfile]));
            assert(fs2[p] == resolve(d.members[j].directory, fs1[d.lockfile]));
        } else {
            assert(same_at(fs1, fs2, p));
        }
    }
    assert(fs2 =~= fs1);
}

/// Round trip of a pinned version: when the root lockfile records a pin
/// that the member's own resolution keeps — the member depends on the
/// package, so the resolver carries a recorded pin through — a successful
/// run leaves that member's lockfile recording it.
pub proof fn lemma_root_pin_reaches_member(
    c: Config,
    root: Seq<char>,
    raws: Seq<RawMemberModel>,
    fs0: FsModel,
    resolve: ResolveFn,
    k: int,
    records: spec_fn(Seq<u8>) -> bool,
)
    requires
        usable_answer(root, raws),
        0 <= k < raws.len(),
        records(fs0[desc_of(root, raws).lockfile]),
        forall|l: Seq<u8>| #[trigger]
            records(l) ==> records(resolve(desc_of(root, raws).members[k].directory, l)),
    ensures
        ({
            let d = desc_of(root, raws);
            let evs = success_events(c, root, raws);
            let fs_fin = run_fs(
                c,
                spec_init(c).0,
                spec_init(c).1,
                fs0,
                evs,
                resolve,
                evs.len() as int,
            );
            records(fs_fin[d.member_lock(k)])
        }),
{
    let d = desc_of(root, raws);
    assert(d.members.len() == raws.len());
    lemma_successful_run(c, root, raws, fs0, resolve);
}

/// The events of a run whose member-scope resolution fails at member `k`,
/// after `k` members were synchronized; the restoration still succeeds.
pub open spec fn resolve_failure_events(
    c: Config,
    root: Seq<char>,
    raws: Seq<RawMemberModel>,
    k: int,
) -> Seq<EventModel> {
    gate_events(c) + seq![load_event(root, raws), EventModel::Renamed { ok: true }]
        + member_ok_events(k) + seq![
        EventModel::Copied { ok: true },
        EventModel::MemberResolved { ok: false },
        EventModel::Restored { ok: true },
    ]
}

/// Failure safety: when the member-scope resolution fails at member `k`,
/// the run reports that member's failure; members before `k` keep their
/// newly synchronized lockfiles; member `k`'s lockfile holds the bytes
/// just copied from the root lockfile; members after `k` keep their
/// pre-run lockfiles; and the root manifest is restored regardless.
pub proof fn lemma_failure_keeps_state(
    c: Config,
    root: Seq<char>,
    raws: Seq<RawMemberModel>,
    fs0: FsModel,
    resolve: ResolveFn,
    k: int,
)
    requires
        usable_answer(root, raws),
        0 <= k < raws.len(),
    ensures
        ({
            let d = desc_of(root, raws);
            let evs = resolve_failure_events(c, root, raws, k);
            let n = evs.len() as int;
            let s_fin = run_state(c, spec_init(c).0, evs, n);
            let fs_fin = run_fs(c, spec_init(c).0, spec_init(c).1, fs0, evs, resolve, n);
            &&& s_fin == StateModel::Finished {
                outcome: OutcomeModel {
                    primary: Option::Some(
                        SyncErrorModel::MemberResolveFailed { member: d.members[k].name },
                    ),
                    restore_failed: false,
                },
            }
            &&& forall|j: int|
                0 <= j < k ==> fs_fin.dom().contains(#[trigger] d.member_lock(j))
                    && fs_fin[d.member_lock(j)] == resolve(d.members[j].directory, fs0[d.lockfile])
            &&& fs_fin.dom().contains(d.member_lock(k))
            &&& fs_fin[d.member_lock(k)] == fs0[d.lockfile]
            &&& forall|j: int|
                k < j < d.members.len() ==> same_at(fs0, fs_fin, #[trigger] d.member_lock(j))
            &&& fs_fin.dom().contains(d.manifest)
            &&& fs_fin[d.manifest] == fs0[d.manifest]
            &&& !fs_fin.dom().contains(d.hidden)
            &&& forall|p: Seq<char>|
                p != d.manifest && p != d.hidden && !locks_between(d, 0, k + 1, p) ==> same_at(
                    fs0,
                    fs_fin,
                    p,
                )
        }),
{
    let d = desc_of(root, raws);
    let s0 = spec_init(c).0;
    let a0 = spec_init(c).1;
    let len = d.members.len() as int;
    assert(d.members.len() == raws.len());
    assert(d.wf());
    lemma_paths_distinct(d);
    let pro = gate_events(c) + seq![load_event(root, raws), EventModel::Renamed { ok: true }];
    let loop_evs = member_ok_events(k);
    let tail = seq![
        EventModel::Copied { ok: true },
        EventModel::MemberResolved { ok: false },
        EventModel::Restored { ok: true },
    ];
    let evs = resolve_failure_events(c, root, raws, k);
    assert(evs == pro + (loop_evs + tail)) by {
        assert(evs =~= pro + (loop_evs + tail));
    }
    lemma_prologue(c, root, raws, fs0, resolve);
    let mid_s = run_state(c, s0, pro, pro.len() as int);
    let mid_a = run_pending(c, s0, a0, pro, pro.len() as int);
    let fs_c = run_fs(c, s0, a0, fs0, pro, resolve, pro.len() as int);
    assert(mid_s == StateModel::AwaitCopy { desc: d, index: 0 });
    assert(mid_a == copy_action(d, 0));
    assert(fs_c == fs0.insert(d.hidden, fs0[d.manifest]).remove(d.manifest));
    assert(fs_c[d.lockfile] == fs0[d.lockfile]);
    lemma_member_ok_events_len(k);
    lemma_run_state_append(c, s0, pro, loop_evs + tail, (loop_evs + tail).len() as int);
    lemma_run_fs_append(c, s0, a0, fs0, pro, loop_evs + tail, resolve, (loop_evs + tail).len() as int);
    let n = evs.len() as int;
    let s_fin = run_state(c, s0, evs, n);
    let fs_fin = run_fs(c, s0, a0, fs0, evs, resolve, n);
    assert(s_fin == run_state(c, mid_s, loop_evs + tail, (loop_evs + tail).len() as int));
    assert(fs_fin == run_fs(c, mid_s, mid_a, fs_c, loop_evs + tail, resolve, (loop_evs + tail).len() as int));
    // split off the successful part of the loop
    lemma_run_state_append(c, mid_s, loop_evs, tail, 3);
    lemma_run_fs_append(c, mid_s, mid_a, fs_c, loop_evs, tail, resolve, 3);
    lemma_member_loop(c, d, 0, k, fs_c, resolve);
    let s_l = run_state(c, mid_s, loop_evs, loop_evs.len() as int);
    let a_l = run_pending(c, mid_s, mid_a, loop_evs, loop_evs.len() as int);
    let fs_l = run_fs(c, mid_s, mid_a, fs_c, loop_evs, resolve, loop_evs.len() as int);
    assert(s_l == StateModel::AwaitCopy { desc: d, index: k });
    assert(a_l == copy_action(d, k));
    assert(s_fin == run_state(c, s_l, tail, 3));
    assert(fs_fin == run_fs(c, s_l, a_l, fs_l, tail, resolve, 3));
    // the root lockfile was untouched by the loop
    let lock_k = d.member_lock(k);
    assert(!locks_between(d, 0, k, d.lockfile)) by {
        if locks_between(d, 0, k, d.lockfile) {
            let j = choose|j: int| 0 <= j < k && d.lockfile == #[trigger] d.member_lock(j);
        }
    }
    assert(same_at(fs_c, fs_l, d.lockfile));
    assert(fs_l[d.lockfile] == fs0[d.lockfile]);
    // the three tail events, step by step
    assert(run_state(c, s_l, tail, 0) == s_l);
    assert(run_pending(c, s_l, a_l, tail, 0) == a_l);
    assert(run_fs(c, s_l, a_l, fs_l, tail, resolve, 0) == fs_l);
    let s1 = spec_step(c, s_l, tail[0]).0;
    let a1 = spec_step(c, s_l, tail[0]).1;
    assert(s1 == StateModel::AwaitResolve { desc: d, index: k });
    assert(a1 == ActionModel::ResolveMember { directory: d.members[k].directory, offline: c.offline });
    let fs_1 = apply_effect(fs_l, a_l, tail[0], resolve);
    assert(fs_1 == fs_l.insert(lock_k, fs_l[d.lockfile]));
    assert(run_state(c, s_l, tail, 1) == s1);
    assert(run_pending(c, s_l, a_l, tail, 1) == a1);
    assert(run_fs(c, s_l, a_l, fs_l, tail, resolve, 1) == fs_1);
    let s2 = spec_step(c, s1, tail[1]).0;
    let a2 = spec_step(c, s1, tail[1]).1;
    assert(s2 == StateModel::AwaitRestore {
        desc: d,
        pending: Option::Some(SyncErrorModel::MemberResolveFailed { member: d.members[k].name }),
    });
    assert(a2 == restore_action(d));
    let fs_2 = apply_effect(fs_1, a1, tail[1], resolve);
    assert(fs_2 == fs_1);
    assert(run_state(c, s_l, tail, 2) == s2);
    assert(run_pending(c, s_l, a_l, tail, 2) == a2);
    assert(run_fs(c, s_l, a_l, fs_l, tail, resolve, 2) == fs_1);
    assert(s_fin == spec_step(c, s2, tail[2]).0);
    assert(s_fin == StateModel::Finished {
        outcome: OutcomeModel {
            primary: Option::Some(
                SyncErrorModel::MemberResolveFailed { member: d.members[k].name },
            ),
            restore_failed: false,
        },
    });
    assert(fs_fin == apply_effect(fs_1, a2, tail[2], resolve));
    assert(fs_fin == fs_1.insert(d.manifest, fs_1[d.hidden]).remove(d.hidden));
    // the sentinel still holds the manifest's old bytes
    assert(!locks_between(d, 0, k, d.hidden)) by {
        if locks_between(d, 0, k, d.hidden) {
            let j = choose|j: int| 0 <= j < k && d.hidden == #[trigger] d.member_lock(j);
        }
    }
    assert(same_at(fs_c, fs_l, d.hidden));
    assert(fs_1[d.hidden] == fs0[d.manifest]);
    assert(fs_fin.dom().contains(d.manifest));
    assert(fs_fin[d.manifest] == fs0[d.manifest]);
    assert(!fs_fin.dom().contains(d.hidden));
    // member k holds the copied root bytes
    assert(fs_fin.dom().contains(lock_k));
    assert(fs_fin[lock_k] == fs0[d.lockfile]);
    // members before k: synchronized
    assert forall|j: int| 0 <= j < k implies fs_fin.dom().contains(#[trigger] d.member_lock(j))
        && fs_fin[d.member_lock(j)] == resolve(d.members[j].directory, fs0[d.lockfile]) by {
        assert(fs_l.dom().contains(d.member_lock(j)));
        assert(fs_l[d.member_lock(j)] == resolve(d.members[j].directory, fs_c[d.lockfile]));
        assert(d.member_lock(j) != lock_k);
        assert(d.member_lock(j) != d.manifest);
        assert(d.member_lock(j) != d.hidden);
    }
    // members after k: untouched
    assert forall|j: int| k < j < len implies same_at(fs0, fs_fin, #[trigger] d.member_lock(j)) by {
        assert(d.member_lock(j) != d.manifest);
        assert(d.member_lock(j) != d.hidden);
        assert(d.member_lock(j) != lock_k);
        assert(!locks_between(d, 0, k, d.member_lock(j))) by {
            if locks_between(d, 0, k, d.member_lock(j)) {
                let jj = choose|jj: int|
                    0 <= jj < k && d.member_lock(j) == #[trigger] d.member_lock(jj);
            }
        }
        assert(same_at(fs0, fs_c, d.member_lock(j)));
        assert(same_at(fs_c, fs_l, d.member_lock(j)));
    }
    // everything else: untouched
    assert forall|p: Seq<char>|
        p != d.manifest && p != d.hidden && !locks_between(d, 0, k + 1, p) implies same_at(
        fs0,
        fs_fin,
        p,
    ) by {
        assert(!locks_between(d, 0, k, p)) by {
            if locks_between(d, 0, k, p) {
                let j = choose|j: int| 0 <= j < k && p == #[trigger] d.member_lock(j);
                assert(locks_between(d, 0, k + 1, p));
            }
        }
        assert(d.member_lock(k) == lock_k);
        assert(p != lock_k);
        assert(same_at(fs0, fs_c, p));
        assert(same_at(fs_c, fs_l, p));
    }
}

} // verus!
