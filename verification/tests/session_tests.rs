use cargo_sync::session::{Config, State, Action, Event, init, step};
use cargo_sync::descriptor::RawMember;
use cargo_sync::outcome::SyncError;

fn raw(id: &str, name: &str, manifest: &str) -> RawMember {
    RawMember {
        id: id.to_string(),
        name: name.to_string(),
        manifest_path: manifest.to_string(),
    }
}

fn two_members_loaded() -> Event {
    Event::WorkspaceLoaded {
        root: "/ws".to_string(),
        members: vec![
            raw("id-a", "a", "/ws/a/Cargo.toml"),
            raw("id-b", "b", "/ws/b/Cargo.toml"),
        ],
    }
}

fn expect_report(a: Action) -> cargo_sync::outcome::Outcome {
    match a {
        Action::Report { outcome } => outcome,
        _ => panic!("expected a report"),
    }
}

#[test]
fn clean_two_member_run_issues_exact_actions() {
    let config = Config { allow_dirty: false, offline: false };
    let (s, a) = init(&config);
    assert!(matches!(a, Action::QueryStatus));

    let (s, a) = step(&config, s, Event::StatusChecked { ran: true, exit_ok: true, clean: true });
    assert!(matches!(a, Action::QueryWorkspace { offline: false }));

    let (s, a) = step(&config, s, two_members_loaded());
    match &a {
        Action::ConcealManifest { from, to } => {
            assert_eq!(from, "/ws/Cargo.toml");
            assert_eq!(to, "/ws/_Cargo_sync_temp.toml");
        },
        _ => panic!("expected the concealment rename"),
    }

    let (s, a) = step(&config, s, Event::Renamed { ok: true });
    match &a {
        Action::CopyLockfile { from, to } => {
            assert_eq!(from, "/ws/Cargo.lock");
            assert_eq!(to, "/ws/a/Cargo.lock");
        },
        _ => panic!("expected the copy onto member a"),
    }

    let (s, a) = step(&config, s, Event::Copied { ok: true });
    match &a {
        Action::ResolveMember { directory, offline } => {
            assert_eq!(directory, "/ws/a");
            assert!(!offline);
        },
        _ => panic!("expected the resolution of member a"),
    }

    let (s, a) = step(&config, s, Event::MemberResolved { ok: true });
    match &a {
        Action::CopyLockfile { from, to } => {
            assert_eq!(from, "/ws/Cargo.lock");
            assert_eq!(to, "/ws/b/Cargo.lock");
        },
        _ => panic!("expected the copy onto member b"),
    }

    let (s, a) = step(&config, s, Event::Copied { ok: true });
    match &a {
        Action::ResolveMember { directory, .. } => assert_eq!(directory, "/ws/b"),
        _ => panic!("expected the resolution of member b"),
    }

    let (s, a) = step(&config, s, Event::MemberResolved { ok: true });
    match &a {
        Action::RestoreManifest { from, to } => {
            assert_eq!(from, "/ws/_Cargo_sync_temp.toml");
            assert_eq!(to, "/ws/Cargo.toml");
        },
        _ => panic!("expected the restoration rename"),
    }

    let (_s, a) = step(&config, s, Event::Restored { ok: true });
    let outcome = expect_report(a);
    assert!(outcome.succeeded());
    assert!(outcome.primary.is_none());
    assert!(!outcome.restore_failed);
}

#[test]
fn dirty_tree_without_override_aborts_before_any_mutation() {
    let config = Config { allow_dirty: false, offline: false };
    let (s, a) = init(&config);
    assert!(matches!(a, Action::QueryStatus));
    let (_s, a) = step(&config, s, Event::StatusChecked { ran: true, exit_ok: true, clean: false });
    let outcome = expect_report(a);
    assert!(matches!(outcome.primary, Some(SyncError::DirtyTree)));
    assert!(!outcome.succeeded());
}

#[test]
fn failing_status_check_counts_as_dirty() {
    let config = Config { allow_dirty: false, offline: false };
    let (s, _a) = init(&config);
    let (_s, a) = step(&config, s, Event::StatusChecked { ran: false, exit_ok: false, clean: false });
    let outcome = expect_report(a);
    assert!(matches!(outcome.primary, Some(SyncError::DirtyTree)));
}

#[test]
fn override_flag_skips_the_status_query() {
    let config = Config { allow_dirty: true, offline: false };
    let (s, a) = init(&config);
    assert!(matches!(a, Action::QueryWorkspace { offline: false }));
    assert!(matches!(s, State::AwaitWorkspace));
}

#[test]
fn offline_flag_is_forwarded_to_both_metadata_calls() {
    let config = Config { allow_dirty: true, offline: true };
    let (s, a) = init(&config);
    assert!(matches!(a, Action::QueryWorkspace { offline: true }));
    let (s, _a) = step(&config, s, two_members_loaded());
    let (s, _a) = step(&config, s, Event::Renamed { ok: true });
    let (_s, a) = step(&config, s, Event::Copied { ok: true });
    assert!(matches!(a, Action::ResolveMember { offline: true, .. }));
}

#[test]
fn single_member_workspace_aborts_before_any_mutation() {
    let config = Config { allow_dirty: true, offline: false };
    let (s, _a) = init(&config);
    let loaded = Event::WorkspaceLoaded {
        root: "/ws".to_string(),
        members: vec![raw("id-a", "a", "/ws/a/Cargo.toml")],
    };
    let (_s, a) = step(&config, s, loaded);
    let outcome = expect_report(a);
    assert!(matches!(outcome.primary, Some(SyncError::TooFewMembers)));
}

#[test]
fn failed_workspace_query_aborts_clearly() {
    // An earlier run interrupted before restoration leaves the manifest
    // under its sentinel name; the workspace-scope query then fails, and
    // the run must abort clearly before touching anything.
    let config = Config { allow_dirty: true, offline: false };
    let (s, _a) = init(&config);
    let (_s, a) = step(&config, s, Event::WorkspaceFailed);
    let outcome = expect_report(a);
    assert!(matches!(outcome.primary, Some(SyncError::MetadataFailed)));
}

#[test]
fn failed_concealment_ends_the_run_without_restoration() {
    let config = Config { allow_dirty: true, offline: false };
    let (s, _a) = init(&config);
    let (s, _a) = step(&config, s, two_members_loaded());
    let (_s, a) = step(&config, s, Event::Renamed { ok: false });
    let outcome = expect_report(a);
    assert!(matches!(outcome.primary, Some(SyncError::ConcealFailed)));
}

#[test]
fn failed_copy_names_the_member_and_still_restores() {
    let config = Config { allow_dirty: true, offline: false };
    let (s, _a) = init(&config);
    let (s, _a) = step(&config, s, two_members_loaded());
    let (s, _a) = step(&config, s, Event::Renamed { ok: true });
    let (s, a) = step(&config, s, Event::Copied { ok: false });
    assert!(matches!(a, Action::RestoreManifest { .. }));
    let (_s, a) = step(&config, s, Event::Restored { ok: true });
    let outcome = expect_report(a);
    match outcome.primary {
        Some(SyncError::CopyFailed { member }) => assert_eq!(member, "a"),
        _ => panic!("expected the copy failure for member a"),
    }
    assert!(!outcome.restore_failed);
}

#[test]
fn failure_at_second_member_keeps_first_and_restores() {
    let config = Config { allow_dirty: true, offline: false };
    let (s, _a) = init(&config);
    let (s, _a) = step(&config, s, two_members_loaded());
    let (s, _a) = step(&config, s, Event::Renamed { ok: true });
    // member a: copied and resolved
    let (s, _a) = step(&config, s, Event::Copied { ok: true });
    let (s, a) = step(&config, s, Event::MemberResolved { ok: true });
    // member b: copied, but its resolution fails
    match &a {
        Action::CopyLockfile { to, .. } => assert_eq!(to, "/ws/b/Cargo.lock"),
        _ => panic!("expected the copy onto member b"),
    }
    let (s, _a) = step(&config, s, Event::Copied { ok: true });
    let (s, a) = step(&config, s, Event::MemberResolved { ok: false });
    // the loop stops: the next action is the restoration, not another copy
    match &a {
        Action::RestoreManifest { from, to } => {
            assert_eq!(from, "/ws/_Cargo_sync_temp.toml");
            assert_eq!(to, "/ws/Cargo.toml");
        },
        _ => panic!("expected the restoration rename"),
    }
    let (_s, a) = step(&config, s, Event::Restored { ok: true });
    let outcome = expect_report(a);
    match &outcome.primary {
        Some(SyncError::MemberResolveFailed { member }) => assert_eq!(member, "b"),
        _ => panic!("expected the resolution failure for member b"),
    }
    assert!(!outcome.restore_failed);
    assert!(!outcome.succeeded());
}

#[test]
fn failed_restoration_is_surfaced_even_on_a_clean_loop() {
    let config = Config { allow_dirty: true, offline: false };
    let (s, _a) = init(&config);
    let (s, _a) = step(&config, s, two_members_loaded());
    let (s, _a) = step(&config, s, Event::Renamed { ok: true });
    let (s, _a) = step(&config, s, Event::Copied { ok: true });
    let (s, _a) = step(&config, s, Event::MemberResolved { ok: true });
    let (s, _a) = step(&config, s, Event::Copied { ok: true });
    let (s, _a) = step(&config, s, Event::MemberResolved { ok: true });
    let (_s, a) = step(&config, s, Event::Restored { ok: false });
    let outcome = expect_report(a);
    assert!(outcome.primary.is_none());
    assert!(outcome.restore_failed);
    assert!(!outcome.succeeded());
}
