use cargo_sync::paths::{join_path, parent_dir};
use cargo_sync::descriptor::{RawMember, build_descriptor};
use cargo_sync::outcome::SyncError;
use cargo_sync::gate::tree_is_dirty;

fn raw(id: &str, name: &str, manifest: &str) -> RawMember {
    RawMember {
        id: id.to_string(),
        name: name.to_string(),
        manifest_path: manifest.to_string(),
    }
}

#[test]
fn join_path_appends_separator_and_name() {
    assert_eq!(join_path("/ws", "Cargo.lock"), "/ws/Cargo.lock");
    assert_eq!(join_path("/ws/a", "Cargo.toml"), "/ws/a/Cargo.toml");
    assert_eq!(join_path("", "Cargo.toml"), "/Cargo.toml");
}

#[test]
fn parent_dir_takes_prefix_before_last_separator() {
    assert_eq!(parent_dir("/ws/a/Cargo.toml"), Some("/ws/a".to_string()));
    assert_eq!(parent_dir("/Cargo.toml"), Some("".to_string()));
    assert_eq!(parent_dir("a/b"), Some("a".to_string()));
    assert_eq!(parent_dir("Cargo.toml"), None);
    assert_eq!(parent_dir(""), None);
}

#[test]
fn build_descriptor_derives_paths_and_directories() {
    let members = vec![
        raw("id-a", "a", "/ws/a/Cargo.toml"),
        raw("id-b", "b", "/ws/b/Cargo.toml"),
    ];
    let d = build_descriptor("/ws".to_string(), members).unwrap_or_else(|_| panic!("expected Ok"));
    assert_eq!(d.root_path, "/ws");
    assert_eq!(d.manifest_path, "/ws/Cargo.toml");
    assert_eq!(d.hidden_path, "/ws/_Cargo_sync_temp.toml");
    assert_eq!(d.lockfile_path, "/ws/Cargo.lock");
    assert_eq!(d.members.len(), 2);
    assert_eq!(d.members[0].id, "id-a");
    assert_eq!(d.members[0].name, "a");
    assert_eq!(d.members[0].directory, "/ws/a");
    assert_eq!(d.members[1].name, "b");
    assert_eq!(d.members[1].directory, "/ws/b");
}

#[test]
fn build_descriptor_rejects_single_member_workspace() {
    let members = vec![raw("id-a", "a", "/ws/a/Cargo.toml")];
    let r = build_descriptor("/ws".to_string(), members);
    assert!(matches!(r, Err(SyncError::TooFewMembers)));
}

#[test]
fn build_descriptor_rejects_empty_workspace() {
    let r = build_descriptor("/ws".to_string(), Vec::new());
    assert!(matches!(r, Err(SyncError::TooFewMembers)));
}

#[test]
fn build_descriptor_rejects_manifest_path_without_directory() {
    let members = vec![
        raw("id-a", "a", "/ws/a/Cargo.toml"),
        raw("id-b", "b", "Cargo.toml"),
    ];
    let r = build_descriptor("/ws".to_string(), members);
    assert!(matches!(r, Err(SyncError::MalformedOutput)));
}

#[test]
fn status_interpretation_is_fail_closed() {
    assert!(!tree_is_dirty(true, true, true));
    assert!(tree_is_dirty(true, true, false));
    assert!(tree_is_dirty(true, false, true));
    assert!(tree_is_dirty(false, true, true));
    assert!(tree_is_dirty(false, false, false));
}
