use prgit::mirror::changes::{
    change_files, change_info, changes_synced, client_files, next_changes_command, related_change,
};
use prgit::mirror::data::{HashMapMirrorData, IntegrateStrategy, MirrorData};
use prgit::mirror::notes::{format_note, note_changes, CommitMetadata};
use prgit::mirror::plan::{
    file_mode, has_git_component, parse_view_mappings, plan_commit, resolve_path_in_repo, FileMode,
    FileOp, P4FileAction, PrintFileInfo, ViewMapping, WhereResult,
};
use prgit::perforce::p4::P4;
use prgit::perforce::types::FileType;

fn w(depot: &str, client: &str) -> WhereResult {
    WhereResult { depot_file: depot.to_string(), client_file: client.to_string() }
}

fn vm(depot: &str, sub: &str) -> ViewMapping {
    ViewMapping { depot_prefix: depot.to_string(), client_subdir: sub.to_string() }
}

#[test]
fn notes_round_trip() {
    let meta = CommitMetadata { change: 1234, old_change: Some(1200), client: "ws".to_string() };
    let note = format_note(&meta);
    assert_eq!(note, "P4-Change: 1234\nP4-Client: ws\nP4-OldChange: 1200");
    assert_eq!(note_changes(&note), vec![1234]);
    let meta = CommitMetadata { change: 7, old_change: None, client: "c".to_string() };
    assert_eq!(format_note(&meta), "P4-Change: 7\nP4-Client: c");
    assert_eq!(note_changes("P4-Change:  42 \nP4-Change: x\nP4-Change: 9"), vec![42, 9]);
}

#[test]
fn view_mappings() {
    let ws = vec![
        w("//depot/main/...", "//ws/..."),
        w("//depot/lib/...", "//ws/lib/..."),
        w("-//depot/main/secret/...", "//ws/secret/..."),
        w("//depot/one.txt", "//ws/one.txt"),
        w("//other/...", "//elsewhere/x/..."),
    ];
    let ms = parse_view_mappings(&ws, "ws");
    assert_eq!(ms.len(), 2);
    assert_eq!(ms[0].depot_prefix, "//depot/main/");
    assert_eq!(ms[0].client_subdir, "");
    assert_eq!(ms[1].depot_prefix, "//depot/lib/");
    assert_eq!(ms[1].client_subdir, "lib/");
}

#[test]
fn resolves_by_longest_prefix() {
    let ms = vec![vm("//depot/", "all/"), vm("//depot/main/", "main/"), vm("//depot/main/src/", "src/")];
    assert_eq!(resolve_path_in_repo(&ms, "//depot/main/src/a.rs").unwrap(), "src/a.rs");
    assert_eq!(resolve_path_in_repo(&ms, "//depot/main/b.txt").unwrap(), "main/b.txt");
    assert_eq!(resolve_path_in_repo(&ms, "//depot/c").unwrap(), "all/c");
    assert!(resolve_path_in_repo(&ms, "//other/c").is_none());
}

#[test]
fn plans_commits() {
    let ms = vec![vm("//depot/", "")];
    let files = vec![
        PrintFileInfo { depot_file: "//depot/a.sh".to_string(), action: P4FileAction::Add, file_type: FileType::text().executable() },
        PrintFileInfo { depot_file: "//depot/link".to_string(), action: P4FileAction::Edit, file_type: FileType::symlink() },
        PrintFileInfo { depot_file: "//depot/old.bin".to_string(), action: P4FileAction::MoveDelete, file_type: FileType::binary() },
        PrintFileInfo { depot_file: "//depot/x/.git/config".to_string(), action: P4FileAction::Add, file_type: FileType::text() },
    ];
    let ops = plan_commit(&ms, &files).unwrap();
    assert!(matches!(&ops[0], FileOp::Upsert { path, mode: FileMode::BlobExecutable } if path == "a.sh"));
    assert!(matches!(&ops[1], FileOp::Upsert { path, mode: FileMode::Link } if path == "link"));
    assert!(matches!(&ops[2], FileOp::Remove { path } if path == "old.bin"));
    assert!(matches!(&ops[3], FileOp::Skip { depot_file } if depot_file == "//depot/x/.git/config"));
    let bad = vec![PrintFileInfo { depot_file: "//elsewhere/f".to_string(), action: P4FileAction::Add, file_type: FileType::text() }];
    assert_eq!(plan_commit(&ms, &bad).err().unwrap(), "//elsewhere/f");
}

#[test]
fn git_components_and_modes() {
    assert!(has_git_component(".git"));
    assert!(has_git_component("a/.git/b"));
    assert!(!has_git_component("a/.gitignore"));
    assert!(!has_git_component("a.git/b"));
    assert_eq!(file_mode(&FileType::text()), FileMode::Blob);
    assert_eq!(file_mode(&FileType::binary().executable()), FileMode::Blob);
}

#[test]
fn in_memory_mirror_data() {
    let mut d = HashMapMirrorData::new("ws".to_string(), IntegrateStrategy::MergeOurs, Some(50));
    assert_eq!(d.last_sync_change(), 0);
    d.set_last_sync_change(17);
    assert_eq!(d.last_sync_change(), 17);
    assert!(d.get_user_email("alice").is_none());
    d.set_user_email("alice", "a@example.com");
    d.set_user_email("alice", "alice@example.com");
    assert_eq!(d.get_user_email("alice").unwrap(), "alice@example.com");
    d.set_branch_mapping(5, "feature".to_string());
    assert_eq!(d.get_related_branch(5).unwrap(), "feature");
    assert!(d.get_related_branch(6).is_none());
    assert_eq!(d.p4_client(), "ws");
    assert_eq!(d.max_changes_query(), Some(50));
    assert_eq!(IntegrateStrategy::from_db(IntegrateStrategy::MergeOurs.to_db()), IntegrateStrategy::MergeOurs);
    assert_eq!(IntegrateStrategy::MergeOurs.to_db(), 0);
}

#[test]
fn next_batch_query() {
    let p4 = P4::new();
    let path = client_files("ws");
    assert_eq!(path, "//ws/...");
    let cmd = next_changes_command(&p4, &path, 41, Some(100));
    let inv = cmd.invocation();
    let a: Vec<&str> = inv.args.iter().map(|s| s.as_str()).collect();
    assert_eq!(a, vec!["-Mj", "-ztag", "changes", "-l", "-e", "42", "-m", "100", "-r", "//ws/..."]);
    assert_eq!(change_files("ws", 9), "//ws/...@=9");
}

#[test]
fn change_reports() {
    assert_eq!(related_change(10, Some(8)), 8);
    assert_eq!(related_change(10, None), 10);
    let info = change_info(10, "abc".to_string(), "bob".to_string(), 3, 5, Some("feat".to_string()), vec![]);
    assert_eq!(info.merge_parent.as_deref(), Some("feat"));
    assert_eq!(info.merge_strategy.as_deref(), Some("merge_ours"));
    let info = change_info(11, "def".to_string(), "bob".to_string(), 0, 1, None, vec![]);
    assert!(info.merge_strategy.is_none());
    assert_eq!(changes_synced(5, 9), 4);
    assert_eq!(changes_synced(9, 5), 0);
}
