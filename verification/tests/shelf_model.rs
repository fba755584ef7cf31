use prgit::perforce::types::FileType;
use prgit::shelf::client::{
    apply_git_type_to_depot, changelist_plan, needs_reopen, ChangelistPlan, FileAction,
    ShelveDescriptionMode,
};
use prgit::shelf::pool::{
    file_at_change, is_lock_file, lock_path, only_up_to_date, replace, shelve_client_name,
    shelve_client_root, shelve_client_view, ClientMapping, ShelveClientError,
};
use prgit::shelf::shelver::{
    action_for_delta, changed_file, file_changes, ignored_add_decision, is_executable_mode,
    is_ignored_add, load_prgitignore, needs_content, retain_not_ignored, shelve_description,
    shelve_result, ChangedFile, DeltaStatus, ShelverError,
};

#[test]
fn edit_preserves_depot_modifiers() {
    let depot = FileType::text().compressed().keyword_expansion().exclusive_lock();
    let git = FileType::text();
    assert_eq!(apply_git_type_to_depot(&depot, &git), depot);
    assert!(!needs_reopen(&depot, &git));
}

#[test]
fn edit_adding_executable_preserves_other_modifiers() {
    let depot = FileType::text().compressed();
    let git = FileType::text().executable();
    let r = apply_git_type_to_depot(&depot, &git);
    assert_eq!(r, FileType::text().executable().compressed());
    assert_eq!(r.to_p4_string(), "text+x+C");
    assert!(needs_reopen(&depot, &git));
}

#[test]
fn edit_removing_executable_preserves_other_modifiers() {
    let depot = FileType::text().executable().keyword_expansion();
    let git = FileType::text();
    assert_eq!(apply_git_type_to_depot(&depot, &git), FileType::text().keyword_expansion());
}

#[test]
fn base_type_change_takes_git_type() {
    let depot = FileType::text().compressed();
    let git = FileType::symlink();
    assert_eq!(apply_git_type_to_depot(&depot, &git), git);
}

#[test]
fn reshelve_plans() {
    assert_eq!(
        changelist_plan(Some(9), ShelveDescriptionMode::Update),
        ChangelistPlan::Reuse { changelist: 9, update_description: true }
    );
    assert_eq!(
        changelist_plan(Some(9), ShelveDescriptionMode::KeepOriginal),
        ChangelistPlan::Reuse { changelist: 9, update_description: false }
    );
    assert_eq!(changelist_plan(None, ShelveDescriptionMode::Update), ChangelistPlan::Create);
    assert_eq!(ShelveDescriptionMode::default(), ShelveDescriptionMode::Update);
}

#[test]
fn workspace_names_and_paths() {
    assert_eq!(shelve_client_name("prgit-mirror", "jsmith"), "prgit-mirror-jsmith-shelve");
    assert_eq!(shelve_client_root("/data/shelve_clients", "c"), "/data/shelve_clients/c");
    assert_eq!(lock_path("/data/shelve_clients/c"), "/data/shelve_clients/c/.prgit.lock");
    assert!(is_lock_file(".prgit.lock"));
    assert!(!is_lock_file("file.txt"));
    assert_eq!(file_at_change("c", "dir/a.txt", 12), "//c/dir/a.txt@12");
}

#[test]
fn workspace_view_moves_client_side() {
    let view = vec![
        ClientMapping { depot: "//depot/main/...".to_string(), client: "//base/...".to_string() },
        ClientMapping { depot: "//depot/lib/...".to_string(), client: "//base/lib/...".to_string() },
    ];
    let v = shelve_client_view(&view, "base", "base-bob-shelve");
    assert_eq!(v[0].depot, "//depot/main/...");
    assert_eq!(v[0].client, "//base-bob-shelve/...");
    assert_eq!(v[1].client, "//base-bob-shelve/lib/...");
    assert_eq!(replace("aXbXc", "X", "--"), "a--b--c");
    assert_eq!(replace("aaa", "aa", "b"), "ba");
    assert_eq!(replace("abc", "", "X"), "XaXbXcX");
    assert_eq!(replace("", "", "X"), "X");
}

#[test]
fn up_to_date_sync_is_no_failure() {
    assert!(only_up_to_date(&["//c/a@1 - file(s) up-to-date.".to_string()]));
    assert!(!only_up_to_date(&["no such file".to_string()]));
    assert!(!only_up_to_date(&[]));
}

#[test]
fn diff_entries_to_changes() {
    assert_eq!(action_for_delta(DeltaStatus::Added), Some(FileAction::Add));
    assert_eq!(action_for_delta(DeltaStatus::Deleted), Some(FileAction::Delete));
    assert_eq!(action_for_delta(DeltaStatus::Renamed), Some(FileAction::Edit));
    assert_eq!(action_for_delta(DeltaStatus::Typechange), Some(FileAction::Edit));
    assert_eq!(action_for_delta(DeltaStatus::Unmodified), None);
    let c = changed_file(DeltaStatus::Deleted, None, Some("old.txt".to_string())).unwrap();
    assert_eq!(c.path, "old.txt");
    assert!(changed_file(DeltaStatus::Ignored, Some("x".to_string()), None).is_none());
    let changes = vec![ChangedFile { path: "a".to_string(), action: FileAction::Edit }];
    let fc = file_changes(&changes);
    assert_eq!(fc[0].path, "a");
    assert!(needs_content(FileAction::Add));
    assert!(!needs_content(FileAction::Delete));
    assert!(is_executable_mode(0o100755));
    assert!(!is_executable_mode(0o100644));
    assert_eq!(shelve_description(None), "Shelved from git");
    assert_eq!(shelve_description(Some("msg\n")), "msg\n");
    let r = shelve_result(3, "c".to_string(), Some(1), 2, 5);
    assert!(r.is_reshelve);
    assert!(!shelve_result(3, "c".to_string(), None, 2, 5).is_reshelve);
}

#[test]
fn test_prgitignore_skips_matching_adds() {
    let gi = load_prgitignore(Some(b"*.log\nlocal/\n")).unwrap().unwrap();
    let changes = vec![
        ChangedFile { path: ".prgitignore".to_string(), action: FileAction::Add },
        ChangedFile { path: "keep.txt".to_string(), action: FileAction::Add },
        ChangedFile { path: "debug.log".to_string(), action: FileAction::Add },
        ChangedFile { path: "local/notes.md".to_string(), action: FileAction::Add },
    ];
    assert!(!is_ignored_add(&gi, &changes[0]));
    assert!(!is_ignored_add(&gi, &changes[1]));
    assert!(is_ignored_add(&gi, &changes[2]));
    assert!(is_ignored_add(&gi, &changes[3]));
    let kept = retain_not_ignored(&gi, changes);
    let mut names: Vec<&str> = kept.iter().map(|c| c.path.as_str()).collect();
    names.sort();
    assert_eq!(names, vec![".prgitignore", "keep.txt"]);
}

#[test]
fn test_prgitignore_does_not_filter_edits() {
    let gi = load_prgitignore(Some(b"*.log\n")).unwrap().unwrap();
    let changes = vec![
        ChangedFile { path: ".prgitignore".to_string(), action: FileAction::Add },
        ChangedFile { path: "tracked.log".to_string(), action: FileAction::Edit },
    ];
    let kept = retain_not_ignored(&gi, changes);
    let mut names: Vec<&str> = kept.iter().map(|c| c.path.as_str()).collect();
    names.sort();
    assert_eq!(names, vec![".prgitignore", "tracked.log"]);
    assert!(ignored_add_decision(FileAction::Add, "x.log", true));
    assert!(!ignored_add_decision(FileAction::Delete, "x.log", true));
    assert!(!ignored_add_decision(FileAction::Add, ".prgitignore", true));
}

#[test]
fn prgitignore_loading() {
    assert!(load_prgitignore(None).unwrap().is_none());
    match load_prgitignore(Some(&[0xff, 0xfe])) {
        Err(ShelverError::InvalidPrgitignore(_)) => {}
        _ => panic!("expected invalid prgitignore"),
    }
    assert_eq!(ShelverError::NoChanges.message(), "No changes to shelve");
    assert_eq!(ShelverError::InvalidPrgitignore("line 1: x".to_string()).message(), "Invalid .prgitignore: line 1: x");
    assert_eq!(ShelveClientError::ClientBusy.message(), "Client is busy (locked by another operation)");
}

#[test]
fn prgitignore_comments_blank_lines_and_bad_lines() {
    let gi = load_prgitignore(Some(b"# build output\n\n*.log\r\n")).unwrap().unwrap();
    let log = ChangedFile { path: "out/debug.log".to_string(), action: FileAction::Add };
    let src = ChangedFile { path: "src/main.rs".to_string(), action: FileAction::Add };
    assert!(is_ignored_add(&gi, &log));
    assert!(!is_ignored_add(&gi, &src));
    let only_comments = load_prgitignore(Some(b"# nothing\n")).unwrap().unwrap();
    assert!(!is_ignored_add(&only_comments, &log));
    match load_prgitignore(Some(b"*.log\n{a\n")) {
        Err(ShelverError::InvalidPrgitignore(m)) => assert!(m.starts_with("line 2: ")),
        _ => panic!("expected the second line to be refused"),
    }
}
