use prgit::window::push::shelve_status_answer;
use prgit::shelf::shelver::ShelveResult;
use prgit::window::events::ObservabilityEvent;
use prgit::window::git::RefUpdate;
use prgit::window::push::{
    alias_error_status, branch_ref, branches_to_shelve, check_alias, classify_ref_update, fail_all,
    join, push_branch_events, push_reply, queued_message, ref_branch, shelve_failed_message,
    shelved_message, shelves_after_backend, stored_shelve_state, synced_branch_rejection,
    tracker_key, updates_ref, PushReply, RefChange,
};
use prgit::window::push::{finish_background_shelve, plan_git_request, queue_branches};
use prgit::window::shelves::{ActiveShelves, ShelveState};

const ZERO: &str = "0000000000000000000000000000000000000000";

fn update(old: &str, new: &str, refname: &str) -> RefUpdate {
    RefUpdate { old_sha: old.to_string(), new_sha: new.to_string(), refname: refname.to_string() }
}

#[test]
fn classifies_ref_updates() {
    let a = "a".repeat(40);
    assert_eq!(classify_ref_update(&update(ZERO, &a, "refs/heads/x")), RefChange::Created);
    assert_eq!(classify_ref_update(&update(&a, ZERO, "refs/heads/x")), RefChange::Deleted);
    assert_eq!(classify_ref_update(&update(&a, &a, "refs/heads/x")), RefChange::Updated);
    assert_eq!(ref_branch("refs/heads/feature"), "feature");
    assert_eq!(ref_branch("refs/tags/v1"), "refs/tags/v1");
    assert_eq!(branch_ref("master"), "refs/heads/master");
}

#[test]
fn push_events_name_each_branch() {
    let a = "a".repeat(40);
    let refs = vec![update(ZERO, &a, "refs/heads/new"), update(&a, ZERO, "refs/heads/gone")];
    let events = push_branch_events("alice", "depot/main", &refs, 42);
    assert_eq!(events.len(), 2);
    match &events[0] {
        ObservabilityEvent::PushBranchCreated { timestamp, user, repo, branch } => {
            assert_eq!(*timestamp, 42);
            assert_eq!(user, "alice");
            assert_eq!(repo, "depot/main");
            assert_eq!(branch, "new");
        }
        _ => panic!("expected a created branch"),
    }
    assert!(matches!(&events[1], ObservabilityEvent::PushBranchDeleted { branch, .. } if branch == "gone"));
    assert_eq!(events[1].event_type(), "push.branch_deleted");
}

#[test]
fn shelves_pushed_branches_but_synced_and_deleted() {
    let a = "a".repeat(40);
    let refs = vec![
        update(&a, &a, "refs/heads/master"),
        update(ZERO, &a, "refs/heads/feature"),
        update(&a, ZERO, "refs/heads/old"),
        update(ZERO, &a, "refs/tags/v1"),
        update(&a, &a, "refs/heads/bugfix"),
    ];
    assert_eq!(branches_to_shelve(&refs, "master"), vec!["feature".to_string(), "bugfix".to_string()]);
    assert!(updates_ref(&refs, &branch_ref("master")));
    assert!(!updates_ref(&refs, &branch_ref("main")));
}

#[test]
fn messages() {
    assert_eq!(synced_branch_rejection("master"), "Push to synced branch 'master' is not allowed");
    assert_eq!(queued_message("feat"), "Shelving branch 'feat' in background");
    assert_eq!(shelved_message("feat", 12345, "c-alice-shelve"), "Shelved branch 'feat' as CL 12345 on client 'c-alice-shelve'");
    assert_eq!(shelve_failed_message("feat", "No changes to shelve"), "Failed to shelve branch 'feat': No changes to shelve");
    assert_eq!(tracker_key("depot", "main", "feat"), "depot/main/feat");
    assert_eq!(join(&["a".to_string(), "b".to_string(), "c".to_string()], "\n"), "a\nb\nc");
    assert_eq!(join(&[], ","), "");
}

#[test]
fn push_replies() {
    let errs = vec!["e1".to_string(), "e2".to_string()];
    let msgs = vec!["m1".to_string()];
    match push_reply(&errs, &msgs) {
        PushReply::ShelveFailed(m) => assert_eq!(m, "Push succeeded but shelving failed:\ne1\ne2"),
        _ => panic!("expected a failure"),
    }
    match push_reply(&[], &msgs) {
        PushReply::WithMessages(m) => assert_eq!(m, "m1"),
        _ => panic!("expected messages"),
    }
    assert!(matches!(push_reply(&[], &[]), PushReply::AsIs));
    assert!(shelves_after_backend(true, 200, true));
    assert!(!shelves_after_backend(true, 403, true));
    assert!(!shelves_after_backend(false, 200, true));
    assert!(!shelves_after_backend(true, 200, false));
}

#[test]
fn alias_checks() {
    assert_eq!(check_alias(None, "bob", 10).unwrap_err(), "Shelved CL 10 not found");
    assert_eq!(check_alias(Some("alice"), "bob", 10).unwrap_err(), "Only the shelver (alice) can create aliases for CL 10");
    assert!(check_alias(Some("bob"), "bob", 10).is_ok());
    assert_eq!(alias_error_status("Shelved CL 10 not found"), 404);
    assert_eq!(alias_error_status("Client id=3 not found"), 404);
    assert_eq!(alias_error_status("Only the shelver (alice) can create aliases for CL 10"), 403);
    assert_eq!(alias_error_status("Database error: locked"), 500);
}

#[test]
fn stored_states() {
    assert!(stored_shelve_state(None, Some("x".to_string())).is_none());
    match stored_shelve_state(Some(5), None) {
        Some(ShelveState::Done { changelist, client }) => {
            assert_eq!(changelist, 5);
            assert_eq!(client, "");
        }
        _ => panic!("expected done"),
    }
}

#[test]
fn failing_all_branches_keeps_other_keys() {
    let mut active = ActiveShelves::new();
    active.set_queued("depot/main/other");
    fail_all(&mut active, "depot", "main", &["a".to_string(), "b".to_string()], "Database error: x");
    for key in ["depot/main/a", "depot/main/b"] {
        match active.get(key) {
            Some(ShelveState::Failed { error }) => assert_eq!(error, "Database error: x"),
            _ => panic!("expected failed"),
        }
    }
    assert!(matches!(active.get("depot/main/other"), Some(ShelveState::Queued)));
}

#[test]
fn shelve_result_flags_reshelve() {
    let r = ShelveResult { changelist: 1, client_name: "c".to_string(), is_reshelve: true, file_count: 2, commits_in_branch: 3 };
    assert!(r.is_reshelve);
}

#[test]
fn clone_and_fetch_need_no_credentials() {
    let fetch = plan_git_request("/depot/main.git/info/refs").unwrap();
    assert_eq!(fetch.repo_key, "depot/main");
    assert_eq!(fetch.git_path, "/info/refs");
    assert!(!fetch.receive_pack);
    assert!(!fetch.needs_auth);
    let push = plan_git_request("/depot/main.git/git-receive-pack").unwrap();
    assert!(push.receive_pack);
    assert!(push.needs_auth);
    assert!(plan_git_request("/api/health").is_none());
}

#[test]
fn queued_branches_are_tracked_and_announced() {
    let mut active = ActiveShelves::new();
    active.set_done("depot/main/old", 7, "c".to_string());
    let branches = vec!["a".to_string(), "b".to_string()];
    let messages = queue_branches(&mut active, "depot", "main", &branches);
    assert_eq!(messages, vec!["Shelving branch 'a' in background", "Shelving branch 'b' in background"]);
    assert!(matches!(active.get("depot/main/a"), Some(ShelveState::Queued)));
    assert!(matches!(active.get("depot/main/b"), Some(ShelveState::Queued)));
    assert!(matches!(active.get("depot/main/old"), Some(ShelveState::Done { changelist: 7, .. })));
}

#[test]
fn background_shelve_ends_done_or_failed() {
    let mut active = ActiveShelves::new();
    active.set_shelving("depot/main/a");
    let ok = ShelveResult {
        changelist: 42,
        client_name: "prgit-shelve-bob".to_string(),
        is_reshelve: false,
        file_count: 3,
        commits_in_branch: 1,
    };
    let e = finish_background_shelve(&mut active, "depot/main/a", 5, "bob", "depot/main", "a", Ok(ok), 9);
    assert!(matches!(e, ObservabilityEvent::ShelveCompleted { changelist: 42, is_async: true, .. }));
    match active.get("depot/main/a") {
        Some(ShelveState::Done { changelist, client }) => {
            assert_eq!(changelist, 42);
            assert_eq!(client, "prgit-shelve-bob");
        }
        _ => panic!("expected done"),
    }
    let e = finish_background_shelve(&mut active, "depot/main/b", 5, "bob", "depot/main", "b", Err("boom".to_string()), 9);
    match e {
        ObservabilityEvent::ShelveFailed { error, is_async, branch, .. } => {
            assert_eq!(error, "boom");
            assert!(is_async);
            assert_eq!(branch, "b");
        }
        _ => panic!("expected a failed event"),
    }
    assert!(matches!(active.get("depot/main/b"), Some(ShelveState::Failed { .. })));
}

#[test]
fn status_prefers_the_tracker() {
    let stored = Some(ShelveState::Done { changelist: 3, client: "c".to_string() });
    assert!(matches!(shelve_status_answer(Some(ShelveState::Queued), stored), Some(ShelveState::Queued)));
    let stored = Some(ShelveState::Done { changelist: 3, client: "c".to_string() });
    assert!(matches!(shelve_status_answer(None, stored), Some(ShelveState::Done { changelist: 3, .. })));
    assert!(shelve_status_answer(None, None).is_none());
}
