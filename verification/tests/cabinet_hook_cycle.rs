use prgit::window::cycle::{cycle_end_events, MirrorCycleResult};
use prgit::cabinet::config::P4Config;
use prgit::cabinet::tables::{PrgitClientInfo, Table, TicketMetadata};
use prgit::cabinet::tickets::{authenticated_p4, check_expiry, key_parts, keyring_username, ticket_expired, TicketStoreError};
use prgit::hook::{hook_branch, hook_script, is_all_zero};
use prgit::mirror::changes::change_info;
use prgit::shelf::shelver::shelve_result;
use prgit::sync_engine::SyncError;
use prgit::text::split_words;
use prgit::util::paths::join;
use prgit::window::cycle::{
    cycle_events, get_last_sync, merge_candidates, merged_info, retention_cutoff_ms,
    shelve_done_event, shelve_started_events,
};
use prgit::window::events::ObservabilityEvent;
use prgit::perforce::p4::CmdType;

#[test]
fn ticket_keys() {
    assert_eq!(keyring_username("ssl:host:1666", "alice"), "ssl:host:1666:alice");
    assert_eq!(key_parts("localhost:bob"), ("localhost".to_string(), "bob".to_string()));
    assert_eq!(key_parts("nocolon"), ("".to_string(), "nocolon".to_string()));
    let k = keyring_username("perforce", "carol");
    assert_eq!(key_parts(&k), ("perforce".to_string(), "carol".to_string()));
}

#[test]
fn is_expired_with_future_expiry() {
    assert!(!check_expiry(Some(2_000), 1_000, "p", "u").unwrap());
}

#[test]
fn is_expired_with_past_expiry() {
    assert!(check_expiry(Some(500), 1_000, "p", "u").unwrap());
    assert!(ticket_expired(1_000, 1_000));
}

#[test]
fn is_expired_no_metadata() {
    match check_expiry(None, 1_000, "p", "u") {
        Err(TicketStoreError::NoTicketStored { p4port, p4user }) => {
            assert_eq!(p4port, "p");
            assert_eq!(p4user, "u");
        }
        _ => panic!("expected no ticket"),
    }
}

#[test]
fn authenticated_connections() {
    let p4 = authenticated_p4(false, Ok("TICKET".to_string()), "p:1", "u").ok().unwrap();
    let a: Vec<String> = p4.build_cmd("info", CmdType::Query).args;
    assert_eq!(a, vec!["-p", "p:1", "-u", "u", "-P", "TICKET", "-Mj", "-ztag", "info"]);
    assert!(matches!(authenticated_p4(true, Ok("T".to_string()), "p", "u"), Err(TicketStoreError::TicketExpired { .. })));
    assert!(matches!(
        authenticated_p4(false, Err(TicketStoreError::KeyringUnavailable("x".to_string())), "p", "u"),
        Err(TicketStoreError::KeyringUnavailable(_))
    ));
}

#[test]
fn client_connections() {
    let cfg = P4Config { client_name: "ws".to_string(), p4_path: "p4".to_string(), p4port: "h:1".to_string(), p4user: "".to_string() };
    let a = cfg.p4_default_user().build_cmd("info", CmdType::Query).args;
    assert_eq!(a, vec!["-c", "ws", "-p", "h:1", "-Mj", "-ztag", "info"]);
    let a = cfg.p4().build_cmd("info", CmdType::Query).args;
    assert_eq!(a, vec!["-c", "ws", "-p", "h:1", "-u", "", "-Mj", "-ztag", "info"]);
}

#[test]
fn schemas_name_their_tables() {
    assert!(PrgitClientInfo::schema().contains("CREATE TABLE IF NOT EXISTS prgit_clients"));
    assert!(TicketMetadata::schema().contains("PRIMARY KEY (p4port, p4user)"));
}

#[test]
fn hook_lines() {
    let a = "a".repeat(40);
    let z = "0".repeat(40);
    assert_eq!(hook_branch(&format!("{a} {a} refs/heads/feature"), "master").unwrap(), "feature");
    assert!(hook_branch(&format!("{a} {z} refs/heads/feature"), "master").is_none());
    assert!(hook_branch(&format!("{a} {a} refs/heads/master"), "master").is_none());
    assert!(hook_branch(&format!("{a} {a} refs/tags/v1"), "master").is_none());
    assert!(hook_branch(&format!("{a} {a}"), "master").is_none());
    assert!(is_all_zero("000"));
    assert!(!is_all_zero("010"));
    assert_eq!(
        hook_script("/bin/poc", "/repo", "ws"),
        "#!/bin/bash\n\"/bin/poc\" hook --repo-path \"/repo\" --client \"ws\"\n"
    );
    assert_eq!(split_words("  a\tb  c "), vec!["a".to_string(), "b".to_string(), "c".to_string()]);
}

#[test]
fn paths_join() {
    assert_eq!(join("/a", "b"), "/a/b");
    assert_eq!(join("/a/", "b"), "/a/b");
    assert_eq!(join("", "b"), "b");
    assert_eq!(join("/a", "/b"), "/b");
}

#[test]
fn sync_errors() {
    assert_eq!(SyncError::InvalidState("Not implemented".to_string()).message(), "Invalid state: Not implemented");
}

#[test]
fn mirror_cycle_events() {
    let infos = vec![
        change_info(10, "h1".to_string(), "bob".to_string(), 2, 5, Some("feat".to_string()), vec!["//d/.git/x".to_string()]),
        change_info(11, "h2".to_string(), "amy".to_string(), 1, 3, None, vec![]),
    ];
    let cands = merge_candidates(&infos);
    assert_eq!(cands, vec![("feat".to_string(), 10)]);
    let merged = vec![merged_info("feat".to_string(), 10, Some(7), None).unwrap()];
    assert!(merged_info("x".to_string(), 10, None, None).is_none());
    let events = cycle_events(99, "depot/main", &infos, &merged, 2, 11, 1234);
    let kinds: Vec<&str> = events.iter().map(|e| e.event_type()).collect();
    assert_eq!(
        kinds,
        vec!["mirror.change_committed", "mirror.file_skipped", "mirror.change_committed", "shelve.merged", "mirror.cycle_completed"]
    );
    match &events[1] {
        ObservabilityEvent::MirrorFileSkipped { depot_path, reason, p4_change, .. } => {
            assert_eq!(depot_path, "//d/.git/x");
            assert_eq!(reason, ".git path component");
            assert_eq!(*p4_change, 10);
        }
        _ => panic!("expected skipped file"),
    }
    assert_eq!(events[3].user(), Some(""));
    assert_eq!(events[4].user(), None);
    assert_eq!(events[4].repo(), "depot/main");
    assert_eq!(events[4].timestamp(), 99);
    assert_eq!(get_last_sync(Some(5)), 5);
    assert_eq!(get_last_sync(None), 0);
}

#[test]
fn shelve_events() {
    let started = shelve_started_events(1, "u", "r", &["a".to_string(), "b".to_string()], true);
    assert_eq!(started.len(), 2);
    assert!(matches!(&started[1], ObservabilityEvent::ShelveStarted { branch, is_async: true, .. } if branch == "b"));
    let done = shelve_done_event(2, "u", "r", "a", &shelve_result(5, "c".to_string(), Some(4), 1, 1), 10, false);
    assert_eq!(done.event_type(), "shelve.reshelved");
    let done = shelve_done_event(2, "u", "r", "a", &shelve_result(5, "c".to_string(), None, 1, 1), 10, false);
    assert_eq!(done.event_type(), "shelve.completed");
    assert_eq!(retention_cutoff_ms(100 * 86_400_000, 30), 70 * 86_400_000);
}

#[test]
fn mirror_cycle_end_events() {
    let failed = cycle_end_events(5, "depot/main", Err("p4 down".to_string()), 12);
    assert_eq!(failed.len(), 1);
    match &failed[0] {
        ObservabilityEvent::MirrorCycleFailed { timestamp, repo, error, duration_ms } => {
            assert_eq!(*timestamp, 5);
            assert_eq!(repo, "depot/main");
            assert_eq!(error, "p4 down");
            assert_eq!(*duration_ms, 12);
        }
        _ => panic!("expected a failed cycle"),
    }
    let done = MirrorCycleResult { last_change: 9, changes_synced: 2, change_infos: Vec::new(), merged: Vec::new() };
    let events = cycle_end_events(5, "depot/main", Ok(done), 12);
    assert_eq!(events.len(), 1);
    assert!(matches!(
        events[0],
        ObservabilityEvent::MirrorCycleCompleted { changes_synced: 2, new_last_sync: 9, duration_ms: 12, .. }
    ));
}
