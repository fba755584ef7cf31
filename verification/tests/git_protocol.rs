use prgit::window::git::{git_error_body, inject_sideband_messages, parse_ref_updates, RefUpdate};
use prgit::window::push::{git_service, is_receive_pack, path_info, route_git_path};

fn pkt_line(payload: &str) -> String {
    format!("{:04x}{}\n", payload.len() + 5, payload)
}

#[test]
fn parses_one_ref_update() {
    let old = "0000000000000000000000000000000000000000";
    let new = "1111111111111111111111111111111111111111";
    let update = format!("{old} {new} refs/heads/feature\0report-status side-band-64k");
    let mut body = pkt_line(&update).into_bytes();
    body.extend_from_slice(b"0000");
    let refs = parse_ref_updates(&body);
    assert_eq!(refs.len(), 1);
    assert_eq!(refs[0].old_sha, old);
    assert_eq!(refs[0].new_sha, new);
    assert_eq!(refs[0].refname, "refs/heads/feature");
}

#[test]
fn parses_two_ref_updates_and_stops_at_flush() {
    let a = format!("{} {} refs/heads/a", "1".repeat(40), "2".repeat(40));
    let b = format!("{} {} refs/heads/b", "3".repeat(40), "0".repeat(40));
    let mut body = pkt_line(&a).into_bytes();
    body.extend_from_slice(pkt_line(&b).as_bytes());
    body.extend_from_slice(b"0000PACK....");
    let refs = parse_ref_updates(&body);
    let names: Vec<&str> = refs.iter().map(|r: &RefUpdate| r.refname.as_str()).collect();
    assert_eq!(names, vec!["refs/heads/a", "refs/heads/b"]);
    assert_eq!(refs[1].new_sha, "0".repeat(40));
}

#[test]
fn garbage_body_has_no_ref_updates() {
    assert!(parse_ref_updates(b"not a packet line").is_empty());
    assert!(parse_ref_updates(b"").is_empty());
}

#[test]
fn error_body_is_err_packets_then_flush() {
    let body = git_error_body("Push to synced branch 'master' is not allowed");
    let line = "ERR Push to synced branch 'master' is not allowed";
    let expected = format!("{:04x}\x03{}0000", line.len() + 5, line);
    assert_eq!(body, expected.into_bytes());
}

#[test]
fn error_body_has_one_packet_per_line() {
    let body = git_error_body("first\nsecond");
    let expected = format!("{:04x}\x03ERR first{:04x}\x03ERR second0000", 14, 15);
    assert_eq!(String::from_utf8(body).unwrap(), expected);
}

#[test]
fn sideband_messages_go_before_last_flush() {
    let body = b"000eunpack ok\n0000".to_vec();
    let out = inject_sideband_messages(&body, "Shelved branch 'x' as CL 7 on client 'c'");
    let msg = "remote: Shelved branch 'x' as CL 7 on client 'c'\n";
    let expected = format!("000eunpack ok\n{:04x}\x02{}0000", msg.len() + 5, msg);
    assert_eq!(String::from_utf8(out).unwrap(), expected);
}

#[test]
fn sideband_messages_without_flush_leave_body() {
    let body = b"no flush here".to_vec();
    assert_eq!(inject_sideband_messages(&body, "hello"), body);
}

#[test]
fn routes_repository_paths() {
    let r = route_git_path("/depot/main.git/info/refs").unwrap();
    assert_eq!(r.repo_key, "depot/main");
    assert_eq!(r.git_path, "/info/refs");
    let r = route_git_path("/depot/main.git/git-receive-pack").unwrap();
    assert!(is_receive_pack(&r.git_path));
    assert!(route_git_path("/depot/main/info/refs").is_none());
    assert!(route_git_path("/api/health").is_none());
}

#[test]
fn routes_first_git_marker() {
    let r = route_git_path("/a.git/b.git/x").unwrap();
    assert_eq!(r.repo_key, "a");
    assert_eq!(r.git_path, "/b.git/x");
}

#[test]
fn services_and_path_info() {
    assert_eq!(git_service(true), "receive-pack");
    assert_eq!(git_service(false), "upload-pack");
    assert!(!is_receive_pack("/info/refs"));
    assert_eq!(path_info("main.git", "/info/refs"), "/main.git/info/refs");
}
