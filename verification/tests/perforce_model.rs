use prgit::perforce::p4::{
    classify_failure, json_array_text, ChangeSpec, ChangeType, CmdType, Failure, P4Error, P4,
    RevertCommand,
};
use prgit::perforce::types::{parse_file_type, BaseFileType, ChangeStatus, FileType};

fn args(a: &[String]) -> Vec<&str> {
    a.iter().map(|s| s.as_str()).collect()
}

#[test]
fn file_type_text() {
    assert_eq!(FileType::text().to_p4_string(), "text");
    assert_eq!(FileType::text().executable().compressed().to_p4_string(), "text+x+C");
    assert_eq!(FileType::binary().writable().exclusive_lock().to_p4_string(), "binary+w+l");
    assert_eq!(FileType::symlink().to_p4_string(), "symlink");
    assert_eq!(FileType::utf16().keyword_expansion().full_revisions().rcs_deltas().to_p4_string(), "utf16+k+F+D");
    assert_eq!(FileType::default().to_p4_string(), "");
    assert_eq!(FileType::new(BaseFileType::Apple).base, Some(BaseFileType::Apple));
    assert_eq!(FileType::unicode().to_p4_string(), "unicode");
    assert_eq!(FileType::utf8().to_p4_string(), "utf8");
    assert_eq!(ChangeStatus::Submitted.name(), "submitted");
    assert_eq!(ChangeStatus::Shelved.name(), "shelved");
    assert_eq!(ChangeStatus::Pending.name(), "pending");
}

#[test]
fn test_p4_new() {
    let p4 = P4::new();
    let inv = p4.build_cmd("-h", CmdType::Query);
    assert_eq!(inv.program, "p4");
    assert_eq!(args(&inv.args), vec!["-Mj", "-ztag", "-h"]);
    let info = p4.info().short().invocation();
    assert_eq!(args(&info.args), vec!["-Mj", "-ztag", "info", "-s"]);
    let changes = p4.changes(&[]).long().invocation();
    assert_eq!(args(&changes.args), vec!["-Mj", "-ztag", "changes", "-l"]);
    let spec = ChangeSpec::new(ChangeType::New).description("Test change");
    let set = p4.set_change(&spec).invocation();
    assert_eq!(args(&set.args), vec!["change", "-i"]);
    assert_eq!(set.stdin.unwrap(), "Change: new\n\nDescription:\n\tTest change\n");
    let get = p4.get_change(42).invocation();
    assert_eq!(args(&get.args), vec!["-Mj", "-ztag", "change", "-o", "42"]);
}

#[test]
fn connection_arguments_come_first() {
    let p4 = P4::new().p4_path("/usr/bin/p4").port("ssl:host:1666").p4_user("alice").password("TICKET").client_name("ws");
    let inv = p4.build_cmd("opened", CmdType::FormOutput);
    assert_eq!(inv.program, "/usr/bin/p4");
    assert_eq!(
        args(&inv.args),
        vec!["-c", "ws", "-p", "ssl:host:1666", "-u", "alice", "-P", "TICKET", "-Mj", "-ztag", "opened", "-o"]
    );
    assert_eq!(inv.cmd_type, CmdType::FormOutput);
}

#[test]
fn changes_options() {
    let p4 = P4::new().port("p:1");
    let files = ["//ws/..."];
    let cmd = p4
        .changes(&files)
        .include_integrated()
        .long()
        .since_changelist(11)
        .max_changes(100)
        .status(ChangeStatus::Submitted)
        .user("bob")
        .reverse();
    assert_eq!(
        args(&cmd.invocation().args),
        vec!["-p", "p:1", "-Mj", "-ztag", "changes", "-i", "-l", "-e", "11", "-m", "100", "-s", "submitted", "-u", "bob", "-r", "//ws/..."]
    );
}

#[test]
fn revert_options() {
    let p4 = P4::new();
    let mut cmd = RevertCommand::new(&p4, vec!["//...".to_string()]);
    cmd.changelist = Some(7);
    cmd.keep = true;
    cmd.unchanged = true;
    assert_eq!(args(&cmd.invocation().args), vec!["-Mj", "-ztag", "revert", "-c", "7", "-k", "-a", "//..."]);
}

#[test]
fn change_form_for_numbered_change() {
    let p4 = P4::new();
    let spec = ChangeSpec::new(ChangeType::Number(12)).description("line one\nline two");
    assert_eq!(
        p4.set_change(&spec).invocation().stdin.unwrap(),
        "Change: 12\n\nDescription:\n\tline one\n\tline two\n"
    );
}

#[test]
fn failure_classification() {
    let conn = "Perforce client error:\n\tConnect to server failed; check $P4PORT.\n\tTCP connect failed.";
    assert!(matches!(classify_failure(conn, CmdType::Query), Failure::Known(P4Error::ConnectionFailed)));
    let other = "Perforce client error:\n\tSomething else.";
    assert!(matches!(classify_failure(other, CmdType::Query), Failure::Known(P4Error::Unexpected(ref s)) if s == other));
    assert!(matches!(classify_failure("bad form", CmdType::FormInput), Failure::Known(P4Error::CommandFailed(ref s)) if s == "bad form"));
    assert!(matches!(classify_failure("", CmdType::Query), Failure::InOutput));
}

#[test]
fn json_lines_become_an_array() {
    assert_eq!(json_array_text("{\"a\":1}\n\n  {\"b\":2}  \n"), "[{\"a\":1},{\"b\":2}]");
    assert_eq!(json_array_text(""), "[]");
}

#[test]
fn file_types_read_back() {
    for t in [
        FileType::text(),
        FileType::text().executable().compressed(),
        FileType::binary().writable().keyword_expansion().exclusive_lock().full_revisions().rcs_deltas(),
        FileType::symlink(),
        FileType::new(BaseFileType::Resource),
        FileType::default().executable(),
    ] {
        assert_eq!(parse_file_type(&t.to_p4_string()), Some(t));
    }
    assert_eq!(parse_file_type("text+kx"), Some(FileType::text().keyword_expansion().executable()));
    assert_eq!(parse_file_type("ktext"), None);
    assert_eq!(parse_file_type("text+q"), None);
    assert_eq!(parse_file_type(""), Some(FileType::default()));
}
