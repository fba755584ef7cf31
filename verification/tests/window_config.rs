use prgit::shelf::client::ShelveDescriptionMode;
use prgit::window::config::{ObservabilityConfig, RepoConfig, ServerConfig, ShelveSettings};
use prgit::window::shelves::{ActiveShelves, ShelveState};

fn repo(shelve: Option<ShelveSettings>) -> RepoConfig {
    RepoConfig {
        group: "depot".to_string(),
        name: "main".to_string(),
        p4port: "localhost:1666".to_string(),
        p4client: "test".to_string(),
        synced_branch: "master".to_string(),
        mirror_interval_secs: 30,
        max_changes: 100,
        shelve,
    }
}

fn text(v: &serde_yaml::Value, key: &str) -> String {
    v.get(key).and_then(|x| x.as_str()).expect("missing text field").to_string()
}

fn number(v: &serde_yaml::Value, key: &str) -> u64 {
    v.get(key).and_then(|x| x.as_u64()).expect("missing number field")
}

/// Reads the server configuration the way the server's file format does:
/// an absent `shelve` section is none, an absent `async` is false, an
/// absent `description` is `update`.
fn config_from_yaml(yaml: &str) -> ServerConfig {
    let v: serde_yaml::Value = serde_yaml::from_str(yaml).unwrap();
    let repos = v
        .get("repos")
        .and_then(|r| r.as_sequence())
        .expect("missing repos")
        .iter()
        .map(|r| RepoConfig {
            group: text(r, "group"),
            name: text(r, "name"),
            p4port: text(r, "p4port"),
            p4client: text(r, "p4client"),
            synced_branch: text(r, "synced_branch"),
            mirror_interval_secs: number(r, "mirror_interval_secs"),
            max_changes: number(r, "max_changes") as usize,
            shelve: r.get("shelve").map(|s| ShelveSettings {
                is_async: s.get("async").and_then(|a| a.as_bool()).unwrap_or(false),
                description: match s.get("description").and_then(|d| d.as_str()) {
                    None | Some("update") => ShelveDescriptionMode::Update,
                    Some("keep_original") => ShelveDescriptionMode::KeepOriginal,
                    Some(other) => panic!("unknown description mode {other}"),
                },
            }),
        })
        .collect();
    ServerConfig {
        listen: text(&v, "listen"),
        data_dir: text(&v, "data_dir"),
        repos,
        observability: ObservabilityConfig::default(),
    }
}

#[test]
fn test_config_without_shelve_section() {
    let yaml = r#"
listen: "127.0.0.1:8080"
data_dir: "/tmp/test"
repos:
  - group: depot
    name: main
    p4port: "localhost:1666"
    p4client: test
    synced_branch: master
    mirror_interval_secs: 30
    max_changes: 100
"#;
    let config = config_from_yaml(yaml);
    assert!(!config.repos[0].shelve_async());
    assert!(config.repos[0].shelve.is_none());
}

#[test]
fn test_config_with_shelve_async_true() {
    let yaml = r#"
listen: "127.0.0.1:8080"
data_dir: "/tmp/test"
repos:
  - group: depot
    name: main
    p4port: "localhost:1666"
    p4client: test
    synced_branch: master
    mirror_interval_secs: 30
    max_changes: 100
    shelve:
      async: true
"#;
    let config = config_from_yaml(yaml);
    assert!(config.repos[0].shelve_async());
}

#[test]
fn test_config_with_shelve_async_false() {
    let yaml = r#"
listen: "127.0.0.1:8080"
data_dir: "/tmp/test"
repos:
  - group: depot
    name: main
    p4port: "localhost:1666"
    p4client: test
    synced_branch: master
    mirror_interval_secs: 30
    max_changes: 100
    shelve:
      async: false
"#;
    let config = config_from_yaml(yaml);
    assert!(!config.repos[0].shelve_async());
}

#[test]
fn test_config_with_empty_shelve_section() {
    let yaml = r#"
listen: "127.0.0.1:8080"
data_dir: "/tmp/test"
repos:
  - group: depot
    name: main
    p4port: "localhost:1666"
    p4client: test
    synced_branch: master
    mirror_interval_secs: 30
    max_changes: 100
    shelve: {}
"#;
    let config = config_from_yaml(yaml);
    assert!(!config.repos[0].shelve_async());
}

#[test]
fn test_config_shelve_description_defaults_to_update() {
    let yaml = r#"
listen: "127.0.0.1:8080"
data_dir: "/tmp/test"
repos:
  - group: depot
    name: main
    p4port: "localhost:1666"
    p4client: test
    synced_branch: master
    mirror_interval_secs: 30
    max_changes: 100
    shelve:
      async: true
"#;
    let config = config_from_yaml(yaml);
    assert_eq!(config.repos[0].shelve_description_mode(), ShelveDescriptionMode::Update);
}

#[test]
fn test_config_shelve_description_keep_original() {
    let yaml = r#"
listen: "127.0.0.1:8080"
data_dir: "/tmp/test"
repos:
  - group: depot
    name: main
    p4port: "localhost:1666"
    p4client: test
    synced_branch: master
    mirror_interval_secs: 30
    max_changes: 100
    shelve:
      description: keep_original
"#;
    let config = config_from_yaml(yaml);
    assert_eq!(config.repos[0].shelve_description_mode(), ShelveDescriptionMode::KeepOriginal);
}

#[test]
fn test_config_shelve_description_update_explicit() {
    let yaml = r#"
listen: "127.0.0.1:8080"
data_dir: "/tmp/test"
repos:
  - group: depot
    name: main
    p4port: "localhost:1666"
    p4client: test
    synced_branch: master
    mirror_interval_secs: 30
    max_changes: 100
    shelve:
      description: update
"#;
    let config = config_from_yaml(yaml);
    assert_eq!(config.repos[0].shelve_description_mode(), ShelveDescriptionMode::Update);
}

#[test]
fn test_config_no_shelve_section_defaults_description_to_update() {
    let yaml = r#"
listen: "127.0.0.1:8080"
data_dir: "/tmp/test"
repos:
  - group: depot
    name: main
    p4port: "localhost:1666"
    p4client: test
    synced_branch: master
    mirror_interval_secs: 30
    max_changes: 100
"#;
    let config = config_from_yaml(yaml);
    assert_eq!(config.repos[0].shelve_description_mode(), ShelveDescriptionMode::Update);
}

#[test]
fn test_active_shelves_state_transitions() {
    let mut tracker = ActiveShelves::new();
    assert!(tracker.get("depot/main/feature").is_none());

    // queued → shelving → done
    tracker.set_queued("depot/main/feature");
    assert!(matches!(tracker.get("depot/main/feature"), Some(ShelveState::Queued)));

    tracker.set_shelving("depot/main/feature");
    assert!(matches!(tracker.get("depot/main/feature"), Some(ShelveState::Shelving)));

    tracker.set_done("depot/main/feature", 12345, "client-1".to_string());
    match tracker.get("depot/main/feature") {
        Some(ShelveState::Done { changelist, client }) => {
            assert_eq!(changelist, 12345);
            assert_eq!(client, "client-1");
        }
        _ => panic!("Expected Done"),
    }

    // queued → shelving → failed
    tracker.set_queued("depot/main/bugfix");
    tracker.set_shelving("depot/main/bugfix");
    tracker.set_failed("depot/main/bugfix", "P4 error".to_string());
    match tracker.get("depot/main/bugfix") {
        Some(ShelveState::Failed { error }) => assert_eq!(error, "P4 error"),
        _ => panic!("Expected Failed"),
    }
}

#[test]
fn observability_defaults() {
    let c = ObservabilityConfig::default();
    assert_eq!(c.channel_capacity, 4096);
    assert_eq!(c.retention_days, 30);
    assert_eq!(ObservabilityConfig::default_channel_capacity(), 4096);
    assert_eq!(ObservabilityConfig::default_retention_days(), 30);
}

#[test]
fn repo_paths() {
    let r = repo(None);
    assert_eq!(r.url_path(), "depot/main");
    assert_eq!(r.bare_repo_path("/var/lib/prgit"), "/var/lib/prgit/repos/depot/main.git");
    assert_eq!(r.bare_repo_path("/var/lib/prgit/"), "/var/lib/prgit/repos/depot/main.git");
}
