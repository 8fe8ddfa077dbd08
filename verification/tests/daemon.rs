use bao::daemon::error::Error;
use bao::daemon::harness::{Harness, HarnessError, HarnessRegistry, Pi, waiting_from_text};
use bao::daemon::hostname::resolve;
use bao::daemon::registry::{Registry, RootLookup};
use bao::daemon::workspace::WorkspaceRegistry;
use bao::registry_entry::RegistryEntry;
use bao::types::Command;

fn found(path: &str) -> RootLookup {
    RootLookup {
        canonical: Ok(path.to_string()),
        is_dir: true,
    }
}

fn profile_lookup() -> RootLookup {
    RootLookup {
        canonical: Ok(String::new()),
        is_dir: true,
    }
}

#[test]
fn every_known_harness_is_reachable() {
    let names = HarnessRegistry::known_names();
    assert!(names.contains(&"pi"), "pi must be registered");
    assert!(names.contains(&"fallback"), "fallback must be registered");
}

#[test]
fn sanitize_matches_pi_key_format() {
    let pi = Pi;
    assert_eq!(pi.sanitize("/a/b/c"), "--a-b-c--");
    assert_eq!(pi.sanitize("/Users/x/dev/bao"), "--Users-x-dev-bao--");
    assert_eq!(pi.sanitize("relative/path"), "--relative-path--");
}

#[test]
fn resume_args_is_none_without_session_files() {
    let pi = Pi;
    // `/nonexistent/bao-test-xyz` can never have a pi session directory: no
    // session files to choose from.
    let files: Vec<String> = Vec::new();
    assert_eq!(pi.resume_args(&files), None);
}

#[test]
fn resume_args_names_the_newest_session_file() {
    let pi = Pi;
    let files = vec![
        "2024-01-01_a.jsonl".to_string(),
        "notes.txt".to_string(),
        "2024-03-01_b.jsonl".to_string(),
    ];
    assert_eq!(
        pi.resume_args(&files),
        Some(vec!["--session".to_string(), "2024-03-01_b.jsonl".to_string()])
    );
}

#[test]
fn identifies_pi_by_command() {
    let pi = Pi;
    assert!(pi.matches(&Command::parse("pi --model x").unwrap()));
    assert!(!pi.matches(&Command::parse("codex").unwrap()));
}

#[test]
fn resolve_is_never_empty() {
    assert!(!resolve(None, None, None).as_str().is_empty());
    assert!(!resolve(Some(String::new()), None, None).as_str().is_empty());
    assert_eq!(resolve(None, Some("  box-7\n".to_string()), None).as_str(), "box-7");
    assert_eq!(resolve(Some(String::new()), Some("box\n".to_string()), None).as_str(), "box");
    assert_eq!(resolve(None, Some(" \n".to_string()), Some("env-host".to_string())).as_str(), "env-host");
}

#[test]
fn upsert_remove_and_resolve_by_kind() {
    let mut reg = Registry::in_memory();
    let ws = RegistryEntry::workspace("myapp", "/tmp/reg/app").unwrap();
    reg.put(ws, found("/tmp/reg/app")).unwrap();
    assert_eq!(reg.resolve_workspace("myapp"), Some("/tmp/reg/app".to_string()));

    let moved = RegistryEntry::profile("myapp", vec!["pi".into()]).unwrap();
    reg.put(moved, profile_lookup()).unwrap();
    assert!(reg.resolve_workspace("myapp").is_none());
    assert_eq!(reg.resolve_profile("myapp"), Some(vec!["pi".to_string()]));
    assert_eq!(reg.list().len(), 1);

    reg.remove("myapp").unwrap();
    assert!(reg.resolve_profile("myapp").is_none());
    assert!(matches!(reg.remove("myapp"), Err(Error::UnknownAlias(a)) if a == "myapp"));
}

#[test]
fn workspace_validation_still_applies() {
    let mut reg = Registry::in_memory();
    let absent = RootLookup {
        canonical: Err("No such file or directory (os error 2)".to_string()),
        is_dir: false,
    };
    assert!(matches!(
        reg.put(RegistryEntry::workspace("nope", "/r/absent").unwrap(), absent),
        Err(Error::BadWorkspacePath(p, _)) if p == "/r/absent"
    ));
    let file = RootLookup {
        canonical: Ok("/r/file.txt".to_string()),
        is_dir: false,
    };
    assert!(matches!(
        reg.put(RegistryEntry::workspace("file", "/r/file.txt").unwrap(), file),
        Err(Error::BadWorkspacePath(p, why)) if p == "/r/file.txt" && why == "not a directory"
    ));
    reg.put(RegistryEntry::workspace("app", "/r/app/").unwrap(), found("/r/app"))
        .unwrap();
    assert!(matches!(
        reg.put(RegistryEntry::workspace("again", "/r/app").unwrap(), found("/r/app")),
        Err(Error::WorkspacePathTaken(p, a)) if p == "/r/app" && a == "app"
    ));
    // The stored root is the canonical one.
    assert_eq!(reg.resolve_workspace("app"), Some("/r/app".to_string()));
}

#[test]
fn registry_lists_sorted_by_alias() {
    let mut reg = Registry::in_memory();
    for alias in ["zeta", "alpha", "mid"] {
        reg.put(RegistryEntry::profile(alias, vec!["pi".into()]).unwrap(), profile_lookup())
            .unwrap();
    }
    let aliases: Vec<&str> = reg.list().iter().map(|e| e.alias.as_str()).collect();
    assert_eq!(aliases, ["alpha", "mid", "zeta"]);
}

#[test]
fn folds_legacy_rows() {
    let mut reg = Registry::in_memory();
    let folded = reg.fold_legacy(
        vec![("app".to_string(), "/r/backend".to_string()), ("bad alias".to_string(), "/x".to_string())],
        vec![
            ("review".to_string(), Some("pi --model fast".to_string())),
            ("broken".to_string(), Some(String::new())),
            ("odd".to_string(), None),
        ],
    );
    assert!(folded);
    assert_eq!(reg.resolve_workspace("app"), Some("/r/backend".to_string()));
    assert_eq!(
        reg.resolve_profile("review").unwrap(),
        vec!["pi".to_string(), "--model".to_string(), "fast".to_string()]
    );
    assert!(reg.resolve_profile("broken").is_none(), "unparseable skipped");
    assert!(reg.resolve_profile("odd").is_none());
    assert_eq!(reg.entries().len(), 2);
    let mut empty = Registry::in_memory();
    assert!(!empty.fold_legacy(Vec::new(), Vec::new()));
}

#[test]
fn folds_the_legacy_profiles_file_text() {
    let mut reg = Registry::in_memory();
    let text = r#"{"review": "pi --model fast", "odd": 3, "broken": "", "zed": "codex"}"#;
    assert!(reg.fold_legacy_text(Vec::new(), Some(text.to_string())));
    let aliases: Vec<&str> = reg.entries().iter().map(|e| e.alias.as_str()).collect();
    assert_eq!(aliases, ["review", "zed"]);
    assert_eq!(
        reg.resolve_profile("review").unwrap(),
        vec!["pi".to_string(), "--model".to_string(), "fast".to_string()]
    );
    let mut none = Registry::in_memory();
    assert!(!none.fold_legacy_text(Vec::new(), Some("not json".to_string())));
    assert!(!none.fold_legacy_text(Vec::new(), Some("[\"pi\"]".to_string())));
    assert!(!none.fold_legacy_text(Vec::new(), None));
    assert!(none.fold_legacy_text(vec![("app".to_string(), "/r".to_string())], None));
    assert_eq!(none.resolve_workspace("app"), Some("/r".to_string()));
}

#[test]
fn add_resolve_remove_roundtrip() {
    let mut reg = WorkspaceRegistry::in_memory();
    let ws = reg.add("myapp", "/tmp/ws/app", found("/tmp/ws/app")).unwrap();
    assert_eq!(ws.alias, "myapp");
    assert!(ws.root.ends_with("app"));
    assert_eq!(reg.resolve("myapp").unwrap().root, ws.root);
    assert_eq!(reg.list().len(), 1);
    reg.remove("myapp").unwrap();
    assert!(reg.resolve("myapp").is_none());
    assert!(matches!(reg.remove("myapp"), Err(Error::UnknownWorkspace(_))));
}

#[test]
fn duplicate_alias_and_path_rejected() {
    let mut reg = WorkspaceRegistry::in_memory();
    reg.add("app", "/w/app", found("/w/app")).unwrap();
    assert!(matches!(
        reg.add("app", "/w/app", found("/w/app")),
        Err(Error::DuplicateWorkspace(_))
    ));
    assert!(matches!(
        reg.add("again", "/w/app", found("/w/app")),
        Err(Error::WorkspacePathTaken(_, a)) if a == "app"
    ));
}

#[test]
fn missing_or_file_roots_rejected() {
    let mut reg = WorkspaceRegistry::in_memory();
    let absent = RootLookup {
        canonical: Err("not found".to_string()),
        is_dir: false,
    };
    assert!(matches!(
        reg.add("nope", "/w/absent", absent),
        Err(Error::BadWorkspacePath(p, _)) if p == "/w/absent"
    ));
    let file = RootLookup {
        canonical: Ok("/w/file.txt".to_string()),
        is_dir: false,
    };
    assert!(reg.add("file", "/w/file.txt", file).is_err());
    assert!(matches!(
        reg.add("has space", "/w/ok", found("/w/ok")),
        Err(Error::Domain(bao::error::Error::BadAlias(_)))
    ));
    assert!(reg.list().is_empty());
}

#[test]
fn workspace_list_is_sorted_by_alias() {
    let mut reg = WorkspaceRegistry::in_memory();
    reg.add("web", "/w/web", found("/w/web")).unwrap();
    reg.add("api", "/w/api", found("/w/api")).unwrap();
    let aliases: Vec<&str> = reg.list().iter().map(|w| w.alias.as_str()).collect();
    assert_eq!(aliases, ["api", "web"]);
}

fn cmd(s: &str) -> Command {
    Command::parse(s).unwrap()
}

#[test]
fn identify_resolves_known_harnesses() {
    assert_eq!(HarnessRegistry::identify(&cmd("pi --config x")).name(), "pi");
}

#[test]
fn identify_falls_back_for_unknown_commands() {
    assert_eq!(HarnessRegistry::identify(&cmd("aider -p hi")).name(), "fallback");
    assert_eq!(HarnessRegistry::identify(&cmd("codex exec")).name(), "fallback");
}

#[test]
fn fallback_is_honest_about_capabilities() {
    let f = Harness::Fallback;
    assert_eq!(f.resume_args(&vec!["/s/2024-01-01.jsonl".to_string()]), None);
    assert_eq!(f.waiting_for_input(&Vec::new()), None);
    assert!(f.pack().is_err());
    assert!(f.unpack(&[]).is_err());
    assert_eq!(
        HarnessError::Unsupported("pack").message(),
        "this harness cannot pack"
    );
}

fn msg(role: &str, last_block: &str) -> String {
    format!(
        "{{\"message\":{{\"content\":[{{\"text\":\"x\",\"type\":\"text\"}},{{\"type\":\"{last_block}\",\"x\":1}}],\"role\":\"{role}\"}},\"type\":\"message\"}}"
    )
}

#[test]
fn waiting_is_proven_only_by_an_assistant_text_turn() {
    assert_eq!(waiting_from_text(&msg("assistant", "text")), Some(true));
    assert_eq!(waiting_from_text(&msg("assistant", "toolCall")), Some(false));
    assert_eq!(waiting_from_text(&msg("assistant", "thinking")), Some(false));
    assert_eq!(waiting_from_text(&msg("user", "text")), Some(false));
    assert_eq!(
        waiting_from_text(
            "{\"message\":{\"content\":[{\"type\":\"text\"}],\"role\":\"toolResult\"},\"type\":\"message\"}"
        ),
        Some(false)
    );
}

#[test]
fn waiting_is_none_without_a_message_line() {
    assert_eq!(waiting_from_text(""), None);
    assert_eq!(waiting_from_text("{\"type\":\"session_info\"}"), None);
    // A trailing non-message line must not shadow the real last message.
    let log = format!("{}\n{}", msg("assistant", "text"), "{\"type\":\"session_info\"}");
    assert_eq!(waiting_from_text(&log), Some(true));
}

#[test]
fn waiting_reads_trimmed_lines() {
    let log = format!("  {}  \n", msg("assistant", "text"));
    assert_eq!(waiting_from_text(&log), Some(true));
}

#[test]
fn home_migrates_the_old_working_copy_directory_once() {
    let home = bao::daemon::home::Home::new("/h");
    assert_eq!(
        home.migration(true, false),
        Some(("/h/workspaces".to_string(), "/h/working-copies".to_string()))
    );
    assert_eq!(home.migration(true, true), None);
    assert_eq!(home.migration(false, false), None);
}
