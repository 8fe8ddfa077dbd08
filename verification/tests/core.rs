use std::collections::VecDeque;
use std::str::FromStr;

use bao::alert::{Alert, AlertInput, IDLE_ALERT_SECS, idle_secs};
use bao::event::{EventKind, fold_status};
use bao::lifecycle::LifecycleEvent;
use bao::registry_entry::{MAX_ALIAS, RegistryEntry, Workspace};
use bao::sandbox::SandboxKind;
use bao::error::Error;
use bao::types::{Clock, Command, Hostname, SessionId, Status, TermStrExt};

fn input(status: Status, idle_secs: u64) -> AlertInput {
    AlertInput { status, idle_secs }
}

#[test]
fn running_and_active_is_quiet() {
    assert_eq!(input(Status::Running, 5).alert(), None);
}

#[test]
fn running_and_idle_gets_alert() {
    assert_eq!(
        input(Status::Running, IDLE_ALERT_SECS).alert(),
        Some(Alert::Idle(IDLE_ALERT_SECS))
    );
    assert_eq!(input(Status::Running, 120).alert(), Some(Alert::Idle(120)));
}

#[test]
fn fresh_silent_agent_is_not_idle() {
    assert_eq!(input(Status::Running, 0).alert(), None);
}

#[test]
fn errored_exit_needs_alert() {
    assert_eq!(
        input(Status::Exited(Some(1)), 0).alert(),
        Some(Alert::Errored(1))
    );
}

#[test]
fn clean_exit_is_done() {
    assert_eq!(input(Status::Exited(Some(0)), 0).alert(), Some(Alert::Done));
    assert_eq!(input(Status::Exited(None), 0).alert(), Some(Alert::Done));
}

#[test]
fn interrupted_needs_action() {
    assert_eq!(
        input(Status::Interrupted, 0).alert(),
        Some(Alert::Interrupted)
    );
}

#[test]
fn damaged_is_flagged_above_all() {
    assert_eq!(input(Status::Damaged, 0).alert(), Some(Alert::Damaged));
}

#[test]
fn moved_is_quiet() {
    assert_eq!(input(Status::Moved, 0).alert(), None);
}

#[test]
fn idle_secs_uses_whole_seconds() {
    assert_eq!(idle_secs(1_000_000, 1_100_000), 100);
    assert_eq!(idle_secs(1_000_000, 1_000_500), 0);
    assert_eq!(idle_secs(0, 1_000_000), 0, "never output -> 0");
}

#[test]
fn rank_orders_alert() {
    assert!(Alert::Damaged.rank() < Alert::Errored(1).rank());
    assert!(Alert::Errored(1).rank() < Alert::Interrupted.rank());
    assert!(Alert::Interrupted.rank() < Alert::Idle(1).rank());
    assert!(Alert::Idle(1).rank() < Alert::Done.rank());
}

#[test]
fn transition_table_accepts_legal_cells() {
    assert_eq!(Status::Preparing.apply(&LifecycleEvent::Spawned).unwrap(), Status::Starting);
    assert_eq!(Status::Starting.apply(&LifecycleEvent::Output).unwrap(), Status::Running);
    assert_eq!(
        Status::Running.apply(&LifecycleEvent::Output).unwrap(),
        Status::Running,
        "steady state"
    );
    assert_eq!(
        Status::Starting.apply(&LifecycleEvent::Exited(Some(1))).unwrap(),
        Status::Exited(Some(1))
    );
    assert_eq!(
        Status::Interrupted.apply(&LifecycleEvent::Spawned).unwrap(),
        Status::Starting
    );
    assert_eq!(
        Status::Running.apply(&LifecycleEvent::Interrupted).unwrap(),
        Status::Interrupted
    );
    assert_eq!(Status::Running.apply(&LifecycleEvent::Damaged).unwrap(), Status::Damaged);
}

#[test]
fn transition_table_rejects_illegal_cells() {
    assert!(Status::Preparing.apply(&LifecycleEvent::Output).is_err());
    assert!(Status::Interrupted.apply(&LifecycleEvent::Output).is_err());
    assert!(Status::Exited(Some(1)).apply(&LifecycleEvent::Output).is_err());
    assert!(Status::Running.apply(&LifecycleEvent::Spawned).is_err());
    assert!(Status::Starting.apply(&LifecycleEvent::Spawned).is_err());
    assert!(Status::Exited(Some(1)).apply(&LifecycleEvent::Spawned).is_err());
    assert!(Status::Damaged.apply(&LifecycleEvent::Spawned).is_err());
}

#[test]
fn fold_is_lenient_on_illegal_events() {
    let state = Status::Preparing.fold(vec![LifecycleEvent::Output, LifecycleEvent::Spawned, LifecycleEvent::Output]);
    assert_eq!(state, Status::Running);
}

#[test]
fn registry_accepts_typable_aliases() {
    for alias in ["myapp", "a", "web-api", "under_score", "2nd.project"] {
        assert!(RegistryEntry::workspace(alias, "/tmp/x").is_ok(), "{alias}");
    }
}

#[test]
fn rejects_untypable_aliases_and_empty_argv() {
    for alias in [
        "",
        " ",
        "has space",
        "slash/ed",
        "back\\slash",
        "tab\there",
        &"x".repeat(MAX_ALIAS + 1),
    ] {
        assert!(
            RegistryEntry::workspace(alias, "/tmp/x").is_err(),
            "{alias:?}"
        );
    }
    assert!(RegistryEntry::profile("ok", vec![]).is_err());
    assert!(RegistryEntry::profile("ok", vec![String::new()]).is_err());
}

#[test]
fn kind_accessors_report_the_payload() {
    let ws = RegistryEntry::workspace("myapp", "/home/u/dev/myapp").unwrap();
    assert!(ws.is_workspace());
    assert!(!ws.is_profile());
    assert_eq!(ws.root().map(|p| p.as_str()), Some("/home/u/dev/myapp"));
    assert!(ws.argv().is_none());

    let pf = RegistryEntry::profile("review", vec!["pi".into(), "--model".into(), "o".into()])
        .unwrap();
    assert!(pf.is_profile());
    assert_eq!(
        pf.argv(),
        Some(&["pi".to_string(), "--model".to_string(), "o".to_string()][..])
    );
    assert!(pf.root().is_none());
}

#[test]
fn sandbox_kind_parses_and_displays() {
    assert_eq!(SandboxKind::parse("inplace").unwrap(), SandboxKind::InPlace);
    assert_eq!(SandboxKind::parse("worktree").unwrap(), SandboxKind::Worktree);
    assert_eq!(
        SandboxKind::parse("bubblewrap").unwrap(),
        SandboxKind::Bubblewrap
    );
    assert_eq!(SandboxKind::parse("seatbelt").unwrap(), SandboxKind::Seatbelt);
    assert!(SandboxKind::parse("container").is_err());
    assert_eq!(SandboxKind::InPlace.name(), "inplace");
    assert_eq!(SandboxKind::Bubblewrap.name(), "bubblewrap");
    assert_eq!(SandboxKind::Seatbelt.name(), "seatbelt");
}

#[test]
fn hostname_parse_rejects_non_names() {
    assert!(Hostname::parse("").is_err());
    assert!(Hostname::parse("   ").is_err());
    assert!(Hostname::parse("my host").is_err());
    assert!(Hostname::parse("my\u{0}host").is_err());
}

#[test]
fn hostname_parse_trims_and_accepts_valid() {
    let h = Hostname::parse("  my-host  ").unwrap();
    assert_eq!(h.as_str(), "my-host");
    assert_eq!(h.as_str().to_string(), "my-host");
    assert_eq!(Hostname::from_str("vps-01").unwrap().as_str(), "vps-01");
}

#[test]
fn workspace_accepts_typable_aliases() {
    for alias in ["myapp", "a", "web-api", "under_score", "2nd.project"] {
        assert!(Workspace::new(alias, "/tmp/x").is_ok(), "{alias}");
    }
}

#[test]
fn rejects_untypable_aliases() {
    for alias in [
        "",
        " ",
        "has space",
        "slash/ed",
        "back\\slash",
        "tab\there",
        &"x".repeat(MAX_ALIAS + 1),
    ] {
        assert!(Workspace::new(alias, "/tmp/x").is_err(), "{alias:?}");
    }
}

#[test]
fn fold_derives_status_and_applies_honesty() {
    let full = VecDeque::from(vec![
        (1u64, EventKind::Status(Status::Starting)),
        (2u64, EventKind::Output(b"hi".to_vec())),
        (3u64, EventKind::Status(Status::Exited(Some(3)))),
    ]);
    assert_eq!(fold_status(&full), Status::Exited(Some(3)));

    let booting = VecDeque::from(vec![
        (1u64, EventKind::Status(Status::Starting)),
        (2u64, EventKind::Output(b"hi".to_vec())),
    ]);
    assert_eq!(fold_status(&booting), Status::Interrupted);

    let bare = VecDeque::from(vec![(1u64, EventKind::Output(b"hi".to_vec()))]);
    assert_eq!(fold_status(&bare), Status::Interrupted);
}

#[test]
fn strip_ansi_removes_csi_and_osc() {
    assert_eq!("\u{1b}[31mred\u{1b}[0m".strip_ansi(), "red");
    assert_eq!("\u{1b}]0;title\u{07}body".strip_ansi(), "body");
    assert_eq!("plain".strip_ansi(), "plain");
    assert_eq!("a\u{1b}[1;2;3Hb".strip_ansi(), "ab");
}

#[test]
fn truncate_adds_an_ellipsis_only_when_cut() {
    assert_eq!("hello".truncate(10), "hello");
    assert_eq!("hello world".truncate(5), "hello…");
}

#[test]
fn agent_command_parse_round_trips() {
    let c = Command::parse("bash -c 'echo READY; do echo \"got:$x\"; done'").unwrap();
    assert_eq!(
        c.as_args(),
        &[
            "bash".to_string(),
            "-c".to_string(),
            "echo READY; do echo \"got:$x\"; done".to_string()
        ]
    );
    assert!(Command::parse("   ").is_err());
}

#[test]
fn command_displays_its_words_joined() {
    let c = Command::parse("pi --model  fast").unwrap();
    assert_eq!(c.display(), "pi --model fast");
    assert_eq!(c.first(), "pi");
}

#[test]
fn session_ids_are_short_fresh_lowercase_hex() {
    let a = SessionId::generate();
    let b = SessionId::generate();
    for id in [&a, &b] {
        assert_eq!(id.as_str().len(), 8);
        assert!(id.as_str().chars().all(|c| c.is_ascii_digit() || ('a'..='f').contains(&c)));
    }
    assert_ne!(a, b);
}

#[test]
fn system_clock_reads_the_epoch_time() {
    assert!(Clock::system().now_ms() > 1_600_000_000_000);
    assert_eq!(Clock::Fixed(42).now_ms(), 42);
}

#[test]
fn validation_errors_quote_the_offending_text() {
    assert_eq!(
        Error::BadAlias("has space".to_string()).message(),
        "invalid alias: \"has space\""
    );
    assert_eq!(
        Error::BadHostname("a\tb".to_string()).message(),
        "invalid hostname: \"a\\tb\""
    );
}
