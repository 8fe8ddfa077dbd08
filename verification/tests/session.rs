use bao::alert::Alert;
use bao::daemon::error::Error;
use bao::daemon::manager::{SessionKey, list_order, resolve_session};
use bao::daemon::session::{
    FoundDir, META_FORMAT, ProcessSlots, SessionSpec, SessionState, SessionStore, StoredMeta, restore_store,
    restored_identity,
};
use bao::daemon::session_log::{
    LOG_CAP, LogScan, SessionLog, lines_of, load_log_text, log_line, output_snippet,
    parse_status_json, push_status_json,
};
use bao::daemon::server::SessionStream;
use bao::event::{EventKind, SessionEvent};
use bao::protocol::FromHost;
use bao::lifecycle::LifecycleEvent;
use bao::sandbox::WorkingCopy;
use bao::types::{Clock, Command, Hostname, SessionId, Status, TerminalSize};

fn sid(s: &str) -> SessionId {
    SessionId::new(s)
}

fn spec(id: &str, command: &str, clock: Clock) -> SessionSpec {
    SessionSpec {
        id: sid(id),
        name: None,
        command: Command::parse(command).unwrap(),
        workspace: WorkingCopy::in_place("/tmp/w"),
        size: TerminalSize { cols: 80, rows: 24 },
        clock,
    }
}

fn host() -> Hostname {
    Hostname::parse("box").unwrap()
}

#[test]
fn log_line_reads_back_as_the_same_entry() {
    let out = log_line(1, 1000, &EventKind::Output(b"hello\r\n".to_vec()));
    assert!(out.starts_with("{\"crc\":"));
    assert!(out.ends_with("\"kind\":\"output\",\"seq\":1,\"ts\":1000}\n"));
    let st = log_line(2, 2000, &EventKind::Status(Status::Exited(Some(-3))));
    let text = format!("{out}{st}");
    let loaded = load_log_text(&text);
    assert_eq!(loaded.corrupt_lines, 0);
    assert_eq!(loaded.log.len(), 2);
    assert_eq!(loaded.log[0], (1, EventKind::Output(b"hello\r\n".to_vec())));
    assert_eq!(loaded.log[1], (2, EventKind::Status(Status::Exited(Some(-3)))));
    assert_eq!(loaded.last_seq, 2);
    assert_eq!(loaded.first_ts, 1000);
    assert_eq!(loaded.last_ts, 2000);
    assert_eq!(loaded.last_output, Some(b"hello\r\n".to_vec()));
}

#[test]
fn log_line_is_checksummed_base64_json() {
    assert_eq!(
        log_line(1, 5, &EventKind::Output(b"hi".to_vec())),
        "{\"crc\":2214720590,\"data\":\"aGk=\",\"kind\":\"output\",\"seq\":1,\"ts\":5}\n"
    );
    assert_eq!(
        log_line(2, 6, &EventKind::Status(Status::Running)),
        "{\"crc\":2387016010,\"kind\":\"status\",\"seq\":2,\"status\":\"running\",\"ts\":6}\n"
    );
}

#[test]
fn snippet_replaces_invalid_utf8() {
    assert_eq!(output_snippet(b"ok \xff done"), "ok \u{FFFD} done");
}

#[test]
fn load_log_counts_checksum_corruption() {
    let good = log_line(1, 1000, &EventKind::Output(b"hello\r\n".to_vec()));
    let bad = log_line(2, 2000, &EventKind::Output(b"world\r\n".to_vec()))
        .replace("d29ybGQNCg==", "AAAAAAAA");
    let text = format!("{good}{bad}not json\n");
    let loaded = load_log_text(&text);
    assert_eq!(loaded.log.len(), 1, "the good line survives");
    assert_eq!(loaded.corrupt_lines, 1, "the tampered line is counted");
    let missing = load_log_text("{\"seq\":1,\"ts\":1,\"data\":\"aGk=\"}\n");
    assert_eq!(missing.corrupt_lines, 1, "a line without a crc is corrupt");
    let empty = load_log_text("");
    assert!(empty.log.is_empty());
    assert_eq!(empty.first_ts, 0);
}

#[test]
fn status_json_round_trips() {
    for st in [
        Status::Preparing,
        Status::Starting,
        Status::Running,
        Status::Exited(Some(0)),
        Status::Exited(Some(-2147483648)),
        Status::Exited(Some(2147483647)),
        Status::Exited(None),
        Status::Interrupted,
        Status::Damaged,
        Status::Moved,
    ] {
        let mut s = String::new();
        push_status_json(&mut s, st);
        assert_eq!(parse_status_json(&s), Some(st), "{s}");
    }
    assert_eq!(parse_status_json("\"running\""), Some(Status::Running));
    assert_eq!(parse_status_json("{\"running\":null}"), Some(Status::Running));
    assert_eq!(parse_status_json("{\"exited\":7}"), Some(Status::Exited(Some(7))));
    assert_eq!(parse_status_json("{\"exited\":007}"), None);
    assert_eq!(parse_status_json("{\"exited\":2147483648}"), None);
    assert_eq!(parse_status_json("\"paused\""), None);
}

#[test]
fn lines_split_like_str_lines() {
    assert_eq!(lines_of("a\r\nb\n\nc"), vec!["a", "b", "", "c"]);
    assert_eq!(lines_of("a\n"), vec!["a"]);
    assert!(lines_of("").is_empty());
}

#[test]
fn snippet_is_stripped_collapsed_and_cut() {
    assert_eq!(output_snippet(b"\x1b[31mred text\x1b[0m and\nmore\r\n"), "red text and more");
    let long = output_snippet(&[b'x'; 100]);
    assert_eq!(long.chars().count(), 65);
    assert!(long.ends_with('…'));
}

#[test]
fn ring_keeps_the_newest_entries() {
    let mut log = SessionLog::new(sid("ring0001"));
    for i in 0..(LOG_CAP as u64 + 5) {
        let ev = log.append(EventKind::Status(Status::Running), i);
        assert_eq!(ev.seq, i + 1);
    }
    let (snap, last) = log.snapshot_after(0);
    assert_eq!(snap.len(), LOG_CAP);
    assert_eq!(snap[0].seq, 6);
    assert_eq!(last, LOG_CAP as u64 + 5);
    let (tail, _) = log.snapshot_after(last - 2);
    assert_eq!(tail.iter().map(|e| e.seq).collect::<Vec<_>>(), vec![last - 1, last]);
    assert!(tail.iter().all(|e| e.ts == 0 && e.session.as_str() == "ring0001"));
}

#[test]
fn scan_skips_lines_without_seq() {
    let mut scan = LogScan::new();
    let f = bao::daemon::session_log::LogLineFields {
        crc: Some(9),
        unsigned: String::new(),
        seq: None,
        ts: Some(5),
        kind: Some("output".to_string()),
        status: None,
        data: Some("aGk=".to_string()),
    };
    scan.absorb(&f, 9, Some(b"hi".to_vec()));
    assert!(scan.log.is_empty());
    assert_eq!(scan.min_ts, u64::MAX);
    scan.absorb(&f, 8, None);
    assert_eq!(scan.corrupt_lines, 1);
}

#[test]
fn register_refuses_an_empty_command() {
    let mut s = spec("e0000001", "pi", Clock::Fixed(5));
    s.command = Command::from_args(Vec::new());
    assert!(matches!(
        SessionState::register(&s, host()),
        Err(Error::Domain(bao::error::Error::EmptyCommand))
    ));
}

#[test]
fn first_output_flips_a_booting_session_to_running() {
    let mut s = SessionState::register(&spec("boot0001", "bash -c true", Clock::Fixed(1_000)), host())
        .unwrap();
    assert_eq!(s.status(), Status::Preparing);
    assert_eq!(s.created(), 1_000);
    assert!(s.process().may_open().is_ok());
    let evs = s.process_started().unwrap();
    assert_eq!(evs.len(), 1);
    assert_eq!(evs[0].kind, EventKind::Status(Status::Starting));
    assert!(matches!(s.process().may_open(), Err(Error::AlreadyRunning)));

    let evs = s.append(EventKind::Output(b"hi".to_vec()));
    assert_eq!(evs.len(), 2);
    assert_eq!(evs[0].kind, EventKind::Status(Status::Running));
    assert_eq!(evs[0].seq, 2);
    assert_eq!(evs[1].kind, EventKind::Output(b"hi".to_vec()));
    assert_eq!(evs[1].seq, 3);
    assert_eq!(s.status(), Status::Running);
    assert_eq!(s.meta_at(1_000).last_output, "hi");

    let evs = s.process_exited(Some(2));
    assert_eq!(evs.len(), 1);
    assert_eq!(s.status(), Status::Exited(Some(2)));
    assert_eq!(s.meta_at(1_000).alert, Some(Alert::Errored(2)));
    assert!(!s.process().child);
    let (snap, last) = s.snapshot_and_last(0);
    assert_eq!(snap.len(), 4);
    assert_eq!(last, 4);
}

#[test]
fn illegal_transitions_change_nothing() {
    let mut s = SessionState::register(&spec("ill00001", "pi", Clock::Fixed(0)), host()).unwrap();
    assert!(s.transition(LifecycleEvent::Output).is_err());
    assert_eq!(s.status(), Status::Preparing);
    assert_eq!(s.snapshot_and_last(0).0.len(), 0);
    assert!(matches!(s.resume_check(), Err(Error::ResumeNotInterrupted(Status::Preparing))));
    assert!(s.transition(LifecycleEvent::Interrupted).is_ok());
    assert!(s.resume_check().is_ok());
}

#[test]
fn idle_alert_derives_from_injected_clock() {
    let mut s = SessionState::register(&spec("clock0001", "pi", Clock::Fixed(1_000_000)), host())
        .unwrap();
    s.process_started().unwrap();
    s.append(EventKind::Output(b"CLOCK_UP".to_vec()));
    assert_eq!(s.meta().alert, None, "fresh and active");
    s.set_clock(Clock::Fixed(1_000_000 + 65_000));
    assert_eq!(s.meta().alert, Some(Alert::Idle(65)));
    assert!(s.publish_state().is_some());
    assert!(s.publish_state().is_none(), "nothing changed");
    assert!(s.set_waiting(Some(true)));
    assert!(!s.set_waiting(Some(true)));
    assert_eq!(s.meta().waiting_for_input, Some(true));
}

#[test]
fn restore_salvages_unreadable_meta() {
    let loaded = load_log_text(&log_line(1, 1000, &EventKind::Output(b"world\r\n".to_vec())));
    let id = restored_identity(Err(Error::Json("eof".into())), &loaded, "/s/damaged01", 77)
        .unwrap();
    assert_eq!(id.status, Status::Damaged);
    assert_eq!(id.created, 1000);
    assert_eq!(id.workspace.path, "/s/damaged01");
    assert!(id.command.is_empty());
    let s = SessionState::restored(sid("damaged01"), id, loaded, host(), 2000);
    let m = s.meta_at(2000);
    assert_eq!(m.alert, Some(Alert::Damaged));
    assert!(m.last_output.contains("world"));
    assert_eq!(s.snapshot_and_last(0).1, 1);
    assert!(restored_identity(Ok(None), &load_log_text(""), "/s/x", 0).is_none());
}

#[test]
fn restore_keeps_a_readable_meta_and_marks_live_as_interrupted() {
    let text = format!(
        "{}{}",
        log_line(1, 10, &EventKind::Status(Status::Starting)),
        log_line(2, 20, &EventKind::Output(b"hi".to_vec()))
    );
    let loaded = load_log_text(&text);
    let stored = StoredMeta {
        format: None,
        command: "bash fixture-session.sh".to_string(),
        args: Vec::new(),
        cwd: Some("/tmp".to_string()),
        created: 1000,
        name: Some("fix".to_string()),
        workspace: None,
    };
    let id = restored_identity(Ok(Some(stored)), &loaded, "/s/abc", 0).unwrap();
    assert_eq!(id.status, Status::Interrupted);
    assert_eq!(id.command.display(), "bash fixture-session.sh");
    assert_eq!(id.workspace.path, "/tmp");
    assert_eq!(id.name.as_deref(), Some("fix"));
}

#[test]
fn newer_meta_format_is_refused() {
    let m = |format| StoredMeta {
        format,
        command: String::new(),
        args: Vec::new(),
        cwd: None,
        created: 0,
        name: None,
        workspace: None,
    };
    assert!(matches!(m(Some(99)).check_format(), Err(Error::NewerFormat(99))));
    assert!(m(Some(META_FORMAT)).check_format().is_ok());
    assert!(m(None).check_format().is_ok());
}

#[test]
fn stored_meta_records_the_session() {
    let s = SessionState::register(&spec("meta0001", "pi --model x", Clock::Fixed(3)), host()).unwrap();
    let m = StoredMeta::from_session(&s);
    assert_eq!(m.format, Some(META_FORMAT));
    assert_eq!(m.command, "pi --model x");
    assert_eq!(m.args, vec!["pi", "--model", "x"]);
    assert_eq!(m.cwd.as_deref(), Some("/tmp/w"));
    assert_eq!(m.created, 3);
}

#[test]
fn record_reads_back_as_the_session() {
    let mut s =
        SessionState::register(&spec("meta0002", "pi --model x", Clock::Fixed(7)), host()).unwrap();
    s.rename(Some("review".to_string()));
    let m = StoredMeta::from_session(&s).check_format().unwrap();
    let id = restored_identity(Ok(Some(m)), &load_log_text(""), "/s/meta0002", 99).unwrap();
    assert_eq!(id.name.as_deref(), Some("review"));
    assert_eq!(id.command.as_args(), ["pi", "--model", "x"]);
    assert_eq!(id.workspace, WorkingCopy::in_place("/tmp/w"));
    assert_eq!(id.created, 7);
    assert_eq!(id.status, Status::Interrupted);
}

#[test]
fn store_lays_out_session_files() {
    let store = SessionStore::new("/h/sessions".to_string());
    assert_eq!(store.dir_for(&sid("abc")), "/h/sessions/abc");
    assert_eq!(store.meta_path(&sid("abc")), "/h/sessions/abc/meta.json");
    assert_eq!(store.log_path(&sid("abc")), "/h/sessions/abc/events.log");
}

#[test]
fn process_slots_guard_input_and_resize() {
    let none = ProcessSlots::empty();
    assert!(matches!(none.input_target(), Err(Error::NotRunning)));
    assert!(matches!(none.resize_target(), Err(Error::NotRunning)));
}

fn key(id: &str, name: Option<&str>, created: u64) -> SessionKey {
    SessionKey {
        id: sid(id),
        name: name.map(String::from),
        created,
    }
}

#[test]
fn manager_resolves_by_id_name_and_unique_prefix() {
    let keys = vec![
        key("feed0001", Some("alpha"), 30),
        key("feed0002", None, 10),
        key("beef0003", Some("beta"), 20),
    ];
    assert_eq!(resolve_session(&keys, "feed0002").unwrap(), 1);
    assert_eq!(resolve_session(&keys, "beta").unwrap(), 2);
    assert_eq!(resolve_session(&keys, "beef").unwrap(), 2);
    assert_eq!(resolve_session(&keys, "al").unwrap(), 0);
    assert!(matches!(
        resolve_session(&keys, "feed"),
        Err(Error::Ambiguous(q, 2, 0)) if q == "feed"
    ));
    assert!(matches!(
        resolve_session(&keys, "zzz"),
        Err(Error::NotFound(q)) if q == "zzz"
    ));
    assert_eq!(list_order(&keys), vec![1, 2, 0]);
}

#[test]
fn one_session_matching_by_id_and_name_prefix_is_found() {
    let keys = vec![key("abc1", Some("abcd"), 1), key("ffff", Some("zed"), 2)];
    assert_eq!(resolve_session(&keys, "abc").unwrap(), 0);
    let two = vec![key("abc1", None, 1), key("ffff", Some("abcd"), 2)];
    assert!(matches!(
        resolve_session(&two, "abc"),
        Err(Error::Ambiguous(q, 1, 1)) if q == "abc"
    ));
}

#[test]
fn restoring_a_store_skips_directories_without_a_record() {
    let live_log = format!(
        "{}{}",
        log_line(1, 10, &EventKind::Status(Status::Running)),
        log_line(2, 20, &EventKind::Output(b"hi".to_vec()))
    );
    let record = StoredMeta {
        format: Some(META_FORMAT),
        command: "pi".to_string(),
        args: vec!["pi".to_string()],
        cwd: Some("/tmp".to_string()),
        created: 5,
        name: Some("kept".to_string()),
        workspace: None,
    };
    let dirs = vec![
        FoundDir {
            name: "empty001".to_string(),
            path: "/s/empty001".to_string(),
            meta: Ok(None),
            log: load_log_text(""),
        },
        FoundDir {
            name: "broken01".to_string(),
            path: "/s/broken01".to_string(),
            meta: Err(Error::Json("eof".into())),
            log: load_log_text(&format!(
                "{}{}",
                log_line(1, 1000, &EventKind::Output(b"hello\r\n".to_vec())),
                log_line(2, 2000, &EventKind::Output(b"world\r\n".to_vec()))
            )),
        },
        FoundDir {
            name: "kept0001".to_string(),
            path: "/s/kept0001".to_string(),
            meta: Ok(Some(record)),
            log: load_log_text(&live_log),
        },
    ];
    let restored = restore_store(dirs, &host(), 3000);
    assert_eq!(restored.len(), 2);
    assert_eq!(restored[0].id().as_str(), "broken01");
    assert_eq!(restored[0].status(), Status::Damaged);
    assert_eq!(restored[0].created(), 1000);
    assert_eq!(restored[0].workspace().path, "/s/broken01");
    assert_eq!(restored[0].snapshot_and_last(0).1, 2);
    assert!(restored[0].meta_at(3000).last_output.contains("world"));
    assert_eq!(restored[0].meta_at(3000).alert, Some(Alert::Damaged));
    assert_eq!(restored[1].id().as_str(), "kept0001");
    assert_eq!(restored[1].status(), Status::Interrupted);
    assert_eq!(restored[1].name().as_deref(), Some("kept"));
    assert_eq!(restored[1].created(), 5);
    assert_eq!(restored[1].snapshot_and_last(0).1, 2);
}

#[test]
fn a_stream_opens_with_the_replay_then_the_picture() {
    let s = SessionState::register(&spec("strm0001", "pi", Clock::Fixed(3)), host()).unwrap();
    let ev = |seq: u64| SessionEvent {
        session: sid("strm0001"),
        seq,
        ts: 0,
        kind: EventKind::Output(b"x".to_vec()),
    };
    let (stream, frames) =
        SessionStream::start(sid("strm0001"), &vec![ev(3), ev(4)], 4, s.meta_at(9), 9);
    assert_eq!(stream.last, 4);
    assert_eq!(frames.len(), 3);
    assert!(matches!(frames[0], FromHost::Output { seq: 3, .. }));
    assert!(matches!(frames[1], FromHost::Output { seq: 4, .. }));
    assert!(matches!(frames[2], FromHost::State { ts: 9, .. }));
}
