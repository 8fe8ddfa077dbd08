use bao::client::{Calls, ClientError, HostEvent, Route};
use bao::daemon::backends::{Backend, Bubblewrap, GitWorktree, Seatbelt, TeardownStep, WorkspaceStore, teardown_steps};
use bao::daemon::confine::{
    Confinement, HostPath, bwrap_prefix, discovered_repo, git_outcome, process_plan, system_dirs,
};
use bao::daemon::error::Error;
use bao::daemon::pid::{AcquireError, parse_pid, pid_line};
use bao::daemon::server::{
    SessionStream, StreamStep, accept_hello, input_allowed, launch_cwd, resume_command,
};
use bao::daemon::manager::StateEvent;
use bao::decimal::parse_decimal;
use bao::event::{EventKind, SessionEvent};
use bao::protocol::{ChannelKind, FromHost, Reply, Request, Rpc, WireError};
use bao::sandbox::{SandboxKind, WorkingCopy};
use bao::types::{Command, SessionId, Status};

fn sid(s: &str) -> SessionId {
    SessionId::new(s)
}

#[test]
fn backend_available_and_best() {
    let available = Backend::available(false, false);
    assert_eq!(available, vec![SandboxKind::InPlace, SandboxKind::Worktree]);
    assert_eq!(Backend::best(false, false), Some(SandboxKind::Worktree));
    assert_eq!(Backend::best(true, false), Some(SandboxKind::Bubblewrap));
    assert_eq!(Backend::best(false, true), Some(SandboxKind::Seatbelt));
    assert_eq!(
        Backend::available(true, false),
        vec![SandboxKind::InPlace, SandboxKind::Worktree, SandboxKind::Bubblewrap]
    );
}

#[test]
fn worktree_plan_and_failure_message() {
    let store = WorkspaceStore::new("/h/working-copies".to_string());
    assert_eq!(store.tree_dir(&sid("abc12345")), "/h/working-copies/abc12345/tree");
    let gw = GitWorktree::new(store);
    assert!(matches!(
        gw.plan(&sid("abc12345"), Err(Error::NotAGitRepo)),
        Err(Error::SandboxUnavailable(SandboxKind::Worktree))
    ));
    let plan = gw.plan(&sid("abc12345"), Ok("/repo".to_string())).unwrap();
    assert_eq!(plan.branch, "bao-abc12345");
    let wc = GitWorktree::created(
        gw.plan(&sid("abc12345"), Ok("/repo".to_string())).unwrap(),
        &sid("abc12345"),
        Ok(()),
    )
    .unwrap();
    assert!(wc.isolated());
    assert_eq!(wc.branch.as_deref(), Some("bao-abc12345"));
    match GitWorktree::created(plan, &sid("abc12345"), Err(Error::Git("boom".into()))) {
        Err(Error::Worktree(m)) => assert_eq!(
            m,
            "could not create a worktree for session abc12345: git error: boom"
        ),
        other => panic!("unexpected {other:?}"),
    }
}

#[test]
fn teardown_leaves_in_place_copies_alone() {
    assert!(teardown_steps(&WorkingCopy::in_place("/mine")).is_empty());
    let wc = WorkingCopy {
        kind: SandboxKind::Worktree,
        repo: Some("/repo".into()),
        branch: Some("bao-x".into()),
        path: "/h/wc/x/tree".into(),
    };
    let steps = teardown_steps(&wc);
    assert_eq!(steps.len(), 4);
    assert!(matches!(&steps[1], TeardownStep::BranchDelete { branch, .. } if branch == "bao-x"));
    assert!(GitWorktree::teardown_check(&WorkingCopy::in_place("/mine")).is_err());
}

#[test]
fn wraps_argv_with_bwrap_and_preserves_command() {
    let sys: Vec<(String, HostPath)> = system_dirs()
        .into_iter()
        .map(|d| {
            let p = if d == "/bin" {
                HostPath::Link(Some("usr/bin".into()))
            } else if d == "/nix" {
                HostPath::Absent
            } else {
                HostPath::Present
            };
            (d, p)
        })
        .collect();
    let argv = vec!["bash".to_string(), "-c".to_string(), "echo hi".to_string()];
    let wrapped = Bubblewrap::wrap_argv("/w", &Some("/home/u".to_string()), &sys, &argv);
    assert_eq!(wrapped[0], "bwrap");
    let sep = wrapped.iter().position(|a| a == "--").expect("separator");
    assert_eq!(&wrapped[sep + 1..], &argv[..]);
    assert!(wrapped.windows(3).any(|w| w == ["--symlink", "usr/bin", "/bin"]));
    assert!(!wrapped.iter().any(|a| a == "/nix"));
    let prefix = bwrap_prefix("/w", &None, &Vec::new());
    assert_eq!(prefix.len(), 13 + 6);
}

#[test]
fn wraps_argv_with_sandbox_exec_and_preserves_command() {
    let argv = vec!["bash".to_string(), "-c".to_string(), "echo hi".to_string()];
    let wrapped = Seatbelt::wrap_argv("/w", "/home/u", "/tmp", &argv);
    assert_eq!(wrapped[0], "sandbox-exec");
    assert_eq!(wrapped[1], "-DWORKING_COPY=/w");
    let p = wrapped.iter().position(|a| a == "-p").expect("profile flag");
    assert_eq!(&wrapped[p + 2..], &argv[..]);
}

#[test]
fn process_plan_runs_in_the_working_copy() {
    let cmd = Command::parse("pi --model x").unwrap();
    let plan = process_plan(&cmd, &WorkingCopy::in_place("/w"), Confinement::Open);
    assert_eq!(plan.argv, vec!["pi", "--model", "x"]);
    assert_eq!(plan.cwd, "/w");
    assert_eq!(plan.env, vec![("TERM".to_string(), "xterm-256color".to_string())]);
    assert!(plan.controlling_tty);
    let boxed = process_plan(&cmd, &WorkingCopy::in_place("/w"), Confinement::Bubblewrap(vec!["bwrap".into(), "--".into()]));
    assert_eq!(boxed.argv[0], "bwrap");
    assert!(!boxed.controlling_tty);
}

#[test]
fn git_runs_come_to_errors_naming_the_command() {
    let args = vec!["branch".to_string(), "-D".to_string(), "x".to_string()];
    assert!(git_outcome(&args, Ok((true, Vec::new()))).is_ok());
    match git_outcome(&args, Ok((false, b"  fatal: nope\n".to_vec()))) {
        Err(Error::Git(m)) => assert_eq!(m, "`git branch -D x` failed: fatal: nope"),
        other => panic!("unexpected {other:?}"),
    }
    assert!(matches!(discovered_repo(Ok((false, Vec::new()))), Err(Error::NotAGitRepo)));
    assert_eq!(discovered_repo(Ok((true, b"/repo\n".to_vec()))).unwrap(), "/repo");
}

#[test]
fn pid_file_text_round_trips() {
    assert_eq!(pid_line(4242), "4242\n");
    assert_eq!(parse_pid("4242\n"), Some(4242));
    assert_eq!(parse_pid(" +007 "), Some(7));
    assert_eq!(parse_pid(""), None);
    assert_eq!(parse_pid("4294967296"), None);
    assert_eq!(parse_pid("12ab"), None);
    assert_eq!(
        AcquireError::AlreadyRunning { pid: Some(7) }.message(),
        "daemon already running (pid 7)"
    );
    assert_eq!(AcquireError::AlreadyRunning { pid: None }.message(), "daemon already running");
}

#[test]
fn canonical_decimals_parse() {
    let d = |s: &str| parse_decimal(&s.chars().collect::<Vec<_>>());
    assert_eq!(d("0"), Some(0));
    assert_eq!(d("18446744073709551615"), Some(u64::MAX));
    assert_eq!(d("18446744073709551616"), None);
    assert_eq!(d("01"), None);
    assert_eq!(d(""), None);
}

#[test]
fn handshake_requires_hello_first() {
    let hello = Request {
        id: 3,
        rpc: Rpc::Hello {
            kind: ChannelKind::Watch,
        },
    };
    assert_eq!(accept_hello(Some(hello)), Some((3, ChannelKind::Watch)));
    assert_eq!(accept_hello(Some(Request { id: 1, rpc: Rpc::List })), None);
    assert_eq!(accept_hello(None), None);
}

#[test]
fn launch_directory_must_exist() {
    assert_eq!(launch_cwd(Some("/d".into()), true, Err("x".into())).unwrap(), "/d");
    assert_eq!(
        launch_cwd(Some("/gone".into()), false, Ok("/cwd".into())),
        Err(WireError::BadRequest {
            message: "directory does not exist: /gone".into()
        })
    );
    assert_eq!(launch_cwd(None, false, Ok("/cwd".into())).unwrap(), "/cwd");
}

#[test]
fn resume_appends_harness_arguments() {
    let stored = Command::parse("pi --model x").unwrap();
    let c = resume_command(&stored, Some(vec!["--session".into(), "f.jsonl".into()]));
    assert_eq!(c.as_args(), &["pi", "--model", "x", "--session", "f.jsonl"]);
    let d = resume_command(&Command::from_args(Vec::new()), None);
    assert_eq!(d.as_args(), &["pi"]);
    assert!(input_allowed(Status::Exited(Some(0))).is_err());
    assert!(input_allowed(Status::Running).is_ok());
}

fn output(seq: u64) -> SessionEvent {
    SessionEvent {
        session: sid("s1"),
        seq,
        ts: 0,
        kind: EventKind::Output(vec![b'x']),
    }
}

#[test]
fn stream_never_delivers_twice() {
    let mut st = SessionStream::new(sid("s1"), 5);
    assert!(st.on_live(&output(4)).is_none());
    assert!(st.on_live(&output(5)).is_none());
    assert!(matches!(st.on_live(&output(6)), Some(FromHost::Output { seq: 6, .. })));
    assert!(st.on_live(&output(6)).is_none());
    assert!(matches!(
        st.on_bus(StateEvent::Gone {
            session: sid("s1"),
            reason: None
        }),
        StreamStep::Finish(v) if v.len() == 1
    ));
    assert!(matches!(
        st.on_bus(StateEvent::Gone {
            session: sid("other"),
            reason: None
        }),
        StreamStep::Push(v) if v.is_empty()
    ));
    assert!(matches!(st.on_bus_lagged(false), StreamStep::Finish(v) if v.len() == 1));
}

#[test]
fn stream_stays_in_order_across_a_resync() {
    let seq_of = |f: &FromHost| match f {
        FromHost::Output { seq, .. } | FromHost::Status { seq, .. } => *seq,
        _ => 0,
    };
    let mut st = SessionStream::new(sid("s1"), 5);
    let mut seqs = Vec::new();
    seqs.extend(st.on_live(&output(7)).iter().map(seq_of));
    seqs.extend(st.on_live(&output(6)).iter().map(seq_of));
    seqs.extend(st.on_resync(&vec![output(8), output(9)], 9).iter().map(seq_of));
    seqs.extend(st.on_live(&output(9)).iter().map(seq_of));
    seqs.extend(st.on_live(&output(10)).iter().map(seq_of));
    assert_eq!(seqs, vec![7, 8, 9, 10]);
    assert_eq!(st.last, 10);
}

#[test]
fn replies_reach_their_call_once() {
    let mut calls = Calls::new();
    let a = calls.begin();
    let b = calls.begin();
    assert_eq!((a, b), (1, 2));
    assert!(matches!(
        calls.route(FromHost::Reply {
            id: 2,
            reply: Reply::Okay
        }),
        Route::Deliver(2, Ok(Reply::Okay))
    ));
    assert!(matches!(
        calls.route(FromHost::Reply {
            id: 2,
            reply: Reply::Okay
        }),
        Route::Drop
    ));
    assert!(matches!(
        calls.route(FromHost::Error {
            id: 1,
            error: WireError::NotRunning
        }),
        Route::Deliver(1, Err(WireError::NotRunning))
    ));
    assert!(matches!(
        calls.route(FromHost::Gone {
            session: sid("s"),
            reason: None
        }),
        Route::Event(HostEvent::Gone { .. })
    ));
}

#[test]
fn client_errors_read_as_sentences() {
    let mismatch = ClientError::VersionMismatch { server: 2, client: 1 };
    assert_eq!(
        mismatch.message(),
        "protocol version mismatch: server speaks v2, this client speaks v1"
    );
    let rpc = ClientError::Rpc(WireError::NotRunning);
    assert_eq!(rpc.message(), "host error: session is not running (interrupted)");
    assert_eq!(ClientError::LostConnection.message(), "lost connection to host");
    let away = ClientError::Unreachable {
        addr: "127.0.0.1:14551".to_string(),
        source: "refused".to_string(),
    };
    assert_eq!(
        away.message(),
        "cannot reach bao host at 127.0.0.1:14551 \u{2014} is `bao daemon` running? (refused)"
    );
}

#[test]
fn unknown_workspace_is_a_typed_refusal() {
    let w = Error::UnknownWorkspace("nope".to_string()).to_wire();
    assert!(matches!(&w, WireError::UnknownWorkspace { alias } if alias == "nope"));
    assert_eq!(w.message(), "no workspace named 'nope'");
}
