//! The daemon's error type — everything the supervisor can fail at, and the
//! domain rules it enforces (wrapped) — and its mapping onto the typed wire
//! error at the server boundary.
use vstd::prelude::*;

use crate::error::{decimal_spec, error_message, push_decimal, push_str};
use crate::protocol::WireError;
use crate::sandbox::{SandboxKind, kind_name_spec};
use crate::types::{Status, status_name_spec};

verus! {

#[derive(Debug, Clone, PartialEq, Eq)]
pub enum Error {
    Domain(crate::error::Error),
    Io(String),
    Json(String),
    Base64(String),
    Transport(String),
    Pty(String),
    TransportUnsupported(String),
    NotFound(String),
    Ambiguous(String, usize, usize),
    NotRunning,
    AlreadyRunning,
    ResumeNotInterrupted(Status),
    NotAGitRepo,
    Git(String),
    SandboxUnavailable(SandboxKind),
    Worktree(String),
    Spawn(String),
    NewerFormat(u32),
    /// A workspace root that does not resolve to a directory: the path and
    /// why.
    BadWorkspacePath(String, String),
    /// A workspace root already registered: the path and its alias.
    WorkspacePathTaken(String, String),
    UnknownAlias(String),
    DuplicateWorkspace(String),
    UnknownWorkspace(String),
}

pub open spec fn daemon_error_message(e: Error) -> Seq<char> {
    match e {
        Error::Domain(d) => error_message(d),
        Error::Io(m) => "io error: "@ + m@,
        Error::Json(m) => "json error: "@ + m@,
        Error::Base64(m) => "base64 error: "@ + m@,
        Error::Transport(m) => m@,
        Error::Pty(m) => "pty error: "@ + m@,
        Error::TransportUnsupported(t) => "the "@ + t@ + " transport is not wired up yet"@,
        Error::NotFound(q) => "no session matches '"@ + q@ + "'"@,
        Error::Ambiguous(q, ids, names) => "'"@ + q@ + "' is ambiguous ("@ + decimal_spec(
            ids as nat,
        ) + " id(s), "@ + decimal_spec(names as nat) + " name(s)) \u{2014} be more specific"@,
        Error::NotRunning => "session is not running (interrupted)"@,
        Error::AlreadyRunning => "session already has a running process"@,
        Error::ResumeNotInterrupted(st) => "only interrupted sessions can be resumed (this one is "@
            + status_name_spec(st) + ")"@,
        Error::NotAGitRepo => "not a git repository"@,
        Error::Git(m) => "git error: "@ + m@,
        Error::SandboxUnavailable(k) => "sandbox "@ + kind_name_spec(k)
            + " is not available here (not a git repo, or the backend is missing)"@,
        Error::Worktree(m) => "worktree error: "@ + m@,
        Error::Spawn(m) => "failed to spawn: "@ + m@,
        Error::NewerFormat(f) => "session meta uses format "@ + decimal_spec(f as nat)
            + ", newer than this Bao supports"@,
        Error::BadWorkspacePath(p, why) => "invalid workspace path "@ + p@ + ": "@ + why@,
        Error::WorkspacePathTaken(p, a) => "path "@ + p@ + " is already registered as '"@ + a@
            + "'"@,
        Error::UnknownAlias(a) => "no registry entry named '"@ + a@ + "'"@,
        Error::DuplicateWorkspace(a) => "workspace '"@ + a@ + "' already exists"@,
        Error::UnknownWorkspace(a) => "no workspace named '"@ + a@ + "'"@,
    }
}

/// The typed wire error a daemon error becomes at the server boundary:
/// domain validation and user-correctable requests are bad requests;
/// lookups and state conflicts keep their kind; everything else is the
/// daemon's own failure, with its message.
pub open spec fn wire_form(e: Error, w: WireError) -> bool {
    match e {
        Error::Domain(d) => w matches WireError::BadRequest { message: m } && m@ == error_message(d),
        Error::NotFound(q) => w matches WireError::NotFound { query } && query@ == q@,
        Error::Ambiguous(q, ids, names) => w matches WireError::Ambiguous { query, ids: i, names: n }
            && query@ == q@ && i == ids && n == names,
        Error::AlreadyRunning => w == WireError::AlreadyRunning,
        Error::NotRunning => w == WireError::NotRunning,
        Error::SandboxUnavailable(k) => w == (WireError::SandboxUnavailable { kind: k }),
        Error::UnknownWorkspace(a) => w matches WireError::UnknownWorkspace { alias } && alias@ == a@,
        Error::ResumeNotInterrupted(_) | Error::NotAGitRepo | Error::TransportUnsupported(_) => w
            matches WireError::BadRequest { message: m } && m@ == daemon_error_message(e),
        _ => w matches WireError::Internal { message: m } && m@ == daemon_error_message(e),
    }
}

impl Error {
    /// The human-readable message.
    pub fn message(&self) -> (r: String)
        ensures
            r@ == daemon_error_message(*self),
    {
        let mut m = String::new();
        match self {
            Error::Domain(d) => return d.message(),
            Error::Io(x) => {
                push_str(&mut m, "io error: ");
                push_str(&mut m, x.as_str());
            },
            Error::Json(x) => {
                push_str(&mut m, "json error: ");
                push_str(&mut m, x.as_str());
            },
            Error::Base64(x) => {
                push_str(&mut m, "base64 error: ");
                push_str(&mut m, x.as_str());
            },
            Error::Transport(x) => push_str(&mut m, x.as_str()),
            Error::Pty(x) => {
                push_str(&mut m, "pty error: ");
                push_str(&mut m, x.as_str());
            },
            Error::TransportUnsupported(t) => {
                push_str(&mut m, "the ");
                push_str(&mut m, t.as_str());
                push_str(&mut m, " transport is not wired up yet");
            },
            Error::NotFound(q) => {
                push_str(&mut m, "no session matches '");
                push_str(&mut m, q.as_str());
                push_str(&mut m, "'");
            },
            Error::Ambiguous(q, ids, names) => {
                push_str(&mut m, "'");
                push_str(&mut m, q.as_str());
                push_str(&mut m, "' is ambiguous (");
                push_decimal(&mut m, *ids as u64);
                push_str(&mut m, " id(s), ");
                push_decimal(&mut m, *names as u64);
                push_str(&mut m, " name(s)) \u{2014} be more specific");
            },
            Error::NotRunning => push_str(&mut m, "session is not running (interrupted)"),
            Error::AlreadyRunning => push_str(&mut m, "session already has a running process"),
            Error::ResumeNotInterrupted(st) => {
                push_str(&mut m, "only interrupted sessions can be resumed (this one is ");
                push_str(&mut m, st.name());
                push_str(&mut m, ")");
            },
            Error::NotAGitRepo => push_str(&mut m, "not a git repository"),
            Error::Git(x) => {
                push_str(&mut m, "git error: ");
                push_str(&mut m, x.as_str());
            },
            Error::SandboxUnavailable(k) => {
                push_str(&mut m, "sandbox ");
                push_str(&mut m, k.name());
                push_str(
                    &mut m,
                    " is not available here (not a git repo, or the backend is missing)",
                );
            },
            Error::Worktree(x) => {
                push_str(&mut m, "worktree error: ");
                push_str(&mut m, x.as_str());
            },
            Error::Spawn(x) => {
                push_str(&mut m, "failed to spawn: ");
                push_str(&mut m, x.as_str());
            },
            Error::NewerFormat(f) => {
                push_str(&mut m, "session meta uses format ");
                push_decimal(&mut m, *f as u64);
                push_str(&mut m, ", newer than this Bao supports");
            },
            Error::BadWorkspacePath(p, why) => {
                push_str(&mut m, "invalid workspace path ");
                push_str(&mut m, p.as_str());
                push_str(&mut m, ": ");
                push_str(&mut m, why.as_str());
            },
            Error::WorkspacePathTaken(p, a) => {
                push_str(&mut m, "path ");
                push_str(&mut m, p.as_str());
                push_str(&mut m, " is already registered as '");
                push_str(&mut m, a.as_str());
                push_str(&mut m, "'");
            },
            Error::UnknownAlias(a) => {
                push_str(&mut m, "no registry entry named '");
                push_str(&mut m, a.as_str());
                push_str(&mut m, "'");
            },
            Error::DuplicateWorkspace(a) => {
                push_str(&mut m, "workspace '");
                push_str(&mut m, a.as_str());
                push_str(&mut m, "' already exists");
            },
            Error::UnknownWorkspace(a) => {
                push_str(&mut m, "no workspace named '");
                push_str(&mut m, a.as_str());
                push_str(&mut m, "'");
            },
        }
        proof {
            assert(Seq::<char>::empty() + daemon_error_message(*self) =~= daemon_error_message(
                *self,
            ));
        }
        m
    }

    /// The typed wire error this becomes at the server boundary: domain
    /// validation and user-correctable requests are bad requests; lookups
    /// and state conflicts keep their kind; everything else is the daemon's
    /// own failure.
    pub fn to_wire(&self) -> (r: WireError)
        ensures
            wire_form(*self, r),
    {
        match self {
            Error::Domain(d) => WireError::from_domain(d),
            Error::NotFound(q) => WireError::NotFound { query: q.clone() },
            Error::Ambiguous(q, ids, names) => WireError::Ambiguous {
                query: q.clone(),
                ids: *ids,
                names: *names,
            },
            Error::AlreadyRunning => WireError::AlreadyRunning,
            Error::NotRunning => WireError::NotRunning,
            Error::SandboxUnavailable(kind) => WireError::SandboxUnavailable { kind: *kind },
            Error::UnknownWorkspace(a) => WireError::UnknownWorkspace { alias: a.clone() },
            Error::ResumeNotInterrupted(_) | Error::NotAGitRepo | Error::TransportUnsupported(_) => {
                WireError::BadRequest { message: self.message() }
            },
            _ => WireError::Internal { message: self.message() },
        }
    }
}

} // verus!
