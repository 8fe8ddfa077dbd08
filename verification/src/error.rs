//! The domain error type: typed and branchable. Variants that wrapped an
//! outside error carry its message.
use vstd::prelude::*;

use crate::sandbox::{SandboxKind, kind_name_spec};
use crate::text::push_char;
use crate::types::{Status, status_name_spec};

verus! {

#[derive(Debug, Clone, PartialEq, Eq)]
pub enum Error {
    Io(String),
    Json(String),
    Base64(String),
    Pty(String),
    TransportUnsupported(String),
    BadAddr,
    EmptyCommand,
    NotRunning,
    AlreadyRunning,
    ResumeNotInterrupted(Status),
    IllegalTransition(Status, &'static str),
    NotFound(String),
    Ambiguous(String, usize, usize),
    DirNotFound(String),
    NotAGitRepo,
    IsolationUnavailable(SandboxKind),
    BadSandboxKind(String),
    BadHostname(String),
    BadAlias(String),
    NewerFormat(u32),
    Worktree(String),
    FrameTooLarge(usize),
    Spawn(String),
    BadPath(String),
}

// ---------------------------------------------------------------------------
// Rendering helpers
// ---------------------------------------------------------------------------

pub open spec fn digit_char(d: nat) -> char {
    if d == 0 { '0' }
    else if d == 1 { '1' }
    else if d == 2 { '2' }
    else if d == 3 { '3' }
    else if d == 4 { '4' }
    else if d == 5 { '5' }
    else if d == 6 { '6' }
    else if d == 7 { '7' }
    else if d == 8 { '8' }
    else { '9' }
}

/// The decimal digits of `n`, most significant first, no leading zeros.
pub open spec fn decimal_spec(n: nat) -> Seq<char>
    decreases n,
{
    if n < 10 {
        seq![digit_char(n)]
    } else {
        decimal_spec(n / 10).push(digit_char(n % 10))
    }
}

fn digit(d: u64) -> (c: char)
    requires
        d < 10,
    ensures
        c == digit_char(d as nat),
{
    if d == 0 { '0' }
    else if d == 1 { '1' }
    else if d == 2 { '2' }
    else if d == 3 { '3' }
    else if d == 4 { '4' }
    else if d == 5 { '5' }
    else if d == 6 { '6' }
    else if d == 7 { '7' }
    else if d == 8 { '8' }
    else { '9' }
}

/// Append the decimal rendering of `n`.
pub fn push_decimal(s: &mut String, n: u64)
    ensures
        final(s)@ == old(s)@ + decimal_spec(n as nat),
    decreases n,
{
    if n < 10 {
        push_char(s, digit(n));
    } else {
        push_decimal(s, n / 10);
        push_char(s, digit(n % 10));
    }
}

/// The `{:?}` rendering of a string: quoted, with escapes.
pub uninterp spec fn debug_quoted(s: Seq<char>) -> Seq<char>;

/// The `{:?}` rendering of a string (`format!`).
#[verifier::external_body]
pub(crate) fn debug_text(s: &String) -> (r: String)
    ensures
        r@ == debug_quoted(s@),
{
    format!("{:?}", s)
}

/// Append the `{:?}` rendering of a string.
pub(crate) fn push_debug(out: &mut String, s: &String)
    ensures
        final(out)@ == old(out)@ + debug_quoted(s@),
{
    let d = debug_text(s);
    push_str(out, d.as_str());
}

/// Append text.
pub fn push_str(out: &mut String, s: &str)
    ensures
        final(out)@ == old(out)@ + s@,
{
    out.append(s);
}

// ---------------------------------------------------------------------------
// Messages
// ---------------------------------------------------------------------------

pub open spec fn error_message(e: Error) -> Seq<char> {
    match e {
        Error::Io(m) => "io error: "@ + m@,
        Error::Json(m) => "json error: "@ + m@,
        Error::Base64(m) => "base64 error: "@ + m@,
        Error::Pty(m) => "pty error: "@ + m@,
        Error::TransportUnsupported(t) => "the "@ + t@ + " transport is not wired up yet"@,
        Error::BadAddr => "address must be host:port"@,
        Error::EmptyCommand => "empty command"@,
        Error::NotRunning => "session is not running (interrupted)"@,
        Error::AlreadyRunning => "session already has a running process"@,
        Error::ResumeNotInterrupted(st) => "only interrupted sessions can be resumed (this one is "@
            + status_name_spec(st) + ")"@,
        Error::IllegalTransition(st, ev) => "illegal lifecycle transition: "@ + status_name_spec(
            st,
        ) + " \u{2192} "@ + ev@,
        Error::NotFound(q) => "no session matches '"@ + q@ + "'"@,
        Error::Ambiguous(q, ids, names) => "'"@ + q@ + "' is ambiguous ("@ + decimal_spec(
            ids as nat,
        ) + " id(s), "@ + decimal_spec(names as nat) + " name(s)) \u{2014} be more specific"@,
        Error::DirNotFound(d) => "directory does not exist: "@ + d@,
        Error::NotAGitRepo => "not a git repository"@,
        Error::IsolationUnavailable(k) => "isolation "@ + kind_name_spec(k)
            + " is not available here (not a git repo, or the backend is missing)"@,
        Error::BadSandboxKind(s) => "unknown sandbox kind: "@ + debug_quoted(s@)
            + " (expected inplace | worktree)"@,
        Error::BadHostname(s) => "invalid hostname: "@ + debug_quoted(s@),
        Error::BadAlias(s) => "invalid alias: "@ + debug_quoted(s@),
        Error::NewerFormat(f) => "session meta uses format "@ + decimal_spec(f as nat)
            + ", newer than this Bao supports"@,
        Error::Worktree(m) => "worktree error: "@ + m@,
        Error::FrameTooLarge(n) => "frame too large: "@ + decimal_spec(n as nat) + " bytes"@,
        Error::Spawn(m) => "failed to spawn: "@ + m@,
        Error::BadPath(p) => "invalid path: "@ + p@,
    }
}

impl Error {
    /// The human-readable message for this error.
    pub fn message(&self) -> (r: String)
        ensures
            r@ == error_message(*self),
    {
        let mut m = String::new();
        match self {
            Error::Io(x) => {
                push_str(&mut m, "io error: ");
                push_str(&mut m, x.as_str());
            },
            Error::Json(x) => {
                push_str(&mut m, "json error: ");
                push_str(&mut m, x.as_str());
            },
            Error::Base64(x) => {
                push_str(&mut m, "base64 error: ");
                push_str(&mut m, x.as_str());
            },
            Error::Pty(x) => {
                push_str(&mut m, "pty error: ");
                push_str(&mut m, x.as_str());
            },
            Error::TransportUnsupported(t) => {
                push_str(&mut m, "the ");
                push_str(&mut m, t.as_str());
                push_str(&mut m, " transport is not wired up yet");
            },
            Error::BadAddr => push_str(&mut m, "address must be host:port"),
            Error::EmptyCommand => push_str(&mut m, "empty command"),
            Error::NotRunning => push_str(&mut m, "session is not running (interrupted)"),
            Error::AlreadyRunning => push_str(&mut m, "session already has a running process"),
            Error::ResumeNotInterrupted(st) => {
                push_str(&mut m, "only interrupted sessions can be resumed (this one is ");
                push_str(&mut m, st.name());
                push_str(&mut m, ")");
            },
            Error::IllegalTransition(st, ev) => {
                push_str(&mut m, "illegal lifecycle transition: ");
                push_str(&mut m, st.name());
                push_str(&mut m, " \u{2192} ");
                push_str(&mut m, ev);
            },
            Error::NotFound(q) => {
                push_str(&mut m, "no session matches '");
                push_str(&mut m, q.as_str());
                push_str(&mut m, "'");
            },
            Error::Ambiguous(q, ids, names) => {
                push_str(&mut m, "'");
                push_str(&mut m, q.as_str());
                push_str(&mut m, "' is ambiguous (");
                push_decimal(&mut m, *ids as u64);
                push_str(&mut m, " id(s), ");
                push_decimal(&mut m, *names as u64);
                push_str(&mut m, " name(s)) \u{2014} be more specific");
            },
            Error::DirNotFound(d) => {
                push_str(&mut m, "directory does not exist: ");
                push_str(&mut m, d.as_str());
            },
            Error::NotAGitRepo => push_str(&mut m, "not a git repository"),
            Error::IsolationUnavailable(k) => {
                push_str(&mut m, "isolation ");
                push_str(&mut m, k.name());
                push_str(
                    &mut m,
                    " is not available here (not a git repo, or the backend is missing)",
                );
            },
            Error::BadSandboxKind(s) => {
                push_str(&mut m, "unknown sandbox kind: ");
                push_debug(&mut m, s);
                push_str(&mut m, " (expected inplace | worktree)");
            },
            Error::BadHostname(s) => {
                push_str(&mut m, "invalid hostname: ");
                push_debug(&mut m, s);
            },
            Error::BadAlias(s) => {
                push_str(&mut m, "invalid alias: ");
                push_debug(&mut m, s);
            },
            Error::NewerFormat(f) => {
                push_str(&mut m, "session meta uses format ");
                push_decimal(&mut m, *f as u64);
                push_str(&mut m, ", newer than this Bao supports");
            },
            Error::Worktree(x) => {
                push_str(&mut m, "worktree error: ");
                push_str(&mut m, x.as_str());
            },
            Error::FrameTooLarge(n) => {
                push_str(&mut m, "frame too large: ");
                push_decimal(&mut m, *n as u64);
                push_str(&mut m, " bytes");
            },
            Error::Spawn(x) => {
                push_str(&mut m, "failed to spawn: ");
                push_str(&mut m, x.as_str());
            },
            Error::BadPath(p) => {
                push_str(&mut m, "invalid path: ");
                push_str(&mut m, p.as_str());
            },
        }
        proof {
            assert(Seq::<char>::empty() + error_message(*self) =~= error_message(*self));
        }
        m
    }
}

} // verus!
