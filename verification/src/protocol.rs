//! The wire contract: the typed message vocabulary that the client and the
//! daemon speak (`Request`/`Rpc` client→daemon, `FromHost` daemon→client),
//! and the conversions into it.
use vstd::prelude::*;

use crate::error::{Error, decimal_spec, error_message, push_decimal, push_str};
use crate::event::{EventKind, SessionEvent};
use crate::registry_entry::{RegistryEntry, Workspace};
use crate::sandbox::{SandboxKind, SandboxSpec, kind_name_spec};
use crate::types::{Command, Hostname, SessionId, SessionMeta, Status, TerminalSize};

verus! {

/// The wire protocol version. A client whose version differs from the
/// daemon's refuses to talk rather than misparse.
pub const PROTOCOL_VERSION: u32 = 1;

/// What a connection carries. The first frame on every connection names its
/// channel.
#[derive(Debug, Clone, PartialEq, Eq)]
pub enum ChannelKind {
    /// Typed RPC request/reply.
    Control,
    /// Daemon-wide derived state (current + changes).
    Watch,
    /// One session's terminal bytes, live.
    Attach { session: SessionId },
}

/// A byte payload carried over the JSON wire as base64.
#[derive(Debug, Clone, PartialEq, Eq)]
pub struct WireBytes(pub Vec<u8>);

impl WireBytes {
    pub fn from_vec(v: Vec<u8>) -> (r: WireBytes)
        ensures
            r.0 == v,
    {
        WireBytes(v)
    }

    pub fn from_slice(v: &[u8]) -> (r: WireBytes)
        ensures
            r.0@ == v@,
    {
        WireBytes(copy_slice(v))
    }

    pub fn as_slice(&self) -> (r: &[u8])
        ensures
            r@ == self.0@,
    {
        self.0.as_slice()
    }
}

/// Wire payload for `Rpc::Launch`. Everything optional defers to the
/// daemon.
#[derive(Debug, Clone, PartialEq, Eq)]
pub struct LaunchRequest {
    pub command: Option<Command>,
    pub dir: Option<String>,
    pub workspace: Option<String>,
    pub profile: Option<String>,
    pub name: Option<String>,
    pub size: TerminalSize,
    pub sandbox: SandboxSpec,
}

/// What the daemon says about itself.
#[derive(Debug, Clone, PartialEq, Eq)]
pub struct DaemonInfo {
    /// The machine this daemon runs on.
    pub host: Hostname,
    /// Wire protocol version this daemon speaks.
    pub protocol_version: u32,
    /// Isolation backends this machine can provide.
    pub sandbox_backends: Vec<SandboxKind>,
}

#[derive(Debug, Clone, PartialEq, Eq)]
pub struct Request {
    pub id: u32,
    pub rpc: Rpc,
}

#[derive(Debug, Clone, PartialEq, Eq)]
pub enum Rpc {
    /// The channel handshake: the first frame on every connection.
    Hello { kind: ChannelKind },
    List,
    /// The daemon's self-description.
    Info,
    Launch(LaunchRequest),
    Input { session: SessionId, data: WireBytes },
    Resume { session: SessionId, size: TerminalSize },
    Resize { session: SessionId, size: TerminalSize },
    Stop { session: SessionId },
    Rename { session: SessionId, name: Option<String> },
    Rm { session: SessionId },
    RegistryList,
    RegistryPut { entry: RegistryEntry },
    RegistryRemove { alias: String },
    WorkspaceList,
    WorkspaceAdd { alias: String, path: String },
    WorkspaceRemove { alias: String },
}

/// Success payload of an RPC, typed per method.
#[derive(Debug, Clone, PartialEq, Eq)]
pub enum Reply {
    List { sessions: Vec<SessionMeta> },
    Info { info: DaemonInfo },
    Launch { session: SessionMeta },
    Resume { session: SessionMeta },
    Attach {
        session: SessionMeta,
        /// The event-log sequence the live stream follows from.
        seq: u64,
        /// The current screen, rebuilt as a byte stream.
        screen: WireBytes,
    },
    Entries { entries: Vec<RegistryEntry> },
    Workspaces { workspaces: Vec<Workspace> },
    Workspace { workspace: Workspace },
    Okay,
}

/// Everything the daemon pushes on a connection: RPC replies, errors, and
/// the live session stream.
#[derive(Debug, Clone, PartialEq, Eq)]
pub enum FromHost {
    Reply { id: u32, reply: Reply },
    Error { id: u32, error: WireError },
    Output { session: SessionId, seq: u64, data: WireBytes, ts: u64 },
    /// A session's complete current picture.
    State { ts: u64, meta: SessionMeta },
    Status { session: SessionId, seq: u64, status: Status, ts: u64 },
    /// A session was removed; `reason` is `Some` when a launch failed.
    Gone { session: SessionId, reason: Option<String> },
}

/// A typed error the daemon sends instead of a bare string.
#[derive(Debug, Clone, PartialEq, Eq)]
pub enum WireError {
    NotFound { query: String },
    Ambiguous { query: String, ids: usize, names: usize },
    AlreadyRunning,
    NotRunning,
    SandboxUnavailable { kind: SandboxKind },
    /// A launch named a workspace alias that is not registered.
    UnknownWorkspace { alias: String },
    /// The request was wrong, not the daemon.
    BadRequest { message: String },
    /// The daemon failed unexpectedly.
    Internal { message: String },
}

pub open spec fn wire_error_message(e: WireError) -> Seq<char> {
    match e {
        WireError::NotFound { query } => "no session matches '"@ + query@ + "'"@,
        WireError::Ambiguous { query, ids, names } => "'"@ + query@ + "' is ambiguous ("@
            + decimal_spec(ids as nat) + " id(s), "@ + decimal_spec(names as nat)
            + " name(s)) \u{2014} be more specific"@,
        WireError::AlreadyRunning => "session already has a running process"@,
        WireError::NotRunning => "session is not running (interrupted)"@,
        WireError::SandboxUnavailable { kind } => "sandbox "@ + kind_name_spec(kind)
            + " is not available here (not a git repo, or the backend is missing)"@,
        WireError::UnknownWorkspace { alias } => "no workspace named '"@ + alias@ + "'"@,
        WireError::BadRequest { message } => message@,
        WireError::Internal { message } => message@,
    }
}

impl WireError {
    /// The human-readable message.
    pub fn message(&self) -> (r: String)
        ensures
            r@ == wire_error_message(*self),
    {
        let mut m = String::new();
        match self {
            WireError::NotFound { query } => {
                push_str(&mut m, "no session matches '");
                push_str(&mut m, query.as_str());
                push_str(&mut m, "'");
            },
            WireError::Ambiguous { query, ids, names } => {
                push_str(&mut m, "'");
                push_str(&mut m, query.as_str());
                push_str(&mut m, "' is ambiguous (");
                push_decimal(&mut m, *ids as u64);
                push_str(&mut m, " id(s), ");
                push_decimal(&mut m, *names as u64);
                push_str(&mut m, " name(s)) \u{2014} be more specific");
            },
            WireError::AlreadyRunning => push_str(&mut m, "session already has a running process"),
            WireError::NotRunning => push_str(&mut m, "session is not running (interrupted)"),
            WireError::SandboxUnavailable { kind } => {
                push_str(&mut m, "sandbox ");
                push_str(&mut m, kind.name());
                push_str(
                    &mut m,
                    " is not available here (not a git repo, or the backend is missing)",
                );
            },
            WireError::UnknownWorkspace { alias } => {
                push_str(&mut m, "no workspace named '");
                push_str(&mut m, alias.as_str());
                push_str(&mut m, "'");
            },
            WireError::BadRequest { message } => push_str(&mut m, message.as_str()),
            WireError::Internal { message } => push_str(&mut m, message.as_str()),
        }
        proof {
            assert(Seq::<char>::empty() + wire_error_message(*self) =~= wire_error_message(
                *self,
            ));
        }
        m
    }

    /// A bad request carrying the given message.
    pub fn bad_request(message: &str) -> (r: WireError)
        ensures
            r matches WireError::BadRequest { message: m } && m@ == message@,
    {
        WireError::BadRequest { message: String::from_str(message) }
    }

    /// Domain validation errors are, by construction, a bad request — the
    /// daemon is fine; the client asked for something invalid.
    pub fn from_domain(e: &Error) -> (r: WireError)
        ensures
            r matches WireError::BadRequest { message: m } && m@ == error_message(*e),
    {
        WireError::BadRequest { message: e.message() }
    }
}

/// The wire frame for one log event.
pub open spec fn event_frame(ev: SessionEvent) -> FromHost {
    match ev.kind {
        EventKind::Output(bytes) => FromHost::Output {
            session: ev.session,
            seq: ev.seq,
            data: WireBytes(bytes),
            ts: ev.ts,
        },
        EventKind::Status(st) => FromHost::Status {
            session: ev.session,
            seq: ev.seq,
            status: st,
            ts: ev.ts,
        },
    }
}

/// Copy a byte slice.
pub fn copy_slice(v: &[u8]) -> (r: Vec<u8>)
    ensures
        r@ == v@,
{
    let mut out: Vec<u8> = Vec::new();
    let mut i: usize = 0;
    while i < v.len()
        invariant
            i <= v@.len(),
            out@ == v@.subrange(0, i as int),
        decreases v@.len() - i,
    {
        out.push(v[i]);
        i = i + 1;
        assert(out@ =~= v@.subrange(0, i as int));
    }
    assert(v@.subrange(0, v@.len() as int) =~= v@);
    out
}

/// Copy a byte vector.
pub fn copy_bytes(v: &Vec<u8>) -> (r: Vec<u8>)
    ensures
        r@ == v@,
{
    copy_slice(v.as_slice())
}

/// `f` is the frame that streams log event `ev`: the same session, sequence
/// and timestamp, and the same bytes or status.
pub open spec fn streams_event(ev: SessionEvent, f: FromHost) -> bool {
    match (f, event_frame(ev)) {
        (
            FromHost::Output { session: s1, seq: q1, data: d1, ts: t1 },
            FromHost::Output { session: s2, seq: q2, data: d2, ts: t2 },
        ) => s1@ == s2@ && q1 == q2 && d1.0@ == d2.0@ && t1 == t2,
        (
            FromHost::Status { session: s1, seq: q1, status: a1, ts: t1 },
            FromHost::Status { session: s2, seq: q2, status: a2, ts: t2 },
        ) => s1@ == s2@ && q1 == q2 && a1 == a2 && t1 == t2,
        _ => false,
    }
}

impl FromHost {
    /// The wire frame that streams one log event to a client.
    pub fn from_event(ev: &SessionEvent) -> (r: FromHost)
        ensures
            streams_event(*ev, r),
    {
        match &ev.kind {
            EventKind::Output(bytes) => FromHost::Output {
                session: ev.session.copy(),
                seq: ev.seq,
                data: WireBytes(copy_bytes(bytes)),
                ts: ev.ts,
            },
            EventKind::Status(st) => FromHost::Status {
                session: ev.session.copy(),
                seq: ev.seq,
                status: *st,
                ts: ev.ts,
            },
        }
    }
}

} // verus!
