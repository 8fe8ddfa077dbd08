//! The typed client's decisions: which wire frames become client events,
//! and what each reply means for the call that awaited it. The socket
//! plumbing runs around these.
use vstd::prelude::*;

use crate::error::{decimal_spec, push_decimal, push_str};
use crate::protocol::{DaemonInfo, FromHost, PROTOCOL_VERSION, Reply, WireError, wire_error_message};
use crate::registry_entry::RegistryEntry;
use crate::types::{SessionId, SessionMeta, Status};

verus! {

/// Anything the reader task wants the UI to know about.
#[derive(Debug, Clone, PartialEq, Eq)]
pub enum HostEvent {
    State { ts: u64, meta: SessionMeta },
    Output { session: SessionId, seq: u64, data: Vec<u8>, ts: u64 },
    Status { session: SessionId, seq: u64, status: Status, ts: u64 },
    Gone { session: SessionId, reason: Option<String> },
    Disconnected,
}

/// The client's error type.
#[derive(Debug, Clone, PartialEq, Eq)]
pub enum ClientError {
    Transport(String),
    TransportUnsupported(String),
    Unreachable { addr: String, source: String },
    Rpc(WireError),
    VersionMismatch { server: u32, client: u32 },
    LostConnection,
    UnexpectedReply,
}

/// A client error, in words.
pub open spec fn client_error_message(e: ClientError) -> Seq<char> {
    match e {
        ClientError::Transport(m) => m@,
        ClientError::TransportUnsupported(t) => "the "@ + t@ + " transport is not wired up yet"@,
        ClientError::Unreachable { addr, source } => "cannot reach bao host at "@ + addr@
            + " \u{2014} is `bao daemon` running? ("@ + source@ + ")"@,
        ClientError::Rpc(w) => "host error: "@ + wire_error_message(w),
        ClientError::VersionMismatch { server, client } => "protocol version mismatch: server speaks v"@
            + decimal_spec(server as nat) + ", this client speaks v"@ + decimal_spec(client as nat),
        ClientError::LostConnection => "lost connection to host"@,
        ClientError::UnexpectedReply => "unexpected reply from host"@,
    }
}

impl ClientError {
    /// The human-readable message.
    pub fn message(&self) -> (r: String)
        ensures
            r@ == client_error_message(*self),
    {
        let mut m = String::new();
        match self {
            ClientError::Transport(x) => {
                push_str(&mut m, x.as_str());
            },
            ClientError::TransportUnsupported(t) => {
                push_str(&mut m, "the ");
                push_str(&mut m, t.as_str());
                push_str(&mut m, " transport is not wired up yet");
            },
            ClientError::Unreachable { addr, source } => {
                push_str(&mut m, "cannot reach bao host at ");
                push_str(&mut m, addr.as_str());
                push_str(&mut m, " \u{2014} is `bao daemon` running? (");
                push_str(&mut m, source.as_str());
                push_str(&mut m, ")");
            },
            ClientError::Rpc(w) => {
                push_str(&mut m, "host error: ");
                let t = w.message();
                push_str(&mut m, t.as_str());
            },
            ClientError::VersionMismatch { server, client } => {
                push_str(&mut m, "protocol version mismatch: server speaks v");
                push_decimal(&mut m, *server as u64);
                push_str(&mut m, ", this client speaks v");
                push_decimal(&mut m, *client as u64);
            },
            ClientError::LostConnection => {
                push_str(&mut m, "lost connection to host");
            },
            ClientError::UnexpectedReply => {
                push_str(&mut m, "unexpected reply from host");
            },
        }
        proof {
            assert(m@ =~= client_error_message(*self));
        }
        m
    }
}

/// The client event a frame carries: streamed frames become events;
/// `Reply`/`Err` belong to the RPC route table and carry none.
pub open spec fn host_event_spec(f: FromHost) -> Option<HostEvent> {
    match f {
        FromHost::State { ts, meta } => Some(HostEvent::State { ts, meta }),
        FromHost::Output { session, seq, data, ts } => Some(
            HostEvent::Output { session, seq, data: data.0, ts },
        ),
        FromHost::Status { session, seq, status, ts } => Some(
            HostEvent::Status { session, seq, status, ts },
        ),
        FromHost::Gone { session, reason } => Some(HostEvent::Gone { session, reason }),
        FromHost::Reply { .. } | FromHost::Error { .. } => None,
    }
}

/// Convert a wire frame into a client event.
pub fn host_event(f: FromHost) -> (r: Option<HostEvent>)
    ensures
        r == host_event_spec(f),
{
    match f {
        FromHost::State { ts, meta } => Some(HostEvent::State { ts, meta }),
        FromHost::Output { session, seq, data, ts } => Some(
            HostEvent::Output { session, seq, data: data.0, ts },
        ),
        FromHost::Status { session, seq, status, ts } => Some(
            HostEvent::Status { session, seq, status, ts },
        ),
        FromHost::Gone { session, reason } => Some(HostEvent::Gone { session, reason }),
        FromHost::Reply { .. } | FromHost::Error { .. } => None,
    }
}

/// What an RPC call yields once its reply slot resolves: the reply, the
/// daemon's typed error, or (`None`, the slot dropped) a lost connection.
pub fn call_outcome(slot: Option<Result<Reply, WireError>>) -> (r: Result<Reply, ClientError>)
    ensures
        match slot {
            Some(Ok(reply)) => r == Ok::<Reply, ClientError>(reply),
            Some(Err(e)) => r == Err::<Reply, ClientError>(ClientError::Rpc(e)),
            None => r == Err::<Reply, ClientError>(ClientError::LostConnection),
        },
{
    match slot {
        Some(Ok(reply)) => Ok(reply),
        Some(Err(e)) => Err(ClientError::Rpc(e)),
        None => Err(ClientError::LostConnection),
    }
}

/// The handshake's first step: the channel greeting must be answered `Ok`.
pub fn check_hello(reply: Reply) -> (r: Result<(), ClientError>)
    ensures
        r is Ok <==> reply is Okay,
        r is Err ==> r == Err::<(), ClientError>(ClientError::UnexpectedReply),
{
    match reply {
        Reply::Okay => Ok(()),
        _ => Err(ClientError::UnexpectedReply),
    }
}

/// The handshake's second step: the daemon describes itself, and a daemon
/// speaking another protocol version is refused.
pub fn check_info(reply: Reply) -> (r: Result<DaemonInfo, ClientError>)
    ensures
        match reply {
            Reply::Info { info } => if info.protocol_version == PROTOCOL_VERSION {
                r == Ok::<DaemonInfo, ClientError>(info)
            } else {
                r == Err::<DaemonInfo, ClientError>(
                    ClientError::VersionMismatch {
                        server: info.protocol_version,
                        client: PROTOCOL_VERSION,
                    },
                )
            },
            _ => r == Err::<DaemonInfo, ClientError>(ClientError::UnexpectedReply),
        },
{
    match reply {
        Reply::Info { info } => {
            if info.protocol_version != PROTOCOL_VERSION {
                return Err(
                    ClientError::VersionMismatch {
                        server: info.protocol_version,
                        client: PROTOCOL_VERSION,
                    },
                );
            }
            Ok(info)
        },
        _ => Err(ClientError::UnexpectedReply),
    }
}

/// A call that expects a bare acknowledgement.
pub fn expect_ok(reply: Reply) -> (r: Result<(), ClientError>)
    ensures
        r is Ok <==> reply is Okay,
        r is Err ==> r == Err::<(), ClientError>(ClientError::UnexpectedReply),
{
    match reply {
        Reply::Okay => Ok(()),
        _ => Err(ClientError::UnexpectedReply),
    }
}

/// `list`: the sessions in a `List` reply.
pub fn expect_list(reply: Reply) -> (r: Result<Vec<SessionMeta>, ClientError>)
    ensures
        match reply {
            Reply::List { sessions } => r == Ok::<Vec<SessionMeta>, ClientError>(sessions),
            _ => r == Err::<Vec<SessionMeta>, ClientError>(ClientError::UnexpectedReply),
        },
{
    match reply {
        Reply::List { sessions } => Ok(sessions),
        _ => Err(ClientError::UnexpectedReply),
    }
}

/// `launch`: the session in a `Launch` reply.
pub fn expect_launch(reply: Reply) -> (r: Result<SessionMeta, ClientError>)
    ensures
        match reply {
            Reply::Launch { session } => r == Ok::<SessionMeta, ClientError>(session),
            _ => r == Err::<SessionMeta, ClientError>(ClientError::UnexpectedReply),
        },
{
    match reply {
        Reply::Launch { session } => Ok(session),
        _ => Err(ClientError::UnexpectedReply),
    }
}

/// `resume`: the session in a `Resume` reply.
pub fn expect_resume(reply: Reply) -> (r: Result<SessionMeta, ClientError>)
    ensures
        match reply {
            Reply::Resume { session } => r == Ok::<SessionMeta, ClientError>(session),
            _ => r == Err::<SessionMeta, ClientError>(ClientError::UnexpectedReply),
        },
{
    match reply {
        Reply::Resume { session } => Ok(session),
        _ => Err(ClientError::UnexpectedReply),
    }
}

/// `registry_list`: the entries in an `Entries` reply.
pub fn expect_entries(reply: Reply) -> (r: Result<Vec<RegistryEntry>, ClientError>)
    ensures
        match reply {
            Reply::Entries { entries } => r == Ok::<Vec<RegistryEntry>, ClientError>(entries),
            _ => r == Err::<Vec<RegistryEntry>, ClientError>(ClientError::UnexpectedReply),
        },
{
    match reply {
        Reply::Entries { entries } => Ok(entries),
        _ => Err(ClientError::UnexpectedReply),
    }
}

/// A push channel's handshake (`watch`): the greeting answered `Ok`, a
/// typed refusal, or anything else.
pub fn expect_channel_ok(frame: FromHost) -> (r: Result<(), ClientError>)
    ensures
        match frame {
            FromHost::Reply { reply: Reply::Okay, .. } => r is Ok,
            FromHost::Error { error, .. } => r == Err::<(), ClientError>(ClientError::Rpc(error)),
            _ => r == Err::<(), ClientError>(ClientError::UnexpectedReply),
        },
{
    match frame {
        FromHost::Reply { reply: Reply::Okay, .. } => Ok(()),
        FromHost::Error { error, .. } => Err(ClientError::Rpc(error)),
        _ => Err(ClientError::UnexpectedReply),
    }
}

/// The attach channel's handshake: the consistent (meta, seq, screen)
/// snapshot, a typed refusal, or anything else.
pub fn expect_attach(frame: FromHost) -> (r: Result<(SessionMeta, u64, Vec<u8>), ClientError>)
    ensures
        match frame {
            FromHost::Reply { reply: Reply::Attach { session, seq, screen }, .. } => r == Ok::<
                (SessionMeta, u64, Vec<u8>),
                ClientError,
            >((session, seq, screen.0)),
            FromHost::Error { error, .. } => r == Err::<(SessionMeta, u64, Vec<u8>), ClientError>(
                ClientError::Rpc(error),
            ),
            _ => r == Err::<(SessionMeta, u64, Vec<u8>), ClientError>(
                ClientError::UnexpectedReply,
            ),
        },
{
    match frame {
        FromHost::Reply { reply: Reply::Attach { session, seq, screen }, .. } => Ok(
            (session, seq, screen.0),
        ),
        FromHost::Error { error, .. } => Err(ClientError::Rpc(error)),
        _ => Err(ClientError::UnexpectedReply),
    }
}

/// The in-flight calls of a connection: the ids awaiting a reply, and the
/// id the next call takes.
pub struct Calls {
    pending: Vec<u32>,
    next_id: u32,
}

/// What the reader does with one frame.
pub enum Route {
    /// Hand the reply (or the daemon's error) to the call awaiting `id`.
    Deliver(u32, Result<Reply, WireError>),
    /// Surface a client event.
    Event(HostEvent),
    /// A reply nobody awaits.
    Drop,
}

/// Where a frame goes, given the ids awaiting a reply, and which ids await
/// one afterwards: a reply or error for an awaited id is delivered to that
/// call and the id is settled; one for any other id is dropped; streamed
/// frames become events.
pub open spec fn routed(pending: Set<u32>, frame: FromHost) -> (Route, Set<u32>) {
    match frame {
        FromHost::Reply { id, reply } => if pending.contains(id) {
            (Route::Deliver(id, Ok(reply)), pending.remove(id))
        } else {
            (Route::Drop, pending)
        },
        FromHost::Error { id, error } => if pending.contains(id) {
            (Route::Deliver(id, Err(error)), pending.remove(id))
        } else {
            (Route::Drop, pending)
        },
        _ => match host_event_spec(frame) {
            Some(ev) => (Route::Event(ev), pending),
            None => (Route::Drop, pending),
        },
    }
}

/// `frame` is the daemon's answer (a reply or an error) to call `id`.
pub open spec fn answers(frame: FromHost, id: u32) -> bool {
    match frame {
        FromHost::Reply { id: i, .. } => i == id,
        FromHost::Error { id: i, .. } => i == id,
        _ => false,
    }
}

/// A reply reaches the call awaiting it exactly once: delivered the first
/// time, and any later reply or error with the same id is dropped.
pub proof fn law_reply_reaches_its_call_once(pending: Set<u32>, id: u32, first: FromHost, later: FromHost)
    requires
        pending.contains(id),
        answers(first, id),
        answers(later, id),
    ensures
        routed(pending, first).0 matches Route::Deliver(i, _) && i == id,
        routed(routed(pending, first).1, later).0 is Drop,
{
}

impl Calls {
    /// The ids awaiting a reply.
    pub closed spec fn pending_spec(&self) -> Set<u32> {
        self.pending@.to_set()
    }

    /// The id the next call takes.
    pub closed spec fn next_spec(&self) -> u32 {
        self.next_id
    }

    /// Every awaited id was handed out, once.
    pub closed spec fn wf(&self) -> bool {
        &&& self.pending@.no_duplicates()
        &&& forall|k: int| 0 <= k < self.pending@.len() ==> #[trigger] self.pending@[k] < self.next_id
    }

    /// No call in flight; ids start at 1.
    pub fn new() -> (r: Calls)
        ensures
            r.wf(),
            r.pending_spec() == Set::<u32>::empty(),
            r.next_spec() == 1,
    {
        let r = Calls { pending: Vec::new(), next_id: 1 };
        assert(r.pending@.to_set() =~= Set::<u32>::empty());
        r
    }

    /// Start a call: its id, fresh — never awaited before in this
    /// connection's numbering.
    pub fn begin(&mut self) -> (r: u32)
        requires
            old(self).wf(),
            old(self).next_spec() < u32::MAX,
        ensures
            final(self).wf(),
            r == old(self).next_spec(),
            !old(self).pending_spec().contains(r),
            final(self).pending_spec() == old(self).pending_spec().insert(r),
            final(self).next_spec() == old(self).next_spec() + 1,
    {
        let id = self.next_id;
        self.next_id = self.next_id + 1;
        let ghost before = self.pending@;
        self.pending.push(id);
        proof {
            assert(!before.contains(id)) by {
                if before.contains(id) {
                    let k = choose|k: int| 0 <= k < before.len() && before[k] == id;
                    assert(before[k] < id);
                }
            }
            assert(self.pending@.to_set() =~= before.to_set().insert(id)) by {
                assert forall|x: u32| self.pending@.to_set().contains(x) <==> before.to_set().insert(
                    id,
                ).contains(x) by {
                    if x == id {
                        assert(self.pending@[before.len() as int] == id);
                    } else if before.contains(x) {
                        let k = choose|k: int| 0 <= k < before.len() && before[k] == x;
                        assert(self.pending@[k] == x);
                    }
                }
            }
        }
        id
    }

    /// Whether the numbering has run out: no further call can start.
    pub fn exhausted(&self) -> (r: bool)
        ensures
            r == (self.next_spec() == u32::MAX),
    {
        self.next_id == u32::MAX
    }

    /// Take `id` off the awaited list; whether it was on it.
    fn settle(&mut self, id: u32) -> (r: bool)
        requires
            old(self).wf(),
        ensures
            final(self).wf(),
            r == old(self).pending_spec().contains(id),
            final(self).pending_spec() == old(self).pending_spec().remove(id),
            final(self).next_spec() == old(self).next_spec(),
    {
        let mut i: usize = 0;
        while i < self.pending.len() && self.pending[i] != id
            invariant
                i <= self.pending@.len(),
                forall|k: int| 0 <= k < i ==> self.pending@[k] != id,
            decreases self.pending@.len() - i,
        {
            i = i + 1;
        }
        let ghost before = self.pending@;
        if i == self.pending.len() {
            proof {
                assert(!before.contains(id));
                assert(before.to_set().remove(id) =~= before.to_set());
            }
            return false;
        }
        self.pending.remove(i);
        proof {
            assert(before.contains(id));
            assert forall|a: int, b: int| 0 <= a < b < self.pending@.len() implies self.pending@[a]
                != self.pending@[b] by {
                let oa = if a < i { a } else { a + 1 };
                let ob = if b < i { b } else { b + 1 };
                assert(before[oa] != before[ob]);
            }
            assert forall|k: int| 0 <= k < self.pending@.len() implies #[trigger] self.pending@[k]
                < self.next_id by {
                let ok = if k < i { k } else { k + 1 };
                assert(before[ok] < self.next_id);
            }
            assert forall|x: u32| self.pending@.contains(x) <==> (before.contains(x) && x != id) by {
                if before.contains(x) && x != id {
                    let k = choose|k: int| 0 <= k < before.len() && before[k] == x;
                    if k < i {
                        assert(self.pending@[k] == x);
                    } else {
                        assert(k != i);
                        assert(self.pending@[k - 1] == x);
                    }
                }
                if self.pending@.contains(x) {
                    let k = choose|k: int| 0 <= k < self.pending@.len() && self.pending@[k] == x;
                    if k < i {
                        assert(before[k] == x);
                        assert(k != i as int);
                    } else {
                        assert(before[k + 1] == x);
                    }
                    assert(x != id) by {
                        let kk = if k < i { k } else { k + 1 };
                        assert(before[kk] == x);
                        assert(kk != i as int);
                        assert(before[i as int] == id);
                    }
                }
            }
            assert(self.pending@.to_set() =~= before.to_set().remove(id));
        }
        true
    }

    /// Route one frame from the daemon: a reply or error goes to the call
    /// awaiting its id — once; streamed frames become events.
    pub fn route(&mut self, frame: FromHost) -> (r: Route)
        requires
            old(self).wf(),
        ensures
            final(self).wf(),
            final(self).next_spec() == old(self).next_spec(),
            (r, final(self).pending_spec()) == routed(old(self).pending_spec(), frame),
    {
        match frame {
            FromHost::Reply { id, reply } => {
                if self.settle(id) {
                    Route::Deliver(id, Ok(reply))
                } else {
                    proof {
                        assert(self.pending_spec() =~= old(self).pending_spec());
                    }
                    Route::Drop
                }
            },
            FromHost::Error { id, error } => {
                if self.settle(id) {
                    Route::Deliver(id, Err(error))
                } else {
                    proof {
                        assert(self.pending_spec() =~= old(self).pending_spec());
                    }
                    Route::Drop
                }
            },
            other => {
                match host_event(other) {
                    Some(ev) => Route::Event(ev),
                    None => Route::Drop,
                }
            },
        }
    }
}

} // verus!
