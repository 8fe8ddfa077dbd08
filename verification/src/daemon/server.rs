//! What the daemon answers on its channels: the handshake rule, each RPC's
//! decisions, and the state machine that streams one session to a client
//! without loss or duplication. The sockets, tasks and waiting happen
//! around it.
use vstd::prelude::*;

use crate::daemon::error::{Error, wire_form};
use crate::daemon::manager::StateEvent;
use crate::daemon::registry::{Registry, profile_argv};
use crate::daemon::workspace::{WorkspaceRegistry, ws_lookup};
use crate::event::SessionEvent;
use crate::protocol::{
    ChannelKind, DaemonInfo, FromHost, LaunchRequest, PROTOCOL_VERSION, Reply, Request, Rpc,
    WireError, streams_event,
};
use crate::sandbox::SandboxKind;
use crate::text::{push_char, string_from, strings_seq};
use crate::types::{Command, Hostname, SessionId, SessionMeta, Status, split_words_spec, strings_view};

verus! {

/// How often the daemon re-derives time-based facts (idle) and publishes
/// them, in seconds.
pub const STATE_TICK_SECS: u64 = 5;

/// Bounded capacity of a control channel's outbound queue.
pub const CONTROL_OUT_CAP: usize = 4096;

/// The handshake: a connection's first frame must be a `Hello` naming its
/// channel; anything else (or nothing) drops the connection.
pub fn accept_hello(first: Option<Request>) -> (r: Option<(u32, ChannelKind)>)
    ensures
        match first {
            Some(req) => match req.rpc {
                Rpc::Hello { kind } => r == Some((req.id, kind)),
                _ => r is None,
            },
            None => r is None,
        },
{
    match first {
        Some(req) => match req.rpc {
            Rpc::Hello { kind } => Some((req.id, kind)),
            _ => None,
        },
        None => None,
    }
}

/// A second `Hello` on a control channel is noise, answered as a bad
/// request.
pub fn hello_again(id: u32) -> (r: FromHost)
    ensures
        r matches FromHost::Error { id: i, error: WireError::BadRequest { message } } && i == id
            && message@ == "hello already sent"@,
{
    FromHost::Error { id, error: WireError::BadRequest { message: string_from("hello already sent") } }
}

/// The reply to a request, or its error in wire form.
pub fn answer(id: u32, result: Result<Reply, Error>) -> (r: FromHost)
    ensures
        match result {
            Ok(reply) => r == (FromHost::Reply { id, reply }),
            Err(e) => r matches FromHost::Error { id: i, error } && i == id && wire_form(e, error),
        },
{
    match result {
        Ok(reply) => FromHost::Reply { id, reply },
        Err(e) => FromHost::Error { id, error: e.to_wire() },
    }
}

/// The daemon's self-description: its host, this protocol version, and the
/// isolation it can provide.
pub fn info_reply(host: Hostname, backends: Vec<SandboxKind>) -> (r: Reply)
    ensures
        r == (Reply::Info {
            info: DaemonInfo { host, protocol_version: PROTOCOL_VERSION, sandbox_backends: backends },
        }),
{
    Reply::Info {
        info: DaemonInfo { host, protocol_version: PROTOCOL_VERSION, sandbox_backends: backends },
    }
}

/// The command a launch runs without an explicit one or a profile.
pub open spec fn default_command() -> Seq<Seq<char>> {
    seq![seq!['p', 'i']]
}

/// The argv of the default command.
pub fn default_command_argv() -> (r: Command)
    ensures
        r@ == default_command(),
{
    let mut s = String::new();
    push_char(&mut s, 'p');
    push_char(&mut s, 'i');
    let ghost sv = s@;
    assert(sv =~= seq!['p', 'i']);
    let mut v: Vec<String> = Vec::new();
    v.push(s);
    let r = Command(v);
    assert(r@[0] == sv);
    assert(r@ =~= default_command());
    r
}

/// What a launch runs: the explicit command, else the named profile's argv
/// (an unknown profile is refused), else the default command.
pub fn launch_command(
    command: Option<Command>,
    profile: &Option<String>,
    registry: &Registry,
) -> (r: Result<Command, Error>)
    ensures
        match command {
            Some(c) => r == Ok::<Command, Error>(c),
            None => match profile {
                Some(p) => match profile_argv(registry@, p@) {
                    Some(argv) => r matches Ok(c) && c@ == strings_view(argv),
                    None => r matches Err(Error::UnknownAlias(a)) && a@ == p@,
                },
                None => r matches Ok(c) && c@ == default_command(),
            },
        },
{
    match command {
        Some(c) => Ok(c),
        None => match profile {
            Some(p) => match registry.resolve_profile(p.as_str()) {
                Some(argv) => Ok(Command::from_args(argv)),
                None => Err(Error::UnknownAlias(p.clone())),
            },
            None => Ok(default_command_argv()),
        },
    }
}

/// Where a launch is aimed: a named workspace's root (an unknown one is
/// refused — targeting is the intent, the path a detail), else the raw
/// directory, if any.
pub fn launch_target(
    workspace: &Option<String>,
    dir: Option<String>,
    workspaces: &WorkspaceRegistry,
) -> (r: Result<Option<String>, Error>)
    ensures
        match workspace {
            Some(ws) => match ws_lookup(workspaces@, ws@) {
                Some(w) => r matches Ok(Some(d)) && d@ == w.root@,
                None => r matches Err(Error::UnknownWorkspace(a)) && a@ == ws@,
            },
            None => r == Ok::<Option<String>, Error>(dir),
        },
{
    match workspace {
        Some(ws) => match workspaces.resolve(ws.as_str()) {
            Some(w) => Ok(Some(w.root.clone())),
            None => Err(Error::UnknownWorkspace(ws.clone())),
        },
        None => Ok(dir),
    }
}

/// The directory a launch runs in: the target when it is a directory on
/// this host (`is_dir`), else a refusal naming it; without a target, the
/// daemon's own directory (`current`, or why it could not be read).
pub fn launch_cwd(target: Option<String>, is_dir: bool, current: Result<String, String>) -> (r: Result<String, WireError>)
    ensures
        match target {
            Some(d) => if is_dir {
                r == Ok::<String, WireError>(d)
            } else {
                r matches Err(WireError::BadRequest { message }) && message@
                    == "directory does not exist: "@ + d@
            },
            None => match current {
                Ok(c) => r == Ok::<String, WireError>(c),
                Err(why) => r matches Err(WireError::BadRequest { message }) && message@ == why@,
            },
        },
{
    match target {
        Some(d) => {
            if is_dir {
                Ok(d)
            } else {
                let mut m = string_from("directory does not exist: ");
                crate::error::push_str(&mut m, d.as_str());
                Err(WireError::BadRequest { message: m })
            }
        },
        None => match current {
            Ok(c) => Ok(c),
            Err(why) => Err(WireError::BadRequest { message: why }),
        },
    }
}

/// The command a resume relaunches: the session's own (the default when it
/// has none), followed by the harness's resume arguments, if any.
pub fn resume_command(stored: &Command, extra: Option<Vec<String>>) -> (r: Command)
    ensures
        ({
            let base = if stored@.len() == 0 { default_command() } else { stored@ };
            match extra {
                Some(x) => r@ == base + strings_view(x@),
                None => r@ == base,
            }
        }),
{
    let base = if stored.is_empty() {
        default_command_argv()
    } else {
        stored.copy()
    };
    match extra {
        Some(x) => {
            let mut v = base.0;
            let ghost b = v@;
            let mut i: usize = 0;
            while i < x.len()
                invariant
                    i <= x.len(),
                    v@ == b + x@.take(i as int),
                decreases x.len() - i,
            {
                v.push(x[i].clone());
                i = i + 1;
                assert(v@ =~= b + x@.take(i as int));
            }
            assert(x@.take(x.len() as int) =~= x@);
            let r = Command(v);
            assert(r@ =~= strings_view(b) + strings_view(x@));
            r
        },
        None => base,
    }
}

/// Input to a session that has exited is refused.
pub fn input_allowed(status: Status) -> (r: Result<(), WireError>)
    ensures
        status is Exited ==> (r matches Err(WireError::BadRequest { message }) && message@
            == "session has exited"@),
        !(status is Exited) ==> r is Ok,
{
    match status {
        Status::Exited(_) => Err(WireError::BadRequest { message: string_from("session has exited") }),
        _ => Ok(()),
    }
}

/// The first frame of an attach channel: the session's picture, the log
/// sequence the live stream follows from, and the screen at that point —
/// or, for a session that does not resolve, a typed refusal (and the
/// channel closes).
pub fn attach_reply(id: u32, resolved: Result<(SessionMeta, u64, Vec<u8>), Error>) -> (r: (FromHost, bool))
    ensures
        match resolved {
            Ok((meta, seq, screen)) => r.1 && r.0 == (FromHost::Reply {
                id,
                reply: Reply::Attach { session: meta, seq, screen: crate::protocol::WireBytes(screen) },
            }),
            Err(e) => !r.1 && (r.0 matches FromHost::Error { id: i, error } && i == id && wire_form(
                e,
                error,
            )),
        },
{
    match resolved {
        Ok((meta, seq, screen)) => (
            FromHost::Reply {
                id,
                reply: Reply::Attach { session: meta, seq, screen: crate::protocol::WireBytes(screen) },
            },
            true,
        ),
        Err(e) => (FromHost::Error { id, error: e.to_wire() }, false),
    }
}

/// What the watch channel pushes for one state-bus entry.
pub fn watch_frame(ev: StateEvent, ts: u64) -> (r: FromHost)
    ensures
        match ev {
            StateEvent::Snapshot(meta) => r == (FromHost::State { ts, meta }),
            StateEvent::Gone { session, reason } => r == (FromHost::Gone { session, reason }),
        },
{
    match ev {
        StateEvent::Snapshot(meta) => FromHost::State { ts, meta },
        StateEvent::Gone { session, reason } => FromHost::Gone { session, reason },
    }
}

// ---------------------------------------------------------------------------
// Streaming one session
// ---------------------------------------------------------------------------

/// Streaming one session to a client: the session and the newest sequence
/// already delivered.
pub struct SessionStream {
    pub session: SessionId,
    pub last: u64,
}

/// What the stream does next.
pub enum StreamStep {
    /// Push these frames and keep following.
    Push(Vec<FromHost>),
    /// Push these frames, then stop.
    Finish(Vec<FromHost>),
}

impl SessionStream {
    /// Start after replaying the log up to `last`.
    pub fn new(session: SessionId, last: u64) -> (r: SessionStream)
        ensures
            r.session == session,
            r.last == last,
    {
        SessionStream { session, last }
    }

    /// Open a stream: the log's entries after the attach point
    /// (`snapshot`, newest sequence `newest`) replayed in order, then the
    /// session's current picture as a `State` frame; live delivery follows
    /// from `newest`.
    pub fn start(
        session: SessionId,
        snapshot: &Vec<SessionEvent>,
        newest: u64,
        meta: SessionMeta,
        ts: u64,
    ) -> (r: (SessionStream, Vec<FromHost>))
        ensures
            r.0.session == session,
            r.0.last == newest,
            r.1@.len() == snapshot@.len() + 1,
            forall|k: int| 0 <= k < snapshot@.len() ==> streams_event(snapshot@[k], #[trigger] r.1@[k]),
            r.1@.last() == (FromHost::State { ts, meta }),
            frame_seqs(r.1@) == event_seqs(snapshot@),
    {
        let mut stream = SessionStream { session, last: 0 };
        let mut frames = stream.on_resync(snapshot, newest);
        let ghost replay = frames@;
        frames.push(FromHost::State { ts, meta });
        proof {
            assert(frames@.drop_last() == replay);
        }
        (stream, frames)
    }

    /// A live event: delivered only when newer than everything delivered
    /// (the replay may already have carried it).
    pub fn on_live(&mut self, ev: &SessionEvent) -> (r: Option<FromHost>)
        ensures
            ev.seq > old(self).last ==> final(self).last == ev.seq && (r matches Some(f)
                && streams_event(*ev, f)),
            ev.seq <= old(self).last ==> final(self).last == old(self).last && r is None,
            final(self).session == old(self).session,
            frame_seqs(opt_frames(r)) == step_view(old(self).last, StreamInput::Live(ev.seq)).0,
            final(self).last == step_view(old(self).last, StreamInput::Live(ev.seq)).1,
    {
        proof {
            reveal_with_fuel(frame_seqs, 2);
        }
        if ev.seq > self.last {
            self.last = ev.seq;
            Some(FromHost::from_event(ev))
        } else {
            None
        }
    }

    /// Fell behind the live broadcast: the log's entries after `last`
    /// (`snapshot`, newest sequence `newest`) are delivered instead.
    pub fn on_resync(&mut self, snapshot: &Vec<SessionEvent>, newest: u64) -> (r: Vec<FromHost>)
        ensures
            r@.len() == snapshot@.len(),
            forall|k: int| 0 <= k < r@.len() ==> streams_event(snapshot@[k], #[trigger] r@[k]),
            final(self).last == newest,
            final(self).session == old(self).session,
            frame_seqs(r@) == step_view(
                old(self).last,
                StreamInput::Resync(event_seqs(snapshot@), newest),
            ).0,
    {
        let mut out: Vec<FromHost> = Vec::new();
        let mut i: usize = 0;
        while i < snapshot.len()
            invariant
                i <= snapshot.len(),
                out@.len() == i,
                forall|k: int| 0 <= k < i ==> streams_event(snapshot@[k], #[trigger] out@[k]),
                frame_seqs(out@) == event_seqs(snapshot@.take(i as int)),
            decreases snapshot.len() - i,
        {
            let f = FromHost::from_event(&snapshot[i]);
            let ghost before = out@;
            out.push(f);
            proof {
                assert(out@.drop_last() == before);
                assert(snapshot@.take(i + 1).drop_last() =~= snapshot@.take(i as int));
            }
            i = i + 1;
        }
        proof {
            assert(snapshot@.take(i as int) =~= snapshot@);
        }
        self.last = newest;
        out
    }

    /// A state-bus entry: this session's removal ends the stream with its
    /// `Gone`; everything else is someone else's news.
    pub fn on_bus(&self, ev: StateEvent) -> (r: StreamStep)
        ensures
            match ev {
                StateEvent::Gone { session, reason } => if session@ == self.session@ {
                    r matches StreamStep::Finish(v) && v@ == seq![FromHost::Gone { session, reason }]
                } else {
                    r matches StreamStep::Push(v) && v@.len() == 0
                },
                StateEvent::Snapshot(_) => r matches StreamStep::Push(v) && v@.len() == 0,
            },
            frame_seqs(r.frames()) == step_view(self.last, StreamInput::Bus(gone_here(ev, self.session))).0,
            r.finishes() == step_view(self.last, StreamInput::Bus(gone_here(ev, self.session))).2,
    {
        proof {
            reveal_with_fuel(frame_seqs, 2);
        }
        match ev {
            StateEvent::Gone { session, reason } => {
                if crate::text::str_eq(session.as_str(), self.session.as_str()) {
                    let v = vec![FromHost::Gone { session, reason }];
                    assert(v@ =~= seq![FromHost::Gone { session, reason }]);
                    StreamStep::Finish(v)
                } else {
                    StreamStep::Push(Vec::new())
                }
            },
            StateEvent::Snapshot(_) => StreamStep::Push(Vec::new()),
        }
    }

    /// Missed some of the bus: if the session no longer resolves, it is
    /// gone (with no reason known) and the stream ends.
    pub fn on_bus_lagged(&self, still_there: bool) -> (r: StreamStep)
        ensures
            still_there ==> (r matches StreamStep::Push(v) && v@.len() == 0),
            !still_there ==> (r matches StreamStep::Finish(v) && v@.len() == 1 && v@[0] == (
            FromHost::Gone { session: self.session, reason: None })),
            frame_seqs(r.frames()) == step_view(self.last, StreamInput::Lagged(still_there)).0,
            r.finishes() == step_view(self.last, StreamInput::Lagged(still_there)).2,
    {
        proof {
            reveal_with_fuel(frame_seqs, 2);
        }
        if still_there {
            StreamStep::Push(Vec::new())
        } else {
            StreamStep::Finish(vec![FromHost::Gone { session: self.session.copy(), reason: None }])
        }
    }
}

impl StreamStep {
    /// The frames this step pushes.
    pub open spec fn frames(self) -> Seq<FromHost> {
        match self {
            StreamStep::Push(v) => v@,
            StreamStep::Finish(v) => v@,
        }
    }

    /// Whether the stream stops after this step.
    pub open spec fn finishes(self) -> bool {
        self is Finish
    }
}

/// The sequences carried by the log frames (`Output`, `Status`) among
/// `fs`, in order; other frames carry none.
pub open spec fn frame_seqs(fs: Seq<FromHost>) -> Seq<u64>
    decreases fs.len(),
{
    if fs.len() == 0 {
        Seq::empty()
    } else {
        let rest = frame_seqs(fs.drop_last());
        match fs.last() {
            FromHost::Output { seq, .. } => rest.push(seq),
            FromHost::Status { seq, .. } => rest.push(seq),
            _ => rest,
        }
    }
}

/// The sequences of log events, in order.
pub open spec fn event_seqs(evs: Seq<SessionEvent>) -> Seq<u64>
    decreases evs.len(),
{
    if evs.len() == 0 {
        Seq::empty()
    } else {
        event_seqs(evs.drop_last()).push(evs.last().seq)
    }
}

pub open spec fn opt_frames(r: Option<FromHost>) -> Seq<FromHost> {
    match r {
        Some(f) => seq![f],
        None => Seq::empty(),
    }
}

/// Whether a bus entry is the removal of session `session`.
pub open spec fn gone_here(ev: StateEvent, session: SessionId) -> bool {
    ev matches StateEvent::Gone { session: s, .. } && s@ == session@
}

/// What a stream is handed, as its decisions see it: a live event's
/// sequence; a resync with the sequences of the log entries it delivers and
/// the log's newest sequence; a bus entry (whether it removes this
/// session); a missed stretch of the bus (whether the session still
/// resolves).
pub enum StreamInput {
    Live(u64),
    Resync(Seq<u64>, u64),
    Bus(bool),
    Lagged(bool),
}

/// One decision from the newest delivered sequence `last`: the sequences
/// delivered, the new `last`, and whether the stream stops.
pub open spec fn step_view(last: u64, input: StreamInput) -> (Seq<u64>, u64, bool) {
    match input {
        StreamInput::Live(q) => if q > last {
            (seq![q], q, false)
        } else {
            (Seq::empty(), last, false)
        },
        StreamInput::Resync(delivered, newest) => (delivered, newest, false),
        StreamInput::Bus(gone) => (Seq::empty(), last, gone),
        StreamInput::Lagged(still_there) => (Seq::empty(), last, !still_there),
    }
}

/// A whole stream from `last`: the sequences delivered, the final `last`,
/// and whether it stopped (after which nothing it is handed counts).
pub open spec fn run_stream(last: u64, inputs: Seq<StreamInput>) -> (Seq<u64>, u64, bool)
    decreases inputs.len(),
{
    if inputs.len() == 0 {
        (Seq::empty(), last, false)
    } else {
        let before = run_stream(last, inputs.drop_last());
        if before.2 {
            before
        } else {
            let now = step_view(before.1, inputs.last());
            (before.0 + now.0, now.1, now.2)
        }
    }
}

/// A resync handed at `last` is what the log gives after `last`: strictly
/// increasing sequences, each after `last` and none after the log's newest,
/// which is not behind `last`.
pub open spec fn resync_fits(last: u64, input: StreamInput) -> bool {
    match input {
        StreamInput::Resync(delivered, newest) => {
            &&& last <= newest
            &&& forall|i: int, j: int|
                0 <= i < j < delivered.len() ==> #[trigger] delivered[i] < #[trigger] delivered[j]
            &&& forall|i: int| 0 <= i < delivered.len() ==> last < #[trigger] delivered[i] <= newest
        },
        _ => true,
    }
}

/// Over a whole stream nothing is delivered twice and nothing is lost to
/// order: whatever live events, resyncs from the log and bus news a stream
/// started after `after` is handed, the log frames it pushes carry strictly
/// increasing sequences, all after `after` and none after where it ends.
pub proof fn law_whole_stream_in_order(after: u64, inputs: Seq<StreamInput>)
    requires
        forall|i: int|
            0 <= i < inputs.len() ==> resync_fits(
                run_stream(after, inputs.take(i)).1,
                #[trigger] inputs[i],
            ),
    ensures
        after <= run_stream(after, inputs).1,
        forall|i: int, j: int|
            0 <= i < j < run_stream(after, inputs).0.len() ==> #[trigger] run_stream(
                after,
                inputs,
            ).0[i] < #[trigger] run_stream(after, inputs).0[j],
        forall|i: int|
            0 <= i < run_stream(after, inputs).0.len() ==> after < #[trigger] run_stream(
                after,
                inputs,
            ).0[i] <= run_stream(after, inputs).1,
    decreases inputs.len(),
{
    if inputs.len() > 0 {
        let init = inputs.drop_last();
        assert forall|i: int| 0 <= i < init.len() implies resync_fits(
            run_stream(after, init.take(i)).1,
            #[trigger] init[i],
        ) by {
            assert(init.take(i) =~= inputs.take(i));
            assert(init[i] == inputs[i]);
        }
        law_whole_stream_in_order(after, init);
        let before = run_stream(after, init);
        if !before.2 {
            let n = inputs.len() - 1;
            assert(inputs.take(n) =~= init);
            assert(resync_fits(before.1, inputs[n]));
            let now = step_view(before.1, inputs.last());
            let d = before.0 + now.0;
            assert(run_stream(after, inputs).0 == d);
            assert forall|i: int, j: int| 0 <= i < j < d.len() implies #[trigger] d[i] < #[trigger] d[j] by {
                if j < before.0.len() {
                    assert(d[i] == before.0[i] && d[j] == before.0[j]);
                } else if i < before.0.len() {
                    assert(d[i] == before.0[i]);
                    assert(d[j] == now.0[j - before.0.len()]);
                } else {
                    assert(d[i] == now.0[i - before.0.len()]);
                    assert(d[j] == now.0[j - before.0.len()]);
                }
            }
            assert forall|i: int| 0 <= i < d.len() implies after < #[trigger] d[i] <= now.1 by {
                if i < before.0.len() {
                    assert(d[i] == before.0[i]);
                } else {
                    assert(d[i] == now.0[i - before.0.len()]);
                }
            }
        }
    }
}

/// Delivery never repeats: after any live events, each one delivered is
/// newer than all delivered before it.
pub proof fn law_stream_delivers_in_order(last: u64, seqs: Seq<u64>)
    ensures
        forall|i: int, j: int|
            0 <= i < j < seqs.len() && delivered(last, seqs, i) && delivered(last, seqs, j)
                ==> #[trigger] seqs[i] < #[trigger] seqs[j],
{
    assert forall|i: int, j: int|
        0 <= i < j < seqs.len() && delivered(last, seqs, i) && delivered(last, seqs, j)
            implies #[trigger] seqs[i] < #[trigger] seqs[j] by {
        lemma_high_water_grows(last, seqs, i + 1, j);
    }
}

/// The newest sequence delivered after the first `n` live events.
pub open spec fn high_water(last: u64, seqs: Seq<u64>, n: int) -> u64
    decreases n,
{
    if n <= 0 {
        last
    } else {
        let h = high_water(last, seqs, n - 1);
        if seqs[n - 1] > h {
            seqs[n - 1]
        } else {
            h
        }
    }
}

/// The `i`-th live event is delivered.
pub open spec fn delivered(last: u64, seqs: Seq<u64>, i: int) -> bool {
    seqs[i] > high_water(last, seqs, i)
}

proof fn lemma_high_water_grows(last: u64, seqs: Seq<u64>, a: int, b: int)
    requires
        0 <= a <= b,
    ensures
        high_water(last, seqs, a) <= high_water(last, seqs, b),
        a >= 1 && delivered(last, seqs, a - 1) ==> high_water(last, seqs, a) == seqs[a - 1],
    decreases b - a,
{
    if a < b {
        lemma_high_water_grows(last, seqs, a, b - 1);
    }
}

} // verus!
