//! A session's state: identity, lifecycle, event log and derived facts —
//! everything the daemon decides about one session. The terminal process,
//! its pump and the screen emulator live around it and report here.
use vstd::prelude::*;

use crate::alert::{Alert, AlertInput, alert_spec, idle_secs, idle_secs_spec};
use crate::daemon::error::Error;
use crate::daemon::session_log::{
    LOG_CAP, LoadedLog, SessionLog, entries_view, opt_bytes, output_snippet, push_capped, snippet_spec,
};
use crate::event::{fold_status, fold_status_spec};
use crate::types::{split_words_spec, strings_view};
use crate::event::{EventKind, KindView, SessionEvent};
use crate::lifecycle::{LifecycleEvent, apply_spec};
use crate::sandbox::WorkingCopy;
use crate::path::{path_join, path_join_spec};
use crate::text::{str_eq, string_from};
use crate::types::{Clock, Command, Hostname, SessionId, SessionMeta, Status, TerminalSize, join_spec};

verus! {

/// Everything needed to launch one session's process.
pub struct SessionSpec {
    pub id: SessionId,
    pub name: Option<String>,
    pub command: Command,
    pub workspace: WorkingCopy,
    pub size: TerminalSize,
    /// Time source: the system clock in production; tests fix it to drive
    /// idle-alert derivation.
    pub clock: Clock,
}

/// Which handles of a live terminal process a session holds: the writer
/// (stdin), the master (window size) and the child (exit, kill). All three
/// appear together when a process starts; the child is taken when it exits.
#[derive(Debug, Clone, Copy, PartialEq, Eq, Structural)]
pub struct ProcessSlots {
    pub writer: bool,
    pub master: bool,
    pub child: bool,
}

impl ProcessSlots {
    /// No process.
    pub fn empty() -> (r: ProcessSlots)
        ensures
            !r.writer && !r.master && !r.child,
    {
        ProcessSlots { writer: false, master: false, child: false }
    }

    /// A process may start only when no child is held.
    pub fn may_open(&self) -> (r: Result<(), Error>)
        ensures
            self.child ==> r == Err::<(), Error>(Error::AlreadyRunning),
            !self.child ==> r is Ok,
    {
        if self.child {
            Err(Error::AlreadyRunning)
        } else {
            Ok(())
        }
    }

    /// Input needs the writer.
    pub fn input_target(&self) -> (r: Result<(), Error>)
        ensures
            self.writer ==> r is Ok,
            !self.writer ==> r == Err::<(), Error>(Error::NotRunning),
    {
        if self.writer {
            Ok(())
        } else {
            Err(Error::NotRunning)
        }
    }

    /// A resize needs the master.
    pub fn resize_target(&self) -> (r: Result<(), Error>)
        ensures
            self.master ==> r is Ok,
            !self.master ==> r == Err::<(), Error>(Error::NotRunning),
    {
        if self.master {
            Ok(())
        } else {
            Err(Error::NotRunning)
        }
    }
}

/// One session, as the daemon knows it.
pub struct SessionState {
    id: SessionId,
    name: Option<String>,
    command: Command,
    workspace: WorkingCopy,
    created: u64,
    status: Status,
    log: SessionLog,
    process: ProcessSlots,
    last_activity: u64,
    last_output: String,
    host: Hostname,
    clock: Clock,
    waiting: Option<bool>,
    last_state: Option<SessionMeta>,
}

impl SessionState {
    pub closed spec fn id_spec(&self) -> SessionId {
        self.id
    }

    pub closed spec fn name_spec(&self) -> Option<String> {
        self.name
    }

    pub closed spec fn command_spec(&self) -> Command {
        self.command
    }

    pub closed spec fn workspace_spec(&self) -> WorkingCopy {
        self.workspace
    }

    pub closed spec fn created_spec(&self) -> u64 {
        self.created
    }

    pub closed spec fn status_spec(&self) -> Status {
        self.status
    }

    pub closed spec fn log_spec(&self) -> SessionLog {
        self.log
    }

    pub closed spec fn process_spec(&self) -> ProcessSlots {
        self.process
    }

    pub closed spec fn last_activity_spec(&self) -> u64 {
        self.last_activity
    }

    pub closed spec fn last_output_spec(&self) -> Seq<char> {
        self.last_output@
    }

    pub closed spec fn host_spec(&self) -> Hostname {
        self.host
    }

    pub closed spec fn clock_spec(&self) -> Clock {
        self.clock
    }

    pub closed spec fn waiting_spec(&self) -> Option<bool> {
        self.waiting
    }

    /// The picture last handed out to watchers.
    pub closed spec fn published_spec(&self) -> Option<SessionMeta> {
        self.last_state
    }

    /// The log belongs to the session.
    pub closed spec fn wf(&self) -> bool {
        self.log.id_spec() == self.id
    }

    /// Register a session at `Preparing` — identity and a provisional
    /// working copy, no process yet. An empty command is refused. Its
    /// creation time is the clock's reading.
    pub fn register(spec: &SessionSpec, host: Hostname) -> (r: Result<SessionState, Error>)
        ensures
            spec.command@.len() == 0 ==> r == Err::<SessionState, Error>(
                Error::Domain(crate::error::Error::EmptyCommand),
            ),
            spec.command@.len() > 0 ==> (r matches Ok(s) && {
                &&& s.wf()
                &&& s.id_spec() == spec.id
                &&& s.name_spec() == spec.name
                &&& s.command_spec()@ == spec.command@
                &&& s.workspace_spec() == spec.workspace
                &&& s.status_spec() == Status::Preparing
                &&& s.log_spec().entries().len() == 0
                &&& s.log_spec().seq_spec() == 0
                &&& s.process_spec() == (ProcessSlots { writer: false, master: false, child: false })
                &&& s.last_activity_spec() == s.created_spec()
                &&& s.last_output_spec().len() == 0
                &&& s.host_spec() == host
                &&& s.clock_spec() == spec.clock
                &&& s.waiting_spec() is None
                &&& (spec.clock matches Clock::Fixed(t) ==> s.created_spec() == t)
                &&& s.published_spec() matches Some(l) && meta_of(l, s, s.created_spec())
            }),
    {
        if spec.command.is_empty() {
            return Err(Error::Domain(crate::error::Error::EmptyCommand));
        }
        let created = spec.clock.now_ms();
        let mut s = SessionState {
            id: spec.id.copy(),
            name: copy_name(&spec.name),
            command: spec.command.copy(),
            workspace: spec.workspace.copy(),
            created,
            status: Status::Preparing,
            log: SessionLog::new(spec.id.copy()),
            process: ProcessSlots::empty(),
            last_activity: created,
            last_output: String::new(),
            host,
            clock: spec.clock,
            waiting: None,
            last_state: None,
        };
        let initial = s.meta_at(created);
        s.last_state = Some(initial);
        Ok(s)
    }

    /// The session id.
    pub fn id(&self) -> (r: &SessionId)
        ensures
            *r == self.id_spec(),
    {
        &self.id
    }

    /// The exact argv the session runs with.
    pub fn command(&self) -> (r: &Command)
        ensures
            *r == self.command_spec(),
    {
        &self.command
    }

    /// The session's creation time.
    pub fn created(&self) -> (r: u64)
        ensures
            r == self.created_spec(),
    {
        self.created
    }

    /// The session's name.
    pub fn name(&self) -> (r: &Option<String>)
        ensures
            *r == self.name_spec(),
    {
        &self.name
    }

    /// The lifecycle state.
    pub fn status(&self) -> (r: Status)
        ensures
            r == self.status_spec(),
    {
        self.status
    }

    /// The working copy the session runs in.
    pub fn workspace(&self) -> (r: &WorkingCopy)
        ensures
            *r == self.workspace_spec(),
    {
        &self.workspace
    }

    /// The process handles held.
    pub fn process(&self) -> (r: ProcessSlots)
        ensures
            r == self.process_spec(),
    {
        self.process
    }

    /// The event log.
    pub fn log(&self) -> (r: &SessionLog)
        ensures
            *r == self.log_spec(),
    {
        &self.log
    }

    /// Rename (`None` clears the name).
    pub fn rename(&mut self, name: Option<String>)
        ensures
            final(self).name_spec() == name,
            final(self).status_spec() == old(self).status_spec(),
            final(self).log_spec() == old(self).log_spec(),
            final(self).id_spec() == old(self).id_spec(),
            old(self).wf() ==> final(self).wf(),
    {
        self.name = name;
    }

    /// Replace the working copy (the launch materializes the real one over
    /// the provisional one).
    pub fn set_workspace(&mut self, workspace: WorkingCopy)
        ensures
            final(self).workspace_spec() == workspace,
            final(self).status_spec() == old(self).status_spec(),
            final(self).log_spec() == old(self).log_spec(),
            final(self).id_spec() == old(self).id_spec(),
            old(self).wf() ==> final(self).wf(),
    {
        self.workspace = workspace;
    }

    /// Set the time source.
    pub fn set_clock(&mut self, clock: Clock)
        ensures
            final(self).clock_spec() == clock,
            final(self).status_spec() == old(self).status_spec(),
            final(self).log_spec() == old(self).log_spec(),
            final(self).id_spec() == old(self).id_spec(),
            old(self).wf() ==> final(self).wf(),
    {
        self.clock = clock;
    }
}

/// The age of a session in whole seconds (0 when the clock reads earlier
/// than its creation).
pub open spec fn age_secs_spec(created: u64, now: u64) -> u64 {
    if now >= created {
        ((now - created) / 1000) as u64
    } else {
        0
    }
}

/// `m` is the picture of session `s` at time `now`.
pub open spec fn meta_of(m: SessionMeta, s: SessionState, now: u64) -> bool {
    &&& m.id == s.id_spec()
    &&& m.name == s.name_spec()
    &&& m.command@ == join_spec(s.command_spec()@, seq![' '])
    &&& m.args@ == s.command_spec()@
    &&& m.cwd@ == s.workspace_spec().path@
    &&& m.workspace == s.workspace_spec()
    &&& m.created == s.created_spec()
    &&& m.host == s.host_spec()
    &&& m.status == s.status_spec()
    &&& m.last_activity == s.last_activity_spec()
    &&& m.last_output@ == s.last_output_spec()
    &&& m.alert == alert_spec(s.status_spec(), idle_secs_spec(s.last_activity_spec(), now))
    &&& m.waiting_for_input == s.waiting_spec()
    &&& m.idle_secs == idle_secs_spec(s.last_activity_spec(), now)
    &&& m.age_secs == age_secs_spec(s.created_spec(), now)
}

/// Two optional texts with the same characters.
pub open spec fn same_opt_text(a: Option<String>, b: Option<String>) -> bool {
    match (a, b) {
        (Some(x), Some(y)) => x@ == y@,
        (None, None) => true,
        _ => false,
    }
}

/// Two pictures that say the same.
pub open spec fn same_meta_spec(a: SessionMeta, b: SessionMeta) -> bool {
    &&& a.id@ == b.id@
    &&& same_opt_text(a.name, b.name)
    &&& a.command@ == b.command@
    &&& a.args@ == b.args@
    &&& a.cwd@ == b.cwd@
    &&& a.workspace.kind == b.workspace.kind
    &&& same_opt_text(a.workspace.repo, b.workspace.repo)
    &&& same_opt_text(a.workspace.branch, b.workspace.branch)
    &&& a.workspace.path@ == b.workspace.path@
    &&& a.created == b.created
    &&& a.host@ == b.host@
    &&& a.status == b.status
    &&& a.last_activity == b.last_activity
    &&& a.last_output@ == b.last_output@
    &&& a.alert == b.alert
    &&& a.waiting_for_input == b.waiting_for_input
    &&& a.idle_secs == b.idle_secs
    &&& a.age_secs == b.age_secs
}

fn same_opt(a: &Option<String>, b: &Option<String>) -> (r: bool)
    ensures
        r == same_opt_text(*a, *b),
{
    match (a, b) {
        (Some(x), Some(y)) => str_eq(x.as_str(), y.as_str()),
        (None, None) => true,
        _ => false,
    }
}

fn same_args(a: &Command, b: &Command) -> (r: bool)
    ensures
        r == (a@ == b@),
{
    let x = a.as_args();
    let y = b.as_args();
    if x.len() != y.len() {
        proof {
            assert(a@.len() != b@.len());
        }
        return false;
    }
    let mut i: usize = 0;
    while i < x.len()
        invariant
            x@ == a.0@,
            y@ == b.0@,
            x.len() == y.len(),
            i <= x.len(),
            forall|k: int| 0 <= k < i ==> a@[k] == b@[k],
        decreases x.len() - i,
    {
        if !str_eq(x[i].as_str(), y[i].as_str()) {
            proof {
                assert(a@[i as int] != b@[i as int]);
            }
            return false;
        }
        i = i + 1;
    }
    proof {
        assert(a@ =~= b@);
    }
    true
}

/// Whether two pictures say the same.
pub fn same_meta(a: &SessionMeta, b: &SessionMeta) -> (r: bool)
    ensures
        r == same_meta_spec(*a, *b),
{
    str_eq(a.id.as_str(), b.id.as_str()) && same_opt(&a.name, &b.name) && str_eq(
        a.command.as_str(),
        b.command.as_str(),
    ) && same_args(&a.args, &b.args) && str_eq(a.cwd.as_str(), b.cwd.as_str())
        && a.workspace.kind == b.workspace.kind && same_opt(&a.workspace.repo, &b.workspace.repo)
        && same_opt(&a.workspace.branch, &b.workspace.branch) && str_eq(
        a.workspace.path.as_str(),
        b.workspace.path.as_str(),
    ) && a.created == b.created && str_eq(a.host.as_str(), b.host.as_str()) && a.status
        == b.status && a.last_activity == b.last_activity && str_eq(
        a.last_output.as_str(),
        b.last_output.as_str(),
    ) && a.alert == b.alert && a.waiting_for_input == b.waiting_for_input && a.idle_secs
        == b.idle_secs && a.age_secs == b.age_secs
}

/// What driving the lifecycle one event forward does to a session (its
/// process handles aside): an illegal event is refused with the status it
/// met and changes nothing; a legal one sets the status, and a change is
/// logged as one status entry, after which a session that is not running
/// waits for no one; no change logs nothing. Identity, working copy,
/// activity, snippet and clock are kept.
pub open spec fn transition_effect(
    o: SessionState,
    n: SessionState,
    event: LifecycleEvent,
    r: Result<Vec<SessionEvent>, Error>,
) -> bool {
    &&& n.id_spec() == o.id_spec()
    &&& n.name_spec() == o.name_spec()
    &&& n.workspace_spec() == o.workspace_spec()
    &&& n.last_output_spec() == o.last_output_spec()
    &&& n.last_activity_spec() == o.last_activity_spec()
    &&& n.clock_spec() == o.clock_spec()
    &&& match apply_spec(o.status_spec(), event) {
        None => r matches Err(Error::Domain(crate::error::Error::IllegalTransition(f, _)))
            && f == o.status_spec() && n.status_spec() == o.status_spec() && n.log_spec()
            == o.log_spec() && n.waiting_spec() == o.waiting_spec(),
        Some(st) => r matches Ok(evs) && n.status_spec() == st && if st == o.status_spec() {
            evs@.len() == 0 && n.log_spec() == o.log_spec() && n.waiting_spec() == o.waiting_spec()
        } else {
            &&& evs@.len() == 1
            &&& evs@[0].kind == EventKind::Status(st)
            &&& evs@[0].seq == n.log_spec().seq_spec()
            &&& evs@[0].session == o.id_spec()
            &&& (o.clock_spec() matches Clock::Fixed(t) ==> evs@[0].ts == t)
            &&& n.log_spec().seq_spec() == o.log_spec().seq_spec() + 1
            &&& n.log_spec().entries() == push_capped(
                o.log_spec().entries(),
                (n.log_spec().seq_spec(), KindView::Status(st)),
            )
            &&& n.waiting_spec() == (if st == Status::Running {
                o.waiting_spec()
            } else {
                None
            })
            &&& (o.log_spec().wf() ==> n.log_spec().wf())
        },
    }
}

impl SessionState {
    /// Drive the lifecycle one event forward — the only write path for the
    /// status. An illegal event is refused and changes nothing; a change is
    /// logged as a status entry (a session that stops running is no longer
    /// waiting for anyone); no change logs nothing.
    pub fn transition(&mut self, event: LifecycleEvent) -> (r: Result<Vec<SessionEvent>, Error>)
        requires
            old(self).wf(),
            old(self).log_spec().seq_spec() < u64::MAX,
        ensures
            final(self).wf(),
            final(self).process_spec() == old(self).process_spec(),
            transition_effect(*old(self), *final(self), event, r),
    {
        let next = match self.status.apply(&event) {
            Ok(n) => n,
            Err(e) => {
                return Err(Error::Domain(e));
            },
        };
        let mut out: Vec<SessionEvent> = Vec::new();
        if next == self.status {
            return Ok(out);
        }
        self.status = next;
        if next != Status::Running {
            self.waiting = None;
        }
        let ts = self.clock.now_ms();
        let ev = self.log.append(EventKind::Status(next), ts);
        out.push(ev);
        Ok(out)
    }

    /// Append an event: the first output of a booting session first flips
    /// it to running (so the log orders that status before the output);
    /// output also stamps the last activity and the snippet. Returns the
    /// events to broadcast and write, in order.
    pub fn append(&mut self, kind: EventKind) -> (r: Vec<SessionEvent>)
        requires
            old(self).wf(),
            old(self).log_spec().seq_spec() < u64::MAX - 1,
        ensures
            final(self).wf(),
            final(self).id_spec() == old(self).id_spec(),
            final(self).name_spec() == old(self).name_spec(),
            final(self).workspace_spec() == old(self).workspace_spec(),
            final(self).process_spec() == old(self).process_spec(),
            final(self).clock_spec() == old(self).clock_spec(),
            final(self).waiting_spec() == old(self).waiting_spec(),
            ({
                let boot = old(self).status_spec() == Status::Starting && kind is Output;
                let s0 = old(self).log_spec().seq_spec();
                let e0 = old(self).log_spec().entries();
                &&& final(self).status_spec() == (if boot {
                    Status::Running
                } else {
                    old(self).status_spec()
                })
                &&& r@.len() == (if boot { 2int } else { 1int })
                &&& r@.last().kind@ == kind@
                &&& r@.last().seq == final(self).log_spec().seq_spec()
                &&& r@.last().session == old(self).id_spec()
                &&& (old(self).clock_spec() matches Clock::Fixed(t) ==> forall|k: int|
                    0 <= k < r@.len() ==> #[trigger] r@[k].ts == t)
                &&& final(self).log_spec().seq_spec() == s0 + r@.len()
                &&& (boot ==> r@[0].kind == EventKind::Status(Status::Running) && r@[0].seq == s0
                    + 1 && final(self).log_spec().entries() == push_capped(
                    push_capped(e0, ((s0 + 1) as u64, KindView::Status(Status::Running))),
                    ((s0 + 2) as u64, kind@),
                ))
                &&& (!boot ==> final(self).log_spec().entries() == push_capped(
                    e0,
                    ((s0 + 1) as u64, kind@),
                ))
                &&& (old(self).log_spec().wf() ==> final(self).log_spec().wf())
                &&& match kind {
                    EventKind::Output(b) => final(self).last_activity_spec() == r@.last().ts
                        && final(self).last_output_spec() == snippet_spec(b@),
                    EventKind::Status(_) => final(self).last_activity_spec() == old(
                        self,
                    ).last_activity_spec() && final(self).last_output_spec() == old(
                        self,
                    ).last_output_spec(),
                }
            }),
    {
        let mut out: Vec<SessionEvent> = Vec::new();
        let boot = match &kind {
            EventKind::Output(_) => self.status == Status::Starting,
            EventKind::Status(_) => false,
        };
        if boot {
            match self.transition(LifecycleEvent::Output) {
                Ok(evs) => {
                    out = evs;
                },
                Err(_) => {},
            }
        }
        let ts = self.clock.now_ms();
        match &kind {
            EventKind::Output(bytes) => {
                self.last_activity = ts;
                self.last_output = crate::daemon::session_log::output_snippet(bytes.as_slice());
            },
            EventKind::Status(_) => {},
        }
        let ev = self.log.append(kind, ts);
        out.push(ev);
        out
    }

    /// The process is up: its handles are held and the session moves to
    /// `Starting` (from `Preparing` on launch, from `Interrupted` on
    /// resume).
    pub fn process_started(&mut self) -> (r: Result<Vec<SessionEvent>, Error>)
        requires
            old(self).wf(),
            old(self).log_spec().seq_spec() < u64::MAX,
        ensures
            final(self).wf(),
            final(self).process_spec() == (ProcessSlots { writer: true, master: true, child: true }),
            transition_effect(*old(self), *final(self), LifecycleEvent::Spawned, r),
    {
        self.process = ProcessSlots { writer: true, master: true, child: true };
        self.transition(LifecycleEvent::Spawned)
    }

    /// The process exited (its output reached end of file and the child was
    /// waited for): the child is released and the exit recorded, from a
    /// live state; from any other the status stays.
    pub fn process_exited(&mut self, code: Option<i32>) -> (r: Vec<SessionEvent>)
        requires
            old(self).wf(),
            old(self).log_spec().seq_spec() < u64::MAX,
        ensures
            final(self).wf(),
            !final(self).process_spec().child,
            final(self).process_spec().writer == old(self).process_spec().writer,
            final(self).process_spec().master == old(self).process_spec().master,
            match apply_spec(old(self).status_spec(), LifecycleEvent::Exited(code)) {
                Some(_) => transition_effect(
                    *old(self),
                    *final(self),
                    LifecycleEvent::Exited(code),
                    Ok(r),
                ),
                None => r@.len() == 0 && transition_effect(
                    *old(self),
                    *final(self),
                    LifecycleEvent::Exited(code),
                    Err(Error::Domain(
                        crate::error::Error::IllegalTransition(old(self).status_spec(), "exited"),
                    )),
                ),
            },
    {
        self.process.child = false;
        match self.transition(LifecycleEvent::Exited(code)) {
            Ok(evs) => evs,
            Err(_) => Vec::new(),
        }
    }

    /// Only an interrupted session may be resumed.
    pub fn resume_check(&self) -> (r: Result<(), Error>)
        ensures
            self.status_spec() == Status::Interrupted ==> r is Ok,
            self.status_spec() != Status::Interrupted ==> r == Err::<(), Error>(
                Error::ResumeNotInterrupted(self.status_spec()),
            ),
    {
        if self.status != Status::Interrupted {
            Err(Error::ResumeNotInterrupted(self.status))
        } else {
            Ok(())
        }
    }

    /// Log entries after `after`, and the latest sequence.
    pub fn snapshot_and_last(&self, after: u64) -> (r: (Vec<SessionEvent>, u64))
        ensures
            crate::daemon::session_log::events_for(
                r.0@,
                self.log_spec().id_spec(),
                crate::daemon::session_log::entries_after(self.log_spec().entries(), after),
            ),
            r.1 == (if self.log_spec().entries().len() == 0 {
                0
            } else {
                self.log_spec().entries().last().0
            }),
    {
        self.log.snapshot_after(after)
    }

    /// Seconds since the last output, at `now`.
    pub fn idle_secs_at(&self, now: u64) -> (r: u64)
        ensures
            r == idle_secs_spec(self.last_activity_spec(), now),
    {
        idle_secs(self.last_activity, now)
    }

    /// Does this session need a human at `now`, and why?
    pub fn alert_at(&self, now: u64) -> (r: Option<Alert>)
        ensures
            r == alert_spec(self.status_spec(), idle_secs_spec(self.last_activity_spec(), now)),
    {
        AlertInput { status: self.status, idle_secs: idle_secs(self.last_activity, now) }.alert()
    }

    /// The complete picture of this session at `now`: identity plus the
    /// derived facts (alert, waiting, time).
    pub fn meta_at(&self, now: u64) -> (r: SessionMeta)
        ensures
            meta_of(r, *self, now),
    {
        let idle = idle_secs(self.last_activity, now);
        SessionMeta {
            id: self.id.copy(),
            name: copy_name(&self.name),
            command: self.command.display(),
            args: self.command.copy(),
            cwd: self.workspace.path.clone(),
            workspace: self.workspace.copy(),
            created: self.created,
            host: Hostname(self.host.0.clone()),
            status: self.status,
            last_activity: self.last_activity,
            last_output: self.last_output.clone(),
            alert: AlertInput { status: self.status, idle_secs: idle }.alert(),
            waiting_for_input: self.waiting,
            idle_secs: idle,
            age_secs: now.saturating_sub(self.created) / 1000,
        }
    }

    /// The picture at the clock's reading.
    pub fn meta(&self) -> (r: SessionMeta)
        ensures
            exists|now: u64| meta_of(r, *self, now),
            self.clock_spec() matches Clock::Fixed(t) ==> meta_of(r, *self, t),
    {
        let now = self.clock.now_ms();
        self.meta_at(now)
    }

    /// Store the harness's answer to "is it waiting for the human?";
    /// whether it changed.
    pub fn set_waiting(&mut self, waiting: Option<bool>) -> (r: bool)
        ensures
            final(self).waiting_spec() == waiting,
            r == (old(self).waiting_spec() != waiting),
            final(self).status_spec() == old(self).status_spec(),
            final(self).log_spec() == old(self).log_spec(),
            final(self).id_spec() == old(self).id_spec(),
            old(self).wf() ==> final(self).wf(),
    {
        let changed = self.waiting != waiting;
        self.waiting = waiting;
        changed
    }

    /// Re-derive the picture and hand it back when it differs from the last
    /// one published (`None`: nothing changed, nothing to send).
    pub fn publish_state(&mut self) -> (r: Option<SessionMeta>)
        ensures
            final(self).status_spec() == old(self).status_spec(),
            final(self).log_spec() == old(self).log_spec(),
            final(self).id_spec() == old(self).id_spec(),
            old(self).wf() ==> final(self).wf(),
            match r {
                Some(m) => exists|now: u64| meta_of(m, *old(self), now),
                None => true,
            },
            match r {
                Some(m) => (old(self).published_spec() matches Some(l) ==> !same_meta_spec(l, m))
                    && (final(self).published_spec() matches Some(l) && same_meta_spec(l, m)),
                None => final(self).published_spec() == old(self).published_spec() && exists|
                    now: u64,
                    m: SessionMeta,
                |
                    meta_of(m, *old(self), now) && (old(self).published_spec() matches Some(l)
                        && same_meta_spec(l, m)),
            },
    {
        let now = self.clock.now_ms();
        let m = self.meta_at(now);
        let changed = match &self.last_state {
            Some(last) => !same_meta(last, &m),
            None => true,
        };
        if changed {
            let out = SessionMeta {
                id: m.id.copy(),
                name: copy_name(&m.name),
                command: m.command.clone(),
                args: m.args.copy(),
                cwd: m.cwd.clone(),
                workspace: m.workspace.copy(),
                created: m.created,
                host: Hostname(m.host.0.clone()),
                status: m.status,
                last_activity: m.last_activity,
                last_output: m.last_output.clone(),
                alert: m.alert,
                waiting_for_input: m.waiting_for_input,
                idle_secs: m.idle_secs,
                age_secs: m.age_secs,
            };
            assert(meta_of(out, *old(self), now));
            self.last_state = Some(m);
            Some(out)
        } else {
            None
        }
    }
}

// ---------------------------------------------------------------------------
// The on-disk record, and restore
// ---------------------------------------------------------------------------

/// Current on-disk meta format. Files without a `format` are format 1.
pub const META_FORMAT: u32 = 1;

/// The on-disk session record (`meta.json`): identity and lifecycle facts.
/// Derived state (alert, snippet) is not stored; restore derives it again.
pub struct StoredMeta {
    /// On-disk format version (absent: 1, written before versioning).
    pub format: Option<u32>,
    /// The command's display string.
    pub command: String,
    pub args: Vec<String>,
    pub cwd: Option<String>,
    pub created: u64,
    pub name: Option<String>,
    pub workspace: Option<WorkingCopy>,
}

/// `m` is the on-disk record of session `s`: the current format, the
/// command's display string and argv, the working copy (and its path as
/// `cwd`), the creation time and the name.
pub open spec fn stored_record(s: SessionState, m: StoredMeta) -> bool {
    &&& m.format == Some(META_FORMAT)
    &&& m.command@ == join_spec(s.command_spec()@, seq![' '])
    &&& strings_view(m.args@) == s.command_spec()@
    &&& m.cwd matches Some(c) && c@ == s.workspace_spec().path@
    &&& m.created == s.created_spec()
    &&& m.name == s.name_spec()
    &&& m.workspace == Some(s.workspace_spec())
}

impl StoredMeta {
    /// The record for a live session.
    pub fn from_session(s: &SessionState) -> (r: StoredMeta)
        ensures
            stored_record(*s, r),
    {
        let args = s.command.copy();
        StoredMeta {
            format: Some(META_FORMAT),
            command: s.command.display(),
            args: args.0,
            cwd: Some(s.workspace.path.clone()),
            created: s.created,
            name: copy_name(&s.name),
            workspace: Some(s.workspace.copy()),
        }
    }

    /// A record written by a newer Bao is refused (`NewerFormat`), never
    /// misread.
    pub fn check_format(self) -> (r: Result<StoredMeta, Error>)
        ensures
            match self.format {
                Some(f) => if f > META_FORMAT {
                    r == Err::<StoredMeta, Error>(Error::NewerFormat(f))
                } else {
                    r == Ok::<StoredMeta, Error>(self)
                },
                None => r == Ok::<StoredMeta, Error>(self),
            },
    {
        match self.format {
            Some(f) => {
                if f > META_FORMAT {
                    return Err(Error::NewerFormat(f));
                }
            },
            None => {},
        }
        Ok(self)
    }
}

/// The identity of a restored session: from a readable meta, or honest
/// defaults when the meta is salvaged as damaged.
pub struct RestoredIdentity {
    pub name: Option<String>,
    pub command: Command,
    pub workspace: WorkingCopy,
    pub created: u64,
    pub status: Status,
}

/// The command of a stored record: its argv, or (an older record) its
/// display string split into words, or nothing.
pub open spec fn stored_command(args: Seq<String>, display: Seq<char>) -> Seq<Seq<char>> {
    if args.len() > 0 {
        strings_view(args)
    } else {
        split_words_spec(display)
    }
}

/// `id` is who a readable record restores as: its name, command (argv, or
/// the display string split into words for an older record), working copy
/// (the user's directory at `cwd` when none was stored) and creation time,
/// with the status folded from the log.
pub open spec fn identity_from_record(m: StoredMeta, loaded: LoadedLog, id: RestoredIdentity) -> bool {
    &&& id.name == m.name
    &&& id.command@ == stored_command(m.args@, m.command@)
    &&& match m.workspace {
        Some(w) => id.workspace == w,
        None => id.workspace.kind == crate::sandbox::SandboxKind::InPlace && id.workspace.repo is None
            && id.workspace.branch is None && id.workspace.path@ == match m.cwd {
            Some(c) => c@,
            None => Seq::<char>::empty(),
        },
    }
    &&& id.created == m.created
    &&& id.status == fold_status_spec(loaded.log@)
}

/// The record written for a session reads back as that session: it passes
/// the format check, and restoring from it gives back the session's name,
/// command, working copy and creation time.
pub proof fn law_record_reads_back(s: SessionState, m: StoredMeta, loaded: LoadedLog, id: RestoredIdentity)
    requires
        stored_record(s, m),
        identity_from_record(m, loaded, id),
    ensures
        !(m.format matches Some(f) && f > META_FORMAT),
        id.name == s.name_spec(),
        id.command@ == s.command_spec()@,
        id.workspace == s.workspace_spec(),
        id.created == s.created_spec(),
{
    if s.command_spec()@.len() == 0 {
        assert(m.args@.len() == 0);
        assert(m.command@ == Seq::<char>::empty());
        assert(split_words_spec(Seq::<char>::empty()) =~= Seq::<Seq<char>>::empty());
    }
}

/// Who a session directory restores as. A readable meta gives the name,
/// command, working copy (the user's directory at `cwd` when none was
/// stored) and creation time, the status folded from the log. No meta:
/// not a session (`None`). An unreadable meta is salvaged: no name or
/// command, in place at the session's own directory, created at the log's
/// first entry (else `now`), `Damaged`.
pub fn restored_identity(
    meta: Result<Option<StoredMeta>, Error>,
    loaded: &LoadedLog,
    data_dir: &str,
    now: u64,
) -> (r: Option<RestoredIdentity>)
    ensures
        match meta {
            Ok(Some(m)) => r matches Some(id) && identity_from_record(m, *loaded, id),
            Ok(None) => r is None,
            Err(_) => r matches Some(id) && {
                &&& id.name is None
                &&& id.command@.len() == 0
                &&& id.workspace.kind == crate::sandbox::SandboxKind::InPlace
                &&& id.workspace.repo is None
                &&& id.workspace.branch is None
                &&& id.workspace.path@ == data_dir@
                &&& id.created == (if loaded.first_ts > 0 { loaded.first_ts } else { now })
                &&& id.status == Status::Damaged
            },
        },
{
    match meta {
        Ok(Some(stored)) => {
            let cwd = match &stored.cwd {
                Some(c) => c.clone(),
                None => String::new(),
            };
            let command = if stored.args.len() == 0 {
                match Command::parse(stored.command.as_str()) {
                    Ok(c) => c,
                    Err(_) => Command::from_args(Vec::new()),
                }
            } else {
                Command::from_args(stored.args)
            };
            proof {
                if stored.args@.len() == 0 {
                    assert(command@.len() == 0 ==> command@ =~= split_words_spec(stored.command@));
                }
            }
            let workspace = match stored.workspace {
                Some(w) => w,
                None => WorkingCopy::in_place(cwd.as_str()),
            };
            let status = fold_status(&loaded.log);
            Some(
                RestoredIdentity {
                    name: stored.name,
                    command,
                    workspace,
                    created: stored.created,
                    status,
                },
            )
        },
        Ok(None) => None,
        Err(_) => {
            let created = if loaded.first_ts > 0 {
                loaded.first_ts
            } else {
                now
            };
            let r = RestoredIdentity {
                name: None,
                command: Command::from_args(Vec::new()),
                workspace: WorkingCopy::in_place(data_dir),
                created,
                status: Status::Damaged,
            };
            assert(r.command@ =~= Seq::<Seq<char>>::empty());
            Some(r)
        },
    }
}

impl SessionState {
    /// A session rebuilt from its identity and its log: the log's ring and
    /// sequence continue, the last activity is the log's last timestamp, the
    /// snippet comes from the newest output, no process, the system clock,
    /// the picture at `now` taken as already published.
    pub fn restored(id: SessionId, identity: RestoredIdentity, loaded: LoadedLog, host: Hostname, now: u64) -> (r: SessionState)
        ensures
            r.wf(),
            r.id_spec() == id,
            r.name_spec() == identity.name,
            r.command_spec() == identity.command,
            r.workspace_spec() == identity.workspace,
            r.created_spec() == identity.created,
            r.status_spec() == identity.status,
            r.log_spec().entries() == entries_view(loaded.log@),
            r.log_spec().seq_spec() == loaded.last_seq,
            r.process_spec() == (ProcessSlots { writer: false, master: false, child: false }),
            r.last_activity_spec() == loaded.last_ts,
            r.last_output_spec() == match opt_bytes(loaded.last_output) {
                Some(b) => snippet_spec(b),
                None => Seq::<char>::empty(),
            },
            r.host_spec() == host,
            r.clock_spec() == Clock::System,
            r.waiting_spec() is None,
            r.published_spec() matches Some(l) && meta_of(l, r, now),
    {
        let snippet = match &loaded.last_output {
            Some(b) => output_snippet(b.as_slice()),
            None => String::new(),
        };
        let mut s = SessionState {
            log: SessionLog::restored(id.copy(), loaded.log, loaded.last_seq),
            id,
            name: identity.name,
            command: identity.command,
            workspace: identity.workspace,
            created: identity.created,
            status: identity.status,
            process: ProcessSlots::empty(),
            last_activity: loaded.last_ts,
            last_output: snippet,
            host,
            clock: Clock::System,
            waiting: None,
            last_state: None,
        };
        let initial = s.meta_at(now);
        s.last_state = Some(initial);
        s
    }
}

/// A directory of the session store as found on disk: its name (the
/// session id), its path, and what reading its `meta.json` and its
/// `events.log` gave.
pub struct FoundDir {
    pub name: String,
    pub path: String,
    pub meta: Result<Option<StoredMeta>, Error>,
    pub log: LoadedLog,
}

/// A directory holds a session unless it has no `meta.json`.
pub open spec fn holds_session(d: FoundDir) -> bool {
    !(d.meta matches Ok(None))
}

/// `s` is what directory `d` restores as on host `host` at `now`: the
/// session named by the directory, with its log, its last activity the
/// log's last timestamp, its snippet from the log's newest output, on the
/// system clock, not waiting and with no process; from a readable record
/// its name, command, working copy, creation time and the status folded
/// from the log; from an unreadable one no name or command, in place at
/// the directory, created at the log's first entry (else `now`),
/// `Damaged`.
pub open spec fn restored_from(s: SessionState, d: FoundDir, host: Hostname, now: u64) -> bool {
    &&& s.wf()
    &&& s.id_spec()@ == d.name@
    &&& s.log_spec().entries() == entries_view(d.log.log@)
    &&& s.log_spec().seq_spec() == d.log.last_seq
    &&& s.host_spec()@ == host@
    &&& s.process_spec() == (ProcessSlots { writer: false, master: false, child: false })
    &&& s.last_activity_spec() == d.log.last_ts
    &&& s.last_output_spec() == match opt_bytes(d.log.last_output) {
        Some(b) => snippet_spec(b),
        None => Seq::<char>::empty(),
    }
    &&& s.clock_spec() == Clock::System
    &&& s.waiting_spec() is None
    &&& match d.meta {
        Ok(Some(m)) => {
            &&& s.name_spec() == m.name
            &&& s.command_spec()@ == stored_command(m.args@, m.command@)
            &&& match m.workspace {
                Some(w) => s.workspace_spec() == w,
                None => s.workspace_spec().kind == crate::sandbox::SandboxKind::InPlace
                    && s.workspace_spec().repo is None && s.workspace_spec().branch is None
                    && s.workspace_spec().path@ == match m.cwd {
                    Some(c) => c@,
                    None => Seq::<char>::empty(),
                },
            }
            &&& s.created_spec() == m.created
            &&& s.status_spec() == fold_status_spec(d.log.log@)
        },
        _ => {
            &&& s.name_spec() is None
            &&& s.command_spec()@.len() == 0
            &&& s.workspace_spec().kind == crate::sandbox::SandboxKind::InPlace
            &&& s.workspace_spec().repo is None
            &&& s.workspace_spec().branch is None
            &&& s.workspace_spec().path@ == d.path@
            &&& s.created_spec() == (if d.log.first_ts > 0 { d.log.first_ts } else { now })
            &&& s.status_spec() == Status::Damaged
        },
    }
}

/// Restore a whole store: each directory holding a session, in order,
/// restored as `restored_from` says; directories without a `meta.json`
/// are skipped. No restored session is live: its process is gone.
pub fn restore_store(dirs: Vec<FoundDir>, host: &Hostname, now: u64) -> (r: Vec<SessionState>)
    ensures
        r@.len() == dirs@.filter(|d: FoundDir| holds_session(d)).len(),
        forall|k: int|
            0 <= k < r@.len() ==> restored_from(
                #[trigger] r@[k],
                dirs@.filter(|d: FoundDir| holds_session(d))[k],
                *host,
                now,
            ),
        forall|k: int| 0 <= k < r@.len() ==> !crate::event::is_live(#[trigger] r@[k].status_spec()),
{
    let ghost all = dirs@;
    let ghost p = |d: FoundDir| holds_session(d);
    assert(all.len() == dirs.len());
    let mut rest = dirs;
    let mut out: Vec<SessionState> = Vec::new();
    let mut i: usize = 0;
    assert(all.take(0).filter(p) =~= Seq::<FoundDir>::empty()) by {
        reveal(Seq::filter);
    }
    while rest.len() > 0
        invariant
            p == (|d: FoundDir| holds_session(d)),
            all.len() <= usize::MAX,
            i + rest@.len() == all.len(),
            rest@ == all.subrange(i as int, all.len() as int),
            out@.len() == all.take(i as int).filter(p).len(),
            forall|k: int|
                0 <= k < out@.len() ==> restored_from(
                    #[trigger] out@[k],
                    all.take(i as int).filter(p)[k],
                    *host,
                    now,
                ),
            forall|k: int| 0 <= k < out@.len() ==> !crate::event::is_live(#[trigger] out@[k].status_spec()),
        decreases rest@.len(),
    {
        let d = rest.remove(0);
        proof {
            assert(d == all[i as int]);
            assert(all.take(i + 1) =~= all.take(i as int).push(d));
            all.take(i as int).lemma_filter_push(d, p);
        }
        let ghost dv = d;
        let FoundDir { name, path, meta, log } = d;
        let found = restored_identity(meta, &log, path.as_str(), now);
        match found {
            Some(identity) => {
                let h = Hostname(string_from(host.as_str()));
                let st = SessionState::restored(SessionId::new(name.as_str()), identity, log, h, now);
                proof {
                    crate::event::law_restored_status_is_never_live(dv.log.log@);
                }
                let ghost sv = st;
                let ghost before = out@;
                out.push(st);
                proof {
                    assert(holds_session(dv));
                    assert(restored_from(sv, dv, *host, now));
                    let f0 = all.take(i as int).filter(p);
                    let f1 = all.take(i + 1).filter(p);
                    assert(f1 == f0.push(dv));
                    assert forall|k: int| 0 <= k < out@.len() implies restored_from(
                        #[trigger] out@[k],
                        all.take(i + 1).filter(p)[k],
                        *host,
                        now,
                    ) by {
                        if k < before.len() {
                            assert(out@[k] == before[k]);
                            assert(f1[k] == f0[k]);
                        } else {
                            assert(out@[k] == sv);
                            assert(f1[k] == dv);
                        }
                    }
                    assert forall|k: int| 0 <= k < out@.len() implies !crate::event::is_live(
                        #[trigger] out@[k].status_spec(),
                    ) by {
                        if k < before.len() {
                            assert(out@[k] == before[k]);
                        }
                    }
                }
            },
            None => {
                proof {
                    assert(!holds_session(dv));
                    assert(all.take(i + 1).filter(p) == all.take(i as int).filter(p));
                }
            },
        }
        i = i + 1;
        proof {
            assert(rest@ =~= all.subrange(i as int, all.len() as int));
        }
    }
    proof {
        assert(all.take(i as int) =~= all);
    }
    out
}

/// The on-disk home of sessions: one directory per session, under one
/// root, holding `meta.json` (written whole through `meta.json.tmp`) and
/// the append-only `events.log`.
pub struct SessionStore {
    pub dir: String,
}

impl SessionStore {
    pub fn new(dir: String) -> (r: SessionStore)
        ensures
            r.dir == dir,
    {
        SessionStore { dir }
    }

    /// The store root.
    pub fn dir(&self) -> (r: &str)
        ensures
            r@ == self.dir@,
    {
        self.dir.as_str()
    }

    /// `<root>/<id>`: one session's directory.
    pub fn dir_for(&self, id: &SessionId) -> (r: String)
        ensures
            r@ == path_join_spec(self.dir@, id@),
    {
        path_join(self.dir.as_str(), id.as_str())
    }

    /// `<root>/<id>/meta.json`.
    pub fn meta_path(&self, id: &SessionId) -> (r: String)
        ensures
            r@ == path_join_spec(path_join_spec(self.dir@, id@), "meta.json"@),
    {
        let d = self.dir_for(id);
        path_join(d.as_str(), "meta.json")
    }

    /// `<root>/<id>/meta.json.tmp`: where a new meta is written before it
    /// replaces the old one, so a crash never leaves a truncated meta.
    pub fn meta_tmp_path(&self, id: &SessionId) -> (r: String)
        ensures
            r@ == path_join_spec(path_join_spec(self.dir@, id@), "meta.json.tmp"@),
    {
        let d = self.dir_for(id);
        path_join(d.as_str(), "meta.json.tmp")
    }

    /// `<root>/<id>/events.log`.
    pub fn log_path(&self, id: &SessionId) -> (r: String)
        ensures
            r@ == path_join_spec(path_join_spec(self.dir@, id@), "events.log"@),
    {
        let d = self.dir_for(id);
        path_join(d.as_str(), "events.log")
    }
}

/// A copy of an optional name.
pub fn copy_name(n: &Option<String>) -> (r: Option<String>)
    ensures
        r == *n,
{
    match n {
        Some(s) => Some(s.clone()),
        None => None,
    }
}

} // verus!
