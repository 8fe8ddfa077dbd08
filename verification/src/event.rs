//! The session event vocabulary: the log's entries and the lifecycle fold
//! that derives a restored session's status.
use std::collections::VecDeque;

use vstd::prelude::*;

use crate::lifecycle::{LifecycleEvent, fold_spec, step_spec};
use crate::types::{SessionId, Status};

verus! {

#[derive(Debug, Clone, PartialEq, Eq)]
pub enum EventKind {
    Output(Vec<u8>),
    Status(Status),
}

#[derive(Debug, Clone, PartialEq, Eq)]
pub struct SessionEvent {
    pub session: SessionId,
    pub seq: u64,
    pub ts: u64,
    pub kind: EventKind,
}

/// The lifecycle fact a log entry carries, if any. A logged `Running`
/// records the first output, so it folds as output; `Preparing` never
/// appears in the log (it is the fold's seed).
pub open spec fn lifecycle_event_spec(kind: EventKind) -> Option<LifecycleEvent> {
    match kind {
        EventKind::Output(_) => Some(LifecycleEvent::Output),
        EventKind::Status(st) => match st {
            Status::Starting => Some(LifecycleEvent::Spawned),
            Status::Running => Some(LifecycleEvent::Output),
            Status::Exited(c) => Some(LifecycleEvent::Exited(c)),
            Status::Interrupted => Some(LifecycleEvent::Interrupted),
            Status::Damaged => Some(LifecycleEvent::Damaged),
            Status::Moved => Some(LifecycleEvent::Moved),
            Status::Preparing => None,
        },
    }
}

/// Map a persisted log entry onto the lifecycle's input alphabet.
pub fn lifecycle_event(kind: &EventKind) -> (r: Option<LifecycleEvent>)
    ensures
        r == lifecycle_event_spec(*kind),
{
    match kind {
        EventKind::Output(_) => Some(LifecycleEvent::Output),
        EventKind::Status(st) => match st {
            Status::Starting => Some(LifecycleEvent::Spawned),
            Status::Running => Some(LifecycleEvent::Output),
            Status::Exited(c) => Some(LifecycleEvent::Exited(*c)),
            Status::Interrupted => Some(LifecycleEvent::Interrupted),
            Status::Damaged => Some(LifecycleEvent::Damaged),
            Status::Moved => Some(LifecycleEvent::Moved),
            Status::Preparing => None,
        },
    }
}

/// The lifecycle events of a log, in order (entries without one skipped).
pub open spec fn log_events(log: Seq<(u64, EventKind)>) -> Seq<LifecycleEvent>
    decreases log.len(),
{
    if log.len() == 0 {
        Seq::empty()
    } else {
        match lifecycle_event_spec(log.last().1) {
            Some(e) => log_events(log.drop_last()).push(e),
            None => log_events(log.drop_last()),
        }
    }
}

/// Whether a status says a process is (or is about to be) live.
pub open spec fn is_live(s: Status) -> bool {
    s == Status::Preparing || s == Status::Starting || s == Status::Running
}

/// A restored session's status: the log folded from `Preparing`, then the
/// honesty rule — anything that looked live is `Interrupted`, since the
/// process is gone.
pub open spec fn fold_status_spec(log: Seq<(u64, EventKind)>) -> Status {
    let last = fold_spec(Status::Preparing, log_events(log));
    if is_live(last) {
        Status::Interrupted
    } else {
        last
    }
}

/// Derive a restored session's lifecycle state from its event log.
pub fn fold_status(log: &VecDeque<(u64, EventKind)>) -> (r: Status)
    ensures
        r == fold_status_spec(log@),
{
    let mut s = Status::Preparing;
    let mut i: usize = 0;
    while i < log.len()
        invariant
            i <= log@.len(),
            s == fold_spec(Status::Preparing, log_events(log@.take(i as int))),
        decreases log@.len() - i,
    {
        let ghost pre = log@.take(i as int);
        proof {
            assert(log@.take(i + 1).drop_last() =~= pre);
            assert(log@.take(i + 1).last() == log@[i as int]);
        }
        match lifecycle_event(&log[i].1) {
            Some(e) => {
                s = match s.apply(&e) {
                    Ok(n) => n,
                    Err(_) => s,
                };
                proof {
                    let evs = log_events(log@.take(i + 1));
                    assert(evs == log_events(pre).push(e));
                    assert(evs.drop_last() =~= log_events(pre));
                }
            },
            None => {},
        }
        i = i + 1;
    }
    assert(log@.take(log@.len() as int) =~= log@);
    match s {
        Status::Preparing | Status::Starting | Status::Running => Status::Interrupted,
        other => other,
    }
}

/// Law (restore honesty): a restored session is never reported live — its
/// process is gone, whatever the log says.
pub proof fn law_restored_status_is_never_live(log: Seq<(u64, EventKind)>)
    ensures
        !is_live(fold_status_spec(log)),
{
}

/// Law: a log that records a clean exit after the process came up restores
/// as exited with that code, whatever output came between.
pub proof fn law_exit_survives_restore(
    session_outputs: Seq<(u64, EventKind)>,
    c: Option<i32>,
    seq_a: u64,
    seq_b: u64,
)
    requires
        forall|k: int|
            0 <= k < session_outputs.len() ==> (#[trigger] session_outputs[k]).1 is Output,
    ensures
        fold_status_spec(
            seq![(seq_a, EventKind::Status(Status::Starting))] + session_outputs + seq![
                (seq_b, EventKind::Status(Status::Exited(c))),
            ],
        ) == Status::Exited(c),
    decreases session_outputs.len(),
{
    let head = seq![(seq_a, EventKind::Status(Status::Starting))];
    let tail = seq![(seq_b, EventKind::Status(Status::Exited(c)))];
    assert(head.drop_last() =~= Seq::<(u64, EventKind)>::empty());
    assert(head.last() == (seq_a, EventKind::Status(Status::Starting)));
    assert(lifecycle_event_spec(head.last().1) == Some(LifecycleEvent::Spawned));
    assert(log_events(Seq::<(u64, EventKind)>::empty()) == Seq::<LifecycleEvent>::empty());
    assert(log_events(head) == log_events(head.drop_last()).push(LifecycleEvent::Spawned));
    assert(log_events(head) =~= seq![LifecycleEvent::Spawned]);
    assert(seq![LifecycleEvent::Spawned].drop_last() =~= Seq::<LifecycleEvent>::empty());
    assert(fold_spec(Status::Preparing, Seq::<LifecycleEvent>::empty()) == Status::Preparing);
    assert(fold_spec(Status::Preparing, seq![LifecycleEvent::Spawned]) == Status::Starting);
    assert(log_events(head).drop_last() =~= Seq::<LifecycleEvent>::empty());
    lemma_outputs_keep_live(head, session_outputs);
    let full = head + session_outputs + tail;
    assert(full.drop_last() =~= head + session_outputs);
    assert(full.last() == (seq_b, EventKind::Status(Status::Exited(c))));
    let evs = log_events(full);
    assert(evs.drop_last() =~= log_events(head + session_outputs));
}

/// After `Starting`, any run of output entries leaves the fold at
/// `Starting` (no output) or `Running`.
proof fn lemma_outputs_keep_live(head: Seq<(u64, EventKind)>, outs: Seq<(u64, EventKind)>)
    requires
        fold_spec(Status::Preparing, log_events(head)) == Status::Starting,
        forall|k: int| 0 <= k < outs.len() ==> (#[trigger] outs[k]).1 is Output,
    ensures
        fold_spec(Status::Preparing, log_events(head + outs)) == Status::Starting
            || fold_spec(Status::Preparing, log_events(head + outs)) == Status::Running,
    decreases outs.len(),
{
    if outs.len() == 0 {
        assert(head + outs =~= head);
    } else {
        lemma_outputs_keep_live(head, outs.drop_last());
        assert((head + outs).drop_last() =~= head + outs.drop_last());
        assert((head + outs).last() == outs.last());
        let e = log_events(head + outs);
        assert(e.drop_last() =~= log_events(head + outs.drop_last()));
    }
}


/// A log entry's payload by value: the bytes of an output chunk, or a status.
pub enum KindView {
    Output(Seq<u8>),
    Status(Status),
}

impl View for EventKind {
    type V = KindView;

    open spec fn view(&self) -> KindView {
        match self {
            EventKind::Output(b) => KindView::Output(b@),
            EventKind::Status(s) => KindView::Status(*s),
        }
    }
}

impl EventKind {
    /// A copy of this payload.
    pub fn copy(&self) -> (r: EventKind)
        ensures
            r@ == self@,
    {
        match self {
            EventKind::Output(b) => EventKind::Output(crate::protocol::copy_bytes(b)),
            EventKind::Status(s) => EventKind::Status(*s),
        }
    }
}

} // verus!
