//! The session lifecycle state machine: `(state, event) → next state`, and
//! the lenient fold that restore uses. Pure: states and events in, a state
//! out.
use vstd::prelude::*;

use crate::error::Error;
use crate::types::Status;

verus! {

/// The lifecycle's input alphabet — one variant per real fact.
#[derive(Debug, Clone, Copy, PartialEq, Eq, Structural)]
pub enum LifecycleEvent {
    /// The process is up.
    Spawned,
    /// Session output.
    Output,
    /// Process exit, with its code.
    Exited(Option<i32>),
    /// A daemon restart found a live state.
    Interrupted,
    /// Meta unreadable.
    Damaged,
    /// Relocated to another machine.
    Moved,
}

pub open spec fn event_name_spec(e: LifecycleEvent) -> Seq<char> {
    match e {
        LifecycleEvent::Spawned => seq!['s', 'p', 'a', 'w', 'n', 'e', 'd'],
        LifecycleEvent::Output => seq!['o', 'u', 't', 'p', 'u', 't'],
        LifecycleEvent::Exited(_) => seq!['e', 'x', 'i', 't', 'e', 'd'],
        LifecycleEvent::Interrupted => seq!['i', 'n', 't', 'e', 'r', 'r', 'u', 'p', 't', 'e', 'd'],
        LifecycleEvent::Damaged => seq!['d', 'a', 'm', 'a', 'g', 'e', 'd'],
        LifecycleEvent::Moved => seq!['m', 'o', 'v', 'e', 'd'],
    }
}

impl LifecycleEvent {
    /// Short name, for the illegal-transition error.
    pub fn name(&self) -> (r: &'static str)
        ensures
            r@ == event_name_spec(*self),
    {
        match self {
            LifecycleEvent::Spawned => {
                proof { reveal_strlit("spawned"); }
                "spawned"
            },
            LifecycleEvent::Output => {
                proof { reveal_strlit("output"); }
                "output"
            },
            LifecycleEvent::Exited(_) => {
                proof { reveal_strlit("exited"); }
                "exited"
            },
            LifecycleEvent::Interrupted => {
                proof { reveal_strlit("interrupted"); }
                "interrupted"
            },
            LifecycleEvent::Damaged => {
                proof { reveal_strlit("damaged"); }
                "damaged"
            },
            LifecycleEvent::Moved => {
                proof { reveal_strlit("moved"); }
                "moved"
            },
        }
    }
}

/// The transition table: the next state for a legal edge, `None` for an
/// illegal one.
pub open spec fn apply_spec(s: Status, e: LifecycleEvent) -> Option<Status> {
    match (s, e) {
        (Status::Preparing, LifecycleEvent::Spawned) => Some(Status::Starting),
        (Status::Interrupted, LifecycleEvent::Spawned) => Some(Status::Starting),
        (Status::Starting, LifecycleEvent::Output) => Some(Status::Running),
        (Status::Running, LifecycleEvent::Output) => Some(Status::Running),
        (Status::Starting, LifecycleEvent::Exited(c)) => Some(Status::Exited(c)),
        (Status::Running, LifecycleEvent::Exited(c)) => Some(Status::Exited(c)),
        (Status::Preparing, LifecycleEvent::Interrupted) => Some(Status::Interrupted),
        (Status::Starting, LifecycleEvent::Interrupted) => Some(Status::Interrupted),
        (Status::Running, LifecycleEvent::Interrupted) => Some(Status::Interrupted),
        (_, LifecycleEvent::Damaged) => Some(Status::Damaged),
        (_, LifecycleEvent::Moved) => Some(Status::Moved),
        _ => None,
    }
}

/// One lenient step: an illegal event keeps the previous state.
pub open spec fn step_spec(s: Status, e: LifecycleEvent) -> Status {
    match apply_spec(s, e) {
        Some(n) => n,
        None => s,
    }
}

/// Fold a stream of events over a starting state, leniently.
pub open spec fn fold_spec(s: Status, events: Seq<LifecycleEvent>) -> Status
    decreases events.len(),
{
    if events.len() == 0 {
        s
    } else {
        step_spec(fold_spec(s, events.drop_last()), events.last())
    }
}

impl Status {
    /// The whole machine in one function: every legal edge is a named pair;
    /// everything else is `IllegalTransition(from, event name)`.
    pub fn apply(&self, e: &LifecycleEvent) -> (r: Result<Status, Error>)
        ensures
            apply_spec(*self, *e) matches Some(n) ==> r == Ok::<Status, Error>(n),
            apply_spec(*self, *e) is None ==> (r matches Err(Error::IllegalTransition(f, n))
                && f == *self && n@ == event_name_spec(*e)),
    {
        match (*self, *e) {
            (Status::Preparing, LifecycleEvent::Spawned) => Ok(Status::Starting),
            (Status::Interrupted, LifecycleEvent::Spawned) => Ok(Status::Starting),
            (Status::Starting, LifecycleEvent::Output) => Ok(Status::Running),
            (Status::Running, LifecycleEvent::Output) => Ok(Status::Running),
            (Status::Starting, LifecycleEvent::Exited(c)) => Ok(Status::Exited(c)),
            (Status::Running, LifecycleEvent::Exited(c)) => Ok(Status::Exited(c)),
            (Status::Preparing, LifecycleEvent::Interrupted) => Ok(Status::Interrupted),
            (Status::Starting, LifecycleEvent::Interrupted) => Ok(Status::Interrupted),
            (Status::Running, LifecycleEvent::Interrupted) => Ok(Status::Interrupted),
            (_, LifecycleEvent::Damaged) => Ok(Status::Damaged),
            (_, LifecycleEvent::Moved) => Ok(Status::Moved),
            (from, event) => Err(Error::IllegalTransition(from, event.name())),
        }
    }

    /// Fold a stream of events over a starting state. Lenient: an illegal
    /// event keeps the previous state, so restore never fails on a corrupt
    /// log.
    pub fn fold(self, events: Vec<LifecycleEvent>) -> (r: Status)
        ensures
            r == fold_spec(self, events@),
    {
        let mut s = self;
        let mut i: usize = 0;
        while i < events.len()
            invariant
                i <= events.len(),
                s == fold_spec(self, events@.take(i as int)),
            decreases events.len() - i,
        {
            let e = events[i];
            s = match s.apply(&e) {
                Ok(n) => n,
                Err(_) => s,
            };
            proof {
                assert(events@.take(i + 1).drop_last() =~= events@.take(i as int));
            }
            i = i + 1;
        }
        assert(events@.take(events.len() as int) =~= events@);
        s
    }
}

/// Law: the terminal facts are reachable from any state — a damaged or
/// relocated session is recorded as such whatever it was doing.
pub proof fn law_terminal_states_reachable_from_anywhere(s: Status)
    ensures
        apply_spec(s, LifecycleEvent::Damaged) == Some(Status::Damaged),
        apply_spec(s, LifecycleEvent::Moved) == Some(Status::Moved),
{
}

/// Law: a process can come up only from `Preparing` (launch) or
/// `Interrupted` (resume), and always lands in `Starting`.
pub proof fn law_spawn_only_from_preparing_or_interrupted(s: Status)
    ensures
        apply_spec(s, LifecycleEvent::Spawned) is Some <==> (s == Status::Preparing || s
            == Status::Interrupted),
        apply_spec(s, LifecycleEvent::Spawned) is Some ==> apply_spec(
            s,
            LifecycleEvent::Spawned,
        ) == Some(Status::Starting),
{
}

/// Law: output is legal only while a process is live (`Starting` or
/// `Running`), and it always leaves the session `Running`.
pub proof fn law_output_needs_a_live_process(s: Status)
    ensures
        apply_spec(s, LifecycleEvent::Output) is Some <==> (s == Status::Starting || s
            == Status::Running),
        apply_spec(s, LifecycleEvent::Output) is Some ==> apply_spec(s, LifecycleEvent::Output)
            == Some(Status::Running),
{
}

/// Law: an exit is recorded only from a live state, with its code.
pub proof fn law_exit_only_from_live(s: Status, c: Option<i32>)
    ensures
        apply_spec(s, LifecycleEvent::Exited(c)) is Some <==> (s == Status::Starting || s
            == Status::Running),
        apply_spec(s, LifecycleEvent::Exited(c)) is Some ==> apply_spec(
            s,
            LifecycleEvent::Exited(c),
        ) == Some(Status::Exited(c)),
{
}

/// Law: the fold is lenient — an event the table rejects leaves the state
/// as it was, so appending it to the stream changes nothing.
pub proof fn law_fold_ignores_illegal_events(s: Status, events: Seq<LifecycleEvent>, e: LifecycleEvent)
    requires
        apply_spec(fold_spec(s, events), e) is None,
    ensures
        fold_spec(s, events.push(e)) == fold_spec(s, events),
{
    assert(events.push(e).drop_last() =~= events);
}

/// Law: folding a concatenation is folding the second part over the result
/// of the first — restore may replay a log in pieces.
pub proof fn law_fold_concat(s: Status, a: Seq<LifecycleEvent>, b: Seq<LifecycleEvent>)
    ensures
        fold_spec(s, a + b) == fold_spec(fold_spec(s, a), b),
    decreases b.len(),
{
    if b.len() == 0 {
        assert(a + b =~= a);
    } else {
        law_fold_concat(s, a, b.drop_last());
        assert((a + b).drop_last() =~= a + b.drop_last());
        assert((a + b).last() == b.last());
    }
}

} // verus!
