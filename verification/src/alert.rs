//! Alert signals — derived by the daemon from known facts (status, exit
//! code, idle time), never guessed.
use vstd::prelude::*;

use crate::types::Status;

verus! {

/// How much idle time (seconds) before a running session is flagged.
pub const IDLE_ALERT_SECS: u64 = 60;

/// Why a session needs (or has finished needing) the human's attention.
#[derive(Debug, Clone, Copy, PartialEq, Eq, Structural)]
pub enum Alert {
    /// Running but no output for `secs`.
    Idle(u64),
    /// Exited with a non-zero code.
    Errored(i32),
    /// Process gone — needs resume or rm.
    Interrupted,
    /// The session's meta could not be read — needs a human.
    Damaged,
    /// Finished cleanly.
    Done,
}

pub open spec fn rank_spec(a: Alert) -> u8 {
    match a {
        Alert::Damaged => 0,
        Alert::Errored(_) => 1,
        Alert::Interrupted => 2,
        Alert::Idle(_) => 3,
        Alert::Done => 5,
    }
}

impl Alert {
    /// Sort key: lower = needs the human sooner.
    pub fn rank(&self) -> (r: u8)
        ensures
            r == rank_spec(*self),
    {
        match self {
            Alert::Damaged => 0,
            Alert::Errored(_) => 1,
            Alert::Interrupted => 2,
            Alert::Idle(_) => 3,
            Alert::Done => 5,
        }
    }
}

/// Everything the alert judgment needs: the status and the daemon-stamped
/// idle time.
#[derive(Debug, Clone, Copy, PartialEq, Eq, Structural)]
pub struct AlertInput {
    pub status: Status,
    pub idle_secs: u64,
}

pub open spec fn alert_spec(status: Status, idle: u64) -> Option<Alert> {
    match status {
        Status::Exited(code) => match code {
            Some(c) => if c != 0 {
                Some(Alert::Errored(c))
            } else {
                Some(Alert::Done)
            },
            None => Some(Alert::Done),
        },
        Status::Interrupted => Some(Alert::Interrupted),
        Status::Damaged => Some(Alert::Damaged),
        Status::Running => if idle >= IDLE_ALERT_SECS {
            Some(Alert::Idle(idle))
        } else {
            None
        },
        Status::Preparing | Status::Starting => None,
        Status::Moved => None,
    }
}

impl AlertInput {
    /// Does this state need a human, and why?
    pub fn alert(&self) -> (r: Option<Alert>)
        ensures
            r == alert_spec(self.status, self.idle_secs),
    {
        match self.status {
            Status::Exited(code) => match code {
                Some(c) if c != 0 => Some(Alert::Errored(c)),
                _ => Some(Alert::Done),
            },
            Status::Interrupted => Some(Alert::Interrupted),
            Status::Damaged => Some(Alert::Damaged),
            Status::Running => {
                if self.idle_secs >= IDLE_ALERT_SECS {
                    Some(Alert::Idle(self.idle_secs))
                } else {
                    None
                }
            },
            Status::Preparing | Status::Starting => None,
            Status::Moved => None,
        }
    }
}

pub open spec fn idle_secs_spec(last_activity: u64, now: u64) -> u64 {
    if last_activity == 0 {
        0
    } else if now >= last_activity {
        ((now - last_activity) / 1000) as u64
    } else {
        0
    }
}

/// Whole seconds since the session last produced output (0 = never, and 0
/// when the clock reads earlier than the activity).
pub fn idle_secs(last_activity: u64, now: u64) -> (r: u64)
    ensures
        r == idle_secs_spec(last_activity, now),
{
    if last_activity == 0 {
        0
    } else {
        now.saturating_sub(last_activity) / 1000
    }
}

/// Law: the rank strictly orders the kinds of alert — damaged before
/// errored before interrupted before idle before done.
pub proof fn law_rank_orders_alerts(secs: u64, code: i32)
    ensures
        rank_spec(Alert::Damaged) < rank_spec(Alert::Errored(code)),
        rank_spec(Alert::Errored(code)) < rank_spec(Alert::Interrupted),
        rank_spec(Alert::Interrupted) < rank_spec(Alert::Idle(secs)),
        rank_spec(Alert::Idle(secs)) < rank_spec(Alert::Done),
{
}

/// Law (honesty): a booting, relocated, or freshly active session never
/// raises an alert; every alert names a fact about the status.
pub proof fn law_alert_only_from_facts(status: Status, idle: u64)
    ensures
        alert_spec(status, idle) is None <==> (status == Status::Preparing || status
            == Status::Starting || status == Status::Moved || (status == Status::Running && idle
            < IDLE_ALERT_SECS)),
        alert_spec(status, idle) matches Some(Alert::Idle(s)) ==> status == Status::Running && s
            == idle && idle >= IDLE_ALERT_SECS,
        alert_spec(status, idle) matches Some(Alert::Errored(c)) ==> status == Status::Exited(
            Some(c),
        ) && c != 0,
        alert_spec(status, idle) == Some(Alert::Done) ==> (status == Status::Exited(None)
            || status == Status::Exited(Some(0))),
{
}

/// Law: idle time never exceeds the elapsed time, and a session that never
/// produced output is never idle.
pub proof fn law_idle_bounded(last_activity: u64, now: u64)
    ensures
        last_activity == 0 ==> idle_secs_spec(last_activity, now) == 0,
        idle_secs_spec(last_activity, now) * 1000 <= if now >= last_activity {
            now - last_activity
        } else {
            0
        },
{
}

} // verus!
