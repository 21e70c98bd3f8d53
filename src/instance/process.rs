//! The decisions of a graceful shutdown: terminate, poll until the process
//! is gone, and kill it if it outlives the grace period.

use vstd::prelude::*;
use crate::error::ManagerError;

verus! {

/// Liveness polls after the termination signal before the kill.
pub const STOP_POLLS: u32 = 50;

/// Milliseconds between two liveness polls.
pub const POLL_INTERVAL_MS: u64 = 100;

/// Milliseconds to wait after a spawn before checking that the process lives.
pub const SPAWN_SETTLE_MS: u64 = 100;

/// What sending a signal came to.
#[derive(Debug, Clone, Copy, PartialEq, Eq, Structural)]
pub enum SignalOutcome {
    Delivered,
    /// The process does not exist.
    NoSuchProcess,
    /// The kernel refused the signal for another reason.
    Refused,
}

/// Where a shutdown stands.
#[derive(Debug, Clone, Copy, PartialEq, Eq, Structural)]
pub enum StopPhase {
    /// The termination signal is to be sent.
    Signalling,
    /// Waiting for the process to go; the number of polls made so far.
    Polling(u32),
    /// The kill signal is to be sent.
    Killing,
    /// The kill signal was delivered; the number of polls made since.
    Confirming(u32),
    /// The shutdown has ended.
    Finished,
}

/// What the caller observed since the last step.
#[derive(Debug, Clone, Copy, PartialEq, Eq, Structural)]
pub enum StopEvent {
    /// The shutdown begins.
    Begin,
    /// The termination signal was sent, with this outcome.
    Terminated(SignalOutcome),
    /// A liveness poll: whether the process is still running.
    Polled(bool),
    /// The kill signal was sent, with this outcome.
    Killed(SignalOutcome),
}

/// What the caller is to do next.
#[derive(Debug, Clone, Copy, PartialEq, Eq, Structural)]
pub enum StopAction {
    /// Send the termination signal.
    SendTerm,
    /// Wait one poll interval, then poll liveness.
    WaitThenPoll,
    /// Send the kill signal.
    SendKill,
    /// The shutdown is over: the process is gone.
    Succeeded,
    /// The shutdown is over and failed.
    Failed(ManagerError),
}

/// One step of a shutdown.
pub open spec fn spec_stop_step(phase: StopPhase, event: StopEvent) -> (StopPhase, StopAction) {
    match (phase, event) {
        (StopPhase::Signalling, StopEvent::Begin) => (StopPhase::Signalling, StopAction::SendTerm),
        (StopPhase::Signalling, StopEvent::Terminated(o)) => if o == SignalOutcome::NoSuchProcess {
            (StopPhase::Finished, StopAction::Succeeded)
        } else {
            (StopPhase::Polling(0), StopAction::WaitThenPoll)
        },
        (StopPhase::Polling(n), StopEvent::Polled(alive)) => if !alive {
            (StopPhase::Finished, StopAction::Succeeded)
        } else if n + 1 < STOP_POLLS {
            (StopPhase::Polling((n + 1) as u32), StopAction::WaitThenPoll)
        } else {
            (StopPhase::Killing, StopAction::SendKill)
        },
        (StopPhase::Killing, StopEvent::Killed(o)) => if o == SignalOutcome::Refused {
            (StopPhase::Finished, StopAction::Failed(ManagerError::SignalFailed))
        } else if o == SignalOutcome::NoSuchProcess {
            (StopPhase::Finished, StopAction::Succeeded)
        } else {
            (StopPhase::Confirming(0), StopAction::WaitThenPoll)
        },
        (StopPhase::Confirming(n), StopEvent::Polled(alive)) => if !alive {
            (StopPhase::Finished, StopAction::Succeeded)
        } else if n + 1 < STOP_POLLS {
            (StopPhase::Confirming((n + 1) as u32), StopAction::WaitThenPoll)
        } else {
            (StopPhase::Finished, StopAction::Failed(ManagerError::SignalFailed))
        },
        _ => (StopPhase::Finished, StopAction::Failed(ManagerError::Internal)),
    }
}

/// Spawns and signals instance processes; this type holds the decisions.
#[derive(Debug, Clone, Copy)]
pub struct ProcessManager;

impl ProcessManager {
    pub fn new() -> (r: Self) {
        ProcessManager
    }

    /// The next phase and action of a shutdown in `phase` after `event`.
    /// A termination signal that finds no process ends the shutdown with
    /// success, as does a poll that finds the process gone; after
    /// `STOP_POLLS` polls that find it alive the process is killed and polled
    /// again until it is gone. A refused kill, or a process still there after
    /// `STOP_POLLS` more polls, is an error.
    pub fn stop_step(&self, phase: StopPhase, event: StopEvent) -> (r: (StopPhase, StopAction))
        requires
            phase matches StopPhase::Polling(n) ==> n < STOP_POLLS,
            phase matches StopPhase::Confirming(n) ==> n < STOP_POLLS,
        ensures
            r == spec_stop_step(phase, event),
            r.0 matches StopPhase::Polling(n) ==> n < STOP_POLLS,
            r.0 matches StopPhase::Confirming(n) ==> n < STOP_POLLS,
    {
        match (phase, event) {
            (StopPhase::Signalling, StopEvent::Begin) => (StopPhase::Signalling, StopAction::SendTerm),
            (StopPhase::Signalling, StopEvent::Terminated(o)) => {
                if o == SignalOutcome::NoSuchProcess {
                    (StopPhase::Finished, StopAction::Succeeded)
                } else {
                    (StopPhase::Polling(0), StopAction::WaitThenPoll)
                }
            },
            (StopPhase::Polling(n), StopEvent::Polled(alive)) => {
                if !alive {
                    (StopPhase::Finished, StopAction::Succeeded)
                } else if n + 1 < STOP_POLLS {
                    (StopPhase::Polling(n + 1), StopAction::WaitThenPoll)
                } else {
                    (StopPhase::Killing, StopAction::SendKill)
                }
            },
            (StopPhase::Killing, StopEvent::Killed(o)) => {
                if o == SignalOutcome::Refused {
                    (StopPhase::Finished, StopAction::Failed(ManagerError::SignalFailed))
                } else if o == SignalOutcome::NoSuchProcess {
                    (StopPhase::Finished, StopAction::Succeeded)
                } else {
                    (StopPhase::Confirming(0), StopAction::WaitThenPoll)
                }
            },
            (StopPhase::Confirming(n), StopEvent::Polled(alive)) => {
                if !alive {
                    (StopPhase::Finished, StopAction::Succeeded)
                } else if n + 1 < STOP_POLLS {
                    (StopPhase::Confirming(n + 1), StopAction::WaitThenPoll)
                } else {
                    (StopPhase::Finished, StopAction::Failed(ManagerError::SignalFailed))
                }
            },
            _ => (StopPhase::Finished, StopAction::Failed(ManagerError::Internal)),
        }
    }
}

/// A shutdown ends in success only on an observation that the process is
/// gone: a signal that found no process, or a poll (after the termination
/// signal or after the kill) that found it not running.
pub proof fn lemma_stop_success_means_gone(phase: StopPhase, event: StopEvent)
    requires
        spec_stop_step(phase, event).1 == StopAction::Succeeded,
    ensures
        event == StopEvent::Terminated(SignalOutcome::NoSuchProcess) || event == StopEvent::Polled(false)
            || event == StopEvent::Killed(SignalOutcome::NoSuchProcess),
{
}

/// A shutdown polls at most `STOP_POLLS` times before the kill.
pub proof fn lemma_stop_polls_bounded(n: u32, alive: bool)
    requires
        n < STOP_POLLS,
    ensures
        spec_stop_step(StopPhase::Polling(n), StopEvent::Polled(alive)).0 matches StopPhase::Polling(m)
            ==> m == n + 1 && m < STOP_POLLS,
{
}

} // verus!
