//! The singleton daemon lifecycle: the PID file that one instance at a time may
//! hold, and the decisions taken while claiming and releasing it.

use vstd::prelude::*;

use crate::diagnostic::{all_digits, digits_value, is_digit, parse_digits};
use crate::error::KarabinerPklError;
use crate::text::{trim, trimmed};

verus! {

/// `kill` failed because the caller may not signal the process: it exists.
pub const EPERM: i32 = 1;

/// `kill` failed because there is no such process.
pub const ESRCH: i32 = 3;

/// How many times a terminated instance is probed before giving up on it.
pub const TERMINATION_POLLS: u32 = 50;

/// The pause between two probes of a terminated instance, in milliseconds.
pub const POLL_INTERVAL_MS: u64 = 100;

/// The largest magnitude that an `i64` literal may have (that of `i64::MIN`).
pub const I64_MAGNITUDE_LIMIT: u64 = 9223372036854775808;

/// The integer that a trimmed PID file holds, when it is an `i64` literal: an
/// optional sign and at least one decimal digit.
pub open spec fn i64_literal_value(t: Seq<char>) -> Option<int> {
    let neg = t.len() > 0 && t[0] == '-';
    let d = unsigned_part(t);
    if all_digits(d) {
        let v = if neg {
            -digits_value(d)
        } else {
            digits_value(d)
        };
        if i64::MIN <= v <= i64::MAX {
            Some(v)
        } else {
            None
        }
    } else {
        None
    }
}

/// A literal without its sign.
pub open spec fn unsigned_part(t: Seq<char>) -> Seq<char> {
    if t.len() > 0 && (t[0] == '-' || t[0] == '+') {
        t.drop_first()
    } else {
        t
    }
}

/// What a PID file's text says: `Ok(None)` when it is blank, the recorded process
/// when it holds a positive identifier that fits a process identifier, and why
/// not otherwise. Zero and negative values would name process groups to `kill`,
/// so they are invalid.
pub open spec fn pid_file_reading(contents: Seq<char>) -> Result<Option<int>, Seq<char>> {
    let t = trim(contents);
    if t.len() == 0 {
        Ok(None)
    } else {
        match i64_literal_value(t) {
            None => Err("Invalid pid value '"@ + t + "'"@),
            Some(v) => if v <= 0 {
                Err("Invalid pid value '"@ + t + "'"@)
            } else if v <= i32::MAX {
                Ok(Some(v))
            } else {
                Err("Pid value "@ + t + " does not fit in platform pid type"@)
            },
        }
    }
}

/// Reads the text of a PID file.
pub fn read_pid(contents: &str) -> (r: Result<Option<i32>, KarabinerPklError>)
    ensures
        match pid_file_reading(contents@) {
            Ok(None) => r matches Ok(None),
            Ok(Some(v)) => r matches Ok(Some(p)) && p as int == v,
            Err(m) => r matches Err(KarabinerPklError::DaemonError { message }) && message@ == m,
        },
{
    let t = trimmed(contents);
    let n = t.as_str().unicode_len();
    if n == 0 {
        return Ok(None);
    }
    let first = t.as_str().get_char(0);
    let signed = first == '-' || first == '+';
    let digits = if signed {
        t.as_str().substring_char(1, n)
    } else {
        t.as_str()
    };
    assert(signed ==> digits@ =~= t@.drop_first());
    let value: Option<i64> = match parse_digits(digits, I64_MAGNITUDE_LIMIT) {
        Some(m) => {
            if first == '-' {
                if m == I64_MAGNITUDE_LIMIT {
                    Some(i64::MIN)
                } else {
                    Some(-(m as i64))
                }
            } else if m < I64_MAGNITUDE_LIMIT {
                Some(m as i64)
            } else {
                None
            }
        },
        None => None,
    };
    assert(t@ == trim(contents@));
    assert(t@.len() > 0);
    assert(value matches Some(v) ==> i64_literal_value(t@) == Some(v as int));
    proof {
        let d = unsigned_part(t@);
        assert(digits@ == d);
        if value is None && all_digits(d) {
            assert(digits_value(d) >= I64_MAGNITUDE_LIMIT);
        }
    }
    assert(value is None ==> i64_literal_value(t@) is None);
    match value {
        Some(v) => {
            if v > i32::MAX as i64 {
                let mut message = "Pid value ".to_string();
                message.append(t.as_str());
                message.append(" does not fit in platform pid type");
                Err(KarabinerPklError::DaemonError { message })
            } else if v > 0 {
                Ok(Some(v as i32))
            } else {
                let mut message = "Invalid pid value '".to_string();
                message.append(t.as_str());
                message.append("'");
                Err(KarabinerPklError::DaemonError { message })
            }
        },
        None => {
            let mut message = "Invalid pid value '".to_string();
            message.append(t.as_str());
            message.append("'");
            Err(KarabinerPklError::DaemonError { message })
        },
    }
}

/// Whether a liveness probe (a signal 0 sent with `kill`) shows the process to be
/// alive: it was delivered, or refused for want of permission.
pub fn process_is_running(kill_result: i32, errno: Option<i32>) -> (r: bool)
    ensures
        r == (kill_result == 0 || errno == Some(EPERM)),
{
    if kill_result == 0 {
        true
    } else {
        match errno {
            Some(e) => e == EPERM,
            None => false,
        }
    }
}


/// Where a claim of the PID file stands.
#[derive(PartialEq, Eq, Structural, Clone, Copy, Debug)]
pub enum ClaimPhase {
    /// The PID file has not been read yet.
    Reading,
    /// The process that the file records is being probed.
    Checking { pid: i32 },
    /// The recorded process was asked to terminate; `polls` probes have found it
    /// alive since.
    Stopping { pid: i32, polls: u32 },
    /// The PID file holds this process.
    Claimed,
    /// The claim was given up.
    Failed,
}

/// What the outside world reports back to a claim.
#[derive(PartialEq, Eq, Structural, Clone, Copy, Debug)]
pub enum ClaimEvent {
    /// The PID file was read: the process it records, if any.
    PidFile(Option<i32>),
    /// A liveness probe of the recorded process: whether it is running.
    Running(bool),
    /// The termination signal was sent, or could not be.
    Signalled(bool),
}

/// What a claim asks to be done next.
#[derive(PartialEq, Eq, Structural, Clone, Copy, Debug)]
pub enum ClaimAction {
    /// Probe whether the process is alive.
    Probe(i32),
    /// Send the process the graceful-termination signal.
    Terminate(i32),
    /// Wait one poll interval, then probe the process again.
    WaitThenProbe(i32),
    /// Write this process's identifier to the PID file, removing the stale file
    /// first when `remove_stale` is set.
    WritePid { remove_stale: bool },
    /// Give up: the process did not exit in time.
    TimedOut(i32),
    /// Give up: the process could not be signalled.
    SignalFailed(i32),
    /// Nothing to do: the event does not belong to this phase.
    Ignore,
}

/// One step of a claim: the next phase and the action to take.
pub open spec fn claim_next(p: ClaimPhase, e: ClaimEvent) -> (ClaimPhase, ClaimAction) {
    match (p, e) {
        (ClaimPhase::Reading, ClaimEvent::PidFile(None)) => (
            ClaimPhase::Claimed,
            ClaimAction::WritePid { remove_stale: false },
        ),
        (ClaimPhase::Reading, ClaimEvent::PidFile(Some(pid))) => (
            ClaimPhase::Checking { pid },
            ClaimAction::Probe(pid),
        ),
        (ClaimPhase::Checking { pid }, ClaimEvent::Running(true)) => (
            ClaimPhase::Stopping { pid, polls: 0 },
            ClaimAction::Terminate(pid),
        ),
        (ClaimPhase::Checking { pid }, ClaimEvent::Running(false)) => (
            ClaimPhase::Claimed,
            ClaimAction::WritePid { remove_stale: true },
        ),
        (ClaimPhase::Stopping { pid, polls }, ClaimEvent::Signalled(true)) => (
            ClaimPhase::Stopping { pid, polls },
            ClaimAction::Probe(pid),
        ),
        (ClaimPhase::Stopping { pid, polls }, ClaimEvent::Signalled(false)) => (
            ClaimPhase::Failed,
            ClaimAction::SignalFailed(pid),
        ),
        (ClaimPhase::Stopping { pid, polls }, ClaimEvent::Running(false)) => (
            ClaimPhase::Claimed,
            ClaimAction::WritePid { remove_stale: true },
        ),
        (ClaimPhase::Stopping { pid, polls }, ClaimEvent::Running(true)) => if polls + 1
            < TERMINATION_POLLS {
            (ClaimPhase::Stopping { pid, polls: (polls + 1) as u32 }, ClaimAction::WaitThenProbe(pid))
        } else {
            (ClaimPhase::Failed, ClaimAction::TimedOut(pid))
        },
        _ => (p, ClaimAction::Ignore),
    }
}

/// Decides the next step of a claim of the PID file.
///
/// A file that records no process is claimed at once. A recorded process that is
/// not running is a stale entry, replaced. A running one is sent the termination
/// signal and probed at each poll interval; the file is claimed only once a probe
/// finds it gone, and the claim is given up after `TERMINATION_POLLS` probes.
pub fn claim_step(phase: ClaimPhase, event: ClaimEvent) -> (r: (ClaimPhase, ClaimAction))
    ensures
        r == claim_next(phase, event),
{
    match (phase, event) {
        (ClaimPhase::Reading, ClaimEvent::PidFile(None)) => (
            ClaimPhase::Claimed,
            ClaimAction::WritePid { remove_stale: false },
        ),
        (ClaimPhase::Reading, ClaimEvent::PidFile(Some(pid))) => (
            ClaimPhase::Checking { pid },
            ClaimAction::Probe(pid),
        ),
        (ClaimPhase::Checking { pid }, ClaimEvent::Running(true)) => (
            ClaimPhase::Stopping { pid, polls: 0 },
            ClaimAction::Terminate(pid),
        ),
        (ClaimPhase::Checking { pid }, ClaimEvent::Running(false)) => (
            ClaimPhase::Claimed,
            ClaimAction::WritePid { remove_stale: true },
        ),
        (ClaimPhase::Stopping { pid, polls }, ClaimEvent::Signalled(true)) => (
            ClaimPhase::Stopping { pid, polls },
            ClaimAction::Probe(pid),
        ),
        (ClaimPhase::Stopping { pid, polls: _ }, ClaimEvent::Signalled(false)) => (
            ClaimPhase::Failed,
            ClaimAction::SignalFailed(pid),
        ),
        (ClaimPhase::Stopping { pid, polls: _ }, ClaimEvent::Running(false)) => (
            ClaimPhase::Claimed,
            ClaimAction::WritePid { remove_stale: true },
        ),
        (ClaimPhase::Stopping { pid, polls }, ClaimEvent::Running(true)) => {
            if polls < TERMINATION_POLLS - 1 {
                (ClaimPhase::Stopping { pid, polls: polls + 1 }, ClaimAction::WaitThenProbe(pid))
            } else {
                (ClaimPhase::Failed, ClaimAction::TimedOut(pid))
            }
        },
        _ => (phase, ClaimAction::Ignore),
    }
}

/// The phase of a claim after a run of events, starting from `Reading`.
pub open spec fn claim_phase_after(events: Seq<ClaimEvent>) -> ClaimPhase
    decreases events.len(),
{
    if events.len() == 0 {
        ClaimPhase::Reading
    } else {
        claim_next(claim_phase_after(events.drop_last()), events.last()).0
    }
}

/// The action that a claim takes on event `k` of a run.
pub open spec fn claim_action_at(events: Seq<ClaimEvent>, k: int) -> ClaimAction {
    claim_next(claim_phase_after(events.take(k)), events[k]).1
}

/// What holds of a claim's phase once the PID file was read as `recorded`.
pub open spec fn claim_phase_fits(recorded: Option<i32>, p: ClaimPhase) -> bool {
    match recorded {
        None => p == ClaimPhase::Claimed,
        Some(pid) => match p {
            ClaimPhase::Checking { pid: q } => q == pid,
            ClaimPhase::Stopping { pid: q, polls: _ } => q == pid,
            ClaimPhase::Claimed => true,
            ClaimPhase::Failed => true,
            ClaimPhase::Reading => false,
        },
    }
}

proof fn lemma_claim_phase_fits(events: Seq<ClaimEvent>, recorded: Option<i32>, j: int)
    requires
        events.len() > 0,
        events[0] == ClaimEvent::PidFile(recorded),
        1 <= j <= events.len(),
    ensures
        claim_phase_fits(recorded, claim_phase_after(events.take(j))),
    decreases j,
{
    assert(events.take(j).drop_last() =~= events.take(j - 1));
    if j == 1 {
        assert(events.take(0) =~= Seq::<ClaimEvent>::empty());
    } else {
        lemma_claim_phase_fits(events, recorded, j - 1);
    }
}

proof fn lemma_claimed_stays(events: Seq<ClaimEvent>, k: int, j: int)
    requires
        0 <= k < j <= events.len(),
        claim_phase_after(events.take(k + 1)) == ClaimPhase::Claimed,
    ensures
        claim_phase_after(events.take(j)) == ClaimPhase::Claimed,
    decreases j - k,
{
    if j > k + 1 {
        lemma_claimed_stays(events, k, j - 1);
        assert(events.take(j).drop_last() =~= events.take(j - 1));
    }
}

/// A claim writes the PID file only when the file recorded no process, or right
/// after a probe found the recorded process gone: never while it may still run.
pub proof fn law_claim_writes_after_exit(events: Seq<ClaimEvent>, recorded: Option<i32>, k: int)
    requires
        events.len() > 0,
        events[0] == ClaimEvent::PidFile(recorded),
        0 <= k < events.len(),
        claim_action_at(events, k) is WritePid,
    ensures
        recorded is None ==> k == 0,
        recorded is Some ==> events[k] == ClaimEvent::Running(false) && match claim_phase_after(
            events.take(k),
        ) {
            ClaimPhase::Checking { pid } => Some(pid) == recorded,
            ClaimPhase::Stopping { pid, polls: _ } => Some(pid) == recorded,
            _ => false,
        },
{
    if k == 0 {
        assert(events.take(0) =~= Seq::<ClaimEvent>::empty());
    } else {
        lemma_claim_phase_fits(events, recorded, k);
    }
}

/// A claim writes the PID file at most once.
pub proof fn law_claim_writes_once(events: Seq<ClaimEvent>, k1: int, k2: int)
    requires
        0 <= k1 < k2 < events.len(),
        claim_action_at(events, k1) is WritePid,
    ensures
        claim_action_at(events, k2) == ClaimAction::Ignore,
{
    assert(events.take(k1 + 1).drop_last() =~= events.take(k1));
    lemma_claimed_stays(events, k1, k2);
}

/// What follows a probe of a process that was asked to terminate.
#[derive(PartialEq, Eq, Structural, Clone, Copy, Debug)]
pub enum TerminationStep {
    /// It is gone.
    Exited,
    /// It still runs: wait one poll interval and probe again; `polls` probes have
    /// found it alive so far.
    WaitThenProbe { polls: u32 },
    /// It still runs after `TERMINATION_POLLS` probes.
    TimedOut,
}

/// Decides what follows a probe of a terminated process, `polls` earlier probes
/// having found it alive: the same rule as a claim's `Stopping` phase.
pub fn termination_step(polls: u32, running: bool) -> (r: TerminationStep)
    requires
        polls < TERMINATION_POLLS,
    ensures
        !running ==> r == TerminationStep::Exited,
        running && polls + 1 < TERMINATION_POLLS ==> r == (TerminationStep::WaitThenProbe {
            polls: (polls + 1) as u32,
        }),
        running && polls + 1 >= TERMINATION_POLLS ==> r == TerminationStep::TimedOut,
        running ==> claim_next(ClaimPhase::Stopping { pid: 0, polls }, ClaimEvent::Running(true)).1
            == (if r is TimedOut {
            ClaimAction::TimedOut(0)
        } else {
            ClaimAction::WaitThenProbe(0)
        }),
{
    if !running {
        TerminationStep::Exited
    } else if polls < TERMINATION_POLLS - 1 {
        TerminationStep::WaitThenProbe { polls: polls + 1 }
    } else {
        TerminationStep::TimedOut
    }
}

/// What the `stop` command does with the PID file's record.
#[derive(PartialEq, Eq, Structural, Clone, Copy, Debug)]
pub enum StopPlan {
    /// Terminate the running daemon, then remove the file.
    Terminate(i32),
    /// The recorded daemon is gone: remove the stale file and report it stopped.
    RemoveStale(i32),
    /// No daemon is recorded.
    NotRunning,
}

/// Decides what `stop` does, from the recorded process and whether it runs.
pub fn stop_plan(recorded: Option<i32>, running: bool) -> (r: StopPlan)
    ensures
        r == match recorded {
            Some(pid) => if running {
                StopPlan::Terminate(pid)
            } else {
                StopPlan::RemoveStale(pid)
            },
            None => StopPlan::NotRunning,
        },
{
    match recorded {
        Some(pid) => if running {
            StopPlan::Terminate(pid)
        } else {
            StopPlan::RemoveStale(pid)
        },
        None => StopPlan::NotRunning,
    }
}

} // verus!
