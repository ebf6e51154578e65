//! The rules of the background loop that owns the printer session: the heartbeat
//! monitor, the staged recovery after a failed print, and the loop itself as a
//! state machine. The caller performs each directive and reports what happened.

use vstd::prelude::*;

verus! {

/// Time between two heartbeats, in milliseconds.
pub const HEARTBEAT_PERIOD_MILLIS: u64 = 15_000;

/// Consecutive heartbeat failures that are still tolerated.
pub const FAILURE_LIMIT: u32 = 5;

/// Pause before each heartbeat of the recovery, in milliseconds.
pub const RECOVERY_PAUSE_MILLIS: u64 = 500;

/// Pause at the end of each round of the loop, in milliseconds.
pub const LOOP_PAUSE_MILLIS: u64 = 500;

/// Watches the periodic heartbeats of a session.
#[derive(Debug, Clone, Copy, PartialEq, Eq, Structural)]
pub struct HeartbeatMonitor {
    /// When the last heartbeat was sent, in milliseconds.
    pub last_heartbeat: u64,
    /// Heartbeats that have failed since the last one that succeeded.
    pub consecutive_failures: u32,
}

/// What the monitor makes of a heartbeat.
#[derive(Debug, Clone, Copy, PartialEq, Eq, Structural)]
pub enum Verdict {
    /// The printer answered.
    Healthy,
    /// The printer did not answer, and has not for this many heartbeats in a row.
    Failing(u32),
    /// The printer has failed more heartbeats in a row than are tolerated.
    Fatal,
}

/// How many outcomes at the end of a list are failures (`false`).
pub open spec fn trailing_failures(outcomes: Seq<bool>) -> nat
    decreases outcomes.len(),
{
    if outcomes.len() == 0 || outcomes.last() {
        0
    } else {
        trailing_failures(outcomes.drop_last()) + 1
    }
}

impl HeartbeatMonitor {
    /// The failure count after a heartbeat.
    pub open spec fn count_after(self, ok: bool) -> u32 {
        if ok {
            0
        } else if self.consecutive_failures < u32::MAX {
            (self.consecutive_failures + 1) as u32
        } else {
            u32::MAX
        }
    }

    /// The monitor after a heartbeat.
    pub open spec fn after(self, ok: bool) -> HeartbeatMonitor {
        HeartbeatMonitor { consecutive_failures: self.count_after(ok), ..self }
    }

    /// The verdict on a heartbeat.
    pub open spec fn verdict(self, ok: bool) -> Verdict {
        if ok {
            Verdict::Healthy
        } else if self.count_after(ok) > FAILURE_LIMIT {
            Verdict::Fatal
        } else {
            Verdict::Failing(self.count_after(ok))
        }
    }

    /// Whether a heartbeat is due: 15 s or more have gone by since the last one.
    pub open spec fn spec_due(&self, now: u64) -> bool {
        now >= self.last_heartbeat && now - self.last_heartbeat >= HEARTBEAT_PERIOD_MILLIS
    }

    /// The monitor after the heartbeats with these outcomes.
    pub open spec fn after_all(self, outcomes: Seq<bool>) -> HeartbeatMonitor
        decreases outcomes.len(),
    {
        if outcomes.len() == 0 {
            self
        } else {
            self.after_all(outcomes.drop_last()).after(outcomes.last())
        }
    }

    /// A monitor that has seen no failure; the clock of the heartbeats starts at
    /// `now`.
    pub fn new(now: u64) -> (monitor: HeartbeatMonitor)
        ensures
            monitor == (HeartbeatMonitor { last_heartbeat: now, consecutive_failures: 0 }),
    {
        HeartbeatMonitor { last_heartbeat: now, consecutive_failures: 0 }
    }

    /// Whether a heartbeat is due at the time `now`.
    #[verifier::when_used_as_spec(spec_due)]
    pub fn due(&self, now: u64) -> (due: bool)
        ensures
            due == self.spec_due(now),
    {
        now >= self.last_heartbeat && now - self.last_heartbeat >= HEARTBEAT_PERIOD_MILLIS
    }

    /// Notes that a heartbeat is sent at the time `now`.
    pub fn mark_sent(&mut self, now: u64)
        ensures
            *final(self) == (HeartbeatMonitor { last_heartbeat: now, ..*old(self) }),
    {
        self.last_heartbeat = now;
    }

    /// Takes note of a heartbeat: a success clears the failure count, a failure
    /// raises it, and a count above the limit is fatal.
    pub fn record(&mut self, ok: bool) -> (verdict: Verdict)
        ensures
            *final(self) == old(self).after(ok),
            verdict == old(self).verdict(ok),
    {
        if ok {
            self.consecutive_failures = 0;
            Verdict::Healthy
        } else {
            if self.consecutive_failures < u32::MAX {
                self.consecutive_failures = self.consecutive_failures + 1;
            }
            if self.consecutive_failures > FAILURE_LIMIT {
                Verdict::Fatal
            } else {
                Verdict::Failing(self.consecutive_failures)
            }
        }
    }
}

/// After any heartbeats, a fresh monitor counts the failures at the end of them.
pub proof fn lemma_monitor_counts_trailing(monitor: HeartbeatMonitor, outcomes: Seq<bool>)
    requires
        monitor.consecutive_failures == 0,
        outcomes.len() < u32::MAX,
    ensures
        monitor.after_all(outcomes).consecutive_failures == trailing_failures(outcomes),
        trailing_failures(outcomes) <= outcomes.len(),
    decreases outcomes.len(),
{
    if outcomes.len() > 0 {
        lemma_monitor_counts_trailing(monitor, outcomes.drop_last());
    }
}

/// The verdict on a heartbeat is fatal exactly when it is the failure that brings
/// the run of failures above the limit: the sixth failure in a row.
pub proof fn lemma_fatal_exactly_above_limit(
    monitor: HeartbeatMonitor,
    outcomes: Seq<bool>,
    ok: bool,
)
    requires
        monitor.consecutive_failures == 0,
        outcomes.len() + 1 < u32::MAX,
    ensures
        monitor.after_all(outcomes).verdict(ok) == Verdict::Fatal <==> trailing_failures(
            outcomes.push(ok),
        ) > FAILURE_LIMIT,
{
    lemma_monitor_counts_trailing(monitor, outcomes);
    assert(outcomes.push(ok).drop_last() =~= outcomes);
}

/// A run of failures from a fresh monitor is fatal at its sixth failure and at no
/// earlier one.
pub proof fn lemma_failures_in_a_row(monitor: HeartbeatMonitor, count: nat)
    requires
        monitor.consecutive_failures == 0,
        count < FAILURE_LIMIT + 1,
    ensures
        monitor.after_all(Seq::new(count, |i: int| false)).consecutive_failures == count,
        monitor.after_all(Seq::new(count, |i: int| false)).verdict(false) == Verdict::Fatal
            <==> count == FAILURE_LIMIT,
    decreases count,
{
    let run = Seq::new(count, |i: int| false);
    if count > 0 {
        lemma_failures_in_a_row(monitor, (count - 1) as nat);
        assert(run.drop_last() =~= Seq::new((count - 1) as nat, |i: int| false));
    }
}

/// Any success clears the count: the next fatal verdict is at least six heartbeats
/// away.
pub proof fn lemma_success_resets(monitor: HeartbeatMonitor)
    ensures
        monitor.after(true).consecutive_failures == 0,
        monitor.verdict(true) == Verdict::Healthy,
{
}

/// Which heartbeat of the recovery is under way.
#[derive(Debug, Clone, Copy, PartialEq, Eq, Structural)]
pub enum Recheck {
    First,
    Second,
}

/// Why the loop gave the printer up.
#[derive(Debug, Clone, Copy, PartialEq, Eq, Structural)]
pub enum FatalCause {
    /// The heartbeat at the start failed.
    Unreachable,
    /// The idle shutdown could not be configured.
    ConfigureFailed,
    /// More heartbeats in a row failed than are tolerated.
    HeartbeatsLost,
    /// A print failed and so did both heartbeats of the recovery.
    PrintFailed,
}

/// How the loop ended.
#[derive(Debug, Clone, Copy, PartialEq, Eq, Structural)]
pub enum Exit {
    /// The shutdown flag was seen.
    Stopped,
    /// The connection to the printer is lost.
    Fatal(FatalCause),
}

/// Where the loop stands.
#[derive(Debug, Clone, Copy, PartialEq, Eq, Structural)]
pub enum LoopPhase {
    /// The heartbeat at the start is pending.
    Starting,
    /// The configuration of the idle shutdown is pending.
    Configuring,
    /// The top of a round: the shutdown flag and the clock are to be read.
    Watching,
    /// A periodic heartbeat is pending.
    Beating,
    /// The queue is to be asked for one job.
    Draining,
    /// The job taken from the queue is to be printed.
    Printing,
    /// The pause before a heartbeat of the recovery is pending.
    RecoveryPause(Recheck),
    /// A heartbeat of the recovery is pending.
    RecoveryBeat(Recheck),
    /// The pause at the end of a round is pending.
    Resting,
    /// The loop is over.
    Exited(Exit),
}

/// What the caller is asked to do next.
#[derive(Debug, Clone, Copy, PartialEq, Eq, Structural)]
pub enum Directive {
    /// Send a heartbeat and wait for its response.
    Heartbeat,
    /// Set the idle shutdown of the printer to this level.
    ConfigureShutdown(u8),
    /// Read the shutdown flag and the clock.
    ReadClock,
    /// Take one job from the queue, if there is one, without waiting.
    TakeJob,
    /// Print the job that was taken.
    PrintJob,
    /// Sleep for this many milliseconds.
    Sleep(u64),
    /// Leave the loop.
    Exit(Exit),
}

/// What happened when the caller performed the pending directive.
#[derive(Debug, Clone, Copy, PartialEq, Eq, Structural)]
pub enum Report {
    /// The heartbeat was answered (`true`) or not.
    Heartbeat(bool),
    /// The idle shutdown was written (`true`) or the write failed.
    Configured(bool),
    /// Whether the system is still running, and the time in milliseconds.
    Clock { running: bool, now: u64 },
    /// Whether the queue held a job.
    Job(bool),
    /// Whether the job was printed.
    Printed(bool),
    /// The sleep is over.
    Slept,
}

/// The background loop that owns the printer session.
#[derive(Debug, Clone, Copy, PartialEq, Eq, Structural)]
pub struct Orchestrator {
    pub monitor: HeartbeatMonitor,
    /// Level of the idle shutdown to configure at the start; zero for none.
    pub shutdown_level: u8,
    pub phase: LoopPhase,
}

impl Orchestrator {
    /// The directive that the loop waits for.
    pub open spec fn spec_pending(&self) -> Directive {
        match self.phase {
            LoopPhase::Starting => Directive::Heartbeat,
            LoopPhase::Configuring => Directive::ConfigureShutdown(self.shutdown_level),
            LoopPhase::Watching => Directive::ReadClock,
            LoopPhase::Beating => Directive::Heartbeat,
            LoopPhase::Draining => Directive::TakeJob,
            LoopPhase::Printing => Directive::PrintJob,
            LoopPhase::RecoveryPause(_) => Directive::Sleep(RECOVERY_PAUSE_MILLIS),
            LoopPhase::RecoveryBeat(_) => Directive::Heartbeat,
            LoopPhase::Resting => Directive::Sleep(LOOP_PAUSE_MILLIS),
            LoopPhase::Exited(exit) => Directive::Exit(exit),
        }
    }

    /// The loop in another phase.
    pub open spec fn moved_to(self, phase: LoopPhase) -> Orchestrator {
        Orchestrator { phase, ..self }
    }

    /// The loop after a report. A report that does not answer the pending
    /// directive changes nothing, and nothing changes a loop that is over.
    pub open spec fn after(self, report: Report) -> Orchestrator {
        match (self.phase, report) {
            (LoopPhase::Starting, Report::Heartbeat(ok)) => if !ok {
                self.moved_to(LoopPhase::Exited(Exit::Fatal(FatalCause::Unreachable)))
            } else if self.shutdown_level != 0 {
                self.moved_to(LoopPhase::Configuring)
            } else {
                self.moved_to(LoopPhase::Watching)
            },
            (LoopPhase::Configuring, Report::Configured(ok)) => if ok {
                self.moved_to(LoopPhase::Watching)
            } else {
                self.moved_to(LoopPhase::Exited(Exit::Fatal(FatalCause::ConfigureFailed)))
            },
            (LoopPhase::Watching, Report::Clock { running, now }) => if !running {
                self.moved_to(LoopPhase::Exited(Exit::Stopped))
            } else if self.monitor.spec_due(now) {
                Orchestrator {
                    monitor: HeartbeatMonitor { last_heartbeat: now, ..self.monitor },
                    phase: LoopPhase::Beating,
                    ..self
                }
            } else {
                self.moved_to(LoopPhase::Draining)
            },
            (LoopPhase::Beating, Report::Heartbeat(ok)) => Orchestrator {
                monitor: self.monitor.after(ok),
                phase: if self.monitor.verdict(ok) == Verdict::Fatal {
                    LoopPhase::Exited(Exit::Fatal(FatalCause::HeartbeatsLost))
                } else {
                    LoopPhase::Draining
                },
                ..self
            },
            (LoopPhase::Draining, Report::Job(present)) => if present {
                self.moved_to(LoopPhase::Printing)
            } else {
                self.moved_to(LoopPhase::Resting)
            },
            (LoopPhase::Printing, Report::Printed(ok)) => if ok {
                self.moved_to(LoopPhase::Resting)
            } else {
                self.moved_to(LoopPhase::RecoveryPause(Recheck::First))
            },
            (LoopPhase::RecoveryPause(recheck), Report::Slept) => self.moved_to(
                LoopPhase::RecoveryBeat(recheck),
            ),
            (LoopPhase::RecoveryBeat(recheck), Report::Heartbeat(ok)) => if ok {
                self.moved_to(LoopPhase::Resting)
            } else if recheck == Recheck::First {
                self.moved_to(LoopPhase::RecoveryPause(Recheck::Second))
            } else {
                self.moved_to(LoopPhase::Exited(Exit::Fatal(FatalCause::PrintFailed)))
            },
            (LoopPhase::Resting, Report::Slept) => self.moved_to(LoopPhase::Watching),
            _ => self,
        }
    }

    /// The loop after a list of reports.
    pub open spec fn after_all(self, reports: Seq<Report>) -> Orchestrator
        decreases reports.len(),
    {
        if reports.len() == 0 {
            self
        } else {
            self.after_all(reports.drop_last()).after(reports.last())
        }
    }

    /// A loop at its start: the first heartbeat is pending. The clock of the
    /// periodic heartbeats starts at `now`.
    pub fn new(now: u64, shutdown_level: u8) -> (orchestrator: Orchestrator)
        ensures
            orchestrator == (Orchestrator {
                monitor: HeartbeatMonitor { last_heartbeat: now, consecutive_failures: 0 },
                shutdown_level,
                phase: LoopPhase::Starting,
            }),
    {
        Orchestrator { monitor: HeartbeatMonitor::new(now), shutdown_level, phase: LoopPhase::Starting }
    }

    /// The directive that the caller is to perform next.
    #[verifier::when_used_as_spec(spec_pending)]
    pub fn pending(&self) -> (directive: Directive)
        ensures
            directive == self.spec_pending(),
    {
        match self.phase {
            LoopPhase::Starting => Directive::Heartbeat,
            LoopPhase::Configuring => Directive::ConfigureShutdown(self.shutdown_level),
            LoopPhase::Watching => Directive::ReadClock,
            LoopPhase::Beating => Directive::Heartbeat,
            LoopPhase::Draining => Directive::TakeJob,
            LoopPhase::Printing => Directive::PrintJob,
            LoopPhase::RecoveryPause(_) => Directive::Sleep(RECOVERY_PAUSE_MILLIS),
            LoopPhase::RecoveryBeat(_) => Directive::Heartbeat,
            LoopPhase::Resting => Directive::Sleep(LOOP_PAUSE_MILLIS),
            LoopPhase::Exited(exit) => Directive::Exit(exit),
        }
    }

    /// Takes note of what happened when the caller performed the pending
    /// directive.
    pub fn report(&mut self, report: Report)
        ensures
            *final(self) == old(self).after(report),
    {
        match (self.phase, report) {
            (LoopPhase::Starting, Report::Heartbeat(ok)) => {
                if !ok {
                    self.phase = LoopPhase::Exited(Exit::Fatal(FatalCause::Unreachable));
                } else if self.shutdown_level != 0 {
                    self.phase = LoopPhase::Configuring;
                } else {
                    self.phase = LoopPhase::Watching;
                }
            },
            (LoopPhase::Configuring, Report::Configured(ok)) => {
                if ok {
                    self.phase = LoopPhase::Watching;
                } else {
                    self.phase = LoopPhase::Exited(Exit::Fatal(FatalCause::ConfigureFailed));
                }
            },
            (LoopPhase::Watching, Report::Clock { running, now }) => {
                if !running {
                    self.phase = LoopPhase::Exited(Exit::Stopped);
                } else if self.monitor.due(now) {
                    self.monitor.mark_sent(now);
                    self.phase = LoopPhase::Beating;
                } else {
                    self.phase = LoopPhase::Draining;
                }
            },
            (LoopPhase::Beating, Report::Heartbeat(ok)) => {
                match self.monitor.record(ok) {
                    Verdict::Fatal => {
                        self.phase = LoopPhase::Exited(Exit::Fatal(FatalCause::HeartbeatsLost));
                    },
                    _ => {
                        self.phase = LoopPhase::Draining;
                    },
                }
            },
            (LoopPhase::Draining, Report::Job(present)) => {
                if present {
                    self.phase = LoopPhase::Printing;
                } else {
                    self.phase = LoopPhase::Resting;
                }
            },
            (LoopPhase::Printing, Report::Printed(ok)) => {
                if ok {
                    self.phase = LoopPhase::Resting;
                } else {
                    self.phase = LoopPhase::RecoveryPause(Recheck::First);
                }
            },
            (LoopPhase::RecoveryPause(recheck), Report::Slept) => {
                self.phase = LoopPhase::RecoveryBeat(recheck);
            },
            (LoopPhase::RecoveryBeat(recheck), Report::Heartbeat(ok)) => {
                if ok {
                    self.phase = LoopPhase::Resting;
                } else {
                    match recheck {
                        Recheck::First => {
                            self.phase = LoopPhase::RecoveryPause(Recheck::Second);
                        },
                        Recheck::Second => {
                            self.phase = LoopPhase::Exited(Exit::Fatal(FatalCause::PrintFailed));
                        },
                    }
                }
            },
            (LoopPhase::Resting, Report::Slept) => {
                self.phase = LoopPhase::Watching;
            },
            _ => {},
        }
    }
}

/// What is left to do when a worker has ended.
#[derive(Debug, Clone, Copy, PartialEq, Eq, Structural)]
pub struct ExitPlan {
    /// Clear the flag that keeps the other workers running.
    pub signal_shutdown: bool,
    /// Tell the render loop to quit.
    pub send_quit: bool,
    /// Send a notification of the error.
    pub notify: bool,
}

/// What the printer worker does when its loop has ended. With the printer
/// disabled the end of the loop goes unnoticed; otherwise the system is shut down,
/// and a fatal end is notified where notifications are configured.
pub fn printer_exit_plan(exit: Exit, printer_disabled: bool, notify_configured: bool) -> (plan:
    ExitPlan)
    ensures
        plan == (ExitPlan {
            signal_shutdown: !printer_disabled,
            send_quit: !printer_disabled,
            notify: !printer_disabled && notify_configured && exit is Fatal,
        }),
{
    if printer_disabled {
        ExitPlan { signal_shutdown: false, send_quit: false, notify: false }
    } else {
        let fatal = match exit {
            Exit::Fatal(_) => true,
            Exit::Stopped => false,
        };
        ExitPlan { signal_shutdown: true, send_quit: true, notify: notify_configured && fatal }
    }
}

/// What the chat worker does when it has ended: the system is shut down, and an
/// end by an error is notified where notifications are configured.
pub fn chat_exit_plan(failed: bool, notify_configured: bool) -> (plan: ExitPlan)
    ensures
        plan == (ExitPlan {
            signal_shutdown: true,
            send_quit: true,
            notify: failed && notify_configured,
        }),
{
    ExitPlan { signal_shutdown: true, send_quit: true, notify: failed && notify_configured }
}

/// A periodic heartbeat that fails ends the loop exactly when five heartbeats in
/// a row have failed before it; one that is answered never ends the loop and
/// clears the count.
pub proof fn lemma_heartbeats_lost_above_limit(orchestrator: Orchestrator, ok: bool)
    requires
        orchestrator.phase == LoopPhase::Beating,
    ensures
        orchestrator.after(Report::Heartbeat(ok)).phase == LoopPhase::Exited(
            Exit::Fatal(FatalCause::HeartbeatsLost),
        ) <==> !ok && orchestrator.monitor.consecutive_failures >= FAILURE_LIMIT,
        orchestrator.after(Report::Heartbeat(ok)).phase != LoopPhase::Exited(
            Exit::Fatal(FatalCause::HeartbeatsLost),
        ) ==> orchestrator.after(Report::Heartbeat(ok)).phase == LoopPhase::Draining,
        ok ==> orchestrator.after(Report::Heartbeat(ok)).monitor.consecutive_failures == 0,
{
}

/// A loop that is over stays over, with the exit it ended with: a fatal error is
/// raised once.
pub proof fn lemma_exit_is_final(orchestrator: Orchestrator, reports: Seq<Report>)
    requires
        orchestrator.phase is Exited,
    ensures
        orchestrator.after_all(reports) == orchestrator,
    decreases reports.len(),
{
    if reports.len() > 0 {
        lemma_exit_is_final(orchestrator, reports.drop_last());
    }
}

/// A failed print is followed by a pause of 500 ms and a heartbeat; if that fails,
/// by another pause and another heartbeat. The loop goes on as soon as one of the
/// two heartbeats is answered and gives the printer up when neither is.
pub proof fn lemma_staged_recovery(orchestrator: Orchestrator, first: bool, second: bool)
    requires
        orchestrator.phase == LoopPhase::Printing,
    ensures
        ({
            let failed = orchestrator.after(Report::Printed(false));
            let checked = failed.after(Report::Slept).after(Report::Heartbeat(first));
            let rechecked = checked.after(Report::Slept).after(Report::Heartbeat(second));
            &&& failed.spec_pending() == Directive::Sleep(RECOVERY_PAUSE_MILLIS)
            &&& failed.after(Report::Slept).spec_pending() == Directive::Heartbeat
            &&& first ==> checked.phase == LoopPhase::Resting
            &&& !first ==> checked.spec_pending() == Directive::Sleep(RECOVERY_PAUSE_MILLIS)
                && checked.after(Report::Slept).spec_pending() == Directive::Heartbeat
            &&& !first && second ==> rechecked.phase == LoopPhase::Resting
            &&& !first && !second ==> rechecked.phase == LoopPhase::Exited(
                Exit::Fatal(FatalCause::PrintFailed),
            )
            &&& rechecked.monitor == orchestrator.monitor
        }),
{
}

} // verus!
