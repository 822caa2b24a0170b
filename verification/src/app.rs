use vstd::prelude::*;

use crate::app_readiness_probe::AppReadinessProbe;
use crate::app_status::AppStatus;
use crate::config::ConfigApp;

verus! {

/// What a non-blocking check of the child process reported.
#[derive(Debug, Clone, Copy)]
pub enum ReapOutcome {
    /// The child has not exited yet.
    StillRunning,
    /// The child exited; `code` is its exit code, absent when it was
    /// terminated by a signal.
    Exited { code: Option<i32> },
    /// The child could not be checked at all.
    Failed,
}

/// What an attempt to spawn the child process reported.
#[derive(Debug, Clone, Copy)]
pub enum SpawnOutcome {
    /// The child was created and has this process id.
    Spawned { pid: u32 },
    /// The child could not be created.
    SpawnFailed,
}

/// What an attempt to deliver the graceful-stop signal reported.
#[derive(Debug, Clone, Copy)]
pub enum SignalOutcome {
    /// The signal was sent.
    Delivered,
    /// The signal could not be sent.
    DeliveryFailed,
}

/// Runtime record of one managed application: its immutable declaration
/// together with everything the supervisor has observed about it.
///
/// All clock readings are milliseconds of a monotonic clock; the caller
/// passes the current reading into every operation that needs one.
#[derive(Debug)]
pub struct App {
    /// Unique name.
    pub name: String,
    /// Executable and arguments.
    pub command: Vec<String>,
    /// User id the child runs as.
    pub uid: u32,
    /// Monotonic readiness flag: once true, never false again.
    pub ready: bool,
    /// The configured readiness probe.
    pub readiness_probe: AppReadinessProbe,
    /// Signal delivered for a graceful stop.
    pub signal: i32,
    /// Process id of the spawned child, present once a spawn succeeded.
    pub pid: Option<u32>,
    /// Lifecycle phase.
    pub status: AppStatus,
    /// Exit code observed when the child was reaped, if it exited normally.
    pub exit_code: Option<i32>,
    /// Clock reading at the moment the app entered Running.
    pub started_at: Option<u64>,
    /// Clock reading of the last `update`.
    pub updated_at: u64,
    /// Clock reading of the last periodic-probe invocation.
    pub ready_checked_at: Option<u64>,
    /// Stdout sink: absent = discard, "inherit" = parent stream, else a path.
    pub stdout: Option<String>,
    /// Stderr sink, with the same meaning as `stdout`.
    pub stderr: Option<String>,
}

impl App {
    /// Well-formedness tying the child handle, the timestamps and the exit
    /// code to the lifecycle phase.
    pub open spec fn wf(self) -> bool {
        &&& (self.status is Running || self.status is Stopping) ==> (self.pid is Some
            && self.started_at is Some)
        &&& self.pid is Some ==> !(self.status is Init)
        &&& self.started_at is Some ==> !(self.status is Init)
        &&& self.exit_code is Some ==> self.status is Stopped
    }

    /// Every clock reading recorded in the app is at or before `t`.  The
    /// clock is monotonic, so this holds of the current reading whenever
    /// the recorded ones are past readings.
    pub open spec fn times_le(self, t: u64) -> bool {
        &&& self.updated_at <= t
        &&& (self.started_at matches Some(s) ==> s <= t)
        &&& (self.ready_checked_at matches Some(c) ==> c <= t)
    }

    /// The app ended in failure: it is stopped and its exit code is nonzero
    /// or was never observed.
    pub open spec fn failed_exit(self) -> bool {
        self.status is Stopped && (match self.exit_code {
            Some(c) => c != 0,
            None => true,
        })
    }

    /// A non-blocking child check is called for: the app is not yet known
    /// to be stopped, no exit has been observed, and there is a child.
    pub open spec fn spec_needs_reap(self) -> bool {
        !(self.status is Stopped) && self.exit_code is None && self.pid is Some
    }

    /// Executable form of `spec_needs_reap`.
    pub fn needs_reap(&self) -> (r: bool)
        ensures
            r == self.spec_needs_reap(),
    {
        !(self.status == AppStatus::Stopped) && self.exit_code.is_none() && self.pid.is_some()
    }

    /// The period of the periodic probe has elapsed (or it has never run).
    pub open spec fn spec_period_elapsed(self, now: u64) -> bool {
        match self.ready_checked_at {
            None => true,
            Some(t) => now - t >= self.readiness_probe.spec_period(),
        }
    }

    /// A periodic probe (command or HTTP) must be invoked on this tick:
    /// the app is past Init, not yet ready, carries such a probe, and the
    /// probe's period has elapsed since its last invocation.
    pub open spec fn spec_probe_due(self, now: u64) -> bool {
        &&& !(self.status is Init)
        &&& !self.ready
        &&& self.readiness_probe.is_periodic()
        &&& self.spec_period_elapsed(now)
    }

    /// Executable form of `spec_probe_due`.
    pub fn probe_due(&self, now: u64) -> (r: bool)
        requires
            self.times_le(now),
        ensures
            r == self.spec_probe_due(now),
    {
        if self.status == AppStatus::Init || self.ready {
            return false;
        }
        let period: u32 = match &self.readiness_probe {
            AppReadinessProbe::Command { period, .. } => *period,
            AppReadinessProbe::Http { period, .. } => *period,
            _ => { return false; },
        };
        match self.ready_checked_at {
            None => true,
            Some(t) => now - t >= period as u64,
        }
    }

    /// The record after the child check `reap` has been folded in: an
    /// observed exit (or a failed check) moves the app to Stopped, and an
    /// observed exit records the code.
    pub open spec fn spec_reap(a: App, reap: ReapOutcome) -> App {
        if a.spec_needs_reap() {
            match reap {
                ReapOutcome::StillRunning => a,
                ReapOutcome::Exited { code } => App {
                    status: AppStatus::Stopped,
                    exit_code: code,
                    ..a
                },
                ReapOutcome::Failed => App { status: AppStatus::Stopped, ..a },
            }
        } else {
            a
        }
    }

    /// The record after the readiness refresh at time `now`.  Skipped
    /// entirely while the app is in Init or already ready.  The exit-code,
    /// delay and no-op probes are evaluated from the record alone; a
    /// periodic probe consumes `probe_passed`, the outcome of the probe
    /// invocation made on this tick, and records the invocation time.
    pub open spec fn spec_refresh(a: App, now: u64, probe_passed: bool) -> App {
        if a.status is Init || a.ready {
            a
        } else {
            match a.readiness_probe {
                AppReadinessProbe::NoProbe => App { ready: true, ..a },
                AppReadinessProbe::Delay { delay } => match a.started_at {
                    Some(s) => if now - s >= delay {
                        App { ready: true, ..a }
                    } else {
                        a
                    },
                    None => a,
                },
                AppReadinessProbe::ExitCode { exit_code } => if a.status is Stopped
                    && a.exit_code == Some(exit_code) {
                    App { ready: true, ..a }
                } else {
                    a
                },
                AppReadinessProbe::Command { .. } => if a.spec_period_elapsed(now) {
                    App { ready: probe_passed, ready_checked_at: Some(now), ..a }
                } else {
                    a
                },
                AppReadinessProbe::Http { .. } => if a.spec_period_elapsed(now) {
                    App { ready: probe_passed, ready_checked_at: Some(now), ..a }
                } else {
                    a
                },
            }
        }
    }

    /// The record after one whole `update` at time `now`: first the child
    /// check is folded in, then readiness is refreshed against the
    /// just-updated phase and exit code, then the update time is recorded.
    pub open spec fn spec_update(a: App, now: u64, reap: ReapOutcome, probe_passed: bool) -> App {
        App { updated_at: now, ..Self::spec_refresh(Self::spec_reap(a, reap), now, probe_passed) }
    }

    /// Creates the record of a declared app: phase Init, not ready, no
    /// child, nothing observed yet.
    pub fn new(
        name: String,
        command: Vec<String>,
        uid: u32,
        readiness_probe: AppReadinessProbe,
        signal: i32,
        stdout: Option<String>,
        stderr: Option<String>,
        now: u64,
    ) -> (r: App)
        ensures
            r == (App {
                name,
                command,
                uid,
                ready: false,
                readiness_probe,
                signal,
                pid: None,
                status: AppStatus::Init,
                exit_code: None,
                started_at: None,
                updated_at: now,
                ready_checked_at: None,
                stdout,
                stderr,
            }),
            r.wf(),
            r.times_le(now),
    {
        App {
            name,
            command,
            uid,
            ready: false,
            readiness_probe,
            signal,
            pid: None,
            status: AppStatus::Init,
            exit_code: None,
            started_at: None,
            updated_at: now,
            ready_checked_at: None,
            stdout,
            stderr,
        }
    }

    /// The record a declared app gets from its declaration: phase Init,
    /// not ready, nothing observed yet.
    pub open spec fn spec_from_config(config: ConfigApp, now: u64) -> App {
        App {
            name: config.name,
            command: config.command,
            uid: config.uid,
            ready: false,
            readiness_probe: AppReadinessProbe::spec_of_config(config.ready),
            signal: config.signal,
            pid: None,
            status: AppStatus::Init,
            exit_code: None,
            started_at: None,
            updated_at: now,
            ready_checked_at: None,
            stdout: config.stdout,
            stderr: config.stderr,
        }
    }

    /// The record a declared app gets from its validated declaration.
    pub fn from_config(config: ConfigApp, now: u64) -> (r: App)
        ensures
            r == Self::spec_from_config(config, now),
            r.wf(),
            r.times_le(now),
    {
        let ConfigApp { name, command, stdout, stderr, signal, uid, depends_on: _, ready } =
            config;
        App::new(name, command, uid, AppReadinessProbe::from(ready), signal, stdout, stderr, now)
    }

    /// The app's name.
    pub fn get_name(&self) -> (r: String)
        ensures
            r == self.name,
    {
        self.name.clone()
    }

    /// The app's lifecycle phase.
    pub fn get_status(&self) -> (r: AppStatus)
        ensures
            r == self.status,
    {
        self.status
    }

    /// The observed exit code, if any.
    pub fn get_exit_code(&self) -> (r: Option<i32>)
        ensures
            r == self.exit_code,
    {
        self.exit_code
    }

    /// The child's process id, if a spawn succeeded.
    pub fn get_pid(&self) -> (r: Option<u32>)
        ensures
            r == self.pid,
    {
        self.pid
    }

    /// The monotonic readiness flag.
    pub fn is_ready(&self) -> (r: bool)
        ensures
            r == self.ready,
    {
        self.ready
    }

    /// One supervisor tick for this app: folds in the child check `reap`
    /// (consulted only when `spec_needs_reap` held), then refreshes
    /// readiness (`probe_passed` is the outcome of the periodic-probe
    /// invocation made on this tick, consulted only when `spec_probe_due`
    /// held), then records `now` as the update time.  The child check is
    /// folded in first on purpose: the exit-code probe must see the
    /// just-recorded phase and code.
    pub fn update(&mut self, now: u64, reap: ReapOutcome, probe_passed: bool)
        requires
            old(self).wf(),
            old(self).times_le(now),
        ensures
            *final(self) == Self::spec_update(*old(self), now, reap, probe_passed),
            final(self).wf(),
            final(self).times_le(now),
            old(self).status.can_advance_to(final(self).status),
            old(self).ready ==> final(self).ready,
    {
        if !(self.status == AppStatus::Stopped) && self.exit_code.is_none() && self.pid.is_some()
        {
            match reap {
                ReapOutcome::StillRunning => {},
                ReapOutcome::Exited { code } => {
                    self.exit_code = code;
                    self.status = AppStatus::Stopped;
                },
                ReapOutcome::Failed => {
                    self.status = AppStatus::Stopped;
                },
            }
        }
        if !(self.status == AppStatus::Init) && !self.ready {
            match &self.readiness_probe {
                AppReadinessProbe::NoProbe => {
                    self.ready = true;
                },
                AppReadinessProbe::Delay { delay } => {
                    let d: u32 = *delay;
                    match self.started_at {
                        Some(s) => {
                            if now - s >= d as u64 {
                                self.ready = true;
                            }
                        },
                        None => {},
                    }
                },
                AppReadinessProbe::ExitCode { exit_code } => {
                    let want: i32 = *exit_code;
                    if self.status == AppStatus::Stopped {
                        match self.exit_code {
                            Some(c) => {
                                if c == want {
                                    self.ready = true;
                                }
                            },
                            None => {},
                        }
                    }
                },
                AppReadinessProbe::Command { period, .. } => {
                    let p: u32 = *period;
                    let due: bool = match self.ready_checked_at {
                        None => true,
                        Some(t) => now - t >= p as u64,
                    };
                    if due {
                        self.ready_checked_at = Some(now);
                        self.ready = probe_passed;
                    }
                },
                AppReadinessProbe::Http { period, .. } => {
                    let p: u32 = *period;
                    let due: bool = match self.ready_checked_at {
                        None => true,
                        Some(t) => now - t >= p as u64,
                    };
                    if due {
                        self.ready_checked_at = Some(now);
                        self.ready = probe_passed;
                    }
                },
            }
        }
        self.updated_at = now;
    }

    /// The record after a start attempt: from Init, a successful spawn
    /// moves the app to Running and records the child and the start time;
    /// a failed spawn moves it to Stopped with no child and no exit code.
    /// From any other phase the attempt changes nothing.
    pub open spec fn spec_run(a: App, outcome: SpawnOutcome, now: u64) -> App {
        if !(a.status is Init) {
            a
        } else {
            match outcome {
                SpawnOutcome::Spawned { pid } => App {
                    pid: Some(pid),
                    started_at: Some(now),
                    status: AppStatus::Running,
                    ..a
                },
                SpawnOutcome::SpawnFailed => App { status: AppStatus::Stopped, ..a },
            }
        }
    }

    /// Folds in the outcome of a spawn attempt made for this app.  On an
    /// app that is not in Init this is a no-op, whatever the outcome.
    pub fn run(&mut self, outcome: SpawnOutcome, now: u64)
        requires
            old(self).wf(),
            old(self).times_le(now),
        ensures
            *final(self) == Self::spec_run(*old(self), outcome, now),
            final(self).wf(),
            final(self).times_le(now),
            old(self).status.can_advance_to(final(self).status),
            old(self).ready ==> final(self).ready,
            !(old(self).status is Init) ==> *final(self) == *old(self),
    {
        if self.status == AppStatus::Init {
            match outcome {
                SpawnOutcome::Spawned { pid } => {
                    self.pid = Some(pid);
                    self.started_at = Some(now);
                    self.status = AppStatus::Running;
                },
                SpawnOutcome::SpawnFailed => {
                    self.status = AppStatus::Stopped;
                },
            }
        }
    }

    /// The record after a graceful-stop attempt: from Running, a delivered
    /// signal moves the app to Stopping; a failed delivery leaves it in
    /// Running (the caller escalates to a forced kill, and the next child
    /// check observes the exit).  From any other phase nothing changes.
    pub open spec fn spec_stop(a: App, outcome: SignalOutcome) -> App {
        if !(a.status is Running) {
            a
        } else {
            match outcome {
                SignalOutcome::Delivered => App { status: AppStatus::Stopping, ..a },
                SignalOutcome::DeliveryFailed => a,
            }
        }
    }

    /// The stop attempt must be escalated to a forced kill: the app was
    /// Running and the graceful signal could not be delivered.
    pub open spec fn spec_stop_escalates(a: App, outcome: SignalOutcome) -> bool {
        a.status is Running && outcome is DeliveryFailed
    }

    /// Folds in the outcome of a graceful-stop attempt.  Returns whether
    /// the caller must escalate to a forced kill.  On an app that is not
    /// in Running this is a no-op, whatever the outcome.
    pub fn stop(&mut self, outcome: SignalOutcome) -> (kill: bool)
        requires
            old(self).wf(),
        ensures
            *final(self) == Self::spec_stop(*old(self), outcome),
            kill == Self::spec_stop_escalates(*old(self), outcome),
            final(self).wf(),
            old(self).status.can_advance_to(final(self).status),
            old(self).ready ==> final(self).ready,
            !(old(self).status is Running) ==> *final(self) == *old(self),
    {
        if self.status == AppStatus::Running {
            match outcome {
                SignalOutcome::Delivered => {
                    self.status = AppStatus::Stopping;
                    false
                },
                SignalOutcome::DeliveryFailed => true,
            }
        } else {
            false
        }
    }
}

/// Period gating of the periodic probes: when an update at time `now`
/// consumed a probe invocation (the probe was due), the next invocation is
/// due at a later time `t` exactly when a whole period has passed since
/// `now` and the app still wants probing.  In particular no second
/// invocation happens anywhere in the window `now <= t < now + period`,
/// and the first `t` past the window with the app unready is due again.
pub proof fn lemma_probe_period_gating(
    a: App,
    now: u64,
    reap: ReapOutcome,
    probe_passed: bool,
    t: u64,
)
    requires
        a.spec_probe_due(now),
        now <= t,
    ensures
        ({
            let b = App::spec_update(a, now, reap, probe_passed);
            b.spec_probe_due(t) == (t - now >= a.readiness_probe.spec_period() && !b.ready
                && !(b.status is Init))
        }),
{
}

/// A delay probe with a zero delay reports ready on the very first update
/// after the app reached Running.
pub proof fn lemma_delay_zero_ready(a: App, now: u64, reap: ReapOutcome, probe_passed: bool)
    requires
        a.wf(),
        a.times_le(now),
        a.readiness_probe == (AppReadinessProbe::Delay { delay: 0u32 }),
        a.status is Running,
    ensures
        App::spec_update(a, now, reap, probe_passed).ready,
{
}

} // verus!
