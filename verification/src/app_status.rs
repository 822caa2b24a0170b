use vstd::prelude::*;

verus! {

/// Lifecycle phase of one managed application.
#[derive(Clone, Copy, Debug, PartialEq, Eq, Structural)]
pub enum AppStatus {
    /// Created; no work has been done on it yet.
    Init,
    /// A spawned child process is attached to it.
    Running,
    /// The graceful stop signal was delivered; awaiting the exit.
    Stopping,
    /// The child has stopped (or the spawn failed and it never started).
    Stopped,
}

impl AppStatus {
    /// Position along the lifecycle; later phases have a larger rank.
    pub open spec fn rank(self) -> int {
        match self {
            AppStatus::Init => 0,
            AppStatus::Running => 1,
            AppStatus::Stopping => 2,
            AppStatus::Stopped => 3,
        }
    }

    /// The transitions a status may take: stay put, advance one step along
    /// Init -> Running -> Stopping -> Stopped, or jump straight to Stopped
    /// (a failed spawn from Init, an observed exit from Running).
    /// Nothing ever moves back to an earlier phase.
    pub open spec fn can_advance_to(self, to: AppStatus) -> bool {
        ||| self == to
        ||| (self is Init && to is Running)
        ||| (self is Init && to is Stopped)
        ||| (self is Running && to is Stopping)
        ||| (self is Running && to is Stopped)
        ||| (self is Stopping && to is Stopped)
    }

    /// A terminal status: the app has stopped, or never started and no
    /// longer will.  The supervisor exits once every app is terminal.
    pub open spec fn spec_is_terminal(self) -> bool {
        self is Stopped || self is Init
    }

    /// Executable form of `spec_is_terminal`.
    pub fn is_terminal(self) -> (r: bool)
        ensures
            r == self.spec_is_terminal(),
    {
        match self {
            AppStatus::Init => true,
            AppStatus::Stopped => true,
            _ => false,
        }
    }

    /// Human-readable name of the status, for log lines.
    pub fn label(self) -> (r: String)
        ensures
            self is Init ==> r@ == "INIT"@,
            self is Running ==> r@ == "RUNNING"@,
            self is Stopping ==> r@ == "STOPPING"@,
            self is Stopped ==> r@ == "STOPPED"@,
    {
        match self {
            AppStatus::Init => "INIT".to_owned(),
            AppStatus::Running => "RUNNING".to_owned(),
            AppStatus::Stopping => "STOPPING".to_owned(),
            AppStatus::Stopped => "STOPPED".to_owned(),
        }
    }
}

/// Advancement never lowers the rank of a status: over any chain of allowed
/// transitions the status only moves forward along the lifecycle, never back.
pub proof fn lemma_advance_monotonic_rank(a: AppStatus, b: AppStatus)
    requires
        a.can_advance_to(b),
    ensures
        a.rank() <= b.rank(),
{
}

} // verus!
