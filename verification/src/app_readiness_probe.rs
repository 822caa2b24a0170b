use vstd::prelude::*;

use crate::config::ConfigReadinessProbe;

verus! {

/// Readiness probe of a running app, in the form the supervisor works with.
/// The variants and their fields mirror the configured probe.
#[derive(Debug, Clone)]
pub enum AppReadinessProbe {
    /// No probe: ready the moment the app is past Init.
    NoProbe,
    /// Ready once the child has exited with exactly this code.
    ExitCode { exit_code: i32 },
    /// Ready once `delay` milliseconds have passed since the app started.
    Delay { delay: u32 },
    /// Ready once the command, run at most once per `period` milliseconds,
    /// exits with code 0.
    Command { command: Vec<String>, period: u32 },
    /// Ready once a `method` request to `url`, made at most once per
    /// `period` milliseconds, returns a status in 200..=299.
    Http { url: String, method: String, period: u32 },
}

impl AppReadinessProbe {
    /// True of the probes that launch outside work on their own schedule
    /// (a command run or an HTTP request), as opposed to the ones that are
    /// evaluated from recorded state alone.
    pub open spec fn is_periodic(self) -> bool {
        self is Command || self is Http
    }

    /// The configured period of a periodic probe, in milliseconds.
    pub open spec fn spec_period(self) -> u32 {
        match self {
            AppReadinessProbe::Command { period, .. } => period,
            AppReadinessProbe::Http { period, .. } => period,
            _ => 0,
        }
    }

    /// The probe an app gets for a given configured probe.
    pub open spec fn spec_of_config(value: ConfigReadinessProbe) -> AppReadinessProbe {
        match value {
            ConfigReadinessProbe::NoProbe => AppReadinessProbe::NoProbe,
            ConfigReadinessProbe::ExitCode { exit_code } => AppReadinessProbe::ExitCode {
                exit_code,
            },
            ConfigReadinessProbe::Delay { delay } => AppReadinessProbe::Delay { delay },
            ConfigReadinessProbe::Command { command, period } => AppReadinessProbe::Command {
                command,
                period,
            },
            ConfigReadinessProbe::Http { url, method, period } => AppReadinessProbe::Http {
                url,
                method,
                period,
            },
        }
    }
}

impl From<ConfigReadinessProbe> for AppReadinessProbe {
    fn from(value: ConfigReadinessProbe) -> (r: AppReadinessProbe) {
        match value {
            ConfigReadinessProbe::NoProbe => AppReadinessProbe::NoProbe,
            ConfigReadinessProbe::ExitCode { exit_code } => AppReadinessProbe::ExitCode {
                exit_code,
            },
            ConfigReadinessProbe::Delay { delay } => AppReadinessProbe::Delay { delay },
            ConfigReadinessProbe::Command { command, period } => AppReadinessProbe::Command {
                command,
                period,
            },
            ConfigReadinessProbe::Http { url, method, period } => AppReadinessProbe::Http {
                url,
                method,
                period,
            },
        }
    }
}

impl vstd::std_specs::convert::FromSpecImpl<ConfigReadinessProbe> for AppReadinessProbe {
    open spec fn obeys_from_spec() -> bool {
        true
    }

    open spec fn from_spec(value: ConfigReadinessProbe) -> AppReadinessProbe {
        AppReadinessProbe::spec_of_config(value)
    }
}

} // verus!
