use maestro::app::{App, ReapOutcome, SignalOutcome, SpawnOutcome};
use maestro::app_readiness_probe::AppReadinessProbe;
use maestro::app_status::AppStatus;

fn make_app(probe: AppReadinessProbe) -> App {
    App::new(
        "svc".to_string(),
        vec!["sleep".to_string(), "60".to_string()],
        0,
        probe,
        15,
        None,
        None,
        0,
    )
}

#[test]
fn new_app_starts_in_init() {
    let app = make_app(AppReadinessProbe::NoProbe);
    assert_eq!(app.get_status(), AppStatus::Init);
    assert!(!app.is_ready());
    assert_eq!(app.get_pid(), None);
    assert_eq!(app.get_exit_code(), None);
    assert_eq!(app.get_name(), "svc".to_string());
}

#[test]
fn run_spawned_moves_to_running() {
    let mut app = make_app(AppReadinessProbe::NoProbe);
    app.run(SpawnOutcome::Spawned { pid: 42 }, 5);
    assert_eq!(app.get_status(), AppStatus::Running);
    assert_eq!(app.get_pid(), Some(42));
}

#[test]
fn run_failed_moves_to_stopped_without_exit() {
    let mut app = make_app(AppReadinessProbe::NoProbe);
    app.run(SpawnOutcome::SpawnFailed, 5);
    assert_eq!(app.get_status(), AppStatus::Stopped);
    assert_eq!(app.get_exit_code(), None);
    assert_eq!(app.get_pid(), None);
}

#[test]
fn run_outside_init_is_a_no_op() {
    let mut app = make_app(AppReadinessProbe::NoProbe);
    app.run(SpawnOutcome::Spawned { pid: 42 }, 5);
    app.run(SpawnOutcome::Spawned { pid: 99 }, 6);
    assert_eq!(app.get_pid(), Some(42));
    assert_eq!(app.get_status(), AppStatus::Running);
    app.run(SpawnOutcome::SpawnFailed, 7);
    assert_eq!(app.get_status(), AppStatus::Running);
}

#[test]
fn stop_outside_running_is_a_no_op() {
    let mut app = make_app(AppReadinessProbe::NoProbe);
    let kill = app.stop(SignalOutcome::Delivered);
    assert!(!kill);
    assert_eq!(app.get_status(), AppStatus::Init);
    app.run(SpawnOutcome::Spawned { pid: 1 }, 0);
    let kill = app.stop(SignalOutcome::Delivered);
    assert!(!kill);
    assert_eq!(app.get_status(), AppStatus::Stopping);
    let kill = app.stop(SignalOutcome::Delivered);
    assert!(!kill);
    assert_eq!(app.get_status(), AppStatus::Stopping);
}

#[test]
fn stop_failure_escalates_to_kill_and_stays_running() {
    let mut app = make_app(AppReadinessProbe::NoProbe);
    app.run(SpawnOutcome::Spawned { pid: 1 }, 0);
    let kill = app.stop(SignalOutcome::DeliveryFailed);
    assert!(kill);
    assert_eq!(app.get_status(), AppStatus::Running);
    app.update(100, ReapOutcome::Exited { code: None }, false);
    assert_eq!(app.get_status(), AppStatus::Stopped);
    assert_eq!(app.get_exit_code(), None);
}

#[test]
fn update_reaps_exit_code() {
    let mut app = make_app(AppReadinessProbe::NoProbe);
    app.run(SpawnOutcome::Spawned { pid: 1 }, 0);
    app.update(100, ReapOutcome::StillRunning, false);
    assert_eq!(app.get_status(), AppStatus::Running);
    app.update(200, ReapOutcome::Exited { code: Some(3) }, false);
    assert_eq!(app.get_status(), AppStatus::Stopped);
    assert_eq!(app.get_exit_code(), Some(3));
}

#[test]
fn update_reap_failure_forces_stopped() {
    let mut app = make_app(AppReadinessProbe::NoProbe);
    app.run(SpawnOutcome::Spawned { pid: 1 }, 0);
    app.update(100, ReapOutcome::Failed, false);
    assert_eq!(app.get_status(), AppStatus::Stopped);
    assert_eq!(app.get_exit_code(), None);
}

#[test]
fn no_probe_is_ready_after_first_update_in_running() {
    let mut app = make_app(AppReadinessProbe::NoProbe);
    app.update(1, ReapOutcome::StillRunning, false);
    assert!(!app.is_ready(), "must not be ready while in Init");
    app.run(SpawnOutcome::Spawned { pid: 1 }, 2);
    app.update(3, ReapOutcome::StillRunning, false);
    assert!(app.is_ready());
}

#[test]
fn delay_zero_is_ready_on_first_tick_after_running() {
    let mut app = make_app(AppReadinessProbe::Delay { delay: 0 });
    app.run(SpawnOutcome::Spawned { pid: 1 }, 10);
    app.update(10, ReapOutcome::StillRunning, false);
    assert!(app.is_ready());
}

#[test]
fn delay_waits_out_its_delay() {
    let mut app = make_app(AppReadinessProbe::Delay { delay: 150 });
    app.run(SpawnOutcome::Spawned { pid: 1 }, 100);
    app.update(200, ReapOutcome::StillRunning, false);
    assert!(!app.is_ready());
    app.update(249, ReapOutcome::StillRunning, false);
    assert!(!app.is_ready());
    app.update(250, ReapOutcome::StillRunning, false);
    assert!(app.is_ready());
}

#[test]
fn exit_code_probe_sees_exit_reaped_on_the_same_update() {
    let mut app = make_app(AppReadinessProbe::ExitCode { exit_code: 0 });
    app.run(SpawnOutcome::Spawned { pid: 1 }, 0);
    app.update(100, ReapOutcome::StillRunning, false);
    assert!(!app.is_ready());
    // The exit is reaped first, then the probe sees the fresh code.
    app.update(200, ReapOutcome::Exited { code: Some(0) }, false);
    assert_eq!(app.get_status(), AppStatus::Stopped);
    assert!(app.is_ready());
}

#[test]
fn exit_code_probe_rejects_wrong_code() {
    let mut app = make_app(AppReadinessProbe::ExitCode { exit_code: 0 });
    app.run(SpawnOutcome::Spawned { pid: 1 }, 0);
    app.update(100, ReapOutcome::Exited { code: Some(2) }, false);
    assert_eq!(app.get_status(), AppStatus::Stopped);
    assert!(!app.is_ready());
}

#[test]
fn command_probe_runs_at_most_once_per_period() {
    let probe = AppReadinessProbe::Command {
        command: vec!["check".to_string()],
        period: 1000,
    };
    let mut app = make_app(probe);
    app.run(SpawnOutcome::Spawned { pid: 1 }, 0);
    assert!(app.probe_due(100));
    app.update(100, ReapOutcome::StillRunning, false);
    assert!(!app.is_ready());
    // Within the period the probe is not due again.
    assert!(!app.probe_due(100));
    assert!(!app.probe_due(1099));
    // The first instant past the period is due again.
    assert!(app.probe_due(1100));
    app.update(1100, ReapOutcome::StillRunning, true);
    assert!(app.is_ready());
    // Once ready, no more probing.
    assert!(!app.probe_due(9999));
}

#[test]
fn http_probe_gates_like_command_probe() {
    let probe = AppReadinessProbe::Http {
        url: "http://localhost:8080/health".to_string(),
        method: "GET".to_string(),
        period: 500,
    };
    let mut app = make_app(probe);
    assert!(!app.probe_due(0), "not due while in Init");
    app.run(SpawnOutcome::Spawned { pid: 1 }, 0);
    assert!(app.probe_due(0));
    app.update(0, ReapOutcome::StillRunning, false);
    assert!(!app.is_ready());
    assert!(!app.probe_due(499));
    assert!(app.probe_due(500));
    app.update(500, ReapOutcome::StillRunning, true);
    assert!(app.is_ready());
}

#[test]
fn ready_stays_up_once_raised() {
    let mut app = make_app(AppReadinessProbe::Delay { delay: 0 });
    app.run(SpawnOutcome::Spawned { pid: 1 }, 0);
    app.update(1, ReapOutcome::StillRunning, false);
    assert!(app.is_ready());
    app.update(2, ReapOutcome::Exited { code: Some(1) }, false);
    assert!(app.is_ready(), "readiness is monotonic");
    assert_eq!(app.get_status(), AppStatus::Stopped);
}

#[test]
fn status_labels() {
    assert_eq!(AppStatus::Init.label(), "INIT".to_string());
    assert_eq!(AppStatus::Running.label(), "RUNNING".to_string());
    assert_eq!(AppStatus::Stopping.label(), "STOPPING".to_string());
    assert_eq!(AppStatus::Stopped.label(), "STOPPED".to_string());
    assert!(AppStatus::Init.is_terminal());
    assert!(AppStatus::Stopped.is_terminal());
    assert!(!AppStatus::Running.is_terminal());
    assert!(!AppStatus::Stopping.is_terminal());
}
