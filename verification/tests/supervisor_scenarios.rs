use maestro::app::{ReapOutcome, SignalOutcome, SpawnOutcome};
use maestro::app_status::AppStatus;
use maestro::config::{ConfigApp, ConfigReadinessProbe};
use maestro::supervisor::{build_registry, MainState, Supervisor};

fn decl(name: &str, deps: &[&str], ready: ConfigReadinessProbe) -> ConfigApp {
    ConfigApp {
        name: name.to_string(),
        command: vec!["run".to_string()],
        stdout: None,
        stderr: None,
        signal: 15,
        uid: 0,
        depends_on: deps.iter().map(|d| d.to_string()).collect(),
        ready,
    }
}

fn delay0() -> ConfigReadinessProbe {
    ConfigReadinessProbe::Delay { delay: 0 }
}

fn status_of(sup: &Supervisor, i: usize) -> AppStatus {
    sup.apps_map.list()[i].get_status()
}

/// One supervisor step for one app, with the given observation of its
/// child and of its periodic probe, spawning with a fresh pid when the
/// scheduler asks for a start and delivering the graceful signal when it
/// asks for a stop.
fn step(sup: &mut Supervisor, i: usize, now: u64, reap: ReapOutcome, probe: bool, pid: u32) {
    sup.update_app(i, now, reap, probe);
    if sup.decide_start(i) {
        sup.start_app(i, SpawnOutcome::Spawned { pid }, now);
    }
    sup.check_failure(i);
    if sup.decide_stop(i) {
        sup.stop_app(i, SignalOutcome::Delivered);
    }
}

fn quiet_tick(sup: &mut Supervisor, now: u64) -> bool {
    for i in 0..sup.apps_map.len() {
        step(sup, i, now, ReapOutcome::StillRunning, false, 100 + i as u32);
    }
    sup.end_tick()
}

#[test]
fn linear_startup_and_signal_shutdown() {
    // Apps a <- b <- c, each ready immediately after start.
    let apps = vec![
        decl("a", &[], delay0()),
        decl("b", &["a"], delay0()),
        decl("c", &["b"], delay0()),
    ];
    let map = build_registry(apps, 0);
    let mut sup = Supervisor::new(map);

    // Tick 1: only a starts; b and c wait on unready dependencies.
    assert!(!quiet_tick(&mut sup, 0));
    assert_eq!(status_of(&sup, 0), AppStatus::Running);
    assert_eq!(status_of(&sup, 1), AppStatus::Init);
    assert_eq!(status_of(&sup, 2), AppStatus::Init);

    // Tick 2: a turns ready, so b starts.
    assert!(!quiet_tick(&mut sup, 100));
    assert_eq!(status_of(&sup, 1), AppStatus::Running);
    assert_eq!(status_of(&sup, 2), AppStatus::Init);

    // Tick 3: b turns ready, so c starts.
    assert!(!quiet_tick(&mut sup, 200));
    assert_eq!(status_of(&sup, 2), AppStatus::Running);

    // A termination signal arrives; only the leaf c may be stopped.
    sup.on_signal();
    assert!(matches!(sup.state, MainState::Stopping));
    assert!(!quiet_tick(&mut sup, 300));
    assert_eq!(status_of(&sup, 0), AppStatus::Running);
    assert_eq!(status_of(&sup, 1), AppStatus::Running);
    assert_eq!(status_of(&sup, 2), AppStatus::Stopping);

    // c's exit is observed; then b may be stopped.
    step(&mut sup, 2, 400, ReapOutcome::Exited { code: Some(0) }, false, 0);
    step(&mut sup, 0, 400, ReapOutcome::StillRunning, false, 0);
    step(&mut sup, 1, 400, ReapOutcome::StillRunning, false, 0);
    assert!(!sup.end_tick());
    assert_eq!(status_of(&sup, 2), AppStatus::Stopped);
    assert_eq!(status_of(&sup, 1), AppStatus::Stopping);
    assert_eq!(status_of(&sup, 0), AppStatus::Running);

    // b's exit is observed; then a may be stopped.
    step(&mut sup, 1, 500, ReapOutcome::Exited { code: Some(0) }, false, 0);
    step(&mut sup, 0, 500, ReapOutcome::StillRunning, false, 0);
    step(&mut sup, 2, 500, ReapOutcome::StillRunning, false, 0);
    assert!(!sup.end_tick());
    assert_eq!(status_of(&sup, 0), AppStatus::Stopping);

    // a's exit is observed: everything terminal, but the supervisor waits
    // one more tick before reporting done.
    step(&mut sup, 0, 600, ReapOutcome::Exited { code: Some(0) }, false, 0);
    step(&mut sup, 1, 600, ReapOutcome::StillRunning, false, 0);
    step(&mut sup, 2, 600, ReapOutcome::StillRunning, false, 0);
    assert!(!sup.end_tick(), "first all-terminal tick only raises the flag");
    assert!(quiet_tick(&mut sup, 700), "second all-terminal tick ends the loop");
}

#[test]
fn fatal_failure_escalates_to_stopping() {
    // b depends on a; a crashes, so the whole system shuts down.
    let apps = vec![decl("a", &[], delay0()), decl("b", &["a"], delay0())];
    let map = build_registry(apps, 0);
    let mut sup = Supervisor::new(map);

    assert!(!quiet_tick(&mut sup, 0));  // a starts
    assert!(!quiet_tick(&mut sup, 100));  // a ready, b starts
    assert_eq!(status_of(&sup, 1), AppStatus::Running);

    // a is found dead with exit 1: mode flips, and b (no dependents) is
    // stopped on this same tick.
    step(&mut sup, 0, 200, ReapOutcome::Exited { code: Some(1) }, false, 0);
    assert!(matches!(sup.state, MainState::Stopping));
    step(&mut sup, 1, 200, ReapOutcome::StillRunning, false, 0);
    assert!(!sup.end_tick());
    assert_eq!(status_of(&sup, 0), AppStatus::Stopped);
    assert_eq!(status_of(&sup, 1), AppStatus::Stopping);
}

#[test]
fn spawn_failure_counts_as_fatal() {
    let apps = vec![decl("a", &[], delay0())];
    let map = build_registry(apps, 0);
    let mut sup = Supervisor::new(map);

    sup.update_app(0, 0, ReapOutcome::StillRunning, false);
    assert!(sup.decide_start(0));
    sup.start_app(0, SpawnOutcome::SpawnFailed, 0);
    assert_eq!(status_of(&sup, 0), AppStatus::Stopped);
    sup.check_failure(0);
    assert!(matches!(sup.state, MainState::Stopping));
}

#[test]
fn one_shot_exit_code_probe_starts_its_dependent() {
    let apps = vec![
        decl("init-job", &[], ConfigReadinessProbe::ExitCode { exit_code: 0 }),
        decl("main-svc", &["init-job"], delay0()),
    ];
    let map = build_registry(apps, 0);
    let mut sup = Supervisor::new(map);

    assert!(!quiet_tick(&mut sup, 0));  // init-job starts
    assert_eq!(status_of(&sup, 0), AppStatus::Running);

    // init-job exits 0: it becomes ready, and main-svc starts.
    step(&mut sup, 0, 100, ReapOutcome::Exited { code: Some(0) }, false, 0);
    step(&mut sup, 1, 100, ReapOutcome::StillRunning, false, 7);
    let done = sup.end_tick();
    assert!(!done);
    assert_eq!(status_of(&sup, 0), AppStatus::Stopped);
    assert!(sup.apps_map.list()[0].is_ready());
    assert_eq!(status_of(&sup, 1), AppStatus::Running);

    // The supervisor does not exit while main-svc runs, even though
    // init-job is terminal.
    assert!(!quiet_tick(&mut sup, 200));
    assert!(!sup.stop_flag);
}

#[test]
fn http_probe_gates_the_dependent_start() {
    let apps = vec![
        decl(
            "web",
            &[],
            ConfigReadinessProbe::Http {
                url: "http://localhost/health".to_string(),
                method: "GET".to_string(),
                period: 500,
            },
        ),
        decl("downstream", &["web"], delay0()),
    ];
    let map = build_registry(apps, 0);
    let mut sup = Supervisor::new(map);

    assert!(!quiet_tick(&mut sup, 0));  // web starts
    // Probe answers 503 (not ready): downstream must stay put.
    assert!(sup.apps_map.list()[0].probe_due(100));
    step(&mut sup, 0, 100, ReapOutcome::StillRunning, false, 0);
    step(&mut sup, 1, 100, ReapOutcome::StillRunning, false, 9);
    sup.end_tick();
    assert_eq!(status_of(&sup, 1), AppStatus::Init);

    // Within the period there is no further probe.
    assert!(!sup.apps_map.list()[0].probe_due(300));

    // Past the period the probe runs again and answers 200.
    assert!(sup.apps_map.list()[0].probe_due(600));
    step(&mut sup, 0, 600, ReapOutcome::StillRunning, true, 0);
    step(&mut sup, 1, 600, ReapOutcome::StillRunning, false, 9);
    sup.end_tick();
    assert!(sup.apps_map.list()[0].is_ready());
    assert_eq!(status_of(&sup, 1), AppStatus::Running);
}

#[test]
fn failed_graceful_stop_requests_a_kill() {
    let apps = vec![decl("stubborn", &[], delay0())];
    let map = build_registry(apps, 0);
    let mut sup = Supervisor::new(map);

    assert!(!quiet_tick(&mut sup, 0));
    sup.on_signal();
    sup.update_app(0, 100, ReapOutcome::StillRunning, false);
    assert!(sup.decide_stop(0));
    let kill = sup.stop_app(0, SignalOutcome::DeliveryFailed);
    assert!(kill, "a failed graceful signal escalates to a forced kill");
    assert_eq!(status_of(&sup, 0), AppStatus::Running);

    // The forced kill takes effect; the next tick reaps the child.
    sup.update_app(0, 200, ReapOutcome::Exited { code: None }, false);
    assert_eq!(status_of(&sup, 0), AppStatus::Stopped);
    assert_eq!(sup.apps_map.list()[0].get_exit_code(), None);
}

#[test]
fn second_signal_changes_nothing() {
    let apps = vec![decl("a", &[], delay0())];
    let map = build_registry(apps, 0);
    let mut sup = Supervisor::new(map);
    assert!(!quiet_tick(&mut sup, 0));

    sup.on_signal();
    let state_after_one = (
        matches!(sup.state, MainState::Stopping),
        sup.stop_flag,
        status_of(&sup, 0),
        sup.apps_map.list()[0].is_ready(),
    );
    sup.on_signal();
    let state_after_two = (
        matches!(sup.state, MainState::Stopping),
        sup.stop_flag,
        status_of(&sup, 0),
        sup.apps_map.list()[0].is_ready(),
    );
    assert_eq!(state_after_one, state_after_two);

    // And the shutdown sequence proceeds identically.
    step(&mut sup, 0, 100, ReapOutcome::StillRunning, false, 0);
    assert_eq!(status_of(&sup, 0), AppStatus::Stopping);
}

#[test]
fn stop_gating_waits_for_dependents() {
    // a <- b: while b is running, a must not be asked to stop.
    let apps = vec![decl("a", &[], delay0()), decl("b", &["a"], delay0())];
    let map = build_registry(apps, 0);
    let mut sup = Supervisor::new(map);
    assert!(!quiet_tick(&mut sup, 0));
    assert!(!quiet_tick(&mut sup, 100));
    assert_eq!(status_of(&sup, 1), AppStatus::Running);

    sup.on_signal();
    sup.update_app(0, 200, ReapOutcome::StillRunning, false);
    assert!(
        !sup.decide_stop(0),
        "a dependency is not stopped while its dependent is alive"
    );
    sup.update_app(1, 200, ReapOutcome::StillRunning, false);
    assert!(sup.decide_stop(1));
}
