use maestro::config::{
    default_apps, default_depends_on, default_log_level, default_ready,
    default_ready_command_period, default_ready_http_method, default_signal, parse_uid,
    signal_from_name, Config, ConfigApp, ConfigError, ConfigReadinessProbe, SIGINT, SIGTERM,
};
use maestro::readiness_probe::{command_probe_result, http_probe_result, http_status_ok};
use maestro::utils::{is_relative_path, join_path};

fn decl(name: &str, command: &[&str], deps: &[&str], ready: ConfigReadinessProbe) -> ConfigApp {
    ConfigApp {
        name: name.to_string(),
        command: command.iter().map(|c| c.to_string()).collect(),
        stdout: None,
        stderr: None,
        signal: SIGTERM,
        uid: 0,
        depends_on: deps.iter().map(|d| d.to_string()).collect(),
        ready,
    }
}

fn config(apps: Vec<ConfigApp>) -> Config {
    Config { pid: None, log_level: "info".to_string(), apps }
}

fn delay0() -> ConfigReadinessProbe {
    ConfigReadinessProbe::Delay { delay: 0 }
}

#[test]
fn valid_configuration_passes() {
    let c = config(vec![
        decl("a", &["bin-a"], &[], delay0()),
        decl("b", &["bin-b", "--flag"], &["a"], delay0()),
        decl("c", &["bin-c"], &["b"], ConfigReadinessProbe::NoProbe),
    ]);
    let validated = c.validate().expect("a sound configuration must validate");
    assert_eq!(validated.apps.len(), 3);
    assert_eq!(validated.apps[1].name, "b".to_string());
}

#[test]
fn empty_command_is_rejected() {
    let c = config(vec![decl("a", &[], &[], delay0())]);
    match c.validate() {
        Err(ConfigError::EmptyCommand { name }) => assert_eq!(name, "a".to_string()),
        _ => panic!("an empty command must be rejected"),
    }
}

#[test]
fn duplicate_names_are_rejected() {
    let c = config(vec![
        decl("a", &["x"], &[], delay0()),
        decl("a", &["y"], &[], delay0()),
    ]);
    match c.validate() {
        Err(ConfigError::DuplicateName { name }) => assert_eq!(name, "a".to_string()),
        _ => panic!("a repeated name must be rejected"),
    }
}

#[test]
fn self_dependency_is_rejected() {
    let c = config(vec![decl("a", &["x"], &["a"], delay0())]);
    match c.validate() {
        Err(ConfigError::SelfDependency { name }) => assert_eq!(name, "a".to_string()),
        _ => panic!("a self-dependency must be rejected"),
    }
}

#[test]
fn unknown_dependency_is_rejected() {
    let c = config(vec![decl("a", &["x"], &["ghost"], delay0())]);
    match c.validate() {
        Err(ConfigError::UnknownDependency { name, dependency }) => {
            assert_eq!(name, "a".to_string());
            assert_eq!(dependency, "ghost".to_string());
        },
        _ => panic!("an unknown dependency must be rejected"),
    }
}

#[test]
fn dependency_without_probe_is_rejected() {
    let c = config(vec![
        decl("base", &["x"], &[], ConfigReadinessProbe::NoProbe),
        decl("user", &["y"], &["base"], delay0()),
    ]);
    match c.validate() {
        Err(ConfigError::DependencyWithoutProbe { name }) => {
            assert_eq!(name, "base".to_string())
        },
        _ => panic!("a probe-less dependency must be rejected"),
    }
}

#[test]
fn two_cycle_is_rejected() {
    let c = config(vec![
        decl("a", &["x"], &["b"], delay0()),
        decl("b", &["y"], &["a"], delay0()),
    ]);
    match c.validate() {
        Err(ConfigError::DependencyCycle) => {},
        _ => panic!("a dependency cycle must be rejected"),
    }
}

#[test]
fn three_cycle_is_rejected() {
    let c = config(vec![
        decl("a", &["x"], &["c"], delay0()),
        decl("b", &["y"], &["a"], delay0()),
        decl("c", &["z"], &["b"], delay0()),
    ]);
    match c.validate() {
        Err(ConfigError::DependencyCycle) => {},
        _ => panic!("a dependency cycle must be rejected"),
    }
}

#[test]
fn diamond_without_cycle_passes() {
    let c = config(vec![
        decl("base", &["x"], &[], delay0()),
        decl("left", &["y"], &["base"], delay0()),
        decl("right", &["z"], &["base"], delay0()),
        decl("top", &["w"], &["left", "right"], delay0()),
    ]);
    assert!(c.validate().is_ok());
}

#[test]
fn defaults_match_the_declared_ones() {
    assert_eq!(default_log_level(), "info".to_string());
    assert_eq!(default_ready_command_period(), 1000);
    assert_eq!(default_ready_http_method(), "GET".to_string());
    assert_eq!(default_signal(), 15);
    assert!(default_apps().is_empty());
    assert!(default_depends_on().is_empty());
    assert!(matches!(default_ready(), ConfigReadinessProbe::NoProbe));
    assert_eq!(SIGTERM, 15);
    assert_eq!(SIGINT, 2);
}

#[test]
fn parse_uid_reads_decimal_ids() {
    assert_eq!(parse_uid("0"), Some(0));
    assert_eq!(parse_uid("1000"), Some(1000));
    assert_eq!(parse_uid("4294967295"), Some(u32::MAX));
    assert_eq!(parse_uid("4294967296"), None);
    assert_eq!(parse_uid("99999999999999999999"), None);
    assert_eq!(parse_uid(""), None);
    assert_eq!(parse_uid("12a"), None);
    assert_eq!(parse_uid("nobody"), None);
    assert_eq!(parse_uid("-1"), None);
}

#[test]
fn signal_names_resolve_to_numbers() {
    assert_eq!(signal_from_name("sigterm"), Some(15));
    assert_eq!(signal_from_name("term"), Some(15));
    assert_eq!(signal_from_name("sigint"), Some(2));
    assert_eq!(signal_from_name("int"), Some(2));
    assert_eq!(signal_from_name("sighup"), None);
    assert_eq!(signal_from_name(""), None);
}

#[test]
fn probe_results_follow_their_rules() {
    assert!(http_status_ok(200));
    assert!(http_status_ok(299));
    assert!(!http_status_ok(199));
    assert!(!http_status_ok(300));
    assert!(!http_status_ok(503));
    assert!(http_probe_result(Some(204)));
    assert!(!http_probe_result(Some(404)));
    assert!(!http_probe_result(None));
    assert!(command_probe_result(Some(0)));
    assert!(!command_probe_result(Some(1)));
    assert!(!command_probe_result(None));
}

#[test]
fn relative_paths_are_recognized() {
    assert!(is_relative_path(&"logs/out.txt".to_string()));
    assert!(is_relative_path(&"".to_string()));
    assert!(is_relative_path(&"./x".to_string()));
    assert!(!is_relative_path(&"/var/log/svc.err".to_string()));
}

#[test]
fn join_path_adds_exactly_one_slash() {
    assert_eq!(
        join_path(&"/srv".to_string(), &"logs/out".to_string()),
        "/srv/logs/out".to_string()
    );
    assert_eq!(
        join_path(&"/srv/".to_string(), &"logs/out".to_string()),
        "/srv/logs/out".to_string()
    );
    assert_eq!(
        join_path(&"/srv".to_string(), &"/abs/path".to_string()),
        "/abs/path".to_string()
    );
    assert_eq!(join_path(&"".to_string(), &"x".to_string()), "x".to_string());
}
