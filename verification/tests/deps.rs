use rally::config::{default_health_interval, default_log_lines, AppConfig};
use rally::deps::{dependency_start_order, dependency_stop_order, DependencyError};
use rally::env_map::EnvMap;

fn app(name: &str, deps: &[&str]) -> AppConfig {
    AppConfig {
        name: name.to_string(),
        access: None,
        cargo: None,
        enabled: true,
        command: name.to_string(),
        workdir: None,
        args: vec![],
        env: EnvMap::new(),
        managed_env: EnvMap::new(),
        depends_on: deps.iter().map(|d| d.to_string()).collect(),
        before: vec![],
        after: vec![],
        watch: None,
        health_url: None,
        health_interval_secs: default_health_interval(),
        restart_on_exit: false,
        log_lines: default_log_lines(),
    }
}

#[test]
fn dependencies_start_first() {
    let apps = vec![app("worker", &["api-server"]), app("api-server", &["database"]), app("database", &[])];
    assert_eq!(dependency_start_order(&apps).unwrap(), vec![2, 1, 0]);
}

#[test]
fn dependents_stop_first() {
    let apps = vec![app("worker", &["api-server"]), app("api-server", &["database"]), app("database", &[])];
    assert_eq!(dependency_stop_order(&apps).unwrap(), vec![0, 1, 2]);
}

#[test]
fn independent_apps_keep_config_order() {
    let apps = vec![app("a", &[]), app("b", &[]), app("c", &["a"])];
    assert_eq!(dependency_start_order(&apps).unwrap(), vec![0, 1, 2]);
    let apps = vec![app("c", &["b"]), app("a", &[]), app("b", &[])];
    assert_eq!(dependency_start_order(&apps).unwrap(), vec![1, 2, 0]);
}

#[test]
fn duplicate_names_are_rejected() {
    let apps = vec![app("a", &[]), app("b", &[]), app("a", &[])];
    assert_eq!(dependency_start_order(&apps).unwrap_err(), DependencyError::DuplicateApp { name: "a".to_string() });
}

#[test]
fn unknown_dependencies_are_rejected() {
    let apps = vec![app("api", &["database"])];
    assert_eq!(
        dependency_start_order(&apps).unwrap_err(),
        DependencyError::UnknownDependency { app: "api".to_string(), dependency: "database".to_string() }
    );
}

#[test]
fn cycles_are_rejected_naming_the_apps_left() {
    let apps = vec![app("root", &[]), app("a", &["b"]), app("b", &["a"]), app("c", &["a"])];
    assert_eq!(
        dependency_start_order(&apps).unwrap_err(),
        DependencyError::Cycle { apps: vec!["a".to_string(), "b".to_string(), "c".to_string()] }
    );
    let apps = vec![app("self", &["self"])];
    assert_eq!(dependency_start_order(&apps).unwrap_err(), DependencyError::Cycle { apps: vec!["self".to_string()] });
}

#[test]
fn no_apps_means_an_empty_order() {
    assert_eq!(dependency_start_order(&vec![]).unwrap(), Vec::<usize>::new());
}

#[test]
fn dependency_errors_have_messages() {
    assert_eq!(DependencyError::DuplicateApp { name: "a".to_string() }.message(), "Duplicate app name a");
    assert_eq!(
        DependencyError::UnknownDependency { app: "api".to_string(), dependency: "db".to_string() }.message(),
        "App api depends on unknown app db"
    );
    assert_eq!(
        DependencyError::Cycle { apps: vec!["a".to_string(), "b".to_string()] }.message(),
        "Dependency cycle detected among apps: a, b"
    );
}
