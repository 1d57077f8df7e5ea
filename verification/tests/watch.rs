use rally::config::{default_health_interval, default_log_lines, AppConfig, WatchConfig};
use rally::env_map::EnvMap;
use rally::watch::{app_run_dir, watch_poll_millis, watch_targets};

fn app(command: &str, workdir: Option<&str>, paths: Option<&[&str]>) -> AppConfig {
    AppConfig {
        name: "api".to_string(),
        access: None,
        cargo: None,
        enabled: true,
        command: command.to_string(),
        workdir: workdir.map(String::from),
        args: vec![],
        env: EnvMap::new(),
        managed_env: EnvMap::new(),
        depends_on: vec![],
        before: vec![],
        after: vec![],
        watch: paths.map(|ps| WatchConfig {
            paths: ps.iter().map(|p| p.to_string()).collect(),
            recursive: true,
            debounce_millis: 750,
        }),
        health_url: None,
        health_interval_secs: default_health_interval(),
        restart_on_exit: false,
        log_lines: default_log_lines(),
    }
}

#[test]
fn apps_run_in_their_workdir_or_the_config_directory() {
    assert_eq!(app_run_dir(&app("x", Some("/srv/api"), None), "/cfg"), "/srv/api");
    assert_eq!(app_run_dir(&app("x", None, None), "/cfg"), "/cfg");
}

#[test]
fn watch_paths_resolve_against_workdir_and_include_local_commands() {
    let a = app("./target/debug/api-server", Some("/srv/api"), Some(&["./config/dev.toml", "/etc/api.toml"]));
    assert_eq!(
        watch_targets(&a, "/home/me"),
        vec!["/srv/api/./config/dev.toml", "/etc/api.toml", "/srv/api/./target/debug/api-server"]
    );
}

#[test]
fn local_command_is_watched_without_a_watch_table() {
    let a = app("bin/worker", None, None);
    assert_eq!(watch_targets(&a, "/home/me"), vec!["/home/me/bin/worker"]);
    let a = app("worker", None, None);
    assert!(watch_targets(&a, "/home/me").is_empty());
    let a = app("/usr/bin/worker", None, Some(&["m"]));
    assert_eq!(watch_targets(&a, "/home/me"), vec!["/home/me/m"]);
}

#[test]
fn polling_follows_the_debounce_window() {
    assert_eq!(watch_poll_millis(750), 750);
    assert_eq!(watch_poll_millis(0), 100);
    assert_eq!(watch_poll_millis(100), 100);
}

#[test]
fn hooks_run_in_the_app_directory_by_default() {
    let hook = |w: Option<&str>| rally::config::HookConfig {
        command: "./prep".to_string(),
        args: vec![],
        workdir: w.map(String::from),
        env: EnvMap::new(),
    };
    assert_eq!(rally::watch::hook_run_dir(&hook(None), "/srv/api"), "/srv/api");
    assert_eq!(rally::watch::hook_run_dir(&hook(Some("tmp")), "/srv/api"), "/srv/api/tmp");
    assert_eq!(rally::watch::hook_run_dir(&hook(Some("/tmp")), "/srv/api"), "/tmp");
}
