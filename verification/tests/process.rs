use rally::config::{default_health_interval, AppConfig};
use rally::env_map::EnvMap;
use rally::process::{ExitOutcome, HealthStatus, NextStep, ProcessRecord, ProcessState};

fn app(log_lines: usize, health_url: Option<&str>) -> AppConfig {
    let mut env = EnvMap::new();
    env.insert("PORT".to_string(), "8080".to_string());
    AppConfig {
        name: "api".to_string(),
        access: None,
        cargo: None,
        enabled: true,
        command: "./api".to_string(),
        workdir: None,
        args: vec!["--port".to_string(), "8080".to_string()],
        env,
        managed_env: EnvMap::new(),
        depends_on: vec![],
        before: vec![],
        after: vec![],
        watch: None,
        health_url: health_url.map(String::from),
        health_interval_secs: default_health_interval(),
        restart_on_exit: false,
        log_lines,
    }
}

fn texts(r: &ProcessRecord) -> Vec<String> {
    r.logs.iter().map(|l| l.text.clone()).collect()
}

#[test]
fn states_read_as_on_the_dashboard() {
    assert_eq!(ProcessState::Pending.to_string(), "pending");
    assert_eq!(ProcessState::Running.to_string(), "running");
    assert_eq!(ProcessState::Exited(0).to_string(), "exited(0)");
    assert_eq!(ProcessState::Exited(-1).to_string(), "exited(-1)");
    assert_eq!(ProcessState::Exited(i32::MIN).to_string(), "exited(-2147483648)");
    assert_eq!(ProcessState::Killed.to_string(), "killed");
    assert_eq!(ProcessState::Failed.to_string(), "failed");
}

#[test]
fn new_record_is_pending_with_health_by_config() {
    let r = ProcessRecord::new(&app(500, None));
    assert_eq!(r.state, ProcessState::Pending);
    assert_eq!(r.health, HealthStatus::NotConfigured);
    assert_eq!(r.pid, None);
    assert_eq!(r.restart_count, 0);
    assert!(r.logs.is_empty());
    assert_eq!(r.max_log_lines, 500);
    let r = ProcessRecord::new(&app(500, Some("http://localhost:8080/health")));
    assert_eq!(r.health, HealthStatus::Unknown);
}

#[test]
fn log_buffer_drops_the_oldest_line_when_full() {
    let mut r = ProcessRecord::new(&app(2, None));
    r.push_log_at("stdout", "one".to_string(), 1);
    r.push_log_at("stdout", "two".to_string(), 2);
    r.push_log_at("stderr", "three".to_string(), 3);
    assert_eq!(texts(&r), vec!["two", "three"]);
    assert_eq!(r.logs[1].stream, "stderr");
    assert_eq!(r.logs[1].timestamp_millis, 3);
}

#[test]
fn log_buffer_of_zero_lines_keeps_nothing() {
    let mut r = ProcessRecord::new(&app(0, None));
    r.push_log("stdout", "a".to_string());
    r.push_log("stdout", "b".to_string());
    assert!(r.logs.is_empty());
}

#[test]
fn log_buffer_over_its_bound_keeps_the_newest_lines() {
    let mut r = ProcessRecord::new(&app(5, None));
    for (i, t) in ["a", "b", "c", "d"].iter().enumerate() {
        r.push_log_at("stdout", t.to_string(), i as i64);
    }
    r.max_log_lines = 2;
    r.push_log_at("stdout", "e".to_string(), 9);
    assert_eq!(texts(&r), vec!["d", "e"]);
}

#[test]
fn clearing_logs_empties_the_buffer() {
    let mut r = ProcessRecord::new(&app(5, None));
    r.push_log("stdout", "a".to_string());
    r.clear_logs();
    assert!(r.logs.is_empty());
}

#[test]
fn spawn_failure_is_recorded() {
    let mut r = ProcessRecord::new(&app(5, None));
    r.record_spawn_failed("No such file or directory (os error 2)", 7);
    assert_eq!(r.state, ProcessState::Failed);
    assert_eq!(texts(&r), vec!["Failed to spawn: No such file or directory (os error 2)"]);
    assert_eq!(r.logs[0].stream, "stderr");
}

#[test]
fn start_and_exit_without_restart() {
    let mut r = ProcessRecord::new(&app(10, None));
    r.record_started(Some(42), 100);
    assert_eq!(r.state, ProcessState::Running);
    assert_eq!(r.pid, Some(42));
    assert_eq!(r.started_at_millis, Some(100));
    assert!(r.should_check_health());
    let next = r.record_exit(&ExitOutcome::Exited(3), false, 200);
    assert_eq!(next, NextStep::Stop);
    assert_eq!(r.state, ProcessState::Exited(3));
    assert_eq!(r.pid, None);
    assert_eq!(r.exit_time_millis, Some(200));
    assert_eq!(r.restart_count, 0);
    assert_eq!(texts(&r), vec!["Process exited with code 3"]);
    assert!(!r.should_check_health());
}

#[test]
fn exit_restarts_when_configured() {
    let mut r = ProcessRecord::new(&app(10, None));
    r.record_started(None, 1);
    let next = r.record_exit(&ExitOutcome::Exited(1), true, 2);
    assert_eq!(next, NextStep::Restart);
    assert_eq!(r.state, ProcessState::Exited(1));
    assert_eq!(r.restart_count, 1);
    assert_eq!(texts(&r), vec!["Process exited with code 1", "Restarting (attempt 1)…"]);
}

#[test]
fn killed_process_is_recorded_as_killed_and_stays_stopped() {
    let mut r = ProcessRecord::new(&app(10, None));
    r.record_started(Some(3), 1);
    let next = r.record_exit(&ExitOutcome::Killed, false, 2);
    assert_eq!(next, NextStep::Stop);
    assert_eq!(r.state, ProcessState::Killed);
    assert_eq!(r.pid, None);
    assert_eq!(r.exit_time_millis, Some(2));
    assert_eq!(r.restart_count, 0);
    assert_eq!(texts(&r), vec!["Process was killed"]);
}

#[test]
fn killed_process_comes_back_when_restarts_are_configured() {
    let mut r = ProcessRecord::new(&app(10, None));
    r.record_started(Some(3), 1);
    let next = r.record_exit(&ExitOutcome::of_wait(None, false), true, 2);
    assert_eq!(next, NextStep::Restart);
    assert_eq!(r.state, ProcessState::Killed);
    assert_eq!(r.restart_count, 1);
    assert_eq!(texts(&r), vec!["Process was killed", "Restarting (attempt 1)…"]);
}

#[test]
fn failed_before_hook_is_recorded() {
    let mut r = ProcessRecord::new(&app(10, None));
    r.record_before_hook_failed("./prep", "exit status: 2", 5);
    assert_eq!(r.state, ProcessState::Failed);
    assert_eq!(texts(&r), vec!["before hook ./prep failed: exit status: 2"]);
}

#[test]
fn failed_wait_never_restarts() {
    let mut r = ProcessRecord::new(&app(10, None));
    r.record_started(Some(9), 1);
    let next = r.record_exit(&ExitOutcome::WaitFailed("interrupted".to_string()), true, 2);
    assert_eq!(next, NextStep::Stop);
    assert_eq!(r.state, ProcessState::Killed);
    assert_eq!(r.restart_count, 0);
    assert_eq!(texts(&r), vec!["Process wait error: interrupted"]);
}

#[test]
fn health_checks_record_the_outcome() {
    let mut r = ProcessRecord::new(&app(10, Some("http://x/health")));
    r.record_health(true);
    assert_eq!(r.health, HealthStatus::Healthy);
    r.record_health(false);
    assert_eq!(r.health, HealthStatus::Unhealthy);
}

#[test]
fn status_snapshot_copies_config_and_state() {
    let config = app(10, None);
    let mut r = ProcessRecord::new(&config);
    r.record_started(Some(5), 10);
    r.push_log_at("stdout", "hello".to_string(), 11);
    let s = r.status(&config);
    assert_eq!(s.name, "api");
    assert_eq!(s.command, "./api");
    assert_eq!(s.args, vec!["--port", "8080"]);
    assert_eq!(s.env.get("PORT").unwrap(), "8080");
    assert_eq!(s.state, ProcessState::Running);
    assert_eq!(s.pid, Some(5));
    assert_eq!(s.logs.len(), 1);
    assert_eq!(s.logs[0].text, "hello");
}

#[test]
fn wait_results_map_to_outcomes() {
    assert!(matches!(ExitOutcome::of_wait(Some(0), false), ExitOutcome::Exited(0)));
    assert!(matches!(ExitOutcome::of_wait(Some(0), true), ExitOutcome::Killed));
    assert!(matches!(ExitOutcome::of_wait(None, false), ExitOutcome::Killed));
}
