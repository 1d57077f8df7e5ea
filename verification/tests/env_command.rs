use rally::config::{EnvCommandConfig, EnvCommandFormat};
use rally::env_command::{
    env_command_failed_event, env_command_loaded_event, expand_home_path, finished_run_output,
    format_command_display, format_env_command_spawn_error, format_stderr_suffix, loaded_provider_info,
    parse_shell_output, resolve_config_dir, resolve_env_command_path, resolve_env_command_workdir,
    summarize_stderr, summarize_stderr_text, timed_out_error, validate_env_command_workdir, EnvCommandError,
    PathState, SpawnFailure,
};
use rally::env_map::EnvMap;

fn env_command(command: &str, workdir: Option<&str>) -> EnvCommandConfig {
    EnvCommandConfig {
        command: command.to_owned(),
        args: vec!["env".to_owned()],
        format: EnvCommandFormat::Shell,
        timeout_ms: 5_000,
        workdir: workdir.map(String::from),
        override_existing: false,
    }
}

fn not_found(workdir_state: PathState, command_path_state: PathState) -> SpawnFailure {
    SpawnFailure {
        error: "No such file or directory (os error 2)".to_string(),
        not_found: true,
        workdir_state,
        command_path_state,
    }
}

fn path_env(path: &str) -> EnvMap {
    let mut m = EnvMap::new();
    m.insert("PATH".to_owned(), path.to_owned());
    m
}

#[test]
fn env_command_not_found_error_mentions_path_and_direct_execution() {
    let cmd = env_command("macrun", None);
    let message = format_env_command_spawn_error(
        "macrun env",
        &cmd,
        "/tmp",
        "macrun",
        &path_env("/usr/bin"),
        &not_found(PathState::Directory, PathState::Missing),
    );
    assert!(message.contains("without a shell"));
    assert!(message.contains("PATH=/usr/bin"));
    assert!(message.contains("absolute path"));
    assert_eq!(
        message,
        "env_command macrun env failed to start: No such file or directory (os error 2). env_command is executed directly without a shell, so shell-only PATH setup does not apply. PATH=/usr/bin. If the binary lives outside Rally's PATH, set env_command.command to an absolute path"
    );
}

#[test]
fn spawn_error_without_path_says_path_is_unset() {
    let cmd = env_command("macrun", None);
    let message = format_env_command_spawn_error(
        "macrun env",
        &cmd,
        "/tmp",
        "macrun",
        &EnvMap::new(),
        &not_found(PathState::Directory, PathState::Missing),
    );
    assert!(message.contains(". PATH is unset"));
}

#[test]
fn spawn_error_other_than_not_found_is_the_error_alone() {
    let cmd = env_command("macrun", None);
    let failure = SpawnFailure {
        error: "Permission denied (os error 13)".to_string(),
        not_found: false,
        workdir_state: PathState::Directory,
        command_path_state: PathState::NotDirectory,
    };
    let message = format_env_command_spawn_error("macrun env", &cmd, "/tmp", "macrun", &EnvMap::new(), &failure);
    assert_eq!(message, "env_command macrun env failed to start: Permission denied (os error 13)");
}

#[test]
fn resolve_env_command_path_expands_home_directory() {
    let home = Some("/home/tester".to_string());
    let resolved = resolve_env_command_path("~/.cargo/bin/macrun", "/tmp", &home);
    assert_eq!(resolved, "/home/tester/.cargo/bin/macrun");
}

#[test]
fn command_paths_are_resolved_against_the_workdir() {
    let home = Some("/home/tester".to_string());
    assert_eq!(resolve_env_command_path("./emit-env.sh", "/srv/app", &home), "/srv/app/./emit-env.sh");
    assert_eq!(resolve_env_command_path("bin/tool", "/srv/app", &home), "/srv/app/bin/tool");
    assert_eq!(resolve_env_command_path("macrun", "/srv/app", &home), "macrun");
    assert_eq!(resolve_env_command_path("/usr/bin/env", "/srv/app", &home), "/usr/bin/env");
    assert_eq!(resolve_env_command_path("~/x", "/srv", &None), "/srv/~/x");
}

#[test]
fn home_expansion_covers_each_form() {
    let home = Some("/home/tester".to_string());
    assert_eq!(expand_home_path("~", &home).as_deref(), Some("/home/tester"));
    assert_eq!(expand_home_path("~/", &home).as_deref(), Some("/home/tester"));
    assert_eq!(expand_home_path("~/a/b", &home).as_deref(), Some("/home/tester/a/b"));
    assert_eq!(expand_home_path("~other", &home), None);
    assert_eq!(expand_home_path("/abs", &home), None);
    assert_eq!(expand_home_path("~/a", &None), None);
}

#[test]
fn workdir_is_taken_relative_to_the_config_directory() {
    let home = Some("/home/tester".to_string());
    assert_eq!(resolve_env_command_workdir(&env_command("x", None), "/cfg", &home), "/cfg");
    assert_eq!(resolve_env_command_workdir(&env_command("x", Some("sub")), "/cfg", &home), "/cfg/sub");
    assert_eq!(resolve_env_command_workdir(&env_command("x", Some("/abs")), "/cfg", &home), "/abs");
    assert_eq!(resolve_env_command_workdir(&env_command("x", Some("~/w")), "/cfg", &home), "/home/tester/w");
}

#[test]
fn env_command_not_found_error_for_missing_absolute_path_reports_resolved_location() {
    let missing = "/tmp/rally-missing-env-command-1-2";
    let cmd = env_command(missing, None);
    let message = format_env_command_spawn_error(
        "missing env",
        &cmd,
        "/tmp",
        missing,
        &EnvMap::new(),
        &not_found(PathState::Directory, PathState::Missing),
    );
    assert!(message.contains("does not exist"));
    assert!(message.contains(missing));
}

#[test]
fn env_command_not_found_error_for_missing_workdir_reports_workdir() {
    let missing_workdir = "/tmp/rally-missing-workdir-1-2";
    let cmd = env_command("/bin/echo", None);
    let message = format_env_command_spawn_error(
        "echo env",
        &cmd,
        missing_workdir,
        "/bin/echo",
        &EnvMap::new(),
        &not_found(PathState::Missing, PathState::NotDirectory),
    );
    assert!(message.contains("Working directory"));
    assert!(message.contains("does not exist"));
    assert!(message.contains(missing_workdir));
}

#[test]
fn spawn_error_for_workdir_that_is_a_file() {
    let cmd = env_command("/bin/echo", None);
    let message = format_env_command_spawn_error(
        "echo env",
        &cmd,
        "/etc/hosts",
        "/bin/echo",
        &EnvMap::new(),
        &not_found(PathState::NotDirectory, PathState::NotDirectory),
    );
    assert!(message.ends_with(". Working directory /etc/hosts is not a directory"));
}

#[test]
fn env_command_not_found_error_for_existing_absolute_path_mentions_interpreter_or_loader() {
    let script = "/tmp/rally-env-command-existing-path-test/emit-env.sh";
    let cmd = env_command(script, None);
    let message = format_env_command_spawn_error(
        "emit-env.sh env",
        &cmd,
        "/tmp",
        script,
        &EnvMap::new(),
        &not_found(PathState::Directory, PathState::NotDirectory),
    );
    assert!(message.contains("interpreter or executable loader"));
}

#[test]
fn validate_env_command_workdir_rejects_missing_directory() {
    let missing_workdir = "/tmp/rally-invalid-workdir-1-2";
    let error = validate_env_command_workdir(
        "macrun env",
        missing_workdir,
        PathState::Missing,
        "No such file or directory (os error 2)",
    )
    .unwrap_err();
    assert!(error.message().contains("could not use workdir"));
    assert!(error.message().contains(missing_workdir));
    assert_eq!(error.message(), format!("env_command macrun env could not use workdir {}", missing_workdir));
    assert!(matches!(error, EnvCommandError::WorkdirUnusable { ref cause, .. } if cause == "No such file or directory (os error 2)"));
    assert!(validate_env_command_workdir("macrun env", "/tmp", PathState::Directory, "").is_ok());
    let error = validate_env_command_workdir("macrun env", "/etc/hosts", PathState::NotDirectory, "").unwrap_err();
    assert_eq!(error.message(), "env_command macrun env workdir /etc/hosts is not a directory");
}

#[test]
fn resolve_config_dir_uses_current_directory_for_bare_relative_path() {
    assert_eq!(resolve_config_dir("rally.toml", "/work/here"), "/work/here");
}

#[test]
fn resolve_config_dir_preserves_non_empty_parent() {
    assert_eq!(resolve_config_dir("configs/rally.toml", "/work/here"), "configs");
}

#[test]
fn load_fails_when_env_command_times_out() {
    let error = timed_out_error("./sleepy.sh", 10, "");
    assert!(error.message().contains("timed out"));
    assert_eq!(error.message(), "env_command ./sleepy.sh timed out after 10ms");
    let error = timed_out_error("./sleepy.sh", 10, "still waiting");
    assert_eq!(error.message(), "env_command ./sleepy.sh timed out after 10ms; stderr: still waiting");
}

#[test]
fn command_display_joins_with_spaces() {
    assert_eq!(format_command_display("macrun", &vec!["env".to_string(), "--json".to_string()]), "macrun env --json");
    assert_eq!(format_command_display("macrun", &vec![]), "macrun");
}

#[test]
fn stderr_summary_keeps_nonblank_trimmed_lines() {
    assert_eq!(summarize_stderr_text("  first \n\n\tsecond\r\n   \n").as_deref(), Some("first | second"));
    assert_eq!(summarize_stderr_text("").as_deref(), Some(""));
    assert_eq!(summarize_stderr(&b"warn: a\nwarn: b\n".to_vec()).as_deref(), Some("warn: a | warn: b"));
}

#[test]
fn stderr_summary_is_cut_at_240_bytes() {
    let long = "x".repeat(300);
    let summary = summarize_stderr_text(&long).unwrap();
    assert_eq!(summary.len(), 243);
    assert!(summary.ends_with("..."));
    assert_eq!(&summary[..240], &long[..240]);
    let exact = "y".repeat(240);
    assert_eq!(summarize_stderr_text(&exact).unwrap(), exact);
}

#[test]
fn stderr_summary_cut_inside_a_character_has_no_summary() {
    let text = format!("{}é{}", "a".repeat(239), "b".repeat(10));
    assert_eq!(summarize_stderr_text(&text), None);
}

#[test]
fn stderr_suffix_is_empty_without_stderr() {
    assert_eq!(format_stderr_suffix(""), "");
    assert_eq!(format_stderr_suffix("boom"), "; stderr: boom");
}

#[test]
fn finished_runs_give_stdout_or_an_error() {
    let ok = finished_run_output("p", true, "exit status: 0", &b"export A=1\n".to_vec(), "").unwrap();
    assert_eq!(ok, "export A=1\n");
    let failed = finished_run_output("p", false, "exit status: 3", &b"".to_vec(), "bad").unwrap_err();
    assert_eq!(failed.message(), "env_command p exited with status exit status: 3; stderr: bad");
    let invalid = finished_run_output("p", true, "exit status: 0", &vec![0xff, 0xfe], "").unwrap_err();
    assert!(matches!(invalid, EnvCommandError::InvalidUtf8 { .. }));
    assert!(invalid.message().starts_with("env_command p produced invalid UTF-8 on stdout: "));
}

#[test]
fn shell_output_errors_name_the_command() {
    let values = parse_shell_output("p", "export A=1\n").unwrap();
    assert_eq!(values.get("A").unwrap(), "1");
    let error = parse_shell_output("p", "nope\n").unwrap_err();
    assert_eq!(
        error.message(),
        "Failed to parse env_command output from p: Invalid shell output line 1: expected export NAME=VALUE"
    );
}

#[test]
fn provider_info_and_events() {
    let info = loaded_provider_info("macrun env".to_string(), &env_command("macrun", None), 4, 12, 99);
    assert_eq!(info.status, "loaded");
    assert_eq!(info.command, "macrun env");
    assert_eq!(info.key_count, 4);
    assert_eq!(info.duration_ms, 12);
    assert_eq!(info.loaded_at_millis, 99);
    assert_eq!(env_command_loaded_event("macrun env", 12, 4), "env_command_loaded command=macrun env duration_ms=12 key_count=4");
    assert_eq!(
        env_command_failed_event("macrun env", 7, true, &None, ""),
        "env_command_failed command=macrun env duration_ms=7 timeout=true exit_status=n/a stderr=none"
    );
    assert_eq!(
        env_command_failed_event("p", 0, false, &Some("exit status: 1".to_string()), "oops"),
        "env_command_failed command=p duration_ms=0 timeout=false exit_status=exit status: 1 stderr=oops"
    );
}
