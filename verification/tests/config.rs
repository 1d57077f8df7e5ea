use rally::config::{
    default_enabled, default_env_command_timeout_ms, default_health_interval, default_host, default_log_lines,
    default_port, default_watch_debounce_millis, default_watch_recursive, resolve_base_env, resolve_config, AppConfig,
    Config, ConfigError, EnvCommandConfig, EnvCommandFormat, EnvProviderInfo, HookConfig, ProviderOutput, UiConfig,
    WatchConfig,
};
use rally::env_map::EnvMap;
use rally::env_output::{accept_json_env_entry, parse_shell_env_output, EnvOutputError};
use rally::interpolate::{interpolate_string, InterpolationError};

fn env(pairs: &[(&str, &str)]) -> EnvMap {
    let mut m = EnvMap::new();
    for (k, v) in pairs {
        m.insert(k.to_string(), v.to_string());
    }
    m
}

fn val<'a>(m: &'a EnvMap, k: &str) -> &'a str {
    m.get(k).unwrap().as_str()
}

fn app(name: &str, command: &str) -> AppConfig {
    AppConfig {
        name: name.to_string(),
        access: None,
        cargo: None,
        enabled: default_enabled(),
        command: command.to_string(),
        workdir: None,
        args: vec![],
        env: EnvMap::new(),
        managed_env: EnvMap::new(),
        depends_on: vec![],
        before: vec![],
        after: vec![],
        watch: None,
        health_url: None,
        health_interval_secs: default_health_interval(),
        restart_on_exit: false,
        log_lines: default_log_lines(),
    }
}

fn hook(command: &str, args: &[&str]) -> HookConfig {
    HookConfig {
        command: command.to_string(),
        args: args.iter().map(|a| a.to_string()).collect(),
        workdir: None,
        env: EnvMap::new(),
    }
}

fn config(shared: EnvMap, apps: Vec<AppConfig>) -> Config {
    Config { env: shared, app: apps, ui: UiConfig::default(), env_command: None, env_provider_info: None }
}

fn parse(cfg: Config) -> Result<Config, ConfigError> {
    resolve_config(cfg, None, &EnvMap::new())
}

fn parse_with_process_env(cfg: Config, process_env: EnvMap) -> Result<Config, ConfigError> {
    resolve_config(cfg, None, &process_env)
}

#[test]
fn empty_config_is_valid() {
    let cfg = parse(config(EnvMap::new(), vec![])).unwrap();
    assert!(cfg.env.is_empty());
    assert!(cfg.app.is_empty());
    assert_eq!(cfg.ui.port, 7700);
    assert_eq!(cfg.ui.host, "127.0.0.1");
    assert!(cfg.env_command.is_none());
    assert!(cfg.env_provider_info.is_none());
}

#[test]
fn single_app_minimal() {
    let process_env = env(&[("PATH", "/usr/bin"), ("LANG", "C")]);
    let cfg = parse_with_process_env(config(EnvMap::new(), vec![app("myapp", "/usr/bin/myapp")]), process_env).unwrap();
    assert_eq!(cfg.app.len(), 1);
    let app = &cfg.app[0];
    assert_eq!(app.name, "myapp");
    assert_eq!(app.access, None);
    assert_eq!(app.cargo, None);
    assert!(app.enabled);
    assert_eq!(app.command, "/usr/bin/myapp");
    assert!(app.args.is_empty());
    assert_eq!(app.env.len(), 2);
    assert_eq!(val(&app.env, "PATH"), "/usr/bin");
    assert_eq!(val(&app.env, "LANG"), "C");
    assert!(app.managed_env.is_empty());
    assert!(app.depends_on.is_empty());
    assert!(app.before.is_empty());
    assert!(app.after.is_empty());
    assert!(app.watch.is_none());
    assert!(!app.restart_on_exit);
    assert_eq!(app.health_interval_secs, 10);
    assert_eq!(app.log_lines, 500);
}

#[test]
fn app_with_env_and_args() {
    let mut a = app("server", "./server");
    a.access = Some("http://localhost:8080".to_string());
    a.cargo = Some("frogfish-server".to_string());
    a.enabled = false;
    a.args = vec!["--port".to_string(), "8080".to_string()];
    a.restart_on_exit = true;
    a.log_lines = 200;
    a.env = env(&[("PORT", "8080"), ("LOG", "debug")]);
    let cfg = parse(config(EnvMap::new(), vec![a])).unwrap();
    let app = &cfg.app[0];
    assert_eq!(app.access.as_deref(), Some("http://localhost:8080"));
    assert_eq!(app.cargo.as_deref(), Some("frogfish-server"));
    assert!(!app.enabled);
    assert_eq!(app.args, vec!["--port", "8080"]);
    assert!(app.restart_on_exit);
    assert_eq!(app.log_lines, 200);
    assert_eq!(val(&app.env, "PORT"), "8080");
    assert_eq!(val(&app.env, "LOG"), "debug");
}

#[test]
fn app_with_before_and_after_hooks() {
    let mut a = app("server", "./server");
    a.depends_on = vec!["database".to_string()];
    let mut before = hook("./prep", &["--ensure-db"]);
    before.env = env(&[("MODE", "prepare")]);
    let mut after = hook("./cleanup", &["--remove-lock"]);
    after.workdir = Some("./tmp".to_string());
    a.before = vec![before];
    a.after = vec![after];
    a.watch = Some(WatchConfig {
        paths: vec!["./config/dev.toml".to_string()],
        recursive: default_watch_recursive(),
        debounce_millis: 250,
    });
    let cfg = parse(config(EnvMap::new(), vec![a])).unwrap();
    let app = &cfg.app[0];
    assert_eq!(app.depends_on, vec!["database"]);
    assert_eq!(app.before.len(), 1);
    assert_eq!(app.after.len(), 1);
    assert_eq!(app.before[0].command, "./prep");
    assert_eq!(app.before[0].args, vec!["--ensure-db"]);
    assert_eq!(val(&app.before[0].env, "MODE"), "prepare");
    assert_eq!(app.after[0].command, "./cleanup");
    assert_eq!(app.after[0].workdir.as_deref(), Some("./tmp"));
    let watch = app.watch.as_ref().unwrap();
    assert_eq!(watch.paths, vec!["./config/dev.toml"]);
    assert_eq!(watch.debounce_millis, 250);
    assert!(watch.recursive);
}

#[test]
fn custom_ui_settings() {
    let mut cfg = config(EnvMap::new(), vec![]);
    cfg.ui = UiConfig { host: "0.0.0.0".to_string(), port: 9000 };
    let cfg = parse(cfg).unwrap();
    assert_eq!(cfg.ui.host, "0.0.0.0");
    assert_eq!(cfg.ui.port, 9000);
}

#[test]
fn multiple_apps() {
    let cfg = parse(config(env(&[("SHARED", "1")]), vec![app("a", "a"), app("b", "b")])).unwrap();
    assert_eq!(cfg.app.len(), 2);
    assert_eq!(val(&cfg.env, "SHARED"), "1");
    assert_eq!(cfg.app[0].name, "a");
    assert_eq!(cfg.app[1].name, "b");
    assert_eq!(val(&cfg.app[0].env, "SHARED"), "1");
    assert_eq!(val(&cfg.app[1].env, "SHARED"), "1");
}

#[test]
fn merges_shared_env_into_each_app_with_app_override() {
    let mut a = app("api", "./api");
    a.env = env(&[("LOG_LEVEL", "debug"), ("PORT", "8080"), ("API_URL", "http://${HOST}:${PORT}")]);
    let cfg = parse(config(env(&[("HOST", "127.0.0.1"), ("LOG_LEVEL", "info")]), vec![a])).unwrap();
    let app = &cfg.app[0];
    assert_eq!(val(&cfg.env, "HOST"), "127.0.0.1");
    assert_eq!(val(&app.env, "HOST"), "127.0.0.1");
    assert_eq!(val(&app.env, "LOG_LEVEL"), "debug");
    assert_eq!(val(&app.env, "PORT"), "8080");
    assert_eq!(val(&app.env, "API_URL"), "http://127.0.0.1:8080");
    assert_eq!(val(&app.managed_env, "LOG_LEVEL"), "debug");
    assert_eq!(val(&app.managed_env, "HOST"), "127.0.0.1");
}

#[test]
fn health_url_and_interval() {
    let mut a = app("svc", "./svc");
    a.health_url = Some("http://localhost:8080/health".to_string());
    a.health_interval_secs = 30;
    let cfg = parse(config(EnvMap::new(), vec![a])).unwrap();
    let app = &cfg.app[0];
    assert_eq!(app.health_url.as_deref(), Some("http://localhost:8080/health"));
    assert_eq!(app.health_interval_secs, 30);
}

#[test]
fn interpolates_app_and_hook_fields() {
    let home = "/home/tester";
    let mut a = app("svc", "${HOME}/bin/svc");
    a.access = Some("http://${HOST}:8080".to_string());
    a.cargo = Some("svc-installer-${HOST}".to_string());
    a.args = vec!["--data=${DATA_DIR}".to_string()];
    a.workdir = Some("${HOME}/workspace".to_string());
    a.health_url = Some("http://${HOST}:8080/health".to_string());
    a.env = env(&[("HOST", "127.0.0.1"), ("DATA_DIR", "${HOME}/data")]);
    let mut before = hook("echo", &["${DATA_DIR}", "${HOOK_DIR}"]);
    before.env = env(&[("HOOK_DIR", "${DATA_DIR}/hooks")]);
    a.before = vec![before];
    a.watch = Some(WatchConfig {
        paths: vec!["${DATA_DIR}/config.toml".to_string()],
        recursive: default_watch_recursive(),
        debounce_millis: default_watch_debounce_millis(),
    });
    let cfg = parse_with_process_env(config(EnvMap::new(), vec![a]), env(&[("HOME", home)])).unwrap();
    let app = &cfg.app[0];
    assert_eq!(app.access.as_deref(), Some("http://127.0.0.1:8080"));
    assert_eq!(app.cargo.as_deref(), Some("svc-installer-127.0.0.1"));
    assert_eq!(app.command, format!("{}/bin/svc", home));
    assert_eq!(app.args, vec![format!("--data={}/data", home)]);
    let expected_workdir = format!("{}/workspace", home);
    assert_eq!(app.workdir.as_deref(), Some(expected_workdir.as_str()));
    assert_eq!(app.health_url.as_deref(), Some("http://127.0.0.1:8080/health"));
    assert_eq!(val(&app.env, "DATA_DIR"), format!("{}/data", home));
    assert_eq!(app.before[0].args[0], format!("{}/data", home));
    assert_eq!(app.before[0].args[1], format!("{}/data/hooks", home));
    assert_eq!(app.watch.as_ref().unwrap().paths, vec![format!("{}/data/config.toml", home)]);
}

#[test]
fn rejects_unknown_env_variable() {
    let error = parse(config(EnvMap::new(), vec![app("svc", "${MISSING}/svc")])).unwrap_err();
    let message = error.message();
    assert!(message.contains("Unknown ENV variable MISSING"));
    assert_eq!(message, "Failed to resolve command for app svc: Unknown ENV variable MISSING in ${MISSING}/svc");
}

#[test]
fn rejects_env_cycles() {
    let mut a = app("svc", "svc");
    a.env = env(&[("A", "${B}"), ("B", "${A}")]);
    let error = parse(config(EnvMap::new(), vec![a])).unwrap_err();
    let message = error.message();
    assert!(message.contains("ENV interpolation cycle detected"));
    assert!(message.starts_with("Failed to resolve env for app svc: ENV interpolation cycle detected: "));
}

#[test]
fn env_command_json_parser_rejects_duplicate_keys() {
    let mut values = EnvMap::new();
    accept_json_env_entry(&mut values, "A".to_string(), Some("1".to_string())).unwrap();
    let error = accept_json_env_entry(&mut values, "A".to_string(), Some("2".to_string())).unwrap_err();
    assert!(error.message().contains("Duplicate env key A"));
    assert_eq!(val(&values, "A"), "1");
}

#[test]
fn env_command_json_parser_rejects_non_string_values() {
    let mut values = EnvMap::new();
    let error = accept_json_env_entry(&mut values, "A".to_string(), None).unwrap_err();
    assert!(error.message().contains("must be a string"));
    assert!(values.is_empty());
}

#[test]
fn json_entry_with_invalid_name_is_refused() {
    let mut values = EnvMap::new();
    let error = accept_json_env_entry(&mut values, "1BAD".to_string(), Some("x".to_string())).unwrap_err();
    assert_eq!(error.message(), "Invalid env key 1BAD");
}

#[test]
fn env_command_shell_parser_accepts_exports_and_comments() {
    let env = parse_shell_env_output("# comment\nexport API_URL='http://127.0.0.1:8080'\nexport LOG_LEVEL=debug\n").unwrap();
    assert_eq!(val(&env, "API_URL"), "http://127.0.0.1:8080");
    assert_eq!(val(&env, "LOG_LEVEL"), "debug");
}

#[test]
fn shell_parser_handles_double_quotes_and_escapes() {
    let env = parse_shell_env_output("export A=\"x\\ty \\\"q\\\" \\$HOME\"\r\n\n  export B=plain  \n").unwrap();
    assert_eq!(val(&env, "A"), "x\ty \"q\" $HOME");
    assert_eq!(val(&env, "B"), "plain");
    assert_eq!(env.len(), 2);
}

#[test]
fn shell_parser_reports_each_error() {
    let e = parse_shell_env_output("A=1\n").unwrap_err();
    assert_eq!(e.message(), "Invalid shell output line 1: expected export NAME=VALUE");
    let e = parse_shell_env_output("# c\nexport A\n").unwrap_err();
    assert_eq!(e.message(), "Invalid shell output line 2: expected export NAME=VALUE");
    let e = parse_shell_env_output("export 9A=1\n").unwrap_err();
    assert_eq!(e.message(), "Invalid env key 9A on line 1");
    let e = parse_shell_env_output("export A=1\nexport A=2\n").unwrap_err();
    assert_eq!(e.message(), "Duplicate env key A");
    let e = parse_shell_env_output("export A=\"bad\\\"\n").unwrap_err();
    assert_eq!(e.message(), "Invalid shell escape on line 1");
    let e = parse_shell_env_output("export A=two words\n").unwrap_err();
    assert_eq!(e.message(), "Unquoted shell value on line 1 cannot contain whitespace");
    assert!(matches!(e, EnvOutputError::UnquotedWhitespace { line: 1 }));
}

#[test]
fn env_command_provider_merges_before_shared_env_and_app_env() {
    let mut a = app("api", "api");
    a.env = env(&[("PORT", "8080"), ("API_URL", "${BASE_URL}/v1")]);
    let cfg = parse_with_process_env(
        config(env(&[("BASE_URL", "http://${HOST}:${PORT}")]), vec![a]),
        env(&[("HOST", "127.0.0.1"), ("PORT", "9000")]),
    )
    .unwrap();
    let app = &cfg.app[0];
    assert_eq!(val(&cfg.env, "BASE_URL"), "http://127.0.0.1:9000");
    assert_eq!(val(&app.env, "PORT"), "8080");
    assert_eq!(val(&app.env, "API_URL"), "http://127.0.0.1:9000/v1");
}

fn provider(values: EnvMap, override_existing: bool) -> ProviderOutput {
    ProviderOutput {
        values,
        info: EnvProviderInfo {
            status: "loaded".to_string(),
            command: "macrun env".to_string(),
            format: EnvCommandFormat::Json,
            override_existing,
            key_count: 2,
            duration_ms: 3,
            loaded_at_millis: 0,
        },
    }
}

#[test]
fn env_command_override_existing_controls_base_precedence() {
    let process_env = env(&[("FROM_PROCESS", "process"), ("SHARED", "process")]);
    let provider_env = env(&[("SHARED", "provider"), ("FROM_PROVIDER", "provider")]);

    let (without_override, _) = resolve_base_env(&Some(provider(provider_env.clone(), false)), &process_env);
    assert_eq!(val(&without_override, "SHARED"), "process");

    let (with_override, provider_out) = resolve_base_env(&Some(provider(provider_env, true)), &process_env);
    assert_eq!(val(&with_override, "SHARED"), "provider");
    assert_eq!(val(&with_override, "FROM_PROCESS"), "process");
    assert_eq!(val(&with_override, "FROM_PROVIDER"), "provider");
    assert_eq!(provider_out.len(), 2);

    let (no_provider, empty) = resolve_base_env(&None, &process_env);
    assert_eq!(no_provider.len(), 2);
    assert!(empty.is_empty());
}

#[test]
fn provider_values_are_managed_and_info_is_kept() {
    let mut a = app("api", "api");
    a.env = env(&[("OWN", "${TOKEN}-x")]);
    let mut cfg = config(env(&[("SHARED", "s")]), vec![a]);
    cfg.env_command = Some(EnvCommandConfig {
        command: "macrun".to_string(),
        args: vec!["env".to_string()],
        format: EnvCommandFormat::Json,
        timeout_ms: default_env_command_timeout_ms(),
        workdir: None,
        override_existing: false,
    });
    let out = provider(env(&[("TOKEN", "t")]), false);
    let cfg = resolve_config(cfg, Some(out), &env(&[("PROCESS_ONLY", "p")])).unwrap();
    let app = &cfg.app[0];
    assert_eq!(val(&app.env, "OWN"), "t-x");
    assert_eq!(val(&app.managed_env, "TOKEN"), "t");
    assert_eq!(val(&app.managed_env, "SHARED"), "s");
    assert!(app.managed_env.get("PROCESS_ONLY").is_none());
    assert_eq!(cfg.env_provider_info.as_ref().unwrap().command, "macrun env");
}

#[test]
fn hook_errors_name_the_phase_and_app() {
    let mut a = app("svc", "svc");
    a.after = vec![hook("${NOPE}", &[])];
    let error = parse(config(EnvMap::new(), vec![a])).unwrap_err();
    assert_eq!(error.message(), "Failed to resolve after hook command for app svc: Unknown ENV variable NOPE in ${NOPE}");
}

#[test]
fn interpolation_errors_have_their_messages() {
    let scope = env(&[("A", "1")]);
    assert_eq!(interpolate_string(&"x${A}y".to_string(), &scope).unwrap(), "x1y");
    assert_eq!(interpolate_string(&"no refs".to_string(), &scope).unwrap(), "no refs");
    assert_eq!(interpolate_string(&"${A}".to_string(), &scope).unwrap(), "1");
    let e = interpolate_string(&"${B}".to_string(), &scope).unwrap_err();
    assert_eq!(e.message(), "Unknown ENV variable B in ${B}");
    let e = interpolate_string(&"${A".to_string(), &scope).unwrap_err();
    assert!(matches!(e, InterpolationError::Unclosed { .. }));
    assert_eq!(e.message(), "Unclosed ENV interpolation in ${A");
    let e = interpolate_string(&"${}".to_string(), &scope).unwrap_err();
    assert_eq!(e.message(), "Empty ENV interpolation in ${}");
}

#[test]
fn defaults_match_the_documented_values() {
    assert_eq!(default_host(), "127.0.0.1");
    assert_eq!(default_port(), 7700);
    assert_eq!(default_health_interval(), 10);
    assert!(default_enabled());
    assert_eq!(default_log_lines(), 500);
    assert!(default_watch_recursive());
    assert_eq!(default_watch_debounce_millis(), 500);
    assert_eq!(default_env_command_timeout_ms(), 5_000);
}

#[test]
fn hooks_inherit_the_app_env_with_their_own_overrides() {
    let app_env = env(&[("MODE", "run"), ("PORT", "8080")]);
    let hook_env = env(&[("MODE", "prepare"), ("EXTRA", "1")]);
    let merged = rally::config::hook_run_env(&app_env, &hook_env);
    assert_eq!(val(&merged, "MODE"), "prepare");
    assert_eq!(val(&merged, "PORT"), "8080");
    assert_eq!(val(&merged, "EXTRA"), "1");
    assert_eq!(merged.len(), 3);
}

#[test]
fn self_reference_is_reported_as_a_cycle() {
    let table = env(&[("A", "${A}"), ("B", "plain")]);
    let e = rally::interpolate::resolve_env_map(&table, &EnvMap::new()).unwrap_err();
    assert_eq!(e.message(), "ENV interpolation cycle detected: A -> A");
    let table = env(&[("B", "plain"), ("C", "${B}!")]);
    let r = rally::interpolate::resolve_env_map(&table, &EnvMap::new()).unwrap();
    assert_eq!(r.key_at(0), "B");
    assert_eq!(r.value_at(0), "plain");
    assert_eq!(r.key_at(1), "C");
    assert_eq!(r.value_at(1), "plain!");
}

#[test]
fn table_resolution_does_not_depend_on_entry_order() {
    let base = env(&[("HOST", "127.0.0.1")]);
    let one = env(&[("URL", "http://${HOST}:${PORT}"), ("PORT", "8080")]);
    let two = env(&[("PORT", "8080"), ("URL", "http://${HOST}:${PORT}")]);
    let a = rally::interpolate::resolve_env_map(&one, &base).unwrap();
    let b = rally::interpolate::resolve_env_map(&two, &base).unwrap();
    for k in ["URL", "PORT"] {
        assert_eq!(val(&a, k), val(&b, k));
    }
    assert_eq!(val(&a, "URL"), "http://127.0.0.1:8080");
    let mut scope = base.clone();
    scope.extend(&a);
    assert_eq!(interpolate_string(&"http://${HOST}:${PORT}".to_string(), &scope).unwrap(), val(&a, "URL"));
}

#[test]
fn table_errors_come_from_syntax_unknown_names_or_cycles() {
    let base = env(&[("HOME", "/h")]);
    let resolve = |pairs: &[(&str, &str)]| rally::interpolate::resolve_env_map(&env(pairs), &base);
    assert!(matches!(resolve(&[("A", "${B")]), Err(InterpolationError::Unclosed { .. })));
    assert!(matches!(resolve(&[("A", "x${}")]), Err(InterpolationError::Empty { .. })));
    assert!(matches!(resolve(&[("A", "${NOPE}")]), Err(InterpolationError::Unknown { .. })));
    let e = resolve(&[("A", "${B}"), ("B", "${C}"), ("C", "${A}")]).unwrap_err();
    assert_eq!(e.message(), "ENV interpolation cycle detected: A -> B -> C -> A");
    assert!(resolve(&[("A", "${B}/${HOME}"), ("B", "${C}"), ("C", "c")]).is_ok());
}
