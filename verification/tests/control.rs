use rally::cli::ControlCommand;
use rally::config::{default_health_interval, default_log_lines, AppConfig};
use rally::control::{
    control_base_url, control_connect_host, control_reply, control_status_code, control_url, found_status_code,
    AppSwitches, ControlError, ControlResult,
};
use rally::env_map::EnvMap;

fn app(name: &str, enabled: bool) -> AppConfig {
    AppConfig {
        name: name.to_string(),
        access: None,
        cargo: None,
        enabled,
        command: name.to_string(),
        workdir: None,
        args: vec![],
        env: EnvMap::new(),
        managed_env: EnvMap::new(),
        depends_on: vec![],
        before: vec![],
        after: vec![],
        watch: None,
        health_url: None,
        health_interval_secs: default_health_interval(),
        restart_on_exit: false,
        log_lines: default_log_lines(),
    }
}

#[test]
fn wildcard_listen_addresses_connect_to_loopback() {
    assert_eq!(control_connect_host("0.0.0.0"), "127.0.0.1");
    assert_eq!(control_connect_host("::"), "::1");
    assert_eq!(control_connect_host("localhost"), "localhost");
}

#[test]
fn base_urls_bracket_ipv6_hosts() {
    assert_eq!(control_base_url("127.0.0.1", 7700), "http://127.0.0.1:7700");
    assert_eq!(control_base_url("0.0.0.0", 9000), "http://127.0.0.1:9000");
    assert_eq!(control_base_url("::", 7700), "http://[::1]:7700");
    assert_eq!(control_base_url("fe80::1", 80), "http://[fe80::1]:80");
    assert_eq!(control_base_url("[::1]", 8), "http://[::1]:8");
}

#[test]
fn control_urls_encode_the_app_name() {
    assert_eq!(
        control_url("http://127.0.0.1:7700", ControlCommand::Start, "api-server"),
        "http://127.0.0.1:7700/api/start/api-server"
    );
    assert_eq!(
        control_url("http://127.0.0.1:7700", ControlCommand::Disable, "my app/x"),
        "http://127.0.0.1:7700/api/disable/my%20app%2Fx"
    );
}

#[test]
fn status_codes_of_control_answers() {
    assert_eq!(control_status_code(ControlResult::Accepted), 200);
    assert_eq!(control_status_code(ControlResult::NotFound), 404);
    assert_eq!(control_status_code(ControlResult::Disabled), 409);
    assert_eq!(found_status_code(true), 200);
    assert_eq!(found_status_code(false), 404);
}

#[test]
fn client_reads_each_answer_back() {
    for r in [ControlResult::Accepted, ControlResult::NotFound, ControlResult::Disabled] {
        let reply = control_reply(control_status_code(r), ControlCommand::Start, "api");
        match r {
            ControlResult::Accepted => assert!(reply.is_ok()),
            ControlResult::NotFound => assert!(matches!(reply, Err(ControlError::NotFound { .. }))),
            ControlResult::Disabled => assert!(matches!(reply, Err(ControlError::Disabled { .. }))),
        }
    }
}

#[test]
fn refusal_messages() {
    let e = control_reply(404, ControlCommand::Stop, "api").unwrap_err();
    assert_eq!(e.message(), "App api was not found in the running Rally instance");
    let e = control_reply(409, ControlCommand::Restart, "api").unwrap_err();
    assert_eq!(e.message(), "App api is disabled; enable it before using restart");
    let e = control_reply(500, ControlCommand::Enable, "api").unwrap_err();
    assert_eq!(e.message(), "Rally rejected enable for api with status 500 Internal Server Error");
    let e = control_reply(599, ControlCommand::Enable, "api").unwrap_err();
    assert_eq!(e.message(), "Rally rejected enable for api with status 599 <unknown status code>");
}

#[test]
fn switches_start_from_config_and_change_one_app() {
    let apps = vec![app("db", true), app("api", false), app("db", false)];
    let mut s = AppSwitches::from_config(&apps);
    assert_eq!(s.check("db"), ControlResult::Accepted);
    assert_eq!(s.check("api"), ControlResult::Disabled);
    assert_eq!(s.check("nope"), ControlResult::NotFound);
    assert!(s.set_enabled_by_name("db", false));
    assert_eq!(s.check("db"), ControlResult::Disabled);
    assert_eq!(s.check("api"), ControlResult::Disabled);
    assert!(s.set_enabled_by_name("api", true));
    assert_eq!(s.check("api"), ControlResult::Accepted);
    assert_eq!(s.check("db"), ControlResult::Disabled);
    assert!(!s.set_enabled_by_name("nope", true));
    assert_eq!(s.position("api"), Some(1));
    assert_eq!(s.position("db"), Some(0));
    let reloaded = AppSwitches::from_config(&apps);
    assert_eq!(reloaded.check("db"), ControlResult::Accepted);
    assert_eq!(reloaded.check("api"), ControlResult::Disabled);
}

#[test]
fn a_full_start_skips_disabled_apps_in_order() {
    let apps = vec![app("db", true), app("api", false), app("worker", true)];
    let mut s = AppSwitches::from_config(&apps);
    assert_eq!(s.enabled_in(&vec![2, 1, 0]), vec![2, 0]);
    s.set_enabled_by_name("api", true);
    assert_eq!(s.enabled_in(&vec![2, 1, 0]), vec![2, 1, 0]);
    assert_eq!(s.enabled_in(&vec![7, 0]), vec![0]);
}

#[test]
fn non_ascii_names_are_encoded_byte_by_byte() {
    assert_eq!(
        control_url("http://h:1", ControlCommand::Stop, "café~_.-"),
        "http://h:1/api/stop/caf%C3%A9~_.-"
    );
}
