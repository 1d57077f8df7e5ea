use rally::cli::{
    control_command_name, parse_cli_args_from_with_env, render_version, resolve_config_path, subcommand_help, CliError, render_long_help, CliAction, CliOptions, ControlCommand,
    ControlOptions, CONFIG_ENV_VAR, DEFAULT_CONFIG_PATH, LICENSE_SUMMARY,
};

const VERSION: &str = "0.1.0 (test)";

fn argv(args: &[&str]) -> Vec<String> {
    let mut v = vec!["rally".to_string()];
    v.extend(args.iter().map(|a| a.to_string()));
    v
}

fn parse_from_with_env(args: &[&str], env_config: Option<&str>) -> Result<CliOptions, String> {
    match parse_cli_args_from_with_env(&argv(args), env_config.map(String::from), VERSION) {
        Ok(CliAction::Run(cli)) => Ok(cli),
        Ok(CliAction::Print(output)) => Err(format!("unexpected print action: {output}")),
        Ok(CliAction::Control(_)) => Err("unexpected control action".to_string()),
        Err(error) => Err(error.message()),
    }
}

fn parse_from(args: &[&str]) -> Result<CliOptions, String> {
    parse_from_with_env(args, None)
}

fn parse_action(args: &[&str]) -> Result<CliAction, String> {
    parse_cli_args_from_with_env(&argv(args), None, VERSION).map_err(|e| e.message())
}

#[test]
fn parses_default_cli_args() {
    let cli = parse_from(&[]).unwrap();
    assert_eq!(cli.config_path, DEFAULT_CONFIG_PATH);
    assert_eq!(cli.sink_url, None);
}

#[test]
fn uses_rally_config_env_when_no_cli_path_is_provided() {
    let cli = parse_from_with_env(&[], Some("env-rally.toml")).unwrap();
    assert_eq!(cli.config_path, "env-rally.toml");
}

#[test]
fn explicit_config_flag_overrides_rally_config_env() {
    let cli = parse_from_with_env(&["--config", "custom.toml"], Some("env-rally.toml")).unwrap();
    assert_eq!(cli.config_path, "custom.toml");
}

#[test]
fn positional_config_overrides_rally_config_env() {
    let cli = parse_from_with_env(&["custom.toml"], Some("env-rally.toml")).unwrap();
    assert_eq!(cli.config_path, "custom.toml");
}

#[test]
fn parses_start_subcommand() {
    let action = parse_action(&["start", "api-server"]).unwrap();
    assert_eq!(
        action,
        CliAction::Control(ControlOptions {
            config_path: DEFAULT_CONFIG_PATH.to_string(),
            command: ControlCommand::Start,
            app_name: "api-server".to_owned(),
        })
    );
}

#[test]
fn parses_control_command_with_env_config() {
    let action = parse_cli_args_from_with_env(&argv(&["enable", "worker"]), Some("env-rally.toml".to_string()), VERSION)
        .map_err(|e| e.message())
        .unwrap();
    assert_eq!(
        action,
        CliAction::Control(ControlOptions {
            config_path: "env-rally.toml".to_string(),
            command: ControlCommand::Enable,
            app_name: "worker".to_owned(),
        })
    );
}

#[test]
fn parses_sink_and_config_path() {
    let cli = parse_from(&["--sink", "http://127.0.0.1:9000", "--config", "custom.toml"]).unwrap();
    assert_eq!(cli.config_path, "custom.toml");
    assert_eq!(cli.sink_url.as_deref(), Some("http://127.0.0.1:9000"));
}

#[test]
fn parses_legacy_positional_config_path() {
    let cli = parse_from(&["custom.toml"]).unwrap();
    assert_eq!(cli.config_path, "custom.toml");
}

#[test]
fn rejects_multiple_config_sources() {
    let message = parse_from(&["--config", "one.toml", "two.toml"]).unwrap_err();
    assert!(message.contains("cannot be used with"));
}

#[test]
fn rejects_unknown_flags() {
    let message = parse_from(&["--wat"]).unwrap_err();
    assert!(message.contains("unexpected argument") || message.contains("unknown argument"));
}

#[test]
fn help_mentions_config_and_sink() {
    let help = render_long_help();
    assert!(help.contains("--config"));
    assert!(help.contains("--license"));
    assert!(help.contains("--sink"));
    assert!(help.contains(CONFIG_ENV_VAR));
    assert!(help.contains("start"));
    assert!(help.contains("enable"));
    assert!(help.contains("Examples:"));
}

#[test]
fn version_flag_prints_display_version() {
    let action = parse_action(&["--version"]).unwrap();
    let CliAction::Print(output) = action else {
        panic!("expected print action");
    };
    assert!(output.contains(VERSION));
}

#[test]
fn license_flag_prints_license_summary() {
    let action = parse_action(&["--license"]).unwrap();
    let CliAction::Print(output) = action else {
        panic!("expected print action");
    };
    assert_eq!(output, rally::cli::format_license_text());
    assert_eq!(output, LICENSE_SUMMARY);
}

#[test]
fn config_path_precedence_follows_the_documented_order() {
    let s = |v: &str| Some(v.to_string());
    assert_eq!(resolve_config_path(s("flag.toml"), s("pos.toml"), s("env.toml")), "flag.toml");
    assert_eq!(resolve_config_path(None, s("pos.toml"), s("env.toml")), "pos.toml");
    assert_eq!(resolve_config_path(None, None, s("env.toml")), "env.toml");
    assert_eq!(resolve_config_path(None, None, None), "rally.toml");
}

#[test]
fn short_and_attached_config_forms_are_accepted() {
    assert_eq!(parse_from(&["-c", "a.toml"]).unwrap().config_path, "a.toml");
    assert_eq!(parse_from(&["-ca.toml"]).unwrap().config_path, "a.toml");
    assert_eq!(parse_from(&["--config=b.toml"]).unwrap().config_path, "b.toml");
    assert_eq!(parse_from(&["--sink=http://x"]).unwrap().sink_url.as_deref(), Some("http://x"));
}

#[test]
fn missing_and_repeated_options_are_refused() {
    let missing = parse_cli_args_from_with_env(&argv(&["--config"]), None, VERSION).unwrap_err();
    assert_eq!(missing, CliError::MissingValue { option: "config".to_string() });
    assert!(missing.message().contains("a value is required for '--config'"));
    let repeated = parse_cli_args_from_with_env(&argv(&["--sink", "a", "--sink", "b"]), None, VERSION).unwrap_err();
    assert_eq!(repeated, CliError::Repeated { option: "sink".to_string() });
    let conflict = parse_cli_args_from_with_env(&argv(&["--config", "one.toml", "two.toml"]), None, VERSION).unwrap_err();
    assert_eq!(conflict, CliError::ConfigConflict);
    assert_eq!(
        conflict.message(),
        "error: the argument '--config <FILE>' cannot be used with '[FILE]'\n\nFor more information, try '--help'.\n"
    );
}

#[test]
fn unknown_flag_message_names_the_argument() {
    let error = parse_cli_args_from_with_env(&argv(&["--wat"]), None, VERSION).unwrap_err();
    assert_eq!(error, CliError::Unexpected { arg: "--wat".to_string() });
    assert_eq!(error.message(), "error: unexpected argument '--wat' found\n\nFor more information, try '--help'.\n");
}

#[test]
fn control_subcommand_without_name_is_refused() {
    let error = parse_cli_args_from_with_env(&argv(&["stop"]), None, VERSION).unwrap_err();
    assert_eq!(error, CliError::MissingName { command: ControlCommand::Stop });
    assert!(error.message().contains("Usage: rally stop <NAME>"));
}

#[test]
fn help_subcommand_prints_subcommand_help() {
    let action = parse_action(&["help", "restart"]).unwrap();
    assert_eq!(action, CliAction::Print(subcommand_help(ControlCommand::Restart)));
    let action = parse_action(&["disable", "--help"]).unwrap();
    assert_eq!(action, CliAction::Print(subcommand_help(ControlCommand::Disable)));
    let error = parse_cli_args_from_with_env(&argv(&["help", "frobnicate"]), None, VERSION).unwrap_err();
    assert_eq!(error, CliError::UnknownSubcommand { name: "frobnicate".to_string() });
}

#[test]
fn version_text_is_name_and_version() {
    assert_eq!(render_version("1.2.3"), "rally 1.2.3\n");
    assert_eq!(parse_action(&["-V"]).unwrap(), CliAction::Print(render_version(VERSION)));
}

#[test]
fn long_help_flag_prints_long_help() {
    assert_eq!(parse_action(&["--help"]).unwrap(), CliAction::Print(render_long_help()));
}

#[test]
fn control_command_words() {
    assert_eq!(control_command_name(ControlCommand::Start), "start");
    assert_eq!(control_command_name(ControlCommand::Stop), "stop");
    assert_eq!(control_command_name(ControlCommand::Restart), "restart");
    assert_eq!(control_command_name(ControlCommand::Enable), "enable");
    assert_eq!(control_command_name(ControlCommand::Disable), "disable");
}
