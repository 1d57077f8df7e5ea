//! The command-line grammar of `rally`: options, the legacy positional
//! config path, the control subcommands, help and version output, and the
//! precedence of config path sources.
use vstd::prelude::*;
use crate::text::{chars_of, find_char, find_char_exec, lemma_find_char_bounds, string_of_range};
use crate::interpolate::names;

verus! {

/// Name of the environment variable that may hold the config path.
pub const CONFIG_ENV_VAR: &'static str = "RALLY_CONFIG";

/// Config path used when no other source gives one.
pub const DEFAULT_CONFIG_PATH: &'static str = "rally.toml";

/// Copyright and license summary printed by `--license`.
pub const LICENSE_SUMMARY: &'static str = "Copyright (C) 2026 Alexander R. Croft\nLicense: GPL-3.0-or-later\n";

/// A command sent to an already running instance.
#[derive(Debug, Clone, Copy, PartialEq, Eq, Structural)]
pub enum ControlCommand {
    Start,
    Stop,
    Restart,
    Enable,
    Disable,
}

/// Options of a normal run.
#[derive(Debug, Clone, PartialEq, Eq)]
pub struct CliOptions {
    pub config_path: String,
    pub sink_url: Option<String>,
}

/// A control command for a running instance.
#[derive(Debug, Clone, PartialEq, Eq)]
pub struct ControlOptions {
    pub config_path: String,
    pub command: ControlCommand,
    pub app_name: String,
}

/// What the command line asks for.
#[derive(Debug, Clone, PartialEq, Eq)]
pub enum CliAction {
    /// Start the supervisor.
    Run(CliOptions),
    /// Send a command to a running instance.
    Control(ControlOptions),
    /// Print this text and exit (help, version, license).
    Print(String),
}

/// What the command line asks for, over character sequences.
pub enum CliOutcome {
    Run { config_path: Seq<char>, sink_url: Option<Seq<char>> },
    Control { config_path: Seq<char>, command: ControlCommand, app_name: Seq<char> },
    Print(Seq<char>),
}

impl CliAction {
    /// This action over character sequences.
    pub open spec fn outcome(&self) -> CliOutcome {
        match self {
            CliAction::Run(o) => CliOutcome::Run {
                config_path: o.config_path@,
                sink_url: match o.sink_url {
                    Some(s) => Some(s@),
                    None => None,
                },
            },
            CliAction::Control(c) => CliOutcome::Control {
                config_path: c.config_path@,
                command: c.command,
                app_name: c.app_name@,
            },
            CliAction::Print(s) => CliOutcome::Print(s@),
        }
    }
}

/// Why the command line was refused, over character sequences.
pub enum CliFault {
    /// An argument that the grammar has no place for.
    Unexpected(Seq<char>),
    /// An option (by its long name) given without its value.
    MissingValue(Seq<char>),
    /// An option (by its long name) given twice.
    Repeated(Seq<char>),
    /// A flag (by its long name) given a value.
    UnexpectedValue(Seq<char>, Seq<char>),
    /// `--config` together with the positional config path.
    ConfigConflict,
    /// A control subcommand without its app name.
    MissingName(ControlCommand),
    /// `help` asked about something that is not a subcommand.
    UnknownSubcommand(Seq<char>),
}

/// Why the command line was refused.
#[derive(Debug, Clone, PartialEq, Eq)]
pub enum CliError {
    Unexpected { arg: String },
    MissingValue { option: String },
    Repeated { option: String },
    UnexpectedValue { flag: String, value: String },
    ConfigConflict,
    MissingName { command: ControlCommand },
    UnknownSubcommand { name: String },
}

impl CliError {
    /// The failure this error reports.
    pub open spec fn fault(&self) -> CliFault {
        match self {
            CliError::Unexpected { arg } => CliFault::Unexpected(arg@),
            CliError::MissingValue { option } => CliFault::MissingValue(option@),
            CliError::Repeated { option } => CliFault::Repeated(option@),
            CliError::UnexpectedValue { flag, value } => CliFault::UnexpectedValue(flag@, value@),
            CliError::ConfigConflict => CliFault::ConfigConflict,
            CliError::MissingName { command } => CliFault::MissingName(*command),
            CliError::UnknownSubcommand { name } => CliFault::UnknownSubcommand(name@),
        }
    }
}

/// The config path: `--config`, else the positional path, else the
/// environment variable, else `rally.toml`.
pub open spec fn config_path_of(flag: Option<Seq<char>>, positional: Option<Seq<char>>, env: Option<Seq<char>>) -> Seq<char> {
    match flag {
        Some(p) => p,
        None => match positional {
            Some(p) => p,
            None => match env {
                Some(p) => p,
                None => DEFAULT_CONFIG_PATH@,
            },
        },
    }
}

/// The characters of an optional string.
pub open spec fn opt_chars(o: Option<String>) -> Option<Seq<char>> {
    match o {
        Some(s) => Some(s@),
        None => None,
    }
}

/// Chooses the config path by precedence: `--config`, then the legacy
/// positional path, then `RALLY_CONFIG`, then `rally.toml`.
pub fn resolve_config_path(flag: Option<String>, positional: Option<String>, env: Option<String>) -> (p: String)
    ensures
        p@ == config_path_of(opt_chars(flag), opt_chars(positional), opt_chars(env)),
{
    match flag {
        Some(p) => p,
        None => match positional {
            Some(p) => p,
            None => match env {
                Some(p) => p,
                None => String::from_str(DEFAULT_CONFIG_PATH),
            },
        },
    }
}

/// The license summary.
pub fn format_license_text() -> (s: String)
    ensures
        s@ == LICENSE_SUMMARY@,
{
    String::from_str(LICENSE_SUMMARY)
}

/// The word of a control command in the URL of the control API.
pub open spec fn command_word(c: ControlCommand) -> Seq<char> {
    match c {
        ControlCommand::Start => "start"@,
        ControlCommand::Stop => "stop"@,
        ControlCommand::Restart => "restart"@,
        ControlCommand::Enable => "enable"@,
        ControlCommand::Disable => "disable"@,
    }
}

/// The word of a control command (`start`, `stop`, ...).
pub fn control_command_name(command: ControlCommand) -> (s: &'static str)
    ensures
        s@ == command_word(command),
{
    match command {
        ControlCommand::Start => "start",
        ControlCommand::Stop => "stop",
        ControlCommand::Restart => "restart",
        ControlCommand::Enable => "enable",
        ControlCommand::Disable => "disable",
    }
}


/// The full help text (`--help`).
pub const LONG_HELP: &'static str = r#"Rally launches and supervises multiple local development processes, serves an embedded dashboard, and can optionally forward lifecycle and process output events to a ratatouille sink. Config path precedence is: --config, legacy positional path, RALLY_CONFIG, then ./rally.toml.

Usage: rally [OPTIONS] [COMMAND]

Commands:
  start    Start an app through an existing Rally instance
  stop     Stop an app through an existing Rally instance
  restart  Restart an app through an existing Rally instance
  enable   Enable an app at runtime through an existing Rally instance
  disable  Disable an app at runtime through an existing Rally instance
  help     Print this message or the help of the given subcommand(s)

Options:
  -c, --config <FILE>
          Path to the Rally config file (overrides RALLY_CONFIG)

      --sink <URL>
          Optional ratatouille HTTP sink URL

      --license
          Print copyright and license summary

  -h, --help
          Print help (see a summary with '-h')

  -V, --version
          Print version

Examples:
  rally
  RALLY_CONFIG=./dev.rally.toml rally
  rally --config ./rally.toml
  rally --sink http://127.0.0.1:9100/ingest
  rally ./custom-rally.toml
  rally start api-server
  rally stop api-server
  rally enable worker
"#;

/// The summary help text (`-h`).
pub const SHORT_HELP: &'static str = r#"Rally your services with a local process dashboard

Usage: rally [OPTIONS] [COMMAND]

Commands:
  start    Start an app through an existing Rally instance
  stop     Stop an app through an existing Rally instance
  restart  Restart an app through an existing Rally instance
  enable   Enable an app at runtime through an existing Rally instance
  disable  Disable an app at runtime through an existing Rally instance
  help     Print this message or the help of the given subcommand(s)

Options:
  -c, --config <FILE>  Path to the Rally config file (overrides RALLY_CONFIG)
      --sink <URL>     Optional ratatouille HTTP sink URL
      --license        Print copyright and license summary
  -h, --help           Print help (see more with '--help')
  -V, --version        Print version

Examples:
  rally
  RALLY_CONFIG=./dev.rally.toml rally
  rally --config ./rally.toml
  rally --sink http://127.0.0.1:9100/ingest
  rally ./custom-rally.toml
  rally start api-server
  rally stop api-server
  rally enable worker
"#;

/// Help of the `start` subcommand.
pub const START_HELP: &'static str = r#"Start an app through an existing Rally instance

Usage: rally start <NAME>

Arguments:
  <NAME>

Options:
  -h, --help  Print help
"#;

/// Help of the `stop` subcommand.
pub const STOP_HELP: &'static str = r#"Stop an app through an existing Rally instance

Usage: rally stop <NAME>

Arguments:
  <NAME>

Options:
  -h, --help  Print help
"#;

/// Help of the `restart` subcommand.
pub const RESTART_HELP: &'static str = r#"Restart an app through an existing Rally instance

Usage: rally restart <NAME>

Arguments:
  <NAME>

Options:
  -h, --help  Print help
"#;

/// Help of the `enable` subcommand.
pub const ENABLE_HELP: &'static str = r#"Enable an app at runtime through an existing Rally instance

Usage: rally enable <NAME>

Arguments:
  <NAME>

Options:
  -h, --help  Print help
"#;

/// Help of the `disable` subcommand.
pub const DISABLE_HELP: &'static str = r#"Disable an app at runtime through an existing Rally instance

Usage: rally disable <NAME>

Arguments:
  <NAME>

Options:
  -h, --help  Print help
"#;

/// Help of a control subcommand.
pub open spec fn sub_help(c: ControlCommand) -> Seq<char> {
    match c {
        ControlCommand::Start => START_HELP@,
        ControlCommand::Stop => STOP_HELP@,
        ControlCommand::Restart => RESTART_HELP@,
        ControlCommand::Enable => ENABLE_HELP@,
        ControlCommand::Disable => DISABLE_HELP@,
    }
}

/// Help of a control subcommand.
pub fn subcommand_help(c: ControlCommand) -> (s: String)
    ensures
        s@ == sub_help(c),
{
    match c {
        ControlCommand::Start => String::from_str(START_HELP),
        ControlCommand::Stop => String::from_str(STOP_HELP),
        ControlCommand::Restart => String::from_str(RESTART_HELP),
        ControlCommand::Enable => String::from_str(ENABLE_HELP),
        ControlCommand::Disable => String::from_str(DISABLE_HELP),
    }
}

/// What `--version` prints.
pub open spec fn version_text(version: Seq<char>) -> Seq<char> {
    "rally "@ + version + "\n"@
}

/// The full help text, as `--help` prints it.
pub fn render_long_help() -> (s: String)
    ensures
        s@ == LONG_HELP@,
{
    String::from_str(LONG_HELP)
}

/// The version line, as `--version` prints it.
pub fn render_version(version: &str) -> (s: String)
    ensures
        s@ == version_text(version@),
{
    let mut s = String::from_str("rally ");
    s.append(version);
    s.append("\n");
    s
}

/// The options read so far while scanning the arguments.
pub struct ScanState {
    pub config: Option<Seq<char>>,
    pub positional: Option<Seq<char>>,
    pub sink: Option<Seq<char>>,
    pub license: bool,
    /// Whether `--` was seen: every later argument is a plain value.
    pub raw: bool,
}

/// The state before any argument.
pub open spec fn initial_scan_state() -> ScanState {
    ScanState { config: None, positional: None, sink: None, license: false, raw: false }
}

/// An argument that looks like an option: `-` followed by something.
pub open spec fn is_flag_like(t: Seq<char>) -> bool {
    t.len() > 1 && t[0] == '-'
}

/// A long option: `--name` or `--name=value`.
pub open spec fn is_long(t: Seq<char>) -> bool {
    t.len() > 2 && t[0] == '-' && t[1] == '-'
}

/// The name of a long option.
pub open spec fn long_name(t: Seq<char>) -> Seq<char> {
    match find_char(t, '=', 2) {
        Some(e) => t.subrange(2, e),
        None => t.subrange(2, t.len() as int),
    }
}

/// The value attached to a long option with `=`, if any.
pub open spec fn long_value(t: Seq<char>) -> Option<Seq<char>> {
    match find_char(t, '=', 2) {
        Some(e) => Some(t.subrange(e + 1, t.len() as int)),
        None => None,
    }
}

/// The value attached to a short option (`-cFILE` or `-c=FILE`), if any.
pub open spec fn short_value(t: Seq<char>) -> Option<Seq<char>> {
    if t.len() <= 2 {
        None
    } else if t[2] == '=' {
        Some(t.subrange(3, t.len() as int))
    } else {
        Some(t.subrange(2, t.len() as int))
    }
}

/// The value of an option at index `i` and the index after it: the attached
/// value, else the next argument unless that looks like an option.
pub open spec fn option_value(args: Seq<Seq<char>>, i: int, attached: Option<Seq<char>>) -> Option<(Seq<char>, int)> {
    match attached {
        Some(v) => Some((v, i + 1)),
        None => if i + 1 < args.len() && !is_flag_like(args[i + 1]) {
            Some((args[i + 1], i + 2))
        } else {
            None
        },
    }
}

/// The control subcommand an argument names, if any.
pub open spec fn subcommand_of(t: Seq<char>) -> Option<ControlCommand> {
    if t == "start"@ {
        Some(ControlCommand::Start)
    } else if t == "stop"@ {
        Some(ControlCommand::Stop)
    } else if t == "restart"@ {
        Some(ControlCommand::Restart)
    } else if t == "enable"@ {
        Some(ControlCommand::Enable)
    } else if t == "disable"@ {
        Some(ControlCommand::Disable)
    } else {
        None
    }
}

/// What the command line asks for once every argument is read.
pub open spec fn finish(st: ScanState, control: Option<(ControlCommand, Seq<char>)>, env: Option<Seq<char>>) -> Result<CliOutcome, CliFault> {
    if st.config is Some && st.positional is Some {
        Err(CliFault::ConfigConflict)
    } else if st.license {
        Ok(CliOutcome::Print(LICENSE_SUMMARY@))
    } else {
        let path = config_path_of(st.config, st.positional, env);
        match control {
            Some((c, n)) => Ok(CliOutcome::Control { config_path: path, command: c, app_name: n }),
            None => Ok(CliOutcome::Run { config_path: path, sink_url: st.sink }),
        }
    }
}

/// The arguments after a control subcommand: one app name, or a request for
/// the subcommand's help.
pub open spec fn sub_scan(args: Seq<Seq<char>>, j: int, c: ControlCommand, st: ScanState, name: Option<Seq<char>>, raw: bool, env: Option<Seq<char>>) -> Result<CliOutcome, CliFault>
    decreases args.len() - j,
{
    if j < 0 || j >= args.len() {
        match name {
            None => Err(CliFault::MissingName(c)),
            Some(n) => finish(st, Some((c, n)), env),
        }
    } else {
        let t = args[j];
        if !raw && t == "--"@ {
            sub_scan(args, j + 1, c, st, name, true, env)
        } else if !raw && (t == "--help"@ || (is_flag_like(t) && !is_long(t) && t[1] == 'h')) {
            Ok(CliOutcome::Print(sub_help(c)))
        } else if !raw && is_flag_like(t) {
            Err(CliFault::Unexpected(t))
        } else if name is None {
            sub_scan(args, j + 1, c, st, Some(t), raw, env)
        } else {
            Err(CliFault::Unexpected(t))
        }
    }
}

/// The arguments after `help`: nothing (the full help) or one subcommand.
pub open spec fn help_scan(args: Seq<Seq<char>>, j: int) -> Result<CliOutcome, CliFault> {
    if j < 0 || j >= args.len() {
        Ok(CliOutcome::Print(LONG_HELP@))
    } else {
        match subcommand_of(args[j]) {
            None => Err(CliFault::UnknownSubcommand(args[j])),
            Some(c) => if j + 1 < args.len() {
                Err(CliFault::UnknownSubcommand(args[j + 1]))
            } else {
                Ok(CliOutcome::Print(sub_help(c)))
            },
        }
    }
}

/// Reading the arguments from index `i` on, in state `st`. Help and version
/// requests stop the reading at once; an error stops it too.
pub open spec fn scan(args: Seq<Seq<char>>, i: int, st: ScanState, env: Option<Seq<char>>, version: Seq<char>) -> Result<CliOutcome, CliFault>
    decreases args.len() - i,
{
    if i < 0 || i >= args.len() {
        finish(st, None, env)
    } else {
        let t = args[i];
        if !st.raw && t == "--"@ {
            scan(args, i + 1, ScanState { raw: true, ..st }, env, version)
        } else if !st.raw && is_long(t) {
            let n = long_name(t);
            let v = long_value(t);
            if n == "help"@ {
                match v {
                    Some(x) => Err(CliFault::UnexpectedValue(n, x)),
                    None => Ok(CliOutcome::Print(LONG_HELP@)),
                }
            } else if n == "version"@ {
                match v {
                    Some(x) => Err(CliFault::UnexpectedValue(n, x)),
                    None => Ok(CliOutcome::Print(version_text(version))),
                }
            } else if n == "license"@ {
                match v {
                    Some(x) => Err(CliFault::UnexpectedValue(n, x)),
                    None => if st.license {
                        Err(CliFault::Repeated(n))
                    } else {
                        scan(args, i + 1, ScanState { license: true, ..st }, env, version)
                    },
                }
            } else if n == "config"@ {
                if st.config is Some {
                    Err(CliFault::Repeated(n))
                } else {
                    match option_value(args, i, v) {
                        None => Err(CliFault::MissingValue(n)),
                        Some((x, j)) => scan(args, j, ScanState { config: Some(x), ..st }, env, version),
                    }
                }
            } else if n == "sink"@ {
                if st.sink is Some {
                    Err(CliFault::Repeated(n))
                } else {
                    match option_value(args, i, v) {
                        None => Err(CliFault::MissingValue(n)),
                        Some((x, j)) => scan(args, j, ScanState { sink: Some(x), ..st }, env, version),
                    }
                }
            } else {
                Err(CliFault::Unexpected(t))
            }
        } else if !st.raw && is_flag_like(t) {
            if t[1] == 'h' {
                Ok(CliOutcome::Print(SHORT_HELP@))
            } else if t[1] == 'V' {
                Ok(CliOutcome::Print(version_text(version)))
            } else if t[1] == 'c' {
                if st.config is Some {
                    Err(CliFault::Repeated("config"@))
                } else {
                    match option_value(args, i, short_value(t)) {
                        None => Err(CliFault::MissingValue("config"@)),
                        Some((x, j)) => scan(args, j, ScanState { config: Some(x), ..st }, env, version),
                    }
                }
            } else {
                Err(CliFault::Unexpected(t))
            }
        } else if !st.raw && t == "help"@ {
            help_scan(args, i + 1)
        } else if !st.raw && subcommand_of(t) is Some {
            sub_scan(args, i + 1, subcommand_of(t)->0, st, None, false, env)
        } else if st.positional is None {
            scan(args, i + 1, ScanState { positional: Some(t), ..st }, env, version)
        } else {
            Err(CliFault::Unexpected(t))
        }
    }
}

/// The arguments after the program name.
pub open spec fn cli_words(argv: Seq<String>) -> Seq<Seq<char>> {
    if argv.len() == 0 {
        seq![]
    } else {
        names(argv).drop_first()
    }
}

/// What a command line (program name first) asks for, with `env` the value
/// of `RALLY_CONFIG` and `version` the version to print.
pub open spec fn cli_outcome(argv: Seq<String>, env: Option<Seq<char>>, version: Seq<char>) -> Result<CliOutcome, CliFault> {
    scan(cli_words(argv), 0, initial_scan_state(), env, version)
}


/// Whether `t` holds exactly the characters of `lit`.
fn lit_eq(t: &Vec<char>, lit: &str) -> (b: bool)
    ensures
        b == (t@ == lit@),
{
    let l = chars_of(lit);
    if l.len() != t.len() {
        return false;
    }
    let mut i: usize = 0;
    while i < t.len()
        invariant
            i <= t@.len(),
            l@.len() == t@.len(),
            l@ == lit@,
            forall|j: int| 0 <= j < i ==> t@[j] == l@[j],
        decreases t@.len() - i,
    {
        if t[i] != l[i] {
            return false;
        }
        i = i + 1;
    }
    assert(t@ =~= l@);
    true
}

/// A string holding the characters of `t`.
fn string_of(t: &Vec<char>) -> (s: String)
    ensures
        s@ == t@,
{
    let s = string_of_range(t, 0, t.len());
    assert(t@.subrange(0, t@.len() as int) =~= t@);
    s
}

/// The scanning state over character sequences.
pub open spec fn state_of(config: Option<String>, positional: Option<String>, sink: Option<String>, license: bool, raw: bool) -> ScanState {
    ScanState { config: opt_chars(config), positional: opt_chars(positional), sink: opt_chars(sink), license, raw }
}

/// The words of the command line after the program name, as characters.
fn words_of(argv: &Vec<String>) -> (w: Vec<Vec<char>>)
    ensures
        w@.len() == cli_words(argv@).len(),
        forall|k: int| 0 <= k < w@.len() ==> #[trigger] w@[k]@ == cli_words(argv@)[k],
{
    let mut w: Vec<Vec<char>> = Vec::new();
    if argv.len() == 0 {
        return w;
    }
    let mut i: usize = 1;
    while i < argv.len()
        invariant
            1 <= i <= argv@.len(),
            w@.len() == i - 1,
            forall|k: int| 0 <= k < w@.len() ==> #[trigger] w@[k]@ == argv@[k + 1]@,
        decreases argv@.len() - i,
    {
        w.push(chars_of(argv[i].as_str()));
        i = i + 1;
    }
    w
}

/// The words as character sequences.
pub open spec fn word_views(w: Seq<Vec<char>>) -> Seq<Seq<char>> {
    w.map_values(|v: Vec<char>| v@)
}

/// What the command line asks for once every argument is read (see `finish`).
fn finish_exec(config: Option<String>, positional: Option<String>, sink: Option<String>, license: bool, raw: bool, control: Option<(ControlCommand, String)>, env: Option<String>) -> (r: Result<CliAction, CliError>)
    ensures
        r matches Ok(a) ==> finish(state_of(config, positional, sink, license, raw), match control {
            Some((c, n)) => Some((c, n@)),
            None => None,
        }, opt_chars(env)) == Ok::<CliOutcome, CliFault>(a.outcome()),
        r matches Err(e) ==> finish(state_of(config, positional, sink, license, raw), match control {
            Some((c, n)) => Some((c, n@)),
            None => None,
        }, opt_chars(env)) == Err::<CliOutcome, CliFault>(e.fault()),
{
    if config.is_some() && positional.is_some() {
        return Err(CliError::ConfigConflict);
    }
    if license {
        return Ok(CliAction::Print(format_license_text()));
    }
    let config_path = resolve_config_path(config, positional, env);
    match control {
        Some((command, app_name)) => Ok(CliAction::Control(ControlOptions { config_path, command, app_name })),
        None => Ok(CliAction::Run(CliOptions { config_path, sink_url: sink })),
    }
}

/// The control subcommand an argument names, if any.
fn subcommand_exec(t: &Vec<char>) -> (r: Option<ControlCommand>)
    ensures
        r == subcommand_of(t@),
{
    if lit_eq(t, "start") {
        Some(ControlCommand::Start)
    } else if lit_eq(t, "stop") {
        Some(ControlCommand::Stop)
    } else if lit_eq(t, "restart") {
        Some(ControlCommand::Restart)
    } else if lit_eq(t, "enable") {
        Some(ControlCommand::Enable)
    } else if lit_eq(t, "disable") {
        Some(ControlCommand::Disable)
    } else {
        None
    }
}

/// The arguments after `help` (see `help_scan`).
fn help_scan_exec(w: &Vec<Vec<char>>, j: usize) -> (r: Result<CliAction, CliError>)
    requires
        j <= w@.len(),
    ensures
        r matches Ok(a) ==> help_scan(word_views(w@), j as int) == Ok::<CliOutcome, CliFault>(a.outcome()),
        r matches Err(e) ==> help_scan(word_views(w@), j as int) == Err::<CliOutcome, CliFault>(e.fault()),
{
    let ghost wv = word_views(w@);
    if j >= w.len() {
        return Ok(CliAction::Print(render_long_help()));
    }
    assert(wv[j as int] == w@[j as int]@);
    match subcommand_exec(&w[j]) {
        None => Err(CliError::UnknownSubcommand { name: string_of(&w[j]) }),
        Some(c) => {
            if j + 1 < w.len() {
                assert(wv[j + 1] == w@[j + 1]@);
                Err(CliError::UnknownSubcommand { name: string_of(&w[j + 1]) })
            } else {
                Ok(CliAction::Print(subcommand_help(c)))
            }
        },
    }
}

/// The arguments after a control subcommand (see `sub_scan`).
fn sub_scan_exec(
    w: &Vec<Vec<char>>,
    j0: usize,
    c: ControlCommand,
    config: Option<String>,
    positional: Option<String>,
    sink: Option<String>,
    license: bool,
    raw0: bool,
    env: Option<String>,
) -> (r: Result<CliAction, CliError>)
    requires
        j0 <= w@.len(),
    ensures
        r matches Ok(a) ==> sub_scan(word_views(w@), j0 as int, c, state_of(config, positional, sink, license, raw0), None, false, opt_chars(env)) == Ok::<CliOutcome, CliFault>(a.outcome()),
        r matches Err(e) ==> sub_scan(word_views(w@), j0 as int, c, state_of(config, positional, sink, license, raw0), None, false, opt_chars(env)) == Err::<CliOutcome, CliFault>(e.fault()),
{
    let ghost wv = word_views(w@);
    let ghost st = state_of(config, positional, sink, license, raw0);
    let mut j = j0;
    let mut name: Option<String> = None;
    let mut raw = false;
    loop
        invariant
            j0 <= j <= w@.len(),
            wv == word_views(w@),
            wv.len() == w@.len(),
            st == state_of(config, positional, sink, license, raw0),
            sub_scan(wv, j0 as int, c, st, None, false, opt_chars(env)) == sub_scan(wv, j as int, c, st, opt_chars(name), raw, opt_chars(env)),
        decreases w@.len() - j,
    {
        if j >= w.len() {
            match name {
                None => {
                    return Err(CliError::MissingName { command: c });
                },
                Some(n) => {
                    return finish_exec(config, positional, sink, license, raw0, Some((c, n)), env);
                },
            }
        }
        let t = &w[j];
        assert(wv[j as int] == t@);
        if !raw && lit_eq(t, "--") {
            raw = true;
            j = j + 1;
            continue;
        }
        if !raw && (lit_eq(t, "--help") || (t.len() > 1 && t[0] == '-' && !(t.len() > 2 && t[1] == '-') && t[1] == 'h')) {
            return Ok(CliAction::Print(subcommand_help(c)));
        }
        if !raw && t.len() > 1 && t[0] == '-' {
            return Err(CliError::Unexpected { arg: string_of(t) });
        }
        if name.is_none() {
            name = Some(string_of(t));
            j = j + 1;
            continue;
        }
        return Err(CliError::Unexpected { arg: string_of(t) });
    }
}

/// Splits a long option into its name and the value attached with `=`.
fn split_long(t: &Vec<char>) -> (r: (Vec<char>, Option<String>))
    requires
        t@.len() > 2,
    ensures
        r.0@ == long_name(t@),
        opt_chars(r.1) == long_value(t@),
{
    let len = t.len();
    match find_char_exec(t, '=', 2) {
        Some(e) => {
            proof {
                lemma_find_char_bounds(t@, '=', 2);
            }
            let name = crate::env_output::sub_chars(t, 2, e);
            let value = string_of_range(t, e + 1, len);
            (name, Some(value))
        },
        None => (crate::env_output::sub_chars(t, 2, t.len()), None),
    }
}

/// Parses a command line (program name first). `rally_config` is the value
/// of `RALLY_CONFIG`, `version` the version that `--version` prints.
pub fn parse_cli_args_from_with_env(argv: &Vec<String>, rally_config: Option<String>, version: &str) -> (r: Result<CliAction, CliError>)
    ensures
        r matches Ok(a) ==> cli_outcome(argv@, opt_chars(rally_config), version@) == Ok::<CliOutcome, CliFault>(a.outcome()),
        r matches Err(e) ==> cli_outcome(argv@, opt_chars(rally_config), version@) == Err::<CliOutcome, CliFault>(e.fault()),
{
    let w = words_of(argv);
    let ghost wv = word_views(w@);
    assert(wv =~= cli_words(argv@));
    let mut config: Option<String> = None;
    let mut positional: Option<String> = None;
    let mut sink: Option<String> = None;
    let mut license = false;
    let mut raw = false;
    let mut i: usize = 0;
    loop
        invariant
            i <= w@.len(),
            wv == word_views(w@),
            wv.len() == w@.len(),
            cli_outcome(argv@, opt_chars(rally_config), version@) == scan(wv, i as int, state_of(config, positional, sink, license, raw), opt_chars(rally_config), version@),
        decreases w@.len() - i,
    {
        if i >= w.len() {
            return finish_exec(config, positional, sink, license, raw, None, rally_config);
        }
        let t = &w[i];
        assert(wv[i as int] == t@);
        if !raw && lit_eq(t, "--") {
            raw = true;
            i = i + 1;
            continue;
        }
        if !raw && t.len() > 2 && t[0] == '-' && t[1] == '-' {
            let (n, v) = split_long(t);
            if lit_eq(&n, "help") {
                return match v {
                    Some(x) => Err(CliError::UnexpectedValue { flag: string_of(&n), value: x }),
                    None => Ok(CliAction::Print(render_long_help())),
                };
            } else if lit_eq(&n, "version") {
                return match v {
                    Some(x) => Err(CliError::UnexpectedValue { flag: string_of(&n), value: x }),
                    None => Ok(CliAction::Print(render_version(version))),
                };
            } else if lit_eq(&n, "license") {
                match v {
                    Some(x) => {
                        return Err(CliError::UnexpectedValue { flag: string_of(&n), value: x });
                    },
                    None => {
                        if license {
                            return Err(CliError::Repeated { option: string_of(&n) });
                        }
                        license = true;
                        i = i + 1;
                        continue;
                    },
                }
            } else if lit_eq(&n, "config") || lit_eq(&n, "sink") {
                let is_config = lit_eq(&n, "config");
                if (is_config && config.is_some()) || (!is_config && sink.is_some()) {
                    return Err(CliError::Repeated { option: string_of(&n) });
                }
                let (value, next) = match v {
                    Some(x) => (x, i + 1),
                    None => {
                        if i + 1 < w.len() && !(w[i + 1].len() > 1 && w[i + 1][0] == '-') {
                            assert(wv[i + 1] == w@[i + 1]@);
                            (string_of(&w[i + 1]), i + 2)
                        } else {
                            if i + 1 < w.len() {
                                assert(wv[i + 1] == w@[i + 1]@);
                            }
                            return Err(CliError::MissingValue { option: string_of(&n) });
                        }
                    },
                };
                if is_config {
                    config = Some(value);
                } else {
                    sink = Some(value);
                }
                i = next;
                continue;
            } else {
                return Err(CliError::Unexpected { arg: string_of(t) });
            }
        }
        if !raw && t.len() > 1 && t[0] == '-' {
            if t[1] == 'h' {
                return Ok(CliAction::Print(String::from_str(SHORT_HELP)));
            } else if t[1] == 'V' {
                return Ok(CliAction::Print(render_version(version)));
            } else if t[1] == 'c' {
                if config.is_some() {
                    return Err(CliError::Repeated { option: String::from_str("config") });
                }
                let attached: Option<String> = if t.len() <= 2 {
                    None
                } else if t[2] == '=' {
                    Some(string_of_range(t, 3, t.len()))
                } else {
                    Some(string_of_range(t, 2, t.len()))
                };
                let (value, next) = match attached {
                    Some(x) => (x, i + 1),
                    None => {
                        if i + 1 < w.len() && !(w[i + 1].len() > 1 && w[i + 1][0] == '-') {
                            assert(wv[i + 1] == w@[i + 1]@);
                            (string_of(&w[i + 1]), i + 2)
                        } else {
                            if i + 1 < w.len() {
                                assert(wv[i + 1] == w@[i + 1]@);
                            }
                            return Err(CliError::MissingValue { option: String::from_str("config") });
                        }
                    },
                };
                config = Some(value);
                i = next;
                continue;
            } else {
                return Err(CliError::Unexpected { arg: string_of(t) });
            }
        }
        if !raw && lit_eq(t, "help") {
            return help_scan_exec(&w, i + 1);
        }
        if !raw {
            match subcommand_exec(t) {
                Some(c) => {
                    return sub_scan_exec(&w, i + 1, c, config, positional, sink, license, raw, rally_config);
                },
                None => {},
            }
        }
        if positional.is_none() {
            positional = Some(string_of(t));
            i = i + 1;
            continue;
        }
        return Err(CliError::Unexpected { arg: string_of(t) });
    }
}


/// The message of a refused command line: `error: `, what was wrong, and a
/// pointer to `--help`.
pub open spec fn cli_error_message(f: CliFault) -> Seq<char> {
    let body = match f {
        CliFault::Unexpected(arg) => "unexpected argument '"@ + arg + "' found"@,
        CliFault::MissingValue(option) => "a value is required for '--"@ + option + "' but none was supplied"@,
        CliFault::Repeated(option) => "the argument '--"@ + option + "' cannot be used multiple times"@,
        CliFault::UnexpectedValue(flag, value) => "unexpected value '"@ + value + "' for '--"@ + flag
            + "' found; no more were expected"@,
        CliFault::ConfigConflict => "the argument '--config <FILE>' cannot be used with '[FILE]'"@,
        CliFault::MissingName(c) => "the following required arguments were not provided:\n  <NAME>\n\nUsage: rally "@
            + command_word(c) + " <NAME>"@,
        CliFault::UnknownSubcommand(name) => "unrecognized subcommand '"@ + name + "'"@,
    };
    "error: "@ + body + "\n\nFor more information, try '--help'.\n"@
}

impl CliError {
    /// The message printed for this error.
    pub fn message(&self) -> (m: String)
        ensures
            m@ == cli_error_message(self.fault()),
    {
        let mut m = String::from_str("error: ");
        match self {
            CliError::Unexpected { arg } => {
                m.append("unexpected argument '");
                m.append(arg.as_str());
                m.append("' found");
            },
            CliError::MissingValue { option } => {
                m.append("a value is required for '--");
                m.append(option.as_str());
                m.append("' but none was supplied");
            },
            CliError::Repeated { option } => {
                m.append("the argument '--");
                m.append(option.as_str());
                m.append("' cannot be used multiple times");
            },
            CliError::UnexpectedValue { flag, value } => {
                m.append("unexpected value '");
                m.append(value.as_str());
                m.append("' for '--");
                m.append(flag.as_str());
                m.append("' found; no more were expected");
            },
            CliError::ConfigConflict => {
                m.append("the argument '--config <FILE>' cannot be used with '[FILE]'");
            },
            CliError::MissingName { command } => {
                m.append("the following required arguments were not provided:\n  <NAME>\n\nUsage: rally ");
                m.append(control_command_name(*command));
                m.append(" <NAME>");
            },
            CliError::UnknownSubcommand { name } => {
                m.append("unrecognized subcommand '");
                m.append(name.as_str());
                m.append("'");
            },
        }
        m.append("\n\nFor more information, try '--help'.\n");
        m
    }
}


/// The config path comes from `--config` first, then the positional path,
/// then `RALLY_CONFIG`, then `rally.toml`.
pub proof fn config_path_precedence(flag: Option<Seq<char>>, positional: Option<Seq<char>>, env: Option<Seq<char>>)
    ensures
        flag matches Some(f) ==> config_path_of(flag, positional, env) == f,
        flag is None ==> (positional matches Some(p) ==> config_path_of(flag, positional, env) == p),
        flag is None && positional is None ==> (env matches Some(e) ==> config_path_of(flag, positional, env) == e),
        flag is None && positional is None && env is None ==> config_path_of(flag, positional, env) == DEFAULT_CONFIG_PATH@,
{
}

proof fn lemma_control_words(w: Seq<Seq<char>>, c: ControlCommand, env: Option<Seq<char>>, version: Seq<char>)
    requires
        w.len() == 2,
        subcommand_of(w[0]) == Some(c),
        w[0].len() > 0 && w[0][0] != '-',
        w[0] != "help"@,
        !(w[1].len() > 1 && w[1][0] == '-'),
    ensures
        scan(w, 0, initial_scan_state(), env, version) == Ok::<CliOutcome, CliFault>(CliOutcome::Control {
            config_path: match env {
                Some(e) => e,
                None => DEFAULT_CONFIG_PATH@,
            },
            command: c,
            app_name: w[1],
        }),
{
    reveal_strlit("--");
    reveal_strlit("--help");
    let st = initial_scan_state();
    assert(w[0] != "--"@) by {
        assert("--"@[0] == '-');
    }
    assert(!is_long(w[0]) && !is_flag_like(w[0]));
    assert(w[1] != "--"@) by {
        if w[1] == "--"@ {
            assert(w[1].len() == 2 && w[1][0] == '-');
        }
    }
    assert(w[1] != "--help"@) by {
        if w[1] == "--help"@ {
            assert(w[1].len() == 6 && w[1][0] == '-');
        }
    }
    assert(!is_flag_like(w[1]));
    assert(sub_scan(w, 2, c, st, Some(w[1]), false, env) == finish(st, Some((c, w[1])), env));
    assert(sub_scan(w, 1, c, st, None, false, env) == sub_scan(w, 2, c, st, Some(w[1]), false, env));
    assert(scan(w, 0, st, env, version) == sub_scan(w, 1, c, st, None, false, env));
}

/// `rally WORD NAME`, with WORD one of the control subcommands and NAME not
/// an option, asks the running instance to apply exactly the command that
/// WORD names to the app NAME: `stop` stops, `start` starts, `restart`
/// restarts, `enable` enables and `disable` disables. The config path is
/// `RALLY_CONFIG` when set, else `rally.toml`.
#[verifier::spinoff_prover]
pub proof fn control_subcommand_carries_its_command(argv: Seq<String>, env: Option<Seq<char>>, version: Seq<char>)
    requires
        argv.len() == 3,
        !(argv[2]@.len() > 1 && argv[2]@[0] == '-'),
    ensures
        argv[1]@ == "start"@ ==> cli_outcome(argv, env, version) == Ok::<CliOutcome, CliFault>(CliOutcome::Control {
            config_path: match env { Some(e) => e, None => "rally.toml"@ },
            command: ControlCommand::Start,
            app_name: argv[2]@,
        }),
        argv[1]@ == "stop"@ ==> cli_outcome(argv, env, version) == Ok::<CliOutcome, CliFault>(CliOutcome::Control {
            config_path: match env { Some(e) => e, None => "rally.toml"@ },
            command: ControlCommand::Stop,
            app_name: argv[2]@,
        }),
        argv[1]@ == "restart"@ ==> cli_outcome(argv, env, version) == Ok::<CliOutcome, CliFault>(CliOutcome::Control {
            config_path: match env { Some(e) => e, None => "rally.toml"@ },
            command: ControlCommand::Restart,
            app_name: argv[2]@,
        }),
        argv[1]@ == "enable"@ ==> cli_outcome(argv, env, version) == Ok::<CliOutcome, CliFault>(CliOutcome::Control {
            config_path: match env { Some(e) => e, None => "rally.toml"@ },
            command: ControlCommand::Enable,
            app_name: argv[2]@,
        }),
        argv[1]@ == "disable"@ ==> cli_outcome(argv, env, version) == Ok::<CliOutcome, CliFault>(CliOutcome::Control {
            config_path: match env { Some(e) => e, None => "rally.toml"@ },
            command: ControlCommand::Disable,
            app_name: argv[2]@,
        }),
{
    reveal_strlit("start");
    reveal_strlit("stop");
    reveal_strlit("restart");
    reveal_strlit("enable");
    reveal_strlit("disable");
    reveal_strlit("help");
    reveal_strlit("rally.toml");
    let w = cli_words(argv);
    assert(w.len() == 2 && w[0] == argv[1]@ && w[1] == argv[2]@);
    let t = argv[1]@;
    if t == "start"@ {
        lemma_control_words(w, ControlCommand::Start, env, version);
    } else if t == "stop"@ {
        lemma_control_words(w, ControlCommand::Stop, env, version);
    } else if t == "restart"@ {
        lemma_control_words(w, ControlCommand::Restart, env, version);
    } else if t == "enable"@ {
        lemma_control_words(w, ControlCommand::Enable, env, version);
    } else if t == "disable"@ {
        assert(t.len() == 7 && t[0] == 'd');
        assert(t != "enable"@ && t != "restart"@ && t != "stop"@ && t != "start"@);
        assert(subcommand_of(t) == Some(ControlCommand::Disable));
        lemma_control_words(w, ControlCommand::Disable, env, version);
        assert(cli_outcome(argv, env, version) == scan(w, 0, initial_scan_state(), env, version));
    }
}

} // verus!
