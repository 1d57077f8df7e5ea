//! The configuration model of `rally.toml` and its resolution: the env
//! provider merged with the process environment, the shared `[env]` table,
//! each app's `[app.env]`, and `${VAR}` interpolation of every app and hook
//! field.
use vstd::prelude::*;
use crate::env_map::{EnvMap, pairs_map};
use crate::interpolate::{
    InterpFault, InterpolationError, interp_message, interpolate, interpolate_string, names, resolve_entries,
    resolve_env_map, resolve_entries_from, opens_at, plain_entry_resolves_to_itself, single_reference_is_replaced,
};

verus! {

/// How the env provider command prints its variables.
#[derive(Debug, Clone, Copy, PartialEq, Eq, Structural)]
pub enum EnvCommandFormat {
    /// A JSON object whose values are all strings.
    Json,
    /// Lines of `export NAME=VALUE`.
    Shell,
}

/// The optional `[env_command]` table: a command whose output seeds the environment.
#[derive(Debug, Clone)]
pub struct EnvCommandConfig {
    pub command: String,
    pub args: Vec<String>,
    pub format: EnvCommandFormat,
    pub timeout_ms: u64,
    pub workdir: Option<String>,
    pub override_existing: bool,
}

/// What the env provider command produced, as shown on the dashboard.
#[derive(Debug, Clone)]
pub struct EnvProviderInfo {
    pub status: String,
    pub command: String,
    pub format: EnvCommandFormat,
    pub override_existing: bool,
    pub key_count: usize,
    pub duration_ms: u64,
    /// When the provider ran, in milliseconds since the Unix epoch.
    pub loaded_at_millis: i64,
}

/// The variables the env provider command printed, with what is shown of the run.
#[derive(Debug)]
pub struct ProviderOutput {
    pub values: EnvMap,
    pub info: EnvProviderInfo,
}

/// A one-shot command hook that runs before or after an app lifecycle event.
#[derive(Debug, Clone)]
pub struct HookConfig {
    /// Path (or binary name if on $PATH) of the executable.
    pub command: String,
    /// Command-line arguments passed to the hook.
    pub args: Vec<String>,
    /// Optional working directory; defaults to the app working directory.
    pub workdir: Option<String>,
    /// Environment variables injected into the hook.
    pub env: EnvMap,
}

/// File watching rules for automatic restarts.
#[derive(Debug, Clone)]
pub struct WatchConfig {
    /// Extra files or directories to watch.
    pub paths: Vec<String>,
    /// Whether watched directories should be observed recursively.
    pub recursive: bool,
    /// Debounce window before a restart is triggered.
    pub debounce_millis: u64,
}

/// Per-application configuration entry.
#[derive(Debug, Clone)]
pub struct AppConfig {
    /// Unique display name for the application.
    pub name: String,
    /// Optional dashboard-friendly access string shown instead of the launch command.
    pub access: Option<String>,
    /// Optional cargo install target used when the command is not reachable.
    pub cargo: Option<String>,
    /// Whether the app is enabled at startup and after config reload (default: true).
    pub enabled: bool,
    /// Path (or binary name if on $PATH) of the executable.
    pub command: String,
    /// Optional working directory; defaults to the directory containing `rally.toml`.
    pub workdir: Option<String>,
    /// Command-line arguments passed to the process.
    pub args: Vec<String>,
    /// Environment variables injected into the process.
    pub env: EnvMap,
    /// Managed subset of the effective environment contributed by Rally config or env_command.
    pub managed_env: EnvMap,
    /// Other apps that must be started before this app.
    pub depends_on: Vec<String>,
    /// Commands to run before the process starts; any failure blocks startup.
    pub before: Vec<HookConfig>,
    /// Commands to run after the process exits or is stopped.
    pub after: Vec<HookConfig>,
    /// Optional watch settings used to restart this app when tracked files change.
    pub watch: Option<WatchConfig>,
    /// Optional HTTP health-check URL polled periodically.
    pub health_url: Option<String>,
    /// Health-check interval in seconds (default: 10).
    pub health_interval_secs: u64,
    /// Whether to automatically restart the process when it exits (default: false).
    pub restart_on_exit: bool,
    /// Number of lines of stdout/stderr to keep in memory per process (default: 500).
    pub log_lines: usize,
}

/// Embedded web-UI configuration.
#[derive(Debug, Clone)]
pub struct UiConfig {
    /// Address to listen on (default: "127.0.0.1").
    pub host: String,
    /// Port to listen on (default: 7700).
    pub port: u16,
}

/// Root configuration loaded from `rally.toml`.
#[derive(Debug, Clone)]
pub struct Config {
    pub env: EnvMap,
    pub app: Vec<AppConfig>,
    pub ui: UiConfig,
    pub env_command: Option<EnvCommandConfig>,
    pub env_provider_info: Option<EnvProviderInfo>,
}

/// Default UI listen address.
pub fn default_host() -> (s: String)
    ensures
        s@ == "127.0.0.1"@,
{
    String::from_str("127.0.0.1")
}

/// Default UI port.
pub fn default_port() -> (p: u16)
    ensures
        p == 7700,
{
    7700
}

/// Default health-check interval in seconds.
pub fn default_health_interval() -> (s: u64)
    ensures
        s == 10,
{
    10
}

/// Apps are enabled unless the config says otherwise.
pub fn default_enabled() -> (b: bool)
    ensures
        b,
{
    true
}

/// Default number of log lines kept per process.
pub fn default_log_lines() -> (n: usize)
    ensures
        n == 500,
{
    500
}

/// Watched directories are observed recursively unless the config says otherwise.
pub fn default_watch_recursive() -> (b: bool)
    ensures
        b,
{
    true
}

/// Default debounce window of a watch group, in milliseconds.
pub fn default_watch_debounce_millis() -> (n: u64)
    ensures
        n == 500,
{
    500
}

/// Default time limit of the env provider command, in milliseconds.
pub fn default_env_command_timeout_ms() -> (n: u64)
    ensures
        n == 5000,
{
    5000
}

impl Default for UiConfig {
    fn default() -> (ui: Self)
        ensures
            ui.host@ == "127.0.0.1"@,
            ui.port == 7700,
    {
        UiConfig { host: default_host(), port: default_port() }
    }
}

/// The base environment and the provider's own variables. Without a provider
/// the base is the process environment; with one, the provider's variables
/// and the process environment are merged, the provider winning where
/// `override_existing` is set and the process winning otherwise.
pub fn resolve_base_env(provider: &Option<ProviderOutput>, process_env: &EnvMap) -> (r: (EnvMap, EnvMap))
    ensures
        provider is None ==> r.0@ == process_env@ && r.1@ == Map::<Seq<char>, Seq<char>>::empty(),
        provider matches Some(out) ==> r.1@ == out.values@ && r.1.pairs() == out.values.pairs(),
        provider matches Some(out) ==> r.0@ == if out.info.override_existing {
            process_env@.union_prefer_right(out.values@)
        } else {
            out.values@.union_prefer_right(process_env@)
        },
{
    match provider {
        None => (process_env.clone(), EnvMap::new()),
        Some(out) => {
            let mut base = if out.info.override_existing {
                process_env.clone()
            } else {
                out.values.clone()
            };
            if out.info.override_existing {
                base.extend(&out.values);
            } else {
                base.extend(process_env);
            }
            (base, out.values.clone())
        },
    }
}


/// The part of `effective` that Rally manages: the variables that the
/// provider, the shared `[env]` table or the app's own table define.
pub fn build_managed_env(effective: &EnvMap, provider_env: &EnvMap, shared_env: &EnvMap, app_env: &EnvMap) -> (managed: EnvMap)
    ensures
        managed@ == effective@.restrict(provider_env@.dom() + shared_env@.dom() + app_env@.dom()),
{
    let mut managed = EnvMap::new();
    proof {
        use_type_invariant(provider_env);
        use_type_invariant(shared_env);
        use_type_invariant(app_env);
        provider_env.lemma_view();
        shared_env.lemma_view();
        app_env.lemma_view();
    }
    add_managed(&mut managed, effective, provider_env);
    add_managed(&mut managed, effective, shared_env);
    add_managed(&mut managed, effective, app_env);
    proof {
        assert(managed@ =~= effective@.restrict(provider_env@.dom() + shared_env@.dom() + app_env@.dom()));
    }
    managed
}

/// Copies into `managed` the value `effective` gives each name of `source`, where it gives one.
fn add_managed(managed: &mut EnvMap, effective: &EnvMap, source: &EnvMap)
    ensures
        final(managed)@ == old(managed)@.union_prefer_right(effective@.restrict(source@.dom())),
{
    proof {
        use_type_invariant(source);
        source.lemma_view();
    }
    let mut i: usize = 0;
    assert(old(managed)@ =~= old(managed)@.union_prefer_right(
        effective@.restrict(pairs_map(source.pairs().take(0)).dom()),
    ));
    while i < source.len()
        invariant
            i <= source.pairs().len(),
            source@ == pairs_map(source.pairs()),
            managed@ == old(managed)@.union_prefer_right(
                effective@.restrict(pairs_map(source.pairs().take(i as int)).dom()),
            ),
        decreases source.pairs().len() - i,
    {
        let key = source.key_at(i);
        let ghost before = managed@;
        assert(source.pairs().take(i + 1).drop_last() =~= source.pairs().take(i as int));
        match effective.get(key.as_str()) {
            Some(value) => {
                managed.insert(key.clone(), value.clone());
            },
            None => {},
        }
        assert(managed@ =~= old(managed)@.union_prefer_right(
            effective@.restrict(pairs_map(source.pairs().take(i + 1)).dom()),
        ));
        i = i + 1;
    }
    assert(source.pairs().take(i as int) =~= source.pairs());
}


/// The field whose resolution failed.
#[derive(Debug, Clone, Copy, PartialEq, Eq, Structural)]
pub enum ResolveStep {
    SharedEnv,
    AppEnv,
    AppName,
    Access,
    Cargo,
    Command,
    Argument,
    Workdir,
    HealthUrl,
    HookEnv,
    HookCommand,
    HookArg,
    HookWorkdir,
    WatchPath,
}

/// Which list of hooks a hook belongs to.
#[derive(Debug, Clone, Copy, PartialEq, Eq, Structural)]
pub enum HookPhase {
    Before,
    After,
}

/// Why resolving a config failed, over character sequences.
pub struct ConfigFault {
    pub step: ResolveStep,
    pub phase: Option<HookPhase>,
    /// The app the message names (empty for the shared table and an app's name).
    pub app: Seq<char>,
    pub cause: InterpFault,
}

/// Why resolving a config failed: the field, and the interpolation failure in it.
#[derive(Debug)]
pub struct ConfigError {
    pub step: ResolveStep,
    pub phase: Option<HookPhase>,
    /// The app the message names (empty for the shared table and an app's name).
    pub app: String,
    pub cause: InterpolationError,
}

impl ConfigError {
    /// The failure this error reports.
    pub open spec fn fault(&self) -> ConfigFault {
        ConfigFault { step: self.step, phase: self.phase, app: self.app@, cause: self.cause.fault() }
    }
}

/// A hook after resolution, over character sequences.
pub struct HookView {
    pub command: Seq<char>,
    pub args: Seq<Seq<char>>,
    pub workdir: Option<Seq<char>>,
    pub env: Seq<(Seq<char>, Seq<char>)>,
}

impl HookConfig {
    /// This hook's fields, over character sequences.
    pub open spec fn view(&self) -> HookView {
        HookView {
            command: self.command@,
            args: names(self.args@),
            workdir: opt_view(self.workdir),
            env: self.env.pairs(),
        }
    }
}

/// The characters of an optional string.
pub open spec fn opt_view(o: Option<String>) -> Option<Seq<char>> {
    match o {
        Some(s) => Some(s@),
        None => None,
    }
}

/// Interpolation of an optional template.
pub open spec fn interp_opt(o: Option<Seq<char>>, scope: Map<Seq<char>, Seq<char>>) -> Result<Option<Seq<char>>, InterpFault> {
    match o {
        None => Ok(None),
        Some(t) => match interpolate(t, scope) {
            Ok(v) => Ok(Some(v)),
            Err(f) => Err(f),
        },
    }
}

/// Interpolation of the templates of `s` from index `from` on; the first failure decides.
pub open spec fn interp_list_from(s: Seq<Seq<char>>, scope: Map<Seq<char>, Seq<char>>, from: int) -> Result<Seq<Seq<char>>, InterpFault>
    decreases s.len() - from,
{
    if from < 0 || from >= s.len() {
        Ok(seq![])
    } else {
        match interpolate(s[from], scope) {
            Err(f) => Err(f),
            Ok(v) => match interp_list_from(s, scope, from + 1) {
                Ok(rest) => Ok(seq![v] + rest),
                Err(f) => Err(f),
            },
        }
    }
}

/// Interpolation of every template of `s`, in order.
pub open spec fn interp_list(s: Seq<Seq<char>>, scope: Map<Seq<char>, Seq<char>>) -> Result<Seq<Seq<char>>, InterpFault> {
    interp_list_from(s, scope, 0)
}

/// Interpolates an optional template.
pub fn interpolate_opt(o: &Option<String>, scope: &EnvMap) -> (r: Result<Option<String>, InterpolationError>)
    ensures
        r matches Ok(v) ==> interp_opt(opt_view(*o), scope@) == Ok::<Option<Seq<char>>, InterpFault>(opt_view(v)),
        r matches Err(e) ==> interp_opt(opt_view(*o), scope@) == Err::<Option<Seq<char>>, InterpFault>(e.fault()),
{
    match o {
        None => Ok(None),
        Some(t) => match interpolate_string(t, scope) {
            Ok(v) => Ok(Some(v)),
            Err(e) => Err(e),
        },
    }
}

/// Interpolates every template of `v`, in order.
pub fn interpolate_list(v: &Vec<String>, scope: &EnvMap) -> (r: Result<Vec<String>, InterpolationError>)
    ensures
        r matches Ok(out) ==> interp_list(names(v@), scope@) == Ok::<Seq<Seq<char>>, InterpFault>(names(out@)),
        r matches Err(e) ==> interp_list(names(v@), scope@) == Err::<Seq<Seq<char>>, InterpFault>(e.fault()),
{
    let ghost s = names(v@);
    let mut out: Vec<String> = Vec::new();
    let mut i: usize = 0;
    proof {
        match interp_list_from(s, scope@, 0) {
            Ok(x) => {
                assert(names(out@) + x =~= x);
            },
            Err(_) => {},
        }
    }
    while i < v.len()
        invariant
            i <= v@.len(),
            s == names(v@),
            interp_list(s, scope@) == match interp_list_from(s, scope@, i as int) {
                Ok(x) => Ok(names(out@) + x),
                Err(f) => Err::<Seq<Seq<char>>, InterpFault>(f),
            },
        decreases v@.len() - i,
    {
        let ghost before = names(out@);
        match interpolate_string(&v[i], scope) {
            Ok(x) => {
                out.push(x);
                assert(names(out@) =~= before.push(x@));
                proof {
                    match interp_list_from(s, scope@, i + 1) {
                        Ok(rest) => {
                            assert(before + (seq![x@] + rest) =~= names(out@) + rest);
                        },
                        Err(_) => {},
                    }
                }
            },
            Err(e) => {
                return Err(e);
            },
        }
        i = i + 1;
    }
    assert(names(out@) + seq![] =~= names(out@));
    Ok(out)
}

/// Resolution of one hook in the app scope `scope`: its env table over the
/// scope, then command, args and workdir over the scope with that table on top.
pub open spec fn hook_outcome(h: HookConfig, scope: Map<Seq<char>, Seq<char>>) -> Result<HookView, (ResolveStep, InterpFault)> {
    match resolve_entries(h.env.pairs(), scope) {
        Err(f) => Err((ResolveStep::HookEnv, f)),
        Ok(env) => {
            let s2 = scope.union_prefer_right(pairs_map(env));
            match interpolate(h.command@, s2) {
                Err(f) => Err((ResolveStep::HookCommand, f)),
                Ok(command) => match interp_list(names(h.args@), s2) {
                    Err(f) => Err((ResolveStep::HookArg, f)),
                    Ok(args) => match interp_opt(opt_view(h.workdir), s2) {
                        Err(f) => Err((ResolveStep::HookWorkdir, f)),
                        Ok(workdir) => Ok(HookView { command, args, workdir, env }),
                    },
                },
            }
        },
    }
}

/// The fault of a hook step, for the app named `app` in phase `phase`.
pub open spec fn hook_fault(phase: HookPhase, app: Seq<char>, e: (ResolveStep, InterpFault)) -> ConfigFault {
    ConfigFault { step: e.0, phase: Some(phase), app, cause: e.1 }
}

/// Resolves one hook of the app named `app_name` in the app scope.
pub fn interpolate_hook(hook: &HookConfig, app_scope: &EnvMap, app_name: &String, phase: HookPhase) -> (r: Result<HookConfig, ConfigError>)
    ensures
        r matches Ok(h) ==> hook_outcome(*hook, app_scope@) == Ok::<HookView, (ResolveStep, InterpFault)>(h.view()),
        r matches Err(e) ==> hook_outcome(*hook, app_scope@) matches Err(f) && e.fault() == hook_fault(phase, app_name@, f),
{
    let resolved_env = match resolve_env_map(&hook.env, app_scope) {
        Ok(m) => m,
        Err(cause) => {
            return Err(ConfigError { step: ResolveStep::HookEnv, phase: Some(phase), app: app_name.clone(), cause });
        },
    };
    let mut scope = app_scope.clone();
    scope.extend(&resolved_env);
    proof {
        use_type_invariant(&resolved_env);
        resolved_env.lemma_view();
    }
    let command = match interpolate_string(&hook.command, &scope) {
        Ok(v) => v,
        Err(cause) => {
            return Err(ConfigError { step: ResolveStep::HookCommand, phase: Some(phase), app: app_name.clone(), cause });
        },
    };
    let args = match interpolate_list(&hook.args, &scope) {
        Ok(v) => v,
        Err(cause) => {
            return Err(ConfigError { step: ResolveStep::HookArg, phase: Some(phase), app: app_name.clone(), cause });
        },
    };
    let workdir = match interpolate_opt(&hook.workdir, &scope) {
        Ok(v) => v,
        Err(cause) => {
            return Err(ConfigError { step: ResolveStep::HookWorkdir, phase: Some(phase), app: app_name.clone(), cause });
        },
    };
    Ok(HookConfig { command, args, workdir, env: resolved_env })
}


/// Resolution of the hooks of `hs` from index `from` on; the first failure decides.
pub open spec fn hooks_from(hs: Seq<HookConfig>, scope: Map<Seq<char>, Seq<char>>, from: int) -> Result<Seq<HookView>, (ResolveStep, InterpFault)>
    decreases hs.len() - from,
{
    if from < 0 || from >= hs.len() {
        Ok(seq![])
    } else {
        match hook_outcome(hs[from], scope) {
            Err(f) => Err(f),
            Ok(h) => match hooks_from(hs, scope, from + 1) {
                Ok(rest) => Ok(seq![h] + rest),
                Err(f) => Err(f),
            },
        }
    }
}

/// The views of a list of hooks.
pub open spec fn hook_views(hs: Seq<HookConfig>) -> Seq<HookView> {
    hs.map_values(|h: HookConfig| h.view())
}

/// Resolves every hook of `hooks` in order.
pub fn interpolate_hooks(hooks: &Vec<HookConfig>, app_scope: &EnvMap, app_name: &String, phase: HookPhase) -> (r: Result<Vec<HookConfig>, ConfigError>)
    ensures
        r matches Ok(hs) ==> hooks_from(hooks@, app_scope@, 0) == Ok::<Seq<HookView>, (ResolveStep, InterpFault)>(hook_views(hs@)),
        r matches Err(e) ==> hooks_from(hooks@, app_scope@, 0) matches Err(f) && e.fault() == hook_fault(phase, app_name@, f),
{
    let mut out: Vec<HookConfig> = Vec::new();
    let mut i: usize = 0;
    proof {
        match hooks_from(hooks@, app_scope@, 0) {
            Ok(x) => {
                assert(hook_views(out@) + x =~= x);
            },
            Err(_) => {},
        }
    }
    while i < hooks.len()
        invariant
            i <= hooks@.len(),
            hooks_from(hooks@, app_scope@, 0) == match hooks_from(hooks@, app_scope@, i as int) {
                Ok(x) => Ok(hook_views(out@) + x),
                Err(f) => Err::<Seq<HookView>, (ResolveStep, InterpFault)>(f),
            },
        decreases hooks@.len() - i,
    {
        let ghost before = hook_views(out@);
        match interpolate_hook(&hooks[i], app_scope, app_name, phase) {
            Ok(h) => {
                out.push(h);
                assert(hook_views(out@) =~= before.push(h.view()));
                proof {
                    match hooks_from(hooks@, app_scope@, i + 1) {
                        Ok(rest) => {
                            assert(before + (seq![h.view()] + rest) =~= hook_views(out@) + rest);
                        },
                        Err(_) => {},
                    }
                }
            },
            Err(e) => {
                return Err(e);
            },
        }
        i = i + 1;
    }
    assert(hook_views(out@) + seq![] =~= hook_views(out@));
    Ok(out)
}

/// An app after resolution, over character sequences.
pub struct AppView {
    pub name: Seq<char>,
    pub access: Option<Seq<char>>,
    pub cargo: Option<Seq<char>>,
    pub command: Seq<char>,
    pub args: Seq<Seq<char>>,
    pub workdir: Option<Seq<char>>,
    pub health_url: Option<Seq<char>>,
    pub env: Map<Seq<char>, Seq<char>>,
    pub managed_env: Map<Seq<char>, Seq<char>>,
    pub before: Seq<HookView>,
    pub after: Seq<HookView>,
    pub watch_paths: Option<Seq<Seq<char>>>,
}

impl AppConfig {
    /// The fields of this app that resolution computes, over character sequences.
    pub open spec fn resolved_view(&self) -> AppView {
        AppView {
            name: self.name@,
            access: opt_view(self.access),
            cargo: opt_view(self.cargo),
            command: self.command@,
            args: names(self.args@),
            workdir: opt_view(self.workdir),
            health_url: opt_view(self.health_url),
            env: self.env@,
            managed_env: self.managed_env@,
            before: hook_views(self.before@),
            after: hook_views(self.after@),
            watch_paths: match self.watch {
                Some(w) => Some(names(w.paths@)),
                None => None,
            },
        }
    }

    /// The settings that resolution leaves as they are.
    pub open spec fn keeps_settings_of(&self, old: AppConfig) -> bool {
        &&& self.enabled == old.enabled
        &&& names(self.depends_on@) == names(old.depends_on@)
        &&& self.health_interval_secs == old.health_interval_secs
        &&& self.restart_on_exit == old.restart_on_exit
        &&& self.log_lines == old.log_lines
        &&& self.watch is Some == old.watch is Some
        &&& (self.watch matches Some(w) ==> old.watch matches Some(ow) && w.recursive == ow.recursive
            && w.debounce_millis == ow.debounce_millis)
    }
}

/// A fault of an app-level step.
pub open spec fn app_fault(step: ResolveStep, app: Seq<char>, cause: InterpFault) -> ConfigFault {
    ConfigFault { step, phase: None, app, cause }
}

/// Interpolation of the app fields after the name, in the app scope, for the app named `n`.
#[verifier::opaque]
pub open spec fn app_fields_outcome(a: AppConfig, effective: Map<Seq<char>, Seq<char>>, managed: Map<Seq<char>, Seq<char>>, n: Seq<char>) -> Result<AppView, ConfigFault> {
    match interp_opt(opt_view(a.access), effective) {
        Err(f) => Err(app_fault(ResolveStep::Access, n, f)),
        Ok(access) => match interp_opt(opt_view(a.cargo), effective) {
            Err(f) => Err(app_fault(ResolveStep::Cargo, n, f)),
            Ok(cargo) => match interpolate(a.command@, effective) {
                Err(f) => Err(app_fault(ResolveStep::Command, n, f)),
                Ok(command) => match interp_list(names(a.args@), effective) {
                    Err(f) => Err(app_fault(ResolveStep::Argument, n, f)),
                    Ok(args) => match interp_opt(opt_view(a.workdir), effective) {
                        Err(f) => Err(app_fault(ResolveStep::Workdir, n, f)),
                        Ok(workdir) => match interp_opt(opt_view(a.health_url), effective) {
                            Err(f) => Err(app_fault(ResolveStep::HealthUrl, n, f)),
                            Ok(health_url) => match hooks_from(a.before@, effective, 0) {
                                Err(f) => Err(hook_fault(HookPhase::Before, n, f)),
                                Ok(before) => match hooks_from(a.after@, effective, 0) {
                                    Err(f) => Err(hook_fault(HookPhase::After, n, f)),
                                    Ok(after) => match a.watch {
                                        None => Ok(AppView { name: n, access, cargo, command, args, workdir, health_url, env: effective, managed_env: managed, before, after, watch_paths: None }),
                                        Some(w) => match interp_list(names(w.paths@), effective) {
                                            Err(f) => Err(app_fault(ResolveStep::WatchPath, n, f)),
                                            Ok(paths) => Ok(AppView { name: n, access, cargo, command, args, workdir, health_url, env: effective, managed_env: managed, before, after, watch_paths: Some(paths) }),
                                        },
                                    },
                                },
                            },
                        },
                    },
                },
            },
        },
    }
}

/// Resolution of one app: its env table over the base and shared
/// environments, its effective and managed environments, then each field
/// interpolated in the effective environment, in declaration order.
#[verifier::opaque]
pub open spec fn app_outcome(a: AppConfig, base: Map<Seq<char>, Seq<char>>, provider: Map<Seq<char>, Seq<char>>, shared: Map<Seq<char>, Seq<char>>) -> Result<AppView, ConfigFault> {
    match resolve_entries(a.env.pairs(), base.union_prefer_right(shared)) {
        Err(f) => Err(app_fault(ResolveStep::AppEnv, a.name@, f)),
        Ok(res) => {
            let own = pairs_map(res);
            let effective = base.union_prefer_right(shared).union_prefer_right(own);
            let managed = effective.restrict(provider.dom() + shared.dom() + own.dom());
            match interpolate(a.name@, effective) {
                Err(f) => Err(app_fault(ResolveStep::AppName, seq![], f)),
                Ok(n) => app_fields_outcome(a, effective, managed, n),
            }
        },
    }
}

/// Resolves one app (see `app_outcome`).
pub fn resolve_app(app: &AppConfig, base: &EnvMap, provider_env: &EnvMap, shared_env: &EnvMap) -> (r: Result<AppConfig, ConfigError>)
    ensures
        r matches Ok(a) ==> app_outcome(*app, base@, provider_env@, shared_env@) == Ok::<AppView, ConfigFault>(a.resolved_view())
            && a.keeps_settings_of(*app),
        r matches Err(e) ==> app_outcome(*app, base@, provider_env@, shared_env@) == Err::<AppView, ConfigFault>(e.fault()),
{
    reveal(app_outcome);
    reveal(app_fields_outcome);
    let mut shared_scope = base.clone();
    shared_scope.extend(shared_env);
    let resolved_env = match resolve_env_map(&app.env, &shared_scope) {
        Ok(m) => m,
        Err(cause) => {
            return Err(ConfigError { step: ResolveStep::AppEnv, phase: None, app: app.name.clone(), cause });
        },
    };
    proof {
        use_type_invariant(&resolved_env);
        resolved_env.lemma_view();
    }
    let mut effective = base.clone();
    effective.extend(shared_env);
    effective.extend(&resolved_env);
    let managed_env = build_managed_env(&effective, provider_env, shared_env, &resolved_env);
    let name = match interpolate_string(&app.name, &effective) {
        Ok(v) => v,
        Err(cause) => {
            return Err(ConfigError { step: ResolveStep::AppName, phase: None, app: String::new(), cause });
        },
    };
    let access = match interpolate_opt(&app.access, &effective) {
        Ok(v) => v,
        Err(cause) => {
            return Err(ConfigError { step: ResolveStep::Access, phase: None, app: name, cause });
        },
    };
    let cargo = match interpolate_opt(&app.cargo, &effective) {
        Ok(v) => v,
        Err(cause) => {
            return Err(ConfigError { step: ResolveStep::Cargo, phase: None, app: name, cause });
        },
    };
    let command = match interpolate_string(&app.command, &effective) {
        Ok(v) => v,
        Err(cause) => {
            return Err(ConfigError { step: ResolveStep::Command, phase: None, app: name, cause });
        },
    };
    let args = match interpolate_list(&app.args, &effective) {
        Ok(v) => v,
        Err(cause) => {
            return Err(ConfigError { step: ResolveStep::Argument, phase: None, app: name, cause });
        },
    };
    let workdir = match interpolate_opt(&app.workdir, &effective) {
        Ok(v) => v,
        Err(cause) => {
            return Err(ConfigError { step: ResolveStep::Workdir, phase: None, app: name, cause });
        },
    };
    let health_url = match interpolate_opt(&app.health_url, &effective) {
        Ok(v) => v,
        Err(cause) => {
            return Err(ConfigError { step: ResolveStep::HealthUrl, phase: None, app: name, cause });
        },
    };
    let before = match interpolate_hooks(&app.before, &effective, &name, HookPhase::Before) {
        Ok(v) => v,
        Err(e) => {
            return Err(e);
        },
    };
    let after = match interpolate_hooks(&app.after, &effective, &name, HookPhase::After) {
        Ok(v) => v,
        Err(e) => {
            return Err(e);
        },
    };
    let watch = match &app.watch {
        None => None,
        Some(w) => match interpolate_list(&w.paths, &effective) {
            Ok(paths) => Some(WatchConfig { paths, recursive: w.recursive, debounce_millis: w.debounce_millis }),
            Err(cause) => {
                return Err(ConfigError { step: ResolveStep::WatchPath, phase: None, app: name, cause });
            },
        },
    };
    let depends_on = copy_strings(&app.depends_on);
    Ok(AppConfig {
        name,
        access,
        cargo,
        enabled: app.enabled,
        command,
        workdir,
        args,
        env: effective,
        managed_env,
        depends_on,
        before,
        after,
        watch,
        health_url,
        health_interval_secs: app.health_interval_secs,
        restart_on_exit: app.restart_on_exit,
        log_lines: app.log_lines,
    })
}

/// A copy of a list of strings.
pub fn copy_strings(v: &Vec<String>) -> (r: Vec<String>)
    ensures
        names(r@) == names(v@),
{
    let mut r: Vec<String> = Vec::new();
    let mut i: usize = 0;
    while i < v.len()
        invariant
            i <= v@.len(),
            r@.len() == i,
            forall|j: int| 0 <= j < i ==> #[trigger] r@[j]@ == v@[j]@,
        decreases v@.len() - i,
    {
        r.push(v[i].clone());
        i = i + 1;
    }
    assert(names(r@) =~= names(v@));
    r
}


/// Resolution of the apps of `apps` from index `from` on; the first failure decides.
pub open spec fn apps_from(
    apps: Seq<AppConfig>,
    base: Map<Seq<char>, Seq<char>>,
    provider: Map<Seq<char>, Seq<char>>,
    shared: Map<Seq<char>, Seq<char>>,
    from: int,
) -> Result<Seq<AppView>, ConfigFault>
    decreases apps.len() - from,
{
    if from < 0 || from >= apps.len() {
        Ok(seq![])
    } else {
        match app_outcome(apps[from], base, provider, shared) {
            Err(f) => Err(f),
            Ok(a) => match apps_from(apps, base, provider, shared, from + 1) {
                Ok(rest) => Ok(seq![a] + rest),
                Err(f) => Err(f),
            },
        }
    }
}

/// The resolved views of a list of apps.
pub open spec fn app_views(apps: Seq<AppConfig>) -> Seq<AppView> {
    apps.map_values(|a: AppConfig| a.resolved_view())
}

/// The base environment that `resolve_base_env` builds.
pub open spec fn base_env_of(provider: Option<ProviderOutput>, process_env: Map<Seq<char>, Seq<char>>) -> Map<Seq<char>, Seq<char>> {
    match provider {
        None => process_env,
        Some(out) => if out.info.override_existing {
            process_env.union_prefer_right(out.values@)
        } else {
            out.values@.union_prefer_right(process_env)
        },
    }
}

/// The provider's own variables (none without a provider).
pub open spec fn provider_env_of(provider: Option<ProviderOutput>) -> Map<Seq<char>, Seq<char>> {
    match provider {
        None => Map::empty(),
        Some(out) => out.values@,
    }
}

/// Resolution of a whole config over the base environment: the shared
/// `[env]` table first, then every app in order.
pub open spec fn config_outcome(
    c: Config,
    base: Map<Seq<char>, Seq<char>>,
    provider: Map<Seq<char>, Seq<char>>,
) -> Result<(Seq<(Seq<char>, Seq<char>)>, Seq<AppView>), ConfigFault> {
    match resolve_entries(c.env.pairs(), base) {
        Err(f) => Err(ConfigFault { step: ResolveStep::SharedEnv, phase: None, app: seq![], cause: f }),
        Ok(shared) => match apps_from(c.app@, base, provider, pairs_map(shared), 0) {
            Err(f) => Err(f),
            Ok(apps) => Ok((shared, apps)),
        },
    }
}

/// Resolves a parsed config: merges the provider's variables (if the config
/// has an env provider, `provider` is what it printed) with the process
/// environment, resolves the shared table and then every app.
pub fn resolve_config(config: Config, provider: Option<ProviderOutput>, process_env: &EnvMap) -> (r: Result<Config, ConfigError>)
    ensures
        r matches Ok(c) ==> {
            &&& config_outcome(config, base_env_of(provider, process_env@), provider_env_of(provider))
                == Ok::<(Seq<(Seq<char>, Seq<char>)>, Seq<AppView>), ConfigFault>((c.env.pairs(), app_views(c.app@)))
            &&& c.app@.len() == config.app@.len()
            &&& forall|i: int| 0 <= i < c.app@.len() ==> #[trigger] c.app@[i].keeps_settings_of(config.app@[i])
            &&& c.ui == config.ui
            &&& c.env_command == config.env_command
            &&& c.env_provider_info == match provider {
                Some(out) => Some(out.info),
                None => None::<EnvProviderInfo>,
            }
        },
        r matches Err(e) ==> config_outcome(config, base_env_of(provider, process_env@), provider_env_of(provider))
            == Err::<(Seq<(Seq<char>, Seq<char>)>, Seq<AppView>), ConfigFault>(e.fault()),
{
    let (base_env, provider_env) = resolve_base_env(&provider, process_env);
    let ghost base = base_env@;
    let ghost prov = provider_env@;
    let Config { env, app, ui, env_command, env_provider_info: _ } = config;
    let shared_env = match resolve_env_map(&env, &base_env) {
        Ok(m) => m,
        Err(cause) => {
            return Err(ConfigError { step: ResolveStep::SharedEnv, phase: None, app: String::new(), cause });
        },
    };
    proof {
        use_type_invariant(&shared_env);
        shared_env.lemma_view();
    }
    let mut apps: Vec<AppConfig> = Vec::new();
    let mut i: usize = 0;
    proof {
        match apps_from(app@, base, prov, shared_env@, 0) {
            Ok(x) => {
                assert(app_views(apps@) + x =~= x);
            },
            Err(_) => {},
        }
    }
    while i < app.len()
        invariant
            i <= app@.len(),
            apps@.len() == i,
            forall|j: int| 0 <= j < i ==> #[trigger] apps@[j].keeps_settings_of(app@[j]),
            base == base_env@,
            prov == provider_env@,
            base == base_env_of(provider, process_env@),
            prov == provider_env_of(provider),
            app == config.app,
            env == config.env,
            resolve_entries(env.pairs(), base) == Ok::<Seq<(Seq<char>, Seq<char>)>, InterpFault>(shared_env.pairs()),
            shared_env@ == pairs_map(shared_env.pairs()),
            apps_from(app@, base, prov, shared_env@, 0) == match apps_from(app@, base, prov, shared_env@, i as int) {
                Ok(x) => Ok(app_views(apps@) + x),
                Err(f) => Err::<Seq<AppView>, ConfigFault>(f),
            },
        decreases app@.len() - i,
    {
        let ghost before = app_views(apps@);
        match resolve_app(&app[i], &base_env, &provider_env, &shared_env) {
            Ok(a) => {
                apps.push(a);
                assert(app_views(apps@) =~= before.push(a.resolved_view()));
                proof {
                    match apps_from(app@, base, prov, shared_env@, i + 1) {
                        Ok(rest) => {
                            assert(before + (seq![a.resolved_view()] + rest) =~= app_views(apps@) + rest);
                        },
                        Err(_) => {},
                    }
                }
            },
            Err(e) => {
                return Err(e);
            },
        }
        i = i + 1;
    }
    assert(app_views(apps@) + seq![] =~= app_views(apps@));
    let env_provider_info = match provider {
        Some(out) => Some(out.info),
        None => None,
    };
    Ok(Config { env: shared_env, app: apps, ui, env_command, env_provider_info })
}


/// The word of a hook phase.
pub open spec fn phase_word(p: Option<HookPhase>) -> Seq<char> {
    match p {
        Some(HookPhase::Before) => "before"@,
        Some(HookPhase::After) => "after"@,
        None => ""@,
    }
}

/// What was being resolved when a config failed to resolve.
pub open spec fn resolve_context(step: ResolveStep, phase: Option<HookPhase>, app: Seq<char>) -> Seq<char> {
    match step {
        ResolveStep::SharedEnv => "Failed to resolve shared env"@,
        ResolveStep::AppEnv => "Failed to resolve env for app "@ + app,
        ResolveStep::AppName => "Failed to resolve app name"@,
        ResolveStep::Access => "Failed to resolve access for app "@ + app,
        ResolveStep::Cargo => "Failed to resolve cargo target for app "@ + app,
        ResolveStep::Command => "Failed to resolve command for app "@ + app,
        ResolveStep::Argument => "Failed to resolve argument for app "@ + app,
        ResolveStep::Workdir => "Failed to resolve workdir for app "@ + app,
        ResolveStep::HealthUrl => "Failed to resolve health_url for app "@ + app,
        ResolveStep::HookEnv => "Failed to resolve "@ + phase_word(phase) + " hook env for app "@ + app,
        ResolveStep::HookCommand => "Failed to resolve "@ + phase_word(phase) + " hook command for app "@ + app,
        ResolveStep::HookArg => "Failed to resolve "@ + phase_word(phase) + " hook arg for app "@ + app,
        ResolveStep::HookWorkdir => "Failed to resolve "@ + phase_word(phase) + " hook workdir for app "@ + app,
        ResolveStep::WatchPath => "Failed to resolve watch path for app "@ + app,
    }
}

/// The message of a config that failed to resolve: what was being resolved,
/// then the interpolation failure.
pub open spec fn config_message(f: ConfigFault) -> Seq<char> {
    resolve_context(f.step, f.phase, f.app) + ": "@ + interp_message(f.cause)
}

/// The word of a hook phase.
fn push_phase(m: &mut String, p: Option<HookPhase>)
    ensures
        final(m)@ == old(m)@ + phase_word(p),
{
    match p {
        Some(HookPhase::Before) => m.append("before"),
        Some(HookPhase::After) => m.append("after"),
        None => m.append(""),
    }
}

impl ConfigError {
    /// The message of this error: the context, `: `, and the cause.
    pub fn message(&self) -> (m: String)
        ensures
            m@ == config_message(self.fault()),
    {
        let mut m = String::from_str("Failed to resolve ");
        match self.step {
            ResolveStep::SharedEnv => m.append("shared env"),
            ResolveStep::AppEnv => {
                m.append("env for app ");
                m.append(self.app.as_str());
            },
            ResolveStep::AppName => m.append("app name"),
            ResolveStep::Access => {
                m.append("access for app ");
                m.append(self.app.as_str());
            },
            ResolveStep::Cargo => {
                m.append("cargo target for app ");
                m.append(self.app.as_str());
            },
            ResolveStep::Command => {
                m.append("command for app ");
                m.append(self.app.as_str());
            },
            ResolveStep::Argument => {
                m.append("argument for app ");
                m.append(self.app.as_str());
            },
            ResolveStep::Workdir => {
                m.append("workdir for app ");
                m.append(self.app.as_str());
            },
            ResolveStep::HealthUrl => {
                m.append("health_url for app ");
                m.append(self.app.as_str());
            },
            ResolveStep::HookEnv => {
                push_phase(&mut m, self.phase);
                m.append(" hook env for app ");
                m.append(self.app.as_str());
            },
            ResolveStep::HookCommand => {
                push_phase(&mut m, self.phase);
                m.append(" hook command for app ");
                m.append(self.app.as_str());
            },
            ResolveStep::HookArg => {
                push_phase(&mut m, self.phase);
                m.append(" hook arg for app ");
                m.append(self.app.as_str());
            },
            ResolveStep::HookWorkdir => {
                push_phase(&mut m, self.phase);
                m.append(" hook workdir for app ");
                m.append(self.app.as_str());
            },
            ResolveStep::WatchPath => {
                m.append("watch path for app ");
                m.append(self.app.as_str());
            },
        }
        proof {
            reveal_strlit("Failed to resolve ");
            reveal_strlit("shared env");
            reveal_strlit("Failed to resolve shared env");
            reveal_strlit("env for app ");
            reveal_strlit("Failed to resolve env for app ");
            reveal_strlit("app name");
            reveal_strlit("Failed to resolve app name");
            reveal_strlit("access for app ");
            reveal_strlit("Failed to resolve access for app ");
            reveal_strlit("cargo target for app ");
            reveal_strlit("Failed to resolve cargo target for app ");
            reveal_strlit("command for app ");
            reveal_strlit("Failed to resolve command for app ");
            reveal_strlit("argument for app ");
            reveal_strlit("Failed to resolve argument for app ");
            reveal_strlit("workdir for app ");
            reveal_strlit("Failed to resolve workdir for app ");
            reveal_strlit("health_url for app ");
            reveal_strlit("Failed to resolve health_url for app ");
            reveal_strlit("watch path for app ");
            reveal_strlit("Failed to resolve watch path for app ");
        }
        assert(m@ =~= resolve_context(self.step, self.phase, self.app@));
        m.append(": ");
        let cause = self.cause.message();
        m.append(cause.as_str());
        m
    }
}


proof fn lemma_fields_keep_env(a: AppConfig, effective: Map<Seq<char>, Seq<char>>, managed: Map<Seq<char>, Seq<char>>, n: Seq<char>)
    ensures
        app_fields_outcome(a, effective, managed, n) matches Ok(v) ==> v.env == effective && v.managed_env == managed && v.name == n,
{
    reveal(app_fields_outcome);
}

proof fn lemma_apps_from(
    apps: Seq<AppConfig>,
    base: Map<Seq<char>, Seq<char>>,
    provider: Map<Seq<char>, Seq<char>>,
    shared: Map<Seq<char>, Seq<char>>,
    from: int,
)
    requires
        0 <= from <= apps.len(),
        apps_from(apps, base, provider, shared, from) is Ok,
    ensures
        apps_from(apps, base, provider, shared, from)->Ok_0.len() == apps.len() - from,
        forall|i: int| from <= i < apps.len() ==> #[trigger] app_outcome(apps[i], base, provider, shared)
            == Ok::<AppView, ConfigFault>(apps_from(apps, base, provider, shared, from)->Ok_0[i - from]),
    decreases apps.len() - from,
{
    if from < apps.len() {
        lemma_apps_from(apps, base, provider, shared, from + 1);
        let whole = apps_from(apps, base, provider, shared, from)->Ok_0;
        let rest = apps_from(apps, base, provider, shared, from + 1)->Ok_0;
        let a = app_outcome(apps[from], base, provider, shared)->Ok_0;
        assert(whole == seq![a] + rest);
        assert forall|i: int| from <= i < apps.len() implies #[trigger] app_outcome(apps[i], base, provider, shared)
            == Ok::<AppView, ConfigFault>(whole[i - from]) by {
            if i > from {
                assert(whole[i - from] == rest[i - (from + 1)]);
            }
        }
    }
}

/// The environment of a resolved app: its own `[app.env]` entries (each
/// resolved) win over the shared `[env]` entries (each resolved), which win
/// over the base environment; the managed environment is the part of it
/// whose names come from the env provider, the shared table or the app's
/// own table.
pub proof fn app_env_precedence(c: Config, base: Map<Seq<char>, Seq<char>>, provider: Map<Seq<char>, Seq<char>>, i: int)
    requires
        config_outcome(c, base, provider) is Ok,
        0 <= i < c.app@.len(),
    ensures
        ({
            let shared = pairs_map(resolve_entries(c.env.pairs(), base)->Ok_0);
            let scope = base.union_prefer_right(shared);
            let own = pairs_map(resolve_entries(c.app@[i].env.pairs(), scope)->Ok_0);
            let view = config_outcome(c, base, provider)->Ok_0.1[i];
            &&& resolve_entries(c.app@[i].env.pairs(), scope) is Ok
            &&& forall|k: Seq<char>| #[trigger] view.env.contains_key(k)
                <==> (own.contains_key(k) || shared.contains_key(k) || base.contains_key(k))
            &&& forall|k: Seq<char>| own.contains_key(k) ==> #[trigger] view.env[k] == own[k]
            &&& forall|k: Seq<char>| !own.contains_key(k) && shared.contains_key(k) ==> #[trigger] view.env[k] == shared[k]
            &&& forall|k: Seq<char>| !own.contains_key(k) && !shared.contains_key(k) && base.contains_key(k) ==> #[trigger] view.env[k] == base[k]
            &&& view.managed_env == view.env.restrict(provider.dom() + shared.dom() + own.dom())
        }),
{
    let shared_entries = resolve_entries(c.env.pairs(), base)->Ok_0;
    let shared = pairs_map(shared_entries);
    lemma_apps_from(c.app@, base, provider, shared, 0);
    let view = config_outcome(c, base, provider)->Ok_0.1[i];
    assert(config_outcome(c, base, provider)->Ok_0.1 == apps_from(c.app@, base, provider, shared, 0)->Ok_0);
    assert(app_outcome(c.app@[i], base, provider, shared) == Ok::<AppView, ConfigFault>(view));
    reveal(app_outcome);
    let scope = base.union_prefer_right(shared);
    let own = pairs_map(resolve_entries(c.app@[i].env.pairs(), scope)->Ok_0);
    let effective = scope.union_prefer_right(own);
    let managed = effective.restrict(provider.dom() + shared.dom() + own.dom());
    let n = interpolate(c.app@[i].name@, effective)->Ok_0;
    lemma_fields_keep_env(c.app@[i], effective, managed, n);
}


/// The environment a hook runs with: the app's environment, with the hook's
/// own `env` entries added or overriding.
pub fn hook_run_env(app_env: &EnvMap, hook_env: &EnvMap) -> (r: EnvMap)
    ensures
        r@ == app_env@.union_prefer_right(hook_env@),
{
    let mut r = app_env.clone();
    r.extend(hook_env);
    r
}


proof fn lemma_interp_list_from(s: Seq<Seq<char>>, scope: Map<Seq<char>, Seq<char>>, from: int)
    requires
        0 <= from <= s.len(),
        interp_list_from(s, scope, from) is Ok,
    ensures
        interp_list_from(s, scope, from)->Ok_0.len() == s.len() - from,
        forall|j: int| from <= j < s.len() ==> #[trigger] interpolate(s[j], scope)
            == Ok::<Seq<char>, InterpFault>(interp_list_from(s, scope, from)->Ok_0[j - from]),
    decreases s.len() - from,
{
    if from < s.len() {
        lemma_interp_list_from(s, scope, from + 1);
        let whole = interp_list_from(s, scope, from)->Ok_0;
        let rest = interp_list_from(s, scope, from + 1)->Ok_0;
        assert forall|j: int| from <= j < s.len() implies #[trigger] interpolate(s[j], scope)
            == Ok::<Seq<char>, InterpFault>(whole[j - from]) by {
            if j > from {
                assert(whole[j - from] == rest[j - (from + 1)]);
            }
        }
    }
}

proof fn lemma_hooks_from(hs: Seq<HookConfig>, scope: Map<Seq<char>, Seq<char>>, from: int)
    requires
        0 <= from <= hs.len(),
        hooks_from(hs, scope, from) is Ok,
    ensures
        hooks_from(hs, scope, from)->Ok_0.len() == hs.len() - from,
        forall|j: int| from <= j < hs.len() ==> #[trigger] hook_outcome(hs[j], scope)
            == Ok::<HookView, (ResolveStep, InterpFault)>(hooks_from(hs, scope, from)->Ok_0[j - from]),
    decreases hs.len() - from,
{
    if from < hs.len() {
        lemma_hooks_from(hs, scope, from + 1);
        let whole = hooks_from(hs, scope, from)->Ok_0;
        let rest = hooks_from(hs, scope, from + 1)->Ok_0;
        assert forall|j: int| from <= j < hs.len() implies #[trigger] hook_outcome(hs[j], scope)
            == Ok::<HookView, (ResolveStep, InterpFault)>(whole[j - from]) by {
            if j > from {
                assert(whole[j - from] == rest[j - (from + 1)]);
            }
        }
    }
}

/// Each field of a resolved app is its configured text interpolated over
/// the app's resolved environment: the name, access, cargo target, command,
/// each argument, workdir and health URL, each `before` and `after` hook (as
/// many as configured, in order) and each watch path.
pub proof fn resolved_app_fields(c: Config, base: Map<Seq<char>, Seq<char>>, provider: Map<Seq<char>, Seq<char>>, i: int)
    requires
        config_outcome(c, base, provider) is Ok,
        0 <= i < c.app@.len(),
    ensures
        ({
            let a = c.app@[i];
            let v = config_outcome(c, base, provider)->Ok_0.1[i];
            &&& interpolate(a.name@, v.env) == Ok::<Seq<char>, InterpFault>(v.name)
            &&& interp_opt(opt_view(a.access), v.env) == Ok::<Option<Seq<char>>, InterpFault>(v.access)
            &&& interp_opt(opt_view(a.cargo), v.env) == Ok::<Option<Seq<char>>, InterpFault>(v.cargo)
            &&& interpolate(a.command@, v.env) == Ok::<Seq<char>, InterpFault>(v.command)
            &&& v.args.len() == a.args@.len()
            &&& (forall|j: int| 0 <= j < a.args@.len() ==> interpolate(#[trigger] a.args@[j]@, v.env)
                == Ok::<Seq<char>, InterpFault>(v.args[j]))
            &&& interp_opt(opt_view(a.workdir), v.env) == Ok::<Option<Seq<char>>, InterpFault>(v.workdir)
            &&& interp_opt(opt_view(a.health_url), v.env) == Ok::<Option<Seq<char>>, InterpFault>(v.health_url)
            &&& v.before.len() == a.before@.len()
            &&& (forall|j: int| 0 <= j < a.before@.len() ==> hook_outcome(#[trigger] a.before@[j], v.env)
                == Ok::<HookView, (ResolveStep, InterpFault)>(v.before[j]))
            &&& v.after.len() == a.after@.len()
            &&& (forall|j: int| 0 <= j < a.after@.len() ==> hook_outcome(#[trigger] a.after@[j], v.env)
                == Ok::<HookView, (ResolveStep, InterpFault)>(v.after[j]))
            &&& (a.watch is None <==> v.watch_paths is None)
            &&& (a.watch matches Some(w) ==> v.watch_paths matches Some(ps) && ps.len() == w.paths@.len()
                && forall|j: int| 0 <= j < w.paths@.len() ==> interpolate(#[trigger] w.paths@[j]@, v.env)
                    == Ok::<Seq<char>, InterpFault>(ps[j]))
        }),
{
    let shared = pairs_map(resolve_entries(c.env.pairs(), base)->Ok_0);
    lemma_apps_from(c.app@, base, provider, shared, 0);
    let a = c.app@[i];
    let v = config_outcome(c, base, provider)->Ok_0.1[i];
    assert(config_outcome(c, base, provider)->Ok_0.1 == apps_from(c.app@, base, provider, shared, 0)->Ok_0);
    assert(app_outcome(a, base, provider, shared) == Ok::<AppView, ConfigFault>(v));
    reveal(app_outcome);
    reveal(app_fields_outcome);
    let scope = base.union_prefer_right(shared);
    let own = pairs_map(resolve_entries(a.env.pairs(), scope)->Ok_0);
    let effective = scope.union_prefer_right(own);
    assert(v.env == effective);
    lemma_interp_list_from(names(a.args@), effective, 0);
    lemma_hooks_from(a.before@, effective, 0);
    lemma_hooks_from(a.after@, effective, 0);
    assert forall|j: int| 0 <= j < a.args@.len() implies interpolate(#[trigger] a.args@[j]@, v.env)
        == Ok::<Seq<char>, InterpFault>(v.args[j]) by {
        assert(names(a.args@)[j] == a.args@[j]@);
    }
    assert forall|j: int| 0 <= j < a.before@.len() implies hook_outcome(#[trigger] a.before@[j], v.env)
        == Ok::<HookView, (ResolveStep, InterpFault)>(v.before[j]) by {}
    assert forall|j: int| 0 <= j < a.after@.len() implies hook_outcome(#[trigger] a.after@[j], v.env)
        == Ok::<HookView, (ResolveStep, InterpFault)>(v.after[j]) by {}
    match a.watch {
        Some(w) => {
            lemma_interp_list_from(names(w.paths@), effective, 0);
            let ps = v.watch_paths->Some_0;
            assert forall|j: int| 0 <= j < w.paths@.len() implies interpolate(#[trigger] w.paths@[j]@, v.env)
                == Ok::<Seq<char>, InterpFault>(ps[j]) by {
                assert(names(w.paths@)[j] == w.paths@[j]@);
            }
        },
        None => {},
    }
}

/// A hook's command, each of its arguments and its workdir are all read in
/// one scope: the app's environment with the hook's own resolved variables
/// on top. A hook resolves exactly when its variables resolve over the app's
/// environment and its command, arguments and workdir all interpolate in that
/// scope, and then it holds those results.
pub proof fn hook_fields_read_the_hook_scope(h: HookConfig, scope: Map<Seq<char>, Seq<char>>)
    ensures
        hook_outcome(h, scope) matches Ok(v) ==> ({
            let s2 = scope.union_prefer_right(pairs_map(v.env));
            &&& resolve_entries(h.env.pairs(), scope) == Ok::<Seq<(Seq<char>, Seq<char>)>, InterpFault>(v.env)
            &&& interpolate(h.command@, s2) == Ok::<Seq<char>, InterpFault>(v.command)
            &&& interp_list(names(h.args@), s2) == Ok::<Seq<Seq<char>>, InterpFault>(v.args)
            &&& interp_opt(opt_view(h.workdir), s2) == Ok::<Option<Seq<char>>, InterpFault>(v.workdir)
        }),
        (resolve_entries(h.env.pairs(), scope) matches Ok(env) && ({
            let s2 = scope.union_prefer_right(pairs_map(env));
            &&& interpolate(h.command@, s2) is Ok
            &&& interp_list(names(h.args@), s2) is Ok
            &&& interp_opt(opt_view(h.workdir), s2) is Ok
        })) ==> hook_outcome(h, scope) is Ok,
{
}

/// A hook that sets one variable `K` to a plain value (no `${` in it) and
/// whose command is `${K}` gets that value as its command, whatever the app's
/// environment holds: the hook's own variables are visible to its command,
/// and they win over the app's.
pub proof fn hook_command_sees_hook_env(h: HookConfig, scope: Map<Seq<char>, Seq<char>>, k: Seq<char>, value: Seq<char>)
    requires
        h.env.pairs() == seq![(k, value)],
        k.len() > 0,
        forall|i: int| 0 <= i < k.len() ==> k[i] != '}',
        forall|i: int| 0 <= i ==> !opens_at(value, i),
        h.command@ == seq!['$', '{'] + k + seq!['}'],
    ensures
        !(hook_outcome(h, scope) matches Err(e) && (e.0 == ResolveStep::HookEnv || e.0 == ResolveStep::HookCommand)),
        hook_outcome(h, scope) matches Ok(v) ==> v.command == value && v.env == seq![(k, value)],
{
    let p = seq![(k, value)];
    assert(crate::env_map::unique_keys(p));
    plain_entry_resolves_to_itself(p, scope, 0);
    assert(resolve_entries_from(p, scope, 1) == Ok::<Seq<(Seq<char>, Seq<char>)>, InterpFault>(seq![]));
    assert(seq![(k, value)] + Seq::<(Seq<char>, Seq<char>)>::empty() =~= p);
    assert(resolve_entries(p, scope) == Ok::<Seq<(Seq<char>, Seq<char>)>, InterpFault>(p));
    let m = pairs_map(p);
    assert(p.drop_last() =~= Seq::<(Seq<char>, Seq<char>)>::empty());
    assert(pairs_map(Seq::<(Seq<char>, Seq<char>)>::empty()) == Map::<Seq<char>, Seq<char>>::empty());
    assert(p.last() == (k, value));
    assert(m == Map::<Seq<char>, Seq<char>>::empty().insert(k, value));
    let s2 = scope.union_prefer_right(m);
    assert(s2.contains_key(k) && s2[k] == value);
    single_reference_is_replaced(k, s2);
}

} // verus!
