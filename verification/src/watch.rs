//! Where an app runs and what is watched to restart it: the configured
//! watch paths and the app's own local command path, each made absolute.
use vstd::prelude::*;
use crate::config::{AppConfig, HookConfig, opt_view};
use crate::env_command::{component_count, is_absolute_path, joined_path, path_component_count, path_is_absolute, path_join};
use crate::interpolate::names;

verus! {

/// The directory an app runs in: its `workdir`, else the directory of the
/// config file.
pub open spec fn run_dir_of(workdir: Option<Seq<char>>, config_dir: Seq<char>) -> Seq<char> {
    match workdir {
        Some(w) => w,
        None => config_dir,
    }
}

/// The directory the app `app` runs in (see `run_dir_of`).
pub fn app_run_dir(app: &AppConfig, config_dir: &str) -> (r: String)
    ensures
        r@ == run_dir_of(opt_view(app.workdir), config_dir@),
{
    match &app.workdir {
        Some(w) => w.clone(),
        None => String::from_str(config_dir),
    }
}

/// A watched path made absolute against `base`.
pub open spec fn watch_path_in(p: Seq<char>, base: Seq<char>) -> Seq<char> {
    if is_absolute_path(p) { p } else { joined_path(base, p) }
}

/// Whether a command is a local path (relative, with a directory part)
/// rather than a name looked up on `PATH` or an absolute path.
pub open spec fn is_local_command(command: Seq<char>) -> bool {
    !is_absolute_path(command) && component_count(command) > 1
}

/// What is watched for an app: each configured watch path, then its command
/// when that is a local path; relative paths are taken against `workdir`
/// when the app has one, else against the current directory.
pub open spec fn watch_targets_of(
    paths: Seq<Seq<char>>,
    command: Seq<char>,
    workdir: Option<Seq<char>>,
    current_dir: Seq<char>,
) -> Seq<Seq<char>> {
    let base = run_dir_of(workdir, current_dir);
    paths.map_values(|p: Seq<char>| watch_path_in(p, base)) + if is_local_command(command) {
        seq![joined_path(base, command)]
    } else {
        Seq::<Seq<char>>::empty()
    }
}

/// The configured watch paths of an app (none without a `[app.watch]` table).
pub open spec fn configured_watch_paths(app: AppConfig) -> Seq<Seq<char>> {
    match app.watch {
        Some(w) => names(w.paths@),
        None => Seq::empty(),
    }
}

/// The paths watched to restart the app `app` (see `watch_targets_of`),
/// with `current_dir` the current directory.
pub fn watch_targets(app: &AppConfig, current_dir: &str) -> (r: Vec<String>)
    ensures
        names(r@) == watch_targets_of(configured_watch_paths(*app), app.command@, opt_view(app.workdir), current_dir@),
{
    let base = match &app.workdir {
        Some(w) => w.clone(),
        None => String::from_str(current_dir),
    };
    let ghost ps = configured_watch_paths(*app);
    let ghost spec_base = run_dir_of(opt_view(app.workdir), current_dir@);
    let mut out: Vec<String> = Vec::new();
    match &app.watch {
        Some(w) => {
            let mut i: usize = 0;
            while i < w.paths.len()
                invariant
                    i <= w.paths@.len(),
                    ps == names(w.paths@),
                    base@ == spec_base,
                    names(out@) == ps.take(i as int).map_values(|p: Seq<char>| watch_path_in(p, spec_base)),
                decreases w.paths@.len() - i,
            {
                let p = &w.paths[i];
                let t = if path_is_absolute(p.as_str()) { p.clone() } else { path_join(base.as_str(), p.as_str()) };
                let ghost before = names(out@);
                out.push(t);
                assert(names(out@) =~= before.push(watch_path_in(ps[i as int], spec_base)));
                assert(ps.take(i + 1) =~= ps.take(i as int).push(ps[i as int]));
                assert(ps.take(i + 1).map_values(|p: Seq<char>| watch_path_in(p, spec_base))
                    =~= ps.take(i as int).map_values(|p: Seq<char>| watch_path_in(p, spec_base)).push(watch_path_in(ps[i as int], spec_base)));
                i = i + 1;
            }
            assert(ps.take(i as int) =~= ps);
        },
        None => {
            assert(names(out@) =~= ps.map_values(|p: Seq<char>| watch_path_in(p, spec_base)));
        },
    }
    let ghost listed = names(out@);
    let command = app.command.as_str();
    if !path_is_absolute(command) && path_component_count(command) > 1 {
        out.push(path_join(base.as_str(), command));
        assert(names(out@) =~= listed + seq![joined_path(spec_base, app.command@)]);
    } else {
        assert(names(out@) =~= listed + Seq::<Seq<char>>::empty());
    }
    out
}

/// How often watched paths are polled: once per debounce window, and no
/// more often than every 100 ms.
pub fn watch_poll_millis(debounce_millis: u64) -> (r: u64)
    ensures
        r == if debounce_millis < 100 { 100 } else { debounce_millis },
{
    if debounce_millis < 100 { 100 } else { debounce_millis }
}


/// The directory a hook runs in: its `workdir` taken against the app's run
/// directory unless absolute, else the app's run directory.
pub open spec fn hook_dir_of(workdir: Option<Seq<char>>, run_dir: Seq<char>) -> Seq<char> {
    match workdir {
        Some(w) => watch_path_in(w, run_dir),
        None => run_dir,
    }
}

/// The directory the hook `hook` of an app running in `run_dir` runs in.
pub fn hook_run_dir(hook: &HookConfig, run_dir: &str) -> (r: String)
    ensures
        r@ == hook_dir_of(opt_view(hook.workdir), run_dir@),
{
    match &hook.workdir {
        Some(w) => if path_is_absolute(w.as_str()) { w.clone() } else { path_join(run_dir, w.as_str()) },
        None => String::from_str(run_dir),
    }
}

} // verus!
