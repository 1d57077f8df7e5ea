//! Running the env provider command: where it runs and which program it
//! starts (with `~` expanded), how it is shown, what its stderr is
//! summarised to, what each way of failing is reported as, and what the
//! dashboard shows of a successful run.
use vstd::prelude::*;
use crate::config::{EnvCommandConfig, EnvProviderInfo};
use crate::env_map::EnvMap;
use crate::env_output::env_output_message;
use crate::interpolate::names;
use crate::text::{chars_of, decimal, join_strings, join_with, lines, push_decimal, split_lines, string_of_range, trim, trim_bounds};

verus! {

/// Whether `std::path::Path` takes the path `p` as absolute.
pub uninterp spec fn is_absolute_path(p: Seq<char>) -> bool;

/// How many components `std::path::Path::components` yields for the path `p`.
pub uninterp spec fn component_count(p: Seq<char>) -> nat;

/// What `std::path::Path::join` makes of `base` and `rel`.
pub uninterp spec fn joined_path(base: Seq<char>, rel: Seq<char>) -> Seq<char>;

/// `Path::is_absolute` of the path `p`: the result is `is_absolute_path(p)`,
/// which depends on the platform's path rules; those rules are not stated.
#[verifier::external_body]
pub(crate) fn path_is_absolute(p: &str) -> (b: bool)
    ensures
        b == is_absolute_path(p@),
{
    std::path::Path::new(p).is_absolute()
}

/// `Path::components().count()` of the path `p`: the result is
/// `component_count(p)`; how a path splits into components is not stated.
#[verifier::external_body]
pub(crate) fn path_component_count(p: &str) -> (n: usize)
    ensures
        n as nat == component_count(p@),
{
    std::path::Path::new(p).components().count()
}

/// `Path::join` of `base` and `rel`, as text: the result is
/// `joined_path(base, rel)`; where separators go is not stated.
#[verifier::external_body]
pub(crate) fn path_join(base: &str, rel: &str) -> (r: String)
    ensures
        r@ == joined_path(base@, rel@),
{
    std::path::Path::new(base).join(rel).to_string_lossy().into_owned()
}

/// What follows a leading `~` that stands for the home directory: `~` alone,
/// `~/...` or `~\...`.
pub open spec fn home_suffix(p: Seq<char>) -> Option<Seq<char>> {
    if p == seq!['~'] {
        Some(Seq::empty())
    } else if p.len() >= 2 && p[0] == '~' && (p[1] == '/' || p[1] == '\\') {
        Some(p.subrange(2, p.len() as int))
    } else {
        None
    }
}

/// `p` with a leading `~` replaced by the home directory `home`; `None` when
/// `p` does not start so or the home directory is unknown.
pub open spec fn expanded_home(p: Seq<char>, home: Option<Seq<char>>) -> Option<Seq<char>> {
    match (home_suffix(p), home) {
        (Some(s), Some(h)) => Some(if s.len() == 0 { h } else { joined_path(h, s) }),
        _ => None,
    }
}

/// `p` with `~` expanded when it can be, else `p` itself.
pub open spec fn home_or_same(p: Seq<char>, home: Option<Seq<char>>) -> Seq<char> {
    match expanded_home(p, home) {
        Some(e) => e,
        None => p,
    }
}

/// A string holding `s` without its first `n` characters.
fn drop_chars(s: &str, n: usize) -> (r: String)
    requires
        n <= s@.len(),
    ensures
        r@ == s@.subrange(n as int, s@.len() as int),
{
    let v = chars_of(s);
    crate::text::string_of_range(&v, n, v.len())
}

/// `path` with a leading `~` (alone, or before `/` or `\`) replaced by the
/// home directory `home` (`$HOME`, else `%USERPROFILE%`); `None` when the
/// path does not start so or no home directory is known.
pub fn expand_home_path(path: &str, home: &Option<String>) -> (r: Option<String>)
    ensures
        crate::config::opt_view(r) == expanded_home(path@, crate::config::opt_view(*home)),
{
    let v = chars_of(path);
    let tilde_alone = v.len() == 1 && v[0] == '~';
    let tilde_sep = v.len() >= 2 && v[0] == '~' && (v[1] == '/' || v[1] == '\\');
    proof {
        if tilde_alone {
            assert(path@ =~= seq!['~']);
        }
        if path@ == seq!['~'] {
            assert(v@.len() == 1 && v@[0] == '~');
        }
    }
    if !tilde_alone && !tilde_sep {
        return None;
    }
    match home {
        None => None,
        Some(h) => {
            if tilde_alone {
                Some(h.clone())
            } else {
                let suffix = drop_chars(path, 2);
                if suffix.as_str().unicode_len() == 0 {
                    Some(h.clone())
                } else {
                    Some(path_join(h.as_str(), suffix.as_str()))
                }
            }
        },
    }
}

/// The text of `p` with `~` expanded when it can be.
fn expand_or_keep(p: &str, home: &Option<String>) -> (r: String)
    ensures
        r@ == home_or_same(p@, crate::config::opt_view(*home)),
{
    match expand_home_path(p, home) {
        Some(e) => e,
        None => String::from_str(p),
    }
}

/// Where the provider command runs: its `workdir` (with `~` expanded)
/// taken relative to `base` unless absolute, or `base` itself.
pub open spec fn workdir_of(workdir: Option<Seq<char>>, base: Seq<char>, home: Option<Seq<char>>) -> Seq<char> {
    match workdir {
        Some(w) => {
            let e = home_or_same(w, home);
            if is_absolute_path(e) { e } else { joined_path(base, e) }
        },
        None => base,
    }
}

/// The directory the provider command runs in: its `workdir` (with `~`
/// expanded) relative to `base_dir` unless absolute, else `base_dir` (the
/// directory of `rally.toml`, or the current directory).
pub fn resolve_env_command_workdir(env_command: &EnvCommandConfig, base_dir: &str, home: &Option<String>) -> (r: String)
    ensures
        r@ == workdir_of(crate::config::opt_view(env_command.workdir), base_dir@, crate::config::opt_view(*home)),
{
    match &env_command.workdir {
        Some(w) => {
            let e = expand_or_keep(w.as_str(), home);
            if path_is_absolute(e.as_str()) {
                e
            } else {
                path_join(base_dir, e.as_str())
            }
        },
        None => String::from_str(base_dir),
    }
}

/// The program the provider command starts: the command (with `~`
/// expanded), taken relative to `workdir` when it is a relative path of more
/// than one component; a bare name is left for the `PATH` search.
pub open spec fn command_path_of(command: Seq<char>, workdir: Seq<char>, home: Option<Seq<char>>) -> Seq<char> {
    let p = home_or_same(command, home);
    if !is_absolute_path(p) && component_count(p) > 1 {
        joined_path(workdir, p)
    } else {
        p
    }
}

/// The program the provider command starts (see `command_path_of`).
pub fn resolve_env_command_path(command: &str, workdir: &str, home: &Option<String>) -> (r: String)
    ensures
        r@ == command_path_of(command@, workdir@, crate::config::opt_view(*home)),
{
    let p = expand_or_keep(command, home);
    if !path_is_absolute(p.as_str()) && path_component_count(p.as_str()) > 1 {
        path_join(workdir, p.as_str())
    } else {
        p
    }
}

/// How a command is shown: the command and its arguments, separated by spaces.
pub open spec fn command_display(command: Seq<char>, args: Seq<Seq<char>>) -> Seq<char> {
    join_with(seq![command] + args, " "@)
}

/// The command and its arguments, separated by spaces.
pub fn format_command_display(command: &str, args: &Vec<String>) -> (r: String)
    ensures
        r@ == command_display(command@, names(args@)),
{
    let mut parts: Vec<String> = Vec::new();
    parts.push(String::from_str(command));
    let mut i: usize = 0;
    while i < args.len()
        invariant
            i <= args.len(),
            parts.len() == i + 1,
            parts@[0]@ == command@,
            forall|q: int| 1 <= q <= i ==> #[trigger] parts@[q]@ == args@[q - 1]@,
        decreases args.len() - i,
    {
        parts.push(args[i].clone());
        i = i + 1;
    }
    assert(parts@.map_values(|p: String| p@) =~= seq![command@] + names(args@));
    join_strings(&parts, " ")
}

/// What a path is, as `std::fs::metadata` found it.
#[derive(Debug, Clone, Copy, PartialEq, Eq, Structural)]
pub enum PathState {
    /// A directory.
    Directory,
    /// Something other than a directory.
    NotDirectory,
    /// Nothing is there (`NotFound`).
    Missing,
    /// It could not be looked at for another reason.
    Unreadable,
}

/// What is known of a failed spawn of the provider command.
#[derive(Debug)]
pub struct SpawnFailure {
    /// The error's text.
    pub error: String,
    /// Whether the error is `NotFound`.
    pub not_found: bool,
    /// What the working directory is.
    pub workdir_state: PathState,
    /// What the resolved command path is.
    pub command_path_state: PathState,
}

/// Why a spawn failed, as values.
pub struct SpawnFacts {
    pub error: Seq<char>,
    pub not_found: bool,
    pub workdir_state: PathState,
    pub command_path_state: PathState,
}

impl SpawnFailure {
    /// These facts as values.
    pub open spec fn facts(&self) -> SpawnFacts {
        SpawnFacts {
            error: self.error@,
            not_found: self.not_found,
            workdir_state: self.workdir_state,
            command_path_state: self.command_path_state,
        }
    }
}

/// The hint about a command path that was looked up relative to nothing:
/// the shell's `PATH` setup does not apply, the `PATH` Rally sees, and, for a
/// bare name, to use an absolute path.
pub open spec fn path_hint(command: Seq<char>, path_var: Option<Seq<char>>) -> Seq<char> {
    ". env_command is executed directly without a shell, so shell-only PATH setup does not apply"@
        + match path_var {
        Some(p) => ". PATH="@ + p,
        None => ". PATH is unset"@,
    } + if component_count(command) == 1 {
        ". If the binary lives outside Rally's PATH, set env_command.command to an absolute path"@
    } else {
        Seq::empty()
    }
}

/// The message of a failed spawn of the provider command: the error, and
/// when it is `NotFound`, what explains it (a working directory that is not
/// a directory or is missing; a resolved command path that exists or is
/// missing; or how a bare command is looked up).
pub open spec fn spawn_error_message(
    display: Seq<char>,
    command: Seq<char>,
    workdir: Seq<char>,
    command_path: Seq<char>,
    path_var: Option<Seq<char>>,
    f: SpawnFacts,
) -> Seq<char> {
    let message = "env_command "@ + display + " failed to start: "@ + f.error;
    if !f.not_found {
        message
    } else if f.workdir_state == PathState::NotDirectory {
        message + ". Working directory "@ + workdir + " is not a directory"@
    } else if f.workdir_state == PathState::Missing {
        message + ". Working directory "@ + workdir + " does not exist"@
    } else if is_absolute_path(command_path) || component_count(command) > 1 {
        if f.command_path_state == PathState::Directory || f.command_path_state == PathState::NotDirectory {
            message + ". Resolved command path "@ + command_path
                + " exists, so the OS may be unable to locate its interpreter or executable loader; verify the file is executable and that any shebang/runtime dependency is installed"@
        } else if f.command_path_state == PathState::Missing {
            message + ". Resolved command path "@ + command_path + " does not exist"@
        } else {
            message
        }
    } else {
        message + path_hint(command, path_var)
    }
}

/// The message of a failed spawn of the provider command (see
/// `spawn_error_message`); `command_path` is the resolved program path and
/// `PATH` is read from `process_env`.
pub fn format_env_command_spawn_error(
    command_display: &str,
    env_command: &EnvCommandConfig,
    workdir: &str,
    command_path: &str,
    process_env: &EnvMap,
    failure: &SpawnFailure,
) -> (m: String)
    ensures
        m@ == spawn_error_message(
            command_display@,
            env_command.command@,
            workdir@,
            command_path@,
            if process_env@.contains_key("PATH"@) { Some(process_env@["PATH"@]) } else { None },
            failure.facts(),
        ),
{
    let mut m = String::from_str("env_command ");
    m.append(command_display);
    m.append(" failed to start: ");
    m.append(failure.error.as_str());
    if !failure.not_found {
        return m;
    }
    match failure.workdir_state {
        PathState::NotDirectory => {
            m.append(". Working directory ");
            m.append(workdir);
            m.append(" is not a directory");
            return m;
        },
        PathState::Missing => {
            m.append(". Working directory ");
            m.append(workdir);
            m.append(" does not exist");
            return m;
        },
        _ => {},
    }
    let command = env_command.command.as_str();
    if path_is_absolute(command_path) || path_component_count(command) > 1 {
        match failure.command_path_state {
            PathState::Directory | PathState::NotDirectory => {
                m.append(". Resolved command path ");
                m.append(command_path);
                m.append(" exists, so the OS may be unable to locate its interpreter or executable loader; verify the file is executable and that any shebang/runtime dependency is installed");
            },
            PathState::Missing => {
                m.append(". Resolved command path ");
                m.append(command_path);
                m.append(" does not exist");
            },
            PathState::Unreadable => {},
        }
        return m;
    }
    m.append(". env_command is executed directly without a shell, so shell-only PATH setup does not apply");
    match process_env.get("PATH") {
        Some(p) => {
            m.append(". PATH=");
            m.append(p.as_str());
        },
        None => {
            m.append(". PATH is unset");
        },
    }
    if path_component_count(command) == 1 {
        m.append(". If the binary lives outside Rally's PATH, set env_command.command to an absolute path");
    }
    m
}


/// The number of bytes of `c` in UTF-8.
pub open spec fn utf8_width(c: char) -> nat {
    if (c as u32) < 0x80 {
        1
    } else if (c as u32) < 0x800 {
        2
    } else if (c as u32) < 0x10000 {
        3
    } else {
        4
    }
}

/// The number of bytes of `s` in UTF-8 (what `str::len` gives).
pub open spec fn utf8_len(s: Seq<char>) -> nat
    decreases s.len(),
{
    if s.len() == 0 {
        0
    } else {
        utf8_len(s.drop_last()) + utf8_width(s.last())
    }
}

/// How many characters from the start of `s` fit in `n` bytes of UTF-8.
pub open spec fn chars_within(s: Seq<char>, n: int) -> nat
    decreases s.len(),
{
    if s.len() == 0 || utf8_width(s[0]) > n {
        0
    } else {
        1 + chars_within(s.drop_first(), n - utf8_width(s[0]))
    }
}

/// The lines of `ls` trimmed, without those left empty.
pub open spec fn kept_lines(ls: Seq<Seq<char>>) -> Seq<Seq<char>>
    decreases ls.len(),
{
    if ls.len() == 0 {
        Seq::empty()
    } else if trim(ls.last()).len() > 0 {
        kept_lines(ls.drop_last()).push(trim(ls.last()))
    } else {
        kept_lines(ls.drop_last())
    }
}

/// The longest summary of stderr kept, in bytes.
pub const STDERR_SUMMARY_BYTES: usize = 240;

/// The one-line summary of the provider's stderr: its non-blank lines,
/// trimmed and joined with ` | `; beyond 240 bytes it is cut to 240 bytes
/// and `...` is added. `None` where 240 bytes would end inside a character,
/// where `String::truncate` panics.
pub open spec fn stderr_summary(text: Seq<char>) -> Option<Seq<char>> {
    let joined = join_with(kept_lines(lines(text)), " | "@);
    if utf8_len(joined) <= 240 {
        Some(joined)
    } else {
        let cut = joined.take(chars_within(joined, 240) as int);
        if utf8_len(cut) == 240 {
            Some(cut + "..."@)
        } else {
            None
        }
    }
}

/// What `String::from_utf8_lossy` makes of bytes.
pub uninterp spec fn lossy_text(bytes: Seq<u8>) -> Seq<char>;

/// `String::from_utf8_lossy`: the bytes as text, each invalid sequence
/// replaced by U+FFFD. The result is `lossy_text(bytes)`; the decoding is not
/// stated.
#[verifier::external_body]
fn utf8_lossy(bytes: &Vec<u8>) -> (s: String)
    ensures
        s@ == lossy_text(bytes@),
{
    String::from_utf8_lossy(bytes.as_slice()).into_owned()
}

proof fn lemma_utf8_prefix(s: Seq<char>, k: int)
    requires
        0 <= k <= s.len(),
    ensures
        utf8_len(s.take(k)) <= utf8_len(s),
    decreases s.len(),
{
    if k < s.len() {
        assert(s.drop_last().take(k) =~= s.take(k));
        lemma_utf8_prefix(s.drop_last(), k);
    } else {
        assert(s.take(k) =~= s);
    }
}

/// The one-line summary of stderr text (see `stderr_summary`).
pub fn summarize_stderr_text(text: &str) -> (r: Option<String>)
    ensures
        crate::config::opt_view(r) == stderr_summary(text@),
{
    let v = chars_of(text);
    let ls = split_lines(&v);
    let ghost lv = lines(text@);
    let mut parts: Vec<String> = Vec::new();
    let mut i: usize = 0;
    while i < ls.len()
        invariant
            i <= ls@.len(),
            v@ == text@,
            lv == lines(text@),
            ls@.len() == lv.len(),
            forall|k: int| 0 <= k < ls@.len() ==> #[trigger] ls@[k]@ == lv[k],
            parts@.map_values(|p: String| p@) == kept_lines(lv.take(i as int)),
        decreases ls@.len() - i,
    {
        let line = &ls[i];
        let (a, b) = trim_bounds(line, 0, line.len());
        assert(line@.subrange(0, line@.len() as int) =~= line@);
        proof {
            assert(lv.take(i + 1).drop_last() =~= lv.take(i as int));
            assert(lv.take(i + 1).last() == lv[i as int]);
        }
        if a < b {
            let ghost before = parts@.map_values(|p: String| p@);
            parts.push(string_of_range(line, a, b));
            assert(parts@.map_values(|p: String| p@) =~= before.push(trim(lv[i as int])));
        }
        i = i + 1;
    }
    assert(lv.take(i as int) =~= lv);
    let joined = join_strings(&parts, " | ");
    let j = chars_of(joined.as_str());
    let ghost js = j@;
    let mut n: usize = 0;
    let mut used: usize = 0;
    let mut over = false;
    assert(js.skip(0) =~= js);
    assert(js.take(0) =~= Seq::<char>::empty());
    while n < j.len() && !over
        invariant
            n <= j@.len(),
            js == j@,
            used <= 240,
            used == utf8_len(js.take(n as int)),
            chars_within(js, 240) == n + chars_within(js.skip(n as int), 240 - used),
            over ==> n < j@.len() && utf8_width(js[n as int]) > 240 - used,
        decreases j@.len() - n + (if over { 0int } else { 1int }),
    {
        let c = j[n];
        let w: usize = if (c as u32) < 0x80 { 1 } else if (c as u32) < 0x800 { 2 } else if (c as u32) < 0x10000 { 3 } else { 4 };
        assert(w == utf8_width(c));
        if w > 240 - used {
            over = true;
        } else {
            proof {
                assert(js.skip(n as int)[0] == c);
                assert(js.skip(n as int).drop_first() =~= js.skip(n + 1));
                assert(js.take(n + 1).drop_last() =~= js.take(n as int));
            }
            used = used + w;
            n = n + 1;
        }
    }
    if !over {
        assert(js.take(n as int) =~= js);
        return Some(joined);
    }
    proof {
        assert(chars_within(js.skip(n as int), 240 - used) == 0);
        assert(js.take(n + 1).drop_last() =~= js.take(n as int));
        lemma_utf8_prefix(js, n + 1);
    }
    if used == 240 {
        let mut cut = string_of_range(&j, 0, n);
        cut.append("...");
        Some(cut)
    } else {
        None
    }
}

/// The one-line summary of the provider's stderr bytes, read as UTF-8 with
/// invalid sequences replaced (see `stderr_summary`).
pub fn summarize_stderr(stderr: &Vec<u8>) -> (r: Option<String>)
    ensures
        crate::config::opt_view(r) == stderr_summary(lossy_text(stderr@)),
{
    let text = utf8_lossy(stderr);
    summarize_stderr_text(text.as_str())
}

/// What a stderr summary adds to a message: nothing when it is empty.
pub open spec fn stderr_suffix(summary: Seq<char>) -> Seq<char> {
    if summary.len() == 0 {
        Seq::empty()
    } else {
        "; stderr: "@ + summary
    }
}

/// What a stderr summary adds to a message.
pub fn format_stderr_suffix(summary: &str) -> (r: String)
    ensures
        r@ == stderr_suffix(summary@),
{
    if summary.unicode_len() == 0 {
        String::new()
    } else {
        let mut r = String::from_str("; stderr: ");
        r.append(summary);
        r
    }
}


/// Why running the provider command failed, as values.
pub enum EnvCommandFault {
    WorkdirUnusable(Seq<char>, Seq<char>, Seq<char>),
    WorkdirNotDirectory(Seq<char>, Seq<char>),
    SpawnFailed(Seq<char>),
    TimedOut(Seq<char>, u64, Seq<char>),
    ExitFailed(Seq<char>, Seq<char>, Seq<char>),
    InvalidUtf8(Seq<char>, Seq<char>, Seq<char>),
    Unparsable(Seq<char>, Seq<char>),
}

/// Why running the provider command failed.
#[derive(Debug)]
pub enum EnvCommandError {
    /// The working directory could not be looked at; `cause` is the text of
    /// the error met, kept beside the message rather than in it.
    WorkdirUnusable { command: String, workdir: String, cause: String },
    /// The working directory is not a directory.
    WorkdirNotDirectory { command: String, workdir: String },
    /// The command did not start; the message says why.
    SpawnFailed { message: String },
    /// The command ran longer than its timeout; `stderr` is the stderr summary.
    TimedOut { command: String, timeout_ms: u64, stderr: String },
    /// The command exited unsuccessfully with `status`.
    ExitFailed { command: String, status: String, stderr: String },
    /// The command's stdout is not UTF-8; `detail` is the decoding error's text.
    InvalidUtf8 { command: String, detail: String, stderr: String },
    /// The command's output could not be parsed; `cause` says why.
    Unparsable { command: String, cause: String },
}

impl EnvCommandError {
    /// The failure this error reports.
    pub open spec fn fault(&self) -> EnvCommandFault {
        match self {
            EnvCommandError::WorkdirUnusable { command, workdir, cause } => EnvCommandFault::WorkdirUnusable(command@, workdir@, cause@),
            EnvCommandError::WorkdirNotDirectory { command, workdir } => EnvCommandFault::WorkdirNotDirectory(command@, workdir@),
            EnvCommandError::SpawnFailed { message } => EnvCommandFault::SpawnFailed(message@),
            EnvCommandError::TimedOut { command, timeout_ms, stderr } => EnvCommandFault::TimedOut(command@, *timeout_ms, stderr@),
            EnvCommandError::ExitFailed { command, status, stderr } => EnvCommandFault::ExitFailed(command@, status@, stderr@),
            EnvCommandError::InvalidUtf8 { command, detail, stderr } => EnvCommandFault::InvalidUtf8(command@, detail@, stderr@),
            EnvCommandError::Unparsable { command, cause } => EnvCommandFault::Unparsable(command@, cause@),
        }
    }
}

/// The message of a failed provider run.
pub open spec fn env_command_message(f: EnvCommandFault) -> Seq<char> {
    match f {
        EnvCommandFault::WorkdirUnusable(d, w, _) => "env_command "@ + d + " could not use workdir "@ + w,
        EnvCommandFault::WorkdirNotDirectory(d, w) => "env_command "@ + d + " workdir "@ + w + " is not a directory"@,
        EnvCommandFault::SpawnFailed(m) => m,
        EnvCommandFault::TimedOut(d, ms, e) => "env_command "@ + d + " timed out after "@ + decimal(ms as nat) + "ms"@ + stderr_suffix(e),
        EnvCommandFault::ExitFailed(d, status, e) => "env_command "@ + d + " exited with status "@ + status + stderr_suffix(e),
        EnvCommandFault::InvalidUtf8(d, detail, e) => "env_command "@ + d + " produced invalid UTF-8 on stdout: "@ + detail + stderr_suffix(e),
        EnvCommandFault::Unparsable(d, cause) => "Failed to parse env_command output from "@ + d + ": "@ + cause,
    }
}

impl EnvCommandError {
    /// The message of this error.
    pub fn message(&self) -> (m: String)
        ensures
            m@ == env_command_message(self.fault()),
    {
        match self {
            EnvCommandError::WorkdirUnusable { command, workdir, .. } => {
                let mut m = String::from_str("env_command ");
                m.append(command.as_str());
                m.append(" could not use workdir ");
                m.append(workdir.as_str());
                m
            },
            EnvCommandError::WorkdirNotDirectory { command, workdir } => {
                let mut m = String::from_str("env_command ");
                m.append(command.as_str());
                m.append(" workdir ");
                m.append(workdir.as_str());
                m.append(" is not a directory");
                m
            },
            EnvCommandError::SpawnFailed { message } => message.clone(),
            EnvCommandError::TimedOut { command, timeout_ms, stderr } => {
                let mut m = String::from_str("env_command ");
                m.append(command.as_str());
                m.append(" timed out after ");
                push_decimal(&mut m, *timeout_ms);
                m.append("ms");
                let suffix = format_stderr_suffix(stderr.as_str());
                m.append(suffix.as_str());
                m
            },
            EnvCommandError::ExitFailed { command, status, stderr } => {
                let mut m = String::from_str("env_command ");
                m.append(command.as_str());
                m.append(" exited with status ");
                m.append(status.as_str());
                let suffix = format_stderr_suffix(stderr.as_str());
                m.append(suffix.as_str());
                m
            },
            EnvCommandError::InvalidUtf8 { command, detail, stderr } => {
                let mut m = String::from_str("env_command ");
                m.append(command.as_str());
                m.append(" produced invalid UTF-8 on stdout: ");
                m.append(detail.as_str());
                let suffix = format_stderr_suffix(stderr.as_str());
                m.append(suffix.as_str());
                m
            },
            EnvCommandError::Unparsable { command, cause } => {
                let mut m = String::from_str("Failed to parse env_command output from ");
                m.append(command.as_str());
                m.append(": ");
                m.append(cause.as_str());
                m
            },
        }
    }
}

/// Checks the working directory before the provider command starts: it must
/// be a directory. `lookup_error` is the text of the error met looking at it,
/// when that failed.
pub fn validate_env_command_workdir(command_display: &str, workdir: &str, state: PathState, lookup_error: &str) -> (r: Result<(), EnvCommandError>)
    ensures
        state == PathState::Directory ==> r is Ok,
        state == PathState::NotDirectory ==> (r matches Err(e)
            && e.fault() == EnvCommandFault::WorkdirNotDirectory(command_display@, workdir@)),
        (state == PathState::Missing || state == PathState::Unreadable) ==> (r matches Err(e)
            && e.fault() == EnvCommandFault::WorkdirUnusable(command_display@, workdir@, lookup_error@)),
{
    match state {
        PathState::Directory => Ok(()),
        PathState::NotDirectory => Err(EnvCommandError::WorkdirNotDirectory {
            command: String::from_str(command_display),
            workdir: String::from_str(workdir),
        }),
        _ => Err(EnvCommandError::WorkdirUnusable {
            command: String::from_str(command_display),
            workdir: String::from_str(workdir),
            cause: String::from_str(lookup_error),
        }),
    }
}

/// What `String::from_utf8` makes of bytes: the text, or the error's text.
pub uninterp spec fn utf8_decoding(bytes: Seq<u8>) -> Result<Seq<char>, Seq<char>>;

/// `String::from_utf8`: the bytes as text when they are UTF-8, else the
/// error's text. The result is `utf8_decoding(bytes)`; the decoding and the
/// error's wording are not stated.
#[verifier::external_body]
fn utf8_decode(bytes: &Vec<u8>) -> (r: Result<String, String>)
    ensures
        match r {
            Ok(s) => utf8_decoding(bytes@) == Ok::<Seq<char>, Seq<char>>(s@),
            Err(e) => utf8_decoding(bytes@) == Err::<Seq<char>, Seq<char>>(e@),
        },
{
    match String::from_utf8(bytes.clone()) {
        Ok(s) => Ok(s),
        Err(e) => Err(e.to_string()),
    }
}

/// What a finished provider run gives: its stdout as text when it exited
/// successfully and the text is UTF-8.
pub open spec fn finished_outcome(display: Seq<char>, success: bool, status: Seq<char>, stdout: Seq<u8>, stderr_summary: Seq<char>) -> Result<Seq<char>, EnvCommandFault> {
    if !success {
        Err(EnvCommandFault::ExitFailed(display, status, stderr_summary))
    } else {
        match utf8_decoding(stdout) {
            Ok(text) => Ok(text),
            Err(detail) => Err(EnvCommandFault::InvalidUtf8(display, detail, stderr_summary)),
        }
    }
}

/// The stdout of a provider run that finished with exit status `status`
/// (shown as `status_text`), when it succeeded and printed UTF-8.
pub fn finished_run_output(command_display: &str, success: bool, status_text: &str, stdout: &Vec<u8>, stderr_summary: &str) -> (r: Result<String, EnvCommandError>)
    ensures
        match r {
            Ok(text) => finished_outcome(command_display@, success, status_text@, stdout@, stderr_summary@) == Ok::<Seq<char>, EnvCommandFault>(text@),
            Err(e) => finished_outcome(command_display@, success, status_text@, stdout@, stderr_summary@) == Err::<Seq<char>, EnvCommandFault>(e.fault()),
        },
{
    if !success {
        return Err(EnvCommandError::ExitFailed {
            command: String::from_str(command_display),
            status: String::from_str(status_text),
            stderr: String::from_str(stderr_summary),
        });
    }
    match utf8_decode(stdout) {
        Ok(text) => Ok(text),
        Err(detail) => Err(EnvCommandError::InvalidUtf8 {
            command: String::from_str(command_display),
            detail,
            stderr: String::from_str(stderr_summary),
        }),
    }
}

/// The error of a provider run that ran past its timeout.
pub fn timed_out_error(command_display: &str, timeout_ms: u64, stderr_summary: &str) -> (e: EnvCommandError)
    ensures
        e.fault() == EnvCommandFault::TimedOut(command_display@, timeout_ms, stderr_summary@),
{
    EnvCommandError::TimedOut {
        command: String::from_str(command_display),
        timeout_ms,
        stderr: String::from_str(stderr_summary),
    }
}

/// The variables of shell-format provider output, or the error of a run
/// whose output does not parse.
pub fn parse_shell_output(command_display: &str, output: &str) -> (r: Result<EnvMap, EnvCommandError>)
    ensures
        match crate::env_output::shell_entries(output@) {
            Ok(entries) => (r matches Ok(m) && m@ == crate::env_map::pairs_map(entries)),
            Err(f) => (r matches Err(e) && e.fault() == EnvCommandFault::Unparsable(command_display@, env_output_message(f))),
        },
{
    match crate::env_output::parse_shell_env_output(output) {
        Ok(values) => {
            proof {
                use_type_invariant(&values);
                values.lemma_view();
            }
            Ok(values)
        },
        Err(cause) => {
            let text = cause.message();
            Err(EnvCommandError::Unparsable { command: String::from_str(command_display), cause: text })
        },
    }
}

/// What the dashboard shows of a provider run that loaded `key_count`
/// variables in `duration_ms`, at `loaded_at_millis`.
pub fn loaded_provider_info(command_display: String, env_command: &EnvCommandConfig, key_count: usize, duration_ms: u64, loaded_at_millis: i64) -> (info: EnvProviderInfo)
    ensures
        info.status@ == "loaded"@,
        info.command@ == command_display@,
        info.format == env_command.format,
        info.override_existing == env_command.override_existing,
        info.key_count == key_count,
        info.duration_ms == duration_ms,
        info.loaded_at_millis == loaded_at_millis,
{
    EnvProviderInfo {
        status: String::from_str("loaded"),
        command: command_display,
        format: env_command.format,
        override_existing: env_command.override_existing,
        key_count,
        duration_ms,
        loaded_at_millis,
    }
}

/// The lifecycle event of a provider run that loaded its variables.
pub open spec fn loaded_event(command: Seq<char>, duration_ms: u64, key_count: usize) -> Seq<char> {
    "env_command_loaded command="@ + command + " duration_ms="@ + decimal(duration_ms as nat) + " key_count="@
        + decimal(key_count as nat)
}

/// The lifecycle event of a provider run that loaded its variables.
pub fn env_command_loaded_event(command: &str, duration_ms: u64, key_count: usize) -> (m: String)
    ensures
        m@ == loaded_event(command@, duration_ms, key_count),
{
    let mut m = String::from_str("env_command_loaded command=");
    m.append(command);
    m.append(" duration_ms=");
    push_decimal(&mut m, duration_ms);
    m.append(" key_count=");
    push_decimal(&mut m, key_count as u64);
    m
}

/// The lifecycle event of a provider run that failed: `n/a` when there is no
/// exit status, `none` when stderr said nothing.
pub open spec fn failed_event(command: Seq<char>, duration_ms: u64, timed_out: bool, exit_status: Option<Seq<char>>, stderr_summary: Seq<char>) -> Seq<char> {
    "env_command_failed command="@ + command + " duration_ms="@ + decimal(duration_ms as nat) + " timeout="@
        + (if timed_out { "true"@ } else { "false"@ }) + " exit_status="@
        + (match exit_status { Some(s) => s, None => "n/a"@ }) + " stderr="@
        + (if stderr_summary.len() == 0 { "none"@ } else { stderr_summary })
}

/// The lifecycle event of a provider run that failed.
pub fn env_command_failed_event(command: &str, duration_ms: u64, timed_out: bool, exit_status: &Option<String>, stderr_summary: &str) -> (m: String)
    ensures
        m@ == failed_event(command@, duration_ms, timed_out, crate::config::opt_view(*exit_status), stderr_summary@),
{
    let mut m = String::from_str("env_command_failed command=");
    m.append(command);
    m.append(" duration_ms=");
    push_decimal(&mut m, duration_ms);
    m.append(" timeout=");
    if timed_out {
        m.append("true");
    } else {
        m.append("false");
    }
    m.append(" exit_status=");
    match exit_status {
        Some(s) => m.append(s.as_str()),
        None => m.append("n/a"),
    }
    m.append(" stderr=");
    if stderr_summary.unicode_len() == 0 {
        m.append("none");
    } else {
        m.append(stderr_summary);
    }
    m
}


/// What `std::path::Path::parent` gives for the path `p`.
pub uninterp spec fn parent_path(p: Seq<char>) -> Option<Seq<char>>;

/// `Path::parent` of the path `p`, as text: the result is `parent_path(p)`;
/// which part is the parent is not stated.
#[verifier::external_body]
fn path_parent(p: &str) -> (r: Option<String>)
    ensures
        crate::config::opt_view(r) == parent_path(p@),
{
    std::path::Path::new(p).parent().map(|q| q.to_string_lossy().into_owned())
}

/// The directory of the config file: its path's parent, unless that is
/// missing or empty, in which case the current directory.
pub open spec fn config_dir_of(path: Seq<char>, current_dir: Seq<char>) -> Seq<char> {
    match parent_path(path) {
        Some(parent) => if parent.len() > 0 { parent } else { current_dir },
        None => current_dir,
    }
}

/// The directory relative paths of the config file are taken from (see
/// `config_dir_of`); `current_dir` is the current directory.
pub fn resolve_config_dir(path: &str, current_dir: &str) -> (r: String)
    ensures
        r@ == config_dir_of(path@, current_dir@),
{
    match path_parent(path) {
        Some(parent) => {
            if parent.as_str().unicode_len() > 0 {
                parent
            } else {
                String::from_str(current_dir)
            }
        },
        None => String::from_str(current_dir),
    }
}


proof fn lemma_utf8_concat(a: Seq<char>, b: Seq<char>)
    ensures
        utf8_len(a + b) == utf8_len(a) + utf8_len(b),
    decreases b.len(),
{
    if b.len() > 0 {
        assert((a + b).drop_last() =~= a + b.drop_last());
        assert((a + b).last() == b.last());
        lemma_utf8_concat(a, b.drop_last());
    } else {
        assert(a + b =~= a);
    }
}

/// A stderr summary is at most 243 bytes long: 240 bytes of stderr and `...`.
pub proof fn stderr_summary_is_short(text: Seq<char>)
    ensures
        stderr_summary(text) matches Some(s) ==> utf8_len(s) <= 243,
{
    let joined = join_with(kept_lines(lines(text)), " | "@);
    if utf8_len(joined) > 240 {
        let cut = joined.take(chars_within(joined, 240) as int);
        reveal_strlit("...");
        lemma_utf8_concat(cut, "..."@);
        assert(utf8_len("..."@) == 3) by {
            reveal_strlit("...");
            let d = "..."@;
            assert(d =~= seq!['.', '.', '.']);
            assert(d.drop_last() =~= seq!['.', '.']);
            assert(d.drop_last().drop_last() =~= seq!['.']);
            assert(d.drop_last().drop_last().drop_last() =~= Seq::<char>::empty());
            assert(('.' as u32) == 46);
            assert(seq!['.'].drop_last() =~= Seq::<char>::empty());
            assert(utf8_len(Seq::<char>::empty()) == 0);
            assert(utf8_width('.') == 1);
            assert(seq!['.'].last() == '.');
            assert(seq!['.', '.'].last() == '.');
            assert(d.last() == '.');
            assert(utf8_len(seq!['.']) == 1);
            assert(utf8_len(seq!['.', '.']) == 2);
        }
    }
}

} // verus!
